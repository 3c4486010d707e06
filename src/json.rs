use vstd::prelude::*;

verus! {

/// Mathematical model of a JSON number.
pub ghost enum NumSpec {
    PosInt(nat),
    NegInt(int),
    /// The value `(-1)^negative * mantissa * 2^exponent`, with the text it was read from.
    Float { negative: bool, mantissa: nat, exponent: int, text: Seq<char> },
}

/// Mathematical model of a JSON document.
pub ghost enum JsonSpec {
    Null,
    Bool(bool),
    Num(NumSpec),
    Str(Seq<char>),
    Array(Seq<JsonSpec>),
    Object(Seq<(Seq<char>, JsonSpec)>),
}

/// A finite binary floating-point number: `(-1)^negative * mantissa * 2^exponent`.
/// `text` is its JSON rendering, used when the number is printed.
pub struct FloatNum {
    pub negative: bool,
    pub mantissa: u64,
    pub exponent: i32,
    pub text: String,
}

/// A JSON number: a non-negative integer, a negative integer or a float.
pub enum JsonNumber {
    PosInt(u64),
    NegInt(i64),
    Float(FloatNum),
}

/// A JSON document. Objects keep their entries in the order they were read.
pub enum JsonValue {
    Null,
    Bool(bool),
    Number(JsonNumber),
    Str(String),
    Array(Vec<JsonValue>),
    Object(Vec<(String, JsonValue)>),
}

impl JsonNumber {
    pub open spec fn view(self) -> NumSpec {
        match self {
            JsonNumber::PosInt(n) => NumSpec::PosInt(n as nat),
            JsonNumber::NegInt(n) => NumSpec::NegInt(n as int),
            JsonNumber::Float(f) => NumSpec::Float {
                negative: f.negative,
                mantissa: f.mantissa as nat,
                exponent: f.exponent as int,
                text: f.text@,
            },
        }
    }
}

impl JsonValue {
    pub open spec fn view(self) -> JsonSpec
        decreases self,
    {
        match self {
            JsonValue::Null => JsonSpec::Null,
            JsonValue::Bool(b) => JsonSpec::Bool(b),
            JsonValue::Number(n) => JsonSpec::Num(n@),
            JsonValue::Str(s) => JsonSpec::Str(s@),
            JsonValue::Array(a) => JsonSpec::Array(
                Seq::new(
                    a.len() as nat,
                    |i: int|
                        if 0 <= i < a.len() {
                            a@[i].view()
                        } else {
                            JsonSpec::Null
                        },
                ),
            ),
            JsonValue::Object(o) => JsonSpec::Object(
                Seq::new(
                    o.len() as nat,
                    |i: int|
                        if 0 <= i < o.len() {
                            (o@[i].0@, o@[i].1.view())
                        } else {
                            (Seq::empty(), JsonSpec::Null)
                        },
                ),
            ),
        }
    }

    /// Every object in the document has distinct keys, and every number is in canonical form.
    pub open spec fn wf(self) -> bool {
        self@.wf()
    }
}

impl NumSpec {
    /// Negative integers are below zero; a float's mantissa is odd, and zero is `+0 * 2^0`.
    pub open spec fn wf(self) -> bool {
        match self {
            NumSpec::PosInt(_) => true,
            NumSpec::NegInt(n) => n < 0,
            NumSpec::Float { negative, mantissa, exponent, text } => if mantissa == 0 {
                !negative && exponent == 0
            } else {
                mantissa % 2 == 1
            },
        }
    }

    /// Sign of the number.
    pub open spec fn is_negative(self) -> bool {
        match self {
            NumSpec::PosInt(_) => false,
            NumSpec::NegInt(_) => true,
            NumSpec::Float { negative, .. } => negative,
        }
    }

    /// Magnitude's mantissa: the absolute value is `magnitude() * 2^exp()`.
    pub open spec fn magnitude(self) -> nat {
        match self {
            NumSpec::PosInt(n) => n,
            NumSpec::NegInt(n) => (-n) as nat,
            NumSpec::Float { mantissa, .. } => mantissa,
        }
    }

    pub open spec fn exp(self) -> int {
        match self {
            NumSpec::Float { exponent, .. } => exponent,
            _ => 0,
        }
    }

    /// Mantissa of the number as a double: integers are rounded to 53 significant bits, floats are
    /// already doubles.
    pub open spec fn f64_mantissa(self) -> nat {
        match self {
            NumSpec::Float { mantissa, .. } => mantissa,
            _ => round_to_double(self.magnitude()).0,
        }
    }

    pub open spec fn f64_exp(self) -> int {
        match self {
            NumSpec::Float { exponent, .. } => exponent,
            _ => round_to_double(self.magnitude()).1,
        }
    }

    /// The value as a double, scaled by `2^-base`; meaningful when `base <= self.f64_exp()`.
    pub open spec fn scaled(self, base: int) -> int {
        let m = self.f64_mantissa() * vstd::arithmetic::power2::pow2((self.f64_exp() - base) as nat);
        if self.is_negative() {
            -m
        } else {
            m as int
        }
    }

    /// Strict order of the two numbers coerced to doubles.
    pub open spec fn less(self, other: NumSpec) -> bool {
        let base = if self.f64_exp() <= other.f64_exp() {
            self.f64_exp()
        } else {
            other.f64_exp()
        };
        self.scaled(base) < other.scaled(base)
    }

    /// Equality of JSON numbers: same kind and same value (a float's text is not compared).
    pub open spec fn same(self, other: NumSpec) -> bool {
        match (self, other) {
            (NumSpec::PosInt(a), NumSpec::PosInt(b)) => a == b,
            (NumSpec::NegInt(a), NumSpec::NegInt(b)) => a == b,
            (
                NumSpec::Float { negative: n1, mantissa: m1, exponent: e1, .. },
                NumSpec::Float { negative: n2, mantissa: m2, exponent: e2, .. },
            ) => n1 == n2 && m1 == m2 && e1 == e2,
            _ => false,
        }
    }
}

/// Number of significant bits of `v`.
pub open spec fn bits(v: nat) -> nat
    decreases v,
{
    if v == 0 {
        0
    } else {
        1 + bits(v / 2)
    }
}

/// `v` rounded to the nearest double, ties to even, as `(mantissa, exponent)`: exact below `2^53`,
/// otherwise kept to its 53 leading bits.
pub open spec fn round_to_double(v: nat) -> (nat, int) {
    if bits(v) <= 53 {
        (v, 0)
    } else {
        let k = (bits(v) - 53) as nat;
        let q = v / vstd::arithmetic::power2::pow2(k);
        let r = v % vstd::arithmetic::power2::pow2(k);
        let half = vstd::arithmetic::power2::pow2((k - 1) as nat);
        if r > half || (r == half && q % 2 == 1) {
            (q + 1, k as int)
        } else {
            (q, k as int)
        }
    }
}

/// Index of the entry with key `k`, if any.
pub open spec fn has_key(es: Seq<(Seq<char>, JsonSpec)>, k: Seq<char>) -> bool {
    exists|i: int| 0 <= i < es.len() && es[i].0 == k
}

/// Value stored under key `k` in an object's entries (keys are distinct in a well-formed object).
pub open spec fn obj_get(es: Seq<(Seq<char>, JsonSpec)>, k: Seq<char>) -> Option<JsonSpec> {
    if has_key(es, k) {
        let i = choose|i: int| 0 <= i < es.len() && es[i].0 == k;
        Some(es[i].1)
    } else {
        None
    }
}

pub open spec fn keys_distinct(es: Seq<(Seq<char>, JsonSpec)>) -> bool {
    forall|i: int, j: int| 0 <= i < j < es.len() ==> es[i].0 != es[j].0
}

impl JsonSpec {
    pub open spec fn wf(self) -> bool
        decreases self,
    {
        match self {
            JsonSpec::Num(n) => n.wf(),
            JsonSpec::Array(xs) => forall|i: int| 0 <= i < xs.len() ==> (#[trigger] xs[i]).wf(),
            JsonSpec::Object(es) => keys_distinct(es) && forall|i: int|
                0 <= i < es.len() ==> (#[trigger] es[i]).1.wf(),
            _ => true,
        }
    }

    /// Structural JSON equality: type-sensitive, objects compared as maps (key order ignored).
    pub open spec fn equiv(self, other: JsonSpec) -> bool
        decreases self,
    {
        match self {
            JsonSpec::Null => other is Null,
            JsonSpec::Bool(b) => other == JsonSpec::Bool(b),
            JsonSpec::Str(s) => other == JsonSpec::Str(s),
            JsonSpec::Num(n) => match other {
                JsonSpec::Num(m) => n.same(m),
                _ => false,
            },
            JsonSpec::Array(xs) => match other {
                JsonSpec::Array(ys) => xs.len() == ys.len() && forall|i: int|
                    0 <= i < xs.len() ==> (#[trigger] xs[i]).equiv(ys[i]),
                _ => false,
            },
            JsonSpec::Object(xs) => match other {
                JsonSpec::Object(ys) => xs.len() == ys.len() && forall|i: int|
                    0 <= i < xs.len() ==> match obj_get(ys, (#[trigger] xs[i]).0) {
                        Some(w) => xs[i].1.equiv(w),
                        None => false,
                    },
                _ => false,
            },
        }
    }
}

/// In entries with distinct keys, the value under the key of entry `idx` is that entry's value.
pub proof fn lemma_obj_get_at(es: Seq<(Seq<char>, JsonSpec)>, idx: int)
    requires
        keys_distinct(es),
        0 <= idx < es.len(),
    ensures
        obj_get(es, es[idx].0) == Some(es[idx].1),
{
    let k = es[idx].0;
    assert(has_key(es, k));
    let i = choose|i: int| 0 <= i < es.len() && es[i].0 == k;
    if i != idx {
        if i < idx {
            assert(es[i].0 != es[idx].0);
        } else {
            assert(es[idx].0 != es[i].0);
        }
    }
}

/// Every well-formed JSON document is structurally equal to itself.
pub proof fn lemma_equiv_refl(v: JsonSpec)
    requires
        v.wf(),
    ensures
        v.equiv(v),
    decreases v,
{
    match v {
        JsonSpec::Array(xs) => {
            assert forall|i: int| 0 <= i < xs.len() implies (#[trigger] xs[i]).equiv(xs[i]) by {
                assert(decreases_to!(v => xs[i]));
                assert(xs[i].wf());
                lemma_equiv_refl(xs[i]);
            }
        },
        JsonSpec::Object(xs) => {
            assert forall|i: int| 0 <= i < xs.len() implies match obj_get(xs, (#[trigger] xs[i]).0) {
                Some(w) => xs[i].1.equiv(w),
                None => false,
            } by {
                assert(decreases_to!(v => xs[i].1));
                assert(xs[i].1.wf());
                lemma_equiv_refl(xs[i].1);
                lemma_obj_get_at(xs, i);
            }
        },
        _ => {},
    }
}

/// A value found under a key of a well-formed object is well formed.
pub proof fn lemma_obj_get_wf(es: Seq<(Seq<char>, JsonSpec)>, k: Seq<char>)
    requires
        forall|i: int| 0 <= i < es.len() ==> (#[trigger] es[i]).1.wf(),
    ensures
        obj_get(es, k) matches Some(w) ==> w.wf(),
{
    if has_key(es, k) {
        let i = choose|i: int| 0 <= i < es.len() && es[i].0 == k;
        assert(es[i].1.wf());
    }
}

impl FloatNum {
    pub fn copy(&self) -> (r: FloatNum)
        ensures
            r.negative == self.negative,
            r.mantissa == self.mantissa,
            r.exponent == self.exponent,
            r.text@ == self.text@,
    {
        FloatNum {
            negative: self.negative,
            mantissa: self.mantissa,
            exponent: self.exponent,
            text: self.text.clone(),
        }
    }
}

impl JsonNumber {
    pub fn copy(&self) -> (r: JsonNumber)
        ensures
            r@ == self@,
    {
        match self {
            JsonNumber::PosInt(n) => JsonNumber::PosInt(*n),
            JsonNumber::NegInt(n) => JsonNumber::NegInt(*n),
            JsonNumber::Float(f) => JsonNumber::Float(f.copy()),
        }
    }

    /// Equality of JSON numbers: same kind and same value.
    pub fn same(&self, other: &JsonNumber) -> (r: bool)
        ensures
            r == self@.same(other@),
    {
        match (self, other) {
            (JsonNumber::PosInt(a), JsonNumber::PosInt(b)) => *a == *b,
            (JsonNumber::NegInt(a), JsonNumber::NegInt(b)) => *a == *b,
            (JsonNumber::Float(a), JsonNumber::Float(b)) => a.negative == b.negative && a.mantissa
                == b.mantissa && a.exponent == b.exponent,
            _ => false,
        }
    }
}

pub fn str_eq(a: &String, b: &String) -> (r: bool)
    ensures
        r == (a@ == b@),
{
    let av = crate::text::chars_of(a.as_str());
    let bv = crate::text::chars_of(b.as_str());
    crate::text::chars_eq(&av, &bv)
}

fn copy_value(v: &JsonValue) -> (r: JsonValue)
    ensures
        r@ == v@,
    decreases v,
{
    match v {
        JsonValue::Null => JsonValue::Null,
        JsonValue::Bool(b) => JsonValue::Bool(*b),
        JsonValue::Number(n) => JsonValue::Number(n.copy()),
        JsonValue::Str(s) => JsonValue::Str(s.clone()),
        JsonValue::Array(xs) => {
            let mut out: Vec<JsonValue> = Vec::new();
            let mut i: usize = 0;
            assert(decreases_to!(*v => *xs));
            while i < xs.len()
                invariant
                    decreases_to!(*v => *xs),
                    i <= xs.len(),
                    out.len() == i,
                    forall|k: int| 0 <= k < i ==> (#[trigger] out@[k])@ == xs@[k]@,
                decreases xs.len() - i,
            {
                proof {
                    assert(decreases_to!(*xs => xs@));
                    assert(decreases_to!(xs@ => xs@[i as int]));
                    assert(decreases_to!(*v => xs@[i as int]));
                }
                out.push(copy_value(&xs[i]));
                i = i + 1;
            }
            let r = JsonValue::Array(out);
            proof {
                let a = match r@ {
                    JsonSpec::Array(s) => s,
                    _ => Seq::empty(),
                };
                let b = match v@ {
                    JsonSpec::Array(s) => s,
                    _ => Seq::empty(),
                };
                assert(a =~= b);
            }
            r
        },
        JsonValue::Object(es) => {
            let mut out: Vec<(String, JsonValue)> = Vec::new();
            let mut i: usize = 0;
            assert(decreases_to!(*v => *es));
            while i < es.len()
                invariant
                    decreases_to!(*v => *es),
                    i <= es.len(),
                    out.len() == i,
                    forall|k: int|
                        0 <= k < i ==> (#[trigger] out@[k]).0@ == es@[k].0@ && out@[k].1@
                            == es@[k].1@,
                decreases es.len() - i,
            {
                proof {
                    assert(decreases_to!(*es => es@));
                    assert(decreases_to!(es@ => es@[i as int]));
                    assert(decreases_to!(es@[i as int] => es@[i as int].1));
                    assert(decreases_to!(*v => es@[i as int].1));
                }
                let c = copy_value(&es[i].1);
                out.push((es[i].0.clone(), c));
                i = i + 1;
            }
            let r = JsonValue::Object(out);
            proof {
                let a = match r@ {
                    JsonSpec::Object(s) => s,
                    _ => Seq::empty(),
                };
                let b = match v@ {
                    JsonSpec::Object(s) => s,
                    _ => Seq::empty(),
                };
                assert(a =~= b);
            }
            r
        },
    }
}

fn equiv_values(a: &JsonValue, b: &JsonValue) -> (r: bool)
    requires
        b.wf(),
    ensures
        r == a@.equiv(b@),
    decreases a,
{
    match a {
        JsonValue::Null => b.is_null(),
        JsonValue::Bool(x) => match b {
            JsonValue::Bool(y) => *x == *y,
            _ => false,
        },
        JsonValue::Str(x) => match b {
            JsonValue::Str(y) => str_eq(x, y),
            _ => false,
        },
        JsonValue::Number(x) => match b {
            JsonValue::Number(y) => x.same(y),
            _ => false,
        },
        JsonValue::Array(xs) => match b {
            JsonValue::Array(ys) => {
                if xs.len() != ys.len() {
                    return false;
                }
                let ghost sa = match a@ {
                    JsonSpec::Array(s) => s,
                    _ => Seq::empty(),
                };
                let ghost sb = match b@ {
                    JsonSpec::Array(s) => s,
                    _ => Seq::empty(),
                };
                assert(decreases_to!(*a => *xs));
                assert(b@.wf());
                assert(forall|k: int| 0 <= k < sb.len() ==> (#[trigger] sb[k]).wf());
                let mut i: usize = 0;
                while i < xs.len()
                    invariant
                        decreases_to!(*a => *xs),
                        xs.len() == ys.len(),
                        sa.len() == xs.len(),
                        sb.len() == ys.len(),
                        a@ == JsonSpec::Array(sa),
                        b@ == JsonSpec::Array(sb),
                        forall|k: int| 0 <= k < sb.len() ==> (#[trigger] sb[k]).wf(),
                        forall|k: int| 0 <= k < xs.len() ==> (#[trigger] sa[k]) == xs@[k]@,
                        forall|k: int| 0 <= k < ys.len() ==> (#[trigger] sb[k]) == ys@[k]@,
                        forall|k: int| 0 <= k < i ==> (#[trigger] sa[k]).equiv(sb[k]),
                    decreases xs.len() - i,
                {
                    proof {
                        assert(decreases_to!(*xs => xs@));
                        assert(decreases_to!(xs@ => xs@[i as int]));
                        assert(sb[i as int] == ys@[i as int]@);
                        assert(sb[i as int].wf());
                        assert(ys@[i as int].wf());
                    }
                    if !equiv_values(&xs[i], &ys[i]) {
                        assert(!sa[i as int].equiv(sb[i as int]));
                        return false;
                    }
                    i = i + 1;
                }
                true
            },
            _ => false,
        },
        JsonValue::Object(xs) => match b {
            JsonValue::Object(ys) => {
                if xs.len() != ys.len() {
                    return false;
                }
                let ghost sa = match a@ {
                    JsonSpec::Object(s) => s,
                    _ => Seq::empty(),
                };
                let ghost sb = match b@ {
                    JsonSpec::Object(s) => s,
                    _ => Seq::empty(),
                };
                assert(decreases_to!(*a => *xs));
                let mut i: usize = 0;
                while i < xs.len()
                    invariant
                        decreases_to!(*a => *xs),
                        xs.len() == ys.len(),
                        sa.len() == xs.len(),
                        sb.len() == ys.len(),
                        a@ == JsonSpec::Object(sa),
                        b@ == JsonSpec::Object(sb),
                        b.wf(),
                        forall|k: int|
                            0 <= k < xs.len() ==> (#[trigger] sa[k]).0 == xs@[k].0@ && sa[k].1
                                == xs@[k].1@,
                        forall|k: int|
                            0 <= k < i ==> match obj_get(sb, (#[trigger] sa[k]).0) {
                                Some(w) => sa[k].1.equiv(w),
                                None => false,
                            },
                    decreases xs.len() - i,
                {
                    proof {
                        assert(decreases_to!(*xs => xs@));
                        assert(decreases_to!(xs@ => xs@[i as int]));
                        assert(decreases_to!(xs@[i as int] => xs@[i as int].1));
                        lemma_obj_get_wf(sb, xs@[i as int].0@);
                    }
                    match b.get_key(xs[i].0.as_str()) {
                        Some(w) => {
                            if !equiv_values(&xs[i].1, w) {
                                assert(obj_get(sb, sa[i as int].0) == Some(w@));
                                return false;
                            }
                        },
                        None => {
                            assert(obj_get(sb, sa[i as int].0) is None);
                            return false;
                        },
                    }
                    i = i + 1;
                }
                true
            },
            _ => false,
        },
    }
}

impl JsonValue {
    /// A copy of the document.
    pub fn deep_copy(&self) -> (r: JsonValue)
        ensures
            r@ == self@,
    {
        copy_value(self)
    }

    /// The value under `key`, when `self` is an object that has it.
    pub fn get_key(&self, key: &str) -> (r: Option<&JsonValue>)
        requires
            self.wf(),
        ensures
            match self@ {
                JsonSpec::Object(es) => match r {
                    Some(v) => obj_get(es, key@) == Some(v@),
                    None => obj_get(es, key@) is None,
                },
                _ => r is None,
            },
    {
        match self {
            JsonValue::Object(es) => {
                let kv = crate::text::chars_of(key);
                let ghost ses = match self@ {
                    JsonSpec::Object(s) => s,
                    _ => Seq::empty(),
                };
                assert(self@ == JsonSpec::Object(ses));
                assert(self@.wf());
                assert(keys_distinct(ses));
                let mut i: usize = 0;
                while i < es.len()
                    invariant
                        i <= es.len(),
                        kv@ == key@,
                        ses.len() == es.len(),
                        forall|k: int| 0 <= k < es.len() ==> (#[trigger] ses[k]).0 == es@[k].0@ && ses[k].1 == es@[k].1@,
                        forall|k: int| 0 <= k < i ==> (#[trigger] ses[k]).0 != key@,
                        keys_distinct(ses),
                        self@ == JsonSpec::Object(ses),
                    decreases es.len() - i,
                {
                    let ev = crate::text::chars_of(es[i].0.as_str());
                    if crate::text::chars_eq(&ev, &kv) {
                        proof {
                            lemma_obj_get_at(ses, i as int);
                        }
                        return Some(&es[i].1);
                    }
                    i = i + 1;
                }
                None
            },
            _ => None,
        }
    }

    /// The element at `idx`, when `self` is an array that long.
    pub fn get_index(&self, idx: usize) -> (r: Option<&JsonValue>)
        ensures
            match self@ {
                JsonSpec::Array(xs) => match r {
                    Some(v) => idx < xs.len() && xs[idx as int] == v@,
                    None => idx >= xs.len(),
                },
                _ => r is None,
            },
    {
        match self {
            JsonValue::Array(xs) => {
                if idx < xs.len() {
                    Some(&xs[idx])
                } else {
                    None
                }
            },
            _ => None,
        }
    }

    /// Structural JSON equality: type-sensitive, with object key order ignored.
    pub fn equiv(&self, other: &JsonValue) -> (r: bool)
        requires
            other.wf(),
        ensures
            r == self@.equiv(other@),
    {
        equiv_values(self, other)
    }

    pub fn is_null(&self) -> (r: bool)
        ensures
            r == (self@ is Null),
    {
        match self {
            JsonValue::Null => true,
            _ => false,
        }
    }
}

fn number_wf(n: &JsonNumber) -> (r: bool)
    ensures
        r == n@.wf(),
{
    match n {
        JsonNumber::PosInt(_) => true,
        JsonNumber::NegInt(v) => *v < 0,
        JsonNumber::Float(f) => if f.mantissa == 0 {
            !f.negative && f.exponent == 0
        } else {
            f.mantissa % 2 == 1
        },
    }
}

fn check_wf(v: &JsonValue) -> (r: bool)
    ensures
        r == v.wf(),
    decreases v,
{
    match v {
        JsonValue::Number(n) => number_wf(n),
        JsonValue::Array(xs) => {
            let ghost sx = v@->Array_0;
            assert(decreases_to!(*v => *xs));
            let mut i: usize = 0;
            while i < xs.len()
                invariant
                    decreases_to!(*v => *xs),
                    i <= xs.len(),
                    sx == v@->Array_0,
                    v@ is Array,
                    sx.len() == xs.len(),
                    forall|k: int| 0 <= k < xs.len() ==> (#[trigger] sx[k]) == xs@[k]@,
                    forall|k: int| 0 <= k < i ==> (#[trigger] sx[k]).wf(),
                decreases xs.len() - i,
            {
                proof {
                    assert(decreases_to!(*xs => xs@));
                    assert(decreases_to!(xs@ => xs@[i as int]));
                    assert(sx[i as int] == xs@[i as int]@);
                }
                if !check_wf(&xs[i]) {
                    assert(!sx[i as int].wf());
                    return false;
                }
                i = i + 1;
            }
            true
        },
        JsonValue::Object(es) => {
            let ghost se = v@->Object_0;
            assert(decreases_to!(*v => *es));
            let mut i: usize = 0;
            while i < es.len()
                invariant
                    decreases_to!(*v => *es),
                    i <= es.len(),
                    se == v@->Object_0,
                    v@ is Object,
                    se.len() == es.len(),
                    forall|k: int| 0 <= k < es.len() ==> (#[trigger] se[k]).0 == es@[k].0@ && se[k].1 == es@[k].1@,
                    forall|k: int| 0 <= k < i ==> (#[trigger] se[k]).1.wf(),
                    forall|a: int, b: int| 0 <= a < b < i ==> se[a].0 != se[b].0,
                decreases es.len() - i,
            {
                proof {
                    assert(decreases_to!(*es => es@));
                    assert(decreases_to!(es@ => es@[i as int]));
                    assert(decreases_to!(es@[i as int] => es@[i as int].1));
                    assert(se[i as int].1 == es@[i as int].1@);
                }
                if !check_wf(&es[i].1) {
                    assert(!se[i as int].1.wf());
                    return false;
                }
                let mut j: usize = 0;
                while j < i
                    invariant
                        j <= i < es.len(),
                        se == v@->Object_0,
                        v@ is Object,
                        se.len() == es.len(),
                        forall|k: int| 0 <= k < es.len() ==> (#[trigger] se[k]).0 == es@[k].0@ && se[k].1 == es@[k].1@,
                        forall|a: int| 0 <= a < j ==> se[a].0 != se[i as int].0,
                    decreases i - j,
                {
                    if str_eq(&es[j].0, &es[i].0) {
                        assert(se[j as int].0 == se[i as int].0);
                        assert(!keys_distinct(se));
                        return false;
                    }
                    j = j + 1;
                }
                i = i + 1;
            }
            true
        },
        _ => true,
    }
}

impl JsonValue {
    /// Whether the document is well formed: distinct keys in every object, numbers in canonical
    /// form.
    pub fn is_wf(&self) -> (r: bool)
        ensures
            r == self.wf(),
    {
        check_wf(self)
    }
}

} // verus!
