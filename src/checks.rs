use vstd::prelude::*;
use crate::json::{JsonNumber, JsonSpec, JsonValue, NumSpec};
use crate::number::num_less;
use crate::path::{get_by_path, resolve};
use crate::render::{push_json, push_number, render, number_text};
use crate::text::{push_str, chars_of, string_of};

verus! {

/// Whether `regex::Regex::new` accepts the pattern `p`.
pub uninterp spec fn regex_compiles(p: Seq<char>) -> bool;

/// Whether the regex `p` matches somewhere in `t` (`regex::Regex::is_match`).
pub uninterp spec fn regex_finds(p: Seq<char>, t: Seq<char>) -> bool;

/// The explanation `regex::Error` gives (through `Display`) for a pattern `regex::Regex::new`
/// rejects.
pub uninterp spec fn regex_error_text(p: Seq<char>) -> Seq<char>;

/// Relies on `regex::Regex::new` (which rejects a pattern that does not parse or is too large) and
/// `regex::Regex::is_match` (search semantics: a match anywhere in `text`).
/// Gives `Err` with the crate's explanation when the pattern does not compile.
#[verifier::external_body]
fn regex_search(pattern: &str, text: &str) -> (r: Result<bool, String>)
    ensures
        r is Ok <==> regex_compiles(pattern@),
        r matches Ok(b) ==> b == regex_finds(pattern@, text@),
        r matches Err(e) ==> e@ == regex_error_text(pattern@),
{
    match regex::Regex::new(pattern) {
        Ok(re) => Ok(re.is_match(text)),
        Err(e) => Err(e.to_string()),
    }
}

/// Whether `pattern` compiles as a regex.
pub fn regex_is_valid(pattern: &str) -> (r: bool)
    ensures
        r == regex_compiles(pattern@),
{
    regex_search(pattern, "").is_ok()
}

/// One predicate applied to the value found at an assertion's path.
pub enum Assertion {
    Eq(JsonValue),
    Gt(JsonValue),
    Lt(JsonValue),
    Exists(bool),
    Regex(String),
}

pub ghost enum AssertionSpec {
    Eq(JsonSpec),
    Gt(JsonSpec),
    Lt(JsonSpec),
    Exists(bool),
    Regex(Seq<char>),
}

impl Assertion {
    pub open spec fn view(self) -> AssertionSpec {
        match self {
            Assertion::Eq(v) => AssertionSpec::Eq(v@),
            Assertion::Gt(v) => AssertionSpec::Gt(v@),
            Assertion::Lt(v) => AssertionSpec::Lt(v@),
            Assertion::Exists(b) => AssertionSpec::Exists(b),
            Assertion::Regex(p) => AssertionSpec::Regex(p@),
        }
    }

    pub open spec fn wf(self) -> bool {
        match self {
            Assertion::Eq(v) => v.wf(),
            Assertion::Gt(v) => v.wf(),
            Assertion::Lt(v) => v.wf(),
            _ => true,
        }
    }
}

/// Why an assertion did not hold.
pub enum AssertionFailure {
    /// The path does not resolve in the output.
    PathNotFound { path: String },
    /// `Eq`: the value differs from the expected one.
    NotEqual { path: String, expected: JsonValue, actual: JsonValue },
    /// `Gt` / `Lt`: an operand is not a number.
    NotNumeric { value: JsonValue },
    /// `Gt`: `actual <= bound`.
    NotGreater { path: String, found: JsonNumber, bound: JsonNumber },
    /// `Lt`: `actual >= bound`.
    NotLess { path: String, found: JsonNumber, bound: JsonNumber },
    /// `Exists(true)`: the value is null.
    Missing { path: String },
    /// `Regex`: the value is not a string.
    NotString { path: String },
    /// `Regex`: the pattern does not compile.
    InvalidRegex { pattern: String, reason: String },
    /// `Regex`: the string does not match.
    NoMatch { path: String, text: String, pattern: String },
}

pub ghost enum FailureSpec {
    PathNotFound(Seq<char>),
    NotEqual(Seq<char>, JsonSpec, JsonSpec),
    NotNumeric(JsonSpec),
    NotGreater(Seq<char>, NumSpec, NumSpec),
    NotLess(Seq<char>, NumSpec, NumSpec),
    Missing(Seq<char>),
    NotString(Seq<char>),
    InvalidRegex(Seq<char>, Seq<char>),
    NoMatch(Seq<char>, Seq<char>, Seq<char>),
}

impl AssertionFailure {
    pub open spec fn view(self) -> FailureSpec {
        match self {
            AssertionFailure::PathNotFound { path } => FailureSpec::PathNotFound(path@),
            AssertionFailure::NotEqual { path, expected, actual } => FailureSpec::NotEqual(
                path@,
                expected@,
                actual@,
            ),
            AssertionFailure::NotNumeric { value } => FailureSpec::NotNumeric(value@),
            AssertionFailure::NotGreater { path, found, bound } => FailureSpec::NotGreater(
                path@,
                found@,
                bound@,
            ),
            AssertionFailure::NotLess { path, found, bound } => FailureSpec::NotLess(
                path@,
                found@,
                bound@,
            ),
            AssertionFailure::Missing { path } => FailureSpec::Missing(path@),
            AssertionFailure::NotString { path } => FailureSpec::NotString(path@),
            AssertionFailure::InvalidRegex { pattern, reason } => FailureSpec::InvalidRegex(pattern@, reason@),
            AssertionFailure::NoMatch { path, text, pattern } => FailureSpec::NoMatch(
                path@,
                text@,
                pattern@,
            ),
        }
    }
}

impl FailureSpec {
    pub open spec fn wf(self) -> bool {
        match self {
            FailureSpec::NotEqual(_, e, a) => e.wf() && a.wf(),
            FailureSpec::NotNumeric(v) => v.wf(),
            FailureSpec::NotGreater(_, a, b) => a.wf() && b.wf(),
            FailureSpec::NotLess(_, a, b) => a.wf() && b.wf(),
            _ => true,
        }
    }
}

/// The verdict of one assertion on a document: `None` when it holds.
pub open spec fn check_spec(actual: JsonSpec, path: Seq<char>, a: AssertionSpec) -> Option<
    FailureSpec,
> {
    match resolve(actual, path) {
        None => Some(FailureSpec::PathNotFound(path)),
        Some(v) => match a {
            AssertionSpec::Eq(e) => if v.equiv(e) {
                None
            } else {
                Some(FailureSpec::NotEqual(path, e, v))
            },
            AssertionSpec::Gt(b) => match v {
                JsonSpec::Num(x) => match b {
                    JsonSpec::Num(y) => if y.less(x) {
                        None
                    } else {
                        Some(FailureSpec::NotGreater(path, x, y))
                    },
                    _ => Some(FailureSpec::NotNumeric(b)),
                },
                _ => Some(FailureSpec::NotNumeric(v)),
            },
            AssertionSpec::Lt(b) => match v {
                JsonSpec::Num(x) => match b {
                    JsonSpec::Num(y) => if x.less(y) {
                        None
                    } else {
                        Some(FailureSpec::NotLess(path, x, y))
                    },
                    _ => Some(FailureSpec::NotNumeric(b)),
                },
                _ => Some(FailureSpec::NotNumeric(v)),
            },
            AssertionSpec::Exists(e) => if e && v is Null {
                Some(FailureSpec::Missing(path))
            } else {
                None
            },
            AssertionSpec::Regex(p) => match v {
                JsonSpec::Str(s) => if !regex_compiles(p) {
                    Some(FailureSpec::InvalidRegex(p, regex_error_text(p)))
                } else if regex_finds(p, s) {
                    None
                } else {
                    Some(FailureSpec::NoMatch(path, s, p))
                },
                _ => Some(FailureSpec::NotString(path)),
            },
        },
    }
}

/// The first failing assertion among the first `n`, in order.
pub open spec fn first_failure(actual: JsonSpec, specs: Seq<(Seq<char>, AssertionSpec)>, n: int) -> Option<
    FailureSpec,
>
    decreases n,
{
    if n <= 0 || n > specs.len() {
        None
    } else {
        match first_failure(actual, specs, n - 1) {
            Some(f) => Some(f),
            None => check_spec(actual, specs[n - 1].0, specs[n - 1].1),
        }
    }
}

/// Every failure among the first `n` assertions, in order.
pub open spec fn all_failures(actual: JsonSpec, specs: Seq<(Seq<char>, AssertionSpec)>, n: int) -> Seq<
    FailureSpec,
>
    decreases n,
{
    if n <= 0 || n > specs.len() {
        Seq::empty()
    } else {
        let before = all_failures(actual, specs, n - 1);
        match check_spec(actual, specs[n - 1].0, specs[n - 1].1) {
            Some(f) => before.push(f),
            None => before,
        }
    }
}

pub open spec fn specs_view(assertions: Seq<(String, Assertion)>) -> Seq<(Seq<char>, AssertionSpec)> {
    Seq::new(assertions.len(), |i: int| (assertions[i].0@, assertions[i].1@))
}

/// Assertion keys are distinct and in key order, the order in which assertions are applied.
pub open spec fn keys_in_order(assertions: Seq<(String, Assertion)>) -> bool {
    forall|i: int, j: int| 0 <= i < j < assertions.len() ==> crate::snapshot::key_lt(assertions[i].0@, assertions[j].0@)
}

/// Whether the keys are distinct and in key order.
pub fn assertion_keys_in_order(assertions: &Vec<(String, Assertion)>) -> (r: bool)
    ensures
        r == keys_in_order(assertions@),
{
    let mut i: usize = 1;
    if assertions.len() == 0 {
        return true;
    }
    while i < assertions.len()
        invariant
            1 <= i <= assertions.len(),
            forall|a: int, b: int| 0 <= a < b < i ==> crate::snapshot::key_lt(assertions@[a].0@, assertions@[b].0@),
        decreases assertions.len() - i,
    {
        let a = chars_of(assertions[i - 1].0.as_str());
        let b = chars_of(assertions[i].0.as_str());
        if !crate::snapshot::key_less(&a, &b) {
            return false;
        }
        proof {
            assert forall|x: int, y: int| 0 <= x < y < i + 1 implies crate::snapshot::key_lt(assertions@[x].0@, assertions@[y].0@) by {
                if y == i && x < i - 1 {
                    crate::snapshot::lemma_key_lt_trans(assertions@[x].0@, assertions@[i - 1].0@, assertions@[i as int].0@);
                }
            }
        }
        i = i + 1;
    }
    true
}

pub open spec fn all_wf(assertions: Seq<(String, Assertion)>) -> bool {
    forall|i: int| 0 <= i < assertions.len() ==> (#[trigger] assertions[i]).1.wf()
}

fn copy_string(s: &String) -> (r: String)
    ensures
        r@ == s@,
{
    s.clone()
}

/// Checks one assertion against the value at `path` in `actual`.
pub fn check_assertion(actual: &JsonValue, path: &str, assertion: &Assertion) -> (r: Result<
    (),
    AssertionFailure,
>)
    requires
        actual.wf(),
        assertion.wf(),
    ensures
        match check_spec(actual@, path@, assertion@) {
            None => r is Ok,
            Some(f) => r matches Err(e) && e@ == f,
        },
        r matches Err(e) ==> e@.wf(),
{
    let path_s = string_of(&chars_of(path));
    let found = get_by_path(actual, path);
    let v = match found {
        None => {
            return Err(AssertionFailure::PathNotFound { path: path_s });
        },
        Some(v) => v,
    };
    proof {
        lemma_found_wf(actual@, path@);
    }
    match assertion {
        Assertion::Eq(e) => {
            if v.equiv(e) {
                Ok(())
            } else {
                Err(
                    AssertionFailure::NotEqual {
                        path: path_s,
                        expected: e.deep_copy(),
                        actual: v.deep_copy(),
                    },
                )
            }
        },
        Assertion::Gt(b) => match v {
            JsonValue::Number(x) => match b {
                JsonValue::Number(y) => {
                    if num_less(y, x) {
                        Ok(())
                    } else {
                        Err(
                            AssertionFailure::NotGreater {
                                path: path_s,
                                found: x.copy(),
                                bound: y.copy(),
                            },
                        )
                    }
                },
                _ => Err(AssertionFailure::NotNumeric { value: b.deep_copy() }),
            },
            _ => Err(AssertionFailure::NotNumeric { value: v.deep_copy() }),
        },
        Assertion::Lt(b) => match v {
            JsonValue::Number(x) => match b {
                JsonValue::Number(y) => {
                    if num_less(x, y) {
                        Ok(())
                    } else {
                        Err(
                            AssertionFailure::NotLess {
                                path: path_s,
                                found: x.copy(),
                                bound: y.copy(),
                            },
                        )
                    }
                },
                _ => Err(AssertionFailure::NotNumeric { value: b.deep_copy() }),
            },
            _ => Err(AssertionFailure::NotNumeric { value: v.deep_copy() }),
        },
        Assertion::Exists(e) => {
            if *e && v.is_null() {
                Err(AssertionFailure::Missing { path: path_s })
            } else {
                Ok(())
            }
        },
        Assertion::Regex(p) => match v {
            JsonValue::Str(s) => match regex_search(p.as_str(), s.as_str()) {
                Err(reason) => Err(AssertionFailure::InvalidRegex { pattern: copy_string(p), reason }),
                Ok(true) => Ok(()),
                Ok(false) => Err(
                    AssertionFailure::NoMatch {
                        path: path_s,
                        text: copy_string(s),
                        pattern: copy_string(p),
                    },
                ),
            },
            _ => Err(AssertionFailure::NotString { path: path_s }),
        },
    }
}

proof fn lemma_found_wf(v: JsonSpec, path: Seq<char>)
    requires
        v.wf(),
    ensures
        resolve(v, path) matches Some(w) ==> w.wf(),
{
    crate::path::lemma_resolve_wf(v, crate::path::segments(crate::path::bracket_free(path)));
}

/// Applies the assertions in order and stops at the first that fails.
pub fn assert_json(actual: &JsonValue, assertions: &Vec<(String, Assertion)>) -> (r: Result<
    (),
    AssertionFailure,
>)
    requires
        actual.wf(),
        all_wf(assertions@),
        keys_in_order(assertions@),
    ensures
        match first_failure(actual@, specs_view(assertions@), assertions@.len() as int) {
            None => r is Ok,
            Some(f) => r matches Err(e) && e@ == f,
        },
        r matches Err(e) ==> e@.wf(),
{
    let ghost sv = specs_view(assertions@);
    let mut i: usize = 0;
    while i < assertions.len()
        invariant
            i <= assertions.len(),
            sv == specs_view(assertions@),
            actual.wf(),
            all_wf(assertions@),
            first_failure(actual@, sv, i as int) is None,
        decreases assertions.len() - i,
    {
        assert(assertions@[i as int].1.wf());
        let res = check_assertion(actual, assertions[i].0.as_str(), &assertions[i].1);
        assert(sv[i as int] == (assertions@[i as int].0@, assertions@[i as int].1@));
        match res {
            Err(e) => {
                proof {
                    lemma_first_failure_stable(actual@, sv, i as int + 1, assertions@.len() as int);
                }
                return Err(e);
            },
            Ok(()) => {},
        }
        i = i + 1;
    }
    Ok(())
}

proof fn lemma_first_failure_stable(
    actual: JsonSpec,
    specs: Seq<(Seq<char>, AssertionSpec)>,
    n: int,
    m: int,
)
    requires
        0 < n <= m <= specs.len(),
        first_failure(actual, specs, n) is Some,
    ensures
        first_failure(actual, specs, m) == first_failure(actual, specs, n),
    decreases m - n,
{
    if m > n {
        lemma_first_failure_stable(actual, specs, n, m - 1);
    }
}

/// Applies every assertion and returns all failures, in order.
pub fn assert_json_all(actual: &JsonValue, assertions: &Vec<(String, Assertion)>) -> (r: Vec<
    AssertionFailure,
>)
    requires
        actual.wf(),
        all_wf(assertions@),
        keys_in_order(assertions@),
    ensures
        r@.len() == all_failures(actual@, specs_view(assertions@), assertions@.len() as int).len(),
        forall|k: int|
            0 <= k < r@.len() ==> (#[trigger] r@[k])@ == all_failures(
                actual@,
                specs_view(assertions@),
                assertions@.len() as int,
            )[k] && r@[k]@.wf(),
{
    let ghost sv = specs_view(assertions@);
    let mut out: Vec<AssertionFailure> = Vec::new();
    let mut i: usize = 0;
    while i < assertions.len()
        invariant
            i <= assertions.len(),
            sv == specs_view(assertions@),
            actual.wf(),
            all_wf(assertions@),
            out@.len() == all_failures(actual@, sv, i as int).len(),
            forall|k: int|
                0 <= k < out@.len() ==> (#[trigger] out@[k])@ == all_failures(actual@, sv, i as int)[k]
                    && out@[k]@.wf(),
        decreases assertions.len() - i,
    {
        assert(assertions@[i as int].1.wf());
        let res = check_assertion(actual, assertions[i].0.as_str(), &assertions[i].1);
        assert(sv[i as int] == (assertions@[i as int].0@, assertions@[i as int].1@));
        match res {
            Err(e) => {
                out.push(e);
            },
            Ok(()) => {},
        }
        i = i + 1;
    }
    out
}

impl AssertionFailure {
    /// The failure as one line of text.
    pub fn message(&self) -> (r: String)
        requires
            self@.wf(),
        ensures
            r@ == failure_message(self@),
    {
        let mut out: Vec<char> = Vec::new();
        let empty: Vec<char> = Vec::new();
        match self {
            AssertionFailure::PathNotFound { path } => {
                push_str(&mut out, "Assertion path not found: ");
                push_str(&mut out, path.as_str());
            },
            AssertionFailure::NotEqual { path, expected, actual } => {
                push_str(&mut out, "Assertion failed at '");
                push_str(&mut out, path.as_str());
                push_str(&mut out, "': expected ");
                push_json(&mut out, expected, false, &empty);
                push_str(&mut out, ", got ");
                push_json(&mut out, actual, false, &empty);
            },
            AssertionFailure::NotNumeric { value } => {
                push_str(&mut out, "Expected numeric value, got ");
                push_json(&mut out, value, false, &empty);
            },
            AssertionFailure::NotGreater { path, found, bound } => {
                push_str(&mut out, "Assertion failed at '");
                push_str(&mut out, path.as_str());
                push_str(&mut out, "': ");
                push_number(&mut out, found);
                push_str(&mut out, " <= ");
                push_number(&mut out, bound);
            },
            AssertionFailure::NotLess { path, found, bound } => {
                push_str(&mut out, "Assertion failed at '");
                push_str(&mut out, path.as_str());
                push_str(&mut out, "': ");
                push_number(&mut out, found);
                push_str(&mut out, " >= ");
                push_number(&mut out, bound);
            },
            AssertionFailure::Missing { path } => {
                push_str(&mut out, "Assertion failed at '");
                push_str(&mut out, path.as_str());
                push_str(&mut out, "': value does not exist");
            },
            AssertionFailure::NotString { path } => {
                push_str(&mut out, "Value at '");
                push_str(&mut out, path.as_str());
                push_str(&mut out, "' is not a string");
            },
            AssertionFailure::InvalidRegex { pattern, reason } => {
                push_str(&mut out, "Invalid regex '");
                push_str(&mut out, pattern.as_str());
                push_str(&mut out, "': ");
                push_str(&mut out, reason.as_str());
            },
            AssertionFailure::NoMatch { path, text, pattern } => {
                push_str(&mut out, "Assertion failed at '");
                push_str(&mut out, path.as_str());
                push_str(&mut out, "': '");
                push_str(&mut out, text.as_str());
                push_str(&mut out, "' does not match /");
                push_str(&mut out, pattern.as_str());
                push_str(&mut out, "/");
            },
        }
        proof {
            assert(out@ =~= failure_message(self@));
        }
        string_of(&out)
    }
}

/// Text of a failure.
pub open spec fn failure_message(f: FailureSpec) -> Seq<char> {
    match f {
        FailureSpec::PathNotFound(p) => "Assertion path not found: "@ + p,
        FailureSpec::NotEqual(p, e, a) => "Assertion failed at '"@ + p + "': expected "@ + render(
            e,
            false,
            Seq::empty(),
        ) + ", got "@ + render(a, false, Seq::empty()),
        FailureSpec::NotNumeric(v) => "Expected numeric value, got "@ + render(v, false, Seq::empty()),
        FailureSpec::NotGreater(p, a, b) => "Assertion failed at '"@ + p + "': "@ + number_text(a)
            + " <= "@ + number_text(b),
        FailureSpec::NotLess(p, a, b) => "Assertion failed at '"@ + p + "': "@ + number_text(a)
            + " >= "@ + number_text(b),
        FailureSpec::Missing(p) => "Assertion failed at '"@ + p + "': value does not exist"@,
        FailureSpec::NotString(p) => "Value at '"@ + p + "' is not a string"@,
        FailureSpec::InvalidRegex(pat, reason) => "Invalid regex '"@ + pat + "': "@ + reason,
        FailureSpec::NoMatch(p, t, pat) => "Assertion failed at '"@ + p + "': '"@ + t
            + "' does not match /"@ + pat + "/"@,
    }
}

} // verus!
