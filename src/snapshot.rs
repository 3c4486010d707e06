use vstd::prelude::*;
use crate::json::{JsonSpec, JsonValue, obj_get, has_key, keys_distinct, lemma_obj_get_at};
use crate::render::render;
use crate::text::{chars_of, push_str, string_of};

verus! {

/// Lexicographic order on keys, character by character (the order of `String`).
pub open spec fn key_lt(a: Seq<char>, b: Seq<char>) -> bool
    decreases a.len(),
{
    if a.len() == 0 {
        b.len() > 0
    } else if b.len() == 0 {
        false
    } else if a[0] != b[0] {
        a[0] < b[0]
    } else {
        key_lt(a.drop_first(), b.drop_first())
    }
}

pub proof fn lemma_key_lt_irrefl(a: Seq<char>)
    ensures
        !key_lt(a, a),
    decreases a.len(),
{
    if a.len() > 0 {
        lemma_key_lt_irrefl(a.drop_first());
    }
}

pub proof fn lemma_key_lt_trans(a: Seq<char>, b: Seq<char>, c: Seq<char>)
    requires
        key_lt(a, b),
        key_lt(b, c),
    ensures
        key_lt(a, c),
    decreases a.len(),
{
    if a.len() > 0 && b.len() > 0 && c.len() > 0 {
        if a[0] == b[0] && b[0] == c[0] {
            lemma_key_lt_trans(a.drop_first(), b.drop_first(), c.drop_first());
        }
    }
}

pub proof fn lemma_key_lt_total(a: Seq<char>, b: Seq<char>)
    requires
        a != b,
    ensures
        key_lt(a, b) || key_lt(b, a),
    decreases a.len(),
{
    if a.len() == 0 && b.len() == 0 {
        assert(a =~= b);
    }
    if a.len() > 0 && b.len() > 0 && a[0] == b[0] {
        if a.drop_first() == b.drop_first() {
            assert(a =~= seq![a[0]] + a.drop_first());
            assert(b =~= seq![b[0]] + b.drop_first());
        }
        lemma_key_lt_total(a.drop_first(), b.drop_first());
    }
}

pub open spec fn sorted_keys(es: Seq<(Seq<char>, JsonSpec)>) -> bool {
    forall|i: int, j: int| 0 <= i < j < es.len() ==> key_lt(es[i].0, es[j].0)
}

/// `r` is the normal form of `v`: object keys sorted at every level, arrays in their order,
/// everything else unchanged.
pub open spec fn normalizes(r: JsonSpec, v: JsonSpec) -> bool
    decreases v,
{
    match v {
        JsonSpec::Array(xs) => match r {
            JsonSpec::Array(ys) => ys.len() == xs.len() && forall|i: int|
                0 <= i < xs.len() ==> normalizes(ys[i], #[trigger] xs[i]),
            _ => false,
        },
        JsonSpec::Object(es) => match r {
            JsonSpec::Object(rs) => rs.len() == es.len() && sorted_keys(rs) && forall|i: int|
                0 <= i < es.len() ==> match obj_get(rs, (#[trigger] es[i]).0) {
                    Some(w) => normalizes(w, es[i].1),
                    None => false,
                },
            _ => false,
        },
        _ => r == v,
    }
}

/// Whether `a` sorts before `b`.
pub fn key_less(a: &Vec<char>, b: &Vec<char>) -> (r: bool)
    ensures
        r == key_lt(a@, b@),
{
    let mut i: usize = 0;
    assert(a@.subrange(0, a.len() as int) =~= a@);
    assert(b@.subrange(0, b.len() as int) =~= b@);
    while i < a.len() && i < b.len()
        invariant
            i <= a.len(),
            i <= b.len(),
            key_lt(a@, b@) == key_lt(a@.subrange(i as int, a.len() as int), b@.subrange(i as int, b.len() as int)),
        decreases a.len() - i,
    {
        let ghost sa = a@.subrange(i as int, a.len() as int);
        let ghost sb = b@.subrange(i as int, b.len() as int);
        assert(sa[0] == a@[i as int]);
        assert(sb[0] == b@[i as int]);
        if a[i] != b[i] {
            return a[i] < b[i];
        }
        assert(sa.drop_first() =~= a@.subrange(i + 1, a.len() as int));
        assert(sb.drop_first() =~= b@.subrange(i + 1, b.len() as int));
        i = i + 1;
    }
    i == a.len() && i < b.len()
}

/// The normal form of a document: object keys sorted recursively, array order kept.
#[verifier::rlimit(50)]
pub fn normalize(v: &JsonValue) -> (r: JsonValue)
    requires
        v.wf(),
    ensures
        normalizes(r@, v@),
        r.wf(),
    decreases v,
{
    match v {
        JsonValue::Array(xs) => {
            let ghost sx = match v@ {
                JsonSpec::Array(s) => s,
                _ => Seq::empty(),
            };
            let mut out: Vec<JsonValue> = Vec::new();
            assert(decreases_to!(*v => *xs));
            assert(v@.wf());
            let mut i: usize = 0;
            while i < xs.len()
                invariant
                    decreases_to!(*v => *xs),
                    i <= xs.len(),
                    out.len() == i,
                    sx.len() == xs.len(),
                    v@ == JsonSpec::Array(sx),
                    forall|k: int| 0 <= k < xs.len() ==> (#[trigger] sx[k]) == xs@[k]@,
                    forall|k: int| 0 <= k < xs.len() ==> (#[trigger] sx[k]).wf(),
                    forall|k: int| 0 <= k < i ==> normalizes((#[trigger] out@[k])@, sx[k]) && out@[k]@.wf(),
                decreases xs.len() - i,
            {
                proof {
                    assert(decreases_to!(*xs => xs@));
                    assert(decreases_to!(xs@ => xs@[i as int]));
                    assert(sx[i as int] == xs@[i as int]@);
                }
                let n = normalize(&xs[i]);
                out.push(n);
                i = i + 1;
            }
            let r = JsonValue::Array(out);
            proof {
                let ry = match r@ {
                    JsonSpec::Array(s) => s,
                    _ => Seq::empty(),
                };
                assert forall|k: int| 0 <= k < sx.len() implies normalizes(ry[k], #[trigger] sx[k]) by {
                    assert(ry[k] == out@[k]@);
                }
                assert forall|k: int| 0 <= k < ry.len() implies (#[trigger] ry[k]).wf() by {
                    assert(ry[k] == out@[k]@);
                }
            }
            r
        },
        JsonValue::Object(es) => {
            let ghost se = match v@ {
                JsonSpec::Object(s) => s,
                _ => Seq::empty(),
            };
            let mut out: Vec<(String, JsonValue)> = Vec::new();
            let ghost mut ov: Seq<(Seq<char>, JsonSpec)> = Seq::empty();
            assert(decreases_to!(*v => *es));
            assert(v@.wf());
            let mut i: usize = 0;
            while i < es.len()
                invariant
                    decreases_to!(*v => *es),
                    i <= es.len(),
                    out.len() == i,
                    ov.len() == i,
                    se.len() == es.len(),
                    v@ == JsonSpec::Object(se),
                    keys_distinct(se),
                    forall|k: int|
                        0 <= k < es.len() ==> (#[trigger] se[k]).0 == es@[k].0@ && se[k].1
                            == es@[k].1@,
                    forall|k: int| 0 <= k < es.len() ==> (#[trigger] se[k]).1.wf(),
                    forall|m: int|
                        0 <= m < i ==> (#[trigger] ov[m]) == (out@[m].0@, out@[m].1@)
                            && out@[m].1@.wf(),
                    sorted_keys(ov),
                    forall|m: int| 0 <= m < i ==> exists|k: int| 0 <= k < i && (#[trigger] ov[m]).0 == se[k].0,
                    forall|k: int|
                        0 <= k < i ==> match obj_get(ov, (#[trigger] se[k]).0) {
                            Some(w) => normalizes(w, se[k].1),
                            None => false,
                        },
                decreases es.len() - i,
            {
                proof {
                    assert(decreases_to!(*es => es@));
                    assert(decreases_to!(es@ => es@[i as int]));
                    assert(decreases_to!(es@[i as int] => es@[i as int].1));
                    assert(se[i as int].1 == es@[i as int].1@);
                }
                let nv = normalize(&es[i].1);
                let key = es[i].0.clone();
                let kc = chars_of(key.as_str());
                let ghost newk = se[i as int].0;
                assert(kc@ == newk);
                // The new key differs from every key placed so far.
                assert forall|m: int| 0 <= m < ov.len() implies (#[trigger] ov[m]).0 != newk by {
                    let k = choose|k: int| 0 <= k < i && ov[m].0 == se[k].0;
                    assert(se[k].0 != se[i as int].0);
                }
                let mut p: usize = 0;
                let mut placed = false;
                while !placed && p < out.len()
                    invariant
                        p <= out.len(),
                        placed ==> p < out.len() && key_lt(newk, ov[p as int].0),
                        out.len() == ov.len(),
                        kc@ == newk,
                        forall|m: int|
                            0 <= m < ov.len() ==> (#[trigger] ov[m]) == (out@[m].0@, out@[m].1@),
                        forall|m: int| 0 <= m < ov.len() ==> (#[trigger] ov[m]).0 != newk,
                        forall|q: int| 0 <= q < p ==> key_lt((#[trigger] ov[q]).0, newk),
                    decreases out.len() - p + (if placed {
                        0int
                    } else {
                        1int
                    }),
                {
                    let pk = chars_of(out[p].0.as_str());
                    if key_less(&kc, &pk) {
                        placed = true;
                    } else {
                        proof {
                            lemma_key_lt_total(newk, ov[p as int].0);
                        }
                        p = p + 1;
                    }
                }
                let ghost old_ov = ov;
                let ghost old_out = out@;
                let ghost entry = (newk, nv@);
                assert(key@ == newk);
                assert(nv@.wf());
                proof {
                    ov = ov.insert(p as int, entry);
                    lemma_insert_sorted(old_ov, p as int, newk, nv@);
                }
                out.insert(p, (key, nv));
                proof {
                    assert(out@ == old_out.insert(p as int, out@[p as int]));
                    assert(out@[p as int].0@ == newk && out@[p as int].1@ == entry.1);
                    assert forall|m: int| 0 <= m < ov.len() implies (#[trigger] ov[m]) == (out@[m].0@, out@[m].1@)
                        && out@[m].1@.wf() by {
                        if m < p {
                            assert(ov[m] == old_ov[m]);
                            assert(out@[m] == old_out[m]);
                        } else if m > p {
                            assert(ov[m] == old_ov[m - 1]);
                            assert(out@[m] == old_out[m - 1]);
                        } else {
                            assert(ov[m] == entry);
                        }
                    }
                    assert forall|m: int| 0 <= m < i + 1 implies exists|k: int|
                        0 <= k < i + 1 && (#[trigger] ov[m]).0 == se[k].0 by {
                        if m < p {
                            assert(ov[m] == old_ov[m]);
                            let k = choose|k: int| 0 <= k < i && old_ov[m].0 == se[k].0;
                            assert(ov[m].0 == se[k].0);
                        } else if m > p {
                            assert(ov[m] == old_ov[m - 1]);
                            let k = choose|k: int| 0 <= k < i && old_ov[m - 1].0 == se[k].0;
                            assert(ov[m].0 == se[k].0);
                        } else {
                            assert(ov[m].0 == se[i as int].0);
                        }
                    }
                    lemma_sorted_distinct(ov);
                    assert forall|k: int| 0 <= k < i + 1 implies match obj_get(ov, (#[trigger] se[k]).0) {
                        Some(w) => normalizes(w, se[k].1),
                        None => false,
                    } by {
                        if k == i {
                            lemma_obj_get_at(ov, p as int);
                        } else {
                            let w = obj_get(old_ov, se[k].0);
                            assert(has_key(old_ov, se[k].0));
                            let m = choose|m: int| 0 <= m < old_ov.len() && old_ov[m].0 == se[k].0;
                            lemma_sorted_distinct(old_ov);
                            lemma_obj_get_at(old_ov, m);
                            if m < p {
                                assert(ov[m] == old_ov[m]);
                                lemma_obj_get_at(ov, m);
                            } else {
                                assert(ov[m + 1] == old_ov[m]);
                                lemma_obj_get_at(ov, m + 1);
                            }
                        }
                    }
                }
                i = i + 1;
            }
            let r = JsonValue::Object(out);
            proof {
                let rs = match r@ {
                    JsonSpec::Object(s) => s,
                    _ => Seq::empty(),
                };
                assert(rs =~= ov);
                lemma_sorted_distinct(ov);
                assert forall|m: int| 0 <= m < rs.len() implies (#[trigger] rs[m]).1.wf() by {
                    assert(rs[m] == ov[m]);
                }
            }
            r
        },
        JsonValue::Null => JsonValue::Null,
        JsonValue::Bool(b) => JsonValue::Bool(*b),
        JsonValue::Number(n) => JsonValue::Number(n.copy()),
        JsonValue::Str(s) => JsonValue::Str(s.clone()),
    }
}

proof fn lemma_sorted_distinct(es: Seq<(Seq<char>, JsonSpec)>)
    requires
        sorted_keys(es),
    ensures
        keys_distinct(es),
{
    assert forall|i: int, j: int| 0 <= i < j < es.len() implies es[i].0 != es[j].0 by {
        lemma_key_lt_irrefl(es[i].0);
    }
}

/// Inserting a key at the first position where it sorts before the entry there keeps the
/// entries sorted.
proof fn lemma_insert_sorted(es: Seq<(Seq<char>, JsonSpec)>, p: int, k: Seq<char>, v: JsonSpec)
    requires
        sorted_keys(es),
        0 <= p <= es.len(),
        forall|q: int| 0 <= q < p ==> key_lt((#[trigger] es[q]).0, k),
        forall|m: int| 0 <= m < es.len() ==> (#[trigger] es[m]).0 != k,
        p < es.len() ==> key_lt(k, es[p].0),
    ensures
        sorted_keys(es.insert(p, (k, v))),
{
    let ns = es.insert(p, (k, v));
    assert forall|i: int, j: int| 0 <= i < j < ns.len() implies key_lt(ns[i].0, ns[j].0) by {
        if j < p {
            assert(ns[i] == es[i] && ns[j] == es[j]);
        } else if j == p {
            assert(ns[i] == es[i]);
        } else if i == p {
            assert(ns[j] == es[j - 1]);
            if j - 1 > p {
                lemma_key_lt_trans(k, es[p].0, es[j - 1].0);
            }
        } else if i < p {
            assert(ns[i] == es[i] && ns[j] == es[j - 1]);
        } else {
            assert(ns[i] == es[i - 1] && ns[j] == es[j - 1]);
        }
    }
}

/// Why a snapshot comparison failed: the pretty renderings of both normalised documents.
pub struct SnapshotMismatch {
    pub expected: String,
    pub actual: String,
}

/// Compares an output with its stored baseline. Documents that differ only in object key order
/// are equal; on a difference, both normalised documents are rendered for a reader to diff.
pub fn compare_snapshot(expected: &JsonValue, actual: &JsonValue) -> (r: Result<(), SnapshotMismatch>)
    requires
        expected.wf(),
        actual.wf(),
    ensures
        r is Ok <==> expected@.equiv(actual@),
        r matches Err(m) ==> exists|ne: JsonSpec, na: JsonSpec|
            normalizes(ne, expected@) && normalizes(na, actual@) && m.expected@ == render(
                ne,
                true,
                Seq::empty(),
            ) && m.actual@ == render(na, true, Seq::empty()),
{
    if expected.equiv(actual) {
        return Ok(());
    }
    let ne = normalize(expected);
    let na = normalize(actual);
    let es = crate::render::to_json_string_pretty(&ne);
    let as_ = crate::render::to_json_string_pretty(&na);
    Err(SnapshotMismatch { expected: es, actual: as_ })
}

impl SnapshotMismatch {
    /// The mismatch as text, both renderings in full.
    pub fn message(&self) -> (r: String)
        ensures
            r@ == "Snapshot mismatch\n\n--- expected\n"@ + self.expected@ + "\n\n+++ actual\n"@
                + self.actual@,
    {
        let mut out: Vec<char> = Vec::new();
        push_str(&mut out, "Snapshot mismatch\n\n--- expected\n");
        push_str(&mut out, self.expected.as_str());
        push_str(&mut out, "\n\n+++ actual\n");
        push_str(&mut out, self.actual.as_str());
        string_of(&out)
    }
}

pub open spec fn keys_of(es: Seq<(Seq<char>, JsonSpec)>) -> Seq<Seq<char>> {
    Seq::new(es.len(), |i: int| es[i].0)
}

/// Two entry lists of the same length with distinct keys, where every key of the first is a key of
/// the second, have the same keys.
proof fn lemma_keys_cover(xs: Seq<(Seq<char>, JsonSpec)>, ns: Seq<(Seq<char>, JsonSpec)>)
    requires
        keys_distinct(xs),
        keys_distinct(ns),
        xs.len() == ns.len(),
        forall|j: int| 0 <= j < xs.len() ==> has_key(ns, (#[trigger] xs[j]).0),
    ensures
        forall|i: int| 0 <= i < ns.len() ==> has_key(xs, (#[trigger] ns[i]).0),
{
    let kx = keys_of(xs);
    let kn = keys_of(ns);
    assert(kx.no_duplicates()) by {
        assert forall|i: int, j: int| 0 <= i < kx.len() && 0 <= j < kx.len() && i != j implies kx[i] != kx[j] by {
            if i < j {
                assert(xs[i].0 != xs[j].0);
            } else {
                assert(xs[j].0 != xs[i].0);
            }
        }
    }
    assert(kn.no_duplicates()) by {
        assert forall|i: int, j: int| 0 <= i < kn.len() && 0 <= j < kn.len() && i != j implies kn[i] != kn[j] by {
            if i < j {
                assert(ns[i].0 != ns[j].0);
            } else {
                assert(ns[j].0 != ns[i].0);
            }
        }
    }
    kx.unique_seq_to_set();
    kn.unique_seq_to_set();
    vstd::seq_lib::seq_to_set_is_finite(kx);
    vstd::seq_lib::seq_to_set_is_finite(kn);
    assert(kx.to_set().subset_of(kn.to_set())) by {
        assert forall|k: Seq<char>| kx.to_set().contains(k) implies kn.to_set().contains(k) by {
            let j = choose|j: int| 0 <= j < kx.len() && kx[j] == k;
            assert(has_key(ns, xs[j].0));
            let i = choose|i: int| 0 <= i < ns.len() && ns[i].0 == xs[j].0;
            assert(kn[i] == k);
        }
    }
    vstd::set_lib::lemma_subset_equality(kx.to_set(), kn.to_set());
    assert forall|i: int| 0 <= i < ns.len() implies has_key(xs, (#[trigger] ns[i]).0) by {
        assert(kn[i] == ns[i].0);
        assert(kn.to_set().contains(ns[i].0));
        assert(kx.to_set().contains(ns[i].0));
        let j = choose|j: int| 0 <= j < kx.len() && kx[j] == ns[i].0;
        assert(xs[j].0 == ns[i].0);
    }
}

/// Normalising is deterministic up to structural equality: any two normal forms of a document
/// compare equal, so comparing `normalize(x)` with `normalize(x)` always finds them equal.
pub proof fn lemma_normal_forms_equal(x: JsonSpec, n1: JsonSpec, n2: JsonSpec)
    requires
        x.wf(),
        normalizes(n1, x),
        normalizes(n2, x),
    ensures
        n1.equiv(n2),
    decreases x,
{
    match x {
        JsonSpec::Array(xs) => {
            let ys1 = n1->Array_0;
            let ys2 = n2->Array_0;
            assert forall|i: int| 0 <= i < ys1.len() implies (#[trigger] ys1[i]).equiv(ys2[i]) by {
                assert(decreases_to!(x => xs[i]));
                assert(xs[i].wf());
                assert(normalizes(ys1[i], xs[i]));
                assert(normalizes(ys2[i], xs[i]));
                lemma_normal_forms_equal(xs[i], ys1[i], ys2[i]);
            }
        },
        JsonSpec::Object(es) => {
            let r1 = n1->Object_0;
            let r2 = n2->Object_0;
            lemma_sorted_distinct(r1);
            lemma_sorted_distinct(r2);
            assert forall|j: int| 0 <= j < es.len() implies has_key(r1, (#[trigger] es[j]).0) by {
                assert(obj_get(r1, es[j].0) is Some);
            }
            lemma_keys_cover(es, r1);
            assert forall|i: int| 0 <= i < r1.len() implies match obj_get(r2, (#[trigger] r1[i]).0) {
                Some(w) => r1[i].1.equiv(w),
                None => false,
            } by {
                assert(has_key(es, r1[i].0));
                let j = choose|j: int| 0 <= j < es.len() && es[j].0 == r1[i].0;
                assert(es[j].0 == r1[i].0);
                let a = obj_get(r1, es[j].0)->0;
                let b = obj_get(r2, es[j].0)->0;
                assert(normalizes(a, es[j].1));
                assert(normalizes(b, es[j].1));
                lemma_obj_get_at(r1, i);
                assert(decreases_to!(x => es[j].1));
                assert(es[j].1.wf());
                lemma_normal_forms_equal(es[j].1, a, b);
            }
        },
        JsonSpec::Num(n) => {},
        _ => {},
    }
}

} // verus!
