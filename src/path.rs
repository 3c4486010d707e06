use vstd::prelude::*;
use crate::json::{JsonSpec, JsonValue, obj_get, lemma_obj_get_wf};
use crate::text::chars_of;

verus! {

/// The path with each `[` turned into `.` and each `]` removed, so that `a[0]` reads as `a.0`.
pub open spec fn bracket_free(p: Seq<char>) -> Seq<char>
    decreases p.len(),
{
    if p.len() == 0 {
        p
    } else {
        let rest = bracket_free(p.drop_last());
        let c = p.last();
        if c == '[' {
            rest.push('.')
        } else if c == ']' {
            rest
        } else {
            rest.push(c)
        }
    }
}

/// Splitting `p` at `sep`, read left to right: the non-empty pieces completed so far, and the
/// piece being read.
pub open spec fn split_state(p: Seq<char>, sep: char) -> (Seq<Seq<char>>, Seq<char>)
    decreases p.len(),
{
    if p.len() == 0 {
        (Seq::empty(), Seq::empty())
    } else {
        let (done, cur) = split_state(p.drop_last(), sep);
        let c = p.last();
        if c == sep {
            if cur.len() > 0 {
                (done.push(cur), Seq::empty())
            } else {
                (done, Seq::empty())
            }
        } else {
            (done, cur.push(c))
        }
    }
}

/// The non-empty pieces of `p` between occurrences of `sep`; empty pieces are skipped.
pub open spec fn pieces(p: Seq<char>, sep: char) -> Seq<Seq<char>> {
    let (done, cur) = split_state(p, sep);
    if cur.len() > 0 {
        done.push(cur)
    } else {
        done
    }
}

/// The non-empty dot-separated segments of `p`; empty segments are skipped.
pub open spec fn segments(p: Seq<char>) -> Seq<Seq<char>> {
    pieces(p, '.')
}

pub open spec fn is_digit(c: char) -> bool {
    '0' <= c && c <= '9'
}

pub open spec fn all_digits(s: Seq<char>) -> bool {
    forall|i: int| 0 <= i < s.len() ==> is_digit(#[trigger] s[i])
}

/// The value of a string of decimal digits.
pub open spec fn digits_value(s: Seq<char>) -> nat
    decreases s.len(),
{
    if s.len() == 0 {
        0
    } else {
        digits_value(s.drop_last()) * 10 + ((s.last() as nat) - ('0' as nat)) as nat
    }
}

/// A segment read as an array index: an optional `+`, then one or more digits, with a value that
/// fits in `usize`.
pub open spec fn parse_index(s: Seq<char>) -> Option<nat> {
    let body = if s.len() > 0 && s[0] == '+' {
        s.drop_first()
    } else {
        s
    };
    if body.len() > 0 && all_digits(body) && digits_value(body) <= usize::MAX {
        Some(digits_value(body))
    } else {
        None
    }
}

/// One step of resolution: a numeric segment indexes an array, any other segment names an
/// object key.
pub open spec fn step(v: JsonSpec, seg: Seq<char>) -> Option<JsonSpec> {
    match parse_index(seg) {
        Some(n) => match v {
            JsonSpec::Array(xs) => if n < xs.len() {
                Some(xs[n as int])
            } else {
                None
            },
            _ => None,
        },
        None => match v {
            JsonSpec::Object(es) => obj_get(es, seg),
            _ => None,
        },
    }
}

pub open spec fn resolve_segments(v: JsonSpec, segs: Seq<Seq<char>>) -> Option<JsonSpec>
    decreases segs.len(),
{
    if segs.len() == 0 {
        Some(v)
    } else {
        match step(v, segs[0]) {
            Some(w) => resolve_segments(w, segs.drop_first()),
            None => None,
        }
    }
}

/// The subtree of `v` that `path` addresses, or nothing when a segment does not exist.
pub open spec fn resolve(v: JsonSpec, path: Seq<char>) -> Option<JsonSpec> {
    resolve_segments(v, segments(bracket_free(path)))
}

proof fn lemma_bracket_free_idem(p: Seq<char>)
    ensures
        bracket_free(bracket_free(p)) == bracket_free(p),
    decreases p.len(),
{
    if p.len() > 0 {
        lemma_bracket_free_idem(p.drop_last());
        let rest = bracket_free(p.drop_last());
        let c = p.last();
        if c == '[' {
            assert(rest.push('.').drop_last() =~= rest);
        } else if c == ']' {
        } else {
            assert(rest.push(c).drop_last() =~= rest);
        }
    }
}

/// Bracket indexing and dot-numeric indexing address the same subtree: a path resolves exactly
/// as its bracket-free spelling does (`items[0].id` as `items.0.id`).
pub proof fn lemma_bracket_dot_same(v: JsonSpec, p: Seq<char>)
    ensures
        resolve(v, p) == resolve(v, bracket_free(p)),
{
    lemma_bracket_free_idem(p);
}

/// Two paths with the same bracket-free spelling resolve identically on every document.
pub proof fn lemma_same_spelling_same_result(v: JsonSpec, p: Seq<char>, q: Seq<char>)
    requires
        bracket_free(p) == bracket_free(q),
    ensures
        resolve(v, p) == resolve(v, q),
{
}

pub proof fn lemma_resolve_wf(v: JsonSpec, segs: Seq<Seq<char>>)
    requires
        v.wf(),
    ensures
        resolve_segments(v, segs) matches Some(w) ==> w.wf(),
    decreases segs.len(),
{
    if segs.len() > 0 {
        lemma_step_wf(v, segs[0]);
        if let Some(w) = step(v, segs[0]) {
            lemma_resolve_wf(w, segs.drop_first());
        }
    }
}

proof fn lemma_step_wf(v: JsonSpec, seg: Seq<char>)
    requires
        v.wf(),
    ensures
        step(v, seg) matches Some(w) ==> w.wf(),
{
    match v {
        JsonSpec::Object(es) => lemma_obj_get_wf(es, seg),
        _ => {},
    }
}

proof fn lemma_digits_value_prefix(s: Seq<char>, i: int)
    requires
        0 <= i <= s.len(),
    ensures
        digits_value(s.subrange(0, i)) <= digits_value(s),
    decreases s.len() - i,
{
    if i < s.len() {
        lemma_digits_value_prefix(s, i + 1);
        assert(s.subrange(0, i + 1).drop_last() =~= s.subrange(0, i));
    } else {
        assert(s.subrange(0, i) =~= s);
    }
}

/// Reads a segment as an array index.
pub fn parse_index_exec(s: &Vec<char>) -> (r: Option<usize>)
    ensures
        match parse_index(s@) {
            Some(n) => r == Some(n as usize),
            None => r is None,
        },
{
    let start: usize = if s.len() > 0 && s[0] == '+' {
        1
    } else {
        0
    };
    let ghost body = if s@.len() > 0 && s@[0] == '+' {
        s@.drop_first()
    } else {
        s@
    };
    assert(body =~= s@.subrange(start as int, s.len() as int));
    if start >= s.len() {
        return None;
    }
    let mut n: usize = 0;
    let mut i: usize = start;
    while i < s.len()
        invariant
            start <= i <= s.len(),
            body =~= s@.subrange(start as int, s.len() as int),
            body.len() > 0,
            parse_index(s@) == (if all_digits(body) && digits_value(body) <= usize::MAX {
                Some(digits_value(body))
            } else {
                None
            }),
            all_digits(body.subrange(0, i - start)),
            n == digits_value(body.subrange(0, i - start)),
        decreases s.len() - i,
    {
        let c = s[i];
        let ghost pre = body.subrange(0, i - start);
        let ghost next = body.subrange(0, i + 1 - start);
        assert(next.drop_last() =~= pre);
        assert(next.last() == c);
        if !('0' <= c && c <= '9') {
            assert(!is_digit(body[i - start]));
            assert(!all_digits(body));
            return None;
        }
        let d = (c as u32 - '0' as u32) as usize;
        if n > (usize::MAX - d) / 10 {
            proof {
                lemma_digits_value_prefix(body, i + 1 - start);
                assert(digits_value(next) == n * 10 + d);
                assert(n * 10 + d > usize::MAX) by (nonlinear_arith)
                    requires
                        n > (usize::MAX - d) / 10,
                        d <= 9,
                ;
            }
            return None;
        }
        n = n * 10 + d;
        i = i + 1;
    }
    assert(body.subrange(0, i - start) =~= body);
    Some(n)
}

/// Resolves a dotted or bracketed `path` (`a.b`, `items[0].id`, `items.0.id`) inside `root`.
pub fn get_by_path<'a>(root: &'a JsonValue, path: &str) -> (r: Option<&'a JsonValue>)
    requires
        root.wf(),
    ensures
        match r {
            Some(v) => resolve(root@, path@) == Some(v@),
            None => resolve(root@, path@) is None,
        },
{
    let p = chars_of(path);
    let mut norm: Vec<char> = Vec::new();
    let mut i: usize = 0;
    while i < p.len()
        invariant
            i <= p.len(),
            norm@ == bracket_free(p@.subrange(0, i as int)),
        decreases p.len() - i,
    {
        assert(p@.subrange(0, i + 1).drop_last() =~= p@.subrange(0, i as int));
        let c = p[i];
        if c == '[' {
            norm.push('.');
        } else if c != ']' {
            norm.push(c);
        }
        i = i + 1;
    }
    assert(p@.subrange(0, p.len() as int) =~= p@);
    let segs = split_pieces(&norm, '.');
    let ghost ss = segments(norm@);
    let mut current: &JsonValue = root;
    let mut k: usize = 0;
    assert(ss.subrange(0, ss.len() as int) =~= ss);
    while k < segs.len()
        invariant
            k <= segs.len(),
            segs.len() == ss.len(),
            forall|m: int| 0 <= m < ss.len() ==> (#[trigger] segs@[m])@ == ss[m],
            resolve(root@, path@) == resolve_segments(current@, ss.subrange(k as int, ss.len() as int)),
            current.wf(),
        decreases segs.len() - k,
    {
        let ghost rest = ss.subrange(k as int, ss.len() as int);
        assert(rest[0] == ss[k as int]);
        assert(rest.drop_first() =~= ss.subrange(k + 1, ss.len() as int));
        let seg = &segs[k];
        let next = match parse_index_exec(seg) {
            Some(n) => current.get_index(n),
            None => {
                let key = crate::text::string_of(seg);
                current.get_key(key.as_str())
            },
        };
        proof {
            lemma_step_wf(current@, ss[k as int]);
        }
        match next {
            Some(w) => {
                current = w;
            },
            None => {
                return None;
            },
        }
        k = k + 1;
    }
    assert(ss.subrange(k as int, ss.len() as int) =~= Seq::<Seq<char>>::empty());
    Some(current)
}

/// The non-empty pieces of `p` between occurrences of `sep`.
pub fn split_pieces(p: &Vec<char>, sep: char) -> (r: Vec<Vec<char>>)
    ensures
        r.len() == pieces(p@, sep).len(),
        forall|m: int| 0 <= m < r.len() ==> (#[trigger] r@[m])@ == pieces(p@, sep)[m],
{
    let mut done: Vec<Vec<char>> = Vec::new();
    let mut cur: Vec<char> = Vec::new();
    let mut i: usize = 0;
    while i < p.len()
        invariant
            i <= p.len(),
            done.len() == split_state(p@.subrange(0, i as int), sep).0.len(),
            forall|m: int| 0 <= m < done.len() ==> (#[trigger] done@[m])@ == split_state(p@.subrange(0, i as int), sep).0[m],
            cur@ == split_state(p@.subrange(0, i as int), sep).1,
        decreases p.len() - i,
    {
        assert(p@.subrange(0, i + 1).drop_last() =~= p@.subrange(0, i as int));
        let c = p[i];
        if c == sep {
            if cur.len() > 0 {
                done.push(cur);
            }
            cur = Vec::new();
        } else {
            cur.push(c);
        }
        i = i + 1;
    }
    assert(p@.subrange(0, p.len() as int) =~= p@);
    if cur.len() > 0 {
        done.push(cur);
    }
    done
}

} // verus!
