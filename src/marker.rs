use vstd::prelude::*;
use crate::config::{trim_both, trimmed, last_non_ws_end};
use crate::text::{chars_of, chars_eq, push_all, push_str, string_of};

verus! {

/// Splitting text into lines, read left to right: the lines completed so far and the line being
/// read.
pub open spec fn line_state(s: Seq<char>) -> (Seq<Seq<char>>, Seq<char>)
    decreases s.len(),
{
    if s.len() == 0 {
        (Seq::empty(), Seq::empty())
    } else {
        let (done, cur) = line_state(s.drop_last());
        if s.last() == '\n' {
            (done.push(cur), Seq::empty())
        } else {
            (done, cur.push(s.last()))
        }
    }
}

pub open spec fn strip_cr(l: Seq<char>) -> Seq<char> {
    if l.len() > 0 && l.last() == '\r' {
        l.drop_last()
    } else {
        l
    }
}

/// The lines of `s` as `str::lines` gives them: split at `\n`, a final `\r` dropped from each line,
/// and no empty line after a final newline.
pub open spec fn lines(s: Seq<char>) -> Seq<Seq<char>> {
    let (done, cur) = line_state(s);
    let raw = if cur.len() > 0 {
        done.push(cur)
    } else {
        done
    };
    Seq::new(raw.len(), |i: int| strip_cr(raw[i]))
}

pub open spec fn starts_with(s: Seq<char>, p: Seq<char>) -> bool {
    s.len() >= p.len() && s.subrange(0, p.len() as int) == p
}

pub open spec fn hash_prefix() -> Seq<char> {
    "# hsemulator-sha: "@
}

pub open spec fn slash_prefix() -> Seq<char> {
    "// hsemulator-sha: "@
}

/// A marker line: once trimmed, it starts with either marker prefix.
pub open spec fn is_marker_line(l: Seq<char>) -> bool {
    starts_with(trim_both(l), hash_prefix()) || starts_with(trim_both(l), slash_prefix())
}

/// The hash a marker line carries, trimmed.
pub open spec fn marker_value(l: Seq<char>) -> Option<Seq<char>> {
    let t = trim_both(l);
    if starts_with(t, hash_prefix()) {
        Some(trim_both(t.subrange(hash_prefix().len() as int, t.len() as int)))
    } else if starts_with(t, slash_prefix()) {
        Some(trim_both(t.subrange(slash_prefix().len() as int, t.len() as int)))
    } else {
        None
    }
}

/// The first marker among the first `n` lines.
pub open spec fn first_marker(ls: Seq<Seq<char>>, n: int) -> Option<Seq<char>>
    decreases n,
{
    if n <= 0 || n > ls.len() {
        None
    } else {
        match first_marker(ls, n - 1) {
            Some(v) => Some(v),
            None => marker_value(ls[n - 1]),
        }
    }
}

pub open spec fn min_int(a: int, b: int) -> int {
    if a <= b {
        a
    } else {
        b
    }
}

/// The hash recorded in the first ten lines of a source file.
pub open spec fn extract_spec(source: Seq<char>) -> Option<Seq<char>> {
    let ls = lines(source);
    first_marker(ls, min_int(10, ls.len() as int))
}

/// The non-marker lines among the first `n`, joined with `\n`.
pub open spec fn kept_joined(ls: Seq<Seq<char>>, n: int) -> (Seq<char>, bool)
    decreases n,
{
    if n <= 0 || n > ls.len() {
        (Seq::empty(), false)
    } else {
        let (acc, any) = kept_joined(ls, n - 1);
        if is_marker_line(ls[n - 1]) {
            (acc, any)
        } else if any {
            (acc + seq!['\n'] + ls[n - 1], true)
        } else {
            (ls[n - 1], true)
        }
    }
}

/// The source without any marker line.
pub open spec fn strip_spec(source: Seq<char>) -> Seq<char> {
    let ls = lines(source);
    kept_joined(ls, ls.len() as int).0
}

/// `s` without trailing whitespace.
pub open spec fn trim_end(s: Seq<char>) -> Seq<char> {
    s.subrange(0, last_non_ws_end(s, s.len() as int))
}

/// The first `n` lines, each followed by `\n`, with the first marker line among the first ten
/// replaced by `marker`.
pub open spec fn replaced_lines(ls: Seq<Seq<char>>, marker: Seq<char>, n: int) -> (Seq<char>, bool)
    decreases n,
{
    if n <= 0 || n > ls.len() {
        (Seq::empty(), false)
    } else {
        let (acc, done) = replaced_lines(ls, marker, n - 1);
        let i = n - 1;
        if !done && i < 10 && is_marker_line(ls[i]) {
            (acc + trim_end(marker) + seq!['\n'], true)
        } else {
            (acc + ls[i] + seq!['\n'], done)
        }
    }
}

pub open spec fn replace_spec(source: Seq<char>, marker: Seq<char>) -> Seq<char> {
    let ls = lines(source);
    trim_end(replaced_lines(ls, marker, ls.len() as int).0)
}

pub open spec fn contains(s: Seq<char>, p: Seq<char>) -> bool {
    exists|i: int| 0 <= i && i + p.len() <= s.len() && #[trigger] s.subrange(i, i + p.len()) == p
}

/// Python sources get a `#` marker, everything else a `//` marker.
pub open spec fn marker_line_for(source: Seq<char>, hash: Seq<char>) -> Seq<char> {
    if contains(source, "def main("@) || contains(source, "import "@) {
        hash_prefix() + hash + seq!['\n']
    } else {
        slash_prefix() + hash + seq!['\n']
    }
}

/// The source with the marker for `hash` at its top: unchanged when it already carries that hash,
/// the old marker replaced when it carries another, the marker prepended when it has none.
pub open spec fn inject_spec(source: Seq<char>, hash: Seq<char>) -> Seq<char> {
    match extract_spec(source) {
        Some(existing) => if existing == hash {
            source
        } else {
            replace_spec(source, marker_line_for(source, hash))
        },
        None => marker_line_for(source, hash) + source,
    }
}

/// The lines of `s`.
pub fn split_lines(s: &Vec<char>) -> (r: Vec<Vec<char>>)
    ensures
        r@.len() == lines(s@).len(),
        forall|i: int| 0 <= i < r@.len() ==> (#[trigger] r@[i])@ == lines(s@)[i],
{
    let mut done: Vec<Vec<char>> = Vec::new();
    let mut cur: Vec<char> = Vec::new();
    let mut i: usize = 0;
    while i < s.len()
        invariant
            i <= s.len(),
            done@.len() == line_state(s@.subrange(0, i as int)).0.len(),
            forall|m: int| 0 <= m < done@.len() ==> (#[trigger] done@[m])@ == line_state(s@.subrange(0, i as int)).0[m],
            cur@ == line_state(s@.subrange(0, i as int)).1,
        decreases s.len() - i,
    {
        assert(s@.subrange(0, i + 1).drop_last() =~= s@.subrange(0, i as int));
        if s[i] == '\n' {
            done.push(cur);
            cur = Vec::new();
        } else {
            cur.push(s[i]);
        }
        i = i + 1;
    }
    assert(s@.subrange(0, s.len() as int) =~= s@);
    if cur.len() > 0 {
        done.push(cur);
    }
    let mut out: Vec<Vec<char>> = Vec::new();
    let mut k: usize = 0;
    let ghost raw = done@;
    while k < done.len()
        invariant
            k <= done.len(),
            raw == done@,
            out@.len() == k,
            raw.len() == lines(s@).len(),
            forall|m: int| 0 <= m < raw.len() ==> strip_cr((#[trigger] raw[m])@) == lines(s@)[m],
            forall|m: int| 0 <= m < k ==> (#[trigger] out@[m])@ == lines(s@)[m],
        decreases done.len() - k,
    {
        let l = &done[k];
        let mut c: Vec<char> = Vec::new();
        push_all(&mut c, l);
        if c.len() > 0 && c[c.len() - 1] == '\r' {
            c.pop();
        }
        assert(c@ =~= strip_cr(raw[k as int]@));
        out.push(c);
        k = k + 1;
    }
    out
}

fn starts_with_exec(s: &Vec<char>, p: &str) -> (r: bool)
    ensures
        r == starts_with(s@, p@),
{
    let pv = chars_of(p);
    if s.len() < pv.len() {
        return false;
    }
    let mut i: usize = 0;
    while i < pv.len()
        invariant
            i <= pv.len() <= s.len(),
            pv@ == p@,
            forall|k: int| 0 <= k < i ==> s@[k] == pv@[k],
        decreases pv.len() - i,
    {
        if s[i] != pv[i] {
            assert(s@.subrange(0, pv.len() as int)[i as int] != p@[i as int]);
            return false;
        }
        i = i + 1;
    }
    assert(s@.subrange(0, pv.len() as int) =~= p@);
    true
}

fn trim_vec(v: &Vec<char>) -> (r: Vec<char>)
    ensures
        r@ == trim_both(v@),
{
    let s = string_of(v);
    let t = trimmed(s.as_str());
    chars_of(t.as_str())
}

fn marker_value_exec(l: &Vec<char>) -> (r: Option<Vec<char>>)
    ensures
        match marker_value(l@) {
            Some(v) => r matches Some(x) && x@ == v,
            None => r is None,
        },
{
    let t = trim_vec(l);
    proof {
        reveal_strlit("# hsemulator-sha: ");
        reveal_strlit("// hsemulator-sha: ");
    }
    let n: usize = if starts_with_exec(&t, "# hsemulator-sha: ") {
        18
    } else if starts_with_exec(&t, "// hsemulator-sha: ") {
        19
    } else {
        return None;
    };
    let mut rest: Vec<char> = Vec::new();
    let mut i: usize = n;
    while i < t.len()
        invariant
            n <= i <= t.len(),
            rest@ == t@.subrange(n as int, i as int),
        decreases t.len() - i,
    {
        rest.push(t[i]);
        i = i + 1;
        assert(rest@ =~= t@.subrange(n as int, i as int));
    }
    Some(trim_vec(&rest))
}

fn is_marker_exec(l: &Vec<char>) -> (r: bool)
    ensures
        r == is_marker_line(l@),
{
    let t = trim_vec(l);
    starts_with_exec(&t, "# hsemulator-sha: ") || starts_with_exec(&t, "// hsemulator-sha: ")
}

/// The hash recorded by a marker comment in the first ten lines of `source`.
pub fn extract_hash_marker(source: &str) -> (r: Option<String>)
    ensures
        match extract_spec(source@) {
            Some(v) => r matches Some(x) && x@ == v,
            None => r is None,
        },
{
    let sv = chars_of(source);
    let ls = split_lines(&sv);
    let ghost sl = lines(source@);
    let limit: usize = if ls.len() < 10 {
        ls.len()
    } else {
        10
    };
    let mut i: usize = 0;
    while i < limit
        invariant
            i <= limit <= ls.len(),
            limit as int == min_int(10, sl.len() as int),
            sl == lines(source@),
            ls@.len() == sl.len(),
            forall|m: int| 0 <= m < ls@.len() ==> (#[trigger] ls@[m])@ == sl[m],
            first_marker(sl, i as int) is None,
        decreases limit - i,
    {
        match marker_value_exec(&ls[i]) {
            Some(v) => {
                proof {
                    lemma_first_marker_stays(sl, i as int + 1, limit as int);
                }
                return Some(string_of(&v));
            },
            None => {},
        }
        i = i + 1;
    }
    None
}

proof fn lemma_first_marker_stays(ls: Seq<Seq<char>>, n: int, m: int)
    requires
        0 < n <= m <= ls.len(),
        first_marker(ls, n) is Some,
    ensures
        first_marker(ls, m) == first_marker(ls, n),
    decreases m - n,
{
    if m > n {
        lemma_first_marker_stays(ls, n, m - 1);
    }
}

/// The source without its marker lines, the other lines joined with `\n`.
pub fn strip_hash_marker(source: &str) -> (r: String)
    ensures
        r@ == strip_spec(source@),
{
    let sv = chars_of(source);
    let ls = split_lines(&sv);
    let ghost sl = lines(source@);
    let mut out: Vec<char> = Vec::new();
    let mut any = false;
    let mut i: usize = 0;
    while i < ls.len()
        invariant
            i <= ls.len(),
            sl == lines(source@),
            ls@.len() == sl.len(),
            forall|m: int| 0 <= m < ls@.len() ==> (#[trigger] ls@[m])@ == sl[m],
            (out@, any) == kept_joined(sl, i as int),
            !any ==> out@.len() == 0,
        decreases ls.len() - i,
    {
        let ghost prev = out@;
        let ghost prev_any = any;
        if !is_marker_exec(&ls[i]) {
            if any {
                out.push('\n');
            }
            push_all(&mut out, &ls[i]);
            any = true;
            proof {
                if prev_any {
                    assert(out@ =~= prev + seq!['\n'] + sl[i as int]);
                } else {
                    assert(out@ =~= sl[i as int]);
                }
            }
        }
        i = i + 1;
    }
    string_of(&out)
}

pub(crate) fn trim_end_exec(v: &Vec<char>) -> (r: Vec<char>)
    ensures
        r@ == trim_end(v@),
{
    let mut k: usize = v.len();
    while k > 0 && crate::config::is_ws_exec(v[k - 1])
        invariant
            k <= v.len(),
            last_non_ws_end(v@, v.len() as int) == last_non_ws_end(v@, k as int),
        decreases k,
    {
        k = k - 1;
    }
    let mut out: Vec<char> = Vec::new();
    let mut i: usize = 0;
    while i < k
        invariant
            i <= k <= v.len(),
            out@ == v@.subrange(0, i as int),
        decreases k - i,
    {
        out.push(v[i]);
        i = i + 1;
        assert(out@ =~= v@.subrange(0, i as int));
    }
    out
}

/// The source with its first marker line (within the first ten) replaced by `new_marker_line`.
pub fn replace_hash_marker(source: &str, new_marker_line: &str) -> (r: String)
    ensures
        r@ == replace_spec(source@, new_marker_line@),
{
    let sv = chars_of(source);
    let ls = split_lines(&sv);
    let ghost sl = lines(source@);
    let mv = chars_of(new_marker_line);
    let marker = trim_end_exec(&mv);
    let mut out: Vec<char> = Vec::new();
    let mut replaced = false;
    let mut i: usize = 0;
    while i < ls.len()
        invariant
            i <= ls.len(),
            sl == lines(source@),
            mv@ == new_marker_line@,
            marker@ == trim_end(new_marker_line@),
            ls@.len() == sl.len(),
            forall|m: int| 0 <= m < ls@.len() ==> (#[trigger] ls@[m])@ == sl[m],
            (out@, replaced) == replaced_lines(sl, new_marker_line@, i as int),
        decreases ls.len() - i,
    {
        if !replaced && i < 10 && is_marker_exec(&ls[i]) {
            push_all(&mut out, &marker);
            out.push('\n');
            replaced = true;
        } else {
            push_all(&mut out, &ls[i]);
            out.push('\n');
        }
        i = i + 1;
    }
    let t = trim_end_exec(&out);
    string_of(&t)
}

fn contains_exec(s: &Vec<char>, p: &str) -> (r: bool)
    ensures
        r == contains(s@, p@),
{
    let pv = chars_of(p);
    if pv.len() > s.len() {
        return false;
    }
    let mut i: usize = 0;
    while i <= s.len() - pv.len()
        invariant
            pv@ == p@,
            pv.len() <= s.len(),
            i <= s.len() - pv.len() + 1,
            forall|k: int| 0 <= k < i ==> #[trigger] s@.subrange(k, k + pv.len()) != pv@,
        decreases s.len() - i,
    {
        let mut j: usize = 0;
        let mut same = true;
        while j < pv.len()
            invariant
                j <= pv.len(),
                i + pv.len() <= s.len(),
                same == (forall|k: int| 0 <= k < j ==> s@[i + k] == pv@[k]),
            decreases pv.len() - j,
        {
            if s[i + j] != pv[j] {
                same = false;
            }
            j = j + 1;
        }
        if same {
            assert(s@.subrange(i as int, i + pv.len()) =~= pv@);
            return true;
        }
        assert(s@.subrange(i as int, i + pv.len()) != pv@) by {
            let k = choose|k: int| 0 <= k < pv.len() && s@[i + k] != pv@[k];
            assert(s@.subrange(i as int, i + pv.len())[k] != pv@[k]);
        }
        i = i + 1;
    }
    false
}

/// Puts the marker for `hash` at the top of `source`: `#` for Python sources (`def main(` or
/// `import `), `//` otherwise.
pub fn inject_hash_marker(source: &str, hash: &str) -> (r: String)
    ensures
        r@ == inject_spec(source@, hash@),
{
    let sv = chars_of(source);
    let pythonish = contains_exec(&sv, "def main(") || contains_exec(&sv, "import ");
    let mut comment: Vec<char> = Vec::new();
    if pythonish {
        push_str(&mut comment, "# hsemulator-sha: ");
    } else {
        push_str(&mut comment, "// hsemulator-sha: ");
    }
    push_str(&mut comment, hash);
    comment.push('\n');
    let comment_s = string_of(&comment);
    assert(comment_s@ == marker_line_for(source@, hash@));
    match extract_hash_marker(source) {
        Some(existing) => {
            let ev = chars_of(existing.as_str());
            let hv = chars_of(hash);
            if chars_eq(&ev, &hv) {
                string_of(&sv)
            } else {
                replace_hash_marker(source, comment_s.as_str())
            }
        },
        None => {
            let mut out: Vec<char> = Vec::new();
            push_all(&mut out, &comment);
            push_all(&mut out, &sv);
            string_of(&out)
        },
    }
}

} // verus!
