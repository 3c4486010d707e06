use vstd::prelude::*;
use crate::path::{pieces, split_pieces};
use crate::text::{chars_of, push_all, push_str, string_of};

verus! {

/// The last piece of `segs[..n]` that is not `.`.
pub open spec fn last_named(segs: Seq<Seq<char>>, n: int) -> Option<Seq<char>>
    decreases n,
{
    if n <= 0 || n > segs.len() {
        None
    } else if segs[n - 1] == seq!['.'] {
        last_named(segs, n - 1)
    } else {
        Some(segs[n - 1])
    }
}

/// Final component of a `/`-separated path: none for an empty path, the root, or `..`.
pub open spec fn file_name(p: Seq<char>) -> Option<Seq<char>> {
    let segs = pieces(p, '/');
    match last_named(segs, segs.len() as int) {
        Some(s) => if s == seq!['.', '.'] {
            None
        } else {
            Some(s)
        },
        None => None,
    }
}

/// Position of the last `.` in `s`.
pub open spec fn last_dot(s: Seq<char>, n: int) -> Option<int>
    decreases n,
{
    if n <= 0 || n > s.len() {
        None
    } else if s[n - 1] == '.' {
        Some(n - 1)
    } else {
        last_dot(s, n - 1)
    }
}

/// A file name without its extension; a name that starts with its only dot keeps it.
pub open spec fn stem_of(name: Seq<char>) -> Seq<char> {
    match last_dot(name, name.len() as int) {
        Some(d) => if d == 0 {
            name
        } else {
            name.subrange(0, d)
        },
        None => name,
    }
}

/// The extension of a file name: after its last dot, when that dot is not the first character.
pub open spec fn extension_of(name: Seq<char>) -> Option<Seq<char>> {
    match last_dot(name, name.len() as int) {
        Some(d) => if d == 0 {
            None
        } else {
            Some(name.subrange(d + 1, name.len() as int))
        },
        None => None,
    }
}

pub open spec fn file_stem(p: Seq<char>) -> Option<Seq<char>> {
    match file_name(p) {
        Some(n) => Some(stem_of(n)),
        None => None,
    }
}

pub open spec fn extension(p: Seq<char>) -> Option<Seq<char>> {
    match file_name(p) {
        Some(n) => extension_of(n),
        None => None,
    }
}

/// `base` joined with `rel`: an absolute `rel` replaces `base`; otherwise one `/` separates them.
pub open spec fn join(base: Seq<char>, rel: Seq<char>) -> Seq<char> {
    if rel.len() > 0 && rel[0] == '/' {
        rel
    } else if base.len() == 0 {
        rel
    } else if base.last() == '/' {
        base + rel
    } else {
        base + seq!['/'] + rel
    }
}

/// `s` without trailing `/` characters.
pub open spec fn trim_slashes(s: Seq<char>, n: int) -> Seq<char>
    decreases n,
{
    if n <= 0 || n > s.len() {
        Seq::empty()
    } else if s[n - 1] == '/' {
        trim_slashes(s, n - 1)
    } else {
        s.subrange(0, n)
    }
}

/// The directory holding the final component: none for an empty path or the root; the empty path
/// for a bare name.
pub open spec fn parent(p: Seq<char>) -> Option<Seq<char>> {
    let t = trim_slashes(p, p.len() as int);
    if t.len() == 0 {
        None
    } else {
        match last_slash(t, t.len() as int) {
            None => Some(Seq::empty()),
            Some(k) => {
                let h = trim_slashes(t, k);
                if h.len() == 0 {
                    Some(seq!['/'])
                } else {
                    Some(h)
                }
            },
        }
    }
}

pub open spec fn last_slash(s: Seq<char>, n: int) -> Option<int>
    decreases n,
{
    if n <= 0 || n > s.len() {
        None
    } else if s[n - 1] == '/' {
        Some(n - 1)
    } else {
        last_slash(s, n - 1)
    }
}

fn find_last(s: &Vec<char>, c: char) -> (r: Option<usize>)
    ensures
        r matches Some(k) ==> k < s@.len(),
        match r {
            Some(k) => last_dot_or_slash(s@, c) == Some(k as int),
            None => last_dot_or_slash(s@, c) is None,
        },
{
    let mut n: usize = s.len();
    while n > 0
        invariant
            n <= s.len(),
            last_dot_or_slash(s@, c) == last_char(s@, c, n as int),
        decreases n,
    {
        if s[n - 1] == c {
            return Some(n - 1);
        }
        n = n - 1;
    }
    None
}

/// Position of the last `c` in `s[..n]`.
pub open spec fn last_char(s: Seq<char>, c: char, n: int) -> Option<int>
    decreases n,
{
    if n <= 0 || n > s.len() {
        None
    } else if s[n - 1] == c {
        Some(n - 1)
    } else {
        last_char(s, c, n - 1)
    }
}

pub open spec fn last_dot_or_slash(s: Seq<char>, c: char) -> Option<int> {
    last_char(s, c, s.len() as int)
}

proof fn lemma_last_char_dot(s: Seq<char>, n: int)
    ensures
        last_char(s, '.', n) == last_dot(s, n),
    decreases n,
{
    if n > 0 && n <= s.len() {
        lemma_last_char_dot(s, n - 1);
    }
}

proof fn lemma_last_char_slash(s: Seq<char>, n: int)
    ensures
        last_char(s, '/', n) == last_slash(s, n),
    decreases n,
{
    if n > 0 && n <= s.len() {
        lemma_last_char_slash(s, n - 1);
    }
}

fn sub_vec(s: &Vec<char>, from: usize, to: usize) -> (r: Vec<char>)
    requires
        from <= to <= s.len(),
    ensures
        r@ == s@.subrange(from as int, to as int),
{
    let mut r: Vec<char> = Vec::new();
    let mut i: usize = from;
    while i < to
        invariant
            from <= i <= to <= s.len(),
            r@ == s@.subrange(from as int, i as int),
        decreases to - i,
    {
        r.push(s[i]);
        i = i + 1;
        assert(r@ =~= s@.subrange(from as int, i as int));
    }
    r
}

/// Final component of a path.
pub fn file_name_of(p: &Vec<char>) -> (r: Option<Vec<char>>)
    ensures
        match r {
            Some(v) => file_name(p@) == Some(v@),
            None => file_name(p@) is None,
        },
{
    let segs = split_pieces(p, '/');
    let ghost ss = pieces(p@, '/');
    let mut n: usize = segs.len();
    while n > 0
        invariant
            n <= segs.len(),
            ss == pieces(p@, '/'),
            segs.len() == ss.len(),
            forall|m: int| 0 <= m < ss.len() ==> (#[trigger] segs@[m])@ == ss[m],
            last_named(ss, ss.len() as int) == last_named(ss, n as int),
        decreases n,
    {
        let s = &segs[n - 1];
        assert(s@ == ss[n - 1]);
        assert(s@ != seq!['.'] ==> last_named(ss, n as int) == Some(ss[n - 1]));
        if s.len() == 1 && s[0] == '.' {
            assert(s@ =~= seq!['.']);
            n = n - 1;
        } else {
            assert(s@ != seq!['.']) by {
                if s@ == seq!['.'] {
                    assert(s@.len() == 1 && s@[0] == '.');
                }
            }
            if s.len() == 2 && s[0] == '.' && s[1] == '.' {
                assert(s@ =~= seq!['.', '.']);
                return None;
            }
            assert(s@ != seq!['.', '.']) by {
                if s@ == seq!['.', '.'] {
                    assert(s@.len() == 2 && s@[0] == '.' && s@[1] == '.');
                }
            }
            let mut out: Vec<char> = Vec::new();
            push_all(&mut out, s);
            assert(out@ =~= s@);
            return Some(out);
        }
    }
    None
}

/// The file name of `p` without its extension.
pub fn file_stem_of(p: &Vec<char>) -> (r: Option<Vec<char>>)
    ensures
        match r {
            Some(v) => file_stem(p@) == Some(v@),
            None => file_stem(p@) is None,
        },
{
    match file_name_of(p) {
        None => None,
        Some(name) => {
            let d = find_last(&name, '.');
            proof {
                lemma_last_char_dot(name@, name@.len() as int);
            }
            match d {
                Some(k) => {
                    if k == 0 {
                        Some(name)
                    } else {
                        Some(sub_vec(&name, 0, k))
                    }
                },
                None => Some(name),
            }
        },
    }
}

/// The extension of the file name of `p`.
pub fn extension_of_path(p: &Vec<char>) -> (r: Option<Vec<char>>)
    ensures
        match r {
            Some(v) => extension(p@) == Some(v@),
            None => extension(p@) is None,
        },
{
    match file_name_of(p) {
        None => None,
        Some(name) => {
            let d = find_last(&name, '.');
            proof {
                lemma_last_char_dot(name@, name@.len() as int);
            }
            match d {
                Some(k) => {
                    if k == 0 {
                        None
                    } else {
                        Some(sub_vec(&name, k + 1, name.len()))
                    }
                },
                None => None,
            }
        },
    }
}

/// `base` joined with `rel`.
pub fn join_path(base: &str, rel: &str) -> (r: String)
    ensures
        r@ == join(base@, rel@),
{
    let b = chars_of(base);
    let rl = chars_of(rel);
    let mut out: Vec<char> = Vec::new();
    if rl.len() > 0 && rl[0] == '/' {
        push_all(&mut out, &rl);
    } else if b.len() == 0 {
        push_all(&mut out, &rl);
    } else if b[b.len() - 1] == '/' {
        push_all(&mut out, &b);
        push_all(&mut out, &rl);
    } else {
        push_all(&mut out, &b);
        out.push('/');
        push_all(&mut out, &rl);
    }
    assert(out@ =~= join(base@, rel@));
    string_of(&out)
}

fn trim_slashes_exec(s: &Vec<char>, n: usize) -> (r: Vec<char>)
    requires
        n <= s.len(),
    ensures
        r@ == trim_slashes(s@, n as int),
{
    let mut k: usize = n;
    while k > 0 && s[k - 1] == '/'
        invariant
            k <= n <= s.len(),
            trim_slashes(s@, n as int) == trim_slashes(s@, k as int),
        decreases k,
    {
        k = k - 1;
    }
    if k == 0 {
        Vec::new()
    } else {
        sub_vec(s, 0, k)
    }
}

/// The directory that holds `p`.
pub fn parent_of(p: &str) -> (r: Option<String>)
    ensures
        match r {
            Some(v) => parent(p@) == Some(v@),
            None => parent(p@) is None,
        },
{
    let s = chars_of(p);
    let t = trim_slashes_exec(&s, s.len());
    if t.len() == 0 {
        return None;
    }
    let k = find_last(&t, '/');
    proof {
        lemma_last_char_slash(t@, t@.len() as int);
    }
    match k {
        None => Some(String::new()),
        Some(k) => {
            let h = trim_slashes_exec(&t, k);
            if h.len() == 0 {
                let mut root: Vec<char> = Vec::new();
                root.push('/');
                assert(root@ =~= seq!['/']);
                Some(string_of(&root))
            } else {
                Some(string_of(&h))
            }
        },
    }
}

/// Key of a stored snapshot: the action file's stem and the fixture's stem, joined by a dot
/// (`actions/my_action.js`, `booking_created.json` give `my_action.booking_created`).
pub fn snapshot_key(action_file: &str, fixture_name: &str) -> (r: String)
    ensures
        r@ == (match file_stem(action_file@) {
            Some(s) => s,
            None => "action"@,
        }) + seq!['.'] + (match file_stem(fixture_name@) {
            Some(s) => s,
            None => "fixture"@,
        }),
{
    let a = chars_of(action_file);
    let f = chars_of(fixture_name);
    let mut out: Vec<char> = Vec::new();
    match file_stem_of(&a) {
        Some(s) => push_all(&mut out, &s),
        None => push_str(&mut out, "action"),
    }
    out.push('.');
    match file_stem_of(&f) {
        Some(s) => push_all(&mut out, &s),
        None => push_str(&mut out, "fixture"),
    }
    string_of(&out)
}

/// Where the snapshot with key `key` is stored under `base_dir`: `<base_dir>/<key>.snapshot.json`.
pub fn snapshot_path(base_dir: &str, key: &str) -> (r: String)
    ensures
        r@ == join(base_dir@, key@ + ".snapshot.json"@),
{
    let mut name: Vec<char> = Vec::new();
    push_str(&mut name, key);
    push_str(&mut name, ".snapshot.json");
    let n = string_of(&name);
    join_path(base_dir, n.as_str())
}

/// A path with no parent directory.
pub struct NoParentDirectory;

/// `rel_dir` resolved against the directory that holds the config file.
pub fn resolve_dir_relative_to_config(config_path: &str, rel_dir: &str) -> (r: Result<String, NoParentDirectory>)
    ensures
        match parent(config_path@) {
            Some(base) => r matches Ok(v) && v@ == join(base, rel_dir@),
            None => r is Err,
        },
{
    match parent_of(config_path) {
        Some(base) => Ok(join_path(base.as_str(), rel_dir)),
        None => Err(NoParentDirectory),
    }
}

} // verus!
