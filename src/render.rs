use vstd::prelude::*;
use crate::json::{JsonNumber, JsonSpec, JsonValue, NumSpec};
use crate::text::{push_all, chars_of};

verus! {

/// Decimal digits of `n`, most significant first.
pub open spec fn decimal(n: nat) -> Seq<char>
    decreases n,
{
    if n < 10 {
        seq![digit_char(n)]
    } else {
        decimal(n / 10).push(digit_char(n % 10))
    }
}

pub open spec fn digit_char(d: nat) -> char {
    (('0' as nat) + d) as char
}

pub open spec fn hex_char(d: nat) -> char {
    if d < 10 {
        digit_char(d)
    } else {
        (('a' as nat) + d - 10) as char
    }
}

/// JSON text of a number.
pub open spec fn number_text(n: NumSpec) -> Seq<char> {
    match n {
        NumSpec::PosInt(v) => decimal(v),
        NumSpec::NegInt(v) => seq!['-'] + decimal((-v) as nat),
        NumSpec::Float { text, .. } => text,
    }
}

/// JSON escape of one character inside a string literal.
pub open spec fn escape_char(c: char) -> Seq<char> {
    if c == '"' {
        seq!['\\', '"']
    } else if c == '\\' {
        seq!['\\', '\\']
    } else if c == '\n' {
        seq!['\\', 'n']
    } else if c == '\r' {
        seq!['\\', 'r']
    } else if c == '\t' {
        seq!['\\', 't']
    } else if c == '\x08' {
        seq!['\\', 'b']
    } else if c == '\x0c' {
        seq!['\\', 'f']
    } else if (c as nat) < 0x20 {
        seq!['\\', 'u', '0', '0', hex_char((c as nat) / 16), hex_char((c as nat) % 16)]
    } else {
        seq![c]
    }
}

pub open spec fn escape(s: Seq<char>) -> Seq<char>
    decreases s.len(),
{
    if s.len() == 0 {
        Seq::empty()
    } else {
        escape(s.drop_last()) + escape_char(s.last())
    }
}

/// A JSON string literal.
pub open spec fn quoted(s: Seq<char>) -> Seq<char> {
    seq!['"'] + escape(s) + seq!['"']
}

/// The indentation one level deeper than `ind`.
pub open spec fn deeper(ind: Seq<char>) -> Seq<char> {
    ind + seq![' ', ' ']
}

/// Text put before the element at position `i` of a non-empty array or object.
pub open spec fn item_lead(pretty: bool, ind: Seq<char>, i: int) -> Seq<char> {
    if pretty {
        (if i == 0 {
            seq!['\n']
        } else {
            seq![',', '\n']
        }) + deeper(ind)
    } else {
        if i == 0 {
            Seq::empty()
        } else {
            seq![',']
        }
    }
}

/// Text put before the closing bracket of a non-empty array or object.
pub open spec fn close_lead(pretty: bool, ind: Seq<char>) -> Seq<char> {
    if pretty {
        seq!['\n'] + ind
    } else {
        Seq::empty()
    }
}

pub open spec fn key_sep(pretty: bool) -> Seq<char> {
    if pretty {
        seq![':', ' ']
    } else {
        seq![':']
    }
}

/// JSON text of `v`: compact, or pretty with two spaces per level, the current level indented by
/// `ind`.
pub open spec fn render(v: JsonSpec, pretty: bool, ind: Seq<char>) -> Seq<char>
    decreases v, 0nat,
{
    match v {
        JsonSpec::Null => seq!['n', 'u', 'l', 'l'],
        JsonSpec::Bool(b) => if b {
            seq!['t', 'r', 'u', 'e']
        } else {
            seq!['f', 'a', 'l', 's', 'e']
        },
        JsonSpec::Num(n) => number_text(n),
        JsonSpec::Str(s) => quoted(s),
        JsonSpec::Array(xs) => if xs.len() == 0 {
            seq!['[', ']']
        } else {
            seq!['['] + render_items(xs, pretty, ind, xs.len() as int) + close_lead(pretty, ind)
                + seq![']']
        },
        JsonSpec::Object(es) => if es.len() == 0 {
            seq!['{', '}']
        } else {
            seq!['{'] + render_entries(es, pretty, ind, es.len() as int) + close_lead(
                pretty,
                ind,
            ) + seq!['}']
        },
    }
}

/// The first `n` elements of an array, each with its lead.
pub open spec fn render_items(xs: Seq<JsonSpec>, pretty: bool, ind: Seq<char>, n: int) -> Seq<char>
    decreases xs, n,
{
    if n <= 0 || n > xs.len() {
        Seq::empty()
    } else {
        render_items(xs, pretty, ind, n - 1) + item_lead(pretty, ind, n - 1) + render(
            xs[n - 1],
            pretty,
            deeper(ind),
        )
    }
}

/// The first `n` entries of an object, each with its lead.
pub open spec fn render_entries(
    es: Seq<(Seq<char>, JsonSpec)>,
    pretty: bool,
    ind: Seq<char>,
    n: int,
) -> Seq<char>
    decreases es, n,
{
    if n <= 0 || n > es.len() {
        Seq::empty()
    } else {
        render_entries(es, pretty, ind, n - 1) + item_lead(pretty, ind, n - 1) + quoted(
            es[n - 1].0,
        ) + key_sep(pretty) + render(es[n - 1].1, pretty, deeper(ind))
    }
}

/// Appends the decimal digits of `n`.
pub fn push_decimal(out: &mut Vec<char>, n: u64)
    ensures
        final(out)@ == old(out)@ + decimal(n as nat),
    decreases n,
{
    if n < 10 {
        out.push(char_of_digit(n));
        assert(decimal(n as nat) =~= seq![digit_char(n as nat)]);
    } else {
        push_decimal(out, n / 10);
        out.push(char_of_digit(n % 10));
        assert(final(out)@ =~= old(out)@ + decimal(n as nat));
    }
}

fn char_of_digit(d: u64) -> (c: char)
    requires
        d < 16,
    ensures
        c == hex_char(d as nat),
{
    if d < 10 {
        ((('0' as u8) + d as u8) as char)
    } else {
        ((('a' as u8) + (d as u8 - 10)) as char)
    }
}

/// Appends the decimal digits of a `u128`.
pub fn push_decimal_u128(out: &mut Vec<char>, n: u128)
    ensures
        final(out)@ == old(out)@ + decimal(n as nat),
    decreases n,
{
    if n < 10 {
        out.push(char_of_digit(n as u64));
        assert(decimal(n as nat) =~= seq![digit_char(n as nat)]);
    } else {
        push_decimal_u128(out, n / 10);
        out.push(char_of_digit((n % 10) as u64));
        assert(final(out)@ =~= old(out)@ + decimal(n as nat));
    }
}

pub fn push_number(out: &mut Vec<char>, n: &JsonNumber)
    requires
        n@.wf(),
    ensures
        final(out)@ == old(out)@ + number_text(n@),
{
    match n {
        JsonNumber::PosInt(v) => push_decimal(out, *v),
        JsonNumber::NegInt(v) => {
            out.push('-');
            push_decimal(out, (0i128 - *v as i128) as u64);
            assert(final(out)@ =~= old(out)@ + number_text(n@));
        },
        JsonNumber::Float(f) => {
            let t = chars_of(f.text.as_str());
            push_all(out, &t);
        },
    }
}

fn push_escaped_char(out: &mut Vec<char>, c: char)
    ensures
        final(out)@ == old(out)@ + escape_char(c),
{
    if c == '"' {
        out.push('\\');
        out.push('"');
    } else if c == '\\' {
        out.push('\\');
        out.push('\\');
    } else if c == '\n' {
        out.push('\\');
        out.push('n');
    } else if c == '\r' {
        out.push('\\');
        out.push('r');
    } else if c == '\t' {
        out.push('\\');
        out.push('t');
    } else if c == '\x08' {
        out.push('\\');
        out.push('b');
    } else if c == '\x0c' {
        out.push('\\');
        out.push('f');
    } else if (c as u32) < 0x20 {
        out.push('\\');
        out.push('u');
        out.push('0');
        out.push('0');
        out.push(char_of_digit((c as u32 / 16) as u64));
        out.push(char_of_digit((c as u32 % 16) as u64));
    } else {
        out.push(c);
    }
    assert(final(out)@ =~= old(out)@ + escape_char(c));
}

/// Appends `s` as a JSON string literal.
pub fn push_quoted(out: &mut Vec<char>, s: &str)
    ensures
        final(out)@ == old(out)@ + quoted(s@),
{
    let cs = chars_of(s);
    out.push('"');
    let ghost start = out@;
    let mut i: usize = 0;
    while i < cs.len()
        invariant
            i <= cs.len(),
            cs@ == s@,
            out@ == start + escape(cs@.subrange(0, i as int)),
        decreases cs.len() - i,
    {
        assert(cs@.subrange(0, i + 1).drop_last() =~= cs@.subrange(0, i as int));
        push_escaped_char(out, cs[i]);
        i = i + 1;
        assert(out@ =~= start + escape(cs@.subrange(0, i as int)));
    }
    assert(cs@.subrange(0, cs.len() as int) =~= cs@);
    out.push('"');
    assert(final(out)@ =~= old(out)@ + quoted(s@));
}

fn push_item_lead(out: &mut Vec<char>, pretty: bool, ind: &Vec<char>, i: usize)
    ensures
        final(out)@ == old(out)@ + item_lead(pretty, ind@, i as int),
{
    if pretty {
        if i > 0 {
            out.push(',');
        }
        out.push('\n');
        push_all(out, ind);
        out.push(' ');
        out.push(' ');
    } else if i > 0 {
        out.push(',');
    }
    assert(final(out)@ =~= old(out)@ + item_lead(pretty, ind@, i as int));
}

fn push_close_lead(out: &mut Vec<char>, pretty: bool, ind: &Vec<char>)
    ensures
        final(out)@ == old(out)@ + close_lead(pretty, ind@),
{
    if pretty {
        out.push('\n');
        push_all(out, ind);
    }
    assert(final(out)@ =~= old(out)@ + close_lead(pretty, ind@));
}

/// Appends the JSON text of `v`.
pub fn push_json(out: &mut Vec<char>, v: &JsonValue, pretty: bool, ind: &Vec<char>)
    requires
        v.wf(),
    ensures
        final(out)@ == old(out)@ + render(v@, pretty, ind@),
    decreases v,
{
    match v {
        JsonValue::Null => {
            out.push('n');
            out.push('u');
            out.push('l');
            out.push('l');
        },
        JsonValue::Bool(b) => {
            if *b {
                out.push('t');
                out.push('r');
                out.push('u');
                out.push('e');
            } else {
                out.push('f');
                out.push('a');
                out.push('l');
                out.push('s');
                out.push('e');
            }
        },
        JsonValue::Number(n) => push_number(out, n),
        JsonValue::Str(s) => push_quoted(out, s.as_str()),
        JsonValue::Array(xs) => {
            if xs.len() == 0 {
                out.push('[');
                out.push(']');
            } else {
                let ghost sxs = match v@ {
                    JsonSpec::Array(s) => s,
                    _ => Seq::empty(),
                };
                let mut child = ind.clone();
                child.push(' ');
                child.push(' ');
                out.push('[');
                let ghost start = out@;
                assert(decreases_to!(*v => *xs));
                assert(v@.wf());
                let mut i: usize = 0;
                while i < xs.len()
                    invariant
                        decreases_to!(*v => *xs),
                        i <= xs.len(),
                        sxs.len() == xs.len(),
                        v@ == JsonSpec::Array(sxs),
                        child@ == deeper(ind@),
                        forall|k: int| 0 <= k < xs.len() ==> (#[trigger] sxs[k]) == xs@[k]@,
                        forall|k: int| 0 <= k < xs.len() ==> (#[trigger] sxs[k]).wf(),
                        out@ == start + render_items(sxs, pretty, ind@, i as int),
                    decreases xs.len() - i,
                {
                    proof {
                        assert(decreases_to!(*xs => xs@));
                        assert(decreases_to!(xs@ => xs@[i as int]));
                        assert(sxs[i as int] == xs@[i as int]@);
                        assert(xs@[i as int].wf());
                    }
                    push_item_lead(out, pretty, ind, i);
                    push_json(out, &xs[i], pretty, &child);
                    i = i + 1;
                    assert(out@ =~= start + render_items(sxs, pretty, ind@, i as int));
                }
                push_close_lead(out, pretty, ind);
                out.push(']');
            }
            assert(final(out)@ =~= old(out)@ + render(v@, pretty, ind@));
        },
        JsonValue::Object(es) => {
            if es.len() == 0 {
                out.push('{');
                out.push('}');
            } else {
                let ghost ses = match v@ {
                    JsonSpec::Object(s) => s,
                    _ => Seq::empty(),
                };
                let mut child = ind.clone();
                child.push(' ');
                child.push(' ');
                out.push('{');
                let ghost start = out@;
                assert(decreases_to!(*v => *es));
                assert(v@.wf());
                let mut i: usize = 0;
                while i < es.len()
                    invariant
                        decreases_to!(*v => *es),
                        i <= es.len(),
                        ses.len() == es.len(),
                        v@ == JsonSpec::Object(ses),
                        child@ == deeper(ind@),
                        forall|k: int|
                            0 <= k < es.len() ==> (#[trigger] ses[k]).0 == es@[k].0@ && ses[k].1
                                == es@[k].1@,
                        forall|k: int| 0 <= k < es.len() ==> (#[trigger] ses[k]).1.wf(),
                        out@ == start + render_entries(ses, pretty, ind@, i as int),
                    decreases es.len() - i,
                {
                    proof {
                        assert(decreases_to!(*es => es@));
                        assert(decreases_to!(es@ => es@[i as int]));
                        assert(decreases_to!(es@[i as int] => es@[i as int].1));
                        assert(ses[i as int].1 == es@[i as int].1@);
                        assert(es@[i as int].1.wf());
                    }
                    push_item_lead(out, pretty, ind, i);
                    push_quoted(out, es[i].0.as_str());
                    out.push(':');
                    if pretty {
                        out.push(' ');
                    }
                    push_json(out, &es[i].1, pretty, &child);
                    i = i + 1;
                    assert(out@ =~= start + render_entries(ses, pretty, ind@, i as int));
                }
                push_close_lead(out, pretty, ind);
                out.push('}');
            }
            assert(final(out)@ =~= old(out)@ + render(v@, pretty, ind@));
        },
    }
}

/// Compact JSON text of `v`.
pub fn to_json_string(v: &JsonValue) -> (r: String)
    requires
        v.wf(),
    ensures
        r@ == render(v@, false, Seq::empty()),
{
    let mut out: Vec<char> = Vec::new();
    let ind: Vec<char> = Vec::new();
    push_json(&mut out, v, false, &ind);
    assert(out@ =~= render(v@, false, Seq::empty()));
    crate::text::string_of(&out)
}

/// Pretty JSON text of `v`, indented by two spaces per level.
pub fn to_json_string_pretty(v: &JsonValue) -> (r: String)
    requires
        v.wf(),
    ensures
        r@ == render(v@, true, Seq::empty()),
{
    let mut out: Vec<char> = Vec::new();
    let ind: Vec<char> = Vec::new();
    push_json(&mut out, v, true, &ind);
    assert(out@ =~= render(v@, true, Seq::empty()));
    crate::text::string_of(&out)
}

} // verus!
