use vstd::prelude::*;
use crate::aggregate::InvocationMetrics;
use crate::json::{JsonNumber, JsonSpec, JsonValue, obj_get};
use crate::render::{decimal, push_decimal, push_decimal_u128, push_json, render};
use crate::text::{push_str, string_of};

verus! {

/// Wraps `text` in an ANSI colour escape when colour is on.
pub open spec fn paint_spec(text: Seq<char>, color: Seq<char>, use_color: bool) -> Seq<char> {
    if use_color {
        seq!['\x1b', '['] + color + seq!['m'] + text + seq!['\x1b', '[', '0', 'm']
    } else {
        text
    }
}

pub fn paint(text: &str, color: &str, use_color: bool) -> (r: String)
    ensures
        r@ == paint_spec(text@, color@, use_color),
{
    let mut out: Vec<char> = Vec::new();
    if use_color {
        out.push('\x1b');
        out.push('[');
        push_str(&mut out, color);
        out.push('m');
        push_str(&mut out, text);
        out.push('\x1b');
        out.push('[');
        out.push('0');
        out.push('m');
    } else {
        push_str(&mut out, text);
    }
    assert(out@ =~= paint_spec(text@, color@, use_color));
    string_of(&out)
}

/// A field of an object that is present and not null.
pub open spec fn present(v: JsonSpec, k: Seq<char>) -> Option<JsonSpec> {
    match v {
        JsonSpec::Object(es) => match obj_get(es, k) {
            Some(x) => if x is Null {
                None
            } else {
                Some(x)
            },
            None => None,
        },
        _ => None,
    }
}

/// The part of a shim output worth showing: the error of a failed run, else the callback payload,
/// else the returned result, else the whole output.
pub open spec fn simple_output_spec(v: JsonSpec) -> JsonSpec {
    let failed = match v {
        JsonSpec::Object(es) => obj_get(es, "ok"@) == Some(JsonSpec::Bool(false)),
        _ => false,
    };
    if failed && present(v, "error"@) is Some {
        present(v, "error"@)->0
    } else if present(v, "callback"@) is Some {
        present(v, "callback"@)->0
    } else if present(v, "result"@) is Some {
        present(v, "result"@)->0
    } else {
        v
    }
}

fn present_exec<'a>(v: &'a JsonValue, k: &str) -> (r: Option<&'a JsonValue>)
    requires
        v.wf(),
    ensures
        match present(v@, k@) {
            Some(x) => r matches Some(y) && y@ == x && y.wf(),
            None => r is None,
        },
{
    match v {
        JsonValue::Object(_) => {
            proof {
                let es = v@->Object_0;
                assert(v@.wf());
                crate::json::lemma_obj_get_wf(es, k@);
            }
            match v.get_key(k) {
                Some(x) => if x.is_null() {
                    None
                } else {
                    Some(x)
                },
                None => None,
            }
        },
        _ => None,
    }
}

/// Picks what the simple output shows of a run's output.
pub fn select_simple_output<'a>(output: &'a JsonValue) -> (r: &'a JsonValue)
    requires
        output.wf(),
    ensures
        r@ == simple_output_spec(output@),
        r.wf(),
{
    let failed = match output {
        JsonValue::Object(_) => match output.get_key("ok") {
            Some(JsonValue::Bool(b)) => !*b,
            _ => false,
        },
        _ => false,
    };
    if failed {
        if let Some(e) = present_exec(output, "error") {
            return e;
        }
    }
    if let Some(c) = present_exec(output, "callback") {
        return c;
    }
    if let Some(res) = present_exec(output, "result") {
        return res;
    }
    output
}

/// One envelope entry: a key and a value.
fn entry(k: &str, v: JsonValue) -> (r: (String, JsonValue))
    ensures
        r.0@ == k@,
        r.1 == v,
{
    (k.to_owned(), v)
}

pub open spec fn entries_of(v: Seq<(String, JsonValue)>) -> Seq<(Seq<char>, JsonSpec)> {
    Seq::new(v.len(), |i: int| (v[i].0@, v[i].1@))
}

/// The duration as a JSON value: a number when it fits in `u64`, else its decimal text.
pub open spec fn duration_value(d: u128) -> JsonSpec {
    if d <= u64::MAX as u128 {
        JsonSpec::Num(crate::json::NumSpec::PosInt(d as nat))
    } else {
        JsonSpec::Str(decimal(d as nat))
    }
}

/// The `meta` object of an envelope.
pub open spec fn meta_spec(action: Seq<char>, fixture: Seq<char>, run_idx: u64, runs: u64, m: InvocationMetrics) -> Seq<(Seq<char>, JsonSpec)> {
    seq![("action"@, JsonSpec::Str(action)), ("fixture"@, JsonSpec::Str(fixture))] + (if runs > 1 {
        seq![
            ("run"@, JsonSpec::Num(crate::json::NumSpec::PosInt(run_idx as nat + 1))),
            ("runs"@, JsonSpec::Num(crate::json::NumSpec::PosInt(runs as nat))),
        ]
    } else {
        Seq::empty()
    }) + seq![
        ("duration_ms"@, duration_value(m.duration_ms)),
        ("max_rss_kb"@, match m.max_rss_kb {
            Some(k) => JsonSpec::Num(crate::json::NumSpec::PosInt(k as nat)),
            None => JsonSpec::Null,
        }),
    ]
}

/// The machine-readable record of one run: `ok`, `meta`, the output, and the failures when there
/// are any.
pub open spec fn envelope_spec(
    action: Seq<char>,
    fixture: Seq<char>,
    run_idx: u64,
    runs: u64,
    output: JsonSpec,
    m: InvocationMetrics,
    failures: Seq<Seq<char>>,
) -> JsonSpec {
    JsonSpec::Object(
        seq![
            ("ok"@, JsonSpec::Bool(failures.len() == 0)),
            ("meta"@, JsonSpec::Object(meta_spec(action, fixture, run_idx, runs, m))),
            ("output"@, output),
        ] + (if failures.len() > 0 {
            seq![("failures"@, JsonSpec::Array(Seq::new(failures.len(), |i: int| JsonSpec::Str(failures[i]))))]
        } else {
            Seq::empty()
        }),
    )
}

/// Builds the envelope of one run.
pub fn build_output_envelope(
    action_file: &str,
    fixture: &str,
    run_idx: u64,
    runs: u64,
    output: &JsonValue,
    metrics: &InvocationMetrics,
    failures: &Vec<String>,
) -> (r: JsonValue)
    requires
        run_idx < runs,
    ensures
        r@ == envelope_spec(action_file@, fixture@, run_idx, runs, output@, *metrics, failures@.map_values(|f: String| f@)),
{
    let mut meta: Vec<(String, JsonValue)> = Vec::new();
    meta.push(entry("action", JsonValue::Str(action_file.to_owned())));
    meta.push(entry("fixture", JsonValue::Str(fixture.to_owned())));
    assert(entries_of(meta@) =~= seq![("action"@, JsonSpec::Str(action_file@)), ("fixture"@, JsonSpec::Str(fixture@))]);
    if runs > 1 {
        let ghost before = entries_of(meta@);
        meta.push(entry("run", JsonValue::Number(JsonNumber::PosInt(run_idx + 1))));
        meta.push(entry("runs", JsonValue::Number(JsonNumber::PosInt(runs))));
        assert(entries_of(meta@) =~= before + seq![
            ("run"@, JsonSpec::Num(crate::json::NumSpec::PosInt(run_idx as nat + 1))),
            ("runs"@, JsonSpec::Num(crate::json::NumSpec::PosInt(runs as nat))),
        ]);
    }
    let ghost mid = entries_of(meta@);
    let d = metrics.duration_ms;
    let dv = if d <= u64::MAX as u128 {
        JsonValue::Number(JsonNumber::PosInt(d as u64))
    } else {
        let mut t: Vec<char> = Vec::new();
        push_decimal_u128(&mut t, d);
        JsonValue::Str(string_of(&t))
    };
    assert(dv@ == duration_value(d));
    meta.push(entry("duration_ms", dv));
    let mv = match metrics.max_rss_kb {
        Some(k) => JsonValue::Number(JsonNumber::PosInt(k)),
        None => JsonValue::Null,
    };
    let ghost mvv = mv@;
    meta.push(entry("max_rss_kb", mv));
    assert(entries_of(meta@) =~= mid + seq![("duration_ms"@, duration_value(d)), ("max_rss_kb"@, mvv)]);
    let meta_value = JsonValue::Object(meta);
    assert(meta_value@ == JsonSpec::Object(meta_spec(action_file@, fixture@, run_idx, runs, *metrics))) by {
        assert(meta_value@->Object_0 =~= entries_of(meta@));
        assert(entries_of(meta@) =~= meta_spec(action_file@, fixture@, run_idx, runs, *metrics));
    }
    let mut env: Vec<(String, JsonValue)> = Vec::new();
    let ghost mval = meta_value@;
    env.push(entry("ok", JsonValue::Bool(failures.len() == 0)));
    env.push(entry("meta", meta_value));
    env.push(entry("output", output.deep_copy()));
    let ghost fs = failures@.map_values(|f: String| f@);
    let ghost three = entries_of(env@);
    assert(three =~= seq![("ok"@, JsonSpec::Bool(fs.len() == 0)), ("meta"@, mval), ("output"@, output@)]);
    if failures.len() > 0 {
        let mut items: Vec<JsonValue> = Vec::new();
        let mut i: usize = 0;
        while i < failures.len()
            invariant
                i <= failures.len(),
                fs == failures@.map_values(|f: String| f@),
                items@.len() == i,
                forall|k: int| 0 <= k < i ==> (#[trigger] items@[k])@ == JsonSpec::Str(fs[k]),
            decreases failures.len() - i,
        {
            items.push(JsonValue::Str(failures[i].clone()));
            i = i + 1;
        }
        let arr = JsonValue::Array(items);
        assert(arr@ == JsonSpec::Array(Seq::new(fs.len(), |i: int| JsonSpec::Str(fs[i])))) by {
            assert(arr@->Array_0 =~= Seq::new(fs.len(), |i: int| JsonSpec::Str(fs[i])));
        }
        let ghost av = arr@;
        env.push(entry("failures", arr));
        assert(entries_of(env@) =~= three + seq![("failures"@, av)]);
    }
    let r = JsonValue::Object(env);
    assert(r@ == envelope_spec(action_file@, fixture@, run_idx, runs, output@, *metrics, fs)) by {
        assert(r@->Object_0 =~= entries_of(env@));
        assert(r@->Object_0 =~= envelope_spec(action_file@, fixture@, run_idx, runs, output@, *metrics, fs)->Object_0);
    }
    r
}

/// The failure lines of the simple output, each as `- <failure>\n`.
pub open spec fn failure_lines(fs: Seq<Seq<char>>, n: int) -> Seq<char>
    decreases n,
{
    if n <= 0 || n > fs.len() {
        Seq::empty()
    } else {
        failure_lines(fs, n - 1) + "- "@ + fs[n - 1] + seq!['\n']
    }
}

/// The human-readable report of one run, before trailing whitespace is trimmed.
pub open spec fn simple_text(
    action: Seq<char>,
    fixture: Seq<char>,
    run_idx: u64,
    runs: u64,
    output: JsonSpec,
    m: InvocationMetrics,
    failures: Seq<Seq<char>>,
    use_color: bool,
) -> Seq<char> {
    simple_head(action, fixture, run_idx, runs, m, failures.len() == 0, use_color) + (if failures.len() > 0 {
        "failures:\n"@ + failure_lines(failures, failures.len() as int)
    } else {
        Seq::empty()
    }) + simple_tail(output)
}

/// Status line, fixture, run counter, time and memory of the simple report.
pub open spec fn simple_head(
    action: Seq<char>,
    fixture: Seq<char>,
    run_idx: u64,
    runs: u64,
    m: InvocationMetrics,
    ok: bool,
    use_color: bool,
) -> Seq<char> {
    let status = paint_spec(if ok { "OK"@ } else { "FAIL"@ }, if ok { "32"@ } else { "31"@ }, use_color);
    status + seq![' '] + action + seq!['\n'] + "fixture: "@ + fixture + seq!['\n'] + (if runs > 1 {
        "run: "@ + decimal(run_idx as nat + 1) + seq!['/'] + decimal(runs as nat) + seq!['\n']
    } else {
        Seq::empty()
    }) + "time: "@ + decimal(m.duration_ms as nat) + "ms\n"@ + "memory: "@ + (match m.max_rss_kb {
        Some(k) => decimal(k as nat) + "kb"@,
        None => "n/a"@,
    }) + seq!['\n']
}

/// The output section of the simple report, when there is something to show.
pub open spec fn simple_tail(output: JsonSpec) -> Seq<char> {
    let simple = simple_output_spec(output);
    if simple is Null {
        Seq::empty()
    } else {
        "output:\n"@ + render(simple, true, Seq::empty()) + seq!['\n']
    }
}

#[verifier::rlimit(80)]
fn push_head(
    out: &mut Vec<char>,
    action_file: &str,
    fixture: &str,
    run_idx: u64,
    runs: u64,
    metrics: &InvocationMetrics,
    ok: bool,
    use_color: bool,
)
    requires
        run_idx < runs,
    ensures
        final(out)@ == old(out)@ + simple_head(action_file@, fixture@, run_idx, runs, *metrics, ok, use_color),
{
    let status = if ok {
        paint("OK", "32", use_color)
    } else {
        paint("FAIL", "31", use_color)
    };
    push_str(out, status.as_str());
    out.push(' ');
    push_str(out, action_file);
    out.push('\n');
    push_str(out, "fixture: ");
    push_str(out, fixture);
    out.push('\n');
    let ghost a = out@;
    if runs > 1 {
        push_str(out, "run: ");
        push_decimal(out, run_idx + 1);
        out.push('/');
        push_decimal(out, runs);
        out.push('\n');
    }
    let ghost b = out@;
    assert(b =~= old(out)@ + paint_spec(if ok { "OK"@ } else { "FAIL"@ }, if ok { "32"@ } else { "31"@ }, use_color)
        + seq![' '] + action_file@ + seq!['\n'] + "fixture: "@ + fixture@ + seq!['\n'] + (if runs > 1 {
        "run: "@ + decimal(run_idx as nat + 1) + seq!['/'] + decimal(runs as nat) + seq!['\n']
    } else {
        Seq::empty()
    }));
    push_str(out, "time: ");
    push_decimal_u128(out, metrics.duration_ms);
    push_str(out, "ms\n");
    push_str(out, "memory: ");
    match metrics.max_rss_kb {
        Some(k) => {
            push_decimal(out, k);
            push_str(out, "kb");
        },
        None => push_str(out, "n/a"),
    }
    out.push('\n');
    assert(out@ =~= old(out)@ + simple_head(action_file@, fixture@, run_idx, runs, *metrics, ok, use_color));
}

fn push_tail(out: &mut Vec<char>, output: &JsonValue)
    requires
        output.wf(),
    ensures
        final(out)@ == old(out)@ + simple_tail(output@),
{
    let simple = select_simple_output(output);
    if !simple.is_null() {
        push_str(out, "output:\n");
        let empty: Vec<char> = Vec::new();
        push_json(out, simple, true, &empty);
        out.push('\n');
    }
    assert(out@ =~= old(out)@ + simple_tail(output@));
}

/// Formats the human-readable report of one run, without trailing whitespace.
pub fn format_simple_output(
    action_file: &str,
    fixture: &str,
    run_idx: u64,
    runs: u64,
    output: &JsonValue,
    metrics: &InvocationMetrics,
    failures: &Vec<String>,
    use_color: bool,
) -> (r: String)
    requires
        run_idx < runs,
        output.wf(),
    ensures
        r@ == crate::marker::trim_end(
            simple_text(action_file@, fixture@, run_idx, runs, output@, *metrics, failures@.map_values(|f: String| f@), use_color),
        ),
{
    let ghost fs = failures@.map_values(|f: String| f@);
    let mut out: Vec<char> = Vec::new();
    push_head(&mut out, action_file, fixture, run_idx, runs, metrics, failures.len() == 0, use_color);
    let ghost head = out@;
    if failures.len() > 0 {
        push_str(&mut out, "failures:\n");
        let ghost start = out@;
        let mut i: usize = 0;
        while i < failures.len()
            invariant
                i <= failures.len(),
                fs == failures@.map_values(|f: String| f@),
                out@ == start + failure_lines(fs, i as int),
            decreases failures.len() - i,
        {
            push_str(&mut out, "- ");
            push_str(&mut out, failures[i].as_str());
            out.push('\n');
            i = i + 1;
            assert(out@ =~= start + failure_lines(fs, i as int));
        }
    }
    let ghost mid = out@;
    assert(mid =~= head + (if fs.len() > 0 {
        "failures:\n"@ + failure_lines(fs, fs.len() as int)
    } else {
        Seq::empty()
    }));
    push_tail(&mut out, output);
    assert(out@ =~= simple_text(action_file@, fixture@, run_idx, runs, output@, *metrics, fs, use_color));
    let t = crate::marker::trim_end_exec(&out);
    string_of(&t)
}

} // verus!
