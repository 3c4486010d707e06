use vstd::prelude::*;
use crate::aggregate::{InvocationMetrics, RunOutcome};
use crate::budget::{BudgetsResolved, budget_message, budget_verdict, check_budgets};
use crate::checks::{Assertion, all_wf, keys_in_order, assert_json, failure_message, first_failure, specs_view};
use crate::json::{JsonSpec, JsonValue, obj_get};
use crate::paths::extension;
use crate::render::render;
use crate::snapshot::{compare_snapshot, normalizes};
use crate::text::{chars_of, push_str, string_of};

verus! {

/// Runtime that executes an action.
pub enum RuntimeKind {
    Node,
    Python,
}

/// A configuration that names an action the engine cannot run.
pub enum ConfigError {
    /// The action file's extension selects no runtime.
    UnsupportedExtension { ext: String },
}

/// An invocation whose output broke the shim contract.
pub enum InvocationError {
    /// The output stream was not exactly one JSON object.
    ShimContractViolation { exit_ok: bool },
}

/// ASCII letters lowered, other characters kept.
pub open spec fn ascii_lower(s: Seq<char>) -> Seq<char> {
    Seq::new(s.len(), |i: int| lower_char(s[i]))
}

pub open spec fn lower_char(c: char) -> char {
    if 'A' <= c && c <= 'Z' {
        ((c as u32) + 32) as char
    } else {
        c
    }
}

/// The runtime that the action file's extension (case-insensitive) selects.
pub open spec fn runtime_for(path: Seq<char>) -> Option<RuntimeKind> {
    let e = ascii_lower(
        match extension(path) {
            Some(e) => e,
            None => Seq::empty(),
        },
    );
    if e == seq!['p', 'y'] {
        Some(RuntimeKind::Python)
    } else if e == seq!['j', 's'] || e == seq!['m', 'j', 's'] || e == seq!['c', 'j', 's'] {
        Some(RuntimeKind::Node)
    } else {
        None
    }
}

pub(crate) fn lower_vec(s: &Vec<char>) -> (r: Vec<char>)
    ensures
        r@ == ascii_lower(s@),
{
    let mut out: Vec<char> = Vec::new();
    let mut i: usize = 0;
    while i < s.len()
        invariant
            i <= s.len(),
            out@ =~= ascii_lower(s@).subrange(0, i as int),
        decreases s.len() - i,
    {
        let c = s[i];
        let l = if 'A' <= c && c <= 'Z' {
            ((c as u8) + 32) as char
        } else {
            c
        };
        out.push(l);
        i = i + 1;
    }
    assert(out@ =~= ascii_lower(s@));
    out
}

pub(crate) fn is_word(e: &Vec<char>, w: &str) -> (r: bool)
    ensures
        r == (e@ == w@),
{
    let wv = chars_of(w);
    crate::text::chars_eq(e, &wv)
}

/// Selects the runtime by the action file's extension: `.py` runs on python, `.js`, `.mjs` and
/// `.cjs` on node; any other extension is a configuration error.
pub fn select_runtime(action_file: &str) -> (r: Result<RuntimeKind, ConfigError>)
    ensures
        match runtime_for(action_file@) {
            Some(k) => r == Ok::<RuntimeKind, ConfigError>(k),
            None => r matches Err(ConfigError::UnsupportedExtension { ext }) && ext@ == ascii_lower(
                match extension(action_file@) {
                    Some(e) => e,
                    None => Seq::empty(),
                },
            ),
        },
{
    let p = chars_of(action_file);
    let raw = match crate::paths::extension_of_path(&p) {
        Some(e) => e,
        None => Vec::new(),
    };
    let e = lower_vec(&raw);
    proof {
        reveal_strlit("py");
        reveal_strlit("js");
        reveal_strlit("mjs");
        reveal_strlit("cjs");
        assert("py"@ =~= seq!['p', 'y']);
        assert("js"@ =~= seq!['j', 's']);
        assert("mjs"@ =~= seq!['m', 'j', 's']);
        assert("cjs"@ =~= seq!['c', 'j', 's']);
    }
    if is_word(&e, "py") {
        Ok(RuntimeKind::Python)
    } else if is_word(&e, "js") || is_word(&e, "mjs") || is_word(&e, "cjs") {
        Ok(RuntimeKind::Node)
    } else {
        Err(ConfigError::UnsupportedExtension { ext: string_of(&e) })
    }
}

pub open spec fn is_json_space(c: char) -> bool {
    c == ' ' || c == '\t' || c == '\n' || c == '\r'
}

/// The output stream without trailing whitespace.
pub open spec fn trimmed_end(s: Seq<char>, n: int) -> Seq<char>
    decreases n,
{
    if n <= 0 || n > s.len() {
        Seq::empty()
    } else if is_json_space(s[n - 1]) {
        trimmed_end(s, n - 1)
    } else {
        s.subrange(0, n)
    }
}

/// The captured output stream with trailing whitespace removed: the text that must be one JSON
/// object.
pub fn shim_payload(stdout: &str) -> (r: String)
    ensures
        r@ == trimmed_end(stdout@, stdout@.len() as int),
{
    let s = chars_of(stdout);
    let mut k: usize = s.len();
    while k > 0 && (s[k - 1] == ' ' || s[k - 1] == '\t' || s[k - 1] == '\n' || s[k - 1] == '\r')
        invariant
            k <= s.len(),
            s@ == stdout@,
            trimmed_end(s@, s.len() as int) == trimmed_end(s@, k as int),
        decreases k,
    {
        k = k - 1;
    }
    let mut out: Vec<char> = Vec::new();
    let mut i: usize = 0;
    while i < k
        invariant
            i <= k <= s.len(),
            out@ == s@.subrange(0, i as int),
        decreases k - i,
    {
        out.push(s[i]);
        i = i + 1;
        assert(out@ =~= s@.subrange(0, i as int));
    }
    string_of(&out)
}

/// Accepts the parsed output stream only when it is a single JSON object; anything else breaks the
/// shim contract.
pub fn classify_shim_output(parsed: Option<JsonValue>, exit_ok: bool) -> (r: Result<JsonValue, InvocationError>)
    ensures
        match parsed {
            Some(v) => if v@ is Object {
                r == Ok::<JsonValue, InvocationError>(v)
            } else {
                r == Err::<JsonValue, InvocationError>(InvocationError::ShimContractViolation { exit_ok })
            },
            None => r == Err::<JsonValue, InvocationError>(InvocationError::ShimContractViolation { exit_ok }),
        },
{
    match parsed {
        Some(v) => match v {
            JsonValue::Object(_) => Ok(v),
            _ => Err(InvocationError::ShimContractViolation { exit_ok }),
        },
        None => Err(InvocationError::ShimContractViolation { exit_ok }),
    }
}

impl InvocationError {
    pub fn message(&self) -> (r: String)
        ensures
            r@ == (match *self {
                InvocationError::ShimContractViolation { exit_ok } => if exit_ok {
                    "Shim did not emit valid JSON"@
                } else {
                    "Shim did not emit valid JSON (the runtime exited with an error)"@
                },
            }),
    {
        match self {
            InvocationError::ShimContractViolation { exit_ok } => {
                if *exit_ok {
                    let mut out: Vec<char> = Vec::new();
                    push_str(&mut out, "Shim did not emit valid JSON");
                    string_of(&out)
                } else {
                    let mut out: Vec<char> = Vec::new();
                    push_str(&mut out, "Shim did not emit valid JSON (the runtime exited with an error)");
                    string_of(&out)
                }
            },
        }
    }
}

/// Whether the shim reported success: the output's `ok` field is `true`.
pub open spec fn output_ok(v: JsonSpec) -> bool {
    match v {
        JsonSpec::Object(es) => obj_get(es, "ok"@) == Some(JsonSpec::Bool(true)),
        _ => false,
    }
}

/// Failures of one run from the shim's own flag, the assertions (first failure) and the budgets,
/// in that order.
pub open spec fn base_failures(
    output: JsonSpec,
    assertions: Seq<(String, Assertion)>,
    budgets: Option<BudgetsResolved>,
    metrics: InvocationMetrics,
) -> Seq<Seq<char>> {
    let a = if output_ok(output) {
        Seq::empty()
    } else {
        seq!["Action returned ok=false"@]
    };
    let b = match first_failure(output, specs_view(assertions), assertions.len() as int) {
        Some(f) => seq!["Assertion failed: "@ + failure_message(f)],
        None => Seq::empty(),
    };
    let c = match budgets {
        Some(bu) => match budget_verdict(metrics.duration_ms, metrics.max_rss_kb, bu) {
            Some(e) => seq!["Budget failed: "@ + budget_message(e)],
            None => Seq::empty(),
        },
        None => Seq::empty(),
    };
    a + b + c
}

/// The text reported for a snapshot mismatch, for some normal forms of the two documents.
pub open spec fn snapshot_failure_text(t: Seq<char>, baseline: JsonSpec, output: JsonSpec, path: Seq<char>) -> bool {
    exists|ne: JsonSpec, na: JsonSpec|
        normalizes(ne, baseline) && normalizes(na, output) && t == "Snapshot mismatch ("@ + path + "): "@
            + "Snapshot mismatch\n\n--- expected\n"@ + render(ne, true, Seq::empty()) + "\n\n+++ actual\n"@
            + render(na, true, Seq::empty())
}

fn push_text(out: &mut Vec<String>, prefix: &str, body: &String)
    ensures
        final(out)@.len() == old(out)@.len() + 1,
        forall|k: int| 0 <= k < old(out)@.len() ==> final(out)@[k] == old(out)@[k],
        final(out)@[old(out)@.len() as int]@ == prefix@ + body@,
{
    let mut t: Vec<char> = Vec::new();
    push_str(&mut t, prefix);
    push_str(&mut t, body.as_str());
    out.push(string_of(&t));
}

/// Runs every check on one invocation's output and folds the verdicts into its outcome. A missing
/// baseline is no failure (the caller stores the output as the new baseline).
pub fn evaluate_run(
    run_index: u64,
    output: JsonValue,
    metrics: InvocationMetrics,
    assertions: &Vec<(String, Assertion)>,
    budgets: &Option<BudgetsResolved>,
    baseline: Option<&JsonValue>,
    snapshot_file: &str,
) -> (r: RunOutcome)
    requires
        output.wf(),
        all_wf(assertions@),
        keys_in_order(assertions@),
        baseline matches Some(b) ==> b.wf(),
    ensures
        ({
            let base = base_failures(output@, assertions@, *budgets, metrics);
            let mismatch = baseline matches Some(b) && !b@.equiv(output@);
            &&& r.run_index == run_index
            &&& r.output == output
            &&& r.metrics == metrics
            &&& r.failures@.len() == base.len() + (if mismatch {
                1int
            } else {
                0int
            })
            &&& forall|k: int| 0 <= k < base.len() ==> (#[trigger] r.failures@[k])@ == base[k]
            &&& mismatch ==> snapshot_failure_text(
                r.failures@[base.len() as int]@,
                baseline->0@,
                output@,
                snapshot_file@,
            )
            &&& r.ok == (r.failures@.len() == 0)
            &&& r.snapshot_ok == !mismatch
        }),
{
    let mut failures: Vec<String> = Vec::new();
    let mut snapshot_ok = true;
    let ok_flag = match output.get_key("ok") {
        Some(JsonValue::Bool(true)) => true,
        _ => false,
    };
    if !ok_flag {
        let mut t: Vec<char> = Vec::new();
        push_str(&mut t, "Action returned ok=false");
        failures.push(string_of(&t));
    }
    let ghost after_a = failures@;
    if assertions.len() > 0 {
        match assert_json(&output, assertions) {
            Err(f) => {
                let m = f.message();
                push_text(&mut failures, "Assertion failed: ", &m);
            },
            Ok(()) => {},
        }
    }
    let ghost after_b = failures@;
    match budgets {
        Some(b) => match check_budgets(metrics.duration_ms, metrics.max_rss_kb, b) {
            Err(e) => {
                let m = e.message();
                push_text(&mut failures, "Budget failed: ", &m);
            },
            Ok(()) => {},
        },
        None => {},
    }
    let ghost after_c = failures@;
    proof {
        let base = base_failures(output@, assertions@, *budgets, metrics);
        assert(failures@.len() == base.len());
        assert forall|k: int| 0 <= k < base.len() implies (#[trigger] failures@[k])@ == base[k] by {
            if assertions@.len() == 0 {
                assert(specs_view(assertions@).len() == 0);
            }
        }
    }
    match baseline {
        Some(b) => match compare_snapshot(b, &output) {
            Err(m) => {
                let msg = m.message();
                let mut t: Vec<char> = Vec::new();
                push_str(&mut t, "Snapshot mismatch (");
                push_str(&mut t, snapshot_file);
                push_str(&mut t, "): ");
                push_str(&mut t, msg.as_str());
                failures.push(string_of(&t));
                snapshot_ok = false;
                proof {
                    let ne = choose|ne: JsonSpec, na: JsonSpec|
                        normalizes(ne, b@) && normalizes(na, output@) && m.expected@ == render(ne, true, Seq::empty())
                            && m.actual@ == render(na, true, Seq::empty());
                    assert(snapshot_failure_text(failures@[after_c.len() as int]@, b@, output@, snapshot_file@)) by {
                        assert(failures@[after_c.len() as int]@ =~= "Snapshot mismatch ("@ + snapshot_file@ + "): "@
                            + "Snapshot mismatch\n\n--- expected\n"@ + render(ne.0, true, Seq::empty())
                            + "\n\n+++ actual\n"@ + render(ne.1, true, Seq::empty()));
                    }
                }
            },
            Ok(()) => {},
        },
        None => {},
    }
    let mut outcome = RunOutcome::new(run_index, output, metrics, failures);
    outcome.snapshot_ok = snapshot_ok;
    outcome
}

/// The snapshot baseline after a run, and whether the output is to be stored as the new baseline:
/// with snapshots on and no baseline yet, the run's output becomes the baseline (and the run
/// passes); otherwise the baseline is kept and nothing is written.
pub fn baseline_after_run(enabled: bool, baseline: Option<JsonValue>, output: &JsonValue) -> (r: (Option<JsonValue>, bool))
    ensures
        !enabled || baseline is Some ==> r.0 == baseline && !r.1,
        enabled && baseline is None ==> r.1 && (r.0 matches Some(b) && b@ == output@),
{
    if enabled && baseline.is_none() {
        (Some(output.deep_copy()), true)
    } else {
        (baseline, false)
    }
}

/// The outcome of a run whose invocation failed (it could not be spawned, or its output broke the
/// shim contract): a failed run with that one failure, no output and no measurements. The remaining
/// runs go on unless the execution fails fast.
pub fn failed_invocation(run_index: u64, message: &str) -> (r: RunOutcome)
    ensures
        r.run_index == run_index,
        !r.ok,
        r.output@ is Null,
        r.metrics.duration_ms == 0,
        r.metrics.max_rss_kb is None,
        r.snapshot_ok,
        r.failures@.len() == 1,
        r.failures@[0]@ == "Invocation failed: "@ + message@,
{
    let mut t: Vec<char> = Vec::new();
    push_str(&mut t, "Invocation failed: ");
    push_str(&mut t, message);
    let mut failures: Vec<String> = Vec::new();
    failures.push(string_of(&t));
    RunOutcome::new(run_index, JsonValue::Null, InvocationMetrics { duration_ms: 0, max_rss_kb: None }, failures)
}

/// A run's failures as reported for the whole execution: each prefixed with `[<fixture>] `.
pub fn fixture_failures(fixture: &str, failures: &Vec<String>) -> (r: Vec<String>)
    ensures
        r@.len() == failures@.len(),
        forall|i: int| 0 <= i < r@.len() ==> (#[trigger] r@[i])@ == seq!['['] + fixture@ + "] "@ + failures@[i]@,
{
    let mut out: Vec<String> = Vec::new();
    let mut i: usize = 0;
    while i < failures.len()
        invariant
            i <= failures.len(),
            out@.len() == i,
            forall|k: int| 0 <= k < i ==> (#[trigger] out@[k])@ == seq!['['] + fixture@ + "] "@ + failures@[k]@,
        decreases failures.len() - i,
    {
        let mut t: Vec<char> = Vec::new();
        t.push('[');
        push_str(&mut t, fixture);
        push_str(&mut t, "] ");
        push_str(&mut t, failures[i].as_str());
        assert(t@ =~= seq!['['] + fixture@ + "] "@ + failures@[i as int]@);
        out.push(string_of(&t));
        i = i + 1;
    }
    out
}

} // verus!
