use hsemulate::aggregate::{aggregate, InvocationMetrics, RunOutcome};
use hsemulate::budget::BudgetsResolved;
use hsemulate::checks::Assertion;
use hsemulate::json::{JsonNumber, JsonValue};
use hsemulate::paths::{resolve_dir_relative_to_config, snapshot_key, snapshot_path};
use hsemulate::render::{to_json_string, to_json_string_pretty};
use hsemulate::run::{classify_shim_output, evaluate_run, select_runtime, shim_payload, RuntimeKind};
use hsemulate::snapshot::{compare_snapshot, normalize};

fn num(n: u64) -> JsonValue {
    JsonValue::Number(JsonNumber::PosInt(n))
}

fn obj(entries: Vec<(&str, JsonValue)>) -> JsonValue {
    JsonValue::Object(entries.into_iter().map(|(k, v)| (k.to_string(), v)).collect())
}

fn output(n: u64) -> JsonValue {
    obj(vec![("ok", JsonValue::Bool(true)), ("result", num(n))])
}

fn metrics(ms: u128) -> InvocationMetrics {
    InvocationMetrics { duration_ms: ms, max_rss_kb: Some(2048) }
}

#[test]
fn snapshot_ignores_key_order() {
    let baseline = obj(vec![("a", num(1)), ("b", num(2))]);
    let actual = obj(vec![("b", num(2)), ("a", num(1))]);
    assert!(compare_snapshot(&baseline, &actual).is_ok());
}

#[test]
fn snapshot_mismatch_shows_both_renderings() {
    let baseline = obj(vec![("a", num(1))]);
    let actual = obj(vec![("a", num(2))]);
    match compare_snapshot(&baseline, &actual) {
        Err(m) => {
            let text = m.message();
            assert!(text.contains("{\n  \"a\": 1\n}"), "{}", text);
            assert!(text.contains("{\n  \"a\": 2\n}"), "{}", text);
            assert!(text.starts_with("Snapshot mismatch"));
        }
        Ok(()) => panic!("values differ"),
    }
}

#[test]
fn normalized_value_compares_equal_to_itself() {
    let x = obj(vec![("z", JsonValue::Array(vec![obj(vec![("y", num(1)), ("x", JsonValue::Null)])])), ("a", JsonValue::Str("q".to_string()))]);
    let n1 = normalize(&x);
    let n2 = normalize(&x);
    assert!(compare_snapshot(&n1, &n2).is_ok());
    assert_eq!(to_json_string(&n1), "{\"a\":\"q\",\"z\":[{\"x\":null,\"y\":1}]}");
}

#[test]
fn pretty_rendering_matches_two_space_layout() {
    let x = obj(vec![("k", JsonValue::Array(vec![num(1), JsonValue::Bool(false)])), ("e", JsonValue::Array(vec![]))]);
    assert_eq!(to_json_string_pretty(&x), "{\n  \"k\": [\n    1,\n    false\n  ],\n  \"e\": []\n}");
    assert_eq!(to_json_string(&JsonValue::Str("a\"b\n".to_string())), "\"a\\\"b\\n\"");
    assert_eq!(to_json_string(&JsonValue::Number(JsonNumber::NegInt(-42))), "-42");
}

#[test]
fn identical_passing_repeats_are_not_flaky() {
    let outs = vec![
        RunOutcome::new(1, output(1), metrics(10), vec![]),
        RunOutcome::new(2, output(1), metrics(20), vec![]),
        RunOutcome::new(3, output(1), metrics(30), vec![]),
    ];
    let s = aggregate(&outs);
    assert!(s.ok);
    assert!(!s.flaky);
    assert_eq!(s.runs, 3);
    assert_eq!(s.min_duration_ms, 10);
    assert_eq!(s.max_duration_ms, 30);
    assert_eq!(s.avg_duration_ms, 20);
    assert_eq!(s.max_memory_kb, Some(2048));
}

#[test]
fn output_drift_in_second_run_is_flaky() {
    let outs = vec![
        RunOutcome::new(1, output(1), metrics(10), vec![]),
        RunOutcome::new(2, output(2), metrics(10), vec![]),
        RunOutcome::new(3, output(1), metrics(10), vec![]),
    ];
    let s = aggregate(&outs);
    assert!(s.flaky);
    assert_eq!(s.drift_runs, vec![2]);
    assert!(s.failing_runs.is_empty());
}

#[test]
fn mixed_verdicts_are_flaky_even_with_identical_output() {
    let budgets = Some(BudgetsResolved { duration_ms: Some(100), memory_kb: None });
    let none: Vec<(String, Assertion)> = vec![];
    let r1 = evaluate_run(1, output(1), metrics(50), &none, &budgets, None, "snapshots/a.snapshot.json");
    let r2 = evaluate_run(2, output(1), metrics(150), &none, &budgets, None, "snapshots/a.snapshot.json");
    assert!(r1.ok);
    assert!(!r2.ok);
    assert_eq!(r2.failures, vec!["Budget failed: Duration budget exceeded: 150ms (budget 100ms)".to_string()]);
    let s = aggregate(&vec![r1, r2]);
    assert!(s.flaky);
    assert!(!s.ok);
    assert_eq!(s.failing_runs, vec![2]);
    assert!(s.drift_runs.is_empty());
}

#[test]
fn uniformly_failing_runs_are_not_flaky() {
    let outs = vec![
        RunOutcome::new(1, output(1), metrics(10), vec!["x".to_string()]),
        RunOutcome::new(2, output(1), metrics(10), vec!["x".to_string()]),
    ];
    let s = aggregate(&outs);
    assert!(!s.flaky);
    assert!(!s.ok);
    assert_eq!(s.failures.len(), 2);
}

#[test]
fn run_collects_every_check_in_order() {
    let out = obj(vec![("ok", JsonValue::Bool(false)), ("result", num(3))]);
    let specs = vec![("result".to_string(), Assertion::Gt(num(5)))];
    let budgets = Some(BudgetsResolved { duration_ms: Some(1), memory_kb: None });
    let baseline = obj(vec![("ok", JsonValue::Bool(false)), ("result", num(4))]);
    let r = evaluate_run(1, out, metrics(2), &specs, &budgets, Some(&baseline), "snap.json");
    assert_eq!(r.failures.len(), 4);
    assert_eq!(r.failures[0], "Action returned ok=false");
    assert_eq!(r.failures[1], "Assertion failed: Assertion failed at 'result': 3 <= 5");
    assert!(r.failures[2].starts_with("Budget failed: Duration budget exceeded"));
    assert!(r.failures[3].starts_with("Snapshot mismatch (snap.json): Snapshot mismatch"));
    assert!(!r.snapshot_ok);
}

#[test]
fn runtime_follows_extension() {
    assert!(matches!(select_runtime("actions/a.py"), Ok(RuntimeKind::Python)));
    assert!(matches!(select_runtime("actions/a.JS"), Ok(RuntimeKind::Node)));
    assert!(matches!(select_runtime("a.mjs"), Ok(RuntimeKind::Node)));
    assert!(matches!(select_runtime("a.cjs"), Ok(RuntimeKind::Node)));
    assert!(select_runtime("a.rb").is_err());
    assert!(select_runtime("Makefile").is_err());
}

#[test]
fn shim_output_must_be_one_object() {
    assert_eq!(shim_payload("{\"ok\":true}\n  \n"), "{\"ok\":true}");
    assert!(classify_shim_output(Some(output(1)), true).is_ok());
    assert!(classify_shim_output(Some(num(1)), true).is_err());
    assert!(classify_shim_output(None, false).is_err());
}

#[test]
fn snapshot_key_from_action_and_fixture() {
    assert_eq!(snapshot_key("actions/my_action.js", "booking_created.json"), "my_action.booking_created");
    assert_eq!(snapshot_key("", "fixtures/e.json"), "action.e");
    assert_eq!(snapshot_path("snapshots", "a.b"), "snapshots/a.b.snapshot.json");
    assert_eq!(snapshot_path("snapshots/", "k"), "snapshots/k.snapshot.json");
}

#[test]
fn directories_resolve_next_to_config() {
    assert_eq!(resolve_dir_relative_to_config("/project/config.yaml", "fixtures").ok(), Some("/project/fixtures".to_string()));
    assert_eq!(resolve_dir_relative_to_config("config.yaml", "fixtures").ok(), Some("fixtures".to_string()));
    assert!(resolve_dir_relative_to_config("/", "fixtures").is_err());
}

#[test]
fn flaky_reasons_name_the_runs() {
    let outs = vec![
        RunOutcome::new(1, output(1), metrics(10), vec![]),
        RunOutcome::new(2, output(2), metrics(10), vec!["bad".to_string()]),
        RunOutcome::new(3, output(3), metrics(10), vec![]),
    ];
    let s = aggregate(&outs);
    assert_eq!(
        s.flaky_reasons(),
        vec!["output differs from run 1 in runs: 2, 3".to_string(), "mixed verdicts; failing runs: 2".to_string()]
    );
}

#[test]
fn summaries_fold_into_one_result() {
    let a = aggregate(&vec![RunOutcome::new(1, output(1), InvocationMetrics { duration_ms: 5, max_rss_kb: None }, vec![])]);
    let b = aggregate(&vec![RunOutcome::new(1, output(1), InvocationMetrics { duration_ms: 9, max_rss_kb: Some(3) }, vec!["f".to_string()])]);
    let r = hsemulate::aggregate::combine_summaries(&vec![a, b], 1);
    assert!(!r.ok);
    assert_eq!(r.max_duration_ms, Some(9));
    assert_eq!(r.max_memory_kb, Some(3));
    assert_eq!(r.failures, vec!["f".to_string()]);
    assert!(r.snapshots_ok);
}
