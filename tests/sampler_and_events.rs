use hsemulate::aggregate::{aggregate, InvocationMetrics};
use hsemulate::checks::{assertion_keys_in_order, check_assertion, Assertion};
use hsemulate::engine::{after_validation, begin_execution, finish_execution, start_execution, CollectingEventSink, EventSink, ExecutionEventKind, ExecutionId, ExecutionMode, ExecutionResult, ValidationResult};
use hsemulate::json::{FloatNum, JsonNumber, JsonValue};
use hsemulate::run::{baseline_after_run, failed_invocation};
use hsemulate::sampler::sample_step;

fn num(n: u64) -> JsonValue {
    JsonValue::Number(JsonNumber::PosInt(n))
}

fn obj(entries: Vec<(&str, JsonValue)>) -> JsonValue {
    JsonValue::Object(entries.into_iter().map(|(k, v)| (k.to_string(), v)).collect())
}

#[test]
fn sampler_keeps_largest_reading_in_kilobytes() {
    let (p, go) = sample_step(None, Some(4096), false);
    assert_eq!((p, go), (Some(4), true));
    let (p, go) = sample_step(p, Some(2048), false);
    assert_eq!((p, go), (Some(4), true));
    let (p, go) = sample_step(p, Some(10240), false);
    assert_eq!((p, go), (Some(10), true));
    assert_eq!(sample_step(p, None, false), (Some(10), false));
    assert_eq!(sample_step(p, Some(1 << 30), true), (Some(10), false));
}

#[test]
fn sampler_reports_nothing_without_a_sample() {
    assert_eq!(sample_step(None, None, false), (None, false));
    assert_eq!(sample_step(None, Some(1 << 20), true), (None, false));
    // A tiny reading still counts as a sample.
    assert_eq!(sample_step(None, Some(100), false), (Some(0), true));
}

#[test]
fn first_run_writes_the_baseline() {
    let out = obj(vec![("a", num(1))]);
    let (b, write) = baseline_after_run(true, None, &out);
    assert!(write);
    assert!(b.is_some());
    let (b2, write2) = baseline_after_run(true, b, &obj(vec![("a", num(2))]));
    assert!(!write2);
    assert!(matches!(b2, Some(JsonValue::Object(ref es)) if matches!(es[0].1, JsonValue::Number(JsonNumber::PosInt(1)))));
    let (b3, write3) = baseline_after_run(false, None, &out);
    assert!(!write3 && b3.is_none());
}

#[test]
fn failed_invocation_is_a_failed_run_and_others_continue() {
    let bad = failed_invocation(2, "Shim did not emit valid JSON");
    assert!(!bad.ok);
    assert_eq!(bad.failures, vec!["Invocation failed: Shim did not emit valid JSON".to_string()]);
    let good = hsemulate::aggregate::RunOutcome::new(1, obj(vec![]), InvocationMetrics { duration_ms: 3, max_rss_kb: None }, vec![]);
    let s = aggregate(&vec![good, bad]);
    assert!(!s.ok);
    assert!(s.flaky);
    assert_eq!(s.failing_runs, vec![2]);
}

#[test]
fn assertion_keys_must_be_sorted_and_distinct() {
    let a = |k: &str| (k.to_string(), Assertion::Exists(false));
    assert!(assertion_keys_in_order(&vec![a("a"), a("b.c"), a("b.d")]));
    assert!(!assertion_keys_in_order(&vec![a("b"), a("a")]));
    assert!(!assertion_keys_in_order(&vec![a("a"), a("a")]));
    assert!(assertion_keys_in_order(&vec![]));
}

#[test]
fn invalid_regex_message_keeps_the_reason() {
    let d = obj(vec![("s", JsonValue::Str("x".to_string()))]);
    match check_assertion(&d, "s", &Assertion::Regex("(".to_string())) {
        Err(f) => {
            let m = f.message();
            assert!(m.starts_with("Invalid regex '(': "), "{}", m);
            assert!(m.len() > "Invalid regex '(': ".len());
        }
        Ok(()) => panic!("pattern does not compile"),
    }
}

#[test]
fn well_formedness_check() {
    assert!(obj(vec![("a", num(1)), ("b", num(2))]).is_wf());
    assert!(!obj(vec![("a", num(1)), ("a", num(2))]).is_wf());
    assert!(!JsonValue::Number(JsonNumber::NegInt(3)).is_wf());
    let even = FloatNum { negative: false, mantissa: 4, exponent: 0, text: "4.0".to_string() };
    assert!(!JsonValue::Array(vec![JsonValue::Number(JsonNumber::Float(even))]).is_wf());
}

#[test]
fn every_event_carries_the_execution_id() {
    let id = ExecutionId::new();
    let mut sink = CollectingEventSink::new();
    begin_execution(&mut sink, &id);
    assert!(after_validation(&mut sink, &id, &ValidationResult::ok(), ExecutionMode::Execute).is_none());
    start_execution(&mut sink, &id);
    let result = ExecutionResult { ok: true, runs: 1, failures: vec![], max_duration_ms: Some(1), max_memory_kb: None, snapshots_ok: true };
    let summary = finish_execution(&mut sink, id.copy(), result);
    let kinds: Vec<bool> = sink
        .events()
        .iter()
        .zip([
            ExecutionEventKind::ExecutionCreated,
            ExecutionEventKind::ValidationStarted,
            ExecutionEventKind::ExecutionStarted,
            ExecutionEventKind::ExecutionFinished,
        ])
        .map(|(e, k)| e.kind == k && e.execution_id.0 == summary.execution_id.0)
        .collect();
    assert_eq!(kinds, vec![true, true, true, true]);
}

#[test]
fn emit_appends_in_order() {
    let id = ExecutionId::new();
    let mut sink = CollectingEventSink::new();
    sink.emit(hsemulate::engine::event_now(&id, ExecutionEventKind::ValidationStarted));
    sink.emit(hsemulate::engine::execution_created(id.copy()));
    let events = sink.into_events();
    assert_eq!(events.len(), 2);
    assert!(events[0].kind == ExecutionEventKind::ValidationStarted);
    assert!(events[1].kind == ExecutionEventKind::ExecutionCreated);
}

#[test]
fn failures_carry_their_fixture() {
    let r = hsemulate::run::fixture_failures("f.json", &vec!["x".to_string(), "y".to_string()]);
    assert_eq!(r, vec!["[f.json] x".to_string(), "[f.json] y".to_string()]);
}
