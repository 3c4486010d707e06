use hsemulate::aggregate::InvocationMetrics;
use hsemulate::config::{Mode, OutputMode};
use hsemulate::json::{JsonNumber, JsonValue};
use hsemulate::output::{build_output_envelope, format_simple_output, paint, select_simple_output};
use hsemulate::render::to_json_string;
use hsemulate::schedule::{after_run, file_payload, next_action, output_routing, plan_for, start, LoopAction};
use hsemulate::snapshot::{compare_snapshot, normalize};

fn num(n: u64) -> JsonValue {
    JsonValue::Number(JsonNumber::PosInt(n))
}

fn obj(entries: Vec<(&str, JsonValue)>) -> JsonValue {
    JsonValue::Object(entries.into_iter().map(|(k, v)| (k.to_string(), v)).collect())
}

#[test]
fn compare_of_two_normalizations_is_equal() {
    let x = obj(vec![("b", obj(vec![("d", num(1)), ("c", num(2))])), ("a", JsonValue::Array(vec![num(3)]))]);
    assert!(compare_snapshot(&normalize(&x), &normalize(&x)).is_ok());
    assert!(compare_snapshot(&x, &normalize(&x)).is_ok());
}

#[test]
fn schedule_runs_every_fixture_and_repeat() {
    let plan = plan_for(2, 2, &Mode::Normal);
    let mut state = start();
    let mut seen = Vec::new();
    loop {
        match next_action(&plan, &state) {
            LoopAction::Finish => break,
            LoopAction::Invoke { fixture, run } => {
                seen.push((fixture, run));
                state = after_run(&plan, &state, fixture != 1);
            }
        }
    }
    assert_eq!(seen, vec![(0, 0), (0, 1), (1, 0), (1, 1)]);
    assert!(state.any_failed);
}

#[test]
fn ci_mode_stops_at_first_failure() {
    let plan = plan_for(3, 0, &Mode::Ci);
    assert_eq!(plan.runs, 1);
    let s1 = after_run(&plan, &start(), false);
    assert!(matches!(next_action(&plan, &s1), LoopAction::Finish));
    assert_eq!(output_routing(&OutputMode::Simple, &Mode::Ci), (false, false));
    assert_eq!(output_routing(&OutputMode::File, &Mode::Normal), (false, true));
    assert_eq!(output_routing(&OutputMode::Pretty, &Mode::Normal), (true, false));
}

#[test]
fn file_payload_is_single_or_list() {
    assert_eq!(to_json_string(&file_payload(vec![num(1)], 1)), "1");
    assert_eq!(to_json_string(&file_payload(vec![num(1), num(2)], 2)), "[1,2]");
    assert_eq!(to_json_string(&file_payload(vec![], 1)), "null");
}

#[test]
fn envelope_carries_meta_and_failures() {
    let out = obj(vec![("ok", JsonValue::Bool(true))]);
    let m = InvocationMetrics { duration_ms: 12, max_rss_kb: None };
    let e = build_output_envelope("a.js", "f.json", 1, 3, &out, &m, &vec!["boom".to_string()]);
    assert_eq!(
        to_json_string(&e),
        "{\"ok\":false,\"meta\":{\"action\":\"a.js\",\"fixture\":\"f.json\",\"run\":2,\"runs\":3,\"duration_ms\":12,\"max_rss_kb\":null},\"output\":{\"ok\":true},\"failures\":[\"boom\"]}"
    );
}

#[test]
fn simple_output_prefers_error_then_callback() {
    let failed = obj(vec![("ok", JsonValue::Bool(false)), ("error", obj(vec![("message", JsonValue::Str("x".to_string()))])), ("callback", num(1))]);
    assert_eq!(to_json_string(select_simple_output(&failed)), "{\"message\":\"x\"}");
    let good = obj(vec![("ok", JsonValue::Bool(true)), ("callback", JsonValue::Null), ("result", num(4))]);
    assert_eq!(to_json_string(select_simple_output(&good)), "4");
}

#[test]
fn simple_report_layout() {
    let out = obj(vec![("ok", JsonValue::Bool(true)), ("callback", obj(vec![("a", num(1))]))]);
    let m = InvocationMetrics { duration_ms: 7, max_rss_kb: Some(100) };
    let text = format_simple_output("a.js", "f.json", 0, 1, &out, &m, &vec![], false);
    assert_eq!(text, "OK a.js\nfixture: f.json\ntime: 7ms\nmemory: 100kb\noutput:\n{\n  \"a\": 1\n}");
    assert_eq!(paint("OK", "32", true), "\u{1b}[32mOK\u{1b}[0m");
}
