use hsemulate::cicd::{handle, init, CicdCommand, CicdError, CicdInitKind};
use hsemulate::config::{validate_config, ActionType, Action, Config, ConfigProblem, FileFacts, FixtureFacts, Mode, OutputConfig, Runtime, SnapshotConfig};
use hsemulate::engine::{after_validation, begin_execution, CollectingEventSink, ExecutionId, ExecutionMode, ExecutionStatus, ValidationResult};
use hsemulate::json::{JsonNumber, JsonValue};
use hsemulate::marker::{extract_hash_marker, inject_hash_marker, replace_hash_marker, strip_hash_marker};
use hsemulate::promote::{build_updated_flow_payload, drift_decision, enforce_last_test, find_target_action_index, get_action_source_code, sha256_hex, validate_target_minimum, CicdSafety, CicdSelector, CicdTarget, DriftDecision, LastTestResult, PromoteError};
use hsemulate::render::to_json_string;

fn s(t: &str) -> JsonValue {
    JsonValue::Str(t.to_string())
}

fn obj(entries: Vec<(&str, JsonValue)>) -> JsonValue {
    JsonValue::Object(entries.into_iter().map(|(k, v)| (k.to_string(), v)).collect())
}

fn action(kind: &str, secrets: Vec<&str>, src: &str) -> JsonValue {
    obj(vec![
        ("type", s(kind)),
        ("secretNames", JsonValue::Array(secrets.into_iter().map(s).collect())),
        ("sourceCode", s(src)),
    ])
}

fn flow() -> JsonValue {
    obj(vec![
        ("revisionId", s("7")),
        ("type", s("CONTACT_FLOW")),
        ("name", s("wf")),
        ("isEnabled", JsonValue::Bool(true)),
        ("actions", JsonValue::Array(vec![action("DELAY", vec!["HS_A"], "x"), action("CUSTOM_CODE", vec!["HS_B", "HS_A"], "old")])),
        ("startActionId", s("1")),
        ("description", s("d")),
        ("junk", s("dropped")),
    ])
}

fn target(selector_type: &str, value: &str) -> CicdTarget {
    CicdTarget {
        workflow_id: "123".to_string(),
        selector: CicdSelector { selector_type: selector_type.to_string(), value: value.to_string(), require_unique: None },
        runtime: None,
        safety: None,
        deploy: None,
        portal: None,
    }
}

#[test]
fn selector_finds_the_one_custom_code_action() {
    let f = flow();
    let sel = CicdSelector { selector_type: "secret".to_string(), value: "HS_A".to_string(), require_unique: None };
    assert_eq!(find_target_action_index(&f, &sel).ok(), Some(1));
    let none = CicdSelector { selector_type: "secret".to_string(), value: "HS_Z".to_string(), require_unique: None };
    assert!(find_target_action_index(&f, &none) == Err(PromoteError::NoMatchingAction));
    assert_eq!(get_action_source_code(&f, 1).ok(), Some("old".to_string()));
    assert!(get_action_source_code(&f, 5) == Err(PromoteError::IndexOutOfBounds));
}

#[test]
fn payload_keeps_allowed_fields_and_new_source() {
    let f = flow();
    let p = build_updated_flow_payload(&f, 1, "new", Some("NODE20X")).ok().unwrap();
    let text = to_json_string(&p);
    assert!(text.contains("\"sourceCode\":\"new\",\"runtime\":\"NODE20X\""), "{}", text);
    assert!(text.contains("\"description\":\"d\""));
    assert!(!text.contains("junk"));
    assert!(text.starts_with("{\"revisionId\":\"7\""));
    let bare = obj(vec![("actions", JsonValue::Array(vec![action("CUSTOM_CODE", vec![], "s")]))]);
    assert!(matches!(build_updated_flow_payload(&bare, 0, "n", None), Err(PromoteError::RequiredFieldMissing { field: 0 })));
}

#[test]
fn target_needs_secret_selector() {
    assert!(validate_target_minimum(&target("secret", "HS_A"), false).is_ok());
    assert!(validate_target_minimum(&target("name", "HS_A"), true) == Err(PromoteError::UnsupportedSelector));
    assert!(validate_target_minimum(&target("secret", "  "), false) == Err(PromoteError::SelectorMissing));
}

#[test]
fn last_test_gates() {
    let mut t = target("secret", "HS_A");
    let last = LastTestResult { ok: true, snapshots_ok: false, max_duration_ms: Some(5000), max_memory_kb: Some(10), run_at: "now".to_string() };
    assert!(enforce_last_test(&last, &t) == Err(PromoteError::SnapshotsFailed));
    t.safety = Some(CicdSafety { require_clean_tests: None, require_snapshot_match: Some(false), max_duration_ms: Some(4000), max_memory_mb: None });
    assert!(enforce_last_test(&last, &t) == Err(PromoteError::DurationExceeded { actual_ms: 5000, max_ms: 4000 }));
}

#[test]
fn hash_markers_round_trip() {
    let src = "exports.main = () => {};\n";
    let hash = sha256_hex(src);
    assert_eq!(hash.len(), 64);
    let marked = inject_hash_marker(src, &hash);
    assert!(marked.starts_with("// hsemulator-sha: "));
    assert_eq!(extract_hash_marker(&marked), Some(hash.clone()));
    assert_eq!(strip_hash_marker(&marked), "exports.main = () => {};");
    assert_eq!(inject_hash_marker(&marked, &hash), marked);
    let py = inject_hash_marker("import json\n", "abc");
    assert_eq!(py, "# hsemulator-sha: abc\nimport json\n");
    assert_eq!(replace_hash_marker(&py, "# hsemulator-sha: def\n"), "# hsemulator-sha: def\nimport json");
    assert!(drift_decision(&py, "abc", false) == DriftDecision::UpToDate);
    assert!(drift_decision(&py, "xyz", false) == DriftDecision::Update);
    assert!(drift_decision("plain", "xyz", false) == DriftDecision::Refuse);
    assert!(drift_decision("plain", "xyz", true) == DriftDecision::Overwrite);
}

#[test]
fn sha256_of_empty_text() {
    assert_eq!(sha256_hex(""), "e3b0c44298fc1c149afbf4c8996fb92427ae41e4649b934ca495991b7852b855");
}

fn config(entry: &str, fixtures: Vec<&str>) -> Config {
    Config {
        action: Some(Action { action_type: ActionType::Js, entry: entry.to_string() }),
        fixtures: fixtures.into_iter().map(|f| f.to_string()).collect(),
        env: vec![],
        runtime: Runtime::default(),
        budgets: None,
        assertions: vec![],
        assertions_file: None,
        snapshots: SnapshotConfig { enabled: false, ignore: vec![] },
        output: OutputConfig::default(),
        watch: false,
        repeat: 1,
        mode: Mode::default(),
    }
}

fn facts(n: usize, ok: bool) -> FileFacts {
    FileFacts {
        entry_exists: true,
        entry_is_file: true,
        fixtures: (0..n).map(|_| FixtureFacts { exists: ok, readable: true, valid_json: true }).collect(),
    }
}

#[test]
fn config_rules_in_order() {
    let c = config("actions/a.js", vec!["f.json"]);
    assert!(c.validate(&facts(1, true)).is_ok());
    assert!(c.validate(&facts(1, false)) == Err(ConfigProblem::FixtureNotFound { index: 0 }));
    let py = config("actions/a.py", vec!["f.json"]);
    assert!(py.validate(&facts(1, true)) == Err(ConfigProblem::TypeMismatch));
    let none = config("actions/a.js", vec![]);
    assert!(none.validate(&facts(0, true)) == Err(ConfigProblem::NoFixtures));
    let mut zero = config("actions/a.js", vec!["f.json"]);
    zero.repeat = 0;
    assert!(zero.validate(&facts(1, true)) == Err(ConfigProblem::RepeatZero));
}

#[test]
fn validation_collects_codes() {
    let c = config("actions/a.rb", vec![]);
    let r = validate_config(&c, &facts(0, true));
    assert!(!r.is_valid());
    let codes: Vec<String> = r.errors.iter().map(|e| e.code.clone()).collect();
    assert_eq!(codes, vec!["ACTION_UNSUPPORTED_TYPE".to_string(), "FIXTURES_EMPTY".to_string()]);
    let good = validate_config(&config("a.js", vec!["f.json"]), &facts(1, true));
    assert!(good.is_valid());
}

#[test]
fn execution_flow_decisions() {
    let mut sink = CollectingEventSink::new();
    let id = ExecutionId::new();
    assert!(id.0.starts_with("exec_"));
    assert_eq!(id.0.len(), 41);
    begin_execution(&mut sink, &id);
    assert_eq!(sink.events().len(), 2);
    let bad = ValidationResult::error("ACTION_MISSING", "No action defined in config".to_string());
    let r = after_validation(&mut sink, &id, &bad, ExecutionMode::Execute);
    assert!(matches!(r, Some(ref s) if s.status == ExecutionStatus::ValidationFailed));
    assert_eq!(sink.events().len(), 3);
    let good = ValidationResult::ok();
    assert!(after_validation(&mut sink, &id, &good, ExecutionMode::Execute).is_none());
    let v = after_validation(&mut sink, &id, &good, ExecutionMode::Validate);
    assert!(matches!(v, Some(ref s) if s.status == ExecutionStatus::ValidatedOnly));
    let mut res = ValidationResult::ok();
    res.push_error("X", "m".to_string());
    assert!(!res.is_valid());
}

#[test]
fn cicd_init_rules() {
    assert!(matches!(init(None, "js", Some("dev".to_string())), Err(CicdError::BranchWithoutAction)));
    assert!(matches!(init(None, "ruby", None), Err(CicdError::UnsupportedRuntime { .. })));
    let files = init(Some(CicdInitKind::Action), "python", None).ok().unwrap();
    assert!(files.cicd_yaml.contains("runtime: PYTHON39"));
    let wf = files.github_workflow.unwrap();
    assert!(wf.contains("branches: [main]"));
    assert!(wf.contains("${{ secrets.HUBSPOT_TOKEN }}"));
    let only = handle(CicdCommand::Init { runtime: "js".to_string(), kind: None, branch: None }).ok().unwrap();
    assert!(only.cicd_yaml.contains("runtime: NODE20X"));
    assert!(only.github_workflow.is_none());
}

#[test]
fn numbers_render_in_messages() {
    let v = obj(vec![("n", JsonValue::Number(JsonNumber::PosInt(0)))]);
    assert_eq!(to_json_string(&v), "{\"n\":0}");
}
