use hsemulate::budget::{check_budgets, BudgetError, Budgets, BudgetsResolved};
use hsemulate::checks::{assert_json, assert_json_all, check_assertion, Assertion, AssertionFailure};
use hsemulate::json::{FloatNum, JsonNumber, JsonValue};
use hsemulate::path::get_by_path;

fn num(n: u64) -> JsonValue {
    JsonValue::Number(JsonNumber::PosInt(n))
}

fn s(t: &str) -> JsonValue {
    JsonValue::Str(t.to_string())
}

fn obj(entries: Vec<(&str, JsonValue)>) -> JsonValue {
    JsonValue::Object(entries.into_iter().map(|(k, v)| (k.to_string(), v)).collect())
}

fn doc() -> JsonValue {
    obj(vec![
        (
            "items",
            JsonValue::Array(vec![
                obj(vec![("id", num(7))]),
                obj(vec![("id", num(8))]),
            ]),
        ),
        ("callback", obj(vec![("outputFields", obj(vec![("success", JsonValue::Bool(true))]))])),
        ("count", num(5)),
        ("name", s("hello world")),
        ("missing", JsonValue::Null),
    ])
}

fn id_of(v: Option<&JsonValue>) -> Option<u64> {
    match v {
        Some(JsonValue::Number(JsonNumber::PosInt(n))) => Some(*n),
        _ => None,
    }
}

#[test]
fn bracket_and_dot_indexing_agree() {
    let d = doc();
    assert_eq!(id_of(get_by_path(&d, "items[0].id")), Some(7));
    assert_eq!(id_of(get_by_path(&d, "items.0.id")), Some(7));
    assert_eq!(id_of(get_by_path(&d, "items[1].id")), Some(8));
    assert_eq!(id_of(get_by_path(&d, "items.1.id")), Some(8));
    assert!(get_by_path(&d, "items[2].id").is_none());
    assert!(get_by_path(&d, "items.2.id").is_none());
}

#[test]
fn empty_segments_are_skipped() {
    let d = doc();
    assert_eq!(id_of(get_by_path(&d, ".items..0.id.")), Some(7));
    assert_eq!(id_of(get_by_path(&d, "count")), Some(5));
    assert!(get_by_path(&d, "nope.id").is_none());
}

#[test]
fn eq_assertion_on_nested_bool_passes() {
    let actual = obj(vec![("callback", obj(vec![("outputFields", obj(vec![("success", JsonValue::Bool(true))]))]))]);
    let specs = vec![("callback.outputFields.success".to_string(), Assertion::Eq(JsonValue::Bool(true)))];
    assert!(assert_json(&actual, &specs).is_ok());
}

#[test]
fn eq_assertion_is_type_sensitive() {
    let d = doc();
    let r = check_assertion(&d, "count", &Assertion::Eq(s("5")));
    match r {
        Err(f) => assert_eq!(f.message(), "Assertion failed at 'count': expected \"5\", got 5"),
        Ok(()) => panic!("1 and \"1\" must differ"),
    }
}

#[test]
fn gt_assertion_reports_values() {
    let d = doc();
    let r = check_assertion(&d, "count", &Assertion::Gt(num(10)));
    match r {
        Err(f) => {
            let m = f.message();
            assert!(m.contains("5 <= 10"), "{}", m);
        }
        Ok(()) => panic!("5 is not greater than 10"),
    }
    let eleven = obj(vec![("count", num(11))]);
    assert!(check_assertion(&eleven, "count", &Assertion::Gt(num(10))).is_ok());
    let ten = obj(vec![("count", num(10))]);
    assert!(check_assertion(&ten, "count", &Assertion::Gt(num(10))).is_err());
}

#[test]
fn lt_assertion_is_strict() {
    let d = doc();
    assert!(check_assertion(&d, "count", &Assertion::Lt(num(6))).is_ok());
    match check_assertion(&d, "count", &Assertion::Lt(num(5))) {
        Err(f) => assert_eq!(f.message(), "Assertion failed at 'count': 5 >= 5"),
        Ok(()) => panic!("5 is not below 5"),
    }
}

#[test]
fn gt_compares_integers_with_floats() {
    // 2.5 = 5 * 2^-1
    let half = JsonValue::Number(JsonNumber::Float(FloatNum { negative: false, mantissa: 5, exponent: -1, text: "2.5".to_string() }));
    let three = obj(vec![("x", num(3))]);
    assert!(check_assertion(&three, "x", &Assertion::Gt(half)).is_ok());
    let neg = JsonValue::Number(JsonNumber::NegInt(-4));
    assert!(check_assertion(&three, "x", &Assertion::Gt(neg)).is_ok());
}

#[test]
fn non_numeric_value_is_its_own_error() {
    let d = doc();
    match check_assertion(&d, "name", &Assertion::Gt(num(1))) {
        Err(AssertionFailure::NotNumeric { .. }) => {}
        _ => panic!("expected NotNumeric"),
    }
}

#[test]
fn missing_path_is_reported() {
    let d = doc();
    match check_assertion(&d, "a.b", &Assertion::Exists(false)) {
        Err(f) => assert_eq!(f.message(), "Assertion path not found: a.b"),
        Ok(()) => panic!("path does not exist"),
    }
}

#[test]
fn exists_false_never_fails_and_exists_true_rejects_null() {
    let d = doc();
    assert!(check_assertion(&d, "missing", &Assertion::Exists(false)).is_ok());
    assert!(check_assertion(&d, "missing", &Assertion::Exists(true)).is_err());
    assert!(check_assertion(&d, "count", &Assertion::Exists(true)).is_ok());
}

#[test]
fn regex_uses_search_semantics() {
    let d = doc();
    assert!(check_assertion(&d, "name", &Assertion::Regex("wor".to_string())).is_ok());
    match check_assertion(&d, "name", &Assertion::Regex("^world".to_string())) {
        Err(f) => assert_eq!(f.message(), "Assertion failed at 'name': 'hello world' does not match /^world/"),
        Ok(()) => panic!("anchored pattern must not match"),
    }
    assert!(matches!(check_assertion(&d, "name", &Assertion::Regex("(".to_string())), Err(AssertionFailure::InvalidRegex { .. })));
    assert!(matches!(check_assertion(&d, "count", &Assertion::Regex("5".to_string())), Err(AssertionFailure::NotString { .. })));
}

#[test]
fn collect_all_mode_returns_every_failure() {
    let d = doc();
    let specs = vec![
        ("count".to_string(), Assertion::Gt(num(10))),
        ("name".to_string(), Assertion::Eq(s("hello world"))),
        ("nope".to_string(), Assertion::Exists(true)),
    ];
    let all = assert_json_all(&d, &specs);
    assert_eq!(all.len(), 2);
    assert!(matches!(all[0], AssertionFailure::NotGreater { .. }));
    assert!(matches!(all[1], AssertionFailure::PathNotFound { .. }));
    assert!(matches!(assert_json(&d, &specs), Err(AssertionFailure::NotGreater { .. })));
}

#[test]
fn duration_budget_boundary() {
    let b = BudgetsResolved { duration_ms: Some(100), memory_kb: None };
    match check_budgets(150, None, &b) {
        Err(e) => {
            let m = e.message();
            assert!(m.contains("150ms") && m.contains("100ms"), "{}", m);
        }
        Ok(()) => panic!("150ms is over budget"),
    }
    assert!(check_budgets(100, None, &b).is_ok());
}

#[test]
fn memory_budget_without_measurement_is_distinct() {
    let b = Budgets { duration_ms: None, memory_mb: Some(64) }.resolved();
    assert_eq!(b.memory_kb, Some(64 * 1024));
    match check_budgets(10, None, &b) {
        Err(e) => {
            assert!(e.is_measurement_unavailable());
            assert_eq!(e.message(), "Memory budget set but memory measurement unavailable");
        }
        Ok(()) => panic!("a memory budget needs a measurement"),
    }
    match check_budgets(10, Some(70 * 1024), &b) {
        Err(BudgetError::MemoryExceeded { actual_kb, max_kb }) => {
            assert_eq!(actual_kb, 70 * 1024);
            assert_eq!(max_kb, 64 * 1024);
        }
        _ => panic!("70MB is over 64MB"),
    }
    assert!(check_budgets(10, Some(64 * 1024), &b).is_ok());
}

#[test]
fn cli_overrides_replace_budgets() {
    let b = hsemulate::budget::resolve_budgets(Some(Budgets { duration_ms: Some(5), memory_mb: Some(6) }), Some(50), None);
    assert_eq!(b.duration_ms, Some(50));
    assert_eq!(b.memory_mb, Some(6));
}

#[test]
fn large_integers_compare_as_doubles() {
    // 2^53 + 1 and 2^53 are the same double, so neither is greater.
    let big = obj(vec![("x", num(9_007_199_254_740_993))]);
    assert!(check_assertion(&big, "x", &Assertion::Gt(num(9_007_199_254_740_992))).is_err());
    let bigger = obj(vec![("x", num(9_007_199_254_740_994))]);
    assert!(check_assertion(&bigger, "x", &Assertion::Gt(num(9_007_199_254_740_992))).is_ok());
    let max = obj(vec![("x", num(u64::MAX))]);
    assert!(check_assertion(&max, "x", &Assertion::Lt(num(u64::MAX - 1))).is_err());
}
