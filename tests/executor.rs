use apibeast::executor::{status_mismatch, HttpMethod, Outcome, TestExecutorService};
use apibeast::json::{Json, JsonKind};
use apibeast::model::{Assertion, TestCase, TestResult, TestStatus};

fn null() -> Json {
    Json { kind: JsonKind::Null, text: "null".to_string() }
}

fn num(t: &str) -> Json {
    Json { kind: JsonKind::Number, text: t.to_string() }
}

fn st(t: &str) -> Json {
    Json { kind: JsonKind::Str(t.to_string()), text: format!("\"{}\"", t) }
}

fn arr(items: Vec<Json>) -> Json {
    let text = format!("[{}]", items.iter().map(|j| j.text.clone()).collect::<Vec<_>>().join(","));
    Json { kind: JsonKind::Array(items), text }
}

fn obj(members: Vec<(&str, Json)>) -> Json {
    let text = format!(
        "{{{}}}",
        members.iter().map(|(k, v)| format!("\"{}\":{}", k, v.text)).collect::<Vec<_>>().join(",")
    );
    let members = members.into_iter().map(|(k, v)| (k.to_string(), v)).collect();
    Json { kind: JsonKind::Object(members), text }
}

fn assertion(field: &str, operator: &str, expected: Json) -> Assertion {
    Assertion { field: field.to_string(), operator: operator.to_string(), expected }
}

fn health_case() -> TestCase {
    let mut t = TestCase::new(
        "health".to_string(),
        "service is healthy".to_string(),
        "GET".to_string(),
        "http://x/health".to_string(),
        200,
    );
    t.assertions.push(assertion("status", "equals", st("ok")));
    t
}

fn run(test: &TestCase, outcome: Outcome) -> TestResult {
    TestExecutorService::new().conclude(test, outcome, 12)
}

#[test]
fn health_check_with_matching_body_passes() {
    let test = health_case();
    let r = run(&test, Outcome::Responded { status: 200, body: Some(obj(vec![("status", st("ok"))])) });
    assert_eq!(r.status, TestStatus::Passed);
    assert!(r.errors.is_empty());
    assert_eq!(r.response_status, Some(200));
    assert!(r.response_body.is_some());
    assert_eq!(r.test_id, test.id);
    assert_eq!(r.test_name, "health");
    assert_eq!(r.duration_ms, 12);
}

#[test]
fn health_check_with_server_error_fails() {
    let test = health_case();
    let r = run(&test, Outcome::Responded { status: 500, body: Some(obj(vec![("status", st("ok"))])) });
    assert_eq!(r.status, TestStatus::Failed);
    assert_eq!(r.errors, vec!["Expected status 200, got 500".to_string()]);
    assert_eq!(r.response_status, Some(500));
}

#[test]
fn health_check_with_connection_refused_is_an_error() {
    let test = health_case();
    let r = run(&test, Outcome::TransportFailed("connection refused".to_string()));
    assert_eq!(r.status, TestStatus::Error);
    assert_eq!(r.response_status, None);
    assert!(r.response_body.is_none());
    assert_eq!(r.errors, vec!["Request failed: connection refused".to_string()]);
}

#[test]
fn unparsable_body_skips_assertions() {
    let test = health_case();
    let r = run(&test, Outcome::Responded { status: 200, body: None });
    assert_eq!(r.status, TestStatus::Passed);
    assert!(r.errors.is_empty());
    assert!(r.response_body.is_none());
    let r = run(&test, Outcome::Responded { status: 404, body: None });
    assert_eq!(r.status, TestStatus::Failed);
    assert_eq!(r.errors, vec!["Expected status 200, got 404".to_string()]);
}

#[test]
fn expected_status_without_assertions_passes() {
    let test = TestCase::new("t".to_string(), "d".to_string(), "POST".to_string(), "http://x".to_string(), 201);
    let r = run(&test, Outcome::Responded { status: 201, body: Some(arr(vec![num("1")])) });
    assert_eq!(r.status, TestStatus::Passed);
    assert!(r.errors.is_empty());
}

#[test]
fn each_result_has_one_status() {
    let test = health_case();
    let outcomes = vec![
        Outcome::Responded { status: 200, body: Some(obj(vec![("status", st("ok"))])) },
        Outcome::Responded { status: 200, body: Some(obj(vec![("status", st("down"))])) },
        Outcome::TransportFailed("timeout".to_string()),
    ];
    let expected = [TestStatus::Passed, TestStatus::Failed, TestStatus::Error];
    for (o, e) in outcomes.into_iter().zip(expected.iter()) {
        let r = run(&test, o);
        assert_eq!(r.status, *e);
    }
}

#[test]
fn failed_assertion_is_reported_after_status() {
    let mut test = health_case();
    test.assertions.push(assertion("version", "exists", null()));
    let r = run(&test, Outcome::Responded { status: 503, body: Some(obj(vec![("status", st("down"))])) });
    assert_eq!(r.status, TestStatus::Failed);
    assert_eq!(
        r.errors,
        vec![
            "Expected status 200, got 503".to_string(),
            "Assertion failed: status equals \"ok\"".to_string(),
            "Assertion failed: version exists null".to_string(),
        ]
    );
}

#[test]
fn contains_against_number_fails() {
    let svc = TestExecutorService::new();
    let body = obj(vec![("count", num("42"))]);
    assert!(!svc.validate_assertion(&body, &assertion("count", "contains", st("4"))));
}

#[test]
fn exists_on_null_field_passes() {
    let svc = TestExecutorService::new();
    let body = obj(vec![("deleted_at", null())]);
    assert!(svc.validate_assertion(&body, &assertion("deleted_at", "exists", null())));
    assert!(!svc.validate_assertion(&body, &assertion("missing", "exists", null())));
}

#[test]
fn contains_finds_substring() {
    let svc = TestExecutorService::new();
    let body = obj(vec![("msg", st("all systems go"))]);
    assert!(svc.validate_assertion(&body, &assertion("msg", "contains", st("systems"))));
    assert!(svc.validate_assertion(&body, &assertion("msg", "contains", st(""))));
    assert!(!svc.validate_assertion(&body, &assertion("msg", "contains", st("System"))));
}

#[test]
fn equals_compares_deeply() {
    let svc = TestExecutorService::new();
    let body = obj(vec![("data", obj(vec![("ids", arr(vec![num("1"), num("2")]))]))]);
    assert!(svc.validate_assertion(&body, &assertion("data.ids", "equals", arr(vec![num("1"), num("2")]))));
    assert!(!svc.validate_assertion(&body, &assertion("data.ids", "equals", arr(vec![num("2"), num("1")]))));
    assert!(!svc.validate_assertion(&body, &assertion("data.ids", "equals", st("[1,2]"))));
    assert!(!svc.validate_assertion(&body, &assertion("data.nope", "equals", null())));
}

#[test]
fn unknown_operator_fails() {
    let svc = TestExecutorService::new();
    let body = obj(vec![("a", num("1"))]);
    assert!(!svc.validate_assertion(&body, &assertion("a", "greater_than", num("0"))));
}

#[test]
fn nested_fields_resolve_through_objects_only() {
    let svc = TestExecutorService::new();
    let body = obj(vec![("a", obj(vec![("b", obj(vec![("c", st("deep"))]))])), ("list", arr(vec![st("x")]))]);
    assert_eq!(svc.get_nested_field(&body, "a.b.c").map(|j| j.text.clone()), Some("\"deep\"".to_string()));
    assert!(svc.get_nested_field(&body, "a.b").is_some());
    assert!(svc.get_nested_field(&body, "a.x.c").is_none());
    assert!(svc.get_nested_field(&body, "list.0").is_none());
    assert!(svc.get_nested_field(&body, "").is_none());
    assert!(svc.get_nested_field(&body, "a.").is_none());
}

#[test]
fn methods_map_case_insensitively() {
    let svc = TestExecutorService::new();
    let mut t = health_case();
    for (m, e) in [
        ("get", HttpMethod::Get),
        ("post", HttpMethod::Post),
        ("Put", HttpMethod::Put),
        ("delete", HttpMethod::Delete),
        ("PaTcH", HttpMethod::Patch),
        ("OPTIONS", HttpMethod::Get),
        ("", HttpMethod::Get),
    ] {
        t.method = m.to_string();
        assert_eq!(svc.request_method(&t), e);
    }
}

#[test]
fn status_message_writes_both_codes() {
    assert_eq!(status_mismatch(404, 7), "Expected status 404, got 7");
    assert_eq!(status_mismatch(0, 65535), "Expected status 0, got 65535");
}

#[test]
fn new_test_cases_get_distinct_ids() {
    let a = TestCase::new("a".to_string(), "".to_string(), "GET".to_string(), "http://x".to_string(), 200);
    let b = TestCase::new("a".to_string(), "".to_string(), "GET".to_string(), "http://x".to_string(), 200);
    assert_eq!(a.id.len(), 36);
    assert_ne!(a.id, b.id);
    assert!(a.headers.is_none() && a.body.is_none() && a.assertions.is_empty());
}

#[test]
fn new_result_starts_passed() {
    let r = TestResult::new("id".to_string(), "name".to_string());
    assert_eq!(r.status, TestStatus::Passed);
    assert_eq!(r.duration_ms, 0);
    assert!(r.errors.is_empty() && r.response_status.is_none());
    assert!(r.timestamp > 0);
}

#[test]
fn batch_results_follow_input_order() {
    let first = health_case();
    let mut second = health_case();
    second.name = "second".to_string();
    let tests = vec![first, second];
    let outcomes = vec![
        (Outcome::TransportFailed("dns".to_string()), 3),
        (Outcome::Responded { status: 200, body: Some(obj(vec![("status", st("ok"))])) }, 9),
    ];
    let results = TestExecutorService::new().conclude_all(&tests, outcomes);
    assert_eq!(results.len(), 2);
    assert_eq!(results[0].test_name, "health");
    assert_eq!(results[0].status, TestStatus::Error);
    assert_eq!(results[0].duration_ms, 3);
    assert_eq!(results[1].test_name, "second");
    assert_eq!(results[1].status, TestStatus::Passed);
    assert_eq!(results[1].duration_ms, 9);
    assert!(TestExecutorService::new().conclude_all(&vec![], vec![]).is_empty());
}
