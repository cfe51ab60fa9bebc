use apibeast::generator::{GenerationError, TestGeneratorService};
use apibeast::json::{Json, JsonKind};
use apibeast::materialize::parse_u16;
use apibeast::model::{Config, GenerateTestsRequest};
use apibeast::recovery::recover;

fn null() -> Json {
    Json { kind: JsonKind::Null, text: "null".to_string() }
}

fn num(t: &str) -> Json {
    Json { kind: JsonKind::Number, text: t.to_string() }
}

fn st(t: &str) -> Json {
    Json { kind: JsonKind::Str(t.to_string()), text: format!("\"{}\"", t) }
}

fn arr(items: Vec<Json>) -> Json {
    let text = format!("[{}]", items.iter().map(|j| j.text.clone()).collect::<Vec<_>>().join(","));
    Json { kind: JsonKind::Array(items), text }
}

fn obj(members: Vec<(&str, Json)>) -> Json {
    let text = format!(
        "{{{}}}",
        members.iter().map(|(k, v)| format!("\"{}\":{}", k, v.text)).collect::<Vec<_>>().join(",")
    );
    let members = members.into_iter().map(|(k, v)| (k.to_string(), v)).collect();
    Json { kind: JsonKind::Object(members), text }
}

fn service() -> TestGeneratorService {
    let config = Config {
        host: "127.0.0.1".to_string(),
        port: 8080,
        gemini_api_key: "SECRET-REDACTED".to_string(),
        gemini_api_url: "https://model.example/generate".to_string(),
        database_url: "sqlite:./apibeast.db".to_string(),
    };
    TestGeneratorService::new(&config)
}

fn request(endpoint: Option<&str>, method: Option<&str>) -> GenerateTestsRequest {
    GenerateTestsRequest {
        endpoint: endpoint.map(|s| s.to_string()),
        method: method.map(|s| s.to_string()),
        openapi_spec: None,
        headers: None,
        body: None,
    }
}

fn case(name: &str, extra: Vec<(&str, Json)>) -> Json {
    let mut members = vec![
        ("id", st("given-by-model")),
        ("name", st(name)),
        ("description", st("a test")),
        ("method", st("GET")),
        ("endpoint", st("http://x/health")),
        ("expected_status", num("200")),
        ("assertions", arr(vec![])),
    ];
    for (k, v) in extra {
        match members.iter().position(|(name, _)| *name == k) {
            Some(i) => members[i] = (k, v),
            None => members.push((k, v)),
        }
    }
    obj(members)
}

#[test]
fn recovery_strips_prose_and_fences() {
    let text = "Here are the tests:\n```json\n[{\"name\":\"t\"}]\n```\nEnjoy!";
    assert_eq!(service().extract_json_array(text), "[{\"name\":\"t\"}]");
}

#[test]
fn recovery_leaves_clean_array_alone() {
    let clean = "[{\"name\":\"t\"},{\"name\":\"u\"}]";
    let once = recover(clean);
    assert_eq!(once, clean);
    assert_eq!(recover(&once), once);
}

#[test]
fn recovery_handles_fences_and_whitespace() {
    assert_eq!(recover("  ```json\n[1, 2]\n```  "), "[1, 2]");
    assert_eq!(recover("```\n[]\n```"), "[]");
    assert_eq!(recover("```json```json[true]``````"), "[true]");
    assert_eq!(recover("\u{3000}\t[\"x\"]\n"), "[\"x\"]");
}

#[test]
fn recovery_without_bracket_pair_passes_text_through() {
    assert_eq!(recover("  no array here  "), "no array here");
    assert_eq!(recover("] then ["), "] then [");
    assert_eq!(recover("only [ open"), "only [ open");
    assert_eq!(recover(""), "");
}

#[test]
fn prompt_defaults_to_get_and_unknown() {
    let p = service().build_prompt(&request(None, None));
    assert!(p.starts_with("Generate 8 API test cases for GET unknown.\n\nCRITICAL RULES:\n"));
    assert!(p.contains("\"method\": \"GET\",\n    \"endpoint\": \"unknown\",\n"));
    assert!(p.ends_with("server error (500), and edge cases."));
}

#[test]
fn prompt_names_method_and_endpoint() {
    let p = service().build_prompt(&request(Some("https://api.example/users"), Some("POST")));
    assert!(p.starts_with("Generate 8 API test cases for POST https://api.example/users.\n"));
    assert!(p.contains("\"method\": \"POST\",\n    \"endpoint\": \"https://api.example/users\",\n"));
    assert!(p.contains("    \"headers\": {},\n    \"body\": null,\n"));
}

#[test]
fn upstream_url_carries_key() {
    assert_eq!(service().upstream_url(), "https://model.example/generate?key=SECRET-REDACTED");
}

#[test]
fn upstream_status_is_checked() {
    let svc = service();
    assert!(svc.check_upstream(200, String::new()).is_ok());
    assert!(svc.check_upstream(299, String::new()).is_ok());
    match svc.check_upstream(403, "forbidden".to_string()) {
        Err(GenerationError::Upstream { status, body }) => {
            assert_eq!(status, 403);
            assert_eq!(body, "forbidden");
        }
        _ => panic!("expected an upstream error"),
    }
    assert!(svc.check_upstream(301, String::new()).is_err());
}

#[test]
fn generated_text_is_extracted() {
    let part = obj(vec![("text", st("[]"))]);
    let content = obj(vec![("parts", arr(vec![part])), ("role", st("model"))]);
    let envelope = obj(vec![("candidates", arr(vec![obj(vec![("content", content)])]))]);
    match service().extract_generated_text(&envelope) {
        Ok(t) => assert_eq!(t, "[]"),
        Err(_) => panic!("expected text"),
    }
}

#[test]
fn missing_generated_text_is_an_extraction_error() {
    let envelope = obj(vec![("candidates", arr(vec![]))]);
    match service().extract_generated_text(&envelope) {
        Err(GenerationError::Extraction { envelope: e }) => assert_eq!(e, "{\"candidates\":[]}"),
        _ => panic!("expected an extraction error"),
    }
    let part = obj(vec![("text", num("5"))]);
    let content = obj(vec![("parts", arr(vec![part]))]);
    let envelope = obj(vec![("candidates", arr(vec![obj(vec![("content", content)])]))]);
    assert!(matches!(
        service().extract_generated_text(&envelope),
        Err(GenerationError::Extraction { .. })
    ));
}

#[test]
fn materialized_cases_get_fresh_ids() {
    let items = arr(vec![case("first", vec![]), case("second", vec![])]);
    let tests = match service().materialize(items) {
        Ok(t) => t,
        Err(_) => panic!("expected test cases"),
    };
    assert_eq!(tests.len(), 2);
    assert_eq!(tests[0].name, "first");
    assert_eq!(tests[1].name, "second");
    assert_eq!(tests[0].endpoint, "http://x/health");
    assert_eq!(tests[0].expected_status, 200);
    for t in &tests {
        assert_eq!(t.id.len(), 36);
        assert_ne!(t.id, "given-by-model");
    }
    assert_ne!(tests[0].id, tests[1].id);
}

#[test]
fn materialized_case_keeps_headers_body_and_assertions() {
    let a = obj(vec![("field", st("status")), ("operator", st("equals")), ("expected", st("ok"))]);
    let items = arr(vec![case(
        "full",
        vec![
            ("headers", obj(vec![("Accept", st("application/json"))])),
            ("body", obj(vec![("q", num("1"))])),
            ("assertions", arr(vec![a])),
        ],
    )]);
    let tests = match service().materialize(items) {
        Ok(t) => t,
        Err(_) => panic!("expected test cases"),
    };
    let t = &tests[0];
    assert_eq!(t.headers, Some(vec![("Accept".to_string(), "application/json".to_string())]));
    assert_eq!(t.body.as_ref().map(|b| b.text.clone()), Some("{\"q\":1}".to_string()));
    assert_eq!(t.assertions.len(), 1);
    assert_eq!(t.assertions[0].field, "status");
    assert_eq!(t.assertions[0].operator, "equals");
    assert_eq!(t.assertions[0].expected.text, "\"ok\"");
}

#[test]
fn null_body_and_headers_are_absent() {
    let items = arr(vec![case("n", vec![("headers", null()), ("body", null())])]);
    let tests = match service().materialize(items) {
        Ok(t) => t,
        Err(_) => panic!("expected test cases"),
    };
    assert!(tests[0].headers.is_none());
    assert!(tests[0].body.is_none());
}

#[test]
fn misshapen_items_are_a_parse_error() {
    let svc = service();
    assert!(matches!(svc.materialize(obj(vec![])), Err(GenerationError::Parse { .. })));
    let no_name = obj(vec![("description", st("d"))]);
    assert!(matches!(svc.materialize(arr(vec![no_name])), Err(GenerationError::Parse { .. })));
    let bad_status = case("s", vec![("expected_status", num("70000"))]);
    assert!(matches!(svc.materialize(arr(vec![bad_status])), Err(GenerationError::Parse { .. })));
    let bad_header = case("h", vec![("headers", obj(vec![("X", num("1"))]))]);
    assert!(matches!(svc.materialize(arr(vec![bad_header])), Err(GenerationError::Parse { .. })));
    let bad_assertion = case("a", vec![("assertions", arr(vec![obj(vec![("field", st("x"))])]))]);
    assert!(matches!(svc.materialize(arr(vec![bad_assertion])), Err(GenerationError::Parse { .. })));
    assert!(svc.materialize(arr(vec![])).map(|t| t.is_empty()).unwrap_or(false));
}

#[test]
fn status_numbers_parse_within_range() {
    assert_eq!(parse_u16("200"), Some(200));
    assert_eq!(parse_u16("0"), Some(0));
    assert_eq!(parse_u16("65535"), Some(65535));
    assert_eq!(parse_u16("65536"), None);
    assert_eq!(parse_u16("2.5"), None);
    assert_eq!(parse_u16("-1"), None);
    assert_eq!(parse_u16(""), None);
}
