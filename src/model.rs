use vstd::prelude::*;
use crate::json::Json;

verus! {

/// One field-level check against a response body.
pub struct Assertion {
    /// Dot-separated path of object keys into the response body.
    pub field: String,
    /// One of `equals`, `contains`, `exists`; any other token never holds.
    pub operator: String,
    pub expected: Json,
}

/// One HTTP request together with what its response should look like.
pub struct TestCase {
    pub id: String,
    pub name: String,
    pub description: String,
    pub method: String,
    pub endpoint: String,
    /// Header names and values, in no particular order.
    pub headers: Option<Vec<(String, String)>>,
    pub body: Option<Json>,
    pub expected_status: u16,
    pub assertions: Vec<Assertion>,
}

/// How one execution of a test case ended.
#[derive(Clone, Copy, Debug, PartialEq, Eq, Structural)]
pub enum TestStatus {
    Passed,
    Failed,
    Error,
}

/// The outcome of executing one test case once.
pub struct TestResult {
    pub test_id: String,
    pub test_name: String,
    pub status: TestStatus,
    pub duration_ms: u64,
    pub response_status: Option<u16>,
    pub response_body: Option<Json>,
    pub errors: Vec<String>,
    /// When the result was created, in milliseconds since the Unix epoch.
    pub timestamp: i64,
}

/// Settings of the service.
pub struct Config {
    pub host: String,
    pub port: u16,
    pub gemini_api_key: String,
    pub gemini_api_url: String,
    pub database_url: String,
}

/// A request to generate test cases for one endpoint.
pub struct GenerateTestsRequest {
    pub endpoint: Option<String>,
    pub method: Option<String>,
    pub openapi_spec: Option<String>,
    pub headers: Option<Vec<(String, String)>>,
    pub body: Option<String>,
}

/// A request to execute a batch of test cases.
pub struct ExecuteTestsRequest {
    pub tests: Vec<TestCase>,
}

/// Relies on `uuid::Uuid::new_v4` for a random identifier, shown through its
/// `Display` impl, which writes the hyphenated form of 36 characters.
#[verifier::external_body]
pub(crate) fn fresh_id() -> (r: String)
    ensures
        r@.len() == 36,
{
    uuid::Uuid::new_v4().to_string()
}

/// Relies on `chrono::Utc::now` and `DateTime::timestamp_millis`: the
/// current time in milliseconds since the Unix epoch.
#[verifier::external_body]
pub(crate) fn now_millis() -> i64 {
    chrono::Utc::now().timestamp_millis()
}

impl TestCase {
    /// A test case with a fresh identifier, no headers, no body and no assertions.
    pub fn new(
        name: String,
        description: String,
        method: String,
        endpoint: String,
        expected_status: u16,
    ) -> (r: TestCase)
        ensures
            r.id@.len() > 0,
            r.name == name,
            r.description == description,
            r.method == method,
            r.endpoint == endpoint,
            r.headers is None,
            r.body is None,
            r.expected_status == expected_status,
            r.assertions@.len() == 0,
    {
        TestCase {
            id: fresh_id(),
            name,
            description,
            method,
            endpoint,
            headers: None,
            body: None,
            expected_status,
            assertions: Vec::new(),
        }
    }
}

impl TestResult {
    /// A result that has passed so far: no response yet, no errors.
    pub fn new(test_id: String, test_name: String) -> (r: TestResult)
        ensures
            r.test_id == test_id,
            r.test_name == test_name,
            r.status == TestStatus::Passed,
            r.duration_ms == 0,
            r.response_status is None,
            r.response_body is None,
            r.errors@.len() == 0,
    {
        TestResult {
            test_id,
            test_name,
            status: TestStatus::Passed,
            duration_ms: 0,
            response_status: None,
            response_body: None,
            errors: Vec::new(),
            timestamp: now_millis(),
        }
    }
}

} // verus!
