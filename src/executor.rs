use vstd::prelude::*;
use crate::json::{deep_eq, Json, JsonKind};
use crate::model::{Assertion, TestCase, TestResult, TestStatus};
use crate::path::{get_nested_field, resolve_field, texts};
use crate::text::{contains_text, has_substring, push_char, push_text, same_text};

verus! {

/// The HTTP methods a test case can be sent with.
#[derive(Clone, Copy, Debug, PartialEq, Eq, Structural)]
pub enum HttpMethod {
    Get,
    Post,
    Put,
    Delete,
    Patch,
}

/// What came back from sending one test case's request.
pub enum Outcome {
    /// No response was obtained; the cause as text.
    TransportFailed(String),
    /// A response arrived with this status; `body` is the parsed body, or
    /// nothing when the body was not JSON.
    Responded { status: u16, body: Option<Json> },
}

/// The upper-case form of `s` as `str::to_uppercase` computes it.
pub uninterp spec fn upper_of(s: Seq<char>) -> Seq<char>;

/// Relies on `str::to_uppercase`: the result depends on the characters alone.
#[verifier::external_body]
fn to_upper(s: &str) -> (r: String)
    ensures
        r@ == upper_of(s@),
{
    s.to_uppercase()
}

/// The method named by an upper-case token; any other token means GET.
pub open spec fn method_for(upper: Seq<char>) -> HttpMethod {
    if upper == "POST"@ {
        HttpMethod::Post
    } else if upper == "PUT"@ {
        HttpMethod::Put
    } else if upper == "DELETE"@ {
        HttpMethod::Delete
    } else if upper == "PATCH"@ {
        HttpMethod::Patch
    } else {
        HttpMethod::Get
    }
}

/// Picks the method for an already upper-cased token.
pub fn method_from_upper(upper: &str) -> (r: HttpMethod)
    ensures
        r == method_for(upper@),
{
    if same_text(upper, "POST") {
        HttpMethod::Post
    } else if same_text(upper, "PUT") {
        HttpMethod::Put
    } else if same_text(upper, "DELETE") {
        HttpMethod::Delete
    } else if same_text(upper, "PATCH") {
        HttpMethod::Patch
    } else {
        HttpMethod::Get
    }
}

/// Picks the method for a token in any case.
pub fn request_method(method: &str) -> (r: HttpMethod)
    ensures
        r == method_for(upper_of(method@)),
{
    let upper = to_upper(method);
    method_from_upper(upper.as_str())
}

/// Whether `a` holds of the response body `body`.
pub open spec fn assertion_holds(body: Json, a: Assertion) -> bool {
    let found = resolve_field(body, a.field@);
    if a.operator@ == "equals"@ {
        found is Some && deep_eq(found->0, a.expected)
    } else if a.operator@ == "contains"@ {
        found is Some && found->0.kind is Str && a.expected.kind is Str && has_substring(
            found->0.kind->Str_0@,
            a.expected.kind->Str_0@,
        )
    } else if a.operator@ == "exists"@ {
        found is Some
    } else {
        false
    }
}

/// The digit character for `d`, which is below ten.
pub open spec fn digit_char(d: nat) -> char {
    if d == 0 { '0' }
    else if d == 1 { '1' }
    else if d == 2 { '2' }
    else if d == 3 { '3' }
    else if d == 4 { '4' }
    else if d == 5 { '5' }
    else if d == 6 { '6' }
    else if d == 7 { '7' }
    else if d == 8 { '8' }
    else { '9' }
}

/// The decimal digits of `n`, most significant first, with no leading zeros.
pub open spec fn decimal(n: nat) -> Seq<char>
    decreases n,
{
    if n < 10 {
        seq![digit_char(n)]
    } else {
        decimal(n / 10).push(digit_char(n % 10))
    }
}

/// The error recorded when the status differs from the expected one.
pub open spec fn status_message(expected: u16, actual: u16) -> Seq<char> {
    "Expected status "@ + decimal(expected as nat) + ", got "@ + decimal(actual as nat)
}

/// The error recorded when an assertion does not hold.
pub open spec fn assertion_message(a: Assertion) -> Seq<char> {
    "Assertion failed: "@ + a.field@ + " "@ + a.operator@ + " "@ + a.expected.text@
}

/// The error recorded when no response was obtained.
pub open spec fn transport_message(cause: Seq<char>) -> Seq<char> {
    "Request failed: "@ + cause
}

/// The messages for the assertions of `asserts` that do not hold, in order.
pub open spec fn assertion_errors(body: Json, asserts: Seq<Assertion>) -> Seq<Seq<char>>
    decreases asserts.len(),
{
    if asserts.len() == 0 {
        Seq::empty()
    } else {
        let prev = assertion_errors(body, asserts.drop_last());
        if assertion_holds(body, asserts.last()) {
            prev
        } else {
            prev.push(assertion_message(asserts.last()))
        }
    }
}

/// Whether some assertion of `test` does not hold of `body`.
pub open spec fn some_assertion_fails(test: TestCase, body: Json) -> bool {
    exists|i: int| 0 <= i < test.assertions@.len() && !#[trigger] assertion_holds(body, test.assertions@[i])
}

/// The status a test case ends with, given what its request brought back.
pub open spec fn outcome_status(test: TestCase, outcome: Outcome) -> TestStatus {
    match outcome {
        Outcome::TransportFailed(_) => TestStatus::Error,
        Outcome::Responded { status, body } => {
            if status != test.expected_status || (body is Some && some_assertion_fails(test, body->0)) {
                TestStatus::Failed
            } else {
                TestStatus::Passed
            }
        },
    }
}

/// The errors a test case ends with, given what its request brought back.
pub open spec fn outcome_errors(test: TestCase, outcome: Outcome) -> Seq<Seq<char>> {
    match outcome {
        Outcome::TransportFailed(cause) => seq![transport_message(cause@)],
        Outcome::Responded { status, body } => {
            let head = if status != test.expected_status {
                seq![status_message(test.expected_status, status)]
            } else {
                Seq::empty()
            };
            match body {
                Some(b) => head + assertion_errors(b, test.assertions@),
                None => head,
            }
        },
    }
}

/// `r` is the result of `test` whose request brought back `outcome` after
/// `duration_ms` milliseconds.
pub open spec fn concluded(test: TestCase, outcome: Outcome, duration_ms: u64, r: TestResult) -> bool {
    &&& r.test_id == test.id
    &&& r.test_name == test.name
    &&& r.status == outcome_status(test, outcome)
    &&& texts(r.errors@) == outcome_errors(test, outcome)
    &&& r.duration_ms == duration_ms
    &&& r.response_status == match outcome {
        Outcome::Responded { status, .. } => Some(status),
        Outcome::TransportFailed(_) => None::<u16>,
    }
    &&& r.response_body == match outcome {
        Outcome::Responded { body, .. } => body,
        Outcome::TransportFailed(_) => None::<Json>,
    }
}

/// Appends the digits of `n` to `s`.
fn push_decimal(s: &mut String, n: u16)
    ensures
        final(s)@ == old(s)@ + decimal(n as nat),
    decreases n,
{
    if n >= 10 {
        push_decimal(s, n / 10);
    }
    let d = n % 10;
    let c = if d == 0 { '0' }
        else if d == 1 { '1' }
        else if d == 2 { '2' }
        else if d == 3 { '3' }
        else if d == 4 { '4' }
        else if d == 5 { '5' }
        else if d == 6 { '6' }
        else if d == 7 { '7' }
        else if d == 8 { '8' }
        else { '9' };
    push_char(s, c);
    assert(final(s)@ =~= old(s)@ + decimal(n as nat));
}

/// The message for a status that differs from the expected one.
pub fn status_mismatch(expected: u16, actual: u16) -> (r: String)
    ensures
        r@ == status_message(expected, actual),
{
    let mut s = String::new();
    push_text(&mut s, "Expected status ");
    push_decimal(&mut s, expected);
    push_text(&mut s, ", got ");
    push_decimal(&mut s, actual);
    assert(s@ =~= status_message(expected, actual));
    s
}

fn failed_assertion(a: &Assertion) -> (r: String)
    ensures
        r@ == assertion_message(*a),
{
    let mut s = String::new();
    push_text(&mut s, "Assertion failed: ");
    push_text(&mut s, a.field.as_str());
    push_text(&mut s, " ");
    push_text(&mut s, a.operator.as_str());
    push_text(&mut s, " ");
    push_text(&mut s, a.expected.text.as_str());
    assert(s@ =~= assertion_message(*a));
    s
}

/// Runs test cases and judges what came back; the requests themselves are
/// sent by the caller.
pub struct TestExecutorService;

impl TestExecutorService {
    pub fn new() -> (r: TestExecutorService) {
        TestExecutorService
    }

    /// Whether `assertion` holds of the response body `body`.
    pub fn validate_assertion(&self, body: &Json, assertion: &Assertion) -> (r: bool)
        ensures
            r == assertion_holds(*body, *assertion),
    {
        let found = get_nested_field(body, assertion.field.as_str());
        let op = assertion.operator.as_str();
        if same_text(op, "equals") {
            match found {
                Some(v) => v.equals(&assertion.expected),
                None => false,
            }
        } else if same_text(op, "contains") {
            match found {
                Some(v) => match &v.kind {
                    JsonKind::Str(s) => match &assertion.expected.kind {
                        JsonKind::Str(e) => contains_text(s.as_str(), e.as_str()),
                        _ => false,
                    },
                    _ => false,
                },
                None => false,
            }
        } else if same_text(op, "exists") {
            found.is_some()
        } else {
            false
        }
    }

    /// Follows the dotted path `path` from `value` through object members.
    pub fn get_nested_field<'a>(&self, value: &'a Json, path: &str) -> (r: Option<&'a Json>)
        ensures
            match r {
                Some(v) => resolve_field(*value, path@) == Some(*v),
                None => resolve_field(*value, path@) is None,
            },
    {
        get_nested_field(value, path)
    }

    /// The method a test case is sent with.
    pub fn request_method(&self, test: &TestCase) -> (r: HttpMethod)
        ensures
            r == method_for(upper_of(test.method@)),
    {
        request_method(test.method.as_str())
    }

    /// The result of one test case, given what its request brought back and
    /// how long the attempt took.
    pub fn conclude(&self, test: &TestCase, outcome: Outcome, duration_ms: u64) -> (r: TestResult)
        ensures
            concluded(*test, outcome, duration_ms, r),
    {
        let mut result = TestResult::new(test.id.clone(), test.name.clone());
        let ghost out = outcome;
        match outcome {
            Outcome::TransportFailed(cause) => {
                result.status = TestStatus::Error;
                let mut msg = String::new();
                push_text(&mut msg, "Request failed: ");
                push_text(&mut msg, cause.as_str());
                result.errors.push(msg);
                assert(texts(result.errors@) =~= outcome_errors(*test, out));
            },
            Outcome::Responded { status, body } => {
                result.response_status = Some(status);
                if status != test.expected_status {
                    result.status = TestStatus::Failed;
                    result.errors.push(status_mismatch(test.expected_status, status));
                }
                let ghost head = texts(result.errors@);
                match &body {
                    Some(b) => {
                        let mut i: usize = 0;
                        assert(test.assertions@.take(0) =~= Seq::<Assertion>::empty());
                        while i < test.assertions.len()
                            invariant
                                i <= test.assertions@.len(),
                                result.test_id == test.id,
                                result.test_name == test.name,
                                result.response_status == Some(status),
                                texts(result.errors@) == head + assertion_errors(
                                    *b,
                                    test.assertions@.take(i as int),
                                ),
                                result.status == (if status != test.expected_status || (exists|k: int|
                                    0 <= k < i && !#[trigger] assertion_holds(*b, test.assertions@[k])) {
                                    TestStatus::Failed
                                } else {
                                    TestStatus::Passed
                                }),
                            decreases test.assertions@.len() - i,
                        {
                            let a = &test.assertions[i];
                            assert(test.assertions@.take(i + 1).drop_last() =~= test.assertions@.take(i as int));
                            assert(test.assertions@.take(i + 1).last() == *a);
                            let ghost before = result.errors@;
                            assert(assertion_errors(*b, test.assertions@.take(i + 1)) == (if assertion_holds(*b, *a) {
                                assertion_errors(*b, test.assertions@.take(i as int))
                            } else {
                                assertion_errors(*b, test.assertions@.take(i as int)).push(assertion_message(*a))
                            }));
                            if !self.validate_assertion(b, a) {
                                result.status = TestStatus::Failed;
                                let msg = failed_assertion(a);
                                result.errors.push(msg);
                                assert(texts(result.errors@) =~= texts(before).push(msg@));
                            }
                            assert(texts(result.errors@) =~= head + assertion_errors(
                                *b,
                                test.assertions@.take(i + 1),
                            ));
                            i = i + 1;
                        }
                        assert(test.assertions@.take(i as int) =~= test.assertions@);
                    },
                    None => {
                        assert(texts(result.errors@) =~= head);
                    },
                }
                result.response_body = body;
            },
        }
        result.duration_ms = duration_ms;
        assert(result.test_id == test.id);
        assert(result.status == outcome_status(*test, out));
        assert(texts(result.errors@) == outcome_errors(*test, out));
        assert(result.response_status == match out {
            Outcome::Responded { status, .. } => Some(status),
            Outcome::TransportFailed(_) => None::<u16>,
        });
        assert(result.response_body == match out {
            Outcome::Responded { body, .. } => body,
            Outcome::TransportFailed(_) => None::<Json>,
        });
        result
    }

    /// The results of a batch: one for each test case, in the order of
    /// `tests`, from what its request brought back and how long it took.
    pub fn conclude_all(&self, tests: &Vec<TestCase>, outcomes: Vec<(Outcome, u64)>) -> (r: Vec<TestResult>)
        requires
            tests@.len() == outcomes@.len(),
        ensures
            r@.len() == tests@.len(),
            forall|i: int|
                0 <= i < tests@.len() ==> concluded(
                    tests@[i],
                    outcomes@[i].0,
                    outcomes@[i].1,
                    #[trigger] r@[i],
                ),
    {
        let ghost all = outcomes@;
        let mut rest = outcomes;
        let mut out: Vec<TestResult> = Vec::new();
        let mut i: usize = 0;
        assert(all.skip(0) =~= all);
        while i < tests.len()
            invariant
                tests@.len() == all.len(),
                i <= tests@.len(),
                rest@ == all.skip(i as int),
                out@.len() == i,
                forall|k: int|
                    0 <= k < i ==> concluded(tests@[k], all[k].0, all[k].1, #[trigger] out@[k]),
            decreases tests@.len() - i,
        {
            let (outcome, duration_ms) = rest.remove(0);
            assert(rest@ =~= all.skip(i + 1));
            let result = self.conclude(&tests[i], outcome, duration_ms);
            out.push(result);
            i = i + 1;
        }
        out
    }
}

} // verus!
