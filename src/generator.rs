use vstd::prelude::*;
use crate::json::{Json, JsonKind};
use crate::model::{Config, GenerateTestsRequest, TestCase};
use crate::materialize::{cases_from, cases_ok, materialize_cases};
use crate::recovery::{recover, recovered};
use crate::text::push_text;

verus! {

/// Why a generation batch was abandoned.
pub enum GenerationError {
    /// The model's service answered with a status outside 200 to 299; its
    /// status and the text of its answer.
    Upstream { status: u16, body: String },
    /// The answer did not hold generated text where it should; the whole
    /// answer, as text.
    Extraction { envelope: String },
    /// The generated text was not a JSON array of test cases.
    Parse { message: String },
}

/// Opening of the instruction sent to the model.
pub const PROMPT_HEAD: &'static str = "Generate 8 API test cases for ";

/// Rules of the instruction, up to the method of the sample object.
pub const PROMPT_RULES: &'static str = ".\n\nCRITICAL RULES:\n1. Return ONLY a JSON array - NO markdown, NO explanation, NO text before or after\n2. Each test MUST have \"assertions\" as an empty array: []\n3. DO NOT use strings like \"Response body contains...\" for assertions\n4. Use null for empty body, not empty string\n\nRequired JSON structure:\n[\n  {\n    \"name\": \"Test name\",\n    \"description\": \"Test description\",\n    \"method\": \"";

/// Between the method and the endpoint of the sample object.
pub const PROMPT_MIDDLE: &'static str = "\",\n    \"endpoint\": \"";

/// Close of the sample object and of the instruction.
pub const PROMPT_TAIL: &'static str = "\",\n    \"headers\": {},\n    \"body\": null,\n    \"expected_status\": 200,\n    \"assertions\": []\n  }\n]\n\nGenerate exactly 8 tests covering: success (200), client errors (400, 401, 404), server error (500), and edge cases.";

/// The instruction asking the model for test cases of `method` on `endpoint`.
pub open spec fn prompt_for(method: Seq<char>, endpoint: Seq<char>) -> Seq<char> {
    PROMPT_HEAD@ + method + " "@ + endpoint + PROMPT_RULES@ + method + PROMPT_MIDDLE@ + endpoint
        + PROMPT_TAIL@
}

/// The text of an optional string, or `default` when there is none.
pub open spec fn text_or(s: Option<String>, default: Seq<char>) -> Seq<char> {
    match s {
        Some(t) => t@,
        None => default,
    }
}

/// Item `i` of an array; nothing for any other kind of value.
pub open spec fn item(v: Option<Json>, i: int) -> Option<Json> {
    match v {
        Some(j) => match j.kind {
            JsonKind::Array(xs) => if 0 <= i < xs@.len() {
                Some(xs@[i])
            } else {
                None
            },
            _ => None,
        },
        None => None,
    }
}

/// Member `key` of an object; nothing for any other kind of value.
pub open spec fn field(v: Option<Json>, key: Seq<char>) -> Option<Json> {
    match v {
        Some(j) => j.member(key),
        None => None,
    }
}

/// The characters of a string value; nothing for any other kind of value.
pub open spec fn text_of(v: Option<Json>) -> Option<Seq<char>> {
    match v {
        Some(j) => match j.kind {
            JsonKind::Str(s) => Some(s@),
            _ => None,
        },
        None => None,
    }
}

/// The generated text in the model's answer: the `text` of the first part of
/// the content of the first candidate.
pub open spec fn generated_text(envelope: Json) -> Option<Seq<char>> {
    let candidate = item(field(Some(envelope), "candidates"@), 0);
    let part = item(field(field(candidate, "content"@), "parts"@), 0);
    text_of(field(part, "text"@))
}

/// The value behind an optional reference.
pub open spec fn deref(v: Option<&Json>) -> Option<Json> {
    match v {
        Some(j) => Some(*j),
        None => None,
    }
}

/// Item `i` of an array.
fn item_at(v: Option<&Json>, i: usize) -> (r: Option<&Json>)
    ensures
        match r {
            Some(x) => item(deref(v), i as int) == Some(*x),
            None => item(deref(v), i as int) is None,
        },
{
    match v {
        Some(j) => match &j.kind {
            JsonKind::Array(xs) => if i < xs.len() {
                Some(&xs[i])
            } else {
                None
            },
            _ => None,
        },
        None => None,
    }
}

/// Member `key` of an object.
fn field_at<'a>(v: Option<&'a Json>, key: &str) -> (r: Option<&'a Json>)
    ensures
        match r {
            Some(x) => field(deref(v), key@) == Some(*x),
            None => field(deref(v), key@) is None,
        },
{
    match v {
        Some(j) => j.get(key),
        None => None,
    }
}

/// Calls the model's service and turns its text into test cases; the call
/// itself is made by the caller.
pub struct TestGeneratorService {
    pub gemini_api_key: String,
    pub gemini_api_url: String,
}

impl TestGeneratorService {
    pub fn new(config: &Config) -> (r: TestGeneratorService)
        ensures
            r.gemini_api_key == config.gemini_api_key,
            r.gemini_api_url == config.gemini_api_url,
    {
        TestGeneratorService {
            gemini_api_key: config.gemini_api_key.clone(),
            gemini_api_url: config.gemini_api_url.clone(),
        }
    }

    /// The instruction for the model; an absent method is `GET`, an absent
    /// endpoint `unknown`.
    pub fn build_prompt(&self, request: &GenerateTestsRequest) -> (r: String)
        ensures
            r@ == prompt_for(text_or(request.method, "GET"@), text_or(request.endpoint, "unknown"@)),
    {
        let method: &str = match &request.method {
            Some(m) => m.as_str(),
            None => "GET",
        };
        let endpoint: &str = match &request.endpoint {
            Some(e) => e.as_str(),
            None => "unknown",
        };
        let mut s = String::new();
        push_text(&mut s, PROMPT_HEAD);
        push_text(&mut s, method);
        push_text(&mut s, " ");
        push_text(&mut s, endpoint);
        push_text(&mut s, PROMPT_RULES);
        push_text(&mut s, method);
        push_text(&mut s, PROMPT_MIDDLE);
        push_text(&mut s, endpoint);
        push_text(&mut s, PROMPT_TAIL);
        assert(s@ =~= prompt_for(text_or(request.method, "GET"@), text_or(request.endpoint, "unknown"@)));
        s
    }

    /// Where the model's service is called: its URL with the key as a query.
    pub fn upstream_url(&self) -> (r: String)
        ensures
            r@ == self.gemini_api_url@ + "?key="@ + self.gemini_api_key@,
    {
        let mut s = String::new();
        push_text(&mut s, self.gemini_api_url.as_str());
        push_text(&mut s, "?key=");
        push_text(&mut s, self.gemini_api_key.as_str());
        s
    }

    /// Accepts an answer of the model's service with a success status and
    /// refuses any other, keeping its status and text.
    pub fn check_upstream(&self, status: u16, body: String) -> (r: Result<(), GenerationError>)
        ensures
            r is Ok <==> 200 <= status <= 299,
            match r {
                Err(GenerationError::Upstream { status: s, body: b }) => s == status && b == body,
                Err(_) => false,
                Ok(_) => true,
            },
    {
        if 200 <= status && status <= 299 {
            Ok(())
        } else {
            Err(GenerationError::Upstream { status, body })
        }
    }

    /// The generated text of the model's answer.
    pub fn extract_generated_text(&self, envelope: &Json) -> (r: Result<String, GenerationError>)
        ensures
            match r {
                Ok(t) => generated_text(*envelope) == Some(t@),
                Err(GenerationError::Extraction { envelope: e }) => generated_text(*envelope) is None
                    && e == envelope.text,
                Err(_) => false,
            },
    {
        let candidates = field_at(Some(envelope), "candidates");
        let candidate = item_at(candidates, 0);
        let content = field_at(candidate, "content");
        let parts = field_at(content, "parts");
        let part = item_at(parts, 0);
        let text = field_at(part, "text");
        match text {
            Some(t) => match &t.kind {
                JsonKind::Str(s) => Ok(s.clone()),
                _ => Err(GenerationError::Extraction { envelope: envelope.text.clone() }),
            },
            None => Err(GenerationError::Extraction { envelope: envelope.text.clone() }),
        }
    }

    /// The JSON array held in generated text, with code fences and the prose
    /// around it removed.
    pub fn extract_json_array(&self, text: &str) -> (r: String)
        ensures
            r@ == recovered(text@),
    {
        recover(text)
    }

    /// The test cases of the parsed array `items`, each under a fresh identifier.
    pub fn materialize(&self, items: Json) -> (r: Result<Vec<TestCase>, GenerationError>)
        ensures
            r is Ok <==> cases_ok(items),
            match r {
                Ok(ts) => cases_from(items, ts@),
                Err(e) => e is Parse,
            },
    {
        materialize_cases(items)
    }
}

} // verus!
