use vstd::prelude::*;
use crate::executor::{assertion_holds, outcome_status, Outcome};
use crate::json::Json;
use crate::model::{Assertion, TestCase, TestStatus};
use crate::path::resolve_field;
use crate::recovery::{
    bracket_slice, has_bracket_pair, is_first, is_last, recovered, strip_leading, strip_trailing,
    trim, trim_end, trim_start,
};

verus! {

/// A result ends in exactly one of passed, failed and error, and it is an
/// error exactly when no response was obtained.
pub proof fn lemma_one_status(test: TestCase, outcome: Outcome)
    ensures
        (outcome_status(test, outcome) == TestStatus::Passed) as int + (outcome_status(test, outcome)
            == TestStatus::Failed) as int + (outcome_status(test, outcome) == TestStatus::Error) as int
            == 1,
        (outcome_status(test, outcome) == TestStatus::Error) == (outcome is TransportFailed),
{
}

/// A response with the expected status passes a test case that has no
/// assertions, whatever its body.
pub proof fn lemma_expected_status_without_assertions_passes(
    test: TestCase,
    status: u16,
    body: Option<Json>,
)
    requires
        test.expected_status == status,
        test.assertions@.len() == 0,
    ensures
        outcome_status(test, Outcome::Responded { status, body }) == TestStatus::Passed,
{
}

/// `contains` never holds of a number, even against a string.
pub proof fn lemma_contains_on_number_fails(body: Json, a: Assertion)
    requires
        a.operator@ == "contains"@,
        a.expected.kind is Str,
        resolve_field(body, a.field@) is Some,
        resolve_field(body, a.field@)->0.kind is Number,
    ensures
        !assertion_holds(body, a),
{
    reveal_strlit("contains");
    reveal_strlit("equals");
    assert("contains"@ != "equals"@) by {
        assert("contains"@[0] != "equals"@[0]);
    }
}

/// `exists` holds of a field whose value is `null`.
pub proof fn lemma_exists_on_null_holds(body: Json, a: Assertion)
    requires
        a.operator@ == "exists"@,
        resolve_field(body, a.field@) is Some,
        resolve_field(body, a.field@)->0.kind is Null,
    ensures
        assertion_holds(body, a),
{
    reveal_strlit("exists");
    reveal_strlit("contains");
    reveal_strlit("equals");
    assert("exists"@ != "equals"@) by {
        assert("exists"@.len() != "equals"@.len() || "exists"@[1] != "equals"@[1]);
    }
    assert("exists"@ != "contains"@) by {
        assert("exists"@.len() != "contains"@.len());
    }
}

/// Text that already is a bare bracketed array, with nothing around it,
/// comes back from recovery unchanged.
pub proof fn lemma_recover_clean_array(s: Seq<char>)
    requires
        s.len() >= 2,
        s[0] == '[',
        s.last() == ']',
    ensures
        recovered(s) == s,
{
    reveal_strlit("```json");
    reveal_strlit("```");
    assert(trim_start(s) == s);
    assert(trim_end(s) == s);
    assert(trim(s) == s);
    assert("```json"@[0] == '`');
    assert("```"@[0] == '`' && "```"@[2] == '`');
    if s.len() >= 7 {
        assert(s.take(7)[0] == s[0]);
    }
    assert(strip_leading(s, "```json"@) == s);
    if s.len() >= 3 {
        assert(s.take(3)[0] == s[0]);
        assert(s.skip(s.len() - 3)[2] == s.last());
    }
    assert(strip_leading(s, "```"@) == s);
    assert(strip_trailing(s, "```"@) == s);
    let last = s.len() - 1;
    let pair = (0int, last);
    assert(is_first(s, '[', pair.0) && is_last(s, ']', pair.1) && pair.0 < pair.1);
    assert(has_bracket_pair(s));
    let ij = choose|ij: (int, int)| is_first(s, '[', ij.0) && is_last(s, ']', ij.1) && ij.0 < ij.1;
    assert(ij.0 == 0) by {
        if ij.0 > 0 {
            assert(s[0] == '[');
        }
    }
    assert(ij.1 == last) by {
        if ij.1 < last {
            assert(s[last] == ']');
        }
    }
    assert(s.subrange(0, s.len() as int) =~= s);
    assert(bracket_slice(s) == s);
}

} // verus!
