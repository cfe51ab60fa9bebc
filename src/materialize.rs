use vstd::prelude::*;
use crate::generator::{deref, text_of, GenerationError};
use crate::json::{lookup, Json, JsonKind};
use crate::model::{fresh_id, Assertion, TestCase};
use crate::text::{chars_of, push_text, same_text};

verus! {

/// Whether `c` is one of the ASCII digits.
pub open spec fn is_digit(c: char) -> bool {
    '0' as u32 <= c as u32 <= '9' as u32
}

/// The value of a run of decimal digits.
pub open spec fn digits_value(s: Seq<char>) -> nat
    decreases s.len(),
{
    if s.len() == 0 {
        0
    } else {
        digits_value(s.drop_last()) * 10 + (s.last() as u32 - '0' as u32) as nat
    }
}

/// The `u16` that the number text `s` denotes; nothing when `s` is not a
/// run of digits or is too large.
pub open spec fn u16_text(s: Seq<char>) -> Option<u16> {
    if s.len() > 0 && (forall|i: int| 0 <= i < s.len() ==> is_digit(#[trigger] s[i])) && digits_value(s)
        <= 65535 {
        Some(digits_value(s) as u16)
    } else {
        None
    }
}

/// The status code held in a value: a number that is a `u16`.
pub open spec fn status_of(v: Option<Json>) -> Option<u16> {
    match v {
        Some(j) => if j.kind is Number {
            u16_text(j.text@)
        } else {
            None
        },
        None => None,
    }
}

/// A body: a present value other than `null`.
pub open spec fn body_of(v: Option<Json>) -> Option<Json> {
    match v {
        Some(j) => if j.kind is Null {
            None
        } else {
            Some(j)
        },
        None => None,
    }
}

/// Headers are absent, `null`, or an object whose values are all strings.
pub open spec fn headers_ok(v: Option<Json>) -> bool {
    match v {
        Some(j) => match j.kind {
            JsonKind::Null => true,
            JsonKind::Object(ms) => forall|i: int| 0 <= i < ms@.len() ==> (#[trigger] ms@[i]).1.kind is Str,
            _ => false,
        },
        None => true,
    }
}

/// `h` holds the headers of `v`, member by member.
pub open spec fn headers_from(v: Option<Json>, h: Option<Vec<(String, String)>>) -> bool {
    match v {
        Some(j) => match j.kind {
            JsonKind::Object(ms) => h is Some && h->0@.len() == ms@.len() && forall|i: int|
                0 <= i < ms@.len() ==> (#[trigger] h->0@[i]).0@ == ms@[i].0@ && text_of(Some(ms@[i].1))
                    == Some(h->0@[i].1@),
            _ => h is None,
        },
        None => h is None,
    }
}

/// `j` is an object with a string `field`, a string `operator` and an `expected` value.
pub open spec fn assertion_ok(j: Json) -> bool {
    text_of(j.member("field"@)) is Some && text_of(j.member("operator"@)) is Some && j.member(
        "expected"@,
    ) is Some
}

/// `a` holds what `j` says.
pub open spec fn assertion_from(j: Json, a: Assertion) -> bool {
    text_of(j.member("field"@)) == Some(a.field@) && text_of(j.member("operator"@)) == Some(
        a.operator@,
    ) && j.member("expected"@) == Some(a.expected)
}

/// `v` is an array of assertions.
pub open spec fn assertions_ok(v: Option<Json>) -> bool {
    match v {
        Some(j) => match j.kind {
            JsonKind::Array(xs) => forall|i: int| 0 <= i < xs@.len() ==> assertion_ok(#[trigger] xs@[i]),
            _ => false,
        },
        None => false,
    }
}

/// `a` holds the assertions of the array `v`, in order.
pub open spec fn assertions_from(v: Option<Json>, a: Seq<Assertion>) -> bool {
    match v {
        Some(j) => match j.kind {
            JsonKind::Array(xs) => a.len() == xs@.len() && forall|i: int|
                0 <= i < xs@.len() ==> assertion_from(#[trigger] xs@[i], a[i]),
            _ => false,
        },
        None => false,
    }
}

/// `j` has the shape of a test case; an `id` in it is not looked at.
pub open spec fn case_ok(j: Json) -> bool {
    &&& text_of(j.member("name"@)) is Some
    &&& text_of(j.member("description"@)) is Some
    &&& text_of(j.member("method"@)) is Some
    &&& text_of(j.member("endpoint"@)) is Some
    &&& status_of(j.member("expected_status"@)) is Some
    &&& headers_ok(j.member("headers"@))
    &&& assertions_ok(j.member("assertions"@))
}

/// `t` holds what `j` says, under a fresh identifier of its own.
pub open spec fn case_from(j: Json, t: TestCase) -> bool {
    &&& t.id@.len() == 36
    &&& text_of(j.member("name"@)) == Some(t.name@)
    &&& text_of(j.member("description"@)) == Some(t.description@)
    &&& text_of(j.member("method"@)) == Some(t.method@)
    &&& text_of(j.member("endpoint"@)) == Some(t.endpoint@)
    &&& status_of(j.member("expected_status"@)) == Some(t.expected_status)
    &&& headers_from(j.member("headers"@), t.headers)
    &&& body_of(j.member("body"@)) == t.body
    &&& assertions_from(j.member("assertions"@), t.assertions@)
}

/// Every item of `items` has the shape of a test case.
pub open spec fn cases_ok(items: Json) -> bool {
    match items.kind {
        JsonKind::Array(xs) => forall|i: int| 0 <= i < xs@.len() ==> case_ok(#[trigger] xs@[i]),
        _ => false,
    }
}

/// `ts` holds the test cases of the array `items`, in order.
pub open spec fn cases_from(items: Json, ts: Seq<TestCase>) -> bool {
    match items.kind {
        JsonKind::Array(xs) => ts.len() == xs@.len() && forall|i: int|
            0 <= i < xs@.len() ==> case_from(#[trigger] xs@[i], ts[i]),
        _ => false,
    }
}

/// A run of digits is worth at least as much as any of its prefixes.
pub proof fn lemma_digits_grow(s: Seq<char>, i: int)
    requires
        0 <= i <= s.len(),
        forall|k: int| 0 <= k < s.len() ==> is_digit(#[trigger] s[k]),
    ensures
        digits_value(s.take(i)) <= digits_value(s),
    decreases s.len(),
{
    if i < s.len() {
        let t = s.drop_last();
        assert(t.take(i) =~= s.take(i));
        assert forall|k: int| 0 <= k < t.len() implies is_digit(#[trigger] t[k]) by {
            assert(t[k] == s[k]);
        }
        lemma_digits_grow(t, i);
    } else {
        assert(s.take(i) =~= s);
    }
}

/// The `u16` that the number text `s` denotes.
pub fn parse_u16(s: &str) -> (r: Option<u16>)
    ensures
        r == u16_text(s@),
{
    let cs = chars_of(s);
    if cs.len() == 0 {
        return None;
    }
    let mut v: u32 = 0;
    let mut i: usize = 0;
    assert(cs@.take(0) =~= Seq::<char>::empty());
    while i < cs.len()
        invariant
            i <= cs@.len(),
            cs@ == s@,
            v as nat == digits_value(cs@.take(i as int)),
            v <= 65535,
            forall|k: int| 0 <= k < i ==> is_digit(#[trigger] cs@[k]),
        decreases cs@.len() - i,
    {
        let c = cs[i];
        let u = c as u32;
        if u < 48 || u > 57 {
            return None;
        }
        assert(cs@.take(i + 1).drop_last() =~= cs@.take(i as int));
        v = v * 10 + (u - 48);
        if v > 65535 {
            proof {
                if forall|k: int| 0 <= k < s@.len() ==> is_digit(#[trigger] s@[k]) {
                    lemma_digits_grow(s@, i + 1);
                }
            }
            return None;
        }
        i = i + 1;
    }
    assert(cs@.take(i as int) =~= cs@);
    Some(v as u16)
}

/// The place of the first member of `ms` named `key`.
pub fn find_member(ms: &Vec<(String, Json)>, key: &str) -> (r: Option<usize>)
    ensures
        match r {
            Some(i) => i < ms@.len() && ms@[i as int].0@ == key@ && lookup(ms@, key@) == Some(
                ms@[i as int].1,
            ),
            None => lookup(ms@, key@) is None,
        },
{
    let mut i: usize = 0;
    assert(ms@.skip(0) =~= ms@);
    while i < ms.len()
        invariant
            i <= ms@.len(),
            lookup(ms@, key@) == lookup(ms@.skip(i as int), key@),
        decreases ms@.len() - i,
    {
        assert(ms@.skip(i as int).drop_first() =~= ms@.skip(i + 1));
        if same_text(ms[i].0.as_str(), key) {
            return Some(i);
        }
        i = i + 1;
    }
    None
}

/// The string under `key` in the members `ms`.
fn text_member(ms: &Vec<(String, Json)>, key: &str) -> (r: Option<String>)
    ensures
        match r {
            Some(t) => text_of(lookup(ms@, key@)) == Some(t@),
            None => text_of(lookup(ms@, key@)) is None,
        },
{
    match find_member(ms, key) {
        Some(i) => match &ms[i].1.kind {
            JsonKind::Str(s) => Some(s.clone()),
            _ => None,
        },
        None => None,
    }
}

/// The headers held in `v`; nothing when they do not have that shape.
fn decode_headers(v: Option<&Json>) -> (r: Option<Option<Vec<(String, String)>>>)
    ensures
        r is Some <==> headers_ok(deref(v)),
        match r {
            Some(h) => headers_from(deref(v), h),
            None => true,
        },
{
    match v {
        Some(j) => match &j.kind {
            JsonKind::Null => Some(None),
            JsonKind::Object(ms) => {
                let mut out: Vec<(String, String)> = Vec::new();
                let mut i: usize = 0;
                while i < ms.len()
                    invariant
                        i <= ms@.len(),
                        j.kind == JsonKind::Object(*ms),
                        deref(v) == Some(*j),
                        out@.len() == i,
                        forall|k: int| 0 <= k < i ==> (#[trigger] ms@[k]).1.kind is Str,
                        forall|k: int|
                            0 <= k < i ==> (#[trigger] out@[k]).0@ == ms@[k].0@ && text_of(Some(ms@[k].1))
                                == Some(out@[k].1@),
                    decreases ms@.len() - i,
                {
                    match &ms[i].1.kind {
                        JsonKind::Str(value) => {
                            out.push((ms[i].0.clone(), value.clone()));
                        },
                        _ => {
                            assert(!(ms@[i as int].1.kind is Str));
                            return None;
                        },
                    }
                    i = i + 1;
                }
                Some(Some(out))
            },
            _ => None,
        },
        None => Some(None),
    }
}

/// The assertion that `j` describes; nothing when it does not have that shape.
fn decode_assertion(j: Json) -> (r: Option<Assertion>)
    ensures
        r is Some <==> assertion_ok(j),
        match r {
            Some(a) => assertion_from(j, a),
            None => true,
        },
{
    let ghost j0 = j;
    let Json { kind, text: _ } = j;
    match kind {
        JsonKind::Object(mut ms) => {
            let ghost ms0 = ms@;
            let field = match text_member(&ms, "field") {
                Some(t) => t,
                None => {
                    return None;
                },
            };
            let operator = match text_member(&ms, "operator") {
                Some(t) => t,
                None => {
                    return None;
                },
            };
            match find_member(&ms, "expected") {
                Some(i) => {
                    let (_, expected) = ms.remove(i);
                    Some(Assertion { field, operator, expected })
                },
                None => None,
            }
        },
        _ => None,
    }
}

/// The assertions of the array `v`; nothing when it is no array of assertions.
fn decode_assertions(v: Json) -> (r: Option<Vec<Assertion>>)
    ensures
        r is Some <==> assertions_ok(Some(v)),
        match r {
            Some(a) => assertions_from(Some(v), a@),
            None => true,
        },
{
    let ghost v0 = v;
    let Json { kind, text: _ } = v;
    match kind {
        JsonKind::Array(xs) => {
            let ghost xs0 = xs@;
            let n = xs.len();
            let mut rest = xs;
            let mut out: Vec<Assertion> = Vec::new();
            let mut i: usize = 0;
            assert(xs0.skip(0) =~= xs0);
            while rest.len() > 0
                invariant
                    v0 == v,
                    v0.kind is Array,
                    v0.kind->Array_0@ == xs0,
                    i <= xs0.len(),
                    xs0.len() == n,
                    rest@ == xs0.skip(i as int),
                    out@.len() == i,
                    forall|k: int| 0 <= k < i ==> assertion_ok(#[trigger] xs0[k]),
                    forall|k: int| 0 <= k < i ==> assertion_from(#[trigger] xs0[k], out@[k]),
                decreases rest@.len(),
            {
                let x = rest.remove(0);
                assert(x == xs0[i as int]);
                assert(rest@ =~= xs0.skip(i + 1));
                match decode_assertion(x) {
                    Some(a) => {
                        out.push(a);
                    },
                    None => {
                        assert(!assertion_ok(xs0[i as int]));
                        assert(!assertions_ok(Some(v0)));
                        return None;
                    },
                }
                i = i + 1;
            }
            Some(out)
        },
        _ => None,
    }
}

fn is_null(j: &Json) -> (r: bool)
    ensures
        r == (j.kind is Null),
{
    match &j.kind {
        JsonKind::Null => true,
        _ => false,
    }
}

/// The status code under member `i` of `ms`, when there is such a member.
fn decode_status(ms: &Vec<(String, Json)>, i: Option<usize>) -> (r: Option<u16>)
    requires
        match i {
            Some(k) => k < ms@.len(),
            None => true,
        },
    ensures
        r == status_of(
            match i {
                Some(k) => Some(ms@[k as int].1),
                None => None,
            },
        ),
{
    match i {
        Some(k) => match &ms[k].1.kind {
            JsonKind::Number => parse_u16(ms[k].1.text.as_str()),
            _ => None,
        },
        None => None,
    }
}

/// The test case that `j` describes, under a fresh identifier; nothing when
/// `j` does not have that shape.
pub fn decode_case(j: Json) -> (r: Option<TestCase>)
    ensures
        r is Some <==> case_ok(j),
        match r {
            Some(t) => case_from(j, t),
            None => true,
        },
{
    proof {
        reveal_strlit("body");
        reveal_strlit("assertions");
    }
    let Json { kind, text: _ } = j;
    match kind {
        JsonKind::Object(mut ms) => {
            let ghost ms0 = ms@;
            let name = match text_member(&ms, "name") {
                Some(t) => t,
                None => {
                    return None;
                },
            };
            let description = match text_member(&ms, "description") {
                Some(t) => t,
                None => {
                    return None;
                },
            };
            let method = match text_member(&ms, "method") {
                Some(t) => t,
                None => {
                    return None;
                },
            };
            let endpoint = match text_member(&ms, "endpoint") {
                Some(t) => t,
                None => {
                    return None;
                },
            };
            let si = find_member(&ms, "expected_status");
            let expected_status = match decode_status(&ms, si) {
                Some(v) => v,
                None => {
                    return None;
                },
            };
            let hi = find_member(&ms, "headers");
            let found = match hi {
                Some(k) => decode_headers(Some(&ms[k].1)),
                None => decode_headers(None),
            };
            let headers = match found {
                Some(h) => h,
                None => {
                    return None;
                },
            };
            let ai = match find_member(&ms, "assertions") {
                Some(k) => k,
                None => {
                    return None;
                },
            };
            let bi = find_member(&ms, "body");
            let (listed, given): (Json, Option<Json>) = match bi {
                Some(b) => {
                    assert(b != ai) by {
                        assert(ms0[b as int].0@.len() != ms0[ai as int].0@.len());
                    }
                    if b > ai {
                        let (_, bj) = ms.remove(b);
                        let (_, aj) = ms.remove(ai);
                        (aj, Some(bj))
                    } else {
                        let (_, aj) = ms.remove(ai);
                        let (_, bj) = ms.remove(b);
                        (aj, Some(bj))
                    }
                },
                None => {
                    let (_, aj) = ms.remove(ai);
                    (aj, None)
                },
            };
            let assertions = match decode_assertions(listed) {
                Some(a) => a,
                None => {
                    return None;
                },
            };
            let body = match given {
                Some(b) => if is_null(&b) {
                    None
                } else {
                    Some(b)
                },
                None => None,
            };
            Some(
                TestCase {
                    id: fresh_id(),
                    name,
                    description,
                    method,
                    endpoint,
                    headers,
                    body,
                    expected_status,
                    assertions,
                },
            )
        },
        _ => None,
    }
}

/// The test cases that the array `items` describes, each under a fresh
/// identifier; identifiers given in `items` are not used.
pub fn materialize_cases(items: Json) -> (r: Result<Vec<TestCase>, GenerationError>)
    ensures
        r is Ok <==> cases_ok(items),
        match r {
            Ok(ts) => cases_from(items, ts@),
            Err(e) => e is Parse,
        },
{
    let ghost v0 = items;
    let Json { kind, text: _ } = items;
    match kind {
        JsonKind::Array(xs) => {
            let ghost xs0 = xs@;
            let n = xs.len();
            let mut rest = xs;
            let mut out: Vec<TestCase> = Vec::new();
            let mut i: usize = 0;
            assert(xs0.skip(0) =~= xs0);
            while rest.len() > 0
                invariant
                    v0 == items,
                    v0.kind is Array,
                    v0.kind->Array_0@ == xs0,
                    i <= xs0.len(),
                    xs0.len() == n,
                    rest@ == xs0.skip(i as int),
                    out@.len() == i,
                    forall|k: int| 0 <= k < i ==> case_ok(#[trigger] xs0[k]),
                    forall|k: int| 0 <= k < i ==> case_from(#[trigger] xs0[k], out@[k]),
                decreases rest@.len(),
            {
                let x = rest.remove(0);
                assert(x == xs0[i as int]);
                assert(rest@ =~= xs0.skip(i + 1));
                match decode_case(x) {
                    Some(t) => {
                        out.push(t);
                    },
                    None => {
                        assert(!case_ok(xs0[i as int]));
                        assert(!cases_ok(v0));
                        return Err(shape_error());
                    },
                }
                i = i + 1;
            }
            Ok(out)
        },
        _ => Err(shape_error()),
    }
}

fn shape_error() -> (r: GenerationError)
    ensures
        r is Parse,
{
    let mut message = String::new();
    push_text(&mut message, "generated text is not an array of test cases");
    GenerationError::Parse { message }
}

} // verus!
