use vstd::prelude::*;
use crate::text::{chars_of, matches_at, push_char};

verus! {

/// Unicode's `White_Space` property, which `char::is_whitespace` tests.
pub open spec fn is_ws(c: char) -> bool {
    let u = c as u32;
    (0x9 <= u <= 0xd) || u == 0x20 || u == 0x85 || u == 0xa0 || u == 0x1680 || (0x2000 <= u
        <= 0x200a) || u == 0x2028 || u == 0x2029 || u == 0x202f || u == 0x205f || u == 0x3000
}

/// `s` without its leading whitespace.
pub open spec fn trim_start(s: Seq<char>) -> Seq<char>
    decreases s.len(),
{
    if s.len() > 0 && is_ws(s[0]) {
        trim_start(s.drop_first())
    } else {
        s
    }
}

/// `s` without its trailing whitespace.
pub open spec fn trim_end(s: Seq<char>) -> Seq<char>
    decreases s.len(),
{
    if s.len() > 0 && is_ws(s.last()) {
        trim_end(s.drop_last())
    } else {
        s
    }
}

/// `s` without whitespace at either end.
pub open spec fn trim(s: Seq<char>) -> Seq<char> {
    trim_end(trim_start(s))
}

/// `s` with every repetition of `p` at its start removed.
pub open spec fn strip_leading(s: Seq<char>, p: Seq<char>) -> Seq<char>
    decreases s.len(),
{
    if p.len() > 0 && p.len() <= s.len() && s.take(p.len() as int) == p {
        strip_leading(s.skip(p.len() as int), p)
    } else {
        s
    }
}

/// `s` with every repetition of `p` at its end removed.
pub open spec fn strip_trailing(s: Seq<char>, p: Seq<char>) -> Seq<char>
    decreases s.len(),
{
    if p.len() > 0 && p.len() <= s.len() && s.skip(s.len() - p.len()) == p {
        strip_trailing(s.take(s.len() - p.len()), p)
    } else {
        s
    }
}

/// `i` is the place of the first `c` in `s`.
pub open spec fn is_first(s: Seq<char>, c: char, i: int) -> bool {
    0 <= i < s.len() && s[i] == c && forall|k: int| 0 <= k < i ==> s[k] != c
}

/// `j` is the place of the last `c` in `s`.
pub open spec fn is_last(s: Seq<char>, c: char, j: int) -> bool {
    0 <= j < s.len() && s[j] == c && forall|k: int| j < k < s.len() ==> s[k] != c
}

/// The first `[` of `s` comes before its last `]`.
pub open spec fn has_bracket_pair(s: Seq<char>) -> bool {
    exists|i: int, j: int| is_first(s, '[', i) && is_last(s, ']', j) && i < j
}

/// From the first `[` to the last `]` of `s`, both included; `s` itself when
/// it holds no `[` followed later by a `]`.
pub open spec fn bracket_slice(s: Seq<char>) -> Seq<char> {
    if has_bracket_pair(s) {
        let ij = choose|ij: (int, int)| is_first(s, '[', ij.0) && is_last(s, ']', ij.1) && ij.0 < ij.1;
        s.subrange(ij.0, ij.1 + 1)
    } else {
        s
    }
}

/// The JSON array that generated text is taken to hold: the text trimmed,
/// its code fences removed, and cut down to the outermost brackets.
pub open spec fn recovered(text: Seq<char>) -> Seq<char> {
    let a = trim(text);
    let b = strip_leading(a, "```json"@);
    let c = strip_leading(b, "```"@);
    let d = strip_trailing(c, "```"@);
    bracket_slice(trim(d))
}

/// Whether `c` is whitespace.
pub fn is_whitespace(c: char) -> (r: bool)
    ensures
        r == is_ws(c),
{
    let u = c as u32;
    (0x9 <= u && u <= 0xd) || u == 0x20 || u == 0x85 || u == 0xa0 || u == 0x1680 || (0x2000 <= u
        && u <= 0x200a) || u == 0x2028 || u == 0x2029 || u == 0x202f || u == 0x205f || u == 0x3000
}

/// Narrows the window `lo..hi` of `cs` to `trim` of it.
fn trim_window(cs: &Vec<char>, lo: usize, hi: usize) -> (r: (usize, usize))
    requires
        lo <= hi <= cs@.len(),
    ensures
        lo <= r.0 <= r.1 <= hi,
        cs@.subrange(r.0 as int, r.1 as int) == trim(cs@.subrange(lo as int, hi as int)),
{
    let mut a = lo;
    while a < hi && is_whitespace(cs[a])
        invariant
            lo <= a <= hi <= cs@.len(),
            trim_start(cs@.subrange(lo as int, hi as int)) == trim_start(cs@.subrange(a as int, hi as int)),
        decreases hi - a,
    {
        assert(cs@.subrange(a as int, hi as int).drop_first() =~= cs@.subrange(a + 1, hi as int));
        a = a + 1;
    }
    let mut b = hi;
    while b > a && is_whitespace(cs[b - 1])
        invariant
            lo <= a <= b <= hi <= cs@.len(),
            trim_end(cs@.subrange(a as int, hi as int)) == trim_end(cs@.subrange(a as int, b as int)),
        decreases b - a,
    {
        assert(cs@.subrange(a as int, b as int).drop_last() =~= cs@.subrange(a as int, b - 1));
        b = b - 1;
    }
    assert(trim_start(cs@.subrange(a as int, hi as int)) == cs@.subrange(a as int, hi as int));
    assert(trim_end(cs@.subrange(a as int, b as int)) == cs@.subrange(a as int, b as int));
    (a, b)
}

/// Narrows the window `lo..hi` of `cs` to `strip_leading` of it by `p`.
fn strip_leading_window(cs: &Vec<char>, lo: usize, hi: usize, p: &Vec<char>) -> (r: usize)
    requires
        lo <= hi <= cs@.len(),
        p@.len() > 0,
    ensures
        lo <= r <= hi,
        cs@.subrange(r as int, hi as int) == strip_leading(cs@.subrange(lo as int, hi as int), p@),
{
    let mut a = lo;
    loop
        invariant
            lo <= a <= hi <= cs@.len(),
            p@.len() > 0,
            strip_leading(cs@.subrange(lo as int, hi as int), p@) == strip_leading(
                cs@.subrange(a as int, hi as int),
                p@,
            ),
        decreases hi - a,
    {
        let ghost w = cs@.subrange(a as int, hi as int);
        if p.len() <= hi - a && matches_at(cs, p, a) {
            assert(w.take(p@.len() as int) =~= cs@.subrange(a as int, a + p@.len()));
            assert(w.skip(p@.len() as int) =~= cs@.subrange(a + p@.len(), hi as int));
            a = a + p.len();
        } else {
            assert(p@.len() <= w.len() ==> w.take(p@.len() as int) =~= cs@.subrange(
                a as int,
                a + p@.len(),
            ));
            return a;
        }
    }
}

/// Narrows the window `lo..hi` of `cs` to `strip_trailing` of it by `p`.
fn strip_trailing_window(cs: &Vec<char>, lo: usize, hi: usize, p: &Vec<char>) -> (r: usize)
    requires
        lo <= hi <= cs@.len(),
        p@.len() > 0,
    ensures
        lo <= r <= hi,
        cs@.subrange(lo as int, r as int) == strip_trailing(cs@.subrange(lo as int, hi as int), p@),
{
    let mut b = hi;
    loop
        invariant
            lo <= b <= hi <= cs@.len(),
            p@.len() > 0,
            strip_trailing(cs@.subrange(lo as int, hi as int), p@) == strip_trailing(
                cs@.subrange(lo as int, b as int),
                p@,
            ),
        decreases b - lo,
    {
        let ghost w = cs@.subrange(lo as int, b as int);
        if p.len() <= b - lo && matches_at(cs, p, b - p.len()) {
            assert(w.skip(w.len() - p@.len()) =~= cs@.subrange(b - p@.len(), b as int));
            assert(w.take(w.len() - p@.len()) =~= cs@.subrange(lo as int, b - p@.len()));
            b = b - p.len();
        } else {
            assert(p@.len() <= w.len() ==> w.skip(w.len() - p@.len()) =~= cs@.subrange(
                b - p@.len(),
                b as int,
            ));
            return b;
        }
    }
}

/// The characters `cs[lo..hi]` as a string.
fn string_of(cs: &Vec<char>, lo: usize, hi: usize) -> (r: String)
    requires
        lo <= hi <= cs@.len(),
    ensures
        r@ == cs@.subrange(lo as int, hi as int),
{
    let mut s = String::new();
    let mut i = lo;
    while i < hi
        invariant
            lo <= i <= hi <= cs@.len(),
            s@ == cs@.subrange(lo as int, i as int),
        decreases hi - i,
    {
        push_char(&mut s, cs[i]);
        assert(s@ =~= cs@.subrange(lo as int, i + 1));
        i = i + 1;
    }
    s
}

/// Takes the JSON array out of generated text: trims it, removes code
/// fences, and keeps what lies from the first `[` to the last `]`.
pub fn recover(text: &str) -> (r: String)
    ensures
        r@ == recovered(text@),
{
    proof {
        reveal_strlit("```json");
        reveal_strlit("```");
    }
    let cs = chars_of(text);
    let fence_json = chars_of("```json");
    let fence = chars_of("```");
    let (lo, hi) = trim_window(&cs, 0, cs.len());
    assert(cs@.subrange(0, cs@.len() as int) =~= cs@);
    let lo = strip_leading_window(&cs, lo, hi, &fence_json);
    let lo = strip_leading_window(&cs, lo, hi, &fence);
    let hi = strip_trailing_window(&cs, lo, hi, &fence);
    let (lo, hi) = trim_window(&cs, lo, hi);
    let ghost w = cs@.subrange(lo as int, hi as int);
    let mut f = lo;
    while f < hi && cs[f] != '['
        invariant
            lo <= f <= hi <= cs@.len(),
            w == cs@.subrange(lo as int, hi as int),
            forall|k: int| 0 <= k < f - lo ==> w[k] != '[',
        decreases hi - f,
    {
        f = f + 1;
    }
    let mut l = hi;
    while l > lo && cs[l - 1] != ']'
        invariant
            lo <= l <= hi <= cs@.len(),
            w == cs@.subrange(lo as int, hi as int),
            forall|k: int| l - lo <= k < w.len() ==> w[k] != ']',
        decreases l - lo,
    {
        l = l - 1;
    }
    if f < hi && l > lo && f < l - 1 {
        let ghost i = f - lo;
        let ghost j = l - 1 - lo;
        let ghost pair = (i, j);
        assert(is_first(w, '[', pair.0) && is_last(w, ']', pair.1) && pair.0 < pair.1);
        let ghost ij = choose|ij: (int, int)| is_first(w, '[', ij.0) && is_last(w, ']', ij.1) && ij.0 < ij.1;
        assert(ij.0 == i) by {
            if ij.0 < i {
                assert(w[ij.0] == '[');
            }
            if ij.0 > i {
                assert(w[i] == '[');
            }
        }
        assert(ij.1 == j) by {
            if ij.1 < j {
                assert(w[j] == ']');
            }
            if ij.1 > j {
                assert(w[ij.1] == ']');
            }
        }
        assert(w.subrange(i, j + 1) =~= cs@.subrange(f as int, l as int));
        string_of(&cs, f, l)
    } else {
        assert(!has_bracket_pair(w)) by {
            if has_bracket_pair(w) {
                let (i, j) = choose|i: int, j: int| is_first(w, '[', i) && is_last(w, ']', j) && i < j;
                if f < hi {
                    assert(f - lo == i) by {
                        if i < f - lo {
                            assert(w[i] == '[');
                        }
                        if i > f - lo {
                            assert(w[f - lo] == '[');
                        }
                    }
                }
                assert(w[j] == ']');
                assert(w[i] == '[');
            }
        }
        string_of(&cs, lo, hi)
    }
}

} // verus!
