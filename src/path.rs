use vstd::prelude::*;
use crate::json::Json;
use crate::text::{chars_of, push_char};

verus! {

/// The pieces of `s` between dots, as `str::split('.')` gives them: one more
/// piece than there are dots, empty pieces included.
pub open spec fn split_dot(s: Seq<char>) -> Seq<Seq<char>>
    decreases s.len(),
{
    if s.len() == 0 {
        seq![Seq::<char>::empty()]
    } else {
        let init = split_dot(s.drop_last());
        if s.last() == '.' {
            init.push(Seq::<char>::empty())
        } else {
            init.update(init.len() - 1, init.last().push(s.last()))
        }
    }
}

/// The characters of each string, in order.
pub open spec fn texts(v: Seq<String>) -> Seq<Seq<char>> {
    v.map_values(|s: String| s@)
}

/// What `path` leads to in `v`, descending through object members only.
pub open spec fn resolve(v: Json, path: Seq<Seq<char>>) -> Option<Json>
    decreases path.len(),
{
    if path.len() == 0 {
        Some(v)
    } else {
        match v.member(path[0]) {
            Some(c) => resolve(c, path.drop_first()),
            None => None,
        }
    }
}

/// What the dotted path `field` leads to in `v`.
pub open spec fn resolve_field(v: Json, field: Seq<char>) -> Option<Json> {
    resolve(v, split_dot(field))
}

/// Splits `path` at every dot.
pub fn split_path(path: &str) -> (r: Vec<String>)
    ensures
        texts(r@) == split_dot(path@),
{
    let cs = chars_of(path);
    let mut segs: Vec<String> = Vec::new();
    let mut cur = String::new();
    let mut i: usize = 0;
    assert(cs@.take(0) =~= Seq::<char>::empty());
    assert(texts(segs@).push(cur@) =~= split_dot(cs@.take(0)));
    while i < cs.len()
        invariant
            i <= cs@.len(),
            cs@ == path@,
            texts(segs@).push(cur@) == split_dot(cs@.take(i as int)),
        decreases cs@.len() - i,
    {
        let c = cs[i];
        assert(cs@.take(i + 1).drop_last() =~= cs@.take(i as int));
        assert(cs@.take(i + 1).last() == c);
        if c == '.' {
            let done = cur;
            segs.push(done);
            cur = String::new();
            assert(texts(segs@).push(cur@) =~= split_dot(cs@.take(i + 1)));
        } else {
            push_char(&mut cur, c);
            assert(texts(segs@).push(cur@) =~= split_dot(cs@.take(i + 1)));
        }
        i = i + 1;
    }
    segs.push(cur);
    assert(cs@.take(cs@.len() as int) =~= cs@);
    assert(texts(segs@) =~= split_dot(path@));
    segs
}

/// Follows the dotted path `path` from `value` through object members.
pub fn get_nested_field<'a>(value: &'a Json, path: &str) -> (r: Option<&'a Json>)
    ensures
        match r {
            Some(v) => resolve_field(*value, path@) == Some(*v),
            None => resolve_field(*value, path@) is None,
        },
{
    let segs = split_path(path);
    let ghost p = split_dot(path@);
    let mut current: &Json = value;
    let mut i: usize = 0;
    assert(p.skip(0) =~= p);
    while i < segs.len()
        invariant
            i <= segs@.len(),
            texts(segs@) == p,
            p == split_dot(path@),
            resolve(*value, p) == resolve(*current, p.skip(i as int)),
        decreases segs@.len() - i,
    {
        assert(p.skip(i as int).drop_first() =~= p.skip(i + 1));
        assert(p.skip(i as int)[0] == segs@[i as int]@);
        match current.get(segs[i].as_str()) {
            Some(next) => {
                current = next;
            },
            None => {
                return None;
            },
        }
        i = i + 1;
    }
    assert(p.skip(i as int) =~= Seq::<Seq<char>>::empty());
    Some(current)
}

} // verus!
