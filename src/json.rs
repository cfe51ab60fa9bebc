use vstd::prelude::*;

verus! {

/// A JSON document as the library reads it.
///
/// `text` is the document's canonical compact form (object members in key
/// order, numbers in their shortest form). Two documents are the same value
/// exactly when their canonical texts agree, so deep equality is a comparison
/// of `text`, and `text` is also how a document is shown in a message.
pub struct Json {
    pub kind: JsonKind,
    pub text: String,
}

/// What a document is at its top level.
pub enum JsonKind {
    Null,
    Bool(bool),
    Number,
    Str(String),
    Array(Vec<Json>),
    Object(Vec<(String, Json)>),
}

/// The value under the first member of `members` whose key is `key`.
pub open spec fn lookup(members: Seq<(String, Json)>, key: Seq<char>) -> Option<Json>
    decreases members.len(),
{
    if members.len() == 0 {
        None
    } else if members[0].0@ == key {
        Some(members[0].1)
    } else {
        lookup(members.drop_first(), key)
    }
}

/// Deep equality: the same kind and the same contents, all the way down.
pub open spec fn deep_eq(a: Json, b: Json) -> bool {
    a.text@ == b.text@
}

impl Json {
    /// The member `key` of an object; nothing for any other kind of value.
    pub open spec fn member(self, key: Seq<char>) -> Option<Json> {
        match self.kind {
            JsonKind::Object(ms) => lookup(ms@, key),
            _ => None,
        }
    }

    /// Looks up the member `key` of an object.
    pub fn get(&self, key: &str) -> (r: Option<&Json>)
        ensures
            match r {
                Some(v) => self.member(key@) == Some(*v),
                None => self.member(key@) is None,
            },
    {
        match &self.kind {
            JsonKind::Object(ms) => {
                let k = key.to_owned();
                let mut i: usize = 0;
                assert(ms@.skip(0) =~= ms@);
                while i < ms.len()
                    invariant
                        i <= ms@.len(),
                        self.kind == JsonKind::Object(*ms),
                        k@ == key@,
                        lookup(ms@, key@) == lookup(ms@.skip(i as int), key@),
                    decreases ms@.len() - i,
                {
                    assert(ms@.skip(i as int).drop_first() =~= ms@.skip(i + 1));
                    if ms[i].0 == k {
                        return Some(&ms[i].1);
                    }
                    i = i + 1;
                }
                None
            },
            _ => None,
        }
    }

    /// Whether two documents are deeply equal.
    pub fn equals(&self, other: &Json) -> (r: bool)
        ensures
            r == deep_eq(*self, *other),
    {
        self.text == other.text
    }
}

} // verus!
