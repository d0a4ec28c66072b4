//! A plain JSON tree, the form in which manifests and schemas reach the library.

use vstd::prelude::*;

verus! {

/// A JSON value. Object members keep the order in which they were read.
pub enum JsonValue {
    Null,
    Bool(bool),
    /// A number, kept as its text: the translation never reads numbers.
    Number(String),
    Str(String),
    Array(Vec<JsonValue>),
    Object(Vec<(String, JsonValue)>),
}

/// Index of the first member named `key` at or after `i`, or -1 when there is none.
pub open spec fn member_index(members: Seq<(String, JsonValue)>, key: Seq<char>, i: int) -> int
    decreases members.len() - i,
{
    if i < 0 || i >= members.len() {
        -1
    } else if members[i].0@ == key {
        i
    } else {
        member_index(members, key, i + 1)
    }
}

/// The member `key` of an object, or `None` when `v` is no object or has no such member.
pub open spec fn field_of(v: JsonValue, key: Seq<char>) -> Option<JsonValue> {
    match v {
        JsonValue::Object(members) => {
            let i = member_index(members@, key, 0);
            if i >= 0 {
                Some(members@[i].1)
            } else {
                None
            }
        },
        _ => None,
    }
}

/// The member `key` as a string, or `None` when it is absent or not a string.
pub open spec fn str_field_of(v: JsonValue, key: Seq<char>) -> Option<Seq<char>> {
    match field_of(v, key) {
        Some(JsonValue::Str(s)) => Some(s@),
        _ => None,
    }
}

/// The index found is either -1 or that of a member named `key`.
pub proof fn lemma_member_index_range(members: Seq<(String, JsonValue)>, key: Seq<char>, i: int)
    requires
        0 <= i,
    ensures
        member_index(members, key, i) == -1 || (i <= member_index(members, key, i) < members.len()
            && members[member_index(members, key, i)].0@ == key),
    decreases members.len() - i,
{
    if i < members.len() && members[i].0@ != key {
        lemma_member_index_range(members, key, i + 1);
    }
}

impl JsonValue {
    /// The member `key` of an object; `None` when `self` is no object or lacks it.
    pub fn field(&self, key: &str) -> (r: Option<&JsonValue>)
        ensures
            r is Some <==> field_of(*self, key@) is Some,
            r is Some ==> field_of(*self, key@) == Some(*r->0),
    {
        match self {
            JsonValue::Object(members) => {
                let k = key.to_string();
                let mut i: usize = 0;
                while i < members.len()
                    invariant
                        0 <= i <= members@.len(),
                        *self == JsonValue::Object(*members),
                        k@ == key@,
                        member_index(members@, key@, 0) == member_index(members@, key@, i as int),
                    decreases members@.len() - i,
                {
                    if members[i].0 == k {
                        return Some(&members[i].1);
                    }
                    i += 1;
                }
                None
            },
            _ => None,
        }
    }

    /// The member `key` as a string slice, when it is present and a string.
    pub fn str_field(&self, key: &str) -> (r: Option<&str>)
        ensures
            r is Some <==> str_field_of(*self, key@) is Some,
            r is Some ==> str_field_of(*self, key@) == Some(r->0@),
    {
        match self.field(key) {
            Some(JsonValue::Str(s)) => Some(s.as_str()),
            _ => None,
        }
    }
}

} // verus!
