//! A JSON value, as the library reads and writes it.

use vstd::prelude::*;
use vstd::string::*;
use crate::text::{chars_of, same_chars};

verus! {

/// A JSON value. Numbers keep their decimal text; an object keeps its
/// members in order, each key at most once.
#[derive(Debug)]
pub enum JsonValue {
    Null,
    Bool(bool),
    Number(String),
    String(String),
    Array(Vec<JsonValue>),
    Object(Vec<(String, JsonValue)>),
}

/// The value of the first member of `members` named `key`.
pub open spec fn member(members: Seq<(String, JsonValue)>, key: Seq<char>) -> Option<JsonValue>
    decreases members.len(),
{
    if members.len() == 0 {
        None
    } else if members[0].0@ == key {
        Some(members[0].1)
    } else {
        member(members.drop_first(), key)
    }
}

/// The member `key` of `v` when `v` is an object (`Value::get`).
pub open spec fn get_spec(v: JsonValue, key: Seq<char>) -> Option<JsonValue> {
    match v {
        JsonValue::Object(m) => member(m@, key),
        _ => None,
    }
}

impl JsonValue {
    /// The member named `key`, when this is an object that has one.
    pub fn get(&self, key: &str) -> (r: Option<&JsonValue>)
        ensures
            match r {
                Some(x) => get_spec(*self, key@) == Some(*x),
                None => get_spec(*self, key@) is None,
            },
    {
        match self {
            JsonValue::Object(m) => {
                let k = chars_of(key);
                assert(get_spec(*self, key@) == member(m@, key@));
                let mut i: usize = 0;
                assert(m@.skip(0) == m@);
                while i < m.len()
                    invariant
                        i <= m@.len(),
                        k@ == key@,
                        get_spec(*self, key@) == member(m@, key@),
                        member(m@, key@) == member(m@.skip(i as int), key@),
                    decreases m@.len() - i,
                {
                    assert(m@.skip(i as int).drop_first() == m@.skip(i + 1));
                    assert(m@.skip(i as int)[0] == m@[i as int]);
                    let name = chars_of(m[i].0.as_str());
                    if same_chars(name.as_slice(), k.as_slice()) {
                        assert(member(m@.skip(i as int), key@) == Some(m@[i as int].1));
                        return Some(&m[i].1);
                    }
                    i = i + 1;
                }
                None
            },
            _ => None,
        }
    }

    /// A JSON string holding `s`.
    pub fn from_text(s: &str) -> (v: JsonValue)
        ensures
            v matches JsonValue::String(t) && t@ == s@,
    {
        JsonValue::String(String::from_str(s))
    }
}

} // verus!
