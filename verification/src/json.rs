//! A JSON value model: what the modules read from D-Bus replies and daemon
//! responses, held as plain values.

use vstd::prelude::*;
use crate::text::{chars_eq, chars_of};

verus! {

/// A JSON value. Integers keep their exact value; a number with a fraction
/// or exponent is `Real`, whose value the logic here never reads.
#[derive(Debug)]
pub enum Json {
    Null,
    Bool(bool),
    Int(i128),
    Real,
    Str(String),
    Array(Vec<Json>),
    Object(Vec<(String, Json)>),
}

/// The value under the first member named `key` of an object's members.
pub open spec fn spec_member(members: Seq<(String, Json)>, key: Seq<char>) -> Option<Json>
    decreases members.len(),
{
    if members.len() == 0 {
        None
    } else if members[0].0@ == key {
        Some(members[0].1)
    } else {
        spec_member(members.drop_first(), key)
    }
}

impl Json {
    /// The member `key` of an object; `None` for anything else.
    pub open spec fn spec_get(self, key: Seq<char>) -> Option<Json> {
        match self {
            Json::Object(members) => spec_member(members@, key),
            _ => None,
        }
    }

    pub open spec fn spec_as_str(self) -> Option<Seq<char>> {
        match self {
            Json::Str(s) => Some(s@),
            _ => None,
        }
    }

    pub open spec fn spec_as_bool(self) -> Option<bool> {
        match self {
            Json::Bool(b) => Some(b),
            _ => None,
        }
    }

    /// The integer, when it fits in an `i64`.
    pub open spec fn spec_as_i64(self) -> Option<i64> {
        match self {
            Json::Int(n) => if i64::MIN <= n <= i64::MAX { Some(n as i64) } else { None },
            _ => None,
        }
    }

    /// The integer, when it fits in a `u64`.
    pub open spec fn spec_as_u64(self) -> Option<u64> {
        match self {
            Json::Int(n) => if 0 <= n <= u64::MAX { Some(n as u64) } else { None },
            _ => None,
        }
    }

    pub open spec fn spec_as_array(self) -> Option<Seq<Json>> {
        match self {
            Json::Array(v) => Some(v@),
            _ => None,
        }
    }

    /// The member `key` of an object.
    pub fn get(&self, key: &str) -> (r: Option<&Json>)
        ensures
            r matches Some(v) ==> self.spec_get(key@) == Some(*v),
            r is None ==> self.spec_get(key@) is None,
    {
        match self {
            Json::Object(members) => {
                let k = chars_of(key);
                let mut i: usize = 0;
                assert(members@.subrange(0, members@.len() as int) == members@);
                while i < members.len()
                    invariant
                        k@ == key@,
                        self.spec_get(key@) == spec_member(members@, key@),
                        i <= members@.len(),
                        spec_member(members@, key@) == spec_member(
                            members@.subrange(i as int, members@.len() as int),
                            key@,
                        ),
                    decreases members@.len() - i,
                {
                    let ghost rest = members@.subrange(i as int, members@.len() as int);
                    assert(rest.drop_first() == members@.subrange(i + 1, members@.len() as int));
                    assert(rest[0] == members@[i as int]);
                    let name = chars_of(members[i].0.as_str());
                    if chars_eq(&name, &k) {
                        assert(rest[0].0@ == key@);
                        assert(spec_member(rest, key@) == Some(rest[0].1));
                        assert(self.spec_get(key@) == spec_member(members@, key@));
                        let v = &members[i].1;
                        assert(*v == rest[0].1);
                        return Some(v);
                    }
                    i = i + 1;
                }
                None
            },
            _ => None,
        }
    }

    pub fn as_str(&self) -> (r: Option<&String>)
        ensures
            r matches Some(s) ==> self.spec_as_str() == Some(s@) && *self == Json::Str(*s),
            r is None ==> self.spec_as_str() is None,
    {
        match self {
            Json::Str(s) => Some(s),
            _ => None,
        }
    }

    pub fn as_bool(&self) -> (r: Option<bool>)
        ensures
            r == self.spec_as_bool(),
    {
        match self {
            Json::Bool(b) => Some(*b),
            _ => None,
        }
    }

    pub fn as_i64(&self) -> (r: Option<i64>)
        ensures
            r == self.spec_as_i64(),
    {
        match self {
            Json::Int(n) => if i64::MIN as i128 <= *n && *n <= i64::MAX as i128 {
                Some(*n as i64)
            } else {
                None
            },
            _ => None,
        }
    }

    pub fn as_u64(&self) -> (r: Option<u64>)
        ensures
            r == self.spec_as_u64(),
    {
        match self {
            Json::Int(n) => if 0 <= *n && *n <= u64::MAX as i128 {
                Some(*n as u64)
            } else {
                None
            },
            _ => None,
        }
    }

    pub fn as_array(&self) -> (r: Option<&Vec<Json>>)
        ensures
            r matches Some(v) ==> self.spec_as_array() == Some(v@),
            r is None ==> self.spec_as_array() is None,
    {
        match self {
            Json::Array(v) => Some(v),
            _ => None,
        }
    }
}

} // verus!
