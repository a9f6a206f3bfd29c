//! The schema-less structured value that one audio-subsystem dump is made of:
//! a tree of nested objects, arrays, strings, booleans and numbers. Extraction
//! drills through it with the chained-optional accessors defined here, each of
//! which yields a definite present/absent result.
use vstd::prelude::*;

use crate::text::str_eq;

verus! {

/// One structured value. Integers that fit a `u64` are `UInt`; negative
/// integers are `IInt`; any other number is `OtherNum`, which no extraction
/// routine reads.
pub enum Json {
    Null,
    Bool(bool),
    UInt(u64),
    IInt(i64),
    OtherNum,
    Text(String),
    List(Vec<Json>),
    Object(Vec<(String, Json)>),
}

/// The first value bound to `key` among `fields`, scanning left to right.
pub open spec fn spec_lookup(fields: Seq<(String, Json)>, key: Seq<char>) -> Option<Json>
    decreases fields.len(),
{
    if fields.len() == 0 {
        Option::None
    } else if fields[0].0@ == key {
        Option::Some(fields[0].1)
    } else {
        spec_lookup(fields.drop_first(), key)
    }
}

/// Skipping a prefix in which no key matches leaves the lookup unchanged.
proof fn lemma_lookup_skip(fields: Seq<(String, Json)>, key: Seq<char>, i: int)
    requires
        0 <= i <= fields.len(),
        forall|k: int| 0 <= k < i ==> (#[trigger] fields[k].0)@ != key,
    ensures
        spec_lookup(fields, key) == spec_lookup(fields.skip(i), key),
    decreases i,
{
    if i > 0 {
        lemma_lookup_skip(fields.drop_first(), key, i - 1);
        assert(fields.drop_first().skip(i - 1) =~= fields.skip(i));
    } else {
        assert(fields.skip(0) =~= fields);
    }
}

impl Json {
    /// The member of an object named `key`; absent on any other shape.
    pub open spec fn spec_get(self, key: Seq<char>) -> Option<Json> {
        match self {
            Json::Object(fields) => spec_lookup(fields@, key),
            _ => Option::None,
        }
    }

    /// The character sequence of a string value; absent on any other shape.
    pub open spec fn spec_as_text(self) -> Option<Seq<char>> {
        match self {
            Json::Text(s) => Option::Some(s@),
            _ => Option::None,
        }
    }

    /// The value as an unsigned 64-bit integer, if it is one.
    pub open spec fn spec_as_u64(self) -> Option<u64> {
        match self {
            Json::UInt(n) => Option::Some(n),
            _ => Option::None,
        }
    }

    /// The value as a signed 64-bit integer, if it can be represented as one.
    pub open spec fn spec_as_i64(self) -> Option<i64> {
        match self {
            Json::UInt(n) => if n <= i64::MAX as u64 {
                Option::Some(n as i64)
            } else {
                Option::None
            },
            Json::IInt(n) => Option::Some(n),
            _ => Option::None,
        }
    }

    /// The elements of an array value; absent on any other shape.
    pub open spec fn spec_as_list(self) -> Option<Seq<Json>> {
        match self {
            Json::List(items) => Option::Some(items@),
            _ => Option::None,
        }
    }

    /// The text of the member named `key`, when it exists and is a string.
    pub open spec fn spec_get_text(self, key: Seq<char>) -> Option<Seq<char>> {
        match self.spec_get(key) {
            Option::Some(v) => v.spec_as_text(),
            Option::None => Option::None,
        }
    }

    /// Object member lookup, as `get` with a string key behaves on a dump value.
    pub fn get<'a>(&'a self, key: &str) -> (r: Option<&'a Json>)
        ensures
            (match r {
                Option::Some(j) => (*self).spec_get(key@) == Option::Some(*j),
                Option::None => (*self).spec_get(key@) is None,
            }),
    {
        match self {
            Json::Object(fields) => {
                let n = fields.len();
                let mut i: usize = 0;
                while i < n
                    invariant
                        i <= n,
                        n == fields@.len(),
                        (*self).spec_get(key@) == spec_lookup(fields@, key@),
                        forall|k: int| 0 <= k < i ==> (#[trigger] fields@[k].0)@ != key@,
                    decreases n - i,
                {
                    let pair: &(String, Json) = &fields[i];
                    if str_eq(pair.0.as_str(), key) {
                        proof {
                            lemma_lookup_skip(fields@, key@, i as int);
                            assert(fields@.skip(i as int)[0] == fields@[i as int]);
                        }
                        return Some(&pair.1);
                    }
                    i += 1;
                }
                proof {
                    lemma_lookup_skip(fields@, key@, n as int);
                    assert(fields@.skip(n as int) =~= Seq::<(String, Json)>::empty());
                }
                None
            },
            _ => None,
        }
    }

    /// The text of the member named `key`, when it exists and is a string.
    pub fn get_str<'a>(&'a self, key: &str) -> (r: Option<&'a str>)
        ensures
            (match r {
                Option::Some(t) => (*self).spec_get_text(key@) == Option::Some(t@),
                Option::None => (*self).spec_get_text(key@) is None,
            }),
    {
        match self.get(key) {
            Some(v) => v.as_str(),
            None => None,
        }
    }

    /// The borrowed string slice of a string value.
    pub fn as_str<'a>(&'a self) -> (r: Option<&'a str>)
        ensures
            (match r {
                Option::Some(t) => (*self).spec_as_text() == Option::Some(t@),
                Option::None => (*self).spec_as_text() is None,
            }),
    {
        match self {
            Json::Text(s) => Some(s.as_str()),
            _ => None,
        }
    }

    /// The value as a `u64`, as a dump number is read.
    pub fn as_u64(&self) -> (r: Option<u64>)
        ensures
            r == (*self).spec_as_u64(),
    {
        match self {
            Json::UInt(n) => Some(*n),
            _ => None,
        }
    }

    /// The value as an `i64`, as a dump number is read.
    pub fn as_i64(&self) -> (r: Option<i64>)
        ensures
            r == (*self).spec_as_i64(),
    {
        match self {
            Json::UInt(n) => if *n <= 0x7fff_ffff_ffff_ffffu64 {
                Some(*n as i64)
            } else {
                None
            },
            Json::IInt(n) => Some(*n),
            _ => None,
        }
    }

    /// The borrowed elements of an array value.
    pub fn as_array<'a>(&'a self) -> (r: Option<&'a Vec<Json>>)
        ensures
            (match r {
                Option::Some(items) => (*self).spec_as_list() == Option::Some(items@),
                Option::None => (*self).spec_as_list() is None,
            }),
    {
        match self {
            Json::List(items) => Some(items),
            _ => None,
        }
    }
}

} // verus!
