//! Readers that turn one dump value into a plain integer, in the two forms
//! the extraction logic uses.
use vstd::prelude::*;

use crate::json::Json;
use crate::text::parse_u32;
use crate::text::spec_parse_u32;

verus! {

/// What `value_as_u32` returns: a number already within `u32` range, or a
/// string spelling an unsigned decimal number; anything else is absent.
pub open spec fn spec_value_as_u32(v: Json) -> Option<u32> {
    match v {
        Json::UInt(n) => if n <= u32::MAX as u64 {
            Option::Some(n as u32)
        } else {
            Option::None
        },
        Json::Text(s) => spec_parse_u32(s@),
        _ => Option::None,
    }
}

/// A lenient read of an identity or priority field: numbers in range are
/// taken as they are, and numeric strings are parsed.
pub fn value_as_u32(value: &Json) -> (r: Option<u32>)
    ensures
        r == spec_value_as_u32(*value),
{
    match value {
        Json::UInt(n) => if *n <= 0xffff_ffffu64 {
            Some(*n as u32)
        } else {
            None
        },
        Json::Text(s) => parse_u32(s.as_str()),
        _ => None,
    }
}

/// What an index field yields: a non-negative dump number truncated to the
/// low 32 bits, as the selection indices of profiles and routes are read.
pub open spec fn spec_value_index(v: Json) -> Option<u32> {
    match v {
        Json::UInt(n) => Option::Some(n as u32),
        _ => Option::None,
    }
}

/// Reads an index field.
pub fn value_index(value: &Json) -> (r: Option<u32>)
    ensures
        r == spec_value_index(*value),
{
    match value {
        Json::UInt(n) => Some(#[verifier::truncate] (*n as u32)),
        _ => None,
    }
}

/// The member named `key` read as an index.
pub open spec fn spec_get_index(data: Json, key: Seq<char>) -> Option<u32> {
    match data.spec_get(key) {
        Option::Some(v) => spec_value_index(v),
        Option::None => Option::None,
    }
}

/// The member named `key` read leniently as a `u32`.
pub open spec fn spec_get_u32(data: Json, key: Seq<char>) -> Option<u32> {
    match data.spec_get(key) {
        Option::Some(v) => spec_value_as_u32(v),
        Option::None => Option::None,
    }
}

/// One element of a vector's deep view is the element's deep view.
pub proof fn lemma_vec_deep_view_index<T: DeepView>(v: Vec<T>, i: int)
    requires
        0 <= i < v@.len(),
    ensures
        v.deep_view().len() == v@.len(),
        v.deep_view()[i] == v@[i].deep_view(),
{
}

} // verus!
