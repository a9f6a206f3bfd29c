//! The boundary to the JSON parser of the serde_json crate: dump text goes
//! in, the library's own structured value comes out. Everything after this
//! point is verified against `json_of`, the name given here to what a text
//! parses to.
use vstd::prelude::*;

use crate::json::Json;

verus! {

#[verifier::external_type_specification]
#[verifier::external_body]
pub struct ExValue(serde_json::Value);

/// The structured value a well-formed JSON text parses to, or nothing for a
/// text that is not well-formed. A function of the text alone.
pub uninterp spec fn json_of(s: Seq<char>) -> Option<Json>;

/// Converts one parsed value into the library's own tree, variant by
/// variant. Relies on serde_json::Value: its six variants cover every
/// value, `Number::as_u64` / `as_i64` tell unsigned, negative and other
/// numbers apart, and the member map iterates in key order.
#[verifier::external_body]
fn json_from_value(v: serde_json::Value) -> Json {
    match v {
        serde_json::Value::Null => Json::Null,
        serde_json::Value::Bool(b) => Json::Bool(b),
        serde_json::Value::Number(n) => match (n.as_u64(), n.as_i64()) {
            (Some(u), _) => Json::UInt(u),
            (None, Some(i)) => Json::IInt(i),
            (None, None) => Json::OtherNum,
        },
        serde_json::Value::String(s) => Json::Text(s),
        serde_json::Value::Array(a) => Json::List(a.into_iter().map(json_from_value).collect()),
        serde_json::Value::Object(m) => Json::Object(
            m.into_iter().map(|(k, w)| (k, json_from_value(w))).collect(),
        ),
    }
}

/// Relies on serde_json::from_str::<serde_json::Value>: it parses exactly
/// the well-formed JSON texts, deterministically in the text alone — its
/// member map holds entries ordered by key, later duplicates replacing
/// earlier ones — and the result is converted by `json_from_value`.
#[verifier::external_body]
pub(crate) fn parse_json_text(s: &str) -> (r: Option<Json>)
    ensures
        r == json_of(s@),
{
    match serde_json::from_str::<serde_json::Value>(s) {
        Ok(v) => Some(json_from_value(v)),
        Err(_) => None,
    }
}

} // verus!
