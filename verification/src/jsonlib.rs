//! Trusted surface of the JSON value library. The library itself is an
//! outside collaborator: only the calls the server makes are declared here.
use vstd::prelude::*;

verus! {

#[verifier::external_type_specification]
#[verifier::external_body]
pub struct ExJsonValue(json::JsonValue);

/// What `json::JsonValue::dump` yields on a value: the compact
/// serialization, a function of the value alone.
pub uninterp spec fn json_text_of(v: json::JsonValue) -> Seq<char>;

/// Relies on `json::JsonValue::dump`: writes the compact serialization of
/// the value, which depends on the value alone.
#[verifier::external_body]
pub(crate) fn json_dump(value: &json::JsonValue) -> (r: String)
    ensures
        r@ == json_text_of(*value),
{
    value.dump()
}

} // verus!
