//! The JSON metadata codec, as serde_json provides it.

use vstd::prelude::*;

verus! {

#[verifier::external_type_specification]
#[verifier::external_body]
pub struct ExJsonValue(serde_json::Value);

/// Whether serde_json reads some bytes as exactly one JSON value, with
/// nothing but whitespace after it.
pub uninterp spec fn json_accepts(b: Seq<u8>) -> bool;

/// The value that serde_json reads from bytes it accepts.
pub uninterp spec fn json_value_of(b: Seq<u8>) -> serde_json::Value;

/// Relies on `serde_json::from_slice` into a `serde_json::Value`: it succeeds
/// exactly on the bytes that hold one JSON value, and both that and the value
/// read depend on the bytes alone.
#[verifier::external_body]
pub(crate) fn json_from_slice(b: &[u8]) -> (r: Result<serde_json::Value, serde_json::Error>)
    ensures
        r is Ok <==> json_accepts(b@),
        r matches Ok(v) ==> v == json_value_of(b@),
{
    serde_json::from_slice(b)
}

/// The indented JSON text that serde_json writes for a value.
pub uninterp spec fn pretty_json_of(v: serde_json::Value) -> Seq<u8>;

/// Relies on `serde_json::to_vec_pretty` on a `serde_json::Value`: the text
/// depends on the value alone, and it does not fail, since a value's object
/// keys are strings and writing into a `Vec` cannot fail.
#[verifier::external_body]
pub(crate) fn json_to_vec_pretty(v: &serde_json::Value) -> (r: Result<Vec<u8>, serde_json::Error>)
    ensures
        r is Ok,
        r matches Ok(j) ==> j@ == pretty_json_of(*v),
{
    serde_json::to_vec_pretty(v)
}

} // verus!
