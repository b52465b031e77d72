//! The JSON calls the engine makes.

use vstd::prelude::*;

verus! {

#[verifier::external_type_specification]
#[verifier::external_body]
pub struct ExValue(serde_json::Value);

/// The integer a JSON text holds, when the whole text is one integer that
/// fits in an `i32`.
pub uninterp spec fn json_i32_of(b: Seq<u8>) -> Option<i32>;

/// The elements of a JSON text, when the whole text is one array.
pub uninterp spec fn json_array_of(b: Seq<u8>) -> Option<Seq<serde_json::Value>>;

/// The JSON text of an array of values.
pub uninterp spec fn json_text_of(v: Seq<serde_json::Value>) -> Seq<u8>;

/// Relies on `serde_json::from_slice::<i32>`: the text as one integer.
#[verifier::external_body]
pub(crate) fn parse_code(b: &Vec<u8>) -> (r: Option<i32>)
    ensures
        r == json_i32_of(b@),
{
    serde_json::from_slice::<i32>(b).ok()
}

/// Relies on `serde_json::from_slice::<Vec<Value>>`: the text as an array,
/// element by element.
#[verifier::external_body]
pub(crate) fn parse_array(b: &Vec<u8>) -> (r: Option<Vec<serde_json::Value>>)
    ensures
        match json_array_of(b@) {
            Some(a) => r is Some && r->Some_0@ == a,
            None => r is None,
        },
{
    serde_json::from_slice::<Vec<serde_json::Value>>(b).ok()
}

/// Relies on `serde_json::to_vec`: the JSON text of the request batch. It
/// fails only where a `Serialize` impl fails or a map has non-string keys,
/// neither of which a `Value` can hold.
#[verifier::external_body]
pub(crate) fn write_batch(requests: &Vec<serde_json::Value>) -> (r: Option<Vec<u8>>)
    ensures
        r is Some && r->Some_0@ == json_text_of(requests@),
{
    serde_json::to_vec(requests).ok()
}

} // verus!
