//! Request bodies as bytes.

use serde::{Deserialize, Serialize};
use vstd::prelude::*;
use vstd::slice::*;
use vstd::string::*;
use vstd::utf8::*;
use crate::error::ZizqError;
use crate::format::Format;
use crate::json::{Json, Value};
use crate::json_text::{compact, write_compact};
use crate::number_text::{has_valid_numbers, numbers_hold};

verus! {

/// The MessagePack form of a JSON text, where it has one.
pub uninterp spec fn msgpack_form(json: Seq<char>) -> Option<Seq<u8>>;

/// `rmp_serde::Serializer`, with field names kept, on the value that
/// `serde_json` reads from the given text, object entries in the order of
/// the text: its MessagePack form, which depends on the text alone. What
/// the error says is left open.
#[verifier::external_body]
fn json_to_msgpack(json: &str) -> (r: Result<Vec<u8>, String>)
    ensures
        r is Ok == msgpack_form(json@) is Some,
        r matches Ok(bytes) ==> msgpack_form(json@) == Some(bytes@),
{
    let mut reader = serde_json::Deserializer::from_str(json);
    reader.disable_recursion_limit();
    let value = serde_json::Value::deserialize(&mut reader).map_err(|e| e.to_string())?;
    reader.end().map_err(|e| e.to_string())?;
    let mut bytes = Vec::new();
    let mut ser = rmp_serde::Serializer::new(&mut bytes).with_struct_map().with_human_readable();
    value.serialize(&mut ser).map_err(|e| e.to_string())?;
    Ok(bytes)
}

/// The bytes of a body in `format`. A body that holds a number which JSON
/// does not know has none.
pub open spec fn body_bytes(v: Json, format: Format) -> Option<Seq<u8>> {
    if !numbers_hold(v) {
        None
    } else {
        match format {
            Format::Json => Some(encode_utf8(compact(v))),
            Format::MessagePack => msgpack_form(compact(v)),
        }
    }
}

/// Encodes a request body.
pub fn encode_body(body: &Value, format: Format) -> (r: Result<Vec<u8>, ZizqError>)
    ensures
        match body_bytes(body@, format) {
            Some(bytes) => r matches Ok(out) && out@ == bytes,
            None => r matches Err(ZizqError::Encode(_)),
        },
{
    if !has_valid_numbers(body) {
        return Err(ZizqError::Encode("a number is not a JSON number".to_owned()));
    }
    let mut text = String::new();
    write_compact(body, &mut text);
    assert(text@ =~= compact(body@));
    match format {
        Format::Json => Ok(slice_to_vec(text.as_str().as_bytes())),
        Format::MessagePack => match json_to_msgpack(text.as_str()) {
            Ok(bytes) => Ok(bytes),
            Err(e) => Err(ZizqError::Encode(e)),
        },
    }
}

} // verus!
