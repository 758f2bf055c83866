//! Server-side jq filter expressions built from JSON values.

use vstd::prelude::*;
use vstd::string::*;
use crate::error::ZizqError;
use crate::json::{Json, Value};
use crate::json_text::{canonical, compact, write_canonical, write_compact};
use crate::text::{decimal, decimal_text};

verus! {

/// A jq expression that matches jobs whose payload equals `value`.
pub fn jq_eq(value: &Value) -> (r: Result<String, ZizqError>)
    ensures
        r matches Ok(text) && text@ == ". == "@ + compact(value@),
{
    let mut out = ". == ".to_owned();
    write_compact(value, &mut out);
    Ok(out)
}

/// A jq expression that matches jobs whose payload contains `value`.
pub fn jq_contains(value: &Value) -> (r: Result<String, ZizqError>)
    ensures
        r matches Ok(text) && text@ == ". | contains("@ + compact(value@) + ")"@,
{
    let mut out = ". | contains(".to_owned();
    write_compact(value, &mut out);
    out.append(")");
    Ok(out)
}

/// A jq expression that matches jobs whose payload array begins with the
/// items of `value`, which must be an array.
pub fn jq_array_prefix_eq(value: &Value) -> (r: Result<String, ZizqError>)
    ensures
        match value@ {
            Json::Arr(items) => r matches Ok(text) && text@ == ".[0:"@ + decimal(items.len())
                + "] == "@ + canonical(value@),
            _ => r matches Err(ZizqError::Encode(message)) && message@
                == "jq_array_prefix_eq expects a value that serialises to a JSON array"@,
        },
{
    match value {
        Value::Array(items) => {
            let mut out = ".[0:".to_owned();
            out.append(decimal_text(items.len() as u64).as_str());
            out.append("] == ");
            write_canonical(value, &mut out);
            Ok(out)
        },
        _ => Err(
            ZizqError::Encode(
                "jq_array_prefix_eq expects a value that serialises to a JSON array".to_owned(),
            ),
        ),
    }
}

} // verus!
