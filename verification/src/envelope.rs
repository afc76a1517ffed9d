//! The response envelope unwrapper: locates the record array inside a
//! response, whether the response is the array itself or an object holding
//! it under a schema-named key.
//!
//! When the array cannot be located and the response is an object carrying
//! a string under "message", that text is surfaced as a server-reported
//! error; any other shape is a malformed envelope naming the expected key.

use vstd::prelude::*;
use crate::error::{Error, ErrorModel};
use crate::json::{JsonValue, obj_lookup, object_get};

verus! {

/// The error for an object that holds no record array: the server's own
/// message where it reports one, a malformed envelope otherwise.
pub open spec fn spec_envelope_error(
    fields: Seq<(String, JsonValue)>,
    key: Option<Seq<char>>,
) -> ErrorModel {
    match obj_lookup(fields, "message"@) {
        Some(JsonValue::Str(m)) => ErrorModel::ServerError { message: m@ },
        _ => ErrorModel::MalformedEnvelope { expected_key: key },
    }
}

/// Locates the raw record sequence: with no key the response must be an
/// array; with a key it must be an object holding an array under that key.
pub open spec fn spec_unwrap_envelope(v: JsonValue, key: Option<Seq<char>>) -> Result<
    Seq<JsonValue>,
    ErrorModel,
> {
    match key {
        None => match v {
            JsonValue::Array(items) => Ok(items@),
            JsonValue::Object(fields) => Err(spec_envelope_error(fields@, None)),
            _ => Err(ErrorModel::MalformedEnvelope { expected_key: None }),
        },
        Some(k) => match v {
            JsonValue::Object(fields) => match obj_lookup(fields@, k) {
                Some(JsonValue::Array(items)) => Ok(items@),
                Some(_) => Err(ErrorModel::MalformedEnvelope { expected_key: Some(k) }),
                None => Err(spec_envelope_error(fields@, Some(k))),
            },
            _ => Err(ErrorModel::MalformedEnvelope { expected_key: Some(k) }),
        },
    }
}

/// The view of an optional key.
pub open spec fn opt_key_view(key: Option<String>) -> Option<Seq<char>> {
    match key {
        Some(k) => Some(k@),
        None => None,
    }
}

fn clone_opt_key(key: &Option<String>) -> (r: Option<String>)
    ensures
        opt_key_view(r) == opt_key_view(*key),
{
    match key {
        Some(k) => Some(k.clone()),
        None => None,
    }
}

fn envelope_error(fields: &Vec<(String, JsonValue)>, key: &Option<String>) -> (r: Error)
    ensures
        r@ == spec_envelope_error(fields@, opt_key_view(*key)),
{
    match object_get(fields, "message") {
        Some(JsonValue::Str(m)) => Error::ServerError { message: m.clone() },
        _ => Error::MalformedEnvelope { expected_key: clone_opt_key(key) },
    }
}

/// Locates the raw record array inside a response value, per the schema's
/// optional result key.  The record contents are not interpreted here.
pub fn unwrap_envelope<'a>(v: &'a JsonValue, key: &Option<String>) -> (r: Result<
    &'a Vec<JsonValue>,
    Error,
>)
    ensures
        match r {
            Ok(items) => spec_unwrap_envelope(*v, opt_key_view(*key)) == Ok::<_, ErrorModel>(
                items@,
            ),
            Err(e) => spec_unwrap_envelope(*v, opt_key_view(*key)) == Err::<Seq<JsonValue>, _>(
                e@,
            ),
        },
{
    match key {
        None => match v {
            JsonValue::Array(items) => Ok(items),
            JsonValue::Object(fields) => Err(envelope_error(fields, key)),
            _ => Err(Error::MalformedEnvelope { expected_key: None }),
        },
        Some(k) => match v {
            JsonValue::Object(fields) => match object_get(fields, k.as_str()) {
                Some(JsonValue::Array(items)) => Ok(items),
                Some(_) => Err(
                    Error::MalformedEnvelope { expected_key: Some(k.clone()) },
                ),
                None => Err(envelope_error(fields, key)),
            },
            _ => Err(Error::MalformedEnvelope { expected_key: Some(k.clone()) }),
        },
    }
}

} // verus!
