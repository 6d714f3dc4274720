//! The response envelope codec.
//!
//! The proxy wraps payloads twice: the outer body is JSON, and its `result`
//! field is itself a JSON document encoded as a string, to be parsed in a
//! second pass by the caller. A failure is the shape `{code, error}`.
//! Decoding runs in this order: parse the outer body; if it carries the
//! `code` + `error` shape, surface the structured API error; otherwise take
//! the `result` string. Either parse failure is a transport error.

use crate::errors::Error;
use vstd::prelude::*;
use vstd::string::StringExecFns;

verus! {

/// The fields of the outer envelope, as the JSON parser reads them:
/// whether the body parsed at all, then the `code`, `error` and `result`
/// fields where present with the right type.
pub struct EnvelopeFields {
    /// The outer body is well-formed JSON.
    pub parsed: bool,
    /// The `code` field, where present as a number.
    pub code: Option<u64>,
    /// The `error` field, where present as a string.
    pub error: Option<String>,
    /// The `result` field, where present as a string.
    pub result: Option<String>,
}

/// What the JSON parser reads out of an envelope body: parse success, then
/// the `code`, `error` and `result` fields. The result depends on the text
/// alone.
pub uninterp spec fn envelope_fields_of(body: Seq<char>) -> (bool, Option<u64>, Option<
    Seq<char>,
>, Option<Seq<char>>);

/// Relies on serde_json::from_str::<Value>, Value::get, Value::as_u64 and
/// Value::as_str: read the outer envelope's fields out of the body text.
#[verifier::external_body]
fn read_envelope_fields(body: &str) -> (r: EnvelopeFields)
    ensures
        r.parsed == envelope_fields_of(body@).0,
        r.code == envelope_fields_of(body@).1,
        (match (r.error, envelope_fields_of(body@).2) {
            (Some(s), Some(v)) => s@ == v,
            (None, None) => true,
            _ => false,
        }),
        (match (r.result, envelope_fields_of(body@).3) {
            (Some(s), Some(v)) => s@ == v,
            (None, None) => true,
            _ => false,
        }),
{
    match serde_json::from_str::<serde_json::Value>(body) {
        Ok(v) => EnvelopeFields {
            parsed: true,
            code: v.get("code").and_then(serde_json::Value::as_u64),
            error: v.get("error").and_then(serde_json::Value::as_str).map(str::to_owned),
            result: v.get("result").and_then(serde_json::Value::as_str).map(str::to_owned),
        },
        Err(_) => EnvelopeFields { parsed: false, code: None, error: None, result: None },
    }
}

/// The outcome owed once no error shape was found: the `result` string is
/// the inner document; its absence is a transport error.
pub open spec fn result_field_outcome(result: Option<Seq<char>>, r: Result<String, Error>) -> bool {
    match result {
        Some(inner) => r matches Ok(s) && s@ == inner,
        None => r matches Err(e) && e matches Error::Transport(m) && m@
            == "unrecognized response envelope"@,
    }
}

/// The outcome owed for a body whose envelope fields read as `fields`:
/// a body that is not JSON is a transport error; a `code` + `error` shape
/// (with the code in range) is the structured API error; otherwise the
/// `result` string is the inner document; anything else is a transport
/// error again.
pub open spec fn envelope_outcome(
    fields: (bool, Option<u64>, Option<Seq<char>>, Option<Seq<char>>),
    r: Result<String, Error>,
) -> bool {
    let (parsed, code, error, result) = fields;
    if !parsed {
        r matches Err(e) && e matches Error::Transport(m) && m@ == "malformed response body"@
    } else {
        match (code, error) {
            (Some(c), Some(msg)) => {
                if c <= u16::MAX {
                    r matches Err(e) && e matches Error::Api(rc, rm) && rc == c && rm@ == msg
                } else {
                    result_field_outcome(result, r)
                }
            },
            _ => result_field_outcome(result, r),
        }
    }
}

/// Decode the proxy's outer envelope: the structured error where the body
/// has the `code` + `error` shape, else the embedded `result` document for
/// the caller's second parse, else a transport error.
pub fn decode_envelope(body: &str) -> (r: Result<String, Error>)
    ensures
        envelope_outcome(envelope_fields_of(body@), r),
{
    let fields = read_envelope_fields(body);
    if !fields.parsed {
        return Err(Error::Transport(String::from_str("malformed response body")));
    }
    match (fields.code, fields.error) {
        (Some(c), Some(msg)) if c <= u16::MAX as u64 => {
            return Err(Error::Api(c as u16, msg));
        },
        _ => {},
    }
    match fields.result {
        Some(inner) => Ok(inner),
        None => Err(Error::Transport(String::from_str("unrecognized response envelope"))),
    }
}

} // verus!
