//! The response envelope: every reply of the service decodes into either a
//! service-reported error or an endpoint payload.
//!
//! Selection is structural and the error shape wins: a JSON object carrying a
//! string field named `error` is classified as the error variant whatever the
//! payload type would accept; only a body without that field is handed on as
//! payload material. This precedence is part of the contract, not an accident
//! of the deserializer.

use vstd::prelude::*;

use crate::error::Error;

verus! {

/// The envelope: exactly one variant per response.
pub enum ShodanClientResponse<T> {
    Error(ErrorResponse),
    Response(T),
}

/// The error shape of the wire protocol: an object with a string `error`.
pub struct ErrorResponse {
    pub error: String,
}

/// The service-reported error message in a response body: the value of a
/// top-level string field named `error`, when the body is a JSON object
/// carrying one.
pub uninterp spec fn error_field_of(body: Seq<char>) -> Option<Seq<char>>;

/// Relies on `serde_json::from_str::<Value>`, `Value::get` and
/// `Value::as_str`: reads the top-level `error` field of a JSON object when
/// it is a string, and nothing otherwise. The result depends on the body
/// text alone.
#[verifier::external_body]
fn extract_error_field(body: &str) -> (r: Option<String>)
    ensures
        match r {
            Some(m) => error_field_of(body@) == Some(m@),
            None => error_field_of(body@) is None,
        },
{
    match serde_json::from_str::<serde_json::Value>(body) {
        Ok(v) => v.get("error").and_then(|f| f.as_str()).map(|s| s.to_string()),
        Err(_) => None,
    }
}

/// Classify a response body against the envelope.
///
/// The error shape is tried first: a body whose JSON carries a top-level
/// string `error` becomes the error variant with that message. Any other
/// body is the success variant and is handed back unchanged, ready to be
/// decoded as the endpoint's payload type.
pub fn classify_response(body: String) -> (r: ShodanClientResponse<String>)
    ensures
        match error_field_of(body@) {
            Some(m) => r matches ShodanClientResponse::Error(e) && e.error@ == m,
            None => r matches ShodanClientResponse::Response(b) && b@ == body@,
        },
{
    match extract_error_field(body.as_str()) {
        Some(message) => ShodanClientResponse::Error(ErrorResponse { error: message }),
        None => ShodanClientResponse::Response(body),
    }
}

/// Collapse one transport exchange into the fetch outcome.
///
/// A transport failure becomes [`Error::Transport`] with the transport's
/// message, and the body is never looked at. A delivered body whose JSON
/// carries a service-reported error becomes [`Error::Shodan`] with exactly
/// that message. Any other delivered body is returned unchanged for payload
/// decoding.
pub fn resolve_fetch(exchange: Result<String, String>) -> (r: Result<String, Error>)
    ensures
        match exchange {
            Err(t) => r matches Err(e) && e matches Error::Transport(m) && m == t,
            Ok(body) => match error_field_of(body@) {
                Some(m) => r matches Err(e) && e matches Error::Shodan(msg) && msg@ == m,
                None => r matches Ok(b) && b@ == body@,
            },
        },
{
    match exchange {
        Err(transport_message) => Err(Error::Transport(transport_message)),
        Ok(body) => match classify_response(body) {
            ShodanClientResponse::Error(e) => Err(Error::Shodan(e.error)),
            ShodanClientResponse::Response(b) => Ok(b),
        },
    }
}

} // verus!
