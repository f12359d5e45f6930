use shodan_client::error::Error;
use shodan_client::response::{ShodanClientResponse, classify_response, resolve_fetch};

struct TotalPayload {
    total: u32,
}

impl<'de> serde::Deserialize<'de> for TotalPayload {
    fn deserialize<D: serde::Deserializer<'de>>(d: D) -> Result<Self, D::Error> {
        let v = serde_json::Value::deserialize(d)?;
        match v.get("total").and_then(|t| t.as_u64()) {
            Some(n) if n <= u32::MAX as u64 => Ok(TotalPayload { total: n as u32 }),
            _ => Err(serde::de::Error::custom("missing or invalid total")),
        }
    }
}

struct NamePayload {
    name: String,
}

impl<'de> serde::Deserialize<'de> for NamePayload {
    fn deserialize<D: serde::Deserializer<'de>>(d: D) -> Result<Self, D::Error> {
        let v = serde_json::Value::deserialize(d)?;
        match v.get("name").and_then(|t| t.as_str()) {
            Some(s) => Ok(NamePayload { name: s.to_string() }),
            None => Err(serde::de::Error::custom("missing name")),
        }
    }
}

#[test]
fn error_body_always_classifies_as_error() {
    // Whatever payload type a caller would decode into, the error shape wins
    // and the body is never handed on for payload decoding.
    let body = String::from("{\"error\": \"invalid query\"}");
    match classify_response(body) {
        ShodanClientResponse::Error(e) => assert_eq!(e.error, "invalid query"),
        ShodanClientResponse::Response(_) => panic!("error body classified as payload"),
    }
}

#[test]
fn error_body_wins_even_when_the_payload_would_match() {
    // A body that satisfies a payload schema and also carries an error field
    // still resolves to the error variant: the error shape is tried first.
    let body = String::from("{\"error\": \"over quota\", \"total\": 7}");
    match classify_response(body) {
        ShodanClientResponse::Error(e) => assert_eq!(e.error, "over quota"),
        ShodanClientResponse::Response(_) => panic!("error body classified as payload"),
    }
}

#[test]
fn well_formed_payload_body_passes_through_unchanged() {
    let body = String::from("{\"total\": 42, \"facets\": null}");
    match classify_response(body.clone()) {
        ShodanClientResponse::Response(b) => assert_eq!(b, body),
        ShodanClientResponse::Error(_) => panic!("payload body classified as error"),
    }
}

#[test]
fn non_string_error_field_is_not_the_error_shape() {
    let body = String::from("{\"error\": 17}");
    assert!(matches!(
        classify_response(body),
        ShodanClientResponse::Response(_)
    ));
}

#[test]
fn fetch_of_total_payload_succeeds() {
    let exchange = Ok(String::from("{\"total\": 42}"));
    let body = resolve_fetch(exchange).unwrap();
    let payload: TotalPayload = serde_json::from_str(&body).unwrap();
    assert_eq!(payload.total, 42);
}

#[test]
fn fetch_of_error_body_is_a_service_error_not_a_decode_failure() {
    let exchange = Ok(String::from("{\"error\": \"no results\"}"));
    match resolve_fetch(exchange) {
        Err(Error::Shodan(message)) => assert_eq!(message, "no results"),
        other => panic!("expected a service error, got {other:?}"),
    }
}

#[test]
fn error_body_resolves_the_same_under_any_payload_type() {
    let exchange = Ok(String::from("{\"error\": \"no results\"}"));
    let body = resolve_fetch(exchange);
    assert!(matches!(body, Err(Error::Shodan(_))));
    // The resolution happened before any payload decoding: the same outcome
    // would be seen whether the caller wanted a TotalPayload or a NamePayload.
    let exchange_again = Ok(String::from("{\"error\": \"no results\"}"));
    match resolve_fetch(exchange_again) {
        Err(Error::Shodan(m)) => {
            let _would_decode_total: Result<TotalPayload, _> = serde_json::from_str("{}");
            let _would_decode_name: Result<NamePayload, _> = serde_json::from_str("{}");
            assert_eq!(m, "no results");
        }
        other => panic!("expected a service error, got {other:?}"),
    }
}

#[test]
fn transport_failure_resolves_to_a_transport_error() {
    let exchange: Result<String, String> = Err(String::from("connection refused"));
    match resolve_fetch(exchange) {
        Err(Error::Transport(message)) => assert_eq!(message, "connection refused"),
        other => panic!("expected a transport error, got {other:?}"),
    }
}

#[test]
fn payload_mismatch_surfaces_from_the_decoder() {
    let exchange = Ok(String::from("{\"unrelated\": true}"));
    let body = resolve_fetch(exchange).unwrap();
    let payload: Result<TotalPayload, _> = serde_json::from_str(&body);
    assert!(payload.is_err());
}

#[test]
fn error_messages_are_reachable_through_message() {
    let e = Error::Shodan(String::from("quota exhausted"));
    assert_eq!(e.message().as_str(), "quota exhausted");
    let t = Error::Transport(String::from("timed out"));
    assert_eq!(t.message().as_str(), "timed out");
    let u = Error::UrlConstruction(String::from("relative URL without a base"));
    assert_eq!(u.message().as_str(), "relative URL without a base");
    let d = Error::Decode(String::from("missing field"));
    assert_eq!(d.message().as_str(), "missing field");
}
