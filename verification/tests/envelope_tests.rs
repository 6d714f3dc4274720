use cloudflare_kv_proxy::{decode_envelope, handle_response, Error};

fn envelope_with_result(inner: &str) -> String {
    let mut outer = serde_json::Map::new();
    outer.insert("result".to_string(), serde_json::Value::String(inner.to_string()));
    serde_json::to_string(&serde_json::Value::Object(outer)).unwrap()
}

#[test]
fn decode_success_envelope_yields_inner_document() {
    let body = envelope_with_result("42");
    assert_eq!(decode_envelope(&body), Ok("42".to_string()));
}

#[test]
fn decode_error_envelope_yields_api_error() {
    let body = "{\"code\": 1003, \"error\": \"quota\"}";
    assert_eq!(decode_envelope(body), Err(Error::Api(1003, "quota".to_string())));
}

#[test]
fn decode_non_json_body_is_transport_error() {
    let r = decode_envelope("not json at all");
    assert_eq!(r, Err(Error::Transport("malformed response body".to_string())));
}

#[test]
fn decode_envelope_without_known_fields_is_transport_error() {
    let r = decode_envelope("{\"other\": 1}");
    assert_eq!(r, Err(Error::Transport("unrecognized response envelope".to_string())));
}

#[test]
fn decode_error_code_out_of_range_is_not_api_error() {
    let r = decode_envelope("{\"code\": 70000, \"error\": \"x\"}");
    assert_eq!(r, Err(Error::Transport("unrecognized response envelope".to_string())));
}

#[test]
fn decode_prefers_error_shape_over_result() {
    let body = "{\"code\": 7, \"error\": \"boom\", \"result\": \"\\\"x\\\"\"}";
    assert_eq!(decode_envelope(body), Err(Error::Api(7, "boom".to_string())));
}

#[test]
fn envelope_round_trip_for_string() {
    let value = "balabala".to_string();
    let inner = serde_json::to_string(&value).unwrap();
    let body = envelope_with_result(&inner);
    let decoded_inner = decode_envelope(&body).unwrap();
    assert_eq!(decoded_inner, inner);
    let back: String = serde_json::from_str(&decoded_inner).unwrap();
    assert_eq!(back, value);
}

#[test]
fn envelope_round_trip_for_structured_value() {
    let mut v = serde_json::Map::new();
    v.insert("name".to_string(), serde_json::Value::String("red".to_string()));
    v.insert(
        "age".to_string(),
        serde_json::Value::Number(serde_json::Number::from(21u64)),
    );
    let value = serde_json::Value::Object(v);
    let inner = serde_json::to_string(&value).unwrap();
    let body = envelope_with_result(&inner);
    let decoded_inner = decode_envelope(&body).unwrap();
    let back: serde_json::Value = serde_json::from_str(&decoded_inner).unwrap();
    assert_eq!(back, value);
}

#[test]
fn status_404_is_typed_not_found() {
    assert_eq!(handle_response(404, ""), Err(Error::NotFound));
}

#[test]
fn status_401_is_typed_unauthorized() {
    assert_eq!(handle_response(401, ""), Err(Error::Unauthorized));
}

#[test]
fn status_400_is_typed_bad_request() {
    assert_eq!(handle_response(400, ""), Err(Error::BadRequest));
}

#[test]
fn other_failing_status_is_transport_error() {
    assert!(matches!(handle_response(500, ""), Err(Error::Transport(_))));
}

#[test]
fn success_status_with_api_error_envelope() {
    let r = handle_response(200, "{\"code\": 1003, \"error\": \"quota\"}");
    assert_eq!(r, Err(Error::Api(1003, "quota".to_string())));
}

#[test]
fn success_status_with_result_envelope() {
    let body = envelope_with_result("\"balabala\"");
    assert_eq!(handle_response(200, &body), Ok("\"balabala\"".to_string()));
}
