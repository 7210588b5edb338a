use quandl_v3::error::QuandlError;
use quandl_v3::response::{read_response, request_failure, response_outcome};
use serde_json::{Number, Value};

fn sample() -> Value {
    let mut object = serde_json::Map::new();
    object.insert(String::from("code"), Value::String(String::from("QECx02")));
    object.insert(String::from("rows"), Value::Number(Number::from(3)));
    Value::Object(object)
}

#[test]
fn a_json_body_with_status_200_is_the_result() {
    let value = read_response(200, b"{\"rows\": 3, \"code\": \"QECx02\"}").unwrap();
    assert_eq!(value, sample());
    assert_eq!(read_response(200, b"[1, 2]").unwrap(), serde_json::from_str::<Value>("[1,2]").unwrap());
    assert_eq!(read_response(200, b"null").unwrap(), Value::Null);
}

#[test]
fn not_found_names_the_status_and_the_payload() {
    let body = b"{\"quandl_error\": {\"code\": \"QECx02\", \"message\": \"You have submitted an incorrect Quandl code.\"}}";
    match read_response(404, body) {
        Err(QuandlError::Quandl(message)) => {
            assert!(message.starts_with("quandl request failed with code `404` and response: "));
            assert!(message.contains("404"));
            assert!(message.contains("QECx02"));
            assert!(message.contains("You have submitted an incorrect Quandl code."));
            let decoded: Value = serde_json::from_slice(body).unwrap();
            assert_eq!(
                message,
                format!("quandl request failed with code `404` and response: {:?}", decoded)
            );
        }
        other => panic!("unexpected result: {:?}", other),
    }
}

#[test]
fn any_status_but_200_is_a_failure() {
    for status in [0u16, 100, 199, 201, 204, 301, 400, 429, 500, 503, 65535] {
        match read_response(status, b"{}") {
            Err(QuandlError::Quandl(message)) => assert_eq!(
                message,
                format!("quandl request failed with code `{}` and response: Object {{}}", status)
            ),
            other => panic!("unexpected result: {:?}", other),
        }
    }
}

#[test]
fn a_body_that_is_not_json_is_a_decoding_error() {
    assert!(matches!(read_response(200, b"<html>"), Err(QuandlError::SerdeJson(_))));
    assert!(matches!(read_response(200, b""), Err(QuandlError::SerdeJson(_))));
    assert!(matches!(read_response(404, b"Not Found"), Err(QuandlError::SerdeJson(_))));
    assert!(matches!(read_response(500, b"{\"a\": "), Err(QuandlError::SerdeJson(_))));
}

#[test]
fn outcome_for_each_decoder_result() {
    assert_eq!(response_outcome(200, Ok(sample())).unwrap(), sample());
    let broken = serde_json::from_str::<Value>("{").unwrap_err();
    let text = broken.to_string();
    match response_outcome(200, Err(broken)) {
        Err(QuandlError::SerdeJson(e)) => assert_eq!(e.to_string(), text),
        other => panic!("unexpected result: {:?}", other),
    }
    let broken = serde_json::from_str::<Value>("{").unwrap_err();
    assert!(matches!(response_outcome(404, Err(broken)), Err(QuandlError::SerdeJson(_))));
    match response_outcome(403, Ok(Value::Bool(true))) {
        Err(QuandlError::Quandl(message)) => {
            assert_eq!(message, "quandl request failed with code `403` and response: Bool(true)")
        }
        other => panic!("unexpected result: {:?}", other),
    }
}

#[test]
fn failure_message_is_written_out() {
    match request_failure(404, "payload") {
        QuandlError::Quandl(message) => {
            assert_eq!(message, "quandl request failed with code `404` and response: payload")
        }
        other => panic!("unexpected error: {:?}", other),
    }
    match request_failure(7, "") {
        QuandlError::Quandl(message) => {
            assert_eq!(message, "quandl request failed with code `7` and response: ")
        }
        other => panic!("unexpected error: {:?}", other),
    }
}
