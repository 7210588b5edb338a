//! What the answer to a data query means: the observations as JSON, or the
//! reason why there are none.

use vstd::prelude::*;
use vstd::string::*;
use crate::error::QuandlError;
use crate::text::{decimal, push_decimal};

verus! {

/// A JSON value of any shape. The observations of a dataset come as one.
#[verifier::external_type_specification]
#[verifier::external_body]
pub struct ExJsonValue(serde_json::Value);

/// The value that the JSON decoder reads from `body`; `None` where it reads
/// none.
pub uninterp spec fn json_value(body: Seq<u8>) -> Option<serde_json::Value>;

/// The text in which a JSON value shows itself for diagnostics.
pub uninterp spec fn json_debug(value: serde_json::Value) -> Seq<char>;

/// Calls `serde_json::from_slice` for a `Value`. The contract claims only
/// that the outcome depends on the bytes of `body` alone.
#[verifier::external_body]
fn parse_json(body: &[u8]) -> (r: Result<serde_json::Value, serde_json::Error>)
    ensures
        match r {
            Ok(value) => json_value(body@) == Some(value),
            Err(_) => json_value(body@).is_none(),
        },
{
    serde_json::from_slice(body)
}

/// Renders a JSON value with its `Debug` impl. The contract claims only that
/// the text depends on the value alone.
#[verifier::external_body]
fn debug_text(value: &serde_json::Value) -> (text: String)
    ensures
        text@ == json_debug(*value),
{
    format!("{:?}", value)
}

/// How the report of a rejected request begins: it names the HTTP status.
pub open spec fn failure_prefix(status: u16) -> Seq<char> {
    "quandl request failed with code `"@ + decimal(status as nat) + "` and response: "@
}

/// The report of a request that the service rejected with the given status
/// and payload.
pub open spec fn failure_message(status: u16, payload: Seq<char>) -> Seq<char> {
    failure_prefix(status) + payload
}

/// The error for a request that the service rejected with the given HTTP
/// status and the given payload, written out.
pub fn request_failure(status: u16, payload: &str) -> (e: QuandlError)
    ensures
        e matches QuandlError::Quandl(message) && message@ == failure_message(status, payload@),
{
    let mut message = String::from_str("quandl request failed with code `");
    push_decimal(&mut message, status as u64);
    message.append("` and response: ");
    message.append(payload);
    assert(message@ =~= failure_message(status, payload@));
    QuandlError::Quandl(message)
}

/// What a data query comes to, given the HTTP status of the answer and what
/// the JSON decoder made of its body: `None` where the body is not JSON, else
/// the decoded value where the status is 200, and else the report of the
/// rejection, which names the status and shows the decoded payload.
pub open spec fn response_model(status: u16, value: Option<serde_json::Value>) -> Option<
    Result<serde_json::Value, Seq<char>>,
> {
    match value {
        None => None,
        Some(value) => if status == 200 {
            Some(Ok(value))
        } else {
            Some(Err(failure_message(status, json_debug(value))))
        },
    }
}

/// What a data query comes to, given the HTTP status of the answer and what
/// the JSON decoder made of its body. A body that is not JSON is a decoding
/// error whatever the status; with status 200 the decoded value is the result;
/// with any other status the request failed, and the error names the status
/// and shows the decoded payload.
pub fn response_outcome(status: u16, parsed: Result<serde_json::Value, serde_json::Error>) -> (r:
    Result<serde_json::Value, QuandlError>)
    ensures
        match parsed {
            Err(e) => r == Err::<serde_json::Value, QuandlError>(QuandlError::SerdeJson(e)),
            Ok(value) => if status == 200 {
                r == Ok::<serde_json::Value, QuandlError>(value)
            } else {
                r matches Err(QuandlError::Quandl(message)) && message@ == failure_message(
                    status,
                    json_debug(value),
                )
            },
        },
{
    match parsed {
        Err(e) => Err(QuandlError::SerdeJson(e)),
        Ok(value) => {
            if status == 200 {
                Ok(value)
            } else {
                let payload = debug_text(&value);
                Err(request_failure(status, payload.as_str()))
            }
        },
    }
}

/// What a data query comes to, given the HTTP status and the body of the
/// answer: the decoded body where the status is 200 and the body is JSON, a
/// decoding error where the body is not JSON, and else the service's
/// rejection, which names the status and shows the decoded body.
pub fn read_response(status: u16, body: &[u8]) -> (r: Result<serde_json::Value, QuandlError>)
    ensures
        match response_model(status, json_value(body@)) {
            None => r matches Err(QuandlError::SerdeJson(_)),
            Some(Ok(value)) => r == Ok::<serde_json::Value, QuandlError>(value),
            Some(Err(text)) => r matches Err(QuandlError::Quandl(message)) && message@ == text,
        },
{
    response_outcome(status, parse_json(body))
}

} // verus!
