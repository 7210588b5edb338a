//! The failures that building a request or decoding a response can end in.

use vstd::prelude::*;

verus! {

/// What the JSON decoder reports of a body that is not JSON.
#[verifier::external_type_specification]
#[verifier::external_body]
pub struct ExJsonError(serde_json::Error);

/// What the date parser reports of a string that is no calendar date.
#[verifier::external_type_specification]
#[verifier::external_body]
pub struct ExDateParseError(chrono::format::ParseError);

/// What the URL parser reports of a string that is no absolute URL.
#[verifier::external_type_specification]
#[verifier::external_body]
pub struct ExUrlParseError(url::ParseError);

/// What the archive reader reports of bytes that are no ZIP archive, or of an
/// entry that it cannot unpack.
#[verifier::external_type_specification]
#[verifier::external_body]
pub struct ExZipError(zip::result::ZipError);

/// What the CSV reader reports of text that it cannot split into records.
#[verifier::external_type_specification]
#[verifier::external_body]
pub struct ExCsvError(quick_csv::error::Error);

/// Every way in which a call of this library can fail.
#[derive(Debug)]
pub enum QuandlError {
    /// A response body was not valid JSON.
    SerdeJson(serde_json::Error),
    /// A date string was not a valid calendar date.
    Chrono(chrono::format::ParseError),
    /// The service rejected the request, or a listing did not have the
    /// structure that the service promises.
    Quandl(String),
    /// The start date of a request would lie after its end date.
    Date(String),
    /// The request did not serialise to a well-formed URL.
    Url(url::ParseError),
    /// A listing was not a readable ZIP archive.
    Zip(zip::result::ZipError),
    /// The file inside a listing was not readable as CSV.
    Csv(quick_csv::error::Error),
}

} // verus!
