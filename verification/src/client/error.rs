//! The error of the clients.
use crate::text::concat2;
use reqwest::header::InvalidHeaderValue;
use vstd::prelude::*;

verus! {

/// Why a header is refused.
#[derive(Debug)]
pub enum HeaderError {
    /// The name is not valid HTTP header syntax. Holds the name.
    Name(String),
    /// The value is not valid HTTP header syntax. Holds what the `http`
    /// crate said of it.
    Value(InvalidHeaderValue),
    /// The request holds more headers than the library lets a header map
    /// take.
    TooMany,
    /// The value of a header that is signed cannot be read as text.
    Unreadable,
}

/// Why a header is refused, as contracts speak of it.
pub enum HeaderFault {
    /// The name is not valid HTTP header syntax.
    Name(Seq<char>),
    /// The value is not valid HTTP header syntax.
    Value,
    /// The request holds too many headers.
    TooMany,
    /// The value of a header that is signed cannot be read as text.
    Unreadable,
}

impl View for HeaderError {
    type V = HeaderFault;

    open spec fn view(&self) -> HeaderFault {
        match self {
            HeaderError::Name(n) => HeaderFault::Name(n@),
            HeaderError::Value(_) => HeaderFault::Value,
            HeaderError::TooMany => HeaderFault::TooMany,
            HeaderError::Unreadable => HeaderFault::Unreadable,
        }
    }
}

/// The text that says why a header is refused.
pub open spec fn header_fault_text(f: HeaderFault) -> Seq<char> {
    match f {
        HeaderFault::Name(_) => "invalid HTTP header name"@,
        HeaderFault::Value => "failed to parse header value"@,
        HeaderFault::TooMany => "too many headers"@,
        HeaderFault::Unreadable => "failed to convert header to a str"@,
    }
}

/// What can go wrong between configuring a request and reading its answer.
#[derive(Debug)]
pub enum Error {
    /// The transport failed: no connection, a timeout, an unreadable body.
    /// Holds the transport's own account of the failure.
    Reqwest(String),
    /// A header is not valid HTTP header syntax or cannot be signed, or
    /// there are too many.
    InvalidHeader(HeaderError),
    /// The request cannot be built from what the caller configured.
    InvalidRequest(String),
    /// The service answered with an error envelope.
    InvalidResponse { request_id: String, error_code: String, error_message: String },
}

/// The text of `Error::InvalidResponse` for the three fields.
pub open spec fn invalid_response_text(
    request_id: Seq<char>,
    error_code: Seq<char>,
    error_message: Seq<char>,
) -> Seq<char> {
    "Request id: "@ + request_id + ", Error code: "@ + error_code + ", Error message: "@
        + error_message
}

/// Calls `to_string` on an `InvalidHeaderValue`. Claims the fixed text that
/// its `Display` writes.
#[verifier::external_body]
fn invalid_header_value_text(e: &InvalidHeaderValue) -> (r: String)
    ensures
        r@ == "failed to parse header value"@,
{
    e.to_string()
}

impl Error {
    /// The error as a line of text.
    pub fn message(&self) -> (r: String)
        ensures
            self matches Error::Reqwest(m) ==> r@ == "Reqwest error: "@ + m@,
            self matches Error::InvalidHeader(h) ==> r@ == "InvalidHeader error: "@
                + header_fault_text(h@),
            self matches Error::InvalidRequest(m) ==> r@ == "Request error: "@ + m@,
            self matches Error::InvalidResponse { request_id, error_code, error_message } ==> r@
                == invalid_response_text(request_id@, error_code@, error_message@),
    {
        match self {
            Error::Reqwest(m) => concat2("Reqwest error: ", m.as_str()),
            Error::InvalidHeader(HeaderError::Name(_)) => concat2(
                "InvalidHeader error: ",
                "invalid HTTP header name",
            ),
            Error::InvalidHeader(HeaderError::Value(e)) => {
                let text = invalid_header_value_text(e);
                concat2("InvalidHeader error: ", text.as_str())
            },
            Error::InvalidHeader(HeaderError::TooMany) => concat2(
                "InvalidHeader error: ",
                "too many headers",
            ),
            Error::InvalidHeader(HeaderError::Unreadable) => concat2(
                "InvalidHeader error: ",
                "failed to convert header to a str",
            ),
            Error::InvalidRequest(m) => concat2("Request error: ", m.as_str()),
            Error::InvalidResponse { request_id, error_code, error_message } => {
                let mut r = String::from_str("Request id: ");
                r.append(request_id.as_str());
                r.append(", Error code: ");
                r.append(error_code.as_str());
                r.append(", Error message: ");
                r.append(error_message.as_str());
                r
            },
        }
    }
}

} // verus!
