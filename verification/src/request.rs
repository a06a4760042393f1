//! The signed request that a transport has to send, and the answer's status.
use crate::headers::is_visible_text;
use reqwest::header::{HeaderMap, HeaderValue};
use std::time::Duration;
use vstd::prelude::*;

verus! {

/// A request with its address and all of its headers, ready to be sent once.
pub struct SignedRequest {
    /// The HTTP method, one that the transport accepts.
    pub method: String,
    /// The address, with the signature in it where the dialect signs the query.
    pub url: String,
    /// All headers, with the signature among them where the dialect signs
    /// the headers.
    pub headers: HeaderMap<HeaderValue>,
    /// The query that the transport has to attach to the address.
    pub query: Vec<(String, String)>,
    /// The body, if there is one.
    pub body: Option<String>,
    /// The time allowed for the call, if it is limited.
    pub timeout: Option<Duration>,
}

/// The span of a number of whole seconds.
pub uninterp spec fn duration_of_seconds(seconds: u64) -> Duration;

/// Calls `Duration::from_secs`. Claims that the span depends on the number
/// alone.
#[verifier::external_body]
pub(crate) fn seconds(n: u64) -> (r: Duration)
    ensures
        r == duration_of_seconds(n),
{
    Duration::from_secs(n)
}

/// The time that the borrowing clients allow for a call unless told
/// otherwise: 30 seconds.
pub open spec fn default_timeout() -> Option<Duration> {
    Some(duration_of_seconds(30))
}

/// The name and version that the library gives as its agent.
pub open spec fn agent_text() -> Seq<char> {
    "aliyun-openapi-core-rust-sdk/1.0.0"@
}

/// The name and version that the library gives as its agent.
pub fn agent() -> (r: &'static str)
    ensures
        r@ == agent_text(),
        is_visible_text(r@),
{
    proof {
        reveal_strlit("aliyun-openapi-core-rust-sdk/1.0.0");
    }
    "aliyun-openapi-core-rust-sdk/1.0.0"
}

/// Tells whether an HTTP status is one of success: 200 to 299.
pub fn status_is_success(status: u16) -> (r: bool)
    ensures
        r == (200 <= status < 300),
{
    300 > status && status >= 200
}

/// `r` is the refusal of a request whose date could not be written: the
/// error holds what the formatter said.
pub open spec fn is_date_refusal(r: Result<SignedRequest, crate::client::error::Error>) -> bool {
    r matches Err(crate::client::error::Error::InvalidRequest(m))
        && "Invalid RFC 1123 Date: "@.is_prefix_of(m@)
}

/// The error of a request whose date could not be written.
pub(crate) fn date_refusal(text: &str) -> (r: Result<SignedRequest, crate::client::error::Error>)
    ensures
        is_date_refusal(r),
        r matches Err(crate::client::error::Error::InvalidRequest(m)) && m@
            == "Invalid RFC 1123 Date: "@ + text@,
{
    let m = crate::text::concat2("Invalid RFC 1123 Date: ", text);
    assert(m@.subrange(0, "Invalid RFC 1123 Date: "@.len() as int) =~= "Invalid RFC 1123 Date: "@);
    Err(crate::client::error::Error::InvalidRequest(m))
}

/// `r` is the refusal of a request whose time stamp could not be written:
/// the error holds what the formatter said.
pub open spec fn is_timestamp_refusal(r: Result<SignedRequest, crate::client::error::Error>) -> bool {
    r matches Err(crate::client::error::Error::InvalidRequest(m))
        && "Invalid ISO 8601 Date: "@.is_prefix_of(m@)
}

/// The error of a request whose time stamp could not be written.
pub(crate) fn timestamp_refusal(text: &str) -> (r: Result<
    SignedRequest,
    crate::client::error::Error,
>)
    ensures
        is_timestamp_refusal(r),
        r matches Err(crate::client::error::Error::InvalidRequest(m)) && m@
            == "Invalid ISO 8601 Date: "@ + text@,
{
    let m = crate::text::concat2("Invalid ISO 8601 Date: ", text);
    assert(m@.subrange(0, "Invalid ISO 8601 Date: "@.len() as int) =~= "Invalid ISO 8601 Date: "@);
    Err(crate::client::error::Error::InvalidRequest(m))
}

/// The text of the error for a method that the transport does not accept.
pub open spec fn invalid_method_text() -> Seq<char> {
    "Invalid HTTP method: invalid HTTP method"@
}

/// The text of the error for a parameter list in which a key occurs twice.
pub open spec fn duplicate_parameter_text() -> Seq<char> {
    "Duplicate query parameter"@
}

} // verus!
