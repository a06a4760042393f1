//! What the HTTP crates say of an endpoint and of a method.
use vstd::prelude::*;

verus! {

/// The host of a URL as `Url::parse` and `Url::host_str` of the `url` crate
/// give it; nothing where the text is no URL or the URL has no host.
pub uninterp spec fn url_host(s: Seq<char>) -> Option<Seq<char>>;

/// True for a character that an HTTP method may hold: an ASCII letter or
/// digit, or one of ``!*+-.^_`|~``.
pub open spec fn is_method_char(c: char) -> bool {
    ('a' <= c <= 'z') || ('A' <= c <= 'Z') || ('0' <= c <= '9') || c == '!' || c == '*' || c == '+'
        || c == '-' || c == '.' || c == '^' || c == '_' || c == '`' || c == '|' || c == '~'
}

/// True for a text that the transport takes as an HTTP method: it is not
/// empty and each of its characters is one that a method may hold.
pub open spec fn is_http_method(s: Seq<char>) -> bool {
    s.len() > 0 && forall|i: int| 0 <= i < s.len() ==> is_method_char(#[trigger] s[i])
}

/// `GET`, `POST` and `PUT` are HTTP methods.
pub proof fn lemma_known_methods()
    ensures
        is_http_method("GET"@),
        is_http_method("POST"@),
        is_http_method("PUT"@),
{
    reveal_strlit("GET");
    reveal_strlit("POST");
    reveal_strlit("PUT");
}

/// Calls `Url::parse` and `Url::host_str`. The error holds the text of the
/// parse error, or the URL as the crate writes it where it has no host.
/// Claims that the host depends on the text alone.
#[verifier::external_body]
pub(crate) fn endpoint_host(s: &str) -> (r: Result<String, String>)
    ensures
        r is Ok == url_host(s@) is Some,
        r matches Ok(h) ==> url_host(s@) == Some(h@),
{
    match url::Url::parse(s) {
        Ok(u) => match u.host_str() {
            Some(h) => Ok(h.to_string()),
            None => Err(u.to_string()),
        },
        Err(e) => Err(e.to_string()),
    }
}

/// Calls `Method::from_bytes` of the `http` crate, as `str::parse` does.
/// Claims that it takes exactly the texts that are not empty and whose
/// bytes are all characters of a method, none of which is above 127.
#[verifier::external_body]
pub(crate) fn http_method_accepted(s: &str) -> (r: bool)
    ensures
        r == is_http_method(s@),
{
    reqwest::Method::from_bytes(s.as_bytes()).is_ok()
}

} // verus!
