//! The header-signed dialects: the headers of a call and its signed request.
use crate::canonical::{
    header_signature, header_string_to_sign, is_signable, is_unreadable_header,
    lemma_string_to_sign_without_authorization,
};
use crate::client::error::{Error, HeaderError, HeaderFault};
use crate::endpoint::{endpoint_host, http_method_accepted, is_http_method, url_host};
use crate::headers::{
    fits, header_map_entries, HEADER_ROOM, is_header_value, is_visible_text,
    lemma_decimal_visible, lemma_fits_insert, lemma_known_names, lemma_user_headers_fit,
    set_header, set_text_header, USER_HEADER_LIMIT, user_headers_fit,
};
use crate::sign::{base64_standard, md5_base64, md5_digest};
use crate::text::{concat3, decimal, decimal_string, strip_prefix};
use crate::request::{invalid_method_text, SignedRequest};
use crate::sign::signature;
use crate::text::concat2;
use reqwest::header::{HeaderMap, HeaderValue};
use std::time::Duration;
use vstd::prelude::*;
use vstd::utf8::encode_utf8;

verus! {

/// A call of a header-signed dialect: what the client holds, the headers it
/// has so far, and the moment.
pub struct HeaderCall {
    pub headers: Map<Seq<char>, Seq<u8>>,
    pub access_key_id: Seq<char>,
    pub secret: Seq<char>,
    pub endpoint: Seq<char>,
    pub method: Seq<char>,
    pub uri: Seq<char>,
    pub query: Seq<(Seq<char>, Seq<char>)>,
    pub date: Seq<char>,
    pub nonce: Seq<char>,
}

/// Why a call cannot be signed.
pub enum Refusal {
    /// The endpoint is no URL with a host.
    Endpoint,
    /// A value is no header value.
    Header,
    /// A header of the canonical string cannot be read as text.
    Unreadable,
    /// The method is none that the transport accepts.
    Method,
}

/// The room that the library needs beside the caller's headers.
pub const SIGNING_ROOM: usize = 32;

/// The headers that are signed: those of the call with its host, its date
/// and its nonce.
pub open spec fn roa_signed_headers(c: HeaderCall) -> Map<Seq<char>, Seq<u8>> {
    c.headers.insert("host"@, encode_utf8(url_host(c.endpoint)->0)).insert(
        "date"@,
        encode_utf8(c.date),
    ).insert("x-acs-signature-nonce"@, encode_utf8(c.nonce))
}

/// The signature of the call.
pub open spec fn roa_signature(c: HeaderCall) -> Seq<char> {
    signature(
        c.secret,
        header_string_to_sign(c.method, roa_signed_headers(c), c.uri, c.query, false),
    )
}

/// The `Authorization` header: `acs`, the key id and the signature.
pub open spec fn roa_authorization(c: HeaderCall) -> Seq<char> {
    "acs "@ + c.access_key_id + ":"@ + roa_signature(c)
}

/// All headers of the signed request.
pub open spec fn roa_final_headers(c: HeaderCall) -> Map<Seq<char>, Seq<u8>> {
    roa_signed_headers(c).insert("authorization"@, encode_utf8(roa_authorization(c)))
}

/// The first reason, if any, for which the call cannot be signed.
pub open spec fn roa_refusal(c: HeaderCall) -> Option<Refusal> {
    if url_host(c.endpoint) is None {
        Some(Refusal::Endpoint)
    } else if !is_header_value(encode_utf8(url_host(c.endpoint)->0)) || !is_header_value(
        encode_utf8(c.date),
    ) || !is_header_value(encode_utf8(c.nonce)) {
        Some(Refusal::Header)
    } else if !is_signable(roa_signed_headers(c), false) {
        Some(Refusal::Unreadable)
    } else if !is_header_value(encode_utf8(roa_authorization(c))) {
        Some(Refusal::Header)
    } else if !is_http_method(c.method) {
        Some(Refusal::Method)
    } else {
        None
    }
}

/// `r` is the error of a refusal.
pub open spec fn is_refusal(r: Refusal, e: Error) -> bool {
    match r {
        Refusal::Endpoint => e matches Error::InvalidRequest(m) && "Invalid endpoint: "@.is_prefix_of(
            m@,
        ),
        Refusal::Header => e matches Error::InvalidHeader(h) && h@ == HeaderFault::Value,
        Refusal::Unreadable => is_unreadable_header(e),
        Refusal::Method => e matches Error::InvalidRequest(m) && m@ == invalid_method_text(),
    }
}

/// `q` is the signed request of the call: its address is the endpoint and
/// the path, its headers hold the signature, and query, body and timeout are
/// those of the call.
pub open spec fn roa_request_signed(
    c: HeaderCall,
    query: Vec<(String, String)>,
    body: Option<String>,
    timeout: Option<Duration>,
    q: SignedRequest,
) -> bool {
    &&& q.method@ == c.method
    &&& q.url@ == c.endpoint + c.uri
    &&& header_map_entries(q.headers) == roa_final_headers(c)
    &&& q.query == query
    &&& q.body == body
    &&& q.timeout == timeout
}

/// The digest of a body as the `content-md5` header holds it: the base64
/// of the MD5 digest of its bytes.
pub open spec fn body_md5_text(body: Seq<char>) -> Seq<char> {
    base64_standard(md5_digest(encode_utf8(body)))
}

/// The headers once a body is set: `content-length` holds the number of its
/// bytes, `content-md5` its digest.
pub open spec fn body_headers(h: Map<Seq<char>, Seq<u8>>, body: Seq<char>) -> Map<
    Seq<char>,
    Seq<u8>,
> {
    h.insert("content-length"@, encode_utf8(decimal(encode_utf8(body).len()))).insert(
        "content-md5"@,
        encode_utf8(body_md5_text(body)),
    )
}

/// The headers once a list of headers has taken the place of all headers:
/// those of the list and, where the request has a body, the two headers of
/// the body.
pub open spec fn replaced_headers(h: Map<Seq<char>, Seq<u8>>, body: Option<Seq<char>>) -> Map<
    Seq<char>,
    Seq<u8>,
> {
    match body {
        Some(b) => body_headers(h, b),
        None => h,
    }
}

/// The map holds the two headers of the body: the number of its bytes
/// under `content-length`, the base64 of its MD5 digest under `content-md5`.
pub open spec fn has_body_headers(h: Map<Seq<char>, Seq<u8>>, body: Seq<char>) -> bool {
    &&& h.dom().contains("content-length"@)
    &&& h["content-length"@] == encode_utf8(decimal(encode_utf8(body).len()))
    &&& h.dom().contains("content-md5"@)
    &&& h["content-md5"@] == encode_utf8(body_md5_text(body))
}

/// The headers that are sent agree with the body: with a body they hold
/// its two headers; without one they hold `content-length` and
/// `content-md5` only where the caller configured them.
pub open spec fn body_headers_agree(
    configured: Map<Seq<char>, Seq<u8>>,
    body: Option<Seq<char>>,
    sent: Map<Seq<char>, Seq<u8>>,
) -> bool {
    match body {
        Some(b) => has_body_headers(sent, b),
        None => sent.dom().contains("content-length"@) == configured.dom().contains(
            "content-length"@,
        ) && sent.dom().contains("content-md5"@) == configured.dom().contains("content-md5"@),
    }
}

/// The name is neither that of `content-length` nor that of `content-md5`.
pub open spec fn is_no_body_header(name: Seq<char>) -> bool {
    name != "content-length"@ && name != "content-md5"@
}

/// The headers that the library sets when it signs are other headers than
/// the two of a body.
pub proof fn lemma_body_header_names()
    ensures
        is_no_body_header("accept"@),
        is_no_body_header("x-acs-signature-method"@),
        is_no_body_header("x-acs-signature-version"@),
        is_no_body_header("user-agent"@),
        is_no_body_header("x-sdk-client"@),
        is_no_body_header("x-acs-version"@),
        is_no_body_header("host"@),
        is_no_body_header("date"@),
        is_no_body_header("x-acs-signature-nonce"@),
        is_no_body_header("authorization"@),
        is_no_body_header("x-log-bodyrawsize"@),
        is_no_body_header("x-log-apiversion"@),
        is_no_body_header("x-log-signaturemethod"@),
        "content-length"@ != "content-md5"@,
{
    reveal_strlit("x-acs-signature-version");
    reveal_strlit("accept");
    reveal_strlit("x-acs-signature-method");
    reveal_strlit("user-agent");
    reveal_strlit("x-sdk-client");
    reveal_strlit("x-acs-version");
    reveal_strlit("host");
    reveal_strlit("date");
    reveal_strlit("x-acs-signature-nonce");
    reveal_strlit("authorization");
    reveal_strlit("x-log-bodyrawsize");
    reveal_strlit("x-log-apiversion");
    reveal_strlit("x-log-signaturemethod");
    reveal_strlit("content-length");
    reveal_strlit("content-md5");
    assert("content-length"@.len() == 14 && "content-md5"@.len() == 11);
    assert("accept"@.len() == 6);
    assert("x-acs-signature-method"@.len() == 22);
    assert("x-acs-signature-version"@.len() == 23);
    assert("user-agent"@.len() == 10);
    assert("x-sdk-client"@.len() == 12);
    assert("x-acs-version"@.len() == 13);
    assert("host"@.len() == 4);
    assert("date"@.len() == 4);
    assert("x-acs-signature-nonce"@.len() == 21);
    assert("authorization"@.len() == 13);
    assert("x-log-bodyrawsize"@.len() == 17);
    assert("x-log-apiversion"@.len() == 16);
    assert("x-log-signaturemethod"@.len() == 21);
}

/// Sets the two headers of a body in a map that holds `n` headers at most.
pub(crate) fn put_body_headers(
    m: &mut HeaderMap<HeaderValue>,
    body: &str,
    Ghost(n): Ghost<nat>,
)
    requires
        fits(header_map_entries(*old(m)), n),
        n + 2 <= HEADER_ROOM,
    ensures
        header_map_entries(*final(m)) == body_headers(header_map_entries(*old(m)), body@),
        fits(header_map_entries(*final(m)), n + 2),
{
    let ghost h0 = header_map_entries(*m);
    let length = decimal_string(body.as_bytes().len());
    let digest = md5_base64(body);
    proof {
        lemma_known_names();
        lemma_decimal_visible(encode_utf8(body@).len());
        lemma_fits_insert(h0, n, "content-length"@, encode_utf8(length@));
        assert(is_visible_text(digest@));
    }
    set_text_header(m, "content-length", length.as_str());
    let ghost h1 = header_map_entries(*m);
    proof {
        lemma_fits_insert(h1, n + 1, "content-md5"@, encode_utf8(digest@));
    }
    set_text_header(m, "content-md5", digest.as_str());
}

/// Sets the two headers of a body beside the caller's headers.
pub(crate) fn set_body_headers(m: &mut HeaderMap<HeaderValue>, body: &str)
    requires
        user_headers_fit(header_map_entries(*old(m))),
    ensures
        header_map_entries(*final(m)) == body_headers(header_map_entries(*old(m)), body@),
        user_headers_fit(header_map_entries(*final(m))),
{
    let ghost h0 = header_map_entries(*m);
    proof {
        lemma_user_headers_fit(
            h0,
            encode_utf8(decimal(encode_utf8(body@).len())),
            encode_utf8(body_md5_text(body@)),
        );
    }
    put_body_headers(m, body, Ghost((USER_HEADER_LIMIT + 2) as nat));
}

/// The signature in the `Authorization` header of a signed request is the
/// one that signing the canonical string of that request again gives: the
/// canonical string made of all headers of the request is the one that was
/// signed.
pub proof fn lemma_roa_round_trip(c: HeaderCall)
    requires
        c.headers.dom().finite(),
    ensures
        header_string_to_sign(c.method, roa_final_headers(c), c.uri, c.query, false)
            == header_string_to_sign(c.method, roa_signed_headers(c), c.uri, c.query, false),
        roa_authorization(c) == "acs "@ + c.access_key_id + ":"@ + signature(
            c.secret,
            header_string_to_sign(c.method, roa_final_headers(c), c.uri, c.query, false),
        ),
{
    lemma_string_to_sign_without_authorization(
        c.method,
        roa_signed_headers(c),
        c.uri,
        c.query,
        false,
        encode_utf8(roa_authorization(c)),
    );
}

/// The error for a method that the transport does not accept.
pub(crate) fn invalid_method() -> (r: Error)
    ensures
        r matches Error::InvalidRequest(m) && m@ == invalid_method_text(),
{
    Error::InvalidRequest(String::from_str("Invalid HTTP method: invalid HTTP method"))
}

/// Signs a call of the resource dialect: adds the host, the date, the nonce
/// and the `Authorization` header and gives the request to send.
pub(crate) fn sign_roa_call(
    headers: HeaderMap<HeaderValue>,
    access_key_id: &str,
    secret: &str,
    endpoint: &str,
    method: String,
    uri: &str,
    query: Vec<(String, String)>,
    body: Option<String>,
    timeout: Option<Duration>,
    date: &str,
    nonce: &str,
) -> (r: Result<SignedRequest, Error>)
    requires
        fits(header_map_entries(headers), (USER_HEADER_LIMIT + SIGNING_ROOM) as nat),
    ensures
        match roa_refusal(
            HeaderCall {
                headers: header_map_entries(headers),
                access_key_id: access_key_id@,
                secret: secret@,
                endpoint: endpoint@,
                method: method@,
                uri: uri@,
                query: query.deep_view(),
                date: date@,
                nonce: nonce@,
            },
        ) {
            Some(refusal) => r matches Err(e) && is_refusal(refusal, e),
            None => r matches Ok(q) && roa_request_signed(
                HeaderCall {
                    headers: header_map_entries(headers),
                    access_key_id: access_key_id@,
                    secret: secret@,
                    endpoint: endpoint@,
                    method: method@,
                    uri: uri@,
                    query: query.deep_view(),
                    date: date@,
                    nonce: nonce@,
                },
                query,
                body,
                timeout,
                q,
            ),
        },
{
    let ghost c = HeaderCall {
        headers: header_map_entries(headers),
        access_key_id: access_key_id@,
        secret: secret@,
        endpoint: endpoint@,
        method: method@,
        uri: uri@,
        query: query.deep_view(),
        date: date@,
        nonce: nonce@,
    };
    let ghost h0 = header_map_entries(headers);
    let ghost room = (USER_HEADER_LIMIT + SIGNING_ROOM) as nat;
    proof {
        lemma_known_names();
    }
    let mut headers = headers;
    let host = match endpoint_host(endpoint) {
        Ok(h) => h,
        Err(text) => {
            let m = concat2("Invalid endpoint: ", text.as_str());
            assert(m@.subrange(0, "Invalid endpoint: "@.len() as int) =~= "Invalid endpoint: "@);
            return Err(Error::InvalidRequest(m));
        },
    };
    match set_header(&mut headers, "host", host.as_str()) {
        Ok(_) => {},
        Err(e) => return Err(Error::InvalidHeader(HeaderError::Value(e))),
    }
    let ghost h1 = header_map_entries(headers);
    proof {
        lemma_fits_insert(h0, room, "host"@, encode_utf8(host@));
    }
    match set_header(&mut headers, "date", date) {
        Ok(_) => {},
        Err(e) => return Err(Error::InvalidHeader(HeaderError::Value(e))),
    }
    let ghost h2 = header_map_entries(headers);
    proof {
        lemma_fits_insert(h1, room + 1, "date"@, encode_utf8(date@));
    }
    match set_header(&mut headers, "x-acs-signature-nonce", nonce) {
        Ok(_) => {},
        Err(e) => return Err(Error::InvalidHeader(HeaderError::Value(e))),
    }
    proof {
        lemma_fits_insert(h2, room + 2, "x-acs-signature-nonce"@, encode_utf8(nonce@));
        assert(header_map_entries(headers) == roa_signed_headers(c));
    }
    let code = match header_signature(secret, method.as_str(), &headers, uri, &query, false) {
        Ok(s) => s,
        Err(e) => return Err(e),
    };
    let mut authorization = String::from_str("acs ");
    authorization.append(access_key_id);
    authorization.append(":");
    authorization.append(code.as_str());
    assert(authorization@ == roa_authorization(c));
    match set_header(&mut headers, "authorization", authorization.as_str()) {
        Ok(_) => {},
        Err(e) => return Err(Error::InvalidHeader(HeaderError::Value(e))),
    }
    if !http_method_accepted(method.as_str()) {
        return Err(invalid_method());
    }
    let url = concat2(endpoint, uri);
    Ok(SignedRequest { method, url, headers, query, body, timeout })
}

/// A call of the log dialect: what the client holds, the headers it has so
/// far, and the date.
pub struct LogCall {
    pub headers: Map<Seq<char>, Seq<u8>>,
    pub access_key_id: Seq<char>,
    pub secret: Seq<char>,
    pub endpoint: Seq<char>,
    pub project: Option<Seq<char>>,
    pub method: Seq<char>,
    pub uri: Seq<char>,
    pub query: Seq<(Seq<char>, Seq<char>)>,
    pub date: Seq<char>,
}

/// The scheme that an endpoint begins with: `http://`, `https://` or none.
pub open spec fn log_scheme(endpoint: Seq<char>) -> Seq<char> {
    if "http://"@.is_prefix_of(endpoint) {
        "http://"@
    } else if "https://"@.is_prefix_of(endpoint) {
        "https://"@
    } else {
        Seq::empty()
    }
}

/// The host of a call: the endpoint without its scheme, behind the project
/// and a dot where there is a project.
pub open spec fn log_host(endpoint: Seq<char>, project: Option<Seq<char>>) -> Seq<char> {
    let bare = endpoint.skip(log_scheme(endpoint).len() as int);
    match project {
        Some(p) => p + "."@ + bare,
        None => bare,
    }
}

/// The headers that are signed: those of the call with its host and date.
pub open spec fn log_signed_headers(c: LogCall) -> Map<Seq<char>, Seq<u8>> {
    c.headers.insert("host"@, encode_utf8(log_host(c.endpoint, c.project))).insert(
        "date"@,
        encode_utf8(c.date),
    )
}

/// The signature of the call.
pub open spec fn log_signature(c: LogCall) -> Seq<char> {
    signature(c.secret, header_string_to_sign(c.method, log_signed_headers(c), c.uri, c.query, true))
}

/// The `Authorization` header: `SLS`, the key id and the signature.
pub open spec fn log_authorization(c: LogCall) -> Seq<char> {
    "SLS "@ + c.access_key_id + ":"@ + log_signature(c)
}

/// All headers of the signed request.
pub open spec fn log_final_headers(c: LogCall) -> Map<Seq<char>, Seq<u8>> {
    log_signed_headers(c).insert("authorization"@, encode_utf8(log_authorization(c)))
}

/// The first reason, if any, for which the call cannot be signed.
pub open spec fn log_refusal(c: LogCall) -> Option<Refusal> {
    if !is_header_value(encode_utf8(log_host(c.endpoint, c.project))) || !is_header_value(
        encode_utf8(c.date),
    ) {
        Some(Refusal::Header)
    } else if !is_signable(log_signed_headers(c), true) {
        Some(Refusal::Unreadable)
    } else if !is_header_value(encode_utf8(log_authorization(c))) {
        Some(Refusal::Header)
    } else if !is_http_method(c.method) {
        Some(Refusal::Method)
    } else {
        None
    }
}

/// The signature in the `Authorization` header of a signed request of the
/// log dialect is the one that signing the canonical string of that request
/// again gives.
pub proof fn lemma_log_round_trip(c: LogCall)
    requires
        c.headers.dom().finite(),
    ensures
        header_string_to_sign(c.method, log_final_headers(c), c.uri, c.query, true)
            == header_string_to_sign(c.method, log_signed_headers(c), c.uri, c.query, true),
        log_authorization(c) == "SLS "@ + c.access_key_id + ":"@ + signature(
            c.secret,
            header_string_to_sign(c.method, log_final_headers(c), c.uri, c.query, true),
        ),
{
    lemma_string_to_sign_without_authorization(
        c.method,
        log_signed_headers(c),
        c.uri,
        c.query,
        true,
        encode_utf8(log_authorization(c)),
    );
}

/// `q` is the signed request of the call: its address is the scheme, the
/// host and the path, its headers hold the signature, and query, body and
/// timeout are those of the call.
pub open spec fn log_request_signed(
    c: LogCall,
    query: Vec<(String, String)>,
    body: Option<String>,
    timeout: Option<Duration>,
    q: SignedRequest,
) -> bool {
    &&& q.method@ == c.method
    &&& q.url@ == log_scheme(c.endpoint) + log_host(c.endpoint, c.project) + c.uri
    &&& header_map_entries(q.headers) == log_final_headers(c)
    &&& q.query == query
    &&& q.body == body
    &&& q.timeout == timeout
}

/// Signs a call of the log dialect: adds the host, the date and the
/// `Authorization` header and gives the request to send.
pub(crate) fn sign_log_call(
    headers: HeaderMap<HeaderValue>,
    access_key_id: &str,
    secret: &str,
    endpoint: &str,
    project: &Option<String>,
    method: String,
    uri: &str,
    query: Vec<(String, String)>,
    body: Option<String>,
    timeout: Option<Duration>,
    date: &str,
) -> (r: Result<SignedRequest, Error>)
    requires
        fits(header_map_entries(headers), (USER_HEADER_LIMIT + SIGNING_ROOM) as nat),
    ensures
        match log_refusal(
            LogCall {
                headers: header_map_entries(headers),
                access_key_id: access_key_id@,
                secret: secret@,
                endpoint: endpoint@,
                project: project.deep_view(),
                method: method@,
                uri: uri@,
                query: query.deep_view(),
                date: date@,
            },
        ) {
            Some(refusal) => r matches Err(e) && is_refusal(refusal, e),
            None => r matches Ok(q) && log_request_signed(
                LogCall {
                    headers: header_map_entries(headers),
                    access_key_id: access_key_id@,
                    secret: secret@,
                    endpoint: endpoint@,
                    project: project.deep_view(),
                    method: method@,
                    uri: uri@,
                    query: query.deep_view(),
                    date: date@,
                },
                query,
                body,
                timeout,
                q,
            ),
        },
{
    let ghost c = LogCall {
        headers: header_map_entries(headers),
        access_key_id: access_key_id@,
        secret: secret@,
        endpoint: endpoint@,
        project: project.deep_view(),
        method: method@,
        uri: uri@,
        query: query.deep_view(),
        date: date@,
    };
    let ghost h0 = header_map_entries(headers);
    let ghost room = (USER_HEADER_LIMIT + SIGNING_ROOM) as nat;
    proof {
        lemma_known_names();
    }
    let mut headers = headers;
    let (prefix, bare) = match strip_prefix(endpoint, "http://") {
        Some(rest) => ("http://", rest),
        None => match strip_prefix(endpoint, "https://") {
            Some(rest) => ("https://", rest),
            None => {
                assert(endpoint@.skip(0) =~= endpoint@);
                assert(""@ =~= Seq::<char>::empty()) by {
                    reveal_strlit("");
                }
                ("", endpoint)
            },
        },
    };
    assert(prefix@ == log_scheme(endpoint@));
    let host = match project {
        Some(p) => concat3(p.as_str(), ".", bare),
        None => String::from_str(bare),
    };
    assert(host@ == log_host(endpoint@, project.deep_view()));
    match set_header(&mut headers, "host", host.as_str()) {
        Ok(_) => {},
        Err(e) => return Err(Error::InvalidHeader(HeaderError::Value(e))),
    }
    let ghost h1 = header_map_entries(headers);
    proof {
        lemma_fits_insert(h0, room, "host"@, encode_utf8(host@));
    }
    match set_header(&mut headers, "date", date) {
        Ok(_) => {},
        Err(e) => return Err(Error::InvalidHeader(HeaderError::Value(e))),
    }
    proof {
        lemma_fits_insert(h1, room + 1, "date"@, encode_utf8(date@));
        assert(header_map_entries(headers) == log_signed_headers(c));
    }
    let code = match header_signature(secret, method.as_str(), &headers, uri, &query, true) {
        Ok(s) => s,
        Err(e) => return Err(e),
    };
    let mut authorization = String::from_str("SLS ");
    authorization.append(access_key_id);
    authorization.append(":");
    authorization.append(code.as_str());
    assert(authorization@ == log_authorization(c));
    match set_header(&mut headers, "authorization", authorization.as_str()) {
        Ok(_) => {},
        Err(e) => return Err(Error::InvalidHeader(HeaderError::Value(e))),
    }
    if !http_method_accepted(method.as_str()) {
        return Err(invalid_method());
    }
    let url = concat3(prefix, host.as_str(), uri);
    Ok(SignedRequest { method, url, headers, query, body, timeout })
}

} // verus!
