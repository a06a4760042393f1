//! The client of the log dialect, which signs the headers.
use crate::client::error::Error;
use crate::header_sign::{
    body_headers, body_headers_agree, is_refusal, lemma_body_header_names, log_final_headers,
    log_host, log_refusal, log_scheme, LogCall, replaced_headers, set_body_headers, sign_log_call,
};
use crate::headers::{
    has_header, header_list_fault, header_map_entries, header_map_from_list,
    header_map_new, headers_accepted, headers_from, lemma_fits_insert, lemma_known_names,
    lemma_user_headers_fit, no_headers, set_text_header, USER_HEADER_LIMIT, user_headers_fit,
};
use crate::moment::{format_described, now_utc, rfc1123_format};
use crate::request::{agent, agent_text, date_refusal, is_date_refusal, SignedRequest};
use reqwest::header::{HeaderMap, HeaderValue};
use std::time::Duration;
use vstd::prelude::*;
use vstd::utf8::encode_utf8;

verus! {

/// The error envelope of the log dialect, which has no request id.
#[derive(Debug)]
pub struct LogServiceError {
    /// error code
    pub error_code: String,
    /// error message
    pub error_message: String,
}

impl LogServiceError {
    /// The error that the envelope stands for, with an empty request id.
    pub fn into_error(self) -> (r: Error)
        ensures
            r matches Error::InvalidResponse { request_id, error_code, error_message }
                && request_id@.len() == 0 && error_code == self.error_code && error_message
                == self.error_message,
    {
        Error::InvalidResponse {
            request_id: String::new(),
            error_code: self.error_code,
            error_message: self.error_message,
        }
    }
}

/// A client of the log dialect with the request it is configured for.
pub struct LogServiceClient {
    access_key_id: String,
    access_key_secret: String,
    endpoint: String,
    timeout: Option<Duration>,
    method: String,
    uri: String,
    body: Option<String>,
    query: Vec<(String, String)>,
    headers: HeaderMap<HeaderValue>,
    project: Option<String>,
}

/// What a client of the log dialect holds.
pub struct LogServiceClientView {
    pub access_key_id: Seq<char>,
    pub access_key_secret: Seq<char>,
    pub endpoint: Seq<char>,
    pub timeout: Option<Duration>,
    pub method: Seq<char>,
    pub uri: Seq<char>,
    pub body: Option<Seq<char>>,
    pub query: Seq<(Seq<char>, Seq<char>)>,
    pub headers: Map<Seq<char>, Seq<u8>>,
    pub project: Option<Seq<char>>,
}

/// The configured headers with a raw body size of `0` and an `accept` of
/// JSON where the caller set neither.
pub open spec fn log_optional_headers(h: Map<Seq<char>, Seq<u8>>) -> Map<Seq<char>, Seq<u8>> {
    let sized = if h.dom().contains("x-log-bodyrawsize"@) {
        h
    } else {
        h.insert("x-log-bodyrawsize"@, encode_utf8("0"@))
    };
    if sized.dom().contains("accept"@) {
        sized
    } else {
        sized.insert("accept"@, encode_utf8("application/json"@))
    }
}

/// The headers of a call before it is signed: the configured ones, those
/// that the caller may leave out, the API version, the signature method and
/// the two that name the library.
pub open spec fn log_call_headers(h: Map<Seq<char>, Seq<u8>>) -> Map<Seq<char>, Seq<u8>> {
    log_optional_headers(h).insert("x-log-apiversion"@, encode_utf8("0.6.0"@)).insert(
        "x-log-signaturemethod"@,
        encode_utf8("hmac-sha1"@),
    ).insert("user-agent"@, encode_utf8(agent_text())).insert(
        "x-sdk-client"@,
        encode_utf8(agent_text()),
    )
}

/// The call that a client is configured for, at a date. Where there is a
/// body, its two headers are those of the body.
pub open spec fn log_client_call(v: LogServiceClientView, date: Seq<char>) -> LogCall {
    LogCall {
        headers: log_call_headers(replaced_headers(v.headers, v.body)),
        access_key_id: v.access_key_id,
        secret: v.access_key_secret,
        endpoint: v.endpoint,
        project: v.project,
        method: v.method,
        uri: v.uri,
        query: v.query,
        date,
    }
}

/// `q` is the signed request of the client at a date.
pub open spec fn log_client_signed(v: LogServiceClientView, date: Seq<char>, q: SignedRequest) -> bool {
    let c = log_client_call(v, date);
    &&& q.method@ == c.method
    &&& q.url@ == log_scheme(c.endpoint) + log_host(c.endpoint, c.project) + c.uri
    &&& header_map_entries(q.headers) == log_final_headers(c)
    &&& q.query.deep_view() == v.query
    &&& q.body.deep_view() == v.body
    &&& q.timeout == v.timeout
}

/// `r` is what signing the client's request at a date gives: the first
/// refusal of the call, else the signed request.
pub open spec fn log_client_outcome(
    v: LogServiceClientView,
    date: Seq<char>,
    r: Result<SignedRequest, Error>,
) -> bool {
    match log_refusal(log_client_call(v, date)) {
        Some(refusal) => r matches Err(e) && is_refusal(refusal, e),
        None => r matches Ok(q) && log_client_signed(v, date, q),
    }
}

/// Whatever the order in which body and headers were set, a signed request
/// with a body holds the length and the digest of that body in
/// `content-length` and `content-md5`, and a signed request without a body
/// holds neither unless the caller configured it.
pub proof fn lemma_log_client_body_headers(v: LogServiceClientView, date: Seq<char>, q: SignedRequest)
    requires
        log_client_signed(v, date, q),
    ensures
        q.body.deep_view() == v.body,
        body_headers_agree(v.headers, v.body, header_map_entries(q.headers)),
{
    lemma_body_header_names();
}

impl View for LogServiceClient {
    type V = LogServiceClientView;

    closed spec fn view(&self) -> LogServiceClientView {
        LogServiceClientView {
            access_key_id: self.access_key_id@,
            access_key_secret: self.access_key_secret@,
            endpoint: self.endpoint@,
            timeout: self.timeout,
            method: self.method@,
            uri: self.uri@,
            body: self.body.deep_view(),
            query: self.query.deep_view(),
            headers: header_map_entries(self.headers),
            project: self.project.deep_view(),
        }
    }
}

impl LogServiceClient {
    #[verifier::type_invariant]
    spec fn headers_fit(&self) -> bool {
        user_headers_fit(header_map_entries(self.headers))
    }

    /// Create a api client.
    pub fn new(access_key_id: &str, access_key_secret: &str, endpoint: &str) -> (r: Self)
        ensures
            r@ == (LogServiceClientView {
                access_key_id: access_key_id@,
                access_key_secret: access_key_secret@,
                endpoint: endpoint@,
                timeout: None,
                method: Seq::empty(),
                uri: Seq::empty(),
                body: None,
                query: Seq::empty(),
                headers: no_headers(),
                project: None,
            }),
    {
        let query: Vec<(String, String)> = Vec::new();
        let headers = header_map_new();
        proof {
            assert(query.deep_view() =~= Seq::empty());
            lemma_user_headers_fit(header_map_entries(headers), Seq::empty(), Seq::empty());
        }
        LogServiceClient {
            access_key_id: String::from_str(access_key_id),
            access_key_secret: String::from_str(access_key_secret),
            endpoint: String::from_str(endpoint),
            timeout: None,
            method: String::new(),
            uri: String::new(),
            body: None,
            query,
            headers,
            project: None,
        }
    }

    /// Create a request with the `method` and `uri`.
    pub fn request(self, method: &str, uri: &str) -> (r: Self)
        ensures
            r@ == (LogServiceClientView { method: method@, uri: uri@, ..self@ }),
    {
        proof {
            use_type_invariant(&self);
        }
        let mut c = self;
        c.method = String::from_str(method);
        c.uri = String::from_str(uri);
        c
    }

    /// Create a `GET` request with the `uri`.
    pub fn get(self, uri: &str) -> (r: Self)
        ensures
            r@ == (LogServiceClientView { method: "GET"@, uri: uri@, ..self@ }),
    {
        self.request("GET", uri)
    }

    /// Create a `POST` request with the `uri`.
    pub fn post(self, uri: &str) -> (r: Self)
        ensures
            r@ == (LogServiceClientView { method: "POST"@, uri: uri@, ..self@ }),
    {
        self.request("POST", uri)
    }

    /// Set queries for request.
    pub fn query(self, queries: Vec<(String, String)>) -> (r: Self)
        ensures
            r@ == (LogServiceClientView { query: queries.deep_view(), ..self@ }),
    {
        proof {
            use_type_invariant(&self);
        }
        let mut c = self;
        c.query = queries;
        c
    }

    /// Set body for request: `content-length` then holds the number of its
    /// bytes and `content-md5` the base64 of its MD5 digest.
    pub fn body(self, body: &str) -> (r: Result<Self, Error>)
        ensures
            r matches Ok(c) && c@ == (LogServiceClientView {
                body: Some(body@),
                headers: body_headers(self@.headers, body@),
                ..self@
            }),
    {
        proof {
            use_type_invariant(&self);
        }
        let mut c = self;
        let mut headers = c.headers;
        set_body_headers(&mut headers, body);
        c.headers = headers;
        c.body = Some(String::from_str(body));
        Ok(c)
    }

    /// Set header for request: the list takes the place of all headers set
    /// before, but for the two headers of the body where there is one. It
    /// is refused where it is too long, or else for the first of its
    /// entries whose name or value is no HTTP header syntax.
    pub fn header(self, headers: Vec<(String, String)>) -> (r: Result<Self, Error>)
        ensures
            r is Ok == headers_accepted(headers.deep_view()),
            r matches Ok(c) ==> c@ == (LogServiceClientView {
                headers: replaced_headers(headers_from(headers.deep_view())->0, self@.body),
                ..self@
            }),
            r matches Err(e) ==> e matches Error::InvalidHeader(h) && Some(h@)
                == header_list_fault(headers.deep_view()),
    {
        proof {
            use_type_invariant(&self);
        }
        match header_map_from_list(&headers) {
            Ok(m) => {
                proof {
                    lemma_user_headers_fit(header_map_entries(m), Seq::empty(), Seq::empty());
                }
                let mut c = self;
                let mut m = m;
                match &c.body {
                    Some(b) => {
                        set_body_headers(&mut m, b.as_str());
                    },
                    None => {},
                }
                c.headers = m;
                Ok(c)
            },
            Err(e) => Err(e),
        }
    }

    /// Set project for request.
    pub fn project(self, project: &str) -> (r: Self)
        ensures
            r@ == (LogServiceClientView { project: Some(project@), ..self@ }),
    {
        proof {
            use_type_invariant(&self);
        }
        let mut c = self;
        c.project = Some(String::from_str(project));
        c
    }

    /// Set a timeout for connect, read and write operations.
    pub fn timeout(self, timeout: Duration) -> (r: Self)
        ensures
            r@ == (LogServiceClientView { timeout: Some(timeout), ..self@ }),
    {
        proof {
            use_type_invariant(&self);
        }
        let mut c = self;
        c.timeout = Some(timeout);
        c
    }

    /// Signs the request at a date. It is refused for each reason for which
    /// a call cannot be signed.
    pub fn signed_request_at(self, date: &str) -> (r: Result<SignedRequest, Error>)
        ensures
            match log_refusal(log_client_call(self@, date@)) {
                Some(refusal) => r matches Err(e) && is_refusal(refusal, e),
                None => r matches Ok(q) && log_client_signed(self@, date@, q),
            },
    {
        proof {
            use_type_invariant(&self);
            lemma_known_names();
            reveal_strlit("application/json");
            reveal_strlit("hmac-sha1");
            reveal_strlit("0.6.0");
            reveal_strlit("0");
        }
        let ghost limit = (USER_HEADER_LIMIT + 2) as nat;
        let mut headers = self.headers;
        match &self.body {
            Some(b) => {
                set_body_headers(&mut headers, b.as_str());
            },
            None => {},
        }
        let ghost h0 = header_map_entries(headers);
        proof {
            lemma_user_headers_fit(h0, Seq::empty(), Seq::empty());
            lemma_fits_insert(h0, limit, "x-log-bodyrawsize"@, encode_utf8("0"@));
        }
        if !has_header(&headers, "x-log-bodyrawsize") {
            set_text_header(&mut headers, "x-log-bodyrawsize", "0");
        }
        let ghost h1 = header_map_entries(headers);
        proof {
            lemma_fits_insert(h1, limit + 1, "accept"@, encode_utf8("application/json"@));
        }
        if !has_header(&headers, "accept") {
            set_text_header(&mut headers, "accept", "application/json");
        }
        let ghost h2 = header_map_entries(headers);
        assert(h2 == log_optional_headers(h0));
        proof {
            lemma_fits_insert(h2, limit + 2, "x-log-apiversion"@, encode_utf8("0.6.0"@));
        }
        set_text_header(&mut headers, "x-log-apiversion", "0.6.0");
        let ghost h3 = header_map_entries(headers);
        proof {
            lemma_fits_insert(h3, limit + 3, "x-log-signaturemethod"@, encode_utf8("hmac-sha1"@));
        }
        set_text_header(&mut headers, "x-log-signaturemethod", "hmac-sha1");
        let ghost h4 = header_map_entries(headers);
        proof {
            lemma_fits_insert(h4, limit + 4, "user-agent"@, encode_utf8(agent_text()));
        }
        set_text_header(&mut headers, "user-agent", agent());
        let ghost h5 = header_map_entries(headers);
        proof {
            lemma_fits_insert(h5, limit + 5, "x-sdk-client"@, encode_utf8(agent_text()));
        }
        set_text_header(&mut headers, "x-sdk-client", agent());
        sign_log_call(
            headers,
            self.access_key_id.as_str(),
            self.access_key_secret.as_str(),
            self.endpoint.as_str(),
            &self.project,
            self.method,
            self.uri.as_str(),
            self.query,
            self.body,
            self.timeout,
            date,
        )
    }

    /// Signs the request at the present moment, written as an RFC 1123
    /// date. Where the date cannot be written the request is refused with
    /// what the formatter said; else the result is that of signing at the
    /// date.
    pub fn signed_request(self) -> (r: Result<SignedRequest, Error>)
        ensures
            is_date_refusal(r) || exists|date: Seq<char>| log_client_outcome(self@, date, r),
            r matches Ok(q) ==> exists|date: Seq<char>| log_client_signed(self@, date, q),
    {
        let now = now_utc();
        match format_described(&now, rfc1123_format()) {
            Ok(date) => {
                let ghost v = self@;
                let r = self.signed_request_at(date.as_str());
                proof {
                    assert(log_client_outcome(v, date@, r));
                    if r is Ok {
                        assert(log_client_signed(v, date@, r->Ok_0));
                    }
                }
                r
            },
            Err(text) => date_refusal(text.as_str()),
        }
    }
}

} // verus!
