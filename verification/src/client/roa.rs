//! The client of the resource dialect, which signs the headers.
use crate::client::error::{Error, HeaderError, HeaderFault};
use crate::header_sign::{
    body_headers, body_headers_agree, HeaderCall, is_refusal, lemma_body_header_names,
    replaced_headers, roa_refusal, set_body_headers, sign_roa_call,
};
use crate::headers::{
    header_list_fault, header_map_entries, header_map_from_list, header_map_new,
    headers_accepted, headers_from, is_header_value, lemma_fits_insert, lemma_known_names,
    lemma_user_headers_fit, no_headers, set_header, set_text_header, USER_HEADER_LIMIT,
    user_headers_fit,
};
use crate::moment::{
    decimal_i128, format_described, now_utc, rfc1123_format, signed_decimal,
    unix_timestamp_nanos,
};
use crate::request::{agent, agent_text, date_refusal, is_date_refusal, SignedRequest};
use reqwest::header::{HeaderMap, HeaderValue};
use std::time::Duration;
use vstd::prelude::*;
use vstd::utf8::encode_utf8;

verus! {

/// The error envelope of the resource dialect.
#[derive(Debug)]
pub struct ROAServiceError {
    /// Error code
    pub code: String,
    /// Error message
    pub message: String,
    /// Request id
    pub request_id: String,
    /// Recommend
    pub recommend: String,
}

impl ROAServiceError {
    /// The error that the envelope stands for.
    pub fn into_error(self) -> (r: Error)
        ensures
            r matches Error::InvalidResponse { request_id, error_code, error_message }
                && request_id == self.request_id && error_code == self.code && error_message
                == self.message,
    {
        Error::InvalidResponse {
            request_id: self.request_id,
            error_code: self.code,
            error_message: self.message,
        }
    }
}

/// A client of the resource dialect with the request it is configured for.
pub struct ROAClient {
    access_key_id: String,
    access_key_secret: String,
    endpoint: String,
    method: String,
    uri: String,
    body: Option<String>,
    query: Vec<(String, String)>,
    headers: HeaderMap<HeaderValue>,
    project: Option<String>,
    version: String,
    timeout: Option<Duration>,
}

/// What a client of the resource dialect holds.
pub struct ROAClientView {
    pub access_key_id: Seq<char>,
    pub access_key_secret: Seq<char>,
    pub endpoint: Seq<char>,
    pub method: Seq<char>,
    pub uri: Seq<char>,
    pub body: Option<Seq<char>>,
    pub query: Seq<(Seq<char>, Seq<char>)>,
    pub headers: Map<Seq<char>, Seq<u8>>,
    pub project: Option<Seq<char>>,
    pub version: Seq<char>,
    pub timeout: Option<Duration>,
}

/// The headers of a call before it is signed: the configured ones, then
/// `accept`, the signature method, the two that name the library and the
/// version.
pub open spec fn roa_call_headers(h: Map<Seq<char>, Seq<u8>>, version: Seq<char>) -> Map<
    Seq<char>,
    Seq<u8>,
> {
    h.insert("accept"@, encode_utf8("application/json"@)).insert(
        "x-acs-signature-method"@,
        encode_utf8("HMAC-SHA1"@),
    ).insert("user-agent"@, encode_utf8(agent_text())).insert(
        "x-sdk-client"@,
        encode_utf8(agent_text()),
    ).insert("x-acs-version"@, encode_utf8(version))
}

/// The call that a client is configured for, at a date and a nonce. Where
/// there is a body, its two headers are those of the body.
pub open spec fn roa_client_call(v: ROAClientView, date: Seq<char>, nonce: Seq<char>) -> HeaderCall {
    HeaderCall {
        headers: roa_call_headers(replaced_headers(v.headers, v.body), v.version),
        access_key_id: v.access_key_id,
        secret: v.access_key_secret,
        endpoint: v.endpoint,
        method: v.method,
        uri: v.uri,
        query: v.query,
        date,
        nonce,
    }
}

/// `q` is the signed request of the client at a date and a nonce.
pub open spec fn roa_client_signed(
    v: ROAClientView,
    date: Seq<char>,
    nonce: Seq<char>,
    q: SignedRequest,
) -> bool {
    let c = roa_client_call(v, date, nonce);
    &&& q.method@ == c.method
    &&& q.url@ == c.endpoint + c.uri
    &&& header_map_entries(q.headers) == crate::header_sign::roa_final_headers(c)
    &&& q.query.deep_view() == v.query
    &&& q.body.deep_view() == v.body
    &&& q.timeout == v.timeout
}

/// `r` is what signing the client's request at a date and a nonce gives:
/// the refusal of a version that is no header value, else the first refusal
/// of the call, else the signed request.
pub open spec fn roa_client_outcome(
    v: ROAClientView,
    date: Seq<char>,
    nonce: Seq<char>,
    r: Result<SignedRequest, Error>,
) -> bool {
    if !is_header_value(encode_utf8(v.version)) {
        r matches Err(Error::InvalidHeader(h)) && h@ == HeaderFault::Value
    } else {
        match roa_refusal(roa_client_call(v, date, nonce)) {
            Some(refusal) => r matches Err(e) && is_refusal(refusal, e),
            None => r matches Ok(q) && roa_client_signed(v, date, nonce, q),
        }
    }
}

/// `r` is what signing the client's request gives at a date, with a count
/// of nanoseconds written in decimal as the nonce.
pub open spec fn roa_client_outcome_at(
    v: ROAClientView,
    date: Seq<char>,
    nanoseconds: i128,
    r: Result<SignedRequest, Error>,
) -> bool {
    roa_client_outcome(v, date, signed_decimal(nanoseconds as int), r)
}

/// Whatever the order in which body and headers were set, a signed request
/// with a body holds the length and the digest of that body in
/// `content-length` and `content-md5`, and a signed request without a body
/// holds neither unless the caller configured it.
pub proof fn lemma_roa_client_body_headers(
    v: ROAClientView,
    date: Seq<char>,
    nonce: Seq<char>,
    q: SignedRequest,
)
    requires
        roa_client_signed(v, date, nonce, q),
    ensures
        q.body.deep_view() == v.body,
        body_headers_agree(v.headers, v.body, header_map_entries(q.headers)),
{
    lemma_body_header_names();
}

impl View for ROAClient {
    type V = ROAClientView;

    closed spec fn view(&self) -> ROAClientView {
        ROAClientView {
            access_key_id: self.access_key_id@,
            access_key_secret: self.access_key_secret@,
            endpoint: self.endpoint@,
            method: self.method@,
            uri: self.uri@,
            body: self.body.deep_view(),
            query: self.query.deep_view(),
            headers: header_map_entries(self.headers),
            project: self.project.deep_view(),
            version: self.version@,
            timeout: self.timeout,
        }
    }
}

impl ROAClient {
    #[verifier::type_invariant]
    spec fn headers_fit(&self) -> bool {
        user_headers_fit(header_map_entries(self.headers))
    }

    /// Create a api client.
    pub fn new(access_key_id: &str, access_key_secret: &str, endpoint: &str) -> (r: Self)
        ensures
            r@ == (ROAClientView {
                access_key_id: access_key_id@,
                access_key_secret: access_key_secret@,
                endpoint: endpoint@,
                method: Seq::empty(),
                uri: Seq::empty(),
                body: None,
                query: Seq::empty(),
                headers: no_headers(),
                project: None,
                version: Seq::empty(),
                timeout: None,
            }),
    {
        let query: Vec<(String, String)> = Vec::new();
        let headers = header_map_new();
        proof {
            assert(query.deep_view() =~= Seq::empty());
            lemma_user_headers_fit(header_map_entries(headers), Seq::empty(), Seq::empty());
        }
        ROAClient {
            access_key_id: String::from_str(access_key_id),
            access_key_secret: String::from_str(access_key_secret),
            endpoint: String::from_str(endpoint),
            method: String::new(),
            uri: String::new(),
            body: None,
            query,
            headers,
            project: None,
            version: String::new(),
            timeout: None,
        }
    }

    /// Create a request with the `method` and `uri`.
    pub fn request(self, method: &str, uri: &str) -> (r: Self)
        ensures
            r@ == (ROAClientView { method: method@, uri: uri@, ..self@ }),
    {
        proof {
            use_type_invariant(&self);
        }
        let mut c = self;
        c.method = String::from_str(method);
        c.uri = String::from_str(uri);
        c
    }

    /// Create a `GET` request with the `uri`.
    pub fn get(self, uri: &str) -> (r: Self)
        ensures
            r@ == (ROAClientView { method: "GET"@, uri: uri@, ..self@ }),
    {
        self.request("GET", uri)
    }

    /// Create a `POST` request with the `uri`.
    pub fn post(self, uri: &str) -> (r: Self)
        ensures
            r@ == (ROAClientView { method: "POST"@, uri: uri@, ..self@ }),
    {
        self.request("POST", uri)
    }

    /// Set queries for request.
    pub fn query(self, queries: Vec<(String, String)>) -> (r: Self)
        ensures
            r@ == (ROAClientView { query: queries.deep_view(), ..self@ }),
    {
        proof {
            use_type_invariant(&self);
        }
        let mut c = self;
        c.query = queries;
        c
    }

    /// Set version for request.
    pub fn version(self, version: &str) -> (r: Self)
        ensures
            r@ == (ROAClientView { version: version@, ..self@ }),
    {
        proof {
            use_type_invariant(&self);
        }
        let mut c = self;
        c.version = String::from_str(version);
        c
    }

    /// Set body for request: `content-length` then holds the number of its
    /// bytes and `content-md5` the base64 of its MD5 digest.
    pub fn body(self, body: &str) -> (r: Result<Self, Error>)
        ensures
            r matches Ok(c) && c@ == (ROAClientView {
                body: Some(body@),
                headers: body_headers(self@.headers, body@),
                ..self@
            }),
    {
        proof {
            use_type_invariant(&self);
        }
        let mut c = self;
        let mut headers = c.headers;
        set_body_headers(&mut headers, body);
        c.headers = headers;
        c.body = Some(String::from_str(body));
        Ok(c)
    }

    /// Set header for request: the list takes the place of all headers set
    /// before, but for the two headers of the body where there is one. It
    /// is refused where it is too long, or else for the first of its
    /// entries whose name or value is no HTTP header syntax.
    pub fn header(self, headers: Vec<(String, String)>) -> (r: Result<Self, Error>)
        ensures
            r is Ok == headers_accepted(headers.deep_view()),
            r matches Ok(c) ==> c@ == (ROAClientView {
                headers: replaced_headers(headers_from(headers.deep_view())->0, self@.body),
                ..self@
            }),
            r matches Err(e) ==> e matches Error::InvalidHeader(h) && Some(h@)
                == header_list_fault(headers.deep_view()),
    {
        proof {
            use_type_invariant(&self);
        }
        match header_map_from_list(&headers) {
            Ok(m) => {
                proof {
                    lemma_user_headers_fit(header_map_entries(m), Seq::empty(), Seq::empty());
                }
                let mut c = self;
                let mut m = m;
                match &c.body {
                    Some(b) => {
                        set_body_headers(&mut m, b.as_str());
                    },
                    None => {},
                }
                c.headers = m;
                Ok(c)
            },
            Err(e) => Err(e),
        }
    }

    /// Set project for request.
    pub fn project(self, project: &str) -> (r: Self)
        ensures
            r@ == (ROAClientView { project: Some(project@), ..self@ }),
    {
        proof {
            use_type_invariant(&self);
        }
        let mut c = self;
        c.project = Some(String::from_str(project));
        c
    }

    /// Set a timeout for connect, read and write operations.
    pub fn timeout(self, timeout: Duration) -> (r: Self)
        ensures
            r@ == (ROAClientView { timeout: Some(timeout), ..self@ }),
    {
        proof {
            use_type_invariant(&self);
        }
        let mut c = self;
        c.timeout = Some(timeout);
        c
    }

    /// Signs the request at a date and a nonce. It is refused where the
    /// version is no header value, and for each reason for which a call
    /// cannot be signed.
    pub fn signed_request_at(self, date: &str, nonce: &str) -> (r: Result<SignedRequest, Error>)
        ensures
            roa_client_outcome(self@, date@, nonce@, r),
            !is_header_value(encode_utf8(self@.version)) ==> (r matches Err(
                Error::InvalidHeader(h),
            ) && h@ == HeaderFault::Value),
            is_header_value(encode_utf8(self@.version)) ==> match roa_refusal(
                roa_client_call(self@, date@, nonce@),
            ) {
                Some(refusal) => r matches Err(e) && is_refusal(refusal, e),
                None => r matches Ok(q) && roa_client_signed(self@, date@, nonce@, q),
            },
    {
        proof {
            use_type_invariant(&self);
            lemma_known_names();
            reveal_strlit("application/json");
            reveal_strlit("HMAC-SHA1");
        }
        let ghost limit = (USER_HEADER_LIMIT + 2) as nat;
        let mut headers = self.headers;
        match &self.body {
            Some(b) => {
                set_body_headers(&mut headers, b.as_str());
            },
            None => {},
        }
        let ghost h0 = header_map_entries(headers);
        proof {
            lemma_user_headers_fit(h0, Seq::empty(), Seq::empty());
        }
        set_text_header(&mut headers, "accept", "application/json");
        let ghost h1 = header_map_entries(headers);
        proof {
            lemma_fits_insert(h0, limit, "accept"@, encode_utf8("application/json"@));
        }
        set_text_header(&mut headers, "x-acs-signature-method", "HMAC-SHA1");
        let ghost h2 = header_map_entries(headers);
        proof {
            lemma_fits_insert(h1, limit + 1, "x-acs-signature-method"@, encode_utf8("HMAC-SHA1"@));
        }
        set_text_header(&mut headers, "user-agent", agent());
        let ghost h3 = header_map_entries(headers);
        proof {
            lemma_fits_insert(h2, limit + 2, "user-agent"@, encode_utf8(agent_text()));
        }
        set_text_header(&mut headers, "x-sdk-client", agent());
        let ghost h4 = header_map_entries(headers);
        proof {
            lemma_fits_insert(h3, limit + 3, "x-sdk-client"@, encode_utf8(agent_text()));
        }
        match set_header(&mut headers, "x-acs-version", self.version.as_str()) {
            Ok(_) => {},
            Err(e) => return Err(Error::InvalidHeader(HeaderError::Value(e))),
        }
        proof {
            lemma_fits_insert(h4, limit + 4, "x-acs-version"@, encode_utf8(self.version@));
        }
        sign_roa_call(
            headers,
            self.access_key_id.as_str(),
            self.access_key_secret.as_str(),
            self.endpoint.as_str(),
            self.method,
            self.uri.as_str(),
            self.query,
            self.body,
            self.timeout,
            date,
            nonce,
        )
    }

    /// Signs the request at the present moment: the date is the moment as
    /// an RFC 1123 date, the nonce its count of nanoseconds. Where the date
    /// cannot be written the request is refused with what the formatter
    /// said; else the result is that of signing at the date and the nonce.
    pub fn signed_request(self) -> (r: Result<SignedRequest, Error>)
        ensures
            is_date_refusal(r) || exists|date: Seq<char>, nanoseconds: i128|
                roa_client_outcome_at(self@, date, nanoseconds, r),
            r matches Ok(q) ==> exists|date: Seq<char>, nonce: Seq<char>|
                roa_client_signed(self@, date, nonce, q),
    {
        let now = now_utc();
        let nanoseconds = unix_timestamp_nanos(&now);
        let nonce = decimal_i128(nanoseconds);
        match format_described(&now, rfc1123_format()) {
            Ok(date) => {
                let ghost v = self@;
                let r = self.signed_request_at(date.as_str(), nonce.as_str());
                proof {
                    assert(roa_client_outcome_at(v, date@, nanoseconds, r));
                    if r is Ok {
                        assert(roa_client_signed(v, date@, nonce@, r->Ok_0));
                    }
                }
                r
            },
            Err(text) => date_refusal(text.as_str()),
        }
    }
}

} // verus!
