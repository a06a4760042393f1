//! The client of the query-signed dialect.
use crate::client::error::Error;
use crate::endpoint::{http_method_accepted, is_http_method};
use crate::headers::{
    fits, header_list_fault, header_map_entries, header_map_from_list, header_map_new,
    headers_accepted, headers_from, lemma_fits_insert, lemma_known_names, no_headers,
    set_text_header, USER_HEADER_LIMIT,
};
use crate::moment::{
    decimal_i128, format_iso8601, now_utc, signed_decimal, unix_timestamp_nanos,
};
use crate::params::distinct_keys;
use crate::query_sign::{rpc_parameters, rpc_params, rpc_signed_url, rpc_url};
use crate::request::{
    agent, agent_text, duplicate_parameter_text, invalid_method_text, is_timestamp_refusal,
    SignedRequest, timestamp_refusal,
};
use reqwest::header::{HeaderMap, HeaderValue};
use std::time::Duration;
use vstd::prelude::*;
use vstd::utf8::encode_utf8;

verus! {

/// The error envelope of the query-signed dialect.
#[derive(Debug)]
pub struct RPCServiceError {
    /// Error code
    pub code: String,
    /// Error message
    pub message: String,
    /// Request id
    pub request_id: String,
    /// Recommend
    pub recommend: String,
}

impl RPCServiceError {
    /// The error that the envelope stands for.
    pub fn into_error(self) -> (r: Error)
        ensures
            r matches Error::InvalidResponse { request_id, error_code, error_message }
                && request_id == self.request_id && error_code == self.code && error_message
                == self.message,
    {
        Error::InvalidResponse {
            request_id: self.request_id,
            error_code: self.code,
            error_message: self.message,
        }
    }
}

/// A client of the query-signed dialect with the request it is configured for.
pub struct RPClient {
    access_key_id: String,
    access_key_secret: String,
    endpoint: String,
    timeout: Option<Duration>,
    action: String,
    method: String,
    query: Vec<(String, String)>,
    headers: HeaderMap<HeaderValue>,
    version: String,
}

/// What a client of the query-signed dialect holds.
pub struct RPClientView {
    pub access_key_id: Seq<char>,
    pub access_key_secret: Seq<char>,
    pub endpoint: Seq<char>,
    pub timeout: Option<Duration>,
    pub action: Seq<char>,
    pub method: Seq<char>,
    pub query: Seq<(Seq<char>, Seq<char>)>,
    pub headers: Map<Seq<char>, Seq<u8>>,
    pub version: Seq<char>,
}

/// The parameters of the call that a client is configured for.
pub open spec fn rpc_call_params(v: RPClientView, timestamp: Seq<char>, nonce: Seq<char>) -> Seq<
    (Seq<char>, Seq<char>),
> {
    rpc_params(v.action, v.access_key_id, nonce, timestamp, v.version, v.query)
}

/// The headers of a call: the configured ones and the two that name the
/// library.
pub open spec fn rpc_headers(h: Map<Seq<char>, Seq<u8>>) -> Map<Seq<char>, Seq<u8>> {
    h.insert("user-agent"@, encode_utf8(agent_text())).insert(
        "x-sdk-client"@,
        encode_utf8(agent_text()),
    )
}

/// `q` is the signed request of the client at a time stamp and a nonce.
pub open spec fn rpc_request_signed(
    v: RPClientView,
    timestamp: Seq<char>,
    nonce: Seq<char>,
    q: SignedRequest,
) -> bool {
    &&& q.method@ == v.method
    &&& q.url@ == rpc_url(
        v.endpoint,
        v.access_key_secret,
        v.method,
        rpc_call_params(v, timestamp, nonce),
    )
    &&& header_map_entries(q.headers) == rpc_headers(v.headers)
    &&& q.query@.len() == 0
    &&& q.body is None
    &&& q.timeout == v.timeout
}

/// `r` is what signing the client's request at a time stamp and a nonce
/// gives: the refusal of a parameter key that occurs twice, else that of a
/// method that the transport does not accept, else the signed request.
pub open spec fn rpc_client_outcome(
    v: RPClientView,
    timestamp: Seq<char>,
    nonce: Seq<char>,
    r: Result<SignedRequest, Error>,
) -> bool {
    if !distinct_keys(rpc_call_params(v, timestamp, nonce)) {
        r matches Err(Error::InvalidRequest(m)) && m@ == duplicate_parameter_text()
    } else if !is_http_method(v.method) {
        r matches Err(Error::InvalidRequest(m)) && m@ == invalid_method_text()
    } else {
        r matches Ok(q) && rpc_request_signed(v, timestamp, nonce, q)
    }
}

/// `r` is what signing the client's request gives at a time stamp, with a
/// count of nanoseconds written in decimal as the nonce.
pub open spec fn rpc_client_outcome_at(
    v: RPClientView,
    timestamp: Seq<char>,
    nanoseconds: i128,
    r: Result<SignedRequest, Error>,
) -> bool {
    rpc_client_outcome(v, timestamp, signed_decimal(nanoseconds as int), r)
}

impl View for RPClient {
    type V = RPClientView;

    closed spec fn view(&self) -> RPClientView {
        RPClientView {
            access_key_id: self.access_key_id@,
            access_key_secret: self.access_key_secret@,
            endpoint: self.endpoint@,
            timeout: self.timeout,
            action: self.action@,
            method: self.method@,
            query: self.query.deep_view(),
            headers: header_map_entries(self.headers),
            version: self.version@,
        }
    }
}

impl RPClient {
    #[verifier::type_invariant]
    spec fn headers_fit(&self) -> bool {
        fits(header_map_entries(self.headers), USER_HEADER_LIMIT as nat)
    }

    /// Create a api client.
    pub fn new(access_key_id: &str, access_key_secret: &str, endpoint: &str) -> (r: Self)
        ensures
            r@ == (RPClientView {
                access_key_id: access_key_id@,
                access_key_secret: access_key_secret@,
                endpoint: endpoint@,
                timeout: None,
                action: Seq::empty(),
                method: Seq::empty(),
                query: Seq::empty(),
                headers: no_headers(),
                version: Seq::empty(),
            }),
    {
        let query: Vec<(String, String)> = Vec::new();
        assert(query.deep_view() =~= Seq::empty());
        RPClient {
            access_key_id: String::from_str(access_key_id),
            access_key_secret: String::from_str(access_key_secret),
            endpoint: String::from_str(endpoint),
            timeout: None,
            action: String::new(),
            method: String::new(),
            query,
            headers: header_map_new(),
            version: String::new(),
        }
    }

    /// Create a request with the `method` and `action`.
    pub fn request(self, method: &str, action: &str) -> (r: Self)
        ensures
            r@ == (RPClientView { method: method@, action: action@, ..self@ }),
    {
        proof {
            use_type_invariant(&self);
        }
        let mut c = self;
        c.method = String::from_str(method);
        c.action = String::from_str(action);
        c
    }

    /// Create a `GET` request with the `action`.
    pub fn get(self, action: &str) -> (r: Self)
        ensures
            r@ == (RPClientView { method: "GET"@, action: action@, ..self@ }),
    {
        self.request("GET", action)
    }

    /// Create a `POST` request with the `action`.
    pub fn post(self, action: &str) -> (r: Self)
        ensures
            r@ == (RPClientView { method: "POST"@, action: action@, ..self@ }),
    {
        self.request("POST", action)
    }

    /// Set queries for request.
    pub fn query(self, queries: Vec<(String, String)>) -> (r: Self)
        ensures
            r@ == (RPClientView { query: queries.deep_view(), ..self@ }),
    {
        proof {
            use_type_invariant(&self);
        }
        let mut c = self;
        c.query = queries;
        c
    }

    /// Set version for request.
    pub fn version(self, version: &str) -> (r: Self)
        ensures
            r@ == (RPClientView { version: version@, ..self@ }),
    {
        proof {
            use_type_invariant(&self);
        }
        let mut c = self;
        c.version = String::from_str(version);
        c
    }

    /// Set header for request: the list takes the place of all headers set
    /// before. It is refused where it is too long, or else for the first of
    /// its entries whose name or value is no HTTP header syntax.
    pub fn header(self, headers: Vec<(String, String)>) -> (r: Result<Self, Error>)
        ensures
            r is Ok == headers_accepted(headers.deep_view()),
            r matches Ok(c) ==> c@ == (RPClientView {
                headers: headers_from(headers.deep_view())->0,
                ..self@
            }),
            r matches Err(e) ==> e matches Error::InvalidHeader(h) && Some(h@)
                == header_list_fault(headers.deep_view()),
    {
        proof {
            use_type_invariant(&self);
        }
        match header_map_from_list(&headers) {
            Ok(m) => {
                let mut c = self;
                c.headers = m;
                Ok(c)
            },
            Err(e) => Err(e),
        }
    }

    /// Set a timeout for connect, read and write operations.
    pub fn timeout(self, timeout: Duration) -> (r: Self)
        ensures
            r@ == (RPClientView { timeout: Some(timeout), ..self@ }),
    {
        proof {
            use_type_invariant(&self);
        }
        let mut c = self;
        c.timeout = Some(timeout);
        c
    }

    /// Signs the request at a time stamp and a nonce. It is refused where a
    /// parameter key occurs twice or the method is none that the transport
    /// accepts.
    pub fn signed_request_at(self, timestamp: &str, nonce: &str) -> (r: Result<
        SignedRequest,
        Error,
    >)
        ensures
            rpc_client_outcome(self@, timestamp@, nonce@, r),
            r is Ok == (distinct_keys(rpc_call_params(self@, timestamp@, nonce@))
                && is_http_method(self@.method)),
            r matches Ok(q) ==> rpc_request_signed(self@, timestamp@, nonce@, q),
            r matches Err(e) ==> e matches Error::InvalidRequest(m) && m@ == (if !distinct_keys(
                rpc_call_params(self@, timestamp@, nonce@),
            ) {
                duplicate_parameter_text()
            } else {
                invalid_method_text()
            }),
    {
        proof {
            use_type_invariant(&self);
            lemma_known_names();
        }
        let ghost h0 = header_map_entries(self.headers);
        let mut headers = self.headers;
        proof {
            lemma_fits_insert(h0, USER_HEADER_LIMIT as nat, "user-agent"@, encode_utf8(agent_text()));
        }
        set_text_header(&mut headers, "user-agent", agent());
        set_text_header(&mut headers, "x-sdk-client", agent());
        let params = rpc_parameters(
            self.action.as_str(),
            self.access_key_id.as_str(),
            nonce,
            timestamp,
            self.version.as_str(),
            &self.query,
        );
        let url = match rpc_signed_url(
            self.endpoint.as_str(),
            self.access_key_secret.as_str(),
            self.method.as_str(),
            &params,
        ) {
            Ok(u) => u,
            Err(e) => return Err(e),
        };
        if !http_method_accepted(self.method.as_str()) {
            return Err(
                Error::InvalidRequest(String::from_str("Invalid HTTP method: invalid HTTP method")),
            );
        }
        Ok(
            SignedRequest {
                method: self.method,
                url,
                headers,
                query: Vec::new(),
                body: None,
                timeout: self.timeout,
            },
        )
    }

    /// Signs the request at the present moment: the time stamp is the
    /// moment in ISO 8601, the nonce its count of nanoseconds. Where the
    /// time stamp cannot be written the request is refused with what the
    /// formatter said; else the result is that of signing at the time stamp
    /// and the nonce.
    pub fn signed_request(self) -> (r: Result<SignedRequest, Error>)
        ensures
            is_timestamp_refusal(r) || exists|timestamp: Seq<char>, nanoseconds: i128|
                rpc_client_outcome_at(self@, timestamp, nanoseconds, r),
            r matches Ok(q) ==> exists|timestamp: Seq<char>, nonce: Seq<char>|
                rpc_request_signed(self@, timestamp, nonce, q),
            r matches Err(e) ==> e is InvalidRequest,
    {
        let now = now_utc();
        let nanoseconds = unix_timestamp_nanos(&now);
        let nonce = decimal_i128(nanoseconds);
        match format_iso8601(&now) {
            Ok(timestamp) => {
                let ghost v = self@;
                let r = self.signed_request_at(timestamp.as_str(), nonce.as_str());
                proof {
                    assert(rpc_client_outcome_at(v, timestamp@, nanoseconds, r));
                    if r is Ok {
                        assert(rpc_request_signed(v, timestamp@, nonce@, r->Ok_0));
                    }
                }
                r
            },
            Err(text) => timestamp_refusal(text.as_str()),
        }
    }
}

} // verus!
