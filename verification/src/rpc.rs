//! The borrowing client of the query-signed dialect: a `Client` lends its
//! credentials to the request builders it makes.
use crate::client::error::Error;
use crate::endpoint::{http_method_accepted, is_http_method, lemma_known_methods};
use crate::headers::{header_map_entries, header_map_new, no_headers};
use crate::moment::{format_iso8601, now_utc, random_uuid};
use crate::params::{distinct_keys, push_str_pairs, str_pairs};
use crate::query_sign::{rpc_parameters, rpc_params, rpc_signed_url, rpc_url};
use crate::request::{
    default_timeout, duplicate_parameter_text, invalid_method_text, is_timestamp_refusal, seconds,
    SignedRequest, timestamp_refusal,
};
use std::time::Duration;
use vstd::prelude::*;

verus! {

/// The rpc style api client.
#[derive(Clone, Debug)]
pub struct Client {
    /// The access key id of aliyun developer account.
    access_key_id: String,
    /// The access key secret of aliyun developer account.
    access_key_secret: String,
    /// The api endpoint of aliyun api service (need start with http:// or https://).
    endpoint: String,
    /// The api version of aliyun api service.
    version: String,
}

/// What a client holds.
pub struct ClientView {
    pub access_key_id: Seq<char>,
    pub access_key_secret: Seq<char>,
    pub endpoint: Seq<char>,
    pub version: Seq<char>,
}

impl View for Client {
    type V = ClientView;

    closed spec fn view(&self) -> ClientView {
        ClientView {
            access_key_id: self.access_key_id@,
            access_key_secret: self.access_key_secret@,
            endpoint: self.endpoint@,
            version: self.version@,
        }
    }
}

/// The RequestBuilder.
pub struct RequestBuilder<'a> {
    access_key_id: &'a str,
    access_key_secret: &'a str,
    endpoint: &'a str,
    version: &'a str,
    action: String,
    method: String,
    query: Vec<(String, String)>,
    timeout: Option<Duration>,
}

/// What a request builder holds.
pub struct RequestBuilderView {
    pub access_key_id: Seq<char>,
    pub access_key_secret: Seq<char>,
    pub endpoint: Seq<char>,
    pub version: Seq<char>,
    pub action: Seq<char>,
    pub method: Seq<char>,
    pub query: Seq<(Seq<char>, Seq<char>)>,
    pub timeout: Option<Duration>,
}

impl<'a> View for RequestBuilder<'a> {
    type V = RequestBuilderView;

    closed spec fn view(&self) -> RequestBuilderView {
        RequestBuilderView {
            access_key_id: self.access_key_id@,
            access_key_secret: self.access_key_secret@,
            endpoint: self.endpoint@,
            version: self.version@,
            action: self.action@,
            method: self.method@,
            query: self.query.deep_view(),
            timeout: self.timeout,
        }
    }
}

/// The request builder of a client for a method and an action, with no
/// query and the default timeout.
pub open spec fn new_builder(c: ClientView, method: Seq<char>, action: Seq<char>) -> RequestBuilderView {
    RequestBuilderView {
        access_key_id: c.access_key_id,
        access_key_secret: c.access_key_secret,
        endpoint: c.endpoint,
        version: c.version,
        action,
        method,
        query: Seq::empty(),
        timeout: default_timeout(),
    }
}

/// The request builder of a `GET` call of an action with queries.
pub open spec fn get_builder(
    c: ClientView,
    action: Seq<char>,
    queries: Seq<(Seq<char>, Seq<char>)>,
) -> RequestBuilderView {
    RequestBuilderView { query: queries, ..new_builder(c, "GET"@, action) }
}

/// The parameters of the call that a builder is configured for.
pub open spec fn builder_params(v: RequestBuilderView, timestamp: Seq<char>, nonce: Seq<char>) -> Seq<
    (Seq<char>, Seq<char>),
> {
    rpc_params(v.action, v.access_key_id, nonce, timestamp, v.version, v.query)
}

/// `q` is the signed request of the builder at a time stamp and a nonce: it
/// has no headers, no body and no query beside its address.
pub open spec fn builder_request_signed(
    v: RequestBuilderView,
    timestamp: Seq<char>,
    nonce: Seq<char>,
    q: SignedRequest,
) -> bool {
    &&& q.method@ == v.method
    &&& q.url@ == rpc_url(
        v.endpoint,
        v.access_key_secret,
        v.method,
        builder_params(v, timestamp, nonce),
    )
    &&& header_map_entries(q.headers) == no_headers()
    &&& q.query@.len() == 0
    &&& q.body is None
    &&& q.timeout == v.timeout
}

/// `r` is what signing the builder's request at a time stamp and a nonce
/// gives: the refusal of a parameter key that occurs twice, else that of a
/// method that the transport does not accept, else the signed request.
pub open spec fn builder_outcome(
    v: RequestBuilderView,
    timestamp: Seq<char>,
    nonce: Seq<char>,
    r: Result<SignedRequest, Error>,
) -> bool {
    if !distinct_keys(builder_params(v, timestamp, nonce)) {
        r matches Err(Error::InvalidRequest(m)) && m@ == duplicate_parameter_text()
    } else if !is_http_method(v.method) {
        r matches Err(Error::InvalidRequest(m)) && m@ == invalid_method_text()
    } else {
        r matches Ok(q) && builder_request_signed(v, timestamp, nonce, q)
    }
}

impl Client {
    /// Create a rpc style api client.
    pub fn new(
        access_key_id: String,
        access_key_secret: String,
        endpoint: String,
        version: String,
    ) -> (r: Self)
        ensures
            r@ == (ClientView {
                access_key_id: access_key_id@,
                access_key_secret: access_key_secret@,
                endpoint: endpoint@,
                version: version@,
            }),
    {
        Client { access_key_id, access_key_secret, endpoint, version }
    }

    /// Create a `GET` request with the `action`.
    pub fn get<'a>(&'a self, action: &str) -> (r: RequestBuilder<'a>)
        ensures
            r@ == new_builder(self@, "GET"@, action@),
    {
        self.execute("GET", action)
    }

    /// Create a `POST` request with the `action`.
    pub fn post<'a>(&'a self, action: &str) -> (r: RequestBuilder<'a>)
        ensures
            r@ == new_builder(self@, "POST"@, action@),
    {
        self.execute("POST", action)
    }

    /// Create a request with the `method` and `action`.
    pub fn execute<'a>(&'a self, method: &str, action: &str) -> (r: RequestBuilder<'a>)
        ensures
            r@ == new_builder(self@, method@, action@),
    {
        RequestBuilder::new(
            self.access_key_id.as_str(),
            self.access_key_secret.as_str(),
            self.endpoint.as_str(),
            self.version.as_str(),
            String::from_str(method),
            String::from_str(action),
        )
    }

    /// Signs a `GET` call of the action with the queries, at a time stamp
    /// and a nonce. It is refused where a parameter key occurs twice.
    pub fn request_at(
        &self,
        action: &str,
        queries: &[(&str, &str)],
        timestamp: &str,
        nonce: &str,
    ) -> (r: Result<SignedRequest, Error>)
        ensures
            builder_outcome(
                get_builder(self@, action@, str_pairs(queries@)),
                timestamp@,
                nonce@,
                r,
            ),
            r is Ok == distinct_keys(
                builder_params(get_builder(self@, action@, str_pairs(queries@)), timestamp@, nonce@),
            ),
            r matches Ok(q) ==> builder_request_signed(
                get_builder(self@, action@, str_pairs(queries@)),
                timestamp@,
                nonce@,
                q,
            ),
            r matches Err(e) ==> e matches Error::InvalidRequest(m) && m@
                == duplicate_parameter_text(),
    {
        proof {
            lemma_known_methods();
        }
        let mut query: Vec<(String, String)> = Vec::new();
        assert(query.deep_view() =~= Seq::empty());
        push_str_pairs(&mut query, queries);
        assert(query.deep_view() =~= str_pairs(queries@));
        let params = rpc_parameters(
            action,
            self.access_key_id.as_str(),
            nonce,
            timestamp,
            self.version.as_str(),
            &query,
        );
        match rpc_signed_url(
            self.endpoint.as_str(),
            self.access_key_secret.as_str(),
            "GET",
            &params,
        ) {
            Ok(url) => Ok(
                SignedRequest {
                    method: String::from_str("GET"),
                    url,
                    headers: header_map_new(),
                    query: Vec::new(),
                    body: None,
                    timeout: Some(seconds(30)),
                },
            ),
            Err(e) => Err(e),
        }
    }

    /// Signs a `GET` call of the action with the queries at the present
    /// moment, with a random nonce. Where the time stamp cannot be written
    /// the request is refused with what the formatter said; else the result
    /// is that of signing at the time stamp and the nonce.
    pub fn request(&self, action: &str, queries: &[(&str, &str)]) -> (r: Result<
        SignedRequest,
        Error,
    >)
        ensures
            is_timestamp_refusal(r) || exists|timestamp: Seq<char>, nonce: Seq<char>|
                builder_outcome(
                    get_builder(self@, action@, str_pairs(queries@)),
                    timestamp,
                    nonce,
                    r,
                ),
            r matches Ok(q) ==> exists|timestamp: Seq<char>, nonce: Seq<char>|
                builder_request_signed(
                    get_builder(self@, action@, str_pairs(queries@)),
                    timestamp,
                    nonce,
                    q,
                ),
            r matches Err(e) ==> e is InvalidRequest,
    {
        let nonce = random_uuid();
        let now = now_utc();
        match format_iso8601(&now) {
            Ok(timestamp) => {
                let r = self.request_at(action, queries, timestamp.as_str(), nonce.as_str());
                proof {
                    assert(builder_outcome(
                        get_builder(self@, action@, str_pairs(queries@)),
                        timestamp@,
                        nonce@,
                        r,
                    ));
                    if r is Ok {
                        assert(builder_request_signed(
                            get_builder(self@, action@, str_pairs(queries@)),
                            timestamp@,
                            nonce@,
                            r->Ok_0,
                        ));
                    }
                }
                r
            },
            Err(text) => timestamp_refusal(text.as_str()),
        }
    }
}

impl<'a> RequestBuilder<'a> {
    /// Create a request object.
    pub fn new(
        access_key_id: &'a str,
        access_key_secret: &'a str,
        endpoint: &'a str,
        version: &'a str,
        method: String,
        action: String,
    ) -> (r: Self)
        ensures
            r@ == (RequestBuilderView {
                access_key_id: access_key_id@,
                access_key_secret: access_key_secret@,
                endpoint: endpoint@,
                version: version@,
                action: action@,
                method: method@,
                query: Seq::empty(),
                timeout: default_timeout(),
            }),
    {
        let query: Vec<(String, String)> = Vec::new();
        assert(query.deep_view() =~= Seq::empty());
        RequestBuilder {
            access_key_id,
            access_key_secret,
            endpoint,
            version,
            action,
            method,
            query,
            timeout: Some(seconds(30)),
        }
    }

    /// Set queries for request: they come behind those set before.
    pub fn query(self, iter: &[(&str, &str)]) -> (r: Self)
        ensures
            r@ == (RequestBuilderView { query: self@.query + str_pairs(iter@), ..self@ }),
    {
        let mut b = self;
        let mut query = b.query;
        push_str_pairs(&mut query, iter);
        b.query = query;
        b
    }

    /// Set a timeout for connect, read and write operations; `None` takes
    /// the limit away.
    pub fn timeout(self, timeout: Option<Duration>) -> (r: Self)
        ensures
            r@ == (RequestBuilderView { timeout, ..self@ }),
    {
        let mut b = self;
        b.timeout = timeout;
        b
    }

    /// Signs the request at a time stamp and a nonce. It is refused where a
    /// parameter key occurs twice or the method is none that the transport
    /// accepts.
    pub fn signed_request_at(self, timestamp: &str, nonce: &str) -> (r: Result<
        SignedRequest,
        Error,
    >)
        ensures
            builder_outcome(self@, timestamp@, nonce@, r),
            r is Ok == (distinct_keys(builder_params(self@, timestamp@, nonce@))
                && is_http_method(self@.method)),
            r matches Ok(q) ==> builder_request_signed(self@, timestamp@, nonce@, q),
            r matches Err(e) ==> e matches Error::InvalidRequest(m) && m@ == (if !distinct_keys(
                builder_params(self@, timestamp@, nonce@),
            ) {
                duplicate_parameter_text()
            } else {
                invalid_method_text()
            }),
    {
        let params = rpc_parameters(
            self.action.as_str(),
            self.access_key_id,
            nonce,
            timestamp,
            self.version,
            &self.query,
        );
        let url = match rpc_signed_url(
            self.endpoint,
            self.access_key_secret,
            self.method.as_str(),
            &params,
        ) {
            Ok(u) => u,
            Err(e) => return Err(e),
        };
        if !http_method_accepted(self.method.as_str()) {
            return Err(
                Error::InvalidRequest(String::from_str("Invalid HTTP method: invalid HTTP method")),
            );
        }
        Ok(
            SignedRequest {
                method: self.method,
                url,
                headers: header_map_new(),
                query: Vec::new(),
                body: None,
                timeout: self.timeout,
            },
        )
    }

    /// Signs the request at the present moment, with a random nonce. Where
    /// the time stamp cannot be written the request is refused with what
    /// the formatter said; else the result is that of signing at the time
    /// stamp and the nonce.
    pub fn signed_request(self) -> (r: Result<SignedRequest, Error>)
        ensures
            is_timestamp_refusal(r) || exists|timestamp: Seq<char>, nonce: Seq<char>|
                builder_outcome(self@, timestamp, nonce, r),
            r matches Ok(q) ==> exists|timestamp: Seq<char>, nonce: Seq<char>|
                builder_request_signed(self@, timestamp, nonce, q),
            r matches Err(e) ==> e is InvalidRequest,
    {
        let nonce = random_uuid();
        let now = now_utc();
        match format_iso8601(&now) {
            Ok(timestamp) => {
                let ghost v = self@;
                let r = self.signed_request_at(timestamp.as_str(), nonce.as_str());
                proof {
                    assert(builder_outcome(v, timestamp@, nonce@, r));
                    if r is Ok {
                        assert(builder_request_signed(v, timestamp@, nonce@, r->Ok_0));
                    }
                }
                r
            },
            Err(text) => timestamp_refusal(text.as_str()),
        }
    }
}

} // verus!
