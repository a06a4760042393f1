//! The borrowing client of the resource dialect: a `Client` lends its
//! credentials to the request builders it makes.
use crate::client::error::{Error, HeaderError, HeaderFault};
use crate::header_sign::{
    body_headers, body_headers_agree, HeaderCall, is_refusal, lemma_body_header_names,
    put_body_headers, replaced_headers, roa_final_headers, roa_refusal, sign_roa_call,
};
use crate::headers::{
    fits, header_fault, header_map_entries, header_map_insert, header_map_new,
    header_name_from_str, header_name_text, header_value_bytes, header_value_from_str,
    is_header_value, lemma_fits_insert, lemma_known_names, no_headers, normalized_header_name,
    set_header, set_text_header,
};
use crate::moment::{format_described, now_utc, rfc1123_format, random_uuid};
use crate::params::{push_str_pairs, str_pairs};
use crate::request::{
    agent, agent_text, date_refusal, default_timeout, is_date_refusal, seconds, SignedRequest,
};
use reqwest::header::{HeaderMap, HeaderValue};
use std::time::Duration;
use vstd::prelude::*;
use vstd::utf8::encode_utf8;

verus! {

/// The roa style api client.
#[derive(Clone, Debug)]
pub struct Client {
    /// The access key id of aliyun developer account.
    access_key_id: String,
    /// The access key secret of aliyun developer account.
    access_key_secret: String,
    /// The api endpoint of aliyun api service (need start with http:// or https://).
    endpoint: String,
    /// The api version of aliyun api service.
    version: String,
}

/// What a client holds.
pub struct ClientView {
    pub access_key_id: Seq<char>,
    pub access_key_secret: Seq<char>,
    pub endpoint: Seq<char>,
    pub version: Seq<char>,
}

impl View for Client {
    type V = ClientView;

    closed spec fn view(&self) -> ClientView {
        ClientView {
            access_key_id: self.access_key_id@,
            access_key_secret: self.access_key_secret@,
            endpoint: self.endpoint@,
            version: self.version@,
        }
    }
}

/// The number of headers that a request builder puts into its map at most:
/// those that a caller may configure and those that the builder starts
/// with. A builder that is offered more keeps them out of its map, which
/// would panic at a size far above this, and refuses the request when it is
/// signed.
pub const BUILDER_HEADER_LIMIT: usize = 4008;

/// The request builder struct.
pub struct RequestBuilder<'a> {
    access_key_id: &'a str,
    access_key_secret: &'a str,
    endpoint: &'a str,
    method: String,
    uri: String,
    body: Option<String>,
    query: Vec<(String, String)>,
    headers: HeaderMap<HeaderValue>,
    inserted: usize,
    refused: Option<HeaderError>,
    timeout: Option<Duration>,
}

/// Why a header was refused, if one was.
pub open spec fn fault_of(refused: Option<HeaderError>) -> Option<HeaderFault> {
    match refused {
        Some(e) => Some(e@),
        None => None,
    }
}

/// What a request builder holds: beside the request, the number of
/// headers it has put into its map, and why the first header that it could
/// not take was refused, if there was one.
pub struct RequestBuilderView {
    pub access_key_id: Seq<char>,
    pub access_key_secret: Seq<char>,
    pub endpoint: Seq<char>,
    pub method: Seq<char>,
    pub uri: Seq<char>,
    pub body: Option<Seq<char>>,
    pub query: Seq<(Seq<char>, Seq<char>)>,
    pub headers: Map<Seq<char>, Seq<u8>>,
    pub inserted: nat,
    pub refusal: Option<HeaderFault>,
    pub timeout: Option<Duration>,
}

impl<'a> View for RequestBuilder<'a> {
    type V = RequestBuilderView;

    closed spec fn view(&self) -> RequestBuilderView {
        RequestBuilderView {
            access_key_id: self.access_key_id@,
            access_key_secret: self.access_key_secret@,
            endpoint: self.endpoint@,
            method: self.method@,
            uri: self.uri@,
            body: self.body.deep_view(),
            query: self.query.deep_view(),
            headers: header_map_entries(self.headers),
            inserted: self.inserted as nat,
            refusal: fault_of(self.refused),
            timeout: self.timeout,
        }
    }
}

/// The headers that every request builder starts with.
pub open spec fn builder_default_headers() -> Map<Seq<char>, Seq<u8>> {
    no_headers().insert("accept"@, encode_utf8("application/json"@)).insert(
        "x-acs-signature-method"@,
        encode_utf8("HMAC-SHA1"@),
    ).insert("x-acs-signature-version"@, encode_utf8("1.0"@)).insert(
        "user-agent"@,
        encode_utf8(agent_text()),
    ).insert("x-sdk-client"@, encode_utf8(agent_text()))
}

/// The request builder for a method and a path: it holds the default
/// headers and, where the version is a header value, the version; where it
/// is none, the builder holds the refusal.
pub open spec fn new_builder(
    access_key_id: Seq<char>,
    access_key_secret: Seq<char>,
    endpoint: Seq<char>,
    version: Seq<char>,
    method: Seq<char>,
    uri: Seq<char>,
) -> RequestBuilderView {
    let accepted = is_header_value(encode_utf8(version));
    RequestBuilderView {
        access_key_id,
        access_key_secret,
        endpoint,
        method,
        uri,
        body: None,
        query: Seq::empty(),
        headers: if accepted {
            builder_default_headers().insert("x-acs-version"@, encode_utf8(version))
        } else {
            builder_default_headers()
        },
        inserted: if accepted {
            6
        } else {
            5
        },
        refusal: if accepted {
            None
        } else {
            Some(HeaderFault::Value)
        },
        timeout: default_timeout(),
    }
}

/// The headers of a builder: the map, the number of headers put into it,
/// and the first refusal.
pub struct BuilderHeaders {
    pub headers: Map<Seq<char>, Seq<u8>>,
    pub inserted: nat,
    pub refusal: Option<HeaderFault>,
}

/// The headers of a builder.
pub open spec fn builder_headers(v: RequestBuilderView) -> BuilderHeaders {
    BuilderHeaders { headers: v.headers, inserted: v.inserted, refusal: v.refusal }
}

/// The refusal that a builder holds once a header is refused: the one it
/// held before, or else the new one.
pub open spec fn first_refusal(held: Option<HeaderFault>, f: HeaderFault) -> Option<HeaderFault> {
    if held is Some {
        held
    } else {
        Some(f)
    }
}

/// The headers of a builder once one more header is offered. It is put into
/// the map where its name and its value are accepted and the map has room.
/// Otherwise the map stays as it is and the builder holds the refusal,
/// unless it holds one already: for the name, or else the value, or else
/// the want of room.
pub open spec fn offer_header(state: BuilderHeaders, e: (Seq<char>, Seq<char>)) -> BuilderHeaders {
    match header_fault(e) {
        Some(f) => BuilderHeaders { refusal: first_refusal(state.refusal, f), ..state },
        None => if state.inserted < BUILDER_HEADER_LIMIT {
            BuilderHeaders {
                headers: state.headers.insert(normalized_header_name(e.0)->0, encode_utf8(e.1)),
                inserted: state.inserted + 1,
                ..state
            }
        } else {
            BuilderHeaders {
                refusal: first_refusal(state.refusal, HeaderFault::TooMany),
                ..state
            }
        },
    }
}

/// The headers of a builder once a list of headers is offered, one after
/// the other.
pub open spec fn offer_headers(state: BuilderHeaders, list: Seq<(Seq<char>, Seq<char>)>) -> BuilderHeaders
    decreases list.len(),
{
    if list.len() == 0 {
        state
    } else {
        offer_header(offer_headers(state, list.drop_last()), list.last())
    }
}

/// No refused header is passed over: a builder keeps the refusal that it
/// holds, and a list in which the name or the value of some entry is no
/// HTTP header syntax leaves the builder with a refusal.
pub proof fn lemma_offer_headers_refusal(state: BuilderHeaders, list: Seq<(Seq<char>, Seq<char>)>)
    ensures
        state.refusal is Some ==> offer_headers(state, list).refusal == state.refusal,
        (exists|i: int| 0 <= i < list.len() && header_fault(#[trigger] list[i]) is Some)
            ==> offer_headers(state, list).refusal is Some,
    decreases list.len(),
{
    if list.len() > 0 {
        let front = list.drop_last();
        lemma_offer_headers_refusal(state, front);
        if exists|i: int| 0 <= i < list.len() && header_fault(#[trigger] list[i]) is Some {
            let i = choose|i: int| 0 <= i < list.len() && header_fault(#[trigger] list[i]) is Some;
            if i < list.len() - 1 {
                assert(front[i] == list[i]);
            }
        }
    }
}

/// The call that a builder is configured for, at a date and a nonce. Where
/// there is a body, its two headers are those of the body, whatever was set
/// under their names since.
pub open spec fn builder_call(v: RequestBuilderView, date: Seq<char>, nonce: Seq<char>) -> HeaderCall {
    HeaderCall {
        headers: replaced_headers(v.headers, v.body),
        access_key_id: v.access_key_id,
        secret: v.access_key_secret,
        endpoint: v.endpoint,
        method: v.method,
        uri: v.uri,
        query: v.query,
        date,
        nonce,
    }
}

/// `q` is the signed request of the builder at a date and a nonce.
pub open spec fn builder_request_signed(
    v: RequestBuilderView,
    date: Seq<char>,
    nonce: Seq<char>,
    q: SignedRequest,
) -> bool {
    let c = builder_call(v, date, nonce);
    &&& q.method@ == c.method
    &&& q.url@ == c.endpoint + c.uri
    &&& header_map_entries(q.headers) == roa_final_headers(c)
    &&& q.query.deep_view() == v.query
    &&& q.body.deep_view() == v.body
    &&& q.timeout == v.timeout
}

/// `r` is what signing the builder's request at a date and a nonce gives:
/// the refusal that the builder holds, of the version or of a header, else
/// the first refusal of the call, else the signed request.
pub open spec fn builder_outcome(
    v: RequestBuilderView,
    date: Seq<char>,
    nonce: Seq<char>,
    r: Result<SignedRequest, Error>,
) -> bool {
    match v.refusal {
        Some(f) => r matches Err(Error::InvalidHeader(h)) && h@ == f,
        None => match roa_refusal(builder_call(v, date, nonce)) {
            Some(refusal) => r matches Err(e) && is_refusal(refusal, e),
            None => r matches Ok(q) && builder_request_signed(v, date, nonce, q),
        },
    }
}

/// Whatever the order in which body and headers were set, a signed request
/// with a body holds the length and the digest of that body in
/// `content-length` and `content-md5`, and a signed request without a body
/// holds neither unless the caller configured it.
pub proof fn lemma_builder_body_headers(
    v: RequestBuilderView,
    date: Seq<char>,
    nonce: Seq<char>,
    q: SignedRequest,
)
    requires
        builder_request_signed(v, date, nonce, q),
    ensures
        q.body.deep_view() == v.body,
        body_headers_agree(v.headers, v.body, header_map_entries(q.headers)),
{
    lemma_body_header_names();
}

impl Client {
    /// Create a roa style api client.
    pub fn new(
        access_key_id: String,
        access_key_secret: String,
        endpoint: String,
        version: String,
    ) -> (r: Self)
        ensures
            r@ == (ClientView {
                access_key_id: access_key_id@,
                access_key_secret: access_key_secret@,
                endpoint: endpoint@,
                version: version@,
            }),
    {
        Client { access_key_id, access_key_secret, endpoint, version }
    }

    /// Create a request with the `method` and `uri`.
    pub fn execute<'a>(&'a self, method: &str, uri: &str) -> (r: RequestBuilder<'a>)
        ensures
            r@ == new_builder(
                self@.access_key_id,
                self@.access_key_secret,
                self@.endpoint,
                self@.version,
                method@,
                uri@,
            ),
    {
        RequestBuilder::new(
            self.access_key_id.as_str(),
            self.access_key_secret.as_str(),
            self.endpoint.as_str(),
            self.version.as_str(),
            String::from_str(method),
            String::from_str(uri),
        )
    }

    /// Create a `GET` request with the `uri`.
    pub fn get<'a>(&'a self, uri: &str) -> (r: RequestBuilder<'a>)
        ensures
            r@ == new_builder(
                self@.access_key_id,
                self@.access_key_secret,
                self@.endpoint,
                self@.version,
                "GET"@,
                uri@,
            ),
    {
        self.execute("GET", uri)
    }

    /// Create a `POST` request with the `uri`.
    pub fn post<'a>(&'a self, uri: &str) -> (r: RequestBuilder<'a>)
        ensures
            r@ == new_builder(
                self@.access_key_id,
                self@.access_key_secret,
                self@.endpoint,
                self@.version,
                "POST"@,
                uri@,
            ),
    {
        self.execute("POST", uri)
    }

    /// Create a `PUT` request with the `uri`.
    pub fn put<'a>(&'a self, uri: &str) -> (r: RequestBuilder<'a>)
        ensures
            r@ == new_builder(
                self@.access_key_id,
                self@.access_key_secret,
                self@.endpoint,
                self@.version,
                "PUT"@,
                uri@,
            ),
    {
        self.execute("PUT", uri)
    }
}

impl<'a> RequestBuilder<'a> {
    #[verifier::type_invariant]
    spec fn headers_fit(&self) -> bool {
        fits(header_map_entries(self.headers), self.inserted as nat) && self.inserted
            <= BUILDER_HEADER_LIMIT
    }

    /// Create a request object. A version that is no header value is kept
    /// out of the headers, and the request is refused when it is signed.
    pub fn new(
        access_key_id: &'a str,
        access_key_secret: &'a str,
        endpoint: &'a str,
        version: &'a str,
        method: String,
        uri: String,
    ) -> (r: Self)
        ensures
            r@ == new_builder(
                access_key_id@,
                access_key_secret@,
                endpoint@,
                version@,
                method@,
                uri@,
            ),
    {
        proof {
            lemma_known_names();
            reveal_strlit("application/json");
            reveal_strlit("HMAC-SHA1");
            reveal_strlit("1.0");
        }
        let mut headers = header_map_new();
        let ghost h0 = header_map_entries(headers);
        set_text_header(&mut headers, "accept", "application/json");
        let ghost h1 = header_map_entries(headers);
        proof {
            lemma_fits_insert(h0, 0, "accept"@, encode_utf8("application/json"@));
        }
        set_text_header(&mut headers, "x-acs-signature-method", "HMAC-SHA1");
        let ghost h2 = header_map_entries(headers);
        proof {
            lemma_fits_insert(h1, 1, "x-acs-signature-method"@, encode_utf8("HMAC-SHA1"@));
        }
        set_text_header(&mut headers, "x-acs-signature-version", "1.0");
        let ghost h3 = header_map_entries(headers);
        proof {
            lemma_fits_insert(h2, 2, "x-acs-signature-version"@, encode_utf8("1.0"@));
        }
        set_text_header(&mut headers, "user-agent", agent());
        let ghost h4 = header_map_entries(headers);
        proof {
            lemma_fits_insert(h3, 3, "user-agent"@, encode_utf8(agent_text()));
        }
        set_text_header(&mut headers, "x-sdk-client", agent());
        let ghost h5 = header_map_entries(headers);
        proof {
            lemma_fits_insert(h4, 4, "x-sdk-client"@, encode_utf8(agent_text()));
            lemma_fits_insert(h5, 5, "x-acs-version"@, encode_utf8(version@));
        }
        let (inserted, refused): (usize, Option<HeaderError>) = match set_header(
            &mut headers,
            "x-acs-version",
            version,
        ) {
            Ok(_) => (6, None),
            Err(e) => (5, Some(HeaderError::Value(e))),
        };
        let query: Vec<(String, String)> = Vec::new();
        assert(query.deep_view() =~= Seq::empty());
        RequestBuilder {
            access_key_id,
            access_key_secret,
            endpoint,
            method,
            uri,
            body: None,
            query,
            headers,
            inserted,
            refused,
            timeout: Some(seconds(30)),
        }
    }

    /// Set body for request: `content-length` then holds the number of its
    /// bytes and `content-md5` the base64 of its MD5 digest. A builder
    /// without room for two more headers refuses it.
    pub fn body(self, body: &str) -> (r: Result<Self, Error>)
        ensures
            r is Ok == (self@.inserted + 2 <= BUILDER_HEADER_LIMIT),
            r matches Ok(b) ==> b@ == (RequestBuilderView {
                body: Some(body@),
                headers: body_headers(self@.headers, body@),
                inserted: self@.inserted + 2,
                ..self@
            }),
            r matches Err(e) ==> e matches Error::InvalidHeader(h) && h@ == HeaderFault::TooMany,
    {
        proof {
            use_type_invariant(&self);
        }
        if self.inserted > BUILDER_HEADER_LIMIT - 2 {
            return Err(Error::InvalidHeader(HeaderError::TooMany));
        }
        let inserted = self.inserted + 2;
        let mut headers = self.headers;
        put_body_headers(&mut headers, body, Ghost(self.inserted as nat));
        Ok(
            RequestBuilder {
                access_key_id: self.access_key_id,
                access_key_secret: self.access_key_secret,
                endpoint: self.endpoint,
                method: self.method,
                uri: self.uri,
                body: Some(String::from_str(body)),
                query: self.query,
                headers,
                inserted,
                refused: self.refused,
                timeout: self.timeout,
            },
        )
    }

    /// Set header for request: each header is put where its name and its
    /// value are accepted and there is room. The first header that is
    /// refused is kept in mind, and the request is refused for it when it
    /// is signed.
    pub fn header(self, iter: &[(&str, &str)]) -> (r: Self)
        ensures
            r@ == (RequestBuilderView {
                headers: offer_headers(builder_headers(self@), str_pairs(iter@)).headers,
                inserted: offer_headers(builder_headers(self@), str_pairs(iter@)).inserted,
                refusal: offer_headers(builder_headers(self@), str_pairs(iter@)).refusal,
                ..self@
            }),
    {
        proof {
            use_type_invariant(&self);
        }
        let ghost start = builder_headers(self@);
        let ghost list = str_pairs(iter@);
        let mut headers = self.headers;
        let mut inserted = self.inserted;
        let mut refused = self.refused;
        let mut i: usize = 0;
        proof {
            assert(list.take(0) =~= Seq::empty());
        }
        while i < iter.len()
            invariant
                i <= iter.len(),
                list == str_pairs(iter@),
                (BuilderHeaders {
                    headers: header_map_entries(headers),
                    inserted: inserted as nat,
                    refusal: fault_of(refused),
                }) == offer_headers(start, list.take(i as int)),
                fits(header_map_entries(headers), inserted as nat),
                inserted <= BUILDER_HEADER_LIMIT,
            decreases iter.len() - i,
        {
            proof {
                assert(list.take(i + 1).drop_last() =~= list.take(i as int));
                assert(list.take(i + 1).last() == (iter@[i as int].0@, iter@[i as int].1@));
            }
            match header_name_from_str(iter[i].0) {
                Some(name) => {
                    match header_value_from_str(iter[i].1) {
                        Ok(value) => {
                            if inserted < BUILDER_HEADER_LIMIT {
                                proof {
                                    lemma_fits_insert(
                                        header_map_entries(headers),
                                        inserted as nat,
                                        header_name_text(name),
                                        header_value_bytes(value),
                                    );
                                }
                                header_map_insert(&mut headers, name, value);
                                inserted = inserted + 1;
                            } else if refused.is_none() {
                                refused = Some(HeaderError::TooMany);
                            }
                        },
                        Err(e) => {
                            if refused.is_none() {
                                refused = Some(HeaderError::Value(e));
                            }
                        },
                    }
                },
                None => {
                    if refused.is_none() {
                        refused = Some(HeaderError::Name(String::from_str(iter[i].0)));
                    }
                },
            }
            i += 1;
        }
        proof {
            assert(list.take(iter.len() as int) =~= list);
        }
        RequestBuilder {
            access_key_id: self.access_key_id,
            access_key_secret: self.access_key_secret,
            endpoint: self.endpoint,
            method: self.method,
            uri: self.uri,
            body: self.body,
            query: self.query,
            headers,
            inserted,
            refused,
            timeout: self.timeout,
        }
    }

    /// Set queries for request: they come behind those set before.
    pub fn query(self, iter: &[(&str, &str)]) -> (r: Self)
        ensures
            r@ == (RequestBuilderView { query: self@.query + str_pairs(iter@), ..self@ }),
    {
        proof {
            use_type_invariant(&self);
        }
        let mut b = self;
        let mut query = b.query;
        push_str_pairs(&mut query, iter);
        b.query = query;
        b
    }

    /// Set a timeout for connect, read and write operations; `None` takes
    /// the limit away.
    pub fn timeout(self, timeout: Option<Duration>) -> (r: Self)
        ensures
            r@ == (RequestBuilderView { timeout, ..self@ }),
    {
        proof {
            use_type_invariant(&self);
        }
        let mut b = self;
        b.timeout = timeout;
        b
    }

    /// Signs the request at a date and a nonce. It is refused for the
    /// first header that the builder could not take, the version among
    /// them, and else for each reason for which a call cannot be signed.
    pub fn signed_request_at(self, date: &str, nonce: &str) -> (r: Result<SignedRequest, Error>)
        ensures
            builder_outcome(self@, date@, nonce@, r),
            self@.refusal matches Some(f) ==> (r matches Err(Error::InvalidHeader(h)) && h@ == f),
            self@.refusal is None ==> match roa_refusal(builder_call(self@, date@, nonce@)) {
                Some(refusal) => r matches Err(e) && is_refusal(refusal, e),
                None => r matches Ok(q) && builder_request_signed(self@, date@, nonce@, q),
            },
    {
        proof {
            use_type_invariant(&self);
        }
        let mut headers = self.headers;
        match &self.body {
            Some(b) => {
                put_body_headers(&mut headers, b.as_str(), Ghost(self.inserted as nat));
            },
            None => {},
        }
        match self.refused {
            Some(e) => Err(Error::InvalidHeader(e)),
            None => sign_roa_call(
                headers,
                self.access_key_id,
                self.access_key_secret,
                self.endpoint,
                self.method,
                self.uri.as_str(),
                self.query,
                self.body,
                self.timeout,
                date,
                nonce,
            ),
        }
    }

    /// Signs the request at the present moment, written as an RFC 1123
    /// date, with a random nonce. Where the date cannot be written the
    /// request is refused with what the formatter said; else the result is
    /// that of signing at the date and the nonce.
    pub fn signed_request(self) -> (r: Result<SignedRequest, Error>)
        ensures
            is_date_refusal(r) || exists|date: Seq<char>, nonce: Seq<char>|
                builder_outcome(self@, date, nonce, r),
            r matches Ok(q) ==> exists|date: Seq<char>, nonce: Seq<char>|
                builder_request_signed(self@, date, nonce, q),
    {
        let now = now_utc();
        match format_described(&now, rfc1123_format()) {
            Ok(date) => {
                let nonce = random_uuid();
                let ghost v = self@;
                let r = self.signed_request_at(date.as_str(), nonce.as_str());
                proof {
                    assert(builder_outcome(v, date@, nonce@, r));
                    if r is Ok {
                        assert(builder_request_signed(v, date@, nonce@, r->Ok_0));
                    }
                }
                r
            },
            Err(text) => date_refusal(text.as_str()),
        }
    }
}

} // verus!
