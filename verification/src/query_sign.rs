//! The query-signed dialect: the parameters of a call, their canonical
//! string and the signed URL.
use crate::client::error::Error;
use crate::encode::{url_encode, url_encode_spec};
use crate::params::{
    clone_pair, distinct_keys, lemma_distinct_keys, lemma_sort_by_key_distinct,
    lemma_sort_by_key_order_independent, lemma_sort_by_key_repeated, lemma_sort_by_key_sorted,
    pair_line_strings, pair_lines, sort_by_key, sorted_has_repeated_key, sorted_pairs,
};
use crate::sign::{sign, signature};
use crate::text::{concat2, join, join_strings};
use vstd::prelude::*;

verus! {

/// The parameters of a call: the three fixed ones, the five of the call and
/// the caller's query, in this order.
pub open spec fn rpc_params(
    action: Seq<char>,
    access_key_id: Seq<char>,
    nonce: Seq<char>,
    timestamp: Seq<char>,
    version: Seq<char>,
    query: Seq<(Seq<char>, Seq<char>)>,
) -> Seq<(Seq<char>, Seq<char>)> {
    seq![
        ("Format"@, "JSON"@),
        ("SignatureMethod"@, "HMAC-SHA1"@),
        ("SignatureVersion"@, "1.0"@),
        ("Action"@, action),
        ("AccessKeyId"@, access_key_id),
        ("SignatureNonce"@, nonce),
        ("Timestamp"@, timestamp),
        ("Version"@, version),
    ] + query
}

/// Each key and each value URL-encoded.
pub open spec fn encoded_pairs(s: Seq<(Seq<char>, Seq<char>)>) -> Seq<(Seq<char>, Seq<char>)> {
    Seq::new(s.len(), |i: int| (url_encode_spec(s[i].0), url_encode_spec(s[i].1)))
}

/// The sorted query string: the parameters sorted by key, each key and value
/// URL-encoded, written as `k=v` and joined with `&`.
pub open spec fn rpc_query_string(params: Seq<(Seq<char>, Seq<char>)>) -> Seq<char> {
    join(pair_lines(encoded_pairs(sort_by_key(params)), seq!['=']), seq!['&'])
}

/// The canonical string: the method, the encoded `/` and the encoded sorted
/// query string, joined with `&`.
pub open spec fn rpc_string_to_sign(method: Seq<char>, query_string: Seq<char>) -> Seq<char> {
    method + seq!['&'] + url_encode_spec(seq!['/']) + seq!['&'] + url_encode_spec(query_string)
}

/// The signature of a call: the canonical string signed with the secret
/// followed by `&`.
pub open spec fn rpc_signature(
    secret: Seq<char>,
    method: Seq<char>,
    params: Seq<(Seq<char>, Seq<char>)>,
) -> Seq<char> {
    signature(secret + seq!['&'], rpc_string_to_sign(method, rpc_query_string(params)))
}

/// The signed URL: the endpoint, the encoded signature as the first
/// parameter, and the sorted query string.
pub open spec fn rpc_url(
    endpoint: Seq<char>,
    secret: Seq<char>,
    method: Seq<char>,
    params: Seq<(Seq<char>, Seq<char>)>,
) -> Seq<char> {
    endpoint + "?Signature="@ + url_encode_spec(rpc_signature(secret, method, params)) + seq!['&']
        + rpc_query_string(params)
}

/// Builds the parameter list of a call.
pub fn rpc_parameters(
    action: &str,
    access_key_id: &str,
    nonce: &str,
    timestamp: &str,
    version: &str,
    query: &Vec<(String, String)>,
) -> (r: Vec<(String, String)>)
    ensures
        r.deep_view() == rpc_params(
            action@,
            access_key_id@,
            nonce@,
            timestamp@,
            version@,
            query.deep_view(),
        ),
{
    let mut params: Vec<(String, String)> = Vec::new();
    params.push((String::from_str("Format"), String::from_str("JSON")));
    params.push((String::from_str("SignatureMethod"), String::from_str("HMAC-SHA1")));
    params.push((String::from_str("SignatureVersion"), String::from_str("1.0")));
    params.push((String::from_str("Action"), String::from_str(action)));
    params.push((String::from_str("AccessKeyId"), String::from_str(access_key_id)));
    params.push((String::from_str("SignatureNonce"), String::from_str(nonce)));
    params.push((String::from_str("Timestamp"), String::from_str(timestamp)));
    params.push((String::from_str("Version"), String::from_str(version)));
    let ghost fixed = params.deep_view();
    let mut i: usize = 0;
    while i < query.len()
        invariant
            i <= query.len(),
            params.deep_view() == fixed + query.deep_view().take(i as int),
        decreases query.len() - i,
    {
        let ghost before = params.deep_view();
        params.push(clone_pair(&query[i]));
        proof {
            assert(params.deep_view() =~= before.push(query.deep_view()[i as int]));
            assert(query.deep_view().take(i + 1) =~= query.deep_view().take(i as int).push(
                query.deep_view()[i as int],
            ));
        }
        i += 1;
    }
    proof {
        assert(query.deep_view().take(query.len() as int) =~= query.deep_view());
        assert(fixed =~= rpc_params(
            action@,
            access_key_id@,
            nonce@,
            timestamp@,
            version@,
            Seq::empty(),
        ));
        assert(params.deep_view() =~= rpc_params(
            action@,
            access_key_id@,
            nonce@,
            timestamp@,
            version@,
            query.deep_view(),
        ));
    }
    params
}

/// URL-encodes each key and each value.
pub fn url_encoded_pairs(v: &Vec<(String, String)>) -> (r: Vec<(String, String)>)
    ensures
        r.deep_view() == encoded_pairs(v.deep_view()),
{
    let mut out: Vec<(String, String)> = Vec::new();
    let mut i: usize = 0;
    while i < v.len()
        invariant
            i <= v.len(),
            out.len() == i,
            forall|j: int|
                0 <= j < i ==> #[trigger] out.deep_view()[j] == (
                    url_encode_spec(v.deep_view()[j].0),
                    url_encode_spec(v.deep_view()[j].1),
                ),
        decreases v.len() - i,
    {
        let ghost before = out.deep_view();
        let pair = (url_encode(v[i].0.as_str()), url_encode(v[i].1.as_str()));
        let ghost entry = pair.deep_view();
        out.push(pair);
        proof {
            assert(out.deep_view() =~= before.push(entry));
            assert(v.deep_view()[i as int] == (v[i as int].0@, v[i as int].1@));
        }
        i += 1;
    }
    assert(out.deep_view() =~= encoded_pairs(v.deep_view()));
    out
}

/// Signs a call and builds its URL. A list in which a key occurs twice is
/// refused.
pub fn rpc_signed_url(
    endpoint: &str,
    secret: &str,
    method: &str,
    params: &Vec<(String, String)>,
) -> (r: Result<String, Error>)
    ensures
        r is Ok == distinct_keys(params.deep_view()),
        r matches Ok(u) ==> u@ == rpc_url(endpoint@, secret@, method@, params.deep_view()),
        r matches Err(e) ==> e matches Error::InvalidRequest(m) && m@
            == "Duplicate query parameter"@,
{
    let sorted = sorted_pairs(params);
    proof {
        lemma_sort_by_key_sorted(params.deep_view());
        if distinct_keys(params.deep_view()) {
            lemma_sort_by_key_distinct(params.deep_view());
        } else {
            lemma_sort_by_key_repeated(params.deep_view());
        }
    }
    if sorted_has_repeated_key(&sorted) {
        return Err(Error::InvalidRequest(String::from_str("Duplicate query parameter")));
    }
    proof {
        reveal_strlit("=");
        reveal_strlit("&");
        reveal_strlit("/");
        assert("="@ =~= seq!['=']);
        assert("&"@ =~= seq!['&']);
        assert("/"@ =~= seq!['/']);
    }
    let encoded = url_encoded_pairs(&sorted);
    let lines = pair_line_strings(&encoded, "=");
    let sorted_query_string = join_strings(&lines, "&");
    let mut string_to_sign = String::from_str(method);
    string_to_sign.append("&");
    string_to_sign.append(url_encode("/").as_str());
    string_to_sign.append("&");
    string_to_sign.append(url_encode(sorted_query_string.as_str()).as_str());
    let key = concat2(secret, "&");
    match sign(key.as_str(), string_to_sign.as_str()) {
        Ok(code) => {
            let mut url = String::from_str(endpoint);
            url.append("?Signature=");
            url.append(url_encode(code.as_str()).as_str());
            url.append("&");
            url.append(sorted_query_string.as_str());
            Ok(url)
        },
        Err(e) => Err(e),
    }
}

/// The signed URL does not depend on the order in which the parameters came:
/// two lists that hold the same parameters are refused alike or give the
/// same URL.
pub proof fn lemma_rpc_url_order_independent(
    endpoint: Seq<char>,
    secret: Seq<char>,
    method: Seq<char>,
    a: Seq<(Seq<char>, Seq<char>)>,
    b: Seq<(Seq<char>, Seq<char>)>,
)
    requires
        a.to_multiset() == b.to_multiset(),
    ensures
        distinct_keys(a) == distinct_keys(b),
        distinct_keys(a) ==> rpc_url(endpoint, secret, method, a) == rpc_url(
            endpoint,
            secret,
            method,
            b,
        ),
{
    if distinct_keys(a) {
        lemma_distinct_keys(a);
        lemma_sort_by_key_order_independent(a, b);
        lemma_sort_by_key_distinct(a);
        if !distinct_keys(b) {
            lemma_sort_by_key_repeated(b);
        }
    } else if distinct_keys(b) {
        lemma_distinct_keys(b);
        lemma_sort_by_key_order_independent(b, a);
        lemma_sort_by_key_distinct(b);
        lemma_sort_by_key_repeated(a);
    }
}

/// The signed URL of a call does not depend on the order of the caller's
/// query: two queries that hold the same parameters are refused alike or
/// give the same URL.
pub proof fn lemma_rpc_query_order_independent(
    endpoint: Seq<char>,
    secret: Seq<char>,
    method: Seq<char>,
    action: Seq<char>,
    access_key_id: Seq<char>,
    nonce: Seq<char>,
    timestamp: Seq<char>,
    version: Seq<char>,
    a: Seq<(Seq<char>, Seq<char>)>,
    b: Seq<(Seq<char>, Seq<char>)>,
)
    requires
        a.to_multiset() == b.to_multiset(),
    ensures
        distinct_keys(rpc_params(action, access_key_id, nonce, timestamp, version, a))
            == distinct_keys(rpc_params(action, access_key_id, nonce, timestamp, version, b)),
        distinct_keys(rpc_params(action, access_key_id, nonce, timestamp, version, a)) ==> rpc_url(
            endpoint,
            secret,
            method,
            rpc_params(action, access_key_id, nonce, timestamp, version, a),
        ) == rpc_url(
            endpoint,
            secret,
            method,
            rpc_params(action, access_key_id, nonce, timestamp, version, b),
        ),
{
    let empty = Seq::<(Seq<char>, Seq<char>)>::empty();
    let fixed = rpc_params(action, access_key_id, nonce, timestamp, version, empty);
    let pa = rpc_params(action, access_key_id, nonce, timestamp, version, a);
    let pb = rpc_params(action, access_key_id, nonce, timestamp, version, b);
    assert(pa =~= fixed + a);
    assert(pb =~= fixed + b);
    vstd::seq_lib::lemma_multiset_commutative(fixed, a);
    vstd::seq_lib::lemma_multiset_commutative(fixed, b);
    lemma_rpc_url_order_independent(endpoint, secret, method, pa, pb);
}

/// The signature in a signed URL is the one that signing the canonical
/// string again gives: the canonical string is made of the method and of
/// the query string that the URL holds behind the signature.
pub proof fn lemma_rpc_url_round_trip(
    endpoint: Seq<char>,
    secret: Seq<char>,
    method: Seq<char>,
    params: Seq<(Seq<char>, Seq<char>)>,
)
    ensures
        rpc_url(endpoint, secret, method, params) == endpoint + "?Signature="@ + url_encode_spec(
            signature(
                secret + seq!['&'],
                rpc_string_to_sign(method, rpc_query_string(params)),
            ),
        ) + seq!['&'] + rpc_query_string(params),
{
}

} // verus!
