//! The canonical strings of the header-signed dialects.
use crate::client::error::{Error, HeaderError, HeaderFault};
use crate::headers::{
    ascii_text, field_text, field_visible, header_field, header_map_entries, header_map_get,
    header_map_names, header_name_string, header_value_text, is_visible, lemma_known_names,
    name_texts,
};
use crate::sign::{sign, signature};
use crate::text::{to_uppercase, uppercase};
use crate::params::{
    distinct_keys, lemma_distinct_keys, lemma_same_entries, lemma_sort_by_key_contains,
    lemma_sort_by_key_distinct, lemma_sort_by_key_sorted, lemma_sorted_unique,
    pair_line_strings, pair_lines, sort_by_key, sorted_by_key, sorted_pairs,
};
use crate::text::{concat3, has_prefix, join, join_strings};
use reqwest::header::{HeaderMap, HeaderValue};
use vstd::prelude::*;

verus! {

/// The canonicalized resource: the path alone where there is no query, else
/// the path, `?` and the query sorted by key and written as `k=v` joined
/// with `&`.
pub open spec fn canonical_resource(uri: Seq<char>, query: Seq<(Seq<char>, Seq<char>)>) -> Seq<
    char,
> {
    if query.len() == 0 {
        uri
    } else {
        uri + seq!['?'] + join(pair_lines(sort_by_key(query), seq!['=']), seq!['&'])
    }
}

/// Computes the canonicalized resource of a path and its query.
pub fn canonicalized_resource(uri: &str, query: &Vec<(String, String)>) -> (r: String)
    ensures
        r@ == canonical_resource(uri@, query.deep_view()),
{
    if query.len() == 0 {
        String::from_str(uri)
    } else {
        proof {
            reveal_strlit("?");
            reveal_strlit("=");
            reveal_strlit("&");
            assert("?"@ =~= seq!['?']);
            assert("="@ =~= seq!['=']);
            assert("&"@ =~= seq!['&']);
        }
        let sorted = sorted_pairs(query);
        let lines = pair_line_strings(&sorted, "=");
        let sorted_query_string = join_strings(&lines, "&");
        concat3(uri, "?", sorted_query_string.as_str())
    }
}

/// The canonicalized resource does not depend on the order of the query,
/// as long as parameters with the same key have the same value.
pub proof fn lemma_canonical_resource_order_independent(
    uri: Seq<char>,
    a: Seq<(Seq<char>, Seq<char>)>,
    b: Seq<(Seq<char>, Seq<char>)>,
)
    requires
        a.to_multiset() == b.to_multiset(),
        crate::params::keys_determine_values(a),
    ensures
        canonical_resource(uri, a) == canonical_resource(uri, b),
{
    broadcast use vstd::seq_lib::group_to_multiset_ensures;

    assert(a.len() == a.to_multiset().len());
    assert(b.len() == b.to_multiset().len());
    crate::params::lemma_sort_by_key_order_independent(a, b);
}

/// The prefix of the headers that every header-signed dialect signs.
pub open spec fn acs_prefix() -> Seq<char> {
    seq!['x', '-', 'a', 'c', 's', '-']
}

/// The prefix of the headers that the log dialect signs as well.
pub open spec fn log_prefix() -> Seq<char> {
    seq!['x', '-', 'l', 'o', 'g', '-']
}

/// True for the name of a header that goes into the canonicalized headers:
/// one that begins with `x-acs-`, or, in the log dialect, with `x-log-`.
pub open spec fn is_signed_header(name: Seq<char>, log: bool) -> bool {
    acs_prefix().is_prefix_of(name) || (log && log_prefix().is_prefix_of(name))
}

/// The values of all headers that are signed by their prefix can be read as
/// text.
pub open spec fn signed_headers_visible(h: Map<Seq<char>, Seq<u8>>, log: bool) -> bool {
    forall|k: Seq<char>|
        #![trigger h.dom().contains(k)]
        h.dom().contains(k) && is_signed_header(k, log) ==> is_visible(h[k])
}

/// `l` lists the headers that are signed by their prefix, each once with its
/// value as text, in ascending order of the names.
pub open spec fn is_canonical_header_list(
    l: Seq<(Seq<char>, Seq<char>)>,
    h: Map<Seq<char>, Seq<u8>>,
    log: bool,
) -> bool {
    &&& sorted_by_key(l)
    &&& distinct_keys(l)
    &&& forall|k: Seq<char>, v: Seq<char>| #[trigger]
        l.contains((k, v)) <==> (h.dom().contains(k) && is_signed_header(k, log) && v
            == ascii_text(h[k]))
}

/// The list of the headers that are signed by their prefix.
pub open spec fn canonical_header_list(h: Map<Seq<char>, Seq<u8>>, log: bool) -> Seq<
    (Seq<char>, Seq<char>),
> {
    choose|l: Seq<(Seq<char>, Seq<char>)>| is_canonical_header_list(l, h, log)
}

/// The canonicalized headers: one line `name:value` for each header that is
/// signed by its prefix, in ascending order of the names, joined with line
/// feeds.
pub open spec fn canonical_headers(h: Map<Seq<char>, Seq<u8>>, log: bool) -> Seq<char> {
    join(pair_lines(canonical_header_list(h, log), seq![':']), seq!['\n'])
}

/// Every finite header map has a list of its signed headers.
pub proof fn lemma_canonical_header_list_exists(h: Map<Seq<char>, Seq<u8>>, log: bool)
    requires
        h.dom().finite(),
    ensures
        is_canonical_header_list(canonical_header_list(h, log), h, log),
    decreases h.dom().len(),
{
    if h.dom().len() == 0 {
        let l = Seq::<(Seq<char>, Seq<char>)>::empty();
        assert forall|k: Seq<char>, v: Seq<char>| #[trigger]
            l.contains((k, v)) <==> (h.dom().contains(k) && is_signed_header(k, log) && v
                == ascii_text(h[k])) by {
            if h.dom().contains(k) {
                assert(h.dom().len() > 0);
            }
        }
        assert(is_canonical_header_list(l, h, log));
    } else {
        let k0 = h.dom().choose();
        let rest = h.remove(k0);
        assert(rest.dom() =~= h.dom().remove(k0));
        lemma_canonical_header_list_exists(rest, log);
        let lr = canonical_header_list(rest, log);
        let e = (k0, ascii_text(h[k0]));
        let l = if is_signed_header(k0, log) {
            crate::params::insert_by_key(lr, e)
        } else {
            lr
        };
        if is_signed_header(k0, log) {
            crate::params::lemma_insert_by_key_sorted(lr, e);
            assert forall|i: int| 0 <= i < lr.len() implies (#[trigger] lr[i]).0 != e.0 by {
                assert(lr.contains((lr[i].0, lr[i].1)));
            }
            crate::params::lemma_insert_by_key_distinct(lr, e);
        }
        assert forall|k: Seq<char>, v: Seq<char>| #[trigger]
            l.contains((k, v)) <==> (h.dom().contains(k) && is_signed_header(k, log) && v
                == ascii_text(h[k])) by {
            assert(lr.contains((k, v)) <==> (rest.dom().contains(k) && is_signed_header(k, log)
                && v == ascii_text(rest[k])));
            if is_signed_header(k0, log) {
                crate::params::lemma_insert_by_key_contains(lr, e, (k, v));
            }
        }
        assert(is_canonical_header_list(l, h, log));
    }
}

/// A header whose name is not signed by its prefix leaves the
/// canonicalized headers as they are.
pub proof fn lemma_canonical_headers_unsigned(
    h: Map<Seq<char>, Seq<u8>>,
    name: Seq<char>,
    value: Seq<u8>,
    log: bool,
)
    requires
        h.dom().finite(),
        !is_signed_header(name, log),
    ensures
        canonical_headers(h.insert(name, value), log) == canonical_headers(h, log),
        signed_headers_visible(h.insert(name, value), log) == signed_headers_visible(h, log),
{
    let g = h.insert(name, value);
    lemma_canonical_header_list_exists(h, log);
    lemma_canonical_header_list_exists(g, log);
    let l = canonical_header_list(h, log);
    assert forall|k: Seq<char>, v: Seq<char>| #[trigger]
        l.contains((k, v)) <==> (g.dom().contains(k) && is_signed_header(k, log) && v
            == ascii_text(g[k])) by {
        assert(l.contains((k, v)) <==> (h.dom().contains(k) && is_signed_header(k, log) && v
            == ascii_text(h[k])));
    }
    lemma_canonical_header_list_unique(l, canonical_header_list(g, log), g, log);
    if signed_headers_visible(h, log) {
        assert forall|k: Seq<char>|
            #![trigger g.dom().contains(k)]
            g.dom().contains(k) && is_signed_header(k, log) implies is_visible(g[k]) by {
            assert(h.dom().contains(k));
        }
    }
    if signed_headers_visible(g, log) {
        assert forall|k: Seq<char>|
            #![trigger h.dom().contains(k)]
            h.dom().contains(k) && is_signed_header(k, log) implies is_visible(h[k]) by {
            assert(g.dom().contains(k));
        }
    }
}

/// The `Authorization` header leaves the canonical string as it is: it is
/// none of the headers that the canonical string holds.
pub proof fn lemma_string_to_sign_without_authorization(
    method: Seq<char>,
    h: Map<Seq<char>, Seq<u8>>,
    uri: Seq<char>,
    query: Seq<(Seq<char>, Seq<char>)>,
    log: bool,
    authorization: Seq<u8>,
)
    requires
        h.dom().finite(),
    ensures
        header_string_to_sign(method, h.insert("authorization"@, authorization), uri, query, log)
            == header_string_to_sign(method, h, uri, query, log),
        is_signable(h.insert("authorization"@, authorization), log) == is_signable(h, log),
{
    reveal_strlit("authorization");
    reveal_strlit("accept");
    reveal_strlit("content-md5");
    reveal_strlit("content-type");
    reveal_strlit("date");
    assert(!is_signed_header("authorization"@, log)) by {
        assert("authorization"@[0] == 'a');
        if acs_prefix().is_prefix_of("authorization"@) {
            assert(acs_prefix()[0] == "authorization"@[0]);
        }
        if log_prefix().is_prefix_of("authorization"@) {
            assert(log_prefix()[0] == "authorization"@[0]);
        }
    }
    lemma_canonical_headers_unsigned(h, "authorization"@, authorization, log);
    assert("authorization"@ != "accept"@);
    assert("authorization"@ != "content-md5"@);
    assert("authorization"@ != "content-type"@);
    assert("authorization"@ != "date"@);
}

/// There is one list of the signed headers at most.
pub proof fn lemma_canonical_header_list_unique(
    a: Seq<(Seq<char>, Seq<char>)>,
    b: Seq<(Seq<char>, Seq<char>)>,
    h: Map<Seq<char>, Seq<u8>>,
    log: bool,
)
    requires
        is_canonical_header_list(a, h, log),
        is_canonical_header_list(b, h, log),
    ensures
        a == b,
{
    lemma_distinct_keys(a);
    lemma_distinct_keys(b);
    assert forall|x: (Seq<char>, Seq<char>)| a.contains(x) == b.contains(x) by {
        assert(a.contains((x.0, x.1)) == b.contains((x.0, x.1)));
    }
    lemma_same_entries(a, b);
    lemma_sorted_unique(a, b);
}

/// Computes the canonicalized headers of a header map, for the log dialect
/// or for the others. There are none where the value of a signed header
/// cannot be read as text.
pub fn canonicalized_headers(m: &HeaderMap<HeaderValue>, log: bool) -> (r: Option<String>)
    ensures
        r is Some == signed_headers_visible(header_map_entries(*m), log),
        r matches Some(s) ==> s@ == canonical_headers(header_map_entries(*m), log),
{
    let names = header_map_names(m);
    let ghost h = header_map_entries(*m);
    let ghost ns = name_texts(names@);
    let mut selected: Vec<(String, String)> = Vec::new();
    let ghost mut pos: Seq<int> = Seq::empty();
    let mut i: usize = 0;
    proof {
        reveal_strlit("x-acs-");
        reveal_strlit("x-log-");
        reveal_strlit(":");
        reveal_strlit("\n");
        assert("x-acs-"@ =~= acs_prefix());
        assert("x-log-"@ =~= log_prefix());
        assert(":"@ =~= seq![':']);
        assert("\n"@ =~= seq!['\n']);
    }
    while i < names.len()
        invariant
            i <= names.len(),
            ns == name_texts(names@),
            h == header_map_entries(*m),
            "x-acs-"@ == acs_prefix(),
            "x-log-"@ == log_prefix(),
            ns.no_duplicates(),
            forall|k: Seq<char>| ns.contains(k) <==> h.dom().contains(k),
            pos.len() == selected.len(),
            forall|j: int| 0 <= j < pos.len() ==> 0 <= #[trigger] pos[j] < i,
            forall|a: int, b: int| 0 <= a < b < pos.len() ==> #[trigger] pos[a] < #[trigger] pos[b],
            forall|j: int|
                0 <= j < pos.len() ==> #[trigger] selected.deep_view()[j] == (
                    ns[pos[j]],
                    ascii_text(h[ns[pos[j]]]),
                ) && is_signed_header(ns[pos[j]], log),
            forall|p: int|
                0 <= p < i && is_signed_header(#[trigger] ns[p], log) ==> is_visible(h[ns[p]])
                    && selected.deep_view().contains((ns[p], ascii_text(h[ns[p]]))),
        decreases names.len() - i,
    {
        let name = header_name_string(&names[i]);
        let ghost before = selected.deep_view();
        assert(name@ == ns[i as int]);
        assert(ns.contains(ns[i as int]));
        if has_prefix(name.as_str(), "x-acs-") || (log && has_prefix(name.as_str(), "x-log-")) {
            match header_map_get(m, &names[i]) {
                Some(value) => {
                    match header_value_text(&value) {
                        Some(text) => {
                            selected.push((name, text));
                            proof {
                                pos = pos.push(i as int);
                                let entry = (ns[i as int], ascii_text(h[ns[i as int]]));
                                assert(selected.deep_view() =~= before.push(entry));
                                assert(selected.deep_view()[before.len() as int] == entry);
                                assert forall|p: int|
                                    0 <= p < i + 1 && is_signed_header(
                                        #[trigger] ns[p],
                                        log,
                                    ) implies is_visible(h[ns[p]])
                                    && selected.deep_view().contains(
                                    (ns[p], ascii_text(h[ns[p]])),
                                ) by {
                                    if p < i {
                                        let x = (ns[p], ascii_text(h[ns[p]]));
                                        assert(before.contains(x));
                                        let q = choose|q: int|
                                            0 <= q < before.len() && before[q] == x;
                                        assert(selected.deep_view()[q] == x);
                                    }
                                }
                            }
                        },
                        None => {
                            assert(h.dom().contains(ns[i as int]));
                            assert(!signed_headers_visible(h, log));
                            return None;
                        },
                    }
                },
                None => {
                    assert(false);
                },
            }
        }
        i += 1;
    }
    let sorted = sorted_pairs(&selected);
    let lines = pair_line_strings(&sorted, ":");
    let r = join_strings(&lines, "\n");
    proof {
        let sel = selected.deep_view();
        let sl = sorted.deep_view();
        assert(distinct_keys(sel)) by {
            assert forall|a: int, b: int| 0 <= a < b < sel.len() implies #[trigger] sel[a].0
                != #[trigger] sel[b].0 by {
                assert(pos[a] < pos[b]);
                assert(sel[a].0 == ns[pos[a]]);
                assert(sel[b].0 == ns[pos[b]]);
            }
        }
        lemma_sort_by_key_sorted(sel);
        lemma_sort_by_key_distinct(sel);
        assert forall|k: Seq<char>, v: Seq<char>| #[trigger]
            sl.contains((k, v)) <==> (h.dom().contains(k) && is_signed_header(k, log) && v
                == ascii_text(h[k])) by {
            lemma_sort_by_key_contains(sel, (k, v));
            if sel.contains((k, v)) {
                let j = choose|j: int| 0 <= j < sel.len() && sel[j] == (k, v);
                assert(sel[j] == (ns[pos[j]], ascii_text(h[ns[pos[j]]])));
                assert(ns.contains(ns[pos[j]]));
            }
            if h.dom().contains(k) && is_signed_header(k, log) && v == ascii_text(h[k]) {
                assert(ns.contains(k));
                let p = choose|p: int| 0 <= p < ns.len() && ns[p] == k;
                assert(is_signed_header(ns[p], log));
            }
        }
        assert(is_canonical_header_list(sl, h, log));
        lemma_canonical_header_list_unique(sl, canonical_header_list(h, log), h, log);
        assert(signed_headers_visible(h, log)) by {
            assert forall|k: Seq<char>|
                #![trigger h.dom().contains(k)]
                h.dom().contains(k) && is_signed_header(k, log) implies is_visible(h[k]) by {
                assert(ns.contains(k));
                let p = choose|p: int| 0 <= p < ns.len() && ns[p] == k;
                assert(is_signed_header(ns[p], log));
            }
        }
    }
    Some(r)
}

/// Every header that the canonical string holds can be read as text.
pub open spec fn is_signable(h: Map<Seq<char>, Seq<u8>>, log: bool) -> bool {
    &&& signed_headers_visible(h, log)
    &&& (log || field_visible(h, "accept"@))
    &&& field_visible(h, "content-md5"@)
    &&& field_visible(h, "content-type"@)
    &&& field_visible(h, "date"@)
}

/// The canonical string of a header-signed request: the method in upper
/// case, the `accept` header (not in the log dialect), the `content-md5`,
/// `content-type` and `date` headers, the canonicalized headers and the
/// canonicalized resource, one per line. An absent header gives an empty
/// line.
pub open spec fn header_string_to_sign(
    method: Seq<char>,
    h: Map<Seq<char>, Seq<u8>>,
    uri: Seq<char>,
    query: Seq<(Seq<char>, Seq<char>)>,
    log: bool,
) -> Seq<char> {
    uppercase(method) + seq!['\n'] + (if log {
        Seq::empty()
    } else {
        field_text(h, "accept"@) + seq!['\n']
    }) + field_text(h, "content-md5"@) + seq!['\n'] + field_text(h, "content-type"@) + seq!['\n']
        + field_text(h, "date"@) + seq!['\n'] + canonical_headers(h, log) + seq!['\n']
        + canonical_resource(uri, query)
}

/// `e` is the error for a header that cannot be read as text.
pub open spec fn is_unreadable_header(e: Error) -> bool {
    e matches Error::InvalidHeader(h) && h@ == HeaderFault::Unreadable
}

/// The error for a header that cannot be read as text.
fn unreadable_header() -> (r: Error)
    ensures
        is_unreadable_header(r),
{
    Error::InvalidHeader(HeaderError::Unreadable)
}

/// Computes the canonical string of a header-signed request.
pub fn string_to_sign(
    method: &str,
    m: &HeaderMap<HeaderValue>,
    uri: &str,
    query: &Vec<(String, String)>,
    log: bool,
) -> (r: Option<String>)
    ensures
        r is Some == is_signable(header_map_entries(*m), log),
        r matches Some(s) ==> s@ == header_string_to_sign(
            method@,
            header_map_entries(*m),
            uri@,
            query.deep_view(),
            log,
        ),
{
    proof {
        lemma_known_names();
        reveal_strlit("\n");
        assert("\n"@ =~= seq!['\n']);
    }
    let headers = match canonicalized_headers(m, log) {
        Some(t) => t,
        None => return None,
    };
    let resource = canonicalized_resource(uri, query);
    let mut body = to_uppercase(method);
    body.append("\n");
    if !log {
        match header_field(m, "accept") {
            Some(t) => {
                body.append(t.as_str());
                body.append("\n");
            },
            None => return None,
        }
    }
    match header_field(m, "content-md5") {
        Some(t) => {
            body.append(t.as_str());
            body.append("\n");
        },
        None => return None,
    }
    match header_field(m, "content-type") {
        Some(t) => {
            body.append(t.as_str());
            body.append("\n");
        },
        None => return None,
    }
    match header_field(m, "date") {
        Some(t) => {
            body.append(t.as_str());
            body.append("\n");
        },
        None => return None,
    }
    body.append(headers.as_str());
    body.append("\n");
    body.append(resource.as_str());
    proof {
        assert(body@ =~= header_string_to_sign(
            method@,
            header_map_entries(*m),
            uri@,
            query.deep_view(),
            log,
        ));
    }
    Some(body)
}

/// Signs a header-signed request with the secret. The request is refused
/// where a header of the canonical string cannot be read as text.
pub fn header_signature(
    secret: &str,
    method: &str,
    m: &HeaderMap<HeaderValue>,
    uri: &str,
    query: &Vec<(String, String)>,
    log: bool,
) -> (r: Result<String, Error>)
    ensures
        r is Ok == is_signable(header_map_entries(*m), log),
        r matches Ok(s) ==> s@ == signature(
            secret@,
            header_string_to_sign(method@, header_map_entries(*m), uri@, query.deep_view(), log),
        ),
        r matches Ok(s) ==> crate::sign::is_signature_text(s@),
        r matches Ok(s) ==> forall|i: int|
            0 <= i < s@.len() ==> crate::sign::is_base64_char(#[trigger] s@[i]),
        r matches Err(e) ==> is_unreadable_header(e),
{
    match string_to_sign(method, m, uri, query, log) {
        Some(body) => {
            match sign(secret, body.as_str()) {
                Ok(code) => Ok(code),
                Err(_) => {
                    assert(false);
                    Err(unreadable_header())
                },
            }
        },
        None => Err(unreadable_header()),
    }
}

} // verus!
