//! The query-signed call without a query of the caller: its parameters in
//! the order of their keys, and its URL written out.
use crate::encode::{is_unreserved_text, lemma_url_encode_unreserved, url_encode_spec};
use crate::order::{lemma_bytes_lt_asymmetric, lemma_bytes_lt_transitive, lemma_key_lt_at};
use crate::params::{
    distinct_keys, lemma_distinct_keys, lemma_same_entries, lemma_sort_by_key_multiset,
    lemma_sort_by_key_sorted, lemma_sorted_unique, pair_lines, sort_by_key, sorted_by_key,
};
use crate::query_sign::{
    encoded_pairs, rpc_params, rpc_query_string, rpc_signature, rpc_string_to_sign, rpc_url,
};
use crate::sign::signature;
use crate::text::{join, key_lt};
use vstd::prelude::*;
use vstd::utf8::{encode_utf8, is_ascii_chars};

verus! {

/// The parameters of a call without a query of the caller, in the ascending
/// order of their keys.
pub open spec fn rpc_sorted_params(
    action: Seq<char>,
    access_key_id: Seq<char>,
    nonce: Seq<char>,
    timestamp: Seq<char>,
    version: Seq<char>,
) -> Seq<(Seq<char>, Seq<char>)> {
    seq![
        ("AccessKeyId"@, access_key_id),
        ("Action"@, action),
        ("Format"@, "JSON"@),
        ("SignatureMethod"@, "HMAC-SHA1"@),
        ("SignatureNonce"@, nonce),
        ("SignatureVersion"@, "1.0"@),
        ("Timestamp"@, timestamp),
        ("Version"@, version),
    ]
}

/// The sorted query string of a call without a query of the caller, written
/// out: only the five values of the call are encoded, the keys and the
/// three fixed values are their own encoding.
pub open spec fn rpc_plain_query_string(
    action: Seq<char>,
    access_key_id: Seq<char>,
    nonce: Seq<char>,
    timestamp: Seq<char>,
    version: Seq<char>,
) -> Seq<char> {
    "AccessKeyId="@ + url_encode_spec(access_key_id) + "&Action="@ + url_encode_spec(action)
        + "&Format=JSON&SignatureMethod=HMAC-SHA1&SignatureNonce="@ + url_encode_spec(nonce)
        + "&SignatureVersion=1.0&Timestamp="@ + url_encode_spec(timestamp) + "&Version="@
        + url_encode_spec(version)
}

/// In a list in which every key comes before the next, every key comes
/// before all that follow.
proof fn lemma_ascending_pair(s: Seq<(Seq<char>, Seq<char>)>, i: int, j: int)
    requires
        forall|k: int| 0 <= k < s.len() - 1 ==> key_lt(#[trigger] s[k].0, s[k + 1].0),
        0 <= i < j < s.len(),
    ensures
        key_lt(s[i].0, s[j].0),
    decreases j - i,
{
    if j > i + 1 {
        lemma_ascending_pair(s, i, j - 1);
        assert(key_lt(s[j - 1].0, s[j].0));
        lemma_bytes_lt_transitive(
            encode_utf8(s[i].0),
            encode_utf8(s[j - 1].0),
            encode_utf8(s[j].0),
        );
    } else {
        assert(key_lt(s[i].0, s[i + 1].0));
    }
}

/// A list in which every key comes before the next is sorted, and no key
/// occurs twice in it.
pub proof fn lemma_ascending_keys(s: Seq<(Seq<char>, Seq<char>)>)
    requires
        forall|k: int| 0 <= k < s.len() - 1 ==> key_lt(#[trigger] s[k].0, s[k + 1].0),
    ensures
        sorted_by_key(s),
        distinct_keys(s),
{
    assert forall|i: int, j: int| 0 <= i < j < s.len() implies crate::text::key_le(
        #[trigger] s[i].0,
        #[trigger] s[j].0,
    ) && s[i].0 != s[j].0 by {
        lemma_ascending_pair(s, i, j);
        lemma_bytes_lt_asymmetric(encode_utf8(s[i].0), encode_utf8(s[j].0));
    }
}

/// The eight keys of a call are texts of unreserved characters, each of
/// which comes before the next in this order.
proof fn lemma_fixed_keys()
    ensures
        key_lt("AccessKeyId"@, "Action"@),
        key_lt("Action"@, "Format"@),
        key_lt("Format"@, "SignatureMethod"@),
        key_lt("SignatureMethod"@, "SignatureNonce"@),
        key_lt("SignatureNonce"@, "SignatureVersion"@),
        key_lt("SignatureVersion"@, "Timestamp"@),
        key_lt("Timestamp"@, "Version"@),
        is_unreserved_text("AccessKeyId"@),
        is_unreserved_text("Action"@),
        is_unreserved_text("Format"@),
        is_unreserved_text("SignatureMethod"@),
        is_unreserved_text("SignatureNonce"@),
        is_unreserved_text("SignatureVersion"@),
        is_unreserved_text("Timestamp"@),
        is_unreserved_text("Version"@),
        is_unreserved_text("JSON"@),
        is_unreserved_text("HMAC-SHA1"@),
        is_unreserved_text("1.0"@),
{
    reveal_strlit("AccessKeyId");
    reveal_strlit("Action");
    reveal_strlit("Format");
    reveal_strlit("SignatureMethod");
    reveal_strlit("SignatureNonce");
    reveal_strlit("SignatureVersion");
    reveal_strlit("Timestamp");
    reveal_strlit("Version");
    reveal_strlit("JSON");
    reveal_strlit("HMAC-SHA1");
    reveal_strlit("1.0");
    assert(is_ascii_chars("AccessKeyId"@));
    assert(is_ascii_chars("Action"@));
    assert(is_ascii_chars("Format"@));
    assert(is_ascii_chars("SignatureMethod"@));
    assert(is_ascii_chars("SignatureNonce"@));
    assert(is_ascii_chars("SignatureVersion"@));
    assert(is_ascii_chars("Timestamp"@));
    assert(is_ascii_chars("Version"@));
    lemma_key_lt_at("AccessKeyId"@, "Action"@, 2);
    lemma_key_lt_at("Action"@, "Format"@, 0);
    lemma_key_lt_at("Format"@, "SignatureMethod"@, 0);
    lemma_key_lt_at("SignatureMethod"@, "SignatureNonce"@, 9);
    lemma_key_lt_at("SignatureNonce"@, "SignatureVersion"@, 9);
    lemma_key_lt_at("SignatureVersion"@, "Timestamp"@, 0);
    lemma_key_lt_at("Timestamp"@, "Version"@, 0);
}

/// The parameters of a call without a query of the caller have distinct
/// keys, and sorting them gives the order that begins with `AccessKeyId`
/// and ends with `Version`.
pub proof fn lemma_rpc_params_sorted(
    action: Seq<char>,
    access_key_id: Seq<char>,
    nonce: Seq<char>,
    timestamp: Seq<char>,
    version: Seq<char>,
)
    ensures
        distinct_keys(rpc_params(action, access_key_id, nonce, timestamp, version, Seq::empty())),
        sort_by_key(rpc_params(action, access_key_id, nonce, timestamp, version, Seq::empty()))
            == rpc_sorted_params(action, access_key_id, nonce, timestamp, version),
{
    let p = rpc_params(action, access_key_id, nonce, timestamp, version, Seq::empty());
    let e = rpc_sorted_params(action, access_key_id, nonce, timestamp, version);
    lemma_fixed_keys();
    assert(p.len() == 8);
    assert(e.len() == 8);
    assert(p[0] == e[2] && p[1] == e[3] && p[2] == e[5] && p[3] == e[1] && p[4] == e[0] && p[5]
        == e[4] && p[6] == e[6] && p[7] == e[7]);
    assert forall|k: int| 0 <= k < e.len() - 1 implies key_lt(#[trigger] e[k].0, e[k + 1].0) by {
        assert(k == 0 || k == 1 || k == 2 || k == 3 || k == 4 || k == 5 || k == 6);
    }
    lemma_ascending_keys(e);
    assert(distinct_keys(p)) by {
        assert forall|i: int, j: int| 0 <= i < j < p.len() implies #[trigger] p[i].0
            != #[trigger] p[j].0 by {
            let a = if i == 0 {
                2int
            } else if i == 1 {
                3
            } else if i == 2 {
                5
            } else if i == 3 {
                1
            } else if i == 4 {
                0
            } else if i == 5 {
                4
            } else {
                i
            };
            let b = if j == 1 {
                3int
            } else if j == 2 {
                5
            } else if j == 3 {
                1
            } else if j == 4 {
                0
            } else if j == 5 {
                4
            } else {
                j
            };
            assert(p[i] == e[a]);
            assert(p[j] == e[b]);
            if a < b {
                assert(e[a].0 != e[b].0);
            } else {
                assert(e[b].0 != e[a].0);
            }
        }
    }
    lemma_distinct_keys(p);
    lemma_distinct_keys(e);
    assert forall|x: (Seq<char>, Seq<char>)| p.contains(x) == e.contains(x) by {
        if p.contains(x) {
            let i = choose|i: int| 0 <= i < p.len() && p[i] == x;
            assert(e[2] == x || e[3] == x || e[5] == x || e[1] == x || e[0] == x || e[4] == x
                || e[6] == x || e[7] == x);
        }
        if e.contains(x) {
            let i = choose|i: int| 0 <= i < e.len() && e[i] == x;
            assert(p[4] == x || p[3] == x || p[0] == x || p[1] == x || p[5] == x || p[2] == x
                || p[6] == x || p[7] == x);
        }
    }
    lemma_same_entries(e, p);
    lemma_sort_by_key_sorted(p);
    lemma_sort_by_key_multiset(p);
    lemma_sorted_unique(e, sort_by_key(p));
}

/// The long texts between the values of the query string are made of the
/// keys, the fixed values, `=` and `&`.
proof fn lemma_fixed_texts()
    ensures
        "AccessKeyId="@ == "AccessKeyId"@ + seq!['='],
        "&Action="@ == seq!['&'] + "Action"@ + seq!['='],
        "&Format=JSON&SignatureMethod=HMAC-SHA1&SignatureNonce="@ == seq!['&'] + "Format"@
            + seq!['='] + "JSON"@ + seq!['&'] + "SignatureMethod"@ + seq!['='] + "HMAC-SHA1"@
            + seq!['&'] + "SignatureNonce"@ + seq!['='],
        "&SignatureVersion=1.0&Timestamp="@ == seq!['&'] + "SignatureVersion"@ + seq!['=']
            + "1.0"@ + seq!['&'] + "Timestamp"@ + seq!['='],
        "&Version="@ == seq!['&'] + "Version"@ + seq!['='],
{
    reveal_strlit("AccessKeyId");
    reveal_strlit("Action");
    reveal_strlit("Format");
    reveal_strlit("SignatureMethod");
    reveal_strlit("SignatureNonce");
    reveal_strlit("SignatureVersion");
    reveal_strlit("Timestamp");
    reveal_strlit("Version");
    reveal_strlit("JSON");
    reveal_strlit("HMAC-SHA1");
    reveal_strlit("1.0");
    reveal_strlit("AccessKeyId=");
    reveal_strlit("&Action=");
    reveal_strlit("&Format=JSON&SignatureMethod=HMAC-SHA1&SignatureNonce=");
    reveal_strlit("&SignatureVersion=1.0&Timestamp=");
    reveal_strlit("&Version=");
    assert("AccessKeyId="@ =~= "AccessKeyId"@ + seq!['=']);
    assert("&Action="@ =~= seq!['&'] + "Action"@ + seq!['=']);
    assert("&Format=JSON&SignatureMethod=HMAC-SHA1&SignatureNonce="@ =~= seq!['&'] + "Format"@
        + seq!['='] + "JSON"@ + seq!['&'] + "SignatureMethod"@ + seq!['='] + "HMAC-SHA1"@
        + seq!['&'] + "SignatureNonce"@ + seq!['=']);
    assert("&SignatureVersion=1.0&Timestamp="@ =~= seq!['&'] + "SignatureVersion"@ + seq!['=']
        + "1.0"@ + seq!['&'] + "Timestamp"@ + seq!['=']);
    assert("&Version="@ =~= seq!['&'] + "Version"@ + seq!['=']);
}

/// Eight parts joined are the parts with the separator between them.
proof fn lemma_join_eight(lines: Seq<Seq<char>>, sep: Seq<char>)
    requires
        lines.len() == 8,
    ensures
        join(lines, sep) == lines[0] + sep + lines[1] + sep + lines[2] + sep + lines[3] + sep
            + lines[4] + sep + lines[5] + sep + lines[6] + sep + lines[7],
{
    let t1 = lines.take(1);
    let t2 = lines.take(2);
    let t3 = lines.take(3);
    let t4 = lines.take(4);
    let t5 = lines.take(5);
    let t6 = lines.take(6);
    let t7 = lines.take(7);
    assert(lines.drop_last() =~= t7);
    assert(t7.drop_last() =~= t6);
    assert(t6.drop_last() =~= t5);
    assert(t5.drop_last() =~= t4);
    assert(t4.drop_last() =~= t3);
    assert(t3.drop_last() =~= t2);
    assert(t2.drop_last() =~= t1);
    assert(join(t1, sep) == lines[0]);
    assert(join(t2, sep) == join(t1, sep) + sep + lines[1]);
    assert(join(t3, sep) == join(t2, sep) + sep + lines[2]);
    assert(join(t4, sep) == join(t3, sep) + sep + lines[3]);
    assert(join(t5, sep) == join(t4, sep) + sep + lines[4]);
    assert(join(t6, sep) == join(t5, sep) + sep + lines[5]);
    assert(join(t7, sep) == join(t6, sep) + sep + lines[6]);
    assert(join(lines, sep) == join(t7, sep) + sep + lines[7]);
}

/// The lines of the sorted parameters: each key, `=` and the value, where
/// only the five values of the call are encoded.
proof fn lemma_plain_lines(
    action: Seq<char>,
    access_key_id: Seq<char>,
    nonce: Seq<char>,
    timestamp: Seq<char>,
    version: Seq<char>,
)
    ensures
        pair_lines(
            encoded_pairs(rpc_sorted_params(action, access_key_id, nonce, timestamp, version)),
            seq!['='],
        ) == seq![
            "AccessKeyId"@ + seq!['='] + url_encode_spec(access_key_id),
            "Action"@ + seq!['='] + url_encode_spec(action),
            "Format"@ + seq!['='] + "JSON"@,
            "SignatureMethod"@ + seq!['='] + "HMAC-SHA1"@,
            "SignatureNonce"@ + seq!['='] + url_encode_spec(nonce),
            "SignatureVersion"@ + seq!['='] + "1.0"@,
            "Timestamp"@ + seq!['='] + url_encode_spec(timestamp),
            "Version"@ + seq!['='] + url_encode_spec(version),
        ],
{
    let e = rpc_sorted_params(action, access_key_id, nonce, timestamp, version);
    lemma_fixed_keys();
    lemma_url_encode_unreserved("AccessKeyId"@);
    lemma_url_encode_unreserved("Action"@);
    lemma_url_encode_unreserved("Format"@);
    lemma_url_encode_unreserved("SignatureMethod"@);
    lemma_url_encode_unreserved("SignatureNonce"@);
    lemma_url_encode_unreserved("SignatureVersion"@);
    lemma_url_encode_unreserved("Timestamp"@);
    lemma_url_encode_unreserved("Version"@);
    lemma_url_encode_unreserved("JSON"@);
    lemma_url_encode_unreserved("HMAC-SHA1"@);
    lemma_url_encode_unreserved("1.0"@);
    assert(e.len() == 8);
    assert(pair_lines(encoded_pairs(e), seq!['=']) =~= seq![
        "AccessKeyId"@ + seq!['='] + url_encode_spec(access_key_id),
        "Action"@ + seq!['='] + url_encode_spec(action),
        "Format"@ + seq!['='] + "JSON"@,
        "SignatureMethod"@ + seq!['='] + "HMAC-SHA1"@,
        "SignatureNonce"@ + seq!['='] + url_encode_spec(nonce),
        "SignatureVersion"@ + seq!['='] + "1.0"@,
        "Timestamp"@ + seq!['='] + url_encode_spec(timestamp),
        "Version"@ + seq!['='] + url_encode_spec(version),
    ]);
}

/// One line behind a head: the head, then separator, key and `=` as one
/// text, then the value.
proof fn lemma_one_behind(
    head: Seq<char>,
    amp: Seq<char>,
    eq: Seq<char>,
    k: Seq<char>,
    v: Seq<char>,
)
    ensures
        head + amp + (k + eq + v) == head + (amp + k + eq) + v,
{
    assert(head + amp + (k + eq + v) =~= head + (amp + k + eq) + v);
}

/// Two lines behind a head: the head, then all up to the second `=` as
/// one text, then the second value.
proof fn lemma_two_behind(
    head: Seq<char>,
    amp: Seq<char>,
    eq: Seq<char>,
    k1: Seq<char>,
    v1: Seq<char>,
    k2: Seq<char>,
    v2: Seq<char>,
)
    ensures
        head + amp + (k1 + eq + v1) + amp + (k2 + eq + v2) == head + (amp + k1 + eq + v1 + amp
            + k2 + eq) + v2,
{
    let mid = head + amp + (k1 + eq + v1);
    lemma_one_behind(mid, amp, eq, k2, v2);
    assert(mid + (amp + k2 + eq) =~= head + (amp + k1 + eq + v1 + amp + k2 + eq));
}

/// Three lines behind a head: the head, then all up to the third `=` as
/// one text, then the third value.
proof fn lemma_three_behind(
    head: Seq<char>,
    amp: Seq<char>,
    eq: Seq<char>,
    k1: Seq<char>,
    v1: Seq<char>,
    k2: Seq<char>,
    v2: Seq<char>,
    k3: Seq<char>,
    v3: Seq<char>,
)
    ensures
        head + amp + (k1 + eq + v1) + amp + (k2 + eq + v2) + amp + (k3 + eq + v3) == head + (amp
            + k1 + eq + v1 + amp + k2 + eq + v2 + amp + k3 + eq) + v3,
{
    let mid = head + amp + (k1 + eq + v1);
    lemma_two_behind(mid, amp, eq, k2, v2, k3, v3);
    assert(mid + (amp + k2 + eq + v2 + amp + k3 + eq) =~= head + (amp + k1 + eq + v1 + amp + k2
        + eq + v2 + amp + k3 + eq));
}

/// The sorted query string of a call without a query of the caller is the
/// one written out.
pub proof fn lemma_rpc_plain_query_string(
    action: Seq<char>,
    access_key_id: Seq<char>,
    nonce: Seq<char>,
    timestamp: Seq<char>,
    version: Seq<char>,
)
    ensures
        rpc_query_string(
            rpc_params(action, access_key_id, nonce, timestamp, version, Seq::empty()),
        ) == rpc_plain_query_string(action, access_key_id, nonce, timestamp, version),
{
    let e = rpc_sorted_params(action, access_key_id, nonce, timestamp, version);
    let eq = seq!['='];
    let amp = seq!['&'];
    let lines = pair_lines(encoded_pairs(e), eq);
    let id = url_encode_spec(access_key_id);
    let act = url_encode_spec(action);
    let non = url_encode_spec(nonce);
    let ts = url_encode_spec(timestamp);
    let ver = url_encode_spec(version);
    lemma_rpc_params_sorted(action, access_key_id, nonce, timestamp, version);
    lemma_plain_lines(action, access_key_id, nonce, timestamp, version);
    lemma_join_eight(lines, amp);
    lemma_fixed_texts();
    let h0 = "AccessKeyId="@ + id;
    let h1 = h0 + "&Action="@ + act;
    let h4 = h1 + "&Format=JSON&SignatureMethod=HMAC-SHA1&SignatureNonce="@ + non;
    let h6 = h4 + "&SignatureVersion=1.0&Timestamp="@ + ts;
    let h7 = h6 + "&Version="@ + ver;
    assert(lines[0] == h0) by {
        assert("AccessKeyId"@ + eq + id =~= ("AccessKeyId"@ + eq) + id);
    }
    assert(h0 + amp + lines[1] == h1) by {
        lemma_one_behind(h0, amp, eq, "Action"@, act);
    }
    assert(h1 + amp + lines[2] + amp + lines[3] + amp + lines[4] == h4) by {
        lemma_three_behind(
            h1,
            amp,
            eq,
            "Format"@,
            "JSON"@,
            "SignatureMethod"@,
            "HMAC-SHA1"@,
            "SignatureNonce"@,
            non,
        );
    }
    assert(h4 + amp + lines[5] + amp + lines[6] == h6) by {
        lemma_two_behind(h4, amp, eq, "SignatureVersion"@, "1.0"@, "Timestamp"@, ts);
    }
    assert(h6 + amp + lines[7] == h7) by {
        lemma_one_behind(h6, amp, eq, "Version"@, ver);
    }
}

/// A call without a query of the caller is never refused for its
/// parameters, and its URL is the endpoint, `?Signature=` and the encoded
/// signature, and behind them the parameters in the order of their keys:
/// `&AccessKeyId=`, the encoded key id, `&Action=`, the encoded action,
/// `&Format=JSON&SignatureMethod=HMAC-SHA1&SignatureNonce=`, the encoded
/// nonce, `&SignatureVersion=1.0&Timestamp=`, the encoded time stamp,
/// `&Version=` and the encoded version. The signature is that of the
/// canonical string made of the method and of this query string.
pub proof fn lemma_rpc_url_without_query(
    endpoint: Seq<char>,
    secret: Seq<char>,
    method: Seq<char>,
    action: Seq<char>,
    access_key_id: Seq<char>,
    nonce: Seq<char>,
    timestamp: Seq<char>,
    version: Seq<char>,
)
    ensures
        distinct_keys(rpc_params(action, access_key_id, nonce, timestamp, version, Seq::empty())),
        rpc_signature(
            secret,
            method,
            rpc_params(action, access_key_id, nonce, timestamp, version, Seq::empty()),
        ) == signature(
            secret + seq!['&'],
            rpc_string_to_sign(
                method,
                rpc_plain_query_string(action, access_key_id, nonce, timestamp, version),
            ),
        ),
        rpc_url(
            endpoint,
            secret,
            method,
            rpc_params(action, access_key_id, nonce, timestamp, version, Seq::empty()),
        ) == endpoint + "?Signature="@ + url_encode_spec(
            rpc_signature(
                secret,
                method,
                rpc_params(action, access_key_id, nonce, timestamp, version, Seq::empty()),
            ),
        ) + seq!['&'] + rpc_plain_query_string(action, access_key_id, nonce, timestamp, version),
{
    lemma_rpc_params_sorted(action, access_key_id, nonce, timestamp, version);
    lemma_rpc_plain_query_string(action, access_key_id, nonce, timestamp, version);
}

} // verus!
