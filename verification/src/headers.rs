//! The header map of a request, kept in the `http` crate's own `HeaderMap`.
use crate::client::error::{Error, HeaderError, HeaderFault};
use reqwest::header::{HeaderMap, HeaderName, HeaderValue, InvalidHeaderValue};
use vstd::prelude::*;
use vstd::utf8::encode_utf8;

verus! {

/// What a header map holds: for each name, in lower case, the bytes of the
/// value that `get` finds under it.
pub uninterp spec fn header_map_entries(m: HeaderMap<HeaderValue>) -> Map<Seq<char>, Seq<u8>>;

/// The bytes of a header value.
pub uninterp spec fn header_value_bytes(v: HeaderValue) -> Seq<u8>;

/// The text of a header name, which is in lower case.
pub uninterp spec fn header_name_text(n: HeaderName) -> Seq<char>;

/// True for a character that a header name may hold: an ASCII letter or
/// digit, or one of ``!"#$%&'*+-.^_`|~``.
pub open spec fn is_header_name_char(c: char) -> bool {
    ('a' <= c <= 'z') || ('A' <= c <= 'Z') || ('0' <= c <= '9') || c == '!' || c == '"' || c == '#'
        || c == '$' || c == '%' || c == '&' || c == '\'' || c == '*' || c == '+' || c == '-' || c
        == '.' || c == '^' || c == '_' || c == '`' || c == '|' || c == '~'
}

/// An upper-case ASCII letter in lower case, any other character as it is.
pub open spec fn fold_header_char(c: char) -> char {
    if 'A' <= c <= 'Z' {
        ((c as u8 + 32) as u8) as char
    } else {
        c
    }
}

/// The longest header name, in bytes.
pub const HEADER_NAME_LIMIT: usize = 65535;

/// The header name that stands for `s`: `s` with its upper-case letters in
/// lower case, where `s` holds 1 to 65535 characters and each of them is one
/// that a header name may hold; nothing otherwise.
pub open spec fn normalized_header_name(s: Seq<char>) -> Option<Seq<char>> {
    if 1 <= s.len() <= HEADER_NAME_LIMIT && (forall|i: int|
        0 <= i < s.len() ==> is_header_name_char(#[trigger] s[i])) {
        Some(Seq::new(s.len(), |i: int| fold_header_char(s[i])))
    } else {
        None
    }
}

/// The number of names below which `HeaderMap::insert` is called here. The
/// bound is forced by the map, not by the protocol: `insert` panics where
/// the map has to grow past 32768 slots. It doubles its slots where three
/// quarters of them are taken, or, after long probe chains, where a fifth of
/// them is; with 32768 slots that takes 6554 names at least, so below 4096
/// names it never asks for more than it may have.
pub const HEADER_ROOM: usize = 4096;

/// True for a byte that `HeaderValue::from_str` accepts: a tab, or anything
/// from the space upwards but the delete character.
pub open spec fn is_header_value_byte(b: u8) -> bool {
    (b >= 32 && b != 127) || b == 9
}

/// Every byte is one that a header value may hold.
pub open spec fn is_header_value(bytes: Seq<u8>) -> bool {
    forall|i: int| 0 <= i < bytes.len() ==> is_header_value_byte(#[trigger] bytes[i])
}

/// True for a byte that `HeaderValue::to_str` hands out: a tab or a printable
/// ASCII character.
pub open spec fn is_visible_byte(b: u8) -> bool {
    (32 <= b < 127) || b == 9
}

/// Every byte is a tab or a printable ASCII character.
pub open spec fn is_visible(bytes: Seq<u8>) -> bool {
    forall|i: int| 0 <= i < bytes.len() ==> is_visible_byte(#[trigger] bytes[i])
}

/// The ASCII text of a byte string.
pub open spec fn ascii_text(bytes: Seq<u8>) -> Seq<char> {
    Seq::new(bytes.len(), |i: int| bytes[i] as char)
}

/// True for a name of 1 to 64 lower-case letters, digits and hyphens, which
/// the `http` crate takes as it is.
pub open spec fn is_plain_header_name(s: Seq<char>) -> bool {
    &&& 1 <= s.len() <= 64
    &&& forall|i: int|
        0 <= i < s.len() ==> (('a' <= #[trigger] s[i] <= 'z') || ('0' <= s[i] <= '9') || s[i]
            == '-')
}

/// Calls `HeaderValue::from_str`. Claims that it accepts exactly the strings
/// whose bytes are all tabs or at least 32 and not 127, and that the value
/// holds the string's bytes.
#[verifier::external_body]
pub(crate) fn header_value_from_str(s: &str) -> (r: Result<HeaderValue, InvalidHeaderValue>)
    ensures
        r is Ok == is_header_value(encode_utf8(s@)),
        r matches Ok(v) ==> header_value_bytes(v) == encode_utf8(s@),
{
    HeaderValue::from_str(s)
}

/// Calls `HeaderName::from_bytes` on the bytes of `s`. Claims that it takes
/// exactly the texts of 1 to 65535 bytes whose bytes are all characters of a
/// header name, none of which is above 127, and that the name is the text
/// with its upper-case letters in lower case.
#[verifier::external_body]
pub(crate) fn header_name_from_str(s: &str) -> (r: Option<HeaderName>)
    ensures
        r is Some == normalized_header_name(s@) is Some,
        r matches Some(n) ==> normalized_header_name(s@) == Some(header_name_text(n)),
{
    HeaderName::from_bytes(s.as_bytes()).ok()
}

/// A plain name is a header name that stands for itself.
pub proof fn lemma_plain_header_name(s: Seq<char>)
    requires
        is_plain_header_name(s),
    ensures
        normalized_header_name(s) == Some(s),
{
    assert forall|i: int| 0 <= i < s.len() implies is_header_name_char(#[trigger] s[i]) by {
        assert(('a' <= s[i] <= 'z') || ('0' <= s[i] <= '9') || s[i] == '-');
    }
    assert(Seq::new(s.len(), |i: int| fold_header_char(s[i])) =~= s) by {
        assert forall|i: int| 0 <= i < s.len() implies fold_header_char(#[trigger] s[i])
            == s[i] by {
            assert(('a' <= s[i] <= 'z') || ('0' <= s[i] <= '9') || s[i] == '-');
        }
    }
}

/// The map without any header.
pub open spec fn no_headers() -> Map<Seq<char>, Seq<u8>> {
    Map::empty()
}

/// Calls `HeaderMap::new`. Claims that the map is empty.
#[verifier::external_body]
pub(crate) fn header_map_new() -> (r: HeaderMap<HeaderValue>)
    ensures
        header_map_entries(r) == no_headers(),
{
    HeaderMap::new()
}

/// Calls `HeaderMap::insert`, which panics where the map cannot grow. Claims
/// that the name then holds the value, whatever it held before, and that no
/// other name is touched.
#[verifier::external_body]
pub(crate) fn header_map_insert(m: &mut HeaderMap<HeaderValue>, name: HeaderName, value: HeaderValue)
    requires
        header_map_entries(*old(m)).dom().finite(),
        header_map_entries(*old(m)).dom().len() < HEADER_ROOM,
    ensures
        header_map_entries(*final(m)) == header_map_entries(*old(m)).insert(
            header_name_text(name),
            header_value_bytes(value),
        ),
{
    m.insert(name, value);
}

/// Calls `HeaderMap::get` and copies what it finds. Claims that it finds the
/// value held under the name, if there is one.
#[verifier::external_body]
pub(crate) fn header_map_get(m: &HeaderMap<HeaderValue>, name: &HeaderName) -> (r: Option<HeaderValue>)
    ensures
        r is Some == header_map_entries(*m).dom().contains(header_name_text(*name)),
        r matches Some(v) ==> header_value_bytes(v) == header_map_entries(*m)[header_name_text(
            *name,
        )],
{
    m.get(name).cloned()
}

/// The texts of a list of header names.
pub open spec fn name_texts(names: Seq<HeaderName>) -> Seq<Seq<char>> {
    Seq::new(names.len(), |i: int| header_name_text(names[i]))
}

/// Calls `HeaderMap::keys` and copies each name. Claims that every name of
/// the map comes out once, in an order that is not stated.
#[verifier::external_body]
pub(crate) fn header_map_names(m: &HeaderMap<HeaderValue>) -> (r: Vec<HeaderName>)
    ensures
        name_texts(r@).no_duplicates(),
        forall|k: Seq<char>| name_texts(r@).contains(k) <==> header_map_entries(*m).dom().contains(k),
{
    m.keys().cloned().collect()
}

/// Calls `HeaderName::as_str` and copies the text.
#[verifier::external_body]
pub(crate) fn header_name_string(name: &HeaderName) -> (r: String)
    ensures
        r@ == header_name_text(*name),
{
    name.as_str().to_string()
}

/// Calls `HeaderValue::to_str` and copies the text. Claims that it hands out
/// the bytes as ASCII text where all of them are tabs or printable ASCII, and
/// nothing otherwise.
#[verifier::external_body]
pub(crate) fn header_value_text(v: &HeaderValue) -> (r: Option<String>)
    ensures
        r is Some == is_visible(header_value_bytes(*v)),
        r matches Some(s) ==> s@ == ascii_text(header_value_bytes(*v)),
{
    v.to_str().ok().map(|s| s.to_string())
}

/// The text of a header for a canonical string: its value as ASCII text, or
/// nothing where the map does not hold the header.
pub open spec fn field_text(h: Map<Seq<char>, Seq<u8>>, name: Seq<char>) -> Seq<char> {
    if h.dom().contains(name) {
        ascii_text(h[name])
    } else {
        Seq::empty()
    }
}

/// The header is absent or its value can be read as text.
pub open spec fn field_visible(h: Map<Seq<char>, Seq<u8>>, name: Seq<char>) -> bool {
    h.dom().contains(name) ==> is_visible(h[name])
}

/// Every character is a tab or a printable ASCII character.
pub open spec fn is_visible_text(s: Seq<char>) -> bool {
    forall|i: int| 0 <= i < s.len() ==> ((' ' <= #[trigger] s[i] <= '~') || s[i] == '\t')
}

/// A text of tabs and printable ASCII characters is a header value that
/// reads back as the same text.
pub proof fn lemma_visible_text(s: Seq<char>)
    requires
        is_visible_text(s),
    ensures
        is_header_value(encode_utf8(s)),
        is_visible(encode_utf8(s)),
        ascii_text(encode_utf8(s)) == s,
{
    assert(vstd::utf8::is_ascii_chars(s)) by {
        assert forall|i: int| 0 <= i < s.len() implies '\0' <= #[trigger] s[i] <= '\u{7f}' by {
            assert((' ' <= s[i] <= '~') || s[i] == '\t');
        }
    }
    vstd::utf8::is_ascii_chars_encode_utf8(s);
    let b = encode_utf8(s);
    assert forall|i: int| 0 <= i < b.len() implies is_visible_byte(#[trigger] b[i])
        && is_header_value_byte(b[i]) && b[i] as char == s[i] by {
        assert(s[i] as u8 == b[i]);
        assert((' ' <= s[i] <= '~') || s[i] == '\t');
    }
    assert(ascii_text(b) =~= s);
}

/// The names of the headers that the library sets and reads are plain names.
pub proof fn lemma_known_names()
    ensures
        is_plain_header_name("accept"@),
        is_plain_header_name("content-md5"@),
        is_plain_header_name("content-type"@),
        is_plain_header_name("content-length"@),
        is_plain_header_name("date"@),
        is_plain_header_name("host"@),
        is_plain_header_name("authorization"@),
        is_plain_header_name("user-agent"@),
        is_plain_header_name("x-sdk-client"@),
        is_plain_header_name("x-acs-signature-method"@),
        is_plain_header_name("x-acs-signature-nonce"@),
        is_plain_header_name("x-acs-signature-version"@),
        is_plain_header_name("x-acs-version"@),
        is_plain_header_name("x-log-apiversion"@),
        is_plain_header_name("x-log-signaturemethod"@),
        is_plain_header_name("x-log-bodyrawsize"@),
{
    reveal_strlit("accept");
    reveal_strlit("content-md5");
    reveal_strlit("content-type");
    reveal_strlit("content-length");
    reveal_strlit("date");
    reveal_strlit("host");
    reveal_strlit("authorization");
    reveal_strlit("user-agent");
    reveal_strlit("x-sdk-client");
    reveal_strlit("x-acs-signature-method");
    reveal_strlit("x-acs-signature-nonce");
    reveal_strlit("x-acs-signature-version");
    reveal_strlit("x-acs-version");
    reveal_strlit("x-log-apiversion");
    reveal_strlit("x-log-signaturemethod");
    reveal_strlit("x-log-bodyrawsize");
}

/// Puts a header under a plain name. A value that is no header value leaves
/// the map as it is.
pub(crate) fn set_header(m: &mut HeaderMap<HeaderValue>, name: &str, value: &str) -> (r: Result<
    (),
    InvalidHeaderValue,
>)
    requires
        is_plain_header_name(name@),
        header_map_entries(*old(m)).dom().finite(),
        header_map_entries(*old(m)).dom().len() < HEADER_ROOM,
    ensures
        r is Ok == is_header_value(encode_utf8(value@)),
        r is Ok ==> header_map_entries(*final(m)) == header_map_entries(*old(m)).insert(
            name@,
            encode_utf8(value@),
        ),
        r is Err ==> header_map_entries(*final(m)) == header_map_entries(*old(m)),
{
    proof {
        lemma_plain_header_name(name@);
    }
    match header_value_from_str(value) {
        Ok(v) => {
            match header_name_from_str(name) {
                Some(n) => {
                    header_map_insert(m, n, v);
                    Ok(())
                },
                None => {
                    assert(false);
                    Ok(())
                },
            }
        },
        Err(e) => Err(e),
    }
}

/// Reads a header under a plain name as text: nothing where its value
/// cannot be read as text, the empty text where the header is absent.
pub(crate) fn header_field(m: &HeaderMap<HeaderValue>, name: &str) -> (r: Option<String>)
    requires
        is_plain_header_name(name@),
    ensures
        r is Some == field_visible(header_map_entries(*m), name@),
        r matches Some(s) ==> s@ == field_text(header_map_entries(*m), name@),
{
    proof {
        lemma_plain_header_name(name@);
    }
    match header_name_from_str(name) {
        Some(n) => {
            match header_map_get(m, &n) {
                Some(v) => header_value_text(&v),
                None => Some(String::new()),
            }
        },
        None => {
            assert(false);
            None
        },
    }
}

/// Tells whether the map holds a header under a plain name.
pub(crate) fn has_header(m: &HeaderMap<HeaderValue>, name: &str) -> (r: bool)
    requires
        is_plain_header_name(name@),
    ensures
        r == header_map_entries(*m).dom().contains(name@),
{
    proof {
        lemma_plain_header_name(name@);
    }
    match header_name_from_str(name) {
        Some(n) => header_map_get(m, &n).is_some(),
        None => {
            assert(false);
            false
        },
    }
}

/// The number of headers that a caller may configure. The library refuses
/// a request with more rather than let the header map come near the size at
/// which it panics: the limit and the headers that the library adds when it
/// signs stay below `HEADER_ROOM`.
pub const USER_HEADER_LIMIT: usize = 4000;

/// The map holds `n` headers at most.
pub open spec fn fits(h: Map<Seq<char>, Seq<u8>>, n: nat) -> bool {
    h.dom().finite() && h.dom().len() <= n
}

/// One more header takes one more place at most.
pub proof fn lemma_fits_insert(h: Map<Seq<char>, Seq<u8>>, n: nat, k: Seq<char>, v: Seq<u8>)
    requires
        fits(h, n),
    ensures
        fits(h.insert(k, v), n + 1),
{
}

/// The caller's headers, without the two that a body sets, are within the
/// limit.
pub open spec fn user_headers_fit(h: Map<Seq<char>, Seq<u8>>) -> bool {
    fits(h.remove("content-length"@).remove("content-md5"@), USER_HEADER_LIMIT as nat)
}

/// A map within the limit stays within it when the two headers of a body are
/// set, and holds two headers more than the limit at most.
pub proof fn lemma_user_headers_fit(h: Map<Seq<char>, Seq<u8>>, length: Seq<u8>, md5: Seq<u8>)
    ensures
        fits(h, USER_HEADER_LIMIT as nat) ==> user_headers_fit(h),
        user_headers_fit(h) ==> fits(h, (USER_HEADER_LIMIT + 2) as nat),
        user_headers_fit(h) ==> user_headers_fit(
            h.insert("content-length"@, length).insert("content-md5"@, md5),
        ),
{
    let a = "content-length"@;
    let b = "content-md5"@;
    if fits(h, USER_HEADER_LIMIT as nat) {
        assert(h.remove(a).remove(b).dom() =~= h.dom().remove(a).remove(b));
    }
    if user_headers_fit(h) {
        let base = h.remove(a).remove(b);
        assert(base.dom() =~= h.dom().remove(a).remove(b));
        assert(h.dom().remove(a).remove(b).insert(a).insert(b) =~= h.dom().insert(a).insert(b));
        assert(h.dom().insert(a).insert(b).finite());
        assert(h.dom().subset_of(h.dom().insert(a).insert(b)));
        vstd::set_lib::lemma_len_subset(h.dom(), h.dom().insert(a).insert(b));
        let after = h.insert(a, length).insert(b, md5);
        assert(after.remove(a).remove(b) =~= base);
    }
}

/// The decimal digits are plain text.
pub proof fn lemma_decimal_visible(n: nat)
    ensures
        is_visible_text(crate::text::decimal(n)),
    decreases n,
{
    if n >= 10 {
        lemma_decimal_visible(n / 10);
    }
}

/// Puts a header whose value is plain text under a plain name.
pub(crate) fn set_text_header(m: &mut HeaderMap<HeaderValue>, name: &str, value: &str)
    requires
        is_plain_header_name(name@),
        is_visible_text(value@),
        header_map_entries(*old(m)).dom().finite(),
        header_map_entries(*old(m)).dom().len() < HEADER_ROOM,
    ensures
        header_map_entries(*final(m)) == header_map_entries(*old(m)).insert(
            name@,
            encode_utf8(value@),
        ),
{
    proof {
        lemma_visible_text(value@);
    }
    match set_header(m, name, value) {
        Ok(_) => {},
        Err(_) => {
            assert(false);
        },
    }
}

/// The header map made of a list of names and values, a later entry taking
/// the place of one before it with the same name: nothing where a name is
/// no header name or a value is no header value.
pub open spec fn headers_from(list: Seq<(Seq<char>, Seq<char>)>) -> Option<Map<Seq<char>, Seq<u8>>>
    decreases list.len(),
{
    if list.len() == 0 {
        Some(no_headers())
    } else {
        match (headers_from(list.drop_last()), normalized_header_name(list.last().0)) {
            (Some(h), Some(n)) => if is_header_value(encode_utf8(list.last().1)) {
                Some(h.insert(n, encode_utf8(list.last().1)))
            } else {
                None
            },
            _ => None,
        }
    }
}

/// Why one header is refused: its name is no header name, or else its
/// value is no header value; nothing where it is accepted.
pub open spec fn header_fault(e: (Seq<char>, Seq<char>)) -> Option<HeaderFault> {
    if normalized_header_name(e.0) is None {
        Some(HeaderFault::Name(e.0))
    } else if !is_header_value(encode_utf8(e.1)) {
        Some(HeaderFault::Value)
    } else {
        None
    }
}

/// Why the first entry of a list that is refused is refused; nothing where
/// every entry is accepted.
pub open spec fn first_header_fault(list: Seq<(Seq<char>, Seq<char>)>) -> Option<HeaderFault>
    decreases list.len(),
{
    if list.len() == 0 {
        None
    } else if first_header_fault(list.drop_last()) is Some {
        first_header_fault(list.drop_last())
    } else {
        header_fault(list.last())
    }
}

/// Why a list is refused: it is too long, or else one of its entries is
/// refused; nothing where the list is accepted.
pub open spec fn header_list_fault(list: Seq<(Seq<char>, Seq<char>)>) -> Option<HeaderFault> {
    if list.len() > USER_HEADER_LIMIT {
        Some(HeaderFault::TooMany)
    } else {
        first_header_fault(list)
    }
}

/// The list is short enough and all of its names and values are accepted.
pub open spec fn headers_accepted(list: Seq<(Seq<char>, Seq<char>)>) -> bool {
    list.len() <= USER_HEADER_LIMIT && headers_from(list) is Some
}

/// A list makes a header map where none of its entries is refused, and only
/// there.
pub proof fn lemma_headers_from_fault(list: Seq<(Seq<char>, Seq<char>)>)
    ensures
        headers_from(list) is Some == first_header_fault(list) is None,
    decreases list.len(),
{
    if list.len() > 0 {
        lemma_headers_from_fault(list.drop_last());
    }
}

/// No refused header is passed over: a list in which the name or the value
/// of some entry is no HTTP header syntax is refused, and makes no header
/// map.
pub proof fn lemma_header_list_refused(list: Seq<(Seq<char>, Seq<char>)>, i: int)
    requires
        0 <= i < list.len(),
        header_fault(list[i]) is Some,
    ensures
        first_header_fault(list) is Some,
        header_list_fault(list) is Some,
        headers_from(list) is None,
        !headers_accepted(list),
    decreases list.len(),
{
    lemma_headers_from_fault(list);
    if i < list.len() - 1 {
        assert(list.drop_last()[i] == list[i]);
        lemma_header_list_refused(list.drop_last(), i);
    }
}

/// The header map of an accepted list holds every entry of the list under
/// its name in lower case, with the value of the last entry of that name.
pub proof fn lemma_headers_from_holds(list: Seq<(Seq<char>, Seq<char>)>, i: int)
    requires
        headers_from(list) is Some,
        0 <= i < list.len(),
        forall|j: int|
            i < j < list.len() ==> normalized_header_name(#[trigger] list[j].0)
                != normalized_header_name(list[i].0),
    ensures
        normalized_header_name(list[i].0) is Some,
        headers_from(list)->0.dom().contains(normalized_header_name(list[i].0)->0),
        headers_from(list)->0[normalized_header_name(list[i].0)->0] == encode_utf8(list[i].1),
    decreases list.len(),
{
    if i < list.len() - 1 {
        let front = list.drop_last();
        assert(front[i] == list[i]);
        assert forall|j: int| i < j < front.len() implies normalized_header_name(
            #[trigger] front[j].0,
        ) != normalized_header_name(front[i].0) by {
            assert(front[j] == list[j]);
        }
        lemma_headers_from_holds(front, i);
        assert(normalized_header_name(list[list.len() - 1].0) != normalized_header_name(list[i].0));
    }
}

/// A list of which a beginning is refused is refused, for the same entry.
pub proof fn lemma_header_fault_prefix(list: Seq<(Seq<char>, Seq<char>)>, n: int)
    requires
        0 <= n <= list.len(),
    ensures
        first_header_fault(list.take(n)) is Some ==> first_header_fault(list)
            == first_header_fault(list.take(n)),
    decreases list.len() - n,
{
    if n < list.len() {
        assert(list.take(n + 1).drop_last() =~= list.take(n));
        lemma_header_fault_prefix(list, n + 1);
    } else {
        assert(list.take(n) =~= list);
    }
}

/// Makes a header map of a list of names and values.
pub fn header_map_from_list(list: &Vec<(String, String)>) -> (r: Result<
    HeaderMap<HeaderValue>,
    Error,
>)
    ensures
        r is Ok == headers_accepted(list.deep_view()),
        r is Ok == header_list_fault(list.deep_view()) is None,
        r matches Ok(m) ==> Some(header_map_entries(m)) == headers_from(list.deep_view())
            && fits(header_map_entries(m), USER_HEADER_LIMIT as nat),
        r matches Err(e) ==> e matches Error::InvalidHeader(h) && Some(h@) == header_list_fault(
            list.deep_view(),
        ),
{
    proof {
        lemma_headers_from_fault(list.deep_view());
    }
    if list.len() > USER_HEADER_LIMIT {
        return Err(Error::InvalidHeader(HeaderError::TooMany));
    }
    let mut m = header_map_new();
    let mut i: usize = 0;
    proof {
        assert(list.deep_view().take(0) =~= Seq::empty());
    }
    while i < list.len()
        invariant
            i <= list.len(),
            list.len() <= USER_HEADER_LIMIT,
            headers_from(list.deep_view().take(i as int)) == Some(header_map_entries(m)),
            first_header_fault(list.deep_view()) is Some == headers_from(list.deep_view()) is None,
            fits(header_map_entries(m), i as nat),
        decreases list.len() - i,
    {
        let ghost before = header_map_entries(m);
        proof {
            let next = list.deep_view().take(i + 1);
            assert(next.drop_last() =~= list.deep_view().take(i as int));
            assert(next.last() == (list[i as int].0@, list[i as int].1@));
            lemma_headers_from_fault(list.deep_view().take(i as int));
            lemma_header_fault_prefix(list.deep_view(), i + 1);
        }
        let name = match header_name_from_str(list[i].0.as_str()) {
            Some(n) => n,
            None => {
                return Err(Error::InvalidHeader(HeaderError::Name(list[i].0.clone())));
            },
        };
        let value = match header_value_from_str(list[i].1.as_str()) {
            Ok(v) => v,
            Err(e) => {
                return Err(Error::InvalidHeader(HeaderError::Value(e)));
            },
        };
        proof {
            lemma_fits_insert(before, i as nat, header_name_text(name), header_value_bytes(value));
        }
        header_map_insert(&mut m, name, value);
        i += 1;
    }
    proof {
        assert(list.deep_view().take(list.len() as int) =~= list.deep_view());
    }
    Ok(m)
}

} // verus!
