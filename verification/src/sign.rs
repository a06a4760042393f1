//! Digests and the signature over a canonical string.
use crate::client::error::Error;
use hmac::{Hmac, Mac};
use md5::{Digest, Md5};
use sha1::Sha1;
use vstd::prelude::*;
use vstd::utf8::encode_utf8;

verus! {

/// The HMAC-SHA1 of `message` under `key`: 20 bytes.
pub uninterp spec fn hmac_sha1(key: Seq<u8>, message: Seq<u8>) -> Seq<u8>;

/// The MD5 digest of `data`: 16 bytes.
pub uninterp spec fn md5_digest(data: Seq<u8>) -> Seq<u8>;

/// `data` in base64 with the standard alphabet and padding.
pub uninterp spec fn base64_standard(data: Seq<u8>) -> Seq<char>;

/// True for the 64 digits of standard base64: letters, digits, `+` and `/`.
pub open spec fn is_base64_digit(c: char) -> bool {
    ('A' <= c <= 'Z') || ('a' <= c <= 'z') || ('0' <= c <= '9') || c == '+' || c == '/'
}

/// True for the characters of padded standard base64: its digits and `=`.
pub open spec fn is_base64_char(c: char) -> bool {
    is_base64_digit(c) || c == '='
}

/// The length of the base64 of `n` bytes: four characters for every three
/// bytes, begun or full.
pub open spec fn base64_len(n: nat) -> nat {
    4 * ((n + 2) / 3)
}

/// The number of `=` at the end of the base64 of `n` bytes: two where one
/// byte is left over after the groups of three, one where two are.
pub open spec fn base64_padding(n: nat) -> nat {
    if n % 3 == 1 {
        2
    } else if n % 3 == 2 {
        1
    } else {
        0
    }
}

/// `text` has the shape of the padded base64 of `n` bytes: its length, its
/// digits, and the `=` at its end.
pub open spec fn is_base64_of_len(text: Seq<char>, n: nat) -> bool {
    &&& text.len() == base64_len(n)
    &&& forall|i: int|
        0 <= i < text.len() - base64_padding(n) ==> is_base64_digit(#[trigger] text[i])
    &&& forall|i: int| text.len() - base64_padding(n) <= i < text.len() ==> #[trigger] text[i] == '='
}

/// The length of a signature: the base64 of a digest of 20 bytes.
pub const SIGNATURE_LEN: usize = 28;

/// `text` has the shape of a signature: 27 base64 digits and one `=`.
pub open spec fn is_signature_text(text: Seq<char>) -> bool {
    &&& text.len() == SIGNATURE_LEN
    &&& forall|i: int| 0 <= i < SIGNATURE_LEN - 1 ==> is_base64_digit(#[trigger] text[i])
    &&& text[SIGNATURE_LEN - 1] == '='
}

/// The signature of `body` under `key`: the base64 of the HMAC-SHA1 of the
/// UTF-8 bytes of `body`, keyed with the UTF-8 bytes of `key`.
pub open spec fn signature(key: Seq<char>, body: Seq<char>) -> Seq<char> {
    base64_standard(hmac_sha1(encode_utf8(key), encode_utf8(body)))
}

/// Runs `Hmac<Sha1>` from the `hmac` crate over `message`: `new_from_slice`,
/// `update`, `finalize`. Claims that the key is accepted whatever its length,
/// as the source of `new_from_slice` shows, and that the digest has 20 bytes.
#[verifier::external_body]
fn hmac_sha1_bytes(key: &[u8], message: &[u8]) -> (r: Option<Vec<u8>>)
    ensures
        r is Some,
        r->0@ == hmac_sha1(key@, message@),
        r->0@.len() == 20,
{
    let mut mac = Hmac::<Sha1>::new_from_slice(key).ok()?;
    mac.update(message);
    Some(mac.finalize().into_bytes().to_vec())
}

/// Runs `Md5` from the `md-5` crate over `data`: `new`, `update`, `finalize`.
/// Claims that the digest has 16 bytes.
#[verifier::external_body]
fn md5_bytes(data: &[u8]) -> (r: Vec<u8>)
    ensures
        r@ == md5_digest(data@),
        r@.len() == 16,
{
    let mut hasher = Md5::new();
    hasher.update(data);
    hasher.finalize().to_vec()
}

/// Calls `base64::encode`. It panics where the length of the text does not
/// fit in `usize`, which half of `usize::MAX` bytes cannot cause. Claims the
/// length of the text, four characters for every three bytes begun, that it
/// ends in as many `=` as the padding asks for, and that all before them are
/// base64 digits.
#[verifier::external_body]
#[allow(deprecated)]
fn base64_text(data: &[u8]) -> (r: String)
    requires
        data@.len() <= usize::MAX / 2,
    ensures
        r@ == base64_standard(data@),
        is_base64_of_len(r@, data@.len()),
{
    base64::encode(data)
}

/// `r` is what signing `body` with `key` gives: the signature, never an
/// error.
pub open spec fn is_signed(key: Seq<char>, body: Seq<char>, r: Result<String, Error>) -> bool {
    r matches Ok(s) && s@ == signature(key, body)
}

/// Signing is deterministic: two results of signing the same body with the
/// same key are the same text.
pub proof fn lemma_sign_deterministic(
    key: Seq<char>,
    body: Seq<char>,
    a: Result<String, Error>,
    b: Result<String, Error>,
)
    requires
        is_signed(key, body, a),
        is_signed(key, body, b),
    ensures
        a is Ok,
        b is Ok,
        a->Ok_0@ == b->Ok_0@,
{
}

/// Signs `body` with `key`. No key and no body is refused, and the
/// signature has 28 characters: 27 base64 digits and one `=`.
pub fn sign(key: &str, body: &str) -> (r: Result<String, Error>)
    ensures
        is_signed(key@, body@, r),
        r matches Ok(s) && is_signature_text(s@),
        r matches Ok(s) && forall|i: int| 0 <= i < s@.len() ==> is_base64_char(#[trigger] s@[i]),
{
    match hmac_sha1_bytes(key.as_bytes(), body.as_bytes()) {
        Some(code) => {
            let s = base64_text(code.as_slice());
            assert(is_signature_text(s@));
            Ok(s)
        },
        None => Err(
            Error::InvalidRequest(String::from_str("Invalid HMAC-SHA1 secret key: Invalid Length")),
        ),
    }
}

/// The base64 of the MD5 digest of `body`'s bytes: 22 base64 digits and
/// two `=`.
pub fn md5_base64(body: &str) -> (r: String)
    ensures
        r@ == base64_standard(md5_digest(encode_utf8(body@))),
        is_base64_of_len(r@, 16),
        r@.len() == 24,
        forall|i: int| 0 <= i < r@.len() ==> is_base64_char(#[trigger] r@[i]),
{
    let digest = md5_bytes(body.as_bytes());
    base64_text(digest.as_slice())
}

} // verus!
