//! Percent-encoding of query keys and values.
use vstd::prelude::*;

verus! {

/// True for the bytes that the form-urlencoded serializer leaves as they are.
pub open spec fn form_unchanged(b: u8) -> bool {
    b == 0x2a || b == 0x2d || b == 0x2e || b == 0x5f
        || (0x30 <= b <= 0x39) || (0x41 <= b <= 0x5a) || (0x61 <= b <= 0x7a)
}

/// The upper-case hexadecimal digit of a value below 16.
pub open spec fn hex_upper_digit(n: int) -> char {
    if n < 10 { ((0x30 + n) as u8) as char } else { ((0x41 + n - 10) as u8) as char }
}

/// What the form-urlencoded serializer writes for one byte.
pub open spec fn form_encode_byte(b: u8) -> Seq<char> {
    if form_unchanged(b) {
        seq![b as char]
    } else if b == 0x20 {
        seq!['+']
    } else {
        seq!['%', hex_upper_digit(b as int / 16), hex_upper_digit(b as int % 16)]
    }
}

/// What the form-urlencoded serializer writes for a byte string.
pub open spec fn form_encode(bytes: Seq<u8>) -> Seq<char>
    decreases bytes.len(),
{
    if bytes.len() == 0 {
        Seq::empty()
    } else {
        form_encode_byte(bytes[0]) + form_encode(bytes.drop_first())
    }
}

/// `s` with every match of `from` replaced by `to`, matches taken from the
/// left and never overlapping. An empty `from` leaves `s` as it is.
pub open spec fn replace_all(s: Seq<char>, from: Seq<char>, to: Seq<char>) -> Seq<char>
    decreases s.len(),
{
    if from.len() == 0 || s.len() < from.len() {
        s
    } else if s.subrange(0, from.len() as int) == from {
        to + replace_all(s.subrange(from.len() as int, s.len() as int), from, to)
    } else {
        seq![s[0]] + replace_all(s.drop_first(), from, to)
    }
}

/// The encoding of a query key or value: the form-urlencoded serialization of
/// its UTF-8 bytes, then `+` to `%20`, `*` to `%2A` and `%7E` to `~`, in this
/// order.
pub open spec fn url_encode_spec(s: Seq<char>) -> Seq<char> {
    replace_all(
        replace_all(
            replace_all(form_encode(vstd::utf8::encode_utf8(s)), seq!['+'], seq!['%', '2', '0']),
            seq!['*'],
            seq!['%', '2', 'A'],
        ),
        seq!['%', '7', 'E'],
        seq!['~'],
    )
}

/// True for the bytes that the encoding leaves as they are: ASCII letters
/// and digits, `-`, `.`, `_` and `~`.
pub open spec fn is_unreserved(b: u8) -> bool {
    b == 0x2d || b == 0x2e || b == 0x5f || b == 0x7e || (0x30 <= b <= 0x39) || (0x41 <= b <= 0x5a)
        || (0x61 <= b <= 0x7a)
}

/// The encoding of one byte: the byte itself where it is unreserved, else
/// `%` and its two upper-case hexadecimal digits.
pub open spec fn url_encode_byte(b: u8) -> Seq<char> {
    if is_unreserved(b) {
        seq![b as char]
    } else {
        seq!['%', hex_upper_digit(b as int / 16), hex_upper_digit(b as int % 16)]
    }
}

/// The encodings of the bytes, one after the other.
pub open spec fn url_encode_bytes(bytes: Seq<u8>) -> Seq<char>
    decreases bytes.len(),
{
    if bytes.len() == 0 {
        Seq::empty()
    } else {
        url_encode_byte(bytes[0]) + url_encode_bytes(bytes.drop_first())
    }
}

/// What is written for a byte once `+` has become `%20`.
spec fn spaced_byte(b: u8) -> Seq<char> {
    if b == 0x20 {
        seq!['%', '2', '0']
    } else {
        form_encode_byte(b)
    }
}

/// What is written for a byte once `*` has become `%2A` as well.
spec fn starred_byte(b: u8) -> Seq<char> {
    if b == 0x2a {
        seq!['%', '2', 'A']
    } else {
        spaced_byte(b)
    }
}

spec fn spaced(bytes: Seq<u8>) -> Seq<char>
    decreases bytes.len(),
{
    if bytes.len() == 0 {
        Seq::empty()
    } else {
        spaced_byte(bytes[0]) + spaced(bytes.drop_first())
    }
}

spec fn starred(bytes: Seq<u8>) -> Seq<char>
    decreases bytes.len(),
{
    if bytes.len() == 0 {
        Seq::empty()
    } else {
        starred_byte(bytes[0]) + starred(bytes.drop_first())
    }
}

/// A character that does not begin the pattern is kept, and the replacing
/// goes on behind it.
proof fn lemma_replace_keeps(x: char, s: Seq<char>, from: Seq<char>, to: Seq<char>)
    requires
        from.len() >= 1,
        x != from[0],
    ensures
        replace_all(seq![x] + s, from, to) == seq![x] + replace_all(s, from, to),
{
    let t = seq![x] + s;
    if t.len() >= from.len() {
        assert(t.subrange(0, from.len() as int)[0] == x);
        assert(t.drop_first() =~= s);
    }
}

/// The pattern at the front is replaced, and the replacing goes on behind
/// it.
proof fn lemma_replace_match(s: Seq<char>, from: Seq<char>, to: Seq<char>)
    requires
        from.len() >= 1,
    ensures
        replace_all(from + s, from, to) == to + replace_all(s, from, to),
{
    let t = from + s;
    assert(t.subrange(0, from.len() as int) =~= from);
    assert(t.subrange(from.len() as int, t.len() as int) =~= s);
}

/// Three characters of which the first does not begin a pattern of one
/// character, nor the others, are kept.
proof fn lemma_replace_keeps_three(
    a: char,
    b: char,
    c: char,
    s: Seq<char>,
    from: Seq<char>,
    to: Seq<char>,
)
    requires
        from.len() == 1,
        a != from[0],
        b != from[0],
        c != from[0],
    ensures
        replace_all(seq![a, b, c] + s, from, to) == seq![a, b, c] + replace_all(s, from, to),
{
    lemma_replace_keeps(c, s, from, to);
    lemma_replace_keeps(b, seq![c] + s, from, to);
    lemma_replace_keeps(a, seq![b] + (seq![c] + s), from, to);
    assert(seq![a, b, c] + s =~= seq![a] + (seq![b] + (seq![c] + s)));
    assert(seq![a, b, c] + replace_all(s, from, to) =~= seq![a] + (seq![b] + (seq![c]
        + replace_all(s, from, to))));
}

/// The hexadecimal digits are digits and the letters `A` to `F`.
proof fn lemma_hex_upper_digit(n: int)
    requires
        0 <= n < 16,
    ensures
        ('0' <= hex_upper_digit(n) <= '9') || ('A' <= hex_upper_digit(n) <= 'F'),
        hex_upper_digit(n) == '7' <==> n == 7,
        hex_upper_digit(n) == 'E' <==> n == 14,
        hex_upper_digit(n) == '2' <==> n == 2,
        hex_upper_digit(n) == '0' <==> n == 0,
        hex_upper_digit(n) == 'A' <==> n == 10,
{
}

proof fn lemma_spaced(bytes: Seq<u8>)
    ensures
        replace_all(form_encode(bytes), seq!['+'], seq!['%', '2', '0']) == spaced(bytes),
    decreases bytes.len(),
{
    let from = seq!['+'];
    let to = seq!['%', '2', '0'];
    if bytes.len() == 0 {
    } else {
        let b = bytes[0];
        let rest = form_encode(bytes.drop_first());
        lemma_spaced(bytes.drop_first());
        lemma_hex_upper_digit(b as int / 16);
        lemma_hex_upper_digit(b as int % 16);
        if form_unchanged(b) {
            lemma_replace_keeps(b as char, rest, from, to);
        } else if b == 0x20 {
            lemma_replace_match(rest, from, to);
        } else {
            lemma_replace_keeps_three(
                '%',
                hex_upper_digit(b as int / 16),
                hex_upper_digit(b as int % 16),
                rest,
                from,
                to,
            );
        }
    }
}

proof fn lemma_starred(bytes: Seq<u8>)
    ensures
        replace_all(spaced(bytes), seq!['*'], seq!['%', '2', 'A']) == starred(bytes),
    decreases bytes.len(),
{
    let from = seq!['*'];
    let to = seq!['%', '2', 'A'];
    if bytes.len() == 0 {
    } else {
        let b = bytes[0];
        let rest = spaced(bytes.drop_first());
        lemma_starred(bytes.drop_first());
        lemma_hex_upper_digit(b as int / 16);
        lemma_hex_upper_digit(b as int % 16);
        if b == 0x2a {
            lemma_replace_match(rest, from, to);
        } else if form_unchanged(b) {
            lemma_replace_keeps(b as char, rest, from, to);
        } else if b == 0x20 {
            lemma_replace_keeps_three('%', '2', '0', rest, from, to);
        } else {
            lemma_replace_keeps_three(
                '%',
                hex_upper_digit(b as int / 16),
                hex_upper_digit(b as int % 16),
                rest,
                from,
                to,
            );
        }
    }
}

/// A `%` and two hexadecimal digits other than `7E` are kept by the last
/// replacing.
proof fn lemma_tilde_keeps(x: char, y: char, s: Seq<char>)
    requires
        x != '%',
        y != '%',
        !(x == '7' && y == 'E'),
    ensures
        replace_all(seq!['%', x, y] + s, seq!['%', '7', 'E'], seq!['~']) == seq!['%', x, y]
            + replace_all(s, seq!['%', '7', 'E'], seq!['~']),
{
    let from = seq!['%', '7', 'E'];
    let to = seq!['~'];
    let t = seq!['%', x, y] + s;
    assert(t.subrange(0, 3)[1] == x);
    assert(t.subrange(0, 3)[2] == y);
    assert(t.subrange(0, 3) != from);
    assert(t.drop_first() =~= seq![x] + (seq![y] + s));
    lemma_replace_keeps(y, s, from, to);
    lemma_replace_keeps(x, seq![y] + s, from, to);
    assert(seq!['%', x, y] + replace_all(s, from, to) =~= seq!['%'] + (seq![x] + (seq![y]
        + replace_all(s, from, to))));
}

proof fn lemma_tilded(bytes: Seq<u8>)
    ensures
        replace_all(starred(bytes), seq!['%', '7', 'E'], seq!['~']) == url_encode_bytes(bytes),
    decreases bytes.len(),
{
    let from = seq!['%', '7', 'E'];
    let to = seq!['~'];
    if bytes.len() == 0 {
    } else {
        let b = bytes[0];
        let rest = starred(bytes.drop_first());
        lemma_tilded(bytes.drop_first());
        lemma_hex_upper_digit(b as int / 16);
        lemma_hex_upper_digit(b as int % 16);
        if b == 0x7e {
            assert(starred_byte(b) =~= from);
            lemma_replace_match(rest, from, to);
        } else if b == 0x2a {
            lemma_tilde_keeps('2', 'A', rest);
        } else if form_unchanged(b) {
            lemma_replace_keeps(b as char, rest, from, to);
        } else if b == 0x20 {
            lemma_tilde_keeps('2', '0', rest);
        } else {
            lemma_tilde_keeps(
                hex_upper_digit(b as int / 16),
                hex_upper_digit(b as int % 16),
                rest,
            );
        }
    }
}

/// The encoding works byte by byte: every unreserved byte of the UTF-8
/// form stays, and every other byte becomes `%` and two upper-case
/// hexadecimal digits.
pub proof fn lemma_url_encode_by_bytes(s: Seq<char>)
    ensures
        url_encode_spec(s) == url_encode_bytes(vstd::utf8::encode_utf8(s)),
{
    let bytes = vstd::utf8::encode_utf8(s);
    lemma_spaced(bytes);
    lemma_starred(bytes);
    lemma_tilded(bytes);
}

/// Every character is one that the encoding leaves as it is: an ASCII
/// letter or digit, `-`, `.`, `_` or `~`.
pub open spec fn is_unreserved_text(s: Seq<char>) -> bool {
    forall|i: int|
        0 <= i < s.len() ==> (('a' <= #[trigger] s[i] <= 'z') || ('A' <= s[i] <= 'Z') || ('0'
            <= s[i] <= '9') || s[i] == '-' || s[i] == '.' || s[i] == '_' || s[i] == '~')
}

/// Unreserved bytes are written as they are.
proof fn lemma_url_encode_bytes_unreserved(bytes: Seq<u8>)
    requires
        forall|i: int| 0 <= i < bytes.len() ==> is_unreserved(#[trigger] bytes[i]),
    ensures
        url_encode_bytes(bytes) == Seq::new(bytes.len(), |i: int| bytes[i] as char),
    decreases bytes.len(),
{
    if bytes.len() > 0 {
        let rest = bytes.drop_first();
        assert forall|i: int| 0 <= i < rest.len() implies is_unreserved(#[trigger] rest[i]) by {
            assert(rest[i] == bytes[i + 1]);
        }
        lemma_url_encode_bytes_unreserved(rest);
        assert(is_unreserved(bytes[0]));
        assert(url_encode_bytes(bytes) =~= Seq::new(bytes.len(), |i: int| bytes[i] as char));
    } else {
        assert(url_encode_bytes(bytes) =~= Seq::new(bytes.len(), |i: int| bytes[i] as char));
    }
}

/// A text of unreserved characters is its own encoding.
pub proof fn lemma_url_encode_unreserved(s: Seq<char>)
    requires
        is_unreserved_text(s),
    ensures
        url_encode_spec(s) == s,
{
    assert(vstd::utf8::is_ascii_chars(s)) by {
        assert forall|i: int| 0 <= i < s.len() implies '\0' <= #[trigger] s[i] <= '\u{7f}' by {
            assert(('a' <= s[i] <= 'z') || ('A' <= s[i] <= 'Z') || ('0' <= s[i] <= '9') || s[i]
                == '-' || s[i] == '.' || s[i] == '_' || s[i] == '~');
        }
    }
    vstd::utf8::is_ascii_chars_encode_utf8(s);
    let bytes = vstd::utf8::encode_utf8(s);
    assert forall|i: int| 0 <= i < bytes.len() implies is_unreserved(#[trigger] bytes[i])
        && bytes[i] as char == s[i] by {
        assert(s[i] as u8 == bytes[i]);
        assert(('a' <= s[i] <= 'z') || ('A' <= s[i] <= 'Z') || ('0' <= s[i] <= '9') || s[i] == '-'
            || s[i] == '.' || s[i] == '_' || s[i] == '~');
    }
    lemma_url_encode_bytes_unreserved(bytes);
    lemma_url_encode_by_bytes(s);
    assert(Seq::new(bytes.len(), |i: int| bytes[i] as char) =~= s);
}

/// Calls `url::form_urlencoded::byte_serialize` and collects the pieces it
/// yields. Claims that the result is the per-byte serialization: `*`, `-`,
/// `.`, `_` and ASCII letters and digits unchanged, a space as `+`, any other
/// byte as `%` and two upper-case hexadecimal digits.
#[verifier::external_body]
fn form_urlencoded_serialize(s: &str) -> (r: String)
    ensures
        r@ == form_encode(vstd::utf8::encode_utf8(s@)),
{
    url::form_urlencoded::byte_serialize(s.as_bytes()).collect()
}

/// Calls `str::replace` with a non-empty pattern. Claims that every match of
/// the pattern, taken from the left without overlap, is replaced.
#[verifier::external_body]
fn str_replace(s: &str, from: &str, to: &str) -> (r: String)
    requires
        from@.len() > 0,
    ensures
        r@ == replace_all(s@, from@, to@),
{
    s.replace(from, to)
}

/// URL-encodes `s` for use in a signed query string.
pub fn url_encode(s: &str) -> (r: String)
    ensures
        r@ == url_encode_spec(s@),
        r@ == url_encode_bytes(vstd::utf8::encode_utf8(s@)),
{
    proof {
        lemma_url_encode_by_bytes(s@);
        reveal_strlit("+");
        reveal_strlit("%20");
        reveal_strlit("*");
        reveal_strlit("%2A");
        reveal_strlit("%7E");
        reveal_strlit("~");
        assert("+"@ =~= seq!['+']);
        assert("%20"@ =~= seq!['%', '2', '0']);
        assert("*"@ =~= seq!['*']);
        assert("%2A"@ =~= seq!['%', '2', 'A']);
        assert("%7E"@ =~= seq!['%', '7', 'E']);
        assert("~"@ =~= seq!['~']);
    }
    let serialized = form_urlencoded_serialize(s);
    let spaces = str_replace(serialized.as_str(), "+", "%20");
    let stars = str_replace(spaces.as_str(), "*", "%2A");
    str_replace(stars.as_str(), "%7E", "~")
}

} // verus!
