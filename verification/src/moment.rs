//! The moment of a request: its time stamp and its nonce.
use crate::text::{concat2, decimal, decimal_string};
use time::format_description::well_known::Iso8601;
use time::OffsetDateTime;
use vstd::prelude::*;

verus! {

/// The description of an RFC 1123 date in GMT.
pub open spec fn rfc1123_description() -> Seq<char> {
    "[weekday repr:short], [day] [month repr:short] [year] [hour]:[minute]:[second] GMT"@
}

/// The description of an RFC 1123 date in GMT.
pub fn rfc1123_format() -> (r: &'static str)
    ensures
        r@ == rfc1123_description(),
{
    "[weekday repr:short], [day] [month repr:short] [year] [hour]:[minute]:[second] GMT"
}

/// Calls `OffsetDateTime::now_utc`. Nothing is claimed of the moment.
#[verifier::external_body]
pub(crate) fn now_utc() -> (r: OffsetDateTime) {
    OffsetDateTime::now_utc()
}

/// Calls `OffsetDateTime::unix_timestamp_nanos`. Nothing is claimed of the
/// number.
#[verifier::external_body]
pub(crate) fn unix_timestamp_nanos(t: &OffsetDateTime) -> (r: i128) {
    t.unix_timestamp_nanos()
}

/// Calls `OffsetDateTime::format` with `Iso8601::DEFAULT` and hands an error
/// out as its text. Nothing is claimed of either.
#[verifier::external_body]
pub(crate) fn format_iso8601(t: &OffsetDateTime) -> (r: Result<String, String>) {
    t.format(&Iso8601::DEFAULT).map_err(|e| e.to_string())
}

/// Parses a format description with `time::format_description::parse_borrowed`
/// and calls `OffsetDateTime::format` with it; an error comes out as its
/// text. Nothing is claimed of either.
#[verifier::external_body]
pub(crate) fn format_described(t: &OffsetDateTime, description: &str) -> (r: Result<String, String>) {
    let items = time::format_description::parse_borrowed::<1>(description).map_err(
        |e| e.to_string(),
    )?;
    t.format(&items).map_err(|e| e.to_string())
}

/// Calls `Uuid::new_v4` and writes the identifier as text. Nothing is
/// claimed of it.
#[verifier::external_body]
pub(crate) fn random_uuid() -> (r: String) {
    uuid::Uuid::new_v4().to_string()
}

/// A whole number in decimal, with a minus sign where it is negative.
pub open spec fn signed_decimal(n: int) -> Seq<char> {
    if n < 0 {
        seq!['-'] + decimal((-n) as nat)
    } else {
        decimal(n as nat)
    }
}

/// Writes an unsigned number in decimal.
pub fn decimal_u128(n: u128) -> (r: String)
    ensures
        r@ == decimal(n as nat),
    decreases n,
{
    if n < 10 {
        decimal_string(n as usize)
    } else {
        let mut r = decimal_u128(n / 10);
        let last = decimal_string((n % 10) as usize);
        r.append(last.as_str());
        assert(r@ =~= decimal(n as nat)) by {
            assert(decimal((n % 10) as nat) =~= seq![crate::text::digit_char((n % 10) as nat)]);
        }
        r
    }
}

/// Writes a signed number in decimal.
pub fn decimal_i128(n: i128) -> (r: String)
    ensures
        r@ == signed_decimal(n as int),
{
    if n < 0 {
        let magnitude: u128 = if n == i128::MIN {
            0x8000_0000_0000_0000_0000_0000_0000_0000u128
        } else {
            (-n) as u128
        };
        proof {
            reveal_strlit("-");
            assert("-"@ =~= seq!['-']);
        }
        concat2("-", decimal_u128(magnitude).as_str())
    } else {
        decimal_u128(n as u128)
    }
}

} // verus!
