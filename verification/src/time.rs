//! Instants as UTC seconds, and the RFC 3339 text form used on the wire.
//!
//! All timestamps in the library are plain `i64` seconds since the Unix
//! epoch; the RFC 3339 string form appears only where a value leaves the
//! library (views, token claims). The conversion itself is done by `chrono`
//! behind the two trusted wrappers below.

use vstd::prelude::*;

verus! {

/// Latest instant the library handles: 9999-12-31T23:59:59Z in seconds
/// since the Unix epoch. Well inside the range `chrono` can format.
pub const MAX_INSTANT_SECS: i64 = 253402300799;

/// An instant the library accepts: between the Unix epoch and the end of
/// the year 9999, so it can always be formatted as RFC 3339 text.
pub open spec fn valid_instant(t: i64) -> bool {
    0 <= t <= MAX_INSTANT_SECS
}

/// The RFC 3339 text `chrono` produces for a UTC instant; a function of the
/// seconds alone.
pub uninterp spec fn rfc3339_format(secs: int) -> Seq<char>;

/// The instant `chrono`'s RFC 3339 parser reads out of a string, or `None`
/// where the string is not a valid RFC 3339 date-time; a function of the
/// string alone.
pub uninterp spec fn rfc3339_parse(s: Seq<char>) -> Option<int>;

/// True of characters that may stand unescaped inside a JSON string in this
/// library's wire format: printable ASCII without `"` and `\`.
pub open spec fn plain_char(c: char) -> bool {
    0x20 <= c as int <= 0x7e && c as int != 0x22 && c as int != 0x5c
}

/// True of strings made only of plain characters.
pub open spec fn plain_seq(s: Seq<char>) -> bool {
    forall|i: int| 0 <= i < s.len() ==> plain_char(#[trigger] s[i])
}

/// Relies on `chrono::DateTime::<Utc>::from_timestamp_secs` (defined for
/// every instant this library accepts) and `chrono::DateTime::to_rfc3339`:
/// the text is a function of the instant alone, is plain ASCII, and
/// `chrono`'s own RFC 3339 parser reads the same instant back out of it.
#[verifier::external_body]
pub(crate) fn format_rfc3339(secs: i64) -> (r: String)
    requires
        valid_instant(secs),
    ensures
        r@ == rfc3339_format(secs as int),
        rfc3339_parse(r@) == Some(secs as int),
        plain_seq(r@),
{
    let dt = chrono::DateTime::<chrono::Utc>::from_timestamp_secs(secs)
        .expect("instant is within chrono's range");
    dt.to_rfc3339()
}

/// Relies on `chrono::DateTime::parse_from_rfc3339` and
/// `chrono::DateTime::timestamp`: parsing either yields the instant the
/// text denotes or fails, as a function of the text alone.
#[verifier::external_body]
pub(crate) fn parse_rfc3339(s: &str) -> (r: Option<i64>)
    ensures
        match r {
            Some(t) => rfc3339_parse(s@) == Some(t as int),
            None => rfc3339_parse(s@) is None,
        },
{
    match chrono::DateTime::parse_from_rfc3339(s) {
        Ok(d) => Some(d.timestamp()),
        Err(_) => None,
    }
}

} // verus!
