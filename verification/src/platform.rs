//! What the crate takes from outside of it: the clock, calendar dates, and two
//! text conversions of the standard library. Each function here makes one such
//! call; its contract says what the rest of the crate relies on.

use vstd::prelude::*;
use vstd::utf8::*;

verus! {

/// The escaped, quoted form in which a string is shown for debugging.
pub uninterp spec fn debug_form(s: Seq<char>) -> Seq<char>;

/// Shows `s` as `std`'s `Debug` implementation of `str` does: in double quotes,
/// with escapes. Nothing is claimed of the result but that it is a function of
/// the characters of `s`.
#[verifier::external_body]
pub(crate) fn debug_text(s: &str) -> (r: String)
    ensures
        r@ == debug_form(s@),
{
    format!("{:?}", s)
}

/// The text that a sequence of bytes stands for when malformed sequences in it
/// are replaced.
pub uninterp spec fn lossy_form(bytes: Seq<u8>) -> Seq<char>;

/// Decodes `bytes` with `String::from_utf8_lossy`. The result is a function of
/// the bytes; where they are valid UTF-8 it is what they encode.
#[verifier::external_body]
pub(crate) fn lossy_text(bytes: &[u8]) -> (r: String)
    ensures
        r@ == lossy_form(bytes@),
        valid_utf8(bytes@) ==> r@ == decode_utf8(bytes@),
{
    String::from_utf8_lossy(bytes).into_owned()
}

/// Reads the system clock with `SystemTime::elapsed`, called on the Unix epoch:
/// the whole seconds since then, or `None` where the clock stands before it.
/// Nothing is claimed of the result.
#[verifier::external_body]
pub(crate) fn clock_secs() -> (r: Option<u64>) {
    std::time::UNIX_EPOCH.elapsed().ok().map(|d| d.as_secs())
}

/// The first second that `chrono::DateTime<Utc>` can represent: midnight at the
/// start of the year -262143.
pub const MIN_DATE_SECS: i64 = -8_334_601_228_800;

/// The last second that `chrono::DateTime<Utc>` can represent: the end of the
/// year 262142.
pub const MAX_DATE_SECS: i64 = 8_210_266_876_799;

/// Makes a UTC date and time with `chrono::DateTime::from_timestamp` and gives
/// it back by its Unix timestamp: the same number of seconds, or `None` where
/// the date is out of the calendar's range.
#[verifier::external_body]
pub(crate) fn calendar_secs(secs: i64) -> (r: Option<i64>)
    ensures
        r == (if MIN_DATE_SECS <= secs <= MAX_DATE_SECS {
            Some(secs)
        } else {
            None
        }),
{
    chrono::DateTime::from_timestamp(secs, 0).map(|d| d.timestamp())
}

/// The RFC 3339 form of the UTC date and time with the Unix timestamp `secs`.
pub uninterp spec fn rfc3339_form(secs: i64) -> Seq<char>;

/// Writes a date and time of the calendar's range with
/// `chrono::DateTime::to_rfc3339_opts`: as many subsecond digits as are needed,
/// and `Z` for the offset. Nothing is claimed of the result but that it is a
/// function of the timestamp.
#[verifier::external_body]
pub(crate) fn rfc3339_text(secs: i64) -> (r: String)
    requires
        MIN_DATE_SECS <= secs <= MAX_DATE_SECS,
    ensures
        r@ == rfc3339_form(secs),
{
    let date = chrono::DateTime::from_timestamp(secs, 0).unwrap_or_default();
    date.to_rfc3339_opts(chrono::SecondsFormat::AutoSi, true)
}

} // verus!
