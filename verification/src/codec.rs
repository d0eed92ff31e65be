//! Text encodings that the emitted documents use and that are computed by
//! the crates `base64` and `chrono`.

use vstd::prelude::*;

verus! {

/// The base64 text of `bytes`: standard alphabet, with padding.
pub uninterp spec fn base64_standard(bytes: Seq<u8>) -> Seq<char>;

/// The UTC date and time of the instant `secs` whole seconds after the Unix
/// epoch, in RFC 3339 notation to the second with the suffix `Z` (a year
/// outside 0 to 9999 carries a sign); `None` where the instant lies outside
/// the range of dates that can be represented.
pub uninterp spec fn utc_timestamp(secs: i64) -> Option<Seq<char>>;

/// Encodes `bytes` with `base64::encode`.
///
/// Trusted: the result is the standard base64 text of the bytes, a function
/// of the bytes alone.
#[allow(deprecated)]
#[verifier::external_body]
pub(crate) fn base64_text(bytes: &Vec<u8>) -> (text: String)
    ensures
        text@ == base64_standard(bytes@),
{
    base64::encode(bytes)
}

/// Converts `secs` with `chrono::DateTime::from_timestamp` and writes the
/// date with `DateTime::to_rfc3339_opts(SecondsFormat::AutoSi, true)`, which
/// is how `chrono` serialises a date.
///
/// Trusted: whether a date comes back, and its text, are functions of
/// `secs` alone.
#[verifier::external_body]
pub(crate) fn timestamp_text(secs: i64) -> (text: Option<String>)
    ensures
        match text {
            Some(t) => utc_timestamp(secs) == Some(t@),
            None => utc_timestamp(secs) is None,
        },
{
    match chrono::DateTime::from_timestamp(secs, 0) {
        Some(date) => Some(date.to_rfc3339_opts(chrono::SecondsFormat::AutoSi, true)),
        None => None,
    }
}

} // verus!
