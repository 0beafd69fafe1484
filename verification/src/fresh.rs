//! Values that come from the machine: fresh identifiers and the time.

use vstd::prelude::*;

verus! {

/// A lowercase hexadecimal digit.
pub open spec fn is_lower_hex(c: char) -> bool {
    ('0' <= c && c <= '9') || ('a' <= c && c <= 'f')
}

/// The hyphenated lowercase text of a version 4 UUID: 36 characters,
/// hyphens at positions 8, 13, 18 and 23, hexadecimal digits elsewhere,
/// the version digit `4` at position 14 and the variant digit (`8`, `9`,
/// `a` or `b`) at position 19.
pub open spec fn uuid_text(t: Seq<char>) -> bool {
    &&& t.len() == 36
    &&& forall|i: int|
        0 <= i < 36 ==> if i == 8 || i == 13 || i == 18 || i == 23 {
            #[trigger] t[i] == '-'
        } else {
            is_lower_hex(t[i])
        }
    &&& t[14] == '4'
    &&& (t[19] == '8' || t[19] == '9' || t[19] == 'a' || t[19] == 'b')
}

/// A decimal digit.
pub open spec fn is_digit(c: char) -> bool {
    '0' <= c && c <= '9'
}

/// The year as RFC 3339 text is written by `chrono`: four digits, or (out of
/// the range 0 to 9999) a sign and at least four digits.
pub open spec fn year_text(y: Seq<char>) -> bool {
    ||| (y.len() == 4 && forall|i: int| 0 <= i < 4 ==> is_digit(#[trigger] y[i]))
    ||| (y.len() >= 5 && (y[0] == '+' || y[0] == '-') && forall|i: int|
        1 <= i < y.len() ==> is_digit(#[trigger] y[i]))
}

/// What follows the year: `-MM-DDTHH:MM:SSZ`, each field two digits.
pub open spec fn date_time_tail(t: Seq<char>) -> bool {
    &&& t.len() == 16
    &&& t[0] == '-' && is_digit(t[1]) && is_digit(t[2])
    &&& t[3] == '-' && is_digit(t[4]) && is_digit(t[5])
    &&& t[6] == 'T' && is_digit(t[7]) && is_digit(t[8])
    &&& t[9] == ':' && is_digit(t[10]) && is_digit(t[11])
    &&& t[12] == ':' && is_digit(t[13]) && is_digit(t[14])
    &&& t[15] == 'Z'
}

/// An RFC 3339 time in UTC with whole seconds and a `Z` suffix, such as
/// `2024-01-15T14:30:25Z`.
pub open spec fn utc_time_text(t: Seq<char>) -> bool {
    &&& t.len() >= 20
    &&& year_text(t.take(t.len() - 16))
    &&& date_time_tail(t.skip(t.len() - 16))
}

/// Calls `uuid::Uuid::new_v4` and formats it (`Display`, which writes the
/// hyphenated lowercase form). `new_v4` masks in the version and variant
/// bits. Random: only the form of the text is promised.
#[verifier::external_body]
pub(crate) fn fresh_uuid() -> (r: String)
    ensures
        uuid_text(r@),
{
    uuid::Uuid::new_v4().to_string()
}

/// Calls `chrono::Utc::now` and formats it with
/// `to_rfc3339_opts(SecondsFormat::Secs, true)`, which writes the UTC
/// offset as `Z` and the year with four digits (a sign and more digits out
/// of the range 0 to 9999). Depends on the clock: only the form of the
/// text is promised.
#[verifier::external_body]
pub(crate) fn utc_now_rfc3339() -> (r: String)
    ensures
        utc_time_text(r@),
{
    chrono::Utc::now().to_rfc3339_opts(chrono::SecondsFormat::Secs, true)
}

} // verus!
