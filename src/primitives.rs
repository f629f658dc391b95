//! The calls into outside code that the license logic relies on, each with the
//! contract that the called function's documentation or source gives it.
use chrono::Datelike;
use hmac::{Mac, NewMac};
use vstd::prelude::*;

use crate::date::{ymd_before, Date};

verus! {

/// What `NaiveDate::parse_from_str(s, "%Y-%m-%d")` yields, as (year, month, day).
pub uninterp spec fn parsed_date_of(s: Seq<char>) -> Option<(int, int, int)>;

/// What `NaiveDate::format("%Y-%m-%d")` writes for a date.
pub uninterp spec fn formatted_date_of(ymd: (int, int, int)) -> Seq<char>;

/// The date that chrono reaches a number of days after a date, if it can hold
/// both dates.
pub uninterp spec fn date_plus_days_of(ymd: (int, int, int), days: int) -> Option<(int, int, int)>;

/// The HMAC-SHA256 tag of a message's UTF-8 bytes under a key's UTF-8 bytes.
pub uninterp spec fn hmac_sha256_of(key: Seq<char>, msg: Seq<char>) -> Seq<u8>;

/// The standard, padded base64 text of a text's UTF-8 bytes.
pub uninterp spec fn base64_of(text: Seq<char>) -> Seq<char>;

/// The bytes that standard base64 decoding gives for a text, if it is valid.
pub uninterp spec fn base64_decoded_of(text: Seq<char>) -> Option<Seq<u8>>;

/// The JSON string literal (quoted and escaped) that serde_json writes for a text.
pub uninterp spec fn json_string_of(text: Seq<char>) -> Seq<char>;

/// Relies on chrono's `NaiveDate::parse_from_str` with the `%Y-%m-%d` format:
/// the outcome depends on the text alone, and a date it returns is a real date.
#[verifier::external_body]
pub(crate) fn parse_iso_date(s: &str) -> (r: Option<Date>)
    ensures
        r is Some <==> parsed_date_of(s@) is Some,
        r matches Some(d) ==> d.wf() && parsed_date_of(s@) == Some(d.ymd()),
{
    match chrono::NaiveDate::parse_from_str(s, "%Y-%m-%d") {
        Ok(d) => Some(Date { year: d.year(), month: d.month(), day: d.day() }),
        Err(_) => None,
    }
}

/// Relies on chrono's `Utc::now`: today's date in UTC, a date that chrono
/// holds.
#[verifier::external_body]
pub(crate) fn today_utc() -> (r: Date)
    ensures
        r.representable(),
{
    let d = chrono::Utc::now().date_naive();
    Date { year: d.year(), month: d.month(), day: d.day() }
}

/// Relies on chrono's `NaiveDate::from_ymd_opt` and `checked_add_days`: the
/// date a number of days later, not earlier than the first, or `None` out of
/// chrono's range.
#[verifier::external_body]
pub(crate) fn add_days(d: Date, days: u64) -> (r: Option<Date>)
    ensures
        r is Some <==> date_plus_days_of(d.ymd(), days as int) is Some,
        r is Some ==> date_plus_days_of(d.ymd(), days as int) == Some(r->0.ymd()) && r->0.representable()
            && !ymd_before(r->0.ymd(), d.ymd()),
{
    let start = chrono::NaiveDate::from_ymd_opt(d.year, d.month, d.day)?;
    let end = start.checked_add_days(chrono::Days::new(days))?;
    Some(Date { year: end.year(), month: end.month(), day: end.day() })
}

/// Relies on chrono's `NaiveDate::from_ymd_opt` and `format` with the
/// `%Y-%m-%d` format: `None` exactly where chrono cannot hold the date; a
/// four-digit year is written so that `parse_from_str` with the same format
/// reads the date back.
#[verifier::external_body]
pub(crate) fn format_iso_date(d: Date) -> (r: Option<String>)
    ensures
        d.representable() ==> r is Some,
        r is Some ==> r->0@ == formatted_date_of(d.ymd()),
        r is Some && 0 <= d.year <= 9999 ==> parsed_date_of(r->0@) == Some(d.ymd()),
{
    let nd = chrono::NaiveDate::from_ymd_opt(d.year, d.month, d.day)?;
    Some(nd.format("%Y-%m-%d").to_string())
}

/// Relies on hmac's `Hmac::<Sha256>::new_varkey`, `update` and `finalize`:
/// a 32-byte tag; `new_varkey` accepts a key of any length.
#[verifier::external_body]
pub(crate) fn hmac_sha256(key: &str, msg: &str) -> (r: Option<Vec<u8>>)
    ensures
        r is Some,
        r matches Some(t) ==> t@ == hmac_sha256_of(key@, msg@) && t@.len() == 32,
{
    match hmac::Hmac::<sha2::Sha256>::new_varkey(key.as_bytes()) {
        Ok(mut mac) => {
            mac.update(msg.as_bytes());
            Some(mac.finalize().into_bytes().to_vec())
        },
        Err(_) => None,
    }
}

/// Relies on base64's `encode`: standard alphabet, padded.
#[verifier::external_body]
pub(crate) fn base64_encode(text: &str) -> (r: String)
    ensures
        r@ == base64_of(text@),
{
    base64::encode(text)
}

/// Relies on base64's `decode`: standard alphabet; an error on invalid input;
/// what `encode` wrote for a text decodes back to that text's UTF-8 bytes.
#[verifier::external_body]
pub(crate) fn base64_decode(text: &str) -> (r: Option<Vec<u8>>)
    ensures
        r is Some <==> base64_decoded_of(text@) is Some,
        r matches Some(b) ==> base64_decoded_of(text@) == Some(b@),
        forall|t: Seq<char>| #[trigger] base64_of(t) == text@ ==> r is Some
            && vstd::utf8::valid_utf8(r->0@) && vstd::utf8::decode_utf8(r->0@) == t,
{
    match base64::decode(text) {
        Ok(b) => Some(b),
        Err(_) => None,
    }
}

/// Relies on `String::from_utf8`: it accepts exactly the valid UTF-8 byte
/// sequences and keeps their characters.
#[verifier::external_body]
pub(crate) fn utf8_string(bytes: Vec<u8>) -> (r: Option<String>)
    ensures
        r is Some <==> vstd::utf8::valid_utf8(bytes@),
        r matches Some(s) ==> s@ == vstd::utf8::decode_utf8(bytes@),
{
    match String::from_utf8(bytes) {
        Ok(s) => Some(s),
        Err(_) => None,
    }
}

/// Relies on `serde_json::to_string` on a `str`: its JSON string literal;
/// serialising a string cannot fail.
#[verifier::external_body]
pub(crate) fn json_string(text: &str) -> (r: Option<String>)
    ensures
        r is Some,
        r matches Some(q) ==> q@ == json_string_of(text@),
{
    match serde_json::to_string(text) {
        Ok(q) => Some(q),
        Err(_) => None,
    }
}

/// Relies on uuid's `Uuid::new_v4`: a fresh random identifier in its
/// hyphenated text form.
#[verifier::external_body]
pub(crate) fn new_identifier() -> (r: String) {
    uuid::Uuid::new_v4().to_string()
}

/// Relies on `String::push`: appends one character.
#[verifier::external_body]
pub(crate) fn push_char(s: &mut String, c: char)
    ensures
        final(s)@ == old(s)@.push(c),
{
    s.push(c)
}

} // verus!
