//! Issuing licenses: the validity window, the license record and its token.
use vstd::prelude::*;
use vstd::string::StringExecFns;

use crate::date::{ymd_before, Date};
use crate::license::{in_window, License, LicenseError};
use crate::meta::{pairs_map, Metadata};
use crate::primitives::{
    add_days, date_plus_days_of, parsed_date_of, format_iso_date, formatted_date_of, new_identifier, push_char,
    today_utc,
};

verus! {

/// Days a license runs when no end date is given.
pub const DEFAULT_VALID_DAYS: u64 = 30;

/// The requested start date, or `today` where none was requested.
pub open spec fn start_of(valid_from: Option<Date>, today: Date) -> Date {
    match valid_from {
        Some(d) => d,
        None => today,
    }
}

/// The validity window for the requested dates: the start defaults to
/// `today`, the end to the start plus the default number of days. `None` where
/// that end date lies beyond the calendar's range.
pub fn window(valid_from: Option<Date>, valid_until: Option<Date>, today: Date) -> (r: Option<(Date, Date)>)
    ensures
        r matches Some(w) ==> w.0 == start_of(valid_from, today),
        valid_until matches Some(u) ==> r == Some((start_of(valid_from, today), u)),
        valid_until is None ==> (r is Some <==> date_plus_days_of(
            start_of(valid_from, today).ymd(),
            DEFAULT_VALID_DAYS as int,
        ) is Some),
        valid_until is None ==> (r matches Some(w) ==> date_plus_days_of(
            w.0.ymd(),
            DEFAULT_VALID_DAYS as int,
        ) == Some(w.1.ymd()) && w.1.representable() && !ymd_before(w.1.ymd(), w.0.ymd())),
{
    let from = match valid_from {
        Some(d) => d,
        None => today,
    };
    match valid_until {
        Some(u) => Some((from, u)),
        None => match add_days(from, DEFAULT_VALID_DAYS) {
            Some(u) => Some((from, u)),
            None => None,
        },
    }
}

impl License {
    /// A license with identifier `id`, the window `from` to `until` written as
    /// `YYYY-MM-DD`, and the metadata that inserting `meta` in order gives.
    pub fn issue(id: String, from: Date, until: Date, meta: &Vec<(String, String)>) -> (r: Result<License, LicenseError>)
        ensures
            r matches Ok(l) ==> l.id == Some(id) && l.meta.wf() && l.meta.as_map() == pairs_map(meta@)
                && l.valid_from@ == formatted_date_of(from.ymd())
                && l.valid_until@ == formatted_date_of(until.ymd())
                && (0 <= from.year <= 9999 ==> parsed_date_of(l.valid_from@) == Some(from.ymd()))
                && (0 <= until.year <= 9999 ==> parsed_date_of(l.valid_until@) == Some(until.ymd())),
            r matches Err(e) ==> e == LicenseError::InvalidDateFormat,
            from.representable() && until.representable() ==> r is Ok,
    {
        let f = match format_iso_date(from) {
            Some(s) => s,
            None => return Err(LicenseError::InvalidDateFormat),
        };
        let u = match format_iso_date(until) {
            Some(s) => s,
            None => return Err(LicenseError::InvalidDateFormat),
        };
        Ok(License { id: Some(id), meta: Metadata::from_pairs(meta), valid_from: f, valid_until: u })
    }
}

/// `l` is what issuing for the requested dates on the day `today`, with the
/// metadata `meta`, gives: some identifier, the metadata, and the window's
/// dates written as `YYYY-MM-DD`.
pub open spec fn issued_for(
    l: License,
    valid_from: Option<Date>,
    valid_until: Option<Date>,
    today: Date,
    meta: Seq<(String, String)>,
) -> bool {
    let start = start_of(valid_from, today);
    &&& l.id is Some
    &&& l.meta.wf()
    &&& l.meta.as_map() == pairs_map(meta)
    &&& l.valid_from@ == formatted_date_of(start.ymd())
    &&& match valid_until {
        Some(u) => l.valid_until@ == formatted_date_of(u.ymd()),
        None => date_plus_days_of(start.ymd(), DEFAULT_VALID_DAYS as int) matches Some(end)
            && l.valid_until@ == formatted_date_of(end),
    }
}

/// The last day of the window for the requested dates on the day `today`.
pub open spec fn window_end(valid_from: Option<Date>, valid_until: Option<Date>, today: Date) -> (int, int, int) {
    match valid_until {
        Some(u) => u.ymd(),
        None => date_plus_days_of(start_of(valid_from, today).ymd(), DEFAULT_VALID_DAYS as int)->0,
    }
}

/// The window for the requested dates on the day `today` lies in chrono's
/// range, so that a license can be issued for it.
pub open spec fn issuable(valid_from: Option<Date>, valid_until: Option<Date>, today: Date) -> bool {
    let start = start_of(valid_from, today);
    &&& start.representable()
    &&& match valid_until {
        Some(u) => u.representable(),
        None => date_plus_days_of(start.ymd(), DEFAULT_VALID_DAYS as int) is Some,
    }
}

/// No dates were requested, and today and the default end date have
/// four-digit years.
pub open spec fn default_window_in_range(valid_from: Option<Date>, valid_until: Option<Date>, today: Date) -> bool {
    &&& valid_from is None
    &&& valid_until is None
    &&& 0 <= today.year
    &&& date_plus_days_of(today.ymd(), DEFAULT_VALID_DAYS as int) matches Some(e) && e.0 <= 9999
}

/// Issues a license for today's window and a fresh identifier, and returns
/// its token signed under `secret`.
pub fn generate(
    secret: String,
    valid_from: Option<Date>,
    valid_until: Option<Date>,
    meta: &Vec<(String, String)>,
) -> (r: Result<String, LicenseError>)
    ensures
        r matches Ok(t) ==> exists|l: License, today: Date|
            today.representable() && issued_for(l, valid_from, valid_until, today, meta@)
                && t@ == l.spec_token(secret@) && (default_window_in_range(valid_from, valid_until, today)
                ==> in_window(l, today.ymd())) && (0 <= start_of(valid_from, today).year <= 9999
                ==> parsed_date_of(l.valid_from@) == Some(start_of(valid_from, today).ymd())) && (0
                <= window_end(valid_from, valid_until, today).0 <= 9999 ==> parsed_date_of(
                l.valid_until@,
            ) == Some(window_end(valid_from, valid_until, today))),
        r matches Err(e) ==> e == LicenseError::InvalidDateFormat && exists|today: Date|
            today.representable() && !issuable(valid_from, valid_until, today),
        valid_from matches Some(f) && valid_until matches Some(u) && f.representable()
            && u.representable() ==> r is Ok,
{
    let today = today_utc();
    let (from, until) = match window(valid_from, valid_until, today) {
        Some(w) => w,
        None => {
            assert(!issuable(valid_from, valid_until, today));
            return Err(LicenseError::InvalidDateFormat);
        },
    };
    let license = match License::issue(new_identifier(), from, until, meta) {
        Ok(l) => l,
        Err(e) => {
            assert(!issuable(valid_from, valid_until, today));
            return Err(e);
        },
    };
    let r = license.hash(secret);
    assert(issued_for(license, valid_from, valid_until, today, meta@));
    proof {
        if default_window_in_range(valid_from, valid_until, today) {
            assert(from == today);
            assert(0 <= until.year <= 9999);
            assert(in_window(license, today.ymd()));
        }
        assert(until.ymd() == window_end(valid_from, valid_until, today));
    }
    r
}

/// Splits `KEY=value` at its first `=`; an error message where there is none.
pub fn parse_key_val(s: &str) -> (r: Result<(String, String), String>)
    ensures
        r is Err <==> !s@.contains('='),
        r matches Err(m) ==> m@ == "invalid KEY=value: no `=` found in `"@ + s@ + seq!['`'],
        r matches Ok(kv) ==> exists|p: int|
            0 <= p < s@.len() && s@[p] == '=' && (forall|j: int| 0 <= j < p ==> s@[j] != '=')
                && kv.0@ == s@.subrange(0, p) && kv.1@ == s@.subrange(p + 1, s@.len() as int),
{
    let n = s.unicode_len();
    let mut i: usize = 0;
    while i < n
        invariant
            n == s@.len(),
            i <= n,
            forall|j: int| 0 <= j < i ==> s@[j] != '=',
        decreases n - i,
    {
        if s.get_char(i) == '=' {
            let k = s.substring_char(0, i).to_owned();
            let v = s.substring_char(i + 1, n).to_owned();
            assert(s@.contains('='));
            return Ok((k, v));
        }
        i = i + 1;
    }
    let mut msg = String::new();
    msg.append("invalid KEY=value: no `=` found in `");
    msg.append(s);
    push_char(&mut msg, '`');
    Err(msg)
}

} // verus!
