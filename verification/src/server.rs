//! The server-information command's computations: the creation instant
//! encoded in a platform snowflake id and its presentation as a calendar
//! date in the guild's locale.

use vstd::prelude::*;
use vstd::string::*;
use chrono::Datelike;
use chrono::TimeZone;
use crate::text::{spec_dec, u64_to_string};

verus! {

/// Milliseconds between the Unix epoch and the platform's snowflake epoch.
pub const SNOWFLAKE_EPOCH_MILLIS: u64 = 1420070400000;

/// The Unix timestamp in milliseconds that a snowflake id encodes: its
/// upper 42 bits count milliseconds since the platform epoch.
pub fn snowflake_millis(id: u64) -> (ms: u64)
    ensures
        ms == (id >> 22) + SNOWFLAKE_EPOCH_MILLIS,
        ms <= 0x3FF_FFFF_FFFF + SNOWFLAKE_EPOCH_MILLIS,
{
    proof {
        assert(id >> 22 <= 0x3FF_FFFF_FFFF) by (bit_vector);
    }
    (id >> 22) + SNOWFLAKE_EPOCH_MILLIS
}

/// A calendar date in the proleptic Gregorian calendar, UTC.
#[derive(Clone, Copy, Debug, PartialEq, Eq, Structural)]
pub struct CivilDate {
    pub year: u64,
    pub month: u64,
    pub day: u64,
}

/// The UTC calendar date of a non-negative Unix timestamp in milliseconds.
/// The date is a function of the timestamp alone.
pub uninterp spec fn civil_of(ms: i64) -> CivilDate;

/// Relies on chrono's Utc.timestamp_millis_opt and its Datelike year,
/// month and day: the UTC date of a millisecond timestamp, `None` only
/// out of range; month ranges over 1 to 12 and day over 1 to 31.
#[verifier::external_body]
fn civil_from_millis(ms: i64) -> (r: Option<CivilDate>)
    ensures
        r matches Some(d) ==> d == civil_of(ms) && 1 <= d.month <= 12 && 1 <= d.day <= 31,
        0 <= ms <= 253402300799999 ==> r is Some,
{
    match chrono::Utc.timestamp_millis_opt(ms) {
        chrono::LocalResult::Single(t) if t.year() >= 0 => Some(CivilDate {
            year: t.year() as u64,
            month: t.month() as u64,
            day: t.day() as u64,
        }),
        _ => None,
    }
}

/// The date's presentation: day.month.year in the German locale,
/// month-day-year otherwise.
pub open spec fn spec_formatted_date(d: CivilDate, locale: Seq<char>) -> Seq<char> {
    if locale == "de"@ {
        spec_dec(d.day as nat) + "."@ + spec_dec(d.month as nat) + "."@ + spec_dec(d.year as nat)
    } else {
        spec_dec(d.month as nat) + "-"@ + spec_dec(d.day as nat) + "-"@ + spec_dec(d.year as nat)
    }
}

/// Formats a creation date for the guild's preferred locale.
pub fn format_creation_date(date: CivilDate, locale: &str) -> (s: String)
    ensures
        s@ == spec_formatted_date(date, locale@),
{
    let mut s = String::new();
    if crate::text::str_eq(locale, "de") {
        let day = u64_to_string(date.day);
        s.append(day.as_str());
        s.append(".");
        let month = u64_to_string(date.month);
        s.append(month.as_str());
        s.append(".");
    } else {
        let month = u64_to_string(date.month);
        s.append(month.as_str());
        s.append("-");
        let day = u64_to_string(date.day);
        s.append(day.as_str());
        s.append("-");
    }
    let year = u64_to_string(date.year);
    s.append(year.as_str());
    s
}

/// The formatted creation date of the guild that a snowflake id names, in
/// the guild's preferred locale.
pub fn creation_date_string(snowflake_id: u64, locale: &str) -> (s: String)
    ensures
        s@ == spec_formatted_date(
            civil_of(((snowflake_id >> 22) + SNOWFLAKE_EPOCH_MILLIS) as i64),
            locale@,
        ),
{
    let ms = snowflake_millis(snowflake_id);
    match civil_from_millis(ms as i64) {
        Some(date) => format_creation_date(date, locale),
        None => {
            proof {
                assert(false);
            }
            String::new()
        },
    }
}

} // verus!
