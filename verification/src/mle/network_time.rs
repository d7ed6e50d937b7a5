//! TETRA network time (ETSI EN 300 392-2 clause 18.5.24): a 48-bit value of UTC time since
//! the start of the year, the local offset and the year.
use vstd::prelude::*;
use chrono::{Datelike, Offset, TimeZone};
use std::str::FromStr;

verus! {

/// The first and last years chrono's dates can hold.
pub const CHRONO_MIN_YEAR: i32 = -262143;
pub const CHRONO_MAX_YEAR: i32 = 262142;

/// The proleptic Gregorian year of day `days` counted from 1970-01-01 (day 0).
pub open spec fn civil_year_of_day(days: int) -> int {
    let z = days + 719468;
    let era = z / 146097;
    let doe = z - era * 146097;
    let yoe = (doe - doe / 1460 + doe / 36524 - doe / 146096) / 365;
    let doy = doe - (365 * yoe + yoe / 4 - yoe / 100);
    let mp = (5 * doy + 2) / 153;
    yoe + era * 400 + if mp >= 10 { 1int } else { 0int }
}

/// The day, counted from 1970-01-01 (day 0), on which proleptic Gregorian year `y` starts.
pub open spec fn civil_year_start_day(y: int) -> int {
    let yy = y - 1;
    let era = yy / 400;
    let yoe = yy - era * 400;
    era * 146097 + 365 * yoe + yoe / 4 - yoe / 100 + 306 - 719468
}

/// What chrono gives as the UTC calendar year of the UNIX time `unix_secs`: the year of its
/// day, when chrono's dates can hold that year.
pub open spec fn chrono_utc_year(unix_secs: i64) -> Option<i32> {
    let y = civil_year_of_day(unix_secs / 86400);
    if CHRONO_MIN_YEAR <= y <= CHRONO_MAX_YEAR { Some(y as i32) } else { None }
}

/// What chrono gives as the UNIX time of January 1st, 00:00:00 UTC, of `year`, when its dates
/// can hold that year.
pub open spec fn chrono_year_start(year: i32) -> Option<i64> {
    if CHRONO_MIN_YEAR <= year <= CHRONO_MAX_YEAR {
        Some((civil_year_start_day(year as int) * 86400) as i64)
    } else {
        None
    }
}

/// What chrono-tz gives as the offset east of UTC, in seconds, of the IANA time zone named
/// `tz_name` at UNIX time `unix_secs`; `None` when the name is unknown or the instant out of
/// range.
pub uninterp spec fn chrono_tz_offset(tz_name: Seq<char>, unix_secs: i64) -> Option<i32>;

/// The UTC year of a UNIX time (chrono `DateTime::from_timestamp`, `Datelike::year`):
/// chrono counts days by Euclidean division by 86400 and gives the proleptic Gregorian year
/// of that day, or `None` when the year lies outside `CHRONO_MIN_YEAR..=CHRONO_MAX_YEAR`.
#[verifier::external_body]
fn utc_year(unix_secs: i64) -> (r: Option<i32>)
    ensures
        r == chrono_utc_year(unix_secs),
{
    chrono::DateTime::from_timestamp(unix_secs, 0).map(|d| d.year())
}

/// The UNIX time at which `year` starts in UTC (chrono `TimeZone::with_ymd_and_hms` on `Utc`,
/// `MappedLocalTime::earliest`, `DateTime::timestamp`): its first day times 86400, or `None`
/// for a year outside `CHRONO_MIN_YEAR..=CHRONO_MAX_YEAR`.
#[verifier::external_body]
fn year_start_unix(year: i32) -> (r: Option<i64>)
    ensures
        r == chrono_year_start(year),
{
    chrono::Utc.with_ymd_and_hms(year, 1, 1, 0, 0, 0).earliest().map(|d| d.timestamp())
}

/// The offset east of UTC of time zone `tz_name` at a UNIX time (chrono-tz `Tz::from_str`,
/// chrono `DateTime::with_timezone`, `Offset::fix`, `FixedOffset::local_minus_utc`).
#[verifier::external_body]
fn tz_offset_secs(tz_name: &str, unix_secs: i64) -> (r: Option<i32>)
    ensures
        r == chrono_tz_offset(tz_name@, unix_secs),
{
    let tz = chrono_tz::Tz::from_str(tz_name).ok()?;
    let now = chrono::DateTime::from_timestamp(unix_secs, 0)?;
    Some(now.with_timezone(&tz).offset().fix().local_minus_utc())
}

/// The current UNIX time in whole seconds (chrono `Utc::now`, `DateTime::timestamp`). It
/// depends on the clock, so nothing is promised of it.
#[verifier::external_body]
fn utc_now_unix() -> (r: i64) {
    chrono::Utc::now().timestamp()
}

/// The 48-bit network time value: 24 bits of UTC seconds since the start of the year halved,
/// the offset sign (1 west of UTC), 6 bits of offset magnitude in 15-minute steps, 6 bits of
/// year minus 2000, and 11 reserved bits set to 1.
pub open spec fn spec_pack_network_time(secs_since_year_start: int, offset_secs: int, year: int) -> u64 {
    let utc = ((if secs_since_year_start > 0 { secs_since_year_start } else { 0 }) / 2) as u64 & 0xFF_FFFF;
    let sign: u64 = if offset_secs < 0 { 1 } else { 0 };
    let mag = ((if offset_secs < 0 { -offset_secs } else { offset_secs }) / 900) as u64 & 0x3F;
    let yf = ((year - 2000) as u64) & 0x3F;
    (utc << 24u64) | (sign << 23u64) | (mag << 17u64) | (yf << 11u64) | 0x7FF
}

/// Pack the network time fields.
pub fn pack_network_time(secs_since_year_start: i64, offset_secs: i32, year: i32) -> (v: u64)
    ensures
        v == spec_pack_network_time(secs_since_year_start as int, offset_secs as int, year as int),
{
    let secs: i64 = if secs_since_year_start > 0 { secs_since_year_start } else { 0 };
    let utc_time: u64 = ((secs / 2) as u64) & 0xFF_FFFF;
    let offset_sign: u64 = if offset_secs < 0 { 1 } else { 0 };
    let magnitude: i64 = if offset_secs < 0 { -(offset_secs as i64) } else { offset_secs as i64 };
    let offset_magnitude: u64 = ((magnitude / 900) as u64) & 0x3F;
    let year_field: u64 = ((year as i64 - 2000) as u64) & 0x3F;
    (utc_time << 24u64) | (offset_sign << 23u64) | (offset_magnitude << 17u64) | (year_field << 11u64) | 0x7FF
}

/// The network time at UNIX time `now` in time zone `tz_name`, from chrono's answers: `None`
/// when the year or the zone's offset is unknown; a year start chrono cannot give counts as the
/// UNIX epoch, and the elapsed seconds are capped at `i64::MAX`.
pub open spec fn spec_network_time(now: i64, tz_name: Seq<char>) -> Option<u64> {
    match chrono_utc_year(now) {
        None => None,
        Some(year) => {
            let start: int = match chrono_year_start(year) {
                Some(s) => s as int,
                None => 0,
            };
            match chrono_tz_offset(tz_name, now) {
                None => None,
                Some(off) => {
                    let since = now - start;
                    let secs = if since > i64::MAX { i64::MAX as int } else { since };
                    Some(spec_pack_network_time(secs, off as int, year as int))
                },
            }
        },
    }
}

/// Encode the network time at UNIX time `now_unix` for time zone `tz_name`.
pub fn encode_tetra_network_time_inner(now_unix: i64, tz_name: &str) -> (r: Option<u64>)
    ensures
        r == spec_network_time(now_unix, tz_name@),
{
    let year = match utc_year(now_unix) {
        Some(y) => y,
        None => return None,
    };
    let year_start: i64 = match year_start_unix(year) {
        Some(s) => s,
        None => 0,
    };
    let since: i128 = now_unix as i128 - year_start as i128;
    let secs: i64 = if since <= 0 { 0 } else if since > i64::MAX as i128 { i64::MAX } else { since as i64 };
    let offset = match tz_offset_secs(tz_name, now_unix) {
        Some(o) => o,
        None => return None,
    };
    Some(pack_network_time(secs, offset, year))
}

/// Encode the current network time for time zone `tz_name`; `None` for an unknown zone.
pub fn encode_tetra_network_time(tz_name: &str) -> (r: Option<u64>)
    ensures
        exists|now: i64| r == spec_network_time(now, tz_name@),
{
    let now = utc_now_unix();
    encode_tetra_network_time_inner(now, tz_name)
}

} // verus!
