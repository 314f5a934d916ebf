//! Calendar field extraction, backed by chrono.  The crate keeps dates
//! and timestamps as plain day and millisecond counts from the Unix
//! epoch; what only the calendar can compute — the year, month, weekday
//! and so on of a day number — is named here and obtained through thin
//! wrappers over chrono, from plain values to plain values.

use vstd::prelude::*;
use chrono::{Datelike, TimeZone, Utc};

verus! {

/// Day numbers within this bound stay inside chrono's supported year
/// range (about plus and minus 262 thousand years).
pub const MAX_CALENDAR_DAY: i32 = 95_000_000;

/// Millisecond timestamps up to this bound stay inside the supported
/// day range.
pub const MAX_TIMESTAMP_MILLIS: i64 = 8_208_000_000_000_000;

/// Whether a day number (days since the Unix epoch) is within the
/// supported calendar range.
pub open spec fn day_in_range(day: int) -> bool {
    -(MAX_CALENDAR_DAY as int) <= day <= MAX_CALENDAR_DAY as int
}

/// Whether a millisecond timestamp is within the supported range; the
/// calendar functions take non-negative timestamps only.
pub open spec fn ts_in_range(ms: int) -> bool {
    0 <= ms <= MAX_TIMESTAMP_MILLIS as int
}

/// The proleptic Gregorian year of a day number.
pub uninterp spec fn year_of_day(day: int) -> int;

/// The month (1 to 12) of a day number.
pub uninterp spec fn month_of_day(day: int) -> int;

/// The day of month (1 to 31) of a day number.
pub uninterp spec fn dom_of_day(day: int) -> int;

/// The weekday of a day number, as days since Sunday (0 to 6).
pub uninterp spec fn dow_of_day(day: int) -> int;

/// The ordinal day of year (1 to 366) of a day number.
pub uninterp spec fn doy_of_day(day: int) -> int;

/// The ISO 8601 week-numbering year of a day number.
pub uninterp spec fn isoyear_of_day(day: int) -> int;

/// The ISO 8601 week number (1 to 53) of a day number.
pub uninterp spec fn isoweek_of_day(day: int) -> int;

/// Relies on chrono's `Utc.timestamp_opt` and `Datelike::year`: the
/// proleptic Gregorian year of the given day, a function of the day
/// number alone, within chrono's documented year range.
#[verifier::external_body]
pub fn day_to_year(day: i32) -> (y: i32)
    requires
        day_in_range(day as int),
    ensures
        y as int == year_of_day(day as int),
        -262144 <= y <= 262142,
{
    Utc.timestamp_opt(day as i64 * 86400, 0).single().unwrap().year()
}

/// Relies on chrono's `Utc.timestamp_opt` and `Datelike::month`: the
/// month of the given day, 1 to 12, a function of the day number alone.
#[verifier::external_body]
pub fn day_to_month(day: i32) -> (m: u8)
    requires
        day_in_range(day as int),
    ensures
        m as int == month_of_day(day as int),
        1 <= m <= 12,
{
    Utc.timestamp_opt(day as i64 * 86400, 0).single().unwrap().month() as u8
}

/// Relies on chrono's `Utc.timestamp_opt` and `Datelike::day`: the day
/// of month of the given day, 1 to 31, a function of the day number
/// alone.
#[verifier::external_body]
pub fn day_to_dom(day: i32) -> (d: u8)
    requires
        day_in_range(day as int),
    ensures
        d as int == dom_of_day(day as int),
        1 <= d <= 31,
{
    Utc.timestamp_opt(day as i64 * 86400, 0).single().unwrap().day() as u8
}

/// Relies on chrono's `Utc.timestamp_opt`, `Datelike::weekday` and
/// `Weekday::num_days_from_sunday`: the weekday of the given day as days
/// since Sunday, 0 to 6, a function of the day number alone.
#[verifier::external_body]
pub fn day_to_dow(day: i32) -> (d: u8)
    requires
        day_in_range(day as int),
    ensures
        d as int == dow_of_day(day as int),
        d <= 6,
{
    Utc.timestamp_opt(day as i64 * 86400, 0).single().unwrap().weekday().num_days_from_sunday()
        as u8
}

/// Relies on chrono's `Utc.timestamp_opt` and `Datelike::ordinal`: the
/// day of year of the given day, 1 to 366, a function of the day number
/// alone.
#[verifier::external_body]
pub fn day_to_doy(day: i32) -> (d: u16)
    requires
        day_in_range(day as int),
    ensures
        d as int == doy_of_day(day as int),
        1 <= d <= 366,
{
    Utc.timestamp_opt(day as i64 * 86400, 0).single().unwrap().ordinal() as u16
}

/// Relies on chrono's `Utc.timestamp_opt`, `Datelike::iso_week` and
/// `IsoWeek::year`: the ISO week-numbering year of the given day, a
/// function of the day number alone, within one of the calendar year.
#[verifier::external_body]
pub fn day_to_isoyear(day: i32) -> (y: i32)
    requires
        day_in_range(day as int),
    ensures
        y as int == isoyear_of_day(day as int),
        -262145 <= y <= 262143,
{
    Utc.timestamp_opt(day as i64 * 86400, 0).single().unwrap().iso_week().year()
}

/// Relies on chrono's `Utc.timestamp_opt`, `Datelike::iso_week` and
/// `IsoWeek::week`: the ISO week number of the given day, 1 to 53, a
/// function of the day number alone.
#[verifier::external_body]
pub fn day_to_isoweek(day: i32) -> (w: u8)
    requires
        day_in_range(day as int),
    ensures
        w as int == isoweek_of_day(day as int),
        1 <= w <= 53,
{
    Utc.timestamp_opt(day as i64 * 86400, 0).single().unwrap().iso_week().week() as u8
}

/// Relies on chrono's `Utc.timestamp_opt`, `Datelike::weekday` and
/// `Weekday::number_from_sunday`: the weekday of the instant, numbered
/// from Sunday as 1 to 7; the instant's date is its timestamp divided
/// into whole days.
#[verifier::external_body]
pub fn ts_to_dow_sun1(ms: i64) -> (d: u8)
    requires
        ts_in_range(ms as int),
    ensures
        d as int == dow_of_day(ms as int / 86_400_000) + 1,
        1 <= d <= 7,
{
    Utc.timestamp_opt(ms / 1000, (ms % 1000) as u32).single().unwrap().weekday()
        .number_from_sunday() as u8
}

/// Truncating division by a positive divisor, the rounding SQL field
/// extraction uses.
pub open spec fn tdiv(a: int, b: int) -> int {
    if a >= 0 {
        a / b
    } else {
        -((-a) / b)
    }
}

/// Divides, truncating toward zero.
pub fn tdiv_i64(a: i64, b: i64) -> (r: i64)
    requires
        b > 0,
        a != i64::MIN,
    ensures
        r == tdiv(a as int, b as int),
{
    if a >= 0 {
        let q: u64 = (a as u64) / (b as u64);
        proof {
            vstd::arithmetic::div_mod::lemma_div_nonincreasing(a as int, b as int);
            vstd::arithmetic::div_mod::lemma_div_pos_is_pos(a as int, b as int);
        }
        q as i64
    } else {
        let m: u64 = (-a) as u64;
        let q: u64 = m / (b as u64);
        proof {
            vstd::arithmetic::div_mod::lemma_div_nonincreasing(m as int, b as int);
            vstd::arithmetic::div_mod::lemma_div_pos_is_pos(m as int, b as int);
        }
        -(q as i64)
    }
}

} // verus!
