//! SQL `TIMESTAMP` and `DATE` values: plain counts of milliseconds and
//! days since the Unix epoch, with arithmetic, comparisons and calendar
//! field extraction over them.

use vstd::prelude::*;
use crate::calendar::{
    day_in_range, day_to_dom, day_to_dow, day_to_doy, day_to_isoweek, day_to_isoyear,
    day_to_month, day_to_year, dom_of_day, dow_of_day, doy_of_day, isoweek_of_day,
    isoyear_of_day, month_of_day, tdiv, tdiv_i64, ts_in_range, ts_to_dow_sun1, year_of_day,
};
use crate::interval::{LongInterval, ShortInterval};

verus! {

/// An instant as a count of milliseconds since the Unix epoch, without
/// a time zone.
#[derive(Clone, Copy, Debug, Default, PartialEq, Eq, Structural, PartialOrd, Ord, Hash)]
pub struct Timestamp {
    milliseconds: i64,
}

impl Timestamp {
    pub closed spec fn spec_milliseconds(&self) -> i64 {
        self.milliseconds
    }

    pub fn new(milliseconds: i64) -> (r: Self)
        ensures
            r.spec_milliseconds() == milliseconds,
    {
        Self { milliseconds }
    }

    pub fn milliseconds(&self) -> (r: i64)
        ensures
            r == self.spec_milliseconds(),
    {
        self.milliseconds
    }
}

pub fn plus_Timestamp_ShortInterval(left: Timestamp, right: ShortInterval) -> (r: Timestamp)
    requires
        i64::MIN <= left.spec_milliseconds() + right.spec_milliseconds() <= i64::MAX,
    ensures
        r.spec_milliseconds() == left.spec_milliseconds() + right.spec_milliseconds(),
{
    Timestamp::new(left.milliseconds() + right.milliseconds())
}

pub fn minus_Timestamp_Timestamp_ShortInterval(left: Timestamp, right: Timestamp) -> (r:
    ShortInterval)
    requires
        i64::MIN <= left.spec_milliseconds() - right.spec_milliseconds() <= i64::MAX,
    ensures
        r.spec_milliseconds() == left.spec_milliseconds() - right.spec_milliseconds(),
{
    ShortInterval::new(left.milliseconds() - right.milliseconds())
}

/// The count of whole calendar months from `rms` up to `lms`, both
/// non-negative millisecond timestamps: the difference of their year and
/// month fields, less one when the later day-of-month and time of day
/// have not yet reached the earlier ones.
pub open spec fn months_between(lms: int, rms: int) -> int {
    let ld = lms / 86400000;
    let rd = rms / 86400000;
    let adj: int = if dom_of_day(ld) < dom_of_day(rd) || (dom_of_day(ld) == dom_of_day(rd)
        && lms % 86400000 < rms % 86400000) {
        1
    } else {
        0
    };
    (year_of_day(ld) - year_of_day(rd)) * 12 + month_of_day(ld) - month_of_day(rd) - adj
}

pub fn minus_Timestamp_Timestamp_LongInterval(left: Timestamp, right: Timestamp) -> (r:
    LongInterval)
    requires
        ts_in_range(left.spec_milliseconds() as int),
        ts_in_range(right.spec_milliseconds() as int),
    ensures
        r.spec_months() == months_between(
            left.spec_milliseconds() as int,
            right.spec_milliseconds() as int,
        ),
{
    broadcast use vstd::arithmetic::div_mod::lemma_fundamental_div_mod;

    let lms = left.milliseconds();
    let rms = right.milliseconds();
    let lday = tdiv_i64(lms, 86_400_000);
    let rday = tdiv_i64(rms, 86_400_000);
    let lt = lms - lday * 86_400_000;
    let rt = rms - rday * 86_400_000;
    proof {
        assert(lday == lms as int / 86400000);
        assert(rday == rms as int / 86400000);
        assert(lt == lms as int % 86400000);
        assert(rt == rms as int % 86400000);
    }
    let ld = lday as i32;
    let rd = rday as i32;
    let ly = day_to_year(ld) as i64;
    let lm = day_to_month(ld) as i64;
    let ldom = day_to_dom(ld);
    let ry = day_to_year(rd) as i64;
    let mut rm = day_to_month(rd) as i64;
    let rdom = day_to_dom(rd);
    if ldom < rdom || (ldom == rdom && lt < rt) {
        // The last month has not fully elapsed.
        rm = rm + 1;
    }
    let months: i64 = (ly - ry) * 12 + lm - rm;
    LongInterval::new(months as i32)
}

pub fn extract_Timestamp_isodow(t: Timestamp) -> (r: i64)
    requires
        ts_in_range(t.spec_milliseconds() as int),
    ensures
        r == dow_of_day(t.spec_milliseconds() as int / 86400000) + 1,
{
    ts_to_dow_sun1(t.milliseconds()) as i64
}

pub fn extract_Timestamp_epoch(t: Timestamp) -> (r: i64)
    requires
        t.spec_milliseconds() != i64::MIN,
    ensures
        r == tdiv(t.spec_milliseconds() as int, 1000),
{
    tdiv_i64(t.milliseconds(), 1000)
}

/// A calendar date as a count of days since the Unix epoch.
#[derive(Clone, Copy, Debug, Default, PartialEq, Eq, Structural, PartialOrd, Ord, Hash)]
pub struct Date {
    days: i32,
}

impl Date {
    pub closed spec fn spec_days(&self) -> i32 {
        self.days
    }

    pub fn new(days: i32) -> (r: Self)
        ensures
            r.spec_days() == days,
    {
        Self { days }
    }

    pub fn days(&self) -> (r: i32)
        ensures
            r == self.spec_days(),
    {
        self.days
    }

    /// The timestamp of this date's midnight.
    pub fn to_timestamp(&self) -> (r: Timestamp)
        ensures
            r.spec_milliseconds() == self.spec_days() * 86400000,
    {
        Timestamp::new((self.days as i64) * 86400 * 1000)
    }

    /// The weekday the week starts on, numbered as the dialect expects:
    /// Sunday is day one.
    pub fn first_day_of_week() -> (r: i64)
        ensures
            r == 1,
    {
        1
    }
}

pub fn lt_date_date(left: Date, right: Date) -> (r: bool)
    ensures
        r == (left.spec_days() < right.spec_days()),
{
    left.days() < right.days()
}

pub fn lt_dateN_date(left: Option<Date>, right: Date) -> (r: Option<bool>)
    ensures
        r == (match left {
            None => None::<bool>,
            Some(l) => Some(l.spec_days() < right.spec_days()),
        }),
{
    match left {
        None => None,
        Some(l) => Some(l.days() < right.days()),
    }
}

pub fn lt_date_dateN(left: Date, right: Option<Date>) -> (r: Option<bool>)
    ensures
        r == (match right {
            None => None::<bool>,
            Some(rr) => Some(left.spec_days() < rr.spec_days()),
        }),
{
    match right {
        None => None,
        Some(rr) => Some(left.days() < rr.days()),
    }
}

pub fn lt_dateN_dateN(left: Option<Date>, right: Option<Date>) -> (r: Option<bool>)
    ensures
        r == (match (left, right) {
            (Some(l), Some(rr)) => Some(l.spec_days() < rr.spec_days()),
            _ => None::<bool>,
        }),
{
    match (left, right) {
        (None, _) => None,
        (_, None) => None,
        (Some(l), Some(rr)) => Some(l.days() < rr.days()),
    }
}

pub fn gt_date_date(left: Date, right: Date) -> (r: bool)
    ensures
        r == (left.spec_days() > right.spec_days()),
{
    left.days() > right.days()
}

pub fn gt_dateN_date(left: Option<Date>, right: Date) -> (r: Option<bool>)
    ensures
        r == (match left {
            None => None::<bool>,
            Some(l) => Some(l.spec_days() > right.spec_days()),
        }),
{
    match left {
        None => None,
        Some(l) => Some(l.days() > right.days()),
    }
}

pub fn gt_date_dateN(left: Date, right: Option<Date>) -> (r: Option<bool>)
    ensures
        r == (match right {
            None => None::<bool>,
            Some(rr) => Some(left.spec_days() > rr.spec_days()),
        }),
{
    match right {
        None => None,
        Some(rr) => Some(left.days() > rr.days()),
    }
}

pub fn gt_dateN_dateN(left: Option<Date>, right: Option<Date>) -> (r: Option<bool>)
    ensures
        r == (match (left, right) {
            (Some(l), Some(rr)) => Some(l.spec_days() > rr.spec_days()),
            _ => None::<bool>,
        }),
{
    match (left, right) {
        (None, _) => None,
        (_, None) => None,
        (Some(l), Some(rr)) => Some(l.days() > rr.days()),
    }
}

pub fn eq_date_date(left: Date, right: Date) -> (r: bool)
    ensures
        r == (left.spec_days() == right.spec_days()),
{
    left.days() == right.days()
}

pub fn eq_dateN_date(left: Option<Date>, right: Date) -> (r: Option<bool>)
    ensures
        r == (match left {
            None => None::<bool>,
            Some(l) => Some(l.spec_days() == right.spec_days()),
        }),
{
    match left {
        None => None,
        Some(l) => Some(l.days() == right.days()),
    }
}

pub fn eq_date_dateN(left: Date, right: Option<Date>) -> (r: Option<bool>)
    ensures
        r == (match right {
            None => None::<bool>,
            Some(rr) => Some(left.spec_days() == rr.spec_days()),
        }),
{
    match right {
        None => None,
        Some(rr) => Some(left.days() == rr.days()),
    }
}

pub fn eq_dateN_dateN(left: Option<Date>, right: Option<Date>) -> (r: Option<bool>)
    ensures
        r == (match (left, right) {
            (Some(l), Some(rr)) => Some(l.spec_days() == rr.spec_days()),
            _ => None::<bool>,
        }),
{
    match (left, right) {
        (None, _) => None,
        (_, None) => None,
        (Some(l), Some(rr)) => Some(l.days() == rr.days()),
    }
}

pub fn neq_date_date(left: Date, right: Date) -> (r: bool)
    ensures
        r == (left.spec_days() != right.spec_days()),
{
    left.days() != right.days()
}

pub fn neq_dateN_date(left: Option<Date>, right: Date) -> (r: Option<bool>)
    ensures
        r == (match left {
            None => None::<bool>,
            Some(l) => Some(l.spec_days() != right.spec_days()),
        }),
{
    match left {
        None => None,
        Some(l) => Some(l.days() != right.days()),
    }
}

pub fn neq_date_dateN(left: Date, right: Option<Date>) -> (r: Option<bool>)
    ensures
        r == (match right {
            None => None::<bool>,
            Some(rr) => Some(left.spec_days() != rr.spec_days()),
        }),
{
    match right {
        None => None,
        Some(rr) => Some(left.days() != rr.days()),
    }
}

pub fn neq_dateN_dateN(left: Option<Date>, right: Option<Date>) -> (r: Option<bool>)
    ensures
        r == (match (left, right) {
            (Some(l), Some(rr)) => Some(l.spec_days() != rr.spec_days()),
            _ => None::<bool>,
        }),
{
    match (left, right) {
        (None, _) => None,
        (_, None) => None,
        (Some(l), Some(rr)) => Some(l.days() != rr.days()),
    }
}

pub fn gte_date_date(left: Date, right: Date) -> (r: bool)
    ensures
        r == (left.spec_days() >= right.spec_days()),
{
    left.days() >= right.days()
}

pub fn gte_dateN_date(left: Option<Date>, right: Date) -> (r: Option<bool>)
    ensures
        r == (match left {
            None => None::<bool>,
            Some(l) => Some(l.spec_days() >= right.spec_days()),
        }),
{
    match left {
        None => None,
        Some(l) => Some(l.days() >= right.days()),
    }
}

pub fn gte_date_dateN(left: Date, right: Option<Date>) -> (r: Option<bool>)
    ensures
        r == (match right {
            None => None::<bool>,
            Some(rr) => Some(left.spec_days() >= rr.spec_days()),
        }),
{
    match right {
        None => None,
        Some(rr) => Some(left.days() >= rr.days()),
    }
}

pub fn gte_dateN_dateN(left: Option<Date>, right: Option<Date>) -> (r: Option<bool>)
    ensures
        r == (match (left, right) {
            (Some(l), Some(rr)) => Some(l.spec_days() >= rr.spec_days()),
            _ => None::<bool>,
        }),
{
    match (left, right) {
        (None, _) => None,
        (_, None) => None,
        (Some(l), Some(rr)) => Some(l.days() >= rr.days()),
    }
}

pub fn lte_date_date(left: Date, right: Date) -> (r: bool)
    ensures
        r == (left.spec_days() <= right.spec_days()),
{
    left.days() <= right.days()
}

pub fn lte_dateN_date(left: Option<Date>, right: Date) -> (r: Option<bool>)
    ensures
        r == (match left {
            None => None::<bool>,
            Some(l) => Some(l.spec_days() <= right.spec_days()),
        }),
{
    match left {
        None => None,
        Some(l) => Some(l.days() <= right.days()),
    }
}

pub fn lte_date_dateN(left: Date, right: Option<Date>) -> (r: Option<bool>)
    ensures
        r == (match right {
            None => None::<bool>,
            Some(rr) => Some(left.spec_days() <= rr.spec_days()),
        }),
{
    match right {
        None => None,
        Some(rr) => Some(left.days() <= rr.days()),
    }
}

pub fn lte_dateN_dateN(left: Option<Date>, right: Option<Date>) -> (r: Option<bool>)
    ensures
        r == (match (left, right) {
            (Some(l), Some(rr)) => Some(l.spec_days() <= rr.spec_days()),
            _ => None::<bool>,
        }),
{
    match (left, right) {
        (None, _) => None,
        (_, None) => None,
        (Some(l), Some(rr)) => Some(l.days() <= rr.days()),
    }
}

pub fn minus_date_date_LongInterval(left: Date, right: Date) -> (r: LongInterval)
    requires
        day_in_range(left.spec_days() as int),
        day_in_range(right.spec_days() as int),
    ensures
        r.spec_months() == (year_of_day(left.spec_days() as int) - year_of_day(
            right.spec_days() as int,
        )) * 12 + month_of_day(left.spec_days() as int) - month_of_day(right.spec_days() as int),
{
    let ly = day_to_year(left.days()) as i64;
    let lm = day_to_month(left.days()) as i64;
    let ry = day_to_year(right.days()) as i64;
    let rm = day_to_month(right.days()) as i64;
    let months: i64 = (ly - ry) * 12 + lm - rm;
    LongInterval::new(months as i32)
}

pub fn minus_dateN_date_LongInterval(left: Option<Date>, right: Date) -> (r: Option<LongInterval>)
    requires
        left is Some ==> i32::MIN <= left.unwrap().spec_days() - right.spec_days() <= i32::MAX,
    ensures
        r is Some <==> left is Some,
        left is Some ==> r.unwrap().spec_months() == left.unwrap().spec_days()
            - right.spec_days(),
{
    match left {
        None => None,
        Some(x) => Some(LongInterval::new(x.days() - right.days())),
    }
}

pub fn minus_date_dateN_LongInterval(left: Date, right: Option<Date>) -> (r: Option<LongInterval>)
    requires
        right is Some ==> i32::MIN <= left.spec_days() - right.unwrap().spec_days() <= i32::MAX,
    ensures
        r is Some <==> right is Some,
        right is Some ==> r.unwrap().spec_months() == left.spec_days()
            - right.unwrap().spec_days(),
{
    match right {
        None => None,
        Some(x) => Some(LongInterval::new(left.days() - x.days())),
    }
}

pub fn minus_dateN_dateN_LongInterval(left: Option<Date>, right: Option<Date>) -> (r: Option<
    LongInterval,
>)
    requires
        left is Some && right is Some ==> i32::MIN <= left.unwrap().spec_days()
            - right.unwrap().spec_days() <= i32::MAX,
    ensures
        r is Some <==> (left is Some && right is Some),
        left is Some && right is Some ==> r.unwrap().spec_months() == left.unwrap().spec_days()
            - right.unwrap().spec_days(),
{
    match (left, right) {
        (None, _) => None,
        (_, None) => None,
        (Some(x), Some(y)) => Some(LongInterval::new(x.days() - y.days())),
    }
}

pub fn minus_date_date_ShortInterval(left: Date, right: Date) -> (r: ShortInterval)
    ensures
        r.spec_milliseconds() == (left.spec_days() - right.spec_days()) * 86400000,
{
    let ld = left.days() as i64;
    let rd = right.days() as i64;
    ShortInterval::new((ld - rd) * 86400 * 1000)
}

pub fn minus_dateN_date_ShortInterval(left: Option<Date>, right: Date) -> (r: Option<
    ShortInterval,
>)
    ensures
        r is Some <==> left is Some,
        left is Some ==> r.unwrap().spec_milliseconds() == (left.unwrap().spec_days()
            - right.spec_days()) * 86400000,
{
    match left {
        None => None,
        Some(x) => Some(minus_date_date_ShortInterval(x, right)),
    }
}

pub fn minus_date_dateN_ShortInterval(left: Date, right: Option<Date>) -> (r: Option<
    ShortInterval,
>)
    ensures
        r is Some <==> right is Some,
        right is Some ==> r.unwrap().spec_milliseconds() == (left.spec_days()
            - right.unwrap().spec_days()) * 86400000,
{
    match right {
        None => None,
        Some(x) => Some(minus_date_date_ShortInterval(left, x)),
    }
}

pub fn minus_dateN_dateN_ShortInterval(left: Option<Date>, right: Option<Date>) -> (r: Option<
    ShortInterval,
>)
    ensures
        r is Some <==> (left is Some && right is Some),
        left is Some && right is Some ==> r.unwrap().spec_milliseconds() == (
        left.unwrap().spec_days() - right.unwrap().spec_days()) * 86400000,
{
    match (left, right) {
        (None, _) => None,
        (_, None) => None,
        (Some(x), Some(y)) => Some(minus_date_date_ShortInterval(x, y)),
    }
}

pub fn extract_Date_year(value: Date) -> (r: i64)
    requires
        day_in_range(value.spec_days() as int),
    ensures
        r == (year_of_day(value.spec_days() as int)),
{
    day_to_year(value.days()) as i64
}

pub fn extract_Date_yearN(value: Option<Date>) -> (r: Option<i64>)
    requires
        value is Some ==> day_in_range(value.unwrap().spec_days() as int),
    ensures
        r is Some <==> value is Some,
        value is Some ==> r.unwrap() == (year_of_day(value.unwrap().spec_days() as int)),
{
    match value {
        None => None,
        Some(x) => Some(extract_Date_year(x)),
    }
}

pub fn extract_Date_month(value: Date) -> (r: i64)
    requires
        day_in_range(value.spec_days() as int),
    ensures
        r == (month_of_day(value.spec_days() as int)),
{
    day_to_month(value.days()) as i64
}

pub fn extract_Date_monthN(value: Option<Date>) -> (r: Option<i64>)
    requires
        value is Some ==> day_in_range(value.unwrap().spec_days() as int),
    ensures
        r is Some <==> value is Some,
        value is Some ==> r.unwrap() == (month_of_day(value.unwrap().spec_days() as int)),
{
    match value {
        None => None,
        Some(x) => Some(extract_Date_month(x)),
    }
}

pub fn extract_Date_day(value: Date) -> (r: i64)
    requires
        day_in_range(value.spec_days() as int),
    ensures
        r == (dom_of_day(value.spec_days() as int)),
{
    day_to_dom(value.days()) as i64
}

pub fn extract_Date_dayN(value: Option<Date>) -> (r: Option<i64>)
    requires
        value is Some ==> day_in_range(value.unwrap().spec_days() as int),
    ensures
        r is Some <==> value is Some,
        value is Some ==> r.unwrap() == (dom_of_day(value.unwrap().spec_days() as int)),
{
    match value {
        None => None,
        Some(x) => Some(extract_Date_day(x)),
    }
}

pub fn extract_Date_quarter(value: Date) -> (r: i64)
    requires
        day_in_range(value.spec_days() as int),
    ensures
        r == ((month_of_day(value.spec_days() as int) - 1) / 3 + 1),
{
    let m = day_to_month(value.days());
    (((m - 1) / 3) + 1) as i64
}

pub fn extract_Date_quarterN(value: Option<Date>) -> (r: Option<i64>)
    requires
        value is Some ==> day_in_range(value.unwrap().spec_days() as int),
    ensures
        r is Some <==> value is Some,
        value is Some ==> r.unwrap() == ((month_of_day(value.unwrap().spec_days() as int) - 1) / 3 + 1),
{
    match value {
        None => None,
        Some(x) => Some(extract_Date_quarter(x)),
    }
}

pub fn extract_Date_decade(value: Date) -> (r: i64)
    requires
        day_in_range(value.spec_days() as int),
    ensures
        r == (tdiv(year_of_day(value.spec_days() as int), 10)),
{
    let y = day_to_year(value.days()) as i64;
    tdiv_i64(y, 10)
}

pub fn extract_Date_decadeN(value: Option<Date>) -> (r: Option<i64>)
    requires
        value is Some ==> day_in_range(value.unwrap().spec_days() as int),
    ensures
        r is Some <==> value is Some,
        value is Some ==> r.unwrap() == (tdiv(year_of_day(value.unwrap().spec_days() as int), 10)),
{
    match value {
        None => None,
        Some(x) => Some(extract_Date_decade(x)),
    }
}

pub fn extract_Date_century(value: Date) -> (r: i64)
    requires
        day_in_range(value.spec_days() as int),
    ensures
        r == (tdiv(year_of_day(value.spec_days() as int) + 99, 100)),
{
    let y = day_to_year(value.days()) as i64;
    tdiv_i64(y + 99, 100)
}

pub fn extract_Date_centuryN(value: Option<Date>) -> (r: Option<i64>)
    requires
        value is Some ==> day_in_range(value.unwrap().spec_days() as int),
    ensures
        r is Some <==> value is Some,
        value is Some ==> r.unwrap() == (tdiv(year_of_day(value.unwrap().spec_days() as int) + 99, 100)),
{
    match value {
        None => None,
        Some(x) => Some(extract_Date_century(x)),
    }
}

pub fn extract_Date_millennium(value: Date) -> (r: i64)
    requires
        day_in_range(value.spec_days() as int),
    ensures
        r == (tdiv(year_of_day(value.spec_days() as int) + 999, 1000)),
{
    let y = day_to_year(value.days()) as i64;
    tdiv_i64(y + 999, 1000)
}

pub fn extract_Date_millenniumN(value: Option<Date>) -> (r: Option<i64>)
    requires
        value is Some ==> day_in_range(value.unwrap().spec_days() as int),
    ensures
        r is Some <==> value is Some,
        value is Some ==> r.unwrap() == (tdiv(year_of_day(value.unwrap().spec_days() as int) + 999, 1000)),
{
    match value {
        None => None,
        Some(x) => Some(extract_Date_millennium(x)),
    }
}

pub fn extract_Date_isoyear(value: Date) -> (r: i64)
    requires
        day_in_range(value.spec_days() as int),
    ensures
        r == (isoyear_of_day(value.spec_days() as int)),
{
    day_to_isoyear(value.days()) as i64
}

pub fn extract_Date_isoyearN(value: Option<Date>) -> (r: Option<i64>)
    requires
        value is Some ==> day_in_range(value.unwrap().spec_days() as int),
    ensures
        r is Some <==> value is Some,
        value is Some ==> r.unwrap() == (isoyear_of_day(value.unwrap().spec_days() as int)),
{
    match value {
        None => None,
        Some(x) => Some(extract_Date_isoyear(x)),
    }
}

pub fn extract_Date_week(value: Date) -> (r: i64)
    requires
        day_in_range(value.spec_days() as int),
    ensures
        r == (isoweek_of_day(value.spec_days() as int)),
{
    day_to_isoweek(value.days()) as i64
}

pub fn extract_Date_weekN(value: Option<Date>) -> (r: Option<i64>)
    requires
        value is Some ==> day_in_range(value.unwrap().spec_days() as int),
    ensures
        r is Some <==> value is Some,
        value is Some ==> r.unwrap() == (isoweek_of_day(value.unwrap().spec_days() as int)),
{
    match value {
        None => None,
        Some(x) => Some(extract_Date_week(x)),
    }
}

pub fn extract_Date_dow(value: Date) -> (r: i64)
    requires
        day_in_range(value.spec_days() as int),
    ensures
        r == (dow_of_day(value.spec_days() as int) + 1),
{
    let d = day_to_dow(value.days());
    d as i64 + 1
}

pub fn extract_Date_dowN(value: Option<Date>) -> (r: Option<i64>)
    requires
        value is Some ==> day_in_range(value.unwrap().spec_days() as int),
    ensures
        r is Some <==> value is Some,
        value is Some ==> r.unwrap() == (dow_of_day(value.unwrap().spec_days() as int) + 1),
{
    match value {
        None => None,
        Some(x) => Some(extract_Date_dow(x)),
    }
}

pub fn extract_Date_isodow(value: Date) -> (r: i64)
    requires
        day_in_range(value.spec_days() as int),
    ensures
        r == (if dow_of_day(value.spec_days() as int) == 0 { 7int } else { dow_of_day(value.spec_days() as int) }),
{
    let d = day_to_dow(value.days());
    if d == 0 {
        7
    } else {
        d as i64
    }
}

pub fn extract_Date_isodowN(value: Option<Date>) -> (r: Option<i64>)
    requires
        value is Some ==> day_in_range(value.unwrap().spec_days() as int),
    ensures
        r is Some <==> value is Some,
        value is Some ==> r.unwrap() == (if dow_of_day(value.unwrap().spec_days() as int) == 0 { 7int } else { dow_of_day(value.unwrap().spec_days() as int) }),
{
    match value {
        None => None,
        Some(x) => Some(extract_Date_isodow(x)),
    }
}

pub fn extract_Date_doy(value: Date) -> (r: i64)
    requires
        day_in_range(value.spec_days() as int),
    ensures
        r == (doy_of_day(value.spec_days() as int)),
{
    day_to_doy(value.days()) as i64
}

pub fn extract_Date_doyN(value: Option<Date>) -> (r: Option<i64>)
    requires
        value is Some ==> day_in_range(value.unwrap().spec_days() as int),
    ensures
        r is Some <==> value is Some,
        value is Some ==> r.unwrap() == (doy_of_day(value.unwrap().spec_days() as int)),
{
    match value {
        None => None,
        Some(x) => Some(extract_Date_doy(x)),
    }
}

pub fn extract_Date_epoch(value: Date) -> (r: i64)
    ensures
        r == (value.spec_days() * 86400),
{
    (value.days() as i64) * 86400
}

pub fn extract_Date_epochN(value: Option<Date>) -> (r: Option<i64>)
    ensures
        r is Some <==> value is Some,
        value is Some ==> r.unwrap() == (value.unwrap().spec_days() * 86400),
{
    match value {
        None => None,
        Some(x) => Some(extract_Date_epoch(x)),
    }
}

pub fn extract_Date_second(value: Date) -> (r: i64)
    ensures
        r == (0int),
{
    0
}

pub fn extract_Date_secondN(value: Option<Date>) -> (r: Option<i64>)
    ensures
        r is Some <==> value is Some,
        value is Some ==> r.unwrap() == (0int),
{
    match value {
        None => None,
        Some(x) => Some(extract_Date_second(x)),
    }
}

pub fn extract_Date_minute(value: Date) -> (r: i64)
    ensures
        r == (0int),
{
    0
}

pub fn extract_Date_minuteN(value: Option<Date>) -> (r: Option<i64>)
    ensures
        r is Some <==> value is Some,
        value is Some ==> r.unwrap() == (0int),
{
    match value {
        None => None,
        Some(x) => Some(extract_Date_minute(x)),
    }
}

pub fn extract_Date_hour(value: Date) -> (r: i64)
    ensures
        r == (0int),
{
    0
}

pub fn extract_Date_hourN(value: Option<Date>) -> (r: Option<i64>)
    ensures
        r is Some <==> value is Some,
        value is Some ==> r.unwrap() == (0int),
{
    match value {
        None => None,
        Some(x) => Some(extract_Date_hour(x)),
    }
}

} // verus!
