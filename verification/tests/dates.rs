use sqlrt::interval::ShortInterval;
use sqlrt::timestamp::{
    eq_dateN_date, eq_date_date, extract_Date_century, extract_Date_day, extract_Date_decade,
    extract_Date_dow, extract_Date_doy, extract_Date_epoch, extract_Date_hour,
    extract_Date_isodow, extract_Date_isoyear, extract_Date_millennium, extract_Date_minute,
    extract_Date_month, extract_Date_monthN, extract_Date_quarter, extract_Date_second,
    extract_Date_week, extract_Date_year, extract_Date_yearN, extract_Timestamp_epoch,
    extract_Timestamp_isodow, gt_date_date, gte_date_dateN, lt_dateN_dateN, lt_date_date,
    lte_date_date, minus_Timestamp_Timestamp_LongInterval,
    minus_Timestamp_Timestamp_ShortInterval, minus_dateN_date_LongInterval,
    minus_date_date_LongInterval, minus_date_date_ShortInterval, neq_date_date,
    plus_Timestamp_ShortInterval, Date, Timestamp,
};

const DAY_MS: i64 = 86_400_000;

#[test]
fn epoch_day_fields() {
    let d = Date::new(0);
    assert_eq!(extract_Date_year(d), 1970);
    assert_eq!(extract_Date_month(d), 1);
    assert_eq!(extract_Date_day(d), 1);
    assert_eq!(extract_Date_quarter(d), 1);
    assert_eq!(extract_Date_doy(d), 1);
    // 1970-01-01 was a Thursday; the dialect numbers Sunday as day one.
    assert_eq!(extract_Date_dow(d), 5);
    assert_eq!(extract_Date_isodow(d), 4);
    assert_eq!(extract_Date_week(d), 1);
    assert_eq!(extract_Date_isoyear(d), 1970);
    assert_eq!(extract_Date_epoch(d), 0);
    assert_eq!(extract_Date_second(d), 0);
    assert_eq!(extract_Date_minute(d), 0);
    assert_eq!(extract_Date_hour(d), 0);
    assert_eq!(extract_Date_decade(d), 197);
    assert_eq!(extract_Date_century(d), 20);
    assert_eq!(extract_Date_millennium(d), 2);
}

#[test]
fn modern_day_fields() {
    // 2023-01-01, day 19358: first day of a year that ISO assigns to the
    // last week of the previous year.
    let d = Date::new(19358);
    assert_eq!(extract_Date_year(d), 2023);
    assert_eq!(extract_Date_month(d), 1);
    assert_eq!(extract_Date_day(d), 1);
    assert_eq!(extract_Date_isoyear(d), 2022);
    assert_eq!(extract_Date_week(d), 52);
    // A Sunday.
    assert_eq!(extract_Date_dow(d), 1);
    assert_eq!(extract_Date_isodow(d), 7);
    assert_eq!(extract_Date_epoch(d), 19358 * 86400);
}

#[test]
fn nullable_extraction() {
    assert_eq!(extract_Date_yearN(Some(Date::new(0))), Some(1970));
    assert_eq!(extract_Date_yearN(None), None);
    assert_eq!(extract_Date_monthN(Some(Date::new(19358))), Some(1));
}

#[test]
fn date_comparisons() {
    let a = Date::new(10);
    let b = Date::new(20);
    assert!(lt_date_date(a, b));
    assert!(gt_date_date(b, a));
    assert!(lte_date_date(a, a));
    assert!(!eq_date_date(a, b));
    assert!(neq_date_date(a, b));
    assert_eq!(lt_dateN_dateN(Some(a), Some(b)), Some(true));
    assert_eq!(lt_dateN_dateN(None, Some(b)), None);
    assert_eq!(eq_dateN_date(Some(a), a), Some(true));
    assert_eq!(gte_date_dateN(a, None), None);
}

#[test]
fn date_differences() {
    let a = Date::new(19358);
    let b = Date::new(0);
    // Whole months from 1970-01-01 to 2023-01-01.
    assert_eq!(minus_date_date_LongInterval(a, b).months(), (2023 - 1970) * 12);
    assert_eq!(minus_date_date_ShortInterval(a, b).milliseconds(), 19358 * DAY_MS);
    // The nullable variant reports the day difference.
    assert_eq!(
        minus_dateN_date_LongInterval(Some(a), b).map(|x| x.months()),
        Some(19358)
    );
}

#[test]
fn timestamp_arithmetic() {
    let t = Timestamp::new(1000);
    let t2 = plus_Timestamp_ShortInterval(t, ShortInterval::new(500));
    assert_eq!(t2.milliseconds(), 1500);
    assert_eq!(
        minus_Timestamp_Timestamp_ShortInterval(t2, t).milliseconds(),
        500
    );
    assert_eq!(extract_Timestamp_epoch(Timestamp::new(1999)), 1);
    assert_eq!(extract_Timestamp_epoch(Timestamp::new(-1999)), -1);
}

#[test]
fn timestamp_weekday() {
    // The epoch instant was a Thursday.
    assert_eq!(extract_Timestamp_isodow(Timestamp::new(0)), 5);
    // A Sunday, two days into 2023.
    assert_eq!(extract_Timestamp_isodow(Timestamp::new(19358 * DAY_MS)), 1);
}

#[test]
fn timestamp_month_difference() {
    // 2023-03-15 minus 2023-01-15: exactly two months.
    let l = Timestamp::new(19431 * DAY_MS);
    let r = Timestamp::new(19372 * DAY_MS);
    assert_eq!(minus_Timestamp_Timestamp_LongInterval(l, r).months(), 2);
    // 2023-03-14 minus 2023-01-15: the second month has not elapsed.
    let l2 = Timestamp::new(19430 * DAY_MS);
    assert_eq!(minus_Timestamp_Timestamp_LongInterval(l2, r).months(), 1);
    // Same day of month, but an earlier time of day also rolls back.
    let l3 = Timestamp::new(19431 * DAY_MS);
    let r3 = Timestamp::new(19372 * DAY_MS + 1);
    assert_eq!(minus_Timestamp_Timestamp_LongInterval(l3, r3).months(), 1);
}

#[test]
fn date_to_timestamp() {
    let d = Date::new(2);
    assert_eq!(d.to_timestamp().milliseconds(), 2 * DAY_MS);
    assert_eq!(Date::first_day_of_week(), 1);
    assert_eq!(Date::new(-1).days(), -1);
}
