//! Arithmetic on timestamps.
//!
//! A timestamp counts the milliseconds of local wall-clock time since
//! 1970-01-01T00:00:00; a date counts the days since 1970-01-01.

use vstd::prelude::*;

verus! {

/// The milliseconds of a second.
pub const MILLIS_PER_SECOND: i64 = 1_000;

/// The milliseconds of a minute.
pub const MILLIS_PER_MINUTE: i64 = 60_000;

/// The milliseconds of an hour.
pub const MILLIS_PER_HOUR: i64 = 3_600_000;

/// The milliseconds of a day.
pub const MILLIS_PER_DAY: i64 = 86_400_000;

/// The last whole second of a day, in milliseconds since midnight:
/// 23:59:59.
pub const LAST_SECOND_OF_DAY: i64 = 86_399_000;

/// The calendar date that a timestamp falls on.
pub open spec fn local_date_spec(ts: i64) -> i64 {
    (ts as int / MILLIS_PER_DAY as int) as i64
}

/// The milliseconds of a timestamp since the midnight before it.
pub open spec fn time_of_day_spec(ts: i64) -> i64 {
    (ts as int % MILLIS_PER_DAY as int) as i64
}

/// 23:59:59 of the day that a timestamp falls on; the fraction of a second
/// that the timestamp carries stays.
pub open spec fn end_of_day_spec(ts: i64) -> int {
    local_date_spec(ts) * MILLIS_PER_DAY + LAST_SECOND_OF_DAY + (ts as int
        % MILLIS_PER_SECOND as int)
}

/// The whole days from `start` to `end`, for an `end` that is not before
/// `start`.
pub open spec fn whole_days_spec(start: i64, end: i64) -> int
    recommends
        start <= end,
{
    (end - start) / MILLIS_PER_DAY as int
}

/// A date is within a thousandth of the range of a timestamp, and the
/// time of day is less than a day.
pub proof fn lemma_date_bounds(ts: i64)
    ensures
        ts as int == local_date_spec(ts) * MILLIS_PER_DAY + time_of_day_spec(ts),
        0 <= time_of_day_spec(ts) < MILLIS_PER_DAY,
        -106_751_991_168 <= local_date_spec(ts) <= 106_751_991_167,
        local_date_spec(ts) == (ts as int) / (MILLIS_PER_DAY as int),
        time_of_day_spec(ts) == (ts as int) % (MILLIS_PER_DAY as int),
{
    let d = MILLIS_PER_DAY as int;
    vstd::arithmetic::div_mod::lemma_fundamental_div_mod(ts as int, d);
    vstd::arithmetic::div_mod::lemma_mod_bound(ts as int, d);
    let q = ts as int / d;
    let r = ts as int % d;
    assert(ts as int == d * q + r);
    assert(q <= 106_751_991_167) by (nonlinear_arith)
        requires
            ts as int == d * q + r,
            0 <= r,
            d == 86_400_000,
            ts <= 9_223_372_036_854_775_807,
    ;
    assert(q >= -106_751_991_168) by (nonlinear_arith)
        requires
            ts as int == d * q + r,
            r < d,
            d == 86_400_000,
            ts >= -9_223_372_036_854_775_808,
    ;
    assert(d * q == q * d) by (nonlinear_arith);
}

/// The calendar date that a timestamp falls on.
pub fn local_date(ts: i64) -> (d: i64)
    ensures
        d == local_date_spec(ts),
{
    proof {
        lemma_date_bounds(ts);
    }
    ts.checked_div_euclid(MILLIS_PER_DAY).unwrap()
}

/// The milliseconds of a timestamp since the midnight before it.
pub fn time_of_day(ts: i64) -> (t: i64)
    ensures
        t == time_of_day_spec(ts),
        0 <= t < MILLIS_PER_DAY,
{
    proof {
        lemma_date_bounds(ts);
    }
    ts.checked_rem_euclid(MILLIS_PER_DAY).unwrap()
}

/// 23:59:59 of the day that a timestamp falls on, or `None` where that is
/// beyond the range of a timestamp.
pub fn end_of_day(ts: i64) -> (r: Option<i64>)
    ensures
        r is Some <==> end_of_day_spec(ts) <= i64::MAX,
        r is Some ==> r->0 == end_of_day_spec(ts),
{
    proof {
        lemma_date_bounds(ts);
        vstd::arithmetic::div_mod::lemma_mod_bound(ts as int, MILLIS_PER_SECOND as int);
    }
    let date: i64 = local_date(ts);
    let fraction: i64 = ts.checked_rem_euclid(MILLIS_PER_SECOND).unwrap();
    let midnight: i128 = date as i128 * MILLIS_PER_DAY as i128;
    let end: i128 = midnight + LAST_SECOND_OF_DAY as i128 + fraction as i128;
    if end > i64::MAX as i128 {
        None
    } else {
        assert(end >= i64::MIN) by {
            assert(midnight + time_of_day_spec(ts) == ts);
        }
        Some(end as i64)
    }
}

/// The whole days from `start` to `end`.
pub fn whole_days(start: i64, end: i64) -> (r: i64)
    requires
        start <= end,
    ensures
        r == whole_days_spec(start, end),
        0 <= r,
{
    let span: i128 = end as i128 - start as i128;
    proof {
        crate::numeric::lemma_quotient_range(span as int, MILLIS_PER_DAY as int);
    }
    let days: i128 = span.checked_div_euclid(MILLIS_PER_DAY as i128).unwrap();
    assert(days <= 0xffff_ffff_ffff_ffff);
    assert(days <= i64::MAX) by {
        vstd::arithmetic::div_mod::lemma_div_is_ordered(
            span as int,
            0xffff_ffff_ffff_ffff,
            MILLIS_PER_DAY as int,
        );
        assert(0xffff_ffff_ffff_ffffint / 86_400_000int == 213_503_982_334int);
    }
    days as i64
}

/// The minute of the hour that a timestamp falls in.
pub open spec fn minute_of_spec(ts: i64) -> i64 {
    ((time_of_day_spec(ts) as int % MILLIS_PER_HOUR as int) / MILLIS_PER_MINUTE as int) as i64
}

/// The hour of the day that a timestamp falls in.
pub open spec fn hour_of_spec(ts: i64) -> i64 {
    (time_of_day_spec(ts) as int / MILLIS_PER_HOUR as int) as i64
}

/// A timestamp moved back to the last whole multiple of `unit`. A
/// timestamp so near the beginning of the range that the multiple is
/// beyond it stays where it is.
pub open spec fn floor_time_spec(ts: i64, unit: i64) -> i64
    recommends
        unit > 0,
{
    let floored = ts - (ts as int) % (unit as int);
    if floored >= i64::MIN {
        floored as i64
    } else {
        ts
    }
}

/// The minute of the hour that a timestamp falls in.
pub fn minute_of(ts: i64) -> (m: i64)
    ensures
        m == minute_of_spec(ts),
        0 <= m < 60,
{
    let t: i64 = time_of_day(ts);
    let in_hour: i64 = t % MILLIS_PER_HOUR;
    in_hour / MILLIS_PER_MINUTE
}

/// The hour of the day that a timestamp falls in.
pub fn hour_of(ts: i64) -> (h: i64)
    ensures
        h == hour_of_spec(ts),
        0 <= h < 24,
{
    let t: i64 = time_of_day(ts);
    t / MILLIS_PER_HOUR
}

/// A timestamp moved back to the last whole multiple of `unit`.
pub fn floor_time(ts: i64, unit: i64) -> (r: i64)
    requires
        unit > 0,
    ensures
        r == floor_time_spec(ts, unit),
{
    proof {
        vstd::arithmetic::div_mod::lemma_mod_bound(ts as int, unit as int);
    }
    let rest: i64 = ts.checked_rem_euclid(unit).unwrap();
    let floored: i128 = ts as i128 - rest as i128;
    if floored >= i64::MIN as i128 {
        floored as i64
    } else {
        ts
    }
}

} // verus!
