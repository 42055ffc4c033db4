//! Days and weeks. Unix time starts on a Thursday of a seven-day week, and
//! on a Monday of an eight-day week; weekdays are numbered from Monday = 0.
//!
//! Every computation comes in a form that takes the current time `now`
//! (seconds since the Unix epoch) as an argument, with an exact contract, and
//! a form that reads the system clock and answers with the reading it used,
//! with no answer where the reading would make the arithmetic leave the range
//! of `i64`.

use vstd::prelude::*;
use crate::clock::ClockAnswer;

verus! {

/// Seconds since 00:00:00 UTC, 1 January 1970.
pub type UnixTime = i64;

pub const DAY_SECS: UnixTime = 86400;

/// The epoch fell on a Thursday (weekday 3) of a seven-day week.
pub const WEEKDAY_OFFSET_7_DAY_WEEK: i64 = 3;

/// The epoch fell on a Monday (weekday 0) of an eight-day week.
pub const WEEKDAY_OFFSET_8_DAY_WEEK: i64 = 0;

/// A time zone offset is valid when it lies within twelve hours of UTC.
pub const MAX_TZ_OFFSET: i64 = 43200;

// ------------------------------------------------------------------------
// The system clock
// ------------------------------------------------------------------------

#[verifier::external_type_specification]
#[verifier::external_body]
pub struct ExSystemTime(std::time::SystemTime);

#[verifier::external_type_specification]
#[verifier::external_body]
pub struct ExSystemTimeError(std::time::SystemTimeError);

/// `SystemTime::now`: the current reading of the system clock. Nothing is
/// promised of it.
#[verifier::external_body]
fn system_time_now() -> std::time::SystemTime {
    std::time::SystemTime::now()
}

/// `SystemTime::duration_since(UNIX_EPOCH)`: the time elapsed since the epoch,
/// or an error where `t` lies before it. Nothing is promised of which comes.
#[verifier::external_body]
fn since_epoch(t: &std::time::SystemTime) -> Result<
    core::time::Duration,
    std::time::SystemTimeError,
> {
    t.duration_since(std::time::UNIX_EPOCH)
}

/// `Duration::as_secs`: the whole seconds of a duration.
#[verifier::external_body]
fn duration_secs(d: &core::time::Duration) -> u64 {
    d.as_secs()
}

/// The current Unix time in whole seconds, or `None` where the system clock
/// reads a time before the epoch. A reading above `i64::MAX` wraps, as a
/// cast of `u64` to `i64` does.
pub fn now() -> (r: Option<UnixTime>) {
    let t = system_time_now();
    match since_epoch(&t) {
        Ok(d) => {
            let secs = duration_secs(&d);
            Some(secs as i64)
        },
        Err(_) => None,
    }
}

// ------------------------------------------------------------------------
// The model
// ------------------------------------------------------------------------

/// Division rounding toward zero, as `/` on Rust integers does.
pub open spec fn tdiv(a: int, b: int) -> int {
    if a >= 0 {
        a / b
    } else {
        -((-a) / b)
    }
}

/// The remainder that goes with `tdiv`, as `%` on Rust integers gives it.
pub open spec fn trem(a: int, b: int) -> int {
    if a >= 0 {
        a % b
    } else {
        -((-a) % b)
    }
}

pub open spec fn fits_i64(x: int) -> bool {
    i64::MIN <= x <= i64::MAX
}

/// The number of the day (days since the epoch) at time `now` in zone `tz`.
pub open spec fn day_number(now: int, tz: int) -> int {
    tdiv(now + tz, DAY_SECS as int)
}

/// The Unix time of the last midnight in zone `tz`.
pub open spec fn today_start(now: int, tz: int) -> int {
    day_number(now, tz) * DAY_SECS - tz
}

/// The weekday of the epoch in a week of `week_len` days.
pub open spec fn weekday_offset(week_len: int) -> int {
    if week_len == 7 {
        WEEKDAY_OFFSET_7_DAY_WEEK as int
    } else {
        WEEKDAY_OFFSET_8_DAY_WEEK as int
    }
}

pub open spec fn valid_week_len(week_len: int) -> bool {
    week_len == 7 || week_len == 8
}

/// The weekday (Monday = 0) at time `now` in zone `tz`.
pub open spec fn weekday_of(now: int, week_len: int, tz: int) -> int {
    trem(day_number(now, tz) + weekday_offset(week_len), week_len)
}

/// Whole days from today until the next Logsday (0 when today is one).
pub open spec fn days_until_logsday(now: int, week_len: int, logsday_weekday: int, tz: int) -> int {
    let days = logsday_weekday - weekday_of(now, week_len, tz);
    if days < 0 {
        days + week_len
    } else {
        days
    }
}

/// Seconds from `now` until the start of the next Logsday; negative or zero
/// while today is Logsday.
pub open spec fn until_next_logsday(now: int, week_len: int, logsday_weekday: int, tz: int) -> int {
    days_until_logsday(now, week_len, logsday_weekday, tz) * DAY_SECS - (now - today_start(now, tz))
}

/// Seconds from `now` until the next midnight in zone `tz`.
pub open spec fn left_today(now: int, tz: int) -> int {
    today_start(now, tz) + DAY_SECS - now
}

/// Whole days from the day of `time` to the day of `now`, both in UTC.
pub open spec fn days_between(time: int, now: int) -> int {
    tdiv(now, DAY_SECS as int) - tdiv(time, DAY_SECS as int)
}

/// The day count at `now` and `now + tz` stays in range.
pub open spec fn today_tz_ok(now: int, tz: int) -> bool {
    &&& fits_i64(now + tz)
    &&& fits_i64(today_start(now, tz))
}

pub open spec fn time_left_today_ok(now: int, tz: int) -> bool {
    &&& today_tz_ok(now, tz)
    &&& fits_i64(today_start(now, tz) + DAY_SECS)
    &&& fits_i64(left_today(now, tz))
}

pub open spec fn until_next_logsday_ok(now: int, week_len: int, logsday_weekday: int, tz: int) -> bool {
    &&& valid_week_len(week_len)
    &&& today_tz_ok(now, tz)
    &&& fits_i64(logsday_weekday - weekday_of(now, week_len, tz))
    &&& fits_i64(days_until_logsday(now, week_len, logsday_weekday, tz) * DAY_SECS)
    &&& fits_i64(now - today_start(now, tz))
    &&& fits_i64(until_next_logsday(now, week_len, logsday_weekday, tz))
}

// ------------------------------------------------------------------------
// Computations at a given time
// ------------------------------------------------------------------------

proof fn lemma_day_times_day_secs(x: int)
    ensures
        x >= 0 ==> 0 <= tdiv(x, DAY_SECS as int) * DAY_SECS <= x,
        x < 0 ==> x <= tdiv(x, DAY_SECS as int) * DAY_SECS <= 0,
        x >= 0 ==> x - tdiv(x, DAY_SECS as int) * DAY_SECS < DAY_SECS,
        x < 0 ==> tdiv(x, DAY_SECS as int) * DAY_SECS - x < DAY_SECS,
{
    if x >= 0 {
        assert(x == (x / 86400) * 86400 + x % 86400);
    } else {
        let y = -x;
        assert(y == (y / 86400) * 86400 + y % 86400);
    }
}

/// The day number (days since the epoch) at time `now`, in UTC.
pub fn day_num(now: UnixTime) -> (r: i64)
    ensures
        r == tdiv(now as int, DAY_SECS as int),
{
    now / DAY_SECS
}

/// The day number at time `now` in zone `tz`.
pub fn day_num_tz(now: UnixTime, tz: i64) -> (r: i64)
    requires
        fits_i64(now + tz),
    ensures
        r == day_number(now as int, tz as int),
{
    (now + tz) / DAY_SECS
}

/// The Unix time of the last midnight in zone `tz`.
pub fn today_tz(now: UnixTime, tz: i64) -> (r: UnixTime)
    requires
        today_tz_ok(now as int, tz as int),
    ensures
        r == today_start(now as int, tz as int),
{
    let d = day_num_tz(now, tz);
    proof {
        lemma_day_times_day_secs(now + tz);
    }
    d * DAY_SECS - tz
}

/// The weekday (Monday = 0) at time `now` in zone `tz`, in a week of
/// `week_len` days.
pub fn weekday_tz(now: UnixTime, week_len: i64, tz: i64) -> (r: i64)
    requires
        valid_week_len(week_len as int),
        fits_i64(now + tz),
    ensures
        r == weekday_of(now as int, week_len as int, tz as int),
{
    let offset = if week_len == 7 {
        WEEKDAY_OFFSET_7_DAY_WEEK
    } else {
        WEEKDAY_OFFSET_8_DAY_WEEK
    };
    let d = day_num_tz(now, tz);
    proof {
        lemma_day_times_day_secs(now + tz);
    }
    (d + offset) % week_len
}

/// Whether time `now` falls on the Logsday of a user in zone `tz`.
pub fn is_logsday_tz_at(now: UnixTime, week_len: i64, logsday_weekday: i64, tz: i64) -> (r: bool)
    requires
        valid_week_len(week_len as int),
        fits_i64(now + tz),
    ensures
        r == (weekday_of(now as int, week_len as int, tz as int) == logsday_weekday),
{
    weekday_tz(now, week_len, tz) == logsday_weekday
}

/// Seconds from `now` until the next midnight in zone `tz`.
pub fn time_left_today_tz_at(now: UnixTime, tz: i64) -> (r: i64)
    requires
        time_left_today_ok(now as int, tz as int),
    ensures
        r == left_today(now as int, tz as int),
{
    today_tz(now, tz) + DAY_SECS - now
}

/// Seconds from `now` until the start of the next Logsday.
pub fn time_until_next_logsday_tz_at(
    now: UnixTime,
    week_len: i64,
    logsday_weekday: i64,
    tz: i64,
) -> (r: UnixTime)
    requires
        until_next_logsday_ok(now as int, week_len as int, logsday_weekday as int, tz as int),
    ensures
        r == until_next_logsday(now as int, week_len as int, logsday_weekday as int, tz as int),
{
    let mut days = logsday_weekday - weekday_tz(now, week_len, tz);
    if days < 0 {
        days += week_len;
    }
    days * DAY_SECS - (now - today_tz(now, tz))
}

/// The number of days that have passed from the day of `time` to the day of
/// `now`; `time` may not fall on a later day than `now`.
pub fn days_since_at(now: UnixTime, time: UnixTime) -> (r: i64)
    requires
        tdiv(time as int, DAY_SECS as int) <= tdiv(now as int, DAY_SECS as int),
    ensures
        r == days_between(time as int, now as int),
        r >= 0,
{
    let today = day_num(now);
    let given_day = time / DAY_SECS;
    proof {
        lemma_day_times_day_secs(now as int);
        lemma_day_times_day_secs(time as int);
    }
    today - given_day
}

/// A valid time zone offset is kept; any other becomes 0 (UTC).
pub fn ensure_tz_valid(tz: i64) -> (r: i64)
    ensures
        r == (if -MAX_TZ_OFFSET <= tz <= MAX_TZ_OFFSET { tz } else { 0 }),
{
    if tz < -12 * 60 * 60 || tz > 12 * 60 * 60 {
        return 0;
    }
    tz
}

// ------------------------------------------------------------------------
// Checks of the ranges above, computed without overflow
// ------------------------------------------------------------------------

fn in_i64(x: i128) -> (r: bool)
    ensures
        r == fits_i64(x as int),
{
    i64::MIN as i128 <= x && x <= i64::MAX as i128
}

/// Computes `today_start` in `i128`, where nothing overflows.
fn today_start_wide(now: i64, tz: i64) -> (r: i128)
    ensures
        r == today_start(now as int, tz as int),
{
    let s: i128 = now as i128 + tz as i128;
    proof {
        lemma_day_times_day_secs(s as int);
    }
    (s / 86400) * 86400 - tz as i128
}

fn today_tz_checked(now: i64, tz: i64) -> (r: bool)
    ensures
        r == today_tz_ok(now as int, tz as int),
{
    in_i64(now as i128 + tz as i128) && in_i64(today_start_wide(now, tz))
}

fn time_left_today_checked(now: i64, tz: i64) -> (r: bool)
    ensures
        r == time_left_today_ok(now as int, tz as int),
{
    let t = today_start_wide(now, tz);
    today_tz_checked(now, tz) && in_i64(t + 86400) && in_i64(t + 86400 - now as i128)
}

fn until_next_logsday_checked(now: i64, week_len: i64, logsday_weekday: i64, tz: i64) -> (r: bool)
    ensures
        r == until_next_logsday_ok(now as int, week_len as int, logsday_weekday as int, tz as int),
{
    if !(week_len == 7 || week_len == 8) || !today_tz_checked(now, tz) {
        return false;
    }
    let wd = weekday_tz(now, week_len, tz);
    let diff: i128 = logsday_weekday as i128 - wd as i128;
    let days: i128 = if diff < 0 {
        diff + week_len as i128
    } else {
        diff
    };
    let t = today_start_wide(now, tz);
    let elapsed: i128 = now as i128 - t;
    proof {
        lemma_day_times_day_secs(now + tz);
    }
    assert(-8 <= wd <= 8) by {
        assert(weekday_of(now as int, week_len as int, tz as int) == wd);
    }
    in_i64(diff) && in_i64(days * 86400) && in_i64(elapsed) && in_i64(days * 86400 - elapsed)
}

// ------------------------------------------------------------------------
// Computations at the time the system clock reads
// ------------------------------------------------------------------------

/// Whether it is Logsday now in zone `tz`, with the clock reading it was
/// decided at. No answer where the clock reads before the epoch or where the
/// reading plus `tz` leaves the range of `i64`.
pub fn is_logsday_tz(week_len: i64, logsday_weekday: i64, tz: i64) -> (r: ClockAnswer<bool>)
    requires
        valid_week_len(week_len as int),
    ensures
        r.answer is Some <==> (r.reading matches Some(t) && fits_i64(t + tz)),
        r.answer matches Some(b) ==> (r.reading matches Some(t) && b == (weekday_of(
            t as int,
            week_len as int,
            tz as int,
        ) == logsday_weekday)),
        r.answer matches Some(b) ==> exists|t: i64|
            fits_i64(t + tz) && b == (weekday_of(t as int, week_len as int, tz as int)
                == logsday_weekday),
{
    let reading = now();
    let answer = match reading {
        Some(t) => if in_i64(t as i128 + tz as i128) {
            Some(is_logsday_tz_at(t, week_len, logsday_weekday, tz))
        } else {
            None
        },
        None => None,
    };
    ClockAnswer { reading, answer }
}

/// Seconds left until the next midnight in zone `tz`, with the clock reading
/// they were computed at. No answer where the clock reads before the epoch or
/// the arithmetic leaves the range of `i64`.
pub fn time_left_today_tz(tz: i64) -> (r: ClockAnswer<i64>)
    ensures
        r.answer is Some <==> (r.reading matches Some(t) && time_left_today_ok(t as int, tz as int)),
        r.answer matches Some(v) ==> (r.reading matches Some(t) && v == left_today(
            t as int,
            tz as int,
        )),
        r.answer matches Some(v) ==> exists|t: i64|
            time_left_today_ok(t as int, tz as int) && v == left_today(t as int, tz as int),
{
    let reading = now();
    let answer = match reading {
        Some(t) => if time_left_today_checked(t, tz) {
            Some(time_left_today_tz_at(t, tz))
        } else {
            None
        },
        None => None,
    };
    ClockAnswer { reading, answer }
}

/// Seconds until the start of the next Logsday, with the clock reading they
/// were computed at. No answer where the clock reads before the epoch or the
/// arithmetic leaves the range of `i64`.
pub fn time_until_next_logsday_tz(week_len: i64, logsday_weekday: i64, tz: i64) -> (r: ClockAnswer<
    UnixTime,
>)
    requires
        valid_week_len(week_len as int),
    ensures
        r.answer is Some <==> (r.reading matches Some(t) && until_next_logsday_ok(
            t as int,
            week_len as int,
            logsday_weekday as int,
            tz as int,
        )),
        r.answer matches Some(v) ==> (r.reading matches Some(t) && v == until_next_logsday(
            t as int,
            week_len as int,
            logsday_weekday as int,
            tz as int,
        )),
        r.answer matches Some(v) ==> exists|t: i64|
            until_next_logsday_ok(t as int, week_len as int, logsday_weekday as int, tz as int)
                && v == until_next_logsday(t as int, week_len as int, logsday_weekday as int, tz as int),
{
    let reading = now();
    let answer = match reading {
        Some(t) => if until_next_logsday_checked(t, week_len, logsday_weekday, tz) {
            Some(time_until_next_logsday_tz_at(t, week_len, logsday_weekday, tz))
        } else {
            None
        },
        None => None,
    };
    ClockAnswer { reading, answer }
}

/// Days passed since the day of `time`, with the clock reading they were
/// counted at. No answer where the clock reads before the epoch or before the
/// day of `time`.
pub fn days_since(time: UnixTime) -> (r: ClockAnswer<i64>)
    ensures
        r.answer is Some <==> (r.reading matches Some(t) && tdiv(time as int, DAY_SECS as int)
            <= tdiv(t as int, DAY_SECS as int)),
        r.answer matches Some(v) ==> (r.reading matches Some(t) && v == days_between(
            time as int,
            t as int,
        )),
        r.answer matches Some(v) ==> exists|t: i64|
            tdiv(time as int, DAY_SECS as int) <= tdiv(t as int, DAY_SECS as int)
                && v == days_between(time as int, t as int),
{
    let reading = now();
    let answer = match reading {
        Some(t) => if time / DAY_SECS > t / DAY_SECS {
            None
        } else {
            Some(days_since_at(t, time))
        },
        None => None,
    };
    ClockAnswer { reading, answer }
}


// ------------------------------------------------------------------------
// Laws
// ------------------------------------------------------------------------

/// The offset that `ensure_tz_valid` returns.
pub open spec fn valid_tz(tz: int) -> int {
    if -MAX_TZ_OFFSET <= tz <= MAX_TZ_OFFSET {
        tz
    } else {
        0
    }
}

/// Ensuring a time zone offset valid twice changes nothing more than doing it
/// once, and the result always lies within twelve hours of UTC.
pub proof fn law_ensure_tz_valid_idempotent(tz: int)
    ensures
        valid_tz(valid_tz(tz)) == valid_tz(tz),
        -MAX_TZ_OFFSET <= valid_tz(tz) <= MAX_TZ_OFFSET,
{
}

proof fn lemma_day_number_nonneg(now: int, tz: int)
    requires
        now + tz >= 0,
    ensures
        day_number(now, tz) == (now + tz) / DAY_SECS as int,
        day_number(now, tz) >= 0,
        0 <= (now + tz) - day_number(now, tz) * DAY_SECS < DAY_SECS,
{
    let x = now + tz;
    vstd::arithmetic::div_mod::lemma_fundamental_div_mod(x, 86400);
    vstd::arithmetic::div_mod::lemma_div_pos_is_pos(x, 86400);
}

/// From the epoch on (in the user's zone), the weekday lies in `0..week_len`.
pub proof fn law_weekday_in_range(now: int, week_len: int, tz: int)
    requires
        valid_week_len(week_len),
        now + tz >= 0,
    ensures
        0 <= weekday_of(now, week_len, tz) < week_len,
{
    lemma_day_number_nonneg(now, tz);
}

/// The weekday a full week later is the same weekday.
pub proof fn law_weekday_repeats_each_week(now: int, week_len: int, tz: int)
    requires
        valid_week_len(week_len),
        now + tz >= 0,
    ensures
        weekday_of(now + week_len * DAY_SECS, week_len, tz) == weekday_of(now, week_len, tz),
{
    lemma_day_number_nonneg(now, tz);
    lemma_day_number_nonneg(now + week_len * DAY_SECS, tz);
    let x = now + tz;
    vstd::arithmetic::div_mod::lemma_hoist_over_denominator(x, week_len, 86400);
    assert(x + week_len * 86400 == now + week_len * DAY_SECS + tz);
    let d = day_number(now, tz);
    assert(day_number(now + week_len * DAY_SECS, tz) == d + week_len);
    let b = d + weekday_offset(week_len);
    vstd::arithmetic::div_mod::lemma_mod_add_multiples_vanish(b, week_len);
    assert(b + week_len == week_len + b);
}

/// The next day is the next weekday, wrapping from the last weekday to 0.
pub proof fn law_weekday_advances_daily(now: int, week_len: int, tz: int)
    requires
        valid_week_len(week_len),
        now + tz >= 0,
    ensures
        weekday_of(now + DAY_SECS, week_len, tz) == (weekday_of(now, week_len, tz) + 1) % week_len,
{
    lemma_day_number_nonneg(now, tz);
    lemma_day_number_nonneg(now + DAY_SECS, tz);
    let x = now + tz;
    vstd::arithmetic::div_mod::lemma_hoist_over_denominator(x, 1, 86400);
    let d = day_number(now, tz);
    assert(day_number(now + DAY_SECS, tz) == d + 1);
    let b = d + weekday_offset(week_len);
    vstd::arithmetic::div_mod::lemma_add_mod_noop(b, 1, week_len);
    assert(1int % week_len == 1);
    vstd::arithmetic::div_mod::lemma_mod_pos_bound(b, week_len);
}

/// From the epoch on, the time left until midnight is more than nothing and
/// at most one day.
pub proof fn law_time_left_today_within_a_day(now: int, tz: int)
    requires
        now + tz >= 0,
    ensures
        0 < left_today(now, tz) <= DAY_SECS,
{
    lemma_day_number_nonneg(now, tz);
}

/// For a Logsday weekday in range, it is Logsday exactly when the time until
/// the next Logsday is not positive; it is then less than a day behind.
pub proof fn law_logsday_iff_no_time_until_next(now: int, week_len: int, logsday_weekday: int, tz: int)
    requires
        valid_week_len(week_len),
        0 <= logsday_weekday < week_len,
        now + tz >= 0,
    ensures
        (weekday_of(now, week_len, tz) == logsday_weekday) <==> until_next_logsday(
            now,
            week_len,
            logsday_weekday,
            tz,
        ) <= 0,
        until_next_logsday(now, week_len, logsday_weekday, tz) > -DAY_SECS,
        until_next_logsday(now, week_len, logsday_weekday, tz) <= week_len * DAY_SECS,
{
    law_weekday_in_range(now, week_len, tz);
    lemma_day_number_nonneg(now, tz);
    let g = days_until_logsday(now, week_len, logsday_weekday, tz);
    assert(0 <= g < week_len);
    assert(g == 0 <==> weekday_of(now, week_len, tz) == logsday_weekday);
    assert(0 <= g * DAY_SECS <= (week_len - 1) * DAY_SECS) by (nonlinear_arith)
        requires
            0 <= g < week_len,
    ;
    assert(g >= 1 ==> g * DAY_SECS >= DAY_SECS) by (nonlinear_arith);
}

/// From the epoch on (in the user's zone), the time until the next Logsday can
/// always be computed: for a time and an offset that are `i64` values, no step
/// of `time_until_next_logsday_tz_at` leaves the range of `i64`.
pub proof fn law_until_next_logsday_computable(
    now: int,
    week_len: int,
    logsday_weekday: int,
    tz: int,
)
    requires
        valid_week_len(week_len),
        0 <= logsday_weekday < week_len,
        fits_i64(now),
        i64::MIN < tz <= i64::MAX,
        0 <= now + tz <= i64::MAX,
    ensures
        until_next_logsday_ok(now, week_len, logsday_weekday, tz),
{
    lemma_day_number_nonneg(now, tz);
    law_logsday_iff_no_time_until_next(now, week_len, logsday_weekday, tz);
    law_weekday_in_range(now, week_len, tz);
    let g = days_until_logsday(now, week_len, logsday_weekday, tz);
    assert(0 <= g * DAY_SECS <= 7 * DAY_SECS) by (nonlinear_arith)
        requires
            0 <= g < week_len,
            week_len <= 8,
    ;
}

/// A time zone shifts the clock: the weekday at time `now` in zone `tz` is the
/// weekday at `now + tz` in UTC, and Logsday in zone `tz` is Logsday in UTC
/// `tz` seconds later.
pub proof fn law_zone_shifts_the_clock(now: int, week_len: int, logsday_weekday: int, tz: int)
    ensures
        weekday_of(now, week_len, tz) == weekday_of(now + tz, week_len, 0),
        (weekday_of(now, week_len, tz) == logsday_weekday) <==> (weekday_of(now + tz, week_len, 0)
            == logsday_weekday),
        today_start(now, tz) == today_start(now + tz, 0) - tz,
{
}

/// A time is zero days away from itself.
pub proof fn law_days_since_same_time(t: int)
    ensures
        days_between(t, t) == 0,
{
}

} // verus!
