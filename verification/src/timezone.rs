use crate::calendar::{
    Date, DAY_NUMBER_BOUND, civil_from_days, days_from_sunday, days_from_sunday_exec,
    week_start_day,
};
use crate::instant::Instant;
use chrono::Offset;
use vstd::prelude::*;

verus! {

/// Earliest and latest UTC timestamps, in whole seconds, that chrono can
/// represent as a datetime (years -262143 through 262142): outside them
/// `chrono::DateTime::from_timestamp` returns `None`.
pub const CHRONO_MIN_SECS: i64 = -8_334_601_315_200;

pub const CHRONO_MAX_SECS: i64 = 8_210_266_876_799;

/// Instants the week resolver accepts: chrono's range, shrunk by a ten-day
/// margin so that every week boundary near an accepted instant is itself
/// representable.
pub const RANGE_MARGIN_SECS: i64 = 864_000;

pub const SAFE_MIN_SECS: i64 = CHRONO_MIN_SECS + RANGE_MARGIN_SECS;

pub const SAFE_MAX_SECS: i64 = CHRONO_MAX_SECS - RANGE_MARGIN_SECS;

/// Day numbers whose local midnight candidates stay inside chrono's range.
pub const MIDNIGHT_DAY_MIN: i64 = -96_465_293;

pub const MIDNIGHT_DAY_MAX: i64 = 95_026_235;

pub const SECS_PER_DAY: i64 = 86_400;

/// Offset from UTC, in seconds, of the business timezone (US Central) at
/// the UTC instant `t` seconds from the epoch.
pub uninterp spec fn central_offset_of(t: int) -> int;

/// `central_offset_of`, clamped to the band the US/Central table stays in
/// (UTC-6h to UTC-5h); the trusted lookup always returns a value in the
/// band, so on every instant it is asked about the two agree.
pub open spec fn bounded_central_offset(t: int) -> int {
    let o = central_offset_of(t);
    if o < -21600 {
        -21600
    } else if o > -18000 {
        -18000
    } else {
        o
    }
}

/// Relies on chrono's `DateTime::from_timestamp` and `with_timezone`, and
/// on chrono_tz's US/Central timezone table, for the UTC offset of the
/// business timezone at a given instant.  Every offset in that table lies
/// between -21600 (CST, and the pre-1883 local mean time -21036) and
/// -18000 (CDT) seconds.
#[verifier::external_body]
fn central_offset(secs: i64) -> (r: i64)
    requires
        CHRONO_MIN_SECS <= secs <= CHRONO_MAX_SECS,
    ensures
        r == central_offset_of(secs as int),
        -21600 <= r <= -18000,
{
    let dt = chrono::DateTime::<chrono::Utc>::from_timestamp(secs, 0).unwrap();
    let central = dt.with_timezone(&chrono_tz::US::Central);
    central.offset().fix().local_minus_utc() as i64
}

/// Civil seconds of the business-timezone local datetime at instant `t`.
pub open spec fn local_secs_of(t: int) -> int {
    t + bounded_central_offset(t)
}

/// The business-timezone local calendar day (as a day number) at `t`.
pub open spec fn local_day_of(t: int) -> int {
    local_secs_of(t) / (SECS_PER_DAY as int)
}

/// The day number of the Sunday opening the business work week that `t`
/// falls in.
pub open spec fn week_day_of(t: int) -> int {
    week_start_day(local_day_of(t))
}

/// The UTC instant, in seconds, of local midnight opening local day
/// `day` in the business timezone: the instant `r` in the offset band
/// with `r + offset(r) == day * 86400`, found by first guessing the
/// standard-time offset and correcting once if the guess resolves to the
/// other offset.  When no such instant exists (midnight skipped by a
/// transition, which the US/Central table never does) the corrected
/// guess is returned as-is.
pub open spec fn central_midnight_utc(day: int) -> int {
    let target = day * (SECS_PER_DAY as int);
    let o1 = bounded_central_offset(target + 21600);
    let r1 = target - o1;
    let o2 = bounded_central_offset(r1);
    if o2 == o1 {
        r1
    } else {
        target - o2
    }
}

/// Instants the week resolver accepts.
pub open spec fn instant_in_range(t: Instant) -> bool {
    SAFE_MIN_SECS <= t.secs <= SAFE_MAX_SECS
}

/// Local midnight lies within the local day it opens, at most 21600
/// seconds (6 h) and at least 18000 seconds (5 h) after the day's start
/// in civil seconds.
pub proof fn lemma_midnight_bounds(day: int)
    ensures
        day * (SECS_PER_DAY as int) + 18000 <= central_midnight_utc(day) <= day * (
        SECS_PER_DAY as int) + 21600,
{
}

/// Midnights of different days are different instants.
pub proof fn lemma_midnight_injective(d1: int, d2: int)
    requires
        d1 != d2,
    ensures
        central_midnight_utc(d1) != central_midnight_utc(d2),
{
    lemma_midnight_bounds(d1);
    lemma_midnight_bounds(d2);
    if d1 < d2 {
        assert(d1 * (SECS_PER_DAY as int) + SECS_PER_DAY <= d2 * (SECS_PER_DAY as int))
            by (nonlinear_arith)
            requires
                d1 + 1 <= d2,
        ;
    } else {
        assert(d2 * (SECS_PER_DAY as int) + SECS_PER_DAY <= d1 * (SECS_PER_DAY as int))
            by (nonlinear_arith)
            requires
                d2 + 1 <= d1,
        ;
    }
}

/// The local day of an in-range instant, and hence its week's Sunday, is
/// a bounded day number.
pub proof fn lemma_local_day_bounds(t: int)
    requires
        SAFE_MIN_SECS <= t <= SAFE_MAX_SECS,
    ensures
        -DAY_NUMBER_BOUND < local_day_of(t) < DAY_NUMBER_BOUND,
        0 <= days_from_sunday(local_day_of(t)) < 7,
        -DAY_NUMBER_BOUND <= week_day_of(t) <= DAY_NUMBER_BOUND,
        MIDNIGHT_DAY_MIN <= week_day_of(t),
        week_day_of(t) + 7 <= MIDNIGHT_DAY_MAX,
{
    let ls = local_secs_of(t);
    let d = local_day_of(t);
    vstd::arithmetic::div_mod::lemma_fundamental_div_mod(ls, SECS_PER_DAY as int);
    vstd::arithmetic::div_mod::lemma_mod_bound(ls, SECS_PER_DAY as int);
    vstd::arithmetic::div_mod::lemma_mod_bound(d + 4, 7);
}

/// The week day number of an exec instant, from the trusted offset.
pub fn central_week_day(t: &Instant) -> (wd: i64)
    requires
        t.wf(),
        instant_in_range(*t),
    ensures
        wd == week_day_of(t.secs as int),
        MIDNIGHT_DAY_MIN <= wd,
        wd + 7 <= MIDNIGHT_DAY_MAX,
        -DAY_NUMBER_BOUND <= wd <= DAY_NUMBER_BOUND,
{
    proof {
        lemma_local_day_bounds(t.secs as int);
    }
    let off = central_offset(t.secs);
    let local = t.secs + off;
    let day = local.checked_div_euclid(SECS_PER_DAY).unwrap();
    let dfs = days_from_sunday_exec(day);
    day - dfs
}

/// The UTC instant of local midnight opening day `day`, from the trusted
/// offset.
pub fn central_midnight_exec(day: i64) -> (r: i64)
    requires
        MIDNIGHT_DAY_MIN <= day <= MIDNIGHT_DAY_MAX,
    ensures
        r == central_midnight_utc(day as int),
        CHRONO_MIN_SECS <= r <= CHRONO_MAX_SECS,
{
    proof {
        lemma_midnight_bounds(day as int);
    }
    let target = day * SECS_PER_DAY;
    let o1 = central_offset(target + 21600);
    let r1 = target - o1;
    let o2 = central_offset(r1);
    if o2 == o1 {
        r1
    } else {
        target - o2
    }
}

/// Work-week boundaries for a shift.  Returns, in order: the UTC instant
/// of the week start (the business-timezone Sunday midnight) for the
/// start time; the UTC instant of that week's end, seven local days
/// later; the UTC instant of the week start for the end time; and the
/// calendar dates of the two week-start Sundays.  The end time's week is
/// resolved from the end time's own local weekday, never from the start
/// time's.
pub fn get_start_of_week_for_shift(start_time: &Instant, end_time: &Instant) -> (r: (
    Instant,
    Instant,
    Instant,
    Date,
    Date,
))
    requires
        start_time.wf(),
        end_time.wf(),
        instant_in_range(*start_time),
        instant_in_range(*end_time),
    ensures
        r.0.secs == central_midnight_utc(week_day_of(start_time.secs as int)),
        r.1.secs == central_midnight_utc(week_day_of(start_time.secs as int) + 7),
        r.2.secs == central_midnight_utc(week_day_of(end_time.secs as int)),
        r.0.nanos == 0 && r.1.nanos == 0 && r.2.nanos == 0,
        r.0.wf() && r.1.wf() && r.2.wf(),
        r.3.valid() && r.3.day_number() == week_day_of(start_time.secs as int),
        r.4.valid() && r.4.day_number() == week_day_of(end_time.secs as int),
{
    let wd_start = central_week_day(start_time);
    let wd_end = central_week_day(end_time);
    proof {
        lemma_midnight_bounds(wd_start as int);
        lemma_midnight_bounds(wd_start + 7);
        lemma_midnight_bounds(wd_end as int);
    }
    let sow_start = Instant { secs: central_midnight_exec(wd_start), nanos: 0 };
    let eow_start = Instant { secs: central_midnight_exec(wd_start + 7), nanos: 0 };
    let sow_end = Instant { secs: central_midnight_exec(wd_end), nanos: 0 };
    let date_start = civil_from_days(wd_start);
    let date_end = civil_from_days(wd_end);
    (sow_start, eow_start, sow_end, date_start, date_end)
}

} // verus!
