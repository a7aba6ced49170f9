use vstd::math::abs;
use vstd::prelude::*;

verus! {

/// Bound on the day numbers (days since the Unix epoch) the library
/// handles: covers the local calendar day of every well-formed instant.
pub const DAY_NUMBER_BOUND: i64 = 100_000_000;

/// Bound on the calendar years that correspond to bounded day numbers.
pub const YEAR_BOUND: i64 = 300_000;

/// A proleptic Gregorian calendar date.
#[derive(Clone, Copy, Debug, PartialEq, Eq, Structural)]
pub struct Date {
    pub year: i64,
    pub month: u8,
    pub day: u8,
}

pub open spec fn is_leap_year(y: int) -> bool {
    (y % 4 == 0 && y % 100 != 0) || y % 400 == 0
}

pub open spec fn days_in_year(y: int) -> int {
    if is_leap_year(y) {
        366
    } else {
        365
    }
}

pub open spec fn days_in_month(y: int, m: int) -> int {
    if m == 2 {
        if is_leap_year(y) {
            29
        } else {
            28
        }
    } else if m == 4 || m == 6 || m == 9 || m == 11 {
        30
    } else {
        31
    }
}

/// Days from the Unix epoch (1970-01-01) to January 1st of year `y`:
/// negative for earlier years.
pub open spec fn days_before_year(y: int) -> int
    decreases abs(y - 1970),
{
    if y == 1970 {
        0
    } else if y > 1970 {
        days_before_year(y - 1) + days_in_year(y - 1)
    } else {
        days_before_year(y + 1) - days_in_year(y)
    }
}

/// Days from January 1st of year `y` to the first day of month `m`.
pub open spec fn days_before_month(y: int, m: int) -> int
    decreases m,
{
    if m <= 1 {
        0
    } else {
        days_before_month(y, m - 1) + days_in_month(y, m - 1)
    }
}

/// The day number (days since the Unix epoch) of the civil date `y-m-d`.
pub open spec fn days_from_civil(y: int, m: int, d: int) -> int {
    days_before_year(y) + days_before_month(y, m) + (d - 1)
}

pub open spec fn valid_ymd(y: int, m: int, d: int) -> bool {
    &&& 1 <= m <= 12
    &&& 1 <= d <= days_in_month(y, m)
}

impl Date {
    pub open spec fn valid(self) -> bool {
        &&& valid_ymd(self.year as int, self.month as int, self.day as int)
        &&& -YEAR_BOUND <= self.year <= YEAR_BOUND
    }

    /// The day number this date stands for.
    pub open spec fn day_number(self) -> int {
        days_from_civil(self.year as int, self.month as int, self.day as int)
    }
}

/// Days from the week's Sunday to the given day number's weekday
/// (0 for a Sunday through 6 for a Saturday); day 0, 1970-01-01, was a
/// Thursday, four days past its week's Sunday.
pub open spec fn days_from_sunday(day: int) -> int {
    (day + 4) % 7
}

/// The day number of the Sunday opening the week that `day` falls in.
pub open spec fn week_start_day(day: int) -> int {
    day - days_from_sunday(day)
}

pub fn is_leap_year_exec(y: i64) -> (r: bool)
    requires
        -YEAR_BOUND <= y <= YEAR_BOUND,
    ensures
        r == is_leap_year(y as int),
{
    (y.checked_rem_euclid(4).unwrap() == 0 && y.checked_rem_euclid(100).unwrap() != 0)
        || y.checked_rem_euclid(400).unwrap() == 0
}

pub fn days_in_year_exec(y: i64) -> (r: i64)
    requires
        -YEAR_BOUND <= y <= YEAR_BOUND,
    ensures
        r == days_in_year(y as int),
{
    if is_leap_year_exec(y) {
        366
    } else {
        365
    }
}

pub fn days_in_month_exec(y: i64, m: u8) -> (r: i64)
    requires
        -YEAR_BOUND <= y <= YEAR_BOUND,
        1 <= m <= 12,
    ensures
        r == days_in_month(y as int, m as int),
{
    if m == 2 {
        if is_leap_year_exec(y) {
            29
        } else {
            28
        }
    } else if m == 4 || m == 6 || m == 9 || m == 11 {
        30
    } else {
        31
    }
}

/// A whole year's months add up to the year's length.
proof fn lemma_year_is_months(y: int)
    ensures
        days_before_month(y, 13) == days_in_year(y),
{
    reveal_with_fuel(days_before_month, 13);
}

/// January 1st of a later year is at least 365 days per year ahead, and
/// at most 366 days per year ahead.
proof fn lemma_days_before_year_bounds(y: int)
    ensures
        y >= 1970 ==> 365 * (y - 1970) <= days_before_year(y) <= 366 * (y - 1970),
        y <= 1970 ==> 366 * (y - 1970) <= days_before_year(y) <= 365 * (y - 1970),
    decreases abs(y - 1970),
{
    if y > 1970 {
        lemma_days_before_year_bounds(y - 1);
    } else if y < 1970 {
        lemma_days_before_year_bounds(y + 1);
    }
}

/// Recover the civil date of a day number: the inverse, over valid dates,
/// of `days_from_civil`.
pub fn civil_from_days(n: i64) -> (r: Date)
    requires
        -DAY_NUMBER_BOUND <= n <= DAY_NUMBER_BOUND,
    ensures
        r.valid(),
        r.day_number() == n,
{
    let mut y: i64 = 1970;
    let mut rem: i64 = n;
    while rem < 0
        invariant
            -DAY_NUMBER_BOUND <= n <= DAY_NUMBER_BOUND,
            days_before_year(y as int) + rem == n,
            -DAY_NUMBER_BOUND <= rem <= DAY_NUMBER_BOUND + 366,
            y <= 1970,
            -YEAR_BOUND < y,
        decreases 400 - rem,
    {
        proof {
            lemma_days_before_year_bounds(y as int);
            lemma_days_before_year_bounds(y - 1);
        }
        let len = days_in_year_exec(y - 1);
        y = y - 1;
        rem = rem + len;
    }
    while rem >= days_in_year_exec(y)
        invariant
            -DAY_NUMBER_BOUND <= n <= DAY_NUMBER_BOUND,
            days_before_year(y as int) + rem == n,
            0 <= rem <= DAY_NUMBER_BOUND + 366,
            -YEAR_BOUND <= y < YEAR_BOUND,
        decreases rem,
    {
        proof {
            lemma_days_before_year_bounds(y + 1);
        }
        let len = days_in_year_exec(y);
        rem = rem - len;
        y = y + 1;
    }
    proof {
        lemma_year_is_months(y as int);
    }
    let mut m: u8 = 1;
    while rem >= days_in_month_exec(y, m)
        invariant
            -YEAR_BOUND <= y <= YEAR_BOUND,
            1 <= m <= 12,
            days_before_year(y as int) + days_before_month(y as int, m as int) + rem == n,
            0 <= rem,
            rem < days_in_year(y as int) - days_before_month(y as int, m as int),
            days_before_month(y as int, 13) == days_in_year(y as int),
        decreases rem,
    {
        proof {
            assert(m < 12) by {
                if m == 12 {
                    reveal_with_fuel(days_before_month, 13);
                }
            }
        }
        let len = days_in_month_exec(y, m);
        rem = rem - len;
        m = m + 1;
    }
    let d: u8 = (rem as u8) + 1;
    Date { year: y, month: m, day: d }
}

/// The weekday offset from Sunday of a day number, 0 through 6.
pub fn days_from_sunday_exec(day: i64) -> (r: i64)
    requires
        -DAY_NUMBER_BOUND <= day <= DAY_NUMBER_BOUND,
    ensures
        r == days_from_sunday(day as int),
        0 <= r < 7,
{
    (day + 4).checked_rem_euclid(7).unwrap()
}

} // verus!
