//! Proleptic Gregorian calendar arithmetic: the day number of a calendar
//! date, counted from 1970-01-01, and the facts about it that the date
//! conversions rely on.
use vstd::prelude::*;

verus! {

/// Earliest year that the calendar backend represents.
pub const MIN_YEAR: i32 = -262143;

/// Latest year that the calendar backend represents.
pub const MAX_YEAR: i32 = 262142;

/// A calendar date held as plain numbers.
#[derive(Clone, Copy, Debug, PartialEq, Eq, Structural)]
pub struct CivilDate {
    pub year: i32,
    pub month: u32,
    pub day: u32,
}

pub open spec fn is_leap(y: int) -> bool {
    (y % 4 == 0 && y % 100 != 0) || y % 400 == 0
}

pub open spec fn year_len(y: int) -> int {
    if is_leap(y) { 366 } else { 365 }
}

pub open spec fn month_len(y: int, m: int) -> int {
    if m == 2 {
        if is_leap(y) { 29 } else { 28 }
    } else if m == 4 || m == 6 || m == 9 || m == 11 {
        30
    } else {
        31
    }
}

/// Days of year `y` that come before the first of month `m`.
pub open spec fn days_before_month(y: int, m: int) -> int {
    let leap: int = if is_leap(y) { 1 } else { 0 };
    if m <= 1 { 0 }
    else if m == 2 { 31 }
    else if m == 3 { 59 + leap }
    else if m == 4 { 90 + leap }
    else if m == 5 { 120 + leap }
    else if m == 6 { 151 + leap }
    else if m == 7 { 181 + leap }
    else if m == 8 { 212 + leap }
    else if m == 9 { 243 + leap }
    else if m == 10 { 273 + leap }
    else if m == 11 { 304 + leap }
    else { 334 + leap }
}

/// Days from 0001-01-01 to the first of January of year `y`.
pub open spec fn days_before_year(y: int) -> int {
    let p = y - 1;
    365 * p + p / 4 - p / 100 + p / 400
}

/// Whether year, month and day name a day of the calendar.
pub open spec fn valid_ymd(y: int, m: int, d: int) -> bool {
    1 <= m <= 12 && 1 <= d <= month_len(y, m)
}

/// Days from 1970-01-01 to the given date (negative before it).
pub open spec fn day_number(y: int, m: int, d: int) -> int {
    days_before_year(y) + days_before_month(y, m) + d - 1 - 719162
}

impl CivilDate {
    pub open spec fn valid(self) -> bool {
        valid_ymd(self.year as int, self.month as int, self.day as int)
    }

    /// A valid date within the years that the calendar backend represents.
    pub open spec fn in_range(self) -> bool {
        self.valid() && MIN_YEAR <= self.year <= MAX_YEAR
    }

    pub open spec fn days(self) -> int {
        day_number(self.year as int, self.month as int, self.day as int)
    }
}

/// The first and the last day that the calendar backend represents.
pub open spec fn min_day() -> int {
    day_number(MIN_YEAR as int, 1, 1)
}

pub open spec fn max_day() -> int {
    day_number(MAX_YEAR as int, 12, 31)
}

proof fn lemma_year_step(y: int)
    ensures
        days_before_year(y + 1) == days_before_year(y) + year_len(y),
{
    let p = y - 1;
    assert(y / 4 == p / 4 + (if y % 4 == 0 { 1int } else { 0 }));
    assert(y / 100 == p / 100 + (if y % 100 == 0 { 1int } else { 0 }));
    assert(y / 400 == p / 400 + (if y % 400 == 0 { 1int } else { 0 }));
}

proof fn lemma_year_monotonic(a: int, b: int)
    requires
        a <= b,
    ensures
        days_before_year(a) + 365 * (b - a) <= days_before_year(b),
    decreases b - a,
{
    if a < b {
        lemma_year_monotonic(a, b - 1);
        lemma_year_step(b - 1);
    }
}

/// A valid date lies within its own year's span of day numbers.
proof fn lemma_within_year(y: int, m: int, d: int)
    requires
        valid_ymd(y, m, d),
    ensures
        days_before_year(y) - 719162 <= day_number(y, m, d),
        day_number(y, m, d) < days_before_year(y + 1) - 719162,
{
    lemma_year_step(y);
}

/// Distinct valid dates have distinct day numbers.
pub proof fn lemma_day_number_injective(a: CivilDate, b: CivilDate)
    requires
        a.valid(),
        b.valid(),
        a.days() == b.days(),
    ensures
        a == b,
{
    let (ya, yb) = (a.year as int, b.year as int);
    lemma_within_year(ya, a.month as int, a.day as int);
    lemma_within_year(yb, b.month as int, b.day as int);
    if ya < yb {
        lemma_year_monotonic(ya + 1, yb);
    } else if yb < ya {
        lemma_year_monotonic(yb + 1, ya);
    }
    assert(ya == yb);
}

/// A date within the backend's years has a day number within its bounds.
pub proof fn lemma_day_in_bounds(a: CivilDate)
    requires
        a.in_range(),
    ensures
        min_day() <= a.days() <= max_day(),
{
    let y = a.year as int;
    lemma_within_year(y, a.month as int, a.day as int);
    lemma_within_year(MIN_YEAR as int, 1, 1);
    lemma_within_year(MAX_YEAR as int, 12, 31);
    lemma_year_monotonic(MIN_YEAR as int, y);
    lemma_year_monotonic(y + 1, MAX_YEAR as int + 1);
    lemma_year_step(MAX_YEAR as int);
}

/// Dates from 1970 on have non-negative day numbers.
pub proof fn lemma_day_number_nonneg(a: CivilDate)
    requires
        a.valid(),
        a.year >= 1970,
    ensures
        a.days() >= 0,
{
    lemma_within_year(a.year as int, a.month as int, a.day as int);
    lemma_year_monotonic(1970, a.year as int);
}

} // verus!
