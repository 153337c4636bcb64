//! A Gregorian calendar day as plain values, with verified date arithmetic.
//!
//! Dates are restricted to years `MIN_YEAR..=MAX_YEAR`; every operation
//! that could leave that range is checked and returns `Option`.

use vstd::prelude::*;

verus! {

/// Smallest supported year.
pub const MIN_YEAR: u32 = 1;

/// Largest supported year.
pub const MAX_YEAR: u32 = 9999;

/// A Gregorian calendar day.
#[derive(Clone, Copy, PartialEq, Eq, Structural, Debug)]
pub struct Date {
    pub year: u32,
    pub month: u32,
    pub day: u32,
}

/// True for Gregorian leap years: divisible by 4, except centuries
/// not divisible by 400.
pub open spec fn is_leap_year(y: int) -> bool {
    (y % 4 == 0 && y % 100 != 0) || y % 400 == 0
}

/// Number of days in month `m` of year `y` (months are 1-based).
pub open spec fn days_in_month(y: int, m: int) -> int {
    if m == 2 {
        if is_leap_year(y) {
            29
        } else {
            28
        }
    } else if m == 4 || m == 6 || m == 9 || m == 11 {
        30
    } else {
        31
    }
}

/// Number of days in year `y`.
pub open spec fn days_in_year(y: int) -> int {
    if is_leap_year(y) {
        366
    } else {
        365
    }
}

/// A valid date: year in the supported range, month 1..=12, day within
/// the month.
pub open spec fn date_valid(d: Date) -> bool {
    &&& MIN_YEAR <= d.year <= MAX_YEAR
    &&& 1 <= d.month <= 12
    &&& 1 <= d.day <= days_in_month(d.year as int, d.month as int)
}

/// Days in months `1..m` of year `y`: the zero-based day-of-year of the
/// first day of month `m`.
pub open spec fn days_before_month(y: int, m: int) -> int
    decreases m,
{
    if m <= 1 {
        0
    } else {
        days_before_month(y, m - 1) + days_in_month(y, m - 1)
    }
}

/// Zero-based day of the year of date `d` (Jan 1 is 0).
pub open spec fn day_of_year0(d: Date) -> int {
    days_before_month(d.year as int, d.month as int) + d.day - 1
}

/// Days in all years `MIN_YEAR..y`: 365 per year plus one per leap year.
pub open spec fn days_before_year(y: int) -> int {
    365 * (y - 1) + (y - 1) / 4 - (y - 1) / 100 + (y - 1) / 400
}

/// Zero-based index of `d` on a continuous day axis starting at
/// Jan 1 of year `MIN_YEAR`.
pub open spec fn day_number(d: Date) -> int {
    days_before_year(d.year as int) + day_of_year0(d)
}

/// Weekday of `d` with Sunday = 0 .. Saturday = 6.
/// Jan 1 of year 1 is a Monday in the proleptic Gregorian calendar.
pub open spec fn weekday_of(d: Date) -> int {
    (day_number(d) + 1) % 7
}

/// The day after `d` (meaningful for valid `d` other than the last
/// supported day).
pub open spec fn next_date(d: Date) -> Date {
    if d.day < days_in_month(d.year as int, d.month as int) {
        Date { year: d.year, month: d.month, day: (d.day + 1) as u32 }
    } else if d.month < 12 {
        Date { year: d.year, month: (d.month + 1) as u32, day: 1 }
    } else {
        Date { year: (d.year + 1) as u32, month: 1, day: 1 }
    }
}

/// The day before `d` (meaningful for valid `d` other than the first
/// supported day).
pub open spec fn prev_date(d: Date) -> Date {
    if d.day > 1 {
        Date { year: d.year, month: d.month, day: (d.day - 1) as u32 }
    } else if d.month > 1 {
        Date {
            year: d.year,
            month: (d.month - 1) as u32,
            day: days_in_month(d.year as int, d.month - 1) as u32,
        }
    } else {
        Date { year: (d.year - 1) as u32, month: 12, day: 31 }
    }
}

/// The last supported day.
pub open spec fn max_date() -> Date {
    Date { year: MAX_YEAR, month: 12, day: 31 }
}

/// The first supported day.
pub open spec fn min_date() -> Date {
    Date { year: MIN_YEAR, month: 1, day: 1 }
}

/// `d` advanced by `n` days.
pub open spec fn iter_next(d: Date, n: nat) -> Date
    decreases n,
{
    if n == 0 {
        d
    } else {
        iter_next(next_date(d), (n - 1) as nat)
    }
}

/// `d` moved back by `n` days.
pub open spec fn iter_prev(d: Date, n: nat) -> Date
    decreases n,
{
    if n == 0 {
        d
    } else {
        iter_prev(prev_date(d), (n - 1) as nat)
    }
}

/// Whether `d` can be advanced by `n` days without leaving the
/// supported range.
pub open spec fn can_add(d: Date, n: nat) -> bool {
    forall|i: nat| i < n ==> #[trigger] iter_next(d, i) != max_date()
}

/// Whether `d` can be moved back by `n` days without leaving the
/// supported range.
pub open spec fn can_sub(d: Date, n: nat) -> bool {
    forall|i: nat| i < n ==> #[trigger] iter_prev(d, i) != min_date()
}

pub proof fn lemma_next_valid(d: Date)
    requires
        date_valid(d),
        d != max_date(),
    ensures
        date_valid(next_date(d)),
{
}

pub proof fn lemma_prev_valid(d: Date)
    requires
        date_valid(d),
        d != min_date(),
    ensures
        date_valid(prev_date(d)),
{
}

/// Stepping forward one day and back one day returns to the start.
pub proof fn lemma_prev_next(d: Date)
    requires
        date_valid(d),
        d != max_date(),
    ensures
        prev_date(next_date(d)) == d,
{
}

/// Stepping back one day and forward one day returns to the start.
pub proof fn lemma_next_prev(d: Date)
    requires
        date_valid(d),
        d != min_date(),
    ensures
        next_date(prev_date(d)) == d,
{
}

/// Whether the given year is a leap year.
pub fn leap_year(y: u32) -> (r: bool)
    ensures
        r == is_leap_year(y as int),
{
    (y % 4 == 0 && y % 100 != 0) || y % 400 == 0
}

/// Number of days in month `m` of year `y`.
pub fn month_length(y: u32, m: u32) -> (r: u32)
    requires
        1 <= m <= 12,
    ensures
        r == days_in_month(y as int, m as int),
{
    if m == 2 {
        if leap_year(y) {
            29
        } else {
            28
        }
    } else if m == 4 || m == 6 || m == 9 || m == 11 {
        30
    } else {
        31
    }
}

impl Date {
    /// Builds a date after checking it is a valid Gregorian day in the
    /// supported year range.
    pub fn checked_new(year: u32, month: u32, day: u32) -> (r: Option<Date>)
        ensures
            match r {
                Some(d) => d == (Date { year, month, day }) && date_valid(d),
                None => !date_valid(Date { year, month, day }),
            },
    {
        if MIN_YEAR <= year && year <= MAX_YEAR && 1 <= month && month <= 12 && 1 <= day && day
            <= month_length(year, month) {
            Some(Date { year, month, day })
        } else {
            None
        }
    }

    /// Whether this date is a valid Gregorian day in the supported range.
    pub fn is_valid(&self) -> (r: bool)
        ensures
            r == date_valid(*self),
    {
        MIN_YEAR <= self.year && self.year <= MAX_YEAR && 1 <= self.month && self.month <= 12 && 1
            <= self.day && self.day <= month_length(self.year, self.month)
    }

    /// Zero-based day of the year (Jan 1 is 0).
    pub fn day_of_year0(&self) -> (r: u32)
        requires
            date_valid(*self),
        ensures
            r == day_of_year0(*self),
            r < days_in_year(self.year as int),
    {
        let mut acc: u32 = 0;
        let mut m: u32 = 1;
        while m < self.month
            invariant
                1 <= m <= self.month,
                date_valid(*self),
                acc == days_before_month(self.year as int, m as int),
                acc <= 31 * (m - 1),
            decreases self.month - m,
        {
            acc = acc + month_length(self.year, m);
            m = m + 1;
        }
        proof {
            lemma_day_of_year_bound(*self);
        }
        acc + (self.day - 1)
    }

    /// Weekday with Sunday = 0 .. Saturday = 6.
    pub fn weekday(&self) -> (r: u32)
        requires
            date_valid(*self),
        ensures
            r == weekday_of(*self),
            r < 7,
    {
        let y: u64 = (self.year - 1) as u64;
        let days: u64 = 365 * y + y / 4 - y / 100 + y / 400;
        let doy: u64 = self.day_of_year0() as u64;
        proof {
            assert(y / 100 <= y / 4) by (nonlinear_arith)
                requires y >= 0,
            ;
        }
        ((days + doy + 1) % 7) as u32
    }

    /// The next day, or `None` at the end of the supported range.
    pub fn next_day(&self) -> (r: Option<Date>)
        requires
            date_valid(*self),
        ensures
            match r {
                Some(d) => *self != max_date() && d == next_date(*self) && date_valid(d),
                None => *self == max_date(),
            },
    {
        if self.day < month_length(self.year, self.month) {
            Some(Date { year: self.year, month: self.month, day: self.day + 1 })
        } else if self.month < 12 {
            Some(Date { year: self.year, month: self.month + 1, day: 1 })
        } else if self.year < MAX_YEAR {
            Some(Date { year: self.year + 1, month: 1, day: 1 })
        } else {
            None
        }
    }

    /// The previous day, or `None` at the start of the supported range.
    pub fn prev_day(&self) -> (r: Option<Date>)
        requires
            date_valid(*self),
        ensures
            match r {
                Some(d) => *self != min_date() && d == prev_date(*self) && date_valid(d),
                None => *self == min_date(),
            },
    {
        if self.day > 1 {
            Some(Date { year: self.year, month: self.month, day: self.day - 1 })
        } else if self.month > 1 {
            Some(
                Date {
                    year: self.year,
                    month: self.month - 1,
                    day: month_length(self.year, self.month - 1),
                },
            )
        } else if self.year > MIN_YEAR {
            Some(Date { year: self.year - 1, month: 12, day: 31 })
        } else {
            None
        }
    }

    /// This date advanced by `n` days, or `None` if that leaves the
    /// supported range.
    pub fn plus_days(&self, n: u32) -> (r: Option<Date>)
        requires
            date_valid(*self),
        ensures
            match r {
                Some(d) => can_add(*self, n as nat) && d == iter_next(*self, n as nat) && date_valid(
                    d,
                ),
                None => !can_add(*self, n as nat),
            },
    {
        let mut cur: Date = *self;
        let mut i: u32 = 0;
        while i < n
            invariant
                i <= n,
                date_valid(cur),
                cur == iter_next(*self, i as nat),
                can_add(*self, i as nat),
            decreases n - i,
        {
            match cur.next_day() {
                Some(d) => {
                    proof {
                        lemma_iter_next_snoc(*self, i as nat);
                        assert forall|j: nat| j < i + 1 implies #[trigger] iter_next(*self, j)
                            != max_date() by {
                            if j < i as nat {
                                assert(iter_next(*self, j) != max_date());
                            }
                        }
                    }
                    cur = d;
                },
                None => {
                    return None;
                },
            }
            i = i + 1;
        }
        Some(cur)
    }

    /// This date moved back by `n` days, or `None` if that leaves the
    /// supported range.
    pub fn minus_days(&self, n: u32) -> (r: Option<Date>)
        requires
            date_valid(*self),
        ensures
            match r {
                Some(d) => can_sub(*self, n as nat) && d == iter_prev(*self, n as nat) && date_valid(
                    d,
                ),
                None => !can_sub(*self, n as nat),
            },
    {
        let mut cur: Date = *self;
        let mut i: u32 = 0;
        while i < n
            invariant
                i <= n,
                date_valid(cur),
                cur == iter_prev(*self, i as nat),
                can_sub(*self, i as nat),
            decreases n - i,
        {
            match cur.prev_day() {
                Some(d) => {
                    proof {
                        lemma_iter_prev_snoc(*self, i as nat);
                        assert forall|j: nat| j < i + 1 implies #[trigger] iter_prev(*self, j)
                            != min_date() by {
                            if j < i as nat {
                                assert(iter_prev(*self, j) != min_date());
                            }
                        }
                    }
                    cur = d;
                },
                None => {
                    return None;
                },
            }
            i = i + 1;
        }
        Some(cur)
    }
}

/// Unfolding step at the far end: advancing `n + 1` days is advancing
/// `n` days and then one more.
pub proof fn lemma_iter_next_snoc(d: Date, n: nat)
    ensures
        iter_next(d, n + 1) == next_date(iter_next(d, n)),
    decreases n,
{
    assert(iter_next(d, n + 1) == iter_next(next_date(d), n));
    if n == 0 {
        assert(iter_next(next_date(d), 0) == next_date(d));
        assert(iter_next(d, 0) == d);
    } else {
        lemma_iter_next_snoc(next_date(d), (n - 1) as nat);
        assert(iter_next(d, n) == iter_next(next_date(d), (n - 1) as nat));
    }
}

/// Unfolding step at the far end for backward movement.
pub proof fn lemma_iter_prev_snoc(d: Date, n: nat)
    ensures
        iter_prev(d, n + 1) == prev_date(iter_prev(d, n)),
    decreases n,
{
    assert(iter_prev(d, n + 1) == iter_prev(prev_date(d), n));
    if n == 0 {
        assert(iter_prev(prev_date(d), 0) == prev_date(d));
        assert(iter_prev(d, 0) == d);
    } else {
        lemma_iter_prev_snoc(prev_date(d), (n - 1) as nat);
        assert(iter_prev(d, n) == iter_prev(prev_date(d), (n - 1) as nat));
    }
}

/// Every intermediate of a permitted forward walk is a valid date.
pub proof fn lemma_iter_next_valid(d: Date, n: nat)
    requires
        date_valid(d),
        can_add(d, n),
    ensures
        date_valid(iter_next(d, n)),
    decreases n,
{
    if n > 0 {
        assert(iter_next(d, 0) == d);
        lemma_next_valid(d);
        assert forall|i: nat| i < (n - 1) as nat implies #[trigger] iter_next(next_date(d), i)
            != max_date() by {
            lemma_iter_next_unfold(d, (i + 1) as nat);
            assert(iter_next(d, i + 1) != max_date());
        }
        lemma_iter_next_valid(next_date(d), (n - 1) as nat);
    }
}

proof fn lemma_iter_next_unfold(d: Date, n: nat)
    requires
        n > 0,
    ensures
        iter_next(d, n) == iter_next(next_date(d), (n - 1) as nat),
{
}

/// Stepping backward never lands on the last supported day.
pub proof fn lemma_prev_not_max(d: Date)
    requires
        date_valid(d),
    ensures
        prev_date(d) != max_date(),
{
}

/// Stepping forward never lands on the first supported day.
pub proof fn lemma_next_not_min(d: Date)
    requires
        date_valid(d),
    ensures
        next_date(d) != min_date(),
{
}

/// Every stop of a permitted backward walk is a valid date.
pub proof fn lemma_iter_prev_valid(d: Date, n: nat)
    requires
        date_valid(d),
        can_sub(d, n),
    ensures
        date_valid(iter_prev(d, n)),
    decreases n,
{
    if n > 0 {
        assert(iter_prev(d, 0) == d);
        assert(iter_prev(d, 0) != min_date());
        lemma_prev_valid(d);
        assert forall|i: nat| i < (n - 1) as nat implies #[trigger] iter_prev(prev_date(d), i)
            != min_date() by {
            assert(iter_prev(d, i + 1) == iter_prev(prev_date(d), i));
        }
        lemma_iter_prev_valid(prev_date(d), (n - 1) as nat);
        assert(iter_prev(d, n) == iter_prev(prev_date(d), (n - 1) as nat));
    }
}

proof fn lemma_iter_prev_unfold(d: Date, n: nat)
    requires
        n > 0,
    ensures
        iter_prev(d, n) == iter_prev(prev_date(d), (n - 1) as nat),
{
}

/// Moving `n` days forward and then `n` days back returns to the start.
pub proof fn lemma_round_trip(d: Date, n: nat)
    requires
        date_valid(d),
        can_add(d, n),
    ensures
        iter_prev(iter_next(d, n), n) == d,
    decreases n,
{
    if n > 0 {
        assert(iter_next(d, 0) != max_date());
        assert(iter_next(d, 0) == d);
        lemma_next_valid(d);
        assert forall|i: nat| i < (n - 1) as nat implies #[trigger] iter_next(next_date(d), i)
            != max_date() by {
            lemma_iter_next_unfold(d, (i + 1) as nat);
        }
        lemma_round_trip(next_date(d), (n - 1) as nat);
        lemma_iter_prev_snoc(iter_next(d, n), (n - 1) as nat);
        assert(iter_next(d, n) == iter_next(next_date(d), (n - 1) as nat));
        assert(iter_prev(iter_next(d, n), n) == prev_date(iter_prev(iter_next(d, n), (n - 1) as nat)));
        assert(iter_prev(iter_next(d, n), (n - 1) as nat) == next_date(d));
        lemma_prev_next(d);
    }
}

/// Moving `n` days back and then `n` days forward returns to the start.
pub proof fn lemma_round_trip_back(d: Date, n: nat)
    requires
        date_valid(d),
        can_sub(d, n),
    ensures
        iter_next(iter_prev(d, n), n) == d,
    decreases n,
{
    if n > 0 {
        assert(iter_prev(d, 0) != min_date());
        assert(iter_prev(d, 0) == d);
        lemma_prev_valid(d);
        assert forall|i: nat| i < (n - 1) as nat implies #[trigger] iter_prev(prev_date(d), i)
            != min_date() by {
            lemma_iter_prev_unfold(d, (i + 1) as nat);
        }
        lemma_round_trip_back(prev_date(d), (n - 1) as nat);
        lemma_iter_next_snoc(iter_prev(d, n), (n - 1) as nat);
        assert(iter_prev(d, n) == iter_prev(prev_date(d), (n - 1) as nat));
        lemma_next_prev(d);
    }
}

/// `days_before_month` grows with the month.
pub proof fn lemma_days_before_month_mono(y: int, m1: int, m2: int)
    requires
        m1 <= m2,
    ensures
        days_before_month(y, m1) <= days_before_month(y, m2),
    decreases m2 - m1,
{
    if m1 < m2 {
        lemma_days_before_month_mono(y, m1, m2 - 1);
    }
}

/// The zero-based day of the year is below the length of the year.
pub proof fn lemma_day_of_year_bound(d: Date)
    requires
        date_valid(d),
    ensures
        0 <= day_of_year0(d) < days_in_year(d.year as int),
        days_before_month(d.year as int, d.month as int) <= 334 + if is_leap_year(
            d.year as int,
        ) {
            1int
        } else {
            0int
        },
{
    let y = d.year as int;
    lemma_days_before_month_mono(y, 1, d.month as int);
    lemma_days_before_month_le_year(y, d.month as int);
    lemma_days_before_month_mono(y, d.month as int, 12);
    lemma_days_before_month_le_year(y, 12);
}

/// Months `1..m` together with the rest of month `m` fit in the year.
proof fn lemma_days_before_month_le_year(y: int, m: int)
    requires
        1 <= m <= 12,
    ensures
        days_before_month(y, m) + days_in_month(y, m) <= days_in_year(y),
    decreases 12 - m,
{
    if m < 12 {
        lemma_days_before_month_le_year(y, m + 1);
    } else {
        reveal_with_fuel(days_before_month, 13);
    }
}

/// The months of a year sum to the year's length.
pub proof fn lemma_days_before_month_total(y: int)
    ensures
        days_before_month(y, 13) == days_in_year(y),
{
    reveal_with_fuel(days_before_month, 14);
}

/// Within one year, the zero-based day of the year determines the date.
pub proof fn lemma_day_of_year_injective(d1: Date, d2: Date)
    requires
        date_valid(d1),
        date_valid(d2),
        d1.year == d2.year,
        day_of_year0(d1) == day_of_year0(d2),
    ensures
        d1 == d2,
{
    let y = d1.year as int;
    if d1.month < d2.month {
        lemma_days_before_month_mono(y, d1.month + 1, d2.month as int);
        assert(days_before_month(y, d1.month + 1) == days_before_month(y, d1.month as int)
            + days_in_month(y, d1.month as int));
    } else if d2.month < d1.month {
        lemma_days_before_month_mono(y, d2.month + 1, d1.month as int);
        assert(days_before_month(y, d2.month + 1) == days_before_month(y, d2.month as int)
            + days_in_month(y, d2.month as int));
    }
}

/// Advancing one day within a year advances the day-of-year by one.
pub proof fn lemma_day_of_year_next(d: Date)
    requires
        date_valid(d),
        next_date(d).year == d.year,
    ensures
        day_of_year0(next_date(d)) == day_of_year0(d) + 1,
{
    if d.day < days_in_month(d.year as int, d.month as int) {
    } else {
        assert(days_before_month(d.year as int, d.month + 1) == days_before_month(
            d.year as int,
            d.month as int,
        ) + days_in_month(d.year as int, d.month as int));
    }
}

} // verus!
