//! The date-to-grid mapper: positions of dates in the year layout
//! (week columns by weekday rows) and in the month layout (week rows by
//! weekday columns), month boundaries, and the year header's month
//! label columns.

use vstd::prelude::*;
use crate::date::{
    Date, MIN_YEAR, MAX_YEAR, date_valid, day_of_year0, days_before_month, days_in_month,
    lemma_day_of_year_bound, lemma_day_of_year_next, lemma_days_before_month_mono,
    lemma_next_valid, max_date, next_date, prev_date, weekday_of, days_before_year, month_length,
};
use vstd::arithmetic::div_mod::{
    lemma_add_mod_noop,
    lemma_div_is_ordered,
    lemma_mod_bound,
};

verus! {

/// Weekday of Jan 1 of year `y` (Sunday = 0).
pub open spec fn jan1_weekday(y: int) -> int {
    weekday_of(Date { year: y as u32, month: 1, day: 1 })
}

/// Week column of `d` in the year layout: the number of Saturdays
/// passed while scanning from Jan 1 of the date's year up to `d`.
/// With a Sunday-first week this equals the day-of-year shifted by the
/// weekday of Jan 1, divided by 7.
pub open spec fn year_week(d: Date) -> int {
    (day_of_year0(d) + jan1_weekday(d.year as int)) / 7
}

/// Week row of `d` in its month's layout: zero-based day of the month
/// shifted by the weekday of the first of the month, divided by 7.
pub open spec fn month_week_row(d: Date) -> int {
    (d.day - 1 + weekday_of(Date { year: d.year, month: d.month, day: 1 })) / 7
}

/// The weekday of any day of a year is the weekday of Jan 1 advanced by
/// the day-of-year, modulo 7.
pub proof fn lemma_weekday_from_jan1(d: Date)
    requires
        date_valid(d),
    ensures
        weekday_of(d) == (jan1_weekday(d.year as int) + day_of_year0(d)) % 7,
        0 <= weekday_of(d) < 7,
        0 <= jan1_weekday(d.year as int) < 7,
{
    let y = d.year as int;
    let base = days_before_year(y) + 1;
    let doy = day_of_year0(d);
    lemma_day_of_year_bound(d);
    assert(days_before_month(y, 1) == 0);
    assert(day_of_year0(Date { year: d.year, month: 1, day: 1 }) == 0);
    assert(jan1_weekday(y) == base % 7);
    lemma_add_mod_noop(base, doy, 7);
    lemma_mod_bound(base + doy, 7);
    lemma_mod_bound(base, 7);
    assert(weekday_of(d) == (base + doy) % 7);
    assert((base % 7 + doy % 7) % 7 == (base + doy) % 7);
    lemma_add_mod_noop(base % 7, doy, 7);
    lemma_mod_bound(base % 7 + doy, 7);
}

impl Date {
    /// Position of this date in the year grid: `(week, weekday_row)`
    /// with Sunday in row 0 and week columns counted from Jan 1.
    pub fn year_cell_position(&self) -> (r: (u32, u32))
        requires
            date_valid(*self),
        ensures
            r.0 == year_week(*self),
            r.1 == weekday_of(*self),
            r.0 < 54,
            r.1 < 7,
    {
        let jan1 = Date { year: self.year, month: 1, day: 1 };
        let w1 = jan1.weekday();
        let doy = self.day_of_year0();
        proof {
            lemma_day_of_year_bound(*self);
            assert(days_before_month(self.year as int, 1) == 0);
        }
        let week = (doy + w1) / 7;
        (week, self.weekday())
    }

    /// Position of this date in its month's grid:
    /// `(week_row, weekday_column)` with Sunday in column 0.
    pub fn month_cell_position(&self) -> (r: (u32, u32))
        requires
            date_valid(*self),
        ensures
            r.0 == month_week_row(*self),
            r.1 == weekday_of(*self),
            r.0 < 6,
            r.1 < 7,
    {
        let first = Date { year: self.year, month: self.month, day: 1 };
        let wf = first.weekday();
        let row = (self.day - 1 + wf) / 7;
        (row, self.weekday())
    }
}

/// First and last day of month `m` of year `y`. The last day is the
/// day before the first day of the following month.
pub fn month_bounds(y: u32, m: u32) -> (r: (Date, Date))
    requires
        MIN_YEAR <= y <= MAX_YEAR,
        1 <= m <= 12,
    ensures
        r.0 == (Date { year: y, month: m, day: 1 }),
        r.1 == (Date { year: y, month: m, day: days_in_month(y as int, m as int) as u32 }),
        date_valid(r.0),
        date_valid(r.1),
        m == 12 ==> r.1 == (Date { year: y, month: 12, day: 31 }),
        m < 12 ==> r.1 == prev_date(Date { year: y, month: (m + 1) as u32, day: 1 }),
{
    let first = Date { year: y, month: m, day: 1 };
    let last = Date { year: y, month: m, day: month_length(y, m) };
    (first, last)
}

/// The last day of a month is the day before the first of the next
/// month; December always ends on the 31st.
pub proof fn lemma_month_bounds_last(y: u32, m: u32)
    requires
        1 <= m <= 12,
    ensures
        m < 12 ==> prev_date(Date { year: y, month: (m + 1) as u32, day: 1 }) == (Date {
            year: y,
            month: m,
            day: days_in_month(y as int, m as int) as u32,
        }),
        days_in_month(y as int, 12) == 31,
{
}

/// Within one year the week column never decreases as the date
/// advances.
pub proof fn lemma_year_week_monotone(d1: Date, d2: Date)
    requires
        date_valid(d1),
        date_valid(d2),
        d1.year == d2.year,
        day_of_year0(d1) <= day_of_year0(d2),
    ensures
        year_week(d1) <= year_week(d2),
{
    let w1 = jan1_weekday(d1.year as int);
    lemma_div_is_ordered(day_of_year0(d1) + w1, day_of_year0(d2) + w1, 7);
}

/// Moving to the next day within a year never decreases the week
/// column, and increases it exactly when leaving a Saturday.
pub proof fn lemma_year_week_step(d: Date)
    requires
        date_valid(d),
        d != max_date(),
        next_date(d).year == d.year,
    ensures
        year_week(next_date(d)) >= year_week(d),
        year_week(next_date(d)) > year_week(d) <==> weekday_of(d) == 6,
{
    let y = d.year as int;
    let w1 = jan1_weekday(y);
    let a = day_of_year0(d) + w1;
    lemma_day_of_year_next(d);
    lemma_next_valid(d);
    lemma_weekday_from_jan1(d);
    lemma_add_mod_noop(w1, day_of_year0(d), 7);
    lemma_mod_bound(a, 7);
    assert(weekday_of(d) == a % 7);
    lemma_day_of_year_bound(d);
    assert(a >= 0);
    assert((a + 1) / 7 == if a % 7 == 6 {
        a / 7 + 1
    } else {
        a / 7
    }) by (nonlinear_arith)
        requires
            a >= 0,
    ;
    assert(year_week(next_date(d)) == (a + 1) / 7);
}

/// Week columns of the first day of every month of year `y`, in month
/// order: entry `i` holds month `i + 1` and the year-grid week of its
/// first day, where the year header places that month's label.
pub fn month_label_positions(y: u32) -> (r: Vec<(u32, u32)>)
    requires
        MIN_YEAR <= y <= MAX_YEAR,
    ensures
        r@.len() == 12,
        forall|i: int| 0 <= i < 12 ==> #[trigger] r@[i].0 == i + 1,
        forall|i: int| 0 <= i < 12 ==> #[trigger] r@[i].1 == year_week(
            Date { year: y, month: (i + 1) as u32, day: 1 },
        ),
        forall|i: int| 0 <= i < 11 ==> #[trigger] r@[i].1 <= r@[i + 1].1,
{
    let mut r: Vec<(u32, u32)> = Vec::new();
    let mut m: u32 = 1;
    while m <= 12
        invariant
            1 <= m <= 13,
            MIN_YEAR <= y <= MAX_YEAR,
            r@.len() == m - 1,
            forall|i: int| 0 <= i < m - 1 ==> #[trigger] r@[i].0 == i + 1,
            forall|i: int| 0 <= i < m - 1 ==> #[trigger] r@[i].1 == year_week(
                Date { year: y, month: (i + 1) as u32, day: 1 },
            ),
            forall|i: int| 0 <= i < m - 2 ==> #[trigger] r@[i].1 <= r@[i + 1].1,
        decreases 13 - m,
    {
        let first = Date { year: y, month: m, day: 1 };
        let (week, _) = first.year_cell_position();
        proof {
            if m > 1 {
                let prev_first = Date { year: y, month: (m - 1) as u32, day: 1 };
                lemma_days_before_month_mono(y as int, m - 1, m as int);
                assert(days_before_month(y as int, m as int) == days_before_month(
                    y as int,
                    m - 1,
                ) + days_in_month(y as int, m - 1));
                lemma_year_week_monotone(prev_first, first);
            }
        }
        r.push((m, week));
        m = m + 1;
    }
    r
}

} // verus!
