use habit_calendar::date::Date;
use habit_calendar::grid::month_bounds;
use habit_calendar::grid::month_label_positions;

fn d(y: u32, m: u32, day: u32) -> Date {
    Date { year: y, month: m, day }
}

#[test]
fn year_position_row_is_weekday() {
    // The weekday row of the year grid is exactly the weekday.
    for (y, m, day) in [(2024u32, 3u32, 15u32), (2024, 1, 1), (2023, 12, 31)] {
        let date = d(y, m, day);
        let (_, row) = date.year_cell_position();
        assert_eq!(row, date.weekday());
    }
}

#[test]
fn year_week_counts_saturdays() {
    // 2024 begins on a Monday: Jan 1-6 fill week 0, the first Sunday
    // (Jan 7) opens week 1.
    assert_eq!(d(2024, 1, 1).year_cell_position().0, 0);
    assert_eq!(d(2024, 1, 6).year_cell_position().0, 0);
    assert_eq!(d(2024, 1, 7).year_cell_position().0, 1);
    assert_eq!(d(2024, 1, 13).year_cell_position().0, 1);
    assert_eq!(d(2024, 1, 14).year_cell_position().0, 2);
}

#[test]
fn year_week_monotone_across_a_year() {
    let mut cur = d(2023, 1, 1);
    let mut prev_week = cur.year_cell_position().0;
    while cur != d(2023, 12, 31) {
        let was_saturday = cur.weekday() == 6;
        cur = cur.next_day().unwrap();
        let week = cur.year_cell_position().0;
        assert!(week >= prev_week);
        assert_eq!(week > prev_week, was_saturday);
        prev_week = week;
    }
}

#[test]
fn month_position_offsets_first_row() {
    // March 2024 starts on a Friday: March 1 sits in row 0, column 5,
    // so five columns are blank before it in the Sunday-first layout.
    assert_eq!(d(2024, 3, 1).month_cell_position(), (0, 5));
    assert_eq!(d(2024, 3, 2).month_cell_position(), (0, 6));
    assert_eq!(d(2024, 3, 3).month_cell_position(), (1, 0));
    assert_eq!(d(2024, 3, 15).month_cell_position(), (2, 5));
    assert_eq!(d(2024, 3, 31).month_cell_position(), (5, 0));
}

#[test]
fn month_bounds_december() {
    let (first, last) = month_bounds(2024, 12);
    assert_eq!(first, d(2024, 12, 1));
    assert_eq!(last, d(2024, 12, 31));
}

#[test]
fn month_bounds_are_day_before_next_first() {
    for m in 1..=11u32 {
        let (_, last) = month_bounds(2024, m);
        let next_first = d(2024, m + 1, 1);
        assert_eq!(next_first.prev_day().unwrap(), last);
    }
    let (_, feb) = month_bounds(2023, 2);
    assert_eq!(feb, d(2023, 2, 28));
    let (_, feb_leap) = month_bounds(2024, 2);
    assert_eq!(feb_leap, d(2024, 2, 29));
}

#[test]
fn label_positions_align_with_first_days() {
    let labels = month_label_positions(2024);
    assert_eq!(labels.len(), 12);
    for (i, (m, col)) in labels.iter().enumerate() {
        assert_eq!(*m as usize, i + 1);
        let first = d(2024, *m, 1);
        assert_eq!(*col, first.year_cell_position().0);
    }
    // Concretely: Jan 1 (Mon) week 0, Feb 1 (Thu) week 4, Mar 1 (Fri)
    // week 8.
    assert_eq!(labels[0].1, 0);
    assert_eq!(labels[1].1, 4);
    assert_eq!(labels[2].1, 8);
}
