use habit_calendar::date::Date;
use habit_calendar::log::HabitLog;
use habit_calendar::render::render_month;
use habit_calendar::render::render_year;
use habit_calendar::render::CellColor;

fn d(y: u32, m: u32, day: u32) -> Date {
    Date { year: y, month: m, day }
}

#[test]
fn year_view_skips_small_areas() {
    let log = HabitLog::new();
    let cursor = d(2024, 3, 15);
    assert_eq!(render_year(&log, cursor, cursor, 0, 0, 105, 8).len(), 0);
    assert_eq!(render_year(&log, cursor, cursor, 0, 0, 106, 7).len(), 0);
    assert!(!render_year(&log, cursor, cursor, 0, 0, 106, 8).is_empty());
}

#[test]
fn year_view_sizes_and_labels() {
    let log = HabitLog::new();
    let cursor = d(2024, 3, 15);
    let ops = render_year(&log, cursor, d(2024, 3, 20), 0, 0, 120, 10);
    // Twelve month labels, then one cell per day of the leap year.
    assert_eq!(ops.len(), 12 + 366);
    let jan: String = ops[0].text.iter().collect();
    assert_eq!(jan, "Jan");
    assert_eq!(ops[0].y, 0);
    let mar: String = ops[2].text.iter().collect();
    assert_eq!(mar, "Mar");
    // March 2024 begins in week 8: its label sits two columns per week
    // to the right.
    assert_eq!(ops[2].x, 16);
}

#[test]
fn year_view_cell_colors() {
    let mut log = HabitLog::new();
    log.set(d(2024, 3, 14), true);
    log.set(d(2024, 3, 13), false);
    let cursor = d(2024, 3, 15);
    let today = d(2024, 3, 20);
    let ops = render_year(&log, cursor, today, 0, 0, 120, 10);
    let op_for = |date: Date| &ops[12 + date.day_of_year0() as usize];

    // Logged true, logged false, no data.
    assert_eq!(op_for(d(2024, 3, 14)).fg, CellColor::Red);
    assert_eq!(op_for(d(2024, 3, 13)).fg, CellColor::Green);
    assert_eq!(op_for(d(2024, 3, 10)).fg, CellColor::DimGray);
    // First of month, today, cursor overlays.
    assert_eq!(op_for(d(2024, 3, 1)).fg, CellColor::AmberDim);
    assert_eq!(op_for(d(2024, 3, 20)).fg, CellColor::Cyan);
    assert_eq!(op_for(d(2024, 3, 15)).fg, CellColor::White);
    // Glyphs: filled with data, hollow without.
    let filled: String = op_for(d(2024, 3, 14)).text.iter().collect();
    let hollow: String = op_for(d(2024, 3, 10)).text.iter().collect();
    assert_eq!(filled, "\u{25a0}");
    assert_eq!(hollow, "\u{25a1}");
}

#[test]
fn year_view_cell_positions() {
    let log = HabitLog::new();
    let cursor = d(2024, 3, 15);
    let ops = render_year(&log, cursor, cursor, 2, 3, 120, 10);
    let date = d(2024, 3, 15);
    let (week, row) = date.year_cell_position();
    let op = &ops[12 + date.day_of_year0() as usize];
    assert_eq!(op.x, 2 + 2 * week as u16);
    assert_eq!(op.y, 3 + 1 + row as u16);
}

#[test]
fn cursor_beats_today_on_the_same_cell() {
    // A cell that is at once today, cursor, first of month and logged
    // renders in the cursor tint.
    let mut log = HabitLog::new();
    log.set(d(2024, 3, 1), true);
    let both = d(2024, 3, 1);
    let ops = render_year(&log, both, both, 0, 0, 120, 10);
    let op = &ops[12 + both.day_of_year0() as usize];
    assert_eq!(op.fg, CellColor::White);
    assert_ne!(op.fg, CellColor::Cyan);
}

#[test]
fn month_view_skips_small_areas() {
    let log = HabitLog::new();
    let cursor = d(2024, 3, 15);
    assert_eq!(render_month(&log, cursor, cursor, 0, 0, 27, 12).len(), 0);
    assert_eq!(render_month(&log, cursor, cursor, 0, 0, 40, 9).len(), 0);
}

#[test]
fn month_view_title_and_headers() {
    let log = HabitLog::new();
    let cursor = d(2024, 3, 15);
    let ops = render_month(&log, cursor, cursor, 0, 0, 40, 12);
    assert_eq!(ops.len(), 8 + 2 * 31);
    let title: String = ops[0].text.iter().collect();
    assert_eq!(title, "March 2024");
    assert_eq!(ops[0].x, (40 - 10) / 2);
    assert_eq!(ops[0].y, 0);
    let names: Vec<String> = (0..7).map(|i| ops[1 + i].text.iter().collect()).collect();
    assert_eq!(names, ["Sun", "Mon", "Tue", "Wed", "Thu", "Fri", "Sat"]);
    // Headers sit four columns apart at the centered calendar origin.
    let cal_x = (40 - 28) / 2;
    assert_eq!(ops[1].x, cal_x);
    assert_eq!(ops[2].x, cal_x + 4);
}

#[test]
fn month_view_day_cells() {
    let mut log = HabitLog::new();
    log.set(d(2024, 3, 14), true);
    let cursor = d(2024, 3, 15);
    let today = d(2024, 3, 20);
    let ops = render_month(&log, cursor, today, 0, 0, 40, 12);
    let cal_x = (40u16 - 28) / 2;

    // March 15: the cursor inverts the numeric label, not the glyph.
    let sym = &ops[8 + 2 * (15 - 1)];
    let num = &ops[8 + 2 * (15 - 1) + 1];
    let (row, col) = d(2024, 3, 15).month_cell_position();
    assert_eq!(num.x, cal_x + 4 * col as u16);
    assert_eq!(num.y, 2 + 2 + row as u16);
    let label: String = num.text.iter().collect();
    assert_eq!(label, "15");
    assert_eq!(num.fg, CellColor::Black);
    assert_eq!(num.bg, CellColor::White);
    assert_eq!(sym.fg, CellColor::DimGray);

    // March 14 is logged: filled red glyph, plain white label.
    let sym14 = &ops[8 + 2 * (14 - 1)];
    let num14 = &ops[8 + 2 * (14 - 1) + 1];
    assert_eq!(sym14.fg, CellColor::Red);
    assert_eq!(num14.fg, CellColor::White);
    assert_eq!(num14.bg, CellColor::Reset);

    // Today is tinted cyan; single-digit days are zero-padded.
    let sym20 = &ops[8 + 2 * (20 - 1)];
    assert_eq!(sym20.fg, CellColor::Cyan);
    let num1: String = ops[8 + 2 * (1 - 1) + 1].text.iter().collect();
    assert_eq!(num1, "01");
    // The first of the month is tinted amber.
    assert_eq!(ops[8 + 2 * (1 - 1)].fg, CellColor::Amber);
}
