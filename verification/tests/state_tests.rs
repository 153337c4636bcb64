use habit_calendar::date::Date;
use habit_calendar::log::HabitLog;
use habit_calendar::state::App;
use habit_calendar::state::Key;
use habit_calendar::state::ViewMode;

fn d(y: u32, m: u32, day: u32) -> Date {
    Date { year: y, month: m, day }
}

#[test]
fn toggle_cycles_from_absent() {
    let mut log = HabitLog::new();
    let day = d(2024, 3, 15);
    assert_eq!(log.get(day), None);
    log.toggle(day);
    assert_eq!(log.get(day), Some(true));
    log.toggle(day);
    assert_eq!(log.get(day), Some(false));
    log.toggle(day);
    assert_eq!(log.get(day), Some(true));
}

#[test]
fn toggle_leaves_other_days_alone() {
    let mut log = HabitLog::new();
    log.set(d(2024, 3, 14), true);
    log.toggle(d(2024, 3, 15));
    assert_eq!(log.get(d(2024, 3, 14)), Some(true));
    assert_eq!(log.get(d(2024, 3, 16)), None);
}

#[test]
fn year_mode_arrow_steps() {
    // Year grid: left/right move a week, up/down a single day.
    let mut app = App::new(d(2024, 3, 15));
    app.step(Key::Left);
    assert_eq!(app.cursor, d(2024, 3, 8));
    app.step(Key::Right);
    assert_eq!(app.cursor, d(2024, 3, 15));
    app.step(Key::Up);
    assert_eq!(app.cursor, d(2024, 3, 14));
    app.step(Key::Down);
    assert_eq!(app.cursor, d(2024, 3, 15));
}

#[test]
fn month_mode_arrow_steps() {
    // Month grid: left/right move a day, up/down a week.
    let mut app = App::new(d(2024, 3, 15));
    app.step(Key::LowerM);
    assert_eq!(app.view_mode, ViewMode::Month);
    app.step(Key::Left);
    assert_eq!(app.cursor, d(2024, 3, 14));
    app.step(Key::Right);
    assert_eq!(app.cursor, d(2024, 3, 15));
    app.step(Key::Up);
    assert_eq!(app.cursor, d(2024, 3, 8));
    app.step(Key::Down);
    assert_eq!(app.cursor, d(2024, 3, 15));
}

#[test]
fn left_then_right_round_trips() {
    for mode_key in [Key::LowerY, Key::LowerM] {
        let mut app = App::new(d(2024, 1, 3));
        app.step(mode_key);
        app.step(Key::Left);
        app.step(Key::Right);
        assert_eq!(app.cursor, d(2024, 1, 3));
    }
}

#[test]
fn paging_changes_month_only_in_month_mode() {
    let mut app = App::new(d(2024, 3, 15));
    app.step(Key::PageDown);
    assert_eq!(app.cursor, d(2024, 3, 15), "paging is a no-op in the year view");
    app.step(Key::LowerM);
    app.step(Key::PageDown);
    assert_eq!(app.cursor, d(2024, 4, 1));
    app.step(Key::PageUp);
    assert_eq!(app.cursor, d(2024, 3, 1));
}

#[test]
fn paging_wraps_year() {
    let mut app = App::new(d(2024, 12, 5));
    app.step(Key::LowerM);
    app.step(Key::PageDown);
    assert_eq!(app.cursor, d(2025, 1, 1));
    app.step(Key::PageUp);
    assert_eq!(app.cursor, d(2024, 12, 1));
    app.step(Key::PageUp);
    assert_eq!(app.cursor, d(2024, 11, 1));
}

#[test]
fn page_round_trip_lands_on_first_of_month() {
    let mut app = App::new(d(2024, 5, 20));
    app.step(Key::LowerM);
    app.step(Key::PageDown);
    app.step(Key::PageUp);
    assert_eq!(app.cursor, d(2024, 5, 1));
}

#[test]
fn mode_switch_keeps_cursor_and_log() {
    let mut app = App::new(d(2024, 3, 15));
    app.step(Key::Space);
    app.step(Key::LowerM);
    assert_eq!(app.cursor, d(2024, 3, 15));
    assert_eq!(app.log.get(d(2024, 3, 15)), Some(true));
    app.step(Key::LowerY);
    assert_eq!(app.view_mode, ViewMode::Year);
    assert_eq!(app.log.get(d(2024, 3, 15)), Some(true));
}

#[test]
fn quit_and_ignored_keys() {
    let mut app = App::new(d(2024, 3, 15));
    app.step(Key::Other);
    assert!(!app.should_quit);
    assert_eq!(app.cursor, d(2024, 3, 15));
    app.step(Key::LowerQ);
    assert!(app.should_quit);
}

#[test]
fn moves_clamp_at_range_edges() {
    let mut app = App::new(d(1, 1, 3));
    app.step(Key::Left);
    assert_eq!(app.cursor, d(1, 1, 3), "a seven-day move past the range start stays put");
    app.step(Key::Up);
    assert_eq!(app.cursor, d(1, 1, 2));
    let mut app = App::new(d(9999, 12, 30));
    app.step(Key::Right);
    assert_eq!(app.cursor, d(9999, 12, 30));
    app.step(Key::Down);
    assert_eq!(app.cursor, d(9999, 12, 31));
}

#[test]
fn end_to_end_scenario() {
    // From a Friday in the year view: toggle, move a week right,
    // switch to the month view, page forward a month.
    let mut app = App::new(d(2024, 3, 15));
    assert_eq!(app.view_mode, ViewMode::Year);
    app.step(Key::Space);
    assert_eq!(app.log.get(d(2024, 3, 15)), Some(true));
    app.step(Key::Right);
    assert_eq!(app.cursor, d(2024, 3, 22));
    app.step(Key::LowerM);
    assert_eq!(app.view_mode, ViewMode::Month);
    // March 2024 starts on a Friday: five blank columns before
    // March 1 in the Sunday-first first row.
    assert_eq!(d(2024, 3, 1).month_cell_position(), (0, 5));
    app.step(Key::PageDown);
    assert_eq!(app.cursor, d(2024, 4, 1));
}
