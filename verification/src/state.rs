//! The cursor and view-mode state machine: the application state and
//! one total transition function per key, with clamping instead of
//! leaving the supported date range.

use vstd::prelude::*;
use crate::date::{
    Date, MIN_YEAR, MAX_YEAR, can_add, can_sub, date_valid, iter_next, iter_prev,
    lemma_iter_next_snoc, lemma_iter_prev_snoc, lemma_iter_prev_valid, lemma_next_not_min,
    lemma_next_prev, lemma_prev_not_max, lemma_round_trip, lemma_round_trip_back, max_date,
    min_date, next_date, prev_date,
};
use crate::log::{HabitLog, key_of, toggle_map};

verus! {

/// Which grid is on screen.
#[derive(Clone, Copy, PartialEq, Eq, Structural, Debug)]
pub enum ViewMode {
    Year,
    Month,
}

/// A key the application reacts to. Every other key is `Other` and is
/// ignored.
#[derive(Clone, Copy, PartialEq, Eq, Structural, Debug)]
pub enum Key {
    Left,
    Right,
    Up,
    Down,
    PageUp,
    PageDown,
    Space,
    LowerY,
    LowerM,
    LowerQ,
    Other,
}

/// `d` moved back by `n` days, or unchanged where that would leave the
/// supported range.
pub open spec fn sub_clamped(d: Date, n: nat) -> Date {
    if can_sub(d, n) {
        iter_prev(d, n)
    } else {
        d
    }
}

/// `d` advanced by `n` days, or unchanged where that would leave the
/// supported range.
pub open spec fn add_clamped(d: Date, n: nat) -> Date {
    if can_add(d, n) {
        iter_next(d, n)
    } else {
        d
    }
}

/// First day of the month after `d`'s month, wrapping into the next
/// year after December; unchanged at the very end of the range.
pub open spec fn next_month_cursor(d: Date) -> Date {
    if d.month < 12 {
        Date { year: d.year, month: (d.month + 1) as u32, day: 1 }
    } else if d.year < MAX_YEAR {
        Date { year: (d.year + 1) as u32, month: 1, day: 1 }
    } else {
        d
    }
}

/// First day of the month before `d`'s month, wrapping into the
/// previous year before January; unchanged at the very start of the
/// range.
pub open spec fn prev_month_cursor(d: Date) -> Date {
    if d.month > 1 {
        Date { year: d.year, month: (d.month - 1) as u32, day: 1 }
    } else if d.year > MIN_YEAR {
        Date { year: (d.year - 1) as u32, month: 12, day: 1 }
    } else {
        d
    }
}

/// Where the cursor moves under `key` in view mode `mode`: seven days
/// along the week axis and one day along the weekday axis in the year
/// grid, one day along the weekday axis and seven days along the week
/// axis in the month grid, and whole-month paging in the month grid
/// only.
pub open spec fn step_cursor(mode: ViewMode, d: Date, key: Key) -> Date {
    match key {
        Key::Left => match mode {
            ViewMode::Year => sub_clamped(d, 7),
            ViewMode::Month => sub_clamped(d, 1),
        },
        Key::Right => match mode {
            ViewMode::Year => add_clamped(d, 7),
            ViewMode::Month => add_clamped(d, 1),
        },
        Key::Up => match mode {
            ViewMode::Year => sub_clamped(d, 1),
            ViewMode::Month => sub_clamped(d, 7),
        },
        Key::Down => match mode {
            ViewMode::Year => add_clamped(d, 1),
            ViewMode::Month => add_clamped(d, 7),
        },
        Key::PageUp => match mode {
            ViewMode::Year => d,
            ViewMode::Month => prev_month_cursor(d),
        },
        Key::PageDown => match mode {
            ViewMode::Year => d,
            ViewMode::Month => next_month_cursor(d),
        },
        _ => d,
    }
}

/// The view mode after `key`: only the two mode-switch keys change it.
pub open spec fn step_mode(mode: ViewMode, key: Key) -> ViewMode {
    match key {
        Key::LowerY => ViewMode::Year,
        Key::LowerM => ViewMode::Month,
        _ => mode,
    }
}

/// The application state: the habit log, the selected day, the active
/// view, and the quit flag.
pub struct App {
    pub log: HabitLog,
    pub cursor: Date,
    pub view_mode: ViewMode,
    pub should_quit: bool,
}

impl App {
    /// A fresh application: empty log, cursor on the given day, year
    /// view.
    pub fn new(today: Date) -> (r: App)
        requires
            date_valid(today),
        ensures
            r.log@ == Map::<u64, bool>::empty(),
            r.cursor == today,
            r.view_mode == ViewMode::Year,
            !r.should_quit,
    {
        App { log: HabitLog::new(), cursor: today, view_mode: ViewMode::Year, should_quit: false }
    }

    /// Switches the active view; log and cursor are untouched.
    pub fn set_view_mode(&mut self, view_mode: ViewMode)
        ensures
            final(self).view_mode == view_mode,
            final(self).cursor == old(self).cursor,
            final(self).log@ == old(self).log@,
            final(self).should_quit == old(self).should_quit,
    {
        self.view_mode = view_mode;
    }

    /// Toggles the log entry under the cursor.
    pub fn toggle_selected_day(&mut self)
        ensures
            final(self).log@ == toggle_map(old(self).log@, key_of(old(self).cursor)),
            final(self).cursor == old(self).cursor,
            final(self).view_mode == old(self).view_mode,
            final(self).should_quit == old(self).should_quit,
    {
        let d = self.cursor;
        self.log.toggle(d);
    }

    /// Cursor seven days back (year view's move-left).
    pub fn move_cursor_left(&mut self)
        requires
            date_valid(old(self).cursor),
        ensures
            final(self).cursor == sub_clamped(old(self).cursor, 7),
            date_valid(final(self).cursor),
            final(self).log@ == old(self).log@,
            final(self).view_mode == old(self).view_mode,
            final(self).should_quit == old(self).should_quit,
    {
        match self.cursor.minus_days(7) {
            Some(d) => {
                self.cursor = d;
            },
            None => {},
        }
    }

    /// Cursor seven days forward (year view's move-right).
    pub fn move_cursor_right(&mut self)
        requires
            date_valid(old(self).cursor),
        ensures
            final(self).cursor == add_clamped(old(self).cursor, 7),
            date_valid(final(self).cursor),
            final(self).log@ == old(self).log@,
            final(self).view_mode == old(self).view_mode,
            final(self).should_quit == old(self).should_quit,
    {
        match self.cursor.plus_days(7) {
            Some(d) => {
                self.cursor = d;
            },
            None => {},
        }
    }

    /// Cursor one day back (year view's move-up).
    pub fn move_cursor_up(&mut self)
        requires
            date_valid(old(self).cursor),
        ensures
            final(self).cursor == sub_clamped(old(self).cursor, 1),
            date_valid(final(self).cursor),
            final(self).log@ == old(self).log@,
            final(self).view_mode == old(self).view_mode,
            final(self).should_quit == old(self).should_quit,
    {
        match self.cursor.minus_days(1) {
            Some(d) => {
                self.cursor = d;
            },
            None => {},
        }
    }

    /// Cursor one day forward (year view's move-down).
    pub fn move_cursor_down(&mut self)
        requires
            date_valid(old(self).cursor),
        ensures
            final(self).cursor == add_clamped(old(self).cursor, 1),
            date_valid(final(self).cursor),
            final(self).log@ == old(self).log@,
            final(self).view_mode == old(self).view_mode,
            final(self).should_quit == old(self).should_quit,
    {
        match self.cursor.plus_days(1) {
            Some(d) => {
                self.cursor = d;
            },
            None => {},
        }
    }

    /// Cursor one day back (month view's move-left).
    pub fn move_cursor_left_month(&mut self)
        requires
            date_valid(old(self).cursor),
        ensures
            final(self).cursor == sub_clamped(old(self).cursor, 1),
            date_valid(final(self).cursor),
            final(self).log@ == old(self).log@,
            final(self).view_mode == old(self).view_mode,
            final(self).should_quit == old(self).should_quit,
    {
        self.move_cursor_up();
    }

    /// Cursor one day forward (month view's move-right).
    pub fn move_cursor_right_month(&mut self)
        requires
            date_valid(old(self).cursor),
        ensures
            final(self).cursor == add_clamped(old(self).cursor, 1),
            date_valid(final(self).cursor),
            final(self).log@ == old(self).log@,
            final(self).view_mode == old(self).view_mode,
            final(self).should_quit == old(self).should_quit,
    {
        self.move_cursor_down();
    }

    /// Cursor seven days back (month view's move-up).
    pub fn move_cursor_up_month(&mut self)
        requires
            date_valid(old(self).cursor),
        ensures
            final(self).cursor == sub_clamped(old(self).cursor, 7),
            date_valid(final(self).cursor),
            final(self).log@ == old(self).log@,
            final(self).view_mode == old(self).view_mode,
            final(self).should_quit == old(self).should_quit,
    {
        self.move_cursor_left();
    }

    /// Cursor seven days forward (month view's move-down).
    pub fn move_cursor_down_month(&mut self)
        requires
            date_valid(old(self).cursor),
        ensures
            final(self).cursor == add_clamped(old(self).cursor, 7),
            date_valid(final(self).cursor),
            final(self).log@ == old(self).log@,
            final(self).view_mode == old(self).view_mode,
            final(self).should_quit == old(self).should_quit,
    {
        self.move_cursor_right();
    }

    /// Cursor to the first day of the following month, wrapping into
    /// January of the next year after December.
    pub fn next_month(&mut self)
        requires
            date_valid(old(self).cursor),
        ensures
            final(self).cursor == next_month_cursor(old(self).cursor),
            date_valid(final(self).cursor),
            final(self).log@ == old(self).log@,
            final(self).view_mode == old(self).view_mode,
            final(self).should_quit == old(self).should_quit,
    {
        if self.cursor.month < 12 {
            self.cursor = Date { year: self.cursor.year, month: self.cursor.month + 1, day: 1 };
        } else if self.cursor.year < MAX_YEAR {
            self.cursor = Date { year: self.cursor.year + 1, month: 1, day: 1 };
        }
    }

    /// Cursor to the first day of the preceding month, wrapping into
    /// December of the previous year before January.
    pub fn prev_month(&mut self)
        requires
            date_valid(old(self).cursor),
        ensures
            final(self).cursor == prev_month_cursor(old(self).cursor),
            date_valid(final(self).cursor),
            final(self).log@ == old(self).log@,
            final(self).view_mode == old(self).view_mode,
            final(self).should_quit == old(self).should_quit,
    {
        if self.cursor.month > 1 {
            self.cursor = Date { year: self.cursor.year, month: self.cursor.month - 1, day: 1 };
        } else if self.cursor.year > MIN_YEAR {
            self.cursor = Date { year: self.cursor.year - 1, month: 12, day: 1 };
        }
    }

    /// One full transition of the state machine: dispatches a key to
    /// the cursor movement, the log toggle, a mode switch, or the quit
    /// flag, exactly as the key table prescribes.
    pub fn step(&mut self, key: Key)
        requires
            date_valid(old(self).cursor),
        ensures
            final(self).cursor == step_cursor(old(self).view_mode, old(self).cursor, key),
            date_valid(final(self).cursor),
            final(self).view_mode == step_mode(old(self).view_mode, key),
            final(self).should_quit == (old(self).should_quit || key == Key::LowerQ),
            final(self).log@ == if key == Key::Space {
                toggle_map(old(self).log@, key_of(old(self).cursor))
            } else {
                old(self).log@
            },
    {
        match key {
            Key::LowerQ => {
                self.should_quit = true;
            },
            Key::Space => {
                self.toggle_selected_day();
            },
            Key::Left => match self.view_mode {
                ViewMode::Year => self.move_cursor_left(),
                ViewMode::Month => self.move_cursor_left_month(),
            },
            Key::Right => match self.view_mode {
                ViewMode::Year => self.move_cursor_right(),
                ViewMode::Month => self.move_cursor_right_month(),
            },
            Key::Up => match self.view_mode {
                ViewMode::Year => self.move_cursor_up(),
                ViewMode::Month => self.move_cursor_up_month(),
            },
            Key::Down => match self.view_mode {
                ViewMode::Year => self.move_cursor_down(),
                ViewMode::Month => self.move_cursor_down_month(),
            },
            Key::PageUp => {
                if matches!(self.view_mode, ViewMode::Month) {
                    self.prev_month();
                }
            },
            Key::PageDown => {
                if matches!(self.view_mode, ViewMode::Month) {
                    self.next_month();
                }
            },
            Key::LowerY => {
                self.set_view_mode(ViewMode::Year);
            },
            Key::LowerM => {
                self.set_view_mode(ViewMode::Month);
            },
            Key::Other => {},
        }
    }
}

/// After a permitted backward walk of `n` days, a forward walk of `n`
/// days is permitted too.
pub proof fn lemma_can_add_after_sub(d: Date, n: nat)
    requires
        date_valid(d),
        can_sub(d, n),
    ensures
        can_add(iter_prev(d, n), n),
    decreases n,
{
    if n > 0 {
        assert forall|i: nat| i < n implies #[trigger] iter_next(iter_prev(d, n), i) != max_date()
            by {
            lemma_iter_walkback(d, n, i);
            lemma_iter_prev_snoc(d, (n - i - 1) as nat);
            assert(iter_prev(d, (n - i) as nat) == prev_date(iter_prev(d, (n - i - 1) as nat)));
            lemma_iter_prev_valid(d, (n - i - 1) as nat);
            lemma_prev_not_max(iter_prev(d, (n - i - 1) as nat));
        }
    }
}

/// Walking forward `i` days from the end of a backward walk of `n`
/// days stands `n - i` days before the start.
proof fn lemma_iter_walkback(d: Date, n: nat, i: nat)
    requires
        date_valid(d),
        can_sub(d, n),
        i <= n,
    ensures
        iter_next(iter_prev(d, n), i) == iter_prev(d, (n - i) as nat),
    decreases i,
{
    if i > 0 {
        lemma_iter_walkback(d, n, (i - 1) as nat);
        lemma_iter_next_snoc(iter_prev(d, n), (i - 1) as nat);
        let j = (n - i) as nat;
        lemma_iter_prev_snoc(d, j);
        assert(iter_prev(d, j + 1) == prev_date(iter_prev(d, j)));
        lemma_iter_prev_valid(d, j);
        assert(iter_prev(d, j) != min_date());
        lemma_next_prev(iter_prev(d, j));
        assert(iter_next(iter_prev(d, n), i) == next_date(iter_prev(d, (n - i + 1) as nat)));
    }
}

/// Move-left then move-right restores the cursor, in both view modes,
/// wherever the leftward move itself stays in the supported range.
pub proof fn lemma_nav_round_trip(mode: ViewMode, d: Date)
    requires
        date_valid(d),
        can_sub(d, 7),
    ensures
        step_cursor(mode, step_cursor(mode, d, Key::Left), Key::Right) == d,
{
    assert(can_sub(d, 1)) by {
        assert(iter_prev(d, 0) != min_date());
    }
    lemma_can_add_after_sub(d, 7);
    lemma_can_add_after_sub(d, 1);
    lemma_round_trip_back(d, 7);
    lemma_round_trip_back(d, 1);
}

/// Move-right then move-left restores the cursor, in both view modes,
/// wherever the rightward move itself stays in the supported range.
pub proof fn lemma_nav_round_trip_right(mode: ViewMode, d: Date)
    requires
        date_valid(d),
        can_add(d, 7),
    ensures
        step_cursor(mode, step_cursor(mode, d, Key::Right), Key::Left) == d,
{
    assert(can_add(d, 1)) by {
        assert(iter_next(d, 0) != max_date());
    }
    lemma_can_sub_after_add(d, 7);
    lemma_can_sub_after_add(d, 1);
    lemma_round_trip(d, 7);
    lemma_round_trip(d, 1);
}

/// Walking back `i` days from the end of a forward walk of `n` days
/// stands `n - i` days after the start.
proof fn lemma_iter_walkforward(d: Date, n: nat, i: nat)
    requires
        date_valid(d),
        can_add(d, n),
        i <= n,
    ensures
        iter_prev(iter_next(d, n), i) == iter_next(d, (n - i) as nat),
    decreases i,
{
    if i > 0 {
        lemma_iter_walkforward(d, n, (i - 1) as nat);
        lemma_iter_prev_snoc(iter_next(d, n), (i - 1) as nat);
        let j = (n - i) as nat;
        lemma_iter_next_snoc(d, j);
        crate::date::lemma_iter_next_valid(d, j);
        assert(iter_next(d, j) != max_date());
        crate::date::lemma_prev_next(iter_next(d, j));
        assert(iter_prev(iter_next(d, n), i) == prev_date(iter_next(d, (n - i + 1) as nat)));
    }
}

/// After a permitted forward walk of `n` days, a backward walk of `n`
/// days is permitted too.
pub proof fn lemma_can_sub_after_add(d: Date, n: nat)
    requires
        date_valid(d),
        can_add(d, n),
    ensures
        can_sub(iter_next(d, n), n),
    decreases n,
{
    if n > 0 {
        assert forall|i: nat| i < n implies #[trigger] iter_prev(iter_next(d, n), i) != min_date()
            by {
            lemma_iter_walkforward(d, n, i);
            lemma_iter_next_snoc(d, (n - i - 1) as nat);
            assert(iter_next(d, (n - i) as nat) == next_date(iter_next(d, (n - i - 1) as nat)));
            crate::date::lemma_iter_next_valid(d, (n - i - 1) as nat);
            lemma_next_not_min(iter_next(d, (n - i - 1) as nat));
        }
    }
}

/// Paging one month forward and then one month back parks the cursor
/// on the first day of the original month (December of the last
/// supported year cannot page forward and is left out).
pub proof fn lemma_page_round_trip(d: Date)
    requires
        date_valid(d),
        !(d.year == MAX_YEAR && d.month == 12),
    ensures
        step_cursor(ViewMode::Month, step_cursor(ViewMode::Month, d, Key::PageDown), Key::PageUp)
            == (Date { year: d.year, month: d.month, day: 1 }),
{
}

} // verus!
