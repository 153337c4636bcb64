//! The renderer: computes, for every visible date, the text cell to
//! draw and where, as a list of draw operations for the terminal
//! surface. Writing the operations into the screen buffer is the
//! surface's business, not the core's.

use vstd::prelude::*;
use crate::date::{
    Date, MIN_YEAR, MAX_YEAR, date_valid, day_of_year0, days_before_month, days_in_month,
    days_in_year, lemma_day_of_year_bound, lemma_day_of_year_injective, month_length, weekday_of,
};
use crate::grid::{year_week, month_week_row};
use crate::log::HabitLog;

verus! {

/// A foreground or background tint of a drawn cell.
#[derive(Clone, Copy, PartialEq, Eq, Structural, Debug)]
pub enum CellColor {
    /// Logged: the event occurred.
    Red,
    /// Logged: the event did not occur.
    Green,
    /// No data for the day.
    DimGray,
    /// First day of a month, on a day logged as occurred.
    Amber,
    /// First day of a month otherwise.
    AmberDim,
    /// The current real-world day.
    Cyan,
    /// The cursor.
    White,
    Black,
    /// The terminal's default.
    Reset,
}

/// One write into the drawing surface: a run of characters at a cell
/// position with a foreground and background tint.
pub struct DrawOp {
    pub x: u16,
    pub y: u16,
    pub text: Vec<char>,
    pub fg: CellColor,
    pub bg: CellColor,
}

/// The glyph of a day cell in the year grid: filled where data exists,
/// hollow where none does.
pub open spec fn year_symbol(entry: Option<bool>) -> char {
    match entry {
        Some(_) => '\u{25a0}',
        None => '\u{25a1}',
    }
}

/// The tint of a day cell in the year grid. Later conditions override
/// earlier ones: logged data, then first-of-month (with distinct
/// shades for the two logged states), then today, then the cursor.
pub open spec fn year_cell_color(
    entry: Option<bool>,
    first: bool,
    today: bool,
    cursor: bool,
) -> CellColor {
    if cursor {
        CellColor::White
    } else if today {
        CellColor::Cyan
    } else if first {
        if entry == Some(true) {
            CellColor::Amber
        } else {
            CellColor::AmberDim
        }
    } else {
        match entry {
            Some(true) => CellColor::Red,
            Some(false) => CellColor::Green,
            None => CellColor::DimGray,
        }
    }
}

/// The cursor overlay wins over every other condition: a cell that is
/// at once today, first of a month and logged still renders in the
/// cursor tint, never the today tint.
pub proof fn lemma_cursor_overrides_today(entry: Option<bool>, first: bool, today: bool)
    ensures
        year_cell_color(entry, first, today, true) == CellColor::White,
        year_cell_color(entry, first, today, true) != CellColor::Cyan,
{
}

/// The glyph of a day cell in the month grid; a day without data is
/// blank.
pub open spec fn month_symbol(entry: Option<bool>) -> char {
    match entry {
        Some(_) => '\u{25a0}',
        None => ' ',
    }
}

/// The tint of a day symbol in the month grid: logged data, then
/// first-of-month (one shade only), then today. The cursor does not
/// tint the symbol; it inverts the day's numeric label instead.
pub open spec fn month_cell_color(entry: Option<bool>, first: bool, today: bool) -> CellColor {
    if today {
        CellColor::Cyan
    } else if first {
        CellColor::Amber
    } else {
        match entry {
            Some(true) => CellColor::Red,
            Some(false) => CellColor::Green,
            None => CellColor::DimGray,
        }
    }
}

/// Foreground and background of a day's numeric label in the month
/// grid: inverted black-on-white under the cursor, white otherwise,
/// whether or not the day is today.
pub open spec fn month_label_style(cursor: bool) -> (CellColor, CellColor) {
    if cursor {
        (CellColor::Black, CellColor::White)
    } else {
        (CellColor::White, CellColor::Reset)
    }
}

/// In the month grid the cursor's inverted label likewise wins: it is
/// black on white however the day's glyph is tinted, today included.
pub proof fn lemma_cursor_inverts_label()
    ensures
        month_label_style(true) == (CellColor::Black, CellColor::White),
        month_label_style(false) == (CellColor::White, CellColor::Reset),
{
}

/// The decimal digit character for `n`.
pub open spec fn digit(n: int) -> char {
    if n == 0 {
        '0'
    } else if n == 1 {
        '1'
    } else if n == 2 {
        '2'
    } else if n == 3 {
        '3'
    } else if n == 4 {
        '4'
    } else if n == 5 {
        '5'
    } else if n == 6 {
        '6'
    } else if n == 7 {
        '7'
    } else if n == 8 {
        '8'
    } else {
        '9'
    }
}

/// The decimal digits of `n`, most significant first.
pub open spec fn dec_seq(n: int) -> Seq<char>
    decreases n,
{
    if n < 10 {
        seq![digit(n)]
    } else {
        dec_seq(n / 10).push(digit(n % 10))
    }
}

/// The decimal digit character for `n`.
pub fn digit_char(n: u32) -> (r: char)
    requires
        n < 10,
    ensures
        r == digit(n as int),
{
    match n {
        0 => '0',
        1 => '1',
        2 => '2',
        3 => '3',
        4 => '4',
        5 => '5',
        6 => '6',
        7 => '7',
        8 => '8',
        _ => '9',
    }
}

/// The decimal digits of `n`, most significant first.
pub fn dec_chars(n: u32) -> (r: Vec<char>)
    ensures
        r@ == dec_seq(n as int),
        r@.len() >= 1,
    decreases n,
{
    if n < 10 {
        let mut r: Vec<char> = Vec::new();
        r.push(digit_char(n));
        proof {
            assert(r@ =~= dec_seq(n as int));
        }
        r
    } else {
        let mut r = dec_chars(n / 10);
        r.push(digit_char(n % 10));
        proof {
            assert(r@ =~= dec_seq(n as int));
        }
        r
    }
}

/// Three-letter abbreviation of month `m`, for the year header.
pub open spec fn month_abbrev(m: int) -> Seq<char> {
    if m == 1 {
        seq!['J', 'a', 'n']
    } else if m == 2 {
        seq!['F', 'e', 'b']
    } else if m == 3 {
        seq!['M', 'a', 'r']
    } else if m == 4 {
        seq!['A', 'p', 'r']
    } else if m == 5 {
        seq!['M', 'a', 'y']
    } else if m == 6 {
        seq!['J', 'u', 'n']
    } else if m == 7 {
        seq!['J', 'u', 'l']
    } else if m == 8 {
        seq!['A', 'u', 'g']
    } else if m == 9 {
        seq!['S', 'e', 'p']
    } else if m == 10 {
        seq!['O', 'c', 't']
    } else if m == 11 {
        seq!['N', 'o', 'v']
    } else {
        seq!['D', 'e', 'c']
    }
}

/// Three-letter abbreviation of month `m`.
pub fn month_abbrev_chars(m: u32) -> (r: Vec<char>)
    requires
        1 <= m <= 12,
    ensures
        r@ == month_abbrev(m as int),
{
    let mut r: Vec<char> = Vec::new();
    if m == 1 {
        r.push('J');
        r.push('a');
        r.push('n');
    } else if m == 2 {
        r.push('F');
        r.push('e');
        r.push('b');
    } else if m == 3 {
        r.push('M');
        r.push('a');
        r.push('r');
    } else if m == 4 {
        r.push('A');
        r.push('p');
        r.push('r');
    } else if m == 5 {
        r.push('M');
        r.push('a');
        r.push('y');
    } else if m == 6 {
        r.push('J');
        r.push('u');
        r.push('n');
    } else if m == 7 {
        r.push('J');
        r.push('u');
        r.push('l');
    } else if m == 8 {
        r.push('A');
        r.push('u');
        r.push('g');
    } else if m == 9 {
        r.push('S');
        r.push('e');
        r.push('p');
    } else if m == 10 {
        r.push('O');
        r.push('c');
        r.push('t');
    } else if m == 11 {
        r.push('N');
        r.push('o');
        r.push('v');
    } else {
        r.push('D');
        r.push('e');
        r.push('c');
    }
    proof {
        assert(r@ =~= month_abbrev(m as int));
    }
    r
}

/// Whether `op` is the correct year-grid draw operation for date `d`:
/// the day's glyph and tint, two columns per week right of `x0`, one
/// row per weekday below the header row at `y0`.
pub open spec fn year_op_matches(
    op: DrawOp,
    log: HabitLog,
    cursor: Date,
    today: Date,
    x0: int,
    y0: int,
    d: Date,
) -> bool {
    let entry = log.spec_get(d);
    &&& op.x == x0 + 2 * year_week(d)
    &&& op.y == y0 + 1 + weekday_of(d)
    &&& op.text@ == seq![year_symbol(entry)]
    &&& op.fg == year_cell_color(entry, d.day == 1, d == today, d == cursor)
    &&& op.bg == CellColor::Reset
}

/// One draw operation per day of the cursor's year, indexed by the
/// day's zero-based day-of-year, each carrying that day's glyph, tint
/// and grid position.
pub fn year_grid_ops(log: &HabitLog, cursor: Date, today: Date, x0: u16, y0: u16) -> (r: Vec<
    DrawOp,
>)
    requires
        date_valid(cursor),
        x0 + 120 <= u16::MAX,
        y0 + 10 <= u16::MAX,
    ensures
        r@.len() == days_in_year(cursor.year as int),
        forall|d: Date|
            date_valid(d) && d.year == cursor.year ==> year_op_matches(
                r@[#[trigger] day_of_year0(d)],
                *log,
                cursor,
                today,
                x0 as int,
                y0 as int,
                d,
            ),
{
    let year = cursor.year;
    let mut r: Vec<DrawOp> = Vec::new();
    let mut m: u32 = 1;
    while m <= 12
        invariant
            date_valid(cursor),
            x0 + 120 <= u16::MAX,
            y0 + 10 <= u16::MAX,
            year == cursor.year,
            1 <= m <= 13,
            r@.len() == days_before_month(year as int, m as int),
            forall|d: Date|
                date_valid(d) && d.year == year && 0 <= day_of_year0(d) < r@.len()
                    ==> year_op_matches(
                    r@[#[trigger] day_of_year0(d)],
                    *log,
                    cursor,
                    today,
                    x0 as int,
                    y0 as int,
                    d,
                ),
        decreases 13 - m,
    {
        let dim = month_length(year, m);
        let mut day: u32 = 1;
        while day <= dim
            invariant
                date_valid(cursor),
                x0 + 120 <= u16::MAX,
                y0 + 10 <= u16::MAX,
                year == cursor.year,
                1 <= m <= 12,
                dim == days_in_month(year as int, m as int),
                1 <= day <= dim + 1,
                r@.len() == days_before_month(year as int, m as int) + day - 1,
                forall|d: Date|
                    date_valid(d) && d.year == year && 0 <= day_of_year0(d) < r@.len()
                        ==> year_op_matches(
                        r@[#[trigger] day_of_year0(d)],
                        *log,
                        cursor,
                        today,
                        x0 as int,
                        y0 as int,
                        d,
                    ),
            decreases dim + 1 - day,
        {
            let cur = Date { year, month: m, day };
            proof {
                lemma_day_of_year_bound(cur);
            }
            let (week, row) = cur.year_cell_position();
            let entry = log.get(cur);
            let mut text: Vec<char> = Vec::new();
            match entry {
                Some(_) => text.push('\u{25a0}'),
                None => text.push('\u{25a1}'),
            }
            let fg = if cur.year == cursor.year && cur.month == cursor.month && cur.day
                == cursor.day {
                CellColor::White
            } else if cur.year == today.year && cur.month == today.month && cur.day == today.day {
                CellColor::Cyan
            } else if day == 1 {
                match entry {
                    Some(true) => CellColor::Amber,
                    _ => CellColor::AmberDim,
                }
            } else {
                match entry {
                    Some(true) => CellColor::Red,
                    Some(false) => CellColor::Green,
                    None => CellColor::DimGray,
                }
            };
            let op = DrawOp { x: x0 + 2 * (week as u16), y: y0 + 1 + (row as u16), text, fg, bg: CellColor::Reset };
            proof {
                assert(op.text@ =~= seq![year_symbol(log.spec_get(cur))]);
                assert(year_op_matches(op, *log, cursor, today, x0 as int, y0 as int, cur));
            }
            let ghost old_ops = r@;
            r.push(op);
            proof {
                assert(day_of_year0(cur) == old_ops.len());
                assert forall|d: Date|
                    date_valid(d) && d.year == year && 0 <= day_of_year0(d) < r@.len()
                        implies year_op_matches(
                        r@[day_of_year0(d)],
                        *log,
                        cursor,
                        today,
                        x0 as int,
                        y0 as int,
                        d,
                    ) by {
                    lemma_day_of_year_bound(d);
                    if day_of_year0(d) < old_ops.len() {
                        assert(r@[day_of_year0(d)] == old_ops[day_of_year0(d)]);
                    } else {
                        lemma_day_of_year_injective(d, cur);
                        assert(r@[day_of_year0(d)] == op);
                    }
                }
            }
            day = day + 1;
        }
        proof {
            assert(days_before_month(year as int, (m + 1) as int) == days_before_month(
                year as int,
                m as int,
            ) + days_in_month(year as int, m as int));
        }
        m = m + 1;
    }
    proof {
        crate::date::lemma_days_before_month_total(year as int);
        assert forall|d: Date| date_valid(d) && d.year == cursor.year implies year_op_matches(
            r@[day_of_year0(d)],
            *log,
            cursor,
            today,
            x0 as int,
            y0 as int,
            d,
        ) by {
            lemma_day_of_year_bound(d);
        }
    }
    r
}

/// Whether `op` is the correct header label for month `m` of the year
/// grid: its three-letter name above the week column of its first day.
pub open spec fn year_label_matches(op: DrawOp, y: int, x0: int, y0: int, m: int) -> bool {
    &&& op.x == x0 + 2 * year_week(Date { year: y as u32, month: m as u32, day: 1 })
    &&& op.y == y0
    &&& op.text@ == month_abbrev(m)
    &&& op.fg == CellColor::Reset
    &&& op.bg == CellColor::Reset
}

/// One header label per month of year `y`, indexed by month, each above
/// the week column where the month begins.
pub fn year_label_ops(y: u32, x0: u16, y0: u16) -> (r: Vec<DrawOp>)
    requires
        MIN_YEAR <= y <= MAX_YEAR,
        x0 + 120 <= u16::MAX,
        y0 + 10 <= u16::MAX,
    ensures
        r@.len() == 12,
        forall|i: int| 0 <= i < 12 ==> year_label_matches(#[trigger] r@[i], y as int, x0 as int, y0 as int, i + 1),
{
    let mut r: Vec<DrawOp> = Vec::new();
    let mut m: u32 = 1;
    while m <= 12
        invariant
            MIN_YEAR <= y <= MAX_YEAR,
            x0 + 120 <= u16::MAX,
            y0 + 10 <= u16::MAX,
            1 <= m <= 13,
            r@.len() == m - 1,
            forall|i: int| 0 <= i < m - 1 ==> year_label_matches(#[trigger] r@[i], y as int, x0 as int, y0 as int, i + 1),
        decreases 13 - m,
    {
        let first = Date { year: y, month: m, day: 1 };
        let (week, _) = first.year_cell_position();
        let text = month_abbrev_chars(m);
        r.push(DrawOp { x: x0 + 2 * (week as u16), y: y0, text, fg: CellColor::Reset, bg: CellColor::Reset });
        m = m + 1;
    }
    r
}

/// The year view: the twelve month labels followed by one operation
/// per day of the cursor's year, or nothing at all where the area is
/// narrower than the 53 double-width week columns or shorter than the
/// header row plus seven weekday rows.
pub fn render_year(log: &HabitLog, cursor: Date, today: Date, x0: u16, y0: u16, w: u16, h: u16) -> (r: Vec<DrawOp>)
    requires
        date_valid(cursor),
        x0 + w <= 10000,
        y0 + h <= 10000,
    ensures
        (w < 106 || h < 8) ==> r@.len() == 0,
        w >= 106 && h >= 8 ==> {
            &&& r@.len() == 12 + days_in_year(cursor.year as int)
            &&& forall|i: int| 0 <= i < 12 ==> year_label_matches(#[trigger] r@[i], cursor.year as int, x0 as int, y0 as int, i + 1)
            &&& forall|d: Date|
                date_valid(d) && d.year == cursor.year ==> year_op_matches(
                    r@[12 + #[trigger] day_of_year0(d)],
                    *log,
                    cursor,
                    today,
                    x0 as int,
                    y0 as int,
                    d,
                )
        },
{
    if w < 106 || h < 8 {
        return Vec::new();
    }
    let mut r = year_label_ops(cursor.year, x0, y0);
    let mut grid = year_grid_ops(log, cursor, today, x0, y0);
    let ghost labels = r@;
    let ghost grid_ops = grid@;
    r.append(&mut grid);
    proof {
        assert(r@ == labels + grid_ops);
        assert forall|d: Date|
            date_valid(d) && d.year == cursor.year implies year_op_matches(
            r@[12 + #[trigger] day_of_year0(d)],
            *log,
            cursor,
            today,
            x0 as int,
            y0 as int,
            d,
        ) by {
            lemma_day_of_year_bound(d);
            assert(r@[12 + day_of_year0(d)] == grid_ops[day_of_year0(d)]);
        }
    }
    r
}

/// Full name of month `m`, for the month view's title.
pub open spec fn month_name(m: int) -> Seq<char> {
    if m == 1 {
        seq!['J', 'a', 'n', 'u', 'a', 'r', 'y']
    } else if m == 2 {
        seq!['F', 'e', 'b', 'r', 'u', 'a', 'r', 'y']
    } else if m == 3 {
        seq!['M', 'a', 'r', 'c', 'h']
    } else if m == 4 {
        seq!['A', 'p', 'r', 'i', 'l']
    } else if m == 5 {
        seq!['M', 'a', 'y']
    } else if m == 6 {
        seq!['J', 'u', 'n', 'e']
    } else if m == 7 {
        seq!['J', 'u', 'l', 'y']
    } else if m == 8 {
        seq!['A', 'u', 'g', 'u', 's', 't']
    } else if m == 9 {
        seq!['S', 'e', 'p', 't', 'e', 'm', 'b', 'e', 'r']
    } else if m == 10 {
        seq!['O', 'c', 't', 'o', 'b', 'e', 'r']
    } else if m == 11 {
        seq!['N', 'o', 'v', 'e', 'm', 'b', 'e', 'r']
    } else {
        seq!['D', 'e', 'c', 'e', 'm', 'b', 'e', 'r']
    }
}

/// Full name of month `m`.
pub fn month_name_chars(m: u32) -> (r: Vec<char>)
    requires
        1 <= m <= 12,
    ensures
        r@ == month_name(m as int),
        3 <= r@.len() <= 9,
{
    let mut r = month_abbrev_chars(m);
    if m == 1 {
        r.push('u');
        r.push('a');
        r.push('r');
        r.push('y');
    } else if m == 2 {
        r.push('r');
        r.push('u');
        r.push('a');
        r.push('r');
        r.push('y');
    } else if m == 3 {
        r.push('c');
        r.push('h');
    } else if m == 4 {
        r.push('i');
        r.push('l');
    } else if m == 6 {
        r.push('e');
    } else if m == 7 {
        r.push('y');
    } else if m == 8 {
        r.push('u');
        r.push('s');
        r.push('t');
    } else if m == 9 {
        r.push('t');
        r.push('e');
        r.push('m');
        r.push('b');
        r.push('e');
        r.push('r');
    } else if m == 10 {
        r.push('o');
        r.push('b');
        r.push('e');
        r.push('r');
    } else if m == 11 {
        r.push('e');
        r.push('m');
        r.push('b');
        r.push('e');
        r.push('r');
    } else if m == 12 {
        r.push('e');
        r.push('m');
        r.push('b');
        r.push('e');
        r.push('r');
    }
    proof {
        assert(r@ =~= month_name(m as int));
    }
    r
}

/// The month view's centered title: the month's name, a space, and the
/// year in decimal.
pub open spec fn title_of(m: int, y: int) -> Seq<char> {
    month_name(m) + seq![' '] + dec_seq(y)
}

/// A year in the supported range prints as one to four digits.
pub proof fn lemma_dec_seq_len(n: int)
    requires
        0 <= n <= 9999,
    ensures
        1 <= dec_seq(n).len() <= 4,
{
    if n >= 10 {
        if n >= 100 {
            if n >= 1000 {
                assert(dec_seq(n / 10 / 10 / 10).len() == 1);
            }
            assert(dec_seq(n / 10 / 10).len() <= 2);
        }
        assert(dec_seq(n / 10).len() <= 3);
    }
}

/// Three-letter abbreviation of weekday `i` (Sunday is 0), for the
/// month view's header row.
pub open spec fn weekday_abbrev(i: int) -> Seq<char> {
    if i == 0 {
        seq!['S', 'u', 'n']
    } else if i == 1 {
        seq!['M', 'o', 'n']
    } else if i == 2 {
        seq!['T', 'u', 'e']
    } else if i == 3 {
        seq!['W', 'e', 'd']
    } else if i == 4 {
        seq!['T', 'h', 'u']
    } else if i == 5 {
        seq!['F', 'r', 'i']
    } else {
        seq!['S', 'a', 't']
    }
}

/// Three-letter abbreviation of weekday `i` (Sunday is 0).
pub fn weekday_abbrev_chars(i: u32) -> (r: Vec<char>)
    requires
        i < 7,
    ensures
        r@ == weekday_abbrev(i as int),
{
    let mut r: Vec<char> = Vec::new();
    if i == 0 {
        r.push('S');
        r.push('u');
        r.push('n');
    } else if i == 1 {
        r.push('M');
        r.push('o');
        r.push('n');
    } else if i == 2 {
        r.push('T');
        r.push('u');
        r.push('e');
    } else if i == 3 {
        r.push('W');
        r.push('e');
        r.push('d');
    } else if i == 4 {
        r.push('T');
        r.push('h');
        r.push('u');
    } else if i == 5 {
        r.push('F');
        r.push('r');
        r.push('i');
    } else {
        r.push('S');
        r.push('a');
        r.push('t');
    }
    proof {
        assert(r@ =~= weekday_abbrev(i as int));
    }
    r
}

/// Whether `op` draws day `d`'s data glyph in the month grid: four
/// columns per weekday right of the calendar origin, one row per week
/// of the month below the header.
pub open spec fn month_sym_matches(
    op: DrawOp,
    log: HabitLog,
    today: Date,
    cal_x: int,
    cal_y: int,
    d: Date,
) -> bool {
    let entry = log.spec_get(d);
    &&& op.x == cal_x + 4 * weekday_of(d)
    &&& op.y == cal_y + 2 + month_week_row(d)
    &&& op.text@ == seq![month_symbol(entry)]
    &&& op.fg == month_cell_color(entry, d.day == 1, d == today)
    &&& op.bg == CellColor::Reset
}

/// Whether `op` draws day `d`'s two-digit zero-padded number in the
/// month grid, inverted under the cursor.
pub open spec fn month_num_matches(op: DrawOp, cursor: Date, cal_x: int, cal_y: int, d: Date) -> bool {
    &&& op.x == cal_x + 4 * weekday_of(d)
    &&& op.y == cal_y + 2 + month_week_row(d)
    &&& op.text@ == seq![digit(d.day as int / 10), digit(d.day as int % 10)]
    &&& op.fg == month_label_style(d == cursor).0
    &&& op.bg == month_label_style(d == cursor).1
}

/// The whole month view in one statement: entry 0 is the centered
/// title, entries 1 to 7 the weekday header, and per day of the month
/// a data glyph followed by its day number at the day's grid cell.
pub open spec fn month_view_ok(
    r: Seq<DrawOp>,
    log: HabitLog,
    cursor: Date,
    today: Date,
    x0: int,
    y0: int,
    w: int,
) -> bool {
    &&& r.len() == 8 + 2 * days_in_month(cursor.year as int, cursor.month as int)
    &&& r[0].x == x0 + (w - title_of(cursor.month as int, cursor.year as int).len()) / 2
    &&& r[0].y == y0
    &&& r[0].text@ == title_of(cursor.month as int, cursor.year as int)
    &&& forall|i: int|
        0 <= i < 7 ==> {
            &&& (#[trigger] r[1 + i]).x == x0 + (w - 28) / 2 + 4 * i
            &&& r[1 + i].y == y0 + 2
            &&& r[1 + i].text@ == weekday_abbrev(i)
        }
    &&& forall|day: int|
        1 <= day <= days_in_month(cursor.year as int, cursor.month as int) ==> {
            &&& month_sym_matches(
                #[trigger] r[8 + 2 * (day - 1)],
                log,
                today,
                x0 + (w - 28) / 2,
                y0 + 2,
                Date { year: cursor.year, month: cursor.month, day: day as u32 },
            )
            &&& month_num_matches(
                r[8 + 2 * (day - 1) + 1],
                cursor,
                x0 + (w - 28) / 2,
                y0 + 2,
                Date { year: cursor.year, month: cursor.month, day: day as u32 },
            )
        }
}

/// The month view of the cursor's month: a centered title, the weekday
/// header, and per day a data glyph followed by its day number drawn
/// over it, or nothing at all where the area cannot hold the
/// 28-column calendar.
#[verifier::rlimit(100)]
pub fn render_month(log: &HabitLog, cursor: Date, today: Date, x0: u16, y0: u16, w: u16, h: u16) -> (r: Vec<DrawOp>)
    requires
        date_valid(cursor),
        x0 + w <= 10000,
        y0 + h <= 10000,
    ensures
        (w < 28 || h < 10) ==> r@.len() == 0,
        w >= 28 && h >= 10 ==> month_view_ok(r@, *log, cursor, today, x0 as int, y0 as int, w as int),
{
    if w < 28 || h < 10 {
        return Vec::new();
    }
    let cal_x: u16 = x0 + (w - 28) / 2;
    let cal_y: u16 = y0 + 2;
    let mut r: Vec<DrawOp> = Vec::new();

    let mut title = month_name_chars(cursor.month);
    title.push(' ');
    let mut year_digits = dec_chars(cursor.year);
    proof {
        lemma_dec_seq_len(cursor.year as int);
    }
    let ghost title_ghost = title_of(cursor.month as int, cursor.year as int);
    title.append(&mut year_digits);
    proof {
        assert(title@ =~= title_ghost);
    }
    let title_len: u16 = title.len() as u16;
    r.push(DrawOp { x: x0 + (w - title_len) / 2, y: y0, text: title, fg: CellColor::Reset, bg: CellColor::Reset });

    let mut i: u32 = 0;
    while i < 7
        invariant
            x0 + w <= 10000,
            y0 + h <= 10000,
            w >= 28,
            cal_x == x0 + (w - 28) / 2,
            cal_y == y0 + 2,
            i <= 7,
            r@.len() == 1 + i,
            r@[0].x == x0 + (w - title_ghost.len()) / 2,
            r@[0].y == y0,
            r@[0].text@ == title_ghost,
            title_ghost.len() <= 14,
            forall|j: int|
                0 <= j < i ==> {
                    &&& (#[trigger] r@[1 + j]).x == cal_x + 4 * j
                    &&& r@[1 + j].y == cal_y
                    &&& r@[1 + j].text@ == weekday_abbrev(j)
                },
        decreases 7 - i,
    {
        let text = weekday_abbrev_chars(i);
        r.push(DrawOp { x: cal_x + 4 * (i as u16), y: cal_y, text, fg: CellColor::Reset, bg: CellColor::Reset });
        i = i + 1;
    }

    let dim = month_length(cursor.year, cursor.month);
    let mut day: u32 = 1;
    while day <= dim
        invariant
            date_valid(cursor),
            x0 + w <= 10000,
            y0 + h <= 10000,
            w >= 28,
            cal_x == x0 + (w - 28) / 2,
            cal_y == y0 + 2,
            dim == days_in_month(cursor.year as int, cursor.month as int),
            1 <= day <= dim + 1,
            r@.len() == 8 + 2 * (day - 1),
            r@[0].x == x0 + (w - title_ghost.len()) / 2,
            r@[0].y == y0,
            r@[0].text@ == title_ghost,
            title_ghost.len() <= 14,
            forall|j: int|
                0 <= j < 7 ==> {
                    &&& (#[trigger] r@[1 + j]).x == cal_x + 4 * j
                    &&& r@[1 + j].y == cal_y
                    &&& r@[1 + j].text@ == weekday_abbrev(j)
                },
            forall|d2: int|
                1 <= d2 < day ==> {
                    &&& month_sym_matches(
                        #[trigger] r@[8 + 2 * (d2 - 1)],
                        *log,
                        today,
                        cal_x as int,
                        cal_y as int,
                        Date { year: cursor.year, month: cursor.month, day: d2 as u32 },
                    )
                    &&& month_num_matches(
                        r@[8 + 2 * (d2 - 1) + 1],
                        cursor,
                        cal_x as int,
                        cal_y as int,
                        Date { year: cursor.year, month: cursor.month, day: d2 as u32 },
                    )
                },
        decreases dim + 1 - day,
    {
        let cur = Date { year: cursor.year, month: cursor.month, day };
        let (row, col) = cur.month_cell_position();
        let entry = log.get(cur);
        let px: u16 = cal_x + 4 * (col as u16);
        let py: u16 = cal_y + 2 + (row as u16);

        let mut sym: Vec<char> = Vec::new();
        match entry {
            Some(_) => sym.push('\u{25a0}'),
            None => sym.push(' '),
        }
        let sym_fg = if cur.year == today.year && cur.month == today.month && cur.day == today.day {
            CellColor::Cyan
        } else if day == 1 {
            CellColor::Amber
        } else {
            match entry {
                Some(true) => CellColor::Red,
                Some(false) => CellColor::Green,
                None => CellColor::DimGray,
            }
        };
        let sym_op = DrawOp { x: px, y: py, text: sym, fg: sym_fg, bg: CellColor::Reset };
        proof {
            assert(sym_op.text@ =~= seq![month_symbol(log.spec_get(cur))]);
            assert(month_sym_matches(sym_op, *log, today, cal_x as int, cal_y as int, cur));
        }

        let mut num: Vec<char> = Vec::new();
        num.push(digit_char(day / 10));
        num.push(digit_char(day % 10));
        let is_cursor = cur.year == cursor.year && cur.month == cursor.month && cur.day
            == cursor.day;
        let (num_fg, num_bg) = if is_cursor {
            (CellColor::Black, CellColor::White)
        } else {
            (CellColor::White, CellColor::Reset)
        };
        let num_op = DrawOp { x: px, y: py, text: num, fg: num_fg, bg: num_bg };
        proof {
            assert(num_op.text@ =~= seq![digit(cur.day as int / 10), digit(cur.day as int % 10)]);
            assert(month_num_matches(num_op, cursor, cal_x as int, cal_y as int, cur));
        }

        let ghost old_ops = r@;
        r.push(sym_op);
        r.push(num_op);
        proof {
            assert(r@ == old_ops.push(sym_op).push(num_op));
            assert(r@[8 + 2 * (day - 1)] == sym_op);
            assert(r@[8 + 2 * (day - 1) + 1] == num_op);
            assert forall|d2: int| 1 <= d2 < day + 1 implies {
                &&& month_sym_matches(
                    #[trigger] r@[8 + 2 * (d2 - 1)],
                    *log,
                    today,
                    cal_x as int,
                    cal_y as int,
                    Date { year: cursor.year, month: cursor.month, day: d2 as u32 },
                )
                &&& month_num_matches(
                    r@[8 + 2 * (d2 - 1) + 1],
                    cursor,
                    cal_x as int,
                    cal_y as int,
                    Date { year: cursor.year, month: cursor.month, day: d2 as u32 },
                )
            } by {
                if d2 < day {
                    assert(r@[8 + 2 * (d2 - 1)] == old_ops[8 + 2 * (d2 - 1)]);
                    assert(r@[8 + 2 * (d2 - 1) + 1] == old_ops[8 + 2 * (d2 - 1) + 1]);
                }
            }
        }
        day = day + 1;
    }
    proof {
        assert(r@.len() == 8 + 2 * days_in_month(cursor.year as int, cursor.month as int));
        assert(r@[0].x == x0 + (w - title_of(cursor.month as int, cursor.year as int).len()) / 2);
        assert(r@[0].y == y0);
        assert(r@[0].text@ == title_of(cursor.month as int, cursor.year as int));
        assert(forall|i: int|
            0 <= i < 7 ==> {
                &&& (#[trigger] r@[1 + i]).x == x0 + (w - 28) / 2 + 4 * i
                &&& r@[1 + i].y == y0 + 2
                &&& r@[1 + i].text@ == weekday_abbrev(i)
            });
        assert(forall|day: int|
            1 <= day <= days_in_month(cursor.year as int, cursor.month as int) ==> {
                &&& month_sym_matches(
                    #[trigger] r@[8 + 2 * (day - 1)],
                    *log,
                    today,
                    x0 + (w - 28) / 2,
                    y0 + 2,
                    Date { year: cursor.year, month: cursor.month, day: day as u32 },
                )
                &&& month_num_matches(
                    r@[8 + 2 * (day - 1) + 1],
                    cursor,
                    x0 + (w - 28) / 2,
                    y0 + 2,
                    Date { year: cursor.year, month: cursor.month, day: day as u32 },
                )
            });
        assert(month_view_ok(r@, *log, cursor, today, x0 as int, y0 as int, w as int));
    }
    r
}

} // verus!
