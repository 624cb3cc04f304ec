//! The mathematical model of a terminal: its abstract state and what each
//! operation does to it.

use vstd::prelude::*;
use crate::terminal::{Rgb, Cell, Cursor, CursorStyle, TerminalModes};

verus! {

/// The rows of a grid, each taken by its contents.
pub open spec fn rows_view(g: Seq<Vec<Cell>>) -> Seq<Seq<Cell>> {
    Seq::new(g.len(), |i: int| g[i]@)
}

pub broadcast proof fn lemma_rows_view_len(g: Seq<Vec<Cell>>)
    ensures
        #[trigger] rows_view(g).len() == g.len(),
{
}

pub broadcast proof fn lemma_rows_view_index(g: Seq<Vec<Cell>>, i: int)
    requires
        0 <= i < g.len(),
    ensures
        #[trigger] rows_view(g)[i] == g[i]@,
{
}

/// Number of lines that the scrollback keeps.
pub const SCROLLBACK_LINES: usize = 10000;

/// `n - 1`, or `0` when `n` is `0`.
pub open spec fn sat_dec(n: usize) -> usize {
    if n == 0 { 0 } else { (n - 1) as usize }
}

/// `a - b`, or `0` when `b > a`.
pub open spec fn sat_sub(a: usize, b: usize) -> usize {
    if a < b { 0 } else { (a - b) as usize }
}

pub open spec fn min_usize(a: usize, b: usize) -> usize {
    if a <= b { a } else { b }
}

pub open spec fn min_u(a: int, b: int) -> int {
    if a <= b { a } else { b }
}

/// A count parameter of a control sequence: values below one count as one.
pub open spec fn clamp_count(count: i64) -> usize {
    if count < 1 { 1 } else { count as usize }
}

pub open spec fn rgb(r: u8, g: u8, b: u8) -> Rgb {
    Rgb { r, g, b }
}

/// The cell that fills a cleared position of the grid.
pub open spec fn blank_cell() -> Cell {
    Cell {
        ch: ' ',
        fg: rgb(0, 0, 0),
        bg: rgb(0, 0, 0),
        bold: false,
        italic: false,
        underline: false,
        strikethrough: false,
        inverse: false,
        blank: true,
        is_wide: false,
        is_wide_continuation: false,
    }
}

pub open spec fn blank_row(cols: nat) -> Seq<Cell> {
    Seq::new(cols, |x: int| blank_cell())
}

pub open spec fn blank_rows(n: nat, cols: nat) -> Seq<Seq<Cell>> {
    Seq::new(n, |y: int| blank_row(cols))
}

pub open spec fn origin_cursor() -> Cursor {
    Cursor { x: 0, y: 0, visible: false }
}

pub open spec fn default_modes() -> TerminalModes {
    TerminalModes {
        insert: false,
        auto_wrap: true,
        reverse_video: false,
        origin: false,
        application_cursor: false,
        bracketed_paste: false,
        alt_screen: false,
        mouse_tracking: false,
        mouse_motion_tracking: false,
        focus_events: false,
    }
}

/// The default tab stops of a line of `cols` columns: every eighth column.
pub open spec fn default_tab_stops(cols: nat) -> Seq<bool> {
    Seq::new(cols, |i: int| i % 8 == 0)
}

/// Every row of `g` has `cols` cells and there are `rows` of them.
pub open spec fn grid_shape(g: Seq<Seq<Cell>>, rows: nat, cols: nat) -> bool {
    &&& g.len() == rows
    &&& forall|y: int| 0 <= y < rows ==> (#[trigger] g[y]).len() == cols
}

/// `row` with the positions `lo <= x < hi` cleared.
pub open spec fn clear_span(row: Seq<Cell>, lo: int, hi: int) -> Seq<Cell> {
    Seq::new(row.len(), |x: int| if lo <= x < hi { blank_cell() } else { row[x] })
}

/// The scrollback after `lines` were appended: the newest `SCROLLBACK_LINES` lines.
pub open spec fn append_bounded(sb: Seq<Seq<Cell>>, lines: Seq<Seq<Cell>>) -> Seq<Seq<Cell>> {
    let all = sb + lines;
    if all.len() > SCROLLBACK_LINES {
        all.subrange(all.len() - SCROLLBACK_LINES, all.len() as int)
    } else {
        all
    }
}

/// The abstract state of a terminal.
#[verifier::ext_equal]
pub struct TermState {
    pub rows: usize,
    pub cols: usize,
    /// The primary screen, row by row.
    pub grid: Seq<Seq<Cell>>,
    /// The alternate screen, row by row.
    pub alt_grid: Seq<Seq<Cell>>,
    /// Lines scrolled off the top of the screen, oldest first.
    pub scrollback: Seq<Seq<Cell>>,
    pub cursor: Cursor,
    pub saved_cursor: Cursor,
    pub alt_cursor: Cursor,
    pub modes: TerminalModes,
    pub cursor_style: CursorStyle,
    pub scroll_top: usize,
    pub scroll_bottom: usize,
    /// The colours and attributes that the next printed character gets.
    pub fg_color: Rgb,
    pub bg_color: Rgb,
    pub bold: bool,
    pub italic: bool,
    pub underline: bool,
    pub strikethrough: bool,
    pub inverse: bool,
    /// The colours that resetting the attributes returns to.
    pub foreground: Rgb,
    pub background: Rgb,
    pub palette: [[u8; 3]; 16],
    pub tab_stops: Seq<bool>,
    pub title: Seq<char>,
    pub dirty: bool,
}

impl TermState {
    /// The invariant that every operation keeps.
    pub open spec fn wf(self) -> bool {
        &&& grid_shape(self.grid, self.rows as nat, self.cols as nat)
        &&& grid_shape(self.alt_grid, self.rows as nat, self.cols as nat)
        &&& self.tab_stops.len() == self.cols
        &&& self.scrollback.len() <= SCROLLBACK_LINES
        &&& self.scroll_bottom <= sat_dec(self.rows)
        &&& self.cursor.x <= sat_dec(self.cols)
        &&& self.cursor.y <= sat_dec(self.rows)
        &&& !self.modes.origin
        &&& self.scroll_top < usize::MAX
        &&& self.foreground == rgb(0xcc, 0xcc, 0xcc)
        &&& self.background == rgb(0, 0, 0)
    }

    /// The number of lines from the top to the bottom of the scroll region.
    pub open spec fn region_height(self) -> int {
        self.scroll_bottom - self.scroll_top + 1
    }

    pub open spec fn in_region(self, y: usize) -> bool {
        self.scroll_top <= y <= self.scroll_bottom
    }

    /// How many lines scrolling by `count` moves: at most the region's height.
    pub open spec fn scroll_amount(self, count: usize) -> int {
        min_u(count as int, self.region_height())
    }

    /// Scrolling the region up by `count` lines does not fail here.
    pub open spec fn scroll_up_ok(self, count: usize) -> bool {
        &&& self.scroll_top <= self.scroll_bottom
        &&& self.scroll_amount(count) > 0 ==> self.scroll_bottom + self.scroll_amount(count)
            <= self.rows
    }

    /// `g` with the `n` lines from line `at` removed and `n` blank lines
    /// inserted at line `bottom` of what is left.
    pub open spec fn close_lines(
        g: Seq<Seq<Cell>>,
        at: int,
        bottom: int,
        n: int,
        cols: nat,
    ) -> Seq<Seq<Cell>> {
        let g1 = g.subrange(0, at) + g.subrange(at + n, g.len() as int);
        g1.subrange(0, bottom) + blank_rows(n as nat, cols) + g1.subrange(bottom, g1.len() as int)
    }

    /// The region scrolled up by `count` lines: its top lines go to the
    /// scrollback and blank lines come in at its bottom.
    pub open spec fn scrolled_up(self, count: usize) -> TermState {
        let n = self.scroll_amount(count);
        let g = self.screen();
        let t = self.scroll_top as int;
        let b = self.scroll_bottom as int;
        if n <= 0 {
            self
        } else {
            TermState {
                scrollback: append_bounded(self.scrollback, g.subrange(t, t + n)),
                ..self.with_screen(Self::close_lines(g, t, b, n, self.cols as nat))
            }
        }
    }

    /// Scrolling the region down by `count` lines does not fail here.
    pub open spec fn scroll_down_ok(self, count: usize) -> bool {
        &&& self.scroll_top <= self.scroll_bottom
        &&& self.scroll_amount(count) > 0 ==> self.scroll_bottom < self.rows
    }

    /// `g` with `n` blank lines inserted at line `at`, the lines from there to
    /// line `bottom` moving down and the last `n` of them dropped.
    pub open spec fn open_lines(
        g: Seq<Seq<Cell>>,
        at: int,
        bottom: int,
        n: int,
        cols: nat,
    ) -> Seq<Seq<Cell>> {
        g.subrange(0, at) + blank_rows(n as nat, cols) + g.subrange(at, bottom + 1 - n)
            + g.subrange(bottom + 1, g.len() as int)
    }

    /// The region scrolled down by `count` lines: blank lines come in at its top.
    pub open spec fn scrolled_down(self, count: usize) -> TermState {
        let n = self.scroll_amount(count);
        if n <= 0 {
            self
        } else {
            self.with_screen(
                Self::open_lines(
                    self.screen(),
                    self.scroll_top as int,
                    self.scroll_bottom as int,
                    n,
                    self.cols as nat,
                ),
            )
        }
    }

    pub open spec fn newline_ok(self) -> bool {
        self.cursor.y >= self.scroll_bottom ==> self.scroll_up_ok(1)
    }

    /// Line feed: down one line, scrolling at the bottom of the region, and to
    /// the first column.
    pub open spec fn newline(self) -> TermState {
        let s = if self.cursor.y >= self.scroll_bottom {
            self.scrolled_up(1)
        } else {
            self.with_y((self.cursor.y + 1) as usize)
        };
        s.with_x(0)
    }

    pub open spec fn index_ok(self) -> bool {
        self.cursor.y == self.scroll_bottom ==> self.scroll_up_ok(1)
    }

    /// Down one line, scrolling when the cursor is on the region's bottom line.
    pub open spec fn index(self) -> TermState {
        if self.cursor.y == self.scroll_bottom {
            self.scrolled_up(1)
        } else {
            self.with_y(min_u(self.cursor.y + 1, sat_dec(self.rows) as int) as usize)
        }
    }

    pub open spec fn reverse_index_ok(self) -> bool {
        self.cursor.y == self.scroll_top ==> self.scroll_down_ok(1)
    }

    /// Up one line, scrolling down when the cursor is on the region's top line.
    pub open spec fn reverse_index(self) -> TermState {
        if self.cursor.y == self.scroll_top {
            self.scrolled_down(1)
        } else if self.cursor.y > 0 {
            self.with_y((self.cursor.y - 1) as usize)
        } else {
            self
        }
    }

    pub open spec fn carriage_return(self) -> TermState {
        self.with_x(0)
    }

    pub open spec fn backspace(self) -> TermState {
        if self.cursor.x > 0 {
            self.with_x((self.cursor.x - 1) as usize)
        } else {
            self
        }
    }

    /// The column that a tab from column `x` moves to: the next tab stop,
    /// or column `last` if no stop comes first.
    pub open spec fn next_tab(stops: Seq<bool>, x: int, last: int) -> int
        decreases last - x,
    {
        if x >= last {
            x
        } else if x + 1 < stops.len() && stops[x + 1] {
            x + 1
        } else {
            Self::next_tab(stops, x + 1, last)
        }
    }

    pub open spec fn tab(self) -> TermState {
        self.with_x(
            Self::next_tab(self.tab_stops, self.cursor.x as int, sat_dec(self.cols) as int) as usize,
        )
    }

    /// `row` with the cells from `at` on moved one place right; the last one drops off.
    pub open spec fn shift_right(row: Seq<Cell>, at: int) -> Seq<Cell> {
        Seq::new(row.len(), |i: int| if at < i { row[i - 1] } else { row[i] })
    }

    pub open spec fn print_ok(self) -> bool {
        &&& self.cursor.y < self.rows
        &&& self.cursor.x < self.cols
        &&& self.cursor.x + 1 >= self.cols && self.modes.auto_wrap ==> self.newline_ok()
    }

    /// Printing `c`: the cell under the cursor gets `c` with the current
    /// attributes (after the rest of the line moved right in insert mode), and
    /// the cursor advances, wrapping at the end of the line when auto-wrap is on.
    pub open spec fn print(self, c: char) -> TermState {
        let g = self.screen();
        let x = self.cursor.x as int;
        let y = self.cursor.y as int;
        let row = if self.modes.insert { Self::shift_right(g[y], x) } else { g[y] };
        let s = self.with_screen(g.update(y, row.update(x, self.pen_cell(c))));
        if x + 1 >= self.cols {
            if self.modes.auto_wrap {
                s.with_x(0).newline()
            } else {
                s
            }
        } else {
            s.with_x((x + 1) as usize)
        }
    }

    pub open spec fn erase_display_ok(self, mode: i64) -> bool {
        mode == 1 ==> self.cursor.y < self.rows && self.cols > 0
    }

    /// Erase in display: from the cursor to the end (mode 0), from the start to
    /// the cursor (mode 1), or everything (modes 2 and 3).
    pub open spec fn erase_display(self, mode: i64) -> TermState {
        let g = self.screen();
        let cx = self.cursor.x as int;
        let cy = self.cursor.y as int;
        let cols = self.cols as int;
        let g2 = if mode == 0 {
            Seq::new(
                g.len(),
                |y: int|
                    if y < cy {
                        g[y]
                    } else if y == cy {
                        clear_span(g[y], cx, cols)
                    } else {
                        clear_span(g[y], 0, cols)
                    },
            )
        } else if mode == 1 {
            Seq::new(
                g.len(),
                |y: int|
                    if y < cy {
                        clear_span(g[y], 0, cols)
                    } else if y == cy {
                        clear_span(g[y], 0, cx + 1)
                    } else {
                        g[y]
                    },
            )
        } else if mode == 2 || mode == 3 {
            Seq::new(g.len(), |y: int| clear_span(g[y], 0, g[y].len() as int))
        } else {
            g
        };
        self.with_screen(g2)
    }

    pub open spec fn erase_line_ok(self, mode: i64) -> bool {
        &&& self.cursor.y < self.rows
        &&& mode == 1 ==> self.cols > 0
    }

    /// Erase in line: from the cursor to the end (mode 0), from the start to
    /// the cursor (mode 1), or the whole line (mode 2).
    pub open spec fn erase_line(self, mode: i64) -> TermState {
        let g = self.screen();
        let cx = self.cursor.x as int;
        let cy = self.cursor.y as int;
        let row = g[cy];
        let row2 = if mode == 0 {
            clear_span(row, cx, self.cols as int)
        } else if mode == 1 {
            clear_span(row, 0, cx + 1)
        } else if mode == 2 {
            clear_span(row, 0, row.len() as int)
        } else {
            row
        };
        self.with_screen(g.update(cy, row2))
    }

    pub open spec fn erase_chars_ok(self, count: i64) -> bool {
        &&& self.cursor.y < self.rows
        &&& self.cursor.x + clamp_count(count) <= usize::MAX
    }

    /// Erase `count` characters from the cursor on, within the line.
    pub open spec fn erase_chars(self, count: i64) -> TermState {
        let g = self.screen();
        let cx = self.cursor.x as int;
        let cy = self.cursor.y as int;
        let end = min_u(cx + clamp_count(count), self.cols as int);
        self.with_screen(g.update(cy, clear_span(g[cy], cx, end)))
    }

    pub open spec fn delete_chars_ok(self, count: i64) -> bool {
        &&& self.cursor.y < self.rows
        &&& self.cols > 0 ==> self.cols - 1 + clamp_count(count) <= usize::MAX
    }

    /// Delete `count` characters at the cursor: the rest of the line moves
    /// left and blanks come in at its end.
    pub open spec fn delete_chars(self, count: i64) -> TermState {
        let g = self.screen();
        let cx = self.cursor.x as int;
        let cy = self.cursor.y as int;
        let n = clamp_count(count) as int;
        let cols = self.cols as int;
        let row = g[cy];
        let row2 = Seq::new(
            row.len(),
            |i: int|
                if i < cx {
                    row[i]
                } else if i + n < cols {
                    row[i + n]
                } else {
                    blank_cell()
                },
        );
        self.with_screen(g.update(cy, row2))
    }

    pub open spec fn insert_blank_ok(self, count: i64) -> bool {
        &&& self.cursor.y < self.rows
        &&& clamp_count(count) <= self.cols
        &&& self.cursor.x + clamp_count(count) <= usize::MAX
    }

    /// Insert `count` blank characters at the cursor: the rest of the line
    /// moves right and its last cells drop off.
    pub open spec fn insert_blank(self, count: i64) -> TermState {
        let g = self.screen();
        let cx = self.cursor.x as int;
        let cy = self.cursor.y as int;
        let n = clamp_count(count) as int;
        let row = g[cy];
        let row2 = Seq::new(
            row.len(),
            |i: int|
                if i < cx {
                    row[i]
                } else if i < cx + n {
                    blank_cell()
                } else {
                    row[i - n]
                },
        );
        self.with_screen(g.update(cy, row2))
    }

    /// How many lines inserting or deleting `count` lines at the cursor moves.
    pub open spec fn line_count(self, count: i64) -> int {
        min_u(clamp_count(count) as int, self.scroll_bottom - self.cursor.y + 1)
    }

    pub open spec fn insert_lines_ok(self, count: i64) -> bool {
        self.in_region(self.cursor.y) ==> self.scroll_bottom < self.rows
    }

    /// Insert `count` blank lines at the cursor's line, inside the scroll region.
    pub open spec fn insert_lines(self, count: i64) -> TermState {
        if !self.in_region(self.cursor.y) {
            self
        } else {
            self.with_screen(
                Self::open_lines(
                    self.screen(),
                    self.cursor.y as int,
                    self.scroll_bottom as int,
                    self.line_count(count),
                    self.cols as nat,
                ),
            )
        }
    }

    pub open spec fn delete_lines_ok(self, count: i64) -> bool {
        self.in_region(self.cursor.y) ==> self.scroll_bottom + self.line_count(count) <= self.rows
    }

    /// Delete `count` lines at the cursor's line: the lines below move up and
    /// blank lines are inserted at the bottom line of the region.
    pub open spec fn delete_lines(self, count: i64) -> TermState {
        if !self.in_region(self.cursor.y) {
            self
        } else {
            self.with_screen(
                Self::close_lines(
                    self.screen(),
                    self.cursor.y as int,
                    self.scroll_bottom as int,
                    self.line_count(count),
                    self.cols as nat,
                ),
            )
        }
    }


    /// The screen that is shown: the alternate one while that mode is on.
    pub open spec fn screen(self) -> Seq<Seq<Cell>> {
        if self.modes.alt_screen { self.alt_grid } else { self.grid }
    }

    /// The state with `g` as the shown screen, marked as changed.
    pub open spec fn with_screen(self, g: Seq<Seq<Cell>>) -> TermState {
        if self.modes.alt_screen {
            TermState { alt_grid: g, dirty: true, ..self }
        } else {
            TermState { grid: g, dirty: true, ..self }
        }
    }

    pub open spec fn with_cursor(self, c: Cursor) -> TermState {
        TermState { cursor: c, ..self }
    }

    pub open spec fn with_xy(self, x: usize, y: usize) -> TermState {
        TermState { cursor: Cursor { x, y, ..self.cursor }, ..self }
    }

    pub open spec fn with_x(self, x: usize) -> TermState {
        self.with_xy(x, self.cursor.y)
    }

    pub open spec fn with_y(self, y: usize) -> TermState {
        self.with_xy(self.cursor.x, y)
    }

    /// The cell that printing `c` writes, with the current colours and attributes.
    pub open spec fn pen_cell(self, c: char) -> Cell {
        Cell {
            ch: c,
            fg: self.fg_color,
            bg: self.bg_color,
            bold: self.bold,
            italic: self.italic,
            underline: self.underline,
            strikethrough: self.strikethrough,
            inverse: self.inverse,
            blank: false,
            is_wide: false,
            is_wide_continuation: false,
        }
    }
}

/// The state of a terminal just created with the given size and palette.
pub open spec fn initial_state(rows: usize, cols: usize, palette: [[u8; 3]; 16]) -> TermState {
    TermState {
        rows,
        cols,
        grid: blank_rows(rows as nat, cols as nat),
        alt_grid: blank_rows(rows as nat, cols as nat),
        scrollback: Seq::empty(),
        cursor: origin_cursor(),
        saved_cursor: origin_cursor(),
        alt_cursor: origin_cursor(),
        modes: default_modes(),
        cursor_style: CursorStyle::Block,
        scroll_top: 0,
        scroll_bottom: sat_dec(rows),
        fg_color: rgb(0xcc, 0xcc, 0xcc),
        bg_color: rgb(0, 0, 0),
        bold: false,
        italic: false,
        underline: false,
        strikethrough: false,
        inverse: false,
        foreground: rgb(0xcc, 0xcc, 0xcc),
        background: rgb(0, 0, 0),
        palette,
        tab_stops: default_tab_stops(cols as nat),
        title: Seq::empty(),
        dirty: true,
    }
}

impl TermState {
    pub open spec fn set_cursor_ok(self, y: usize) -> bool {
        self.modes.origin ==> self.scroll_top + y <= usize::MAX
    }

    /// Move the cursor to column `x` and line `y` (counted from the top of the
    /// scroll region in origin mode), kept on the screen.
    pub open spec fn set_cursor(self, x: usize, y: usize) -> TermState {
        let nx = min_usize(x, sat_dec(self.cols));
        let ny = if self.modes.origin {
            min_u(self.scroll_top + y, self.scroll_bottom as int) as usize
        } else {
            min_usize(y, sat_dec(self.rows))
        };
        self.with_xy(nx, ny)
    }

    /// Move to the one-based column `x`.
    pub open spec fn set_cursor_column(self, x: i64) -> TermState {
        self.with_x(
            min_usize(sat_dec(clamp_count(x)), sat_dec(self.cols)),
        )
    }

    pub open spec fn set_cursor_row_ok(self, y: i64) -> bool {
        if self.modes.origin {
            1 <= self.scroll_top + clamp_count(y) <= usize::MAX
        } else {
            clamp_count(y) >= 1
        }
    }

    /// Move to the one-based line `y` (counted from the top of the scroll
    /// region in origin mode).
    pub open spec fn set_cursor_row(self, y: i64) -> TermState {
        let n = clamp_count(y) as int;
        if self.modes.origin {
            self.with_y(min_u(self.scroll_top + n - 1, self.scroll_bottom as int) as usize)
        } else {
            self.with_y(min_u(n - 1, sat_dec(self.rows) as int) as usize)
        }
    }

    pub open spec fn move_cursor_up(self, count: i64) -> TermState {
        let y = sat_sub(self.cursor.y, clamp_count(count));
        if self.modes.origin {
            self.with_y(if y < self.scroll_top { self.scroll_top } else { y })
        } else {
            self.with_y(y)
        }
    }

    pub open spec fn move_cursor_down_ok(self, count: i64) -> bool {
        self.cursor.y + clamp_count(count) <= usize::MAX
    }

    pub open spec fn move_cursor_down(self, count: i64) -> TermState {
        let y = self.cursor.y + clamp_count(count);
        if self.modes.origin {
            self.with_y(min_u(y, self.scroll_bottom as int) as usize)
        } else {
            self.with_y(min_u(y, sat_dec(self.rows) as int) as usize)
        }
    }

    pub open spec fn move_cursor_forward_ok(self, count: i64) -> bool {
        self.cursor.x + clamp_count(count) <= usize::MAX
    }

    pub open spec fn move_cursor_forward(self, count: i64) -> TermState {
        self.with_x(
            min_u(self.cursor.x + clamp_count(count), sat_dec(self.cols) as int) as usize,
        )
    }

    pub open spec fn move_cursor_backward(self, count: i64) -> TermState {
        self.with_x(sat_sub(self.cursor.x, clamp_count(count)))
    }

    /// Set the scroll region to the one-based lines `top` to `bottom`, kept on
    /// the screen and put in order.
    pub open spec fn set_scroll_region(self, top: i64, bottom: i64) -> TermState {
        let t = min_usize(sat_dec(clamp_count(top)), sat_dec(self.rows));
        let b = min_usize(sat_dec(clamp_count(bottom)), sat_dec(self.rows));
        if b < t {
            TermState { scroll_top: b, scroll_bottom: t, ..self }
        } else {
            TermState { scroll_top: t, scroll_bottom: b, ..self }
        }
    }

    /// Remember the cursor: in its own slot for the alternate screen.
    pub open spec fn save_cursor(self) -> TermState {
        if self.modes.alt_screen {
            TermState { alt_cursor: self.cursor, ..self }
        } else {
            TermState { saved_cursor: self.cursor, ..self }
        }
    }

    /// `c` moved onto the screen.
    pub open spec fn clamp_cursor(self, c: Cursor) -> Cursor {
        Cursor {
            x: min_usize(c.x, sat_dec(self.cols)),
            y: min_usize(c.y, sat_dec(self.rows)),
            visible: c.visible,
        }
    }

    pub open spec fn restore_cursor(self) -> TermState {
        let saved = if self.modes.alt_screen { self.alt_cursor } else { self.saved_cursor };
        self.with_cursor(self.clamp_cursor(saved))
    }

    pub open spec fn with_modes(self, m: TerminalModes) -> TermState {
        TermState { modes: m, ..self }
    }

    pub open spec fn switch_to_alt_screen(self) -> TermState {
        TermState {
            alt_cursor: self.cursor,
            cursor: origin_cursor(),
            modes: TerminalModes { alt_screen: true, ..self.modes },
            ..self
        }
    }

    pub open spec fn switch_to_primary_screen(self) -> TermState {
        TermState {
            modes: TerminalModes { alt_screen: false, ..self.modes },
            cursor: self.clamp_cursor(self.alt_cursor),
            ..self
        }
    }

    /// The modes after setting (`set`) or resetting the flag with the number
    /// `mode`; numbers of no flag leave them as they are.
    pub open spec fn modes_after(m: TerminalModes, mode: i64, set: bool) -> TerminalModes {
        if mode == 4 {
            TerminalModes { insert: set, ..m }
        } else if mode == 7 {
            TerminalModes { auto_wrap: set, ..m }
        } else if mode == 20 {
            TerminalModes { application_cursor: set, ..m }
        } else if mode == 1000 {
            TerminalModes { mouse_tracking: set, ..m }
        } else if mode == 1002 {
            TerminalModes { mouse_motion_tracking: set, ..m }
        } else if mode == 1004 {
            TerminalModes { focus_events: set, ..m }
        } else if mode == 2004 {
            TerminalModes { bracketed_paste: set, ..m }
        } else {
            m
        }
    }

    /// Set (`set`) or reset a mode given by its number.
    pub open spec fn set_mode(self, mode: i64, set: bool) -> TermState {
        if mode == 12 {
            TermState {
                cursor_style: if set { CursorStyle::BlinkingBlock } else { CursorStyle::Block },
                ..self
            }
        } else if mode == 25 {
            self.with_cursor(Cursor { visible: set, ..self.cursor })
        } else if mode == 47 || mode == 1047 || mode == 1049 {
            if set && !self.modes.alt_screen {
                self.switch_to_alt_screen()
            } else if !set && self.modes.alt_screen {
                self.switch_to_primary_screen()
            } else {
                self
            }
        } else {
            self.with_modes(Self::modes_after(self.modes, mode, set))
        }
    }

    pub open spec fn reset_attributes(self) -> TermState {
        TermState {
            fg_color: self.foreground,
            bg_color: self.background,
            bold: false,
            italic: false,
            underline: false,
            strikethrough: false,
            inverse: false,
            ..self
        }
    }

    pub open spec fn set_tab_stop(self) -> TermState {
        if self.cursor.x < self.tab_stops.len() {
            TermState { tab_stops: self.tab_stops.update(self.cursor.x as int, true), ..self }
        } else {
            self
        }
    }

    /// Clear the tab stop at the cursor (mode 0) or all of them (mode 3).
    pub open spec fn clear_tab_stop(self, mode: i64) -> TermState {
        if mode == 0 && self.cursor.x < self.tab_stops.len() {
            TermState { tab_stops: self.tab_stops.update(self.cursor.x as int, false), ..self }
        } else if mode == 3 {
            TermState { tab_stops: Seq::new(self.tab_stops.len(), |i: int| false), ..self }
        } else {
            self
        }
    }

    /// The state after a change of size to `rows` by `cols`: the content that
    /// still fits stays in place, the alternate screen is cleared, the scroll
    /// region's bottom goes to the last line and the cursor is kept on screen.
    pub open spec fn resize(self, rows: usize, cols: usize) -> TermState {
        if rows == self.rows && cols == self.cols {
            self
        } else {
            TermState {
                rows,
                cols,
                grid: Seq::new(
                    rows as nat,
                    |y: int|
                        Seq::new(
                            cols as nat,
                            |x: int|
                                if y < self.rows && x < self.cols {
                                    self.grid[y][x]
                                } else {
                                    blank_cell()
                                },
                        ),
                ),
                alt_grid: blank_rows(rows as nat, cols as nat),
                scroll_bottom: sat_dec(rows),
                cursor: Cursor {
                    x: min_usize(self.cursor.x, sat_dec(cols)),
                    y: min_usize(self.cursor.y, sat_dec(rows)),
                    visible: self.cursor.visible,
                },
                tab_stops: default_tab_stops(cols as nat),
                dirty: true,
                ..self
            }
        }
    }
}


/// Appending lines one at a time, dropping the oldest line whenever the
/// scrollback is full, keeps the newest `SCROLLBACK_LINES` lines.
pub proof fn lemma_append_bounded_step(sb: Seq<Seq<Cell>>, lines: Seq<Seq<Cell>>, line: Seq<Cell>)
    requires
        sb.len() <= SCROLLBACK_LINES,
    ensures
        append_bounded(sb, lines).len() <= SCROLLBACK_LINES,
        append_bounded(sb, lines.push(line)) == ({
            let q = append_bounded(sb, lines);
            if q.len() >= SCROLLBACK_LINES {
                q.subrange(1, q.len() as int).push(line)
            } else {
                q.push(line)
            }
        }),
{
    let all = sb + lines;
    let q = append_bounded(sb, lines);
    assert(sb + lines.push(line) =~= all.push(line));
    if q.len() >= SCROLLBACK_LINES {
        assert(append_bounded(sb, lines.push(line)) =~= q.subrange(1, q.len() as int).push(line));
    } else {
        assert(append_bounded(sb, lines.push(line)) =~= q.push(line));
    }
}

} // verus!
