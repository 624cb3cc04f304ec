//! The terminal: a grid of cells, a cursor, and the operations that control
//! sequences perform on them.

use vstd::prelude::*;
use std::collections::VecDeque;
use crate::model::{
    rows_view, lemma_rows_view_len, lemma_rows_view_index,
    TermState, SCROLLBACK_LINES, append_bounded, grid_shape, blank_cell, clear_span, lemma_append_bounded_step, sat_dec, blank_row, blank_rows, default_modes,
    default_tab_stops, initial_state, origin_cursor, rgb, clamp_count, min_usize,
};

verus! {

/// A colour given by its red, green and blue components.
#[derive(Clone, Copy, Debug)]
pub struct Rgb {
    pub r: u8,
    pub g: u8,
    pub b: u8,
}

impl Rgb {
    pub fn new(r: u8, g: u8, b: u8) -> (c: Rgb)
        ensures
            c == rgb(r, g, b),
    {
        Rgb { r, g, b }
    }
}

/// One position of the grid: a character with its colours and attributes.
#[derive(Clone, Copy, Debug)]
pub struct Cell {
    pub ch: char,
    pub fg: Rgb,
    pub bg: Rgb,
    pub bold: bool,
    pub italic: bool,
    pub underline: bool,
    pub strikethrough: bool,
    pub inverse: bool,
    pub blank: bool,
    pub is_wide: bool,
    pub is_wide_continuation: bool,
}

impl Default for Cell {
    fn default() -> (c: Cell)
        ensures
            c == blank_cell(),
    {
        Cell {
            ch: ' ',
            fg: Rgb::new(0, 0, 0),
            bg: Rgb::new(0, 0, 0),
            bold: false,
            italic: false,
            underline: false,
            strikethrough: false,
            inverse: false,
            blank: true,
            is_wide: false,
            is_wide_continuation: false,
        }
    }
}

/// The cursor position, zero-based, and whether it is shown.
#[derive(Clone, Copy, Debug)]
pub struct Cursor {
    pub x: usize,
    pub y: usize,
    pub visible: bool,
}

impl Default for Cursor {
    fn default() -> (c: Cursor)
        ensures
            c == origin_cursor(),
    {
        Cursor { x: 0, y: 0, visible: false }
    }
}

/// The shape of the cursor.
#[derive(Clone, Copy, Debug)]
pub enum CursorStyle {
    Block,
    Underline,
    BlinkingBlock,
    BlinkingUnderline,
    Bar,
    BlinkingBar,
}

impl Default for CursorStyle {
    fn default() -> (s: CursorStyle)
        ensures
            s == CursorStyle::Block,
    {
        CursorStyle::Block
    }
}

/// The modes that control sequences switch on and off.
#[derive(Clone, Copy, Debug)]
pub struct TerminalModes {
    pub insert: bool,
    pub auto_wrap: bool,
    pub reverse_video: bool,
    pub origin: bool,
    pub application_cursor: bool,
    pub bracketed_paste: bool,
    pub alt_screen: bool,
    pub mouse_tracking: bool,
    pub mouse_motion_tracking: bool,
    pub focus_events: bool,
}

impl Default for TerminalModes {
    fn default() -> (m: TerminalModes)
        ensures
            m == default_modes(),
    {
        TerminalModes {
            insert: false,
            auto_wrap: true,
            origin: false,
            reverse_video: false,
            application_cursor: false,
            bracketed_paste: false,
            alt_screen: false,
            mouse_tracking: false,
            mouse_motion_tracking: false,
            focus_events: false,
        }
    }
}

pub struct Terminal {
    rows: usize,
    cols: usize,
    grid: Vec<Vec<Cell>>,
    alt_grid: Vec<Vec<Cell>>,
    scrollback: VecDeque<Vec<Cell>>,
    cursor: Cursor,
    saved_cursor: Cursor,
    alt_cursor: Cursor,
    modes: TerminalModes,
    cursor_style: CursorStyle,
    scroll_top: usize,
    scroll_bottom: usize,
    fg_color: Rgb,
    bg_color: Rgb,
    bold: bool,
    italic: bool,
    underline: bool,
    strikethrough: bool,
    inverse: bool,
    foreground: Rgb,
    background: Rgb,
    color_palette: [[u8; 3]; 16],
    tab_stops: Vec<bool>,
    title: String,
    dirty: bool,
}

impl View for Terminal {
    type V = TermState;

    closed spec fn view(&self) -> TermState {
        TermState {
            rows: self.rows,
            cols: self.cols,
            grid: rows_view(self.grid@),
            alt_grid: rows_view(self.alt_grid@),
            scrollback: rows_view(self.scrollback@),
            cursor: self.cursor,
            saved_cursor: self.saved_cursor,
            alt_cursor: self.alt_cursor,
            modes: self.modes,
            cursor_style: self.cursor_style,
            scroll_top: self.scroll_top,
            scroll_bottom: self.scroll_bottom,
            fg_color: self.fg_color,
            bg_color: self.bg_color,
            bold: self.bold,
            italic: self.italic,
            underline: self.underline,
            strikethrough: self.strikethrough,
            inverse: self.inverse,
            foreground: self.foreground,
            background: self.background,
            palette: self.color_palette,
            tab_stops: self.tab_stops@,
            title: self.title@,
            dirty: self.dirty,
        }
    }
}

/// A row of `cols` blank cells.
fn blank_line(cols: usize) -> (row: Vec<Cell>)
    ensures
        row@ == blank_row(cols as nat),
{
    let mut row: Vec<Cell> = Vec::with_capacity(cols);
    for i in 0..cols
        invariant
            row@ == blank_row(i as nat),
    {
        row.push(Cell::default());
        assert(row@ =~= blank_row((i + 1) as nat));
    }
    row
}

/// The tab stops of a fresh line: one every eight columns.
fn default_stops(cols: usize) -> (stops: Vec<bool>)
    ensures
        stops@ == default_tab_stops(cols as nat),
{
    let mut stops: Vec<bool> = Vec::with_capacity(cols);
    for i in 0..cols
        invariant
            stops@ == default_tab_stops(i as nat),
    {
        stops.push(i % 8 == 0);
        assert(stops@ =~= default_tab_stops((i + 1) as nat));
    }
    stops
}


broadcast use {lemma_rows_view_len, lemma_rows_view_index};

proof fn lemma_rows_view_update(g: Seq<Vec<Cell>>, i: int, r: Vec<Cell>)
    requires
        0 <= i < g.len(),
    ensures
        rows_view(g.update(i, r)) == rows_view(g).update(i, r@),
{
    assert(rows_view(g.update(i, r)) =~= rows_view(g).update(i, r@));
}

proof fn lemma_rows_view_remove(g: Seq<Vec<Cell>>, i: int)
    requires
        0 <= i < g.len(),
    ensures
        rows_view(g.remove(i)) == rows_view(g).remove(i),
{
    assert(rows_view(g.remove(i)) =~= rows_view(g).remove(i));
}

proof fn lemma_rows_view_insert(g: Seq<Vec<Cell>>, i: int, r: Vec<Cell>)
    requires
        0 <= i <= g.len(),
    ensures
        rows_view(g.insert(i, r)) == rows_view(g).insert(i, r@),
{
    assert(rows_view(g.insert(i, r)) =~= rows_view(g).insert(i, r@));
}

proof fn lemma_rows_view_push(g: Seq<Vec<Cell>>, r: Vec<Cell>)
    ensures
        rows_view(g.push(r)) == rows_view(g).push(r@),
{
    assert(rows_view(g.push(r)) =~= rows_view(g).push(r@));
}

/// Clear the cells `lo <= x < hi` of `row`.
fn clear_cells(row: &mut Vec<Cell>, lo: usize, hi: usize)
    requires
        hi <= old(row)@.len(),
    ensures
        final(row)@ == clear_span(old(row)@, lo as int, hi as int),
{
    let ghost orig = row@;
    let mut x = lo;
    while x < hi
        invariant
            lo <= x,
            x <= hi || x == lo,
            hi <= row@.len(),
            row@.len() == orig.len(),
            forall|i: int|
                0 <= i < row@.len() ==> #[trigger] row@[i] == (if lo <= i < x {
                    blank_cell()
                } else {
                    orig[i]
                }),
        decreases hi - x,
    {
        row[x] = Cell::default();
        x = x + 1;
    }
    assert(row@ =~= clear_span(orig, lo as int, hi as int));
}

/// Move the cells from `at` on one place right, within the first `cols`
/// cells; the last one drops off.
fn shift_cells_right(row: &mut Vec<Cell>, at: usize, cols: usize)
    requires
        cols == old(row)@.len(),
    ensures
        final(row)@ == TermState::shift_right(old(row)@, at as int),
{
    let ghost orig = row@;
    let last = less_one(cols);
    let mut x = last;
    while x > at
        invariant
            cols == row@.len(),
            row@.len() == orig.len(),
            last == sat_dec(cols),
            x <= last,
            at <= x || x == last,
            forall|i: int|
                0 <= i < row@.len() ==> #[trigger] row@[i] == (if x < i <= last {
                    orig[i - 1]
                } else {
                    orig[i]
                }),
        decreases x,
    {
        x = x - 1;
        row[x + 1] = row[x];
    }
    assert(row@ =~= TermState::shift_right(orig, at as int));
}

/// Remove `n` cells at `at`: the cells after them move left and blanks fill
/// the end of the first `cols` cells.
fn delete_cells(row: &mut Vec<Cell>, at: usize, n: usize, cols: usize)
    requires
        cols == old(row)@.len(),
    ensures
        final(row)@ == Seq::new(
            old(row)@.len(),
            |i: int|
                if i < at {
                    old(row)@[i]
                } else if i + n < cols {
                    old(row)@[i + n]
                } else {
                    blank_cell()
                },
        ),
{
    let ghost orig = row@;
    let mut x = at;
    while x < cols
        invariant
            cols == row@.len(),
            row@.len() == orig.len(),
            at <= x,
            x <= cols || x == at,
            forall|i: int|
                0 <= i < row@.len() ==> #[trigger] row@[i] == (if i < at || x <= i {
                    orig[i]
                } else if i + n < cols {
                    orig[i + n]
                } else {
                    blank_cell()
                }),
        decreases cols - x,
    {
        if n < cols - x {
            row[x] = row[x + n];
        } else {
            row[x] = Cell::default();
        }
        x = x + 1;
    }
    assert(row@ =~= Seq::new(
        orig.len(),
        |i: int|
            if i < at {
                orig[i]
            } else if i + n < cols {
                orig[i + n]
            } else {
                blank_cell()
            },
    ));
}

/// Insert `n` blanks at `at`: the cells from there move right and the last
/// ones drop off.
fn insert_cells(row: &mut Vec<Cell>, at: usize, n: usize, cols: usize)
    requires
        cols == old(row)@.len(),
        n <= cols,
        at + n <= usize::MAX,
    ensures
        final(row)@ == Seq::new(
            old(row)@.len(),
            |i: int|
                if i < at {
                    old(row)@[i]
                } else if i < at + n {
                    blank_cell()
                } else {
                    old(row)@[i - n]
                },
        ),
{
    let ghost orig = row@;
    let end = cols - n;
    if at < end {
        let mut x = end;
        while x > at
            invariant
                cols == row@.len(),
                row@.len() == orig.len(),
                end == cols - n,
                at <= x <= end,
                forall|i: int|
                    0 <= i < row@.len() ==> #[trigger] row@[i] == (if x + n <= i {
                        orig[i - n]
                    } else {
                        orig[i]
                    }),
            decreases x,
        {
            x = x - 1;
            row[x + n] = row[x];
        }
    }
    let stop = if at + n < cols { at + n } else { cols };
    let ghost moved = row@;
    assert(forall|i: int|
        0 <= i < row@.len() ==> #[trigger] row@[i] == (if at + n <= i {
            orig[i - n]
        } else {
            orig[i]
        }));
    clear_cells(row, at, stop);
    assert(row@ =~= Seq::new(
        orig.len(),
        |i: int|
            if i < at {
                orig[i]
            } else if i < at + n {
                blank_cell()
            } else {
                orig[i - n]
            },
    ));
}

/// Insert `n` blank lines at line `at`, removing as many at line `bottom`
/// first each time, so the lines below `bottom` stay in place.
fn open_region_lines(grid: &mut Vec<Vec<Cell>>, at: usize, bottom: usize, n: usize, cols: usize)
    requires
        at <= bottom < old(grid)@.len(),
        n <= bottom - at + 1,
    ensures
        rows_view(final(grid)@) == TermState::open_lines(
            rows_view(old(grid)@),
            at as int,
            bottom as int,
            n as int,
            cols as nat,
        ),
{
    let ghost g = rows_view(grid@);
    let mut k: usize = 0;
    while k < n
        invariant
            at <= bottom < g.len(),
            n <= bottom - at + 1,
            k <= n,
            rows_view(grid@) == TermState::open_lines(g, at as int, bottom as int, k as int, cols as nat),
        decreases n - k,
    {
        let ghost before = grid@;
        assert(TermState::open_lines(g, at as int, bottom as int, k as int, cols as nat).len() == g.len());
        assert(rows_view(grid@).len() == grid@.len());
        let _ = grid.remove(bottom);
        proof {
            lemma_rows_view_remove(before, bottom as int);
        }
        let ghost mid = grid@;
        let line = blank_line(cols);
        grid.insert(at, line);
        proof {
            lemma_rows_view_insert(mid, at as int, line);
            assert(rows_view(grid@) =~= TermState::open_lines(
                g,
                at as int,
                bottom as int,
                (k + 1) as int,
                cols as nat,
            ));
        }
        k = k + 1;
    }
}

/// Append `lines` to the scrollback one at a time, dropping the oldest line
/// whenever it is full.
fn push_to_scrollback(sb: &mut VecDeque<Vec<Cell>>, lines: Vec<Vec<Cell>>)
    requires
        old(sb)@.len() <= SCROLLBACK_LINES,
    ensures
        rows_view(final(sb)@) == append_bounded(rows_view(old(sb)@), rows_view(lines@)),
{
    let ghost sb0 = rows_view(sb@);
    let ghost all = rows_view(lines@);
    let ghost n = all.len() as int;
    let mut lines = lines;
    while lines.len() > 0
        invariant
            sb0.len() <= SCROLLBACK_LINES,
            all.len() == n,
            0 <= lines@.len() <= n,
            rows_view(lines@) == all.subrange(n - lines@.len(), n),
            rows_view(sb@) == append_bounded(sb0, all.subrange(0, n - lines@.len())),
        decreases lines@.len(),
    {
        let ghost k = n - lines@.len();
        let ghost before = lines@;
        let row = lines.remove(0);
        proof {
            lemma_rows_view_remove(before, 0);
            assert(rows_view(lines@) =~= all.subrange(k + 1, n));
            assert(row@ == rows_view(before)[0]);
            assert(row@ == all[k]);
            lemma_append_bounded_step(sb0, all.subrange(0, k), row@);
            assert(all.subrange(0, k).push(row@) =~= all.subrange(0, k + 1));
        }
        let ghost sb_before = sb@;
        if sb.len() >= SCROLLBACK_LINES {
            let _ = sb.pop_front();
            proof {
                assert(rows_view(sb@) =~= rows_view(sb_before).subrange(1, sb_before.len() as int));
            }
        }
        let ghost sb_mid = sb@;
        sb.push_back(row);
        proof {
            lemma_rows_view_push(sb_mid, row);
        }
    }
    assert(all.subrange(0, n) =~= all);
}

/// Remove the `n` lines at line `at` and insert `n` blank lines at line
/// `bottom` of what is left; the removed lines are returned in order.
fn close_region_lines(
    grid: &mut Vec<Vec<Cell>>,
    at: usize,
    bottom: usize,
    n: usize,
    cols: usize,
) -> (removed: Vec<Vec<Cell>>)
    requires
        at + n <= old(grid)@.len(),
        bottom + n <= old(grid)@.len(),
    ensures
        rows_view(final(grid)@) == TermState::close_lines(
            rows_view(old(grid)@),
            at as int,
            bottom as int,
            n as int,
            cols as nat,
        ),
        rows_view(removed@) == rows_view(old(grid)@).subrange(at as int, at + n),
{
    let ghost g = rows_view(grid@);
    let ghost g1 = g.subrange(0, at as int) + g.subrange(at + n, g.len() as int);
    let mut removed: Vec<Vec<Cell>> = Vec::with_capacity(n);
    let mut k: usize = 0;
    while k < n
        invariant
            at + n <= g.len(),
            k <= n,
            rows_view(grid@) == g.subrange(0, at as int) + g.subrange(at + k, g.len() as int),
            rows_view(removed@) == g.subrange(at as int, at + k),
        decreases n - k,
    {
        let ghost before = grid@;
        assert(rows_view(before).len() == g.len() - k);
        let r = grid.remove(at);
        proof {
            lemma_rows_view_remove(before, at as int);
            assert(r@ == rows_view(before)[at as int]);
            assert(r@ == g[at + k]);
        }
        let ghost rm_before = removed@;
        removed.push(r);
        proof {
            lemma_rows_view_push(rm_before, r);
            assert(rows_view(grid@) =~= g.subrange(0, at as int) + g.subrange(
                at + k + 1,
                g.len() as int,
            ));
            assert(rows_view(removed@) =~= g.subrange(at as int, at + k + 1));
        }
        k = k + 1;
    }
    assert(rows_view(grid@) =~= g1);
    k = 0;
    while k < n
        invariant
            bottom + n <= g.len(),
            g1.len() == g.len() - n,
            k <= n,
            rows_view(grid@) == g1.subrange(0, bottom as int) + blank_rows(k as nat, cols as nat)
                + g1.subrange(bottom as int, g1.len() as int),
        decreases n - k,
    {
        let ghost before = grid@;
        assert(rows_view(before).len() == g1.len() + k);
        let line = blank_line(cols);
        grid.insert(bottom, line);
        proof {
            lemma_rows_view_insert(before, bottom as int, line);
            assert(rows_view(grid@) =~= g1.subrange(0, bottom as int) + blank_rows(
                (k + 1) as nat,
                cols as nat,
            ) + g1.subrange(bottom as int, g1.len() as int));
        }
        k = k + 1;
    }
    removed
}

/// `modes` with the flag numbered `mode` set to `set`.
fn modes_with_flag(modes: TerminalModes, mode: i64, set: bool) -> (m: TerminalModes)
    ensures
        m == TermState::modes_after(modes, mode, set),
{
    let mut m = modes;
    match mode {
        4 => m.insert = set,
        7 => m.auto_wrap = set,
        20 => m.application_cursor = set,
        1000 => m.mouse_tracking = set,
        1002 => m.mouse_motion_tracking = set,
        1004 => m.focus_events = set,
        2004 => m.bracketed_paste = set,
        _ => {},
    }
    m
}

/// The smaller of `a` and `b`.
fn smaller(a: usize, b: usize) -> (m: usize)
    ensures
        m == min_usize(a, b),
{
    if a < b { a } else { b }
}

/// `n - 1`, or `0` when `n` is `0`.
fn less_one(n: usize) -> (m: usize)
    ensures
        m == sat_dec(n),
{
    n.saturating_sub(1)
}

/// A count parameter of a control sequence: values below one count as one.
fn count_param(v: i64) -> (n: usize)
    ensures
        n == clamp_count(v),
{
    if v < 1 { 1 } else { v as usize }
}

/// `modes` with the alternate screen shown when `alt` holds.
fn modes_with_screen(modes: TerminalModes, alt: bool) -> (m: TerminalModes)
    ensures
        m == (TerminalModes { alt_screen: alt, ..modes }),
{
    let mut m = modes;
    m.alt_screen = alt;
    m
}

impl Terminal {
    /// The invariant of every terminal.
    pub open spec fn wf(&self) -> bool {
        self@.wf()
    }

    pub fn new(rows: usize, cols: usize, color_palette: [[u8; 3]; 16]) -> (t: Terminal)
        ensures
            t@ == initial_state(rows, cols, color_palette),
            t.wf(),
    {
        let grid = Self::alloc_grid(rows, cols);
        let alt_grid = Self::alloc_grid(rows, cols);
        let tab_stops = default_stops(cols);
        let t = Terminal {
            rows,
            cols,
            grid,
            alt_grid,
            scrollback: VecDeque::with_capacity(SCROLLBACK_LINES),
            cursor: Cursor::default(),
            saved_cursor: Cursor::default(),
            alt_cursor: Cursor::default(),
            modes: TerminalModes::default(),
            cursor_style: CursorStyle::default(),
            scroll_top: 0,
            scroll_bottom: if rows == 0 { 0 } else { rows - 1 },
            fg_color: Rgb::new(0xcc, 0xcc, 0xcc),
            bg_color: Rgb::new(0, 0, 0),
            bold: false,
            italic: false,
            underline: false,
            strikethrough: false,
            inverse: false,
            foreground: Rgb::new(0xcc, 0xcc, 0xcc),
            background: Rgb::new(0, 0, 0),
            color_palette,
            tab_stops,
            title: String::new(),
            dirty: true,
        };
        assert(t@.scrollback =~= Seq::empty());
        assert(t@ =~= initial_state(rows, cols, color_palette));
        t
    }

    /// A grid of `rows` rows of `cols` blank cells.
    fn alloc_grid(rows: usize, cols: usize) -> (g: Vec<Vec<Cell>>)
        ensures
            rows_view(g@) == blank_rows(rows as nat, cols as nat),
    {
        let mut g: Vec<Vec<Cell>> = Vec::with_capacity(rows);
        for i in 0..rows
            invariant
                rows_view(g@) == blank_rows(i as nat, cols as nat),
        {
            let row = blank_line(cols);
            let ghost prev = g@;
            assert(rows_view(prev).len() == i);
            g.push(row);
            proof {
                lemma_rows_view_push(prev, row);
            }
            assert(rows_view(g@) =~= blank_rows((i + 1) as nat, cols as nat));
        }
        assert(rows_view(g@) =~= blank_rows(rows as nat, cols as nat));
        g
    }

    pub fn rows(&self) -> (r: usize)
        ensures
            r == self@.rows,
    {
        self.rows
    }

    pub fn cols(&self) -> (c: usize)
        ensures
            c == self@.cols,
    {
        self.cols
    }

    pub fn cursor(&self) -> (c: Cursor)
        ensures
            c == self@.cursor,
    {
        self.cursor
    }

    pub fn cursor_style(&self) -> (s: CursorStyle)
        ensures
            s == self@.cursor_style,
    {
        self.cursor_style
    }

    pub fn modes(&self) -> (m: TerminalModes)
        ensures
            m == self@.modes,
    {
        self.modes
    }

    pub fn title(&self) -> (t: &str)
        ensures
            t@ == self@.title,
    {
        self.title.as_str()
    }

    pub fn is_dirty(&self) -> (d: bool)
        ensures
            d == self@.dirty,
    {
        self.dirty
    }

    /// The screen that is shown.
    pub fn grid(&self) -> (g: &Vec<Vec<Cell>>)
        ensures
            rows_view(g@) == self@.screen(),
    {
        if self.modes.alt_screen {
            &self.alt_grid
        } else {
            &self.grid
        }
    }

    /// The shown screen, for changing it; the terminal counts as changed.
    fn grid_mut(&mut self) -> (g: &mut Vec<Vec<Cell>>)
        ensures
            rows_view((*g)@) == old(self)@.screen(),
            final(self)@ == old(self)@.with_screen(rows_view((*final(g))@)),
    {
        self.dirty = true;
        if self.modes.alt_screen {
            &mut self.alt_grid
        } else {
            &mut self.grid
        }
    }


    #[allow(dead_code)]
    fn cell_at(&self, x: usize, y: usize) -> (c: &Cell)
        requires
            y < self@.screen().len(),
            x < self@.screen()[y as int].len(),
        ensures
            *c == self@.screen()[y as int][x as int],
    {
        &self.grid()[y][x]
    }

    fn cell_at_mut(&mut self, x: usize, y: usize) -> (c: &mut Cell)
        requires
            y < old(self)@.screen().len(),
            x < old(self)@.screen()[y as int].len(),
        ensures
            *c == old(self)@.screen()[y as int][x as int],
            final(self)@ == old(self)@.with_screen(
                old(self)@.screen().update(
                    y as int,
                    old(self)@.screen()[y as int].update(x as int, *final(c)),
                ),
            ),
    {
        let grid = self.grid_mut();
        proof {
            assert(rows_view(grid@)[y as int] == grid@[y as int]@);
        }
        &mut grid[y][x]
    }

    fn is_inside_scroll_region(&self, y: usize) -> (b: bool)
        ensures
            b == self@.in_region(y),
    {
        y >= self.scroll_top && y <= self.scroll_bottom
    }

    /// Scroll the region up by `count` lines, the lines that leave it going
    /// to the scrollback.
    #[verifier::rlimit(30)]
    fn scroll_up(&mut self, count: usize)
        requires
            old(self).wf(),
            old(self)@.scroll_up_ok(count),
        ensures
            final(self).wf(),
            final(self)@ == old(self)@.scrolled_up(count),
    {
        let scroll_top = self.scroll_top;
        let scroll_bottom = self.scroll_bottom;
        let cols = self.cols;
        let rows = self.rows;
        let region = scroll_bottom - scroll_top + 1;
        let count = smaller(count, region);
        if count == 0 {
            return;
        }
        let ghost s0 = self@;
        let ghost g = s0.screen();
        let ghost t = scroll_top as int;
        let ghost b = scroll_bottom as int;
        let ghost n = count as int;
        let removed_rows = {
            let grid = self.grid_mut();
            let ghost g0 = grid@;
            let removed = close_region_lines(grid, scroll_top, scroll_bottom, count, cols);
            let ghost before = grid@;
            proof {
                let g1 = g.subrange(0, t) + g.subrange(t + n, g.len() as int);
                assert(g1.len() == g.len() - n);
                assert(rows_view(before).len() == g.len());
            }
            grid.truncate(rows);
            proof {
                assert(before.subrange(0, rows as int) =~= before);
            }
            removed
        };
        push_to_scrollback(&mut self.scrollback, removed_rows);
        assert(self@ =~= s0.scrolled_up(count));
    }

    /// Scroll the region down by `count` lines, blank lines coming in at its top.
    fn scroll_down(&mut self, count: usize)
        requires
            old(self).wf(),
            old(self)@.scroll_down_ok(count),
        ensures
            final(self).wf(),
            final(self)@ == old(self)@.scrolled_down(count),
    {
        let scroll_top = self.scroll_top;
        let scroll_bottom = self.scroll_bottom;
        let cols = self.cols;
        let rows = self.rows;
        let region = scroll_bottom - scroll_top + 1;
        let count = smaller(count, region);
        if count == 0 {
            return;
        }
        let ghost s0 = self@;
        let grid = self.grid_mut();
        open_region_lines(grid, scroll_top, scroll_bottom, count, cols);
        let ghost before = grid@;
        assert(rows_view(before).len() == rows);
        grid.truncate(rows);
        proof {
            assert(before.subrange(0, rows as int) =~= before);
        }
    }

    /// Line feed: down one line (scrolling at the bottom of the region) and
    /// back to the first column.
    pub fn newline(&mut self)
        requires
            old(self).wf(),
            old(self)@.newline_ok(),
        ensures
            final(self).wf(),
            final(self)@ == old(self)@.newline(),
    {
        if self.cursor.y >= self.scroll_bottom {
            self.scroll_up(1);
        } else {
            self.cursor.y += 1;
        }
        self.cursor.x = 0;
    }

    pub fn carriage_return(&mut self)
        requires
            old(self).wf(),
        ensures
            final(self).wf(),
            final(self)@ == old(self)@.carriage_return(),
    {
        self.cursor.x = 0;
    }

    pub fn backspace(&mut self)
        requires
            old(self).wf(),
        ensures
            final(self).wf(),
            final(self)@ == old(self)@.backspace(),
    {
        if self.cursor.x > 0 {
            self.cursor.x -= 1;
        }
    }

    /// Move to the next tab stop, or to the last column when none comes first.
    pub fn tab(&mut self)
        requires
            old(self).wf(),
        ensures
            final(self).wf(),
            final(self)@ == old(self)@.tab(),
    {
        let ghost s0 = self@;
        let last = less_one(self.cols);
        let ghost x0 = self.cursor.x as int;
        let mut x = self.cursor.x;
        loop
            invariant_except_break
                x <= last,
                last == sat_dec(s0.cols),
                self@ == s0,
                TermState::next_tab(s0.tab_stops, x as int, last as int) == TermState::next_tab(
                    s0.tab_stops,
                    x0,
                    last as int,
                ),
            ensures
                x as int == TermState::next_tab(s0.tab_stops, x0, last as int),
                x <= last,
                self@ == s0,
            decreases last - x,
        {
            if x >= last {
                break;
            }
            x += 1;
            if x < self.tab_stops.len() && self.tab_stops[x] {
                break;
            }
        }
        self.cursor.x = x;
    }

    pub fn reverse_index(&mut self)
        requires
            old(self).wf(),
            old(self)@.reverse_index_ok(),
        ensures
            final(self).wf(),
            final(self)@ == old(self)@.reverse_index(),
    {
        if self.cursor.y == self.scroll_top {
            self.scroll_down(1);
        } else if self.cursor.y > 0 {
            self.cursor.y -= 1;
        }
    }

    pub fn index(&mut self)
        requires
            old(self).wf(),
            old(self)@.index_ok(),
        ensures
            final(self).wf(),
            final(self)@ == old(self)@.index(),
    {
        if self.cursor.y == self.scroll_bottom {
            self.scroll_up(1);
        } else {
            let below = self.cursor.y + 1;
            let last = less_one(self.rows);
            self.cursor.y = smaller(below, last);
        }
    }

    /// Print `c` at the cursor with the current colours and attributes.
    #[verifier::rlimit(100)]
    pub fn print_char(&mut self, c: char)
        requires
            old(self).wf(),
            old(self)@.print_ok(),
        ensures
            final(self).wf(),
            final(self)@ == old(self)@.print(c),
    {
        let ghost s0 = self@;
        if self.modes.insert {
            let row = self.cursor.y;
            let cols = self.cols;
            let cx = self.cursor.x;
            let grid = self.grid_mut();
            let ghost g0 = grid@;
            shift_cells_right(&mut grid[row], cx, cols);
            proof {
                lemma_rows_view_update(g0, row as int, grid@[row as int]);
                assert(grid@ == g0.update(row as int, grid@[row as int]));
            }
        }
        let ghost s1 = self@;
        assert(s1.screen() == s0.screen().update(
            s0.cursor.y as int,
            (if s0.modes.insert {
                TermState::shift_right(s0.screen()[s0.cursor.y as int], s0.cursor.x as int)
            } else {
                s0.screen()[s0.cursor.y as int]
            }),
        ));
        let fg = self.fg_color;
        let bg = self.bg_color;
        let bold = self.bold;
        let italic = self.italic;
        let underline = self.underline;
        let strikethrough = self.strikethrough;
        let inverse = self.inverse;

        let cell = self.cell_at_mut(self.cursor.x, self.cursor.y);
        *cell = Cell {
            ch: c,
            fg,
            bg,
            bold,
            italic,
            underline,
            strikethrough,
            inverse,
            blank: false,
            is_wide: false,
            is_wide_continuation: false,
        };
        let ghost s2 = self@;
        assert(s2 =~= s0.with_screen(
            s0.screen().update(
                s0.cursor.y as int,
                (if s0.modes.insert {
                    TermState::shift_right(s0.screen()[s0.cursor.y as int], s0.cursor.x as int)
                } else {
                    s0.screen()[s0.cursor.y as int]
                }).update(s0.cursor.x as int, s0.pen_cell(c)),
            ),
        ));

        if self.cursor.x + 1 >= self.cols {
            if self.modes.auto_wrap {
                self.cursor.x = 0;
                self.newline();
            }
        } else {
            self.cursor.x += 1;
        }
    }

    /// Erase in display: from the cursor to the end (mode 0), from the start
    /// to the cursor (mode 1), or everything (modes 2 and 3).
    pub fn erase_display(&mut self, mode: i64)
        requires
            old(self).wf(),
            old(self)@.erase_display_ok(mode),
        ensures
            final(self).wf(),
            final(self)@ == old(self)@.erase_display(mode),
    {
        let rows = self.rows;
        let cols = self.cols;
        let cy = self.cursor.y;
        let cx = self.cursor.x;
        let ghost s0 = self@;
        let ghost g = s0.screen();
        let grid = self.grid_mut();
        if mode == 0 {
            let mut y = cy;
            while y < rows
                invariant
                    grid_shape(g, rows as nat, cols as nat),
                    cx <= sat_dec(cols),
                    cy <= y,
                    y <= rows || y == cy,
                    rows_view(grid@).len() == rows,
                    forall|yy: int|
                        0 <= yy < rows ==> #[trigger] rows_view(grid@)[yy] == (if cy <= yy < y {
                            if yy == cy {
                                clear_span(g[yy], cx as int, cols as int)
                            } else {
                                clear_span(g[yy], 0, cols as int)
                            }
                        } else {
                            g[yy]
                        }),
                decreases rows - y,
            {
                let start_x = if y == cy { cx } else { 0 };
                let ghost before = grid@;
                assert(rows_view(before)[y as int] == g[y as int]);
                clear_cells(&mut grid[y], start_x, cols);
                proof {
                    lemma_rows_view_update(before, y as int, grid@[y as int]);
                    assert(grid@ == before.update(y as int, grid@[y as int]));
                    assert forall|yy: int| 0 <= yy < rows implies #[trigger] rows_view(grid@)[yy] == (
                    if cy <= yy < y + 1 {
                        if yy == cy {
                            clear_span(g[yy], cx as int, cols as int)
                        } else {
                            clear_span(g[yy], 0, cols as int)
                        }
                    } else {
                        g[yy]
                    }) by {
                        assert(rows_view(before)[yy] == rows_view(grid@)[yy] || yy == y);
                    }
                }
                y += 1;
            }
            proof {
                assert(rows_view(grid@) =~= s0.erase_display(mode).screen());
            }
        } else if mode == 1 {
            let last = less_one(cols);
            let mut y: usize = 0;
            while y <= cy
                invariant
                    grid_shape(g, rows as nat, cols as nat),
                    cy < rows,
                    cols > 0,
                    last == cols - 1,
                    cx <= last,
                    y <= cy + 1,
                    rows_view(grid@).len() == rows,
                    forall|yy: int|
                        0 <= yy < rows ==> #[trigger] rows_view(grid@)[yy] == (if yy < y {
                            if yy == cy {
                                clear_span(g[yy], 0, cx + 1)
                            } else {
                                clear_span(g[yy], 0, cols as int)
                            }
                        } else {
                            g[yy]
                        }),
                decreases cy + 1 - y,
            {
                let end_x = if y == cy {
                    smaller(cx, last)
                } else {
                    last
                };
                let ghost before = grid@;
                assert(rows_view(before)[y as int] == g[y as int]);
                clear_cells(&mut grid[y], 0, end_x + 1);
                proof {
                    lemma_rows_view_update(before, y as int, grid@[y as int]);
                    assert(grid@ == before.update(y as int, grid@[y as int]));
                    assert forall|yy: int| 0 <= yy < rows implies #[trigger] rows_view(grid@)[yy] == (
                    if yy < y + 1 {
                        if yy == cy {
                            clear_span(g[yy], 0, cx + 1)
                        } else {
                            clear_span(g[yy], 0, cols as int)
                        }
                    } else {
                        g[yy]
                    }) by {
                        assert(rows_view(before)[yy] == rows_view(grid@)[yy] || yy == y);
                    }
                }
                y += 1;
            }
            proof {
                assert(rows_view(grid@) =~= s0.erase_display(mode).screen());
            }
        } else if mode == 2 || mode == 3 {
            let n = grid.len();
            let mut y: usize = 0;
            while y < n
                invariant
                    n == g.len(),
                    rows_view(grid@).len() == n,
                    forall|yy: int|
                        0 <= yy < n ==> #[trigger] rows_view(grid@)[yy] == (if yy < y {
                            clear_span(g[yy], 0, g[yy].len() as int)
                        } else {
                            g[yy]
                        }),
                decreases n - y,
            {
                let ghost before = grid@;
                assert(rows_view(before)[y as int] == g[y as int]);
                let len = grid[y].len();
                clear_cells(&mut grid[y], 0, len);
                proof {
                    lemma_rows_view_update(before, y as int, grid@[y as int]);
                    assert(grid@ == before.update(y as int, grid@[y as int]));
                    assert forall|yy: int| 0 <= yy < n implies #[trigger] rows_view(grid@)[yy] == (
                    if yy < y + 1 {
                        clear_span(g[yy], 0, g[yy].len() as int)
                    } else {
                        g[yy]
                    }) by {
                        assert(rows_view(before)[yy] == rows_view(grid@)[yy] || yy == y);
                    }
                }
                y += 1;
            }
            proof {
                assert(rows_view(grid@) =~= s0.erase_display(mode).screen());
            }
        }
    }

    /// Erase `count` characters from the cursor on, within the line.
    pub fn erase_chars(&mut self, count: i64)
        requires
            old(self).wf(),
            old(self)@.erase_chars_ok(count),
        ensures
            final(self).wf(),
            final(self)@ == old(self)@.erase_chars(count),
    {
        let count = count_param(count);
        let cols = self.cols;
        let cx = self.cursor.x;
        let cy = self.cursor.y;
        let grid = self.grid_mut();
        let ghost g0 = grid@;
        let end = if cx + count < cols { cx + count } else { cols };
        clear_cells(&mut grid[cy], cx, end);
        proof {
            lemma_rows_view_update(g0, cy as int, grid@[cy as int]);
            assert(grid@ == g0.update(cy as int, grid@[cy as int]));
        }
    }

    /// Delete `count` characters at the cursor; the rest of the line moves left.
    pub fn delete_chars(&mut self, count: i64)
        requires
            old(self).wf(),
            old(self)@.delete_chars_ok(count),
        ensures
            final(self).wf(),
            final(self)@ == old(self)@.delete_chars(count),
    {
        let count = count_param(count);
        let cols = self.cols;
        let cx = self.cursor.x;
        let cy = self.cursor.y;
        let grid = self.grid_mut();
        let ghost g0 = grid@;
        delete_cells(&mut grid[cy], cx, count, cols);
        proof {
            lemma_rows_view_update(g0, cy as int, grid@[cy as int]);
            assert(grid@ == g0.update(cy as int, grid@[cy as int]));
        }
    }

    /// Insert `count` blank lines at the cursor's line, within the scroll region.
    pub fn insert_lines(&mut self, count: i64)
        requires
            old(self).wf(),
            old(self)@.insert_lines_ok(count),
        ensures
            final(self).wf(),
            final(self)@ == old(self)@.insert_lines(count),
    {
        let count = count_param(count);
        if !self.is_inside_scroll_region(self.cursor.y) {
            return;
        }
        let scroll_bottom = self.scroll_bottom;
        let cols = self.cols;
        let rows = self.rows;
        let cy = self.cursor.y;
        let region_height = scroll_bottom - cy + 1;
        let count = smaller(count, region_height);

        let grid = self.grid_mut();
        open_region_lines(grid, cy, scroll_bottom, count, cols);
        let ghost before = grid@;
        assert(rows_view(before).len() == rows);
        grid.truncate(rows);
        proof {
            assert(before.subrange(0, rows as int) =~= before);
        }
    }

    /// Delete `count` lines at the cursor's line, within the scroll region.
    #[verifier::rlimit(100)]
    #[verifier::spinoff_prover]
    pub fn delete_lines(&mut self, count: i64)
        requires
            old(self).wf(),
            old(self)@.delete_lines_ok(count),
        ensures
            final(self).wf(),
            final(self)@ == old(self)@.delete_lines(count),
    {
        let count = count_param(count);
        if !self.is_inside_scroll_region(self.cursor.y) {
            return;
        }
        let scroll_bottom = self.scroll_bottom;
        let cols = self.cols;
        let rows = self.rows;
        let cy = self.cursor.y;
        let region_height = scroll_bottom - cy + 1;
        let count = smaller(count, region_height);

        let ghost g = self@.screen();
        let grid = self.grid_mut();
        let _ = close_region_lines(grid, cy, scroll_bottom, count, cols);
        let ghost before = grid@;
        proof {
            let g1 = g.subrange(0, cy as int) + g.subrange(cy + count, g.len() as int);
            assert(g1.len() == g.len() - count);
            assert(rows_view(before).len() == rows);
        }
        grid.truncate(rows);
        proof {
            assert(before.subrange(0, rows as int) =~= before);
        }
    }

    /// Insert `count` blank characters at the cursor; the rest of the line
    /// moves right.
    pub fn insert_blank(&mut self, count: i64)
        requires
            old(self).wf(),
            old(self)@.insert_blank_ok(count),
        ensures
            final(self).wf(),
            final(self)@ == old(self)@.insert_blank(count),
    {
        let count = count_param(count);
        let cols = self.cols;
        let cx = self.cursor.x;
        let cy = self.cursor.y;
        let grid = self.grid_mut();
        let ghost g0 = grid@;
        insert_cells(&mut grid[cy], cx, count, cols);
        proof {
            lemma_rows_view_update(g0, cy as int, grid@[cy as int]);
            assert(grid@ == g0.update(cy as int, grid@[cy as int]));
        }
    }

    /// Change the size to `rows` by `cols`. The content that still fits stays
    /// in place; the alternate screen is cleared.
    pub fn resize(&mut self, rows: usize, cols: usize)
        requires
            old(self).wf(),
        ensures
            final(self).wf(),
            final(self)@ == old(self)@.resize(rows, cols),
    {
        if rows == self.rows && cols == self.cols {
            return;
        }
        let ghost s0 = self@;
        let mut old_grid = Self::alloc_grid(rows, cols);
        std::mem::swap(&mut self.grid, &mut old_grid);
        let mut old_alt = Self::alloc_grid(rows, cols);
        std::mem::swap(&mut self.alt_grid, &mut old_alt);

        self.rows = rows;
        self.cols = cols;
        self.scroll_bottom = less_one(rows);
        let max_x = less_one(cols);
        let max_y = less_one(rows);
        self.cursor.x = smaller(self.cursor.x, max_x);
        self.cursor.y = smaller(self.cursor.y, max_y);

        self.tab_stops = default_stops(cols);

        let ghost target = s0.resize(rows, cols).grid;
        let ghost og = s0.grid;
        let old_rows = old_grid.len();
        let mut y: usize = 0;
        while y < old_rows
            invariant
                old_rows == og.len(),
                grid_shape(og, s0.rows as nat, s0.cols as nat),
                rows_view(old_grid@) == og,
                self.rows == rows,
                self.cols == cols,
                rows_view(self.grid@).len() == rows,
                forall|yy: int| 0 <= yy < rows ==> (#[trigger] rows_view(self.grid@)[yy]).len() == cols,
                forall|yy: int, xx: int|
                    0 <= yy < rows && 0 <= xx < cols ==> #[trigger] rows_view(self.grid@)[yy][xx]
                        == (if yy < y && yy < s0.rows && xx < s0.cols {
                        og[yy][xx]
                    } else {
                        blank_cell()
                    }),
                self@ == (TermState { grid: self@.grid, dirty: self@.dirty, ..s0.resize(rows, cols) }),
            decreases old_rows - y,
        {
            if y < rows {
                let old_len = old_grid[y].len();
                assert(old_grid@[y as int]@ == og[y as int]);
                let mut x: usize = 0;
                while x < old_len
                    invariant
                        y < rows,
                        y < old_rows,
                        old_rows == og.len(),
                        grid_shape(og, s0.rows as nat, s0.cols as nat),
                        rows_view(old_grid@) == og,
                        old_len == og[y as int].len(),
                        self.rows == rows,
                        self.cols == cols,
                        rows_view(self.grid@).len() == rows,
                        forall|yy: int| 0 <= yy < rows ==> (#[trigger] rows_view(self.grid@)[yy]).len() == cols,
                        forall|yy: int, xx: int|
                            0 <= yy < rows && 0 <= xx < cols ==> #[trigger] rows_view(self.grid@)[yy][xx]
                                == (if (yy < y || (yy == y && xx < x)) && yy < s0.rows && xx < s0.cols {
                                og[yy][xx]
                            } else {
                                blank_cell()
                            }),
                        self@ == (TermState { grid: self@.grid, dirty: self@.dirty, ..s0.resize(rows, cols) }),
                    decreases old_len - x,
                {
                    if x < cols {
                        let ghost before = self.grid@;
                        let cell = old_grid[y][x];
                        assert(rows_view(before)[y as int] == before[y as int]@);
                        self.grid[y][x] = cell;
                        proof {
                            let row = self.grid@[y as int];
                            assert(row@ == before[y as int]@.update(x as int, cell));
                            lemma_rows_view_update(before, y as int, row);
                            assert(cell == og[y as int][x as int]);
                        }
                    }
                    x += 1;
                }
            }
            y += 1;
        }
        self.dirty = true;
        proof {
            assert forall|yy: int| 0 <= yy < rows implies #[trigger] rows_view(self.grid@)[yy]
                =~= target[yy] by {
                assert forall|xx: int| 0 <= xx < cols implies rows_view(self.grid@)[yy][xx]
                    == target[yy][xx] by {
                    assert(rows_view(self.grid@)[yy][xx] == (if yy < y && yy < s0.rows && xx < s0.cols {
                        og[yy][xx]
                    } else {
                        blank_cell()
                    }));
                }
            }
            assert(rows_view(self.grid@) =~= target);
            assert(self@ =~= s0.resize(rows, cols));
        }
    }

    /// Move the cursor to column `x`, line `y` (zero-based; counted from the
    /// top of the scroll region in origin mode), kept on the screen.
    pub fn set_cursor(&mut self, x: usize, y: usize)
        requires
            old(self).wf(),
            old(self)@.set_cursor_ok(y),
        ensures
            final(self).wf(),
            final(self)@ == old(self)@.set_cursor(x, y),
    {
        let max_x = less_one(self.cols);
        self.cursor.x = smaller(x, max_x);
        if self.modes.origin {
            let target = self.scroll_top + y;
            self.cursor.y = smaller(target, self.scroll_bottom);
        } else {
            let max_y = less_one(self.rows);
            self.cursor.y = smaller(y, max_y);
        }
    }

    /// Move to the one-based column `x`.
    pub fn set_cursor_column(&mut self, x: i64)
        requires
            old(self).wf(),
        ensures
            final(self).wf(),
            final(self)@ == old(self)@.set_cursor_column(x),
    {
        let x = count_param(x);
        let col = less_one(x);
        let max_x = less_one(self.cols);
        self.cursor.x = smaller(col, max_x);
    }

    /// Move to the one-based line `y` (counted from the top of the scroll
    /// region in origin mode).
    pub fn set_cursor_row(&mut self, y: i64)
        requires
            old(self).wf(),
            old(self)@.set_cursor_row_ok(y),
        ensures
            final(self).wf(),
            final(self)@ == old(self)@.set_cursor_row(y),
    {
        let y = count_param(y);
        if self.modes.origin {
            let target = self.scroll_top + y - 1;
            self.cursor.y = smaller(target, self.scroll_bottom);
        } else {
            let max_y = less_one(self.rows);
            let target = y - 1;
            self.cursor.y = smaller(target, max_y);
        }
    }

    pub fn move_cursor_up(&mut self, count: i64)
        requires
            old(self).wf(),
        ensures
            final(self).wf(),
            final(self)@ == old(self)@.move_cursor_up(count),
    {
        let count = count_param(count);
        let y = self.cursor.y.saturating_sub(count);
        if self.modes.origin {
            self.cursor.y = if y < self.scroll_top { self.scroll_top } else { y };
        } else {
            self.cursor.y = y;
        }
    }

    #[verifier::rlimit(40)]
    pub fn move_cursor_down(&mut self, count: i64)
        requires
            old(self).wf(),
            old(self)@.move_cursor_down_ok(count),
        ensures
            final(self).wf(),
            final(self)@ == old(self)@.move_cursor_down(count),
    {
        let count = count_param(count);
        let y = self.cursor.y + count;
        if self.modes.origin {
            self.cursor.y = smaller(y, self.scroll_bottom);
        } else {
            let max_y = less_one(self.rows);
            self.cursor.y = smaller(y, max_y);
        }
    }

    pub fn move_cursor_forward(&mut self, count: i64)
        requires
            old(self).wf(),
            old(self)@.move_cursor_forward_ok(count),
        ensures
            final(self).wf(),
            final(self)@ == old(self)@.move_cursor_forward(count),
    {
        let count = count_param(count);
        let x = self.cursor.x + count;
        let max_x = less_one(self.cols);
        self.cursor.x = smaller(x, max_x);
    }

    pub fn move_cursor_backward(&mut self, count: i64)
        requires
            old(self).wf(),
        ensures
            final(self).wf(),
            final(self)@ == old(self)@.move_cursor_backward(count),
    {
        let count = count_param(count);
        self.cursor.x = self.cursor.x.saturating_sub(count);
    }

    /// Set the scroll region to the one-based lines `top` to `bottom`.
    pub fn set_scroll_region(&mut self, top: i64, bottom: i64)
        requires
            old(self).wf(),
        ensures
            final(self).wf(),
            final(self)@ == old(self)@.set_scroll_region(top, bottom),
    {
        let max_y = less_one(self.rows);
        let t = less_one(count_param(top));
        let b = less_one(count_param(bottom));
        self.scroll_top = smaller(t, max_y);
        self.scroll_bottom = smaller(b, max_y);
        if self.scroll_bottom < self.scroll_top {
            std::mem::swap(&mut self.scroll_top, &mut self.scroll_bottom);
        }
    }

    pub fn save_cursor(&mut self)
        requires
            old(self).wf(),
        ensures
            final(self).wf(),
            final(self)@ == old(self)@.save_cursor(),
    {
        let cursor = Cursor { x: self.cursor.x, y: self.cursor.y, visible: self.cursor.visible };
        if self.modes.alt_screen {
            self.alt_cursor = cursor;
        } else {
            self.saved_cursor = cursor;
        }
    }

    pub fn restore_cursor(&mut self)
        requires
            old(self).wf(),
        ensures
            final(self).wf(),
            final(self)@ == old(self)@.restore_cursor(),
    {
        let saved = if self.modes.alt_screen { self.alt_cursor } else { self.saved_cursor };
        self.cursor = saved;
        let max_x = less_one(self.cols);
        let max_y = less_one(self.rows);
        self.cursor.x = smaller(self.cursor.x, max_x);
        self.cursor.y = smaller(self.cursor.y, max_y);
    }

    /// Set (`set`) or reset the mode with the number `mode`.
    #[verifier::rlimit(100)]
    pub fn set_mode(&mut self, mode: i64, set: bool)
        requires
            old(self).wf(),
        ensures
            final(self).wf(),
            final(self)@ == old(self)@.set_mode(mode, set),
    {
        match mode {
            12 => self.cursor_style = if set {
                CursorStyle::BlinkingBlock
            } else {
                CursorStyle::Block
            },
            25 => self.cursor.visible = set,
            47 | 1047 | 1049 => {
                if set && !self.modes.alt_screen {
                    self.switch_to_alt_screen();
                } else if !set && self.modes.alt_screen {
                    self.switch_to_primary_screen();
                }
            },
            _ => self.modes = modes_with_flag(self.modes, mode, set),
        }
    }

    #[verifier::rlimit(100)]
    #[verifier::spinoff_prover]
    fn switch_to_alt_screen(&mut self)
        requires
            old(self).wf(),
        ensures
            final(self).wf(),
            final(self)@ == old(self)@.switch_to_alt_screen(),
    {
        let saved = Cursor { x: self.cursor.x, y: self.cursor.y, visible: self.cursor.visible };
        let modes = modes_with_screen(self.modes, true);
        self.alt_cursor = saved;
        self.cursor = Cursor::default();
        self.modes = modes;
    }

    #[verifier::rlimit(100)]
    #[verifier::spinoff_prover]
    fn switch_to_primary_screen(&mut self)
        requires
            old(self).wf(),
        ensures
            final(self).wf(),
            final(self)@ == old(self)@.switch_to_primary_screen(),
    {
        let modes = modes_with_screen(self.modes, false);
        let saved = self.alt_cursor;
        let x = smaller(saved.x, less_one(self.cols));
        let y = smaller(saved.y, less_one(self.rows));
        self.modes = modes;
        self.cursor = Cursor { x, y, visible: saved.visible };
    }

    pub fn set_cursor_style(&mut self, style: CursorStyle)
        requires
            old(self).wf(),
        ensures
            final(self).wf(),
            final(self)@ == (TermState { cursor_style: style, ..old(self)@ }),
    {
        self.cursor_style = style;
    }

    pub fn set_fg_color(&mut self, color: Rgb)
        requires
            old(self).wf(),
        ensures
            final(self).wf(),
            final(self)@ == (TermState { fg_color: color, ..old(self)@ }),
    {
        self.fg_color = color;
    }

    pub fn set_bg_color(&mut self, color: Rgb)
        requires
            old(self).wf(),
        ensures
            final(self).wf(),
            final(self)@ == (TermState { bg_color: color, ..old(self)@ }),
    {
        self.bg_color = color;
    }

    pub fn set_bold(&mut self, bold: bool)
        requires
            old(self).wf(),
        ensures
            final(self).wf(),
            final(self)@ == (TermState { bold, ..old(self)@ }),
    {
        self.bold = bold;
    }

    pub fn set_italic(&mut self, italic: bool)
        requires
            old(self).wf(),
        ensures
            final(self).wf(),
            final(self)@ == (TermState { italic, ..old(self)@ }),
    {
        self.italic = italic;
    }

    pub fn set_underline(&mut self, underline: bool)
        requires
            old(self).wf(),
        ensures
            final(self).wf(),
            final(self)@ == (TermState { underline, ..old(self)@ }),
    {
        self.underline = underline;
    }

    pub fn set_strikethrough(&mut self, strikethrough: bool)
        requires
            old(self).wf(),
        ensures
            final(self).wf(),
            final(self)@ == (TermState { strikethrough, ..old(self)@ }),
    {
        self.strikethrough = strikethrough;
    }

    pub fn set_inverse(&mut self, inverse: bool)
        requires
            old(self).wf(),
        ensures
            final(self).wf(),
            final(self)@ == (TermState { inverse, ..old(self)@ }),
    {
        self.inverse = inverse;
    }

    /// Back to the default colours, with no attributes.
    pub fn reset_attributes(&mut self)
        requires
            old(self).wf(),
        ensures
            final(self).wf(),
            final(self)@ == old(self)@.reset_attributes(),
    {
        self.fg_color = self.foreground;
        self.bg_color = self.background;
        self.bold = false;
        self.italic = false;
        self.underline = false;
        self.strikethrough = false;
        self.inverse = false;
    }

    pub fn set_title(&mut self, title: &str)
        requires
            old(self).wf(),
        ensures
            final(self).wf(),
            final(self)@ == (TermState { title: title@, ..old(self)@ }),
    {
        self.title = title.to_owned();
    }

    /// The bell does nothing here.
    pub fn bell(&self) {
    }

    /// Set a tab stop at the cursor's column.
    pub fn set_tab_stop(&mut self)
        requires
            old(self).wf(),
        ensures
            final(self).wf(),
            final(self)@ == old(self)@.set_tab_stop(),
    {
        if self.cursor.x < self.tab_stops.len() {
            self.tab_stops.set(self.cursor.x, true);
        }
    }

    /// Clear the tab stop at the cursor (mode 0) or all of them (mode 3).
    pub fn clear_tab_stop(&mut self, mode: i64)
        requires
            old(self).wf(),
        ensures
            final(self).wf(),
            final(self)@ == old(self)@.clear_tab_stop(mode),
    {
        if mode == 0 && self.cursor.x < self.tab_stops.len() {
            self.tab_stops.set(self.cursor.x, false);
        } else if mode == 3 {
            let ghost s0 = self@;
            let n = self.tab_stops.len();
            let mut i: usize = 0;
            while i < n
                invariant
                    n == self.tab_stops@.len(),
                    self@ == (TermState { tab_stops: self@.tab_stops, ..s0 }),
                    forall|j: int| 0 <= j < i ==> !#[trigger] self.tab_stops@[j],
                decreases n - i,
            {
                self.tab_stops.set(i, false);
                i += 1;
            }
            assert(self.tab_stops@ =~= Seq::new(n as nat, |j: int| false));
        }
    }

    /// Erase in line: from the cursor to the end (mode 0), from the start to
    /// the cursor (mode 1), or the whole line (mode 2).
    pub fn erase_line(&mut self, mode: i64)
        requires
            old(self).wf(),
            old(self)@.erase_line_ok(mode),
        ensures
            final(self).wf(),
            final(self)@ == old(self)@.erase_line(mode),
    {
        let cols = self.cols;
        let cx = self.cursor.x;
        let cy = self.cursor.y;
        let ghost s0 = self@;
        let grid = self.grid_mut();
        let ghost g0 = grid@;
        let row = &mut grid[cy];
        if mode == 0 {
            clear_cells(row, cx, cols);
        } else if mode == 1 {
            clear_cells(row, 0, cx + 1);
        } else if mode == 2 {
            let len = row.len();
            clear_cells(row, 0, len);
        }
        proof {
            lemma_rows_view_update(g0, cy as int, *row);
        }
    }



    /// The top and bottom lines of the scroll region.
    pub fn scroll_region(&self) -> (r: (usize, usize))
        ensures
            r == (self@.scroll_top, self@.scroll_bottom),
    {
        (self.scroll_top, self.scroll_bottom)
    }

    /// Whether scrolling the region up by `count` lines can be carried out.
    pub fn scroll_up_allowed(&self, count: usize) -> (b: bool)
        requires
            self.wf(),
        ensures
            b == self@.scroll_up_ok(count),
    {
        if self.scroll_top > self.scroll_bottom {
            return false;
        }
        let region = self.scroll_bottom - self.scroll_top + 1;
        let n = smaller(count, region);
        n == 0 || n <= self.rows - self.scroll_bottom
    }

    /// Whether scrolling the region down by `count` lines can be carried out.
    pub fn scroll_down_allowed(&self, count: usize) -> (b: bool)
        requires
            self.wf(),
        ensures
            b == self@.scroll_down_ok(count),
    {
        if self.scroll_top > self.scroll_bottom {
            return false;
        }
        let region = self.scroll_bottom - self.scroll_top + 1;
        let n = smaller(count, region);
        n == 0 || self.scroll_bottom < self.rows
    }

    /// Whether `newline` can be carried out (see `TermState::newline_ok`).
    pub fn newline_allowed(&self) -> (b: bool)
        requires
            self.wf(),
        ensures
            b == self@.newline_ok(),
    {
        self.cursor.y < self.scroll_bottom || self.scroll_up_allowed(1)
    }

    /// Whether `index` can be carried out.
    pub fn index_allowed(&self) -> (b: bool)
        requires
            self.wf(),
        ensures
            b == self@.index_ok(),
    {
        self.cursor.y != self.scroll_bottom || self.scroll_up_allowed(1)
    }

    /// Whether `reverse_index` can be carried out.
    pub fn reverse_index_allowed(&self) -> (b: bool)
        requires
            self.wf(),
        ensures
            b == self@.reverse_index_ok(),
    {
        self.cursor.y != self.scroll_top || self.scroll_down_allowed(1)
    }

    /// Whether `print_char` can be carried out.
    pub fn print_allowed(&self) -> (b: bool)
        requires
            self.wf(),
        ensures
            b == self@.print_ok(),
    {
        self.cursor.y < self.rows && self.cursor.x < self.cols && (self.cursor.x + 1 < self.cols
            || !self.modes.auto_wrap || self.newline_allowed())
    }

    /// Whether `erase_display(mode)` can be carried out.
    pub fn erase_display_allowed(&self, mode: i64) -> (b: bool)
        requires
            self.wf(),
        ensures
            b == self@.erase_display_ok(mode),
    {
        mode != 1 || (self.cursor.y < self.rows && self.cols > 0)
    }

    /// Whether `erase_line(mode)` can be carried out.
    pub fn erase_line_allowed(&self, mode: i64) -> (b: bool)
        requires
            self.wf(),
        ensures
            b == self@.erase_line_ok(mode),
    {
        self.cursor.y < self.rows && (mode != 1 || self.cols > 0)
    }

    /// Whether `erase_chars(count)` can be carried out.
    pub fn erase_chars_allowed(&self, count: i64) -> (b: bool)
        requires
            self.wf(),
        ensures
            b == self@.erase_chars_ok(count),
    {
        let n = count_param(count);
        self.cursor.y < self.rows && n <= usize::MAX - self.cursor.x
    }

    /// Whether `delete_chars(count)` can be carried out.
    pub fn delete_chars_allowed(&self, count: i64) -> (b: bool)
        requires
            self.wf(),
        ensures
            b == self@.delete_chars_ok(count),
    {
        let n = count_param(count);
        self.cursor.y < self.rows && (self.cols == 0 || n <= usize::MAX - (self.cols - 1))
    }

    /// Whether `insert_blank(count)` can be carried out.
    pub fn insert_blank_allowed(&self, count: i64) -> (b: bool)
        requires
            self.wf(),
        ensures
            b == self@.insert_blank_ok(count),
    {
        let n = count_param(count);
        self.cursor.y < self.rows && n <= self.cols && n <= usize::MAX - self.cursor.x
    }

    /// Whether `insert_lines(count)` can be carried out.
    pub fn insert_lines_allowed(&self, count: i64) -> (b: bool)
        requires
            self.wf(),
        ensures
            b == self@.insert_lines_ok(count),
    {
        !self.is_inside_scroll_region(self.cursor.y) || self.scroll_bottom < self.rows
    }

    /// Whether `delete_lines(count)` can be carried out.
    pub fn delete_lines_allowed(&self, count: i64) -> (b: bool)
        requires
            self.wf(),
        ensures
            b == self@.delete_lines_ok(count),
    {
        if !self.is_inside_scroll_region(self.cursor.y) {
            return true;
        }
        let n = count_param(count);
        let region_height = self.scroll_bottom - self.cursor.y + 1;
        let n = smaller(n, region_height);
        n <= self.rows && self.scroll_bottom <= self.rows - n
    }

    /// Whether `set_cursor(_, y)` can be carried out.
    pub fn set_cursor_allowed(&self, y: usize) -> (b: bool)
        requires
            self.wf(),
        ensures
            b == self@.set_cursor_ok(y),
    {
        !self.modes.origin || y <= usize::MAX - self.scroll_top
    }

    /// Whether `set_cursor_row(y)` can be carried out.
    pub fn set_cursor_row_allowed(&self, y: i64) -> (b: bool)
        requires
            self.wf(),
        ensures
            b == self@.set_cursor_row_ok(y),
    {
        let n = count_param(y);
        if self.modes.origin {
            n <= usize::MAX - self.scroll_top && (self.scroll_top > 0 || n >= 1)
        } else {
            n >= 1
        }
    }

    /// Whether `move_cursor_down(count)` can be carried out.
    pub fn move_cursor_down_allowed(&self, count: i64) -> (b: bool)
        requires
            self.wf(),
        ensures
            b == self@.move_cursor_down_ok(count),
    {
        let n = count_param(count);
        n <= usize::MAX - self.cursor.y
    }

    /// Whether `move_cursor_forward(count)` can be carried out.
    pub fn move_cursor_forward_allowed(&self, count: i64) -> (b: bool)
        requires
            self.wf(),
        ensures
            b == self@.move_cursor_forward_ok(count),
    {
        let n = count_param(count);
        n <= usize::MAX - self.cursor.x
    }

    pub fn clear_dirty(&mut self)
        ensures
            final(self)@ == (TermState { dirty: false, ..old(self)@ }),
    {
        self.dirty = false;
    }

    pub fn color_palette(&self) -> (p: &[[u8; 3]; 16])
        ensures
            *p == self@.palette,
    {
        &self.color_palette
    }
}

} // verus!
