//! Properties of the terminal that relate several operations or hold of
//! every state.

use vstd::prelude::*;
use crate::model::{
    TermState, blank_cell, blank_row, clear_span, grid_shape, sat_dec, rgb, append_bounded,
    lemma_append_bounded_step, SCROLLBACK_LINES,
};
use crate::parser::{sgr, sgr_from, sgr_step, csi, indexed_rgb, cursor_style_for};
use crate::input::{named_key_sequence, NamedKey};
use crate::display::{grid_backgrounds, row_backgrounds};
use crate::terminal::TerminalModes;
use vstd::arithmetic::div_mod::lemma_fundamental_div_mod_converse;
use crate::terminal::{CursorStyle, Rgb};

verus! {

/// Every cell of the screen is blank after erasing the whole display.
pub proof fn law_erase_all_blanks_screen(t: TermState, mode: i64)
    requires
        t.wf(),
        mode == 2 || mode == 3,
    ensures
        forall|y: int, x: int|
            0 <= y < t.rows && 0 <= x < t.cols ==> #[trigger] t.erase_display(mode).screen()[y][x]
                == blank_cell(),
{
    assert(grid_shape(t.screen(), t.rows as nat, t.cols as nat));
}

/// Every operation keeps the cursor on the screen: on a screen with lines
/// and columns it always stands on one of its cells.
pub proof fn law_cursor_on_screen(t: TermState)
    requires
        t.wf(),
        t.rows > 0,
        t.cols > 0,
    ensures
        t.cursor.y < t.rows,
        t.cursor.x < t.cols,
{
}

/// Saving the cursor and then restoring it gives the cursor back.
pub proof fn law_restore_after_save(t: TermState)
    requires
        t.wf(),
    ensures
        t.save_cursor().restore_cursor().cursor == t.cursor,
{
}

/// Switching to the alternate screen and back leaves the primary screen as
/// it was and gives the cursor back.
pub proof fn law_alt_screen_round_trip(t: TermState, enter: i64, leave: i64)
    requires
        t.wf(),
        !t.modes.alt_screen,
        enter == 47 || enter == 1047 || enter == 1049,
        leave == 47 || leave == 1047 || leave == 1049,
    ensures
        ({
            let u = t.set_mode(enter, true).set_mode(leave, false);
            &&& u.grid == t.grid
            &&& u.screen() == t.screen()
            &&& u.cursor == t.cursor
            &&& !u.modes.alt_screen
        }),
{
}

/// While the alternate screen is shown, printing leaves the primary screen
/// untouched.
pub proof fn law_alt_screen_keeps_primary(t: TermState, c: char)
    requires
        t.wf(),
        t.modes.alt_screen,
        t.print_ok(),
    ensures
        t.print(c).grid == t.grid,
{
}

/// Printing a character that does not reach the last column writes it, with
/// the current attributes, under the cursor and moves one column right.
pub proof fn law_print_writes_cell(t: TermState, c: char)
    requires
        t.wf(),
        t.print_ok(),
        t.cursor.x + 1 < t.cols,
    ensures
        t.print(c).screen()[t.cursor.y as int][t.cursor.x as int] == t.pen_cell(c),
        t.print(c).cursor.x == t.cursor.x + 1,
        t.print(c).cursor.y == t.cursor.y,
        t.print(c).backspace().cursor == t.cursor,
{
    assert(grid_shape(t.screen(), t.rows as nat, t.cols as nat));
}

/// Changing the size keeps every cell that lies inside both sizes.
pub proof fn law_resize_keeps_overlap(t: TermState, rows: usize, cols: usize)
    requires
        t.wf(),
    ensures
        forall|y: int, x: int|
            0 <= y < rows && y < t.rows && 0 <= x < cols && x < t.cols ==> #[trigger] t.resize(
                rows,
                cols,
            ).grid[y][x] == t.grid[y][x],
        t.resize(rows, cols).wf(),
        t.resize(t.rows, t.cols) == t,
{
    let u = t.resize(rows, cols);
    if rows != t.rows || cols != t.cols {
        assert(grid_shape(u.grid, rows as nat, cols as nat));
        assert(u.alt_grid == crate::model::blank_rows(rows as nat, cols as nat));
    }
}

/// The scroll region that is set always lies on the screen, top above bottom.
pub proof fn law_scroll_region_in_order(t: TermState, top: i64, bottom: i64)
    requires
        t.wf(),
    ensures
        t.set_scroll_region(top, bottom).scroll_top <= t.set_scroll_region(top, bottom).scroll_bottom,
        t.set_scroll_region(top, bottom).scroll_bottom <= sat_dec(t.rows),
{
}

/// A tab moves right to the next tab stop, or to the last column when there
/// is none before it; it never moves left.
pub proof fn law_tab_next_stop(stops: Seq<bool>, x: int, last: int)
    requires
        x <= last,
    ensures
        ({
            let r = TermState::next_tab(stops, x, last);
            &&& x <= r <= last
            &&& x < last ==> x < r
            &&& r < last && r > x ==> r < stops.len() && stops[r]
            &&& forall|k: int| x < k < r ==> !(k < stops.len() && #[trigger] stops[k])
        }),
    decreases last - x,
{
    if x < last {
        if !(x + 1 < stops.len() && stops[x + 1]) {
            law_tab_next_stop(stops, x + 1, last);
        }
    }
}

/// At the bottom line of the scroll region a line feed scrolls: the region's
/// top line goes to the end of the scrollback, the region's bottom line is
/// blank, and the cursor stays on that line at the first column.
pub proof fn law_newline_at_bottom_scrolls(t: TermState)
    requires
        t.wf(),
        t.cursor.y == t.scroll_bottom,
        t.scroll_top <= t.scroll_bottom,
        t.scroll_bottom < t.rows,
    ensures
        ({
            let u = t.newline();
            &&& u.scrollback.len() > 0
            &&& u.scrollback.last() == t.screen()[t.scroll_top as int]
            &&& u.screen()[t.scroll_bottom as int] == blank_row(t.cols as nat)
            &&& u.cursor.y == t.cursor.y
            &&& u.cursor.x == 0
            &&& u.scrollback.len() <= crate::model::SCROLLBACK_LINES
        }),
{
    let g = t.screen();
    let tt = t.scroll_top as int;
    let b = t.scroll_bottom as int;
    let g1 = g.subrange(0, tt) + g.subrange(tt + 1, g.len() as int);
    assert(g1.len() == g.len() - 1);
    let g2 = TermState::close_lines(g, tt, b, 1, t.cols as nat);
    assert(g2[b] == blank_row(t.cols as nat));
}

/// Deleting a line at the cursor undoes inserting one there, except that the
/// line pushed off the bottom of the region comes back blank.
pub proof fn law_delete_line_undoes_insert(t: TermState)
    requires
        t.wf(),
        t.in_region(t.cursor.y),
        t.scroll_bottom < t.rows,
    ensures
        t.insert_lines(1).delete_lines_ok(1),
        t.insert_lines(1).delete_lines(1).screen() == t.screen().update(
            t.scroll_bottom as int,
            blank_row(t.cols as nat),
        ),
{
    let g = t.screen();
    let y = t.cursor.y as int;
    let b = t.scroll_bottom as int;
    let u = t.insert_lines(1);
    assert(u.line_count(1) == 1);
    assert(t.line_count(1) == 1);
    let gi = TermState::open_lines(g, y, b, 1, t.cols as nat);
    assert(u.screen() == gi);
    let gd = TermState::close_lines(gi, y, b, 1, t.cols as nat);
    assert(gd =~= g.update(b, blank_row(t.cols as nat)));
}

/// Switching to the alternate screen while it is already shown changes
/// nothing.
pub proof fn law_alt_screen_enter_twice(t: TermState, enter: i64)
    requires
        t.wf(),
        enter == 47 || enter == 1047 || enter == 1049,
    ensures
        t.set_mode(enter, true).set_mode(enter, true) == t.set_mode(enter, true),
{
}

/// With every tab stop cleared, a tab moves to the last column.
pub proof fn law_tab_without_stops(t: TermState)
    requires
        t.wf(),
    ensures
        t.clear_tab_stop(3).tab().cursor.x == sat_dec(t.cols),
{
    let u = t.clear_tab_stop(3);
    lemma_next_tab_no_stops(u.tab_stops, t.cursor.x as int, sat_dec(t.cols) as int);
}

proof fn lemma_next_tab_no_stops(stops: Seq<bool>, x: int, last: int)
    requires
        0 <= x <= last,
        forall|k: int| 0 <= k < stops.len() ==> !#[trigger] stops[k],
    ensures
        TermState::next_tab(stops, x, last) == last,
    decreases last - x,
{
    if x < last {
        if x + 1 < stops.len() {
            assert(!stops[x + 1]);
        }
        lemma_next_tab_no_stops(stops, x + 1, last);
    }
}

/// Erasing the whole line blanks every cell of the cursor's line and leaves
/// the other lines as they were.
pub proof fn law_erase_line_blanks_line(t: TermState)
    requires
        t.wf(),
        t.erase_line_ok(2),
    ensures
        forall|x: int|
            0 <= x < t.cols ==> #[trigger] t.erase_line(2).screen()[t.cursor.y as int][x]
                == blank_cell(),
        forall|y: int|
            0 <= y < t.rows && y != t.cursor.y ==> #[trigger] t.erase_line(2).screen()[y]
                == t.screen()[y],
{
    assert(grid_shape(t.screen(), t.rows as nat, t.cols as nat));
}

/// Resetting the attributes gives the default colours, light grey on black,
/// and no text attribute; nothing else changes, and a second reset changes
/// nothing more.
pub proof fn law_reset_gives_defaults(t: TermState)
    requires
        t.wf(),
    ensures
        ({
            let u = t.reset_attributes();
            &&& u.fg_color == rgb(0xcc, 0xcc, 0xcc)
            &&& u.bg_color == rgb(0, 0, 0)
            &&& !u.bold && !u.italic && !u.underline && !u.strikethrough && !u.inverse
            &&& u.grid == t.grid && u.alt_grid == t.alt_grid && u.cursor == t.cursor
            &&& u.modes == t.modes && u.dirty == t.dirty
            &&& u.reset_attributes() == u
        }),
{
}

/// Scrolling the region up by one line appends its top line to the
/// scrollback, dropping the oldest line when the scrollback is full.
pub proof fn law_scroll_up_one_scrollback(t: TermState)
    requires
        t.wf(),
        t.scroll_up_ok(1),
    ensures
        ({
            let sb = t.scrollback;
            let line = t.screen()[t.scroll_top as int];
            let u = t.scrolled_up(1);
            &&& sb.len() < SCROLLBACK_LINES ==> u.scrollback == sb.push(line)
            &&& sb.len() >= SCROLLBACK_LINES ==> u.scrollback == sb.drop_first().push(line)
            &&& u.scrollback.len() == (if sb.len() + 1 < SCROLLBACK_LINES {
                sb.len() + 1
            } else {
                SCROLLBACK_LINES as nat
            })
        }),
{
    let sb = t.scrollback;
    let tt = t.scroll_top as int;
    let line = t.screen()[tt];
    lemma_append_bounded_step(sb, Seq::empty(), line);
    assert(Seq::<Seq<crate::terminal::Cell>>::empty().push(line) =~= t.screen().subrange(tt, tt + 1));
    assert(append_bounded(sb, Seq::empty()) =~= sb);
    assert(sb.subrange(1, sb.len() as int) =~= sb.drop_first());
}

/// The SGR parameters from position `i` on, each applied as a sequence of
/// its own.
pub open spec fn sgr_one_by_one(t: TermState, p: Seq<i64>, i: int) -> TermState
    decreases p.len() - i,
{
    if i < 0 || i >= p.len() {
        t
    } else {
        sgr_one_by_one(sgr(t, seq![p[i]]), p, i + 1)
    }
}

proof fn lemma_sgr_from_one_by_one(t: TermState, p: Seq<i64>, i: int)
    requires
        0 <= i,
        forall|k: int| 0 <= k < p.len() ==> #[trigger] p[k] != 38 && p[k] != 48,
    ensures
        sgr_from(t, p, i) == sgr_one_by_one(t, p, i),
    decreases p.len() - i,
{
    if i < p.len() {
        let v = p[i];
        assert(v != 38 && v != 48);
        let single = seq![v];
        assert(sgr_step(t, single, 0).0 == sgr_step(t, p, i).0);
        assert(sgr_step(t, p, i).1 == i);
        assert(sgr_from(sgr_step(t, single, 0).0, single, 1) == sgr_step(t, single, 0).0);
        assert(sgr(t, single) == sgr_step(t, p, i).0);
        lemma_sgr_from_one_by_one(sgr_step(t, p, i).0, p, i + 1);
    }
}

/// Without extended colours (38 or 48), the SGR parameters of a sequence
/// whose first parameter is not zero act one by one, left to right, each as
/// it would in a sequence of its own.
pub proof fn law_sgr_one_by_one(t: TermState, p: Seq<i64>)
    requires
        p.len() > 0,
        p[0] != 0,
        forall|k: int| 0 <= k < p.len() ==> #[trigger] p[k] != 38 && p[k] != 48,
    ensures
        sgr(t, p) == sgr_one_by_one(t, p, 0),
{
    lemma_sgr_from_one_by_one(t, p, 0);
}

/// `u` is `t` with at most the pen changed: colours and text attributes.
pub open spec fn pen_only_changed(t: TermState, u: TermState) -> bool {
    u == TermState {
        fg_color: u.fg_color,
        bg_color: u.bg_color,
        bold: u.bold,
        italic: u.italic,
        underline: u.underline,
        strikethrough: u.strikethrough,
        inverse: u.inverse,
        ..t
    }
}

proof fn lemma_sgr_from_pen_only(t: TermState, p: Seq<i64>, i: int)
    ensures
        pen_only_changed(t, sgr_from(t, p, i)),
    decreases p.len() - i,
{
    if 0 <= i < p.len() {
        let (t2, last) = sgr_step(t, p, i);
        assert(pen_only_changed(t, t2));
        if last >= i {
            lemma_sgr_from_pen_only(t2, p, last + 1);
        }
    }
}

/// Select Graphic Rendition changes only the colours and the five text
/// attributes of the pen; the screens, cursor, modes, scroll region, tab
/// stops, title, palette, reset colours and changed-flag stay as they were.
pub proof fn law_sgr_changes_only_pen(t: TermState, p: Seq<i64>)
    ensures
        pen_only_changed(t, sgr(t, p)),
{
    lemma_sgr_from_pen_only(t, p, 0);
}

/// A call of one of the operations of a terminal, with its arguments.
pub enum Call {
    Print(char),
    Newline,
    CarriageReturn,
    Backspace,
    Tab,
    ReverseIndex,
    Index,
    EraseDisplay(i64),
    EraseLine(i64),
    EraseChars(i64),
    DeleteChars(i64),
    InsertLines(i64),
    DeleteLines(i64),
    InsertBlank(i64),
    SetCursor(usize, usize),
    SetCursorColumn(i64),
    SetCursorRow(i64),
    MoveCursorUp(i64),
    MoveCursorDown(i64),
    MoveCursorForward(i64),
    MoveCursorBackward(i64),
    SetScrollRegion(i64, i64),
    SaveCursor,
    RestoreCursor,
    SetMode(i64, bool),
    SetCursorStyle(CursorStyle),
    SetFgColor(Rgb),
    SetBgColor(Rgb),
    SetBold(bool),
    SetItalic(bool),
    SetUnderline(bool),
    SetStrikethrough(bool),
    SetInverse(bool),
    ResetAttributes,
    SetTitle(Seq<char>),
    SetTabStop,
    ClearTabStop(i64),
    Resize(usize, usize),
    ClearDirty,
}

/// The state after the call `c`, as the contract of the `Terminal` method
/// of the same name gives it.
#[verifier::opaque]
pub open spec fn apply_call(t: TermState, c: Call) -> TermState {
    match c {
        Call::Print(ch) => t.print(ch),
        Call::Newline => t.newline(),
        Call::CarriageReturn => t.carriage_return(),
        Call::Backspace => t.backspace(),
        Call::Tab => t.tab(),
        Call::ReverseIndex => t.reverse_index(),
        Call::Index => t.index(),
        Call::EraseDisplay(m) => t.erase_display(m),
        Call::EraseLine(m) => t.erase_line(m),
        Call::EraseChars(n) => t.erase_chars(n),
        Call::DeleteChars(n) => t.delete_chars(n),
        Call::InsertLines(n) => t.insert_lines(n),
        Call::DeleteLines(n) => t.delete_lines(n),
        Call::InsertBlank(n) => t.insert_blank(n),
        Call::SetCursor(x, y) => t.set_cursor(x, y),
        Call::SetCursorColumn(x) => t.set_cursor_column(x),
        Call::SetCursorRow(y) => t.set_cursor_row(y),
        Call::MoveCursorUp(n) => t.move_cursor_up(n),
        Call::MoveCursorDown(n) => t.move_cursor_down(n),
        Call::MoveCursorForward(n) => t.move_cursor_forward(n),
        Call::MoveCursorBackward(n) => t.move_cursor_backward(n),
        Call::SetScrollRegion(top, bottom) => t.set_scroll_region(top, bottom),
        Call::SaveCursor => t.save_cursor(),
        Call::RestoreCursor => t.restore_cursor(),
        Call::SetMode(m, set) => t.set_mode(m, set),
        Call::SetCursorStyle(style) => TermState { cursor_style: style, ..t },
        Call::SetFgColor(color) => TermState { fg_color: color, ..t },
        Call::SetBgColor(color) => TermState { bg_color: color, ..t },
        Call::SetBold(b) => TermState { bold: b, ..t },
        Call::SetItalic(b) => TermState { italic: b, ..t },
        Call::SetUnderline(b) => TermState { underline: b, ..t },
        Call::SetStrikethrough(b) => TermState { strikethrough: b, ..t },
        Call::SetInverse(b) => TermState { inverse: b, ..t },
        Call::ResetAttributes => t.reset_attributes(),
        Call::SetTitle(title) => TermState { title, ..t },
        Call::SetTabStop => t.set_tab_stop(),
        Call::ClearTabStop(m) => t.clear_tab_stop(m),
        Call::Resize(rows, cols) => t.resize(rows, cols),
        Call::ClearDirty => TermState { dirty: false, ..t },
    }
}

/// The state after the calls `calls`, first to last.
pub open spec fn apply_calls(t: TermState, calls: Seq<Call>) -> TermState
    decreases calls.len(),
{
    if calls.len() == 0 {
        t
    } else {
        apply_call(apply_calls(t, calls.drop_last()), calls.last())
    }
}

/// A call that shows or leaves the alternate screen.
pub open spec fn switches_screen(c: Call) -> bool {
    c matches Call::SetMode(m, _) && (m == 47 || m == 1047 || m == 1049)
}

/// A call that may change the saved cursors.
pub open spec fn touches_saved_cursor(c: Call) -> bool {
    c is SaveCursor || switches_screen(c)
}

/// A call that writes to the shown screen, or replaces the screens.
pub open spec fn writes_grid(c: Call) -> bool {
    ||| c is Print
    ||| c is Newline
    ||| c is Index
    ||| c is ReverseIndex
    ||| c is EraseDisplay
    ||| c is EraseLine
    ||| c is EraseChars
    ||| c is DeleteChars
    ||| c is InsertLines
    ||| c is DeleteLines
    ||| c is InsertBlank
    ||| c is Resize
}

/// What a call `c` that took `t` to `u` left alone.
pub open spec fn call_frame(t: TermState, c: Call, u: TermState) -> bool {
    &&& !switches_screen(c) ==> u.modes.alt_screen == t.modes.alt_screen
    &&& !touches_saved_cursor(c) ==> u.saved_cursor == t.saved_cursor && u.alt_cursor
        == t.alt_cursor
    &&& !(c is Resize) ==> u.rows == t.rows && u.cols == t.cols
    &&& !(c is Resize) && !switches_screen(c) && t.modes.alt_screen ==> u.grid == t.grid
    &&& !writes_grid(c) && !(c is ClearDirty) ==> u.dirty == t.dirty
    &&& c is ClearDirty ==> !u.dirty
}

/// What a single call leaves alone.
proof fn lemma_call_frame(t: TermState, c: Call)
    ensures
        call_frame(t, c, apply_call(t, c)),
{
    if c is Print {
        lemma_frame_print(t, c);
    } else if c is Newline || c is Index || c is ReverseIndex {
        lemma_frame_line_feeds(t, c);
    } else if c is EraseDisplay || c is EraseLine {
        lemma_frame_erase(t, c);
    } else if c is EraseChars || c is DeleteChars || c is InsertBlank {
        lemma_frame_line_edits(t, c);
    } else if c is InsertLines || c is DeleteLines {
        lemma_frame_lines(t, c);
    } else if c is Resize {
        lemma_frame_resize(t, c);
    } else if c is SetMode {
        lemma_frame_set_mode(t, c);
    } else {
        lemma_frame_others(t, c);
    }
}

#[verifier::spinoff_prover]
proof fn lemma_frame_print(t: TermState, c: Call)
    requires
        c is Print,
    ensures
        call_frame(t, c, apply_call(t, c)),
{
    reveal(apply_call);
    let ch = c->Print_0;
    lemma_print_frame(t, ch);
}

#[verifier::spinoff_prover]
proof fn lemma_frame_line_feeds(t: TermState, c: Call)
    requires
        c is Newline || c is Index || c is ReverseIndex,
    ensures
        call_frame(t, c, apply_call(t, c)),
{
    reveal(apply_call);
    lemma_newline_frame(t);
    lemma_scrolled_up_frame(t, 1);
    lemma_scrolled_down_frame(t, 1);
}

#[verifier::spinoff_prover]
proof fn lemma_frame_erase(t: TermState, c: Call)
    requires
        c is EraseDisplay || c is EraseLine,
    ensures
        call_frame(t, c, apply_call(t, c)),
{
    reveal(apply_call);
}

#[verifier::spinoff_prover]
proof fn lemma_frame_line_edits(t: TermState, c: Call)
    requires
        c is EraseChars || c is DeleteChars || c is InsertBlank,
    ensures
        call_frame(t, c, apply_call(t, c)),
{
    reveal(apply_call);
}

#[verifier::spinoff_prover]
proof fn lemma_frame_lines(t: TermState, c: Call)
    requires
        c is InsertLines || c is DeleteLines,
    ensures
        call_frame(t, c, apply_call(t, c)),
{
    reveal(apply_call);
}

#[verifier::spinoff_prover]
proof fn lemma_frame_resize(t: TermState, c: Call)
    requires
        c is Resize,
    ensures
        call_frame(t, c, apply_call(t, c)),
{
    reveal(apply_call);
}

#[verifier::spinoff_prover]
proof fn lemma_frame_set_mode(t: TermState, c: Call)
    requires
        c is SetMode,
    ensures
        call_frame(t, c, apply_call(t, c)),
{
    reveal(apply_call);
}

proof fn lemma_frame_others(t: TermState, c: Call)
    requires
        !(c is Print || c is Newline || c is Index || c is ReverseIndex || c is EraseDisplay
            || c is EraseLine || c is EraseChars || c is DeleteChars || c is InsertBlank
            || c is InsertLines || c is DeleteLines || c is Resize || c is SetMode),
    ensures
        call_frame(t, c, apply_call(t, c)),
{
    if c is CarriageReturn || c is Backspace || c is Tab || c is SetCursor || c is SetCursorColumn
        || c is SetCursorRow {
        lemma_frame_cursor_moves(t, c);
    } else if c is MoveCursorUp || c is MoveCursorDown || c is MoveCursorForward
        || c is MoveCursorBackward {
        lemma_frame_relative_moves(t, c);
    } else if c is SaveCursor || c is RestoreCursor || c is SetScrollRegion {
        lemma_frame_saves(t, c);
    } else {
        lemma_frame_pen(t, c);
    }
}

#[verifier::spinoff_prover]
proof fn lemma_frame_cursor_moves(t: TermState, c: Call)
    requires
        c is CarriageReturn || c is Backspace || c is Tab || c is SetCursor || c is SetCursorColumn
            || c is SetCursorRow,
    ensures
        call_frame(t, c, apply_call(t, c)),
{
    reveal(apply_call);
}

#[verifier::spinoff_prover]
proof fn lemma_frame_relative_moves(t: TermState, c: Call)
    requires
        c is MoveCursorUp || c is MoveCursorDown || c is MoveCursorForward || c is MoveCursorBackward,
    ensures
        call_frame(t, c, apply_call(t, c)),
{
    reveal(apply_call);
}

#[verifier::spinoff_prover]
proof fn lemma_frame_saves(t: TermState, c: Call)
    requires
        c is SaveCursor || c is RestoreCursor || c is SetScrollRegion,
    ensures
        call_frame(t, c, apply_call(t, c)),
{
    reveal(apply_call);
}

proof fn lemma_frame_pen(t: TermState, c: Call)
    requires
        c is SetCursorStyle || c is SetFgColor || c is SetBgColor || c is SetBold || c is SetItalic
            || c is SetUnderline || c is SetStrikethrough || c is SetInverse || c is ResetAttributes
            || c is SetTitle || c is SetTabStop || c is ClearTabStop || c is ClearDirty,
    ensures
        call_frame(t, c, apply_call(t, c)),
{
    if c is SetCursorStyle || c is SetFgColor || c is SetBgColor || c is SetBold {
        lemma_frame_setters_a(t, c);
    } else if c is SetItalic || c is SetUnderline || c is SetStrikethrough || c is SetInverse {
        lemma_frame_setters_b(t, c);
    } else if c is ResetAttributes || c is SetTitle || c is ClearDirty {
        lemma_frame_setters_c(t, c);
    } else {
        lemma_frame_tab_stops(t, c);
    }
}

#[verifier::spinoff_prover]
proof fn lemma_frame_setters_a(t: TermState, c: Call)
    requires
        c is SetCursorStyle || c is SetFgColor || c is SetBgColor || c is SetBold,
    ensures
        call_frame(t, c, apply_call(t, c)),
{
    reveal(apply_call);
    match c {
        Call::SetCursorStyle(v) => {
            assert(apply_call(t, c) == (TermState { cursor_style: v, ..t }));
        },
        Call::SetFgColor(v) => {
            assert(apply_call(t, c) == (TermState { fg_color: v, ..t }));
        },
        Call::SetBgColor(v) => {
            assert(apply_call(t, c) == (TermState { bg_color: v, ..t }));
        },
        Call::SetBold(v) => {
            assert(apply_call(t, c) == (TermState { bold: v, ..t }));
        },
        _ => {},
    }
}

#[verifier::spinoff_prover]
proof fn lemma_frame_setters_b(t: TermState, c: Call)
    requires
        c is SetItalic || c is SetUnderline || c is SetStrikethrough || c is SetInverse,
    ensures
        call_frame(t, c, apply_call(t, c)),
{
    reveal(apply_call);
    match c {
        Call::SetItalic(v) => {
            assert(apply_call(t, c) == (TermState { italic: v, ..t }));
        },
        Call::SetUnderline(v) => {
            assert(apply_call(t, c) == (TermState { underline: v, ..t }));
        },
        Call::SetStrikethrough(v) => {
            assert(apply_call(t, c) == (TermState { strikethrough: v, ..t }));
        },
        Call::SetInverse(v) => {
            assert(apply_call(t, c) == (TermState { inverse: v, ..t }));
        },
        _ => {},
    }
}

#[verifier::spinoff_prover]
proof fn lemma_frame_setters_c(t: TermState, c: Call)
    requires
        c is ResetAttributes || c is SetTitle || c is ClearDirty,
    ensures
        call_frame(t, c, apply_call(t, c)),
{
    reveal(apply_call);
    match c {
        Call::ResetAttributes => {
            assert(apply_call(t, c) == t.reset_attributes());
        },
        Call::SetTitle(title) => {
            assert(apply_call(t, c) == (TermState { title, ..t }));
        },
        Call::ClearDirty => {
            assert(apply_call(t, c) == (TermState { dirty: false, ..t }));
        },
        _ => {},
    }
}

#[verifier::spinoff_prover]
proof fn lemma_frame_tab_stops(t: TermState, c: Call)
    requires
        c is SetTabStop || c is ClearTabStop,
    ensures
        call_frame(t, c, apply_call(t, c)),
{
    reveal(apply_call);
}

/// What a change of the shown screen leaves alone.
proof fn lemma_with_screen_frame(t: TermState, u: TermState)
    requires
        exists|g: Seq<Seq<crate::terminal::Cell>>| u == t.with_screen(g),
    ensures
        u.modes == t.modes && u.saved_cursor == t.saved_cursor && u.alt_cursor == t.alt_cursor,
        u.rows == t.rows && u.cols == t.cols && u.dirty,
        t.modes.alt_screen ==> u.grid == t.grid,
{
}

proof fn lemma_scrolled_up_frame(t: TermState, n: usize)
    ensures
        ({
            let u = t.scrolled_up(n);
            &&& u.modes == t.modes && u.saved_cursor == t.saved_cursor && u.alt_cursor == t.alt_cursor
            &&& u.rows == t.rows && u.cols == t.cols
            &&& t.modes.alt_screen ==> u.grid == t.grid
        }),
{
}

proof fn lemma_scrolled_down_frame(t: TermState, n: usize)
    ensures
        ({
            let u = t.scrolled_down(n);
            &&& u.modes == t.modes && u.saved_cursor == t.saved_cursor && u.alt_cursor == t.alt_cursor
            &&& u.rows == t.rows && u.cols == t.cols
            &&& t.modes.alt_screen ==> u.grid == t.grid
        }),
{
}

proof fn lemma_newline_frame(t: TermState)
    ensures
        ({
            let u = t.newline();
            &&& u.modes == t.modes && u.saved_cursor == t.saved_cursor && u.alt_cursor == t.alt_cursor
            &&& u.rows == t.rows && u.cols == t.cols
            &&& t.modes.alt_screen ==> u.grid == t.grid
        }),
{
    lemma_scrolled_up_frame(t, 1);
}

proof fn lemma_print_frame(t: TermState, ch: char)
    ensures
        ({
            let u = t.print(ch);
            &&& u.modes == t.modes && u.saved_cursor == t.saved_cursor && u.alt_cursor == t.alt_cursor
            &&& u.rows == t.rows && u.cols == t.cols
            &&& t.modes.alt_screen ==> u.grid == t.grid
        }),
{
    let g = t.screen();
    let x = t.cursor.x as int;
    let y = t.cursor.y as int;
    let row = if t.modes.insert { TermState::shift_right(g[y], x) } else { g[y] };
    let s = t.with_screen(g.update(y, row.update(x, t.pen_cell(ch))));
    lemma_newline_frame(s.with_x(0));
}

/// What a run of calls leaves alone.
proof fn lemma_calls_frame(t: TermState, calls: Seq<Call>)
    ensures
        ({
            let u = apply_calls(t, calls);
            &&& (forall|i: int| 0 <= i < calls.len() ==> !switches_screen(#[trigger] calls[i]))
                ==> u.modes.alt_screen == t.modes.alt_screen
            &&& (forall|i: int| 0 <= i < calls.len() ==> !touches_saved_cursor(#[trigger] calls[i]))
                ==> u.saved_cursor == t.saved_cursor && u.alt_cursor == t.alt_cursor
            &&& (forall|i: int| 0 <= i < calls.len() ==> !(#[trigger] calls[i] is Resize)) ==> u.rows
                == t.rows && u.cols == t.cols
            &&& (forall|i: int|
                0 <= i < calls.len() ==> !(#[trigger] calls[i] is Resize) && !switches_screen(
                    calls[i],
                )) && t.modes.alt_screen ==> u.grid == t.grid
            &&& (forall|i: int| 0 <= i < calls.len() ==> !writes_grid(#[trigger] calls[i])) && !t.dirty
                ==> !u.dirty
        }),
    decreases calls.len(),
{
    if calls.len() > 0 {
        let front = calls.drop_last();
        lemma_calls_frame(t, front);
        let v = apply_calls(t, front);
        lemma_call_frame(v, calls.last());
        assert forall|i: int| 0 <= i < front.len() implies front[i] == calls[i] by {}
        if forall|i: int| 0 <= i < calls.len() ==> !switches_screen(#[trigger] calls[i]) {
            assert(!switches_screen(calls[calls.len() - 1]));
        }
        if forall|i: int| 0 <= i < calls.len() ==> !(#[trigger] calls[i] is Resize) && !switches_screen(
            calls[i],
        ) {
            assert(!switches_screen(calls[calls.len() - 1]));
        }
    }
}

/// Only saving the cursor and switching screens change the saved cursors:
/// after a save, any calls but those, and a restore, the cursor is the one
/// saved, kept on the screen; with no resize among the calls it is exactly
/// the one saved.
pub proof fn law_restore_after_calls(t: TermState, calls: Seq<Call>)
    requires
        t.wf(),
        forall|i: int| 0 <= i < calls.len() ==> !touches_saved_cursor(#[trigger] calls[i]),
    ensures
        ({
            let u = apply_calls(t.save_cursor(), calls);
            &&& u.saved_cursor == t.save_cursor().saved_cursor
            &&& u.alt_cursor == t.save_cursor().alt_cursor
            &&& u.restore_cursor().cursor == u.clamp_cursor(t.cursor)
            &&& (forall|i: int| 0 <= i < calls.len() ==> !(#[trigger] calls[i] is Resize))
                ==> u.restore_cursor().cursor == t.cursor
        }),
{
    assert forall|i: int| 0 <= i < calls.len() implies !switches_screen(#[trigger] calls[i]) by {
        assert(!touches_saved_cursor(calls[i]));
    }
    lemma_calls_frame(t.save_cursor(), calls);
}

/// While the alternate screen is shown, no call but a resize, a save of the
/// cursor or a switch of screens changes the primary screen or the cursor
/// kept for it: leaving the alternate screen after any other calls gives
/// both back as they were on entering it.
pub proof fn law_alt_screen_over_calls(t: TermState, enter: i64, leave: i64, calls: Seq<Call>)
    requires
        t.wf(),
        !t.modes.alt_screen,
        enter == 47 || enter == 1047 || enter == 1049,
        leave == 47 || leave == 1047 || leave == 1049,
        forall|i: int|
            0 <= i < calls.len() ==> !touches_saved_cursor(#[trigger] calls[i]) && !(
            calls[i] is Resize),
    ensures
        ({
            let shown = apply_calls(t.set_mode(enter, true), calls);
            let u = shown.set_mode(leave, false);
            &&& shown.modes.alt_screen
            &&& shown.grid == t.grid
            &&& shown.alt_cursor == t.cursor
            &&& u.grid == t.grid
            &&& u.cursor == t.cursor
            &&& !u.modes.alt_screen
        }),
{
    assert forall|i: int| 0 <= i < calls.len() implies !switches_screen(#[trigger] calls[i]) by {
        assert(!touches_saved_cursor(calls[i]));
    }
    lemma_calls_frame(t.set_mode(enter, true), calls);
}

/// The changed-flag, once cleared, stays clear until a call writes to a
/// screen.
pub proof fn law_dirty_stays_clear(t: TermState, calls: Seq<Call>)
    requires
        forall|i: int| 0 <= i < calls.len() ==> !writes_grid(#[trigger] calls[i]),
    ensures
        !apply_calls(apply_call(t, Call::ClearDirty), calls).dirty,
{
    lemma_call_frame(t, Call::ClearDirty);
    lemma_calls_frame(apply_call(t, Call::ClearDirty), calls);
}

/// The calls that write to the screen set the changed-flag: always for
/// printing, erasing, deleting characters and inserting blanks; a resize to
/// another size; line feeds and index operations when they scroll; line
/// insertion and deletion when the cursor is in the scroll region.
pub proof fn law_grid_writes_set_dirty(t: TermState, c: Call)
    requires
        t.wf(),
    ensures
        (c is Print || c is EraseDisplay || c is EraseLine || c is EraseChars || c is DeleteChars
            || c is InsertBlank) ==> apply_call(t, c).dirty,
        (c matches Call::Resize(r, k) && (r != t.rows || k != t.cols)) ==> apply_call(t, c).dirty,
        (c is Newline && t.cursor.y >= t.scroll_bottom && t.scroll_top <= t.scroll_bottom)
            ==> apply_call(t, c).dirty,
        (c is Index && t.cursor.y == t.scroll_bottom && t.scroll_top <= t.scroll_bottom)
            ==> apply_call(t, c).dirty,
        (c is ReverseIndex && t.cursor.y == t.scroll_top && t.scroll_top <= t.scroll_bottom)
            ==> apply_call(t, c).dirty,
        ((c is InsertLines || c is DeleteLines) && t.in_region(t.cursor.y)) ==> apply_call(t, c).dirty,
{
    reveal(apply_call);
}

/// The arrow keys send `ESC [` and the final byte of the CSI sequence that
/// moves the cursor the same way: fed back to a terminal, the up arrow's
/// sequence moves the cursor up a line, the down arrow's down, the right
/// arrow's one column right and the left arrow's one column left.
pub proof fn law_arrow_keys_move_the_cursor(t: TermState)
    requires
        t.wf(),
        0 < t.cursor.x < sat_dec(t.cols),
        0 < t.cursor.y < sat_dec(t.rows),
    ensures
        ({
            let up = named_key_sequence(NamedKey::ArrowUp);
            let down = named_key_sequence(NamedKey::ArrowDown);
            let right = named_key_sequence(NamedKey::ArrowRight);
            let left = named_key_sequence(NamedKey::ArrowLeft);
            &&& up.len() == 3 && up[0] == 0x1B && up[1] == '[' as u8
            &&& down.len() == 3 && down[0] == 0x1B && down[1] == '[' as u8
            &&& right.len() == 3 && right[0] == 0x1B && right[1] == '[' as u8
            &&& left.len() == 3 && left[0] == 0x1B && left[1] == '[' as u8
            &&& csi(t, seq![], true, up[2] as char).cursor
                == (crate::terminal::Cursor { y: (t.cursor.y - 1) as usize, ..t.cursor })
            &&& csi(t, seq![], true, down[2] as char).cursor
                == (crate::terminal::Cursor { y: (t.cursor.y + 1) as usize, ..t.cursor })
            &&& csi(t, seq![], true, right[2] as char).cursor
                == (crate::terminal::Cursor { x: (t.cursor.x + 1) as usize, ..t.cursor })
            &&& csi(t, seq![], true, left[2] as char).cursor
                == (crate::terminal::Cursor { x: (t.cursor.x - 1) as usize, ..t.cursor })
        }),
{
    assert(('A' as u8) == 0x41u8);
}

/// The 256-colour table: the 216 colours after the palette form a
/// 6x6x6 cube with red varying slowest and blue fastest, each coordinate
/// `k` giving the intensity `42 k + 5`; the last 24 are greys from 8 up in
/// steps of 10; the first 16 are the palette's.
pub proof fn law_colour_table(palette: [[u8; 3]; 16], r: int, g: int, b: int, k: int, i: int)
    requires
        0 <= r < 6,
        0 <= g < 6,
        0 <= b < 6,
        0 <= k < 24,
        0 <= i < 16,
    ensures
        indexed_rgb((16 + 36 * r + 6 * g + b) as u8, palette)
            == rgb((42 * r + 5) as u8, (42 * g + 5) as u8, (42 * b + 5) as u8),
        indexed_rgb((232 + k) as u8, palette) == rgb((10 * k + 8) as u8, (10 * k + 8) as u8, (10 * k + 8) as u8),
        indexed_rgb(i as u8, palette) == rgb(palette[i][0], palette[i][1], palette[i][2]),
{
    let n = 36 * r + 6 * g + b;
    assert(0 <= 6 * g + b < 36) by (nonlinear_arith)
        requires 0 <= g < 6, 0 <= b < 6;
    assert(n == r * 36 + (6 * g + b));
    lemma_fundamental_div_mod_converse(n, 36, r, 6 * g + b);
    assert(n == (6 * r + g) * 6 + b);
    lemma_fundamental_div_mod_converse(n, 6, 6 * r + g, b);
    lemma_fundamental_div_mod_converse(6 * r + g, 6, r, g);
    assert(0 <= n < 216) by (nonlinear_arith)
        requires n == 36 * r + 6 * g + b, 0 <= r < 6, 0 <= g < 6, 0 <= b < 6;
    assert(((16 + n) as u8) - 16 == n);
}

/// Whether a cursor shape blinks.
pub open spec fn blinks(s: CursorStyle) -> bool {
    s is BlinkingBlock || s is BlinkingUnderline || s is BlinkingBar
}

/// The form of a cursor shape: 1 for a block, 2 for an underline, 3 for a bar.
pub open spec fn shape_form(s: CursorStyle) -> int {
    match s {
        CursorStyle::Block | CursorStyle::BlinkingBlock => 1,
        CursorStyle::Underline | CursorStyle::BlinkingUnderline => 2,
        CursorStyle::Bar | CursorStyle::BlinkingBar => 3,
    }
}

/// `CSI Ps SP q` picks the cursor shape: Ps 1 and 2 a block, 3 and 4 an
/// underline, 5 and 6 a bar, blinking for odd Ps and steady for even Ps; 0
/// is a blinking block; other values change nothing.
pub proof fn law_cursor_shape_sequence(t: TermState, ps: i64)
    ensures
        ({
            let u = csi(t, seq![ps], true, 'q');
            &&& 1 <= ps <= 6 ==> blinks(u.cursor_style) == (ps % 2 == 1)
                && shape_form(u.cursor_style) == (ps + 1) / 2
            &&& ps == 0 ==> blinks(u.cursor_style) && shape_form(u.cursor_style) == 1
            &&& !(0 <= ps <= 6) ==> u == t
            &&& u == (TermState { cursor_style: u.cursor_style, ..t })
        }),
{
}

/// Whether the flag with number `mode` is set in `m`.
pub open spec fn flag_of(m: TerminalModes, mode: i64) -> bool {
    if mode == 4 {
        m.insert
    } else if mode == 7 {
        m.auto_wrap
    } else if mode == 20 {
        m.application_cursor
    } else if mode == 1000 {
        m.mouse_tracking
    } else if mode == 1002 {
        m.mouse_motion_tracking
    } else if mode == 1004 {
        m.focus_events
    } else {
        m.bracketed_paste
    }
}

pub open spec fn is_flag_mode(mode: i64) -> bool {
    mode == 4 || mode == 7 || mode == 20 || mode == 1000 || mode == 1002 || mode == 1004 || mode == 2004
}

/// Setting or resetting a flag mode leaves that flag as asked, whatever it
/// was before, and every other flag as it was; so a reset after a set
/// turns the flag off again.
pub proof fn law_set_mode_flags(t: TermState, mode: i64, other: i64, set: bool)
    requires
        is_flag_mode(mode),
        is_flag_mode(other),
        other != mode,
    ensures
        flag_of(t.set_mode(mode, set).modes, mode) == set,
        flag_of(t.set_mode(mode, set).modes, other) == flag_of(t.modes, other),
        t.set_mode(mode, set).modes.alt_screen == t.modes.alt_screen,
        t.set_mode(mode, set).modes.origin == t.modes.origin,
        t.set_mode(mode, set).modes.reverse_video == t.modes.reverse_video,
        !flag_of(t.set_mode(mode, true).set_mode(mode, false).modes, mode),
        flag_of(t.set_mode(mode, false).set_mode(mode, true).modes, mode),
{
    lemma_flag_modes_after(t.modes, mode, other, set);
    let u = t.set_mode(mode, true);
    let v = t.set_mode(mode, false);
    lemma_flag_modes_after(t.modes, mode, other, true);
    lemma_flag_modes_after(t.modes, mode, other, false);
    lemma_flag_modes_after(u.modes, mode, other, false);
    lemma_flag_modes_after(v.modes, mode, other, true);
}

proof fn lemma_flag_modes_after(m: TerminalModes, mode: i64, other: i64, set: bool)
    requires
        is_flag_mode(mode),
        is_flag_mode(other),
        other != mode,
    ensures
        flag_of(TermState::modes_after(m, mode, set), mode) == set,
        flag_of(TermState::modes_after(m, mode, set), other) == flag_of(m, other),
        TermState::modes_after(m, mode, set).alt_screen == m.alt_screen,
        TermState::modes_after(m, mode, set).origin == m.origin,
        TermState::modes_after(m, mode, set).reverse_video == m.reverse_video,
        forall|t: TermState| #[trigger] t.set_mode(mode, set) == t.with_modes(TermState::modes_after(t.modes, mode, set)),
{
}

/// The cells of the first `n` of line `y` that `row_backgrounds` lists: each
/// entry names a cell whose background is not black, with that background,
/// and every such cell is listed.
proof fn lemma_row_backgrounds(row: Seq<crate::terminal::Cell>, y: usize, n: nat)
    requires
        n <= row.len(),
        n <= usize::MAX,
    ensures
        ({
            let bs = row_backgrounds(row, y, n);
            &&& forall|i: int|
                0 <= i < bs.len() ==> (#[trigger] bs[i]).0 < n && bs[i].1 == y && bs[i].2
                    == row[bs[i].0 as int].bg && bs[i].2 != rgb(0, 0, 0)
            &&& forall|x: int|
                0 <= x < n && (#[trigger] row[x]).bg != rgb(0, 0, 0) ==> exists|i: int|
                    0 <= i < bs.len() && #[trigger] bs[i] == (x as usize, y, row[x].bg)
        }),
    decreases n,
{
    if n > 0 {
        let x0 = (n - 1) as nat;
        lemma_row_backgrounds(row, y, x0);
        let prev = row_backgrounds(row, y, x0);
        let bs = row_backgrounds(row, y, n);
        assert forall|x: int|
            0 <= x < n && (#[trigger] row[x]).bg != rgb(0, 0, 0) implies exists|i: int|
            0 <= i < bs.len() && #[trigger] bs[i] == (x as usize, y, row[x].bg) by {
            if x < x0 {
                let i = choose|i: int| 0 <= i < prev.len() && #[trigger] prev[i] == (x as usize, y, row[x].bg);
                assert(bs[i] == prev[i]);
            } else {
                assert(bs[prev.len() as int] == (x as usize, y, row[x].bg));
            }
        }
    }
}

proof fn lemma_grid_backgrounds(g: Seq<Seq<crate::terminal::Cell>>, m: nat, cols: nat)
    requires
        m <= g.len(),
        m <= usize::MAX,
        cols <= usize::MAX,
        forall|y: int| 0 <= y < m ==> (#[trigger] g[y]).len() == cols,
    ensures
        ({
            let bs = grid_backgrounds(g, m, cols);
            &&& forall|i: int|
                0 <= i < bs.len() ==> (#[trigger] bs[i]).0 < cols && bs[i].1 < m && bs[i].2
                    == g[bs[i].1 as int][bs[i].0 as int].bg && bs[i].2 != rgb(0, 0, 0)
            &&& forall|y: int, x: int|
                0 <= y < m && 0 <= x < cols && (#[trigger] g[y][x]).bg != rgb(0, 0, 0) ==> exists|i: int|
                    0 <= i < bs.len() && #[trigger] bs[i] == (x as usize, y as usize, g[y][x].bg)
        }),
    decreases m,
{
    if m > 0 {
        let y0 = (m - 1) as nat;
        lemma_grid_backgrounds(g, y0, cols);
        lemma_row_backgrounds(g[y0 as int], y0 as usize, cols);
        let prev = grid_backgrounds(g, y0, cols);
        let rb = row_backgrounds(g[y0 as int], y0 as usize, cols);
        let bs = grid_backgrounds(g, m, cols);
        assert(bs == prev + rb);
        assert forall|i: int| 0 <= i < bs.len() implies (#[trigger] bs[i]).0 < cols && bs[i].1 < m
            && bs[i].2 == g[bs[i].1 as int][bs[i].0 as int].bg && bs[i].2 != rgb(0, 0, 0) by {
            if i < prev.len() {
                assert(bs[i] == prev[i]);
            } else {
                assert(bs[i] == rb[i - prev.len()]);
            }
        }
        assert forall|y: int, x: int|
            0 <= y < m && 0 <= x < cols && (#[trigger] g[y][x]).bg != rgb(0, 0, 0) implies exists|i: int|
            0 <= i < bs.len() && #[trigger] bs[i] == (x as usize, y as usize, g[y][x].bg) by {
            if y < y0 {
                let i = choose|i: int|
                    0 <= i < prev.len() && #[trigger] prev[i] == (x as usize, y as usize, g[y][x].bg);
                assert(bs[i] == prev[i]);
            } else {
                assert(g[y][x] == g[y0 as int][x]);
                let j = choose|j: int|
                    0 <= j < rb.len() && #[trigger] rb[j] == (x as usize, y0 as usize, g[y0 as int][x].bg);
                assert(bs[prev.len() + j] == rb[j]);
            }
        }
    }
}

/// The cells drawn with a background are exactly those whose background
/// colour is not black: every listed entry names a cell of the screen with
/// a non-black background, and every such cell is listed with its colour.
pub proof fn law_background_cells(t: TermState)
    requires
        t.wf(),
    ensures
        ({
            let g = t.screen();
            let bs = grid_backgrounds(g, t.rows as nat, t.cols as nat);
            &&& forall|i: int|
                0 <= i < bs.len() ==> (#[trigger] bs[i]).0 < t.cols && bs[i].1 < t.rows && bs[i].2
                    == g[bs[i].1 as int][bs[i].0 as int].bg && bs[i].2 != rgb(0, 0, 0)
            &&& forall|y: int, x: int|
                0 <= y < t.rows && 0 <= x < t.cols && (#[trigger] g[y][x]).bg != rgb(0, 0, 0)
                    ==> exists|i: int|
                    0 <= i < bs.len() && #[trigger] bs[i] == (x as usize, y as usize, g[y][x].bg)
        }),
{
    assert(grid_shape(t.screen(), t.rows as nat, t.cols as nat));
    lemma_grid_backgrounds(t.screen(), t.rows as nat, t.cols as nat);
}

/// What each named key sends, as characters: Enter a carriage return,
/// Backspace DEL, Tab a tab, Escape ESC; the arrows `ESC [ A` (up), `B`
/// (down), `C` (right), `D` (left); Home and End `ESC [ H` and `ESC [ F`;
/// the editing keys `ESC [ n ~`; F1 to F4 `ESC O P` to `ESC O S`; F5 to F12
/// `ESC [ n ~` with n from 15 to 24, skipping 16 and 22.
pub proof fn law_named_key_sequences()
    ensures
        named_key_sequence(NamedKey::Enter) == seq!['\r' as u8],
        named_key_sequence(NamedKey::Backspace) == seq!['\x7f' as u8],
        named_key_sequence(NamedKey::Tab) == seq!['\t' as u8],
        named_key_sequence(NamedKey::Escape) == seq![0x1Bu8],
        named_key_sequence(NamedKey::ArrowUp) == seq![0x1Bu8, '[' as u8, 'A' as u8],
        named_key_sequence(NamedKey::ArrowDown) == seq![0x1Bu8, '[' as u8, 'B' as u8],
        named_key_sequence(NamedKey::ArrowRight) == seq![0x1Bu8, '[' as u8, 'C' as u8],
        named_key_sequence(NamedKey::ArrowLeft) == seq![0x1Bu8, '[' as u8, 'D' as u8],
        named_key_sequence(NamedKey::Home) == seq![0x1Bu8, '[' as u8, 'H' as u8],
        named_key_sequence(NamedKey::End) == seq![0x1Bu8, '[' as u8, 'F' as u8],
        named_key_sequence(NamedKey::PageUp) == seq![0x1Bu8, '[' as u8, '5' as u8, '~' as u8],
        named_key_sequence(NamedKey::PageDown) == seq![0x1Bu8, '[' as u8, '6' as u8, '~' as u8],
        named_key_sequence(NamedKey::Insert) == seq![0x1Bu8, '[' as u8, '2' as u8, '~' as u8],
        named_key_sequence(NamedKey::Delete) == seq![0x1Bu8, '[' as u8, '3' as u8, '~' as u8],
        named_key_sequence(NamedKey::F1) == seq![0x1Bu8, 'O' as u8, 'P' as u8],
        named_key_sequence(NamedKey::F2) == seq![0x1Bu8, 'O' as u8, 'Q' as u8],
        named_key_sequence(NamedKey::F3) == seq![0x1Bu8, 'O' as u8, 'R' as u8],
        named_key_sequence(NamedKey::F4) == seq![0x1Bu8, 'O' as u8, 'S' as u8],
        named_key_sequence(NamedKey::F5) == seq![0x1Bu8, '[' as u8, '1' as u8, '5' as u8, '~' as u8],
        named_key_sequence(NamedKey::F6) == seq![0x1Bu8, '[' as u8, '1' as u8, '7' as u8, '~' as u8],
        named_key_sequence(NamedKey::F7) == seq![0x1Bu8, '[' as u8, '1' as u8, '8' as u8, '~' as u8],
        named_key_sequence(NamedKey::F8) == seq![0x1Bu8, '[' as u8, '1' as u8, '9' as u8, '~' as u8],
        named_key_sequence(NamedKey::F9) == seq![0x1Bu8, '[' as u8, '2' as u8, '0' as u8, '~' as u8],
        named_key_sequence(NamedKey::F10) == seq![0x1Bu8, '[' as u8, '2' as u8, '1' as u8, '~' as u8],
        named_key_sequence(NamedKey::F11) == seq![0x1Bu8, '[' as u8, '2' as u8, '3' as u8, '~' as u8],
        named_key_sequence(NamedKey::F12) == seq![0x1Bu8, '[' as u8, '2' as u8, '4' as u8, '~' as u8],
{
}

/// SGR palette colours: 30-37 and 40-47 take the foreground and the
/// background from the first eight palette entries, 90-97 and 100-107 from
/// the last eight; 39 and 49 give back light grey and black. Foreground
/// selections leave the background alone and the other way round.
#[verifier::spinoff_prover]
pub proof fn law_sgr_palette_colours(t: TermState, i: i64)
    requires
        0 <= i < 8,
    ensures
        sgr(t, seq![(30 + i) as i64]).fg_color == rgb(t.palette[i as int][0], t.palette[i as int][1], t.palette[i as int][2]),
        sgr(t, seq![(30 + i) as i64]).bg_color == t.bg_color,
        sgr(t, seq![(40 + i) as i64]).bg_color == rgb(t.palette[i as int][0], t.palette[i as int][1], t.palette[i as int][2]),
        sgr(t, seq![(40 + i) as i64]).fg_color == t.fg_color,
        sgr(t, seq![(90 + i) as i64]).fg_color == rgb(t.palette[i + 8][0], t.palette[i + 8][1], t.palette[i + 8][2]),
        sgr(t, seq![(100 + i) as i64]).bg_color == rgb(t.palette[i + 8][0], t.palette[i + 8][1], t.palette[i + 8][2]),
        sgr(t, seq![39i64]).fg_color == rgb(0xcc, 0xcc, 0xcc),
        sgr(t, seq![49i64]).bg_color == rgb(0, 0, 0),
{
    reveal_with_fuel(sgr_from, 2);
}

/// `38;2;r;g;b` and `48;2;r;g;b` give the foreground or background by its
/// components, each clamped to 0-255, and leave the other colour alone.
#[verifier::spinoff_prover]
pub proof fn law_sgr_true_colours(t: TermState, r: i64, g: i64, b: i64)
    requires
        0 <= r <= 255,
        0 <= g <= 255,
        0 <= b <= 255,
    ensures
        sgr(t, seq![38i64, 2, r, g, b]).fg_color == rgb(r as u8, g as u8, b as u8),
        sgr(t, seq![38i64, 2, r, g, b]).bg_color == t.bg_color,
        sgr(t, seq![48i64, 2, r, g, b]).bg_color == rgb(r as u8, g as u8, b as u8),
        sgr(t, seq![48i64, 2, r, g, b]).fg_color == t.fg_color,
        sgr(t, seq![38i64, 2, -1i64, 256, b]).fg_color == rgb(0, 255, b as u8),
{
    reveal_with_fuel(sgr_from, 2);
}

/// `38;5;n` and `48;5;n` give the foreground or background the colour `n`
/// of the 256-colour table, and leave the other colour alone.
#[verifier::spinoff_prover]
pub proof fn law_sgr_table_colours(t: TermState, n: i64)
    requires
        0 <= n <= 255,
    ensures
        sgr(t, seq![38i64, 5, n]).fg_color == indexed_rgb(n as u8, t.palette),
        sgr(t, seq![38i64, 5, n]).bg_color == t.bg_color,
        sgr(t, seq![48i64, 5, n]).bg_color == indexed_rgb(n as u8, t.palette),
        sgr(t, seq![48i64, 5, n]).fg_color == t.fg_color,
{
    reveal_with_fuel(sgr_from, 2);
}

} // verus!
