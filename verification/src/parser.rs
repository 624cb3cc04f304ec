//! The control-sequence dispatcher: what each character, control byte and
//! escape, CSI and OSC sequence does to the terminal.

use vstd::prelude::*;
use vstd::string::StrSliceExecFns;
use vstd::utf8::{decode_utf8, valid_utf8};
use vte::Params;
use crate::model::{TermState, clamp_count, rgb, sat_dec};
use crate::terminal::{CursorStyle, Rgb, Terminal};

verus! {

#[verifier::external_type_specification]
#[verifier::external_body]
pub struct ExParams(Params);

/// What a parameter list of a sequence holds: each parameter as the list of
/// its value and subparameters.
pub uninterp spec fn param_groups(params: Params) -> Seq<Seq<u16>>;

/// Calls `Params::iter` of the `vte` crate and collects each parameter's
/// slice of values. Claimed: the result holds, in order, what the list holds.
#[verifier::external_body]
fn param_groups_of(params: &Params) -> (groups: Vec<Vec<u16>>)
    ensures
        groups@.len() == param_groups(*params).len(),
        forall|i: int| 0 <= i < groups@.len() ==> #[trigger] groups@[i]@ == param_groups(*params)[i],
{
    params.iter().map(|p| p.to_vec()).collect()
}

/// Calls `std::str::from_utf8`. Claimed: it succeeds exactly on valid UTF-8,
/// and then gives the characters that the bytes encode.
#[verifier::external_body]
fn str_from_utf8(bytes: &[u8]) -> (s: Option<&str>)
    ensures
        s is Some <==> valid_utf8(bytes@),
        s matches Some(t) ==> t@ == decode_utf8(bytes@),
{
    std::str::from_utf8(bytes).ok()
}

/// The value of a parameter: its first value, or zero when it has none.
pub open spec fn first_or_zero(group: Seq<u16>) -> i64 {
    if group.len() > 0 { group[0] as i64 } else { 0 }
}

/// The values of the parameters, one per parameter.
pub open spec fn param_values(groups: Seq<Seq<u16>>) -> Seq<i64> {
    Seq::new(groups.len(), |i: int| first_or_zero(groups[i]))
}

/// The text that `bytes` encode, or nothing when they are not valid UTF-8.
pub open spec fn text_or_empty(bytes: Seq<u8>) -> Seq<char> {
    if valid_utf8(bytes) { decode_utf8(bytes) } else { Seq::empty() }
}

/// The `i`-th value of `p`, or `default` when there is none.
pub open spec fn param_or(p: Seq<i64>, i: int, default: i64) -> i64 {
    if 0 <= i < p.len() { p[i] } else { default }
}

/// A colour component given as a parameter: clamped to `0..=255`.
pub open spec fn component(v: i64) -> u8 {
    if v < 0 { 0 } else if v > 255 { 255 } else { v as u8 }
}

pub open spec fn palette_rgb(palette: [[u8; 3]; 16], idx: int) -> Rgb {
    rgb(palette[idx][0], palette[idx][1], palette[idx][2])
}

/// The colour with number `idx` of the 256-colour table: the palette for the
/// first sixteen, then a 6x6x6 colour cube, then 24 shades of grey.
pub open spec fn indexed_rgb(idx: u8, palette: [[u8; 3]; 16]) -> Rgb {
    if idx < 16 {
        palette_rgb(palette, idx as int)
    } else if idx < 232 {
        let n = idx - 16;
        rgb(
            ((n / 36) * 42 + 5) as u8,
            (((n / 6) % 6) * 42 + 5) as u8,
            ((n % 6) * 42 + 5) as u8,
        )
    } else {
        let gray = ((idx - 232) * 10 + 8) as u8;
        rgb(gray, gray, gray)
    }
}

/// What the SGR parameter at position `i` does, and the position of the last
/// parameter that it used.
pub open spec fn sgr_step(t: TermState, p: Seq<i64>, i: int) -> (TermState, int) {
    let v = p[i];
    if v == 0 {
        (t.reset_attributes(), i)
    } else if v == 1 {
        (TermState { bold: true, ..t }, i)
    } else if v == 2 || v == 21 || v == 22 {
        (TermState { bold: false, ..t }, i)
    } else if v == 3 {
        (TermState { italic: true, ..t }, i)
    } else if v == 23 {
        (TermState { italic: false, ..t }, i)
    } else if v == 4 {
        (TermState { underline: true, ..t }, i)
    } else if v == 24 {
        (TermState { underline: false, ..t }, i)
    } else if v == 7 {
        (TermState { inverse: true, ..t }, i)
    } else if v == 27 {
        (TermState { inverse: false, ..t }, i)
    } else if v == 9 {
        (TermState { strikethrough: true, ..t }, i)
    } else if v == 29 {
        (TermState { strikethrough: false, ..t }, i)
    } else if 30 <= v <= 37 {
        (TermState { fg_color: palette_rgb(t.palette, v - 30), ..t }, i)
    } else if 40 <= v <= 47 {
        (TermState { bg_color: palette_rgb(t.palette, v - 40), ..t }, i)
    } else if 90 <= v <= 97 {
        (TermState { fg_color: palette_rgb(t.palette, v - 90 + 8), ..t }, i)
    } else if 100 <= v <= 107 {
        (TermState { bg_color: palette_rgb(t.palette, v - 100 + 8), ..t }, i)
    } else if v == 39 {
        (TermState { fg_color: rgb(0xcc, 0xcc, 0xcc), ..t }, i)
    } else if v == 49 {
        (TermState { bg_color: rgb(0, 0, 0), ..t }, i)
    } else if (v == 38 || v == 48) && i + 1 < p.len() {
        let c = if p[i + 1] == 2 && i + 4 < p.len() {
            Some(
                (rgb(component(p[i + 2]), component(p[i + 3]), component(p[i + 4])), i + 4),
            )
        } else if p[i + 1] == 5 && i + 2 < p.len() {
            Some((indexed_rgb(component(p[i + 2]), t.palette), i + 2))
        } else {
            None
        };
        match c {
            Some((color, last)) => if v == 38 {
                (TermState { fg_color: color, ..t }, last)
            } else {
                (TermState { bg_color: color, ..t }, last)
            },
            None => (t, i),
        }
    } else {
        (t, i)
    }
}

/// The SGR parameters from position `i` on, applied in turn.
pub open spec fn sgr_from(t: TermState, p: Seq<i64>, i: int) -> TermState
    decreases p.len() - i,
{
    if i < 0 || i >= p.len() {
        t
    } else {
        let (t2, last) = sgr_step(t, p, i);
        if last < i {
            t2
        } else {
            sgr_from(t2, p, last + 1)
        }
    }
}

/// Select Graphic Rendition: no parameters, or a first parameter of zero,
/// only resets the attributes.
pub open spec fn sgr(t: TermState, p: Seq<i64>) -> TermState {
    if p.len() == 0 || p[0] == 0 {
        t.reset_attributes()
    } else {
        sgr_from(t, p, 0)
    }
}

/// The terminal after `n` index operations.
pub open spec fn index_times(t: TermState, n: nat) -> TermState
    decreases n,
{
    if n == 0 { t } else { index_times(t, (n - 1) as nat).index() }
}

pub open spec fn index_times_ok(t: TermState, n: nat) -> bool
    decreases n,
{
    n == 0 || (index_times_ok(t, (n - 1) as nat) && index_times(t, (n - 1) as nat).index_ok())
}

/// The terminal after `n` reverse index operations.
pub open spec fn reverse_index_times(t: TermState, n: nat) -> TermState
    decreases n,
{
    if n == 0 { t } else { reverse_index_times(t, (n - 1) as nat).reverse_index() }
}

pub open spec fn reverse_index_times_ok(t: TermState, n: nat) -> bool
    decreases n,
{
    n == 0 || (reverse_index_times_ok(t, (n - 1) as nat) && reverse_index_times(
        t,
        (n - 1) as nat,
    ).reverse_index_ok())
}

/// A C0 control byte does not fail here.
pub open spec fn execute_ok(t: TermState, byte: u8) -> bool {
    byte == 0x0A || byte == 0x0B || byte == 0x0C ==> t.newline_ok()
}

/// What a C0 control byte does: backspace, tab, line feed (also for vertical
/// tab and form feed) and carriage return; the others do nothing.
pub open spec fn execute(t: TermState, byte: u8) -> TermState {
    if byte == 0x08 {
        t.backspace()
    } else if byte == 0x09 {
        t.tab()
    } else if byte == 0x0A || byte == 0x0B || byte == 0x0C {
        t.newline()
    } else if byte == 0x0D {
        t.carriage_return()
    } else {
        t
    }
}

pub open spec fn esc_ok(t: TermState, byte: u8) -> bool {
    &&& byte == 0x44 ==> t.index_ok()
    &&& byte == 0x45 ==> t.newline_ok()
    &&& byte == 0x4D ==> t.reverse_index_ok()
}

/// What an escape sequence with final byte `byte` does.
pub open spec fn esc(t: TermState, byte: u8) -> TermState {
    if byte == 0x37 {
        t.save_cursor()
    } else if byte == 0x38 {
        t.restore_cursor()
    } else if byte == 0x44 {
        t.index()
    } else if byte == 0x45 {
        t.newline()
    } else if byte == 0x48 {
        t.set_tab_stop()
    } else if byte == 0x4D {
        t.reverse_index()
    } else {
        t
    }
}

/// What an operating system command does: `0` and `2` set the title to the
/// second parameter.
pub open spec fn osc(t: TermState, params: Seq<Seq<u8>>) -> TermState {
    if params.len() == 0 {
        t
    } else {
        let sel = text_or_empty(params[0]);
        if (sel == seq!['0'] || sel == seq!['2']) && params.len() > 1 {
            TermState { title: text_or_empty(params[1]), ..t }
        } else {
            t
        }
    }
}

/// The cursor shape that `CSI Ps SP q` selects, if `ps` names one.
pub open spec fn cursor_style_for(ps: i64) -> Option<CursorStyle> {
    if ps == 0 || ps == 1 {
        Some(CursorStyle::BlinkingBlock)
    } else if ps == 2 {
        Some(CursorStyle::Block)
    } else if ps == 3 {
        Some(CursorStyle::BlinkingUnderline)
    } else if ps == 4 {
        Some(CursorStyle::Underline)
    } else if ps == 5 {
        Some(CursorStyle::BlinkingBar)
    } else if ps == 6 {
        Some(CursorStyle::Bar)
    } else {
        None
    }
}

/// The row and column that `CSI row ; col H` passes on: a zero counts as one.
pub open spec fn position_arg(v: i64) -> usize {
    (if v == 0 { 1 } else { v }) as usize
}

/// A CSI sequence with parameters `p` and final character `action` does not
/// fail here.
pub open spec fn csi_ok(t: TermState, p: Seq<i64>, action: char) -> bool {
    let p0 = param_or(p, 0, 0);
    if action == '@' {
        t.insert_blank_ok(p0)
    } else if action == 'B' || action == 'E' {
        t.move_cursor_down_ok(p0)
    } else if action == 'C' {
        t.move_cursor_forward_ok(p0)
    } else if action == 'H' || action == 'f' {
        t.set_cursor_ok(position_arg(p0))
    } else if action == 'J' {
        t.erase_display_ok(p0)
    } else if action == 'K' {
        t.erase_line_ok(p0)
    } else if action == 'L' {
        t.insert_lines_ok(p0)
    } else if action == 'M' {
        t.delete_lines_ok(p0)
    } else if action == 'P' {
        t.delete_chars_ok(p0)
    } else if action == 'X' {
        t.erase_chars_ok(p0)
    } else if action == 'S' {
        index_times_ok(t, clamp_count(p0) as nat)
    } else if action == 'T' {
        reverse_index_times_ok(t, clamp_count(p0) as nat)
    } else if action == 'd' {
        t.set_cursor_row_ok(p0)
    } else {
        true
    }
}

/// What a CSI sequence with parameters `p`, final character `action` and
/// (when `plain`) no intermediate bytes does.
pub open spec fn csi(t: TermState, p: Seq<i64>, plain: bool, action: char) -> TermState {
    let p0 = param_or(p, 0, 0);
    let p1 = param_or(p, 1, 0);
    if action == '@' {
        t.insert_blank(p0)
    } else if action == 'A' {
        t.move_cursor_up(p0)
    } else if action == 'B' {
        t.move_cursor_down(p0)
    } else if action == 'C' {
        t.move_cursor_forward(p0)
    } else if action == 'D' {
        t.move_cursor_backward(p0)
    } else if action == 'E' {
        t.move_cursor_down(p0).carriage_return()
    } else if action == 'F' {
        t.move_cursor_up(p0).carriage_return()
    } else if action == 'G' {
        t.set_cursor_column(p0)
    } else if action == 'H' || action == 'f' {
        t.set_cursor(position_arg(p1), position_arg(p0))
    } else if action == 'J' {
        t.erase_display(p0)
    } else if action == 'K' {
        t.erase_line(p0)
    } else if action == 'L' {
        t.insert_lines(p0)
    } else if action == 'M' {
        t.delete_lines(p0)
    } else if action == 'P' {
        t.delete_chars(p0)
    } else if action == 'X' {
        t.erase_chars(p0)
    } else if action == 'S' {
        index_times(t, clamp_count(p0) as nat)
    } else if action == 'T' {
        reverse_index_times(t, clamp_count(p0) as nat)
    } else if action == 'd' {
        t.set_cursor_row(p0)
    } else if action == 'm' {
        sgr(t, p)
    } else if action == 'r' {
        t.set_scroll_region(param_or(p, 0, 1), param_or(p, 1, t.rows as i64))
    } else if action == 'h' && plain {
        t.set_mode(p0, true)
    } else if action == 'l' && plain {
        t.set_mode(p0, false)
    } else if action == 's' {
        t.save_cursor()
    } else if action == 'u' {
        t.restore_cursor()
    } else if action == 'q' {
        match cursor_style_for(p0) {
            Some(style) => TermState { cursor_style: style, ..t },
            None => t,
        }
    } else {
        t
    }
}



/// Index operations keep the size and the scroll region.
proof fn lemma_index_times_region(t: TermState, k: nat)
    ensures
        index_times(t, k).rows == t.rows,
        index_times(t, k).cols == t.cols,
        index_times(t, k).scroll_top == t.scroll_top,
        index_times(t, k).scroll_bottom == t.scroll_bottom,
    decreases k,
{
    if k > 0 {
        lemma_index_times_region(t, (k - 1) as nat);
    }
}

/// Once an index operation fails, every longer run of them fails.
proof fn lemma_index_times_fail_after(t: TermState, k: nat, n: nat)
    requires
        k < n,
        !index_times(t, k).index_ok(),
    ensures
        !index_times_ok(t, n),
    decreases n,
{
    if n > k + 1 {
        lemma_index_times_fail_after(t, k, (n - 1) as nat);
    }
}

/// Reverse index operations keep the size and the scroll region.
proof fn lemma_reverse_index_times_region(t: TermState, k: nat)
    ensures
        reverse_index_times(t, k).rows == t.rows,
        reverse_index_times(t, k).cols == t.cols,
        reverse_index_times(t, k).scroll_top == t.scroll_top,
        reverse_index_times(t, k).scroll_bottom == t.scroll_bottom,
    decreases k,
{
    if k > 0 {
        lemma_reverse_index_times_region(t, (k - 1) as nat);
    }
}

/// Once a reverse index operation fails, every longer run of them fails.
proof fn lemma_reverse_index_times_fail_after(t: TermState, k: nat, n: nat)
    requires
        k < n,
        !reverse_index_times(t, k).reverse_index_ok(),
    ensures
        !reverse_index_times_ok(t, n),
    decreases n,
{
    if n > k + 1 {
        lemma_reverse_index_times_fail_after(t, k, (n - 1) as nat);
    }
}


/// A run of index operations that succeeds succeeds in each shorter prefix.
proof fn lemma_index_times_ok_prefix(t: TermState, m: nat, n: nat)
    requires
        m <= n,
        index_times_ok(t, n),
    ensures
        index_times_ok(t, m),
    decreases n,
{
    if m < n {
        lemma_index_times_ok_prefix(t, m, (n - 1) as nat);
    }
}

/// A run of reverse index operations that succeeds succeeds in each shorter prefix.
proof fn lemma_reverse_index_times_ok_prefix(t: TermState, m: nat, n: nat)
    requires
        m <= n,
        reverse_index_times_ok(t, n),
    ensures
        reverse_index_times_ok(t, m),
    decreases n,
{
    if m < n {
        lemma_reverse_index_times_ok_prefix(t, m, (n - 1) as nat);
    }
}

/// The value of the `idx`-th parameter, or zero when there is none.
#[allow(dead_code)]
fn get_param(params: &Params, idx: usize) -> (v: i64)
    ensures
        v == param_or(param_values(param_groups(*params)), idx as int, 0),
{
    let groups = param_groups_of(params);
    if idx < groups.len() {
        if groups[idx].len() > 0 {
            groups[idx][0] as i64
        } else {
            0
        }
    } else {
        0
    }
}

/// The values of the parameters: the first value of each, or zero.
fn get_params_vec(params: &Params) -> (values: Vec<i64>)
    ensures
        values@ == param_values(param_groups(*params)),
{
    let groups = param_groups_of(params);
    let ghost g = param_groups(*params);
    let mut values: Vec<i64> = Vec::with_capacity(groups.len());
    let mut i: usize = 0;
    while i < groups.len()
        invariant
            groups@.len() == g.len(),
            forall|j: int| 0 <= j < groups@.len() ==> #[trigger] groups@[j]@ == g[j],
            i <= groups@.len(),
            values@ == param_values(g.subrange(0, i as int)),
        decreases groups@.len() - i,
    {
        let v = if groups[i].len() > 0 {
            groups[i][0] as i64
        } else {
            0
        };
        values.push(v);
        assert(values@ =~= param_values(g.subrange(0, i + 1)));
        i += 1;
    }
    assert(g.subrange(0, i as int) =~= g);
    values
}

/// The colour with number `idx` of the 256-colour table.
fn indexed_color(idx: u8, palette: &[[u8; 3]; 16]) -> (c: Rgb)
    ensures
        c == indexed_rgb(idx, *palette),
{
    if idx < 16 {
        Rgb::new(palette[idx as usize][0], palette[idx as usize][1], palette[idx as usize][2])
    } else if idx < 232 {
        let n = idx - 16;
        let r = (n / 36) * 42 + 5;
        let g = ((n / 6) % 6) * 42 + 5;
        let b = (n % 6) * 42 + 5;
        Rgb::new(r, g, b)
    } else {
        let gray = (idx - 232) * 10 + 8;
        Rgb::new(gray, gray, gray)
    }
}

fn palette_color(terminal: &Terminal, idx: usize) -> (c: Rgb)
    requires
        idx < 16,
    ensures
        c == palette_rgb(terminal@.palette, idx as int),
{
    let palette = *terminal.color_palette();
    let c = palette[idx];
    Rgb::new(c[0], c[1], c[2])
}

fn component_of(v: i64) -> (c: u8)
    ensures
        c == component(v),
{
    if v < 0 {
        0
    } else if v > 255 {
        255
    } else {
        v as u8
    }
}


/// Apply the SGR parameter at position `i`; the result is the position of the
/// last parameter that it used.
fn sgr_apply_one(terminal: &mut Terminal, params: &[i64], i: usize) -> (last: usize)
    requires
        old(terminal).wf(),
        i < params@.len(),
    ensures
        final(terminal).wf(),
        (final(terminal)@, last as int) == sgr_step(old(terminal)@, params@, i as int),
        i <= last < params@.len(),
{
    let v = params[i];
    let len = params.len();
    let mut last = i;
    if v == 0 {
        terminal.reset_attributes();
    } else if v == 1 {
        terminal.set_bold(true);
    } else if v == 2 || v == 21 || v == 22 {
        terminal.set_bold(false);
    } else if v == 3 {
        terminal.set_italic(true);
    } else if v == 23 {
        terminal.set_italic(false);
    } else if v == 4 {
        terminal.set_underline(true);
    } else if v == 24 {
        terminal.set_underline(false);
    } else if v == 7 {
        terminal.set_inverse(true);
    } else if v == 27 {
        terminal.set_inverse(false);
    } else if v == 9 {
        terminal.set_strikethrough(true);
    } else if v == 29 {
        terminal.set_strikethrough(false);
    } else if 30 <= v && v <= 37 {
        let c = palette_color(terminal, (v - 30) as usize);
        terminal.set_fg_color(c);
    } else if 40 <= v && v <= 47 {
        let c = palette_color(terminal, (v - 40) as usize);
        terminal.set_bg_color(c);
    } else if 90 <= v && v <= 97 {
        let c = palette_color(terminal, (v - 90 + 8) as usize);
        terminal.set_fg_color(c);
    } else if 100 <= v && v <= 107 {
        let c = palette_color(terminal, (v - 100 + 8) as usize);
        terminal.set_bg_color(c);
    } else if v == 39 {
        terminal.set_fg_color(Rgb::new(0xcc, 0xcc, 0xcc));
    } else if v == 49 {
        terminal.set_bg_color(Rgb::new(0, 0, 0));
    } else if (v == 38 || v == 48) && len - i > 1 {
        let kind = params[i + 1];
        let mut color: Option<Rgb> = None;
        if kind == 2 && len - i > 4 {
            color = Some(
                Rgb::new(
                    component_of(params[i + 2]),
                    component_of(params[i + 3]),
                    component_of(params[i + 4]),
                ),
            );
            last = i + 4;
        } else if kind == 5 && len - i > 2 {
            let idx = component_of(params[i + 2]);
            color = Some(indexed_color(idx, terminal.color_palette()));
            last = i + 2;
        }
        if let Some(c) = color {
            if v == 38 {
                terminal.set_fg_color(c);
            } else {
                terminal.set_bg_color(c);
            }
        }
    }
    last
}

/// Select Graphic Rendition: set colours and attributes from `params`.
fn handle_sgr(terminal: &mut Terminal, params: &[i64])
    requires
        old(terminal).wf(),
    ensures
        final(terminal).wf(),
        final(terminal)@ == sgr(old(terminal)@, params@),
{
    if params.len() == 0 || params[0] == 0 {
        terminal.reset_attributes();
        return;
    }
    let ghost t0 = terminal@;
    let ghost p = params@;
    let mut i: usize = 0;
    while i < params.len()
        invariant
            p == params@,
            terminal.wf(),
            i <= p.len(),
            sgr_from(t0, p, 0) == sgr_from(terminal@, p, i as int),
        decreases p.len() - i,
    {
        i = sgr_apply_one(terminal, params, i);
        i += 1;
    }
}


/// `count` index operations in a row.
fn repeat_index(terminal: &mut Terminal, count: usize)
    requires
        old(terminal).wf(),
        index_times_ok(old(terminal)@, count as nat),
    ensures
        final(terminal).wf(),
        final(terminal)@ == index_times(old(terminal)@, count as nat),
{
    let ghost t0 = terminal@;
    for k in 0..count
        invariant
            index_times_ok(t0, count as nat),
            terminal.wf(),
            terminal@ == index_times(t0, k as nat),
    {
        proof {
            lemma_index_times_ok_prefix(t0, (k + 1) as nat, count as nat);
        }
        terminal.index();
    }
}

/// `count` reverse index operations in a row.
fn repeat_reverse_index(terminal: &mut Terminal, count: usize)
    requires
        old(terminal).wf(),
        reverse_index_times_ok(old(terminal)@, count as nat),
    ensures
        final(terminal).wf(),
        final(terminal)@ == reverse_index_times(old(terminal)@, count as nat),
{
    let ghost t0 = terminal@;
    for k in 0..count
        invariant
            reverse_index_times_ok(t0, count as nat),
            terminal.wf(),
            terminal@ == reverse_index_times(t0, k as nat),
    {
        proof {
            lemma_reverse_index_times_ok_prefix(t0, (k + 1) as nat, count as nat);
        }
        terminal.reverse_index();
    }
}

/// The state of a terminal driven by control sequences.
pub struct Parser {
    pub terminal: Terminal,
}

impl Parser {
    pub fn new(terminal: Terminal) -> (p: Parser)
        ensures
            p.terminal == terminal,
    {
        Parser { terminal }
    }

    /// Whether all of `n` index operations succeed, followed on the cursor line alone.
    fn index_times_allowed(&self, n: usize) -> (b: bool)
        requires
            self.terminal.wf(),
        ensures
            b == index_times_ok(self.terminal@, n as nat),
    {
        let ghost t0 = self.terminal@;
        let (_top, bottom) = self.terminal.scroll_region();
        let last = self.terminal.rows().saturating_sub(1);
        let scroll_ok = self.terminal.scroll_up_allowed(1);
        let mut y = self.terminal.cursor().y;
        let mut k: usize = 0;
        while k < n
            invariant
                k <= n,
                t0 == self.terminal@,
                index_times_ok(t0, k as nat),
                y == index_times(t0, k as nat).cursor.y,
                y < usize::MAX,
                bottom == t0.scroll_bottom,
                last == sat_dec(t0.rows),
                scroll_ok == t0.scroll_up_ok(1),
            decreases n - k,
        {
            proof {
                lemma_index_times_region(t0, k as nat);
            }
            if y == bottom {
                if !scroll_ok {
                    proof {
                        assert(!index_times(t0, k as nat).scroll_up_ok(1));
                        assert(!index_times(t0, k as nat).index_ok());
                        lemma_index_times_fail_after(t0, k as nat, n as nat);
                    }
                    return false;
                }
            } else {
                y = if y + 1 < last { y + 1 } else { last };
            }
            k += 1;
        }
        true
    }

    /// Whether all of `n` reverse index operations succeed, followed on the
    /// cursor line alone.
    fn reverse_index_times_allowed(&self, n: usize) -> (b: bool)
        requires
            self.terminal.wf(),
        ensures
            b == reverse_index_times_ok(self.terminal@, n as nat),
    {
        let ghost t0 = self.terminal@;
        let (top, _bottom) = self.terminal.scroll_region();
        let scroll_ok = self.terminal.scroll_down_allowed(1);
        let mut y = self.terminal.cursor().y;
        let mut k: usize = 0;
        while k < n
            invariant
                k <= n,
                t0 == self.terminal@,
                reverse_index_times_ok(t0, k as nat),
                y == reverse_index_times(t0, k as nat).cursor.y,
                top == t0.scroll_top,
                scroll_ok == t0.scroll_down_ok(1),
            decreases n - k,
        {
            proof {
                lemma_reverse_index_times_region(t0, k as nat);
            }
            if y == top {
                if !scroll_ok {
                    proof {
                        assert(!reverse_index_times(t0, k as nat).scroll_down_ok(1));
                        assert(!reverse_index_times(t0, k as nat).reverse_index_ok());
                        lemma_reverse_index_times_fail_after(t0, k as nat, n as nat);
                    }
                    return false;
                }
            } else if y > 0 {
                y = y - 1;
            }
            k += 1;
        }
        true
    }

    /// Print a character. Returns `false`, changing nothing, where printing
    /// it would fail (see `TermState::print_ok`).
    pub fn print(&mut self, c: char) -> (done: bool)
        requires
            old(self).terminal.wf(),
        ensures
            final(self).terminal.wf(),
            done == old(self).terminal@.print_ok(),
            done ==> final(self).terminal@ == old(self).terminal@.print(c),
            !done ==> final(self).terminal@ == old(self).terminal@,
    {
        if !self.terminal.print_allowed() {
            return false;
        }
        self.terminal.print_char(c);
        true
    }

    /// Carry out a C0 control byte. Returns `false`, changing nothing, where
    /// that would fail.
    pub fn execute(&mut self, byte: u8) -> (done: bool)
        requires
            old(self).terminal.wf(),
        ensures
            final(self).terminal.wf(),
            done == execute_ok(old(self).terminal@, byte),
            done ==> final(self).terminal@ == execute(old(self).terminal@, byte),
            !done ==> final(self).terminal@ == old(self).terminal@,
    {
        let terminal = &mut self.terminal;
        match byte {
            0x07 => terminal.bell(),
            0x08 => terminal.backspace(),
            0x09 => terminal.tab(),
            0x0A | 0x0B | 0x0C => {
                if !terminal.newline_allowed() {
                    return false;
                }
                terminal.newline();
            },
            0x0D => terminal.carriage_return(),
            0x0E => {},
            0x0F => {},
            0x7F => {},
            _ => {},
        }
        true
    }

    /// Whether the CSI sequence with parameter values `p` and final character
    /// `action` can be carried out.
    fn csi_allowed(&self, p: &Vec<i64>, action: char) -> (b: bool)
        requires
            self.terminal.wf(),
        ensures
            b == csi_ok(self.terminal@, p@, action),
    {
        let p0 = if p.len() > 0 { p[0] } else { 0 };
        let t = &self.terminal;
        match action {
            '@' => t.insert_blank_allowed(p0),
            'B' | 'E' => t.move_cursor_down_allowed(p0),
            'C' => t.move_cursor_forward_allowed(p0),
            'H' | 'f' => {
                let row = if p0 == 0 { 1 } else { p0 };
                t.set_cursor_allowed(row as usize)
            },
            'J' => t.erase_display_allowed(p0),
            'K' => t.erase_line_allowed(p0),
            'L' => t.insert_lines_allowed(p0),
            'M' => t.delete_lines_allowed(p0),
            'P' => t.delete_chars_allowed(p0),
            'X' => t.erase_chars_allowed(p0),
            'S' => {
                let count = if p0 < 1 { 1 } else { p0 as usize };
                self.index_times_allowed(count)
            },
            'T' => {
                let count = if p0 < 1 { 1 } else { p0 as usize };
                self.reverse_index_times_allowed(count)
            },
            'd' => t.set_cursor_row_allowed(p0),
            _ => true,
        }
    }

    /// Carry out the CSI sequence with parameter values `p` and final
    /// character `action`; `plain` when it has no intermediate bytes.
    #[verifier::spinoff_prover]
    #[verifier::rlimit(100)]
    fn apply_csi(&mut self, p: &Vec<i64>, plain: bool, action: char)
        requires
            old(self).terminal.wf(),
            csi_ok(old(self).terminal@, p@, action),
        ensures
            final(self).terminal.wf(),
            final(self).terminal@ == csi(old(self).terminal@, p@, plain, action),
    {
        let terminal = &mut self.terminal;
        let p0 = if p.len() > 0 { p[0] } else { 0 };
        let p1 = if p.len() > 1 { p[1] } else { 0 };

        match action {
            '@' => terminal.insert_blank(p0),
            'A' => terminal.move_cursor_up(p0),
            'B' => terminal.move_cursor_down(p0),
            'C' => terminal.move_cursor_forward(p0),
            'D' => terminal.move_cursor_backward(p0),
            'E' => {
                terminal.move_cursor_down(p0);
                terminal.carriage_return();
            },
            'F' => {
                terminal.move_cursor_up(p0);
                terminal.carriage_return();
            },
            'G' => terminal.set_cursor_column(p0),
            'H' | 'f' => {
                let row = if p0 == 0 { 1 } else { p0 };
                let col = if p1 == 0 { 1 } else { p1 };
                terminal.set_cursor(col as usize, row as usize);
            },
            'J' => terminal.erase_display(p0),
            'K' => terminal.erase_line(p0),
            'L' => terminal.insert_lines(p0),
            'M' => terminal.delete_lines(p0),
            'P' => terminal.delete_chars(p0),
            'X' => terminal.erase_chars(p0),
            'S' => {
                let count = if p0 < 1 { 1 } else { p0 as usize };
                repeat_index(terminal, count);
            },
            'T' => {
                let count = if p0 < 1 { 1 } else { p0 as usize };
                repeat_reverse_index(terminal, count);
            },
            'd' => terminal.set_cursor_row(p0),
            'm' => handle_sgr(terminal, p.as_slice()),
            'n' => {},
            'r' => {
                let top = if p.len() > 0 { p[0] } else { 1 };
                let bottom = if p.len() > 1 { p[1] } else { terminal.rows() as i64 };
                terminal.set_scroll_region(top, bottom);
            },
            'h' => {
                if plain {
                    terminal.set_mode(p0, true);
                }
            },
            'l' => {
                if plain {
                    terminal.set_mode(p0, false);
                }
            },
            's' => terminal.save_cursor(),
            'u' => terminal.restore_cursor(),
            'q' => {
                let style = match p0 {
                    0 | 1 => CursorStyle::BlinkingBlock,
                    2 => CursorStyle::Block,
                    3 => CursorStyle::BlinkingUnderline,
                    4 => CursorStyle::Underline,
                    5 => CursorStyle::BlinkingBar,
                    6 => CursorStyle::Bar,
                    _ => return,
                };
                terminal.set_cursor_style(style);
            },
            't' => {},
            _ => {},
        }
    }

    /// Carry out a CSI sequence. Returns `false`, changing nothing, where that
    /// would fail (see `csi_ok`).
    pub fn csi_dispatch(
        &mut self,
        params: &Params,
        intermediates: &[u8],
        ignore: bool,
        action: char,
    ) -> (done: bool)
        requires
            old(self).terminal.wf(),
        ensures
            final(self).terminal.wf(),
            done == csi_ok(old(self).terminal@, param_values(param_groups(*params)), action),
            done ==> final(self).terminal@ == csi(
                old(self).terminal@,
                param_values(param_groups(*params)),
                intermediates@.len() == 0,
                action,
            ),
            !done ==> final(self).terminal@ == old(self).terminal@,
    {
        let p = get_params_vec(params);
        if !self.csi_allowed(&p, action) {
            return false;
        }
        self.apply_csi(&p, intermediates.len() == 0, action);
        true
    }

    /// Carry out an escape sequence. Returns `false`, changing nothing, where
    /// that would fail (see `esc_ok`).
    pub fn esc_dispatch(&mut self, intermediates: &[u8], ignore: bool, byte: u8) -> (done: bool)
        requires
            old(self).terminal.wf(),
        ensures
            final(self).terminal.wf(),
            done == esc_ok(old(self).terminal@, byte),
            done ==> final(self).terminal@ == esc(old(self).terminal@, byte),
            !done ==> final(self).terminal@ == old(self).terminal@,
    {
        let terminal = &mut self.terminal;
        match byte {
            0x37 => terminal.save_cursor(),  // ESC 7
            0x38 => terminal.restore_cursor(),  // ESC 8
            0x44 => {  // ESC D
                if !terminal.index_allowed() {
                    return false;
                }
                terminal.index();
            },
            0x45 => {  // ESC E
                if !terminal.newline_allowed() {
                    return false;
                }
                terminal.newline();
            },
            0x48 => terminal.set_tab_stop(),  // ESC H
            0x4D => {  // ESC M
                if !terminal.reverse_index_allowed() {
                    return false;
                }
                terminal.reverse_index();
            },
            0x5A => {},  // ESC Z
            0x63 => {},  // ESC c
            0x67 => {},  // ESC g
            _ => {},
        }
        true
    }

    /// Carry out an operating system command.
    pub fn osc_dispatch(&mut self, params: &[&[u8]], bell_terminated: bool)
        requires
            old(self).terminal.wf(),
        ensures
            final(self).terminal.wf(),
            final(self).terminal@ == osc(
                old(self).terminal@,
                params@.map_values(|b: &[u8]| b@),
            ),
    {
        let ghost ps = params@.map_values(|b: &[u8]| b@);
        if params.len() == 0 {
            return;
        }
        proof {
            reveal_strlit("");
        }
        let osc_str = match str_from_utf8(params[0]) {
            Some(s) => s,
            None => "",
        };
        assert(osc_str@ == text_or_empty(ps[0]));
        let selected = osc_str.unicode_len() == 1 && (osc_str.get_char(0) == '0'
            || osc_str.get_char(0) == '2');
        assert(selected == (text_or_empty(ps[0]) == seq!['0'] || text_or_empty(ps[0]) == seq![
            '2',
        ]));
        if selected {
            if params.len() > 1 {
                let title = match str_from_utf8(params[1]) {
                    Some(s) => s,
                    None => "",
                };
                assert(title@ == text_or_empty(ps[1]));
                self.terminal.set_title(title);
            }
        }
    }
}

} // verus!
