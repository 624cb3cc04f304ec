//! What the screen shows: its text, the cells with a background colour, the
//! cursor, the triangles that draw rectangles, and the font family to use.

use vstd::prelude::*;
use vstd::string::StrSliceExecFns;
use crate::terminal::{Cell, Rgb, Terminal};

verus! {

/// Calls `String::push`. Claimed: `c` is appended to the text.
#[verifier::external_body]
fn push_char(s: &mut String, c: char)
    ensures
        final(s)@ == old(s)@.push(c),
{
    s.push(c)
}

/// The character that a cell shows: a space for blank cells and for the
/// second half of a wide character.
pub open spec fn cell_glyph(c: Cell) -> char {
    if c.blank || c.is_wide_continuation { ' ' } else { c.ch }
}

/// The first `n` characters that `row` shows.
pub open spec fn row_text(row: Seq<Cell>, n: nat) -> Seq<char> {
    Seq::new(n, |x: int| cell_glyph(row[x]))
}

/// The text of the first `m` of `rows` lines, each of `cols` cells, a line
/// break after each but the last.
pub open spec fn lines_text(g: Seq<Seq<Cell>>, m: nat, rows: nat, cols: nat) -> Seq<char>
    decreases m,
{
    if m == 0 {
        Seq::empty()
    } else {
        let y = (m - 1) as nat;
        lines_text(g, y, rows, cols) + row_text(g[y as int], cols) + (if y + 1 < rows {
            seq!['\n']
        } else {
            Seq::empty()
        })
    }
}

pub open spec fn has_background(c: Cell) -> bool {
    c.bg.r != 0 || c.bg.g != 0 || c.bg.b != 0
}

/// The cells among the first `n` of line `y` that have a background colour,
/// as column, line and colour, left to right.
pub open spec fn row_backgrounds(row: Seq<Cell>, y: usize, n: nat) -> Seq<(usize, usize, Rgb)>
    decreases n,
{
    if n == 0 {
        Seq::empty()
    } else {
        let x = (n - 1) as nat;
        row_backgrounds(row, y, x) + (if has_background(row[x as int]) {
            seq![(x as usize, y, row[x as int].bg)]
        } else {
            Seq::empty()
        })
    }
}

/// The cells of the first `m` lines that have a background colour, line by line.
pub open spec fn grid_backgrounds(g: Seq<Seq<Cell>>, m: nat, cols: nat) -> Seq<(usize, usize, Rgb)>
    decreases m,
{
    if m == 0 {
        Seq::empty()
    } else {
        let y = (m - 1) as nat;
        grid_backgrounds(g, y, cols) + row_backgrounds(g[y as int], y as usize, cols)
    }
}

/// The indices of the two triangles of the `i`-th rectangle, whose corners
/// are the vertices `4 i` to `4 i + 3`.
pub open spec fn quad_indices(i: nat) -> Seq<u16> {
    let b = (4 * i) as u16;
    seq![b, (b + 1) as u16, (b + 2) as u16, b, (b + 2) as u16, (b + 3) as u16]
}

/// The triangle indices of `n` rectangles.
pub open spec fn rect_index_seq(n: nat) -> Seq<u16>
    decreases n,
{
    if n == 0 { Seq::empty() } else { rect_index_seq((n - 1) as nat) + quad_indices((n - 1) as nat) }
}

/// The text that the screen shows, one line per row.
pub fn screen_text(terminal: &Terminal) -> (text: String)
    requires
        terminal.wf(),
    ensures
        text@ == lines_text(
            terminal@.screen(),
            terminal@.rows as nat,
            terminal@.rows as nat,
            terminal@.cols as nat,
        ),
{
    let grid = terminal.grid();
    let rows = terminal.rows();
    let cols = terminal.cols();
    let ghost g = terminal@.screen();
    let mut text = String::new();
    for y in 0..rows
        invariant
            rows == terminal@.rows,
            cols == terminal@.cols,
            g == terminal@.screen(),
            crate::model::rows_view(grid@) == g,
            crate::model::grid_shape(g, rows as nat, cols as nat),
            text@ == lines_text(g, y as nat, rows as nat, cols as nat),
    {
        let ghost before_row = text@;
        for x in 0..cols
            invariant
                y < rows,
                rows == terminal@.rows,
                cols == terminal@.cols,
                crate::model::rows_view(grid@) == g,
                crate::model::grid_shape(g, rows as nat, cols as nat),
                text@ == before_row + row_text(g[y as int], x as nat),
        {
            assert(grid@[y as int]@ == g[y as int]);
            let cell = &grid[y][x];
            if cell.blank || cell.is_wide_continuation {
                push_char(&mut text, ' ');
            } else {
                push_char(&mut text, cell.ch);
            }
            assert(text@ =~= before_row + row_text(g[y as int], (x + 1) as nat));
        }
        if y < rows - 1 {
            push_char(&mut text, '\n');
        }
        assert(text@ =~= lines_text(g, (y + 1) as nat, rows as nat, cols as nat));
    }
    text
}

/// The cells of the screen that have a background colour, as column, line
/// and colour, line by line.
pub fn background_cells(terminal: &Terminal) -> (cells: Vec<(usize, usize, Rgb)>)
    requires
        terminal.wf(),
    ensures
        cells@ == grid_backgrounds(terminal@.screen(), terminal@.rows as nat, terminal@.cols as nat),
{
    let grid = terminal.grid();
    let rows = terminal.rows();
    let cols = terminal.cols();
    let ghost g = terminal@.screen();
    let mut cells: Vec<(usize, usize, Rgb)> = Vec::new();
    for y in 0..rows
        invariant
            rows == terminal@.rows,
            cols == terminal@.cols,
            crate::model::rows_view(grid@) == g,
            crate::model::grid_shape(g, rows as nat, cols as nat),
            cells@ == grid_backgrounds(g, y as nat, cols as nat),
    {
        let ghost before_row = cells@;
        for x in 0..cols
            invariant
                y < rows,
                crate::model::rows_view(grid@) == g,
                crate::model::grid_shape(g, rows as nat, cols as nat),
                cells@ == before_row + row_backgrounds(g[y as int], y, x as nat),
        {
            assert(grid@[y as int]@ == g[y as int]);
            let cell = &grid[y][x];
            let has_bg = cell.bg.r != 0 || cell.bg.g != 0 || cell.bg.b != 0;
            if has_bg {
                cells.push((x, y, cell.bg));
            }
            assert(cells@ =~= before_row + row_backgrounds(g[y as int], y, (x + 1) as nat));
        }
        assert(cells@ =~= grid_backgrounds(g, (y + 1) as nat, cols as nat));
    }
    cells
}

/// The cursor's column and line when it is shown and on the screen.
pub fn cursor_cell(terminal: &Terminal) -> (cell: Option<(usize, usize)>)
    ensures
        cell == (if terminal@.cursor.visible && terminal@.cursor.y < terminal@.rows
            && terminal@.cursor.x < terminal@.cols {
            Some((terminal@.cursor.x, terminal@.cursor.y))
        } else {
            None
        }),
{
    let cursor = terminal.cursor();
    if cursor.visible && cursor.y < terminal.rows() && cursor.x < terminal.cols() {
        Some((cursor.x, cursor.y))
    } else {
        None
    }
}

/// The indices of the triangles that draw `n` rectangles, two per
/// rectangle, whose corners are vertices `4 i` to `4 i + 3`.
pub fn rect_indices(n: usize) -> (indices: Vec<u16>)
    requires
        n <= 16384,
    ensures
        indices@ == rect_index_seq(n as nat),
{
    let mut indices: Vec<u16> = Vec::new();
    for i in 0..n
        invariant
            n <= 16384,
            indices@ == rect_index_seq(i as nat),
    {
        let base = i as u16 * 4;
        indices.push(base);
        indices.push(base + 1);
        indices.push(base + 2);
        indices.push(base);
        indices.push(base + 2);
        indices.push(base + 3);
        assert(indices@ =~= rect_index_seq((i + 1) as nat));
    }
    indices
}


/// The format to draw in, among those that a surface supports (`srgb[i]`
/// tells whether the `i`-th of them is an sRGB format): the first sRGB one,
/// or the first of all when none is.
pub fn preferred_format(srgb: &[bool]) -> (i: usize)
    requires
        srgb@.len() > 0,
    ensures
        i < srgb@.len(),
        forall|k: int| 0 <= k < i ==> !#[trigger] srgb@[k],
        srgb@[i as int] || (i == 0 && forall|k: int| 0 <= k < srgb@.len() ==> !#[trigger] srgb@[k]),
{
    let mut i: usize = 0;
    while i < srgb.len()
        invariant
            i <= srgb@.len(),
            forall|k: int| 0 <= k < i ==> !#[trigger] srgb@[k],
        decreases srgb@.len() - i,
    {
        if srgb[i] {
            return i;
        }
        i += 1;
    }
    0
}

/// The font family that the configuration names.
#[derive(Debug)]
pub enum FontFamily {
    Monospace,
    SansSerif,
    Serif,
    Name(String),
}

/// The characters that Unicode counts as white space.
pub open spec fn is_white_space(c: char) -> bool {
    ||| '\u{9}' <= c <= '\u{d}'
    ||| c == ' '
    ||| c == '\u{85}'
    ||| c == '\u{a0}'
    ||| c == '\u{1680}'
    ||| '\u{2000}' <= c <= '\u{200a}'
    ||| c == '\u{2028}'
    ||| c == '\u{2029}'
    ||| c == '\u{202f}'
    ||| c == '\u{205f}'
    ||| c == '\u{3000}'
}

fn white_space(c: char) -> (b: bool)
    ensures
        b == is_white_space(c),
{
    ('\u{9}' <= c && c <= '\u{d}') || c == ' ' || c == '\u{85}' || c == '\u{a0}' || c
        == '\u{1680}' || ('\u{2000}' <= c && c <= '\u{200a}') || c == '\u{2028}' || c
        == '\u{2029}' || c == '\u{202f}' || c == '\u{205f}' || c == '\u{3000}'
}

/// The text before the first comma.
pub open spec fn first_field(s: Seq<char>) -> Seq<char>
    decreases s.len(),
{
    if s.len() == 0 || s[0] == ',' {
        Seq::empty()
    } else {
        seq![s[0]] + first_field(s.drop_first())
    }
}

/// `s` without the white space at its start.
pub open spec fn trim_start(s: Seq<char>) -> Seq<char>
    decreases s.len(),
{
    if s.len() > 0 && is_white_space(s[0]) {
        trim_start(s.drop_first())
    } else {
        s
    }
}

/// `s` without the white space at its end.
pub open spec fn trim_end(s: Seq<char>) -> Seq<char>
    decreases s.len(),
{
    if s.len() > 0 && is_white_space(s.last()) {
        trim_end(s.drop_last())
    } else {
        s
    }
}

pub open spec fn ascii_lower(c: char) -> char {
    if 'A' <= c <= 'Z' { ((c as u32) + 32) as char } else { c }
}

/// `a` and `b` are equal but for the case of ASCII letters in `a`.
pub open spec fn lower_equals(a: Seq<char>, b: Seq<char>) -> bool {
    a.len() == b.len() && forall|i: int| 0 <= i < a.len() ==> ascii_lower(a[i]) == b[i]
}

/// The font family that a comma-separated list of families selects: its
/// first entry, trimmed, with the generic names recognised regardless of
/// ASCII case; monospace when the entry is empty.
pub open spec fn family_choice(families: Seq<char>) -> (u8, Seq<char>) {
    let name = trim_end(trim_start(first_field(families)));
    if name.len() == 0 || lower_equals(name, seq!['m', 'o', 'n', 'o', 's', 'p', 'a', 'c', 'e']) {
        (0, name)
    } else if lower_equals(name, seq!['s', 'a', 'n', 's', '-', 's', 'e', 'r', 'i', 'f']) {
        (1, name)
    } else if lower_equals(name, seq!['s', 'e', 'r', 'i', 'f']) {
        (2, name)
    } else {
        (3, name)
    }
}

pub open spec fn family_matches(f: FontFamily, choice: (u8, Seq<char>)) -> bool {
    match f {
        FontFamily::Monospace => choice.0 == 0,
        FontFamily::SansSerif => choice.0 == 1,
        FontFamily::Serif => choice.0 == 2,
        FontFamily::Name(n) => choice.0 == 3 && n@ == choice.1,
    }
}

/// The length of the text before the first comma.
fn first_field_len(s: &str) -> (n: usize)
    ensures
        n <= s@.len(),
        s@.subrange(0, n as int) == first_field(s@),
{
    let len = s.unicode_len();
    let mut i: usize = 0;
    assert(s@.subrange(0, len as int) =~= s@);
    assert(s@.subrange(0, 0) + first_field(s@) =~= first_field(s@));
    while i < len
        invariant
            len == s@.len(),
            i <= len,
            first_field(s@) == s@.subrange(0, i as int) + first_field(s@.subrange(i as int, len as int)),
        decreases len - i,
    {
        if s.get_char(i) == ',' {
            assert(first_field(s@.subrange(i as int, len as int)) =~= Seq::empty());
            assert(s@.subrange(0, i as int) + Seq::<char>::empty() =~= s@.subrange(0, i as int));
            return i;
        }
        assert(s@.subrange(i as int, len as int).drop_first() =~= s@.subrange(i + 1, len as int));
        assert(s@.subrange(0, i as int) + seq![s@[i as int]] =~= s@.subrange(0, i + 1));
        i += 1;
    }
    assert(s@.subrange(i as int, len as int) =~= Seq::empty());
    assert(s@.subrange(0, i as int) + Seq::<char>::empty() =~= s@.subrange(0, i as int));
    i
}

/// Whether the characters `lo..hi` of `s` equal `target` but for ASCII case.
fn lower_equals_exec(s: &str, lo: usize, hi: usize, target: &str) -> (b: bool)
    requires
        lo <= hi <= s@.len(),
    ensures
        b == lower_equals(s@.subrange(lo as int, hi as int), target@),
{
    let ghost a = s@.subrange(lo as int, hi as int);
    if target.unicode_len() != hi - lo {
        return false;
    }
    let mut i: usize = 0;
    while i < hi - lo
        invariant
            lo <= hi <= s@.len(),
            a == s@.subrange(lo as int, hi as int),
            target@.len() == hi - lo,
            i <= hi - lo,
            forall|k: int| 0 <= k < i ==> ascii_lower(a[k]) == target@[k],
        decreases hi - lo - i,
    {
        let c = s.get_char(lo + i);
        let lower = if 'A' <= c && c <= 'Z' { ((c as u32) + 32) as u8 as char } else { c };
        assert(lower == ascii_lower(c));
        if lower != target.get_char(i) {
            return false;
        }
        i += 1;
    }
    true
}

/// The family that the first entry of the comma-separated list `families`
/// names.
pub fn resolve_family(families: &str) -> (f: FontFamily)
    ensures
        family_matches(f, family_choice(families@)),
{
    let ghost field = first_field(families@);
    let end_field = first_field_len(families);
    let mut start: usize = 0;
    while start < end_field && white_space(families.get_char(start))
        invariant
            end_field <= families@.len(),
            field == families@.subrange(0, end_field as int),
            start <= end_field,
            trim_start(field) == trim_start(families@.subrange(start as int, end_field as int)),
        decreases end_field - start,
    {
        assert(families@.subrange(start as int, end_field as int).drop_first() =~= families@.subrange(
            start + 1,
            end_field as int,
        ));
        start += 1;
    }
    let ghost started = families@.subrange(start as int, end_field as int);
    assert(trim_start(started) == started);
    let mut end = end_field;
    while end > start && white_space(families.get_char(end - 1))
        invariant
            end_field <= families@.len(),
            start <= end <= end_field,
            trim_end(started) == trim_end(families@.subrange(start as int, end as int)),
            started == families@.subrange(start as int, end_field as int),
        decreases end - start,
    {
        assert(families@.subrange(start as int, end as int).drop_last() =~= families@.subrange(
            start as int,
            end - 1,
        ));
        end -= 1;
    }
    let ghost name = families@.subrange(start as int, end as int);
    assert(trim_end(name) == name);
    assert(family_choice(families@).1 == name);
    proof {
        reveal_strlit("monospace");
        reveal_strlit("sans-serif");
        reveal_strlit("serif");
        assert("monospace"@ =~= seq!['m', 'o', 'n', 'o', 's', 'p', 'a', 'c', 'e']);
        assert("sans-serif"@ =~= seq!['s', 'a', 'n', 's', '-', 's', 'e', 'r', 'i', 'f']);
        assert("serif"@ =~= seq!['s', 'e', 'r', 'i', 'f']);
    }
    if start == end || lower_equals_exec(families, start, end, "monospace") {
        FontFamily::Monospace
    } else if lower_equals_exec(families, start, end, "sans-serif") {
        FontFamily::SansSerif
    } else if lower_equals_exec(families, start, end, "serif") {
        FontFamily::Serif
    } else {
        let mut n = String::new();
        let mut i = start;
        while i < end
            invariant
                start <= i <= end <= families@.len(),
                n@ == families@.subrange(start as int, i as int),
            decreases end - i,
        {
            push_char(&mut n, families.get_char(i));
            assert(n@ =~= families@.subrange(start as int, i + 1));
            i += 1;
        }
        FontFamily::Name(n)
    }
}

} // verus!
