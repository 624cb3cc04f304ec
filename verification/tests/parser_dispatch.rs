use jkterm::display::{
    background_cells, cursor_cell, preferred_format, rect_indices, resolve_family, screen_text,
    FontFamily,
};
use jkterm::input::{key_input_bytes, named_key_bytes, LogicalKey, NamedKey};
use jkterm::parser::Parser;
use jkterm::terminal::{CursorStyle, Terminal};

fn palette() -> [[u8; 3]; 16] {
    let mut p = [[0u8; 3]; 16];
    for (i, c) in p.iter_mut().enumerate() {
        *c = [10 + i as u8, 20 + i as u8, 30 + i as u8];
    }
    p
}

/// Feeds the dispatcher the way the vte crate does, and records whether
/// every action could be carried out.
struct Feed {
    parser: Parser,
    refused: usize,
}

impl vte::Perform for Feed {
    fn print(&mut self, c: char) {
        if !self.parser.print(c) {
            self.refused += 1;
        }
    }

    fn execute(&mut self, byte: u8) {
        if !self.parser.execute(byte) {
            self.refused += 1;
        }
    }

    fn csi_dispatch(&mut self, params: &vte::Params, intermediates: &[u8], ignore: bool, action: char) {
        if !self.parser.csi_dispatch(params, intermediates, ignore, action) {
            self.refused += 1;
        }
    }

    fn esc_dispatch(&mut self, intermediates: &[u8], ignore: bool, byte: u8) {
        if !self.parser.esc_dispatch(intermediates, ignore, byte) {
            self.refused += 1;
        }
    }

    fn osc_dispatch(&mut self, params: &[&[u8]], bell_terminated: bool) {
        self.parser.osc_dispatch(params, bell_terminated);
    }
}

fn run(rows: usize, cols: usize, input: &[u8]) -> Feed {
    let mut feed = Feed { parser: Parser::new(Terminal::new(rows, cols, palette())), refused: 0 };
    let mut vte_parser = vte::Parser::new();
    vte_parser.advance(&mut feed, input);
    feed
}

fn line(t: &Terminal, y: usize) -> String {
    t.grid()[y].iter().map(|c| if c.blank { '.' } else { c.ch }).collect()
}

#[test]
fn plain_text_and_controls() {
    let f = run(3, 5, b"ab\r\ncd\x08e\tf");
    let t = &f.parser.terminal;
    assert_eq!(line(t, 0), "ab...");
    assert_eq!(line(t, 1), "ce..f");
    assert_eq!(f.refused, 0);
}

#[test]
fn cursor_position_passes_one_based_values_on() {
    let f = run(5, 5, b"\x1b[H");
    let c = f.parser.terminal.cursor();
    assert_eq!((c.x, c.y), (1, 1));
    let f = run(5, 5, b"\x1b[3;4H");
    let c = f.parser.terminal.cursor();
    assert_eq!((c.x, c.y), (4, 3));
}

#[test]
fn cursor_movement_sequences() {
    let f = run(10, 10, b"\x1b[5B\x1b[3C\x1b[2A\x1b[D");
    let c = f.parser.terminal.cursor();
    assert_eq!((c.x, c.y), (2, 3));
    let f = run(10, 10, b"\x1b[5;5H\x1b[2E");
    let c = f.parser.terminal.cursor();
    assert_eq!((c.x, c.y), (0, 7));
    let f = run(10, 10, b"\x1b[5;5H\x1b[F\x1b[7G\x1b[3d");
    let c = f.parser.terminal.cursor();
    assert_eq!((c.x, c.y), (6, 2));
}

#[test]
fn sgr_palette_and_attributes() {
    let f = run(1, 8, b"\x1b[1;3;4;7;9;31;42ma\x1b[0mb\x1b[91;101mc");
    let g = f.parser.terminal.grid();
    let a = g[0][0];
    assert!(a.bold && a.italic && a.underline && a.inverse && a.strikethrough);
    assert_eq!((a.fg.r, a.fg.g, a.fg.b), (11, 21, 31));
    assert_eq!((a.bg.r, a.bg.g, a.bg.b), (12, 22, 32));
    let b = g[0][1];
    assert!(!b.bold && !b.italic && !b.underline && !b.inverse && !b.strikethrough);
    assert_eq!((b.fg.r, b.fg.g, b.fg.b), (0xcc, 0xcc, 0xcc));
    let c = g[0][2];
    assert_eq!((c.fg.r, c.fg.g, c.fg.b), (19, 29, 39));
    assert_eq!((c.bg.r, c.bg.g, c.bg.b), (19, 29, 39));
}

#[test]
fn sgr_extended_colours() {
    let f = run(1, 8, b"\x1b[38;5;196;48;2;1;2;300ma\x1b[38;5;244;48;5;3mb\x1b[38;5;16mc\x1b[39;49md");
    let g = f.parser.terminal.grid();
    // 196 = 16 + 5*36: red 5*42+5, green and blue 5.
    assert_eq!((g[0][0].fg.r, g[0][0].fg.g, g[0][0].fg.b), (215, 5, 5));
    assert_eq!((g[0][0].bg.r, g[0][0].bg.g, g[0][0].bg.b), (1, 2, 255));
    // 244 is grey number 12: 12*10+8.
    assert_eq!((g[0][1].fg.r, g[0][1].fg.g, g[0][1].fg.b), (128, 128, 128));
    assert_eq!((g[0][1].bg.r, g[0][1].bg.g, g[0][1].bg.b), (13, 23, 33));
    assert_eq!((g[0][2].fg.r, g[0][2].fg.g, g[0][2].fg.b), (5, 5, 5));
    assert_eq!((g[0][3].fg.r, g[0][3].fg.g, g[0][3].fg.b), (0xcc, 0xcc, 0xcc));
    assert_eq!((g[0][3].bg.r, g[0][3].bg.g, g[0][3].bg.b), (0, 0, 0));
}

#[test]
fn sgr_bold_off_variants() {
    for seq in [&b"\x1b[1m\x1b[2mx"[..], &b"\x1b[1m\x1b[21mx"[..], &b"\x1b[1m\x1b[22mx"[..]] {
        let f = run(1, 2, seq);
        assert!(!f.parser.terminal.grid()[0][0].bold);
    }
    let f = run(1, 2, b"\x1b[1m\x1b[mx");
    assert!(!f.parser.terminal.grid()[0][0].bold);
}

#[test]
fn erase_and_edit_sequences() {
    // The row and column of CSI H are passed on as they are, so `1;3H` goes
    // to column 3 of line 1 (counted from zero).
    let f = run(3, 6, b"\r\nabcde\x1b[1;3H\x1b[K");
    assert_eq!(line(&f.parser.terminal, 1), "abc...");
    let f = run(3, 6, b"\r\nabcd\x1b[1;1H\x1b[2P");
    assert_eq!(line(&f.parser.terminal, 1), "ad....");
    let f = run(3, 6, b"\r\nabcd\x1b[1;1H\x1b[2@");
    assert_eq!(line(&f.parser.terminal, 1), "a..bcd");
    let f = run(3, 6, b"\r\nabcd\x1b[1;1H\x1b[2X");
    assert_eq!(line(&f.parser.terminal, 1), "a..d..");
    let f = run(3, 6, b"abcde\x1b[2J");
    assert_eq!(line(&f.parser.terminal, 0), "......");
}

#[test]
fn scroll_up_and_down_sequences() {
    let f = run(3, 2, b"a\r\nb\r\nc\x1b[S");
    let t = &f.parser.terminal;
    assert_eq!(vec![line(t, 0), line(t, 1), line(t, 2)], vec!["b.", "c.", ".."]);
    let f = run(3, 2, b"a\r\nb\x1b[T");
    let t = &f.parser.terminal;
    assert_eq!(vec![line(t, 0), line(t, 1)], vec!["a.", "b."]);
    assert_eq!(t.cursor().y, 0);
    let f = run(3, 2, b"a\r\nb\x1b[2T");
    let t = &f.parser.terminal;
    assert_eq!(vec![line(t, 0), line(t, 1), line(t, 2)], vec!["..", "a.", "b."]);
    assert_eq!(t.cursor().y, 0);
}

#[test]
fn modes_styles_and_saved_cursor() {
    let f = run(5, 5, b"\x1b[25h\x1b[4 q");
    assert!(f.parser.terminal.cursor().visible);
    assert!(matches!(f.parser.terminal.cursor_style(), CursorStyle::Underline));
    let f = run(5, 5, b"\x1b[9 q");
    assert!(matches!(f.parser.terminal.cursor_style(), CursorStyle::Block));
    let f = run(5, 5, b"\x1b[3;3H\x1b7\x1b[H\x1b8");
    let c = f.parser.terminal.cursor();
    assert_eq!((c.x, c.y), (3, 3));
    let f = run(5, 5, b"\x1b[3;3H\x1b[s\x1b[H\x1b[u");
    let c = f.parser.terminal.cursor();
    assert_eq!((c.x, c.y), (3, 3));
}

#[test]
fn modes_with_intermediates_are_ignored() {
    // vte hands `?` over as an intermediate byte, so DEC private modes are
    // not set; the same numbers without it are.
    let f = run(2, 2, b"\x1b[?1049h\x1b[?25h");
    assert!(!f.parser.terminal.modes().alt_screen);
    assert!(!f.parser.terminal.cursor().visible);
    let f = run(2, 2, b"\x1b[1049h");
    assert!(f.parser.terminal.modes().alt_screen);
    let f = run(2, 2, b"\x1b[1049h\x1b[1049l");
    assert!(!f.parser.terminal.modes().alt_screen);
}

#[test]
fn scroll_region_sequence() {
    let f = run(6, 2, b"\x1b[2;4r\x1b[3;1H\n");
    // the line feed at the region's bottom keeps the cursor on line 3
    assert_eq!(f.parser.terminal.cursor().y, 3);
    let f = run(6, 2, b"\x1b[2;4r\x1b[r\x1b[5;1H\n");
    assert_eq!(f.parser.terminal.cursor().y, 5);
}

#[test]
fn osc_sets_title() {
    let f = run(1, 1, b"\x1b]0;my title\x07");
    assert_eq!(f.parser.terminal.title(), "my title");
    let f = run(1, 1, b"\x1b]2;other\x1b\\");
    assert_eq!(f.parser.terminal.title(), "other");
    let f = run(1, 1, b"\x1b]1;icon\x07");
    assert_eq!(f.parser.terminal.title(), "");
    let f = run(1, 1, b"\x1b]0;\xff\xfe\x07");
    assert_eq!(f.parser.terminal.title(), "");
}

#[test]
fn esc_index_newline_and_tab_stop() {
    let f = run(3, 12, b"\x1bD\x1bE\x1b[1;4H\x1bH\r\t");
    let c = f.parser.terminal.cursor();
    assert_eq!((c.x, c.y), (4, 1));
    let f = run(3, 2, b"a\x1bM");
    assert_eq!(line(&f.parser.terminal, 0), "..");
    assert_eq!(line(&f.parser.terminal, 1), "a.");
}

#[test]
fn refused_insert_blank_changes_nothing() {
    // Inserting more blanks than the line is wide would fail.
    let f = run(1, 3, b"ab\x1b[5@");
    assert_eq!(f.refused, 1);
    assert_eq!(line(&f.parser.terminal, 0), "ab.");
}

#[test]
fn refused_delete_lines_changes_nothing() {
    // Deleting two lines at the top of a full-screen region would fail.
    let f = run(3, 2, b"a\x1b[2M");
    assert_eq!(f.refused, 1);
    assert_eq!(line(&f.parser.terminal, 0), "a.");
}

#[test]
fn scroll_up_fails_after_shrinking_below_region() {
    let mut f = run(10, 2, b"\x1b[6;8r");
    f.parser.terminal.resize(4, 2);
    assert!(f.parser.execute(0x0A));
    assert_eq!(f.parser.terminal.cursor().y, 1);
    f.parser.terminal.set_cursor(0, 3);
    assert!(!f.parser.execute(0x0A));
    assert_eq!(f.parser.terminal.cursor().y, 3);
}

#[test]
fn screen_text_and_backgrounds() {
    let f = run(2, 3, b"ab\x1b[41mc\x1b[0md");
    let t = &f.parser.terminal;
    assert_eq!(screen_text(t), "abc\nd  ");
    let bg = background_cells(t);
    assert_eq!(bg.len(), 1);
    assert_eq!((bg[0].0, bg[0].1), (2, 0));
    assert_eq!((bg[0].2.r, bg[0].2.g, bg[0].2.b), (11, 21, 31));
    assert_eq!(cursor_cell(t), None);
    let f = run(2, 3, b"\x1b[25h\x1b[2;2H");
    assert_eq!(cursor_cell(&f.parser.terminal), Some((2, 1)));
}

#[test]
fn rectangle_indices() {
    assert_eq!(rect_indices(0), Vec::<u16>::new());
    assert_eq!(rect_indices(2), vec![0, 1, 2, 0, 2, 3, 4, 5, 6, 4, 6, 7]);
    let big = rect_indices(16384);
    assert_eq!(big.len(), 6 * 16384);
    assert_eq!(big[big.len() - 1], 65535);
}

#[test]
fn font_family_resolution() {
    assert!(matches!(resolve_family("JetBrains Mono, Fira Code"), FontFamily::Name(n) if n == "JetBrains Mono"));
    assert!(matches!(resolve_family("  MonoSpace "), FontFamily::Monospace));
    assert!(matches!(resolve_family("Sans-Serif,x"), FontFamily::SansSerif));
    assert!(matches!(resolve_family("serif"), FontFamily::Serif));
    assert!(matches!(resolve_family(""), FontFamily::Monospace));
    assert!(matches!(resolve_family(" ,serif"), FontFamily::Monospace));
}

#[test]
fn key_presses() {
    assert_eq!(key_input_bytes(false, Some("a"), &LogicalKey::Other), None);
    assert_eq!(key_input_bytes(true, Some("é"), &LogicalKey::Other), Some("é".as_bytes().to_vec()));
    assert_eq!(
        key_input_bytes(true, Some(""), &LogicalKey::Character("q".to_string())),
        Some(vec![b'q'])
    );
    assert_eq!(
        key_input_bytes(true, None, &LogicalKey::Named(NamedKey::ArrowUp)),
        Some(vec![0x1b, b'[', b'A'])
    );
    assert_eq!(key_input_bytes(true, None, &LogicalKey::Character(String::new())), None);
    assert_eq!(named_key_bytes(NamedKey::F12), vec![0x1b, b'[', b'2', b'4', b'~']);
    assert_eq!(named_key_bytes(NamedKey::Enter), vec![b'\r']);
    assert_eq!(named_key_bytes(NamedKey::F1), vec![0x1b, b'O', b'P']);
}

#[test]
fn surface_format_prefers_first_srgb() {
    assert_eq!(preferred_format(&[false, true, true]), 1);
    assert_eq!(preferred_format(&[true, false]), 0);
    assert_eq!(preferred_format(&[false, false, false]), 0);
}

fn pen(t: &Terminal, x: usize) -> (bool, bool, bool, bool, bool, (u8, u8, u8), (u8, u8, u8)) {
    let c = t.grid()[0][x];
    (c.bold, c.italic, c.underline, c.strikethrough, c.inverse, (c.fg.r, c.fg.g, c.fg.b), (c.bg.r, c.bg.g, c.bg.b))
}

#[test]
fn sgr_parameters_act_one_by_one() {
    let together = run(1, 4, b"\x1b[1;3;31;22;44;4ma");
    let apart = run(1, 4, b"\x1b[1m\x1b[3m\x1b[31m\x1b[22m\x1b[44m\x1b[4ma");
    assert_eq!(pen(&together.parser.terminal, 0), pen(&apart.parser.terminal, 0));
    assert_eq!(pen(&together.parser.terminal, 0), (false, true, true, false, false, (11, 21, 31), (14, 24, 34)));
}

#[test]
fn sgr_changes_only_the_pen() {
    let mut f = run(2, 4, b"ab\r\n\x1b[?25h");
    let before_cursor = f.parser.terminal.cursor();
    f.parser.terminal.clear_dirty();
    let mut vte_parser = vte::Parser::new();
    vte_parser.advance(&mut f, b"\x1b[1;38;2;1;2;3;48;5;200;7m");
    let t = &f.parser.terminal;
    assert_eq!((t.cursor().x, t.cursor().y), (before_cursor.x, before_cursor.y));
    assert_eq!(line(t, 0), "ab..");
    assert!(!t.is_dirty());
    assert_eq!(t.title(), "");
}
