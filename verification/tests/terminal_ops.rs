use jkterm::terminal::{Cell, CursorStyle, Rgb, Terminal};

fn palette() -> [[u8; 3]; 16] {
    let mut p = [[0u8; 3]; 16];
    for (i, c) in p.iter_mut().enumerate() {
        *c = [i as u8, (i * 2) as u8, (i * 3) as u8];
    }
    p
}

fn term(rows: usize, cols: usize) -> Terminal {
    Terminal::new(rows, cols, palette())
}

fn row_text(t: &Terminal, y: usize) -> String {
    t.grid()[y].iter().map(|c| if c.blank { '.' } else { c.ch }).collect()
}

fn type_str(t: &mut Terminal, s: &str) {
    for c in s.chars() {
        t.print_char(c);
    }
}

fn is_blank(c: &Cell) -> bool {
    c.blank && c.ch == ' ' && !c.bold && c.fg.r == 0 && c.bg.r == 0
}

#[test]
fn new_terminal_is_blank_with_defaults() {
    let t = term(3, 5);
    assert_eq!(t.rows(), 3);
    assert_eq!(t.cols(), 5);
    assert_eq!(t.grid().len(), 3);
    assert!(t.grid().iter().all(|r| r.len() == 5 && r.iter().all(is_blank)));
    let c = t.cursor();
    assert_eq!((c.x, c.y, c.visible), (0, 0, false));
    assert!(t.is_dirty());
    assert_eq!(t.title(), "");
    assert!(matches!(t.cursor_style(), CursorStyle::Block));
    let m = t.modes();
    assert!(m.auto_wrap && !m.insert && !m.alt_screen && !m.origin);
    assert_eq!(t.color_palette(), &palette());
}

#[test]
fn print_writes_with_attributes_and_advances() {
    let mut t = term(2, 4);
    t.set_bold(true);
    t.set_fg_color(Rgb::new(1, 2, 3));
    t.print_char('a');
    let c = t.grid()[0][0];
    assert_eq!(c.ch, 'a');
    assert!(c.bold && !c.blank);
    assert_eq!((c.fg.r, c.fg.g, c.fg.b), (1, 2, 3));
    assert_eq!(t.cursor().x, 1);
}

#[test]
fn print_wraps_at_end_of_line() {
    let mut t = term(2, 3);
    type_str(&mut t, "abcd");
    assert_eq!(row_text(&t, 0), "abc");
    assert_eq!(row_text(&t, 1), "d..");
    assert_eq!((t.cursor().x, t.cursor().y), (1, 1));
}

#[test]
fn print_without_auto_wrap_overwrites_last_cell() {
    let mut t = term(2, 3);
    t.set_mode(7, false);
    type_str(&mut t, "abcd");
    assert_eq!(row_text(&t, 0), "abd");
    assert_eq!((t.cursor().x, t.cursor().y), (2, 0));
}

#[test]
fn insert_mode_shifts_line_right() {
    let mut t = term(1, 5);
    type_str(&mut t, "abc");
    t.set_cursor(0, 0);
    t.set_mode(4, true);
    t.print_char('x');
    assert_eq!(row_text(&t, 0), "xabc.");
}

#[test]
fn newline_at_bottom_scrolls_up() {
    let mut t = term(2, 2);
    type_str(&mut t, "ab");
    // the wrap moved to line 1
    type_str(&mut t, "cd");
    // wrapping on the last line scrolls
    assert_eq!(row_text(&t, 0), "cd");
    assert_eq!(row_text(&t, 1), "..");
    assert_eq!((t.cursor().x, t.cursor().y), (0, 1));
}

#[test]
fn carriage_return_and_backspace() {
    let mut t = term(1, 5);
    type_str(&mut t, "abc");
    t.backspace();
    assert_eq!(t.cursor().x, 2);
    t.carriage_return();
    assert_eq!(t.cursor().x, 0);
    t.backspace();
    assert_eq!(t.cursor().x, 0);
}

#[test]
fn tab_goes_to_next_stop_or_last_column() {
    let mut t = term(1, 20);
    t.tab();
    assert_eq!(t.cursor().x, 8);
    t.tab();
    assert_eq!(t.cursor().x, 16);
    t.tab();
    assert_eq!(t.cursor().x, 19);
    t.tab();
    assert_eq!(t.cursor().x, 19);
}

#[test]
fn tab_stops_can_be_set_and_cleared() {
    let mut t = term(1, 20);
    t.set_cursor(3, 0);
    t.set_tab_stop();
    t.carriage_return();
    t.tab();
    assert_eq!(t.cursor().x, 3);
    t.clear_tab_stop(0);
    t.carriage_return();
    t.tab();
    assert_eq!(t.cursor().x, 8);
    t.clear_tab_stop(3);
    t.carriage_return();
    t.tab();
    assert_eq!(t.cursor().x, 19);
}

#[test]
fn erase_display_modes() {
    let mut t = term(3, 3);
    type_str(&mut t, "abcdefgh");
    t.set_cursor(1, 1);
    t.erase_display(0);
    assert_eq!(row_text(&t, 0), "abc");
    assert_eq!(row_text(&t, 1), "d..");
    assert_eq!(row_text(&t, 2), "...");

    let mut t = term(3, 3);
    type_str(&mut t, "abcdefgh");
    t.set_cursor(1, 1);
    t.erase_display(1);
    assert_eq!(row_text(&t, 0), "...");
    assert_eq!(row_text(&t, 1), "..f");
    assert_eq!(row_text(&t, 2), "gh.");

    let mut t = term(3, 3);
    type_str(&mut t, "abcdefgh");
    t.erase_display(2);
    assert!(t.grid().iter().all(|r| r.iter().all(is_blank)));
    t.clear_dirty();
    t.erase_display(9);
    assert!(t.is_dirty());
}

#[test]
fn erase_line_modes() {
    for (mode, expected) in [(0, "ab...."), (1, "...de."), (2, "......"), (7, "abcde.")] {
        let mut t = term(1, 6);
        type_str(&mut t, "abcde");
        t.set_cursor(2, 0);
        t.erase_line(mode);
        assert_eq!(row_text(&t, 0), expected, "mode {mode}");
    }
}

#[test]
fn erase_chars_stays_in_line() {
    let mut t = term(1, 5);
    type_str(&mut t, "abcd");
    t.set_cursor(1, 0);
    t.erase_chars(2);
    assert_eq!(row_text(&t, 0), "a..d.");
    t.erase_chars(100);
    assert_eq!(row_text(&t, 0), "a....");
    t.set_cursor(0, 0);
    t.erase_chars(0);
    assert_eq!(row_text(&t, 0), ".....");
}

#[test]
fn delete_chars_pulls_line_left() {
    let mut t = term(1, 5);
    type_str(&mut t, "abcd");
    t.set_cursor(1, 0);
    t.delete_chars(2);
    assert_eq!(row_text(&t, 0), "ad...");
}

#[test]
fn insert_blank_pushes_line_right() {
    let mut t = term(1, 5);
    type_str(&mut t, "abcd");
    t.set_cursor(1, 0);
    t.insert_blank(2);
    assert_eq!(row_text(&t, 0), "a..bc");
    t.insert_blank(4);
    assert_eq!(row_text(&t, 0), "a....");
}

fn four_lines() -> Terminal {
    let mut t = term(4, 2);
    for (y, c) in ['a', 'b', 'c', 'd'].into_iter().enumerate() {
        t.set_cursor(0, y);
        t.print_char(c);
    }
    t
}

fn lines(t: &Terminal) -> Vec<String> {
    (0..t.rows()).map(|y| row_text(t, y)).collect()
}

#[test]
fn insert_and_delete_lines_within_region() {
    let mut t = four_lines();
    t.set_cursor(0, 1);
    t.insert_lines(1);
    assert_eq!(lines(&t), vec!["a.", "..", "b.", "c."]);
    t.delete_lines(1);
    assert_eq!(lines(&t), vec!["a.", "b.", "c.", ".."]);
}

#[test]
fn lines_outside_region_are_untouched() {
    let mut t = four_lines();
    t.set_scroll_region(2, 3);
    t.set_cursor(0, 0);
    t.insert_lines(1);
    assert_eq!(lines(&t), vec!["a.", "b.", "c.", "d."]);
    t.set_cursor(0, 1);
    t.insert_lines(1);
    assert_eq!(lines(&t), vec!["a.", "..", "b.", "d."]);
}

#[test]
fn set_cursor_clamps_and_origin_mode_cannot_be_set() {
    let mut t = term(5, 5);
    t.set_cursor(9, 9);
    assert_eq!((t.cursor().x, t.cursor().y), (4, 4));
    t.set_scroll_region(2, 3);
    t.set_mode(6, true);
    assert!(!t.modes().origin);
    t.set_cursor(0, 0);
    assert_eq!(t.cursor().y, 0);
}

#[test]
fn one_based_column_and_row() {
    let mut t = term(5, 5);
    t.set_cursor_column(3);
    assert_eq!(t.cursor().x, 2);
    t.set_cursor_column(0);
    assert_eq!(t.cursor().x, 0);
    t.set_cursor_column(99);
    assert_eq!(t.cursor().x, 4);
    t.set_cursor_row(2);
    assert_eq!(t.cursor().y, 1);
    t.set_cursor_row(-4);
    assert_eq!(t.cursor().y, 0);
}

#[test]
fn relative_moves_clamp() {
    let mut t = term(5, 5);
    t.move_cursor_down(2);
    assert_eq!(t.cursor().y, 2);
    t.move_cursor_down(99);
    assert_eq!(t.cursor().y, 4);
    t.move_cursor_up(0);
    assert_eq!(t.cursor().y, 3);
    t.move_cursor_up(99);
    assert_eq!(t.cursor().y, 0);
    t.move_cursor_forward(3);
    assert_eq!(t.cursor().x, 3);
    t.move_cursor_forward(3);
    assert_eq!(t.cursor().x, 4);
    t.move_cursor_backward(2);
    assert_eq!(t.cursor().x, 2);
    t.move_cursor_backward(99);
    assert_eq!(t.cursor().x, 0);
}

#[test]
fn scroll_region_is_ordered_and_clamped() {
    let mut t = term(10, 2);
    t.set_cursor(0, 2);
    t.print_char('x');
    t.set_cursor(0, 8);
    t.print_char('y');
    t.set_cursor(0, 3);
    t.print_char('z');
    // Lines 8 and 3, one-based, in the wrong order: the region is lines 2 to 7.
    t.set_scroll_region(8, 3);
    t.set_cursor(0, 7);
    t.newline();
    assert_eq!(row_text(&t, 2), "z.");
    assert_eq!(row_text(&t, 7), "..");
    assert_eq!(row_text(&t, 8), "y.");
    assert_eq!((t.cursor().x, t.cursor().y), (0, 7));
}

#[test]
fn save_and_restore_cursor() {
    let mut t = term(5, 5);
    t.set_cursor(3, 2);
    t.save_cursor();
    t.set_cursor(0, 0);
    t.restore_cursor();
    assert_eq!((t.cursor().x, t.cursor().y), (3, 2));
}

#[test]
fn alternate_screen_round_trip() {
    let mut t = term(2, 3);
    type_str(&mut t, "ab");
    t.set_mode(1049, true);
    assert!(t.modes().alt_screen);
    assert_eq!((t.cursor().x, t.cursor().y), (0, 0));
    assert!(t.grid().iter().all(|r| r.iter().all(is_blank)));
    type_str(&mut t, "xy");
    t.set_mode(1049, false);
    assert!(!t.modes().alt_screen);
    assert_eq!(row_text(&t, 0), "ab.");
    assert_eq!((t.cursor().x, t.cursor().y), (2, 0));
}

#[test]
fn modes_and_cursor_flags() {
    let mut t = term(2, 2);
    t.set_mode(25, true);
    assert!(t.cursor().visible);
    t.set_mode(12, true);
    assert!(matches!(t.cursor_style(), CursorStyle::BlinkingBlock));
    t.set_mode(2004, true);
    t.set_mode(1000, true);
    t.set_mode(1002, true);
    t.set_mode(1004, true);
    t.set_mode(20, true);
    let m = t.modes();
    assert!(m.bracketed_paste && m.mouse_tracking && m.mouse_motion_tracking);
    assert!(m.focus_events && m.application_cursor);
    t.set_cursor_style(CursorStyle::Bar);
    assert!(matches!(t.cursor_style(), CursorStyle::Bar));
}

#[test]
fn reset_attributes_returns_to_defaults() {
    let mut t = term(1, 2);
    t.set_bold(true);
    t.set_italic(true);
    t.set_underline(true);
    t.set_strikethrough(true);
    t.set_inverse(true);
    t.set_fg_color(Rgb::new(9, 9, 9));
    t.set_bg_color(Rgb::new(9, 9, 9));
    t.reset_attributes();
    t.print_char('z');
    let c = t.grid()[0][0];
    assert!(!c.bold && !c.italic && !c.underline && !c.strikethrough && !c.inverse);
    assert_eq!((c.fg.r, c.fg.g, c.fg.b), (0xcc, 0xcc, 0xcc));
    assert_eq!((c.bg.r, c.bg.g, c.bg.b), (0, 0, 0));
}

#[test]
fn title_and_dirty_flag() {
    let mut t = term(1, 1);
    t.set_title("hello");
    assert_eq!(t.title(), "hello");
    t.clear_dirty();
    assert!(!t.is_dirty());
    t.carriage_return();
    assert!(!t.is_dirty());
    t.print_char('a');
    assert!(t.is_dirty());
    t.bell();
}

#[test]
fn index_and_reverse_index() {
    let mut t = term(3, 1);
    t.print_char('a');
    t.set_cursor(0, 0);
    t.reverse_index();
    assert_eq!(row_text(&t, 0), ".");
    assert_eq!(row_text(&t, 1), "a");
    t.index();
    t.index();
    assert_eq!(t.cursor().y, 2);
    t.index();
    assert_eq!(row_text(&t, 0), "a");
    assert_eq!(t.cursor().y, 2);
}

#[test]
fn resize_keeps_content_and_clamps_cursor() {
    let mut t = term(3, 3);
    type_str(&mut t, "abcdefg");
    t.resize(2, 4);
    assert_eq!(t.rows(), 2);
    assert_eq!(t.cols(), 4);
    assert_eq!(row_text(&t, 0), "abc.");
    assert_eq!(row_text(&t, 1), "def.");
    assert_eq!((t.cursor().x, t.cursor().y), (1, 1));
    t.clear_dirty();
    t.resize(2, 4);
    assert!(!t.is_dirty());
}

fn on_screen(t: &Terminal) -> bool {
    let c = t.cursor();
    c.x < t.cols() && c.y < t.rows()
}

#[test]
fn cursor_stays_on_screen() {
    let mut t = term(4, 6);
    assert!(on_screen(&t));
    t.move_cursor_down(100);
    assert!(on_screen(&t));
    t.move_cursor_forward(100);
    assert!(on_screen(&t));
    assert_eq!((t.cursor().x, t.cursor().y), (5, 3));
    t.set_cursor(50, 50);
    assert!(on_screen(&t));
    t.set_cursor_row(99);
    t.set_cursor_column(99);
    assert!(on_screen(&t));
    type_str(&mut t, "xyzxyzxyz");
    assert!(on_screen(&t));
    t.index();
    t.newline();
    assert!(on_screen(&t));
    t.resize(2, 3);
    assert!(on_screen(&t));
    assert_eq!((t.cursor().x, t.cursor().y), (0, 1));
    t.set_mode(1049, true);
    t.set_cursor(2, 1);
    t.set_mode(1049, false);
    assert!(on_screen(&t));
}

#[test]
fn deleting_a_line_undoes_inserting_one() {
    let mut t = four_lines();
    t.set_cursor(0, 1);
    t.insert_lines(1);
    t.delete_lines(1);
    assert_eq!(lines(&t), vec!["a.", "b.", "c.", ".."]);
    let mut u = four_lines();
    u.set_scroll_region(1, 3);
    u.set_cursor(0, 0);
    u.insert_lines(1);
    u.delete_lines(1);
    assert_eq!(lines(&u), vec!["a.", "b.", "..", "d."]);
}

#[test]
fn entering_alternate_screen_twice_changes_nothing() {
    let mut t = term(3, 4);
    t.set_cursor(2, 1);
    t.set_mode(1049, true);
    t.set_cursor(3, 2);
    t.set_mode(47, true);
    assert_eq!((t.cursor().x, t.cursor().y), (3, 2));
    t.set_mode(1047, false);
    assert_eq!((t.cursor().x, t.cursor().y), (2, 1));
}

#[test]
fn tab_without_stops_goes_to_last_column() {
    let mut t = term(1, 20);
    t.set_cursor(3, 0);
    t.clear_tab_stop(3);
    t.tab();
    assert_eq!(t.cursor().x, 19);
}

#[test]
fn erase_whole_line_blanks_only_cursor_line() {
    let mut t = term(3, 3);
    type_str(&mut t, "abcdefgh");
    t.set_cursor(1, 1);
    t.erase_line(2);
    assert_eq!(row_text(&t, 0), "abc");
    assert_eq!(row_text(&t, 1), "...");
    assert_eq!(row_text(&t, 2), "gh.");
}

#[test]
fn restore_after_other_calls_gives_saved_cursor() {
    let mut t = term(4, 6);
    t.set_cursor(3, 2);
    t.save_cursor();
    t.set_cursor(0, 0);
    type_str(&mut t, "hello");
    t.move_cursor_down(1);
    t.erase_line(2);
    t.set_scroll_region(1, 3);
    t.restore_cursor();
    assert_eq!((t.cursor().x, t.cursor().y), (3, 2));
    t.save_cursor();
    t.resize(2, 2);
    t.restore_cursor();
    assert_eq!((t.cursor().x, t.cursor().y), (1, 1));
}

#[test]
fn alternate_screen_keeps_primary_over_other_calls() {
    let mut t = term(3, 4);
    type_str(&mut t, "abcdef");
    let primary = lines(&t);
    let c = t.cursor();
    t.set_mode(1049, true);
    type_str(&mut t, "xyzxyzxyzxyzxyz");
    t.erase_display(2);
    t.insert_lines(1);
    t.set_cursor(1, 1);
    t.delete_chars(2);
    t.set_mode(47, false);
    assert_eq!(lines(&t), primary);
    assert_eq!((t.cursor().x, t.cursor().y), (c.x, c.y));
}

#[test]
fn dirty_flag_stays_clear_until_a_grid_write() {
    let mut t = term(3, 4);
    t.clear_dirty();
    t.set_cursor(2, 1);
    t.move_cursor_up(1);
    t.set_mode(25, true);
    t.set_title("x");
    t.set_bold(true);
    t.save_cursor();
    t.restore_cursor();
    t.tab();
    t.set_scroll_region(1, 2);
    t.newline();
    assert!(!t.is_dirty());
    t.erase_chars(1);
    assert!(t.is_dirty());
    t.clear_dirty();
    t.print_char('a');
    assert!(t.is_dirty());
}

#[test]
fn preconditions_can_be_tested_by_callers() {
    let mut t = term(4, 3);
    assert_eq!(t.scroll_region(), (0, 3));
    assert!(t.newline_allowed() && t.index_allowed() && t.reverse_index_allowed());
    assert!(t.insert_lines_allowed(2) && t.delete_lines_allowed(1));
    assert!(t.print_allowed());
    assert!(!t.insert_blank_allowed(4));
    t.set_scroll_region(3, 4);
    t.set_cursor(0, 3);
    t.resize(2, 3);
    assert_eq!(t.scroll_region(), (2, 1));
    assert!(!t.newline_allowed());
    assert!(!t.index_allowed());
    let empty = term(0, 0);
    assert!(!empty.print_allowed());
    assert!(!empty.erase_line_allowed(0));
}
