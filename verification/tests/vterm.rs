use kex::tui::vterm::VirtualTerminal;

#[test]
fn process_plain_text() {
    let mut vt = VirtualTerminal::new(24, 80);
    vt.process(b"hello");
    assert_eq!(vt.cell(0, 0).unwrap(), "h");
    assert_eq!(vt.cell(0, 4).unwrap(), "o");
}

#[test]
fn cursor_moves_after_write() {
    let mut vt = VirtualTerminal::new(24, 80);
    vt.process(b"abc");
    assert_eq!(vt.cursor_position(), (0, 3));
}

#[test]
fn resize_updates_dimensions() {
    let mut vt = VirtualTerminal::new(24, 80);
    vt.resize(10, 40);
    vt.process(b"x");
    assert_eq!(vt.cell(0, 0).unwrap(), "x");
    assert_eq!(vt.cell(9, 39), Some(String::new()));
    assert_eq!(vt.cell(10, 0), None);
    assert_eq!(vt.cell(0, 40), None);
}

#[test]
fn ansi_color_parsed() {
    let mut vt = VirtualTerminal::new(24, 80);
    vt.process(b"\x1b[31mred\x1b[0m");
    assert_eq!(vt.cell(0, 0).unwrap(), "r");
    let mut copy = vt100::Parser::new(24, 80, 0);
    copy.process(&vt.snapshot());
    let cell = copy.screen().cell(0, 0).unwrap();
    assert_eq!(cell.contents(), "r");
    assert_eq!(cell.fgcolor(), vt100::Color::Idx(1));
}

#[test]
fn dirty_rows_tracks_changes() {
    let mut vt = VirtualTerminal::new(4, 10);
    let dirty = vt.take_dirty_rows();
    assert!(!dirty.is_empty());

    let dirty = vt.take_dirty_rows();
    assert!(dirty.is_empty());

    vt.process(b"hello");
    let dirty = vt.take_dirty_rows();
    assert!(dirty.contains(&0));
    assert!(!dirty.contains(&2));
}

#[test]
fn moved_text_dirties_both_rows_in_order() {
    let mut vt = VirtualTerminal::new(4, 10);
    vt.process(b"one\r\ntwo");
    vt.take_dirty_rows();
    vt.process(b"\x1b[1;1Htwo\x1b[2;1Hone");
    assert_eq!(vt.take_dirty_rows(), vec![0, 1]);
}

#[test]
fn resize_forgets_what_was_looked_at() {
    let mut vt = VirtualTerminal::new(4, 10);
    vt.take_dirty_rows();
    vt.resize(3, 10);
    assert_eq!(vt.take_dirty_rows(), vec![0, 1, 2]);
}

#[test]
fn cursor_waits_behind_a_full_row() {
    let mut vt = VirtualTerminal::new(2, 3);
    vt.process(b"abc");
    assert_eq!(vt.cursor_position(), (0, 3));
}

#[test]
fn screen_of_a_reset_terminal_keeps_its_size() {
    let mut vt = VirtualTerminal::new(2, 3);
    vt.process(b"abc\x1bc");
    assert_eq!(vt.cell(1, 2), Some(String::new()));
    assert_eq!(vt.cell(2, 0), None);
    assert_eq!(vt.cursor_position(), (0, 0));
}

#[test]
fn characters_need_room() {
    let vt = VirtualTerminal::new(2, 1);
    assert!(vt.takes(b"\x1b[31mlong enough to wrap\t\r\n"));
    assert!(vt.takes("é│✓".as_bytes()));
    assert!(!vt.takes("你".as_bytes()));
    let mut vt = VirtualTerminal::new(2, 2);
    assert!(vt.takes("你".as_bytes()));
    vt.process("你好".as_bytes());
    assert_eq!(vt.cell(1, 0).unwrap(), "好");
    assert!(!vt.takes("\u{17d8}".as_bytes()));
    assert!(VirtualTerminal::new(2, 3).takes("\u{17d8}".as_bytes()));
}

#[test]
fn titles_take_no_room() {
    let vt = VirtualTerminal::new(1, 3);
    assert!(vt.takes(b"\x1b]0;a long title\x07abc"));
    assert!(vt.takes(b"\x1b(Babc"));
    assert!(!vt.takes(b"\x1b(Babcd"));
    assert!(!vt.takes(b"\x1b8abc"));
}

#[test]
fn tab_stops_need_a_number() {
    assert!(VirtualTerminal::new(2, 65527).takes(b"\t"));
    assert!(!VirtualTerminal::new(2, 65528).takes(b"\t"));
    assert!(VirtualTerminal::new(2, 65528).takes(b"x"));
}

#[test]
fn text_wraps_on_the_smallest_screen() {
    let mut vt = VirtualTerminal::new(2, 1);
    vt.process(b"abc");
    assert_eq!(vt.cell(0, 0).unwrap(), "b");
    assert_eq!(vt.cell(1, 0).unwrap(), "c");
}

#[test]
fn wide_text_survives_where_it_is_not_cut() {
    let mut vt = VirtualTerminal::new(24, 80);
    vt.process("你好✓".as_bytes());
    vt.resize(24, 79);
    assert!(vt.try_process(b"\x1b[2J\x1b[Hok"));
    vt.process("\x1b[5;1H你".as_bytes());
    vt.resize(4, 1);
    assert!(vt.try_process(b"\x1b[2J\x1b[Ho"));
    assert_eq!(vt.cell(0, 0).unwrap(), "o");
}

#[test]
fn cut_wide_text_is_not_written_over() {
    let mut vt = VirtualTerminal::new(3, 6);
    vt.process("你好".as_bytes());
    vt.resize(3, 8);
    assert!(vt.takes(b"ok"));
    vt.resize(3, 3);
    assert!(!vt.takes(b"ok"));
    vt.resize(3, 8);
    assert!(!vt.try_process(b"ok"));
    assert_eq!(vt.cell(0, 0).unwrap(), "你");
}

#[test]
fn hidden_screen_is_cut_too() {
    let mut vt = VirtualTerminal::new(3, 8);
    vt.process("你好".as_bytes());
    vt.process(b"\x1b[?1049hpager");
    vt.resize(3, 4);
    assert!(vt.takes(b"\x1b[?1049l"));
    vt.resize(3, 3);
    assert!(vt.takes(b"more"));
    assert!(!vt.takes(b"\x1b[?1049l"));
    assert!(!vt.takes(b"\x1b[?25;47l"));
    assert!(vt.takes(b"\x1b[?25l"));
}

#[test]
fn cleared_screen_is_whole_again() {
    let mut vt = VirtualTerminal::new(3, 8);
    vt.process("\x1b[?1049h你好".as_bytes());
    vt.process(b"\x1b[?1049l$ ");
    vt.resize(3, 3);
    assert!(!vt.takes(b"\x1b[?47h"));
    assert!(vt.takes(b"\x1b[?1049h"));
    vt.process(b"\x1b[?1049habc\x1b[K");
    assert_eq!(vt.cell(0, 2).unwrap(), "c");
    assert!(vt.try_process(b"\x1b[?1049l"));
}

#[test]
fn characters_may_come_in_parts() {
    let mut vt = VirtualTerminal::new(3, 1);
    assert!(vt.try_process(b"\xe2\x9c"));
    assert!(vt.try_process(b"\x93"));
    assert_eq!(vt.cell(0, 0).unwrap(), "✓");
    assert!(vt.try_process(b"\xe4\xbd"));
    assert!(!vt.try_process(b"\xa0"));
    assert!(vt.try_process(b"a"));
}
