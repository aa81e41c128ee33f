use kex::tui::renderer::Renderer;
use kex::tui::screen::Rect;
use kex::tui::vterm::VirtualTerminal;

#[test]
fn render_vterm_outputs_content() {
    let mut vt = VirtualTerminal::new(4, 10);
    vt.process(b"hello");
    let area = Rect { x: 0, y: 0, width: 10, height: 4 };
    let mut r = Renderer::new(Vec::new());
    r.render_vterm(&vt, &area);
    let buf = r.flush();
    let output = String::from_utf8_lossy(&buf);
    assert!(output.contains("hello"));
}

#[test]
fn render_status_bar_pads() {
    let area = Rect { x: 0, y: 23, width: 20, height: 1 };
    let mut r = Renderer::new(Vec::new());
    r.render_status_bar("test", &area);
    let buf = r.flush();
    let output = String::from_utf8_lossy(&buf);
    assert!(output.contains("test"));
}

#[test]
fn drawing_is_byte_exact() {
    let mut vt = VirtualTerminal::new(2, 3);
    vt.process(b"ab\r\n c");
    let area = Rect { x: 4, y: 1, width: 4, height: 2 };
    let mut r = Renderer::new(Vec::new());
    r.render_vterm(&vt, &area);
    assert_eq!(r.flush(), b"\x1b[2;5Hab  \x1b[3;5H c  ".to_vec());
    assert!(r.flush().is_empty());
}

#[test]
fn only_the_named_rows_are_drawn() {
    let mut vt = VirtualTerminal::new(3, 2);
    vt.process(b"a\r\nb\r\nc");
    let area = Rect { x: 0, y: 0, width: 1, height: 2 };
    let mut r = Renderer::new(Vec::new());
    r.render_vterm_rows(&vt, &area, &[1, 2, 0]);
    assert_eq!(r.flush(), b"\x1b[2;1Hb\x1b[1;1Ha".to_vec());
}

#[test]
fn status_bar_is_padded_or_cut() {
    let area = Rect { x: 0, y: 2, width: 6, height: 1 };
    let mut r = Renderer::new(Vec::new());
    r.render_status_bar("né", &area);
    assert_eq!(r.flush(), "\x1b[3;1H\x1b[7mné    \x1b[0m".as_bytes().to_vec());
    r.render_status_bar("status bar", &area);
    assert_eq!(r.flush(), b"\x1b[3;1H\x1b[7mstatus\x1b[0m".to_vec());
}

#[test]
fn separators_are_drawn() {
    let mut r = Renderer::new(b"x".to_vec());
    r.render_vsep(2, 0, 2);
    r.render_hsep(0, 9, 3);
    assert_eq!(
        r.flush(),
        "x\x1b[1;3H│\x1b[2;3H│\x1b[10;1H───".as_bytes().to_vec()
    );
}

#[test]
fn cursor_is_placed_and_shown() {
    let mut r = Renderer::new(Vec::new());
    r.place_cursor(11, 0);
    assert_eq!(r.flush(), b"\x1b[1;12H\x1b[?25h".to_vec());
}
