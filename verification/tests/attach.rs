use kex::ipc::message::StreamMessage;
use kex::terminal::attach::{first_message, server_output, Session, SessionAction};
use kex::tui::input::{Event, KeyCode, KeyEvent, KeyModifiers};

fn press(session: &mut Session, code: KeyCode, modifiers: KeyModifiers) -> Vec<SessionAction> {
    session.on_event(&Event::Key(KeyEvent::new(code, modifiers)))
}

#[test]
fn first_message_leaves_room_for_the_bar() {
    assert!(matches!(first_message(80, 24, true), StreamMessage::Resize { cols: 80, rows: 23 }));
    assert!(matches!(first_message(80, 0, true), StreamMessage::Resize { cols: 80, rows: 0 }));
    assert!(matches!(first_message(80, 24, false), StreamMessage::Resize { cols: 80, rows: 24 }));
}

#[test]
fn new_window_is_drawn() {
    let (_, bytes) = Session::new("dev", 12, 2);
    assert_eq!(
        bytes,
        b"\x1b[1;1H            \x1b[2;1H\x1b[7m [NORMAL] de\x1b[0m".to_vec()
    );
}

#[test]
fn output_draws_changed_rows_and_the_cursor() {
    let (mut session, _) = Session::new("dev", 4, 4);
    let bytes = session.on_output(b"\r\nhi");
    assert_eq!(bytes, b"\x1b[2;1Hhi  \x1b[2;3H\x1b[?25h".to_vec());
    let bytes = session.on_output(b"");
    assert_eq!(bytes, b"\x1b[2;3H\x1b[?25h".to_vec());
}

#[test]
fn keys_go_to_the_terminal() {
    let (mut session, _) = Session::new("dev", 20, 3);
    let actions = press(&mut session, KeyCode::Char('x'), KeyModifiers::none());
    assert!(matches!(
        &actions[..],
        [SessionAction::Send(StreamMessage::Data(data))] if data == b"x"
    ));
}

#[test]
fn command_mode_redraws_the_bar_and_detaches() {
    let (mut session, _) = Session::new("dev", 10, 3);
    let actions = press(&mut session, KeyCode::Char('a'), KeyModifiers::control());
    assert!(matches!(
        &actions[..],
        [SessionAction::Draw(bytes)] if bytes == b"\x1b[3;1H\x1b[7m [COMMAND]\x1b[0m"
    ));
    let actions = press(&mut session, KeyCode::Char('d'), KeyModifiers::none());
    assert!(matches!(&actions[..], [SessionAction::Quit]));
}

#[test]
fn bar_shows_the_mode_after_a_command() {
    let (mut session, _) = Session::new("dev", 10, 3);
    press(&mut session, KeyCode::Char('a'), KeyModifiers::control());
    assert!(press(&mut session, KeyCode::Char('?'), KeyModifiers::none()).is_empty());
    let actions = press(&mut session, KeyCode::Char('s'), KeyModifiers::none());
    assert!(matches!(
        &actions[..],
        [SessionAction::Draw(bytes)] if bytes == b"\x1b[3;1H\x1b[7m [NORMAL] \x1b[0m"
    ));
    assert!(session.on_event(&Event::Other).is_empty());
}

#[test]
fn new_size_is_told_and_drawn() {
    let (mut session, _) = Session::new("d", 10, 4);
    session.on_output(b"ab");
    let actions = session.on_event(&Event::Resize(3, 3));
    assert!(matches!(
        &actions[..],
        [
            SessionAction::Send(StreamMessage::Resize { cols: 3, rows: 2 }),
            SessionAction::Draw(bytes),
        ] if bytes == b"\x1b[1;1Hab \x1b[2;1H   \x1b[3;1H\x1b[7m [N\x1b[0m"
    ));
    assert_eq!(session.on_output(b""), b"\x1b[1;3H\x1b[?25h".to_vec());
}

#[test]
fn server_sends_data_or_ends() {
    assert_eq!(server_output(Some(StreamMessage::Data(vec![1]))), Some(vec![1]));
    assert_eq!(server_output(Some(StreamMessage::Detach)), None);
    assert_eq!(server_output(None), None);
}

#[test]
fn window_without_a_bar_draws_the_pane_alone() {
    let (mut session, bytes) = Session::with_bar("dev", 4, 2, false);
    assert_eq!(bytes, b"\x1b[1;1H    \x1b[2;1H    ".to_vec());
    assert!(press(&mut session, KeyCode::Char('a'), KeyModifiers::control()).is_empty());
    assert!(press(&mut session, KeyCode::Esc, KeyModifiers::none()).is_empty());
    assert_eq!(session.on_output(b"\r\nhi"), b"\x1b[2;1Hhi  \x1b[2;3H\x1b[?25h".to_vec());
    let actions = session.on_event(&Event::Resize(3, 2));
    assert!(matches!(
        &actions[..],
        [
            SessionAction::Send(StreamMessage::Resize { cols: 3, rows: 2 }),
            SessionAction::Draw(bytes),
        ] if bytes == b"\x1b[1;1H   \x1b[2;1Hhi "
    ));
    press(&mut session, KeyCode::Char('a'), KeyModifiers::control());
    let actions = press(&mut session, KeyCode::Char('d'), KeyModifiers::none());
    assert!(matches!(&actions[..], [SessionAction::Quit]));
}

#[test]
fn pane_of_one_row_takes_what_does_not_wrap() {
    let (mut session, _) = Session::new("dev", 6, 2);
    assert!(session.takes(b"\x1b[31mab\x1b[0mcd\r\nabcdef"));
    assert!(!session.takes(b"abcdefg"));
    assert_eq!(
        session.try_output(b"abcd"),
        Some(b"\x1b[1;1Habcd  \x1b[1;5H\x1b[?25h".to_vec())
    );
    assert!(session.takes(b"ef"));
    assert_eq!(session.try_output(b"efg"), None);
    assert_eq!(session.try_output(b"\rx"), Some(b"\x1b[1;1Hxbcd  \x1b[1;2H\x1b[?25h".to_vec()));
    assert!(session.takes(b"\x1b[6Ga"));
    assert!(!session.takes(b"\x1b[6Gab"));
    assert!(session.takes(b"\x1b[H\x1b[2J\x1b[1;2Habcde"));
    assert!(!session.takes(b"\x1b[1;3Habcde"));
    assert!(session.takes(b"\x1b[3Cab"));
    assert!(!session.takes(b"\x1b[3Cabc"));
    assert!(session.takes(b"\ta"));
    assert!(!session.takes(b"\tab"));
    assert!(!session.takes(b"\x1b7\x1b8a"));
    session.on_output(b"\x1b[H\x1b[2J\x1b[1;2Habcde\x1b[Hx\x1b[99Gy");
}

#[test]
fn narrow_symbols_survive_a_narrower_window() {
    let (mut session, _) = Session::new("dev", 80, 25);
    session.on_output("\u{2713} \u{279c} \u{276f} \u{1f00} \u{fffd}".as_bytes());
    session.on_event(&Event::Resize(79, 25));
    assert!(session.takes(b"a"));
    session.on_event(&Event::Resize(200, 50));
    assert!(session.takes(b"a"));
}

#[test]
fn window_is_cut_only_at_a_wide_character() {
    let (mut session, _) = Session::new("dev", 10, 3);
    session.on_output("你好".as_bytes());
    session.on_event(&Event::Resize(4, 3));
    assert!(session.takes(b"a"));
    session.on_event(&Event::Resize(3, 3));
    assert!(!session.takes(b"a"));
    assert_eq!(session.try_output(b"a"), None);
}
