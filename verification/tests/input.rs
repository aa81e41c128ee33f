use kex::config::PrefixKey;
use kex::tui::input::{
    key_event_to_bytes, Action, Direction, Event, InputHandler, KeyCode, KeyEvent, KeyModifiers,
    Mode,
};

fn key(code: KeyCode) -> Event {
    Event::Key(KeyEvent::new(code, KeyModifiers::none()))
}

fn ctrl(c: char) -> Event {
    Event::Key(KeyEvent::new(KeyCode::Char(c), KeyModifiers::control()))
}

#[test]
fn normal_mode_forwards_chars() {
    let mut h = InputHandler::new();
    assert_eq!(h.mode(), Mode::Normal);
    let action = h.handle_event(&key(KeyCode::Char('a')));
    assert_eq!(action, Action::SendToTerminal(b"a".to_vec()));
}

#[test]
fn ctrl_a_enters_command_mode() {
    let mut h = InputHandler::new();
    let action = h.handle_event(&ctrl('a'));
    assert_eq!(action, Action::ModeChanged(Mode::Command));
    assert_eq!(h.mode(), Mode::Command);
}

#[test]
fn esc_returns_to_normal() {
    let mut h = InputHandler::new();
    h.handle_event(&ctrl('a'));
    let action = h.handle_event(&key(KeyCode::Esc));
    assert_eq!(action, Action::ModeChanged(Mode::Normal));
    assert_eq!(h.mode(), Mode::Normal);
}

#[test]
fn command_mode_unmapped_key_returns_none() {
    let mut h = InputHandler::new();
    h.handle_event(&ctrl('a'));
    let action = h.handle_event(&key(KeyCode::Char('z')));
    assert_eq!(action, Action::Nothing);
    assert_eq!(h.mode(), Mode::Command);
}

#[test]
fn normal_mode_forwards_enter() {
    let mut h = InputHandler::new();
    let action = h.handle_event(&key(KeyCode::Enter));
    assert_eq!(action, Action::SendToTerminal(vec![b'\r']));
}

#[test]
fn normal_mode_forwards_ctrl_c() {
    let mut h = InputHandler::new();
    let action = h.handle_event(&ctrl('c'));
    assert_eq!(action, Action::SendToTerminal(vec![3]));
}

fn cmd(h: &mut InputHandler, code: KeyCode) -> Action {
    h.handle_event(&ctrl('a'));
    h.handle_event(&key(code))
}

#[test]
fn command_navigate() {
    let mut h = InputHandler::new();
    assert_eq!(cmd(&mut h, KeyCode::Char('h')), Action::PaneNavigate(Direction::Left));
    assert_eq!(cmd(&mut h, KeyCode::Char('j')), Action::PaneNavigate(Direction::Down));
    assert_eq!(cmd(&mut h, KeyCode::Char('k')), Action::PaneNavigate(Direction::Up));
    assert_eq!(cmd(&mut h, KeyCode::Char('l')), Action::PaneNavigate(Direction::Right));
}

#[test]
fn command_close() {
    let mut h = InputHandler::new();
    assert_eq!(cmd(&mut h, KeyCode::Char('x')), Action::PaneClose);
}

#[test]
fn command_split() {
    let mut h = InputHandler::new();
    assert_eq!(cmd(&mut h, KeyCode::Char('s')), Action::PaneSplitHorizontal);
    assert_eq!(cmd(&mut h, KeyCode::Char('v')), Action::PaneSplitVertical);
}

#[test]
fn command_terminal_ops() {
    let mut h = InputHandler::new();
    assert_eq!(cmd(&mut h, KeyCode::Char('n')), Action::TerminalNew);
}

#[test]
fn command_resize() {
    let mut h = InputHandler::new();
    let ev = Event::Key(KeyEvent::new(KeyCode::Char('H'), KeyModifiers::shift()));
    h.handle_event(&ctrl('a'));
    assert_eq!(h.handle_event(&ev), Action::PaneResize(Direction::Left));
}

#[test]
fn command_view_switch() {
    let mut h = InputHandler::new();
    assert_eq!(cmd(&mut h, KeyCode::Char('3')), Action::ViewSwitch(3));
}

#[test]
fn command_returns_to_normal_after_action() {
    let mut h = InputHandler::new();
    cmd(&mut h, KeyCode::Char('s'));
    assert_eq!(h.mode(), Mode::Normal);
}

#[test]
fn remaining_commands() {
    let mut h = InputHandler::default();
    assert_eq!(cmd(&mut h, KeyCode::Char('w')), Action::ViewList);
    assert_eq!(cmd(&mut h, KeyCode::Char('d')), Action::Detach);
    assert_eq!(cmd(&mut h, KeyCode::Char('1')), Action::ViewSwitch(1));
    assert_eq!(cmd(&mut h, KeyCode::Char('9')), Action::ViewSwitch(9));
    assert_eq!(cmd(&mut h, KeyCode::Char('0')), Action::Nothing);
    assert_eq!(h.mode(), Mode::Command);
    let resizes = [('J', Direction::Down), ('K', Direction::Up), ('L', Direction::Right)];
    for (c, direction) in resizes {
        let mut h = InputHandler::new();
        h.handle_event(&ctrl('a'));
        let ev = Event::Key(KeyEvent::new(KeyCode::Char(c), KeyModifiers::shift()));
        assert_eq!(h.handle_event(&ev), Action::PaneResize(direction));
    }
}

#[test]
fn capital_letter_without_shift_is_no_command() {
    let mut h = InputHandler::new();
    assert_eq!(cmd(&mut h, KeyCode::Char('H')), Action::Nothing);
    assert_eq!(h.mode(), Mode::Command);
}

#[test]
fn command_mode_never_reaches_the_terminal() {
    for code in [KeyCode::Char('q'), KeyCode::Enter, KeyCode::Up, KeyCode::Char('s')] {
        let mut h = InputHandler::new();
        let action = cmd(&mut h, code);
        assert!(!matches!(action, Action::SendToTerminal(_)));
    }
}

#[test]
fn other_events_change_nothing() {
    let mut h = InputHandler::new();
    assert_eq!(h.handle_event(&Event::Other), Action::Nothing);
    assert_eq!(h.handle_event(&Event::Resize(80, 24)), Action::Nothing);
    assert_eq!(h.mode(), Mode::Normal);
}

#[test]
fn key_bytes_are_exact() {
    let plain = |code| key_event_to_bytes(&KeyEvent::new(code, KeyModifiers::none()));
    assert_eq!(plain(KeyCode::Char('é')), Some(vec![0xc3, 0xa9]));
    assert_eq!(plain(KeyCode::Char('€')), Some(vec![0xe2, 0x82, 0xac]));
    assert_eq!(plain(KeyCode::Enter), Some(b"\r".to_vec()));
    assert_eq!(plain(KeyCode::Backspace), Some(vec![127]));
    assert_eq!(plain(KeyCode::Tab), Some(b"\t".to_vec()));
    assert_eq!(plain(KeyCode::Esc), Some(vec![0x1b]));
    assert_eq!(plain(KeyCode::Up), Some(b"\x1b[A".to_vec()));
    assert_eq!(plain(KeyCode::Down), Some(b"\x1b[B".to_vec()));
    assert_eq!(plain(KeyCode::Right), Some(b"\x1b[C".to_vec()));
    assert_eq!(plain(KeyCode::Left), Some(b"\x1b[D".to_vec()));
    assert_eq!(plain(KeyCode::Home), Some(b"\x1b[H".to_vec()));
    assert_eq!(plain(KeyCode::End), Some(b"\x1b[F".to_vec()));
    assert_eq!(plain(KeyCode::Delete), Some(b"\x1b[3~".to_vec()));
    assert_eq!(plain(KeyCode::Insert), Some(b"\x1b[2~".to_vec()));
    assert_eq!(plain(KeyCode::PageUp), Some(b"\x1b[5~".to_vec()));
    assert_eq!(plain(KeyCode::PageDown), Some(b"\x1b[6~".to_vec()));
    assert_eq!(plain(KeyCode::BackTab), Some(b"\x1b[Z".to_vec()));
    assert_eq!(plain(KeyCode::Null), Some(vec![0]));
    assert_eq!(plain(KeyCode::KeypadBegin), Some(b"\x1b[E".to_vec()));
    assert_eq!(plain(KeyCode::Menu), Some(b"\x1b[29~".to_vec()));
    assert_eq!(plain(KeyCode::CapsLock), None);
    assert_eq!(plain(KeyCode::Media(0)), None);
}

#[test]
fn function_keys_have_their_sequences() {
    let want: [&[u8]; 20] = [
        b"\x1bOP", b"\x1bOQ", b"\x1bOR", b"\x1bOS", b"\x1b[15~", b"\x1b[17~", b"\x1b[18~",
        b"\x1b[19~", b"\x1b[20~", b"\x1b[21~", b"\x1b[23~", b"\x1b[24~", b"\x1b[25~", b"\x1b[26~",
        b"\x1b[28~", b"\x1b[29~", b"\x1b[31~", b"\x1b[32~", b"\x1b[33~", b"\x1b[34~",
    ];
    for (i, bytes) in want.iter().enumerate() {
        let mut h = InputHandler::new();
        let action = h.handle_event(&key(KeyCode::F(i as u8 + 1)));
        assert_eq!(action, Action::SendToTerminal(bytes.to_vec()));
        assert_eq!(h.mode(), Mode::Normal);
    }
    let mut h = InputHandler::new();
    assert_eq!(h.handle_event(&key(KeyCode::F(0))), Action::Nothing);
    assert_eq!(h.handle_event(&key(KeyCode::F(21))), Action::Nothing);
}

#[test]
fn page_keys_reach_the_terminal() {
    let mut h = InputHandler::new();
    let action = h.handle_event(&key(KeyCode::PageUp));
    assert_eq!(action, Action::SendToTerminal(b"\x1b[5~".to_vec()));
    assert_eq!(h.mode(), Mode::Normal);
}

#[test]
fn control_bytes_wrap_around() {
    let held = |c| key_event_to_bytes(&KeyEvent::new(KeyCode::Char(c), KeyModifiers::control()));
    assert_eq!(held('a'), Some(vec![1]));
    assert_eq!(held('Z'), Some(vec![26]));
    assert_eq!(held(' '), Some(vec![0xc0]));
    assert_eq!(held('\u{161}'), Some(vec![1]));
}

#[test]
fn status_text_is_exact() {
    let prefix = PrefixKey::default();
    assert_eq!(
        Mode::Normal.status_text("dev", &prefix),
        " [NORMAL] dev | Ctrl-a: command mode"
    );
    assert_eq!(
        Mode::Command.status_text("dev", &prefix),
        " [COMMAND] h/j/k/l:nav s:split-h v:split-v n:new x:close Esc:back"
    );
}

#[test]
fn another_prefix_key_can_be_set() {
    let prefix = PrefixKey {
        code: KeyCode::Char('b'),
        modifiers: KeyModifiers::control(),
        name: "Ctrl-b".to_string(),
    };
    let mut h = InputHandler::with_prefix(prefix);
    assert_eq!(h.handle_event(&ctrl('a')), Action::SendToTerminal(vec![1]));
    assert_eq!(h.handle_event(&ctrl('b')), Action::ModeChanged(Mode::Command));
    assert_eq!(h.prefix().display_name(), "Ctrl-b");
}
