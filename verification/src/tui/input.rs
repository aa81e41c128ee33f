//! From key presses to actions.
//!
//! In normal mode every key goes to the terminal but the prefix key, which
//! switches to command mode. In command mode one key is one command.
use vstd::prelude::*;
use vstd::slice::slice_to_vec;
use vstd::utf8::{
    decode_utf8, encode_scalar, encode_utf8, encode_utf8_decode_utf8, encode_utf8_valid_utf8,
    valid_utf8,
};

use crate::config::{is_usual, PrefixKey};

verus! {

/// A key on the keyboard. Keys that nothing is bound to are told apart by a
/// number.
#[derive(Debug, Clone, Copy, PartialEq, Eq, Structural)]
pub enum KeyCode {
    Backspace,
    Enter,
    Left,
    Right,
    Up,
    Down,
    Home,
    End,
    PageUp,
    PageDown,
    Tab,
    BackTab,
    Delete,
    Insert,
    F(u8),
    Char(char),
    Null,
    Esc,
    CapsLock,
    ScrollLock,
    NumLock,
    PrintScreen,
    Pause,
    Menu,
    KeypadBegin,
    Media(u8),
    Modifier(u8),
}

/// The modifier keys that are held down.
#[derive(Debug, Clone, Copy, PartialEq, Eq, Structural)]
pub struct KeyModifiers {
    pub shift: bool,
    pub control: bool,
    pub alt: bool,
    pub super_key: bool,
    pub hyper: bool,
    pub meta: bool,
}

/// Whether all of the second modifiers are among the first.
pub open spec fn modifiers_contain(held: KeyModifiers, wanted: KeyModifiers) -> bool {
    &&& wanted.shift ==> held.shift
    &&& wanted.control ==> held.control
    &&& wanted.alt ==> held.alt
    &&& wanted.super_key ==> held.super_key
    &&& wanted.hyper ==> held.hyper
    &&& wanted.meta ==> held.meta
}

impl KeyModifiers {
    /// No modifier key.
    pub fn none() -> (m: Self)
        ensures
            m == (KeyModifiers {
                shift: false,
                control: false,
                alt: false,
                super_key: false,
                hyper: false,
                meta: false,
            }),
    {
        KeyModifiers {
            shift: false,
            control: false,
            alt: false,
            super_key: false,
            hyper: false,
            meta: false,
        }
    }

    /// The control key alone.
    pub fn control() -> (m: Self)
        ensures
            m == (KeyModifiers {
                shift: false,
                control: true,
                alt: false,
                super_key: false,
                hyper: false,
                meta: false,
            }),
    {
        let mut m = Self::none();
        m.control = true;
        m
    }

    /// The shift key alone.
    pub fn shift() -> (m: Self)
        ensures
            m == (KeyModifiers {
                shift: true,
                control: false,
                alt: false,
                super_key: false,
                hyper: false,
                meta: false,
            }),
    {
        let mut m = Self::none();
        m.shift = true;
        m
    }

    /// Whether all of some modifiers are held down.
    pub fn contains(&self, wanted: KeyModifiers) -> (yes: bool)
        ensures
            yes == modifiers_contain(*self, wanted),
    {
        (!wanted.shift || self.shift) && (!wanted.control || self.control) && (!wanted.alt
            || self.alt) && (!wanted.super_key || self.super_key) && (!wanted.hyper || self.hyper)
            && (!wanted.meta || self.meta)
    }
}

/// A key press.
#[derive(Debug, Clone, Copy, PartialEq, Eq, Structural)]
pub struct KeyEvent {
    pub code: KeyCode,
    pub modifiers: KeyModifiers,
}

impl KeyEvent {
    /// A key pressed with some modifiers.
    pub fn new(code: KeyCode, modifiers: KeyModifiers) -> (event: Self)
        ensures
            event.code == code,
            event.modifiers == modifiers,
    {
        KeyEvent { code, modifiers }
    }
}

/// What the terminal window reports.
#[derive(Debug, Clone, Copy, PartialEq, Eq, Structural)]
pub enum Event {
    Key(KeyEvent),
    /// The window has this many columns and rows now.
    Resize(u16, u16),
    /// Anything else: focus, mouse, paste.
    Other,
}

/// What the keyboard is for at the moment.
#[derive(Debug, Clone, Copy, PartialEq, Eq, Structural)]
pub enum Mode {
    Normal,
    Command,
}

/// What the status bar says.
pub open spec fn status_line(mode: Mode, terminal_name: Seq<char>, prefix: PrefixKey) -> Seq<char> {
    match mode {
        Mode::Normal => " [NORMAL] "@ + terminal_name + " | "@ + prefix.name@ + ": command mode"@,
        Mode::Command => " [COMMAND] h/j/k/l:nav s:split-h v:split-v n:new x:close Esc:back"@,
    }
}

impl Mode {
    /// What the status bar says.
    pub fn status_text(&self, terminal_name: &str, prefix: &PrefixKey) -> (text: String)
        ensures
            text@ == status_line(*self, terminal_name@, *prefix),
    {
        match self {
            Mode::Normal => {
                let mut text = " [NORMAL] ".to_string();
                text.append(terminal_name);
                text.append(" | ");
                text.append(prefix.display_name());
                text.append(": command mode");
                text
            },
            Mode::Command => {
                " [COMMAND] h/j/k/l:nav s:split-h v:split-v n:new x:close Esc:back".to_string()
            },
        }
    }
}

/// A direction on the screen.
#[derive(Debug, Clone, Copy, PartialEq, Eq, Structural)]
pub enum Direction {
    Left,
    Down,
    Up,
    Right,
}

/// What a key press asks for.
#[derive(Debug, Clone, PartialEq, Eq)]
pub enum Action {
    SendToTerminal(Vec<u8>),
    PaneSplitHorizontal,
    PaneSplitVertical,
    PaneNavigate(Direction),
    PaneResize(Direction),
    PaneClose,
    TerminalNew,
    ViewList,
    ViewSwitch(usize),
    Detach,
    ModeChanged(Mode),
    Nothing,
}

/// What a key press asks for, as contracts speak of it.
pub enum Wish {
    SendToTerminal(Seq<u8>),
    PaneSplitHorizontal,
    PaneSplitVertical,
    PaneNavigate(Direction),
    PaneResize(Direction),
    PaneClose,
    TerminalNew,
    ViewList,
    ViewSwitch(int),
    Detach,
    ModeChanged(Mode),
    Nothing,
}

impl View for Action {
    type V = Wish;

    open spec fn view(&self) -> Wish {
        match *self {
            Action::SendToTerminal(bytes) => Wish::SendToTerminal(bytes@),
            Action::PaneSplitHorizontal => Wish::PaneSplitHorizontal,
            Action::PaneSplitVertical => Wish::PaneSplitVertical,
            Action::PaneNavigate(d) => Wish::PaneNavigate(d),
            Action::PaneResize(d) => Wish::PaneResize(d),
            Action::PaneClose => Wish::PaneClose,
            Action::TerminalNew => Wish::TerminalNew,
            Action::ViewList => Wish::ViewList,
            Action::ViewSwitch(n) => Wish::ViewSwitch(n as int),
            Action::Detach => Wish::Detach,
            Action::ModeChanged(m) => Wish::ModeChanged(m),
            Action::Nothing => Wish::Nothing,
        }
    }
}

/// A letter in lower case, where it is an ASCII one.
pub open spec fn ascii_lower(c: char) -> int {
    if 'A' <= c <= 'Z' {
        c as int + 32
    } else {
        c as int
    }
}

/// The control byte of a character: one for `a`, two for `b` and so on. It is
/// taken from the lowest byte of the character's number.
pub open spec fn control_byte(c: char) -> u8 {
    ((ascii_lower(c) % 256 + 160) % 256) as u8
}

/// The number that stands for a function key in its sequence, where it has one.
pub open spec fn function_key_number(n: u8) -> Option<u8> {
    if n == 5 {
        Some(15u8)
    } else if 6 <= n <= 10 {
        Some((n + 11) as u8)
    } else if 11 <= n <= 14 {
        Some((n + 12) as u8)
    } else if 15 <= n <= 16 {
        Some((n + 13) as u8)
    } else if 17 <= n <= 20 {
        Some((n + 14) as u8)
    } else {
        None
    }
}

/// The sequence of a function key, where it has one: the first four have a letter
/// of their own, the others a number.
pub open spec fn function_key_bytes(n: u8) -> Option<Seq<u8>> {
    if 1 <= n <= 4 {
        Some(seq![0x1bu8, 0x4f, (0x4f + n) as u8])
    } else {
        match function_key_number(n) {
            Some(number) => Some(
                seq![0x1bu8, 0x5b, (0x30 + number / 10) as u8, (0x30 + number % 10) as u8, 0x7e],
            ),
            None => None,
        }
    }
}

/// The bytes that a program in the terminal reads for a key press, where it
/// reads any.
pub open spec fn key_bytes(key: KeyEvent) -> Option<Seq<u8>> {
    match key.code {
        KeyCode::Char(c) => if key.modifiers.control {
            Some(seq![control_byte(c)])
        } else {
            Some(encode_utf8(seq![c]))
        },
        KeyCode::Enter => Some(seq![13u8]),
        KeyCode::Backspace => Some(seq![127u8]),
        KeyCode::Tab => Some(seq![9u8]),
        KeyCode::Esc => Some(seq![0x1bu8]),
        KeyCode::Up => Some(seq![0x1bu8, 0x5b, 0x41]),
        KeyCode::Down => Some(seq![0x1bu8, 0x5b, 0x42]),
        KeyCode::Right => Some(seq![0x1bu8, 0x5b, 0x43]),
        KeyCode::Left => Some(seq![0x1bu8, 0x5b, 0x44]),
        KeyCode::Home => Some(seq![0x1bu8, 0x5b, 0x48]),
        KeyCode::End => Some(seq![0x1bu8, 0x5b, 0x46]),
        KeyCode::Delete => Some(seq![0x1bu8, 0x5b, 0x33, 0x7e]),
        KeyCode::Insert => Some(seq![0x1bu8, 0x5b, 0x32, 0x7e]),
        KeyCode::PageUp => Some(seq![0x1bu8, 0x5b, 0x35, 0x7e]),
        KeyCode::PageDown => Some(seq![0x1bu8, 0x5b, 0x36, 0x7e]),
        KeyCode::BackTab => Some(seq![0x1bu8, 0x5b, 0x5a]),
        KeyCode::Null => Some(seq![0u8]),
        KeyCode::KeypadBegin => Some(seq![0x1bu8, 0x5b, 0x45]),
        KeyCode::Menu => Some(seq![0x1bu8, 0x5b, 0x32, 0x39, 0x7e]),
        KeyCode::F(n) => function_key_bytes(n),
        _ => None,
    }
}

/// Whether there is nothing that a program in a terminal could read for a key:
/// locks, bare modifiers, keys of the machine itself, and function keys without
/// a sequence.
pub open spec fn mute(code: KeyCode) -> bool {
    match code {
        KeyCode::CapsLock | KeyCode::ScrollLock | KeyCode::NumLock | KeyCode::PrintScreen
        | KeyCode::Pause | KeyCode::Media(_) | KeyCode::Modifier(_) => true,
        KeyCode::F(n) => n == 0 || n > 20,
        _ => false,
    }
}

/// The command that a key is in command mode. The escape key is none.
pub open spec fn key_command(key: KeyEvent) -> Wish {
    match key.code {
        KeyCode::Char(c) => {
            if c == 'h' {
                Wish::PaneNavigate(Direction::Left)
            } else if c == 'j' {
                Wish::PaneNavigate(Direction::Down)
            } else if c == 'k' {
                Wish::PaneNavigate(Direction::Up)
            } else if c == 'l' {
                Wish::PaneNavigate(Direction::Right)
            } else if c == 'x' {
                Wish::PaneClose
            } else if c == 's' {
                Wish::PaneSplitHorizontal
            } else if c == 'v' {
                Wish::PaneSplitVertical
            } else if c == 'n' {
                Wish::TerminalNew
            } else if c == 'w' {
                Wish::ViewList
            } else if c == 'd' {
                Wish::Detach
            } else if '1' <= c <= '9' {
                Wish::ViewSwitch(c as int - '0' as int)
            } else if c == 'H' && key.modifiers.shift {
                Wish::PaneResize(Direction::Left)
            } else if c == 'J' && key.modifiers.shift {
                Wish::PaneResize(Direction::Down)
            } else if c == 'K' && key.modifiers.shift {
                Wish::PaneResize(Direction::Up)
            } else if c == 'L' && key.modifiers.shift {
                Wish::PaneResize(Direction::Right)
            } else {
                Wish::Nothing
            }
        },
        _ => Wish::Nothing,
    }
}

/// The mode and the wish that follow an event in a mode.
pub open spec fn respond(mode: Mode, prefix: PrefixKey, event: Event) -> (Mode, Wish) {
    match event {
        Event::Key(key) => match mode {
            Mode::Normal => if key.code == prefix.code && modifiers_contain(
                key.modifiers,
                prefix.modifiers,
            ) {
                (Mode::Command, Wish::ModeChanged(Mode::Command))
            } else {
                match key_bytes(key) {
                    Some(bytes) => (Mode::Normal, Wish::SendToTerminal(bytes)),
                    None => (Mode::Normal, Wish::Nothing),
                }
            },
            Mode::Command => if key.code == KeyCode::Esc {
                (Mode::Normal, Wish::ModeChanged(Mode::Normal))
            } else if key_command(key) is Nothing {
                (Mode::Command, Wish::Nothing)
            } else {
                (Mode::Normal, key_command(key))
            },
        },
        _ => (mode, Wish::Nothing),
    }
}

/// Follows key presses from mode to mode.
pub struct InputHandler {
    mode: Mode,
    prefix: PrefixKey,
}

/// The state of an input handler.
pub struct Keyboard {
    pub mode: Mode,
    pub prefix: PrefixKey,
}

impl View for InputHandler {
    type V = Keyboard;

    closed spec fn view(&self) -> Keyboard {
        Keyboard { mode: self.mode, prefix: self.prefix }
    }
}

impl Default for InputHandler {
    /// Normal mode with the usual prefix key.
    fn default() -> (handler: Self)
        ensures
            handler@.mode == Mode::Normal,
            is_usual(handler@.prefix),
    {
        Self::new()
    }
}

impl InputHandler {
    /// Normal mode with the usual prefix key, Ctrl-a.
    pub fn new() -> (handler: Self)
        ensures
            handler@.mode == Mode::Normal,
            is_usual(handler@.prefix),
    {
        Self { mode: Mode::Normal, prefix: PrefixKey::default() }
    }

    /// Normal mode with another prefix key.
    pub fn with_prefix(prefix: PrefixKey) -> (handler: Self)
        ensures
            handler@.mode == Mode::Normal,
            handler@.prefix == prefix,
    {
        Self { mode: Mode::Normal, prefix }
    }

    /// The mode.
    pub fn mode(&self) -> (mode: Mode)
        ensures
            mode == self@.mode,
    {
        self.mode
    }

    /// The prefix key.
    pub fn prefix(&self) -> (prefix: &PrefixKey)
        ensures
            *prefix == self@.prefix,
    {
        &self.prefix
    }

    /// Takes an event and says what it asks for.
    pub fn handle_event(&mut self, event: &Event) -> (action: Action)
        ensures
            final(self)@.prefix == old(self)@.prefix,
            (final(self)@.mode, action@) == respond(old(self)@.mode, old(self)@.prefix, *event),
    {
        match event {
            Event::Key(key) => match self.mode {
                Mode::Normal => self.handle_normal(key),
                Mode::Command => self.handle_command(key),
            },
            Event::Resize(_, _) => Action::Nothing,
            Event::Other => Action::Nothing,
        }
    }

    fn handle_normal(&mut self, key: &KeyEvent) -> (action: Action)
        requires
            old(self)@.mode == Mode::Normal,
        ensures
            final(self)@.prefix == old(self)@.prefix,
            (final(self)@.mode, action@) == respond(
                Mode::Normal,
                old(self)@.prefix,
                Event::Key(*key),
            ),
    {
        if key.code == self.prefix.code && key.modifiers.contains(self.prefix.modifiers) {
            self.mode = Mode::Command;
            return Action::ModeChanged(Mode::Command);
        }
        match key_event_to_bytes(key) {
            Some(bytes) => Action::SendToTerminal(bytes),
            None => Action::Nothing,
        }
    }

    /// Follows a key in command mode. A command ends the mode, a key that is none
    /// leaves it as it is, and none reaches the terminal.
    pub fn handle_command(&mut self, key: &KeyEvent) -> (action: Action)
        requires
            old(self)@.mode == Mode::Command,
        ensures
            final(self)@.prefix == old(self)@.prefix,
            (final(self)@.mode, action@) == respond(
                Mode::Command,
                old(self)@.prefix,
                Event::Key(*key),
            ),
            action is Nothing <==> final(self)@.mode == Mode::Command,
            !(action is SendToTerminal),
            action is ModeChanged <==> key.code == KeyCode::Esc,
            action matches Action::ModeChanged(mode) ==> mode == Mode::Normal,
    {
        let shift = key.modifiers.shift;
        let action = match key.code {
            KeyCode::Esc => {
                self.mode = Mode::Normal;
                return Action::ModeChanged(Mode::Normal);
            },
            KeyCode::Char(c) => {
                if c == 'h' {
                    Action::PaneNavigate(Direction::Left)
                } else if c == 'j' {
                    Action::PaneNavigate(Direction::Down)
                } else if c == 'k' {
                    Action::PaneNavigate(Direction::Up)
                } else if c == 'x' {
                    Action::PaneClose
                } else if c == 'l' {
                    Action::PaneNavigate(Direction::Right)
                } else if c == 's' {
                    Action::PaneSplitHorizontal
                } else if c == 'v' {
                    Action::PaneSplitVertical
                } else if c == 'n' {
                    Action::TerminalNew
                } else if c == 'w' {
                    Action::ViewList
                } else if c == 'd' {
                    Action::Detach
                } else if '1' <= c && c <= '9' {
                    Action::ViewSwitch((c as u32 - '0' as u32) as usize)
                } else if c == 'H' && shift {
                    Action::PaneResize(Direction::Left)
                } else if c == 'J' && shift {
                    Action::PaneResize(Direction::Down)
                } else if c == 'K' && shift {
                    Action::PaneResize(Direction::Up)
                } else if c == 'L' && shift {
                    Action::PaneResize(Direction::Right)
                } else {
                    return Action::Nothing;
                }
            },
            _ => return Action::Nothing,
        };
        self.mode = Mode::Normal;
        action
    }
}

/// The bytes that a program in the terminal reads for a key press, where it
/// reads any.
pub fn key_event_to_bytes(event: &KeyEvent) -> (r: Option<Vec<u8>>)
    ensures
        match r {
            Some(bytes) => key_bytes(*event) == Some(bytes@),
            None => key_bytes(*event) is None,
        },
{
    match event.code {
        KeyCode::Char(c) => {
            if event.modifiers.control {
                let lower: u32 = if 'A' <= c && c <= 'Z' {
                    c as u32 + 32
                } else {
                    c as u32
                };
                let byte: u8 = ((lower % 256 + 160) % 256) as u8;
                Some(vec![byte])
            } else {
                let mut text = String::new();
                text.push(c);
                assert(text@ =~= seq![c]);
                Some(slice_to_vec(text.as_str().as_bytes()))
            }
        },
        KeyCode::Enter => Some(vec![13u8]),
        KeyCode::Backspace => Some(vec![127u8]),
        KeyCode::Tab => Some(vec![9u8]),
        KeyCode::Esc => Some(vec![0x1bu8]),
        KeyCode::Up => Some(vec![0x1bu8, 0x5b, 0x41]),
        KeyCode::Down => Some(vec![0x1bu8, 0x5b, 0x42]),
        KeyCode::Right => Some(vec![0x1bu8, 0x5b, 0x43]),
        KeyCode::Left => Some(vec![0x1bu8, 0x5b, 0x44]),
        KeyCode::Home => Some(vec![0x1bu8, 0x5b, 0x48]),
        KeyCode::End => Some(vec![0x1bu8, 0x5b, 0x46]),
        KeyCode::Delete => Some(vec![0x1bu8, 0x5b, 0x33, 0x7e]),
        KeyCode::Insert => Some(vec![0x1bu8, 0x5b, 0x32, 0x7e]),
        KeyCode::PageUp => Some(vec![0x1bu8, 0x5b, 0x35, 0x7e]),
        KeyCode::PageDown => Some(vec![0x1bu8, 0x5b, 0x36, 0x7e]),
        KeyCode::BackTab => Some(vec![0x1bu8, 0x5b, 0x5a]),
        KeyCode::Null => Some(vec![0u8]),
        KeyCode::KeypadBegin => Some(vec![0x1bu8, 0x5b, 0x45]),
        KeyCode::Menu => Some(vec![0x1bu8, 0x5b, 0x32, 0x39, 0x7e]),
        KeyCode::F(n) => function_key(n),
        _ => None,
    }
}

fn function_key(n: u8) -> (r: Option<Vec<u8>>)
    ensures
        match r {
            Some(bytes) => function_key_bytes(n) == Some(bytes@),
            None => function_key_bytes(n) is None,
        },
{
    if 1 <= n && n <= 4 {
        return Some(vec![0x1bu8, 0x4f, 0x4f + n]);
    }
    let number: u8 = if n == 5 {
        15
    } else if 6 <= n && n <= 10 {
        n + 11
    } else if 11 <= n && n <= 14 {
        n + 12
    } else if 15 <= n && n <= 16 {
        n + 13
    } else if 17 <= n && n <= 20 {
        n + 14
    } else {
        return None;
    };
    Some(vec![0x1bu8, 0x5b, 0x30 + number / 10, 0x30 + number % 10, 0x7e])
}

/// In command mode the keyboard belongs to the interface: no key reaches the
/// terminal.
pub proof fn command_mode_sends_nothing(prefix: PrefixKey, event: Event)
    ensures
        !(respond(Mode::Command, prefix, event).1 is SendToTerminal),
{
}

/// In normal mode every key but the prefix key is passed on, as long as there is
/// something that a program in a terminal could read for it.
pub proof fn normal_mode_passes_keys_on(prefix: PrefixKey, key: KeyEvent)
    requires
        key.code != prefix.code || !modifiers_contain(key.modifiers, prefix.modifiers),
    ensures
        ({
            let (mode, wish) = respond(Mode::Normal, prefix, Event::Key(key));
            &&& mode == Mode::Normal
            &&& mute(key.code) ==> wish is Nothing
            &&& !mute(key.code) ==> {
                &&& key_bytes(key) matches Some(bytes)
                &&& bytes.len() > 0
                &&& wish == Wish::SendToTerminal(bytes)
            }
        }),
{
    if let KeyCode::Char(c) = key.code {
        assert(encode_scalar(c as u32).len() > 0);
    }
}

/// A command ends command mode, and a key that is none leaves it as it is, so
/// that another key can be tried. The escape key, and no other one, announces
/// normal mode.
pub proof fn command_mode_lasts_for_one_command(prefix: PrefixKey, key: KeyEvent)
    ensures
        ({
            let (mode, wish) = respond(Mode::Command, prefix, Event::Key(key));
            &&& (mode == Mode::Command) == (wish is Nothing)
            &&& wish is ModeChanged <==> key.code == KeyCode::Esc
            &&& wish matches Wish::ModeChanged(announced) ==> announced == Mode::Normal
        }),
{
}

/// The mode changes silently only after a command, and an announced mode is the
/// one that holds.
pub proof fn announced_mode_holds(mode: Mode, prefix: PrefixKey, event: Event)
    ensures
        ({
            let (now, wish) = respond(mode, prefix, event);
            &&& wish matches Wish::ModeChanged(m) ==> m == now && m != mode
            &&& mode == Mode::Normal && now != mode ==> wish is ModeChanged
        }),
{
}

/// The prefix key and then the escape key lead back to normal mode.
pub proof fn escape_undoes_the_prefix(prefix: PrefixKey, held: KeyModifiers, other: KeyModifiers)
    requires
        modifiers_contain(held, prefix.modifiers),
    ensures
        ({
            let first = respond(
                Mode::Normal,
                prefix,
                Event::Key(KeyEvent { code: prefix.code, modifiers: held }),
            );
            let second = respond(
                first.0,
                prefix,
                Event::Key(KeyEvent { code: KeyCode::Esc, modifiers: other }),
            );
            &&& first == (Mode::Command, Wish::ModeChanged(Mode::Command))
            &&& second == (Mode::Normal, Wish::ModeChanged(Mode::Normal))
        }),
{
}

/// Without the control key a character key sends that character: the bytes are
/// valid UTF-8 and decode to it alone, whatever other modifiers are held.
pub proof fn typed_character_reads_back(c: char, held: KeyModifiers)
    requires
        !held.control,
    ensures
        key_bytes(KeyEvent { code: KeyCode::Char(c), modifiers: held }) matches Some(bytes) && {
            &&& valid_utf8(bytes)
            &&& decode_utf8(bytes) == seq![c]
        },
{
    encode_utf8_valid_utf8(seq![c]);
    encode_utf8_decode_utf8(seq![c]);
}

/// Different characters send different bytes.
pub proof fn typed_characters_differ(a: char, b: char, held: KeyModifiers, other: KeyModifiers)
    requires
        a != b,
        !held.control,
        !other.control,
    ensures
        key_bytes(KeyEvent { code: KeyCode::Char(a), modifiers: held }) != key_bytes(
            KeyEvent { code: KeyCode::Char(b), modifiers: other },
        ),
{
    typed_character_reads_back(a, held);
    typed_character_reads_back(b, other);
    assert(seq![a][0] != seq![b][0]);
}

/// With the control key a letter sends one byte, its place in the alphabet,
/// whether it is a capital or not. Any other character sends the lowest byte of
/// its number less the number of the character before `a`.
pub proof fn control_numbers_the_letters(c: char, held: KeyModifiers)
    requires
        held.control,
    ensures
        key_bytes(KeyEvent { code: KeyCode::Char(c), modifiers: held }) matches Some(bytes) && {
            &&& bytes.len() == 1
            &&& 'a' <= c <= 'z' ==> bytes[0] == c as int - 'a' as int + 1
            &&& 'A' <= c <= 'Z' ==> bytes[0] == c as int - 'A' as int + 1
            &&& !('A' <= c <= 'Z') ==> (bytes[0] + '`' as int - c as int) % 256 == 0
        },
{
}

/// A key that is no character sends the same bytes whatever modifiers are held.
pub proof fn modifiers_concern_characters_only(
    code: KeyCode,
    held: KeyModifiers,
    other: KeyModifiers,
)
    requires
        !(code is Char),
    ensures
        key_bytes(KeyEvent { code, modifiers: held }) == key_bytes(
            KeyEvent { code, modifiers: other },
        ),
{
}

/// Of the keys that are no character, no two that are read by a program are read
/// in the same way, but for the menu key and the sixteenth function key.
pub proof fn keys_send_different_bytes(
    a: KeyCode,
    b: KeyCode,
    held: KeyModifiers,
    other: KeyModifiers,
)
    requires
        !(a is Char),
        !(b is Char),
        !mute(a),
        !mute(b),
        a != b,
        !(a == KeyCode::Menu && b == KeyCode::F(16)),
        !(b == KeyCode::Menu && a == KeyCode::F(16)),
    ensures
        key_bytes(KeyEvent { code: a, modifiers: held }) is Some,
        key_bytes(KeyEvent { code: a, modifiers: held }) != key_bytes(
            KeyEvent { code: b, modifiers: other },
        ),
{
    let one = key_bytes(KeyEvent { code: a, modifiers: held }).unwrap();
    let two = key_bytes(KeyEvent { code: b, modifiers: other }).unwrap();
    if one == two {
        assert(one.len() == two.len());
        assert(one[0] == two[0]);
        if one.len() > 1 {
            assert(one[1] == two[1]);
            assert(one[2] == two[2]);
        }
        if one.len() > 4 {
            assert(one[3] == two[3]);
            assert(one[4] == two[4]);
        }
    }
}

/// What the cursor and editing keys send: the escape character, an opening
/// bracket, and a letter or a number with a tilde behind it.
pub proof fn editing_keys_send_their_sequences(held: KeyModifiers)
    ensures
        ({
            let sent = |code: KeyCode| key_bytes(KeyEvent { code, modifiers: held });
            let csi = |rest: Seq<u8>| Some(seq![27u8, '[' as u8] + rest);
            &&& sent(KeyCode::Up) == csi(seq!['A' as u8])
            &&& sent(KeyCode::Down) == csi(seq!['B' as u8])
            &&& sent(KeyCode::Right) == csi(seq!['C' as u8])
            &&& sent(KeyCode::Left) == csi(seq!['D' as u8])
            &&& sent(KeyCode::KeypadBegin) == csi(seq!['E' as u8])
            &&& sent(KeyCode::End) == csi(seq!['F' as u8])
            &&& sent(KeyCode::Home) == csi(seq!['H' as u8])
            &&& sent(KeyCode::BackTab) == csi(seq!['Z' as u8])
            &&& sent(KeyCode::Insert) == csi(seq!['2' as u8, '~' as u8])
            &&& sent(KeyCode::Delete) == csi(seq!['3' as u8, '~' as u8])
            &&& sent(KeyCode::PageUp) == csi(seq!['5' as u8, '~' as u8])
            &&& sent(KeyCode::PageDown) == csi(seq!['6' as u8, '~' as u8])
            &&& sent(KeyCode::Menu) == csi(seq!['2' as u8, '9' as u8, '~' as u8])
            &&& sent(KeyCode::Tab) == Some(seq!['\t' as u8])
            &&& sent(KeyCode::Enter) == Some(seq!['\r' as u8])
            &&& sent(KeyCode::Esc) == Some(seq![27u8])
            &&& sent(KeyCode::Backspace) == Some(seq![127u8])
            &&& sent(KeyCode::Null) == Some(seq![0u8])
        }),
{
    let csi = |rest: Seq<u8>| seq![27u8, '[' as u8] + rest;
    assert(csi(seq!['A' as u8]) =~= seq![0x1bu8, 0x5b, 0x41]);
    assert(csi(seq!['B' as u8]) =~= seq![0x1bu8, 0x5b, 0x42]);
    assert(csi(seq!['C' as u8]) =~= seq![0x1bu8, 0x5b, 0x43]);
    assert(csi(seq!['D' as u8]) =~= seq![0x1bu8, 0x5b, 0x44]);
    assert(csi(seq!['E' as u8]) =~= seq![0x1bu8, 0x5b, 0x45]);
    assert(csi(seq!['F' as u8]) =~= seq![0x1bu8, 0x5b, 0x46]);
    assert(csi(seq!['H' as u8]) =~= seq![0x1bu8, 0x5b, 0x48]);
    assert(csi(seq!['Z' as u8]) =~= seq![0x1bu8, 0x5b, 0x5a]);
    assert(csi(seq!['2' as u8, '~' as u8]) =~= seq![0x1bu8, 0x5b, 0x32, 0x7e]);
    assert(csi(seq!['3' as u8, '~' as u8]) =~= seq![0x1bu8, 0x5b, 0x33, 0x7e]);
    assert(csi(seq!['5' as u8, '~' as u8]) =~= seq![0x1bu8, 0x5b, 0x35, 0x7e]);
    assert(csi(seq!['6' as u8, '~' as u8]) =~= seq![0x1bu8, 0x5b, 0x36, 0x7e]);
    assert(csi(seq!['2' as u8, '9' as u8, '~' as u8]) =~= seq![0x1bu8, 0x5b, 0x32, 0x39, 0x7e]);
}

/// What the function keys send: the first four the letters from `P` on, the
/// others up to the twentieth a number from 15 to 34 that grows with the key and
/// leaves out 16, 22, 27 and 30.
pub proof fn function_keys_are_numbered(n: u8, held: KeyModifiers)
    ensures
        ({
            let sent = key_bytes(KeyEvent { code: KeyCode::F(n), modifiers: held });
            let number = |a: char, b: char|
                Some(seq![27u8, '[' as u8, a as u8, b as u8, '~' as u8]);
            &&& n == 1 ==> sent == Some(seq![27u8, 'O' as u8, 'P' as u8])
            &&& n == 2 ==> sent == Some(seq![27u8, 'O' as u8, 'Q' as u8])
            &&& n == 3 ==> sent == Some(seq![27u8, 'O' as u8, 'R' as u8])
            &&& n == 4 ==> sent == Some(seq![27u8, 'O' as u8, 'S' as u8])
            &&& n == 5 ==> sent == number('1', '5')
            &&& n == 6 ==> sent == number('1', '7')
            &&& n == 7 ==> sent == number('1', '8')
            &&& n == 8 ==> sent == number('1', '9')
            &&& n == 9 ==> sent == number('2', '0')
            &&& n == 10 ==> sent == number('2', '1')
            &&& n == 11 ==> sent == number('2', '3')
            &&& n == 12 ==> sent == number('2', '4')
            &&& n == 13 ==> sent == number('2', '5')
            &&& n == 14 ==> sent == number('2', '6')
            &&& n == 15 ==> sent == number('2', '8')
            &&& n == 16 ==> sent == number('2', '9')
            &&& n == 17 ==> sent == number('3', '1')
            &&& n == 18 ==> sent == number('3', '2')
            &&& n == 19 ==> sent == number('3', '3')
            &&& n == 20 ==> sent == number('3', '4')
            &&& n == 0 || n > 20 ==> sent is None
        }),
{
}

/// Which keys are which command, and that nothing else is one: small letters and
/// digits whatever modifiers are held, capitals only with the shift key.
pub proof fn commands_have_one_key_each(prefix: PrefixKey, key: KeyEvent)
    ensures
        ({
            let wish = respond(Mode::Command, prefix, Event::Key(key)).1;
            let is = |c: char| key.code == KeyCode::Char(c);
            let capital = |c: char| key.code == KeyCode::Char(c) && key.modifiers.shift;
            &&& wish == Wish::PaneNavigate(Direction::Left) <==> is('h')
            &&& wish == Wish::PaneNavigate(Direction::Down) <==> is('j')
            &&& wish == Wish::PaneNavigate(Direction::Up) <==> is('k')
            &&& wish == Wish::PaneNavigate(Direction::Right) <==> is('l')
            &&& wish == Wish::PaneResize(Direction::Left) <==> capital('H')
            &&& wish == Wish::PaneResize(Direction::Down) <==> capital('J')
            &&& wish == Wish::PaneResize(Direction::Up) <==> capital('K')
            &&& wish == Wish::PaneResize(Direction::Right) <==> capital('L')
            &&& wish == Wish::PaneClose <==> is('x')
            &&& wish == Wish::PaneSplitHorizontal <==> is('s')
            &&& wish == Wish::PaneSplitVertical <==> is('v')
            &&& wish == Wish::TerminalNew <==> is('n')
            &&& wish == Wish::ViewList <==> is('w')
            &&& wish == Wish::Detach <==> is('d')
            &&& forall|n: int| #[trigger] view_wish(n) == wish <==> 1 <= n <= 9 && is(
                ('0' as int + n) as char,
            )
            &&& wish is ViewSwitch ==> 1 <= wish->ViewSwitch_0 <= 9
            &&& !(wish is SendToTerminal)
        }),
{
}

/// The wish for the view with a number.
pub open spec fn view_wish(n: int) -> Wish {
    Wish::ViewSwitch(n)
}

/// The prefix key is the key with the prefix's code and at least its modifiers,
/// and it is all that normal mode keeps to itself. What is not a key press
/// changes nothing and asks for nothing.
pub proof fn only_the_prefix_is_kept_back(prefix: PrefixKey, mode: Mode, key: KeyEvent)
    ensures
        ({
            let (now, wish) = respond(Mode::Normal, prefix, Event::Key(key));
            let united = KeyModifiers {
                shift: key.modifiers.shift || prefix.modifiers.shift,
                control: key.modifiers.control || prefix.modifiers.control,
                alt: key.modifiers.alt || prefix.modifiers.alt,
                super_key: key.modifiers.super_key || prefix.modifiers.super_key,
                hyper: key.modifiers.hyper || prefix.modifiers.hyper,
                meta: key.modifiers.meta || prefix.modifiers.meta,
            };
            let is_prefix = key.code == prefix.code && united == key.modifiers;
            &&& now == Mode::Command <==> is_prefix
            &&& wish == Wish::ModeChanged(Mode::Command) <==> is_prefix
        }),
        forall|cols: u16, rows: u16| #[trigger]
            respond(mode, prefix, Event::Resize(cols, rows)) == (mode, Wish::Nothing),
        respond(mode, prefix, Event::Other) == (mode, Wish::Nothing),
{
}

/// The status bar names the mode in brackets. In normal mode it shows the name of
/// the terminal behind that and the name of the prefix key towards its end; in
/// command mode it is the same for all terminals and keys.
pub proof fn status_bar_names_the_mode(name: Seq<char>, prefix: PrefixKey, other: PrefixKey)
    ensures
        ({
            let n = name.len() as int;
            let p = prefix.name@.len() as int;
            let normal = status_line(Mode::Normal, name, prefix);
            let command = status_line(Mode::Command, name, prefix);
            &&& normal.len() == n + p + 27
            &&& normal.take(10) == " [NORMAL] "@
            &&& normal.subrange(10, 10 + n) == name
            &&& normal.subrange(10 + n, 13 + n) == " | "@
            &&& normal.subrange(
                13 + n,
                13 + n + p,
            ) == prefix.name@
            &&& normal.skip(normal.len() - 14) == ": command mode"@
            &&& command.take(11) == " [COMMAND] "@
            &&& command == status_line(Mode::Command, Seq::empty(), other)
        }),
{
    reveal_strlit(" [NORMAL] ");
    reveal_strlit(" | ");
    reveal_strlit(": command mode");
    reveal_strlit(" [COMMAND] ");
    reveal_strlit(" [COMMAND] h/j/k/l:nav s:split-h v:split-v n:new x:close Esc:back");
    let n = name.len() as int;
    let p = prefix.name@.len() as int;
    let normal = status_line(Mode::Normal, name, prefix);
    assert(normal.take(10) =~= " [NORMAL] "@);
    assert(normal.subrange(10, 10 + n) =~= name);
    assert(normal.subrange(10 + n, 13 + n) =~= " | "@);
    assert(normal.subrange(13 + n, 13 + n + p)
        =~= prefix.name@);
    assert(normal.skip(normal.len() - 14) =~= ": command mode"@);
    assert(status_line(Mode::Command, name, prefix).take(11) =~= " [COMMAND] "@);
}

/// What a key press asks for is told as it is.
pub proof fn actions_are_the_wishes_they_name(bytes: Vec<u8>, d: Direction, n: usize, m: Mode)
    ensures
        Action::SendToTerminal(bytes)@ == Wish::SendToTerminal(bytes@),
        Action::PaneSplitHorizontal@ == Wish::PaneSplitHorizontal,
        Action::PaneSplitVertical@ == Wish::PaneSplitVertical,
        Action::PaneNavigate(d)@ == Wish::PaneNavigate(d),
        Action::PaneResize(d)@ == Wish::PaneResize(d),
        Action::PaneClose@ == Wish::PaneClose,
        Action::TerminalNew@ == Wish::TerminalNew,
        Action::ViewList@ == Wish::ViewList,
        Action::ViewSwitch(n)@ == Wish::ViewSwitch(n as int),
        Action::Detach@ == Wish::Detach,
        Action::ModeChanged(m)@ == Wish::ModeChanged(m),
        Action::Nothing@ == Wish::Nothing,
{
}

} // verus!
