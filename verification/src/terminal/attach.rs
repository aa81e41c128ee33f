//! A window that is attached to a terminal.
//!
//! A [`Session`] is told what the terminal writes and what the window reports.
//! It answers with bytes to draw and messages for the server.
use vstd::prelude::*;
use vstd::utf8::{decode_utf8, encode_utf8};

use crate::config::{is_usual, PrefixKey};
use crate::emulator::{can_take, cursor_shown, size_of, EmulatorInput};
use crate::ipc::message::StreamMessage;
use crate::text::decimal_digits;
use crate::tui::input::{
    respond, status_line, typed_character_reads_back, Action, Event, InputHandler, KeyCode,
    KeyEvent, KeyModifiers, Mode, Wish,
};
use crate::tui::renderer::{
    drawn_bar, drawn_rows, first_rows, move_sequence, reachable, show_sequence, Renderer,
};
use crate::tui::screen::{bar_place, pane_place, Rect, Screen};
use crate::tui::vterm::{
    dirty_rows, dirty_rows_are_the_changed_ones, fingerprint, looked_at, second_look_finds_nothing,
    Terminal, VirtualTerminal,
};

verus! {

/// What a window does.
#[derive(Debug)]
pub enum SessionAction {
    /// Write bytes to the window.
    Draw(Vec<u8>),
    /// Send a message to the server.
    Send(StreamMessage),
    /// Leave the terminal.
    Quit,
}

/// What a window does, as contracts speak of it.
pub enum Doing {
    Draw(Seq<u8>),
    SendData(Seq<u8>),
    SendSize { cols: u16, rows: u16 },
    SendGoodbye,
    Quit,
}

impl View for SessionAction {
    type V = Doing;

    open spec fn view(&self) -> Doing {
        match *self {
            SessionAction::Draw(bytes) => Doing::Draw(bytes@),
            SessionAction::Send(StreamMessage::Data(bytes)) => Doing::SendData(bytes@),
            SessionAction::Send(StreamMessage::Resize { cols, rows }) => Doing::SendSize {
                cols,
                rows,
            },
            SessionAction::Send(StreamMessage::Detach) => Doing::SendGoodbye,
            SessionAction::Quit => Doing::Quit,
        }
    }
}

/// What a list of actions stands for.
pub open spec fn doings(actions: Seq<SessionAction>) -> Seq<Doing> {
    Seq::new(actions.len(), |i: int| actions[i]@)
}

/// A window that is attached to a terminal.
pub struct Session {
    screen: Screen,
    vterm: VirtualTerminal,
    renderer: Renderer,
    input: InputHandler,
    name: String,
}

/// A window as contracts speak of it.
#[verifier::ext_equal]
pub struct Window {
    pub rows: u16,
    pub cols: u16,
    /// Whether it has a status bar.
    pub bar: bool,
    pub terminal: Terminal,
    pub mode: Mode,
    pub prefix: PrefixKey,
    pub name: Seq<char>,
}

impl View for Session {
    type V = Window;

    closed spec fn view(&self) -> Window {
        Window {
            rows: self.screen.rows(),
            cols: self.screen.cols(),
            bar: self.screen.has_bar(),
            terminal: self.vterm@,
            mode: self.input@.mode,
            prefix: self.input@.prefix,
            name: self.name@,
        }
    }
}

/// Whether a window has room for a pane above its status bar, where it has one,
/// and for the cursor behind the last column.
pub open spec fn roomy(cols: u16, rows: u16, bar: bool) -> bool {
    pane_place(rows, cols, bar).height >= 1 && 1 <= cols < u16::MAX
}

/// The pane area of a window.
pub open spec fn pane_of(window: Window) -> Rect {
    pane_place(window.rows, window.cols, window.bar)
}

/// The status bar of a window, drawn, where there is one.
pub open spec fn bar_bytes(window: Window) -> Seq<u8> {
    if window.bar {
        drawn_bar(
            status_line(window.mode, window.name, window.prefix),
            bar_place(window.rows, window.cols, window.bar),
        )
    } else {
        Seq::empty()
    }
}

/// A window, drawn from top to bottom.
pub open spec fn window_bytes(window: Window) -> Seq<u8> {
    drawn_rows(
        window.terminal.given,
        pane_of(window),
        first_rows(pane_of(window).height as nat),
    ) + bar_bytes(window)
}

/// Whether a window has just been opened: normal mode, the usual prefix key, and
/// an empty terminal of which all rows have been drawn.
pub open spec fn opened(window: Window, name: Seq<char>, cols: u16, rows: u16, bar: bool) -> bool {
    let height = pane_place(rows, cols, bar).height;
    &&& window.rows == rows
    &&& window.cols == cols
    &&& window.bar == bar
    &&& window.mode == Mode::Normal
    &&& is_usual(window.prefix)
    &&& window.name == name
    &&& window.terminal == looked_at(
        Terminal {
            given: seq![EmulatorInput::Start { rows: height, cols }],
            prints: Seq::new(height as nat, |i: int| 0u64),
        },
    )
}

/// The terminal of a window after it has written something.
pub open spec fn fed(window: Window, data: Seq<u8>) -> Terminal {
    Terminal {
        given: window.terminal.given.push(EmulatorInput::Bytes(data)),
        prints: window.terminal.prints,
    }
}

/// What is drawn after the terminal has written something: the changed rows, and
/// the cursor.
pub open spec fn output_bytes(window: Window, data: Seq<u8>) -> Seq<u8> {
    let terminal = fed(window, data);
    let cursor = cursor_shown(terminal.given);
    drawn_rows(
        terminal.given,
        pane_of(window),
        dirty_rows(terminal, size_of(terminal.given).0 as nat),
    ) + encode_utf8(move_sequence(cursor.1 as int, cursor.0 as int)) + encode_utf8(
        show_sequence(),
    )
}

/// The window after it has got another size, drawn anew.
pub open spec fn resized(window: Window, cols: u16, rows: u16) -> Window {
    let height = pane_place(rows, cols, window.bar).height;
    Window {
        rows,
        cols,
        terminal: looked_at(
            Terminal {
                given: window.terminal.given.push(
                    EmulatorInput::Resize { rows: height, cols },
                ),
                prints: Seq::new(height as nat, |i: int| 0u64),
            },
        ),
        ..window
    }
}

/// The window after an event, with what it does.
pub open spec fn on_window_event(window: Window, event: Event) -> (Window, Seq<Doing>) {
    match event {
        Event::Resize(cols, rows) => {
            let now = resized(window, cols, rows);
            (
                now,
                seq![
                    Doing::SendSize { cols, rows: pane_of(now).height },
                    Doing::Draw(window_bytes(now)),
                ],
            )
        },
        _ => {
            let (mode, wish) = respond(window.mode, window.prefix, event);
            let now = Window { mode, ..window };
            match wish {
                Wish::SendToTerminal(bytes) => (now, seq![Doing::SendData(bytes)]),
                Wish::Detach => (now, seq![Doing::Quit]),
                _ => (
                    now,
                    if now.bar && mode != window.mode {
                        seq![Doing::Draw(bar_bytes(now))]
                    } else {
                        Seq::empty()
                    },
                ),
            }
        },
    }
}

/// The first message to the server: how large the terminal is to be. The status
/// bar is not part of it.
pub fn first_message(cols: u16, rows: u16, bar: bool) -> (msg: StreamMessage)
    ensures
        msg == (StreamMessage::Resize { cols, rows: pane_place(rows, cols, bar).height }),
{
    let pane = Screen::with_bar(rows, cols, bar).pane_area();
    StreamMessage::Resize { cols: pane.width, rows: pane.height }
}

/// What a message from the server brings: what the terminal has written, or the
/// end.
pub fn server_output(msg: Option<StreamMessage>) -> (data: Option<Vec<u8>>)
    ensures
        match msg {
            Some(StreamMessage::Data(bytes)) => data == Some(bytes),
            _ => data is None,
        },
{
    match msg {
        Some(message) => match message {
            StreamMessage::Data(bytes) => Some(bytes),
            _ => None,
        },
        None => None,
    }
}

impl Session {
    /// The window is roomy, the terminal fills the pane area, and nothing drawn
    /// is left over.
    pub closed spec fn wf(&self) -> bool {
        &&& roomy(self@.cols, self@.rows, self@.bar)
        &&& self.vterm.wf()
        &&& size_of(self@.terminal.given) == (pane_of(self@).height, self@.cols)
        &&& self.renderer@ == Seq::<u8>::empty()
    }

    fn render_bar(&mut self)
        requires
            roomy(old(self)@.cols, old(self)@.rows, old(self)@.bar),
        ensures
            final(self)@ == old(self)@,
            final(self).vterm == old(self).vterm,
            final(self).renderer@ == old(self).renderer@ + bar_bytes(old(self)@),
    {
        let bar = self.screen.status_bar_area();
        if bar.height > 0 {
            let text = self.input.mode().status_text(self.name.as_str(), self.input.prefix());
            self.renderer.render_status_bar(text.as_str(), &bar);
        } else {
            assert(self.renderer@ =~= old(self).renderer@ + bar_bytes(old(self)@));
        }
    }

    fn render_all(&mut self) -> (bytes: Vec<u8>)
        requires
            old(self).wf(),
        ensures
            final(self).wf(),
            bytes@ == window_bytes(old(self)@),
            final(self)@ == (Window { terminal: looked_at(old(self)@.terminal), ..old(self)@ }),
    {
        let ghost before = self@;
        let pane = self.screen.pane_area();
        assert forall|row: u16| row < pane.height implies #[trigger] reachable(pane, row) by {}
        self.renderer.render_vterm(&self.vterm, &pane);
        self.render_bar();
        let bytes = self.renderer.flush();
        assert(bytes@ =~= window_bytes(before));
        let _ = self.vterm.take_dirty_rows();
        assert(self@ =~= (Window { terminal: looked_at(before.terminal), ..before }));
        bytes
    }

    /// A window of the given size with a status bar and an empty terminal, and
    /// the bytes that draw it.
    pub fn new(terminal_name: &str, cols: u16, rows: u16) -> (r: (Self, Vec<u8>))
        requires
            roomy(cols, rows, true),
        ensures
            r.0.wf(),
            opened(r.0@, terminal_name@, cols, rows, true),
            r.1@ == window_bytes(r.0@),
    {
        Self::with_bar(terminal_name, cols, rows, true)
    }

    /// A window of the given size with or without a status bar and an empty
    /// terminal, and the bytes that draw it.
    pub fn with_bar(terminal_name: &str, cols: u16, rows: u16, bar: bool) -> (r: (Self, Vec<u8>))
        requires
            roomy(cols, rows, bar),
        ensures
            r.0.wf(),
            opened(r.0@, terminal_name@, cols, rows, bar),
            r.1@ == window_bytes(r.0@),
    {
        let screen = Screen::with_bar(rows, cols, bar);
        let pane = screen.pane_area();
        let mut session = Session {
            screen,
            vterm: VirtualTerminal::new(pane.height, pane.width),
            renderer: Renderer::new(Vec::new()),
            input: InputHandler::new(),
            name: terminal_name.to_owned(),
        };
        let bytes = session.render_all();
        (session, bytes)
    }

    /// Whether what the terminal has written can be followed.
    pub fn takes(&self, data: &[u8]) -> (yes: bool)
        requires
            self.wf(),
        ensures
            yes == can_take(self@.terminal.given, data@),
    {
        self.vterm.takes(data)
    }

    /// Follows what the terminal has written. The result is to be drawn.
    pub fn on_output(&mut self, data: &[u8]) -> (bytes: Vec<u8>)
        requires
            old(self).wf(),
            can_take(old(self)@.terminal.given, data@),
        ensures
            final(self).wf(),
            bytes@ == output_bytes(old(self)@, data@),
            final(self)@ == (Window { terminal: looked_at(fed(old(self)@, data@)), ..old(self)@ }),
    {
        let ghost before = self@;
        self.vterm.process(data);
        assert(self.vterm@ =~= fed(before, data@));
        let pane = self.screen.pane_area();
        let dirty = self.vterm.take_dirty_rows();
        let ghost terminal = fed(before, data@);
        let ghost rows = size_of(terminal.given).0;
        proof {
            dirty_rows_are_the_changed_ones(terminal, rows as nat);
            assert forall|i: int|
                0 <= i < dirty@.len() && dirty@[i] < pane.height implies reachable(
                pane,
                #[trigger] dirty@[i],
            ) by {}
        }
        if dirty.len() > 0 {
            self.renderer.render_vterm_rows(&self.vterm, &pane, dirty.as_slice());
        } else {
            assert(dirty@ =~= Seq::empty());
        }
        let (row, col) = self.vterm.cursor_position();
        self.renderer.place_cursor(pane.x + col, pane.y + row);
        let bytes = self.renderer.flush();
        assert(bytes@ =~= output_bytes(before, data@));
        bytes
    }

    /// Follows what the terminal has written where that can be followed, and
    /// leaves everything as it is where it cannot.
    pub fn try_output(&mut self, data: &[u8]) -> (bytes: Option<Vec<u8>>)
        requires
            old(self).wf(),
        ensures
            final(self).wf(),
            bytes is Some == can_take(old(self)@.terminal.given, data@),
            match bytes {
                Some(drawn) => drawn@ == output_bytes(old(self)@, data@) && final(self)@ == (Window {
                    terminal: looked_at(fed(old(self)@, data@)),
                    ..old(self)@
                }),
                None => final(self)@ == old(self)@,
            },
    {
        if self.takes(data) {
            Some(self.on_output(data))
        } else {
            None
        }
    }

    /// Follows what the window reports. A window that is not roomy is left out.
    pub fn on_event(&mut self, event: &Event) -> (actions: Vec<SessionAction>)
        requires
            old(self).wf(),
            *event matches Event::Resize(cols, rows) ==> roomy(cols, rows, old(self)@.bar),
        ensures
            final(self).wf(),
            (final(self)@, doings(actions@)) == on_window_event(old(self)@, *event),
    {
        let ghost before = self@;
        let mut actions: Vec<SessionAction> = Vec::new();
        if let Event::Resize(cols, rows) = event {
            self.screen.resize(*rows, *cols);
            let pane = self.screen.pane_area();
            self.vterm.resize(pane.height, pane.width);
            actions.push(
                SessionAction::Send(
                    StreamMessage::Resize { cols: pane.width, rows: pane.height },
                ),
            );
            let ghost middle = self@;
            let bytes = self.render_all();
            actions.push(SessionAction::Draw(bytes));
            proof {
                let want = on_window_event(before, *event);
                assert(self@ =~= want.0);
                assert(window_bytes(middle) == window_bytes(want.0));
                assert(doings(actions@) =~= want.1);
            }
            return actions;
        }
        let mode = self.input.mode();
        match self.input.handle_event(event) {
            Action::SendToTerminal(bytes) => {
                actions.push(SessionAction::Send(StreamMessage::Data(bytes)));
            },
            Action::Detach => {
                actions.push(SessionAction::Quit);
            },
            _ => {
                if self.input.mode() != mode && self.screen.status_bar_area().height > 0 {
                    self.render_bar();
                    let bytes = self.renderer.flush();
                    assert(bytes@ =~= bar_bytes(self@));
                    actions.push(SessionAction::Draw(bytes));
                }
            },
        }
        proof {
            let want = on_window_event(before, *event);
            assert(self@ =~= want.0);
            assert(doings(actions@) =~= want.1);
        }
        actions
    }
}

/// The terminal never gets to know the status bar: what it is told of a window
/// is the pane area, which is the whole window where there is no bar.
pub proof fn terminal_gets_the_pane_area(window: Window, cols: u16, rows: u16)
    requires
        roomy(cols, rows, window.bar),
    ensures
        ({
            let (now, list) = on_window_event(window, Event::Resize(cols, rows));
            let pane = pane_place(rows, cols, window.bar);
            &&& list[0] == (Doing::SendSize { cols: pane.width, rows: pane.height })
            &&& size_of(now.terminal.given) == (pane.height, pane.width)
            &&& !window.bar ==> pane.height == rows
        }),
{
}

/// The status bar shows the current mode: whatever changes the mode, short of
/// leaving the terminal, draws it anew, and nothing else changes what it says.
pub proof fn bar_shows_the_mode(window: Window, event: Event)
    requires
        window.bar,
        !(event is Resize),
    ensures
        ({
            let (now, list) = on_window_event(window, event);
            let leaves = respond(window.mode, window.prefix, event).1 is Detach;
            &&& now.mode != window.mode && !leaves ==> list == seq![
                Doing::Draw(bar_bytes(now)),
            ]
            &&& now.mode == window.mode ==> bar_bytes(now) == bar_bytes(window)
        }),
{
}

/// A window without a status bar never draws one.
pub proof fn hidden_bar_is_never_drawn(window: Window, event: Event)
    requires
        !window.bar,
    ensures
        ({
            let (now, list) = on_window_event(window, event);
            &&& !now.bar
            &&& bar_bytes(now) == Seq::<u8>::empty()
            &&& !(event is Resize) ==> forall|i: int|
                0 <= i < list.len() ==> !((#[trigger] list[i]) is Draw)
        }),
{
}

/// What is typed in normal mode reaches the terminal: a character that is not the
/// prefix key, without the control key, is sent as that character and as nothing
/// else, and draws nothing.
pub proof fn typing_reaches_the_terminal(window: Window, c: char, held: KeyModifiers)
    requires
        window.mode == Mode::Normal,
        !held.control,
        window.prefix.code != KeyCode::Char(c) || window.prefix.modifiers.control,
    ensures
        ({
            let (now, list) = on_window_event(
                window,
                Event::Key(KeyEvent { code: KeyCode::Char(c), modifiers: held }),
            );
            &&& now == window
            &&& list.len() == 1
            &&& list[0] matches Doing::SendData(bytes)
            &&& decode_utf8(bytes) == seq![c]
        }),
{
    typed_character_reads_back(c, held);
}

/// Only a key press in normal mode sends something to the terminal, only the
/// detach command leaves it, and only a new size tells the server one. A window
/// never says goodbye by itself.
pub proof fn windows_do_one_thing_at_a_time(window: Window, event: Event)
    ensures
        ({
            let (now, list) = on_window_event(window, event);
            let detach = window.mode == Mode::Command && (event matches Event::Key(key)
                && key.code == KeyCode::Char('d'));
            &&& list.contains(Doing::Quit) <==> detach
            &&& detach ==> list == seq![Doing::Quit] && now.mode == Mode::Normal
            &&& forall|i: int|
                0 <= i < list.len() ==> {
                    &&& (#[trigger] list[i]) is SendData ==> event is Key && window.mode
                        == Mode::Normal && list.len() == 1
                    &&& list[i] is SendSize <==> event is Resize && i == 0
                    &&& !(list[i] is SendGoodbye)
                }
            &&& event is Other ==> list.len() == 0 && now == window
            &&& !(event is Resize) ==> now.rows == window.rows && now.cols == window.cols
                && now.terminal == window.terminal
            &&& now.name == window.name && now.prefix == window.prefix && now.bar == window.bar
        }),
{
    let (now, list) = on_window_event(window, event);
    if list.contains(Doing::Quit) {
        let i = list.index_of(Doing::Quit);
        assert(list[i] is Quit);
    }
    if list == seq![Doing::Quit] {
        assert(list[0] == Doing::Quit);
    }
}

/// A new size is taken over, passed on to the terminal, and leaves the mode as it
/// is. All rows are drawn from the top down, and then the status bar where there
/// is one; after that nothing is left to be drawn.
pub proof fn new_size_draws_everything(window: Window, cols: u16, rows: u16)
    requires
        roomy(cols, rows, window.bar),
    ensures
        ({
            let (now, list) = on_window_event(window, Event::Resize(cols, rows));
            let height = if window.bar {
                (rows - 1) as u16
            } else {
                rows
            };
            let pane = Rect { x: 0, y: 0, width: cols, height };
            let all = Seq::new(height as nat, |i: int| i as u16);
            &&& now.rows == rows && now.cols == cols && now.mode == window.mode
            &&& now.terminal.given == window.terminal.given.push(
                EmulatorInput::Resize { rows: height, cols },
            )
            &&& dirty_rows(now.terminal, height as nat) == Seq::<u16>::empty()
            &&& list.len() == 2
            &&& list[0] == (Doing::SendSize { cols, rows: height })
            &&& list[1] == Doing::Draw(
                drawn_rows(now.terminal.given, pane, all) + if window.bar {
                    drawn_bar(
                        status_line(window.mode, window.name, window.prefix),
                        Rect { x: 0, y: height, width: cols, height: 1 },
                    )
                } else {
                    Seq::empty()
                },
            )
        }),
{
    let (now, list) = on_window_event(window, Event::Resize(cols, rows));
    let height = pane_of(now).height;
    let fresh = Terminal {
        given: now.terminal.given,
        prints: Seq::new(height as nat, |i: int| 0u64),
    };
    assert(first_rows(height as nat) =~= Seq::new(height as nat, |i: int| i as u16));
    second_look_finds_nothing(fresh, height as nat);
}

/// After the terminal has written something exactly the rows of the pane that
/// have changed since they were drawn are drawn again, from the top down, and
/// then the cursor goes to its place and is shown.
pub proof fn output_draws_what_has_changed(window: Window, data: Seq<u8>) -> (rows: Seq<u16>)
    requires
        size_of(window.terminal.given) == (pane_of(window).height, window.cols),
    ensures
        ({
            let given = window.terminal.given.push(EmulatorInput::Bytes(data));
            let cursor = cursor_shown(given);
            &&& forall|row: u16| #[trigger]
                rows.contains(row) <==> row < pane_of(window).height
                    && window.terminal.prints[row as int] != fingerprint(given, row)
            &&& forall|i: int, j: int| 0 <= i < j < rows.len() ==> rows[i] < rows[j]
            &&& output_bytes(window, data) == drawn_rows(given, pane_of(window), rows)
                + encode_utf8(
                "\x1b["@ + decimal_digits((cursor.0 + 1) as nat) + ";"@ + decimal_digits(
                    (cursor.1 + 1) as nat,
                ) + "H"@,
            ) + encode_utf8("\x1b[?25h"@)
        }),
{
    let given = window.terminal.given.push(EmulatorInput::Bytes(data));
    assert(given.drop_last() =~= window.terminal.given);
    assert(size_of(given) == size_of(window.terminal.given));
    dirty_rows_are_the_changed_ones(fed(window, data), size_of(given).0 as nat);
    dirty_rows(fed(window, data), size_of(given).0 as nat)
}

/// What a window does is told as it is.
pub proof fn window_actions_are_what_they_name(bytes: Vec<u8>, cols: u16, rows: u16)
    ensures
        SessionAction::Draw(bytes)@ == Doing::Draw(bytes@),
        SessionAction::Send(StreamMessage::Data(bytes))@ == Doing::SendData(bytes@),
        SessionAction::Send(StreamMessage::Resize { cols, rows })@ == (Doing::SendSize {
            cols,
            rows,
        }),
        SessionAction::Send(StreamMessage::Detach)@ == Doing::SendGoodbye,
        SessionAction::Quit@ == Doing::Quit,
{
}

/// A window that has just been opened is in normal mode with Ctrl-a as its prefix
/// key, and its terminal is an empty one that fills the window but for the row of
/// the status bar. Nothing of it is left to be drawn.
pub proof fn new_window_is_empty(
    window: Window,
    name: Seq<char>,
    cols: u16,
    rows: u16,
    bar: bool,
)
    requires
        roomy(cols, rows, bar),
        opened(window, name, cols, rows, bar),
    ensures
        window.rows == rows && window.cols == cols && window.bar == bar && window.name == name,
        window.mode == Mode::Normal,
        window.prefix.code == KeyCode::Char('a'),
        window.prefix.name@ == "Ctrl-a"@,
        ({
            let held = window.prefix.modifiers;
            &&& held.control && !held.shift && !held.alt
            &&& !held.super_key && !held.hyper && !held.meta
        }),
        ({
            let height = if bar {
                (rows - 1) as u16
            } else {
                rows
            };
            &&& window.terminal.given == seq![EmulatorInput::Start { rows: height, cols }]
            &&& window.terminal.prints.len() == height
            &&& dirty_rows(window.terminal, height as nat) == Seq::<u16>::empty()
        }),
{
    let height = pane_place(rows, cols, bar).height;
    let fresh = Terminal {
        given: seq![EmulatorInput::Start { rows: height, cols }],
        prints: Seq::new(height as nat, |i: int| 0u64),
    };
    second_look_finds_nothing(fresh, height as nat);
}

/// Whether a window is roomy: it has a column and a row for the terminal, next to
/// the row of the status bar where there is one, and not the most columns that
/// can be counted.
pub proof fn roomy_windows_have_a_cell(cols: u16, rows: u16, bar: bool)
    ensures
        roomy(cols, rows, bar) <==> 1 <= cols <= 65534 && rows >= 1 && (bar ==> rows >= 2),
{
}

} // verus!
