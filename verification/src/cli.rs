//! The command line: what each command asks of the server, and what is made of
//! the answer.
use vstd::prelude::*;

use crate::error::{Failure, KexError};
use crate::ipc::message::{Request, Response, TerminalInfo, ViewInfo};
use crate::text::{copy_option, join, joined, pad_right, padded, text_option, texts};

verus! {

/// A command.
#[derive(Debug)]
pub enum CliCommand {
    ServerStart,
    ServerStop,
    TerminalCreate { name: Option<String>, detach: bool },
    TerminalLs,
    TerminalKill { id: String },
    TerminalAttach { id: String },
    ViewCreate { name: Option<String>, terminal: String },
    ViewLs,
    ViewRm { id: String },
    ViewShow { id: String },
    ViewAttach { id: String },
    ViewAdd { view: String, terminal: String },
    ConfigShow,
    ConfigPath,
    Login { server: String },
    Logout,
}

/// How a command begins.
#[derive(Debug)]
pub enum CliStep {
    /// Run the server.
    StartServer,
    /// Ask the server.
    Ask(Request),
    /// Attach the window to a terminal.
    Attach { label: String },
    /// Show the configuration.
    ShowConfig,
    /// Show where the configuration is kept.
    ShowConfigPath,
    /// Let this device into the cloud.
    Login { server: String },
    /// Take this device out of the cloud.
    Logout,
}

/// Decides how a command begins.
pub fn plan(cmd: &CliCommand) -> (step: CliStep)
    ensures
        match *cmd {
            CliCommand::ServerStart => step is StartServer,
            CliCommand::ServerStop => step == CliStep::Ask(Request::ServerStop),
            CliCommand::TerminalCreate { name, .. } => step == CliStep::Ask(
                Request::TerminalCreate { name },
            ),
            CliCommand::TerminalLs => step == CliStep::Ask(Request::TerminalList),
            CliCommand::TerminalKill { id } => step == CliStep::Ask(Request::TerminalKill { id }),
            CliCommand::TerminalAttach { id } => step == (CliStep::Attach { label: id }),
            CliCommand::ViewCreate { name, terminal } => step == CliStep::Ask(
                Request::ViewCreate { name, terminal_id: terminal },
            ),
            CliCommand::ViewLs => step == CliStep::Ask(Request::ViewList),
            CliCommand::ViewRm { id } => step == CliStep::Ask(Request::ViewDelete { id }),
            CliCommand::ViewShow { id } => step == CliStep::Ask(Request::ViewShow { id }),
            CliCommand::ViewAttach { id } => step == CliStep::Ask(Request::ViewAttach { id }),
            CliCommand::ViewAdd { view, terminal } => step == CliStep::Ask(
                Request::ViewAddTerminal { view_id: view, terminal_id: terminal },
            ),
            CliCommand::ConfigShow => step is ShowConfig,
            CliCommand::ConfigPath => step is ShowConfigPath,
            CliCommand::Login { server } => step == (CliStep::Login { server }),
            CliCommand::Logout => step is Logout,
        },
{
    match cmd {
        CliCommand::ServerStart => CliStep::StartServer,
        CliCommand::ServerStop => CliStep::Ask(Request::ServerStop),
        CliCommand::TerminalCreate { name, .. } => CliStep::Ask(
            Request::TerminalCreate { name: copy_option(name) },
        ),
        CliCommand::TerminalLs => CliStep::Ask(Request::TerminalList),
        CliCommand::TerminalKill { id } => CliStep::Ask(Request::TerminalKill { id: id.clone() }),
        CliCommand::TerminalAttach { id } => CliStep::Attach { label: id.clone() },
        CliCommand::ViewCreate { name, terminal } => CliStep::Ask(
            Request::ViewCreate { name: copy_option(name), terminal_id: terminal.clone() },
        ),
        CliCommand::ViewLs => CliStep::Ask(Request::ViewList),
        CliCommand::ViewRm { id } => CliStep::Ask(Request::ViewDelete { id: id.clone() }),
        CliCommand::ViewShow { id } => CliStep::Ask(Request::ViewShow { id: id.clone() }),
        CliCommand::ViewAttach { id } => CliStep::Ask(Request::ViewAttach { id: id.clone() }),
        CliCommand::ViewAdd { view, terminal } => CliStep::Ask(
            Request::ViewAddTerminal { view_id: view.clone(), terminal_id: terminal.clone() },
        ),
        CliCommand::ConfigShow => CliStep::ShowConfig,
        CliCommand::ConfigPath => CliStep::ShowConfigPath,
        CliCommand::Login { server } => CliStep::Login { server: server.clone() },
        CliCommand::Logout => CliStep::Logout,
    }
}

/// How a command ends.
#[derive(Debug)]
pub enum CliOutcome {
    /// Print a text and a line break.
    Print(String),
    /// Fail.
    Fail(KexError),
    /// Attach the window to a terminal.
    Attach { label: String },
    /// Attach the window to the terminals of a view.
    AttachView {
        label: String,
        others: Vec<String>,
        view: String,
        layout: Option<serde_json::Value>,
        focused: Option<String>,
    },
    /// Say nothing.
    Nothing,
}

/// How a command ends, as contracts speak of it.
pub enum Ending {
    Print(Seq<char>),
    Fail(Failure),
    Attach(Seq<char>),
    AttachView {
        label: Seq<char>,
        others: Seq<Seq<char>>,
        view: Seq<char>,
        layout: Option<serde_json::Value>,
        focused: Option<Seq<char>>,
    },
    Nothing,
}

impl View for CliOutcome {
    type V = Ending;

    open spec fn view(&self) -> Ending {
        match *self {
            CliOutcome::Print(text) => Ending::Print(text@),
            CliOutcome::Fail(e) => Ending::Fail(e@),
            CliOutcome::Attach { label } => Ending::Attach(label@),
            CliOutcome::AttachView { label, others, view, layout, focused } => Ending::AttachView {
                label: label@,
                others: texts(others@),
                view: view@,
                layout,
                focused: text_option(focused),
            },
            CliOutcome::Nothing => Ending::Nothing,
        }
    }
}

/// A name, or a dash where there is none.
pub open spec fn shown_name(name: Option<String>) -> Seq<char> {
    match name {
        Some(n) => n@,
        None => "-"@,
    }
}

/// A line of a table.
pub open spec fn table_line(id: Seq<char>, name: Seq<char>, rest: Seq<char>) -> Seq<char> {
    padded(id, 10) + " "@ + padded(name, 15) + " "@ + rest
}

/// The lines of a table of terminals, each after a line break.
pub open spec fn terminal_lines(list: Seq<TerminalInfo>) -> Seq<char>
    decreases list.len(),
{
    if list.len() == 0 {
        Seq::empty()
    } else {
        terminal_lines(list.drop_last()) + "\n"@ + table_line(
            list.last().id@,
            shown_name(list.last().name),
            list.last().created_at@,
        )
    }
}

/// A table of terminals.
pub open spec fn terminal_table(list: Seq<TerminalInfo>) -> Seq<char> {
    if list.len() == 0 {
        "no terminals"@
    } else {
        table_line("ID"@, "NAME"@, "CREATED"@) + terminal_lines(list)
    }
}

/// The lines of a table of views, each after a line break.
pub open spec fn view_lines(list: Seq<ViewInfo>) -> Seq<char>
    decreases list.len(),
{
    if list.len() == 0 {
        Seq::empty()
    } else {
        view_lines(list.drop_last()) + "\n"@ + table_line(
            list.last().id@,
            shown_name(list.last().name),
            joined(texts(list.last().terminal_ids@), ", "@),
        )
    }
}

/// A table of views.
pub open spec fn view_table(list: Seq<ViewInfo>) -> Seq<char> {
    if list.len() == 0 {
        "no views"@
    } else {
        table_line("ID"@, "NAME"@, "TERMINALS"@) + view_lines(list)
    }
}

/// The details of a view.
pub open spec fn view_details(view: ViewInfo) -> Seq<char> {
    "ID:        "@ + view.id@ + "\nName:      "@ + shown_name(view.name) + "\nTerminals: "@ + joined(
        texts(view.terminal_ids@),
        ", "@,
    ) + "\nCreated:   "@ + view.created_at@
}

/// The end of a command whose answer is not the one that was hoped for.
pub open spec fn otherwise(resp: Response) -> Ending {
    match resp {
        Response::Error { message } => Ending::Fail(Failure::Server(message@)),
        _ => Ending::Nothing,
    }
}

/// How a command ends when the server has answered.
pub open spec fn ending(cmd: CliCommand, resp: Response) -> Ending {
    match cmd {
        CliCommand::ServerStop => match resp {
            Response::Done => Ending::Print("server stopped"@),
            _ => otherwise(resp),
        },
        CliCommand::TerminalCreate { name, detach } => match resp {
            Response::TerminalCreated { id } => if detach {
                Ending::Print(id@)
            } else {
                Ending::Attach(
                    match name {
                        Some(n) => n@,
                        None => id@,
                    },
                )
            },
            _ => otherwise(resp),
        },
        CliCommand::TerminalLs => match resp {
            Response::TerminalList { terminals } => Ending::Print(terminal_table(terminals@)),
            _ => Ending::Nothing,
        },
        CliCommand::ViewCreate { .. } => match resp {
            Response::ViewCreated { id } => Ending::Print(id@),
            _ => otherwise(resp),
        },
        CliCommand::ViewLs => match resp {
            Response::ViewList { views } => Ending::Print(view_table(views@)),
            _ => Ending::Nothing,
        },
        CliCommand::ViewShow { .. } => match resp {
            Response::ViewShow { view } => Ending::Print(view_details(view)),
            _ => otherwise(resp),
        },
        CliCommand::ViewAttach { id } => match resp {
            Response::ViewAttach { terminal_ids, layout, focused } => if terminal_ids@.len() == 0 {
                Ending::Fail(Failure::Server("view has no terminals"@))
            } else {
                Ending::AttachView {
                    label: terminal_ids@[0]@,
                    others: texts(terminal_ids@).skip(1),
                    view: id@,
                    layout,
                    focused: text_option(focused),
                }
            },
            _ => otherwise(resp),
        },
        CliCommand::TerminalKill { .. } | CliCommand::ViewRm { .. } | CliCommand::ViewAdd {
            ..
        } => otherwise(resp),
        _ => Ending::Nothing,
    }
}

fn push_line(out: &mut String, id: &str, name: &str, rest: &str)
    ensures
        final(out)@ == old(out)@ + table_line(id@, name@, rest@),
{
    let first = pad_right(id, 10);
    let second = pad_right(name, 15);
    out.append(first.as_str());
    out.append(" ");
    out.append(second.as_str());
    out.append(" ");
    out.append(rest);
    assert(out@ =~= old(out)@ + table_line(id@, name@, rest@));
}

fn name_or_dash(name: &Option<String>) -> (s: &str)
    ensures
        s@ == shown_name(*name),
{
    match name {
        Some(n) => n.as_str(),
        None => "-",
    }
}

/// Writes a table of terminals.
pub fn list_terminals(list: &Vec<TerminalInfo>) -> (out: String)
    ensures
        out@ == terminal_table(list@),
{
    if list.len() == 0 {
        return "no terminals".to_string();
    }
    let mut out = String::new();
    push_line(&mut out, "ID", "NAME", "CREATED");
    let ghost head = out@;
    assert(head =~= table_line("ID"@, "NAME"@, "CREATED"@));
    let mut i: usize = 0;
    assert(out@ =~= head + terminal_lines(list@.take(0)));
    while i < list.len()
        invariant
            i <= list.len(),
            out@ == head + terminal_lines(list@.take(i as int)),
        decreases list.len() - i,
    {
        let t = &list[i];
        out.append("\n");
        push_line(&mut out, t.id.as_str(), name_or_dash(&t.name), t.created_at.as_str());
        i = i + 1;
        proof {
            let now = list@.take(i as int);
            assert(now.drop_last() =~= list@.take(i - 1));
            assert(now.last() == list@[i - 1]);
            assert(out@ =~= head + terminal_lines(now));
        }
    }
    assert(list@.take(i as int) =~= list@);
    out
}

/// Writes a table of views.
pub fn list_views(list: &Vec<ViewInfo>) -> (out: String)
    ensures
        out@ == view_table(list@),
{
    if list.len() == 0 {
        return "no views".to_string();
    }
    let mut out = String::new();
    push_line(&mut out, "ID", "NAME", "TERMINALS");
    let ghost head = out@;
    assert(head =~= table_line("ID"@, "NAME"@, "TERMINALS"@));
    let mut i: usize = 0;
    assert(out@ =~= head + view_lines(list@.take(0)));
    while i < list.len()
        invariant
            i <= list.len(),
            out@ == head + view_lines(list@.take(i as int)),
        decreases list.len() - i,
    {
        let v = &list[i];
        let terminals = join(&v.terminal_ids, ", ");
        out.append("\n");
        push_line(&mut out, v.id.as_str(), name_or_dash(&v.name), terminals.as_str());
        i = i + 1;
        proof {
            let now = list@.take(i as int);
            assert(now.drop_last() =~= list@.take(i - 1));
            assert(now.last() == list@[i - 1]);
            assert(out@ =~= head + view_lines(now));
        }
    }
    assert(list@.take(i as int) =~= list@);
    out
}

/// Writes the details of a view.
pub fn show_view(view: &ViewInfo) -> (out: String)
    ensures
        out@ == view_details(*view),
{
    let terminals = join(&view.terminal_ids, ", ");
    let mut out = "ID:        ".to_string();
    out.append(view.id.as_str());
    out.append("\nName:      ");
    out.append(name_or_dash(&view.name));
    out.append("\nTerminals: ");
    out.append(terminals.as_str());
    out.append("\nCreated:   ");
    out.append(view.created_at.as_str());
    out
}

fn fail_or_nothing(resp: Response) -> (outcome: CliOutcome)
    ensures
        outcome@ == otherwise(resp),
{
    match resp {
        Response::Error { message } => CliOutcome::Fail(KexError::Server(message)),
        _ => CliOutcome::Nothing,
    }
}

/// Decides how a command ends when the server has answered.
pub fn conclude(cmd: CliCommand, resp: Response) -> (outcome: CliOutcome)
    ensures
        outcome@ == ending(cmd, resp),
{
    match cmd {
        CliCommand::ServerStop => match resp {
            Response::Done => CliOutcome::Print("server stopped".to_string()),
            other => fail_or_nothing(other),
        },
        CliCommand::TerminalCreate { name, detach } => match resp {
            Response::TerminalCreated { id } => {
                if detach {
                    CliOutcome::Print(id)
                } else {
                    match name {
                        Some(n) => CliOutcome::Attach { label: n },
                        None => CliOutcome::Attach { label: id },
                    }
                }
            },
            other => fail_or_nothing(other),
        },
        CliCommand::TerminalLs => match resp {
            Response::TerminalList { terminals } => CliOutcome::Print(list_terminals(&terminals)),
            _ => CliOutcome::Nothing,
        },
        CliCommand::ViewCreate { .. } => match resp {
            Response::ViewCreated { id } => CliOutcome::Print(id),
            other => fail_or_nothing(other),
        },
        CliCommand::ViewLs => match resp {
            Response::ViewList { views } => CliOutcome::Print(list_views(&views)),
            _ => CliOutcome::Nothing,
        },
        CliCommand::ViewShow { .. } => match resp {
            Response::ViewShow { view } => CliOutcome::Print(show_view(&view)),
            other => fail_or_nothing(other),
        },
        CliCommand::ViewAttach { id } => match resp {
            Response::ViewAttach { terminal_ids, layout, focused } => {
                if terminal_ids.len() == 0 {
                    return CliOutcome::Fail(KexError::Server("view has no terminals".to_string()));
                }
                let ghost all = terminal_ids@;
                let mut others = terminal_ids;
                let label = others.remove(0);
                assert(texts(others@) =~= texts(all).skip(1));
                CliOutcome::AttachView { label, others, view: id, layout, focused }
            },
            other => fail_or_nothing(other),
        },
        CliCommand::TerminalKill { .. } => fail_or_nothing(resp),
        CliCommand::ViewRm { .. } => fail_or_nothing(resp),
        CliCommand::ViewAdd { .. } => fail_or_nothing(resp),
        _ => CliOutcome::Nothing,
    }
}

/// Writes the configuration.
pub fn config_text(prefix: &str, status_bar: bool) -> (out: String)
    ensures
        out@ == "prefix = \""@ + prefix@ + "\"\nstatus_bar = "@ + if status_bar {
            "true"@
        } else {
            "false"@
        },
{
    let mut out = "prefix = \"".to_string();
    out.append(prefix);
    out.append("\"\nstatus_bar = ");
    if status_bar {
        out.append("true");
    } else {
        out.append("false");
    }
    out
}

/// An error that the server reports is shown by every command that asks for more
/// than a list.
pub proof fn reported_errors_are_shown(cmd: CliCommand, message: String)
    requires
        cmd is ServerStop || cmd is TerminalCreate || cmd is TerminalKill || cmd is ViewCreate
            || cmd is ViewRm || cmd is ViewShow || cmd is ViewAttach || cmd is ViewAdd,
    ensures
        ending(cmd, Response::Error { message }) == Ending::Fail(Failure::Server(message@)),
{
}

/// The columns of a table stand in one place: an identifier of up to ten
/// characters at the start of its line, a name of up to fifteen behind eleven
/// columns, and the rest behind twenty-seven, with blanks between them.
pub proof fn columns_stand_in_one_place(id: Seq<char>, name: Seq<char>, rest: Seq<char>)
    requires
        id.len() <= 10,
        name.len() <= 15,
    ensures
        ({
            let line = table_line(id, name, rest);
            &&& line.len() == 27 + rest.len()
            &&& forall|i: int|
                0 <= i < line.len() ==> #[trigger] line[i] == if i < id.len() {
                    id[i]
                } else if 11 <= i < 11 + name.len() {
                    name[i - 11]
                } else if i >= 27 {
                    rest[i - 27]
                } else {
                    ' '
                }
        }),
{
    reveal_strlit(" ");
}

/// What is too long for its column moves the others, and nothing of it is lost.
pub proof fn long_columns_lose_nothing(id: Seq<char>, name: Seq<char>, rest: Seq<char>)
    requires
        id.len() > 10,
        name.len() > 15,
    ensures
        table_line(id, name, rest) == id + seq![' '] + name + seq![' '] + rest,
{
    reveal_strlit(" ");
    assert(table_line(id, name, rest) =~= id + seq![' '] + name + seq![' '] + rest);
}

/// A table of terminals has a line for each of them in their order, with its
/// identifier, its name or a dash, and when it was made.
pub proof fn terminals_have_a_line_each(a: Seq<TerminalInfo>, b: Seq<TerminalInfo>, one: TerminalInfo)
    ensures
        terminal_lines(a + b) == terminal_lines(a) + terminal_lines(b),
        terminal_lines(seq![one]) == seq!['\n'] + table_line(
            one.id@,
            match one.name {
                Some(name) => name@,
                None => seq!['-'],
            },
            one.created_at@,
        ),
        a.len() > 0 ==> terminal_table(a) == table_line("ID"@, "NAME"@, "CREATED"@)
            + terminal_lines(a),
        terminal_table(Seq::empty()) == "no terminals"@,
    decreases b.len(),
{
    reveal_strlit("\n");
    reveal_strlit("-");
    reveal_with_fuel(terminal_lines, 2);
    assert("-"@ =~= seq!['-']);
    assert(seq![one].drop_last() =~= Seq::empty());
    assert(terminal_lines(seq![one]) =~= seq!['\n'] + table_line(
        one.id@,
        shown_name(one.name),
        one.created_at@,
    ));
    if b.len() == 0 {
        assert(a + b =~= a);
        assert(terminal_lines(a) + terminal_lines(b) =~= terminal_lines(a));
    } else {
        terminals_have_a_line_each(a, b.drop_last(), one);
        assert((a + b).drop_last() =~= a + b.drop_last());
        assert((a + b).last() == b.last());
        assert(terminal_lines(a + b) =~= terminal_lines(a) + terminal_lines(b));
    }
}

/// A table of views has a line for each of them in their order, with its
/// identifier, its name or a dash, and its terminals with commas between them.
pub proof fn views_have_a_line_each(a: Seq<ViewInfo>, b: Seq<ViewInfo>, one: ViewInfo)
    ensures
        view_lines(a + b) == view_lines(a) + view_lines(b),
        view_lines(seq![one]) == seq!['\n'] + table_line(
            one.id@,
            match one.name {
                Some(name) => name@,
                None => seq!['-'],
            },
            joined(texts(one.terminal_ids@), seq![',', ' ']),
        ),
        a.len() > 0 ==> view_table(a) == table_line("ID"@, "NAME"@, "TERMINALS"@) + view_lines(a),
        view_table(Seq::empty()) == "no views"@,
    decreases b.len(),
{
    reveal_strlit("\n");
    reveal_strlit("-");
    reveal_strlit(", ");
    reveal_with_fuel(view_lines, 2);
    assert("-"@ =~= seq!['-']);
    assert(", "@ =~= seq![',', ' ']);
    assert(seq![one].drop_last() =~= Seq::empty());
    assert(view_lines(seq![one]) =~= seq!['\n'] + table_line(
        one.id@,
        shown_name(one.name),
        joined(texts(one.terminal_ids@), ", "@),
    ));
    if b.len() == 0 {
        assert(a + b =~= a);
        assert(view_lines(a) + view_lines(b) =~= view_lines(a));
    } else {
        views_have_a_line_each(a, b.drop_last(), one);
        assert((a + b).drop_last() =~= a + b.drop_last());
        assert((a + b).last() == b.last());
        assert(view_lines(a + b) =~= view_lines(a) + view_lines(b));
    }
}

/// The details of a view are four lines, each with its label and what it names,
/// all in one column.
pub proof fn details_name_everything(view: ViewInfo)
    ensures
        view_details(view) == "ID:        "@ + view.id@ + seq!['\n'] + "Name:      "@ + (
        match view.name {
            Some(name) => name@,
            None => seq!['-'],
        }) + seq!['\n'] + "Terminals: "@ + joined(texts(view.terminal_ids@), seq![',', ' ']) + seq![
            '\n',
        ] + "Created:   "@ + view.created_at@,
{
    reveal_strlit("\nName:      ");
    reveal_strlit("\nTerminals: ");
    reveal_strlit("\nCreated:   ");
    reveal_strlit("Name:      ");
    reveal_strlit("Terminals: ");
    reveal_strlit("Created:   ");
    reveal_strlit("-");
    reveal_strlit(", ");
    assert("-"@ =~= seq!['-']);
    assert(", "@ =~= seq![',', ' ']);
    assert("\nName:      "@ =~= seq!['\n'] + "Name:      "@);
    assert("\nTerminals: "@ =~= seq!['\n'] + "Terminals: "@);
    assert("\nCreated:   "@ =~= seq!['\n'] + "Created:   "@);
    assert(view_details(view) =~= "ID:        "@ + view.id@ + seq!['\n'] + "Name:      "@
        + shown_name(view.name) + seq!['\n'] + "Terminals: "@ + joined(
        texts(view.terminal_ids@),
        ", "@,
    ) + seq!['\n'] + "Created:   "@ + view.created_at@);
}

/// How commands end when the server does what they ask for. A new terminal is
/// printed or entered, under its name where it has one. A view is entered at its
/// first terminal with the others behind it, and one without terminals cannot be.
/// What needs no word ends without one.
pub proof fn commands_end_with_what_they_asked_for(
    name: String,
    id: String,
    text: String,
    terminals: Vec<TerminalInfo>,
    views: Vec<ViewInfo>,
    view: ViewInfo,
    ids: Vec<String>,
    layout: Option<serde_json::Value>,
    focused: Option<String>,
    who: Option<String>,
)
    ensures
        ending(CliCommand::ServerStop, Response::Done) == Ending::Print("server stopped"@),
        ending(
            CliCommand::TerminalCreate { name: who, detach: true },
            Response::TerminalCreated { id },
        ) == Ending::Print(id@),
        ending(
            CliCommand::TerminalCreate { name: Some(name), detach: false },
            Response::TerminalCreated { id },
        ) == Ending::Attach(name@),
        ending(
            CliCommand::TerminalCreate { name: None, detach: false },
            Response::TerminalCreated { id },
        ) == Ending::Attach(id@),
        ending(CliCommand::TerminalLs, Response::TerminalList { terminals }) == Ending::Print(
            terminal_table(terminals@),
        ),
        ending(CliCommand::ViewLs, Response::ViewList { views }) == Ending::Print(
            view_table(views@),
        ),
        ending(
            CliCommand::ViewCreate { name: who, terminal: text },
            Response::ViewCreated { id },
        ) == Ending::Print(id@),
        ending(CliCommand::ViewShow { id }, Response::ViewShow { view }) == Ending::Print(
            view_details(view),
        ),
        ({
            let end = ending(
                CliCommand::ViewAttach { id },
                Response::ViewAttach { terminal_ids: ids, layout, focused },
            );
            &&& ids@.len() == 0 ==> end == Ending::Fail(Failure::Server("view has no terminals"@))
            &&& ids@.len() > 0 ==> {
                &&& end matches Ending::AttachView {
                    label,
                    others,
                    view: of,
                    layout: tree,
                    focused: focus,
                }
                &&& seq![label] + others == texts(ids@)
                &&& of == id@ && tree == layout && focus == text_option(focused)
            }
        }),
        ending(CliCommand::TerminalKill { id }, Response::Done) is Nothing,
        ending(CliCommand::ViewRm { id }, Response::Done) is Nothing,
        ending(CliCommand::ViewAdd { view: id, terminal: text }, Response::Done) is Nothing,
{
    if ids@.len() > 0 {
        assert(seq![ids@[0]@] + texts(ids@).skip(1) =~= texts(ids@));
    }
}

} // verus!
