use kex::cli::{conclude, config_text, plan, CliCommand, CliOutcome, CliStep};
use kex::error::KexError;
use kex::ipc::message::{Request, Response, TerminalInfo, ViewInfo};

fn printed(cmd: CliCommand, resp: Response) -> String {
    match conclude(cmd, resp) {
        CliOutcome::Print(text) => text,
        other => panic!("expected text, got {other:?}"),
    }
}

fn failure(cmd: CliCommand, resp: Response) -> String {
    match conclude(cmd, resp) {
        CliOutcome::Fail(KexError::Server(text)) => text,
        other => panic!("expected a failure, got {other:?}"),
    }
}

fn error() -> Response {
    Response::Error { message: "nope".into() }
}

fn create(name: Option<&str>, detach: bool) -> CliCommand {
    CliCommand::TerminalCreate { name: name.map(String::from), detach }
}

#[test]
fn commands_ask_the_server() {
    let ask = |cmd: CliCommand| match plan(&cmd) {
        CliStep::Ask(req) => req,
        other => panic!("expected a request, got {other:?}"),
    };
    assert!(matches!(ask(CliCommand::ServerStop), Request::ServerStop));
    assert!(matches!(
        ask(create(Some("dev"), true)),
        Request::TerminalCreate { name: Some(n) } if n == "dev"
    ));
    assert!(matches!(ask(CliCommand::TerminalLs), Request::TerminalList));
    assert!(matches!(
        ask(CliCommand::TerminalKill { id: "t".into() }),
        Request::TerminalKill { id } if id == "t"
    ));
    assert!(matches!(
        ask(CliCommand::ViewCreate { name: None, terminal: "t".into() }),
        Request::ViewCreate { name: None, terminal_id } if terminal_id == "t"
    ));
    assert!(matches!(ask(CliCommand::ViewLs), Request::ViewList));
    assert!(matches!(
        ask(CliCommand::ViewRm { id: "v".into() }),
        Request::ViewDelete { id } if id == "v"
    ));
    assert!(matches!(
        ask(CliCommand::ViewShow { id: "v".into() }),
        Request::ViewShow { id } if id == "v"
    ));
    assert!(matches!(
        ask(CliCommand::ViewAttach { id: "v".into() }),
        Request::ViewAttach { id } if id == "v"
    ));
    assert!(matches!(
        ask(CliCommand::ViewAdd { view: "v".into(), terminal: "t".into() }),
        Request::ViewAddTerminal { view_id, terminal_id } if view_id == "v" && terminal_id == "t"
    ));
}

#[test]
fn other_commands_need_no_server() {
    assert!(matches!(plan(&CliCommand::ServerStart), CliStep::StartServer));
    assert!(matches!(
        plan(&CliCommand::TerminalAttach { id: "t".into() }),
        CliStep::Attach { label } if label == "t"
    ));
    assert!(matches!(plan(&CliCommand::ConfigShow), CliStep::ShowConfig));
    assert!(matches!(plan(&CliCommand::ConfigPath), CliStep::ShowConfigPath));
    assert!(matches!(
        plan(&CliCommand::Login { server: "s".into() }),
        CliStep::Login { server } if server == "s"
    ));
    assert!(matches!(plan(&CliCommand::Logout), CliStep::Logout));
}

#[test]
fn created_terminal_is_attached_or_named() {
    let created = || Response::TerminalCreated { id: "t1".into() };
    assert_eq!(printed(create(Some("dev"), true), created()), "t1");
    assert!(matches!(
        conclude(create(Some("dev"), false), created()),
        CliOutcome::Attach { label } if label == "dev"
    ));
    assert!(matches!(
        conclude(create(None, false), created()),
        CliOutcome::Attach { label } if label == "t1"
    ));
    assert_eq!(failure(create(None, false), error()), "nope");
}

#[test]
fn terminals_are_listed_in_columns() {
    let list = |terminals| Response::TerminalList { terminals };
    assert_eq!(printed(CliCommand::TerminalLs, list(vec![])), "no terminals");
    let terminals = vec![
        TerminalInfo { id: "abc12345".into(), name: None, created_at: "today".into() },
        TerminalInfo {
            id: "a-very-long-id".into(),
            name: Some("dev".into()),
            created_at: "now".into(),
        },
    ];
    assert_eq!(
        printed(CliCommand::TerminalLs, list(terminals)),
        "ID         NAME            CREATED\n\
         abc12345   -               today\n\
         a-very-long-id dev             now"
    );
    assert!(matches!(conclude(CliCommand::TerminalLs, error()), CliOutcome::Nothing));
}

#[test]
fn views_are_listed_in_columns() {
    let list = |views| Response::ViewList { views };
    assert_eq!(printed(CliCommand::ViewLs, list(vec![])), "no views");
    let views = vec![ViewInfo {
        id: "v1".into(),
        name: Some("main".into()),
        terminal_ids: vec!["t1".into(), "t2".into()],
        created_at: "now".into(),
    }];
    assert_eq!(
        printed(CliCommand::ViewLs, list(views)),
        "ID         NAME            TERMINALS\nv1         main            t1, t2"
    );
    assert!(matches!(conclude(CliCommand::ViewLs, error()), CliOutcome::Nothing));
}

#[test]
fn view_details_are_shown() {
    let view = ViewInfo {
        id: "v1".into(),
        name: None,
        terminal_ids: vec!["t1".into()],
        created_at: "now".into(),
    };
    assert_eq!(
        printed(CliCommand::ViewShow { id: "v1".into() }, Response::ViewShow { view }),
        "ID:        v1\nName:      -\nTerminals: t1\nCreated:   now"
    );
}

#[test]
fn view_is_attached_by_its_first_terminal() {
    let cmd = || CliCommand::ViewAttach { id: "v1".into() };
    let attach = |ids: Vec<String>| Response::ViewAttach {
        terminal_ids: ids,
        layout: None,
        focused: Some("t2".into()),
    };
    assert_eq!(failure(cmd(), attach(vec![])), "view has no terminals");
    assert!(matches!(
        conclude(cmd(), attach(vec!["t1".into(), "t2".into()])),
        CliOutcome::AttachView { label, others, view, layout: None, focused: Some(f) }
            if label == "t1" && others == vec!["t2".to_string()] && view == "v1" && f == "t2"
    ));
}

#[test]
fn errors_are_shown() {
    assert_eq!(failure(CliCommand::ServerStop, error()), "nope");
    assert_eq!(failure(CliCommand::TerminalKill { id: "t".into() }, error()), "nope");
    assert_eq!(failure(CliCommand::ViewRm { id: "v".into() }, error()), "nope");
    let add = CliCommand::ViewAdd { view: "v".into(), terminal: "t".into() };
    assert_eq!(failure(add, error()), "nope");
    assert_eq!(printed(CliCommand::ServerStop, Response::Done), "server stopped");
    assert!(matches!(
        conclude(CliCommand::TerminalKill { id: "t".into() }, Response::Done),
        CliOutcome::Nothing
    ));
}

#[test]
fn configuration_is_shown() {
    assert_eq!(config_text("ctrl-a", true), "prefix = \"ctrl-a\"\nstatus_bar = true");
    assert_eq!(config_text("ctrl-b", false), "prefix = \"ctrl-b\"\nstatus_bar = false");
}
