use kex::ipc::message::{Request, Response, StreamMessage, TerminalInfo};
use kex::server::connection::{
    attach_input, plan_request, respond, AttachStep, ServerOutcome, ServerStep,
};

#[test]
fn requests_are_planned() {
    assert!(matches!(plan_request(Request::ServerStop), ServerStep::Stop));
    assert!(matches!(
        plan_request(Request::TerminalCreate { name: None }),
        ServerStep::Create { name: None }
    ));
    assert!(matches!(plan_request(Request::TerminalList), ServerStep::List));
    assert!(matches!(
        plan_request(Request::TerminalKill { id: "t".into() }),
        ServerStep::Kill { id } if id == "t"
    ));
    assert!(matches!(
        plan_request(Request::TerminalAttach { id: "t".into() }),
        ServerStep::Attach { id } if id == "t"
    ));
    assert!(matches!(plan_request(Request::ViewList), ServerStep::Unserved));
}

#[test]
fn outcomes_are_answered() {
    assert!(matches!(respond(ServerOutcome::Stopping), Response::Done));
    assert!(matches!(
        respond(ServerOutcome::Created(Ok("t1".into()))),
        Response::TerminalCreated { id } if id == "t1"
    ));
    assert!(matches!(
        respond(ServerOutcome::Created(Err("no pty".into()))),
        Response::Error { message } if message == "no pty"
    ));
    let info = TerminalInfo { id: "t1".into(), name: None, created_at: "now".into() };
    assert!(matches!(
        respond(ServerOutcome::Listed(vec![info])),
        Response::TerminalList { terminals } if terminals.len() == 1
    ));
    assert!(matches!(respond(ServerOutcome::Killed(Ok(()))), Response::Done));
    assert!(matches!(
        respond(ServerOutcome::Killed(Err("gone".into()))),
        Response::Error { message } if message == "gone"
    ));
    assert!(matches!(respond(ServerOutcome::Attached), Response::Done));
    assert!(matches!(
        respond(ServerOutcome::NoTerminal("t9".into())),
        Response::Error { message } if message == "terminal not found: t9"
    ));
}

#[test]
fn attached_client_is_followed() {
    assert!(matches!(
        attach_input(Some(StreamMessage::Data(vec![1]))),
        AttachStep::Write(data) if data == vec![1]
    ));
    assert!(matches!(
        attach_input(Some(StreamMessage::Resize { cols: 80, rows: 23 })),
        AttachStep::Resize { cols: 80, rows: 23 }
    ));
    assert!(matches!(attach_input(Some(StreamMessage::Detach)), AttachStep::Stop));
    assert!(matches!(attach_input(None), AttachStep::Stop));
}
