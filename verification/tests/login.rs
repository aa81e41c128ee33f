use kex::cloud::login::{
    bearer, code_request, code_url, device_request, devices_url, instructions, poll_step,
    sign_out_url, take_code, token_request, token_url, CodeReply, DeviceCode, PollReply, PollStep,
};
use kex::error::KexError;
use serde_json::Value;

fn json(text: &str) -> Value {
    serde_json::from_str(text).unwrap()
}

fn code() -> DeviceCode {
    DeviceCode {
        device_code: "d".into(),
        user_code: "ABCD".into(),
        verification_uri: "https://x/device".into(),
        interval: 5,
    }
}

#[test]
fn addresses_are_exact() {
    assert_eq!(code_url("https://x"), "https://x/api/auth/device-authorization/code");
    assert_eq!(token_url("https://x"), "https://x/api/auth/device-authorization/token");
    assert_eq!(devices_url("https://x"), "https://x/api/devices");
    assert_eq!(sign_out_url("https://x"), "https://x/api/auth/sign-out");
    assert_eq!(bearer("t"), "Bearer t");
}

#[test]
fn bodies_are_exact() {
    assert_eq!(code_request(), json(r#"{"client_id":"kex-cli"}"#));
    assert_eq!(token_request("d1"), json(r#"{"device_code":"d1","client_id":"kex-cli"}"#));
    assert_eq!(
        device_request(&Some("host".into()), &None),
        json(r#"{"name":"host","fingerprint":"unknown"}"#)
    );
    assert_eq!(
        device_request(&None, &Some("f".into())),
        json(r#"{"name":"unknown","fingerprint":"f"}"#)
    );
}

#[test]
fn user_is_told_what_to_do() {
    assert_eq!(instructions(&code()), "Open in browser: https://x/device\nEnter code: ABCD");
}

#[test]
fn code_is_taken_or_refused() {
    let reason = |reply| match take_code(reply) {
        Err(KexError::Server(text)) => text,
        _ => panic!("expected a failure"),
    };
    assert_eq!(reason(CodeReply::NotSent("dns".into())), "request failed: dns");
    assert_eq!(reason(CodeReply::Invalid("eof".into())), "invalid response: eof");
    assert_eq!(take_code(CodeReply::Code(code())).unwrap().user_code, "ABCD");
}

#[test]
fn polling_ends_when_it_should() {
    let reason = |reply| match poll_step(reply) {
        PollStep::GiveUp(KexError::Server(text)) => text,
        _ => panic!("expected to give up"),
    };
    assert_eq!(reason(PollReply::NotSent("dns".into())), "poll failed: dns");
    assert_eq!(reason(PollReply::Invalid("eof".into())), "invalid token response: eof");
    assert_eq!(
        reason(PollReply::Refused(Some("expired_token".into()))),
        "device code expired — run `kex login` again"
    );
    assert_eq!(
        reason(PollReply::Refused(Some("access_denied".into()))),
        "authorization denied"
    );
    assert!(matches!(poll_step(PollReply::Token("t".into())), PollStep::Token(t) if t == "t"));
    let pending = PollReply::Refused(Some("authorization_pending".into()));
    assert!(matches!(poll_step(pending), PollStep::Again));
    assert!(matches!(poll_step(PollReply::Refused(None)), PollStep::Again));
}
