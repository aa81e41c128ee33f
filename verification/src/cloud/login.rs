//! Letting a device into the cloud: the user confirms a code in the browser
//! while the device asks for its token again and again.
use vstd::prelude::*;

use crate::error::{Failure, KexError};
use crate::json::{json_of, obj1, obj2, object1, object2, text, Json};
use crate::text::{concat2, same_text};

verus! {

/// How the command line calls itself.
pub open spec fn client_id() -> Seq<char> {
    "kex-cli"@
}

/// A code that the user has to confirm.
#[derive(Debug)]
pub struct DeviceCode {
    pub device_code: String,
    pub user_code: String,
    pub verification_uri: String,
    /// How long to wait between two questions, in seconds.
    pub interval: u64,
}

/// Where a code can be had.
pub fn code_url(server_url: &str) -> (url: String)
    ensures
        url@ == server_url@ + "/api/auth/device-authorization/code"@,
{
    concat2(server_url, "/api/auth/device-authorization/code")
}

/// Where a token can be had.
pub fn token_url(server_url: &str) -> (url: String)
    ensures
        url@ == server_url@ + "/api/auth/device-authorization/token"@,
{
    concat2(server_url, "/api/auth/device-authorization/token")
}

/// Where devices are registered.
pub fn devices_url(server_url: &str) -> (url: String)
    ensures
        url@ == server_url@ + "/api/devices"@,
{
    concat2(server_url, "/api/devices")
}

/// Where a token can be given back.
pub fn sign_out_url(server_url: &str) -> (url: String)
    ensures
        url@ == server_url@ + "/api/auth/sign-out"@,
{
    concat2(server_url, "/api/auth/sign-out")
}

/// The header value that shows a token.
pub fn bearer(token: &str) -> (value: String)
    ensures
        value@ == "Bearer "@ + token@,
{
    concat2("Bearer ", token)
}

/// The question for a code.
pub fn code_request() -> (v: serde_json::Value)
    ensures
        json_of(v) == obj1("client_id"@, Json::Text(client_id())),
{
    object1("client_id", text("kex-cli"))
}

/// The question for a token.
pub fn token_request(device_code: &str) -> (v: serde_json::Value)
    ensures
        json_of(v) == obj2(
            "device_code"@,
            Json::Text(device_code@),
            "client_id"@,
            Json::Text(client_id()),
        ),
{
    object2("device_code", text(device_code), "client_id", text("kex-cli"))
}

/// A text, or `unknown` where there is none.
pub open spec fn or_unknown(s: Option<String>) -> Seq<char> {
    match s {
        Some(t) => t@,
        None => "unknown"@,
    }
}

/// The registration of a device under the name of its machine.
pub fn device_request(hostname: &Option<String>, fingerprint: &Option<String>) -> (v:
    serde_json::Value)
    ensures
        json_of(v) == obj2(
            "name"@,
            Json::Text(or_unknown(*hostname)),
            "fingerprint"@,
            Json::Text(or_unknown(*fingerprint)),
        ),
{
    let name = match hostname {
        Some(t) => t.as_str(),
        None => "unknown",
    };
    let print = match fingerprint {
        Some(t) => t.as_str(),
        None => "unknown",
    };
    object2("name", text(name), "fingerprint", text(print))
}

/// How asking for a code has come out.
pub enum CodeReply {
    /// The question could not be sent, for this reason.
    NotSent(String),
    /// The answer makes no sense, for this reason.
    Invalid(String),
    /// This is the code.
    Code(DeviceCode),
}

/// Takes the code, or says why there is none.
pub fn take_code(reply: CodeReply) -> (r: Result<DeviceCode, KexError>)
    ensures
        match reply {
            CodeReply::NotSent(reason) => r matches Err(e) && e@ == Failure::Server(
                "request failed: "@ + reason@,
            ),
            CodeReply::Invalid(reason) => r matches Err(e) && e@ == Failure::Server(
                "invalid response: "@ + reason@,
            ),
            CodeReply::Code(code) => r matches Ok(c) && c == code,
        },
{
    match reply {
        CodeReply::NotSent(reason) => Err(
            KexError::Server(concat2("request failed: ", reason.as_str())),
        ),
        CodeReply::Invalid(reason) => Err(
            KexError::Server(concat2("invalid response: ", reason.as_str())),
        ),
        CodeReply::Code(code) => Ok(code),
    }
}

/// What the user is told to do.
pub fn instructions(code: &DeviceCode) -> (out: String)
    ensures
        out@ == "Open in browser: "@ + code.verification_uri@ + "\nEnter code: "@
            + code.user_code@,
{
    let mut out = concat2("Open in browser: ", code.verification_uri.as_str());
    out.append("\nEnter code: ");
    out.append(code.user_code.as_str());
    out
}

/// How asking for the token has come out.
pub enum PollReply {
    /// The question could not be sent, for this reason.
    NotSent(String),
    /// There is a token, but the answer makes no sense, for this reason.
    Invalid(String),
    /// This is the token.
    Token(String),
    /// There is no token, and this is the kind of the error, where it was given.
    Refused(Option<String>),
}

/// What to do after asking for the token.
pub enum PollStep {
    /// This is the token.
    Token(String),
    /// Give up.
    GiveUp(KexError),
    /// Ask again.
    Again,
}

/// Decides what to do after asking for the token. As long as the user has
/// neither confirmed nor denied and the code has not expired, the question is
/// asked again.
pub fn poll_step(reply: PollReply) -> (step: PollStep)
    ensures
        match reply {
            PollReply::NotSent(reason) => step matches PollStep::GiveUp(e) && e@
                == Failure::Server("poll failed: "@ + reason@),
            PollReply::Invalid(reason) => step matches PollStep::GiveUp(e) && e@
                == Failure::Server("invalid token response: "@ + reason@),
            PollReply::Token(token) => step matches PollStep::Token(t) && t == token,
            PollReply::Refused(kind) => if kind matches Some(k) && k@ == "expired_token"@ {
                step matches PollStep::GiveUp(e) && e@ == Failure::Server(
                    "device code expired — run `kex login` again"@,
                )
            } else if kind matches Some(k) && k@ == "access_denied"@ {
                step matches PollStep::GiveUp(e) && e@ == Failure::Server("authorization denied"@)
            } else {
                step is Again
            },
        },
{
    match reply {
        PollReply::NotSent(reason) => PollStep::GiveUp(
            KexError::Server(concat2("poll failed: ", reason.as_str())),
        ),
        PollReply::Invalid(reason) => PollStep::GiveUp(
            KexError::Server(concat2("invalid token response: ", reason.as_str())),
        ),
        PollReply::Token(token) => PollStep::Token(token),
        PollReply::Refused(kind) => match kind {
            Some(k) => {
                if same_text(k.as_str(), "expired_token") {
                    PollStep::GiveUp(
                        KexError::Server(
                            "device code expired — run `kex login` again".to_string(),
                        ),
                    )
                } else if same_text(k.as_str(), "access_denied") {
                    PollStep::GiveUp(KexError::Server("authorization denied".to_string()))
                } else {
                    PollStep::Again
                }
            },
            None => PollStep::Again,
        },
    }
}

/// A machine without a name or a fingerprint is registered as unknown, and any
/// other one under its own.
pub proof fn nameless_machines_are_unknown(name: String)
    ensures
        or_unknown(Some(name)) == name@,
        or_unknown(None) == "unknown"@,
        client_id() == "kex-cli"@,
{
}

} // verus!
