//! Adding a remote from the client's form.

use vstd::prelude::*;

use crate::api::{
    status_result, Method, RemoteAddParams, Request, ResponseResult, RuntimeStatus,
    RuntimeStatusView, SuccessResponse,
};
use crate::protocol::PROTOCOL_VERSION;
use crate::remote_registry::{
    canonical_key_of, target_of, RemoteDefinitionSnapshot, RemoteTargetSnapshot, TargetView,
};
use crate::supervisor::overlay::AddRemoteDraft;
use crate::supervisor_api::{unexpected, SupervisorApi};
use crate::text;
use crate::text::{decimal, lower_spec, occurs_in};

verus! {

/// The request that adds a remote to the registry.
pub fn remote_add_request(draft: AddRemoteDraft) -> (r: Request)
    ensures
        r.id@ == "client:remote-add"@,
        r.method is RemoteAdd,
        ({
            let params = r.method->RemoteAdd_0;
            &&& params.name == draft.name
            &&& params.target == draft.target
            &&& params.keybindings == draft.keybindings
        }),
{
    Request {
        id: "client:remote-add".to_owned(),
        method: Method::RemoteAdd(
            RemoteAddParams {
                name: draft.name,
                target: draft.target,
                keybindings: draft.keybindings,
            },
        ),
    }
}

/// What the form says of an error of the registry.
pub open spec fn add_error_text(error: Seq<char>) -> Seq<char> {
    if error == "remote target already exists"@ {
        "remote already added"@
    } else if error == "remote name already exists"@ {
        "name already used"@
    } else {
        error
    }
}

/// What the form says of an error of the registry.
pub fn add_remote_error_message(error: &str) -> (r: String)
    ensures
        r@ == add_error_text(error@),
{
    if text::same(error, "remote target already exists") {
        "remote already added".to_owned()
    } else if text::same(error, "remote name already exists") {
        "name already used".to_owned()
    } else {
        error.to_owned()
    }
}

/// Whether a reply to the request to add a remote comes to this: the stored remote, or an error in
/// words for the form.
pub open spec fn reply_comes_to(
    reply: Result<SuccessResponse, String>,
    r: Result<RemoteDefinitionSnapshot, String>,
) -> bool {
    match reply {
        Err(e) => r is Err && r->Err_0@ == add_error_text(e@),
        Ok(response) => match response.result {
            ResponseResult::RemoteAdded { remote } => r == Ok::<RemoteDefinitionSnapshot, String>(
                remote,
            ),
            _ => r is Err && r->Err_0@ == unexpected("remote.add"@, response.result),
        },
    }
}

/// The remote in the reply to a request that adds one.
pub fn added_remote_in_reply(reply: Result<SuccessResponse, String>) -> (r: Result<
    RemoteDefinitionSnapshot,
    String,
>)
    ensures
        reply_comes_to(reply, r),
{
    match reply {
        Err(e) => Err(add_remote_error_message(e.as_str())),
        Ok(response) => match response.result {
            ResponseResult::RemoteAdded { remote } => Ok(remote),
            other => Err(crate::supervisor_api::unexpected_result("remote.add", &other)),
        },
    }
}

/// Adds a remote to the registry of the main server.
pub fn submit_remote_add_to_main_api<A: SupervisorApi>(api: &mut A, draft: AddRemoteDraft) -> (r:
    Result<RemoteDefinitionSnapshot, String>)
    ensures
        exists|reply: Result<SuccessResponse, String>| #[trigger] reply_comes_to(reply, r),
{
    let reply: Result<SuccessResponse, String> = api.request(remote_add_request(draft));
    added_remote_in_reply(reply)
}

/// Whether a target is that of the main server.
pub open spec fn is_main_target(main: Option<TargetView>, target: TargetView) -> bool {
    main is Some && canonical_key_of(main->0) == canonical_key_of(target)
}

/// Refuses a target that is that of the main server.
pub fn reject_duplicate_main_target(
    main_target: &Option<RemoteTargetSnapshot>,
    target: &RemoteTargetSnapshot,
) -> (r: Result<(), String>)
    ensures
        match r {
            Ok(_) => !is_main_target(main_target.deep_view(), target.deep_view()),
            Err(e) => is_main_target(main_target.deep_view(), target.deep_view()) && e@
                == "remote already added"@,
        },
{
    match main_target {
        Some(main) => {
            let a: String = main.canonical_key();
            let b: String = target.canonical_key();
            if a == b {
                return Err("remote already added".to_owned());
            }
            Ok(())
        },
        None => Ok(()),
    }
}

/// The target of the main server: what a setting says, where it says something that can be read;
/// without a setting the session of this process.
pub fn main_server_target_snapshot(
    setting: Option<&str>,
    active_session: Option<String>,
) -> (r: Option<RemoteTargetSnapshot>)
    ensures
        match setting {
            Some(s) => r.deep_view() == target_of(s@),
            None => r.deep_view() == Some(
                TargetView::Local { session: active_session.deep_view() },
            ),
        },
{
    match setting {
        Some(s) => match RemoteTargetSnapshot::parse(s) {
            Ok(target) => Some(target),
            Err(_) => None,
        },
        None => Some(RemoteTargetSnapshot::Local { session: active_session }),
    }
}

/// Whether an error of a status request may go away by itself.
pub open spec fn is_transient(error: Seq<char>) -> bool {
    let e = error.map_values(|c: char| lower_spec(c));
    ||| occurs_in("resource temporarily unavailable"@, e)
    ||| occurs_in("operation would block"@, e)
    ||| occurs_in("timed out"@, e)
    ||| occurs_in("connection refused"@, e)
    ||| occurs_in("no such file or directory"@, e)
}

/// Whether an error of a status request may go away by itself.
pub fn add_remote_target_status_error_is_transient(error: &str) -> (r: bool)
    ensures
        r == is_transient(error@),
{
    let e: String = text::ascii_lowercase(error);
    text::contains_str(e.as_str(), "resource temporarily unavailable") || text::contains_str(
        e.as_str(),
        "operation would block",
    ) || text::contains_str(e.as_str(), "timed out") || text::contains_str(
        e.as_str(),
        "connection refused",
    ) || text::contains_str(e.as_str(), "no such file or directory")
}

/// How long a server may take to answer, in milliseconds.
pub const VALIDATE_TIMEOUT_MILLIS: u64 = 5000;

/// How long to wait before the next question, in milliseconds.
pub const VALIDATE_RETRY_MILLIS: u64 = 50;

/// How the check of a server goes on.
#[derive(Debug, PartialEq, Eq)]
pub enum ValidateStep {
    Accept,
    Reject(String),
    /// Ask again after this many milliseconds.
    Retry(u64),
}

/// How the check of a server goes on, as a mathematical value.
#[verifier::ext_equal]
pub enum ValidateView {
    Accept,
    Reject { message: Seq<char> },
    Retry { millis: u64 },
}

impl DeepView for ValidateStep {
    type V = ValidateView;

    open spec fn deep_view(&self) -> ValidateView {
        match self {
            ValidateStep::Accept => ValidateView::Accept,
            ValidateStep::Reject(message) => ValidateView::Reject { message: message@ },
            ValidateStep::Retry(millis) => ValidateView::Retry { millis: *millis },
        }
    }
}

/// An optional number in the way of the standard library's debug form.
pub open spec fn debug_number(n: Option<u32>) -> Seq<char> {
    match n {
        Some(n) => "Some("@ + decimal(n as nat) + ")"@,
        None => "None"@,
    }
}

/// What is said of a server with another protocol.
pub open spec fn mismatch_text(protocol: Option<u32>) -> Seq<char> {
    "protocol mismatch: server protocol "@ + debug_number(protocol) + ", client protocol "@
        + decimal(PROTOCOL_VERSION as nat)
}

/// How the check of a server goes on, after `elapsed_millis` of it, when its status came to this:
/// another protocol is refused at once, an error that may go away is waited for.
pub open spec fn validated(
    status: Result<RuntimeStatusView, Seq<char>>,
    elapsed_millis: u64,
) -> ValidateView {
    match status {
        Ok(s) => if s.protocol == Some(PROTOCOL_VERSION) {
            ValidateView::Accept
        } else {
            ValidateView::Reject { message: mismatch_text(s.protocol) }
        },
        Err(e) => if is_transient(e) && elapsed_millis < VALIDATE_TIMEOUT_MILLIS {
            ValidateView::Retry { millis: VALIDATE_RETRY_MILLIS }
        } else {
            ValidateView::Reject { message: e }
        },
    }
}

/// How the check of a server goes on, after `elapsed_millis` of it, when its status came to this.
pub fn validate_add_remote_target(
    status: Result<RuntimeStatus, String>,
    elapsed_millis: u64,
) -> (r: ValidateStep)
    ensures
        r.deep_view() == validated(status_result(status), elapsed_millis),
{
    match status {
        Ok(s) => {
            let mut e: String = "protocol mismatch: server protocol ".to_owned();
            match s.protocol {
                Some(p) => {
                    if p == PROTOCOL_VERSION {
                        return ValidateStep::Accept;
                    }
                    let mut shown: String = "Some(".to_owned();
                    shown.append(text::decimal_of(p as u128).as_str());
                    shown.append(")");
                    e.append(shown.as_str());
                },
                None => {
                    e.append("None");
                },
            }
            e.append(", client protocol ");
            e.append(text::decimal_of(PROTOCOL_VERSION as u128).as_str());
            ValidateStep::Reject(e)
        },
        Err(e) => {
            if add_remote_target_status_error_is_transient(e.as_str()) && elapsed_millis
                < VALIDATE_TIMEOUT_MILLIS {
                ValidateStep::Retry(VALIDATE_RETRY_MILLIS)
            } else {
                ValidateStep::Reject(e)
            }
        },
    }
}

} // verus!
