//! Preparing a remote host: which binary runs there, what is installed, and what becomes of a
//! server that already runs. Questions and ssh commands are left to the caller, who reports back
//! how each step went.

use vstd::prelude::*;

use crate::build_info::FULL_VERSION;
use crate::bundle::{is_for, BundleEntry, BundleIndex, EntryView};
use crate::protocol::PROTOCOL_VERSION;
use crate::remote::{platform_key, RemoteHerdr, RemotePlatform, REMOTE_BINARY_ENV_VAR};
use crate::text;
use crate::text::{decimal, lower_spec, trim_spec};

verus! {

/// How a decision on a remote host is made.
#[derive(Debug, Clone, Copy, PartialEq, Eq, Structural)]
pub enum RemotePrepPolicy {
    /// From a shell: ask on a terminal, refuse without one.
    Interactive,
    /// From the running client, which owns the terminal: never ask, and never stop a server that
    /// has panes.
    NonInteractive,
}

/// The server on a remote host.
#[derive(Debug, PartialEq, Eq)]
pub enum RemoteServerStatus {
    Running { version: Option<String>, protocol: Option<u32>, live_handoff: bool },
    NotRunning,
}

/// What a remote server may be able to do.
#[derive(Debug, Clone, Copy, PartialEq, Eq)]
pub struct RemoteServerCapabilitiesJson {
    pub live_handoff: bool,
}

/// The status that a remote server tells.
#[derive(Debug, PartialEq, Eq)]
pub struct RemoteServerStatusJson {
    pub running: bool,
    pub version: Option<String>,
    pub protocol: Option<u32>,
    pub capabilities: Option<RemoteServerCapabilitiesJson>,
}

/// Why a running server is out of date.
#[derive(Debug, Clone, Copy, PartialEq, Eq, Structural)]
pub enum RemoteServerRestartReason {
    ProtocolMismatch,
    BinaryUpdated,
    VersionMismatch,
}

/// What the client does with an out-of-date server.
#[derive(Debug, Clone, Copy, PartialEq, Eq, Structural)]
pub enum NonInteractiveServerAction {
    /// Attach to the running server as it is.
    AttachExisting,
    /// Hand the panes to the prepared server, then attach.
    LiveHandoff,
    /// The protocols differ and no handoff is possible.
    ProtocolStuck,
}

/// What the status that a remote server tells means. A server that does not speak of its
/// capabilities has no live handoff.
pub fn remote_server_status_of(parsed: RemoteServerStatusJson) -> (r: RemoteServerStatus)
    ensures
        !parsed.running ==> r is NotRunning,
        parsed.running ==> r == (RemoteServerStatus::Running {
            version: parsed.version,
            protocol: parsed.protocol,
            live_handoff: parsed.capabilities is Some && parsed.capabilities->0.live_handoff,
        }),
{
    if !parsed.running {
        return RemoteServerStatus::NotRunning;
    }
    let live_handoff: bool = match parsed.capabilities {
        Some(c) => c.live_handoff,
        None => false,
    };
    RemoteServerStatus::Running {
        version: parsed.version,
        protocol: parsed.protocol,
        live_handoff,
    }
}

/// Why a server of this version and protocol is out of date, if it is.
pub open spec fn restart_reason_of(
    version: Option<Seq<char>>,
    protocol: Option<u32>,
    binary_changed: bool,
) -> Option<RemoteServerRestartReason> {
    if protocol != Some(PROTOCOL_VERSION) {
        Some(RemoteServerRestartReason::ProtocolMismatch)
    } else if binary_changed {
        Some(RemoteServerRestartReason::BinaryUpdated)
    } else if version != Some(FULL_VERSION@) {
        Some(RemoteServerRestartReason::VersionMismatch)
    } else {
        None
    }
}

/// Why a server of this version and protocol is out of date, if it is.
pub fn remote_server_restart_reason(
    version: Option<&str>,
    protocol: Option<u32>,
    remote_binary_changed: bool,
) -> (r: Option<RemoteServerRestartReason>)
    ensures
        r == restart_reason_of(version.deep_view(), protocol, remote_binary_changed),
{
    let same_protocol: bool = match protocol {
        Some(p) => p == PROTOCOL_VERSION,
        None => false,
    };
    if !same_protocol {
        return Some(RemoteServerRestartReason::ProtocolMismatch);
    }
    if remote_binary_changed {
        return Some(RemoteServerRestartReason::BinaryUpdated);
    }
    let same_version: bool = match version {
        Some(v) => text::same(v, FULL_VERSION),
        None => false,
    };
    if !same_version {
        return Some(RemoteServerRestartReason::VersionMismatch);
    }
    None
}

/// What the client does with an out-of-date server, without asking and without stopping it.
pub fn non_interactive_server_action(
    reason: RemoteServerRestartReason,
    live_handoff_enabled: bool,
    live_handoff_supported: bool,
) -> (r: NonInteractiveServerAction)
    ensures
        r == (if live_handoff_enabled && live_handoff_supported {
            NonInteractiveServerAction::LiveHandoff
        } else if reason == RemoteServerRestartReason::ProtocolMismatch {
            NonInteractiveServerAction::ProtocolStuck
        } else {
            NonInteractiveServerAction::AttachExisting
        }),
{
    let can_handoff: bool = live_handoff_enabled && live_handoff_supported;
    match reason {
        RemoteServerRestartReason::ProtocolMismatch => {
            if can_handoff {
                NonInteractiveServerAction::LiveHandoff
            } else {
                NonInteractiveServerAction::ProtocolStuck
            }
        },
        RemoteServerRestartReason::BinaryUpdated | RemoteServerRestartReason::VersionMismatch => {
            if can_handoff {
                NonInteractiveServerAction::LiveHandoff
            } else {
                NonInteractiveServerAction::AttachExisting
            }
        },
    }
}

/// A version as it is shown.
pub open spec fn version_label_of(version: Option<Seq<char>>) -> Seq<char> {
    match version {
        Some(v) => v,
        None => "unknown"@,
    }
}

fn version_label<'a>(version: &'a Option<String>) -> (r: &'a str)
    ensures
        r@ == version_label_of(version.deep_view()),
{
    match version {
        Some(v) => v.as_str(),
        None => "unknown",
    }
}

/// A protocol as it is shown.
pub open spec fn protocol_label_of(protocol: Option<u32>) -> Seq<char> {
    match protocol {
        Some(p) => decimal(p as nat),
        None => "unknown"@,
    }
}

/// A protocol as it is shown.
pub fn protocol_label(protocol: Option<u32>) -> (r: String)
    ensures
        r@ == protocol_label_of(protocol),
{
    match protocol {
        Some(p) => text::decimal_of(p as u128),
        None => "unknown".to_owned(),
    }
}

/// Whether an answer says no: `n` or `no`, in either case, with white space around it.
pub open spec fn is_refusal(answer: Seq<char>) -> bool {
    let word = trim_spec(answer).map_values(|c: char| lower_spec(c));
    word == "n"@ || word == "no"@
}

/// Whether an answer says no. Everything else, an empty answer too, says yes.
pub fn answer_declines(answer: &str) -> (r: bool)
    ensures
        r == is_refusal(answer@),
{
    let word: String = text::ascii_lowercase(text::trim(answer));
    text::same(word.as_str(), "n") || text::same(word.as_str(), "no")
}

/// How a question to the user stands, with texts of type `T` and rows of them of type `L`.
pub enum Confirmation<T, L> {
    /// No need to ask: go on.
    Proceed,
    /// No way to ask, and no harm in leaving things as they are: say so and do not.
    Skip { notice: T },
    /// No way to ask: fail.
    Refuse { message: T },
    /// Show the lines and the prompt, and read an answer.
    Ask { lines: L, prompt: T },
}

impl DeepView for Confirmation<String, Vec<String>> {
    type V = Confirmation<Seq<char>, Seq<Seq<char>>>;

    open spec fn deep_view(&self) -> Confirmation<Seq<char>, Seq<Seq<char>>> {
        match self {
            Confirmation::Proceed => Confirmation::Proceed,
            Confirmation::Skip { notice } => Confirmation::Skip { notice: notice@ },
            Confirmation::Refuse { message } => Confirmation::Refuse { message: message@ },
            Confirmation::Ask { lines, prompt } => Confirmation::Ask {
                lines: lines.deep_view(),
                prompt: prompt@,
            },
        }
    }
}

/// What a running server is, in two lines and an empty one.
pub open spec fn running_lines(
    target: Seq<char>,
    version: Option<Seq<char>>,
    protocol: Option<u32>,
) -> Seq<Seq<char>> {
    seq![
        "remote herdr server on "@ + target + " is currently running:"@,
        "  server: v"@ + version_label_of(version) + " protocol "@ + protocol_label_of(protocol),
    ]
}

/// The line that names the prepared binary.
pub open spec fn prepared_line() -> Seq<char> {
    "  prepared binary: v"@ + FULL_VERSION@ + " protocol "@ + decimal(PROTOCOL_VERSION as nat)
}

/// What is said of a server that keeps running.
pub open spec fn still_running_notice(target: Seq<char>, version: Option<Seq<char>>) -> Seq<char> {
    "remote herdr server on "@ + target + " is still running v"@ + version_label_of(version)
        + "; it will use v"@ + FULL_VERSION@ + " after it restarts."@
}

/// What is said of a server with another protocol where nobody can be asked.
pub open spec fn protocol_refusal(
    target: Seq<char>,
    protocol: Option<u32>,
    approve: Seq<char>,
) -> Seq<char> {
    "remote herdr server on "@ + target + " is running with protocol "@ + protocol_label_of(
        protocol,
    ) + ", but this client needs protocol "@ + decimal(PROTOCOL_VERSION as nat)
        + "; run from an interactive terminal to approve "@ + approve
}

fn running_lines_exec(target: &str, version: &Option<String>, protocol: Option<u32>) -> (r: Vec<
    String,
>)
    ensures
        r.deep_view() == running_lines(target@, version.deep_view(), protocol),
{
    let mut first: String = "remote herdr server on ".to_owned();
    first.append(target);
    first.append(" is currently running:");
    let mut second: String = "  server: v".to_owned();
    second.append(version_label(version));
    second.append(" protocol ");
    second.append(protocol_label(protocol).as_str());
    let mut lines: Vec<String> = Vec::new();
    lines.push(first);
    lines.push(second);
    assert(lines.deep_view() =~= running_lines(target@, version.deep_view(), protocol));
    lines
}

fn prepared_line_exec() -> (r: String)
    ensures
        r@ == prepared_line(),
{
    let mut line: String = "  prepared binary: v".to_owned();
    line.append(FULL_VERSION);
    line.append(" protocol ");
    line.append(text::decimal_of(PROTOCOL_VERSION as u128).as_str());
    line
}

fn still_running_exec(target: &str, version: &Option<String>) -> (r: String)
    ensures
        r@ == still_running_notice(target@, version.deep_view()),
{
    let mut notice: String = "remote herdr server on ".to_owned();
    notice.append(target);
    notice.append(" is still running v");
    notice.append(version_label(version));
    notice.append("; it will use v");
    notice.append(FULL_VERSION);
    notice.append(" after it restarts.");
    notice
}

fn protocol_refusal_exec(target: &str, protocol: Option<u32>, approve: &str) -> (r: String)
    ensures
        r@ == protocol_refusal(target@, protocol, approve@),
{
    let mut message: String = "remote herdr server on ".to_owned();
    message.append(target);
    message.append(" is running with protocol ");
    message.append(protocol_label(protocol).as_str());
    message.append(", but this client needs protocol ");
    message.append(text::decimal_of(PROTOCOL_VERSION as u128).as_str());
    message.append("; run from an interactive terminal to approve ");
    message.append(approve);
    message
}

/// The explanation before the question whether to stop a server.
pub open spec fn stop_explanation(reason: RemoteServerRestartReason) -> Seq<char> {
    match reason {
        RemoteServerRestartReason::ProtocolMismatch =>
            "the remote server protocol does not match this client. the remote server must be stopped before attaching."@,
        RemoteServerRestartReason::BinaryUpdated =>
            "the remote herdr binary was installed or replaced. restart the remote server so it uses the prepared binary."@,
        RemoteServerRestartReason::VersionMismatch =>
            "the remote server is still running a different herdr version. restart it so it uses the prepared binary."@,
    }
}

/// How the question whether to stop a server stands.
pub open spec fn stop_confirmation(
    target: Seq<char>,
    version: Option<Seq<char>>,
    protocol: Option<u32>,
    reason: RemoteServerRestartReason,
    is_terminal: bool,
) -> Confirmation<Seq<char>, Seq<Seq<char>>> {
    let mismatch = reason == RemoteServerRestartReason::ProtocolMismatch;
    if !is_terminal && mismatch {
        Confirmation::Refuse { message: protocol_refusal(target, protocol, "stopping it"@) }
    } else if !is_terminal {
        Confirmation::Skip { notice: still_running_notice(target, version) }
    } else {
        Confirmation::Ask {
            lines: running_lines(target, version, protocol) + seq![
                prepared_line(),
                ""@,
                stop_explanation(reason),
            ],
            prompt: if mismatch {
                "stop the remote server and continue attaching? [Y/n] "@
            } else {
                "restart the remote server now? [Y/n] "@
            },
        }
    }
}

/// How the question whether to stop a server stands.
pub fn confirm_remote_server_stop(
    target: &str,
    version: &Option<String>,
    protocol: Option<u32>,
    reason: RemoteServerRestartReason,
    is_terminal: bool,
) -> (r: Confirmation<String, Vec<String>>)
    ensures
        r.deep_view() == stop_confirmation(
            target@,
            version.deep_view(),
            protocol,
            reason,
            is_terminal,
        ),
{
    let mismatch: bool = reason == RemoteServerRestartReason::ProtocolMismatch;
    if !is_terminal {
        if mismatch {
            return Confirmation::Refuse {
                message: protocol_refusal_exec(target, protocol, "stopping it"),
            };
        }
        return Confirmation::Skip { notice: still_running_exec(target, version) };
    }
    let mut lines: Vec<String> = running_lines_exec(target, version, protocol);
    let ghost head = lines.deep_view();
    lines.push(prepared_line_exec());
    lines.push("".to_owned());
    let explanation: &str = match reason {
        RemoteServerRestartReason::ProtocolMismatch =>
            "the remote server protocol does not match this client. the remote server must be stopped before attaching.",
        RemoteServerRestartReason::BinaryUpdated =>
            "the remote herdr binary was installed or replaced. restart the remote server so it uses the prepared binary.",
        RemoteServerRestartReason::VersionMismatch =>
            "the remote server is still running a different herdr version. restart it so it uses the prepared binary.",
    };
    lines.push(explanation.to_owned());
    assert(lines.deep_view() =~= head + seq![prepared_line(), ""@, stop_explanation(reason)]);
    let prompt: &str = if mismatch {
        "stop the remote server and continue attaching? [Y/n] "
    } else {
        "restart the remote server now? [Y/n] "
    };
    Confirmation::Ask { lines, prompt: prompt.to_owned() }
}

/// What an answer to the question whether to stop a server comes to: whether to stop it, or an
/// error where attaching is impossible otherwise.
pub fn remote_server_stop_answer(answer: &str, reason: RemoteServerRestartReason) -> (r: Result<
    bool,
    String,
>)
    ensures
        match r {
            Ok(stop) => stop == !is_refusal(answer@) && (stop || reason
                != RemoteServerRestartReason::ProtocolMismatch),
            Err(e) => is_refusal(answer@) && reason == RemoteServerRestartReason::ProtocolMismatch
                && e@ == "remote herdr server stop cancelled"@,
        },
{
    if answer_declines(answer) {
        if reason == RemoteServerRestartReason::ProtocolMismatch {
            return Err("remote herdr server stop cancelled".to_owned());
        }
        return Ok(false);
    }
    Ok(true)
}

/// The explanation before the question whether to hand the panes over.
pub open spec fn handoff_explanation(reason: RemoteServerRestartReason) -> Seq<char> {
    match reason {
        RemoteServerRestartReason::ProtocolMismatch =>
            "the remote server protocol does not match this client. herdr will try to hand off live pane processes to the prepared remote server before the old server exits."@,
        RemoteServerRestartReason::BinaryUpdated =>
            "the remote herdr binary was installed or replaced. herdr will try to hand off live pane processes to the prepared remote server."@,
        RemoteServerRestartReason::VersionMismatch =>
            "the remote server is still running a different herdr version. herdr will try to hand off live pane processes to the prepared remote server."@,
    }
}

/// How the question whether to hand the panes over stands.
pub open spec fn handoff_confirmation(
    target: Seq<char>,
    version: Option<Seq<char>>,
    protocol: Option<u32>,
    reason: RemoteServerRestartReason,
    is_terminal: bool,
) -> Confirmation<Seq<char>, Seq<Seq<char>>> {
    if !is_terminal && reason == RemoteServerRestartReason::ProtocolMismatch {
        Confirmation::Refuse {
            message: protocol_refusal(target, protocol, "live handoff or stopping it"@),
        }
    } else if !is_terminal {
        Confirmation::Skip { notice: still_running_notice(target, version) }
    } else {
        Confirmation::Ask {
            lines: running_lines(target, version, protocol) + seq![
                prepared_line(),
                ""@,
                handoff_explanation(reason),
            ],
            prompt: "live-handoff remote panes to the prepared server? [Y/n] "@,
        }
    }
}

/// How the question whether to hand the panes over stands. An answer that does not decline
/// agrees.
pub fn confirm_remote_server_handoff(
    target: &str,
    version: &Option<String>,
    protocol: Option<u32>,
    reason: RemoteServerRestartReason,
    is_terminal: bool,
) -> (r: Confirmation<String, Vec<String>>)
    ensures
        r.deep_view() == handoff_confirmation(
            target@,
            version.deep_view(),
            protocol,
            reason,
            is_terminal,
        ),
{
    if !is_terminal {
        if reason == RemoteServerRestartReason::ProtocolMismatch {
            return Confirmation::Refuse {
                message: protocol_refusal_exec(target, protocol, "live handoff or stopping it"),
            };
        }
        return Confirmation::Skip { notice: still_running_exec(target, version) };
    }
    let mut lines: Vec<String> = running_lines_exec(target, version, protocol);
    let ghost head = lines.deep_view();
    lines.push(prepared_line_exec());
    lines.push("".to_owned());
    let explanation: &str = match reason {
        RemoteServerRestartReason::ProtocolMismatch =>
            "the remote server protocol does not match this client. herdr will try to hand off live pane processes to the prepared remote server before the old server exits.",
        RemoteServerRestartReason::BinaryUpdated =>
            "the remote herdr binary was installed or replaced. herdr will try to hand off live pane processes to the prepared remote server.",
        RemoteServerRestartReason::VersionMismatch =>
            "the remote server is still running a different herdr version. herdr will try to hand off live pane processes to the prepared remote server.",
    };
    lines.push(explanation.to_owned());
    assert(lines.deep_view() =~= head + seq![prepared_line(), ""@, handoff_explanation(reason)]);
    Confirmation::Ask {
        lines,
        prompt: "live-handoff remote panes to the prepared server? [Y/n] ".to_owned(),
    }
}

/// How the question whether to install stands.
pub open spec fn install_confirmation(
    target: Seq<char>,
    shell_path: Seq<char>,
    key: Seq<char>,
    source: Seq<char>,
    policy: RemotePrepPolicy,
    is_terminal: bool,
) -> Confirmation<Seq<char>, Seq<Seq<char>>> {
    if policy == RemotePrepPolicy::NonInteractive {
        Confirmation::Proceed
    } else if !is_terminal {
        Confirmation::Refuse {
            message: "matching remote herdr "@ + FULL_VERSION@ + " is not installed at "@
                + shell_path + "; run from an interactive terminal to approve installation"@,
        }
    } else {
        Confirmation::Ask {
            lines: seq![
                "matching herdr "@ + FULL_VERSION@ + " is not installed on "@ + target + " for "@
                    + key + "."@,
            ],
            prompt: "Install "@ + source + " to "@ + shell_path + "? [Y/n] "@,
        }
    }
}

/// How the question whether to install stands. The running client installs on a fresh host
/// without asking.
pub fn confirm_remote_install(
    target: &str,
    remote_herdr: &RemoteHerdr,
    source_description: &str,
    policy: RemotePrepPolicy,
    is_terminal: bool,
) -> (r: Confirmation<String, Vec<String>>)
    ensures
        r.deep_view() == install_confirmation(
            target@,
            remote_herdr.shell_path@,
            platform_key(remote_herdr.platform.os@, remote_herdr.platform.arch@),
            source_description@,
            policy,
            is_terminal,
        ),
{
    if policy == RemotePrepPolicy::NonInteractive {
        return Confirmation::Proceed;
    }
    if !is_terminal {
        let mut message: String = "matching remote herdr ".to_owned();
        message.append(FULL_VERSION);
        message.append(" is not installed at ");
        message.append(remote_herdr.shell_path.as_str());
        message.append("; run from an interactive terminal to approve installation");
        return Confirmation::Refuse { message };
    }
    let mut line: String = "matching herdr ".to_owned();
    line.append(FULL_VERSION);
    line.append(" is not installed on ");
    line.append(target);
    line.append(" for ");
    line.append(remote_herdr.platform.asset_key().as_str());
    line.append(".");
    let mut lines: Vec<String> = Vec::new();
    lines.push(line);
    let mut prompt: String = "Install ".to_owned();
    prompt.append(source_description);
    prompt.append(" to ");
    prompt.append(remote_herdr.shell_path.as_str());
    prompt.append("? [Y/n] ");
    assert(lines.deep_view() =~= seq![line@]);
    Confirmation::Ask { lines, prompt }
}

/// What an answer to the question whether to install comes to.
pub fn remote_install_answer(answer: &str) -> (r: Result<(), String>)
    ensures
        match r {
            Ok(_) => !is_refusal(answer@),
            Err(e) => is_refusal(answer@) && e@ == "remote herdr installation cancelled"@,
        },
{
    if answer_declines(answer) {
        Err("remote herdr installation cancelled".to_owned())
    } else {
        Ok(())
    }
}

/// What is known of the server on the remote: its status, or why that could not be read.
pub enum ServerInspection<T> {
    NotRunning,
    Running { version: Option<T>, protocol: Option<u32>, live_handoff: bool },
    Failed { error: T },
}

impl DeepView for ServerInspection<String> {
    type V = ServerInspection<Seq<char>>;

    open spec fn deep_view(&self) -> ServerInspection<Seq<char>> {
        match self {
            ServerInspection::NotRunning => ServerInspection::NotRunning,
            ServerInspection::Running {
                version,
                protocol,
                live_handoff,
            } => ServerInspection::Running {
                version: version.deep_view(),
                protocol: *protocol,
                live_handoff: *live_handoff,
            },
            ServerInspection::Failed { error } => ServerInspection::Failed { error: error@ },
        }
    }
}

/// The question before a binary is replaced under a server whose panes would be lost.
pub open spec fn replace_prompt() -> Seq<char> {
    "continue installing the remote herdr binary? [Y/n] "@
}

/// How the question whether to replace the binary under a running server stands.
pub open spec fn replace_confirmation(
    target: Seq<char>,
    inspection: ServerInspection<Seq<char>>,
    live_handoff_enabled: bool,
    policy: RemotePrepPolicy,
    is_terminal: bool,
) -> Confirmation<Seq<char>, Seq<Seq<char>>> {
    if policy == RemotePrepPolicy::NonInteractive {
        Confirmation::Proceed
    } else {
        match inspection {
            ServerInspection::NotRunning => Confirmation::Proceed,
            ServerInspection::Failed { error } => {
                let line = "could not inspect the running remote herdr server on "@ + target
                    + " before installing: "@ + error;
                if is_terminal {
                    Confirmation::Ask { lines: seq![line], prompt: replace_prompt() }
                } else {
                    Confirmation::Refuse {
                        message: line
                            + "; run from an interactive terminal to approve updating the remote binary"@,
                    }
                }
            },
            ServerInspection::Running { version, protocol, live_handoff } => if live_handoff_enabled
                && live_handoff {
                Confirmation::Proceed
            } else if !is_terminal {
                Confirmation::Refuse {
                    message: "remote herdr server on "@ + target + " is running v"@
                        + version_label_of(version) + " protocol "@ + protocol_label_of(protocol)
                        + "; run from an interactive terminal to approve updating the remote binary"@,
                }
            } else {
                Confirmation::Ask {
                    lines: running_lines(target, version, protocol) + seq![
                        "this attach will not preserve running panes unless you pass --handoff and the remote server supports live handoff."@,
                        ""@,
                    ],
                    prompt: replace_prompt(),
                }
            },
        }
    }
}

/// How the question whether to replace the binary under a running server stands. It is only put
/// where panes would be lost, and never by the running client.
pub fn confirm_remote_install_with_running_server(
    target: &str,
    inspection: &ServerInspection<String>,
    live_handoff_enabled: bool,
    policy: RemotePrepPolicy,
    is_terminal: bool,
) -> (r: Confirmation<String, Vec<String>>)
    ensures
        r.deep_view() == replace_confirmation(
            target@,
            inspection.deep_view(),
            live_handoff_enabled,
            policy,
            is_terminal,
        ),
{
    if policy == RemotePrepPolicy::NonInteractive {
        return Confirmation::Proceed;
    }
    match inspection {
        ServerInspection::NotRunning => Confirmation::Proceed,
        ServerInspection::Failed { error } => {
            let mut line: String =
                "could not inspect the running remote herdr server on ".to_owned();
            line.append(target);
            line.append(" before installing: ");
            line.append(error.as_str());
            if !is_terminal {
                line.append(
                    "; run from an interactive terminal to approve updating the remote binary",
                );
                return Confirmation::Refuse { message: line };
            }
            let mut lines: Vec<String> = Vec::new();
            lines.push(line);
            assert(lines.deep_view() =~= seq![line@]);
            Confirmation::Ask {
                lines,
                prompt: "continue installing the remote herdr binary? [Y/n] ".to_owned(),
            }
        },
        ServerInspection::Running { version, protocol, live_handoff } => {
            if live_handoff_enabled && *live_handoff {
                return Confirmation::Proceed;
            }
            if !is_terminal {
                let mut message: String = "remote herdr server on ".to_owned();
                message.append(target);
                message.append(" is running v");
                message.append(version_label(version));
                message.append(" protocol ");
                message.append(protocol_label(*protocol).as_str());
                message.append(
                    "; run from an interactive terminal to approve updating the remote binary",
                );
                return Confirmation::Refuse { message };
            }
            let mut lines: Vec<String> = running_lines_exec(target, version, *protocol);
            let ghost head = lines.deep_view();
            lines.push(
                "this attach will not preserve running panes unless you pass --handoff and the remote server supports live handoff.".to_owned(),
            );
            lines.push("".to_owned());
            assert(lines.deep_view() =~= head + seq![
                "this attach will not preserve running panes unless you pass --handoff and the remote server supports live handoff."@,
                ""@,
            ]);
            Confirmation::Ask {
                lines,
                prompt: "continue installing the remote herdr binary? [Y/n] ".to_owned(),
            }
        },
    }
}

/// What an answer to the question whether to replace the binary comes to.
pub fn remote_replace_answer(answer: &str) -> (r: Result<(), String>)
    ensures
        match r {
            Ok(_) => !is_refusal(answer@),
            Err(e) => is_refusal(answer@) && e@ == "remote herdr install cancelled"@,
        },
{
    if answer_declines(answer) {
        Err("remote herdr install cancelled".to_owned())
    } else {
        Ok(())
    }
}

/// The running client is never asked anything.
pub proof fn law_client_is_never_asked(
    target: Seq<char>,
    shell_path: Seq<char>,
    key: Seq<char>,
    source: Seq<char>,
    inspection: ServerInspection<Seq<char>>,
    live_handoff_enabled: bool,
    is_terminal: bool,
)
    ensures
        install_confirmation(
            target,
            shell_path,
            key,
            source,
            RemotePrepPolicy::NonInteractive,
            is_terminal,
        ) is Proceed,
        replace_confirmation(
            target,
            inspection,
            live_handoff_enabled,
            RemotePrepPolicy::NonInteractive,
            is_terminal,
        ) is Proceed,
{
}

/// Without a terminal no question is put.
pub proof fn law_no_question_without_terminal(
    target: Seq<char>,
    version: Option<Seq<char>>,
    protocol: Option<u32>,
    reason: RemoteServerRestartReason,
    shell_path: Seq<char>,
    key: Seq<char>,
    source: Seq<char>,
    inspection: ServerInspection<Seq<char>>,
    live_handoff_enabled: bool,
    policy: RemotePrepPolicy,
)
    ensures
        !(stop_confirmation(target, version, protocol, reason, false) is Ask),
        !(handoff_confirmation(target, version, protocol, reason, false) is Ask),
        !(install_confirmation(target, shell_path, key, source, policy, false) is Ask),
        !(replace_confirmation(target, inspection, live_handoff_enabled, policy, false) is Ask),
{
}

/// A step on the way to a server that can be attached to.
pub enum ReadyStep<T> {
    /// Attach.
    Done,
    /// Give up.
    Fail { message: T },
    /// Ask whether to hand the panes over; then report the answer.
    AskHandoff,
    /// Hand the panes over; then report how it went.
    RunHandoff,
    /// Ask whether to stop the server; then report the answer.
    AskStop,
    /// Stop the server and attach to the new one.
    StopServer,
}

/// How a step went.
pub enum ReadyEvent<T> {
    Answered { yes: bool },
    HandedOff,
    HandoffFailed { error: T },
}

impl DeepView for ReadyStep<String> {
    type V = ReadyStep<Seq<char>>;

    open spec fn deep_view(&self) -> ReadyStep<Seq<char>> {
        match self {
            ReadyStep::Done => ReadyStep::Done,
            ReadyStep::Fail { message } => ReadyStep::Fail { message: message@ },
            ReadyStep::AskHandoff => ReadyStep::AskHandoff,
            ReadyStep::RunHandoff => ReadyStep::RunHandoff,
            ReadyStep::AskStop => ReadyStep::AskStop,
            ReadyStep::StopServer => ReadyStep::StopServer,
        }
    }
}

impl DeepView for ReadyEvent<String> {
    type V = ReadyEvent<Seq<char>>;

    open spec fn deep_view(&self) -> ReadyEvent<Seq<char>> {
        match self {
            ReadyEvent::Answered { yes } => ReadyEvent::Answered { yes: *yes },
            ReadyEvent::HandedOff => ReadyEvent::HandedOff,
            ReadyEvent::HandoffFailed { error } => ReadyEvent::HandoffFailed { error: error@ },
        }
    }
}

/// Why an out-of-date server cannot be attached to by the client.
pub open spec fn stuck_message(target: Seq<char>, protocol: Option<u32>) -> Seq<char> {
    "remote herdr server on "@ + target + " runs protocol "@ + protocol_label_of(protocol)
        + ", but this client needs protocol "@ + decimal(PROTOCOL_VERSION as nat)
        + ", and it does not support live-handoff. Update the remote herdr (it must be a live-handoff-capable build) and try again."@
}

/// The first step for a running server with this status.
pub open spec fn ready_start_spec(
    target: Seq<char>,
    version: Option<Seq<char>>,
    protocol: Option<u32>,
    live_handoff: bool,
    binary_changed: bool,
    live_handoff_enabled: bool,
    policy: RemotePrepPolicy,
) -> ReadyStep<Seq<char>> {
    let can_handoff = live_handoff_enabled && live_handoff;
    match restart_reason_of(version, protocol, binary_changed) {
        None => ReadyStep::Done,
        Some(reason) => if policy == RemotePrepPolicy::NonInteractive {
            if can_handoff {
                ReadyStep::RunHandoff
            } else if reason == RemoteServerRestartReason::ProtocolMismatch {
                ReadyStep::Fail { message: stuck_message(target, protocol) }
            } else {
                ReadyStep::Done
            }
        } else if can_handoff {
            ReadyStep::AskHandoff
        } else {
            ReadyStep::AskStop
        },
    }
}

/// The first step towards a server that can be attached to, and the reason that calls for it.
pub fn ensure_remote_server_ready(
    target: &str,
    status: &RemoteServerStatus,
    remote_binary_changed: bool,
    live_handoff_enabled: bool,
    policy: RemotePrepPolicy,
) -> (r: (ReadyStep<String>, Option<RemoteServerRestartReason>))
    ensures
        match status {
            RemoteServerStatus::NotRunning => r.0 is Done && r.1 is None,
            RemoteServerStatus::Running { version, protocol, live_handoff } => r.0.deep_view()
                == ready_start_spec(
                target@,
                version.deep_view(),
                *protocol,
                *live_handoff,
                remote_binary_changed,
                live_handoff_enabled,
                policy,
            ) && r.1 == restart_reason_of(version.deep_view(), *protocol, remote_binary_changed),
        },
{
    match status {
        RemoteServerStatus::NotRunning => (ReadyStep::Done, None),
        RemoteServerStatus::Running { version, protocol, live_handoff } => {
            let version_text: Option<&str> = match version {
                Some(v) => Some(v.as_str()),
                None => None,
            };
            let reason: RemoteServerRestartReason = match remote_server_restart_reason(
                version_text,
                *protocol,
                remote_binary_changed,
            ) {
                Some(reason) => reason,
                None => {
                    return (ReadyStep::Done, None);
                },
            };
            if policy == RemotePrepPolicy::NonInteractive {
                let step: ReadyStep<String> = match non_interactive_server_action(
                    reason,
                    live_handoff_enabled,
                    *live_handoff,
                ) {
                    NonInteractiveServerAction::AttachExisting => ReadyStep::Done,
                    NonInteractiveServerAction::LiveHandoff => ReadyStep::RunHandoff,
                    NonInteractiveServerAction::ProtocolStuck => {
                        let mut message: String = "remote herdr server on ".to_owned();
                        message.append(target);
                        message.append(" runs protocol ");
                        message.append(protocol_label(*protocol).as_str());
                        message.append(", but this client needs protocol ");
                        message.append(text::decimal_of(PROTOCOL_VERSION as u128).as_str());
                        message.append(
                            ", and it does not support live-handoff. Update the remote herdr (it must be a live-handoff-capable build) and try again.",
                        );
                        ReadyStep::Fail { message }
                    },
                };
                return (step, Some(reason));
            }
            if live_handoff_enabled && *live_handoff {
                (ReadyStep::AskHandoff, Some(reason))
            } else {
                (ReadyStep::AskStop, Some(reason))
            }
        },
    }
}

/// The step after this one.
pub open spec fn ready_next_spec(
    policy: RemotePrepPolicy,
    reason: RemoteServerRestartReason,
    step: ReadyStep<Seq<char>>,
    event: ReadyEvent<Seq<char>>,
) -> ReadyStep<Seq<char>> {
    match (step, event) {
        (ReadyStep::AskHandoff, ReadyEvent::Answered { yes }) => if yes {
            ReadyStep::RunHandoff
        } else {
            ReadyStep::AskStop
        },
        (ReadyStep::AskStop, ReadyEvent::Answered { yes }) => if yes {
            ReadyStep::StopServer
        } else {
            ReadyStep::Done
        },
        (ReadyStep::RunHandoff, ReadyEvent::HandedOff) => ReadyStep::Done,
        (ReadyStep::RunHandoff, ReadyEvent::HandoffFailed { error }) => if policy
            == RemotePrepPolicy::Interactive {
            ReadyStep::AskStop
        } else if reason == RemoteServerRestartReason::ProtocolMismatch {
            ReadyStep::Fail { message: error }
        } else {
            ReadyStep::Done
        },
        _ => step,
    }
}

/// What is said when a handoff fails.
pub open spec fn handoff_failure_notices(
    policy: RemotePrepPolicy,
    reason: RemoteServerRestartReason,
    error: Seq<char>,
) -> Seq<Seq<char>> {
    if policy == RemotePrepPolicy::Interactive {
        seq![
            "remote live handoff failed: "@ + error,
            "falling back to remote server restart."@,
        ]
    } else if reason == RemoteServerRestartReason::ProtocolMismatch {
        Seq::empty()
    } else {
        seq![
            "remote live handoff failed: "@ + error + "; attaching to the running server."@,
        ]
    }
}

/// The step after this one, and what to say before it. An event that does not belong to the step
/// changes nothing.
pub fn ready_next(
    policy: RemotePrepPolicy,
    reason: RemoteServerRestartReason,
    step: ReadyStep<String>,
    event: ReadyEvent<String>,
) -> (r: (ReadyStep<String>, Vec<String>))
    ensures
        r.0.deep_view() == ready_next_spec(policy, reason, step.deep_view(), event.deep_view()),
        r.1.deep_view() == (match (step.deep_view(), event.deep_view()) {
            (ReadyStep::RunHandoff, ReadyEvent::HandoffFailed { error }) => handoff_failure_notices(
                policy,
                reason,
                error,
            ),
            _ => Seq::empty(),
        }),
{
    let mut notices: Vec<String> = Vec::new();
    assert(notices.deep_view() =~= Seq::<Seq<char>>::empty());
    let next: ReadyStep<String> = match (step, event) {
        (ReadyStep::AskHandoff, ReadyEvent::Answered { yes }) => if yes {
            ReadyStep::RunHandoff
        } else {
            ReadyStep::AskStop
        },
        (ReadyStep::AskStop, ReadyEvent::Answered { yes }) => if yes {
            ReadyStep::StopServer
        } else {
            ReadyStep::Done
        },
        (ReadyStep::RunHandoff, ReadyEvent::HandedOff) => ReadyStep::Done,
        (ReadyStep::RunHandoff, ReadyEvent::HandoffFailed { error }) => {
            let mut notice: String = "remote live handoff failed: ".to_owned();
            notice.append(error.as_str());
            if policy == RemotePrepPolicy::Interactive {
                notices.push(notice);
                notices.push("falling back to remote server restart.".to_owned());
                assert(notices.deep_view() =~= handoff_failure_notices(policy, reason, error@));
                ReadyStep::AskStop
            } else if reason == RemoteServerRestartReason::ProtocolMismatch {
                ReadyStep::Fail { message: error }
            } else {
                notice.append("; attaching to the running server.");
                notices.push(notice);
                assert(notices.deep_view() =~= handoff_failure_notices(policy, reason, error@));
                ReadyStep::Done
            }
        },
        (other, _) => other,
    };
    (next, notices)
}

/// Steps in which the running client may find itself.
pub open spec fn harmless(step: ReadyStep<Seq<char>>) -> bool {
    step is Done || step is Fail || step is RunHandoff
}

/// The running client never asks and never stops a server, whatever happens.
pub proof fn law_client_never_stops_a_server(
    target: Seq<char>,
    version: Option<Seq<char>>,
    protocol: Option<u32>,
    live_handoff: bool,
    binary_changed: bool,
    live_handoff_enabled: bool,
    reason: RemoteServerRestartReason,
    step: ReadyStep<Seq<char>>,
    event: ReadyEvent<Seq<char>>,
)
    ensures
        harmless(
            ready_start_spec(
                target,
                version,
                protocol,
                live_handoff,
                binary_changed,
                live_handoff_enabled,
                RemotePrepPolicy::NonInteractive,
            ),
        ),
        harmless(step) ==> harmless(
            ready_next_spec(RemotePrepPolicy::NonInteractive, reason, step, event),
        ),
{
}

/// The client attaches to a running server without a handoff only where the protocols agree.
pub proof fn law_client_attaches_only_to_its_protocol(
    target: Seq<char>,
    version: Option<Seq<char>>,
    protocol: Option<u32>,
    live_handoff: bool,
    binary_changed: bool,
    live_handoff_enabled: bool,
    policy: RemotePrepPolicy,
)
    ensures
        ready_start_spec(
            target,
            version,
            protocol,
            live_handoff,
            binary_changed,
            live_handoff_enabled,
            policy,
        ) is Done ==> protocol == Some(PROTOCOL_VERSION),
{
}

/// What was found before the preparation of a host begins.
#[derive(Debug, Clone, Copy, PartialEq, Eq, Structural)]
pub struct PrepFacts {
    /// A binary to install was named; nothing that is there already will do.
    pub override_given: bool,
    /// The remote shell finds a herdr.
    pub on_path: bool,
    /// This program has a name of its own, under which the remote may have it.
    pub own_name: bool,
}

/// A binary on the remote.
#[derive(Debug, Clone, Copy, PartialEq, Eq, Structural)]
pub enum Candidate {
    OnPath,
    OwnName,
    Default,
}

/// A step in preparing a host. Each is carried out by the caller, who then reports an outcome:
/// an error, or the answer of the step.
pub enum PrepStep<T> {
    /// Does this binary match?
    Match { candidate: Candidate },
    /// Is there a binary at the default place?
    CheckDefault,
    /// May the binary be replaced, as far as the server that this one reports is concerned?
    ConfirmReplace { candidate: Candidate },
    /// May a binary be installed?
    ConfirmInstall,
    /// Fetch the binary, install it, and clean up.
    Install,
    /// Does the installed binary match?
    MatchInstalled,
    /// Say so if the remote path does not lead to the binary.
    WarnPath,
    Done { candidate: Candidate, installed: bool },
    Fail { message: T },
}

impl DeepView for PrepStep<String> {
    type V = PrepStep<Seq<char>>;

    open spec fn deep_view(&self) -> PrepStep<Seq<char>> {
        match self {
            PrepStep::Match { candidate } => PrepStep::Match { candidate: *candidate },
            PrepStep::CheckDefault => PrepStep::CheckDefault,
            PrepStep::ConfirmReplace { candidate } => PrepStep::ConfirmReplace {
                candidate: *candidate,
            },
            PrepStep::ConfirmInstall => PrepStep::ConfirmInstall,
            PrepStep::Install => PrepStep::Install,
            PrepStep::MatchInstalled => PrepStep::MatchInstalled,
            PrepStep::WarnPath => PrepStep::WarnPath,
            PrepStep::Done { candidate, installed } => PrepStep::Done {
                candidate: *candidate,
                installed: *installed,
            },
            PrepStep::Fail { message } => PrepStep::Fail { message: message@ },
        }
    }
}

/// The step when no binary matched: see to the server that runs, if there may be one.
pub open spec fn prep_no_match<T>(facts: PrepFacts) -> PrepStep<T> {
    if facts.on_path {
        PrepStep::ConfirmReplace { candidate: Candidate::OnPath }
    } else {
        PrepStep::CheckDefault
    }
}

/// The first step.
pub open spec fn prep_start_spec<T>(facts: PrepFacts) -> PrepStep<T> {
    if facts.override_given {
        prep_no_match(facts)
    } else if facts.on_path {
        PrepStep::Match { candidate: Candidate::OnPath }
    } else if facts.own_name {
        PrepStep::Match { candidate: Candidate::OwnName }
    } else {
        PrepStep::Match { candidate: Candidate::Default }
    }
}

/// What is said of an installed binary that does not match.
pub open spec fn installed_mismatch(shell_path: Seq<char>) -> Seq<char> {
    "installed remote herdr at "@ + shell_path + ", but it did not report version "@
        + FULL_VERSION@
}

/// The step after this one. `shell_path` is that of the default place.
pub open spec fn prep_next_spec(
    facts: PrepFacts,
    shell_path: Seq<char>,
    step: PrepStep<Seq<char>>,
    outcome: Result<bool, Seq<char>>,
) -> PrepStep<Seq<char>> {
    let yes = outcome is Ok && outcome->Ok_0;
    match step {
        PrepStep::Match { candidate } => if yes {
            PrepStep::Done { candidate, installed: false }
        } else if candidate == Candidate::OnPath && facts.own_name {
            PrepStep::Match { candidate: Candidate::OwnName }
        } else if candidate != Candidate::Default {
            PrepStep::Match { candidate: Candidate::Default }
        } else {
            match outcome {
                Ok(_) => prep_no_match(facts),
                Err(message) => PrepStep::Fail { message },
            }
        },
        PrepStep::CheckDefault => if yes {
            PrepStep::ConfirmReplace { candidate: Candidate::Default }
        } else {
            PrepStep::ConfirmInstall
        },
        PrepStep::ConfirmReplace { candidate } => match outcome {
            Ok(_) => PrepStep::ConfirmInstall,
            Err(message) => PrepStep::Fail { message },
        },
        PrepStep::ConfirmInstall => match outcome {
            Ok(_) => PrepStep::Install,
            Err(message) => PrepStep::Fail { message },
        },
        PrepStep::Install => match outcome {
            Ok(_) => PrepStep::MatchInstalled,
            Err(message) => PrepStep::Fail { message },
        },
        PrepStep::MatchInstalled => match outcome {
            Ok(matches) => if matches {
                PrepStep::WarnPath
            } else {
                PrepStep::Fail { message: installed_mismatch(shell_path) }
            },
            Err(message) => PrepStep::Fail { message },
        },
        PrepStep::WarnPath => match outcome {
            Ok(_) => PrepStep::Done { candidate: Candidate::Default, installed: true },
            Err(message) => PrepStep::Fail { message },
        },
        _ => step,
    }
}

/// How many steps may still follow.
pub open spec fn prep_rank(step: PrepStep<Seq<char>>) -> nat {
    match step {
        PrepStep::Match { candidate } => match candidate {
            Candidate::OnPath => 9,
            Candidate::OwnName => 8,
            Candidate::Default => 7,
        },
        PrepStep::CheckDefault => 6,
        PrepStep::ConfirmReplace { candidate } => 5,
        PrepStep::ConfirmInstall => 4,
        PrepStep::Install => 3,
        PrepStep::MatchInstalled => 2,
        PrepStep::WarnPath => 1,
        PrepStep::Done { candidate, installed } => 0,
        PrepStep::Fail { message } => 0,
    }
}

/// The first step in preparing a host: a binary that is there and matches is taken, the one on
/// the path first; with a named binary one is installed in any case.
pub fn prepare_remote_herdr(facts: PrepFacts) -> (r: PrepStep<String>)
    ensures
        r.deep_view() == prep_start_spec::<Seq<char>>(facts),
{
    if facts.override_given {
        prepare_without_match(facts)
    } else if facts.on_path {
        PrepStep::Match { candidate: Candidate::OnPath }
    } else if facts.own_name {
        PrepStep::Match { candidate: Candidate::OwnName }
    } else {
        PrepStep::Match { candidate: Candidate::Default }
    }
}

fn prepare_without_match(facts: PrepFacts) -> (r: PrepStep<String>)
    ensures
        r.deep_view() == prep_no_match::<Seq<char>>(facts),
{
    if facts.on_path {
        PrepStep::ConfirmReplace { candidate: Candidate::OnPath }
    } else {
        PrepStep::CheckDefault
    }
}

/// The step after this one. A binary on the path or under the program's own name that cannot be
/// asked counts as one that does not match; elsewhere an error ends the preparation.
pub fn prepare_next(
    facts: PrepFacts,
    remote_herdr: &RemoteHerdr,
    step: PrepStep<String>,
    outcome: Result<bool, String>,
) -> (r: PrepStep<String>)
    ensures
        r.deep_view() == prep_next_spec(
            facts,
            remote_herdr.shell_path@,
            step.deep_view(),
            match outcome {
                Ok(b) => Ok(b),
                Err(e) => Err(e@),
            },
        ),
        prep_rank(step.deep_view()) > 0 ==> prep_rank(r.deep_view()) < prep_rank(step.deep_view()),
{
    match step {
        PrepStep::Match { candidate } => match outcome {
            Ok(true) => PrepStep::Done { candidate, installed: false },
            Ok(false) => match candidate {
                Candidate::OnPath => if facts.own_name {
                    PrepStep::Match { candidate: Candidate::OwnName }
                } else {
                    PrepStep::Match { candidate: Candidate::Default }
                },
                Candidate::OwnName => PrepStep::Match { candidate: Candidate::Default },
                Candidate::Default => prepare_without_match(facts),
            },
            Err(message) => match candidate {
                Candidate::OnPath => if facts.own_name {
                    PrepStep::Match { candidate: Candidate::OwnName }
                } else {
                    PrepStep::Match { candidate: Candidate::Default }
                },
                Candidate::OwnName => PrepStep::Match { candidate: Candidate::Default },
                Candidate::Default => PrepStep::Fail { message },
            },
        },
        PrepStep::CheckDefault => match outcome {
            Ok(true) => PrepStep::ConfirmReplace { candidate: Candidate::Default },
            _ => PrepStep::ConfirmInstall,
        },
        PrepStep::ConfirmReplace { candidate } => match outcome {
            Ok(_) => PrepStep::ConfirmInstall,
            Err(message) => PrepStep::Fail { message },
        },
        PrepStep::ConfirmInstall => match outcome {
            Ok(_) => PrepStep::Install,
            Err(message) => PrepStep::Fail { message },
        },
        PrepStep::Install => match outcome {
            Ok(_) => PrepStep::MatchInstalled,
            Err(message) => PrepStep::Fail { message },
        },
        PrepStep::MatchInstalled => match outcome {
            Ok(true) => PrepStep::WarnPath,
            Ok(false) => {
                let mut message: String = "installed remote herdr at ".to_owned();
                message.append(remote_herdr.shell_path.as_str());
                message.append(", but it did not report version ");
                message.append(FULL_VERSION);
                PrepStep::Fail { message }
            },
            Err(message) => PrepStep::Fail { message },
        },
        PrepStep::WarnPath => match outcome {
            Ok(_) => PrepStep::Done { candidate: Candidate::Default, installed: true },
            Err(message) => PrepStep::Fail { message },
        },
        PrepStep::Done { candidate, installed } => PrepStep::Done { candidate, installed },
        PrepStep::Fail { message } => PrepStep::Fail { message },
    }
}

/// The steps from a step on, given the outcome of each.
pub open spec fn prep_run(
    facts: PrepFacts,
    shell_path: Seq<char>,
    step: PrepStep<Seq<char>>,
    outcomes: Seq<Result<bool, Seq<char>>>,
) -> PrepStep<Seq<char>>
    decreases outcomes.len(),
{
    if outcomes.len() == 0 {
        step
    } else {
        prep_run(
            facts,
            shell_path,
            prep_next_spec(facts, shell_path, step, outcomes[0]),
            outcomes.drop_first(),
        )
    }
}

/// Steps at which a binary that was there already can no longer be taken.
pub open spec fn past_matching(step: PrepStep<Seq<char>>) -> bool {
    match step {
        PrepStep::Match { candidate } => false,
        PrepStep::Done { candidate, installed } => installed,
        _ => true,
    }
}

proof fn lemma_past_matching(
    facts: PrepFacts,
    shell_path: Seq<char>,
    step: PrepStep<Seq<char>>,
    outcomes: Seq<Result<bool, Seq<char>>>,
)
    requires
        past_matching(step),
    ensures
        past_matching(prep_run(facts, shell_path, step, outcomes)),
    decreases outcomes.len(),
{
    if outcomes.len() > 0 {
        lemma_past_matching(
            facts,
            shell_path,
            prep_next_spec(facts, shell_path, step, outcomes[0]),
            outcomes.drop_first(),
        );
    }
}

/// Where a binary to install was named, the preparation never ends with one that was there
/// already.
pub proof fn law_override_is_always_installed(
    facts: PrepFacts,
    shell_path: Seq<char>,
    outcomes: Seq<Result<bool, Seq<char>>>,
)
    requires
        facts.override_given,
    ensures
        past_matching(prep_run(facts, shell_path, prep_start_spec(facts), outcomes)),
{
    lemma_past_matching(facts, shell_path, prep_start_spec(facts), outcomes);
}

/// After nine outcomes the preparation has ended.
pub proof fn law_preparation_ends(
    facts: PrepFacts,
    shell_path: Seq<char>,
    step: PrepStep<Seq<char>>,
    outcomes: Seq<Result<bool, Seq<char>>>,
)
    requires
        outcomes.len() >= prep_rank(step),
    ensures
        prep_rank(prep_run(facts, shell_path, step, outcomes)) == 0,
        prep_rank(step) <= 9,
    decreases outcomes.len(),
{
    if outcomes.len() > 0 {
        law_preparation_ends(
            facts,
            shell_path,
            prep_next_spec(facts, shell_path, step, outcomes[0]),
            outcomes.drop_first(),
        );
    }
}

/// Nothing is installed but after the question whether to install was answered without an error.
pub proof fn law_install_follows_consent(
    facts: PrepFacts,
    shell_path: Seq<char>,
    step: PrepStep<Seq<char>>,
    outcome: Result<bool, Seq<char>>,
)
    requires
        prep_next_spec(facts, shell_path, step, outcome) is Install,
    ensures
        step is Install || (step is ConfirmInstall && outcome is Ok),
{
}

/// The binary that is to be installed, and the directory to remove afterwards.
#[derive(Debug, PartialEq, Eq)]
pub struct InstallSource {
    pub path: String,
    pub temporary_dir: Option<String>,
}

impl InstallSource {
    /// A binary that stays.
    pub fn persistent(path: String) -> (r: Self)
        ensures
            r.path@ == path@,
            r.temporary_dir is None,
    {
        InstallSource { path, temporary_dir: None }
    }

    /// A binary in a directory that goes away afterwards.
    pub fn temporary(path: String, temporary_dir: String) -> (r: Self)
        ensures
            r.path@ == path@,
            r.temporary_dir.deep_view() == Some(temporary_dir@),
    {
        InstallSource { path, temporary_dir: Some(temporary_dir) }
    }
}

/// The program that runs here: its path, and whether a package manager owns it.
#[derive(Debug)]
pub struct CurrentExe {
    pub path: String,
    pub managed: bool,
}

/// Whether the running program can be copied to a host of this platform. `exe` is `None` where
/// its path cannot be told.
pub fn local_binary_can_seed_remote(
    platform: &RemotePlatform,
    local: &RemotePlatform,
    exe: &Option<CurrentExe>,
) -> (r: bool)
    ensures
        r == (platform.os@ == local.os@ && platform.arch@ == local.arch@ && exe is Some
            && !exe->0.managed),
{
    match exe {
        Some(e) => platform.same_as(local) && !e.managed,
        None => false,
    }
}

/// What is known of a file that was named.
#[derive(Debug, PartialEq, Eq)]
pub enum NamedFile {
    File,
    NoFile,
    /// It cannot be looked at.
    Hidden { error: String },
}

/// What is wrong with a named binary, if anything.
pub open spec fn override_fault(path: Seq<char>, found: NamedFile) -> Option<Seq<char>> {
    if path.len() == 0 {
        Some(REMOTE_BINARY_ENV_VAR@ + " must not be empty"@)
    } else {
        match found {
            NamedFile::File => None,
            NamedFile::NoFile => Some(
                REMOTE_BINARY_ENV_VAR@ + " path is not a file: "@ + path,
            ),
            NamedFile::Hidden { error } => Some(
                "failed to inspect "@ + REMOTE_BINARY_ENV_VAR@ + " path "@ + path + ": "@ + error@,
            ),
        }
    }
}

/// The binary that the user named to be installed, which must be a file.
pub fn remote_binary_override_path(value: Option<String>, found: &NamedFile) -> (r: Result<
    Option<String>,
    String,
>)
    ensures
        match value {
            None => r == Ok::<Option<String>, String>(None),
            Some(path) => match override_fault(path@, *found) {
                None => r == Ok::<Option<String>, String>(Some(path)),
                Some(fault) => r is Err && r->Err_0@ == fault,
            },
        },
{
    let path: String = match value {
        Some(path) => path,
        None => {
            return Ok(None);
        },
    };
    if path.as_str().is_empty() {
        let mut fault: String = REMOTE_BINARY_ENV_VAR.to_owned();
        fault.append(" must not be empty");
        return Err(fault);
    }
    match found {
        NamedFile::File => Ok(Some(path)),
        NamedFile::NoFile => {
            let mut fault: String = REMOTE_BINARY_ENV_VAR.to_owned();
            fault.append(" path is not a file: ");
            fault.append(path.as_str());
            Err(fault)
        },
        NamedFile::Hidden { error } => {
            let mut fault: String = "failed to inspect ".to_owned();
            fault.append(REMOTE_BINARY_ENV_VAR);
            fault.append(" path ");
            fault.append(path.as_str());
            fault.append(": ");
            fault.append(error.as_str());
            Err(fault)
        },
    }
}

/// What is installed: the named binary; else the running program, where the platform is the same
/// and no package manager owns it; else, as `None`, a download.
pub fn resolve_install_source(
    platform: &RemotePlatform,
    local: &RemotePlatform,
    override_binary: Option<String>,
    exe: &CurrentExe,
) -> (r: Option<InstallSource>)
    ensures
        match override_binary {
            Some(path) => r is Some && r->0.path@ == path@ && r->0.temporary_dir is None,
            None => if platform.os@ == local.os@ && platform.arch@ == local.arch@ && !exe.managed {
                r is Some && r->0.path@ == exe.path@ && r->0.temporary_dir is None
            } else {
                r is None
            },
        },
{
    match override_binary {
        Some(path) => Some(InstallSource::persistent(path)),
        None => {
            if platform.same_as(local) && !exe.managed {
                Some(InstallSource::persistent(exe.path.clone()))
            } else {
                None
            }
        },
    }
}

/// How a source of an installation is described to the user.
pub open spec fn source_description(
    key: Seq<char>,
    override_binary: Option<Seq<char>>,
    can_seed: bool,
) -> Seq<char> {
    match override_binary {
        Some(path) => REMOTE_BINARY_ENV_VAR@ + " ("@ + path + ")"@,
        None => if can_seed {
            "the current local herdr binary"@
        } else {
            "the "@ + FULL_VERSION@ + " release asset for "@ + key
        },
    }
}

/// The binary for a platform that this program carries, where the bundle is of this version.
pub fn bundled_install_source<'a>(index: &'a BundleIndex, platform: &RemotePlatform) -> (r: Option<
    &'a BundleEntry,
>)
    ensures
        match r {
            Some(entry) => index.herdr_version@ == FULL_VERSION@ && exists|i: int|
                0 <= i < index.entries@.len() && *entry == index.entries@[i] && is_for(
                    #[trigger] index.deep_view().entries[i],
                    platform.os@,
                    platform.arch@,
                ) && forall|j: int|
                    0 <= j < i ==> !is_for(
                        #[trigger] index.deep_view().entries[j],
                        platform.os@,
                        platform.arch@,
                    ),
            None => index.herdr_version@ == FULL_VERSION@ ==> forall|i: int|
                0 <= i < index.entries@.len() ==> !is_for(
                    #[trigger] index.deep_view().entries[i],
                    platform.os@,
                    platform.arch@,
                ),
        },
{
    if !text::same(index.herdr_version.as_str(), FULL_VERSION) {
        return None;
    }
    index.entry_for(platform.os, platform.arch)
}

/// Where a binary comes from when neither a named one nor the running program can be installed.
#[derive(Debug)]
pub enum FallbackSource<'a> {
    /// This program carries it.
    Carried(&'a BundleEntry),
    /// The release that matches this program is downloaded.
    Download,
}

/// The first of the carried binaries that is for a platform.
pub open spec fn carried_for(
    entries: Seq<EntryView>,
    os: Seq<char>,
    arch: Seq<char>,
) -> Option<int>
    decreases entries.len(),
{
    if entries.len() == 0 {
        None
    } else if is_for(entries[0], os, arch) {
        Some(0)
    } else {
        match carried_for(entries.drop_first(), os, arch) {
            Some(i) => Some(i + 1),
            None => None,
        }
    }
}

proof fn lemma_carried_for(entries: Seq<EntryView>, os: Seq<char>, arch: Seq<char>)
    ensures
        match carried_for(entries, os, arch) {
            Some(i) => 0 <= i < entries.len() && is_for(entries[i], os, arch) && forall|j: int|
                0 <= j < i ==> !is_for(#[trigger] entries[j], os, arch),
            None => forall|j: int|
                0 <= j < entries.len() ==> !is_for(#[trigger] entries[j], os, arch),
        },
    decreases entries.len(),
{
    if entries.len() > 0 && !is_for(entries[0], os, arch) {
        let rest = entries.drop_first();
        lemma_carried_for(rest, os, arch);
        match carried_for(rest, os, arch) {
            Some(i) => {
                assert forall|j: int| 0 <= j < i + 1 implies !is_for(
                    #[trigger] entries[j],
                    os,
                    arch,
                ) by {
                    if j > 0 {
                        assert(rest[j - 1] == entries[j]);
                    }
                }
            },
            None => {
                assert forall|j: int| 0 <= j < entries.len() implies !is_for(
                    #[trigger] entries[j],
                    os,
                    arch,
                ) by {
                    if j > 0 {
                        assert(rest[j - 1] == entries[j]);
                    }
                }
            },
        }
    }
}

/// Where the binary for a platform comes from when nothing local can be installed: a carried one
/// of this very version goes before a download, so that a host of another platform is seeded
/// without one. `index` lists what this program carries, `None` where it carries nothing.
pub fn fallback_install_source<'a>(index: Option<&'a BundleIndex>, platform: &RemotePlatform) -> (r:
    FallbackSource<'a>)
    ensures
        match index {
            Some(carried) => match carried_for(
                carried.deep_view().entries,
                platform.os@,
                platform.arch@,
            ) {
                Some(i) => if carried.herdr_version@ == FULL_VERSION@ {
                    r is Carried && *(r->Carried_0) == carried.entries@[i]
                } else {
                    r is Download
                },
                None => r is Download,
            },
            None => r is Download,
        },
{
    match index {
        Some(carried) => {
            proof {
                lemma_carried_for(carried.deep_view().entries, platform.os@, platform.arch@);
                assert(carried.deep_view().entries.len() == carried.entries@.len());
            }
            match bundled_install_source(carried, platform) {
                Some(entry) => FallbackSource::Carried(entry),
                None => FallbackSource::Download,
            }
        },
        None => FallbackSource::Download,
    }
}

/// How a source of an installation is described to the user.
pub fn install_source_description_for(
    platform: &RemotePlatform,
    override_binary: Option<&str>,
    local_binary_can_seed_remote: bool,
) -> (r: String)
    ensures
        r@ == source_description(
            platform_key(platform.os@, platform.arch@),
            override_binary.deep_view(),
            local_binary_can_seed_remote,
        ),
{
    match override_binary {
        Some(path) => {
            let mut line: String = REMOTE_BINARY_ENV_VAR.to_owned();
            line.append(" (");
            line.append(path);
            line.append(")");
            line
        },
        None => {
            if local_binary_can_seed_remote {
                return "the current local herdr binary".to_owned();
            }
            let mut line: String = "the ".to_owned();
            line.append(FULL_VERSION);
            line.append(" release asset for ");
            line.append(platform.asset_key().as_str());
            line
        },
    }
}

/// How the wait for a server to stop goes on.
pub enum ShutdownPoll<T> {
    Stopped,
    TimedOut { message: T },
    /// Ask again after this many milliseconds.
    Wait { millis: u64 },
}

/// How long a server may take to stop, in milliseconds.
pub const SHUTDOWN_TIMEOUT_MILLIS: u64 = 5000;

/// How often a stopping server is asked, in milliseconds.
pub const SHUTDOWN_POLL_MILLIS: u64 = 100;

/// What is said of a server that does not stop.
pub open spec fn shutdown_timeout_message(target: Seq<char>) -> Seq<char> {
    "shutdown was requested, but the old remote herdr server on "@ + target
        + " is still responding after "@ + decimal(5) + " seconds"@
}

/// How the wait for a server to stop goes on, after `elapsed_millis` of it.
pub fn wait_for_remote_server_shutdown(
    target: &str,
    status: &RemoteServerStatus,
    elapsed_millis: u64,
) -> (r: ShutdownPoll<String>)
    ensures
        match r {
            ShutdownPoll::Stopped => status is NotRunning,
            ShutdownPoll::TimedOut { message } => !(status is NotRunning) && elapsed_millis
                >= SHUTDOWN_TIMEOUT_MILLIS && message@ == shutdown_timeout_message(target@),
            ShutdownPoll::Wait { millis } => !(status is NotRunning) && elapsed_millis
                < SHUTDOWN_TIMEOUT_MILLIS && millis == SHUTDOWN_POLL_MILLIS,
        },
{
    match status {
        RemoteServerStatus::NotRunning => ShutdownPoll::Stopped,
        RemoteServerStatus::Running { version, protocol, live_handoff } => {
            if elapsed_millis < SHUTDOWN_TIMEOUT_MILLIS {
                return ShutdownPoll::Wait { millis: SHUTDOWN_POLL_MILLIS };
            }
            let mut message: String =
                "shutdown was requested, but the old remote herdr server on ".to_owned();
            message.append(target);
            message.append(" is still responding after ");
            message.append(text::decimal_of(5).as_str());
            message.append(" seconds");
            ShutdownPoll::TimedOut { message }
        },
    }
}

/// Whether a bridge on the remote may use the server that listens there, or why not.
pub fn bridge_server_check(protocol: Option<u32>) -> (r: Result<(), String>)
    ensures
        match r {
            Ok(_) => protocol == Some(PROTOCOL_VERSION),
            Err(e) => protocol != Some(PROTOCOL_VERSION) && e@
                == "remote herdr server is running with protocol "@ + protocol_label_of(protocol)
                + ", but this bridge needs protocol "@ + decimal(PROTOCOL_VERSION as nat)
                + "; rerun `herdr --remote` from an interactive terminal to approve stopping it"@,
        },
{
    let same: bool = match protocol {
        Some(p) => p == PROTOCOL_VERSION,
        None => false,
    };
    if same {
        return Ok(());
    }
    let mut e: String = "remote herdr server is running with protocol ".to_owned();
    e.append(protocol_label(protocol).as_str());
    e.append(", but this bridge needs protocol ");
    e.append(text::decimal_of(PROTOCOL_VERSION as u128).as_str());
    e.append("; rerun `herdr --remote` from an interactive terminal to approve stopping it");
    Err(e)
}

/// What is said of a command that failed: what it wrote to its error output, or its status.
pub open spec fn failure_text(
    context: Seq<char>,
    stderr: Seq<char>,
    status: Seq<char>,
) -> Seq<char> {
    context + ": "@ + (if trim_spec(stderr).len() == 0 {
        status
    } else {
        trim_spec(stderr)
    })
}

/// What is said of a command that failed.
pub fn command_failed(context: &str, stderr: &str, status: &str) -> (r: String)
    ensures
        r@ == failure_text(context@, stderr@, status@),
{
    let mut line: String = context.to_owned();
    line.append(": ");
    let trimmed: &str = text::trim(stderr);
    if trimmed.is_empty() {
        line.append(status);
    } else {
        line.append(trimmed);
    }
    line
}

/// The command that hands the panes of the running server to the prepared binary.
pub fn live_handoff_command(remote_herdr: &RemoteHerdr) -> (r: String)
    ensures
        r@ == remote_herdr.shell_path@ + " server live-handoff --import-exe "@
            + remote_herdr.shell_path@ + " --expected-protocol "@ + decimal(PROTOCOL_VERSION as nat)
            + " --expected-version "@ + FULL_VERSION@,
{
    let mut command: String = remote_herdr.shell_path.clone();
    command.append(" server live-handoff --import-exe ");
    command.append(remote_herdr.shell_path.as_str());
    command.append(" --expected-protocol ");
    command.append(text::decimal_of(PROTOCOL_VERSION as u128).as_str());
    command.append(" --expected-version ");
    command.append(FULL_VERSION);
    command
}

/// The script that writes its input to the place of the binary, and makes it executable, in one
/// move.
pub open spec fn install_script_of(suffix: Seq<char>) -> Seq<char> {
    "dest=\"$HOME/"@ + suffix
        + "\"\ndir=\"${dest%/*}\"\nmkdir -p \"$dir\"\ntmp=\"${dest}.tmp.$$\"\ncat > \"$tmp\"\nchmod 755 \"$tmp\"\nmv \"$tmp\" \"$dest\"\n"@
}

/// The command that installs a binary from its input.
pub fn install_command(remote_herdr: &RemoteHerdr) -> (r: String)
    ensures
        r@ == "sh -eu -c "@ + crate::remote::shell_quote_spec(
            install_script_of(remote_herdr.install_suffix@),
        ),
{
    let mut script: String = "dest=\"$HOME/".to_owned();
    script.append(remote_herdr.install_suffix.as_str());
    script.append(
        "\"\ndir=\"${dest%/*}\"\nmkdir -p \"$dir\"\ntmp=\"${dest}.tmp.$$\"\ncat > \"$tmp\"\nchmod 755 \"$tmp\"\nmv \"$tmp\" \"$dest\"\n",
    );
    let mut command: String = "sh -eu -c ".to_owned();
    command.append(crate::remote::shell_quote(script.as_str()).as_str());
    command
}

/// The name of a download directory.
pub fn download_dir_name(pid: u32, asset_key: &str, attempt: u32) -> (r: String)
    ensures
        r@ == "herdr-remote-"@ + decimal(pid as nat) + "-"@ + asset_key@ + "-"@ + decimal(
            attempt as nat,
        ),
{
    let mut name: String = "herdr-remote-".to_owned();
    name.append(text::decimal_of(pid as u128).as_str());
    name.append("-");
    name.append(asset_key);
    name.append("-");
    name.append(text::decimal_of(attempt as u128).as_str());
    name
}

} // verus!
