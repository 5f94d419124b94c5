//! How a remote host is made ready: what is asked, what is done without asking, and what never
//! happens.

use vstd::prelude::*;

use crate::bundle::EntryView;
use crate::remote::{RemoteHerdr, RemotePlatform};
use crate::laws::commands::law_handoff_options;
use crate::remote_prep::{
    carried_for, failure_text, handoff_confirmation, handoff_failure_notices, install_confirmation,
    is_refusal, live_handoff_command, override_fault, prep_next_spec, prep_start_spec,
    protocol_label_of, ready_next_spec, ready_start_spec, replace_confirmation,
    resolve_install_source, restart_reason_of, source_description, stop_confirmation,
    version_label_of, wait_for_remote_server_shutdown, Candidate, CurrentExe, InstallSource,
    NamedFile, PrepFacts, PrepStep, ReadyEvent, ReadyStep, RemotePrepPolicy,
    RemoteServerRestartReason, RemoteServerStatus, ServerInspection, ShutdownPoll,
};
use crate::server_cli::{handoff_params_of, no_params, with_defaults};
use crate::text::{decimal, join_spec, lower_spec, trim_spec};

verus! {

/// A server is left alone only where it speaks this client's protocol, runs a binary that was not
/// replaced and is of this version; another protocol weighs most, then a replaced binary.
pub proof fn law_why_a_server_is_restarted(
    version: Option<Seq<char>>,
    protocol: Option<u32>,
    changed: bool,
)
    ensures
        restart_reason_of(version, protocol, changed) is None <==> protocol == Some(11u32)
            && !changed && version == Some("0.6.10-mx.1"@),
        protocol != Some(11u32) ==> restart_reason_of(version, protocol, changed) == Some(
            RemoteServerRestartReason::ProtocolMismatch,
        ),
        protocol == Some(11u32) && changed ==> restart_reason_of(version, protocol, changed)
            == Some(RemoteServerRestartReason::BinaryUpdated),
        protocol == Some(11u32) && !changed && version != Some("0.6.10-mx.1"@)
            ==> restart_reason_of(version, protocol, changed) == Some(
            RemoteServerRestartReason::VersionMismatch,
        ),
        version_label_of(None) == "unknown"@,
        version is Some ==> version_label_of(version) == version->0,
        protocol_label_of(None) == "unknown"@,
        protocol is Some ==> protocol_label_of(protocol) == decimal(protocol->0 as nat),
{
}

/// An answer refuses only where it is `n` or `no`, in small letters or large, with or without
/// space around it; anything else, and nothing at all, agrees.
pub proof fn law_answers(answer: Seq<char>)
    ensures
        trim_spec(answer) == seq!['n'] || trim_spec(answer) == seq!['N'] ==> is_refusal(answer),
        trim_spec(answer) == seq!['n', 'o'] || trim_spec(answer) == seq!['N', 'O'] || trim_spec(
            answer,
        ) == seq!['N', 'o'] ==> is_refusal(answer),
        is_refusal(answer) ==> 1 <= trim_spec(answer).len() <= 2 && (trim_spec(answer)[0] == 'n'
            || trim_spec(answer)[0] == 'N'),
        trim_spec(answer).len() == 0 ==> !is_refusal(answer),
{
    reveal_strlit("n");
    reveal_strlit("no");
    let t = trim_spec(answer);
    let word = t.map_values(|c: char| lower_spec(c));
    if t == seq!['n'] || t == seq!['N'] {
        assert(word =~= "n"@);
    }
    if t == seq!['n', 'o'] || t == seq!['N', 'O'] || t == seq!['N', 'o'] {
        assert(word =~= "no"@);
    }
    if is_refusal(answer) {
        assert(word =~= "n"@ || word =~= "no"@);
        assert(word.len() == t.len());
        assert(word[0] == 'n');
        assert(word[0] == lower_spec(t[0]));
        lemma_lower_n(t[0]);
    }
}

proof fn lemma_lower_n(c: char)
    requires
        lower_spec(c) == 'n',
    ensures
        c == 'n' || c == 'N',
{
}

/// A server is stopped only after a question on a terminal, which tells the host, what runs there
/// and what would run; without a terminal the attach fails where the protocols differ, and
/// otherwise goes on with the running server and says so.
pub proof fn law_stop_is_asked_for(
    target: Seq<char>,
    version: Option<Seq<char>>,
    protocol: Option<u32>,
    reason: RemoteServerRestartReason,
)
    ensures
        ({
            let asked = stop_confirmation(target, version, protocol, reason, true);
            &&& asked is Ask
            &&& asked->lines.len() == 5
            &&& asked->lines[0] == "remote herdr server on "@ + target
                + " is currently running:"@
            &&& asked->lines[1] == "  server: v"@ + version_label_of(version) + " protocol "@
                + protocol_label_of(protocol)
            &&& asked->lines[2] == "  prepared binary: v"@ + "0.6.10-mx.1"@ + " protocol "@
                + decimal(11)
            &&& reason is ProtocolMismatch ==> asked->prompt
                == "stop the remote server and continue attaching? [Y/n] "@
            &&& !(reason is ProtocolMismatch) ==> asked->prompt
                == "restart the remote server now? [Y/n] "@
        }),
        reason is ProtocolMismatch ==> stop_confirmation(
            target,
            version,
            protocol,
            reason,
            false,
        ) is Refuse,
        !(reason is ProtocolMismatch) ==> stop_confirmation(
            target,
            version,
            protocol,
            reason,
            false,
        ) is Skip,
{
}

/// Why an attach cannot go on without a terminal is told in full: the host, the protocol that runs
/// there, the one that is needed, and what would have to be agreed to; and where it goes on with an
/// older server, that is told too.
pub proof fn law_refusals_say_why(
    target: Seq<char>,
    version: Option<Seq<char>>,
    protocol: Option<u32>,
    reason: RemoteServerRestartReason,
    shell_path: Seq<char>,
    key: Seq<char>,
    source: Seq<char>,
)
    ensures
        ({
            let told = "remote herdr server on "@ + target + " is running with protocol "@
                + protocol_label_of(protocol) + ", but this client needs protocol "@ + decimal(11)
                + "; run from an interactive terminal to approve "@;
            &&& reason is ProtocolMismatch ==> stop_confirmation(
                target,
                version,
                protocol,
                reason,
                false,
            )->message == told + "stopping it"@
            &&& reason is ProtocolMismatch ==> handoff_confirmation(
                target,
                version,
                protocol,
                reason,
                false,
            )->message == told + "live handoff or stopping it"@
        }),
        ({
            let told = "remote herdr server on "@ + target + " is still running v"@
                + version_label_of(version) + "; it will use v"@ + "0.6.10-mx.1"@
                + " after it restarts."@;
            &&& !(reason is ProtocolMismatch) ==> stop_confirmation(
                target,
                version,
                protocol,
                reason,
                false,
            )->notice == told
            &&& !(reason is ProtocolMismatch) ==> handoff_confirmation(
                target,
                version,
                protocol,
                reason,
                false,
            )->notice == told
        }),
        install_confirmation(
            target,
            shell_path,
            key,
            source,
            RemotePrepPolicy::Interactive,
            false,
        )->message == "matching remote herdr "@ + "0.6.10-mx.1"@ + " is not installed at "@
            + shell_path + "; run from an interactive terminal to approve installation"@,
        ready_start_spec(
            target,
            version,
            Some(10u32),
            false,
            false,
            true,
            RemotePrepPolicy::NonInteractive,
        )->message == "remote herdr server on "@ + target + " runs protocol "@ + decimal(10)
            + ", but this client needs protocol "@ + decimal(11)
            + ", and it does not support live-handoff. Update the remote herdr (it must be a live-handoff-capable build) and try again."@,
        crate::remote_prep::shutdown_timeout_message(target)
            == "shutdown was requested, but the old remote herdr server on "@ + target
            + " is still responding after "@ + decimal(5) + " seconds"@,
{
}

/// Each reason for a restart is explained in its own words, and all of them differ.
pub proof fn law_reasons_are_explained(
    target: Seq<char>,
    version: Option<Seq<char>>,
    protocol: Option<u32>,
)
    ensures
        ({
            let a = stop_confirmation(
                target,
                version,
                protocol,
                RemoteServerRestartReason::ProtocolMismatch,
                true,
            )->lines[4];
            let b = stop_confirmation(
                target,
                version,
                protocol,
                RemoteServerRestartReason::BinaryUpdated,
                true,
            )->lines[4];
            let c = stop_confirmation(
                target,
                version,
                protocol,
                RemoteServerRestartReason::VersionMismatch,
                true,
            )->lines[4];
            &&& a
                == "the remote server protocol does not match this client. the remote server must be stopped before attaching."@
            &&& b
                == "the remote herdr binary was installed or replaced. restart the remote server so it uses the prepared binary."@
            &&& c
                == "the remote server is still running a different herdr version. restart it so it uses the prepared binary."@
        }),
        ({
            let a = handoff_confirmation(
                target,
                version,
                protocol,
                RemoteServerRestartReason::ProtocolMismatch,
                true,
            )->lines[4];
            let b = handoff_confirmation(
                target,
                version,
                protocol,
                RemoteServerRestartReason::BinaryUpdated,
                true,
            )->lines[4];
            let c = handoff_confirmation(
                target,
                version,
                protocol,
                RemoteServerRestartReason::VersionMismatch,
                true,
            )->lines[4];
            &&& a
                == "the remote server protocol does not match this client. herdr will try to hand off live pane processes to the prepared remote server before the old server exits."@
            &&& b
                == "the remote herdr binary was installed or replaced. herdr will try to hand off live pane processes to the prepared remote server."@
            &&& c
                == "the remote server is still running a different herdr version. herdr will try to hand off live pane processes to the prepared remote server."@
        }),
{
}

/// A handoff is asked for in the same way.
pub proof fn law_handoff_is_asked_for(
    target: Seq<char>,
    version: Option<Seq<char>>,
    protocol: Option<u32>,
    reason: RemoteServerRestartReason,
)
    ensures
        ({
            let asked = handoff_confirmation(target, version, protocol, reason, true);
            &&& asked is Ask
            &&& asked->lines.len() == 5
            &&& asked->lines[0] == "remote herdr server on "@ + target
                + " is currently running:"@
            &&& asked->lines[1] == "  server: v"@ + version_label_of(version) + " protocol "@
                + protocol_label_of(protocol)
            &&& asked->prompt == "live-handoff remote panes to the prepared server? [Y/n] "@
        }),
        reason is ProtocolMismatch ==> handoff_confirmation(
            target,
            version,
            protocol,
            reason,
            false,
        ) is Refuse,
        !(reason is ProtocolMismatch) ==> handoff_confirmation(
            target,
            version,
            protocol,
            reason,
            false,
        ) is Skip,
{
}

/// A shell's user is asked before a binary is installed, and told what goes where; without a
/// terminal nothing is installed.
pub proof fn law_install_is_asked_for(
    target: Seq<char>,
    shell_path: Seq<char>,
    key: Seq<char>,
    source: Seq<char>,
)
    ensures
        ({
            let asked = install_confirmation(
                target,
                shell_path,
                key,
                source,
                RemotePrepPolicy::Interactive,
                true,
            );
            &&& asked is Ask
            &&& asked->prompt == "Install "@ + source + " to "@ + shell_path + "? [Y/n] "@
            &&& asked->lines.len() == 1
            &&& asked->lines[0] == "matching herdr "@ + "0.6.10-mx.1"@ + " is not installed on "@
                + target + " for "@ + key + "."@
        }),
        install_confirmation(
            target,
            shell_path,
            key,
            source,
            RemotePrepPolicy::Interactive,
            false,
        ) is Refuse,
{
}

/// A binary under a running server is replaced without a question only where no server runs, or
/// where its panes will be handed over; else the user is asked, and without a terminal it is
/// refused.
pub proof fn law_replacing_is_asked_for(
    target: Seq<char>,
    inspection: ServerInspection<Seq<char>>,
    enabled: bool,
    is_terminal: bool,
)
    ensures
        ({
            let r = replace_confirmation(
                target,
                inspection,
                enabled,
                RemotePrepPolicy::Interactive,
                is_terminal,
            );
            let free = inspection is NotRunning || (inspection is Running && enabled
                && inspection->live_handoff);
            &&& free <==> r is Proceed
            &&& !free && is_terminal ==> r is Ask && r->prompt
                == "continue installing the remote herdr binary? [Y/n] "@
            &&& !free && !is_terminal ==> r is Refuse
        }),
{
}

/// How a server is made ready: nothing is to be done where nothing differs. A shell's user is
/// asked for a handoff where one is wanted and can be had, and else whether to stop the server;
/// the client hands over where it can, fails where only the protocols differ, and else attaches.
pub proof fn law_how_a_server_is_made_ready(
    target: Seq<char>,
    version: Option<Seq<char>>,
    protocol: Option<u32>,
    live_handoff: bool,
    changed: bool,
    enabled: bool,
    policy: RemotePrepPolicy,
)
    ensures
        ({
            let step = ready_start_spec(
                target,
                version,
                protocol,
                live_handoff,
                changed,
                enabled,
                policy,
            );
            let same = protocol == Some(11u32) && !changed && version == Some("0.6.10-mx.1"@);
            &&& same ==> step is Done
            &&& !same && policy is Interactive && enabled && live_handoff ==> step is AskHandoff
            &&& !same && policy is Interactive && !(enabled && live_handoff) ==> step is AskStop
            &&& !same && policy is NonInteractive && enabled && live_handoff
                ==> step is RunHandoff
            &&& policy is NonInteractive && !(enabled && live_handoff) && protocol != Some(11u32)
                ==> step is Fail
            &&& policy is NonInteractive && !(enabled && live_handoff) && protocol == Some(11u32)
                ==> step is Done
        }),
{
}

/// What follows an answer: a handoff that is agreed to is run, one that is refused leads to the
/// question whether to stop the server; a stop that is agreed to is carried out. A handoff that
/// worked is the end; one that failed leads a shell's user to that question, and the client to a
/// failure where the protocols differ and to the running server where they do not.
pub proof fn law_what_follows_an_answer(
    policy: RemotePrepPolicy,
    reason: RemoteServerRestartReason,
    yes: bool,
    error: Seq<char>,
)
    ensures
        ready_next_spec(
            policy,
            reason,
            ReadyStep::AskHandoff,
            ReadyEvent::Answered { yes: true },
        ) is RunHandoff,
        ready_next_spec(
            policy,
            reason,
            ReadyStep::AskHandoff,
            ReadyEvent::Answered { yes: false },
        ) is AskStop,
        ready_next_spec(
            policy,
            reason,
            ReadyStep::AskStop,
            ReadyEvent::Answered { yes: true },
        ) is StopServer,
        ready_next_spec(
            policy,
            reason,
            ReadyStep::AskStop,
            ReadyEvent::Answered { yes: false },
        ) is Done,
        ready_next_spec(policy, reason, ReadyStep::RunHandoff, ReadyEvent::HandedOff) is Done,
        ({
            let failed = ready_next_spec(
                policy,
                reason,
                ReadyStep::RunHandoff,
                ReadyEvent::HandoffFailed { error },
            );
            let notices = handoff_failure_notices(policy, reason, error);
            &&& policy is Interactive ==> failed is AskStop && notices.len() == 2 && notices[0]
                == "remote live handoff failed: "@ + error
            &&& policy is NonInteractive && reason is ProtocolMismatch ==> failed == (
            ReadyStep::Fail { message: error }) && notices.len() == 0
            &&& policy is NonInteractive && !(reason is ProtocolMismatch) ==> failed is Done
                && notices.len() == 1
        }),
{
}

/// Binaries on a host are tried in turn: the one that its shell finds, the one under this
/// program's own name, the usual one; the first that matches is used as it is. A binary that was
/// named to be installed skips the search.
pub proof fn law_binaries_are_tried_in_turn(
    facts: PrepFacts,
    shell_path: Seq<char>,
    candidate: Candidate,
    outcome: Result<bool, Seq<char>>,
)
    ensures
        ({
            let start = prep_start_spec::<Seq<char>>(facts);
            &&& !facts.override_given && facts.on_path ==> start == (PrepStep::<Seq<char>>::Match {
                candidate: Candidate::OnPath,
            })
            &&& !facts.override_given && !facts.on_path && facts.own_name ==> start == (
            PrepStep::<Seq<char>>::Match { candidate: Candidate::OwnName })
            &&& !facts.override_given && !facts.on_path && !facts.own_name ==> start == (
            PrepStep::<Seq<char>>::Match { candidate: Candidate::Default })
            &&& facts.override_given && facts.on_path ==> start == (PrepStep::<Seq<char>>::ConfirmReplace {
                candidate: Candidate::OnPath,
            })
            &&& facts.override_given && !facts.on_path ==> start == PrepStep::<
                Seq<char>,
            >::CheckDefault
        }),
        ({
            let next = prep_next_spec(facts, shell_path, PrepStep::<Seq<char>>::Match { candidate }, outcome);
            let good = outcome == Ok::<bool, Seq<char>>(true);
            &&& good ==> next == (PrepStep::<Seq<char>>::Done { candidate, installed: false })
            &&& !good && candidate is OnPath && facts.own_name ==> next == (PrepStep::<Seq<char>>::Match {
                candidate: Candidate::OwnName,
            })
            &&& !good && candidate is OnPath && !facts.own_name ==> next == (PrepStep::<Seq<char>>::Match {
                candidate: Candidate::Default,
            })
            &&& !good && candidate is OwnName ==> next == (PrepStep::<Seq<char>>::Match {
                candidate: Candidate::Default,
            })
            &&& candidate is Default && outcome is Err ==> next == (PrepStep::<Seq<char>>::Fail {
                message: outcome->Err_0,
            })
            &&& candidate is Default && outcome == Ok::<bool, Seq<char>>(false) && facts.on_path
                ==> next == (PrepStep::<Seq<char>>::ConfirmReplace { candidate: Candidate::OnPath })
            &&& candidate is Default && outcome == Ok::<bool, Seq<char>>(false) && !facts.on_path
                ==> next == PrepStep::<Seq<char>>::CheckDefault
        }),
{
}

/// An installation goes from consent to a binary that was seen to match: a running server's owner
/// is asked where a binary is already there, then the installation is agreed to, carried out and
/// checked; a failure at any point ends it with its own message.
pub proof fn law_installation_goes_step_by_step(
    facts: PrepFacts,
    shell_path: Seq<char>,
    candidate: Candidate,
    yes: bool,
    error: Seq<char>,
)
    ensures
        ({
            let good = Ok::<bool, Seq<char>>(yes);
            let bad = Err::<bool, Seq<char>>(error);
            let failed = PrepStep::<Seq<char>>::Fail { message: error };
            &&& prep_next_spec(facts, shell_path, PrepStep::CheckDefault, Ok(true)) == (
            PrepStep::<Seq<char>>::ConfirmReplace { candidate: Candidate::Default })
            &&& prep_next_spec(facts, shell_path, PrepStep::CheckDefault, Ok(false)) == PrepStep::<
                Seq<char>,
            >::ConfirmInstall
            &&& prep_next_spec(facts, shell_path, PrepStep::CheckDefault, bad) == PrepStep::<
                Seq<char>,
            >::ConfirmInstall
            &&& prep_next_spec(
                facts,
                shell_path,
                PrepStep::<Seq<char>>::ConfirmReplace { candidate },
                good,
            ) is ConfirmInstall
            &&& prep_next_spec(facts, shell_path, PrepStep::<Seq<char>>::ConfirmReplace { candidate }, bad)
                == failed
            &&& prep_next_spec(facts, shell_path, PrepStep::ConfirmInstall, good) is Install
            &&& prep_next_spec(facts, shell_path, PrepStep::ConfirmInstall, bad) == failed
            &&& prep_next_spec(facts, shell_path, PrepStep::Install, good) is MatchInstalled
            &&& prep_next_spec(facts, shell_path, PrepStep::Install, bad) == failed
            &&& prep_next_spec(
                facts,
                shell_path,
                PrepStep::MatchInstalled,
                Ok(true),
            ) is WarnPath
            &&& prep_next_spec(facts, shell_path, PrepStep::MatchInstalled, Ok(false)) == (
            PrepStep::<Seq<char>>::Fail {
                message: "installed remote herdr at "@ + shell_path
                    + ", but it did not report version "@ + "0.6.10-mx.1"@,
            })
            &&& prep_next_spec(facts, shell_path, PrepStep::MatchInstalled, bad) == failed
            &&& prep_next_spec(facts, shell_path, PrepStep::WarnPath, good) == (PrepStep::<Seq<char>>::Done {
                candidate: Candidate::Default,
                installed: true,
            })
            &&& prep_next_spec(facts, shell_path, PrepStep::WarnPath, bad) == failed
        }),
{
}

/// A binary that was named must be there: an empty name, no file, or one that cannot be looked at
/// is a fault, and each is told apart.
pub proof fn law_named_binary_must_be_there(path: Seq<char>, found: NamedFile)
    ensures
        override_fault(path, found) is None <==> path.len() > 0 && found is File,
        path.len() == 0 ==> override_fault(path, found) == Some(
            "HERDR_REMOTE_BINARY"@ + " must not be empty"@,
        ),
        path.len() > 0 && found is NoFile ==> override_fault(path, found) == Some(
            "HERDR_REMOTE_BINARY"@ + " path is not a file: "@ + path,
        ),
{
}

/// What is installed comes from the binary that was named, and else from this one where the host
/// is of the same platform and it is not managed by a package; the user is told which.
pub proof fn law_what_is_installed(
    platform: &RemotePlatform,
    local: &RemotePlatform,
    named: Option<String>,
    exe: &CurrentExe,
    r: Option<InstallSource>,
    key: Seq<char>,
    path: Seq<char>,
)
    requires
        call_ensures(resolve_install_source, (platform, local, named, exe), r),
    ensures
        named is Some ==> r is Some && r->0.path@ == named->0@ && r->0.temporary_dir is None,
        named is None && platform.os@ == local.os@ && platform.arch@ == local.arch@ && !exe.managed
            ==> r is Some && r->0.path@ == exe.path@ && r->0.temporary_dir is None,
        named is None && (platform.os@ != local.os@ || platform.arch@ != local.arch@
            || exe.managed) ==> r is None,
        source_description(key, Some(path), true) == "HERDR_REMOTE_BINARY"@ + " ("@ + path + ")"@,
        source_description(key, Some(path), false) == "HERDR_REMOTE_BINARY"@ + " ("@ + path
            + ")"@,
        source_description(key, None, true) == "the current local herdr binary"@,
        source_description(key, None, false) == "the "@ + "0.6.10-mx.1"@ + " release asset for "@
            + key,
{
}

/// A carried binary is taken only where it is of this version and for the host's platform, and is
/// then the first of its platform; else the release is fetched.
pub proof fn law_carried_binary_is_for_the_platform(entries: Seq<EntryView>, os: Seq<char>, arch: Seq<char>)
    ensures
        match carried_for(entries, os, arch) {
            Some(i) => 0 <= i < entries.len() && entries[i].os == os && entries[i].arch == arch
                && forall|j: int|
                0 <= j < i ==> (#[trigger] entries[j]).os != os || entries[j].arch != arch,
            None => forall|j: int|
                0 <= j < entries.len() ==> (#[trigger] entries[j]).os != os || entries[j].arch
                    != arch,
        },
    decreases entries.len(),
{
    if entries.len() > 0 && !(entries[0].os == os && entries[0].arch == arch) {
        let rest = entries.drop_first();
        law_carried_binary_is_for_the_platform(rest, os, arch);
        match carried_for(rest, os, arch) {
            Some(i) => {
                assert(entries[i + 1] == rest[i]);
                assert forall|j: int| 0 <= j < i + 1 implies (#[trigger] entries[j]).os != os
                    || entries[j].arch != arch by {
                    if j > 0 {
                        assert(rest[j - 1] == entries[j]);
                    }
                }
            },
            None => {
                assert forall|j: int| 0 <= j < entries.len() implies (#[trigger] entries[j]).os
                    != os || entries[j].arch != arch by {
                    if j > 0 {
                        assert(rest[j - 1] == entries[j]);
                    }
                }
            },
        }
    }
}

/// A server that was told to stop is looked at again every tenth of a second, for five seconds.
pub proof fn law_waiting_for_a_stop(
    target: &str,
    status: &RemoteServerStatus,
    elapsed: u64,
    r: ShutdownPoll<String>,
)
    requires
        call_ensures(wait_for_remote_server_shutdown, (target, status, elapsed), r),
    ensures
        *status is NotRunning ==> r is Stopped,
        !(*status is NotRunning) && elapsed < 5000 ==> r is Wait && r->millis == 100,
        !(*status is NotRunning) && elapsed >= 5000 ==> r is TimedOut,
{
}

/// A command that failed is told with what it printed, and with its status where it printed
/// nothing.
pub proof fn law_failures_are_told(context: Seq<char>, stderr: Seq<char>, status: Seq<char>)
    ensures
        trim_spec(stderr).len() > 0 ==> failure_text(context, stderr, status) == context + ": "@
            + trim_spec(stderr),
        trim_spec(stderr).len() == 0 ==> failure_text(context, stderr, status) == context + ": "@
            + status,
{
}

/// A binary is installed whole or not at all: it is written beside its place, made to run, and
/// moved there last, in a directory that is made where it is missing.
pub proof fn law_installation_is_whole(suffix: Seq<char>)
    ensures
        crate::remote_prep::install_script_of(suffix) == "dest=\"$HOME/"@ + suffix + "\"\n"@
            + "dir=\"${dest%/*}\"\n"@ + "mkdir -p \"$dir\"\n"@ + "tmp=\"${dest}.tmp.$$\"\n"@
            + "cat > \"$tmp\"\n"@ + "chmod 755 \"$tmp\"\n"@ + "mv \"$tmp\" \"$dest\"\n"@,
{
    reveal_strlit("dest=\"$HOME/");
    reveal_strlit("\"\n");
    reveal_strlit("dir=\"${dest%/*}\"\n");
    reveal_strlit("mkdir -p \"$dir\"\n");
    reveal_strlit("tmp=\"${dest}.tmp.$$\"\n");
    reveal_strlit("cat > \"$tmp\"\n");
    reveal_strlit("chmod 755 \"$tmp\"\n");
    reveal_strlit("mv \"$tmp\" \"$dest\"\n");
    reveal_strlit(
        "\"\ndir=\"${dest%/*}\"\nmkdir -p \"$dir\"\ntmp=\"${dest}.tmp.$$\"\ncat > \"$tmp\"\nchmod 755 \"$tmp\"\nmv \"$tmp\" \"$dest\"\n",
    );
    let whole =
        "\"\ndir=\"${dest%/*}\"\nmkdir -p \"$dir\"\ntmp=\"${dest}.tmp.$$\"\ncat > \"$tmp\"\nchmod 755 \"$tmp\"\nmv \"$tmp\" \"$dest\"\n"@;
    let parts = "\"\n"@ + "dir=\"${dest%/*}\"\n"@ + "mkdir -p \"$dir\"\n"@
        + "tmp=\"${dest}.tmp.$$\"\n"@ + "cat > \"$tmp\"\n"@ + "chmod 755 \"$tmp\"\n"@
        + "mv \"$tmp\" \"$dest\"\n"@;
    assert(whole.len() == parts.len());
    assert(whole =~= parts);
    assert(crate::remote_prep::install_script_of(suffix) =~= "dest=\"$HOME/"@ + suffix + parts);
}

/// The command that hands a remote's panes over is one that the server there understands, and
/// asks for what a handoff on that host would ask for by itself: that binary, with this program's
/// protocol and version.
pub proof fn law_handoff_command_is_understood(herdr: &RemoteHerdr, r: String)
    requires
        call_ensures(live_handoff_command, (herdr,), r),
    ensures
        ({
            let path = herdr.shell_path@;
            let options = seq![
                "--import-exe"@,
                path,
                "--expected-protocol"@,
                decimal(11),
                "--expected-version"@,
                "0.6.10-mx.1"@,
            ];
            &&& r@ == path + " server live-handoff "@ + join_spec(options, " "@)
            &&& handoff_params_of(no_params(), options) == Some(with_defaults(no_params(), path))
        }),
{
    reveal_strlit("--import-exe");
    reveal_strlit("--expected-protocol");
    reveal_strlit("--expected-version");
    reveal_strlit(" ");
    reveal_strlit(" server live-handoff ");
    reveal_strlit(" server live-handoff --import-exe ");
    reveal_strlit(" --expected-protocol ");
    reveal_strlit(" --expected-version ");
    let path = herdr.shell_path@;
    let version = "0.6.10-mx.1"@;
    let none = Seq::<Seq<char>>::empty();
    let a = "--import-exe"@;
    let c = "--expected-protocol"@;
    let d = decimal(11);
    let e = "--expected-version"@;
    let options = seq![a, path, c, d, e, version];
    let last = seq![e, version];
    let middle = seq![c, d, e, version];
    assert(options =~= seq![a, path] + middle);
    assert(middle =~= seq![c, d] + last);
    assert(last =~= last + none);
    law_handoff_options(no_params(), path, 11, middle);
    let one = crate::server_cli::HandoffView { import_exe: Some(path), ..no_params() };
    law_handoff_options(one, version, 11, last);
    let two = crate::server_cli::HandoffView { expected_protocol: Some(11u32), ..one };
    law_handoff_options(two, version, 11, none);
    let sep = " "@;
    reveal_with_fuel(join_spec, 7);
    assert(options.drop_last() =~= seq![a, path, c, d, e]);
    assert(seq![a, path, c, d, e].drop_last() =~= seq![a, path, c, d]);
    assert(seq![a, path, c, d].drop_last() =~= seq![a, path, c]);
    assert(seq![a, path, c].drop_last() =~= seq![a, path]);
    assert(seq![a, path].drop_last() =~= seq![a]);
    assert(join_spec(seq![a, path], sep) == a + sep + path);
    assert(join_spec(seq![a, path, c], sep) == a + sep + path + sep + c);
    assert(join_spec(seq![a, path, c, d], sep) == a + sep + path + sep + c + sep + d);
    assert(join_spec(seq![a, path, c, d, e], sep) == a + sep + path + sep + c + sep + d + sep + e);
    assert(join_spec(options, sep) == a + sep + path + sep + c + sep + d + sep + e + sep + version);
    assert(" server live-handoff --import-exe "@ =~= " server live-handoff "@ + a + sep);
    assert(" --expected-protocol "@ =~= sep + c + sep);
    assert(" --expected-version "@ =~= sep + e + sep);
    assert(r@ =~= path + " server live-handoff "@ + (a + sep + path + sep + c + sep + d + sep + e
        + sep + version));
}

} // verus!
