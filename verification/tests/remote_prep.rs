use herdr::build_info::FULL_VERSION;
use herdr::bundle::{BundleEntry, BundleIndex};
use herdr::protocol::PROTOCOL_VERSION;
use herdr::remote::{RemoteHerdr, RemotePlatform};
use herdr::remote_prep::{
    answer_declines, bridge_server_check, bundled_install_source, command_failed,
    confirm_remote_install, confirm_remote_install_with_running_server,
    confirm_remote_server_handoff, confirm_remote_server_stop, download_dir_name,
    ensure_remote_server_ready, fallback_install_source, install_command, live_handoff_command,
    local_binary_can_seed_remote, prepare_next, prepare_remote_herdr,
    protocol_label, ready_next, remote_binary_override_path, remote_install_answer,
    remote_replace_answer, remote_server_stop_answer, resolve_install_source,
    wait_for_remote_server_shutdown, Candidate, Confirmation, CurrentExe, FallbackSource, InstallSource,
    NamedFile, PrepFacts, PrepStep, ReadyEvent, ReadyStep, RemotePrepPolicy,
    RemoteServerRestartReason, RemoteServerStatus, ServerInspection, ShutdownPoll,
};

fn linux() -> RemotePlatform {
    RemotePlatform::local("linux", "x86_64")
}

fn herdr() -> RemoteHerdr {
    RemoteHerdr::for_platform(linux())
}

fn running(version: &str, protocol: u32, live_handoff: bool) -> RemoteServerStatus {
    RemoteServerStatus::Running {
        version: Some(version.to_string()),
        protocol: Some(protocol),
        live_handoff,
    }
}

#[test]
fn answers_decline_only_by_saying_no() {
    for answer in ["n", " NO\n", "No"] {
        assert!(answer_declines(answer));
    }
    for answer in ["", "y", "nope", "yes\n"] {
        assert!(!answer_declines(answer));
    }
    assert_eq!(protocol_label(Some(7)), "7");
    assert_eq!(protocol_label(None), "unknown");
}

#[test]
fn a_current_server_needs_no_step() {
    for policy in [RemotePrepPolicy::Interactive, RemotePrepPolicy::NonInteractive] {
        let (step, reason) = ensure_remote_server_ready(
            "host",
            &running(FULL_VERSION, PROTOCOL_VERSION, true),
            false,
            true,
            policy,
        );
        assert!(matches!(step, ReadyStep::Done));
        assert_eq!(reason, None);
        let (step, _) =
            ensure_remote_server_ready("host", &RemoteServerStatus::NotRunning, true, true, policy);
        assert!(matches!(step, ReadyStep::Done));
    }
}

#[test]
fn a_client_never_stops_a_server() {
    let mismatch = running("0.1.0", PROTOCOL_VERSION - 1, false);
    let (step, reason) = ensure_remote_server_ready(
        "host",
        &mismatch,
        false,
        true,
        RemotePrepPolicy::NonInteractive,
    );
    assert_eq!(reason, Some(RemoteServerRestartReason::ProtocolMismatch));
    let ReadyStep::Fail { message } = step else {
        panic!("expected a failure");
    };
    assert!(message.contains("does not support live-handoff"), "{message}");

    let compatible = running("0.1.0", PROTOCOL_VERSION, true);
    let (step, reason) = ensure_remote_server_ready(
        "host",
        &compatible,
        false,
        true,
        RemotePrepPolicy::NonInteractive,
    );
    assert!(matches!(step, ReadyStep::RunHandoff));
    let (step, notices) = ready_next(
        RemotePrepPolicy::NonInteractive,
        reason.unwrap(),
        step,
        ReadyEvent::HandoffFailed {
            error: "busy".to_string(),
        },
    );
    assert!(matches!(step, ReadyStep::Done));
    assert_eq!(
        notices,
        vec!["remote live handoff failed: busy; attaching to the running server."]
    );

    let (step, _) = ready_next(
        RemotePrepPolicy::NonInteractive,
        RemoteServerRestartReason::ProtocolMismatch,
        ReadyStep::RunHandoff,
        ReadyEvent::HandoffFailed {
            error: "busy".to_string(),
        },
    );
    assert!(matches!(step, ReadyStep::Fail { message } if message == "busy"));
}

#[test]
fn a_user_is_asked_before_a_server_stops() {
    let status = running("0.1.0", PROTOCOL_VERSION, true);
    let policy = RemotePrepPolicy::Interactive;
    let (step, reason) = ensure_remote_server_ready("host", &status, false, true, policy);
    let reason = reason.unwrap();
    assert_eq!(reason, RemoteServerRestartReason::VersionMismatch);
    assert!(matches!(step, ReadyStep::AskHandoff));
    let (step, _) = ready_next(policy, reason, step, ReadyEvent::Answered { yes: true });
    assert!(matches!(step, ReadyStep::RunHandoff));
    let (step, notices) = ready_next(
        policy,
        reason,
        step,
        ReadyEvent::HandoffFailed {
            error: "busy".to_string(),
        },
    );
    assert!(matches!(step, ReadyStep::AskStop));
    assert_eq!(notices.len(), 2);
    let (stop, _) = ready_next(policy, reason, step, ReadyEvent::Answered { yes: true });
    assert!(matches!(stop, ReadyStep::StopServer));
    let (step, _) = ready_next(
        policy,
        reason,
        ReadyStep::AskStop,
        ReadyEvent::Answered { yes: false },
    );
    assert!(matches!(step, ReadyStep::Done));
    let (step, _) = ready_next(policy, reason, ReadyStep::RunHandoff, ReadyEvent::HandedOff);
    assert!(matches!(step, ReadyStep::Done));
}

#[test]
fn without_a_terminal_nothing_is_asked() {
    let version = Some("0.1.0".to_string());
    let mismatch = RemoteServerRestartReason::ProtocolMismatch;
    let updated = RemoteServerRestartReason::BinaryUpdated;
    assert!(matches!(
        confirm_remote_server_stop("host", &version, Some(3), mismatch, false),
        Confirmation::Refuse { message } if message.contains("approve stopping it")
    ));
    assert!(matches!(
        confirm_remote_server_stop("host", &version, Some(3), updated, false),
        Confirmation::Skip { notice } if notice.contains("still running v0.1.0")
    ));
    assert!(matches!(
        confirm_remote_server_handoff("host", &version, Some(3), mismatch, false),
        Confirmation::Refuse { .. }
    ));
    assert!(matches!(
        confirm_remote_install("host", &herdr(), "x", RemotePrepPolicy::Interactive, false),
        Confirmation::Refuse { .. }
    ));
    let failed = ServerInspection::Failed {
        error: "timeout".to_string(),
    };
    assert!(matches!(
        confirm_remote_install_with_running_server(
            "host",
            &failed,
            false,
            RemotePrepPolicy::Interactive,
            false
        ),
        Confirmation::Refuse { message } if message.contains("timeout")
    ));
}

#[test]
fn questions_say_what_is_at_stake() {
    let version = Some("0.1.0".to_string());
    let Confirmation::Ask { lines, prompt } = confirm_remote_server_stop(
        "host",
        &version,
        Some(3),
        RemoteServerRestartReason::VersionMismatch,
        true,
    ) else {
        panic!("expected a question");
    };
    assert_eq!(lines[0], "remote herdr server on host is currently running:");
    assert_eq!(lines[1], "  server: v0.1.0 protocol 3");
    assert_eq!(
        lines[2],
        format!("  prepared binary: v{FULL_VERSION} protocol {PROTOCOL_VERSION}")
    );
    assert_eq!(lines[3], "");
    assert_eq!(lines.len(), 5);
    assert_eq!(prompt, "restart the remote server now? [Y/n] ");

    let Confirmation::Ask { lines, prompt } = confirm_remote_install(
        "host",
        &herdr(),
        "the current local herdr binary",
        RemotePrepPolicy::Interactive,
        true,
    ) else {
        panic!("expected a question");
    };
    assert_eq!(
        lines,
        vec![format!(
            "matching herdr {FULL_VERSION} is not installed on host for linux-x86_64."
        )]
    );
    assert_eq!(
        prompt,
        "Install the current local herdr binary to \"$HOME/.local/bin/herdr\"? [Y/n] "
    );
}

#[test]
fn a_client_replaces_a_binary_without_asking() {
    let running = ServerInspection::Running {
        version: Some("0.1.0".to_string()),
        protocol: Some(3),
        live_handoff: false,
    };
    assert!(matches!(
        confirm_remote_install_with_running_server(
            "host",
            &running,
            false,
            RemotePrepPolicy::NonInteractive,
            true
        ),
        Confirmation::Proceed
    ));
    assert!(matches!(
        confirm_remote_install_with_running_server(
            "host",
            &running,
            false,
            RemotePrepPolicy::Interactive,
            true
        ),
        Confirmation::Ask { .. }
    ));
    assert!(matches!(
        confirm_remote_install_with_running_server(
            "host",
            &ServerInspection::NotRunning,
            false,
            RemotePrepPolicy::Interactive,
            true
        ),
        Confirmation::Proceed
    ));
}

#[test]
fn refusals_are_errors_where_nothing_else_is_left() {
    assert_eq!(
        remote_server_stop_answer("n", RemoteServerRestartReason::ProtocolMismatch),
        Err("remote herdr server stop cancelled".to_string())
    );
    assert_eq!(
        remote_server_stop_answer("n", RemoteServerRestartReason::BinaryUpdated),
        Ok(false)
    );
    assert_eq!(
        remote_server_stop_answer("", RemoteServerRestartReason::BinaryUpdated),
        Ok(true)
    );
    assert_eq!(
        remote_install_answer("no"),
        Err("remote herdr installation cancelled".to_string())
    );
    assert_eq!(
        remote_replace_answer("no"),
        Err("remote herdr install cancelled".to_string())
    );
    assert_eq!(remote_replace_answer("y"), Ok(()));
}

fn walk(facts: PrepFacts, outcomes: &[Result<bool, &str>]) -> PrepStep<String> {
    let mut step = prepare_remote_herdr(facts);
    for outcome in outcomes {
        step = prepare_next(
            facts,
            &herdr(),
            step,
            outcome.map_err(|error| error.to_string()),
        );
    }
    step
}

#[test]
fn a_matching_binary_is_used_as_it_is() {
    let facts = PrepFacts {
        override_given: false,
        on_path: true,
        own_name: true,
    };
    assert!(matches!(
        walk(facts, &[Ok(true)]),
        PrepStep::Done {
            candidate: Candidate::OnPath,
            installed: false
        }
    ));
    assert!(matches!(
        walk(facts, &[Err("gone"), Ok(true)]),
        PrepStep::Done {
            candidate: Candidate::OwnName,
            installed: false
        }
    ));
    assert!(matches!(
        walk(facts, &[Ok(false), Ok(false), Err("gone")]),
        PrepStep::Fail { message } if message == "gone"
    ));
}

#[test]
fn an_installed_binary_is_checked_again() {
    let facts = PrepFacts {
        override_given: true,
        on_path: false,
        own_name: false,
    };
    assert!(matches!(
        prepare_remote_herdr(facts),
        PrepStep::CheckDefault
    ));
    assert!(matches!(
        walk(facts, &[Ok(true), Ok(true), Ok(true), Ok(true), Ok(true), Ok(true)]),
        PrepStep::Done {
            candidate: Candidate::Default,
            installed: true
        }
    ));
    let PrepStep::Fail { message } =
        walk(facts, &[Ok(false), Ok(true), Ok(true), Ok(false)])
    else {
        panic!("expected a failure");
    };
    assert!(message.contains("did not report version"), "{message}");
    assert!(matches!(
        walk(facts, &[Ok(false), Err("cancelled")]),
        PrepStep::Fail { message } if message == "cancelled"
    ));
}

#[test]
fn named_binaries_must_be_files() {
    assert_eq!(
        remote_binary_override_path(None, &NamedFile::NoFile),
        Ok(None)
    );
    assert_eq!(
        remote_binary_override_path(Some("/x".to_string()), &NamedFile::File),
        Ok(Some("/x".to_string()))
    );
    assert_eq!(
        remote_binary_override_path(Some(String::new()), &NamedFile::File),
        Err("HERDR_REMOTE_BINARY must not be empty".to_string())
    );
    assert_eq!(
        remote_binary_override_path(Some("/x".to_string()), &NamedFile::NoFile),
        Err("HERDR_REMOTE_BINARY path is not a file: /x".to_string())
    );
    assert_eq!(
        remote_binary_override_path(
            Some("/x".to_string()),
            &NamedFile::Hidden {
                error: "denied".to_string()
            }
        ),
        Err("failed to inspect HERDR_REMOTE_BINARY path /x: denied".to_string())
    );
}

#[test]
fn this_binary_serves_only_its_own_platform() {
    let exe = |managed| CurrentExe {
        path: "/usr/bin/herdr".to_string(),
        managed,
    };
    let mac = RemotePlatform::local("macos", "aarch64");
    assert!(local_binary_can_seed_remote(
        &linux(),
        &linux(),
        &Some(exe(false))
    ));
    assert!(!local_binary_can_seed_remote(
        &linux(),
        &linux(),
        &Some(exe(true))
    ));
    assert!(!local_binary_can_seed_remote(&mac, &linux(), &Some(exe(false))));
    assert!(!local_binary_can_seed_remote(&linux(), &linux(), &None));
    assert_eq!(
        resolve_install_source(&linux(), &linux(), None, &exe(false)).map(|source| source.path),
        Some("/usr/bin/herdr".to_string())
    );
    assert!(resolve_install_source(&mac, &linux(), None, &exe(false)).is_none());
    let temporary = InstallSource::temporary("/tmp/d/h".to_string(), "/tmp/d".to_string());
    assert_eq!(temporary.temporary_dir.as_deref(), Some("/tmp/d"));
}

#[test]
fn shutdown_is_awaited_for_five_seconds() {
    let status = running("0.1.0", 3, false);
    assert!(matches!(
        wait_for_remote_server_shutdown("host", &status, 4_999),
        ShutdownPoll::Wait { millis: 100 }
    ));
    assert!(matches!(
        wait_for_remote_server_shutdown("host", &status, 5_000),
        ShutdownPoll::TimedOut { message } if message.ends_with("after 5 seconds")
    ));
    assert!(matches!(
        wait_for_remote_server_shutdown("host", &RemoteServerStatus::NotRunning, 9_000),
        ShutdownPoll::Stopped
    ));
}

#[test]
fn commands_and_errors_are_spelled_out() {
    assert_eq!(bridge_server_check(Some(PROTOCOL_VERSION)), Ok(()));
    assert!(bridge_server_check(None).unwrap_err().contains("protocol unknown"));
    assert_eq!(
        command_failed("probe failed", " boom \n", "exit status: 1"),
        "probe failed: boom"
    );
    assert_eq!(
        command_failed("probe failed", "\n", "exit status: 1"),
        "probe failed: exit status: 1"
    );
    assert_eq!(
        live_handoff_command(&herdr()),
        format!(
            "\"$HOME/.local/bin/herdr\" server live-handoff --import-exe \"$HOME/.local/bin/herdr\" --expected-protocol {PROTOCOL_VERSION} --expected-version {FULL_VERSION}"
        )
    );
    assert!(install_command(&herdr()).starts_with("sh -eu -c 'dest=\"$HOME/.local/bin/herdr\"\n"));
    assert_eq!(
        download_dir_name(7, "linux-x86_64", 3),
        "herdr-remote-7-linux-x86_64-3"
    );
}

#[test]
fn carried_binaries_seed_hosts_of_this_version() {
    let index = |version: &str| BundleIndex {
        format: 1,
        herdr_version: version.to_string(),
        build_commit: None,
        image_len: 0,
        entries: vec![BundleEntry {
            os: "linux".to_string(),
            arch: "x86_64".to_string(),
            offset: 0,
            compressed_len: 1,
            uncompressed_len: 2,
            crc32: 3,
        }],
    };
    let current = index(FULL_VERSION);
    assert_eq!(
        bundled_install_source(&current, &linux()).map(|entry| entry.asset_key()),
        Some("linux-x86_64".to_string())
    );
    assert!(
        bundled_install_source(&current, &RemotePlatform::local("macos", "aarch64")).is_none()
    );
    assert!(bundled_install_source(&index("0.0.1"), &linux()).is_none());

    let FallbackSource::Carried(entry) = fallback_install_source(Some(&current), &linux()) else {
        panic!("the carried binary was passed over");
    };
    assert_eq!(entry.asset_key(), "linux-x86_64");
    let mac = RemotePlatform::local("macos", "aarch64");
    for (carried, platform) in [
        (Some(&current), &mac),
        (Some(&index("0.0.1")), &linux()),
        (None, &linux()),
    ] {
        assert!(matches!(
            fallback_install_source(carried, platform),
            FallbackSource::Download
        ));
    }
}
