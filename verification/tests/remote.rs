use herdr::build_info::FULL_VERSION;
use herdr::protocol::{DEFAULT_SESSION_NAME, PROTOCOL_VERSION};
use herdr::remote::{
    local_forward_socket_path, match_status_line, platform_from_uname_output, probe_status_line,
    reattach_command, release_asset_url, remote_binary_match_command,
    remote_binary_output_matches, remote_bridge_command, remote_bridge_socket_paths,
    remote_client_command, remote_herdr_from_exe_name, remote_herdr_from_path_probe,
    remote_herdr_from_path_probe_any, remote_path_probe_any_command, sanitize_path_component,
    shell_quote, ManifestAsset, RemoteBridgeKind, RemoteHerdr, RemoteManifestReleaseRef,
    RemotePlatform, RemoteReleaseMetadata, RemoteUpdateManifest, SshTarget,
    MAIN_DISPLAY_NAME_ENV_VAR, MAIN_REMOTE_TARGET_ENV_VAR, MAX_SOCKET_PATH, SOCKET_PATH_ENV_VAR,
};
use herdr::remote_args::{extract_remote_args, RemoteKeybindings, RemoteLaunch};
use herdr::remote_prep::{
    install_source_description_for, non_interactive_server_action, remote_server_restart_reason,
    remote_server_status_of, resolve_install_source, CurrentExe, NonInteractiveServerAction,
    RemoteServerCapabilitiesJson, RemoteServerRestartReason, RemoteServerStatus,
    RemoteServerStatusJson,
};
use serde_json::Value;

fn status_protocol(line: &str) -> Option<u32> {
    let parsed: Value = serde_json::from_str(line).ok()?;
    u32::try_from(parsed.get("protocol")?.as_u64()?).ok()
}

fn from_path_probe(remote_herdr: &RemoteHerdr, stdout: &str) -> Option<RemoteHerdr> {
    let protocol = probe_status_line(stdout).and_then(|line| status_protocol(&line));
    remote_herdr_from_path_probe(remote_herdr, stdout, protocol)
}

fn server_status(json: &str) -> RemoteServerStatus {
    let parsed: Value = serde_json::from_str(json).unwrap();
    let field = |name: &str| parsed.get(name).filter(|v| !v.is_null());
    remote_server_status_of(RemoteServerStatusJson {
        running: field("running").unwrap().as_bool().unwrap(),
        version: field("version").map(|v| v.as_str().unwrap().to_string()),
        protocol: field("protocol").map(|v| v.as_u64().unwrap() as u32),
        capabilities: field("capabilities").map(|c| RemoteServerCapabilitiesJson {
            live_handoff: c
                .get("live_handoff")
                .map(|v| v.as_bool().unwrap())
                .unwrap_or(false),
        }),
    })
}

fn assets_of(value: Option<&Value>) -> Vec<ManifestAsset> {
    value
        .and_then(|v| v.as_object())
        .map(|object| {
            object
                .iter()
                .map(|(key, url)| ManifestAsset {
                    key: key.clone(),
                    url: url.as_str().unwrap().to_string(),
                })
                .collect()
        })
        .unwrap_or_default()
}

fn manifest_of(json: &str) -> RemoteUpdateManifest {
    let parsed: Value = serde_json::from_str(json).unwrap();
    let protocol = |v: &Value| v.get("protocol").map(|p| p.as_u64().unwrap() as u32);
    RemoteUpdateManifest {
        version: parsed.get("version").unwrap().as_str().unwrap().to_string(),
        protocol: protocol(&parsed),
        assets: assets_of(parsed.get("assets")),
        releases: parsed
            .get("releases")
            .and_then(|v| v.as_object())
            .map(|object| {
                object
                    .iter()
                    .map(|(version, release)| RemoteReleaseMetadata {
                        version: version.clone(),
                        protocol: protocol(release),
                        assets: assets_of(release.get("assets")),
                    })
                    .collect()
            })
            .unwrap_or_default(),
    }
}

fn asset_url<'a>(release: RemoteManifestReleaseRef<'a>, key: &str) -> Option<&'a str> {
    release
        .assets
        .iter()
        .find(|asset| asset.key == key)
        .map(|asset| asset.url.as_str())
}

fn fits_unix_socket_path(path: &str) -> bool {
    path.len() <= MAX_SOCKET_PATH
}

fn file_name(path: &str) -> &str {
    path.rsplit('/').next().unwrap()
}

fn ssh_argv(target: &SshTarget, remote_command: &str) -> Vec<String> {
    target.command(remote_command)
}

#[test]
fn ssh_target_command_inserts_dash_t_before_bare_destination() {
    assert_eq!(
        ssh_argv(&SshTarget::bare("iq-64"), "uname -s"),
        ["-o", "ConnectTimeout=10", "-T", "iq-64", "uname -s"]
    );
}

#[test]
fn ssh_target_command_emits_options_before_destination() {
    let target = SshTarget::new(
        "iq-64".into(),
        vec![
            "-L".into(),
            "9000:localhost:9000".into(),
            "-J".into(),
            "jump".into(),
        ],
    );
    assert_eq!(
        ssh_argv(&target, "uname -s"),
        [
            "-o",
            "ConnectTimeout=10",
            "-L",
            "9000:localhost:9000",
            "-J",
            "jump",
            "-T",
            "iq-64",
            "uname -s"
        ]
    );
}

#[test]
fn ssh_target_command_does_not_duplicate_user_supplied_dash_t() {
    let target = SshTarget::new("iq-64".into(), vec!["-T".into()]);
    assert_eq!(
        ssh_argv(&target, "x"),
        ["-o", "ConnectTimeout=10", "-T", "iq-64", "x"]
    );
}

#[test]
fn ssh_target_command_respects_user_connect_timeout() {
    let target = SshTarget::new("iq-64".into(), vec!["-o".into(), "ConnectTimeout=3".into()]);
    assert_eq!(
        ssh_argv(&target, "x"),
        ["-o", "ConnectTimeout=3", "-T", "iq-64", "x"]
    );
}

#[test]
fn non_interactive_attaches_to_protocol_compatible_running_server_without_handoff() {
    // Version/binary differs but protocol matches: attach to the running server, no restart.
    for reason in [
        RemoteServerRestartReason::VersionMismatch,
        RemoteServerRestartReason::BinaryUpdated,
    ] {
        assert_eq!(
            non_interactive_server_action(reason, false, false),
            NonInteractiveServerAction::AttachExisting
        );
        // Even if handoff is enabled, an unsupported server still attaches as-is.
        assert_eq!(
            non_interactive_server_action(reason, true, false),
            NonInteractiveServerAction::AttachExisting
        );
    }
}

#[test]
fn non_interactive_prefers_live_handoff_when_available() {
    for reason in [
        RemoteServerRestartReason::ProtocolMismatch,
        RemoteServerRestartReason::VersionMismatch,
        RemoteServerRestartReason::BinaryUpdated,
    ] {
        assert_eq!(
            non_interactive_server_action(reason, true, true),
            NonInteractiveServerAction::LiveHandoff
        );
    }
}

#[test]
fn non_interactive_protocol_mismatch_without_handoff_is_stuck_not_hard_stopped() {
    // The key safety property: a protocol mismatch we cannot hand off is reported as stuck,
    // never resolved by hard-stopping (which would kill the remote server's panes).
    assert_eq!(
        non_interactive_server_action(RemoteServerRestartReason::ProtocolMismatch, true, false),
        NonInteractiveServerAction::ProtocolStuck
    );
    assert_eq!(
        non_interactive_server_action(RemoteServerRestartReason::ProtocolMismatch, false, true),
        NonInteractiveServerAction::ProtocolStuck
    );
}

#[test]
fn extract_remote_args_removes_space_form() {
    let args = vec![
        "herdr".into(),
        "--remote".into(),
        "dev".into(),
        "--help".into(),
    ];
    let (cleaned, remote) = extract_remote_args(&args).unwrap();
    assert_eq!(cleaned, vec!["herdr", "--help"]);
    let remote = remote.unwrap();
    assert_eq!(remote.target, "dev");
    assert_eq!(remote.keybindings, RemoteKeybindings::Local);
}

#[test]
fn extract_remote_args_removes_equals_form() {
    let args = vec!["herdr".into(), "--remote=user@host".into()];
    let (cleaned, remote) = extract_remote_args(&args).unwrap();
    assert_eq!(cleaned, vec!["herdr"]);
    let remote = remote.unwrap();
    assert_eq!(remote.target, "user@host");
    assert_eq!(remote.keybindings, RemoteKeybindings::Local);
}

#[test]
fn extract_remote_args_accepts_remote_keybindings_server() {
    let args = vec![
        "herdr".into(),
        "--remote".into(),
        "dev".into(),
        "--remote-keybindings=server".into(),
    ];
    let (cleaned, remote) = extract_remote_args(&args).unwrap();
    assert_eq!(cleaned, vec!["herdr"]);
    let remote = remote.unwrap();
    assert_eq!(remote.target, "dev");
    assert_eq!(remote.keybindings, RemoteKeybindings::Server);
}

#[test]
fn extract_remote_args_accepts_remote_keybindings_space_form() {
    let args = vec![
        "herdr".into(),
        "--remote=dev".into(),
        "--remote-keybindings".into(),
        "server".into(),
    ];
    let (cleaned, remote) = extract_remote_args(&args).unwrap();
    assert_eq!(cleaned, vec!["herdr"]);
    assert_eq!(remote.unwrap().keybindings, RemoteKeybindings::Server);
}

#[test]
fn extract_remote_args_accepts_explicit_handoff() {
    let args = vec!["herdr".into(), "--remote=dev".into(), "--handoff".into()];

    let (cleaned, remote) = extract_remote_args(&args).unwrap();

    assert_eq!(cleaned, vec!["herdr"]);
    let remote = remote.unwrap();
    assert_eq!(remote.target, "dev");
    assert!(remote.live_handoff);
}

#[test]
fn extract_remote_args_preserves_handoff_without_remote() {
    let args = vec!["herdr".into(), "update".into(), "--handoff".into()];

    let (cleaned, remote) = extract_remote_args(&args).unwrap();

    assert_eq!(cleaned, args);
    assert!(remote.is_none());
}

#[test]
fn extract_remote_args_rejects_remote_keybindings_without_remote() {
    let args = vec!["herdr".into(), "--remote-keybindings=server".into()];
    let err = extract_remote_args(&args).unwrap_err();
    assert_eq!(err, "--remote-keybindings requires --remote");
}

#[test]
fn extract_remote_args_rejects_duplicate_remote_keybindings() {
    let args = vec![
        "herdr".into(),
        "--remote=dev".into(),
        "--remote-keybindings=local".into(),
        "--remote-keybindings=server".into(),
    ];
    let err = extract_remote_args(&args).unwrap_err();
    assert_eq!(err, "--remote-keybindings can only be specified once");
}

#[test]
fn extract_remote_args_requires_value() {
    let args = vec!["herdr".into(), "--remote".into()];
    let err = extract_remote_args(&args).unwrap_err();
    assert_eq!(err, "missing value for --remote");
}

#[test]
fn extract_remote_args_rejects_empty_value() {
    let args = vec!["herdr".into(), "--remote=".into()];
    let err = extract_remote_args(&args).unwrap_err();
    assert_eq!(err, "missing value for --remote");
}

#[test]
fn extract_remote_args_rejects_duplicate_values() {
    let args = vec![
        "herdr".into(),
        "--remote=dev".into(),
        "--remote=prod".into(),
    ];
    let err = extract_remote_args(&args).unwrap_err();
    assert_eq!(err, "--remote can only be specified once");
}

#[test]
fn extract_remote_args_rejects_option_like_target() {
    let args = vec!["herdr".into(), "--remote".into(), "-oProxyCommand=x".into()];
    let err = extract_remote_args(&args).unwrap_err();
    assert_eq!(err, "--remote target must not start with '-'");
}

#[test]
fn sanitize_path_component_removes_shell_sensitive_chars() {
    assert_eq!(sanitize_path_component("user@host:22"), "user-host-22");
}

#[test]
fn remote_platform_maps_uname_values() {
    assert_eq!(
        RemotePlatform::from_uname("Linux", "amd64")
            .unwrap()
            .asset_key(),
        "linux-x86_64"
    );
    assert_eq!(
        RemotePlatform::from_uname("Darwin", "arm64")
            .unwrap()
            .asset_key(),
        "macos-aarch64"
    );
    assert!(RemotePlatform::from_uname("FreeBSD", "x86_64").is_none());
}

#[test]
fn reattach_command_includes_remote_and_session() {
    assert_eq!(
        reattach_command(
            "target/release/herdr",
            "user@host",
            "work",
            RemoteKeybindings::Local,
            false,
        ),
        "target/release/herdr --remote user@host --session work"
    );
    assert_eq!(
        reattach_command(
            "herdr",
            "host name",
            DEFAULT_SESSION_NAME,
            RemoteKeybindings::Local,
            false,
        ),
        "herdr --remote 'host name'"
    );
    assert_eq!(
        reattach_command(
            "herdr",
            "host",
            DEFAULT_SESSION_NAME,
            RemoteKeybindings::Server,
            false,
        ),
        "herdr --remote host --remote-keybindings server"
    );
    assert_eq!(
        reattach_command(
            "herdr",
            "host",
            DEFAULT_SESSION_NAME,
            RemoteKeybindings::Local,
            true,
        ),
        "herdr --remote host --handoff"
    );
}

#[test]
fn remote_bridge_command_uses_installed_binary() {
    let remote_herdr = RemoteHerdr::for_platform(RemotePlatform {
        os: "linux",
        arch: "x86_64",
    });
    assert_eq!(
        remote_bridge_command(
            &remote_herdr,
            DEFAULT_SESSION_NAME,
            RemoteBridgeKind::Client,
        ),
        "exec \"$HOME/.local/bin/herdr\" remote-client-bridge"
    );
    assert_eq!(
        remote_bridge_command(
            &remote_herdr,
            DEFAULT_SESSION_NAME,
            RemoteBridgeKind::Api,
        ),
        "exec \"$HOME/.local/bin/herdr\" remote-api-bridge"
    );
}

#[test]
fn remote_path_probe_uses_path_binary_when_version_matches() {
    let remote_herdr = RemoteHerdr::for_platform(RemotePlatform {
        os: "linux",
        arch: "x86_64",
    });
    let stdout = matching_path_probe_stdout("/usr/bin/herdr");
    let remote_herdr =
        from_path_probe(&remote_herdr, &stdout).expect("matching path binary");

    assert_eq!(
        remote_bridge_command(
            &remote_herdr,
            DEFAULT_SESSION_NAME,
            RemoteBridgeKind::Client,
        ),
        "exec /usr/bin/herdr remote-client-bridge"
    );
}

#[test]
fn remote_path_probe_quotes_discovered_binary() {
    let remote_herdr = RemoteHerdr::for_platform(RemotePlatform {
        os: "linux",
        arch: "x86_64",
    });
    let stdout = matching_path_probe_stdout("/opt/herdr bin/herdr");
    let remote_herdr =
        from_path_probe(&remote_herdr, &stdout).expect("matching path binary");

    assert_eq!(
        remote_bridge_command(
            &remote_herdr,
            DEFAULT_SESSION_NAME,
            RemoteBridgeKind::Client,
        ),
        "exec '/opt/herdr bin/herdr' remote-client-bridge"
    );
}

#[test]
fn remote_path_probe_uses_macos_path_binary_when_version_matches() {
    let remote_herdr = RemoteHerdr::for_platform(RemotePlatform {
        os: "macos",
        arch: "aarch64",
    });
    let stdout = matching_path_probe_stdout("/opt/homebrew/bin/herdr");
    let remote_herdr =
        from_path_probe(&remote_herdr, &stdout).expect("matching path binary");

    assert_eq!(
        remote_bridge_command(
            &remote_herdr,
            DEFAULT_SESSION_NAME,
            RemoteBridgeKind::Client,
        ),
        "exec /opt/homebrew/bin/herdr remote-client-bridge"
    );
    assert_eq!(remote_herdr.platform.asset_key(), "macos-aarch64");
}

#[test]
fn remote_path_probe_quotes_single_quotes_in_discovered_binary() {
    let remote_herdr = RemoteHerdr::for_platform(RemotePlatform {
        os: "linux",
        arch: "x86_64",
    });
    let stdout = matching_path_probe_stdout("/opt/herdr's/bin/herdr");
    let remote_herdr =
        from_path_probe(&remote_herdr, &stdout).expect("matching path binary");

    assert_eq!(
        remote_bridge_command(
            &remote_herdr,
            DEFAULT_SESSION_NAME,
            RemoteBridgeKind::Client,
        ),
        "exec '/opt/herdr'\\''s/bin/herdr' remote-client-bridge"
    );
}

#[test]
fn remote_binary_match_command_requires_bridge_probe() {
    let remote_herdr = RemoteHerdr::for_platform(RemotePlatform {
        os: "macos",
        arch: "aarch64",
    });

    assert_eq!(
        remote_binary_match_command(&remote_herdr),
        "test -x \"$HOME/.local/bin/herdr\" && \"$HOME/.local/bin/herdr\" --version && \"$HOME/.local/bin/herdr\" status client --json && HERDR_REMOTE_BRIDGE_PROBE=1 \"$HOME/.local/bin/herdr\" remote-client-bridge && HERDR_REMOTE_BRIDGE_PROBE=1 \"$HOME/.local/bin/herdr\" remote-api-bridge"
    );
}

#[test]
fn remote_herdr_from_exe_name_uses_commit_labeled_binary() {
    let platform = RemotePlatform {
        os: "macos",
        arch: "aarch64",
    };
    let remote_herdr =
        remote_herdr_from_exe_name(platform, "herdr-39986ed").expect("commit binary");

    assert_eq!(
        remote_bridge_command(
            &remote_herdr,
            DEFAULT_SESSION_NAME,
            RemoteBridgeKind::Api,
        ),
        "exec \"$HOME/.local/bin/herdr-39986ed\" remote-api-bridge"
    );
}

#[test]
fn remote_herdr_from_exe_name_skips_plain_binary_name() {
    let platform = RemotePlatform {
        os: "macos",
        arch: "aarch64",
    };

    assert!(remote_herdr_from_exe_name(platform, "herdr").is_none());
}

#[test]
fn remote_path_probe_ignores_version_mismatch() {
    let remote_herdr = RemoteHerdr::for_platform(RemotePlatform {
        os: "linux",
        arch: "x86_64",
    });
    let remote_herdr = from_path_probe(
        &remote_herdr,
        &format!("/usr/bin/herdr\nherdr 0.0.0\n{{\"protocol\":{PROTOCOL_VERSION}}}\n"),
    );

    assert!(remote_herdr.is_none());
}

#[test]
fn remote_path_probe_ignores_relative_paths() {
    let remote_herdr = RemoteHerdr::for_platform(RemotePlatform {
        os: "linux",
        arch: "x86_64",
    });
    let stdout = matching_path_probe_stdout("bin/herdr");
    let remote_herdr = from_path_probe(&remote_herdr, &stdout);

    assert!(remote_herdr.is_none());
}

#[test]
fn remote_path_probe_ignores_protocol_mismatch() {
    let remote_herdr = RemoteHerdr::for_platform(RemotePlatform {
        os: "linux",
        arch: "x86_64",
    });
    let stdout = format!("/usr/bin/herdr\nherdr {FULL_VERSION}\n{{\"protocol\":0}}\n");
    let remote_herdr = from_path_probe(&remote_herdr, &stdout);

    assert!(remote_herdr.is_none());
}

#[test]
fn parse_remote_server_status_json_reads_running_server() {
    assert_eq!(
        server_status(
            r#"{"status":"running","running":true,"version":"0.6.0","protocol":8,"capabilities":{"live_handoff":true}}"#
        ),
        RemoteServerStatus::Running {
            version: Some("0.6.0".into()),
            protocol: Some(8),
            live_handoff: true
        }
    );
}

#[test]
fn parse_remote_server_status_json_treats_missing_capability_as_no_handoff() {
    assert_eq!(
        server_status(
            r#"{"status":"running","running":true,"version":"0.6.0","protocol":8}"#
        ),
        RemoteServerStatus::Running {
            version: Some("0.6.0".into()),
            protocol: Some(8),
            live_handoff: false
        }
    );
}

#[test]
fn parse_remote_server_status_json_reads_stopped_server() {
    assert_eq!(
        server_status(
            r#"{"status":"not_running","running":false,"version":null,"protocol":null}"#
        ),
        RemoteServerStatus::NotRunning
    );
}

#[test]
fn remote_update_manifest_uses_root_assets_for_latest_version() {
    let manifest: RemoteUpdateManifest = manifest_of(
        r#"{
            "version": "1.2.3",
            "assets": {
                "linux-x86_64": "https://example.com/latest"
            },
            "releases": {
                "1.2.3": {
                    "assets": {
                        "linux-x86_64": "https://example.com/archive"
                    }
                }
            }
        }"#,
    );

    assert_eq!(
        manifest
            .release_for_version("1.2.3")
            .and_then(|release| asset_url(release, "linux-x86_64")),
        Some("https://example.com/latest")
    );
}

#[test]
fn remote_update_manifest_reads_archived_release_assets() {
    let manifest: RemoteUpdateManifest = manifest_of(
        r#"{
            "version": "1.2.4",
            "assets": {
                "linux-x86_64": "https://example.com/latest"
            },
            "releases": {
                "1.2.3": {
                    "notes": "ignored",
                    "assets": {
                        "linux-x86_64": "https://example.com/archive"
                    }
                }
            }
        }"#,
    );

    assert_eq!(
        manifest
            .release_for_version("1.2.3")
            .and_then(|release| asset_url(release, "linux-x86_64")),
        Some("https://example.com/archive")
    );
}

#[test]
fn remote_update_manifest_uses_archived_release_protocol() {
    let manifest: RemoteUpdateManifest = manifest_of(
        r#"{
            "version": "1.2.4",
            "protocol": 42,
            "assets": {
                "linux-x86_64": "https://example.com/latest"
            },
            "releases": {
                "1.2.3": {
                    "notes": "ignored",
                    "protocol": 41,
                    "assets": {
                        "linux-x86_64": "https://example.com/archive"
                    }
                }
            }
        }"#,
    );

    assert_eq!(
        manifest
            .release_for_version("1.2.3")
            .and_then(|release| release.protocol),
        Some(41)
    );
}

#[test]
fn remote_update_manifest_does_not_inherit_latest_protocol_for_archived_assets() {
    let manifest: RemoteUpdateManifest = manifest_of(
        r#"{
            "version": "1.2.4",
            "protocol": 42,
            "assets": {
                "linux-x86_64": "https://example.com/latest"
            },
            "releases": {
                "1.2.3": {
                    "notes": "ignored",
                    "assets": {
                        "linux-x86_64": "https://example.com/archive"
                    }
                }
            }
        }"#,
    );

    assert_eq!(
        manifest
            .release_for_version("1.2.3")
            .and_then(|release| release.protocol),
        None
    );
}

#[test]
fn remote_server_restart_reason_requires_stop_for_protocol_mismatch() {
    assert_eq!(
        remote_server_restart_reason(Some(FULL_VERSION), Some(0), false),
        Some(RemoteServerRestartReason::ProtocolMismatch)
    );
}

#[test]
fn remote_server_restart_reason_offers_restart_after_binary_update() {
    assert_eq!(
        remote_server_restart_reason(Some(FULL_VERSION), Some(PROTOCOL_VERSION), true),
        Some(RemoteServerRestartReason::BinaryUpdated)
    );
}

#[test]
fn remote_server_restart_reason_offers_restart_for_version_mismatch() {
    assert_eq!(
        remote_server_restart_reason(Some("0.0.0"), Some(PROTOCOL_VERSION), false),
        Some(RemoteServerRestartReason::VersionMismatch)
    );
    assert_eq!(
        remote_server_restart_reason(None, Some(PROTOCOL_VERSION), false),
        Some(RemoteServerRestartReason::VersionMismatch)
    );
}

#[test]
fn remote_server_restart_reason_allows_current_server() {
    assert_eq!(
        remote_server_restart_reason(Some(FULL_VERSION), Some(PROTOCOL_VERSION), false),
        None
    );
}

#[test]
fn install_source_description_uses_override_binary() {
    let platform = RemotePlatform {
        os: "linux",
        arch: "aarch64",
    };
    assert_eq!(
        install_source_description_for(&platform, Some("/tmp/herdr-aarch64"), false),
        "HERDR_REMOTE_BINARY (/tmp/herdr-aarch64)"
    );
}

#[test]
fn install_source_description_uses_local_binary_when_allowed() {
    let platform = RemotePlatform::local("linux", "x86_64");

    assert_eq!(
        install_source_description_for(&platform, None, true),
        "the current local herdr binary"
    );
}

#[test]
fn install_source_description_uses_release_asset_when_local_binary_cannot_seed_remote() {
    let platform = RemotePlatform::local("linux", "x86_64");

    assert_eq!(
        install_source_description_for(&platform, None, false),
        format!(
            "the {FULL_VERSION} release asset for {}",
            platform.asset_key()
        )
    );
}

#[test]
fn resolve_install_source_uses_override_binary_without_temporary_cleanup() {
    let platform = RemotePlatform {
        os: "linux",
        arch: "aarch64",
    };
    let source = resolve_install_source(
        &platform,
        &RemotePlatform::local("linux", "x86_64"),
        Some("/tmp/herdr-aarch64".to_string()),
        &CurrentExe {
            path: "/usr/bin/herdr".to_string(),
            managed: false,
        },
    )
    .expect("override source");
    assert_eq!(source.path, "/tmp/herdr-aarch64");
    assert!(source.temporary_dir.is_none());
}

fn matching_path_probe_stdout(path: &str) -> String {
    format!("{path}\nherdr {FULL_VERSION}\n{{\"protocol\":{PROTOCOL_VERSION}}}\n")
}

#[test]
fn remote_client_command_sets_main_target_metadata_env() {
    let command = remote_client_command(
        "/tmp/herdr-client.sock",
        "/tmp/herdr-api.sock",
        "herdr --remote iq-64",
        RemoteKeybindings::Local,
        "iq-64",
    );
    let get = |name: &str| {
        command
            .env
            .iter()
            .find(|(key, _)| key == name)
            .map(|(_, value)| value.as_str())
    };

    assert_eq!(get(MAIN_DISPLAY_NAME_ENV_VAR), Some("iq-64"));
    assert_eq!(get(MAIN_REMOTE_TARGET_ENV_VAR), Some("iq-64"));
    assert_eq!(get(SOCKET_PATH_ENV_VAR), Some("/tmp/herdr-api.sock"));
    assert_eq!(command.args, vec!["client"]);
}

#[test]
fn parse_client_status_json_reads_protocol() {
    let stdout = format!(
        "herdr {FULL_VERSION}\n{}\n",
        r#"{"version":"x","protocol":8,"binary":"/bin/herdr"}"#
    );
    assert_eq!(status_protocol(&match_status_line(&stdout)), Some(8));
    assert_eq!(status_protocol(r#"{"protocol":"unknown"}"#), None);
}

#[test]
fn local_forward_socket_path_uses_readable_name_when_it_fits() {
    // Short target + session leave plenty of room: keep the readable form so the socket path
    // stays easy to search for.
    let path = local_forward_socket_path("/tmp", 4711, "dev", "default", RemoteBridgeKind::Client);
    let filename = file_name(&path);
    assert!(
        filename.starts_with("herdr-remote-"),
        "expected readable name, got {filename}"
    );
    assert!(filename.contains("-dev-default-client."), "got {filename}");
    let api_path = local_forward_socket_path("/tmp", 4711, "dev", "default", RemoteBridgeKind::Api);
    assert_ne!(path, api_path);
    assert!(fits_unix_socket_path(&path));
    assert_eq!(path, "/tmp/herdr-remote-4711-dev-default-client.sock");
}

#[test]
fn remote_bridge_socket_paths_are_distinct_for_client_and_api() {
    let paths = remote_bridge_socket_paths("/tmp", 4711, "prod.example.com", "default");

    assert_ne!(paths.client_socket, paths.api_socket);
    assert!(file_name(&paths.client_socket).contains("-client."));
    assert!(file_name(&paths.api_socket).contains("-api."));
    assert!(fits_unix_socket_path(&paths.client_socket));
    assert!(fits_unix_socket_path(&paths.api_socket));
}

#[test]
fn local_forward_socket_path_fits_in_sun_path() {
    // Worst case for the readable form: a 49-character directory and the longest components.
    // The hashed short name fits under the directory.
    let tmpdir = "/var/folders/zz/zyxvpxvq6csfxvn_n0000000000000/T/";
    let target = "longish-host.example.com";
    let session = "a-fairly-long-session-name-here";
    let path = local_forward_socket_path(tmpdir, 4711, target, session, RemoteBridgeKind::Client);
    assert!(fits_unix_socket_path(&path));
    assert!(path.starts_with(tmpdir));
    assert!(file_name(&path).starts_with("herdr-r-"));
}

#[test]
fn local_forward_socket_path_falls_back_to_tmp_when_dir_is_long() {
    // A directory so long that even the hashed short name cannot fit inside it.
    let long_dir = format!("/tmp/{}", "a".repeat(80));
    let path = local_forward_socket_path(
        &long_dir,
        4711,
        "longish-host.example.com",
        "default",
        RemoteBridgeKind::Client,
    );
    let filename = file_name(&path);

    assert!(fits_unix_socket_path(&path), "still overflows: {path}");
    assert_eq!(path, format!("/tmp/{filename}"));
    assert!(
        filename.starts_with("herdr-r-"),
        "expected hashed fallback, got {filename}"
    );
}

#[test]
fn hashed_socket_names_tell_targets_apart() {
    let long_dir = format!("/tmp/{}", "a".repeat(80));
    let path = |target: &str, kind| local_forward_socket_path(&long_dir, 1, target, "s", kind);
    assert_ne!(
        path("one", RemoteBridgeKind::Client),
        path("two", RemoteBridgeKind::Client)
    );
    assert_ne!(
        path("one", RemoteBridgeKind::Client),
        path("one", RemoteBridgeKind::Api)
    );
    assert_eq!(
        path("one", RemoteBridgeKind::Client),
        path("one", RemoteBridgeKind::Client)
    );
}

#[test]
fn quoting_leaves_safe_words_alone() {
    assert_eq!(shell_quote("user@host"), "user@host");
    assert_eq!(shell_quote(""), "''");
    assert_eq!(shell_quote("a b"), "'a b'");
    assert_eq!(shell_quote("it's"), "'it'\\''s'");
    assert_eq!(shell_quote("$HOME"), "'$HOME'");
}

#[test]
fn uname_output_names_a_platform() {
    let platform = platform_from_uname_output("Linux\nx86_64\n").unwrap();
    assert_eq!(platform.asset_key(), "linux-x86_64");
    let err = platform_from_uname_output("Plan9\nmips\n").unwrap_err();
    assert!(err.contains("Plan9"), "{err}");
    assert!(platform_from_uname_output("").is_err());
    assert!(platform.same_as(&RemotePlatform::local("linux", "x86_64")));
    assert!(!platform.same_as(&RemotePlatform::local("macos", "x86_64")));
    assert_eq!(RemotePlatform::local("windows", "riscv").asset_key(), "unknown-unknown");
}

#[test]
fn any_path_probe_takes_the_first_absolute_line() {
    let herdr = RemoteHerdr::for_platform(RemotePlatform {
        os: "linux",
        arch: "x86_64",
    });
    let found = remote_herdr_from_path_probe_any(&herdr, "/opt/my herdr\nnoise\n").unwrap();
    assert_eq!(found.shell_path, "'/opt/my herdr'");
    assert_eq!(found.install_suffix, ".local/bin/herdr");
    assert!(remote_herdr_from_path_probe_any(&herdr, "herdr\n").is_none());
    assert!(remote_herdr_from_path_probe_any(&herdr, "").is_none());
    assert!(remote_path_probe_any_command().contains("command -v herdr"));
}

#[test]
fn binary_output_must_name_this_version_and_protocol() {
    let line = format!("herdr {FULL_VERSION} (abc)\n");
    assert!(remote_binary_output_matches(&line, Some(PROTOCOL_VERSION)));
    assert!(!remote_binary_output_matches(&line, Some(0)));
    assert!(!remote_binary_output_matches(&line, None));
    assert!(!remote_binary_output_matches(
        "herdr 0.0.0",
        Some(PROTOCOL_VERSION)
    ));
    assert!(!remote_binary_output_matches("", Some(PROTOCOL_VERSION)));
}

#[test]
fn bridge_command_quotes_a_named_session() {
    let herdr = RemoteHerdr::for_platform(RemotePlatform {
        os: "linux",
        arch: "x86_64",
    });
    assert_eq!(
        remote_bridge_command(&herdr, "my work", RemoteBridgeKind::Client),
        "exec \"$HOME/.local/bin/herdr\" --session 'my work' remote-client-bridge"
    );
}

#[test]
fn release_asset_must_be_of_this_version_and_protocol() {
    let platform = RemotePlatform::local("linux", "x86_64");
    let manifest = |version: &str, protocol: Option<u32>, key: &str| RemoteUpdateManifest {
        version: version.to_string(),
        protocol,
        assets: vec![ManifestAsset {
            key: key.to_string(),
            url: "https://example.com/a".to_string(),
        }],
        releases: Vec::new(),
    };
    assert_eq!(
        release_asset_url(
            &manifest(FULL_VERSION, Some(PROTOCOL_VERSION), "linux-x86_64"),
            &platform
        ),
        Ok("https://example.com/a".to_string())
    );
    assert!(release_asset_url(&manifest("0.0.1", None, "linux-x86_64"), &platform).is_err());
    assert!(release_asset_url(
        &manifest(FULL_VERSION, Some(PROTOCOL_VERSION), "macos-aarch64"),
        &platform
    )
    .is_err());
    assert!(release_asset_url(
        &manifest(FULL_VERSION, Some(PROTOCOL_VERSION + 1), "linux-x86_64"),
        &platform
    )
    .is_err());
}

#[test]
fn options_and_other_arguments_stay_in_order() {
    let args: Vec<String> = ["herdr", "--session", "x", "--remote", "dev", "attach", "1"]
        .iter()
        .map(|a| a.to_string())
        .collect();
    let (cleaned, remote) = extract_remote_args(&args).unwrap();
    assert_eq!(cleaned, vec!["herdr", "--session", "x", "attach", "1"]);
    assert!(!remote.unwrap().target.starts_with('-'));
    for keybindings in [RemoteKeybindings::Local, RemoteKeybindings::Server] {
        assert_eq!(
            RemoteKeybindings::parse(keybindings.as_str()),
            Ok(keybindings)
        );
    }
    assert!(RemoteKeybindings::parse("other").is_err());
}

#[test]
fn the_reattach_command_asks_for_what_it_was_made_of() {
    for program in ["herdr", "/opt/my tools/herdr", "it's"] {
        for session in [DEFAULT_SESSION_NAME, "dev", "two words", "-odd"] {
            for keybindings in [RemoteKeybindings::Local, RemoteKeybindings::Server] {
                for live_handoff in [false, true] {
                    let target = "user@host 'q' \"x\" $y";
                    let command =
                        reattach_command(program, target, session, keybindings, live_handoff);
                    let words = shlex::split(&command).unwrap();
                    let (cleaned, launch) = extract_remote_args(&words).unwrap();
                    let kept = if session == DEFAULT_SESSION_NAME {
                        vec![program]
                    } else {
                        vec![program, "--session", session]
                    };
                    assert_eq!(cleaned, kept);
                    assert_eq!(
                        launch,
                        Some(RemoteLaunch {
                            target: target.into(),
                            keybindings,
                            live_handoff,
                        })
                    );
                }
            }
        }
    }
}

#[test]
fn a_handoff_is_put_back_exactly_when_it_was_asked_for() {
    let args = |words: &[&str]| words.iter().map(|w| w.to_string()).collect::<Vec<_>>();
    let (cleaned, launch) = extract_remote_args(&args(&["herdr", "--handoff", "x"])).unwrap();
    assert_eq!(cleaned, args(&["herdr", "x", "--handoff"]));
    assert_eq!(launch, None);
    let (cleaned, launch) = extract_remote_args(&args(&["herdr", "x"])).unwrap();
    assert_eq!(cleaned, args(&["herdr", "x"]));
    assert_eq!(launch, None);
    let (cleaned, launch) =
        extract_remote_args(&args(&["herdr", "--handoff", "--remote=box"])).unwrap();
    assert_eq!(cleaned, args(&["herdr"]));
    assert!(launch.unwrap().live_handoff);
}
