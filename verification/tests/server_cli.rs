use herdr::api::ServerLiveHandoffParams;
use herdr::build_info::FULL_VERSION;
use herdr::protocol::PROTOCOL_VERSION;
use herdr::server_cli::{
    live_handoff_params_with_cli_defaults, parse_live_handoff_params, run_server_command,
    ServerCommand,
};

fn words(args: &[&str]) -> Vec<String> {
    args.iter().map(|a| a.to_string()).collect()
}

#[test]
fn live_handoff_params_parse_remote_update_fields() {
    let args = vec![
        "--import-exe".to_string(),
        "/home/me/.local/bin/herdr".to_string(),
        "--expected-protocol=9".to_string(),
        "--expected-version".to_string(),
        "0.6.2".to_string(),
    ];

    let params = parse_live_handoff_params(&args).expect("params");

    assert_eq!(
        params.import_exe.as_deref(),
        Some("/home/me/.local/bin/herdr")
    );
    assert_eq!(params.expected_protocol, Some(9));
    assert_eq!(params.expected_version.as_deref(), Some("0.6.2"));
}

#[test]
fn live_handoff_params_default_import_exe_to_current_cli_binary() {
    let params = live_handoff_params_with_cli_defaults(
        ServerLiveHandoffParams {
            import_exe: None,
            expected_protocol: None,
            expected_version: None,
        },
        "/opt/herdr/bin/herdr",
    );

    assert_eq!(params.import_exe.as_deref(), Some("/opt/herdr/bin/herdr"));
    assert_eq!(params.expected_protocol, Some(PROTOCOL_VERSION));
    assert_eq!(params.expected_version.as_deref(), Some(FULL_VERSION));
}

#[test]
fn given_handoff_params_are_kept() {
    let params = live_handoff_params_with_cli_defaults(
        ServerLiveHandoffParams {
            import_exe: Some("/a".to_string()),
            expected_protocol: Some(3),
            expected_version: Some("1.2.3".to_string()),
        },
        "/b",
    );
    assert_eq!(params.import_exe.as_deref(), Some("/a"));
    assert_eq!(params.expected_protocol, Some(3));
    assert_eq!(params.expected_version.as_deref(), Some("1.2.3"));
}

#[test]
fn live_handoff_params_reject_what_they_do_not_know() {
    assert!(parse_live_handoff_params(&words(&["--import-exe"])).is_none());
    assert!(parse_live_handoff_params(&words(&["--expected-protocol", "x"])).is_none());
    assert!(parse_live_handoff_params(&words(&["--expected-protocol=4294967296"])).is_none());
    assert!(parse_live_handoff_params(&words(&["--other"])).is_none());
    let empty = parse_live_handoff_params(&words(&[])).unwrap();
    assert_eq!(empty.import_exe, None);
    let last = parse_live_handoff_params(&words(&[
        "--expected-version=1",
        "--expected-version=2",
    ]))
    .unwrap();
    assert_eq!(last.expected_version.as_deref(), Some("2"));
}

#[test]
fn server_command_lines_are_told_apart() {
    assert_eq!(run_server_command(&words(&[])), ServerCommand::Serve);
    assert_eq!(
        run_server_command(&words(&["--handoff-import", "x"])),
        ServerCommand::Serve
    );
    assert_eq!(run_server_command(&words(&["stop"])), ServerCommand::Stop);
    assert_eq!(
        run_server_command(&words(&["stop", "now"])),
        ServerCommand::Usage("usage: herdr server stop")
    );
    assert_eq!(
        run_server_command(&words(&["reload-config"])),
        ServerCommand::ReloadConfig
    );
    assert_eq!(
        run_server_command(&words(&["reload-config", "x"])),
        ServerCommand::Usage("usage: herdr server reload-config")
    );
    assert!(matches!(
        run_server_command(&words(&["live-handoff"])),
        ServerCommand::LiveHandoff(_)
    ));
    assert!(matches!(
        run_server_command(&words(&["live-handoff", "--bogus"])),
        ServerCommand::Usage(_)
    ));
    assert_eq!(
        run_server_command(&words(&["--help"])),
        ServerCommand::Help(0)
    );
    assert_eq!(
        run_server_command(&words(&["bogus"])),
        ServerCommand::Help(2)
    );
}
