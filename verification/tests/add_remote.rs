use herdr::add_remote::main_server_target_snapshot;
use herdr::add_remote_steps::{
    add_remote_next, handle_client_add_remote_submission, AddRemoteEvent, AddRemoteStep,
    BridgeSockets,
};
use herdr::api::RuntimeStatus;
use herdr::client::{client_render_plan, ClientSocket, ConnectionTarget};
use herdr::client_state::ClientState;
use herdr::messages::RenderEncoding;
use herdr::protocol::PROTOCOL_VERSION;
use herdr::remote_registry::{
    RemoteDefinitionSnapshot, RemoteKeybindingsSnapshot, RemoteTargetSnapshot,
};
use herdr::servers::{ConnectionState, ServerId};
use herdr::startup::{initial_state, ClientSettings};
use herdr::supervisor::overlay::AddRemoteDraft;
use herdr::supervisor::ClientSupervisorModel;

fn draft(target: &str) -> AddRemoteDraft {
    AddRemoteDraft {
        target: target.into(),
        name: Some("box".into()),
        keybindings: RemoteKeybindingsSnapshot::Local,
    }
}

fn stored(id: &str) -> RemoteDefinitionSnapshot {
    RemoteDefinitionSnapshot {
        id: id.into(),
        name: "box".into(),
        target: RemoteTargetSnapshot::Ssh {
            target: "host".into(),
            args: vec![],
        },
        session: None,
        keybindings: RemoteKeybindingsSnapshot::Local,
        disabled: false,
        auto_update: false,
        style_bg: None,
        style_fg: None,
        style_bullet: None,
    }
}

fn state_with_form() -> ClientState {
    let mut model = ClientSupervisorModel::new("local");
    model.open_add_remote_form();
    let plan = client_render_plan(Some(&model), RenderEncoding::SemanticFrame, (80, 24));
    let settings = ClientSettings {
        host_size: (80, 24),
        cell_size_px: (8, 16),
        kitty_graphics_enabled: false,
        mouse_scroll_lines: 3,
        direct_attach: false,
    };
    initial_state(Some(model), &plan, settings, vec![], vec![], 0)
}

fn sockets() -> BridgeSockets {
    BridgeSockets {
        client_socket: "/tmp/client.sock".into(),
        api_socket: "/tmp/api.sock".into(),
    }
}

fn status(protocol: u32) -> AddRemoteEvent {
    AddRemoteEvent::Status {
        status: Ok(RuntimeStatus {
            version: None,
            protocol: Some(protocol),
            live_handoff: false,
        }),
        elapsed_millis: 0,
    }
}

fn untouched(state: &ClientState) -> bool {
    let model = state.supervisor_model.as_ref().unwrap();
    model.servers().len() == 1
        && model.add_remote_form().is_some()
        && state.streams == vec![ServerId::main()]
        && state.bridges.is_empty()
}

/// Runs the events from the first step of a draft for a host.
fn run(state: &mut ClientState, events: Vec<AddRemoteEvent>) -> AddRemoteStep {
    let mut step = handle_client_add_remote_submission(draft("host"), &None);
    for event in events {
        step = add_remote_next(state, step, event);
    }
    step
}

fn up_to_send() -> Vec<AddRemoteEvent> {
    vec![
        AddRemoteEvent::BridgeStarted { bridge: sockets() },
        status(PROTOCOL_VERSION),
        AddRemoteEvent::Connected,
    ]
}

#[test]
fn drafts_are_read_before_anything_is_started() {
    assert_eq!(
        handle_client_add_remote_submission(draft("local:dev"), &None),
        AddRemoteStep::CheckStatus {
            draft: draft("local:dev"),
            target: ConnectionTarget::LocalSession(Some("dev".into())),
            socket: ClientSocket::Session(Some("dev".into())),
            bridge: None,
            wait_millis: 0,
        }
    );
    assert_eq!(
        handle_client_add_remote_submission(draft("ssh -p 22 host"), &None),
        AddRemoteStep::StartBridge {
            draft: draft("ssh -p 22 host"),
            target: "host".into(),
            args: vec!["-p".into(), "22".into()],
        }
    );
    assert_eq!(
        handle_client_add_remote_submission(draft(" "), &None),
        AddRemoteStep::Refused {
            message: "remote target is invalid".into()
        }
    );
    let main = main_server_target_snapshot(None, Some("dev".into()));
    assert_eq!(
        handle_client_add_remote_submission(draft("local:dev"), &main),
        AddRemoteStep::Refused {
            message: "remote already added".into()
        }
    );
}

#[test]
fn a_host_is_bridged_checked_and_connected_before_it_is_stored() {
    let mut state = state_with_form();
    let step = run(&mut state, vec![]);
    assert!(matches!(step, AddRemoteStep::StartBridge { .. }));
    let step = add_remote_next(
        &mut state,
        step,
        AddRemoteEvent::BridgeStarted { bridge: sockets() },
    );
    assert_eq!(
        step,
        AddRemoteStep::CheckStatus {
            draft: draft("host"),
            target: ConnectionTarget::SocketPath("/tmp/api.sock".into()),
            socket: ClientSocket::Path("/tmp/client.sock".into()),
            bridge: Some(sockets()),
            wait_millis: 0,
        }
    );
    let step = add_remote_next(&mut state, step, status(PROTOCOL_VERSION));
    assert_eq!(
        step,
        AddRemoteStep::Connect {
            draft: draft("host"),
            socket: ClientSocket::Path("/tmp/client.sock".into()),
            bridge: Some(sockets()),
        }
    );
    let step = add_remote_next(&mut state, step, AddRemoteEvent::Connected);
    assert_eq!(
        step,
        AddRemoteStep::SendAdd {
            draft: draft("host"),
            bridge: Some(sockets()),
        }
    );
    assert!(untouched(&state));

    let id = ServerId::secondary("r1");
    let result = Ok(stored("r1"));
    let step = add_remote_next(&mut state, step, AddRemoteEvent::Submitted { result });
    assert_eq!(
        step,
        AddRemoteStep::Attach {
            server_id: id.clone()
        }
    );
    assert_eq!(state.bridges.len(), 1);
    assert_eq!(state.bridges[0].server_id, id);
    assert_eq!(state.bridges[0].api_socket, "/tmp/api.sock");
    assert_eq!(state.streams, vec![ServerId::main()]);
    let model = state.supervisor_model.as_ref().unwrap();
    assert!(model.add_remote_form().is_some());

    let step = add_remote_next(&mut state, step, AddRemoteEvent::Attached);
    assert_eq!(step, AddRemoteStep::Done);
    assert_eq!(state.streams, vec![ServerId::main(), id.clone()]);
    let model = state.supervisor_model.as_ref().unwrap();
    assert!(model.add_remote_form().is_none());
    assert_eq!(
        model.server(&id).unwrap().connection_state,
        ConnectionState::Connected
    );
}

#[test]
fn a_status_that_may_come_is_waited_for() {
    let mut state = state_with_form();
    let step = handle_client_add_remote_submission(draft("local:dev"), &None);
    let busy = |elapsed_millis: u64| AddRemoteEvent::Status {
        status: Err("connection refused".into()),
        elapsed_millis,
    };
    let step = add_remote_next(&mut state, step, busy(0));
    assert!(matches!(
        step,
        AddRemoteStep::CheckStatus {
            wait_millis: 50,
            ..
        }
    ));
    let step = add_remote_next(&mut state, step, busy(5_000));
    assert_eq!(
        step,
        AddRemoteStep::Refused {
            message: "connection refused".into()
        }
    );
    assert!(untouched(&state));
}

#[test]
fn every_failure_before_the_remote_is_stored_leaves_the_client_as_it_was() {
    let error = || "no route".to_string();
    let mut after_bridge = vec![AddRemoteEvent::BridgeStarted { bridge: sockets() }];
    after_bridge.push(status(PROTOCOL_VERSION - 1));
    let mut after_status = up_to_send();
    after_status.pop();
    after_status.push(AddRemoteEvent::ConnectFailed { error: error() });
    let mut after_connection = up_to_send();
    after_connection.push(AddRemoteEvent::Submitted {
        result: Err("name already used".into()),
    });
    let cases = vec![
        (
            vec![AddRemoteEvent::BridgeFailed { error: error() }],
            "failed to start ssh remote bridge: no route".to_string(),
        ),
        (
            after_bridge,
            format!(
                "protocol mismatch: server protocol Some({}), client protocol {}",
                PROTOCOL_VERSION - 1,
                PROTOCOL_VERSION
            ),
        ),
        (after_status, error()),
        (after_connection, "name already used".to_string()),
    ];
    for (events, message) in cases {
        let mut state = state_with_form();
        let step = run(&mut state, events);
        assert_eq!(step, AddRemoteStep::Refused { message });
        assert!(untouched(&state));
    }
}

#[test]
fn what_does_not_fit_the_step_is_passed_over() {
    let mut state = state_with_form();
    let step = run(
        &mut state,
        vec![
            AddRemoteEvent::Connected,
            AddRemoteEvent::Submitted {
                result: Ok(stored("r1")),
            },
            AddRemoteEvent::Attached,
            status(PROTOCOL_VERSION),
        ],
    );
    assert!(matches!(step, AddRemoteStep::StartBridge { .. }));
    assert!(untouched(&state));
}

#[test]
fn a_stream_that_cannot_be_taken_over_keeps_the_form_and_shows_why() {
    let mut state = state_with_form();
    let mut events = up_to_send();
    events.push(AddRemoteEvent::Submitted {
        result: Ok(stored("r1")),
    });
    events.push(AddRemoteEvent::AttachFailed {
        error: "too many open files".into(),
    });
    let AddRemoteStep::Refused { message } = run(&mut state, events) else {
        panic!("the remote was not refused");
    };
    assert_eq!(message, "too many open files");
    assert_eq!(state.streams, vec![ServerId::main()]);
    state.on_add_remote_finished(Err(message), 10);
    let model = state.supervisor_model.as_ref().unwrap();
    assert_eq!(
        model.add_remote_form().unwrap().error.as_deref(),
        Some("too many open files")
    );
}
