use herdr::add_remote::{
    add_remote_error_message, add_remote_target_status_error_is_transient,
    main_server_target_snapshot, reject_duplicate_main_target, submit_remote_add_to_main_api,
    validate_add_remote_target, ValidateStep,
};
use herdr::api::{
    AgentTarget, EmptyParams, Method, RemoteAddParams, Request, ResponseResult, RuntimeStatus,
    Subscription, SuccessResponse, UiSettingsInfo, WorkspaceCreateParams, WorkspaceTarget,
};
use herdr::attach::{
    AttachEscapeState, AttachInputAction, AttachScroll, AttachScrollDirection, AttachScrollSource,
};
use herdr::client::{
    api_target_for_supervisor_server, bootstrap_supervisor_for_client,
    client_keybindings_from_snapshot, client_render_plan,
    client_socket_path_for_connection_target, client_socket_path_for_supervisor_server,
    connection_state_from_client_error, desired_mouse_capture, handshake_outcome,
    main_display_name_for_client, requested_keybindings, requested_render_encoding, run_client,
    run_terminal_attach, secondary_stream_source, ClientError, ClientSocket, ConnectionTarget,
    SshBridge, StreamSource,
};
use herdr::client_loop::select_composited_render_frame;
use herdr::client_state::{
    secondary_retry_delay, supervisor_summary_refresh_due, CachedFrame, ClientState,
    RetryDecision,
};
use herdr::compositor::{ClientCompositor, DEFAULT_SIDEBAR_WIDTH};
use herdr::dispatch::{dispatch_composited_input, ClientApiRefreshPolicy, ClientInputDispatch};
use herdr::frame::{FrameData, Rect};
use herdr::graphics::{
    contains_kitty_graphics_bytes, decode_clipboard_payload, find_subslice,
    kitty_graphics_command_image_id, kitty_graphics_image_ids,
    should_bridge_clipboard_image_paste, terminal_geometry, ReceivedGraphics, WindowSize,
};
use herdr::input::{
    encode_mouse, KeyCode, KeyModifiers, MouseButton, MouseEvent, MouseEventKind, RawInputEvent,
    TerminalKey,
};
use herdr::layout::{
    AgentPanel, CardArea, PickerPopup, ScrollInfo, SidebarHitTarget, SidebarLayout,
};
use herdr::messages::{
    build_hello_message, ClientKeybindings, ClientMessage, ClientSurfaceMode, NotifyKind,
    RenderEncoding, ServerMessage,
};
use herdr::notify::{
    handle_notify, sound_from_notify_message, split_message,
    summary_refresh_subscription_request, NotifyAction, Sound,
};
use herdr::protocol::PROTOCOL_VERSION;
use herdr::remote_registry::{
    RemoteDefinitionSnapshot, RemoteKeybindingsSnapshot, RemoteTargetSnapshot,
};
use herdr::servers::{
    AgentSummary, ConnectionState, ServerConnectionTarget, ServerFilter, ServerId, ServerSummary,
    WorkspaceSummary,
};
use herdr::supervisor::overlay::AddRemoteDraft;
use herdr::supervisor::ClientSupervisorModel;
use herdr::supervisor_api::SupervisorApi;

/// Reads the bytes that the tests send as terminal input.
fn parse(data: &Vec<u8>) -> Vec<RawInputEvent> {
    let text = String::from_utf8(data.clone()).unwrap();
    let mut events = Vec::new();
    let mut rest = text.as_str();
    while !rest.is_empty() {
        if let Some(paste) = rest.strip_prefix("\x1b[200~") {
            let (pasted, after) = paste.split_once("\x1b[201~").unwrap();
            events.push(RawInputEvent::Paste(pasted.to_string()));
            rest = after;
        } else if let Some(report) = rest.strip_prefix("\x1b[<") {
            let end = report.find(['M', 'm']).unwrap();
            let numbers: Vec<u16> = report[..end]
                .split(';')
                .map(|part| part.parse().unwrap())
                .collect();
            let kind = match numbers[0] {
                0 if report[end..].starts_with('M') => MouseEventKind::Down(MouseButton::Left),
                0 => MouseEventKind::Up(MouseButton::Left),
                32 => MouseEventKind::Drag(MouseButton::Left),
                64 => MouseEventKind::ScrollUp,
                65 => MouseEventKind::ScrollDown,
                _ => MouseEventKind::Moved,
            };
            events.push(RawInputEvent::Mouse(MouseEvent {
                kind,
                column: numbers[1] - 1,
                row: numbers[2] - 1,
                modifiers: KeyModifiers::none(),
            }));
            rest = &report[end + 1..];
        } else if let Some(sequence) = rest.strip_prefix("\x1b[") {
            let end = sequence.find(['~', 'u']).unwrap();
            let (key, modifiers) = match &sequence[..end] {
                "5" => (KeyCode::PageUp, KeyModifiers::none()),
                "6" => (KeyCode::PageDown, KeyModifiers::none()),
                "5;5" => (KeyCode::PageUp, control()),
                "118;5" => (KeyCode::Char('v'), control()),
                _ => (KeyCode::Other, KeyModifiers::none()),
            };
            events.push(RawInputEvent::Key(TerminalKey::new(key, modifiers)));
            rest = &sequence[end + 1..];
        } else {
            let c = rest.chars().next().unwrap();
            let (key, modifiers) = match c {
                '\x16' => (KeyCode::Char('v'), control()),
                '\t' => (KeyCode::Tab, KeyModifiers::none()),
                '\r' => (KeyCode::Enter, KeyModifiers::none()),
                '\x1b' => (KeyCode::Esc, KeyModifiers::none()),
                c => (KeyCode::Char(c), KeyModifiers::none()),
            };
            events.push(RawInputEvent::Key(TerminalKey::new(key, modifiers)));
            rest = &rest[c.len_utf8()..];
        }
    }
    events
}

fn control() -> KeyModifiers {
    KeyModifiers {
        control: true,
        ..KeyModifiers::none()
    }
}

/// Where the sidebar of the tests shows things: workspaces from the third row, the buttons in the
/// eighth, agents from the twelfth, the menu at the top right, the picker at the bottom.
fn layout(model: &ClientSupervisorModel) -> SidebarLayout {
    let no_scroll = ScrollInfo {
        offset: 0,
        max_offset: 0,
        scrollable: false,
    };
    SidebarLayout {
        new_button: Rect::new(0, 7, 6, 1),
        launcher: Rect::new(20, 7, 6, 1),
        mouse_capture: true,
        cards: (0..model.workspace_rows().len())
            .map(|ws_idx| CardArea {
                rect: Rect::new(0, 2 + 2 * ws_idx as u16, 26, 2),
                ws_idx,
            })
            .collect(),
        banners: Vec::new(),
        divider_rows: Vec::new(),
        agents: AgentPanel {
            body: Rect::new(0, 11, 26, 5),
            entry_rows: 2,
            scroll: 0,
        },
        detail_area: Rect::new(0, 8, 26, 8),
        agent_scroll: no_scroll,
        workspace_scroll: no_scroll,
        menu: Rect::new(10, 0, 16, 7),
        menu_items: 5,
        picker: Some(PickerPopup {
            popup: Rect::new(0, 10, 26, 6),
            inner: Rect::new(1, 11, 24, 5),
            confirm: Rect::new(2, 12, 6, 1),
            cancel: Rect::new(10, 12, 6, 1),
            rows: vec![Rect::new(1, 13, 24, 1), Rect::new(1, 14, 24, 1)],
        }),
        form: None,
        manage: None,
    }
}

fn bridges(data: &[u8]) -> bool {
    should_bridge_clipboard_image_paste(data, &parse(&data.to_vec()))
}

fn error_message(error: &ClientError) -> String {
    error.message("/tmp/herdr.sock", None, "herdr")
}

fn dispatch_input(
    data: Vec<u8>,
    compositor: &mut ClientCompositor,
    model: &mut ClientSupervisorModel,
    host_size: (u16, u16),
) -> ClientInputDispatch {
    let events = parse(&data);
    dispatch_composited_input(data, &events, compositor, model, host_size, |_, model| {
        layout(model)
    })
}

fn test_client_state_with_model(model: ClientSupervisorModel) -> ClientState {
    ClientState {
        supervisor_model: Some(model),
        compositor: None,
        attach_escape: None,
        reported_size: (80, 24),
        host_size: (80, 24),
        cell_size_px: (0, 0),
        kitty_graphics_enabled: false,
        mouse_capture_active: false,
        mouse_scroll_lines: 3,
        last_refresh: 0,
        frames: Vec::new(),
        streams: Vec::new(),
        subscriptions: Vec::new(),
        bridges: Vec::new(),
        retries: Vec::new(),
        full_redraw: false,
    }
}

fn retry_at(state: &ClientState, server_id: &ServerId) -> Option<u64> {
    state
        .retries
        .iter()
        .find(|retry| &retry.server_id == server_id)
        .map(|retry| retry.next_retry_at)
}

fn test_remote_definition(
    id: &str,
    name: &str,
) -> RemoteDefinitionSnapshot {
    RemoteDefinitionSnapshot {
        id: id.into(),
        name: name.into(),
        target: RemoteTargetSnapshot::Local {
            session: Some(id.into()),
        },
        session: None,
        keybindings: RemoteKeybindingsSnapshot::Local,
        disabled: false,
        auto_update: false,
        style_bg: None,
        style_fg: None,
        style_bullet: None,
    }
}

#[test]
fn clipboard_image_paste_bridge_triggers_on_ctrl_v_and_empty_paste() {
    assert!(bridges(&[0x16]));
    assert!(bridges(b"\x1b[118;5u"));
    assert!(bridges(b"\x1b[200~\x1b[201~"));
    assert!(!bridges(
        b"\x1b[200~text\x1b[201~"
    ));
    assert!(!bridges(b"v"));
}

#[test]
fn terminal_frame_kitty_detection_matches_apc_prefix() {
    assert!(contains_kitty_graphics_bytes(b"text\x1b_Ga=p;\x1b\\"));
    assert!(!contains_kitty_graphics_bytes(b"text\x1b[?2026h"));
}

#[test]
fn kitty_graphics_image_id_parser_tracks_herdr_ids_only() {
    let ids = kitty_graphics_image_ids(
        b"text\x1b_Ga=t,t=d,f=32,s=1,v=1,i=10023,q=2;AAAA\x1b\\\x1b_Ga=p,i=10023,p=7;\x1b\\",
    );
    assert_eq!(ids, vec![10023, 10023]);
}

#[test]
fn attach_escape_detaches_on_prefix_q() {
    let mut escape = AttachEscapeState::default();
    assert!(matches!(
        escape.filter_input(vec![0x02], 24, 3, parse),
        AttachInputAction::Swallow
    ));
    assert!(matches!(
        escape.filter_input(vec![b'q'], 24, 3, parse),
        AttachInputAction::Detach
    ));
}

#[test]
fn attach_escape_sends_literal_prefix_on_double_prefix() {
    let mut escape = AttachEscapeState::default();
    assert!(matches!(
        escape.filter_input(vec![0x02], 24, 3, parse),
        AttachInputAction::Swallow
    ));
    match escape.filter_input(vec![0x02], 24, 3, parse) {
        AttachInputAction::Forward(bytes) => assert_eq!(bytes, vec![0x02]),
        other => panic!("expected forwarded prefix, got {other:?}"),
    }
}

#[test]
fn attach_escape_forwards_prefix_before_non_escape_key() {
    let mut escape = AttachEscapeState::default();
    assert!(matches!(
        escape.filter_input(vec![b'a', 0x02], 24, 3, parse),
        AttachInputAction::Forward(bytes) if bytes == b"a"
    ));
    match escape.filter_input(vec![b'x'], 24, 3, parse) {
        AttachInputAction::Forward(bytes) => assert_eq!(bytes, vec![0x02, b'x']),
        other => panic!("expected forwarded bytes, got {other:?}"),
    }
}

#[test]
fn attach_escape_turns_wheel_into_scroll_action() {
    let mut escape = AttachEscapeState::default();
    match escape.filter_input(b"\x1b[<64;11;6M".to_vec(), 24, 7, parse) {
        AttachInputAction::Scroll(AttachScroll {
            source,
            direction,
            lines,
            column,
            row,
            ..
        }) => {
            assert_eq!(source, AttachScrollSource::Wheel);
            assert_eq!(direction, AttachScrollDirection::Up);
            assert_eq!(lines, 7);
            assert_eq!(column, Some(10));
            assert_eq!(row, Some(5));
        }
        other => panic!("expected scroll action, got {other:?}"),
    }
}

#[test]
fn attach_escape_swallows_non_wheel_mouse_reports() {
    let mut escape = AttachEscapeState::default();
    assert!(matches!(
        escape.filter_input(b"\x1b[<0;11;6M".to_vec(), 24, 7, parse),
        AttachInputAction::Swallow
    ));
}

#[test]
fn attach_escape_turns_plain_page_keys_into_scroll_actions() {
    let mut escape = AttachEscapeState::default();
    match escape.filter_input(b"\x1b[5~".to_vec(), 12, 3, parse) {
        AttachInputAction::Scroll(AttachScroll {
            source,
            direction,
            lines,
            ..
        }) => {
            assert_eq!(
                source,
                AttachScrollSource::PageKey {
                    input: b"\x1b[5~".to_vec()
                }
            );
            assert_eq!(direction, AttachScrollDirection::Up);
            assert_eq!(lines, 11);
        }
        other => panic!("expected page-up scroll action, got {other:?}"),
    }

    match escape.filter_input(b"\x1b[6~".to_vec(), 12, 3, parse) {
        AttachInputAction::Scroll(AttachScroll {
            source,
            direction,
            lines,
            ..
        }) => {
            assert_eq!(
                source,
                AttachScrollSource::PageKey {
                    input: b"\x1b[6~".to_vec()
                }
            );
            assert_eq!(direction, AttachScrollDirection::Down);
            assert_eq!(lines, 11);
        }
        other => panic!("expected page-down scroll action, got {other:?}"),
    }
}

#[test]
fn attach_escape_forwards_modified_page_key() {
    let mut escape = AttachEscapeState::default();
    match escape.filter_input(b"\x1b[5;5~".to_vec(), 12, 3, parse) {
        AttachInputAction::Forward(bytes) => assert_eq!(bytes, b"\x1b[5;5~"),
        other => panic!("expected modified page key to forward, got {other:?}"),
    }
}

#[test]
fn client_error_display_handshake_rejected() {
    let err = ClientError::HandshakeRejected {
        version: 1,
        error: "incompatible".into(),
    };
    let msg = error_message(&err);
    assert!(
        msg.contains("rejected handshake"),
        "should mention rejection: {msg}"
    );
    assert!(msg.contains("incompatible"), "should include error: {msg}");
}

#[test]
fn client_error_display_server_shutdown() {
    let err = ClientError::ServerShutdown {
        reason: Some("maintenance".into()),
    };
    let msg = error_message(&err);
    assert!(
        msg.contains("server shut down"),
        "should mention shutdown: {msg}"
    );
    assert!(msg.contains("maintenance"), "should include reason: {msg}");
}

#[test]
fn client_error_display_server_shutdown_no_reason() {
    let err = ClientError::ServerShutdown { reason: None };
    let msg = error_message(&err);
    assert!(
        msg.contains("server shut down"),
        "should mention shutdown: {msg}"
    );
}

#[test]
fn hello_message_uses_requested_surface_mode() {
    let hello = build_hello_message(
        80,
        24,
        0,
        0,
        RenderEncoding::SemanticFrame,
        ClientSurfaceMode::EmbeddedContent,
        ClientKeybindings::Server,
    );

    match hello {
        ClientMessage::Hello { surface_mode, .. } => {
            assert_eq!(surface_mode, ClientSurfaceMode::EmbeddedContent);
        }
        other => panic!("expected hello, got {other:?}"),
    }
}

#[test]
fn sound_from_notify_message_maps_done() {
    assert_eq!(
        sound_from_notify_message("agent done"),
        Some(Sound::Done)
    );
}

#[test]
fn sound_from_notify_message_maps_attention() {
    assert_eq!(
        sound_from_notify_message("agent attention"),
        Some(Sound::Request)
    );
}

#[test]
fn sound_from_notify_message_rejects_unknown_payloads() {
    assert_eq!(sound_from_notify_message("toast"), None);
}

#[derive(Default)]
struct BootstrapApi {
    requests: Vec<&'static str>,
}

impl SupervisorApi for BootstrapApi {
    fn request(
        &mut self,
        request: Request,
    ) -> Result<SuccessResponse, String> {
        let result = match request.method {
            Method::RemoteList(_) => {
                self.requests.push("remote.list");
                ResponseResult::RemoteList {
                    remotes: Vec::new(),
                }
            }
            Method::WorkspaceList(_) => {
                self.requests.push("workspace.list");
                ResponseResult::WorkspaceList {
                    workspaces: Vec::new(),
                }
            }
            Method::AgentList(_) => {
                self.requests.push("agent.list");
                ResponseResult::AgentList { agents: Vec::new() }
            }
            Method::ServerUiSettings(_) => {
                self.requests.push("server.ui_settings");
                ResponseResult::UiSettings {
                    settings: UiSettingsInfo::default(),
                }
            }
            other => return Err(format!("unexpected method: {other:?}")),
        };

        Ok(SuccessResponse {
            id: request.id,
            result,
        })
    }
}

#[derive(Default)]
struct RemoteAddApi {
    captured: Option<RemoteAddParams>,
}

impl SupervisorApi for RemoteAddApi {
    fn request(
        &mut self,
        request: Request,
    ) -> Result<SuccessResponse, String> {
        match request.method {
            Method::RemoteAdd(params) => {
                self.captured = Some(params);
                Ok(SuccessResponse {
                    id: request.id,
                    result: ResponseResult::RemoteAdded {
                        remote: RemoteDefinitionSnapshot {
                            id: "remote-1".into(),
                            name: "dev".into(),
                            target: RemoteTargetSnapshot::Local {
                                session: Some("dev".into()),
                            },
                            session: None,
                            keybindings:
                                RemoteKeybindingsSnapshot::Local,
                            disabled: false,
                            auto_update: false,
                            style_bg: None,
                            style_fg: None,
                            style_bullet: None,
                        },
                    },
                })
            }
            other => Err(format!("unexpected method: {other:?}")),
        }
    }
}

#[test]
fn submit_remote_add_to_main_api_builds_remote_add_request() {
    let mut api = RemoteAddApi::default();

    let remote = submit_remote_add_to_main_api(
        &mut api,
        AddRemoteDraft {
            target: "local:dev".into(),
            name: Some("dev".into()),
            keybindings: RemoteKeybindingsSnapshot::Local,
        },
    )
    .unwrap();

    assert_eq!(remote.id, "remote-1");
    assert_eq!(
        api.captured,
        Some(RemoteAddParams {
            name: Some("dev".into()),
            target: "local:dev".into(),
            keybindings: RemoteKeybindingsSnapshot::Local,
        })
    );
}

#[test]
fn add_remote_error_message_maps_registry_duplicates_for_modal() {
    assert_eq!(
        add_remote_error_message("remote target already exists"),
        "remote already added"
    );
    assert_eq!(
        add_remote_error_message("remote name already exists"),
        "name already used"
    );
    assert_eq!(
        add_remote_error_message("connection refused"),
        "connection refused"
    );
}

#[test]
fn summary_refresh_subscription_request_covers_sidebar_summary_events() {
    let request = summary_refresh_subscription_request("client:summary-events");

    assert_eq!(request.id, "client:summary-events");
    let Method::EventsSubscribe(params) = request.method else {
        panic!("expected events.subscribe request");
    };
    assert_eq!(
        params.subscriptions,
        vec![
            Subscription::WorkspaceCreated {},
            Subscription::WorkspaceUpdated {},
            Subscription::WorkspaceRenamed {},
            Subscription::WorkspaceClosed {},
            Subscription::WorkspaceFocused {},
            Subscription::TabCreated {},
            Subscription::TabClosed {},
            Subscription::TabFocused {},
            Subscription::TabRenamed {},
            Subscription::PaneCreated {},
            Subscription::PaneClosed {},
            Subscription::PaneFocused {},
            Subscription::PaneExited {},
            Subscription::PaneAgentDetected {},
            Subscription::PaneAgentStatusChanged {
                pane_id: None,
                agent_status: None,
            },
        ]
    );
}

#[test]
fn full_app_client_bootstraps_supervisor_from_main_api() {
    let mut api = BootstrapApi::default();

    let model = bootstrap_supervisor_for_client(false, &mut api, None)
        .unwrap()
        .expect("full app client should bootstrap supervisor");

    assert_eq!(
        api.requests,
        vec![
            "remote.list",
            "workspace.list",
            "agent.list",
            "server.ui_settings"
        ]
    );
    assert!(model.secondary_connection_plans().is_empty());
}

#[test]
fn direct_attach_client_skips_supervisor_bootstrap() {
    let mut api = BootstrapApi::default();

    let model = bootstrap_supervisor_for_client(true, &mut api, None).unwrap();

    assert!(model.is_none());
    assert!(api.requests.is_empty());
}

#[test]
fn client_render_plan_uses_embedded_content_when_supervisor_is_available() {
    let model = ClientSupervisorModel::new("local");

    let plan = client_render_plan(Some(&model), RenderEncoding::TerminalAnsi, (80, 24));

    assert_eq!(plan.surface_mode, ClientSurfaceMode::EmbeddedContent);
    assert_eq!(plan.requested_encoding, RenderEncoding::SemanticFrame);
    assert_eq!(
        plan.server_size,
        (80 - DEFAULT_SIDEBAR_WIDTH, 24)
    );
    assert!(plan.use_client_compositor);
}

#[test]
fn client_render_plan_uses_full_app_when_supervisor_is_unavailable() {
    let plan = client_render_plan(None, RenderEncoding::TerminalAnsi, (80, 24));

    assert_eq!(plan.surface_mode, ClientSurfaceMode::FullApp);
    assert_eq!(plan.requested_encoding, RenderEncoding::TerminalAnsi);
    assert_eq!(plan.server_size, (80, 24));
    assert!(!plan.use_client_compositor);
}

#[test]
fn client_render_plan_uses_embedded_content_with_secondary_servers() {
    let mut model = ClientSupervisorModel::new("local");
    model.add_secondary(RemoteDefinitionSnapshot {
        id: "remote-x".into(),
        name: "x".into(),
        target: RemoteTargetSnapshot::Local {
            session: Some("x".into()),
        },
        session: None,
        keybindings: RemoteKeybindingsSnapshot::Local,
        disabled: false,
        auto_update: false,
        style_bg: None,
        style_fg: None,
        style_bullet: None,
    });

    let plan = client_render_plan(Some(&model), RenderEncoding::TerminalAnsi, (80, 24));

    assert_eq!(plan.surface_mode, ClientSurfaceMode::EmbeddedContent);
    assert_eq!(plan.requested_encoding, RenderEncoding::SemanticFrame);
    assert_eq!(
        plan.server_size,
        (80 - DEFAULT_SIDEBAR_WIDTH, 24)
    );
    assert!(plan.use_client_compositor);
}

fn mixed_remote_model() -> (ClientSupervisorModel, ServerId) {
    let mut model = ClientSupervisorModel::new("local");
    let remote_id = model.add_secondary(RemoteDefinitionSnapshot {
        id: "remote-x".into(),
        name: "x".into(),
        target: RemoteTargetSnapshot::Local {
            session: Some("x".into()),
        },
        session: None,
        keybindings: RemoteKeybindingsSnapshot::Local,
        disabled: false,
        auto_update: false,
        style_bg: None,
        style_fg: None,
        style_bullet: None,
    });
    model
        .set_summary(
            &ServerId::main(),
            ServerSummary {
                workspaces: vec![WorkspaceSummary {
                    workspace_id: "main-herdr".into(),
                    label: "herdr".into(),
                    branch: Some("master".into()),
                    focused: true,
                }],
                agents: Vec::new(),
            },
        )
        .unwrap();
    model
        .set_summary(
            &remote_id,
            ServerSummary {
                workspaces: vec![WorkspaceSummary {
                    workspace_id: "remote-api".into(),
                    label: "api".into(),
                    branch: Some("feature/api".into()),
                    focused: false,
                }],
                agents: vec![AgentSummary {
                    agent_id: "remote-agent".into(),
                    workspace_id: "remote-api".into(),
                    label: "aider".into(),
                    status: "idle".into(),
                    focused: false,
                }],
            },
        )
        .unwrap();
    (model, remote_id)
}

#[test]
fn composited_input_clicking_filter_cycles_sidebar_filter_without_forwarding() {
    let (mut model, _) = mixed_remote_model();
    let mut compositor = ClientCompositor::new(26);

    let dispatch = dispatch_input(
        b"\x1b[<0;24;1M".to_vec(),
        &mut compositor,
        &mut model,
        (60, 16),
    );

    assert_eq!(dispatch, ClientInputDispatch::Redraw);
    assert_eq!(
        model.filter(),
        &ServerFilter::Server(ServerId::main())
    );
}

#[test]
fn composited_input_clicking_workspace_returns_owner_api_request() {
    let (mut model, remote_id) = mixed_remote_model();
    let mut compositor = ClientCompositor::new(26);
    let row = (0..16)
        .find(|row| {
            matches!(
                compositor.hit_test(&model, &layout(&model), 1, *row, 60, 20),
                Some(SidebarHitTarget::Workspace {
                    server_id,
                    workspace_id,
                }) if server_id == remote_id && workspace_id == "remote-api"
            )
        })
        .expect("remote workspace row should be hit-testable");

    let dispatch = dispatch_input(
        format!("\x1b[<0;2;{}M", row + 1).into_bytes(),
        &mut compositor,
        &mut model,
        (60, 20),
    );

    assert_eq!(
        dispatch,
        ClientInputDispatch::ApiRequest {
            server_id: remote_id.clone(),
            refresh: ClientApiRefreshPolicy::Deferred,
            request: Box::new(Request {
                id: "client:workspace-focus".into(),
                method: Method::WorkspaceFocus(
                    WorkspaceTarget {
                        workspace_id: "remote-api".into(),
                    },
                ),
            }),
        }
    );
    assert_eq!(model.active_server_id(), &remote_id);
}

#[test]
fn composited_input_clicking_agent_returns_owner_api_request() {
    let (mut model, remote_id) = mixed_remote_model();
    let mut compositor = ClientCompositor::new(26);

    let dispatch = dispatch_input(
        b"\x1b[<0;2;12M".to_vec(),
        &mut compositor,
        &mut model,
        (60, 16),
    );

    assert_eq!(
        dispatch,
        ClientInputDispatch::ApiRequest {
            server_id: remote_id.clone(),
            refresh: ClientApiRefreshPolicy::Deferred,
            request: Box::new(Request {
                id: "client:agent-focus".into(),
                method: Method::AgentFocus(
                    AgentTarget {
                        target: "remote-agent".into(),
                    },
                ),
            }),
        }
    );
    assert_eq!(model.active_server_id(), &remote_id);
}

#[test]
fn composited_input_translates_content_mouse_to_embedded_viewport() {
    let (mut model, _) = mixed_remote_model();
    let mut compositor = ClientCompositor::new(26);

    let dispatch = dispatch_input(
        b"\x1b[<0;28;3M".to_vec(),
        &mut compositor,
        &mut model,
        (60, 16),
    );

    assert_eq!(
        dispatch,
        ClientInputDispatch::Forward(b"\x1b[<0;2;3M".to_vec())
    );
}

#[test]
fn composited_input_clicking_new_with_single_destination_returns_create_request() {
    let (mut model, _) = mixed_remote_model();
    model.set_filter(ServerFilter::Server(
        ServerId::main(),
    ));
    let mut compositor = ClientCompositor::new(26);

    let dispatch = dispatch_input(
        b"\x1b[<0;2;8M".to_vec(),
        &mut compositor,
        &mut model,
        (60, 16),
    );

    assert_eq!(
        dispatch,
        ClientInputDispatch::ApiRequest {
            server_id: ServerId::main(),
            refresh: ClientApiRefreshPolicy::Immediate,
            request: Box::new(Request {
                id: "client:workspace-create".into(),
                method: Method::WorkspaceCreate(
                    WorkspaceCreateParams {
                        cwd: None,
                        focus: true,
                        label: None,
                    },
                ),
            }),
        }
    );
}

#[test]
fn composited_input_clicking_new_with_multiple_destinations_opens_picker() {
    let (mut model, _) = mixed_remote_model();
    let mut compositor = ClientCompositor::new(26);

    let dispatch = dispatch_input(
        b"\x1b[<0;2;8M".to_vec(),
        &mut compositor,
        &mut model,
        (60, 16),
    );

    assert_eq!(dispatch, ClientInputDispatch::Redraw);
    assert_eq!(
        model
            .new_workspace_picker_destinations()
            .map(|items| items.len()),
        Some(2)
    );
}

#[test]
fn composited_input_clicking_picker_destination_returns_create_request() {
    let (mut model, remote_id) = mixed_remote_model();
    model.open_new_workspace_picker();
    let mut compositor = ClientCompositor::new(26);

    let dispatch = dispatch_input(
        b"\x1b[<0;2;15M".to_vec(),
        &mut compositor,
        &mut model,
        (60, 16),
    );

    assert_eq!(
        dispatch,
        ClientInputDispatch::ApiRequest {
            server_id: remote_id.clone(),
            refresh: ClientApiRefreshPolicy::Immediate,
            request: Box::new(Request {
                id: "client:workspace-create".into(),
                method: Method::WorkspaceCreate(
                    WorkspaceCreateParams {
                        cwd: None,
                        focus: true,
                        label: None,
                    },
                ),
            }),
        }
    );
    assert_eq!(model.active_server_id(), &remote_id);
    assert_eq!(model.new_workspace_picker_destinations(), None);
}

#[test]
fn composited_input_clicking_menu_opens_client_global_menu() {
    let (mut model, _) = mixed_remote_model();
    let mut compositor = ClientCompositor::new(26);

    let dispatch = dispatch_input(
        b"\x1b[<0;24;8M".to_vec(),
        &mut compositor,
        &mut model,
        (60, 16),
    );

    assert_eq!(dispatch, ClientInputDispatch::Redraw);
    assert_eq!(model.client_global_menu_highlighted(), Some(0));
}

#[test]
fn composited_input_clicking_client_global_menu_dispatches_server_actions() {
    let (mut model, _) = mixed_remote_model();
    model.open_client_global_menu();
    let mut compositor = ClientCompositor::new(26);

    let settings = dispatch_input(
        b"\x1b[<0;22;2M".to_vec(),
        &mut compositor,
        &mut model,
        (60, 16),
    );

    assert_eq!(
        settings,
        ClientInputDispatch::ServerControl {
            server_id: ServerId::main(),
            message: ClientMessage::OpenSettings,
        }
    );

    model.open_client_global_menu();
    let keybinds = dispatch_input(
        b"\x1b[<0;22;3M".to_vec(),
        &mut compositor,
        &mut model,
        (60, 16),
    );

    assert_eq!(
        keybinds,
        ClientInputDispatch::ServerControl {
            server_id: ServerId::main(),
            message: ClientMessage::OpenKeybindHelp,
        }
    );

    model.open_client_global_menu();
    let reload = dispatch_input(
        b"\x1b[<0;22;4M".to_vec(),
        &mut compositor,
        &mut model,
        (60, 16),
    );

    assert_eq!(
        reload,
        ClientInputDispatch::ApiRequest {
            server_id: ServerId::main(),
            refresh: ClientApiRefreshPolicy::Immediate,
            request: Box::new(Request {
                id: "client:reload-config".into(),
                method: Method::ServerReloadConfig(
                    EmptyParams {},
                ),
            }),
        }
    );

    model.open_client_global_menu();
    let detach = dispatch_input(
        b"\x1b[<0;22;5M".to_vec(),
        &mut compositor,
        &mut model,
        (60, 16),
    );

    assert_eq!(detach, ClientInputDispatch::DetachAll);
}

#[test]
fn composited_global_menu_settings_targets_and_activates_main_when_remote_is_active() {
    let (mut model, remote_id) = mixed_remote_model();
    model
        .focus_workspace_route(&remote_id, "remote-api")
        .api_request("client:workspace-focus")
        .unwrap();
    assert_eq!(model.active_server_id(), &remote_id);

    model.open_client_global_menu();
    let mut compositor = ClientCompositor::new(26);
    let dispatch = dispatch_input(
        b"\x1b[<0;22;2M".to_vec(),
        &mut compositor,
        &mut model,
        (60, 16),
    );

    assert_eq!(
        dispatch,
        ClientInputDispatch::ServerControl {
            server_id: ServerId::main(),
            message: ClientMessage::OpenSettings,
        }
    );
    assert_eq!(model.active_server_id(), &ServerId::main());
}

#[test]
fn composited_input_dragging_sidebar_divider_resizes_content() {
    let (mut model, _) = mixed_remote_model();
    let mut compositor = ClientCompositor::new(26);

    assert_eq!(
        dispatch_input(
            b"\x1b[<0;26;5M".to_vec(),
            &mut compositor,
            &mut model,
            (80, 24),
        ),
        ClientInputDispatch::Redraw
    );
    assert_eq!(
        dispatch_input(
            b"\x1b[<32;31;5M".to_vec(),
            &mut compositor,
            &mut model,
            (80, 24),
        ),
        ClientInputDispatch::Resize { cols: 49, rows: 24 }
    );
    assert_eq!(compositor.sidebar_width(), 31);
}

#[test]
fn composited_client_keeps_mouse_capture_enabled_for_sidebar() {
    assert!(desired_mouse_capture(false, true));
    assert!(desired_mouse_capture(true, true));
    assert!(desired_mouse_capture(true, false));
    assert!(!desired_mouse_capture(false, false));
}

#[test]
fn composited_input_add_remote_form_submits_draft() {
    let (mut model, _) = mixed_remote_model();
    model.open_add_remote_form();
    let mut compositor = ClientCompositor::new(12);

    assert_eq!(
        dispatch_input(b"local:dev".to_vec(), &mut compositor, &mut model, (24, 8)),
        ClientInputDispatch::Redraw
    );
    assert_eq!(
        dispatch_input(b"\tdev".to_vec(), &mut compositor, &mut model, (24, 8)),
        ClientInputDispatch::Redraw
    );

    let dispatch =
        dispatch_input(b"\r".to_vec(), &mut compositor, &mut model, (24, 8));

    assert_eq!(
        dispatch,
        ClientInputDispatch::AddRemote(AddRemoteDraft {
            target: "local:dev".into(),
            name: Some("dev".into()),
            keybindings: RemoteKeybindingsSnapshot::Local,
        })
    );
}

#[test]
fn api_target_for_supervisor_server_maps_main_and_local_secondary() {
    let (model, remote_id) = mixed_remote_model();

    assert_eq!(
        api_target_for_supervisor_server(
            &model,
            &ServerId::main(),
            &Vec::new()
        ),
        Some(ConnectionTarget::LocalSession(None))
    );
    assert_eq!(
        api_target_for_supervisor_server(&model, &remote_id, &Vec::new()),
        Some(ConnectionTarget::LocalSession(Some(
            "x".into()
        )))
    );
}

fn test_frame(width: u16) -> FrameData {
    FrameData {
        cells: Vec::new(),
        width,
        height: 1,
        cursor: None,
        hyperlinks: Vec::new(),
        graphics: Vec::new(),
    }
}

#[test]
fn decode_clipboard_payload_decodes_base64() {
    assert_eq!(decode_clipboard_payload("dGVzdA=="), Some(b"test".to_vec()));
}

#[test]
fn decode_clipboard_payload_rejects_invalid_base64() {
    assert_eq!(decode_clipboard_payload("not-base64!!!"), None);
}

#[test]
fn graphics_bytes_are_written_after_blit_with_saved_cursor() {
    let output = ReceivedGraphics::new().write_encoded_frame_with_graphics(
        b"\x1b[?2026htext\x1b[?2026lcursor".to_vec(),
        b"graphics",
        true,
    );

    assert_eq!(
        output,
        b"\x1b[?2026htext\x1b[?2026lcursor\x1b7graphics\x1b8"
    );
}

#[test]
fn empty_graphics_writes_only_blit_frame() {
    let mut received = ReceivedGraphics::new();
    assert_eq!(
        received.write_encoded_frame_with_graphics(b"text".to_vec(), b"", true),
        b"text"
    );
}

#[test]
fn images_drawn_with_a_frame_are_given_up_at_the_end() {
    let graphics = b"\x1b_Ga=t,i=7,q=2;AAAA\x1b\\\x1b_Ga=p,i=9\x1b\\\x1b_Ga=p,i=7\x1b\\";
    let mut received = ReceivedGraphics::new();
    let bytes = received.write_encoded_frame_with_graphics(b"text".to_vec(), graphics, true);
    assert_eq!(bytes, [b"text\x1b7", &graphics[..], b"\x1b8"].concat());
    assert_eq!(received.ids, vec![7, 9]);
    assert_eq!(
        received.clear(),
        "\x1b_Ga=d,d=I,i=7,q=2;\x1b\\\x1b_Ga=d,d=I,i=9,q=2;\x1b\\"
    );

    let mut plain = ReceivedGraphics::new();
    let bytes = plain.write_encoded_frame_with_graphics(b"text".to_vec(), graphics, false);
    assert_eq!(bytes, b"text");
    assert!(plain.ids.is_empty());
}

#[test]
fn kitty_graphics_cleanup_deletes_tracked_images_not_all_images() {
    let mut received = ReceivedGraphics::new();
    received.record(b"\x1b_Ga=t,i=123,q=2;AAAA\x1b\\");
    let text = received.clear();
    assert!(text.contains("a=d,d=I,i=123"));
    assert!(!text.contains("d=A"));
    assert_eq!(received.clear(), "");
}

#[test]
fn client_error_display_connection_failed() {
    let err = ClientError::ConnectionFailed {
        error: "connection refused".into(),
    };
    let msg = error_message(&err);
    assert!(
        msg.contains("failed to connect to server"),
        "should mention connection failure: {msg}"
    );
    assert!(
        msg.contains("herdr server"),
        "should suggest starting server: {msg}"
    );
}

#[test]
fn client_error_display_detached_default_session_reattach_hint() {
    let err = ClientError::ServerShutdown {
        reason: Some("detached".into()),
    };
    let msg = err.message("/tmp/herdr.sock", None, "herdr");
    assert!(
        msg.contains("Run `herdr` to reattach"),
        "should suggest default reattach command: {msg}"
    );
    assert!(err.is_detached());
}

#[test]
fn client_error_display_detached_named_session_reattach_hint() {
    let err = ClientError::ServerShutdown {
        reason: Some("detached".into()),
    };
    let msg = err.message("/tmp/herdr.sock", None, "herdr session attach work");
    assert!(
        msg.contains("Run `herdr session attach work` to reattach"),
        "should suggest named session reattach command: {msg}"
    );
}

#[test]
fn client_error_display_detached_remote_reattach_hint_takes_precedence() {
    let err = ClientError::ServerShutdown {
        reason: Some("detached".into()),
    };
    let msg = err.message(
        "/tmp/herdr.sock",
        Some("herdr --remote host --session work"),
        "herdr session attach work",
    );
    assert!(
        msg.contains("Run `herdr --remote host --session work` to reattach"),
        "should prefer remote reattach command: {msg}"
    );
}

#[test]
fn client_error_display_connection_lost() {
    let err = ClientError::ConnectionLost {
        error: "broken pipe".into(),
    };
    let msg = error_message(&err);
    assert!(
        msg.contains("lost connection to server"),
        "should mention lost connection: {msg}"
    );
}

fn status(protocol: u32) -> Result<RuntimeStatus, String> {
    Ok(RuntimeStatus {
        version: Some("0.6.0".into()),
        protocol: Some(protocol),
        live_handoff: false,
    })
}

#[test]
fn validate_add_remote_target_rejects_local_protocol_mismatch() {
    let ValidateStep::Reject(err) = validate_add_remote_target(status(PROTOCOL_VERSION - 1), 0)
    else {
        panic!("expected a rejection");
    };

    assert!(err.contains("protocol mismatch"));
    assert!(err.contains(&PROTOCOL_VERSION.to_string()));
}

#[test]
fn validate_add_remote_target_accepts_ssh_bridge_api_socket() {
    assert_eq!(
        validate_add_remote_target(status(PROTOCOL_VERSION), 0),
        ValidateStep::Accept
    );
}

#[test]
fn validate_add_remote_target_retries_transient_bridge_timeout() {
    let mut attempts = 0;
    let mut elapsed = 0;

    let outcome = loop {
        attempts += 1;
        let answer = if attempts == 1 {
            Err("Resource temporarily unavailable (os error 35)".to_string())
        } else {
            status(PROTOCOL_VERSION)
        };
        match validate_add_remote_target(answer, elapsed) {
            ValidateStep::Retry(millis) => elapsed += millis,
            other => break other,
        }
    };

    assert_eq!(outcome, ValidateStep::Accept);
    assert_eq!(attempts, 2);
}

#[test]
fn validation_gives_up_on_other_errors_and_after_its_time() {
    assert_eq!(
        validate_add_remote_target(Err("no such host".into()), 0),
        ValidateStep::Reject("no such host".into())
    );
    let transient = "Resource temporarily unavailable (os error 35)";
    assert!(add_remote_target_status_error_is_transient(transient));
    assert!(!add_remote_target_status_error_is_transient("no such host"));
    assert_eq!(
        validate_add_remote_target(Err(transient.into()), 60_000),
        ValidateStep::Reject(transient.into())
    );
}

#[test]
fn add_remote_target_rejects_active_local_session_as_duplicate_main() {
    let main = main_server_target_snapshot(None, Some("dev".into()));
    let target = RemoteTargetSnapshot::Local {
        session: Some("dev".into()),
    };

    assert_eq!(
        reject_duplicate_main_target(&main, &target),
        Err("remote already added".to_string())
    );
}

#[test]
fn add_remote_target_rejects_main_remote_target_from_launch_env() {
    let main = main_server_target_snapshot(Some("iq-64"), None);
    let target = RemoteTargetSnapshot::Ssh {
        target: "iq-64".into(),
        args: Vec::new(),
    };

    assert_eq!(
        reject_duplicate_main_target(&main, &target),
        Err("remote already added".to_string())
    );
}

#[test]
fn remote_launch_display_name_labels_main_filter() {
    let mut api = BootstrapApi::default();

    let mut model = bootstrap_supervisor_for_client(false, &mut api, Some("iq-64"))
        .unwrap()
        .expect("remote client should bootstrap supervisor");
    model.cycle_filter();

    assert_eq!(model.filter_label(), "iq-64");
}

#[test]
fn supervisor_targets_map_ssh_secondary_through_bridge_sockets() {
    let mut model = ClientSupervisorModel::new("local");
    let remote_id = model.add_secondary(RemoteDefinitionSnapshot {
        id: "remote-prod".into(),
        name: "prod".into(),
        target: RemoteTargetSnapshot::Ssh {
            target: "prod.example.com".into(),
            args: Vec::new(),
        },
        session: None,
        keybindings: RemoteKeybindingsSnapshot::Local,
        disabled: false,
        auto_update: false,
        style_bg: None,
        style_fg: None,
        style_bullet: None,
    });
    let bridges = vec![SshBridge {
        server_id: remote_id.clone(),
        client_socket: "/tmp/herdr-prod-client.sock".into(),
        api_socket: "/tmp/herdr-prod-api.sock".into(),
    }];

    assert_eq!(
        api_target_for_supervisor_server(&model, &remote_id, &bridges),
        Some(ConnectionTarget::SocketPath(
            "/tmp/herdr-prod-api.sock".into()
        ))
    );
    assert_eq!(
        client_socket_path_for_supervisor_server(&model, &remote_id, &bridges),
        Some(ClientSocket::Path("/tmp/herdr-prod-client.sock".into()))
    );
    assert_eq!(
        api_target_for_supervisor_server(&model, &remote_id, &Vec::new()),
        None
    );
    let plans = model.secondary_connection_plans();
    assert_eq!(
        secondary_stream_source(&plans[0], &bridges),
        StreamSource::Socket(ClientSocket::Path("/tmp/herdr-prod-client.sock".into()))
    );
    assert_eq!(
        secondary_stream_source(&plans[0], &Vec::new()),
        StreamSource::StartBridge("prod.example.com".into())
    );
}

#[test]
fn supervisor_summary_refresh_due_uses_two_second_interval() {
    let start = 7_000;

    assert!(!supervisor_summary_refresh_due(start + 1999, start));
    assert!(supervisor_summary_refresh_due(start + 2000, start));
    assert!(!supervisor_summary_refresh_due(start - 1, start));
}

#[test]
fn secondary_retry_delay_uses_conservative_backoff_schedule() {
    assert_eq!(secondary_retry_delay(0), 1_000);
    assert_eq!(secondary_retry_delay(1), 2_000);
    assert_eq!(secondary_retry_delay(2), 5_000);
    assert_eq!(secondary_retry_delay(3), 15_000);
    assert_eq!(secondary_retry_delay(8), 15_000);
}

#[test]
fn client_socket_path_for_connection_target_maps_local_sessions_only() {
    assert_eq!(
        client_socket_path_for_connection_target(&ServerConnectionTarget::LocalSession(Some(
            "work".into()
        ))),
        Some(ClientSocket::Session(Some("work".into())))
    );
    assert_eq!(
        client_socket_path_for_connection_target(&ServerConnectionTarget::Main),
        Some(ClientSocket::Main)
    );
    assert_eq!(
        client_socket_path_for_connection_target(&ServerConnectionTarget::Ssh("host".into())),
        None
    );
}

#[test]
fn select_composited_render_frame_requires_active_server_cache() {
    let main = ServerId::main();
    let remote = ServerId::secondary("remote-x");
    let frames = vec![
        CachedFrame {
            server_id: main,
            frame: test_frame(10),
        },
        CachedFrame {
            server_id: remote.clone(),
            frame: test_frame(20),
        },
    ];

    assert_eq!(
        select_composited_render_frame(&frames, &remote)
            .unwrap()
            .width,
        20
    );

    let missing = ServerId::secondary("missing");
    assert_eq!(select_composited_render_frame(&frames, &missing), None);
}

#[test]
fn secondary_write_failure_disconnects_server_without_failing_client() {
    let now = 50_000;
    let mut model = ClientSupervisorModel::new("local");
    let remote_id = model.add_secondary(test_remote_definition("remote-x", "x"));
    model.set_active_server(remote_id.clone()).unwrap();
    let mut state = test_client_state_with_model(model);
    state.frames.push(CachedFrame {
        server_id: remote_id.clone(),
        frame: test_frame(8),
    });
    state.subscriptions.push(remote_id.clone());

    let result =
        state.handle_server_write_failure(remote_id.clone(), "secondary closed".into(), now);

    assert!(result.is_ok());
    assert!(state.frames.is_empty());
    assert!(state.subscriptions.is_empty());
    assert_eq!(
        state.supervisor_model.as_ref().unwrap().active_server_id(),
        &ServerId::main()
    );
    assert_eq!(
        retry_at(&state, &remote_id),
        Some(now + secondary_retry_delay(0))
    );
}

#[test]
fn main_write_failure_still_fails_client() {
    let mut state = test_client_state_with_model(ClientSupervisorModel::new("local"));

    let result = state.handle_server_write_failure(ServerId::main(), "main closed".into(), 1);

    assert!(matches!(result, Err(ClientError::ConnectionLost { .. })));
    assert!(state.retries.is_empty());
}

#[test]
fn schedule_missing_secondary_stream_retries_includes_new_connecting_servers() {
    let now = 50_000;
    let mut model = ClientSupervisorModel::new("local");
    model.sync_remote_registry(vec![test_remote_definition("remote-x", "x")]);
    let remote_id = ServerId::secondary("remote-x");
    let mut state = test_client_state_with_model(model);

    state.schedule_missing_secondary_stream_retries(now);

    assert_eq!(
        retry_at(&state, &remote_id),
        Some(now + secondary_retry_delay(0))
    );
}

#[test]
fn schedule_missing_secondary_stream_retries_includes_connected_server_without_stream() {
    let now = 50_000;
    let mut model = ClientSupervisorModel::new("local");
    let remote_id = model.add_secondary(test_remote_definition("remote-x", "x"));
    let mut state = test_client_state_with_model(model);

    state.schedule_missing_secondary_stream_retries(now);

    assert_eq!(
        retry_at(&state, &remote_id),
        Some(now + secondary_retry_delay(0))
    );
}

#[test]
fn toast_notify_from_server_is_emitted_even_when_attach_config_was_off() {
    assert_eq!(
        handle_notify(NotifyKind::Toast, "pi finished: workspace 1", false),
        NotifyAction::Terminal {
            title: "pi finished".to_string(),
            body: Some("workspace 1".to_string()),
        }
    );
}

#[test]
fn system_toast_notify_from_server_uses_system_notifier() {
    assert_eq!(
        handle_notify(NotifyKind::SystemToast, "pi finished: workspace 1", true),
        NotifyAction::System {
            title: "pi finished".to_string(),
            body: Some("workspace 1".to_string()),
        }
    );
}

#[test]
fn sounds_are_played_where_they_are_switched_on() {
    assert_eq!(
        handle_notify(NotifyKind::Sound, "agent done", true),
        NotifyAction::Play(Sound::Done)
    );
    assert_eq!(
        handle_notify(NotifyKind::Sound, "agent done", false),
        NotifyAction::Ignore
    );
    assert_eq!(
        handle_notify(NotifyKind::Sound, "toast", true),
        NotifyAction::Ignore
    );
    assert_eq!(split_message("plain"), ("plain".to_string(), None));
    assert_eq!(
        split_message("a: b: c"),
        ("a".to_string(), Some("b: c".to_string()))
    );
    assert_eq!(split_message("a:"), ("a:".to_string(), None));
    assert_eq!(
        split_message(": x"),
        (String::new(), Some("x".to_string()))
    );
}

#[test]
fn render_encoding_is_named_by_a_setting() {
    for name in ["terminal-ansi", "terminal_ansi", "ansi"] {
        assert_eq!(
            requested_render_encoding(Some(name)),
            RenderEncoding::TerminalAnsi
        );
    }
    assert_eq!(
        requested_render_encoding(Some("other")),
        RenderEncoding::SemanticFrame
    );
    assert_eq!(
        run_client(None).requested_encoding,
        RenderEncoding::SemanticFrame
    );
    assert!(run_client(Some("ansi")).attach.is_none());
    let attach = run_terminal_attach("t1".into(), true);
    assert_eq!(attach.requested_encoding, RenderEncoding::TerminalAnsi);
    assert_eq!(attach.attach, Some(("t1".to_string(), true)));
}

#[test]
fn keybindings_are_local_only_with_a_profile() {
    let local = || ClientKeybindings::Local {
        keys_toml: "x = 1".into(),
    };
    assert_eq!(
        requested_keybindings(Some("local"), Some("x = 1".into())),
        local()
    );
    assert_eq!(
        requested_keybindings(Some("local"), None),
        ClientKeybindings::Server
    );
    assert_eq!(
        requested_keybindings(None, Some("x = 1".into())),
        ClientKeybindings::Server
    );
    assert_eq!(
        client_keybindings_from_snapshot(RemoteKeybindingsSnapshot::Local, Some("x = 1".into())),
        local()
    );
    assert_eq!(
        client_keybindings_from_snapshot(RemoteKeybindingsSnapshot::Server, Some("x = 1".into())),
        ClientKeybindings::Server
    );
}

#[test]
fn blank_display_names_fall_back_to_local() {
    assert_eq!(main_display_name_for_client(None), "local");
    assert_eq!(main_display_name_for_client(Some("  ")), "local");
    assert_eq!(main_display_name_for_client(Some("iq-64")), "iq-64");
}

#[test]
fn handshake_is_read_from_the_welcome() {
    assert_eq!(
        handshake_outcome(ServerMessage::Welcome {
            version: 11,
            encoding: RenderEncoding::TerminalAnsi,
            error: None,
        }),
        Ok(RenderEncoding::TerminalAnsi)
    );
    let rejected = handshake_outcome(ServerMessage::Welcome {
        version: 10,
        encoding: RenderEncoding::TerminalAnsi,
        error: Some("too old".into()),
    })
    .unwrap_err();
    assert_eq!(
        connection_state_from_client_error(&rejected),
        ConnectionState::ProtocolMismatch {
            server_protocol: Some(10),
            client_protocol: PROTOCOL_VERSION,
        }
    );
    let confused = handshake_outcome(ServerMessage::ReloadSoundConfig).unwrap_err();
    assert_eq!(
        confused,
        ClientError::Protocol {
            error: "expected Welcome message".into()
        }
    );
    assert_eq!(
        connection_state_from_client_error(&confused),
        ConnectionState::Disconnected
    );
}

#[test]
fn a_lost_server_is_tried_again_until_it_speaks_another_protocol() {
    let mut model = ClientSupervisorModel::new("local");
    let id = model.add_secondary(test_remote_definition("remote-x", "x"));
    let mut state = test_client_state_with_model(model);
    state.streams.push(id.clone());
    state.handle_server_disconnected(id.clone(), 1_000).unwrap();
    assert!(state.streams.is_empty());
    assert_eq!(state.due_secondary_retries(1_999), vec![]);
    assert_eq!(state.due_secondary_retries(2_000), vec![(id.clone(), 0)]);
    assert!(matches!(
        state.retry_due_secondary_connection(&id),
        RetryDecision::Connect(plan) if plan.server_id == id
    ));
    let lost = ClientError::ConnectionFailed {
        error: "refused".into(),
    };
    state.secondary_connect_failed(id.clone(), 0, &lost, 2_000);
    assert_eq!(state.retries.len(), 1);
    assert_eq!(retry_at(&state, &id), Some(4_000));
    state.secondary_attach_failed(id.clone(), 1, &lost, 4_000);
    assert_eq!(retry_at(&state, &id), Some(9_000));
    let other_protocol = ClientError::HandshakeRejected {
        version: 1,
        error: "old".into(),
    };
    state.secondary_connect_failed(id.clone(), 2, &other_protocol, 9_000);
    assert!(state.retries.is_empty());
}

#[test]
fn an_attached_stream_ends_the_tries() {
    let mut model = ClientSupervisorModel::new("local");
    let id = model.add_secondary(test_remote_definition("remote-x", "x"));
    let mut state = test_client_state_with_model(model);
    state.schedule_secondary_retry(id.clone(), 0, 5);
    state.secondary_stream_attached(id.clone(), 10);
    assert!(state.retries.is_empty());
    assert_eq!(state.streams, vec![id.clone()]);
    assert_eq!(
        state.retry_due_secondary_connection(&id),
        RetryDecision::Dropped
    );
    assert_eq!(state.active_server_id(), ServerId::main());
}

#[test]
fn a_shut_down_main_server_ends_the_client() {
    let mut state = test_client_state_with_model(ClientSupervisorModel::new("local"));
    assert_eq!(
        state.handle_server_shutdown(ServerId::main(), Some("bye".into()), 1),
        Err(ClientError::ServerShutdown {
            reason: Some("bye".into())
        })
    );
}

#[test]
fn subscriptions_start_once() {
    let (model, remote_id) = mixed_remote_model();
    let mut state = test_client_state_with_model(model);
    let started: Vec<ServerId> = state
        .start_missing_supervisor_summary_subscriptions()
        .into_iter()
        .map(|(id, _)| id)
        .collect();
    assert_eq!(started, vec![ServerId::main(), remote_id.clone()]);
    assert_eq!(state.subscriptions, started);
    assert!(state
        .start_missing_supervisor_summary_subscriptions()
        .is_empty());
    let (fetch, waiting) = state.summary_fetch_plan();
    assert_eq!(
        fetch,
        vec![(
            remote_id,
            ConnectionTarget::LocalSession(Some("x".into()))
        )]
    );
    assert!(waiting.is_empty());
}

#[test]
fn servers_without_a_bridge_wait_for_it() {
    let mut model = ClientSupervisorModel::new("local");
    let mut definition = test_remote_definition("remote-x", "x");
    definition.target = RemoteTargetSnapshot::Ssh {
        target: "host".into(),
        args: vec![],
    };
    let id = model.add_secondary(definition);
    let state = test_client_state_with_model(model);
    let (fetch, waiting) = state.summary_fetch_plan();
    assert!(fetch.is_empty());
    assert_eq!(waiting, vec![id]);
}

#[test]
fn geometry_falls_back_where_nothing_is_known() {
    let window = WindowSize {
        columns: 100,
        rows: 50,
        width: 1000,
        height: 1000,
    };
    assert_eq!(
        terminal_geometry(Some((100, 50)), true, Some(window)),
        (100, 50, 10, 20)
    );
    assert_eq!(
        terminal_geometry(Some((100, 50)), false, Some(window)),
        (100, 50, 0, 0)
    );
    assert_eq!(terminal_geometry(None, true, None), (80, 24, 8, 16));
}

#[test]
fn mouse_reports_count_from_one() {
    assert_eq!(
        encode_mouse(
            MouseEventKind::Up(MouseButton::Right),
            0,
            9,
            KeyModifiers::none()
        ),
        Some("\x1b[<2;1;10m".into())
    );
    assert_eq!(
        encode_mouse(MouseEventKind::ScrollDown, 4, 4, control()),
        Some("\x1b[<81;5;5M".into())
    );
    assert_eq!(
        encode_mouse(MouseEventKind::Moved, 4, 4, KeyModifiers::none()),
        None
    );
}

#[test]
fn graphics_commands_are_found_by_their_start() {
    assert_eq!(find_subslice(b"abcabc", b"ca"), Some(2));
    assert_eq!(find_subslice(b"abc", b"x"), None);
    assert_eq!(kitty_graphics_command_image_id(b"a=t,i=7;AA"), Some(7));
    assert_eq!(kitty_graphics_command_image_id(b"a=t;i=7"), None);
    assert_eq!(kitty_graphics_command_image_id(b"i=x"), None);
    assert_eq!(kitty_graphics_command_image_id(b"i=\xff"), None);
}

#[test]
fn plain_bytes_pass_an_attached_terminal() {
    let mut escape = AttachEscapeState::default();
    assert_eq!(
        escape.filter_input(b"hello".to_vec(), 24, 3, parse),
        AttachInputAction::Forward(b"hello".to_vec())
    );
    // The prefix may come in one piece with the key behind it.
    assert_eq!(
        escape.filter_input(vec![b'a', 0x02, b'q'], 24, 3, parse),
        AttachInputAction::Detach
    );
}
