use herdr::attach::AttachEscapeState;
use herdr::client::{client_render_plan, ClientError, SshBridge};
use herdr::client_loop::{ClipboardImage, LoopAction};
use herdr::client_state::{add_bridge, ClientState, RetryDecision, TryOutcome};
use herdr::dispatch::{ClientApiRefreshPolicy, ClientInputDispatch};
use herdr::frame::{blank_frame, FrameData, Rect};
use herdr::input::{KeyCode, KeyModifiers, RawInputEvent, TerminalKey};
use herdr::layout::{AgentPanel, ScrollInfo, SidebarLayout};
use herdr::messages::{ClientMessage, NotifyKind, RenderEncoding, ServerMessage};
use herdr::remote_registry::{
    RemoteDefinitionSnapshot, RemoteKeybindingsSnapshot, RemoteTargetSnapshot,
};
use herdr::servers::{
    AgentSummary, ConnectionState, ServerId, ServerSummary, WorkspaceSummary,
};
use herdr::startup::{
    attach_request, client_shows_graphics, exit_code, initial_state, note_first_connection,
    ClientSettings,
};
use herdr::supervisor::ClientSupervisorModel;

fn definition(id: &str) -> RemoteDefinitionSnapshot {
    RemoteDefinitionSnapshot {
        id: id.into(),
        name: id.into(),
        target: RemoteTargetSnapshot::Local {
            session: Some(id.into()),
        },
        session: None,
        keybindings: RemoteKeybindingsSnapshot::Local,
        disabled: false,
        auto_update: false,
        style_bg: None,
        style_fg: None,
        style_bullet: None,
    }
}

fn settings(direct_attach: bool) -> ClientSettings {
    ClientSettings {
        host_size: (80, 24),
        cell_size_px: (8, 16),
        kitty_graphics_enabled: true,
        mouse_scroll_lines: 3,
        direct_attach,
    }
}

fn composited() -> (ClientState, ServerId) {
    let mut model = ClientSupervisorModel::new("local");
    let id = model.add_secondary(definition("x"));
    let plan = client_render_plan(Some(&model), RenderEncoding::SemanticFrame, (80, 24));
    let state = initial_state(
        Some(model),
        &plan,
        settings(false),
        vec![id.clone()],
        vec![],
        1_000,
    );
    (state, id)
}

fn plain() -> ClientState {
    let plan = client_render_plan(None, RenderEncoding::TerminalAnsi, (80, 24));
    initial_state(None, &plan, settings(false), vec![], vec![], 1_000)
}

fn layout() -> SidebarLayout {
    let no_scroll = ScrollInfo {
        offset: 0,
        max_offset: 0,
        scrollable: false,
    };
    SidebarLayout {
        new_button: Rect::new(0, 7, 6, 1),
        launcher: Rect::new(20, 7, 6, 1),
        mouse_capture: true,
        cards: vec![],
        banners: vec![],
        divider_rows: vec![],
        agents: AgentPanel {
            body: Rect::new(0, 11, 26, 5),
            entry_rows: 2,
            scroll: 0,
        },
        detail_area: Rect::new(0, 8, 26, 8),
        agent_scroll: no_scroll,
        workspace_scroll: no_scroll,
        menu: Rect::new(10, 0, 16, 7),
        menu_items: 5,
        picker: None,
        form: None,
        manage: None,
    }
}

fn key(c: char) -> RawInputEvent {
    RawInputEvent::Key(TerminalKey::new(KeyCode::Char(c), KeyModifiers::none()))
}

fn parse(data: &Vec<u8>) -> Vec<RawInputEvent> {
    data.iter()
        .map(|b| {
            if *b == 0x16 {
                RawInputEvent::Key(TerminalKey::new(
                    KeyCode::Char('v'),
                    KeyModifiers {
                        control: true,
                        ..KeyModifiers::none()
                    },
                ))
            } else {
                key(*b as char)
            }
        })
        .collect()
}

fn input(state: &mut ClientState, data: &[u8]) -> herdr::client_loop::LoopOutcome {
    let data = data.to_vec();
    let events = parse(&data);
    state.on_input(data, &events, false, parse, |_, _| layout())
}

#[test]
fn a_client_starts_as_its_plan_says() {
    let (state, id) = composited();
    assert_eq!(state.streams, vec![ServerId::main(), id]);
    assert_eq!(state.reported_size, (54, 24));
    assert!(state.compositor.is_some());
    assert!(state.mouse_capture_active);
    assert!(state.attach_escape.is_none());
    assert_eq!(state.last_refresh, 1_000);

    let state = plain();
    assert_eq!(state.streams, vec![ServerId::main()]);
    assert_eq!(state.reported_size, (80, 24));
    assert!(state.compositor.is_none());
    assert!(!state.mouse_capture_active);
}

#[test]
fn single_terminals_are_asked_for_and_show_no_graphics() {
    let attach = Some(("t1".to_string(), true));
    assert!(client_shows_graphics(true, &None));
    assert!(!client_shows_graphics(true, &attach));
    assert!(!client_shows_graphics(false, &None));
    assert_eq!(
        attach_request(attach),
        Some(ClientMessage::AttachTerminal {
            terminal_id: "t1".into(),
            takeover: true
        })
    );
    assert_eq!(attach_request(None), None);
}

#[test]
fn first_connections_are_noted() {
    let mut model = ClientSupervisorModel::new("local");
    let id = model.add_secondary(definition("x"));
    let bridges = || {
        vec![SshBridge {
            server_id: ServerId::secondary("x"),
            client_socket: "/c".into(),
            api_socket: "/a".into(),
        }]
    };
    let kept = note_first_connection(&mut model, bridges(), &id, &Ok(()));
    assert_eq!(kept.len(), 1);
    assert_eq!(
        model.server(&id).unwrap().connection_state,
        ConnectionState::Connected
    );
    let failed = Err(ClientError::ConnectionFailed {
        error: "refused".into(),
    });
    let left = note_first_connection(&mut model, bridges(), &id, &failed);
    assert!(left.is_empty());
    assert_eq!(
        model.server(&id).unwrap().connection_state,
        ConnectionState::Disconnected
    );
}

#[test]
fn detaching_is_no_failure() {
    assert_eq!(exit_code(&Ok(())), 0);
    assert_eq!(
        exit_code(&Err(ClientError::ServerShutdown {
            reason: Some("detached".into())
        })),
        0
    );
    assert_eq!(
        exit_code(&Err(ClientError::ServerShutdown { reason: None })),
        1
    );
}

#[test]
fn a_resized_host_tells_every_server_the_size_of_the_content() {
    let (mut state, _) = composited();
    let outcome = state.on_resize(100, 30, 9, 18);
    assert_eq!(state.host_size, (100, 30));
    assert_eq!(state.reported_size, (74, 30));
    assert!(outcome.exit.is_none());
    assert!(matches!(
        &outcome.actions[0],
        LoopAction::Broadcast {
            message: ClientMessage::Resize {
                cols: 74,
                rows: 30,
                cell_width_px: 9,
                cell_height_px: 18
            }
        }
    ));
}

#[test]
fn only_the_active_server_prints() {
    let (mut state, id) = composited();
    let bytes = || ServerMessage::Terminal {
        bytes: b"hi".to_vec(),
    };
    assert!(state
        .on_server_message(id.clone(), bytes(), 5)
        .actions
        .is_empty());
    let outcome = state.on_server_message(ServerId::main(), bytes(), 5);
    assert!(matches!(
        &outcome.actions[0],
        LoopAction::Print { bytes, record_graphics: false } if bytes == b"hi"
    ));
    let graphics = state.on_server_message(
        ServerId::main(),
        ServerMessage::Terminal {
            bytes: b"\x1b_Ga=t,i=3;A\x1b\\".to_vec(),
        },
        5,
    );
    assert!(matches!(
        &graphics.actions[0],
        LoopAction::Print {
            record_graphics: true,
            ..
        }
    ));
}

#[test]
fn frames_are_kept_and_drawn_for_the_active_server() {
    let (mut state, id) = composited();
    let frame = |width| ServerMessage::Frame(blank_frame(width, 1));
    assert!(state
        .on_server_message(id.clone(), frame(3), 5)
        .actions
        .is_empty());
    assert!(matches!(
        state.on_server_message(ServerId::main(), frame(4), 5).actions[..],
        [LoopAction::RenderCached]
    ));
    state.on_server_message(ServerId::main(), frame(5), 5);
    assert_eq!(state.frames.len(), 2);
    let shown: Option<&FrameData> =
        herdr::client_loop::select_composited_render_frame(&state.frames, &ServerId::main());
    assert_eq!(shown.unwrap().width, 5);

    let mut plain = plain();
    assert!(matches!(
        plain.on_server_message(ServerId::main(), frame(4), 5).actions[..],
        [LoopAction::ShowFrame { .. }]
    ));
}

#[test]
fn other_messages_lead_to_their_actions() {
    let (mut state, _) = composited();
    let main = ServerId::main;
    assert!(matches!(
        state
            .on_server_message(
                main(),
                ServerMessage::Notify {
                    kind: NotifyKind::Toast,
                    message: "x".into()
                },
                5
            )
            .actions[..],
        [LoopAction::Notify { .. }]
    ));
    assert!(matches!(
        state
            .on_server_message(main(), ServerMessage::Clipboard { data: "eA==".into() }, 5)
            .actions[..],
        [LoopAction::SetClipboard { .. }]
    ));
    assert!(matches!(
        state
            .on_server_message(main(), ServerMessage::ReloadSoundConfig, 5)
            .actions[..],
        [LoopAction::ReloadConfig]
    ));
    // The sidebar needs the mouse, whatever the server says.
    assert!(state
        .on_server_message(main(), ServerMessage::MouseCapture { enabled: false }, 5)
        .actions
        .is_empty());
    let mut plain = plain();
    assert!(matches!(
        plain
            .on_server_message(main(), ServerMessage::MouseCapture { enabled: true }, 5)
            .actions[..],
        [LoopAction::SetMouseCapture { enabled: true }]
    ));
}

#[test]
fn a_lost_secondary_does_not_end_the_client() {
    let (mut state, id) = composited();
    let outcome = state.on_server_disconnected(id.clone(), 2_000);
    assert!(outcome.exit.is_none());
    assert_eq!(state.streams, vec![ServerId::main()]);
    assert_eq!(state.retries.len(), 1);
    let outcome = state.on_server_disconnected(ServerId::main(), 2_000);
    assert!(matches!(outcome.exit, Some(Err(_))));

    let (mut state, id) = composited();
    let shutdown = ServerMessage::ServerShutdown {
        reason: Some("bye".into()),
    };
    assert!(state.on_server_message(id, shutdown, 2_000).exit.is_none());
    let (mut state, id) = composited();
    assert!(state
        .on_write_failed(id, &ClientMessage::Detach, "broken pipe".into(), 2_000)
        .exit
        .is_none());
    assert!(matches!(
        state
            .on_write_failed(
                ServerId::main(),
                &ClientMessage::Detach,
                "broken pipe".into(),
                2_000
            )
            .exit,
        Some(Err(ClientError::ConnectionLost { .. }))
    ));
}

#[test]
fn only_a_lost_keystroke_draws_the_screen() {
    let typed = ClientMessage::Input { data: vec![b'a'] };
    let pasted = ClientMessage::ClipboardImage {
        extension: "png".into(),
        data: vec![1],
    };
    for message in [typed, pasted] {
        let (mut state, id) = composited();
        let outcome = state.on_write_failed(id.clone(), &message, "broken pipe".into(), 2_000);
        assert!(matches!(
            &outcome.actions[..],
            [LoopAction::Close { server_id }, LoopAction::RenderCached] if *server_id == id
        ));
        assert!(state.full_redraw);
    }
    let resized = ClientMessage::Resize {
        cols: 80,
        rows: 24,
        cell_width_px: 8,
        cell_height_px: 16,
    };
    for message in [resized, ClientMessage::OpenSettings] {
        let (mut state, id) = composited();
        let outcome = state.on_write_failed(id.clone(), &message, "broken pipe".into(), 2_000);
        assert!(matches!(
            &outcome.actions[..],
            [LoopAction::Close { server_id }] if *server_id == id
        ));
        assert_eq!(state.streams, vec![ServerId::main()]);
    }
}

fn bridge(id: &ServerId, socket: &str) -> SshBridge {
    SshBridge {
        server_id: id.clone(),
        client_socket: socket.into(),
        api_socket: socket.into(),
    }
}

#[test]
fn every_list_has_one_entry_for_a_server() {
    let id = ServerId::secondary("x");
    let plan = client_render_plan(None, RenderEncoding::TerminalAnsi, (80, 24));
    let mut state = initial_state(
        None,
        &plan,
        settings(false),
        vec![id.clone(), id.clone()],
        vec![bridge(&id, "/tmp/a"), bridge(&id, "/tmp/b")],
        0,
    );
    assert_eq!(state.streams, vec![ServerId::main(), id.clone()]);
    assert_eq!(state.bridges.len(), 1);
    assert_eq!(state.bridges[0].client_socket, "/tmp/b");
    add_bridge(&mut state.bridges, bridge(&id, "/tmp/c"));
    add_bridge(&mut state.bridges, bridge(&ServerId::secondary("y"), "/tmp/d"));
    assert_eq!(state.bridges.len(), 2);
    assert_eq!(state.bridges[0].client_socket, "/tmp/c");
    state.schedule_secondary_retry(id.clone(), 0, 1);
    state.schedule_secondary_retry(id.clone(), 1, 1);
    assert_eq!(state.retries.len(), 1);
    assert_eq!(state.retries[0].attempt, 1);
    state.secondary_stream_attached(id.clone(), 5);
    state.secondary_stream_attached(id.clone(), 5);
    assert_eq!(state.streams, vec![ServerId::main(), id]);

    let (mut state, id) = composited();
    let frame = || ServerMessage::Frame(blank_frame(4, 2));
    state.on_server_message(id.clone(), frame(), 0);
    state.on_server_message(id, frame(), 0);
    assert_eq!(state.frames.len(), 1);
    let first = state.start_missing_supervisor_summary_subscriptions();
    assert!(!first.is_empty());
    assert!(state
        .start_missing_supervisor_summary_subscriptions()
        .is_empty());
    assert_eq!(state.subscriptions.len(), first.len());
}

#[test]
fn a_lost_server_leaves_the_tries_and_bridges_of_others() {
    let (mut state, id) = composited();
    let other = ServerId::secondary("other");
    state.schedule_secondary_retry(other.clone(), 2, 100);
    add_bridge(&mut state.bridges, bridge(&id, "/tmp/x"));
    add_bridge(&mut state.bridges, bridge(&other, "/tmp/other"));
    state.on_server_disconnected(id.clone(), 2_000);
    assert_eq!(state.bridges.len(), 1);
    assert_eq!(state.bridges[0].server_id, other);
    assert_eq!(state.retries.len(), 2);
    assert_eq!(state.retries[0].server_id, other);
    assert_eq!(state.retries[0].attempt, 2);
    assert_eq!(state.retries[0].next_retry_at, 5_100);
    assert_eq!(state.retries[1].server_id, id);
    assert_eq!(state.retries[1].next_retry_at, 3_000);
}

#[test]
fn no_due_try_is_left_after_a_pass() {
    let mut model = ClientSupervisorModel::new("local");
    let ids: Vec<ServerId> = ["a", "b", "c", "d"]
        .iter()
        .map(|id| model.add_secondary(definition(id)))
        .collect();
    let plan = client_render_plan(Some(&model), RenderEncoding::SemanticFrame, (80, 24));
    let mut state = initial_state(Some(model), &plan, settings(false), vec![], vec![], 0);
    for id in &ids {
        state.schedule_secondary_retry(id.clone(), 0, 0);
    }
    let gone = ServerId::secondary("gone");
    state.schedule_secondary_retry(gone.clone(), 0, 0);
    let waiting = ServerId::secondary("waiting");
    state.schedule_secondary_retry(waiting.clone(), 3, 0);

    let now = 1_000;
    let due = state.due_secondary_retries(now);
    assert_eq!(due.len(), 5);
    let lost = || ClientError::ConnectionFailed {
        error: "refused".into(),
    };
    for (id, attempt) in due {
        let decision = state.retry_due_secondary_connection(&id);
        if id == gone {
            assert!(matches!(decision, RetryDecision::Dropped));
            continue;
        }
        let outcome = if id == ids[0] {
            TryOutcome::Attached
        } else if id == ids[1] {
            TryOutcome::AttachFailed { error: lost() }
        } else {
            TryOutcome::ConnectFailed { error: lost() }
        };
        state.secondary_try_done(id, attempt, &outcome, now);
    }
    assert!(state.due_secondary_retries(now).is_empty());
    let left: Vec<&ServerId> = state.retries.iter().map(|retry| &retry.server_id).collect();
    assert_eq!(left, vec![&waiting, &ids[1], &ids[2], &ids[3]]);
    assert_eq!(state.retries[0].next_retry_at, 15_000);
    assert_eq!(state.retries[1].next_retry_at, 3_000);
    assert_eq!(state.streams, vec![ServerId::main(), ids[0].clone()]);
}

#[test]
fn summaries_are_read_when_they_are_due() {
    let (mut state, id) = composited();
    assert!(state.refresh_if_due(2_999).actions.is_empty());
    assert!(!state.refresh_if_due(3_000).actions.is_empty());
    assert_eq!(state.last_refresh, 3_000);
    let outcome = state.on_summary_changed(3_500);
    assert!(matches!(outcome.actions[0], LoopAction::RefreshSummaries));
    assert_eq!(state.last_refresh, 3_500);
    state.subscriptions.push(id.clone());
    state.on_subscription_ended(&id);
    assert!(state.subscriptions.is_empty());
    assert!(!state.on_timer().actions.is_empty());
}

#[test]
fn typed_bytes_go_to_the_active_server() {
    let (mut state, id) = composited();
    let outcome = input(&mut state, b"a");
    assert!(matches!(
        &outcome.actions[..],
        [LoopAction::Write { server_id, message: ClientMessage::Input { data } }]
            if *server_id == ServerId::main() && data == b"a"
    ));
    state
        .supervisor_model
        .as_mut()
        .unwrap()
        .set_active_server(id.clone())
        .unwrap();
    let outcome = input(&mut state, b"b");
    assert!(matches!(
        &outcome.actions[..],
        [LoopAction::Write { server_id, .. }] if *server_id == id
    ));
}

#[test]
fn a_paste_key_looks_for_an_image_first() {
    let mut state = plain();
    let outcome = input(&mut state, &[0x16]);
    assert!(matches!(
        &outcome.actions[..],
        [LoopAction::ReadClipboardImage { data }] if data == &[0x16]
    ));
    let image = |bytes: usize| {
        Some(ClipboardImage {
            extension: "png".into(),
            bytes: vec![1; bytes],
        })
    };
    let sent = state.on_clipboard_image(image(4), vec![0x16], 10);
    assert!(matches!(
        &sent.actions[..],
        [LoopAction::Write { message: ClientMessage::ClipboardImage { extension, data }, .. }]
            if extension == "png" && data.len() == 4
    ));
    let none = state.on_clipboard_image(None, vec![0x16], 10);
    assert!(matches!(
        &none.actions[..],
        [LoopAction::Write { message: ClientMessage::Input { .. }, .. }]
    ));
}

#[test]
fn an_attached_terminal_detaches_by_its_prefix() {
    let mut state = plain();
    state.attach_escape = Some(AttachEscapeState::default());
    assert!(input(&mut state, &[0x02]).actions.is_empty());
    let outcome = input(&mut state, b"q");
    assert!(matches!(outcome.actions[..], [LoopAction::DetachMain]));
    assert_eq!(outcome.exit, Some(Ok(())));
}

#[test]
fn dispatched_input_is_carried_out() {
    let (mut state, _) = composited();
    let outcome = state.after_dispatch(ClientInputDispatch::DetachAll);
    assert!(matches!(outcome.actions[..], [LoopAction::DetachEverywhere]));
    assert_eq!(outcome.exit, Some(Ok(())));
    let outcome = state.after_dispatch(ClientInputDispatch::Resize { cols: 40, rows: 24 });
    assert_eq!(state.reported_size, (40, 24));
    assert!(matches!(
        outcome.actions[..],
        [LoopAction::Broadcast { .. }, LoopAction::RenderCached]
    ));
    assert!(state
        .after_dispatch(ClientInputDispatch::Consumed)
        .actions
        .is_empty());
    let sent = state.on_request_finished(true, ClientApiRefreshPolicy::Immediate, 9_000);
    assert!(matches!(sent.actions[0], LoopAction::RefreshSummaries));
    let deferred = state.on_request_finished(true, ClientApiRefreshPolicy::Deferred, 9_500);
    assert!(matches!(deferred.actions[..], [LoopAction::RenderCached]));
}

#[test]
fn a_failed_addition_shows_in_the_form() {
    let (mut state, _) = composited();
    state
        .supervisor_model
        .as_mut()
        .unwrap()
        .open_add_remote_form();
    state.on_add_remote_finished(Err("no route".into()), 9_000);
    let model = state.supervisor_model.as_ref().unwrap();
    assert_eq!(
        model.add_remote_form().unwrap().error.as_deref(),
        Some("no route")
    );
    state.on_add_remote_finished(Ok(()), 9_000);
    assert_eq!(state.last_refresh, 9_000);
}

#[test]
fn disabled_remotes_are_let_go() {
    let (mut state, id) = composited();
    state.subscriptions.push(id.clone());
    state.schedule_secondary_retry(id.clone(), 0, 1);
    assert!(state.release_disabled_servers().is_empty());
    let mut off = definition("x");
    off.disabled = true;
    state
        .supervisor_model
        .as_mut()
        .unwrap()
        .sync_remote_registry(vec![off]);
    assert_eq!(state.release_disabled_servers(), vec![id]);
    assert_eq!(state.streams, vec![ServerId::main()]);
    assert!(state.subscriptions.is_empty());
    assert!(state.retries.is_empty());
}

#[test]
fn the_clock_goes_on_only_where_something_moves() {
    let (mut state, _) = composited();
    let outcome = state.on_timer();
    assert!(matches!(
        outcome.actions[..],
        [
            LoopAction::RetryDue,
            LoopAction::CheckRefresh,
            LoopAction::RenderCached
        ]
    ));
    assert_eq!(state.compositor.as_ref().unwrap().animation_tick(), 8);
    state.on_timer();
    assert_eq!(state.compositor.as_ref().unwrap().animation_tick(), 16);

    let model = state.supervisor_model.as_mut().unwrap();
    model.sync_remote_registry(vec![]);
    let outcome = state.on_timer();
    assert!(matches!(
        outcome.actions[..],
        [LoopAction::RetryDue, LoopAction::CheckRefresh]
    ));
    assert_eq!(state.compositor.as_ref().unwrap().animation_tick(), 16);
    let mut single = plain();
    assert_eq!(single.on_timer().actions.len(), 2);
}

fn render(state: &mut ClientState, now: u64) -> Option<FrameData> {
    state.render_cached_composited_frame(
        now,
        |_, _| layout(),
        |snapshot, width, height| {
            assert_eq!(snapshot.sidebar_rect, Rect::new(0, 0, 26, 24));
            assert_eq!(snapshot.terminal_area, Rect::new(26, 0, 54, 24));
            blank_frame(width, height)
        },
    )
}

#[test]
fn a_drawn_screen_knows_who_works() {
    let (mut state, id) = composited();
    assert!(render(&mut state, 10).is_none());
    let mut frame = blank_frame(54, 24);
    frame.cells[0].symbol = "#".into();
    state.on_server_message(ServerId::main(), ServerMessage::Frame(frame), 10);
    let summary = ServerSummary {
        workspaces: vec![WorkspaceSummary {
            workspace_id: "w".into(),
            label: "w".into(),
            branch: None,
            focused: false,
        }],
        agents: vec![AgentSummary {
            agent_id: "a".into(),
            label: "a".into(),
            status: "working".into(),
            workspace_id: "w".into(),
            focused: false,
        }],
    };
    let model = state.supervisor_model.as_mut().unwrap();
    model.set_summary(&id, summary).unwrap();
    state.full_redraw = true;
    let screen = render(&mut state, 20).unwrap();
    assert_eq!((screen.width, screen.height), (80, 24));
    assert_eq!(screen.cells[26].symbol, "#");
    assert!(!state.full_redraw);
    let agent = "a".to_string();
    let since = |state: &ClientState| {
        let compositor = state.compositor.as_ref().unwrap();
        compositor.working_since_at(&id, &agent)
    };
    assert_eq!(since(&state), Some(20));
    render(&mut state, 30);
    assert_eq!(since(&state), Some(20));
    let model = state.supervisor_model.as_mut().unwrap();
    model.set_summary(&id, ServerSummary::default()).unwrap();
    render(&mut state, 40);
    assert_eq!(since(&state), None);
}
