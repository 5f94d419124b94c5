use herdr::compositor::{
    filter_label_rect, filter_label_rect_of_width, sidebar_wants_animation, ClientCompositor,
    ClientSidebarSnapshot,
};
use herdr::api::{HostBannerAnimation, UiSettingsInfo};
use herdr::dispatch::{dispatch_composited_mouse_input, ClientInputDispatch};
use herdr::frame::{blank_frame, offset_cursor, CellData, CursorState, FrameData, Rect};
use herdr::input::{KeyModifiers, MouseButton, MouseEvent, MouseEventKind};
use herdr::layout::{
    AgentPanel, BannerArea, CardArea, ConfirmPopup, FormPopup, ManageList, ManageOverlay,
    PickerPopup, ScrollInfo, SidebarHitTarget, SidebarHoverTarget, SidebarLayout,
};
use herdr::remote_registry::{
    RemoteDefinitionSnapshot, RemoteKeybindingsSnapshot, RemoteTargetSnapshot,
};
use herdr::servers::{
    AgentSummary, ConnectionState, ServerFilter, ServerId, ServerSummary, WorkspaceSummary,
};
use herdr::sidebar_plan::{agent_state_from_status, AgentRoute, AgentState};
use herdr::supervisor::routes::NewWorkspaceRoute;
use herdr::supervisor::ClientSupervisorModel;

fn cell(symbol: &str) -> CellData {
    CellData {
        symbol: symbol.into(),
        fg: 0,
        bg: 0,
        modifier: 0,
        skip: false,
        hyperlink: None,
    }
}

fn frame(width: u16, height: u16, rows: &[&str]) -> FrameData {
    let mut cells = Vec::new();
    for row in 0..height as usize {
        let line = rows.get(row).copied().unwrap_or("");
        for col in 0..width as usize {
            let symbol = line
                .chars()
                .nth(col)
                .map(|ch| ch.to_string())
                .unwrap_or_else(|| " ".into());
            cells.push(cell(&symbol));
        }
    }
    FrameData {
        cells,
        width,
        height,
        cursor: Some(CursorState {
            x: 1,
            y: 1,
            visible: true,
            shape: 2,
        }),
        hyperlinks: Vec::new(),
        graphics: Vec::new(),
    }
}

fn row_text(frame: &FrameData, row: u16) -> String {
    (0..frame.width)
        .map(|col| {
            frame.cells[(row as usize) * (frame.width as usize) + (col as usize)]
                .symbol
                .as_str()
        })
        .collect()
}

fn cell_at(frame: &FrameData, x: u16, y: u16) -> &CellData {
    &frame.cells[(y as usize) * (frame.width as usize) + (x as usize)]
}

fn definition(id: &str, name: &str, target: RemoteTargetSnapshot) -> RemoteDefinitionSnapshot {
    RemoteDefinitionSnapshot {
        id: id.into(),
        name: name.into(),
        target,
        session: None,
        keybindings: RemoteKeybindingsSnapshot::Local,
        disabled: false,
        auto_update: false,
        style_bg: None,
        style_fg: None,
        style_bullet: None,
    }
}

fn add_x(model: &mut ClientSupervisorModel) -> ServerId {
    model.add_secondary(definition(
        "remote-x",
        "x",
        RemoteTargetSnapshot::Local {
            session: Some("x".into()),
        },
    ))
}

fn workspace(id: &str, label: &str, branch: Option<&str>, focused: bool) -> WorkspaceSummary {
    WorkspaceSummary {
        workspace_id: id.into(),
        label: label.into(),
        branch: branch.map(|b| b.to_string()),
        focused,
    }
}

fn model_with(
    branches: bool,
    agent_status: Option<&str>,
) -> (ClientSupervisorModel, ServerId) {
    let mut model = ClientSupervisorModel::new("local");
    let remote_id = add_x(&mut model);
    let branch = |name: &'static str| if branches { Some(name) } else { None };
    model
        .set_summary(
            &ServerId::main(),
            ServerSummary {
                workspaces: vec![workspace("main-herdr", "herdr", branch("master"), true)],
                agents: Vec::new(),
            },
        )
        .unwrap();
    model
        .set_summary(
            &remote_id,
            ServerSummary {
                workspaces: vec![workspace("remote-api", "api", branch("feature/api"), false)],
                agents: agent_status
                    .map(|status| AgentSummary {
                        agent_id: "remote-agent".into(),
                        workspace_id: "remote-api".into(),
                        label: "aider".into(),
                        status: status.into(),
                        focused: false,
                    })
                    .into_iter()
                    .collect(),
            },
        )
        .unwrap();
    (model, remote_id)
}

fn mixed_supervisor_model() -> (ClientSupervisorModel, ServerId) {
    model_with(false, None)
}

fn model_with_agent_status(status: &str) -> (ClientSupervisorModel, ServerId) {
    model_with(true, Some(status))
}

fn two_destination_picker_model() -> (ClientSupervisorModel, ServerId) {
    let (mut model, remote_id) = model_with(false, Some("idle"));
    model.open_new_workspace_picker();
    (model, remote_id)
}

const DIVIDER_ROW: u16 = 5;
const BANNER_ROW: u16 = 6;

/// Where a sidebar of 26 columns shows things: the first workspace in the third row, a divider
/// and a banner below it, then the other workspaces; the buttons in row 12, agents from row 14.
fn layout(model: &ClientSupervisorModel) -> SidebarLayout {
    let no_scroll = ScrollInfo {
        offset: 0,
        max_offset: 0,
        scrollable: false,
    };
    SidebarLayout {
        new_button: Rect::new(0, 12, 6, 1),
        launcher: Rect::new(20, 12, 5, 1),
        mouse_capture: true,
        cards: (0..model.workspace_rows().len())
            .map(|ws_idx| CardArea {
                rect: Rect::new(
                    0,
                    if ws_idx == 0 { 2 } else { 5 + 2 * ws_idx as u16 },
                    25,
                    2,
                ),
                ws_idx,
            })
            .collect(),
        banners: vec![BannerArea {
            rect: Rect::new(0, BANNER_ROW, 25, 1),
            banner_idx: 0,
        }],
        divider_rows: vec![DIVIDER_ROW],
        agents: AgentPanel {
            body: Rect::new(0, 14, 25, 6),
            entry_rows: 2,
            scroll: 0,
        },
        detail_area: Rect::new(0, 13, 26, 7),
        agent_scroll: no_scroll,
        workspace_scroll: no_scroll,
        menu: Rect::new(10, 0, 16, 7),
        menu_items: model.client_global_menu_items().len(),
        picker: Some(PickerPopup {
            popup: Rect::new(0, 8, 30, 8),
            inner: Rect::new(1, 9, 28, 6),
            confirm: Rect::new(2, 14, 8, 1),
            cancel: Rect::new(12, 14, 8, 1),
            rows: vec![Rect::new(1, 11, 28, 1), Rect::new(1, 12, 28, 1)],
        }),
        form: Some(FormPopup {
            popup: Rect::new(20, 5, 40, 8),
            submit: Rect::new(24, 11, 5, 1),
            cancel: Rect::new(32, 11, 8, 1),
        }),
        manage: None,
    }
}

fn manage_overlay(confirming: bool) -> ManageOverlay {
    ManageOverlay {
        remote_count: 2,
        selected: 0,
        scroll: 0,
        visible_start: 0,
        confirming,
        confirm: Some(ConfirmPopup {
            popup: Rect::new(30, 14, 30, 5),
            confirm: Rect::new(32, 17, 8, 1),
            cancel: Rect::new(42, 17, 8, 1),
        }),
        list: Some(ManageList {
            popup: Rect::new(0, 3, 40, 9),
            inner: Rect::new(1, 4, 38, 7),
            rows: (0..4).map(|i| Rect::new(1, 6 + i, 38, 1)).collect(),
        }),
    }
}

fn manage_model() -> ClientSupervisorModel {
    let mut model = ClientSupervisorModel::new("local");
    for (id, name) in [("r1", "alpha"), ("r2", "beta")] {
        model.add_secondary(definition(
            id,
            name,
            RemoteTargetSnapshot::Ssh {
                target: name.into(),
                args: Vec::new(),
            },
        ));
    }
    model
}

fn manage_layout(model: &ClientSupervisorModel, confirming: bool) -> SidebarLayout {
    SidebarLayout {
        manage: Some(manage_overlay(confirming)),
        ..layout(model)
    }
}

fn left(text: &str) -> String {
    let mut line: String = text.chars().take(25).collect();
    while line.chars().count() < 25 {
        line.push(' ');
    }
    line.push('\u{2502}');
    line
}

/// The sidebar that the tests put around the content.
fn shell(model: &ClientSupervisorModel, width: u16, height: u16) -> FrameData {
    let mut rows = vec![left(&format!(
        " spaces{:>18}",
        model.filter_label()
    ))];
    for row in model.workspace_rows() {
        rows.push(left(&format!(" {}", row.label)));
        rows.push(left(&format!("  {}", row.branch.unwrap_or_default())));
    }
    rows.push(left(" agents"));
    for group in model.agent_groups() {
        for agent in group.agents {
            rows.push(left(&format!("  {}", agent.label)));
        }
    }
    let lines: Vec<&str> = rows.iter().map(|row| row.as_str()).collect();
    FrameData {
        cursor: None,
        ..frame(width, height, &lines)
    }
}

#[test]
fn compose_frame_draws_server_sidebar_shell_and_offsets_active_content() {
    let (model, _) = model_with(true, Some("idle"));

    let content = frame(8, 3, &["content", "frame"]);
    let composed = ClientCompositor::new(26).compose_frame(
        &model,
        &layout(&model),
        shell(&model, 60, 28),
        &content,
    );

    assert_eq!(composed.width, 60);
    assert_eq!(composed.height, 28);
    let rows: Vec<_> = (0..composed.height)
        .map(|row| row_text(&composed, row))
        .collect();
    assert!(row_text(&composed, 0).starts_with(" spaces"));
    assert!(row_text(&composed, 0)
        .chars()
        .take(25)
        .collect::<String>()
        .ends_with("all"));
    assert_eq!(composed.cells[25].symbol, "\u{2502}");
    assert!(rows.iter().any(|row| row.contains("herdr")));
    assert!(rows.iter().any(|row| row.contains("master")));
    assert!(rows.iter().any(|row| row.contains("api")));
    assert!(rows.iter().any(|row| row.contains("feature/api")));
    assert!(rows.iter().any(|row| row.starts_with(" agents")));
    assert!(rows.iter().any(|row| row.contains("aider")));
    let row0_content: String = row_text(&composed, 0).chars().skip(26).collect();
    let row1_content: String = row_text(&composed, 1).chars().skip(26).collect();
    assert!(row0_content.starts_with("content"));
    assert!(row1_content.starts_with("frame"));
    assert_eq!(
        composed.cursor,
        Some(CursorState {
            x: 27,
            y: 1,
            visible: true,
            shape: 2,
        })
    );
}

#[test]
fn content_size_reserves_sidebar_width_and_keeps_one_column_minimum() {
    let compositor = ClientCompositor::new(12);

    assert_eq!(compositor.content_size(80, 24), (68, 24));
    assert_eq!(compositor.content_size(8, 24), (1, 24));
}

#[test]
fn compose_frame_reserves_content_column_when_host_is_narrower_than_sidebar() {
    let model = ClientSupervisorModel::new("local");
    let compositor = ClientCompositor::new(12);
    let content = frame(1, 1, &["x"]);

    let composed =
        compositor.compose_frame(&model, &layout(&model), blank_frame(8, 3), &content);

    assert_eq!(composed.width, 8);
    assert_eq!(composed.cells[7].symbol, "x");
}

#[test]
fn filter_label_rect_uses_display_width_for_wide_text() {
    let rect = filter_label_rect(Rect::new(0, 0, 6, 1), "\u{c804}\u{ccb4}");

    assert_eq!(rect.x, 1);
    assert_eq!(rect.width, 4);
    assert_eq!(
        filter_label_rect_of_width(Rect::new(0, 0, 6, 1), false, 4),
        rect
    );
}

#[test]
fn hit_test_uses_server_sidebar_geometry() {
    let (model, remote_id) = model_with(false, Some("idle"));
    let compositor = ClientCompositor::new(26);
    let layout = layout(&model);
    let main_card = layout.cards[0];
    let remote_card = layout.cards[1];

    assert_eq!(
        compositor.hit_test(&model, &layout, 23, 0, 60, 28),
        Some(SidebarHitTarget::Filter)
    );
    assert_eq!(
        compositor.hit_test(&model, &layout, 1, main_card.rect.y, 60, 28),
        Some(SidebarHitTarget::Workspace {
            server_id: ServerId::main(),
            workspace_id: "main-herdr".into(),
        })
    );
    assert!(!matches!(
        compositor.hit_test(&model, &layout, 1, DIVIDER_ROW, 60, 28),
        Some(SidebarHitTarget::Workspace { .. })
    ));
    assert!(!matches!(
        compositor.hit_test(&model, &layout, 1, BANNER_ROW, 60, 28),
        Some(SidebarHitTarget::Workspace { .. })
    ));
    assert!(DIVIDER_ROW < BANNER_ROW && BANNER_ROW < remote_card.rect.y);
    assert_eq!(
        compositor.hit_test(&model, &layout, 1, remote_card.rect.y, 60, 28),
        Some(SidebarHitTarget::Workspace {
            server_id: remote_id.clone(),
            workspace_id: "remote-api".into(),
        })
    );
    let new_rect = layout.new_button;
    assert_eq!(
        compositor.hit_test(&model, &layout, new_rect.x, new_rect.y, 60, 28),
        Some(SidebarHitTarget::New)
    );
    let menu_rect = layout.launcher;
    assert_eq!(
        compositor.hit_test(
            &model,
            &layout,
            menu_rect.x + menu_rect.width - 1,
            menu_rect.y,
            60,
            28
        ),
        Some(SidebarHitTarget::Menu)
    );
    assert_eq!(
        compositor.hit_test(&model, &layout, 27, main_card.rect.y, 60, 28),
        None
    );
}

#[test]
fn hit_test_ignores_disabled_workspace_rows() {
    let mut model = ClientSupervisorModel::new("local");
    let remote_id = add_x(&mut model);
    model
        .set_summary(
            &remote_id,
            ServerSummary {
                workspaces: vec![workspace("remote-api", "api", None, false)],
                agents: Vec::new(),
            },
        )
        .unwrap();
    model
        .set_connection_state(&remote_id, ConnectionState::Disconnected)
        .unwrap();

    let compositor = ClientCompositor::new(26);
    let layout = layout(&model);

    assert!(!layout.cards.is_empty());
    assert_eq!(compositor.hit_test(&model, &layout, 1, 2, 60, 16), None);
}

#[test]
fn from_model_aligns_client_workspace_remote_with_workspaces() {
    let (model, _remote_id) = mixed_supervisor_model();
    let compositor = ClientCompositor::new(26);
    let plan = ClientSidebarSnapshot::from_model(&model, &compositor, 26, 60, 16, 0).plan;

    let rows = model.workspace_rows();
    assert_eq!(plan.rows.len(), rows.len());
    let remote: Vec<bool> = plan.rows.iter().map(|row| row.is_remote).collect();
    assert_eq!(remote, vec![false, true]);
    for (planned, row) in plan.rows.iter().zip(&rows) {
        assert_eq!(planned.server_id, row.server_id);
        assert_eq!(planned.workspace_id, row.workspace_id);
        assert_eq!(planned.label, row.label);
    }
}

#[test]
fn from_model_populates_host_banner_areas() {
    let (model, _remote_id) = mixed_supervisor_model();
    let compositor = ClientCompositor::new(26);
    let snapshot = ClientSidebarSnapshot::from_model(&model, &compositor, 26, 60, 16, 0);

    assert!(model.host_banner_active());
    assert_eq!(snapshot.host_banners.len(), 1);
    assert_eq!(snapshot.host_banners[0].display_name, "x");
    assert_eq!(snapshot.host_banners[0].row, 1);
    let layout = layout(&model);
    assert_eq!(layout.banners.len(), 1);
    let area = layout.banners[0];
    assert_eq!(area.banner_idx, 0);
    assert!(layout.cards.iter().all(|card| {
        !(area.rect.y >= card.rect.y && area.rect.y < card.rect.y + card.rect.height)
    }));
}

#[test]
fn banners_stand_above_the_first_row_of_their_host() {
    let (mut model, _) = mixed_supervisor_model();
    let y = model.add_secondary(definition(
        "remote-y",
        "y",
        RemoteTargetSnapshot::Local {
            session: Some("y".into()),
        },
    ));
    let rows: Vec<(usize, String)> = model
        .host_banner_specs()
        .into_iter()
        .map(|banner| (banner.row, banner.display_name))
        .collect();
    assert_eq!(rows, vec![(1, "x".to_string()), (2, "y".to_string())]);
    model.set_filter(ServerFilter::Server(y));
    assert_eq!(model.host_banner_specs()[0].row, 0);
    model.set_filter(ServerFilter::Server(ServerId::main()));
    assert!(!model.host_banner_active());
}

#[test]
fn divider_banner_insertion_does_not_shift_active_idx() {
    // Dividers and banners are part of the layout only: the selected row is counted among the
    // workspace rows, whatever lies between them on the screen.
    let (mut model, remote_id) = mixed_supervisor_model();
    let compositor = ClientCompositor::new(26);
    let pre = layout(&model);
    assert_eq!(pre.divider_rows.len(), 1);
    assert_eq!(pre.banners.len(), 1);

    let remote_idx = model
        .workspace_rows()
        .iter()
        .position(|row| {
            row.server_id == remote_id && row.workspace_id.as_deref() == Some("remote-api")
        })
        .expect("remote workspace row should be present in the flat stream");

    model.focus_workspace_route(&remote_id, "remote-api");

    let snapshot = ClientSidebarSnapshot::from_model(&model, &compositor, 26, 60, 16, 0);
    assert_eq!(snapshot.plan.selected, Some(remote_idx));
    assert_eq!(snapshot.plan.rows.len(), model.workspace_rows().len());
    assert!(model.workspace_rows()[remote_idx].focused);
}

#[test]
fn agents_panel_follows_optimistic_group() {
    // A focus on an agent shows at once: its workspace is the selected one, and the agent has the
    // focus in its group.
    let (mut model, remote_id) = model_with(false, Some("idle"));

    model.focus_agent_route(&remote_id, "remote-agent");

    let group = model
        .agent_groups()
        .into_iter()
        .find(|group| group.workspace_id == "remote-api")
        .expect("the agent's workspace group should exist");
    assert!(group.focused);
    assert!(group
        .agents
        .iter()
        .any(|agent| agent.agent_id == "remote-agent" && agent.focused));

    let compositor = ClientCompositor::new(26);
    let snapshot = ClientSidebarSnapshot::from_model(&model, &compositor, 26, 60, 16, 0);
    let remote_idx = model
        .workspace_rows()
        .iter()
        .position(|row| {
            row.server_id == remote_id && row.workspace_id.as_deref() == Some("remote-api")
        })
        .expect("remote workspace row should be present");
    assert_eq!(snapshot.plan.selected, Some(remote_idx));
    assert!(snapshot.plan.rows[remote_idx].focused_agent.is_some());
}

#[test]
fn a_summary_replaces_the_shown_focus() {
    let (mut model, remote_id) = mixed_supervisor_model();
    model.focus_workspace_route(&remote_id, "remote-api");
    model
        .set_summary(
            &remote_id,
            ServerSummary {
                workspaces: vec![workspace("remote-api", "api", None, false)],
                agents: Vec::new(),
            },
        )
        .unwrap();
    assert!(!model.workspace_rows()[1].focused);
    // A route that goes nowhere moves no focus.
    model.focus_workspace_route(&remote_id, "missing");
    assert!(!model.workspace_rows()[1].focused);
}

#[test]
fn hit_test_none_over_banner_row() {
    let (model, _remote_id) = mixed_supervisor_model();
    let compositor = ClientCompositor::new(26);
    let layout = layout(&model);
    let hit = compositor.hit_test(&model, &layout, 1, BANNER_ROW, 60, 16);
    assert!(
        !matches!(hit, Some(SidebarHitTarget::Workspace { .. })),
        "banner row hit-tested to a workspace: {hit:?}"
    );
    for card in &layout.cards {
        assert_ne!(card.rect.y, BANNER_ROW, "a card overlaps the banner row");
    }
}

#[test]
fn client_hit_test_returns_no_workspace_for_divider_row() {
    let (model, _remote_id) = mixed_supervisor_model();
    let compositor = ClientCompositor::new(26);
    let layout = layout(&model);

    let divider_hit = compositor.hit_test(&model, &layout, 1, DIVIDER_ROW, 60, 16);
    assert!(
        !matches!(divider_hit, Some(SidebarHitTarget::Workspace { .. })),
        "divider row hit-tested to a workspace: {divider_hit:?}"
    );
    for card in &layout.cards {
        assert_ne!(card.rect.y, DIVIDER_ROW, "a card overlaps the divider row");
        assert!(matches!(
            compositor.hit_test(&model, &layout, 1, card.rect.y, 60, 16),
            Some(SidebarHitTarget::Workspace { .. })
        ));
    }
}

#[test]
fn new_workspace_picker_mouse_click_hit_tests_footer_anchored_rows() {
    let (model, remote_id) = two_destination_picker_model();
    let compositor = ClientCompositor::new(26);
    let layout = layout(&model);
    let popup = layout.picker.as_ref().unwrap();
    let (row0, row1) = (popup.rows[0], popup.rows[1]);

    assert_eq!(
        compositor.hit_test(&model, &layout, row0.x, row0.y, 60, 20),
        Some(SidebarHitTarget::NewWorkspaceDestination {
            server_id: ServerId::main(),
        })
    );
    assert_eq!(
        compositor.hit_test(&model, &layout, row1.x, row1.y, 60, 20),
        Some(SidebarHitTarget::NewWorkspaceDestination {
            server_id: remote_id,
        })
    );
}

#[test]
fn new_workspace_picker_keyboard_navigates_and_confirms() {
    let (mut model, remote_id) = two_destination_picker_model();
    assert_eq!(model.new_workspace_picker().map(|p| p.selected), Some(0));

    model.move_new_workspace_picker_next();
    assert_eq!(model.new_workspace_picker().map(|p| p.selected), Some(1));

    let route = model.accept_new_workspace_picker();
    assert_eq!(route, NewWorkspaceRoute::CreateOn(remote_id));
}

#[test]
fn picker_confirm_and_cancel_buttons_hit_test() {
    let (model, _) = two_destination_picker_model();
    let compositor = ClientCompositor::new(26);
    let layout = layout(&model);
    let popup = layout.picker.as_ref().unwrap();

    assert_eq!(
        compositor.hit_test(&model, &layout, popup.confirm.x, popup.confirm.y, 60, 20),
        Some(SidebarHitTarget::NewWorkspacePickerConfirm)
    );
    assert_eq!(
        compositor.hit_test(&model, &layout, popup.cancel.x, popup.cancel.y, 60, 20),
        Some(SidebarHitTarget::NewWorkspacePickerCancel)
    );
}

#[test]
fn open_menu_is_hit_before_the_sidebar() {
    let mut model = ClientSupervisorModel::new("local");
    model.open_client_global_menu();

    let compositor = ClientCompositor::new(26);
    let layout = layout(&model);
    assert_eq!(
        model.client_global_menu_items(),
        vec!["settings", "keybinds", "reload config", "detach", "add remote"]
    );
    assert_eq!(
        compositor.hit_test(&model, &layout, 21, 1, 60, 16),
        Some(SidebarHitTarget::ClientGlobalMenuItem { index: 0 })
    );
    assert_eq!(
        compositor.hit_test(&model, &layout, 21, 5, 60, 16),
        Some(SidebarHitTarget::ClientGlobalMenuItem { index: 4 })
    );
}

#[test]
fn modal_survives_full_screen_content_overwrite() {
    // An open popup stays visible though the content fills its whole area: the copy leaves out
    // exactly the popup, so the content stays visible around it.
    let mut model = ClientSupervisorModel::new("local");
    model.open_add_remote_form();
    let filled = "#".repeat(54);
    let rows: Vec<&str> = vec![filled.as_str(); 24];
    let content = frame(54, 24, &rows);

    let compositor = ClientCompositor::new(26);
    let layout = layout(&model);
    let popup = layout.form.unwrap().popup;
    let mut drawn = shell(&model, 80, 24);
    for (line, text) in ["add remote", "target", "add  cancel"].iter().enumerate() {
        for (i, c) in text.chars().enumerate() {
            let at = (popup.y as usize + 1 + line) * 80 + popup.x as usize + 10 + i;
            drawn.cells[at].symbol = c.to_string();
        }
    }
    let composed = compositor.compose_frame(&model, &layout, drawn, &content);
    let texts: Vec<String> = (0..composed.height)
        .map(|r| row_text(&composed, r))
        .collect();

    assert!(
        texts.iter().any(|t| t.contains("add remote")),
        "overlay header overwritten by content; rows={texts:?}"
    );
    assert!(
        texts.iter().any(|t| t.contains("target")),
        "overlay field overwritten by content"
    );
    assert!(
        texts.iter().any(|t| t.contains("cancel")),
        "overlay action button overwritten by content"
    );
    for row in 0..composed.height {
        for col in 26..composed.width {
            let inside_popup = col >= popup.x
                && col < popup.x + popup.width
                && row >= popup.y
                && row < popup.y + popup.height;
            assert_eq!(
                !inside_popup,
                cell_at(&composed, col, row).symbol == "#",
                "at {col},{row}"
            );
        }
    }
}

#[test]
fn add_remote_modal_keeps_cursor_hidden() {
    let mut model = ClientSupervisorModel::new("local");
    model.open_add_remote_form();

    let compositor = ClientCompositor::new(26);
    let content = frame(20, 8, &["content", "frame"]);
    let composed =
        compositor.compose_frame(&model, &layout(&model), shell(&model, 80, 24), &content);

    assert!(composed.cursor.is_none());
}

#[test]
fn add_remote_button_click_submits_and_cancel_closes() {
    let mut model = ClientSupervisorModel::new("local");
    model.open_add_remote_form();
    let compositor = ClientCompositor::new(26);
    let layout = layout(&model);
    let form = layout.form.unwrap();

    assert_eq!(
        compositor.hit_test(&model, &layout, form.submit.x, form.submit.y, 80, 24),
        Some(SidebarHitTarget::AddRemoteSubmit)
    );
    assert_eq!(
        compositor.hit_test(&model, &layout, form.cancel.x, form.cancel.y, 80, 24),
        Some(SidebarHitTarget::AddRemoteCancel)
    );
}

#[test]
fn advance_animation_tick_wraps_and_steps() {
    let mut compositor = ClientCompositor::new(26);
    assert_eq!(compositor.animation_tick(), 0);
    compositor.advance_animation_tick(8);
    assert_eq!(compositor.animation_tick(), 8);
    compositor.advance_animation_tick(8);
    assert_eq!(compositor.animation_tick(), 16);

    // Wrap cleanly at the u32 boundary with no discontinuity in the visible step `tick/8`.
    let mut wrapping = ClientCompositor::new(26);
    wrapping.advance_animation_tick(u32::MAX - 3);
    let before = wrapping.animation_tick();
    wrapping.advance_animation_tick(8);
    let after = wrapping.animation_tick();
    assert_eq!(after, before.wrapping_add(8));
    assert!(after < before, "tick should wrap past the u32 boundary");
}

#[test]
fn sidebar_wants_animation_true_with_working_agent() {
    let (model, _) = model_with_agent_status("working");
    assert!(sidebar_wants_animation(&model));
}

/// Force the host-banner animation off so a test can isolate the agent-driven animation gate.
fn with_static_host_banner(model: &mut ClientSupervisorModel) {
    let mut ui_settings = model.ui_settings().clone();
    ui_settings.sidebar_host.animation = HostBannerAnimation::Static;
    model.set_ui_settings(ui_settings);
}

#[test]
fn sidebar_wants_animation_false_when_all_idle() {
    // With the banner animation forced Static, only the agent gate remains: idle agents never
    // request animation.
    for status in ["idle", "done", "blocked", "unknown"] {
        let (mut model, _) = model_with_agent_status(status);
        with_static_host_banner(&mut model);
        assert!(
            !sidebar_wants_animation(&model),
            "status {status:?} should not request animation"
        );
    }
}

#[test]
fn sidebar_wants_animation_true_with_banner() {
    let (model, _) = model_with_agent_status("idle");
    assert!(model.host_banner_animation_active());
    assert!(sidebar_wants_animation(&model));
    assert_eq!(
        sidebar_wants_animation(&model),
        model.host_banner_animation_active(),
        "with no working agent the banner decides"
    );
}

#[test]
fn working_agent_seeds_working_since_from_map() {
    let (model, remote_id) = model_with_agent_status("working");
    let t0 = 10_000;
    let mut compositor = ClientCompositor::new(26);
    compositor.seed_working_since(remote_id.clone(), "remote-agent".to_string(), t0);
    // A later sighting does not restart the clock.
    compositor.seed_working_since(remote_id.clone(), "remote-agent".to_string(), t0 + 500);

    let plan = compositor.sidebar_plan(&model, t0 + 3_000);
    let working: Vec<u64> = plan
        .rows
        .iter()
        .flat_map(|row| &row.agents)
        .filter_map(|agent| agent.working_since)
        .collect();
    assert_eq!(working, vec![t0]);
    assert_eq!(
        compositor.working_since_at(&remote_id, &"remote-agent".to_string()),
        Some(t0)
    );
    assert_eq!(compositor.working_since_len(), 1);

    // An agent that was not seen before works since now.
    let fresh = ClientCompositor::new(26).sidebar_plan(&model, 77);
    assert_eq!(fresh.rows[1].agents[0].working_since, Some(77));

    compositor.retain_working_since(&vec![AgentRoute {
        server_id: remote_id.clone(),
        agent_id: "remote-agent".into(),
    }]);
    assert_eq!(compositor.working_since_len(), 1);
    compositor.retain_working_since(&vec![]);
    assert_eq!(compositor.working_since_len(), 0);
}

#[test]
fn disabled_remote_agent_rows_do_not_gate_animation() {
    // The rows of a disconnected remote are not `working`, so they never request animation.
    let mut model = ClientSupervisorModel::new("local");
    let remote_id = add_x(&mut model);
    model
        .set_connection_state(&remote_id, ConnectionState::Disconnected)
        .unwrap();
    with_static_host_banner(&mut model);
    assert!(!sidebar_wants_animation(&model));
}

#[test]
fn remote_manage_render_equals_hit_test_geometry() {
    let model = manage_model();
    let compositor = ClientCompositor::new(26);
    let layout = manage_layout(&model, false);
    let rows = &layout.manage.as_ref().unwrap().list.as_ref().unwrap().rows;

    assert_eq!(
        compositor.hit_test(&model, &layout, rows[0].x, rows[0].y, 80, 24),
        Some(SidebarHitTarget::RemoteManageRow { index: 0 })
    );
    assert_eq!(
        compositor.hit_test(&model, &layout, rows[1].x, rows[1].y, 80, 24),
        Some(SidebarHitTarget::RemoteManageRow { index: 1 })
    );
    // There is no third remote.
    assert_eq!(
        compositor.hit_test(&model, &layout, rows[2].x, rows[2].y, 80, 24),
        None
    );
}

#[test]
fn hit_test_returns_manage_targets() {
    let model = manage_model();
    let compositor = ClientCompositor::new(26);
    let layout = manage_layout(&model, false);
    let list = layout.manage.as_ref().unwrap().list.as_ref().unwrap();
    let inner = list.inner;

    let row0 = list.rows[0];
    assert_eq!(
        compositor.hit_test(&model, &layout, row0.x, row0.y, 80, 24),
        Some(SidebarHitTarget::RemoteManageRow { index: 0 })
    );
    let footer_y = inner.y + inner.height.saturating_sub(1);
    assert_eq!(
        compositor.hit_test(&model, &layout, inner.x, footer_y, 80, 24),
        Some(SidebarHitTarget::RemoteManageAdd)
    );
    assert_eq!(compositor.hit_test(&model, &layout, 0, 0, 80, 24), None);
}

#[test]
fn only_the_buttons_are_hit_while_a_deletion_waits() {
    let model = manage_model();
    let compositor = ClientCompositor::new(26);
    let layout = manage_layout(&model, true);
    let overlay = layout.manage.as_ref().unwrap();
    let row0 = overlay.list.as_ref().unwrap().rows[0];
    let popup = overlay.confirm.unwrap();

    assert!(!matches!(
        compositor.hit_test(&model, &layout, row0.x, row0.y, 80, 24),
        Some(SidebarHitTarget::RemoteManageRow { .. })
    ));
    assert_eq!(
        compositor.hit_test(&model, &layout, popup.confirm.x, popup.confirm.y, 80, 24),
        Some(SidebarHitTarget::RemoteManageConfirmDelete)
    );
    assert_eq!(
        compositor.hit_test(&model, &layout, popup.cancel.x, popup.cancel.y, 80, 24),
        Some(SidebarHitTarget::RemoteManageCancelDelete)
    );
}

#[test]
fn manage_overlay_hit_test_skips_non_modal() {
    let mut model = manage_model();
    model
        .set_summary(
            &ServerId::main(),
            ServerSummary {
                workspaces: vec![workspace("main-ws", "herdr", None, true)],
                agents: Vec::new(),
            },
        )
        .unwrap();
    let compositor = ClientCompositor::new(26);
    let layout = manage_layout(&model, false);
    for y in 0..24u16 {
        let hit = compositor.hit_test(&model, &layout, 1, y, 80, 24);
        assert!(
            !matches!(hit, Some(SidebarHitTarget::Workspace { .. })),
            "overlay must intercept sidebar workspace hits, got {hit:?} at y={y}"
        );
    }
}

#[test]
fn set_hover_reports_change() {
    let mut compositor = ClientCompositor::new(26);
    assert!(compositor.set_hover(Some(SidebarHoverTarget::Workspace { ws_idx: 0 })));
    assert!(!compositor.set_hover(Some(SidebarHoverTarget::Workspace { ws_idx: 0 })));
    assert!(compositor.set_hover(Some(SidebarHoverTarget::Workspace { ws_idx: 1 })));
    assert!(compositor.set_hover(None));
    assert!(!compositor.set_hover(None));
}

#[test]
fn from_model_mirrors_compositor_hover() {
    let (model, _remote_id) = mixed_supervisor_model();
    let mut compositor = ClientCompositor::new(26);
    compositor.set_hover(Some(SidebarHoverTarget::Workspace { ws_idx: 1 }));
    let snapshot = ClientSidebarSnapshot::from_model(&model, &compositor, 26, 60, 16, 0);
    assert_eq!(
        snapshot.hover,
        Some(SidebarHoverTarget::Workspace { ws_idx: 1 })
    );
}

#[test]
fn animation_tick_feeds_spinner_tick() {
    let (model, _) = model_with_agent_status("working");
    let mut compositor = ClientCompositor::new(26);
    compositor.advance_animation_tick(8);

    let snapshot = ClientSidebarSnapshot::from_model(&model, &compositor, 26, 60, 16, 0);

    assert_eq!(snapshot.spinner_tick, 8);
}

#[test]
fn snapshots_hold_what_lies_over_the_sidebar() {
    let compositor = ClientCompositor::new(26);
    let (mut model, _) = mixed_supervisor_model();
    let snapshot = ClientSidebarSnapshot::from_model(&model, &compositor, 26, 60, 16, 0);
    assert_eq!(snapshot.filter_label, "all");
    assert_eq!(snapshot.menu_highlighted, None);
    assert!(snapshot.add_remote_form.is_none());
    assert!(snapshot.new_workspace_picker.is_none());
    assert_eq!(snapshot.settings, UiSettingsInfo::default());
    assert_eq!(snapshot.plan.selected, Some(0));

    model.open_client_global_menu();
    model.move_client_global_menu_next();
    let snapshot = ClientSidebarSnapshot::from_model(&model, &compositor, 26, 60, 16, 0);
    assert_eq!(snapshot.menu_highlighted, Some(1));

    model.open_add_remote_form();
    let snapshot = ClientSidebarSnapshot::from_model(&model, &compositor, 26, 60, 16, 0);
    assert_eq!(snapshot.add_remote_form.unwrap().target, "");

    let (model, _) = two_destination_picker_model();
    let snapshot = ClientSidebarSnapshot::from_model(&model, &compositor, 26, 60, 16, 0);
    assert_eq!(snapshot.new_workspace_picker.unwrap().destinations.len(), 2);
}

#[test]
fn hover_is_read_back() {
    let mut compositor = ClientCompositor::new(26);
    assert_eq!(compositor.hover(), None);
    compositor.set_hover(Some(SidebarHoverTarget::Workspace { ws_idx: 1 }));
    assert_eq!(
        compositor.hover(),
        Some(SidebarHoverTarget::Workspace { ws_idx: 1 })
    );
}

#[test]
fn hover_test_resolves_workspace_row() {
    let (model, remote_id) = mixed_supervisor_model();
    let compositor = ClientCompositor::new(26);
    let layout = layout(&model);
    let remote_card = layout.cards[1];
    assert_eq!(
        compositor.hit_test(&model, &layout, 1, remote_card.rect.y, 60, 28),
        Some(SidebarHitTarget::Workspace {
            server_id: remote_id.clone(),
            workspace_id: "remote-api".into(),
        })
    );
    assert_eq!(
        compositor.hover_test(&model, &layout, 1, remote_card.rect.y, 60, 28),
        Some(SidebarHoverTarget::Workspace { ws_idx: 1 })
    );
}

#[test]
fn hover_test_skips_non_selectable_rows() {
    let (model, _remote_id) = mixed_supervisor_model();
    let compositor = ClientCompositor::new(26);
    let layout = layout(&model);

    let hover = compositor.hover_test(&model, &layout, 1, 0, 60, 28);
    assert!(!matches!(
        hover,
        Some(SidebarHoverTarget::Workspace { .. }) | Some(SidebarHoverTarget::AgentRoute { .. })
    ));
    assert_eq!(compositor.hover_test(&model, &layout, 27, 0, 60, 28), None);
    assert_eq!(
        compositor.hover_test(&model, &layout, 1, DIVIDER_ROW, 60, 28),
        Some(SidebarHoverTarget::Divider)
    );
    assert_eq!(
        compositor.hover_test(&model, &layout, 1, BANNER_ROW, 60, 28),
        Some(SidebarHoverTarget::HostBanner { banner_idx: 0 })
    );
}

#[test]
fn hover_test_ignores_disabled_workspace_rows() {
    let mut model = ClientSupervisorModel::new("local");
    let remote_id = add_x(&mut model);
    model
        .set_summary(
            &remote_id,
            ServerSummary {
                workspaces: vec![workspace("remote-api", "api", None, false)],
                agents: Vec::new(),
            },
        )
        .unwrap();
    model
        .set_connection_state(&remote_id, ConnectionState::Disconnected)
        .unwrap();
    let compositor = ClientCompositor::new(26);
    let layout = layout(&model);
    for y in 0..16u16 {
        assert!(!matches!(
            compositor.hover_test(&model, &layout, 1, y, 60, 16),
            Some(SidebarHoverTarget::Workspace { .. })
        ));
    }
}

#[test]
fn hover_test_agent_resolves_route_index_and_survives_recompose() {
    let (model, _remote_id) = model_with(false, Some("idle"));
    let compositor = ClientCompositor::new(26);
    let layout = layout(&model);

    let agent_row = (0..20)
        .find(|y| {
            matches!(
                compositor.hit_test(&model, &layout, 1, *y, 60, 20),
                Some(SidebarHitTarget::Agent { agent_id, .. }) if agent_id == "remote-agent"
            )
        })
        .expect("agent row should be hit-testable");

    let route_idx = match compositor.hover_test(&model, &layout, 1, agent_row, 60, 20) {
        Some(SidebarHoverTarget::AgentRoute { route_idx }) => route_idx,
        other => panic!("expected AgentRoute, got {other:?}"),
    };

    let plan_a = compositor.sidebar_plan(&model, 1);
    let plan_b = compositor.sidebar_plan(&model, 2);
    assert_eq!(
        plan_a.agent_routes[route_idx].agent_id,
        plan_b.agent_routes[route_idx].agent_id
    );
    assert_eq!(plan_a.agent_routes[route_idx].agent_id, "remote-agent");
    assert_eq!(
        compositor.hover_test(&model, &layout, 1, agent_row, 60, 20),
        Some(SidebarHoverTarget::AgentRoute { route_idx })
    );
}

#[test]
fn hover_test_affordances_respect_draw_gate() {
    let (model, _remote_id) = mixed_supervisor_model();
    let compositor = ClientCompositor::new(26);
    let mut layout = layout(&model);
    let new_rect = layout.new_button;
    let menu_rect = layout.launcher;

    assert!(layout.mouse_capture);
    assert_eq!(
        compositor.hover_test(&model, &layout, new_rect.x, new_rect.y, 60, 16),
        Some(SidebarHoverTarget::New)
    );
    assert_eq!(
        compositor.hover_test(
            &model,
            &layout,
            menu_rect.x + menu_rect.width - 1,
            menu_rect.y,
            60,
            16
        ),
        Some(SidebarHoverTarget::Menu)
    );
    assert_eq!(
        compositor.hover_test(&model, &layout, 23, 0, 60, 16),
        Some(SidebarHoverTarget::Filter)
    );
    layout.mouse_capture = false;
    assert_eq!(
        compositor.hover_test(&model, &layout, new_rect.x, new_rect.y, 60, 16),
        None
    );
}

fn model_hover_anywhere(model: &ClientSupervisorModel, y: u16) -> Option<SidebarHoverTarget> {
    ClientCompositor::new(26).hover_test(model, &layout(model), 1, y, 60, 16)
}

#[test]
fn hover_test_suppressed_when_overlay_open() {
    let (mut model, _remote_id) = mixed_supervisor_model();
    model.open_add_remote_form();
    for y in 0..16u16 {
        assert_eq!(model_hover_anywhere(&model, y), None);
    }
    model.close_client_overlay();

    let (mut model, _remote_id) = mixed_supervisor_model();
    model.open_client_global_menu();
    for y in 0..16u16 {
        assert_eq!(model_hover_anywhere(&model, y), None);
    }
}

#[test]
fn client_global_menu_item_at_resolves_hovered_row() {
    let (mut model, _remote_id) = mixed_supervisor_model();
    let compositor = ClientCompositor::new(26);
    assert_eq!(
        compositor.client_global_menu_item_at(&model, &layout(&model), 21, 1, 60, 16),
        None
    );

    model.open_client_global_menu();
    let layout = layout(&model);
    let rect = layout.menu;
    assert_eq!(
        compositor.client_global_menu_item_at(&model, &layout, rect.x + 1, rect.y + 1, 60, 16),
        Some(0)
    );
    assert_eq!(
        compositor.client_global_menu_item_at(&model, &layout, rect.x + 1, rect.y + 3, 60, 16),
        Some(2)
    );
    assert_eq!(
        compositor.client_global_menu_item_at(&model, &layout, 0, rect.y + 1, 60, 16),
        None
    );
}

#[test]
fn hover_test_none_when_collapsed() {
    let (model, _remote_id) = mixed_supervisor_model();
    let compositor = ClientCompositor::new(26);
    assert_eq!(
        compositor.hover_test(&model, &layout(&model), 0, 0, 1, 16),
        None
    );
}

#[test]
fn hover_test_resolves_new_workspace_picker_destination_row() {
    let (model, _remote_id) = two_destination_picker_model();
    let compositor = ClientCompositor::new(26);
    let layout = layout(&model);
    let row1 = layout.picker.as_ref().unwrap().rows[1];
    assert_eq!(
        compositor.hover_test(&model, &layout, row1.x, row1.y, 60, 20),
        Some(SidebarHoverTarget::NewWorkspaceDestination { row: 1 })
    );
}

fn mouse(kind: MouseEventKind, column: u16, row: u16) -> MouseEvent {
    MouseEvent {
        kind,
        column,
        row,
        modifiers: KeyModifiers::none(),
    }
}

#[test]
fn dragging_the_border_stays_within_the_limits() {
    let settings = UiSettingsInfo::default();
    let mut compositor = ClientCompositor::new(26);
    let left = MouseButton::Left;
    assert_eq!(
        compositor.handle_sidebar_resize_mouse(
            &mouse(MouseEventKind::Drag(left), 30, 5),
            80,
            24,
            &settings
        ),
        None
    );
    compositor.handle_sidebar_resize_mouse(
        &mouse(MouseEventKind::Down(left), 25, 5),
        80,
        24,
        &settings,
    );
    for (column, width) in [(70, 36), (2, 18), (29, 30)] {
        compositor.handle_sidebar_resize_mouse(
            &mouse(MouseEventKind::Drag(left), column, 5),
            80,
            24,
            &settings,
        );
        assert_eq!(compositor.sidebar_width(), width);
    }
    compositor.handle_sidebar_resize_mouse(
        &mouse(MouseEventKind::Up(left), 29, 5),
        80,
        24,
        &settings,
    );
    assert_eq!(
        compositor.handle_sidebar_resize_mouse(
            &mouse(MouseEventKind::Drag(left), 20, 5),
            80,
            24,
            &settings
        ),
        None
    );
    assert_eq!(compositor.sidebar_width(), 30);
}

#[test]
fn the_wheel_scrolls_only_over_the_sidebar() {
    let (model, _) = mixed_supervisor_model();
    let mut layout = layout(&model);
    layout.workspace_scroll = ScrollInfo {
        offset: 0,
        max_offset: 3,
        scrollable: true,
    };
    let mut compositor = ClientCompositor::new(26);
    assert_eq!(
        compositor.handle_sidebar_scroll_mouse(
            &layout,
            &mouse(MouseEventKind::ScrollDown, 1, 3),
            60,
            20
        ),
        Some(true)
    );
    assert_eq!(
        compositor.handle_sidebar_scroll_mouse(
            &layout,
            &mouse(MouseEventKind::ScrollDown, 40, 3),
            60,
            20
        ),
        None
    );
}

#[test]
fn statuses_have_a_state() {
    assert_eq!(
        agent_state_from_status("working").0,
        AgentState::Working
    );
    assert_eq!(
        agent_state_from_status("blocked").0,
        AgentState::Blocked
    );
    assert_eq!(agent_state_from_status("idle"), (AgentState::Idle, true));
    assert_eq!(agent_state_from_status("done"), (AgentState::Idle, false));
    assert_eq!(
        agent_state_from_status("anything").0,
        AgentState::Unknown
    );
}

#[test]
fn cursors_move_with_the_content() {
    let cursor = CursorState {
        x: 3,
        y: 4,
        visible: true,
        shape: 0,
    };
    assert_eq!(
        offset_cursor(&Some(cursor), 26, 10),
        Some(CursorState { x: 29, ..cursor })
    );
    assert_eq!(offset_cursor(&Some(cursor), 26, 3), None);
    assert_eq!(offset_cursor(&None, 26, 10), None);
}

#[test]
fn hover_and_click_agree_on_every_cell() {
    let (model, _) = mixed_supervisor_model();
    let compositor = ClientCompositor::new(26);
    let layout = layout(&model);
    let mut workspaces = 0;
    for y in 0..30 {
        for x in 0..60 {
            let hit = compositor.hit_test(&model, &layout, x, y, 60, 28);
            match compositor.hover_test(&model, &layout, x, y, 60, 28) {
                Some(SidebarHoverTarget::Filter) => assert_eq!(hit, Some(SidebarHitTarget::Filter)),
                Some(SidebarHoverTarget::New) => assert_eq!(hit, Some(SidebarHitTarget::New)),
                Some(SidebarHoverTarget::Menu) => assert_eq!(hit, Some(SidebarHitTarget::Menu)),
                Some(SidebarHoverTarget::Workspace { .. }) => {
                    workspaces += 1;
                    assert!(matches!(hit, Some(SidebarHitTarget::Workspace { .. })));
                }
                Some(SidebarHoverTarget::AgentRoute { .. }) => {
                    assert!(matches!(hit, Some(SidebarHitTarget::Agent { .. })));
                }
                Some(_) => {}
                None => assert_eq!(hit, None),
            }
        }
    }
    assert!(workspaces > 0);
}

fn moved(column: u16, row: u16) -> MouseEvent {
    MouseEvent {
        kind: MouseEventKind::Moved,
        column,
        row,
        modifiers: KeyModifiers::none(),
    }
}

fn motion(
    compositor: &mut ClientCompositor,
    model: &mut ClientSupervisorModel,
    mouse: MouseEvent,
) -> ClientInputDispatch {
    let layout = layout(model);
    dispatch_composited_mouse_input(vec![1], compositor, model, &layout, (60, 28), &mouse)
}

#[test]
fn motion_draws_only_where_it_changes_what_is_under_the_mouse() {
    let (mut model, _) = mixed_supervisor_model();
    let mut compositor = ClientCompositor::new(26);
    let row = layout(&model).cards[1].rect.y;
    let over = motion(&mut compositor, &mut model, moved(1, row));
    assert!(matches!(over, ClientInputDispatch::Redraw));
    assert_eq!(
        compositor.hover(),
        Some(SidebarHoverTarget::Workspace { ws_idx: 1 })
    );
    let along = motion(&mut compositor, &mut model, moved(9, row));
    assert!(matches!(along, ClientInputDispatch::Consumed));
    let off = motion(&mut compositor, &mut model, moved(40, row));
    assert!(matches!(off, ClientInputDispatch::Redraw));
    assert_eq!(compositor.hover(), None);
    let beside = motion(&mut compositor, &mut model, moved(41, row));
    assert!(matches!(beside, ClientInputDispatch::Forward(data) if data == vec![1]));
}

#[test]
fn motion_moves_the_highlight_of_the_open_menu() {
    let (mut model, _) = mixed_supervisor_model();
    let mut compositor = ClientCompositor::new(26);
    model.open_client_global_menu();
    let menu = layout(&model).menu;
    let over = motion(&mut compositor, &mut model, moved(menu.x + 1, menu.y + 3));
    assert!(matches!(over, ClientInputDispatch::Redraw));
    assert_eq!(model.client_global_menu_highlighted(), Some(2));
    let again = motion(&mut compositor, &mut model, moved(menu.x + 2, menu.y + 3));
    assert!(matches!(again, ClientInputDispatch::Consumed));
    assert_eq!(compositor.hover(), None);
    assert!(!model.hover_client_global_menu_item(None));
    assert!(!model.hover_client_global_menu_item(Some(5)));
    assert!(model.hover_client_global_menu_item(Some(4)));
    assert_eq!(model.client_global_menu_highlighted(), Some(4));
    model.close_client_overlay();
    assert!(!model.hover_client_global_menu_item(Some(1)));
}

#[test]
fn upkeep_lists_exactly_the_agents_that_work() {
    let (working, remote_id) = model_with_agent_status("working");
    let agent = "remote-agent".to_string();
    let mut compositor = ClientCompositor::new(26);
    compositor.seed_working_since(remote_id.clone(), "gone".into(), 5);
    compositor.keep_working_since(&working, 100);
    assert_eq!(compositor.working_since_len(), 1);
    assert_eq!(compositor.working_since_at(&remote_id, &agent), Some(100));
    compositor.keep_working_since(&working, 900);
    assert_eq!(compositor.working_since_at(&remote_id, &agent), Some(100));
    let (idle, _) = model_with_agent_status("idle");
    compositor.keep_working_since(&idle, 1_000);
    assert_eq!(compositor.working_since_len(), 0);
}

#[test]
fn snapshots_tell_where_sidebar_and_content_lie() {
    let (model, _) = mixed_supervisor_model();
    let compositor = ClientCompositor::new(26);
    let snapshot = ClientSidebarSnapshot::from_model(&model, &compositor, 26, 60, 16, 0);
    assert_eq!(snapshot.sidebar_rect, Rect::new(0, 0, 26, 16));
    assert_eq!(snapshot.terminal_area, Rect::new(26, 0, 34, 16));
    let narrow = ClientSidebarSnapshot::from_model(&model, &compositor, 26, 20, 16, 0);
    assert_eq!(narrow.terminal_area, Rect::new(26, 0, 0, 16));
}
