use std::cell::RefCell;

use herdr::api::{
    AgentInfo, AgentStatus, AgentTarget, EmptyParams, Method, Request, ResponseResult,
    SidebarSpaceItem, SuccessResponse, UiSettingsInfo, WorkspaceCreateParams, WorkspaceInfo,
    WorkspaceTarget,
};
use herdr::input::{KeyCode, KeyModifiers, TerminalKey};
use herdr::protocol::PROTOCOL_VERSION;
use herdr::remote_registry::{
    RemoteDefinitionSnapshot, RemoteKeybindingsSnapshot, RemoteTargetSnapshot,
};
use herdr::servers::{
    agent_label, agent_status_label, AgentSummary, ConnectionState, ServerConnectionTarget,
    ServerFilter, ServerId, ServerRole, ServerSummary, WorkspaceSummary,
};
use herdr::supervisor::overlay::{
    AddRemoteDraft, AddRemoteFormOutcome, ClientGlobalMenuAction,
};
use herdr::supervisor::routes::{
    FocusRoute, NewWorkspaceRoute, SecondaryConnectionPlan, SummarySubscriptionPlan,
};
use herdr::supervisor::rows::{AgentSidebarGroup, AgentSidebarRow, WorkspaceSidebarRow};
use herdr::supervisor::{AddRemoteField, AddRemoteForm, ClientSupervisorModel, ServerDestination};
use herdr::supervisor_api::{
    bootstrap_from_main_api, bootstrap_from_results, check_runtime_status, fetch_server_summary,
    request_runtime_status, SupervisorApi,
};

fn ssh_remote(
    id: &str,
    name: &str,
    target: &str,
) -> RemoteDefinitionSnapshot {
    RemoteDefinitionSnapshot {
        id: id.into(),
        name: name.into(),
        target: RemoteTargetSnapshot::Ssh {
            target: target.into(),
            args: Vec::new(),
        },
        session: None,
        keybindings: RemoteKeybindingsSnapshot::Local,
        disabled: false,
        auto_update: false,
        style_bg: None,
        style_fg: None,
        style_bullet: None,
    }
}

fn local_remote(
    id: &str,
    name: &str,
    session: Option<&str>,
) -> RemoteDefinitionSnapshot {
    RemoteDefinitionSnapshot {
        id: id.into(),
        name: name.into(),
        target: RemoteTargetSnapshot::Local {
            session: session.map(str::to_string),
        },
        session: None,
        keybindings: RemoteKeybindingsSnapshot::Server,
        disabled: false,
        auto_update: false,
        style_bg: None,
        style_fg: None,
        style_bullet: None,
    }
}

fn workspace_info(
    workspace_id: &str,
    label: &str,
    focused: bool,
) -> WorkspaceInfo {
    WorkspaceInfo {
        workspace_id: workspace_id.into(),
        number: 1,
        label: label.into(),
        branch: None,
        focused,
        pane_count: 1,
        tab_count: 1,
        active_tab_id: "tab-1".into(),
        agent_status: AgentStatus::Idle,
    }
}

fn agent_info(
    terminal_id: &str,
    workspace_id: &str,
    label: &str,
    status: AgentStatus,
    focused: bool,
) -> AgentInfo {
    AgentInfo {
        terminal_id: terminal_id.into(),
        name: Some(label.into()),
        agent: None,
        title: None,
        display_agent: None,
        agent_status: status,
        custom_status: None,
        workspace_id: workspace_id.into(),
        tab_id: "tab-1".into(),
        pane_id: "pane-1".into(),
        focused,
        cwd: None,
        revision: 1,
    }
}

#[derive(Default)]
struct FakeSupervisorApi {
    requests: Vec<&'static str>,
    remotes: Vec<RemoteDefinitionSnapshot>,
    workspaces: Vec<WorkspaceInfo>,
    agents: Vec<AgentInfo>,
    ui_settings: UiSettingsInfo,
    fail_ui_settings: bool,
}

impl SupervisorApi for FakeSupervisorApi {
    fn request(
        &mut self,
        request: Request,
    ) -> Result<SuccessResponse, String> {
        let result = match request.method {
            Method::RemoteList(_) => {
                self.requests.push("remote.list");
                ResponseResult::RemoteList {
                    remotes: self.remotes.clone(),
                }
            }
            Method::WorkspaceList(_) => {
                self.requests.push("workspace.list");
                ResponseResult::WorkspaceList {
                    workspaces: self.workspaces.clone(),
                }
            }
            Method::AgentList(_) => {
                self.requests.push("agent.list");
                ResponseResult::AgentList {
                    agents: self.agents.clone(),
                }
            }
            Method::ServerUiSettings(_) => {
                self.requests.push("server.ui_settings");
                if self.fail_ui_settings {
                    return Err("settings unavailable".into());
                }
                ResponseResult::UiSettings {
                    settings: self.ui_settings.clone(),
                }
            }
            other => return Err(format!("unexpected method: {other:?}")),
        };

        Ok(SuccessResponse {
            id: request.id,
            result,
        })
    }
}

#[test]
fn bootstrap_from_main_api_fetches_registry_summary_and_connection_plans() {
    let mut api = FakeSupervisorApi {
        remotes: vec![
            ssh_remote("remote-ssh", "prod", "prod.example.com"),
            local_remote("remote-dev", "dev", Some("dev")),
        ],
        workspaces: vec![workspace_info("main-workspace", "herdr", true)],
        agents: vec![agent_info(
            "terminal-1",
            "main-workspace",
            "aider",
            AgentStatus::Working,
            true,
        )],
        ..FakeSupervisorApi::default()
    };

    let model = bootstrap_from_main_api(&mut api, "local").unwrap();

    assert_eq!(
        api.requests,
        vec![
            "remote.list",
            "workspace.list",
            "agent.list",
            "server.ui_settings"
        ]
    );
    assert_eq!(
        model.workspace_rows(),
        vec![
            WorkspaceSidebarRow {
                server_id: ServerId::main(),
                workspace_id: Some("main-workspace".into()),
                label: "herdr".into(),
                branch: None,
                focused: true,
                disabled: false,
            },
            WorkspaceSidebarRow {
                server_id: ServerId::secondary("remote-ssh"),
                workspace_id: None,
                label: "prod connecting".into(),
                branch: None,
                focused: false,
                disabled: true,
            },
            WorkspaceSidebarRow {
                server_id: ServerId::secondary("remote-dev"),
                workspace_id: None,
                label: "dev connecting".into(),
                branch: None,
                focused: false,
                disabled: true,
            },
        ]
    );
    assert_eq!(
        model.agent_groups(),
        vec![AgentSidebarGroup {
            server_id: ServerId::main(),
            workspace_id: "main-workspace".into(),
            label: "herdr".into(),
            focused: true,
            agents: vec![AgentSidebarRow {
                agent_id: "terminal-1".into(),
                label: "aider".into(),
                status: "working".into(),
                focused: true,
            }],
        }]
    );
    assert_eq!(
        model.secondary_connection_plans(),
        vec![
            SecondaryConnectionPlan {
                server_id: ServerId::secondary("remote-dev"),
                display_name: "dev".into(),
                target: ServerConnectionTarget::LocalSession(Some("dev".into())),
                keybindings: RemoteKeybindingsSnapshot::Server,
            },
            SecondaryConnectionPlan {
                server_id: ServerId::secondary("remote-ssh"),
                display_name: "prod".into(),
                target: ServerConnectionTarget::Ssh("prod.example.com".into()),
                keybindings: RemoteKeybindingsSnapshot::Local,
            },
        ]
    );
}

#[test]
fn bootstrap_from_main_api_stores_main_ui_settings_snapshot() {
    let mut ui_settings = UiSettingsInfo {
        sidebar_width: 33,
        ..UiSettingsInfo::default()
    };
    SidebarSpaceItem::Branch
        .set_enabled(&mut ui_settings.sidebar_spaces, false);
    let mut api = FakeSupervisorApi {
        workspaces: vec![workspace_info("main-workspace", "herdr", true)],
        ui_settings: ui_settings.clone(),
        ..FakeSupervisorApi::default()
    };

    let model = bootstrap_from_main_api(&mut api, "local").unwrap();

    assert_eq!(model.ui_settings(), &ui_settings);
    assert_eq!(
        api.requests,
        vec![
            "remote.list",
            "workspace.list",
            "agent.list",
            "server.ui_settings"
        ]
    );
}

#[test]
fn bootstrap_from_main_api_keeps_default_ui_settings_when_snapshot_fails() {
    let mut api = FakeSupervisorApi {
        workspaces: vec![workspace_info("main-workspace", "herdr", true)],
        fail_ui_settings: true,
        ..FakeSupervisorApi::default()
    };

    let model = bootstrap_from_main_api(&mut api, "local").unwrap();

    assert_eq!(
        model.ui_settings(),
        &UiSettingsInfo::default()
    );
    assert_eq!(
        api.requests,
        vec![
            "remote.list",
            "workspace.list",
            "agent.list",
            "server.ui_settings"
        ]
    );
}

#[test]
fn refresh_main_summary_from_api_replaces_main_summary_only() {
    let mut model = ClientSupervisorModel::new("local");
    let remote_id = model.add_secondary(ssh_remote("remote-x", "x", "x"));
    model
        .set_summary(
            &remote_id,
            ServerSummary {
                workspaces: vec![WorkspaceSummary {
                    workspace_id: "remote-api".into(),
                    label: "api".into(),
                    branch: None,
                    focused: false,
                }],
                agents: Vec::new(),
            },
        )
        .unwrap();
    let mut api = FakeSupervisorApi {
        workspaces: vec![workspace_info("main-updated", "herdr", true)],
        agents: vec![agent_info(
            "main-agent",
            "main-updated",
            "aider",
            AgentStatus::Idle,
            true,
        )],
        ..FakeSupervisorApi::default()
    };

    model.refresh_main_summary_from_api(&mut api).unwrap();

    assert_eq!(api.requests, vec!["workspace.list", "agent.list"]);
    assert_eq!(
        model.workspace_rows(),
        vec![
            WorkspaceSidebarRow {
                server_id: ServerId::main(),
                workspace_id: Some("main-updated".into()),
                label: "herdr".into(),
                branch: None,
                focused: true,
                disabled: false,
            },
            WorkspaceSidebarRow {
                server_id: remote_id,
                workspace_id: Some("remote-api".into()),
                label: "x api".into(),
                branch: None,
                focused: false,
                disabled: false,
            },
        ]
    );
}

#[test]
fn refresh_secondary_summaries_visits_local_first_and_marks_per_server_state() {
    let mut model = ClientSupervisorModel::new("local");
    model.sync_remote_registry(vec![
        ssh_remote("remote-ssh", "prod", "prod.example.com"),
        local_remote("remote-dev", "dev", Some("dev")),
    ]);
    let visited = RefCell::new(Vec::new());

    model.refresh_secondary_summaries(|plan| {
        visited.borrow_mut().push(plan.target.clone());
        match &plan.target {
            ServerConnectionTarget::LocalSession(_) => Ok(ServerSummary {
                workspaces: vec![WorkspaceSummary {
                    workspace_id: "dev-workspace".into(),
                    label: "api".into(),
                    branch: None,
                    focused: false,
                }],
                agents: Vec::new(),
            }),
            ServerConnectionTarget::Ssh(_) => Err(ConnectionState::ProtocolMismatch {
                server_protocol: Some(10),
                client_protocol: PROTOCOL_VERSION,
            }),
            ServerConnectionTarget::Main => unreachable!("secondary plans never include main"),
        }
    });

    assert_eq!(
        visited.into_inner(),
        vec![
            ServerConnectionTarget::LocalSession(Some("dev".into())),
            ServerConnectionTarget::Ssh("prod.example.com".into()),
        ]
    );
    assert_eq!(
        model.workspace_rows(),
        vec![
            WorkspaceSidebarRow {
                server_id: ServerId::secondary("remote-ssh"),
                workspace_id: None,
                label: "prod protocol mismatch".into(),
                branch: None,
                focused: false,
                disabled: true,
            },
            WorkspaceSidebarRow {
                server_id: ServerId::secondary("remote-dev"),
                workspace_id: Some("dev-workspace".into()),
                label: "dev api".into(),
                branch: None,
                focused: false,
                disabled: false,
            },
        ]
    );
}

#[test]
fn server_filter_cycles_all_main_then_secondary_registry_order() {
    let mut model = ClientSupervisorModel::new("local");
    model.add_secondary(ssh_remote("remote-x", "x", "x"));
    model.add_secondary(ssh_remote("remote-y", "y", "y"));

    assert_eq!(model.filter(), &ServerFilter::All);
    assert_eq!(model.filter_label(), "all");

    model.cycle_filter();
    assert_eq!(model.filter(), &ServerFilter::Server(ServerId::main()));
    assert_eq!(model.filter_label(), "local");

    model.cycle_filter();
    assert_eq!(
        model.filter(),
        &ServerFilter::Server(ServerId::secondary("remote-x"))
    );
    assert_eq!(model.filter_label(), "x");

    model.cycle_filter();
    assert_eq!(
        model.filter(),
        &ServerFilter::Server(ServerId::secondary("remote-y"))
    );
    assert_eq!(model.filter_label(), "y");

    model.cycle_filter();
    assert_eq!(model.filter(), &ServerFilter::All);
    assert_eq!(model.filter_label(), "all");
}

#[test]
fn removing_selected_remote_falls_back_to_all_and_main_active_server() {
    let mut model = ClientSupervisorModel::new("local");
    model.add_secondary(ssh_remote("remote-x", "x", "x"));
    let remote_id = ServerId::secondary("remote-x");
    model.set_filter(ServerFilter::Server(remote_id.clone()));
    model.set_active_server(remote_id.clone()).unwrap();

    let removed = model.remove_secondary(&remote_id);

    assert!(removed);
    assert_eq!(model.filter(), &ServerFilter::All);
    assert_eq!(model.active_server_id(), &ServerId::main());
}

#[test]
fn new_workspace_route_uses_filter_or_picker() {
    let mut model = ClientSupervisorModel::new("local");

    assert_eq!(
        model.new_workspace_route(),
        NewWorkspaceRoute::CreateOn(ServerId::main())
    );

    model.add_secondary(ssh_remote("remote-x", "x", "x"));
    assert_eq!(
        model.new_workspace_route(),
        NewWorkspaceRoute::PickDestination(vec![
            ServerDestination {
                server_id: ServerId::main(),
                display_name: "local".into(),
            },
            ServerDestination {
                server_id: ServerId::secondary("remote-x"),
                display_name: "x".into(),
            },
        ])
    );

    model.set_filter(ServerFilter::Server(ServerId::secondary("remote-x")));
    assert_eq!(
        model.new_workspace_route(),
        NewWorkspaceRoute::CreateOn(ServerId::secondary("remote-x"))
    );
}

#[test]
fn new_workspace_route_builds_focused_create_request_for_single_destination() {
    let mut model = ClientSupervisorModel::new("local");
    model.set_filter(ServerFilter::Server(ServerId::main()));
    let route = model.new_workspace_route();

    assert_eq!(
        route.api_request("client:workspace-create"),
        Some((
            ServerId::main(),
            Request {
                id: "client:workspace-create".into(),
                method: Method::WorkspaceCreate(
                    WorkspaceCreateParams {
                        cwd: None,
                        focus: true,
                        label: None,
                    },
                ),
            }
        ))
    );
}

#[test]
fn new_workspace_route_waits_for_picker_when_multiple_destinations_exist() {
    let mut model = ClientSupervisorModel::new("local");
    model.add_secondary(ssh_remote("remote-x", "x", "x"));
    let route = model.new_workspace_route();

    assert_eq!(route.api_request("client:workspace-create"), None);
}

#[test]
fn opening_new_workspace_picker_tracks_connected_destinations() {
    let mut model = ClientSupervisorModel::new("local");
    model.add_secondary(ssh_remote("remote-x", "x", "x"));
    let expected = vec![
        ServerDestination {
            server_id: ServerId::main(),
            display_name: "local".into(),
        },
        ServerDestination {
            server_id: ServerId::secondary("remote-x"),
            display_name: "x".into(),
        },
    ];

    let route = model.open_new_workspace_picker();

    assert_eq!(route, NewWorkspaceRoute::PickDestination(expected.clone()));
    assert_eq!(
        model.new_workspace_picker_destinations(),
        Some(&expected)
    );
}

#[test]
fn open_new_workspace_picker_keeps_single_remaining_destination() {
    let mut model = ClientSupervisorModel::new("local");
    let remote_id = ServerId::secondary("remote-x");
    model.add_secondary(ssh_remote("remote-x", "x", "x"));
    model.open_new_workspace_picker();

    model
        .set_connection_state(&remote_id, ConnectionState::Disconnected)
        .unwrap();

    let expected = vec![ServerDestination {
        server_id: ServerId::main(),
        display_name: "local".into(),
    }];
    assert_eq!(
        model.new_workspace_picker_destinations(),
        Some(&expected)
    );
}

#[test]
fn secondary_server_id_cannot_collide_with_main_server_id() {
    let mut model = ClientSupervisorModel::new("local");
    let remote_id = model.add_secondary(local_remote("main", "remote main", Some("main")));

    assert_ne!(remote_id, ServerId::main());
    assert_eq!(
        model
            .servers()
            .iter()
            .filter(|server| server.id == ServerId::main())
            .count(),
        1
    );
    assert_eq!(
        model.server(&remote_id).map(|server| server.role),
        Some(ServerRole::Secondary)
    );
}

#[test]
fn choosing_new_workspace_destination_routes_create_and_switches_active_server() {
    let mut model = ClientSupervisorModel::new("local");
    let remote_id = ServerId::secondary("remote-x");
    model.add_secondary(ssh_remote("remote-x", "x", "x"));
    model.open_new_workspace_picker();

    let route = model.choose_new_workspace_destination(&remote_id);

    assert_eq!(route, NewWorkspaceRoute::CreateOn(remote_id.clone()));
    assert_eq!(model.active_server_id(), &remote_id);
    assert_eq!(model.new_workspace_picker_destinations(), None);
    assert_eq!(
        route.api_request("client:workspace-create"),
        Some((
            remote_id,
            Request {
                id: "client:workspace-create".into(),
                method: Method::WorkspaceCreate(
                    WorkspaceCreateParams {
                        cwd: None,
                        focus: true,
                        label: None,
                    },
                ),
            },
        ))
    );
}

#[test]
fn disconnected_filtered_server_does_not_route_new_workspace_elsewhere() {
    let mut model = ClientSupervisorModel::new("local");
    let remote_id = ServerId::secondary("remote-x");
    model.add_secondary(ssh_remote("remote-x", "x", "x"));
    model
        .set_connection_state(&remote_id, ConnectionState::Disconnected)
        .unwrap();
    model.set_filter(ServerFilter::Server(remote_id));

    assert_eq!(
        model.new_workspace_route(),
        NewWorkspaceRoute::Unavailable {
            server_id: ServerId::secondary("remote-x"),
            reason: "server disconnected".into(),
        }
    );
}

#[test]
fn unavailable_filtered_server_reports_specific_connection_state() {
    let mut model = ClientSupervisorModel::new("local");
    let remote_id = ServerId::secondary("remote-x");
    model.add_secondary(ssh_remote("remote-x", "x", "x"));
    model.set_filter(ServerFilter::Server(remote_id.clone()));

    model
        .set_connection_state(&remote_id, ConnectionState::Connecting)
        .unwrap();
    assert_eq!(
        model.new_workspace_route(),
        NewWorkspaceRoute::Unavailable {
            server_id: remote_id.clone(),
            reason: "server connecting".into(),
        }
    );

    model
        .set_connection_state(
            &remote_id,
            ConnectionState::ProtocolMismatch {
                server_protocol: Some(10),
                client_protocol: 11,
            },
        )
        .unwrap();
    assert_eq!(
        model.new_workspace_route(),
        NewWorkspaceRoute::Unavailable {
            server_id: remote_id,
            reason: "protocol mismatch".into(),
        }
    );
}

#[test]
fn active_remote_falls_back_to_main_when_connection_becomes_unavailable() {
    let mut model = ClientSupervisorModel::new("local");
    let remote_id = ServerId::secondary("remote-x");
    model.add_secondary(ssh_remote("remote-x", "x", "x"));
    model.set_active_server(remote_id.clone()).unwrap();

    model
        .set_connection_state(&remote_id, ConnectionState::Disconnected)
        .unwrap();

    assert_eq!(model.active_server_id(), &ServerId::main());
}

#[test]
fn workspace_rows_prefix_secondary_labels_only_in_all_filter() {
    let mut model = ClientSupervisorModel::new("local");
    let remote_id = ServerId::secondary("remote-x");
    model.add_secondary(ssh_remote("remote-x", "x", "x"));
    model
        .set_summary(
            &ServerId::main(),
            ServerSummary {
                workspaces: vec![WorkspaceSummary {
                    workspace_id: "main-herdr".into(),
                    label: "herdr".into(),
                    branch: None,
                    focused: true,
                }],
                agents: Vec::new(),
            },
        )
        .unwrap();
    model
        .set_summary(
            &remote_id,
            ServerSummary {
                workspaces: vec![WorkspaceSummary {
                    workspace_id: "remote-herdr".into(),
                    label: "herdr".into(),
                    branch: None,
                    focused: false,
                }],
                agents: Vec::new(),
            },
        )
        .unwrap();

    assert_eq!(
        model.workspace_rows(),
        vec![
            WorkspaceSidebarRow {
                server_id: ServerId::main(),
                workspace_id: Some("main-herdr".into()),
                label: "herdr".into(),
                branch: None,
                focused: true,
                disabled: false,
            },
            WorkspaceSidebarRow {
                server_id: remote_id.clone(),
                workspace_id: Some("remote-herdr".into()),
                label: "x herdr".into(),
                branch: None,
                focused: false,
                disabled: false,
            },
        ]
    );

    model.set_filter(ServerFilter::Server(remote_id.clone()));
    assert_eq!(
        model.workspace_rows(),
        vec![WorkspaceSidebarRow {
            server_id: remote_id,
            workspace_id: Some("remote-herdr".into()),
            label: "herdr".into(),
            branch: None,
            focused: false,
            disabled: false,
        }]
    );
}

#[test]
fn offline_remote_without_summary_renders_disabled_workspace_row() {
    let mut model = ClientSupervisorModel::new("local");
    let remote_id = ServerId::secondary("remote-x");
    model.add_secondary(ssh_remote("remote-x", "x", "x"));
    model
        .set_connection_state(&remote_id, ConnectionState::Disconnected)
        .unwrap();

    assert_eq!(
        model.workspace_rows(),
        vec![WorkspaceSidebarRow {
            server_id: remote_id.clone(),
            workspace_id: None,
            label: "x offline".into(),
            branch: None,
            focused: false,
            disabled: true,
        }]
    );

    model.set_filter(ServerFilter::Server(remote_id.clone()));
    assert_eq!(
        model.workspace_rows(),
        vec![WorkspaceSidebarRow {
            server_id: remote_id,
            workspace_id: None,
            label: "x offline".into(),
            branch: None,
            focused: false,
            disabled: true,
        }]
    );
}

#[test]
fn connected_empty_remote_renders_empty_workspace_row() {
    let mut model = ClientSupervisorModel::new("local");
    let remote_id = ServerId::secondary("remote-x");
    model.add_secondary(ssh_remote("remote-x", "x", "x"));
    model
        .set_summary(&remote_id, ServerSummary::default())
        .unwrap();

    assert_eq!(
        model.workspace_rows(),
        vec![WorkspaceSidebarRow {
            server_id: remote_id,
            workspace_id: None,
            label: "x no workspaces".into(),
            branch: None,
            focused: false,
            disabled: true,
        }]
    );
}

#[test]
fn agent_groups_prefix_secondary_workspace_labels_in_all_filter() {
    let mut model = ClientSupervisorModel::new("local");
    let remote_id = ServerId::secondary("remote-x");
    model.add_secondary(ssh_remote("remote-x", "x", "x"));
    model
        .set_summary(
            &ServerId::main(),
            ServerSummary {
                workspaces: vec![WorkspaceSummary {
                    workspace_id: "main-herdr".into(),
                    label: "herdr".into(),
                    branch: None,
                    focused: false,
                }],
                agents: vec![AgentSummary {
                    agent_id: "main-agent".into(),
                    workspace_id: "main-herdr".into(),
                    label: "aider".into(),
                    status: "idle".into(),
                    focused: false,
                }],
            },
        )
        .unwrap();
    model
        .set_summary(
            &remote_id,
            ServerSummary {
                workspaces: vec![WorkspaceSummary {
                    workspace_id: "remote-herdr".into(),
                    label: "herdr".into(),
                    branch: None,
                    focused: true,
                }],
                agents: vec![AgentSummary {
                    agent_id: "remote-agent".into(),
                    workspace_id: "remote-herdr".into(),
                    label: "aider".into(),
                    status: "idle".into(),
                    focused: true,
                }],
            },
        )
        .unwrap();

    assert_eq!(
        model.agent_groups(),
        vec![
            AgentSidebarGroup {
                server_id: ServerId::main(),
                workspace_id: "main-herdr".into(),
                label: "herdr".into(),
                focused: false,
                agents: vec![AgentSidebarRow {
                    agent_id: "main-agent".into(),
                    label: "aider".into(),
                    status: "idle".into(),
                    focused: false,
                }],
            },
            AgentSidebarGroup {
                server_id: remote_id.clone(),
                workspace_id: "remote-herdr".into(),
                label: "x herdr".into(),
                focused: true,
                agents: vec![AgentSidebarRow {
                    agent_id: "remote-agent".into(),
                    label: "aider".into(),
                    status: "idle".into(),
                    focused: true,
                }],
            },
        ]
    );

    model.set_filter(ServerFilter::Server(remote_id.clone()));
    assert_eq!(
        model.agent_groups(),
        vec![AgentSidebarGroup {
            server_id: remote_id,
            workspace_id: "remote-herdr".into(),
            label: "herdr".into(),
            focused: true,
            agents: vec![AgentSidebarRow {
                agent_id: "remote-agent".into(),
                label: "aider".into(),
                status: "idle".into(),
                focused: true,
            }],
        }]
    );
}

#[test]
fn focus_workspace_route_switches_active_server_for_connected_owner() {
    let mut model = ClientSupervisorModel::new("local");
    let remote_id = ServerId::secondary("remote-x");
    model.add_secondary(ssh_remote("remote-x", "x", "x"));
    model
        .set_summary(
            &remote_id,
            ServerSummary {
                workspaces: vec![WorkspaceSummary {
                    workspace_id: "remote-api".into(),
                    label: "api".into(),
                    branch: None,
                    focused: false,
                }],
                agents: Vec::new(),
            },
        )
        .unwrap();

    let route = model.focus_workspace_route(&remote_id, "remote-api");

    assert_eq!(
        route,
        FocusRoute::Workspace {
            server_id: remote_id.clone(),
            workspace_id: "remote-api".into(),
        }
    );
    assert_eq!(model.active_server_id(), &remote_id);
    assert_eq!(
        route.api_request("client:workspace-focus"),
        Some(Request {
            id: "client:workspace-focus".into(),
            method: Method::WorkspaceFocus(
                WorkspaceTarget {
                    workspace_id: "remote-api".into(),
                },
            ),
        })
    );
}

#[test]
fn focus_agent_route_switches_active_server_for_connected_owner() {
    let mut model = ClientSupervisorModel::new("local");
    let remote_id = ServerId::secondary("remote-x");
    model.add_secondary(ssh_remote("remote-x", "x", "x"));
    model
        .set_summary(
            &remote_id,
            ServerSummary {
                workspaces: vec![WorkspaceSummary {
                    workspace_id: "remote-api".into(),
                    label: "api".into(),
                    branch: None,
                    focused: false,
                }],
                agents: vec![AgentSummary {
                    agent_id: "remote-agent".into(),
                    workspace_id: "remote-api".into(),
                    label: "aider".into(),
                    status: "idle".into(),
                    focused: false,
                }],
            },
        )
        .unwrap();

    let route = model.focus_agent_route(&remote_id, "remote-agent");

    assert_eq!(
        route,
        FocusRoute::Agent {
            server_id: remote_id.clone(),
            target: "remote-agent".into(),
        }
    );
    assert_eq!(model.active_server_id(), &remote_id);
    assert_eq!(
        route.api_request("client:agent-focus"),
        Some(Request {
            id: "client:agent-focus".into(),
            method: Method::AgentFocus(AgentTarget {
                target: "remote-agent".into(),
            },),
        })
    );
}

#[test]
fn focus_route_rejects_disconnected_owner_without_fallback() {
    let mut model = ClientSupervisorModel::new("local");
    let remote_id = ServerId::secondary("remote-x");
    model.add_secondary(ssh_remote("remote-x", "x", "x"));
    model
        .set_connection_state(&remote_id, ConnectionState::Disconnected)
        .unwrap();

    let route = model.focus_workspace_route(&remote_id, "remote-api");

    assert_eq!(
        route,
        FocusRoute::Unavailable {
            server_id: remote_id,
            reason: "server disconnected".into(),
        }
    );
    assert_eq!(model.active_server_id(), &ServerId::main());
    assert_eq!(route.api_request("client:workspace-focus"), None);
}

#[test]
fn focus_route_does_not_send_unknown_rows() {
    let mut model = ClientSupervisorModel::new("local");
    let remote_id = ServerId::secondary("remote-x");
    model.add_secondary(ssh_remote("remote-x", "x", "x"));

    let route = model.focus_agent_route(&remote_id, "missing-agent");

    assert_eq!(route, FocusRoute::NotFound);
    assert_eq!(model.active_server_id(), &ServerId::main());
    assert_eq!(route.api_request("client:agent-focus"), None);
}

#[test]
fn client_global_menu_uses_server_launcher_items() {
    let mut model = ClientSupervisorModel::new("local");

    model.open_client_global_menu();

    assert_eq!(model.client_global_menu_highlighted(), Some(0));
    assert_eq!(
        model.client_global_menu_items(),
        [
            "settings",
            "keybinds",
            "reload config",
            "detach",
            "add remote"
        ]
    );
    for _ in 0..4 {
        model.move_client_global_menu_next();
    }
    assert_eq!(model.client_global_menu_highlighted(), Some(4));
    assert_eq!(
        model.accept_client_global_menu_item(),
        Some(ClientGlobalMenuAction::AddRemote)
    );
    assert_eq!(
        model.add_remote_form(),
        Some(&AddRemoteForm {
            target: String::new(),
            name: String::new(),
            focused_field: AddRemoteField::Target,
            error: None,
        })
    );
}

#[test]
fn add_remote_form_edits_fields_and_builds_draft() {
    let mut model = ClientSupervisorModel::new("local");
    model.open_add_remote_form();

    for ch in "local:dev".chars() {
        assert_eq!(
            model.handle_add_remote_key(TerminalKey::new(
                KeyCode::Char(ch),
                KeyModifiers::none(),
            )),
            AddRemoteFormOutcome::Redraw
        );
    }
    assert_eq!(
        model.handle_add_remote_key(TerminalKey::new(
            KeyCode::Tab,
            KeyModifiers::none(),
        )),
        AddRemoteFormOutcome::Redraw
    );
    for ch in "dev".chars() {
        assert_eq!(
            model.handle_add_remote_key(TerminalKey::new(
                KeyCode::Char(ch),
                KeyModifiers::none(),
            )),
            AddRemoteFormOutcome::Redraw
        );
    }

    assert_eq!(
        model.handle_add_remote_key(TerminalKey::new(
            KeyCode::Enter,
            KeyModifiers::none(),
        )),
        AddRemoteFormOutcome::Submit(AddRemoteDraft {
            target: "local:dev".into(),
            name: Some("dev".into()),
            keybindings: RemoteKeybindingsSnapshot::Local,
        })
    );
}

#[test]
fn summary_subscription_plans_include_connected_main_and_local_secondaries_only() {
    let mut model = ClientSupervisorModel::new("local");
    let dev_id = model.add_secondary(local_remote("remote-dev", "dev", Some("dev")));
    let ssh_id = model.add_secondary(ssh_remote("remote-ssh", "prod", "prod.example.com"));
    model
        .set_connection_state(&ssh_id, ConnectionState::Connecting)
        .unwrap();

    assert_eq!(
        model.summary_subscription_plans(),
        vec![
            SummarySubscriptionPlan {
                server_id: ServerId::main(),
                target: ServerConnectionTarget::Main,
            },
            SummarySubscriptionPlan {
                server_id: dev_id,
                target: ServerConnectionTarget::LocalSession(Some("dev".into())),
            },
        ]
    );
}

/// An API that answers every request in the same way.
struct FixedApi {
    answer: fn() -> Result<ResponseResult, String>,
}

impl SupervisorApi for FixedApi {
    fn request(&mut self, request: Request) -> Result<SuccessResponse, String> {
        let result = (self.answer)()?;
        Ok(SuccessResponse {
            id: request.id,
            result,
        })
    }
}

#[test]
fn bootstrap_fails_where_the_registry_cannot_be_read() {
    let mut silent = FixedApi {
        answer: || Err("gone".to_string()),
    };
    assert_eq!(
        bootstrap_from_main_api(&mut silent, "local").err(),
        Some("gone".to_string())
    );
    let mut confused = FixedApi {
        answer: || Ok(ResponseResult::Done {}),
    };
    let error = bootstrap_from_main_api(&mut confused, "local").err().unwrap();
    assert!(error.contains("Done"), "{error}");
}

#[test]
fn status_is_read_from_a_pong() {
    let mut api = FixedApi {
        answer: || {
            Ok(ResponseResult::Pong {
                version: "1.0".to_string(),
                protocol: PROTOCOL_VERSION,
                live_handoff: true,
            })
        },
    };
    let status = request_runtime_status(&mut api);
    assert_eq!(check_runtime_status(&status), Ok(()));
    let status = status.unwrap();
    assert_eq!(status.version.as_deref(), Some("1.0"));
    assert_eq!(status.protocol, Some(PROTOCOL_VERSION));
    assert!(status.live_handoff);
}

#[test]
fn summaries_are_fetched_only_from_servers_of_this_protocol() {
    let mut old = FixedApi {
        answer: || {
            Ok(ResponseResult::Pong {
                version: "0.1".to_string(),
                protocol: PROTOCOL_VERSION - 1,
                live_handoff: false,
            })
        },
    };
    assert_eq!(
        fetch_server_summary(&mut old),
        Err(ConnectionState::ProtocolMismatch {
            server_protocol: Some(PROTOCOL_VERSION - 1),
            client_protocol: PROTOCOL_VERSION,
        })
    );
    let mut gone = FixedApi {
        answer: || Err("no socket".to_string()),
    };
    assert_eq!(
        fetch_server_summary(&mut gone),
        Err(ConnectionState::Disconnected)
    );
}

#[test]
fn registry_refresh_keeps_what_is_known_of_a_server() {
    let mut model = ClientSupervisorModel::new("local");
    let id = model.add_secondary(ssh_remote("remote-x", "x", "x"));
    model
        .set_summary(
            &id,
            ServerSummary {
                workspaces: vec![WorkspaceSummary {
                    workspace_id: "w".into(),
                    label: "api".into(),
                    branch: None,
                    focused: false,
                }],
                agents: Vec::new(),
            },
        )
        .unwrap();
    let mut api = FixedApi {
        answer: || {
            Ok(ResponseResult::RemoteList {
                remotes: vec![
                    ssh_remote("remote-y", "y", "y"),
                    ssh_remote("remote-x", "renamed", "x"),
                ],
            })
        },
    };
    model.refresh_remote_registry_from_api(&mut api).unwrap();
    let names: Vec<&str> = model
        .servers()
        .iter()
        .map(|server| server.display_name.as_str())
        .collect();
    assert_eq!(names, vec!["local", "y", "renamed"]);
    let kept = model.server(&id).unwrap();
    assert_eq!(kept.connection_state, ConnectionState::Connected);
    assert_eq!(kept.summaries.workspaces.len(), 1);
    assert_eq!(
        model
            .server(&ServerId::secondary("remote-y"))
            .unwrap()
            .connection_state,
        ConnectionState::Connecting
    );
}

#[test]
fn picker_moves_round_and_accepts_its_selection() {
    let mut model = ClientSupervisorModel::new("local");
    let id = model.add_secondary(ssh_remote("remote-x", "x", "x"));
    model.open_new_workspace_picker();
    assert_eq!(model.new_workspace_picker().unwrap().selected, 0);
    model.move_new_workspace_picker_next();
    assert_eq!(model.new_workspace_picker().unwrap().selected, 1);
    assert_eq!(
        model.accept_new_workspace_picker(),
        NewWorkspaceRoute::CreateOn(id.clone())
    );
    assert_eq!(model.active_server_id(), &id);
    model.open_new_workspace_picker();
    model.close_new_workspace_picker();
    assert!(model.new_workspace_picker().is_none());
}

#[test]
fn unknown_servers_cannot_be_made_active() {
    let mut model = ClientSupervisorModel::new("local");
    let nobody = ServerId::secondary("nobody");
    assert_eq!(model.set_active_server(nobody.clone()), Err(()));
    assert_eq!(model.active_server_id(), &ServerId::main());
    assert_eq!(
        model.set_connection_state(&nobody, ConnectionState::Connected),
        Err(())
    );
    assert_eq!(model.set_summary(&nobody, ServerSummary::default()), Err(()));
    assert!(!model.remove_secondary(&nobody));
    assert!(!model.remove_secondary(&ServerId::main()));
    assert!(model.server(&nobody).is_none());
}

#[test]
fn streams_are_missing_until_they_are_listed() {
    let mut model = ClientSupervisorModel::new("local");
    let x = model.add_secondary(ssh_remote("remote-x", "x", "x"));
    let y = model.add_secondary(ssh_remote("remote-y", "y", "y"));
    model
        .set_connection_state(&y, ConnectionState::Connecting)
        .unwrap();
    assert_eq!(
        model.secondary_server_ids_missing_client_stream(&vec![]),
        vec![x.clone(), y.clone()]
    );
    assert_eq!(
        model.secondary_server_ids_missing_client_stream(&vec![x.clone()]),
        vec![y.clone()]
    );
    assert_eq!(model.unconnected_secondary_server_ids(), vec![y]);
    assert_eq!(
        model.server_connection_target(&x),
        Some(ServerConnectionTarget::Ssh("x".into()))
    );
}

#[test]
fn form_refuses_an_empty_target_and_takes_pastes() {
    let mut model = ClientSupervisorModel::new("local");
    model.open_add_remote_form();
    let key = |code| TerminalKey::new(code, KeyModifiers::none());
    assert_eq!(
        model.handle_add_remote_key(key(KeyCode::Enter)),
        AddRemoteFormOutcome::Redraw
    );
    assert!(model.add_remote_form().unwrap().error.is_some());
    model.append_add_remote_paste("host");
    assert_eq!(model.add_remote_form().unwrap().target, "host");
    model.handle_add_remote_key(key(KeyCode::Backspace));
    assert_eq!(model.add_remote_form().unwrap().target, "hos");
    model.set_add_remote_error("no route");
    assert_eq!(
        model.add_remote_form().unwrap().error.as_deref(),
        Some("no route")
    );
    assert!(!model.add_remote_in_progress());
    model.set_add_remote_in_progress(true);
    assert!(model.add_remote_in_progress());
    model.finish_add_remote();
    assert!(model.add_remote_form().is_none());
    model.open_add_remote_form();
    model.close_client_overlay();
    assert!(model.add_remote_form().is_none());
}

#[test]
fn menu_items_lead_to_their_actions() {
    let actions = [
        ClientGlobalMenuAction::Settings,
        ClientGlobalMenuAction::Keybinds,
        ClientGlobalMenuAction::ReloadConfig,
        ClientGlobalMenuAction::Detach,
        ClientGlobalMenuAction::AddRemote,
    ];
    for (index, action) in actions.into_iter().enumerate() {
        let mut model = ClientSupervisorModel::new("local");
        model.open_client_global_menu();
        assert_eq!(model.select_client_global_menu_item(index), Some(action));
    }
    let mut model = ClientSupervisorModel::new("local");
    assert_eq!(model.accept_client_global_menu_item(), None);
    model.open_client_global_menu();
    assert_eq!(model.select_client_global_menu_item(5), None);
    model.move_client_global_menu_prev();
    assert_eq!(model.client_global_menu_highlighted(), Some(0));
}

#[test]
fn agents_are_labelled_by_the_first_name_they_have() {
    let mut agent = agent_info("t", "w", "aider", AgentStatus::Blocked, false);
    assert_eq!(agent_label(&agent), "aider");
    agent.name = None;
    assert_eq!(agent_label(&agent), "t");
    agent.agent = Some("codex".into());
    assert_eq!(agent_label(&agent), "codex");
    assert_eq!(agent_status_label(AgentStatus::Blocked), "blocked");
    assert_eq!(agent_status_label(AgentStatus::Idle), "idle");
    assert_eq!(agent_status_label(AgentStatus::Working), "working");
    assert_eq!(agent_status_label(AgentStatus::Done), "done");
    assert_eq!(agent_status_label(AgentStatus::Unknown), "unknown");
}

#[test]
fn empty_requests_carry_no_parameters() {
    let request = Request {
        id: "x".into(),
        method: Method::AgentList(EmptyParams {}),
    };
    let mut api = FakeSupervisorApi::default();
    let reply = api.request(request).unwrap();
    assert_eq!(reply.id, "x");
    assert_eq!(reply.result, ResponseResult::AgentList { agents: vec![] });
}

#[test]
fn a_disabled_remote_is_left_alone() {
    let mut model = ClientSupervisorModel::new("local");
    let id = ServerId::secondary("remote-x");
    let remote = |disabled| {
        let mut definition = ssh_remote("remote-x", "x", "x");
        definition.disabled = disabled;
        definition
    };
    model.sync_remote_registry(vec![remote(false)]);
    model
        .set_connection_state(&id, ConnectionState::Connected)
        .unwrap();
    model.set_active_server(id.clone()).unwrap();

    model.sync_remote_registry(vec![remote(true)]);
    let server = model.server(&id).unwrap();
    assert!(server.disabled);
    assert_eq!(server.connection_state, ConnectionState::Disconnected);
    assert_eq!(model.active_server_id(), &ServerId::main());
    assert!(model.secondary_connection_plans().is_empty());
    assert!(model.unconnected_secondary_server_ids().is_empty());
    assert!(model
        .secondary_server_ids_missing_client_stream(&vec![])
        .is_empty());
    assert_eq!(model.connected_destinations().len(), 1);
    assert!(model.workspace_rows().iter().all(|row| row.disabled));
    // Nothing connects it while it is switched off.
    model
        .set_connection_state(&id, ConnectionState::Connected)
        .unwrap();
    model.apply_secondary_summary_results(vec![(id.clone(), Ok(ServerSummary::default()))]);
    assert_eq!(
        model.server(&id).unwrap().connection_state,
        ConnectionState::Disconnected
    );

    model.sync_remote_registry(vec![remote(false)]);
    assert_eq!(
        model.server(&id).unwrap().connection_state,
        ConnectionState::Connecting
    );
    assert_eq!(model.secondary_connection_plans().len(), 1);
}

#[test]
fn ssh_options_follow_the_registry() {
    let mut model = ClientSupervisorModel::new("local");
    let mut definition = ssh_remote("remote-x", "x", "x");
    definition.target = RemoteTargetSnapshot::parse("ssh -p 2222 -J jump x").unwrap();
    model.sync_remote_registry(vec![definition]);
    let id = ServerId::secondary("remote-x");
    assert_eq!(model.server_ssh_args(&id), vec!["-p", "2222", "-J", "jump"]);
    assert_eq!(
        model.server_connection_target(&id),
        Some(ServerConnectionTarget::Ssh("x".into()))
    );
    model.sync_remote_registry(vec![ssh_remote("remote-x", "x", "x")]);
    assert!(model.server_ssh_args(&id).is_empty());
    assert!(model.server_ssh_args(&ServerId::main()).is_empty());
}

#[test]
fn a_start_needs_remotes_and_summary_but_no_settings() {
    let remotes = || Ok(vec![ssh_remote("r1", "prod", "prod.example.com")]);
    let failed = |what: &str| -> String { format!("{what} failed") };
    let settings = UiSettingsInfo {
        sidebar_width: 31,
        ..UiSettingsInfo::default()
    };
    let model = bootstrap_from_results(
        "local",
        remotes(),
        Ok(ServerSummary::default()),
        Ok(settings),
    )
    .unwrap_or_else(|error| panic!("{error}"));
    assert_eq!(model.servers().len(), 2);
    assert_eq!(model.ui_settings().sidebar_width, 31);
    let model = bootstrap_from_results(
        "local",
        remotes(),
        Ok(ServerSummary::default()),
        Err(failed("settings")),
    )
    .unwrap_or_else(|error| panic!("{error}"));
    assert_eq!(*model.ui_settings(), UiSettingsInfo::default());
    assert_eq!(
        bootstrap_from_results("local", remotes(), Err(failed("summary")), Ok(settings)).err(),
        Some("summary failed".to_string())
    );
    assert_eq!(
        bootstrap_from_results(
            "local",
            Err(failed("remotes")),
            Err(failed("summary")),
            Err(failed("settings")),
        )
        .err(),
        Some("remotes failed".to_string())
    );
}
