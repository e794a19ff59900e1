use daneel::components::agent_node_card::{
    MAX_LABEL_CHARS, activity_label, card_aria_label, heartbeat_label, node_fill, node_monogram, node_signal,
    node_stroke, status_attribute, status_glow, status_label, truncated_graph_label,
};
use daneel::components::graph_canvas::{graph_layout_grid, resolve_edge_nodes};
use daneel::components::layout::main_content_class;
use daneel::components::live_gateway::{LiveGatewayState, connecting_event, disconnected_event, live_stream_enabled};
use daneel::components::navbar::status_pill;
use daneel::models::graph::{AgentEdgeKind, AgentNode, AgentStatus};
use daneel::models::live_gateway::{
    BackendConnectionState, LiveGatewayEvent, LiveGatewayLevel, OperatorConnectionState,
    resolve_operator_connection_state,
};
use daneel::pages::agents::{
    AGENT_TILE_ACTIVE_CLASS, AGENT_TILE_IDLE_CLASS, HEART_DISABLED_CLASS, HEART_ENABLED_CLASS,
    RECENT_BADGE_ACTIVE_CLASS, RECENT_BADGE_IDLE_CLASS, STATUS_DOT_ACTIVE_CLASS, STATUS_DOT_IDLE_CLASS,
    agent_tile_class, displayed_age_ms, heartbeat_icon_class, is_agent_active, recent_activity_badge,
    recent_activity_badge_class, status_dot_class,
};
use daneel::pages::dashboard::{
    GATEWAY_BADGE_DEGRADED_CLASS, GATEWAY_BADGE_HEALTHY_CLASS, gateway_badge_class, gateway_level_label,
    gateway_status_lines,
};
use daneel::models::gateway::{GatewayLevel, GatewayStatusSnapshot};
use daneel::router::Route;
use daneel::utils::time::{ACTIVE_WINDOW_MS, format_age_badge};

#[test]
fn disconnected_backend_overrides_gateway_health() {
    let state = resolve_operator_connection_state(
        BackendConnectionState::Disconnected,
        Some(LiveGatewayLevel::Healthy),
    );

    assert_eq!(state, OperatorConnectionState::Disconnected);
}

#[test]
fn connected_backend_with_degraded_gateway_stays_degraded() {
    let state = resolve_operator_connection_state(
        BackendConnectionState::Connected,
        Some(LiveGatewayLevel::Degraded),
    );

    assert_eq!(state, OperatorConnectionState::Degraded);
}

#[test]
fn connecting_backend_without_gateway_state_is_connecting() {
    let state = resolve_operator_connection_state(BackendConnectionState::Connecting, None);

    assert_eq!(state, OperatorConnectionState::Connecting);
}

#[test]
fn frozen_layout_uses_subdued_class() {
    let class = main_content_class(true);

    assert!(class.contains("opacity-75"));
    assert!(class.contains("grayscale"));
}

#[test]
fn live_layout_keeps_normal_class() {
    let class = main_content_class(false);

    assert!(!class.contains("opacity-75"));
    assert!(!class.contains("grayscale"));
}

#[test]
fn disconnected_pill_uses_disconnected_label() {
    let pill = status_pill(OperatorConnectionState::Disconnected);

    assert_eq!(pill.label, "Disconnected");
}

#[test]
fn healthy_pill_uses_connected_label() {
    let pill = status_pill(OperatorConnectionState::Connected);

    assert_eq!(pill.label, "Connected");
}

#[test]
fn connecting_pill_uses_connecting_animation_class() {
    let pill = status_pill(OperatorConnectionState::Connecting);

    assert!(pill.class.contains("status-pill--connecting"));
}

#[test]
fn connected_pill_keeps_surface_chip_spacing() {
    let pill = status_pill(OperatorConnectionState::Connected);

    assert!(pill.class.contains("rounded-full"));
    assert!(pill.class.contains("gap-3"));
}

#[test]
fn is_agent_active_below_threshold() {
    assert!(is_agent_active(Some(599_999)));
}

#[test]
fn is_agent_active_at_threshold() {
    assert!(!is_agent_active(Some(600_000)));
}

#[test]
fn is_agent_active_none_age() {
    assert!(!is_agent_active(None));
}

#[test]
fn format_age_badge_boundary_values() {
    assert_eq!(format_age_badge(60_000), "1m ago");
    assert_eq!(format_age_badge(3_600_000), "1h ago");
}

#[test]
fn displayed_age_logic_adds_elapsed() {
    let server_age = 300_000;
    let elapsed = 150_000;
    assert_eq!(server_age + elapsed, 450_000);
}

#[test]
fn elapsed_can_push_past_threshold() {
    let server_age = 599_000;
    let elapsed = 2_000;
    assert!(server_age + elapsed > ACTIVE_WINDOW_MS);
}

#[test]
fn styling_class_selection() {
    assert_eq!(AGENT_TILE_ACTIVE_CLASS, AGENT_TILE_ACTIVE_CLASS);
    assert_eq!(AGENT_TILE_IDLE_CLASS, AGENT_TILE_IDLE_CLASS);
    assert_eq!(STATUS_DOT_ACTIVE_CLASS, STATUS_DOT_ACTIVE_CLASS);
    assert_eq!(STATUS_DOT_IDLE_CLASS, STATUS_DOT_IDLE_CLASS);
    assert_eq!(HEART_ENABLED_CLASS, HEART_ENABLED_CLASS);
    assert_eq!(RECENT_BADGE_ACTIVE_CLASS, RECENT_BADGE_ACTIVE_CLASS);
    assert_eq!(RECENT_BADGE_IDLE_CLASS, RECENT_BADGE_IDLE_CLASS);
}

#[test]
fn glow_flips_when_elapsed_crosses_threshold() {
    let server_age = Some(599_000);
    let initial_active = is_agent_active(server_age);

    let elapsed = 2_000;
    let displayed_age = server_age.map(|age| age + elapsed);
    let final_active = is_agent_active(displayed_age);

    assert!(initial_active);
    assert!(!final_active);
}

#[test]
fn disabled_heartbeat_uses_disabled_heart_class() {
    assert_eq!(heartbeat_icon_class(false), HEART_DISABLED_CLASS);
    assert_eq!(heartbeat_icon_class(true), HEART_ENABLED_CLASS);
}

fn card_node(id: &str, name: &str, status: AgentStatus) -> AgentNode {
    AgentNode {
        id: id.to_string(),
        name: name.to_string(),
        is_default: id == "main",
        heartbeat_enabled: true,
        heartbeat_schedule: "every 5m".to_string(),
        active_session_count: if status == AgentStatus::Active { 1 } else { 0 },
        latest_activity_age_ms: Some(90_000),
        status,
    }
}

#[test]
fn card_colours_follow_the_status() {
    assert_eq!(node_fill(&AgentStatus::Active), "rgba(6, 78, 59, 0.82)");
    assert_eq!(node_fill(&AgentStatus::Idle), "rgba(15, 23, 42, 0.96)");
    assert_eq!(node_stroke(&AgentStatus::Unknown), "rgba(251, 191, 36, 0.34)");
    assert_eq!(node_signal(&AgentStatus::Active), "#6ee7b7");
    assert_eq!(status_glow(&AgentStatus::Idle), "rgba(148, 163, 184, 0.14)");
    assert_eq!(status_label(&AgentStatus::Unknown), "UNKNOWN");
}

#[test]
fn long_agent_names_and_missing_activity_render_gracefully() {
    let mut node = card_node("ops", "this-agent-name-is-way-too-long-for-the-first-slice", AgentStatus::Unknown);
    node.latest_activity_age_ms = None;

    assert_eq!(truncated_graph_label(&node.name), "this-agent-name-i…");
    assert_eq!(activity_label(&node), "No recent activity");
}

#[test]
fn short_names_stay_whole_on_the_card() {
    let name = "a".repeat(MAX_LABEL_CHARS);
    assert_eq!(truncated_graph_label(&name), name);
    assert_eq!(truncated_graph_label("planner"), "planner");
}

#[test]
fn activity_label_picks_the_unit() {
    let mut node = card_node("main", "main", AgentStatus::Active);
    assert_eq!(activity_label(&node), "1m ago");
    node.latest_activity_age_ms = Some(59_999);
    assert_eq!(activity_label(&node), "59s ago");
    node.latest_activity_age_ms = Some(7_200_000);
    assert_eq!(activity_label(&node), "2h ago");
    node.latest_activity_age_ms = Some(86_400_000 * 3);
    assert_eq!(activity_label(&node), "72h ago");
}

#[test]
fn heartbeat_label_upper_cases_the_schedule() {
    let mut node = card_node("main", "main", AgentStatus::Active);
    assert_eq!(heartbeat_label(&node), "HEARTBEAT EVERY 5M");
    node.heartbeat_enabled = false;
    assert_eq!(heartbeat_label(&node), "HEARTBEAT OFF");
}

#[test]
fn monogram_takes_two_ascii_letters_or_digits() {
    assert_eq!(node_monogram("planner"), "PL");
    assert_eq!(node_monogram("-x-9"), "X9");
    assert_eq!(node_monogram("é"), "AG");
    assert_eq!(node_monogram("q"), "Q");
}

#[test]
fn layout_grid_matches_the_card_count() {
    assert_eq!(graph_layout_grid(0), (1, 1));
    assert_eq!(graph_layout_grid(2), (2, 1));
    assert_eq!(graph_layout_grid(3), (3, 1));
    assert_eq!(graph_layout_grid(7), (3, 3));
    assert_eq!(graph_layout_grid(10), (4, 3));
}

#[test]
fn edges_resolve_to_the_cards_they_join() {
    let nodes = vec![
        card_node("planner", "planner", AgentStatus::Idle),
        card_node("coder", "coder", AgentStatus::Idle),
    ];
    assert_eq!(resolve_edge_nodes(&nodes, "coder", "planner"), Some((1, 0)));
    assert_eq!(resolve_edge_nodes(&nodes, "coder", "ghost"), None);
}

#[test]
fn live_state_is_frozen_only_while_disconnected() {
    let state = LiveGatewayState {
        live_status: Some(LiveGatewayEvent {
            level: LiveGatewayLevel::Healthy,
            summary: "ok".to_string(),
            detail: "d".to_string(),
        }),
        backend_state: BackendConnectionState::Connected,
    };
    assert_eq!(state.operator_state(), OperatorConnectionState::Connected);
    assert!(!state.is_frozen());

    let frozen = LiveGatewayState { live_status: None, backend_state: BackendConnectionState::Disconnected };
    assert_eq!(frozen.operator_state(), OperatorConnectionState::Disconnected);
    assert!(frozen.is_frozen());
}

#[test]
fn routes_have_navigation_labels() {
    assert_eq!(Route::Dashboard {}.label(), "Dashboard");
    assert_eq!(Route::Agents {}.label(), "Agents");
    assert_eq!(Route::Settings {}.label(), "Settings");
    assert_eq!(Route::NotFound { segments: vec!["x".to_string()] }.label(), "Not Found");
}

#[test]
fn stream_callbacks_move_the_live_state() {
    let mut state = LiveGatewayState { live_status: None, backend_state: BackendConnectionState::Connecting };
    state.on_stream_open();
    assert_eq!(state.backend_state, BackendConnectionState::Connected);
    assert_eq!(state.live_status, Some(connecting_event()));
    assert_eq!(state.operator_state(), OperatorConnectionState::Connecting);

    let healthy = LiveGatewayEvent::health_update("healthy");
    state.on_stream_message(healthy.clone());
    assert_eq!(state.live_status, Some(healthy.clone()));
    state.on_stream_open();
    assert_eq!(state.live_status, Some(healthy));

    state.on_stream_error();
    assert!(state.is_frozen());
    assert_eq!(state.live_status, Some(disconnected_event()));
    assert_eq!(state.operator_state(), OperatorConnectionState::Disconnected);
    state.on_stream_open();
    assert_eq!(state.live_status, Some(connecting_event()));
    assert!(!state.is_frozen());
}

#[test]
fn live_stream_can_be_disabled_from_the_query_string() {
    assert!(live_stream_enabled(None));
    assert!(live_stream_enabled(Some("?tab=graph")));
    assert!(!live_stream_enabled(Some("?x=1&e2e-disable-live=1")));
}


#[test]
fn card_carries_its_status_attribute_and_accessible_label() {
    let main = AgentNode {
        id: "main".to_string(),
        name: "main".to_string(),
        is_default: true,
        heartbeat_enabled: true,
        heartbeat_schedule: "every 5m".to_string(),
        active_session_count: 1,
        latest_activity_age_ms: Some(45_000),
        status: AgentStatus::Active,
    };
    assert_eq!(status_attribute(&AgentStatus::Active), "active");
    assert_eq!(status_attribute(&AgentStatus::Idle), "idle");
    assert_eq!(status_attribute(&AgentStatus::Unknown), "unknown");
    assert_eq!(card_aria_label(&main), "main agent card, status active");
}

#[test]
fn agent_card_badge_follows_the_displayed_age() {
    assert_eq!(displayed_age_ms(Some(45_000), 2_000), Some(47_000));
    assert_eq!(displayed_age_ms(None, 2_000), None);
    assert_eq!(recent_activity_badge(Some(47_000)), "47s ago");
    assert_eq!(recent_activity_badge(Some(3 * 3_600_000)), "3h ago");
    assert_eq!(recent_activity_badge(None), "No activity");
    assert_eq!(recent_activity_badge_class(true), RECENT_BADGE_ACTIVE_CLASS);
    assert_eq!(recent_activity_badge_class(false), RECENT_BADGE_IDLE_CLASS);
    assert_eq!(agent_tile_class(true), AGENT_TILE_ACTIVE_CLASS);
    assert_eq!(agent_tile_class(false), AGENT_TILE_IDLE_CLASS);
    assert_eq!(status_dot_class(true), STATUS_DOT_ACTIVE_CLASS);
    assert_eq!(status_dot_class(false), STATUS_DOT_IDLE_CLASS);
}

#[test]
fn gateway_status_card_lists_only_the_reported_versions() {
    let full = GatewayStatusSnapshot {
        connected: true,
        level: GatewayLevel::Healthy,
        summary: "Gateway connected".to_string(),
        detail: "ok".to_string(),
        gateway_url: "ws://127.0.0.1:18789/".to_string(),
        protocol_version: Some(3),
        state_version: Some(42),
        uptime_ms: Some(123_456),
    };
    assert_eq!(
        gateway_status_lines(&full),
        vec![
            "Gateway URL: ws://127.0.0.1:18789/".to_string(),
            "Protocol: v3".to_string(),
            "State version: 42".to_string(),
            "Uptime: 123456 ms".to_string(),
        ]
    );
    let bare = GatewayStatusSnapshot { protocol_version: None, state_version: None, uptime_ms: None, ..full.clone() };
    assert_eq!(gateway_status_lines(&bare), vec!["Gateway URL: ws://127.0.0.1:18789/".to_string()]);
    assert_eq!(gateway_badge_class(GatewayLevel::Healthy), GATEWAY_BADGE_HEALTHY_CLASS);
    assert_eq!(gateway_badge_class(GatewayLevel::Degraded), GATEWAY_BADGE_DEGRADED_CLASS);
    assert_eq!(gateway_level_label(GatewayLevel::Healthy), "Healthy");
    assert_eq!(gateway_level_label(GatewayLevel::Degraded), "Degraded");
}


#[test]
fn edges_are_drawn_by_kind() {
    assert_eq!(AgentEdgeKind::RoutesTo.css_name(), "routes_to");
    assert_eq!(AgentEdgeKind::RoutesTo.stroke(), "#67e8f9");
    assert_eq!(AgentEdgeKind::RoutesTo.stroke_width(), "3");
    assert_eq!(AgentEdgeKind::RoutesTo.stroke_dasharray(), "0");
    assert_eq!(AgentEdgeKind::WorksWithHint.css_name(), "works_with_hint");
    assert_eq!(AgentEdgeKind::WorksWithHint.stroke(), "#c084fc");
    assert_eq!(AgentEdgeKind::WorksWithHint.stroke_width(), "2.5");
    assert_eq!(AgentEdgeKind::WorksWithHint.stroke_dasharray(), "7 9");
    assert_eq!(AgentEdgeKind::DelegatesToHint.css_name(), "delegates_to_hint");
    assert_eq!(AgentEdgeKind::DelegatesToHint.stroke(), "#f59e0b");
    assert_eq!(AgentEdgeKind::DelegatesToHint.stroke_width(), "2.5");
    assert_eq!(AgentEdgeKind::DelegatesToHint.stroke_dasharray(), "10 7");
    assert_eq!(AgentEdgeKind::GatewayRouting.css_name(), "routes_to");
    assert_eq!(AgentEdgeKind::MetadataHint.stroke_dasharray(), "7 9");
}
