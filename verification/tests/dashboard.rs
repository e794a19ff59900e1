use daneel::graph_service::GraphAssemblySummary;
use daneel::models::gateway::{GatewayLevel, GatewayStatusSnapshot};
use daneel::models::graph::{AgentEdge, AgentEdgeKind, AgentGraphSnapshot, AgentNode, AgentStatus};
use daneel::models::live_gateway::OperatorConnectionState;
use daneel::pages::dashboard::{
    GraphSnapshotView, build_summary_cards, gateway_summary_card, graph_snapshot_view, graph_summary_model,
};

fn graph_node(id: &str, status: AgentStatus) -> AgentNode {
    AgentNode {
        id: id.to_string(),
        name: id.to_string(),
        is_default: id == "main",
        heartbeat_enabled: true,
        heartbeat_schedule: "every 5m".to_string(),
        active_session_count: if status == AgentStatus::Active { 1 } else { 0 },
        latest_activity_age_ms: Some(1_000),
        status,
    }
}

fn fixture_snapshot() -> AgentGraphSnapshot {
    AgentGraphSnapshot {
        nodes: vec![graph_node("main", AgentStatus::Active), graph_node("planner", AgentStatus::Idle)],
        edges: vec![AgentEdge {
            source_id: "main".to_string(),
            target_id: "planner".to_string(),
            kind: AgentEdgeKind::GatewayRouting,
        }],
        snapshot_ts: 1,
    }
}

fn status(level: GatewayLevel, summary: &str) -> GatewayStatusSnapshot {
    GatewayStatusSnapshot {
        connected: level == GatewayLevel::Healthy,
        level,
        summary: summary.to_string(),
        detail: "detail".to_string(),
        gateway_url: "ws://127.0.0.1:18789/".to_string(),
        protocol_version: Some(3),
        state_version: Some(1),
        uptime_ms: Some(10),
    }
}

#[test]
fn summary_cards_count_the_current_snapshot() {
    let snapshot: Result<AgentGraphSnapshot, String> = Ok(fixture_snapshot());
    let gateway: Result<GatewayStatusSnapshot, String> = Ok(status(GatewayLevel::Healthy, "All good"));
    let cards = build_summary_cards(OperatorConnectionState::Connected, Some(&gateway), Some(&snapshot), None, None);

    assert_eq!(cards.len(), 4);
    assert_eq!(cards[0].value, "Healthy");
    assert_eq!(cards[0].detail, "All good");
    assert_eq!(cards[1].title, "Agents");
    assert_eq!(cards[1].value, "2");
    assert_eq!(cards[2].value, "1");
    assert_eq!(cards[3].value, "1");
    assert!(cards.iter().all(|card| !card.stale));
}

#[test]
fn degraded_gateway_card_uses_the_amber_accent() {
    let gateway: Result<GatewayStatusSnapshot, String> = Ok(status(GatewayLevel::Degraded, "Gateway connection failed"));
    let card = gateway_summary_card(OperatorConnectionState::Degraded, Some(&gateway), None);

    assert_eq!(card.value, "Degraded");
    assert_eq!(card.accent_class, "text-amber-300");
    assert_eq!(card.detail, "Gateway connection failed");
}

#[test]
fn gateway_lookup_failure_and_loading_cards() {
    let failed: Result<GatewayStatusSnapshot, String> = Err("timeout".to_string());
    let card = gateway_summary_card(OperatorConnectionState::Connected, Some(&failed), None);
    assert_eq!(card.value, "Unavailable");
    assert_eq!(card.detail, "Gateway lookup failed: timeout");

    let loading = gateway_summary_card(OperatorConnectionState::Connecting, None, None);
    assert_eq!(loading.value, "Loading");
    assert_eq!(loading.accent_class, "text-slate-200");
}

#[test]
fn empty_snapshot_gives_the_fresh_empty_view() {
    let empty: Result<AgentGraphSnapshot, String> =
        Ok(AgentGraphSnapshot { nodes: Vec::new(), edges: Vec::new(), snapshot_ts: 5 });
    let view = graph_snapshot_view(OperatorConnectionState::Connected, Some(&empty), None);
    assert!(matches!(view, GraphSnapshotView::Empty { stale: false }));
}

#[test]
fn loading_and_error_graph_views() {
    assert!(matches!(
        graph_snapshot_view(OperatorConnectionState::Connecting, None, None),
        GraphSnapshotView::Loading
    ));
    let failed: Result<AgentGraphSnapshot, String> = Err("boom".to_string());
    match graph_snapshot_view(OperatorConnectionState::Connected, Some(&failed), None) {
        GraphSnapshotView::Error(text) => assert_eq!(text, "boom"),
        _ => panic!("expected the error view"),
    }
}

#[test]
fn disconnected_view_shows_the_cached_snapshot_as_stale() {
    let cached = fixture_snapshot();
    match graph_snapshot_view(OperatorConnectionState::Disconnected, None, Some(&cached)) {
        GraphSnapshotView::Ready { snapshot, stale } => {
            assert!(stale);
            assert_eq!(snapshot, cached);
        },
        _ => panic!("expected the cached snapshot"),
    }
}

#[test]
fn disconnected_view_without_cache_is_paused() {
    assert!(matches!(
        graph_snapshot_view(OperatorConnectionState::Disconnected, None, None),
        GraphSnapshotView::Disconnected
    ));
}

#[test]
fn disconnected_cards_keep_cached_counts_and_status() {
    let cached_status = status(GatewayLevel::Healthy, "Gateway healthy.");
    let cached_graph = fixture_snapshot();
    let cards = build_summary_cards(
        OperatorConnectionState::Disconnected,
        None,
        None,
        Some(&cached_status),
        Some(&cached_graph),
    );

    assert_eq!(cards[0].value, "Healthy");
    assert!(cards[0].stale);
    assert_eq!(
        cards[0].detail,
        "Last known gateway status: Gateway healthy. Daneel is retrying the backend connection."
    );
    assert_eq!(cards[1].value, "2");
    assert!(cards[1].stale);
}

#[test]
fn disconnected_gateway_card_waits_for_the_backend() {
    let disconnected = gateway_summary_card(OperatorConnectionState::Disconnected, None, None);
    assert_eq!(disconnected.value, "Disconnected");
    assert_eq!(disconnected.accent_class, "text-rose-200");
    assert!(!disconnected.stale);
}

#[test]
fn summary_counts_fall_back_to_zero_without_a_snapshot() {
    let failed: Result<AgentGraphSnapshot, String> = Err("x".to_string());
    let summary: GraphAssemblySummary = graph_summary_model(OperatorConnectionState::Connected, Some(&failed), None);
    assert_eq!(summary, GraphAssemblySummary { agent_count: 0, active_agent_count: 0, edge_count: 0 });
}
