use daneel::gateway::config::{
    DEFAULT_GATEWAY_PORT, DEFAULT_GATEWAY_URL, LoadedGatewayConfig, default_gateway_port,
    resolve_gateway_config,
};
use daneel::gateway::ws::connect_request;
use daneel::gateway::{
    AGENT_GRAPH_SNAPSHOT_ENDPOINT, AGENT_OVERVIEW_ENDPOINT, GATEWAY_STATUS_ENDPOINT,
    degraded_gateway_status, fetched_gateway_status, graph_snapshot_from_adapter_results,
    unconfigured_gateway_status,
};
use daneel::models::gateway::{GatewayLevel, GatewayStatusSnapshot};
use daneel::models::graph::{AgentEdge, AgentEdgeKind, AgentNode, AgentStatus};
use daneel::models::runtime::ActiveSessionRecord;

#[test]
fn stable_server_function_endpoints_are_explicit() {
    assert_eq!(GATEWAY_STATUS_ENDPOINT, "gateway/status");
    assert_eq!(AGENT_OVERVIEW_ENDPOINT, "agents/overview");
    assert_eq!(AGENT_GRAPH_SNAPSHOT_ENDPOINT, "graph/snapshot");
}

#[test]
fn graph_snapshot_endpoint_is_explicit() {
    assert_eq!(AGENT_GRAPH_SNAPSHOT_ENDPOINT, "graph/snapshot");
}

#[test]
fn connect_request_uses_backend_gateway_identity() {
    let request = connect_request("connect-test-1", "test-token", "0.1.0", "linux");

    let params = request.get("params").expect("params");
    let client = params.get("client").expect("client");
    let auth = params.get("auth").expect("auth");
    assert_eq!(request.get_string("method").as_deref(), Some("connect"));
    assert_eq!(client.get_string("id").as_deref(), Some("gateway-client"));
    assert_eq!(client.get_string("mode").as_deref(), Some("backend"));
    assert_eq!(auth.get_string("token").as_deref(), Some("test-token"));
}

#[test]
fn loaded_gateway_config_accepts_valid_values() {
    let config = LoadedGatewayConfig::new("test-token", "ws://127.0.0.1:18789/")
        .expect("accept valid gateway config");

    assert_eq!(config.token, "test-token");
    assert_eq!(config.ws_url, "ws://127.0.0.1:18789/");
}

#[test]
fn loaded_gateway_config_rejects_empty_token() {
    let error = LoadedGatewayConfig::new("   ", "ws://127.0.0.1:18789/")
        .expect_err("reject empty token");

    assert!(error.contains("No gateway auth token"));
}

#[test]
fn loaded_gateway_config_rejects_empty_ws_url() {
    let error =
        LoadedGatewayConfig::new("test-token", "   ").expect_err("reject empty websocket url");

    assert!(error.contains("No gateway websocket URL"));
}

#[test]
fn gateway_config_from_file_values_uses_the_loopback_url() {
    let config = resolve_gateway_config("test-token", 19000, "/tmp/x/openclaw.json")
        .expect("load gateway config from env override");

    assert_eq!(config.token, "test-token");
    assert_eq!(config.ws_url, "ws://127.0.0.1:19000/");
}

#[test]
fn gateway_config_reports_a_missing_token_with_the_file_path() {
    let error = resolve_gateway_config("", 19000, "/tmp/x/openclaw.json")
        .expect_err("reject empty token from config file");

    assert!(error.contains("No gateway auth token was found"));
    assert!(error.contains("openclaw.json"));
}

#[test]
fn default_port_and_url_agree() {
    assert_eq!(default_gateway_port(), DEFAULT_GATEWAY_PORT);
    assert_eq!(DEFAULT_GATEWAY_PORT, 18_789);
    assert_eq!(DEFAULT_GATEWAY_URL, "ws://127.0.0.1:18789");
}

#[test]
fn degraded_statuses_carry_their_url_and_detail() {
    let status = degraded_gateway_status("ws://x/".to_string(), "Down", "why".to_string());
    assert!(!status.connected);
    assert_eq!(status.level, GatewayLevel::Degraded);
    assert_eq!(status.summary, "Down");
    assert_eq!(status.detail, "why");
    assert_eq!(status.gateway_url, "ws://x/");
    assert_eq!(status.protocol_version, None);

    let unconfigured = unconfigured_gateway_status("HOME is not set.".to_string());
    assert_eq!(unconfigured.summary, "Gateway configuration unavailable");
    assert_eq!(unconfigured.gateway_url, "ws://127.0.0.1:18789");
    assert_eq!(unconfigured.detail, "HOME is not set.");
}

#[test]
fn fetched_status_passes_a_snapshot_through_and_degrades_a_failure() {
    let config = LoadedGatewayConfig::new("t", "ws://127.0.0.1:18789/").expect("config");
    let healthy = GatewayStatusSnapshot {
        connected: true,
        level: GatewayLevel::Healthy,
        summary: "ok".to_string(),
        detail: "d".to_string(),
        gateway_url: "ws://127.0.0.1:18789/".to_string(),
        protocol_version: Some(3),
        state_version: Some(1),
        uptime_ms: Some(5),
    };
    assert_eq!(fetched_gateway_status(&config, Ok(healthy.clone())), healthy);

    let failed = fetched_gateway_status(&config, Err("refused".to_string()));
    assert_eq!(failed.summary, "Gateway connection failed");
    assert_eq!(failed.detail, "refused");
    assert_eq!(failed.gateway_url, "ws://127.0.0.1:18789/");
    assert!(!failed.connected);
}

fn node(id: &str, status: AgentStatus) -> AgentNode {
    AgentNode {
        id: id.to_string(),
        name: id.to_string(),
        is_default: false,
        heartbeat_enabled: false,
        heartbeat_schedule: String::new(),
        active_session_count: 0,
        latest_activity_age_ms: None,
        status,
    }
}

fn link(source_id: &str, target_id: &str, kind: AgentEdgeKind) -> AgentEdge {
    AgentEdge {
        source_id: source_id.to_string(),
        target_id: target_id.to_string(),
        kind,
    }
}

#[test]
fn graph_snapshot_loader_returns_full_snapshot_from_mock_adapter_data() {
    let snapshot = graph_snapshot_from_adapter_results(
        Ok(vec![node("planner", AgentStatus::Idle), node("calendar", AgentStatus::Unknown)]),
        Ok(vec![link("planner", "calendar", AgentEdgeKind::RoutesTo)]),
        Ok(vec![ActiveSessionRecord {
            session_id: "session-1".to_string(),
            agent_id: "planner".to_string(),
            task: Some("work".to_string()),
            age_ms: Some(250),
        }]),
        Ok(vec![link("planner", "calendar", AgentEdgeKind::WorksWithHint)]),
        42,
    )
    .expect("load graph snapshot");

    assert_eq!(snapshot.snapshot_ts, 42);
    assert_eq!(
        snapshot.nodes.iter().map(|n| n.id.as_str()).collect::<Vec<_>>(),
        vec!["calendar", "planner"]
    );
    assert_eq!(snapshot.edges, vec![link("planner", "calendar", AgentEdgeKind::RoutesTo)]);
    assert_eq!(snapshot.nodes[1].status, AgentStatus::Active);
}

#[test]
fn graph_snapshot_loader_returns_valid_empty_snapshot_when_adapter_data_is_empty() {
    let snapshot = graph_snapshot_from_adapter_results(Ok(Vec::new()), Ok(Vec::new()), Ok(Vec::new()), Ok(Vec::new()), 99)
        .expect("load empty graph snapshot");

    assert_eq!(snapshot.snapshot_ts, 99);
    assert!(snapshot.nodes.is_empty());
    assert!(snapshot.edges.is_empty());
}

#[test]
fn graph_snapshot_loader_succeeds_when_relationship_hints_are_unavailable() {
    let snapshot = graph_snapshot_from_adapter_results(
        Ok(vec![node("planner", AgentStatus::Idle)]),
        Ok(Vec::new()),
        Ok(Vec::new()),
        Err("metadata unavailable".to_string()),
        7,
    );

    assert!(snapshot.is_ok());
}

#[test]
fn graph_snapshot_loader_reports_the_first_adapter_failure() {
    let error = graph_snapshot_from_adapter_results(
        Ok(vec![node("planner", AgentStatus::Idle)]),
        Err("bindings failed".to_string()),
        Err("sessions failed".to_string()),
        Ok(Vec::new()),
        7,
    )
    .expect_err("bindings error");
    assert_eq!(error, "bindings failed");

    let error = graph_snapshot_from_adapter_results(
        Err("agents failed".to_string()),
        Err("bindings failed".to_string()),
        Ok(Vec::new()),
        Ok(Vec::new()),
        7,
    )
    .expect_err("agents error");
    assert_eq!(error, "agents failed");
}

fn aged_agent(id: &str, latest_activity_age_ms: Option<u64>, status: AgentStatus) -> AgentNode {
    AgentNode {
        id: id.to_string(),
        name: id.to_string(),
        is_default: id == "main",
        heartbeat_enabled: true,
        heartbeat_schedule: "every 5m".to_string(),
        active_session_count: 0,
        latest_activity_age_ms,
        status,
    }
}

#[test]
fn graph_assembly_against_a_mock_adapter_combines_inputs_into_one_stable_snapshot() {
    let snapshot = graph_snapshot_from_adapter_results(
        Ok(vec![
            aged_agent("planner", Some(10_000), AgentStatus::Idle),
            aged_agent("coder", None, AgentStatus::Unknown),
            aged_agent("calendar", Some(60_000), AgentStatus::Idle),
        ]),
        Ok(vec![link("planner", "coder", AgentEdgeKind::GatewayRouting)]),
        Ok(vec![ActiveSessionRecord {
            session_id: "session-1".to_string(),
            agent_id: "planner".to_string(),
            task: Some("work".to_string()),
            age_ms: Some(250),
        }]),
        Ok(vec![
            link("planner", "coder", AgentEdgeKind::MetadataHint),
            link("planner", "calendar", AgentEdgeKind::MetadataHint),
        ]),
        18,
    )
    .expect("assemble graph snapshot from adapter");

    assert_eq!(snapshot.snapshot_ts, 18);
    assert_eq!(
        snapshot.nodes.iter().map(|node| node.id.as_str()).collect::<Vec<_>>(),
        vec!["calendar", "coder", "planner"]
    );
    assert_eq!(snapshot.nodes[2].status, AgentStatus::Active);
    assert_eq!(
        snapshot.edges,
        vec![
            link("planner", "calendar", AgentEdgeKind::MetadataHint),
            link("planner", "coder", AgentEdgeKind::GatewayRouting),
        ]
    );
}
