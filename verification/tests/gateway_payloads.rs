use daneel::gateway::agents::{
    map_agent_identity, map_agent_overview_item, map_agent_overview_snapshot, map_heartbeat, map_session_recency,
    overview_reference_time, session_store_paths,
};
use daneel::gateway::config::LoadedGatewayConfig;
use daneel::gateway::session_store::count_active_sessions;
use daneel::gateway::status::{HealthState, health_status_from_payload, map_gateway_status_snapshot};
use daneel::gateway::ws::{Envelope, ResponseStep, classify_response, empty_object, request_frame};
use daneel::json::{JsonNumber, JsonValue, lookup_entry};
use daneel::models::gateway::GatewayLevel;
use daneel::parse::{find_string, find_u64, require_array, require_object};

fn s(value: &str) -> JsonValue {
    JsonValue::Str(value.to_string())
}

fn u(value: u64) -> JsonValue {
    JsonValue::Number(JsonNumber::UInt(value))
}

fn arr(items: Vec<JsonValue>) -> JsonValue {
    JsonValue::Array(items)
}

fn obj(members: Vec<(&str, JsonValue)>) -> JsonValue {
    JsonValue::Object(members.into_iter().map(|(key, value)| (key.to_string(), value)).collect())
}

fn envelope(kind: &str, id: Option<&str>, ok: Option<bool>, payload: Option<JsonValue>, error: Option<JsonValue>) -> Envelope {
    Envelope { kind: kind.to_string(), id: id.map(ToOwned::to_owned), ok, payload, error }
}

#[test]
fn status_snapshot_reads_versions_and_health() {
    let config = LoadedGatewayConfig::new("tok", "ws://127.0.0.1:18789/").expect("config");
    let connect = envelope(
        "res",
        Some("connect-1"),
        Some(true),
        Some(obj(vec![("protocolVersion", u(3)), ("stateVersion", u(40)), ("uptimeMs", u(1000))])),
        None,
    );
    let health = envelope("res", Some("health-1"), Some(true), Some(obj(vec![("status", s("Healthy")), ("stateVersion", u(42))])), None);

    let snapshot = map_gateway_status_snapshot(&config, &connect, &health);

    assert!(snapshot.connected);
    assert_eq!(snapshot.level, GatewayLevel::Healthy);
    assert_eq!(snapshot.summary, "Connected to the OpenClaw Gateway over WebSocket (Healthy).");
    assert_eq!(
        snapshot.detail,
        "Gateway status was fetched through the documented loopback WS connection at ws://127.0.0.1:18789/."
    );
    assert_eq!(snapshot.protocol_version, Some(3));
    assert_eq!(snapshot.state_version, Some(42));
    assert_eq!(snapshot.uptime_ms, Some(1000));
}

#[test]
fn status_without_a_health_label_counts_as_healthy() {
    let status = health_status_from_payload(None);
    assert_eq!(status.label, "healthy");
    assert_eq!(status.level(), GatewayLevel::Healthy);

    let nested = obj(vec![("gateway", obj(vec![("state", s("degraded"))]))]);
    let status = health_status_from_payload(Some(&nested));
    assert_eq!(status.label, "degraded");
    assert_eq!(status.level(), GatewayLevel::Degraded);
    assert_eq!(HealthState::from_label("HEALTHY"), HealthState::Healthy);
}

#[test]
fn responses_are_classified_by_id_and_outcome() {
    let other = envelope("event", None, None, None, None);
    assert_eq!(classify_response(&other, "connect-1"), ResponseStep::Skip);
    let wrong_id = envelope("res", Some("health-1"), Some(true), None, None);
    assert_eq!(classify_response(&wrong_id, "connect-1"), ResponseStep::Skip);
    let done = envelope("res", Some("connect-1"), Some(true), None, None);
    assert_eq!(classify_response(&done, "connect-1"), ResponseStep::Done);
    let failed = envelope("res", Some("connect-1"), Some(false), None, Some(obj(vec![("code", s("UNAUTHORIZED"))])));
    assert_eq!(
        classify_response(&failed, "connect-1"),
        ResponseStep::Failed("Gateway request connect-1 failed: UNAUTHORIZED".to_string())
    );
    let unknown = envelope("res", Some("connect-1"), None, None, None);
    assert_eq!(
        classify_response(&unknown, "connect-1"),
        ResponseStep::Failed("Gateway request connect-1 failed: Unknown gateway error".to_string())
    );
}

#[test]
fn request_frames_carry_id_method_and_params() {
    let frame = request_frame("health-1", "health", empty_object());
    assert_eq!(frame, obj(vec![("type", s("req")), ("id", s("health-1")), ("method", s("health")), ("params", obj(vec![]))]));
}

#[test]
fn searches_go_depth_first_through_objects_and_arrays() {
    let value = obj(vec![
        ("a", arr(vec![obj(vec![("message", s("deep"))])])),
        ("count", s("not a number")),
        ("b", obj(vec![("count", u(7))])),
    ]);
    assert_eq!(find_string(&value, &["message"]).as_deref(), Some("deep"));
    assert_eq!(find_u64(&value, &["count"]), Some(7));
    assert_eq!(find_string(&value, &["missing"]), None);
}

#[test]
fn required_members_report_their_context() {
    let value = obj(vec![("health", obj(vec![("agents", arr(vec![u(1)]))])), ("list", u(2))]);
    let health = require_object(&value, "health", "Gateway snapshot").expect("health");
    assert_eq!(require_array(health, "agents", "Gateway health snapshot").expect("agents").len(), 1);
    assert_eq!(
        require_object(&value, "list", "Gateway snapshot").err(),
        Some("Gateway snapshot did not include list.".to_string())
    );
    assert_eq!(
        require_array(health, "bindings", "Gateway health snapshot").err(),
        Some("Gateway health snapshot did not include bindings.".to_string())
    );
    assert!(lookup_entry(health, "agents").is_some());
}

fn overview_payload() -> JsonValue {
    obj(vec![(
        "snapshot",
        obj(vec![(
            "health",
            obj(vec![
                ("ts", u(5_000_000)),
                ("defaultAgentId", s("main")),
                (
                    "agents",
                    arr(vec![
                        obj(vec![
                            ("agentId", s("main")),
                            ("isDefault", JsonValue::Bool(true)),
                            ("heartbeat", obj(vec![("enabled", JsonValue::Bool(true)), ("model", s("gpt"))])),
                            (
                                "sessions",
                                obj(vec![
                                    ("path", s("/store/main.json")),
                                    ("recent", arr(vec![obj(vec![("key", s("agent:main:1")), ("age", u(1200))])])),
                                ]),
                            ),
                        ]),
                        obj(vec![("agentId", s("planner")), ("name", s("Planner"))]),
                    ]),
                ),
            ]),
        )]),
    )])
}

#[test]
fn overview_combines_agents_and_store_counts() {
    let payload = overview_payload();
    assert_eq!(overview_reference_time(&payload, 7), 5_000_000);
    assert_eq!(session_store_paths(&payload), vec![Some("/store/main.json".to_string()), None]);

    let overview = map_agent_overview_snapshot(&payload, &vec![Ok(2), Ok(0)]).expect("overview");
    assert_eq!(overview.total_agents, 2);
    assert_eq!(overview.default_agent_id.as_deref(), Some("main"));
    assert_eq!(overview.total_active_sessions, 2);
    assert_eq!(overview.active_recent_agents, 1);
    let main = &overview.agents[0];
    assert!(main.is_default);
    assert!(main.heartbeat_enabled);
    assert_eq!(main.heartbeat_schedule, "Scheduled");
    assert_eq!(main.heartbeat_model.as_deref(), Some("gpt"));
    assert_eq!(main.latest_session_key.as_deref(), Some("agent:main:1"));
    assert_eq!(main.latest_activity_age_ms, Some(1200));
    let planner = &overview.agents[1];
    assert_eq!(planner.name, "Planner");
    assert_eq!(planner.heartbeat_schedule, "Disabled");
    assert_eq!(planner.active_session_count, 0);

    let failed = map_agent_overview_snapshot(&payload, &vec![Err("Could not read session store".to_string()), Ok(0)]);
    assert_eq!(failed.err(), Some("Could not read session store".to_string()));
}

#[test]
fn overview_parts_map_one_agent() {
    let agent = obj(vec![("agentId", s("ops")), ("heartbeat", obj(vec![("enabled", JsonValue::Bool(true)), ("every", s("1h"))]))]);
    assert_eq!(map_agent_identity(&agent), Ok(("ops".to_string(), "ops".to_string(), false)));
    assert_eq!(map_heartbeat(&agent), (true, "1h".to_string(), None));
    assert_eq!(map_session_recency(&agent, &Err("ignored".to_string())), Ok((0, None, None)));
    assert_eq!(
        map_agent_identity(&obj(vec![("name", s("x"))])),
        Err("Gateway agent snapshot is missing agentId.".to_string())
    );
    let item = map_agent_overview_item(&agent, &Ok(9)).expect("item");
    assert_eq!(item.active_session_count, 0);
    assert_eq!(item.heartbeat_schedule, "1h");
}

#[test]
fn overview_reports_a_missing_snapshot() {
    let error = map_agent_overview_snapshot(&obj(vec![]), &vec![]).expect_err("no snapshot");
    assert_eq!(error, "Gateway connect payload did not include a snapshot.");
    let error = map_agent_overview_snapshot(&obj(vec![("snapshot", obj(vec![]))]), &vec![]).expect_err("no health");
    assert_eq!(error, "Gateway snapshot did not include health.");
}

#[test]
fn session_store_counts_recent_updates() {
    let store = obj(vec![
        ("a", obj(vec![("updatedAt", u(1_000_000))])),
        ("b", obj(vec![("updatedAt", u(400_000))])),
        ("c", obj(vec![("other", u(1))])),
        ("d", obj(vec![("updatedAt", u(399_999))])),
    ]);
    assert_eq!(count_active_sessions(&store, "/s.json", 1_000_000, 10), Ok(2));
    assert_eq!(count_active_sessions(&store, "/s.json", 100, 10), Ok(3));
    assert_eq!(
        count_active_sessions(&arr(vec![]), "/s.json", 0, 10),
        Err("Session store /s.json is not a JSON object.".to_string())
    );
}
