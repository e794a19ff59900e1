use daneel::adapter::openclaw::hints::{
    AgentConfigEntry, AgentMetadata, build_alias_map, default_relationship_hints_enabled, delegation_candidates,
    extract_delegate_targets, extract_markdown_target, lowercase_agent_key, lowercase_delegation_candidates, metadata_edge,
    normalize_agent_key, parse_works_with_targets, relationship_hint_edges, resolve_agent_reference,
};
use daneel::adapter::openclaw::mapping::{
    edge_kind_rank, map_active_session_record, map_agent_node, map_binding_edge, normalize_active_sessions,
    normalize_binding_edges,
};
use daneel::adapter::openclaw::snapshot::{snapshot_active_sessions, snapshot_agents, snapshot_bindings};
use daneel::adapter::openclaw::not_implemented;
use daneel::json::{JsonNumber, JsonValue};
use daneel::models::graph::{AgentEdgeKind, AgentStatus};
use daneel::utils::time::ACTIVE_WINDOW_MS;

fn text(value: &str) -> JsonValue {
    JsonValue::Str(value.to_string())
}

fn num(value: u64) -> JsonValue {
    JsonValue::Number(JsonNumber::UInt(value))
}

fn flag(value: bool) -> JsonValue {
    JsonValue::Bool(value)
}

fn list(items: Vec<JsonValue>) -> JsonValue {
    JsonValue::Array(items)
}

fn object(members: Vec<(&str, JsonValue)>) -> JsonValue {
    JsonValue::Object(members.into_iter().map(|(key, value)| (key.to_string(), value)).collect())
}

fn gateway_snapshot_payload_with_sessions(agents: JsonValue, bindings: JsonValue, sessions: JsonValue) -> JsonValue {
    object(vec![
        ("protocolVersion", num(3)),
        ("stateVersion", num(42)),
        ("uptimeMs", num(123_456)),
        (
            "snapshot",
            object(vec![(
                "health",
                object(vec![("agents", agents), ("bindings", bindings), ("activeSessions", sessions)]),
            )]),
        ),
    ])
}

fn gateway_snapshot_payload(agents: JsonValue, bindings: JsonValue) -> JsonValue {
    gateway_snapshot_payload_with_sessions(agents, bindings, list(vec![]))
}

#[test]
fn openclaw_agent_json_maps_to_agent_node() {
    let node = map_agent_node(&object(vec![
        ("agentId", text("planner")),
        ("name", text("Planner")),
        ("isDefault", flag(true)),
        ("heartbeat", object(vec![("enabled", flag(true)), ("every", text("15m"))])),
    ]))
    .expect("map agent node");

    assert_eq!(node.id, "planner");
    assert_eq!(node.name, "Planner");
    assert!(node.is_default);
    assert!(node.heartbeat_enabled);
    assert_eq!(node.heartbeat_schedule, "15m");
    assert_eq!(node.active_session_count, 0);
    assert_eq!(node.latest_activity_age_ms, None);
    assert_eq!(node.status, AgentStatus::Unknown);
}

#[test]
fn unknown_fields_do_not_break_agent_mapping() {
    let node = map_agent_node(&object(vec![
        ("agentId", text("calendar")),
        ("name", text("Calendar")),
        (
            "heartbeat",
            object(vec![("enabled", flag(true)), ("every", text("30m")), ("model", text("ignored-model"))]),
        ),
        ("extra", object(vec![("nested", list(vec![text("noise"), num(1), flag(true)]))])),
    ]))
    .expect("map noisy agent node");

    assert_eq!(node.id, "calendar");
    assert_eq!(node.name, "Calendar");
    assert_eq!(node.heartbeat_schedule, "30m");
}

#[test]
fn missing_optional_fields_fall_back_safely() {
    let node = map_agent_node(&object(vec![("agentId", text("health-coach"))])).expect("map sparse agent node");

    assert_eq!(node.id, "health-coach");
    assert_eq!(node.name, "health-coach");
    assert!(!node.is_default);
    assert!(!node.heartbeat_enabled);
    assert_eq!(node.heartbeat_schedule, "");
    assert_eq!(node.active_session_count, 0);
    assert_eq!(node.latest_activity_age_ms, None);
    assert_eq!(node.status, AgentStatus::Unknown);
}

#[test]
fn missing_agent_id_returns_a_clear_error() {
    let error = map_agent_node(&object(vec![
        ("name", text("Broken Agent")),
        ("heartbeat", object(vec![("enabled", flag(true)), ("every", text("5m"))])),
    ]))
    .expect_err("reject missing agent id");

    assert!(error.contains("missing agentId"));
}

#[test]
fn routes_to_binding_payload_maps_to_routes_to_edge() {
    let edge = map_binding_edge(&object(vec![
        ("sourceAgentId", text("main")),
        ("targetAgentId", text("planner")),
        ("bindingType", text("routes_to")),
    ]))
    .expect("map binding edge");

    assert_eq!(edge.source_id, "main");
    assert_eq!(edge.target_id, "planner");
    assert_eq!(edge.kind, AgentEdgeKind::RoutesTo);
}

#[test]
fn broadcast_group_peer_binding_payload_maps_to_routes_to_edge_for_the_poc() {
    let edge = map_binding_edge(&object(vec![
        ("sourceAgentId", text("calendar")),
        ("targetAgentId", text("email")),
        ("bindingType", text("broadcast_group_peer")),
    ]))
    .expect("map broadcast-group binding edge");

    assert_eq!(edge.kind, AgentEdgeKind::RoutesTo);
}

#[test]
fn config_link_binding_payload_maps_to_routes_to_edge_for_the_poc() {
    let edge = map_binding_edge(&object(vec![
        ("sourceAgentId", text("health-coach")),
        ("targetAgentId", text("coder")),
        ("bindingType", text("config_link")),
    ]))
    .expect("map config-link binding edge");

    assert_eq!(edge.kind, AgentEdgeKind::RoutesTo);
}

#[test]
fn openclaw_session_json_maps_to_active_session_record() {
    let session = map_active_session_record(
        &object(vec![
            ("sessionId", text("session-1")),
            ("agentId", text("planner")),
            ("task", text("plan route")),
            ("ageMs", num(500)),
        ]),
        None,
    )
    .expect("map active session");

    assert_eq!(session.session_id, "session-1");
    assert_eq!(session.agent_id, "planner");
    assert_eq!(session.task.as_deref(), Some("plan route"));
    assert_eq!(session.age_ms, Some(500));
}

#[test]
fn multiple_sessions_for_different_agents_map_correctly() {
    let sessions = [
        map_active_session_record(
            &object(vec![("sessionId", text("session-1")), ("agentId", text("planner")), ("ageMs", num(500))]),
            None,
        )
        .expect("map planner session"),
        map_active_session_record(
            &object(vec![
                ("sessionId", text("session-2")),
                ("agentId", text("calendar")),
                ("task", text("check inbox")),
                ("age", num(250)),
            ]),
            None,
        )
        .expect("map calendar session"),
    ];

    assert_eq!(sessions[0].agent_id, "planner");
    assert_eq!(sessions[0].age_ms, Some(500));
    assert_eq!(sessions[1].agent_id, "calendar");
    assert_eq!(sessions[1].task.as_deref(), Some("check inbox"));
    assert_eq!(sessions[1].age_ms, Some(250));
}

#[test]
fn missing_optional_session_fields_fall_back_safely() {
    let session = map_active_session_record(
        &object(vec![("sessionId", text("session-1")), ("agentId", text("planner"))]),
        None,
    )
    .expect("map sparse session");

    assert_eq!(session.session_id, "session-1");
    assert_eq!(session.agent_id, "planner");
    assert_eq!(session.task, None);
    assert_eq!(session.age_ms, None);
}

#[test]
fn unknown_session_fields_do_not_break_mapping() {
    let session = map_active_session_record(
        &object(vec![
            ("sessionId", text("session-1")),
            ("agentId", text("planner")),
            ("task", text("plan route")),
            ("extra", object(vec![("nested", flag(true))])),
        ]),
        None,
    )
    .expect("map noisy session");

    assert_eq!(session.session_id, "session-1");
    assert_eq!(session.agent_id, "planner");
    assert_eq!(session.task.as_deref(), Some("plan route"));
}

#[test]
fn missing_required_session_identity_returns_a_clear_error() {
    let error = map_active_session_record(&object(vec![("sessionId", text("session-1"))]), None)
        .expect_err("reject session without agent id");

    assert!(error.contains("missing agentId"));
}

#[test]
fn duplicate_session_ids_are_normalized_deterministically() {
    let sessions = normalize_active_sessions(&[
        object(vec![("sessionId", text("session-2")), ("agentId", text("calendar")), ("ageMs", num(600))]),
        object(vec![("sessionId", text("session-1")), ("agentId", text("planner")), ("ageMs", num(500))]),
        object(vec![("sessionId", text("session-1")), ("agentId", text("planner")), ("ageMs", num(400))]),
    ])
    .expect("normalize duplicate sessions");

    assert_eq!(sessions.len(), 2);
    assert_eq!(sessions[0].session_id, "session-1");
    assert_eq!(sessions[0].age_ms, Some(500));
    assert_eq!(sessions[1].session_id, "session-2");
}

#[test]
fn unknown_session_agent_references_still_map_safely() {
    let session = map_active_session_record(
        &object(vec![("sessionId", text("session-1")), ("agentId", text("ghost-agent")), ("ageMs", num(900))]),
        None,
    )
    .expect("map session with unknown agent reference");

    assert_eq!(session.agent_id, "ghost-agent");
    assert_eq!(session.age_ms, Some(900));
}

#[test]
fn empty_bindings_normalize_to_empty_edges() {
    let edges = normalize_binding_edges(&[]).expect("normalize empty bindings");
    assert!(edges.is_empty());
}

#[test]
fn duplicate_bindings_are_normalized_deterministically() {
    let edges = normalize_binding_edges(&[
        object(vec![("sourceAgentId", text("main")), ("targetAgentId", text("planner"))]),
        object(vec![
            ("sourceAgentId", text("main")),
            ("targetAgentId", text("planner")),
            ("bindingType", text("routes_to")),
        ]),
        object(vec![("sourceAgentId", text("calendar")), ("targetAgentId", text("main"))]),
    ])
    .expect("normalize duplicate bindings");

    assert_eq!(edges.len(), 2);
    assert_eq!(edges[0].source_id, "calendar");
    assert_eq!(edges[0].target_id, "main");
    assert_eq!(edges[1].source_id, "main");
    assert_eq!(edges[1].target_id, "planner");
}

#[test]
fn list_agents_reads_nodes_from_gateway_snapshot() {
    let payload = gateway_snapshot_payload(
        list(vec![
            object(vec![
                ("agentId", text("main")),
                ("name", text("Main")),
                ("isDefault", flag(true)),
                ("heartbeat", object(vec![("enabled", flag(true)), ("every", text("15m"))])),
            ]),
            object(vec![("agentId", text("planner"))]),
        ]),
        list(vec![]),
    );

    let agents: Vec<_> = snapshot_agents(&payload)
        .expect("snapshot agents")
        .iter()
        .map(|agent| map_agent_node(agent).expect("map agent"))
        .collect();

    assert_eq!(agents.len(), 2);
    assert_eq!(agents[0].id, "main");
    assert_eq!(agents[0].name, "Main");
    assert!(agents[0].is_default);
    assert_eq!(agents[0].heartbeat_schedule, "15m");
    assert_eq!(agents[1].id, "planner");
    assert_eq!(agents[1].name, "planner");
}

#[test]
fn list_agent_bindings_reads_edges_from_gateway_snapshot() {
    let payload = gateway_snapshot_payload(
        list(vec![]),
        list(vec![
            object(vec![("sourceAgentId", text("main")), ("targetAgentId", text("planner"))]),
            object(vec![("sourceAgentId", text("calendar")), ("targetAgentId", text("main"))]),
            object(vec![
                ("sourceAgentId", text("main")),
                ("targetAgentId", text("planner")),
                ("bindingType", text("routes_to")),
            ]),
        ]),
    );

    let bindings = snapshot_bindings(&payload).expect("snapshot bindings");
    let edges = normalize_binding_edges(bindings).expect("list bindings");

    assert_eq!(edges.len(), 2);
    assert_eq!(edges[0].source_id, "calendar");
    assert_eq!(edges[0].target_id, "main");
    assert_eq!(edges[1].source_id, "main");
    assert_eq!(edges[1].target_id, "planner");
    assert_eq!(edges[0].kind, AgentEdgeKind::RoutesTo);
    assert_eq!(edges[1].kind, AgentEdgeKind::RoutesTo);
}

#[test]
fn list_active_sessions_reads_sessions_from_gateway_snapshot() {
    let payload = gateway_snapshot_payload_with_sessions(
        list(vec![]),
        list(vec![]),
        list(vec![
            object(vec![
                ("sessionId", text("session-2")),
                ("agentId", text("calendar")),
                ("task", text("check inbox")),
                ("ageMs", num(600)),
            ]),
            object(vec![("sessionId", text("session-1")), ("agentId", text("planner")), ("ageMs", num(500))]),
            object(vec![("sessionId", text("session-1")), ("agentId", text("planner")), ("ageMs", num(400))]),
            object(vec![("sessionId", text("session-3")), ("agentId", text("ghost-agent")), ("ageMs", num(900))]),
        ]),
    );

    let sessions = snapshot_active_sessions(&payload).expect("list active sessions");

    assert_eq!(sessions.len(), 3);
    assert_eq!(sessions[0].session_id, "session-1");
    assert_eq!(sessions[0].agent_id, "planner");
    assert_eq!(sessions[0].age_ms, Some(500));
    assert_eq!(sessions[1].session_id, "session-2");
    assert_eq!(sessions[1].task.as_deref(), Some("check inbox"));
    assert_eq!(sessions[2].agent_id, "ghost-agent");
}

#[test]
fn list_active_sessions_falls_back_to_agent_recent_entries() {
    let payload = gateway_snapshot_payload(
        list(vec![
            object(vec![
                ("agentId", text("planner")),
                (
                    "sessions",
                    object(vec![(
                        "recent",
                        list(vec![
                            object(vec![("key", text("session-2")), ("age", num(700))]),
                            object(vec![("key", text("session-1")), ("age", num(500))]),
                        ]),
                    )]),
                ),
            ]),
            object(vec![
                ("agentId", text("calendar")),
                (
                    "sessions",
                    object(vec![(
                        "recent",
                        list(vec![
                            object(vec![("key", text("session-1")), ("age", num(400))]),
                            object(vec![("key", text("session-3")), ("task", text("check inbox")), ("age", num(300))]),
                        ]),
                    )]),
                ),
            ]),
        ]),
        list(vec![]),
    );

    let sessions = snapshot_active_sessions(&payload).expect("list fallback sessions");

    assert_eq!(sessions.len(), 3);
    assert_eq!(sessions[0].session_id, "session-1");
    assert_eq!(sessions[0].agent_id, "planner");
    assert_eq!(sessions[0].age_ms, Some(500));
    assert_eq!(sessions[2].session_id, "session-3");
    assert_eq!(sessions[2].agent_id, "calendar");
    assert_eq!(sessions[2].task.as_deref(), Some("check inbox"));
}

#[test]
fn active_session_fallback_omits_recent_sessions_older_than_active_window() {
    let stale_age = ACTIVE_WINDOW_MS + 9_000;
    let payload = object(vec![(
        "snapshot",
        object(vec![(
            "health",
            object(vec![
                (
                    "agents",
                    list(vec![object(vec![
                        ("agentId", text("quiet-agent")),
                        (
                            "sessions",
                            object(vec![(
                                "recent",
                                list(vec![object(vec![
                                    ("key", text("sess-stale")),
                                    ("sessionId", text("sess-stale")),
                                    ("age", num(stale_age)),
                                ])]),
                            )]),
                        ),
                    ])]),
                ),
                ("bindings", list(vec![])),
                ("activeSessions", list(vec![])),
            ]),
        )]),
    )]);

    let sessions = snapshot_active_sessions(&payload).expect("snapshot active sessions");
    assert!(sessions.is_empty(), "stale recent rows must not become active sessions");
}

fn configured(id: &str, name: &str) -> AgentConfigEntry {
    AgentConfigEntry { id: id.to_string(), name: name.to_string(), allow_agents: Vec::new() }
}

fn no_metadata() -> AgentMetadata {
    AgentMetadata { markdown: None, agent_json: None }
}

fn markdown(contents: &str) -> AgentMetadata {
    AgentMetadata { markdown: Some(contents.to_string()), agent_json: None }
}

#[test]
fn planner_works_with_content_maps_to_collaboration_edges() {
    let agents = vec![
        configured("planner", "Planner"),
        configured("coder", "Coder"),
        configured("health-coach", "Health Coach"),
        configured("email", "Email"),
        configured("calendar", "Calendar"),
    ];
    let metadata = vec![
        markdown(
            "\n### Works With\n- **Coder Agent**: For implementation details\n- **Health Coach**: For health workflows\n- **Email Agent**: For communication workflow planning\n- **Calendar Agent**: For scheduling and timeline integration\n",
        ),
        no_metadata(),
        no_metadata(),
        no_metadata(),
        no_metadata(),
    ];

    let edges = relationship_hint_edges(true, &agents, &metadata);

    assert_eq!(edges.len(), 4);
    assert_eq!(edges[0].source_id, "planner");
    assert_eq!(edges[0].target_id, "calendar");
    assert_eq!(edges[3].target_id, "health-coach");
    assert!(edges.iter().all(|edge| edge.kind == AgentEdgeKind::WorksWithHint));
}

#[test]
fn works_with_entries_are_deduplicated_and_deterministic() {
    let agents = vec![configured("planner", "Planner"), configured("coder", "Coder"), configured("calendar", "Calendar")];
    let metadata = vec![
        markdown(
            "\n### Works With\n- **Coder Agent**: For implementation details\n- **Calendar Agent**: For scheduling\n- **Coder Agent**: Duplicate mention\n",
        ),
        no_metadata(),
        no_metadata(),
    ];

    let edges = relationship_hint_edges(true, &agents, &metadata);

    assert_eq!(edges.len(), 2);
    assert_eq!(edges[0].target_id, "calendar");
    assert_eq!(edges[1].target_id, "coder");
}

#[test]
fn health_coach_config_delegation_hint_maps_to_relationship_edge() {
    let agents = vec![configured("health-coach", "Health Coach"), configured("coder", "Coder")];
    let agent_json = object(vec![(
        "constraints",
        object(vec![(
            "noSkillOrScriptModification",
            text("If a task requires code or skill changes, delegate to the coder agent and never attempt to make the changes directly."),
        )]),
    )]);
    let metadata = vec![AgentMetadata { markdown: None, agent_json: Some(agent_json) }, no_metadata()];

    let edges = relationship_hint_edges(true, &agents, &metadata);

    assert_eq!(edges.len(), 1);
    assert_eq!(edges[0].source_id, "health-coach");
    assert_eq!(edges[0].target_id, "coder");
    assert_eq!(edges[0].kind, AgentEdgeKind::DelegatesToHint);
}

#[test]
fn unknown_referenced_agent_names_are_ignored_safely() {
    let agents = vec![configured("planner", "Planner"), configured("coder", "Coder")];
    let metadata = vec![
        markdown("\n### Works With\n- **Ghost Agent**: This should be ignored\n- **Coder Agent**: For implementation details\n"),
        no_metadata(),
    ];

    let edges = relationship_hint_edges(true, &agents, &metadata);

    assert_eq!(edges.len(), 1);
    assert_eq!(edges[0].target_id, "coder");
    assert_eq!(edges[0].kind, AgentEdgeKind::WorksWithHint);
}

#[test]
fn missing_local_metadata_returns_empty_set_without_error() {
    let agents = vec![configured("planner", "Planner"), configured("coder", "Coder")];
    let metadata = vec![no_metadata(), no_metadata()];

    let edges = relationship_hint_edges(true, &agents, &metadata);

    assert!(edges.is_empty());
}

#[test]
fn malformed_agent_metadata_does_not_fail_full_hint_load() {
    let agents = vec![configured("planner", "Planner"), configured("health-coach", "Health Coach"), configured("coder", "Coder")];
    // An `agent.json` that does not parse reaches the library as absent.
    let metadata = vec![
        markdown("\n### Works With\n- **Coder Agent**: For implementation details\n"),
        no_metadata(),
        no_metadata(),
    ];

    let edges = relationship_hint_edges(true, &agents, &metadata);

    assert_eq!(edges.len(), 1);
    assert_eq!(edges[0].source_id, "planner");
    assert_eq!(edges[0].target_id, "coder");
    assert_eq!(edges[0].kind, AgentEdgeKind::WorksWithHint);
}

#[test]
fn metadata_parsing_can_be_disabled_by_config() {
    let agents = vec![configured("planner", "Planner"), configured("coder", "Coder")];
    let metadata = vec![markdown("\n### Works With\n- **Coder Agent**: For implementation details\n"), no_metadata()];

    let edges = relationship_hint_edges(false, &agents, &metadata);

    assert!(edges.is_empty());
}

#[test]
fn mixed_markdown_and_config_hints_merge_without_duplicates() {
    let mut planner = configured("planner", "Planner");
    planner.allow_agents = vec!["coder".to_string(), "calendar".to_string()];
    let agents = vec![planner, configured("coder", "Coder"), configured("calendar", "Calendar")];
    let metadata = vec![markdown("\n### Works With\n- **Coder Agent**: For implementation details\n"), no_metadata(), no_metadata()];

    let edges = relationship_hint_edges(true, &agents, &metadata);

    assert_eq!(edges.len(), 2);
    assert_eq!(edges[0].target_id, "calendar");
    assert_eq!(edges[0].kind, AgentEdgeKind::WorksWithHint);
    assert_eq!(edges[1].target_id, "coder");
    assert_eq!(edges[1].kind, AgentEdgeKind::WorksWithHint);
}

#[test]
fn agent_keys_are_normalized_for_lookup() {
    assert_eq!(normalize_agent_key("Coder Agent"), "coder");
    assert_eq!(normalize_agent_key("  **Health   Coach** "), "health-coach");
    assert_eq!(normalize_agent_key("Ops_Team agent agent"), "ops-team");
    assert_eq!(normalize_agent_key("Ünïcode Bot"), "n-code-bot");
    assert_eq!(normalize_agent_key(""), "");
}

#[test]
fn references_resolve_through_ids_and_names() {
    let agents = vec![configured("health-coach", "Health Coach"), configured("coder", "")];
    let aliases = build_alias_map(&agents);
    assert_eq!(resolve_agent_reference("Health Coach Agent", &aliases).as_deref(), Some("health-coach"));
    assert_eq!(resolve_agent_reference("HEALTH-COACH", &aliases).as_deref(), Some("health-coach"));
    assert_eq!(resolve_agent_reference("coder", &aliases).as_deref(), Some("coder"));
    assert_eq!(resolve_agent_reference("ghost", &aliases), None);
}

#[test]
fn bullet_lines_name_their_target() {
    let agents = vec![configured("coder", "Coder"), configured("calendar", "Calendar")];
    let aliases = build_alias_map(&agents);
    assert_eq!(extract_markdown_target("- **Coder Agent**: details", &aliases).as_deref(), Some("coder"));
    assert_eq!(extract_markdown_target("* Calendar: scheduling", &aliases).as_deref(), Some("calendar"));
    assert_eq!(extract_markdown_target("- - Coder", &aliases).as_deref(), Some("coder"));
    assert_eq!(extract_markdown_target("- **Coder Agent: unclosed", &aliases), None);
}

#[test]
fn only_the_first_works_with_section_is_read() {
    let agents = vec![configured("coder", "Coder"), configured("calendar", "Calendar"), configured("email", "Email")];
    let aliases = build_alias_map(&agents);
    let targets = parse_works_with_targets(
        "- **Email**: before the section\n## Works-With\r\n* Coder\n- Calendar: x\n## Other\n- Email\n",
        &aliases,
    );
    let mut sorted = targets.clone();
    sorted.sort();
    assert_eq!(sorted, vec!["calendar".to_string(), "coder".to_string()]);
}

#[test]
fn delegation_phrases_yield_candidates() {
    assert_eq!(
        delegation_candidates("Delegate to the Coder agent, or delegate to email agent."),
        vec!["coder".to_string(), "the coder".to_string(), "email".to_string()]
    );
    assert!(delegation_candidates("delegate to nobody").is_empty());
    assert!(delegation_candidates("delegate to  agent").is_empty());
}

#[test]
fn delegate_targets_are_read_from_nested_json() {
    let agents = vec![configured("coder", "Coder"), configured("email", "Email")];
    let aliases = build_alias_map(&agents);
    let value = list(vec![
        object(vec![("a", text("delegate to the email agent"))]),
        num(3),
        list(vec![text("Delegate to Coder agent"), text("delegate to the ghost agent")]),
    ]);
    let mut targets = extract_delegate_targets(&value, &aliases);
    targets.sort();
    assert_eq!(targets, vec!["coder".to_string(), "email".to_string()]);
}

#[test]
fn hint_helpers_have_their_fixed_values() {
    assert!(default_relationship_hints_enabled());
    let edge = metadata_edge("a", "b", AgentEdgeKind::DelegatesToHint);
    assert_eq!(edge.source_id, "a");
    assert_eq!(edge.target_id, "b");
    assert_eq!(edge.kind, AgentEdgeKind::DelegatesToHint);
    let error: Result<(), String> = not_implemented("gateway_status");
    assert_eq!(error, Err("OpenClawAdapter::gateway_status() is not implemented yet.".to_string()));
}

#[test]
fn list_agent_relationship_hints_reads_local_metadata_end_to_end() {
    let agents = vec![configured("planner", "Planner"), configured("coder", "Coder"), configured("calendar", "Calendar")];
    let metadata = vec![
        markdown("\n### Works With\n- **Coder Agent**: For implementation details\n- **Calendar Agent**: For scheduling\n"),
        no_metadata(),
        no_metadata(),
    ];

    let edges = relationship_hint_edges(true, &agents, &metadata);

    assert_eq!(edges.len(), 2);
    assert_eq!(edges[0].source_id, "planner");
    assert_eq!(edges[0].target_id, "calendar");
    assert_eq!(edges[0].kind, AgentEdgeKind::WorksWithHint);
    assert_eq!(edges[1].kind, AgentEdgeKind::WorksWithHint);
}

#[test]
fn metadata_past_the_list_counts_as_absent() {
    let agents = vec![configured("planner", "Planner"), configured("coder", "Coder")];
    let metadata = vec![markdown("# Works with\n- Coder\n")];
    let edges = relationship_hint_edges(true, &agents, &metadata);
    assert_eq!(edges.len(), 1);
    assert_eq!(edges[0].target_id, "coder");
}

#[test]
fn agent_keys_hold_only_letters_digits_and_dashes() {
    let key = normalize_agent_key("** Foo!!Bar_baz agent **");
    assert_eq!(key, "foo-bar-baz");
    for raw in ["Ünïcode Bot", "  tab\there ", "x__y", "☃ snow ☃ agent", "A-B_C d"] {
        let key = normalize_agent_key(raw);
        assert!(key.chars().all(|c| c.is_ascii_alphanumeric() || c == '-'), "{raw:?} gave {key:?}");
    }
}


#[test]
fn a_delegation_outranks_a_collaboration_on_the_same_pair() {
    let mut planner = configured("planner", "Planner");
    planner.allow_agents = vec!["calendar".to_string()];
    let agents = vec![planner, configured("coder", "Coder"), configured("calendar", "Calendar")];
    let agent_json = object(vec![("note", text("For code, delegate to the coder agent."))]);
    let metadata = vec![
        AgentMetadata {
            markdown: Some("### Works With\n- **Coder Agent**: pairing\n".to_string()),
            agent_json: Some(agent_json),
        },
        no_metadata(),
        no_metadata(),
    ];

    let edges = relationship_hint_edges(true, &agents, &metadata);

    assert_eq!(edges.len(), 2);
    assert_eq!(edges[0].target_id, "calendar");
    assert_eq!(edges[0].kind, AgentEdgeKind::WorksWithHint);
    assert_eq!(edges[1].target_id, "coder");
    assert_eq!(edges[1].kind, AgentEdgeKind::DelegatesToHint);
}

#[test]
fn lower_cased_text_is_keyed_and_searched_as_given() {
    assert_eq!(lowercase_agent_key("**health coach** agent"), "health-coach");
    assert_eq!(lowercase_agent_key("Coder Agent"), "Coder-Agent");
    assert_eq!(
        lowercase_delegation_candidates("delegate to the coder agent"),
        vec!["coder".to_string(), "the coder".to_string()]
    );
    assert!(lowercase_delegation_candidates("Delegate to the Coder agent").is_empty());
}


#[test]
fn edge_kinds_rank_routes_before_delegations_before_collaborations() {
    assert_eq!(edge_kind_rank(&AgentEdgeKind::RoutesTo), 0);
    assert_eq!(edge_kind_rank(&AgentEdgeKind::DelegatesToHint), 1);
    assert_eq!(edge_kind_rank(&AgentEdgeKind::WorksWithHint), 2);
}
