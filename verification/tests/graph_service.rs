use daneel::graph_service::{GraphAssemblyInputs, assemble_graph_snapshot, summarize_graph_snapshot};
use daneel::models::graph::{AgentEdge, AgentEdgeKind, AgentNode, AgentStatus};
use daneel::models::runtime::ActiveSessionRecord;

fn agent(
    id: &str,
    latest_activity_age_ms: Option<u64>,
    active_session_count: u64,
    status: AgentStatus,
) -> AgentNode {
    AgentNode {
        id: id.to_string(),
        name: id.to_string(),
        is_default: id == "main",
        heartbeat_enabled: true,
        heartbeat_schedule: "every 5m".to_string(),
        active_session_count,
        latest_activity_age_ms,
        status,
    }
}

fn edge(source_id: &str, target_id: &str, kind: AgentEdgeKind) -> AgentEdge {
    AgentEdge {
        source_id: source_id.to_string(),
        target_id: target_id.to_string(),
        kind,
    }
}

fn active_session(
    session_id: &str,
    agent_id: &str,
    age_ms: Option<u64>,
) -> ActiveSessionRecord {
    ActiveSessionRecord {
        session_id: session_id.to_string(),
        agent_id: agent_id.to_string(),
        task: Some("work".to_string()),
        age_ms,
    }
}

fn assembly_inputs(
    agents: Vec<AgentNode>,
    gateway_edges: Vec<AgentEdge>,
    active_sessions: Vec<ActiveSessionRecord>,
    hint_edges: Vec<AgentEdge>,
) -> GraphAssemblyInputs {
    GraphAssemblyInputs {
        agents,
        gateway_edges,
        active_sessions,
        hint_edges,
    }
}

#[test]
fn empty_adapter_data_produces_valid_empty_snapshot_without_panicking() {
    let snapshot = assemble_graph_snapshot(
        assembly_inputs(Vec::new(), Vec::new(), Vec::new(), Vec::new()),
        42,
    );

    assert!(snapshot.nodes.is_empty());
    assert!(snapshot.edges.is_empty());
    assert_eq!(snapshot.snapshot_ts, 42);
}

#[test]
fn agents_and_bindings_create_expected_node_and_edge_counts() {
    let snapshot = assemble_graph_snapshot(
        assembly_inputs(
            vec![
                agent("planner", Some(10_000), 0, AgentStatus::Idle),
                agent("coder", None, 0, AgentStatus::Unknown),
            ],
            vec![edge("planner", "coder", AgentEdgeKind::GatewayRouting)],
            Vec::new(),
            Vec::new(),
        ),
        10,
    );

    assert_eq!(snapshot.nodes.len(), 2);
    assert_eq!(snapshot.edges.len(), 1);
}

#[test]
fn active_sessions_decorate_node_status_correctly() {
    let snapshot = assemble_graph_snapshot(
        assembly_inputs(
            vec![
                agent("planner", Some(50_000), 0, AgentStatus::Idle),
                agent("coder", None, 0, AgentStatus::Unknown),
            ],
            Vec::new(),
            vec![
                active_session("session-1", "planner", Some(500)),
                active_session("session-2", "planner", Some(1_000)),
            ],
            Vec::new(),
        ),
        11,
    );

    assert_eq!(snapshot.nodes[0].id, "coder");
    assert_eq!(snapshot.nodes[0].status, AgentStatus::Unknown);
    assert_eq!(snapshot.nodes[1].id, "planner");
    assert_eq!(snapshot.nodes[1].status, AgentStatus::Active);
    assert_eq!(snapshot.nodes[1].active_session_count, 2);
    assert_eq!(snapshot.nodes[1].latest_activity_age_ms, Some(500));
}

#[test]
fn local_relationship_hints_merge_without_duplicating_gateway_edges() {
    let snapshot = assemble_graph_snapshot(
        assembly_inputs(
            vec![
                agent("planner", Some(10_000), 0, AgentStatus::Idle),
                agent("coder", Some(20_000), 0, AgentStatus::Idle),
                agent("calendar", Some(30_000), 0, AgentStatus::Idle),
            ],
            vec![edge("planner", "coder", AgentEdgeKind::GatewayRouting)],
            Vec::new(),
            vec![
                edge("planner", "coder", AgentEdgeKind::MetadataHint),
                edge("planner", "calendar", AgentEdgeKind::MetadataHint),
            ],
        ),
        12,
    );

    assert_eq!(snapshot.edges.len(), 2);
    assert_eq!(
        snapshot.edges[0],
        edge("planner", "calendar", AgentEdgeKind::MetadataHint)
    );
    assert_eq!(
        snapshot.edges[1],
        edge("planner", "coder", AgentEdgeKind::GatewayRouting)
    );
}

#[test]
fn edge_ordering_is_deterministic_for_stable_snapshots() {
    let snapshot = assemble_graph_snapshot(
        assembly_inputs(
            vec![
                agent("calendar", Some(30_000), 0, AgentStatus::Idle),
                agent("planner", Some(10_000), 0, AgentStatus::Idle),
                agent("coder", Some(20_000), 0, AgentStatus::Idle),
            ],
            vec![
                edge("planner", "coder", AgentEdgeKind::GatewayRouting),
                edge("coder", "calendar", AgentEdgeKind::GatewayRouting),
            ],
            Vec::new(),
            vec![edge("planner", "calendar", AgentEdgeKind::MetadataHint)],
        ),
        13,
    );

    assert_eq!(
        snapshot
            .nodes
            .iter()
            .map(|node| node.id.as_str())
            .collect::<Vec<_>>(),
        vec!["calendar", "coder", "planner"]
    );
    assert_eq!(
        snapshot.edges,
        vec![
            edge("coder", "calendar", AgentEdgeKind::GatewayRouting),
            edge("planner", "calendar", AgentEdgeKind::MetadataHint),
            edge("planner", "coder", AgentEdgeKind::GatewayRouting),
        ]
    );
}

#[test]
fn orphan_edges_are_dropped_safely() {
    let snapshot = assemble_graph_snapshot(
        assembly_inputs(
            vec![
                agent("planner", Some(10_000), 0, AgentStatus::Idle),
                agent("coder", Some(20_000), 0, AgentStatus::Idle),
            ],
            vec![
                edge("planner", "ghost", AgentEdgeKind::GatewayRouting),
                edge("planner", "coder", AgentEdgeKind::GatewayRouting),
                edge("planner", "planner", AgentEdgeKind::GatewayRouting),
            ],
            Vec::new(),
            vec![edge("ghost", "coder", AgentEdgeKind::MetadataHint)],
        ),
        14,
    );

    assert_eq!(
        snapshot.edges,
        vec![edge("planner", "coder", AgentEdgeKind::GatewayRouting)]
    );
}

#[test]
fn unknown_session_agent_references_do_not_create_phantom_nodes_or_crash_graph_assembly() {
    let snapshot = assemble_graph_snapshot(
        assembly_inputs(
            vec![agent("planner", Some(10_000), 0, AgentStatus::Idle)],
            Vec::new(),
            vec![active_session("session-1", "ghost", Some(100))],
            Vec::new(),
        ),
        15,
    );

    assert_eq!(snapshot.nodes.len(), 1);
    assert_eq!(snapshot.nodes[0].id, "planner");
    assert_eq!(snapshot.nodes[0].active_session_count, 0);
    assert_eq!(snapshot.nodes[0].status, AgentStatus::Idle);
}

#[test]
fn node_ordering_is_deterministic_even_when_adapter_inputs_are_shuffled() {
    let left = assemble_graph_snapshot(
        assembly_inputs(
            vec![
                agent("planner", Some(10_000), 0, AgentStatus::Idle),
                agent("coder", Some(20_000), 0, AgentStatus::Idle),
                agent("calendar", Some(30_000), 0, AgentStatus::Idle),
            ],
            Vec::new(),
            Vec::new(),
            Vec::new(),
        ),
        16,
    );
    let right = assemble_graph_snapshot(
        assembly_inputs(
            vec![
                agent("calendar", Some(30_000), 0, AgentStatus::Idle),
                agent("planner", Some(10_000), 0, AgentStatus::Idle),
                agent("coder", Some(20_000), 0, AgentStatus::Idle),
            ],
            Vec::new(),
            Vec::new(),
            Vec::new(),
        ),
        16,
    );

    assert_eq!(left.nodes, right.nodes);
}

#[test]
fn graph_summary_values_match_the_assembled_snapshot() {
    let snapshot = assemble_graph_snapshot(
        assembly_inputs(
            vec![
                agent("planner", Some(10_000), 0, AgentStatus::Idle),
                agent("coder", None, 0, AgentStatus::Unknown),
            ],
            vec![edge("planner", "coder", AgentEdgeKind::GatewayRouting)],
            vec![active_session("session-1", "planner", Some(100))],
            Vec::new(),
        ),
        17,
    );

    let summary = summarize_graph_snapshot(&snapshot);

    assert_eq!(summary.agent_count, 2);
    assert_eq!(summary.active_agent_count, 1);
    assert_eq!(summary.edge_count, 1);
}

#[test]
fn assembly_keeps_the_kind_of_the_edge_that_supplies_each_pair() {
    let snapshot = assemble_graph_snapshot(
        assembly_inputs(
            vec![
                agent("planner", Some(10_000), 0, AgentStatus::Idle),
                agent("coder", Some(20_000), 0, AgentStatus::Idle),
                agent("calendar", Some(30_000), 0, AgentStatus::Idle),
            ],
            vec![
                edge("planner", "coder", AgentEdgeKind::RoutesTo),
                edge("planner", "coder", AgentEdgeKind::GatewayRouting),
            ],
            Vec::new(),
            vec![
                edge("planner", "coder", AgentEdgeKind::WorksWithHint),
                edge("planner", "calendar", AgentEdgeKind::DelegatesToHint),
                edge("planner", "calendar", AgentEdgeKind::WorksWithHint),
            ],
        ),
        20,
    );

    assert_eq!(
        snapshot.edges,
        vec![
            edge("planner", "calendar", AgentEdgeKind::DelegatesToHint),
            edge("planner", "coder", AgentEdgeKind::RoutesTo),
        ]
    );
}

#[test]
fn snapshot_does_not_depend_on_the_order_of_sessions_and_edges() {
    let agents = vec![
        agent("planner", Some(10_000), 0, AgentStatus::Idle),
        agent("coder", None, 0, AgentStatus::Unknown),
        agent("calendar", Some(30_000), 0, AgentStatus::Idle),
    ];
    let left = assemble_graph_snapshot(
        assembly_inputs(
            agents.clone(),
            vec![edge("planner", "coder", AgentEdgeKind::RoutesTo), edge("coder", "calendar", AgentEdgeKind::RoutesTo)],
            vec![
                active_session("s-1", "planner", Some(700)),
                active_session("s-2", "coder", None),
                active_session("s-3", "planner", Some(300)),
            ],
            vec![edge("planner", "calendar", AgentEdgeKind::WorksWithHint)],
        ),
        21,
    );
    let right = assemble_graph_snapshot(
        assembly_inputs(
            vec![agents[2].clone(), agents[0].clone(), agents[1].clone()],
            vec![edge("coder", "calendar", AgentEdgeKind::RoutesTo), edge("planner", "coder", AgentEdgeKind::RoutesTo)],
            vec![
                active_session("s-3", "planner", Some(300)),
                active_session("s-1", "planner", Some(700)),
                active_session("s-2", "coder", None),
            ],
            vec![edge("planner", "calendar", AgentEdgeKind::WorksWithHint)],
        ),
        21,
    );

    assert_eq!(left, right);
    assert_eq!(left.nodes[2].id, "planner");
    assert_eq!(left.nodes[2].active_session_count, 2);
    assert_eq!(left.nodes[2].latest_activity_age_ms, Some(300));
    assert_eq!(left.nodes[1].status, AgentStatus::Active);
}
