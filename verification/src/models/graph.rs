//! The agent graph: nodes, edges and the snapshot that carries both.
use vstd::prelude::*;

verus! {

/// How recently an agent has worked.
#[derive(Clone, Copy, Debug, PartialEq, Eq, Structural)]
pub enum AgentStatus {
    Active,
    Idle,
    Unknown,
}

/// Where an edge between two agents comes from.
#[derive(Clone, Copy, Debug, PartialEq, Eq, Structural)]
pub enum AgentEdgeKind {
    /// A routing edge reported by the gateway.
    GatewayRouting,
    /// A relationship read from local agent metadata.
    MetadataHint,
    /// A gateway binding that routes work from one agent to another.
    RoutesTo,
    /// A collaboration read from local metadata: a "Works with" entry of `AGENTS.md` or
    /// an agent that the configuration lets an agent hand work to.
    WorksWithHint,
    /// A delegation read from the texts of an agent's `agent.json`.
    DelegatesToHint,
}

#[derive(Clone, Debug, PartialEq, Eq)]
pub struct AgentNode {
    pub id: String,
    pub name: String,
    pub is_default: bool,
    pub heartbeat_enabled: bool,
    pub heartbeat_schedule: String,
    pub active_session_count: u64,
    pub latest_activity_age_ms: Option<u64>,
    pub status: AgentStatus,
}

/// The mathematical content of an [`AgentNode`].
pub struct NodeView {
    pub id: Seq<char>,
    pub name: Seq<char>,
    pub is_default: bool,
    pub heartbeat_enabled: bool,
    pub heartbeat_schedule: Seq<char>,
    pub active_session_count: u64,
    pub latest_activity_age_ms: Option<u64>,
    pub status: AgentStatus,
}

impl View for AgentNode {
    type V = NodeView;

    open spec fn view(&self) -> NodeView {
        NodeView {
            id: self.id@,
            name: self.name@,
            is_default: self.is_default,
            heartbeat_enabled: self.heartbeat_enabled,
            heartbeat_schedule: self.heartbeat_schedule@,
            active_session_count: self.active_session_count,
            latest_activity_age_ms: self.latest_activity_age_ms,
            status: self.status,
        }
    }
}

impl AgentNode {
    /// A field-by-field copy.
    pub fn copied(&self) -> (r: AgentNode)
        ensures
            r@ == self@,
    {
        AgentNode {
            id: self.id.clone(),
            name: self.name.clone(),
            is_default: self.is_default,
            heartbeat_enabled: self.heartbeat_enabled,
            heartbeat_schedule: self.heartbeat_schedule.clone(),
            active_session_count: self.active_session_count,
            latest_activity_age_ms: self.latest_activity_age_ms,
            status: self.status,
        }
    }
}

#[derive(Clone, Debug, PartialEq, Eq)]
pub struct AgentEdge {
    pub source_id: String,
    pub target_id: String,
    pub kind: AgentEdgeKind,
}

/// The mathematical content of an [`AgentEdge`].
pub struct EdgeView {
    pub source: Seq<char>,
    pub target: Seq<char>,
    pub kind: AgentEdgeKind,
}

impl View for AgentEdge {
    type V = EdgeView;

    open spec fn view(&self) -> EdgeView {
        EdgeView { source: self.source_id@, target: self.target_id@, kind: self.kind }
    }
}

impl AgentEdge {
    /// A field-by-field copy.
    pub fn copied(&self) -> (r: AgentEdge)
        ensures
            r@ == self@,
    {
        AgentEdge {
            source_id: self.source_id.clone(),
            target_id: self.target_id.clone(),
            kind: self.kind,
        }
    }
}

#[derive(Clone, Debug, PartialEq, Eq)]
pub struct AgentGraphSnapshot {
    pub nodes: Vec<AgentNode>,
    pub edges: Vec<AgentEdge>,
    pub snapshot_ts: u64,
}

/// The views of a sequence of nodes.
pub open spec fn node_views(nodes: Seq<AgentNode>) -> Seq<NodeView> {
    nodes.map_values(|n: AgentNode| n@)
}

/// The views of a sequence of edges.
pub open spec fn edge_views(edges: Seq<AgentEdge>) -> Seq<EdgeView> {
    edges.map_values(|e: AgentEdge| e@)
}

} // verus!
