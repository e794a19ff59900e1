//! The gateway: configuration, frames exchanged with it, and the mapping of its
//! replies to the dashboard models.
pub mod agents;
pub mod config;
pub mod session_store;
pub mod status;
pub mod ws;

use vstd::prelude::*;
use crate::gateway::config::{DEFAULT_GATEWAY_URL, LoadedGatewayConfig};
use crate::graph_service::{GraphAssemblyInputs, assemble_graph_snapshot, assembled_snapshot};
use crate::models::gateway::{GatewayLevel, GatewayStatusSnapshot};
use crate::models::graph::{AgentEdge, AgentGraphSnapshot, AgentNode, edge_views, node_views};
use crate::models::runtime::{ActiveSessionRecord, session_views};
use crate::text::owned;

verus! {

pub const GATEWAY_STATUS_ENDPOINT: &'static str = "gateway/status";
pub const AGENT_OVERVIEW_ENDPOINT: &'static str = "agents/overview";
pub const AGENT_GRAPH_SNAPSHOT_ENDPOINT: &'static str = "graph/snapshot";

/// A degraded status for the gateway at `gateway_url`.
pub fn degraded_gateway_status(gateway_url: String, summary: &str, detail: String) -> (r: GatewayStatusSnapshot)
    ensures
        !r.connected,
        r.level == GatewayLevel::Degraded,
        r.summary@ == summary@,
        r.detail@ == detail@,
        r.gateway_url@ == gateway_url@,
        r.protocol_version is None,
        r.state_version is None,
        r.uptime_ms is None,
{
    GatewayStatusSnapshot::degraded(gateway_url, owned(summary), detail)
}

/// The status shown when the gateway settings could not be loaded: degraded, at the
/// default URL, with the loading error as detail.
pub fn unconfigured_gateway_status(error: String) -> (r: GatewayStatusSnapshot)
    ensures
        !r.connected,
        r.level == GatewayLevel::Degraded,
        r.summary@ == "Gateway configuration unavailable"@,
        r.detail@ == error@,
        r.gateway_url@ == DEFAULT_GATEWAY_URL@,
        r.protocol_version is None,
        r.state_version is None,
        r.uptime_ms is None,
{
    degraded_gateway_status(owned(DEFAULT_GATEWAY_URL), "Gateway configuration unavailable", error)
}

/// The status shown after asking the configured gateway: what it reported, or a
/// degraded status at the configured URL with the failure as detail.
pub fn fetched_gateway_status(config: &LoadedGatewayConfig, fetched: Result<GatewayStatusSnapshot, String>) -> (r: GatewayStatusSnapshot)
    ensures
        match fetched {
            Ok(snapshot) => r == snapshot,
            Err(error) => !r.connected && r.level == GatewayLevel::Degraded
                && r.summary@ == "Gateway connection failed"@ && r.detail@ == error@
                && r.gateway_url@ == config.ws_url@ && r.protocol_version is None
                && r.state_version is None && r.uptime_ms is None,
        },
{
    match fetched {
        Ok(snapshot) => snapshot,
        Err(error) => degraded_gateway_status(config.ws_url.clone(), "Gateway connection failed", error),
    }
}

/// The graph snapshot from what the adapter answered: the first failure among the
/// agents, the routing bindings and the active sessions (in that order) is returned;
/// relationship hints that could not be read count as none.
pub fn graph_snapshot_from_adapter_results(
    agents: Result<Vec<AgentNode>, String>,
    gateway_edges: Result<Vec<AgentEdge>, String>,
    active_sessions: Result<Vec<ActiveSessionRecord>, String>,
    hint_edges: Result<Vec<AgentEdge>, String>,
    snapshot_ts: u64,
) -> (r: Result<AgentGraphSnapshot, String>)
    ensures
        match (agents, gateway_edges, active_sessions) {
            (Err(e), _, _) => r == Err::<AgentGraphSnapshot, String>(e),
            (Ok(_), Err(e), _) => r == Err::<AgentGraphSnapshot, String>(e),
            (Ok(_), Ok(_), Err(e)) => r == Err::<AgentGraphSnapshot, String>(e),
            (Ok(a), Ok(g), Ok(s)) => match r {
                Ok(snapshot) => assembled_snapshot(
                    node_views(a@),
                    edge_views(g@),
                    session_views(s@),
                    edge_views(match hint_edges { Ok(h) => h@, Err(_) => Seq::empty() }),
                    snapshot_ts,
                    node_views(snapshot.nodes@),
                    edge_views(snapshot.edges@),
                    snapshot.snapshot_ts,
                ),
                Err(_) => false,
            },
        },
{
    let agents = agents?;
    let gateway_edges = gateway_edges?;
    let active_sessions = active_sessions?;
    let hint_edges = match hint_edges {
        Ok(edges) => edges,
        Err(_) => Vec::new(),
    };
    Ok(assemble_graph_snapshot(GraphAssemblyInputs { agents, gateway_edges, active_sessions, hint_edges }, snapshot_ts))
}

} // verus!
