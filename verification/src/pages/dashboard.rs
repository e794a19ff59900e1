//! The dashboard: summary cards and the graph card, for every state of the data and of
//! the connection.
use vstd::prelude::*;
use crate::graph_service::{GraphAssemblySummary, active_count, summarize_graph_snapshot};
use crate::models::gateway::{GatewayLevel, GatewayStatusSnapshot};
use crate::models::graph::{AgentGraphSnapshot, AgentNode, AgentEdge, edge_views, node_views};
use crate::models::live_gateway::OperatorConnectionState;
use crate::text::{concat2, concat3, decimal, owned, push_decimal};

verus! {

/// One of the summary cards.
pub struct SummaryCardModel {
    pub title: &'static str,
    pub value: String,
    pub detail: String,
    pub accent_class: &'static str,
    pub stale: bool,
}

/// What the graph card shows.
pub enum GraphSnapshotView {
    Loading,
    Empty { stale: bool },
    Error(String),
    Disconnected,
    Ready { snapshot: AgentGraphSnapshot, stale: bool },
}

/// A copy of a snapshot.
pub fn copy_snapshot(snapshot: &AgentGraphSnapshot) -> (r: AgentGraphSnapshot)
    ensures
        node_views(r.nodes@) == node_views(snapshot.nodes@),
        edge_views(r.edges@) == edge_views(snapshot.edges@),
        r.snapshot_ts == snapshot.snapshot_ts,
{
    let mut nodes: Vec<AgentNode> = Vec::new();
    let mut i: usize = 0;
    while i < snapshot.nodes.len()
        invariant
            i <= snapshot.nodes.len(),
            node_views(nodes@) == node_views(snapshot.nodes@).take(i as int),
        decreases snapshot.nodes.len() - i,
    {
        let ghost before = nodes@;
        let node = snapshot.nodes[i].copied();
        nodes.push(node);
        assert(nodes@ =~= before.push(node));
        assert(node_views(snapshot.nodes@)[i as int] == snapshot.nodes@[i as int]@);
        assert(node_views(nodes@) =~= node_views(before).push(node@));
        i = i + 1;
        assert(node_views(nodes@) =~= node_views(snapshot.nodes@).take(i as int));
    }
    let mut edges: Vec<AgentEdge> = Vec::new();
    let mut j: usize = 0;
    while j < snapshot.edges.len()
        invariant
            j <= snapshot.edges.len(),
            edge_views(edges@) == edge_views(snapshot.edges@).take(j as int),
        decreases snapshot.edges.len() - j,
    {
        let ghost before = edges@;
        let edge = snapshot.edges[j].copied();
        edges.push(edge);
        assert(edges@ =~= before.push(edge));
        assert(edge_views(snapshot.edges@)[j as int] == snapshot.edges@[j as int]@);
        assert(edge_views(edges@) =~= edge_views(before).push(edge@));
        j = j + 1;
        assert(edge_views(edges@) =~= edge_views(snapshot.edges@).take(j as int));
    }
    assert(node_views(snapshot.nodes@).take(snapshot.nodes.len() as int) =~= node_views(snapshot.nodes@));
    assert(edge_views(snapshot.edges@).take(snapshot.edges.len() as int) =~= edge_views(snapshot.edges@));
    AgentGraphSnapshot { nodes, edges, snapshot_ts: snapshot.snapshot_ts }
}

/// The snapshot `view` shows is `snapshot`, with the given staleness.
pub open spec fn shows_snapshot(view: GraphSnapshotView, snapshot: AgentGraphSnapshot, stale: bool) -> bool {
    view matches GraphSnapshotView::Ready { snapshot: s, stale: st }
        && node_views(s.nodes@) == node_views(snapshot.nodes@)
        && edge_views(s.edges@) == edge_views(snapshot.edges@)
        && s.snapshot_ts == snapshot.snapshot_ts
        && st == stale
}

/// The graph card's content. While the backend is disconnected the last good snapshot
/// is shown as stale (an empty one as a stale empty state), or a paused state when
/// there is none; otherwise the current request decides: loading, its error, an empty
/// state, or the snapshot.
pub open spec fn graph_view_spec(
    operator_state: OperatorConnectionState,
    graph_snapshot: Option<Result<AgentGraphSnapshot, String>>,
    cached: Option<AgentGraphSnapshot>,
    view: GraphSnapshotView,
) -> bool {
    if operator_state == OperatorConnectionState::Disconnected {
        match cached {
            Some(snapshot) => if snapshot.nodes@.len() == 0 {
                view == (GraphSnapshotView::Empty { stale: true })
            } else {
                shows_snapshot(view, snapshot, true)
            },
            None => view == GraphSnapshotView::Disconnected,
        }
    } else {
        match graph_snapshot {
            Some(Ok(snapshot)) => if snapshot.nodes@.len() == 0 {
                view == (GraphSnapshotView::Empty { stale: false })
            } else {
                shows_snapshot(view, snapshot, false)
            },
            Some(Err(error)) => view matches GraphSnapshotView::Error(text) && text@ == error@,
            None => view == GraphSnapshotView::Loading,
        }
    }
}

pub open spec fn deref_result(r: Option<&Result<AgentGraphSnapshot, String>>) -> Option<Result<AgentGraphSnapshot, String>> {
    match r {
        Some(x) => Some(*x),
        None => None,
    }
}

pub open spec fn deref_snapshot(r: Option<&AgentGraphSnapshot>) -> Option<AgentGraphSnapshot> {
    match r {
        Some(x) => Some(*x),
        None => None,
    }
}

pub fn graph_snapshot_view(
    operator_state: OperatorConnectionState,
    graph_snapshot: Option<&Result<AgentGraphSnapshot, String>>,
    cached_graph_snapshot: Option<&AgentGraphSnapshot>,
) -> (r: GraphSnapshotView)
    ensures
        graph_view_spec(operator_state, deref_result(graph_snapshot), deref_snapshot(cached_graph_snapshot), r),
{
    if operator_state == OperatorConnectionState::Disconnected {
        if let Some(snapshot) = cached_graph_snapshot {
            return if snapshot.nodes.len() == 0 {
                GraphSnapshotView::Empty { stale: true }
            } else {
                GraphSnapshotView::Ready { snapshot: copy_snapshot(snapshot), stale: true }
            };
        }
        return GraphSnapshotView::Disconnected;
    }
    match graph_snapshot {
        Some(Ok(snapshot)) => if snapshot.nodes.len() == 0 {
            GraphSnapshotView::Empty { stale: false }
        } else {
            GraphSnapshotView::Ready { snapshot: copy_snapshot(snapshot), stale: false }
        },
        Some(Err(error)) => GraphSnapshotView::Error(error.clone()),
        None => GraphSnapshotView::Loading,
    }
}

pub open spec fn level_value(level: GatewayLevel) -> Seq<char> {
    match level {
        GatewayLevel::Healthy => "Healthy"@,
        GatewayLevel::Degraded => "Degraded"@,
    }
}

pub open spec fn level_accent(level: GatewayLevel) -> Seq<char> {
    match level {
        GatewayLevel::Healthy => "text-emerald-200"@,
        GatewayLevel::Degraded => "text-amber-300"@,
    }
}

pub open spec fn card_is(card: SummaryCardModel, title: Seq<char>, value: Seq<char>, detail: Seq<char>, accent: Seq<char>, stale: bool) -> bool {
    card.title@ == title && card.value@ == value && card.detail@ == detail && card.accent_class@ == accent
        && card.stale == stale
}

pub open spec fn deref_status(r: Option<&Result<GatewayStatusSnapshot, String>>) -> Option<Result<GatewayStatusSnapshot, String>> {
    match r {
        Some(x) => Some(*x),
        None => None,
    }
}

pub open spec fn deref_cached_status(r: Option<&GatewayStatusSnapshot>) -> Option<GatewayStatusSnapshot> {
    match r {
        Some(x) => Some(*x),
        None => None,
    }
}

/// The gateway card. While the backend is disconnected it shows the last known status
/// as stale, or that it waits for the backend; otherwise the current request decides.
pub open spec fn gateway_card_spec(
    operator_state: OperatorConnectionState,
    gateway_status: Option<Result<GatewayStatusSnapshot, String>>,
    cached: Option<GatewayStatusSnapshot>,
    card: SummaryCardModel,
) -> bool {
    if operator_state == OperatorConnectionState::Disconnected {
        match cached {
            Some(s) => card_is(card, "Gateway"@, level_value(s.level),
                "Last known gateway status: "@ + s.summary@ + " Daneel is retrying the backend connection."@,
                level_accent(s.level), true),
            None => card_is(card, "Gateway"@, "Disconnected"@,
                "Waiting for the backend connection to recover before loading a fresh gateway snapshot."@,
                "text-rose-200"@, false),
        }
    } else {
        match gateway_status {
            Some(Ok(s)) => card_is(card, "Gateway"@, level_value(s.level), s.summary@, level_accent(s.level), false),
            Some(Err(error)) => card_is(card, "Gateway"@, "Unavailable"@, "Gateway lookup failed: "@ + error@,
                "text-amber-300"@, false),
            None => card_is(card, "Gateway"@, "Loading"@, "Fetching the latest gateway health snapshot."@,
                "text-slate-200"@, false),
        }
    }
}

fn level_value_exec(level: GatewayLevel) -> (r: String)
    ensures
        r@ == level_value(level),
{
    match level {
        GatewayLevel::Healthy => owned("Healthy"),
        GatewayLevel::Degraded => owned("Degraded"),
    }
}

fn level_accent_exec(level: GatewayLevel) -> (r: &'static str)
    ensures
        r@ == level_accent(level),
{
    match level {
        GatewayLevel::Healthy => "text-emerald-200",
        GatewayLevel::Degraded => "text-amber-300",
    }
}

pub fn gateway_summary_card(
    operator_state: OperatorConnectionState,
    gateway_status: Option<&Result<GatewayStatusSnapshot, String>>,
    cached_gateway_status: Option<&GatewayStatusSnapshot>,
) -> (r: SummaryCardModel)
    ensures
        gateway_card_spec(operator_state, deref_status(gateway_status), deref_cached_status(cached_gateway_status), r),
{
    if operator_state == OperatorConnectionState::Disconnected {
        if let Some(snapshot) = cached_gateway_status {
            return SummaryCardModel {
                title: "Gateway",
                value: level_value_exec(snapshot.level),
                detail: concat3("Last known gateway status: ", snapshot.summary.as_str(),
                    " Daneel is retrying the backend connection."),
                accent_class: level_accent_exec(snapshot.level),
                stale: true,
            };
        }
        return SummaryCardModel {
            title: "Gateway",
            value: owned("Disconnected"),
            detail: owned("Waiting for the backend connection to recover before loading a fresh gateway snapshot."),
            accent_class: "text-rose-200",
            stale: false,
        };
    }
    match gateway_status {
        Some(Ok(snapshot)) => SummaryCardModel {
            title: "Gateway",
            value: level_value_exec(snapshot.level),
            detail: snapshot.summary.clone(),
            accent_class: level_accent_exec(snapshot.level),
            stale: false,
        },
        Some(Err(error)) => SummaryCardModel {
            title: "Gateway",
            value: owned("Unavailable"),
            detail: concat2("Gateway lookup failed: ", error.as_str()),
            accent_class: "text-amber-300",
            stale: false,
        },
        None => SummaryCardModel {
            title: "Gateway",
            value: owned("Loading"),
            detail: owned("Fetching the latest gateway health snapshot."),
            accent_class: "text-slate-200",
            stale: false,
        },
    }
}

/// The counts of a snapshot, as [`summarize_graph_snapshot`] gives them.
pub open spec fn summary_of(snapshot: AgentGraphSnapshot, s: GraphAssemblySummary) -> bool {
    s.agent_count == snapshot.nodes@.len() && s.active_agent_count == active_count(node_views(snapshot.nodes@))
        && s.edge_count == snapshot.edges@.len()
}

pub open spec fn zero_summary(s: GraphAssemblySummary) -> bool {
    s.agent_count == 0 && s.active_agent_count == 0 && s.edge_count == 0
}

/// The counts behind the summary cards: those of the last good snapshot while the
/// backend is disconnected, those of the current snapshot otherwise, and zeros when
/// there is none.
pub open spec fn graph_summary_spec(
    operator_state: OperatorConnectionState,
    graph_snapshot: Option<Result<AgentGraphSnapshot, String>>,
    cached: Option<AgentGraphSnapshot>,
    s: GraphAssemblySummary,
) -> bool {
    if operator_state == OperatorConnectionState::Disconnected {
        match cached {
            Some(snapshot) => summary_of(snapshot, s),
            None => zero_summary(s),
        }
    } else {
        match graph_snapshot {
            Some(Ok(snapshot)) => summary_of(snapshot, s),
            _ => zero_summary(s),
        }
    }
}

pub fn graph_summary_model(
    operator_state: OperatorConnectionState,
    graph_snapshot: Option<&Result<AgentGraphSnapshot, String>>,
    cached_graph_snapshot: Option<&AgentGraphSnapshot>,
) -> (r: GraphAssemblySummary)
    ensures
        graph_summary_spec(operator_state, deref_result(graph_snapshot), deref_snapshot(cached_graph_snapshot), r),
{
    let zero = GraphAssemblySummary { agent_count: 0, active_agent_count: 0, edge_count: 0 };
    if operator_state == OperatorConnectionState::Disconnected {
        return match cached_graph_snapshot {
            Some(snapshot) => summarize_graph_snapshot(snapshot),
            None => zero,
        };
    }
    match graph_snapshot {
        Some(Ok(snapshot)) => summarize_graph_snapshot(snapshot),
        _ => zero,
    }
}

fn count_text(n: usize) -> (r: String)
    ensures
        r@ == decimal(n as nat),
{
    let mut r = String::new();
    push_decimal(&mut r, n as u64);
    r
}

/// The four summary cards: the gateway card, then the agent, active-agent and
/// connection counts of [`graph_summary_spec`], stale while the backend is disconnected
/// and a cached snapshot stands in.
pub open spec fn summary_cards_spec(
    operator_state: OperatorConnectionState,
    gateway_status: Option<Result<GatewayStatusSnapshot, String>>,
    graph_snapshot: Option<Result<AgentGraphSnapshot, String>>,
    cached_status: Option<GatewayStatusSnapshot>,
    cached_graph: Option<AgentGraphSnapshot>,
    cards: Seq<SummaryCardModel>,
) -> bool {
    let stale = operator_state == OperatorConnectionState::Disconnected && cached_graph is Some;
    &&& cards.len() == 4
    &&& gateway_card_spec(operator_state, gateway_status, cached_status, cards[0])
    &&& exists|s: GraphAssemblySummary| #[trigger] graph_summary_spec(operator_state, graph_snapshot, cached_graph, s)
        && card_is(cards[1], "Agents"@, decimal(s.agent_count as nat), "Known nodes in the assembled snapshot."@,
            "text-sky-200"@, stale)
        && card_is(cards[2], "Active agents"@, decimal(s.active_agent_count as nat),
            "Nodes currently marked active by session state."@, "text-emerald-200"@, stale)
        && card_is(cards[3], "Connections"@, decimal(s.edge_count as nat),
            "Rendered relationships across routes and hints."@, "text-violet-200"@, stale)
}

pub fn build_summary_cards(
    operator_state: OperatorConnectionState,
    gateway_status: Option<&Result<GatewayStatusSnapshot, String>>,
    graph_snapshot: Option<&Result<AgentGraphSnapshot, String>>,
    cached_gateway_status: Option<&GatewayStatusSnapshot>,
    cached_graph_snapshot: Option<&AgentGraphSnapshot>,
) -> (r: Vec<SummaryCardModel>)
    ensures
        summary_cards_spec(operator_state, deref_status(gateway_status), deref_result(graph_snapshot),
            deref_cached_status(cached_gateway_status), deref_snapshot(cached_graph_snapshot), r@),
{
    let gateway = gateway_summary_card(operator_state, gateway_status, cached_gateway_status);
    let summary = graph_summary_model(operator_state, graph_snapshot, cached_graph_snapshot);
    let graph_stale = operator_state == OperatorConnectionState::Disconnected && cached_graph_snapshot.is_some();
    let mut cards: Vec<SummaryCardModel> = Vec::new();
    cards.push(gateway);
    cards.push(SummaryCardModel {
        title: "Agents",
        value: count_text(summary.agent_count),
        detail: owned("Known nodes in the assembled snapshot."),
        accent_class: "text-sky-200",
        stale: graph_stale,
    });
    cards.push(SummaryCardModel {
        title: "Active agents",
        value: count_text(summary.active_agent_count),
        detail: owned("Nodes currently marked active by session state."),
        accent_class: "text-emerald-200",
        stale: graph_stale,
    });
    cards.push(SummaryCardModel {
        title: "Connections",
        value: count_text(summary.edge_count),
        detail: owned("Rendered relationships across routes and hints."),
        accent_class: "text-violet-200",
        stale: graph_stale,
    });
    cards
}


pub const GATEWAY_BADGE_HEALTHY_CLASS: &'static str = "mt-3 inline-flex rounded-full border border-emerald-300/20 bg-emerald-300/10 px-3 py-1 text-xs font-semibold uppercase tracking-[0.2em] text-emerald-200";
pub const GATEWAY_BADGE_DEGRADED_CLASS: &'static str = "mt-3 inline-flex rounded-full border border-amber-400/20 bg-amber-400/10 px-3 py-1 text-xs font-semibold uppercase tracking-[0.2em] text-amber-400";

/// The class of the gateway status badge.
pub fn gateway_badge_class(level: GatewayLevel) -> (r: &'static str)
    ensures
        r@ == (match level {
            GatewayLevel::Healthy => GATEWAY_BADGE_HEALTHY_CLASS@,
            GatewayLevel::Degraded => GATEWAY_BADGE_DEGRADED_CLASS@,
        }),
{
    match level {
        GatewayLevel::Healthy => GATEWAY_BADGE_HEALTHY_CLASS,
        GatewayLevel::Degraded => GATEWAY_BADGE_DEGRADED_CLASS,
    }
}

/// The text of the gateway status badge: the level's name.
pub fn gateway_level_label(level: GatewayLevel) -> (r: &'static str)
    ensures
        r@ == level_value(level),
{
    match level {
        GatewayLevel::Healthy => "Healthy",
        GatewayLevel::Degraded => "Degraded",
    }
}

/// One line when the value is known, none otherwise.
pub open spec fn optional_line(prefix: Seq<char>, value: Option<u64>, suffix: Seq<char>) -> Seq<Seq<char>> {
    match value {
        Some(v) => seq![prefix + decimal(v as nat) + suffix],
        None => seq![],
    }
}

/// The connection lines of the gateway status card: the gateway URL, then the protocol
/// version, the state version and the uptime where the gateway reported them.
pub open spec fn gateway_lines_spec(snapshot: GatewayStatusSnapshot) -> Seq<Seq<char>> {
    seq!["Gateway URL: "@ + snapshot.gateway_url@]
        + optional_line("Protocol: v"@, match snapshot.protocol_version { Some(v) => Some(v as u64), None => None }, ""@)
        + optional_line("State version: "@, snapshot.state_version, ""@)
        + optional_line("Uptime: "@, snapshot.uptime_ms, " ms"@)
}

fn push_optional_line(lines: &mut Vec<String>, prefix: &str, value: Option<u64>, suffix: &str)
    ensures
        final(lines)@.map_values(|x: String| x@) == old(lines)@.map_values(|x: String| x@)
            + optional_line(prefix@, value, suffix@),
{
    match value {
        Some(v) => {
            let mut line = owned(prefix);
            push_decimal(&mut line, v);
            line.append(suffix);
            lines.push(line);
            assert(lines@.map_values(|x: String| x@) =~= old(lines)@.map_values(|x: String| x@)
                + optional_line(prefix@, value, suffix@));
        },
        None => {
            assert(lines@.map_values(|x: String| x@) =~= old(lines)@.map_values(|x: String| x@)
                + optional_line(prefix@, value, suffix@));
        },
    }
}

/// The connection lines of the gateway status card, as [`gateway_lines_spec`] lists them.
pub fn gateway_status_lines(snapshot: &GatewayStatusSnapshot) -> (r: Vec<String>)
    ensures
        r@.map_values(|x: String| x@) == gateway_lines_spec(*snapshot),
{
    let mut lines: Vec<String> = Vec::new();
    lines.push(concat2("Gateway URL: ", snapshot.gateway_url.as_str()));
    assert(lines@.map_values(|x: String| x@) =~= seq!["Gateway URL: "@ + snapshot.gateway_url@]);
    let protocol: Option<u64> = match snapshot.protocol_version {
        Some(v) => Some(v as u64),
        None => None,
    };
    push_optional_line(&mut lines, "Protocol: v", protocol, "");
    push_optional_line(&mut lines, "State version: ", snapshot.state_version, "");
    push_optional_line(&mut lines, "Uptime: ", snapshot.uptime_ms, " ms");
    lines
}


/// While the backend is not disconnected and the current request holds a snapshot, the
/// graph card is empty exactly when the snapshot has no agents, whatever its edges; a
/// snapshot with agents is shown as it is, not stale.
pub proof fn law_graph_card_empty_iff_no_agents(
    operator_state: OperatorConnectionState,
    snapshot: AgentGraphSnapshot,
    cached: Option<AgentGraphSnapshot>,
    view: GraphSnapshotView,
)
    requires
        operator_state != OperatorConnectionState::Disconnected,
        graph_view_spec(operator_state, Some(Ok(snapshot)), cached, view),
    ensures
        (view is Empty) <==> snapshot.nodes@.len() == 0,
        snapshot.nodes@.len() > 0 ==> (view matches GraphSnapshotView::Ready { snapshot: s, stale }
            && !stale
            && node_views(s.nodes@) == node_views(snapshot.nodes@)
            && edge_views(s.edges@) == edge_views(snapshot.edges@)
            && s.snapshot_ts == snapshot.snapshot_ts),
{
}

} // verus!
