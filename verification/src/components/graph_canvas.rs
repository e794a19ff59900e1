//! The grid on which the graph canvas places the agent cards, and how edges are drawn.
use vstd::prelude::*;
use crate::models::graph::{AgentEdgeKind, AgentNode};
use crate::text::str_eq;

verus! {

/// How many cards a row holds for `node_count` cards: all of one or two, three up to
/// nine, four beyond (an empty graph is laid out as one card).
pub open spec fn grid_columns(node_count: nat) -> nat {
    let n = if node_count == 0 { 1 } else { node_count };
    if n <= 2 { n } else if n <= 9 { 3 } else { 4 }
}

/// The number of rows: the cards divided by the columns, rounded up.
pub open spec fn grid_rows(node_count: nat) -> nat {
    let n = if node_count == 0 { 1nat } else { node_count };
    let c = grid_columns(node_count);
    ((n + c - 1) / c as int) as nat
}

/// The column and row counts of the card grid for `node_count` cards.
pub fn graph_layout_grid(node_count: usize) -> (r: (usize, usize))
    ensures
        r.0 == grid_columns(node_count as nat),
        r.1 == grid_rows(node_count as nat),
        r.0 >= 1,
        r.1 >= 1,
        r.0 * r.1 >= node_count,
{
    let n: usize = if node_count == 0 { 1 } else { node_count };
    let columns: usize = if n <= 2 { n } else if n <= 9 { 3 } else { 4 };
    let rows: usize = n / columns + if n % columns == 0 { 0 } else { 1 };
    proof {
        assert(rows == (n + columns - 1) / columns as int) by (nonlinear_arith)
            requires
                columns >= 1,
                rows == n / columns + if n % columns == 0 { 0int } else { 1int },
        {
        }
        assert(columns * rows >= n) by (nonlinear_arith)
            requires
                columns >= 1,
                rows == n / columns + if n % columns == 0 { 0int } else { 1int },
        {
        }
        assert(rows >= 1) by (nonlinear_arith)
            requires
                columns >= 1,
                n >= 1,
                rows == n / columns + if n % columns == 0 { 0int } else { 1int },
        {
        }
    }
    (columns, rows)
}

fn find_node(nodes: &Vec<AgentNode>, id: &str) -> (r: Option<usize>)
    ensures
        match r {
            Some(k) => k < nodes.len() && nodes@[k as int].id@ == id@
                && forall|m: int| 0 <= m < k ==> (#[trigger] nodes@[m]).id@ != id@,
            None => forall|m: int| 0 <= m < nodes.len() ==> (#[trigger] nodes@[m]).id@ != id@,
        },
{
    let mut k: usize = 0;
    while k < nodes.len()
        invariant
            k <= nodes.len(),
            forall|m: int| 0 <= m < k ==> (#[trigger] nodes@[m]).id@ != id@,
        decreases nodes.len() - k,
    {
        if str_eq(nodes[k].id.as_str(), id) {
            return Some(k);
        }
        k = k + 1;
    }
    None
}

/// The positions, among the placed cards, of the cards that an edge joins: the first
/// card of each id; none when either end has no card.
pub fn resolve_edge_nodes(nodes: &Vec<AgentNode>, source_id: &str, target_id: &str) -> (r: Option<(usize, usize)>)
    ensures
        match r {
            Some((s, t)) => s < nodes.len() && t < nodes.len()
                && nodes@[s as int].id@ == source_id@ && nodes@[t as int].id@ == target_id@
                && (forall|m: int| 0 <= m < s ==> (#[trigger] nodes@[m]).id@ != source_id@)
                && (forall|m: int| 0 <= m < t ==> (#[trigger] nodes@[m]).id@ != target_id@),
            None => (forall|m: int| 0 <= m < nodes.len() ==> (#[trigger] nodes@[m]).id@ != source_id@)
                || (forall|m: int| 0 <= m < nodes.len() ==> (#[trigger] nodes@[m]).id@ != target_id@),
        },
{
    let source = find_node(nodes, source_id)?;
    let target = find_node(nodes, target_id)?;
    Some((source, target))
}


/// The drawing class, colour, width and dash pattern of an edge of each kind. A gateway
/// routing edge is drawn as a routes-to edge, and a generic metadata hint as a
/// collaboration.
pub open spec fn edge_style(kind: AgentEdgeKind) -> (Seq<char>, Seq<char>, Seq<char>, Seq<char>) {
    match kind {
        AgentEdgeKind::RoutesTo | AgentEdgeKind::GatewayRouting => ("routes_to"@, "#67e8f9"@, "3"@, "0"@),
        AgentEdgeKind::WorksWithHint | AgentEdgeKind::MetadataHint => ("works_with_hint"@, "#c084fc"@, "2.5"@, "7 9"@),
        AgentEdgeKind::DelegatesToHint => ("delegates_to_hint"@, "#f59e0b"@, "2.5"@, "10 7"@),
    }
}

impl AgentEdgeKind {
    /// The class name of the edge's kind.
    pub fn css_name(&self) -> (r: &'static str)
        ensures
            r@ == edge_style(*self).0,
    {
        match self {
            AgentEdgeKind::RoutesTo | AgentEdgeKind::GatewayRouting => "routes_to",
            AgentEdgeKind::WorksWithHint | AgentEdgeKind::MetadataHint => "works_with_hint",
            AgentEdgeKind::DelegatesToHint => "delegates_to_hint",
        }
    }

    /// The stroke colour of the edge.
    pub fn stroke(&self) -> (r: &'static str)
        ensures
            r@ == edge_style(*self).1,
    {
        match self {
            AgentEdgeKind::RoutesTo | AgentEdgeKind::GatewayRouting => "#67e8f9",
            AgentEdgeKind::WorksWithHint | AgentEdgeKind::MetadataHint => "#c084fc",
            AgentEdgeKind::DelegatesToHint => "#f59e0b",
        }
    }

    /// The stroke width of the edge.
    pub fn stroke_width(&self) -> (r: &'static str)
        ensures
            r@ == edge_style(*self).2,
    {
        match self {
            AgentEdgeKind::RoutesTo | AgentEdgeKind::GatewayRouting => "3",
            AgentEdgeKind::WorksWithHint | AgentEdgeKind::MetadataHint => "2.5",
            AgentEdgeKind::DelegatesToHint => "2.5",
        }
    }

    /// The dash pattern of the edge: solid for routes, dashed for hints.
    pub fn stroke_dasharray(&self) -> (r: &'static str)
        ensures
            r@ == edge_style(*self).3,
    {
        match self {
            AgentEdgeKind::RoutesTo | AgentEdgeKind::GatewayRouting => "0",
            AgentEdgeKind::WorksWithHint | AgentEdgeKind::MetadataHint => "7 9",
            AgentEdgeKind::DelegatesToHint => "10 7",
        }
    }
}

} // verus!
