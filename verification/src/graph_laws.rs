//! Properties of graph assembly that hold for every input.
use vstd::prelude::*;
use crate::graph_service::{assembled_nodes, assembled_snapshot, decorate_node, first_valid_supplier, has_valid_pair,
    ids_strictly_sorted, keyed_agents, lemma_first_supplier_exists, lemma_first_supplier_joins, lemma_pair_lt_facts,
    min_optional_age_spec, normalized_edges, pair_lt, pairs_strictly_sorted, session_count, valid_edge, wanted_edge,
    youngest_session_age};
use crate::models::graph::{AgentStatus, EdgeView, NodeView};
use crate::models::runtime::SessionView;
use crate::text::{seq_lt, lemma_seq_lt_asymmetric, lemma_seq_lt_irreflexive, lemma_seq_lt_total,
    lemma_seq_lt_transitive};

verus! {


proof fn lemma_sorted_edges_equal(s1: Seq<EdgeView>, s2: Seq<EdgeView>)
    requires
        pairs_strictly_sorted(s1),
        pairs_strictly_sorted(s2),
        forall|x: EdgeView| s1.contains(x) <==> s2.contains(x),
    ensures
        s1 == s2,
    decreases s1.len() + s2.len(),
{
    if s1.len() == 0 {
        if s2.len() > 0 {
            assert(s2.contains(s2[0]));
        }
        assert(s1 =~= s2);
    } else if s2.len() == 0 {
        assert(s1.contains(s1[0]));
    } else {
        let a = s1[0];
        let b = s2[0];
        assert(s1.contains(a));
        assert(s2.contains(b));
        let i = choose|i: int| 0 <= i < s1.len() && s1[i] == b;
        let j = choose|j: int| 0 <= j < s2.len() && s2[j] == a;
        if a != b {
            assert(i > 0 && j > 0);
            assert(pair_lt(a, b));
            assert(pair_lt(b, a));
            lemma_pair_lt_facts(a, b, a);
        }
        let t1 = s1.drop_first();
        let t2 = s2.drop_first();
        assert forall|x: EdgeView| t1.contains(x) <==> t2.contains(x) by {
            if t1.contains(x) {
                let k = choose|k: int| 0 <= k < t1.len() && t1[k] == x;
                assert(pair_lt(s1[0], s1[k + 1]));
                lemma_pair_lt_facts(x, x, x);
                assert(s2.contains(x));
                let m = choose|m: int| 0 <= m < s2.len() && s2[m] == x;
                assert(m != 0);
                assert(t2[m - 1] == x);
            }
            if t2.contains(x) {
                let k = choose|k: int| 0 <= k < t2.len() && t2[k] == x;
                assert(pair_lt(s2[0], s2[k + 1]));
                lemma_pair_lt_facts(x, x, x);
                assert(s1.contains(x));
                let m = choose|m: int| 0 <= m < s1.len() && s1[m] == x;
                assert(m != 0);
                assert(t1[m - 1] == x);
            }
        }
        assert forall|p: int, q: int| 0 <= p < q < t1.len() implies pair_lt(#[trigger] t1[p], #[trigger] t1[q]) by {
            assert(pair_lt(s1[p + 1], s1[q + 1]));
        }
        assert forall|p: int, q: int| 0 <= p < q < t2.len() implies pair_lt(#[trigger] t2[p], #[trigger] t2[q]) by {
            assert(pair_lt(s2[p + 1], s2[q + 1]));
        }
        lemma_sorted_edges_equal(t1, t2);
        assert(s1 =~= seq![a] + t1);
        assert(s2 =~= seq![b] + t2);
    }
}

/// The normalized edges are determined by their inputs: any two edge lists that
/// both meet the normalization contract for the same inputs are the same list.
pub proof fn law_normalized_edges_are_unique(
    known: Set<Seq<char>>,
    gateway: Seq<EdgeView>,
    hints: Seq<EdgeView>,
    edges1: Seq<EdgeView>,
    edges2: Seq<EdgeView>,
)
    requires
        normalized_edges(known, gateway, hints, edges1),
        normalized_edges(known, gateway, hints, edges2),
    ensures
        edges1 == edges2,
{
    assert forall|x: EdgeView| edges1.contains(x) <==> edges2.contains(x) by {
        assert(edges1.contains(x) <==> wanted_edge(known, gateway, hints, x));
        assert(edges2.contains(x) <==> wanted_edge(known, gateway, hints, x));
    }
    lemma_sorted_edges_equal(edges1, edges2);
}

/// Among the valid edges of a list, edges that join the same pair have the same kind.
pub open spec fn one_kind_per_pair(edges: Seq<EdgeView>, known: Set<Seq<char>>) -> bool {
    forall|i: int, j: int| 0 <= i < edges.len() && 0 <= j < edges.len() && valid_edge(#[trigger] edges[i], known)
        && valid_edge(#[trigger] edges[j], known) && edges[i].source == edges[j].source
        && edges[i].target == edges[j].target ==> edges[i].kind == edges[j].kind
}

/// With one kind per pair, the first valid edge of a pair is any valid edge of the list.
proof fn lemma_supplier_when_one_kind(s: Seq<EdgeView>, known: Set<Seq<char>>, x: EdgeView)
    requires
        one_kind_per_pair(s, known),
    ensures
        first_valid_supplier(s, known, x) <==> (s.contains(x) && valid_edge(x, known)),
{
    if first_valid_supplier(s, known, x) {
        lemma_first_supplier_joins(s, known, x);
    }
    if s.contains(x) && valid_edge(x, known) {
        let m = choose|m: int| 0 <= m < s.len() && s[m] == x;
        assert(has_valid_pair(s, known, x.source, x.target));
        let k = lemma_first_supplier_exists(s, known, x.source, x.target);
        assert(s[k].kind == s[m].kind);
        assert(s[k] == x);
    }
}

proof fn lemma_one_kind_transfers(s: Seq<EdgeView>, t: Seq<EdgeView>, known: Set<Seq<char>>)
    requires
        one_kind_per_pair(s, known),
        forall|e: EdgeView| s.contains(e) <==> t.contains(e),
    ensures
        one_kind_per_pair(t, known),
{
    assert forall|i: int, j: int| 0 <= i < t.len() && 0 <= j < t.len() && valid_edge(#[trigger] t[i], known)
        && valid_edge(#[trigger] t[j], known) && t[i].source == t[j].source
        && t[i].target == t[j].target implies t[i].kind == t[j].kind by {
        assert(t.contains(t[i]));
        assert(t.contains(t[j]));
        let p = choose|p: int| 0 <= p < s.len() && s[p] == t[i];
        let q = choose|q: int| 0 <= q < s.len() && s[q] == t[j];
    }
}

/// The normalized edges do not depend on the order in which the gateway edges and the
/// hint edges arrive, nor on repeated entries, as long as no list offers one pair with
/// two kinds (then the first of them is kept, and order does matter).
pub proof fn law_edges_ignore_input_order(
    known: Set<Seq<char>>,
    gateway1: Seq<EdgeView>,
    gateway2: Seq<EdgeView>,
    hints1: Seq<EdgeView>,
    hints2: Seq<EdgeView>,
    edges1: Seq<EdgeView>,
    edges2: Seq<EdgeView>,
)
    requires
        one_kind_per_pair(gateway1, known),
        one_kind_per_pair(hints1, known),
        forall|e: EdgeView| gateway1.contains(e) <==> gateway2.contains(e),
        forall|e: EdgeView| hints1.contains(e) <==> hints2.contains(e),
        normalized_edges(known, gateway1, hints1, edges1),
        normalized_edges(known, gateway2, hints2, edges2),
    ensures
        edges1 == edges2,
{
    lemma_one_kind_transfers(gateway1, gateway2, known);
    lemma_one_kind_transfers(hints1, hints2, known);
    assert forall|s: Seq<EdgeView>, t: Seq<EdgeView>, src: Seq<char>, tgt: Seq<char>|
        (forall|e: EdgeView| s.contains(e) <==> t.contains(e)) && #[trigger] has_valid_pair(s, known, src, tgt)
        implies #[trigger] has_valid_pair(t, known, src, tgt) by {
        let i = choose|i: int| 0 <= i < s.len() && valid_edge(#[trigger] s[i], known) && s[i].source == src && s[i].target == tgt;
        assert(s.contains(s[i]));
        assert(t.contains(s[i]));
        let j = choose|j: int| 0 <= j < t.len() && t[j] == s[i];
        assert(valid_edge(t[j], known));
    }
    assert forall|x: EdgeView| edges1.contains(x) <==> edges2.contains(x) by {
        lemma_supplier_when_one_kind(gateway1, known, x);
        lemma_supplier_when_one_kind(gateway2, known, x);
        lemma_supplier_when_one_kind(hints1, known, x);
        lemma_supplier_when_one_kind(hints2, known, x);
        assert(has_valid_pair(gateway1, known, x.source, x.target) == has_valid_pair(gateway2, known, x.source, x.target));
        assert(edges1.contains(x) <==> wanted_edge(known, gateway1, hints1, x));
        assert(edges2.contains(x) <==> wanted_edge(known, gateway2, hints2, x));
    }
    lemma_sorted_edges_equal(edges1, edges2);
}

/// Every normalized edge joins two distinct known agents, and no two normalized
/// edges join the same pair.
pub proof fn law_edges_join_distinct_known_agents(
    known: Set<Seq<char>>,
    gateway: Seq<EdgeView>,
    hints: Seq<EdgeView>,
    edges: Seq<EdgeView>,
)
    requires
        normalized_edges(known, gateway, hints, edges),
    ensures
        forall|i: int| 0 <= i < edges.len() ==> (#[trigger] edges[i]).source != edges[i].target
            && known.contains(edges[i].source) && known.contains(edges[i].target),
        forall|i: int, j: int| 0 <= i < j < edges.len() ==>
            !((#[trigger] edges[i]).source == (#[trigger] edges[j]).source && edges[i].target == edges[j].target),
{
    assert forall|i: int| 0 <= i < edges.len() implies (#[trigger] edges[i]).source != edges[i].target
        && known.contains(edges[i].source) && known.contains(edges[i].target) by {
        assert(edges.contains(edges[i]));
        let x = edges[i];
        if first_valid_supplier(gateway, known, x) {
            lemma_first_supplier_joins(gateway, known, x);
        } else {
            lemma_first_supplier_joins(hints, known, x);
        }
    }
    assert forall|i: int, j: int| 0 <= i < j < edges.len() implies
        !((#[trigger] edges[i]).source == (#[trigger] edges[j]).source && edges[i].target == edges[j].target) by {
        assert(pair_lt(edges[i], edges[j]));
        lemma_pair_lt_facts(edges[i], edges[j], edges[i]);
        lemma_seq_lt_irreflexive(edges[i].source);
        lemma_seq_lt_irreflexive(edges[i].target);
    }
}

/// A gateway edge wins over a metadata hint for the same pair: when some valid gateway
/// edge joins a pair, the normalized edges hold an edge for that pair, and it is the
/// first valid gateway edge of that pair, with its own kind.
pub proof fn law_gateway_edge_preferred_over_hint(
    known: Set<Seq<char>>,
    gateway: Seq<EdgeView>,
    hints: Seq<EdgeView>,
    edges: Seq<EdgeView>,
    source: Seq<char>,
    target: Seq<char>,
)
    requires
        normalized_edges(known, gateway, hints, edges),
        has_valid_pair(gateway, known, source, target),
    ensures
        exists|x: EdgeView| #[trigger] edges.contains(x) && x.source == source && x.target == target,
        forall|x: EdgeView| #[trigger] edges.contains(x) && x.source == source && x.target == target
            ==> first_valid_supplier(gateway, known, x),
{
    let k = lemma_first_supplier_exists(gateway, known, source, target);
    assert(wanted_edge(known, gateway, hints, gateway[k]));
    assert(edges.contains(gateway[k]));
}

/// A node is active exactly when at least one session of its agent is reported.
pub proof fn law_active_iff_sessions(node: NodeView, sessions: Seq<SessionView>)
    requires
        session_count(sessions, node.id) <= u64::MAX,
    ensures
        (decorate_node(node, sessions).status == AgentStatus::Active) <==> session_count(sessions, node.id) > 0,
        decorate_node(node, sessions).active_session_count == session_count(sessions, node.id),
{
}

/// The ids in the keyed map are exactly the ids of the agents.
pub proof fn lemma_keyed_agents_dom(agents: Seq<NodeView>, id: Seq<char>)
    ensures
        keyed_agents(agents).contains_key(id) <==> exists|i: int| 0 <= i < agents.len() && agents[i].id == id,
    decreases agents.len(),
{
    if agents.len() > 0 {
        let front = agents.drop_last();
        lemma_keyed_agents_dom(front, id);
        if exists|i: int| 0 <= i < front.len() && front[i].id == id {
            let i = choose|i: int| 0 <= i < front.len() && front[i].id == id;
            assert(agents[i] == front[i]);
        }
        if exists|i: int| 0 <= i < agents.len() && agents[i].id == id {
            let i = choose|i: int| 0 <= i < agents.len() && agents[i].id == id;
            if i < agents.len() - 1 {
                assert(front[i] == agents[i]);
            }
        }
    }
}

/// The graph has one node per agent id and no other: sessions of unknown agents create
/// no node.
pub proof fn law_nodes_are_exactly_the_agents(agents: Seq<NodeView>, sessions: Seq<SessionView>, nodes: Seq<NodeView>)
    requires
        assembled_nodes(keyed_agents(agents), sessions, nodes),
    ensures
        forall|k: int| 0 <= k < nodes.len() ==> exists|i: int| 0 <= i < agents.len() && agents[i].id == (#[trigger] nodes[k]).id,
        forall|i: int| 0 <= i < agents.len() ==> exists|k: int| 0 <= k < nodes.len() && nodes[k].id == (#[trigger] agents[i]).id,
{
    assert forall|k: int| 0 <= k < nodes.len() implies exists|i: int| 0 <= i < agents.len() && agents[i].id == (#[trigger] nodes[k]).id by {
        lemma_keyed_agents_dom(agents, nodes[k].id);
    }
    assert forall|i: int| 0 <= i < agents.len() implies exists|k: int| 0 <= k < nodes.len() && nodes[k].id == (#[trigger] agents[i]).id by {
        lemma_keyed_agents_dom(agents, agents[i].id);
        assert(keyed_agents(agents).contains_key(agents[i].id));
    }
}

/// Agent ids are pairwise distinct.
pub open spec fn distinct_ids(agents: Seq<NodeView>) -> bool {
    forall|i: int, j: int| 0 <= i < j < agents.len() ==> (#[trigger] agents[i]).id != (#[trigger] agents[j]).id
}

proof fn lemma_keyed_agents_distinct(agents: Seq<NodeView>, i: int)
    requires
        distinct_ids(agents),
        0 <= i < agents.len(),
    ensures
        keyed_agents(agents).contains_key(agents[i].id),
        keyed_agents(agents)[agents[i].id] == agents[i],
    decreases agents.len(),
{
    let front = agents.drop_last();
    if i == agents.len() - 1 {
    } else {
        assert(front[i] == agents[i]);
        assert forall|p: int, q: int| 0 <= p < q < front.len() implies (#[trigger] front[p]).id != (#[trigger] front[q]).id by {
            assert(front[p] == agents[p] && front[q] == agents[q]);
        }
        lemma_keyed_agents_distinct(front, i);
        assert(agents.last().id != agents[i].id);
    }
}

proof fn lemma_sorted_nodes_equal(s1: Seq<NodeView>, s2: Seq<NodeView>)
    requires
        ids_strictly_sorted(s1),
        ids_strictly_sorted(s2),
        forall|x: NodeView| s1.contains(x) <==> s2.contains(x),
    ensures
        s1 == s2,
    decreases s1.len() + s2.len(),
{
    if s1.len() == 0 {
        if s2.len() > 0 {
            assert(s2.contains(s2[0]));
        }
        assert(s1 =~= s2);
    } else if s2.len() == 0 {
        assert(s1.contains(s1[0]));
    } else {
        let a = s1[0];
        let b = s2[0];
        assert(s1.contains(a));
        assert(s2.contains(b));
        let i = choose|i: int| 0 <= i < s1.len() && s1[i] == b;
        let j = choose|j: int| 0 <= j < s2.len() && s2[j] == a;
        if a != b {
            assert(i > 0 && j > 0);
            assert(seq_lt(a.id, b.id));
            assert(seq_lt(b.id, a.id));
            lemma_seq_lt_asymmetric(a.id, b.id);
        }
        let t1 = s1.drop_first();
        let t2 = s2.drop_first();
        assert forall|x: NodeView| t1.contains(x) <==> t2.contains(x) by {
            if t1.contains(x) {
                let k = choose|k: int| 0 <= k < t1.len() && t1[k] == x;
                assert(seq_lt(s1[0].id, s1[k + 1].id));
                lemma_seq_lt_irreflexive(x.id);
                assert(s2.contains(x));
                let m = choose|m: int| 0 <= m < s2.len() && s2[m] == x;
                assert(m != 0);
                assert(t2[m - 1] == x);
            }
            if t2.contains(x) {
                let k = choose|k: int| 0 <= k < t2.len() && t2[k] == x;
                assert(seq_lt(s2[0].id, s2[k + 1].id));
                lemma_seq_lt_irreflexive(x.id);
                assert(s1.contains(x));
                let m = choose|m: int| 0 <= m < s1.len() && s1[m] == x;
                assert(m != 0);
                assert(t1[m - 1] == x);
            }
        }
        assert forall|p: int, q: int| 0 <= p < q < t1.len() implies seq_lt(#[trigger] t1[p].id, #[trigger] t1[q].id) by {
            assert(seq_lt(s1[p + 1].id, s1[q + 1].id));
        }
        assert forall|p: int, q: int| 0 <= p < q < t2.len() implies seq_lt(#[trigger] t2[p].id, #[trigger] t2[q].id) by {
            assert(seq_lt(s2[p + 1].id, s2[q + 1].id));
        }
        lemma_sorted_nodes_equal(t1, t2);
        assert(s1 =~= seq![a] + t1);
        assert(s2 =~= seq![b] + t2);
    }
}

/// When agent ids are distinct, the assembled nodes do not depend on the order in
/// which the agents arrive.
pub proof fn law_nodes_ignore_agent_order(
    agents1: Seq<NodeView>,
    agents2: Seq<NodeView>,
    sessions: Seq<SessionView>,
    nodes1: Seq<NodeView>,
    nodes2: Seq<NodeView>,
)
    requires
        distinct_ids(agents1),
        distinct_ids(agents2),
        forall|a: NodeView| agents1.contains(a) <==> agents2.contains(a),
        assembled_nodes(keyed_agents(agents1), sessions, nodes1),
        assembled_nodes(keyed_agents(agents2), sessions, nodes2),
    ensures
        nodes1 == nodes2,
{
    let m1 = keyed_agents(agents1);
    let m2 = keyed_agents(agents2);
    assert forall|id: Seq<char>| m1.contains_key(id) implies m2.contains_key(id) && m1[id] == m2[id] by {
        lemma_keyed_agents_dom(agents1, id);
        let i = choose|i: int| 0 <= i < agents1.len() && agents1[i].id == id;
        lemma_keyed_agents_distinct(agents1, i);
        assert(agents1.contains(agents1[i]));
        let j = choose|j: int| 0 <= j < agents2.len() && agents2[j] == agents1[i];
        lemma_keyed_agents_distinct(agents2, j);
    }
    assert forall|id: Seq<char>| m2.contains_key(id) implies m1.contains_key(id) by {
        lemma_keyed_agents_dom(agents2, id);
        let j = choose|j: int| 0 <= j < agents2.len() && agents2[j].id == id;
        assert(agents2.contains(agents2[j]));
        let i = choose|i: int| 0 <= i < agents1.len() && agents1[i] == agents2[j];
        lemma_keyed_agents_dom(agents1, id);
    }
    assert(m1 =~= m2);
    assert forall|x: NodeView| nodes1.contains(x) <==> nodes2.contains(x) by {
        if nodes1.contains(x) {
            let k = choose|k: int| 0 <= k < nodes1.len() && nodes1[k] == x;
            assert(m1.contains_key(nodes1[k].id));
            let k2 = choose|k2: int| 0 <= k2 < nodes2.len() && nodes2[k2].id == x.id;
            assert(m2.contains_key(nodes2[k2].id));
        }
        if nodes2.contains(x) {
            let k = choose|k: int| 0 <= k < nodes2.len() && nodes2[k] == x;
            assert(m2.contains_key(nodes2[k].id));
            let k1 = choose|k1: int| 0 <= k1 < nodes1.len() && nodes1[k1].id == x.id;
            assert(m1.contains_key(nodes1[k1].id));
        }
    }
    lemma_sorted_nodes_equal(nodes1, nodes2);
}


/// Taking out the session at `j` takes its contribution out of an agent's count and
/// youngest age.
proof fn lemma_session_stats_remove(s: Seq<SessionView>, j: int, id: Seq<char>)
    requires
        0 <= j < s.len(),
    ensures
        session_count(s, id) == session_count(s.remove(j), id) + if s[j].agent_id == id { 1nat } else { 0nat },
        youngest_session_age(s, id) == if s[j].agent_id == id {
            min_optional_age_spec(youngest_session_age(s.remove(j), id), s[j].age_ms)
        } else {
            youngest_session_age(s.remove(j), id)
        },
    decreases s.len(),
{
    if j == s.len() - 1 {
        assert(s.remove(j) =~= s.drop_last());
    } else {
        let front = s.drop_last();
        lemma_session_stats_remove(front, j, id);
        let r = s.remove(j);
        assert(r.drop_last() =~= front.remove(j));
        assert(r.last() == s.last());
        assert(front[j] == s[j]);
    }
}

/// An agent's session count and youngest session age do not depend on the order of the
/// sessions.
pub proof fn law_session_stats_ignore_order(sessions1: Seq<SessionView>, sessions2: Seq<SessionView>, id: Seq<char>)
    requires
        sessions1.to_multiset() == sessions2.to_multiset(),
    ensures
        session_count(sessions1, id) == session_count(sessions2, id),
        youngest_session_age(sessions1, id) == youngest_session_age(sessions2, id),
    decreases sessions1.len(),
{
    broadcast use vstd::seq_lib::group_to_multiset_ensures;
    if sessions1.len() == 0 {
        assert(sessions1.to_multiset().len() == sessions1.len());
        assert(sessions2.to_multiset().len() == sessions2.len());
        assert(sessions2 =~= sessions1);
    } else {
        let x = sessions1.last();
        let front = sessions1.drop_last();
        assert(sessions1 =~= front.push(x));
        assert(sessions1.contains(x)) by {
            assert(sessions1[sessions1.len() - 1] == x);
        }
        assert(sessions2.to_multiset().count(x) > 0);
        assert(sessions2.contains(x));
        let j = choose|j: int| 0 <= j < sessions2.len() && sessions2[j] == x;
        let rest = sessions2.remove(j);
        assert(rest.to_multiset() =~= sessions2.to_multiset().remove(x));
        assert(front.to_multiset() =~= sessions1.to_multiset().remove(x));
        law_session_stats_ignore_order(front, rest, id);
        lemma_session_stats_remove(sessions2, j, id);
    }
}

/// A node's decoration does not depend on the order of the sessions.
pub proof fn law_decoration_ignores_session_order(node: NodeView, sessions1: Seq<SessionView>, sessions2: Seq<SessionView>)
    requires
        sessions1.to_multiset() == sessions2.to_multiset(),
    ensures
        decorate_node(node, sessions1) == decorate_node(node, sessions2),
{
    law_session_stats_ignore_order(sessions1, sessions2, node.id);
}

/// When agent ids are distinct, the assembled snapshot does not depend on the order in
/// which agents, gateway edges, sessions and hints arrive, as long as no edge list offers
/// one pair with two kinds.
pub proof fn law_snapshot_ignores_input_order(
    agents1: Seq<NodeView>,
    agents2: Seq<NodeView>,
    gateway1: Seq<EdgeView>,
    gateway2: Seq<EdgeView>,
    sessions1: Seq<SessionView>,
    sessions2: Seq<SessionView>,
    hints1: Seq<EdgeView>,
    hints2: Seq<EdgeView>,
    ts: u64,
    nodes1: Seq<NodeView>,
    edges1: Seq<EdgeView>,
    snapshot_ts1: u64,
    nodes2: Seq<NodeView>,
    edges2: Seq<EdgeView>,
    snapshot_ts2: u64,
)
    requires
        distinct_ids(agents1),
        distinct_ids(agents2),
        one_kind_per_pair(gateway1, keyed_agents(agents1).dom()),
        one_kind_per_pair(hints1, keyed_agents(agents1).dom()),
        agents1.to_multiset() == agents2.to_multiset(),
        gateway1.to_multiset() == gateway2.to_multiset(),
        sessions1.to_multiset() == sessions2.to_multiset(),
        hints1.to_multiset() == hints2.to_multiset(),
        assembled_snapshot(agents1, gateway1, sessions1, hints1, ts, nodes1, edges1, snapshot_ts1),
        assembled_snapshot(agents2, gateway2, sessions2, hints2, ts, nodes2, edges2, snapshot_ts2),
    ensures
        nodes1 == nodes2,
        edges1 == edges2,
        snapshot_ts1 == snapshot_ts2,
{
    broadcast use vstd::seq_lib::group_to_multiset_ensures;
    let m1 = keyed_agents(agents1);
    assert forall|a: NodeView| agents1.contains(a) <==> agents2.contains(a) by {
        assert(agents1.contains(a) <==> agents1.to_multiset().count(a) > 0);
        assert(agents2.contains(a) <==> agents2.to_multiset().count(a) > 0);
    }
    assert forall|e: EdgeView| gateway1.contains(e) <==> gateway2.contains(e) by {
        assert(gateway1.contains(e) <==> gateway1.to_multiset().count(e) > 0);
        assert(gateway2.contains(e) <==> gateway2.to_multiset().count(e) > 0);
    }
    assert forall|e: EdgeView| hints1.contains(e) <==> hints2.contains(e) by {
        assert(hints1.contains(e) <==> hints1.to_multiset().count(e) > 0);
        assert(hints2.contains(e) <==> hints2.to_multiset().count(e) > 0);
    }
    assert forall|k: int| 0 <= k < nodes2.len() implies #[trigger] keyed_agents(agents2).contains_key(nodes2[k].id)
        && nodes2[k] == decorate_node(keyed_agents(agents2)[nodes2[k].id], sessions1) by {
        law_decoration_ignores_session_order(keyed_agents(agents2)[nodes2[k].id], sessions1, sessions2);
    }
    assert(assembled_nodes(keyed_agents(agents2), sessions1, nodes2));
    law_nodes_ignore_agent_order(agents1, agents2, sessions1, nodes1, nodes2);
    assert(keyed_agents(agents1).dom() =~= keyed_agents(agents2).dom()) by {
        assert forall|id: Seq<char>| keyed_agents(agents1).contains_key(id) <==> keyed_agents(agents2).contains_key(id) by {
            lemma_keyed_agents_dom(agents1, id);
            lemma_keyed_agents_dom(agents2, id);
            if exists|i: int| 0 <= i < agents1.len() && agents1[i].id == id {
                let i = choose|i: int| 0 <= i < agents1.len() && agents1[i].id == id;
                assert(agents1.contains(agents1[i]));
                let j = choose|j: int| 0 <= j < agents2.len() && agents2[j] == agents1[i];
                assert(agents2[j].id == id);
            }
            if exists|j: int| 0 <= j < agents2.len() && agents2[j].id == id {
                let j = choose|j: int| 0 <= j < agents2.len() && agents2[j].id == id;
                assert(agents2.contains(agents2[j]));
                let i = choose|i: int| 0 <= i < agents1.len() && agents1[i] == agents2[j];
                assert(agents1[i].id == id);
            }
        }
    }
    law_edges_ignore_input_order(m1.dom(), gateway1, gateway2, hints1, hints2, edges1, edges2);
}

} // verus!
