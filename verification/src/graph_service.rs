//! Assembly of the agent graph snapshot from gateway and metadata inputs.
use vstd::prelude::*;
use crate::models::graph::{
    AgentEdge, AgentEdgeKind, AgentGraphSnapshot, AgentNode, AgentStatus, EdgeView, NodeView,
    edge_views, node_views,
};
use crate::models::runtime::{ActiveSessionRecord, SessionView, session_views};
use crate::text::{chars_eq, chars_lt, chars_of, seq_lt, lemma_seq_lt_asymmetric,
    lemma_seq_lt_irreflexive, lemma_seq_lt_total, lemma_seq_lt_transitive, str_lt};

verus! {

#[derive(Clone, Copy, Debug, Default, PartialEq, Eq)]
pub struct GraphAssemblySummary {
    pub agent_count: usize,
    pub active_agent_count: usize,
    pub edge_count: usize,
}

#[derive(Clone, Debug, Default, PartialEq, Eq)]
pub struct GraphAssemblyInputs {
    pub agents: Vec<AgentNode>,
    pub gateway_edges: Vec<AgentEdge>,
    pub active_sessions: Vec<ActiveSessionRecord>,
    pub hint_edges: Vec<AgentEdge>,
}

// ---------------------------------------------------------------------------
// Specification
// ---------------------------------------------------------------------------

/// The agents keyed by id, as inserting them one after another into a map:
/// of several agents with one id, the last one stays.
pub open spec fn keyed_agents(agents: Seq<NodeView>) -> Map<Seq<char>, NodeView>
    decreases agents.len(),
{
    if agents.len() == 0 {
        Map::empty()
    } else {
        keyed_agents(agents.drop_last()).insert(agents.last().id, agents.last())
    }
}

/// The smaller of two optional ages; an absent age gives way to a present one.
pub open spec fn min_optional_age_spec(existing: Option<u64>, candidate: Option<u64>) -> Option<u64> {
    match (existing, candidate) {
        (Some(left), Some(right)) => Some(if left <= right { left } else { right }),
        (Some(left), None) => Some(left),
        (None, Some(right)) => Some(right),
        (None, None) => None,
    }
}

/// Active when a session runs, idle when some activity is known, unknown otherwise.
pub open spec fn derive_status_spec(latest_activity_age_ms: Option<u64>, active_session_count: u64) -> AgentStatus {
    if active_session_count > 0 {
        AgentStatus::Active
    } else if latest_activity_age_ms is Some {
        AgentStatus::Idle
    } else {
        AgentStatus::Unknown
    }
}

/// How many of the sessions belong to the agent `id`.
pub open spec fn session_count(sessions: Seq<SessionView>, id: Seq<char>) -> nat
    decreases sessions.len(),
{
    if sessions.len() == 0 {
        0
    } else {
        session_count(sessions.drop_last(), id) + if sessions.last().agent_id == id { 1nat } else { 0nat }
    }
}

/// The youngest age among the sessions of the agent `id`.
pub open spec fn youngest_session_age(sessions: Seq<SessionView>, id: Seq<char>) -> Option<u64>
    decreases sessions.len(),
{
    if sessions.len() == 0 {
        None
    } else if sessions.last().agent_id == id {
        min_optional_age_spec(youngest_session_age(sessions.drop_last(), id), sessions.last().age_ms)
    } else {
        youngest_session_age(sessions.drop_last(), id)
    }
}

/// A node with its session count, latest activity and status recomputed from the sessions.
pub open spec fn decorate_node(node: NodeView, sessions: Seq<SessionView>) -> NodeView {
    let count = session_count(sessions, node.id) as u64;
    let latest = min_optional_age_spec(node.latest_activity_age_ms, youngest_session_age(sessions, node.id));
    NodeView {
        active_session_count: count,
        latest_activity_age_ms: latest,
        status: derive_status_spec(latest, count),
        ..node
    }
}

/// Node ids strictly increase along the sequence.
pub open spec fn ids_strictly_sorted(nodes: Seq<NodeView>) -> bool {
    forall|i: int, j: int| 0 <= i < j < nodes.len() ==> seq_lt(#[trigger] nodes[i].id, #[trigger] nodes[j].id)
}

/// `nodes` holds exactly one node per key of `keyed`, in id order, each the keyed
/// agent decorated with the sessions.
pub open spec fn assembled_nodes(
    keyed: Map<Seq<char>, NodeView>,
    sessions: Seq<SessionView>,
    nodes: Seq<NodeView>,
) -> bool {
    &&& ids_strictly_sorted(nodes)
    &&& forall|k: int| 0 <= k < nodes.len() ==> #[trigger] keyed.contains_key(nodes[k].id)
        && nodes[k] == decorate_node(keyed[nodes[k].id], sessions)
    &&& forall|id: Seq<char>| #[trigger] keyed.contains_key(id) ==> exists|k: int| 0 <= k < nodes.len() && nodes[k].id == id
}

/// An edge joins two distinct known agents.
pub open spec fn valid_edge(e: EdgeView, known: Set<Seq<char>>) -> bool {
    e.source != e.target && known.contains(e.source) && known.contains(e.target)
}

/// Order of edges by source id, then target id.
pub open spec fn pair_lt(a: EdgeView, b: EdgeView) -> bool {
    seq_lt(a.source, b.source) || (a.source == b.source && seq_lt(a.target, b.target))
}

pub open spec fn pairs_strictly_sorted(edges: Seq<EdgeView>) -> bool {
    forall|i: int, j: int| 0 <= i < j < edges.len() ==> pair_lt(#[trigger] edges[i], #[trigger] edges[j])
}

/// Some valid edge among `edges` joins `source` to `target`.
pub open spec fn has_valid_pair(edges: Seq<EdgeView>, known: Set<Seq<char>>, source: Seq<char>, target: Seq<char>) -> bool {
    exists|i: int| 0 <= i < edges.len() && valid_edge(#[trigger] edges[i], known)
        && edges[i].source == source && edges[i].target == target
}

/// `e` is the first valid edge among `edges` that joins its pair.
#[verifier::opaque]
pub open spec fn first_valid_supplier(edges: Seq<EdgeView>, known: Set<Seq<char>>, e: EdgeView) -> bool {
    exists|i: int| 0 <= i < edges.len() && #[trigger] edges[i] == e && valid_edge(e, known)
        && !has_valid_pair(edges.take(i), known, e.source, e.target)
}

/// The edge `e` belongs to the normalized edges: for each pair that a valid gateway
/// edge joins, the first such gateway edge; for each pair that only valid hints join,
/// the first such hint. Each keeps its own kind.
pub open spec fn wanted_edge(
    known: Set<Seq<char>>,
    gateway: Seq<EdgeView>,
    hints: Seq<EdgeView>,
    e: EdgeView,
) -> bool {
    ||| first_valid_supplier(gateway, known, e)
    ||| first_valid_supplier(hints, known, e) && !has_valid_pair(gateway, known, e.source, e.target)
}

/// `edges` holds exactly the wanted edges, ordered by (source, target), one per pair.
pub open spec fn normalized_edges(
    known: Set<Seq<char>>,
    gateway: Seq<EdgeView>,
    hints: Seq<EdgeView>,
    edges: Seq<EdgeView>,
) -> bool {
    &&& pairs_strictly_sorted(edges)
    &&& forall|e: EdgeView| #[trigger] edges.contains(e) <==> wanted_edge(known, gateway, hints, e)
}

/// The snapshot assembled from the inputs at time `ts`.
pub open spec fn assembled_snapshot(
    agents: Seq<NodeView>,
    gateway: Seq<EdgeView>,
    sessions: Seq<SessionView>,
    hints: Seq<EdgeView>,
    ts: u64,
    nodes: Seq<NodeView>,
    edges: Seq<EdgeView>,
    snapshot_ts: u64,
) -> bool {
    &&& snapshot_ts == ts
    &&& assembled_nodes(keyed_agents(agents), sessions, nodes)
    &&& normalized_edges(keyed_agents(agents).dom(), gateway, hints, edges)
}

/// How many nodes are active.
pub open spec fn active_count(nodes: Seq<NodeView>) -> nat
    decreases nodes.len(),
{
    if nodes.len() == 0 {
        0
    } else {
        active_count(nodes.drop_last()) + if nodes.last().status == AgentStatus::Active { 1nat } else { 0nat }
    }
}

// ---------------------------------------------------------------------------
// Order lemmas
// ---------------------------------------------------------------------------

pub(crate) proof fn lemma_pair_lt_facts(a: EdgeView, b: EdgeView, c: EdgeView)
    ensures
        !pair_lt(a, a),
        pair_lt(a, b) ==> !pair_lt(b, a),
        pair_lt(a, b) && pair_lt(b, c) ==> pair_lt(a, c),
        !pair_lt(a, b) && !pair_lt(b, a) ==> a.source == b.source && a.target == b.target,
{
    lemma_seq_lt_irreflexive(a.source);
    lemma_seq_lt_irreflexive(a.target);
    lemma_seq_lt_asymmetric(a.source, b.source);
    lemma_seq_lt_asymmetric(a.target, b.target);
    lemma_seq_lt_transitive(a.source, b.source, c.source);
    lemma_seq_lt_transitive(a.target, b.target, c.target);
    lemma_seq_lt_total(a.source, b.source);
    lemma_seq_lt_total(a.target, b.target);
    if seq_lt(a.source, b.source) && b.source == c.source {
    }
}

// ---------------------------------------------------------------------------
// Executable functions
// ---------------------------------------------------------------------------

fn min_optional_age(existing: Option<u64>, candidate: Option<u64>) -> (r: Option<u64>)
    ensures
        r == min_optional_age_spec(existing, candidate),
{
    match (existing, candidate) {
        (Some(left), Some(right)) => Some(if left <= right { left } else { right }),
        (Some(left), None) => Some(left),
        (None, Some(right)) => Some(right),
        (None, None) => None,
    }
}

fn derive_status(latest_activity_age_ms: Option<u64>, active_session_count: u64) -> (r: AgentStatus)
    ensures
        r == derive_status_spec(latest_activity_age_ms, active_session_count),
{
    if active_session_count > 0 {
        AgentStatus::Active
    } else if latest_activity_age_ms.is_some() {
        AgentStatus::Idle
    } else {
        AgentStatus::Unknown
    }
}

proof fn lemma_ids_unique(v: Seq<NodeView>, i: int, j: int)
    requires
        ids_strictly_sorted(v),
        0 <= i < v.len(),
        0 <= j < v.len(),
        v[i].id == v[j].id,
    ensures
        i == j,
{
    if i < j {
        assert(seq_lt(v[i].id, v[j].id));
        lemma_seq_lt_irreflexive(v[i].id);
    } else if j < i {
        assert(seq_lt(v[j].id, v[i].id));
        lemma_seq_lt_irreflexive(v[i].id);
    }
}

proof fn lemma_sorted_insert(ov: Seq<NodeView>, p: int, a: NodeView)
    requires
        ids_strictly_sorted(ov),
        0 <= p <= ov.len(),
        forall|k: int| 0 <= k < p ==> seq_lt(#[trigger] ov[k].id, a.id),
        p < ov.len() ==> seq_lt(a.id, ov[p].id),
    ensures
        ids_strictly_sorted(ov.insert(p, a)),
        forall|k: int| 0 <= k < ov.len() ==> ov[k].id != a.id,
{
    let nw = ov.insert(p, a);
    assert forall|i: int, j: int| 0 <= i < j < nw.len() implies seq_lt(#[trigger] nw[i].id, #[trigger] nw[j].id) by {
        if j < p {
        } else if j == p {
        } else if i > p {
            assert(nw[i] == ov[i - 1] && nw[j] == ov[j - 1]);
        } else {
            assert(nw[j] == ov[j - 1]);
            if j - 1 > p {
                assert(seq_lt(ov[p].id, ov[j - 1].id));
                lemma_seq_lt_transitive(a.id, ov[p].id, ov[j - 1].id);
            }
            if i < p {
                lemma_seq_lt_transitive(nw[i].id, a.id, nw[j].id);
            }
        }
    }
    assert forall|k: int| 0 <= k < ov.len() implies ov[k].id != a.id by {
        lemma_seq_lt_irreflexive(a.id);
        if k > p {
            assert(seq_lt(ov[p].id, ov[k].id));
            lemma_seq_lt_transitive(a.id, ov[p].id, ov[k].id);
        }
    }
}

/// Inserts `agent` into id-sorted `nodes`, replacing a node with the same id.
fn insert_keyed(nodes: &mut Vec<AgentNode>, agent: &AgentNode)
    requires
        ids_strictly_sorted(node_views(old(nodes)@)),
    ensures
        ids_strictly_sorted(node_views(final(nodes)@)),
        node_views(final(nodes)@).contains(agent@),
        forall|k: int| 0 <= k < final(nodes)@.len() ==> #[trigger] node_views(final(nodes)@)[k] == agent@
            || (node_views(final(nodes)@)[k].id != agent@.id && node_views(old(nodes)@).contains(node_views(final(nodes)@)[k])),
        forall|m: int| 0 <= m < old(nodes)@.len() && #[trigger] node_views(old(nodes)@)[m].id != agent@.id ==>
            node_views(final(nodes)@).contains(node_views(old(nodes)@)[m]),
{
    let ghost old_nodes = nodes@;
    let ghost ov = node_views(old_nodes);
    let key = chars_of(agent.id.as_str());
    let mut p: usize = 0;
    while p < nodes.len()
        invariant
            nodes@ == old_nodes,
            ov == node_views(old_nodes),
            key@ == agent@.id,
            p <= nodes.len(),
            forall|k: int| 0 <= k < p ==> seq_lt(#[trigger] ov[k].id, agent@.id),
        ensures
            p <= nodes.len(),
            forall|k: int| 0 <= k < p ==> seq_lt(#[trigger] ov[k].id, agent@.id),
            p < nodes.len() ==> !seq_lt(ov[p as int].id, agent@.id),
        decreases nodes.len() - p,
    {
        let here = chars_of(nodes[p].id.as_str());
        if !chars_lt(&here, &key) {
            break;
        }
        p = p + 1;
    }
    let replace = if p < nodes.len() {
        let here = chars_of(nodes[p].id.as_str());
        chars_eq(&here, &key)
    } else {
        false
    };
    if replace {
        nodes.set(p, agent.copied());
        proof {
            let nw = node_views(nodes@);
            assert(nw =~= ov.update(p as int, agent@));
            assert forall|i: int, j: int| 0 <= i < j < nw.len() implies seq_lt(#[trigger] nw[i].id, #[trigger] nw[j].id) by {
                assert(nw[i].id == ov[i].id);
                assert(nw[j].id == ov[j].id);
            }
            assert(nw[p as int] == agent@);
            assert forall|m: int| 0 <= m < old_nodes.len() && #[trigger] ov[m].id != agent@.id implies nw.contains(ov[m]) by {
                assert(nw[m] == ov[m]);
            }
            assert forall|k: int| 0 <= k < nw.len() implies #[trigger] nw[k] == agent@
                || (nw[k].id != agent@.id && ov.contains(nw[k])) by {
                if k != p {
                    assert(nw[k] == ov[k]);
                    if nw[k].id == agent@.id {
                        lemma_ids_unique(ov, k, p as int);
                    }
                }
            }
        }
    } else {
        nodes.insert(p, agent.copied());
        proof {
            let nw = node_views(nodes@);
            assert(nw =~= ov.insert(p as int, agent@));
            if p < old_nodes.len() {
                lemma_seq_lt_total(ov[p as int].id, agent@.id);
            }
            lemma_sorted_insert(ov, p as int, agent@);
            assert(nw[p as int] == agent@);
            assert forall|m: int| 0 <= m < old_nodes.len() && #[trigger] ov[m].id != agent@.id implies nw.contains(ov[m]) by {
                if m < p {
                    assert(nw[m] == ov[m]);
                } else {
                    assert(nw[m + 1] == ov[m]);
                }
            }
            assert forall|k: int| 0 <= k < nw.len() implies #[trigger] nw[k] == agent@
                || (nw[k].id != agent@.id && ov.contains(nw[k])) by {
                if k < p {
                    assert(nw[k] == ov[k]);
                } else if k > p {
                    assert(nw[k] == ov[k - 1]);
                }
            }
        }
    }
}

/// The agents keyed by id and sorted by id, as [`keyed_agents`] describes.
fn key_agents(agents: &Vec<AgentNode>) -> (r: Vec<AgentNode>)
    ensures
        ids_strictly_sorted(node_views(r@)),
        forall|k: int| 0 <= k < r@.len() ==> #[trigger] keyed_agents(node_views(agents@)).contains_key(node_views(r@)[k].id)
            && keyed_agents(node_views(agents@))[node_views(r@)[k].id] == node_views(r@)[k],
        forall|id: Seq<char>| #[trigger] keyed_agents(node_views(agents@)).contains_key(id) ==>
            exists|k: int| 0 <= k < r@.len() && node_views(r@)[k].id == id,
{
    let ghost av = node_views(agents@);
    let mut r: Vec<AgentNode> = Vec::new();
    let mut i: usize = 0;
    while i < agents.len()
        invariant
            av == node_views(agents@),
            i <= agents.len(),
            ids_strictly_sorted(node_views(r@)),
            forall|k: int| 0 <= k < r@.len() ==> #[trigger] keyed_agents(av.take(i as int)).contains_key(node_views(r@)[k].id)
                && keyed_agents(av.take(i as int))[node_views(r@)[k].id] == node_views(r@)[k],
            forall|id: Seq<char>| #[trigger] keyed_agents(av.take(i as int)).contains_key(id) ==>
                exists|k: int| 0 <= k < r@.len() && node_views(r@)[k].id == id,
        decreases agents.len() - i,
    {
        let ghost ov = node_views(r@);
        let ghost before = keyed_agents(av.take(i as int));
        insert_keyed(&mut r, &agents[i]);
        proof {
            let a = agents@[i as int]@;
            assert(av.take(i + 1).drop_last() =~= av.take(i as int));
            assert(av.take(i + 1).last() == a);
            let after = keyed_agents(av.take(i + 1));
            assert(after == before.insert(a.id, a));
            let nv = node_views(r@);
            assert forall|k: int| 0 <= k < r@.len() implies #[trigger] after.contains_key(nv[k].id)
                && after[nv[k].id] == nv[k] by {
                if nv[k] != a {
                    let m = choose|m: int| 0 <= m < ov.len() && ov[m] == nv[k];
                    assert(before.contains_key(ov[m].id));
                }
            }
            assert forall|id: Seq<char>| #[trigger] after.contains_key(id) implies
                exists|k: int| 0 <= k < r@.len() && nv[k].id == id by {
                if id == a.id {
                    let k = choose|k: int| 0 <= k < nv.len() && nv[k] == a;
                    assert(nv[k].id == id);
                } else {
                    assert(before.contains_key(id));
                    let m = choose|m: int| 0 <= m < ov.len() && ov[m].id == id;
                    assert(ov[m].id != a.id);
                    assert(nv.contains(ov[m]));
                    let k = choose|k: int| 0 <= k < nv.len() && nv[k] == ov[m];
                    assert(nv[k].id == id);
                }
            }
        }
        i = i + 1;
    }
    assert(av.take(agents.len() as int) =~= av);
    assert forall|k: int| 0 <= k < r@.len() implies #[trigger] keyed_agents(av).contains_key(node_views(r@)[k].id)
        && keyed_agents(av)[node_views(r@)[k].id] == node_views(r@)[k] by {
        assert(keyed_agents(av.take(agents.len() as int)).contains_key(node_views(r@)[k].id));
    }
    r
}

/// The number of sessions of agent `id` and the youngest of their ages.
fn session_stats(sessions: &Vec<ActiveSessionRecord>, id: &String) -> (r: (u64, Option<u64>))
    ensures
        r.0 == session_count(session_views(sessions@), id@),
        r.1 == youngest_session_age(session_views(sessions@), id@),
{
    let ghost sv = session_views(sessions@);
    let mut count: u64 = 0;
    let mut youngest: Option<u64> = None;
    let mut j: usize = 0;
    while j < sessions.len()
        invariant
            sv == session_views(sessions@),
            j <= sessions.len(),
            count <= j,
            count == session_count(sv.take(j as int), id@),
            youngest == youngest_session_age(sv.take(j as int), id@),
        decreases sessions.len() - j,
    {
        assert(sv.take(j + 1).drop_last() =~= sv.take(j as int));
        assert(sv.take(j + 1).last() == sessions@[j as int]@);
        if sessions[j].agent_id == *id {
            count = count + 1;
            youngest = min_optional_age(youngest, sessions[j].age_ms);
        }
        j = j + 1;
    }
    assert(sv.take(sessions.len() as int) =~= sv);
    (count, youngest)
}

/// Recomputes session count, latest activity and status of every node from the sessions.
fn apply_active_sessions(nodes: Vec<AgentNode>, sessions: &Vec<ActiveSessionRecord>) -> (r: Vec<AgentNode>)
    ensures
        r@.len() == nodes@.len(),
        forall|k: int| 0 <= k < r@.len() ==> (#[trigger] r@[k])@ == decorate_node(nodes@[k]@, session_views(sessions@)),
{
    let mut r: Vec<AgentNode> = Vec::new();
    let mut k: usize = 0;
    while k < nodes.len()
        invariant
            k <= nodes.len(),
            r@.len() == k,
            forall|m: int| 0 <= m < k ==> (#[trigger] r@[m])@ == decorate_node(nodes@[m]@, session_views(sessions@)),
        decreases nodes.len() - k,
    {
        let node = &nodes[k];
        let (session_count, youngest_age) = session_stats(sessions, &node.id);
        let latest = min_optional_age(node.latest_activity_age_ms, youngest_age);
        let decorated = AgentNode {
            id: node.id.clone(),
            name: node.name.clone(),
            is_default: node.is_default,
            heartbeat_enabled: node.heartbeat_enabled,
            heartbeat_schedule: node.heartbeat_schedule.clone(),
            active_session_count: session_count,
            latest_activity_age_ms: latest,
            status: derive_status(latest, session_count),
        };
        r.push(decorated);
        k = k + 1;
    }
    r
}

/// The set of the ids in a list of strings.
pub open spec fn id_set(ids: Seq<String>) -> Set<Seq<char>> {
    Set::new(|s: Seq<char>| exists|k: int| 0 <= k < ids.len() && ids[k]@ == s)
}

pub(crate) fn contains_id(known_ids: &Vec<String>, id: &String) -> (r: bool)
    ensures
        r == id_set(known_ids@).contains(id@),
{
    let mut k: usize = 0;
    while k < known_ids.len()
        invariant
            k <= known_ids.len(),
            forall|m: int| 0 <= m < k ==> (#[trigger] known_ids@[m])@ != id@,
        decreases known_ids.len() - k,
    {
        if known_ids[k] == *id {
            return true;
        }
        k = k + 1;
    }
    false
}

fn is_valid_edge(edge: &AgentEdge, known_ids: &Vec<String>) -> (r: bool)
    ensures
        r == valid_edge(edge@, id_set(known_ids@)),
{
    edge.source_id != edge.target_id && contains_id(known_ids, &edge.source_id)
        && contains_id(known_ids, &edge.target_id)
}

/// Some edge joins `source` to `target`.
pub open spec fn has_pair(edges: Seq<EdgeView>, source: Seq<char>, target: Seq<char>) -> bool {
    exists|i: int| 0 <= i < edges.len() && (#[trigger] edges[i]).source == source && edges[i].target == target
}

fn edge_pair_lt(a: &AgentEdge, b: &AgentEdge) -> (r: bool)
    ensures
        r == pair_lt(a@, b@),
{
    str_lt(a.source_id.as_str(), b.source_id.as_str())
        || (a.source_id == b.source_id && str_lt(a.target_id.as_str(), b.target_id.as_str()))
}

proof fn lemma_pair_sorted_insert(ov: Seq<EdgeView>, p: int, e: EdgeView)
    requires
        pairs_strictly_sorted(ov),
        0 <= p <= ov.len(),
        forall|k: int| 0 <= k < p ==> pair_lt(#[trigger] ov[k], e),
        p < ov.len() ==> pair_lt(e, ov[p]),
    ensures
        pairs_strictly_sorted(ov.insert(p, e)),
        !has_pair(ov, e.source, e.target),
{
    let nw = ov.insert(p, e);
    assert forall|i: int, j: int| 0 <= i < j < nw.len() implies pair_lt(#[trigger] nw[i], #[trigger] nw[j]) by {
        if j < p {
        } else if j == p {
        } else if i > p {
            assert(nw[i] == ov[i - 1] && nw[j] == ov[j - 1]);
        } else {
            assert(nw[j] == ov[j - 1]);
            if j - 1 > p {
                assert(pair_lt(ov[p], ov[j - 1]));
                lemma_pair_lt_facts(e, ov[p], ov[j - 1]);
            }
            if i < p {
                lemma_pair_lt_facts(nw[i], e, nw[j]);
            }
        }
    }
    assert forall|k: int| 0 <= k < ov.len() implies !((#[trigger] ov[k]).source == e.source && ov[k].target == e.target) by {
        lemma_pair_lt_facts(e, e, e);
        if k > p {
            assert(pair_lt(ov[p], ov[k]));
            lemma_pair_lt_facts(e, ov[p], ov[k]);
        }
        if k < p {
            assert(pair_lt(ov[k], e));
        }
    }
}

/// Adds `e` to the pair-sorted `out` unless an edge with the same pair is there.
pub(crate) fn insert_edge(out: &mut Vec<AgentEdge>, e: AgentEdge)
    requires
        pairs_strictly_sorted(edge_views(old(out)@)),
    ensures
        pairs_strictly_sorted(edge_views(final(out)@)),
        forall|x: EdgeView| #[trigger] edge_views(final(out)@).contains(x) <==>
            (edge_views(old(out)@).contains(x) || (x == e@ && !has_pair(edge_views(old(out)@), e@.source, e@.target))),
{
    let ghost ov = edge_views(out@);
    let mut p: usize = 0;
    while p < out.len()
        invariant
            ov == edge_views(out@),
            p <= out.len(),
            forall|k: int| 0 <= k < p ==> pair_lt(#[trigger] ov[k], e@),
        ensures
            p <= out.len(),
            forall|k: int| 0 <= k < p ==> pair_lt(#[trigger] ov[k], e@),
            p < out.len() ==> !pair_lt(ov[p as int], e@),
        decreases out.len() - p,
    {
        if !edge_pair_lt(&out[p], &e) {
            break;
        }
        p = p + 1;
    }
    let same = p < out.len() && out[p].source_id == e.source_id && out[p].target_id == e.target_id;
    if same {
        assert(ov[p as int].source == e@.source && ov[p as int].target == e@.target);
        assert(has_pair(ov, e@.source, e@.target));
    } else {
        proof {
            if p < out.len() {
                lemma_pair_lt_facts(ov[p as int], e@, e@);
            }
            lemma_pair_sorted_insert(ov, p as int, e@);
        }
        out.insert(p, e);
        proof {
            let nw = edge_views(out@);
            assert(nw =~= ov.insert(p as int, e@));
            assert forall|x: EdgeView| #[trigger] nw.contains(x) <==> (ov.contains(x) || x == e@) by {
                if nw.contains(x) {
                    let k = choose|k: int| 0 <= k < nw.len() && nw[k] == x;
                    if k < p {
                        assert(ov[k] == x);
                    } else if k > p {
                        assert(ov[k - 1] == x);
                    }
                }
                if ov.contains(x) {
                    let k = choose|k: int| 0 <= k < ov.len() && ov[k] == x;
                    if k < p {
                        assert(nw[k] == x);
                    } else {
                        assert(nw[k + 1] == x);
                    }
                }
                if x == e@ {
                    assert(nw[p as int] == x);
                }
            }
        }
    }
}

/// The first valid edge of a pair in a longer prefix: the one of the shorter prefix, or
/// the next edge when it is valid and no earlier valid edge joins its pair.
pub proof fn lemma_first_supplier_step(s: Seq<EdgeView>, i: int, known: Set<Seq<char>>, x: EdgeView)
    requires
        0 <= i < s.len(),
    ensures
        first_valid_supplier(s.take(i + 1), known, x) <==> (first_valid_supplier(s.take(i), known, x)
            || (x == s[i] && valid_edge(x, known) && !has_valid_pair(s.take(i), known, x.source, x.target))),
{
    reveal(first_valid_supplier);
    let a = s.take(i + 1);
    let b = s.take(i);
    if first_valid_supplier(a, known, x) {
        let k = choose|k: int| 0 <= k < a.len() && #[trigger] a[k] == x && valid_edge(x, known)
            && !has_valid_pair(a.take(k), known, x.source, x.target);
        if k < i {
            assert(a.take(k) =~= b.take(k));
            assert(b[k] == a[k]);
        } else {
            assert(a.take(k) =~= b);
        }
    }
    if first_valid_supplier(b, known, x) {
        let k = choose|k: int| 0 <= k < b.len() && #[trigger] b[k] == x && valid_edge(x, known)
            && !has_valid_pair(b.take(k), known, x.source, x.target);
        assert(a.take(k) =~= b.take(k));
        assert(a[k] == b[k]);
    }
    if x == s[i] && valid_edge(x, known) && !has_valid_pair(b, known, x.source, x.target) {
        assert(a.take(i) =~= b);
        assert(a[i] == x);
    }
}

/// Where a valid edge joins a pair, some edge is the first valid one to join it.
pub proof fn lemma_first_supplier_exists(s: Seq<EdgeView>, known: Set<Seq<char>>, source: Seq<char>, target: Seq<char>)
    -> (k: int)
    requires
        has_valid_pair(s, known, source, target),
    ensures
        0 <= k < s.len(),
        s[k].source == source && s[k].target == target,
        first_valid_supplier(s, known, s[k]),
    decreases s.len(),
{
    reveal(first_valid_supplier);
    let front = s.drop_last();
    if has_valid_pair(front, known, source, target) {
        let k = lemma_first_supplier_exists(front, known, source, target);
        assert(s.take(k) =~= front.take(k));
        assert(s[k] == front[k]);
        k
    } else {
        let i = choose|i: int| 0 <= i < s.len() && valid_edge(#[trigger] s[i], known) && s[i].source == source
            && s[i].target == target;
        if i < s.len() - 1 {
            assert(front[i] == s[i]);
        }
        let k = s.len() - 1;
        assert(s.take(k) =~= front);
        assert(s[k] == s[i]);
        k
    }
}

/// A first valid supplier is a valid edge that joins its own pair.
pub proof fn lemma_first_supplier_joins(s: Seq<EdgeView>, known: Set<Seq<char>>, x: EdgeView)
    requires
        first_valid_supplier(s, known, x),
    ensures
        valid_edge(x, known),
        has_valid_pair(s, known, x.source, x.target),
        s.contains(x),
{
    reveal(first_valid_supplier);
    let k = choose|k: int| 0 <= k < s.len() && #[trigger] s[k] == x && valid_edge(x, known)
        && !has_valid_pair(s.take(k), known, x.source, x.target);
    assert(s[k] == x);
}

/// The valid edges, from the gateway and then from metadata, one per (source, target)
/// pair, the first valid edge of each pair kept with its kind and a gateway edge
/// preferred, ordered by pair.
fn normalize_edges(known_ids: &Vec<String>, gateway_edges: &Vec<AgentEdge>, hint_edges: &Vec<AgentEdge>) -> (r: Vec<AgentEdge>)
    ensures
        normalized_edges(id_set(known_ids@), edge_views(gateway_edges@), edge_views(hint_edges@), edge_views(r@)),
{
    let mut out = first_gateway_edges(known_ids, gateway_edges);
    add_first_hint_edges(&mut out, known_ids, Ghost(edge_views(gateway_edges@)), hint_edges);
    out
}

proof fn lemma_first_step(ov: Seq<EdgeView>, nw: Seq<EdgeView>, gw: Seq<EdgeView>, i: int, known: Set<Seq<char>>)
    requires
        0 <= i < gw.len(),
        forall|x: EdgeView| #[trigger] ov.contains(x) <==> first_valid_supplier(gw.take(i), known, x),
        valid_edge(gw[i], known) ==> forall|x: EdgeView| #[trigger] nw.contains(x) <==>
            (ov.contains(x) || (x == gw[i] && !has_pair(ov, gw[i].source, gw[i].target))),
        !valid_edge(gw[i], known) ==> nw == ov,
    ensures
        forall|x: EdgeView| #[trigger] nw.contains(x) <==> first_valid_supplier(gw.take(i + 1), known, x),
{
    let e = gw[i];
    let g = gw.take(i);
    if has_pair(ov, e.source, e.target) {
        let k = choose|k: int| 0 <= k < ov.len() && (#[trigger] ov[k]).source == e.source && ov[k].target == e.target;
        assert(ov.contains(ov[k]));
        lemma_first_supplier_joins(g, known, ov[k]);
    }
    if has_valid_pair(g, known, e.source, e.target) {
        let k = lemma_first_supplier_exists(g, known, e.source, e.target);
        assert(ov.contains(g[k]));
        let m = choose|m: int| 0 <= m < ov.len() && ov[m] == g[k];
        assert(ov[m].source == e.source && ov[m].target == e.target);
    }
    assert forall|x: EdgeView| #[trigger] nw.contains(x) <==> first_valid_supplier(gw.take(i + 1), known, x) by {
        lemma_first_supplier_step(gw, i, known, x);
    }
}

/// For each pair that a valid gateway edge joins, the first such edge, ordered by pair.
fn first_gateway_edges(known_ids: &Vec<String>, gateway_edges: &Vec<AgentEdge>) -> (r: Vec<AgentEdge>)
    ensures
        pairs_strictly_sorted(edge_views(r@)),
        forall|x: EdgeView| #[trigger] edge_views(r@).contains(x) <==>
            first_valid_supplier(edge_views(gateway_edges@), id_set(known_ids@), x),
{
    let ghost known = id_set(known_ids@);
    let ghost gw = edge_views(gateway_edges@);
    let mut out: Vec<AgentEdge> = Vec::new();
    assert forall|x: EdgeView| #[trigger] edge_views(out@).contains(x) <==> first_valid_supplier(gw.take(0), known, x) by {
        if first_valid_supplier(gw.take(0), known, x) {
            lemma_first_supplier_joins(gw.take(0), known, x);
        }
    }
    let mut i: usize = 0;
    while i < gateway_edges.len()
        invariant
            known == id_set(known_ids@),
            gw == edge_views(gateway_edges@),
            i <= gateway_edges.len(),
            pairs_strictly_sorted(edge_views(out@)),
            forall|x: EdgeView| #[trigger] edge_views(out@).contains(x) <==> first_valid_supplier(gw.take(i as int), known, x),
        decreases gateway_edges.len() - i,
    {
        let edge = &gateway_edges[i];
        let ghost ov = edge_views(out@);
        assert(gw[i as int] == edge@);
        if is_valid_edge(edge, known_ids) {
            insert_edge(&mut out, edge.copied());
        }
        proof { lemma_first_step(ov, edge_views(out@), gw, i as int, known); }
        i = i + 1;
    }
    assert(gw.take(gateway_edges.len() as int) =~= gw);
    out
}

/// The edges kept after the gateway edges and the first hints.
pub open spec fn kept_after_hints(gw: Seq<EdgeView>, hs: Seq<EdgeView>, known: Set<Seq<char>>, x: EdgeView) -> bool {
    first_valid_supplier(gw, known, x) || first_valid_supplier(hs, known, x) && !has_valid_pair(gw, known, x.source, x.target)
}

proof fn lemma_kept_pairs(ov: Seq<EdgeView>, gw: Seq<EdgeView>, hs: Seq<EdgeView>, known: Set<Seq<char>>,
    src: Seq<char>, tgt: Seq<char>)
    requires
        forall|x: EdgeView| #[trigger] ov.contains(x) <==> kept_after_hints(gw, hs, known, x),
    ensures
        has_pair(ov, src, tgt) <==> (has_valid_pair(gw, known, src, tgt) || has_valid_pair(hs, known, src, tgt)),
{
    if has_pair(ov, src, tgt) {
        let k = choose|k: int| 0 <= k < ov.len() && (#[trigger] ov[k]).source == src && ov[k].target == tgt;
        assert(ov.contains(ov[k]));
        if first_valid_supplier(gw, known, ov[k]) {
            lemma_first_supplier_joins(gw, known, ov[k]);
        } else {
            lemma_first_supplier_joins(hs, known, ov[k]);
        }
    }
    if has_valid_pair(gw, known, src, tgt) {
        let k = lemma_first_supplier_exists(gw, known, src, tgt);
        assert(kept_after_hints(gw, hs, known, gw[k]));
        assert(ov.contains(gw[k]));
        let m = choose|m: int| 0 <= m < ov.len() && ov[m] == gw[k];
        assert(ov[m].source == src && ov[m].target == tgt);
    } else if has_valid_pair(hs, known, src, tgt) {
        let k = lemma_first_supplier_exists(hs, known, src, tgt);
        assert(kept_after_hints(gw, hs, known, hs[k]));
        assert(ov.contains(hs[k]));
        let m = choose|m: int| 0 <= m < ov.len() && ov[m] == hs[k];
        assert(ov[m].source == src && ov[m].target == tgt);
    }
}

proof fn lemma_kept_step(ov: Seq<EdgeView>, nw: Seq<EdgeView>, gw: Seq<EdgeView>, hs: Seq<EdgeView>, j: int,
    known: Set<Seq<char>>)
    requires
        0 <= j < hs.len(),
        forall|x: EdgeView| #[trigger] ov.contains(x) <==> kept_after_hints(gw, hs.take(j), known, x),
        valid_edge(hs[j], known) ==> forall|x: EdgeView| #[trigger] nw.contains(x) <==>
            (ov.contains(x) || (x == hs[j] && !has_pair(ov, hs[j].source, hs[j].target))),
        !valid_edge(hs[j], known) ==> nw == ov,
    ensures
        forall|x: EdgeView| #[trigger] nw.contains(x) <==> kept_after_hints(gw, hs.take(j + 1), known, x),
{
    let e = hs[j];
    lemma_kept_pairs(ov, gw, hs.take(j), known, e.source, e.target);
    assert forall|x: EdgeView| #[trigger] nw.contains(x) <==> kept_after_hints(gw, hs.take(j + 1), known, x) by {
        lemma_first_supplier_step(hs, j, known, x);
        if first_valid_supplier(gw, known, x) {
            lemma_first_supplier_joins(gw, known, x);
        }
    }
}

/// Adds, for each pair that only valid hints join, the first such hint, keeping the
/// order by pair.
fn add_first_hint_edges(out: &mut Vec<AgentEdge>, known_ids: &Vec<String>, Ghost(gw): Ghost<Seq<EdgeView>>,
    hint_edges: &Vec<AgentEdge>)
    requires
        pairs_strictly_sorted(edge_views(old(out)@)),
        forall|x: EdgeView| #[trigger] edge_views(old(out)@).contains(x) <==> first_valid_supplier(gw, id_set(known_ids@), x),
    ensures
        normalized_edges(id_set(known_ids@), gw, edge_views(hint_edges@), edge_views(final(out)@)),
{
    let ghost known = id_set(known_ids@);
    let ghost hs = edge_views(hint_edges@);
    assert(hs.take(0) =~= Seq::<EdgeView>::empty());
    assert forall|x: EdgeView| #[trigger] edge_views(out@).contains(x) <==> kept_after_hints(gw, hs.take(0), known, x) by {
        if first_valid_supplier(hs.take(0), known, x) {
            lemma_first_supplier_joins(hs.take(0), known, x);
        }
    }
    let mut j: usize = 0;
    while j < hint_edges.len()
        invariant
            known == id_set(known_ids@),
            hs == edge_views(hint_edges@),
            j <= hint_edges.len(),
            pairs_strictly_sorted(edge_views(out@)),
            forall|x: EdgeView| #[trigger] edge_views(out@).contains(x) <==> kept_after_hints(gw, hs.take(j as int), known, x),
        decreases hint_edges.len() - j,
    {
        let edge = &hint_edges[j];
        let ghost ov = edge_views(out@);
        assert(hs[j as int] == edge@);
        if is_valid_edge(edge, known_ids) {
            insert_edge(out, edge.copied());
        }
        proof { lemma_kept_step(ov, edge_views(out@), gw, hs, j as int, known); }
        j = j + 1;
    }
    assert(hs.take(hint_edges.len() as int) =~= hs);
    assert forall|x: EdgeView| #[trigger] edge_views(out@).contains(x) <==> wanted_edge(known, gw, hs, x) by {}
}

/// Builds the graph snapshot: the agents keyed by id (the last of several with one id
/// stays) and sorted by id, each decorated with its active sessions, and the gateway
/// edges and metadata hint edges between known agents, normalized, each with its own
/// kind.
pub fn assemble_graph_snapshot(inputs: GraphAssemblyInputs, snapshot_ts: u64) -> (r: AgentGraphSnapshot)
    ensures
        assembled_snapshot(
            node_views(inputs.agents@),
            edge_views(inputs.gateway_edges@),
            session_views(inputs.active_sessions@),
            edge_views(inputs.hint_edges@),
            snapshot_ts,
            node_views(r.nodes@),
            edge_views(r.edges@),
            r.snapshot_ts,
        ),
{
    let ghost av = node_views(inputs.agents@);
    let ghost sv = session_views(inputs.active_sessions@);
    let keyed = key_agents(&inputs.agents);
    let ghost kv = node_views(keyed@);
    let nodes = apply_active_sessions(keyed, &inputs.active_sessions);
    let ghost nv = node_views(nodes@);
    assert(forall|k: int| 0 <= k < nv.len() ==> nv[k] == decorate_node(kv[k], sv));
    let mut known_ids: Vec<String> = Vec::new();
    let mut k: usize = 0;
    while k < nodes.len()
        invariant
            nv == node_views(nodes@),
            k <= nodes.len(),
            known_ids@.len() == k,
            forall|m: int| 0 <= m < k ==> (#[trigger] known_ids@[m])@ == nv[m].id,
        decreases nodes.len() - k,
    {
        known_ids.push(nodes[k].id.clone());
        k = k + 1;
    }
    proof {
        let keyed_map = keyed_agents(av);
        assert forall|id: Seq<char>| id_set(known_ids@).contains(id) <==> keyed_map.dom().contains(id) by {
            if id_set(known_ids@).contains(id) {
                let m = choose|m: int| 0 <= m < known_ids@.len() && known_ids@[m]@ == id;
                assert(nv[m].id == kv[m].id);
                assert(keyed_map.contains_key(kv[m].id));
            }
            if keyed_map.dom().contains(id) {
                assert(keyed_map.contains_key(id));
                let m = choose|m: int| 0 <= m < kv.len() && kv[m].id == id;
                assert(known_ids@[m]@ == id);
            }
        }
        assert(id_set(known_ids@) =~= keyed_map.dom());
        assert forall|i: int, j: int| 0 <= i < j < nv.len() implies seq_lt(#[trigger] nv[i].id, #[trigger] nv[j].id) by {
            assert(seq_lt(kv[i].id, kv[j].id));
        }
        assert forall|m: int| 0 <= m < nv.len() implies #[trigger] keyed_map.contains_key(nv[m].id)
            && nv[m] == decorate_node(keyed_map[nv[m].id], sv) by {
            assert(keyed_map.contains_key(kv[m].id));
        }
        assert forall|id: Seq<char>| #[trigger] keyed_map.contains_key(id) implies
            exists|m: int| 0 <= m < nv.len() && nv[m].id == id by {
            let m = choose|m: int| 0 <= m < kv.len() && kv[m].id == id;
            assert(nv[m].id == id);
        }
    }
    let edges = normalize_edges(&known_ids, &inputs.gateway_edges, &inputs.hint_edges);
    AgentGraphSnapshot { nodes, edges, snapshot_ts }
}

/// Node, active-node and edge counts of a snapshot.
pub fn summarize_graph_snapshot(snapshot: &AgentGraphSnapshot) -> (r: GraphAssemblySummary)
    ensures
        r.agent_count == snapshot.nodes@.len(),
        r.active_agent_count == active_count(node_views(snapshot.nodes@)),
        r.edge_count == snapshot.edges@.len(),
{
    let ghost nv = node_views(snapshot.nodes@);
    let mut active: usize = 0;
    let mut k: usize = 0;
    while k < snapshot.nodes.len()
        invariant
            nv == node_views(snapshot.nodes@),
            k <= snapshot.nodes.len(),
            active <= k,
            active == active_count(nv.take(k as int)),
        decreases snapshot.nodes.len() - k,
    {
        assert(nv.take(k + 1).drop_last() =~= nv.take(k as int));
        assert(nv.take(k + 1).last() == snapshot.nodes@[k as int]@);
        if snapshot.nodes[k].status == AgentStatus::Active {
            active = active + 1;
        }
        k = k + 1;
    }
    assert(nv.take(snapshot.nodes.len() as int) =~= nv);
    GraphAssemblySummary {
        agent_count: snapshot.nodes.len(),
        active_agent_count: active,
        edge_count: snapshot.edges.len(),
    }
}

} // verus!
