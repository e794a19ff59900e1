//! Mapping of OpenClaw agent, binding and session payloads to the shared models.
use vstd::prelude::*;
use crate::graph_service::{has_pair, insert_edge, pairs_strictly_sorted};
use crate::json::{JsonValue, get_bool, get_str, get_u64, json_as_str, json_as_u64, json_get};
use crate::models::graph::{AgentEdge, AgentEdgeKind, AgentNode, AgentStatus, EdgeView, NodeView, edge_views};
use crate::models::runtime::{ActiveSessionRecord, SessionView, session_views};
use crate::text::{chars_lt, chars_of, owned, seq_lt, lemma_seq_lt_irreflexive, lemma_seq_lt_total,
    lemma_seq_lt_transitive};

verus! {

/// `heartbeat.enabled` (false when absent) and `heartbeat.every` (empty when absent).
pub open spec fn heartbeat_spec(agent: JsonValue) -> (bool, Seq<char>) {
    let heartbeat = json_get(agent, "heartbeat"@);
    (
        match get_bool(heartbeat, "enabled"@) { Some(b) => b, None => false },
        match get_str(heartbeat, "every"@) { Some(s) => s, None => Seq::empty() },
    )
}

/// The node for an agent payload whose `agentId` is `id`: `name` defaults to the id,
/// `isDefault` to false; no sessions, no activity, status unknown.
pub open spec fn agent_node_spec(agent: JsonValue, id: Seq<char>) -> NodeView {
    NodeView {
        id,
        name: match get_str(Some(agent), "name"@) { Some(n) => n, None => id },
        is_default: match get_bool(Some(agent), "isDefault"@) { Some(b) => b, None => false },
        heartbeat_enabled: heartbeat_spec(agent).0,
        heartbeat_schedule: heartbeat_spec(agent).1,
        active_session_count: 0,
        latest_activity_age_ms: None,
        status: AgentStatus::Unknown,
    }
}

pub fn map_heartbeat(agent: &JsonValue) -> (r: (bool, String))
    ensures
        r.0 == heartbeat_spec(*agent).0,
        r.1@ == heartbeat_spec(*agent).1,
{
    let heartbeat = agent.get("heartbeat");
    let (enabled, schedule) = match heartbeat {
        Some(h) => (h.get_bool("enabled"), h.get_string("every")),
        None => (None, None),
    };
    let enabled = match enabled { Some(b) => b, None => false };
    let schedule = match schedule { Some(s) => s, None => String::new() };
    (enabled, schedule)
}

/// The agent node for an OpenClaw agent payload; the payload must carry `agentId`.
pub fn map_agent_node(agent: &JsonValue) -> (r: Result<AgentNode, String>)
    ensures
        match r {
            Ok(node) => get_str(Some(*agent), "agentId"@) == Some(node@.id)
                && node@ == agent_node_spec(*agent, node@.id),
            Err(e) => get_str(Some(*agent), "agentId"@) is None
                && e@ == "OpenClaw agent payload is missing agentId."@,
        },
{
    let id = match agent.get_string("agentId") {
        Some(id) => id,
        None => return Err(owned("OpenClaw agent payload is missing agentId.")),
    };
    let name = match agent.get_string("name") {
        Some(n) => n,
        None => id.clone(),
    };
    let is_default = match agent.get_bool("isDefault") {
        Some(b) => b,
        None => false,
    };
    let (heartbeat_enabled, heartbeat_schedule) = map_heartbeat(agent);
    Ok(AgentNode {
        id,
        name,
        is_default,
        heartbeat_enabled,
        heartbeat_schedule,
        active_session_count: 0,
        latest_activity_age_ms: None,
        status: AgentStatus::Unknown,
    })
}

/// The routes-to edge for a binding payload, or the error for its first missing id.
pub open spec fn binding_edge_spec(binding: JsonValue) -> Result<EdgeView, Seq<char>> {
    match get_str(Some(binding), "sourceAgentId"@) {
        None => Err("OpenClaw binding payload is missing sourceAgentId."@),
        Some(source) => match get_str(Some(binding), "targetAgentId"@) {
            None => Err("OpenClaw binding payload is missing targetAgentId."@),
            Some(target) => Ok(EdgeView { source, target, kind: AgentEdgeKind::RoutesTo }),
        },
    }
}

pub fn map_binding_edge(binding: &JsonValue) -> (r: Result<AgentEdge, String>)
    ensures
        match r {
            Ok(edge) => binding_edge_spec(*binding) == Ok::<EdgeView, Seq<char>>(edge@),
            Err(e) => binding_edge_spec(*binding) == Err::<EdgeView, Seq<char>>(e@),
        },
{
    let source_id = match binding.get_string("sourceAgentId") {
        Some(s) => s,
        None => return Err(owned("OpenClaw binding payload is missing sourceAgentId.")),
    };
    let target_id = match binding.get_string("targetAgentId") {
        Some(t) => t,
        None => return Err(owned("OpenClaw binding payload is missing targetAgentId.")),
    };
    Ok(AgentEdge { source_id, target_id, kind: AgentEdgeKind::RoutesTo })
}

/// The rank of an edge kind among edges of one pair: routes first, then delegations,
/// then collaborations.
pub fn edge_kind_rank(kind: &AgentEdgeKind) -> (r: u8)
    ensures
        r == (match *kind {
            AgentEdgeKind::RoutesTo | AgentEdgeKind::GatewayRouting => 0u8,
            AgentEdgeKind::DelegatesToHint | AgentEdgeKind::MetadataHint => 1u8,
            AgentEdgeKind::WorksWithHint => 2u8,
        }),
{
    match kind {
        AgentEdgeKind::RoutesTo | AgentEdgeKind::GatewayRouting => 0,
        AgentEdgeKind::DelegatesToHint | AgentEdgeKind::MetadataHint => 1,
        AgentEdgeKind::WorksWithHint => 2,
    }
}

/// The error of the first binding that does not map, if any.
pub open spec fn first_binding_error(bindings: Seq<JsonValue>) -> Option<Seq<char>>
    decreases bindings.len(),
{
    if bindings.len() == 0 {
        None
    } else {
        match first_binding_error(bindings.drop_last()) {
            Some(e) => Some(e),
            None => match binding_edge_spec(bindings.last()) {
                Err(e) => Some(e),
                Ok(_) => None,
            },
        }
    }
}

/// The binding maps to an edge joining `source` to `target`.
pub open spec fn binding_edge_joins(binding: JsonValue, source: Seq<char>, target: Seq<char>) -> bool {
    match binding_edge_spec(binding) {
        Ok(e) => e.source == source && e.target == target,
        Err(_) => false,
    }
}

/// Some binding maps to an edge joining `source` to `target`.
pub open spec fn binding_joins(bindings: Seq<JsonValue>, source: Seq<char>, target: Seq<char>) -> bool {
    exists|i: int| 0 <= i < bindings.len() && #[trigger] binding_edge_joins(bindings[i], source, target)
}

/// All bindings as routes-to edges, one per (source, target) pair, ordered by pair; the
/// error of the first binding that does not map otherwise.
pub fn normalize_binding_edges(bindings: &[JsonValue]) -> (r: Result<Vec<AgentEdge>, String>)
    ensures
        match r {
            Err(e) => first_binding_error(bindings@) == Some(e@),
            Ok(edges) => first_binding_error(bindings@) is None
                && pairs_strictly_sorted(edge_views(edges@))
                && forall|x: EdgeView| #[trigger] edge_views(edges@).contains(x) <==>
                    (x.kind == AgentEdgeKind::RoutesTo && binding_joins(bindings@, x.source, x.target)),
        },
{
    let mut out: Vec<AgentEdge> = Vec::new();
    let mut i: usize = 0;
    while i < bindings.len()
        invariant
            i <= bindings.len(),
            first_binding_error(bindings@.take(i as int)) is None,
            pairs_strictly_sorted(edge_views(out@)),
            forall|x: EdgeView| #[trigger] edge_views(out@).contains(x) <==>
                (x.kind == AgentEdgeKind::RoutesTo && binding_joins(bindings@.take(i as int), x.source, x.target)),
        decreases bindings.len() - i,
    {
        let ghost pre = bindings@.take(i as int);
        let ghost next = bindings@.take(i + 1);
        assert(next.drop_last() =~= pre);
        assert(next.last() == bindings@[i as int]);
        let ghost ov = edge_views(out@);
        let mapped = map_binding_edge(&bindings[i]);
        match mapped {
            Err(e) => {
                assert(bindings@ =~= bindings@.take(bindings@.len() as int));
                proof { lemma_first_error_prefix(bindings@, i + 1); }
                return Err(e);
            },
            Ok(edge) => {
                let ghost ev = edge@;
                insert_edge(&mut out, edge);
                proof {
                    let nw = edge_views(out@);
                    assert forall|x: EdgeView| #[trigger] nw.contains(x) <==>
                        (x.kind == AgentEdgeKind::RoutesTo && binding_joins(next, x.source, x.target)) by {
                        if binding_joins(next, x.source, x.target) {
                            let k = choose|k: int| 0 <= k < next.len() && #[trigger] binding_edge_joins(next[k], x.source, x.target);
                            if k < i {
                                assert(pre[k] == next[k]);
                                assert(binding_joins(pre, x.source, x.target));
                            }
                        }
                        if binding_joins(pre, x.source, x.target) {
                            let k = choose|k: int| 0 <= k < pre.len() && #[trigger] binding_edge_joins(pre[k], x.source, x.target);
                            assert(next[k] == pre[k]);
                        }
                        if x.kind == AgentEdgeKind::RoutesTo && x.source == ev.source && x.target == ev.target {
                            assert(x == ev);
                            assert(binding_edge_joins(next[i as int], x.source, x.target));
                            if has_pair(ov, ev.source, ev.target) {
                                let k = choose|k: int| 0 <= k < ov.len() && (#[trigger] ov[k]).source == ev.source && ov[k].target == ev.target;
                                assert(ov.contains(ov[k]));
                                assert(ov[k] == ev);
                            }
                        }
                    }
                }
            },
        }
        i = i + 1;
    }
    assert(bindings@.take(bindings@.len() as int) =~= bindings@);
    Ok(out)
}

proof fn lemma_first_error_prefix(bindings: Seq<JsonValue>, n: int)
    requires
        0 < n <= bindings.len(),
        first_binding_error(bindings.take(n)) is Some,
    ensures
        first_binding_error(bindings) == first_binding_error(bindings.take(n)),
    decreases bindings.len() - n,
{
    if n < bindings.len() {
        let next = bindings.take(n + 1);
        assert(next.drop_last() =~= bindings.take(n));
        lemma_first_error_prefix(bindings, n + 1);
    } else {
        assert(bindings.take(n) =~= bindings);
    }
}

/// A session payload as a record: `sessionId` (or else `key`) must be a string, and
/// `agentId` (or else the fallback) must be given; `task` is optional; the age is
/// `ageMs`, or else `age`, when it is an unsigned integer.
pub open spec fn session_record_spec(session: JsonValue, fallback_agent_id: Option<Seq<char>>) -> Result<SessionView, Seq<char>> {
    let session_id = match json_get(session, "sessionId"@) {
        Some(v) => json_as_str(v),
        None => get_str(Some(session), "key"@),
    };
    let agent_id = match get_str(Some(session), "agentId"@) {
        Some(a) => Some(a),
        None => fallback_agent_id,
    };
    match session_id {
        None => Err("OpenClaw session payload is missing sessionId."@),
        Some(session_id) => match agent_id {
            None => Err("OpenClaw session payload is missing agentId."@),
            Some(agent_id) => Ok(SessionView {
                session_id,
                agent_id,
                task: get_str(Some(session), "task"@),
                age_ms: match json_get(session, "ageMs"@) {
                    Some(v) => json_as_u64(v),
                    None => get_u64(Some(session), "age"@),
                },
            }),
        },
    }
}

/// The characters of an optional string slice.
pub open spec fn opt_str_chars(o: Option<&str>) -> Option<Seq<char>> {
    match o {
        Some(s) => Some(s@),
        None => None,
    }
}

pub fn map_active_session_record(session: &JsonValue, fallback_agent_id: Option<&str>) -> (r: Result<ActiveSessionRecord, String>)
    ensures
        match r {
            Ok(rec) => session_record_spec(*session, opt_str_chars(fallback_agent_id)) == Ok::<SessionView, Seq<char>>(rec@),
            Err(e) => session_record_spec(*session, opt_str_chars(fallback_agent_id)) == Err::<SessionView, Seq<char>>(e@),
        },
{
    let id_value = match session.get("sessionId") {
        Some(v) => Some(v),
        None => session.get("key"),
    };
    let session_id = match id_value {
        Some(v) => match v.as_str() {
            Some(s) => s.clone(),
            None => return Err(owned("OpenClaw session payload is missing sessionId.")),
        },
        None => return Err(owned("OpenClaw session payload is missing sessionId.")),
    };
    let agent_id = match session.get_string("agentId") {
        Some(a) => a,
        None => match fallback_agent_id {
            Some(f) => owned(f),
            None => return Err(owned("OpenClaw session payload is missing agentId.")),
        },
    };
    let task = session.get_string("task");
    let age_value = match session.get("ageMs") {
        Some(v) => Some(v),
        None => session.get("age"),
    };
    let age_ms = match age_value {
        Some(v) => v.as_u64(),
        None => None,
    };
    Ok(ActiveSessionRecord { session_id, agent_id, task, age_ms })
}

/// Session ids strictly increase along the sequence.
pub open spec fn session_ids_sorted(records: Seq<SessionView>) -> bool {
    forall|i: int, j: int| 0 <= i < j < records.len() ==> seq_lt(#[trigger] records[i].session_id, #[trigger] records[j].session_id)
}

/// Some record carries the session id.
pub open spec fn has_session_id(records: Seq<SessionView>, id: Seq<char>) -> bool {
    exists|i: int| 0 <= i < records.len() && (#[trigger] records[i]).session_id == id
}

/// `x` is the first record with its session id.
pub open spec fn first_of_its_id(records: Seq<SessionView>, x: SessionView) -> bool {
    exists|i: int| 0 <= i < records.len() && records[i] == x
        && !has_session_id(records.take(i), x.session_id)
}

proof fn lemma_session_sorted_insert(ov: Seq<SessionView>, p: int, e: SessionView)
    requires
        session_ids_sorted(ov),
        0 <= p <= ov.len(),
        forall|k: int| 0 <= k < p ==> seq_lt(#[trigger] ov[k].session_id, e.session_id),
        p < ov.len() ==> seq_lt(e.session_id, ov[p].session_id),
    ensures
        session_ids_sorted(ov.insert(p, e)),
        !has_session_id(ov, e.session_id),
{
    let nw = ov.insert(p, e);
    assert forall|i: int, j: int| 0 <= i < j < nw.len() implies seq_lt(#[trigger] nw[i].session_id, #[trigger] nw[j].session_id) by {
        if j < p {
        } else if j == p {
        } else if i > p {
            assert(nw[i] == ov[i - 1] && nw[j] == ov[j - 1]);
        } else {
            assert(nw[j] == ov[j - 1]);
            if j - 1 > p {
                assert(seq_lt(ov[p].session_id, ov[j - 1].session_id));
                lemma_seq_lt_transitive(e.session_id, ov[p].session_id, ov[j - 1].session_id);
            }
            if i < p {
                lemma_seq_lt_transitive(nw[i].session_id, e.session_id, nw[j].session_id);
            }
        }
    }
    assert forall|k: int| 0 <= k < ov.len() implies (#[trigger] ov[k]).session_id != e.session_id by {
        lemma_seq_lt_irreflexive(e.session_id);
        if k > p {
            assert(seq_lt(ov[p].session_id, ov[k].session_id));
            lemma_seq_lt_transitive(e.session_id, ov[p].session_id, ov[k].session_id);
        }
    }
}

/// Adds `rec` to the id-sorted `out` unless a record with its session id is there.
fn insert_session(out: &mut Vec<ActiveSessionRecord>, rec: ActiveSessionRecord)
    requires
        session_ids_sorted(session_views(old(out)@)),
    ensures
        session_ids_sorted(session_views(final(out)@)),
        forall|x: SessionView| #[trigger] session_views(final(out)@).contains(x) <==>
            (session_views(old(out)@).contains(x) || (x == rec@ && !has_session_id(session_views(old(out)@), rec@.session_id))),
{
    let ghost ov = session_views(out@);
    let key = chars_of(rec.session_id.as_str());
    let mut p: usize = 0;
    while p < out.len()
        invariant
            ov == session_views(out@),
            key@ == rec@.session_id,
            p <= out.len(),
            forall|k: int| 0 <= k < p ==> seq_lt(#[trigger] ov[k].session_id, rec@.session_id),
        ensures
            p <= out.len(),
            forall|k: int| 0 <= k < p ==> seq_lt(#[trigger] ov[k].session_id, rec@.session_id),
            p < out.len() ==> !seq_lt(ov[p as int].session_id, rec@.session_id),
        decreases out.len() - p,
    {
        let here = chars_of(out[p].session_id.as_str());
        if !chars_lt(&here, &key) {
            break;
        }
        p = p + 1;
    }
    let same = p < out.len() && out[p].session_id == rec.session_id;
    if same {
        assert(ov[p as int].session_id == rec@.session_id);
        assert(has_session_id(ov, rec@.session_id));
    } else {
        proof {
            if p < out.len() {
                lemma_seq_lt_total(ov[p as int].session_id, rec@.session_id);
            }
            lemma_session_sorted_insert(ov, p as int, rec@);
        }
        out.insert(p, rec);
        proof {
            let nw = session_views(out@);
            assert(nw =~= ov.insert(p as int, rec@));
            assert forall|x: SessionView| #[trigger] nw.contains(x) <==> (ov.contains(x) || x == rec@) by {
                if nw.contains(x) {
                    let k = choose|k: int| 0 <= k < nw.len() && nw[k] == x;
                    if k < p {
                        assert(ov[k] == x);
                    } else if k > p {
                        assert(ov[k - 1] == x);
                    }
                }
                if ov.contains(x) {
                    let k = choose|k: int| 0 <= k < ov.len() && ov[k] == x;
                    if k < p {
                        assert(nw[k] == x);
                    } else {
                        assert(nw[k + 1] == x);
                    }
                }
                if x == rec@ {
                    assert(nw[p as int] == x);
                }
            }
        }
    }
}

/// The records ordered by session id, keeping for each session id the first record
/// that carries it.
pub fn normalize_active_session_records(records: Vec<ActiveSessionRecord>) -> (r: Result<Vec<ActiveSessionRecord>, String>)
    ensures
        r matches Ok(out) && session_ids_sorted(session_views(out@))
            && forall|x: SessionView| #[trigger] session_views(out@).contains(x) <==> first_of_its_id(session_views(records@), x),
{
    let ghost rv = session_views(records@);
    let mut out: Vec<ActiveSessionRecord> = Vec::new();
    let mut i: usize = 0;
    while i < records.len()
        invariant
            rv == session_views(records@),
            i <= records.len(),
            session_ids_sorted(session_views(out@)),
            forall|x: SessionView| #[trigger] session_views(out@).contains(x) <==> first_of_its_id(rv.take(i as int), x),
        decreases records.len() - i,
    {
        let ghost ov = session_views(out@);
        let ghost pre = rv.take(i as int);
        let ghost next = rv.take(i + 1);
        let ghost rec = rv[i as int];
        assert(records@[i as int]@ == rec);
        assert(next.take(i as int) =~= pre);
        proof {
            // the id of the new record is present in `out` exactly when an earlier record carries it
            if has_session_id(pre, rec.session_id) {
                let j0 = choose|j: int| 0 <= j < pre.len() && (#[trigger] pre[j]).session_id == rec.session_id;
                let j = lemma_first_index(pre, rec.session_id, j0);
                assert(first_of_its_id(pre, pre[j]));
                assert(ov.contains(pre[j]));
                let k = choose|k: int| 0 <= k < ov.len() && ov[k] == pre[j];
                assert(ov[k].session_id == rec.session_id);
            }
            if has_session_id(ov, rec.session_id) {
                let k = choose|k: int| 0 <= k < ov.len() && (#[trigger] ov[k]).session_id == rec.session_id;
                assert(ov.contains(ov[k]));
                let j = choose|j: int| 0 <= j < pre.len() && pre[j] == ov[k] && !has_session_id(pre.take(j), ov[k].session_id);
                assert(pre[j].session_id == rec.session_id);
            }
        }
        insert_session(&mut out, records[i].copied());
        proof {
            let nw = session_views(out@);
            assert forall|x: SessionView| #[trigger] nw.contains(x) <==> first_of_its_id(next, x) by {
                if first_of_its_id(next, x) {
                    let j = choose|j: int| 0 <= j < next.len() && next[j] == x && !has_session_id(next.take(j), x.session_id);
                    if j < i {
                        assert(pre[j] == x);
                        assert(next.take(j) =~= pre.take(j));
                        assert(first_of_its_id(pre, x));
                    } else {
                        assert(x == rec);
                        assert(next.take(j) =~= pre);
                    }
                }
                if first_of_its_id(pre, x) {
                    let j = choose|j: int| 0 <= j < pre.len() && pre[j] == x && !has_session_id(pre.take(j), x.session_id);
                    assert(next[j] == x);
                    assert(next.take(j) =~= pre.take(j));
                }
                if x == rec && !has_session_id(pre, rec.session_id) {
                    assert(next[i as int] == x);
                    assert(next.take(i as int) =~= pre);
                }
            }
        }
        i = i + 1;
    }
    assert(rv.take(records.len() as int) =~= rv);
    Ok(out)
}

/// The first index carrying `id`, given some index carrying it.
proof fn lemma_first_index(s: Seq<SessionView>, id: Seq<char>, j: int) -> (f: int)
    requires
        0 <= j < s.len(),
        s[j].session_id == id,
    ensures
        0 <= f <= j,
        s[f].session_id == id,
        !has_session_id(s.take(f), id),
    decreases j,
{
    if has_session_id(s.take(j), id) {
        let k = choose|k: int| 0 <= k < s.take(j).len() && (#[trigger] s.take(j)[k]).session_id == id;
        assert(s[k].session_id == id);
        lemma_first_index(s, id, k)
    } else {
        j
    }
}

/// The records of the session payloads, in order, or the error of the first payload
/// that does not map.
pub open spec fn session_records_spec(sessions: Seq<JsonValue>, fallback_agent_id: Option<Seq<char>>) -> Result<Seq<SessionView>, Seq<char>>
    decreases sessions.len(),
{
    if sessions.len() == 0 {
        Ok(Seq::empty())
    } else {
        match session_records_spec(sessions.drop_last(), fallback_agent_id) {
            Err(e) => Err(e),
            Ok(rs) => match session_record_spec(sessions.last(), fallback_agent_id) {
                Err(e) => Err(e),
                Ok(rec) => Ok(rs.push(rec)),
            },
        }
    }
}

proof fn lemma_records_error_prefix(sessions: Seq<JsonValue>, fallback: Option<Seq<char>>, n: int)
    requires
        0 < n <= sessions.len(),
        session_records_spec(sessions.take(n), fallback) is Err,
    ensures
        session_records_spec(sessions, fallback) == session_records_spec(sessions.take(n), fallback),
    decreases sessions.len() - n,
{
    if n < sessions.len() {
        assert(sessions.take(n + 1).drop_last() =~= sessions.take(n));
        lemma_records_error_prefix(sessions, fallback, n + 1);
    } else {
        assert(sessions.take(n) =~= sessions);
    }
}

/// Maps each session payload with the fallback agent id; the error of the first payload
/// that does not map otherwise.
pub fn map_session_records(sessions: &[JsonValue], fallback_agent_id: Option<&str>) -> (r: Result<Vec<ActiveSessionRecord>, String>)
    ensures
        match r {
            Ok(rs) => session_records_spec(sessions@, opt_str_chars(fallback_agent_id)) == Ok::<Seq<SessionView>, Seq<char>>(session_views(rs@)),
            Err(e) => session_records_spec(sessions@, opt_str_chars(fallback_agent_id)) == Err::<Seq<SessionView>, Seq<char>>(e@),
        },
{
    let ghost fb = opt_str_chars(fallback_agent_id);
    let mut out: Vec<ActiveSessionRecord> = Vec::new();
    let mut i: usize = 0;
    assert(sessions@.take(0) =~= Seq::<JsonValue>::empty());
    assert(session_views(out@) =~= Seq::<SessionView>::empty());
    while i < sessions.len()
        invariant
            fb == opt_str_chars(fallback_agent_id),
            i <= sessions.len(),
            session_records_spec(sessions@.take(i as int), fb) == Ok::<Seq<SessionView>, Seq<char>>(session_views(out@)),
        decreases sessions.len() - i,
    {
        assert(sessions@.take(i + 1).drop_last() =~= sessions@.take(i as int));
        assert(sessions@.take(i + 1).last() == sessions@[i as int]);
        match map_active_session_record(&sessions[i], fallback_agent_id) {
            Ok(rec) => {
                let ghost before = session_views(out@);
                let ghost rv = rec@;
                out.push(rec);
                assert(session_views(out@) =~= before.push(rv));
            },
            Err(e) => {
                proof { lemma_records_error_prefix(sessions@, fb, i + 1); }
                return Err(e);
            },
        }
        i = i + 1;
    }
    assert(sessions@.take(sessions@.len() as int) =~= sessions@);
    Ok(out)
}

/// Session payloads as records, ordered by session id with the first record of each
/// session id kept; the error of the first payload that does not map otherwise.
pub fn normalize_active_sessions(sessions: &[JsonValue]) -> (r: Result<Vec<ActiveSessionRecord>, String>)
    ensures
        match r {
            Err(e) => session_records_spec(sessions@, None) == Err::<Seq<SessionView>, Seq<char>>(e@),
            Ok(out) => session_records_spec(sessions@, None) matches Ok(rs)
                && session_ids_sorted(session_views(out@))
                && forall|x: SessionView| #[trigger] session_views(out@).contains(x) <==> first_of_its_id(rs, x),
        },
{
    let records = map_session_records(sessions, None);
    match records {
        Err(e) => Err(e),
        Ok(records) => normalize_active_session_records(records),
    }
}

/// Normalized sessions carry each session id once: session ids that strictly increase
/// along the list never repeat.
pub proof fn law_normalized_sessions_have_unique_ids(records: Seq<SessionView>, i: int, j: int)
    requires
        session_ids_sorted(records),
        0 <= i < records.len(),
        0 <= j < records.len(),
        i != j,
    ensures
        records[i].session_id != records[j].session_id,
{
    if i < j {
        assert(seq_lt(records[i].session_id, records[j].session_id));
        lemma_seq_lt_irreflexive(records[i].session_id);
    } else {
        assert(seq_lt(records[j].session_id, records[i].session_id));
        lemma_seq_lt_irreflexive(records[j].session_id);
    }
}

} // verus!
