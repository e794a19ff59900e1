//! Reading agents, bindings and active sessions out of a gateway connect payload.
use vstd::prelude::*;
use crate::adapter::openclaw::mapping::{
    first_of_its_id, map_session_records, normalize_active_session_records, normalize_active_sessions,
    session_ids_sorted, session_records_spec,
};
use crate::json::{JsonValue, entry_lookup, get_str, json_get, lookup_entry};
use crate::models::runtime::{ActiveSessionRecord, SessionView, session_views};
use crate::text::owned;
use crate::utils::time::ACTIVE_WINDOW_MS;

verus! {

/// The members of `snapshot.health`, or why they are missing.
pub open spec fn health_spec(payload: JsonValue) -> Result<Seq<(String, JsonValue)>, Seq<char>> {
    match json_get(payload, "snapshot"@) {
        None => Err("Gateway connect payload did not include a snapshot."@),
        Some(snapshot) => match json_get(snapshot, "health"@) {
            Some(JsonValue::Object(entries)) => Ok(entries@),
            _ => Err("Gateway snapshot did not include health."@),
        },
    }
}

/// The `agents` array of the health members.
pub open spec fn health_agents(health: Seq<(String, JsonValue)>) -> Option<Seq<JsonValue>> {
    match entry_lookup(health, "agents"@) {
        Some(JsonValue::Array(items)) => Some(items@),
        _ => None,
    }
}

/// The `agents` array of `snapshot.health`, or why it is missing.
pub open spec fn agents_spec(payload: JsonValue) -> Result<Seq<JsonValue>, Seq<char>> {
    match health_spec(payload) {
        Err(e) => Err(e),
        Ok(health) => match health_agents(health) {
            Some(items) => Ok(items),
            None => Err("Gateway health snapshot did not include agents."@),
        },
    }
}

/// The `bindings` array of `snapshot.health`, empty when absent.
pub open spec fn bindings_spec(payload: JsonValue) -> Result<Seq<JsonValue>, Seq<char>> {
    match health_spec(payload) {
        Err(e) => Err(e),
        Ok(health) => match entry_lookup(health, "bindings"@) {
            Some(JsonValue::Array(items)) => Ok(items@),
            _ => Ok(Seq::empty()),
        },
    }
}

pub fn snapshot_health(payload: &JsonValue) -> (r: Result<&Vec<(String, JsonValue)>, String>)
    ensures
        match r {
            Ok(entries) => health_spec(*payload) == Ok::<Seq<(String, JsonValue)>, Seq<char>>(entries@),
            Err(e) => health_spec(*payload) == Err::<Seq<(String, JsonValue)>, Seq<char>>(e@),
        },
{
    let snapshot = match payload.get("snapshot") {
        Some(s) => s,
        None => return Err(owned("Gateway connect payload did not include a snapshot.")),
    };
    match snapshot.get("health") {
        Some(JsonValue::Object(entries)) => Ok(entries),
        _ => Err(owned("Gateway snapshot did not include health.")),
    }
}

pub fn snapshot_agents(payload: &JsonValue) -> (r: Result<&Vec<JsonValue>, String>)
    ensures
        match r {
            Ok(items) => agents_spec(*payload) == Ok::<Seq<JsonValue>, Seq<char>>(items@),
            Err(e) => agents_spec(*payload) == Err::<Seq<JsonValue>, Seq<char>>(e@),
        },
{
    let health = snapshot_health(payload)?;
    health_agents_exec(health)
}

fn health_agents_exec(health: &Vec<(String, JsonValue)>) -> (r: Result<&Vec<JsonValue>, String>)
    ensures
        match r {
            Ok(items) => health_agents(health@) == Some(items@),
            Err(e) => health_agents(health@) is None && e@ == "Gateway health snapshot did not include agents."@,
        },
{
    match lookup_entry(health, "agents") {
        Some(JsonValue::Array(items)) => Ok(items),
        _ => Err(owned("Gateway health snapshot did not include agents.")),
    }
}

pub fn snapshot_bindings(payload: &JsonValue) -> (r: Result<&[JsonValue], String>)
    ensures
        match r {
            Ok(items) => bindings_spec(*payload) == Ok::<Seq<JsonValue>, Seq<char>>(items@),
            Err(e) => bindings_spec(*payload) == Err::<Seq<JsonValue>, Seq<char>>(e@),
        },
{
    let health = snapshot_health(payload)?;
    match lookup_entry(health, "bindings") {
        Some(JsonValue::Array(items)) => Ok(items.as_slice()),
        _ => {
            let none: &[JsonValue] = &[];
            assert(none@ =~= Seq::<JsonValue>::empty());
            Ok(none)
        },
    }
}

/// The non-empty `activeSessions` array of the health members.
pub open spec fn explicit_sessions_spec(health: Seq<(String, JsonValue)>) -> Option<Seq<JsonValue>> {
    match entry_lookup(health, "activeSessions"@) {
        Some(JsonValue::Array(items)) => if items@.len() > 0 { Some(items@) } else { None },
        _ => None,
    }
}

fn explicit_active_sessions(health: &Vec<(String, JsonValue)>) -> (r: Option<&Vec<JsonValue>>)
    ensures
        match r {
            Some(items) => explicit_sessions_spec(health@) == Some(items@),
            None => explicit_sessions_spec(health@) is None,
        },
{
    match lookup_entry(health, "activeSessions") {
        Some(JsonValue::Array(items)) => if items.len() > 0 { Some(items) } else { None },
        _ => None,
    }
}

/// A session still counts as active: its age is unknown or inside the active window.
pub open spec fn within_active_window(rec: SessionView) -> bool {
    match rec.age_ms {
        None => true,
        Some(age) => age < ACTIVE_WINDOW_MS,
    }
}

/// The records inside the active window, in order.
pub open spec fn active_only(records: Seq<SessionView>) -> Seq<SessionView>
    decreases records.len(),
{
    if records.len() == 0 {
        Seq::empty()
    } else if within_active_window(records.last()) {
        active_only(records.drop_last()).push(records.last())
    } else {
        active_only(records.drop_last())
    }
}

/// `sessions.recent` of an agent payload, empty when absent.
pub open spec fn recent_sessions(agent: JsonValue) -> Seq<JsonValue> {
    match json_get(agent, "sessions"@) {
        Some(sessions) => match json_get(sessions, "recent"@) {
            Some(JsonValue::Array(items)) => items@,
            _ => Seq::empty(),
        },
        None => Seq::empty(),
    }
}

/// The recent sessions of one agent that are inside the active window, or why they
/// cannot be read.
pub open spec fn agent_recent_spec(agent: JsonValue) -> Result<Seq<SessionView>, Seq<char>> {
    match get_str(Some(agent), "agentId"@) {
        None => Err("OpenClaw agent payload is missing agentId."@),
        Some(id) => match session_records_spec(recent_sessions(agent), Some(id)) {
            Err(e) => Err(e),
            Ok(records) => Ok(active_only(records)),
        },
    }
}

/// The recent, still active sessions of all agents in agent order, or the first error.
pub open spec fn fallback_records_spec(agents: Seq<JsonValue>) -> Result<Seq<SessionView>, Seq<char>>
    decreases agents.len(),
{
    if agents.len() == 0 {
        Ok(Seq::empty())
    } else {
        match fallback_records_spec(agents.drop_last()) {
            Err(e) => Err(e),
            Ok(records) => match agent_recent_spec(agents.last()) {
                Err(e) => Err(e),
                Ok(more) => Ok(records + more),
            },
        }
    }
}

/// The session records before normalization: the explicit `activeSessions` when that
/// array is non-empty, otherwise the agents' recent sessions inside the active window.
pub open spec fn active_records_spec(payload: JsonValue) -> Result<Seq<SessionView>, Seq<char>> {
    match health_spec(payload) {
        Err(e) => Err(e),
        Ok(health) => match explicit_sessions_spec(health) {
            Some(sessions) => session_records_spec(sessions, None),
            None => fallback_health_records_spec(health),
        },
    }
}

/// The recent sessions inside the active window of the agents among the health
/// members, before normalization, or why they cannot be read.
pub open spec fn fallback_health_records_spec(health: Seq<(String, JsonValue)>) -> Result<Seq<SessionView>, Seq<char>> {
    match health_agents(health) {
        None => Err("Gateway health snapshot did not include agents."@),
        Some(agents) => fallback_records_spec(agents),
    }
}

fn recent_sessions_exec(agent: &JsonValue) -> (r: &[JsonValue])
    ensures
        r@ == recent_sessions(*agent),
{
    let none: &[JsonValue] = &[];
    assert(none@ =~= Seq::<JsonValue>::empty());
    match agent.get("sessions") {
        Some(sessions) => match sessions.get("recent") {
            Some(JsonValue::Array(items)) => items.as_slice(),
            _ => none,
        },
        None => none,
    }
}

proof fn lemma_fallback_error_prefix(agents: Seq<JsonValue>, n: int)
    requires
        0 < n <= agents.len(),
        fallback_records_spec(agents.take(n)) is Err,
    ensures
        fallback_records_spec(agents) == fallback_records_spec(agents.take(n)),
    decreases agents.len() - n,
{
    if n < agents.len() {
        assert(agents.take(n + 1).drop_last() =~= agents.take(n));
        lemma_fallback_error_prefix(agents, n + 1);
    } else {
        assert(agents.take(n) =~= agents);
    }
}

/// The recent, still active sessions of all agents, unnormalized.
fn fallback_records(agents: &Vec<JsonValue>) -> (r: Result<Vec<ActiveSessionRecord>, String>)
    ensures
        match r {
            Ok(rs) => fallback_records_spec(agents@) == Ok::<Seq<SessionView>, Seq<char>>(session_views(rs@)),
            Err(e) => fallback_records_spec(agents@) == Err::<Seq<SessionView>, Seq<char>>(e@),
        },
{
    let mut out: Vec<ActiveSessionRecord> = Vec::new();
    let mut i: usize = 0;
    assert(agents@.take(0) =~= Seq::<JsonValue>::empty());
    assert(session_views(out@) =~= Seq::<SessionView>::empty());
    while i < agents.len()
        invariant
            i <= agents.len(),
            fallback_records_spec(agents@.take(i as int)) == Ok::<Seq<SessionView>, Seq<char>>(session_views(out@)),
        decreases agents.len() - i,
    {
        assert(agents@.take(i + 1).drop_last() =~= agents@.take(i as int));
        assert(agents@.take(i + 1).last() == agents@[i as int]);
        let agent = &agents[i];
        let agent_id = match agent.get_string("agentId") {
            Some(id) => id,
            None => {
                proof { lemma_fallback_error_prefix(agents@, i + 1); }
                return Err(owned("OpenClaw agent payload is missing agentId."));
            },
        };
        let records = match map_session_records(recent_sessions_exec(agent), Some(agent_id.as_str())) {
            Ok(records) => records,
            Err(e) => {
                proof { lemma_fallback_error_prefix(agents@, i + 1); }
                return Err(e);
            },
        };
        let ghost before = session_views(out@);
        let ghost rv = session_views(records@);
        let mut j: usize = 0;
        assert(rv.take(0) =~= Seq::<SessionView>::empty());
        assert(before =~= before + active_only(rv.take(0)));
        while j < records.len()
            invariant
                rv == session_views(records@),
                j <= records.len(),
                session_views(out@) == before + active_only(rv.take(j as int)),
            decreases records.len() - j,
        {
            assert(rv.take(j + 1).drop_last() =~= rv.take(j as int));
            assert(rv.take(j + 1).last() == records@[j as int]@);
            let keep = match records[j].age_ms {
                None => true,
                Some(age) => age < ACTIVE_WINDOW_MS,
            };
            if keep {
                let ghost prev = session_views(out@);
                let ghost item = records@[j as int]@;
                out.push(records[j].copied());
                assert(session_views(out@) =~= prev.push(item));
                assert(before + active_only(rv.take(j + 1)) =~= (before + active_only(rv.take(j as int))).push(item));
            }
            j = j + 1;
        }
        assert(rv.take(records.len() as int) =~= rv);
        i = i + 1;
    }
    assert(agents@.take(agents@.len() as int) =~= agents@);
    Ok(out)
}

/// The active sessions of a connect payload: the explicit `activeSessions` when that
/// array is non-empty, otherwise the agents' recent sessions inside the active window;
/// ordered by session id with the first record of each id kept.
pub fn snapshot_active_sessions(payload: &JsonValue) -> (r: Result<Vec<ActiveSessionRecord>, String>)
    ensures
        match r {
            Err(e) => active_records_spec(*payload) == Err::<Seq<SessionView>, Seq<char>>(e@),
            Ok(out) => active_records_spec(*payload) matches Ok(rs)
                && session_ids_sorted(session_views(out@))
                && forall|x: SessionView| #[trigger] session_views(out@).contains(x) <==> first_of_its_id(rs, x),
        },
{
    let health = snapshot_health(payload)?;
    if let Some(sessions) = explicit_active_sessions(health) {
        return normalize_active_sessions(sessions.as_slice());
    }
    fallback_recent_active_sessions(health)
}

/// The active sessions synthesized from the agents' recent sessions: those inside the
/// active window, ordered by session id with the first record of each id kept.
pub fn fallback_recent_active_sessions(health: &Vec<(String, JsonValue)>) -> (r: Result<Vec<ActiveSessionRecord>, String>)
    ensures
        match r {
            Err(e) => fallback_health_records_spec(health@) == Err::<Seq<SessionView>, Seq<char>>(e@),
            Ok(out) => fallback_health_records_spec(health@) matches Ok(rs)
                && session_ids_sorted(session_views(out@))
                && forall|x: SessionView| #[trigger] session_views(out@).contains(x) <==> first_of_its_id(rs, x),
        },
{
    let agents = match health_agents_exec(health) {
        Ok(agents) => agents,
        Err(e) => return Err(e),
    };
    match fallback_records(agents) {
        Err(e) => Err(e),
        Ok(records) => normalize_active_session_records(records),
    }
}


/// An explicit, non-empty `activeSessions` list is what the gateway reports as running:
/// the session records are then exactly the records mapped from that list, whatever the
/// agents' recent sessions say; in particular a list of one session gives that one
/// record.
pub proof fn law_explicit_sessions_are_used(
    payload: JsonValue,
    health: Seq<(String, JsonValue)>,
    items: Seq<JsonValue>,
)
    requires
        health_spec(payload) == Ok::<Seq<(String, JsonValue)>, Seq<char>>(health),
        entry_lookup(health, "activeSessions"@) matches Some(JsonValue::Array(list)) && list@ == items,
        items.len() > 0,
    ensures
        active_records_spec(payload) == crate::adapter::openclaw::mapping::session_records_spec(items, None),
        items.len() == 1 ==> active_records_spec(payload) == (match crate::adapter::openclaw::mapping::session_record_spec(items[0], None) {
            Ok(rec) => Ok(seq![rec]),
            Err(e) => Err::<Seq<SessionView>, Seq<char>>(e),
        }),
{
    if items.len() == 1 {
        assert(items.drop_last() =~= Seq::<JsonValue>::empty());
        assert(items.last() == items[0]);
        let rs = Seq::<SessionView>::empty();
        assert(crate::adapter::openclaw::mapping::session_records_spec(Seq::<JsonValue>::empty(), None) == Ok::<Seq<SessionView>, Seq<char>>(rs));
        match crate::adapter::openclaw::mapping::session_record_spec(items[0], None) {
            Ok(rec) => { assert(rs.push(rec) =~= seq![rec]); },
            Err(_) => {},
        }
    }
}

} // verus!
