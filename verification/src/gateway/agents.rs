//! The agents overview built from the gateway's connect payload.
use vstd::prelude::*;
use crate::adapter::openclaw::snapshot::{agents_spec, health_spec, snapshot_health};
use crate::json::{JsonValue, entry_lookup, get_bool, get_str, get_u64, json_as_str, json_as_u64, json_get, lookup_entry};
use crate::models::agents::{AgentOverviewItem, AgentOverviewSnapshot};
use crate::models::runtime::opt_chars;
use crate::text::owned;
use crate::parse::{missing_member_message, require_array, require_object};

verus! {

/// Minutes after its last update that a stored session still counts as active.
pub const ACTIVE_SESSION_WINDOW_MINUTES: u64 = 10;

/// The mathematical content of an [`AgentOverviewItem`].
pub struct OverviewItemView {
    pub id: Seq<char>,
    pub name: Seq<char>,
    pub is_default: bool,
    pub heartbeat_enabled: bool,
    pub heartbeat_schedule: Seq<char>,
    pub heartbeat_model: Option<Seq<char>>,
    pub active_session_count: u64,
    pub latest_session_key: Option<Seq<char>>,
    pub latest_activity_age_ms: Option<u64>,
}

impl View for AgentOverviewItem {
    type V = OverviewItemView;

    open spec fn view(&self) -> OverviewItemView {
        OverviewItemView {
            id: self.id@,
            name: self.name@,
            is_default: self.is_default,
            heartbeat_enabled: self.heartbeat_enabled,
            heartbeat_schedule: self.heartbeat_schedule@,
            heartbeat_model: opt_chars(self.heartbeat_model),
            active_session_count: self.active_session_count,
            latest_session_key: opt_chars(self.latest_session_key),
            latest_activity_age_ms: self.latest_activity_age_ms,
        }
    }
}

pub open spec fn item_views(items: Seq<AgentOverviewItem>) -> Seq<OverviewItemView> {
    items.map_values(|i: AgentOverviewItem| i@)
}

/// A counting outcome seen through the characters of its error.
pub open spec fn count_view(r: Result<u64, String>) -> Result<u64, Seq<char>> {
    match r {
        Ok(n) => Ok(n),
        Err(e) => Err(e@),
    }
}

/// `sessions.path` of an agent payload.
pub open spec fn store_path(agent: JsonValue) -> Option<Seq<char>> {
    get_str(json_get(agent, "sessions"@), "path"@)
}

/// The first entry of `sessions.recent` of an agent payload.
pub open spec fn first_recent(agent: JsonValue) -> Option<JsonValue> {
    match json_get(agent, "sessions"@) {
        Some(sessions) => match json_get(sessions, "recent"@) {
            Some(JsonValue::Array(items)) => if items@.len() > 0 { Some(items@[0]) } else { None },
            _ => None,
        },
        None => None,
    }
}

/// The heartbeat schedule shown for an agent: its `every` (or "Scheduled") when the
/// heartbeat is enabled, "Disabled" otherwise.
pub open spec fn overview_schedule(agent: JsonValue) -> Seq<char> {
    let heartbeat = json_get(agent, "heartbeat"@);
    if get_bool(heartbeat, "enabled"@) == Some(true) {
        match get_str(heartbeat, "every"@) {
            Some(every) => every,
            None => "Scheduled"@,
        }
    } else {
        "Disabled"@
    }
}

/// The overview item for an agent payload, given the outcome of counting its session
/// store (used only when the agent names a store).
pub open spec fn overview_item_spec(agent: JsonValue, store_count: Result<u64, Seq<char>>) -> Result<OverviewItemView, Seq<char>> {
    match get_str(Some(agent), "agentId"@) {
        None => Err("Gateway agent snapshot is missing agentId."@),
        Some(id) => {
            let count: Result<u64, Seq<char>> = match store_path(agent) {
                None => Ok(0u64),
                Some(_) => store_count,
            };
            match count {
                Err(e) => Err(e),
                Ok(n) => {
                    let heartbeat = json_get(agent, "heartbeat"@);
                    Ok(OverviewItemView {
                        id,
                        name: match get_str(Some(agent), "name"@) { Some(name) => name, None => id },
                        is_default: get_bool(Some(agent), "isDefault"@) == Some(true),
                        heartbeat_enabled: get_bool(heartbeat, "enabled"@) == Some(true),
                        heartbeat_schedule: overview_schedule(agent),
                        heartbeat_model: get_str(heartbeat, "model"@),
                        active_session_count: n,
                        latest_session_key: get_str(first_recent(agent), "key"@),
                        latest_activity_age_ms: get_u64(first_recent(agent), "age"@),
                    })
                },
            }
        },
    }
}

/// The items for the agents in order, or the first error.
pub open spec fn overview_items_spec(agents: Seq<JsonValue>, counts: Seq<Result<u64, String>>) -> Result<Seq<OverviewItemView>, Seq<char>>
    decreases agents.len(),
{
    if agents.len() == 0 {
        Ok(Seq::empty())
    } else {
        match overview_items_spec(agents.drop_last(), counts) {
            Err(e) => Err(e),
            Ok(items) => match overview_item_spec(agents.last(), count_view(counts[agents.len() - 1])) {
                Err(e) => Err(e),
                Ok(item) => Ok(items.push(item)),
            },
        }
    }
}

/// The sum of the successful counts.
pub open spec fn ok_sum(counts: Seq<Result<u64, String>>) -> nat
    decreases counts.len(),
{
    if counts.len() == 0 {
        0
    } else {
        ok_sum(counts.drop_last()) + match counts.last() { Ok(n) => n as nat, Err(_) => 0nat }
    }
}

/// The total of the items' session counts.
pub open spec fn item_session_total(items: Seq<OverviewItemView>) -> nat
    decreases items.len(),
{
    if items.len() == 0 {
        0
    } else {
        item_session_total(items.drop_last()) + items.last().active_session_count as nat
    }
}

/// How many items have at least one active session.
pub open spec fn items_with_sessions(items: Seq<OverviewItemView>) -> nat
    decreases items.len(),
{
    if items.len() == 0 {
        0
    } else {
        items_with_sessions(items.drop_last()) + if items.last().active_session_count > 0 { 1nat } else { 0nat }
    }
}

/// The time the overview is computed for: `health.ts`, or else the current time.
pub open spec fn reference_time(payload: JsonValue, now_ms: u64) -> u64 {
    match health_spec(payload) {
        Ok(health) => match entry_lookup(health, "ts"@) {
            Some(v) => match json_as_u64(v) {
                Some(ts) => ts,
                None => now_ms,
            },
            None => now_ms,
        },
        Err(_) => now_ms,
    }
}

/// The time the overview is computed for; session stores are counted against it.
pub fn overview_reference_time(payload: &JsonValue, now_ms: u64) -> (r: u64)
    ensures
        r == reference_time(*payload, now_ms),
{
    match snapshot_health(payload) {
        Ok(health) => match lookup_entry(health, "ts") {
            Some(v) => match v.as_u64() {
                Some(ts) => ts,
                None => now_ms,
            },
            None => now_ms,
        },
        Err(_) => now_ms,
    }
}

/// The session store path of each agent in the payload, in agent order; empty when the
/// payload holds no agents list.
pub fn session_store_paths(payload: &JsonValue) -> (r: Vec<Option<String>>)
    ensures
        agents_spec(*payload) matches Ok(agents) ==> r@.len() == agents.len()
            && forall|i: int| 0 <= i < agents.len() ==> opt_chars(#[trigger] r@[i]) == store_path(agents[i]),
        agents_spec(*payload) is Err ==> r@.len() == 0,
{
    let agents = match crate::adapter::openclaw::snapshot::snapshot_agents(payload) {
        Ok(agents) => agents,
        Err(_) => return Vec::new(),
    };
    let mut paths: Vec<Option<String>> = Vec::new();
    let mut i: usize = 0;
    while i < agents.len()
        invariant
            i <= agents.len(),
            paths@.len() == i,
            forall|k: int| 0 <= k < i ==> opt_chars(#[trigger] paths@[k]) == store_path(agents@[k]),
        decreases agents.len() - i,
    {
        let path = match agents[i].get("sessions") {
            Some(sessions) => sessions.get_string("path"),
            None => None,
        };
        paths.push(path);
        i = i + 1;
    }
    paths
}

fn first_recent_exec(agent: &JsonValue) -> (r: Option<&JsonValue>)
    ensures
        match r {
            Some(v) => first_recent(*agent) == Some(*v),
            None => first_recent(*agent) is None,
        },
{
    match agent.get("sessions") {
        Some(sessions) => match sessions.get("recent") {
            Some(JsonValue::Array(items)) => if items.len() > 0 { Some(&items[0]) } else { None },
            _ => None,
        },
        None => None,
    }
}

/// The agent's id, display name (its id when it has none) and whether it is the
/// default agent.
pub fn map_agent_identity(agent: &JsonValue) -> (r: Result<(String, String, bool), String>)
    ensures
        match r {
            Ok((id, name, is_default)) => get_str(Some(*agent), "agentId"@) == Some(id@)
                && name@ == (match get_str(Some(*agent), "name"@) { Some(n) => n, None => id@ })
                && is_default == (get_bool(Some(*agent), "isDefault"@) == Some(true)),
            Err(e) => get_str(Some(*agent), "agentId"@) is None && e@ == "Gateway agent snapshot is missing agentId."@,
        },
{
    let id = match agent.get_string("agentId") {
        Some(id) => id,
        None => return Err(owned("Gateway agent snapshot is missing agentId.")),
    };
    let name = match agent.get_string("name") {
        Some(n) => n,
        None => id.clone(),
    };
    let is_default = agent.get_bool("isDefault") == Some(true);
    Ok((id, name, is_default))
}

/// Whether the agent's heartbeat is enabled, its schedule as the overview shows it,
/// and its model.
pub fn map_heartbeat(agent: &JsonValue) -> (r: (bool, String, Option<String>))
    ensures
        r.0 == (get_bool(json_get(*agent, "heartbeat"@), "enabled"@) == Some(true)),
        r.1@ == overview_schedule(*agent),
        opt_chars(r.2) == get_str(json_get(*agent, "heartbeat"@), "model"@),
{
    let heartbeat = agent.get("heartbeat");
    let (heartbeat_enabled, every, heartbeat_model) = match heartbeat {
        Some(h) => (h.get_bool("enabled") == Some(true), h.get_string("every"), h.get_string("model")),
        None => (false, None, None),
    };
    let heartbeat_schedule = if heartbeat_enabled {
        match every {
            Some(e) => e,
            None => owned("Scheduled"),
        }
    } else {
        owned("Disabled")
    };
    (heartbeat_enabled, heartbeat_schedule, heartbeat_model)
}

/// The agent's active session count (the store count when it names a store, else 0, or
/// the store's error), and the key and age of its most recent session.
pub fn map_session_recency(agent: &JsonValue, store_count: &Result<u64, String>) -> (r: Result<(u64, Option<String>, Option<u64>), String>)
    ensures
        match r {
            Ok((n, key, age)) => (match store_path(*agent) {
                    None => n == 0,
                    Some(_) => *store_count == Ok::<u64, String>(n),
                })
                && opt_chars(key) == get_str(first_recent(*agent), "key"@)
                && age == get_u64(first_recent(*agent), "age"@),
            Err(e) => store_path(*agent) is Some && count_view(*store_count) == Err::<u64, Seq<char>>(e@),
        },
{
    let path = match agent.get("sessions") {
        Some(sessions) => sessions.get_string("path"),
        None => None,
    };
    let active_session_count = match path {
        None => 0,
        Some(_) => match store_count {
            Ok(n) => *n,
            Err(e) => return Err(e.clone()),
        },
    };
    let recent = first_recent_exec(agent);
    let (latest_session_key, latest_activity_age_ms) = match recent {
        Some(entry) => (entry.get_string("key"), entry.get_u64("age")),
        None => (None, None),
    };
    Ok((active_session_count, latest_session_key, latest_activity_age_ms))
}

/// The overview item for one agent payload, given the outcome of counting its session
/// store.
pub fn map_agent_overview_item(agent: &JsonValue, store_count: &Result<u64, String>) -> (r: Result<AgentOverviewItem, String>)
    ensures
        match r {
            Ok(item) => overview_item_spec(*agent, count_view(*store_count)) == Ok::<OverviewItemView, Seq<char>>(item@),
            Err(e) => overview_item_spec(*agent, count_view(*store_count)) == Err::<OverviewItemView, Seq<char>>(e@),
        },
{
    let (id, name, is_default) = map_agent_identity(agent)?;
    let (heartbeat_enabled, heartbeat_schedule, heartbeat_model) = map_heartbeat(agent);
    let (active_session_count, latest_session_key, latest_activity_age_ms) = map_session_recency(agent, store_count)?;
    Ok(AgentOverviewItem {
        id,
        name,
        is_default,
        heartbeat_enabled,
        heartbeat_schedule,
        heartbeat_model,
        active_session_count,
        latest_session_key,
        latest_activity_age_ms,
    })
}

/// `health.defaultAgentId` of the payload.
pub open spec fn default_agent_spec(payload: JsonValue) -> Option<Seq<char>> {
    match health_spec(payload) {
        Ok(health) => match entry_lookup(health, "defaultAgentId"@) {
            Some(v) => json_as_str(v),
            None => None,
        },
        Err(_) => None,
    }
}

proof fn lemma_ok_sum_prefix(counts: Seq<Result<u64, String>>, i: int)
    requires
        0 <= i <= counts.len(),
    ensures
        ok_sum(counts.take(i)) <= ok_sum(counts),
    decreases counts.len() - i,
{
    if i < counts.len() {
        lemma_ok_sum_prefix(counts, i + 1);
        assert(counts.take(i + 1).drop_last() =~= counts.take(i));
    } else {
        assert(counts.take(i) =~= counts);
    }
}

/// The agents overview of a connect payload. `store_counts[i]` is the outcome of
/// counting the session store of the `i`-th agent (read only for agents that name a
/// store). The first agent that cannot be mapped decides the error.
pub fn map_agent_overview_snapshot(payload: &JsonValue, store_counts: &Vec<Result<u64, String>>) -> (r: Result<AgentOverviewSnapshot, String>)
    requires
        agents_spec(*payload) matches Ok(agents) ==> store_counts@.len() == agents.len(),
        ok_sum(store_counts@) <= u64::MAX,
    ensures
        match r {
            Err(e) => match agents_spec(*payload) {
                Err(reason) => e@ == reason,
                Ok(agents) => overview_items_spec(agents, store_counts@) == Err::<Seq<OverviewItemView>, Seq<char>>(e@),
            },
            Ok(snapshot) => agents_spec(*payload) matches Ok(agents)
                && overview_items_spec(agents, store_counts@) == Ok::<Seq<OverviewItemView>, Seq<char>>(item_views(snapshot.agents@))
                && snapshot.total_agents == snapshot.agents@.len()
                && snapshot.total_active_sessions == item_session_total(item_views(snapshot.agents@))
                && snapshot.active_recent_agents == items_with_sessions(item_views(snapshot.agents@))
                && opt_chars(snapshot.default_agent_id) == default_agent_spec(*payload),
        },
{
    let snapshot = match payload.get("snapshot") {
        Some(snapshot) => snapshot,
        None => return Err(owned("Gateway connect payload did not include a snapshot.")),
    };
    let health = match require_object(snapshot, "health", "Gateway snapshot") {
        Ok(health) => health,
        Err(e) => {
            proof {
                reveal_strlit("Gateway snapshot");
                reveal_strlit(" did not include ");
                reveal_strlit("health");
                reveal_strlit(".");
                reveal_strlit("Gateway snapshot did not include health.");
                assert(missing_member_message("Gateway snapshot"@, "health"@)
                    =~= "Gateway snapshot did not include health."@);
            }
            return Err(e);
        },
    };
    let agents = match require_array(health, "agents", "Gateway health snapshot") {
        Ok(agents) => agents,
        Err(e) => {
            proof {
                reveal_strlit("Gateway health snapshot");
                reveal_strlit(" did not include ");
                reveal_strlit("agents");
                reveal_strlit(".");
                reveal_strlit("Gateway health snapshot did not include agents.");
                assert(missing_member_message("Gateway health snapshot"@, "agents"@)
                    =~= "Gateway health snapshot did not include agents."@);
            }
            return Err(e);
        },
    };
    let default_agent_id = match lookup_entry(health, "defaultAgentId") {
        Some(v) => match v.as_str() {
            Some(s) => Some(s.clone()),
            None => None,
        },
        None => None,
    };
    let ghost av = agents@;
    let ghost cv = store_counts@;
    let mut items: Vec<AgentOverviewItem> = Vec::new();
    let mut total_active_sessions: u64 = 0;
    let mut active_recent_agents: usize = 0;
    let mut i: usize = 0;
    assert(av.take(0) =~= Seq::<JsonValue>::empty());
    assert(item_views(items@) =~= Seq::<OverviewItemView>::empty());
    assert(cv.take(0) =~= Seq::<Result<u64, String>>::empty());
    while i < agents.len()
        invariant
            av == agents@,
            agents_spec(*payload) == Ok::<Seq<JsonValue>, Seq<char>>(av),
            cv == store_counts@,
            cv.len() == av.len(),
            ok_sum(cv) <= u64::MAX,
            i <= agents.len(),
            items@.len() == i,
            overview_items_spec(av.take(i as int), cv) == Ok::<Seq<OverviewItemView>, Seq<char>>(item_views(items@)),
            total_active_sessions == item_session_total(item_views(items@)),
            total_active_sessions <= ok_sum(cv.take(i as int)),
            active_recent_agents == items_with_sessions(item_views(items@)),
            active_recent_agents <= i,
        decreases agents.len() - i,
    {
        let ghost pre = av.take(i as int);
        let ghost next = av.take(i + 1);
        assert(next.drop_last() =~= pre);
        assert(next.last() == av[i as int]);
        let item = match map_agent_overview_item(&agents[i], &store_counts[i]) {
            Ok(item) => item,
            Err(e) => {
                proof { lemma_items_error_prefix(av, cv, i + 1); }
                return Err(e);
            },
        };
        proof {
            lemma_ok_sum_prefix(cv, i + 1);
            assert(cv.take(i + 1).drop_last() =~= cv.take(i as int));
            assert(cv.take(i + 1).last() == cv[i as int]);
            // the item's count is the agent's store count, or zero
            assert(item@.active_session_count == 0 || (cv[i as int] matches Ok(n) && item@.active_session_count == n));
        }
        let ghost before = item_views(items@);
        let ghost iv = item@;
        total_active_sessions = total_active_sessions + item.active_session_count;
        if item.active_session_count > 0 {
            active_recent_agents = active_recent_agents + 1;
        }
        items.push(item);
        assert(item_views(items@) =~= before.push(iv));
        assert(before.push(iv).drop_last() =~= before);
        i = i + 1;
    }
    assert(av.take(agents.len() as int) =~= av);
    Ok(AgentOverviewSnapshot {
        total_agents: items.len(),
        default_agent_id,
        total_active_sessions,
        active_recent_agents,
        agents: items,
    })
}

proof fn lemma_items_error_prefix(agents: Seq<JsonValue>, counts: Seq<Result<u64, String>>, n: int)
    requires
        0 < n <= agents.len(),
        overview_items_spec(agents.take(n), counts) is Err,
    ensures
        overview_items_spec(agents, counts) == overview_items_spec(agents.take(n), counts),
    decreases agents.len() - n,
{
    if n < agents.len() {
        assert(agents.take(n + 1).drop_last() =~= agents.take(n));
        lemma_items_error_prefix(agents, counts, n + 1);
    } else {
        assert(agents.take(n) =~= agents);
    }
}


/// The total of the items' session counts is their sum: no items total nothing, one
/// item totals its own count, and the total of two lists one after the other is the sum
/// of their totals; adding an item raises the total by exactly its count.
pub proof fn law_session_total_is_a_sum(a: Seq<OverviewItemView>, b: Seq<OverviewItemView>, x: OverviewItemView)
    ensures
        item_session_total(Seq::empty()) == 0,
        item_session_total(seq![x]) == x.active_session_count as nat,
        item_session_total(a + b) == item_session_total(a) + item_session_total(b),
        item_session_total(a.push(x)) == item_session_total(a) + x.active_session_count as nat,
    decreases b.len(),
{
    assert(seq![x].drop_last() =~= Seq::<OverviewItemView>::empty());
    assert(a.push(x).drop_last() =~= a);
    if b.len() == 0 {
        assert(a + b =~= a);
    } else {
        law_session_total_is_a_sum(a, b.drop_last(), x);
        assert((a + b).drop_last() =~= a + b.drop_last());
        assert((a + b).last() == b.last());
    }
}

} // verus!
