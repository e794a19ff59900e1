//! Laws of the relationship hints.
use vstd::prelude::*;
use crate::adapter::openclaw::hints::{
    agent_key, dash_runs, is_ascii_alphanumeric, key_char, remove_double_stars, strip_agent_suffixes, unicode_lowercase,
    AgentConfigEntry, AgentMetadata, agent_hint_pairs, alias_map_spec, all_hint_pairs, bullet_candidate, configured_ids,
    delegate_targets, delegate_targets_in_entries, delegate_targets_in_items, delegation_candidates_spec, heading_key,
    hint_pairs, is_bullet, markdown_target_spec, metadata_for, metadata_json_targets, metadata_markdown_targets, pairs_from,
    resolve_spec, resolved_targets, works_with_targets,
};
use crate::graph_service::{lemma_pair_lt_facts, pair_lt, pairs_strictly_sorted};
use crate::json::JsonValue;
use crate::chars::{trim_end_ws, trim_start_ws, trim_ws};
use crate::text::is_unicode_whitespace;
use crate::models::graph::EdgeView;

verus! {

/// `id` is one of the agent ids that the aliases lead to.
pub open spec fn alias_target(aliases: Map<Seq<char>, Seq<char>>, id: Seq<char>) -> bool {
    exists|k: Seq<char>| aliases.dom().contains(k) && #[trigger] aliases[k] == id
}

/// Every alias leads to a configured agent.
pub proof fn lemma_aliases_lead_to_configured_agents(agents: Seq<AgentConfigEntry>, id: Seq<char>)
    requires
        alias_target(alias_map_spec(agents), id),
    ensures
        configured_ids(agents).contains(id),
    decreases agents.len(),
{
    let m = alias_map_spec(agents);
    let k = choose|k: Seq<char>| m.dom().contains(k) && #[trigger] m[k] == id;
    let a = agents.last();
    let front = agents.drop_last();
    let m0 = alias_map_spec(front);
    if id == a.id@ {
        assert(agents[agents.len() - 1].id@ == id);
    } else {
        assert(m0.dom().contains(k) && m0[k] == id);
        lemma_aliases_lead_to_configured_agents(front, id);
        let i = choose|i: int| 0 <= i < front.len() && (#[trigger] front[i]).id@ == id;
        assert(agents[i] == front[i]);
    }
}

/// A resolved reference is an alias target.
pub proof fn lemma_resolved_is_alias_target(aliases: Map<Seq<char>, Seq<char>>, candidate: Seq<char>, id: Seq<char>)
    requires
        resolve_spec(aliases, candidate) == Some(id),
    ensures
        alias_target(aliases, id),
{
    let k = crate::adapter::openclaw::hints::agent_key(candidate);
    assert(aliases.dom().contains(k) && aliases[k] == id);
}

/// The agents a "Works with" section names are alias targets.
pub proof fn lemma_works_with_targets_are_aliases(
    lines: Seq<Seq<char>>,
    inside: bool,
    aliases: Map<Seq<char>, Seq<char>>,
    id: Seq<char>,
)
    requires
        works_with_targets(lines, inside, aliases).contains(id),
    ensures
        alias_target(aliases, id),
    decreases lines.len(),
{
    if lines.len() > 0 {
        let t = crate::chars::trim_ws(lines[0]);
        let rest = lines.drop_first();
        if crate::chars::has_prefix(t, "#"@) && heading_key(t) == "works-with"@ {
            lemma_works_with_targets_are_aliases(rest, true, aliases, id);
        } else if crate::chars::has_prefix(t, "#"@) && inside {
        } else if inside && is_bullet(t) {
            match markdown_target_spec(t, aliases) {
                Some(found) => {
                    if found == id {
                        match bullet_candidate(t) {
                            Some(c) => lemma_resolved_is_alias_target(aliases, c, id),
                            None => {},
                        }
                    } else {
                        lemma_works_with_targets_are_aliases(rest, inside, aliases, id);
                    }
                },
                None => lemma_works_with_targets_are_aliases(rest, inside, aliases, id),
            }
        } else {
            lemma_works_with_targets_are_aliases(rest, inside, aliases, id);
        }
    }
}

/// The agents that resolved candidates name are alias targets.
pub proof fn lemma_resolved_targets_are_aliases(candidates: Seq<Seq<char>>, aliases: Map<Seq<char>, Seq<char>>, id: Seq<char>)
    requires
        resolved_targets(candidates, aliases).contains(id),
    ensures
        alias_target(aliases, id),
    decreases candidates.len(),
{
    if candidates.len() > 0 {
        match resolve_spec(aliases, candidates.last()) {
            Some(found) => {
                if found == id {
                    lemma_resolved_is_alias_target(aliases, candidates.last(), id);
                } else {
                    lemma_resolved_targets_are_aliases(candidates.drop_last(), aliases, id);
                }
            },
            None => lemma_resolved_targets_are_aliases(candidates.drop_last(), aliases, id),
        }
    }
}

/// The agents that the texts inside a JSON value delegate to are alias targets.
pub proof fn lemma_delegate_targets_are_aliases(value: JsonValue, aliases: Map<Seq<char>, Seq<char>>, id: Seq<char>)
    requires
        delegate_targets(value, aliases).contains(id),
    ensures
        alias_target(aliases, id),
    decreases value, 1nat,
{
    match value {
        JsonValue::Str(text) => lemma_resolved_targets_are_aliases(delegation_candidates_spec(text@), aliases, id),
        JsonValue::Array(items) => lemma_delegate_items_are_aliases(items@, aliases, id),
        JsonValue::Object(entries) => lemma_delegate_entries_are_aliases(entries@, aliases, id),
        _ => {},
    }
}

pub proof fn lemma_delegate_items_are_aliases(items: Seq<JsonValue>, aliases: Map<Seq<char>, Seq<char>>, id: Seq<char>)
    requires
        delegate_targets_in_items(items, aliases).contains(id),
    ensures
        alias_target(aliases, id),
    decreases items, 0nat,
{
    if items.len() > 0 {
        if delegate_targets(items[0], aliases).contains(id) {
            lemma_delegate_targets_are_aliases(items[0], aliases, id);
        } else {
            lemma_delegate_items_are_aliases(items.subrange(1, items.len() as int), aliases, id);
        }
    }
}

pub proof fn lemma_delegate_entries_are_aliases(entries: Seq<(String, JsonValue)>, aliases: Map<Seq<char>, Seq<char>>, id: Seq<char>)
    requires
        delegate_targets_in_entries(entries, aliases).contains(id),
    ensures
        alias_target(aliases, id),
    decreases entries, 0nat,
{
    if entries.len() > 0 {
        if delegate_targets(entries[0].1, aliases).contains(id) {
            lemma_delegate_targets_are_aliases(entries[0].1, aliases, id);
        } else {
            lemma_delegate_entries_are_aliases(entries.subrange(1, entries.len() as int), aliases, id);
        }
    }
}

/// Every hint pair of the first agents starts at one of them, ends at a known agent or
/// an alias target, and never joins an agent to itself.
proof fn lemma_hint_pairs_shape(
    agents: Seq<AgentConfigEntry>,
    metadata: Seq<AgentMetadata>,
    known: Set<Seq<char>>,
    aliases: Map<Seq<char>, Seq<char>>,
    source: Seq<char>,
    target: Seq<char>,
)
    requires
        hint_pairs(agents, metadata, known, aliases).contains((source, target)),
    ensures
        source != target,
        configured_ids(agents).contains(source),
        known.contains(target) || alias_target(aliases, target),
    decreases agents.len(),
{
    if agents.len() > 0 {
        let a = agents.last();
        let meta = metadata_for(metadata, agents.len() - 1);
        let front = agents.drop_last();
        if hint_pairs(front, metadata, known, aliases).contains((source, target)) {
            lemma_hint_pairs_shape(front, metadata, known, aliases, source, target);
            let i = choose|i: int| 0 <= i < front.len() && (#[trigger] front[i]).id@ == source;
            assert(agents[i] == front[i]);
        } else {
            assert(agent_hint_pairs(a, meta, known, aliases).contains((source, target)));
            assert(agents[agents.len() - 1].id@ == source);
            if pairs_from(a.id@, metadata_markdown_targets(meta, aliases)).contains((source, target)) {
                match meta.markdown {
                    Some(md) => lemma_works_with_targets_are_aliases(
                        crate::adapter::openclaw::hints::text_lines(md@), false, aliases, target),
                    None => {},
                }
            } else if pairs_from(a.id@, metadata_json_targets(meta, aliases)).contains((source, target)) {
                match meta.agent_json {
                    Some(v) => lemma_delegate_targets_are_aliases(v, aliases, target),
                    None => {},
                }
            }
        }
    }
}

/// Relationship hints join two distinct configured agents: every hint edge starts at a
/// configured agent, ends at a configured agent, and never loops back to its source.
pub proof fn law_hints_join_distinct_configured_agents(
    agents: Seq<AgentConfigEntry>,
    metadata: Seq<AgentMetadata>,
    source: Seq<char>,
    target: Seq<char>,
)
    requires
        all_hint_pairs(agents, metadata).contains((source, target)),
    ensures
        source != target,
        configured_ids(agents).contains(source),
        configured_ids(agents).contains(target),
{
    lemma_hint_pairs_shape(agents, metadata, configured_ids(agents), alias_map_spec(agents), source, target);
    if !configured_ids(agents).contains(target) {
        lemma_aliases_lead_to_configured_agents(agents, target);
    }
}

/// Relationship hints are deduplicated: hint edges ordered strictly by pair, as
/// `relationship_hint_edges` returns them, never join the same pair twice.
pub proof fn law_hint_edges_are_deduplicated(edges: Seq<EdgeView>, i: int, j: int)
    requires
        pairs_strictly_sorted(edges),
        0 <= i < edges.len(),
        0 <= j < edges.len(),
        i != j,
    ensures
        !(edges[i].source == edges[j].source && edges[i].target == edges[j].target),
{
    if i < j {
        assert(pair_lt(edges[i], edges[j]));
    } else {
        assert(pair_lt(edges[j], edges[i]));
    }
    lemma_pair_lt_facts(edges[i], edges[j], edges[i]);
    lemma_pair_lt_facts(edges[j], edges[i], edges[j]);
}

/// A character that key normalization lets through before words are joined.
pub open spec fn cleaned_char(c: char) -> bool {
    is_ascii_alphanumeric(c) || c == ' ' || c == '-' || c == '_'
}

/// A character of a finished agent key.
pub open spec fn slug_char(c: char) -> bool {
    is_ascii_alphanumeric(c) || c == '-'
}

pub open spec fn all_cleaned(s: Seq<char>) -> bool {
    forall|i: int| 0 <= i < s.len() ==> cleaned_char(#[trigger] s[i])
}

proof fn lemma_trim_start_keeps_cleaned(s: Seq<char>)
    requires
        all_cleaned(s),
    ensures
        all_cleaned(trim_start_ws(s)),
    decreases s.len(),
{
    if s.len() > 0 && is_unicode_whitespace(s[0]) {
        assert forall|i: int| 0 <= i < s.skip(1).len() implies cleaned_char(#[trigger] s.skip(1)[i]) by {
            assert(s.skip(1)[i] == s[i + 1]);
        }
        lemma_trim_start_keeps_cleaned(s.skip(1));
    }
}

proof fn lemma_trim_end_keeps_cleaned(s: Seq<char>)
    requires
        all_cleaned(s),
    ensures
        all_cleaned(trim_end_ws(s)),
    decreases s.len(),
{
    if s.len() > 0 && is_unicode_whitespace(s.last()) {
        assert forall|i: int| 0 <= i < s.drop_last().len() implies cleaned_char(#[trigger] s.drop_last()[i]) by {
            assert(s.drop_last()[i] == s[i]);
        }
        lemma_trim_end_keeps_cleaned(s.drop_last());
    }
}

proof fn lemma_trim_keeps_cleaned(s: Seq<char>)
    requires
        all_cleaned(s),
    ensures
        all_cleaned(trim_ws(s)),
{
    lemma_trim_start_keeps_cleaned(s);
    lemma_trim_end_keeps_cleaned(trim_start_ws(s));
}

proof fn lemma_strip_suffixes_keeps_cleaned(s: Seq<char>)
    requires
        all_cleaned(s),
    ensures
        all_cleaned(strip_agent_suffixes(s)),
    decreases s.len(),
{
    if s.len() >= 6 && s.skip(s.len() - 6) == " agent"@ {
        let t = s.take(s.len() - 6);
        assert forall|i: int| 0 <= i < t.len() implies cleaned_char(#[trigger] t[i]) by {
            assert(t[i] == s[i]);
        }
        lemma_strip_suffixes_keeps_cleaned(t);
    }
}

/// Joining words never leaves a space: every character is a non-space character of the
/// input or a '-'.
proof fn lemma_dash_runs_chars(s: Seq<char>)
    requires
        all_cleaned(s),
    ensures
        forall|i: int| 0 <= i < dash_runs(s).len() ==> {
            let c = #[trigger] dash_runs(s)[i];
            is_ascii_alphanumeric(c) || c == '-' || c == '_'
        },
    decreases s.len(),
{
    if s.len() > 0 {
        let rest = s.skip(1);
        assert forall|i: int| 0 <= i < rest.len() implies cleaned_char(#[trigger] rest[i]) by {
            assert(rest[i] == s[i + 1]);
        }
        lemma_dash_runs_chars(rest);
        assert(cleaned_char(s[0]));
        if s[0] == ' ' {
            if s.len() == 1 || s[1] == ' ' {
            } else {
                let d = dash_runs(s);
                assert(d == seq!['-'] + dash_runs(rest));
                assert forall|i: int| 0 <= i < d.len() implies {
                    let c = #[trigger] d[i];
                    is_ascii_alphanumeric(c) || c == '-' || c == '_'
                } by {
                    if i > 0 {
                        assert(d[i] == dash_runs(rest)[i - 1]);
                    }
                }
            }
        } else {
            let d = dash_runs(s);
            assert(d == seq![s[0]] + dash_runs(rest));
            assert forall|i: int| 0 <= i < d.len() implies {
                let c = #[trigger] d[i];
                is_ascii_alphanumeric(c) || c == '-' || c == '_'
            } by {
                if i > 0 {
                    assert(d[i] == dash_runs(rest)[i - 1]);
                }
            }
        }
    }
}

/// Agent keys are slugs: whatever the name or reference, its lookup key holds only
/// ASCII letters, digits and '-'.
pub proof fn law_agent_keys_are_slugs(raw: Seq<char>)
    ensures
        forall|i: int| 0 <= i < agent_key(raw).len() ==> slug_char(#[trigger] agent_key(raw)[i]),
{
    let cleaned = remove_double_stars(unicode_lowercase(raw)).map_values(|c: char| key_char(c));
    assert forall|i: int| 0 <= i < cleaned.len() implies cleaned_char(#[trigger] cleaned[i]) by {
    }
    lemma_trim_keeps_cleaned(cleaned);
    lemma_strip_suffixes_keeps_cleaned(trim_ws(cleaned));
    lemma_trim_keeps_cleaned(strip_agent_suffixes(trim_ws(cleaned)));
    let trimmed = trim_ws(strip_agent_suffixes(trim_ws(cleaned)));
    lemma_dash_runs_chars(trimmed);
}

} // verus!
