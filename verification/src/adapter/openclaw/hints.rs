//! Relationship hints between agents, read from the OpenClaw configuration and the
//! agents' local metadata (`AGENTS.md`, `agent.json`).
use vstd::prelude::*;
use crate::chars::{
    find_from, find_from_exec, has_prefix, occurs_at, occurs_at_exec, starts_with_str, string_of, sub_chars, trim_chars,
    trim_ws,
};
use crate::text::{chars_of, is_blank, owned, str_eq, str_is_blank};
use crate::json::JsonValue;
use crate::models::graph::{AgentEdge, AgentEdgeKind, EdgeView, edge_views};
use crate::graph_service::{contains_id, has_pair, id_set, insert_edge, lemma_pair_lt_facts, pair_lt, pairs_strictly_sorted};

verus! {

/// What `str::to_lowercase` gives for a string: its Unicode lower-case form.
pub uninterp spec fn unicode_lowercase(s: Seq<char>) -> Seq<char>;

/// Trusted: calls `str::to_lowercase`, whose result is a function of its argument
/// alone; the contract names that result and states nothing more about it.
#[verifier::external_body]
pub(crate) fn to_lowercase(s: &str) -> (r: String)
    ensures
        r@ == unicode_lowercase(s@),
{
    s.to_lowercase()
}

/// `s` with every `**` removed, scanning from the left.
pub open spec fn remove_double_stars(s: Seq<char>) -> Seq<char>
    decreases s.len(),
{
    if s.len() == 0 {
        s
    } else if s.len() >= 2 && s[0] == '*' && s[1] == '*' {
        remove_double_stars(s.skip(2))
    } else {
        seq![s[0]] + remove_double_stars(s.skip(1))
    }
}

pub open spec fn is_ascii_alphanumeric(c: char) -> bool {
    ('0' <= c && c <= '9') || ('a' <= c && c <= 'z') || ('A' <= c && c <= 'Z')
}

/// A character kept by key normalization; all others become spaces.
pub open spec fn key_char(c: char) -> char {
    if is_ascii_alphanumeric(c) || c == ' ' || c == '-' || c == '_' { c } else { ' ' }
}

/// `s` without every trailing " agent".
pub open spec fn strip_agent_suffixes(s: Seq<char>) -> Seq<char>
    decreases s.len(),
{
    if s.len() >= 6 && s.skip(s.len() - 6) == " agent"@ {
        strip_agent_suffixes(s.take(s.len() - 6))
    } else {
        s
    }
}

/// Words separated by spaces, joined by '-': every run of spaces that is followed by
/// another character becomes one '-'.
pub open spec fn dash_runs(s: Seq<char>) -> Seq<char>
    decreases s.len(),
{
    if s.len() == 0 {
        s
    } else if s[0] == ' ' {
        if s.len() == 1 || s[1] == ' ' {
            dash_runs(s.skip(1))
        } else {
            seq!['-'] + dash_runs(s.skip(1))
        }
    } else {
        seq![s[0]] + dash_runs(s.skip(1))
    }
}

/// The key of an already lower-cased name or reference: `**` removed, other characters
/// than ASCII letters, digits, ' ', '-' and '_' blanked, trimmed, trailing " agent"
/// removed, words joined by '-', and '_' turned into '-'.
pub open spec fn agent_key_lowered(lowered: Seq<char>) -> Seq<char> {
    let cleaned = remove_double_stars(lowered).map_values(|c: char| key_char(c));
    let trimmed = trim_ws(strip_agent_suffixes(trim_ws(cleaned)));
    dash_runs(trimmed).map_values(|c: char| if c == '_' { '-' } else { c })
}

/// The key under which an agent name or reference is looked up: the key of its
/// lower-cased form.
pub open spec fn agent_key(raw: Seq<char>) -> Seq<char> {
    agent_key_lowered(unicode_lowercase(raw))
}

fn remove_double_stars_exec(s: &Vec<char>) -> (r: Vec<char>)
    ensures
        r@ == remove_double_stars(s@),
{
    let mut out: Vec<char> = Vec::new();
    let mut i: usize = 0;
    assert(s@.skip(0) =~= s@);
    while i < s.len()
        invariant
            i <= s.len(),
            remove_double_stars(s@) == out@ + remove_double_stars(s@.skip(i as int)),
        decreases s.len() - i,
    {
        let ghost rest = s@.skip(i as int);
        if i + 1 < s.len() && s[i] == '*' && s[i + 1] == '*' {
            assert(rest.skip(2) =~= s@.skip(i + 2));
            i = i + 2;
        } else {
            assert(rest.skip(1) =~= s@.skip(i + 1));
            assert(rest[0] == s@[i as int]);
            let ghost before = out@;
            out.push(s[i]);
            assert(out@ =~= before + seq![s@[i as int]]);
            assert(before + remove_double_stars(rest) =~= out@ + remove_double_stars(s@.skip(i + 1)));
            i = i + 1;
        }
    }
    assert(s@.skip(s.len() as int) =~= Seq::<char>::empty());
    assert(out@ + Seq::<char>::empty() =~= out@);
    out
}

fn key_char_exec(c: char) -> (r: char)
    ensures
        r == key_char(c),
{
    if ('0' <= c && c <= '9') || ('a' <= c && c <= 'z') || ('A' <= c && c <= 'Z') || c == ' ' || c == '-' || c == '_' {
        c
    } else {
        ' '
    }
}

fn strip_agent_suffixes_exec(s: &Vec<char>) -> (r: Vec<char>)
    ensures
        r@ == strip_agent_suffixes(s@),
{
    let suffix = chars_of(" agent");
    let mut n: usize = s.len();
    assert(s@.take(n as int) =~= s@);
    loop
        invariant
            n <= s.len(),
            suffix@ == " agent"@,
            strip_agent_suffixes(s@) == strip_agent_suffixes(s@.take(n as int)),
        ensures
            n <= s.len(),
            strip_agent_suffixes(s@) == s@.take(n as int),
        decreases n,
    {
        let ghost t = s@.take(n as int);
        proof { reveal_strlit(" agent"); }
        if n >= 6 && occurs_at_exec_six(s, &suffix, n - 6) {
            assert(t.skip(t.len() - 6) =~= s@.subrange(n - 6, n as int));
            assert(t.take(t.len() - 6) =~= s@.take(n - 6));
            n = n - 6;
        } else {
            assert(n >= 6 ==> t.skip(t.len() - 6) =~= s@.subrange(n - 6, n as int));
            assert(strip_agent_suffixes(t) == t);
            break;
        }
    }
    let r = sub_chars(s, 0, n);
    assert(s@.subrange(0, n as int) =~= s@.take(n as int));
    r
}

fn occurs_at_exec_six(s: &Vec<char>, suffix: &Vec<char>, k: usize) -> (r: bool)
    requires
        suffix@.len() == 6,
        k + 6 <= s@.len(),
    ensures
        r == (s@.subrange(k as int, k + 6) == suffix@),
{
    crate::chars::occurs_at_exec(s, suffix, k)
}

fn dash_runs_exec(s: &Vec<char>) -> (r: Vec<char>)
    ensures
        r@ == dash_runs(s@),
{
    let mut out: Vec<char> = Vec::new();
    let mut i: usize = 0;
    assert(s@.skip(0) =~= s@);
    while i < s.len()
        invariant
            i <= s.len(),
            dash_runs(s@) == out@ + dash_runs(s@.skip(i as int)),
        decreases s.len() - i,
    {
        let ghost rest = s@.skip(i as int);
        assert(rest.skip(1) =~= s@.skip(i + 1));
        assert(rest[0] == s@[i as int]);
        let ghost before = out@;
        if s[i] == ' ' {
            if i + 1 == s.len() || s[i + 1] == ' ' {
            } else {
                assert(rest[1] == s@[i + 1]);
                out.push('-');
                assert(out@ =~= before + seq!['-']);
                assert(before + (seq!['-'] + dash_runs(rest.skip(1))) =~= out@ + dash_runs(rest.skip(1)));
            }
        } else {
            out.push(s[i]);
            assert(out@ =~= before + seq![s@[i as int]]);
            assert(before + (seq![s@[i as int]] + dash_runs(rest.skip(1))) =~= out@ + dash_runs(rest.skip(1)));
        }
        i = i + 1;
    }
    assert(s@.skip(s.len() as int) =~= Seq::<char>::empty());
    assert(out@ + Seq::<char>::empty() =~= out@);
    out
}

/// The lookup key for an agent name or reference, as [`agent_key`] describes.
pub fn normalize_agent_key(raw: &str) -> (r: String)
    ensures
        r@ == agent_key(raw@),
{
    let lowered = to_lowercase(raw);
    lowercase_agent_key(lowered.as_str())
}

/// The lookup key of an already lower-cased name or reference, as
/// [`agent_key_lowered`] describes.
pub fn lowercase_agent_key(lowered: &str) -> (r: String)
    ensures
        r@ == agent_key_lowered(lowered@),
{
    let chars = chars_of(lowered);
    let unstarred = remove_double_stars_exec(&chars);
    let mut cleaned: Vec<char> = Vec::new();
    let mut i: usize = 0;
    while i < unstarred.len()
        invariant
            i <= unstarred.len(),
            cleaned@ == unstarred@.take(i as int).map_values(|c: char| key_char(c)),
        decreases unstarred.len() - i,
    {
        cleaned.push(key_char_exec(unstarred[i]));
        i = i + 1;
        assert(cleaned@ =~= unstarred@.take(i as int).map_values(|c: char| key_char(c)));
    }
    assert(unstarred@.take(unstarred.len() as int) =~= unstarred@);
    let trimmed = trim_chars(&cleaned);
    let stripped = strip_agent_suffixes_exec(&trimmed);
    let trimmed_again = trim_chars(&stripped);
    let dashed = dash_runs_exec(&trimmed_again);
    let mut out: Vec<char> = Vec::new();
    let mut j: usize = 0;
    while j < dashed.len()
        invariant
            j <= dashed.len(),
            out@ == dashed@.take(j as int).map_values(|c: char| if c == '_' { '-' } else { c }),
        decreases dashed.len() - j,
    {
        let c = dashed[j];
        out.push(if c == '_' { '-' } else { c });
        j = j + 1;
        assert(out@ =~= dashed@.take(j as int).map_values(|c: char| if c == '_' { '-' } else { c }));
    }
    assert(dashed@.take(dashed.len() as int) =~= dashed@);
    string_of(&out)
}

/// An agent listed in the OpenClaw configuration: its id, display name and the agents
/// it may hand work to.
#[derive(Clone, Debug, Default, PartialEq, Eq)]
pub struct AgentConfigEntry {
    pub id: String,
    pub name: String,
    pub allow_agents: Vec<String>,
}

/// The aliases of the agents, as inserting them in order into a map: each agent's id
/// key, then its name key when the name is not blank, both leading to the id.
pub open spec fn alias_map_spec(agents: Seq<AgentConfigEntry>) -> Map<Seq<char>, Seq<char>>
    decreases agents.len(),
{
    if agents.len() == 0 {
        Map::empty()
    } else {
        let a = agents.last();
        let m = alias_map_spec(agents.drop_last()).insert(agent_key(a.id@), a.id@);
        if !is_blank(a.name@) { m.insert(agent_key(a.name@), a.id@) } else { m }
    }
}

/// Keys mapped to agent ids, each key once.
pub struct AliasMap {
    pub entries: Vec<(String, String)>,
}

/// The map that a list of distinct-keyed pairs stands for.
pub open spec fn pairs_map(entries: Seq<(String, String)>) -> Map<Seq<char>, Seq<char>>
    decreases entries.len(),
{
    if entries.len() == 0 {
        Map::empty()
    } else {
        pairs_map(entries.drop_last()).insert(entries.last().0@, entries.last().1@)
    }
}

pub open spec fn distinct_keys(entries: Seq<(String, String)>) -> bool {
    forall|i: int, j: int| 0 <= i < j < entries.len() ==> (#[trigger] entries[i]).0@ != (#[trigger] entries[j]).0@
}

impl AliasMap {
    pub open spec fn wf(&self) -> bool {
        distinct_keys(self.entries@)
    }

    pub open spec fn map(&self) -> Map<Seq<char>, Seq<char>> {
        pairs_map(self.entries@)
    }
}

proof fn lemma_pairs_map_index(entries: Seq<(String, String)>, key: Seq<char>)
    requires
        distinct_keys(entries),
    ensures
        forall|k: int| 0 <= k < entries.len() && (#[trigger] entries[k]).0@ == key ==>
            pairs_map(entries).contains_key(key) && pairs_map(entries)[key] == entries[k].1@,
        (forall|k: int| 0 <= k < entries.len() ==> (#[trigger] entries[k]).0@ != key) ==> !pairs_map(entries).contains_key(key),
    decreases entries.len(),
{
    if entries.len() > 0 {
        let front = entries.drop_last();
        assert forall|i: int, j: int| 0 <= i < j < front.len() implies (#[trigger] front[i]).0@ != (#[trigger] front[j]).0@ by {
            assert(front[i] == entries[i] && front[j] == entries[j]);
        }
        lemma_pairs_map_index(front, key);
        assert forall|k: int| 0 <= k < entries.len() && (#[trigger] entries[k]).0@ == key implies
            pairs_map(entries).contains_key(key) && pairs_map(entries)[key] == entries[k].1@ by {
            if k < entries.len() - 1 {
                assert(front[k] == entries[k]);
                assert(entries.last().0@ != key);
            }
        }
        if forall|k: int| 0 <= k < entries.len() ==> (#[trigger] entries[k]).0@ != key {
            assert forall|k: int| 0 <= k < front.len() implies (#[trigger] front[k]).0@ != key by {
                assert(front[k] == entries[k]);
            }
            assert(entries[entries.len() - 1].0@ != key);
        }
    }
}

proof fn lemma_pairs_map_update(entries: Seq<(String, String)>, k: int, pair: (String, String))
    requires
        distinct_keys(entries),
        0 <= k < entries.len(),
        entries[k].0@ == pair.0@,
    ensures
        pairs_map(entries.update(k, pair)) == pairs_map(entries).insert(pair.0@, pair.1@),
    decreases entries.len(),
{
    let front = entries.drop_last();
    let updated = entries.update(k, pair);
    if k == entries.len() - 1 {
        assert(updated.drop_last() =~= front);
        assert(pairs_map(updated) =~= pairs_map(entries).insert(pair.0@, pair.1@));
    } else {
        assert forall|i: int, j: int| 0 <= i < j < front.len() implies (#[trigger] front[i]).0@ != (#[trigger] front[j]).0@ by {
            assert(front[i] == entries[i] && front[j] == entries[j]);
        }
        lemma_pairs_map_update(front, k, pair);
        assert(updated.drop_last() =~= front.update(k, pair));
        assert(updated.last() == entries.last());
        assert(entries[k].0@ != entries[entries.len() - 1].0@);
        assert(pairs_map(updated) =~= pairs_map(entries).insert(pair.0@, pair.1@));
    }
}

/// The value under `key`.
pub fn alias_lookup(aliases: &AliasMap, key: &String) -> (r: Option<String>)
    requires
        aliases.wf(),
    ensures
        match r {
            Some(v) => aliases.map().contains_key(key@) && aliases.map()[key@] == v@,
            None => !aliases.map().contains_key(key@),
        },
{
    proof { lemma_pairs_map_index(aliases.entries@, key@); }
    let mut k: usize = 0;
    while k < aliases.entries.len()
        invariant
            k <= aliases.entries.len(),
            aliases.wf(),
            forall|m: int| 0 <= m < k ==> (#[trigger] aliases.entries@[m]).0@ != key@,
        decreases aliases.entries.len() - k,
    {
        if str_eq(aliases.entries[k].0.as_str(), key.as_str()) {
            proof { lemma_pairs_map_index(aliases.entries@, key@); }
            assert(aliases.entries@[k as int].0@ == key@);
            return Some(owned(aliases.entries[k].1.as_str()));
        }
        k = k + 1;
    }
    None
}

/// Maps `key` to `value`, replacing an earlier value of `key`.
pub fn alias_insert(aliases: &mut AliasMap, key: String, value: String)
    requires
        old(aliases).wf(),
    ensures
        final(aliases).wf(),
        final(aliases).map() == old(aliases).map().insert(key@, value@),
{
    let ghost old_entries = aliases.entries@;
    proof { lemma_pairs_map_index(old_entries, key@); }
    let mut k: usize = 0;
    while k < aliases.entries.len()
        invariant
            aliases.entries@ == old_entries,
            old_entries == old(aliases).entries@,
            distinct_keys(old_entries),
            k <= aliases.entries.len(),
            forall|m: int| 0 <= m < k ==> (#[trigger] aliases.entries@[m]).0@ != key@,
        decreases aliases.entries.len() - k,
    {
        if str_eq(aliases.entries[k].0.as_str(), key.as_str()) {
            let ghost pair = (key, value);
            proof { lemma_pairs_map_update(old_entries, k as int, pair); }
            aliases.entries.set(k, (key, value));
            proof {
                let ne = aliases.entries@;
                assert(ne =~= old_entries.update(k as int, pair));
                assert forall|i: int, j: int| 0 <= i < j < ne.len() implies (#[trigger] ne[i]).0@ != (#[trigger] ne[j]).0@ by {
                    assert(ne[i].0@ == old_entries[i].0@);
                    assert(ne[j].0@ == old_entries[j].0@);
                }
            }
            return;
        }
        k = k + 1;
    }
    let ghost kk = key@;
    let ghost vv = value@;
    aliases.entries.push((key, value));
    proof {
        let ne = aliases.entries@;
        assert(ne.drop_last() =~= old_entries);
        assert forall|i: int, j: int| 0 <= i < j < ne.len() implies (#[trigger] ne[i]).0@ != (#[trigger] ne[j]).0@ by {
            if j == ne.len() - 1 {
                assert(ne[i] == old_entries[i]);
            } else {
                assert(ne[i] == old_entries[i] && ne[j] == old_entries[j]);
            }
        }
    }
}

/// The aliases of the configured agents, as [`alias_map_spec`] describes.
pub fn build_alias_map(agents: &Vec<AgentConfigEntry>) -> (r: AliasMap)
    ensures
        r.wf(),
        r.map() == alias_map_spec(agents@),
{
    let mut aliases = AliasMap { entries: Vec::new() };
    let mut i: usize = 0;
    assert(agents@.take(0) =~= Seq::<AgentConfigEntry>::empty());
    assert(aliases.map() =~= Map::<Seq<char>, Seq<char>>::empty());
    while i < agents.len()
        invariant
            i <= agents.len(),
            aliases.wf(),
            aliases.map() == alias_map_spec(agents@.take(i as int)),
        decreases agents.len() - i,
    {
        let agent = &agents[i];
        assert(agents@.take(i + 1).drop_last() =~= agents@.take(i as int));
        assert(agents@.take(i + 1).last() == *agent);
        alias_insert(&mut aliases, normalize_agent_key(agent.id.as_str()), agent.id.clone());
        if !str_is_blank(agent.name.as_str()) {
            alias_insert(&mut aliases, normalize_agent_key(agent.name.as_str()), agent.id.clone());
        }
        i = i + 1;
    }
    assert(agents@.take(agents.len() as int) =~= agents@);
    aliases
}

/// The agent id that a reference names, if the aliases know it.
pub open spec fn resolve_spec(aliases: Map<Seq<char>, Seq<char>>, candidate: Seq<char>) -> Option<Seq<char>> {
    if aliases.contains_key(agent_key(candidate)) { Some(aliases[agent_key(candidate)]) } else { None }
}

pub fn resolve_agent_reference(candidate: &str, aliases: &AliasMap) -> (r: Option<String>)
    requires
        aliases.wf(),
    ensures
        crate::models::runtime::opt_chars(r) == resolve_spec(aliases.map(), candidate@),
{
    let key = normalize_agent_key(candidate);
    alias_lookup(aliases, &key)
}

/// `s` without every leading copy of `p`, as `str::trim_start_matches` removes them.
pub open spec fn strip_repeated_prefix(s: Seq<char>, p: Seq<char>) -> Seq<char>
    decreases s.len(),
{
    if p.len() > 0 && has_prefix(s, p) {
        strip_repeated_prefix(s.skip(p.len() as int), p)
    } else {
        s
    }
}

/// The part of `s` before its first ':', or all of `s` when it has none.
pub open spec fn before_colon(s: Seq<char>) -> Seq<char> {
    match find_from(s, seq![':'], 0) {
        Some(i) => s.take(i),
        None => s,
    }
}

/// The agent reference that a bullet line holds: after the leading "- " and "* "
/// markers and surrounding whitespace, either the text between a leading `**` and the
/// next `**` (no reference when that closing `**` is missing), or the text before the
/// first ':'.
pub open spec fn bullet_candidate(line: Seq<char>) -> Option<Seq<char>> {
    let content = trim_ws(strip_repeated_prefix(strip_repeated_prefix(line, "- "@), "* "@));
    if has_prefix(content, "**"@) {
        let rest = content.skip(2);
        match find_from(rest, "**"@, 0) {
            Some(end) => Some(rest.take(end)),
            None => None,
        }
    } else {
        Some(before_colon(content))
    }
}

/// The agent id that a bullet line refers to, if any.
pub open spec fn markdown_target_spec(line: Seq<char>, aliases: Map<Seq<char>, Seq<char>>) -> Option<Seq<char>> {
    match bullet_candidate(line) {
        Some(candidate) => resolve_spec(aliases, candidate),
        None => None,
    }
}

fn strip_repeated_prefix_exec(v: &Vec<char>, p: &Vec<char>) -> (r: Vec<char>)
    ensures
        r@ == strip_repeated_prefix(v@, p@),
{
    let mut pos: usize = 0;
    assert(v@.skip(0) =~= v@);
    loop
        invariant
            pos <= v.len(),
            strip_repeated_prefix(v@, p@) == strip_repeated_prefix(v@.skip(pos as int), p@),
        ensures
            pos <= v.len(),
            strip_repeated_prefix(v@, p@) == v@.skip(pos as int),
        decreases v.len() - pos,
    {
        let ghost rest = v@.skip(pos as int);
        if p.len() > 0 && occurs_at_exec(v, p, pos) {
            assert(rest.take(p.len() as int) =~= v@.subrange(pos as int, pos + p.len()));
            assert(rest.skip(p.len() as int) =~= v@.skip(pos + p.len()));
            pos = pos + p.len();
        } else {
            assert(p.len() <= rest.len() ==> rest.take(p.len() as int) =~= v@.subrange(pos as int, pos + p.len()));
            break;
        }
    }
    let r = sub_chars(v, pos, v.len());
    assert(r@ =~= v@.skip(pos as int));
    r
}

/// The agent that a bullet line of a "Works with" section names, if the aliases know
/// it.
pub fn extract_markdown_target(bullet_line: &str, aliases: &AliasMap) -> (r: Option<String>)
    requires
        aliases.wf(),
    ensures
        crate::models::runtime::opt_chars(r) == markdown_target_spec(bullet_line@, aliases.map()),
{
    let line = chars_of(bullet_line);
    let dash = chars_of("- ");
    let star = chars_of("* ");
    let no_dash = strip_repeated_prefix_exec(&line, &dash);
    let no_star = strip_repeated_prefix_exec(&no_dash, &star);
    let content = trim_chars(&no_star);
    if starts_with_str(&content, "**") {
        proof { reveal_strlit("**"); }
        let rest = sub_chars(&content, 2, content.len());
        assert(rest@ =~= content@.skip(2));
        let closing = chars_of("**");
        match find_from_exec(&rest, &closing, 0) {
            Some(end) => {
                proof { lemma_find_from_bounds(rest@, closing@, 0); }
                let candidate = sub_chars(&rest, 0, end);
                assert(candidate@ =~= rest@.take(end as int));
                let text = string_of(&candidate);
                resolve_agent_reference(text.as_str(), aliases)
            },
            None => None,
        }
    } else {
        let colon = vec![':'];
        assert(colon@ =~= seq![':']);
        let candidate = match find_from_exec(&content, &colon, 0) {
            Some(i) => {
                proof { lemma_find_from_bounds(content@, colon@, 0); }
                let c = sub_chars(&content, 0, i);
                assert(c@ =~= content@.take(i as int));
                c
            },
            None => content,
        };
        let text = string_of(&candidate);
        resolve_agent_reference(text.as_str(), aliases)
    }
}

/// Where [`find_from`] finds `p`, it occurs there, at or after `from`.
pub proof fn lemma_find_from_bounds(s: Seq<char>, p: Seq<char>, from: int)
    ensures
        match find_from(s, p, from) {
            Some(i) => from <= i && i + p.len() <= s.len() && occurs_at(s, p, i),
            None => true,
        },
    decreases s.len() - from,
{
    if from < 0 || from + p.len() > s.len() {
    } else if occurs_at(s, p, from) {
    } else {
        if p.len() == 0 {
            assert(s.subrange(from, from) =~= p);
        }
        lemma_find_from_bounds(s, p, from + 1);
    }
}

/// The length of the first line of `s`: the index of its first '\n', or its length.
pub open spec fn first_newline(s: Seq<char>) -> nat
    decreases s.len(),
{
    if s.len() == 0 || s[0] == '\n' {
        0
    } else {
        1 + first_newline(s.skip(1))
    }
}

/// The lines of `s`, split at each '\n'; a final '\n' ends the last line and opens
/// no new one. (A '\r' before a '\n' stays on its line; every caller trims it.)
pub open spec fn text_lines(s: Seq<char>) -> Seq<Seq<char>>
    decreases s.len(),
{
    if s.len() == 0 {
        seq![]
    } else {
        let i = first_newline(s);
        if i >= s.len() {
            seq![s]
        } else {
            seq![s.take(i as int)] + text_lines(s.skip(i + 1 as int))
        }
    }
}

proof fn lemma_first_newline_bound(s: Seq<char>)
    ensures
        first_newline(s) <= s.len(),
        first_newline(s) < s.len() ==> s[first_newline(s) as int] == '\n',
        forall|k: int| 0 <= k < first_newline(s) ==> s[k] != '\n',
    decreases s.len(),
{
    if s.len() > 0 && s[0] != '\n' {
        lemma_first_newline_bound(s.skip(1));
        assert forall|k: int| 0 <= k < first_newline(s) implies s[k] != '\n' by {
            if k > 0 {
                assert(s.skip(1)[k - 1] == s[k]);
            }
        }
    }
}

proof fn lemma_first_newline_at(s: Seq<char>, j: int)
    requires
        0 <= j <= s.len(),
        forall|k: int| 0 <= k < j ==> s[k] != '\n',
        j == s.len() || s[j] == '\n',
    ensures
        first_newline(s) == j,
    decreases s.len(),
{
    if j > 0 {
        assert forall|k: int| 0 <= k < j - 1 implies s.skip(1)[k] != '\n' by {
            assert(s.skip(1)[k] == s[k + 1]);
        }
        lemma_first_newline_at(s.skip(1), j - 1);
    }
}

/// The views of a sequence of character vectors.
pub open spec fn line_views(lines: Seq<Vec<char>>) -> Seq<Seq<char>> {
    lines.map_values(|l: Vec<char>| l@)
}

fn split_lines(s: &Vec<char>) -> (r: Vec<Vec<char>>)
    ensures
        line_views(r@) == text_lines(s@),
{
    let mut out: Vec<Vec<char>> = Vec::new();
    let mut pos: usize = 0;
    assert(s@.skip(0) =~= s@);
    while pos < s.len()
        invariant
            pos <= s.len(),
            text_lines(s@) == line_views(out@) + text_lines(s@.skip(pos as int)),
        decreases s.len() - pos,
    {
        let mut j: usize = pos;
        while j < s.len() && s[j] != '\n'
            invariant
                pos <= j <= s.len(),
                forall|k: int| pos <= k < j ==> s@[k] != '\n',
            decreases s.len() - j,
        {
            j = j + 1;
        }
        let ghost rest = s@.skip(pos as int);
        proof {
            assert forall|k: int| 0 <= k < j - pos implies rest[k] != '\n' by {
                assert(rest[k] == s@[pos + k]);
            }
            if j < s.len() {
                assert(rest[j - pos] == s@[j as int]);
            }
            lemma_first_newline_at(rest, j - pos);
        }
        let line = sub_chars(s, pos, j);
        let ghost before = line_views(out@);
        out.push(line);
        assert(line_views(out@) =~= before + seq![line@]);
        if j == s.len() {
            assert(line@ =~= rest);
            assert(text_lines(rest) == seq![rest]);
            assert(s@.skip(s.len() as int) =~= Seq::<char>::empty());
            assert(text_lines(s@) =~= line_views(out@) + text_lines(s@.skip(s.len() as int)));
            pos = j;
        } else {
            assert(line@ =~= rest.take(j - pos));
            assert(rest.skip(j - pos + 1) =~= s@.skip(j + 1));
            assert(text_lines(rest) == seq![line@] + text_lines(s@.skip(j + 1)));
            assert(text_lines(s@) =~= line_views(out@) + text_lines(s@.skip(j + 1)));
            pos = j + 1;
        }
    }
    assert(s@.skip(pos as int) =~= Seq::<char>::empty());
    assert(line_views(out@) + Seq::<Seq<char>>::empty() =~= line_views(out@));
    out
}

/// A heading line's title as a lookup key: the '#' marks and surrounding whitespace
/// removed, then normalized like an agent name.
pub open spec fn heading_key(trimmed: Seq<char>) -> Seq<char> {
    agent_key(trim_ws(strip_repeated_prefix(trimmed, "#"@)))
}

pub open spec fn is_bullet(trimmed: Seq<char>) -> bool {
    has_prefix(trimmed, "- "@) || has_prefix(trimmed, "* "@)
}

/// The agents that the bullets of the first "Works with" section name, reading `lines`
/// from the top; `inside` tells whether that section has begun. A heading that
/// normalizes to "works-with" opens (or keeps open) the section; any other heading
/// inside it ends the reading.
pub open spec fn works_with_targets(lines: Seq<Seq<char>>, inside: bool, aliases: Map<Seq<char>, Seq<char>>) -> Set<Seq<char>>
    decreases lines.len(),
{
    if lines.len() == 0 {
        Set::empty()
    } else {
        let t = trim_ws(lines[0]);
        let rest = lines.drop_first();
        if has_prefix(t, "#"@) && heading_key(t) == "works-with"@ {
            works_with_targets(rest, true, aliases)
        } else if has_prefix(t, "#"@) && inside {
            Set::empty()
        } else if inside && is_bullet(t) {
            match markdown_target_spec(t, aliases) {
                Some(id) => works_with_targets(rest, inside, aliases).insert(id),
                None => works_with_targets(rest, inside, aliases),
            }
        } else {
            works_with_targets(rest, inside, aliases)
        }
    }
}

/// Adds `s` to `out` unless a string with its characters is there.
fn add_unique(out: &mut Vec<String>, s: String)
    requires
        old(out)@.map_values(|x: String| x@).no_duplicates(),
    ensures
        final(out)@.map_values(|x: String| x@).no_duplicates(),
        crate::graph_service::id_set(final(out)@) == crate::graph_service::id_set(old(out)@).insert(s@),
{
    let ghost ov = out@;
    let mut k: usize = 0;
    while k < out.len()
        invariant
            out@ == ov,
            ov.map_values(|x: String| x@).no_duplicates(),
            k <= out.len(),
            forall|m: int| 0 <= m < k ==> (#[trigger] ov[m])@ != s@,
        decreases out.len() - k,
    {
        if str_eq(out[k].as_str(), s.as_str()) {
            assert(crate::graph_service::id_set(ov).contains(s@)) by {
                assert(ov[k as int]@ == s@);
            }
            assert(crate::graph_service::id_set(ov) =~= crate::graph_service::id_set(ov).insert(s@));
            return;
        }
        k = k + 1;
    }
    let ghost sv = s@;
    out.push(s);
    proof {
        let nv = out@;
        let nm = nv.map_values(|x: String| x@);
        let om = ov.map_values(|x: String| x@);
        assert(nm =~= om.push(sv));
        assert forall|i: int, j: int| 0 <= i < nm.len() && 0 <= j < nm.len() && i != j implies
            #[trigger] nm[i] != #[trigger] nm[j] by {
            if i < om.len() && j < om.len() {
                assert(om[i] != om[j]);
            } else if i < om.len() {
                assert(om[i] == ov[i]@);
            } else {
                assert(om[j] == ov[j]@);
            }
        }
        assert forall|x: Seq<char>| crate::graph_service::id_set(nv).contains(x) <==>
            crate::graph_service::id_set(ov).insert(sv).contains(x) by {
            if crate::graph_service::id_set(nv).contains(x) {
                let m = choose|m: int| 0 <= m < nv.len() && nv[m]@ == x;
                if m < ov.len() {
                    assert(ov[m] == nv[m]);
                }
            }
            if crate::graph_service::id_set(ov).contains(x) {
                let m = choose|m: int| 0 <= m < ov.len() && ov[m]@ == x;
                assert(nv[m] == ov[m]);
            }
            if x == sv {
                assert(nv[ov.len() as int]@ == sv);
            }
        }
        assert(crate::graph_service::id_set(nv) =~= crate::graph_service::id_set(ov).insert(sv));
    }
}

/// The agents named in the "Works with" section of an agent's `AGENTS.md`, as
/// [`works_with_targets`] reads its lines; each once.
pub fn parse_works_with_targets(markdown: &str, aliases: &AliasMap) -> (r: Vec<String>)
    requires
        aliases.wf(),
    ensures
        r@.map_values(|x: String| x@).no_duplicates(),
        crate::graph_service::id_set(r@) == works_with_targets(text_lines(markdown@), false, aliases.map()),
{
    let text = chars_of(markdown);
    let lines = split_lines(&text);
    let ghost all = line_views(lines@);
    let mut targets: Vec<String> = Vec::new();
    let mut inside = false;
    let mut i: usize = 0;
    assert(all.skip(0) =~= all);
    assert(crate::graph_service::id_set(targets@) =~= Set::<Seq<char>>::empty());
    assert(targets@.map_values(|x: String| x@) =~= Seq::<Seq<char>>::empty());
    while i < lines.len()
        invariant
            all == line_views(lines@),
            all == text_lines(markdown@),
            aliases.wf(),
            i <= lines.len(),
            targets@.map_values(|x: String| x@).no_duplicates(),
            crate::graph_service::id_set(targets@) + works_with_targets(all.skip(i as int), inside, aliases.map())
                == works_with_targets(all, false, aliases.map()),
        decreases lines.len() - i,
    {
        let ghost rest = all.skip(i as int);
        let ghost before = crate::graph_service::id_set(targets@);
        assert(rest[0] == lines@[i as int]@);
        assert(rest.drop_first() =~= all.skip(i + 1));
        let trimmed = trim_chars(&lines[i]);
        let trimmed_text = string_of(&trimmed);
        if starts_with_str(&trimmed, "#") {
            let hashes = chars_of("#");
            let unhashed = strip_repeated_prefix_exec(&trimmed, &hashes);
            let title = trim_chars(&unhashed);
            let title_text = string_of(&title);
            let key = normalize_agent_key(title_text.as_str());
            if str_eq(key.as_str(), "works-with") {
                inside = true;
                i = i + 1;
                continue;
            }
            if inside {
                assert(works_with_targets(rest, inside, aliases.map()) =~= Set::<Seq<char>>::empty());
                assert(before + Set::<Seq<char>>::empty() =~= before);
                return targets;
            }
        }
        if inside && (starts_with_str(&trimmed, "- ") || starts_with_str(&trimmed, "* ")) {
            match extract_markdown_target(trimmed_text.as_str(), aliases) {
                Some(target) => {
                    let ghost id = target@;
                    add_unique(&mut targets, target);
                    assert(before.insert(id) + works_with_targets(all.skip(i + 1), inside, aliases.map())
                        =~= before + works_with_targets(all.skip(i + 1), inside, aliases.map()).insert(id));
                },
                None => {},
            }
        }
        i = i + 1;
    }
    assert(all.skip(lines.len() as int) =~= Seq::<Seq<char>>::empty());
    assert(crate::graph_service::id_set(targets@) + Set::<Seq<char>>::empty() =~= crate::graph_service::id_set(targets@));
    targets
}

/// The references that follow `p` in `s`, from index `from` on: after each occurrence
/// of `p`, the text up to the next " agent", trimmed, when there is such a " agent"
/// and the text is not blank. The search goes on right after the occurrence of `p`.
pub open spec fn candidates_after(s: Seq<char>, p: Seq<char>, from: int) -> Seq<Seq<char>>
    decreases s.len() - from,
{
    if p.len() == 0 {
        seq![]
    } else {
        match find_from(s, p, from) {
            None => seq![],
            Some(i) => {
                proof { lemma_find_from_bounds(s, p, from); }
                let start = i + p.len();
                let here = match find_from(s, " agent"@, start) {
                    Some(end) => {
                        let c = trim_ws(s.subrange(start, end));
                        if c.len() > 0 { seq![c] } else { seq![] }
                    },
                    None => seq![],
                };
                here + candidates_after(s, p, start)
            },
        }
    }
}

/// The agent references in a free text that delegates work: those after "delegate to
/// the ", then those after "delegate to ", in the lower-cased text.
pub open spec fn delegation_candidates_spec(text: Seq<char>) -> Seq<Seq<char>> {
    delegation_candidates_lowered(unicode_lowercase(text))
}

/// The agent references in an already lower-cased text: those after "delegate to the ",
/// then those after "delegate to ".
pub open spec fn delegation_candidates_lowered(lower: Seq<char>) -> Seq<Seq<char>> {
    candidates_after(lower, "delegate to the "@, 0) + candidates_after(lower, "delegate to "@, 0)
}

fn push_candidates_after(lower: &Vec<char>, pattern: &Vec<char>, out: &mut Vec<String>)
    requires
        pattern@.len() > 0,
    ensures
        final(out)@.map_values(|x: String| x@) == old(out)@.map_values(|x: String| x@) + candidates_after(lower@, pattern@, 0),
{
    let agent = chars_of(" agent");
    let mut search_start: usize = 0;
    let ghost first = out@.map_values(|x: String| x@);
    loop
        invariant
            pattern@.len() > 0,
            agent@ == " agent"@,
            search_start <= lower.len(),
            first == old(out)@.map_values(|x: String| x@),
            first + candidates_after(lower@, pattern@, 0)
                == out@.map_values(|x: String| x@) + candidates_after(lower@, pattern@, search_start as int),
        decreases lower.len() - search_start,
    {
        let ghost before = out@.map_values(|x: String| x@);
        match find_from_exec(lower, pattern, search_start) {
            None => {
                assert(before + Seq::<Seq<char>>::empty() =~= before);
                return;
            },
            Some(index) => {
                proof { lemma_find_from_bounds(lower@, pattern@, search_start as int); }
                let start = index + pattern.len();
                let ghost here = match find_from(lower@, " agent"@, start as int) {
                    Some(end) => {
                        let c = trim_ws(lower@.subrange(start as int, end));
                        if c.len() > 0 { seq![c] } else { seq![] }
                    },
                    None => seq![],
                };
                match find_from_exec(lower, &agent, start) {
                    Some(end) => {
                        proof { lemma_find_from_bounds(lower@, agent@, start as int); }
                        let piece = sub_chars(lower, start, end);
                        let candidate = trim_chars(&piece);
                        if candidate.len() > 0 {
                            out.push(string_of(&candidate));
                        }
                    },
                    None => {},
                }
                assert(out@.map_values(|x: String| x@) =~= before + here);
                assert(before + (here + candidates_after(lower@, pattern@, start as int))
                    =~= out@.map_values(|x: String| x@) + candidates_after(lower@, pattern@, start as int));
                search_start = start;
            },
        }
    }
}

/// The agent references in a text, as [`delegation_candidates_spec`] lists them.
pub fn delegation_candidates(text: &str) -> (r: Vec<String>)
    ensures
        r@.map_values(|x: String| x@) == delegation_candidates_spec(text@),
{
    let lowered = to_lowercase(text);
    lowercase_delegation_candidates(lowered.as_str())
}

/// The agent references in an already lower-cased text, as
/// [`delegation_candidates_lowered`] lists them.
pub fn lowercase_delegation_candidates(lowered: &str) -> (r: Vec<String>)
    ensures
        r@.map_values(|x: String| x@) == delegation_candidates_lowered(lowered@),
{
    let lower = chars_of(lowered);
    let mut out: Vec<String> = Vec::new();
    let with_the = chars_of("delegate to the ");
    let plain = chars_of("delegate to ");
    proof {
        reveal_strlit("delegate to the ");
        reveal_strlit("delegate to ");
    }
    assert(out@.map_values(|x: String| x@) =~= Seq::<Seq<char>>::empty());
    push_candidates_after(&lower, &with_the, &mut out);
    push_candidates_after(&lower, &plain, &mut out);
    assert(Seq::<Seq<char>>::empty() + candidates_after(lower@, with_the@, 0) =~= candidates_after(lower@, with_the@, 0));
    out
}

/// The agent ids that some of the candidates resolve to.
pub open spec fn resolved_targets(candidates: Seq<Seq<char>>, aliases: Map<Seq<char>, Seq<char>>) -> Set<Seq<char>>
    decreases candidates.len(),
{
    if candidates.len() == 0 {
        Set::empty()
    } else {
        let rest = resolved_targets(candidates.drop_last(), aliases);
        match resolve_spec(aliases, candidates.last()) {
            Some(id) => rest.insert(id),
            None => rest,
        }
    }
}

/// The agents that the strings anywhere inside a JSON value delegate to.
pub open spec fn delegate_targets(value: JsonValue, aliases: Map<Seq<char>, Seq<char>>) -> Set<Seq<char>>
    decreases value,
{
    match value {
        JsonValue::Str(text) => resolved_targets(delegation_candidates_spec(text@), aliases),
        JsonValue::Array(items) => delegate_targets_in_items(items@, aliases),
        JsonValue::Object(entries) => delegate_targets_in_entries(entries@, aliases),
        _ => Set::empty(),
    }
}

pub open spec fn delegate_targets_in_items(items: Seq<JsonValue>, aliases: Map<Seq<char>, Seq<char>>) -> Set<Seq<char>>
    decreases items,
{
    if items.len() == 0 {
        Set::empty()
    } else {
        delegate_targets(items[0], aliases) + delegate_targets_in_items(items.subrange(1, items.len() as int), aliases)
    }
}

pub open spec fn delegate_targets_in_entries(entries: Seq<(String, JsonValue)>, aliases: Map<Seq<char>, Seq<char>>) -> Set<Seq<char>>
    decreases entries,
{
    if entries.len() == 0 {
        Set::empty()
    } else {
        delegate_targets(entries[0].1, aliases)
            + delegate_targets_in_entries(entries.subrange(1, entries.len() as int), aliases)
    }
}

/// Adds to `targets` the agents that the strings inside `value` delegate to.
pub fn collect_delegate_targets(value: &JsonValue, aliases: &AliasMap, targets: &mut Vec<String>)
    requires
        aliases.wf(),
        old(targets)@.map_values(|x: String| x@).no_duplicates(),
    ensures
        final(targets)@.map_values(|x: String| x@).no_duplicates(),
        crate::graph_service::id_set(final(targets)@)
            == crate::graph_service::id_set(old(targets)@) + delegate_targets(*value, aliases.map()),
    decreases value,
{
    let ghost first = crate::graph_service::id_set(targets@);
    match value {
        JsonValue::Str(text) => {
            let candidates = delegation_candidates(text.as_str());
            let ghost cands = candidates@.map_values(|x: String| x@);
            let mut i: usize = 0;
            assert(cands.take(0) =~= Seq::<Seq<char>>::empty());
            assert(first + Set::<Seq<char>>::empty() =~= first);
            while i < candidates.len()
                invariant
                    aliases.wf(),
                    cands == candidates@.map_values(|x: String| x@),
                    i <= candidates.len(),
                    targets@.map_values(|x: String| x@).no_duplicates(),
                    crate::graph_service::id_set(targets@) == first + resolved_targets(cands.take(i as int), aliases.map()),
                decreases candidates.len() - i,
            {
                assert(cands.take(i + 1).drop_last() =~= cands.take(i as int));
                assert(cands.take(i + 1).last() == candidates@[i as int]@);
                let ghost before = resolved_targets(cands.take(i as int), aliases.map());
                match resolve_agent_reference(candidates[i].as_str(), aliases) {
                    Some(target) => {
                        let ghost id = target@;
                        add_unique(targets, target);
                        assert((first + before).insert(id) =~= first + before.insert(id));
                    },
                    None => {},
                }
                i = i + 1;
            }
            assert(cands.take(candidates.len() as int) =~= cands);
        },
        JsonValue::Array(items) => {
            let mut i: usize = 0;
            assert(items@.skip(0) =~= items@);
            while i < items.len()
                invariant
                    aliases.wf(),
                    *value == JsonValue::Array(*items),
                    i <= items.len(),
                    targets@.map_values(|x: String| x@).no_duplicates(),
                    crate::graph_service::id_set(targets@) + delegate_targets_in_items(items@.skip(i as int), aliases.map())
                        == first + delegate_targets_in_items(items@, aliases.map()),
                decreases items.len() - i,
            {
                let ghost rest = items@.skip(i as int);
                assert(rest.subrange(1, rest.len() as int) =~= items@.skip(i + 1));
                assert(rest[0] == items@[i as int]);
                let ghost before = crate::graph_service::id_set(targets@);
                assert(decreases_to!(*value => (*value)->Array_0));
                assert(decreases_to!(*items => items@));
                assert(decreases_to!(items@ => items@[i as int]));
                collect_delegate_targets(&items[i], aliases, targets);
                assert(before + delegate_targets(items@[i as int], aliases.map())
                    + delegate_targets_in_items(items@.skip(i + 1), aliases.map())
                    =~= before + delegate_targets_in_items(rest, aliases.map()));
                i = i + 1;
            }
            assert(items@.skip(items.len() as int) =~= Seq::<JsonValue>::empty());
            assert(crate::graph_service::id_set(targets@) + Set::<Seq<char>>::empty() =~= crate::graph_service::id_set(targets@));
        },
        JsonValue::Object(entries) => {
            let mut i: usize = 0;
            assert(entries@.skip(0) =~= entries@);
            while i < entries.len()
                invariant
                    aliases.wf(),
                    *value == JsonValue::Object(*entries),
                    i <= entries.len(),
                    targets@.map_values(|x: String| x@).no_duplicates(),
                    crate::graph_service::id_set(targets@) + delegate_targets_in_entries(entries@.skip(i as int), aliases.map())
                        == first + delegate_targets_in_entries(entries@, aliases.map()),
                decreases entries.len() - i,
            {
                let ghost rest = entries@.skip(i as int);
                assert(rest.subrange(1, rest.len() as int) =~= entries@.skip(i + 1));
                assert(rest[0] == entries@[i as int]);
                let ghost before = crate::graph_service::id_set(targets@);
                assert(decreases_to!(*value => (*value)->Object_0));
                assert(decreases_to!(*entries => entries@));
                assert(decreases_to!(entries@ => entries@[i as int]));
                assert(decreases_to!(entries@[i as int] => entries@[i as int].1));
                collect_delegate_targets(&entries[i].1, aliases, targets);
                assert(before + delegate_targets(entries@[i as int].1, aliases.map())
                    + delegate_targets_in_entries(entries@.skip(i + 1), aliases.map())
                    =~= before + delegate_targets_in_entries(rest, aliases.map()));
                i = i + 1;
            }
            assert(entries@.skip(entries.len() as int) =~= Seq::<(String, JsonValue)>::empty());
            assert(crate::graph_service::id_set(targets@) + Set::<Seq<char>>::empty() =~= crate::graph_service::id_set(targets@));
        },
        _ => {
            assert(first + Set::<Seq<char>>::empty() =~= first);
        },
    }
}

/// The agents that the strings inside `value` delegate to, each once.
pub fn extract_delegate_targets(value: &JsonValue, aliases: &AliasMap) -> (r: Vec<String>)
    requires
        aliases.wf(),
    ensures
        r@.map_values(|x: String| x@).no_duplicates(),
        crate::graph_service::id_set(r@) == delegate_targets(*value, aliases.map()),
{
    let mut targets: Vec<String> = Vec::new();
    assert(targets@.map_values(|x: String| x@) =~= Seq::<Seq<char>>::empty());
    assert(crate::graph_service::id_set(targets@) =~= Set::<Seq<char>>::empty());
    collect_delegate_targets(value, aliases, &mut targets);
    assert(Set::<Seq<char>>::empty() + delegate_targets(*value, aliases.map()) =~= delegate_targets(*value, aliases.map()));
    targets
}

/// Whether relationship hints are read when the configuration does not say.
pub fn default_relationship_hints_enabled() -> (r: bool)
    ensures
        r,
{
    true
}

/// The hint edge of kind `kind` from `source_id` to `target_id`.
pub fn metadata_edge(source_id: &str, target_id: &str, kind: AgentEdgeKind) -> (r: AgentEdge)
    ensures
        r@ == (EdgeView { source: source_id@, target: target_id@, kind }),
{
    AgentEdge { source_id: owned(source_id), target_id: owned(target_id), kind }
}

/// The (source, target) pairs from `source` to each of `targets` but itself.
pub open spec fn pairs_from(source: Seq<char>, targets: Set<Seq<char>>) -> Set<(Seq<char>, Seq<char>)> {
    Set::new(|p: (Seq<char>, Seq<char>)| p.0 == source && targets.contains(p.1) && p.1 != source)
}

/// The kind of the hint edge for a pair: a delegation where some `agent.json` delegates
/// along it, a collaboration otherwise.
pub open spec fn hint_kind(delegates: Set<(Seq<char>, Seq<char>)>, pair: (Seq<char>, Seq<char>)) -> AgentEdgeKind {
    if delegates.contains(pair) {
        AgentEdgeKind::DelegatesToHint
    } else {
        AgentEdgeKind::WorksWithHint
    }
}

/// `edges` are the hint edges of exactly the pairs `pairs`, one each, ordered by pair,
/// each of the kind that [`hint_kind`] gives it; the delegation pairs are among `pairs`.
pub open spec fn hint_edges_match(
    edges: Seq<EdgeView>,
    pairs: Set<(Seq<char>, Seq<char>)>,
    delegates: Set<(Seq<char>, Seq<char>)>,
) -> bool {
    &&& pairs_strictly_sorted(edges)
    &&& delegates.subset_of(pairs)
    &&& forall|x: EdgeView| #[trigger] edges.contains(x) <==> (pairs.contains((x.source, x.target))
            && x.kind == hint_kind(delegates, (x.source, x.target)))
}

/// A string list's id set grows by one element per pushed string.
pub proof fn lemma_id_set_push(ids: Seq<String>, s: String)
    ensures
        id_set(ids.push(s)) == id_set(ids).insert(s@),
{
    let n = ids.push(s);
    assert forall|x: Seq<char>| id_set(n).contains(x) <==> id_set(ids).insert(s@).contains(x) by {
        if id_set(n).contains(x) {
            let m = choose|m: int| 0 <= m < n.len() && (#[trigger] n[m])@ == x;
            if m < ids.len() {
                assert(ids[m] == n[m]);
            }
        }
        if id_set(ids).contains(x) {
            let m = choose|m: int| 0 <= m < ids.len() && (#[trigger] ids[m])@ == x;
            assert(n[m] == ids[m]);
        }
        if x == s@ {
            assert(n[ids.len() as int] == s);
        }
    }
    assert(id_set(n) =~= id_set(ids).insert(s@));
}

/// The id set of a longer prefix adds the next string.
pub proof fn lemma_id_set_take_step(ids: Seq<String>, i: int)
    requires
        0 <= i < ids.len(),
    ensures
        id_set(ids.take(i + 1)) == id_set(ids.take(i)).insert(ids[i]@),
{
    assert(ids.take(i + 1) =~= ids.take(i).push(ids[i]));
    lemma_id_set_push(ids.take(i), ids[i]);
}

/// The position of the edge joining `source` to `target`, if any.
fn pair_position(edges: &Vec<AgentEdge>, source: &str, target: &str) -> (r: Option<usize>)
    ensures
        match r {
            Some(k) => k < edges@.len() && edges@[k as int]@.source == source@ && edges@[k as int]@.target == target@,
            None => !has_pair(edge_views(edges@), source@, target@),
        },
{
    let ghost ev = edge_views(edges@);
    let mut k: usize = 0;
    while k < edges.len()
        invariant
            ev == edge_views(edges@),
            k <= edges.len(),
            forall|m: int| 0 <= m < k ==> !((#[trigger] ev[m]).source == source@ && ev[m].target == target@),
        decreases edges.len() - k,
    {
        if str_eq(edges[k].source_id.as_str(), source) && str_eq(edges[k].target_id.as_str(), target) {
            return Some(k);
        }
        k = k + 1;
    }
    None
}

/// Adds the hint edge `e` to `edges`: a pair seen for the first time gets `e`, and a
/// delegation turns the collaboration already there for its pair into a delegation.
fn merge_hint_edge(
    edges: &mut Vec<AgentEdge>,
    e: AgentEdge,
    Ghost(pairs): Ghost<Set<(Seq<char>, Seq<char>)>>,
    Ghost(delegates): Ghost<Set<(Seq<char>, Seq<char>)>>,
)
    requires
        hint_edges_match(edge_views(old(edges)@), pairs, delegates),
        e.kind == AgentEdgeKind::WorksWithHint || e.kind == AgentEdgeKind::DelegatesToHint,
    ensures
        hint_edges_match(
            edge_views(final(edges)@),
            pairs.insert((e@.source, e@.target)),
            if e.kind == AgentEdgeKind::DelegatesToHint { delegates.insert((e@.source, e@.target)) } else { delegates },
        ),
{
    let ghost ov = edge_views(edges@);
    let ghost pe = (e@.source, e@.target);
    let ghost pairs2 = pairs.insert(pe);
    let ghost delegates2 = if e.kind == AgentEdgeKind::DelegatesToHint { delegates.insert(pe) } else { delegates };
    match pair_position(edges, e.source_id.as_str(), e.target_id.as_str()) {
        Some(k) => {
            proof {
                assert(ov.contains(ov[k as int]));
                assert(pairs.contains(pe));
            }
            if e.kind == AgentEdgeKind::DelegatesToHint {
                let ghost e_view = e@;
                edges.set(k, e);
                proof {
                    let nw = edge_views(edges@);
                    assert(nw =~= ov.update(k as int, e_view));
                    assert forall|i: int, j: int| 0 <= i < j < nw.len() implies pair_lt(#[trigger] nw[i], #[trigger] nw[j]) by {
                        assert(pair_lt(ov[i], ov[j]));
                    }
                    assert forall|x: EdgeView| #[trigger] nw.contains(x) <==> (pairs2.contains((x.source, x.target))
                        && x.kind == hint_kind(delegates2, (x.source, x.target))) by {
                        if nw.contains(x) {
                            let m = choose|m: int| 0 <= m < nw.len() && nw[m] == x;
                            if m != k {
                                assert(ov[m] == x);
                                assert(ov.contains(x));
                                assert(pair_lt(ov[m], ov[k as int]) || pair_lt(ov[k as int], ov[m]));
                                lemma_pair_lt_facts(ov[m], ov[k as int], ov[m]);
                                lemma_pair_lt_facts(ov[k as int], ov[m], ov[k as int]);
                            }
                        }
                        if pairs2.contains((x.source, x.target)) && x.kind == hint_kind(delegates2, (x.source, x.target)) {
                            if (x.source, x.target) == pe {
                                assert(x == e_view);
                                assert(nw[k as int] == x);
                            } else {
                                assert(ov.contains(x));
                                let m = choose|m: int| 0 <= m < ov.len() && ov[m] == x;
                                assert(m != k);
                                assert(nw[m] == x);
                            }
                        }
                    }
                }
            } else {
                proof {
                    assert(pairs2 =~= pairs);
                }
            }
        },
        None => {
            proof {
                if pairs.contains(pe) {
                    let x = EdgeView { source: pe.0, target: pe.1, kind: hint_kind(delegates, pe) };
                    assert(ov.contains(x));
                    let m = choose|m: int| 0 <= m < ov.len() && ov[m] == x;
                    assert(ov[m].source == pe.0 && ov[m].target == pe.1);
                }
                assert(!delegates.contains(pe));
            }
            let ghost e_view = e@;
            insert_edge(edges, e);
            proof {
                let nw = edge_views(edges@);
                assert forall|x: EdgeView| #[trigger] nw.contains(x) <==> (pairs2.contains((x.source, x.target))
                    && x.kind == hint_kind(delegates2, (x.source, x.target))) by {
                    if x == e_view {
                    }
                }
            }
        },
    }
}

/// Adds the hint edges of kind `kind` from `source` to each of `targets` but itself.
fn add_hint_edges(
    edges: &mut Vec<AgentEdge>,
    source: &String,
    targets: &Vec<String>,
    kind: AgentEdgeKind,
    Ghost(pairs): Ghost<Set<(Seq<char>, Seq<char>)>>,
    Ghost(delegates): Ghost<Set<(Seq<char>, Seq<char>)>>,
)
    requires
        hint_edges_match(edge_views(old(edges)@), pairs, delegates),
        kind == AgentEdgeKind::WorksWithHint || kind == AgentEdgeKind::DelegatesToHint,
    ensures
        hint_edges_match(
            edge_views(final(edges)@),
            pairs + pairs_from(source@, id_set(targets@)),
            if kind == AgentEdgeKind::DelegatesToHint { delegates + pairs_from(source@, id_set(targets@)) } else { delegates },
        ),
{
    let mut i: usize = 0;
    let is_del = kind == AgentEdgeKind::DelegatesToHint;
    assert(pairs_from(source@, id_set(targets@.take(0))) =~= Set::empty());
    assert(pairs + Set::<(Seq<char>, Seq<char>)>::empty() =~= pairs);
    assert(delegates + Set::<(Seq<char>, Seq<char>)>::empty() =~= delegates);
    while i < targets.len()
        invariant
            i <= targets.len(),
            kind == AgentEdgeKind::WorksWithHint || kind == AgentEdgeKind::DelegatesToHint,
            is_del == (kind == AgentEdgeKind::DelegatesToHint),
            hint_edges_match(edge_views(edges@), pairs + pairs_from(source@, id_set(targets@.take(i as int))),
                if is_del { delegates + pairs_from(source@, id_set(targets@.take(i as int))) } else { delegates }),
        decreases targets.len() - i,
    {
        let ghost t = targets@[i as int]@;
        let ghost a0 = pairs_from(source@, id_set(targets@.take(i as int)));
        let ghost a1 = pairs_from(source@, id_set(targets@.take(i + 1)));
        proof { lemma_id_set_take_step(targets@, i as int); }
        if str_eq(targets[i].as_str(), source.as_str()) {
            assert(a1 =~= a0);
        } else {
            let ghost p0 = pairs + a0;
            let ghost d0 = if is_del { delegates + a0 } else { delegates };
            let e = metadata_edge(source.as_str(), targets[i].as_str(), kind);
            merge_hint_edge(edges, e, Ghost(p0), Ghost(d0));
            proof {
                assert(a1 =~= a0.insert((source@, t)));
                assert(pairs + a1 =~= p0.insert((source@, t)));
                if is_del {
                    assert(delegates + a1 =~= d0.insert((source@, t)));
                }
            }
        }
        i = i + 1;
    }
    assert(targets@.take(targets.len() as int) =~= targets@);
}

/// The configured agents that `agent` may hand work to and that are known.
pub open spec fn config_targets(agent: AgentConfigEntry, known: Set<Seq<char>>) -> Set<Seq<char>> {
    id_set(agent.allow_agents@).intersect(known)
}

/// Adds the collaboration edges from `agent` to the known agents that its configuration
/// lets it hand work to.
pub(crate) fn collect_config_hint_edges(agent: &AgentConfigEntry, known_ids: &Vec<String>, edges: &mut Vec<AgentEdge>,
    Ghost(pairs): Ghost<Set<(Seq<char>, Seq<char>)>>, Ghost(delegates): Ghost<Set<(Seq<char>, Seq<char>)>>)
    requires
        hint_edges_match(edge_views(old(edges)@), pairs, delegates),
    ensures
        hint_edges_match(edge_views(final(edges)@), pairs + pairs_from(agent.id@, config_targets(*agent, id_set(known_ids@))),
            delegates),
{
    let mut targets: Vec<String> = Vec::new();
    let mut i: usize = 0;
    assert(agent.allow_agents@.take(0) =~= Seq::<String>::empty());
    assert(id_set(targets@) =~= id_set(agent.allow_agents@.take(0)).intersect(id_set(known_ids@)));
    while i < agent.allow_agents.len()
        invariant
            i <= agent.allow_agents.len(),
            id_set(targets@) == id_set(agent.allow_agents@.take(i as int)).intersect(id_set(known_ids@)),
        decreases agent.allow_agents.len() - i,
    {
        let ghost a = agent.allow_agents@;
        let ghost before = targets@;
        let known = contains_id(known_ids, &agent.allow_agents[i]);
        if known {
            targets.push(agent.allow_agents[i].clone());
        }
        proof {
            lemma_id_set_take_step(a, i as int);
            if known {
                assert(targets@ =~= before.push(a[i as int]));
                lemma_id_set_push(before, a[i as int]);
            }
            assert(id_set(targets@) =~= id_set(a.take(i + 1)).intersect(id_set(known_ids@)));
        }
        i = i + 1;
    }
    assert(agent.allow_agents@.take(agent.allow_agents.len() as int) =~= agent.allow_agents@);
    add_hint_edges(edges, &agent.id, &targets, AgentEdgeKind::WorksWithHint, Ghost(pairs), Ghost(delegates));
}

/// The agents that an `AGENTS.md` text names in its "Works with" section.
pub open spec fn markdown_targets(markdown: Seq<char>, aliases: Map<Seq<char>, Seq<char>>) -> Set<Seq<char>> {
    works_with_targets(text_lines(markdown), false, aliases)
}

/// Adds the collaboration edges from `agent` to the agents that its `AGENTS.md` names in
/// its "Works with" section.
pub(crate) fn collect_markdown_hint_edges(agent: &AgentConfigEntry, markdown: &str, aliases: &AliasMap, edges: &mut Vec<AgentEdge>,
    Ghost(pairs): Ghost<Set<(Seq<char>, Seq<char>)>>, Ghost(delegates): Ghost<Set<(Seq<char>, Seq<char>)>>)
    requires
        aliases.wf(),
        hint_edges_match(edge_views(old(edges)@), pairs, delegates),
    ensures
        hint_edges_match(edge_views(final(edges)@), pairs + pairs_from(agent.id@, markdown_targets(markdown@, aliases.map())),
            delegates),
{
    let targets = parse_works_with_targets(markdown, aliases);
    add_hint_edges(edges, &agent.id, &targets, AgentEdgeKind::WorksWithHint, Ghost(pairs), Ghost(delegates));
}

/// Adds the delegation edges from `agent` to the agents that the texts of its
/// `agent.json` delegate to.
pub(crate) fn collect_agent_json_hint_edges(agent: &AgentConfigEntry, agent_json: &JsonValue, aliases: &AliasMap,
    edges: &mut Vec<AgentEdge>, Ghost(pairs): Ghost<Set<(Seq<char>, Seq<char>)>>,
    Ghost(delegates): Ghost<Set<(Seq<char>, Seq<char>)>>)
    requires
        aliases.wf(),
        hint_edges_match(edge_views(old(edges)@), pairs, delegates),
    ensures
        hint_edges_match(edge_views(final(edges)@), pairs + pairs_from(agent.id@, delegate_targets(*agent_json, aliases.map())),
            delegates + pairs_from(agent.id@, delegate_targets(*agent_json, aliases.map()))),
{
    let targets = extract_delegate_targets(agent_json, aliases);
    add_hint_edges(edges, &agent.id, &targets, AgentEdgeKind::DelegatesToHint, Ghost(pairs), Ghost(delegates));
}

/// What an agent's own files hold: the text of its `AGENTS.md` and the parsed content of
/// its `agent.json`, each absent where it could not be read (or parsed).
pub struct AgentMetadata {
    pub markdown: Option<String>,
    pub agent_json: Option<JsonValue>,
}

/// The ids of the configured agents.
pub open spec fn configured_ids(agents: Seq<AgentConfigEntry>) -> Set<Seq<char>> {
    Set::new(|s: Seq<char>| exists|k: int| 0 <= k < agents.len() && (#[trigger] agents[k]).id@ == s)
}

/// The hint pairs from one agent: to the known agents its configuration lets it hand
/// work to, to those its `AGENTS.md` works with, and to those its `agent.json`
/// delegates to; never to itself.
pub open spec fn agent_hint_pairs(
    agent: AgentConfigEntry,
    metadata: AgentMetadata,
    known: Set<Seq<char>>,
    aliases: Map<Seq<char>, Seq<char>>,
) -> Set<(Seq<char>, Seq<char>)> {
    pairs_from(agent.id@, config_targets(agent, known)) + pairs_from(agent.id@, metadata_markdown_targets(metadata, aliases))
        + pairs_from(agent.id@, metadata_json_targets(metadata, aliases))
}

/// The agents that an agent's `AGENTS.md` works with, none when it has none.
pub open spec fn metadata_markdown_targets(metadata: AgentMetadata, aliases: Map<Seq<char>, Seq<char>>) -> Set<Seq<char>> {
    match metadata.markdown {
        Some(md) => markdown_targets(md@, aliases),
        None => Set::empty(),
    }
}

/// The agents that an agent's `agent.json` delegates to, none when it has none.
pub open spec fn metadata_json_targets(metadata: AgentMetadata, aliases: Map<Seq<char>, Seq<char>>) -> Set<Seq<char>> {
    match metadata.agent_json {
        Some(v) => delegate_targets(v, aliases),
        None => Set::empty(),
    }
}

/// The metadata of the agent at `index`: `metadata[index]`, or nothing read when the
/// list is shorter.
pub open spec fn metadata_for(metadata: Seq<AgentMetadata>, index: int) -> AgentMetadata {
    if 0 <= index < metadata.len() {
        metadata[index]
    } else {
        AgentMetadata { markdown: None, agent_json: None }
    }
}

/// The hint pairs of the agents, each read with its own metadata (the one at its
/// position).
pub open spec fn hint_pairs(
    agents: Seq<AgentConfigEntry>,
    metadata: Seq<AgentMetadata>,
    known: Set<Seq<char>>,
    aliases: Map<Seq<char>, Seq<char>>,
) -> Set<(Seq<char>, Seq<char>)>
    decreases agents.len(),
{
    if agents.len() == 0 {
        Set::empty()
    } else {
        hint_pairs(agents.drop_last(), metadata, known, aliases)
            + agent_hint_pairs(agents.last(), metadata_for(metadata, agents.len() - 1), known, aliases)
    }
}

/// All relationship hints of the configured agents: every pair of [`hint_pairs`] over
/// the whole list, the known agents being the configured ones and the aliases those of
/// [`alias_map_spec`].
pub open spec fn all_hint_pairs(agents: Seq<AgentConfigEntry>, metadata: Seq<AgentMetadata>) -> Set<(Seq<char>, Seq<char>)> {
    hint_pairs(agents, metadata, configured_ids(agents), alias_map_spec(agents))
}

/// The delegation pairs of the agents: from each agent to those its `agent.json`
/// delegates to (the metadata at its position), never to itself.
pub open spec fn delegate_pairs(
    agents: Seq<AgentConfigEntry>,
    metadata: Seq<AgentMetadata>,
    aliases: Map<Seq<char>, Seq<char>>,
) -> Set<(Seq<char>, Seq<char>)>
    decreases agents.len(),
{
    if agents.len() == 0 {
        Set::empty()
    } else {
        delegate_pairs(agents.drop_last(), metadata, aliases)
            + pairs_from(agents.last().id@, metadata_json_targets(metadata_for(metadata, agents.len() - 1), aliases))
    }
}

/// All delegation pairs of the configured agents, the aliases being those of
/// [`alias_map_spec`].
pub open spec fn all_delegate_pairs(agents: Seq<AgentConfigEntry>, metadata: Seq<AgentMetadata>) -> Set<(Seq<char>, Seq<char>)> {
    delegate_pairs(agents, metadata, alias_map_spec(agents))
}

/// The relationship hint edges between the configured agents, from the configuration
/// and from each agent's metadata (`metadata[i]` belongs to `agents[i]`; an agent past
/// the end of `metadata` has none): none when hints are disabled; otherwise one edge per
/// pair of [`all_hint_pairs`], ordered by (source, target), a delegation where the pair
/// is one of [`all_delegate_pairs`] and a collaboration otherwise.
pub fn relationship_hint_edges(enabled: bool, agents: &Vec<AgentConfigEntry>, metadata: &Vec<AgentMetadata>) -> (r: Vec<AgentEdge>)
    ensures
        pairs_strictly_sorted(edge_views(r@)),
        forall|x: EdgeView| #[trigger] edge_views(r@).contains(x) <==> (enabled
            && all_hint_pairs(agents@, metadata@).contains((x.source, x.target))
            && x.kind == hint_kind(all_delegate_pairs(agents@, metadata@), (x.source, x.target))),
{
    let mut edges: Vec<AgentEdge> = Vec::new();
    if !enabled {
        assert(edge_views(edges@) =~= Seq::<EdgeView>::empty());
        return edges;
    }
    let aliases = build_alias_map(agents);
    let mut known_ids: Vec<String> = Vec::new();
    let mut k: usize = 0;
    while k < agents.len()
        invariant
            k <= agents.len(),
            known_ids@.len() == k,
            forall|m: int| 0 <= m < k ==> (#[trigger] known_ids@[m])@ == agents@[m].id@,
        decreases agents.len() - k,
    {
        known_ids.push(agents[k].id.clone());
        k = k + 1;
    }
    let ghost known = configured_ids(agents@);
    assert(id_set(known_ids@) =~= known) by {
        assert forall|x: Seq<char>| id_set(known_ids@).contains(x) <==> known.contains(x) by {
            if id_set(known_ids@).contains(x) {
                let m = choose|m: int| 0 <= m < known_ids@.len() && (#[trigger] known_ids@[m])@ == x;
                assert(agents@[m].id@ == x);
            }
            if known.contains(x) {
                let m = choose|m: int| 0 <= m < agents@.len() && (#[trigger] agents@[m]).id@ == x;
                assert(known_ids@[m]@ == x);
            }
        }
    }
    let ghost amap = aliases.map();
    let mut i: usize = 0;
    assert(edge_views(edges@) =~= Seq::<EdgeView>::empty());
    assert(agents@.take(0) =~= Seq::<AgentConfigEntry>::empty());
    assert(hint_pairs(agents@.take(0), metadata@, known, amap) =~= Set::empty());
    assert(delegate_pairs(agents@.take(0), metadata@, amap) =~= Set::empty());
    let nothing = AgentMetadata { markdown: None, agent_json: None };
    while i < agents.len()
        invariant
            i <= agents.len(),
            nothing.markdown is None && nothing.agent_json is None,
            aliases.wf(),
            amap == aliases.map(),
            amap == alias_map_spec(agents@),
            id_set(known_ids@) == known,
            known == configured_ids(agents@),
            hint_edges_match(edge_views(edges@), hint_pairs(agents@.take(i as int), metadata@, known, amap),
                delegate_pairs(agents@.take(i as int), metadata@, amap)),
        decreases agents.len() - i,
    {
        let ghost p0 = hint_pairs(agents@.take(i as int), metadata@, known, amap);
        let ghost d0 = delegate_pairs(agents@.take(i as int), metadata@, amap);
        let agent = &agents[i];
        let meta = if i < metadata.len() { &metadata[i] } else { &nothing };
        assert(*meta == metadata_for(metadata@, i as int));
        collect_config_hint_edges(agent, &known_ids, &mut edges, Ghost(p0), Ghost(d0));
        let ghost p1 = p0 + pairs_from(agent.id@, config_targets(*agent, known));
        let ghost from_markdown = metadata_markdown_targets(*meta, amap);
        match &meta.markdown {
            Some(md) => {
                collect_markdown_hint_edges(agent, md.as_str(), &aliases, &mut edges, Ghost(p1), Ghost(d0));
            },
            None => {
                assert(pairs_from(agent.id@, from_markdown) =~= Set::empty());
                assert(p1 + Set::<(Seq<char>, Seq<char>)>::empty() =~= p1);
            },
        }
        let ghost p2 = p1 + pairs_from(agent.id@, from_markdown);
        let ghost from_json = metadata_json_targets(*meta, amap);
        match &meta.agent_json {
            Some(v) => {
                collect_agent_json_hint_edges(agent, v, &aliases, &mut edges, Ghost(p2), Ghost(d0));
            },
            None => {
                assert(pairs_from(agent.id@, from_json) =~= Set::empty());
                assert(p2 + Set::<(Seq<char>, Seq<char>)>::empty() =~= p2);
                assert(d0 + Set::<(Seq<char>, Seq<char>)>::empty() =~= d0);
            },
        }
        proof {
            let a2 = agents@.take(i + 1);
            assert(a2.drop_last() =~= agents@.take(i as int));
            assert(a2.last() == *agent);
            assert(hint_pairs(a2, metadata@, known, amap)
                =~= p2 + pairs_from(agent.id@, from_json));
            assert(delegate_pairs(a2, metadata@, amap)
                =~= d0 + pairs_from(agent.id@, from_json));
        }
        i = i + 1;
    }
    assert(agents@.take(agents.len() as int) =~= agents@);
    edges
}

} // verus!
