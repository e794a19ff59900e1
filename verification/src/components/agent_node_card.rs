//! The agent card drawn on the graph canvas.
use vstd::prelude::*;
use crate::adapter::openclaw::hints::{to_lowercase, unicode_lowercase};
use crate::chars::string_of;
use crate::models::graph::{AgentNode, AgentStatus};
use crate::text::{chars_of, concat2, decimal, owned, push_char, push_decimal};

verus! {

/// The longest name shown whole on a card.
pub const MAX_LABEL_CHARS: usize = 18;

/// What `str::to_uppercase` gives for a string: its Unicode upper-case form.
pub uninterp spec fn unicode_uppercase(s: Seq<char>) -> Seq<char>;

/// Trusted: calls `str::to_uppercase`, whose result is a function of its argument
/// alone; the contract names that result and states nothing more about it.
#[verifier::external_body]
fn to_uppercase(s: &str) -> (r: String)
    ensures
        r@ == unicode_uppercase(s@),
{
    s.to_uppercase()
}

/// How long ago the agent last worked, in seconds, minutes or hours (rounded down), or
/// that it has not worked recently.
pub open spec fn activity_label_spec(age: Option<u64>) -> Seq<char> {
    match age {
        Some(a) => if a < 60_000 {
            decimal((a / 1_000) as nat) + "s ago"@
        } else if a < 3_600_000 {
            decimal((a / 60_000) as nat) + "m ago"@
        } else {
            decimal((a / 3_600_000) as nat) + "h ago"@
        },
        None => "No recent activity"@,
    }
}

pub fn activity_label(node: &AgentNode) -> (r: String)
    ensures
        r@ == activity_label_spec(node.latest_activity_age_ms),
{
    match node.latest_activity_age_ms {
        Some(age_ms) => {
            let mut r = String::new();
            if age_ms < 60_000 {
                push_decimal(&mut r, age_ms / 1_000);
                r.append("s ago");
            } else if age_ms < 3_600_000 {
                push_decimal(&mut r, age_ms / 60_000);
                r.append("m ago");
            } else {
                push_decimal(&mut r, age_ms / 3_600_000);
                r.append("h ago");
            }
            r
        },
        None => owned("No recent activity"),
    }
}

pub open spec fn node_fill_spec(status: AgentStatus) -> Seq<char> {
    match status {
        AgentStatus::Active => "rgba(6, 78, 59, 0.82)"@,
        AgentStatus::Idle => "rgba(15, 23, 42, 0.96)"@,
        AgentStatus::Unknown => "rgba(30, 41, 59, 0.92)"@,
    }
}

/// The card's background colour for a status.
pub fn node_fill(status: &AgentStatus) -> (r: &'static str)
    ensures
        r@ == node_fill_spec(*status),
{
    match status {
        AgentStatus::Active => "rgba(6, 78, 59, 0.82)",
        AgentStatus::Idle => "rgba(15, 23, 42, 0.96)",
        AgentStatus::Unknown => "rgba(30, 41, 59, 0.92)",
    }
}

pub open spec fn node_stroke_spec(status: AgentStatus) -> Seq<char> {
    match status {
        AgentStatus::Active => "rgba(110, 231, 183, 0.6)"@,
        AgentStatus::Idle => "rgba(148, 163, 184, 0.32)"@,
        AgentStatus::Unknown => "rgba(251, 191, 36, 0.34)"@,
    }
}

/// The card's border colour for a status.
pub fn node_stroke(status: &AgentStatus) -> (r: &'static str)
    ensures
        r@ == node_stroke_spec(*status),
{
    match status {
        AgentStatus::Active => "rgba(110, 231, 183, 0.6)",
        AgentStatus::Idle => "rgba(148, 163, 184, 0.32)",
        AgentStatus::Unknown => "rgba(251, 191, 36, 0.34)",
    }
}

pub open spec fn node_signal_spec(status: AgentStatus) -> Seq<char> {
    match status {
        AgentStatus::Active => "#6ee7b7"@,
        AgentStatus::Idle => "#94a3b8"@,
        AgentStatus::Unknown => "#fbbf24"@,
    }
}

/// The colour of the card's status signal.
pub fn node_signal(status: &AgentStatus) -> (r: &'static str)
    ensures
        r@ == node_signal_spec(*status),
{
    match status {
        AgentStatus::Active => "#6ee7b7",
        AgentStatus::Idle => "#94a3b8",
        AgentStatus::Unknown => "#fbbf24",
    }
}

pub open spec fn status_label_spec(status: AgentStatus) -> Seq<char> {
    match status {
        AgentStatus::Active => "ACTIVE"@,
        AgentStatus::Idle => "IDLE"@,
        AgentStatus::Unknown => "UNKNOWN"@,
    }
}

/// The status as the card prints it.
pub fn status_label(status: &AgentStatus) -> (r: &'static str)
    ensures
        r@ == status_label_spec(*status),
{
    match status {
        AgentStatus::Active => "ACTIVE",
        AgentStatus::Idle => "IDLE",
        AgentStatus::Unknown => "UNKNOWN",
    }
}

/// The card's status attribute: its status label, lower-cased.
pub open spec fn status_attribute_spec(status: AgentStatus) -> Seq<char> {
    unicode_lowercase(status_label_spec(status))
}

/// The status attribute that the card carries for its node.
pub fn status_attribute(status: &AgentStatus) -> (r: String)
    ensures
        r@ == status_attribute_spec(*status),
{
    to_lowercase(status_label(status))
}

/// "{name} agent card, status {status attribute}".
pub open spec fn card_aria_label_spec(name: Seq<char>, status: AgentStatus) -> Seq<char> {
    name + " agent card, status "@ + status_attribute_spec(status)
}

/// The accessible label of the card.
pub fn card_aria_label(node: &AgentNode) -> (r: String)
    ensures
        r@ == card_aria_label_spec(node.name@, node.status),
{
    let mut r = owned(node.name.as_str());
    r.append(" agent card, status ");
    let attribute = status_attribute(&node.status);
    r.append(attribute.as_str());
    r
}

pub open spec fn status_glow_spec(status: AgentStatus) -> Seq<char> {
    match status {
        AgentStatus::Active => "rgba(16, 185, 129, 0.28)"@,
        AgentStatus::Idle => "rgba(148, 163, 184, 0.14)"@,
        AgentStatus::Unknown => "rgba(245, 158, 11, 0.16)"@,
    }
}

/// The glow around the card for a status.
pub fn status_glow(status: &AgentStatus) -> (r: &'static str)
    ensures
        r@ == status_glow_spec(*status),
{
    match status {
        AgentStatus::Active => "rgba(16, 185, 129, 0.28)",
        AgentStatus::Idle => "rgba(148, 163, 184, 0.14)",
        AgentStatus::Unknown => "rgba(245, 158, 11, 0.16)",
    }
}

/// A name as the card shows it: whole up to [`MAX_LABEL_CHARS`] characters, otherwise
/// its first `MAX_LABEL_CHARS - 1` characters and an ellipsis.
pub open spec fn truncated_label_spec(name: Seq<char>) -> Seq<char> {
    if name.len() <= MAX_LABEL_CHARS {
        name
    } else {
        name.take(MAX_LABEL_CHARS - 1).push('…')
    }
}

pub fn truncated_graph_label(name: &str) -> (r: String)
    ensures
        r@ == truncated_label_spec(name@),
{
    let chars = chars_of(name);
    if chars.len() <= MAX_LABEL_CHARS {
        return owned(name);
    }
    let mut r = String::new();
    let mut i: usize = 0;
    while i < MAX_LABEL_CHARS - 1
        invariant
            chars@ == name@,
            chars.len() > MAX_LABEL_CHARS,
            i <= MAX_LABEL_CHARS - 1,
            r@ == name@.take(i as int),
        decreases MAX_LABEL_CHARS - 1 - i,
    {
        push_char(&mut r, chars[i]);
        i = i + 1;
        assert(r@ =~= name@.take(i as int));
    }
    push_char(&mut r, '…');
    r
}

/// The card's heartbeat line: the schedule in upper case, or that the heartbeat is off.
pub open spec fn heartbeat_label_spec(enabled: bool, schedule: Seq<char>) -> Seq<char> {
    if enabled {
        "HEARTBEAT "@ + unicode_uppercase(schedule)
    } else {
        "HEARTBEAT OFF"@
    }
}

pub fn heartbeat_label(node: &AgentNode) -> (r: String)
    ensures
        r@ == heartbeat_label_spec(node.heartbeat_enabled, node.heartbeat_schedule@),
{
    if node.heartbeat_enabled {
        let upper = to_uppercase(node.heartbeat_schedule.as_str());
        concat2("HEARTBEAT ", upper.as_str())
    } else {
        owned("HEARTBEAT OFF")
    }
}

pub open spec fn is_ascii_alphanumeric(c: char) -> bool {
    ('0' <= c && c <= '9') || ('a' <= c && c <= 'z') || ('A' <= c && c <= 'Z')
}

/// The upper-case form of an ASCII character.
pub open spec fn ascii_upper(c: char) -> char {
    if 'a' <= c && c <= 'z' { ((c as u32) - 32) as char } else { c }
}

/// The ASCII letters and digits of `s`, in order.
pub open spec fn ascii_alphanumerics(s: Seq<char>) -> Seq<char> {
    s.filter(alnum_pred())
}

pub open spec fn alnum_pred() -> spec_fn(char) -> bool {
    |c: char| is_ascii_alphanumeric(c)
}

/// The card's monogram: the first two ASCII letters or digits of the name in upper
/// case, or "AG" when the name has none.
pub open spec fn monogram_spec(name: Seq<char>) -> Seq<char> {
    let letters = ascii_alphanumerics(name);
    if letters.len() == 0 {
        "AG"@
    } else {
        letters.take(if letters.len() < 2 { letters.len() as int } else { 2 }).map_values(|c: char| ascii_upper(c))
    }
}

fn ascii_upper_exec(c: char) -> (r: char)
    ensures
        r == ascii_upper(c),
{
    if 'a' <= c && c <= 'z' {
        let code: u8 = (c as u8) - 32;
        code as char
    } else {
        c
    }
}

pub fn node_monogram(name: &str) -> (r: String)
    ensures
        r@ == monogram_spec(name@),
{
    let chars = chars_of(name);
    let mut letters: Vec<char> = Vec::new();
    let mut i: usize = 0;
    assert(name@.take(0) =~= Seq::<char>::empty());
    assert(ascii_alphanumerics(Seq::<char>::empty()) =~= Seq::<char>::empty());
    while i < chars.len() && letters.len() < 2
        invariant
            chars@ == name@,
            i <= chars.len(),
            letters.len() <= 2,
            letters@ == ascii_alphanumerics(name@.take(i as int)).map_values(|c: char| ascii_upper(c)),
        decreases chars.len() - i,
    {
        let c = chars[i];
        assert(name@.take(i + 1) =~= name@.take(i as int).push(c));
        proof {
            name@.take(i as int).lemma_filter_push(c, alnum_pred());
        }
        if ('0' <= c && c <= '9') || ('a' <= c && c <= 'z') || ('A' <= c && c <= 'Z') {
            letters.push(ascii_upper_exec(c));
        }
        i = i + 1;
        assert(letters@ =~= ascii_alphanumerics(name@.take(i as int)).map_values(|c: char| ascii_upper(c)));
    }
    proof {
        lemma_filter_prefix_take(name@, i as int, letters.len() as int);
    }
    if letters.len() == 0 {
        return owned("AG");
    }
    string_of(&letters)
}

/// Reading further only appends to the filtered prefix; once `n` items are gathered
/// (or the input is used up), the first `n` of the whole filter are those.
proof fn lemma_filter_prefix_take(s: Seq<char>, i: int, n: int)
    requires
        0 <= i <= s.len(),
        n == ascii_alphanumerics(s.take(i)).len(),
        i == s.len() || n == 2,
        n <= 2,
    ensures
        ascii_alphanumerics(s.take(i)) == ascii_alphanumerics(s).take(
            if ascii_alphanumerics(s).len() < 2 { ascii_alphanumerics(s).len() as int } else { 2 }),
        ascii_alphanumerics(s).len() == 0 <==> n == 0,
    decreases s.len() - i,
{
    if i == s.len() {
        assert(s.take(i) =~= s);
    } else {
        lemma_filter_grows(s, i);
    }
}

/// The filter of a prefix is a prefix of the filter of the whole.
proof fn lemma_filter_grows(s: Seq<char>, i: int)
    requires
        0 <= i <= s.len(),
    ensures
        ascii_alphanumerics(s.take(i)).len() <= ascii_alphanumerics(s).len(),
        ascii_alphanumerics(s.take(i)) == ascii_alphanumerics(s).take(ascii_alphanumerics(s.take(i)).len() as int),
    decreases s.len() - i,
{
    if i == s.len() {
        assert(s.take(i) =~= s);
        assert(ascii_alphanumerics(s).take(ascii_alphanumerics(s).len() as int) =~= ascii_alphanumerics(s));
    } else {
        lemma_filter_grows(s, i + 1);
        assert(s.take(i + 1) =~= s.take(i).push(s[i]));
        s.take(i).lemma_filter_push(s[i], alnum_pred());
        let a = ascii_alphanumerics(s.take(i));
        let b = ascii_alphanumerics(s.take(i + 1));
        let w = ascii_alphanumerics(s);
        assert(b == w.take(b.len() as int));
        if is_ascii_alphanumeric(s[i]) {
            assert(b =~= a.push(s[i]));
            assert(a =~= b.take(a.len() as int));
            assert(w.take(a.len() as int) =~= w.take(b.len() as int).take(a.len() as int));
        } else {
            assert(b =~= a);
        }
    }
}

} // verus!
