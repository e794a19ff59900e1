//! The agents page: one card per agent.
use vstd::prelude::*;
use crate::text::owned;
use crate::utils::time::{ACTIVE_WINDOW_MS, age_badge, format_age_badge};

verus! {

pub const AGENT_TILE_ACTIVE_CLASS: &'static str = "group relative overflow-hidden rounded-[1.9rem] border border-emerald-300/35 bg-[linear-gradient(180deg,rgba(14,28,32,0.96),rgba(5,12,24,0.98))] px-5 py-5 shadow-[0_0_0_1px_rgba(110,231,183,0.14),0_0_42px_rgba(16,185,129,0.28),0_0_90px_rgba(16,185,129,0.08),0_24px_64px_rgba(2,6,23,0.42)] backdrop-blur-xl";
pub const AGENT_TILE_IDLE_CLASS: &'static str = "group relative overflow-hidden rounded-[1.9rem] border border-white/10 bg-[linear-gradient(180deg,rgba(15,23,42,0.92),rgba(6,11,25,0.98))] px-5 py-5 shadow-[0_24px_64px_rgba(2,6,23,0.35)] backdrop-blur-xl";
pub const STATUS_DOT_ACTIVE_CLASS: &'static str = "h-2.5 w-2.5 rounded-full bg-emerald-300 shadow-[0_0_14px_rgba(110,231,183,0.95)]";
pub const STATUS_DOT_IDLE_CLASS: &'static str = "h-2.5 w-2.5 rounded-full bg-slate-500";
pub const HEART_ENABLED_CLASS: &'static str = "shrink-0 text-rose-400 drop-shadow-[0_0_8px_rgba(251,113,133,0.55)]";
pub const HEART_DISABLED_CLASS: &'static str = "shrink-0 text-slate-500";
pub const RECENT_BADGE_ACTIVE_CLASS: &'static str = "inline-flex rounded-full border border-emerald-300/20 bg-emerald-300/10 px-3 py-1 text-[0.68rem] font-semibold uppercase tracking-[0.2em] text-emerald-200";
pub const RECENT_BADGE_IDLE_CLASS: &'static str = "inline-flex rounded-full border border-white/10 bg-white/5 px-3 py-1 text-[0.68rem] font-semibold uppercase tracking-[0.2em] text-slate-300";

/// An agent counts as active while its displayed age is inside the active window.
pub fn is_agent_active(displayed_age_ms: Option<u64>) -> (r: bool)
    ensures
        r == (displayed_age_ms matches Some(age) && age < ACTIVE_WINDOW_MS),
{
    match displayed_age_ms {
        Some(age) => age < ACTIVE_WINDOW_MS,
        None => false,
    }
}

/// The class of the heartbeat icon.
pub fn heartbeat_icon_class(heartbeat_enabled: bool) -> (r: &'static str)
    ensures
        r@ == (if heartbeat_enabled { HEART_ENABLED_CLASS@ } else { HEART_DISABLED_CLASS@ }),
{
    if heartbeat_enabled {
        HEART_ENABLED_CLASS
    } else {
        HEART_DISABLED_CLASS
    }
}


/// The age a card shows `elapsed_ms` after the overview was taken: the agent's latest
/// activity age moved on by that time, none when no activity is known.
pub fn displayed_age_ms(latest_activity_age_ms: Option<u64>, elapsed_ms: u64) -> (r: Option<u64>)
    requires
        latest_activity_age_ms matches Some(age) ==> age + elapsed_ms <= u64::MAX,
    ensures
        r == (match latest_activity_age_ms {
            Some(age) => Some((age + elapsed_ms) as u64),
            None => None,
        }),
{
    match latest_activity_age_ms {
        Some(age) => Some(age + elapsed_ms),
        None => None,
    }
}

/// The recent-activity badge: the displayed age as "{n}s ago" and so on, or
/// "No activity".
pub fn recent_activity_badge(displayed_age_ms: Option<u64>) -> (r: String)
    ensures
        r@ == (match displayed_age_ms {
            Some(age) => age_badge(age),
            None => "No activity"@,
        }),
{
    match displayed_age_ms {
        Some(age) => format_age_badge(age),
        None => owned("No activity"),
    }
}

/// The class of the recent-activity badge.
pub fn recent_activity_badge_class(is_active: bool) -> (r: &'static str)
    ensures
        r@ == (if is_active { RECENT_BADGE_ACTIVE_CLASS@ } else { RECENT_BADGE_IDLE_CLASS@ }),
{
    if is_active {
        RECENT_BADGE_ACTIVE_CLASS
    } else {
        RECENT_BADGE_IDLE_CLASS
    }
}

/// The class of the agent tile.
pub fn agent_tile_class(is_active: bool) -> (r: &'static str)
    ensures
        r@ == (if is_active { AGENT_TILE_ACTIVE_CLASS@ } else { AGENT_TILE_IDLE_CLASS@ }),
{
    if is_active {
        AGENT_TILE_ACTIVE_CLASS
    } else {
        AGENT_TILE_IDLE_CLASS
    }
}

/// The class of the status dot.
pub fn status_dot_class(is_active: bool) -> (r: &'static str)
    ensures
        r@ == (if is_active { STATUS_DOT_ACTIVE_CLASS@ } else { STATUS_DOT_IDLE_CLASS@ }),
{
    if is_active {
        STATUS_DOT_ACTIVE_CLASS
    } else {
        STATUS_DOT_IDLE_CLASS
    }
}

} // verus!
