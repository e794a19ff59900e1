//! Durations and their display.
use vstd::prelude::*;
use crate::text::{decimal, push_decimal};

verus! {

pub const SECOND_MS: u64 = 1_000;
pub const MINUTE_MS: u64 = 60_000;
pub const HOUR_MS: u64 = 3_600_000;
pub const DAY_MS: u64 = 86_400_000;

/// How long a session counts as active after its last activity.
pub const ACTIVE_WINDOW_MS: u64 = 600_000;

/// "{n}s ago", "{n}m ago", "{n}h ago" or "{n}d ago", in the largest unit that fits
/// below the next one, rounded down.
pub open spec fn age_badge(age_ms: u64) -> Seq<char> {
    if age_ms < MINUTE_MS {
        decimal((age_ms / SECOND_MS) as nat) + "s ago"@
    } else if age_ms < HOUR_MS {
        decimal((age_ms / MINUTE_MS) as nat) + "m ago"@
    } else if age_ms < DAY_MS {
        decimal((age_ms / HOUR_MS) as nat) + "h ago"@
    } else {
        decimal((age_ms / DAY_MS) as nat) + "d ago"@
    }
}

pub fn format_age_badge(age_ms: u64) -> (r: String)
    ensures
        r@ == age_badge(age_ms),
{
    let mut r = String::new();
    if age_ms < MINUTE_MS {
        push_decimal(&mut r, age_ms / SECOND_MS);
        r.append("s ago");
    } else if age_ms < HOUR_MS {
        push_decimal(&mut r, age_ms / MINUTE_MS);
        r.append("m ago");
    } else if age_ms < DAY_MS {
        push_decimal(&mut r, age_ms / HOUR_MS);
        r.append("h ago");
    } else {
        push_decimal(&mut r, age_ms / DAY_MS);
        r.append("d ago");
    }
    r
}

} // verus!
