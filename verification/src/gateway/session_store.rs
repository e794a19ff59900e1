//! Counting recently updated sessions in an agent's session store.
use vstd::prelude::*;
use crate::json::{JsonValue, get_u64};
use crate::text::{concat3};

verus! {

/// How many store entries carry an `updatedAt` at or after the cutoff.
pub open spec fn recent_entry_count(entries: Seq<(String, JsonValue)>, cutoff_ms: u64) -> nat
    decreases entries.len(),
{
    if entries.len() == 0 {
        0
    } else {
        recent_entry_count(entries.drop_last(), cutoff_ms) + match get_u64(Some(entries.last().1), "updatedAt"@) {
            Some(updated_at) => if updated_at >= cutoff_ms { 1nat } else { 0nat },
            None => 0nat,
        }
    }
}

/// The earliest update time that still counts: `active_minutes` before the
/// reference time, or zero.
pub open spec fn cutoff_spec(reference_timestamp_ms: u64, active_minutes: u64) -> u64 {
    if reference_timestamp_ms >= active_minutes * 60_000 {
        (reference_timestamp_ms - active_minutes * 60_000) as u64
    } else {
        0
    }
}

/// The number of sessions in a parsed session store updated within the last
/// `active_minutes` before the reference time; the store must be an object.
pub fn count_active_sessions(
    store: &JsonValue,
    store_path: &str,
    reference_timestamp_ms: u64,
    active_minutes: u64,
) -> (r: Result<u64, String>)
    requires
        active_minutes * 60_000 <= u64::MAX,
    ensures
        match r {
            Ok(n) => store matches JsonValue::Object(entries)
                && n == recent_entry_count(entries@, cutoff_spec(reference_timestamp_ms, active_minutes)),
            Err(e) => !(store is Object) && e@ == "Session store "@ + store_path@ + " is not a JSON object."@,
        },
{
    let entries = match store {
        JsonValue::Object(entries) => entries,
        _ => return Err(concat3("Session store ", store_path, " is not a JSON object.")),
    };
    let cutoff_ms = reference_timestamp_ms.saturating_sub(active_minutes * 60_000);
    let mut count: u64 = 0;
    let mut i: usize = 0;
    while i < entries.len()
        invariant
            i <= entries.len(),
            count <= i,
            count == recent_entry_count(entries@.take(i as int), cutoff_ms),
        decreases entries.len() - i,
    {
        assert(entries@.take(i + 1).drop_last() =~= entries@.take(i as int));
        assert(entries@.take(i + 1).last() == entries@[i as int]);
        match entries[i].1.get_u64("updatedAt") {
            Some(updated_at) => {
                if updated_at >= cutoff_ms {
                    count = count + 1;
                }
            },
            None => {},
        }
        i = i + 1;
    }
    assert(entries@.take(entries.len() as int) =~= entries@);
    Ok(count)
}

} // verus!
