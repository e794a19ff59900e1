//! Searches through gateway payloads.
use vstd::prelude::*;
use crate::json::{JsonValue, json_as_u64, json_get, entry_lookup};
use crate::models::runtime::opt_chars;
use crate::text::concat3;

verus! {

/// The candidate keys as character sequences.
pub open spec fn key_views(candidates: Seq<&str>) -> Seq<Seq<char>> {
    candidates.map_values(|c: &str| c@)
}

/// The string under the first candidate key (in candidate order) that holds a string.
pub open spec fn direct_string(entries: Seq<(String, JsonValue)>, keys: Seq<Seq<char>>) -> Option<Seq<char>>
    decreases keys.len(),
{
    if keys.len() == 0 {
        None
    } else {
        match entry_lookup(entries, keys[0]) {
            Some(JsonValue::Str(s)) => Some(s@),
            _ => direct_string(entries, keys.drop_first()),
        }
    }
}

/// Depth-first search for a string under one of the keys: an object first offers
/// its own members (in key order), then its member values in member order; an
/// array offers its items in order.
pub open spec fn find_string_spec(value: JsonValue, keys: Seq<Seq<char>>) -> Option<Seq<char>>
    decreases value,
{
    match value {
        JsonValue::Object(entries) => match direct_string(entries@, keys) {
            Some(s) => Some(s),
            None => find_string_in_entries(entries@, keys),
        },
        JsonValue::Array(items) => find_string_in_items(items@, keys),
        _ => None,
    }
}

pub open spec fn find_string_in_entries(entries: Seq<(String, JsonValue)>, keys: Seq<Seq<char>>) -> Option<Seq<char>>
    decreases entries,
{
    if entries.len() == 0 {
        None
    } else {
        match find_string_spec(entries[0].1, keys) {
            Some(s) => Some(s),
            None => find_string_in_entries(entries.subrange(1, entries.len() as int), keys),
        }
    }
}

pub open spec fn find_string_in_items(items: Seq<JsonValue>, keys: Seq<Seq<char>>) -> Option<Seq<char>>
    decreases items,
{
    if items.len() == 0 {
        None
    } else {
        match find_string_spec(items[0], keys) {
            Some(s) => Some(s),
            None => find_string_in_items(items.subrange(1, items.len() as int), keys),
        }
    }
}

fn direct_string_exec(entries: &Vec<(String, JsonValue)>, candidates: &[&str]) -> (r: Option<String>)
    ensures
        opt_chars(r) == direct_string(entries@, key_views(candidates@)),
{
    let ghost keys = key_views(candidates@);
    let mut c: usize = 0;
    assert(keys.skip(0) =~= keys);
    while c < candidates.len()
        invariant
            keys == key_views(candidates@),
            c <= candidates.len(),
            direct_string(entries@, keys) == direct_string(entries@, keys.skip(c as int)),
        decreases candidates.len() - c,
    {
        assert(keys.skip(c as int).drop_first() =~= keys.skip(c + 1));
        assert(keys.skip(c as int)[0] == candidates@[c as int]@);
        match crate::json::lookup_entry(entries, candidates[c]) {
            Some(JsonValue::Str(found)) => {
                return Some(found.clone());
            },
            _ => {},
        }
        c = c + 1;
    }
    None
}

/// The first string found under one of the candidate keys, searching depth-first.
pub fn find_string(value: &JsonValue, candidates: &[&str]) -> (r: Option<String>)
    ensures
        opt_chars(r) == find_string_spec(*value, key_views(candidates@)),
    decreases value,
{
    let ghost keys = key_views(candidates@);
    match value {
        JsonValue::Object(entries) => {
            let direct = direct_string_exec(entries, candidates);
            if direct.is_some() {
                return direct;
            }
            assert(direct_string(entries@, keys) is None);
            assert(find_string_spec(*value, keys) == find_string_in_entries(entries@, keys));
            let mut i: usize = 0;
            assert(entries@.skip(0) =~= entries@);
            while i < entries.len()
                invariant
                    keys == key_views(candidates@),
                    *value == JsonValue::Object(*entries),
                    direct_string(entries@, keys) is None,
                    i <= entries.len(),
                    find_string_in_entries(entries@, keys) == find_string_in_entries(entries@.skip(i as int), keys),
                decreases entries.len() - i,
            {
                assert(entries@.skip(i as int).subrange(1, entries@.skip(i as int).len() as int) =~= entries@.skip(i + 1));
                assert(entries@.skip(i as int)[0] == entries@[i as int]);
                let found = find_string(&entries[i].1, candidates);
                if found.is_some() {
                    assert(find_string_in_entries(entries@.skip(i as int), keys) == find_string_spec(entries@[i as int].1, keys));
                    assert(direct_string(entries@, keys) is None);
                    return found;
                }
                i = i + 1;
            }
            None
        },
        JsonValue::Array(items) => {
            let mut i: usize = 0;
            assert(items@.skip(0) =~= items@);
            while i < items.len()
                invariant
                    keys == key_views(candidates@),
                    *value == JsonValue::Array(*items),
                    i <= items.len(),
                    find_string_in_items(items@, keys) == find_string_in_items(items@.skip(i as int), keys),
                decreases items.len() - i,
            {
                assert(items@.skip(i as int).subrange(1, items@.skip(i as int).len() as int) =~= items@.skip(i + 1));
                assert(items@.skip(i as int)[0] == items@[i as int]);
                let found = find_string(&items[i], candidates);
                if found.is_some() {
                    return found;
                }
                i = i + 1;
            }
            None
        },
        _ => None,
    }
}

/// The unsigned integer under the first candidate key (in candidate order) that holds one.
pub open spec fn direct_u64(entries: Seq<(String, JsonValue)>, keys: Seq<Seq<char>>) -> Option<u64>
    decreases keys.len(),
{
    if keys.len() == 0 {
        None
    } else {
        match entry_lookup(entries, keys[0]) {
            Some(v) => match json_as_u64(v) {
                Some(n) => Some(n),
                None => direct_u64(entries, keys.drop_first()),
            },
            None => direct_u64(entries, keys.drop_first()),
        }
    }
}

/// Depth-first search for an unsigned integer under one of the keys, in the same
/// order as [`find_string_spec`].
pub open spec fn find_u64_spec(value: JsonValue, keys: Seq<Seq<char>>) -> Option<u64>
    decreases value,
{
    match value {
        JsonValue::Object(entries) => match direct_u64(entries@, keys) {
            Some(n) => Some(n),
            None => find_u64_in_entries(entries@, keys),
        },
        JsonValue::Array(items) => find_u64_in_items(items@, keys),
        _ => None,
    }
}

pub open spec fn find_u64_in_entries(entries: Seq<(String, JsonValue)>, keys: Seq<Seq<char>>) -> Option<u64>
    decreases entries,
{
    if entries.len() == 0 {
        None
    } else {
        match find_u64_spec(entries[0].1, keys) {
            Some(n) => Some(n),
            None => find_u64_in_entries(entries.subrange(1, entries.len() as int), keys),
        }
    }
}

pub open spec fn find_u64_in_items(items: Seq<JsonValue>, keys: Seq<Seq<char>>) -> Option<u64>
    decreases items,
{
    if items.len() == 0 {
        None
    } else {
        match find_u64_spec(items[0], keys) {
            Some(n) => Some(n),
            None => find_u64_in_items(items.subrange(1, items.len() as int), keys),
        }
    }
}

fn direct_u64_exec(entries: &Vec<(String, JsonValue)>, candidates: &[&str]) -> (r: Option<u64>)
    ensures
        r == direct_u64(entries@, key_views(candidates@)),
{
    let ghost keys = key_views(candidates@);
    let mut c: usize = 0;
    assert(keys.skip(0) =~= keys);
    while c < candidates.len()
        invariant
            keys == key_views(candidates@),
            c <= candidates.len(),
            direct_u64(entries@, keys) == direct_u64(entries@, keys.skip(c as int)),
        decreases candidates.len() - c,
    {
        assert(keys.skip(c as int).drop_first() =~= keys.skip(c + 1));
        assert(keys.skip(c as int)[0] == candidates@[c as int]@);
        match crate::json::lookup_entry(entries, candidates[c]) {
            Some(v) => {
                let n = v.as_u64();
                if n.is_some() {
                    return n;
                }
            },
            None => {},
        }
        c = c + 1;
    }
    None
}

/// The first unsigned integer found under one of the candidate keys, searching depth-first.
pub fn find_u64(value: &JsonValue, candidates: &[&str]) -> (r: Option<u64>)
    ensures
        r == find_u64_spec(*value, key_views(candidates@)),
    decreases value,
{
    let ghost keys = key_views(candidates@);
    match value {
        JsonValue::Object(entries) => {
            let direct = direct_u64_exec(entries, candidates);
            if direct.is_some() {
                return direct;
            }
            let mut i: usize = 0;
            assert(entries@.skip(0) =~= entries@);
            while i < entries.len()
                invariant
                    keys == key_views(candidates@),
                    *value == JsonValue::Object(*entries),
                    direct_u64(entries@, keys) is None,
                    i <= entries.len(),
                    find_u64_in_entries(entries@, keys) == find_u64_in_entries(entries@.skip(i as int), keys),
                decreases entries.len() - i,
            {
                assert(entries@.skip(i as int).subrange(1, entries@.skip(i as int).len() as int) =~= entries@.skip(i + 1));
                assert(entries@.skip(i as int)[0] == entries@[i as int]);
                let found = find_u64(&entries[i].1, candidates);
                if found.is_some() {
                    return found;
                }
                i = i + 1;
            }
            None
        },
        JsonValue::Array(items) => {
            let mut i: usize = 0;
            assert(items@.skip(0) =~= items@);
            while i < items.len()
                invariant
                    keys == key_views(candidates@),
                    *value == JsonValue::Array(*items),
                    i <= items.len(),
                    find_u64_in_items(items@, keys) == find_u64_in_items(items@.skip(i as int), keys),
                decreases items.len() - i,
            {
                assert(items@.skip(i as int).subrange(1, items@.skip(i as int).len() as int) =~= items@.skip(i + 1));
                assert(items@.skip(i as int)[0] == items@[i as int]);
                let found = find_u64(&items[i], candidates);
                if found.is_some() {
                    return found;
                }
                i = i + 1;
            }
            None
        },
        _ => None,
    }
}

/// The message for a missing member: "{context} did not include {key}.".
pub open spec fn missing_member_message(context: Seq<char>, key: Seq<char>) -> Seq<char> {
    context + " did not include "@ + key + "."@
}

fn missing_member(context: &str, key: &str) -> (r: String)
    ensures
        r@ == missing_member_message(context@, key@),
{
    let mut r = concat3(context, " did not include ", key);
    r.append(".");
    r
}

/// The members of the object at `key`, or an error naming `context` and `key`.
pub fn require_object<'a>(value: &'a JsonValue, key: &str, context: &str) -> (r: Result<&'a Vec<(String, JsonValue)>, String>)
    ensures
        match r {
            Ok(entries) => json_get(*value, key@) == Some(JsonValue::Object(*entries)),
            Err(e) => !(json_get(*value, key@) matches Some(JsonValue::Object(_)))
                && e@ == missing_member_message(context@, key@),
        },
{
    match value.get(key) {
        Some(JsonValue::Object(entries)) => Ok(entries),
        _ => Err(missing_member(context, key)),
    }
}

/// The items of the array under member `key`, or an error naming `context` and `key`.
pub fn require_array<'a>(entries: &'a Vec<(String, JsonValue)>, key: &str, context: &str) -> (r: Result<&'a Vec<JsonValue>, String>)
    ensures
        match r {
            Ok(items) => entry_lookup(entries@, key@) == Some(JsonValue::Array(*items)),
            Err(e) => !(entry_lookup(entries@, key@) matches Some(JsonValue::Array(_)))
                && e@ == missing_member_message(context@, key@),
        },
{
    match crate::json::lookup_entry(entries, key) {
        Some(JsonValue::Array(items)) => Ok(items),
        _ => Err(missing_member(context, key)),
    }
}

} // verus!
