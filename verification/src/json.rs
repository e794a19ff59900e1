//! A JSON document tree, as the gateway and the local metadata files carry it,
//! with the lookups the mapping logic reads it through.
use vstd::prelude::*;
use crate::text::str_eq;

verus! {

/// A JSON number: an unsigned integer, a negative integer, or another number kept
/// as its decimal text.
#[derive(Clone, Debug, PartialEq, Eq)]
pub enum JsonNumber {
    UInt(u64),
    NegInt(i64),
    Decimal(String),
}

/// A JSON value. Object members keep their order; a lookup finds the first member
/// with the key.
#[derive(Debug, PartialEq, Eq)]
pub enum JsonValue {
    Null,
    Bool(bool),
    Number(JsonNumber),
    Str(String),
    Array(Vec<JsonValue>),
    Object(Vec<(String, JsonValue)>),
}

/// The value of the first member named `key`.
pub open spec fn entry_lookup(entries: Seq<(String, JsonValue)>, key: Seq<char>) -> Option<JsonValue>
    decreases entries.len(),
{
    if entries.len() == 0 {
        None
    } else if entries[0].0@ == key {
        Some(entries[0].1)
    } else {
        entry_lookup(entries.drop_first(), key)
    }
}

/// `value[key]` for an object; nothing for other values.
pub open spec fn json_get(value: JsonValue, key: Seq<char>) -> Option<JsonValue> {
    match value {
        JsonValue::Object(entries) => entry_lookup(entries@, key),
        _ => None,
    }
}

pub open spec fn json_as_str(value: JsonValue) -> Option<Seq<char>> {
    match value {
        JsonValue::Str(s) => Some(s@),
        _ => None,
    }
}

pub open spec fn json_as_bool(value: JsonValue) -> Option<bool> {
    match value {
        JsonValue::Bool(b) => Some(b),
        _ => None,
    }
}

/// The value of a number that is a non-negative integer fitting `u64`.
pub open spec fn json_as_u64(value: JsonValue) -> Option<u64> {
    match value {
        JsonValue::Number(JsonNumber::UInt(n)) => Some(n),
        _ => None,
    }
}

/// The string at `key` of an optional value.
pub open spec fn get_str(value: Option<JsonValue>, key: Seq<char>) -> Option<Seq<char>> {
    match value {
        Some(v) => match json_get(v, key) {
            Some(f) => json_as_str(f),
            None => None,
        },
        None => None,
    }
}

/// The boolean at `key` of an optional value.
pub open spec fn get_bool(value: Option<JsonValue>, key: Seq<char>) -> Option<bool> {
    match value {
        Some(v) => match json_get(v, key) {
            Some(f) => json_as_bool(f),
            None => None,
        },
        None => None,
    }
}

/// The unsigned integer at `key` of an optional value.
pub open spec fn get_u64(value: Option<JsonValue>, key: Seq<char>) -> Option<u64> {
    match value {
        Some(v) => match json_get(v, key) {
            Some(f) => json_as_u64(f),
            None => None,
        },
        None => None,
    }
}

/// A reference option seen as a value option.
pub open spec fn deref_opt(r: Option<&JsonValue>) -> Option<JsonValue> {
    match r {
        Some(v) => Some(*v),
        None => None,
    }
}

impl JsonValue {
    /// The member named `key` of an object.
    pub fn get(&self, key: &str) -> (r: Option<&JsonValue>)
        ensures
            deref_opt(r) == json_get(*self, key@),
    {
        match self {
            JsonValue::Object(entries) => lookup_entry(entries, key),
            _ => None,
        }
    }

    pub fn as_str(&self) -> (r: Option<&String>)
        ensures
            match r {
                Some(s) => json_as_str(*self) == Some(s@),
                None => json_as_str(*self) is None,
            },
    {
        match self {
            JsonValue::Str(s) => Some(s),
            _ => None,
        }
    }

    pub fn as_bool(&self) -> (r: Option<bool>)
        ensures
            r == json_as_bool(*self),
    {
        match self {
            JsonValue::Bool(b) => Some(*b),
            _ => None,
        }
    }

    pub fn as_u64(&self) -> (r: Option<u64>)
        ensures
            r == json_as_u64(*self),
    {
        match self {
            JsonValue::Number(JsonNumber::UInt(n)) => Some(*n),
            _ => None,
        }
    }

    /// The string at `key`, copied.
    pub fn get_string(&self, key: &str) -> (r: Option<String>)
        ensures
            match r {
                Some(s) => get_str(Some(*self), key@) == Some(s@),
                None => get_str(Some(*self), key@) is None,
            },
    {
        match self.get(key) {
            Some(v) => match v.as_str() {
                Some(s) => Some(s.clone()),
                None => None,
            },
            None => None,
        }
    }

    /// The boolean at `key`.
    pub fn get_bool(&self, key: &str) -> (r: Option<bool>)
        ensures
            r == get_bool(Some(*self), key@),
    {
        match self.get(key) {
            Some(v) => v.as_bool(),
            None => None,
        }
    }

    /// The unsigned integer at `key`.
    pub fn get_u64(&self, key: &str) -> (r: Option<u64>)
        ensures
            r == get_u64(Some(*self), key@),
    {
        match self.get(key) {
            Some(v) => v.as_u64(),
            None => None,
        }
    }
}

/// The value of the first member named `key`.
pub fn lookup_entry<'a>(entries: &'a Vec<(String, JsonValue)>, key: &str) -> (r: Option<&'a JsonValue>)
    ensures
        deref_opt(r) == entry_lookup(entries@, key@),
{
    let mut i: usize = 0;
    assert(entries@.skip(0) =~= entries@);
    while i < entries.len()
        invariant
            i <= entries.len(),
            entry_lookup(entries@, key@) == entry_lookup(entries@.skip(i as int), key@),
        decreases entries.len() - i,
    {
        assert(entries@.skip(i as int).drop_first() =~= entries@.skip(i + 1));
        if crate::text::str_eq(entries[i].0.as_str(), key) {
            return Some(&entries[i].1);
        }
        i = i + 1;
    }
    None
}

/// A lookup finds the member at index `i` when no earlier member has its key.
pub proof fn lemma_entry_lookup_at(entries: Seq<(String, JsonValue)>, key: Seq<char>, i: int)
    requires
        0 <= i < entries.len(),
        entries[i].0@ == key,
        forall|j: int| 0 <= j < i ==> (#[trigger] entries[j]).0@ != key,
    ensures
        entry_lookup(entries, key) == Some(entries[i].1),
    decreases i,
{
    if i > 0 {
        let rest = entries.drop_first();
        assert forall|j: int| 0 <= j < i - 1 implies (#[trigger] rest[j]).0@ != key by {
            assert(rest[j] == entries[j + 1]);
        }
        lemma_entry_lookup_at(rest, key, i - 1);
    }
}

/// [`lemma_entry_lookup_at`] for one of the first six members, with the earlier keys
/// compared one by one.
pub proof fn lemma_entry_lookup_small(entries: Seq<(String, JsonValue)>, key: Seq<char>, i: int)
    requires
        0 <= i < entries.len(),
        i < 6,
        entries[i].0@ == key,
        i > 0 ==> entries[0].0@ != key,
        i > 1 ==> entries[1].0@ != key,
        i > 2 ==> entries[2].0@ != key,
        i > 3 ==> entries[3].0@ != key,
        i > 4 ==> entries[4].0@ != key,
    ensures
        entry_lookup(entries, key) == Some(entries[i].1),
{
    assert forall|j: int| 0 <= j < i implies (#[trigger] entries[j]).0@ != key by {
        if j == 0 {} else if j == 1 {} else if j == 2 {} else if j == 3 {} else if j == 4 {}
    }
    lemma_entry_lookup_at(entries, key, i);
}

} // verus!
