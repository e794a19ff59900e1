//! Runtime records reported by the gateway.
use vstd::prelude::*;

verus! {

/// One session that the gateway reports as running for an agent.
#[derive(Clone, Debug, PartialEq, Eq)]
pub struct ActiveSessionRecord {
    pub session_id: String,
    pub agent_id: String,
    pub task: Option<String>,
    pub age_ms: Option<u64>,
}

/// The mathematical content of an [`ActiveSessionRecord`].
pub struct SessionView {
    pub session_id: Seq<char>,
    pub agent_id: Seq<char>,
    pub task: Option<Seq<char>>,
    pub age_ms: Option<u64>,
}

/// The characters of an optional string.
pub open spec fn opt_chars(o: Option<String>) -> Option<Seq<char>> {
    match o {
        Some(s) => Some(s@),
        None => None,
    }
}

impl View for ActiveSessionRecord {
    type V = SessionView;

    open spec fn view(&self) -> SessionView {
        SessionView {
            session_id: self.session_id@,
            agent_id: self.agent_id@,
            task: opt_chars(self.task),
            age_ms: self.age_ms,
        }
    }
}

/// A copy of an optional string.
pub fn copy_opt_string(o: &Option<String>) -> (r: Option<String>)
    ensures
        opt_chars(r) == opt_chars(*o),
{
    match o {
        Some(s) => Some(s.clone()),
        None => None,
    }
}

impl ActiveSessionRecord {
    /// A field-by-field copy.
    pub fn copied(&self) -> (r: ActiveSessionRecord)
        ensures
            r@ == self@,
    {
        ActiveSessionRecord {
            session_id: self.session_id.clone(),
            agent_id: self.agent_id.clone(),
            task: copy_opt_string(&self.task),
            age_ms: self.age_ms,
        }
    }
}

/// The views of a sequence of session records.
pub open spec fn session_views(records: Seq<ActiveSessionRecord>) -> Seq<SessionView> {
    records.map_values(|r: ActiveSessionRecord| r@)
}

} // verus!
