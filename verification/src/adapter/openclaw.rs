//! The OpenClaw gateway adapter.
pub mod hint_laws;
pub mod hints;
pub mod mapping;
pub mod snapshot;

use vstd::prelude::*;
use crate::text::concat3;

verus! {

/// The adapter that reads agents, bindings, sessions and relationship hints from an
/// OpenClaw gateway and its local configuration.
#[derive(Clone, Copy, Debug, Default, PartialEq, Eq)]
pub struct OpenClawAdapter;

/// The error of an adapter method that has no implementation yet.
pub fn not_implemented<T>(method: &str) -> (r: Result<T, String>)
    ensures
        match r {
            Err(e) => e@ == "OpenClawAdapter::"@ + method@ + "() is not implemented yet."@,
            Ok(_) => false,
        },
{
    Err(concat3("OpenClawAdapter::", method, "() is not implemented yet."))
}

} // verus!
