//! The client that the dashboard pages use to reach the server functions.
use vstd::prelude::*;

verus! {

/// The web client: it reaches the gateway status and agent overview through the
/// server's endpoints.
#[derive(Clone, Copy, Debug, Default, PartialEq, Eq)]
pub struct WebAppClient;

} // verus!
