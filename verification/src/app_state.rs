//! Server state: the gateway settings and the adapter that serves requests.
use vstd::prelude::*;
use crate::gateway::config::LoadedGatewayConfig;

verus! {

/// The settings and adapter that the server functions share.
#[derive(Clone, Debug)]
pub struct ServerAppState<A> {
    gateway_config: LoadedGatewayConfig,
    adapter: A,
}

impl<A> ServerAppState<A> {
    pub closed spec fn config_spec(&self) -> LoadedGatewayConfig {
        self.gateway_config
    }

    pub closed spec fn adapter_spec(&self) -> A {
        self.adapter
    }

    pub fn new(gateway_config: LoadedGatewayConfig, adapter: A) -> (r: Self)
        ensures
            r.config_spec() == gateway_config,
            r.adapter_spec() == adapter,
    {
        ServerAppState { gateway_config, adapter }
    }

    /// Builds the state from the settings that `load_config` gives, or passes its error
    /// on.
    pub fn from_loader<F: FnOnce() -> Result<LoadedGatewayConfig, String>>(load_config: F, adapter: A) -> (r: Result<Self, String>)
        requires
            call_requires(load_config, ()),
        ensures
            match r {
                Ok(state) => call_ensures(load_config, (), Ok(state.config_spec())) && state.adapter_spec() == adapter,
                Err(e) => call_ensures(load_config, (), Err(e)),
            },
    {
        let gateway_config = load_config()?;
        Ok(Self::new(gateway_config, adapter))
    }

    pub fn gateway_config(&self) -> (r: &LoadedGatewayConfig)
        ensures
            *r == self.config_spec(),
    {
        &self.gateway_config
    }

    pub fn adapter(&self) -> (r: &A)
        ensures
            *r == self.adapter_spec(),
    {
        &self.adapter
    }
}

/// What a cached initialization result gives each caller: a reference to the state, or
/// a copy of the error.
pub fn cached_result<'a, A>(state: &'a Result<ServerAppState<A>, String>) -> (r: Result<&'a ServerAppState<A>, String>)
    ensures
        match (r, *state) {
            (Ok(s), Ok(t)) => *s == t,
            (Err(e), Err(f)) => e@ == f@,
            _ => false,
        },
{
    match state {
        Ok(state) => Ok(state),
        Err(error) => Err(error.clone()),
    }
}

} // verus!
