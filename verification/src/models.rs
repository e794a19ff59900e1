//! Data shared between the gateway adapter, graph assembly and the dashboard.
pub mod agents;
pub mod gateway;
pub mod graph;
pub mod live_gateway;
pub mod runtime;
