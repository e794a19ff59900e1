//! The gateway status shown on the dashboard.
use vstd::prelude::*;

verus! {

#[derive(Clone, Copy, Debug, PartialEq, Eq, Structural)]
pub enum GatewayLevel {
    Healthy,
    Degraded,
}

#[derive(Clone, Debug, PartialEq, Eq)]
pub struct GatewayStatusSnapshot {
    pub connected: bool,
    pub level: GatewayLevel,
    pub summary: String,
    pub detail: String,
    pub gateway_url: String,
    pub protocol_version: Option<u32>,
    pub state_version: Option<u64>,
    pub uptime_ms: Option<u64>,
}

impl GatewayStatusSnapshot {
    /// A status for a gateway that could not be reached or configured.
    pub fn degraded(gateway_url: String, summary: String, detail: String) -> (r: Self)
        ensures
            !r.connected,
            r.level == GatewayLevel::Degraded,
            r.summary@ == summary@,
            r.detail@ == detail@,
            r.gateway_url@ == gateway_url@,
            r.protocol_version is None,
            r.state_version is None,
            r.uptime_ms is None,
    {
        GatewayStatusSnapshot {
            connected: false,
            level: GatewayLevel::Degraded,
            summary,
            detail,
            gateway_url,
            protocol_version: None,
            state_version: None,
            uptime_ms: None,
        }
    }
}

} // verus!
