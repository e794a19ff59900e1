//! Live gateway events and the connection state shown to the operator.
use vstd::prelude::*;
use crate::text::{concat3, eq_ignore_ascii_case, eq_ignore_ascii_case_spec, owned};

verus! {

#[derive(Clone, Copy, Debug, PartialEq, Eq, Structural)]
pub enum LiveGatewayLevel {
    Healthy,
    Degraded,
    Connecting,
    Disconnected,
}

#[derive(Clone, Debug, PartialEq, Eq)]
pub struct LiveGatewayEvent {
    pub level: LiveGatewayLevel,
    pub summary: String,
    pub detail: String,
}

/// State of the browser's connection to the backend event stream.
#[derive(Clone, Copy, Debug, PartialEq, Eq, Structural)]
pub enum BackendConnectionState {
    Connecting,
    Connected,
    Disconnected,
}

/// What the operator is shown about connectivity.
#[derive(Clone, Copy, Debug, PartialEq, Eq, Structural)]
pub enum OperatorConnectionState {
    Connected,
    Connecting,
    Disconnected,
    Degraded,
}

/// The operator-facing state for a backend state and the latest gateway level.
pub open spec fn operator_state_spec(
    backend_state: BackendConnectionState,
    gateway_level: Option<LiveGatewayLevel>,
) -> OperatorConnectionState {
    match backend_state {
        BackendConnectionState::Disconnected => OperatorConnectionState::Disconnected,
        _ => match gateway_level {
            Some(LiveGatewayLevel::Healthy) => OperatorConnectionState::Connected,
            Some(LiveGatewayLevel::Degraded) => OperatorConnectionState::Degraded,
            Some(LiveGatewayLevel::Disconnected) => OperatorConnectionState::Disconnected,
            _ => OperatorConnectionState::Connecting,
        },
    }
}

pub fn resolve_operator_connection_state(
    backend_state: BackendConnectionState,
    gateway_level: Option<LiveGatewayLevel>,
) -> (r: OperatorConnectionState)
    ensures
        r == operator_state_spec(backend_state, gateway_level),
{
    match backend_state {
        BackendConnectionState::Disconnected => OperatorConnectionState::Disconnected,
        BackendConnectionState::Connecting => match gateway_level {
            Some(LiveGatewayLevel::Healthy) => OperatorConnectionState::Connected,
            Some(LiveGatewayLevel::Degraded) => OperatorConnectionState::Degraded,
            Some(LiveGatewayLevel::Disconnected) => OperatorConnectionState::Disconnected,
            Some(LiveGatewayLevel::Connecting) | None => OperatorConnectionState::Connecting,
        },
        BackendConnectionState::Connected => match gateway_level {
            Some(LiveGatewayLevel::Healthy) => OperatorConnectionState::Connected,
            Some(LiveGatewayLevel::Degraded) => OperatorConnectionState::Degraded,
            Some(LiveGatewayLevel::Disconnected) => OperatorConnectionState::Disconnected,
            Some(LiveGatewayLevel::Connecting) | None => OperatorConnectionState::Connecting,
        },
    }
}

/// A disconnected backend is shown as disconnected, whatever the gateway reported.
pub proof fn law_disconnected_backend_overrides_gateway(gateway_level: Option<LiveGatewayLevel>)
    ensures
        operator_state_spec(BackendConnectionState::Disconnected, gateway_level)
            == OperatorConnectionState::Disconnected,
{
}

/// While the backend is reachable, a connecting backend and a connected one are
/// shown alike: only the gateway's level decides.
pub proof fn law_reachable_backend_follows_gateway(gateway_level: Option<LiveGatewayLevel>)
    ensures
        operator_state_spec(BackendConnectionState::Connecting, gateway_level)
            == operator_state_spec(BackendConnectionState::Connected, gateway_level),
{
}

/// The level that a gateway health label stands for: `healthy`, in any ASCII
/// case, is healthy; every other label is degraded.
pub open spec fn health_label_level(label: Seq<char>) -> LiveGatewayLevel {
    if eq_ignore_ascii_case_spec(label, "healthy"@) {
        LiveGatewayLevel::Healthy
    } else {
        LiveGatewayLevel::Degraded
    }
}

impl LiveGatewayEvent {
    pub fn new(level: LiveGatewayLevel, summary: String, detail: String) -> (r: Self)
        ensures
            r.level == level,
            r.summary@ == summary@,
            r.detail@ == detail@,
    {
        LiveGatewayEvent { level, summary, detail }
    }

    /// The event stream dropped and is being reopened.
    pub fn disconnected(detail: String) -> (r: Self)
        ensures
            r.level == LiveGatewayLevel::Connecting,
            r.summary@ == "Gateway event stream reconnecting"@,
            r.detail@ == detail@,
    {
        Self::connecting("Gateway event stream reconnecting", detail)
    }

    /// The event stream cannot be started at all.
    pub fn unavailable(detail: String) -> (r: Self)
        ensures
            r.level == LiveGatewayLevel::Degraded,
            r.summary@ == "Gateway event stream unavailable"@,
            r.detail@ == detail@,
    {
        Self::degraded("Gateway event stream unavailable", detail)
    }

    pub fn degraded(summary: &str, detail: String) -> (r: Self)
        ensures
            r.level == LiveGatewayLevel::Degraded,
            r.summary@ == summary@,
            r.detail@ == detail@,
    {
        Self::new(LiveGatewayLevel::Degraded, owned(summary), detail)
    }

    pub fn connecting(summary: &str, detail: String) -> (r: Self)
        ensures
            r.level == LiveGatewayLevel::Connecting,
            r.summary@ == summary@,
            r.detail@ == detail@,
    {
        Self::new(LiveGatewayLevel::Connecting, owned(summary), detail)
    }

    /// A health report from the gateway, labelled `status`.
    pub fn health_update(status: &str) -> (r: Self)
        ensures
            r.level == health_label_level(status@),
            r.summary@ == "Gateway health update: "@ + status@ + "."@,
            r.detail@ == "Live gateway event received."@,
    {
        let level = if eq_ignore_ascii_case(status, "healthy") {
            LiveGatewayLevel::Healthy
        } else {
            LiveGatewayLevel::Degraded
        };
        Self::new(
            level,
            concat3("Gateway health update: ", status, "."),
            owned("Live gateway event received."),
        )
    }
}

} // verus!
