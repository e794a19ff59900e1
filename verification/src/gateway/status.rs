//! The gateway status built from the connect and health responses.
use vstd::prelude::*;
use crate::gateway::config::LoadedGatewayConfig;
use crate::gateway::ws::Envelope;
use crate::json::JsonValue;
use crate::models::gateway::{GatewayLevel, GatewayStatusSnapshot};
use crate::parse::{find_string, find_string_spec, find_u64, find_u64_spec, key_views};
use crate::text::{concat3, eq_ignore_ascii_case, eq_ignore_ascii_case_spec, owned};

verus! {

/// Whether the gateway reports itself healthy.
#[derive(Clone, Copy, Debug, PartialEq, Eq, Structural)]
pub enum HealthState {
    Healthy,
    Degraded,
}

impl HealthState {
    /// `healthy`, in any ASCII case, is healthy; any other label is degraded.
    pub fn from_label(label: &str) -> (r: Self)
        ensures
            r == (if eq_ignore_ascii_case_spec(label@, "healthy"@) { HealthState::Healthy } else { HealthState::Degraded }),
    {
        if eq_ignore_ascii_case(label, "healthy") {
            HealthState::Healthy
        } else {
            HealthState::Degraded
        }
    }

    pub fn level(self) -> (r: GatewayLevel)
        ensures
            r == health_level(self),
    {
        match self {
            HealthState::Healthy => GatewayLevel::Healthy,
            HealthState::Degraded => GatewayLevel::Degraded,
        }
    }
}

pub open spec fn health_level(state: HealthState) -> GatewayLevel {
    match state {
        HealthState::Healthy => GatewayLevel::Healthy,
        HealthState::Degraded => GatewayLevel::Degraded,
    }
}

/// A health label and what it means.
pub struct HealthStatus {
    pub label: String,
    pub state: HealthState,
}

impl HealthStatus {
    pub fn level(&self) -> (r: GatewayLevel)
        ensures
            r == health_level(self.state),
    {
        self.state.level()
    }
}

/// The keys under which a health payload states its health.
pub open spec fn health_keys() -> Seq<Seq<char>> {
    seq!["status"@, "health"@, "state"@]
}

/// The health label of a payload: the first string under `status`, `health` or
/// `state`, searching depth-first; "healthy" when there is none.
pub open spec fn health_label(payload: Option<JsonValue>) -> Seq<char> {
    match payload {
        Some(p) => match find_string_spec(p, health_keys()) {
            Some(label) => label,
            None => "healthy"@,
        },
        None => "healthy"@,
    }
}

pub fn health_status_from_payload(payload: Option<&JsonValue>) -> (r: HealthStatus)
    ensures
        r.label@ == health_label(match payload { Some(p) => Some(*p), None => None }),
        r.state == (if eq_ignore_ascii_case_spec(r.label@, "healthy"@) { HealthState::Healthy } else { HealthState::Degraded }),
{
    let keys: [&str; 3] = ["status", "health", "state"];
    assert(key_views(keys@) =~= health_keys());
    let found = match payload {
        Some(p) => find_string(p, keys.as_slice()),
        None => None,
    };
    let label = match found {
        Some(label) => label,
        None => owned("healthy"),
    };
    let state = HealthState::from_label(label.as_str());
    HealthStatus { label, state }
}

/// The unsigned integer under `key` anywhere in an optional payload.
pub open spec fn payload_u64(payload: Option<JsonValue>, key: Seq<char>) -> Option<u64> {
    match payload {
        Some(p) => find_u64_spec(p, seq![key]),
        None => None,
    }
}

fn find_in_payload(payload: &Option<JsonValue>, key: &str) -> (r: Option<u64>)
    ensures
        r == payload_u64(*payload, key@),
{
    let keys: [&str; 1] = [key];
    assert(key_views(keys@) =~= seq![key@]);
    match payload {
        Some(p) => find_u64(p, keys.as_slice()),
        None => None,
    }
}

/// The first of two optional values that is present.
pub open spec fn or_else<T>(first: Option<T>, second: Option<T>) -> Option<T> {
    match first {
        Some(v) => Some(v),
        None => second,
    }
}

/// The gateway status for a successful connect and health exchange: connected, at the
/// health label's level; protocol version from the connect payload (truncated to 32
/// bits); state version and uptime from the health payload, else the connect payload.
pub fn map_gateway_status_snapshot(
    config: &LoadedGatewayConfig,
    connect_frame: &Envelope,
    health_frame: &Envelope,
) -> (r: GatewayStatusSnapshot)
    ensures
        r.connected,
        r.level == (if eq_ignore_ascii_case_spec(health_label(health_frame.payload), "healthy"@) {
            GatewayLevel::Healthy
        } else {
            GatewayLevel::Degraded
        }),
        r.summary@ == "Connected to the OpenClaw Gateway over WebSocket ("@ + health_label(health_frame.payload) + ")."@,
        r.detail@ == "Gateway status was fetched through the documented loopback WS connection at "@ + config.ws_url@ + "."@,
        r.gateway_url@ == config.ws_url@,
        r.protocol_version == (match payload_u64(connect_frame.payload, "protocolVersion"@) {
            Some(v) => Some(v as u32),
            None => None,
        }),
        r.state_version == or_else(payload_u64(health_frame.payload, "stateVersion"@), payload_u64(connect_frame.payload, "stateVersion"@)),
        r.uptime_ms == or_else(payload_u64(health_frame.payload, "uptimeMs"@), payload_u64(connect_frame.payload, "uptimeMs"@)),
{
    let protocol_version = match find_in_payload(&connect_frame.payload, "protocolVersion") {
        Some(v) => Some(v as u32),
        None => None,
    };
    let state_version = match find_in_payload(&health_frame.payload, "stateVersion") {
        Some(v) => Some(v),
        None => find_in_payload(&connect_frame.payload, "stateVersion"),
    };
    let uptime_ms = match find_in_payload(&health_frame.payload, "uptimeMs") {
        Some(v) => Some(v),
        None => find_in_payload(&connect_frame.payload, "uptimeMs"),
    };
    let health_payload = match &health_frame.payload {
        Some(p) => Some(p),
        None => None,
    };
    let health = health_status_from_payload(health_payload);
    let level = health.level();
    let summary = concat3("Connected to the OpenClaw Gateway over WebSocket (", health.label.as_str(), ").");
    let detail = concat3(
        "Gateway status was fetched through the documented loopback WS connection at ",
        config.ws_url.as_str(),
        ".",
    );
    GatewayStatusSnapshot {
        connected: true,
        level,
        summary,
        detail,
        gateway_url: config.ws_url.clone(),
        protocol_version,
        state_version,
        uptime_ms,
    }
}


/// A health payload that states no health (no string under `status`, `health` or
/// `state`, searched depth-first), or no payload at all, counts as healthy: the label
/// is "healthy" and the gateway level Healthy.
pub proof fn law_unlabelled_health_is_healthy(payload: Option<JsonValue>)
    requires
        payload matches Some(p) ==> find_string_spec(p, seq!["status"@, "health"@, "state"@]) is None,
    ensures
        health_label(payload) == "healthy"@,
        eq_ignore_ascii_case_spec(health_label(payload), "healthy"@),
{
    assert(health_keys() =~= seq!["status"@, "health"@, "state"@]);
}

} // verus!
