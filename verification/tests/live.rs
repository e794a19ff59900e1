use daneel::gateway::config::LoadedGatewayConfig;
use daneel::json::{JsonNumber, JsonValue};
use daneel::live::{
    BridgeAction, BridgeInput, BridgePhase, BridgeSettings, GATEWAY_RETRY_DELAY_SECS, bridge_start, bridge_step,
    health_live_request, parse_gateway_event,
};
use daneel::models::live_gateway::{LiveGatewayEvent, LiveGatewayLevel};

fn str_value(value: &str) -> JsonValue {
    JsonValue::Str(value.to_string())
}

fn members(entries: Vec<(&str, JsonValue)>) -> JsonValue {
    JsonValue::Object(entries.into_iter().map(|(key, value)| (key.to_string(), value)).collect())
}

#[test]
fn parse_gateway_event_ignores_non_health_events() {
    let payload = members(vec![
        ("type", str_value("event")),
        ("event", str_value("agent")),
        (
            "payload",
            members(vec![
                ("agentId", str_value("email")),
                ("status", members(vec![("health", members(vec![("state", str_value("degraded"))]))])),
            ]),
        ),
    ]);

    assert!(parse_gateway_event(&payload).is_none());
}

#[test]
fn parse_gateway_event_reads_health_event_state() {
    let payload = members(vec![
        ("type", str_value("event")),
        ("event", str_value("health")),
        (
            "payload",
            members(vec![("status", members(vec![("health", members(vec![("state", str_value("healthy"))]))]))]),
        ),
    ]);

    let event = parse_gateway_event(&payload).expect("parse health event");
    assert!(matches!(event.level, LiveGatewayLevel::Healthy));
    assert_eq!(event.summary, "Gateway health update: healthy.");
}

#[test]
fn parse_gateway_event_reads_health_response_state() {
    let payload = members(vec![
        ("type", str_value("res")),
        ("id", str_value("health-live-1")),
        ("ok", JsonValue::Bool(true)),
        ("payload", members(vec![("status", str_value("degraded"))])),
    ]);

    let event = parse_gateway_event(&payload).expect("parse health response");
    assert!(matches!(event.level, LiveGatewayLevel::Degraded));
    assert_eq!(event.summary, "Gateway health update: degraded.");
}

#[test]
fn parse_gateway_event_ignores_connect_response() {
    let payload = members(vec![
        ("type", str_value("res")),
        ("id", str_value("connect-live-1")),
        ("ok", JsonValue::Bool(true)),
        ("payload", members(vec![("protocolVersion", JsonValue::Number(JsonNumber::UInt(3)))])),
    ]);

    assert!(parse_gateway_event(&payload).is_none());
}

#[test]
fn live_events_have_their_levels_and_texts() {
    let event = LiveGatewayEvent::health_update("HEALTHY");
    assert_eq!(event.level, LiveGatewayLevel::Healthy);
    assert_eq!(event.summary, "Gateway health update: HEALTHY.");
    assert_eq!(event.detail, "Live gateway event received.");
    assert_eq!(LiveGatewayEvent::health_update("flaky").level, LiveGatewayLevel::Degraded);
    let lost = LiveGatewayEvent::disconnected("gone".to_string());
    assert_eq!(lost.level, LiveGatewayLevel::Connecting);
    assert_eq!(lost.summary, "Gateway event stream reconnecting");
    let unavailable = LiveGatewayEvent::unavailable("no config".to_string());
    assert_eq!(unavailable.level, LiveGatewayLevel::Degraded);
    assert_eq!(unavailable.summary, "Gateway event stream unavailable");
}

fn settings() -> BridgeSettings {
    BridgeSettings {
        config: LoadedGatewayConfig::new("tok", "ws://127.0.0.1:18789/").expect("config"),
        client_version: "0.1.0".to_string(),
        platform: "linux".to_string(),
    }
}

fn published(action: &BridgeAction) -> Option<&LiveGatewayEvent> {
    match action {
        BridgeAction::Publish(event) => Some(event),
        _ => None,
    }
}

#[test]
fn bridge_stops_when_settings_cannot_be_read() {
    let (state, actions) = bridge_step(bridge_start(), BridgeInput::Settings(Err("HOME is not set.".to_string())));
    assert_eq!(state.phase, BridgePhase::Stopped);
    assert_eq!(actions.len(), 2);
    let event = published(&actions[0]).expect("publish");
    assert_eq!(event.level, LiveGatewayLevel::Degraded);
    assert_eq!(event.summary, "Gateway event stream unavailable");
    assert_eq!(event.detail, "HOME is not set.");
    assert!(matches!(actions[1], BridgeAction::Stop));
    let (after, more) = bridge_step(state, BridgeInput::RetryElapsed);
    assert_eq!(after.phase, BridgePhase::Stopped);
    assert!(more.is_empty());
}

#[test]
fn bridge_walks_through_a_session_and_retries_after_close() {
    let (state, actions) = bridge_step(bridge_start(), BridgeInput::Settings(Ok(settings())));
    assert_eq!(state.phase, BridgePhase::Opening);
    let event = published(&actions[0]).expect("publish");
    assert_eq!(event.summary, "Connecting to the gateway event stream");
    assert_eq!(event.detail, "Opening a live websocket to ws://127.0.0.1:18789/.");
    assert!(matches!(&actions[1], BridgeAction::Open(url) if url == "ws://127.0.0.1:18789/"));

    let (state, actions) = bridge_step(state, BridgeInput::SocketOpened(Ok(())));
    assert_eq!(state.phase, BridgePhase::SendingConnect);
    match &actions[0] {
        BridgeAction::Send(frame) => {
            assert_eq!(frame.get_string("id").as_deref(), Some("connect-live-1"));
            assert_eq!(frame.get_string("method").as_deref(), Some("connect"));
        },
        _ => panic!("expected the connect request"),
    }

    let (state, actions) = bridge_step(state, BridgeInput::ConnectSent(Ok(())));
    assert_eq!(state.phase, BridgePhase::AwaitingConnect);
    assert!(matches!(&actions[0], BridgeAction::AwaitResponse(id) if id == "connect-live-1"));

    let (state, actions) = bridge_step(state, BridgeInput::ConnectAnswered(Ok(())));
    assert_eq!(state.phase, BridgePhase::SendingHealth);
    match &actions[0] {
        BridgeAction::Send(frame) => assert_eq!(frame, &health_live_request()),
        _ => panic!("expected the health request"),
    }

    let (state, actions) = bridge_step(state, BridgeInput::HealthSent(Ok(())));
    assert_eq!(state.phase, BridgePhase::Streaming);
    assert!(matches!(actions[0], BridgeAction::ReadFrame));

    let frame = members(vec![
        ("type", str_value("res")),
        ("id", str_value("health-live-1")),
        ("ok", JsonValue::Bool(true)),
        ("payload", members(vec![("status", str_value("healthy"))])),
    ]);
    let (state, actions) = bridge_step(state, BridgeInput::Frame(Ok(frame)));
    assert_eq!(state.phase, BridgePhase::Streaming);
    assert_eq!(actions.len(), 2);
    assert_eq!(published(&actions[0]).expect("publish").level, LiveGatewayLevel::Healthy);
    assert!(matches!(actions[1], BridgeAction::ReadFrame));

    let (state, actions) = bridge_step(state, BridgeInput::Closed);
    assert_eq!(state.phase, BridgePhase::Retrying);
    let event = published(&actions[0]).expect("publish");
    assert_eq!(event.level, LiveGatewayLevel::Connecting);
    assert_eq!(event.detail, "Gateway websocket closed");
    assert!(matches!(actions[1], BridgeAction::Sleep(secs) if secs == GATEWAY_RETRY_DELAY_SECS));

    let (state, actions) = bridge_step(state, BridgeInput::RetryElapsed);
    assert_eq!(state.phase, BridgePhase::Opening);
    assert!(matches!(&actions[1], BridgeAction::Open(_)));
}

#[test]
fn bridge_failures_name_their_step() {
    let (state, _) = bridge_step(bridge_start(), BridgeInput::Settings(Ok(settings())));
    let (state, actions) = bridge_step(state, BridgeInput::SocketOpened(Err("refused".to_string())));
    assert_eq!(state.phase, BridgePhase::Retrying);
    assert_eq!(
        published(&actions[0]).expect("publish").detail,
        "Could not open gateway websocket ws://127.0.0.1:18789/: refused"
    );

    let (state, _) = bridge_step(state, BridgeInput::RetryElapsed);
    let (state, _) = bridge_step(state, BridgeInput::SocketOpened(Ok(())));
    let (state, actions) = bridge_step(state, BridgeInput::ConnectSent(Err("broken pipe".to_string())));
    assert_eq!(state.phase, BridgePhase::Retrying);
    assert_eq!(published(&actions[0]).expect("publish").detail, "Could not send gateway connect request: broken pipe");

    let (state, _) = bridge_step(state, BridgeInput::Closed);
    assert_eq!(state.phase, BridgePhase::Retrying);
}
