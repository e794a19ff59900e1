//! Decisions of the live gateway event bridge: which gateway frames become live
//! events, and the requests the bridge sends.
use vstd::prelude::*;
use crate::gateway::ws::{connect_request, empty_object, is_connect_request, request_frame, member};
use crate::json::{JsonValue, get_str, get_bool, json_get, json_as_str};
use crate::models::live_gateway::{LiveGatewayEvent, LiveGatewayLevel, health_label_level};
use crate::text::{concat2, concat3, owned, str_eq};
use crate::gateway::config::LoadedGatewayConfig;

verus! {

/// The request id of the bridge's connect request.
pub const CONNECT_REQUEST_ID: &'static str = "connect-live-1";
/// The request id of the bridge's health request.
pub const HEALTH_REQUEST_ID: &'static str = "health-live-1";
/// Seconds between reconnect attempts.
pub const GATEWAY_RETRY_DELAY_SECS: u64 = 5;
/// Seconds between keep-alive comments on the event stream.
pub const SSE_KEEP_ALIVE_SECS: u64 = 15;

/// The string at a path of member names.
pub open spec fn string_at_path(value: JsonValue, keys: Seq<Seq<char>>) -> Option<Seq<char>>
    decreases keys.len(),
{
    if keys.len() == 0 {
        json_as_str(value)
    } else {
        match json_get(value, keys[0]) {
            Some(next) => string_at_path(next, keys.drop_first()),
            None => None,
        }
    }
}

pub fn value_at_string_path(value: &JsonValue, path: &[&str]) -> (r: Option<String>)
    ensures
        crate::models::runtime::opt_chars(r) == string_at_path(*value, path@.map_values(|k: &str| k@)),
{
    let ghost keys = path@.map_values(|k: &str| k@);
    let mut current = value;
    let mut i: usize = 0;
    assert(keys.skip(0) =~= keys);
    while i < path.len()
        invariant
            keys == path@.map_values(|k: &str| k@),
            i <= path.len(),
            string_at_path(*value, keys) == string_at_path(*current, keys.skip(i as int)),
        decreases path.len() - i,
    {
        assert(keys.skip(i as int)[0] == path@[i as int]@);
        assert(keys.skip(i as int).drop_first() =~= keys.skip(i + 1));
        match current.get(path[i]) {
            Some(next) => current = next,
            None => return None,
        }
        i = i + 1;
    }
    match current.as_str() {
        Some(s) => Some(s.clone()),
        None => None,
    }
}

/// The first path, in order, that leads to a string.
pub open spec fn string_at_any_path(value: JsonValue, paths: Seq<Seq<Seq<char>>>) -> Option<Seq<char>>
    decreases paths.len(),
{
    if paths.len() == 0 {
        None
    } else {
        match string_at_path(value, paths[0]) {
            Some(s) => Some(s),
            None => string_at_any_path(value, paths.drop_first()),
        }
    }
}

/// Where a health event states its status, in order of preference.
pub open spec fn event_status_paths() -> Seq<Seq<Seq<char>>> {
    seq![
        seq!["payload"@, "status"@, "health"@, "state"@],
        seq!["payload"@, "status"@],
        seq!["payload"@, "health"@],
        seq!["payload"@, "state"@],
    ]
}

/// Where a health response states its status, in order of preference.
pub open spec fn response_status_paths() -> Seq<Seq<Seq<char>>> {
    seq![
        seq!["payload"@, "status"@],
        seq!["payload"@, "health"@],
        seq!["payload"@, "state"@],
    ]
}

pub fn health_status_from_event(payload: &JsonValue) -> (r: Option<String>)
    ensures
        crate::models::runtime::opt_chars(r) == string_at_any_path(*payload, event_status_paths()),
{
    let p0: [&str; 4] = ["payload", "status", "health", "state"];
    let p1: [&str; 2] = ["payload", "status"];
    let p2: [&str; 2] = ["payload", "health"];
    let p3: [&str; 2] = ["payload", "state"];
    let ghost paths = event_status_paths();
    assert(p0@.map_values(|k: &str| k@) =~= paths[0]);
    assert(p1@.map_values(|k: &str| k@) =~= paths[1]);
    assert(p2@.map_values(|k: &str| k@) =~= paths[2]);
    assert(p3@.map_values(|k: &str| k@) =~= paths[3]);
    assert(paths.drop_first() =~= seq![paths[1], paths[2], paths[3]]);
    assert(paths.drop_first().drop_first() =~= seq![paths[2], paths[3]]);
    assert(paths.drop_first().drop_first().drop_first() =~= seq![paths[3]]);
    assert(paths.drop_first().drop_first().drop_first().drop_first() =~= Seq::<Seq<Seq<char>>>::empty());
    proof { reveal_with_fuel(string_at_any_path, 5); }
    let found = value_at_string_path(payload, p0.as_slice());
    if found.is_some() {
        return found;
    }
    let found = value_at_string_path(payload, p1.as_slice());
    if found.is_some() {
        return found;
    }
    let found = value_at_string_path(payload, p2.as_slice());
    if found.is_some() {
        return found;
    }
    value_at_string_path(payload, p3.as_slice())
}

pub fn health_status_from_response(payload: &JsonValue) -> (r: Option<String>)
    ensures
        crate::models::runtime::opt_chars(r) == string_at_any_path(*payload, response_status_paths()),
{
    let p1: [&str; 2] = ["payload", "status"];
    let p2: [&str; 2] = ["payload", "health"];
    let p3: [&str; 2] = ["payload", "state"];
    let ghost paths = response_status_paths();
    assert(p1@.map_values(|k: &str| k@) =~= paths[0]);
    assert(p2@.map_values(|k: &str| k@) =~= paths[1]);
    assert(p3@.map_values(|k: &str| k@) =~= paths[2]);
    assert(paths.drop_first() =~= seq![paths[1], paths[2]]);
    assert(paths.drop_first().drop_first() =~= seq![paths[2]]);
    assert(paths.drop_first().drop_first().drop_first() =~= Seq::<Seq<Seq<char>>>::empty());
    proof { reveal_with_fuel(string_at_any_path, 4); }
    let found = value_at_string_path(payload, p1.as_slice());
    if found.is_some() {
        return found;
    }
    let found = value_at_string_path(payload, p2.as_slice());
    if found.is_some() {
        return found;
    }
    value_at_string_path(payload, p3.as_slice())
}

/// Level, summary and detail of a live event.
pub open spec fn event_view(event: LiveGatewayEvent) -> (LiveGatewayLevel, Seq<char>, Seq<char>) {
    (event.level, event.summary@, event.detail@)
}

/// The live event for a health report labelled `label`.
pub open spec fn health_update_view(label: Seq<char>) -> (LiveGatewayLevel, Seq<char>, Seq<char>) {
    (health_label_level(label), "Gateway health update: "@ + label + "."@, "Live gateway event received."@)
}

/// The live event, if any, for a health report whose label may be missing.
pub open spec fn health_update_for(label: Option<Seq<char>>) -> Option<(LiveGatewayLevel, Seq<char>, Seq<char>)> {
    match label {
        Some(l) => Some(health_update_view(l)),
        None => None,
    }
}

/// The live event for a `health` event frame; nothing for other events.
pub open spec fn health_event_spec(payload: JsonValue) -> Option<(LiveGatewayLevel, Seq<char>, Seq<char>)> {
    match get_str(Some(payload), "event"@) {
        Some(name) => if name == "health"@ {
            health_update_for(string_at_any_path(payload, event_status_paths()))
        } else {
            None
        },
        None => None,
    }
}

/// The live event for the response to the bridge's health request; nothing for other
/// responses. A rejected request is reported as degraded with the gateway's message.
pub open spec fn health_response_spec(payload: JsonValue) -> Option<(LiveGatewayLevel, Seq<char>, Seq<char>)> {
    match get_str(Some(payload), "id"@) {
        Some(id) => if id != "health-live-1"@ {
            None
        } else if get_bool(Some(payload), "ok"@) == Some(false) {
            Some((
                LiveGatewayLevel::Degraded,
                "Gateway health request failed"@,
                match string_at_path(payload, seq!["error"@, "message"@]) {
                    Some(m) => m,
                    None => "The gateway rejected the live health request."@,
                },
            ))
        } else {
            health_update_for(string_at_any_path(payload, response_status_paths()))
        },
        None => None,
    }
}

/// The live event for a gateway frame: health events and the health response become
/// events; every other frame is ignored.
pub open spec fn gateway_event_spec(payload: JsonValue) -> Option<(LiveGatewayLevel, Seq<char>, Seq<char>)> {
    match get_str(Some(payload), "type"@) {
        Some(kind) => if kind == "event"@ {
            health_event_spec(payload)
        } else if kind == "res"@ {
            health_response_spec(payload)
        } else {
            None
        },
        None => None,
    }
}

pub open spec fn opt_event_view(event: Option<LiveGatewayEvent>) -> Option<(LiveGatewayLevel, Seq<char>, Seq<char>)> {
    match event {
        Some(e) => Some(event_view(e)),
        None => None,
    }
}

fn health_update_from(label: Option<String>) -> (r: Option<LiveGatewayEvent>)
    ensures
        opt_event_view(r) == health_update_for(crate::models::runtime::opt_chars(label)),
{
    match label {
        Some(l) => Some(LiveGatewayEvent::health_update(l.as_str())),
        None => None,
    }
}

pub fn parse_health_event(payload: &JsonValue) -> (r: Option<LiveGatewayEvent>)
    ensures
        opt_event_view(r) == health_event_spec(*payload),
{
    let name = match payload.get_string("event") {
        Some(n) => n,
        None => return None,
    };
    if !str_eq(name.as_str(), "health") {
        return None;
    }
    health_update_from(health_status_from_event(payload))
}

pub fn parse_health_response(payload: &JsonValue) -> (r: Option<LiveGatewayEvent>)
    ensures
        opt_event_view(r) == health_response_spec(*payload),
{
    let id = match payload.get_string("id") {
        Some(id) => id,
        None => return None,
    };
    if !str_eq(id.as_str(), HEALTH_REQUEST_ID) {
        return None;
    }
    if payload.get_bool("ok") == Some(false) {
        let path: [&str; 2] = ["error", "message"];
        assert(path@.map_values(|k: &str| k@) =~= seq!["error"@, "message"@]);
        let detail = match value_at_string_path(payload, path.as_slice()) {
            Some(m) => m,
            None => owned("The gateway rejected the live health request."),
        };
        return Some(LiveGatewayEvent::degraded("Gateway health request failed", detail));
    }
    health_update_from(health_status_from_response(payload))
}

/// The live event for a gateway frame, as [`gateway_event_spec`] describes.
pub fn parse_gateway_event(payload: &JsonValue) -> (r: Option<LiveGatewayEvent>)
    ensures
        opt_event_view(r) == gateway_event_spec(*payload),
{
    let kind = match payload.get_string("type") {
        Some(k) => k,
        None => return None,
    };
    if str_eq(kind.as_str(), "event") {
        return parse_health_event(payload);
    }
    if str_eq(kind.as_str(), "res") {
        return parse_health_response(payload);
    }
    None
}

/// The bridge's connect request.
pub fn connect_live_request(token: &str, client_version: &str, platform: &str) -> (r: JsonValue)
    ensures
        is_connect_request(r, "connect-live-1"@, token@, client_version@, platform@),
{
    connect_request(CONNECT_REQUEST_ID, token, client_version, platform)
}

/// The bridge's health request, with empty parameters.
pub fn health_live_request() -> (r: JsonValue)
    ensures
        get_str(Some(r), "type"@) == Some("req"@),
        get_str(Some(r), "id"@) == Some("health-live-1"@),
        get_str(Some(r), "method"@) == Some("health"@),
        json_get(r, "params"@) matches Some(JsonValue::Object(entries)) && entries@.len() == 0,
{
    request_frame(HEALTH_REQUEST_ID, "health", empty_object())
}

/// What the bridge needs to run: the gateway settings and how the client introduces
/// itself in the connect request.
pub struct BridgeSettings {
    pub config: LoadedGatewayConfig,
    pub client_version: String,
    pub platform: String,
}

/// Where the bridge stands.
#[derive(Clone, Copy, Debug, PartialEq, Eq, Structural)]
pub enum BridgePhase {
    /// The settings are being read.
    Starting,
    /// A websocket to the gateway is being opened.
    Opening,
    /// The connect request is being sent.
    SendingConnect,
    /// The response to the connect request is awaited.
    AwaitingConnect,
    /// The health request is being sent.
    SendingHealth,
    /// Gateway frames are read and relayed.
    Streaming,
    /// The bridge waits before the next attempt.
    Retrying,
    /// The settings could not be read; the bridge has stopped.
    Stopped,
}

/// The bridge's state: its phase and, once read, its settings.
pub struct BridgeState {
    pub phase: BridgePhase,
    pub settings: Option<BridgeSettings>,
}

/// What the outside work reports back to the bridge.
pub enum BridgeInput {
    /// The settings were read, or why not.
    Settings(Result<BridgeSettings, String>),
    /// The websocket was opened, or why not.
    SocketOpened(Result<(), String>),
    /// The connect request was sent, or why not.
    ConnectSent(Result<(), String>),
    /// The connect request was answered successfully, or the failure while waiting.
    ConnectAnswered(Result<(), String>),
    /// The health request was sent, or why not.
    HealthSent(Result<(), String>),
    /// A text frame arrived, parsed as JSON, or the parse error.
    Frame(Result<JsonValue, String>),
    /// Reading from the websocket failed.
    SocketError(String),
    /// The gateway closed the websocket.
    Closed,
    /// The wait before the next attempt is over.
    RetryElapsed,
}

/// What the bridge asks the outside work to do, in order.
pub enum BridgeAction {
    /// Publish a live event to the browsers.
    Publish(LiveGatewayEvent),
    /// Open a websocket to the URL.
    Open(String),
    /// Send a request frame.
    Send(JsonValue),
    /// Wait for the response to the request with this id.
    AwaitResponse(String),
    /// Read the next frame.
    ReadFrame,
    /// Wait this many seconds.
    Sleep(u64),
    /// Stop the bridge.
    Stop,
}

/// The content of an action: events by level, summary and detail; a sent frame by the
/// request it carries.
pub enum ActionView {
    Publish(LiveGatewayLevel, Seq<char>, Seq<char>),
    Open(Seq<char>),
    SendConnect(Seq<char>, Seq<char>, Seq<char>),
    SendHealth,
    AwaitResponse(Seq<char>),
    ReadFrame,
    Sleep(u64),
    Stop,
}


/// `frame` is the bridge's health request.
pub open spec fn is_health_frame(frame: JsonValue) -> bool {
    &&& get_str(Some(frame), "type"@) == Some("req"@)
    &&& get_str(Some(frame), "id"@) == Some("health-live-1"@)
    &&& get_str(Some(frame), "method"@) == Some("health"@)
    &&& json_get(frame, "params"@) matches Some(JsonValue::Object(entries)) && entries@.len() == 0
}

/// `action` does what `view` describes.
pub open spec fn action_is(action: BridgeAction, view: ActionView) -> bool {
    match (action, view) {
        (BridgeAction::Publish(e), ActionView::Publish(level, summary, detail)) =>
            e.level == level && e.summary@ == summary && e.detail@ == detail,
        (BridgeAction::Open(url), ActionView::Open(u)) => url@ == u,
        (BridgeAction::Send(frame), ActionView::SendConnect(token, version, platform)) =>
            is_connect_request(frame, "connect-live-1"@, token, version, platform),
        (BridgeAction::Send(frame), ActionView::SendHealth) => is_health_frame(frame),
        (BridgeAction::AwaitResponse(id), ActionView::AwaitResponse(i)) => id@ == i,
        (BridgeAction::ReadFrame, ActionView::ReadFrame) => true,
        (BridgeAction::Sleep(secs), ActionView::Sleep(s)) => secs == s,
        (BridgeAction::Stop, ActionView::Stop) => true,
        _ => false,
    }
}

pub open spec fn actions_are(actions: Seq<BridgeAction>, views: Seq<ActionView>) -> bool {
    actions.len() == views.len() && forall|k: int| 0 <= k < actions.len() ==> action_is(#[trigger] actions[k], views[k])
}

/// The announcement and the socket opening that start each attempt.
pub open spec fn attempt_actions(url: Seq<char>) -> Seq<ActionView> {
    seq![
        ActionView::Publish(LiveGatewayLevel::Connecting, "Connecting to the gateway event stream"@,
            "Opening a live websocket to "@ + url + "."@),
        ActionView::Open(url),
    ]
}

/// After a failure the bridge reports it as reconnecting and waits before retrying.
pub open spec fn failure_actions(detail: Seq<char>) -> Seq<ActionView> {
    seq![
        ActionView::Publish(LiveGatewayLevel::Connecting, "Gateway event stream reconnecting"@, detail),
        ActionView::Sleep(GATEWAY_RETRY_DELAY_SECS),
    ]
}

/// The inputs as plain values.
pub enum InputView {
    Settings(Result<(Seq<char>, Seq<char>), Seq<char>>),
    SocketOpened(Option<Seq<char>>),
    ConnectSent(Option<Seq<char>>),
    ConnectAnswered(Option<Seq<char>>),
    HealthSent(Option<Seq<char>>),
    Frame(Result<JsonValue, Seq<char>>),
    SocketError(Seq<char>),
    Closed,
    RetryElapsed,
}

pub open spec fn failure_of(r: Result<(), String>) -> Option<Seq<char>> {
    match r {
        Ok(_) => None,
        Err(e) => Some(e@),
    }
}

pub open spec fn input_view(input: BridgeInput) -> InputView {
    match input {
        BridgeInput::Settings(Ok(s)) => InputView::Settings(Ok((s.config.ws_url@, s.config.token@))),
        BridgeInput::Settings(Err(e)) => InputView::Settings(Err(e@)),
        BridgeInput::SocketOpened(r) => InputView::SocketOpened(failure_of(r)),
        BridgeInput::ConnectSent(r) => InputView::ConnectSent(failure_of(r)),
        BridgeInput::ConnectAnswered(r) => InputView::ConnectAnswered(failure_of(r)),
        BridgeInput::HealthSent(r) => InputView::HealthSent(failure_of(r)),
        BridgeInput::Frame(Ok(v)) => InputView::Frame(Ok(v)),
        BridgeInput::Frame(Err(e)) => InputView::Frame(Err(e@)),
        BridgeInput::SocketError(e) => InputView::SocketError(e@),
        BridgeInput::Closed => InputView::Closed,
        BridgeInput::RetryElapsed => InputView::RetryElapsed,
    }
}

pub open spec fn publish_parsed(event: Option<(LiveGatewayLevel, Seq<char>, Seq<char>)>) -> Seq<ActionView> {
    match event {
        Some((level, summary, detail)) => seq![ActionView::Publish(level, summary, detail), ActionView::ReadFrame],
        None => seq![ActionView::ReadFrame],
    }
}

/// One step of the bridge, for a phase, its settings, and an input: the next phase and the actions. Inputs that do not belong to the phase
/// change nothing.
pub open spec fn bridge_transition(phase: BridgePhase, settings: SettingsView, input: InputView) -> (BridgePhase, Seq<ActionView>) {
    let url = settings.url;
    match (phase, input) {
        (BridgePhase::Starting, InputView::Settings(Err(e))) => (BridgePhase::Stopped, seq![
            ActionView::Publish(LiveGatewayLevel::Degraded, "Gateway event stream unavailable"@, e),
            ActionView::Stop,
        ]),
        (BridgePhase::Starting, InputView::Settings(Ok((u, _)))) => (BridgePhase::Opening, attempt_actions(u)),
        (BridgePhase::Retrying, InputView::RetryElapsed) => (BridgePhase::Opening, attempt_actions(url)),
        (BridgePhase::Opening, InputView::SocketOpened(Some(e))) => (BridgePhase::Retrying,
            failure_actions("Could not open gateway websocket "@ + url + ": "@ + e)),
        (BridgePhase::Opening, InputView::SocketOpened(None)) => (BridgePhase::SendingConnect,
            seq![ActionView::SendConnect(settings.token, settings.client_version, settings.platform)]),
        (BridgePhase::SendingConnect, InputView::ConnectSent(Some(e))) => (BridgePhase::Retrying,
            failure_actions("Could not send gateway connect request: "@ + e)),
        (BridgePhase::SendingConnect, InputView::ConnectSent(None)) => (BridgePhase::AwaitingConnect,
            seq![ActionView::AwaitResponse("connect-live-1"@)]),
        (BridgePhase::AwaitingConnect, InputView::ConnectAnswered(Some(e))) => (BridgePhase::Retrying, failure_actions(e)),
        (BridgePhase::AwaitingConnect, InputView::ConnectAnswered(None)) => (BridgePhase::SendingHealth,
            seq![ActionView::SendHealth]),
        (BridgePhase::SendingHealth, InputView::HealthSent(Some(e))) => (BridgePhase::Retrying,
            failure_actions("Could not send gateway health request: "@ + e)),
        (BridgePhase::SendingHealth, InputView::HealthSent(None)) => (BridgePhase::Streaming, seq![ActionView::ReadFrame]),
        (BridgePhase::Streaming, InputView::Frame(Ok(payload))) => (BridgePhase::Streaming,
            publish_parsed(gateway_event_spec(payload))),
        (BridgePhase::Streaming, InputView::Frame(Err(e))) => (BridgePhase::Retrying,
            failure_actions("Could not parse gateway event frame: "@ + e)),
        (BridgePhase::Streaming, InputView::SocketError(e)) => (BridgePhase::Retrying,
            failure_actions("Gateway websocket error: "@ + e)),
        (BridgePhase::Streaming, InputView::Closed) => (BridgePhase::Retrying, failure_actions("Gateway websocket closed"@)),
        _ => (phase, seq![]),
    }
}

/// The bridge is well formed: outside the start and the stop it has its settings.
pub open spec fn bridge_wf(state: BridgeState) -> bool {
    (state.phase != BridgePhase::Starting && state.phase != BridgePhase::Stopped) ==> state.settings is Some
}

/// The settings as plain values.
pub struct SettingsView {
    pub url: Seq<char>,
    pub token: Seq<char>,
    pub client_version: Seq<char>,
    pub platform: Seq<char>,
}

/// The bridge's settings as plain values (all empty before they are read).
pub open spec fn settings_view(state: BridgeState) -> SettingsView {
    match state.settings {
        Some(s) => SettingsView {
            url: s.config.ws_url@,
            token: s.config.token@,
            client_version: s.client_version@,
            platform: s.platform@,
        },
        None => SettingsView { url: Seq::empty(), token: Seq::empty(), client_version: Seq::empty(), platform: Seq::empty() },
    }
}

/// The settings after a step: those just read when the bridge starts, otherwise the
/// same.
pub open spec fn next_settings(state: BridgeState, input: BridgeInput) -> Option<BridgeSettings> {
    match (state.phase, input) {
        (BridgePhase::Starting, BridgeInput::Settings(Ok(s))) => Some(s),
        _ => state.settings,
    }
}

/// The bridge as it starts: reading its settings.
pub fn bridge_start() -> (r: BridgeState)
    ensures
        r.phase == BridgePhase::Starting,
        r.settings is None,
        bridge_wf(r),
{
    BridgeState { phase: BridgePhase::Starting, settings: None }
}

fn failure(settings: BridgeSettings, detail: String) -> (r: (BridgeState, Vec<BridgeAction>))
    ensures
        r.0.phase == BridgePhase::Retrying,
        r.0.settings == Some(settings),
        actions_are(r.1@, failure_actions(detail@)),
{
    let mut actions: Vec<BridgeAction> = Vec::new();
    actions.push(BridgeAction::Publish(LiveGatewayEvent::disconnected(detail)));
    actions.push(BridgeAction::Sleep(GATEWAY_RETRY_DELAY_SECS));
    (BridgeState { phase: BridgePhase::Retrying, settings: Some(settings) }, actions)
}

fn attempt(settings: BridgeSettings) -> (r: (BridgeState, Vec<BridgeAction>))
    ensures
        r.0.phase == BridgePhase::Opening,
        r.0.settings == Some(settings),
        actions_are(r.1@, attempt_actions(settings.config.ws_url@)),
{
    let mut actions: Vec<BridgeAction> = Vec::new();
    let detail = concat3("Opening a live websocket to ", settings.config.ws_url.as_str(), ".");
    actions.push(BridgeAction::Publish(LiveGatewayEvent::connecting("Connecting to the gateway event stream", detail)));
    actions.push(BridgeAction::Open(settings.config.ws_url.clone()));
    (BridgeState { phase: BridgePhase::Opening, settings: Some(settings) }, actions)
}

fn only(action: BridgeAction) -> (r: Vec<BridgeAction>)
    ensures
        r@ == seq![action],
{
    let mut actions: Vec<BridgeAction> = Vec::new();
    actions.push(action);
    actions
}

/// One step of the live event bridge: the next state and the actions to perform, as
/// [`bridge_transition`] describes them. The settings, once read, stay.
pub fn bridge_step(state: BridgeState, input: BridgeInput) -> (r: (BridgeState, Vec<BridgeAction>))
    requires
        bridge_wf(state),
    ensures
        bridge_wf(r.0),
        ({
            let (phase, views) = bridge_transition(state.phase, settings_view(state), input_view(input));
            r.0.phase == phase && actions_are(r.1@, views)
        }),
        r.0.settings == next_settings(state, input),
{
    let BridgeState { phase, settings } = state;
    match phase {
        BridgePhase::Starting => match input {
            BridgeInput::Settings(Ok(s)) => attempt(s),
            BridgeInput::Settings(Err(e)) => {
                let mut actions: Vec<BridgeAction> = Vec::new();
                actions.push(BridgeAction::Publish(LiveGatewayEvent::unavailable(e)));
                actions.push(BridgeAction::Stop);
                (BridgeState { phase: BridgePhase::Stopped, settings }, actions)
            },
            _ => (BridgeState { phase, settings }, Vec::new()),
        },
        BridgePhase::Stopped => (BridgeState { phase, settings }, Vec::new()),
        _ => {
            let s = match settings {
                Some(s) => s,
                None => {
                    return (BridgeState { phase, settings: None }, Vec::new());
                },
            };
            match (phase, input) {
                (BridgePhase::Retrying, BridgeInput::RetryElapsed) => attempt(s),
                (BridgePhase::Opening, BridgeInput::SocketOpened(Err(e))) => {
                    let mut detail = concat3("Could not open gateway websocket ", s.config.ws_url.as_str(), ": ");
                    detail.append(e.as_str());
                    failure(s, detail)
                },
                (BridgePhase::Opening, BridgeInput::SocketOpened(Ok(()))) => {
                    let frame = connect_live_request(s.config.token.as_str(), s.client_version.as_str(), s.platform.as_str());
                    (BridgeState { phase: BridgePhase::SendingConnect, settings: Some(s) }, only(BridgeAction::Send(frame)))
                },
                (BridgePhase::SendingConnect, BridgeInput::ConnectSent(Err(e))) =>
                    failure(s, concat2("Could not send gateway connect request: ", e.as_str())),
                (BridgePhase::SendingConnect, BridgeInput::ConnectSent(Ok(()))) =>
                    (BridgeState { phase: BridgePhase::AwaitingConnect, settings: Some(s) },
                        only(BridgeAction::AwaitResponse(owned(CONNECT_REQUEST_ID)))),
                (BridgePhase::AwaitingConnect, BridgeInput::ConnectAnswered(Err(e))) => failure(s, e),
                (BridgePhase::AwaitingConnect, BridgeInput::ConnectAnswered(Ok(()))) =>
                    (BridgeState { phase: BridgePhase::SendingHealth, settings: Some(s) },
                        only(BridgeAction::Send(health_live_request()))),
                (BridgePhase::SendingHealth, BridgeInput::HealthSent(Err(e))) =>
                    failure(s, concat2("Could not send gateway health request: ", e.as_str())),
                (BridgePhase::SendingHealth, BridgeInput::HealthSent(Ok(()))) =>
                    (BridgeState { phase: BridgePhase::Streaming, settings: Some(s) }, only(BridgeAction::ReadFrame)),
                (BridgePhase::Streaming, BridgeInput::Frame(Ok(payload))) => {
                    let mut actions: Vec<BridgeAction> = Vec::new();
                    match parse_gateway_event(&payload) {
                        Some(event) => actions.push(BridgeAction::Publish(event)),
                        None => {},
                    }
                    actions.push(BridgeAction::ReadFrame);
                    (BridgeState { phase: BridgePhase::Streaming, settings: Some(s) }, actions)
                },
                (BridgePhase::Streaming, BridgeInput::Frame(Err(e))) =>
                    failure(s, concat2("Could not parse gateway event frame: ", e.as_str())),
                (BridgePhase::Streaming, BridgeInput::SocketError(e)) =>
                    failure(s, concat2("Gateway websocket error: ", e.as_str())),
                (BridgePhase::Streaming, BridgeInput::Closed) => failure(s, owned("Gateway websocket closed")),
                (phase, _) => (BridgeState { phase, settings: Some(s) }, Vec::new()),
            }
        },
    }
}

/// A bridge that stopped (its settings could not be read) stays stopped and does
/// nothing more.
pub proof fn law_stopped_bridge_stays_stopped(settings: SettingsView, input: InputView)
    ensures
        bridge_transition(BridgePhase::Stopped, settings, input) == (BridgePhase::Stopped, Seq::<ActionView>::empty()),
{
}

/// Every failure of a running bridge is reported as a reconnecting event and followed
/// by the retry wait; the bridge only ever stops when its settings cannot be read.
pub proof fn law_bridge_failures_are_retried(phase: BridgePhase, settings: SettingsView, input: InputView)
    requires
        phase != BridgePhase::Starting,
    ensures
        bridge_transition(phase, settings, input).0 != BridgePhase::Stopped || phase == BridgePhase::Stopped,
        bridge_transition(phase, settings, input).0 == BridgePhase::Retrying && phase != BridgePhase::Retrying ==>
            exists|detail: Seq<char>| bridge_transition(phase, settings, input).1 == #[trigger] failure_actions(detail),
{
    let url = settings.url;
    let (next, views) = bridge_transition(phase, settings, input);
    if next == BridgePhase::Retrying && phase != BridgePhase::Retrying {
        match (phase, input) {
            (BridgePhase::Opening, InputView::SocketOpened(Some(e))) => {
                assert(views == failure_actions("Could not open gateway websocket "@ + url + ": "@ + e));
            },
            (BridgePhase::SendingConnect, InputView::ConnectSent(Some(e))) => {
                assert(views == failure_actions("Could not send gateway connect request: "@ + e));
            },
            (BridgePhase::AwaitingConnect, InputView::ConnectAnswered(Some(e))) => {
                assert(views == failure_actions(e));
            },
            (BridgePhase::SendingHealth, InputView::HealthSent(Some(e))) => {
                assert(views == failure_actions("Could not send gateway health request: "@ + e));
            },
            (BridgePhase::Streaming, InputView::Frame(Err(e))) => {
                assert(views == failure_actions("Could not parse gateway event frame: "@ + e));
            },
            (BridgePhase::Streaming, InputView::SocketError(e)) => {
                assert(views == failure_actions("Gateway websocket error: "@ + e));
            },
            (BridgePhase::Streaming, InputView::Closed) => {
                assert(views == failure_actions("Gateway websocket closed"@));
            },
            _ => {},
        }
    }
}


/// A rejected health request is never dropped: for every response frame to the bridge's
/// health request whose `ok` is false, the parsed event is a degraded "Gateway health
/// request failed" event whose detail is the gateway's `error.message` when that is a
/// string, and a fixed explanation otherwise; in the streaming phase the bridge publishes
/// that event and then reads the next frame.
pub proof fn law_rejected_health_request_is_reported(frame: JsonValue, settings: SettingsView)
    requires
        get_str(Some(frame), "type"@) == Some("res"@),
        get_str(Some(frame), "id"@) == Some("health-live-1"@),
        get_bool(Some(frame), "ok"@) == Some(false),
    ensures
        gateway_event_spec(frame) == Some((
            LiveGatewayLevel::Degraded,
            "Gateway health request failed"@,
            match json_get(frame, "error"@) {
                Some(error) => match json_get(error, "message"@) {
                    Some(JsonValue::Str(message)) => message@,
                    _ => "The gateway rejected the live health request."@,
                },
                None => "The gateway rejected the live health request."@,
            },
        )),
        ({
            let (phase, actions) = bridge_transition(BridgePhase::Streaming, settings, InputView::Frame(Ok(frame)));
            &&& phase == BridgePhase::Streaming
            &&& actions.len() == 2
            &&& actions[0] matches ActionView::Publish(level, summary, _)
            &&& level == LiveGatewayLevel::Degraded
            &&& summary == "Gateway health request failed"@
            &&& actions[1] == ActionView::ReadFrame
        }),
{
    reveal_strlit("res");
    reveal_strlit("event");
    assert("res"@ != "event"@) by {
        assert("res"@[0] != "event"@[0]);
    }
    assert(gateway_event_spec(frame) == health_response_spec(frame));
    let path = seq!["error"@, "message"@];
    let fallback = "The gateway rejected the live health request."@;
    let detail = match string_at_path(frame, path) {
        Some(m) => m,
        None => fallback,
    };
    assert(health_response_spec(frame) == Some((LiveGatewayLevel::Degraded, "Gateway health request failed"@, detail)));
    assert(path[0] == "error"@);
    assert(path.drop_first() =~= seq!["message"@]);
    assert(seq!["message"@].drop_first() =~= Seq::<Seq<char>>::empty());
    match json_get(frame, "error"@) {
        Some(error) => {
            assert(string_at_path(frame, path) == string_at_path(error, seq!["message"@]));
            match json_get(error, "message"@) {
                Some(m) => {
                    assert(string_at_path(error, seq!["message"@]) == string_at_path(m, Seq::<Seq<char>>::empty()));
                    assert(string_at_path(m, Seq::<Seq<char>>::empty()) == json_as_str(m));
                },
                None => {},
            }
        },
        None => {},
    }
}

} // verus!
