//! What the browser knows of the live gateway stream.
use vstd::prelude::*;
use crate::chars::{find_from, find_from_exec};
use crate::text::{chars_of, owned};
use crate::models::live_gateway::{
    BackendConnectionState, LiveGatewayEvent, LiveGatewayLevel, OperatorConnectionState, operator_state_spec,
    resolve_operator_connection_state,
};

verus! {

/// The latest live event and the state of the backend stream.
pub struct LiveGatewayState {
    pub live_status: Option<LiveGatewayEvent>,
    pub backend_state: BackendConnectionState,
}

pub open spec fn event_level(e: Option<LiveGatewayEvent>) -> Option<LiveGatewayLevel> {
    match e {
        Some(event) => Some(event.level),
        None => None,
    }
}

impl LiveGatewayState {
    /// The connection state shown to the operator.
    pub fn operator_state(&self) -> (r: OperatorConnectionState)
        ensures
            r == operator_state_spec(self.backend_state, event_level(self.live_status)),
    {
        let level = match &self.live_status {
            Some(event) => Some(event.level),
            None => None,
        };
        resolve_operator_connection_state(self.backend_state, level)
    }

    /// The view is frozen while the backend stream is disconnected.
    pub fn is_frozen(&self) -> (r: bool)
        ensures
            r == (self.backend_state == BackendConnectionState::Disconnected),
    {
        match self.backend_state {
            BackendConnectionState::Disconnected => true,
            _ => false,
        }
    }
}

/// The event shown while the browser reopens the live stream.
pub fn connecting_event() -> (r: LiveGatewayEvent)
    ensures
        r.level == LiveGatewayLevel::Connecting,
        r.summary@ == "Gateway event stream reconnecting."@,
        r.detail@ == "The browser will retry the live event stream automatically."@,
{
    LiveGatewayEvent {
        level: LiveGatewayLevel::Connecting,
        summary: owned("Gateway event stream reconnecting."),
        detail: owned("The browser will retry the live event stream automatically."),
    }
}

/// The event shown while the backend stream is lost.
pub fn disconnected_event() -> (r: LiveGatewayEvent)
    ensures
        r.level == LiveGatewayLevel::Disconnected,
        r.summary@ == "Backend event stream disconnected."@,
        r.detail@ == "The browser is keeping the current view frozen while it retries the backend."@,
{
    LiveGatewayEvent {
        level: LiveGatewayLevel::Disconnected,
        summary: owned("Backend event stream disconnected."),
        detail: owned("The browser is keeping the current view frozen while it retries the backend."),
    }
}

impl LiveGatewayState {
    /// A live event arrived on the stream: it is shown, and the backend counts as
    /// connected.
    pub fn on_stream_message(&mut self, event: LiveGatewayEvent)
        ensures
            final(self).live_status == Some(event),
            final(self).backend_state == BackendConnectionState::Connected,
    {
        self.live_status = Some(event);
        self.backend_state = BackendConnectionState::Connected;
    }

    /// The stream opened: the backend counts as connected; while no event has been
    /// shown, or the last one says disconnected, the reconnecting event is shown.
    pub fn on_stream_open(&mut self)
        ensures
            final(self).backend_state == BackendConnectionState::Connected,
            (match event_level(old(self).live_status) {
                None | Some(LiveGatewayLevel::Disconnected) => final(self).live_status matches Some(e)
                    && e.level == LiveGatewayLevel::Connecting
                    && e.summary@ == "Gateway event stream reconnecting."@
                    && e.detail@ == "The browser will retry the live event stream automatically."@,
                _ => final(self).live_status == old(self).live_status,
            }),
    {
        self.backend_state = BackendConnectionState::Connected;
        let replace = match &self.live_status {
            None => true,
            Some(event) => match event.level {
                LiveGatewayLevel::Disconnected => true,
                _ => false,
            },
        };
        if replace {
            self.live_status = Some(connecting_event());
        }
    }

    /// The stream failed: the backend counts as disconnected and the disconnected
    /// event is shown.
    pub fn on_stream_error(&mut self)
        ensures
            final(self).backend_state == BackendConnectionState::Disconnected,
            final(self).live_status matches Some(e) && e.level == LiveGatewayLevel::Disconnected
                && e.summary@ == "Backend event stream disconnected."@
                && e.detail@ == "The browser is keeping the current view frozen while it retries the backend."@,
    {
        self.backend_state = BackendConnectionState::Disconnected;
        self.live_status = Some(disconnected_event());
    }
}

/// The marker in the page's query string that turns the live stream off.
pub open spec fn disables_live_stream(search: Seq<char>) -> bool {
    find_from(search, "e2e-disable-live=1"@, 0) is Some
}

/// Whether the browser opens the live stream, given the page's query string (absent
/// when it cannot be read): unless the query holds `e2e-disable-live=1`.
pub fn live_stream_enabled(search: Option<&str>) -> (r: bool)
    ensures
        r == match search {
            Some(q) => !disables_live_stream(q@),
            None => true,
        },
{
    match search {
        Some(query) => {
            let text = chars_of(query);
            let marker = chars_of("e2e-disable-live=1");
            find_from_exec(&text, &marker, 0).is_none()
        },
        None => true,
    }
}

} // verus!
