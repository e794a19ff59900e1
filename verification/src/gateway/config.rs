//! Gateway connection settings.
use vstd::prelude::*;
use crate::text::{concat3, is_blank, is_unicode_whitespace, owned, push_decimal, decimal, str_is_blank};

verus! {

/// The gateway URL used when no configuration can be read.
pub const DEFAULT_GATEWAY_URL: &'static str = "ws://127.0.0.1:18789";

/// The port used when the configuration names none.
pub const DEFAULT_GATEWAY_PORT: u16 = 18_789;

/// Settings for connecting to the gateway: a non-blank auth token and a non-blank
/// websocket URL.
#[derive(Clone, Debug, PartialEq, Eq)]
pub struct LoadedGatewayConfig {
    pub token: String,
    pub ws_url: String,
}

impl LoadedGatewayConfig {
    /// Checks that both the token and the URL hold more than whitespace.
    pub fn new(token: &str, ws_url: &str) -> (r: Result<Self, String>)
        ensures
            match r {
                Ok(config) => !is_blank(token@) && !is_blank(ws_url@) && config.token@ == token@
                    && config.ws_url@ == ws_url@,
                Err(e) => if is_blank(token@) {
                    e@ == "No gateway auth token was found in the OpenClaw config."@
                } else {
                    is_blank(ws_url@) && e@ == "No gateway websocket URL was configured."@
                },
            },
    {
        if str_is_blank(token) {
            return Err(owned("No gateway auth token was found in the OpenClaw config."));
        }
        if str_is_blank(ws_url) {
            return Err(owned("No gateway websocket URL was configured."));
        }
        Ok(LoadedGatewayConfig { token: owned(token), ws_url: owned(ws_url) })
    }
}

/// The default port, for a gateway section that names none.
pub fn default_gateway_port() -> (r: u16)
    ensures
        r == 18_789,
{
    DEFAULT_GATEWAY_PORT
}

/// The loopback websocket URL for a gateway port.
pub open spec fn loopback_url(port: u16) -> Seq<char> {
    "ws://127.0.0.1:"@ + decimal(port as nat) + "/"@
}

/// The connection settings for the token and port read from the configuration file at
/// `config_path`; a blank token is reported together with the file's path.
pub fn resolve_gateway_config(token: &str, port: u16, config_path: &str) -> (r: Result<LoadedGatewayConfig, String>)
    ensures
        match r {
            Ok(config) => !is_blank(token@) && config.token@ == token@ && config.ws_url@ == loopback_url(port),
            Err(e) => is_blank(token@) && e@ == "No gateway auth token was found in "@ + config_path@ + "."@,
        },
{
    let mut url = owned("ws://127.0.0.1:");
    push_decimal(&mut url, port as u64);
    url.append("/");
    proof {
        // the URL starts with a letter, so it is never blank
        reveal_strlit("ws://127.0.0.1:");
        assert(url@[0] == 'w');
        assert(!is_unicode_whitespace(url@[0]));
        assert(!is_blank(url@));
    }
    match LoadedGatewayConfig::new(token, url.as_str()) {
        Ok(config) => Ok(config),
        Err(_) => Err(concat3("No gateway auth token was found in ", config_path, ".")),
    }
}

} // verus!
