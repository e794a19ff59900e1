//! Frames exchanged with the gateway over its websocket.
use vstd::prelude::*;
use crate::json::{JsonNumber, JsonValue, get_str, json_get, json_as_str, lemma_entry_lookup_small};
use crate::models::runtime::opt_chars;
use crate::parse::{find_string, find_string_spec, key_views};
use crate::text::{concat3, owned, str_eq};

verus! {

/// A frame received from the gateway: `type`, and optionally `id`, `ok`, `payload`
/// and `error`.
#[derive(Debug, PartialEq, Eq)]
pub struct Envelope {
    pub kind: String,
    pub id: Option<String>,
    pub ok: Option<bool>,
    pub payload: Option<JsonValue>,
    pub error: Option<JsonValue>,
}

/// The value at a path of member names.
pub open spec fn json_path(value: JsonValue, keys: Seq<Seq<char>>) -> Option<JsonValue>
    decreases keys.len(),
{
    if keys.len() == 0 {
        Some(value)
    } else {
        match json_get(value, keys[0]) {
            Some(next) => json_path(next, keys.drop_first()),
            None => None,
        }
    }
}

fn text(s: &str) -> (r: JsonValue)
    ensures
        json_as_str(r) == Some(s@),
{
    JsonValue::Str(owned(s))
}

fn uint(n: u64) -> (r: JsonValue)
    ensures
        r == JsonValue::Number(JsonNumber::UInt(n)),
{
    JsonValue::Number(JsonNumber::UInt(n))
}

/// The member `key` of an optional object.
pub open spec fn member(value: Option<JsonValue>, key: Seq<char>) -> Option<JsonValue> {
    match value {
        Some(v) => json_get(v, key),
        None => None,
    }
}

/// An object member.
fn entry(key: &str, value: JsonValue) -> (r: (String, JsonValue))
    ensures
        r.0@ == key@,
        r.1 == value,
{
    (owned(key), value)
}

/// `r` is the request that opens an operator session as a backend gateway client:
/// `{"type": "req", "id", "method": "connect", "params": {"minProtocol": 3,
/// "maxProtocol": 3, "role": "operator", "scopes": ["operator.read"], "client": {"id":
/// "gateway-client", "version", "platform", "mode": "backend"}, "auth": {"token"}}}`.
pub open spec fn is_connect_request(
    r: JsonValue,
    request_id: Seq<char>,
    token: Seq<char>,
    client_version: Seq<char>,
    platform: Seq<char>,
) -> bool {
    &&& get_str(Some(r), "type"@) == Some("req"@)
    &&& get_str(Some(r), "id"@) == Some(request_id)
    &&& get_str(Some(r), "method"@) == Some("connect"@)
    &&& member(member(Some(r), "params"@), "minProtocol"@) == Some(JsonValue::Number(JsonNumber::UInt(3)))
    &&& member(member(Some(r), "params"@), "maxProtocol"@) == Some(JsonValue::Number(JsonNumber::UInt(3)))
    &&& get_str(member(Some(r), "params"@), "role"@) == Some("operator"@)
    &&& member(member(Some(r), "params"@), "scopes"@) matches Some(JsonValue::Array(scopes))
        && scopes@.len() == 1 && json_as_str(scopes@[0]) == Some("operator.read"@)
    &&& get_str(member(member(Some(r), "params"@), "client"@), "id"@) == Some("gateway-client"@)
    &&& get_str(member(member(Some(r), "params"@), "client"@), "version"@) == Some(client_version)
    &&& get_str(member(member(Some(r), "params"@), "client"@), "platform"@) == Some(platform)
    &&& get_str(member(member(Some(r), "params"@), "client"@), "mode"@) == Some("backend"@)
    &&& get_str(member(member(Some(r), "params"@), "auth"@), "token"@) == Some(token)
}

/// The request that opens an operator session as a backend gateway client.
pub fn connect_request(request_id: &str, token: &str, client_version: &str, platform: &str) -> (r: JsonValue)
    ensures
        is_connect_request(r, request_id@, token@, client_version@, platform@),
{
    let mut client: Vec<(String, JsonValue)> = Vec::new();
    client.push(entry("id", text("gateway-client")));
    client.push(entry("version", text(client_version)));
    client.push(entry("platform", text(platform)));
    client.push(entry("mode", text("backend")));
    let mut auth: Vec<(String, JsonValue)> = Vec::new();
    auth.push(entry("token", text(token)));
    let mut scopes: Vec<JsonValue> = Vec::new();
    scopes.push(text("operator.read"));
    let mut params: Vec<(String, JsonValue)> = Vec::new();
    params.push(entry("minProtocol", uint(3)));
    params.push(entry("maxProtocol", uint(3)));
    params.push(entry("role", text("operator")));
    params.push(entry("scopes", JsonValue::Array(scopes)));
    params.push(entry("client", JsonValue::Object(client)));
    params.push(entry("auth", JsonValue::Object(auth)));
    let mut frame: Vec<(String, JsonValue)> = Vec::new();
    frame.push(entry("type", text("req")));
    frame.push(entry("id", text(request_id)));
    frame.push(entry("method", text("connect")));
    frame.push(entry("params", JsonValue::Object(params)));
    proof {
        reveal_strlit("type");
        reveal_strlit("id");
        reveal_strlit("method");
        reveal_strlit("params");
        reveal_strlit("minProtocol");
        reveal_strlit("maxProtocol");
        reveal_strlit("role");
        reveal_strlit("scopes");
        reveal_strlit("client");
        reveal_strlit("auth");
        reveal_strlit("version");
        reveal_strlit("platform");
        reveal_strlit("mode");
        reveal_strlit("token");
        assert("type"@.len() == 4 && "id"@.len() == 2 && "method"@.len() == 6 && "params"@.len() == 6);
        assert("minProtocol"@.len() == 11 && "maxProtocol"@.len() == 11 && "role"@.len() == 4);
        assert("scopes"@.len() == 6 && "client"@.len() == 6 && "auth"@.len() == 4);
        assert("version"@.len() == 7 && "platform"@.len() == 8 && "mode"@.len() == 4);
        assert("minProtocol"@[1] != "maxProtocol"@[1]);
        assert("type"@[0] != "role"@[0] && "type"@[0] != "auth"@[0] && "role"@[0] != "auth"@[0]);
        assert("method"@[0] != "params"@[0] && "scopes"@[0] != "client"@[0] && "params"@[0] != "scopes"@[0]);
        assert("params"@[0] != "client"@[0]);
        let f = frame@;
        let p = params@;
        let c = client@;
        lemma_entry_lookup_small(f, "type"@, 0);
        lemma_entry_lookup_small(f, "id"@, 1);
        lemma_entry_lookup_small(f, "method"@, 2);
        lemma_entry_lookup_small(f, "params"@, 3);
        lemma_entry_lookup_small(p, "minProtocol"@, 0);
        lemma_entry_lookup_small(p, "maxProtocol"@, 1);
        lemma_entry_lookup_small(p, "role"@, 2);
        lemma_entry_lookup_small(p, "scopes"@, 3);
        lemma_entry_lookup_small(p, "client"@, 4);
        lemma_entry_lookup_small(p, "auth"@, 5);
        lemma_entry_lookup_small(c, "id"@, 0);
        lemma_entry_lookup_small(c, "version"@, 1);
        lemma_entry_lookup_small(c, "platform"@, 2);
        lemma_entry_lookup_small(c, "mode"@, 3);
        lemma_entry_lookup_small(auth@, "token"@, 0);
    }
    JsonValue::Object(frame)
}

/// A request frame: `{"type": "req", "id": .., "method": .., "params": ..}`.
pub fn request_frame(request_id: &str, method: &str, params: JsonValue) -> (r: JsonValue)
    ensures
        get_str(Some(r), "type"@) == Some("req"@),
        get_str(Some(r), "id"@) == Some(request_id@),
        get_str(Some(r), "method"@) == Some(method@),
        json_get(r, "params"@) == Some(params),
{
    let mut frame: Vec<(String, JsonValue)> = Vec::new();
    frame.push(entry("type", text("req")));
    frame.push(entry("id", text(request_id)));
    frame.push(entry("method", text(method)));
    frame.push(entry("params", params));
    proof {
        reveal_strlit("type");
        reveal_strlit("id");
        reveal_strlit("method");
        reveal_strlit("params");
        assert("type"@.len() == 4 && "id"@.len() == 2 && "method"@.len() == 6 && "params"@.len() == 6);
        assert("method"@[0] != "params"@[0]);
        lemma_entry_lookup_small(frame@, "type"@, 0);
        lemma_entry_lookup_small(frame@, "id"@, 1);
        lemma_entry_lookup_small(frame@, "method"@, 2);
        lemma_entry_lookup_small(frame@, "params"@, 3);
    }
    JsonValue::Object(frame)
}

/// An empty object.
pub fn empty_object() -> (r: JsonValue)
    ensures
        r matches JsonValue::Object(entries) && entries@.len() == 0,
{
    JsonValue::Object(Vec::new())
}

/// What to do with a frame while waiting for the response to a request.
#[derive(Debug, PartialEq, Eq)]
pub enum ResponseStep {
    /// The frame answers another request or is an event: keep waiting.
    Skip,
    /// The frame is the successful response.
    Done,
    /// The frame is the response and reports a failure.
    Failed(String),
}

/// The keys under which a gateway error carries its text.
pub open spec fn error_text_keys() -> Seq<Seq<char>> {
    seq!["message"@, "code"@, "type"@]
}

/// The text of a gateway error, or "Unknown gateway error".
pub open spec fn error_detail(error: Option<JsonValue>) -> Seq<char> {
    match error {
        Some(e) => match find_string_spec(e, error_text_keys()) {
            Some(text) => text,
            None => "Unknown gateway error"@,
        },
        None => "Unknown gateway error"@,
    }
}

/// The frame is the response to the request `expected_id`.
pub open spec fn answers(envelope: Envelope, expected_id: Seq<char>) -> bool {
    envelope.kind@ == "res"@ && opt_chars(envelope.id) == Some(expected_id)
}

/// Sorts a frame received while waiting for the response to `expected_id`.
pub fn classify_response(envelope: &Envelope, expected_id: &str) -> (r: ResponseStep)
    ensures
        !answers(*envelope, expected_id@) ==> r == ResponseStep::Skip,
        answers(*envelope, expected_id@) && envelope.ok == Some(true) ==> r == ResponseStep::Done,
        answers(*envelope, expected_id@) && envelope.ok != Some(true) ==> (r matches ResponseStep::Failed(message)
            && message@ == "Gateway request "@ + expected_id@ + " failed: "@ + error_detail(envelope.error)),
{
    let answered = str_eq(envelope.kind.as_str(), "res") && match &envelope.id {
        Some(id) => str_eq(id.as_str(), expected_id),
        None => false,
    };
    if !answered {
        return ResponseStep::Skip;
    }
    let ok = match envelope.ok {
        Some(b) => b,
        None => false,
    };
    if ok {
        return ResponseStep::Done;
    }
    let keys: [&str; 3] = ["message", "code", "type"];
    let found = match &envelope.error {
        Some(e) => {
            let f = find_string(e, keys.as_slice());
            assert(key_views(keys@) =~= error_text_keys());
            f
        },
        None => None,
    };
    let detail = match found {
        Some(text) => text,
        None => owned("Unknown gateway error"),
    };
    let mut message = concat3("Gateway request ", expected_id, " failed: ");
    message.append(detail.as_str());
    ResponseStep::Failed(message)
}

} // verus!
