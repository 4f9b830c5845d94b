//! Local wire facts used by terminal-state sidecars.
//!
//! The PTY and terminal-state sidecars each own one identity-scoped socket. Both speak the shared
//! control envelope before a connection becomes a byte stream. Paths name installed sidecars; the
//! contract id is not a process identity.

use vstd::prelude::*;

use serde_json::Value;

use crate::json::{self, JsonView};
use crate::paths;
use crate::text;

verus! {

pub const PTY_PROTOCOL_VERSION: u32 = 1;

pub const PTY_INTERFACE_ID: &'static str = "soksak-spec-sidecar-pty";

/// The version of the shared control envelope.
pub const CONTROL_PROTOCOL: u64 = 2;

pub const OBSERVATION_FRAME_OUTPUT: u8 = 0;

pub const OBSERVATION_FRAME_GAP: u8 = 1;

pub const OBSERVATION_FRAME_RESIZE: u8 = 2;

pub const OBSERVATION_FRAME_END: u8 = 3;

pub const OBSERVATION_FRAME_OPENED: u8 = 4;

/// The endpoint name of an installed sidecar.
pub open spec fn endpoint(sidecar: Seq<char>) -> Seq<char> {
    sidecar + "-p"@ + text::decimal(PTY_PROTOCOL_VERSION as nat)
}

/// The endpoint name of an installed sidecar: what its socket address and token are named by.
pub fn endpoint_name(sidecar_name: &str) -> (name: String)
    ensures
        name@ == endpoint(sidecar_name@),
{
    let mut name = String::from_str(sidecar_name);
    name.push_str("-p");
    name.push_str(text::decimal_text(PTY_PROTOCOL_VERSION as u64).as_str());
    name
}

/// The token file of an installed sidecar.
pub fn pty_token_path(runtime_root: &str, sidecar_name: &str) -> (path: String)
    ensures
        path@ == paths::joined(runtime_root@, endpoint(sidecar_name@) + ".token"@),
{
    let mut name = endpoint_name(sidecar_name);
    name.push_str(".token");
    paths::join(runtime_root, name.as_str())
}

/// The greeting that opens a connection.
pub open spec fn greeting(id: Seq<char>, token: Seq<char>) -> JsonView {
    JsonView::Object(
        map![
            "id"@ => JsonView::Text(id),
            "command"@ => JsonView::Text("system.hello"@),
            "args"@ => JsonView::Object(map![
                "protocol"@ => JsonView::Unsigned(CONTROL_PROTOCOL),
                "token"@ => JsonView::Text(token),
            ]),
        ],
    )
}

/// The greeting that opens a connection.
pub fn hello(id: &str, token: &str) -> (value: Value)
    ensures
        json::json_of(value) == greeting(id@, token@),
{
    let mut args = json::new_members();
    json::put(&mut args, "protocol", json::unsigned(CONTROL_PROTOCOL));
    json::put(&mut args, "token", json::string(token));
    let mut members = json::new_members();
    json::put(&mut members, "id", json::string(id));
    json::put(&mut members, "command", json::string("system.hello"));
    json::put(&mut members, "args", json::object(args));
    json::object(members)
}

/// A request in the shared control envelope.
pub open spec fn enveloped(id: Seq<char>, command: Seq<char>, request: JsonView) -> JsonView {
    JsonView::Object(
        map![
            "id"@ => JsonView::Text(id),
            "command"@ => JsonView::Text(command),
            "args"@ => JsonView::Object(map!["request"@ => request]),
        ],
    )
}

/// A request in the shared control envelope.
pub fn request(id: &str, command: &str, body: Value) -> (value: Value)
    ensures
        json::json_of(value) == enveloped(id@, command@, json::json_of(body)),
{
    let mut args = json::new_members();
    json::put(&mut args, "request", body);
    let mut members = json::new_members();
    json::put(&mut members, "id", json::string(id));
    json::put(&mut members, "command", json::string(command));
    json::put(&mut members, "args", json::object(args));
    json::object(members)
}

/// The member under `key` of a value that may not be there.
pub open spec fn member_in(value: Option<JsonView>, key: Seq<char>) -> Option<JsonView> {
    match value {
        Some(value) => json::member(value, key),
        None => None,
    }
}

/// What a reply carries: its data, null where it has none, or its error.
pub open spec fn reply_data(reply: JsonView) -> Result<JsonView, Seq<char>> {
    if json::bool_in(json::member(reply, "ok"@)) != Some(true) {
        match json::text_in(json::member(reply, "error"@)) {
            Some(error) => Err(error),
            None => Err("request refused"@),
        }
    } else {
        match member_in(json::member(reply, "result"@), "data"@) {
            Some(data) => Ok(data),
            None => Ok(JsonView::Null),
        }
    }
}

/// What a function that fails with a message came to.
pub open spec fn outcome(result: Result<Value, String>) -> Result<JsonView, Seq<char>> {
    match result {
        Ok(value) => Ok(json::json_of(value)),
        Err(message) => Err(message@),
    }
}

/// The data of a reply, or the error it was refused with.
pub fn response_data(reply: &Value) -> (data: Result<Value, String>)
    ensures
        outcome(data) == reply_data(json::json_of(*reply)),
{
    let ok = match json::bool_at(reply, "ok") {
        Some(ok) => ok,
        None => false,
    };
    if !ok {
        return match json::text_at(reply, "error") {
            Some(error) => Err(error),
            None => Err(String::from_str("request refused")),
        };
    }
    if let Some(result) = json::get(reply, "result") {
        if let Some(data) = json::get(result, "data") {
            return Ok(json::copy(data));
        }
    }
    Ok(json::null())
}

} // verus!
