//! The recovery runtime: sessions, requests, the service connection and the checkpoint worker.

use vstd::prelude::*;

use serde_json::Value;

use crate::crypto;
use crate::daemon;
use crate::json::{self, JsonView};
use crate::paths;
use crate::proto;
use crate::text;

pub mod checkpointing;
pub mod conduct;
pub mod registry;
pub mod requests;
pub mod service;

verus! {

/// The token file of a service.
pub fn service_token_path(runtime_root: &str, sidecar_id: &str) -> (path: String)
    ensures
        path@ == paths::joined(runtime_root@, sidecar_id@ + "-p1.token"@),
{
    let mut name = String::from_str(sidecar_id);
    name.push_str("-p1.token");
    paths::join(runtime_root, name.as_str())
}

/// The file a new token is written to before it takes its place.
pub fn temporary_token_path(runtime_root: &str, sidecar_id: &str) -> (path: String)
    ensures
        path@ == paths::joined(runtime_root@, sidecar_id@ + "-p1.tmp"@),
{
    let mut name = String::from_str(sidecar_id);
    name.push_str("-p1.tmp");
    paths::join(runtime_root, name.as_str())
}

/// What the random source gave for a token: its bytes in hexadecimal, or the message of a failure
/// behind what failed.
pub open spec fn token_made(random: Result<Seq<u8>, Seq<char>>) -> Result<Seq<char>, Seq<char>> {
    match random {
        Ok(bytes) => Ok(text::hex(bytes)),
        Err(error) => Err("random token generation failed: "@ + error),
    }
}

/// What a random source gave, as bytes or the characters of its message.
pub open spec fn random_view(random: Result<Vec<u8>, String>) -> Result<Seq<u8>, Seq<char>> {
    match random {
        Ok(bytes) => Ok(bytes@),
        Err(error) => Err(error@),
    }
}

/// A token or the message of a failure, as characters.
pub open spec fn token_view(token: Result<String, String>) -> Result<Seq<char>, Seq<char>> {
    match token {
        Ok(token) => Ok(token@),
        Err(message) => Err(message@),
    }
}

/// The token that random bytes make, or the message where there are none.
pub fn token_from(random: Result<Vec<u8>, String>) -> (token: Result<String, String>)
    ensures
        token_view(token) == token_made(random_view(random)),
{
    match random {
        Ok(bytes) => Ok(text::hex_text(bytes.as_slice())),
        Err(error) => {
            let mut message = String::from_str("random token generation failed: ");
            message.push_str(error.as_str());
            Err(message)
        },
    }
}

/// A new token: 32 random bytes in hexadecimal, or the message of the random source's failure.
/// Which bytes they are, and whether there are any, depends on chance and the machine.
pub fn new_token() -> (token: Result<String, String>)
    ensures
        exists|random: Result<Seq<u8>, Seq<char>>|
            (random matches Ok(bytes) ==> bytes.len() == 32) && token_view(token)
                == #[trigger] token_made(random),
{
    let random = crypto::random_bytes(32);
    let ghost given = random_view(random);
    let token = token_from(random);
    assert(token_view(token) == token_made(given));
    token
}

/// The token that is kept from an earlier start: what the token file holds, unless it is blank.
/// There is none where the file cannot be read.
pub fn kept_token(contents: Option<&str>) -> (token: Option<String>)
    ensures
        text::text_of(token) == match contents {
            Some(contents) if text::trimmed(contents@).len() > 0 => Some(text::trimmed(contents@)),
            _ => None,
        },
{
    match contents {
        Some(contents) => daemon::token_in(contents),
        None => None,
    }
}

/// The process of the PTY sidecar in the bindings from component ids to process names.
pub fn pty_process(bindings: &Value) -> (name: Option<String>)
    ensures
        text::text_of(name) == json::text_in(
            json::member(json::json_of(*bindings), "soksak-sidecar-pty"@),
        ),
{
    json::text_at(bindings, "soksak-sidecar-pty")
}

/// What a client asks to take a terminal over.
pub fn rehydrate_request(window: Option<&str>, pane: &str) -> (request: Value)
    ensures
        json::json_of(request) == proto::enveloped(
            "client"@,
            "terminal.rehydrate"@,
            JsonView::Object(
                map![
                    "window"@ => match window {
                        Some(window) => JsonView::Text(window@),
                        None => JsonView::Null,
                    },
                    "pane"@ => JsonView::Text(pane@),
                ],
            ),
        ),
{
    let window = match window {
        Some(window) => json::string(window),
        None => json::null(),
    };
    let mut members = json::new_members();
    json::put(&mut members, "window", window);
    json::put(&mut members, "pane", json::string(pane));
    proto::request("client", "terminal.rehydrate", json::object(members))
}

/// An object that names the label of the process too, where there is one.
pub open spec fn labelled(
    members: Map<Seq<char>, JsonView>,
    label: Option<Seq<char>>,
) -> JsonView {
    match label {
        Some(label) => JsonView::Object(members.insert("processLabel"@, JsonView::Text(label))),
        None => JsonView::Object(members),
    }
}

/// What a service says of itself when it starts: where it listens, with which token, and the label
/// its process was given for inventories and monitoring.
pub fn announcement(socket: &str, token: &str, label: Option<&str>) -> (value: Value)
    ensures
        json::json_of(value) == labelled(
            map![
                "protocol"@ => JsonView::Unsigned(proto::CONTROL_PROTOCOL),
                "socket"@ => JsonView::Text(socket@),
                "token"@ => JsonView::Text(token@),
            ],
            text::chars_of(label),
        ),
{
    let mut members = json::new_members();
    json::put(&mut members, "protocol", json::unsigned(proto::CONTROL_PROTOCOL));
    json::put(&mut members, "socket", json::string(socket));
    json::put(&mut members, "token", json::string(token));
    if let Some(label) = label {
        json::put(&mut members, "processLabel", json::string(label));
    }
    json::object(members)
}

/// The two directories a service is started with.
#[derive(Debug, PartialEq, Eq)]
pub struct Roots {
    pub home: Option<String>,
    pub runtime_root: Option<String>,
}

/// The two directories as mathematical values.
pub struct RootsView {
    pub home: Option<Seq<char>>,
    pub runtime_root: Option<Seq<char>>,
}

impl View for Roots {
    type V = RootsView;

    open spec fn view(&self) -> RootsView {
        RootsView {
            home: text::text_of(self.home),
            runtime_root: text::text_of(self.runtime_root),
        }
    }
}

/// The argument at a place, if there is one.
pub open spec fn argument(arguments: Seq<String>, at: int) -> Option<Seq<char>> {
    if at < arguments.len() {
        Some(arguments[at]@)
    } else {
        None
    }
}

/// The directories that arguments name from `from` on. The last of each counts; a flag at the end
/// names none; anything else is passed over.
pub open spec fn roots_from(arguments: Seq<String>, from: int, found: RootsView) -> RootsView
    decreases arguments.len() - from + 1,
{
    if from >= arguments.len() {
        found
    } else if arguments[from]@ == "-home"@ {
        roots_from(
            arguments,
            from + 2,
            RootsView { home: argument(arguments, from + 1), ..found },
        )
    } else if arguments[from]@ == "-runtime"@ {
        roots_from(
            arguments,
            from + 2,
            RootsView { runtime_root: argument(arguments, from + 1), ..found },
        )
    } else {
        roots_from(arguments, from + 1, found)
    }
}

fn argument_at(arguments: &Vec<String>, at: usize) -> (value: Option<String>)
    ensures
        text::text_of(value) == argument(arguments@, at as int),
{
    if at < arguments.len() {
        Some(String::from_str(arguments[at].as_str()))
    } else {
        None
    }
}

/// The directories that arguments name.
pub fn roots_in(arguments: &Vec<String>) -> (roots: Roots)
    ensures
        roots@ == roots_from(arguments@, 0, RootsView { home: None, runtime_root: None }),
{
    let mut roots = Roots { home: None, runtime_root: None };
    let length: usize = arguments.len();
    let mut i: usize = 0;
    while i < length
        invariant
            length == arguments@.len(),
            roots_from(arguments@, i as int, roots@) == roots_from(
                arguments@,
                0,
                RootsView { home: None, runtime_root: None },
            ),
        decreases length - i,
    {
        if text::same_text(arguments[i].as_str(), "-home") {
            roots.home = argument_at(arguments, i + 1);
            i = if i + 1 < length { i + 2 } else { length };
            assert(roots_from(arguments@, arguments@.len() as int, roots@) == roots_from(
                arguments@,
                arguments@.len() as int + 1,
                roots@,
            ));
        } else if text::same_text(arguments[i].as_str(), "-runtime") {
            roots.runtime_root = argument_at(arguments, i + 1);
            i = if i + 1 < length { i + 2 } else { length };
            assert(roots_from(arguments@, arguments@.len() as int, roots@) == roots_from(
                arguments@,
                arguments@.len() as int + 1,
                roots@,
            ));
        } else {
            i = i + 1;
        }
    }
    roots
}

/// The two directories a service starts with: both have to be there and absolute. Whether a path is
/// absolute is for the platform to say.
pub fn parse_roots(roots: Roots, home_is_absolute: bool, runtime_is_absolute: bool) -> (checked:
    Result<(String, String), String>)
    ensures
        match (roots@.home, roots@.runtime_root) {
            (Some(home), Some(runtime_root)) if home_is_absolute && runtime_is_absolute => checked
                matches Ok(checked) && checked.0@ == home && checked.1@ == runtime_root,
            (Some(home), _) if home_is_absolute => checked matches Err(message) && message@
                == "-runtime requires an absolute path"@,
            _ => checked matches Err(message) && message@ == "-home requires an absolute path"@,
        },
{
    let home = match roots.home {
        Some(home) => if home_is_absolute {
            home
        } else {
            return Err(String::from_str("-home requires an absolute path"));
        },
        None => return Err(String::from_str("-home requires an absolute path")),
    };
    match roots.runtime_root {
        Some(runtime_root) => if runtime_is_absolute {
            Ok((home, runtime_root))
        } else {
            Err(String::from_str("-runtime requires an absolute path"))
        },
        None => Err(String::from_str("-runtime requires an absolute path")),
    }
}

/// What was found where a service is about to listen.
#[derive(Debug, Clone, Copy, PartialEq, Eq, Structural)]
pub enum Endpoint {
    Nothing,
    /// Something that is no socket.
    NotASocket,
    /// A socket that answers.
    Live,
    /// A socket that nobody listens on.
    Left,
    /// A socket that cannot be tried.
    Unknown,
}

/// What a service does about it.
#[derive(Debug, Clone, Copy, PartialEq, Eq, Structural)]
pub enum Reclaim {
    Listen,
    /// The socket is removed first.
    RemoveAndListen,
    /// The name is taken by something else.
    AlreadyExists,
    /// Another service listens there.
    InUse,
    /// The error of the trial is handed back.
    Fail,
}

/// Only a socket that nobody listens on is taken away.
pub fn reclaim(endpoint: Endpoint) -> (reclaim: Reclaim)
    ensures
        reclaim == Reclaim::RemoveAndListen <==> endpoint == Endpoint::Left,
        reclaim == Reclaim::Listen <==> endpoint == Endpoint::Nothing,
        reclaim == Reclaim::AlreadyExists <==> endpoint == Endpoint::NotASocket,
        reclaim == Reclaim::InUse <==> endpoint == Endpoint::Live,
        reclaim == Reclaim::Fail <==> endpoint == Endpoint::Unknown,
{
    match endpoint {
        Endpoint::Nothing => Reclaim::Listen,
        Endpoint::NotASocket => Reclaim::AlreadyExists,
        Endpoint::Live => Reclaim::InUse,
        Endpoint::Left => Reclaim::RemoveAndListen,
        Endpoint::Unknown => Reclaim::Fail,
    }
}

} // verus!
