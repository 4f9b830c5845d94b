//! What is said on a service connection: results, envelopes, the greeting and the commands.

use vstd::prelude::*;

use serde_json::Value;

use crate::json::{self, JsonView};
use crate::proto;
use crate::runtime;
use crate::text;

verus! {

/// The result of a command that was served.
pub open spec fn success(data: JsonView) -> JsonView {
    JsonView::Object(
        map![
            "ok"@ => JsonView::Bool(true),
            "code"@ => JsonView::Text("OK"@),
            "data"@ => data,
        ],
    )
}

/// The result of a command that was refused.
pub open spec fn failure(code: Seq<char>, message: Seq<char>) -> JsonView {
    JsonView::Object(
        map![
            "ok"@ => JsonView::Bool(false),
            "code"@ => JsonView::Text(code),
            "message"@ => JsonView::Text(message),
        ],
    )
}

/// The result of a command that was served.
pub fn result_ok(data: Value) -> (result: Value)
    ensures
        json::json_of(result) == success(json::json_of(data)),
{
    let mut members = json::new_members();
    json::put(&mut members, "ok", json::boolean(true));
    json::put(&mut members, "code", json::string("OK"));
    json::put(&mut members, "data", data);
    json::object(members)
}

/// The result of a command that was refused.
pub fn result_error(code: &str, message: &str) -> (result: Value)
    ensures
        json::json_of(result) == failure(code@, message@),
{
    let mut members = json::new_members();
    json::put(&mut members, "ok", json::boolean(false));
    json::put(&mut members, "code", json::string(code));
    json::put(&mut members, "message", json::string(message));
    json::object(members)
}

/// The envelope of a served request.
pub open spec fn served(id: Seq<char>, data: JsonView) -> JsonView {
    JsonView::Object(
        map![
            "id"@ => JsonView::Text(id),
            "ok"@ => JsonView::Bool(true),
            "result"@ => JsonView::Object(map![
                "code"@ => JsonView::Text("OK"@),
                "data"@ => data,
            ]),
        ],
    )
}

/// The envelope of a refused request.
pub open spec fn refused(id: Seq<char>, code: Seq<char>, message: Seq<char>) -> JsonView {
    JsonView::Object(
        map![
            "id"@ => JsonView::Text(id),
            "ok"@ => JsonView::Bool(false),
            "error"@ => JsonView::Text(message),
            "result"@ => JsonView::Object(map![
                "code"@ => JsonView::Text(code),
                "data"@ => JsonView::Null,
            ]),
        ],
    )
}

/// The envelope of a served request.
pub fn envelope_ok(id: &str, data: Value) -> (envelope: Value)
    ensures
        json::json_of(envelope) == served(id@, json::json_of(data)),
{
    let mut result = json::new_members();
    json::put(&mut result, "code", json::string("OK"));
    json::put(&mut result, "data", data);
    let mut members = json::new_members();
    json::put(&mut members, "id", json::string(id));
    json::put(&mut members, "ok", json::boolean(true));
    json::put(&mut members, "result", json::object(result));
    json::object(members)
}

/// The envelope of a refused request.
pub fn envelope_error(id: &str, code: &str, message: &str) -> (envelope: Value)
    ensures
        json::json_of(envelope) == refused(id@, code@, message@),
{
    let mut result = json::new_members();
    json::put(&mut result, "code", json::string(code));
    json::put(&mut result, "data", json::null());
    let mut members = json::new_members();
    json::put(&mut members, "id", json::string(id));
    json::put(&mut members, "ok", json::boolean(false));
    json::put(&mut members, "error", json::string(message));
    json::put(&mut members, "result", json::object(result));
    json::object(members)
}

/// A text, or another where there is none.
pub open spec fn text_or(text: Option<Seq<char>>, other: Seq<char>) -> Seq<char> {
    match text {
        Some(text) => text,
        None => other,
    }
}

/// The envelope a command's result is sent in.
pub open spec fn enveloped(id: Seq<char>, result: JsonView) -> JsonView {
    if json::member(result, "ok"@) == Some(JsonView::Bool(true)) {
        served(
            id,
            match json::member(result, "data"@) {
                Some(data) => data,
                None => JsonView::Null,
            },
        )
    } else {
        refused(
            id,
            text_or(json::text_in(json::member(result, "code"@)), "FAILED"@),
            text_or(json::text_in(json::member(result, "message"@)), "request failed"@),
        )
    }
}

fn text_at_or(value: &Value, key: &str, other: &str) -> (text: String)
    ensures
        text@ == text_or(json::text_in(json::member(json::json_of(*value), key@)), other@),
{
    match json::text_at(value, key) {
        Some(text) => text,
        None => String::from_str(other),
    }
}

/// The envelope a command's result is sent in.
pub fn command_response(id: &str, result: &Value) -> (envelope: Value)
    ensures
        json::json_of(envelope) == enveloped(id@, json::json_of(*result)),
{
    let ok = match json::bool_at(result, "ok") {
        Some(ok) => ok,
        None => false,
    };
    if ok {
        let data = match json::get(result, "data") {
            Some(data) => json::copy(data),
            None => json::null(),
        };
        envelope_ok(id, data)
    } else {
        let code = text_at_or(result, "code", "FAILED");
        let message = text_at_or(result, "message", "request failed");
        envelope_error(id, code.as_str(), message.as_str())
    }
}

/// A served result reaches the caller with its data, a refused one with its code and message.
pub proof fn law_results_reach_the_caller(
    id: Seq<char>,
    data: JsonView,
    code: Seq<char>,
    message: Seq<char>,
)
    ensures
        enveloped(id, success(data)) == served(id, data),
        enveloped(id, failure(code, message)) == refused(id, code, message),
        proto::reply_data(served(id, data)) == Ok::<JsonView, Seq<char>>(data),
        proto::reply_data(refused(id, code, message)) == Err::<JsonView, Seq<char>>(message),
{
    reveal_strlit("ok");
    reveal_strlit("code");
    reveal_strlit("data");
    reveal_strlit("message");
    reveal_strlit("id");
    reveal_strlit("error");
    reveal_strlit("result");
    assert("ok"@ != "code"@ && "ok"@ != "data"@ && "ok"@ != "message"@ && "code"@ != "data"@) by {
        assert("ok"@.len() == 2);
        assert("code"@[0] == 'c');
        assert("data"@[0] == 'd');
    }
    assert("code"@ != "message"@) by {
        assert("code"@.len() == 4);
    }
    assert("ok"@ != "id"@) by {
        assert("ok"@[0] == 'o');
        assert("id"@[0] == 'i');
    }
    assert("ok"@.len() == 2 && "error"@.len() == 5 && "result"@.len() == 6);
    assert("error"@ != "result"@ && "error"@ != "ok"@ && "result"@ != "ok"@ && "error"@ != "id"@
        && "result"@ != "id"@);
}

/// The commands of a terminal-state service.
#[derive(Debug, Clone, Copy, PartialEq, Eq, Structural)]
pub enum TerminalCommand {
    PrepareSession,
    EnsureSession,
    Rehydrate,
    Resize,
    WaitSize,
    Status,
    Archived,
    Archive,
    Retire,
    Frame,
}

/// The name of a command.
pub open spec fn command_name(command: TerminalCommand) -> Seq<char> {
    match command {
        TerminalCommand::PrepareSession => "terminal.prepareSession"@,
        TerminalCommand::EnsureSession => "terminal.ensureSession"@,
        TerminalCommand::Rehydrate => "terminal.rehydrate"@,
        TerminalCommand::Resize => "terminal.resize"@,
        TerminalCommand::WaitSize => "terminal.waitSize"@,
        TerminalCommand::Status => "terminal.status"@,
        TerminalCommand::Archived => "terminal.archived"@,
        TerminalCommand::Archive => "terminal.archive"@,
        TerminalCommand::Retire => "terminal.retire"@,
        TerminalCommand::Frame => "terminal.frame"@,
    }
}

/// The commands in the order they are announced.
pub open spec fn commands() -> Seq<TerminalCommand> {
    seq![
        TerminalCommand::PrepareSession,
        TerminalCommand::EnsureSession,
        TerminalCommand::Rehydrate,
        TerminalCommand::Resize,
        TerminalCommand::WaitSize,
        TerminalCommand::Status,
        TerminalCommand::Archived,
        TerminalCommand::Archive,
        TerminalCommand::Retire,
        TerminalCommand::Frame,
    ]
}

impl TerminalCommand {
    pub fn name(self) -> (name: &'static str)
        ensures
            name@ == command_name(self),
    {
        match self {
            TerminalCommand::PrepareSession => "terminal.prepareSession",
            TerminalCommand::EnsureSession => "terminal.ensureSession",
            TerminalCommand::Rehydrate => "terminal.rehydrate",
            TerminalCommand::Resize => "terminal.resize",
            TerminalCommand::WaitSize => "terminal.waitSize",
            TerminalCommand::Status => "terminal.status",
            TerminalCommand::Archived => "terminal.archived",
            TerminalCommand::Archive => "terminal.archive",
            TerminalCommand::Retire => "terminal.retire",
            TerminalCommand::Frame => "terminal.frame",
        }
    }

    /// Every command, in the order they are announced.
    pub fn all() -> (all: Vec<TerminalCommand>)
        ensures
            all@ == commands(),
    {
        let mut all: Vec<TerminalCommand> = Vec::new();
        all.push(TerminalCommand::PrepareSession);
        all.push(TerminalCommand::EnsureSession);
        all.push(TerminalCommand::Rehydrate);
        all.push(TerminalCommand::Resize);
        all.push(TerminalCommand::WaitSize);
        all.push(TerminalCommand::Status);
        all.push(TerminalCommand::Archived);
        all.push(TerminalCommand::Archive);
        all.push(TerminalCommand::Retire);
        all.push(TerminalCommand::Frame);
        assert(all@ =~= commands());
        all
    }

    /// The command of a name, or the result that says there is none.
    pub fn named(name: &str) -> (command: Result<TerminalCommand, Value>)
        ensures
            match command {
                Ok(command) => command_name(command) == name@,
                Err(result) => {
                    &&& json::json_of(result) == failure(
                        "UNKNOWN_COMMAND"@,
                        "unknown terminal-state command"@,
                    )
                    &&& forall|command: TerminalCommand| #[trigger] command_name(command) != name@
                },
            },
    {
        let all = Self::all();
        let mut i: usize = 0;
        while i < all.len()
            invariant
                all@ == commands(),
                i <= all@.len(),
                forall|j: int| 0 <= j < i ==> command_name(#[trigger] all@[j]) != name@,
            decreases all@.len() - i,
        {
            if text::same_text(all[i].name(), name) {
                return Ok(all[i]);
            }
            i = i + 1;
        }
        proof {
            assert forall|command: TerminalCommand| #[trigger] command_name(command) != name@ by {
                let at = place_of(command);
                assert(commands()[at] == command);
                assert(command_name(all@[at]) != name@);
            }
        }
        Err(result_error("UNKNOWN_COMMAND", "unknown terminal-state command"))
    }
}

/// The place of a command among those announced.
pub open spec fn place_of(command: TerminalCommand) -> int {
    match command {
        TerminalCommand::PrepareSession => 0,
        TerminalCommand::EnsureSession => 1,
        TerminalCommand::Rehydrate => 2,
        TerminalCommand::Resize => 3,
        TerminalCommand::WaitSize => 4,
        TerminalCommand::Status => 5,
        TerminalCommand::Archived => 6,
        TerminalCommand::Archive => 7,
        TerminalCommand::Retire => 8,
        TerminalCommand::Frame => 9,
    }
}

/// A command as it is announced.
pub open spec fn command_json(command: TerminalCommand) -> JsonView {
    JsonView::Object(
        map![
            "name"@ => JsonView::Text(command_name(command)),
            "owner"@ => JsonView::Text("plugin"@),
        ],
    )
}

/// What a service says of itself when it is greeted, with the label of its process.
pub open spec fn introduction(identity: Seq<char>, label: Option<Seq<char>>) -> JsonView {
    runtime::labelled(
        map![
            "protocol"@ => JsonView::Unsigned(proto::CONTROL_PROTOCOL),
            "identity"@ => JsonView::Text(identity),
            "commands"@ => JsonView::Object(map![
                "commands"@ => JsonView::Array(
                    Seq::new(10, |i: int| command_json(commands()[i])),
                ),
                "unserved"@ => JsonView::Array(Seq::empty()),
            ]),
            "language"@ => JsonView::Text("en"@),
            "languages"@ => JsonView::Array(seq![JsonView::Text("en"@)]),
        ],
        label,
    )
}

fn introduce(identity: &str, label: Option<&str>) -> (value: Value)
    ensures
        json::json_of(value) == introduction(identity@, text::chars_of(label)),
{
    let all = TerminalCommand::all();
    let mut listed: Vec<Value> = Vec::new();
    let mut i: usize = 0;
    while i < all.len()
        invariant
            all@ == commands(),
            i <= all@.len(),
            listed@.len() == i,
            forall|j: int|
                0 <= j < i ==> json::json_of(#[trigger] listed@[j]) == command_json(commands()[j]),
        decreases all@.len() - i,
    {
        let mut members = json::new_members();
        json::put(&mut members, "name", json::string(all[i].name()));
        json::put(&mut members, "owner", json::string("plugin"));
        listed.push(json::object(members));
        i = i + 1;
    }
    assert(json::jsons_of(listed@) =~= Seq::new(10, |i: int| command_json(commands()[i])));
    let unserved: Vec<Value> = Vec::new();
    assert(json::jsons_of(unserved@) =~= Seq::<JsonView>::empty());
    let mut served = json::new_members();
    json::put(&mut served, "commands", json::array(listed));
    json::put(&mut served, "unserved", json::array(unserved));
    let mut languages: Vec<Value> = Vec::new();
    languages.push(json::string("en"));
    assert(json::jsons_of(languages@) =~= seq![JsonView::Text("en"@)]);
    let mut members = json::new_members();
    json::put(&mut members, "protocol", json::unsigned(proto::CONTROL_PROTOCOL));
    json::put(&mut members, "identity", json::string(identity));
    json::put(&mut members, "commands", json::object(served));
    json::put(&mut members, "language", json::string("en"));
    json::put(&mut members, "languages", json::array(languages));
    if let Some(label) = label {
        json::put(&mut members, "processLabel", json::string(label));
    }
    json::object(members)
}

/// What a line on a connection calls for.
pub enum Incoming {
    /// A reply at once.
    Reply(Value),
    /// A command, whose response follows when it has one.
    Command { id: String, command: String, request: Value },
}

/// What a line calls for, as a mathematical value.
pub enum IncomingView {
    Reply(JsonView),
    Command { id: Seq<char>, command: Seq<char>, request: JsonView },
}

impl View for Incoming {
    type V = IncomingView;

    open spec fn view(&self) -> IncomingView {
        match *self {
            Incoming::Reply(value) => IncomingView::Reply(json::json_of(value)),
            Incoming::Command { id, command, request } => IncomingView::Command {
                id: id@,
                command: command@,
                request: json::json_of(request),
            },
        }
    }
}

/// Whether a greeting names the protocol and the token of the service.
pub open spec fn greets(request: JsonView, token: Seq<char>) -> bool {
    let args = json::member(request, "args"@);
    json::unsigned_in(proto::member_in(args, "protocol"@)) == Some(proto::CONTROL_PROTOCOL)
        && json::text_in(proto::member_in(args, "token"@)) == Some(token)
}

/// What a request calls for: nothing is served before a greeting.
pub open spec fn called_for(
    request: JsonView,
    greeted: bool,
    token: Seq<char>,
    identity: Seq<char>,
    label: Option<Seq<char>>,
) -> IncomingView {
    let id = text_or(json::text_in(json::member(request, "id"@)), Seq::empty());
    let command = text_or(json::text_in(json::member(request, "command"@)), Seq::empty());
    if command == "system.hello"@ {
        if greets(request, token) {
            IncomingView::Reply(served(id, introduction(identity, label)))
        } else {
            IncomingView::Reply(refused(id, "GREETING"@, "invalid protocol or token"@))
        }
    } else if !greeted {
        IncomingView::Reply(refused(id, "GREETING"@, "system.hello is required"@))
    } else {
        IncomingView::Command {
            id,
            command,
            request: match proto::member_in(json::member(request, "args"@), "request"@) {
                Some(request) => request,
                None => JsonView::Object(Map::empty()),
            },
        }
    }
}

/// Whether a connection has been greeted after a request.
pub open spec fn greeted_after(request: JsonView, greeted: bool, token: Seq<char>) -> bool {
    let command = text_or(json::text_in(json::member(request, "command"@)), Seq::empty());
    greeted || (command == "system.hello"@ && greets(request, token))
}

/// A connection to a service.
#[derive(Debug, Clone, Copy, PartialEq, Eq, Structural)]
pub struct Connection {
    pub greeted: bool,
}

fn member_at<'a>(value: &'a Value, outer: &str, inner: &str) -> (found: Option<&'a Value>)
    ensures
        json::json_in(found) == proto::member_in(
            json::member(json::json_of(*value), outer@),
            inner@,
        ),
{
    match json::get(value, outer) {
        Some(found) => json::get(found, inner),
        None => None,
    }
}

impl Connection {
    /// A connection on which nothing was said yet.
    pub fn new() -> (connection: Self)
        ensures
            !connection.greeted,
    {
        Connection { greeted: false }
    }

    /// What a request calls for.
    pub fn serve(
        &mut self,
        request: &Value,
        token: &str,
        identity: &str,
        label: Option<&str>,
    ) -> (incoming: Incoming)
        ensures
            incoming@ == called_for(
                json::json_of(*request),
                old(self).greeted,
                token@,
                identity@,
                text::chars_of(label),
            ),
            final(self).greeted == greeted_after(
                json::json_of(*request),
                old(self).greeted,
                token@,
            ),
    {
        proof {
            reveal_strlit("");
            assert(""@ =~= Seq::<char>::empty());
        }
        let id = text_at_or(request, "id", "");
        let command = text_at_or(request, "command", "");
        if text::same_text(command.as_str(), "system.hello") {
            let protocol = match member_at(request, "args", "protocol") {
                Some(protocol) => match json::as_u64(protocol) {
                    Some(protocol) => protocol == proto::CONTROL_PROTOCOL,
                    None => false,
                },
                None => false,
            };
            let known = match member_at(request, "args", "token") {
                Some(received) => match json::as_str(received) {
                    Some(received) => text::same_text(received, token),
                    None => false,
                },
                None => false,
            };
            if !protocol || !known {
                return Incoming::Reply(
                    envelope_error(id.as_str(), "GREETING", "invalid protocol or token"),
                );
            }
            self.greeted = true;
            return Incoming::Reply(envelope_ok(id.as_str(), introduce(identity, label)));
        }
        if !self.greeted {
            return Incoming::Reply(
                envelope_error(id.as_str(), "GREETING", "system.hello is required"),
            );
        }
        let body = match member_at(request, "args", "request") {
            Some(body) => json::copy(body),
            None => json::object(json::new_members()),
        };
        Incoming::Command { id, command, request: body }
    }

    /// What a line calls for, or why it is no request. A line that is no request ends the
    /// connection.
    pub fn receive(
        &mut self,
        line: &str,
        token: &str,
        identity: &str,
        label: Option<&str>,
    ) -> (incoming: Result<Incoming, String>)
        ensures
            match json::json_parsed(line@) {
                Ok(request) => {
                    &&& incoming matches Ok(incoming) && incoming@ == called_for(
                        request,
                        old(self).greeted,
                        token@,
                        identity@,
                        text::chars_of(label),
                    )
                    &&& final(self).greeted == greeted_after(request, old(self).greeted, token@)
                },
                Err(message) => {
                    &&& incoming matches Err(error) && error@ == message
                    &&& *final(self) == *old(self)
                },
            },
    {
        match json::parse(line) {
            Ok(request) => Ok(self.serve(&request, token, identity, label)),
            Err(message) => Err(message),
        }
    }
}

/// No command is served on a connection that was not greeted with the service's protocol and token,
/// and a greeting, once given, holds.
pub proof fn law_nothing_is_served_before_the_greeting(
    request: JsonView,
    greeted: bool,
    token: Seq<char>,
    identity: Seq<char>,
    label: Option<Seq<char>>,
)
    ensures
        called_for(request, greeted, token, identity, label) is Command ==> greeted,
        greeted_after(request, greeted, token) && !greeted ==> greets(request, token),
        greeted ==> greeted_after(request, greeted, token),
{
}

} // verus!
