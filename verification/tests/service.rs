use serde_json::Value;

use soksak_kit_sidecar_terminal::proto;
use soksak_kit_sidecar_terminal::runtime::service::{
    command_response, result_error, result_ok, Connection, Incoming, TerminalCommand,
};

fn json(text: &str) -> Value {
    serde_json::from_str(text).unwrap()
}

fn reply(incoming: Incoming) -> Value {
    match incoming {
        Incoming::Reply(value) => value,
        Incoming::Command { .. } => panic!("not a reply"),
    }
}

#[test]
fn nothing_is_served_before_the_greeting() {
    let mut connection = Connection::new();
    let early = reply(
        connection
            .receive(r#"{ "id": "1", "command": "terminal.status" }"#, "secret", "me", None)
            .unwrap(),
    );
    assert_eq!(early["result"]["code"], "GREETING");
    assert_eq!(early["error"], "system.hello is required");
    let wrong = reply(connection.serve(&proto::hello("2", "other"), "secret", "me", None));
    assert_eq!(wrong["error"], "invalid protocol or token");
    let old = json(
        r#"{ "id": "3", "command": "system.hello", "args": { "protocol": 1, "token": "secret" } }"#,
    );
    assert_eq!(reply(connection.serve(&old, "secret", "me", None))["ok"], false);
    assert!(!connection.greeted);
    let greeted = reply(connection.serve(&proto::hello("4", "secret"), "secret", "me", None));
    assert_eq!(greeted["id"], "4");
    assert_eq!(greeted["result"]["data"]["identity"], "me");
    assert_eq!(greeted["result"]["data"]["protocol"], 2);
    let commands = greeted["result"]["data"]["commands"]["commands"].as_array().unwrap();
    assert_eq!(commands.len(), 10);
    assert_eq!(commands[0], json(r#"{ "name": "terminal.prepareSession", "owner": "plugin" }"#));
    assert_eq!(commands[9]["name"], "terminal.frame");
    assert!(connection.greeted);
    match connection
        .receive(
            r#"{ "id": "5", "command": "terminal.frame", "args": { "request": { "pane": "p" } } }"#,
            "secret",
            "me",
            None,
        )
        .unwrap()
    {
        Incoming::Command { id, command, request } => {
            assert_eq!((id.as_str(), command.as_str()), ("5", "terminal.frame"));
            assert_eq!(request["pane"], "p");
        }
        Incoming::Reply(value) => panic!("{value}"),
    }
    match connection.receive("{}", "secret", "me", None).unwrap() {
        Incoming::Command { id, command, request } => {
            assert_eq!((id.as_str(), command.as_str()), ("", ""));
            assert_eq!(request, json("{}"));
        }
        Incoming::Reply(value) => panic!("{value}"),
    }
    assert!(connection.receive("no json", "secret", "me", None).is_err());
}

#[test]
fn results_reach_the_caller() {
    let ok = command_response("1", &result_ok(json(r#"{ "x": 1 }"#)));
    assert_eq!(ok, json(r#"{ "id": "1", "ok": true, "result": { "code": "OK", "data": { "x": 1 } } }"#));
    assert_eq!(proto::response_data(&ok).unwrap(), json(r#"{ "x": 1 }"#));
    let refused = command_response("2", &result_error("NOT_FOUND", "no session"));
    assert_eq!(
        refused,
        json(
            r#"{ "id": "2", "ok": false, "error": "no session",
                 "result": { "code": "NOT_FOUND", "data": null } }"#
        )
    );
    assert_eq!(proto::response_data(&refused).unwrap_err(), "no session");
    let bare = command_response("3", &json("{}"));
    assert_eq!((&bare["result"]["code"], &bare["error"]), (&json("\"FAILED\""), &json("\"request failed\"")));
}

#[test]
fn commands_are_known_by_name() {
    for command in TerminalCommand::all() {
        assert_eq!(TerminalCommand::named(command.name()), Ok(command));
    }
    let unknown = TerminalCommand::named("terminal.other").unwrap_err();
    assert_eq!(unknown["code"], "UNKNOWN_COMMAND");
    assert_eq!(unknown["message"], "unknown terminal-state command");
}

#[test]
fn the_label_of_a_process_is_in_its_greeting() {
    let labelled = reply(Connection::new().serve(
        &proto::hello("1", "secret"),
        "secret",
        "me",
        Some("terminal of window 3"),
    ));
    let mut data = labelled["result"]["data"].clone();
    assert_eq!(data["processLabel"], "terminal of window 3");
    data.as_object_mut().unwrap().remove("processLabel");
    let bare = reply(Connection::new().serve(&proto::hello("1", "secret"), "secret", "me", None));
    assert_eq!(data, bare["result"]["data"], "it changes nothing else");
}
