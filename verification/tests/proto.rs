use serde_json::Value;

use soksak_kit_sidecar_terminal::proto::{self, hello, request, response_data};

fn json(text: &str) -> Value {
    serde_json::from_str(text).unwrap()
}

#[test]
fn requests_use_the_shared_control_envelope() {
    assert_eq!(hello("greeting", "secret")["command"], "system.hello");
    assert_eq!(hello("greeting", "secret")["args"]["protocol"], 2);
    let request = request("r1", "pty.observe", json(r#"{ "session": 7 }"#));
    assert_eq!(request["args"]["request"]["session"], 7);
}

#[test]
fn sidecar_endpoints_are_independent() {
    assert_ne!(
        proto::endpoint_name("soksak-sidecar-terminal-vt100"),
        proto::endpoint_name("soksak-sidecar-terminal-ghostty")
    );
    assert_eq!(proto::endpoint_name("soksak-sidecar-pty"), "soksak-sidecar-pty-p1");
    assert_eq!(
        proto::pty_token_path("/runtime", "soksak-sidecar-pty"),
        "/runtime/soksak-sidecar-pty-p1.token"
    );
}

#[test]
fn replies_hand_their_data_or_their_error_back() {
    let ok = json(r#"{ "ok": true, "result": { "data": { "x": 1 } } }"#);
    assert_eq!(response_data(&ok).unwrap(), json(r#"{ "x": 1 }"#));
    assert_eq!(response_data(&json(r#"{ "ok": true }"#)).unwrap(), Value::Null);
    assert_eq!(
        response_data(&json(r#"{ "ok": false, "error": "no" }"#)).unwrap_err(),
        "no"
    );
    assert_eq!(response_data(&json("{}")).unwrap_err(), "request refused");
}
