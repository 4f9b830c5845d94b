use serde_json::Value;

use soksak_kit_sidecar_terminal::daemon::{
    self, decode_observation_frame, Delivery, NextStep, ObservationFrame, ObservationStart,
    SessionInfo,
};

fn json(text: &str) -> Value {
    serde_json::from_str(text).unwrap()
}

#[test]
fn decodes_output_with_absolute_source_coordinates() {
    let mut payload = vec![0u8; 28];
    payload[0..8].copy_from_slice(&7u64.to_be_bytes());
    payload[8..16].copy_from_slice(&900_000u64.to_be_bytes());
    payload[16..24].copy_from_slice(&900_004u64.to_be_bytes());
    payload[24..].copy_from_slice(b"aaaa");
    assert_eq!(
        decode_observation_frame(0, &payload).unwrap(),
        ObservationFrame::Output {
            event_sequence: 7,
            from_sequence: 900_000,
            through_sequence: 900_004,
            bytes: b"aaaa".to_vec(),
        }
    );
}

#[test]
fn refuses_a_malformed_observation_frame() {
    assert!(decode_observation_frame(2, &[0; 11]).is_err());
    assert!(decode_observation_frame(99, &[]).is_err());
}

#[test]
fn every_kind_of_frame_has_its_layout() {
    let mut gap = Vec::new();
    for number in [1u64, 2, 3, 4] {
        gap.extend_from_slice(&number.to_be_bytes());
    }
    assert_eq!(
        decode_observation_frame(1, &gap).unwrap(),
        ObservationFrame::Gap {
            from_event_sequence: 1,
            through_event_sequence: 2,
            from_sequence: 3,
            through_sequence: 4,
        }
    );
    assert_eq!(
        decode_observation_frame(4, &gap).unwrap(),
        ObservationFrame::Opened {
            session: 1,
            generation: 2,
            event_sequence: 3,
            output_sequence: 4,
        }
    );
    let mut resize = 9u64.to_be_bytes().to_vec();
    resize.extend_from_slice(&[0x01, 0x02, 0x00, 0x18]);
    assert_eq!(
        decode_observation_frame(2, &resize).unwrap(),
        ObservationFrame::Resize { event_sequence: 9, cols: 258, rows: 24 }
    );
    let mut end = 10u64.to_be_bytes().to_vec();
    end.extend_from_slice(&(-1i32).to_be_bytes());
    assert_eq!(
        decode_observation_frame(3, &end).unwrap(),
        ObservationFrame::End { event_sequence: 10, exit_code: -1 }
    );
    assert_eq!(
        decode_observation_frame(2, &[0; 11]).unwrap_err(),
        "invalid PTY observation frame kind=2 length=11"
    );
    assert_eq!(daemon::frame_header(&[3, 0, 0, 1, 2]), (3, 258));
}

#[test]
fn an_ended_connection_is_tried_once_more() {
    assert_eq!(daemon::next_step(false, Delivery::Ended), NextStep::Reconnect);
    assert_eq!(daemon::next_step(true, Delivery::Ended), NextStep::Return);
    assert_eq!(daemon::next_step(false, Delivery::Replied), NextStep::Return);
    assert_eq!(daemon::next_step(false, Delivery::Failed), NextStep::Return);
}

#[test]
fn tokens_lines_and_ids() {
    assert_eq!(daemon::token_in(" abc\n").as_deref(), Some("abc"));
    assert_eq!(daemon::token_in(" \n"), None);
    assert_eq!(daemon::request_id(0), "terminal-state-1");
    assert_eq!(daemon::request_id(41), "terminal-state-42");
    assert_eq!(daemon::line_of(&json(r#"{ "a": [1, "x"] }"#)), "{\"a\":[1,\"x\"]}\n");
    assert_eq!(daemon::reply_in("  {\"ok\":true} \n").unwrap()["ok"], true);
    assert!(daemon::reply_in("{").is_err());
}

#[test]
fn sessions_without_a_key_are_passed_over() {
    let data = json(
        r#"[
            { "session": 1, "generation": 2, "paneId": "p", "windowLabel": "w" },
            { "session": 1, "generation": 2 },
            { "session": 3, "generation": 4, "paneId": "q" }
        ]"#,
    );
    assert_eq!(
        daemon::list_sessions(&data).unwrap(),
        vec![
            SessionInfo {
                session: 1,
                generation: 2,
                pane_id: "p".into(),
                window_label: Some("w".into()),
            },
            SessionInfo { session: 3, generation: 4, pane_id: "q".into(), window_label: None },
        ]
    );
    assert_eq!(
        daemon::list_sessions(&json("{}")).unwrap_err(),
        "pty.sessions did not return a session array"
    );
    assert_eq!(daemon::parse_session_info(&json("[]")), None);
}

#[test]
fn leases_need_every_field() {
    let lease = daemon::lease(&json(
        r#"{ "token": "t", "session": 7, "afterSequence": 900, "expiresAtMs": -5 }"#,
    ))
    .unwrap();
    assert_eq!((lease.token.as_str(), lease.session), ("t", 7));
    assert_eq!((lease.after_sequence, lease.expires_at_ms), (900, -5));
    for (missing, message) in [
        (r#"{}"#, "pty.lease returned no token"),
        (r#"{ "token": "t" }"#, "pty.lease returned no session"),
        (r#"{ "token": "t", "session": 7 }"#, "pty.lease returned no source sequence"),
        (
            r#"{ "token": "t", "session": 7, "afterSequence": 1 }"#,
            "pty.lease returned no expiry",
        ),
    ] {
        assert_eq!(daemon::lease(&json(missing)).unwrap_err(), message);
    }
    let request = daemon::lease_request(7, 900);
    assert_eq!(request, json(r#"{ "session": 7, "afterSequence": 900 }"#));
}

#[test]
fn starts_need_every_field() {
    let whole = r#"{ "session": 1, "generation": 2, "startEventSequence": 3, "startOutputSequence": 4 }"#;
    let start = ObservationStart {
        session: 1,
        generation: 2,
        start_event_sequence: 3,
        start_output_sequence: 4,
    };
    assert_eq!(daemon::observation_start(&json(whole)).unwrap(), start);
    for (missing, message) in [
        (r#"{}"#, "observe response has no session"),
        (r#"{ "session": 1 }"#, "observe response has no generation"),
        (
            r#"{ "session": 1, "generation": 2 }"#,
            "observe response has no startEventSequence",
        ),
        (
            r#"{ "session": 1, "generation": 2, "startEventSequence": 3 }"#,
            "observe response has no startOutputSequence",
        ),
    ] {
        assert_eq!(daemon::observation_start(&json(missing)).unwrap_err(), message);
    }
    assert_eq!(
        daemon::receive_opened(Some(ObservationFrame::Opened {
            session: 1,
            generation: 2,
            event_sequence: 3,
            output_sequence: 4,
        })),
        Ok(start)
    );
    assert!(daemon::receive_opened(None).is_err());
    let live = daemon::live_start(&json(r#"{ "session": 1, "startSeq": 5 }"#)).unwrap();
    assert_eq!((live.session, live.start_sequence), (1, 5));
    assert_eq!(
        daemon::live_start(&json("{}")).unwrap_err(),
        "attach lease returned no session"
    );
    assert_eq!(
        daemon::live_start(&json(r#"{ "session": 1 }"#)).unwrap_err(),
        "attach lease returned no start sequence"
    );
}

#[test]
fn observers_are_prepared_by_place_and_provider() {
    assert_eq!(
        daemon::prepare_observer_request("w", "p", "me"),
        json(r#"{ "windowLabel": "w", "paneId": "p", "provider": "me" }"#)
    );
    assert_eq!(daemon::prepare_observer(&json(r#"{ "token": "t" }"#)).unwrap(), "t");
    assert_eq!(
        daemon::prepare_observer(&json("{}")).unwrap_err(),
        "pty.prepareObserver returned no token"
    );
    assert_eq!(daemon::token_request("t"), json(r#"{ "token": "t" }"#));
    assert_eq!(daemon::session_request(7), json(r#"{ "session": 7 }"#));
}
