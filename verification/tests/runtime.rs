use serde_json::Value;

use soksak_kit_sidecar_terminal::checkpoint::{ArchivedCheckpoint, CheckpointStore, StoredPane};
use soksak_kit_sidecar_terminal::daemon::{
    ObservationFrame, ObservationStart, SessionInfo, SnapshotLease,
};
use soksak_kit_sidecar_terminal::frame::{FrameLine, FrameRun, FrameSubscribers, TerminalFrame};
use soksak_kit_sidecar_terminal::mirror::{
    MirrorCapabilities, TerminalCell, TerminalCursorAnimation, TerminalCursorShape,
    TerminalCursorStyle, TerminalModes,
};
use soksak_kit_sidecar_terminal::runtime::checkpointing::{Arrival, Gathered, Work};
use soksak_kit_sidecar_terminal::runtime::registry::{
    apply_observation, new_session_state, status_snapshot, Applied, CheckpointEvent, PaneKey,
    Registry, SourcedMirror,
};
use soksak_kit_sidecar_terminal::runtime::requests::{
    self, create_session_mirror, frame_request, frame_timeout_ms, ArchivedOutcome, EnsureStep,
    PrepareOutcome, WaitStep,
};
use soksak_kit_sidecar_terminal::runtime::{self, Endpoint, Reclaim};
use soksak_kit_sidecar_terminal::TerminalStateMirror;

fn json(text: &str) -> Value {
    serde_json::from_str(text).unwrap()
}

fn empty_frame(offset: usize, history: usize, alt: bool) -> TerminalFrame {
    TerminalFrame {
        cols: 4,
        rows: 1,
        cursor: (0, 0),
        cursor_visible: true,
        cursor_style: TerminalCursorStyle { shape: TerminalCursorShape::Block, blinking: false },
        cursor_animation: TerminalCursorAnimation { interval_ms: 750 },
        alt_active: alt,
        history_size: history,
        offset,
        modes: TerminalModes::default(),
        lines: vec![FrameLine {
            y: 0,
            wrapped: false,
            runs: vec![FrameRun {
                text: "row".into(),
                fg: "default".into(),
                bg: "default".into(),
                attrs: 0,
                n: 3,
                wide: false,
                link: None,
            }],
        }],
    }
}

/// A mirror with a fixed screen; echoes the offset it is asked for so clamping is observable, and
/// keeps what it was fed.
struct ScriptedMirror {
    history: usize,
    alt: bool,
    paint: Vec<u8>,
    sizes: Vec<(u16, u16)>,
}

impl TerminalStateMirror for ScriptedMirror {
    fn feed(&mut self, bytes: &[u8]) {
        self.paint.extend_from_slice(bytes);
    }
    fn resize(&mut self, cols: u16, rows: u16) {
        self.sizes.push((cols, rows));
    }
    fn rehydrate(&self) -> Vec<u8> {
        self.paint.clone()
    }
    fn cold_paint(&self) -> Vec<u8> {
        self.paint.clone()
    }
    fn frame_at(&self, offset: usize) -> TerminalFrame {
        empty_frame(offset, self.history, self.alt)
    }
    fn history_size(&self) -> usize {
        self.history
    }
    fn modes(&self) -> TerminalModes {
        TerminalModes::default()
    }
    fn capabilities(&self) -> MirrorCapabilities {
        MirrorCapabilities::default()
    }
    fn alt_active(&self) -> bool {
        self.alt
    }
    fn suppressed_replies(&self) -> u64 {
        2
    }
    fn cols(&self) -> u16 {
        4
    }
    fn rows(&self) -> u16 {
        1
    }
    fn cursor(&self) -> (usize, usize) {
        (0, 0)
    }
    fn cursor_style(&self) -> TerminalCursorStyle {
        TerminalCursorStyle { shape: TerminalCursorShape::Block, blinking: false }
    }
    fn cursor_animation(&self) -> TerminalCursorAnimation {
        TerminalCursorAnimation { interval_ms: 750 }
    }
    fn line_cells(&self, _line: i32) -> Vec<TerminalCell> {
        Vec::new()
    }
    fn selection_range(&self, _line: i32) -> Option<(u16, u16)> {
        None
    }
}

fn scripted(history: usize, alt: bool) -> ScriptedMirror {
    ScriptedMirror { history, alt, paint: Vec::new(), sizes: Vec::new() }
}

fn key() -> PaneKey {
    PaneKey { window: Some("window".to_string()), pane: "pane".to_string() }
}

fn info() -> SessionInfo {
    SessionInfo {
        session: 1,
        generation: 1,
        pane_id: "pane".into(),
        window_label: Some("window".into()),
    }
}

fn start(output: u64) -> ObservationStart {
    ObservationStart {
        session: 1,
        generation: 1,
        start_event_sequence: 0,
        start_output_sequence: output,
    }
}

fn test_registry(mirror: u64, output: u64, size: (u16, u16)) -> Registry {
    let mut registry = Registry::new();
    registry.insert(new_session_state(info(), start(output), mirror, size.0, size.1));
    registry
}

struct Terminal {
    registry: Registry,
    mirror: SourcedMirror<ScriptedMirror>,
    subscribers: FrameSubscribers,
}

fn terminal(history: usize, alt: bool, output: u64) -> Terminal {
    Terminal {
        registry: test_registry(1, output, (4, 1)),
        mirror: SourcedMirror::new(scripted(history, alt), output),
        subscribers: FrameSubscribers::default(),
    }
}

fn frame_of(terminal: &mut Terminal, subscriber: &str, extra: &str) -> Value {
    let mut request = json(r#"{ "window": "window", "pane": "pane" }"#);
    let target = request.as_object_mut().unwrap();
    target.insert("subscriber".to_string(), Value::from(subscriber));
    for (key, value) in json(extra).as_object().unwrap() {
        target.insert(key.clone(), value.clone());
    }
    frame_request(&terminal.registry, &terminal.mirror, &mut terminal.subscribers, &request)
}

#[test]
fn a_new_session_replays_the_archive_before_live_output() {
    let store =
        CheckpointStore::new("/home", "soksak-sidecar-terminal-test", [7; 32]).unwrap();
    let mut stored = StoredPane { record: None, file: None };
    store.write("window", "pane", 4, 20, b"archived-screen\n", &mut stored).unwrap();
    let archived = store.read("window", "pane", &stored).unwrap().unwrap();

    let mut restored =
        create_session_mirror(scripted(0, false), Some(&archived.payload), 24, true);
    restored.feed(b"fresh-shell");
    let mut expected = b"archived-screen\n".to_vec();
    expected.extend_from_slice(&b"\r\n".repeat(24));
    expected.extend_from_slice(b"fresh-shell");
    assert_eq!(restored.rehydrate(), expected);

    let warm = create_session_mirror(scripted(0, false), Some(&archived.payload), 24, false);
    assert!(warm.rehydrate().is_empty());
    let fresh = create_session_mirror(scripted(0, false), None, 24, true);
    assert!(fresh.rehydrate().is_empty());
}

#[test]
fn ended_consumer_cannot_remove_a_replacement_mirror() {
    let mut registry = test_registry(1, 0, (1, 1));
    registry.insert(new_session_state(info(), start(0), 2, 1, 1));
    assert!(!registry.remove_session_if_owner(&key(), 1));
    assert_eq!(registry.get(&key()).unwrap().mirror, 2);
    assert!(registry.remove_session_if_owner(&key(), 2));
    assert!(!registry.contains(&key()));
}

#[test]
fn mirror_snapshot_and_output_sequence_advance_atomically() {
    let mut terminal = terminal(0, false, 0);
    let applied = apply_observation(
        &ObservationFrame::Output {
            event_sequence: 1,
            from_sequence: 0,
            through_sequence: 37,
            bytes: vec![b'x'],
        },
        &mut terminal.mirror,
        &mut terminal.registry,
        &key(),
    );
    assert!(applied.goes_on);
    let snapshot = terminal.mirror.snapshot();
    assert_eq!(snapshot.sequence, 37);
    assert_eq!(snapshot.paint, b"x");
    assert_eq!(snapshot.frame.output_sequence, 37);
    assert!(snapshot.frame.full);
}

#[test]
fn resize_observation_releases_exact_size_waiters() {
    let mut registry = test_registry(1, 0, (90, 24));
    let mut mirror = SourcedMirror::new(scripted(0, false), 0);
    let request =
        json(r#"{ "window": "window", "pane": "pane", "cols": 54, "rows": 24, "timeoutMs": 500 }"#);
    let plan = requests::check_wait_size(&registry, &request).unwrap();
    assert_eq!(requests::wait_for_size(&plan, 90, 24, 100), WaitStep::Wait(400));
    assert!(
        apply_observation(
            &ObservationFrame::Resize { event_sequence: 1, cols: 54, rows: 24 },
            &mut mirror,
            &mut registry,
            &key(),
        )
        .goes_on
    );
    let status = status_snapshot(&registry, MirrorCapabilities::default());
    let session = &status["sessions"][0];
    assert_eq!(session["cols"], 54);
    assert_eq!(session["rows"], 24);
    assert_eq!(session["eventSequence"], 1);
    let state = registry.get(&key()).unwrap();
    assert_eq!((state.cols, state.rows), (54, 24));
    assert_eq!(requests::wait_for_size(&plan, state.cols, state.rows, 100), WaitStep::Ready);
    assert_eq!(requests::wait_size(&plan, 54, 24)["data"], json(r#"{ "cols": 54, "rows": 24 }"#));
    assert_eq!(mirror.mirror.sizes, vec![(54, 24)]);
}

#[test]
fn frame_response_carries_the_exact_applied_output_sequence() {
    let mut terminal = terminal(0, false, 37);
    let response = frame_of(&mut terminal, "viewer", "{}");
    assert_eq!(response["ok"], true, "{response}");
    assert_eq!(response["data"]["outputSequence"], 37);
    assert_eq!(response["data"]["full"], true);
    assert_eq!(response["data"]["lines"][0]["runs"][0]["text"], "row");
    assert!(response["data"].get("output_sequence").is_none());
}

#[test]
fn frame_requires_a_subscriber_and_clamps_timeout() {
    let mut terminal = terminal(0, false, 0);
    let missing = frame_request(
        &terminal.registry,
        &terminal.mirror,
        &mut terminal.subscribers,
        &json(r#"{ "window": "window", "pane": "pane" }"#),
    );
    assert_eq!(missing["code"], "INVALID_PARAMS");
    for bad in ["Bad Name", "", "a/b", &"x".repeat(65)] {
        let refused = frame_of(&mut terminal, bad, "{}");
        assert_eq!(refused["code"], "INVALID_PARAMS", "{bad:?}");
    }
    let accepted = frame_of(&mut terminal, "viewer.1#a-b_c", "{}");
    assert_eq!(accepted["ok"], true, "{accepted}");
    assert_eq!(frame_timeout_ms(&json("{}")), 10_000);
    assert_eq!(frame_timeout_ms(&json(r#"{ "timeoutMs": 99999 }"#)), 30_000);
    assert_eq!(frame_timeout_ms(&json(r#"{ "timeoutMs": 0 }"#)), 0);
    assert_eq!(frame_timeout_ms(&json(r#"{ "timeoutMs": 250 }"#)), 250);
}

#[test]
#[allow(non_snake_case)]
fn frame_times_out_with_TIMEOUT_when_after_sequence_is_not_reached() {
    let mut terminal = terminal(0, false, 0);
    assert_eq!(requests::wait_for_sequence(0, 5, 0, 20), WaitStep::Wait(20));
    assert_eq!(requests::wait_for_sequence(0, 5, 20, 20), WaitStep::TimedOut);
    assert_eq!(requests::wait_for_sequence(5, 5, 20, 20), WaitStep::Ready);
    let response = frame_of(&mut terminal, "viewer", r#"{ "afterSequence": 5, "timeoutMs": 20 }"#);
    assert_eq!(response["ok"], false);
    assert_eq!(response["code"], "TIMEOUT");
    let reached = frame_of(&mut terminal, "viewer", r#"{ "afterSequence": 0 }"#);
    assert_eq!(reached["ok"], true, "{reached}");
}

#[test]
fn frame_offset_is_clamped_to_history_and_zero_in_alt() {
    let mut primary = terminal(5, false, 0);
    assert_eq!(frame_of(&mut primary, "v", r#"{ "offset": 99 }"#)["data"]["offset"], 5);
    assert_eq!(frame_of(&mut primary, "v", r#"{ "offset": 3 }"#)["data"]["offset"], 3);
    assert_eq!(frame_of(&mut primary, "v", "{}")["data"]["offset"], 0);
    assert_eq!(frame_of(&mut primary, "v", "{}")["data"]["historySize"], 5);

    let mut alt = terminal(5, true, 0);
    let reply = frame_of(&mut alt, "v", r#"{ "offset": 3 }"#);
    assert_eq!(reply["data"]["offset"], 0);
    assert_eq!(reply["data"]["altActive"], true);
}

#[test]
fn frame_baselines_are_evicted_beyond_eight_subscribers() {
    let mut terminal = terminal(0, false, 0);
    for index in 0..9 {
        let first = frame_of(&mut terminal, &format!("s{index}"), "{}");
        assert_eq!(first["data"]["full"], true, "s{index} first request is full");
    }
    assert_eq!(frame_of(&mut terminal, "s8", "{}")["data"]["full"], false);
    let evicted = frame_of(&mut terminal, "s0", "{}");
    assert_eq!(evicted["data"]["full"], true, "s0 lost its baseline");
    assert_eq!(frame_of(&mut terminal, "s2", "{}")["data"]["full"], false);
    let unchanged = frame_of(&mut terminal, "s2", "{}");
    assert!(unchanged["data"]["lines"].as_array().unwrap().is_empty());
}

#[test]
fn status_reports_capabilities() {
    let registry = Registry::new();
    let status = status_snapshot(&registry, MirrorCapabilities { hyperlinks: true });
    assert_eq!(status["capabilities"]["hyperlinks"], true);
    assert_eq!(status["sessions"], json("[]"));
    let none = status_snapshot(&registry, MirrorCapabilities::default());
    assert_eq!(none["capabilities"]["hyperlinks"], false);
}

#[test]
fn a_frame_of_an_unknown_terminal_is_not_found() {
    let mut terminal = terminal(0, false, 0);
    terminal.registry.remove_session_if_owner(&key(), 1);
    let response = frame_of(&mut terminal, "viewer", "{}");
    assert_eq!(response["code"], "NOT_FOUND");
    assert_eq!(response["message"], "no live terminal-state mirror for this key");
    let unnamed = frame_request(
        &terminal.registry,
        &terminal.mirror,
        &mut terminal.subscribers,
        &json("{}"),
    );
    assert_eq!(unnamed["message"], "window and pane are required");
    assert!(requests::check_frame(&terminal.registry, &json("{}")).is_err());
}

#[test]
fn status_reports_what_was_observed() {
    let mut terminal = terminal(0, false, 100);
    for (from, through, bytes) in [(100, 103, "abc"), (103, 104, "d")] {
        apply_observation(
            &ObservationFrame::Output {
                event_sequence: through,
                from_sequence: from,
                through_sequence: through,
                bytes: bytes.as_bytes().to_vec(),
            },
            &mut terminal.mirror,
            &mut terminal.registry,
            &key(),
        );
    }
    let status = status_snapshot(&terminal.registry, MirrorCapabilities::default());
    let session = &status["sessions"][0];
    assert_eq!(session["outputSequence"], 104);
    assert_eq!(session["observedBytes"], 4);
    assert_eq!(session["lastOutput"]["fromSequence"], 103);
    assert_eq!(session["lastOutput"]["throughSequence"], 104);
    assert_eq!(session["lastOutput"]["bytes"], 1);
    assert_eq!(
        session["lastOutput"]["sha256"],
        "18ac3e7343f016890c510e93f935261169d9e3f565436429830faf0934f4f8e4"
    );
    assert_eq!(session["suppressedReplies"], 2);
    assert_eq!(session["window"], "window");
    assert_eq!(session["gaps"], 0);
}

#[test]
fn gaps_and_endings_are_told() {
    let mut terminal = terminal(0, false, 0);
    let gap = ObservationFrame::Gap {
        from_event_sequence: 1,
        through_event_sequence: 5,
        from_sequence: 0,
        through_sequence: 50,
    };
    let observe = |terminal: &mut Terminal, event: &ObservationFrame| {
        apply_observation(event, &mut terminal.mirror, &mut terminal.registry, &key())
    };
    assert_eq!(observe(&mut terminal, &gap), Applied { goes_on: true, event: None });
    assert_eq!(terminal.registry.get(&key()).unwrap().gaps, 1);
    assert_eq!(terminal.registry.get(&key()).unwrap().source_output_sequence, 50);
    let request = json(r#"{ "window": "window", "pane": "pane" }"#);
    let refused = requests::check_rehydrate(&terminal.registry, &request).unwrap_err();
    assert_eq!(refused["code"], "SOURCE_GAP");
    let end = ObservationFrame::End { event_sequence: 6, exit_code: 0 };
    assert_eq!(
        observe(&mut terminal, &end),
        Applied {
            goes_on: false,
            event: Some(CheckpointEvent::Final { generation: 1, sequence: 50 }),
        }
    );
    let opened = ObservationFrame::Opened {
        session: 1,
        generation: 1,
        event_sequence: 0,
        output_sequence: 0,
    };
    assert!(!observe(&mut terminal, &opened).goes_on);
    assert_eq!(terminal.registry.get(&key()).unwrap().gaps, 2);
    terminal.registry.remove_session_if_owner(&key(), 1);
    assert!(!observe(&mut terminal, &gap).goes_on);
}

#[test]
fn a_handover_carries_the_sequence_its_lease_continues_at() {
    let mut terminal = terminal(0, false, 0);
    apply_observation(
        &ObservationFrame::Output {
            event_sequence: 9,
            from_sequence: 0,
            through_sequence: 900,
            bytes: b"screen".to_vec(),
        },
        &mut terminal.mirror,
        &mut terminal.registry,
        &key(),
    );
    let request = json(r#"{ "window": "window", "pane": "pane" }"#);
    let plan = requests::check_rehydrate(&terminal.registry, &request).unwrap();
    let snapshot = terminal.mirror.snapshot();
    let lease_request = requests::lease_for(&plan, &snapshot);
    let lease = SnapshotLease {
        token: "lease".into(),
        session: 1,
        after_sequence: 900,
        expires_at_ms: 123,
    };
    let reply = requests::rehydrate_reply(&plan, &snapshot, &Ok(lease));
    assert_eq!(reply["data"]["uptoSeq"], lease_request["afterSequence"]);
    assert_eq!(reply["data"]["uptoSeq"], 900);
    assert_eq!(reply["data"]["frame"]["outputSequence"], 900);
    assert_eq!(reply["data"]["eventSequence"], 9);
    assert_eq!(reply["data"]["paint"], "c2NyZWVu");
    assert_eq!(reply["data"]["leaseToken"], "lease");
    assert_eq!(reply["data"]["leaseExpiresAtMs"], 123);
    let failed = requests::rehydrate_reply(&plan, &snapshot, &Err("gone".into()));
    assert_eq!((&failed["code"], &failed["message"]), (&json("\"LEASE_FAILED\""), &json("\"gone\"")));
    let unknown = json(r#"{ "window": "window", "pane": "other" }"#);
    assert_eq!(
        requests::check_rehydrate(&terminal.registry, &unknown).unwrap_err()["code"],
        "NOT_FOUND"
    );
    assert_eq!(
        requests::check_rehydrate(&terminal.registry, &json("{}")).unwrap_err()["code"],
        "INVALID_PARAMS"
    );
}

#[test]
fn sessions_are_ensured_by_observer_or_by_listing() {
    let mut registry = Registry::new();
    let ensure = requests::parse_ensure(&json(
        r#"{ "window": "window", "pane": "pane", "cols": 0, "observerToken": "t" }"#,
    ))
    .unwrap();
    assert_eq!((ensure.cols, ensure.rows), (1, 24));
    assert_eq!(ensure.observer_token.as_deref(), Some("t"));
    assert!(requests::parse_ensure(&json("{}")).is_err());

    let answer = |step: EnsureStep| match step {
        EnsureStep::Answer(value) => value,
        _ => panic!("not answered yet"),
    };
    let absent = answer(requests::ensure_prepared(&ensure, &None));
    assert_eq!(absent["code"], "OBSERVER_NOT_READY");
    let closed = answer(requests::ensure_prepared(&ensure, &Some(Err("closed".into()))));
    assert_eq!(closed["code"], "OBSERVER_OPEN_FAILED");
    let opening = match requests::ensure_prepared(&ensure, &Some(Ok(start(7)))) {
        EnsureStep::Open(opening) => opening,
        _ => panic!("opens"),
    };
    assert!(opening.restore, "a new generation replays the archive");

    let down = answer(requests::ensure_listed(&registry, &ensure, &Err("down".into())));
    assert_eq!(down["code"], "PTY_UNAVAILABLE");
    let none = answer(requests::ensure_listed(&registry, &ensure, &Ok(Vec::new())));
    assert_eq!(none["code"], "NOT_FOUND");
    let other = SessionInfo { window_label: None, session: 9, ..info() };
    let listed = match requests::ensure_listed(&registry, &ensure, &Ok(vec![other, info()])) {
        EnsureStep::Observe(listed) => listed,
        _ => panic!("observes"),
    };
    assert_eq!(listed, info());
    let failed = answer(requests::ensure_observed(info(), &Err("refused".into())));
    assert_eq!(failed["code"], "SUBSCRIBE_FAILED");
    match requests::ensure_observed(listed, &Ok(start(7))) {
        EnsureStep::Open(opening) => assert!(!opening.restore, "reattaching never replays"),
        _ => panic!("opens"),
    }

    let answered = requests::open_session(&mut registry, opening, 3, ensure.cols, ensure.rows);
    assert_eq!(answered["data"], json(r#"{ "pane": "pane", "subscribed": true }"#));
    let state = registry.get(&key()).unwrap();
    assert_eq!((state.mirror, state.frame_sequence, state.rows), (3, 7, 24));
    let again = answer(requests::ensure_listed(&registry, &ensure, &Ok(vec![info()])));
    assert_eq!(again["data"]["subscribed"], false);
}

#[test]
fn observers_are_prepared_for_a_window() {
    assert_eq!(
        requests::parse_prepare(&json(r#"{ "window": "w", "pane": "p" }"#)),
        Ok(("w".to_string(), "p".to_string()))
    );
    let refused = requests::parse_prepare(&json(r#"{ "pane": "p" }"#)).unwrap_err();
    assert_eq!(refused["message"], "window is required");
    let reply = requests::prepare_reply(&PrepareOutcome::Prepared("t".into()));
    assert_eq!(reply["data"], json(r#"{ "observerToken": "t" }"#));
    let failed = requests::prepare_reply(&PrepareOutcome::PrepareFailed("x".into()));
    assert_eq!(failed["code"], "OBSERVER_PREPARE_FAILED");
    let failed = requests::prepare_reply(&PrepareOutcome::StreamFailed("x".into()));
    assert_eq!(failed["code"], "OBSERVER_STREAM_FAILED");
}

#[test]
fn sizes_are_checked_before_they_are_taken() {
    let registry = test_registry(1, 0, (4, 1));
    let sized = |cols: &str, rows: &str| {
        json(&format!(
            r#"{{ "window": "window", "pane": "pane", "cols": {cols}, "rows": {rows} }}"#
        ))
    };
    let plan = requests::check_resize(&registry, &sized("65537", "30")).unwrap();
    let mut mirror = scripted(0, false);
    let reply = requests::resize(&plan, &mut mirror);
    assert_eq!(reply["data"], json(r#"{ "cols": 65537, "rows": 30 }"#));
    assert_eq!(mirror.sizes, vec![(1, 30)]);
    let message = |value: Value| value["message"].as_str().unwrap().to_string();
    assert_eq!(
        message(requests::check_resize(&registry, &sized("0", "30")).unwrap_err()),
        "positive cols are required"
    );
    assert_eq!(
        message(requests::check_resize(&registry, &sized("3", "-1")).unwrap_err()),
        "positive rows are required"
    );
    assert_eq!(
        message(requests::check_wait_size(&registry, &sized("65536", "30")).unwrap_err()),
        "valid cols are required"
    );
    assert_eq!(
        message(requests::check_wait_size(&registry, &sized("80", "0")).unwrap_err()),
        "valid rows are required"
    );
    let plan = requests::check_wait_size(&registry, &sized("80", "24")).unwrap();
    assert_eq!(plan.timeout_ms, 10_000);
    assert_eq!(requests::wait_size(&plan, 80, 25)["code"], "TIMEOUT");
    assert_eq!(
        requests::check_resize(&Registry::new(), &sized("3", "3")).unwrap_err()["code"],
        "NOT_FOUND"
    );
}

#[test]
fn archives_are_answered_and_refused() {
    let registry = test_registry(1, 0, (4, 1));
    let request = json(r#"{ "window": "window", "pane": "pane" }"#);
    assert_eq!(
        requests::plan_archive(&registry, &request, false).unwrap_err()["code"],
        "CHECKPOINT_UNAVAILABLE"
    );
    assert_eq!(
        requests::plan_archive(&Registry::new(), &request, true).unwrap_err()["code"],
        "NOT_FOUND"
    );
    let plan = requests::plan_archive(&registry, &request, true).unwrap();
    assert_eq!(plan.generation, 1);
    let mut mirror = SourcedMirror::new(scripted(0, false), 12);
    mirror.mirror.feed(b"cold");
    let checkpoint = mirror.archive(plan.generation);
    let reply = requests::archive_reply(&checkpoint, &Ok(()));
    assert_eq!(reply["data"], json(r#"{ "generation": 1, "uptoSeq": 12, "bytes": 4 }"#));
    let failed = requests::archive_reply(&checkpoint, &Err("full".into()));
    assert_eq!(failed["code"], "CHECKPOINT_WRITE_FAILED");

    let found = ArchivedOutcome::Found(ArchivedCheckpoint {
        generation: 4,
        sequence: 20,
        paint: b"hi".to_vec(),
        frame: empty_frame(0, 0, false),
    });
    let reply = requests::archived_reply(&found);
    assert_eq!(reply["data"]["paint"], "aGk=");
    assert_eq!(reply["data"]["generation"], 4);
    assert_eq!(reply["data"]["uptoSeq"], 20);
    assert_eq!(reply["data"]["frame"]["outputSequence"], 20);
    assert_eq!(requests::archived_reply(&ArchivedOutcome::Missing)["code"], "NOT_FOUND");
    let corrupt = requests::archived_reply(&ArchivedOutcome::Corrupt("bad".into()));
    assert_eq!(corrupt["code"], "CHECKPOINT_CORRUPT");
    assert_eq!(requests::retire_reply(&Ok(true))["data"]["removed"], true);
    assert_eq!(
        requests::retire_reply(&Err("x".into()))["code"],
        "CHECKPOINT_REMOVE_FAILED"
    );
    assert_eq!(requests::check_archive(&json("{}"), true).unwrap_err()["code"], "INVALID_PARAMS");
    assert_eq!(requests::checkpoint_window(&key()), "window");
    assert_eq!(
        requests::checkpoint_window(&PaneKey { window: None, pane: "p".into() }),
        "__no-window__"
    );
}

#[test]
fn events_are_gathered_into_one_write() {
    let dirty = |sequence| CheckpointEvent::Dirty { generation: 4, sequence };
    let mut gathered = Gathered::begin(dirty(10));
    assert_eq!(gathered.next(0), Work::Gather(250));
    assert_eq!(gathered.receive(Arrival::Event(dirty(20)), 100), Work::Gather(150));
    assert_eq!(
        gathered.receive(Arrival::TimedOut, 250),
        Work::Write { generation: 4, sequence: 20, last: false }
    );
    assert_eq!(
        gathered.receive(
            Arrival::Event(CheckpointEvent::Final { generation: 4, sequence: 30 }),
            5
        ),
        Work::Write { generation: 4, sequence: 30, last: true }
    );
    let mut left = Gathered::begin(dirty(10));
    assert_eq!(left.next(250), Work::Write { generation: 4, sequence: 10, last: false });
    assert_eq!(left.receive(Arrival::Disconnected, 5), Work::End);
}

#[test]
fn a_service_starts_from_two_absolute_roots() {
    let arguments = |list: &[&str]| list.iter().map(|text| text.to_string()).collect::<Vec<_>>();
    let roots = runtime::roots_in(&arguments(&[
        "-home", "/first", "noise", "-runtime", "/run", "-home", "/second",
    ]));
    assert_eq!(roots.home.as_deref(), Some("/second"));
    assert_eq!(roots.runtime_root.as_deref(), Some("/run"));
    assert_eq!(
        runtime::parse_roots(roots, true, true),
        Ok(("/second".to_string(), "/run".to_string()))
    );
    let ended = runtime::roots_in(&arguments(&["-home", "/a", "-home"]));
    assert_eq!(ended.home, None);
    assert_eq!(
        runtime::parse_roots(ended, false, true).unwrap_err(),
        "-home requires an absolute path"
    );
    let roots = runtime::roots_in(&arguments(&["-home", "/a"]));
    assert_eq!(
        runtime::parse_roots(roots, true, false).unwrap_err(),
        "-runtime requires an absolute path"
    );
}

#[test]
fn tokens_are_kept_or_made_anew() {
    assert_eq!(runtime::kept_token(Some(" t \n")).as_deref(), Some("t"));
    assert_eq!(runtime::kept_token(Some("  ")), None);
    assert_eq!(runtime::kept_token(None), None);
    let token = runtime::new_token().unwrap();
    assert_eq!(token.len(), 64);
    assert!(token.bytes().all(|byte| byte.is_ascii_digit() || (b'a'..=b'f').contains(&byte)));
    assert_ne!(token, runtime::new_token().unwrap());
    assert_eq!(runtime::token_from(Ok(vec![0x00, 0x9f, 0xff])).unwrap(), "009fff");
    assert_eq!(
        runtime::token_from(Err("no source".to_string())).unwrap_err(),
        "random token generation failed: no source"
    );
    assert_eq!(runtime::service_token_path("/run", "me"), "/run/me-p1.token");
    assert_eq!(runtime::temporary_token_path("/run", "me"), "/run/me-p1.tmp");
}

#[test]
fn a_service_announces_itself_and_finds_its_peer() {
    assert_eq!(
        runtime::announcement("/run/me.sock", "t", None),
        json(r#"{ "protocol": 2, "socket": "/run/me.sock", "token": "t" }"#)
    );
    assert_eq!(
        runtime::announcement("/run/me.sock", "t", Some("me 3")),
        json(
            r#"{ "protocol": 2, "socket": "/run/me.sock", "token": "t", "processLabel": "me 3" }"#
        )
    );
    let bindings = json(r#"{ "soksak-sidecar-pty": "pty-7" }"#);
    assert_eq!(runtime::pty_process(&bindings).as_deref(), Some("pty-7"));
    assert_eq!(runtime::pty_process(&json("{}")), None);
    let request = runtime::rehydrate_request(None, "p");
    assert_eq!(request["command"], "terminal.rehydrate");
    assert_eq!(request["args"]["request"], json(r#"{ "window": null, "pane": "p" }"#));
}

#[test]
fn only_a_socket_nobody_listens_on_is_taken_away() {
    assert_eq!(runtime::reclaim(Endpoint::Left), Reclaim::RemoveAndListen);
    assert_eq!(runtime::reclaim(Endpoint::Live), Reclaim::InUse);
    assert_eq!(runtime::reclaim(Endpoint::NotASocket), Reclaim::AlreadyExists);
    assert_eq!(runtime::reclaim(Endpoint::Nothing), Reclaim::Listen);
    assert_eq!(runtime::reclaim(Endpoint::Unknown), Reclaim::Fail);
}

#[test]
fn output_of_a_session_that_is_not_listed_reaches_no_mirror() {
    let output = ObservationFrame::Output {
        event_sequence: 1,
        from_sequence: 0,
        through_sequence: 4,
        bytes: b"late".to_vec(),
    };
    let resize = ObservationFrame::Resize { event_sequence: 2, cols: 9, rows: 3 };
    let listed = test_registry(1, 0, (4, 1));
    assert!(listed.reaches(&key(), &output) && listed.reaches(&key(), &resize));
    let mut empty = Registry::new();
    assert!(!empty.reaches(&key(), &output));
    assert!(empty.reaches(&key(), &resize));
    let mut mirror = SourcedMirror::new(scripted(0, false), 0);
    let applied = apply_observation(&output, &mut mirror, &mut empty, &key());
    assert_eq!(applied, Applied { goes_on: false, event: None });
    assert!(mirror.mirror.paint.is_empty());
    assert!(!apply_observation(&resize, &mut mirror, &mut empty, &key()).goes_on);
    assert_eq!(mirror.mirror.sizes, vec![(9, 3)]);
}
