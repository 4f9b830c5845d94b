//! What the client of the installed PTY sidecar says and understands.
//!
//! The sidecar speaks one control-envelope socket. `pty.observe` returns one response and then
//! framed source events on that connection.

use vstd::prelude::*;

use serde_json::Value;

use crate::bytes;
use crate::json::{self, JsonView};
use crate::proto;
use crate::text;

verus! {

/// The token a token file holds, unless it is blank.
pub fn token_in(contents: &str) -> (token: Option<String>)
    ensures
        text::text_of(token) == if text::trimmed(contents@).len() == 0 {
            None
        } else {
            Some(text::trimmed(contents@))
        },
{
    let token = text::trim(contents);
    if token.unicode_len() == 0 {
        None
    } else {
        Some(String::from_str(token))
    }
}

/// The reply a line spells, or why it is none.
pub fn reply_in(line: &str) -> (reply: Result<Value, String>)
    ensures
        proto::outcome(reply) == json::json_parsed(text::trimmed(line@)),
{
    json::parse(text::trim(line))
}

/// The line that sends a value.
pub fn line_of(value: &Value) -> (line: String)
    ensures
        line@ == json::json_text(json::json_of(*value)).push('\n'),
{
    let mut line = json::print(value);
    line.push('\n');
    line
}

/// The id of the request after `sent` others.
pub fn request_id(sent: u64) -> (id: String)
    requires
        sent < u64::MAX,
    ensures
        id@ == "terminal-state-"@ + text::decimal((sent + 1) as nat),
{
    let mut id = String::from_str("terminal-state-");
    id.push_str(text::decimal_text(sent + 1).as_str());
    id
}

/// What became of a request on a connection.
#[derive(Debug, Clone, Copy, PartialEq, Eq, Structural)]
pub enum Delivery {
    /// A reply arrived.
    Replied,
    /// The connection had ended.
    Ended,
    /// It failed in another way.
    Failed,
}

/// What a client does next about a request.
#[derive(Debug, Clone, Copy, PartialEq, Eq, Structural)]
pub enum NextStep {
    /// The reply, or the failure, is handed back.
    Return,
    /// The client connects again and sends the request once more.
    Reconnect,
}

/// A request on a connection that the sidecar already ended is not a failure to hand back: the
/// client connects again, once.
pub fn next_step(reconnected: bool, delivery: Delivery) -> (step: NextStep)
    ensures
        step == if delivery == Delivery::Ended && !reconnected {
            NextStep::Reconnect
        } else {
            NextStep::Return
        },
{
    if delivery == Delivery::Ended && !reconnected {
        NextStep::Reconnect
    } else {
        NextStep::Return
    }
}

#[derive(Debug, PartialEq, Eq)]
pub struct SessionInfo {
    pub session: u64,
    pub generation: u64,
    pub pane_id: String,
    pub window_label: Option<String>,
}

/// A session as a mathematical value.
pub struct SessionView {
    pub session: u64,
    pub generation: u64,
    pub pane_id: Seq<char>,
    pub window_label: Option<Seq<char>>,
}

impl View for SessionInfo {
    type V = SessionView;

    open spec fn view(&self) -> SessionView {
        SessionView {
            session: self.session,
            generation: self.generation,
            pane_id: self.pane_id@,
            window_label: text::text_of(self.window_label),
        }
    }
}

impl Clone for SessionInfo {
    fn clone(&self) -> (copy: Self)
        ensures
            copy@ == self@,
    {
        SessionInfo {
            session: self.session,
            generation: self.generation,
            pane_id: String::from_str(self.pane_id.as_str()),
            window_label: text::copy_optional_text(&self.window_label),
        }
    }
}

/// The session a value describes: it needs a session, a generation and a pane.
pub open spec fn session_in(value: JsonView) -> Option<SessionView> {
    match (
        json::unsigned_in(json::member(value, "session"@)),
        json::unsigned_in(json::member(value, "generation"@)),
        json::text_in(json::member(value, "paneId"@)),
    ) {
        (Some(session), Some(generation), Some(pane_id)) => Some(
            SessionView {
                session,
                generation,
                pane_id,
                window_label: json::text_in(json::member(value, "windowLabel"@)),
            },
        ),
        _ => None,
    }
}

/// The session `value` describes.
pub fn parse_session_info(value: &Value) -> (info: Option<SessionInfo>)
    ensures
        match info {
            Some(info) => session_in(json::json_of(*value)) == Some(info@),
            None => session_in(json::json_of(*value)) is None,
        },
{
    let session: u64 = match json::unsigned_at(value, "session") {
        Some(session) => session,
        None => return None,
    };
    let generation: u64 = match json::unsigned_at(value, "generation") {
        Some(generation) => generation,
        None => return None,
    };
    match json::text_at(value, "paneId") {
        Some(pane_id) => Some(
            SessionInfo {
                session,
                generation,
                pane_id,
                window_label: json::text_at(value, "windowLabel"),
            },
        ),
        None => None,
    }
}

/// The sessions that the values of a list describe; values that describe none are passed over.
pub open spec fn sessions_in(values: Seq<JsonView>) -> Seq<SessionView>
    decreases values.len(),
{
    if values.len() == 0 {
        Seq::empty()
    } else {
        let before = sessions_in(values.drop_last());
        match session_in(values.last()) {
            Some(session) => before.push(session),
            None => before,
        }
    }
}

/// The views of a list of sessions.
pub open spec fn session_views(sessions: Seq<SessionInfo>) -> Seq<SessionView> {
    Seq::new(sessions.len(), |i: int| sessions[i]@)
}

/// The sessions in the data of a `pty.sessions` reply.
pub fn list_sessions(data: &Value) -> (sessions: Result<Vec<SessionInfo>, String>)
    ensures
        match json::json_of(*data) {
            JsonView::Array(values) => sessions matches Ok(sessions) && session_views(sessions@)
                == sessions_in(values),
            _ => sessions matches Err(message) && message@
                == "pty.sessions did not return a session array"@,
        },
{
    match json::as_array(data) {
        None => Err(String::from_str("pty.sessions did not return a session array")),
        Some(values) => {
            let ghost all = json::jsons_of(values@);
            let mut sessions: Vec<SessionInfo> = Vec::new();
            let mut i: usize = 0;
            assert(all.take(0) =~= Seq::<JsonView>::empty());
            assert(session_views(sessions@) =~= sessions_in(all.take(0)));
            while i < values.len()
                invariant
                    all == json::jsons_of(values@),
                    i <= values@.len(),
                    session_views(sessions@) == sessions_in(all.take(i as int)),
                decreases values@.len() - i,
            {
                let ghost before = session_views(sessions@);
                assert(all.take(i + 1).drop_last() =~= all.take(i as int));
                assert(all.take(i + 1).last() == json::json_of(values@[i as int]));
                if let Some(info) = parse_session_info(&values[i]) {
                    let ghost view = info@;
                    sessions.push(info);
                    assert(session_views(sessions@) =~= before.push(view));
                }
                i = i + 1;
            }
            assert(all.take(i as int) =~= all);
            Ok(sessions)
        },
    }
}

#[derive(Debug, PartialEq, Eq)]
pub struct SnapshotLease {
    pub token: String,
    pub session: u64,
    pub after_sequence: u64,
    pub expires_at_ms: i64,
}

impl Clone for SnapshotLease {
    fn clone(&self) -> (copy: Self)
        ensures
            copy@ == self@,
    {
        SnapshotLease {
            token: String::from_str(self.token.as_str()),
            session: self.session,
            after_sequence: self.after_sequence,
            expires_at_ms: self.expires_at_ms,
        }
    }
}

/// A lease as a mathematical value.
pub struct LeaseView {
    pub token: Seq<char>,
    pub session: u64,
    pub after_sequence: u64,
    pub expires_at_ms: i64,
}

impl View for SnapshotLease {
    type V = LeaseView;

    open spec fn view(&self) -> LeaseView {
        LeaseView {
            token: self.token@,
            session: self.session,
            after_sequence: self.after_sequence,
            expires_at_ms: self.expires_at_ms,
        }
    }
}

/// The lease in the data of a `pty.lease` reply, or the first thing that is missing.
pub open spec fn lease_in(data: JsonView) -> Result<LeaseView, Seq<char>> {
    match json::text_in(json::member(data, "token"@)) {
        None => Err("pty.lease returned no token"@),
        Some(token) => match json::unsigned_in(json::member(data, "session"@)) {
            None => Err("pty.lease returned no session"@),
            Some(session) => match json::unsigned_in(json::member(data, "afterSequence"@)) {
                None => Err("pty.lease returned no source sequence"@),
                Some(after_sequence) => match json::signed_in(json::member(data, "expiresAtMs"@)) {
                    None => Err("pty.lease returned no expiry"@),
                    Some(expires_at_ms) => Ok(
                        LeaseView { token, session, after_sequence, expires_at_ms },
                    ),
                },
            },
        },
    }
}

/// The request for a lease that continues after an output sequence.
pub open spec fn lease_request_json(session: u64, after_sequence: u64) -> JsonView {
    JsonView::Object(
        map![
            "session"@ => JsonView::Unsigned(session),
            "afterSequence"@ => JsonView::Unsigned(after_sequence),
        ],
    )
}

/// The request for a lease that continues after an output sequence.
pub fn lease_request(session: u64, after_sequence: u64) -> (value: Value)
    ensures
        json::json_of(value) == lease_request_json(session, after_sequence),
{
    let mut members = json::new_members();
    json::put(&mut members, "session", json::unsigned(session));
    json::put(&mut members, "afterSequence", json::unsigned(after_sequence));
    json::object(members)
}

/// The lease in the data of a `pty.lease` reply.
pub fn lease(data: &Value) -> (lease: Result<SnapshotLease, String>)
    ensures
        match lease {
            Ok(lease) => lease_in(json::json_of(*data)) == Ok::<LeaseView, Seq<char>>(lease@),
            Err(message) => lease_in(json::json_of(*data)) == Err::<LeaseView, Seq<char>>(message@),
        },
{
    let token = match json::text_at(data, "token") {
        Some(token) => token,
        None => return Err(String::from_str("pty.lease returned no token")),
    };
    let session: u64 = match json::unsigned_at(data, "session") {
        Some(session) => session,
        None => return Err(String::from_str("pty.lease returned no session")),
    };
    let after_sequence: u64 = match json::unsigned_at(data, "afterSequence") {
        Some(sequence) => sequence,
        None => return Err(String::from_str("pty.lease returned no source sequence")),
    };
    match json::signed_at(data, "expiresAtMs") {
        Some(expires_at_ms) => Ok(SnapshotLease { token, session, after_sequence, expires_at_ms }),
        None => Err(String::from_str("pty.lease returned no expiry")),
    }
}

/// The request that prepares an observer.
pub fn prepare_observer_request(window_label: &str, pane_id: &str, provider: &str) -> (value: Value)
    ensures
        json::json_of(value) == JsonView::Object(
            map![
                "windowLabel"@ => JsonView::Text(window_label@),
                "paneId"@ => JsonView::Text(pane_id@),
                "provider"@ => JsonView::Text(provider@),
            ],
        ),
{
    let mut members = json::new_members();
    json::put(&mut members, "windowLabel", json::string(window_label));
    json::put(&mut members, "paneId", json::string(pane_id));
    json::put(&mut members, "provider", json::string(provider));
    json::object(members)
}

/// The token in the data of a `pty.prepareObserver` reply.
pub fn prepare_observer(data: &Value) -> (token: Result<String, String>)
    ensures
        match json::text_in(json::member(json::json_of(*data), "token"@)) {
            Some(expected) => token matches Ok(token) && token@ == expected,
            None => token matches Err(message) && message@
                == "pty.prepareObserver returned no token"@,
        },
{
    match json::text_at(data, "token") {
        Some(token) => Ok(token),
        None => Err(String::from_str("pty.prepareObserver returned no token")),
    }
}

/// A request that names a token.
pub fn token_request(token: &str) -> (value: Value)
    ensures
        json::json_of(value) == JsonView::Object(map!["token"@ => JsonView::Text(token@)]),
{
    let mut members = json::new_members();
    json::put(&mut members, "token", json::string(token));
    json::object(members)
}

/// A request that names a session.
pub fn session_request(session: u64) -> (value: Value)
    ensures
        json::json_of(value) == JsonView::Object(map!["session"@ => JsonView::Unsigned(session)]),
{
    let mut members = json::new_members();
    json::put(&mut members, "session", json::unsigned(session));
    json::object(members)
}

/// Where an observation starts.
#[derive(Debug, Clone, Copy, PartialEq, Eq, Structural)]
pub struct ObservationStart {
    pub session: u64,
    pub generation: u64,
    pub start_event_sequence: u64,
    pub start_output_sequence: u64,
}

/// Where the observation in the data of a `pty.observe` reply starts, or the first thing that is
/// missing.
pub open spec fn observation_start_in(data: JsonView) -> Result<ObservationStart, Seq<char>> {
    match json::unsigned_in(json::member(data, "session"@)) {
        None => Err("observe response has no session"@),
        Some(session) => match json::unsigned_in(json::member(data, "generation"@)) {
            None => Err("observe response has no generation"@),
            Some(generation) => match json::unsigned_in(json::member(data, "startEventSequence"@)) {
                None => Err("observe response has no startEventSequence"@),
                Some(start_event_sequence) => match json::unsigned_in(
                    json::member(data, "startOutputSequence"@),
                ) {
                    None => Err("observe response has no startOutputSequence"@),
                    Some(start_output_sequence) => Ok(
                        ObservationStart {
                            session,
                            generation,
                            start_event_sequence,
                            start_output_sequence,
                        },
                    ),
                },
            },
        },
    }
}

/// Where the observation in the data of a `pty.observe` reply starts.
pub fn observation_start(data: &Value) -> (start: Result<ObservationStart, String>)
    ensures
        match start {
            Ok(start) => observation_start_in(json::json_of(*data)) == Ok::<
                ObservationStart,
                Seq<char>,
            >(start),
            Err(message) => observation_start_in(json::json_of(*data)) == Err::<
                ObservationStart,
                Seq<char>,
            >(message@),
        },
{
    let session: u64 = match json::unsigned_at(data, "session") {
        Some(session) => session,
        None => return Err(String::from_str("observe response has no session")),
    };
    let generation: u64 = match json::unsigned_at(data, "generation") {
        Some(generation) => generation,
        None => return Err(String::from_str("observe response has no generation")),
    };
    let start_event_sequence: u64 = match json::unsigned_at(data, "startEventSequence") {
        Some(sequence) => sequence,
        None => return Err(String::from_str("observe response has no startEventSequence")),
    };
    match json::unsigned_at(data, "startOutputSequence") {
        Some(start_output_sequence) => Ok(
            ObservationStart {
                session,
                generation,
                start_event_sequence,
                start_output_sequence,
            },
        ),
        None => Err(String::from_str("observe response has no startOutputSequence")),
    }
}

/// Where a live stream starts.
#[derive(Debug, Clone, Copy, PartialEq, Eq, Structural)]
pub struct LiveStart {
    pub session: u64,
    pub start_sequence: u64,
}

/// Where the stream in the data of a `pty.attachLease` reply starts, or the first thing that is
/// missing.
pub open spec fn live_start_in(data: JsonView) -> Result<LiveStart, Seq<char>> {
    match json::unsigned_in(json::member(data, "session"@)) {
        None => Err("attach lease returned no session"@),
        Some(session) => match json::unsigned_in(json::member(data, "startSeq"@)) {
            None => Err("attach lease returned no start sequence"@),
            Some(start_sequence) => Ok(LiveStart { session, start_sequence }),
        },
    }
}

/// Where the stream in the data of a `pty.attachLease` reply starts.
pub fn live_start(data: &Value) -> (start: Result<LiveStart, String>)
    ensures
        match start {
            Ok(start) => live_start_in(json::json_of(*data)) == Ok::<LiveStart, Seq<char>>(start),
            Err(message) => live_start_in(json::json_of(*data)) == Err::<LiveStart, Seq<char>>(
                message@,
            ),
        },
{
    let session: u64 = match json::unsigned_at(data, "session") {
        Some(session) => session,
        None => return Err(String::from_str("attach lease returned no session")),
    };
    match json::unsigned_at(data, "startSeq") {
        Some(start_sequence) => Ok(LiveStart { session, start_sequence }),
        None => Err(String::from_str("attach lease returned no start sequence")),
    }
}

/// One event of an observed session.
#[derive(Debug, PartialEq, Eq)]
pub enum ObservationFrame {
    Output { event_sequence: u64, from_sequence: u64, through_sequence: u64, bytes: Vec<u8> },
    Gap {
        from_event_sequence: u64,
        through_event_sequence: u64,
        from_sequence: u64,
        through_sequence: u64,
    },
    Resize { event_sequence: u64, cols: u16, rows: u16 },
    End { event_sequence: u64, exit_code: i32 },
    Opened { session: u64, generation: u64, event_sequence: u64, output_sequence: u64 },
}

/// An event as a mathematical value.
pub enum ObservationView {
    Output { event_sequence: u64, from_sequence: u64, through_sequence: u64, bytes: Seq<u8> },
    Gap {
        from_event_sequence: u64,
        through_event_sequence: u64,
        from_sequence: u64,
        through_sequence: u64,
    },
    Resize { event_sequence: u64, cols: u16, rows: u16 },
    End { event_sequence: u64, exit_code: i32 },
    Opened { session: u64, generation: u64, event_sequence: u64, output_sequence: u64 },
}

impl View for ObservationFrame {
    type V = ObservationView;

    open spec fn view(&self) -> ObservationView {
        match *self {
            ObservationFrame::Output {
                event_sequence,
                from_sequence,
                through_sequence,
                bytes,
            } => ObservationView::Output {
                event_sequence,
                from_sequence,
                through_sequence,
                bytes: bytes@,
            },
            ObservationFrame::Gap {
                from_event_sequence,
                through_event_sequence,
                from_sequence,
                through_sequence,
            } => ObservationView::Gap {
                from_event_sequence,
                through_event_sequence,
                from_sequence,
                through_sequence,
            },
            ObservationFrame::Resize { event_sequence, cols, rows } => ObservationView::Resize {
                event_sequence,
                cols,
                rows,
            },
            ObservationFrame::End { event_sequence, exit_code } => ObservationView::End {
                event_sequence,
                exit_code,
            },
            ObservationFrame::Opened { session, generation, event_sequence, output_sequence } =>
            ObservationView::Opened { session, generation, event_sequence, output_sequence },
        }
    }
}

impl Clone for ObservationFrame {
    fn clone(&self) -> (copy: Self)
        ensures
            copy@ == self@,
    {
        match self {
            ObservationFrame::Output {
                event_sequence,
                from_sequence,
                through_sequence,
                bytes,
            } => ObservationFrame::Output {
                event_sequence: *event_sequence,
                from_sequence: *from_sequence,
                through_sequence: *through_sequence,
                bytes: text::copy_bytes(bytes.as_slice()),
            },
            ObservationFrame::Gap {
                from_event_sequence,
                through_event_sequence,
                from_sequence,
                through_sequence,
            } => ObservationFrame::Gap {
                from_event_sequence: *from_event_sequence,
                through_event_sequence: *through_event_sequence,
                from_sequence: *from_sequence,
                through_sequence: *through_sequence,
            },
            ObservationFrame::Resize { event_sequence, cols, rows } => ObservationFrame::Resize {
                event_sequence: *event_sequence,
                cols: *cols,
                rows: *rows,
            },
            ObservationFrame::End { event_sequence, exit_code } => ObservationFrame::End {
                event_sequence: *event_sequence,
                exit_code: *exit_code,
            },
            ObservationFrame::Opened { session, generation, event_sequence, output_sequence } =>
            ObservationFrame::Opened {
                session: *session,
                generation: *generation,
                event_sequence: *event_sequence,
                output_sequence: *output_sequence,
            },
        }
    }
}

/// The 64-bit number at a place of a payload.
pub open spec fn word(payload: Seq<u8>, at: int) -> u64 {
    bytes::number_at(payload, at, 8) as u64
}

/// The event a frame carries: every kind has its own layout, all numbers big-endian.
pub open spec fn observed(kind: u8, payload: Seq<u8>) -> Option<ObservationView> {
    if kind == proto::OBSERVATION_FRAME_OUTPUT && payload.len() >= 24 {
        Some(
            ObservationView::Output {
                event_sequence: word(payload, 0),
                from_sequence: word(payload, 8),
                through_sequence: word(payload, 16),
                bytes: payload.skip(24),
            },
        )
    } else if kind == proto::OBSERVATION_FRAME_GAP && payload.len() == 32 {
        Some(
            ObservationView::Gap {
                from_event_sequence: word(payload, 0),
                through_event_sequence: word(payload, 8),
                from_sequence: word(payload, 16),
                through_sequence: word(payload, 24),
            },
        )
    } else if kind == proto::OBSERVATION_FRAME_RESIZE && payload.len() == 12 {
        Some(
            ObservationView::Resize {
                event_sequence: word(payload, 0),
                cols: bytes::number_at(payload, 8, 2) as u16,
                rows: bytes::number_at(payload, 10, 2) as u16,
            },
        )
    } else if kind == proto::OBSERVATION_FRAME_END && payload.len() == 12 {
        Some(
            ObservationView::End {
                event_sequence: word(payload, 0),
                exit_code: bytes::two_complement(bytes::number_at(payload, 8, 4)) as i32,
            },
        )
    } else if kind == proto::OBSERVATION_FRAME_OPENED && payload.len() == 32 {
        Some(
            ObservationView::Opened {
                session: word(payload, 0),
                generation: word(payload, 8),
                event_sequence: word(payload, 16),
                output_sequence: word(payload, 24),
            },
        )
    } else {
        None
    }
}

/// What is said of a frame that carries no event.
pub open spec fn malformed(kind: u8, length: nat) -> Seq<char> {
    "invalid PTY observation frame kind="@ + text::decimal(kind as nat) + " length="@
        + text::decimal(length)
}

/// The event a frame carries, or why it carries none.
pub fn decode_observation_frame(kind: u8, payload: &[u8]) -> (frame: Result<
    ObservationFrame,
    String,
>)
    ensures
        match observed(kind, payload@) {
            Some(event) => frame matches Ok(frame) && frame@ == event,
            None => frame matches Err(message) && message@ == malformed(kind, payload@.len()),
        },
{
    let length: usize = payload.len();
    if kind == proto::OBSERVATION_FRAME_OUTPUT && length >= 24 {
        assert(payload@.subrange(24, length as int) =~= payload@.skip(24));
        Ok(
            ObservationFrame::Output {
                event_sequence: bytes::u64_at(payload, 0),
                from_sequence: bytes::u64_at(payload, 8),
                through_sequence: bytes::u64_at(payload, 16),
                bytes: text::copy_bytes(vstd::slice::slice_subrange(payload, 24, length)),
            },
        )
    } else if kind == proto::OBSERVATION_FRAME_GAP && length == 32 {
        Ok(
            ObservationFrame::Gap {
                from_event_sequence: bytes::u64_at(payload, 0),
                through_event_sequence: bytes::u64_at(payload, 8),
                from_sequence: bytes::u64_at(payload, 16),
                through_sequence: bytes::u64_at(payload, 24),
            },
        )
    } else if kind == proto::OBSERVATION_FRAME_RESIZE && length == 12 {
        Ok(
            ObservationFrame::Resize {
                event_sequence: bytes::u64_at(payload, 0),
                cols: bytes::u16_at(payload, 8),
                rows: bytes::u16_at(payload, 10),
            },
        )
    } else if kind == proto::OBSERVATION_FRAME_END && length == 12 {
        Ok(
            ObservationFrame::End {
                event_sequence: bytes::u64_at(payload, 0),
                exit_code: bytes::i32_at(payload, 8),
            },
        )
    } else if kind == proto::OBSERVATION_FRAME_OPENED && length == 32 {
        Ok(
            ObservationFrame::Opened {
                session: bytes::u64_at(payload, 0),
                generation: bytes::u64_at(payload, 8),
                event_sequence: bytes::u64_at(payload, 16),
                output_sequence: bytes::u64_at(payload, 24),
            },
        )
    } else {
        let mut message = String::from_str("invalid PTY observation frame kind=");
        message.push_str(text::decimal_text(kind as u64).as_str());
        message.push_str(" length=");
        message.push_str(text::decimal_text(length as u64).as_str());
        Err(message)
    }
}

/// The kind of a frame and the length of its payload, from the five bytes ahead of it.
pub fn frame_header(header: &[u8; 5]) -> (kind_and_length: (u8, u32))
    ensures
        kind_and_length.0 == header@[0],
        kind_and_length.1 == bytes::number_at(header@, 1, 4),
{
    (header[0], bytes::u32_at(vstd::array::array_as_slice(header), 1))
}

/// Where a prepared observation starts, from its first event: it has to say that the session
/// opened.
pub fn receive_opened(first: Option<ObservationFrame>) -> (start: Result<ObservationStart, String>)
    ensures
        match first {
            Some(ObservationFrame::Opened { session, generation, event_sequence, output_sequence }) =>
            start == Ok::<ObservationStart, String>(
                ObservationStart {
                    session,
                    generation,
                    start_event_sequence: event_sequence,
                    start_output_sequence: output_sequence,
                },
            ),
            _ => start matches Err(message) && message@
                == "prepared observer received no opened event"@,
        },
{
    match first {
        Some(ObservationFrame::Opened { session, generation, event_sequence, output_sequence }) => {
            Ok(
                ObservationStart {
                    session,
                    generation,
                    start_event_sequence: event_sequence,
                    start_output_sequence: output_sequence,
                },
            )
        },
        _ => Err(String::from_str("prepared observer received no opened event")),
    }
}

} // verus!
