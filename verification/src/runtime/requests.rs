//! The requests of a terminal-state service: what they ask for, and what they are answered.

use vstd::prelude::*;

use serde_json::Value;

use crate::checkpoint::ArchivedCheckpoint;
use crate::crypto;
use crate::daemon::{
    self, LeaseView, ObservationStart, SessionInfo, SessionView, SnapshotLease,
};
use crate::delta::{self, FrameReply};
use crate::json::{self, JsonView};
use crate::report;
use crate::runtime::registry::{self, KeyView, PaneKey, Registry, Snapshot, SourcedMirror, StateView};
use crate::runtime::service;
use crate::state::{MirrorStep, TerminalStateMirror};
use crate::subscribers::{self, FrameSubscribers};
use crate::text;

verus! {

pub const FRAME_TIMEOUT_DEFAULT_MS: u64 = 10_000;

pub const FRAME_TIMEOUT_MAX_MS: u64 = 30_000;

/// What is said of a request that names no pane.
pub open spec fn no_pane() -> JsonView {
    service::failure("INVALID_PARAMS"@, "window and pane are required"@)
}

/// What is said of a terminal that has no session.
pub open spec fn not_live() -> JsonView {
    service::failure("NOT_FOUND"@, "no live terminal-state mirror for this key"@)
}

/// What is said where there is no checkpoint key.
pub open spec fn no_store() -> JsonView {
    service::failure("CHECKPOINT_UNAVAILABLE"@, "this provider has no checkpoint key"@)
}

fn refuse_no_pane() -> (result: Value)
    ensures
        json::json_of(result) == no_pane(),
{
    service::result_error("INVALID_PARAMS", "window and pane are required")
}

fn refuse_not_live() -> (result: Value)
    ensures
        json::json_of(result) == not_live(),
{
    service::result_error("NOT_FOUND", "no live terminal-state mirror for this key")
}

fn refuse_no_store() -> (result: Value)
    ensures
        json::json_of(result) == no_store(),
{
    service::result_error("CHECKPOINT_UNAVAILABLE", "this provider has no checkpoint key")
}

/// The terminal a request names: a pane, and a window where it gives one.
pub open spec fn key_in(request: JsonView) -> Option<KeyView> {
    match json::text_in(json::member(request, "pane"@)) {
        Some(pane) => Some(
            KeyView { window: json::text_in(json::member(request, "window"@)), pane },
        ),
        None => None,
    }
}

/// The view of an optional key.
pub open spec fn key_view(key: Option<PaneKey>) -> Option<KeyView> {
    match key {
        Some(key) => Some(key@),
        None => None,
    }
}

/// The terminal a request names.
pub fn pane_key(request: &Value) -> (key: Option<PaneKey>)
    ensures
        key_view(key) == key_in(json::json_of(*request)),
{
    let window = json::text_at(request, "window");
    match json::text_at(request, "pane") {
        Some(pane) => Some(PaneKey { window, pane }),
        None => None,
    }
}

/// The window a checkpoint is filed under.
pub open spec fn filed_window(key: KeyView) -> Seq<char> {
    match key.window {
        Some(window) => window,
        None => "__no-window__"@,
    }
}

/// The window a checkpoint is filed under.
pub fn checkpoint_window(key: &PaneKey) -> (window: String)
    ensures
        window@ == filed_window(key@),
{
    match &key.window {
        Some(window) => String::from_str(window.as_str()),
        None => String::from_str("__no-window__"),
    }
}

/// The size a request asks for under `key`: at least one, in 16 bits; `default` where it asks for
/// none.
pub open spec fn size_in(request: JsonView, key: Seq<char>, default: u64) -> u16 {
    let asked = match json::unsigned_in(json::member(request, key)) {
        Some(asked) => asked,
        None => default,
    };
    (if asked == 0 {
        1
    } else {
        asked
    }) as u16
}

fn size_at(request: &Value, key: &str, default: u64) -> (size: u16)
    ensures
        size == size_in(json::json_of(*request), key@, default),
{
    let asked: u64 = match json::unsigned_at(request, key) {
        Some(asked) => asked,
        None => default,
    };
    let asked: u64 = if asked == 0 { 1 } else { asked };
    #[verifier::truncate]
    (asked as u16)
}

/// A request for a session.
#[derive(Debug, PartialEq, Eq)]
pub struct EnsureRequest {
    pub key: PaneKey,
    pub cols: u16,
    pub rows: u16,
    /// The prepared observer to take over, if one is named.
    pub observer_token: Option<String>,
}

/// What a request for a session asks for.
pub fn parse_ensure(request: &Value) -> (ensure: Result<EnsureRequest, Value>)
    ensures
        match key_in(json::json_of(*request)) {
            None => ensure matches Err(result) && json::json_of(result) == no_pane(),
            Some(key) => ensure matches Ok(ensure) && ensure.key@ == key && ensure.cols == size_in(
                json::json_of(*request),
                "cols"@,
                80,
            ) && ensure.rows == size_in(json::json_of(*request), "rows"@, 24) && text::text_of(
                ensure.observer_token,
            ) == json::text_in(json::member(json::json_of(*request), "observerToken"@)),
        },
{
    match pane_key(request) {
        None => Err(refuse_no_pane()),
        Some(key) => Ok(
            EnsureRequest {
                key,
                cols: size_at(request, "cols", 80),
                rows: size_at(request, "rows", 24),
                observer_token: json::text_at(request, "observerToken"),
            },
        ),
    }
}

/// The place of the first session of a terminal, or the length where there is none.
pub open spec fn first_of(sessions: Seq<SessionView>, key: KeyView, from: int) -> int
    decreases sessions.len() - from,
{
    if from >= sessions.len() || registry::key_of(sessions[from]) == key {
        from
    } else {
        first_of(sessions, key, from + 1)
    }
}

/// The first session of a terminal among those the PTY sidecar lists.
pub fn find_session(sessions: &Vec<SessionInfo>, key: &PaneKey) -> (found: Option<SessionInfo>)
    ensures
        ({
            let views = daemon::session_views(sessions@);
            let at = first_of(views, key@, 0);
            match found {
                Some(info) => at < views.len() && info@ == views[at],
                None => at >= views.len(),
            }
        }),
{
    let ghost views = daemon::session_views(sessions@);
    let mut i: usize = 0;
    while i < sessions.len()
        invariant
            views == daemon::session_views(sessions@),
            i <= sessions@.len(),
            first_of(views, key@, 0) == first_of(views, key@, i as int),
        decreases sessions@.len() - i,
    {
        let info = &sessions[i];
        if text::same_optional_text(&info.window_label, &key.window) && text::same_text(
            info.pane_id.as_str(),
            key.pane.as_str(),
        ) {
            assert(registry::key_of(views[i as int]) == key@);
            return Some(info.clone());
        }
        assert(registry::key_of(views[i as int]) != key@);
        i = i + 1;
    }
    None
}

/// What is said of a terminal that no PTY session is listed for.
pub open spec fn no_session() -> JsonView {
    service::failure("NOT_FOUND"@, "no live PTY session for this terminal key"@)
}

/// The answer to a request for a session: whether it is newly observed.
pub open spec fn subscribed_answer(pane: Seq<char>, subscribed: bool) -> JsonView {
    service::success(
        JsonView::Object(
            map!["pane"@ => JsonView::Text(pane), "subscribed"@ => JsonView::Bool(subscribed)],
        ),
    )
}

fn subscribed_reply(pane: &str, subscribed: bool) -> (result: Value)
    ensures
        json::json_of(result) == subscribed_answer(pane@, subscribed),
{
    let mut members = json::new_members();
    json::put(&mut members, "pane", json::string(pane));
    json::put(&mut members, "subscribed", json::boolean(subscribed));
    service::result_ok(json::object(members))
}

/// A session that is to be opened.
#[derive(Debug, PartialEq, Eq)]
pub struct Opening {
    pub info: SessionInfo,
    pub start: ObservationStart,
    /// The archive of the terminal is replayed first.
    pub restore: bool,
}

/// What serving a request for a session comes to next.
pub enum EnsureStep {
    /// It is answered.
    Answer(Value),
    /// A listed session is to be observed.
    Observe(SessionInfo),
    /// A session is to be opened.
    Open(Opening),
}

/// What follows for a request that takes a prepared observer over: `observer` is the one under its
/// token, if there is one, and how it opened.
pub fn ensure_prepared(request: &EnsureRequest, observer: &Option<Result<ObservationStart, String>>) -> (
    step: EnsureStep)
    ensures
        match *observer {
            None => step matches EnsureStep::Answer(result) && json::json_of(result)
                == service::failure(
                "OBSERVER_NOT_READY"@,
                "prepared observer token is absent or expired"@,
            ),
            Some(Err(message)) => step matches EnsureStep::Answer(result) && json::json_of(result)
                == service::failure("OBSERVER_OPEN_FAILED"@, message@),
            Some(Ok(start)) => step matches EnsureStep::Open(opening) && opening.start == start
                && opening.restore && opening.info@ == (SessionView {
                session: start.session,
                generation: start.generation,
                pane_id: request.key@.pane,
                window_label: request.key@.window,
            }),
        },
{
    match observer {
        None => EnsureStep::Answer(
            service::result_error(
                "OBSERVER_NOT_READY",
                "prepared observer token is absent or expired",
            ),
        ),
        Some(Err(message)) => EnsureStep::Answer(
            service::result_error("OBSERVER_OPEN_FAILED", message.as_str()),
        ),
        Some(Ok(start)) => {
            let key = request.key.clone();
            EnsureStep::Open(
                Opening {
                    info: SessionInfo {
                        session: start.session,
                        generation: start.generation,
                        pane_id: key.pane,
                        window_label: key.window,
                    },
                    start: *start,
                    restore: true,
                },
            )
        },
    }
}

/// What follows for a request without a prepared observer from the sessions that the PTY sidecar
/// lists. A terminal that is already observed stays as it is.
pub fn ensure_listed(
    registry: &Registry,
    request: &EnsureRequest,
    sessions: &Result<Vec<SessionInfo>, String>,
) -> (step: EnsureStep)
    requires
        registry.wf(),
    ensures
        match *sessions {
            Err(message) => step matches EnsureStep::Answer(result) && json::json_of(result)
                == service::failure("PTY_UNAVAILABLE"@, message@),
            Ok(sessions) => {
                let views = daemon::session_views(sessions@);
                let at = first_of(views, request.key@, 0);
                if at >= views.len() {
                    step matches EnsureStep::Answer(result) && json::json_of(result)
                        == no_session()
                } else if registry@.contains_key(request.key@) {
                    step matches EnsureStep::Answer(result) && json::json_of(result)
                        == subscribed_answer(request.key@.pane, false)
                } else {
                    step matches EnsureStep::Observe(info) && info@ == views[at]
                }
            },
        },
{
    match sessions {
        Err(message) => EnsureStep::Answer(
            service::result_error("PTY_UNAVAILABLE", message.as_str()),
        ),
        Ok(sessions) => match find_session(sessions, &request.key) {
            None => EnsureStep::Answer(
                service::result_error("NOT_FOUND", "no live PTY session for this terminal key"),
            ),
            Some(info) => if registry.contains(&request.key) {
                EnsureStep::Answer(subscribed_reply(request.key.pane.as_str(), false))
            } else {
                EnsureStep::Observe(info)
            },
        },
    }
}

/// What follows once a listed session was observed, or was not.
pub fn ensure_observed(info: SessionInfo, start: &Result<ObservationStart, String>) -> (step:
    EnsureStep)
    ensures
        match *start {
            Err(message) => step matches EnsureStep::Answer(result) && json::json_of(result)
                == service::failure("SUBSCRIBE_FAILED"@, message@),
            Ok(start) => step matches EnsureStep::Open(opening) && opening.start == start
                && !opening.restore && opening.info@ == info@,
        },
{
    match start {
        Err(message) => EnsureStep::Answer(
            service::result_error("SUBSCRIBE_FAILED", message.as_str()),
        ),
        Ok(start) => EnsureStep::Open(Opening { info, start: *start, restore: false }),
    }
}

/// Opens a session: it takes the place of its terminal, and the request is answered.
pub fn open_session(
    registry: &mut Registry,
    opening: Opening,
    mirror: u64,
    cols: u16,
    rows: u16,
) -> (result: Value)
    requires
        old(registry).wf(),
    ensures
        final(registry).wf(),
        final(registry)@ == old(registry)@.insert(
            registry::key_of(opening.info@),
            registry::starting(opening.info@, opening.start, mirror, cols, rows),
        ),
        json::json_of(result) == subscribed_answer(opening.info@.pane_id, true),
{
    let result = subscribed_reply(opening.info.pane_id.as_str(), true);
    registry.insert(
        registry::new_session_state(opening.info, opening.start, mirror, cols, rows),
    );
    result
}

/// The window and pane an observer is prepared for, or why none is.
pub fn parse_prepare(request: &Value) -> (place: Result<(String, String), Value>)
    ensures
        match key_in(json::json_of(*request)) {
            None => place matches Err(result) && json::json_of(result) == no_pane(),
            Some(key) => match key.window {
                None => place matches Err(result) && json::json_of(result) == service::failure(
                    "INVALID_PARAMS"@,
                    "window is required"@,
                ),
                Some(window) => place matches Ok(place) && place.0@ == window && place.1@
                    == key.pane,
            },
        },
{
    match pane_key(request) {
        None => Err(refuse_no_pane()),
        Some(key) => match key.window {
            None => Err(service::result_error("INVALID_PARAMS", "window is required")),
            Some(window) => Ok((window, key.pane)),
        },
    }
}

/// What became of a request to prepare an observer.
pub enum PrepareOutcome {
    PrepareFailed(String),
    StreamFailed(String),
    /// The observer waits under this token.
    Prepared(String),
}

/// The answer to a request to prepare an observer.
pub fn prepare_reply(outcome: &PrepareOutcome) -> (result: Value)
    ensures
        json::json_of(result) == match *outcome {
            PrepareOutcome::PrepareFailed(message) => service::failure(
                "OBSERVER_PREPARE_FAILED"@,
                message@,
            ),
            PrepareOutcome::StreamFailed(message) => service::failure(
                "OBSERVER_STREAM_FAILED"@,
                message@,
            ),
            PrepareOutcome::Prepared(token) => service::success(
                JsonView::Object(map!["observerToken"@ => JsonView::Text(token@)]),
            ),
        },
{
    match outcome {
        PrepareOutcome::PrepareFailed(message) => service::result_error(
            "OBSERVER_PREPARE_FAILED",
            message.as_str(),
        ),
        PrepareOutcome::StreamFailed(message) => service::result_error(
            "OBSERVER_STREAM_FAILED",
            message.as_str(),
        ),
        PrepareOutcome::Prepared(token) => {
            let mut members = json::new_members();
            json::put(&mut members, "observerToken", json::string(token.as_str()));
            service::result_ok(json::object(members))
        },
    }
}

/// The session a request names, or why it has none.
pub open spec fn session_for(sessions: Map<KeyView, StateView>, request: JsonView) -> Result<
    StateView,
    JsonView,
> {
    match key_in(request) {
        None => Err(no_pane()),
        Some(key) => if sessions.contains_key(key) {
            Ok(sessions[key])
        } else {
            Err(not_live())
        },
    }
}

/// Whether a session can be handed over: one that missed source events cannot.
pub open spec fn handover(sessions: Map<KeyView, StateView>, request: JsonView) -> Result<
    StateView,
    JsonView,
> {
    match session_for(sessions, request) {
        Err(result) => Err(result),
        Ok(state) => if state.gaps > 0 {
            Err(
                service::failure(
                    "SOURCE_GAP"@,
                    "the terminal-state observer missed source events"@,
                ),
            )
        } else {
            Ok(state)
        },
    }
}

/// A session that is handed over.
#[derive(Debug, PartialEq, Eq)]
pub struct Handover {
    pub key: PaneKey,
    pub session: u64,
    pub generation: u64,
    pub event_sequence: u64,
}

/// The session a request takes over, or why it cannot.
pub fn check_rehydrate(registry: &Registry, request: &Value) -> (plan: Result<Handover, Value>)
    requires
        registry.wf(),
    ensures
        match handover(registry@, json::json_of(*request)) {
            Err(refusal) => plan matches Err(result) && json::json_of(result) == refusal,
            Ok(state) => plan matches Ok(plan) && key_in(json::json_of(*request)) == Some(plan.key@)
                && plan.session == state.session && plan.generation == state.generation
                && plan.event_sequence == state.source_event_sequence,
        },
{
    let key = match pane_key(request) {
        Some(key) => key,
        None => return Err(refuse_no_pane()),
    };
    match registry.get(&key) {
        None => Err(refuse_not_live()),
        Some(state) => {
            if state.gaps > 0 {
                return Err(
                    service::result_error(
                        "SOURCE_GAP",
                        "the terminal-state observer missed source events",
                    ),
                );
            }
            let (session, generation, event_sequence) = (
                state.session,
                state.generation,
                state.source_event_sequence,
            );
            Ok(Handover { key, session, generation, event_sequence })
        },
    }
}

/// What the PTY sidecar is asked for a handover: a lease that continues right after the output that
/// the snapshot shows.
pub fn lease_for(plan: &Handover, snapshot: &Snapshot) -> (request: Value)
    ensures
        json::json_of(request) == daemon::lease_request_json(plan.session, snapshot.sequence),
{
    daemon::lease_request(plan.session, snapshot.sequence)
}

/// The answer that hands a terminal over: its repaint and picture at one output sequence, and the
/// lease that continues there.
pub open spec fn handover_answer(
    plan: Handover,
    paint: Seq<u8>,
    frame: delta::ReplyView,
    sequence: u64,
    alt_active: bool,
    lease: LeaseView,
) -> JsonView {
    service::success(
        JsonView::Object(
            map![
                "paint"@ => JsonView::Text(crypto::base64_text(paint)),
                "frame"@ => report::reply_json(frame),
                "uptoSeq"@ => JsonView::Unsigned(sequence),
                "eventSequence"@ => JsonView::Unsigned(plan.event_sequence),
                "generation"@ => JsonView::Unsigned(plan.generation),
                "altActive"@ => JsonView::Bool(alt_active),
                "leaseToken"@ => JsonView::Text(lease.token),
                "leaseExpiresAtMs"@ => signed_json(lease.expires_at_ms),
            ],
        ),
    )
}

/// The answer that hands a terminal over.
pub fn rehydrate_reply(plan: &Handover, snapshot: &Snapshot, lease: &Result<SnapshotLease, String>) -> (
    result: Value)
    requires
        snapshot.paint@.len() <= isize::MAX / 2,
    ensures
        json::json_of(result) == match *lease {
            Err(message) => service::failure("LEASE_FAILED"@, message@),
            Ok(lease) => handover_answer(
                *plan,
                snapshot.paint@,
                snapshot.frame@,
                snapshot.sequence,
                snapshot.alt_active,
                lease@,
            ),
        },
{
    match lease {
        Err(message) => service::result_error("LEASE_FAILED", message.as_str()),
        Ok(lease) => {
            let paint = crypto::encode_base64(snapshot.paint.as_slice());
            let mut members = json::new_members();
            json::put(&mut members, "paint", json::string(paint.as_str()));
            json::put(&mut members, "frame", report::reply_value(&snapshot.frame));
            json::put(&mut members, "uptoSeq", json::unsigned(snapshot.sequence));
            json::put(&mut members, "eventSequence", json::unsigned(plan.event_sequence));
            json::put(&mut members, "generation", json::unsigned(plan.generation));
            json::put(&mut members, "altActive", json::boolean(snapshot.alt_active));
            json::put(&mut members, "leaseToken", json::string(lease.token.as_str()));
            json::put(&mut members, "leaseExpiresAtMs", json::signed(lease.expires_at_ms));
            service::result_ok(json::object(members))
        },
    }
}

/// The lease of a handover continues at exactly the output sequence that its answer carries, and
/// the picture in the answer is of that sequence: nothing is replayed and nothing is lost.
pub proof fn law_handover_continues_exactly<M: TerminalStateMirror>(
    mirror: SourcedMirror<M>,
    plan: Handover,
    lease: LeaseView,
)
    ensures
        ({
            let answer = handover_answer(
                plan,
                mirror.mirror.repaint(),
                delta::full_reply(mirror.mirror.viewport(0), mirror.output_sequence),
                mirror.output_sequence,
                mirror.mirror.screen().alt_active,
                lease,
            );
            let data = json::member(answer, "data"@);
            let request = daemon::lease_request_json(plan.session, mirror.output_sequence);
            &&& data matches Some(data)
            &&& json::member(data, "uptoSeq"@) == json::member(request, "afterSequence"@)
            &&& json::unsigned_in(json::member(data, "uptoSeq"@)) == Some(mirror.output_sequence)
            &&& json::member(data, "frame"@) matches Some(frame)
            &&& json::unsigned_in(json::member(frame, "outputSequence"@)) == Some(
                mirror.output_sequence,
            )
        }),
{
    reveal_strlit("frame");
    reveal_strlit("uptoSeq");
    reveal_strlit("eventSequence");
    reveal_strlit("generation");
    reveal_strlit("altActive");
    reveal_strlit("leaseToken");
    reveal_strlit("leaseExpiresAtMs");
    reveal_strlit("outputSequence");
    reveal_strlit("cols");
    reveal_strlit("rows");
    reveal_strlit("cursor");
    reveal_strlit("cursorVisible");
    reveal_strlit("cursorStyle");
    reveal_strlit("cursorAnimation");
    reveal_strlit("historySize");
    reveal_strlit("offset");
    reveal_strlit("modes");
    reveal_strlit("full");
    reveal_strlit("lines");
    assert("frame"@.len() == 5 && "uptoSeq"@.len() == 7 && "eventSequence"@.len() == 13
        && "generation"@.len() == 10 && "altActive"@.len() == 9
        && "leaseToken"@.len() == 10 && "leaseExpiresAtMs"@.len() == 16
        && "outputSequence"@.len() == 14 && "cols"@.len() == 4 && "rows"@.len() == 4
        && "cursor"@.len() == 6 && "cursorVisible"@.len() == 13
        && "cursorStyle"@.len() == 11 && "cursorAnimation"@.len() == 15
        && "historySize"@.len() == 11 && "offset"@.len() == 6 && "modes"@.len() == 5
        && "full"@.len() == 4 && "lines"@.len() == 5);
}

/// A signed number as it is reported.
pub open spec fn signed_json(n: i64) -> JsonView {
    if n >= 0 {
        JsonView::Unsigned(n as u64)
    } else {
        JsonView::Negative(n)
    }
}

/// A size that a request asks for, and the terminal it is for.
#[derive(Debug, PartialEq, Eq)]
pub struct ResizeRequest {
    pub key: PaneKey,
    pub cols: u64,
    pub rows: u64,
}

/// A positive number under `key`.
pub open spec fn positive_size(request: JsonView, key: Seq<char>) -> Option<u64> {
    match json::unsigned_in(json::member(request, key)) {
        Some(n) if n > 0 => Some(n),
        _ => None,
    }
}

fn positive_size_at(request: &Value, key: &str) -> (size: Option<u64>)
    ensures
        size == positive_size(json::json_of(*request), key@),
{
    match json::unsigned_at(request, key) {
        Some(n) => if n > 0 {
            Some(n)
        } else {
            None
        },
        None => None,
    }
}

/// The size a request gives a live terminal, or the first thing that is wrong with it.
pub fn check_resize(registry: &Registry, request: &Value) -> (plan: Result<ResizeRequest, Value>)
    requires
        registry.wf(),
    ensures
        match key_in(json::json_of(*request)) {
            None => plan matches Err(result) && json::json_of(result) == no_pane(),
            Some(key) => match positive_size(json::json_of(*request), "cols"@) {
                None => plan matches Err(result) && json::json_of(result) == service::failure(
                    "INVALID_PARAMS"@,
                    "positive cols are required"@,
                ),
                Some(cols) => match positive_size(json::json_of(*request), "rows"@) {
                    None => plan matches Err(result) && json::json_of(result) == service::failure(
                        "INVALID_PARAMS"@,
                        "positive rows are required"@,
                    ),
                    Some(rows) => if registry@.contains_key(key) {
                        plan matches Ok(plan) && plan.key@ == key && plan.cols == cols && plan.rows
                            == rows
                    } else {
                        plan matches Err(result) && json::json_of(result) == not_live()
                    },
                },
            },
        },
{
    let key = match pane_key(request) {
        Some(key) => key,
        None => return Err(refuse_no_pane()),
    };
    let cols: u64 = match positive_size_at(request, "cols") {
        Some(cols) => cols,
        None => return Err(service::result_error("INVALID_PARAMS", "positive cols are required")),
    };
    let rows: u64 = match positive_size_at(request, "rows") {
        Some(rows) => rows,
        None => return Err(service::result_error("INVALID_PARAMS", "positive rows are required")),
    };
    if !registry.contains(&key) {
        return Err(refuse_not_live());
    }
    Ok(ResizeRequest { key, cols, rows })
}

/// A size as it is reported.
pub open spec fn size_json(cols: u64, rows: u64) -> JsonView {
    JsonView::Object(
        map!["cols"@ => JsonView::Unsigned(cols), "rows"@ => JsonView::Unsigned(rows)],
    )
}

fn size_value(cols: u64, rows: u64) -> (value: Value)
    ensures
        json::json_of(value) == size_json(cols, rows),
{
    let mut members = json::new_members();
    json::put(&mut members, "cols", json::unsigned(cols));
    json::put(&mut members, "rows", json::unsigned(rows));
    json::object(members)
}

/// Gives a mirror the size of a request, in 16 bits, and answers with what was asked.
pub fn resize<M: TerminalStateMirror + ?Sized>(plan: &ResizeRequest, mirror: &mut M) -> (result: Value)
    ensures
        final(mirror).steps() == old(mirror).steps().push(
            MirrorStep::Resize { cols: plan.cols as u16, rows: plan.rows as u16 },
        ),
        json::json_of(result) == service::success(size_json(plan.cols, plan.rows)),
{
    mirror.resize(
        #[verifier::truncate]
        (plan.cols as u16),
        #[verifier::truncate]
        (plan.rows as u16),
    );
    service::result_ok(size_value(plan.cols, plan.rows))
}

/// How long a request waits: as it says, within a limit.
pub open spec fn timeout_in(request: JsonView) -> u64 {
    match json::unsigned_in(json::member(request, "timeoutMs"@)) {
        Some(timeout) => if timeout < FRAME_TIMEOUT_MAX_MS {
            timeout
        } else {
            FRAME_TIMEOUT_MAX_MS
        },
        None => FRAME_TIMEOUT_DEFAULT_MS,
    }
}

/// How many milliseconds a request waits.
pub fn frame_timeout_ms(request: &Value) -> (timeout: u64)
    ensures
        timeout == timeout_in(json::json_of(*request)),
{
    match json::unsigned_at(request, "timeoutMs") {
        Some(timeout) => if timeout < FRAME_TIMEOUT_MAX_MS {
            timeout
        } else {
            FRAME_TIMEOUT_MAX_MS
        },
        None => FRAME_TIMEOUT_DEFAULT_MS,
    }
}

/// A request that waits for a size.
#[derive(Debug, PartialEq, Eq)]
pub struct WaitRequest {
    pub key: PaneKey,
    pub cols: u16,
    pub rows: u16,
    pub timeout_ms: u64,
}

/// A positive number of 16 bits under `key`.
pub open spec fn exact_size(request: JsonView, key: Seq<char>) -> Option<u64> {
    match positive_size(request, key) {
        Some(n) if n <= u16::MAX => Some(n),
        _ => None,
    }
}

fn exact_size_at(request: &Value, key: &str) -> (size: Option<u64>)
    ensures
        size == exact_size(json::json_of(*request), key@),
{
    match positive_size_at(request, key) {
        Some(n) => if n <= 0xffff {
            Some(n)
        } else {
            None
        },
        None => None,
    }
}

/// The size a request waits for a live terminal to have, or the first thing that is wrong with it.
pub fn check_wait_size(registry: &Registry, request: &Value) -> (plan: Result<WaitRequest, Value>)
    requires
        registry.wf(),
    ensures
        match key_in(json::json_of(*request)) {
            None => plan matches Err(result) && json::json_of(result) == no_pane(),
            Some(key) => match exact_size(json::json_of(*request), "cols"@) {
                None => plan matches Err(result) && json::json_of(result) == service::failure(
                    "INVALID_PARAMS"@,
                    "valid cols are required"@,
                ),
                Some(cols) => match exact_size(json::json_of(*request), "rows"@) {
                    None => plan matches Err(result) && json::json_of(result) == service::failure(
                        "INVALID_PARAMS"@,
                        "valid rows are required"@,
                    ),
                    Some(rows) => if registry@.contains_key(key) {
                        plan matches Ok(plan) && plan.key@ == key && plan.cols == cols && plan.rows
                            == rows && plan.timeout_ms == timeout_in(json::json_of(*request))
                    } else {
                        plan matches Err(result) && json::json_of(result) == not_live()
                    },
                },
            },
        },
{
    let key = match pane_key(request) {
        Some(key) => key,
        None => return Err(refuse_no_pane()),
    };
    let cols: u64 = match exact_size_at(request, "cols") {
        Some(cols) => cols,
        None => return Err(service::result_error("INVALID_PARAMS", "valid cols are required")),
    };
    let rows: u64 = match exact_size_at(request, "rows") {
        Some(rows) => rows,
        None => return Err(service::result_error("INVALID_PARAMS", "valid rows are required")),
    };
    let timeout_ms: u64 = frame_timeout_ms(request);
    if !registry.contains(&key) {
        return Err(refuse_not_live());
    }
    Ok(WaitRequest { key, cols: cols as u16, rows: rows as u16, timeout_ms })
}

/// What a waiting request does next.
#[derive(Debug, Clone, Copy, PartialEq, Eq, Structural)]
pub enum WaitStep {
    /// What it waits for is there.
    Ready,
    /// It is not, and the time is up.
    TimedOut,
    /// It waits for this many milliseconds at most.
    Wait(u64),
}

/// What a request does next that has waited `elapsed_ms` of `timeout_ms`. Whatever the clock says,
/// what is there is taken.
pub open spec fn step_of(reached: bool, elapsed_ms: u64, timeout_ms: u64) -> WaitStep {
    if reached {
        WaitStep::Ready
    } else if elapsed_ms >= timeout_ms {
        WaitStep::TimedOut
    } else {
        WaitStep::Wait((timeout_ms - elapsed_ms) as u64)
    }
}

fn step(reached: bool, elapsed_ms: u64, timeout_ms: u64) -> (step: WaitStep)
    ensures
        step == step_of(reached, elapsed_ms, timeout_ms),
{
    if reached {
        WaitStep::Ready
    } else if elapsed_ms >= timeout_ms {
        WaitStep::TimedOut
    } else {
        WaitStep::Wait(timeout_ms - elapsed_ms)
    }
}

/// What a request that waits for a size does next where the terminal has `cols` and `rows`.
pub fn wait_for_size(plan: &WaitRequest, cols: u16, rows: u16, elapsed_ms: u64) -> (next: WaitStep)
    ensures
        next == step_of(cols == plan.cols && rows == plan.rows, elapsed_ms, plan.timeout_ms),
{
    step(cols == plan.cols && rows == plan.rows, elapsed_ms, plan.timeout_ms)
}

/// What a request that waits for an output sequence does next where `applied` has been reached.
pub fn wait_for_sequence(applied: u64, wanted: u64, elapsed_ms: u64, timeout_ms: u64) -> (next:
    WaitStep)
    ensures
        next == step_of(applied >= wanted, elapsed_ms, timeout_ms),
{
    step(applied >= wanted, elapsed_ms, timeout_ms)
}

/// The answer to a request that waited for a size, where the terminal has `cols` and `rows` at the
/// end.
pub fn wait_size(plan: &WaitRequest, cols: u16, rows: u16) -> (result: Value)
    ensures
        json::json_of(result) == if cols == plan.cols && rows == plan.rows {
            service::success(size_json(cols as u64, rows as u64))
        } else {
            service::failure(
                "TIMEOUT"@,
                "terminal size was not observed before the deadline"@,
            )
        },
{
    if cols == plan.cols && rows == plan.rows {
        service::result_ok(size_value(cols as u64, rows as u64))
    } else {
        service::result_error("TIMEOUT", "terminal size was not observed before the deadline")
    }
}

/// A character of a subscriber's name.
pub open spec fn is_subscriber_char(c: char) -> bool {
    'a' <= c <= 'z' || '0' <= c <= '9' || c == '.' || c == '_' || c == '#' || c == '-'
}

/// `^[a-z0-9._#-]{1,64}$`
pub open spec fn names_subscriber(name: Seq<char>) -> bool {
    1 <= name.len() <= 64 && forall|i: int|
        0 <= i < name.len() ==> is_subscriber_char(#[trigger] name[i])
}

/// `^[a-z0-9._#-]{1,64}$`
pub fn valid_subscriber(name: &str) -> (valid: bool)
    ensures
        valid == names_subscriber(name@),
{
    let length: usize = name.unicode_len();
    if length == 0 || length > 64 {
        return false;
    }
    let mut i: usize = 0;
    while i < length
        invariant
            i <= length == name@.len(),
            forall|j: int| 0 <= j < i ==> is_subscriber_char(#[trigger] name@[j]),
        decreases length - i,
    {
        let c = name.get_char(i);
        if !(('a' <= c && c <= 'z') || ('0' <= c && c <= '9') || c == '.' || c == '_' || c == '#'
            || c == '-') {
            assert(!is_subscriber_char(name@[i as int]));
            return false;
        }
        i = i + 1;
    }
    true
}

/// A request for a frame.
#[derive(Debug, PartialEq, Eq)]
pub struct FrameRequest {
    pub key: PaneKey,
    pub subscriber: String,
    pub offset: u64,
    /// The output sequence that has to be applied first.
    pub after: Option<u64>,
    pub timeout_ms: u64,
}

/// A request for a frame as a mathematical value.
pub struct FrameRequestView {
    pub key: KeyView,
    pub subscriber: Seq<char>,
    pub offset: u64,
    pub after: Option<u64>,
    pub timeout_ms: u64,
}

impl View for FrameRequest {
    type V = FrameRequestView;

    open spec fn view(&self) -> FrameRequestView {
        FrameRequestView {
            key: self.key@,
            subscriber: self.subscriber@,
            offset: self.offset,
            after: self.after,
            timeout_ms: self.timeout_ms,
        }
    }
}

/// What is said of a request without a proper subscriber.
pub open spec fn no_subscriber() -> JsonView {
    service::failure(
        "INVALID_PARAMS"@,
        "subscriber is required and must match ^[a-z0-9._#-]{1,64}$"@,
    )
}

/// The frame a request asks for, or the first thing that is wrong with it.
pub open spec fn frame_wanted(request: JsonView) -> Result<FrameRequestView, JsonView> {
    match key_in(request) {
        None => Err(no_pane()),
        Some(key) => match json::text_in(json::member(request, "subscriber"@)) {
            Some(subscriber) if names_subscriber(subscriber) => Ok(
                FrameRequestView {
                    key,
                    subscriber,
                    offset: match json::unsigned_in(json::member(request, "offset"@)) {
                        Some(offset) => offset,
                        None => 0,
                    },
                    after: json::unsigned_in(json::member(request, "afterSequence"@)),
                    timeout_ms: timeout_in(request),
                },
            ),
            _ => Err(no_subscriber()),
        },
    }
}

/// The frame a request asks for.
pub fn parse_frame(request: &Value) -> (frame: Result<FrameRequest, Value>)
    ensures
        match frame {
            Ok(frame) => frame_wanted(json::json_of(*request)) == Ok::<FrameRequestView, JsonView>(
                frame@,
            ),
            Err(result) => frame_wanted(json::json_of(*request)) == Err::<
                FrameRequestView,
                JsonView,
            >(json::json_of(result)),
        },
{
    let key = match pane_key(request) {
        Some(key) => key,
        None => return Err(refuse_no_pane()),
    };
    if let Some(subscriber) = json::text_at(request, "subscriber") {
        if valid_subscriber(subscriber.as_str()) {
            let offset: u64 = match json::unsigned_at(request, "offset") {
                Some(offset) => offset,
                None => 0,
            };
            return Ok(
                FrameRequest {
                    key,
                    subscriber,
                    offset,
                    after: json::unsigned_at(request, "afterSequence"),
                    timeout_ms: frame_timeout_ms(request),
                },
            );
        }
    }
    Err(
        service::result_error(
            "INVALID_PARAMS",
            "subscriber is required and must match ^[a-z0-9._#-]{1,64}$",
        ),
    )
}

/// The offset that is shown for one that was asked: within the history, and the bottom of the
/// alternate screen.
pub open spec fn shown_offset(asked: u64, history: usize, alt_active: bool) -> usize {
    if alt_active {
        0
    } else if asked < history {
        asked as usize
    } else {
        history
    }
}

/// The reply to a frame request, and what its subscriber then holds.
pub open spec fn frame_reply_of<M: TerminalStateMirror>(
    mirror: SourcedMirror<M>,
    subscribers: Map<Seq<char>, delta::BaselineView>,
    request: FrameRequestView,
) -> (delta::ReplyView, delta::BaselineView) {
    let screen = mirror.mirror.screen();
    let frame = mirror.mirror.viewport(
        shown_offset(request.offset, screen.history_size, screen.alt_active),
    );
    let held = if subscribers.contains_key(request.subscriber) {
        Some(subscribers[request.subscriber])
    } else {
        None
    };
    (
        delta::delta_reply(held, frame, mirror.output_sequence),
        delta::next_baseline(held, frame),
    )
}

/// Answers a frame request from a mirror: the picture against what its subscriber holds, at exactly
/// the output sequence that was applied to the mirror. What the subscriber then holds is kept.
pub fn frame_answer<M: TerminalStateMirror>(
    mirror: &SourcedMirror<M>,
    subscribers: &mut FrameSubscribers,
    request: &FrameRequest,
) -> (result: Value)
    requires
        old(subscribers).wf(),
        old(subscribers).tick() < u64::MAX,
    ensures
        final(subscribers).wf(),
        final(subscribers).tick() == old(subscribers).tick() + 1,
        ({
            let (reply, baseline) = frame_reply_of(*mirror, old(subscribers)@, request@);
            &&& json::json_of(result) == service::success(report::reply_json(reply))
            &&& final(subscribers)@ == subscribers::recorded(
                old(subscribers)@,
                final(subscribers).tick(),
                request@.subscriber,
                baseline,
            )
        }),
{
    let offset: usize = if mirror.mirror.alt_active() {
        0
    } else {
        let history: usize = mirror.mirror.history_size();
        if request.offset < history as u64 {
            request.offset as usize
        } else {
            history
        }
    };
    let frame = mirror.mirror.frame_at(offset);
    let (reply, baseline) = delta::delta(
        subscribers.baseline(request.subscriber.as_str()),
        &frame,
        mirror.output_sequence,
    );
    subscribers.record(request.subscriber.as_str(), baseline);
    service::result_ok(report::reply_value(&reply))
}

/// The answer to a frame request whose output sequence was not applied in time.
pub open spec fn frame_late() -> JsonView {
    service::failure(
        "TIMEOUT"@,
        "terminal output sequence was not applied before the deadline"@,
    )
}

/// The frame a request asks for of a live terminal, or the first thing that is wrong with it.
pub fn check_frame(registry: &Registry, request: &Value) -> (wanted: Result<FrameRequest, Value>)
    requires
        registry.wf(),
    ensures
        match frame_wanted(json::json_of(*request)) {
            Err(refusal) => wanted matches Err(result) && json::json_of(result) == refusal,
            Ok(frame) => if registry@.contains_key(frame.key) {
                wanted matches Ok(wanted) && wanted@ == frame
            } else {
                wanted matches Err(result) && json::json_of(result) == not_live()
            },
        },
{
    let wanted = match parse_frame(request) {
        Ok(wanted) => wanted,
        Err(result) => return Err(result),
    };
    if registry.contains(&wanted.key) {
        Ok(wanted)
    } else {
        Err(refuse_not_live())
    }
}

/// The answer to a frame request whose wait has ended with `applied` reached.
pub fn frame_reply<M: TerminalStateMirror>(
    mirror: &SourcedMirror<M>,
    subscribers: &mut FrameSubscribers,
    wanted: &FrameRequest,
    applied: u64,
) -> (result: Value)
    requires
        old(subscribers).wf(),
        old(subscribers).tick() < u64::MAX,
    ensures
        final(subscribers).wf(),
        if wanted.after matches Some(after) && applied < after {
            json::json_of(result) == frame_late() && *final(subscribers) == *old(subscribers)
        } else {
            let (reply, baseline) = frame_reply_of(*mirror, old(subscribers)@, wanted@);
            json::json_of(result) == service::success(report::reply_json(reply))
                && final(subscribers).tick() == old(subscribers).tick() + 1
                && final(subscribers)@ == subscribers::recorded(
                old(subscribers)@,
                final(subscribers).tick(),
                wanted@.subscriber,
                baseline,
            )
        },
{
    if let Some(after) = wanted.after {
        if applied < after {
            return service::result_error(
                "TIMEOUT",
                "terminal output sequence was not applied before the deadline",
            );
        }
    }
    frame_answer(mirror, subscribers, wanted)
}

/// Serves a frame request on the live terminals. The output sequence it may wait for has been
/// waited for: the session of the terminal says how far its output was applied.
pub fn frame_request<M: TerminalStateMirror>(
    registry: &Registry,
    mirror: &SourcedMirror<M>,
    subscribers: &mut FrameSubscribers,
    request: &Value,
) -> (result: Value)
    requires
        registry.wf(),
        old(subscribers).wf(),
        old(subscribers).tick() < u64::MAX,
    ensures
        final(subscribers).wf(),
        match frame_wanted(json::json_of(*request)) {
            Err(refusal) => json::json_of(result) == refusal && *final(subscribers) == *old(
                subscribers,
            ),
            Ok(wanted) => if !registry@.contains_key(wanted.key) {
                json::json_of(result) == not_live() && *final(subscribers) == *old(subscribers)
            } else if wanted.after matches Some(after) && registry@[wanted.key].frame_sequence
                < after {
                json::json_of(result) == frame_late() && *final(subscribers) == *old(subscribers)
            } else {
                let (reply, baseline) = frame_reply_of(*mirror, old(subscribers)@, wanted);
                json::json_of(result) == service::success(report::reply_json(reply))
                    && final(subscribers).tick() == old(subscribers).tick() + 1
                    && final(subscribers)@ == subscribers::recorded(
                    old(subscribers)@,
                    final(subscribers).tick(),
                    wanted.subscriber,
                    baseline,
                )
            },
        },
{
    let wanted = match parse_frame(request) {
        Ok(wanted) => wanted,
        Err(result) => return result,
    };
    match registry.get(&wanted.key) {
        None => refuse_not_live(),
        Some(state) => frame_reply(mirror, subscribers, &wanted, state.frame_sequence),
    }
}

/// The terminal whose checkpoint a request is about, or why there is none.
pub fn check_archive(request: &Value, has_store: bool) -> (key: Result<PaneKey, Value>)
    ensures
        match key_in(json::json_of(*request)) {
            None => key matches Err(result) && json::json_of(result) == no_pane(),
            Some(named) => if has_store {
                key matches Ok(key) && key@ == named
            } else {
                key matches Err(result) && json::json_of(result) == no_store()
            },
        },
{
    match pane_key(request) {
        None => Err(refuse_no_pane()),
        Some(key) => if has_store {
            Ok(key)
        } else {
            Err(refuse_no_store())
        },
    }
}

/// What was found of an archived checkpoint.
pub enum ArchivedOutcome {
    Found(ArchivedCheckpoint),
    Missing,
    Corrupt(String),
}

/// The answer to a request for an archived checkpoint.
pub open spec fn archived_answer(outcome: ArchivedOutcome) -> JsonView {
    match outcome {
        ArchivedOutcome::Found(checkpoint) => service::success(
            JsonView::Object(
                map![
                    "paint"@ => JsonView::Text(crypto::base64_text(checkpoint.paint@)),
                    "frame"@ => report::reply_json(
                        delta::full_reply(checkpoint.frame@, checkpoint.sequence),
                    ),
                    "generation"@ => JsonView::Unsigned(checkpoint.generation),
                    "uptoSeq"@ => JsonView::Unsigned(checkpoint.sequence),
                ],
            ),
        ),
        ArchivedOutcome::Missing => service::failure(
            "NOT_FOUND"@,
            "no archived checkpoint for this terminal key"@,
        ),
        ArchivedOutcome::Corrupt(message) => service::failure("CHECKPOINT_CORRUPT"@, message@),
    }
}

/// The answer to a request for an archived checkpoint.
pub fn archived_reply(outcome: &ArchivedOutcome) -> (result: Value)
    requires
        outcome matches ArchivedOutcome::Found(checkpoint) ==> checkpoint.paint@.len()
            <= isize::MAX / 2,
    ensures
        json::json_of(result) == archived_answer(*outcome),
{
    match outcome {
        ArchivedOutcome::Found(checkpoint) => {
            let paint = crypto::encode_base64(checkpoint.paint.as_slice());
            let frame = FrameReply::full(&checkpoint.frame, checkpoint.sequence);
            let mut members = json::new_members();
            json::put(&mut members, "paint", json::string(paint.as_str()));
            json::put(&mut members, "frame", report::reply_value(&frame));
            json::put(&mut members, "generation", json::unsigned(checkpoint.generation));
            json::put(&mut members, "uptoSeq", json::unsigned(checkpoint.sequence));
            service::result_ok(json::object(members))
        },
        ArchivedOutcome::Missing => service::result_error(
            "NOT_FOUND",
            "no archived checkpoint for this terminal key",
        ),
        ArchivedOutcome::Corrupt(message) => service::result_error(
            "CHECKPOINT_CORRUPT",
            message.as_str(),
        ),
    }
}

/// A live terminal that is to be archived.
#[derive(Debug, PartialEq, Eq)]
pub struct ArchivePlan {
    pub key: PaneKey,
    pub generation: u64,
}

/// The live terminal a request archives, or why it cannot.
pub fn plan_archive(registry: &Registry, request: &Value, has_store: bool) -> (plan: Result<
    ArchivePlan,
    Value,
>)
    requires
        registry.wf(),
    ensures
        match key_in(json::json_of(*request)) {
            None => plan matches Err(result) && json::json_of(result) == no_pane(),
            Some(key) => if !has_store {
                plan matches Err(result) && json::json_of(result) == no_store()
            } else if !registry@.contains_key(key) {
                plan matches Err(result) && json::json_of(result) == not_live()
            } else {
                plan matches Ok(plan) && plan.key@ == key && plan.generation
                    == registry@[key].generation
            },
        },
{
    let key = match check_archive(request, has_store) {
        Ok(key) => key,
        Err(result) => return Err(result),
    };
    match registry.get(&key) {
        None => Err(refuse_not_live()),
        Some(state) => {
            let generation: u64 = state.generation;
            Ok(ArchivePlan { key, generation })
        },
    }
}

/// The answer to a request that archived a terminal.
pub fn archive_reply(checkpoint: &ArchivedCheckpoint, written: &Result<(), String>) -> (result: Value)
    ensures
        json::json_of(result) == match *written {
            Ok(_) => service::success(
                JsonView::Object(
                    map![
                        "generation"@ => JsonView::Unsigned(checkpoint.generation),
                        "uptoSeq"@ => JsonView::Unsigned(checkpoint.sequence),
                        "bytes"@ => JsonView::Unsigned(checkpoint.paint@.len() as u64),
                    ],
                ),
            ),
            Err(message) => service::failure("CHECKPOINT_WRITE_FAILED"@, message@),
        },
{
    match written {
        Ok(_) => {
            let bytes: usize = checkpoint.paint.len();
            let mut members = json::new_members();
            json::put(&mut members, "generation", json::unsigned(checkpoint.generation));
            json::put(&mut members, "uptoSeq", json::unsigned(checkpoint.sequence));
            json::put(&mut members, "bytes", json::unsigned(bytes as u64));
            service::result_ok(json::object(members))
        },
        Err(message) => service::result_error("CHECKPOINT_WRITE_FAILED", message.as_str()),
    }
}

/// The answer to a request that retired a checkpoint.
pub fn retire_reply(removed: &Result<bool, String>) -> (result: Value)
    ensures
        json::json_of(result) == match *removed {
            Ok(removed) => service::success(
                JsonView::Object(map!["removed"@ => JsonView::Bool(removed)]),
            ),
            Err(message) => service::failure("CHECKPOINT_REMOVE_FAILED"@, message@),
        },
{
    match removed {
        Ok(removed) => {
            let mut members = json::new_members();
            json::put(&mut members, "removed", json::boolean(*removed));
            service::result_ok(json::object(members))
        },
        Err(message) => service::result_error("CHECKPOINT_REMOVE_FAILED", message.as_str()),
    }
}

/// The line breaks that advance one viewport.
pub open spec fn line_breaks(rows: nat) -> Seq<u8>
    decreases rows,
{
    if rows == 0 {
        Seq::empty()
    } else {
        line_breaks((rows - 1) as nat).push(13u8).push(10u8)
    }
}

/// Replays an archived paint into the mirror of a new session, and advances one viewport, so that
/// a fresh shell cannot write over the archived rows.
pub fn restore<M: TerminalStateMirror + ?Sized>(mirror: &mut M, paint: &[u8], rows: u16)
    ensures
        final(mirror).steps() == old(mirror).steps().push(MirrorStep::Feed { bytes: paint@ }).push(
            MirrorStep::Feed { bytes: line_breaks(rows as nat) },
        ),
{
    let mut breaks: Vec<u8> = Vec::new();
    let mut row: u16 = 0;
    while row < rows
        invariant
            row <= rows,
            breaks@ == line_breaks(row as nat),
        decreases rows - row,
    {
        breaks.push(13);
        breaks.push(10);
        row = row + 1;
    }
    mirror.feed(paint);
    mirror.feed(breaks.as_slice());
}

/// A mirror with the archive of its terminal replayed where that is asked for and there is one.
/// Reattaching to a live generation never replays it.
pub fn create_session_mirror<M: TerminalStateMirror>(
    mirror: M,
    archived: Option<&[u8]>,
    rows: u16,
    restore_archive: bool,
) -> (restored: M)
    ensures
        match archived {
            Some(paint) if restore_archive => restored.steps() == mirror.steps().push(
                MirrorStep::Feed { bytes: paint@ },
            ).push(MirrorStep::Feed { bytes: line_breaks(rows as nat) }),
            _ => restored == mirror,
        },
{
    let mut mirror = mirror;
    if restore_archive {
        if let Some(paint) = archived {
            restore(&mut mirror, paint, rows);
        }
    }
    mirror
}

/// Whatever is asked for, the offset that is shown lies in the history, and in the alternate screen
/// at the bottom.
pub proof fn law_shown_offset_lies_in_history(asked: u64, history: usize, alt_active: bool)
    ensures
        shown_offset(asked, history, alt_active) <= history,
        alt_active ==> shown_offset(asked, history, alt_active) == 0,
        !alt_active && asked <= history ==> shown_offset(asked, history, alt_active) == asked,
{
}

} // verus!
