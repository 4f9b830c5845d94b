//! The live sessions, and what an observed event does to one.

use vstd::prelude::*;

use serde_json::Value;

use crate::cells::MirrorCapabilities;
use crate::checkpoint::ArchivedCheckpoint;
use crate::crypto;
use crate::daemon::{ObservationFrame, ObservationStart, ObservationView, SessionInfo, SessionView};
use crate::delta::FrameReply;
use crate::json::{self, JsonView};
use crate::report;
use crate::state::{MirrorStep, TerminalStateMirror};
use crate::table::{self, Entry};
use crate::text;

verus! {

/// What a terminal is addressed by.
#[derive(Debug, PartialEq, Eq)]
pub struct PaneKey {
    pub window: Option<String>,
    pub pane: String,
}

/// A terminal's address as a mathematical value.
pub struct KeyView {
    pub window: Option<Seq<char>>,
    pub pane: Seq<char>,
}

impl View for PaneKey {
    type V = KeyView;

    open spec fn view(&self) -> KeyView {
        KeyView { window: text::text_of(self.window), pane: self.pane@ }
    }
}

impl Clone for PaneKey {
    fn clone(&self) -> (copy: Self)
        ensures
            copy@ == self@,
    {
        PaneKey {
            window: text::copy_optional_text(&self.window),
            pane: String::from_str(self.pane.as_str()),
        }
    }
}

impl PaneKey {
    /// Whether two addresses are the same.
    pub fn same(&self, other: &PaneKey) -> (same: bool)
        ensures
            same == (self@ == other@),
    {
        text::same_optional_text(&self.window, &other.window) && text::same_text(
            self.pane.as_str(),
            other.pane.as_str(),
        )
    }
}

/// The address a session has.
pub open spec fn key_of(info: SessionView) -> KeyView {
    KeyView { window: info.window_label, pane: info.pane_id }
}

/// The last output that was observed: where it lies in the source, how much it was, and its digest.
#[derive(Debug, PartialEq, Eq)]
pub struct OutputObservation {
    pub from_sequence: u64,
    pub through_sequence: u64,
    pub bytes: u64,
    pub sha256: String,
}

/// The last output as a mathematical value.
pub struct OutputView {
    pub from_sequence: u64,
    pub through_sequence: u64,
    pub bytes: u64,
    pub sha256: Seq<char>,
}

impl View for OutputObservation {
    type V = OutputView;

    open spec fn view(&self) -> OutputView {
        OutputView {
            from_sequence: self.from_sequence,
            through_sequence: self.through_sequence,
            bytes: self.bytes,
            sha256: self.sha256@,
        }
    }
}

/// What is known of one live session.
#[derive(Debug)]
pub struct SessionState {
    pub session: u64,
    pub generation: u64,
    pub key: PaneKey,
    /// Tells the mirror of this session from any other.
    pub mirror: u64,
    pub source_event_sequence: u64,
    pub source_output_sequence: u64,
    pub gaps: u64,
    pub alt_active: bool,
    pub suppressed_replies: u64,
    /// The output sequence that frame requests wait for.
    pub frame_sequence: u64,
    pub cols: u16,
    pub rows: u16,
    pub observed_bytes: u64,
    pub last_output: Option<OutputObservation>,
}

/// A session as a mathematical value.
#[verifier::ext_equal]
pub struct StateView {
    pub session: u64,
    pub generation: u64,
    pub key: KeyView,
    pub mirror: u64,
    pub source_event_sequence: u64,
    pub source_output_sequence: u64,
    pub gaps: u64,
    pub alt_active: bool,
    pub suppressed_replies: u64,
    pub frame_sequence: u64,
    pub cols: u16,
    pub rows: u16,
    pub observed_bytes: u64,
    pub last_output: Option<OutputView>,
}

/// The view of an optional observation.
pub open spec fn output_in(output: Option<OutputObservation>) -> Option<OutputView> {
    match output {
        Some(output) => Some(output@),
        None => None,
    }
}

impl View for SessionState {
    type V = StateView;

    open spec fn view(&self) -> StateView {
        StateView {
            session: self.session,
            generation: self.generation,
            key: self.key@,
            mirror: self.mirror,
            source_event_sequence: self.source_event_sequence,
            source_output_sequence: self.source_output_sequence,
            gaps: self.gaps,
            alt_active: self.alt_active,
            suppressed_replies: self.suppressed_replies,
            frame_sequence: self.frame_sequence,
            cols: self.cols,
            rows: self.rows,
            observed_bytes: self.observed_bytes,
            last_output: output_in(self.last_output),
        }
    }
}

impl Entry for SessionState {
    type Key = KeyView;

    type Value = StateView;

    open spec fn key(&self) -> KeyView {
        self.key@
    }

    open spec fn value(&self) -> StateView {
        self@
    }
}

/// A session whose observation starts now.
pub open spec fn starting(
    info: SessionView,
    start: ObservationStart,
    mirror: u64,
    cols: u16,
    rows: u16,
) -> StateView {
    StateView {
        session: info.session,
        generation: start.generation,
        key: key_of(info),
        mirror,
        source_event_sequence: start.start_event_sequence,
        source_output_sequence: start.start_output_sequence,
        gaps: 0,
        alt_active: false,
        suppressed_replies: 0,
        frame_sequence: start.start_output_sequence,
        cols,
        rows,
        observed_bytes: 0,
        last_output: None,
    }
}

/// A session whose observation starts now.
pub fn new_session_state(
    info: SessionInfo,
    start: ObservationStart,
    mirror: u64,
    cols: u16,
    rows: u16,
) -> (state: SessionState)
    ensures
        state@ == starting(info@, start, mirror, cols, rows),
{
    SessionState {
        session: info.session,
        generation: start.generation,
        key: PaneKey { window: info.window_label, pane: info.pane_id },
        mirror,
        source_event_sequence: start.start_event_sequence,
        source_output_sequence: start.start_output_sequence,
        gaps: 0,
        alt_active: false,
        suppressed_replies: 0,
        frame_sequence: start.start_output_sequence,
        cols,
        rows,
        observed_bytes: 0,
        last_output: None,
    }
}

/// A mirror and the absolute output sequence that was applied to it. Both advance together, so a
/// snapshot of one is a snapshot of the other.
pub struct SourcedMirror<M: TerminalStateMirror> {
    pub mirror: M,
    pub output_sequence: u64,
}

/// What an observed event does to a mirror.
pub open spec fn mirror_step(event: ObservationView) -> Option<MirrorStep> {
    match event {
        ObservationView::Output { bytes, .. } => Some(MirrorStep::Feed { bytes }),
        ObservationView::Resize { cols, rows, .. } => Some(MirrorStep::Resize { cols, rows }),
        _ => None,
    }
}

/// The output sequence of a mirror after an observed event.
pub open spec fn sequence_after(event: ObservationView, before: u64) -> u64 {
    match event {
        ObservationView::Output { through_sequence, .. } => through_sequence,
        _ => before,
    }
}

/// What a mirror shows that its session reports.
#[derive(Debug, Clone, Copy, PartialEq, Eq, Structural)]
pub struct MirrorFacts {
    pub alt_active: bool,
    pub suppressed_replies: u64,
}

impl<M: TerminalStateMirror> SourcedMirror<M> {
    /// A mirror at an output sequence.
    pub fn new(mirror: M, output_sequence: u64) -> (sourced: Self)
        ensures
            sourced.mirror == mirror,
            sourced.output_sequence == output_sequence,
    {
        SourcedMirror { mirror, output_sequence }
    }

    /// Applies an observed event. Output is fed and its sequence taken on in one step.
    pub fn apply(&mut self, event: &ObservationFrame) -> (facts: MirrorFacts)
        ensures
            match mirror_step(event@) {
                Some(step) => final(self).mirror.steps() == old(self).mirror.steps().push(step),
                None => final(self).mirror == old(self).mirror,
            },
            final(self).output_sequence == sequence_after(event@, old(self).output_sequence),
            facts == (MirrorFacts {
                alt_active: final(self).mirror.screen().alt_active,
                suppressed_replies: final(self).mirror.screen().suppressed_replies,
            }),
    {
        match event {
            ObservationFrame::Output { through_sequence, bytes, .. } => {
                self.mirror.feed(bytes.as_slice());
                self.output_sequence = *through_sequence;
            },
            ObservationFrame::Resize { cols, rows, .. } => {
                self.mirror.resize(*cols, *rows);
            },
            _ => {},
        }
        MirrorFacts {
            alt_active: self.mirror.alt_active(),
            suppressed_replies: self.mirror.suppressed_replies(),
        }
    }

    /// The repaint of the terminal, its picture and the exact output sequence they show.
    pub fn snapshot(&self) -> (snapshot: Snapshot)
        ensures
            snapshot.paint@ == self.mirror.repaint(),
            snapshot.sequence == self.output_sequence,
            snapshot.frame@ == crate::delta::full_reply(
                self.mirror.viewport(0),
                self.output_sequence,
            ),
            snapshot.alt_active == self.mirror.screen().alt_active,
    {
        Snapshot {
            paint: self.mirror.rehydrate(),
            sequence: self.output_sequence,
            frame: FrameReply::full(&self.mirror.frame(), self.output_sequence),
            alt_active: self.mirror.alt_active(),
        }
    }

    /// The checkpoint of the terminal at a position.
    pub fn checkpoint(&self, generation: u64, sequence: u64) -> (checkpoint: ArchivedCheckpoint)
        ensures
            checkpoint.generation == generation,
            checkpoint.sequence == sequence,
            checkpoint.paint@ == self.mirror.cold(),
            checkpoint.frame@ == self.mirror.viewport(0),
    {
        ArchivedCheckpoint {
            generation,
            sequence,
            paint: self.mirror.cold_paint(),
            frame: self.mirror.frame(),
        }
    }

    /// The checkpoint of the terminal at the exact output sequence it shows.
    pub fn archive(&self, generation: u64) -> (checkpoint: ArchivedCheckpoint)
        ensures
            checkpoint.generation == generation,
            checkpoint.sequence == self.output_sequence,
            checkpoint.paint@ == self.mirror.cold(),
            checkpoint.frame@ == self.mirror.viewport(0),
    {
        self.checkpoint(generation, self.output_sequence)
    }
}

/// A terminal at one output sequence.
pub struct Snapshot {
    pub paint: Vec<u8>,
    pub sequence: u64,
    pub frame: FrameReply,
    pub alt_active: bool,
}

/// What the checkpoint worker is told.
#[derive(Debug, Clone, Copy, PartialEq, Eq, Structural)]
pub enum CheckpointEvent {
    /// There is new output.
    Dirty { generation: u64, sequence: u64 },
    /// There will be no more.
    Final { generation: u64, sequence: u64 },
}

/// One more, as far as can be counted.
pub open spec fn one_more(n: u64) -> u64 {
    if n < u64::MAX {
        (n + 1) as u64
    } else {
        n
    }
}

/// The sum, as far as can be counted.
pub open spec fn summed(a: u64, b: nat) -> u64 {
    if a + b <= u64::MAX {
        (a + b) as u64
    } else {
        u64::MAX
    }
}

/// A session after an observed event.
pub open spec fn state_after(
    state: StateView,
    event: ObservationView,
    facts: MirrorFacts,
) -> StateView {
    match event {
        ObservationView::Output { event_sequence, from_sequence, through_sequence, bytes } => {
            StateView {
                source_event_sequence: event_sequence,
                source_output_sequence: through_sequence,
                alt_active: facts.alt_active,
                suppressed_replies: facts.suppressed_replies,
                frame_sequence: through_sequence,
                observed_bytes: summed(state.observed_bytes, bytes.len()),
                last_output: Some(
                    OutputView {
                        from_sequence,
                        through_sequence,
                        bytes: bytes.len() as u64,
                        sha256: text::hex(crypto::sha256(bytes)),
                    },
                ),
                ..state
            }
        },
        ObservationView::Resize { event_sequence, cols, rows } => StateView {
            source_event_sequence: event_sequence,
            cols,
            rows,
            ..state
        },
        ObservationView::Gap { through_event_sequence, through_sequence, .. } => StateView {
            gaps: one_more(state.gaps),
            source_event_sequence: through_event_sequence,
            source_output_sequence: through_sequence,
            frame_sequence: through_sequence,
            ..state
        },
        ObservationView::End { .. } => state,
        ObservationView::Opened { .. } => StateView { gaps: one_more(state.gaps), ..state },
    }
}

/// Whether an event goes to the mirror: output of a session that is no longer listed does not.
pub open spec fn reaches(known: bool, event: ObservationView) -> bool {
    known || !(event is Output)
}

/// Whether a session goes on after an event: the end of the source, and an opening where none is
/// due, end it.
pub open spec fn goes_on(event: ObservationView) -> bool {
    !(event is End) && !(event is Opened)
}

/// What the checkpoint worker is told of an event.
pub open spec fn event_for(state: StateView, event: ObservationView) -> Option<CheckpointEvent> {
    match event {
        ObservationView::Output { through_sequence, .. } => Some(
            CheckpointEvent::Dirty { generation: state.generation, sequence: through_sequence },
        ),
        ObservationView::End { .. } => Some(
            CheckpointEvent::Final {
                generation: state.generation,
                sequence: state.source_output_sequence,
            },
        ),
        _ => None,
    }
}

/// What an observed event came to.
#[derive(Debug, Clone, Copy, PartialEq, Eq, Structural)]
pub struct Applied {
    /// The session goes on.
    pub goes_on: bool,
    pub event: Option<CheckpointEvent>,
}

/// The live sessions, one per terminal.
#[derive(Debug)]
pub struct Registry {
    sessions: Vec<SessionState>,
}

impl View for Registry {
    type V = Map<KeyView, StateView>;

    closed spec fn view(&self) -> Map<KeyView, StateView> {
        table::table(self.sessions@)
    }
}

impl Registry {
    /// No terminal is listed twice.
    pub closed spec fn wf(&self) -> bool {
        table::distinct(self.sessions@)
    }

    /// The sessions in the order they are listed.
    pub closed spec fn listed(&self) -> Seq<StateView> {
        Seq::new(self.sessions@.len(), |i: int| self.sessions@[i]@)
    }

    pub fn new() -> (registry: Self)
        ensures
            registry.wf(),
            registry@ == Map::<KeyView, StateView>::empty(),
            registry.listed() == Seq::<StateView>::empty(),
    {
        let registry = Registry { sessions: Vec::new() };
        assert(registry.listed() =~= Seq::<StateView>::empty());
        registry
    }

    fn position(&self, key: &PaneKey) -> (at: Option<usize>)
        requires
            self.wf(),
        ensures
            at is Some == self@.contains_key(key@),
            at matches Some(i) ==> i < self.sessions@.len() && self.sessions@[i as int].key@ == key@
                && self@[key@] == self.sessions@[i as int]@,
    {
        proof {
            table::lemma_table(self.sessions@);
        }
        let mut i: usize = 0;
        while i < self.sessions.len()
            invariant
                self.wf(),
                i <= self.sessions@.len(),
                forall|j: int| 0 <= j < i ==> (#[trigger] self.sessions@[j]).key() != key@,
            decreases self.sessions@.len() - i,
        {
            if self.sessions[i].key.same(key) {
                proof {
                    table::lemma_table(self.sessions@);
                    assert(self@.contains_key(self.sessions@[i as int].key()));
                }
                return Some(i);
            }
            i = i + 1;
        }
        None
    }

    /// The session of a terminal.
    pub fn get(&self, key: &PaneKey) -> (state: Option<&SessionState>)
        requires
            self.wf(),
        ensures
            match state {
                Some(state) => self@.contains_key(key@) && state@ == self@[key@],
                None => !self@.contains_key(key@),
            },
    {
        match self.position(key) {
            Some(i) => Some(&self.sessions[i]),
            None => None,
        }
    }

    /// Whether a terminal has a session.
    pub fn contains(&self, key: &PaneKey) -> (yes: bool)
        requires
            self.wf(),
        ensures
            yes == self@.contains_key(key@),
    {
        self.position(key).is_some()
    }

    /// Puts a session in the place of its terminal.
    pub fn insert(&mut self, state: SessionState)
        requires
            old(self).wf(),
        ensures
            final(self).wf(),
            final(self)@ == old(self)@.insert(state.key@, state@),
    {
        match self.position(&state.key) {
            Some(i) => {
                proof {
                    table::lemma_table_update(self.sessions@, i as int, state);
                }
                self.sessions.set(i, state);
            },
            None => {
                proof {
                    table::lemma_table_push(self.sessions@, state);
                }
                self.sessions.push(state);
            },
        }
    }

    /// Removes the session of a terminal if it is the one of `mirror`. A consumer that ended cannot
    /// remove the session that replaced its own.
    pub fn remove_session_if_owner(&mut self, key: &PaneKey, mirror: u64) -> (owned: bool)
        requires
            old(self).wf(),
        ensures
            final(self).wf(),
            owned == (old(self)@.contains_key(key@) && old(self)@[key@].mirror == mirror),
            final(self)@ == if owned {
                old(self)@.remove(key@)
            } else {
                old(self)@
            },
    {
        match self.position(key) {
            Some(i) => if self.sessions[i].mirror == mirror {
                proof {
                    table::lemma_table_remove(self.sessions@, i as int);
                }
                self.sessions.remove(i);
                true
            } else {
                false
            },
            None => false,
        }
    }

    /// Whether an event goes to the mirror of a session. It is asked before the mirror is fed, so
    /// that the registry need not be held while it is.
    pub fn reaches(&self, key: &PaneKey, event: &ObservationFrame) -> (yes: bool)
        requires
            self.wf(),
        ensures
            yes == reaches(self@.contains_key(key@), event@),
    {
        match event {
            ObservationFrame::Output { .. } => self.contains(key),
            _ => true,
        }
    }

    /// Records an observed event that was applied to the mirror of a terminal. A terminal without
    /// a session is no longer observed.
    pub fn record(&mut self, key: &PaneKey, event: &ObservationFrame, facts: MirrorFacts) -> (applied:
        Applied)
        requires
            old(self).wf(),
        ensures
            final(self).wf(),
            if old(self)@.contains_key(key@) {
                &&& applied == (Applied {
                    goes_on: goes_on(event@),
                    event: event_for(old(self)@[key@], event@),
                })
                &&& final(self)@ == old(self)@.insert(
                    key@,
                    state_after(old(self)@[key@], event@, facts),
                )
            } else {
                applied == (Applied { goes_on: false, event: None }) && final(self)@ == old(self)@
            },
    {
        let at: usize = match self.position(key) {
            Some(at) => at,
            None => return Applied { goes_on: false, event: None },
        };
        let ghost before = self.sessions@;
        let told = match event {
            ObservationFrame::Output { through_sequence, .. } => Some(
                CheckpointEvent::Dirty {
                    generation: self.sessions[at].generation,
                    sequence: *through_sequence,
                },
            ),
            ObservationFrame::End { .. } => Some(
                CheckpointEvent::Final {
                    generation: self.sessions[at].generation,
                    sequence: self.sessions[at].source_output_sequence,
                },
            ),
            _ => None,
        };
        let goes_on = match event {
            ObservationFrame::End { .. } => false,
            ObservationFrame::Opened { .. } => false,
            _ => true,
        };
        advance(&mut self.sessions[at], event, facts);
        proof {
            table::lemma_table_update(before, at as int, self.sessions@[at as int]);
            assert(self.sessions@ =~= before.update(at as int, self.sessions@[at as int]));
        }
        Applied { goes_on, event: told }
    }
}

fn advance(state: &mut SessionState, event: &ObservationFrame, facts: MirrorFacts)
    ensures
        final(state)@ == state_after(old(state)@, event@, facts),
{
    match event {
        ObservationFrame::Output { event_sequence, from_sequence, through_sequence, bytes } => {
            state.source_event_sequence = *event_sequence;
            state.source_output_sequence = *through_sequence;
            state.alt_active = facts.alt_active;
            state.suppressed_replies = facts.suppressed_replies;
            state.frame_sequence = *through_sequence;
            let length: u64 = bytes.len() as u64;
            state.observed_bytes = if state.observed_bytes <= u64::MAX - length {
                state.observed_bytes + length
            } else {
                u64::MAX
            };
            let digest = crypto::digest(bytes.as_slice());
            state.last_output = Some(
                OutputObservation {
                    from_sequence: *from_sequence,
                    through_sequence: *through_sequence,
                    bytes: length,
                    sha256: text::hex_text(vstd::array::array_as_slice(&digest)),
                },
            );
        },
        ObservationFrame::Resize { event_sequence, cols, rows } => {
            state.source_event_sequence = *event_sequence;
            state.cols = *cols;
            state.rows = *rows;
        },
        ObservationFrame::Gap { through_event_sequence, through_sequence, .. } => {
            if state.gaps < u64::MAX {
                state.gaps = state.gaps + 1;
            }
            state.source_event_sequence = *through_event_sequence;
            state.source_output_sequence = *through_sequence;
            state.frame_sequence = *through_sequence;
        },
        ObservationFrame::End { .. } => {},
        ObservationFrame::Opened { .. } => {
            if state.gaps < u64::MAX {
                state.gaps = state.gaps + 1;
            }
        },
    }
}

/// Applies an observed event to a terminal: to its mirror, and then to its session.
pub fn apply_observation<M: TerminalStateMirror>(
    event: &ObservationFrame,
    mirror: &mut SourcedMirror<M>,
    registry: &mut Registry,
    key: &PaneKey,
) -> (applied: Applied)
    requires
        old(registry).wf(),
    ensures
        final(registry).wf(),
        ({
            let known = old(registry)@.contains_key(key@);
            &&& match mirror_step(event@) {
                Some(step) if reaches(known, event@) => final(mirror).mirror.steps() == old(
                    mirror,
                ).mirror.steps().push(step) && final(mirror).output_sequence == sequence_after(
                    event@,
                    old(mirror).output_sequence,
                ),
                _ => *final(mirror) == *old(mirror),
            }
            &&& if known {
                &&& applied == (Applied {
                    goes_on: goes_on(event@),
                    event: event_for(old(registry)@[key@], event@),
                })
                &&& final(registry)@ == old(registry)@.insert(
                    key@,
                    state_after(
                        old(registry)@[key@],
                        event@,
                        MirrorFacts {
                            alt_active: final(mirror).mirror.screen().alt_active,
                            suppressed_replies: final(mirror).mirror.screen().suppressed_replies,
                        },
                    ),
                )
            } else {
                applied == (Applied { goes_on: false, event: None }) && final(registry)@ == old(
                    registry,
                )@
            }
        }),
{
    if !registry.reaches(key, event) {
        return Applied { goes_on: false, event: None };
    }
    let facts = mirror.apply(event);
    registry.record(key, event, facts)
}

/// A text that may be absent, as it is reported.
pub open spec fn optional_text_json(value: Option<Seq<char>>) -> JsonView {
    match value {
        Some(text) => JsonView::Text(text),
        None => JsonView::Null,
    }
}

/// The last output as it is reported.
pub open spec fn output_json(output: Option<OutputView>) -> JsonView {
    match output {
        Some(output) => JsonView::Object(
            map![
                "fromSequence"@ => JsonView::Unsigned(output.from_sequence),
                "throughSequence"@ => JsonView::Unsigned(output.through_sequence),
                "bytes"@ => JsonView::Unsigned(output.bytes),
                "sha256"@ => JsonView::Text(output.sha256),
            ],
        ),
        None => JsonView::Null,
    }
}

/// A session as it is reported.
pub open spec fn session_json(state: StateView) -> JsonView {
    JsonView::Object(
        map![
            "session"@ => JsonView::Unsigned(state.session),
            "generation"@ => JsonView::Unsigned(state.generation),
            "window"@ => optional_text_json(state.key.window),
            "pane"@ => JsonView::Text(state.key.pane),
            "eventSequence"@ => JsonView::Unsigned(state.source_event_sequence),
            "cols"@ => JsonView::Unsigned(state.cols as u64),
            "rows"@ => JsonView::Unsigned(state.rows as u64),
            "outputSequence"@ => JsonView::Unsigned(state.source_output_sequence),
            "gaps"@ => JsonView::Unsigned(state.gaps),
            "altActive"@ => JsonView::Bool(state.alt_active),
            "suppressedReplies"@ => JsonView::Unsigned(state.suppressed_replies),
            "observedBytes"@ => JsonView::Unsigned(state.observed_bytes),
            "lastOutput"@ => output_json(state.last_output),
        ],
    )
}

fn optional_text(value: &Option<String>) -> (json: Value)
    ensures
        json::json_of(json) == optional_text_json(text::text_of(*value)),
{
    match value {
        Some(text) => json::string(text.as_str()),
        None => json::null(),
    }
}

fn output_status(output: &Option<OutputObservation>) -> (value: Value)
    ensures
        json::json_of(value) == output_json(output_in(*output)),
{
    match output {
        Some(output) => {
            let mut members = json::new_members();
            json::put(&mut members, "fromSequence", json::unsigned(output.from_sequence));
            json::put(&mut members, "throughSequence", json::unsigned(output.through_sequence));
            json::put(&mut members, "bytes", json::unsigned(output.bytes));
            json::put(&mut members, "sha256", json::string(output.sha256.as_str()));
            json::object(members)
        },
        None => json::null(),
    }
}

fn session_status(state: &SessionState) -> (value: Value)
    ensures
        json::json_of(value) == session_json(state@),
{
    let mut members = json::new_members();
    json::put(&mut members, "session", json::unsigned(state.session));
    json::put(&mut members, "generation", json::unsigned(state.generation));
    json::put(&mut members, "window", optional_text(&state.key.window));
    json::put(&mut members, "pane", json::string(state.key.pane.as_str()));
    json::put(&mut members, "eventSequence", json::unsigned(state.source_event_sequence));
    json::put(&mut members, "cols", json::unsigned(state.cols as u64));
    json::put(&mut members, "rows", json::unsigned(state.rows as u64));
    json::put(&mut members, "outputSequence", json::unsigned(state.source_output_sequence));
    json::put(&mut members, "gaps", json::unsigned(state.gaps));
    json::put(&mut members, "altActive", json::boolean(state.alt_active));
    json::put(&mut members, "suppressedReplies", json::unsigned(state.suppressed_replies));
    json::put(&mut members, "observedBytes", json::unsigned(state.observed_bytes));
    json::put(&mut members, "lastOutput", output_status(&state.last_output));
    json::object(members)
}

/// The sessions as they are reported.
pub open spec fn sessions_json(states: Seq<StateView>) -> Seq<JsonView> {
    Seq::new(states.len(), |i: int| session_json(states[i]))
}

/// The report of every session and of what the engine can report.
pub fn status_snapshot(registry: &Registry, capabilities: MirrorCapabilities) -> (value: Value)
    ensures
        json::json_of(value) == JsonView::Object(
            map![
                "sessions"@ => JsonView::Array(sessions_json(registry.listed())),
                "capabilities"@ => report::capabilities_json(capabilities),
            ],
        ),
{
    let mut sessions: Vec<Value> = Vec::new();
    let mut i: usize = 0;
    while i < registry.sessions.len()
        invariant
            i <= registry.sessions@.len(),
            sessions@.len() == i,
            forall|j: int|
                0 <= j < i ==> json::json_of(#[trigger] sessions@[j]) == session_json(
                    registry.sessions@[j]@,
                ),
        decreases registry.sessions@.len() - i,
    {
        sessions.push(session_status(&registry.sessions[i]));
        i = i + 1;
    }
    assert(json::jsons_of(sessions@) =~= sessions_json(registry.listed()));
    let mut members = json::new_members();
    json::put(&mut members, "sessions", json::array(sessions));
    json::put(&mut members, "capabilities", report::capabilities_value(capabilities));
    json::object(members)
}

/// The report lists every session, and each once.
pub proof fn law_status_lists_every_session(registry: &Registry, key: KeyView)
    requires
        registry.wf(),
        registry@.contains_key(key),
    ensures
        registry.listed().contains(registry@[key]),
        registry.listed().len() == registry@.dom().len(),
{
    table::lemma_table(registry.sessions@);
    let i = choose|i: int|
        0 <= i < registry.sessions@.len() && (#[trigger] registry.sessions@[i]).key() == key;
    assert(registry.listed()[i] == registry@[key]);
}

/// A sequence never advances without its bytes: after output was observed, the session's output
/// sequence, what frame requests wait for and the mirror's own sequence are all the end of that
/// output, and the bytes were fed exactly once.
pub proof fn law_output_advances_together(
    state: StateView,
    event: ObservationView,
    facts: MirrorFacts,
    before: u64,
)
    requires
        event is Output,
    ensures
        state_after(state, event, facts).source_output_sequence == sequence_after(event, before),
        state_after(state, event, facts).frame_sequence == sequence_after(event, before),
        mirror_step(event) == Some(MirrorStep::Feed { bytes: event->Output_bytes }),
        state_after(state, event, facts).last_output matches Some(output) && output.bytes
            == event->Output_bytes.len() as u64 && output.through_sequence == sequence_after(
            event,
            before,
        ),
{
}

} // verus!
