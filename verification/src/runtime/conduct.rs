//! What sessions and requests keep, whatever happens to them.

use vstd::prelude::*;

use crate::bytes;
use crate::crypto;
use crate::daemon::{
    self, Delivery, NextStep, ObservationFrame, ObservationStart, ObservationView, SessionInfo,
    SessionView,
};
use crate::delta::{self, BaselineView};
use crate::display::{self, Display};
use crate::json::{self, JsonView};
use crate::runtime::checkpointing::{self, Work};
use crate::runtime::registry::{
    self, CheckpointEvent, KeyView, MirrorFacts, OutputView, Registry, SourcedMirror, StateView,
};
use crate::runtime::requests::{
    self, EnsureRequest, EnsureStep, FrameRequestView, WaitStep,
};
use crate::runtime::service;
use crate::state::{MirrorStep, TerminalStateMirror};
use crate::text;

verus! {

/// Whatever is observed, a session stays the same session of the same pane and mirror. Output moves
/// it to the end of that output, counts its bytes and records them with their digest; a resize moves
/// it to the new size; a gap is counted and moves it past what was missed; the end changes nothing;
/// and a second opening counts as a gap.
pub proof fn law_event_moves_a_session(state: StateView, event: ObservationView, facts: MirrorFacts)
    ensures
        ({
            let after = registry::state_after(state, event, facts);
            &&& (after.session, after.generation, after.key, after.mirror) == (
                state.session,
                state.generation,
                state.key,
                state.mirror,
            )
            &&& !(event is Resize) ==> (after.cols, after.rows) == (state.cols, state.rows)
            &&& !(event is Output) ==> (
                after.observed_bytes,
                after.last_output,
                after.alt_active,
                after.suppressed_replies,
            ) == (
                state.observed_bytes,
                state.last_output,
                state.alt_active,
                state.suppressed_replies,
            )
            &&& !(event is Gap) && !(event is Opened) ==> after.gaps == state.gaps
            &&& (event is Gap || event is Opened) && state.gaps < u64::MAX ==> after.gaps
                == state.gaps + 1
            &&& match event {
                ObservationView::Output {
                    event_sequence,
                    from_sequence,
                    through_sequence,
                    bytes,
                } => {
                    &&& after.source_event_sequence == event_sequence
                    &&& after.source_output_sequence == through_sequence
                    &&& after.frame_sequence == through_sequence
                    &&& after.alt_active == facts.alt_active
                    &&& after.suppressed_replies == facts.suppressed_replies
                    &&& state.observed_bytes + bytes.len() <= u64::MAX ==> after.observed_bytes
                        == state.observed_bytes + bytes.len()
                    &&& after.last_output == Some(
                        OutputView {
                            from_sequence,
                            through_sequence,
                            bytes: bytes.len() as u64,
                            sha256: text::hex(crypto::sha256(bytes)),
                        },
                    )
                },
                ObservationView::Resize { event_sequence, cols, rows } => {
                    &&& (after.cols, after.rows) == (cols, rows)
                    &&& after.source_event_sequence == event_sequence
                    &&& after.source_output_sequence == state.source_output_sequence
                    &&& after.frame_sequence == state.frame_sequence
                },
                ObservationView::Gap { through_event_sequence, through_sequence, .. } => {
                    &&& after.source_event_sequence == through_event_sequence
                    &&& after.source_output_sequence == through_sequence
                    &&& after.frame_sequence == through_sequence
                },
                ObservationView::End { .. } => after == state,
                ObservationView::Opened { .. } => {
                    &&& after.source_event_sequence == state.source_event_sequence
                    &&& after.source_output_sequence == state.source_output_sequence
                    &&& after.frame_sequence == state.frame_sequence
                },
            }
        }),
{
}

/// The mirror is fed the bytes of every output and given every new size, and nothing else; its
/// sequence is the end of the last output. Output of a session that is no longer listed reaches it
/// no more. Only the end and a second opening stop the observation. Output owes a checkpoint at its
/// end, the end a last one at the session's output, and nothing else owes any.
pub proof fn law_mirror_follows_the_events(state: StateView, event: ObservationView, before: u64)
    ensures
        match event {
            ObservationView::Output { bytes, through_sequence, .. } => {
                &&& registry::mirror_step(event) == Some(MirrorStep::Feed { bytes })
                &&& registry::sequence_after(event, before) == through_sequence
                &&& registry::event_for(state, event) == Some(
                    CheckpointEvent::Dirty {
                        generation: state.generation,
                        sequence: through_sequence,
                    },
                )
                &&& !registry::reaches(false, event)
                &&& registry::reaches(true, event)
                &&& registry::goes_on(event)
            },
            ObservationView::Resize { cols, rows, .. } => {
                &&& registry::mirror_step(event) == Some(MirrorStep::Resize { cols, rows })
                &&& registry::sequence_after(event, before) == before
                &&& registry::event_for(state, event) is None
                &&& registry::goes_on(event)
            },
            ObservationView::Gap { .. } => {
                &&& registry::mirror_step(event) is None
                &&& registry::sequence_after(event, before) == before
                &&& registry::event_for(state, event) is None
                &&& registry::goes_on(event)
            },
            ObservationView::End { .. } => {
                &&& registry::mirror_step(event) is None
                &&& registry::sequence_after(event, before) == before
                &&& registry::event_for(state, event) == Some(
                    CheckpointEvent::Final {
                        generation: state.generation,
                        sequence: state.source_output_sequence,
                    },
                )
                &&& !registry::goes_on(event)
            },
            ObservationView::Opened { .. } => {
                &&& registry::mirror_step(event) is None
                &&& registry::event_for(state, event) is None
                &&& !registry::goes_on(event)
            },
        },
{
}

/// A session starts where its observation does, under the window and pane it was listed with, and
/// with nothing counted.
pub proof fn law_session_starts_at_its_observation(
    info: SessionView,
    start: ObservationStart,
    mirror: u64,
    cols: u16,
    rows: u16,
)
    ensures
        ({
            let state = registry::starting(info, start, mirror, cols, rows);
            &&& state.session == info.session
            &&& state.generation == start.generation
            &&& state.key == (KeyView { window: info.window_label, pane: info.pane_id })
            &&& state.mirror == mirror
            &&& state.source_event_sequence == start.start_event_sequence
            &&& state.source_output_sequence == start.start_output_sequence
            &&& state.frame_sequence == start.start_output_sequence
            &&& (state.cols, state.rows) == (cols, rows)
            &&& (state.gaps, state.observed_bytes, state.suppressed_replies) == (0u64, 0u64, 0u64)
            &&& state.last_output is None
            &&& !state.alt_active
        }),
{
}

proof fn lemma_word(payload: Seq<u8>, at: int, n: u64)
    requires
        0 <= at <= payload.len() - 8,
        payload.subrange(at, at + 8) == bytes::big_endian(n as nat, 8),
    ensures
        daemon::word(payload, at) == n,
{
    bytes::lemma_u64_reads_back(n);
}

/// Four numbers of eight bytes each.
pub open spec fn four_words(a: u64, b: u64, c: u64, d: u64) -> Seq<u8> {
    bytes::big_endian(a as nat, 8) + bytes::big_endian(b as nat, 8) + bytes::big_endian(c as nat, 8)
        + bytes::big_endian(d as nat, 8)
}

/// An observation that the PTY sidecar sends is read as it was sent: its numbers are big endian and
/// in order, and the bytes of output follow them.
pub proof fn law_observation_reads_back(a: u64, b: u64, c: u64, d: u64, output: Seq<u8>)
    ensures
        daemon::observed(
            0,
            bytes::big_endian(a as nat, 8) + bytes::big_endian(b as nat, 8) + bytes::big_endian(
                c as nat,
                8,
            ) + output,
        ) == Some(
            ObservationView::Output {
                event_sequence: a,
                from_sequence: b,
                through_sequence: c,
                bytes: output,
            },
        ),
        daemon::observed(1, four_words(a, b, c, d)) == Some(
            ObservationView::Gap {
                from_event_sequence: a,
                through_event_sequence: b,
                from_sequence: c,
                through_sequence: d,
            },
        ),
        daemon::observed(4, four_words(a, b, c, d)) == Some(
            ObservationView::Opened {
                session: a,
                generation: b,
                event_sequence: c,
                output_sequence: d,
            },
        ),
{
    bytes::lemma_u64_reads_back(a);
    bytes::lemma_u64_reads_back(b);
    bytes::lemma_u64_reads_back(c);
    bytes::lemma_u64_reads_back(d);
    let (p, q, r, s) = (
        bytes::big_endian(a as nat, 8),
        bytes::big_endian(b as nat, 8),
        bytes::big_endian(c as nat, 8),
        bytes::big_endian(d as nat, 8),
    );
    let x = p + q + r + output;
    assert(x.subrange(0, 8) =~= p);
    assert(x.subrange(8, 16) =~= q);
    assert(x.subrange(16, 24) =~= r);
    assert(x.skip(24) =~= output);
    lemma_word(x, 0, a);
    lemma_word(x, 8, b);
    lemma_word(x, 16, c);
    let y = p + q + r + s;
    assert(y.subrange(0, 8) =~= p);
    assert(y.subrange(8, 16) =~= q);
    assert(y.subrange(16, 24) =~= r);
    assert(y.subrange(24, 32) =~= s);
    lemma_word(y, 0, a);
    lemma_word(y, 8, b);
    lemma_word(y, 16, c);
    lemma_word(y, 24, d);
}

/// A new size and the end of a session are read as they were sent: an event sequence, and then two
/// numbers of two bytes, or the exit code in four.
pub proof fn law_size_and_end_read_back(a: u64, cols: u16, rows: u16, exit_code: i32)
    ensures
        daemon::observed(
            2,
            bytes::big_endian(a as nat, 8) + bytes::big_endian(cols as nat, 2) + bytes::big_endian(
                rows as nat,
                2,
            ),
        ) == Some(ObservationView::Resize { event_sequence: a, cols, rows }),
        daemon::observed(
            3,
            bytes::big_endian(a as nat, 8) + bytes::big_endian(
                (if exit_code < 0 {
                    exit_code + 0x1_0000_0000
                } else {
                    exit_code as int
                }) as nat,
                4,
            ),
        ) == Some(ObservationView::End { event_sequence: a, exit_code }),
{
    let code: nat = (if exit_code < 0 {
        exit_code + 0x1_0000_0000
    } else {
        exit_code as int
    }) as nat;
    reveal_with_fuel(bytes::bound, 5);
    bytes::lemma_u64_reads_back(a);
    bytes::lemma_reads_back(cols as nat, 2);
    bytes::lemma_reads_back(rows as nat, 2);
    bytes::lemma_reads_back(code, 4);
    let (p, c, r, e) = (
        bytes::big_endian(a as nat, 8),
        bytes::big_endian(cols as nat, 2),
        bytes::big_endian(rows as nat, 2),
        bytes::big_endian(code, 4),
    );
    let x = p + c + r;
    assert(x.subrange(0, 8) =~= p);
    assert(x.subrange(8, 10) =~= c);
    assert(x.subrange(10, 12) =~= r);
    lemma_word(x, 0, a);
    let y = p + e;
    assert(y.subrange(0, 8) =~= p);
    assert(y.subrange(8, 12) =~= e);
    lemma_word(y, 0, a);
}

/// A live terminal is handed over only where its mirror missed nothing, and it is the session of the
/// pane that was asked for.
pub proof fn law_handover_needs_every_event(
    sessions: Map<KeyView, StateView>,
    request: JsonView,
    window: Option<Seq<char>>,
    pane: Seq<char>,
)
    requires
        json::text_in(json::member(request, "window"@)) == window,
        json::text_in(json::member(request, "pane"@)) == Some(pane),
    ensures
        ({
            let key = KeyView { window, pane };
            let handed = requests::handover(sessions, request);
            &&& handed is Ok <==> sessions.contains_key(key) && sessions[key].gaps == 0
            &&& handed is Ok ==> handed == Ok::<StateView, JsonView>(sessions[key])
            &&& !sessions.contains_key(key) ==> handed == Err::<StateView, JsonView>(
                service::failure("NOT_FOUND"@, "no live terminal-state mirror for this key"@),
            )
            &&& sessions.contains_key(key) && sessions[key].gaps > 0 ==> handed == Err::<
                StateView,
                JsonView,
            >(
                service::failure(
                    "SOURCE_GAP"@,
                    "the terminal-state observer missed source events"@,
                ),
            )
        }),
{
}

/// A wait ends at once when what is waited for is there, is given up at the deadline and not before,
/// and otherwise goes on for exactly what is left. No deadline lies beyond thirty seconds.
pub proof fn law_wait_keeps_its_deadline(
    request: JsonView,
    reached: bool,
    elapsed_ms: u64,
    timeout_ms: u64,
)
    ensures
        requests::timeout_in(request) <= 30_000,
        json::unsigned_in(json::member(request, "timeoutMs"@)) matches Some(asked) && asked <= 30_000
            ==> requests::timeout_in(request) == json::unsigned_in(
            json::member(request, "timeoutMs"@),
        )->0,
        match requests::step_of(reached, elapsed_ms, timeout_ms) {
            WaitStep::Ready => reached,
            WaitStep::TimedOut => !reached && elapsed_ms >= timeout_ms,
            WaitStep::Wait(left) => !reached && left > 0 && elapsed_ms + left == timeout_ms,
        },
{
}

/// A frame request is answered for the mirror's own sequence, against what that subscriber holds and
/// nobody else, at the wanted offset as far as there is history.
pub proof fn law_frame_answer_is_for_its_subscriber<M: TerminalStateMirror>(
    mirror: SourcedMirror<M>,
    subscribers: Map<Seq<char>, BaselineView>,
    request: FrameRequestView,
)
    ensures
        ({
            let screen = mirror.mirror.screen();
            let (reply, kept) = requests::frame_reply_of(mirror, subscribers, request);
            let offset: usize = if screen.alt_active {
                0
            } else if request.offset >= screen.history_size {
                screen.history_size
            } else {
                request.offset as usize
            };
            let frame = mirror.mirror.viewport(offset);
            &&& reply.output_sequence == mirror.output_sequence
            &&& !subscribers.contains_key(request.subscriber) ==> reply.full && reply.lines
                == frame.lines
            &&& subscribers.contains_key(request.subscriber) ==> reply == delta::delta_reply(
                Some(subscribers[request.subscriber]),
                frame,
                mirror.output_sequence,
            )
            &&& kept.hashes.len() == frame.lines.len()
            &&& forall|i: int|
                0 <= i < frame.lines.len() ==> #[trigger] kept.hashes[i] == delta::hash_of(
                    frame.lines[i],
                )
            &&& (kept.cols, kept.rows, kept.alt_active, kept.offset) == (
                frame.cols,
                frame.rows,
                frame.alt_active,
                frame.offset,
            )
        }),
{
}

/// The breaks behind a replayed archive move a terminal down by that many lines, so that all of the
/// archive is above what follows.
pub proof fn law_breaks_move_the_archive_up(d: Display, rows: nat)
    requires
        d.pending.len() == 0,
    ensures
        display::textual(requests::line_breaks(rows)),
        display::showing(d, requests::line_breaks(rows)) == (Display { row: d.row + rows, ..d }),
    decreases rows,
{
    if rows == 0 {
        display::lemma_text_shows(d, Seq::empty());
        assert(text::utf8(Seq::empty()) =~= requests::line_breaks(0));
    } else {
        let before = requests::line_breaks((rows - 1) as nat);
        law_breaks_move_the_archive_up(d, (rows - 1) as nat);
        let middle = display::showing(d, before);
        crate::repaint::lemma_line_break(middle);
        reveal_strlit("\r\n");
        vstd::utf8::is_ascii_chars_encode_utf8("\r\n"@);
        assert(text::utf8("\r\n"@) =~= seq![13u8, 10u8]);
        display::lemma_shows_both(d, before, text::utf8("\r\n"@));
        assert(before + text::utf8("\r\n"@) =~= requests::line_breaks(rows));
    }
}

/// The last checkpoint of a session is written at once, and any other is gathered for a quarter of a
/// second and then written at its own position.
pub proof fn law_checkpoints_are_gathered(latest: CheckpointEvent, elapsed_ms: u64)
    ensures
        match latest {
            CheckpointEvent::Final { generation, sequence } => checkpointing::work_after(
                latest,
                elapsed_ms,
            ) == (Work::Write { generation, sequence, last: true }),
            CheckpointEvent::Dirty { generation, sequence } => if elapsed_ms >= 250 {
                checkpointing::work_after(latest, elapsed_ms) == (Work::Write {
                    generation,
                    sequence,
                    last: false,
                })
            } else {
                checkpointing::work_after(latest, elapsed_ms) == Work::Gather(
                    (250 - elapsed_ms) as u64,
                )
            },
        },
{
}

/// A terminal whose observer was prepared ahead starts as a new generation and has its archive
/// replayed; one that is observed while it runs has not.
pub proof fn law_only_a_new_generation_is_restored(
    request: &EnsureRequest,
    observer: &Option<Result<ObservationStart, String>>,
    prepared: EnsureStep,
    info: SessionInfo,
    observed: &Result<ObservationStart, String>,
    attached: EnsureStep,
    start: ObservationStart,
)
    requires
        *observer == Some(Ok::<ObservationStart, String>(start)),
        *observed == Ok::<ObservationStart, String>(start),
        call_ensures(requests::ensure_prepared, (request, observer), prepared),
        call_ensures(requests::ensure_observed, (info, observed), attached),
    ensures
        prepared matches EnsureStep::Open(opening) && opening.restore && opening.start == start
            && opening.info@.session == start.session && opening.info@.generation
            == start.generation && opening.info@.pane_id == request.key@.pane
            && opening.info@.window_label == request.key@.window,
        attached matches EnsureStep::Open(opening) && !opening.restore && opening.start == start
            && opening.info@ == info@,
{
}

/// A terminal that is already observed is left alone, one that is not listed is not observed, and any
/// other listed one is.
pub proof fn law_terminal_is_observed_once(
    registry: &Registry,
    request: &EnsureRequest,
    sessions: &Result<Vec<SessionInfo>, String>,
    listed: Vec<SessionInfo>,
    step: EnsureStep,
)
    requires
        registry.wf(),
        *sessions == Ok::<Vec<SessionInfo>, String>(listed),
        call_ensures(requests::ensure_listed, (registry, request, sessions), step),
    ensures
        registry@.contains_key(request.key@) ==> step is Answer,
        (forall|i: int|
            0 <= i < listed@.len() ==> registry::key_of((#[trigger] listed@[i])@) != request.key@)
            ==> step is Answer,
        step matches EnsureStep::Observe(info) ==> registry::key_of(info@) == request.key@
            && !registry@.contains_key(request.key@),
        !(step is Open),
{
    let views = daemon::session_views(listed@);
    lemma_first(views, request.key@, 0);
    let at = requests::first_of(views, request.key@, 0);
    if at < views.len() {
        assert(views[at] == listed@[at]@);
    }
}

proof fn lemma_first(sessions: Seq<SessionView>, key: KeyView, from: int)
    requires
        0 <= from <= sessions.len(),
    ensures
        from <= requests::first_of(sessions, key, from) <= sessions.len(),
        requests::first_of(sessions, key, from) < sessions.len() ==> registry::key_of(
            sessions[requests::first_of(sessions, key, from)],
        ) == key,
    decreases sessions.len() - from,
{
    if from < sessions.len() && registry::key_of(sessions[from]) != key {
        lemma_first(sessions, key, from + 1);
    }
}

/// A mirror that is restored is fed its archive and then as many line breaks as it has rows, before
/// anything else; without an archive, or where none is asked for, it is left as it is.
pub proof fn law_archive_is_replayed_first<M: TerminalStateMirror>(
    mirror: M,
    archived: Option<&[u8]>,
    rows: u16,
    wanted: bool,
    restored: M,
    d: Display,
)
    requires
        d.pending.len() == 0,
        call_ensures(
            requests::create_session_mirror::<M>,
            (mirror, archived, rows, wanted),
            restored,
        ),
    ensures
        !wanted || archived is None ==> restored == mirror,
        wanted ==> (archived matches Some(paint) ==> {
            let before = mirror.steps().len() as int;
            &&& restored.steps().len() == before + 2
            &&& restored.steps().take(before) == mirror.steps()
            &&& restored.steps()[before] == (MirrorStep::Feed { bytes: paint@ })
            &&& restored.steps()[before + 1] matches MirrorStep::Feed { bytes } && display::showing(
                d,
                bytes,
            ) == (Display { row: d.row + rows, ..d })
        }),
{
    if wanted && archived is Some {
        let before = mirror.steps().len() as int;
        law_breaks_move_the_archive_up(d, rows as nat);
        assert(restored.steps().take(before) =~= mirror.steps());
    }
}

/// A client connects again where the connection had ended, and only once; anything else is handed
/// back.
pub proof fn law_client_connects_again_once(
    reconnected: bool,
    delivery: Delivery,
    step: NextStep,
)
    requires
        call_ensures(daemon::next_step, (reconnected, delivery), step),
    ensures
        reconnected ==> step == NextStep::Return,
        delivery != Delivery::Ended ==> step == NextStep::Return,
        !reconnected && delivery == Delivery::Ended ==> step == NextStep::Reconnect,
{
}

/// A prepared observation starts where its first event says that the session opened, and nowhere where
/// another event comes first.
pub proof fn law_prepared_observation_starts_where_it_opened(
    first: Option<ObservationFrame>,
    start: Result<ObservationStart, String>,
)
    requires
        call_ensures(daemon::receive_opened, (first,), start),
    ensures
        start is Ok <==> (first matches Some(event) && event is Opened),
        first matches Some(ObservationFrame::Opened {
            session,
            generation,
            event_sequence,
            output_sequence,
        }) ==> (start matches Ok(start) && start.session == session && start.generation == generation
            && start.start_event_sequence == event_sequence && start.start_output_sequence
            == output_sequence),
{
}

/// A frame is announced by its kind and the length of its payload in four bytes, the highest first.
pub proof fn law_frame_header_reads_back(
    kind: u8,
    length: u32,
    header: &[u8; 5],
    read: (u8, u32),
)
    requires
        header@ == seq![kind] + bytes::big_endian(length as nat, 4),
        call_ensures(daemon::frame_header, (header,), read),
    ensures
        read == (kind, length),
{
    reveal_with_fuel(bytes::bound, 5);
    bytes::lemma_reads_back(length as nat, 4);
    assert(header@.subrange(1, 5) =~= bytes::big_endian(length as nat, 4));
}

} // verus!
