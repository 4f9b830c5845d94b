//! The decisions of one pane's render thread.
//!
//! The thread waits, paints, signals and sends; between those it asks here what to do next.

use vstd::prelude::*;

use crate::cells::{TerminalCursorAnimation, TerminalCursorStyle};
use crate::render::session::CursorAnimation;

verus! {

/// What the ring is told when surfaces come back.
#[derive(Debug, Clone, Copy, PartialEq, Eq, Structural)]
pub enum RingCall {
    /// The application moved onto this slot.
    Shown(usize),
    /// The application returned this slot.
    Released(usize),
}

/// Whether a pane paints now.
#[derive(Debug, Clone, Copy, PartialEq, Eq, Structural)]
pub struct Decision {
    pub paint: bool,
    /// Output arrived since the last paint.
    pub output_activity: bool,
}

/// What becomes of a painted slot.
#[derive(Debug, Clone, Copy, PartialEq, Eq, Structural)]
pub enum FrameStep {
    /// It is signaled to the application.
    Signal,
    /// Nothing changed for this slot: it is handed back.
    GiveBack,
}

/// What a thread waits for.
#[derive(Debug, Clone, Copy, PartialEq, Eq, Structural)]
pub enum Wait {
    /// Nothing: there is work already.
    Nothing,
    /// A signal.
    Signal,
    /// A signal, or this many milliseconds.
    SignalOr(u64),
}

/// What a render thread remembers from one turn to the next.
#[derive(Debug, Clone, Copy, PartialEq, Eq, Structural)]
pub struct RenderLoop {
    /// The output sequence that was last taken in.
    pub last_seen: u64,
    /// The slot the application was last told of, while it may not have moved onto it.
    pub last_signaled: Option<usize>,
    /// A paint is owed once the terminal's grid is the surface's.
    pub awaiting_grid: bool,
    pub animation: CursorAnimation,
}

/// What the ring is told when slots come back: the first release also tells that the slot that was
/// signaled last is on screen.
pub open spec fn ring_calls(signaled: Option<usize>, returned: Seq<u8>) -> Seq<RingCall> {
    let releases = Seq::new(returned.len(), |i: int| RingCall::Released(returned[i] as usize));
    match signaled {
        Some(slot) if returned.len() > 0 => seq![RingCall::Shown(slot)] + releases,
        _ => releases,
    }
}

/// Whether a paint is owed.
pub open spec fn owes(turn: RenderLoop, progressed: u64, dirty: bool, grid_matches: bool) -> bool {
    progressed != turn.last_seen || dirty || (turn.awaiting_grid && grid_matches)
}

/// Whether a thread paints, and what it remembers from then on.
pub open spec fn decided(
    turn: RenderLoop,
    progressed: u64,
    dirty: bool,
    grid_matches: bool,
    paused: bool,
) -> (Decision, RenderLoop) {
    let owed = owes(turn, progressed, dirty, grid_matches);
    let paint = owed && grid_matches && !paused;
    (
        Decision { paint, output_activity: progressed != turn.last_seen },
        if owed && !grid_matches {
            RenderLoop { last_seen: progressed, awaiting_grid: true, ..turn }
        } else if paint {
            RenderLoop { last_seen: progressed, awaiting_grid: false, ..turn }
        } else {
            turn
        },
    )
}

/// A blink clock after the engine said whether a shown cursor blinks. Activity, and every start and
/// stop, begin a new phase.
pub open spec fn animated(
    before: CursorAnimation,
    blinks: bool,
    interval_ms: u32,
    activity: bool,
) -> CursorAnimation {
    let active = blinks && interval_ms > 0;
    CursorAnimation {
        active,
        on: activity || active != before.active || before.on,
        interval_ms: interval_ms as u64,
    }
}

/// A blink clock whose deadline passed.
pub open spec fn ticked(before: CursorAnimation) -> CursorAnimation {
    if before.active {
        CursorAnimation { on: !before.on, ..before }
    } else {
        before
    }
}

/// What becomes of a painted slot, and what a thread remembers from then on.
pub open spec fn stepped(turn: RenderLoop, slot: usize, rows: usize) -> (FrameStep, RenderLoop) {
    if rows > 0 || turn.last_signaled is None {
        (FrameStep::Signal, RenderLoop { last_signaled: Some(slot), ..turn })
    } else {
        (FrameStep::GiveBack, turn)
    }
}

impl RenderLoop {
    /// A thread that starts at an output sequence.
    pub fn new(sequence: u64) -> (turn: Self)
        ensures
            turn == (RenderLoop {
                last_seen: sequence,
                last_signaled: None,
                awaiting_grid: false,
                animation: CursorAnimation { active: false, on: true, interval_ms: 0 },
            }),
    {
        RenderLoop {
            last_seen: sequence,
            last_signaled: None,
            awaiting_grid: false,
            animation: CursorAnimation::new(),
        }
    }

    /// The paint surfaces were replaced: none of them was signaled yet.
    pub fn replaced(&mut self)
        ensures
            *final(self) == (RenderLoop { last_signaled: None, ..*old(self) }),
    {
        self.last_signaled = None;
    }

    /// Routes returned slots. A release both frees a slot and tells that the previously signaled
    /// one is on screen now.
    pub fn route(&mut self, returned: &[u8]) -> (calls: Vec<RingCall>)
        ensures
            calls@ == ring_calls(old(self).last_signaled, returned@),
            *final(self) == (RenderLoop {
                last_signaled: if returned@.len() > 0 {
                    None
                } else {
                    old(self).last_signaled
                },
                ..*old(self)
            }),
    {
        let mut calls: Vec<RingCall> = Vec::new();
        let ghost releases = Seq::new(
            returned@.len(),
            |i: int| RingCall::Released(returned@[i] as usize),
        );
        let ghost signaled = self.last_signaled;
        let ghost start = if returned@.len() > 0 && signaled is Some {
            seq![RingCall::Shown(signaled->0)]
        } else {
            Seq::empty()
        };
        if returned.len() > 0 {
            if let Some(slot) = self.last_signaled {
                calls.push(RingCall::Shown(slot));
            }
            self.last_signaled = None;
        }
        let mut i: usize = 0;
        assert(calls@ =~= start + releases.take(0));
        while i < returned.len()
            invariant
                i <= returned@.len(),
                releases == Seq::new(
                    returned@.len(),
                    |i: int| RingCall::Released(returned@[i] as usize),
                ),
                calls@ == start + releases.take(i as int),
            decreases returned@.len() - i,
        {
            calls.push(RingCall::Released(returned[i] as usize));
            assert(calls@ =~= start + releases.take(i + 1));
            i = i + 1;
        }
        assert(calls@ =~= ring_calls(signaled, returned@));
        calls
    }

    /// Decides whether to paint. A renderer never reads a terminal whose grid is not the
    /// surface's: a resize announces the new grid before it reaches the mirror, so the paint waits
    /// and is owed once they match. A paused pane does not paint.
    pub fn decide(&mut self, progressed: u64, dirty: bool, grid_matches: bool, paused: bool) -> (
        decision: Decision)
        ensures
            (decision, *final(self)) == decided(
                *old(self),
                progressed,
                dirty,
                grid_matches,
                paused,
            ),
    {
        let output_activity = progressed != self.last_seen;
        let owed = output_activity || dirty || (self.awaiting_grid && grid_matches);
        if owed && !grid_matches {
            self.last_seen = progressed;
            self.awaiting_grid = true;
        }
        let paint = owed && grid_matches && !paused;
        if paint {
            self.last_seen = progressed;
            self.awaiting_grid = false;
        }
        Decision { paint, output_activity }
    }

    /// Takes in what the engine says of its cursor. It blinks only while it is shown: by the
    /// engine, at the bottom of the view, with no composition over it, on a surface with focus.
    pub fn observe(
        &mut self,
        style: TerminalCursorStyle,
        policy: TerminalCursorAnimation,
        visible: bool,
        offset: usize,
        composing: bool,
        focused: bool,
        output_activity: bool,
    )
        ensures
            *final(self) == (RenderLoop {
                animation: animated(
                    old(self).animation,
                    visible && offset == 0 && !composing && focused && style.blinking,
                    policy.interval_ms,
                    output_activity,
                ),
                ..*old(self)
            }),
    {
        self.animation.observe(
            style,
            policy,
            visible && offset == 0 && !composing && focused,
            output_activity,
        );
    }

    /// Decides what becomes of a painted slot: it is signaled when anything was painted, or when
    /// the application waits for a frame.
    pub fn painted(&mut self, slot: usize, rows: usize) -> (step: FrameStep)
        ensures
            (step, *final(self)) == stepped(*old(self), slot, rows),
    {
        if rows > 0 || self.last_signaled.is_none() {
            self.last_signaled = Some(slot);
            FrameStep::Signal
        } else {
            FrameStep::GiveBack
        }
    }

    /// What to wait for. There is a deadline only while the engine says a visible cursor is
    /// blinking; steady or hidden cursors wait only for explicit output or control events.
    pub fn wait(&self, sequence: u64, dirty: bool, stop: bool, paused: bool) -> (wait: Wait)
        ensures
            wait == if sequence != self.last_seen || dirty || stop {
                Wait::Nothing
            } else if !paused && self.animation.active {
                Wait::SignalOr(self.animation.interval_ms)
            } else {
                Wait::Signal
            },
    {
        if sequence != self.last_seen || dirty || stop {
            return Wait::Nothing;
        }
        if !paused {
            if let Some(interval) = self.animation.next_tick() {
                return Wait::SignalOr(interval);
            }
        }
        Wait::Signal
    }

    /// The deadline passed: the blink turns over, and a paint is owed if it did.
    pub fn timed_out(&mut self) -> (dirty: bool)
        ensures
            dirty == old(self).animation.active,
            *final(self) == (RenderLoop { animation: ticked(old(self).animation), ..*old(self) }),
    {
        self.animation.tick()
    }
}

/// Consecutive rows as spans of a start and a count.
pub open spec fn spans_of(rows: Seq<u16>) -> Seq<(u16, u16)>
    decreases rows.len(),
{
    if rows.len() == 0 {
        Seq::empty()
    } else {
        let before = spans_of(rows.drop_last());
        let row = rows.last();
        if before.len() > 0 && before.last().0 + before.last().1 == row {
            before.update(before.len() - 1, (before.last().0, (before.last().1 + 1) as u16))
        } else {
            before.push((row, 1u16))
        }
    }
}

/// The rows of a span.
pub open spec fn span_rows(span: (u16, u16)) -> Seq<u16> {
    Seq::new(span.1 as nat, |i: int| (span.0 + i) as u16)
}

/// The rows of spans, in order.
pub open spec fn spanned(spans: Seq<(u16, u16)>) -> Seq<u16>
    decreases spans.len(),
{
    if spans.len() == 0 {
        Seq::empty()
    } else {
        spanned(spans.drop_last()) + span_rows(spans.last())
    }
}

/// Consecutive rows as spans of a start and a count.
pub fn spans(rows: &[u16]) -> (spans: Vec<(u16, u16)>)
    requires
        forall|i: int| 0 <= i < rows@.len() ==> #[trigger] rows@[i] < u16::MAX,
    ensures
        spans@ == spans_of(rows@),
        forall|i: int| 0 <= i < spans@.len() ==> (#[trigger] spans@[i]).0 + spans@[i].1 <= u16::MAX,
{
    let mut spans: Vec<(u16, u16)> = Vec::new();
    let mut i: usize = 0;
    assert(rows@.take(0) =~= Seq::<u16>::empty());
    while i < rows.len()
        invariant
            forall|j: int| 0 <= j < rows@.len() ==> #[trigger] rows@[j] < u16::MAX,
            i <= rows@.len(),
            spans@ == spans_of(rows@.take(i as int)),
            forall|j: int|
                0 <= j < spans@.len() ==> (#[trigger] spans@[j]).0 + spans@[j].1 <= u16::MAX,
        decreases rows@.len() - i,
    {
        let row: u16 = rows[i];
        assert(rows@.take(i + 1).drop_last() =~= rows@.take(i as int));
        let count: usize = spans.len();
        if count > 0 && spans[count - 1].0 + spans[count - 1].1 == row {
            let last = spans[count - 1];
            spans.set(count - 1, (last.0, last.1 + 1));
        } else {
            spans.push((row, 1));
        }
        i = i + 1;
    }
    assert(rows@.take(i as int) =~= rows@);
    spans
}

/// Spans cover exactly the rows they were made of, in the same order, and nothing else.
pub proof fn law_spans_cover_the_rows(rows: Seq<u16>)
    requires
        forall|i: int| 0 <= i < rows.len() ==> #[trigger] rows[i] < u16::MAX,
    ensures
        spanned(spans_of(rows)) == rows,
        forall|i: int|
            0 <= i < spans_of(rows).len() ==> (#[trigger] spans_of(rows)[i]).0 + spans_of(rows)[i].1
                <= u16::MAX,
    decreases rows.len(),
{
    if rows.len() > 0 {
        let rest = rows.drop_last();
        let row = rows.last();
        assert forall|i: int| 0 <= i < rest.len() implies #[trigger] rest[i] < u16::MAX by {
            assert(rest[i] == rows[i]);
        }
        law_spans_cover_the_rows(rest);
        let before = spans_of(rest);
        let after = spans_of(rows);
        assert(row == rows[rows.len() - 1]);
        if before.len() > 0 && before.last().0 + before.last().1 == row {
            let longer = (before.last().0, (before.last().1 + 1) as u16);
            assert(after.drop_last() =~= before.drop_last());
            assert(span_rows(longer) =~= span_rows(before.last()).push(row));
            assert(spanned(after) =~= spanned(before).push(row));
        } else {
            assert(after.drop_last() =~= before);
            assert(span_rows((row, 1u16)) =~= seq![row]);
            assert(spanned(after) =~= spanned(before).push(row));
        }
        assert(rest.push(row) =~= rows);
    }
}

/// A rectangle of a surface: left, top, width and height.
pub type DamageRect = (u16, u16, u16, u16);

/// The damage of painted rows: full-width bands, one per span.
pub open spec fn damage_of(rows: Seq<u16>, cell_h: u16, width: u32) -> Seq<DamageRect> {
    Seq::new(
        spans_of(rows).len(),
        |i: int|
            (
                0u16,
                (spans_of(rows)[i].0 * cell_h) as u16,
                width as u16,
                (spans_of(rows)[i].1 * cell_h) as u16,
            ),
    )
}

/// The damage of painted rows, on a surface whose rows are counted in 16 bits. A wider surface has
/// its width in 16 bits.
pub fn damage(rows: &[u16], cell_h: u16, width: u32) -> (rects: Vec<DamageRect>)
    requires
        forall|i: int|
            0 <= i < rows@.len() ==> #[trigger] rows@[i] < u16::MAX && (rows@[i] + 1) * cell_h
                <= u16::MAX,
    ensures
        rects@ == damage_of(rows@, cell_h, width),
{
    let bands = spans(rows);
    let mut rects: Vec<DamageRect> = Vec::new();
    let mut i: usize = 0;
    while i < bands.len()
        invariant
            bands@ == spans_of(rows@),
            i <= bands@.len(),
            rects@.len() == i,
            forall|j: int|
                0 <= j < rows@.len() ==> #[trigger] rows@[j] < u16::MAX && (rows@[j] + 1) * cell_h
                    <= u16::MAX,
            forall|j: int|
                0 <= j < i ==> #[trigger] rects@[j] == damage_of(rows@, cell_h, width)[j],
        decreases bands@.len() - i,
    {
        let (start, count) = bands[i];
        proof {
            lemma_span_end(rows@, i as int);
            let end = start + count;
            assert(exists|k: int| 0 <= k < rows@.len() && rows@[k] + 1 == end);
            let k = choose|k: int| 0 <= k < rows@.len() && rows@[k] + 1 == end;
            assert(rows@[k] < u16::MAX);
            assert(start * cell_h <= end * cell_h && count * cell_h <= end * cell_h)
                by (nonlinear_arith)
                requires
                    0 <= start <= end,
                    0 <= count <= end,
                    0 <= cell_h,
            ;
        }
        rects.push(
            (
                0,
                start * cell_h,
                #[verifier::truncate]
                (width as u16),
                count * cell_h,
            ),
        );
        i = i + 1;
    }
    assert(rects@ =~= damage_of(rows@, cell_h, width));
    rects
}

proof fn lemma_span_end(rows: Seq<u16>, at: int)
    requires
        forall|i: int| 0 <= i < rows.len() ==> #[trigger] rows[i] < u16::MAX,
        0 <= at < spans_of(rows).len(),
    ensures
        exists|k: int|
            0 <= k < rows.len() && #[trigger] rows[k] + 1 == spans_of(rows)[at].0
                + spans_of(rows)[at].1,
    decreases rows.len(),
{
    let rest = rows.drop_last();
    let row = rows.last();
    let before = spans_of(rest);
    assert forall|i: int| 0 <= i < rest.len() implies #[trigger] rest[i] < u16::MAX by {
        assert(rest[i] == rows[i]);
    }
    assert(row == rows[rows.len() - 1]);
    if at < spans_of(rows).len() - 1 {
        lemma_span_end(rest, at);
        let k = choose|k: int|
            0 <= k < rest.len() && #[trigger] rest[k] + 1 == before[at].0 + before[at].1;
        assert(rows[k] == rest[k]);
    } else if before.len() > 0 && before.last().0 + before.last().1 == row {
        assert(rows[rows.len() - 1] + 1 == spans_of(rows)[at].0 + spans_of(rows)[at].1);
    } else {
        assert(rows[rows.len() - 1] + 1 == spans_of(rows)[at].0 + spans_of(rows)[at].1);
    }
}

/// A paint that had to wait for the grid is not forgotten: once the grids match, an unpaused pane
/// paints, whether or not anything else happened.
pub proof fn law_waiting_paint_is_owed(turn: RenderLoop, progressed: u64, later: u64, dirty: bool)
    requires
        owes(turn, progressed, dirty, false),
    ensures
        owes(
            RenderLoop { last_seen: progressed, awaiting_grid: true, ..turn },
            later,
            false,
            true,
        ),
{
}

} // verus!
