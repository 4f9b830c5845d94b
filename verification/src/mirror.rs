//! A mirror of one terminal that can repaint itself.
//!
//! The mirror feeds output to an engine and keeps a paint of the primary screen from the moment
//! the alternate screen is entered.

use vstd::prelude::*;

use crate::cells;
use crate::engine::{self, EngineScreen, EngineStep};
use crate::frame;
use crate::paint::{self, Sgr};
use crate::text;

pub use crate::cells::{
    MirrorCapabilities, TerminalCell, TerminalColor, TerminalCursorAnimation, TerminalCursorShape,
    TerminalCursorStyle, TerminalModes, TerminalRgb, TerminalThemeOverrides,
};
pub use crate::engine::TerminalEngine;
pub use crate::frame::{FrameLine, FrameRun, TerminalFrame};

verus! {

/// What the bytes from an escape on turn out to be.
#[derive(Debug, Clone, Copy, PartialEq, Eq, Structural)]
pub enum AltCandidate {
    /// They may still become a switch to the alternate screen.
    NeedMore,
    /// They start with a switch to the alternate screen of this many bytes.
    Enter(usize),
    /// They do not.
    No,
}

/// The longest run of mode parameters that is taken for a mode switch.
pub const MAX_PARAMETER_BYTES: usize = 32;

/// Whether a byte belongs to a parameter list: a digit or a semicolon.
pub open spec fn is_parameter(byte: u8) -> bool {
    0x30 <= byte <= 0x39 || byte == 0x3b
}

/// The first place at or after `from` that holds no parameter byte.
pub open spec fn parameters_end(bytes: Seq<u8>, from: int) -> int
    decreases bytes.len() - from,
{
    if from >= bytes.len() || !is_parameter(bytes[from]) {
        from
    } else {
        parameters_end(bytes, from + 1)
    }
}

/// One of the modes 47, 1047 and 1049.
pub open spec fn is_alt_mode(field: Seq<u8>) -> bool {
    ||| field == seq![0x34u8, 0x37]
    ||| field == seq![0x31u8, 0x30, 0x34, 0x37]
    ||| field == seq![0x31u8, 0x30, 0x34, 0x39]
}

/// Whether `start..end` is one field of a list that semicolons separate.
pub open spec fn is_field(parameters: Seq<u8>, start: int, end: int) -> bool {
    &&& 0 <= start <= end <= parameters.len()
    &&& start == 0 || parameters[start - 1] == 0x3b
    &&& end == parameters.len() || parameters[end] == 0x3b
    &&& forall|i: int| start <= i < end ==> #[trigger] parameters[i] != 0x3b
}

/// Whether one of the fields is an alternate-screen mode.
pub open spec fn names_alt_screen(parameters: Seq<u8>) -> bool {
    exists|start: int, end: int| #[trigger]
        is_field(parameters, start, end) && is_alt_mode(parameters.subrange(start, end))
}

/// What the bytes after an escape amount to: `ESC [ ? parameters h` with an alternate-screen mode
/// among at most `MAX_PARAMETER_BYTES` bytes of parameters enters the alternate screen.
pub open spec fn alt_candidate(bytes: Seq<u8>) -> AltCandidate {
    if bytes.len() < 2 {
        AltCandidate::NeedMore
    } else if bytes[1] != 0x5b {
        AltCandidate::No
    } else if bytes.len() < 3 {
        AltCandidate::NeedMore
    } else if bytes[2] != 0x3f {
        AltCandidate::No
    } else {
        let end = parameters_end(bytes, 3);
        if end - 3 > MAX_PARAMETER_BYTES {
            AltCandidate::No
        } else if end == bytes.len() {
            AltCandidate::NeedMore
        } else if bytes[end] == 0x68 && names_alt_screen(bytes.subrange(3, end)) {
            AltCandidate::Enter((end + 1) as usize)
        } else {
            AltCandidate::No
        }
    }
}

pub proof fn lemma_parameters_end(bytes: Seq<u8>, from: int)
    requires
        0 <= from <= bytes.len(),
    ensures
        from <= parameters_end(bytes, from) <= bytes.len(),
        forall|i: int| from <= i < parameters_end(bytes, from) ==> is_parameter(#[trigger] bytes[i]),
    decreases bytes.len() - from,
{
    if from < bytes.len() && is_parameter(bytes[from]) {
        lemma_parameters_end(bytes, from + 1);
    }
}

fn alt_mode(field: &[u8]) -> (yes: bool)
    ensures
        yes == is_alt_mode(field@),
{
    let yes = if field.len() == 2 {
        field[0] == 0x34 && field[1] == 0x37
    } else if field.len() == 4 {
        field[0] == 0x31 && field[1] == 0x30 && field[2] == 0x34 && (field[3] == 0x37 || field[3]
            == 0x39)
    } else {
        false
    };
    proof {
        if yes && field@.len() == 2 {
            assert(field@ =~= seq![0x34u8, 0x37]);
        }
        if yes && field@.len() == 4 {
            if field@[3] == 0x37 {
                assert(field@ =~= seq![0x31u8, 0x30, 0x34, 0x37]);
            } else {
                assert(field@ =~= seq![0x31u8, 0x30, 0x34, 0x39]);
            }
        }
    }
    yes
}

fn any_alt_mode(parameters: &[u8]) -> (yes: bool)
    ensures
        yes == names_alt_screen(parameters@),
{
    let ghost list = parameters@;
    let mut start: usize = 0;
    let mut end: usize = 0;
    while end < parameters.len()
        invariant
            list == parameters@,
            start <= end <= list.len(),
            start == 0 || list[start - 1] == 0x3b,
            forall|i: int| start <= i < end ==> #[trigger] list[i] != 0x3b,
            forall|a: int, b: int| #[trigger]
                is_field(list, a, b) && b < end ==> !is_alt_mode(list.subrange(a, b)),
        decreases list.len() - end,
    {
        if parameters[end] == 0x3b {
            if alt_mode(vstd::slice::slice_subrange(parameters, start, end)) {
                assert(is_field(list, start as int, end as int));
                return true;
            }
            proof {
                assert forall|a: int, b: int| #[trigger] is_field(list, a, b) && b < end
                    + 1 implies !is_alt_mode(list.subrange(a, b)) by {
                    if b == end {
                        lemma_one_field_per_end(list, a, start as int, b);
                    }
                }
            }
            start = end + 1;
        }
        end = end + 1;
    }
    let last = alt_mode(vstd::slice::slice_subrange(parameters, start, end));
    proof {
        assert(is_field(list, start as int, end as int));
        assert forall|a: int, b: int| #[trigger]
            is_field(list, a, b) && b == end implies a == start by {
            lemma_one_field_per_end(list, a, start as int, b);
        }
    }
    last
}

proof fn lemma_one_field_per_end(list: Seq<u8>, a: int, b: int, end: int)
    requires
        is_field(list, a, end),
        is_field(list, b, end),
    ensures
        a == b,
{
    if a < b {
        assert(list[b - 1] != 0x3b);
    }
    if b < a {
        assert(list[a - 1] != 0x3b);
    }
}

/// Says whether `bytes`, which start with an escape, switch to the alternate screen.
pub fn classify_alt_enter(bytes: &[u8]) -> (candidate: AltCandidate)
    ensures
        candidate == alt_candidate(bytes@),
{
    if bytes.len() < 2 {
        return AltCandidate::NeedMore;
    }
    if bytes[1] != 0x5b {
        return AltCandidate::No;
    }
    if bytes.len() < 3 {
        return AltCandidate::NeedMore;
    }
    if bytes[2] != 0x3f {
        return AltCandidate::No;
    }
    let mut end: usize = 3;
    while end < bytes.len() && ((0x30 <= bytes[end] && bytes[end] <= 0x39) || bytes[end] == 0x3b)
        invariant
            3 <= end <= bytes@.len(),
            end - 3 <= MAX_PARAMETER_BYTES,
            bytes@[1] == 0x5b,
            bytes@[2] == 0x3f,
            parameters_end(bytes@, 3) == parameters_end(bytes@, end as int),
        decreases bytes@.len() - end,
    {
        end = end + 1;
        if end - 3 > MAX_PARAMETER_BYTES {
            proof {
                lemma_parameters_end(bytes@, end as int);
            }
            return AltCandidate::No;
        }
    }
    if end == bytes.len() {
        return AltCandidate::NeedMore;
    }
    if bytes[end] == 0x68 && any_alt_mode(vstd::slice::slice_subrange(bytes, 3, end)) {
        AltCandidate::Enter(end + 1)
    } else {
        AltCandidate::No
    }
}

/// The first escape at or after `from` that enters the alternate screen or may yet do so.
pub open spec fn first_entry(data: Seq<u8>, from: int) -> Option<int>
    decreases data.len() - from,
{
    if from >= data.len() {
        None
    } else if data[from] == 0x1b && alt_candidate(data.skip(from)) != AltCandidate::No {
        Some(from)
    } else {
        first_entry(data, from + 1)
    }
}

/// The paint of the primary screen and the sequence that restores its cursor, kept while the
/// alternate screen is shown.
pub struct FrozenView {
    pub paint: Seq<u8>,
    pub place: Seq<u8>,
}

/// The state of a mirror: what was done to its engine, the frozen primary screen, and the bytes
/// held back because they may start a switch to the alternate screen.
pub struct MirrorView {
    pub history: Seq<EngineStep>,
    pub frozen: Option<FrozenView>,
    pub held: Seq<u8>,
}

/// The paint of the first `count` lines of history and primary screen, and the rendition it
/// leaves. A line that does not wrap ends in a reset and a line break, except the last.
pub open spec fn primary_rows(screen: EngineScreen, count: nat) -> (Seq<u8>, Sgr)
    decreases count,
{
    if count == 0 {
        (Seq::empty(), paint::plain_sgr())
    } else {
        let (before, style) = primary_rows(screen, (count - 1) as nat);
        let line = count - 1 - screen.history_size;
        let row = (screen.lines)(line);
        let (painted, next) = paint::row_paint(row, style);
        if !cells::row_wraps(row) && line != screen.rows - 1 {
            (before + painted + text::utf8("\x1b[0m\r\n"@), paint::plain_sgr())
        } else {
            (before + painted, next)
        }
    }
}

/// The paint of the history and the primary screen, top to bottom.
pub open spec fn primary_paint(screen: EngineScreen) -> Seq<u8> {
    primary_rows(screen, (screen.history_size + screen.rows) as nat).0 + text::utf8("\x1b[0m"@)
}

/// The sequence that moves to the start of a 1-based row.
pub open spec fn row_start(row: nat) -> Seq<u8> {
    text::utf8("\x1b["@ + text::decimal(row) + ";1H"@)
}

/// The paint of the first `count` rows of the alternate screen, each behind a move to its start
/// where anything is painted, and the rendition it leaves.
pub open spec fn alt_rows(screen: EngineScreen, count: nat) -> (Seq<u8>, Sgr)
    decreases count,
{
    if count == 0 {
        (text::utf8("\x1b[2J"@), paint::plain_sgr())
    } else {
        let (before, style) = alt_rows(screen, (count - 1) as nat);
        let (painted, next) = paint::row_paint((screen.lines)(count - 1), style);
        if painted.len() == 0 {
            (before, next)
        } else {
            (before + row_start(count) + painted, next)
        }
    }
}

/// The paint of the alternate screen after it was cleared.
pub open spec fn alt_paint(screen: EngineScreen) -> Seq<u8> {
    alt_rows(screen, screen.rows as nat).0 + text::utf8("\x1b[0m"@)
}

/// The paints of the first `count` rows, and the rendition they leave.
pub open spec fn flat_rows(screen: EngineScreen, count: nat) -> (Seq<Seq<u8>>, Sgr)
    decreases count,
{
    if count == 0 {
        (Seq::empty(), paint::plain_sgr())
    } else {
        let (before, style) = flat_rows(screen, (count - 1) as nat);
        let (painted, next) = paint::row_paint((screen.lines)(count - 1), style);
        (before.push(painted), next)
    }
}

/// The rows without the empty ones at the end.
pub open spec fn without_trailing_empty(rows: Seq<Seq<u8>>) -> Seq<Seq<u8>>
    decreases rows.len(),
{
    if rows.len() > 0 && rows.last().len() == 0 {
        without_trailing_empty(rows.drop_last())
    } else {
        rows
    }
}

/// The rows with a reset and a line break between each two.
pub open spec fn broken_lines(rows: Seq<Seq<u8>>) -> Seq<u8>
    decreases rows.len(),
{
    if rows.len() == 0 {
        Seq::empty()
    } else if rows.len() == 1 {
        rows[0]
    } else {
        broken_lines(rows.drop_last()) + text::utf8("\x1b[0m\r\n"@) + rows.last()
    }
}

/// The alternate screen as plain lines.
pub open spec fn alt_flat_paint(screen: EngineScreen) -> Seq<u8> {
    broken_lines(without_trailing_empty(flat_rows(screen, screen.rows as nat).0))
}

/// The bytes that rebuild the terminal on a blank one.
pub open spec fn rehydration(screen: EngineScreen, frozen: Option<FrozenView>) -> Seq<u8> {
    let painted = if screen.alt_active {
        (match frozen {
            Some(primary) => primary.paint + primary.place,
            None => Seq::empty(),
        }) + text::utf8("\x1b[?1049h"@) + alt_paint(screen) + paint::cup_bytes(screen.cursor)
    } else {
        primary_paint(screen) + paint::cup_bytes(screen.cursor)
    };
    text::utf8("\x1b[0m"@) + painted + paint::mode_sets_bytes(screen.modes)
        + paint::cursor_style_bytes(screen.cursor_style)
}

/// The bytes that show a dead terminal in the scrollback of a new one.
pub open spec fn cold_bytes(screen: EngineScreen, frozen: Option<FrozenView>) -> Seq<u8> {
    let painted = if screen.alt_active {
        (match frozen {
            Some(primary) => primary.paint,
            None => Seq::empty(),
        }) + text::utf8("\r\n"@) + alt_flat_paint(screen)
    } else {
        primary_paint(screen)
    };
    text::utf8("\x1b[0m"@) + painted + text::utf8("\x1b[0m\r\n"@)
}

/// The state after `data` runs through a mirror that holds no bytes back.
///
/// Up to the first switch to the alternate screen the bytes are fed as they are. There the primary
/// screen, if it is shown, is frozen before the switch itself is fed. Bytes that may start a
/// switch stay held; when none do, a frozen screen is dropped once the primary screen is back.
pub open spec fn fed<E: TerminalEngine>(
    history: Seq<EngineStep>,
    frozen: Option<FrozenView>,
    data: Seq<u8>,
) -> MirrorView
    decreases data.len(),
{
    match first_entry(data, 0) {
        Some(at) => {
            let before = history.push(EngineStep::Feed { bytes: data.take(at) });
            match alt_candidate(data.skip(at)) {
                AltCandidate::Enter(length) if 0 < length && 0 <= at && at + length
                    <= data.len() => {
                    fed::<E>(
                        before.push(EngineStep::Feed { bytes: data.subrange(at, at + length) }),
                        frozen_at::<E>(before, frozen),
                        data.skip(at + length),
                    )
                },
                _ => MirrorView { history: before, frozen, held: data.skip(at) },
            }
        },
        None => {
            let after = history.push(EngineStep::Feed { bytes: data });
            MirrorView {
                history: after,
                frozen: if E::screen_after(after).alt_active {
                    frozen
                } else {
                    None
                },
                held: Seq::empty(),
            }
        },
    }
}

/// What is frozen when the alternate screen is entered: the primary screen if it is shown.
pub open spec fn frozen_at<E: TerminalEngine>(
    history: Seq<EngineStep>,
    frozen: Option<FrozenView>,
) -> Option<FrozenView> {
    let screen = E::screen_after(history);
    if screen.alt_active {
        frozen
    } else {
        Some(
            FrozenView { paint: primary_paint(screen), place: paint::cup_bytes(screen.cursor) },
        )
    }
}

/// The viewport of a screen scrolled `offset` rows into history, as far as there is history; the
/// alternate screen does not scroll.
pub open spec fn frame_of(screen: EngineScreen, offset: usize) -> frame::FrameView {
    let shown = if screen.alt_active {
        0
    } else if offset <= screen.history_size {
        offset
    } else {
        screen.history_size
    };
    frame::FrameView {
        cols: screen.cols,
        rows: screen.rows,
        cursor: screen.cursor,
        cursor_visible: screen.modes.show_cursor,
        cursor_style: screen.cursor_style,
        cursor_animation: screen.cursor_animation,
        alt_active: screen.alt_active,
        history_size: screen.history_size,
        offset: shown,
        modes: screen.modes,
        lines: Seq::new(
            screen.rows as nat,
            |y: int| frame::line_of(y as u16, (screen.lines)(engine::viewport_line(y, shown))),
        ),
    }
}

struct FrozenPrimary {
    paint: Vec<u8>,
    place: Vec<u8>,
}

spec fn frozen_view(frozen: Option<FrozenPrimary>) -> Option<FrozenView> {
    match frozen {
        Some(primary) => Some(FrozenView { paint: primary.paint@, place: primary.place@ }),
        None => None,
    }
}

pub struct RecoveryMirror<E: TerminalEngine> {
    engine: E,
    frozen_primary: Option<FrozenPrimary>,
    held: Vec<u8>,
}

impl<E: TerminalEngine> View for RecoveryMirror<E> {
    type V = MirrorView;

    closed spec fn view(&self) -> MirrorView {
        MirrorView {
            history: self.engine.history(),
            frozen: frozen_view(self.frozen_primary),
            held: self.held@,
        }
    }
}

fn paint_primary<E: TerminalEngine>(engine: &E) -> (output: Vec<u8>)
    ensures
        output@ == primary_paint(E::screen_after(engine.history())),
{
    let ghost screen = E::screen_after(engine.history());
    let mut output: Vec<u8> = Vec::new();
    let mut current = Sgr::plain();
    let history: i32 = engine.history_size() as i32;
    let rows: i32 = engine.rows() as i32;
    let mut line: i32 = -history;
    assert(output@ =~= primary_rows(screen, 0).0);
    while line < rows
        invariant
            screen == E::screen_after(engine.history()),
            history == screen.history_size,
            rows == screen.rows,
            0 <= history,
            -history <= line <= rows,
            (output@, current) == primary_rows(screen, (line + history) as nat),
        decreases rows - line,
    {
        let row = engine.line_cells(line);
        let ghost before = output@;
        let wrapped = paint::paint_cells(&mut output, row.as_slice(), &mut current);
        if !wrapped && line != rows - 1 {
            text::push_text(&mut output, "\x1b[0m\r\n");
            current = Sgr::plain();
        }
        assert((line + 1 + history - 1) as nat == (line + history) as nat);
        line = line + 1;
    }
    text::push_text(&mut output, "\x1b[0m");
    output
}

fn paint_alt<E: TerminalEngine>(engine: &E) -> (output: Vec<u8>)
    ensures
        output@ == alt_paint(E::screen_after(engine.history())),
{
    let ghost screen = E::screen_after(engine.history());
    let mut output: Vec<u8> = Vec::new();
    text::push_text(&mut output, "\x1b[2J");
    let mut current = Sgr::plain();
    let rows: u16 = engine.rows();
    let mut line: u16 = 0;
    assert(output@ =~= alt_rows(screen, 0).0);
    while line < rows
        invariant
            screen == E::screen_after(engine.history()),
            rows == screen.rows,
            line <= rows,
            (output@, current) == alt_rows(screen, line as nat),
        decreases rows - line,
    {
        let row = engine.line_cells(line as i32);
        let mut painted: Vec<u8> = Vec::new();
        paint::paint_cells(&mut painted, row.as_slice(), &mut current);
        assert(painted@ =~= paint::row_paint(
            (screen.lines)(line as int),
            alt_rows(screen, line as nat).1,
        ).0);
        if painted.len() > 0 {
            let mut place = String::new();
            place.push_str("\x1b[");
            assert(place@ =~= "\x1b["@);
            place.push_str(text::decimal_text(line as u64 + 1).as_str());
            place.push_str(";1H");
            text::push_text(&mut output, place.as_str());
            text::push_bytes(&mut output, painted.as_slice());
        }
        line = line + 1;
    }
    text::push_text(&mut output, "\x1b[0m");
    output
}

spec fn rows_bytes(rows: Seq<Vec<u8>>) -> Seq<Seq<u8>> {
    Seq::new(rows.len(), |i: int| rows[i]@)
}

fn paint_alt_flat<E: TerminalEngine>(engine: &E) -> (output: Vec<u8>)
    ensures
        output@ == alt_flat_paint(E::screen_after(engine.history())),
{
    let ghost screen = E::screen_after(engine.history());
    let mut rows: Vec<Vec<u8>> = Vec::new();
    let mut current = Sgr::plain();
    let count: u16 = engine.rows();
    let mut line: u16 = 0;
    assert(rows_bytes(rows@) =~= flat_rows(screen, 0).0);
    while line < count
        invariant
            screen == E::screen_after(engine.history()),
            count == screen.rows,
            line <= count,
            (rows_bytes(rows@), current) == flat_rows(screen, line as nat),
        decreases count - line,
    {
        let ghost before = rows_bytes(rows@);
        let row = engine.line_cells(line as i32);
        let mut painted: Vec<u8> = Vec::new();
        paint::paint_cells(&mut painted, row.as_slice(), &mut current);
        let ghost bytes = painted@;
        assert(bytes =~= paint::row_paint(
            (screen.lines)(line as int),
            flat_rows(screen, line as nat).1,
        ).0);
        rows.push(painted);
        assert(rows_bytes(rows@) =~= before.push(bytes));
        line = line + 1;
    }
    let ghost all = rows_bytes(rows@);
    let mut end: usize = rows.len();
    assert(all.take(end as int) =~= all);
    while end > 0 && rows[end - 1].len() == 0
        invariant
            all == rows_bytes(rows@),
            end <= rows@.len(),
            without_trailing_empty(all.take(end as int)) == without_trailing_empty(all),
        decreases end,
    {
        assert(all.take(end as int).drop_last() =~= all.take(end - 1));
        end = end - 1;
    }
    let mut output: Vec<u8> = Vec::new();
    let mut i: usize = 0;
    assert(output@ =~= broken_lines(all.take(0)));
    while i < end
        invariant
            all == rows_bytes(rows@),
            i <= end <= rows@.len(),
            output@ == broken_lines(all.take(i as int)),
        decreases end - i,
    {
        if i > 0 {
            text::push_text(&mut output, "\x1b[0m\r\n");
        }
        text::push_bytes(&mut output, rows[i].as_slice());
        assert(all.take(i + 1).drop_last() =~= all.take(i as int));
        assert(all.take(i + 1).last() == rows@[i as int]@);
        assert(output@ =~= broken_lines(all.take(i + 1)));
        i = i + 1;
    }
    output
}

pub proof fn lemma_candidate_length(bytes: Seq<u8>)
    ensures
        alt_candidate(bytes) matches AltCandidate::Enter(length) ==> 0 < length <= bytes.len(),
        alt_candidate(bytes) is NeedMore ==> bytes.len() <= 3 + MAX_PARAMETER_BYTES,
{
    if bytes.len() >= 3 {
        lemma_parameters_end(bytes, 3);
    }
}

pub proof fn lemma_first_entry(data: Seq<u8>, from: int)
    requires
        0 <= from,
    ensures
        first_entry(data, from) matches Some(at) ==> from <= at < data.len() && data[at] == 0x1b
            && alt_candidate(data.skip(at)) != AltCandidate::No,
    decreases data.len() - from,
{
    if from < data.len() && !(data[from] == 0x1b && alt_candidate(data.skip(from))
        != AltCandidate::No) {
        lemma_first_entry(data, from + 1);
    }
}

/// A number of columns or rows, at least one.
pub open spec fn at_least_one(n: u16) -> u16 {
    if n == 0 {
        1
    } else {
        n
    }
}

impl<E: TerminalEngine> RecoveryMirror<E> {
    /// What the engine reports.
    pub open spec fn screen(&self) -> EngineScreen {
        E::screen_after(self@.history)
    }

    /// A mirror of a blank terminal, at least one cell in size. Its engine was built in that size
    /// and then initialized, and nothing else was done to it.
    pub fn new(cols: u16, rows: u16) -> (mirror: Self)
        ensures
            mirror@.frozen is None,
            mirror@.held == Seq::<u8>::empty(),
            exists|engine: &mut E|
                #![trigger call_ensures(E::initialize, (engine,), ())]
                call_ensures(E::new, (at_least_one(cols), at_least_one(rows)), *engine)
                    && call_ensures(E::initialize, (engine,), ()) && *final(engine)
                    == mirror.engine(),
            mirror@.history == mirror.engine().history(),
            ({
                let create = EngineStep::Create {
                    cols: at_least_one(cols),
                    rows: at_least_one(rows),
                };
                mirror@.history == seq![create] || mirror@.history == seq![
                    create,
                    EngineStep::Initialize,
                ]
            }),
    {
        let cols: u16 = if cols == 0 { 1 } else { cols };
        let rows: u16 = if rows == 0 { 1 } else { rows };
        let mut engine = E::new(cols, rows);
        let ghost create = engine.history();
        engine.initialize();
        assert(create.push(EngineStep::Initialize) =~= seq![create[0], EngineStep::Initialize]);
        RecoveryMirror { engine, frozen_primary: None, held: Vec::new() }
    }

    /// Runs output through the mirror.
    pub fn feed(&mut self, bytes: &[u8])
        ensures
            final(self)@ == fed::<E>(old(self)@.history, old(self)@.frozen, old(self)@.held + bytes@),
    {
        let mut data: Vec<u8> = Vec::new();
        std::mem::swap(&mut data, &mut self.held);
        text::push_bytes(&mut data, bytes);
        let ghost all = data@;
        let ghost goal = fed::<E>(self@.history, self@.frozen, all);
        let mut start: usize = 0;
        let mut index: usize = 0;
        assert(all.skip(0) =~= all);
        while index < data.len()
            invariant
                all == data@,
                goal == fed::<E>(
                    old(self)@.history,
                    old(self)@.frozen,
                    old(self)@.held + bytes@,
                ),
                self@.held.len() == 0,
                start <= index <= all.len(),
                goal == fed::<E>(self@.history, self@.frozen, all.skip(start as int)),
                first_entry(all.skip(start as int), 0) == first_entry(
                    all.skip(start as int),
                    index - start,
                ),
            decreases all.len() - index,
        {
            let ghost rest = all.skip(start as int);
            let ghost at = index - start;
            assert(rest.skip(at) =~= all.skip(index as int));
            assert(rest[at] == all[index as int]);
            if data[index] != 0x1b {
                index = index + 1;
                continue;
            }
            let candidate = classify_alt_enter(
                vstd::slice::slice_subrange(data.as_slice(), index, data.len()),
            );
            proof {
                assert(all.subrange(index as int, all.len() as int) =~= all.skip(index as int));
                lemma_candidate_length(all.skip(index as int));
                assert(all.subrange(start as int, index as int) =~= rest.take(at));
            }
            match candidate {
                AltCandidate::NeedMore => {
                    self.engine.feed(
                        vstd::slice::slice_subrange(data.as_slice(), start, index),
                    );
                    text::push_bytes(
                        &mut self.held,
                        vstd::slice::slice_subrange(data.as_slice(), index, data.len()),
                    );
                    assert(self@.held =~= rest.skip(at));
                    return;
                },
                AltCandidate::Enter(length) => {
                    self.engine.feed(
                        vstd::slice::slice_subrange(data.as_slice(), start, index),
                    );
                    if !self.engine.alt_active() {
                        self.frozen_primary = Some(
                            FrozenPrimary {
                                paint: paint_primary(&self.engine),
                                place: paint::cup(self.engine.cursor()),
                            },
                        );
                    }
                    self.engine.feed(
                        vstd::slice::slice_subrange(data.as_slice(), index, index + length),
                    );
                    proof {
                        assert(all.subrange(index as int, index + length) =~= rest.subrange(
                            at,
                            at + length,
                        ));
                        assert(rest.skip(at + length) =~= all.skip(index + length));
                    }
                    start = index + length;
                    index = start;
                },
                AltCandidate::No => {
                    index = index + 1;
                },
            }
        }
        let ghost rest = all.skip(start as int);
        assert(all.subrange(start as int, all.len() as int) =~= rest);
        self.engine.feed(vstd::slice::slice_subrange(data.as_slice(), start, data.len()));
        if !self.engine.alt_active() {
            self.frozen_primary = None;
        }
        assert(self@.held =~= Seq::<u8>::empty());
    }

    /// Gives the terminal a new size, at least one cell. The engine is handed the repaint of what
    /// it shows, and may rebuild itself from it.
    pub fn resize(&mut self, cols: u16, rows: u16)
        ensures
            final(self)@.frozen == old(self)@.frozen,
            final(self)@.held == old(self)@.held,
            exists|engine: &mut E, cols_then: u16, rows_then: u16, replay: &[u8]|
                #![trigger call_ensures(E::resize_with_replay, (engine, cols_then, rows_then, replay), ())]
                *engine == old(self).engine() && cols_then == at_least_one(cols) && rows_then
                    == at_least_one(rows) && replay@ == rehydration(
                    old(self).screen(),
                    old(self)@.frozen,
                ) && call_ensures(
                    E::resize_with_replay,
                    (engine, cols_then, rows_then, replay),
                    (),
                ) && *final(engine) == final(self).engine(),
            final(self)@.history == final(self).engine().history(),
            ({
                let (cols, rows) = (at_least_one(cols), at_least_one(rows));
                let replay = rehydration(old(self).screen(), old(self)@.frozen);
                final(self)@.history == old(self)@.history.push(EngineStep::Resize { cols, rows })
                    || final(self)@.history == old(self)@.history.push(
                    EngineStep::Replay { cols, rows, replay },
                )
            }),
    {
        let repaint = self.rehydrate();
        let replay: &[u8] = repaint.as_slice();
        let cols: u16 = if cols == 0 { 1 } else { cols };
        let rows: u16 = if rows == 0 { 1 } else { rows };
        self.engine.resize_with_replay(cols, rows, replay);
    }

    /// The bytes that rebuild this terminal on a blank one.
    pub fn rehydrate(&self) -> (output: Vec<u8>)
        ensures
            output@ == rehydration(self.screen(), self@.frozen),
    {
        let mut output: Vec<u8> = Vec::new();
        text::push_text(&mut output, "\x1b[0m");
        if self.engine.alt_active() {
            if let Some(primary) = &self.frozen_primary {
                text::push_bytes(&mut output, primary.paint.as_slice());
                text::push_bytes(&mut output, primary.place.as_slice());
            }
            text::push_text(&mut output, "\x1b[?1049h");
            text::push_bytes(&mut output, paint_alt(&self.engine).as_slice());
        } else {
            text::push_bytes(&mut output, paint_primary(&self.engine).as_slice());
        }
        text::push_bytes(&mut output, paint::cup(self.engine.cursor()).as_slice());
        text::push_bytes(&mut output, paint::mode_sets(self.engine.modes()).as_slice());
        text::push_bytes(
            &mut output,
            paint::cursor_style_set(self.engine.cursor_style()).as_slice(),
        );
        assert(output@ =~= rehydration(self.screen(), self@.frozen));
        output
    }

    /// The bytes that show this terminal in the scrollback of a new one.
    pub fn cold_paint(&self) -> (output: Vec<u8>)
        ensures
            output@ == cold_bytes(self.screen(), self@.frozen),
    {
        let mut output: Vec<u8> = Vec::new();
        text::push_text(&mut output, "\x1b[0m");
        if self.engine.alt_active() {
            if let Some(primary) = &self.frozen_primary {
                text::push_bytes(&mut output, primary.paint.as_slice());
            }
            text::push_text(&mut output, "\r\n");
            text::push_bytes(&mut output, paint_alt_flat(&self.engine).as_slice());
        } else {
            text::push_bytes(&mut output, paint_primary(&self.engine).as_slice());
        }
        text::push_text(&mut output, "\x1b[0m\r\n");
        assert(output@ =~= cold_bytes(self.screen(), self@.frozen));
        output
    }

    pub fn alt_active(&self) -> (active: bool)
        ensures
            active == self.screen().alt_active,
    {
        self.engine.alt_active()
    }

    pub fn suppressed_replies(&self) -> (count: u64)
        ensures
            count == self.screen().suppressed_replies,
    {
        self.engine.suppressed_replies()
    }

    pub fn cols(&self) -> (cols: u16)
        ensures
            cols == self.screen().cols,
    {
        self.engine.cols()
    }

    pub fn rows(&self) -> (rows: u16)
        ensures
            rows == self.screen().rows,
    {
        self.engine.rows()
    }

    pub fn cursor(&self) -> (cursor: (usize, usize))
        ensures
            cursor == self.screen().cursor,
    {
        self.engine.cursor()
    }

    pub fn cursor_style(&self) -> (style: TerminalCursorStyle)
        ensures
            style == self.screen().cursor_style,
    {
        self.engine.cursor_style()
    }

    pub fn cursor_animation(&self) -> (animation: TerminalCursorAnimation)
        ensures
            animation == self.screen().cursor_animation,
    {
        self.engine.cursor_animation()
    }

    pub fn modes(&self) -> (modes: TerminalModes)
        ensures
            modes == self.screen().modes,
    {
        self.engine.modes()
    }

    pub fn history_size(&self) -> (size: usize)
        ensures
            size == self.screen().history_size,
    {
        self.engine.history_size()
    }

    /// The engine this mirror drives.
    pub closed spec fn engine(&self) -> E {
        self.engine
    }

    /// What the engine says it can report.
    pub fn capabilities(&self) -> (capabilities: MirrorCapabilities)
        ensures
            call_ensures(E::capabilities, (&self.engine(),), capabilities),
    {
        self.engine.capabilities()
    }

    pub fn line_cells(&self, line: i32) -> (row: Vec<TerminalCell>)
        ensures
            cells::row_view(row@) == (self.screen().lines)(line as int),
    {
        self.engine.line_cells(line)
    }

    /// The viewport scrolled `offset` rows into history. Clamped to the history size; 0 while
    /// the alternate screen is active. The effective offset is echoed in the frame.
    pub fn frame_at(&self, offset: usize) -> (frame: TerminalFrame)
        ensures
            frame@ == frame_of(self.screen(), offset),
    {
        let ghost screen = self.screen();
        let alt_active = self.engine.alt_active();
        let history_size: usize = self.engine.history_size();
        let offset: usize = if alt_active {
            0
        } else if offset <= history_size {
            offset
        } else {
            history_size
        };
        let modes = self.engine.modes();
        let viewport = self.engine.viewport_cells(offset);
        let mut lines: Vec<FrameLine> = Vec::new();
        let mut y: usize = 0;
        while y < viewport.len()
            invariant
                screen == self.screen(),
                viewport@.len() == screen.rows,
                y <= viewport@.len(),
                lines@.len() == y,
                forall|k: int|
                    0 <= k < viewport@.len() ==> cells::row_view((#[trigger] viewport@[k])@) == (
                    screen.lines)(engine::viewport_line(k, offset)),
                forall|k: int| 0 <= k < viewport@.len() ==> frame::countable(
                    cells::row_view((#[trigger] viewport@[k])@),
                ),
                forall|k: int|
                    0 <= k < y ==> (#[trigger] lines@[k])@ == frame::line_of(
                        k as u16,
                        (screen.lines)(engine::viewport_line(k, offset)),
                    ),
            decreases viewport@.len() - y,
        {
            assert(frame::countable(cells::row_view(viewport@[y as int]@)));
            lines.push(frame::encode_line(y as u16, viewport[y].as_slice()));
            y = y + 1;
        }
        let frame = TerminalFrame {
            cols: self.engine.cols(),
            rows: self.engine.rows(),
            cursor: self.engine.cursor(),
            cursor_visible: modes.show_cursor,
            cursor_style: self.engine.cursor_style(),
            cursor_animation: self.engine.cursor_animation(),
            alt_active,
            history_size,
            offset,
            modes,
            lines,
        };
        assert(frame@.lines =~= frame_of(screen, offset).lines);
        frame
    }

    /// The viewport at the bottom.
    pub fn frame(&self) -> (frame: TerminalFrame)
        ensures
            frame@ == frame_of(self.screen(), 0),
    {
        self.frame_at(0)
    }
}

/// The bytes that were fed, in order.
pub open spec fn fed_bytes(history: Seq<EngineStep>) -> Seq<u8>
    decreases history.len(),
{
    if history.len() == 0 {
        Seq::empty()
    } else {
        fed_bytes(history.drop_last()) + (match history.last() {
            EngineStep::Feed { bytes } => bytes,
            _ => Seq::empty(),
        })
    }
}

proof fn lemma_fed_bytes_push(history: Seq<EngineStep>, bytes: Seq<u8>)
    ensures
        fed_bytes(history.push(EngineStep::Feed { bytes })) == fed_bytes(history) + bytes,
{
    let after = history.push(EngineStep::Feed { bytes });
    assert(after.drop_last() =~= history);
}

/// No output is lost, reordered or repeated: what the engine was fed, followed by what is still
/// held, is what it was fed before followed by the new bytes. At most a switch sequence's worth of
/// bytes is held.
pub proof fn law_no_output_is_lost<E: TerminalEngine>(
    history: Seq<EngineStep>,
    frozen: Option<FrozenView>,
    data: Seq<u8>,
)
    ensures
        fed_bytes(fed::<E>(history, frozen, data).history) + fed::<E>(history, frozen, data).held
            == fed_bytes(history) + data,
        fed::<E>(history, frozen, data).held.len() <= 3 + MAX_PARAMETER_BYTES,
    decreases data.len(),
{
    lemma_first_entry(data, 0);
    match first_entry(data, 0) {
        Some(at) => {
            let before = history.push(EngineStep::Feed { bytes: data.take(at) });
            lemma_fed_bytes_push(history, data.take(at));
            lemma_candidate_length(data.skip(at));
            match alt_candidate(data.skip(at)) {
                AltCandidate::Enter(length) => {
                    let switch = data.subrange(at, at + length);
                    lemma_fed_bytes_push(before, switch);
                    law_no_output_is_lost::<E>(
                        before.push(EngineStep::Feed { bytes: switch }),
                        frozen_at::<E>(before, frozen),
                        data.skip(at + length),
                    );
                    assert(fed_bytes(history) + data.take(at) + switch + data.skip(at + length)
                        =~= fed_bytes(history) + data);
                },
                _ => {
                    assert(fed_bytes(history) + data.take(at) + data.skip(at) =~= fed_bytes(history)
                        + data);
                },
            }
        },
        None => {
            lemma_fed_bytes_push(history, data);
            assert(fed_bytes(history) + data + Seq::<u8>::empty() =~= fed_bytes(history) + data);
        },
    }
}

/// A frame's rows are numbered from the top, there are as many as the screen has, and the offset
/// it echoes never passes the history; the alternate screen is never scrolled.
pub proof fn law_frame_rows_are_numbered(screen: EngineScreen, offset: usize)
    ensures
        frame_of(screen, offset).lines.len() == screen.rows,
        forall|y: int|
            0 <= y < screen.rows ==> (#[trigger] frame_of(screen, offset).lines[y]).y == y,
        frame_of(screen, offset).offset <= screen.history_size,
        frame_of(screen, offset).offset <= offset,
        screen.alt_active ==> frame_of(screen, offset).offset == 0,
        !screen.alt_active && offset <= screen.history_size ==> frame_of(screen, offset).offset
            == offset,
{
}

/// While no alternate screen is shown and nothing is held, nothing stays frozen after output.
pub proof fn law_primary_screen_thaws<E: TerminalEngine>(
    history: Seq<EngineStep>,
    frozen: Option<FrozenView>,
    data: Seq<u8>,
)
    ensures
        ({
            let after = fed::<E>(history, frozen, data);
            after.held.len() == 0 && !E::screen_after(after.history).alt_active
                ==> after.frozen is None
        }),
    decreases data.len(),
{
    lemma_first_entry(data, 0);
    if let Some(at) = first_entry(data, 0) {
        lemma_candidate_length(data.skip(at));
        if let AltCandidate::Enter(length) = alt_candidate(data.skip(at)) {
            let before = history.push(EngineStep::Feed { bytes: data.take(at) });
            law_primary_screen_thaws::<E>(
                before.push(EngineStep::Feed { bytes: data.subrange(at, at + length) }),
                frozen_at::<E>(before, frozen),
                data.skip(at + length),
            );
        }
    }
}

} // verus!
