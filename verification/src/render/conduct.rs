//! What a render thread, a surface and its glyphs keep, whatever happens to them.

use vstd::prelude::*;

use crate::cells::{CellView, TerminalModes};
use crate::input::{self, PointerAction, WheelRoute};
use crate::json::{self, JsonView};
use crate::render::atlas::{self, Bitmap, PageView};
use crate::render::painter;
use crate::render::render_loop::{self, FrameStep, RenderLoop, RingCall, Wait};
use crate::render::session::{self, CursorAnimation, CursorPhase};
use crate::selection::{self, EngineSelection, SelectionPoint, SelectionRequest, SelectionView};
use crate::text;

verus! {

/// A thread paints only where something is owed, the grids match and the pane is not paused. What was
/// painted is owed no more; what was not painted because the pane is paused is still owed, and so is
/// what had to wait for the grid.
pub proof fn law_owed_paint_happens_once(
    turn: RenderLoop,
    progressed: u64,
    dirty: bool,
    grid_matches: bool,
    paused: bool,
)
    ensures
        ({
            let (decision, after) = render_loop::decided(
                turn,
                progressed,
                dirty,
                grid_matches,
                paused,
            );
            let news = progressed != turn.last_seen || dirty;
            &&& decision.output_activity == (progressed != turn.last_seen)
            &&& news && grid_matches && !paused ==> decision.paint
            &&& turn.awaiting_grid && grid_matches && !paused ==> decision.paint
            &&& decision.paint ==> grid_matches && !paused && (news || turn.awaiting_grid)
            &&& decision.paint ==> !render_loop::owes(after, progressed, false, true)
            &&& !decision.paint && progressed != turn.last_seen && grid_matches
                ==> render_loop::owes(after, progressed, false, true)
            &&& news && !grid_matches ==> render_loop::owes(after, progressed, false, true)
            &&& (after.last_signaled, after.animation) == (turn.last_signaled, turn.animation)
        }),
{
}

/// A painted slot is signaled where anything was painted on it or the application waits for a frame,
/// and only then; the signaled slot is remembered until slots come back.
pub proof fn law_painted_slot_is_signaled(turn: RenderLoop, slot: usize, rows: usize)
    ensures
        ({
            let (step, after) = render_loop::stepped(turn, slot, rows);
            &&& rows > 0 ==> step == FrameStep::Signal
            &&& turn.last_signaled is None ==> step == FrameStep::Signal
            &&& rows == 0 && turn.last_signaled is Some ==> step == FrameStep::GiveBack && after
                == turn
            &&& step == FrameStep::Signal ==> after.last_signaled == Some(slot)
            &&& (after.last_seen, after.awaiting_grid) == (turn.last_seen, turn.awaiting_grid)
        }),
{
}

/// Every slot that comes back is released, in order; the first of them also tells that the slot that
/// was signaled is shown.
pub proof fn law_returned_slots_are_released(signaled: Option<usize>, returned: Seq<u8>, at: int)
    requires
        0 <= at < returned.len(),
    ensures
        ({
            let calls = render_loop::ring_calls(signaled, returned);
            let ahead: int = if signaled is Some {
                1
            } else {
                0
            };
            &&& calls.len() == ahead + returned.len()
            &&& calls[ahead + at] == RingCall::Released(returned[at] as usize)
            &&& signaled matches Some(slot) ==> calls[0] == RingCall::Shown(slot)
        }),
{
}

/// A thread waits for nothing while there is output it has not taken in, a paint or an end; it has a
/// deadline only while a cursor blinks on a pane that is not paused.
pub proof fn law_deadline_only_while_blinking(
    turn: &RenderLoop,
    sequence: u64,
    dirty: bool,
    stop: bool,
    paused: bool,
    wait: Wait,
)
    requires
        call_ensures(RenderLoop::wait, (turn, sequence, dirty, stop, paused), wait),
    ensures
        wait is Nothing <==> sequence != turn.last_seen || dirty || stop,
        wait is SignalOr ==> turn.animation.active && !paused,
        turn.animation.active && !paused && !(wait is Nothing) ==> wait == Wait::SignalOr(
            turn.animation.interval_ms,
        ),
{
}

/// Shift sends the wheel to the scrollback. Otherwise any tracking mode sends it to the engine as a
/// mouse report; without one the alternate screen scrolls by the engine where that mode is on, and
/// everything else is the scrollback.
pub proof fn law_wheel_goes_by_the_modes(
    modes: TerminalModes,
    alt_active: bool,
    shift: bool,
    route: WheelRoute,
)
    requires
        call_ensures(input::wheel_route, (modes, alt_active, shift), route),
    ensures
        shift ==> route == WheelRoute::Scrollback,
        !shift && (modes.mouse_x10 || modes.mouse_highlight || modes.mouse_click || modes.mouse_drag
            || modes.mouse_motion) ==> route == WheelRoute::MouseReport,
        route == WheelRoute::AlternateScroll ==> !shift && modes.alternate_scroll && alt_active,
        !shift && alt_active && modes.alternate_scroll ==> route != WheelRoute::Scrollback,
        !alt_active && route != WheelRoute::MouseReport ==> route == WheelRoute::Scrollback,
{
}

/// A view scrolls to the offset that is asked for; down by as many lines as are asked for, or up where
/// they are negative; or to the top of the history or the bottom of the screen.
pub proof fn law_scroll_goes_where_it_is_asked(request: JsonView, current: int, history: int)
    ensures
        ({
            let wanted = session::wanted_offset(request, current, history);
            let offset = json::signed_in(json::member(request, "offset"@));
            let lines = json::signed_in(json::member(request, "lines"@));
            let edge = json::text_in(json::member(request, "edge"@));
            &&& offset matches Some(offset) ==> wanted matches Ok(to) && to == offset
            &&& offset is None ==> (lines matches Some(lines) ==> (wanted matches Ok(to) && to
                + lines == current))
            &&& offset is None && lines is None && edge == Some("top"@) ==> (wanted matches Ok(to)
                && to == history)
            &&& offset is None && lines is None && edge == Some("bottom"@) ==> (wanted matches Ok(
                to,
            ) && to == 0)
            &&& offset is None && lines is None && edge is None ==> wanted is Err
        }),
{
    reveal_strlit("top");
    reveal_strlit("bottom");
    assert("top"@.len() == 3 && "bottom"@.len() == 6);
}

/// The text of a view is the text of its rows, one line each: row `first` of a view that is scrolled
/// `offset` rows into history is the line `first - offset`, without the blanks at its end.
pub proof fn law_read_text_is_row_by_row(
    lines: spec_fn(int) -> Seq<CellView>,
    first: int,
    a: nat,
    b: nat,
    offset: int,
)
    ensures
        session::rows_text(lines, first, 1, offset) == text::end_trimmed(
            session::row_chars(lines(first - offset)),
        ).push('\n'),
        session::rows_text(lines, first, a + b, offset) == session::rows_text(
            lines,
            first,
            a,
            offset,
        ) + session::rows_text(lines, first + a, b, offset),
    decreases b,
{
    reveal_with_fuel(session::rows_text, 2);
    assert(session::rows_text(lines, first, 1, offset) =~= text::end_trimmed(
        session::row_chars(lines(first - offset)),
    ).push('\n'));
    if b > 0 {
        law_read_text_is_row_by_row(lines, first, a, (b - 1) as nat, offset);
        assert(first + (a + b) - 1 - offset == (first + a) + b - 1 - offset);
        assert(session::rows_text(lines, first, a + b, offset) =~= session::rows_text(
            lines,
            first,
            a,
            offset,
        ) + session::rows_text(lines, first + a, b, offset));
    } else {
        assert(session::rows_text(lines, first, a, offset) =~= session::rows_text(
            lines,
            first,
            a,
            offset,
        ) + session::rows_text(lines, first + a, 0, offset));
    }
}

/// The text of a row is the character of every cell, in order; the second half of a wide cell has
/// none.
pub proof fn law_row_text_is_cell_by_cell(row: Seq<CellView>, cell: CellView)
    ensures
        session::row_chars(Seq::empty()) == Seq::<char>::empty(),
        cell.spacer ==> session::row_chars(row.push(cell)) == session::row_chars(row),
        !cell.spacer ==> session::row_chars(row.push(cell)) == session::row_chars(row) + seq![
            cell.ch,
        ],
{
    assert(row.push(cell).drop_last() =~= row);
    assert(session::row_chars(row).push(cell.ch) =~= session::row_chars(row) + seq![cell.ch]);
}

pub proof fn lemma_narrow(ch: char)
    requires
        ch < '\u{1100}',
    ensures
        !painter::is_wide(ch),
{
}

pub proof fn lemma_laid(row: Seq<CellView>, chars: Seq<char>, index: int, col: int, at: int)
    requires
        0 <= index <= chars.len(),
        0 <= col,
        forall|i: int| 0 <= i < chars.len() ==> #[trigger] chars[i] < '\u{1100}',
    ensures
        ({
            let laid = painter::composed(row, chars, index, col, at, None).row;
            &&& laid.len() == row.len()
            &&& forall|c: int|
                0 <= c < row.len() && (c < col || c >= col + chars.len() - index)
                    ==> #[trigger] laid[c] == row[c]
            &&& forall|c: int|
                col <= c < row.len() && c < col + chars.len() - index ==> (#[trigger] laid[c]).ch
                    == chars[index + c - col] && laid[c].underline && !laid[c].spacer
                    && !laid[c].hidden
        }),
    decreases chars.len() - index,
{
    if index < chars.len() && col < row.len() {
        let ch = chars[index];
        let next = row.update(col, painter::preedit_view(ch, false));
        lemma_narrow(ch);
        let caret: Option<int> = if index == at {
            Some(col)
        } else {
            None
        };
        lemma_laid(next, chars, index + 1, col + 1, at);
        lemma_caret_apart(next, chars, index + 1, col + 1, at, caret, None);
        let laid = painter::composed(row, chars, index, col, at, None).row;
        assert(laid == painter::composed(next, chars, index + 1, col + 1, at, None).row);
        assert forall|c: int|
            col <= c < row.len() && c < col + chars.len() - index implies (#[trigger] laid[c]).ch
            == chars[index + c - col] && laid[c].underline && !laid[c].spacer && !laid[c].hidden by {
            if c == col {
                assert(laid[c] == next[c]);
            }
        }
        assert forall|c: int|
            0 <= c < row.len() && (c < col || c >= col + chars.len() - index) implies #[trigger] laid[c]
            == row[c] by {
            assert(laid[c] == next[c]);
        }
    }
}

proof fn lemma_caret_apart(
    row: Seq<CellView>,
    chars: Seq<char>,
    index: int,
    col: int,
    at: int,
    a: Option<int>,
    b: Option<int>,
)
    ensures
        painter::composed(row, chars, index, col, at, a).row == painter::composed(
            row,
            chars,
            index,
            col,
            at,
            b,
        ).row,
    decreases chars.len() - index,
{
    if index < chars.len() && col < row.len() {
        let ch = chars[index];
        let (x, y) = if index == at {
            (Some(col), Some(col))
        } else {
            (a, b)
        };
        let laid = row.update(col, painter::preedit_view(ch, painter::is_wide(ch)));
        if painter::is_wide(ch) && col + 1 < row.len() {
            lemma_caret_apart(
                laid.update(col + 1, painter::spacer_view()),
                chars,
                index + 1,
                col + 2,
                at,
                x,
                y,
            );
        } else {
            lemma_caret_apart(laid, chars, index + 1, col + 1, at, x, y);
        }
    }
}

/// Where the caret of a composition of narrow characters comes to stand, and where it ends.
pub proof fn lemma_caret_stands(
    row: Seq<CellView>,
    chars: Seq<char>,
    index: int,
    col: int,
    at: int,
    caret: Option<int>,
)
    requires
        0 <= index <= chars.len(),
        0 <= col,
        col + chars.len() - index <= row.len(),
        forall|i: int| 0 <= i < chars.len() ==> #[trigger] chars[i] < '\u{1100}',
    ensures
        ({
            let laid = painter::composed(row, chars, index, col, at, caret);
            &&& laid.end == col + chars.len() - index
            &&& laid.caret == if index <= at < chars.len() {
                Some(col + at - index)
            } else {
                caret
            }
        }),
    decreases chars.len() - index,
{
    if index < chars.len() {
        let ch = chars[index];
        lemma_narrow(ch);
        let next = row.update(col, painter::preedit_view(ch, false));
        let held = if index == at {
            Some(col)
        } else {
            caret
        };
        lemma_caret_stands(next, chars, index + 1, col + 1, at, held);
    }
}

/// A composition of narrow characters is laid over its row from the column it starts in, underlined
/// and in order, as far as there is room; the rest of the row shows as it is.
pub proof fn law_composition_is_laid_over_its_row(
    row: Seq<CellView>,
    chars: Seq<char>,
    start: int,
    caret: int,
    col: int,
)
    requires
        0 <= start,
        0 <= col < row.len(),
        forall|i: int| 0 <= i < chars.len() ==> #[trigger] chars[i] < '\u{1100}',
    ensures
        ({
            let laid = painter::composed(row, chars, 0, start, caret, None).row;
            &&& laid.len() == row.len()
            &&& start <= col < start + chars.len() ==> laid[col].ch == chars[col - start]
                && laid[col].underline
            &&& !(start <= col < start + chars.len()) ==> laid[col] == row[col]
        }),
{
    lemma_laid(row, chars, 0, start, caret);
}

/// A gesture selects lines, not rows of the view: a point of a view that is scrolled `offset` rows into
/// history lies that much further up. Its beginning is its anchor for as long as it goes on, and every
/// change is counted.
pub proof fn law_gesture_keeps_its_anchor(
    held: SelectionView,
    request: SelectionRequest,
    offset: usize,
)
    requires
        offset <= i32::MAX,
        held.sequence < u64::MAX,
    ensures
        selection::commanded(held, request, offset) matches Ok((after, engine)) ==> match request {
            SelectionRequest::Read => after == held && engine == EngineSelection::Keep,
            SelectionRequest::Begin { gesture, kind, row, column } => {
                let point = SelectionPoint { line: (row - offset) as i32, column };
                &&& engine == EngineSelection::Begin(point)
                &&& after.sequence == held.sequence + 1
                &&& after.owner matches Some(owner) && owner.gesture == gesture@ && owner.kind
                    == kind@ && owner.anchor == point && owner.focus == point
            },
            SelectionRequest::Update { gesture, kind, row, column } => {
                let point = SelectionPoint { line: (row - offset) as i32, column };
                &&& engine == EngineSelection::Update(point)
                &&& after.sequence == held.sequence + 1
                &&& held.owner matches Some(before) && (after.owner matches Some(owner)
                    && owner.gesture == before.gesture && owner.kind == before.kind && owner.anchor
                    == before.anchor && owner.focus == point)
            },
            SelectionRequest::Clear { gesture } => {
                &&& engine == EngineSelection::Clear
                &&& after.sequence == held.sequence + 1
                &&& after.owner is None
            },
        },
{
}

/// A bitmap that is placed keeps its size and its offsets, and one that fits on the shelf that is open
/// finds room.
pub proof fn law_slot_is_as_large_as_its_bitmap(page: PageView, bitmap: Bitmap)
    ensures
        ({
            let slot = atlas::slot_on(page, bitmap);
            &&& (slot.w, slot.h, slot.left, slot.top) == (
                bitmap.w,
                bitmap.h,
                bitmap.left,
                bitmap.top,
            )
            &&& page.cursor_x + bitmap.w <= page.size && page.shelf_y + bitmap.h <= page.size
                ==> atlas::fits(page, bitmap.w as nat, bitmap.h as nat)
            &&& page.cursor_x + bitmap.w <= page.size <= u16::MAX && page.shelf_y <= page.size
                ==> slot.x == page.cursor_x && slot.y == page.shelf_y
        }),
{
}

/// The damage of painted rows is as wide as the surface and, span by span, as high as its rows: a
/// rectangle starts at the pixel its first row starts at and ends where its last row ends.
pub proof fn law_damage_is_as_high_as_its_rows(rows: Seq<u16>, cell_h: u16, width: u32, at: int)
    requires
        0 <= at < render_loop::spans_of(rows).len(),
        width <= u16::MAX,
        (render_loop::spans_of(rows)[at].0 + render_loop::spans_of(rows)[at].1) * cell_h <= u16::MAX,
    ensures
        ({
            let (first, count) = render_loop::spans_of(rows)[at];
            let rects = render_loop::damage_of(rows, cell_h, width);
            let (x, y, w, h) = rects[at];
            &&& rects.len() == render_loop::spans_of(rows).len()
            &&& x == 0
            &&& w == width
            &&& y == first * cell_h
            &&& y + h == (first + count) * cell_h
        }),
{
    let (first, count) = render_loop::spans_of(rows)[at];
    assert((first + count) * cell_h == first * cell_h + count * cell_h) by (nonlinear_arith);
    assert(first * cell_h >= 0 && count * cell_h >= 0) by (nonlinear_arith);
}

/// The clock of a cursor runs only while a shown cursor blinks at some interval. Output shows the
/// cursor at once, and so does every start; a running clock turns the cursor over at every deadline,
/// and one that does not run leaves it shown.
pub proof fn law_blink_follows_the_engine(
    before: CursorAnimation,
    blinks: bool,
    interval_ms: u32,
    activity: bool,
)
    ensures
        ({
            let after = render_loop::animated(before, blinks, interval_ms, activity);
            &&& after.active <==> blinks && interval_ms > 0
            &&& after.interval_ms == interval_ms
            &&& activity ==> after.on
            &&& after.active && !before.active ==> after.on
            &&& !activity && after.active && before.active ==> after.on == before.on
            &&& before.active ==> render_loop::ticked(before).on != before.on
                && render_loop::ticked(render_loop::ticked(before)) == before
            &&& !before.active ==> render_loop::ticked(before) == before
        }),
{
}

/// A cursor is hidden only in the dark half of a blink that runs.
pub proof fn law_cursor_is_hidden_only_while_it_blinks(
    animation: &CursorAnimation,
    on: bool,
    phase: CursorPhase,
)
    requires
        call_ensures(CursorAnimation::cursor_on, (animation,), on),
        call_ensures(CursorAnimation::phase, (animation,), phase),
    ensures
        !on <==> animation.active && !animation.on,
        phase == CursorPhase::Off <==> !on,
        phase == CursorPhase::Steady <==> !animation.active,
{
}

/// Without shift, a press is reported in every tracking mode; a release in all of them but X10; a held
/// movement where drags or motion are tracked; and a free movement where motion is.
pub proof fn law_pointer_goes_by_the_modes(modes: TerminalModes)
    ensures
        input::reports(modes, PointerAction::Press, false) <==> (modes.mouse_x10
            || modes.mouse_highlight || modes.mouse_click || modes.mouse_drag || modes.mouse_motion),
        input::reports(modes, PointerAction::Release, false) <==> (modes.mouse_highlight
            || modes.mouse_click || modes.mouse_drag || modes.mouse_motion),
        input::reports(modes, PointerAction::HeldMove, false) <==> (modes.mouse_drag
            || modes.mouse_motion),
        input::reports(modes, PointerAction::FreeMove, false) <==> modes.mouse_motion,
{
}

} // verus!
