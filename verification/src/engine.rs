//! The terminal engine a recovery mirror drives.

use vstd::prelude::*;

use crate::cells::{
    self, CellView, MirrorCapabilities, TerminalCell, TerminalCursorAnimation, TerminalCursorStyle,
    TerminalModes,
};
use crate::frame;

verus! {

/// One thing that was done to an engine.
#[verifier::ext_equal]
pub enum EngineStep {
    Create { cols: u16, rows: u16 },
    Initialize,
    Feed { bytes: Seq<u8> },
    Resize { cols: u16, rows: u16 },
    Replay { cols: u16, rows: u16, replay: Seq<u8> },
}

/// Everything an engine reports of its terminal.
pub struct EngineScreen {
    pub cols: u16,
    pub rows: u16,
    /// `(row, col)`, 0-based.
    pub cursor: (usize, usize),
    pub cursor_style: TerminalCursorStyle,
    pub cursor_animation: TerminalCursorAnimation,
    pub alt_active: bool,
    pub history_size: usize,
    pub modes: TerminalModes,
    /// The cells of a line; negative lines reach into history.
    pub lines: spec_fn(int) -> Seq<CellView>,
    pub suppressed_replies: u64,
}

/// The line a viewport row shows when the view is scrolled `offset` rows into history.
pub open spec fn viewport_line(y: int, offset: usize) -> int {
    y - if offset <= i32::MAX {
        offset as int
    } else {
        i32::MAX as int
    }
}

/// An engine interprets terminal output. What it reports is a function of what was done to it:
/// `history` is that record and `screen_after` the report. An implementation that is to be proved
/// says what both are; otherwise they are left open.
pub trait TerminalEngine: Send + Sized {
    /// What was done to this engine since it was created.
    closed spec fn history(&self) -> Seq<EngineStep> {
        arbitrary()
    }

    /// What an engine with this history reports.
    closed spec fn screen_after(history: Seq<EngineStep>) -> EngineScreen {
        arbitrary()
    }

    fn new(cols: u16, rows: u16) -> (engine: Self)
        ensures
            engine.history() == seq![EngineStep::Create { cols, rows }],
    ;

    /// Called once before the first byte. An engine with nothing to set up leaves no trace.
    fn initialize(&mut self)
        ensures
            final(self).history() == old(self).history() || final(self).history() == old(
                self,
            ).history().push(EngineStep::Initialize),
        default_ensures
            final(self).history() == old(self).history(),
    {
    }

    fn feed(&mut self, bytes: &[u8])
        ensures
            final(self).history() == old(self).history().push(
                EngineStep::Feed { bytes: bytes@ },
            ),
    ;

    fn resize(&mut self, cols: u16, rows: u16)
        ensures
            final(self).history() == old(self).history().push(EngineStep::Resize { cols, rows }),
    ;

    /// Resizes an engine that may rebuild itself from `replay`. By default the replay is not used.
    fn resize_with_replay(&mut self, cols: u16, rows: u16, replay: &[u8])
        ensures
            final(self).history() == old(self).history().push(EngineStep::Resize { cols, rows })
                || final(self).history() == old(self).history().push(
                EngineStep::Replay { cols, rows, replay: replay@ },
            ),
        default_ensures
            final(self).history() == old(self).history().push(EngineStep::Resize { cols, rows }),
    {
        self.resize(cols, rows);
    }

    fn cols(&self) -> (cols: u16)
        ensures
            cols == Self::screen_after(self.history()).cols,
    ;

    fn rows(&self) -> (rows: u16)
        ensures
            rows == Self::screen_after(self.history()).rows,
    ;

    /// The cursor lies where the next row and column can still be counted.
    fn cursor(&self) -> (cursor: (usize, usize))
        ensures
            cursor == Self::screen_after(self.history()).cursor,
            cursor.0 < usize::MAX,
            cursor.1 < usize::MAX,
    ;

    fn cursor_style(&self) -> (style: TerminalCursorStyle)
        ensures
            style == Self::screen_after(self.history()).cursor_style,
    ;

    fn cursor_animation(&self) -> (animation: TerminalCursorAnimation)
        ensures
            animation == Self::screen_after(self.history()).cursor_animation,
    ;

    fn alt_active(&self) -> (active: bool)
        ensures
            active == Self::screen_after(self.history()).alt_active,
    ;

    /// Lines are addressed by `i32`, so an engine keeps no more history than that reaches.
    fn history_size(&self) -> (size: usize)
        ensures
            size == Self::screen_after(self.history()).history_size,
            size <= i32::MAX,
    ;

    fn modes(&self) -> (modes: TerminalModes)
        ensures
            modes == Self::screen_after(self.history()).modes,
    ;

    fn line_cells(&self, line: i32) -> (row: Vec<TerminalCell>)
        ensures
            cells::row_view(row@) == (Self::screen_after(self.history()).lines)(line as int),
            frame::countable(cells::row_view(row@)),
    ;

    /// Every viewport row with the view scrolled `offset` rows into history: row `y` is engine
    /// line `y - offset`. `offset` is already clamped by the caller. Engines with a cheaper
    /// consecutive read override this.
    fn viewport_cells(&self, offset: usize) -> (rows: Vec<Vec<TerminalCell>>)
        ensures
            rows@.len() == Self::screen_after(self.history()).rows,
            forall|y: int|
                0 <= y < rows@.len() ==> cells::row_view((#[trigger] rows@[y])@) == (
                Self::screen_after(self.history()).lines)(viewport_line(y, offset)),
            forall|y: int| 0 <= y < rows@.len() ==> frame::countable(
                cells::row_view((#[trigger] rows@[y])@),
            ),
    {
        let shift: i32 = if offset <= i32::MAX as usize { offset as i32 } else { i32::MAX };
        let count: u16 = self.rows();
        let mut rows: Vec<Vec<TerminalCell>> = Vec::new();
        let mut y: u16 = 0;
        while y < count
            invariant
                y <= count,
                count == Self::screen_after(self.history()).rows,
                shift == if offset <= i32::MAX {
                    offset as int
                } else {
                    i32::MAX as int
                },
                rows@.len() == y,
                forall|k: int|
                    0 <= k < rows@.len() ==> cells::row_view((#[trigger] rows@[k])@) == (
                    Self::screen_after(self.history()).lines)(viewport_line(k, offset)),
                forall|k: int| 0 <= k < rows@.len() ==> frame::countable(
                    cells::row_view((#[trigger] rows@[k])@),
                ),
            decreases count - y,
        {
            rows.push(self.line_cells(y as i32 - shift));
            y = y + 1;
        }
        rows
    }

    /// What the engine can report on a cell; nothing optional by default.
    fn capabilities(&self) -> (capabilities: MirrorCapabilities)
        default_ensures
            capabilities == (MirrorCapabilities { hyperlinks: false }),
    {
        MirrorCapabilities::default()
    }

    fn suppressed_replies(&self) -> (count: u64)
        ensures
            count == Self::screen_after(self.history()).suppressed_replies,
    ;
}

} // verus!
