//! The mirror of one terminal, as the runtime and the painter use it.

use vstd::prelude::*;

use crate::cells::{
    self, MirrorCapabilities, TerminalCell, TerminalCursorAnimation, TerminalCursorStyle,
    TerminalModes, TerminalThemeOverrides,
};
use crate::engine::EngineScreen;
use crate::frame::{self, FrameView, TerminalFrame};

verus! {

/// One thing that was done to a mirror.
#[verifier::ext_equal]
pub enum MirrorStep {
    Feed { bytes: Seq<u8> },
    Resize { cols: u16, rows: u16 },
}

/// A terminal-state provider supplies one of these per terminal. An implementation that is to be
/// proved says what its ghost functions are; otherwise they are left open.
pub trait TerminalStateMirror: Send {
    /// What was done to this mirror since it was created.
    closed spec fn steps(&self) -> Seq<MirrorStep> {
        arbitrary()
    }

    /// What the engine behind the mirror reports.
    closed spec fn screen(&self) -> EngineScreen {
        arbitrary()
    }

    /// The viewport scrolled `offset` rows into history.
    closed spec fn viewport(&self, offset: usize) -> FrameView {
        arbitrary()
    }

    /// The bytes that rebuild the terminal on a blank one.
    closed spec fn repaint(&self) -> Seq<u8> {
        arbitrary()
    }

    /// The bytes that show the terminal in the scrollback of a new one.
    closed spec fn cold(&self) -> Seq<u8> {
        arbitrary()
    }

    /// The selected columns of a line, first and last.
    closed spec fn selected(&self, line: int) -> Option<(u16, u16)> {
        arbitrary()
    }

    fn feed(&mut self, bytes: &[u8])
        ensures
            final(self).steps() == old(self).steps().push(MirrorStep::Feed { bytes: bytes@ }),
    ;

    fn resize(&mut self, cols: u16, rows: u16)
        ensures
            final(self).steps() == old(self).steps().push(MirrorStep::Resize { cols, rows }),
    ;

    fn rehydrate(&self) -> (bytes: Vec<u8>)
        ensures
            bytes@ == self.repaint(),
    ;

    fn cold_paint(&self) -> (bytes: Vec<u8>)
        ensures
            bytes@ == self.cold(),
    ;

    /// The viewport scrolled `offset` rows into history; 0 is the bottom.
    fn frame_at(&self, offset: usize) -> (frame: TerminalFrame)
        ensures
            frame@ == self.viewport(offset),
    ;

    fn frame(&self) -> (frame: TerminalFrame)
        ensures
            frame@ == self.viewport(0),
    {
        self.frame_at(0)
    }

    fn history_size(&self) -> (size: usize)
        ensures
            size == self.screen().history_size,
            size <= i32::MAX,
    ;

    fn modes(&self) -> (modes: TerminalModes)
        ensures
            modes == self.screen().modes,
    ;

    fn capabilities(&self) -> MirrorCapabilities;

    fn alt_active(&self) -> (active: bool)
        ensures
            active == self.screen().alt_active,
    ;

    fn suppressed_replies(&self) -> (count: u64)
        ensures
            count == self.screen().suppressed_replies,
    ;

    /// Viewport geometry and cells, for the painter that renders this mirror.
    fn cols(&self) -> (cols: u16)
        ensures
            cols == self.screen().cols,
    ;

    fn rows(&self) -> (rows: u16)
        ensures
            rows == self.screen().rows,
    ;

    /// `(row, col)`, 0-based, in the viewport.
    fn cursor(&self) -> (cursor: (usize, usize))
        ensures
            cursor == self.screen().cursor,
            cursor.0 < usize::MAX,
            cursor.1 < usize::MAX,
    ;

    /// Cursor shape and blink as interpreted by the engine.
    fn cursor_style(&self) -> (style: TerminalCursorStyle)
        ensures
            style == self.screen().cursor_style,
    ;

    /// Provider or user animation policy, separate from terminal cursor state.
    fn cursor_animation(&self) -> (animation: TerminalCursorAnimation)
        ensures
            animation == self.screen().cursor_animation,
    ;

    /// OSC 4/10/11/12 state interpreted by the engine. `None` entries mean the current host base.
    fn theme_overrides(&self) -> (overrides: TerminalThemeOverrides)
        default_ensures
            overrides.none(),
    {
        TerminalThemeOverrides::default()
    }

    /// The cells of one viewport row; negative rows reach into history.
    fn line_cells(&self, line: i32) -> (row: Vec<TerminalCell>)
        ensures
            cells::row_view(row@) == (self.screen().lines)(line as int),
            frame::countable(cells::row_view(row@)),
    ;

    /// The selected columns of one viewport row, first and last.
    fn selection_range(&self, line: i32) -> (range: Option<(u16, u16)>)
        ensures
            range == self.selected(line as int),
    ;
}

} // verus!
