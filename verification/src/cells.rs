//! The plain values a terminal engine reports: cells, colors, cursor state and modes.

use vstd::prelude::*;

use crate::text;

verus! {

#[derive(Debug, Clone, Copy, PartialEq, Eq, Structural)]
pub enum TerminalColor {
    Default,
    Named(u8),
    Indexed(u8),
    Rgb(u8, u8, u8),
}

#[derive(Debug, Clone, Copy, PartialEq, Eq, Structural)]
pub struct TerminalRgb {
    pub r: u8,
    pub g: u8,
    pub b: u8,
}

#[derive(Debug, Clone, Copy, PartialEq, Eq, Structural)]
pub enum TerminalCursorShape {
    Block,
    Underline,
    Bar,
}

/// Cursor shape and blink as the engine interprets them.
#[derive(Debug, Clone, Copy, PartialEq, Eq, Structural)]
pub struct TerminalCursorStyle {
    pub shape: TerminalCursorShape,
    pub blinking: bool,
}

/// Provider or user animation policy, separate from the terminal's cursor state.
#[derive(Debug, Clone, Copy, PartialEq, Eq, Structural)]
pub struct TerminalCursorAnimation {
    /// Zero means the provider has no animation interval and therefore cannot schedule blinking.
    pub interval_ms: u32,
}

/// The modes an engine reports.
///
/// X10 tracking (DEC private mode 9) and highlight tracking (1001) are facts of their own; neither
/// is represented by setting click, drag or motion tracking.
#[derive(Debug, Clone, Copy, PartialEq, Eq, Structural)]
pub struct TerminalModes {
    pub bracketed_paste: bool,
    pub app_cursor: bool,
    pub app_keypad: bool,
    pub mouse_x10: bool,
    pub mouse_highlight: bool,
    pub mouse_click: bool,
    pub mouse_drag: bool,
    pub mouse_motion: bool,
    pub sgr_mouse: bool,
    pub utf8_mouse: bool,
    pub focus_in_out: bool,
    pub alternate_scroll: bool,
    pub show_cursor: bool,
    pub line_wrap: bool,
    pub insert: bool,
}

/// Every mode off.
pub open spec fn no_modes() -> TerminalModes {
    TerminalModes {
        bracketed_paste: false,
        app_cursor: false,
        app_keypad: false,
        mouse_x10: false,
        mouse_highlight: false,
        mouse_click: false,
        mouse_drag: false,
        mouse_motion: false,
        sgr_mouse: false,
        utf8_mouse: false,
        focus_in_out: false,
        alternate_scroll: false,
        show_cursor: false,
        line_wrap: false,
        insert: false,
    }
}

impl Default for TerminalModes {
    fn default() -> (modes: Self)
        ensures
            modes == no_modes(),
    {
        TerminalModes {
            bracketed_paste: false,
            app_cursor: false,
            app_keypad: false,
            mouse_x10: false,
            mouse_highlight: false,
            mouse_click: false,
            mouse_drag: false,
            mouse_motion: false,
            sgr_mouse: false,
            utf8_mouse: false,
            focus_in_out: false,
            alternate_scroll: false,
            show_cursor: false,
            line_wrap: false,
            insert: false,
        }
    }
}

/// What the engine behind a mirror can report on a cell.
#[derive(Debug, Clone, Copy, PartialEq, Eq, Structural)]
pub struct MirrorCapabilities {
    pub hyperlinks: bool,
}

impl Default for MirrorCapabilities {
    fn default() -> (capabilities: Self)
        ensures
            capabilities == (MirrorCapabilities { hyperlinks: false }),
    {
        MirrorCapabilities { hyperlinks: false }
    }
}

/// Colors the terminal set over the host's base theme. `None` means no override.
#[derive(Debug, PartialEq, Eq)]
pub struct TerminalThemeOverrides {
    pub foreground: Option<TerminalRgb>,
    pub background: Option<TerminalRgb>,
    pub cursor: Option<TerminalRgb>,
    pub ansi: [Option<TerminalRgb>; 256],
}

impl TerminalThemeOverrides {
    /// No color is overridden.
    pub open spec fn none(self) -> bool {
        &&& self.foreground is None
        &&& self.background is None
        &&& self.cursor is None
        &&& forall|i: int| 0 <= i < 256 ==> #[trigger] self.ansi@[i] is None
    }
}

impl Clone for TerminalThemeOverrides {
    fn clone(&self) -> (copy: Self)
        ensures
            copy == *self,
    {
        TerminalThemeOverrides {
            foreground: self.foreground,
            background: self.background,
            cursor: self.cursor,
            ansi: self.ansi,
        }
    }
}

impl Default for TerminalThemeOverrides {
    fn default() -> (overrides: Self)
        ensures
            overrides.none(),
    {
        let none: Option<TerminalRgb> = None;
        let ansi: [Option<TerminalRgb>; 256] = [none; 256];
        assert(ansi == vstd::array::spec_array_fill_for_copy_type::<Option<TerminalRgb>, 256>(
            none,
        ));
        TerminalThemeOverrides { foreground: None, background: None, cursor: None, ansi }
    }
}

#[derive(Debug, PartialEq, Eq)]
pub struct TerminalCell {
    pub ch: char,
    pub fg: TerminalColor,
    pub bg: TerminalColor,
    pub bold: bool,
    pub dim: bool,
    pub italic: bool,
    pub underline: bool,
    pub inverse: bool,
    pub strikeout: bool,
    pub hidden: bool,
    pub wide: bool,
    pub spacer: bool,
    pub wrapline: bool,
    pub zerowidth: Vec<char>,
    /// Hyperlink target (OSC 8), when the engine tracks one.
    pub link: Option<String>,
}

/// A cell as a mathematical value.
#[verifier::ext_equal]
pub struct CellView {
    pub ch: char,
    pub fg: TerminalColor,
    pub bg: TerminalColor,
    pub bold: bool,
    pub dim: bool,
    pub italic: bool,
    pub underline: bool,
    pub inverse: bool,
    pub strikeout: bool,
    pub hidden: bool,
    pub wide: bool,
    pub spacer: bool,
    pub wrapline: bool,
    pub zerowidth: Seq<char>,
    pub link: Option<Seq<char>>,
}

impl View for TerminalCell {
    type V = CellView;

    open spec fn view(&self) -> CellView {
        CellView {
            ch: self.ch,
            fg: self.fg,
            bg: self.bg,
            bold: self.bold,
            dim: self.dim,
            italic: self.italic,
            underline: self.underline,
            inverse: self.inverse,
            strikeout: self.strikeout,
            hidden: self.hidden,
            wide: self.wide,
            spacer: self.spacer,
            wrapline: self.wrapline,
            zerowidth: self.zerowidth@,
            link: text::text_of(self.link),
        }
    }
}

/// The views of a row of cells.
pub open spec fn row_view(cells: Seq<TerminalCell>) -> Seq<CellView> {
    Seq::new(cells.len(), |i: int| cells[i]@)
}

impl Clone for TerminalCell {
    fn clone(&self) -> (copy: Self)
        ensures
            copy@ == self@,
    {
        let zerowidth = copy_chars(&self.zerowidth);
        TerminalCell {
            ch: self.ch,
            fg: self.fg,
            bg: self.bg,
            bold: self.bold,
            dim: self.dim,
            italic: self.italic,
            underline: self.underline,
            inverse: self.inverse,
            strikeout: self.strikeout,
            hidden: self.hidden,
            wide: self.wide,
            spacer: self.spacer,
            wrapline: self.wrapline,
            zerowidth,
            link: text::copy_optional_text(&self.link),
        }
    }
}

fn copy_chars(chars: &Vec<char>) -> (copy: Vec<char>)
    ensures
        copy@ == chars@,
{
    let mut copy: Vec<char> = Vec::new();
    let mut i: usize = 0;
    while i < chars.len()
        invariant
            i <= chars@.len(),
            copy@ == chars@.take(i as int),
        decreases chars@.len() - i,
    {
        copy.push(chars[i]);
        assert(chars@.take(i + 1) =~= chars@.take(i as int).push(chars@[i as int]));
        i = i + 1;
    }
    assert(chars@.take(i as int) =~= chars@);
    copy
}

/// The last cell of a row continues onto the next row.
pub open spec fn row_wraps(row: Seq<CellView>) -> bool {
    row.len() > 0 && row.last().wrapline
}

/// Whether the last cell of a row continues onto the next row.
pub fn wraps(cells: &[TerminalCell]) -> (wrapped: bool)
    ensures
        wrapped == row_wraps(row_view(cells@)),
{
    cells.len() > 0 && cells[cells.len() - 1].wrapline
}

/// The character of a cell followed by its zero-width characters.
pub open spec fn cell_text(cell: CellView) -> Seq<char> {
    seq![cell.ch] + cell.zerowidth
}

/// Appends the character of `cell` and its zero-width characters.
pub fn push_cell_text(output: &mut String, cell: &TerminalCell)
    ensures
        final(output)@ == old(output)@ + cell_text(cell@),
{
    output.push(cell.ch);
    let mut i: usize = 0;
    assert(output@ =~= old(output)@ + (seq![cell.ch] + cell.zerowidth@.take(0)));
    while i < cell.zerowidth.len()
        invariant
            i <= cell.zerowidth@.len(),
            output@ == old(output)@ + (seq![cell.ch] + cell.zerowidth@.take(i as int)),
        decreases cell.zerowidth@.len() - i,
    {
        output.push(cell.zerowidth[i]);
        assert(output@ =~= old(output)@ + (seq![cell.ch] + cell.zerowidth@.take(i + 1)));
        i = i + 1;
    }
    assert(cell.zerowidth@.take(i as int) =~= cell.zerowidth@);
}

} // verus!
