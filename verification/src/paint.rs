//! Escape sequences that repaint a row of cells, set modes and place the cursor.

use vstd::prelude::*;

use crate::cells::{
    self, CellView, TerminalCell, TerminalColor, TerminalCursorShape, TerminalCursorStyle,
    TerminalModes,
};
use crate::text;

verus! {

/// The rendition a row is painted in: seven attributes and the two colors that have a code.
#[derive(Debug, Clone, Copy, PartialEq, Eq, Structural)]
pub struct Sgr {
    pub bold: bool,
    pub dim: bool,
    pub italic: bool,
    pub underline: bool,
    pub inverse: bool,
    pub hidden: bool,
    pub strikeout: bool,
    pub foreground: TerminalColor,
    pub background: TerminalColor,
}

/// No attribute and default colors: what `ESC [ 0 m` leaves behind.
pub open spec fn plain_sgr() -> Sgr {
    Sgr {
        bold: false,
        dim: false,
        italic: false,
        underline: false,
        inverse: false,
        hidden: false,
        strikeout: false,
        foreground: TerminalColor::Default,
        background: TerminalColor::Default,
    }
}

/// A named color beyond the sixteen names has no code and paints as the default.
pub open spec fn coded_color(color: TerminalColor) -> TerminalColor {
    match color {
        TerminalColor::Named(index) => if index < 16 {
            color
        } else {
            TerminalColor::Default
        },
        _ => color,
    }
}

/// The rendition of one cell.
pub open spec fn sgr_of(cell: CellView) -> Sgr {
    Sgr {
        bold: cell.bold,
        dim: cell.dim,
        italic: cell.italic,
        underline: cell.underline,
        inverse: cell.inverse,
        hidden: cell.hidden,
        strikeout: cell.strikeout,
        foreground: coded_color(cell.fg),
        background: coded_color(cell.bg),
    }
}

/// The SGR parameter that selects `color`, or none where the default applies.
pub open spec fn color_parameter(color: TerminalColor, background: bool) -> Option<Seq<char>> {
    let base: nat = if background { 40 } else { 30 };
    let bright: nat = if background { 100 } else { 90 };
    let extended: nat = if background { 48 } else { 38 };
    match color {
        TerminalColor::Default => None,
        TerminalColor::Named(index) => if index < 8 {
            Some(text::decimal(base + index as nat))
        } else if index < 16 {
            Some(text::decimal((bright + index as nat - 8) as nat))
        } else {
            None
        },
        TerminalColor::Indexed(index) => Some(
            text::decimal(extended) + ";5;"@ + text::decimal(index as nat),
        ),
        TerminalColor::Rgb(red, green, blue) => Some(
            text::decimal(extended) + ";2;"@ + text::decimal(red as nat) + ";"@ + text::decimal(
                green as nat,
            ) + ";"@ + text::decimal(blue as nat),
        ),
    }
}

/// A parameter after a separator, or nothing.
pub open spec fn optional_parameter(parameter: Option<Seq<char>>) -> Seq<char> {
    match parameter {
        Some(parameter) => ";"@ + parameter,
        None => Seq::empty(),
    }
}

/// `shown` when the condition holds, else nothing.
pub open spec fn when(condition: bool, shown: Seq<char>) -> Seq<char> {
    if condition {
        shown
    } else {
        Seq::empty()
    }
}

/// The sequence that resets the rendition and selects `style`.
pub open spec fn sgr_text(style: Sgr) -> Seq<char> {
    "\x1b[0"@ + when(style.bold, ";1"@) + when(style.dim, ";2"@) + when(style.italic, ";3"@) + when(
        style.underline,
        ";4"@,
    ) + when(style.inverse, ";7"@) + when(style.hidden, ";8"@) + when(style.strikeout, ";9"@)
        + optional_parameter(color_parameter(style.foreground, false)) + optional_parameter(
        color_parameter(style.background, true),
    ) + "m"@
}

/// A cell that leaves no trace: a space without color, attribute or combining character.
pub open spec fn is_blank(cell: CellView) -> bool {
    &&& cell.ch == ' '
    &&& cell.zerowidth.len() == 0
    &&& cell.fg == TerminalColor::Default
    &&& cell.bg == TerminalColor::Default
    &&& !cell.bold
    &&& !cell.dim
    &&& !cell.italic
    &&& !cell.underline
    &&& !cell.inverse
    &&& !cell.strikeout
    &&& !cell.hidden
}

/// The row without its trailing blank cells.
pub open spec fn without_trailing_blanks(row: Seq<CellView>) -> Seq<CellView>
    decreases row.len(),
{
    if row.len() > 0 && is_blank(row.last()) {
        without_trailing_blanks(row.drop_last())
    } else {
        row
    }
}

/// The cells of a row that are painted: all of them when the row wraps.
pub open spec fn painted_cells(row: Seq<CellView>) -> Seq<CellView> {
    if cells::row_wraps(row) {
        row
    } else {
        without_trailing_blanks(row)
    }
}

/// The bytes that paint `row` starting in rendition `current`, and the rendition they leave.
/// Spacers are skipped and the rendition is sent only where it changes.
pub open spec fn cells_paint(row: Seq<CellView>, current: Sgr) -> (Seq<u8>, Sgr)
    decreases row.len(),
{
    if row.len() == 0 {
        (Seq::empty(), current)
    } else {
        let (before, style) = cells_paint(row.drop_last(), current);
        let cell = row.last();
        if cell.spacer {
            (before, style)
        } else {
            let next = sgr_of(cell);
            let change = if next != style {
                text::utf8(sgr_text(next))
            } else {
                Seq::empty()
            };
            (before + change + text::utf8(cells::cell_text(cell)), next)
        }
    }
}

/// The bytes that paint the visible part of a row, and the rendition they leave.
pub open spec fn row_paint(row: Seq<CellView>, current: Sgr) -> (Seq<u8>, Sgr) {
    cells_paint(painted_cells(row), current)
}

impl Sgr {
    /// The rendition `ESC [ 0 m` leaves behind.
    pub fn plain() -> (style: Sgr)
        ensures
            style == plain_sgr(),
    {
        Sgr {
            bold: false,
            dim: false,
            italic: false,
            underline: false,
            inverse: false,
            hidden: false,
            strikeout: false,
            foreground: TerminalColor::Default,
            background: TerminalColor::Default,
        }
    }
}

fn with_code(color: TerminalColor) -> (coded: TerminalColor)
    ensures
        coded == coded_color(color),
{
    match color {
        TerminalColor::Named(index) => if index < 16 {
            color
        } else {
            TerminalColor::Default
        },
        _ => color,
    }
}

/// The rendition of `cell`.
pub fn sgr(cell: &TerminalCell) -> (style: Sgr)
    ensures
        style == sgr_of(cell@),
{
    Sgr {
        bold: cell.bold,
        dim: cell.dim,
        italic: cell.italic,
        underline: cell.underline,
        inverse: cell.inverse,
        hidden: cell.hidden,
        strikeout: cell.strikeout,
        foreground: with_code(cell.fg),
        background: with_code(cell.bg),
    }
}

/// The SGR parameter that selects `color`, or `None` where the default applies.
pub fn color_code(color: TerminalColor, background: bool) -> (code: Option<String>)
    ensures
        text::text_of(code) == color_parameter(color, background),
{
    let base: u64 = if background { 40 } else { 30 };
    let bright: u64 = if background { 100 } else { 90 };
    let extended: u64 = if background { 48 } else { 38 };
    match color {
        TerminalColor::Default => None,
        TerminalColor::Named(index) => if index < 8 {
            Some(text::decimal_text(base + index as u64))
        } else if index < 16 {
            Some(text::decimal_text(bright + index as u64 - 8))
        } else {
            None
        },
        TerminalColor::Indexed(index) => {
            let mut code = text::decimal_text(extended);
            code.push_str(";5;");
            code.push_str(text::decimal_text(index as u64).as_str());
            Some(code)
        },
        TerminalColor::Rgb(red, green, blue) => {
            let mut code = text::decimal_text(extended);
            code.push_str(";2;");
            code.push_str(text::decimal_text(red as u64).as_str());
            code.push_str(";");
            code.push_str(text::decimal_text(green as u64).as_str());
            code.push_str(";");
            code.push_str(text::decimal_text(blue as u64).as_str());
            Some(code)
        },
    }
}

fn push_when(output: &mut String, condition: bool, shown: &str)
    ensures
        final(output)@ == old(output)@ + when(condition, shown@),
{
    if condition {
        output.push_str(shown);
    }
    assert(output@ =~= old(output)@ + when(condition, shown@));
}

fn push_parameter(output: &mut String, parameter: &Option<String>)
    ensures
        final(output)@ == old(output)@ + optional_parameter(text::text_of(*parameter)),
{
    if let Some(value) = parameter {
        output.push_str(";");
        output.push_str(value.as_str());
    }
    assert(output@ =~= old(output)@ + optional_parameter(text::text_of(*parameter)));
}

/// Appends the sequence that resets the rendition and selects `style`.
pub fn emit_sgr(output: &mut Vec<u8>, style: &Sgr)
    ensures
        final(output)@ == old(output)@ + text::utf8(sgr_text(*style)),
{
    let mut sequence = String::new();
    sequence.push_str("\x1b[0");
    assert(sequence@ =~= "\x1b[0"@);
    push_when(&mut sequence, style.bold, ";1");
    push_when(&mut sequence, style.dim, ";2");
    push_when(&mut sequence, style.italic, ";3");
    push_when(&mut sequence, style.underline, ";4");
    push_when(&mut sequence, style.inverse, ";7");
    push_when(&mut sequence, style.hidden, ";8");
    push_when(&mut sequence, style.strikeout, ";9");
    push_parameter(&mut sequence, &color_code(style.foreground, false));
    push_parameter(&mut sequence, &color_code(style.background, true));
    sequence.push_str("m");
    text::push_text(output, sequence.as_str());
}

fn blank(cell: &TerminalCell) -> (b: bool)
    ensures
        b == is_blank(cell@),
{
    cell.ch == ' ' && cell.zerowidth.len() == 0 && cell.fg == TerminalColor::Default && cell.bg
        == TerminalColor::Default && !cell.bold && !cell.dim && !cell.italic && !cell.underline
        && !cell.inverse && !cell.strikeout && !cell.hidden
}

/// Appends the visible part of a row to `output`, starting in rendition `current`, and says
/// whether the row wraps.
pub fn paint_cells(output: &mut Vec<u8>, cells: &[TerminalCell], current: &mut Sgr) -> (wrapped:
    bool)
    ensures
        wrapped == cells::row_wraps(cells::row_view(cells@)),
        final(output)@ == old(output)@ + row_paint(cells::row_view(cells@), *old(current)).0,
        *final(current) == row_paint(cells::row_view(cells@), *old(current)).1,
{
    let ghost row = cells::row_view(cells@);
    let wrapped = cells::wraps(cells);
    let mut end: usize = cells.len();
    assert(row.take(end as int) =~= row);
    if !wrapped {
        while end > 0 && blank(&cells[end - 1])
            invariant
                row == cells::row_view(cells@),
                end <= cells@.len(),
                without_trailing_blanks(row.take(end as int)) == without_trailing_blanks(row),
            decreases end,
        {
            assert(row.take(end as int).drop_last() =~= row.take(end - 1));
            end = end - 1;
        }
    }
    assert(painted_cells(row) == row.take(end as int));
    let mut i: usize = 0;
    let ghost start = *current;
    assert(row.take(0) =~= Seq::<CellView>::empty());
    assert(output@ =~= old(output)@ + cells_paint(row.take(0), start).0);
    while i < end
        invariant
            row == cells::row_view(cells@),
            i <= end <= cells@.len(),
            output@ == old(output)@ + cells_paint(row.take(i as int), start).0,
            *current == cells_paint(row.take(i as int), start).1,
        decreases end - i,
    {
        let cell = &cells[i];
        let ghost before = output@;
        assert(row.take(i + 1).drop_last() =~= row.take(i as int));
        if !cell.spacer {
            let next = sgr(cell);
            if next != *current {
                emit_sgr(output, &next);
                *current = next;
            }
            let mut shown = String::new();
            cells::push_cell_text(&mut shown, cell);
            assert(shown@ =~= cells::cell_text(cell@));
            text::push_text(output, shown.as_str());
        }
        assert(output@ =~= old(output)@ + cells_paint(row.take(i + 1), start).0);
        i = i + 1;
    }
    wrapped
}

/// The bytes that set the modes a fresh terminal does not start in.
pub open spec fn mode_sets_bytes(modes: TerminalModes) -> Seq<u8> {
    text::utf8(
        when(modes.bracketed_paste, "\x1b[?2004h"@) + when(modes.app_cursor, "\x1b[?1h"@) + when(
            modes.app_keypad,
            "\x1b="@,
        ) + when(modes.mouse_click, "\x1b[?1000h"@) + when(modes.mouse_drag, "\x1b[?1002h"@) + when(
            modes.mouse_motion,
            "\x1b[?1003h"@,
        ) + when(modes.sgr_mouse, "\x1b[?1006h"@) + when(modes.utf8_mouse, "\x1b[?1005h"@) + when(
            modes.focus_in_out,
            "\x1b[?1004h"@,
        ) + when(modes.insert, "\x1b[4h"@) + when(modes.alternate_scroll, "\x1b[?1007h"@) + when(
            !modes.line_wrap,
            "\x1b[?7l"@,
        ) + when(!modes.show_cursor, "\x1b[?25l"@),
    )
}

/// The bytes that set the modes a fresh terminal does not start in.
pub fn mode_sets(modes: TerminalModes) -> (bytes: Vec<u8>)
    ensures
        bytes@ == mode_sets_bytes(modes),
{
    let mut sequence = String::new();
    push_when(&mut sequence, modes.bracketed_paste, "\x1b[?2004h");
    assert(sequence@ =~= when(modes.bracketed_paste, "\x1b[?2004h"@));
    push_when(&mut sequence, modes.app_cursor, "\x1b[?1h");
    push_when(&mut sequence, modes.app_keypad, "\x1b=");
    push_when(&mut sequence, modes.mouse_click, "\x1b[?1000h");
    push_when(&mut sequence, modes.mouse_drag, "\x1b[?1002h");
    push_when(&mut sequence, modes.mouse_motion, "\x1b[?1003h");
    push_when(&mut sequence, modes.sgr_mouse, "\x1b[?1006h");
    push_when(&mut sequence, modes.utf8_mouse, "\x1b[?1005h");
    push_when(&mut sequence, modes.focus_in_out, "\x1b[?1004h");
    push_when(&mut sequence, modes.insert, "\x1b[4h");
    push_when(&mut sequence, modes.alternate_scroll, "\x1b[?1007h");
    push_when(&mut sequence, !modes.line_wrap, "\x1b[?7l");
    push_when(&mut sequence, !modes.show_cursor, "\x1b[?25l");
    text::copy_bytes(sequence.as_str().as_bytes())
}

/// The DECSCUSR parameter of a cursor style.
pub open spec fn cursor_style_parameter(style: TerminalCursorStyle) -> nat {
    match style.shape {
        TerminalCursorShape::Block => if style.blinking { 1 } else { 2 },
        TerminalCursorShape::Underline => if style.blinking { 3 } else { 4 },
        TerminalCursorShape::Bar => if style.blinking { 5 } else { 6 },
    }
}

/// The bytes that select a cursor style.
pub open spec fn cursor_style_bytes(style: TerminalCursorStyle) -> Seq<u8> {
    text::utf8("\x1b["@ + text::decimal(cursor_style_parameter(style)) + " q"@)
}

/// The bytes that select a cursor style.
pub fn cursor_style_set(style: TerminalCursorStyle) -> (bytes: Vec<u8>)
    ensures
        bytes@ == cursor_style_bytes(style),
{
    let parameter: u64 = match style.shape {
        TerminalCursorShape::Block => if style.blinking { 1 } else { 2 },
        TerminalCursorShape::Underline => if style.blinking { 3 } else { 4 },
        TerminalCursorShape::Bar => if style.blinking { 5 } else { 6 },
    };
    let mut sequence = String::new();
    sequence.push_str("\x1b[");
    assert(sequence@ =~= "\x1b["@);
    sequence.push_str(text::decimal_text(parameter).as_str());
    sequence.push_str(" q");
    text::copy_bytes(sequence.as_str().as_bytes())
}

/// The bytes that move the cursor to a 0-based `(row, column)`.
pub open spec fn cup_bytes(cursor: (usize, usize)) -> Seq<u8> {
    text::utf8(
        "\x1b["@ + text::decimal((cursor.0 + 1) as nat) + ";"@ + text::decimal(
            (cursor.1 + 1) as nat,
        ) + "H"@,
    )
}

/// The bytes that move the cursor to a 0-based `(row, column)`.
pub fn cup(cursor: (usize, usize)) -> (bytes: Vec<u8>)
    requires
        cursor.0 < usize::MAX,
        cursor.1 < usize::MAX,
    ensures
        bytes@ == cup_bytes(cursor),
{
    let mut sequence = String::new();
    sequence.push_str("\x1b[");
    assert(sequence@ =~= "\x1b["@);
    sequence.push_str(text::decimal_text((cursor.0 + 1) as u64).as_str());
    sequence.push_str(";");
    sequence.push_str(text::decimal_text((cursor.1 + 1) as u64).as_str());
    sequence.push_str("H");
    text::copy_bytes(sequence.as_str().as_bytes())
}

} // verus!
