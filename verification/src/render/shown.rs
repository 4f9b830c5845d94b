//! What a refreshed grid shows of the mirror it was refreshed from.

use vstd::prelude::*;

use crate::cells::{CellView, TerminalColor, TerminalCursorShape};
use crate::render::conduct;
use crate::render::instances::{self, GlyphPlacement, GlyphSource, GpuCell, PaletteView};
use crate::render::painter::{self, Overlay, PainterView, Request};
use crate::state::TerminalStateMirror;

verus! {

/// The packed form of a color, or another where there is none.
pub open spec fn packed(palette: PaletteView, color: TerminalColor, other: u32, bright: bool) -> u32 {
    match color {
        TerminalColor::Default => other,
        TerminalColor::Named(index) | TerminalColor::Indexed(index) => palette.ansi[index as int
            + if bright && index < 8 {
            8int
        } else {
            0int
        }],
        TerminalColor::Rgb(r, g, b) => (b as int + g as int * 0x100 + r as int * 0x1_0000
            + 0xff00_0000int) as u32,
    }
}

/// The ink and the ground of a cell: its own colors, swapped where it is inverse; hidden ink has the
/// color of the ground. Bold brightens the ink of the first eight names.
pub open spec fn inks(palette: PaletteView, cell: CellView) -> (u32, u32) {
    let ink = packed(palette, cell.fg, palette.fg, cell.bold);
    let ground = packed(palette, cell.bg, palette.bg, false);
    match (cell.inverse, cell.hidden) {
        (false, false) => (ink, ground),
        (true, false) => (ground, ink),
        (false, true) => (ground, ground),
        (true, true) => (ink, ink),
    }
}

/// Whether one of the flags of an instance is set.
pub open spec fn flagged(cell: GpuCell, flag: u32) -> bool {
    (cell.flags as int / flag as int) % 2 == 1
}

proof fn lemma_row_at(
    row: Seq<CellView>,
    placed: Seq<Option<GlyphPlacement>>,
    cell_w: u16,
    palette: PaletteView,
    at: int,
)
    requires
        0 <= at < row.len(),
    ensures
        instances::row_of(row, placed, cell_w, palette).len() == row.len(),
        exists|leading: Option<GpuCell>|
            instances::row_of(row, placed, cell_w, palette)[at] == #[trigger] instances::instance_of(
                row[at],
                placed[at],
                leading,
                cell_w,
                palette,
            ),
    decreases row.len(),
{
    let front = row.drop_last();
    let before = instances::row_of(front, placed, cell_w, palette);
    let last = row.len() - 1;
    if front.len() > 0 {
        lemma_row_at(front, placed, cell_w, palette, if at < last { at } else { 0 });
    } else {
        assert(before.len() == 0);
    }
    if at < last {
        assert(front[at] == row[at]);
        assert(instances::row_of(row, placed, cell_w, palette)[at] == before[at]);
    } else {
        let leading = if last > 0 && row[last - 1].wide {
            Some(before.last())
        } else {
            None
        };
        assert(instances::row_of(row, placed, cell_w, palette)[at] == instances::instance_of(
            row[at],
            placed[at],
            leading,
            cell_w,
            palette,
        ));
    }
}

proof fn lemma_instance(
    cell: CellView,
    placed: Option<GlyphPlacement>,
    leading: Option<GpuCell>,
    cell_w: u16,
    palette: PaletteView,
)
    ensures
        ({
            let out = instances::instance_of(cell, placed, leading, cell_w, palette);
            &&& (out.fg, out.bg) == inks(palette, cell)
            &&& flagged(out, instances::FLAG_UNDERLINE) == cell.underline
            &&& flagged(out, instances::FLAG_STRIKEOUT) == cell.strikeout
            &&& flagged(out, instances::FLAG_WIDE) == cell.wide
            &&& !cell.spacer && (cell.hidden || cell.ch == ' ') ==> out.glyph_w == 0
            &&& !cell.spacer && !cell.hidden && cell.ch != ' ' ==> match placed {
                Some(placed) => (out.glyph_x, out.glyph_y, out.glyph_w, out.glyph_h) == (
                    placed.x,
                    placed.y,
                    placed.w,
                    placed.h,
                ) && (out.ink_left, out.ink_top) == (placed.left, placed.top),
                None => out.glyph_w == 0,
            }
        }),
{
}

/// Whether the cursor is drawn on a cell of a viewport: it shows at the bottom of the view only, at
/// its own row and column, and blinks only with focus.
pub open spec fn cursor_at<M: TerminalStateMirror + ?Sized>(
    mirror: &M,
    request: Request,
    row: int,
    col: int,
) -> bool {
    &&& mirror.screen().modes.show_cursor
    &&& request.offset == 0
    &&& mirror.screen().cursor.0 == row
    &&& mirror.screen().cursor.1 == col
    &&& request.cursor_on || !request.focused
}

/// Whether a cell of a viewport is selected.
pub open spec fn selected_at<M: TerminalStateMirror + ?Sized>(
    mirror: &M,
    request: Request,
    row: int,
    col: int,
) -> bool {
    mirror.selected(row - request.offset) matches Some((first, last)) && first <= col <= last
}

/// Whether a composition is laid over a row of a viewport.
pub open spec fn composing<M: TerminalStateMirror + ?Sized>(
    mirror: &M,
    request: Request,
    row: int,
) -> bool {
    request.preedit is Some && request.offset == 0 && mirror.screen().cursor.0 == row
}

/// The cell that a column of a line shows: beyond the end of the line a plain blank.
pub open spec fn cell_at(line: Seq<CellView>, col: int) -> CellView {
    if col < line.len() {
        line[col]
    } else {
        CellView {
            ch: ' ',
            fg: TerminalColor::Default,
            bg: TerminalColor::Default,
            bold: false,
            dim: false,
            italic: false,
            underline: false,
            inverse: false,
            strikeout: false,
            hidden: false,
            wide: false,
            spacer: false,
            wrapline: false,
            zerowidth: Seq::empty(),
            link: None,
        }
    }
}

/// Row `row` of a grid that was refreshed `offset` rows into history shows the line `row - offset` of
/// the mirror, cell by cell: each in its own colors and decorations, with the glyph the source
/// answered for it; a selected cell in the selection's colors; and the cursor, in its own shape,
/// where it stands. Without focus the cursor is hollow.
pub proof fn law_refreshed_row_shows_its_line<M: TerminalStateMirror + ?Sized, G: GlyphSource>(
    mirror: &M,
    request: Request,
    before: PainterView,
    after: PainterView,
    sources: Seq<G>,
    row: int,
    col: int,
)
    requires
        painter::refreshed(mirror, request, before, after, sources),
        0 <= row < before.rows,
        0 <= col < before.cols,
        before.keys[row] != after.keys[row],
        !composing(mirror, request, row),
    ensures
        ({
            let line = (mirror.screen().lines)(row - request.offset);
            let cell = cell_at(line, col);
            let out = after.grid[row][col];
            let palette = before.palette;
            let cursor = cursor_at(mirror, request, row, col);
            let selected = selected_at(mirror, request, row, col);
            let shape = mirror.screen().cursor_style.shape;
            &&& after.grid[row].len() == before.cols
            &&& !cursor && !selected ==> (out.fg, out.bg) == inks(palette, cell)
            &&& !cursor && selected ==> (out.fg, out.bg) == (
                palette.selection_fg,
                palette.selection_bg,
            )
            &&& !cursor ==> {
                &&& flagged(out, instances::FLAG_UNDERLINE) == cell.underline
                &&& flagged(out, instances::FLAG_STRIKEOUT) == cell.strikeout
                &&& flagged(out, instances::FLAG_WIDE) == cell.wide
            }
            &&& cursor ==> out.reserved == palette.cursor
            &&& cursor && request.focused && shape == TerminalCursorShape::Block ==> (
                out.fg,
                out.bg,
            ) == (palette.cursor_accent, palette.cursor)
            &&& cursor && request.focused && shape == TerminalCursorShape::Underline ==> out.flags
                & instances::FLAG_CURSOR_UNDERLINE != 0
            &&& cursor && request.focused && shape == TerminalCursorShape::Bar ==> out.flags
                & instances::FLAG_CURSOR_BAR != 0
            &&& cursor && !request.focused ==> out.flags & instances::FLAG_CURSOR_HOLLOW != 0
            &&& !cell.spacer && (cell.hidden || cell.ch == ' ') ==> out.glyph_w == 0
            &&& !cell.spacer && !cell.hidden && cell.ch != ' ' ==> exists|
                source: G,
                placed: Option<GlyphPlacement>,
                next: G,
            | #[trigger]
                source.answers(cell, placed, next) && match placed {
                    Some(placed) => (out.glyph_x, out.glyph_y, out.glyph_w, out.glyph_h) == (
                        placed.x,
                        placed.y,
                        placed.w,
                        placed.h,
                    ) && (out.ink_left, out.ink_top) == (placed.left, placed.top),
                    None => out.glyph_w == 0,
                }
        }),
{
    assert(painter::row_refreshed(
        mirror,
        request,
        before,
        after,
        row,
        sources[row],
        sources[row + 1],
    ));
    let line = painter::viewport_row(mirror, request, row);
    let dress = painter::dress_of(mirror, request, row);
    assert(dress.overlay is None);
    let shown = painter::shown_row(line, before.cols as nat, None);
    let placed = choose|placed: Seq<Option<GlyphPlacement>>|
        instances::asked(sources[row], shown, placed, sources[row + 1]) && after.grid[row]
            == #[trigger] painter::painted_row(
            line,
            before.cols as nat,
            dress,
            placed,
            before.cell_w,
            before.palette,
        );
    let asked = choose|asked: Seq<G>| #[trigger]
        instances::answered(shown, placed, asked) && asked[0] == sources[row] && asked.last()
            == sources[row + 1];
    let cell = cell_at(line, col);
    assert(shown[col] == cell);
    let plain = instances::row_of(shown, placed, before.cell_w, before.palette);
    lemma_row_at(shown, placed, before.cell_w, before.palette, col);
    let leading = choose|leading: Option<GpuCell>|
        plain[col] == #[trigger] instances::instance_of(
            shown[col],
            placed[col],
            leading,
            before.cell_w,
            before.palette,
        );
    lemma_instance(cell, placed[col], leading, before.cell_w, before.palette);
    let chosen = painter::with_selection(plain, dress.selection, before.palette);
    let out = after.grid[row][col];
    if cursor_at(mirror, request, row, col) {
        let flags = chosen[col].flags;
        lemma_marks(flags);
    }
    if !cell.spacer && !cell.hidden && cell.ch != ' ' {
        assert(instances::wants_glyph(shown[col]));
        assert(asked[col].answers(cell, placed[col], asked[col + 1]));
    }
}

/// A composition of narrow characters that fits shows at the cursor: its characters follow one another
/// from the cursor's column on, underlined and with the glyphs the source answered for them; a bar
/// stands at its caret, or behind it where the caret lies beyond its end; and the rest of the row shows
/// its line.
pub proof fn law_composition_shows_at_the_cursor<M: TerminalStateMirror + ?Sized, G: GlyphSource>(
    mirror: &M,
    request: Request,
    before: PainterView,
    after: PainterView,
    sources: Seq<G>,
    row: int,
    col: int,
)
    requires
        painter::refreshed(mirror, request, before, after, sources),
        0 <= row < before.rows,
        0 <= col < before.cols,
        before.keys[row] != after.keys[row],
        composing(mirror, request, row),
        mirror.screen().cursor.1 + (request.preedit->0).0.len() < before.cols,
        forall|i: int|
            0 <= i < (request.preedit->0).0.len() ==> #[trigger] (request.preedit->0).0[i]
                < '\u{1100}',
    ensures
        ({
            let line = (mirror.screen().lines)(row);
            let (chars, caret) = request.preedit->0;
            let start = mirror.screen().cursor.1 as int;
            let bar = start + if caret < chars.len() {
                caret as int
            } else {
                chars.len() as int
            };
            let out = after.grid[row][col];
            let inside = start <= col < start + chars.len();
            &&& col == bar ==> out.flags & instances::FLAG_CURSOR_BAR != 0 && out.reserved
                == before.palette.cursor
            &&& inside && col != bar ==> flagged(out, instances::FLAG_UNDERLINE)
            &&& inside && chars[col - start] == ' ' ==> out.glyph_w == 0
            &&& inside && chars[col - start] != ' ' ==> exists|
                source: G,
                cell: CellView,
                placed: Option<GlyphPlacement>,
                next: G,
            | #[trigger]
                source.answers(cell, placed, next) && cell.ch == chars[col - start] && match placed {
                    Some(placed) => (out.glyph_x, out.glyph_y, out.glyph_w, out.glyph_h) == (
                        placed.x,
                        placed.y,
                        placed.w,
                        placed.h,
                    ) && (out.ink_left, out.ink_top) == (placed.left, placed.top),
                    None => out.glyph_w == 0,
                }
            &&& !inside && col != bar && !selected_at(mirror, request, row, col) ==> (
                out.fg,
                out.bg,
            ) == inks(before.palette, cell_at(line, col))
        }),
{
    assert(painter::row_refreshed(
        mirror,
        request,
        before,
        after,
        row,
        sources[row],
        sources[row + 1],
    ));
    let line = painter::viewport_row(mirror, request, row);
    let dress = painter::dress_of(mirror, request, row);
    let (chars, caret) = request.preedit->0;
    let start = mirror.screen().cursor.1;
    let overlay = Overlay { chars, caret, start };
    assert(dress.overlay == Some(overlay));
    let cols = before.cols as nat;
    let shown = painter::shown_row(line, cols, Some(overlay));
    let fitted = painter::fitted(line, cols);
    conduct::lemma_laid(fitted, chars, 0, start as int, caret as int);
    conduct::lemma_caret_stands(fitted, chars, 0, start as int, caret as int, None);
    let placed = choose|placed: Seq<Option<GlyphPlacement>>|
        instances::asked(sources[row], shown, placed, sources[row + 1]) && after.grid[row]
            == #[trigger] painter::painted_row(
            line,
            cols,
            dress,
            placed,
            before.cell_w,
            before.palette,
        );
    let asked = choose|asked: Seq<G>| #[trigger]
        instances::answered(shown, placed, asked) && asked[0] == sources[row] && asked.last()
            == sources[row + 1];
    let cell = shown[col];
    let plain = instances::row_of(shown, placed, before.cell_w, before.palette);
    lemma_row_at(shown, placed, before.cell_w, before.palette, col);
    let leading = choose|leading: Option<GpuCell>|
        plain[col] == #[trigger] instances::instance_of(
            shown[col],
            placed[col],
            leading,
            before.cell_w,
            before.palette,
        );
    lemma_instance(cell, placed[col], leading, before.cell_w, before.palette);
    let chosen = painter::with_selection(plain, dress.selection, before.palette);
    lemma_marks(chosen[col].flags);
    let inside = start <= col < start + chars.len();
    if inside && chars[col - start] != ' ' {
        assert(instances::wants_glyph(shown[col]));
        assert(asked[col].answers(cell, placed[col], asked[col + 1]));
    }
    if !inside {
        assert(shown[col] == fitted[col]);
        assert(fitted[col] == cell_at(line, col));
    }
}

proof fn lemma_marks(flags: u32)
    ensures
        (instances::without_shape(flags) | instances::FLAG_CURSOR_UNDERLINE)
            & instances::FLAG_CURSOR_UNDERLINE != 0,
        (instances::without_shape(flags) | instances::FLAG_CURSOR_BAR) & instances::FLAG_CURSOR_BAR
            != 0,
        (instances::without_shape(flags) | instances::FLAG_CURSOR_HOLLOW)
            & instances::FLAG_CURSOR_HOLLOW != 0,
{
    let kept = instances::without_shape(flags);
    assert((kept | instances::FLAG_CURSOR_UNDERLINE) & instances::FLAG_CURSOR_UNDERLINE != 0)
        by (bit_vector);
    assert((kept | instances::FLAG_CURSOR_BAR) & instances::FLAG_CURSOR_BAR != 0) by (bit_vector);
    assert((kept | instances::FLAG_CURSOR_HOLLOW) & instances::FLAG_CURSOR_HOLLOW != 0)
        by (bit_vector);
}

} // verus!
