//! The painter's grid: one mirror's viewport becomes instances, row by row.
//!
//! It hashes rows, keeps the instance grid and decides damage; the canvas paints exactly the dirty
//! band. Rows that did not change are never touched.

use vstd::prelude::*;

use crate::cells::{
    self, CellView, TerminalCell, TerminalColor, TerminalCursorShape, TerminalCursorStyle,
    TerminalThemeOverrides,
};
use crate::fnv::{self, Fnv};
use crate::render::instances::{
    self, GlyphPlacement, GlyphSource, GpuCell, Palette, PaletteView,
};
use crate::state::TerminalStateMirror;
use crate::text;

verus! {

/// What one target surface currently shows, row by row. Three ring surfaces carry three of these;
/// each catches up on its own damage.
pub struct TargetState {
    painted: Vec<Option<u64>>,
}

impl View for TargetState {
    type V = Seq<Option<u64>>;

    closed spec fn view(&self) -> Seq<Option<u64>> {
        self.painted@
    }
}

impl TargetState {
    /// A target of `rows` rows that shows nothing yet.
    pub fn new(rows: u16) -> (state: Self)
        ensures
            state@ == Seq::new(rows as nat, |i: int| None::<u64>),
    {
        let mut painted: Vec<Option<u64>> = Vec::new();
        while painted.len() < rows as usize
            invariant
                painted@.len() <= rows,
                forall|i: int| 0 <= i < painted@.len() ==> #[trigger] painted@[i] is None,
            decreases rows - painted@.len(),
        {
            painted.push(None);
        }
        let state = TargetState { painted };
        assert(state@ =~= Seq::new(rows as nat, |i: int| None::<u64>));
        state
    }
}

/// An IME composition shown at the cursor. It paints as an overlay and its bytes never reach the
/// pty; only confirmed text is ever written.
pub struct Preedit {
    pub text: String,
    /// Caret position in characters within the composition.
    pub cursor: usize,
}

/// Whether a character of a composition is wide: CJK and Hangul are.
pub open spec fn is_wide(ch: char) -> bool {
    ch as u32 >= 0x1100
}

/// A cell of a composition: underlined, in the default colors.
pub open spec fn preedit_view(ch: char, wide: bool) -> CellView {
    CellView {
        ch,
        fg: TerminalColor::Default,
        bg: TerminalColor::Default,
        bold: false,
        dim: false,
        italic: false,
        underline: true,
        inverse: false,
        strikeout: false,
        hidden: false,
        wide,
        spacer: false,
        wrapline: false,
        zerowidth: Seq::empty(),
        link: None,
    }
}

/// The second cell of a wide character of a composition.
pub open spec fn spacer_view() -> CellView {
    CellView { spacer: true, ..preedit_view(' ', false) }
}

/// A cell that shows nothing.
pub open spec fn blank_view() -> CellView {
    CellView { underline: false, ..preedit_view(' ', false) }
}

fn preedit_cell(ch: char, wide: bool) -> (cell: TerminalCell)
    ensures
        cell@ == preedit_view(ch, wide),
{
    let cell = TerminalCell {
        ch,
        fg: TerminalColor::Default,
        bg: TerminalColor::Default,
        bold: false,
        dim: false,
        italic: false,
        underline: true,
        inverse: false,
        strikeout: false,
        hidden: false,
        wide,
        spacer: false,
        wrapline: false,
        zerowidth: Vec::new(),
        link: None,
    };
    assert(cell@.zerowidth =~= Seq::<char>::empty());
    cell
}

fn spacer_cell() -> (cell: TerminalCell)
    ensures
        cell@ == spacer_view(),
{
    let mut cell = preedit_cell(' ', false);
    cell.spacer = true;
    cell
}

fn blank_cell() -> (cell: TerminalCell)
    ensures
        cell@ == blank_view(),
{
    let mut cell = preedit_cell(' ', false);
    cell.underline = false;
    cell
}

/// The cursor a row paints.
#[derive(Debug, Clone, Copy, PartialEq, Eq, Structural)]
pub enum CursorPaint {
    /// The engine's cursor.
    Engine(TerminalCursorStyle),
    /// The hollow block of a surface without focus.
    Hollow,
}

/// The row as wide as the grid: cut off, or filled up with blanks.
pub open spec fn fitted(row: Seq<CellView>, cols: nat) -> Seq<CellView> {
    Seq::new(
        cols,
        |i: int|
            if i < row.len() {
                row[i]
            } else {
                blank_view()
            },
    )
}

/// A row with a composition laid over it, the column behind it, and the column of its caret.
pub struct Composed {
    pub row: Seq<CellView>,
    pub end: int,
    pub caret: Option<int>,
}

/// The row after the characters from `index` on are laid over it from column `col` on, as far as
/// there is room. A wide character takes the next column too, if there is one.
pub open spec fn composed(
    row: Seq<CellView>,
    chars: Seq<char>,
    index: int,
    col: int,
    caret_at: int,
    caret: Option<int>,
) -> Composed
    decreases chars.len() - index,
{
    if index >= chars.len() || col >= row.len() {
        Composed { row, end: col, caret }
    } else {
        let ch = chars[index];
        let caret = if index == caret_at {
            Some(col)
        } else {
            caret
        };
        let laid = row.update(col, preedit_view(ch, is_wide(ch)));
        if is_wide(ch) && col + 1 < row.len() {
            composed(laid.update(col + 1, spacer_view()), chars, index + 1, col + 2, caret_at, caret)
        } else {
            composed(laid, chars, index + 1, col + 1, caret_at, caret)
        }
    }
}

/// A composition and the column it starts in.
pub struct Overlay {
    pub chars: Seq<char>,
    pub caret: usize,
    pub start: usize,
}

/// The cells a row shows.
pub open spec fn shown_row(row: Seq<CellView>, cols: nat, overlay: Option<Overlay>) -> Seq<
    CellView,
> {
    match overlay {
        Some(overlay) => composed(
            fitted(row, cols),
            overlay.chars,
            0,
            overlay.start as int,
            overlay.caret as int,
            None,
        ).row,
        None => fitted(row, cols),
    }
}

/// The bar that marks the caret of a composition: where the caret is, or behind the composition,
/// within the row.
pub open spec fn caret_column(row: Seq<CellView>, cols: nat, overlay: Overlay) -> int {
    let laid = composed(
        fitted(row, cols),
        overlay.chars,
        0,
        overlay.start as int,
        overlay.caret as int,
        None,
    );
    match laid.caret {
        Some(col) => col,
        None => if laid.end < cols {
            laid.end
        } else {
            cols - 1
        },
    }
}

/// The style of the caret of a composition.
pub open spec fn caret_style() -> TerminalCursorStyle {
    TerminalCursorStyle { shape: TerminalCursorShape::Bar, blinking: false }
}

/// The cursor of a row: its own, else the caret of its composition.
pub open spec fn row_cursor(
    row: Seq<CellView>,
    cols: nat,
    cursor: Option<(usize, CursorPaint)>,
    overlay: Option<Overlay>,
) -> Option<(int, CursorPaint)> {
    match (cursor, overlay) {
        (Some((col, paint)), _) => Some((col as int, paint)),
        (None, Some(overlay)) => Some(
            (caret_column(row, cols, overlay), CursorPaint::Engine(caret_style())),
        ),
        (None, None) => None,
    }
}

/// The instances with the selected columns in the selection's colors.
pub open spec fn with_selection(
    row: Seq<GpuCell>,
    selection: Option<(u16, u16)>,
    palette: PaletteView,
) -> Seq<GpuCell> {
    Seq::new(
        row.len(),
        |i: int|
            match selection {
                Some((first, last)) if first <= i <= last => instances::under_selection(
                    row[i],
                    palette,
                ),
                _ => row[i],
            },
    )
}

/// The instances with the cursor drawn on its column.
pub open spec fn with_cursor(
    row: Seq<GpuCell>,
    cursor: Option<(int, CursorPaint)>,
    palette: PaletteView,
) -> Seq<GpuCell> {
    match cursor {
        Some((col, paint)) if 0 <= col < row.len() => row.update(
            col,
            match paint {
                CursorPaint::Engine(style) => instances::under_cursor(
                    row[col],
                    style.shape,
                    palette,
                ),
                CursorPaint::Hollow => instances::under_hollow_cursor(row[col], palette),
            },
        ),
        _ => row,
    }
}

/// What is to be painted in one row besides its cells.
pub struct RowDress {
    pub cursor: Option<(usize, CursorPaint)>,
    pub overlay: Option<Overlay>,
    pub selection: Option<(u16, u16)>,
}

/// The instances of one row of the grid.
pub open spec fn painted_row(
    row: Seq<CellView>,
    cols: nat,
    dress: RowDress,
    placed: Seq<Option<GlyphPlacement>>,
    cell_w: u16,
    palette: PaletteView,
) -> Seq<GpuCell> {
    let shown = shown_row(row, cols, dress.overlay);
    let plain = instances::row_of(shown, placed, cell_w, palette);
    with_cursor(
        with_selection(plain, dress.selection, palette),
        row_cursor(row, cols, dress.cursor, dress.overlay),
        palette,
    )
}

/// The bytes of a color that are hashed.
pub open spec fn color_bytes(color: TerminalColor) -> Seq<u8> {
    match color {
        TerminalColor::Default => seq![0u8],
        TerminalColor::Named(index) => seq![1u8, index],
        TerminalColor::Indexed(index) => seq![2u8, index],
        TerminalColor::Rgb(r, g, b) => seq![3u8, r, g, b],
    }
}

/// Four flags as a number, the first the lowest bit.
pub open spec fn nibble(a: bool, b: bool, c: bool, d: bool) -> u8 {
    ((if a {
        1int
    } else {
        0
    }) + (if b {
        2int
    } else {
        0
    }) + (if c {
        4int
    } else {
        0
    }) + (if d {
        8int
    } else {
        0
    })) as u8
}

/// The attributes of a cell in one byte, the spacer in a second one.
pub open spec fn attribute_bytes(cell: CellView) -> Seq<u8> {
    seq![
        (nibble(cell.bold, cell.dim, cell.italic, cell.underline) + 16 * nibble(
            cell.inverse,
            cell.strikeout,
            cell.hidden,
            cell.wide,
        )) as u8,
        if cell.spacer {
            1
        } else {
            0
        },
    ]
}

/// The bytes of zero-width characters that are hashed.
pub open spec fn zero_width_bytes(chars: Seq<char>) -> Seq<u8>
    decreases chars.len(),
{
    if chars.len() == 0 {
        Seq::empty()
    } else {
        zero_width_bytes(chars.drop_last()) + fnv::le32(chars.last() as u32)
    }
}

/// The bytes of a hyperlink that are hashed.
pub open spec fn link_bytes(link: Option<Seq<char>>) -> Seq<u8> {
    match link {
        Some(link) => seq![1u8] + text::utf8(link),
        None => seq![0u8],
    }
}

/// The bytes of a cell that are hashed: everything that decides what it paints as.
pub open spec fn cell_bytes(cell: CellView) -> Seq<u8> {
    fnv::le32(cell.ch as u32) + color_bytes(cell.fg) + color_bytes(cell.bg) + attribute_bytes(cell)
        + zero_width_bytes(cell.zerowidth) + link_bytes(cell.link)
}

/// The bytes of a row that are hashed.
pub open spec fn row_bytes(row: Seq<CellView>) -> Seq<u8>
    decreases row.len(),
{
    if row.len() == 0 {
        Seq::empty()
    } else {
        row_bytes(row.drop_last()) + cell_bytes(row.last())
    }
}

fn hash_color(hash: &mut Fnv, color: TerminalColor)
    requires
        old(hash).wf(),
    ensures
        final(hash).wf(),
        final(hash).fed() == old(hash).fed() + color_bytes(color),
{
    match color {
        TerminalColor::Default => hash.byte(0),
        TerminalColor::Named(index) => {
            hash.byte(1);
            hash.byte(index);
        },
        TerminalColor::Indexed(index) => {
            hash.byte(2);
            hash.byte(index);
        },
        TerminalColor::Rgb(r, g, b) => {
            hash.byte(3);
            hash.byte(r);
            hash.byte(g);
            hash.byte(b);
        },
    }
    assert(hash.fed() =~= old(hash).fed() + color_bytes(color));
}

fn four(a: bool, b: bool, c: bool, d: bool) -> (flags: u8)
    ensures
        flags == nibble(a, b, c, d),
        flags < 16,
{
    let mut flags: u8 = 0;
    if a {
        flags = flags + 1;
    }
    if b {
        flags = flags + 2;
    }
    if c {
        flags = flags + 4;
    }
    if d {
        flags = flags + 8;
    }
    flags
}

fn hash_attributes(hash: &mut Fnv, cell: &TerminalCell)
    requires
        old(hash).wf(),
    ensures
        final(hash).wf(),
        final(hash).fed() == old(hash).fed() + attribute_bytes(cell@),
{
    let low: u8 = four(cell.bold, cell.dim, cell.italic, cell.underline);
    let high: u8 = four(cell.inverse, cell.strikeout, cell.hidden, cell.wide);
    hash.byte(low + 16 * high);
    hash.byte(if cell.spacer { 1 } else { 0 });
    assert(hash.fed() =~= old(hash).fed() + attribute_bytes(cell@));
}

fn hash_zero_width(hash: &mut Fnv, chars: &Vec<char>)
    requires
        old(hash).wf(),
    ensures
        final(hash).wf(),
        final(hash).fed() == old(hash).fed() + zero_width_bytes(chars@),
{
    let mut i: usize = 0;
    assert(chars@.take(0) =~= Seq::<char>::empty());
    assert(hash.fed() =~= old(hash).fed() + zero_width_bytes(chars@.take(0)));
    while i < chars.len()
        invariant
            hash.wf(),
            i <= chars@.len(),
            hash.fed() == old(hash).fed() + zero_width_bytes(chars@.take(i as int)),
        decreases chars@.len() - i,
    {
        hash.u32_le(chars[i] as u32);
        assert(chars@.take(i + 1).drop_last() =~= chars@.take(i as int));
        assert(hash.fed() =~= old(hash).fed() + zero_width_bytes(chars@.take(i + 1)));
        i = i + 1;
    }
    assert(chars@.take(i as int) =~= chars@);
}

fn hash_link(hash: &mut Fnv, link: &Option<String>)
    requires
        old(hash).wf(),
    ensures
        final(hash).wf(),
        final(hash).fed() == old(hash).fed() + link_bytes(text::text_of(*link)),
{
    match link {
        Some(link) => {
            hash.byte(1);
            hash.bytes(link.as_str().as_bytes());
        },
        None => hash.byte(0),
    }
    assert(hash.fed() =~= old(hash).fed() + link_bytes(text::text_of(*link)));
}

fn hash_cell(hash: &mut Fnv, cell: &TerminalCell)
    requires
        old(hash).wf(),
    ensures
        final(hash).wf(),
        final(hash).fed() == old(hash).fed() + cell_bytes(cell@),
{
    hash.u32_le(cell.ch as u32);
    hash_color(hash, cell.fg);
    hash_color(hash, cell.bg);
    hash_attributes(hash, cell);
    hash_zero_width(hash, &cell.zerowidth);
    hash_link(hash, &cell.link);
    assert(hash.fed() =~= old(hash).fed() + cell_bytes(cell@));
}

/// What the row paints as, folded to one number: an equal hash skips the row.
pub fn row_hash(cells: &[TerminalCell]) -> (hash: u64)
    ensures
        hash == fnv::fold(fnv::OFFSET, row_bytes(cells::row_view(cells@))),
{
    let ghost row = cells::row_view(cells@);
    let mut hash = Fnv::new();
    let mut i: usize = 0;
    assert(row.take(0) =~= Seq::<CellView>::empty());
    while i < cells.len()
        invariant
            hash.wf(),
            row == cells::row_view(cells@),
            i <= cells@.len(),
            hash.fed() == row_bytes(row.take(i as int)),
        decreases cells@.len() - i,
    {
        hash_cell(&mut hash, &cells[i]);
        assert(row.take(i + 1).drop_last() =~= row.take(i as int));
        i = i + 1;
    }
    assert(row.take(i as int) =~= row);
    hash.value()
}

/// The number that spreads small differences over a hash.
pub const SPREAD: u64 = 0x9e37_79b9_7f4a_7c15;

/// The code of a cursor in a row's key.
pub open spec fn cursor_code(paint: CursorPaint) -> u64 {
    match paint {
        CursorPaint::Hollow => 0x40,
        CursorPaint::Engine(style) => match style.shape {
            TerminalCursorShape::Block => if style.blinking { 0x11 } else { 0x10 },
            TerminalCursorShape::Underline => if style.blinking { 0x21 } else { 0x20 },
            TerminalCursorShape::Bar => if style.blinking { 0x31 } else { 0x30 },
        },
    }
}

/// A key continued by one number.
pub open spec fn mixed(key: u64, value: u64) -> u64 {
    key.wrapping_mul(31).wrapping_add(value)
}

/// A key continued by the bytes of a composition.
pub open spec fn mixed_bytes(key: u64, bytes: Seq<u8>) -> u64
    decreases bytes.len(),
{
    if bytes.len() == 0 {
        key
    } else {
        mixed(mixed_bytes(key, bytes.drop_last()), (bytes.last() + 1) as u64)
    }
}

/// The key of a row: a number made of everything that decides what it paints as.
pub open spec fn row_key(row: Seq<CellView>, revision: u64, dress: RowDress) -> u64 {
    let content = fnv::fold(fnv::OFFSET, row_bytes(row)) ^ revision.wrapping_mul(SPREAD);
    let pointed = match dress.cursor {
        Some((col, paint)) => (content ^ SPREAD.wrapping_add(col as u64)) ^ cursor_code(paint),
        None => content,
    };
    let overlaid = match dress.overlay {
        Some(overlay) => mixed(
            mixed_bytes(mixed(pointed, overlay.caret as u64), text::utf8(overlay.chars)),
            (overlay.start + 1) as u64,
        ),
        None => pointed,
    };
    match dress.selection {
        Some((first, last)) => mixed(mixed(overlaid, (first + 1) as u64), (last + 1) as u64),
        None => overlaid,
    }
}

/// The composition that is laid over a row starting at `start`.
pub open spec fn overlay_of(preedit: Option<&Preedit>, start: usize) -> Option<Overlay> {
    match preedit {
        Some(preedit) => Some(
            Overlay { chars: preedit.text@, caret: preedit.cursor, start },
        ),
        None => None,
    }
}

fn code_of(paint: CursorPaint) -> (code: u64)
    ensures
        code == cursor_code(paint),
{
    match paint {
        CursorPaint::Hollow => 0x40,
        CursorPaint::Engine(style) => match style.shape {
            TerminalCursorShape::Block => if style.blinking { 0x11 } else { 0x10 },
            TerminalCursorShape::Underline => if style.blinking { 0x21 } else { 0x20 },
            TerminalCursorShape::Bar => if style.blinking { 0x31 } else { 0x30 },
        },
    }
}

fn key_of(
    cells: &[TerminalCell],
    revision: u64,
    cursor: Option<(usize, CursorPaint)>,
    preedit: Option<&Preedit>,
    start: usize,
    selection: Option<(u16, u16)>,
) -> (key: u64)
    requires
        start < usize::MAX,
    ensures
        key == row_key(
            cells::row_view(cells@),
            revision,
            RowDress { cursor, overlay: overlay_of(preedit, start), selection },
        ),
{
    let mut key: u64 = row_hash(cells) ^ revision.wrapping_mul(SPREAD);
    if let Some((col, paint)) = cursor {
        key = key ^ SPREAD.wrapping_add(col as u64);
        key = key ^ code_of(paint);
    }
    if let Some(composition) = preedit {
        key = key.wrapping_mul(31).wrapping_add(composition.cursor as u64);
        let bytes = composition.text.as_str().as_bytes();
        let ghost begin = key;
        let ghost all = bytes@;
        let mut i: usize = 0;
        assert(all.take(0) =~= Seq::<u8>::empty());
        while i < bytes.len()
            invariant
                all == bytes@,
                i <= all.len(),
                key == mixed_bytes(begin, all.take(i as int)),
            decreases all.len() - i,
        {
            assert(all.take(i + 1).drop_last() =~= all.take(i as int));
            key = key.wrapping_mul(31).wrapping_add(bytes[i] as u64 + 1);
            i = i + 1;
        }
        assert(all.take(i as int) =~= all);
        key = key.wrapping_mul(31).wrapping_add(start as u64 + 1);
    }
    if let Some((first, last)) = selection {
        key = key.wrapping_mul(31).wrapping_add(first as u64 + 1);
        key = key.wrapping_mul(31).wrapping_add(last as u64 + 1);
    }
    key
}

/// The painter's grid of one surface.
pub struct Painter {
    base_palette: Palette,
    palette: Palette,
    palette_revision: u64,
    dim: u64,
    cell_w: u16,
    cell_h: u16,
    cols: u16,
    rows: u16,
    grid: Vec<Vec<GpuCell>>,
    hashes: Vec<Option<u64>>,
}

/// The state of a painter.
#[verifier::ext_equal]
pub struct PainterView {
    /// The theme the host declared.
    pub base: PaletteView,
    /// The theme that is painted with.
    pub palette: PaletteView,
    /// Counts the changes that make every row paint differently.
    pub revision: u64,
    pub dim: u64,
    pub cell_w: u16,
    pub cell_h: u16,
    pub cols: u16,
    pub rows: u16,
    /// The instances of every row.
    pub grid: Seq<Seq<GpuCell>>,
    /// The key every row was built for.
    pub keys: Seq<Option<u64>>,
}

/// A grid of at least one cell, as large as it says.
pub open spec fn painter_wf(painter: PainterView) -> bool {
    &&& painter.cols > 0
    &&& painter.rows > 0
    &&& painter.grid.len() == painter.rows
    &&& painter.keys.len() == painter.rows
    &&& forall|i: int|
        0 <= i < painter.grid.len() ==> (#[trigger] painter.grid[i]).len() == painter.cols
}

spec fn grid_view(grid: Seq<Vec<GpuCell>>) -> Seq<Seq<GpuCell>> {
    Seq::new(grid.len(), |i: int| grid[i]@)
}

impl View for Painter {
    type V = PainterView;

    closed spec fn view(&self) -> PainterView {
        PainterView {
            base: self.base_palette@,
            palette: self.palette@,
            revision: self.palette_revision,
            dim: self.dim,
            cell_w: self.cell_w,
            cell_h: self.cell_h,
            cols: self.cols,
            rows: self.rows,
            grid: grid_view(self.grid@),
            keys: self.hashes@,
        }
    }
}

/// A painter that has to build every row again.
pub open spec fn invalidated(painter: PainterView) -> PainterView {
    PainterView { keys: Seq::new(painter.keys.len(), |i: int| None::<u64>), ..painter }
}

/// A painter for which every row paints differently from now on.
pub open spec fn revised(painter: PainterView) -> PainterView {
    invalidated(PainterView { revision: painter.revision.wrapping_add(1), ..painter })
}

/// A painter that takes `dim` off what it paints. A change makes every row paint differently.
pub open spec fn dimmed(painter: PainterView, dim: u64) -> PainterView {
    if painter.dim == dim {
        painter
    } else {
        revised(PainterView { dim, ..painter })
    }
}

/// A painter in the theme that `overrides` make of its base. A change makes every row paint
/// differently.
pub open spec fn themed(painter: PainterView, overrides: TerminalThemeOverrides) -> PainterView {
    let effective = instances::resolved(painter.base, overrides);
    if painter.palette == effective {
        painter
    } else {
        revised(PainterView { palette: effective, ..painter })
    }
}

/// What a refresh is asked to paint.
pub struct Request {
    pub offset: usize,
    pub preedit: Option<(Seq<char>, usize)>,
    pub cursor_on: bool,
    pub focused: bool,
}

/// What one row of the viewport shows besides its cells.
///
/// The cursor shows only at the bottom of the view and only while the mirror shows it; without
/// focus it is a steady hollow block. A composition takes its place.
pub open spec fn dress_of<M: TerminalStateMirror + ?Sized>(
    mirror: &M,
    request: Request,
    row: int,
) -> RowDress {
    let screen = mirror.screen();
    let at_bottom = request.offset == 0 && screen.cursor.0 == row;
    let overlay = match request.preedit {
        Some((chars, caret)) if at_bottom => Some(
            Overlay { chars, caret, start: screen.cursor.1 },
        ),
        _ => None,
    };
    RowDress {
        cursor: if screen.modes.show_cursor && at_bottom && overlay is None && (request.cursor_on
            || !request.focused) {
            Some(
                (
                    screen.cursor.1,
                    if request.focused {
                        CursorPaint::Engine(screen.cursor_style)
                    } else {
                        CursorPaint::Hollow
                    },
                ),
            )
        } else {
            None
        },
        overlay,
        selection: mirror.selected(row - request.offset),
    }
}

/// The cells of a row of the viewport.
pub open spec fn viewport_row<M: TerminalStateMirror + ?Sized>(
    mirror: &M,
    request: Request,
    row: int,
) -> Seq<CellView> {
    (mirror.screen().lines)(row - request.offset)
}

/// Whether a row is as a refresh leaves it: built for its key. A row that was already built for
/// that key is not touched and asks the glyph source for nothing; any other row is painted anew, and
/// the source is `next` from then on.
pub open spec fn row_refreshed<M: TerminalStateMirror + ?Sized, G: GlyphSource>(
    mirror: &M,
    request: Request,
    before: PainterView,
    after: PainterView,
    row: int,
    source: G,
    next: G,
) -> bool {
    let cells = viewport_row(mirror, request, row);
    let dress = dress_of(mirror, request, row);
    let key = row_key(cells, before.revision, dress);
    &&& after.keys[row] == Some(key)
    &&& if before.keys[row] == Some(key) {
        after.grid[row] == before.grid[row] && next == source
    } else {
        repainted(cells, dress, before, after.grid[row], source, next)
    }
}

/// Whether every row of a grid is as a refresh leaves it, where the glyph source was `sources[row]`
/// before each row and the last of them at the end.
pub open spec fn refreshed<M: TerminalStateMirror + ?Sized, G: GlyphSource>(
    mirror: &M,
    request: Request,
    before: PainterView,
    after: PainterView,
    sources: Seq<G>,
) -> bool {
    &&& sources.len() == before.rows + 1
    &&& forall|row: int|
        #![trigger after.keys[row]]
        0 <= row < before.rows ==> row_refreshed(
            mirror,
            request,
            before,
            after,
            row,
            sources[row],
            sources[row + 1],
        )
}

/// Whether a row shows its cells, with glyphs placed where the source said.
pub open spec fn repainted<G: GlyphSource>(
    cells: Seq<CellView>,
    dress: RowDress,
    painter: PainterView,
    row: Seq<GpuCell>,
    source: G,
    next: G,
) -> bool {
    exists|placed: Seq<Option<GlyphPlacement>>|
        instances::asked(
            source,
            shown_row(cells, painter.cols as nat, dress.overlay),
            placed,
            next,
        ) && row == #[trigger] painted_row(
            cells,
            painter.cols as nat,
            dress,
            placed,
            painter.cell_w,
            painter.palette,
        )
}

fn copy_row(cells: &[TerminalCell], cols: usize) -> (row: Vec<TerminalCell>)
    ensures
        cells::row_view(row@) == fitted(cells::row_view(cells@), cols as nat),
        row@.len() == cols,
{
    let mut row: Vec<TerminalCell> = Vec::new();
    let mut i: usize = 0;
    while i < cols
        invariant
            i <= cols,
            row@.len() == i,
            forall|j: int|
                0 <= j < i ==> (#[trigger] row@[j])@ == if j < cells@.len() {
                    cells@[j]@
                } else {
                    blank_view()
                },
        decreases cols - i,
    {
        if i < cells.len() {
            row.push(cells[i].clone());
        } else {
            row.push(blank_cell());
        }
        i = i + 1;
    }
    assert(cells::row_view(row@) =~= fitted(cells::row_view(cells@), cols as nat));
    row
}

fn lay_over(row: &mut Vec<TerminalCell>, preedit: &Preedit, start: usize) -> (caret: usize)
    requires
        old(row)@.len() > 0,
        start < usize::MAX,
    ensures
        ({
            let laid = composed(
                cells::row_view(old(row)@),
                preedit.text@,
                0,
                start as int,
                preedit.cursor as int,
                None,
            );
            &&& cells::row_view(final(row)@) == laid.row
            &&& caret == match laid.caret {
                Some(col) => col,
                None => if laid.end < old(row)@.len() {
                    laid.end
                } else {
                    old(row)@.len() - 1
                },
            }
        }),
        final(row)@.len() == old(row)@.len(),
{
    let cols: usize = row.len();
    let length: usize = preedit.text.as_str().unicode_len();
    let ghost goal = composed(
        cells::row_view(row@),
        preedit.text@,
        0,
        start as int,
        preedit.cursor as int,
        None,
    );
    let mut col: usize = start;
    let mut index: usize = 0;
    let mut caret: Option<usize> = None;
    while index < length && col < cols
        invariant
            cols == row@.len() == old(row)@.len(),
            cols > 0,
            length == preedit.text@.len(),
            index <= length,
            goal == composed(
                cells::row_view(row@),
                preedit.text@,
                index as int,
                col as int,
                preedit.cursor as int,
                match caret {
                    Some(col) => Some(col as int),
                    None => None,
                },
            ),
        decreases length - index,
    {
        let ghost before = cells::row_view(row@);
        let ch = preedit.text.as_str().get_char(index);
        if index == preedit.cursor {
            caret = Some(col);
        }
        let wide = ch as u32 >= 0x1100;
        let cell = preedit_cell(ch, wide);
        row.set(col, cell);
        let ghost laid = before.update(col as int, preedit_view(ch, wide));
        assert(cells::row_view(row@) =~= laid);
        col = col + 1;
        if wide && col < cols {
            let spacer = spacer_cell();
            row.set(col, spacer);
            assert(cells::row_view(row@) =~= laid.update(col as int, spacer_view()));
            col = col + 1;
        }
        index = index + 1;
    }
    match caret {
        Some(col) => col,
        None => if col < cols {
            col
        } else {
            cols - 1
        },
    }
}

fn select(row: &mut Vec<GpuCell>, selection: Option<(u16, u16)>, palette: &Palette)
    ensures
        final(row)@ == with_selection(old(row)@, selection, palette@),
{
    if let Some((first, last)) = selection {
        let mut i: usize = 0;
        while i < row.len()
            invariant
                i <= row@.len() == old(row)@.len(),
                selection == Some((first, last)),
                forall|j: int|
                    0 <= j < i ==> #[trigger] row@[j] == with_selection(
                        old(row)@,
                        selection,
                        palette@,
                    )[j],
                forall|j: int| i <= j < row@.len() ==> #[trigger] row@[j] == old(row)@[j],
            decreases row@.len() - i,
        {
            if first as usize <= i && i <= last as usize {
                let mut cell = row[i];
                cell.fg = palette.selection_fg;
                cell.bg = palette.selection_bg;
                row.set(i, cell);
            }
            i = i + 1;
        }
    }
    assert(row@ =~= with_selection(old(row)@, selection, palette@));
}

fn point(row: &mut Vec<GpuCell>, cursor: Option<(usize, CursorPaint)>, palette: &Palette)
    ensures
        final(row)@ == with_cursor(
            old(row)@,
            match cursor {
                Some((col, paint)) => Some((col as int, paint)),
                None => None,
            },
            palette@,
        ),
{
    if let Some((col, paint)) = cursor {
        if col < row.len() {
            let mut cell = row[col];
            match paint {
                CursorPaint::Engine(style) => instances::apply_cursor(&mut cell, style, palette),
                CursorPaint::Hollow => instances::apply_hollow_cursor(&mut cell, palette),
            }
            row.set(col, cell);
        }
    }
}

impl Painter {
    /// A painter of a `cols` by `rows` grid that has built nothing yet. A grid without a cell is
    /// refused.
    pub fn new(cell_w: u16, cell_h: u16, cols: u16, rows: u16, palette: Palette) -> (painter: Result<
        Self,
        String,
    >)
        ensures
            match painter {
                Ok(painter) => {
                    &&& cols > 0 && rows > 0
                    &&& painter_wf(painter@)
                    &&& painter@ == (PainterView {
                        base: palette@,
                        palette: palette@,
                        revision: 0,
                        dim: 0,
                        cell_w,
                        cell_h,
                        cols,
                        rows,
                        grid: Seq::new(
                            rows as nat,
                            |i: int| Seq::new(cols as nat, |j: int| instances::bare(0, 0)),
                        ),
                        keys: Seq::new(rows as nat, |i: int| None::<u64>),
                    })
                },
                Err(message) => (cols == 0 || rows == 0) && message@
                    == "PAINTER_EMPTY: a zero-cell grid paints nothing"@,
            },
    {
        if cols == 0 || rows == 0 {
            return Err(String::from_str("PAINTER_EMPTY: a zero-cell grid paints nothing"));
        }
        let ghost empty = Seq::new(cols as nat, |j: int| instances::bare(0, 0));
        let mut grid: Vec<Vec<GpuCell>> = Vec::new();
        let mut hashes: Vec<Option<u64>> = Vec::new();
        while hashes.len() < rows as usize
            invariant
                grid@.len() == hashes@.len() <= rows,
                empty == Seq::new(cols as nat, |j: int| instances::bare(0, 0)),
                forall|i: int| 0 <= i < hashes@.len() ==> #[trigger] hashes@[i] is None,
                forall|i: int| 0 <= i < grid@.len() ==> (#[trigger] grid@[i])@ == empty,
            decreases rows - hashes@.len(),
        {
            let mut row: Vec<GpuCell> = Vec::new();
            while row.len() < cols as usize
                invariant
                    row@.len() <= cols,
                    forall|j: int| 0 <= j < row@.len() ==> #[trigger] row@[j] == instances::bare(0, 0),
                decreases cols - row@.len(),
            {
                row.push(GpuCell::default());
            }
            assert(row@ =~= empty);
            grid.push(row);
            hashes.push(None);
        }
        let painter = Painter {
            base_palette: palette.clone(),
            palette,
            palette_revision: 0,
            dim: 0,
            cell_w,
            cell_h,
            cols,
            rows,
            grid,
            hashes,
        };
        assert(painter@.keys =~= Seq::new(rows as nat, |i: int| None::<u64>));
        assert(painter@.grid =~= Seq::new(
            rows as nat,
            |i: int| Seq::new(cols as nat, |j: int| instances::bare(0, 0)),
        ));
        Ok(painter)
    }

    pub fn cell_size(&self) -> (size: (u16, u16))
        ensures
            size == (self@.cell_w, self@.cell_h),
    {
        (self.cell_w, self.cell_h)
    }

    pub fn grid_size(&self) -> (size: (u16, u16))
        ensures
            size == (self@.cols, self@.rows),
    {
        (self.cols, self.rows)
    }

    /// The pixels the grid covers.
    pub fn pixel_size(&self) -> (size: (u32, u32))
        ensures
            size.0 == self@.cols * self@.cell_w,
            size.1 == self@.rows * self@.cell_h,
    {
        let (cols, rows) = (self.cols as u32, self.rows as u32);
        let (w, h) = (self.cell_w as u32, self.cell_h as u32);
        assert(cols * w <= 0xffff * 0xffff) by (nonlinear_arith)
            requires
                cols <= 0xffff,
                w <= 0xffff,
        ;
        assert(rows * h <= 0xffff * 0xffff) by (nonlinear_arith)
            requires
                rows <= 0xffff,
                h <= 0xffff,
        ;
        (cols * w, rows * h)
    }

    /// The instances of one row.
    pub fn row(&self, row: u16) -> (instances: &[GpuCell])
        requires
            painter_wf(self@),
            row < self@.rows,
        ensures
            instances@ == self@.grid[row as int],
    {
        self.grid[row as usize].as_slice()
    }

    /// Everything is built again on the next refresh.
    pub fn invalidate(&mut self)
        ensures
            final(self)@ == invalidated(old(self)@),
    {
        let mut i: usize = 0;
        while i < self.hashes.len()
            invariant
                i <= self.hashes@.len(),
                self@ == (PainterView { keys: self@.keys, ..old(self)@ }),
                self@.keys.len() == old(self)@.keys.len(),
                forall|j: int| 0 <= j < i ==> #[trigger] self.hashes@[j] is None,
            decreases self.hashes@.len() - i,
        {
            self.hashes.set(i, None);
            i = i + 1;
        }
        assert(self@.keys =~= invalidated(old(self)@).keys);
    }

    /// The host's theme. It shows on the next refresh, wherever the terminal has not set a color
    /// of its own.
    pub fn set_base_palette(&mut self, palette: Palette)
        ensures
            final(self)@ == (PainterView { base: palette@, ..old(self)@ }),
    {
        self.base_palette = palette;
    }

    /// How much light is taken off what is painted, as the bits of the amount. A dim that did not
    /// change costs nothing; a changed one makes every row paint differently.
    pub fn set_dim(&mut self, dim: u64)
        ensures
            final(self)@ == dimmed(old(self)@, dim),
    {
        if self.dim != dim {
            self.dim = dim;
            self.palette_revision = self.palette_revision.wrapping_add(1);
            self.invalidate();
        }
    }

    fn build_row<G: GlyphSource>(
        &mut self,
        row: u16,
        cells: &[TerminalCell],
        cursor: Option<(usize, CursorPaint)>,
        preedit: Option<&Preedit>,
        start: usize,
        selection: Option<(u16, u16)>,
        glyph: &mut G,
    )
        requires
            painter_wf(old(self)@),
            row < old(self)@.rows,
            start < usize::MAX,
        ensures
            painter_wf(final(self)@),
            final(self)@ == (PainterView {
                grid: old(self)@.grid.update(row as int, final(self)@.grid[row as int]),
                ..old(self)@
            }),
            repainted(
                cells::row_view(cells@),
                RowDress { cursor, overlay: overlay_of(preedit, start), selection },
                old(self)@,
                final(self)@.grid[row as int],
                *old(glyph),
                *final(glyph),
            ),
    {
        let ghost before = self@;
        let ghost view = cells::row_view(cells@);
        let ghost cols = self.cols as nat;
        let ghost overlay = overlay_of(preedit, start);
        let ghost dress = RowDress { cursor, overlay, selection };
        let mut effective = copy_row(cells, self.cols as usize);
        let mut pointer = cursor;
        if let Some(composition) = preedit {
            let caret: usize = lay_over(&mut effective, composition, start);
            if cursor.is_none() {
                let style = TerminalCursorStyle { shape: TerminalCursorShape::Bar, blinking: false };
                pointer = Some((caret, CursorPaint::Engine(style)));
            }
        }
        let ghost shown = shown_row(view, cols, overlay);
        assert(cells::row_view(effective@) == shown);
        let placed = instances::placements(effective.as_slice(), glyph);
        let mut row_cells = instances::placed_instances(
            effective.as_slice(),
            self.cell_w,
            &self.palette,
            placed.as_slice(),
        );
        select(&mut row_cells, selection, &self.palette);
        point(&mut row_cells, pointer, &self.palette);
        proof {
            assert(instances::asked(*old(glyph), shown, placed@, *glyph));
            assert(row_cells@ == painted_row(
                view,
                cols,
                dress,
                placed@,
                self.cell_w,
                self.palette@,
            ));
        }
        let ghost built = row_cells@;
        self.grid.set(row as usize, row_cells);
        proof {
            assert(self@.grid =~= before.grid.update(row as int, built));
            assert(built.len() == cols);
        }
    }

    fn refresh_row<M, G>(
        &mut self,
        mirror: &M,
        row: u16,
        offset: usize,
        preedit: Option<&Preedit>,
        cursor_on: bool,
        focused: bool,
        glyph: &mut G,
    ) where M: TerminalStateMirror + ?Sized, G: GlyphSource
        requires
            painter_wf(old(self)@),
            row < old(self)@.rows,
            offset <= i32::MAX,
        ensures
            painter_wf(final(self)@),
            final(self)@ == (PainterView {
                grid: old(self)@.grid.update(row as int, final(self)@.grid[row as int]),
                keys: old(self)@.keys.update(row as int, final(self)@.keys[row as int]),
                ..old(self)@
            }),
            row_refreshed(
                mirror,
                Request { offset, preedit: preedit_view_of(preedit), cursor_on, focused },
                old(self)@,
                final(self)@,
                row as int,
                *old(glyph),
                *final(glyph),
            ),
    {
        let ghost request = Request {
            offset,
            preedit: preedit_view_of(preedit),
            cursor_on,
            focused,
        };
        let ghost held = self@;
        let line: i32 = row as i32 - offset as i32;
        let cells = mirror.line_cells(line);
        let selection = mirror.selection_range(line);
        let cursor = mirror.cursor();
        let at_cursor = offset == 0 && cursor.0 == row as usize;
        let overlay = if at_cursor {
            preedit
        } else {
            None
        };
        let show_cursor = at_cursor && overlay.is_none() && mirror.modes().show_cursor && (cursor_on
            || !focused);
        let pointer = if show_cursor {
            if focused {
                Some((cursor.1, CursorPaint::Engine(mirror.cursor_style())))
            } else {
                Some((cursor.1, CursorPaint::Hollow))
            }
        } else {
            None
        };
        let key: u64 = key_of(
            cells.as_slice(),
            self.palette_revision,
            pointer,
            overlay,
            cursor.1,
            selection,
        );
        proof {
            let dress = dress_of(mirror, request, row as int);
            assert(overlay_of(overlay, cursor.1) == dress.overlay);
            assert(dress == (RowDress {
                cursor: pointer,
                overlay: overlay_of(overlay, cursor.1),
                selection,
            }));
        }
        let known = match self.hashes[row as usize] {
            Some(hash) => hash == key,
            None => false,
        };
        if !known {
            self.build_row(
                row,
                cells.as_slice(),
                pointer,
                overlay,
                cursor.1,
                selection,
                glyph,
            );
            self.hashes.set(row as usize, Some(key));
            assert(self@.keys =~= held.keys.update(row as int, Some(key)));
        } else {
            assert(held.keys[row as int] == Some(key));
            assert(held.keys =~= held.keys.update(row as int, held.keys[row as int]));
            assert(held.grid =~= held.grid.update(row as int, held.grid[row as int]));
        }
    }

    /// Folds the mirror's viewport into the instance grid. `offset` scrolls into history; the
    /// cursor paints only at the bottom (offset 0) and only while the mirror shows it. The theme is
    /// the base with the mirror's colors over it; what those are is returned.
    pub fn refresh<M, G>(
        &mut self,
        mirror: &M,
        offset: usize,
        preedit: Option<&Preedit>,
        cursor_on: bool,
        focused: bool,
        glyph: &mut G,
    ) -> (overrides: TerminalThemeOverrides) where
        M: TerminalStateMirror + ?Sized,
        G: GlyphSource,

        requires
            painter_wf(old(self)@),
            offset <= i32::MAX,
        ensures
            painter_wf(final(self)@),
            call_ensures(M::theme_overrides, (mirror,), overrides),
            ({
                let before = themed(old(self)@, overrides);
                &&& final(self)@ == (PainterView {
                    grid: final(self)@.grid,
                    keys: final(self)@.keys,
                    ..before
                })
                &&& exists|sources: Seq<G>| #[trigger]
                    refreshed(
                        mirror,
                        Request {
                            offset,
                            preedit: preedit_view_of(preedit),
                            cursor_on,
                            focused,
                        },
                        before,
                        final(self)@,
                        sources,
                    ) && sources[0] == *old(glyph) && sources.last() == *final(glyph)
            }),
    {
        let overrides = mirror.theme_overrides();
        let effective = self.base_palette.resolve(&overrides);
        if !self.palette.same(&effective) {
            self.palette = effective;
            self.palette_revision = self.palette_revision.wrapping_add(1);
            self.invalidate();
        }
        let ghost before = themed(old(self)@, overrides);
        let ghost request = Request {
            offset,
            preedit: preedit_view_of(preedit),
            cursor_on,
            focused,
        };
        assert(self@ == before);
        let ghost mut sources: Seq<G> = seq![*glyph];
        let mut row: u16 = 0;
        while row < self.rows
            invariant
                sources.len() == row + 1,
                sources[0] == *old(glyph),
                sources[row as int] == *glyph,
                painter_wf(self@),
                painter_wf(before),
                row <= self@.rows,
                offset <= i32::MAX,
                request == (Request {
                    offset,
                    preedit: preedit_view_of(preedit),
                    cursor_on,
                    focused,
                }),
                self@ == (PainterView { grid: self@.grid, keys: self@.keys, ..before }),
                forall|r: int|
                    #![trigger self@.keys[r]]
                    0 <= r < row ==> row_refreshed(
                        mirror,
                        request,
                        before,
                        self@,
                        r,
                        sources[r],
                        sources[r + 1],
                    ),
                forall|r: int|
                    row <= r < before.rows ==> #[trigger] self@.keys[r] == before.keys[r]
                        && self@.grid[r] == before.grid[r],
            decreases self@.rows - row,
        {
            let ghost held = self@;
            self.refresh_row(mirror, row, offset, preedit, cursor_on, focused, glyph);
            proof {
                sources = sources.push(*glyph);
                assert forall|r: int| #![trigger self@.keys[r]] 0 <= r < row + 1 implies row_refreshed(
                    mirror,
                    request,
                    before,
                    self@,
                    r,
                    sources[r],
                    sources[r + 1],
                ) by {
                    if r < row {
                        assert(held.keys[r] == self@.keys[r]);
                        assert(held.grid[r] == self@.grid[r]);
                    } else {
                        assert(held.keys[r] == before.keys[r]);
                    }
                }
                assert forall|r: int| row + 1 <= r < before.rows implies #[trigger] self@.keys[r]
                    == before.keys[r] && self@.grid[r] == before.grid[r] by {
                    assert(held.keys[r] == before.keys[r]);
                }
            }
            row = row + 1;
        }
        assert(refreshed(mirror, request, before, self@, sources));
        overrides
    }

    /// The rows a target surface is owed. A fresh target is owed everything; a current one,
    /// nothing. A target of another grid is refused.
    pub fn owed(&self, state: &TargetState) -> (rows: Result<Vec<u16>, String>)
        requires
            painter_wf(self@),
        ensures
            match rows {
                Ok(rows) => state@.len() == self@.rows && rows@ == owed_rows(
                    state@,
                    self@.keys,
                    self@.rows as int,
                ),
                Err(message) => state@.len() != self@.rows && message@
                    == "TARGET_ROWS_MISMATCH: the target state is not this grid"@,
            },
    {
        if state.painted.len() != self.rows as usize {
            return Err(
                String::from_str("TARGET_ROWS_MISMATCH: the target state is not this grid"),
            );
        }
        let mut dirty: Vec<u16> = Vec::new();
        let mut row: u16 = 0;
        while row < self.rows
            invariant
                painter_wf(self@),
                state@.len() == self@.rows,
                row <= self@.rows,
                dirty@ == owed_rows(state@, self@.keys, row as int),
            decreases self@.rows - row,
        {
            if state.painted[row as usize] != self.hashes[row as usize] {
                dirty.push(row);
            }
            row = row + 1;
        }
        Ok(dirty)
    }

    /// Records that the given rows of a target now show this grid.
    pub fn settle(&self, state: &mut TargetState, rows: &[u16])
        requires
            painter_wf(self@),
            old(state)@.len() == self@.rows,
            forall|i: int| 0 <= i < rows@.len() ==> #[trigger] rows@[i] < self@.rows,
        ensures
            final(state)@ == settled(old(state)@, self@.keys, rows@),
    {
        let mut i: usize = 0;
        assert(state@ =~= settled(old(state)@, self@.keys, rows@.take(0)));
        while i < rows.len()
            invariant
                painter_wf(self@),
                i <= rows@.len(),
                state@.len() == self@.rows,
                old(state)@.len() == self@.rows,
                forall|j: int| 0 <= j < rows@.len() ==> #[trigger] rows@[j] < self@.rows,
                state@ == settled(old(state)@, self@.keys, rows@.take(i as int)),
            decreases rows@.len() - i,
        {
            let row: u16 = rows[i];
            let ghost before = state@;
            state.painted.set(row as usize, self.hashes[row as usize]);
            proof {
                let done = rows@.take(i + 1);
                assert(done =~= rows@.take(i as int).push(row));
                assert(state@ =~= settled(old(state)@, self@.keys, done)) by {
                    assert forall|r: int| 0 <= r < state@.len() implies #[trigger] state@[r]
                        == settled(old(state)@, self@.keys, done)[r] by {
                        assert(done.contains(r as u16) == (rows@.take(i as int).contains(r as u16)
                            || r == row)) by {
                            if r == row {
                                assert(done[i as int] == r);
                            }
                            if rows@.take(i as int).contains(r as u16) {
                                let k = choose|k: int|
                                    0 <= k < i && rows@.take(i as int)[k] == r as u16;
                                assert(done[k] == r as u16);
                            }
                            if done.contains(r as u16) && r != row {
                                let k = choose|k: int| 0 <= k < i + 1 && done[k] == r as u16;
                                assert(rows@.take(i as int)[k] == r as u16);
                            }
                        }
                    }
                }
            }
            i = i + 1;
        }
        assert(rows@.take(i as int) =~= rows@);
    }
}

/// A composition as plain values.
pub open spec fn preedit_view_of(preedit: Option<&Preedit>) -> Option<(Seq<char>, usize)> {
    match preedit {
        Some(preedit) => Some((preedit.text@, preedit.cursor)),
        None => None,
    }
}

/// The rows among the first `count` that a target does not show as the grid has them.
pub open spec fn owed_rows(painted: Seq<Option<u64>>, keys: Seq<Option<u64>>, count: int) -> Seq<
    u16,
>
    decreases count,
{
    if count <= 0 {
        Seq::empty()
    } else {
        let before = owed_rows(painted, keys, count - 1);
        if painted[count - 1] != keys[count - 1] {
            before.push((count - 1) as u16)
        } else {
            before
        }
    }
}

/// A target after the given rows were painted.
pub open spec fn settled(
    painted: Seq<Option<u64>>,
    keys: Seq<Option<u64>>,
    rows: Seq<u16>,
) -> Seq<Option<u64>> {
    Seq::new(
        painted.len(),
        |r: int|
            if rows.contains(r as u16) {
                keys[r]
            } else {
                painted[r]
            },
    )
}

proof fn lemma_owed_rows(painted: Seq<Option<u64>>, keys: Seq<Option<u64>>, count: int)
    requires
        0 <= count <= u16::MAX,
    ensures
        forall|r: u16|
            #![trigger owed_rows(painted, keys, count).contains(r)]
            owed_rows(painted, keys, count).contains(r) <==> r < count && painted[r as int]
                != keys[r as int],
    decreases count,
{
    if count > 0 {
        lemma_owed_rows(painted, keys, count - 1);
        let before = owed_rows(painted, keys, count - 1);
        let now = owed_rows(painted, keys, count);
        assert forall|r: u16| #![trigger now.contains(r)] now.contains(r) <==> r < count
            && painted[r as int] != keys[r as int] by {
            if before.contains(r) {
                let k = choose|k: int| 0 <= k < before.len() && before[k] == r;
                assert(now[k] == r);
            }
            if now.contains(r) && r != count - 1 {
                let k = choose|k: int| 0 <= k < now.len() && now[k] == r;
                assert(before[k] == r);
            }
            if r == count - 1 && painted[r as int] != keys[r as int] {
                assert(now[now.len() - 1] == r);
            }
            if r == count - 1 && painted[r as int] == keys[r as int] {
                assert(!before.contains(r));
            }
        }
    }
}

/// A target is owed exactly the rows it does not show as the grid has them.
pub proof fn law_owed_rows_are_the_stale_ones(
    painted: Seq<Option<u64>>,
    keys: Seq<Option<u64>>,
    row: u16,
)
    requires
        painted.len() == keys.len() <= u16::MAX,
        row < keys.len(),
    ensures
        owed_rows(painted, keys, keys.len() as int).contains(row) <==> painted[row as int]
            != keys[row as int],
{
    lemma_owed_rows(painted, keys, keys.len() as int);
}

/// A target that was painted the rows it was owed shows the grid, and is owed nothing more.
pub proof fn law_settled_target_owes_nothing(painted: Seq<Option<u64>>, keys: Seq<Option<u64>>)
    requires
        painted.len() == keys.len() <= u16::MAX,
    ensures
        settled(painted, keys, owed_rows(painted, keys, keys.len() as int)) == keys,
        owed_rows(keys, keys, keys.len() as int) == Seq::<u16>::empty(),
{
    lemma_owed_rows(painted, keys, keys.len() as int);
    let after = settled(painted, keys, owed_rows(painted, keys, keys.len() as int));
    assert(after =~= keys) by {
        assert forall|r: int| 0 <= r < after.len() implies after[r] == keys[r] by {
            assert(owed_rows(painted, keys, keys.len() as int).contains(r as u16) <==> painted[r]
                != keys[r]);
        }
    }
    lemma_current_owes_nothing(keys, keys.len() as int);
}

proof fn lemma_current_owes_nothing(keys: Seq<Option<u64>>, count: int)
    ensures
        owed_rows(keys, keys, count) == Seq::<u16>::empty(),
    decreases count,
{
    if count > 0 {
        lemma_current_owes_nothing(keys, count - 1);
    }
}

/// A screen that did not change is not built again: a second refresh for the same request leaves
/// every row and its key as they are, and asks the glyph source for nothing.
pub proof fn law_unchanged_screen_is_not_rebuilt<
    M: TerminalStateMirror + ?Sized,
    G: GlyphSource,
>(
    mirror: &M,
    request: Request,
    before: PainterView,
    once: PainterView,
    twice: PainterView,
    row: int,
    sources: (G, G, G),
)
    requires
        once.revision == before.revision,
        row_refreshed(mirror, request, before, once, row, sources.0, sources.1),
        row_refreshed(mirror, request, once, twice, row, sources.1, sources.2),
    ensures
        twice.keys[row] == once.keys[row],
        twice.grid[row] == once.grid[row],
        sources.2 == sources.1,
{
}

} // verus!
