//! Grid cells become GPU instances, one per cell. The shader reads its cell's instance, paints the
//! background and mixes glyph coverage over it. Colors resolve here, never on the GPU.

use vstd::prelude::*;

use crate::cells::{
    self, CellView, TerminalCell, TerminalColor, TerminalCursorShape, TerminalCursorStyle,
    TerminalRgb, TerminalThemeOverrides,
};

verus! {

/// Exactly 32 bytes of fields, matched by the shader's struct stride.
#[derive(Debug, Clone, Copy, PartialEq, Eq, Structural)]
pub struct GpuCell {
    /// Atlas rect of the glyph's coverage; a zero width paints background only.
    pub glyph_x: u16,
    pub glyph_y: u16,
    pub glyph_w: u16,
    pub glyph_h: u16,
    /// Ink offset from the cell's top-left, precomputed so the shader adds.
    pub ink_left: i16,
    pub ink_top: i16,
    pub fg: u32,
    pub bg: u32,
    pub flags: u32,
    /// Hyperlink id for hover underline (OSC 8); zero is no link.
    pub link: u32,
    /// The color of a cursor that does not fill its cell.
    pub reserved: u32,
}

pub const FLAG_UNDERLINE: u32 = 1;

pub const FLAG_STRIKEOUT: u32 = 2;

pub const FLAG_WIDE: u32 = 4;

pub const FLAG_CURSOR_UNDERLINE: u32 = 8;

pub const FLAG_CURSOR_BAR: u32 = 16;

pub const FLAG_CURSOR_HOLLOW: u32 = 32;

/// An instance that paints these two colors and nothing else.
pub open spec fn bare(fg: u32, bg: u32) -> GpuCell {
    GpuCell {
        glyph_x: 0,
        glyph_y: 0,
        glyph_w: 0,
        glyph_h: 0,
        ink_left: 0,
        ink_top: 0,
        fg,
        bg,
        flags: 0,
        link: 0,
        reserved: 0,
    }
}

impl Default for GpuCell {
    fn default() -> (cell: Self)
        ensures
            cell == bare(0, 0),
    {
        Self::bare(0, 0)
    }
}

impl GpuCell {
    fn bare(fg: u32, bg: u32) -> (cell: Self)
        ensures
            cell == bare(fg, bg),
    {
        GpuCell {
            glyph_x: 0,
            glyph_y: 0,
            glyph_w: 0,
            glyph_h: 0,
            ink_left: 0,
            ink_top: 0,
            fg,
            bg,
            flags: 0,
            link: 0,
            reserved: 0,
        }
    }
}

/// A color packed as blue, green, red and alpha, from the lowest byte up.
pub open spec fn bgra(r: u8, g: u8, b: u8, a: u8) -> u32 {
    (b + 0x100 * g + 0x1_0000 * r + 0x100_0000 * a) as u32
}

/// Packs a color as blue, green, red and alpha, from the lowest byte up.
pub fn pack_bgra(r: u8, g: u8, b: u8, a: u8) -> (packed: u32)
    ensures
        packed == bgra(r, g, b, a),
{
    b as u32 + 0x100 * g as u32 + 0x1_0000 * r as u32 + 0x100_0000 * a as u32
}

/// The resolved theme: what Default and the 256 indexed colors mean here.
#[derive(Debug, PartialEq, Eq)]
pub struct Palette {
    pub fg: u32,
    pub bg: u32,
    pub cursor: u32,
    pub cursor_accent: u32,
    pub selection_bg: u32,
    pub selection_fg: u32,
    pub ansi: [u32; 256],
}

/// A theme as a mathematical value.
#[verifier::ext_equal]
pub struct PaletteView {
    pub fg: u32,
    pub bg: u32,
    pub cursor: u32,
    pub cursor_accent: u32,
    pub selection_bg: u32,
    pub selection_fg: u32,
    pub ansi: Seq<u32>,
}

impl View for Palette {
    type V = PaletteView;

    open spec fn view(&self) -> PaletteView {
        PaletteView {
            fg: self.fg,
            bg: self.bg,
            cursor: self.cursor,
            cursor_accent: self.cursor_accent,
            selection_bg: self.selection_bg,
            selection_fg: self.selection_fg,
            ansi: self.ansi@,
        }
    }
}

impl Clone for Palette {
    fn clone(&self) -> (copy: Self)
        ensures
            copy@ == self@,
    {
        Palette {
            fg: self.fg,
            bg: self.bg,
            cursor: self.cursor,
            cursor_accent: self.cursor_accent,
            selection_bg: self.selection_bg,
            selection_fg: self.selection_fg,
            ansi: self.ansi,
        }
    }
}

/// The foreground a color stands for; bold brightens the first eight names.
pub open spec fn foreground(palette: PaletteView, color: TerminalColor, bold: bool) -> u32 {
    match color {
        TerminalColor::Default => palette.fg,
        TerminalColor::Named(index) | TerminalColor::Indexed(index) => palette.ansi[if bold
            && index < 8 {
            index + 8
        } else {
            index as int
        }],
        TerminalColor::Rgb(r, g, b) => bgra(r, g, b, 255),
    }
}

/// The background a color stands for; bold never brightens a background.
pub open spec fn background(palette: PaletteView, color: TerminalColor) -> u32 {
    match color {
        TerminalColor::Default => palette.bg,
        TerminalColor::Named(index) | TerminalColor::Indexed(index) => palette.ansi[index as int],
        TerminalColor::Rgb(r, g, b) => bgra(r, g, b, 255),
    }
}

/// The packed form of an override, or the base color where there is none.
pub open spec fn overridden(value: Option<TerminalRgb>, base: u32) -> u32 {
    match value {
        Some(rgb) => bgra(rgb.r, rgb.g, rgb.b, 255),
        None => base,
    }
}

/// A base theme with the terminal's colors over it. A color that is not overridden is the base's.
pub open spec fn resolved(base: PaletteView, overrides: TerminalThemeOverrides) -> PaletteView {
    PaletteView {
        fg: overridden(overrides.foreground, base.fg),
        bg: overridden(overrides.background, base.bg),
        cursor: overridden(overrides.cursor, base.cursor),
        ansi: Seq::new(256, |i: int| overridden(overrides.ansi@[i], base.ansi[i])),
        ..base
    }
}

fn over(value: Option<TerminalRgb>, base: u32) -> (color: u32)
    ensures
        color == overridden(value, base),
{
    match value {
        Some(rgb) => pack_bgra(rgb.r, rgb.g, rgb.b, 255),
        None => base,
    }
}

impl Palette {
    /// Foreground resolution; bold brightens the first eight names (N < 8 becomes N + 8).
    pub fn resolve_fg(&self, color: TerminalColor, bold: bool) -> (packed: u32)
        ensures
            packed == foreground(self@, color, bold),
    {
        match color {
            TerminalColor::Default => self.fg,
            TerminalColor::Named(index) | TerminalColor::Indexed(index) => {
                let index: u8 = if bold && index < 8 { index + 8 } else { index };
                self.ansi[index as usize]
            },
            TerminalColor::Rgb(r, g, b) => pack_bgra(r, g, b, 255),
        }
    }

    /// Background resolution; bold never brightens a background.
    pub fn resolve_bg(&self, color: TerminalColor) -> (packed: u32)
        ensures
            packed == background(self@, color),
    {
        match color {
            TerminalColor::Default => self.bg,
            TerminalColor::Named(index) | TerminalColor::Indexed(index) => {
                self.ansi[index as usize]
            },
            TerminalColor::Rgb(r, g, b) => pack_bgra(r, g, b, 255),
        }
    }

    /// This theme with the terminal's colors over it.
    pub fn resolve(&self, overrides: &TerminalThemeOverrides) -> (effective: Palette)
        ensures
            effective@ == resolved(self@, *overrides),
    {
        let mut ansi = self.ansi;
        let mut i: usize = 0;
        while i < 256
            invariant
                i <= 256,
                forall|j: int|
                    0 <= j < i ==> ansi@[j] == overridden(overrides.ansi@[j], self.ansi@[j]),
                forall|j: int| i <= j < 256 ==> ansi@[j] == self.ansi@[j],
            decreases 256 - i,
        {
            ansi[i] = over(overrides.ansi[i], self.ansi[i]);
            i = i + 1;
        }
        let effective = Palette {
            fg: over(overrides.foreground, self.fg),
            bg: over(overrides.background, self.bg),
            cursor: over(overrides.cursor, self.cursor),
            cursor_accent: self.cursor_accent,
            selection_bg: self.selection_bg,
            selection_fg: self.selection_fg,
            ansi,
        };
        assert(effective@.ansi =~= resolved(self@, *overrides).ansi);
        effective
    }

    /// Whether two themes hold the same colors.
    pub fn same(&self, other: &Palette) -> (same: bool)
        ensures
            same == (self@ == other@),
    {
        if self.fg != other.fg || self.bg != other.bg || self.cursor != other.cursor
            || self.cursor_accent != other.cursor_accent || self.selection_bg
            != other.selection_bg || self.selection_fg != other.selection_fg {
            return false;
        }
        let mut i: usize = 0;
        while i < 256
            invariant
                i <= 256,
                forall|j: int| 0 <= j < i ==> self.ansi@[j] == other.ansi@[j],
            decreases 256 - i,
        {
            if self.ansi[i] != other.ansi[i] {
                assert(self@.ansi[i as int] != other@.ansi[i as int]);
                return false;
            }
            i = i + 1;
        }
        assert(self@.ansi =~= other@.ansi);
        true
    }
}

/// A theme shows the terminal's own color wherever it has set one, and resetting it reveals the
/// base theme of the moment, not an earlier one.
pub proof fn law_reset_reveals_the_current_base(
    base: PaletteView,
    overrides: TerminalThemeOverrides,
)
    requires
        base.ansi.len() == 256,
    ensures
        overrides.foreground is None ==> resolved(base, overrides).fg == base.fg,
        overrides.background is None ==> resolved(base, overrides).bg == base.bg,
        overrides.cursor is None ==> resolved(base, overrides).cursor == base.cursor,
        overrides.foreground matches Some(rgb) ==> resolved(base, overrides).fg == bgra(
            rgb.r,
            rgb.g,
            rgb.b,
            255,
        ),
        overrides.background matches Some(rgb) ==> resolved(base, overrides).bg == bgra(
            rgb.r,
            rgb.g,
            rgb.b,
            255,
        ),
        overrides.cursor matches Some(rgb) ==> resolved(base, overrides).cursor == bgra(
            rgb.r,
            rgb.g,
            rgb.b,
            255,
        ),
        forall|i: int|
            0 <= i < 256 ==> #[trigger] resolved(base, overrides).ansi[i] == overridden(
                overrides.ansi@[i],
                base.ansi[i],
            ),
        overrides.none() ==> resolved(base, overrides) == base,
{
    if overrides.none() {
        assert(resolved(base, overrides).ansi =~= base.ansi);
    }
}

/// The flags of a cell without those of a cursor's shape.
pub open spec fn without_shape(flags: u32) -> u32 {
    flags & !(FLAG_CURSOR_UNDERLINE | FLAG_CURSOR_BAR)
}

/// A cell under a cursor of the given shape: a block takes the cursor's colors, the other shapes
/// are drawn over the cell in the cursor's color.
pub open spec fn under_cursor(
    cell: GpuCell,
    shape: TerminalCursorShape,
    palette: PaletteView,
) -> GpuCell {
    let clean = GpuCell {
        flags: without_shape(cell.flags),
        reserved: palette.cursor,
        ..cell
    };
    match shape {
        TerminalCursorShape::Block => GpuCell {
            fg: palette.cursor_accent,
            bg: palette.cursor,
            ..clean
        },
        TerminalCursorShape::Underline => GpuCell {
            flags: clean.flags | FLAG_CURSOR_UNDERLINE,
            ..clean
        },
        TerminalCursorShape::Bar => GpuCell { flags: clean.flags | FLAG_CURSOR_BAR, ..clean },
    }
}

/// Draws the cursor on a cell.
pub fn apply_cursor(cell: &mut GpuCell, style: TerminalCursorStyle, palette: &Palette)
    ensures
        *final(cell) == under_cursor(*old(cell), style.shape, palette@),
{
    cell.flags = cell.flags & !(FLAG_CURSOR_UNDERLINE | FLAG_CURSOR_BAR);
    cell.reserved = palette.cursor;
    match style.shape {
        TerminalCursorShape::Block => {
            cell.fg = palette.cursor_accent;
            cell.bg = palette.cursor;
        },
        TerminalCursorShape::Underline => {
            cell.flags = cell.flags | FLAG_CURSOR_UNDERLINE;
        },
        TerminalCursorShape::Bar => {
            cell.flags = cell.flags | FLAG_CURSOR_BAR;
        },
    }
}

/// A cell under the hollow block of a surface without focus.
pub open spec fn under_hollow_cursor(cell: GpuCell, palette: PaletteView) -> GpuCell {
    GpuCell {
        flags: without_shape(cell.flags) | FLAG_CURSOR_HOLLOW,
        reserved: palette.cursor,
        ..cell
    }
}

/// Draws the hollow block of a surface without focus on a cell.
pub fn apply_hollow_cursor(cell: &mut GpuCell, palette: &Palette)
    ensures
        *final(cell) == under_hollow_cursor(*old(cell), palette@),
{
    cell.flags = cell.flags & !(FLAG_CURSOR_UNDERLINE | FLAG_CURSOR_BAR);
    cell.flags = cell.flags | FLAG_CURSOR_HOLLOW;
    cell.reserved = palette.cursor;
}

/// A selected cell: the declared selection colors.
pub open spec fn under_selection(cell: GpuCell, palette: PaletteView) -> GpuCell {
    GpuCell { fg: palette.selection_fg, bg: palette.selection_bg, ..cell }
}

/// Where a glyph's coverage sits, handed in by the painter's atlas.
#[derive(Debug, Clone, Copy, PartialEq, Eq, Structural)]
pub struct GlyphPlacement {
    pub x: u16,
    pub y: u16,
    pub w: u16,
    pub h: u16,
    /// Ink offset from the cell's left edge.
    pub left: i16,
    /// Ink offset down from the cell's top: ascent less bitmap top.
    pub top: i16,
}

impl Default for GlyphPlacement {
    fn default() -> (placement: Self)
        ensures
            placement == (GlyphPlacement { x: 0, y: 0, w: 0, h: 0, left: 0, top: 0 }),
    {
        GlyphPlacement { x: 0, y: 0, w: 0, h: 0, left: 0, top: 0 }
    }
}

/// Whether a cell shows a glyph: it is neither a spacer nor hidden nor a space.
pub open spec fn wants_glyph(cell: CellView) -> bool {
    !cell.spacer && !cell.hidden && cell.ch != ' '
}

/// The ink offset one cell further left, in 16 bits.
pub open spec fn shifted(left: i16, cell_w: u16) -> i16 {
    let offset = left - cell_w;
    if offset < i16::MIN {
        (offset + 0x1_0000) as i16
    } else {
        offset as i16
    }
}

/// The flags of a cell's decorations.
pub open spec fn decoration(cell: CellView) -> u32 {
    ((if cell.underline {
        FLAG_UNDERLINE
    } else {
        0
    }) + (if cell.strikeout {
        FLAG_STRIKEOUT
    } else {
        0
    }) + (if cell.wide {
        FLAG_WIDE
    } else {
        0
    })) as u32
}

/// The two colors a cell is painted in. Inverse swaps what the colors resolved to; hidden ink
/// takes the color of its background.
pub open spec fn cell_colors(cell: CellView, palette: PaletteView) -> (u32, u32) {
    let fg = foreground(palette, cell.fg, cell.bold);
    let bg = background(palette, cell.bg);
    let (fg, bg) = if cell.inverse {
        (bg, fg)
    } else {
        (fg, bg)
    };
    if cell.hidden {
        (bg, bg)
    } else {
        (fg, bg)
    }
}

/// The instance of one cell, next to the instance of a wide cell before it.
///
/// A wide glyph spills into its spacer: the spacer repeats the leading cell's coverage shifted one
/// cell left, so the shader never reads a neighbour's instance.
pub open spec fn instance_of(
    cell: CellView,
    placed: Option<GlyphPlacement>,
    leading: Option<GpuCell>,
    cell_w: u16,
    palette: PaletteView,
) -> GpuCell {
    let (fg, bg) = cell_colors(cell, palette);
    let plain = GpuCell { flags: decoration(cell), ..bare(fg, bg) };
    if cell.spacer {
        match leading {
            Some(leading) if !cell.hidden => GpuCell {
                glyph_x: leading.glyph_x,
                glyph_y: leading.glyph_y,
                glyph_w: leading.glyph_w,
                glyph_h: leading.glyph_h,
                ink_left: shifted(leading.ink_left, cell_w),
                ink_top: leading.ink_top,
                ..plain
            },
            _ => plain,
        }
    } else {
        match placed {
            Some(placed) if wants_glyph(cell) => GpuCell {
                glyph_x: placed.x,
                glyph_y: placed.y,
                glyph_w: placed.w,
                glyph_h: placed.h,
                ink_left: placed.left,
                ink_top: placed.top,
                ..plain
            },
            _ => plain,
        }
    }
}

/// The instances of a row whose glyphs are placed as given.
pub open spec fn row_of(
    row: Seq<CellView>,
    placed: Seq<Option<GlyphPlacement>>,
    cell_w: u16,
    palette: PaletteView,
) -> Seq<GpuCell>
    decreases row.len(),
{
    if row.len() == 0 {
        Seq::empty()
    } else {
        let before = row_of(row.drop_last(), placed, cell_w, palette);
        let at = row.len() - 1;
        let leading = if at > 0 && row[at - 1].wide {
            Some(before.last())
        } else {
            None
        };
        before.push(instance_of(row[at], placed[at], leading, cell_w, palette))
    }
}

fn instance(
    cell: &TerminalCell,
    placed: Option<GlyphPlacement>,
    leading: Option<GpuCell>,
    cell_w: u16,
    palette: &Palette,
) -> (instance: GpuCell)
    ensures
        instance == instance_of(cell@, placed, leading, cell_w, palette@),
{
    let mut fg: u32 = palette.resolve_fg(cell.fg, cell.bold);
    let mut bg: u32 = palette.resolve_bg(cell.bg);
    if cell.inverse {
        let swapped: u32 = fg;
        fg = bg;
        bg = swapped;
    }
    if cell.hidden {
        fg = bg;
    }
    let mut instance = GpuCell::bare(fg, bg);
    if cell.underline {
        instance.flags = instance.flags + FLAG_UNDERLINE;
    }
    if cell.strikeout {
        instance.flags = instance.flags + FLAG_STRIKEOUT;
    }
    if cell.wide {
        instance.flags = instance.flags + FLAG_WIDE;
    }
    if cell.spacer {
        if let Some(leading) = leading {
            if !cell.hidden {
                instance.glyph_x = leading.glyph_x;
                instance.glyph_y = leading.glyph_y;
                instance.glyph_w = leading.glyph_w;
                instance.glyph_h = leading.glyph_h;
                let offset: i32 = leading.ink_left as i32 - cell_w as i32;
                instance.ink_left = if offset < -0x8000 {
                    (offset + 0x1_0000) as i16
                } else {
                    offset as i16
                };
                instance.ink_top = leading.ink_top;
            }
        }
    } else if !cell.hidden && cell.ch != ' ' {
        if let Some(placed) = placed {
            instance.glyph_x = placed.x;
            instance.glyph_y = placed.y;
            instance.glyph_w = placed.w;
            instance.glyph_h = placed.h;
            instance.ink_left = placed.left;
            instance.ink_top = placed.top;
        }
    }
    instance
}

/// One row of cells to instances, with the placement of every glyph given.
pub fn placed_instances(
    cells: &[TerminalCell],
    cell_w: u16,
    palette: &Palette,
    placed: &[Option<GlyphPlacement>],
) -> (instances: Vec<GpuCell>)
    requires
        placed@.len() == cells@.len(),
    ensures
        instances@ == row_of(cells::row_view(cells@), placed@, cell_w, palette@),
        instances@.len() == cells@.len(),
{
    let ghost row = cells::row_view(cells@);
    let mut instances: Vec<GpuCell> = Vec::new();
    let mut i: usize = 0;
    assert(row.take(0) =~= Seq::<CellView>::empty());
    while i < cells.len()
        invariant
            row == cells::row_view(cells@),
            placed@.len() == cells@.len(),
            i <= cells@.len(),
            instances@.len() == i,
            instances@ == row_of(row.take(i as int), placed@, cell_w, palette@),
        decreases cells@.len() - i,
    {
        assert(row.take(i + 1).drop_last() =~= row.take(i as int));
        let leading = if i > 0 && cells[i - 1].wide {
            Some(instances[i - 1])
        } else {
            None
        };
        instances.push(instance(&cells[i], placed[i], leading, cell_w, palette));
        i = i + 1;
    }
    assert(row.take(i as int) =~= row);
    instances
}

/// Where the coverage of glyphs is found. A source may change as it answers: it rasters what it has
/// not yet.
pub trait GlyphSource: Sized {
    /// Whether this source may answer `placed` for a cell and be `after` from then on. An
    /// implementation that is to be proved says when; otherwise it is left open.
    closed spec fn answers(
        self,
        cell: CellView,
        placed: Option<GlyphPlacement>,
        after: Self,
    ) -> bool {
        arbitrary()
    }

    /// Where the coverage of a visible character is placed, or `None` for an unrastered glyph.
    fn place(&mut self, cell: &TerminalCell) -> (placed: Option<GlyphPlacement>)
        ensures
            old(self).answers(cell@, placed, *final(self)),
    ;
}

/// A source that has rastered nothing: cells paint their background alone.
pub struct Unrastered;

impl GlyphSource for Unrastered {
    open spec fn answers(
        self,
        cell: CellView,
        placed: Option<GlyphPlacement>,
        after: Self,
    ) -> bool {
        placed is None && after == self
    }

    fn place(&mut self, _cell: &TerminalCell) -> (placed: Option<GlyphPlacement>) {
        None
    }
}

/// Whether a source that was `sources[i]` before each cell of a row answered `placed`: it was asked
/// for every cell that shows a glyph, in order and once each, and for no other cell.
pub open spec fn answered<G: GlyphSource>(
    row: Seq<CellView>,
    placed: Seq<Option<GlyphPlacement>>,
    sources: Seq<G>,
) -> bool {
    &&& placed.len() == row.len()
    &&& sources.len() == row.len() + 1
    &&& forall|i: int|
        #![trigger placed[i]]
        0 <= i < row.len() ==> if wants_glyph(row[i]) {
            sources[i].answers(row[i], placed[i], sources[i + 1])
        } else {
            placed[i] is None && sources[i + 1] == sources[i]
        }
}

/// Whether a source that was asked for the glyphs of a row answered `placed` and became `after`.
pub open spec fn asked<G: GlyphSource>(
    source: G,
    row: Seq<CellView>,
    placed: Seq<Option<GlyphPlacement>>,
    after: G,
) -> bool {
    exists|sources: Seq<G>| #[trigger]
        answered(row, placed, sources) && sources[0] == source && sources.last() == after
}

/// Asks the glyph source for every cell that shows a glyph, in order.
pub fn placements<G: GlyphSource>(cells: &[TerminalCell], glyph: &mut G) -> (placed: Vec<
    Option<GlyphPlacement>,
>)
    ensures
        asked(*old(glyph), cells::row_view(cells@), placed@, *final(glyph)),
        placed@.len() == cells@.len(),
{
    let ghost row = cells::row_view(cells@);
    let ghost mut sources: Seq<G> = seq![*glyph];
    let mut placed: Vec<Option<GlyphPlacement>> = Vec::new();
    let mut i: usize = 0;
    while i < cells.len()
        invariant
            row == cells::row_view(cells@),
            i <= cells@.len(),
            placed@.len() == i,
            sources.len() == i + 1,
            sources[0] == *old(glyph),
            sources[i as int] == *glyph,
            forall|j: int|
                #![trigger placed@[j]]
                0 <= j < i ==> if wants_glyph(row[j]) {
                    sources[j].answers(row[j], placed@[j], sources[j + 1])
                } else {
                    placed@[j] is None && sources[j + 1] == sources[j]
                },
        decreases cells@.len() - i,
    {
        let cell = &cells[i];
        let answer = if !cell.spacer && !cell.hidden && cell.ch != ' ' {
            glyph.place(cell)
        } else {
            None
        };
        placed.push(answer);
        proof {
            sources = sources.push(*glyph);
        }
        i = i + 1;
    }
    assert(answered(row, placed@, sources));
    placed
}

/// One row of cells to instances. `glyph` answers coverage placement for a visible character or
/// `None` for unrastered glyphs (background still paints; the row redraws when the atlas catches
/// up).
pub fn row_instances<G: GlyphSource>(
    cells: &[TerminalCell],
    cell_w: u16,
    palette: &Palette,
    glyph: &mut G,
) -> (instances: Vec<GpuCell>)
    ensures
        exists|placed: Seq<Option<GlyphPlacement>>| #[trigger]
            asked(*old(glyph), cells::row_view(cells@), placed, *final(glyph)) && instances@
                == row_of(cells::row_view(cells@), placed, cell_w, palette@),
        instances@.len() == cells@.len(),
{
    let placed = placements(cells, glyph);
    placed_instances(cells, cell_w, palette, placed.as_slice())
}

/// A row without a glyph asks the source for nothing, and leaves it as it was.
pub proof fn law_blank_row_asks_for_nothing<G: GlyphSource>(
    source: G,
    row: Seq<CellView>,
    placed: Seq<Option<GlyphPlacement>>,
    after: G,
)
    requires
        asked(source, row, placed, after),
        forall|i: int| 0 <= i < row.len() ==> !wants_glyph(#[trigger] row[i]),
    ensures
        after == source,
        forall|i: int| 0 <= i < placed.len() ==> #[trigger] placed[i] is None,
{
    let sources = choose|sources: Seq<G>| #[trigger]
        answered(row, placed, sources) && sources[0] == source && sources.last() == after;
    assert forall|i: int| 0 <= i < placed.len() implies #[trigger] placed[i] is None by {
        assert(!wants_glyph(row[i]));
    }
    lemma_source_stays(row, placed, sources, row.len() as int);
}

proof fn lemma_source_stays<G: GlyphSource>(
    row: Seq<CellView>,
    placed: Seq<Option<GlyphPlacement>>,
    sources: Seq<G>,
    count: int,
)
    requires
        answered(row, placed, sources),
        forall|i: int| 0 <= i < row.len() ==> !wants_glyph(#[trigger] row[i]),
        0 <= count <= row.len(),
    ensures
        sources[count] == sources[0],
    decreases count,
{
    if count > 0 {
        lemma_source_stays(row, placed, sources, count - 1);
        assert(!wants_glyph(row[count - 1]));
        assert(placed[count - 1] is None);
    }
}

/// Every cell of a row has exactly one instance.
pub proof fn law_one_instance_per_cell(
    row: Seq<CellView>,
    placed: Seq<Option<GlyphPlacement>>,
    cell_w: u16,
    palette: PaletteView,
)
    ensures
        row_of(row, placed, cell_w, palette).len() == row.len(),
    decreases row.len(),
{
    if row.len() > 0 {
        law_one_instance_per_cell(row.drop_last(), placed, cell_w, palette);
    }
}

/// Hidden ink never shows: the instance of a hidden cell has one color, and no glyph of its own or
/// of the cell before it.
pub proof fn law_hidden_ink_is_invisible(
    cell: CellView,
    placed: Option<GlyphPlacement>,
    leading: Option<GpuCell>,
    cell_w: u16,
    palette: PaletteView,
)
    requires
        cell.hidden,
    ensures
        ({
            let shown = instance_of(cell, placed, leading, cell_w, palette);
            shown.fg == shown.bg && shown.glyph_w == 0
        }),
{
}

} // verus!
