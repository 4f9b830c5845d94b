use soksak_kit_sidecar_terminal::mirror::{
    TerminalCell, TerminalColor, TerminalCursorShape, TerminalCursorStyle, TerminalRgb,
    TerminalThemeOverrides,
};
use soksak_kit_sidecar_terminal::render::instances::{
    apply_cursor, apply_hollow_cursor, pack_bgra, row_instances, GlyphPlacement, GlyphSource, GpuCell,
    Palette, Unrastered, FLAG_CURSOR_BAR, FLAG_CURSOR_HOLLOW, FLAG_CURSOR_UNDERLINE, FLAG_WIDE,
};

fn plain(ch: char) -> TerminalCell {
    TerminalCell {
        ch,
        fg: TerminalColor::Default,
        bg: TerminalColor::Default,
        bold: false,
        dim: false,
        italic: false,
        underline: false,
        inverse: false,
        strikeout: false,
        hidden: false,
        wide: false,
        spacer: false,
        wrapline: false,
        zerowidth: Vec::new(),
        link: None,
    }
}

fn palette() -> Palette {
    let mut ansi = [0u32; 256];
    for (index, slot) in ansi.iter_mut().enumerate() {
        *slot = index as u32;
    }
    Palette {
        fg: pack_bgra(230, 230, 230, 255),
        bg: pack_bgra(10, 10, 10, 255),
        cursor: pack_bgra(240, 240, 240, 255),
        cursor_accent: pack_bgra(12, 12, 12, 255),
        selection_bg: pack_bgra(60, 60, 60, 255),
        selection_fg: pack_bgra(250, 250, 250, 255),
        ansi,
    }
}

fn slot() -> GlyphPlacement {
    GlyphPlacement { x: 64, y: 32, w: 10, h: 20, left: 1, top: 3 }
}

/// Answers the same placement for every glyph, and keeps what it was asked for.
#[derive(Default)]
struct Glyphs {
    asked: Vec<char>,
}

impl GlyphSource for Glyphs {
    fn place(&mut self, cell: &TerminalCell) -> Option<GlyphPlacement> {
        self.asked.push(cell.ch);
        Some(slot())
    }
}

#[test]
fn an_instance_is_32_bytes() {
    assert_eq!(std::mem::size_of::<GpuCell>(), 32);
}

#[test]
fn colors_are_packed_blue_first() {
    assert_eq!(pack_bgra(0x11, 0x22, 0x33, 0xff), 0xff11_2233);
    assert_eq!(pack_bgra(0x11, 0x22, 0x33, 0xff).to_le_bytes(), [0x33, 0x22, 0x11, 0xff]);
}

#[test]
fn a_wide_cell_draws_once_and_its_spacer_paints_background_only() {
    let mut wide = plain('한');
    wide.wide = true;
    let mut spacer = plain('한');
    spacer.spacer = true;
    let out = row_instances(&[wide, spacer], 12, &palette(), &mut Glyphs::default());
    assert_eq!(out[0].glyph_w, 10, "the leading cell carries the glyph");
    assert_ne!(out[0].flags & FLAG_WIDE, 0);
    assert_eq!(out[1].glyph_x, out[0].glyph_x, "the spacer repeats the same coverage");
    assert_eq!(out[1].ink_left, out[0].ink_left - 12, "shifted one cell left");
}

#[test]
fn inverse_swaps_and_hidden_matches_background() {
    let mut inverse = plain('x');
    inverse.inverse = true;
    let mut hidden = plain('x');
    hidden.hidden = true;
    let out = row_instances(&[inverse, hidden], 12, &palette(), &mut Glyphs::default());
    let theme = palette();
    assert_eq!(out[0].fg, theme.bg);
    assert_eq!(out[0].bg, theme.fg);
    assert_eq!(out[1].fg, out[1].bg, "hidden ink is invisible");
    assert_eq!(out[1].glyph_w, 0, "hidden draws no glyph");
}

#[test]
fn bold_brightens_only_the_first_eight_names() {
    let theme = palette();
    assert_eq!(theme.resolve_fg(TerminalColor::Named(3), true), theme.ansi[11]);
    assert_eq!(theme.resolve_fg(TerminalColor::Named(11), true), theme.ansi[11]);
    assert_eq!(theme.resolve_bg(TerminalColor::Named(3)), theme.ansi[3], "backgrounds never brighten");
}

#[test]
fn whitespace_paints_background_without_a_glyph() {
    let out = row_instances(&[plain(' ')], 12, &palette(), &mut Glyphs::default());
    assert_eq!(out[0].glyph_w, 0);
    assert_eq!(out[0].bg, palette().bg);
}

#[test]
fn cursor_shapes_use_the_declared_cursor_colors() {
    let theme = palette();
    let mut block = row_instances(&[plain('x')], 12, &theme, &mut Glyphs::default())[0];
    apply_cursor(
        &mut block,
        TerminalCursorStyle { shape: TerminalCursorShape::Block, blinking: false },
        &theme,
    );
    assert_eq!((block.fg, block.bg), (theme.cursor_accent, theme.cursor));

    let mut underline = block;
    apply_cursor(
        &mut underline,
        TerminalCursorStyle { shape: TerminalCursorShape::Underline, blinking: false },
        &theme,
    );
    assert_ne!(underline.flags & FLAG_CURSOR_UNDERLINE, 0);
    assert_eq!(underline.reserved, theme.cursor);

    let mut bar = block;
    apply_cursor(
        &mut bar,
        TerminalCursorStyle { shape: TerminalCursorShape::Bar, blinking: true },
        &theme,
    );
    assert_ne!(bar.flags & FLAG_CURSOR_BAR, 0);
    assert_eq!(bar.reserved, theme.cursor);

    let mut marked = bar;
    marked.flags |= FLAG_WIDE;
    apply_cursor(
        &mut marked,
        TerminalCursorStyle { shape: TerminalCursorShape::Block, blinking: false },
        &theme,
    );
    assert_eq!(marked.flags, FLAG_WIDE, "a shape replaces the one before and no other flag");

    let mut hollow = row_instances(&[plain('x')], 12, &theme, &mut Glyphs::default())[0];
    let ink = (hollow.fg, hollow.bg);
    apply_hollow_cursor(&mut hollow, &theme);
    assert_ne!(hollow.flags & FLAG_CURSOR_HOLLOW, 0);
    assert_eq!((hollow.fg, hollow.bg), ink, "a hollow cursor leaves the cell as it is");
}

#[test]
fn terminal_colors_lie_over_the_base_and_reset_reveals_it() {
    let base = palette();
    let mut overrides = TerminalThemeOverrides::default();
    overrides.background = Some(TerminalRgb { r: 1, g: 2, b: 3 });
    overrides.ansi[200] = Some(TerminalRgb { r: 4, g: 5, b: 6 });
    let over = base.resolve(&overrides);
    assert_eq!(over.bg, pack_bgra(1, 2, 3, 255));
    assert_eq!(over.ansi[200], pack_bgra(4, 5, 6, 255));
    assert_eq!(over.fg, base.fg);
    assert!(!over.same(&base));
    assert!(base.resolve(&TerminalThemeOverrides::default()).same(&base));
}

#[test]
fn every_cell_is_painted_once() {
    let cells: Vec<TerminalCell> = "a b c".chars().map(plain).collect();
    let out = row_instances(&cells, 12, &palette(), &mut Glyphs::default());
    assert_eq!(out.len(), 5);
    assert_eq!(out.iter().filter(|cell| cell.glyph_w > 0).count(), 3);
    let missing = row_instances(&cells, 12, &palette(), &mut Unrastered);
    assert!(missing.iter().all(|cell| cell.glyph_w == 0 && cell.bg == palette().bg));
}

#[test]
fn the_source_is_asked_once_for_every_glyph_and_for_nothing_else() {
    let mut hidden = plain('h');
    hidden.hidden = true;
    let mut spacer = plain('s');
    spacer.spacer = true;
    let mut glyphs = Glyphs::default();
    let blank = [plain(' '), hidden, spacer];
    row_instances(&blank, 12, &palette(), &mut glyphs);
    assert!(glyphs.asked.is_empty(), "a row without a glyph asks for nothing");
    let cells: Vec<TerminalCell> = "ab a".chars().map(plain).collect();
    let out = row_instances(&cells, 12, &palette(), &mut glyphs);
    assert_eq!(glyphs.asked, vec!['a', 'b', 'a']);
    assert_eq!((out[0].glyph_x, out[0].glyph_y), (64, 32));
    assert_eq!((out[0].ink_left, out[0].ink_top), (1, 3));
}
