use serde_json::Value;

use soksak_kit_sidecar_terminal::mirror::{
    MirrorCapabilities, TerminalCell, TerminalColor, TerminalCursorAnimation, TerminalCursorShape,
    TerminalCursorStyle, TerminalFrame, TerminalModes, TerminalRgb, TerminalThemeOverrides,
};
use soksak_kit_sidecar_terminal::render::instances::{
    pack_bgra, GlyphPlacement, GlyphSource, Palette, FLAG_CURSOR_HOLLOW, FLAG_UNDERLINE,
};
use soksak_kit_sidecar_terminal::render::painter::{row_hash, Painter, Preedit, TargetState};
use soksak_kit_sidecar_terminal::render::session::{PaneControl, SurfaceSessions};
use soksak_kit_sidecar_terminal::render::theme::{SurfaceThemeState, ThemeMode};
use soksak_kit_sidecar_terminal::TerminalStateMirror;

fn plain(ch: char) -> TerminalCell {
    TerminalCell {
        ch,
        fg: TerminalColor::Default,
        bg: TerminalColor::Default,
        bold: false,
        dim: false,
        italic: false,
        underline: false,
        inverse: false,
        strikeout: false,
        hidden: false,
        wide: false,
        spacer: false,
        wrapline: false,
        zerowidth: Vec::new(),
        link: None,
    }
}

struct GridMirror {
    cols: u16,
    grid: Vec<Vec<TerminalCell>>,
    cursor: (usize, usize),
    cursor_visible: bool,
    cursor_style: TerminalCursorStyle,
    theme_overrides: TerminalThemeOverrides,
    selected: Option<(i32, u16, u16)>,
}

impl GridMirror {
    fn from_rows(cols: u16, rows: &[&str]) -> Self {
        let grid = rows
            .iter()
            .map(|text| {
                let mut cells: Vec<TerminalCell> = Vec::new();
                for ch in text.chars() {
                    if ch == '\u{0}' {
                        let mut spacer = plain(' ');
                        spacer.spacer = true;
                        cells.push(spacer);
                        continue;
                    }
                    let mut cell = plain(ch);
                    if (ch as u32) >= 0x1100 {
                        cell.wide = true;
                    }
                    cells.push(cell);
                }
                while cells.len() < cols as usize {
                    cells.push(plain(' '));
                }
                cells
            })
            .collect();
        Self {
            cols,
            grid,
            cursor: (0, 0),
            cursor_visible: false,
            cursor_style: TerminalCursorStyle {
                shape: TerminalCursorShape::Block,
                blinking: false,
            },
            theme_overrides: TerminalThemeOverrides::default(),
            selected: None,
        }
    }
}

impl TerminalStateMirror for GridMirror {
    fn feed(&mut self, _bytes: &[u8]) {}
    fn resize(&mut self, _cols: u16, _rows: u16) {}
    fn rehydrate(&self) -> Vec<u8> {
        Vec::new()
    }
    fn cold_paint(&self) -> Vec<u8> {
        Vec::new()
    }
    fn frame_at(&self, offset: usize) -> TerminalFrame {
        TerminalFrame {
            cols: self.cols,
            rows: self.grid.len() as u16,
            cursor: self.cursor,
            cursor_visible: self.cursor_visible,
            cursor_style: self.cursor_style,
            cursor_animation: self.cursor_animation(),
            alt_active: false,
            history_size: 0,
            offset,
            modes: TerminalModes::default(),
            lines: Vec::new(),
        }
    }
    fn history_size(&self) -> usize {
        0
    }
    fn modes(&self) -> TerminalModes {
        TerminalModes { show_cursor: self.cursor_visible, ..TerminalModes::default() }
    }
    fn capabilities(&self) -> MirrorCapabilities {
        MirrorCapabilities::default()
    }
    fn alt_active(&self) -> bool {
        false
    }
    fn suppressed_replies(&self) -> u64 {
        0
    }
    fn cols(&self) -> u16 {
        self.cols
    }
    fn rows(&self) -> u16 {
        self.grid.len() as u16
    }
    fn cursor(&self) -> (usize, usize) {
        self.cursor
    }
    fn cursor_style(&self) -> TerminalCursorStyle {
        self.cursor_style
    }
    fn cursor_animation(&self) -> TerminalCursorAnimation {
        TerminalCursorAnimation { interval_ms: 750 }
    }
    fn theme_overrides(&self) -> TerminalThemeOverrides {
        self.theme_overrides.clone()
    }
    fn line_cells(&self, line: i32) -> Vec<TerminalCell> {
        if line < 0 {
            return Vec::new();
        }
        self.grid.get(line as usize).cloned().unwrap_or_default()
    }
    fn selection_range(&self, line: i32) -> Option<(u16, u16)> {
        match self.selected {
            Some((at, first, last)) if at == line => Some((first, last)),
            _ => None,
        }
    }
}

fn palette() -> Palette {
    Palette {
        fg: pack_bgra(230, 230, 230, 255),
        bg: pack_bgra(10, 10, 10, 255),
        cursor: pack_bgra(240, 240, 240, 255),
        cursor_accent: pack_bgra(12, 12, 12, 255),
        selection_bg: pack_bgra(60, 60, 60, 255),
        selection_fg: pack_bgra(250, 250, 250, 255),
        ansi: [pack_bgra(10, 10, 10, 255); 256],
    }
}

fn painter(cols: u16, rows: u16) -> (Painter, TargetState) {
    (Painter::new(16, 32, cols, rows, palette()).expect("the painter builds"), TargetState::new(rows))
}

/// Answers the same placement for every glyph, and counts what it was asked for.
#[derive(Default)]
struct Glyphs {
    asked: usize,
}

impl GlyphSource for Glyphs {
    fn place(&mut self, _: &TerminalCell) -> Option<GlyphPlacement> {
        self.asked += 1;
        Some(GlyphPlacement { x: 1, y: 2, w: 10, h: 20, left: 0, top: 0 })
    }
}

fn settle(painter: &Painter, state: &mut TargetState) -> Vec<u16> {
    let owed = painter.owed(state).expect("owes");
    painter.settle(state, &owed);
    owed
}

fn paint(painter: &mut Painter, state: &mut TargetState, mirror: &GridMirror) -> Vec<u16> {
    painter.refresh(mirror, 0, None, true, true, &mut Glyphs::default());
    settle(painter, state)
}

#[test]
fn a_painted_row_shows_its_glyphs_where_its_cells_are() {
    let (mut painter, mut state) = painter(8, 2);
    let mirror = GridMirror::from_rows(8, &["AB      ", "        "]);
    let dirty = paint(&mut painter, &mut state, &mirror);
    assert_eq!(dirty, vec![0, 1], "the first paint owes every row");
    let inked: Vec<bool> = painter.row(0).iter().map(|cell| cell.glyph_w > 0).collect();
    assert_eq!(inked, vec![true, true, false, false, false, false, false, false]);
    assert!(painter.row(0).iter().all(|cell| cell.bg == palette().bg));
    assert!(painter.row(1).iter().all(|cell| cell.glyph_w == 0));
}

#[test]
fn a_second_paint_touches_only_the_changed_row() {
    let (mut painter, mut state) = painter(8, 3);
    let mut mirror = GridMirror::from_rows(8, &["AA      ", "BB      ", "CC      "]);
    paint(&mut painter, &mut state, &mirror);
    mirror.grid[1] = GridMirror::from_rows(8, &["DD      "]).grid.remove(0);
    let dirty = paint(&mut painter, &mut state, &mirror);
    assert_eq!(dirty, vec![1], "only the changed row is owed");
}

#[test]
fn a_wide_glyph_covers_both_of_its_cells() {
    let (mut painter, mut state) = painter(6, 1);
    let mirror = GridMirror::from_rows(6, &["한\u{0}    "]);
    paint(&mut painter, &mut state, &mirror);
    let row = painter.row(0);
    assert!(row[0].glyph_w > 0, "the leading cell has ink");
    assert!(row[1].glyph_w > 0, "the spacer cell continues the glyph");
    assert_eq!(row[1].ink_left, row[0].ink_left - 16);
    assert!(row[3..6].iter().all(|cell| cell.glyph_w == 0), "blank cells stay background");
}

#[test]
fn an_unchanged_screen_owes_no_rows() {
    let (mut painter, mut state) = painter(4, 2);
    let mirror = GridMirror::from_rows(4, &["ok  ", "    "]);
    paint(&mut painter, &mut state, &mirror);
    let dirty = paint(&mut painter, &mut state, &mirror);
    assert!(dirty.is_empty(), "nothing changed, nothing repaints: {dirty:?}");
}

#[test]
fn engine_selection_range_repaints_only_its_cells_with_selection_colors() {
    let (mut painter, mut state) = painter(8, 1);
    let mut mirror = GridMirror::from_rows(8, &["        "]);
    paint(&mut painter, &mut state, &mirror);
    mirror.selected = Some((0, 2, 4));
    let dirty = paint(&mut painter, &mut state, &mirror);
    assert_eq!(dirty, vec![0]);
    assert_eq!(painter.row(0)[1].bg, pack_bgra(10, 10, 10, 255), "unselected background stays base");
    for col in 2..5 {
        assert_eq!(
            painter.row(0)[col].bg,
            pack_bgra(60, 60, 60, 255),
            "selected cell uses selection background"
        );
    }
    assert_eq!(painter.row(0)[5].bg, pack_bgra(10, 10, 10, 255));

    mirror.selected = None;
    assert_eq!(paint(&mut painter, &mut state, &mirror), vec![0]);
    assert_eq!(painter.row(0)[3].bg, pack_bgra(10, 10, 10, 255));
}

#[test]
fn engine_background_override_repaints_and_reset_restores_the_base() {
    let (mut painter, mut state) = painter(4, 2);
    let mut mirror = GridMirror::from_rows(4, &["    ", "    "]);
    paint(&mut painter, &mut state, &mirror);

    mirror.theme_overrides.background = Some(TerminalRgb { r: 255, g: 0, b: 0 });
    let overridden = paint(&mut painter, &mut state, &mirror);
    assert_eq!(overridden, vec![0, 1], "a palette change invalidates every row");
    assert_eq!(painter.row(0)[0].bg.to_le_bytes()[..3], [0, 0, 255]);

    let mut changed_base = palette();
    changed_base.bg = pack_bgra(0, 255, 0, 255);
    painter.set_base_palette(changed_base);
    let held = paint(&mut painter, &mut state, &mirror);
    assert!(held.is_empty(), "an active terminal override keeps the same effective pixels");

    mirror.theme_overrides.background = None;
    let reset = paint(&mut painter, &mut state, &mirror);
    assert_eq!(reset, vec![0, 1], "OSC 111 reset invalidates every row");
    assert_eq!(painter.row(0)[0].bg.to_le_bytes()[..3], [0, 255, 0], "reset reveals the current base theme");
}

#[test]
fn preedit_paints_underlined_at_the_cursor_and_leaves_when_cleared() {
    let (mut painter, mut state) = painter(8, 1);
    let mirror = GridMirror::from_rows(8, &["        "]);
    paint(&mut painter, &mut state, &mirror);
    let preedit = Preedit { text: "한".to_string(), cursor: 1 };
    painter.refresh(&mirror, 0, Some(&preedit), true, true, &mut Glyphs::default());
    assert_eq!(settle(&painter, &mut state), vec![0], "the composition owes its row");
    for col in 0..2 {
        assert!(painter.row(0)[col].glyph_w > 0, "the composition shows at the cursor");
        assert_ne!(painter.row(0)[col].flags & FLAG_UNDERLINE, 0, "the composition is underlined");
    }
    painter.refresh(&mirror, 0, None, true, true, &mut Glyphs::default());
    assert_eq!(settle(&painter, &mut state), vec![0], "clearing the composition owes the row again");
    assert!(painter.row(0).iter().all(|cell| cell.glyph_w == 0), "the blank row returns");
}

#[test]
fn a_dim_owes_every_row() {
    let (mut painter, mut state) = painter(8, 2);
    let mirror = GridMirror::from_rows(8, &["AB      ", "        "]);
    paint(&mut painter, &mut state, &mirror);
    painter.set_dim(0.5f64.to_bits());
    let dirty = paint(&mut painter, &mut state, &mirror);
    assert_eq!(dirty, vec![0, 1], "a dim owes every row: it changes every pixel");
}

#[test]
fn a_dim_that_did_not_change_owes_no_row() {
    let (mut painter, mut state) = painter(8, 2);
    let mirror = GridMirror::from_rows(8, &["AB      ", "        "]);
    painter.set_dim(0.4f64.to_bits());
    paint(&mut painter, &mut state, &mirror);
    painter.set_dim(0.4f64.to_bits());
    assert!(paint(&mut painter, &mut state, &mirror).is_empty(), "nothing changed");
}

#[test]
fn every_slot_catches_up_on_its_own_missed_damage() {
    let (mut painter, mut first) = painter(8, 3);
    let mut second = TargetState::new(3);
    let mut mirror = GridMirror::from_rows(8, &["AA      ", "BB      ", "CC      "]);
    assert_eq!(
        paint(&mut painter, &mut first, &mirror),
        vec![0, 1, 2],
        "a fresh slot is owed everything"
    );
    mirror.grid[1] = GridMirror::from_rows(8, &["DD      "]).grid.remove(0);
    assert_eq!(
        paint(&mut painter, &mut second, &mirror),
        vec![0, 1, 2],
        "a never-painted slot is owed everything"
    );
    mirror.grid[2] = GridMirror::from_rows(8, &["EE      "]).grid.remove(0);
    assert_eq!(
        paint(&mut painter, &mut first, &mirror),
        vec![1, 2],
        "the returned slot owes what it missed, not everything"
    );
}

#[test]
fn the_cursor_takes_its_shape_and_turns_hollow_without_focus() {
    let (mut painter, mut state) = painter(4, 1);
    let mut mirror = GridMirror::from_rows(4, &["    "]);
    mirror.cursor_visible = true;
    mirror.cursor = (0, 2);
    paint(&mut painter, &mut state, &mirror);
    assert_eq!(painter.row(0)[2].bg, palette().cursor);
    painter.refresh(&mirror, 0, None, true, false, &mut Glyphs::default());
    assert_eq!(settle(&painter, &mut state), vec![0]);
    assert_eq!(painter.row(0)[2].bg, palette().bg);
    assert_ne!(painter.row(0)[2].flags & FLAG_CURSOR_HOLLOW, 0);
    painter.refresh(&mirror, 0, None, false, true, &mut Glyphs::default());
    assert_eq!(settle(&painter, &mut state), vec![0]);
    assert_eq!(painter.row(0)[2].bg, palette().bg);
    assert_eq!(painter.row(0)[2].flags, 0);
    painter.refresh(&mirror, 1, None, true, true, &mut Glyphs::default());
    assert!(painter.row(0).iter().all(|cell| cell.bg == palette().bg), "no cursor in history");
}

#[test]
fn a_painter_has_the_size_of_its_cells() {
    let (painter, _) = painter(8, 2);
    assert_eq!(painter.cell_size(), (16, 32));
    assert_eq!(painter.grid_size(), (8, 2));
    assert_eq!(painter.pixel_size(), (128, 64));
    assert!(Painter::new(16, 32, 0, 2, palette()).is_err());
}

#[test]
fn invalidated_rows_are_all_owed_again() {
    let (mut painter, mut state) = painter(4, 2);
    let mirror = GridMirror::from_rows(4, &["ok  ", "    "]);
    paint(&mut painter, &mut state, &mirror);
    painter.invalidate();
    assert_eq!(painter.owed(&state), Ok(vec![0, 1]));
    assert!(painter.owed(&TargetState::new(3)).is_err(), "a target of another grid");
}

#[test]
fn rows_that_look_different_hash_differently() {
    let base = vec![plain('a'), plain('b')];
    let mut bold = vec![plain('a'), plain('b')];
    bold[1].bold = true;
    let mut linked = vec![plain('a'), plain('b')];
    linked[0].link = Some("https://example.invalid/".into());
    assert_eq!(row_hash(&base), row_hash(&[plain('a'), plain('b')]));
    assert_ne!(row_hash(&base), row_hash(&bold));
    assert_ne!(row_hash(&base), row_hash(&linked));
    assert_ne!(row_hash(&base), row_hash(&[plain('b'), plain('a')]));
}

fn sessions() -> SurfaceSessions {
    let mut sessions = SurfaceSessions::new();
    let theme = SurfaceThemeState::new(ThemeMode::Dark, palette());
    sessions.supersede(PaneControl::new(1, "tab-test.1", "Menlo", theme));
    sessions
}

fn request(text: &str) -> Value {
    serde_json::from_str(text).unwrap()
}

#[test]
fn read_returns_the_viewport_text() {
    let sessions = sessions();
    let mirror = GridMirror::from_rows(8, &["hi      ", "  한\u{0}\u{3000} ", "        "]);
    let pane = request(r#"{"pane": "tab-test.1"}"#);
    let reply = sessions.read(&pane, Some(&mirror)).expect("read answers");
    assert!(reply["text"].as_str().unwrap().starts_with("hi"));
    assert_eq!(reply["text"], "hi\n  한\n\n", "the blanks at the end of a row are left out");
    let last = request(r#"{"pane": "tab-test.1", "lines": 2}"#);
    assert_eq!(sessions.read(&last, Some(&mirror)).unwrap()["text"], "  한\n\n");
    let refused = sessions.read::<GridMirror>(&pane, None).unwrap_err();
    assert_eq!(refused.code, "NOT_FOUND");
}

#[test]
fn applied_override_frame_updates_surface_theme_state() {
    let mut sessions = sessions();
    let (mut painter, mut state) = painter(8, 2);
    let mut mirror = GridMirror::from_rows(8, &["hi      ", "        "]);
    paint(&mut painter, &mut state, &mirror);
    mirror.theme_overrides.foreground = Some(TerminalRgb { r: 0xab, g: 0xcd, b: 0xef });
    let overrides = painter.refresh(&mirror, 0, None, true, true, &mut Glyphs::default());
    assert_eq!(settle(&painter, &mut state), vec![0, 1], "the theme frame owes every row");
    let mut control = sessions.pane("tab-test.1").unwrap().clone();
    control.frame_sent(overrides);
    assert!(sessions.store(control));
    let answer = sessions
        .state(&request(r#"{"pane": "tab-test.1"}"#), 1, Value::Null, Value::Null)
        .expect("state answers");
    assert_eq!(answer["terminalOverrides"]["foreground"], "#abcdef");
    assert_eq!(answer["effectiveTheme"]["foreground"], "#abcdef");
}

#[test]
fn only_rows_that_changed_ask_for_their_glyphs() {
    let (mut painter, _) = painter(4, 2);
    let mut mirror = GridMirror::from_rows(4, &["ab  ", "cd e"]);
    let mut glyphs = Glyphs::default();
    painter.refresh(&mirror, 0, None, true, true, &mut glyphs);
    assert_eq!(glyphs.asked, 5);
    painter.refresh(&mirror, 0, None, true, true, &mut glyphs);
    assert_eq!(glyphs.asked, 5, "an unchanged screen is not rebuilt");
    mirror.grid[0] = GridMirror::from_rows(4, &["xy  "]).grid.remove(0);
    painter.refresh(&mirror, 0, None, true, true, &mut glyphs);
    assert_eq!(glyphs.asked, 7);
}

#[test]
fn a_row_that_comes_back_is_not_owed_to_a_target_that_still_shows_it() {
    let (mut painter, mut state) = painter(4, 2);
    let mut mirror = GridMirror::from_rows(4, &["one ", "two "]);
    paint(&mut painter, &mut state, &mirror);
    mirror.grid[1] = GridMirror::from_rows(4, &["2   "]).grid.remove(0);
    painter.refresh(&mirror, 0, None, true, true, &mut Glyphs::default());
    assert_eq!(painter.owed(&state), Ok(vec![1]));
    mirror.grid[1] = GridMirror::from_rows(4, &["two "]).grid.remove(0);
    painter.refresh(&mirror, 0, None, true, true, &mut Glyphs::default());
    assert_eq!(painter.owed(&state), Ok(vec![]));
    assert_eq!(painter.owed(&TargetState::new(2)), Ok(vec![0, 1]), "a fresh target is owed all");
}
