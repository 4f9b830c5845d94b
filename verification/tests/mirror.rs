use soksak_kit_sidecar_terminal::frame::FrameReply;
use soksak_kit_sidecar_terminal::mirror::{
    classify_alt_enter, AltCandidate, RecoveryMirror, TerminalCell, TerminalColor,
    TerminalCursorAnimation, TerminalCursorShape, TerminalCursorStyle, TerminalEngine,
    TerminalModes,
};
use soksak_kit_sidecar_terminal::paint::color_code;
use soksak_kit_sidecar_terminal::report;

struct HiddenCursorEngine;

impl TerminalEngine for HiddenCursorEngine {
    fn new(_: u16, _: u16) -> Self {
        Self
    }
    fn feed(&mut self, _: &[u8]) {}
    fn resize(&mut self, _: u16, _: u16) {}
    fn cols(&self) -> u16 {
        1
    }
    fn rows(&self) -> u16 {
        1
    }
    fn cursor(&self) -> (usize, usize) {
        (0, 0)
    }
    fn cursor_style(&self) -> TerminalCursorStyle {
        TerminalCursorStyle { shape: TerminalCursorShape::Bar, blinking: false }
    }
    fn cursor_animation(&self) -> TerminalCursorAnimation {
        TerminalCursorAnimation { interval_ms: 750 }
    }
    fn alt_active(&self) -> bool {
        false
    }
    fn history_size(&self) -> usize {
        0
    }
    fn modes(&self) -> TerminalModes {
        TerminalModes {
            show_cursor: false,
            ..TerminalModes::default()
        }
    }
    fn line_cells(&self, _: i32) -> Vec<TerminalCell> {
        vec![]
    }
    fn suppressed_replies(&self) -> u64 {
        0
    }
}

#[test]
fn frame_exposes_the_engine_cursor_visibility() {
    let frame = RecoveryMirror::<HiddenCursorEngine>::new(1, 1).frame();
    assert!(!frame.cursor_visible);
    let value = report::reply_value(&FrameReply::full(&frame, 0));
    assert_eq!(value["cursorVisible"], serde_json::Value::Bool(false));
    assert_eq!(value["modes"]["showCursor"], serde_json::Value::Bool(false));
    assert_eq!(value["cursorStyle"]["shape"], serde_json::Value::String("bar".into()));
    assert_eq!(value["cursorStyle"]["blinking"], serde_json::Value::Bool(false));
    assert!(value.get("cursor_visible").is_none());
    assert!(RecoveryMirror::<HiddenCursorEngine>::new(1, 1)
        .rehydrate()
        .windows(b"\x1b[6 q".len())
        .any(|bytes| bytes == b"\x1b[6 q"));
}

#[test]
fn recognizes_alt_entry_across_chunks() {
    assert!(matches!(
        classify_alt_enter(b"\x1b[?104"),
        AltCandidate::NeedMore
    ));
    assert!(matches!(
        classify_alt_enter(b"\x1b[?1049h"),
        AltCandidate::Enter(8)
    ));
}

#[test]
fn other_sequences_do_not_enter_the_alternate_screen() {
    for bytes in [&b"\x1b[?1049l"[..], b"\x1b[1049h", b"\x1bM", b"\x1b[?25h", b"\x1b[?104x"] {
        assert!(matches!(classify_alt_enter(bytes), AltCandidate::No), "{bytes:?}");
    }
    for bytes in [&b"\x1b"[..], b"\x1b[", b"\x1b[?", b"\x1b[?4"] {
        assert!(matches!(classify_alt_enter(bytes), AltCandidate::NeedMore), "{bytes:?}");
    }
    assert!(matches!(classify_alt_enter(b"\x1b[?47h"), AltCandidate::Enter(6)));
    assert!(matches!(classify_alt_enter(b"\x1b[?1047hrest"), AltCandidate::Enter(8)));
    assert!(matches!(classify_alt_enter(b"\x1b[?25;1049h"), AltCandidate::Enter(11)));
}

#[test]
fn serializes_named_and_rgb_colors() {
    assert_eq!(
        color_code(TerminalColor::Named(9), false).as_deref(),
        Some("91")
    );
    assert_eq!(
        color_code(TerminalColor::Rgb(1, 2, 3), true).as_deref(),
        Some("48;2;1;2;3")
    );
}

#[test]
fn other_colors_have_their_codes() {
    assert_eq!(color_code(TerminalColor::Default, false).as_deref(), None);
    assert_eq!(color_code(TerminalColor::Named(3), false).as_deref(), Some("33"));
    assert_eq!(color_code(TerminalColor::Named(3), true).as_deref(), Some("43"));
    assert_eq!(color_code(TerminalColor::Named(12), true).as_deref(), Some("104"));
}

/// An engine that shows what it was fed in its first row and what was asked of it in the others.
/// Its alternate screen is on from the entry sequence to the exit.
struct TapeEngine {
    cols: u16,
    rows: u16,
    fed: Vec<u8>,
    alt: bool,
    log: Vec<String>,
}

impl TerminalEngine for TapeEngine {
    fn new(cols: u16, rows: u16) -> Self {
        let log = vec![format!("new {cols}x{rows}")];
        Self { cols, rows, fed: Vec::new(), alt: false, log }
    }
    fn initialize(&mut self) {
        self.log.push("initialize".to_string());
    }
    fn feed(&mut self, bytes: &[u8]) {
        if !bytes.is_empty() {
            self.log.push(format!("feed {}", bytes.escape_ascii()));
        }
        self.fed.extend_from_slice(bytes);
        let ends = |needle: &[u8]| {
            self.fed.windows(needle.len()).rposition(|window| window == needle)
        };
        let (on, off) = (ends(b"\x1b[?1049h"), ends(b"\x1b[?1049l"));
        self.alt = on.is_some() && off < on;
    }
    fn resize(&mut self, cols: u16, rows: u16) {
        self.log.push(format!("resize {cols}x{rows}"));
        self.cols = cols;
        self.rows = rows;
    }
    fn resize_with_replay(&mut self, cols: u16, rows: u16, replay: &[u8]) {
        self.log.push(format!("replay {cols}x{rows} {}", replay.escape_ascii()));
        self.cols = cols;
        self.rows = rows;
    }
    fn cols(&self) -> u16 {
        self.cols
    }
    fn rows(&self) -> u16 {
        self.rows
    }
    fn cursor(&self) -> (usize, usize) {
        (0, 0)
    }
    fn cursor_style(&self) -> TerminalCursorStyle {
        TerminalCursorStyle { shape: TerminalCursorShape::Block, blinking: true }
    }
    fn cursor_animation(&self) -> TerminalCursorAnimation {
        TerminalCursorAnimation { interval_ms: 500 }
    }
    fn alt_active(&self) -> bool {
        self.alt
    }
    fn history_size(&self) -> usize {
        0
    }
    fn modes(&self) -> TerminalModes {
        TerminalModes { show_cursor: true, line_wrap: true, ..TerminalModes::default() }
    }
    fn line_cells(&self, line: i32) -> Vec<TerminalCell> {
        let text: Vec<char> = if line == 0 {
            String::from_utf8_lossy(&self.fed).chars().collect()
        } else {
            self.log.join("; ").chars().collect()
        };
        let cols = if line == 0 { self.cols as usize } else { text.len() };
        (0..cols)
            .map(|col| TerminalCell {
                ch: *text.get(col).filter(|c| !c.is_control()).unwrap_or(&' '),
                fg: TerminalColor::Default,
                bg: TerminalColor::Default,
                bold: false,
                dim: false,
                italic: false,
                underline: false,
                inverse: false,
                strikeout: false,
                hidden: false,
                wide: false,
                spacer: false,
                wrapline: false,
                zerowidth: Vec::new(),
                link: None,
            })
            .collect()
    }
    fn suppressed_replies(&self) -> u64 {
        4
    }
}

fn contains(bytes: &[u8], needle: &[u8]) -> bool {
    bytes.windows(needle.len()).any(|window| window == needle)
}

#[test]
fn the_primary_screen_survives_the_alternate_one() {
    let mut mirror = RecoveryMirror::<TapeEngine>::new(8, 1);
    mirror.feed(b"primary");
    assert!(!mirror.alt_active());
    mirror.feed(b"\x1b[?10");
    mirror.feed(b"49hfull");
    assert!(mirror.alt_active());
    let warm = mirror.rehydrate();
    assert!(contains(&warm, b"primary"), "the frozen primary screen is painted first");
    assert!(contains(&warm, b"\x1b[?1049h"));
    let cold = mirror.cold_paint();
    assert!(contains(&cold, b"primary"));
    assert!(!contains(&cold, b"\x1b[?1049h"), "a cold paint stays on the primary screen");
    mirror.feed(b"\x1b[?1049l");
    assert!(!mirror.alt_active());
    assert_eq!(mirror.suppressed_replies(), 4);
}

#[test]
fn a_frame_has_every_row_and_the_state_of_the_cursor() {
    let mut mirror = RecoveryMirror::<TapeEngine>::new(4, 2);
    mirror.feed(b"ab");
    let frame = mirror.frame();
    assert_eq!((frame.cols, frame.rows, frame.offset), (4, 2, 0));
    assert_eq!(frame.lines.iter().map(|line| line.y).collect::<Vec<u16>>(), vec![0, 1]);
    assert_eq!(frame.lines[0].runs[0].text, "ab");
    assert!(frame.cursor_visible);
    assert!(frame.cursor_style.blinking);
    assert_eq!(frame.cursor_animation.interval_ms, 500);
    mirror.resize(6, 3);
    assert_eq!((mirror.cols(), mirror.rows()), (6, 3));
    assert_eq!(mirror.frame().lines.len(), 3);
}

fn log(mirror: &RecoveryMirror<TapeEngine>) -> String {
    mirror.frame().lines[1].runs.iter().map(|run| run.text.as_str()).collect()
}

#[test]
fn an_engine_is_initialized_once_before_its_first_byte() {
    let mut mirror = RecoveryMirror::<TapeEngine>::new(0, 2);
    assert_eq!(log(&mirror), "new 1x2; initialize");
    mirror.feed(b"ab");
    assert_eq!(log(&mirror), "new 1x2; initialize; feed ab");
}

#[test]
fn a_resized_engine_is_handed_the_repaint_of_what_it_showed() {
    let mut mirror = RecoveryMirror::<TapeEngine>::new(8, 2);
    mirror.feed(b"primary");
    let before = (log(&mirror), mirror.rehydrate());
    assert!(contains(&before.1, b"primary"));
    mirror.resize(9, 2);
    assert_eq!(log(&mirror), format!("{}; replay 9x2 {}", before.0, before.1.escape_ascii()));
    let before = (log(&mirror), mirror.rehydrate());
    mirror.resize(0, 2);
    assert_eq!(log(&mirror), format!("{}; replay 1x2 {}", before.0, before.1.escape_ascii()));
}

#[test]
fn how_output_is_cut_does_not_matter() {
    let output = b"primary\x1b[?25;1049hfull\x1b[?1049lback\x1b[?10";
    let mut whole = RecoveryMirror::<TapeEngine>::new(16, 1);
    whole.feed(output);
    for cut in 0..output.len() {
        let mut parts = RecoveryMirror::<TapeEngine>::new(16, 1);
        parts.feed(&output[..cut]);
        parts.feed(&output[cut..]);
        assert_eq!(parts.rehydrate(), whole.rehydrate(), "{cut}");
        assert_eq!(parts.cold_paint(), whole.cold_paint(), "{cut}");
    }
    let mut bytewise = RecoveryMirror::<TapeEngine>::new(16, 1);
    for byte in output {
        bytewise.feed(&[*byte]);
    }
    assert_eq!(bytewise.rehydrate(), whole.rehydrate());
}

#[test]
fn the_frozen_screen_leads_every_repaint_of_the_alternate_one() {
    let mut mirror = RecoveryMirror::<TapeEngine>::new(8, 1);
    mirror.feed(b"primary");
    mirror.feed(b"\x1b[?1049h");
    let first = mirror.rehydrate();
    let switch = b"\x1b[?1049h\x1b[2J";
    let at = first.windows(switch.len()).position(|bytes| bytes == switch).unwrap();
    let lead = first[..at + switch.len()].to_vec();
    assert!(contains(&lead, b"primary"));
    mirror.feed(b"whatever follows");
    assert!(mirror.rehydrate().starts_with(&lead));
}

#[test]
fn a_repaint_ends_with_the_cursor_style() {
    assert!(RecoveryMirror::<TapeEngine>::new(8, 1).rehydrate().ends_with(b"\x1b[1 q"));
    assert!(RecoveryMirror::<HiddenCursorEngine>::new(8, 1).rehydrate().ends_with(b"\x1b[6 q"));
}
