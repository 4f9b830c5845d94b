use soksak_kit_sidecar_terminal::frame::{
    apply, delta, encode_line, line_hash, FrameLine, FrameReply, FrameRun, FrameSubscribers,
    TerminalFrame, ATTR_BOLD, ATTR_DIM, ATTR_HIDDEN, ATTR_INVERSE, ATTR_ITALIC, ATTR_STRIKEOUT,
    ATTR_UNDERLINE, MAX_SUBSCRIBERS,
};
use soksak_kit_sidecar_terminal::mirror::{
    RecoveryMirror, TerminalCell, TerminalColor, TerminalCursorAnimation, TerminalCursorShape,
    TerminalCursorStyle, TerminalEngine, TerminalModes,
};

fn cell(ch: char) -> TerminalCell {
    TerminalCell {
        ch,
        fg: TerminalColor::Default,
        bg: TerminalColor::Default,
        bold: false,
        dim: false,
        italic: false,
        underline: false,
        inverse: false,
        strikeout: false,
        hidden: false,
        wide: false,
        spacer: false,
        wrapline: false,
        zerowidth: Vec::new(),
        link: None,
    }
}

fn wide(ch: char) -> [TerminalCell; 2] {
    let mut body = cell(ch);
    body.wide = true;
    let mut spacer = cell(' ');
    spacer.spacer = true;
    [body, spacer]
}

fn frame(rows: &[&str]) -> TerminalFrame {
    TerminalFrame {
        cols: 8,
        rows: rows.len() as u16,
        cursor: (0, 0),
        cursor_visible: true,
        cursor_style: TerminalCursorStyle { shape: TerminalCursorShape::Block, blinking: false },
        cursor_animation: TerminalCursorAnimation { interval_ms: 750 },
        alt_active: false,
        history_size: 0,
        offset: 0,
        modes: TerminalModes::default(),
        lines: rows
            .iter()
            .enumerate()
            .map(|(y, text)| {
                let cells: Vec<TerminalCell> = text.chars().map(cell).collect();
                encode_line(y as u16, &cells)
            })
            .collect(),
    }
}

#[test]
fn encode_line_merges_equal_style_cells_and_counts_wide_as_two() {
    let mut a = cell('a');
    a.bold = true;
    let mut b = cell('b');
    b.bold = true;
    let mut cells = vec![a, b];
    let [mut ga, gs] = wide('가');
    ga.bold = true;
    cells.extend([ga, gs]);
    let [mut na, ns] = wide('나');
    na.bold = true;
    cells.extend([na, ns]);
    cells.push(cell('c'));
    let line = encode_line(3, &cells);
    assert_eq!(line.y, 3);
    assert!(!line.wrapped);
    assert_eq!(line.runs.len(), 3);
    assert_eq!(
        (line.runs[0].text.as_str(), line.runs[0].n, line.runs[0].attrs),
        ("ab", 2, ATTR_BOLD)
    );
    assert_eq!(
        (line.runs[1].text.as_str(), line.runs[1].n, line.runs[1].wide),
        ("가나", 4, true)
    );
    assert_eq!(
        (line.runs[2].text.as_str(), line.runs[2].n, line.runs[2].attrs),
        ("c", 1, 0)
    );
}

#[test]
fn encode_line_drops_spacers_and_trims_trailing_blank_default_cells() {
    let mut cells = vec![cell('x')];
    cells.extend(wide('한'));
    let mut bold_blank = cell(' ');
    bold_blank.bold = true;
    cells.push(bold_blank);
    cells.push(cell(' '));
    let line = encode_line(0, &cells);
    assert_eq!(line.runs.len(), 2);
    assert_eq!(line.runs[0].text, "x");
    assert_eq!((line.runs[1].text.as_str(), line.runs[1].n), ("한", 2));
    assert_eq!(line.runs.iter().map(|run| run.n).sum::<u32>(), 3);

    let mut colored_blank = cell(' ');
    colored_blank.bg = TerminalColor::Named(1);
    let mut wrapped_tail = cell(' ');
    wrapped_tail.wrapline = true;
    let kept = encode_line(
        1,
        &[cell('a'), colored_blank, cell('b'), cell(' '), wrapped_tail],
    );
    assert!(kept.wrapped);
    assert_eq!(kept.runs.len(), 3);
    assert_eq!(
        (kept.runs[1].text.as_str(), kept.runs[1].bg.as_str()),
        (" ", "palette:1")
    );
    assert_eq!(encode_line(2, &[]).runs, Vec::<FrameRun>::new());
    assert_eq!(
        encode_line(2, &[cell(' '), cell(' ')]).runs,
        Vec::<FrameRun>::new()
    );
}

#[test]
fn every_attribute_has_its_own_bit() {
    let styles: Vec<(fn(&mut TerminalCell), u16)> = vec![
        (|cell| cell.bold = true, ATTR_BOLD),
        (|cell| cell.dim = true, ATTR_DIM),
        (|cell| cell.italic = true, ATTR_ITALIC),
        (|cell| cell.underline = true, ATTR_UNDERLINE),
        (|cell| cell.inverse = true, ATTR_INVERSE),
        (|cell| cell.strikeout = true, ATTR_STRIKEOUT),
        (|cell| cell.hidden = true, ATTR_HIDDEN),
    ];
    for (set, bit) in styles {
        let mut styled = cell('s');
        set(&mut styled);
        assert_eq!(encode_line(0, &[styled]).runs[0].attrs, bit);
    }
    let mut colored = cell('c');
    colored.fg = TerminalColor::Rgb(1, 2, 255);
    assert_eq!(encode_line(0, &[colored]).runs[0].fg, "#0102ff");
}

#[test]
fn a_row_keeps_its_characters_and_its_columns() {
    let mut accented = cell('e');
    accented.zerowidth = vec!['\u{301}'];
    let [body, spacer] = wide('한');
    let line = encode_line(0, &[cell('a'), accented, body, spacer, cell('z')]);
    let text: String = line.runs.iter().map(|run| run.text.as_str()).collect();
    assert_eq!(text, "ae\u{301}한z");
    assert_eq!(line.runs.iter().map(|run| run.n).sum::<u32>(), 5);
}

#[test]
fn line_hash_distinguishes_link() {
    let plain = encode_line(0, &[cell('a'), cell('b')]);
    let mut linked_a = cell('a');
    linked_a.link = Some("https://example.invalid/".into());
    let mut linked_b = cell('b');
    linked_b.link = linked_a.link.clone();
    let linked = encode_line(0, &[linked_a, linked_b]);
    assert_eq!(plain.runs[0].text, linked.runs[0].text);
    assert_ne!(line_hash(&plain), line_hash(&linked));
    assert_eq!(
        line_hash(&plain),
        line_hash(&encode_line(0, &[cell('a'), cell('b')]))
    );
    let mut wrapped = plain.clone();
    wrapped.wrapped = true;
    assert_ne!(line_hash(&plain), line_hash(&wrapped));
}

#[test]
fn an_empty_row_hashes_to_one_round() {
    let empty = FrameLine { y: 0, wrapped: false, runs: Vec::new() };
    // The offset basis after the byte of `wrapped`.
    assert_eq!(
        line_hash(&empty),
        0xcbf2_9ce4_8422_2325u64.wrapping_mul(0x0000_0100_0000_01b3)
    );
}

#[test]
fn first_request_is_full_then_only_changed_rows() {
    let first = frame(&["one", "two", "three"]);
    let (reply, baseline) = delta(None, &first, 10);
    assert!(reply.full);
    assert_eq!(reply.lines.len(), 3);
    assert_eq!(reply.output_sequence, 10);

    let second = frame(&["one", "TWO", "three"]);
    let (reply, baseline) = delta(Some(&baseline), &second, 11);
    assert!(!reply.full);
    assert_eq!(reply.lines, vec![second.lines[1].clone()]);

    let (reply, _) = delta(Some(&baseline), &second, 12);
    assert!(!reply.full);
    assert!(reply.lines.is_empty());
    assert_eq!(reply.output_sequence, 12);
}

#[test]
fn resize_offset_and_alt_switch_force_full() {
    let base = frame(&["a", "b"]);
    let (_, baseline) = delta(None, &base, 1);

    let mut resized = base.clone();
    resized.cols += 1;
    assert!(delta(Some(&baseline), &resized, 2).0.full);

    let mut scrolled = base.clone();
    scrolled.offset = 1;
    scrolled.history_size = 1;
    assert!(delta(Some(&baseline), &scrolled, 3).0.full);

    let mut alt = base.clone();
    alt.alt_active = true;
    assert!(delta(Some(&baseline), &alt, 4).0.full);

    let mut cursor_only = base.clone();
    cursor_only.cursor = (1, 1);
    let (reply, _) = delta(Some(&baseline), &cursor_only, 5);
    assert!(!reply.full);
    assert!(reply.lines.is_empty());
    assert_eq!(reply.cursor, (1, 1));
}

#[test]
fn baselines_are_capped_by_least_recent_use() {
    let mut table = FrameSubscribers::default();
    let (_, baseline) = delta(None, &frame(&["a"]), 1);
    for index in 0..MAX_SUBSCRIBERS + 1 {
        table.record(&format!("s{index}"), baseline.clone());
    }
    assert_eq!(table.len(), MAX_SUBSCRIBERS);
    assert!(table.baseline("s0").is_none());
    assert!(table.baseline("s1").is_some());
}

#[test]
fn a_subscriber_that_asks_again_stays() {
    let mut table = FrameSubscribers::default();
    assert!(table.is_empty());
    let (_, baseline) = delta(None, &frame(&["a"]), 1);
    for index in 0..MAX_SUBSCRIBERS {
        table.record(&format!("s{index}"), baseline.clone());
    }
    table.record("s0", baseline.clone());
    table.record("late", baseline);
    assert_eq!(table.len(), MAX_SUBSCRIBERS);
    assert!(table.baseline("s0").is_some());
    assert!(table.baseline("s1").is_none());
    assert!(!table.is_empty());
}

struct ScriptEngine {
    cols: u16,
    rows: u16,
    lines: Vec<String>,
}

impl TerminalEngine for ScriptEngine {
    fn new(cols: u16, rows: u16) -> Self {
        Self { cols, rows, lines: Vec::new() }
    }
    fn feed(&mut self, bytes: &[u8]) {
        for part in String::from_utf8_lossy(bytes).split('\n') {
            self.lines.push(part.to_string());
        }
    }
    fn resize(&mut self, cols: u16, rows: u16) {
        self.cols = cols;
        self.rows = rows;
    }
    fn cols(&self) -> u16 {
        self.cols
    }
    fn rows(&self) -> u16 {
        self.rows
    }
    fn cursor(&self) -> (usize, usize) {
        (
            self.lines.len().min(self.rows as usize).saturating_sub(1),
            0,
        )
    }
    fn cursor_style(&self) -> TerminalCursorStyle {
        TerminalCursorStyle { shape: TerminalCursorShape::Block, blinking: false }
    }
    fn cursor_animation(&self) -> TerminalCursorAnimation {
        TerminalCursorAnimation { interval_ms: 750 }
    }
    fn alt_active(&self) -> bool {
        false
    }
    fn history_size(&self) -> usize {
        self.lines.len().saturating_sub(self.rows as usize)
    }
    fn modes(&self) -> TerminalModes {
        TerminalModes {
            show_cursor: true,
            line_wrap: true,
            ..TerminalModes::default()
        }
    }
    fn line_cells(&self, line: i32) -> Vec<TerminalCell> {
        let index = self.history_size() as i32 + line;
        let text = usize::try_from(index)
            .ok()
            .and_then(|index| self.lines.get(index))
            .cloned()
            .unwrap_or_default();
        (0..self.cols as usize)
            .map(|col| cell(text.chars().nth(col).unwrap_or(' ')))
            .collect()
    }
    fn suppressed_replies(&self) -> u64 {
        0
    }
}

#[test]
fn apply_of_deltas_equals_frame_at() {
    let mut mirror = RecoveryMirror::<ScriptEngine>::new(8, 3);
    mirror.feed(b"one\ntwo");
    let (first, baseline) = delta(None, &mirror.frame_at(0), 1);
    mirror.feed(b"three");
    let (second, baseline) = delta(Some(&baseline), &mirror.frame_at(0), 2);
    assert!(!second.full);
    assert_eq!(second.lines.len(), 1, "only the third row changed");
    mirror.feed(b"four\nfive");
    let latest = mirror.frame_at(0);
    let (third, _) = delta(Some(&baseline), &latest, 3);
    assert!(!third.full);
    let applied = apply(&apply(&first, &second), &third);
    assert_eq!(applied, FrameReply::full(&latest, 3));
    assert_eq!(applied.history_size, 2);
    assert_eq!(mirror.frame_at(9).offset, 2, "offset clamps to history");
}

#[test]
fn applied_rows_come_out_by_number() {
    let whole = FrameReply::full(&frame(&["a", "b"]), 1);
    let mut late = whole.clone();
    late.full = false;
    late.lines = vec![
        FrameLine { y: 5, wrapped: false, runs: Vec::new() },
        FrameLine { y: 3, wrapped: true, runs: Vec::new() },
    ];
    let picture = apply(&whole, &late);
    assert!(picture.full);
    let rows: Vec<u16> = picture.lines.iter().map(|line| line.y).collect();
    assert_eq!(rows, vec![0, 1, 3, 5]);
}

#[test]
fn a_reply_that_arrives_twice_changes_nothing() {
    let (first, baseline) = delta(None, &frame(&["one", "two", "three"]), 1);
    let (second, _) = delta(Some(&baseline), &frame(&["one", "TWO", "three"]), 2);
    let once = apply(&first, &second);
    assert_eq!(apply(&once, &second), once);
    assert_eq!(apply(&apply(&once, &first), &first), first);
}

#[test]
fn a_table_counts_its_names_up_to_its_capacity() {
    let (_, baseline) = delta(None, &frame(&["a"]), 1);
    let mut table = FrameSubscribers::default();
    for (name, count) in [("a", 1), ("b", 2), ("a", 2), ("c", 3), ("b", 3)] {
        table.record(name, baseline.clone());
        assert_eq!(table.len(), count);
    }
    for index in 0..2 * MAX_SUBSCRIBERS {
        table.record(&format!("s{index}"), baseline.clone());
    }
    assert_eq!(table.len(), MAX_SUBSCRIBERS);
}
