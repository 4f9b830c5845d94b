//! Replies to a frame request: full pictures, row deltas against a baseline, and the fold that
//! turns a delta back into a full picture.

use vstd::prelude::*;

use crate::cells::{TerminalCursorAnimation, TerminalCursorStyle, TerminalModes};
use crate::fnv::{self, Fnv};
use crate::frame::{self, FrameLine, FrameRun, FrameView, LineView, RunView, TerminalFrame};
use crate::text;

verus! {

/// One byte for a flag.
pub open spec fn flag_byte(set: bool) -> u8 {
    if set {
        1
    } else {
        0
    }
}

/// The bytes of one run that are hashed: each text closed by a byte that UTF-8 never holds.
pub open spec fn run_bytes(run: RunView) -> Seq<u8> {
    text::utf8(run.text).push(0xff) + text::utf8(run.fg).push(0xff) + text::utf8(run.bg).push(0xff)
        + fnv::le16(run.attrs) + fnv::le32(run.n as u32) + seq![flag_byte(run.wide)] + (
    match run.link {
        Some(link) => seq![1u8] + text::utf8(link),
        None => seq![0u8],
    }).push(0xfe)
}

/// The bytes of a list of runs that are hashed.
pub open spec fn runs_bytes(runs: Seq<RunView>) -> Seq<u8>
    decreases runs.len(),
{
    if runs.len() == 0 {
        Seq::empty()
    } else {
        runs_bytes(runs.drop_last()) + run_bytes(runs.last())
    }
}

/// The bytes of a line that are hashed: `wrapped` and the runs. Neither the row number nor the
/// cursor is part of them.
pub open spec fn line_bytes(line: LineView) -> Seq<u8> {
    seq![flag_byte(line.wrapped)] + runs_bytes(line.runs)
}

/// FNV-1a 64 of a line.
pub open spec fn hash_of(line: LineView) -> u64 {
    fnv::fold(fnv::OFFSET, line_bytes(line))
}

fn hash_run(hash: &mut Fnv, run: &FrameRun)
    requires
        old(hash).wf(),
    ensures
        final(hash).wf(),
        final(hash).fed() == old(hash).fed() + run_bytes(run@),
{
    let ghost start = hash.fed();
    hash.bytes(run.text.as_str().as_bytes());
    hash.byte(0xff);
    let ghost named = text::utf8(run@.text).push(0xff);
    assert(hash.fed() =~= start + named);
    hash.bytes(run.fg.as_str().as_bytes());
    hash.byte(0xff);
    let ghost inked = named + text::utf8(run@.fg).push(0xff);
    assert(hash.fed() =~= start + inked);
    hash.bytes(run.bg.as_str().as_bytes());
    hash.byte(0xff);
    let ghost colored = inked + text::utf8(run@.bg).push(0xff);
    assert(hash.fed() =~= start + colored);
    hash.u16_le(run.attrs);
    hash.u32_le(run.n);
    hash.byte(if run.wide { 1 } else { 0 });
    let ghost styled = colored + fnv::le16(run@.attrs) + fnv::le32(run@.n as u32) + seq![
        flag_byte(run@.wide),
    ];
    assert(hash.fed() =~= start + styled);
    let ghost target = match run@.link {
        Some(link) => seq![1u8] + text::utf8(link),
        None => seq![0u8],
    };
    match &run.link {
        Some(link) => {
            hash.byte(1);
            hash.bytes(link.as_str().as_bytes());
            assert(hash.fed() =~= start + styled + target);
        },
        None => {
            hash.byte(0);
            assert(hash.fed() =~= start + styled + target);
        },
    }
    hash.byte(0xfe);
    assert(hash.fed() =~= start + (styled + target.push(0xfe)));
    assert(run_bytes(run@) == styled + target.push(0xfe));
}

/// FNV-1a 64 over `wrapped` and the run tuples. The cursor is not part of it.
pub fn line_hash(line: &FrameLine) -> (hash: u64)
    ensures
        hash == hash_of(line@),
{
    let ghost runs = frame::runs_view(line.runs@);
    let mut hash = Fnv::new();
    hash.byte(if line.wrapped { 1 } else { 0 });
    let mut i: usize = 0;
    assert(runs.take(0) =~= Seq::<RunView>::empty());
    assert(hash.fed() =~= seq![flag_byte(line.wrapped)] + runs_bytes(runs.take(0)));
    while i < line.runs.len()
        invariant
            runs == frame::runs_view(line.runs@),
            hash.wf(),
            i <= line.runs@.len(),
            hash.fed() == seq![flag_byte(line.wrapped)] + runs_bytes(runs.take(i as int)),
        decreases line.runs@.len() - i,
    {
        hash_run(&mut hash, &line.runs[i]);
        assert(runs.take(i + 1).drop_last() =~= runs.take(i as int));
        assert(hash.fed() =~= seq![flag_byte(line.wrapped)] + runs_bytes(runs.take(i + 1)));
        i = i + 1;
    }
    assert(runs.take(i as int) =~= runs);
    hash.value()
}

/// One hash per line, in order.
pub open spec fn hashes_of(lines: Seq<LineView>) -> Seq<u64> {
    Seq::new(lines.len(), |i: int| hash_of(lines[i]))
}

/// What one subscriber last received: the geometry that forces a full reply and one hash per row.
#[derive(Debug, PartialEq, Eq)]
pub struct FrameBaseline {
    pub cols: u16,
    pub rows: u16,
    pub alt_active: bool,
    pub offset: usize,
    pub hashes: Vec<u64>,
    pub last_used: u64,
}

/// A baseline as a mathematical value.
#[verifier::ext_equal]
pub struct BaselineView {
    pub cols: u16,
    pub rows: u16,
    pub alt_active: bool,
    pub offset: usize,
    pub hashes: Seq<u64>,
    pub last_used: u64,
}

impl View for FrameBaseline {
    type V = BaselineView;

    open spec fn view(&self) -> BaselineView {
        BaselineView {
            cols: self.cols,
            rows: self.rows,
            alt_active: self.alt_active,
            offset: self.offset,
            hashes: self.hashes@,
            last_used: self.last_used,
        }
    }
}

impl Clone for FrameBaseline {
    fn clone(&self) -> (copy: Self)
        ensures
            copy@ == self@,
    {
        let hashes = self.hashes.clone();
        assert(hashes@ =~= self.hashes@);
        FrameBaseline {
            cols: self.cols,
            rows: self.rows,
            alt_active: self.alt_active,
            offset: self.offset,
            hashes,
            last_used: self.last_used,
        }
    }
}

/// One reply to a frame request.
#[derive(Debug, PartialEq, Eq)]
pub struct FrameReply {
    pub output_sequence: u64,
    pub cols: u16,
    pub rows: u16,
    pub cursor: (usize, usize),
    pub cursor_visible: bool,
    pub cursor_style: TerminalCursorStyle,
    pub cursor_animation: TerminalCursorAnimation,
    pub alt_active: bool,
    pub history_size: usize,
    pub offset: usize,
    pub modes: TerminalModes,
    pub full: bool,
    pub lines: Vec<FrameLine>,
}

/// A reply as a mathematical value.
#[verifier::ext_equal]
pub struct ReplyView {
    pub output_sequence: u64,
    pub cols: u16,
    pub rows: u16,
    pub cursor: (usize, usize),
    pub cursor_visible: bool,
    pub cursor_style: TerminalCursorStyle,
    pub cursor_animation: TerminalCursorAnimation,
    pub alt_active: bool,
    pub history_size: usize,
    pub offset: usize,
    pub modes: TerminalModes,
    pub full: bool,
    pub lines: Seq<LineView>,
}

impl View for FrameReply {
    type V = ReplyView;

    open spec fn view(&self) -> ReplyView {
        ReplyView {
            output_sequence: self.output_sequence,
            cols: self.cols,
            rows: self.rows,
            cursor: self.cursor,
            cursor_visible: self.cursor_visible,
            cursor_style: self.cursor_style,
            cursor_animation: self.cursor_animation,
            alt_active: self.alt_active,
            history_size: self.history_size,
            offset: self.offset,
            modes: self.modes,
            full: self.full,
            lines: frame::lines_view(self.lines@),
        }
    }
}

impl Clone for FrameReply {
    fn clone(&self) -> (copy: Self)
        ensures
            copy@ == self@,
    {
        FrameReply {
            output_sequence: self.output_sequence,
            cols: self.cols,
            rows: self.rows,
            cursor: self.cursor,
            cursor_visible: self.cursor_visible,
            cursor_style: self.cursor_style,
            cursor_animation: self.cursor_animation,
            alt_active: self.alt_active,
            history_size: self.history_size,
            offset: self.offset,
            modes: self.modes,
            full: self.full,
            lines: frame::copy_lines(&self.lines),
        }
    }
}

/// The whole picture of a frame.
pub open spec fn full_reply(frame: FrameView, output_sequence: u64) -> ReplyView {
    ReplyView {
        output_sequence,
        cols: frame.cols,
        rows: frame.rows,
        cursor: frame.cursor,
        cursor_visible: frame.cursor_visible,
        cursor_style: frame.cursor_style,
        cursor_animation: frame.cursor_animation,
        alt_active: frame.alt_active,
        history_size: frame.history_size,
        offset: frame.offset,
        modes: frame.modes,
        full: true,
        lines: frame.lines,
    }
}

impl FrameReply {
    /// The whole picture of `frame`.
    pub fn full(frame: &TerminalFrame, output_sequence: u64) -> (reply: Self)
        ensures
            reply@ == full_reply(frame@, output_sequence),
    {
        FrameReply {
            output_sequence,
            cols: frame.cols,
            rows: frame.rows,
            cursor: frame.cursor,
            cursor_visible: frame.cursor_visible,
            cursor_style: frame.cursor_style,
            cursor_animation: frame.cursor_animation,
            alt_active: frame.alt_active,
            history_size: frame.history_size,
            offset: frame.offset,
            modes: frame.modes,
            full: true,
            lines: frame::copy_lines(&frame.lines),
        }
    }
}

/// Whether `baseline` describes a picture of the same geometry as `frame`.
pub open spec fn same_geometry(baseline: BaselineView, frame: FrameView) -> bool {
    &&& baseline.cols == frame.cols
    &&& baseline.rows == frame.rows
    &&& baseline.alt_active == frame.alt_active
    &&& baseline.offset == frame.offset
    &&& baseline.hashes.len() == frame.lines.len()
}

/// The lines whose hash differs from the one kept for their place.
pub open spec fn changed_lines(lines: Seq<LineView>, before: Seq<u64>) -> Seq<LineView>
    decreases lines.len(),
{
    if lines.len() == 0 {
        Seq::empty()
    } else {
        let earlier = changed_lines(lines.drop_last(), before);
        if hash_of(lines.last()) != before[lines.len() - 1] {
            earlier.push(lines.last())
        } else {
            earlier
        }
    }
}

/// The reply for `frame` against `baseline`: full when there is no baseline or the geometry
/// moved, otherwise only the rows whose hash changed.
pub open spec fn delta_reply(
    baseline: Option<BaselineView>,
    frame: FrameView,
    output_sequence: u64,
) -> ReplyView {
    match baseline {
        Some(previous) if same_geometry(previous, frame) => ReplyView {
            full: false,
            lines: changed_lines(frame.lines, previous.hashes),
            ..full_reply(frame, output_sequence)
        },
        _ => full_reply(frame, output_sequence),
    }
}

/// The baseline to keep once a subscriber holds the picture of `frame`.
pub open spec fn next_baseline(baseline: Option<BaselineView>, frame: FrameView) -> BaselineView {
    BaselineView {
        cols: frame.cols,
        rows: frame.rows,
        alt_active: frame.alt_active,
        offset: frame.offset,
        hashes: hashes_of(frame.lines),
        last_used: match baseline {
            Some(previous) => previous.last_used,
            None => 0,
        },
    }
}

/// The view of an optional baseline.
pub open spec fn baseline_view(baseline: Option<&FrameBaseline>) -> Option<BaselineView> {
    match baseline {
        Some(baseline) => Some(baseline@),
        None => None,
    }
}

fn unchanged_geometry(baseline: &FrameBaseline, frame: &TerminalFrame) -> (same: bool)
    ensures
        same == same_geometry(baseline@, frame@),
{
    baseline.cols == frame.cols && baseline.rows == frame.rows && baseline.alt_active
        == frame.alt_active && baseline.offset == frame.offset && baseline.hashes.len()
        == frame.lines.len()
}

/// The reply for `frame` against `baseline`, and the baseline to keep afterwards. Full when there
/// is no baseline or `(cols, rows, alt_active, offset)` moved; otherwise only rows whose hash
/// changed.
pub fn delta(baseline: Option<&FrameBaseline>, frame: &TerminalFrame, output_sequence: u64) -> (r: (
    FrameReply,
    FrameBaseline,
))
    ensures
        r.0@ == delta_reply(baseline_view(baseline), frame@, output_sequence),
        r.1@ == next_baseline(baseline_view(baseline), frame@),
{
    let ghost lines = frame::lines_view(frame.lines@);
    let mut hashes: Vec<u64> = Vec::new();
    let mut i: usize = 0;
    while i < frame.lines.len()
        invariant
            lines == frame::lines_view(frame.lines@),
            i <= frame.lines@.len(),
            hashes@.len() == i,
            forall|j: int| 0 <= j < i ==> hashes@[j] == hash_of(lines[j]),
        decreases frame.lines@.len() - i,
    {
        hashes.push(line_hash(&frame.lines[i]));
        i = i + 1;
    }
    assert(hashes@ =~= hashes_of(lines));
    let mut reply = FrameReply::full(frame, output_sequence);
    let mut last_used: u64 = 0;
    if let Some(previous) = baseline {
        last_used = previous.last_used;
        if unchanged_geometry(previous, frame) {
            let mut changed: Vec<FrameLine> = Vec::new();
            let mut k: usize = 0;
            assert(lines.take(0) =~= Seq::<LineView>::empty());
            assert(frame::lines_view(changed@) =~= changed_lines(
                lines.take(0),
                previous.hashes@,
            ));
            while k < frame.lines.len()
                invariant
                    lines == frame::lines_view(frame.lines@),
                    hashes@ == hashes_of(lines),
                    previous.hashes@.len() == frame.lines@.len(),
                    k <= frame.lines@.len(),
                    frame::lines_view(changed@) == changed_lines(
                        lines.take(k as int),
                        previous.hashes@,
                    ),
                decreases frame.lines@.len() - k,
            {
                let ghost before = frame::lines_view(changed@);
                assert(lines.take(k + 1).drop_last() =~= lines.take(k as int));
                if hashes[k] != previous.hashes[k] {
                    changed.push(frame.lines[k].clone());
                    assert(frame::lines_view(changed@) =~= before.push(lines[k as int]));
                }
                k = k + 1;
            }
            assert(lines.take(k as int) =~= lines);
            reply.full = false;
            reply.lines = changed;
        }
    }
    let next = FrameBaseline {
        cols: frame.cols,
        rows: frame.rows,
        alt_active: frame.alt_active,
        offset: frame.offset,
        hashes,
        last_used,
    };
    (reply, next)
}

/// The first place at or after `from` whose row number is `y`, or the length when there is none.
pub open spec fn place_of(lines: Seq<LineView>, y: u16, from: int) -> int
    decreases lines.len() - from,
{
    if from >= lines.len() || lines[from].y == y {
        from
    } else {
        place_of(lines, y, from + 1)
    }
}

/// `lines` with `line` in the place of the first line of its row, or at the end.
pub open spec fn put_line(lines: Seq<LineView>, line: LineView) -> Seq<LineView> {
    let place = place_of(lines, line.y, 0);
    if place < lines.len() {
        lines.update(place, line)
    } else {
        lines.push(line)
    }
}

/// `lines` after every update is put in its place, in order.
pub open spec fn put_lines(lines: Seq<LineView>, updates: Seq<LineView>) -> Seq<LineView>
    decreases updates.len(),
{
    if updates.len() == 0 {
        lines
    } else {
        put_line(put_lines(lines, updates.drop_last()), updates.last())
    }
}

/// `line` inserted behind every line whose row is not below it.
pub open spec fn insert_by_row(lines: Seq<LineView>, line: LineView) -> Seq<LineView>
    decreases lines.len(),
{
    if lines.len() > 0 && lines.last().y > line.y {
        insert_by_row(lines.drop_last(), line).push(lines.last())
    } else {
        lines.push(line)
    }
}

/// The lines by ascending row; lines of one row keep their order.
pub open spec fn by_row(lines: Seq<LineView>) -> Seq<LineView>
    decreases lines.len(),
{
    if lines.len() == 0 {
        Seq::empty()
    } else {
        insert_by_row(by_row(lines.drop_last()), lines.last())
    }
}

/// The picture after `reply` arrives on top of `previous`.
pub open spec fn applied(previous: ReplyView, reply: ReplyView) -> ReplyView {
    if reply.full {
        reply
    } else {
        ReplyView { full: true, lines: by_row(put_lines(previous.lines, reply.lines)), ..reply }
    }
}

fn put(lines: &mut Vec<FrameLine>, line: FrameLine)
    ensures
        frame::lines_view(final(lines)@) == put_line(frame::lines_view(old(lines)@), line@),
{
    let ghost before = frame::lines_view(lines@);
    let mut i: usize = 0;
    while i < lines.len() && lines[i].y != line.y
        invariant
            before == frame::lines_view(lines@),
            i <= lines@.len(),
            place_of(before, line.y, i as int) == place_of(before, line.y, 0),
        decreases lines@.len() - i,
    {
        i = i + 1;
    }
    assert(place_of(before, line.y, 0) == i);
    if i < lines.len() {
        lines.set(i, line);
        assert(frame::lines_view(lines@) =~= before.update(i as int, line@));
    } else {
        lines.push(line);
        assert(frame::lines_view(lines@) =~= before.push(line@));
    }
}

proof fn lemma_insert_by_row_split(lines: Seq<LineView>, line: LineView, at: int)
    requires
        0 <= at <= lines.len(),
        at == 0 || lines[at - 1].y <= line.y,
        forall|j: int| at <= j < lines.len() ==> (#[trigger] lines[j]).y > line.y,
    ensures
        insert_by_row(lines, line) == lines.insert(at, line),
    decreases lines.len(),
{
    if at < lines.len() {
        lemma_insert_by_row_split(lines.drop_last(), line, at);
        assert(lines.last() == lines[lines.len() - 1]);
        assert(lines.insert(at, line) =~= lines.drop_last().insert(at, line).push(lines.last()));
    } else {
        assert(lines.insert(at, line) =~= lines.push(line));
    }
}

fn insert_sorted(lines: &mut Vec<FrameLine>, line: FrameLine)
    ensures
        frame::lines_view(final(lines)@) == insert_by_row(frame::lines_view(old(lines)@), line@),
{
    let ghost before = frame::lines_view(lines@);
    let mut at: usize = lines.len();
    while at > 0 && lines[at - 1].y > line.y
        invariant
            before == frame::lines_view(lines@),
            at <= lines@.len(),
            forall|j: int| at <= j < before.len() ==> (#[trigger] before[j]).y > line.y,
        decreases at,
    {
        assert(before[at - 1] == lines@[at - 1]@);
        at = at - 1;
    }
    proof {
        if at > 0 {
            assert(before[at - 1] == lines@[at - 1]@);
        }
        lemma_insert_by_row_split(before, line@, at as int);
    }
    lines.insert(at, line);
    assert(frame::lines_view(lines@) =~= before.insert(at as int, line@));
}

/// The reference fold, shared with the contract and transcribed by viewers: a full reply
/// replaces the picture; a delta replaces every header field and the rows it names.
pub fn apply(previous: &FrameReply, reply: &FrameReply) -> (picture: FrameReply)
    ensures
        picture@ == applied(previous@, reply@),
{
    if reply.full {
        return reply.clone();
    }
    let mut lines = frame::copy_lines(&previous.lines);
    let ghost updates = frame::lines_view(reply.lines@);
    let mut i: usize = 0;
    assert(updates.take(0) =~= Seq::<LineView>::empty());
    while i < reply.lines.len()
        invariant
            updates == frame::lines_view(reply.lines@),
            i <= reply.lines@.len(),
            frame::lines_view(lines@) == put_lines(previous@.lines, updates.take(i as int)),
        decreases reply.lines@.len() - i,
    {
        put(&mut lines, reply.lines[i].clone());
        assert(updates.take(i + 1).drop_last() =~= updates.take(i as int));
        i = i + 1;
    }
    assert(updates.take(i as int) =~= updates);
    let ghost merged = frame::lines_view(lines@);
    let mut sorted: Vec<FrameLine> = Vec::new();
    let mut k: usize = 0;
    assert(merged.take(0) =~= Seq::<LineView>::empty());
    assert(frame::lines_view(sorted@) =~= by_row(merged.take(0)));
    while k < lines.len()
        invariant
            merged == frame::lines_view(lines@),
            k <= lines@.len(),
            frame::lines_view(sorted@) == by_row(merged.take(k as int)),
        decreases lines@.len() - k,
    {
        insert_sorted(&mut sorted, lines[k].clone());
        assert(merged.take(k + 1).drop_last() =~= merged.take(k as int));
        k = k + 1;
    }
    assert(merged.take(k as int) =~= merged);
    FrameReply {
        output_sequence: reply.output_sequence,
        cols: reply.cols,
        rows: reply.rows,
        cursor: reply.cursor,
        cursor_visible: reply.cursor_visible,
        cursor_style: reply.cursor_style,
        cursor_animation: reply.cursor_animation,
        alt_active: reply.alt_active,
        history_size: reply.history_size,
        offset: reply.offset,
        modes: reply.modes,
        full: true,
        lines: sorted,
    }
}

/// Whether every line stands at the place of its row number.
pub open spec fn numbered(lines: Seq<LineView>) -> bool {
    forall|i: int| 0 <= i < lines.len() ==> (#[trigger] lines[i]).y == i
}

/// Whether two lines in one place of two pictures are told apart by their hashes.
pub open spec fn told_apart(before: Seq<LineView>, after: Seq<LineView>) -> bool {
    forall|i: int|
        0 <= i < before.len() && i < after.len() && hash_of(#[trigger] before[i]) == hash_of(
            after[i],
        ) ==> before[i] == after[i]
}

proof fn lemma_place_of_numbered(lines: Seq<LineView>, y: u16, from: int)
    requires
        numbered(lines),
        0 <= from <= y < lines.len(),
    ensures
        place_of(lines, y, from) == y,
    decreases y - from,
{
    assert(lines[from].y == from);
    if from < y {
        lemma_place_of_numbered(lines, y, from + 1);
    }
}

proof fn lemma_changed_lines_put(before: Seq<LineView>, after: Seq<LineView>, k: int)
    requires
        numbered(before),
        numbered(after),
        before.len() == after.len(),
        told_apart(before, after),
        0 <= k <= after.len(),
    ensures
        put_lines(before, changed_lines(after.take(k), hashes_of(before))) == after.take(k)
            + before.skip(k),
    decreases k,
{
    let hashes = hashes_of(before);
    if k == 0 {
        assert(after.take(0) =~= Seq::<LineView>::empty());
        assert(after.take(k) + before.skip(k) =~= before);
    } else {
        lemma_changed_lines_put(before, after, k - 1);
        let prefix = after.take(k);
        let mixed = after.take(k - 1) + before.skip(k - 1);
        let line = after[k - 1];
        assert(prefix.drop_last() =~= after.take(k - 1));
        assert(prefix.last() == line);
        assert(hashes[k - 1] == hash_of(before[k - 1]));
        let earlier = changed_lines(after.take(k - 1), hashes);
        if hash_of(line) != hashes[k - 1] {
            let updates = earlier.push(line);
            assert(updates.drop_last() =~= earlier);
            assert(numbered(mixed)) by {
                assert forall|i: int| 0 <= i < mixed.len() implies (#[trigger] mixed[i]).y == i by {
                    if i < k - 1 {
                        assert(mixed[i] == after[i]);
                    } else {
                        assert(mixed[i] == before[i]);
                    }
                }
            }
            assert(line.y == k - 1);
            lemma_place_of_numbered(mixed, line.y, 0);
            assert(mixed.update(k - 1, line) =~= prefix + before.skip(k));
        } else {
            assert(before[k - 1] == line);
            assert(mixed =~= prefix + before.skip(k));
        }
    }
}

proof fn lemma_by_row_of_numbered(lines: Seq<LineView>)
    requires
        numbered(lines),
    ensures
        by_row(lines) == lines,
    decreases lines.len(),
{
    if lines.len() > 0 {
        let rest = lines.drop_last();
        assert(numbered(rest)) by {
            assert forall|i: int| 0 <= i < rest.len() implies (#[trigger] rest[i]).y == i by {
                assert(rest[i] == lines[i]);
            }
        }
        lemma_by_row_of_numbered(rest);
        if rest.len() > 0 {
            assert(rest.last() == lines[rest.len() - 1]);
            assert(lines.last() == lines[lines.len() - 1]);
        }
        assert(rest.push(lines.last()) =~= lines);
    }
}

/// A viewer that holds the picture of one frame and folds in the reply for the next frame, taken
/// against the baseline kept with the first, holds exactly the picture of the next frame. Folding
/// one reply after another therefore always gives the latest frame. The rows of both frames are
/// numbered from the top, and rows whose hashes agree are equal.
pub proof fn law_applied_delta_is_the_next_frame(
    picture: ReplyView,
    baseline: BaselineView,
    before: FrameView,
    after: FrameView,
    earlier: Option<BaselineView>,
    earlier_sequence: u64,
    output_sequence: u64,
)
    requires
        picture == full_reply(before, earlier_sequence),
        baseline == next_baseline(earlier, before),
        numbered(before.lines),
        numbered(after.lines),
        told_apart(before.lines, after.lines),
    ensures
        applied(picture, delta_reply(Some(baseline), after, output_sequence)) == full_reply(
            after,
            output_sequence,
        ),
{
    if same_geometry(baseline, after) {
        let n = after.lines.len() as int;
        lemma_changed_lines_put(before.lines, after.lines, n);
        assert(after.lines.take(n) =~= after.lines);
        assert(after.lines + before.lines.skip(n) =~= after.lines);
        lemma_by_row_of_numbered(after.lines);
    }
}

/// Whether the row numbers never fall.
pub open spec fn ascending(lines: Seq<LineView>) -> bool {
    forall|i: int, j: int| 0 <= i <= j < lines.len() ==> (#[trigger] lines[i]).y <= (
    #[trigger] lines[j]).y
}

proof fn lemma_insert_by_row(lines: Seq<LineView>, line: LineView)
    requires
        ascending(lines),
    ensures
        ascending(insert_by_row(lines, line)),
        insert_by_row(lines, line).to_multiset() == lines.to_multiset().insert(line),
        insert_by_row(lines, line).len() == lines.len() + 1,
        insert_by_row(lines, line).last().y == line.y || (lines.len() > 0 && insert_by_row(
            lines,
            line,
        ).last() == lines.last()),
    decreases lines.len(),
{
    broadcast use vstd::seq_lib::group_to_multiset_ensures;

    if lines.len() > 0 && lines.last().y > line.y {
        let rest = lines.drop_last();
        let last = lines.last();
        assert(ascending(rest)) by {
            assert forall|i: int, j: int| 0 <= i <= j < rest.len() implies (#[trigger] rest[i]).y
                <= (#[trigger] rest[j]).y by {
                assert(rest[i] == lines[i] && rest[j] == lines[j]);
            }
        }
        lemma_insert_by_row(rest, line);
        let inserted = insert_by_row(rest, line);
        assert(lines =~= rest.push(last));
        assert(inserted.push(last).to_multiset() =~= lines.to_multiset().insert(line));
        assert(inserted.last().y <= last.y) by {
            if rest.len() > 0 {
                assert(rest.last() == lines[rest.len() - 1]);
                assert(lines[rest.len() - 1].y <= lines[lines.len() - 1].y);
            }
        }
        let whole = inserted.push(last);
        assert forall|i: int, j: int| 0 <= i <= j < whole.len() implies (#[trigger] whole[i]).y
            <= (#[trigger] whole[j]).y by {
            if j < inserted.len() {
                assert(whole[i] == inserted[i] && whole[j] == inserted[j]);
            } else if i < inserted.len() {
                assert(whole[i] == inserted[i]);
                assert(inserted[i].y <= inserted[inserted.len() - 1].y);
            }
        }
    } else {
        let whole = lines.push(line);
        assert forall|i: int, j: int| 0 <= i <= j < whole.len() implies (#[trigger] whole[i]).y
            <= (#[trigger] whole[j]).y by {
            if j < lines.len() {
                assert(whole[i] == lines[i] && whole[j] == lines[j]);
            } else if i < lines.len() {
                assert(whole[i] == lines[i]);
                assert(lines[i].y <= lines[lines.len() - 1].y);
            }
        }
    }
}

/// Whatever arrives, the picture's rows are in ascending order, and they are exactly the rows of
/// the merged picture.
pub proof fn law_applied_rows_are_sorted(lines: Seq<LineView>)
    ensures
        ascending(by_row(lines)),
        by_row(lines).to_multiset() == lines.to_multiset(),
    decreases lines.len(),
{
    broadcast use vstd::seq_lib::group_to_multiset_ensures;

    if lines.len() > 0 {
        law_applied_rows_are_sorted(lines.drop_last());
        lemma_insert_by_row(by_row(lines.drop_last()), lines.last());
        assert(lines =~= lines.drop_last().push(lines.last()));
    } else {
        assert(by_row(lines) =~= lines);
    }
}

proof fn lemma_place(lines: Seq<LineView>, y: u16, from: int)
    requires
        0 <= from <= lines.len(),
    ensures
        from <= place_of(lines, y, from) <= lines.len(),
        place_of(lines, y, from) < lines.len() ==> lines[place_of(lines, y, from)].y == y,
        forall|j: int| from <= j < place_of(lines, y, from) ==> (#[trigger] lines[j]).y != y,
    decreases lines.len() - from,
{
    if from < lines.len() && lines[from].y != y {
        lemma_place(lines, y, from + 1);
    }
}

proof fn lemma_place_is(lines: Seq<LineView>, y: u16, at: int)
    requires
        0 <= at < lines.len(),
        lines[at].y == y,
        forall|j: int| 0 <= j < at ==> (#[trigger] lines[j]).y != y,
    ensures
        place_of(lines, y, 0) == at,
{
    lemma_place(lines, y, 0);
    let found = place_of(lines, y, 0);
    if found < at {
        assert(lines[found].y != y);
    }
}

/// The last of some lines that is for row `y`.
pub open spec fn last_for(lines: Seq<LineView>, y: u16) -> Option<LineView>
    decreases lines.len(),
{
    if lines.len() == 0 {
        None
    } else if lines.last().y == y {
        Some(lines.last())
    } else {
        last_for(lines.drop_last(), y)
    }
}

proof fn lemma_put_holds_the_last(lines: Seq<LineView>, updates: Seq<LineView>, y: u16)
    ensures
        last_for(updates, y) matches Some(line) ==> ({
            let merged = put_lines(lines, updates);
            place_of(merged, y, 0) < merged.len() && merged[place_of(merged, y, 0)] == line
        }),
    decreases updates.len(),
{
    if updates.len() > 0 {
        let line = updates.last();
        let before = put_lines(lines, updates.drop_last());
        let after = put_lines(lines, updates);
        lemma_put_holds_the_last(lines, updates.drop_last(), y);
        lemma_place(before, line.y, 0);
        lemma_place(before, y, 0);
        let at = place_of(before, line.y, 0);
        let found = place_of(before, y, 0);
        if line.y == y {
            assert forall|j: int| 0 <= j < at implies (#[trigger] after[j]).y != y by {
                assert(before[j].y != y);
            }
            lemma_place_is(after, y, at);
        } else if last_for(updates, y) is Some {
            assert forall|j: int| 0 <= j < found implies (#[trigger] after[j]).y != y by {
                assert(before[j].y != y);
            }
            lemma_place_is(after, y, found);
        }
    }
}

proof fn lemma_put_values(lines: Seq<LineView>, updates: Seq<LineView>)
    requires
        forall|y: u16|
            (#[trigger] last_for(updates, y)) is Some ==> place_of(lines, y, 0) < lines.len(),
    ensures
        put_lines(lines, updates).len() == lines.len(),
        forall|i: int|
            0 <= i < lines.len() ==> #[trigger] put_lines(lines, updates)[i] == match last_for(
                updates,
                lines[i].y,
            ) {
                Some(line) if place_of(lines, lines[i].y, 0) == i => line,
                _ => lines[i],
            },
        forall|i: int|
            0 <= i < lines.len() ==> (#[trigger] put_lines(lines, updates)[i]).y == lines[i].y,
    decreases updates.len(),
{
    if updates.len() > 0 {
        let line = updates.last();
        let earlier = updates.drop_last();
        assert forall|y: u16| (#[trigger] last_for(earlier, y)) is Some implies place_of(lines, y, 0)
            < lines.len() by {
            assert(last_for(updates, y) is Some);
        }
        lemma_put_values(lines, earlier);
        let before = put_lines(lines, earlier);
        let after = put_lines(lines, updates);
        assert(last_for(updates, line.y) is Some);
        lemma_place(lines, line.y, 0);
        let at = place_of(lines, line.y, 0);
        assert forall|j: int| 0 <= j < at implies (#[trigger] before[j]).y != line.y by {
            assert(lines[j].y != line.y);
        }
        lemma_place_is(before, line.y, at);
        assert(after == before.update(at, line));
        assert forall|i: int| 0 <= i < lines.len() implies #[trigger] after[i] == match last_for(
            updates,
            lines[i].y,
        ) {
            Some(line) if place_of(lines, lines[i].y, 0) == i => line,
            _ => lines[i],
        } by {
            assert(before[i].y == lines[i].y);
        }
        assert forall|i: int| 0 <= i < lines.len() implies (#[trigger] after[i]).y
            == lines[i].y by {
            assert(before[i].y == lines[i].y);
        }
    }
}

proof fn lemma_insert_keeps_the_first(lines: Seq<LineView>, line: LineView, y: u16)
    requires
        ascending(lines),
    ensures
        ({
            let after = insert_by_row(lines, line);
            let (was, is) = (place_of(lines, y, 0), place_of(after, y, 0));
            &&& was < lines.len() ==> is < after.len() && after[is] == lines[was]
            &&& was >= lines.len() && line.y == y ==> is < after.len() && after[is] == line
        }),
{
    lemma_place(lines, y, 0);
    let was = place_of(lines, y, 0);
    let at = lemma_insert_point(lines, line);
    let after = insert_by_row(lines, line);
    if was < lines.len() {
        let is = if was < at {
            was
        } else {
            was + 1
        };
        assert(after[is] == lines[was]);
        assert forall|j: int| 0 <= j < is implies (#[trigger] after[j]).y != y by {
            if j < at {
                assert(after[j] == lines[j]);
            } else if j == at {
                assert(lines[was].y > line.y);
            } else {
                assert(after[j] == lines[j - 1]);
            }
        }
        lemma_place_is(after, y, is);
    } else if line.y == y {
        assert forall|j: int| 0 <= j < at implies (#[trigger] after[j]).y != y by {
            assert(after[j] == lines[j]);
        }
        lemma_place_is(after, y, at);
    }
}

proof fn lemma_insert_point(lines: Seq<LineView>, line: LineView) -> (at: int)
    requires
        ascending(lines),
    ensures
        0 <= at <= lines.len(),
        insert_by_row(lines, line) == lines.insert(at, line),
        forall|j: int| at <= j < lines.len() ==> (#[trigger] lines[j]).y > line.y,
        forall|j: int| 0 <= j < at ==> (#[trigger] lines[j]).y <= line.y,
    decreases lines.len(),
{
    if lines.len() > 0 && lines.last().y > line.y {
        let rest = lines.drop_last();
        assert(ascending(rest)) by {
            assert forall|i: int, j: int| 0 <= i <= j < rest.len() implies (#[trigger] rest[i]).y
                <= (#[trigger] rest[j]).y by {
                assert(rest[i] == lines[i] && rest[j] == lines[j]);
            }
        }
        let at = lemma_insert_point(rest, line);
        assert forall|j: int| at <= j < lines.len() implies (#[trigger] lines[j]).y > line.y by {
            if j < rest.len() {
                assert(rest[j] == lines[j]);
            }
        }
        assert forall|j: int| 0 <= j < at implies (#[trigger] lines[j]).y <= line.y by {
            assert(rest[j] == lines[j]);
        }
        assert(lines.insert(at, line) =~= rest.insert(at, line).push(lines.last()));
        at
    } else {
        let at = lines.len() as int;
        assert forall|j: int| 0 <= j < at implies (#[trigger] lines[j]).y <= line.y by {
            assert(lines[j].y <= lines[at - 1].y);
        }
        assert(lines.insert(at, line) =~= lines.push(line));
        at
    }
}

proof fn lemma_sorting_keeps_the_first(lines: Seq<LineView>, y: u16)
    ensures
        place_of(lines, y, 0) < lines.len() ==> ({
            let sorted = by_row(lines);
            place_of(sorted, y, 0) < sorted.len() && sorted[place_of(sorted, y, 0)]
                == lines[place_of(lines, y, 0)]
        }),
    decreases lines.len(),
{
    if lines.len() > 0 {
        let rest = lines.drop_last();
        let line = lines.last();
        lemma_sorting_keeps_the_first(rest, y);
        law_applied_rows_are_sorted(rest);
        lemma_insert_keeps_the_first(by_row(rest), line, y);
        lemma_place(lines, y, 0);
        lemma_place(rest, y, 0);
        let found = place_of(lines, y, 0);
        if found < rest.len() {
            assert forall|j: int| 0 <= j < found implies (#[trigger] rest[j]).y != y by {
                assert(rest[j] == lines[j]);
            }
            lemma_place_is(rest, y, found);
        } else if found < lines.len() {
            lemma_no_first_after_sorting(rest, y);
        }
    }
}

proof fn lemma_no_first_after_sorting(lines: Seq<LineView>, y: u16)
    requires
        forall|j: int| 0 <= j < lines.len() ==> (#[trigger] lines[j]).y != y,
    ensures
        place_of(by_row(lines), y, 0) >= by_row(lines).len(),
{
    broadcast use vstd::seq_lib::group_to_multiset_ensures;

    let sorted = by_row(lines);
    law_applied_rows_are_sorted(lines);
    lemma_place(sorted, y, 0);
    let found = place_of(sorted, y, 0);
    if found < sorted.len() {
        assert(sorted.contains(sorted[found]));
        assert(sorted.to_multiset().count(sorted[found]) > 0);
        assert(lines.contains(sorted[found]));
    }
}

proof fn lemma_sorting_sorted(lines: Seq<LineView>)
    requires
        ascending(lines),
    ensures
        by_row(lines) == lines,
    decreases lines.len(),
{
    if lines.len() > 0 {
        let rest = lines.drop_last();
        assert(ascending(rest)) by {
            assert forall|i: int, j: int| 0 <= i <= j < rest.len() implies (#[trigger] rest[i]).y
                <= (#[trigger] rest[j]).y by {
                assert(rest[i] == lines[i] && rest[j] == lines[j]);
            }
        }
        lemma_sorting_sorted(rest);
        if rest.len() > 0 {
            assert(lines[rest.len() - 1].y <= lines[lines.len() - 1].y);
        }
        assert(rest.push(lines.last()) =~= lines);
    }
}

/// Receiving one reply twice does no harm: the picture stays what it was after the first time. It is
/// always a full one.
pub proof fn law_reply_received_twice_changes_nothing(previous: ReplyView, reply: ReplyView)
    ensures
        applied(applied(previous, reply), reply) == applied(previous, reply),
        applied(previous, reply).full,
{
    if !reply.full {
        let updates = reply.lines;
        let merged = put_lines(previous.lines, updates);
        let picture = by_row(merged);
        assert forall|y: u16| (#[trigger] last_for(updates, y)) is Some implies place_of(picture, y, 0)
            < picture.len() && picture[place_of(picture, y, 0)] == last_for(updates, y)->0 by {
            lemma_put_holds_the_last(previous.lines, updates, y);
            lemma_sorting_keeps_the_first(merged, y);
        }
        lemma_put_values(picture, updates);
        let again = put_lines(picture, updates);
        assert forall|i: int| 0 <= i < picture.len() implies again[i] == picture[i] by {
            let y = picture[i].y;
            assert(last_for(updates, y) is Some ==> picture[place_of(picture, y, 0)] == last_for(
                updates,
                y,
            )->0);
        }
        assert(again =~= picture);
        law_applied_rows_are_sorted(merged);
        lemma_sorting_sorted(picture);
    }
}

} // verus!
