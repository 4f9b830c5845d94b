//! What hashing tells apart: bytes that are hashed determine what they stand for, so that only two
//! hashes that happen to be equal can hide a change.

use vstd::prelude::*;

use crate::cells::{CellView, TerminalColor};
use crate::checkpoint;
use crate::delta::{self, BaselineView};
use crate::fnv;
use crate::frame::{FrameView, LineView, RunView};
use crate::render::painter;
use crate::text;

verus! {

proof fn lemma_valid_utf8_bytes(bytes: Seq<u8>)
    requires
        vstd::utf8::valid_utf8(bytes),
    ensures
        forall|i: int| 0 <= i < bytes.len() ==> #[trigger] bytes[i] < 0xf8,
    decreases bytes.len(),
{
    if bytes.len() > 0 {
        let rest = vstd::utf8::pop_first_scalar(bytes);
        let n = vstd::utf8::length_of_first_scalar(bytes);
        lemma_valid_utf8_bytes(rest);
        assert forall|i: int| 0 <= i < bytes.len() implies #[trigger] bytes[i] < 0xf8 by {
            if i >= n {
                assert(bytes[i] == rest[i - n]);
            }
        }
    }
}

/// UTF-8 holds no byte from 0xf8 on.
pub proof fn lemma_utf8_bytes(chars: Seq<char>)
    ensures
        forall|i: int| 0 <= i < text::utf8(chars).len() ==> #[trigger] text::utf8(chars)[i] < 0xf8,
{
    vstd::utf8::encode_utf8_valid_utf8(chars);
    lemma_valid_utf8_bytes(text::utf8(chars));
}

/// Two texts with the same UTF-8 are the same.
pub proof fn lemma_utf8_distinct(a: Seq<char>, b: Seq<char>)
    requires
        text::utf8(a) == text::utf8(b),
    ensures
        a == b,
{
    vstd::utf8::encode_utf8_decode_utf8(a);
    vstd::utf8::encode_utf8_decode_utf8(b);
}

proof fn lemma_closed(a: Seq<u8>, x: Seq<u8>, b: Seq<u8>, y: Seq<u8>, mark: u8)
    requires
        forall|i: int| 0 <= i < a.len() ==> #[trigger] a[i] != mark,
        forall|i: int| 0 <= i < b.len() ==> #[trigger] b[i] != mark,
        a.push(mark) + x == b.push(mark) + y,
    ensures
        a == b,
        x == y,
{
    let (p, q) = (a.push(mark) + x, b.push(mark) + y);
    if a.len() < b.len() {
        assert(p[a.len() as int] == mark);
        assert(q[a.len() as int] == b[a.len() as int]);
    }
    if b.len() < a.len() {
        assert(q[b.len() as int] == mark);
        assert(p[b.len() as int] == a[b.len() as int]);
    }
    lemma_same_split(a.push(mark), x, b.push(mark), y);
    assert(a =~= a.push(mark).drop_last());
    assert(b =~= b.push(mark).drop_last());
}

/// Two sequences that are cut at the same place have the same parts.
pub proof fn lemma_same_split<T>(a: Seq<T>, x: Seq<T>, b: Seq<T>, y: Seq<T>)
    requires
        a.len() == b.len(),
        a + x == b + y,
    ensures
        a == b,
        x == y,
{
    let n = a.len() as int;
    assert(a =~= (a + x).take(n));
    assert(b =~= (b + y).take(n));
    assert(x =~= (a + x).skip(n));
    assert(y =~= (b + y).skip(n));
}

proof fn lemma_text_closed(a: Seq<char>, x: Seq<u8>, b: Seq<char>, y: Seq<u8>, mark: u8)
    requires
        mark >= 0xf8,
        text::utf8(a).push(mark) + x == text::utf8(b).push(mark) + y,
    ensures
        a == b,
        x == y,
{
    lemma_utf8_bytes(a);
    lemma_utf8_bytes(b);
    lemma_closed(text::utf8(a), x, text::utf8(b), y, mark);
    lemma_utf8_distinct(a, b);
}

proof fn lemma_le16(a: u16, b: u16)
    requires
        fnv::le16(a) == fnv::le16(b),
    ensures
        a == b,
{
    assert(fnv::le16(a)[0] == fnv::le16(b)[0] && fnv::le16(a)[1] == fnv::le16(b)[1]);
    assert(a == (a / 256) * 256 + a % 256);
    assert(b == (b / 256) * 256 + b % 256);
}

/// Two numbers with the same four bytes are the same.
pub proof fn lemma_le32(a: u32, b: u32)
    requires
        fnv::le32(a) == fnv::le32(b),
    ensures
        a == b,
{
    let (p, q) = (fnv::le32(a), fnv::le32(b));
    assert(p[0] == q[0] && p[1] == q[1] && p[2] == q[2] && p[3] == q[3]);
    assert(a == (a / 16777216) * 16777216 + (a / 65536 % 256) * 65536 + (a / 256 % 256) * 256 + a
        % 256);
    assert(b == (b / 16777216) * 16777216 + (b / 65536 % 256) * 65536 + (b / 256 % 256) * 256 + b
        % 256);
}

spec fn link_part(link: Option<Seq<char>>) -> Seq<u8> {
    match link {
        Some(link) => seq![1u8] + text::utf8(link),
        None => seq![0u8],
    }
}

proof fn lemma_link(a: Option<Seq<char>>, x: Seq<u8>, b: Option<Seq<char>>, y: Seq<u8>)
    requires
        link_part(a).push(0xfe) + x == link_part(b).push(0xfe) + y,
    ensures
        a == b,
        x == y,
{
    if let Some(link) = a {
        lemma_utf8_bytes(link);
    }
    if let Some(link) = b {
        lemma_utf8_bytes(link);
    }
    lemma_closed(link_part(a), x, link_part(b), y, 0xfe);
    assert(link_part(a)[0] == link_part(b)[0]);
    if let (Some(p), Some(q)) = (a, b) {
        lemma_same_split(seq![1u8], text::utf8(p), seq![1u8], text::utf8(q));
        lemma_utf8_distinct(p, q);
    }
}

proof fn lemma_regrouped(
    text: Seq<u8>,
    fg: Seq<u8>,
    bg: Seq<u8>,
    attrs: Seq<u8>,
    n: Seq<u8>,
    wide: Seq<u8>,
    link: Seq<u8>,
    rest: Seq<u8>,
)
    ensures
        text + fg + bg + attrs + n + wide + link + rest == text + (fg + (bg + ((attrs + n + wide) + (
        link + rest)))),
{
    assert(text + fg + bg + attrs + n + wide + link + rest =~= text + (fg + (bg + ((attrs + n + wide)
        + (link + rest)))));
}

spec fn counts_part(run: RunView) -> Seq<u8> {
    fnv::le16(run.attrs) + fnv::le32(run.n as u32) + seq![delta::flag_byte(run.wide)]
}

proof fn lemma_counts(a: RunView, b: RunView)
    requires
        a.n <= u32::MAX,
        b.n <= u32::MAX,
        counts_part(a) == counts_part(b),
    ensures
        a.attrs == b.attrs,
        a.n == b.n,
        a.wide == b.wide,
{
    let (p, q) = (counts_part(a), counts_part(b));
    assert(p[6] == q[6]);
    assert(p.take(2) =~= fnv::le16(a.attrs));
    assert(q.take(2) =~= fnv::le16(b.attrs));
    assert(p.subrange(2, 6) =~= fnv::le32(a.n as u32));
    assert(q.subrange(2, 6) =~= fnv::le32(b.n as u32));
    lemma_le16(a.attrs, b.attrs);
    lemma_le32(a.n as u32, b.n as u32);
}

spec fn grouped(run: RunView, rest: Seq<u8>) -> Seq<u8> {
    text::utf8(run.text).push(0xff) + (text::utf8(run.fg).push(0xff) + (text::utf8(run.bg).push(0xff)
        + (counts_part(run) + (link_part(run.link).push(0xfe) + rest))))
}

proof fn lemma_grouped(run: RunView, rest: Seq<u8>)
    ensures
        delta::run_bytes(run) + rest == grouped(run, rest),
{
    lemma_regrouped(
        text::utf8(run.text).push(0xff),
        text::utf8(run.fg).push(0xff),
        text::utf8(run.bg).push(0xff),
        fnv::le16(run.attrs),
        fnv::le32(run.n as u32),
        seq![delta::flag_byte(run.wide)],
        link_part(run.link).push(0xfe),
        rest,
    );
}

proof fn lemma_run(a: RunView, x: Seq<u8>, b: RunView, y: Seq<u8>)
    requires
        a.n <= u32::MAX,
        b.n <= u32::MAX,
        delta::run_bytes(a) + x == delta::run_bytes(b) + y,
    ensures
        a == b,
        x == y,
{
    lemma_grouped(a, x);
    lemma_grouped(b, y);
    let (end_a, end_b) = (link_part(a.link).push(0xfe) + x, link_part(b.link).push(0xfe) + y);
    let (tail_a, tail_b) = (counts_part(a) + end_a, counts_part(b) + end_b);
    let (bg_a, bg_b) = (
        text::utf8(a.bg).push(0xff) + tail_a,
        text::utf8(b.bg).push(0xff) + tail_b,
    );
    let (fg_a, fg_b) = (text::utf8(a.fg).push(0xff) + bg_a, text::utf8(b.fg).push(0xff) + bg_b);
    lemma_text_closed(a.text, fg_a, b.text, fg_b, 0xff);
    lemma_text_closed(a.fg, bg_a, b.fg, bg_b, 0xff);
    lemma_text_closed(a.bg, tail_a, b.bg, tail_b, 0xff);
    lemma_same_split(counts_part(a), end_a, counts_part(b), end_b);
    lemma_counts(a, b);
    lemma_link(a.link, x, b.link, y);
}

proof fn lemma_runs_start(runs: Seq<RunView>)
    requires
        runs.len() > 0,
    ensures
        delta::runs_bytes(runs) == delta::run_bytes(runs[0]) + delta::runs_bytes(runs.drop_first()),
    decreases runs.len(),
{
    if runs.len() == 1 {
        assert(runs.drop_last() =~= Seq::<RunView>::empty());
        assert(runs.drop_first() =~= Seq::<RunView>::empty());
        assert(delta::runs_bytes(runs) =~= delta::run_bytes(runs[0]) + delta::runs_bytes(
            runs.drop_first(),
        ));
    } else {
        let shorter = runs.drop_last();
        lemma_runs_start(shorter);
        assert(shorter.drop_first() =~= runs.drop_first().drop_last());
        assert(delta::runs_bytes(runs) =~= delta::run_bytes(runs[0]) + delta::runs_bytes(
            runs.drop_first(),
        ));
    }
}

proof fn lemma_run_holds_bytes(run: RunView)
    ensures
        delta::run_bytes(run).len() > 0,
{
}

proof fn lemma_behind_first(runs: Seq<RunView>)
    requires
        runs.len() > 0,
        forall|i: int| 0 <= i < runs.len() ==> (#[trigger] runs[i]).n <= u32::MAX,
    ensures
        forall|i: int|
            0 <= i < runs.drop_first().len() ==> (#[trigger] runs.drop_first()[i]).n <= u32::MAX,
        runs == seq![runs[0]] + runs.drop_first(),
        delta::runs_bytes(runs).len() > 0,
{
    assert forall|i: int| 0 <= i < runs.drop_first().len() implies (
    #[trigger] runs.drop_first()[i]).n <= u32::MAX by {
        assert(runs.drop_first()[i] == runs[i + 1]);
    }
    assert(runs =~= seq![runs[0]] + runs.drop_first());
    lemma_runs_start(runs);
    lemma_run_holds_bytes(runs[0]);
}

#[verifier::spinoff_prover]
proof fn lemma_runs(a: Seq<RunView>, b: Seq<RunView>)
    requires
        forall|i: int| 0 <= i < a.len() ==> (#[trigger] a[i]).n <= u32::MAX,
        forall|i: int| 0 <= i < b.len() ==> (#[trigger] b[i]).n <= u32::MAX,
        delta::runs_bytes(a) == delta::runs_bytes(b),
    ensures
        a == b,
    decreases a.len(),
{
    if a.len() == 0 || b.len() == 0 {
        if a.len() > 0 {
            lemma_behind_first(a);
        }
        if b.len() > 0 {
            lemma_behind_first(b);
        }
        assert(a =~= b);
    } else {
        lemma_behind_first(a);
        lemma_behind_first(b);
        lemma_runs_start(a);
        lemma_runs_start(b);
        lemma_run(
            a[0],
            delta::runs_bytes(a.drop_first()),
            b[0],
            delta::runs_bytes(b.drop_first()),
        );
        lemma_runs(a.drop_first(), b.drop_first());
    }
}

/// The bytes of a line that are hashed determine it: text, colors, attributes, width and link of
/// every run, and whether it wraps. Only a collision of the hash itself, and no field that was left
/// out of it, can keep a changed row from being sent.
pub proof fn law_hashed_bytes_determine_the_line(a: LineView, b: LineView)
    requires
        forall|i: int| 0 <= i < a.runs.len() ==> (#[trigger] a.runs[i]).n <= u32::MAX,
        forall|i: int| 0 <= i < b.runs.len() ==> (#[trigger] b.runs[i]).n <= u32::MAX,
        delta::line_bytes(a) == delta::line_bytes(b),
    ensures
        a.wrapped == b.wrapped,
        a.runs == b.runs,
{
    lemma_same_split(
        seq![delta::flag_byte(a.wrapped)],
        delta::runs_bytes(a.runs),
        seq![delta::flag_byte(b.wrapped)],
        delta::runs_bytes(b.runs),
    );
    assert(seq![delta::flag_byte(a.wrapped)][0] == seq![delta::flag_byte(b.wrapped)][0]);
    lemma_runs(a.runs, b.runs);
}

proof fn lemma_color(a: TerminalColor, x: Seq<u8>, b: TerminalColor, y: Seq<u8>)
    requires
        painter::color_bytes(a) + x == painter::color_bytes(b) + y,
    ensures
        a == b,
        x == y,
{
    let (p, q) = (painter::color_bytes(a), painter::color_bytes(b));
    assert((p + x)[0] == p[0] && (q + y)[0] == q[0]);
    lemma_same_split(p, x, q, y);
    assert(forall|i: int| 0 <= i < p.len() ==> #[trigger] p[i] == q[i]);
    match a {
        TerminalColor::Rgb(..) => {
            assert(p[1] == q[1] && p[2] == q[2] && p[3] == q[3]);
        },
        TerminalColor::Default => {},
        _ => {
            assert(p[1] == q[1]);
        },
    }
}

proof fn lemma_nibble(a: (bool, bool, bool, bool), b: (bool, bool, bool, bool))
    ensures
        painter::nibble(a.0, a.1, a.2, a.3) < 16,
        painter::nibble(a.0, a.1, a.2, a.3) == painter::nibble(b.0, b.1, b.2, b.3) ==> a == b,
{
}

proof fn lemma_attributes(a: CellView, b: CellView)
    requires
        painter::attribute_bytes(a) == painter::attribute_bytes(b),
    ensures
        a.bold == b.bold,
        a.dim == b.dim,
        a.italic == b.italic,
        a.underline == b.underline,
        a.inverse == b.inverse,
        a.strikeout == b.strikeout,
        a.hidden == b.hidden,
        a.wide == b.wide,
        a.spacer == b.spacer,
{
    let (p, q) = (painter::attribute_bytes(a), painter::attribute_bytes(b));
    assert(p[0] == q[0] && p[1] == q[1]);
    let (low_a, low_b) = (
        (a.bold, a.dim, a.italic, a.underline),
        (b.bold, b.dim, b.italic, b.underline),
    );
    let (high_a, high_b) = (
        (a.inverse, a.strikeout, a.hidden, a.wide),
        (b.inverse, b.strikeout, b.hidden, b.wide),
    );
    lemma_nibble(low_a, low_b);
    lemma_nibble(low_b, low_a);
    lemma_nibble(high_a, high_b);
    lemma_nibble(high_b, high_a);
}

proof fn lemma_zero_width_length(chars: Seq<char>)
    ensures
        painter::zero_width_bytes(chars).len() == 4 * chars.len(),
    decreases chars.len(),
{
    if chars.len() > 0 {
        lemma_zero_width_length(chars.drop_last());
    }
}

proof fn lemma_char(a: char, b: char)
    requires
        a as u32 == b as u32,
    ensures
        a == b,
{
}

proof fn lemma_zero_width(a: Seq<char>, b: Seq<char>)
    requires
        a.len() == b.len(),
        painter::zero_width_bytes(a) == painter::zero_width_bytes(b),
    ensures
        a == b,
    decreases a.len(),
{
    if a.len() > 0 {
        lemma_zero_width_length(a.drop_last());
        lemma_zero_width_length(b.drop_last());
        lemma_same_split(
            painter::zero_width_bytes(a.drop_last()),
            fnv::le32(a.last() as u32),
            painter::zero_width_bytes(b.drop_last()),
            fnv::le32(b.last() as u32),
        );
        lemma_le32(a.last() as u32, b.last() as u32);
        lemma_char(a.last(), b.last());
        lemma_zero_width(a.drop_last(), b.drop_last());
        assert(a =~= a.drop_last().push(a.last()));
        assert(b =~= b.drop_last().push(b.last()));
    } else {
        assert(a =~= b);
    }
}

proof fn lemma_cell(a: CellView, b: CellView)
    requires
        a.zerowidth.len() == b.zerowidth.len() || a.link == b.link,
        painter::cell_bytes(a) == painter::cell_bytes(b),
    ensures
        a == (CellView { wrapline: a.wrapline, ..b }),
{
    let (link_a, link_b) = (painter::link_bytes(a.link), painter::link_bytes(b.link));
    let (zero_a, zero_b) = (
        painter::zero_width_bytes(a.zerowidth),
        painter::zero_width_bytes(b.zerowidth),
    );
    let (attr_a, attr_b) = (painter::attribute_bytes(a), painter::attribute_bytes(b));
    let (bg_a, bg_b) = (painter::color_bytes(a.bg), painter::color_bytes(b.bg));
    let (fg_a, fg_b) = (painter::color_bytes(a.fg), painter::color_bytes(b.fg));
    let (ch_a, ch_b) = (fnv::le32(a.ch as u32), fnv::le32(b.ch as u32));
    lemma_five(ch_a, fg_a, bg_a, attr_a, zero_a, link_a);
    lemma_five(ch_b, fg_b, bg_b, attr_b, zero_b, link_b);
    let (end_a, end_b) = (attr_a + (zero_a + link_a), attr_b + (zero_b + link_b));
    lemma_same_split(ch_a, fg_a + (bg_a + end_a), ch_b, fg_b + (bg_b + end_b));
    lemma_le32(a.ch as u32, b.ch as u32);
    lemma_color(a.fg, bg_a + end_a, b.fg, bg_b + end_b);
    lemma_color(a.bg, end_a, b.bg, end_b);
    lemma_same_split(attr_a, zero_a + link_a, attr_b, zero_b + link_b);
    lemma_attributes(a, b);
    lemma_zero_width_length(a.zerowidth);
    lemma_zero_width_length(b.zerowidth);
    assert((zero_a + link_a).len() == (zero_b + link_b).len());
    lemma_same_split(zero_a, link_a, zero_b, link_b);
    lemma_zero_width(a.zerowidth, b.zerowidth);
    assert(link_a[0] == link_b[0]);
    if let (Some(p), Some(q)) = (a.link, b.link) {
        lemma_same_split(seq![1u8], text::utf8(p), seq![1u8], text::utf8(q));
        lemma_utf8_distinct(p, q);
    }
}

proof fn lemma_five(
    ch: Seq<u8>,
    fg: Seq<u8>,
    bg: Seq<u8>,
    attr: Seq<u8>,
    zero: Seq<u8>,
    link: Seq<u8>,
)
    ensures
        ch + fg + bg + attr + zero + link == ch + (fg + (bg + (attr + (zero + link)))),
{
    assert(ch + fg + bg + attr + zero + link =~= ch + (fg + (bg + (attr + (zero + link)))));
}

proof fn lemma_row_update(row: Seq<CellView>, at: int, cell: CellView)
    requires
        0 <= at < row.len(),
        painter::row_bytes(row) == painter::row_bytes(row.update(at, cell)),
    ensures
        painter::cell_bytes(row[at]) == painter::cell_bytes(cell),
    decreases row.len(),
{
    let other = row.update(at, cell);
    let (p, q) = (painter::row_bytes(row.drop_last()), painter::row_bytes(other.drop_last()));
    let (c, d) = (painter::cell_bytes(row.last()), painter::cell_bytes(other.last()));
    if at == row.len() - 1 {
        assert(other.drop_last() =~= row.drop_last());
        assert(c =~= (p + c).skip(p.len() as int));
        assert(d =~= (q + d).skip(q.len() as int));
    } else {
        assert(other.drop_last() =~= row.drop_last().update(at, cell));
        assert(c == d);
        assert((p + c).len() == (q + d).len());
        lemma_same_split(p, c, q, d);
        lemma_row_update(row.drop_last(), at, cell);
    }
}

/// A row whose cell changes in anything that it paints as hashes other bytes: character, colors,
/// attributes, width, zero-width characters and link all count. Whether it wraps does not. (A change
/// of the number of zero-width characters together with the link is not spoken of.)
pub proof fn law_hashed_bytes_tell_cells_apart(row: Seq<CellView>, at: int, cell: CellView)
    requires
        0 <= at < row.len(),
        row[at].zerowidth.len() == cell.zerowidth.len() || row[at].link == cell.link,
        row[at] != (CellView { wrapline: row[at].wrapline, ..cell }),
    ensures
        painter::row_bytes(row) != painter::row_bytes(row.update(at, cell)),
{
    if painter::row_bytes(row) == painter::row_bytes(row.update(at, cell)) {
        lemma_row_update(row, at, cell);
        lemma_cell(row[at], cell);
    }
}

proof fn lemma_changed(lines: Seq<LineView>, before: Seq<u64>, at: int)
    requires
        0 <= at < lines.len(),
    ensures
        delta::hash_of(lines[at]) != before[at] ==> delta::changed_lines(lines, before).contains(
            lines[at],
        ),
        forall|line: LineView| #[trigger]
            delta::changed_lines(lines, before).contains(line) ==> exists|i: int|
                0 <= i < lines.len() && line == #[trigger] lines[i] && delta::hash_of(line)
                    != before[i],
    decreases lines.len(),
{
    let front = lines.drop_last();
    let (sent, earlier) = (
        delta::changed_lines(lines, before),
        delta::changed_lines(front, before),
    );
    let last = lines.len() - 1;
    if front.len() > 0 {
        lemma_changed(front, before, if at < last { at } else { 0 });
    }
    if delta::hash_of(lines.last()) != before[last] {
        assert(sent[sent.len() - 1] == lines[last]);
    }
    if at < last && delta::hash_of(lines[at]) != before[at] {
        assert(front[at] == lines[at]);
        let j = choose|j: int| 0 <= j < earlier.len() && earlier[j] == lines[at];
        assert(sent[j] == lines[at]);
    }
    assert forall|line: LineView| #[trigger] sent.contains(line) implies exists|i: int|
        0 <= i < lines.len() && line == #[trigger] lines[i] && delta::hash_of(line) != before[i] by {
        let j = choose|j: int| 0 <= j < sent.len() && sent[j] == line;
        if j < earlier.len() {
            assert(earlier[j] == line);
            assert(earlier.contains(line));
            let i = choose|i: int|
                0 <= i < front.len() && line == #[trigger] front[i] && delta::hash_of(line)
                    != before[i];
            assert(lines[i] == line);
        } else {
            assert(line == lines[last]);
        }
    }
}

/// A subscriber that holds one frame is answered the next one in full exactly where the size, the
/// screen, the offset or the number of rows changed. Otherwise it is sent the rows whose hash
/// changed, and nothing that is as it was. The cursor, the modes and the position are those of the
/// next frame either way.
pub proof fn law_answer_tells_what_changed(
    held: Option<BaselineView>,
    earlier: FrameView,
    later: FrameView,
    output_sequence: u64,
    at: int,
)
    requires
        0 <= at < later.lines.len(),
    ensures
        ({
            let reply = delta::delta_reply(
                Some(delta::next_baseline(held, earlier)),
                later,
                output_sequence,
            );
            &&& reply.full == ((earlier.cols, earlier.rows, earlier.alt_active, earlier.offset) != (
                later.cols,
                later.rows,
                later.alt_active,
                later.offset,
            ) || earlier.lines.len() != later.lines.len())
            &&& reply.full ==> reply.lines == later.lines
            &&& !reply.full ==> {
                &&& fnv::fold(fnv::OFFSET, delta::line_bytes(later.lines[at])) != fnv::fold(
                    fnv::OFFSET,
                    delta::line_bytes(earlier.lines[at]),
                ) ==> reply.lines.contains(later.lines[at])
                &&& forall|line: LineView| #[trigger]
                    reply.lines.contains(line) ==> exists|i: int|
                        0 <= i < later.lines.len() && line == #[trigger] later.lines[i] && (
                        line.wrapped, line.runs) != (
                            earlier.lines[i].wrapped,
                            earlier.lines[i].runs,
                        )
            }
            &&& reply.output_sequence == output_sequence
            &&& (reply.cols, reply.rows) == (later.cols, later.rows)
            &&& reply.cursor == later.cursor
            &&& reply.cursor_visible == later.cursor_visible
            &&& reply.cursor_style == later.cursor_style
            &&& reply.cursor_animation == later.cursor_animation
            &&& reply.alt_active == later.alt_active
            &&& reply.history_size == later.history_size
            &&& reply.offset == later.offset
            &&& reply.modes == later.modes
        }),
{
    let baseline = delta::next_baseline(held, earlier);
    let reply = delta::delta_reply(Some(baseline), later, output_sequence);
    if !reply.full {
        lemma_changed(later.lines, baseline.hashes, at);
        assert forall|line: LineView| #[trigger] reply.lines.contains(line) implies exists|i: int|
            0 <= i < later.lines.len() && line == #[trigger] later.lines[i] && (
            line.wrapped, line.runs) != (earlier.lines[i].wrapped, earlier.lines[i].runs) by {
            let i = choose|i: int|
                0 <= i < later.lines.len() && line == #[trigger] later.lines[i] && delta::hash_of(
                    line,
                ) != baseline.hashes[i];
            assert(baseline.hashes[i] == delta::hash_of(earlier.lines[i]));
            assert(later.lines[i] == line);
        }
    }
}

/// A subscriber that holds nothing is answered the whole frame.
pub proof fn law_first_answer_is_the_whole_frame(frame: FrameView, output_sequence: u64)
    ensures
        ({
            let reply = delta::delta_reply(None, frame, output_sequence);
            &&& reply.full
            &&& reply.lines == frame.lines
            &&& reply.output_sequence == output_sequence
            &&& (reply.cols, reply.rows, reply.offset) == (frame.cols, frame.rows, frame.offset)
            &&& (reply.cursor, reply.alt_active) == (frame.cursor, frame.alt_active)
        }),
{
}

proof fn lemma_closed_text(a: Seq<char>, x: Seq<char>, b: Seq<char>, y: Seq<char>)
    requires
        forall|i: int| 0 <= i < a.len() ==> #[trigger] a[i] != '\0',
        forall|i: int| 0 <= i < b.len() ==> #[trigger] b[i] != '\0',
        a + seq!['\0'] + x == b + seq!['\0'] + y,
    ensures
        a == b,
        x == y,
{
    let (p, q) = (a + seq!['\0'] + x, b + seq!['\0'] + y);
    if a.len() < b.len() {
        assert(p[a.len() as int] == '\0');
        assert(q[a.len() as int] == b[a.len() as int]);
    }
    if b.len() < a.len() {
        assert(q[b.len() as int] == '\0');
        assert(p[b.len() as int] == a[b.len() as int]);
    }
    lemma_same_split(a + seq!['\0'], x, b + seq!['\0'], y);
    assert(a =~= (a + seq!['\0']).drop_last());
    assert(b =~= (b + seq!['\0']).drop_last());
}

/// What a checkpoint is bound to tells its provider, its window and its pane apart, and so does what
/// its file is named after.
pub proof fn law_checkpoint_is_bound_to_its_pane(
    provider: (Seq<char>, Seq<char>),
    window: (Seq<char>, Seq<char>),
    pane: (Seq<char>, Seq<char>),
)
    requires
        checkpoint::valid_name(provider.0),
        checkpoint::valid_name(provider.1),
        checkpoint::valid_coordinate(window.0),
        checkpoint::valid_coordinate(window.1),
    ensures
        checkpoint::binding(provider.0, window.0, pane.0) == checkpoint::binding(
            provider.1,
            window.1,
            pane.1,
        ) ==> provider.0 == provider.1 && window.0 == window.1 && pane.0 == pane.1,
        text::utf8(window.0 + "\0"@ + pane.0) == text::utf8(window.1 + "\0"@ + pane.1) ==> window.0
            == window.1 && pane.0 == pane.1,
{
    reveal_strlit("\0");
    assert("\0"@ =~= seq!['\0']);
    let start = "soksak/terminal-checkpoint/v2\0"@;
    if checkpoint::binding(provider.0, window.0, pane.0) == checkpoint::binding(
        provider.1,
        window.1,
        pane.1,
    ) {
        let (p, q) = (
            start + provider.0 + "\0"@ + window.0 + "\0"@ + pane.0,
            start + provider.1 + "\0"@ + window.1 + "\0"@ + pane.1,
        );
        lemma_utf8_distinct(p, q);
        let (x, y) = (
            window.0 + seq!['\0'] + pane.0,
            window.1 + seq!['\0'] + pane.1,
        );
        assert(p =~= start + (provider.0 + seq!['\0'] + x));
        assert(q =~= start + (provider.1 + seq!['\0'] + y));
        lemma_same_split(start, provider.0 + seq!['\0'] + x, start, provider.1 + seq!['\0'] + y);
        lemma_closed_text(provider.0, x, provider.1, y);
        lemma_closed_text(window.0, pane.0, window.1, pane.1);
    }
    if text::utf8(window.0 + "\0"@ + pane.0) == text::utf8(window.1 + "\0"@ + pane.1) {
        lemma_utf8_distinct(window.0 + "\0"@ + pane.0, window.1 + "\0"@ + pane.1);
        lemma_closed_text(window.0, pane.0, window.1, pane.1);
    }
}

} // verus!
