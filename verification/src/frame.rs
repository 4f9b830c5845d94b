//! The `terminal.frame` wire: rows as runs, per-subscriber baselines, deltas, and the reference
//! `apply` that folds a delta series back into a full picture.

use vstd::prelude::*;

use crate::cells::{
    self, CellView, TerminalCell, TerminalColor, TerminalCursorAnimation, TerminalCursorStyle,
    TerminalModes,
};
use crate::text;

pub use crate::delta::{apply, delta, line_hash, FrameBaseline, FrameReply};
pub use crate::subscribers::FrameSubscribers;

verus! {

/// Baselines kept per pane; beyond this the least recently used is evicted.
pub const MAX_SUBSCRIBERS: usize = 8;

pub const ATTR_BOLD: u16 = 1;

pub const ATTR_DIM: u16 = 2;

pub const ATTR_ITALIC: u16 = 4;

pub const ATTR_UNDERLINE: u16 = 8;

pub const ATTR_INVERSE: u16 = 16;

pub const ATTR_STRIKEOUT: u16 = 32;

pub const ATTR_HIDDEN: u16 = 64;

/// Consecutive cells of one row that share their style.
#[derive(Debug, PartialEq, Eq)]
pub struct FrameRun {
    pub text: String,
    pub fg: String,
    pub bg: String,
    pub attrs: u16,
    /// Columns covered; a wide cell counts two.
    pub n: u32,
    pub wide: bool,
    pub link: Option<String>,
}

/// A run as a mathematical value.
#[verifier::ext_equal]
pub struct RunView {
    pub text: Seq<char>,
    pub fg: Seq<char>,
    pub bg: Seq<char>,
    pub attrs: u16,
    pub n: nat,
    pub wide: bool,
    pub link: Option<Seq<char>>,
}

impl View for FrameRun {
    type V = RunView;

    open spec fn view(&self) -> RunView {
        RunView {
            text: self.text@,
            fg: self.fg@,
            bg: self.bg@,
            attrs: self.attrs,
            n: self.n as nat,
            wide: self.wide,
            link: text::text_of(self.link),
        }
    }
}

impl Clone for FrameRun {
    fn clone(&self) -> (copy: Self)
        ensures
            copy@ == self@,
    {
        FrameRun {
            text: self.text.clone(),
            fg: self.fg.clone(),
            bg: self.bg.clone(),
            attrs: self.attrs,
            n: self.n,
            wide: self.wide,
            link: text::copy_optional_text(&self.link),
        }
    }
}

/// One viewport row as runs.
#[derive(Debug, PartialEq, Eq)]
pub struct FrameLine {
    pub y: u16,
    pub wrapped: bool,
    pub runs: Vec<FrameRun>,
}

/// A line as a mathematical value.
#[verifier::ext_equal]
pub struct LineView {
    pub y: u16,
    pub wrapped: bool,
    pub runs: Seq<RunView>,
}

/// The views of a list of runs.
pub open spec fn runs_view(runs: Seq<FrameRun>) -> Seq<RunView> {
    Seq::new(runs.len(), |i: int| runs[i]@)
}

impl View for FrameLine {
    type V = LineView;

    open spec fn view(&self) -> LineView {
        LineView { y: self.y, wrapped: self.wrapped, runs: runs_view(self.runs@) }
    }
}

impl Clone for FrameLine {
    fn clone(&self) -> (copy: Self)
        ensures
            copy@ == self@,
    {
        let mut runs: Vec<FrameRun> = Vec::new();
        let mut i: usize = 0;
        while i < self.runs.len()
            invariant
                i <= self.runs@.len(),
                runs@.len() == i,
                forall|j: int| 0 <= j < i ==> #[trigger] runs@[j]@ == self.runs@[j]@,
            decreases self.runs@.len() - i,
        {
            runs.push(self.runs[i].clone());
            i = i + 1;
        }
        assert(runs_view(runs@) =~= runs_view(self.runs@));
        FrameLine { y: self.y, wrapped: self.wrapped, runs }
    }
}

/// The viewport as runs. Checkpoints store it; `terminal.frame` derives deltas from it.
#[derive(Debug, PartialEq, Eq)]
pub struct TerminalFrame {
    pub cols: u16,
    pub rows: u16,
    /// `(row, col)`, 0-based.
    pub cursor: (usize, usize),
    pub cursor_visible: bool,
    pub cursor_style: TerminalCursorStyle,
    pub cursor_animation: TerminalCursorAnimation,
    pub alt_active: bool,
    pub history_size: usize,
    pub offset: usize,
    pub modes: TerminalModes,
    pub lines: Vec<FrameLine>,
}

/// A frame as a mathematical value.
#[verifier::ext_equal]
pub struct FrameView {
    pub cols: u16,
    pub rows: u16,
    pub cursor: (usize, usize),
    pub cursor_visible: bool,
    pub cursor_style: TerminalCursorStyle,
    pub cursor_animation: TerminalCursorAnimation,
    pub alt_active: bool,
    pub history_size: usize,
    pub offset: usize,
    pub modes: TerminalModes,
    pub lines: Seq<LineView>,
}

/// The views of a list of lines.
pub open spec fn lines_view(lines: Seq<FrameLine>) -> Seq<LineView> {
    Seq::new(lines.len(), |i: int| lines[i]@)
}

impl View for TerminalFrame {
    type V = FrameView;

    open spec fn view(&self) -> FrameView {
        FrameView {
            cols: self.cols,
            rows: self.rows,
            cursor: self.cursor,
            cursor_visible: self.cursor_visible,
            cursor_style: self.cursor_style,
            cursor_animation: self.cursor_animation,
            alt_active: self.alt_active,
            history_size: self.history_size,
            offset: self.offset,
            modes: self.modes,
            lines: lines_view(self.lines@),
        }
    }
}

/// A copy of a list of lines.
pub fn copy_lines(lines: &Vec<FrameLine>) -> (copy: Vec<FrameLine>)
    ensures
        lines_view(copy@) == lines_view(lines@),
{
    let mut copy: Vec<FrameLine> = Vec::new();
    let mut i: usize = 0;
    while i < lines.len()
        invariant
            i <= lines@.len(),
            copy@.len() == i,
            forall|j: int| 0 <= j < i ==> #[trigger] copy@[j]@ == lines@[j]@,
        decreases lines@.len() - i,
    {
        copy.push(lines[i].clone());
        i = i + 1;
    }
    assert(lines_view(copy@) =~= lines_view(lines@));
    copy
}

impl Clone for TerminalFrame {
    fn clone(&self) -> (copy: Self)
        ensures
            copy@ == self@,
    {
        TerminalFrame {
            cols: self.cols,
            rows: self.rows,
            cursor: self.cursor,
            cursor_visible: self.cursor_visible,
            cursor_style: self.cursor_style,
            cursor_animation: self.cursor_animation,
            alt_active: self.alt_active,
            history_size: self.history_size,
            offset: self.offset,
            modes: self.modes,
            lines: copy_lines(&self.lines),
        }
    }
}

/// The wire name of a color.
pub open spec fn color_name(color: TerminalColor) -> Seq<char> {
    match color {
        TerminalColor::Default => "default"@,
        TerminalColor::Named(index) => "palette:"@ + text::decimal(index as nat),
        TerminalColor::Indexed(index) => "palette:"@ + text::decimal(index as nat),
        TerminalColor::Rgb(r, g, b) => "#"@ + text::hex_byte(r) + text::hex_byte(g)
            + text::hex_byte(b),
    }
}

/// The wire name of a color.
pub fn frame_color(color: TerminalColor) -> (name: String)
    ensures
        name@ == color_name(color),
{
    match color {
        TerminalColor::Default => String::from_str("default"),
        TerminalColor::Named(index) | TerminalColor::Indexed(index) => {
            let mut name = String::from_str("palette:");
            name.push_str(text::decimal_text(index as u64).as_str());
            name
        },
        TerminalColor::Rgb(r, g, b) => {
            let mut name = String::from_str("#");
            text::push_hex_byte(&mut name, r);
            text::push_hex_byte(&mut name, g);
            text::push_hex_byte(&mut name, b);
            name
        },
    }
}

/// A cell without a glyph: a narrow space with nothing combined onto it.
pub open spec fn is_blank(cell: CellView) -> bool {
    cell.ch == ' ' && cell.zerowidth.len() == 0 && !cell.wide
}

/// A blank that shows nothing of its own and may be trimmed from the end of a row.
pub open spec fn is_default_blank(cell: CellView) -> bool {
    &&& is_blank(cell)
    &&& cell.link is None
    &&& cell.bg == TerminalColor::Default
    &&& !cell.underline
    &&& !cell.strikeout
    &&& !cell.inverse
}

/// A blank that is not inverse shows no foreground, bold, dim, italic or hidden.
pub open spec fn glyphless(cell: CellView) -> bool {
    is_blank(cell) && !cell.inverse
}

/// The value of an attribute bit.
pub open spec fn bit(set: bool, value: u16) -> int {
    if set {
        value as int
    } else {
        0
    }
}

/// The attributes a cell shows, one bit each.
pub open spec fn visible_attrs(cell: CellView) -> u16 {
    (bit(cell.bold && !glyphless(cell), ATTR_BOLD) + bit(cell.dim && !glyphless(cell), ATTR_DIM)
        + bit(cell.italic && !glyphless(cell), ATTR_ITALIC) + bit(cell.underline, ATTR_UNDERLINE)
        + bit(cell.inverse, ATTR_INVERSE) + bit(cell.strikeout, ATTR_STRIKEOUT) + bit(
        cell.hidden && !glyphless(cell),
        ATTR_HIDDEN,
    )) as u16
}

/// The foreground a cell shows.
pub open spec fn visible_foreground(cell: CellView) -> TerminalColor {
    if glyphless(cell) {
        TerminalColor::Default
    } else {
        cell.fg
    }
}

/// The columns a cell covers.
pub open spec fn cell_width(cell: CellView) -> nat {
    if cell.wide {
        2
    } else {
        1
    }
}

/// The run made of one cell.
pub open spec fn cell_run(cell: CellView) -> RunView {
    RunView {
        text: cells::cell_text(cell),
        fg: color_name(visible_foreground(cell)),
        bg: color_name(cell.bg),
        attrs: visible_attrs(cell),
        n: cell_width(cell),
        wide: cell.wide,
        link: cell.link,
    }
}

/// Whether two runs look the same, whatever text they hold.
pub open spec fn same_style(a: RunView, b: RunView) -> bool {
    a.fg == b.fg && a.bg == b.bg && a.attrs == b.attrs && a.wide == b.wide && a.link == b.link
}

/// Run `a` continued by run `b`.
pub open spec fn joined(a: RunView, b: RunView) -> RunView {
    RunView { text: a.text + b.text, n: a.n + b.n, ..a }
}

/// The runs of a row: every cell that is no spacer, neighbours of one style joined.
pub open spec fn runs_of(row: Seq<CellView>) -> Seq<RunView>
    decreases row.len(),
{
    if row.len() == 0 {
        Seq::empty()
    } else {
        let runs = runs_of(row.drop_last());
        let cell = row.last();
        if cell.spacer {
            runs
        } else if runs.len() > 0 && same_style(runs.last(), cell_run(cell)) {
            runs.drop_last().push(joined(runs.last(), cell_run(cell)))
        } else {
            runs.push(cell_run(cell))
        }
    }
}

/// The row without its trailing default blanks.
pub open spec fn trimmed(row: Seq<CellView>) -> Seq<CellView>
    decreases row.len(),
{
    if row.len() > 0 && is_default_blank(row.last()) {
        trimmed(row.drop_last())
    } else {
        row
    }
}

/// Row `y` as runs.
pub open spec fn line_of(y: u16, row: Seq<CellView>) -> LineView {
    LineView { y, wrapped: cells::row_wraps(row), runs: runs_of(trimmed(row)) }
}

fn blank(cell: &TerminalCell) -> (b: bool)
    ensures
        b == is_blank(cell@),
{
    cell.ch == ' ' && cell.zerowidth.len() == 0 && !cell.wide
}

fn default_blank(cell: &TerminalCell) -> (b: bool)
    ensures
        b == is_default_blank(cell@),
{
    blank(cell) && cell.link.is_none() && cell.bg == TerminalColor::Default && !cell.underline
        && !cell.strikeout && !cell.inverse
}

fn flag(set: bool, value: u16) -> (r: u16)
    ensures
        r == bit(set, value),
{
    if set {
        value
    } else {
        0
    }
}

/// The foreground name and the attribute bits a cell shows.
pub fn visible_style(cell: &TerminalCell) -> (style: (String, u16))
    ensures
        style.0@ == color_name(visible_foreground(cell@)),
        style.1 == visible_attrs(cell@),
{
    let bare = blank(cell) && !cell.inverse;
    let fg = if bare {
        TerminalColor::Default
    } else {
        cell.fg
    };
    let attrs: u16 = flag(cell.bold && !bare, ATTR_BOLD) + flag(cell.dim && !bare, ATTR_DIM) + flag(
        cell.italic && !bare,
        ATTR_ITALIC,
    ) + flag(cell.underline, ATTR_UNDERLINE) + flag(cell.inverse, ATTR_INVERSE) + flag(
        cell.strikeout,
        ATTR_STRIKEOUT,
    ) + flag(cell.hidden && !bare, ATTR_HIDDEN);
    (frame_color(fg), attrs)
}

/// Whether the columns of every run of a row can be counted in 32 bits.
pub open spec fn countable(row: Seq<CellView>) -> bool {
    forall|i: int|
        0 <= i < runs_of(trimmed(row)).len() ==> (#[trigger] runs_of(trimmed(row))[i]).n <= u32::MAX
}

/// A row whose cells, counted twice, fit in 32 bits is countable.
pub proof fn law_short_row_is_countable(row: Seq<CellView>)
    requires
        2 * row.len() <= u32::MAX,
    ensures
        countable(row),
{
    lemma_run_widths(trimmed(row));
    lemma_trimmed_length(row);
}

proof fn lemma_trimmed_length(row: Seq<CellView>)
    ensures
        trimmed(row).len() <= row.len(),
    decreases row.len(),
{
    if row.len() > 0 && is_default_blank(row.last()) {
        lemma_trimmed_length(row.drop_last());
    }
}

/// The runs of a row only grow as the row does.
proof fn lemma_runs_grow(row: Seq<CellView>, count: int)
    requires
        0 <= count <= row.len(),
    ensures
        runs_of(row.take(count)).len() <= runs_of(row).len(),
        forall|i: int|
            0 <= i < runs_of(row.take(count)).len() ==> (#[trigger] runs_of(row.take(count))[i]).n
                <= runs_of(row)[i].n,
    decreases row.len() - count,
{
    if count == row.len() {
        assert(row.take(count) =~= row);
    } else {
        lemma_runs_grow(row, count + 1);
        assert(row.take(count + 1).drop_last() =~= row.take(count));
        let (now, next) = (runs_of(row.take(count)), runs_of(row.take(count + 1)));
        assert forall|i: int| 0 <= i < now.len() implies (#[trigger] now[i]).n
            <= runs_of(row)[i].n by {
            assert(now[i].n <= next[i].n);
        }
    }
}

/// No run is wider than the cells it was made of.
proof fn lemma_run_widths(row: Seq<CellView>)
    ensures
        runs_of(row).len() <= row.len(),
        forall|i: int| 0 <= i < runs_of(row).len() ==> (#[trigger] runs_of(row)[i]).n <= 2 * row.len(),
    decreases row.len(),
{
    if row.len() > 0 {
        lemma_run_widths(row.drop_last());
    }
}

/// One viewport row as runs. Spacers are dropped; a non-inverse blank shows no fg, bold, dim,
/// italic or hidden and is normalized before runs form; trailing default blanks are trimmed.
pub fn encode_line(y: u16, cells: &[TerminalCell]) -> (line: FrameLine)
    requires
        countable(cells::row_view(cells@)),
    ensures
        line@ == line_of(y, cells::row_view(cells@)),
{
    let ghost row = cells::row_view(cells@);
    let wrapped = cells::wraps(cells);
    let mut end: usize = cells.len();
    assert(row.take(end as int) =~= row);
    while end > 0 && default_blank(&cells[end - 1])
        invariant
            row == cells::row_view(cells@),
            end <= cells@.len(),
            trimmed(row.take(end as int)) == trimmed(row),
        decreases end,
    {
        assert(row.take(end as int).drop_last() =~= row.take(end - 1));
        end = end - 1;
    }
    assert(trimmed(row) == row.take(end as int));
    let mut runs: Vec<FrameRun> = Vec::new();
    let mut i: usize = 0;
    assert(row.take(0) =~= Seq::<CellView>::empty());
    assert(runs_view(runs@) =~= runs_of(row.take(0)));
    while i < end
        invariant
            row == cells::row_view(cells@),
            i <= end <= cells@.len(),
            countable(row),
            trimmed(row) == row.take(end as int),
            runs_view(runs@) == runs_of(row.take(i as int)),
        decreases end - i,
    {
        let cell = &cells[i];
        let ghost before = runs_view(runs@);
        assert(row.take(i + 1).drop_last() =~= row.take(i as int));
        assert(row.take(i + 1).last() == cell@);
        if !cell.spacer {
            let (fg, attrs) = visible_style(cell);
            let bg = frame_color(cell.bg);
            let width: u32 = if cell.wide { 2 } else { 1 };
            let count: usize = runs.len();
            let continues = count > 0 && {
                let last = &runs[count - 1];
                assert(before.last() == last@);
                last.fg == fg && last.bg == bg && last.attrs == attrs && last.wide == cell.wide
                    && text::same_optional_text(&last.link, &cell.link)
            };
            assert(continues == (before.len() > 0 && same_style(before.last(), cell_run(cell@))));
            if continues {
                let popped = runs.pop();
                if let Some(last) = popped {
                    let mut joined_text = last.text;
                    cells::push_cell_text(&mut joined_text, cell);
                    proof {
                        let shown = row.take(end as int);
                        let at = before.len() - 1;
                        assert(shown.take(i + 1) =~= row.take(i + 1));
                        lemma_runs_grow(shown, i + 1);
                        assert(runs_of(shown.take(i + 1))[at] == joined(
                            before.last(),
                            cell_run(cell@),
                        ));
                        assert(runs_of(trimmed(row))[at].n <= u32::MAX);
                    }
                    runs.push(
                        FrameRun {
                            text: joined_text,
                            fg: last.fg,
                            bg: last.bg,
                            attrs: last.attrs,
                            n: last.n + width,
                            wide: last.wide,
                            link: last.link,
                        },
                    );
                    assert(runs@.last()@ == joined(before.last(), cell_run(cell@)));
                    assert(runs_view(runs@) =~= before.drop_last().push(
                        joined(before.last(), cell_run(cell@)),
                    ));
                }
            } else {
                let mut cell_chars = String::new();
                cells::push_cell_text(&mut cell_chars, cell);
                assert(cell_chars@ =~= cells::cell_text(cell@));
                runs.push(
                    FrameRun {
                        text: cell_chars,
                        fg,
                        bg,
                        attrs,
                        n: width,
                        wide: cell.wide,
                        link: text::copy_optional_text(&cell.link),
                    },
                );
                assert(runs@.last()@ == cell_run(cell@));
                assert(runs_view(runs@) =~= before.push(cell_run(cell@)));
            }
        }
        i = i + 1;
    }
    let line = FrameLine { y, wrapped, runs };
    assert(line@ == line_of(y, row));
    line
}

/// The text of the cells of a row that are no spacers.
pub open spec fn row_text(row: Seq<CellView>) -> Seq<char>
    decreases row.len(),
{
    if row.len() == 0 {
        Seq::empty()
    } else if row.last().spacer {
        row_text(row.drop_last())
    } else {
        row_text(row.drop_last()) + cells::cell_text(row.last())
    }
}

/// The columns of the cells of a row that are no spacers.
pub open spec fn row_width(row: Seq<CellView>) -> nat
    decreases row.len(),
{
    if row.len() == 0 {
        0
    } else if row.last().spacer {
        row_width(row.drop_last())
    } else {
        row_width(row.drop_last()) + cell_width(row.last())
    }
}

/// The text of a list of runs.
pub open spec fn runs_text(runs: Seq<RunView>) -> Seq<char>
    decreases runs.len(),
{
    if runs.len() == 0 {
        Seq::empty()
    } else {
        runs_text(runs.drop_last()) + runs.last().text
    }
}

/// The columns of a list of runs.
pub open spec fn runs_width(runs: Seq<RunView>) -> nat
    decreases runs.len(),
{
    if runs.len() == 0 {
        0
    } else {
        runs_width(runs.drop_last()) + runs.last().n
    }
}

/// The runs of a row hold its text and its columns, and no two neighbours share a style.
pub proof fn law_runs_cover_the_row(row: Seq<CellView>)
    ensures
        runs_text(runs_of(row)) == row_text(row),
        runs_width(runs_of(row)) == row_width(row),
        forall|i: int|
            0 <= i < runs_of(row).len() - 1 ==> !same_style(
                #[trigger] runs_of(row)[i],
                runs_of(row)[i + 1],
            ),
    decreases row.len(),
{
    if row.len() > 0 {
        law_runs_cover_the_row(row.drop_last());
        let runs = runs_of(row.drop_last());
        let cell = row.last();
        if !cell.spacer {
            if runs.len() > 0 && same_style(runs.last(), cell_run(cell)) {
                let next = runs.drop_last().push(joined(runs.last(), cell_run(cell)));
                assert(next.drop_last() =~= runs.drop_last());
                assert(runs_text(next) =~= runs_text(runs) + cells::cell_text(cell));
                assert forall|i: int| 0 <= i < next.len() - 1 implies !same_style(
                    #[trigger] next[i],
                    next[i + 1],
                ) by {
                    assert(next[i] == runs[i]);
                    assert(same_style(next[i + 1], runs[i + 1]));
                    assert(!same_style(runs[i], runs[i + 1]));
                }
            } else {
                let next = runs.push(cell_run(cell));
                assert(next.drop_last() =~= runs);
                assert forall|i: int| 0 <= i < next.len() - 1 implies !same_style(
                    #[trigger] next[i],
                    next[i + 1],
                ) by {
                    assert(next[i] == runs[i]);
                    if i < runs.len() - 1 {
                        assert(next[i + 1] == runs[i + 1]);
                    }
                }
            }
        }
    }
}

} // verus!
