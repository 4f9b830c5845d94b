//! What the runs of a row say of its cells.

use vstd::prelude::*;

use crate::cells::{CellView, TerminalColor};
use crate::engine::EngineScreen;
use crate::frame::{self, RunView};
use crate::mirror;
use crate::text;

verus! {

/// Whether a cell shows nothing at all: a narrow space on the default background without underline,
/// strikeout, inverse or link.
pub open spec fn shows_nothing(cell: CellView) -> bool {
    &&& cell.ch == ' '
    &&& cell.zerowidth.len() == 0
    &&& !cell.wide
    &&& cell.bg == TerminalColor::Default
    &&& !cell.underline
    &&& !cell.strikeout
    &&& !cell.inverse
    &&& cell.link is None
}

/// Only cells that show nothing are left out at the end of a row, and all of them are.
pub proof fn law_trimmed_cells_show_nothing(row: Seq<CellView>)
    ensures
        ({
            let kept = frame::trimmed(row);
            &&& kept.len() <= row.len()
            &&& kept == row.take(kept.len() as int)
            &&& forall|i: int| kept.len() <= i < row.len() ==> shows_nothing(#[trigger] row[i])
            &&& kept.len() > 0 ==> !shows_nothing(kept.last())
        }),
    decreases row.len(),
{
    let kept = frame::trimmed(row);
    if row.len() > 0 && frame::is_default_blank(row.last()) {
        law_trimmed_cells_show_nothing(row.drop_last());
        assert(kept =~= row.take(kept.len() as int));
        assert forall|i: int| kept.len() <= i < row.len() implies shows_nothing(
            #[trigger] row[i],
        ) by {
            if i < row.len() - 1 {
                assert(row.drop_last()[i] == row[i]);
            }
        }
    } else {
        assert(row.take(row.len() as int) =~= row);
    }
}

/// Whether one of the bits of a number is set.
pub open spec fn has_bit(number: u16, value: int) -> bool {
    (number as int / value) % 2 == 1
}

/// Whether a cell shows its foreground: it has a glyph, or is inverse.
pub open spec fn inked(cell: CellView) -> bool {
    cell.ch != ' ' || cell.zerowidth.len() > 0 || cell.wide || cell.inverse
}

/// Whether a run is in the style of a cell: its background, link and width, underline, inverse and
/// strikeout; and where the cell shows its foreground, that with bold, dim, italic and hidden.
pub open spec fn styled_as(run: RunView, cell: CellView) -> bool {
    &&& run.bg == frame::color_name(cell.bg)
    &&& run.link == cell.link
    &&& run.wide == cell.wide
    &&& has_bit(run.attrs, 8) == cell.underline
    &&& has_bit(run.attrs, 16) == cell.inverse
    &&& has_bit(run.attrs, 32) == cell.strikeout
    &&& inked(cell) ==> {
        &&& run.fg == frame::color_name(cell.fg)
        &&& has_bit(run.attrs, 1) == cell.bold
        &&& has_bit(run.attrs, 2) == cell.dim
        &&& has_bit(run.attrs, 4) == cell.italic
        &&& has_bit(run.attrs, 64) == cell.hidden
    }
}

/// The columns of the first cells of a row: two for a wide cell, none for the second half of one.
pub open spec fn columns(row: Seq<CellView>, count: int) -> int
    decreases count,
{
    if count <= 0 {
        0
    } else {
        columns(row, count - 1) + if row[count - 1].spacer {
            0int
        } else if row[count - 1].wide {
            2int
        } else {
            1int
        }
    }
}

/// The columns of the first runs of a row.
pub open spec fn run_columns(runs: Seq<RunView>, count: int) -> int
    decreases count,
{
    if count <= 0 {
        0
    } else {
        run_columns(runs, count - 1) + runs[count - 1].n
    }
}

/// Whether a run covers the columns of a cell in its style.
pub open spec fn covers(runs: Seq<RunView>, k: int, row: Seq<CellView>, i: int) -> bool {
    &&& 0 <= k < runs.len()
    &&& styled_as(runs[k], row[i])
    &&& run_columns(runs, k) <= columns(row, i)
    &&& columns(row, i + 1) <= run_columns(runs, k + 1)
}

proof fn lemma_bits(a: bool, b: bool, c: bool, d: bool, e: bool, f: bool, g: bool)
    ensures
        ({
            let number = (frame::bit(a, frame::ATTR_BOLD) + frame::bit(b, frame::ATTR_DIM)
                + frame::bit(c, frame::ATTR_ITALIC) + frame::bit(d, frame::ATTR_UNDERLINE)
                + frame::bit(e, frame::ATTR_INVERSE) + frame::bit(f, frame::ATTR_STRIKEOUT)
                + frame::bit(g, frame::ATTR_HIDDEN)) as u16;
            &&& has_bit(number, 1) == a
            &&& has_bit(number, 2) == b
            &&& has_bit(number, 4) == c
            &&& has_bit(number, 8) == d
            &&& has_bit(number, 16) == e
            &&& has_bit(number, 32) == f
            &&& has_bit(number, 64) == g
        }),
{
}

proof fn lemma_cell_run(cell: CellView)
    ensures
        styled_as(frame::cell_run(cell), cell),
        frame::cell_run(cell).n == if cell.wide {
            2nat
        } else {
            1nat
        },
{
    let shown = !frame::glyphless(cell);
    lemma_bits(
        cell.bold && shown,
        cell.dim && shown,
        cell.italic && shown,
        cell.underline,
        cell.inverse,
        cell.strikeout,
        cell.hidden && shown,
    );
}

proof fn lemma_same_columns(a: Seq<CellView>, b: Seq<CellView>, count: int)
    requires
        forall|i: int| 0 <= i < count ==> #[trigger] a[i] == b[i],
    ensures
        columns(a, count) == columns(b, count),
    decreases count,
{
    if count > 0 {
        lemma_same_columns(a, b, count - 1);
    }
}

proof fn lemma_same_run_columns(a: Seq<RunView>, b: Seq<RunView>, count: int)
    requires
        forall|i: int| 0 <= i < count ==> #[trigger] a[i] == b[i],
    ensures
        run_columns(a, count) == run_columns(b, count),
    decreases count,
{
    if count > 0 {
        lemma_same_run_columns(a, b, count - 1);
    }
}

proof fn lemma_runs_cover(row: Seq<CellView>, at: int)
    requires
        0 <= at <= row.len(),
        at < row.len() ==> !row[at].spacer,
    ensures
        run_columns(frame::runs_of(row), frame::runs_of(row).len() as int) == columns(
            row,
            row.len() as int,
        ),
        at < row.len() ==> exists|k: int| #[trigger] covers(frame::runs_of(row), k, row, at),
    decreases row.len(),
{
    if row.len() > 0 {
        let front = row.drop_last();
        let cell = row.last();
        let last = row.len() - 1;
        let (runs, before) = (frame::runs_of(row), frame::runs_of(front));
        lemma_runs_cover(front, if at < last { at } else { last });
        lemma_same_columns(front, row, last);
        lemma_cell_run(cell);
        if at < last {
            lemma_same_columns(front, row, at);
            lemma_same_columns(front, row, at + 1);
            assert(front[at] == row[at]);
        }
        let n = before.len() as int;
        if cell.spacer {
            if at < last {
                let k = choose|k: int| #[trigger] covers(before, k, front, at);
                assert(covers(runs, k, row, at));
            }
        } else if n > 0 && frame::same_style(before.last(), frame::cell_run(cell)) {
            lemma_same_run_columns(before, runs, n - 1);
            assert(run_columns(runs, n) == run_columns(runs, n - 1) + runs[n - 1].n);
            assert(run_columns(before, n) == run_columns(before, n - 1) + before[n - 1].n);
            if at < last {
                let k = choose|k: int| #[trigger] covers(before, k, front, at);
                lemma_same_run_columns(before, runs, k);
                if k < n - 1 {
                    lemma_same_run_columns(before, runs, k + 1);
                    assert(runs[k] == before[k]);
                }
                assert(covers(runs, k, row, at));
            } else if at == last {
                assert(styled_as(runs[n - 1], cell));
                assert(covers(runs, n - 1, row, at));
            }
        } else {
            lemma_same_run_columns(before, runs, n);
            assert(run_columns(runs, n + 1) == run_columns(runs, n) + runs[n].n);
            if at < last {
                let k = choose|k: int| #[trigger] covers(before, k, front, at);
                lemma_same_run_columns(before, runs, k);
                lemma_same_run_columns(before, runs, k + 1);
                assert(runs[k] == before[k]);
                assert(covers(runs, k, row, at));
            } else if at == last {
                assert(covers(runs, n, row, at));
            }
        }
    }
}

/// Every column of a row that shows anything is covered by a run in the style of its cell: its
/// background, link and decorations, and its foreground and attributes where it shows them. The runs
/// cover no column beyond the last of them.
pub proof fn law_every_cell_is_in_a_run(y: u16, row: Seq<CellView>, at: int)
    requires
        0 <= at < row.len(),
        !row[at].spacer,
        exists|later: int| at <= later < row.len() && !shows_nothing(#[trigger] row[later]),
    ensures
        ({
            let runs = frame::line_of(y, row).runs;
            let kept = frame::trimmed(row).len() as int;
            &&& at < kept
            &&& exists|k: int| #[trigger] covers(runs, k, row, at)
            &&& run_columns(runs, runs.len() as int) == columns(row, kept)
        }),
{
    law_trimmed_cells_show_nothing(row);
    let kept = frame::trimmed(row);
    let later = choose|later: int|
        at <= later < row.len() && !shows_nothing(#[trigger] row[later]);
    assert(later < kept.len());
    lemma_runs_cover(kept, at);
    let runs = frame::runs_of(kept);
    let k = choose|k: int| #[trigger] covers(runs, k, kept, at);
    lemma_same_columns(kept, row, at);
    lemma_same_columns(kept, row, at + 1);
    lemma_same_columns(kept, row, kept.len() as int);
    assert(kept[at] == row[at]);
    assert(covers(runs, k, row, at));
}

/// The value of a hexadecimal digit.
pub open spec fn digit_value(c: char) -> int {
    if '0' <= c <= '9' {
        c as int - '0' as int
    } else {
        c as int - 'a' as int + 10
    }
}

/// The wire name of a color tells it: `default`, `palette:` and the index in decimal, or `#` and two
/// hexadecimal digits for each of red, green and blue.
pub proof fn law_color_name_tells_the_color(color: TerminalColor)
    ensures
        ({
            let name = frame::color_name(color);
            match color {
                TerminalColor::Default => name == "default"@,
                TerminalColor::Named(index) | TerminalColor::Indexed(index) => name == "palette:"@
                    + text::decimal(index as nat),
                TerminalColor::Rgb(r, g, b) => {
                    &&& name.len() == 7
                    &&& name[0] == '#'
                    &&& digit_value(name[1]) * 16 + digit_value(name[2]) == r
                    &&& digit_value(name[3]) * 16 + digit_value(name[4]) == g
                    &&& digit_value(name[5]) * 16 + digit_value(name[6]) == b
                },
            }
        }),
{
    if let TerminalColor::Rgb(r, g, b) = color {
        reveal_strlit("#");
        let name = frame::color_name(color);
        lemma_hex(r);
        lemma_hex(g);
        lemma_hex(b);
        assert(name[1] == text::hex_byte(r)[0] && name[2] == text::hex_byte(r)[1]);
        assert(name[3] == text::hex_byte(g)[0] && name[4] == text::hex_byte(g)[1]);
        assert(name[5] == text::hex_byte(b)[0] && name[6] == text::hex_byte(b)[1]);
    }
}

proof fn lemma_hex(byte: u8)
    ensures
        digit_value(text::hex_byte(byte)[0]) * 16 + digit_value(text::hex_byte(byte)[1]) == byte,
{
    let (high, low) = (byte as nat / 16, byte as nat % 16);
    assert(digit_value(text::hex_digit(high)) == high);
    assert(digit_value(text::hex_digit(low)) == low);
}

/// A frame reports the engine as it is: its size, its cursor, its modes, the screen it shows and
/// the history behind it. Row `y` is the line `y - offset` of the engine, where the offset is the
/// wanted one as far as there is history, and none on the alternate screen; it wraps where its last
/// cell does.
pub proof fn law_frame_reports_the_engine(screen: EngineScreen, offset: usize, y: int)
    requires
        0 <= y < screen.rows,
    ensures
        ({
            let shown = mirror::frame_of(screen, offset);
            let line = shown.lines[y];
            let row = (screen.lines)(y - shown.offset);
            &&& (shown.cols, shown.rows) == (screen.cols, screen.rows)
            &&& shown.cursor == screen.cursor
            &&& shown.cursor_visible == screen.modes.show_cursor
            &&& shown.cursor_style == screen.cursor_style
            &&& shown.cursor_animation == screen.cursor_animation
            &&& shown.alt_active == screen.alt_active
            &&& shown.history_size == screen.history_size
            &&& shown.modes == screen.modes
            &&& screen.alt_active ==> shown.offset == 0
            &&& !screen.alt_active && offset <= screen.history_size ==> shown.offset == offset
            &&& !screen.alt_active && offset > screen.history_size ==> shown.offset
                == screen.history_size
            &&& shown.lines.len() == screen.rows
            &&& line.y == y
            &&& shown.offset <= i32::MAX ==> {
                &&& line.wrapped == (row.len() > 0 && row.last().wrapline)
                &&& line == frame::line_of(y as u16, row)
            }
        }),
{
}

} // verus!
