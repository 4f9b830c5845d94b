//! What a repaint shows, on a display that takes it in.

use vstd::prelude::*;

use crate::cells::{
    self, CellView, TerminalColor, TerminalCursorShape, TerminalCursorStyle, TerminalModes,
};
use crate::display::{self, Display, Glyph};
use crate::engine::EngineScreen;
use crate::mirror::{self, FrozenView};
use crate::paint::{self, Sgr};
use crate::text;

verus! {

/// A color as a terminal can select it: a name beyond the sixteen is the default.
pub open spec fn shown_color(color: TerminalColor) -> TerminalColor {
    if display::selectable(color) {
        color
    } else {
        TerminalColor::Default
    }
}

/// The rendition of a cell.
pub open spec fn rendition(cell: CellView) -> Sgr {
    Sgr {
        bold: cell.bold,
        dim: cell.dim,
        italic: cell.italic,
        underline: cell.underline,
        inverse: cell.inverse,
        hidden: cell.hidden,
        strikeout: cell.strikeout,
        foreground: shown_color(cell.fg),
        background: shown_color(cell.bg),
    }
}

/// The glyphs of characters in one rendition.
pub open spec fn glyphs_in(chars: Seq<char>, style: Sgr) -> Seq<Glyph>
    decreases chars.len(),
{
    if chars.len() == 0 {
        Seq::empty()
    } else {
        glyphs_in(chars.drop_last(), style).push(Glyph { ch: chars.last(), style })
    }
}

/// The glyphs of a row: the character of every cell and what combines with it, in the cell's own
/// rendition. The second half of a wide cell has none.
pub open spec fn glyphs(row: Seq<CellView>) -> Seq<Glyph>
    decreases row.len(),
{
    if row.len() == 0 {
        Seq::empty()
    } else {
        let before = glyphs(row.drop_last());
        let cell = row.last();
        if cell.spacer {
            before
        } else {
            before + glyphs_in(seq![cell.ch] + cell.zerowidth, rendition(cell))
        }
    }
}

pub proof fn lemma_one_glyph(c: char, style: Sgr)
    ensures
        glyphs_in(seq![c], style) == seq![Glyph { ch: c, style }],
{
    reveal_with_fuel(glyphs_in, 2);
    assert(seq![c].drop_last() =~= Seq::<char>::empty());
    assert(glyphs_in(seq![c], style) =~= seq![Glyph { ch: c, style }]);
}

pub proof fn lemma_glyph_behind(front: Seq<char>, c: char, style: Sgr)
    ensures
        glyphs_in(front.push(c), style) == glyphs_in(front, style) + glyphs_in(seq![c], style),
{
    lemma_one_glyph(c, style);
    assert(front.push(c).drop_last() =~= front);
    assert(glyphs_in(front.push(c), style) =~= glyphs_in(front, style) + seq![
        Glyph { ch: c, style },
    ]);
}

/// Whether a character prints.
pub open spec fn prints(c: char) -> bool {
    c >= ' ' && c != '\x7f'
}

/// Whether a row holds characters that print.
pub open spec fn printable(row: Seq<CellView>) -> bool {
    forall|i: int|
        0 <= i < row.len() ==> prints((#[trigger] row[i]).ch) && forall|j: int|
            0 <= j < row[i].zerowidth.len() ==> prints(#[trigger] row[i].zerowidth[j])
}

/// Whether `shown` is what is wanted, but for blanks at the end in the plain rendition.
pub open spec fn shows(shown: Seq<Glyph>, wanted: Seq<Glyph>) -> bool {
    &&& shown.len() <= wanted.len()
    &&& wanted.take(shown.len() as int) == shown
    &&& forall|i: int|
        shown.len() <= i < wanted.len() ==> #[trigger] wanted[i] == (Glyph {
            ch: ' ',
            style: display::reset(),
        })
}

/// The lines of a screen with glyphs behind one of them.
pub open spec fn lengthened(
    lines: spec_fn(int) -> Seq<Glyph>,
    at: int,
    more: Seq<Glyph>,
) -> spec_fn(int) -> Seq<Glyph> {
    |row: int|
        if row == at {
            lines(row) + more
        } else {
            lines(row)
        }
}

/// A display that has printed glyphs to its line and is in another rendition.
pub open spec fn printed(d: Display, more: Seq<Glyph>, style: Sgr) -> Display {
    if d.alternate {
        Display { other: lengthened(d.other, d.row, more), style, ..d }
    } else {
        Display { primary: lengthened(d.primary, d.row, more), style, ..d }
    }
}

proof fn lemma_lengthened_by_nothing(lines: spec_fn(int) -> Seq<Glyph>, at: int)
    ensures
        lengthened(lines, at, Seq::empty()) == lines,
{
    assert forall|row: int| #[trigger] lengthened(lines, at, Seq::empty())(row) == lines(row) by {
        assert(lines(row) + Seq::<Glyph>::empty() =~= lines(row));
    }
    assert(lengthened(lines, at, Seq::empty()) =~= lines);
}

proof fn lemma_lengthened_twice(
    lines: spec_fn(int) -> Seq<Glyph>,
    at: int,
    a: Seq<Glyph>,
    b: Seq<Glyph>,
)
    ensures
        lengthened(lengthened(lines, at, a), at, b) == lengthened(lines, at, a + b),
{
    assert forall|row: int| #[trigger]
        lengthened(lengthened(lines, at, a), at, b)(row) == lengthened(lines, at, a + b)(row) by {
        assert(lines(row) + a + b =~= lines(row) + (a + b));
    }
    assert(lengthened(lengthened(lines, at, a), at, b) =~= lengthened(lines, at, a + b));
}

pub proof fn lemma_printed_nothing(d: Display)
    ensures
        printed(d, Seq::empty(), d.style) == d,
{
    lemma_lengthened_by_nothing(d.primary, d.row);
    lemma_lengthened_by_nothing(d.other, d.row);
}

pub proof fn lemma_printed_twice(d: Display, a: Seq<Glyph>, s: Sgr, b: Seq<Glyph>, t: Sgr)
    ensures
        printed(printed(d, a, s), b, t) == printed(d, a + b, t),
{
    lemma_lengthened_twice(d.primary, d.row, a, b);
    lemma_lengthened_twice(d.other, d.row, a, b);
}

proof fn lemma_prints_one(d: Display, c: char)
    requires
        d.pending.len() == 0,
        prints(c),
    ensures
        display::took(d, c) == printed(d, glyphs_in(seq![c], d.style), d.style),
{
    let more = glyphs_in(seq![c], d.style);
    let taken = display::took(d, c);
    let wanted = printed(d, more, d.style);
    lemma_one_glyph(c, d.style);
    assert forall|row: int| #[trigger] (taken.primary)(row) == (wanted.primary)(row) by {
        assert((d.primary)(row).push(Glyph { ch: c, style: d.style }) =~= (d.primary)(row) + more);
    }
    assert forall|row: int| #[trigger] (taken.other)(row) == (wanted.other)(row) by {
        assert((d.other)(row).push(Glyph { ch: c, style: d.style }) =~= (d.other)(row) + more);
    }
    assert(taken.primary =~= wanted.primary);
    assert(taken.other =~= wanted.other);
}

pub proof fn lemma_prints_all(d: Display, chars: Seq<char>)
    requires
        d.pending.len() == 0,
        forall|i: int| 0 <= i < chars.len() ==> prints(#[trigger] chars[i]),
    ensures
        display::took_all(d, chars) == printed(d, glyphs_in(chars, d.style), d.style),
    decreases chars.len(),
{
    if chars.len() == 0 {
        lemma_printed_nothing(d);
    } else {
        let front = chars.drop_last();
        assert forall|i: int| 0 <= i < front.len() implies prints(#[trigger] front[i]) by {
            assert(front[i] == chars[i]);
        }
        lemma_prints_all(d, front);
        let before = printed(d, glyphs_in(front, d.style), d.style);
        assert(prints(chars[chars.len() - 1]));
        lemma_prints_one(before, chars.last());
        lemma_printed_twice(
            d,
            glyphs_in(front, d.style),
            d.style,
            glyphs_in(seq![chars.last()], d.style),
            d.style,
        );
        assert(chars =~= front.push(chars.last()));
        lemma_glyph_behind(front, chars.last(), d.style);
    }
}

pub proof fn lemma_rendition(cell: CellView)
    ensures
        paint::sgr_of(cell) == rendition(cell),
        display::selectable(rendition(cell).foreground),
        display::selectable(rendition(cell).background),
{
}

/// The cells of a row print as their glyphs, each in its own rendition.
pub proof fn law_cells_print_in_their_rendition(d: Display, row: Seq<CellView>)
    requires
        d.pending.len() == 0,
        printable(row),
    ensures
        ({
            let (output, style) = paint::cells_paint(row, d.style);
            &&& display::textual(output)
            &&& display::showing(d, output) == printed(d, glyphs(row), style)
        }),
    decreases row.len(),
{
    let (output, style) = paint::cells_paint(row, d.style);
    if row.len() == 0 {
        lemma_printed_nothing(d);
        display::lemma_text_shows(d, Seq::empty());
        assert(text::utf8(Seq::empty()) =~= Seq::<u8>::empty());
    } else {
        let front = row.drop_last();
        let cell = row.last();
        assert forall|i: int| 0 <= i < front.len() implies prints((#[trigger] front[i]).ch)
            && forall|j: int|
            0 <= j < front[i].zerowidth.len() ==> prints(#[trigger] front[i].zerowidth[j]) by {
            assert(front[i] == row[i]);
        }
        law_cells_print_in_their_rendition(d, front);
        let (before, held) = paint::cells_paint(front, d.style);
        let middle = printed(d, glyphs(front), held);
        if !cell.spacer {
            lemma_rendition(cell);
            let next = rendition(cell);
            let change = if next != held {
                text::utf8(paint::sgr_text(next))
            } else {
                Seq::empty()
            };
            let dressed = Display { style: next, ..middle };
            if next != held {
                display::law_sent_rendition_is_selected(middle, next);
            } else {
                display::lemma_text_shows(middle, Seq::empty());
                assert(text::utf8(Seq::empty()) =~= Seq::<u8>::empty());
            }
            assert(display::textual(change) && display::showing(middle, change) == dressed);
            let chars = seq![cell.ch] + cell.zerowidth;
            assert(cells::cell_text(cell) == chars);
            assert forall|i: int| 0 <= i < chars.len() implies prints(#[trigger] chars[i]) by {
                assert(row[row.len() - 1] == cell);
                if i > 0 {
                    assert(chars[i] == cell.zerowidth[i - 1]);
                }
            }
            lemma_prints_all(dressed, chars);
            display::lemma_text_shows(dressed, chars);
            display::lemma_shows_both(d, before, change);
            display::lemma_shows_both(d, before + change, text::utf8(chars));
            assert(dressed == printed(d, glyphs(front), next));
            lemma_printed_twice(d, glyphs(front), next, glyphs_in(chars, next), next);
        }
    }
}

pub proof fn lemma_trailing(row: Seq<CellView>)
    ensures
        ({
            let kept = paint::without_trailing_blanks(row);
            &&& kept.len() <= row.len()
            &&& kept == row.take(kept.len() as int)
            &&& shows(glyphs(kept), glyphs(row))
        }),
    decreases row.len(),
{
    if row.len() > 0 && paint::is_blank(row.last()) {
        let front = row.drop_last();
        let cell = row.last();
        lemma_trailing(front);
        let kept = paint::without_trailing_blanks(front);
        assert(kept =~= row.take(kept.len() as int));
        if !cell.spacer {
            let chars = seq![cell.ch] + cell.zerowidth;
            assert(chars =~= seq![' ']);
            assert(rendition(cell) == display::reset());
            let more = glyphs_in(chars, rendition(cell));
            lemma_one_glyph(' ', rendition(cell));
            assert(glyphs(row) == glyphs(front) + more);
            let n = glyphs(kept).len() as int;
            assert(glyphs(row).take(n) =~= glyphs(front).take(n));
            assert forall|i: int| n <= i < glyphs(row).len() implies #[trigger] glyphs(row)[i] == (
            Glyph { ch: ' ', style: display::reset() }) by {
                if i < glyphs(front).len() {
                    assert(glyphs(row)[i] == glyphs(front)[i]);
                }
            }
        }
    } else {
        assert(row.take(row.len() as int) =~= row);
        assert(glyphs(row).take(glyphs(row).len() as int) =~= glyphs(row));
    }
}

/// A painted row shows its cells, each in its own rendition. What is left out at its end is blank
/// and plain, and nothing is left out of a row that wraps.
pub proof fn law_painted_row_shows_its_cells(d: Display, row: Seq<CellView>)
    requires
        d.pending.len() == 0,
        printable(row),
    ensures
        ({
            let (output, style) = paint::row_paint(row, d.style);
            &&& display::textual(output)
            &&& exists|shown: Seq<Glyph>| #[trigger]
                shows(shown, glyphs(row)) && (cells::row_wraps(row) ==> shown == glyphs(row))
                    && display::showing(d, output) == printed(d, shown, style)
        }),
{
    lemma_trailing(row);
    let kept = paint::painted_cells(row);
    assert(printable(kept)) by {
        assert forall|i: int| 0 <= i < kept.len() implies prints((#[trigger] kept[i]).ch)
            && forall|j: int|
            0 <= j < kept[i].zerowidth.len() ==> prints(#[trigger] kept[i].zerowidth[j]) by {
            assert(kept[i] == row[i]);
        }
    }
    law_cells_print_in_their_rendition(d, kept);
    assert(glyphs(row).take(glyphs(row).len() as int) =~= glyphs(row));
    assert(shows(glyphs(kept), glyphs(row)));
}

/// The rows of a screen with its history, top to bottom, as lines: a row that wraps goes on in the
/// next one, and any other row but the last ends its line.
pub open spec fn lines_of(screen: EngineScreen, count: nat) -> Seq<Seq<Glyph>>
    decreases count,
{
    if count == 0 {
        seq![Seq::empty()]
    } else {
        let before = lines_of(screen, (count - 1) as nat);
        let row = (screen.lines)(count - 1 - screen.history_size);
        let longer = before.drop_last().push(before.last() + glyphs(row));
        if cells::row_wraps(row) || count == screen.history_size + screen.rows {
            longer
        } else {
            longer.push(Seq::empty())
        }
    }
}

/// Whether every row of a screen with its history holds characters that print.
pub open spec fn readable(screen: EngineScreen) -> bool {
    forall|line: int|
        -screen.history_size <= line < screen.rows ==> printable(#[trigger] (screen.lines)(line))
}

/// A display on which nothing is written from its line on.
pub open spec fn open_at(d: Display) -> bool {
    &&& d.pending.len() == 0
    &&& !d.alternate
    &&& forall|row: int| row >= d.row ==> #[trigger] (d.primary)(row) == Seq::<Glyph>::empty()
}

/// Whether a display differs from another in what its primary screen shows from a line on, as some
/// lines want it, and stands in the last of them.
pub open spec fn wrote(d: Display, after: Display, wanted: Seq<Seq<Glyph>>) -> bool {
    &&& after == (Display { primary: after.primary, row: after.row, style: after.style, ..d })
    &&& after.row == d.row + wanted.len() - 1
    &&& forall|row: int|
        row < d.row || row >= d.row + wanted.len() ==> #[trigger] (after.primary)(row) == (
        d.primary)(row)
    &&& forall|k: int|
        0 <= k < wanted.len() ==> shows((after.primary)(d.row + k), #[trigger] wanted[k])
}

pub proof fn lemma_shows_itself(glyphs: Seq<Glyph>)
    ensures
        shows(glyphs, glyphs),
{
    assert(glyphs.take(glyphs.len() as int) =~= glyphs);
}

proof fn lemma_shows_behind(line: Seq<Glyph>, shown: Seq<Glyph>, wanted: Seq<Glyph>)
    requires
        shows(shown, wanted),
    ensures
        shows(line + shown, line + wanted),
{
    let n = (line + shown).len() as int;
    assert forall|i: int| 0 <= i < n implies (line + wanted)[i] == #[trigger] (line + shown)[i] by {
        if i >= line.len() {
            assert(wanted.take(shown.len() as int)[i - line.len()] == shown[i - line.len()]);
        }
    }
    assert((line + wanted).take(n) =~= line + shown);
    assert forall|i: int| n <= i < (line + wanted).len() implies #[trigger] (line + wanted)[i] == (
    Glyph { ch: ' ', style: display::reset() }) by {
        assert((line + wanted)[i] == wanted[i - line.len()]);
    }
}

pub proof fn lemma_reset(d: Display)
    requires
        d.pending.len() == 0,
    ensures
        display::textual(text::utf8("\x1b[0m"@)),
        display::showing(d, text::utf8("\x1b[0m"@)) == (Display { style: display::reset(), ..d }),
{
    reveal_strlit("\x1b[0m");
    assert("\x1b[0m"@ =~= seq!['\x1b', '['] + seq!['0'] + seq!['m']);
    display::lemma_control(d, seq!['0'], 'm');
    display::lemma_text_shows(d, "\x1b[0m"@);
    display::lemma_zero(d.style);
}

pub proof fn lemma_line_break(d: Display)
    requires
        d.pending.len() == 0,
    ensures
        display::textual(text::utf8("\r\n"@)),
        display::showing(d, text::utf8("\r\n"@)) == (Display { row: d.row + 1, ..d }),
{
    reveal_strlit("\r\n");
    reveal_with_fuel(display::took_all, 3);
    assert("\r\n"@ =~= seq!['\r', '\n']);
    assert(seq!['\r', '\n'].drop_last() =~= seq!['\r']);
    assert(seq!['\r'].drop_last() =~= Seq::<char>::empty());
    display::lemma_text_shows(d, "\r\n"@);
}

pub proof fn lemma_reset_and_break(d: Display)
    requires
        d.pending.len() == 0,
    ensures
        display::textual(text::utf8("\x1b[0m\r\n"@)),
        display::showing(d, text::utf8("\x1b[0m\r\n"@)) == (Display {
            style: display::reset(),
            row: d.row + 1,
            ..d
        }),
{
    reveal_strlit("\x1b[0m\r\n");
    reveal_strlit("\x1b[0m");
    reveal_strlit("\r\n");
    assert("\x1b[0m\r\n"@ =~= "\x1b[0m"@ + "\r\n"@);
    display::lemma_utf8_joined("\x1b[0m"@, "\r\n"@);
    lemma_reset(d);
    lemma_line_break(Display { style: display::reset(), ..d });
    display::lemma_shows_both(d, text::utf8("\x1b[0m"@), text::utf8("\r\n"@));
}

/// The paint of the first rows of a screen shows them in their lines. The last line is complete
/// where more rows may follow in it.
proof fn lemma_primary_rows(d: Display, screen: EngineScreen, count: nat)
    requires
        open_at(d),
        d.style == display::reset(),
        readable(screen),
        count <= screen.history_size + screen.rows,
    ensures
        ({
            let (output, style) = mirror::primary_rows(screen, count);
            let after = display::showing(d, output);
            let wanted = lines_of(screen, count);
            &&& display::textual(output)
            &&& wanted.len() > 0
            &&& wrote(d, after, wanted)
            &&& after.style == style
            &&& count < screen.history_size + screen.rows || count == 0 || cells::row_wraps(
                (screen.lines)(count - 1 - screen.history_size),
            ) ==> (after.primary)(after.row) == wanted.last()
        }),
    decreases count,
{
    let (output, style) = mirror::primary_rows(screen, count);
    let wanted = lines_of(screen, count);
    let after = display::showing(d, output);
    if count == 0 {
        display::lemma_text_shows(d, Seq::empty());
        assert(text::utf8(Seq::empty()) =~= Seq::<u8>::empty());
        lemma_shows_itself(Seq::empty());
        assert(wanted[0] == Seq::<Glyph>::empty());
    } else {
        let total = screen.history_size + screen.rows;
        let line = count - 1 - screen.history_size;
        let row = (screen.lines)(line);
        lemma_primary_rows(d, screen, (count - 1) as nat);
        let (before, held) = mirror::primary_rows(screen, (count - 1) as nat);
        let earlier = lines_of(screen, (count - 1) as nat);
        let middle = display::showing(d, before);
        assert(printable(row));
        law_painted_row_shows_its_cells(middle, row);
        let (painted, next) = paint::row_paint(row, held);
        let shown = choose|shown: Seq<Glyph>| #[trigger]
            shows(shown, glyphs(row)) && (cells::row_wraps(row) ==> shown == glyphs(row))
                && display::showing(middle, painted) == printed(middle, shown, next);
        let inked = printed(middle, shown, next);
        display::lemma_shows_both(d, before, painted);
        let longer = earlier.drop_last().push(earlier.last() + glyphs(row));
        assert((middle.primary)(middle.row) == earlier.last());
        lemma_shows_behind(earlier.last(), shown, glyphs(row));
        assert forall|k: int| 0 <= k < longer.len() implies shows(
            (inked.primary)(d.row + k),
            #[trigger] longer[k],
        ) by {
            if k < longer.len() - 1 {
                assert(longer[k] == earlier[k]);
            }
        }
        if !cells::row_wraps(row) && count != total {
            lemma_reset_and_break(inked);
            display::lemma_shows_both(d, before + painted, text::utf8("\x1b[0m\r\n"@));
            lemma_shows_itself(Seq::empty());
            assert forall|k: int| 0 <= k < wanted.len() implies shows(
                (after.primary)(d.row + k),
                #[trigger] wanted[k],
            ) by {
                if k < longer.len() {
                    assert(wanted[k] == longer[k]);
                } else {
                    assert((after.primary)(d.row + k) == (d.primary)(d.row + k));
                }
            }
        } else {
            assert forall|k: int| 0 <= k < wanted.len() implies shows(
                (after.primary)(d.row + k),
                #[trigger] wanted[k],
            ) by {
                assert(wanted[k] == longer[k]);
            }
        }
    }
}

/// The paint of a primary screen shows it with its history, line by line, from the line a display
/// stands in: every row in its place, every cell in its own rendition. Only plain blanks at the end
/// of a line are left out. The rendition is plain afterwards.
pub proof fn law_primary_paint_shows_the_screen(d: Display, screen: EngineScreen)
    requires
        open_at(d),
        d.style == display::reset(),
        readable(screen),
    ensures
        ({
            let output = mirror::primary_paint(screen);
            let after = display::showing(d, output);
            let wanted = lines_of(screen, (screen.history_size + screen.rows) as nat);
            &&& display::textual(output)
            &&& wanted.len() > 0
            &&& wrote(d, after, wanted)
            &&& after.style == display::reset()
        }),
{
    let count = (screen.history_size + screen.rows) as nat;
    lemma_primary_rows(d, screen, count);
    let rows = mirror::primary_rows(screen, count).0;
    let middle = display::showing(d, rows);
    lemma_reset(middle);
    display::lemma_shows_both(d, rows, text::utf8("\x1b[0m"@));
}

proof fn lemma_move(d: Display, row: nat, col: nat, body: Seq<char>)
    requires
        d.pending.len() == 0,
        body == text::decimal(row) + seq![';'] + text::decimal(col),
    ensures
        display::took_all(d, seq!['\x1b', '['] + body + seq!['H']) == (Display {
            row: row - 1,
            place: (row - 1, col - 1),
            ..d
        }),
{
    display::lemma_two_numbers(row, col);
    assert(text::decimal(row) + (seq![';'] + text::decimal(col)) =~= body);
    display::lemma_control(d, body, 'H');
}

proof fn lemma_row_start(d: Display, row: nat)
    requires
        d.pending.len() == 0,
    ensures
        display::textual(mirror::row_start(row)),
        display::showing(d, mirror::row_start(row)) == (Display {
            row: row - 1,
            place: (row - 1, 0),
            ..d
        }),
{
    reveal_strlit("\x1b[");
    reveal_strlit(";1H");
    let chars = "\x1b["@ + text::decimal(row) + ";1H"@;
    let body = text::decimal(row) + seq![';'] + text::decimal(1);
    assert(text::decimal(1) =~= seq!['1']);
    assert(chars =~= seq!['\x1b', '['] + body + seq!['H']);
    lemma_move(d, row, 1, body);
    display::lemma_text_shows(d, chars);
}

proof fn lemma_cup(d: Display, cursor: (usize, usize))
    requires
        d.pending.len() == 0,
    ensures
        display::textual(paint::cup_bytes(cursor)),
        display::showing(d, paint::cup_bytes(cursor)) == (Display {
            row: cursor.0 as int,
            place: (cursor.0 as int, cursor.1 as int),
            ..d
        }),
{
    reveal_strlit("\x1b[");
    reveal_strlit(";");
    reveal_strlit("H");
    let (row, col) = ((cursor.0 + 1) as nat, (cursor.1 + 1) as nat);
    let chars = "\x1b["@ + text::decimal(row) + ";"@ + text::decimal(col) + "H"@;
    let body = text::decimal(row) + seq![';'] + text::decimal(col);
    assert(chars =~= seq!['\x1b', '['] + body + seq!['H']);
    lemma_move(d, row, col, body);
    display::lemma_text_shows(d, chars);
}

/// A display on whose alternate screen nothing is written.
pub open spec fn cleared(d: Display) -> Display {
    Display { other: |row: int| Seq::empty(), ..d }
}

proof fn lemma_clear(d: Display)
    requires
        d.pending.len() == 0,
        d.alternate,
    ensures
        display::textual(text::utf8("\x1b[2J"@)),
        display::showing(d, text::utf8("\x1b[2J"@)) == cleared(d),
{
    reveal_strlit("\x1b[2J");
    assert("\x1b[2J"@ =~= seq!['\x1b', '['] + seq!['2'] + seq!['J']);
    display::lemma_one_number(2);
    assert(text::decimal(2) =~= seq!['2']);
    display::lemma_control(d, seq!['2'], 'J');
    display::lemma_text_shows(d, "\x1b[2J"@);
    let shown = display::showing(d, text::utf8("\x1b[2J"@));
    assert(shown.other =~= cleared(d).other);
}

proof fn lemma_alt_rows(d: Display, screen: EngineScreen, count: nat)
    requires
        d.pending.len() == 0,
        d.alternate,
        d.style == display::reset(),
        readable(screen),
        count <= screen.rows,
    ensures
        ({
            let (output, style) = mirror::alt_rows(screen, count);
            let after = display::showing(d, output);
            &&& display::textual(output)
            &&& after == (Display {
                other: after.other,
                row: after.row,
                place: after.place,
                style,
                ..d
            })
            &&& forall|row: int|
                0 <= row < count ==> shows(
                    #[trigger] (after.other)(row),
                    glyphs((screen.lines)(row)),
                )
            &&& forall|row: int|
                row < 0 || row >= count ==> #[trigger] (after.other)(row) == Seq::<Glyph>::empty()
        }),
    decreases count,
{
    let (output, style) = mirror::alt_rows(screen, count);
    let after = display::showing(d, output);
    if count == 0 {
        lemma_clear(d);
    } else {
        lemma_alt_rows(d, screen, (count - 1) as nat);
        let (before, held) = mirror::alt_rows(screen, (count - 1) as nat);
        let middle = display::showing(d, before);
        let row = (screen.lines)(count - 1);
        assert(printable(row));
        let moved = Display { row: count - 1, place: (count - 1, 0int), ..middle };
        lemma_row_start(middle, count);
        law_painted_row_shows_its_cells(moved, row);
        let (painted, next) = paint::row_paint(row, held);
        let shown = choose|shown: Seq<Glyph>| #[trigger]
            shows(shown, glyphs(row)) && (cells::row_wraps(row) ==> shown == glyphs(row))
                && display::showing(moved, painted) == printed(moved, shown, next);
        let inked = printed(moved, shown, next);
        assert((moved.other)(count - 1) == Seq::<Glyph>::empty());
        assert((inked.other)(count - 1) =~= shown);
        if painted.len() == 0 {
            display::lemma_text_shows(moved, Seq::empty());
            assert(text::utf8(Seq::empty()) =~= painted);
            assert(inked == moved);
            assert((after.other)(count - 1) == shown);
            assert(next == held);
        } else {
            display::lemma_shows_both(d, before, mirror::row_start(count));
            display::lemma_shows_both(d, before + mirror::row_start(count), painted);
            assert(after == inked);
        }
        assert forall|r: int| 0 <= r < count implies shows(
            #[trigger] (after.other)(r),
            glyphs((screen.lines)(r)),
        ) by {
            if r < count - 1 {
                assert((after.other)(r) == (middle.other)(r));
            }
        }
        assert forall|r: int| r < 0 || r >= count implies #[trigger] (after.other)(r) == Seq::<
            Glyph,
        >::empty() by {
            assert((after.other)(r) == (middle.other)(r));
        }
    }
}

proof fn lemma_private(d: Display, mode: nat, on: bool, chars: Seq<char>)
    requires
        d.pending.len() == 0,
        chars == seq!['\x1b', '[', '?'] + text::decimal(mode) + seq![if on { 'h' } else { 'l' }],
    ensures
        display::took_all(d, chars) == (Display {
            alternate: if mode == 1049 {
                on
            } else {
                d.alternate
            },
            saved: if mode == 1049 && on {
                d.place
            } else {
                d.saved
            },
            private: if on {
                d.private.insert(mode)
            } else {
                d.private.remove(mode)
            },
            ..d
        }),
{
    let last = if on { 'h' } else { 'l' };
    let body = seq!['?'] + text::decimal(mode);
    display::lemma_one_number(mode);
    assert(body.drop_first() =~= text::decimal(mode));
    assert forall|i: int| 0 <= i < body.len() implies display::in_body(#[trigger] body[i]) by {
        if i > 0 {
            assert(body[i] == text::decimal(mode)[i - 1]);
        }
    }
    assert(chars =~= seq!['\x1b', '['] + body + seq![last]);
    display::lemma_control(d, body, last);
}

/// A display after one mode was set, if it was.
#[verifier::opaque]
spec fn mode_set(d: Display, given: bool, mode: nat, on: bool) -> Display {
    if given {
        Display {
            private: if on {
                d.private.insert(mode)
            } else {
                d.private.remove(mode)
            },
            ..d
        }
    } else {
        d
    }
}

proof fn lemma_mode(d: Display, given: bool, mode: nat, on: bool, chars: Seq<char>)
    requires
        d.pending.len() == 0,
        mode != 1049,
        chars == seq!['\x1b', '[', '?'] + text::decimal(mode) + seq![if on { 'h' } else { 'l' }],
    ensures
        display::took_all(d, paint::when(given, chars)) == mode_set(d, given, mode, on),
        mode_set(d, given, mode, on) == (Display {
            private: mode_set(d, given, mode, on).private,
            ..d
        }),
        forall|m: nat| #[trigger]
            mode_set(d, given, mode, on).private.contains(m) == if given && m == mode {
                on
            } else {
                d.private.contains(m)
            },
{
    reveal(mode_set);
    lemma_private(d, mode, on, chars);
}

proof fn lemma_keypad(d: Display, given: bool)
    requires
        d.pending.len() == 0,
    ensures
        display::took_all(d, paint::when(given, "\x1b="@)) == (Display {
            keypad: d.keypad || given,
            ..d
        }),
{
    reveal_strlit("\x1b=");
    reveal_with_fuel(display::took_all, 3);
    let chars = "\x1b="@;
    assert(chars =~= seq!['\x1b', '=']);
    assert(chars.drop_last() =~= seq!['\x1b']);
    assert(seq!['\x1b'].drop_last() =~= Seq::<char>::empty());
    assert(d.pending =~= Seq::<char>::empty());
}

proof fn lemma_insert(d: Display, given: bool)
    requires
        d.pending.len() == 0,
    ensures
        display::took_all(d, paint::when(given, "\x1b[4h"@)) == (Display {
            public: if given {
                d.public.insert(4)
            } else {
                d.public
            },
            ..d
        }),
{
    reveal_strlit("\x1b[4h");
    assert("\x1b[4h"@ =~= seq!['\x1b', '['] + seq!['4'] + seq!['h']);
    display::lemma_one_number(4);
    assert(text::decimal(4) =~= seq!['4']);
    display::lemma_control(d, seq!['4'], 'h');
}

proof fn lemma_mode_texts()
    ensures
        "\x1b[?2004h"@ == seq!['\x1b', '[', '?'] + text::decimal(2004) + seq!['h'],
        "\x1b[?1h"@ == seq!['\x1b', '[', '?'] + text::decimal(1) + seq!['h'],
        "\x1b[?1000h"@ == seq!['\x1b', '[', '?'] + text::decimal(1000) + seq!['h'],
        "\x1b[?1002h"@ == seq!['\x1b', '[', '?'] + text::decimal(1002) + seq!['h'],
        "\x1b[?1003h"@ == seq!['\x1b', '[', '?'] + text::decimal(1003) + seq!['h'],
        "\x1b[?1006h"@ == seq!['\x1b', '[', '?'] + text::decimal(1006) + seq!['h'],
        "\x1b[?1005h"@ == seq!['\x1b', '[', '?'] + text::decimal(1005) + seq!['h'],
        "\x1b[?1004h"@ == seq!['\x1b', '[', '?'] + text::decimal(1004) + seq!['h'],
        "\x1b[?1007h"@ == seq!['\x1b', '[', '?'] + text::decimal(1007) + seq!['h'],
        "\x1b[?1049h"@ == seq!['\x1b', '[', '?'] + text::decimal(1049) + seq!['h'],
        "\x1b[?7l"@ == seq!['\x1b', '[', '?'] + text::decimal(7) + seq!['l'],
        "\x1b[?25l"@ == seq!['\x1b', '[', '?'] + text::decimal(25) + seq!['l'],
{
    reveal_strlit("\x1b[?2004h");
    reveal_strlit("\x1b[?1h");
    reveal_strlit("\x1b[?1000h");
    reveal_strlit("\x1b[?1002h");
    reveal_strlit("\x1b[?1003h");
    reveal_strlit("\x1b[?1006h");
    reveal_strlit("\x1b[?1005h");
    reveal_strlit("\x1b[?1004h");
    reveal_strlit("\x1b[?1007h");
    reveal_strlit("\x1b[?1049h");
    reveal_strlit("\x1b[?7l");
    reveal_strlit("\x1b[?25l");
    reveal_with_fuel(text::decimal, 5);
    assert(text::decimal(10) =~= seq!['1', '0']);
    assert(text::decimal(100) =~= seq!['1', '0', '0']);
    assert(text::decimal(104) =~= seq!['1', '0', '4']);
    assert(text::decimal(2004) =~= seq!['2', '0', '0', '4']);
    assert(text::decimal(1) =~= seq!['1']);
    assert(text::decimal(1000) =~= seq!['1', '0', '0', '0']);
    assert(text::decimal(1002) =~= seq!['1', '0', '0', '2']);
    assert(text::decimal(1003) =~= seq!['1', '0', '0', '3']);
    assert(text::decimal(1006) =~= seq!['1', '0', '0', '6']);
    assert(text::decimal(1005) =~= seq!['1', '0', '0', '5']);
    assert(text::decimal(1004) =~= seq!['1', '0', '0', '4']);
    assert(text::decimal(1007) =~= seq!['1', '0', '0', '7']);
    assert(text::decimal(1049) =~= seq!['1', '0', '4', '9']);
    assert(text::decimal(7) =~= seq!['7']);
    assert(text::decimal(25) =~= seq!['2', '5']);
    let start = seq!['\x1b', '[', '?'];
    assert("\x1b[?2004h"@ =~= start + text::decimal(2004) + seq!['h']);
    assert("\x1b[?1h"@ =~= start + text::decimal(1) + seq!['h']);
    assert("\x1b[?1000h"@ =~= start + text::decimal(1000) + seq!['h']);
    assert("\x1b[?1002h"@ =~= start + text::decimal(1002) + seq!['h']);
    assert("\x1b[?1003h"@ =~= start + text::decimal(1003) + seq!['h']);
    assert("\x1b[?1006h"@ =~= start + text::decimal(1006) + seq!['h']);
    assert("\x1b[?1005h"@ =~= start + text::decimal(1005) + seq!['h']);
    assert("\x1b[?1004h"@ =~= start + text::decimal(1004) + seq!['h']);
    assert("\x1b[?1007h"@ =~= start + text::decimal(1007) + seq!['h']);
    assert("\x1b[?1049h"@ =~= start + text::decimal(1049) + seq!['h']);
    assert("\x1b[?7l"@ =~= start + text::decimal(7) + seq!['l']);
    assert("\x1b[?25l"@ =~= start + text::decimal(25) + seq!['l']);
}

/// A mode behind what a display has taken in.
proof fn lemma_then_mode(
    d: Display,
    x: Seq<char>,
    before: Display,
    given: bool,
    mode: nat,
    on: bool,
    chars: Seq<char>,
) -> (after: Display)
    requires
        display::took_all(d, x) == before,
        before.pending.len() == 0,
        mode != 1049,
        chars == seq!['\x1b', '[', '?'] + text::decimal(mode) + seq![if on { 'h' } else { 'l' }],
    ensures
        display::took_all(d, x + paint::when(given, chars)) == after,
        after == (Display { private: after.private, ..before }),
        forall|m: nat| #[trigger]
            after.private.contains(m) == if given && m == mode {
                on
            } else {
                before.private.contains(m)
            },
{
    let after = mode_set(before, given, mode, on);
    lemma_mode(before, given, mode, on, chars);
    display::lemma_took_both(d, x, paint::when(given, chars));
    after
}

/// The text that sets the first modes.
#[verifier::opaque]
spec fn first_text(modes: TerminalModes) -> Seq<char> {
    paint::when(modes.bracketed_paste, "\x1b[?2004h"@) + paint::when(
        modes.app_cursor,
        "\x1b[?1h"@,
    ) + paint::when(modes.app_keypad, "\x1b="@) + paint::when(
        modes.mouse_click,
        "\x1b[?1000h"@,
    )
}

/// A text and what sets the mouse modes behind it.
#[verifier::opaque]
spec fn mouse_text(x: Seq<char>, modes: TerminalModes) -> Seq<char> {
    x + paint::when(modes.mouse_drag, "\x1b[?1002h"@) + paint::when(
        modes.mouse_motion,
        "\x1b[?1003h"@,
    ) + paint::when(modes.sgr_mouse, "\x1b[?1006h"@) + paint::when(
        modes.utf8_mouse,
        "\x1b[?1005h"@,
    ) + paint::when(modes.focus_in_out, "\x1b[?1004h"@)
}

/// A text and what sets the last modes behind it.
#[verifier::opaque]
spec fn last_text(x: Seq<char>, modes: TerminalModes) -> Seq<char> {
    x + paint::when(modes.insert, "\x1b[4h"@) + paint::when(
        modes.alternate_scroll,
        "\x1b[?1007h"@,
    ) + paint::when(!modes.line_wrap, "\x1b[?7l"@) + paint::when(
        !modes.show_cursor,
        "\x1b[?25l"@,
    )
}

proof fn lemma_first_modes(d: Display, modes: TerminalModes) -> (after: Display)
    requires
        d.pending.len() == 0,
    ensures
        display::took_all(d, first_text(modes)) == after,
        after == (Display {
            private: after.private,
            keypad: d.keypad || modes.app_keypad,
            ..d
        }),
        forall|m: nat| #[trigger]
            after.private.contains(m) == (d.private.contains(m) || (m == 2004
                && modes.bracketed_paste) || (m == 1 && modes.app_cursor) || (m == 1000
                && modes.mouse_click)),
{
    reveal(first_text);
    lemma_mode_texts();
    let none = Seq::<char>::empty();
    let a1 = paint::when(modes.bracketed_paste, "\x1b[?2004h"@);
    let d1 = lemma_then_mode(d, none, d, modes.bracketed_paste, 2004, true, "\x1b[?2004h"@);
    assert(none + a1 =~= a1);
    let a2 = paint::when(modes.app_cursor, "\x1b[?1h"@);
    let d2 = lemma_then_mode(d, a1, d1, modes.app_cursor, 1, true, "\x1b[?1h"@);
    let a3 = paint::when(modes.app_keypad, "\x1b="@);
    lemma_keypad(d2, modes.app_keypad);
    display::lemma_took_both(d, a1 + a2, a3);
    let d3 = Display { keypad: d2.keypad || modes.app_keypad, ..d2 };
    lemma_then_mode(d, a1 + a2 + a3, d3, modes.mouse_click, 1000, true, "\x1b[?1000h"@)
}

proof fn lemma_mouse_modes(d: Display, x: Seq<char>, before: Display, modes: TerminalModes) -> (after:
    Display)
    requires
        display::took_all(d, x) == before,
        before.pending.len() == 0,
    ensures
        display::took_all(d, mouse_text(x, modes)) == after,
        after == (Display { private: after.private, ..before }),
        forall|m: nat| #[trigger]
            after.private.contains(m) == (before.private.contains(m) || (m == 1002
                && modes.mouse_drag) || (m == 1003 && modes.mouse_motion) || (m == 1006
                && modes.sgr_mouse) || (m == 1005 && modes.utf8_mouse) || (m == 1004
                && modes.focus_in_out)),
{
    reveal(mouse_text);
    lemma_mode_texts();
    let d1 = lemma_then_mode(d, x, before, modes.mouse_drag, 1002, true, "\x1b[?1002h"@);
    let x1 = x + paint::when(modes.mouse_drag, "\x1b[?1002h"@);
    let d2 = lemma_then_mode(d, x1, d1, modes.mouse_motion, 1003, true, "\x1b[?1003h"@);
    let x2 = x1 + paint::when(modes.mouse_motion, "\x1b[?1003h"@);
    let d3 = lemma_then_mode(d, x2, d2, modes.sgr_mouse, 1006, true, "\x1b[?1006h"@);
    let x3 = x2 + paint::when(modes.sgr_mouse, "\x1b[?1006h"@);
    let d4 = lemma_then_mode(d, x3, d3, modes.utf8_mouse, 1005, true, "\x1b[?1005h"@);
    let x4 = x3 + paint::when(modes.utf8_mouse, "\x1b[?1005h"@);
    lemma_then_mode(d, x4, d4, modes.focus_in_out, 1004, true, "\x1b[?1004h"@)
}

proof fn lemma_last_modes(d: Display, x: Seq<char>, before: Display, modes: TerminalModes) -> (after:
    Display)
    requires
        display::took_all(d, x) == before,
        before.pending.len() == 0,
    ensures
        display::took_all(d, last_text(x, modes)) == after,
        after == (Display { private: after.private, public: after.public, ..before }),
        after.public.contains(4) == (before.public.contains(4) || modes.insert),
        forall|m: nat| #[trigger]
            after.private.contains(m) == if m == 7 && !modes.line_wrap || m == 25
                && !modes.show_cursor {
                false
            } else {
                before.private.contains(m) || (m == 1007 && modes.alternate_scroll)
            },
{
    reveal(last_text);
    lemma_mode_texts();
    lemma_insert(before, modes.insert);
    display::lemma_took_both(d, x, paint::when(modes.insert, "\x1b[4h"@));
    let x1 = x + paint::when(modes.insert, "\x1b[4h"@);
    let d1 = display::took_all(d, x1);
    let d2 = lemma_then_mode(d, x1, d1, modes.alternate_scroll, 1007, true, "\x1b[?1007h"@);
    let x2 = x1 + paint::when(modes.alternate_scroll, "\x1b[?1007h"@);
    let d3 = lemma_then_mode(d, x2, d2, !modes.line_wrap, 7, false, "\x1b[?7l"@);
    let x3 = x2 + paint::when(!modes.line_wrap, "\x1b[?7l"@);
    lemma_then_mode(d, x3, d3, !modes.show_cursor, 25, false, "\x1b[?25l"@)
}

/// The text that sets modes.
spec fn mode_text(modes: TerminalModes) -> Seq<char> {
    last_text(mouse_text(first_text(modes), modes), modes)
}

proof fn lemma_mode_text(modes: TerminalModes)
    ensures
        paint::mode_sets_bytes(modes) == text::utf8(mode_text(modes)),
{
    reveal(first_text);
    reveal(mouse_text);
    reveal(last_text);
}

proof fn lemma_takes_modes(d: Display, modes: TerminalModes) -> (steps: (Display, Display, Display))
    requires
        d.pending.len() == 0,
    ensures
        display::took_all(d, mode_text(modes)) == steps.2,
        steps.0 == (Display {
            private: steps.0.private,
            keypad: d.keypad || modes.app_keypad,
            ..d
        }),
        forall|m: nat| #[trigger]
            steps.0.private.contains(m) == (d.private.contains(m) || (m == 2004
                && modes.bracketed_paste) || (m == 1 && modes.app_cursor) || (m == 1000
                && modes.mouse_click)),
        steps.1 == (Display { private: steps.1.private, ..steps.0 }),
        forall|m: nat| #[trigger]
            steps.1.private.contains(m) == (steps.0.private.contains(m) || (m == 1002
                && modes.mouse_drag) || (m == 1003 && modes.mouse_motion) || (m == 1006
                && modes.sgr_mouse) || (m == 1005 && modes.utf8_mouse) || (m == 1004
                && modes.focus_in_out)),
        steps.2 == (Display { private: steps.2.private, public: steps.2.public, ..steps.1 }),
        steps.2.public.contains(4) == (steps.1.public.contains(4) || modes.insert),
        forall|m: nat| #[trigger]
            steps.2.private.contains(m) == if m == 7 && !modes.line_wrap || m == 25
                && !modes.show_cursor {
                false
            } else {
                steps.1.private.contains(m) || (m == 1007 && modes.alternate_scroll)
            },
{
    let d1 = lemma_first_modes(d, modes);
    let d2 = lemma_mouse_modes(d, first_text(modes), d1, modes);
    let d3 = lemma_last_modes(d, mouse_text(first_text(modes), modes), d2, modes);
    (d1, d2, d3)
}

proof fn lemma_modes(d: Display, modes: TerminalModes)
    requires
        d.pending.len() == 0,
    ensures
        ({
            let output = paint::mode_sets_bytes(modes);
            let after = display::showing(d, output);
            &&& display::textual(output)
            &&& after == (Display {
                private: after.private,
                public: after.public,
                keypad: d.keypad || modes.app_keypad,
                ..d
            })
            &&& after.public.contains(4) == (d.public.contains(4) || modes.insert)
            &&& after.private.contains(2004) == (d.private.contains(2004) || modes.bracketed_paste)
            &&& after.private.contains(1) == (d.private.contains(1) || modes.app_cursor)
            &&& after.private.contains(1000) == (d.private.contains(1000) || modes.mouse_click)
            &&& after.private.contains(1002) == (d.private.contains(1002) || modes.mouse_drag)
            &&& after.private.contains(1003) == (d.private.contains(1003) || modes.mouse_motion)
            &&& after.private.contains(1006) == (d.private.contains(1006) || modes.sgr_mouse)
            &&& after.private.contains(1005) == (d.private.contains(1005) || modes.utf8_mouse)
            &&& after.private.contains(1004) == (d.private.contains(1004) || modes.focus_in_out)
            &&& after.private.contains(1007) == (d.private.contains(1007) || modes.alternate_scroll)
            &&& after.private.contains(7) == (d.private.contains(7) && modes.line_wrap)
            &&& after.private.contains(25) == (d.private.contains(25) && modes.show_cursor)
        }),
{
    let (d1, d2, d3) = lemma_takes_modes(d, modes);
    lemma_mode_text(modes);
    display::lemma_text_shows(d, mode_text(modes));
    assert(display::showing(d, paint::mode_sets_bytes(modes)) == d3);
}

/// Whether a cursor style is the one that a number selects.
pub open spec fn selects_cursor(number: nat, style: TerminalCursorStyle) -> bool {
    &&& 1 <= number <= 6
    &&& style.blinking == (number % 2 == 1)
    &&& style.shape == if number <= 2 {
        TerminalCursorShape::Block
    } else if number <= 4 {
        TerminalCursorShape::Underline
    } else {
        TerminalCursorShape::Bar
    }
}

proof fn lemma_cursor_style(d: Display, style: TerminalCursorStyle)
    requires
        d.pending.len() == 0,
    ensures
        ({
            let output = paint::cursor_style_bytes(style);
            let after = display::showing(d, output);
            &&& display::textual(output)
            &&& after == (Display { cursor_style: after.cursor_style, ..d })
            &&& selects_cursor(after.cursor_style, style)
        }),
{
    reveal_strlit("\x1b[");
    reveal_strlit(" q");
    let number = paint::cursor_style_parameter(style);
    let chars = "\x1b["@ + text::decimal(number) + " q"@;
    let body = text::decimal(number) + seq![' '];
    display::lemma_one_number(number);
    assert forall|i: int| 0 <= i < body.len() implies display::in_body(#[trigger] body[i]) by {
        if i < text::decimal(number).len() {
            assert(body[i] == text::decimal(number)[i]);
        }
    }
    assert(body.drop_last() =~= text::decimal(number));
    assert(chars =~= seq!['\x1b', '['] + body + seq!['q']);
    display::lemma_control(d, body, 'q');
    display::lemma_text_shows(d, chars);
}

/// Whether a terminal is set as a screen says: the modes, the cursor and its style. The rendition is
/// plain.
pub open spec fn set_as(t: Display, screen: EngineScreen) -> bool {
    let modes = screen.modes;
    &&& t.pending.len() == 0
    &&& t.style == display::reset()
    &&& t.alternate == screen.alt_active
    &&& t.place == (screen.cursor.0 as int, screen.cursor.1 as int)
    &&& selects_cursor(t.cursor_style, screen.cursor_style)
    &&& t.keypad == modes.app_keypad
    &&& t.public.contains(4) == modes.insert
    &&& t.private.contains(2004) == modes.bracketed_paste
    &&& t.private.contains(1) == modes.app_cursor
    &&& t.private.contains(1000) == modes.mouse_click
    &&& t.private.contains(1002) == modes.mouse_drag
    &&& t.private.contains(1003) == modes.mouse_motion
    &&& t.private.contains(1006) == modes.sgr_mouse
    &&& t.private.contains(1005) == modes.utf8_mouse
    &&& t.private.contains(1004) == modes.focus_in_out
    &&& t.private.contains(1007) == modes.alternate_scroll
    &&& t.private.contains(7) == modes.line_wrap
    &&& t.private.contains(25) == modes.show_cursor
}

proof fn lemma_set(d: Display, screen: EngineScreen)
    requires
        d.pending.len() == 0,
        d.style == display::reset(),
        d.alternate == screen.alt_active,
        d.private == display::blank().private || d.private == display::blank().private.insert(1049),
        d.public == display::blank().public,
        !d.keypad,
    ensures
        ({
            let output = paint::cup_bytes(screen.cursor) + paint::mode_sets_bytes(screen.modes)
                + paint::cursor_style_bytes(screen.cursor_style);
            let t = display::showing(d, output);
            &&& display::textual(output)
            &&& set_as(t, screen)
            &&& t.primary == d.primary
            &&& t.other == d.other
            &&& t.saved == d.saved
        }),
{
    let (a, b, c) = (
        paint::cup_bytes(screen.cursor),
        paint::mode_sets_bytes(screen.modes),
        paint::cursor_style_bytes(screen.cursor_style),
    );
    lemma_cup(d, screen.cursor);
    let d1 = display::showing(d, a);
    lemma_modes(d1, screen.modes);
    let d2 = display::showing(d1, b);
    lemma_cursor_style(d2, screen.cursor_style);
    display::lemma_shows_both(d, a, b);
    display::lemma_shows_both(d, a + b, c);
}

/// The bytes that rebuild a terminal on its primary screen do so on a blank one: the history and
/// the screen stand in their lines, every cell in its own rendition, and the modes, the cursor and
/// its style are those of the screen.
pub proof fn law_rehydrated_primary_screen_is_shown(
    screen: EngineScreen,
    frozen: Option<FrozenView>,
)
    requires
        !screen.alt_active,
        readable(screen),
    ensures
        ({
            let output = mirror::rehydration(screen, frozen);
            let t = display::showing(display::blank(), output);
            let wanted = lines_of(screen, (screen.history_size + screen.rows) as nat);
            &&& display::textual(output)
            &&& set_as(t, screen)
            &&& forall|k: int|
                0 <= k < wanted.len() ==> shows((t.primary)(k), #[trigger] wanted[k])
            &&& forall|k: int|
                k < 0 || k >= wanted.len() ==> #[trigger] (t.primary)(k) == Seq::<Glyph>::empty()
        }),
{
    let d = display::blank();
    let (r, p) = (text::utf8("\x1b[0m"@), mirror::primary_paint(screen));
    let (c, m, s) = (
        paint::cup_bytes(screen.cursor),
        paint::mode_sets_bytes(screen.modes),
        paint::cursor_style_bytes(screen.cursor_style),
    );
    lemma_reset(d);
    assert(display::showing(d, r) == d);
    law_primary_paint_shows_the_screen(d, screen);
    let painted = display::showing(d, p);
    lemma_set(painted, screen);
    display::lemma_shows_both(d, r, p);
    display::lemma_shows_both(d, r + p, c + m + s);
    assert(r + p + (c + m + s) =~= mirror::rehydration(screen, frozen));
    let wanted = lines_of(screen, (screen.history_size + screen.rows) as nat);
    assert forall|k: int| 0 <= k < wanted.len() implies shows(
        (painted.primary)(k),
        #[trigger] wanted[k],
    ) by {
        assert(d.row + k == k);
    }
}

/// The bytes that rebuild a terminal on its alternate screen do so on a blank one: every row of the
/// alternate screen stands in its place, every cell in its own rendition; behind it the primary
/// screen stands as it was frozen, with its cursor; and the modes, the cursor and its style are those
/// of the screen.
pub proof fn law_rehydrated_alternate_screen_is_shown(primary: EngineScreen, screen: EngineScreen)
    requires
        screen.alt_active,
        readable(primary),
        readable(screen),
    ensures
        ({
            let frozen = FrozenView {
                paint: mirror::primary_paint(primary),
                place: paint::cup_bytes(primary.cursor),
            };
            let output = mirror::rehydration(screen, Some(frozen));
            let t = display::showing(display::blank(), output);
            let wanted = lines_of(primary, (primary.history_size + primary.rows) as nat);
            &&& display::textual(output)
            &&& set_as(t, screen)
            &&& t.saved == (primary.cursor.0 as int, primary.cursor.1 as int)
            &&& forall|k: int|
                0 <= k < wanted.len() ==> shows((t.primary)(k), #[trigger] wanted[k])
            &&& forall|row: int|
                0 <= row < screen.rows ==> shows(
                    #[trigger] (t.other)(row),
                    glyphs((screen.lines)(row)),
                )
            &&& forall|row: int|
                row < 0 || row >= screen.rows ==> #[trigger] (t.other)(row) == Seq::<Glyph>::empty()
        }),
{
    let d = display::blank();
    let frozen = FrozenView {
        paint: mirror::primary_paint(primary),
        place: paint::cup_bytes(primary.cursor),
    };
    let r = text::utf8("\x1b[0m"@);
    let (p, l, h) = (frozen.paint, frozen.place, text::utf8("\x1b[?1049h"@));
    let (a, z) = (mirror::alt_rows(screen, screen.rows as nat).0, text::utf8("\x1b[0m"@));
    let (c, m, s) = (
        paint::cup_bytes(screen.cursor),
        paint::mode_sets_bytes(screen.modes),
        paint::cursor_style_bytes(screen.cursor_style),
    );
    lemma_reset(d);
    assert(display::showing(d, r) == d);
    law_primary_paint_shows_the_screen(d, primary);
    let d1 = display::showing(d, p);
    lemma_cup(d1, primary.cursor);
    let d2 = display::showing(d1, l);
    lemma_mode_texts();
    lemma_private(d2, 1049, true, "\x1b[?1049h"@);
    display::lemma_text_shows(d2, "\x1b[?1049h"@);
    let d3 = display::showing(d2, h);
    lemma_alt_rows(d3, screen, screen.rows as nat);
    let d4 = display::showing(d3, a);
    lemma_reset(d4);
    let d5 = display::showing(d4, z);
    lemma_set(d5, screen);
    display::lemma_shows_both(d, r, p);
    display::lemma_shows_both(d, r + p, l);
    display::lemma_shows_both(d, r + p + l, h);
    display::lemma_shows_both(d, r + p + l + h, a);
    display::lemma_shows_both(d, r + p + l + h + a, z);
    display::lemma_shows_both(d, r + p + l + h + a + z, c + m + s);
    lemma_nine(r, p, l, h, a, z, c, m, s);
    let wanted = lines_of(primary, (primary.history_size + primary.rows) as nat);
    assert forall|k: int| 0 <= k < wanted.len() implies shows(
        (d1.primary)(k),
        #[trigger] wanted[k],
    ) by {
        assert(d.row + k == k);
    }
}

/// Where no primary screen was frozen, the bytes that rebuild a terminal on its alternate screen show
/// that one all the same.
pub proof fn law_rehydrated_alternate_screen_stands_alone(screen: EngineScreen)
    requires
        screen.alt_active,
        readable(screen),
    ensures
        ({
            let output = mirror::rehydration(screen, None);
            let t = display::showing(display::blank(), output);
            &&& display::textual(output)
            &&& set_as(t, screen)
            &&& forall|row: int|
                0 <= row < screen.rows ==> shows(
                    #[trigger] (t.other)(row),
                    glyphs((screen.lines)(row)),
                )
            &&& forall|row: int| #[trigger] (t.primary)(row) == Seq::<Glyph>::empty()
        }),
{
    let d = display::blank();
    let (r, n, h) = (text::utf8("\x1b[0m"@), Seq::<u8>::empty(), text::utf8("\x1b[?1049h"@));
    let (a, z) = (mirror::alt_rows(screen, screen.rows as nat).0, text::utf8("\x1b[0m"@));
    let (c, m, s) = (
        paint::cup_bytes(screen.cursor),
        paint::mode_sets_bytes(screen.modes),
        paint::cursor_style_bytes(screen.cursor_style),
    );
    lemma_reset(d);
    assert(display::showing(d, r) == d);
    lemma_mode_texts();
    lemma_private(d, 1049, true, "\x1b[?1049h"@);
    display::lemma_text_shows(d, "\x1b[?1049h"@);
    let d3 = display::showing(d, h);
    lemma_alt_rows(d3, screen, screen.rows as nat);
    let d4 = display::showing(d3, a);
    lemma_reset(d4);
    let d5 = display::showing(d4, z);
    lemma_set(d5, screen);
    display::lemma_shows_both(d, r, h);
    display::lemma_shows_both(d, r + h, a);
    display::lemma_shows_both(d, r + h + a, z);
    display::lemma_shows_both(d, r + h + a + z, c + m + s);
    lemma_nine(r, n, n, h, a, z, c, m, s);
    assert(r + n + n + h =~= r + h);
    assert(n + n + h =~= n + h);
}

proof fn lemma_nine(
    r: Seq<u8>,
    p: Seq<u8>,
    l: Seq<u8>,
    h: Seq<u8>,
    a: Seq<u8>,
    z: Seq<u8>,
    c: Seq<u8>,
    m: Seq<u8>,
    s: Seq<u8>,
)
    ensures
        r + p + l + h + a + z + (c + m + s) == r + (p + l + h + (a + z) + c) + m + s,
{
    assert(r + p + l + h + a + z + (c + m + s) =~= r + (p + l + h + (a + z) + c) + m + s);
}

} // verus!
