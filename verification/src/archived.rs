//! What a cold paint shows in the scrollback of a new session.

use vstd::prelude::*;

use crate::cells::{self, CellView};
use crate::display::{self, Display, Glyph};
use crate::engine::EngineScreen;
use crate::mirror::{self, FrozenView};
use crate::paint::{self, Sgr};
use crate::repaint;
use crate::text;

verus! {

/// Whether `shown` reads as what is wanted, in whatever rendition, but for plain blanks at the end.
pub open spec fn reads(shown: Seq<Glyph>, wanted: Seq<Glyph>) -> bool {
    &&& shown.len() <= wanted.len()
    &&& forall|i: int| 0 <= i < shown.len() ==> (#[trigger] shown[i]).ch == wanted[i].ch
    &&& forall|i: int|
        shown.len() <= i < wanted.len() ==> #[trigger] wanted[i] == (Glyph {
            ch: ' ',
            style: display::reset(),
        })
}

proof fn lemma_same_chars_behind(front: Seq<char>, c: char, a: Sgr, b: Sgr)
    requires
        repaint::glyphs_in(front, a).len() == repaint::glyphs_in(front, b).len(),
        forall|i: int|
            0 <= i < repaint::glyphs_in(front, a).len() ==> (#[trigger] repaint::glyphs_in(
                front,
                a,
            )[i]).ch == repaint::glyphs_in(front, b)[i].ch,
    ensures
        repaint::glyphs_in(front.push(c), a).len() == repaint::glyphs_in(front.push(c), b).len(),
        forall|i: int|
            0 <= i < repaint::glyphs_in(front.push(c), a).len() ==> (#[trigger] repaint::glyphs_in(
                front.push(c),
                a,
            )[i]).ch == repaint::glyphs_in(front.push(c), b)[i].ch,
{
    repaint::lemma_glyph_behind(front, c, a);
    repaint::lemma_glyph_behind(front, c, b);
    repaint::lemma_one_glyph(c, a);
    repaint::lemma_one_glyph(c, b);
    let (p, q) = (repaint::glyphs_in(front, a), repaint::glyphs_in(front, b));
    let (g, h) = (Glyph { ch: c, style: a }, Glyph { ch: c, style: b });
    assert forall|i: int| 0 <= i < p.len() + 1 implies (#[trigger] (p + seq![g])[i]).ch == (q
        + seq![h])[i].ch by {
        if i < p.len() {
            assert((p + seq![g])[i] == p[i] && (q + seq![h])[i] == q[i]);
        }
    }
}

proof fn lemma_same_chars(chars: Seq<char>, a: Sgr, b: Sgr)
    ensures
        repaint::glyphs_in(chars, a).len() == repaint::glyphs_in(chars, b).len(),
        forall|i: int|
            0 <= i < repaint::glyphs_in(chars, a).len() ==> (#[trigger] repaint::glyphs_in(
                chars,
                a,
            )[i]).ch == repaint::glyphs_in(chars, b)[i].ch,
    decreases chars.len(),
{
    if chars.len() > 0 {
        lemma_same_chars(chars.drop_last(), a, b);
        assert(chars =~= chars.drop_last().push(chars.last()));
        lemma_same_chars_behind(chars.drop_last(), chars.last(), a, b);
    }
}

/// Cells whose paint starts from a rendition that the display may not be in.
proof fn lemma_cells_read(d: Display, row: Seq<CellView>, held: Sgr) -> (r: (Seq<Glyph>, Sgr))
    requires
        d.pending.len() == 0,
        repaint::printable(row),
    ensures
        ({
            let output = paint::cells_paint(row, held).0;
            let wanted = repaint::glyphs(row);
            &&& display::textual(output)
            &&& display::showing(d, output) == repaint::printed(d, r.0, r.1)
            &&& r.0.len() == wanted.len()
            &&& forall|i: int| 0 <= i < wanted.len() ==> (#[trigger] r.0[i]).ch == wanted[i].ch
        }),
    decreases row.len(),
{
    if row.len() == 0 {
        repaint::lemma_printed_nothing(d);
        display::lemma_text_shows(d, Seq::empty());
        assert(text::utf8(Seq::empty()) =~= Seq::<u8>::empty());
        (Seq::empty(), d.style)
    } else {
        let front = row.drop_last();
        let cell = row.last();
        assert forall|i: int| 0 <= i < front.len() implies repaint::prints((#[trigger] front[i]).ch)
            && forall|j: int|
            0 <= j < front[i].zerowidth.len() ==> repaint::prints(
                #[trigger] front[i].zerowidth[j],
            ) by {
            assert(front[i] == row[i]);
        }
        let (shown, style) = lemma_cells_read(d, front, held);
        let (before, carried) = paint::cells_paint(front, held);
        let middle = repaint::printed(d, shown, style);
        if cell.spacer {
            (shown, style)
        } else {
            repaint::lemma_rendition(cell);
            let next = repaint::rendition(cell);
            let change = if next != carried {
                text::utf8(paint::sgr_text(next))
            } else {
                Seq::empty()
            };
            let now = if next != carried {
                next
            } else {
                style
            };
            let dressed = Display { style: now, ..middle };
            if next != carried {
                display::law_sent_rendition_is_selected(middle, next);
            } else {
                display::lemma_text_shows(middle, Seq::empty());
                assert(text::utf8(Seq::empty()) =~= Seq::<u8>::empty());
            }
            assert(display::textual(change) && display::showing(middle, change) == dressed);
            let chars = seq![cell.ch] + cell.zerowidth;
            assert(cells::cell_text(cell) == chars);
            assert forall|i: int| 0 <= i < chars.len() implies repaint::prints(
                #[trigger] chars[i],
            ) by {
                assert(row[row.len() - 1] == cell);
                if i > 0 {
                    assert(chars[i] == cell.zerowidth[i - 1]);
                }
            }
            repaint::lemma_prints_all(dressed, chars);
            display::lemma_text_shows(dressed, chars);
            display::lemma_shows_both(d, before, change);
            display::lemma_shows_both(d, before + change, text::utf8(chars));
            assert(dressed == repaint::printed(d, shown, now));
            let more = repaint::glyphs_in(chars, now);
            repaint::lemma_printed_twice(d, shown, now, more, now);
            lemma_same_chars(chars, now, next);
            let wanted = repaint::glyphs(row);
            assert(wanted == repaint::glyphs(front) + repaint::glyphs_in(chars, next));
            assert forall|i: int| 0 <= i < wanted.len() implies (#[trigger] (shown + more)[i]).ch
                == wanted[i].ch by {
                if i < shown.len() {
                    assert((shown + more)[i] == shown[i]);
                } else {
                    assert((shown + more)[i] == more[i - shown.len()]);
                }
            }
            (shown + more, now)
        }
    }
}

proof fn lemma_row_reads(d: Display, row: Seq<CellView>, held: Sgr) -> (r: (Seq<Glyph>, Sgr))
    requires
        d.pending.len() == 0,
        repaint::printable(row),
    ensures
        ({
            let output = paint::row_paint(row, held).0;
            &&& display::textual(output)
            &&& display::showing(d, output) == repaint::printed(d, r.0, r.1)
            &&& reads(r.0, repaint::glyphs(row))
            &&& d.style == held ==> repaint::shows(r.0, repaint::glyphs(row))
        }),
{
    if d.style == held {
        repaint::law_painted_row_shows_its_cells(d, row);
        let (output, style) = paint::row_paint(row, held);
        let wanted = repaint::glyphs(row);
        let shown = choose|shown: Seq<Glyph>| #[trigger]
            repaint::shows(shown, wanted) && (cells::row_wraps(row) ==> shown == wanted)
                && display::showing(d, output) == repaint::printed(d, shown, style);
        assert forall|i: int| 0 <= i < shown.len() implies (#[trigger] shown[i]).ch
            == wanted[i].ch by {
            assert(wanted.take(shown.len() as int)[i] == shown[i]);
        }
        (shown, style)
    } else {
        repaint::lemma_trailing(row);
        let kept = paint::painted_cells(row);
        assert forall|i: int| 0 <= i < kept.len() implies repaint::prints((#[trigger] kept[i]).ch)
            && forall|j: int|
            0 <= j < kept[i].zerowidth.len() ==> repaint::prints(
                #[trigger] kept[i].zerowidth[j],
            ) by {
            assert(kept[i] == row[i]);
        }
        let r = lemma_cells_read(d, kept, held);
        let (some, wanted) = (repaint::glyphs(kept), repaint::glyphs(row));
        repaint::lemma_shows_itself(wanted);
        assert(repaint::shows(some, wanted));
        assert forall|i: int| 0 <= i < r.0.len() implies (#[trigger] r.0[i]).ch == wanted[i].ch by {
            assert(wanted.take(some.len() as int)[i] == some[i]);
        }
        r
    }
}

proof fn lemma_flat(screen: EngineScreen, count: nat, at: nat)
    requires
        at < count,
    ensures
        mirror::flat_rows(screen, count).0.len() == count,
        mirror::flat_rows(screen, count).0[at as int] == paint::row_paint(
            (screen.lines)(at as int),
            mirror::flat_rows(screen, at).1,
        ).0,
    decreases count,
{
    if count > 1 {
        lemma_flat(screen, (count - 1) as nat, if at < count - 1 { at } else { 0 });
    } else {
        assert(mirror::flat_rows(screen, 0).0.len() == 0);
    }
}

proof fn lemma_trimmed(rows: Seq<Seq<u8>>)
    ensures
        mirror::without_trailing_empty(rows).len() <= rows.len(),
        mirror::without_trailing_empty(rows) == rows.take(
            mirror::without_trailing_empty(rows).len() as int,
        ),
        forall|i: int|
            mirror::without_trailing_empty(rows).len() <= i < rows.len() ==> (
            #[trigger] rows[i]).len() == 0,
    decreases rows.len(),
{
    let kept = mirror::without_trailing_empty(rows);
    if rows.len() > 0 && rows.last().len() == 0 {
        lemma_trimmed(rows.drop_last());
        assert(kept =~= rows.take(kept.len() as int));
        assert forall|i: int| kept.len() <= i < rows.len() implies (#[trigger] rows[i]).len()
            == 0 by {
            if i < rows.len() - 1 {
                assert(rows.drop_last()[i] == rows[i]);
            }
        }
    } else {
        assert(rows.take(rows.len() as int) =~= rows);
    }
}

/// Whether every cell of the rows before `row` is plain.
pub open spec fn plain_before(screen: EngineScreen, row: int) -> bool {
    forall|r: int, i: int|
        0 <= r < row && 0 <= i < (screen.lines)(r).len() ==> repaint::rendition(
            #[trigger] (screen.lines)(r)[i],
        ) == display::reset()
}

proof fn lemma_plain_cells(row: Seq<CellView>)
    requires
        forall|i: int|
            0 <= i < row.len() ==> repaint::rendition(#[trigger] row[i]) == display::reset(),
    ensures
        paint::cells_paint(row, display::reset()).1 == display::reset(),
    decreases row.len(),
{
    if row.len() > 0 {
        let front = row.drop_last();
        assert forall|i: int| 0 <= i < front.len() implies repaint::rendition(#[trigger] front[i])
            == display::reset() by {
            assert(front[i] == row[i]);
        }
        lemma_plain_cells(front);
        repaint::lemma_rendition(row.last());
        assert(repaint::rendition(row[row.len() - 1]) == display::reset());
    }
}

proof fn lemma_carried(screen: EngineScreen, count: nat)
    requires
        plain_before(screen, count as int),
    ensures
        mirror::flat_rows(screen, count).1 == display::reset(),
    decreases count,
{
    if count > 0 {
        let row = (screen.lines)(count - 1);
        assert(plain_before(screen, count - 1));
        lemma_carried(screen, (count - 1) as nat);
        repaint::lemma_trailing(row);
        let kept = paint::painted_cells(row);
        assert forall|i: int| 0 <= i < kept.len() implies repaint::rendition(#[trigger] kept[i])
            == display::reset() by {
            assert(kept[i] == row[i]);
        }
        lemma_plain_cells(kept);
    }
}

/// Whether a display shows the first rows of a screen from a line on, one line each.
pub open spec fn flattened(d: Display, after: Display, screen: EngineScreen, count: int) -> bool {
    &&& forall|j: int|
        0 <= j < count ==> reads(
            #[trigger] (after.primary)(d.row + j),
            repaint::glyphs((screen.lines)(j)),
        )
    &&& forall|j: int|
        0 <= j < count && plain_before(screen, j) ==> repaint::shows(
            #[trigger] (after.primary)(d.row + j),
            repaint::glyphs((screen.lines)(j)),
        )
    &&& forall|row: int|
        row < d.row || row >= d.row + count ==> #[trigger] (after.primary)(row) == (d.primary)(row)
}

proof fn lemma_broken(d: Display, screen: EngineScreen, count: nat)
    requires
        repaint::open_at(d),
        d.style == display::reset(),
        repaint::readable(screen),
        0 < count <= screen.rows,
    ensures
        ({
            let rows = mirror::flat_rows(screen, screen.rows as nat).0;
            let output = mirror::broken_lines(rows.take(count as int));
            let after = display::showing(d, output);
            &&& display::textual(output)
            &&& after == (Display {
                primary: after.primary,
                row: d.row + count - 1,
                style: after.style,
                ..d
            })
            &&& flattened(d, after, screen, count as int)
        }),
    decreases count,
{
    let rows = mirror::flat_rows(screen, screen.rows as nat).0;
    lemma_flat(screen, screen.rows as nat, (count - 1) as nat);
    let taken = rows.take(count as int);
    let at = count - 1;
    let row = (screen.lines)(at);
    let held = mirror::flat_rows(screen, at as nat).1;
    let painted = rows[at];
    assert(repaint::printable(row));
    if plain_before(screen, at) {
        lemma_carried(screen, at as nat);
    }
    if count == 1 {
        assert(taken[0] == painted);
        assert(plain_before(screen, 0));
        let (shown, style) = lemma_row_reads(d, row, held);
        let after = repaint::printed(d, shown, style);
        assert((d.primary)(d.row) == Seq::<Glyph>::empty());
        assert((after.primary)(d.row) =~= shown);
        assert forall|j: int| 0 <= j < 1 implies reads(
            #[trigger] (after.primary)(d.row + j),
            repaint::glyphs((screen.lines)(j)),
        ) by {
            assert(j == 0);
        }
    } else {
        let sep = text::utf8("\x1b[0m\r\n"@);
        lemma_broken(d, screen, at as nat);
        let before = mirror::broken_lines(rows.take(at));
        assert(taken.drop_last() =~= rows.take(at));
        assert(taken.last() == painted);
        let middle = display::showing(d, before);
        repaint::lemma_reset_and_break(middle);
        let broken = display::showing(middle, sep);
        display::lemma_shows_both(d, before, sep);
        let (shown, style) = lemma_row_reads(broken, row, held);
        display::lemma_shows_both(d, before + sep, painted);
        let after = repaint::printed(broken, shown, style);
        assert(broken.row == d.row + at);
        assert((broken.primary)(d.row + at) == (d.primary)(d.row + at));
        assert((after.primary)(d.row + at) =~= shown);
        assert forall|j: int| 0 <= j < count implies reads(
            #[trigger] (after.primary)(d.row + j),
            repaint::glyphs((screen.lines)(j)),
        ) by {
            if j < at {
                assert((after.primary)(d.row + j) == (middle.primary)(d.row + j));
            }
        }
        assert forall|j: int| 0 <= j < count && plain_before(screen, j) implies repaint::shows(
            #[trigger] (after.primary)(d.row + j),
            repaint::glyphs((screen.lines)(j)),
        ) by {
            if j < at {
                assert((after.primary)(d.row + j) == (middle.primary)(d.row + j));
            }
        }
        assert forall|r: int| r < d.row || r >= d.row + count implies #[trigger] (after.primary)(r)
            == (d.primary)(r) by {
            assert((after.primary)(r) == (middle.primary)(r));
        }
    }
}

proof fn lemma_nothing_painted(d: Display, row: Seq<CellView>, held: Sgr)
    requires
        repaint::open_at(d),
        repaint::printable(row),
        paint::row_paint(row, held).0.len() == 0,
    ensures
        reads(Seq::empty(), repaint::glyphs(row)),
        repaint::shows(Seq::empty(), repaint::glyphs(row)),
{
    let (shown, style) = lemma_row_reads(d, row, held);
    display::lemma_text_shows(d, Seq::empty());
    assert(text::utf8(Seq::empty()) =~= paint::row_paint(row, held).0);
    let after = repaint::printed(d, shown, style);
    assert(after == d);
    assert((after.primary)(d.row) == (d.primary)(d.row) + shown);
    assert(shown =~= Seq::<Glyph>::empty());
    let wanted = repaint::glyphs(row);
    assert(wanted.take(0) =~= Seq::<Glyph>::empty());
}

/// The alternate screen as plain lines shows one row in each line, in order, from the line a display
/// stands in.
pub proof fn law_flat_paint_keeps_the_lines(d: Display, screen: EngineScreen)
    requires
        repaint::open_at(d),
        d.style == display::reset(),
        repaint::readable(screen),
    ensures
        ({
            let output = mirror::alt_flat_paint(screen);
            let after = display::showing(d, output);
            &&& display::textual(output)
            &&& after == (Display {
                primary: after.primary,
                row: after.row,
                style: after.style,
                ..d
            })
            &&& d.row <= after.row
            &&& flattened(d, after, screen, screen.rows as int)
            &&& forall|row: int|
                row > after.row ==> #[trigger] (after.primary)(row) == Seq::<Glyph>::empty()
        }),
{
    let rows = mirror::flat_rows(screen, screen.rows as nat).0;
    if screen.rows > 0 {
        lemma_flat(screen, screen.rows as nat, 0);
    }
    lemma_trimmed(rows);
    let kept = mirror::without_trailing_empty(rows);
    let output = mirror::alt_flat_paint(screen);
    let after = display::showing(d, output);
    if kept.len() == 0 {
        display::lemma_text_shows(d, Seq::empty());
        assert(text::utf8(Seq::empty()) =~= output);
    } else {
        lemma_broken(d, screen, kept.len());
    }
    assert forall|j: int| 0 <= j < screen.rows implies reads(
        #[trigger] (after.primary)(d.row + j),
        repaint::glyphs((screen.lines)(j)),
    ) && (plain_before(screen, j) ==> repaint::shows(
        (after.primary)(d.row + j),
        repaint::glyphs((screen.lines)(j)),
    )) by {
        if j >= kept.len() {
            lemma_flat(screen, screen.rows as nat, j as nat);
            assert(rows[j].len() == 0);
            assert(repaint::printable((screen.lines)(j)));
            lemma_nothing_painted(d, (screen.lines)(j), mirror::flat_rows(screen, j as nat).1);
            assert((after.primary)(d.row + j) == (d.primary)(d.row + j));
        }
    }
}

/// A cold paint of a terminal on its alternate screen shows, in the scrollback of a new session, the
/// frozen primary screen in its lines and then the rows of the alternate screen, one line each and in
/// order. It enters no alternate screen and sets no mode, and what follows stands on a fresh line in
/// the plain rendition. (A row behind one that is not plain reads as it was, but may be painted in
/// another rendition up to its first change.)
pub proof fn law_cold_paint_keeps_the_lines(primary: EngineScreen, screen: EngineScreen)
    requires
        screen.alt_active,
        repaint::readable(primary),
        repaint::readable(screen),
    ensures
        ({
            let frozen = FrozenView {
                paint: mirror::primary_paint(primary),
                place: paint::cup_bytes(primary.cursor),
            };
            let output = mirror::cold_bytes(screen, Some(frozen));
            let t = display::showing(display::blank(), output);
            let above = repaint::lines_of(
                primary,
                (primary.history_size + primary.rows) as nat,
            );
            let start = above.len() as int;
            &&& display::textual(output)
            &&& t == (Display { primary: t.primary, row: t.row, ..display::blank() })
            &&& forall|k: int|
                0 <= k < start ==> repaint::shows((t.primary)(k), #[trigger] above[k])
            &&& forall|j: int|
                0 <= j < screen.rows ==> reads(
                    #[trigger] (t.primary)(start + j),
                    repaint::glyphs((screen.lines)(j)),
                ) && (plain_before(screen, j) ==> repaint::shows(
                    (t.primary)(start + j),
                    repaint::glyphs((screen.lines)(j)),
                ))
            &&& t.row > start
            &&& forall|row: int|
                row >= t.row ==> #[trigger] (t.primary)(row) == Seq::<Glyph>::empty()
        }),
{
    let d = display::blank();
    let (r, p) = (text::utf8("\x1b[0m"@), mirror::primary_paint(primary));
    let (n, a, z) = (
        text::utf8("\r\n"@),
        mirror::alt_flat_paint(screen),
        text::utf8("\x1b[0m\r\n"@),
    );
    let above = repaint::lines_of(primary, (primary.history_size + primary.rows) as nat);
    repaint::lemma_reset(d);
    assert(display::showing(d, r) == d);
    repaint::law_primary_paint_shows_the_screen(d, primary);
    let d1 = display::showing(d, p);
    repaint::lemma_line_break(d1);
    let d2 = display::showing(d1, n);
    assert(d2.row == above.len());
    assert forall|row: int| row >= d2.row implies #[trigger] (d2.primary)(row) == Seq::<
        Glyph,
    >::empty() by {
        assert((d1.primary)(row) == (d.primary)(row));
    }
    law_flat_paint_keeps_the_lines(d2, screen);
    let d3 = display::showing(d2, a);
    repaint::lemma_reset_and_break(d3);
    let t = display::showing(d3, z);
    display::lemma_shows_both(d, r, p);
    display::lemma_shows_both(d, r + p, n);
    display::lemma_shows_both(d, r + p + n, a);
    display::lemma_shows_both(d, r + p + n + a, z);
    let frozen = FrozenView { paint: p, place: paint::cup_bytes(primary.cursor) };
    assert(r + p + n + a + z =~= mirror::cold_bytes(screen, Some(frozen)));
    assert forall|k: int| 0 <= k < above.len() implies repaint::shows(
        (t.primary)(k),
        #[trigger] above[k],
    ) by {
        assert((d3.primary)(k) == (d2.primary)(k));
        assert(d.row + k == k);
    }
}

/// A cold paint of a terminal on its primary screen shows it with its history in the scrollback of a
/// new session, line by line, and what follows stands on a fresh line in the plain rendition.
pub proof fn law_cold_paint_shows_the_primary_screen(
    screen: EngineScreen,
    frozen: Option<FrozenView>,
)
    requires
        !screen.alt_active,
        repaint::readable(screen),
    ensures
        ({
            let output = mirror::cold_bytes(screen, frozen);
            let t = display::showing(display::blank(), output);
            let wanted = repaint::lines_of(screen, (screen.history_size + screen.rows) as nat);
            &&& display::textual(output)
            &&& t == (Display { primary: t.primary, row: t.row, ..display::blank() })
            &&& t.row == wanted.len()
            &&& forall|k: int|
                0 <= k < wanted.len() ==> repaint::shows((t.primary)(k), #[trigger] wanted[k])
            &&& forall|row: int|
                row >= t.row ==> #[trigger] (t.primary)(row) == Seq::<Glyph>::empty()
        }),
{
    let d = display::blank();
    let (r, p, z) = (
        text::utf8("\x1b[0m"@),
        mirror::primary_paint(screen),
        text::utf8("\x1b[0m\r\n"@),
    );
    let wanted = repaint::lines_of(screen, (screen.history_size + screen.rows) as nat);
    repaint::lemma_reset(d);
    assert(display::showing(d, r) == d);
    repaint::law_primary_paint_shows_the_screen(d, screen);
    let d1 = display::showing(d, p);
    repaint::lemma_reset_and_break(d1);
    display::lemma_shows_both(d, r, p);
    display::lemma_shows_both(d, r + p, z);
    let t = display::showing(d1, z);
    assert forall|k: int| 0 <= k < wanted.len() implies repaint::shows(
        (t.primary)(k),
        #[trigger] wanted[k],
    ) by {
        assert(d.row + k == k);
    }
    assert forall|row: int| row >= t.row implies #[trigger] (t.primary)(row) == Seq::<
        Glyph,
    >::empty() by {
        assert((d1.primary)(row) == (d.primary)(row));
    }
}

} // verus!
