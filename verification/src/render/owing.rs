//! What a target surface is owed once the painter was refreshed.

use vstd::prelude::*;

use crate::cells::{CellView, TerminalThemeOverrides};
use crate::fnv;
use crate::render::instances::{self, GlyphSource};
use crate::render::painter::{self, CursorPaint, Overlay, PainterView, Request, RowDress};
use crate::state::TerminalStateMirror;
use crate::text;

verus! {

/// The key of a row of the viewport that a refresh for a request builds it for.
pub open spec fn key_shown<M: TerminalStateMirror + ?Sized>(
    mirror: &M,
    request: Request,
    revision: u64,
    row: int,
) -> u64 {
    painter::row_key(
        painter::viewport_row(mirror, request, row),
        revision,
        painter::dress_of(mirror, request, row),
    )
}

/// Whether row numbers rise.
pub open spec fn rising(rows: Seq<u16>) -> bool {
    forall|i: int, j: int| 0 <= i < j < rows.len() ==> #[trigger] rows[i] < #[trigger] rows[j]
}

proof fn lemma_owed_rise(painted: Seq<Option<u64>>, keys: Seq<Option<u64>>, count: int)
    requires
        0 <= count <= u16::MAX,
    ensures
        rising(painter::owed_rows(painted, keys, count)),
        forall|i: int|
            0 <= i < painter::owed_rows(painted, keys, count).len()
                ==> #[trigger] painter::owed_rows(painted, keys, count)[i] < count,
    decreases count,
{
    if count > 0 {
        lemma_owed_rise(painted, keys, count - 1);
    }
}

/// After a refresh a target is owed, in rising order, exactly the rows that it does not show for the
/// key of what the viewport now shows there: everything where it is fresh, and nothing of a row that
/// it shows for the same cells, cursor, composition, selection and theme. Once it was painted what
/// it is owed, it is owed nothing.
pub proof fn law_refresh_owes_what_is_not_shown<M: TerminalStateMirror + ?Sized, G: GlyphSource>(
    mirror: &M,
    request: Request,
    before: PainterView,
    after: PainterView,
    sources: Seq<G>,
    painted: Seq<Option<u64>>,
    row: u16,
)
    requires
        painter::painter_wf(after),
        after.rows == before.rows,
        painter::refreshed(mirror, request, before, after, sources),
        painted.len() == after.rows,
        row < after.rows,
    ensures
        ({
            let owed = painter::owed_rows(painted, after.keys, after.rows as int);
            &&& rising(owed)
            &&& owed.contains(row) <==> painted[row as int] != Some(
                key_shown(mirror, request, before.revision, row as int),
            )
            &&& painted[row as int] is None ==> owed.contains(row)
            &&& painter::owed_rows(
                painter::settled(painted, after.keys, owed),
                after.keys,
                after.rows as int,
            ) == Seq::<u16>::empty()
        }),
{
    assert(painter::row_refreshed(
        mirror,
        request,
        before,
        after,
        row as int,
        sources[row as int],
        sources[row + 1],
    ));
    lemma_owed_rise(painted, after.keys, after.rows as int);
    painter::law_owed_rows_are_the_stale_ones(painted, after.keys, row);
    painter::law_settled_target_owes_nothing(painted, after.keys);
}

proof fn lemma_odd_factor(a: u64, b: u64, factor: int, inverse: int, carry: int)
    requires
        factor * inverse == 1 + carry * 0x1_0000_0000_0000_0000,
        (a * factor) % 0x1_0000_0000_0000_0000 == (b * factor) % 0x1_0000_0000_0000_0000,
    ensures
        a == b,
{
    let range: int = 0x1_0000_0000_0000_0000;
    let (p, q) = ((a * factor) / range, (b * factor) / range);
    assert(a * factor == p * range + (a * factor) % range) by {
        vstd::arithmetic::div_mod::lemma_fundamental_div_mod(a * factor, range);
        assert(p * range == range * p) by (nonlinear_arith);
    }
    assert(b * factor == q * range + (b * factor) % range) by {
        vstd::arithmetic::div_mod::lemma_fundamental_div_mod(b * factor, range);
        assert(q * range == range * q) by (nonlinear_arith);
    }
    let d = a - b;
    assert(d * factor == (p - q) * range) by (nonlinear_arith)
        requires
            d == a - b,
            a * factor - b * factor == p * range - q * range,
    ;
    let m = (p - q) * inverse - d * carry;
    assert(d == m * range) by (nonlinear_arith)
        requires
            d * factor == (p - q) * range,
            factor * inverse == 1 + carry * range,
            m == (p - q) * inverse - d * carry,
    ;
    assert(m == 0) by (nonlinear_arith)
        requires
            d == m * range,
            -range < d < range,
            range > 0,
    ;
}

proof fn lemma_mixed(a: u64, b: u64, value: u64)
    ensures
        painter::mixed(a, value) == painter::mixed(b, value) ==> a == b,
{
    if painter::mixed(a, value) == painter::mixed(b, value) {
        assert(31 * 0xef7b_def7_bdef_7bdfint == 1 + 0x1dint * 0x1_0000_0000_0000_0000int)
            by (nonlinear_arith);
        lemma_odd_factor(a, b, 31, 0xef7b_def7_bdef_7bdf, 0x1d);
    }
}

proof fn lemma_mixed_bytes(a: u64, b: u64, bytes: Seq<u8>)
    ensures
        painter::mixed_bytes(a, bytes) == painter::mixed_bytes(b, bytes) ==> a == b,
    decreases bytes.len(),
{
    if bytes.len() > 0 {
        let rest = bytes.drop_last();
        lemma_mixed_bytes(a, b, rest);
        lemma_mixed(
            painter::mixed_bytes(a, rest),
            painter::mixed_bytes(b, rest),
            (bytes.last() + 1) as u64,
        );
    }
}

proof fn lemma_xor(a: u64, b: u64, c: u64)
    ensures
        a ^ c == b ^ c ==> a == b,
        c ^ a == c ^ b ==> a == b,
{
    assert(a ^ c == b ^ c ==> a == b) by (bit_vector);
    assert(c ^ a == c ^ b ==> a == b) by (bit_vector);
}

/// A row that shows the same cells, cursor, composition and selection has another key after every
/// change of the revision.
pub proof fn law_revision_changes_every_key(
    row: Seq<CellView>,
    dress: RowDress,
    earlier: u64,
    later: u64,
)
    requires
        earlier != later,
    ensures
        painter::row_key(row, earlier, dress) != painter::row_key(row, later, dress),
{
    let hash = fnv::fold(fnv::OFFSET, painter::row_bytes(row));
    let (p, q) = (
        earlier.wrapping_mul(painter::SPREAD),
        later.wrapping_mul(painter::SPREAD),
    );
    if p == q {
        assert(0x9e37_79b9_7f4a_7c15int * 0xf1de_83e1_9937_733dint == 1
            + 0x957b_bf35_006e_d677int * 0x1_0000_0000_0000_0000int) by (nonlinear_arith);
        lemma_odd_factor(
            earlier,
            later,
            painter::SPREAD as int,
            0xf1de_83e1_9937_733d,
            0x957b_bf35_006e_d677,
        );
    }
    lemma_xor(p, q, hash);
    let (a, b) = (hash ^ p, hash ^ q);
    let (a, b) = match dress.cursor {
        Some((col, paint)) => {
            let (at, code) = (
                painter::SPREAD.wrapping_add(col as u64),
                painter::cursor_code(paint),
            );
            lemma_xor(a, b, at);
            lemma_xor(a ^ at, b ^ at, code);
            ((a ^ at) ^ code, (b ^ at) ^ code)
        },
        None => (a, b),
    };
    let (a, b) = match dress.overlay {
        Some(overlay) => {
            let bytes = text::utf8(overlay.chars);
            let (c, d) = (
                painter::mixed(a, overlay.caret as u64),
                painter::mixed(b, overlay.caret as u64),
            );
            lemma_mixed(a, b, overlay.caret as u64);
            lemma_mixed_bytes(c, d, bytes);
            let (e, f) = (painter::mixed_bytes(c, bytes), painter::mixed_bytes(d, bytes));
            lemma_mixed(e, f, (overlay.start + 1) as u64);
            (
                painter::mixed(e, (overlay.start + 1) as u64),
                painter::mixed(f, (overlay.start + 1) as u64),
            )
        },
        None => (a, b),
    };
    if let Some((first, last)) = dress.selection {
        lemma_mixed(a, b, (first + 1) as u64);
        lemma_mixed(
            painter::mixed(a, (first + 1) as u64),
            painter::mixed(b, (first + 1) as u64),
            (last + 1) as u64,
        );
    }
}

/// A change of the theme or of the dim invalidates every row: a target that shows what the viewport
/// still shows is owed it again.
pub proof fn law_changed_theme_owes_every_row<M: TerminalStateMirror + ?Sized, G: GlyphSource>(
    mirror: &M,
    request: Request,
    shown: PainterView,
    dim: u64,
    overrides: TerminalThemeOverrides,
    after: PainterView,
    sources: Seq<G>,
    painted: Seq<Option<u64>>,
    row: u16,
)
    requires
        painter::painter_wf(after),
        after.rows == shown.rows,
        dim != shown.dim || instances::resolved(shown.base, overrides) != shown.palette,
        painter::refreshed(
            mirror,
            request,
            painter::themed(painter::dimmed(shown, dim), overrides),
            after,
            sources,
        ),
        painted.len() == after.rows,
        row < after.rows,
        painted[row as int] == Some(key_shown(mirror, request, shown.revision, row as int)),
    ensures
        painter::owed_rows(painted, after.keys, after.rows as int).contains(row),
{
    let before = painter::themed(painter::dimmed(shown, dim), overrides);
    assert(before.revision != shown.revision);
    law_revision_changes_every_key(
        painter::viewport_row(mirror, request, row as int),
        painter::dress_of(mirror, request, row as int),
        shown.revision,
        before.revision,
    );
    law_refresh_owes_what_is_not_shown(mirror, request, before, after, sources, painted, row);
}

proof fn lemma_mixed_value(key: u64, a: u64, b: u64)
    ensures
        painter::mixed(key, a) == painter::mixed(key, b) ==> a == b,
{
}

/// The rest of a key behind its cursor, and behind its composition.
spec fn selected_key(key: u64, selection: Option<(u16, u16)>) -> u64 {
    match selection {
        Some((first, last)) => painter::mixed(
            painter::mixed(key, (first + 1) as u64),
            (last + 1) as u64,
        ),
        None => key,
    }
}

spec fn composed_key(key: u64, overlay: Option<Overlay>) -> u64 {
    match overlay {
        Some(overlay) => painter::mixed(
            painter::mixed_bytes(
                painter::mixed(key, overlay.caret as u64),
                text::utf8(overlay.chars),
            ),
            (overlay.start + 1) as u64,
        ),
        None => key,
    }
}

spec fn pointed_key(key: u64, cursor: Option<(usize, CursorPaint)>) -> u64 {
    match cursor {
        Some((col, paint)) => (key ^ painter::SPREAD.wrapping_add(col as u64))
            ^ painter::cursor_code(paint),
        None => key,
    }
}

proof fn lemma_key(row: Seq<CellView>, revision: u64, dress: RowDress)
    ensures
        painter::row_key(row, revision, dress) == selected_key(
            composed_key(
                pointed_key(
                    fnv::fold(fnv::OFFSET, painter::row_bytes(row)) ^ revision.wrapping_mul(
                        painter::SPREAD,
                    ),
                    dress.cursor,
                ),
                dress.overlay,
            ),
            dress.selection,
        ),
{
}

proof fn lemma_selected_key(a: u64, b: u64, selection: Option<(u16, u16)>)
    ensures
        selected_key(a, selection) == selected_key(b, selection) ==> a == b,
{
    if let Some((first, last)) = selection {
        lemma_mixed(a, b, (first + 1) as u64);
        lemma_mixed(
            painter::mixed(a, (first + 1) as u64),
            painter::mixed(b, (first + 1) as u64),
            (last + 1) as u64,
        );
    }
}

proof fn lemma_composed_key(a: u64, b: u64, overlay: Option<Overlay>)
    ensures
        composed_key(a, overlay) == composed_key(b, overlay) ==> a == b,
{
    if let Some(overlay) = overlay {
        let bytes = text::utf8(overlay.chars);
        let (c, d) = (
            painter::mixed(a, overlay.caret as u64),
            painter::mixed(b, overlay.caret as u64),
        );
        lemma_mixed(a, b, overlay.caret as u64);
        lemma_mixed_bytes(c, d, bytes);
        lemma_mixed(
            painter::mixed_bytes(c, bytes),
            painter::mixed_bytes(d, bytes),
            (overlay.start + 1) as u64,
        );
    }
}

/// A cursor that appears, goes, moves or changes its paint changes the key of its row, so that the row
/// is built and painted again.
pub proof fn law_cursor_changes_the_key(
    row: Seq<CellView>,
    revision: u64,
    dress: RowDress,
    a: (usize, CursorPaint),
    b: (usize, CursorPaint),
)
    requires
        a.0 <= u32::MAX,
        b.0 <= u32::MAX,
        a.0 == b.0 && a.1 != b.1 || a.0 != b.0 && a.1 == b.1,
    ensures
        painter::row_key(row, revision, RowDress { cursor: Some(a), ..dress }) != painter::row_key(
            row,
            revision,
            RowDress { cursor: Some(b), ..dress },
        ),
        painter::row_key(row, revision, RowDress { cursor: Some(a), ..dress }) != painter::row_key(
            row,
            revision,
            RowDress { cursor: None, ..dress },
        ),
{
    let key = fnv::fold(fnv::OFFSET, painter::row_bytes(row)) ^ revision.wrapping_mul(
        painter::SPREAD,
    );
    let (x, y) = (
        painter::SPREAD.wrapping_add(a.0 as u64),
        painter::SPREAD.wrapping_add(b.0 as u64),
    );
    let (c, d) = (painter::cursor_code(a.1), painter::cursor_code(b.1));
    lemma_key(row, revision, RowDress { cursor: Some(a), ..dress });
    lemma_key(row, revision, RowDress { cursor: Some(b), ..dress });
    lemma_key(row, revision, RowDress { cursor: None, ..dress });
    let (p, q) = ((key ^ x) ^ c, (key ^ y) ^ d);
    assert(a.0 != b.0 ==> x != y);
    assert(a.1 != b.1 ==> c != d);
    assert(x > 0x40 && c <= 0x40);
    assert(x != y && c == d ==> p != q) by (bit_vector)
        requires
            p == (key ^ x) ^ c,
            q == (key ^ y) ^ d,
    ;
    assert(x == y && c != d ==> p != q) by (bit_vector)
        requires
            p == (key ^ x) ^ c,
            q == (key ^ y) ^ d,
    ;
    assert(p != key) by (bit_vector)
        requires
            p == (key ^ x) ^ c,
            x > 0x40,
            c <= 0x40,
    ;
    lemma_composed_key(p, q, dress.overlay);
    lemma_selected_key(
        composed_key(p, dress.overlay),
        composed_key(q, dress.overlay),
        dress.selection,
    );
    lemma_composed_key(p, key, dress.overlay);
    lemma_selected_key(
        composed_key(p, dress.overlay),
        composed_key(key, dress.overlay),
        dress.selection,
    );
}

/// A selection whose one end moves, and a composition whose caret or start moves, change the key of
/// their row.
pub proof fn law_selection_and_caret_change_the_key(
    row: Seq<CellView>,
    revision: u64,
    dress: RowDress,
    overlay: Overlay,
    first: (u16, u16),
    last: (u16, u16),
    caret: usize,
    start: usize,
)
    requires
        overlay.start < usize::MAX,
        start < usize::MAX,
    ensures
        first.0 != first.1 ==> painter::row_key(
            row,
            revision,
            RowDress { selection: Some((first.0, last.0)), ..dress },
        ) != painter::row_key(
            row,
            revision,
            RowDress { selection: Some((first.1, last.0)), ..dress },
        ),
        last.0 != last.1 ==> painter::row_key(
            row,
            revision,
            RowDress { selection: Some((first.0, last.0)), ..dress },
        ) != painter::row_key(
            row,
            revision,
            RowDress { selection: Some((first.0, last.1)), ..dress },
        ),
        caret != overlay.caret ==> painter::row_key(
            row,
            revision,
            RowDress { overlay: Some(overlay), ..dress },
        ) != painter::row_key(
            row,
            revision,
            RowDress { overlay: Some(Overlay { caret, ..overlay }), ..dress },
        ),
        start != overlay.start ==> painter::row_key(
            row,
            revision,
            RowDress { overlay: Some(overlay), ..dress },
        ) != painter::row_key(
            row,
            revision,
            RowDress { overlay: Some(Overlay { start, ..overlay }), ..dress },
        ),
{
    let key = pointed_key(
        fnv::fold(fnv::OFFSET, painter::row_bytes(row)) ^ revision.wrapping_mul(painter::SPREAD),
        dress.cursor,
    );
    let laid = composed_key(key, dress.overlay);
    lemma_key(row, revision, RowDress { selection: Some((first.0, last.0)), ..dress });
    lemma_key(row, revision, RowDress { selection: Some((first.1, last.0)), ..dress });
    lemma_key(row, revision, RowDress { selection: Some((first.0, last.1)), ..dress });
    let (f, g) = ((first.0 + 1) as u64, (first.1 + 1) as u64);
    lemma_mixed_value(laid, f, g);
    lemma_mixed(painter::mixed(laid, f), painter::mixed(laid, g), (last.0 + 1) as u64);
    lemma_mixed_value(painter::mixed(laid, f), (last.0 + 1) as u64, (last.1 + 1) as u64);
    let moved = Overlay { caret, ..overlay };
    let shifted = Overlay { start, ..overlay };
    lemma_key(row, revision, RowDress { overlay: Some(overlay), ..dress });
    lemma_key(row, revision, RowDress { overlay: Some(moved), ..dress });
    lemma_key(row, revision, RowDress { overlay: Some(shifted), ..dress });
    let bytes = text::utf8(overlay.chars);
    let (c, d) = (painter::mixed(key, overlay.caret as u64), painter::mixed(key, caret as u64));
    lemma_mixed_value(key, overlay.caret as u64, caret as u64);
    lemma_mixed_bytes(c, d, bytes);
    lemma_mixed(
        painter::mixed_bytes(c, bytes),
        painter::mixed_bytes(d, bytes),
        (overlay.start + 1) as u64,
    );
    lemma_mixed_value(
        painter::mixed_bytes(c, bytes),
        (overlay.start + 1) as u64,
        (start + 1) as u64,
    );
    lemma_selected_key(
        composed_key(key, Some(overlay)),
        composed_key(key, Some(moved)),
        dress.selection,
    );
    lemma_selected_key(
        composed_key(key, Some(overlay)),
        composed_key(key, Some(shifted)),
        dress.selection,
    );
}

} // verus!
