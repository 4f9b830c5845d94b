//! What holds of a recovery mirror over many calls: how its input is cut does not matter, the
//! primary screen leads the repaint while the alternate screen is shown, and the animation policy
//! of the cursor is no part of the repaint.

use vstd::prelude::*;

use crate::engine::{EngineScreen, EngineStep, TerminalEngine};
use crate::mirror::{self, AltCandidate, FrozenView, MirrorView, MAX_PARAMETER_BYTES};
use crate::paint;
use crate::text;

verus! {

/// What is held back of some output that runs through a mirror which held nothing: the unfinished
/// switch to the alternate screen at its end, if there is one.
pub open spec fn held_of(data: Seq<u8>) -> Seq<u8>
    decreases data.len(),
{
    match mirror::first_entry(data, 0) {
        Some(at) => match mirror::alt_candidate(data.skip(at)) {
            AltCandidate::Enter(length) if 0 < length && 0 <= at && at + length <= data.len() => {
                held_of(data.skip(at + length))
            },
            _ => data.skip(at),
        },
        None => Seq::empty(),
    }
}

/// Whether some bytes are nothing, or `ESC`, `ESC [`, `ESC [ ?` or the latter with parameters that
/// have not ended.
pub open spec fn unfinished_entry(bytes: Seq<u8>) -> bool {
    bytes.len() > 0 ==> {
        &&& bytes.len() <= 3 + MAX_PARAMETER_BYTES
        &&& bytes[0] == 0x1b
        &&& bytes.len() > 1 ==> bytes[1] == 0x5b
        &&& bytes.len() > 2 ==> bytes[2] == 0x3f
        &&& forall|i: int| 3 <= i < bytes.len() ==> mirror::is_parameter(#[trigger] bytes[i])
    }
}

/// The chunks one after another.
pub open spec fn joined(chunks: Seq<Seq<u8>>) -> Seq<u8>
    decreases chunks.len(),
{
    if chunks.len() == 0 {
        Seq::empty()
    } else {
        joined(chunks.drop_last()) + chunks.last()
    }
}

/// A mirror after the chunks were fed to it one by one.
pub open spec fn fed_chunks<E: TerminalEngine>(start: MirrorView, chunks: Seq<Seq<u8>>) -> MirrorView
    decreases chunks.len(),
{
    if chunks.len() == 0 {
        start
    } else {
        let before = fed_chunks::<E>(start, chunks.drop_last());
        mirror::fed::<E>(before.history, before.frozen, before.held + chunks.last())
    }
}

/// Whether an escape at `at` enters the alternate screen or may yet do so.
spec fn entry_at(data: Seq<u8>, at: int) -> bool {
    data[at] == 0x1b && mirror::alt_candidate(data.skip(at)) != AltCandidate::No
}

proof fn lemma_no_entry_before(data: Seq<u8>, from: int)
    requires
        0 <= from <= data.len(),
    ensures
        match mirror::first_entry(data, from) {
            Some(at) => from <= at < data.len() && entry_at(data, at) && forall|i: int|
                from <= i < at ==> !#[trigger] entry_at(data, i),
            None => forall|i: int| from <= i < data.len() ==> !#[trigger] entry_at(data, i),
        },
    decreases data.len() - from,
{
    if from < data.len() {
        if entry_at(data, from) {
        } else {
            lemma_no_entry_before(data, from + 1);
        }
    }
}

proof fn lemma_first_entry_is(data: Seq<u8>, from: int, at: int)
    requires
        0 <= from <= at <= data.len(),
        forall|i: int| from <= i < at ==> !#[trigger] entry_at(data, i),
    ensures
        mirror::first_entry(data, from) == mirror::first_entry(data, at),
    decreases at - from,
{
    if from < at {
        assert(!entry_at(data, from));
        lemma_first_entry_is(data, from + 1, at);
    }
}

proof fn lemma_first_entry_shifts(data: Seq<u8>, by: int, from: int)
    requires
        0 <= by <= data.len(),
        0 <= from <= data.len() - by,
    ensures
        mirror::first_entry(data, by + from) == match mirror::first_entry(data.skip(by), from) {
            Some(at) => Some(by + at),
            None => None,
        },
    decreases data.len() - by - from,
{
    let rest = data.skip(by);
    if from < rest.len() {
        assert(rest[from] == data[by + from]);
        assert(rest.skip(from) =~= data.skip(by + from));
        lemma_first_entry_shifts(data, by, from + 1);
    }
}

proof fn lemma_held_skips(data: Seq<u8>, at: int)
    requires
        0 <= at <= data.len(),
        forall|i: int| 0 <= i < at ==> !#[trigger] entry_at(data, i),
    ensures
        held_of(data) == held_of(data.skip(at)),
{
    let rest = data.skip(at);
    lemma_first_entry_is(data, 0, at);
    lemma_first_entry_shifts(data, at, 0);
    lemma_no_entry_before(rest, 0);
    if let Some(k) = mirror::first_entry(rest, 0) {
        assert(rest.skip(k) =~= data.skip(at + k));
        mirror::lemma_candidate_length(rest.skip(k));
        if let AltCandidate::Enter(length) = mirror::alt_candidate(rest.skip(k)) {
            assert(rest.skip(k + length) =~= data.skip(at + k + length));
        }
    }
}

proof fn lemma_parameters_end_extends(bytes: Seq<u8>, more: Seq<u8>, from: int)
    requires
        0 <= from <= bytes.len(),
    ensures
        mirror::parameters_end(bytes, from) < bytes.len() ==> mirror::parameters_end(
            bytes + more,
            from,
        ) == mirror::parameters_end(bytes, from),
        mirror::parameters_end(bytes + more, from) >= mirror::parameters_end(bytes, from),
    decreases bytes.len() - from,
{
    if from < bytes.len() {
        assert((bytes + more)[from] == bytes[from]);
        if mirror::is_parameter(bytes[from]) {
            lemma_parameters_end_extends(bytes, more, from + 1);
        }
    } else {
        mirror::lemma_parameters_end(bytes + more, from);
    }
}

proof fn lemma_candidate_extends(bytes: Seq<u8>, more: Seq<u8>)
    requires
        !(mirror::alt_candidate(bytes) is NeedMore),
    ensures
        mirror::alt_candidate(bytes + more) == mirror::alt_candidate(bytes),
{
    let longer = bytes + more;
    assert(longer[1] == bytes[1]);
    if bytes.len() >= 3 {
        assert(longer[2] == bytes[2]);
        mirror::lemma_parameters_end(bytes, 3);
        lemma_parameters_end_extends(bytes, more, 3);
        let end = mirror::parameters_end(bytes, 3);
        if end < bytes.len() {
            assert(longer[end] == bytes[end]);
            assert(longer.subrange(3, end) =~= bytes.subrange(3, end));
        }
    }
}

proof fn lemma_held_steps(data: Seq<u8>, more: Seq<u8>)
    ensures
        held_of(data + more) == held_of(held_of(data) + more),
    decreases data.len(),
{
    let whole = data + more;
    lemma_no_entry_before(data, 0);
    let clear = match mirror::first_entry(data, 0) {
        Some(at) => at,
        None => data.len() as int,
    };
    assert forall|i: int| 0 <= i < clear implies !#[trigger] entry_at(whole, i) by {
        assert(!entry_at(data, i));
        assert(whole[i] == data[i]);
        if data[i] == 0x1b {
            lemma_candidate_extends(data.skip(i), more);
            assert(whole.skip(i) =~= data.skip(i) + more);
        }
    }
    lemma_held_skips(whole, clear);
    let rest = data.skip(clear) + more;
    assert(whole.skip(clear) =~= rest);
    if let Some(at) = mirror::first_entry(data, 0) {
        mirror::lemma_candidate_length(data.skip(at));
        if let AltCandidate::Enter(length) = mirror::alt_candidate(data.skip(at)) {
            lemma_candidate_extends(data.skip(at), more);
            assert(rest[0] == data[at]);
            assert(rest.skip(0) =~= rest);
            assert(mirror::first_entry(rest, 0) == Some(0int));
            assert(rest.skip(0 + length) =~= data.skip(at + length) + more);
            lemma_held_steps(data.skip(at + length), more);
        }
    } else {
        assert(held_of(data) + more =~= rest);
    }
}

proof fn lemma_held_is_unfinished(data: Seq<u8>)
    ensures
        unfinished_entry(held_of(data)),
    decreases data.len(),
{
    mirror::lemma_first_entry(data, 0);
    if let Some(at) = mirror::first_entry(data, 0) {
        let rest = data.skip(at);
        mirror::lemma_candidate_length(rest);
        match mirror::alt_candidate(rest) {
            AltCandidate::Enter(length) => {
                lemma_held_is_unfinished(data.skip(at + length));
            },
            _ => {
                assert(rest[0] == data[at]);
                if rest.len() >= 3 {
                    mirror::lemma_parameters_end(rest, 3);
                }
            },
        }
    }
}

proof fn lemma_fed_holds<E: TerminalEngine>(
    history: Seq<EngineStep>,
    frozen: Option<FrozenView>,
    data: Seq<u8>,
)
    ensures
        mirror::fed::<E>(history, frozen, data).held == held_of(data),
    decreases data.len(),
{
    mirror::lemma_first_entry(data, 0);
    if let Some(at) = mirror::first_entry(data, 0) {
        mirror::lemma_candidate_length(data.skip(at));
        if let AltCandidate::Enter(length) = mirror::alt_candidate(data.skip(at)) {
            let before = history.push(EngineStep::Feed { bytes: data.take(at) });
            lemma_fed_holds::<E>(
                before.push(EngineStep::Feed { bytes: data.subrange(at, at + length) }),
                mirror::frozen_at::<E>(before, frozen),
                data.skip(at + length),
            );
        }
    }
}

/// How input is cut into calls changes neither the bytes the engine is fed nor those that are held
/// back. Both together are the input, with nothing lost, doubled or reordered, and what is held back
/// is nothing or one unfinished switch to the alternate screen.
pub proof fn law_cuts_do_not_matter<E: TerminalEngine>(start: MirrorView, chunks: Seq<Seq<u8>>)
    requires
        start.held.len() == 0,
    ensures
        ({
            let after = fed_chunks::<E>(start, chunks);
            &&& mirror::fed_bytes(after.history) + after.held == mirror::fed_bytes(start.history)
                + joined(chunks)
            &&& after.held == held_of(joined(chunks))
            &&& unfinished_entry(after.held)
        }),
    decreases chunks.len(),
{
    if chunks.len() == 0 {
        assert(mirror::fed_bytes(start.history) + start.held =~= mirror::fed_bytes(start.history)
            + joined(chunks));
        assert(start.held =~= held_of(joined(chunks)));
    } else {
        let earlier = chunks.drop_last();
        let chunk = chunks.last();
        law_cuts_do_not_matter::<E>(start, earlier);
        let before = fed_chunks::<E>(start, earlier);
        let data = before.held + chunk;
        mirror::law_no_output_is_lost::<E>(before.history, before.frozen, data);
        lemma_fed_holds::<E>(before.history, before.frozen, data);
        lemma_held_steps(joined(earlier), chunk);
        lemma_held_is_unfinished(data);
        assert(mirror::fed_bytes(before.history) + data =~= mirror::fed_bytes(before.history)
            + before.held + chunk);
        assert(mirror::fed_bytes(start.history) + joined(earlier) + chunk =~= mirror::fed_bytes(
            start.history,
        ) + joined(chunks));
    }
}

proof fn lemma_history_extends<E: TerminalEngine>(
    history: Seq<EngineStep>,
    frozen: Option<FrozenView>,
    data: Seq<u8>,
)
    ensures
        ({
            let after = mirror::fed::<E>(history, frozen, data).history;
            history.len() < after.len() && after.take(history.len() as int) == history
        }),
    decreases data.len(),
{
    mirror::lemma_first_entry(data, 0);
    let after = mirror::fed::<E>(history, frozen, data).history;
    match mirror::first_entry(data, 0) {
        Some(at) => {
            mirror::lemma_candidate_length(data.skip(at));
            let before = history.push(EngineStep::Feed { bytes: data.take(at) });
            if let AltCandidate::Enter(length) = mirror::alt_candidate(data.skip(at)) {
                let entered = before.push(
                    EngineStep::Feed { bytes: data.subrange(at, at + length) },
                );
                lemma_history_extends::<E>(
                    entered,
                    mirror::frozen_at::<E>(before, frozen),
                    data.skip(at + length),
                );
                assert(after.take(history.len() as int) =~= after.take(entered.len() as int).take(
                    history.len() as int,
                ));
                assert(entered.take(history.len() as int) =~= history);
            } else {
                assert(after.take(history.len() as int) =~= history);
            }
        },
        None => {
            assert(after.take(history.len() as int) =~= history);
        },
    }
}

/// Whether the alternate screen was shown after every step of a history from `from` steps on.
pub open spec fn alternate_since<E: TerminalEngine>(history: Seq<EngineStep>, from: int) -> bool {
    forall|n: int|
        from <= n <= history.len() ==> (#[trigger] E::screen_after(history.take(n))).alt_active
}

/// While the alternate screen stays shown, output leaves the frozen primary screen as it is.
pub proof fn law_frozen_screen_stays<E: TerminalEngine>(
    history: Seq<EngineStep>,
    frozen: Option<FrozenView>,
    data: Seq<u8>,
)
    requires
        alternate_since::<E>(
            mirror::fed::<E>(history, frozen, data).history,
            history.len() as int,
        ),
    ensures
        mirror::fed::<E>(history, frozen, data).frozen == frozen,
    decreases data.len(),
{
    mirror::lemma_first_entry(data, 0);
    let after = mirror::fed::<E>(history, frozen, data).history;
    lemma_history_extends::<E>(history, frozen, data);
    match mirror::first_entry(data, 0) {
        Some(at) => {
            mirror::lemma_candidate_length(data.skip(at));
            let before = history.push(EngineStep::Feed { bytes: data.take(at) });
            if let AltCandidate::Enter(length) = mirror::alt_candidate(data.skip(at)) {
                let entered = before.push(
                    EngineStep::Feed { bytes: data.subrange(at, at + length) },
                );
                let rest = data.skip(at + length);
                lemma_history_extends::<E>(entered, mirror::frozen_at::<E>(before, frozen), rest);
                assert(after.take(before.len() as int) =~= after.take(entered.len() as int).take(
                    before.len() as int,
                ));
                assert(entered.take(before.len() as int) =~= before);
                assert(E::screen_after(after.take(before.len() as int)).alt_active);
                law_frozen_screen_stays::<E>(entered, frozen, rest);
            }
        },
        None => {
            assert(after.take(after.len() as int) =~= after);
            assert(E::screen_after(after.take(after.len() as int)).alt_active);
        },
    }
}

/// What a repaint starts with while a frozen primary screen waits behind the alternate one: that
/// screen, its cursor, the switch, and the cleared alternate screen.
pub open spec fn frozen_lead(frozen: FrozenView) -> Seq<u8> {
    text::utf8("\x1b[0m"@) + frozen.paint + frozen.place + text::utf8("\x1b[?1049h"@) + text::utf8(
        "\x1b[2J"@,
    )
}

proof fn lemma_alt_rows_start_cleared(screen: EngineScreen, count: nat)
    ensures
        text::utf8("\x1b[2J"@).is_prefix_of(mirror::alt_rows(screen, count).0),
    decreases count,
{
    let clear = text::utf8("\x1b[2J"@);
    if count == 0 {
        assert(clear.subrange(0, clear.len() as int) =~= clear);
    } else {
        lemma_alt_rows_start_cleared(screen, (count - 1) as nat);
        let before = mirror::alt_rows(screen, (count - 1) as nat).0;
        let after = mirror::alt_rows(screen, count).0;
        assert(before.subrange(0, clear.len() as int) =~= after.subrange(0, clear.len() as int));
    }
}

/// The frozen primary screen leads the repaint of an alternate screen, whatever that one shows.
pub proof fn law_frozen_screen_leads_the_repaint(screen: EngineScreen, frozen: FrozenView)
    requires
        screen.alt_active,
    ensures
        frozen_lead(frozen).is_prefix_of(mirror::rehydration(screen, Some(frozen))),
{
    lemma_alt_rows_start_cleared(screen, screen.rows as nat);
    let clear = text::utf8("\x1b[2J"@);
    let rows = mirror::alt_rows(screen, screen.rows as nat).0;
    let lead = frozen_lead(frozen);
    let head = text::utf8("\x1b[0m"@) + frozen.paint + frozen.place + text::utf8("\x1b[?1049h"@);
    let tail = rows.skip(clear.len() as int) + text::utf8("\x1b[0m"@) + paint::cup_bytes(
        screen.cursor,
    ) + paint::mode_sets_bytes(screen.modes) + paint::cursor_style_bytes(screen.cursor_style);
    assert(rows =~= clear + rows.skip(clear.len() as int)) by {
        assert(rows.subrange(0, clear.len() as int) == clear);
        assert forall|i: int| 0 <= i < clear.len() implies rows[i] == clear[i] by {
            assert(rows.subrange(0, clear.len() as int)[i] == rows[i]);
        }
    }
    let whole = mirror::rehydration(screen, Some(frozen));
    assert(whole =~= head + (clear + rows.skip(clear.len() as int)) + text::utf8("\x1b[0m"@)
        + paint::cup_bytes(screen.cursor) + paint::mode_sets_bytes(screen.modes)
        + paint::cursor_style_bytes(screen.cursor_style));
    assert(whole =~= lead + tail);
    assert(whole.subrange(0, lead.len() as int) =~= lead);
}

/// From a switch to the alternate screen on, and for as long as that screen stays shown, a repaint
/// starts with the primary screen and its cursor as they were just before the switch, whatever
/// follows the switch.
pub proof fn law_primary_screen_survives_the_switch<E: TerminalEngine>(
    history: Seq<EngineStep>,
    frozen: Option<FrozenView>,
    data: Seq<u8>,
    at: int,
    length: usize,
)
    requires
        mirror::first_entry(data, 0) == Some(at),
        mirror::alt_candidate(data.skip(at)) == AltCandidate::Enter(length),
        !E::screen_after(
            history.push(EngineStep::Feed { bytes: data.take(at) }),
        ).alt_active,
        alternate_since::<E>(
            mirror::fed::<E>(history, frozen, data).history,
            history.len() as int + 2,
        ),
    ensures
        ({
            let primary = E::screen_after(history.push(EngineStep::Feed { bytes: data.take(at) }));
            let kept = FrozenView {
                paint: mirror::primary_paint(primary),
                place: paint::cup_bytes(primary.cursor),
            };
            let after = mirror::fed::<E>(history, frozen, data);
            &&& after.frozen == Some(kept)
            &&& frozen_lead(kept).is_prefix_of(
                mirror::rehydration(E::screen_after(after.history), after.frozen),
            )
        }),
{
    mirror::lemma_first_entry(data, 0);
    mirror::lemma_candidate_length(data.skip(at));
    let before = history.push(EngineStep::Feed { bytes: data.take(at) });
    let entered = before.push(EngineStep::Feed { bytes: data.subrange(at, at + length) });
    let kept = mirror::frozen_at::<E>(before, frozen);
    let rest = data.skip(at + length);
    let after = mirror::fed::<E>(history, frozen, data);
    assert(after == mirror::fed::<E>(entered, kept, rest));
    law_frozen_screen_stays::<E>(entered, kept, rest);
    lemma_history_extends::<E>(entered, kept, rest);
    assert(after.history.take(after.history.len() as int) =~= after.history);
    assert(E::screen_after(after.history.take(after.history.len() as int)).alt_active);
    law_frozen_screen_leads_the_repaint(E::screen_after(after.history), kept->0);
}

/// An engine that shows the same after it was fed nothing keeps the primary screen that it shows when
/// output starts with a switch: from then on, and for as long as the alternate screen stays shown, a
/// repaint starts with that screen and its cursor.
pub proof fn law_shown_screen_survives_the_switch<E: TerminalEngine>(
    history: Seq<EngineStep>,
    frozen: Option<FrozenView>,
    data: Seq<u8>,
    length: usize,
)
    requires
        E::screen_after(history.push(EngineStep::Feed { bytes: Seq::empty() })) == E::screen_after(
            history,
        ),
        mirror::first_entry(data, 0) == Some(0int),
        mirror::alt_candidate(data) == AltCandidate::Enter(length),
        !E::screen_after(history).alt_active,
        alternate_since::<E>(
            mirror::fed::<E>(history, frozen, data).history,
            history.len() as int + 2,
        ),
    ensures
        ({
            let primary = E::screen_after(history);
            let kept = FrozenView {
                paint: mirror::primary_paint(primary),
                place: paint::cup_bytes(primary.cursor),
            };
            let after = mirror::fed::<E>(history, frozen, data);
            &&& after.frozen == Some(kept)
            &&& frozen_lead(kept).is_prefix_of(
                mirror::rehydration(E::screen_after(after.history), after.frozen),
            )
        }),
{
    assert(data.take(0) =~= Seq::<u8>::empty());
    assert(data.skip(0) =~= data);
    law_primary_screen_survives_the_switch::<E>(history, frozen, data, 0, length);
}

/// `ESC [ ? 1 0 4 9 h` is a switch to the alternate screen, whatever follows it.
pub proof fn law_mode_1049_switches(rest: Seq<u8>)
    ensures
        ({
            let data = seq![0x1bu8, 0x5b, 0x3f, 0x31, 0x30, 0x34, 0x39, 0x68] + rest;
            mirror::first_entry(data, 0) == Some(0int) && mirror::alt_candidate(data.skip(0))
                == AltCandidate::Enter(8)
        }),
{
    reveal_with_fuel(mirror::parameters_end, 6);
    let data = seq![0x1bu8, 0x5b, 0x3f, 0x31, 0x30, 0x34, 0x39, 0x68] + rest;
    assert(data.skip(0) =~= data);
    assert(mirror::parameters_end(data, 3) == 7);
    let parameters = data.subrange(3, 7);
    assert(mirror::is_field(parameters, 0, 4));
    assert(parameters.subrange(0, 4) =~= seq![0x31u8, 0x30, 0x34, 0x39]);
    assert(mirror::names_alt_screen(parameters));
}

/// Whether some bytes are digits and semicolons, as mode numbers are listed.
pub open spec fn listed_numbers(list: Seq<u8>) -> bool {
    forall|i: int| 0 <= i < list.len() ==> 0x30 <= #[trigger] list[i] <= 0x39 || list[i] == 0x3b
}

/// Whether a list of mode numbers has a number from `start` to `end`.
pub open spec fn lists(list: Seq<u8>, start: int, end: int) -> bool {
    &&& 0 <= start < end <= list.len()
    &&& start > 0 ==> list[start - 1] == 0x3b
    &&& end < list.len() ==> list[end] == 0x3b
    &&& forall|i: int| start <= i < end ==> #[trigger] list[i] != 0x3b
}

proof fn lemma_list_ends(data: Seq<u8>, from: int, end: int)
    requires
        0 <= from <= end < data.len(),
        forall|i: int| from <= i < end ==> mirror::is_parameter(#[trigger] data[i]),
        !mirror::is_parameter(data[end]),
    ensures
        mirror::parameters_end(data, from) == end,
    decreases end - from,
{
    if from < end {
        lemma_list_ends(data, from + 1, end);
    }
}

/// `ESC [ ?`, a list of at most 32 bytes that names mode 47, 1047 or 1049 anywhere, and `h` are a
/// switch to the alternate screen, whatever follows; the same with `l` is none.
pub proof fn law_listed_modes_switch(list: Seq<u8>, start: int, end: int, rest: Seq<u8>)
    requires
        list.len() <= 32,
        listed_numbers(list),
        lists(list, start, end),
        list.subrange(start, end) == seq![0x34u8, 0x37] || list.subrange(start, end) == seq![
            0x31u8,
            0x30,
            0x34,
            0x37,
        ] || list.subrange(start, end) == seq![0x31u8, 0x30, 0x34, 0x39],
    ensures
        mirror::alt_candidate(seq![0x1bu8, 0x5b, 0x3f] + list + seq![0x68u8] + rest)
            == AltCandidate::Enter((list.len() + 4) as usize),
        mirror::alt_candidate(seq![0x1bu8, 0x5b, 0x3f] + list + seq![0x6cu8] + rest)
            == AltCandidate::No,
{
    let on = seq![0x1bu8, 0x5b, 0x3f] + list + seq![0x68u8] + rest;
    let off = seq![0x1bu8, 0x5b, 0x3f] + list + seq![0x6cu8] + rest;
    let stop = 3 + list.len() as int;
    assert forall|i: int| 3 <= i < stop implies mirror::is_parameter(#[trigger] on[i])
        && mirror::is_parameter(off[i]) by {
        assert(on[i] == list[i - 3] && off[i] == list[i - 3]);
    }
    assert forall|i: int| 3 <= i < stop implies mirror::is_parameter(#[trigger] off[i]) by {
        assert(off[i] == list[i - 3]);
    }
    assert(on[stop] == 0x68 && off[stop] == 0x6c);
    lemma_list_ends(on, 3, stop);
    lemma_list_ends(off, 3, stop);
    assert(on.subrange(3, stop) =~= list);
    assert(mirror::is_field(list, start, end));
    assert(mirror::is_alt_mode(list.subrange(start, end)));
    assert(mirror::names_alt_screen(list));
}

/// An unfinished list is waited for, up to 32 bytes of it; anything but `ESC [ ?` in front is no
/// switch.
pub proof fn law_unfinished_switch_is_waited_for(list: Seq<u8>, other: u8, rest: Seq<u8>)
    requires
        listed_numbers(list),
    ensures
        list.len() <= 32 ==> mirror::alt_candidate(seq![0x1bu8, 0x5b, 0x3f] + list)
            == AltCandidate::NeedMore,
        list.len() > 32 ==> mirror::alt_candidate(seq![0x1bu8, 0x5b, 0x3f] + list)
            == AltCandidate::No,
        mirror::alt_candidate(seq![0x1bu8]) == AltCandidate::NeedMore,
        mirror::alt_candidate(seq![0x1bu8, 0x5b]) == AltCandidate::NeedMore,
        other != 0x5b ==> mirror::alt_candidate(seq![0x1bu8, other] + rest) == AltCandidate::No,
        other != 0x3f ==> mirror::alt_candidate(seq![0x1bu8, 0x5b, other] + rest)
            == AltCandidate::No,
{
    let data = seq![0x1bu8, 0x5b, 0x3f] + list;
    assert forall|i: int| 3 <= i < data.len() implies mirror::is_parameter(#[trigger] data[i]) by {
        assert(data[i] == list[i - 3]);
    }
    lemma_list_goes_on(data, 3);
}

proof fn lemma_list_goes_on(data: Seq<u8>, from: int)
    requires
        0 <= from <= data.len(),
        forall|i: int| from <= i < data.len() ==> mirror::is_parameter(#[trigger] data[i]),
    ensures
        mirror::parameters_end(data, from) == data.len(),
    decreases data.len() - from,
{
    if from < data.len() {
        lemma_list_goes_on(data, from + 1);
    }
}

/// Whether two engines report the same but for the animation policy of the cursor.
pub open spec fn alike(a: EngineScreen, b: EngineScreen) -> bool {
    b == (EngineScreen { cursor_animation: b.cursor_animation, ..a })
}

proof fn lemma_alike_rows(a: EngineScreen, b: EngineScreen, count: nat)
    requires
        alike(a, b),
    ensures
        mirror::primary_rows(a, count) == mirror::primary_rows(b, count),
        mirror::alt_rows(a, count) == mirror::alt_rows(b, count),
    decreases count,
{
    if count > 0 {
        lemma_alike_rows(a, b, (count - 1) as nat);
    }
}

/// The animation policy of the cursor is no part of a repaint, and its shape and blinking are: two
/// screens that differ in the policy alone are repainted alike, and a repaint ends with the
/// sequence that selects the cursor style.
pub proof fn law_repaint_ends_with_the_cursor_style(
    a: EngineScreen,
    b: EngineScreen,
    frozen: Option<FrozenView>,
)
    requires
        alike(a, b),
    ensures
        mirror::rehydration(a, frozen) == mirror::rehydration(b, frozen),
        exists|before: Seq<u8>|
            mirror::rehydration(a, frozen) == #[trigger] (before + paint::cursor_style_bytes(
                a.cursor_style,
            )),
{
    lemma_alike_rows(a, b, (a.history_size + a.rows) as nat);
    lemma_alike_rows(a, b, a.rows as nat);
    let whole = mirror::rehydration(a, frozen);
    let style = paint::cursor_style_bytes(a.cursor_style);
    let before = whole.take(whole.len() - style.len());
    assert(whole =~= before + style);
}

/// Two mirrors that were fed the same and whose engines report the same but for the animation policy
/// hold the same state and are repainted alike.
pub proof fn law_animation_is_not_repainted<A: TerminalEngine, B: TerminalEngine>(
    history: Seq<EngineStep>,
    frozen: Option<FrozenView>,
    data: Seq<u8>,
)
    requires
        forall|steps: Seq<EngineStep>|
            alike(#[trigger] A::screen_after(steps), B::screen_after(steps)),
    ensures
        mirror::fed::<A>(history, frozen, data) == mirror::fed::<B>(history, frozen, data),
        ({
            let after = mirror::fed::<A>(history, frozen, data);
            mirror::rehydration(A::screen_after(after.history), after.frozen)
                == mirror::rehydration(B::screen_after(after.history), after.frozen)
        }),
    decreases data.len(),
{
    mirror::lemma_first_entry(data, 0);
    let after = mirror::fed::<A>(history, frozen, data);
    match mirror::first_entry(data, 0) {
        Some(at) => {
            mirror::lemma_candidate_length(data.skip(at));
            if let AltCandidate::Enter(length) = mirror::alt_candidate(data.skip(at)) {
                let before = history.push(EngineStep::Feed { bytes: data.take(at) });
                let (a, b) = (A::screen_after(before), B::screen_after(before));
                assert(alike(a, b));
                lemma_alike_rows(a, b, (a.history_size + a.rows) as nat);
                assert(mirror::frozen_at::<A>(before, frozen) == mirror::frozen_at::<B>(
                    before,
                    frozen,
                ));
                law_animation_is_not_repainted::<A, B>(
                    before.push(EngineStep::Feed { bytes: data.subrange(at, at + length) }),
                    mirror::frozen_at::<A>(before, frozen),
                    data.skip(at + length),
                );
            }
        },
        None => {
            let fed = history.push(EngineStep::Feed { bytes: data });
            assert(alike(A::screen_after(fed), B::screen_after(fed)));
        },
    }
    assert(alike(A::screen_after(after.history), B::screen_after(after.history)));
    law_repaint_ends_with_the_cursor_style(
        A::screen_after(after.history),
        B::screen_after(after.history),
        after.frozen,
    );
}

} // verus!
