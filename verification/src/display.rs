//! What a terminal makes of a repaint.
//!
//! A display reads characters and escape sequences: it prints, breaks lines, moves, selects
//! renditions and sets modes. Its lines have no end, so that rows which wrap go on in the same line.
//! Nothing here is run; the laws say that a repaint shows what the engine showed.

use vstd::prelude::*;

use crate::cells::{CellView, TerminalColor};
use crate::paint::{self, Sgr};
use crate::text;

verus! {

/// A printed character and the rendition it was printed in.
#[verifier::ext_equal]
pub struct Glyph {
    pub ch: char,
    pub style: Sgr,
}

/// What a terminal shows and how it is set.
#[verifier::ext_equal]
pub struct Display {
    /// An escape sequence that has not ended.
    pub pending: Seq<char>,
    pub style: Sgr,
    pub alternate: bool,
    /// The line that is printed to.
    pub row: int,
    /// Where the last move put the cursor, as row and column.
    pub place: (int, int),
    /// Where the cursor was when the alternate screen was entered.
    pub saved: (int, int),
    pub primary: spec_fn(int) -> Seq<Glyph>,
    pub other: spec_fn(int) -> Seq<Glyph>,
    /// The private modes that are on.
    pub private: Set<nat>,
    /// The other modes that are on.
    pub public: Set<nat>,
    pub keypad: bool,
    /// The number the cursor style was selected by.
    pub cursor_style: nat,
}

/// The rendition of a terminal that was reset.
pub open spec fn reset() -> Sgr {
    Sgr {
        bold: false,
        dim: false,
        italic: false,
        underline: false,
        inverse: false,
        hidden: false,
        strikeout: false,
        foreground: TerminalColor::Default,
        background: TerminalColor::Default,
    }
}

/// A blank terminal: lines wrap and the cursor shows.
pub open spec fn blank() -> Display {
    Display {
        pending: Seq::empty(),
        style: reset(),
        alternate: false,
        row: 0,
        place: (0, 0),
        saved: (0, 0),
        primary: |row: int| Seq::empty(),
        other: |row: int| Seq::empty(),
        private: set![7nat, 25nat],
        public: Set::empty(),
        keypad: false,
        cursor_style: 0,
    }
}

/// The numbers of a list that semicolons separate. A number that is left out is zero.
pub open spec fn numbers(list: Seq<char>) -> Seq<nat>
    decreases list.len(),
{
    if list.len() == 0 {
        seq![0nat]
    } else {
        let before = numbers(list.drop_last());
        let c = list.last();
        if c == ';' {
            before.push(0)
        } else {
            before.drop_last().push((before.last() * 10 + (c as nat - 48)) as nat)
        }
    }
}

/// A color that is being selected by more than one number.
pub enum Selecting {
    Nothing,
    /// After 38 or 48.
    Kind { background: bool },
    /// After 38;5 or 48;5.
    Index { background: bool },
    /// After 38;2 or 48;2, with the parts so far.
    Parts { background: bool, parts: Seq<nat> },
}

/// A rendition with another foreground or background.
pub open spec fn colored(style: Sgr, background: bool, color: TerminalColor) -> Sgr {
    if background {
        Sgr { background: color, ..style }
    } else {
        Sgr { foreground: color, ..style }
    }
}

/// A rendition after one more number of a selection.
pub open spec fn selected(now: (Sgr, Selecting), number: nat) -> (Sgr, Selecting) {
    let (style, selecting) = now;
    match selecting {
        Selecting::Kind { background } => if number == 5 {
            (style, Selecting::Index { background })
        } else if number == 2 {
            (style, Selecting::Parts { background, parts: Seq::empty() })
        } else {
            (style, Selecting::Nothing)
        },
        Selecting::Index { background } => (
            colored(style, background, TerminalColor::Indexed(number as u8)),
            Selecting::Nothing,
        ),
        Selecting::Parts { background, parts } => if parts.len() < 2 {
            (style, Selecting::Parts { background, parts: parts.push(number) })
        } else {
            (
                colored(
                    style,
                    background,
                    TerminalColor::Rgb(parts[0] as u8, parts[1] as u8, number as u8),
                ),
                Selecting::Nothing,
            )
        },
        Selecting::Nothing => if number == 38 {
            (style, Selecting::Kind { background: false })
        } else if number == 48 {
            (style, Selecting::Kind { background: true })
        } else {
            (rendered(style, number), Selecting::Nothing)
        },
    }
}

/// A rendition after a number that stands for itself.
pub open spec fn rendered(style: Sgr, number: nat) -> Sgr {
    if number == 0 {
        reset()
    } else if number == 1 {
        Sgr { bold: true, ..style }
    } else if number == 2 {
        Sgr { dim: true, ..style }
    } else if number == 3 {
        Sgr { italic: true, ..style }
    } else if number == 4 {
        Sgr { underline: true, ..style }
    } else if number == 7 {
        Sgr { inverse: true, ..style }
    } else if number == 8 {
        Sgr { hidden: true, ..style }
    } else if number == 9 {
        Sgr { strikeout: true, ..style }
    } else if 30 <= number <= 37 {
        Sgr { foreground: TerminalColor::Named((number - 30) as u8), ..style }
    } else if number == 39 {
        Sgr { foreground: TerminalColor::Default, ..style }
    } else if 40 <= number <= 47 {
        Sgr { background: TerminalColor::Named((number - 40) as u8), ..style }
    } else if number == 49 {
        Sgr { background: TerminalColor::Default, ..style }
    } else if 90 <= number <= 97 {
        Sgr { foreground: TerminalColor::Named((number - 82) as u8), ..style }
    } else if 100 <= number <= 107 {
        Sgr { background: TerminalColor::Named((number - 92) as u8), ..style }
    } else {
        style
    }
}

/// A rendition after the numbers of a selection, in order.
pub open spec fn selected_by(now: (Sgr, Selecting), numbers: Seq<nat>) -> (Sgr, Selecting)
    decreases numbers.len(),
{
    if numbers.len() == 0 {
        now
    } else {
        selected(selected_by(now, numbers.drop_last()), numbers.last())
    }
}

/// The lines of the screen that is shown with one more glyph.
pub open spec fn printed(display: Display, ch: char) -> Display {
    let glyph = Glyph { ch, style: display.style };
    if display.alternate {
        Display {
            other: |row: int|
                if row == display.row {
                    (display.other)(row).push(glyph)
                } else {
                    (display.other)(row)
                },
            ..display
        }
    } else {
        Display {
            primary: |row: int|
                if row == display.row {
                    (display.primary)(row).push(glyph)
                } else {
                    (display.primary)(row)
                },
            ..display
        }
    }
}

/// What a control sequence does: `ESC [`, a body and a final character.
pub open spec fn controlled(display: Display, body: Seq<char>, last: char) -> Display {
    if last == 'm' {
        Display {
            style: selected_by((display.style, Selecting::Nothing), numbers(body)).0,
            ..display
        }
    } else if last == 'H' {
        let at = numbers(body);
        Display { row: at[0] - 1, place: (at[0] - 1, at[1] - 1), ..display }
    } else if last == 'J' && numbers(body) == seq![2nat] {
        if display.alternate {
            Display { other: |row: int| Seq::empty(), ..display }
        } else {
            Display { primary: |row: int| Seq::empty(), ..display }
        }
    } else if last == 'q' && body.len() > 0 && body.last() == ' ' {
        Display { cursor_style: numbers(body.drop_last()).last(), ..display }
    } else if (last == 'h' || last == 'l') && body.len() > 0 && body[0] == '?' {
        let mode = numbers(body.drop_first()).last();
        Display {
            alternate: if mode == 1049 {
                last == 'h'
            } else {
                display.alternate
            },
            saved: if mode == 1049 && last == 'h' {
                display.place
            } else {
                display.saved
            },
            private: if last == 'h' {
                display.private.insert(mode)
            } else {
                display.private.remove(mode)
            },
            ..display
        }
    } else if last == 'h' || last == 'l' {
        let mode = numbers(body).last();
        Display {
            public: if last == 'h' {
                display.public.insert(mode)
            } else {
                display.public.remove(mode)
            },
            ..display
        }
    } else {
        display
    }
}

/// A display after one more character.
pub open spec fn took(display: Display, c: char) -> Display {
    if display.pending.len() == 0 {
        if c == '\x1b' {
            Display { pending: seq![c], ..display }
        } else if c == '\n' {
            Display { row: display.row + 1, ..display }
        } else if c == '\r' {
            display
        } else {
            printed(display, c)
        }
    } else if display.pending.len() == 1 {
        if c == '[' {
            Display { pending: display.pending.push(c), ..display }
        } else {
            Display {
                pending: Seq::empty(),
                keypad: if c == '=' {
                    true
                } else {
                    display.keypad
                },
                ..display
            }
        }
    } else if '@' <= c <= '~' {
        controlled(Display { pending: Seq::empty(), ..display }, display.pending.skip(2), c)
    } else {
        Display { pending: display.pending.push(c), ..display }
    }
}

/// A display after some characters.
pub open spec fn took_all(display: Display, chars: Seq<char>) -> Display
    decreases chars.len(),
{
    if chars.len() == 0 {
        display
    } else {
        took(took_all(display, chars.drop_last()), chars.last())
    }
}

/// A display after some output.
pub open spec fn showing(display: Display, output: Seq<u8>) -> Display {
    took_all(display, vstd::utf8::decode_utf8(output))
}

pub proof fn lemma_took_both(display: Display, a: Seq<char>, b: Seq<char>)
    ensures
        took_all(display, a + b) == took_all(took_all(display, a), b),
    decreases b.len(),
{
    if b.len() == 0 {
        assert(a + b =~= a);
    } else {
        assert((a + b).drop_last() =~= a + b.drop_last());
        lemma_took_both(display, a, b.drop_last());
    }
}

/// The UTF-8 of two texts one after the other is that of the joined text.
pub proof fn lemma_utf8_joined(a: Seq<char>, b: Seq<char>)
    ensures
        text::utf8(a + b) == text::utf8(a) + text::utf8(b),
    decreases a.len(),
{
    if a.len() == 0 {
        assert(a + b =~= b);
        assert(text::utf8(a) + text::utf8(b) =~= text::utf8(b));
    } else {
        assert((a + b).drop_first() =~= a.drop_first() + b);
        lemma_utf8_joined(a.drop_first(), b);
        assert(text::utf8(a + b) =~= text::utf8(a) + text::utf8(b));
    }
}

/// Output is the UTF-8 of some text.
pub open spec fn textual(output: Seq<u8>) -> bool {
    vstd::utf8::valid_utf8(output)
}

pub proof fn lemma_text_shows(display: Display, chars: Seq<char>)
    ensures
        textual(text::utf8(chars)),
        showing(display, text::utf8(chars)) == took_all(display, chars),
{
    vstd::utf8::encode_utf8_valid_utf8(chars);
    vstd::utf8::encode_utf8_decode_utf8(chars);
}

/// Output in two parts shows what the parts show one after the other.
pub proof fn lemma_shows_both(display: Display, a: Seq<u8>, b: Seq<u8>)
    requires
        textual(a),
        textual(b),
    ensures
        textual(a + b),
        showing(display, a + b) == showing(showing(display, a), b),
{
    let (p, q) = (vstd::utf8::decode_utf8(a), vstd::utf8::decode_utf8(b));
    vstd::utf8::decode_utf8_encode_utf8(a);
    vstd::utf8::decode_utf8_encode_utf8(b);
    lemma_utf8_joined(p, q);
    lemma_text_shows(display, p + q);
    lemma_took_both(display, p, q);
}

/// Whether a character stands in the body of a control sequence.
pub open spec fn in_body(c: char) -> bool {
    ' ' <= c < '@'
}

proof fn lemma_body(display: Display, body: Seq<char>)
    requires
        display.pending.len() >= 2,
        forall|i: int| 0 <= i < body.len() ==> in_body(#[trigger] body[i]),
    ensures
        took_all(display, body) == (Display { pending: display.pending + body, ..display }),
    decreases body.len(),
{
    if body.len() == 0 {
        assert(display.pending + body =~= display.pending);
    } else {
        assert forall|i: int| 0 <= i < body.drop_last().len() implies in_body(
            #[trigger] body.drop_last()[i],
        ) by {
            assert(body.drop_last()[i] == body[i]);
        }
        lemma_body(display, body.drop_last());
        assert(in_body(body[body.len() - 1]));
        assert(display.pending + body =~= (display.pending + body.drop_last()).push(body.last()));
    }
}

/// A control sequence does what its body and its last character say.
pub proof fn lemma_control(display: Display, body: Seq<char>, last: char)
    requires
        display.pending.len() == 0,
        forall|i: int| 0 <= i < body.len() ==> in_body(#[trigger] body[i]),
        '@' <= last <= '~',
    ensures
        took_all(display, seq!['\x1b', '['] + body + seq![last]) == controlled(display, body, last),
{
    let start = seq!['\x1b', '['];
    let open = Display { pending: start, ..display };
    assert(took_all(display, start) == open) by {
        assert(start.drop_last() =~= seq!['\x1b']);
        assert(seq!['\x1b'].drop_last() =~= Seq::<char>::empty());
        assert(took_all(display, Seq::<char>::empty()) == display);
        assert(took_all(display, seq!['\x1b']) == took(display, '\x1b'));
        assert(seq!['\x1b'].push('[') =~= start);
    }
    lemma_body(open, body);
    let full = Display { pending: start + body, ..display };
    assert((start + body).skip(2) =~= body);
    assert(took_all(full, seq![last]) == took(full, last)) by {
        assert(seq![last].drop_last() =~= Seq::<char>::empty());
        assert(took_all(full, Seq::<char>::empty()) == full);
    }
    assert(Display { pending: Seq::empty(), ..full } == display) by {
        assert(display.pending =~= Seq::<char>::empty());
    }
    lemma_took_both(display, start, body);
    lemma_took_both(display, start + body, seq![last]);
}

proof fn lemma_numbers_some(list: Seq<char>)
    ensures
        numbers(list).len() > 0,
    decreases list.len(),
{
    if list.len() > 0 {
        lemma_numbers_some(list.drop_last());
    }
}

proof fn lemma_digit(d: nat)
    requires
        d < 10,
    ensures
        text::digit(d) as nat == 48 + d,
        in_body(text::digit(d)),
        text::digit(d) != ';',
{
}

/// A number in decimal is made of digits, and reads as that number behind a separator.
pub proof fn lemma_decimal_reads(list: Seq<char>, n: nat)
    requires
        numbers(list).last() == 0,
    ensures
        numbers(list + text::decimal(n)) == numbers(list).drop_last().push(n),
        forall|i: int| 0 <= i < text::decimal(n).len() ==> in_body(#[trigger] text::decimal(n)[i]),
    decreases n,
{
    lemma_numbers_some(list);
    let whole = list + text::decimal(n);
    if n < 10 {
        lemma_digit(n);
        assert(whole.drop_last() =~= list);
        assert(numbers(whole) =~= numbers(list).drop_last().push(n));
    } else {
        lemma_decimal_reads(list, n / 10);
        lemma_digit(n % 10);
        let before = list + text::decimal(n / 10);
        assert(whole.drop_last() =~= before);
        assert(whole.last() == text::digit(n % 10));
        assert(numbers(before).last() == n / 10);
        assert(numbers(before).drop_last() =~= numbers(list).drop_last());
        assert((n / 10) * 10 + n % 10 == n);
        assert(numbers(whole) =~= numbers(list).drop_last().push(n));
        assert forall|i: int| 0 <= i < text::decimal(n).len() implies in_body(
            #[trigger] text::decimal(n)[i],
        ) by {
            if i < text::decimal(n / 10).len() {
                assert(text::decimal(n)[i] == text::decimal(n / 10)[i]);
            }
        }
    }
}

proof fn lemma_separated(list: Seq<char>)
    ensures
        numbers(list.push(';')) == numbers(list).push(0),
{
    assert(list.push(';').drop_last() =~= list);
}

/// A number in decimal reads as itself.
pub proof fn lemma_one_number(n: nat)
    ensures
        numbers(text::decimal(n)) == seq![n],
        forall|i: int| 0 <= i < text::decimal(n).len() ==> in_body(#[trigger] text::decimal(n)[i]),
{
    let none = Seq::<char>::empty();
    assert(numbers(none) == seq![0nat]);
    lemma_decimal_reads(none, n);
    assert(none + text::decimal(n) =~= text::decimal(n));
    assert(numbers(none).drop_last().push(n) =~= seq![n]);
}

/// Two numbers in decimal with a semicolon between them read as themselves.
pub proof fn lemma_two_numbers(a: nat, b: nat)
    ensures
        ({
            let list = text::decimal(a) + (seq![';'] + text::decimal(b));
            &&& numbers(list) == seq![a, b]
            &&& forall|i: int| 0 <= i < list.len() ==> in_body(#[trigger] list[i])
        }),
{
    let list = text::decimal(a) + (seq![';'] + text::decimal(b));
    lemma_one_number(a);
    lemma_one_number(b);
    lemma_separated(text::decimal(a));
    lemma_decimal_reads(text::decimal(a).push(';'), b);
    assert(list =~= text::decimal(a).push(';') + text::decimal(b));
    assert(numbers(list) =~= seq![a, b]);
    assert forall|i: int| 0 <= i < list.len() implies in_body(#[trigger] list[i]) by {
        let n = text::decimal(a).len();
        if i < n {
            assert(list[i] == text::decimal(a)[i]);
        } else if i > n {
            assert(list[i] == text::decimal(b)[i - n - 1]);
        }
    }
}

proof fn lemma_selected_both(now: (Sgr, Selecting), a: Seq<nat>, b: Seq<nat>)
    ensures
        selected_by(now, a + b) == selected_by(selected_by(now, a), b),
    decreases b.len(),
{
    if b.len() == 0 {
        assert(a + b =~= a);
    } else {
        assert((a + b).drop_last() =~= a + b.drop_last());
        lemma_selected_both(now, a, b.drop_last());
    }
}

/// Whether some text adds numbers to any list it is put behind.
spec fn adds(chars: Seq<char>, more: Seq<nat>) -> bool {
    &&& forall|list: Seq<char>| #[trigger] numbers(list + chars) == numbers(list) + more
    &&& forall|i: int| 0 <= i < chars.len() ==> in_body(#[trigger] chars[i])
}

proof fn lemma_adds_nothing()
    ensures
        adds(Seq::empty(), Seq::empty()),
{
    assert forall|list: Seq<char>| #[trigger]
        numbers(list + Seq::<char>::empty()) == numbers(list) + Seq::<nat>::empty() by {
        assert(list + Seq::<char>::empty() =~= list);
        assert(numbers(list) + Seq::<nat>::empty() =~= numbers(list));
    }
}

proof fn lemma_adds_both(a: Seq<char>, x: Seq<nat>, b: Seq<char>, y: Seq<nat>)
    requires
        adds(a, x),
        adds(b, y),
    ensures
        adds(a + b, x + y),
{
    assert forall|list: Seq<char>| #[trigger]
        numbers(list + (a + b)) == numbers(list) + (x + y) by {
        assert(list + (a + b) =~= (list + a) + b);
        assert(numbers((list + a) + b) == numbers(list + a) + y);
        assert(numbers(list) + x + y =~= numbers(list) + (x + y));
    }
    assert forall|i: int| 0 <= i < (a + b).len() implies in_body(#[trigger] (a + b)[i]) by {
        if i < a.len() {
            assert((a + b)[i] == a[i]);
        } else {
            assert((a + b)[i] == b[i - a.len()]);
        }
    }
}

proof fn lemma_adds_number(n: nat)
    ensures
        adds(seq![';'] + text::decimal(n), seq![n]),
{
    let chars = seq![';'] + text::decimal(n);
    lemma_separated(Seq::empty());
    lemma_decimal_reads(Seq::empty().push(';'), n);
    assert forall|list: Seq<char>| #[trigger] numbers(list + chars) == numbers(list) + seq![n] by {
        lemma_separated(list);
        lemma_decimal_reads(list.push(';'), n);
        assert(list + chars =~= list.push(';') + text::decimal(n));
        assert(numbers(list + chars) =~= numbers(list) + seq![n]);
    }
    assert forall|i: int| 0 <= i < chars.len() implies in_body(#[trigger] chars[i]) by {
        if i > 0 {
            assert(chars[i] == text::decimal(n)[i - 1]);
        }
    }
}

/// The numbers that stand for a color.
spec fn color_numbers(color: TerminalColor, background: bool) -> Seq<nat> {
    let base: nat = if background { 10 } else { 0 };
    match color {
        TerminalColor::Default => Seq::empty(),
        TerminalColor::Named(index) => if index < 8 {
            seq![30 + base + index as nat]
        } else if index < 16 {
            seq![82 + base + index as nat]
        } else {
            Seq::empty()
        },
        TerminalColor::Indexed(index) => seq![38 + base, 5, index as nat],
        TerminalColor::Rgb(r, g, b) => seq![38 + base, 2, r as nat, g as nat, b as nat],
    }
}

proof fn lemma_adds_color(color: TerminalColor, background: bool)
    ensures
        adds(
            paint::optional_parameter(paint::color_parameter(color, background)),
            color_numbers(color, background),
        ),
{
    reveal_strlit(";");
    reveal_strlit(";5;");
    reveal_strlit(";2;");
    assert(";"@ =~= seq![';']);
    let chars = paint::optional_parameter(paint::color_parameter(color, background));
    let more = color_numbers(color, background);
    let base: nat = if background { 10 } else { 0 };
    lemma_adds_nothing();
    match color {
        TerminalColor::Default => {},
        TerminalColor::Named(index) => {
            if index < 8 {
                lemma_adds_number(30 + base + index as nat);
            } else if index < 16 {
                lemma_adds_number(82 + base + index as nat);
            }
        },
        TerminalColor::Indexed(index) => {
            let (a, b, c) = (
                seq![';'] + text::decimal(38 + base),
                seq![';'] + text::decimal(5),
                seq![';'] + text::decimal(index as nat),
            );
            lemma_adds_number(38 + base);
            lemma_adds_number(5);
            lemma_adds_number(index as nat);
            lemma_adds_both(a, seq![38 + base], b, seq![5nat]);
            lemma_adds_both(a + b, seq![38 + base] + seq![5nat], c, seq![index as nat]);
            assert(text::decimal(5) =~= seq!['5']);
            assert(chars =~= a + b + c);
            assert(more =~= seq![38 + base] + seq![5nat] + seq![index as nat]);
        },
        TerminalColor::Rgb(r, g, b) => {
            let (p, q, x, y, z) = (
                seq![';'] + text::decimal(38 + base),
                seq![';'] + text::decimal(2),
                seq![';'] + text::decimal(r as nat),
                seq![';'] + text::decimal(g as nat),
                seq![';'] + text::decimal(b as nat),
            );
            lemma_adds_number(38 + base);
            lemma_adds_number(2);
            lemma_adds_number(r as nat);
            lemma_adds_number(g as nat);
            lemma_adds_number(b as nat);
            let pq = seq![38 + base] + seq![2nat];
            lemma_adds_both(p, seq![38 + base], q, seq![2nat]);
            lemma_adds_both(p + q, pq, x, seq![r as nat]);
            lemma_adds_both(p + q + x, pq + seq![r as nat], y, seq![g as nat]);
            lemma_adds_both(
                p + q + x + y,
                pq + seq![r as nat] + seq![g as nat],
                z,
                seq![b as nat],
            );
            assert(text::decimal(2) =~= seq!['2']);
            assert(chars =~= p + q + x + y + z);
            assert(more =~= pq + seq![r as nat] + seq![g as nat] + seq![b as nat]);
        },
    }
}

spec fn flag_numbers(set: bool, number: nat) -> Seq<nat> {
    if set {
        seq![number]
    } else {
        Seq::empty()
    }
}

proof fn lemma_adds_flag(set: bool, shown: Seq<char>, number: nat)
    requires
        shown == seq![';'] + text::decimal(number),
    ensures
        adds(paint::when(set, shown), flag_numbers(set, number)),
{
    lemma_adds_nothing();
    lemma_adds_number(number);
}

spec fn style_numbers(style: Sgr) -> Seq<nat> {
    flag_numbers(style.bold, 1) + flag_numbers(style.dim, 2) + flag_numbers(style.italic, 3)
        + flag_numbers(style.underline, 4) + flag_numbers(style.inverse, 7) + flag_numbers(
        style.hidden,
        8,
    ) + flag_numbers(style.strikeout, 9) + color_numbers(style.foreground, false) + color_numbers(
        style.background,
        true,
    )
}

spec fn style_chars(style: Sgr) -> Seq<char> {
    paint::when(style.bold, ";1"@) + paint::when(style.dim, ";2"@) + paint::when(
        style.italic,
        ";3"@,
    ) + paint::when(style.underline, ";4"@) + paint::when(style.inverse, ";7"@) + paint::when(
        style.hidden,
        ";8"@,
    ) + paint::when(style.strikeout, ";9"@) + paint::optional_parameter(
        paint::color_parameter(style.foreground, false),
    ) + paint::optional_parameter(paint::color_parameter(style.background, true))
}

proof fn lemma_adds_style(style: Sgr)
    ensures
        adds(style_chars(style), style_numbers(style)),
{
    reveal_strlit(";1");
    reveal_strlit(";2");
    reveal_strlit(";3");
    reveal_strlit(";4");
    reveal_strlit(";7");
    reveal_strlit(";8");
    reveal_strlit(";9");
    assert(";1"@ =~= seq![';'] + text::decimal(1));
    assert(";2"@ =~= seq![';'] + text::decimal(2));
    assert(";3"@ =~= seq![';'] + text::decimal(3));
    assert(";4"@ =~= seq![';'] + text::decimal(4));
    assert(";7"@ =~= seq![';'] + text::decimal(7));
    assert(";8"@ =~= seq![';'] + text::decimal(8));
    assert(";9"@ =~= seq![';'] + text::decimal(9));
    let (a, x) = (paint::when(style.bold, ";1"@), flag_numbers(style.bold, 1));
    lemma_adds_flag(style.bold, ";1"@, 1);
    lemma_adds_flag(style.dim, ";2"@, 2);
    lemma_adds_both(a, x, paint::when(style.dim, ";2"@), flag_numbers(style.dim, 2));
    let (a, x) = (a + paint::when(style.dim, ";2"@), x + flag_numbers(style.dim, 2));
    lemma_adds_flag(style.italic, ";3"@, 3);
    lemma_adds_both(a, x, paint::when(style.italic, ";3"@), flag_numbers(style.italic, 3));
    let (a, x) = (a + paint::when(style.italic, ";3"@), x + flag_numbers(style.italic, 3));
    lemma_adds_flag(style.underline, ";4"@, 4);
    lemma_adds_both(a, x, paint::when(style.underline, ";4"@), flag_numbers(style.underline, 4));
    let (a, x) = (a + paint::when(style.underline, ";4"@), x + flag_numbers(style.underline, 4));
    lemma_adds_flag(style.inverse, ";7"@, 7);
    lemma_adds_both(a, x, paint::when(style.inverse, ";7"@), flag_numbers(style.inverse, 7));
    let (a, x) = (a + paint::when(style.inverse, ";7"@), x + flag_numbers(style.inverse, 7));
    lemma_adds_flag(style.hidden, ";8"@, 8);
    lemma_adds_both(a, x, paint::when(style.hidden, ";8"@), flag_numbers(style.hidden, 8));
    let (a, x) = (a + paint::when(style.hidden, ";8"@), x + flag_numbers(style.hidden, 8));
    lemma_adds_flag(style.strikeout, ";9"@, 9);
    lemma_adds_both(a, x, paint::when(style.strikeout, ";9"@), flag_numbers(style.strikeout, 9));
    let (a, x) = (a + paint::when(style.strikeout, ";9"@), x + flag_numbers(style.strikeout, 9));
    let ink = paint::optional_parameter(paint::color_parameter(style.foreground, false));
    let ground = paint::optional_parameter(paint::color_parameter(style.background, true));
    lemma_adds_color(style.foreground, false);
    lemma_adds_color(style.background, true);
    lemma_adds_both(a, x, ink, color_numbers(style.foreground, false));
    lemma_adds_both(
        a + ink,
        x + color_numbers(style.foreground, false),
        ground,
        color_numbers(style.background, true),
    );
}

proof fn lemma_selects_one(now: (Sgr, Selecting), number: nat)
    ensures
        selected_by(now, seq![number]) == selected(now, number),
{
    reveal_with_fuel(selected_by, 2);
    assert(seq![number].drop_last() =~= Seq::<nat>::empty());
}

proof fn lemma_selects_flag(style: Sgr, set: bool, number: nat)
    requires
        number != 38,
        number != 48,
    ensures
        selected_by((style, Selecting::Nothing), flag_numbers(set, number)) == (
            if set {
                rendered(style, number)
            } else {
                style
            },
            Selecting::Nothing,
        ),
{
    lemma_selects_one((style, Selecting::Nothing), number);
}

/// Whether a color can be selected: a name beyond the sixteen has no number.
pub open spec fn selectable(color: TerminalColor) -> bool {
    color matches TerminalColor::Named(index) ==> index < 16
}

proof fn lemma_selects_color(style: Sgr, color: TerminalColor, background: bool)
    requires
        selectable(color),
        background ==> style.background == TerminalColor::Default,
        !background ==> style.foreground == TerminalColor::Default,
    ensures
        selected_by((style, Selecting::Nothing), color_numbers(color, background)) == (
            colored(style, background, color),
            Selecting::Nothing,
        ),
{
    let base: nat = if background { 10 } else { 0 };
    let more = color_numbers(color, background);
    let now = (style, Selecting::Nothing);
    match color {
        TerminalColor::Default => {},
        TerminalColor::Named(index) => {
            lemma_selects_one(now, more[0]);
        },
        TerminalColor::Indexed(index) => {
            lemma_selects_one(now, more[0]);
            assert(more.drop_last() =~= seq![more[0], more[1]]);
            assert(seq![more[0], more[1]].drop_last() =~= seq![more[0]]);
            assert(selected_by(now, seq![more[0], more[1]]) == selected(
                selected_by(now, seq![more[0]]),
                more[1],
            ));
        },
        TerminalColor::Rgb(r, g, b) => {
            lemma_selects_one(now, more[0]);
            let (p, q, t) = (
                seq![more[0], more[1]],
                seq![more[0], more[1], more[2]],
                seq![more[0], more[1], more[2], more[3]],
            );
            assert(more.drop_last() =~= t);
            assert(t.drop_last() =~= q);
            assert(q.drop_last() =~= p);
            assert(p.drop_last() =~= seq![more[0]]);
            assert(selected_by(now, p) == selected(selected_by(now, seq![more[0]]), more[1]));
            assert(selected_by(now, q) == selected(selected_by(now, p), more[2]));
            assert(selected_by(now, t) == selected(selected_by(now, q), more[3]));
            let parts = Seq::<nat>::empty().push(r as nat).push(g as nat);
            assert(selected_by(now, t).1 == Selecting::Parts { background, parts });
            assert(selected_by(now, more) == selected(selected_by(now, t), more[4]));
        },
    }
}

proof fn lemma_selects_style(before: Sgr, style: Sgr)
    requires
        selectable(style.foreground),
        selectable(style.background),
    ensures
        selected_by((before, Selecting::Nothing), seq![0nat] + style_numbers(style)).0 == style,
{
    let now = (before, Selecting::Nothing);
    let (n1, n2, n3, n4, n5, n6, n7) = (
        flag_numbers(style.bold, 1),
        flag_numbers(style.dim, 2),
        flag_numbers(style.italic, 3),
        flag_numbers(style.underline, 4),
        flag_numbers(style.inverse, 7),
        flag_numbers(style.hidden, 8),
        flag_numbers(style.strikeout, 9),
    );
    let (n8, n9) = (
        color_numbers(style.foreground, false),
        color_numbers(style.background, true),
    );
    let start = seq![0nat];
    lemma_selects_one(now, 0);
    let s0 = reset();
    let s1 = Sgr { bold: style.bold, ..s0 };
    let s2 = Sgr { dim: style.dim, ..s1 };
    let s3 = Sgr { italic: style.italic, ..s2 };
    let s4 = Sgr { underline: style.underline, ..s3 };
    let s5 = Sgr { inverse: style.inverse, ..s4 };
    let s6 = Sgr { hidden: style.hidden, ..s5 };
    let s7 = Sgr { strikeout: style.strikeout, ..s6 };
    let s8 = Sgr { foreground: style.foreground, ..s7 };
    lemma_selects_flag(s0, style.bold, 1);
    lemma_selects_flag(s1, style.dim, 2);
    lemma_selects_flag(s2, style.italic, 3);
    lemma_selects_flag(s3, style.underline, 4);
    lemma_selects_flag(s4, style.inverse, 7);
    lemma_selects_flag(s5, style.hidden, 8);
    lemma_selects_flag(s6, style.strikeout, 9);
    lemma_selects_color(s7, style.foreground, false);
    lemma_selects_color(s8, style.background, true);
    let clear = (s0, Selecting::Nothing);
    lemma_selected_both(now, start, style_numbers(style));
    lemma_selected_both(clear, n1, n2);
    lemma_selected_both(clear, n1 + n2, n3);
    lemma_selected_both(clear, n1 + n2 + n3, n4);
    lemma_selected_both(clear, n1 + n2 + n3 + n4, n5);
    lemma_selected_both(clear, n1 + n2 + n3 + n4 + n5, n6);
    lemma_selected_both(clear, n1 + n2 + n3 + n4 + n5 + n6, n7);
    lemma_selected_both(clear, n1 + n2 + n3 + n4 + n5 + n6 + n7, n8);
    lemma_selected_both(clear, n1 + n2 + n3 + n4 + n5 + n6 + n7 + n8, n9);
}

proof fn lemma_regrouped<T>(a: Seq<T>, b: Seq<T>, c: Seq<T>)
    ensures
        a + b + c == a + (b + c),
{
    assert(a + b + c =~= a + (b + c));
}

proof fn lemma_sgr_grouped(style: Sgr)
    ensures
        paint::sgr_text(style) == seq!['\x1b', '['] + (seq!['0'] + style_chars(style)) + seq!['m'],
{
    reveal_strlit("\x1b[0");
    reveal_strlit("m");
    assert("\x1b[0"@ =~= seq!['\x1b', '[', '0']);
    assert("m"@ =~= seq!['m']);
    let head = "\x1b[0"@;
    let (a1, a2, a3, a4, a5, a6, a7) = (
        paint::when(style.bold, ";1"@),
        paint::when(style.dim, ";2"@),
        paint::when(style.italic, ";3"@),
        paint::when(style.underline, ";4"@),
        paint::when(style.inverse, ";7"@),
        paint::when(style.hidden, ";8"@),
        paint::when(style.strikeout, ";9"@),
    );
    let a8 = paint::optional_parameter(paint::color_parameter(style.foreground, false));
    let a9 = paint::optional_parameter(paint::color_parameter(style.background, true));
    lemma_regrouped(head, a1, a2);
    lemma_regrouped(head, a1 + a2, a3);
    lemma_regrouped(head, a1 + a2 + a3, a4);
    lemma_regrouped(head, a1 + a2 + a3 + a4, a5);
    lemma_regrouped(head, a1 + a2 + a3 + a4 + a5, a6);
    lemma_regrouped(head, a1 + a2 + a3 + a4 + a5 + a6, a7);
    lemma_regrouped(head, a1 + a2 + a3 + a4 + a5 + a6 + a7, a8);
    lemma_regrouped(head, a1 + a2 + a3 + a4 + a5 + a6 + a7 + a8, a9);
    assert(head =~= seq!['\x1b', '['] + seq!['0']);
    lemma_regrouped(seq!['\x1b', '['], seq!['0'], style_chars(style));
}

pub proof fn lemma_zero(before: Sgr)
    ensures
        selected_by((before, Selecting::Nothing), numbers(seq!['0'])).0 == reset(),
{
    reveal_with_fuel(numbers, 2);
    assert(seq!['0'].drop_last() =~= Seq::<char>::empty());
    assert(numbers(seq!['0']) =~= seq![0nat]);
    lemma_selects_one((before, Selecting::Nothing), 0);
}

/// A rendition that is sent is the rendition a terminal is in from then on, whatever it was in:
/// every attribute, the foreground as foreground and the background as background.
pub proof fn law_sent_rendition_is_selected(display: Display, style: Sgr)
    requires
        display.pending.len() == 0,
        selectable(style.foreground),
        selectable(style.background),
    ensures
        textual(text::utf8(paint::sgr_text(style))),
        showing(display, text::utf8(paint::sgr_text(style))) == (Display { style, ..display }),
{
    let body = seq!['0'] + style_chars(style);
    lemma_sgr_grouped(style);
    lemma_adds_style(style);
    assert(numbers(seq!['0']) =~= seq![0nat]) by {
        reveal_with_fuel(numbers, 2);
        assert(seq!['0'].drop_last() =~= Seq::<char>::empty());
    }
    assert(numbers(body) == seq![0nat] + style_numbers(style));
    lemma_selects_style(display.style, style);
    assert forall|i: int| 0 <= i < body.len() implies in_body(#[trigger] body[i]) by {
        if i > 0 {
            assert(body[i] == style_chars(style)[i - 1]);
        }
    }
    lemma_control(display, body, 'm');
    lemma_text_shows(display, paint::sgr_text(style));
}

} // verus!
