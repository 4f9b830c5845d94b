//! Themes as the host declares them and as the surface reports them.

use vstd::prelude::*;

use serde_json::Value;

use crate::cells::{TerminalRgb, TerminalThemeOverrides};
use crate::json::{self, JsonView};
use crate::render::instances::{self, Palette, PaletteView};
use crate::text;

verus! {

/// A refusal, named. The runtime wraps it in its response grammar.
#[derive(Debug, PartialEq, Eq)]
pub struct SurfaceError {
    pub code: &'static str,
    pub message: String,
}

/// A refusal as a mathematical value.
pub struct Refusal {
    pub code: Seq<char>,
    pub message: Seq<char>,
}

impl View for SurfaceError {
    type V = Refusal;

    open spec fn view(&self) -> Refusal {
        Refusal { code: self.code@, message: self.message@ }
    }
}

/// A refusal of parameters.
pub open spec fn invalid(message: Seq<char>) -> Refusal {
    Refusal { code: "INVALID_PARAMS"@, message }
}

/// A refusal with a code and a message.
pub fn refuse(code: &'static str, message: &str) -> (error: SurfaceError)
    ensures
        error@ == (Refusal { code: code@, message: message@ }),
{
    SurfaceError { code, message: String::from_str(message) }
}

#[derive(Debug, Clone, Copy, PartialEq, Eq, Structural)]
pub enum ThemeMode {
    Light,
    Dark,
}

/// The name of a mode.
pub open spec fn mode_name(mode: ThemeMode) -> Seq<char> {
    match mode {
        ThemeMode::Light => "light"@,
        ThemeMode::Dark => "dark"@,
    }
}

impl ThemeMode {
    pub fn as_str(self) -> (name: &'static str)
        ensures
            name@ == mode_name(self),
    {
        match self {
            ThemeMode::Light => "light",
            ThemeMode::Dark => "dark",
        }
    }
}

/// The theme of one surface: what the host declared, and the colors the terminal set over it.
#[derive(Debug)]
pub struct SurfaceThemeState {
    pub mode: ThemeMode,
    pub base: Palette,
    pub overrides: TerminalThemeOverrides,
}

/// A surface's theme as a mathematical value.
pub struct ThemeView {
    pub mode: ThemeMode,
    pub base: PaletteView,
    pub overrides: TerminalThemeOverrides,
}

impl View for SurfaceThemeState {
    type V = ThemeView;

    open spec fn view(&self) -> ThemeView {
        ThemeView { mode: self.mode, base: self.base@, overrides: self.overrides }
    }
}

impl Clone for SurfaceThemeState {
    fn clone(&self) -> (copy: Self)
        ensures
            copy@ == self@,
    {
        SurfaceThemeState {
            mode: self.mode,
            base: self.base.clone(),
            overrides: self.overrides.clone(),
        }
    }
}

impl SurfaceThemeState {
    /// A declared theme over which the terminal has set nothing.
    pub fn new(mode: ThemeMode, base: Palette) -> (theme: Self)
        ensures
            theme@.mode == mode,
            theme@.base == base@,
            theme@.overrides.none(),
    {
        SurfaceThemeState { mode, base, overrides: TerminalThemeOverrides::default() }
    }

    /// The theme that is painted with.
    pub fn resolve(&self) -> (effective: Palette)
        ensures
            effective@ == instances::resolved(self@.base, self@.overrides),
    {
        self.base.resolve(&self.overrides)
    }
}

/// The value of a hexadecimal digit of either case.
pub open spec fn hex_value(c: char) -> Option<nat> {
    if '0' <= c <= '9' {
        Some((c as u32 - 48) as nat)
    } else if 'a' <= c <= 'f' {
        Some((c as u32 - 87) as nat)
    } else if 'A' <= c <= 'F' {
        Some((c as u32 - 55) as nat)
    } else {
        None
    }
}

/// The number that hexadecimal digits spell.
pub open spec fn hex_number(digits: Seq<char>) -> Option<nat>
    decreases digits.len(),
{
    if digits.len() == 0 {
        Some(0)
    } else {
        match (hex_number(digits.drop_last()), hex_value(digits.last())) {
            (Some(high), Some(low)) => Some(high * 16 + low),
            _ => None,
        }
    }
}

/// The color of a 24-bit number, red first.
pub open spec fn rgb_number(n: nat) -> u32 {
    instances::bgra((n / 0x1_0000 % 0x100) as u8, (n / 0x100 % 0x100) as u8, (n % 0x100) as u8, 255)
}

/// The color a text spells: `#` and six hexadecimal digits; the first of the six may be a plus sign.
pub open spec fn hex_color(text: Seq<char>) -> Option<u32> {
    if text.len() != 7 || text[0] != '#' {
        None
    } else {
        let digits = if text[1] == '+' {
            text.skip(2)
        } else {
            text.skip(1)
        };
        match hex_number(digits) {
            Some(n) => Some(rgb_number(n)),
            None => None,
        }
    }
}

fn digit_value(c: char) -> (value: Option<u32>)
    ensures
        match value {
            Some(value) => hex_value(c) == Some(value as nat) && value < 16,
            None => hex_value(c) is None,
        },
{
    if '0' <= c && c <= '9' {
        Some(c as u32 - 48)
    } else if 'a' <= c && c <= 'f' {
        Some(c as u32 - 87)
    } else if 'A' <= c && c <= 'F' {
        Some(c as u32 - 55)
    } else {
        None
    }
}

/// The power of sixteen.
pub open spec fn sixteen_to(n: nat) -> nat
    decreases n,
{
    if n == 0 {
        1
    } else {
        16 * sixteen_to((n - 1) as nat)
    }
}

proof fn lemma_bad_digit(digits: Seq<char>, at: int)
    requires
        0 <= at < digits.len(),
        hex_value(digits[at]) is None,
    ensures
        hex_number(digits) is None,
    decreases digits.len(),
{
    if at < digits.len() - 1 {
        lemma_bad_digit(digits.drop_last(), at);
    }
}

/// The color `text` spells, if it spells one.
pub fn parse_hex(text: &str) -> (color: Option<u32>)
    ensures
        color == hex_color(text@),
{
    let length: usize = text.unicode_len();
    if length != 7 || text.get_char(0) != '#' {
        return None;
    }
    let start: usize = if text.get_char(1) == '+' { 2 } else { 1 };
    let ghost digits = text@.skip(start as int);
    let mut n: u32 = 0;
    let mut i: usize = start;
    assert(digits.take(0) =~= Seq::<char>::empty());
    proof {
        reveal_with_fuel(sixteen_to, 7);
    }
    while i < 7
        invariant
            1 <= start <= i <= 7,
            text@.len() == 7,
            text@[0] == '#',
            start == if text@[1] == '+' {
                2int
            } else {
                1
            },
            digits == text@.skip(start as int),
            hex_number(digits.take(i - start)) == Some(n as nat),
            n < sixteen_to((i - start) as nat),
            sixteen_to(6) == 0x100_0000,
            sixteen_to(5) == 0x10_0000,
            sixteen_to(4) == 0x1_0000,
            sixteen_to(3) == 0x1000,
            sixteen_to(2) == 0x100,
            sixteen_to(1) == 0x10,
            sixteen_to(0) == 1,
        decreases 7 - i,
    {
        let c = text.get_char(i);
        assert(digits[i - start] == c);
        match digit_value(c) {
            Some(value) => {
                assert(digits.take(i + 1 - start).drop_last() =~= digits.take(i - start));
                assert(sixteen_to((i - start) as nat) <= 0x10_0000);
                assert(sixteen_to((i + 1 - start) as nat) == 16 * sixteen_to((i - start) as nat));
                n = n * 16 + value;
            },
            None => {
                proof {
                    lemma_bad_digit(digits, i - start);
                }
                return None;
            },
        }
        i = i + 1;
    }
    assert(digits.take(i - start) =~= digits);
    let red: u8 = (n / 0x1_0000 % 0x100) as u8;
    let green: u8 = (n / 0x100 % 0x100) as u8;
    let blue: u8 = (n % 0x100) as u8;
    Some(instances::pack_bgra(red, green, blue, 255))
}

/// A color as `#` and six hexadecimal digits.
pub open spec fn hex_text(r: u8, g: u8, b: u8) -> Seq<char> {
    seq!['#'] + text::hex_byte(r) + text::hex_byte(g) + text::hex_byte(b)
}

/// A packed color as text, without its alpha.
pub open spec fn packed_text(value: u32) -> Seq<char> {
    hex_text(
        (value / 0x1_0000 % 0x100) as u8,
        (value / 0x100 % 0x100) as u8,
        (value % 0x100) as u8,
    )
}

/// A color as `#` and six hexadecimal digits.
pub fn rgb_hex(value: TerminalRgb) -> (text: String)
    ensures
        text@ == hex_text(value.r, value.g, value.b),
{
    let mut text = String::new();
    text.push('#');
    assert(text@ =~= seq!['#']);
    text::push_hex_byte(&mut text, value.r);
    text::push_hex_byte(&mut text, value.g);
    text::push_hex_byte(&mut text, value.b);
    text
}

/// A packed color as `#` and six hexadecimal digits, without its alpha.
pub fn packed_hex(value: u32) -> (text: String)
    ensures
        text@ == packed_text(value),
{
    rgb_hex(
        TerminalRgb {
            r: (value / 0x1_0000 % 0x100) as u8,
            g: (value / 0x100 % 0x100) as u8,
            b: (value % 0x100) as u8,
        },
    )
}

proof fn lemma_digit_reads_back(d: nat)
    requires
        d < 16,
    ensures
        hex_value(text::hex_digit(d)) == Some(d),
        text::hex_digit(d) != '+',
{
}

proof fn lemma_byte_reads_back(digits: Seq<char>, byte: u8)
    requires
        hex_number(digits) is Some,
    ensures
        hex_number(digits + text::hex_byte(byte)) == Some(
            hex_number(digits)->0 * 0x100 + byte as nat,
        ),
{
    let high = (byte / 16) as nat;
    let low = (byte % 16) as nat;
    lemma_digit_reads_back(high);
    lemma_digit_reads_back(low);
    let whole = digits + text::hex_byte(byte);
    assert(whole.drop_last().drop_last() =~= digits);
    assert(whole.drop_last().last() == text::hex_digit(high));
    assert(whole.last() == text::hex_digit(low));
    assert(hex_number(whole.drop_last()) == Some(hex_number(digits)->0 * 16 + high));
    assert(hex_number(whole) == Some((hex_number(digits)->0 * 16 + high) * 16 + low));
}

proof fn lemma_parts(r: u8, g: u8, b: u8)
    ensures
        ({
            let n = (r as nat * 0x100 + g as nat) * 0x100 + b as nat;
            n / 0x1_0000 % 0x100 == r && n / 0x100 % 0x100 == g && n % 0x100 == b
        }),
{
}

/// A color that is reported is read back as the same color.
pub proof fn law_color_text_reads_back(r: u8, g: u8, b: u8)
    ensures
        hex_color(hex_text(r, g, b)) == Some(instances::bgra(r, g, b, 255)),
{
    let none = Seq::<char>::empty();
    let red = none + text::hex_byte(r);
    let green = red + text::hex_byte(g);
    let digits = green + text::hex_byte(b);
    lemma_byte_reads_back(none, r);
    lemma_byte_reads_back(red, g);
    lemma_byte_reads_back(green, b);
    let whole = hex_text(r, g, b);
    assert(whole.skip(1) =~= digits);
    lemma_digit_reads_back((r / 16) as nat);
    assert(whole[1] == text::hex_digit((r / 16) as nat));
    let n = (r as nat * 0x100 + g as nat) * 0x100 + b as nat;
    assert(hex_number(digits) == Some(n));
    lemma_parts(r, g, b);
    assert(rgb_number(n) == instances::bgra(r, g, b, 255));
}

/// A theme as it is reported.
pub open spec fn palette_json(palette: PaletteView) -> JsonView {
    JsonView::Object(
        map![
            "foreground"@ => JsonView::Text(packed_text(palette.fg)),
            "background"@ => JsonView::Text(packed_text(palette.bg)),
            "cursor"@ => JsonView::Text(packed_text(palette.cursor)),
            "cursorAccent"@ => JsonView::Text(packed_text(palette.cursor_accent)),
            "selectionBackground"@ => JsonView::Text(packed_text(palette.selection_bg)),
            "selectionForeground"@ => JsonView::Text(packed_text(palette.selection_fg)),
            "ansi"@ => JsonView::Array(
                Seq::new(256, |i: int| JsonView::Text(packed_text(palette.ansi[i]))),
            ),
        ],
    )
}

/// The report of a theme.
pub fn palette_status(palette: &Palette) -> (value: Value)
    ensures
        json::json_of(value) == palette_json(palette@),
{
    let mut ansi: Vec<Value> = Vec::new();
    let mut i: usize = 0;
    while i < 256
        invariant
            i <= 256,
            ansi@.len() == i,
            forall|j: int|
                0 <= j < i ==> json::json_of(#[trigger] ansi@[j]) == JsonView::Text(
                    packed_text(palette@.ansi[j]),
                ),
        decreases 256 - i,
    {
        ansi.push(json::string(packed_hex(palette.ansi[i]).as_str()));
        i = i + 1;
    }
    assert(json::jsons_of(ansi@) =~= Seq::new(
        256,
        |i: int| JsonView::Text(packed_text(palette@.ansi[i])),
    ));
    let mut members = json::new_members();
    json::put(&mut members, "foreground", json::string(packed_hex(palette.fg).as_str()));
    json::put(&mut members, "background", json::string(packed_hex(palette.bg).as_str()));
    json::put(&mut members, "cursor", json::string(packed_hex(palette.cursor).as_str()));
    json::put(
        &mut members,
        "cursorAccent",
        json::string(packed_hex(palette.cursor_accent).as_str()),
    );
    json::put(
        &mut members,
        "selectionBackground",
        json::string(packed_hex(palette.selection_bg).as_str()),
    );
    json::put(
        &mut members,
        "selectionForeground",
        json::string(packed_hex(palette.selection_fg).as_str()),
    );
    json::put(&mut members, "ansi", json::array(ansi));
    json::object(members)
}

/// A color that may not be set, as it is reported.
pub open spec fn optional_color_json(value: Option<TerminalRgb>) -> JsonView {
    match value {
        Some(rgb) => JsonView::Text(hex_text(rgb.r, rgb.g, rgb.b)),
        None => JsonView::Null,
    }
}

fn optional_color(value: Option<TerminalRgb>) -> (json: Value)
    ensures
        json::json_of(json) == optional_color_json(value),
{
    match value {
        Some(rgb) => json::string(rgb_hex(rgb).as_str()),
        None => json::null(),
    }
}

/// The terminal's colors as they are reported; null where it has set none.
pub open spec fn override_json(overrides: TerminalThemeOverrides) -> JsonView {
    JsonView::Object(
        map![
            "foreground"@ => optional_color_json(overrides.foreground),
            "background"@ => optional_color_json(overrides.background),
            "cursor"@ => optional_color_json(overrides.cursor),
            "ansi"@ => JsonView::Array(
                Seq::new(256, |i: int| optional_color_json(overrides.ansi@[i])),
            ),
        ],
    )
}

/// The report of the terminal's colors.
pub fn override_status(overrides: &TerminalThemeOverrides) -> (value: Value)
    ensures
        json::json_of(value) == override_json(*overrides),
{
    let mut ansi: Vec<Value> = Vec::new();
    let mut i: usize = 0;
    while i < 256
        invariant
            i <= 256,
            ansi@.len() == i,
            forall|j: int|
                0 <= j < i ==> json::json_of(#[trigger] ansi@[j]) == optional_color_json(
                    overrides.ansi@[j],
                ),
        decreases 256 - i,
    {
        ansi.push(optional_color(overrides.ansi[i]));
        i = i + 1;
    }
    assert(json::jsons_of(ansi@) =~= Seq::new(
        256,
        |i: int| optional_color_json(overrides.ansi@[i]),
    ));
    let mut members = json::new_members();
    json::put(&mut members, "foreground", optional_color(overrides.foreground));
    json::put(&mut members, "background", optional_color(overrides.background));
    json::put(&mut members, "cursor", optional_color(overrides.cursor));
    json::put(&mut members, "ansi", json::array(ansi));
    json::object(members)
}

/// The color of a theme under `key`, or why there is none.
pub open spec fn color_in(theme: JsonView, key: Seq<char>) -> Result<u32, Refusal> {
    match json::text_in(json::member(theme, key)) {
        None => Err(invalid("theme."@ + key + " is required"@)),
        Some(text) => match hex_color(text) {
            None => Err(invalid("theme."@ + key + " is not a color"@)),
            Some(color) => Ok(color),
        },
    }
}

fn key_message(key: &str, rest: &str) -> (message: String)
    ensures
        message@ == "theme."@ + key@ + rest@,
{
    let mut message = String::from_str("theme.");
    message.push_str(key);
    message.push_str(rest);
    message
}

fn parse_color(theme: &Value, key: &str) -> (color: Result<u32, SurfaceError>)
    ensures
        match color {
            Ok(color) => color_in(json::json_of(*theme), key@) == Ok::<u32, Refusal>(color),
            Err(error) => color_in(json::json_of(*theme), key@) == Err::<u32, Refusal>(error@),
        },
{
    match json::text_at(theme, key) {
        None => Err(
            SurfaceError { code: "INVALID_PARAMS", message: key_message(key, " is required") },
        ),
        Some(text) => match parse_hex(text.as_str()) {
            None => Err(
                SurfaceError {
                    code: "INVALID_PARAMS",
                    message: key_message(key, " is not a color"),
                },
            ),
            Some(color) => Ok(color),
        },
    }
}

/// What is said of an entry of the palette that is no color.
pub open spec fn bad_entry(index: nat) -> Refusal {
    invalid("theme.ansi["@ + text::decimal(index) + "] is not a color"@)
}

/// The color of one entry of a palette.
pub open spec fn entry_color(value: JsonView) -> Option<u32> {
    match json::text_in(Some(value)) {
        Some(text) => hex_color(text),
        None => None,
    }
}

/// The colors of the first `count` entries, or what is said of the first that is none.
pub open spec fn entry_colors(values: Seq<JsonView>, count: nat) -> Result<Seq<u32>, Refusal>
    decreases count,
{
    if count == 0 {
        Ok(Seq::empty())
    } else {
        match entry_colors(values, (count - 1) as nat) {
            Err(refusal) => Err(refusal),
            Ok(before) => match entry_color(values[count - 1]) {
                Some(color) => Ok(before.push(color)),
                None => Err(bad_entry((count - 1) as nat)),
            },
        }
    }
}

/// The 256 colors of a theme, or why there are none.
pub open spec fn ansi_in(theme: JsonView) -> Result<Seq<u32>, Refusal> {
    match json::member(theme, "ansi"@) {
        Some(JsonView::Array(values)) => if values.len() != 256 {
            Err(invalid("theme.ansi must hold 256 colors"@))
        } else {
            entry_colors(values, 256)
        },
        _ => Err(invalid("theme.ansi is required"@)),
    }
}

/// A mode and a palette.
pub struct DeclaredTheme {
    pub mode: ThemeMode,
    pub palette: PaletteView,
}

/// The mode a theme names.
pub open spec fn mode_in(theme: JsonView) -> Option<ThemeMode> {
    let name = json::text_in(json::member(theme, "mode"@));
    if name == Some("light"@) {
        Some(ThemeMode::Light)
    } else if name == Some("dark"@) {
        Some(ThemeMode::Dark)
    } else {
        None
    }
}

/// The theme a value declares, or the first reason why it declares none.
pub open spec fn theme_in(theme: JsonView) -> Result<DeclaredTheme, Refusal> {
    match mode_in(theme) {
        None => Err(invalid("theme.mode must be light or dark"@)),
        Some(mode) => match color_in(theme, "fg"@) {
            Err(refusal) => Err(refusal),
            Ok(fg) => match color_in(theme, "bg"@) {
                Err(refusal) => Err(refusal),
                Ok(bg) => match color_in(theme, "cursor"@) {
                    Err(refusal) => Err(refusal),
                    Ok(cursor) => match color_in(theme, "cursorAccent"@) {
                        Err(refusal) => Err(refusal),
                        Ok(cursor_accent) => match color_in(theme, "selectionBg"@) {
                            Err(refusal) => Err(refusal),
                            Ok(selection_bg) => match color_in(theme, "selectionFg"@) {
                                Err(refusal) => Err(refusal),
                                Ok(selection_fg) => match ansi_in(theme) {
                                    Err(refusal) => Err(refusal),
                                    Ok(ansi) => Ok(
                                        DeclaredTheme {
                                            mode,
                                            palette: PaletteView {
                                                fg,
                                                bg,
                                                cursor,
                                                cursor_accent,
                                                selection_bg,
                                                selection_fg,
                                                ansi,
                                            },
                                        },
                                    ),
                                },
                            },
                        },
                    },
                },
            },
        },
    }
}

proof fn lemma_bad_entry_stays(values: Seq<JsonView>, at: nat, count: nat)
    requires
        at < count,
        entry_colors(values, at + 1) is Err,
    ensures
        entry_colors(values, count) == entry_colors(values, at + 1),
    decreases count - at,
{
    if at + 1 < count {
        lemma_bad_entry_stays(values, at, (count - 1) as nat);
    }
}

fn parse_ansi(theme: &Value) -> (ansi: Result<[u32; 256], SurfaceError>)
    ensures
        match ansi {
            Ok(ansi) => ansi_in(json::json_of(*theme)) == Ok::<Seq<u32>, Refusal>(ansi@),
            Err(error) => ansi_in(json::json_of(*theme)) == Err::<Seq<u32>, Refusal>(error@),
        },
{
    let values = match json::get(theme, "ansi") {
        Some(entry) => match json::as_array(entry) {
            Some(values) => values,
            None => return Err(refuse("INVALID_PARAMS", "theme.ansi is required")),
        },
        None => return Err(refuse("INVALID_PARAMS", "theme.ansi is required")),
    };
    if values.len() != 256 {
        return Err(refuse("INVALID_PARAMS", "theme.ansi must hold 256 colors"));
    }
    let ghost all = json::jsons_of(values@);
    let mut ansi = [0u32; 256];
    let ghost mut read = Seq::<u32>::empty();
    let mut i: usize = 0;
    while i < 256
        invariant
            i <= 256,
            values@.len() == 256,
            all == json::jsons_of(values@),
            read.len() == i,
            entry_colors(all, i as nat) == Ok::<Seq<u32>, Refusal>(read),
            forall|j: int| 0 <= j < i ==> ansi@[j] == read[j],
            ansi_in(json::json_of(*theme)) == entry_colors(all, 256),
        decreases 256 - i,
    {
        let color = match json::as_str(&values[i]) {
            Some(text) => parse_hex(text),
            None => None,
        };
        assert(all[i as int] == json::json_of(values@[i as int]));
        assert(color == entry_color(all[i as int]));
        match color {
            Some(color) => {
                ansi[i] = color;
                proof {
                    read = read.push(color);
                }
            },
            None => {
                let mut message = String::from_str("theme.ansi[");
                message.push_str(text::decimal_text(i as u64).as_str());
                message.push_str("] is not a color");
                proof {
                    assert(entry_colors(all, (i + 1) as nat) == Err::<Seq<u32>, Refusal>(
                        bad_entry(i as nat),
                    ));
                    lemma_bad_entry_stays(all, i as nat, 256);
                }
                return Err(SurfaceError { code: "INVALID_PARAMS", message });
            },
        }
        i = i + 1;
    }
    assert(ansi@ =~= read);
    Ok(ansi)
}

/// The theme a value declares.
pub fn parse_theme(theme: &Value) -> (state: Result<SurfaceThemeState, SurfaceError>)
    ensures
        match state {
            Ok(state) => {
                &&& theme_in(json::json_of(*theme)) == Ok::<DeclaredTheme, Refusal>(
                    DeclaredTheme { mode: state@.mode, palette: state@.base },
                )
                &&& state@.overrides.none()
            },
            Err(error) => theme_in(json::json_of(*theme)) == Err::<DeclaredTheme, Refusal>(error@),
        },
{
    let mode = match json::text_at(theme, "mode") {
        Some(name) => if text::same_text(name.as_str(), "light") {
            ThemeMode::Light
        } else if text::same_text(name.as_str(), "dark") {
            ThemeMode::Dark
        } else {
            return Err(refuse("INVALID_PARAMS", "theme.mode must be light or dark"));
        },
        None => return Err(refuse("INVALID_PARAMS", "theme.mode must be light or dark")),
    };
    let fg: u32 = match parse_color(theme, "fg") {
        Ok(color) => color,
        Err(error) => return Err(error),
    };
    let bg: u32 = match parse_color(theme, "bg") {
        Ok(color) => color,
        Err(error) => return Err(error),
    };
    let cursor: u32 = match parse_color(theme, "cursor") {
        Ok(color) => color,
        Err(error) => return Err(error),
    };
    let cursor_accent: u32 = match parse_color(theme, "cursorAccent") {
        Ok(color) => color,
        Err(error) => return Err(error),
    };
    let selection_bg: u32 = match parse_color(theme, "selectionBg") {
        Ok(color) => color,
        Err(error) => return Err(error),
    };
    let selection_fg: u32 = match parse_color(theme, "selectionFg") {
        Ok(color) => color,
        Err(error) => return Err(error),
    };
    match parse_ansi(theme) {
        Ok(ansi) => Ok(
            SurfaceThemeState::new(
                mode,
                Palette { fg, bg, cursor, cursor_accent, selection_bg, selection_fg, ansi },
            ),
        ),
        Err(error) => Err(error),
    }
}

} // verus!
