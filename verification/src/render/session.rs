//! The render sessions: what the `surface.*` commands steer, and what they answer.
//!
//! One thread per pane paints its mirror into the ring. Nothing here writes to the pty: input
//! belongs to the application, rendering belongs here.

use vstd::prelude::*;

use serde_json::Value;

use crate::cells::{
    self, CellView, TerminalCursorAnimation, TerminalCursorShape, TerminalCursorStyle,
    TerminalModes, TerminalThemeOverrides,
};
use crate::json::{self, JsonView};
use crate::render::instances;
use crate::render::theme::{
    self, DeclaredTheme, Refusal, SurfaceError, SurfaceThemeState, ThemeView,
};
use crate::report;
use crate::state::TerminalStateMirror;
use crate::table::{self, Entry};
use crate::text;

verus! {

/// The phase of the cursor's blink.
#[derive(Debug, Clone, Copy, PartialEq, Eq, Structural)]
pub enum CursorPhase {
    /// It does not blink.
    Steady,
    On,
    Off,
}

/// The blink clock of one surface.
#[derive(Debug, Clone, Copy, PartialEq, Eq, Structural)]
pub struct CursorAnimation {
    /// The cursor blinks.
    pub active: bool,
    /// The cursor is in the shown half of its blink.
    pub on: bool,
    pub interval_ms: u64,
}

impl CursorAnimation {
    /// A clock that is not running.
    pub fn new() -> (animation: Self)
        ensures
            animation == (CursorAnimation { active: false, on: true, interval_ms: 0 }),
    {
        CursorAnimation { active: false, on: true, interval_ms: 0 }
    }

    /// Takes in what the engine says. The clock runs only while a visible cursor blinks and the
    /// policy has an interval; activity, and every start and stop, begin a new phase.
    pub fn observe(
        &mut self,
        style: TerminalCursorStyle,
        policy: TerminalCursorAnimation,
        visible: bool,
        activity: bool,
    )
        ensures
            final(self).active == (visible && style.blinking && policy.interval_ms > 0),
            final(self).on == (activity || final(self).active != old(self).active || old(self).on),
            final(self).interval_ms == policy.interval_ms,
    {
        let active = visible && style.blinking && policy.interval_ms > 0;
        if activity || active != self.active {
            self.on = true;
        }
        self.active = active;
        self.interval_ms = policy.interval_ms as u64;
    }

    /// The milliseconds until the next tick, while the clock runs.
    pub fn next_tick(&self) -> (interval_ms: Option<u64>)
        ensures
            interval_ms == if self.active {
                Some(self.interval_ms)
            } else {
                None
            },
    {
        if self.active {
            Some(self.interval_ms)
        } else {
            None
        }
    }

    /// Whether the cursor is shown.
    pub fn cursor_on(&self) -> (on: bool)
        ensures
            on == (!self.active || self.on),
    {
        !self.active || self.on
    }

    pub fn phase(&self) -> (phase: CursorPhase)
        ensures
            phase == if !self.active {
                CursorPhase::Steady
            } else if self.on {
                CursorPhase::On
            } else {
                CursorPhase::Off
            },
    {
        if !self.active {
            CursorPhase::Steady
        } else if self.on {
            CursorPhase::On
        } else {
            CursorPhase::Off
        }
    }

    /// Turns the phase over, while the clock runs, and says whether it did.
    pub fn tick(&mut self) -> (turned: bool)
        ensures
            turned == old(self).active,
            *final(self) == if old(self).active {
                (CursorAnimation { on: !old(self).on, ..*old(self) })
            } else {
                *old(self)
            },
    {
        if !self.active {
            return false;
        }
        self.on = !self.on;
        true
    }
}

/// What one pane's render thread is steered by, and what it last reported.
#[derive(Debug)]
pub struct PaneControl {
    /// Tells one session of a pane from the next.
    pub id: u64,
    pub pane: String,
    /// The face the pane is painted in.
    pub family: String,
    pub stop: bool,
    pub paused: bool,
    pub dirty: bool,
    pub focused: bool,
    pub offset: usize,
    /// The composition and the place of its caret.
    pub preedit: Option<(String, usize)>,
    pub paints: u64,
    pub sends: u64,
    pub acquire_misses: u64,
    pub last_error: Option<String>,
    pub cursor_row: u16,
    pub cursor_col: u16,
    pub cursor_visible: bool,
    pub cursor_style: TerminalCursorStyle,
    pub cursor_interval_ms: u64,
    pub cursor_phase: CursorPhase,
    pub modes: TerminalModes,
    pub theme: SurfaceThemeState,
}

/// A pane's control as a mathematical value.
#[verifier::ext_equal]
pub struct PaneView {
    pub id: u64,
    pub pane: Seq<char>,
    pub family: Seq<char>,
    pub stop: bool,
    pub paused: bool,
    pub dirty: bool,
    pub focused: bool,
    pub offset: usize,
    pub preedit: Option<(Seq<char>, usize)>,
    pub paints: u64,
    pub sends: u64,
    pub acquire_misses: u64,
    pub last_error: Option<Seq<char>>,
    pub cursor_row: u16,
    pub cursor_col: u16,
    pub cursor_visible: bool,
    pub cursor_style: TerminalCursorStyle,
    pub cursor_interval_ms: u64,
    pub cursor_phase: CursorPhase,
    pub modes: TerminalModes,
    pub theme: ThemeView,
}

/// The view of an optional composition.
pub open spec fn composition(preedit: Option<(String, usize)>) -> Option<(Seq<char>, usize)> {
    match preedit {
        Some((text, caret)) => Some((text@, caret)),
        None => None,
    }
}

impl View for PaneControl {
    type V = PaneView;

    open spec fn view(&self) -> PaneView {
        PaneView {
            id: self.id,
            pane: self.pane@,
            family: self.family@,
            stop: self.stop,
            paused: self.paused,
            dirty: self.dirty,
            focused: self.focused,
            offset: self.offset,
            preedit: composition(self.preedit),
            paints: self.paints,
            sends: self.sends,
            acquire_misses: self.acquire_misses,
            last_error: text::text_of(self.last_error),
            cursor_row: self.cursor_row,
            cursor_col: self.cursor_col,
            cursor_visible: self.cursor_visible,
            cursor_style: self.cursor_style,
            cursor_interval_ms: self.cursor_interval_ms,
            cursor_phase: self.cursor_phase,
            modes: self.modes,
            theme: self.theme@,
        }
    }
}

/// A fresh session of a pane: everything is owed, nothing has been reported.
pub open spec fn fresh(
    id: u64,
    pane: Seq<char>,
    family: Seq<char>,
    theme: ThemeView,
) -> PaneView {
    PaneView {
        id,
        pane,
        family,
        stop: false,
        paused: false,
        dirty: true,
        focused: true,
        offset: 0,
        preedit: None,
        paints: 0,
        sends: 0,
        acquire_misses: 0,
        last_error: None,
        cursor_row: 0,
        cursor_col: 0,
        cursor_visible: false,
        cursor_style: TerminalCursorStyle { shape: TerminalCursorShape::Block, blinking: false },
        cursor_interval_ms: 0,
        cursor_phase: CursorPhase::Steady,
        modes: cells::no_modes(),
        theme,
    }
}

impl PaneControl {
    /// The control of a freshly opened pane.
    pub fn new(id: u64, pane: &str, family: &str, theme: SurfaceThemeState) -> (control: Self)
        ensures
            control@ == fresh(id, pane@, family@, theme@),
    {
        PaneControl {
            id,
            pane: String::from_str(pane),
            family: String::from_str(family),
            stop: false,
            paused: false,
            dirty: true,
            focused: true,
            offset: 0,
            preedit: None,
            paints: 0,
            sends: 0,
            acquire_misses: 0,
            last_error: None,
            cursor_row: 0,
            cursor_col: 0,
            cursor_visible: false,
            cursor_style: TerminalCursorStyle {
                shape: TerminalCursorShape::Block,
                blinking: false,
            },
            cursor_interval_ms: 0,
            cursor_phase: CursorPhase::Steady,
            modes: TerminalModes::default(),
            theme,
        }
    }

    /// Records what a refresh saw of the cursor. Rows and columns are kept in 16 bits.
    pub fn observe_cursor(
        &mut self,
        cursor: (usize, usize),
        modes: TerminalModes,
        style: TerminalCursorStyle,
        policy: TerminalCursorAnimation,
        phase: CursorPhase,
    )
        ensures
            final(self)@ == (PaneView {
                cursor_row: cursor.0 as u16,
                cursor_col: cursor.1 as u16,
                cursor_visible: modes.show_cursor,
                cursor_style: style,
                cursor_interval_ms: policy.interval_ms as u64,
                cursor_phase: phase,
                modes,
                ..old(self)@
            }),
    {
        self.cursor_row = #[verifier::truncate]
        (cursor.0 as u16);
        self.cursor_col = #[verifier::truncate]
        (cursor.1 as u16);
        self.cursor_visible = modes.show_cursor;
        self.cursor_style = style;
        self.cursor_interval_ms = policy.interval_ms as u64;
        self.cursor_phase = phase;
        self.modes = modes;
    }

    /// Records that a frame left: the colors it was painted with are the terminal's now.
    pub fn frame_sent(&mut self, overrides: TerminalThemeOverrides)
        ensures
            final(self)@ == (PaneView {
                sends: old(self)@.sends.wrapping_add(1),
                theme: ThemeView { overrides, ..old(self)@.theme },
                ..old(self)@
            }),
    {
        self.sends = self.sends.wrapping_add(1);
        self.theme.overrides = overrides;
    }

    /// Counts a paint.
    pub fn painted(&mut self)
        ensures
            final(self)@ == (PaneView { paints: old(self)@.paints.wrapping_add(1), ..old(self)@ }),
    {
        self.paints = self.paints.wrapping_add(1);
    }

    /// Counts a paint that found no free surface.
    pub fn missed(&mut self)
        ensures
            final(self)@ == (PaneView {
                acquire_misses: old(self)@.acquire_misses.wrapping_add(1),
                ..old(self)@
            }),
    {
        self.acquire_misses = self.acquire_misses.wrapping_add(1);
    }

    /// Records what failed last.
    pub fn failed(&mut self, stage: &str, error: &str)
        ensures
            final(self)@ == (PaneView {
                last_error: Some(stage@ + ": "@ + error@),
                ..old(self)@
            }),
    {
        let mut message = String::from_str(stage);
        message.push_str(": ");
        message.push_str(error);
        self.last_error = Some(message);
    }

    /// Takes the dirty mark off, and says whether it was on.
    pub fn take_dirty(&mut self) -> (dirty: bool)
        ensures
            dirty == old(self)@.dirty,
            final(self)@ == (PaneView { dirty: false, ..old(self)@ }),
    {
        let dirty = self.dirty;
        self.dirty = false;
        dirty
    }
}

impl Entry for PaneControl {
    type Key = Seq<char>;

    type Value = PaneView;

    open spec fn key(&self) -> Seq<char> {
        self.pane@
    }

    open spec fn value(&self) -> PaneView {
        self@
    }
}

/// What a `surface.*` command asks for.
#[derive(Debug, Clone, Copy, PartialEq, Eq, Structural)]
pub enum SurfaceCommand {
    Open,
    State,
    Resize,
    SetPaused,
    Preedit,
    Scroll,
    Read,
    Close,
    Theme,
    Focus,
    Dim,
    Selection,
}

/// The command a name stands for, or why it is refused.
pub open spec fn command_named(name: Seq<char>) -> Result<SurfaceCommand, Refusal> {
    if name == "surface.open"@ {
        Ok(SurfaceCommand::Open)
    } else if name == "surface.state"@ {
        Ok(SurfaceCommand::State)
    } else if name == "surface.resize"@ {
        Ok(SurfaceCommand::Resize)
    } else if name == "surface.setPaused"@ {
        Ok(SurfaceCommand::SetPaused)
    } else if name == "surface.preedit"@ {
        Ok(SurfaceCommand::Preedit)
    } else if name == "surface.scroll"@ {
        Ok(SurfaceCommand::Scroll)
    } else if name == "surface.read"@ {
        Ok(SurfaceCommand::Read)
    } else if name == "surface.close"@ {
        Ok(SurfaceCommand::Close)
    } else if name == "surface.theme"@ {
        Ok(SurfaceCommand::Theme)
    } else if name == "surface.focus"@ {
        Ok(SurfaceCommand::Focus)
    } else if name == "surface.dim"@ {
        Ok(SurfaceCommand::Dim)
    } else if name == "surface.selection"@ {
        Ok(SurfaceCommand::Selection)
    } else if name == "surface.hover"@ {
        Err(
            Refusal {
                code: "NOT_YET_SERVED"@,
                message: "surface.hover arrives with the overlay pass"@,
            },
        )
    } else {
        Err(Refusal { code: "UNKNOWN_COMMAND"@, message: "unknown surface command"@ })
    }
}

/// The command a name stands for.
pub fn command(name: &str) -> (command: Result<SurfaceCommand, SurfaceError>)
    ensures
        match command {
            Ok(command) => command_named(name@) == Ok::<SurfaceCommand, Refusal>(command),
            Err(error) => command_named(name@) == Err::<SurfaceCommand, Refusal>(error@),
        },
{
    if text::same_text(name, "surface.open") {
        Ok(SurfaceCommand::Open)
    } else if text::same_text(name, "surface.state") {
        Ok(SurfaceCommand::State)
    } else if text::same_text(name, "surface.resize") {
        Ok(SurfaceCommand::Resize)
    } else if text::same_text(name, "surface.setPaused") {
        Ok(SurfaceCommand::SetPaused)
    } else if text::same_text(name, "surface.preedit") {
        Ok(SurfaceCommand::Preedit)
    } else if text::same_text(name, "surface.scroll") {
        Ok(SurfaceCommand::Scroll)
    } else if text::same_text(name, "surface.read") {
        Ok(SurfaceCommand::Read)
    } else if text::same_text(name, "surface.close") {
        Ok(SurfaceCommand::Close)
    } else if text::same_text(name, "surface.theme") {
        Ok(SurfaceCommand::Theme)
    } else if text::same_text(name, "surface.focus") {
        Ok(SurfaceCommand::Focus)
    } else if text::same_text(name, "surface.dim") {
        Ok(SurfaceCommand::Dim)
    } else if text::same_text(name, "surface.selection") {
        Ok(SurfaceCommand::Selection)
    } else if text::same_text(name, "surface.hover") {
        Err(theme::refuse("NOT_YET_SERVED", "surface.hover arrives with the overlay pass"))
    } else {
        Err(theme::refuse("UNKNOWN_COMMAND", "unknown surface command"))
    }
}

/// The pane a request names.
pub open spec fn pane_in(request: JsonView) -> Result<Seq<char>, Refusal> {
    match json::text_in(json::member(request, "pane"@)) {
        Some(pane) => Ok(pane),
        None => Err(theme::invalid("pane is required"@)),
    }
}

/// What is said of a pane that nothing renders.
pub open spec fn unknown_pane(pane: Seq<char>) -> Refusal {
    Refusal { code: "NOT_FOUND"@, message: "no surface renders "@ + pane }
}

/// What is said where there is no mirror.
pub open spec fn no_mirror() -> Refusal {
    Refusal { code: "NOT_FOUND"@, message: "no live terminal-state mirror for this key"@ }
}

/// The pane a request names, if it is rendered.
pub open spec fn rendered_pane(panes: Map<Seq<char>, PaneView>, request: JsonView) -> Result<
    Seq<char>,
    Refusal,
> {
    match pane_in(request) {
        Err(refusal) => Err(refusal),
        Ok(pane) => if panes.contains_key(pane) {
            Ok(pane)
        } else {
            Err(unknown_pane(pane))
        },
    }
}

fn pane_of(request: &Value) -> (pane: Result<String, SurfaceError>)
    ensures
        match pane {
            Ok(pane) => pane_in(json::json_of(*request)) == Ok::<Seq<char>, Refusal>(pane@),
            Err(error) => pane_in(json::json_of(*request)) == Err::<Seq<char>, Refusal>(error@),
        },
{
    match json::text_at(request, "pane") {
        Some(pane) => Ok(pane),
        None => Err(theme::refuse("INVALID_PARAMS", "pane is required")),
    }
}

fn key_required(key: &str) -> (error: SurfaceError)
    ensures
        error@ == theme::invalid(key@ + " is required"@),
{
    let mut message = String::from_str(key);
    message.push_str(" is required");
    SurfaceError { code: "INVALID_PARAMS", message }
}

/// Whether a request holds a box and a scale of positive numbers, or what is missing first.
pub open spec fn box_in(request: JsonView) -> Result<(), Refusal> {
    if !json::positive_in(json::member(request, "pixelW"@)) {
        Err(theme::invalid("pixelW"@ + " is required"@))
    } else if !json::positive_in(json::member(request, "pixelH"@)) {
        Err(theme::invalid("pixelH"@ + " is required"@))
    } else if !json::positive_in(json::member(request, "scale"@)) {
        Err(theme::invalid("scale"@ + " is required"@))
    } else {
        Ok(())
    }
}

fn require_box(request: &Value) -> (checked: Result<(), SurfaceError>)
    ensures
        match checked {
            Ok(_) => box_in(json::json_of(*request)) is Ok,
            Err(error) => box_in(json::json_of(*request)) == Err::<(), Refusal>(error@),
        },
{
    if !json::positive_at(request, "pixelW") {
        return Err(key_required("pixelW"));
    }
    if !json::positive_at(request, "pixelH") {
        return Err(key_required("pixelH"));
    }
    if !json::positive_at(request, "scale") {
        return Err(key_required("scale"));
    }
    Ok(())
}

/// A request to open a surface. Its box, its scale and its point size are numbers above zero, and
/// stay in the request.
#[derive(Debug)]
pub struct OpenRequest {
    pub identifier: String,
    pub pane: String,
    pub family: String,
    pub theme: SurfaceThemeState,
}

/// A request to open a surface as a mathematical value.
pub struct OpenView {
    pub identifier: Seq<char>,
    pub pane: Seq<char>,
    pub family: Seq<char>,
    pub theme: DeclaredTheme,
}

/// What a request to open a surface asks for, or the first thing that is wrong with it.
pub open spec fn open_in(wired: bool, request: JsonView) -> Result<OpenView, Refusal> {
    if !wired {
        Err(no_mirror())
    } else {
        match json::text_in(json::member(request, "identifier"@)) {
            None => Err(theme::invalid("identifier is required"@)),
            Some(identifier) => match pane_in(request) {
                Err(refusal) => Err(refusal),
                Ok(pane) => match box_in(request) {
                    Err(refusal) => Err(refusal),
                    Ok(_) => match json::member(request, "font"@) {
                        None => Err(theme::invalid("font is required"@)),
                        Some(font) => match json::text_in(json::member(font, "family"@)) {
                            None => Err(theme::invalid("font.family is required"@)),
                            Some(family) => if !json::positive_in(json::member(font, "pt"@)) {
                                Err(theme::invalid("pt"@ + " is required"@))
                            } else {
                                match json::member(request, "theme"@) {
                                    None => Err(theme::invalid("theme is required"@)),
                                    Some(declared) => match theme::theme_in(declared) {
                                        Err(refusal) => Err(refusal),
                                        Ok(theme) => Ok(
                                            OpenView { identifier, pane, family, theme },
                                        ),
                                    },
                                }
                            },
                        },
                    },
                },
            },
        }
    }
}

/// What a request to open a surface asks for.
pub fn parse_open(wired: bool, request: &Value) -> (open: Result<OpenRequest, SurfaceError>)
    ensures
        match open {
            Ok(open) => {
                &&& open_in(wired, json::json_of(*request)) == Ok::<OpenView, Refusal>(
                    OpenView {
                        identifier: open.identifier@,
                        pane: open.pane@,
                        family: open.family@,
                        theme: DeclaredTheme { mode: open.theme@.mode, palette: open.theme@.base },
                    },
                )
                &&& open.theme@.overrides.none()
            },
            Err(error) => open_in(wired, json::json_of(*request)) == Err::<OpenView, Refusal>(
                error@,
            ),
        },
{
    if !wired {
        return Err(theme::refuse("NOT_FOUND", "no live terminal-state mirror for this key"));
    }
    let identifier = match json::text_at(request, "identifier") {
        Some(identifier) => identifier,
        None => return Err(theme::refuse("INVALID_PARAMS", "identifier is required")),
    };
    let pane = match pane_of(request) {
        Ok(pane) => pane,
        Err(error) => return Err(error),
    };
    if let Err(error) = require_box(request) {
        return Err(error);
    }
    let font = match json::get(request, "font") {
        Some(font) => font,
        None => return Err(theme::refuse("INVALID_PARAMS", "font is required")),
    };
    let family = match json::text_at(font, "family") {
        Some(family) => family,
        None => return Err(theme::refuse("INVALID_PARAMS", "font.family is required")),
    };
    if !json::positive_at(font, "pt") {
        return Err(key_required("pt"));
    }
    let declared = match json::get(request, "theme") {
        Some(declared) => declared,
        None => return Err(theme::refuse("INVALID_PARAMS", "theme is required")),
    };
    match theme::parse_theme(declared) {
        Ok(theme) => Ok(OpenRequest { identifier, pane, family, theme }),
        Err(error) => Err(error),
    }
}

/// The grid that fits in a box of device pixels: whole cells, at least one, in 16 bits.
pub open spec fn cells_in(pixels: u32, cell: u32) -> u16 {
    let whole = pixels / cell;
    (if whole == 0 {
        1
    } else {
        whole
    }) as u16
}

/// The columns and rows of whole cells that fit in a box of device pixels. The cell is the font's
/// advance rounded up to whole device pixels.
pub fn grid_for(device_w: u32, device_h: u32, cell_w: u32, cell_h: u32) -> (grid: (u16, u16))
    requires
        cell_w > 0,
        cell_h > 0,
    ensures
        grid.0 == cells_in(device_w, cell_w),
        grid.1 == cells_in(device_h, cell_h),
{
    let cols: u32 = if device_w / cell_w == 0 { 1 } else { device_w / cell_w };
    let rows: u32 = if device_h / cell_h == 0 { 1 } else { device_h / cell_h };
    (
        #[verifier::truncate]
        (cols as u16),
        #[verifier::truncate]
        (rows as u16),
    )
}

/// A grid that is counted in whole cells stays in its box, unless the box is smaller than one
/// cell.
pub proof fn law_grid_stays_in_its_box(pixels: u32, cell: u32)
    requires
        0 < cell <= pixels,
        pixels / cell <= u16::MAX,
    ensures
        cells_in(pixels, cell) * cell <= pixels,
        pixels < (cells_in(pixels, cell) + 1) * cell,
{
    let whole = pixels / cell;
    assert(whole * cell <= pixels && pixels < (whole + 1) * cell && whole >= 1) by (nonlinear_arith)
        requires
            0 < cell <= pixels,
            whole == pixels / cell,
    ;
}

/// The offset a scroll request asks for: a place, a number of lines or an edge.
pub open spec fn wanted_offset(request: JsonView, current: int, history: int) -> Result<
    int,
    Refusal,
> {
    match json::signed_in(json::member(request, "offset"@)) {
        Some(offset) => Ok(offset as int),
        None => match json::signed_in(json::member(request, "lines"@)) {
            Some(lines) => Ok(current - lines),
            None => match json::text_in(json::member(request, "edge"@)) {
                Some(edge) => if edge == "top"@ {
                    Ok(history)
                } else if edge == "bottom"@ {
                    Ok(0int)
                } else {
                    Err(theme::invalid("edge is top or bottom"@))
                },
                None => Err(theme::invalid("offset, lines or edge is required"@)),
            },
        },
    }
}

/// A number within bounds.
pub open spec fn clamped(value: int, low: int, high: int) -> int {
    if value < low {
        low
    } else if value > high {
        high
    } else {
        value
    }
}

fn scroll_to(request: &Value, current: usize, history: usize) -> (offset: Result<
    usize,
    SurfaceError,
>)
    ensures
        match wanted_offset(json::json_of(*request), current as int, history as int) {
            Ok(wanted) => offset matches Ok(offset) && offset == clamped(wanted, 0, history as int),
            Err(refusal) => offset matches Err(error) && error@ == refusal,
        },
{
    let wanted: i128 = if let Some(offset) = json::signed_at(request, "offset") {
        offset as i128
    } else if let Some(lines) = json::signed_at(request, "lines") {
        current as i128 - lines as i128
    } else if let Some(edge) = json::text_at(request, "edge") {
        if text::same_text(edge.as_str(), "top") {
            history as i128
        } else if text::same_text(edge.as_str(), "bottom") {
            0
        } else {
            return Err(theme::refuse("INVALID_PARAMS", "edge is top or bottom"));
        }
    } else {
        return Err(theme::refuse("INVALID_PARAMS", "offset, lines or edge is required"));
    };
    if wanted < 0 {
        Ok(0)
    } else if wanted > history as i128 {
        Ok(history)
    } else {
        Ok(wanted as usize)
    }
}

/// The characters of a row, spacers left out.
pub open spec fn row_chars(row: Seq<CellView>) -> Seq<char>
    decreases row.len(),
{
    if row.len() == 0 {
        Seq::empty()
    } else if row.last().spacer {
        row_chars(row.drop_last())
    } else {
        row_chars(row.drop_last()).push(row.last().ch)
    }
}

/// The text of `count` rows of a view scrolled `offset` rows into history, from row `first` on:
/// each without trailing white space, and with a line break.
pub open spec fn rows_text(
    lines: spec_fn(int) -> Seq<CellView>,
    first: int,
    count: nat,
    offset: int,
) -> Seq<char>
    decreases count,
{
    if count == 0 {
        Seq::empty()
    } else {
        rows_text(lines, first, (count - 1) as nat, offset) + text::end_trimmed(
            row_chars(lines(first + count - 1 - offset)),
        ).push('\n')
    }
}

fn row_text(cells: &[cells::TerminalCell]) -> (line: String)
    ensures
        line@ == row_chars(cells::row_view(cells@)),
{
    let ghost row = cells::row_view(cells@);
    let mut line = String::new();
    let mut i: usize = 0;
    assert(row.take(0) =~= Seq::<CellView>::empty());
    assert(line@ =~= row_chars(row.take(0)));
    while i < cells.len()
        invariant
            row == cells::row_view(cells@),
            i <= cells@.len(),
            line@ == row_chars(row.take(i as int)),
        decreases cells@.len() - i,
    {
        assert(row.take(i + 1).drop_last() =~= row.take(i as int));
        if !cells[i].spacer {
            line.push(cells[i].ch);
        }
        i = i + 1;
    }
    assert(row.take(i as int) =~= row);
    line
}

/// How many rows a read request asks for, of those there are.
pub open spec fn rows_wanted(request: JsonView, rows: u16) -> u16 {
    match json::unsigned_in(json::member(request, "lines"@)) {
        Some(lines) => if lines < rows {
            lines as u16
        } else {
            rows
        },
        None => rows,
    }
}

/// The text of the last rows of the view.
pub fn read_text<M: TerminalStateMirror + ?Sized>(mirror: &M, request: &Value, offset: usize) -> (
    text: String)
    requires
        offset <= i32::MAX,
    ensures
        ({
            let rows = mirror.screen().rows;
            let wanted = rows_wanted(json::json_of(*request), rows);
            text@ == rows_text(mirror.screen().lines, rows - wanted, wanted as nat, offset as int)
        }),
{
    let rows: u16 = mirror.rows();
    let wanted: u16 = match json::unsigned_at(request, "lines") {
        Some(lines) => if lines < rows as u64 {
            lines as u16
        } else {
            rows
        },
        None => rows,
    };
    let first: u16 = rows - wanted;
    let ghost lines = mirror.screen().lines;
    let mut text = String::new();
    let mut done: u16 = 0;
    assert(text@ =~= rows_text(lines, first as int, 0, offset as int));
    while done < wanted
        invariant
            done <= wanted,
            first + wanted == rows,
            offset <= i32::MAX,
            lines == mirror.screen().lines,
            text@ == rows_text(lines, first as int, done as nat, offset as int),
        decreases wanted - done,
    {
        let cells = mirror.line_cells((first + done) as i32 - offset as i32);
        let line = row_text(cells.as_slice());
        text.push_str(text::trim_end(line.as_str()));
        text.push('\n');
        proof {
            let shown = text::end_trimmed(row_chars(lines(first + done - offset)));
            assert(text@ =~= rows_text(lines, first as int, done as nat, offset as int)
                + shown.push('\n'));
        }
        done = done + 1;
    }
    text
}

/// The code a refused selection answers with: what the engine named first.
pub open spec fn selection_code(message: Seq<char>) -> Seq<char> {
    if starts(message, "STALE_GESTURE:"@) {
        "STALE_GESTURE"@
    } else if starts(message, "SELECTION_KIND_CHANGED:"@) {
        "SELECTION_KIND_CHANGED"@
    } else {
        "SELECTION_FAILED"@
    }
}

/// Whether a text starts with another.
pub open spec fn starts(text: Seq<char>, start: Seq<char>) -> bool {
    start.len() <= text.len() && text.take(start.len() as int) == start
}

fn starts_with(text: &str, start: &str) -> (yes: bool)
    ensures
        yes == starts(text@, start@),
{
    let length: usize = start.unicode_len();
    if length > text.unicode_len() {
        return false;
    }
    let mut i: usize = 0;
    while i < length
        invariant
            i <= length == start@.len() <= text@.len(),
            forall|j: int| 0 <= j < i ==> text@[j] == start@[j],
        decreases length - i,
    {
        if text.get_char(i) != start.get_char(i) {
            assert(text@.take(length as int)[i as int] != start@[i as int]);
            return false;
        }
        i = i + 1;
    }
    assert(text@.take(length as int) =~= start@);
    true
}

/// The refusal of a selection the engine turned down.
pub fn selection_refused(message: &str) -> (error: SurfaceError)
    ensures
        error@ == (Refusal { code: selection_code(message@), message: message@ }),
{
    if starts_with(message, "STALE_GESTURE:") {
        theme::refuse("STALE_GESTURE", message)
    } else if starts_with(message, "SELECTION_KIND_CHANGED:") {
        theme::refuse("SELECTION_KIND_CHANGED", message)
    } else {
        theme::refuse("SELECTION_FAILED", message)
    }
}

/// Whether an application may use the channel of this process: the first identifier it served is
/// the only one.
pub fn check_identifier(serving: &Option<String>, identifier: &str) -> (checked: Result<
    (),
    SurfaceError,
>)
    ensures
        match text::text_of(*serving) {
            Some(existing) if existing != identifier@ => checked matches Err(error) && error@ == (
            Refusal {
                code: "IDENTIFIER_MISMATCH"@,
                message: "this process serves "@ + existing + ", not "@ + identifier@,
            }),
            _ => checked is Ok,
        },
{
    if let Some(existing) = serving {
        if !text::same_text(existing.as_str(), identifier) {
            let mut message = String::from_str("this process serves ");
            message.push_str(existing.as_str());
            message.push_str(", not ");
            message.push_str(identifier);
            return Err(SurfaceError { code: "IDENTIFIER_MISMATCH", message });
        }
    }
    Ok(())
}

/// The name of a cursor shape.
pub open spec fn shape_name(shape: TerminalCursorShape) -> Seq<char> {
    match shape {
        TerminalCursorShape::Block => "block"@,
        TerminalCursorShape::Underline => "underline"@,
        TerminalCursorShape::Bar => "bar"@,
    }
}

/// The name of a blink phase.
pub open spec fn phase_name(phase: CursorPhase) -> Seq<char> {
    match phase {
        CursorPhase::Steady => "steady"@,
        CursorPhase::On => "on"@,
        CursorPhase::Off => "off"@,
    }
}

/// A text that may be absent, as it is reported.
pub open spec fn optional_text_json(value: Option<Seq<char>>) -> JsonView {
    match value {
        Some(text) => JsonView::Text(text),
        None => JsonView::Null,
    }
}

/// The state of a pane as it is reported.
pub open spec fn pane_json(
    pane: PaneView,
    signal_sequence: u64,
    selection: JsonView,
    dim: JsonView,
) -> JsonView {
    JsonView::Object(
        map![
            "pane"@ => JsonView::Text(pane.pane),
            "paints"@ => JsonView::Unsigned(pane.paints),
            "sends"@ => JsonView::Unsigned(pane.sends),
            "acquireMisses"@ => JsonView::Unsigned(pane.acquire_misses),
            "lastError"@ => optional_text_json(pane.last_error),
            "signalSequence"@ => JsonView::Unsigned(signal_sequence),
            "paused"@ => JsonView::Bool(pane.paused),
            "stopped"@ => JsonView::Bool(pane.stop),
            "cursorRow"@ => JsonView::Unsigned(pane.cursor_row as u64),
            "cursorColumn"@ => JsonView::Unsigned(pane.cursor_col as u64),
            "cursorVisible"@ => JsonView::Bool(pane.cursor_visible),
            "cursorShape"@ => JsonView::Text(shape_name(pane.cursor_style.shape)),
            "cursorBlinking"@ => JsonView::Bool(pane.cursor_style.blinking),
            "cursorAnimation"@ => JsonView::Object(map![
                "intervalMs"@ => JsonView::Unsigned(pane.cursor_interval_ms),
                "phase"@ => JsonView::Text(phase_name(pane.cursor_phase)),
            ]),
            "modes"@ => report::modes_json(pane.modes),
            "themeMode"@ => JsonView::Text(theme::mode_name(pane.theme.mode)),
            "baseTheme"@ => theme::palette_json(pane.theme.base),
            "terminalOverrides"@ => theme::override_json(pane.theme.overrides),
            "effectiveTheme"@ => theme::palette_json(
                instances::resolved(pane.theme.base, pane.theme.overrides),
            ),
            "selection"@ => selection,
            "dim"@ => dim,
        ],
    )
}

fn pane_state(control: &PaneControl, signal_sequence: u64, selection: Value, dim: Value) -> (value:
    Value)
    ensures
        json::json_of(value) == pane_json(
            control@,
            signal_sequence,
            json::json_of(selection),
            json::json_of(dim),
        ),
{
    let mut animation = json::new_members();
    json::put(&mut animation, "intervalMs", json::unsigned(control.cursor_interval_ms));
    let phase = match control.cursor_phase {
        CursorPhase::Steady => "steady",
        CursorPhase::On => "on",
        CursorPhase::Off => "off",
    };
    json::put(&mut animation, "phase", json::string(phase));
    let shape = match control.cursor_style.shape {
        TerminalCursorShape::Block => "block",
        TerminalCursorShape::Underline => "underline",
        TerminalCursorShape::Bar => "bar",
    };
    let last_error = match &control.last_error {
        Some(message) => json::string(message.as_str()),
        None => json::null(),
    };
    let effective = control.theme.resolve();
    let mut members = json::new_members();
    json::put(&mut members, "pane", json::string(control.pane.as_str()));
    json::put(&mut members, "paints", json::unsigned(control.paints));
    json::put(&mut members, "sends", json::unsigned(control.sends));
    json::put(&mut members, "acquireMisses", json::unsigned(control.acquire_misses));
    json::put(&mut members, "lastError", last_error);
    json::put(&mut members, "signalSequence", json::unsigned(signal_sequence));
    json::put(&mut members, "paused", json::boolean(control.paused));
    json::put(&mut members, "stopped", json::boolean(control.stop));
    json::put(&mut members, "cursorRow", json::unsigned(control.cursor_row as u64));
    json::put(&mut members, "cursorColumn", json::unsigned(control.cursor_col as u64));
    json::put(&mut members, "cursorVisible", json::boolean(control.cursor_visible));
    json::put(&mut members, "cursorShape", json::string(shape));
    json::put(&mut members, "cursorBlinking", json::boolean(control.cursor_style.blinking));
    json::put(&mut members, "cursorAnimation", json::object(animation));
    json::put(&mut members, "modes", report::modes_value(control.modes));
    json::put(&mut members, "themeMode", json::string(control.theme.mode.as_str()));
    json::put(&mut members, "baseTheme", theme::palette_status(&control.theme.base));
    json::put(&mut members, "terminalOverrides", theme::override_status(&control.theme.overrides));
    json::put(&mut members, "effectiveTheme", theme::palette_status(&effective));
    json::put(&mut members, "selection", selection);
    json::put(&mut members, "dim", dim);
    json::object(members)
}

/// The panes that are rendered, each by its latest session.
#[derive(Debug)]
pub struct SurfaceSessions {
    panes: Vec<PaneControl>,
}

impl View for SurfaceSessions {
    type V = Map<Seq<char>, PaneView>;

    closed spec fn view(&self) -> Map<Seq<char>, PaneView> {
        table::table(self.panes@)
    }
}

impl Default for SurfaceSessions {
    fn default() -> (sessions: Self)
        ensures
            sessions.wf(),
            sessions@ == Map::<Seq<char>, PaneView>::empty(),
    {
        Self::new()
    }
}

/// What a command that fails with a refusal came to.
pub open spec fn answer(result: Result<Value, SurfaceError>) -> Result<JsonView, Refusal> {
    match result {
        Ok(value) => Ok(json::json_of(value)),
        Err(error) => Err(error@),
    }
}

/// An object without members.
pub open spec fn nothing() -> JsonView {
    JsonView::Object(Map::empty())
}

fn no_members() -> (value: Value)
    ensures
        json::json_of(value) == nothing(),
{
    json::object(json::new_members())
}

impl SurfaceSessions {
    /// No pane is listed twice, every pane stands under its own name, and no view is scrolled
    /// further than lines are counted.
    pub closed spec fn wf(&self) -> bool {
        &&& table::distinct(self.panes@)
        &&& forall|i: int| 0 <= i < self.panes@.len() ==> (#[trigger] self.panes@[i]).offset <= i32::MAX
    }

    pub fn new() -> (sessions: Self)
        ensures
            sessions.wf(),
            sessions@ == Map::<Seq<char>, PaneView>::empty(),
    {
        SurfaceSessions { panes: Vec::new() }
    }

    fn position(&self, pane: &str) -> (at: Option<usize>)
        requires
            self.wf(),
        ensures
            at is Some == self@.contains_key(pane@),
            at matches Some(i) ==> i < self.panes@.len() && self.panes@[i as int].pane@ == pane@
                && self@[pane@] == self.panes@[i as int]@,
    {
        proof {
            table::lemma_table(self.panes@);
        }
        let mut i: usize = 0;
        while i < self.panes.len()
            invariant
                self.wf(),
                i <= self.panes@.len(),
                forall|j: int| 0 <= j < i ==> (#[trigger] self.panes@[j]).key() != pane@,
            decreases self.panes@.len() - i,
        {
            if text::same_text(self.panes[i].pane.as_str(), pane) {
                proof {
                    table::lemma_table(self.panes@);
                    assert(self@.contains_key(self.panes@[i as int].key()));
                }
                return Some(i);
            }
            i = i + 1;
        }
        None
    }

    fn control_of(&self, request: &Value) -> (at: Result<usize, SurfaceError>)
        requires
            self.wf(),
        ensures
            match rendered_pane(self@, json::json_of(*request)) {
                Ok(pane) => at matches Ok(i) && i < self.panes@.len() && self.panes@[i as int].pane@
                    == pane && self@[pane] == self.panes@[i as int]@,
                Err(refusal) => at matches Err(error) && error@ == refusal,
            },
    {
        let pane = match pane_of(request) {
            Ok(pane) => pane,
            Err(error) => return Err(error),
        };
        match self.position(pane.as_str()) {
            Some(i) => Ok(i),
            None => {
                let mut message = String::from_str("no surface renders ");
                message.push_str(pane.as_str());
                Err(SurfaceError { code: "NOT_FOUND", message })
            },
        }
    }

    fn replace(&mut self, at: usize, control: PaneControl) -> (previous: PaneControl)
        requires
            old(self).wf(),
            at < old(self).panes@.len(),
            control.pane@ == old(self).panes@[at as int].pane@,
            control.offset <= i32::MAX,
        ensures
            final(self).wf(),
            final(self)@ == old(self)@.insert(control.pane@, control@),
            previous == old(self).panes@[at as int],
    {
        let ghost before = self.panes@;
        proof {
            table::lemma_table_update(before, at as int, control);
        }
        self.panes.push(control);
        let previous = self.panes.swap_remove(at);
        assert(self.panes@ =~= before.update(at as int, control));
        previous
    }

    fn pane_at(&self, at: usize) -> (control: &PaneControl)
        requires
            at < self.panes@.len(),
        ensures
            *control == self.panes@[at as int],
    {
        &self.panes[at]
    }

    /// The control of a pane.
    pub fn pane(&self, pane: &str) -> (control: Option<&PaneControl>)
        requires
            self.wf(),
        ensures
            match control {
                Some(control) => self@.contains_key(pane@) && control@ == self@[pane@],
                None => !self@.contains_key(pane@),
            },
    {
        match self.position(pane) {
            Some(i) => Some(&self.panes[i]),
            None => None,
        }
    }

    /// Whether a session is the one that renders its pane. A session that was closed or superseded
    /// is not, and its thread stops.
    pub fn renders(&self, pane: &str, id: u64) -> (yes: bool)
        requires
            self.wf(),
        ensures
            yes == (self@.contains_key(pane@) && self@[pane@].id == id && !self@[pane@].stop),
    {
        match self.position(pane) {
            Some(i) => self.panes[i].id == id && !self.panes[i].stop,
            None => false,
        }
    }

    /// Puts a session in charge of its pane. The service is the only opener: a second open for the
    /// same pane is a newer world, so the replacement supersedes the old session, which is handed
    /// back stopped, never a refusal.
    pub fn supersede(&mut self, control: PaneControl) -> (previous: Option<PaneControl>)
        requires
            old(self).wf(),
            control.offset <= i32::MAX,
        ensures
            final(self).wf(),
            final(self)@ == old(self)@.insert(control.pane@, control@),
            match previous {
                Some(previous) => old(self)@.contains_key(control.pane@) && previous@ == (PaneView {
                    stop: true,
                    ..old(self)@[control.pane@]
                }),
                None => !old(self)@.contains_key(control.pane@),
            },
    {
        match self.position(control.pane.as_str()) {
            Some(i) => {
                let mut previous = self.replace(i, control);
                previous.stop = true;
                Some(previous)
            },
            None => {
                proof {
                    table::lemma_table_push(self.panes@, control);
                }
                self.panes.push(control);
                None
            },
        }
    }

    /// Stores what a session has become, as long as it is the one of its pane.
    pub fn store(&mut self, control: PaneControl) -> (stored: bool)
        requires
            old(self).wf(),
            control.offset <= i32::MAX,
        ensures
            final(self).wf(),
            stored == (old(self)@.contains_key(control.pane@) && old(self)@[control.pane@].id
                == control.id),
            final(self)@ == if stored {
                old(self)@.insert(control.pane@, control@)
            } else {
                old(self)@
            },
    {
        match self.position(control.pane.as_str()) {
            Some(i) => if self.panes[i].id == control.id {
                self.replace(i, control);
                true
            } else {
                false
            },
            None => false,
        }
    }

    /// The state of a pane: how many paints happened, how many frames went out, what failed last,
    /// what its cursor, its theme and its selection are, and how far it is dimmed.
    pub fn state(&self, request: &Value, signal_sequence: u64, selection: Value, dim: Value) -> (
        state: Result<Value, SurfaceError>)
        requires
            self.wf(),
        ensures
            answer(state) == match rendered_pane(self@, json::json_of(*request)) {
                Ok(pane) => Ok(
                    pane_json(
                        self@[pane],
                        signal_sequence,
                        json::json_of(selection),
                        json::json_of(dim),
                    ),
                ),
                Err(refusal) => Err(refusal),
            },
    {
        match self.control_of(request) {
            Ok(i) => Ok(pane_state(self.pane_at(i), signal_sequence, selection, dim)),
            Err(error) => Err(error),
        }
    }

    /// Checks a resize request: the pane is rendered, and its box and scale are positive.
    pub fn check_resize(&self, request: &Value) -> (family: Result<String, SurfaceError>)
        requires
            self.wf(),
        ensures
            match rendered_pane(self@, json::json_of(*request)) {
                Err(refusal) => family matches Err(error) && error@ == refusal,
                Ok(pane) => match box_in(json::json_of(*request)) {
                    Err(refusal) => family matches Err(error) && error@ == refusal,
                    Ok(_) => family matches Ok(family) && family@ == self@[pane].family,
                },
            },
    {
        match self.control_of(request) {
            Err(error) => Err(error),
            Ok(i) => match require_box(request) {
                Err(error) => Err(error),
                Ok(_) => Ok(String::from_str(self.pane_at(i).family.as_str())),
            },
        }
    }
}

/// The copy of a control.
fn copy_control(control: &PaneControl) -> (copy: PaneControl)
    ensures
        copy@ == control@,
{
    PaneControl {
        id: control.id,
        pane: String::from_str(control.pane.as_str()),
        family: String::from_str(control.family.as_str()),
        stop: control.stop,
        paused: control.paused,
        dirty: control.dirty,
        focused: control.focused,
        offset: control.offset,
        preedit: match &control.preedit {
            Some((text, caret)) => Some((String::from_str(text.as_str()), *caret)),
            None => None,
        },
        paints: control.paints,
        sends: control.sends,
        acquire_misses: control.acquire_misses,
        last_error: text::copy_optional_text(&control.last_error),
        cursor_row: control.cursor_row,
        cursor_col: control.cursor_col,
        cursor_visible: control.cursor_visible,
        cursor_style: control.cursor_style,
        cursor_interval_ms: control.cursor_interval_ms,
        cursor_phase: control.cursor_phase,
        modes: control.modes,
        theme: control.theme.clone(),
    }
}

impl Clone for PaneControl {
    fn clone(&self) -> (copy: Self)
        ensures
            copy@ == self@,
    {
        copy_control(self)
    }
}

impl SurfaceSessions {
    /// Pauses or resumes a pane. A pane that resumes owes a paint.
    pub fn set_paused(&mut self, request: &Value) -> (answered: Result<Value, SurfaceError>)
        requires
            old(self).wf(),
        ensures
            final(self).wf(),
            match rendered_pane(old(self)@, json::json_of(*request)) {
                Err(refusal) => answered matches Err(error) && error@ == refusal && final(self)@
                    == old(self)@,
                Ok(pane) => match json::bool_in(json::member(json::json_of(*request), "paused"@)) {
                    None => answered matches Err(error) && error@ == theme::invalid(
                        "paused is required"@,
                    ) && final(self)@ == old(self)@,
                    Some(paused) => answer(answered) == Ok::<JsonView, Refusal>(nothing())
                        && final(self)@ == old(self)@.insert(
                        pane,
                        paused_pane(old(self)@[pane], paused),
                    ),
                },
            },
    {
        let at: usize = match self.control_of(request) {
            Ok(at) => at,
            Err(error) => return Err(error),
        };
        match json::bool_at(request, "paused") {
            None => Err(theme::refuse("INVALID_PARAMS", "paused is required")),
            Some(paused) => {
                let mut control = self.pane_at(at).clone();
                control.paused = paused;
                if !paused {
                    control.dirty = true;
                }
                self.replace(at, control);
                Ok(no_members())
            },
        }
    }

    /// Gives a pane the focus or takes it. Only the presentation changes.
    pub fn focus(&mut self, request: &Value) -> (answered: Result<Value, SurfaceError>)
        requires
            old(self).wf(),
        ensures
            final(self).wf(),
            match rendered_pane(old(self)@, json::json_of(*request)) {
                Err(refusal) => answered matches Err(error) && error@ == refusal && final(self)@
                    == old(self)@,
                Ok(pane) => match json::bool_in(json::member(json::json_of(*request), "focused"@)) {
                    None => answered matches Err(error) && error@ == theme::invalid(
                        "focused is required"@,
                    ) && final(self)@ == old(self)@,
                    Some(focused) => answer(answered) == Ok::<JsonView, Refusal>(nothing())
                        && final(self)@ == old(self)@.insert(
                        pane,
                        focused_pane(old(self)@[pane], focused),
                    ),
                },
            },
    {
        let at: usize = match self.control_of(request) {
            Ok(at) => at,
            Err(error) => return Err(error),
        };
        match json::bool_at(request, "focused") {
            None => Err(theme::refuse("INVALID_PARAMS", "focused is required")),
            Some(focused) => {
                let mut control = self.pane_at(at).clone();
                control.focused = focused;
                control.dirty = true;
                self.replace(at, control);
                Ok(no_members())
            },
        }
    }

    /// Dims a pane. Whether the amount of the request is one from 0 to 1 is `amount_is_valid`; every
    /// row is painted anew with it.
    pub fn dim(&mut self, request: &Value, amount_is_valid: bool) -> (answered: Result<
        Value,
        SurfaceError,
    >)
        requires
            old(self).wf(),
        ensures
            final(self).wf(),
            match rendered_pane(old(self)@, json::json_of(*request)) {
                Err(refusal) => answered matches Err(error) && error@ == refusal && final(self)@
                    == old(self)@,
                Ok(pane) => if amount_is_valid {
                    answer(answered) == Ok::<JsonView, Refusal>(nothing()) && final(self)@
                        == old(self)@.insert(pane, marked_pane(old(self)@[pane]))
                } else {
                    answered matches Err(error) && error@ == theme::invalid(
                        "dim is an amount from 0 to 1"@,
                    ) && final(self)@ == old(self)@
                },
            },
    {
        let at: usize = match self.control_of(request) {
            Ok(at) => at,
            Err(error) => return Err(error),
        };
        if !amount_is_valid {
            return Err(theme::refuse("INVALID_PARAMS", "dim is an amount from 0 to 1"));
        }
        let mut control = self.pane_at(at).clone();
        control.dirty = true;
        self.replace(at, control);
        Ok(no_members())
    }

    /// Replaces the declared theme of a pane. The terminal's own colors stay; the answer is the
    /// state of the pane.
    pub fn theme(&mut self, request: &Value, signal_sequence: u64, selection: Value, dim: Value) -> (
        answered: Result<Value, SurfaceError>)
        requires
            old(self).wf(),
        ensures
            final(self).wf(),
            match pane_in(json::json_of(*request)) {
                Err(refusal) => answered matches Err(error) && error@ == refusal && final(self)@
                    == old(self)@,
                Ok(pane) => match json::member(json::json_of(*request), "theme"@) {
                    None => answered matches Err(error) && error@ == theme::invalid(
                        "theme is required"@,
                    ) && final(self)@ == old(self)@,
                    Some(declared) => match theme::theme_in(declared) {
                        Err(refusal) => answered matches Err(error) && error@ == refusal
                            && final(self)@ == old(self)@,
                        Ok(next) => if !old(self)@.contains_key(pane) {
                            answered matches Err(error) && error@ == unknown_pane(pane)
                                && final(self)@ == old(self)@
                        } else {
                            let changed = themed_pane(old(self)@[pane], next);
                            answer(answered) == Ok::<JsonView, Refusal>(
                                pane_json(
                                    changed,
                                    signal_sequence,
                                    json::json_of(selection),
                                    json::json_of(dim),
                                ),
                            ) && final(self)@ == old(self)@.insert(pane, changed)
                        },
                    },
                },
            },
    {
        if let Err(error) = pane_of(request) {
            return Err(error);
        }
        let next = match json::get(request, "theme") {
            Some(declared) => match theme::parse_theme(declared) {
                Ok(next) => next,
                Err(error) => return Err(error),
            },
            None => return Err(theme::refuse("INVALID_PARAMS", "theme is required")),
        };
        let at: usize = match self.control_of(request) {
            Ok(at) => at,
            Err(error) => return Err(error),
        };
        let mut control = self.pane_at(at).clone();
        control.theme.mode = next.mode;
        control.theme.base = next.base;
        control.dirty = true;
        let state = pane_state(&control, signal_sequence, selection, dim);
        self.replace(at, control);
        Ok(state)
    }

    /// Shows a composition at the cursor of a pane, or takes it away where there is no text.
    pub fn preedit(&mut self, request: &Value) -> (answered: Result<Value, SurfaceError>)
        requires
            old(self).wf(),
        ensures
            final(self).wf(),
            match rendered_pane(old(self)@, json::json_of(*request)) {
                Err(refusal) => answered matches Err(error) && error@ == refusal && final(self)@
                    == old(self)@,
                Ok(pane) => answer(answered) == Ok::<JsonView, Refusal>(nothing()) && final(self)@
                    == old(self)@.insert(
                    pane,
                    PaneView {
                        preedit: composition_in(json::json_of(*request)),
                        dirty: true,
                        ..old(self)@[pane]
                    },
                ),
            },
    {
        let at: usize = match self.control_of(request) {
            Ok(at) => at,
            Err(error) => return Err(error),
        };
        let caret: u64 = match json::unsigned_at(request, "caret") {
            Some(caret) => caret,
            None => 0,
        };
        let preedit = match json::text_at(request, "text") {
            Some(text) => if text.as_str().unicode_len() == 0 {
                None
            } else {
                Some(
                    (
                        text,
                        #[verifier::truncate]
                        (caret as usize),
                    ),
                )
            },
            None => None,
        };
        let mut control = self.pane_at(at).clone();
        control.preedit = preedit;
        control.dirty = true;
        self.replace(at, control);
        Ok(no_members())
    }

    /// Scrolls a pane, within the history of its mirror.
    pub fn scroll(&mut self, request: &Value, history: Option<usize>) -> (answered: Result<
        Value,
        SurfaceError,
    >)
        requires
            old(self).wf(),
            history matches Some(history) ==> history <= i32::MAX,
        ensures
            final(self).wf(),
            match rendered_pane(old(self)@, json::json_of(*request)) {
                Err(refusal) => answered matches Err(error) && error@ == refusal && final(self)@
                    == old(self)@,
                Ok(pane) => match history {
                    None => answered matches Err(error) && error@ == no_mirror() && final(self)@
                        == old(self)@,
                    Some(history) => match wanted_offset(
                        json::json_of(*request),
                        old(self)@[pane].offset as int,
                        history as int,
                    ) {
                        Err(refusal) => answered matches Err(error) && error@ == refusal
                            && final(self)@ == old(self)@,
                        Ok(wanted) => {
                            let offset = clamped(wanted, 0, history as int);
                            &&& answer(answered) == Ok::<JsonView, Refusal>(
                                JsonView::Object(
                                    map![
                                        "offset"@ => JsonView::Unsigned(offset as u64),
                                        "historySize"@ => JsonView::Unsigned(history as u64),
                                    ],
                                ),
                            )
                            &&& final(self)@ == old(self)@.insert(
                                pane,
                                scrolled_pane(old(self)@[pane], offset as usize),
                            )
                        },
                    },
                },
            },
    {
        let at: usize = match self.control_of(request) {
            Ok(at) => at,
            Err(error) => return Err(error),
        };
        let history: usize = match history {
            Some(history) => history,
            None => return Err(
                theme::refuse("NOT_FOUND", "no live terminal-state mirror for this key"),
            ),
        };
        let current: usize = self.pane_at(at).offset;
        let offset: usize = match scroll_to(request, current, history) {
            Ok(offset) => offset,
            Err(error) => return Err(error),
        };
        let mut control = self.pane_at(at).clone();
        control.offset = offset;
        control.dirty = true;
        self.replace(at, control);
        let mut members = json::new_members();
        json::put(&mut members, "offset", json::unsigned(offset as u64));
        json::put(&mut members, "historySize", json::unsigned(history as u64));
        Ok(json::object(members))
    }

    /// How far the view is scrolled in which a selection is asked for.
    pub fn check_selection(&self, request: &Value, wired: bool) -> (offset: Result<usize, SurfaceError>)
        requires
            self.wf(),
        ensures
            match rendered_pane(self@, json::json_of(*request)) {
                Err(refusal) => offset matches Err(error) && error@ == refusal,
                Ok(pane) => if wired {
                    offset == Ok::<usize, SurfaceError>(self@[pane].offset)
                } else {
                    offset matches Err(error) && error@ == no_mirror()
                },
            },
    {
        let at: usize = match self.control_of(request) {
            Ok(at) => at,
            Err(error) => return Err(error),
        };
        if wired {
            Ok(self.panes[at].offset)
        } else {
            Err(theme::refuse("NOT_FOUND", "no live terminal-state mirror for this key"))
        }
    }

    /// Takes in what a selection came to: a refusal is named, and only one that changed something
    /// wakes a paint.
    pub fn selected(&mut self, request: &Value, mutated: bool, outcome: &Result<(), String>) -> (
        answered: Result<(), SurfaceError>)
        requires
            old(self).wf(),
        ensures
            final(self).wf(),
            match rendered_pane(old(self)@, json::json_of(*request)) {
                Err(refusal) => answered matches Err(error) && error@ == refusal && final(self)@
                    == old(self)@,
                Ok(pane) => match *outcome {
                    Err(message) => answered matches Err(error) && error@ == (Refusal {
                        code: selection_code(message@),
                        message: message@,
                    }) && final(self)@ == old(self)@,
                    Ok(_) => answered is Ok && final(self)@ == if mutated {
                        old(self)@.insert(pane, marked_pane(old(self)@[pane]))
                    } else {
                        old(self)@
                    },
                },
            },
    {
        let at: usize = match self.control_of(request) {
            Ok(at) => at,
            Err(error) => return Err(error),
        };
        if let Err(message) = outcome {
            return Err(selection_refused(message.as_str()));
        }
        if mutated {
            let mut control = self.pane_at(at).clone();
            control.dirty = true;
            self.replace(at, control);
        }
        Ok(())
    }

    /// The text of the last rows of a pane's view.
    pub fn read<M: TerminalStateMirror + ?Sized>(&self, request: &Value, mirror: Option<&M>) -> (
        answered: Result<Value, SurfaceError>)
        requires
            self.wf(),
        ensures
            answer(answered) == match rendered_pane(self@, json::json_of(*request)) {
                Err(refusal) => Err(refusal),
                Ok(pane) => match mirror {
                    None => Err(no_mirror()),
                    Some(mirror) => {
                        let rows = mirror.screen().rows;
                        let wanted = rows_wanted(json::json_of(*request), rows);
                        Ok(
                            JsonView::Object(
                                map![
                                    "text"@ => JsonView::Text(
                                        rows_text(
                                            mirror.screen().lines,
                                            rows - wanted,
                                            wanted as nat,
                                            self@[pane].offset as int,
                                        ),
                                    ),
                                ],
                            ),
                        )
                    },
                },
            },
    {
        let at: usize = match self.control_of(request) {
            Ok(at) => at,
            Err(error) => return Err(error),
        };
        match mirror {
            None => Err(theme::refuse("NOT_FOUND", "no live terminal-state mirror for this key")),
            Some(mirror) => {
                let text = read_text(mirror, request, self.panes[at].offset);
                let mut members = json::new_members();
                json::put(&mut members, "text", json::string(text.as_str()));
                Ok(json::object(members))
            },
        }
    }

    /// Ends the session of a pane.
    pub fn close(&mut self, request: &Value) -> (answered: Result<Value, SurfaceError>)
        requires
            old(self).wf(),
        ensures
            final(self).wf(),
            match rendered_pane(old(self)@, json::json_of(*request)) {
                Err(refusal) => answered matches Err(error) && error@ == refusal && final(self)@
                    == old(self)@,
                Ok(pane) => answer(answered) == Ok::<JsonView, Refusal>(nothing()) && final(self)@
                    == old(self)@.remove(pane),
            },
    {
        let at: usize = match self.control_of(request) {
            Ok(at) => at,
            Err(error) => return Err(error),
        };
        proof {
            table::lemma_table_remove(self.panes@, at as int);
        }
        let ghost before = self.panes@;
        self.panes.remove(at);
        assert forall|i: int| 0 <= i < self.panes@.len() implies (
        #[trigger] self.panes@[i]).offset <= i32::MAX by {
            assert(self.panes@[i] == before[if i < at {
                i
            } else {
                i + 1
            }]);
        }
        Ok(no_members())
    }
}

/// A pane that is paused or goes on. One that goes on has a frame to catch up with.
pub open spec fn paused_pane(pane: PaneView, paused: bool) -> PaneView {
    PaneView { paused, dirty: pane.dirty || !paused, ..pane }
}

/// A pane that has the focus or lost it.
pub open spec fn focused_pane(pane: PaneView, focused: bool) -> PaneView {
    PaneView { focused, dirty: true, ..pane }
}

/// A pane that has to be painted.
pub open spec fn marked_pane(pane: PaneView) -> PaneView {
    PaneView { dirty: true, ..pane }
}

/// A pane with another declared theme. The terminal's own colors stay.
pub open spec fn themed_pane(pane: PaneView, next: DeclaredTheme) -> PaneView {
    PaneView {
        theme: ThemeView { mode: next.mode, base: next.palette, ..pane.theme },
        dirty: true,
        ..pane
    }
}

/// A pane that is scrolled somewhere else.
pub open spec fn scrolled_pane(pane: PaneView, offset: usize) -> PaneView {
    PaneView { offset, dirty: true, ..pane }
}

/// Whatever changes what a pane shows marks it to be painted, and each request changes its own part of
/// it alone: pausing the pause, focus the focus and neither the cursor nor the modes, a theme the
/// declared theme and not the terminal's own colors, and scrolling the offset.
pub proof fn law_shown_changes_are_painted(
    pane: PaneView,
    paused: bool,
    focused: bool,
    next: DeclaredTheme,
    offset: usize,
)
    ensures
        paused_pane(pane, false).dirty,
        pane.dirty ==> paused_pane(pane, paused).dirty,
        paused_pane(pane, paused).paused == paused,
        (PaneView { paused: pane.paused, dirty: pane.dirty, ..paused_pane(pane, paused) }) == pane,
        focused_pane(pane, focused).dirty,
        focused_pane(pane, focused).focused == focused,
        (PaneView { focused: pane.focused, dirty: pane.dirty, ..focused_pane(pane, focused) }) == pane,
        marked_pane(pane).dirty,
        (PaneView { dirty: pane.dirty, ..marked_pane(pane) }) == pane,
        themed_pane(pane, next).dirty,
        themed_pane(pane, next).theme.mode == next.mode,
        themed_pane(pane, next).theme.base == next.palette,
        themed_pane(pane, next).theme.overrides == pane.theme.overrides,
        (PaneView { theme: pane.theme, dirty: pane.dirty, ..themed_pane(pane, next) }) == pane,
        scrolled_pane(pane, offset).dirty,
        scrolled_pane(pane, offset).offset == offset,
        (PaneView { offset: pane.offset, dirty: pane.dirty, ..scrolled_pane(pane, offset) }) == pane,
{
}

/// The composition a request brings; none where it has no text.
pub open spec fn composition_in(request: JsonView) -> Option<(Seq<char>, usize)> {
    match json::text_in(json::member(request, "text"@)) {
        Some(text) if text.len() > 0 => Some(
            (
                text,
                match json::unsigned_in(json::member(request, "caret"@)) {
                    Some(caret) => caret as usize,
                    None => 0,
                },
            ),
        ),
        _ => None,
    }
}

/// A pane that was opened again is rendered by the new session alone: its predecessor is no longer
/// in charge, and no other pane is touched.
pub proof fn law_reopened_pane_has_one_session(
    panes: Map<Seq<char>, PaneView>,
    opened: PaneView,
    other: Seq<char>,
)
    requires
        other != opened.pane,
    ensures
        ({
            let after = panes.insert(opened.pane, opened);
            &&& after[opened.pane] == opened
            &&& after.contains_key(other) == panes.contains_key(other)
            &&& panes.contains_key(other) ==> after[other] == panes[other]
        }),
{
}

/// A view never leaves the history: whatever a scroll asks for, the offset is between the bottom
/// and the top.
pub proof fn law_scroll_stays_in_history(wanted: int, history: int)
    requires
        0 <= history,
    ensures
        0 <= clamped(wanted, 0, history) <= history,
        0 <= wanted <= history ==> clamped(wanted, 0, history) == wanted,
{
}

} // verus!
