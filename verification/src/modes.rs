//! The mode state a replay cannot rebuild, between the mirror and the session owner.
//!
//! A mode set before the retained output begins is in no byte the store holds. A rotation drops the
//! half that set it, and a replay then draws into a mirror in the mode it started in rather than the
//! one the session was left in.

use vstd::prelude::*;

use crate::cells::TerminalModes;

verus! {

/// The thirteen modes a report carries. A mirror that tracks more than those restores without them.
#[derive(Debug, Clone, Copy, PartialEq, Eq, Structural)]
pub struct ReportedModes {
    pub bracketed_paste: bool,
    pub app_cursor: bool,
    pub app_keypad: bool,
    pub mouse_click: bool,
    pub mouse_drag: bool,
    pub mouse_motion: bool,
    pub sgr_mouse: bool,
    pub utf8_mouse: bool,
    pub focus_in_out: bool,
    pub alternate_scroll: bool,
    pub show_cursor: bool,
    pub line_wrap: bool,
    pub insert: bool,
}

/// The modes of a report.
pub open spec fn reported(modes: TerminalModes) -> ReportedModes {
    ReportedModes {
        bracketed_paste: modes.bracketed_paste,
        app_cursor: modes.app_cursor,
        app_keypad: modes.app_keypad,
        mouse_click: modes.mouse_click,
        mouse_drag: modes.mouse_drag,
        mouse_motion: modes.mouse_motion,
        sgr_mouse: modes.sgr_mouse,
        utf8_mouse: modes.utf8_mouse,
        focus_in_out: modes.focus_in_out,
        alternate_scroll: modes.alternate_scroll,
        show_cursor: modes.show_cursor,
        line_wrap: modes.line_wrap,
        insert: modes.insert,
    }
}

/// What the session owner stores of one mirror: its modes, and whether the alternate screen is on.
#[derive(Debug, Clone, Copy, PartialEq, Eq, Structural)]
pub struct ModeReport {
    pub modes: ReportedModes,
    pub alt: bool,
}

/// The report for one mirror.
pub fn report_of(modes: TerminalModes, alt: bool) -> (report: ModeReport)
    ensures
        report == (ModeReport { modes: reported(modes), alt }),
{
    let modes = ReportedModes {
        bracketed_paste: modes.bracketed_paste,
        app_cursor: modes.app_cursor,
        app_keypad: modes.app_keypad,
        mouse_click: modes.mouse_click,
        mouse_drag: modes.mouse_drag,
        mouse_motion: modes.mouse_motion,
        sgr_mouse: modes.sgr_mouse,
        utf8_mouse: modes.utf8_mouse,
        focus_in_out: modes.focus_in_out,
        alternate_scroll: modes.alternate_scroll,
        show_cursor: modes.show_cursor,
        line_wrap: modes.line_wrap,
        insert: modes.insert,
    };
    ModeReport { modes, alt }
}

/// The bytes that put a fresh mirror into a stored report's modes: those that reading the report
/// gave, if it could be read. An empty store applies nothing, and neither does a report that was
/// written in a form this build does not read: defaults would restore the modes of a session that
/// never ran.
pub fn apply_bytes_of(stored: &[u8], read: Option<Vec<u8>>) -> (applied: Option<Vec<u8>>)
    ensures
        applied == if stored@.len() == 0 {
            None
        } else {
            read
        },
{
    if stored.len() == 0 {
        None
    } else {
        read
    }
}

/// A report tells every mode as the engine reported it.
pub proof fn law_reported_modes_are_the_engines(modes: TerminalModes)
    ensures
        ({
            let told = reported(modes);
            &&& told.bracketed_paste == modes.bracketed_paste
            &&& told.app_cursor == modes.app_cursor
            &&& told.app_keypad == modes.app_keypad
            &&& told.mouse_click == modes.mouse_click
            &&& told.mouse_drag == modes.mouse_drag
            &&& told.mouse_motion == modes.mouse_motion
            &&& told.sgr_mouse == modes.sgr_mouse
            &&& told.utf8_mouse == modes.utf8_mouse
            &&& told.focus_in_out == modes.focus_in_out
            &&& told.alternate_scroll == modes.alternate_scroll
            &&& told.show_cursor == modes.show_cursor
            &&& told.line_wrap == modes.line_wrap
            &&& told.insert == modes.insert
        }),
{
}

} // verus!
