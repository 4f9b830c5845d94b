//! Where native pointer and wheel input goes, by the modes of the engine.

use vstd::prelude::*;

use crate::cells::TerminalModes;

verus! {

/// What the pointer did.
#[derive(Debug, Clone, Copy, PartialEq, Eq, Structural)]
pub enum PointerAction {
    Press,
    Release,
    /// It moved with a button held.
    HeldMove,
    /// It moved with no button held.
    FreeMove,
}

/// Where wheel input goes.
#[derive(Debug, Clone, Copy, PartialEq, Eq, Structural)]
pub enum WheelRoute {
    /// The viewport scrolls into history.
    Scrollback,
    /// The engine encodes a mouse report.
    MouseReport,
    /// The engine encodes alternate scroll.
    AlternateScroll,
}

/// Whether any mouse tracking is on.
pub open spec fn tracks(modes: TerminalModes) -> bool {
    modes.mouse_x10 || modes.mouse_highlight || modes.mouse_click || modes.mouse_drag
        || modes.mouse_motion
}

/// Whether the engine is told of an action. Shift keeps it from the terminal.
pub open spec fn reports(modes: TerminalModes, action: PointerAction, shift: bool) -> bool {
    !shift && match action {
        PointerAction::Press => tracks(modes),
        PointerAction::Release => modes.mouse_highlight || modes.mouse_click || modes.mouse_drag
            || modes.mouse_motion,
        PointerAction::HeldMove => modes.mouse_drag || modes.mouse_motion,
        PointerAction::FreeMove => modes.mouse_motion,
    }
}

fn tracking(modes: TerminalModes) -> (yes: bool)
    ensures
        yes == tracks(modes),
{
    modes.mouse_x10 || modes.mouse_highlight || modes.mouse_click || modes.mouse_drag
        || modes.mouse_motion
}

/// Whether the engine is told of an action.
pub fn pointer_reports(modes: TerminalModes, action: PointerAction, shift: bool) -> (yes: bool)
    ensures
        yes == reports(modes, action, shift),
{
    !shift && match action {
        PointerAction::Press => tracking(modes),
        PointerAction::Release => modes.mouse_highlight || modes.mouse_click || modes.mouse_drag
            || modes.mouse_motion,
        PointerAction::HeldMove => modes.mouse_drag || modes.mouse_motion,
        PointerAction::FreeMove => modes.mouse_motion,
    }
}

/// Where wheel input goes: shift forces the scrollback, otherwise the modes of the engine choose.
/// Alternate scroll is for the alternate screen.
pub fn wheel_route(modes: TerminalModes, alt_active: bool, shift: bool) -> (route: WheelRoute)
    ensures
        route == if shift {
            WheelRoute::Scrollback
        } else if tracks(modes) {
            WheelRoute::MouseReport
        } else if modes.alternate_scroll && alt_active {
            WheelRoute::AlternateScroll
        } else {
            WheelRoute::Scrollback
        },
{
    if shift {
        WheelRoute::Scrollback
    } else if tracking(modes) {
        WheelRoute::MouseReport
    } else if modes.alternate_scroll && alt_active {
        WheelRoute::AlternateScroll
    } else {
        WheelRoute::Scrollback
    }
}

/// Shift keeps every action from the terminal, and the more of the pointer is followed, the more is
/// reported: whatever a free movement reports a held one does, a held movement a release, and a
/// release a press. X10 tracking alone reports presses and nothing else.
pub proof fn law_pointer_reports_are_nested(modes: TerminalModes, action: PointerAction)
    ensures
        !reports(modes, action, true),
        reports(modes, PointerAction::FreeMove, false) ==> reports(
            modes,
            PointerAction::HeldMove,
            false,
        ),
        reports(modes, PointerAction::HeldMove, false) ==> reports(
            modes,
            PointerAction::Release,
            false,
        ),
        reports(modes, PointerAction::Release, false) ==> reports(
            modes,
            PointerAction::Press,
            false,
        ),
        modes.mouse_x10 && !modes.mouse_highlight && !modes.mouse_click && !modes.mouse_drag
            && !modes.mouse_motion ==> (reports(modes, action, false) <==> action
            == PointerAction::Press),
{
}

} // verus!
