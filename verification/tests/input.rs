use soksak_kit_sidecar_terminal::input::{pointer_reports, wheel_route, PointerAction, WheelRoute};
use soksak_kit_sidecar_terminal::mirror::TerminalModes;

const ACTIONS: [PointerAction; 4] = [
    PointerAction::Press,
    PointerAction::Release,
    PointerAction::HeldMove,
    PointerAction::FreeMove,
];

fn reported(modes: TerminalModes) -> Vec<bool> {
    ACTIONS.iter().map(|action| pointer_reports(modes, *action, false)).collect()
}

#[test]
fn every_mode_reports_what_it_tracks() {
    let off = TerminalModes::default();
    assert_eq!(reported(off), vec![false; 4]);
    assert_eq!(
        reported(TerminalModes { mouse_x10: true, ..off }),
        vec![true, false, false, false]
    );
    assert_eq!(
        reported(TerminalModes { mouse_highlight: true, ..off }),
        vec![true, true, false, false]
    );
    assert_eq!(
        reported(TerminalModes { mouse_click: true, ..off }),
        vec![true, true, false, false]
    );
    assert_eq!(reported(TerminalModes { mouse_drag: true, ..off }), vec![true, true, true, false]);
    let motion = TerminalModes { mouse_motion: true, ..off };
    assert_eq!(reported(motion), vec![true; 4]);
    for action in ACTIONS {
        assert!(!pointer_reports(motion, action, true), "shift bypasses the terminal");
    }
}

#[test]
fn the_wheel_goes_where_the_modes_send_it() {
    let off = TerminalModes::default();
    let reporting = TerminalModes { mouse_x10: true, alternate_scroll: true, ..off };
    let alternate = TerminalModes { alternate_scroll: true, ..off };
    assert_eq!(wheel_route(off, false, false), WheelRoute::Scrollback);
    assert_eq!(wheel_route(reporting, true, false), WheelRoute::MouseReport);
    assert_eq!(wheel_route(reporting, true, true), WheelRoute::Scrollback);
    assert_eq!(wheel_route(alternate, true, false), WheelRoute::AlternateScroll);
    assert_eq!(wheel_route(alternate, false, false), WheelRoute::Scrollback);
}
