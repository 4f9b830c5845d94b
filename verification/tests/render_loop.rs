use soksak_kit_sidecar_terminal::mirror::{
    TerminalCursorAnimation, TerminalCursorShape, TerminalCursorStyle,
};
use soksak_kit_sidecar_terminal::render::render_loop::{
    damage, spans, FrameStep, RenderLoop, RingCall, Wait,
};

#[test]
fn first_paint_waits_for_the_terminal_grid_to_match_the_surface_grid() {
    let mut turn = RenderLoop::new(0);
    let decision = turn.decide(0, true, false, false);
    assert!(!decision.paint, "no frame may read a mirror whose grid has not reached the surface grid");
    let decision = turn.decide(1, false, true, false);
    assert!(decision.paint, "the matching grid event produces the first frame");
    assert!(!turn.decide(1, false, true, false).paint);
}

#[test]
fn a_paint_that_waited_for_the_grid_needs_no_other_event() {
    let mut turn = RenderLoop::new(4);
    assert!(!turn.decide(4, true, false, false).paint);
    assert!(turn.decide(4, false, true, false).paint);
}

#[test]
fn paused_produces_no_frame_and_resume_catches_up() {
    let mut turn = RenderLoop::new(0);
    assert!(!turn.decide(1, false, true, true).paint, "a paused pane pushes no frame");
    let resumed = turn.decide(1, true, true, false);
    assert!(resumed.paint, "the catch-up frame");
    assert!(resumed.output_activity);
}

#[test]
fn engine_blink_state_schedules_a_cursor_frame_without_output_polling() {
    let mut turn = RenderLoop::new(0);
    let style = TerminalCursorStyle { shape: TerminalCursorShape::Bar, blinking: true };
    let policy = TerminalCursorAnimation { interval_ms: 20 };
    turn.observe(style, policy, true, 0, false, true, false);
    assert_eq!(turn.wait(0, false, false, false), Wait::SignalOr(20));
    assert!(turn.timed_out(), "the renderer-owned blink clock emits a frame");
    assert!(!turn.animation.cursor_on());
    turn.observe(style, policy, true, 0, false, false, false);
    assert_eq!(turn.wait(0, false, false, false), Wait::Signal, "no deadline without focus");
    assert!(!turn.timed_out());
}

#[test]
fn there_is_nothing_to_wait_for_while_something_is_owed() {
    let turn = RenderLoop::new(3);
    assert_eq!(turn.wait(4, false, false, false), Wait::Nothing);
    assert_eq!(turn.wait(3, true, false, false), Wait::Nothing);
    assert_eq!(turn.wait(3, false, true, false), Wait::Nothing);
    assert_eq!(turn.wait(3, false, false, false), Wait::Signal);
}

#[test]
fn a_release_tells_that_the_signaled_slot_is_shown() {
    let mut turn = RenderLoop::new(0);
    assert_eq!(turn.painted(2, 3), FrameStep::Signal);
    assert_eq!(turn.painted(1, 0), FrameStep::GiveBack);
    assert_eq!(
        turn.route(&[0, 1]),
        vec![RingCall::Shown(2), RingCall::Released(0), RingCall::Released(1)]
    );
    assert_eq!(turn.route(&[1]), vec![RingCall::Released(1)]);
    assert_eq!(turn.painted(0, 0), FrameStep::Signal);
    turn.replaced();
    assert_eq!(turn.route(&[0]), vec![RingCall::Released(0)]);
}

#[test]
fn rows_are_joined_into_spans_of_damage() {
    assert_eq!(spans(&[]), vec![]);
    assert_eq!(spans(&[0, 1, 2, 5, 7, 8]), vec![(0, 3), (5, 1), (7, 2)]);
    assert_eq!(damage(&[1, 2, 4], 20, 300), vec![(0, 20, 300, 40), (0, 80, 300, 20)]);
}

#[test]
fn a_width_beyond_16_bits_is_cut_to_them() {
    assert_eq!(damage(&[0], 20, 70_000), vec![(0, 0, 4_464, 20)]);
}
