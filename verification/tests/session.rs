use serde_json::Value;

use soksak_kit_sidecar_terminal::mirror::{
    TerminalCursorAnimation, TerminalCursorShape, TerminalCursorStyle, TerminalModes, TerminalRgb,
    TerminalThemeOverrides,
};
use soksak_kit_sidecar_terminal::render::instances::{pack_bgra, Palette};
use soksak_kit_sidecar_terminal::render::session::{
    check_identifier, command, grid_for, parse_open, selection_refused, CursorAnimation,
    CursorPhase, PaneControl, SurfaceCommand, SurfaceSessions,
};
use soksak_kit_sidecar_terminal::render::theme::{
    packed_hex, parse_hex, parse_theme, rgb_hex, SurfaceThemeState, ThemeMode,
};

fn json(text: &str) -> Value {
    serde_json::from_str(text).unwrap()
}

fn test_theme() -> SurfaceThemeState {
    let color = pack_bgra(0x11, 0x11, 0x11, 255);
    SurfaceThemeState::new(
        ThemeMode::Light,
        Palette {
            fg: color,
            bg: pack_bgra(0xee, 0xee, 0xee, 255),
            cursor: pack_bgra(0x33, 0x33, 0x33, 255),
            cursor_accent: pack_bgra(0xee, 0xee, 0xee, 255),
            selection_bg: pack_bgra(0xbb, 0xbb, 0xbb, 255),
            selection_fg: pack_bgra(0x11, 0x11, 0x11, 255),
            ansi: [color; 256],
        },
    )
}

fn control(id: u64, pane: &str) -> PaneControl {
    PaneControl::new(id, pane, "Menlo", test_theme())
}

fn inactive_selection() -> Value {
    json(r#"{ "active": false, "sequence": 0 }"#)
}

fn pane() -> Value {
    json(r#"{ "pane": "tab-a.1" }"#)
}

fn theme_json(mode: &str, fg: &str, bg: &str, selection_bg: &str, ansi: &str) -> Value {
    let colors: Vec<Value> = (0..256).map(|_| Value::from(ansi)).collect();
    let mut theme = serde_json::Map::new();
    for (key, value) in [
        ("mode", mode),
        ("fg", fg),
        ("bg", bg),
        ("cursor", "#778899"),
        ("cursorAccent", "#aabbcc"),
        ("selectionBg", selection_bg),
        ("selectionFg", fg),
    ] {
        theme.insert(key.to_string(), Value::from(value));
    }
    theme.insert("ansi".to_string(), Value::from(colors));
    Value::Object(theme)
}

fn with(mut request: Value, key: &str, value: Value) -> Value {
    request.as_object_mut().unwrap().insert(key.to_string(), value);
    request
}

#[test]
fn a_reopened_pane_supersedes_the_dead_render_session() {
    let mut panes = SurfaceSessions::new();
    assert!(panes.supersede(control(1, "tab-a.1")).is_none());
    let superseded =
        panes.supersede(control(2, "tab-a.1")).expect("the first session is handed back");
    assert_eq!(superseded.id, 1);
    assert!(superseded.stop, "the old thread is told to stop");
    assert!(!panes.renders("tab-a.1", 1));
    assert!(panes.renders("tab-a.1", 2));
    assert!(!panes.pane("tab-a.1").unwrap().stop);
    assert_eq!(panes.pane("tab-a.1").unwrap().id, 2);
}

#[test]
fn surface_state_exposes_the_engine_cursor_and_renderer_animation() {
    let mut sessions = SurfaceSessions::new();
    let mut cursor = control(1, "tab-a.1");
    cursor.cursor_row = 3;
    cursor.cursor_col = 7;
    cursor.cursor_visible = true;
    cursor.cursor_style = TerminalCursorStyle { shape: TerminalCursorShape::Bar, blinking: true };
    cursor.cursor_interval_ms = 750;
    cursor.cursor_phase = CursorPhase::On;
    sessions.supersede(cursor);
    let state = sessions.state(&pane(), 0, inactive_selection(), Value::from(0.5)).expect("surface state");
    assert_eq!(state["cursorShape"], "bar");
    assert_eq!(state["cursorBlinking"], true);
    assert_eq!(state["cursorVisible"], true);
    assert_eq!((state["cursorRow"].as_u64(), state["cursorColumn"].as_u64()), (Some(3), Some(7)));
    assert_eq!(state["cursorAnimation"]["intervalMs"], 750);
    assert_eq!(state["cursorAnimation"]["phase"], "on");
    assert_eq!(state["selection"]["active"], false);
    assert_eq!(state["selection"]["sequence"], 0);
    assert_eq!(state["modes"]["mouseClick"], false);
    assert_eq!(state["modes"]["mouseDrag"], false);
    assert_eq!(state["modes"]["mouseMotion"], false);
    assert_eq!(state["modes"]["alternateScroll"], false);
    assert_eq!(state["dim"], 0.5);
}

#[test]
fn surface_state_exposes_base_override_and_effective_theme() {
    let mut sessions = SurfaceSessions::new();
    sessions.supersede(control(1, "tab-a.1"));
    let state = sessions.state(&pane(), 0, inactive_selection(), Value::from(0.5)).expect("surface state");
    assert_eq!(state["themeMode"], "light");
    assert_eq!(state["baseTheme"]["foreground"], "#111111");
    assert_eq!(state["terminalOverrides"]["foreground"], Value::Null);
    assert_eq!(state["terminalOverrides"]["ansi"].as_array().map(Vec::len), Some(256));
    assert_eq!(state["effectiveTheme"]["foreground"], "#111111");
}

#[test]
fn terminal_override_wins_and_reset_reveals_the_current_base() {
    let mut sessions = SurfaceSessions::new();
    let mut overridden = control(1, "tab-a.1");
    overridden.theme.overrides.foreground = Some(TerminalRgb { r: 0xab, g: 0xcd, b: 0xef });
    sessions.supersede(overridden);
    let state = sessions.state(&pane(), 0, inactive_selection(), Value::from(0.5)).expect("overridden state");
    assert_eq!(state["terminalOverrides"]["foreground"], "#abcdef");
    assert_eq!(state["effectiveTheme"]["foreground"], "#abcdef");

    let mut reset = sessions.pane("tab-a.1").unwrap().clone();
    reset.theme.base.fg = pack_bgra(0x22, 0x22, 0x22, 255);
    reset.theme.overrides.foreground = None;
    assert!(sessions.store(reset));
    let state = sessions.state(&pane(), 0, inactive_selection(), Value::from(0.5)).expect("reset state");
    assert_eq!(state["effectiveTheme"]["foreground"], "#222222");
}

#[test]
fn surface_theme_updates_base_without_dropping_engine_overrides() {
    let mut sessions = SurfaceSessions::new();
    let mut overridden = control(1, "tab-a.1");
    overridden.theme.overrides.foreground = Some(TerminalRgb { r: 0xab, g: 0xcd, b: 0xef });
    sessions.supersede(overridden);
    let theme = theme_json("dark", "#223344", "#050607", "#101112", "#131415");
    assert_eq!(command("surface.theme").unwrap(), SurfaceCommand::Theme);
    let changed = sessions
        .theme(&with(pane(), "theme", theme), 0, inactive_selection(), Value::from(0.5))
        .expect("surface.theme");
    assert_eq!(changed["themeMode"], "dark");
    assert_eq!(changed["baseTheme"]["background"], "#050607");
    assert_eq!(changed["terminalOverrides"]["foreground"], "#abcdef");
    assert_eq!(changed["effectiveTheme"]["foreground"], "#abcdef");
    let control = sessions.pane("tab-a.1").unwrap();
    assert!(control.dirty);
    assert_eq!(control.theme.base.bg, pack_bgra(0x05, 0x06, 0x07, 255));
}

#[test]
fn terminal_theme_keeps_the_declared_cursor_colors() {
    let mut theme = theme_json("dark", "#112233", "#445566", "#000000", "#010203");
    theme = with(theme, "selectionFg", Value::from("#ffffff"));
    let palette = parse_theme(&theme).expect("complete theme").base;
    assert_eq!(palette.cursor, pack_bgra(0x77, 0x88, 0x99, 255));
    assert_eq!(palette.cursor_accent, pack_bgra(0xaa, 0xbb, 0xcc, 255));
}

#[test]
fn cursor_animation_ticks_only_for_engine_blinking_state() {
    let steady = TerminalCursorStyle {
        shape: TerminalCursorShape::Bar,
        blinking: false,
    };
    let blinking = TerminalCursorStyle { blinking: true, ..steady };
    let policy = TerminalCursorAnimation { interval_ms: 750 };
    let mut animation = CursorAnimation::new();
    animation.observe(steady, policy, true, true);
    assert_eq!(animation.next_tick(), None);
    assert!(animation.cursor_on());

    animation.observe(blinking, policy, true, true);
    assert_eq!(animation.next_tick(), Some(750));
    assert!(animation.tick());
    assert!(!animation.cursor_on());
    assert!(animation.tick());
    assert!(animation.cursor_on());

    animation.observe(blinking, policy, false, false);
    assert_eq!(animation.next_tick(), None);
}

#[test]
fn the_phase_follows_the_clock() {
    let blinking =
        TerminalCursorStyle { shape: TerminalCursorShape::Block, blinking: true };
    let policy = TerminalCursorAnimation { interval_ms: 750 };
    let mut animation = CursorAnimation::new();
    assert_eq!(animation.phase(), CursorPhase::Steady);
    assert!(!animation.tick(), "a clock that does not run does not tick");
    animation.observe(blinking, policy, true, false);
    assert_eq!(animation.phase(), CursorPhase::On);
    animation.tick();
    assert_eq!(animation.phase(), CursorPhase::Off);
    animation.observe(blinking, policy, true, true);
    assert_eq!(animation.phase(), CursorPhase::On, "output starts the phase again");
    animation.observe(blinking, TerminalCursorAnimation { interval_ms: 0 }, true, false);
    assert_eq!(animation.next_tick(), None);
}

#[test]
fn a_paused_pane_says_so_and_resume_is_dirty() {
    let mut sessions = SurfaceSessions::new();
    sessions.supersede(control(1, "tab-a.1"));
    sessions.set_paused(&with(pane(), "paused", Value::from(true))).expect("pause lands");
    assert!(sessions.pane("tab-a.1").unwrap().paused);
    sessions.set_paused(&with(pane(), "paused", Value::from(false))).expect("resume lands");
    let control = sessions.pane("tab-a.1").unwrap();
    assert!(!control.paused);
    assert!(control.dirty);
    assert_eq!(sessions.set_paused(&pane()).unwrap_err().code, "INVALID_PARAMS");
}

#[test]
fn focus_changes_only_the_presentation() {
    let mut sessions = SurfaceSessions::new();
    let mut shaped = control(1, "tab-a.1");
    shaped.cursor_style = TerminalCursorStyle { shape: TerminalCursorShape::Bar, blinking: true };
    sessions.supersede(shaped);
    sessions.focus(&with(pane(), "focused", Value::from(false))).expect("focus lands");
    let control = sessions.pane("tab-a.1").unwrap();
    assert!(!control.focused);
    assert!(control.dirty);
    assert!(control.cursor_style.blinking);
    assert_eq!(sessions.focus(&pane()).unwrap_err().code, "INVALID_PARAMS");
}

#[test]
fn a_dim_is_accepted_and_a_bad_amount_is_refused() {
    let amount = |request: &Value| {
        request["dim"].as_f64().filter(|amount| (0.0..=1.0).contains(amount))
    };
    let mut sessions = SurfaceSessions::new();
    sessions.supersede(control(1, "tab-test.1"));
    let mut settled = sessions.pane("tab-test.1").unwrap().clone();
    settled.dirty = false;
    assert!(sessions.store(settled));
    for bad in [
        json(r#"{"window": "win-test", "pane": "tab-test.1", "dim": 1.5}"#),
        json(r#"{"window": "win-test", "pane": "tab-test.1"}"#),
    ] {
        let refused = sessions.dim(&bad, amount(&bad).is_some()).unwrap_err();
        assert_eq!(refused.code, "INVALID_PARAMS", "an amount outside 0..1, or none at all");
        assert!(!sessions.pane("tab-test.1").unwrap().dirty, "a refused dim paints nothing");
    }
    let request = json(r#"{"window": "win-test", "pane": "tab-test.1", "dim": 0.5}"#);
    let accepted = sessions.dim(&request, amount(&request).is_some());
    assert_eq!(accepted.expect("a dim is accepted"), json("{}"));
    assert!(sessions.pane("tab-test.1").unwrap().dirty);
    let dim = Value::from(amount(&request).unwrap());
    let state = sessions
        .state(&json(r#"{"pane": "tab-test.1"}"#), 0, inactive_selection(), dim)
        .expect("state answers");
    assert_eq!(state["dim"], 0.5, "the state reports the amount the pane paints with");
    assert_eq!(sessions.dim(&pane(), true).unwrap_err().code, "NOT_FOUND");
}

#[test]
fn close_ends_the_ring() {
    let mut sessions = SurfaceSessions::new();
    sessions.supersede(control(1, "tab-test.1"));
    assert!(sessions.renders("tab-test.1", 1));
    sessions.close(&json(r#"{"pane": "tab-test.1"}"#)).expect("close lands");
    assert!(!sessions.renders("tab-test.1", 1), "the render thread is told to end");
}

#[test]
fn a_composition_is_kept_and_cleared() {
    let mut sessions = SurfaceSessions::new();
    sessions.supersede(control(1, "tab-a.1"));
    let request = with(with(pane(), "text", Value::from("한")), "caret", Value::from(1));
    sessions.preedit(&request).expect("preedit lands");
    assert_eq!(sessions.pane("tab-a.1").unwrap().preedit, Some(("한".to_string(), 1)));
    sessions.preedit(&with(pane(), "text", Value::from(""))).expect("cleared");
    assert_eq!(sessions.pane("tab-a.1").unwrap().preedit, None);
}

#[test]
fn a_view_scrolls_within_its_history() {
    let mut sessions = SurfaceSessions::new();
    sessions.supersede(control(1, "tab-a.1"));
    let to = |n: i64| with(pane(), "offset", Value::from(n));
    let moved = sessions.scroll(&to(99), Some(5)).expect("scrolls");
    assert_eq!(moved["offset"], 5);
    assert_eq!(moved["historySize"], 5);
    let by = |n: i64| with(pane(), "lines", Value::from(n));
    let moved = sessions.scroll(&by(2), Some(5)).expect("scrolls");
    assert_eq!(moved["offset"], 3);
    assert_eq!(sessions.pane("tab-a.1").unwrap().offset, 3);
    let moved = sessions.scroll(&by(9), Some(5)).expect("scrolls");
    assert_eq!(moved["offset"], 0);
    let edge = |edge: &str| with(pane(), "edge", Value::from(edge));
    assert_eq!(sessions.scroll(&edge("top"), Some(5)).unwrap()["offset"], 5);
    assert_eq!(sessions.scroll(&edge("bottom"), Some(5)).unwrap()["offset"], 0);
    assert_eq!(sessions.scroll(&edge("left"), Some(5)).unwrap_err().code, "INVALID_PARAMS");
    assert_eq!(sessions.scroll(&pane(), Some(5)).unwrap_err().code, "INVALID_PARAMS");
    assert_eq!(sessions.scroll(&to(1), None).unwrap_err().code, "NOT_FOUND");
}

#[test]
fn a_closed_pane_is_gone() {
    let mut sessions = SurfaceSessions::new();
    sessions.supersede(control(1, "tab-a.1"));
    sessions.supersede(control(2, "tab-b.1"));
    sessions.close(&pane()).expect("close lands");
    assert!(sessions.pane("tab-a.1").is_none());
    assert!(sessions.pane("tab-b.1").is_some());
    let error = sessions.close(&pane()).unwrap_err();
    assert_eq!((error.code, error.message.as_str()), ("NOT_FOUND", "no surface renders tab-a.1"));
    assert_eq!(sessions.close(&json("{}")).unwrap_err().code, "INVALID_PARAMS");
}

#[test]
fn a_selection_wakes_a_paint_only_when_it_changed() {
    let mut sessions = SurfaceSessions::new();
    sessions.supersede(control(1, "tab-a.1"));
    assert_eq!(sessions.check_selection(&pane(), true), Ok(0));
    assert_eq!(sessions.check_selection(&pane(), false).unwrap_err().code, "NOT_FOUND");
    let clean = |sessions: &mut SurfaceSessions| {
        let mut control = sessions.pane("tab-a.1").unwrap().clone();
        control.take_dirty();
        assert!(sessions.store(control));
    };
    clean(&mut sessions);
    sessions.selected(&pane(), false, &Ok(())).expect("read");
    assert!(!sessions.pane("tab-a.1").unwrap().dirty);
    sessions.selected(&pane(), true, &Ok(())).expect("changed");
    assert!(sessions.pane("tab-a.1").unwrap().dirty);
    clean(&mut sessions);
    let refused =
        sessions.selected(&pane(), true, &Err("STALE_GESTURE: other".to_string())).unwrap_err();
    assert_eq!(refused.code, "STALE_GESTURE");
    assert!(!sessions.pane("tab-a.1").unwrap().dirty);
}

#[test]
fn refused_selections_are_named() {
    assert_eq!(selection_refused("STALE_GESTURE: x").code, "STALE_GESTURE");
    assert_eq!(selection_refused("SELECTION_KIND_CHANGED: x").code, "SELECTION_KIND_CHANGED");
    let other = selection_refused("engine");
    assert_eq!((other.code, other.message.as_str()), ("SELECTION_FAILED", "engine"));
}

#[test]
fn the_frame_that_left_decides_the_colors() {
    let mut pane = control(1, "tab-a.1");
    let mut overrides = TerminalThemeOverrides::default();
    overrides.foreground = Some(TerminalRgb { r: 0xab, g: 0xcd, b: 0xef });
    pane.painted();
    pane.frame_sent(overrides);
    pane.missed();
    pane.failed("paint", "no device");
    assert_eq!((pane.paints, pane.sends, pane.acquire_misses), (1, 1, 1));
    assert_eq!(pane.last_error.as_deref(), Some("paint: no device"));
    assert_eq!(pane.theme.resolve().fg, pack_bgra(0xab, 0xcd, 0xef, 255));
    pane.observe_cursor(
        (2, 3),
        TerminalModes { show_cursor: true, ..TerminalModes::default() },
        TerminalCursorStyle { shape: TerminalCursorShape::Underline, blinking: false },
        TerminalCursorAnimation { interval_ms: 600 },
        CursorPhase::Steady,
    );
    assert_eq!((pane.cursor_row, pane.cursor_col, pane.cursor_visible), (2, 3, true));
    assert_eq!(pane.cursor_interval_ms, 600);
}

#[test]
fn opening_needs_every_parameter() {
    let whole = with(
        json(
            r#"{ "identifier": "app", "pane": "tab-a.1", "pixelW": 64.0, "pixelH": 48.5,
                 "scale": 2, "font": { "family": "Menlo", "pt": 13.0 } }"#,
        ),
        "theme",
        theme_json("dark", "#e6e6e6", "#0a0a0a", "#334455", "#0a0a0a"),
    );
    let open = parse_open(true, &whole).expect("opens");
    assert_eq!((open.identifier.as_str(), open.pane.as_str()), ("app", "tab-a.1"));
    assert_eq!(open.family, "Menlo");
    assert_eq!(open.theme.base.bg, pack_bgra(0x0a, 0x0a, 0x0a, 255));
    assert_eq!(parse_open(false, &whole).unwrap_err().code, "NOT_FOUND");
    for key in ["identifier", "pane", "pixelW", "pixelH", "scale", "font", "theme"] {
        let mut partial = whole.clone();
        partial.as_object_mut().unwrap().remove(key);
        let error = parse_open(true, &partial).unwrap_err();
        assert_eq!(error.code, "INVALID_PARAMS", "{key}");
    }
    for (key, bad) in [("pixelW", "0"), ("pixelH", "-1.5"), ("scale", "\"2\"")] {
        let error = parse_open(true, &with(whole.clone(), key, json(bad))).unwrap_err();
        assert_eq!(error.code, "INVALID_PARAMS", "{key}");
    }
}

#[test]
fn a_grid_is_counted_in_whole_cells() {
    assert_eq!(grid_for(200, 100, 16, 32), (12, 3));
    assert_eq!(grid_for(400, 300, 16, 32), (25, 9));
    assert_eq!(grid_for(5, 5, 16, 32), (1, 1));
}

#[test]
fn the_first_identifier_is_the_only_one() {
    assert_eq!(check_identifier(&None, "a"), Ok(()));
    assert_eq!(check_identifier(&Some("a".into()), "a"), Ok(()));
    let error = check_identifier(&Some("a".into()), "b").unwrap_err();
    assert_eq!(error.code, "IDENTIFIER_MISMATCH");
    assert_eq!(error.message, "this process serves a, not b");
}

#[test]
fn colors_read_back() {
    assert_eq!(parse_hex("#0A0b0C"), Some(pack_bgra(10, 11, 12, 255)));
    for bad in ["0a0b0c", "#0a0b0", "#0a0b0cd", "#0a0b0g", ""] {
        assert_eq!(parse_hex(bad), None, "{bad}");
    }
    assert_eq!(rgb_hex(TerminalRgb { r: 1, g: 171, b: 255 }), "#01abff");
    assert_eq!(packed_hex(pack_bgra(1, 171, 255, 9)), "#01abff");
    assert_eq!(parse_hex(&packed_hex(pack_bgra(1, 171, 255, 255))), Some(pack_bgra(1, 171, 255, 255)));
}

#[test]
fn a_theme_is_complete_or_refused() {
    let whole = theme_json("light", "#112233", "#445566", "#000000", "#010203");
    assert!(parse_theme(&whole).is_ok());
    for key in ["mode", "fg", "bg", "cursor", "cursorAccent", "selectionBg", "selectionFg", "ansi"] {
        let mut partial = whole.clone();
        partial.as_object_mut().unwrap().remove(key);
        assert_eq!(parse_theme(&partial).unwrap_err().code, "INVALID_PARAMS", "{key}");
    }
    assert!(parse_theme(&with(whole.clone(), "mode", Value::from("sepia"))).is_err());
    assert!(parse_theme(&with(whole, "ansi", Value::from(vec!["#010203"; 16]))).is_err());
}

#[test]
fn unknown_commands_are_refused() {
    assert_eq!(command("surface.open").unwrap(), SurfaceCommand::Open);
    assert_eq!(command("surface.selection").unwrap(), SurfaceCommand::Selection);
    assert_eq!(command("surface.dim").unwrap(), SurfaceCommand::Dim);
    assert_eq!(command("surface.hover").unwrap_err().code, "NOT_YET_SERVED");
    assert_eq!(command("surface.nothing").unwrap_err().code, "UNKNOWN_COMMAND");
}
