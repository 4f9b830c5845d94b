//! What the reports say, member by member.

use vstd::prelude::*;

use crate::cells::{
    TerminalCursorShape, TerminalCursorStyle, TerminalModes, TerminalThemeOverrides,
};
use crate::checkpoint::ArchivedCheckpoint;
use crate::crypto;
use crate::daemon::{self, LeaseView, SessionView};
use crate::delta::{self, ReplyView};
use crate::frame::{LineView, RunView};
use crate::json::{self, JsonView};
use crate::proto;
use crate::render::instances::{self, PaletteView};
use crate::render::session::{self, PaneView};
use crate::render::theme::{self, ThemeMode};
use crate::report;
use crate::runtime::registry::{self, KeyView, OutputView, StateView};
use crate::runtime::requests::{self, ArchivedOutcome, Handover};
use crate::runtime::service::{self, IncomingView};

verus! {

/// The number, the flag or the text under a name.
pub open spec fn number(value: JsonView, name: Seq<char>) -> Option<u64> {
    json::unsigned_in(json::member(value, name))
}

/// The text under a name.
pub open spec fn words(value: JsonView, name: Seq<char>) -> Option<Seq<char>> {
    json::text_in(json::member(value, name))
}

/// The flag under a name.
pub open spec fn flag(value: JsonView, name: Seq<char>) -> Option<JsonView> {
    json::member(value, name)
}

/// A reply tells its frame: every fact under its own name, and its rows in order.
pub proof fn law_reply_tells_the_frame(reply: ReplyView)
    ensures
        ({
            let told = report::reply_json(reply);
            &&& number(told, "outputSequence"@) == Some(reply.output_sequence)
            &&& number(told, "cols"@) == Some(reply.cols as u64)
            &&& number(told, "rows"@) == Some(reply.rows as u64)
            &&& json::member(told, "cursor"@) == Some(
                JsonView::Array(
                    seq![
                        JsonView::Unsigned(reply.cursor.0 as u64),
                        JsonView::Unsigned(reply.cursor.1 as u64),
                    ],
                ),
            )
            &&& flag(told, "cursorVisible"@) == Some(JsonView::Bool(reply.cursor_visible))
            &&& json::member(told, "cursorStyle"@) == Some(report::style_json(reply.cursor_style))
            &&& flag(told, "altActive"@) == Some(JsonView::Bool(reply.alt_active))
            &&& number(told, "historySize"@) == Some(reply.history_size as u64)
            &&& number(told, "offset"@) == Some(reply.offset as u64)
            &&& json::member(told, "modes"@) == Some(report::modes_json(reply.modes))
            &&& flag(told, "full"@) == Some(JsonView::Bool(reply.full))
            &&& json::member(told, "lines"@) matches Some(JsonView::Array(lines)) && lines.len()
                == reply.lines.len() && forall|i: int|
                0 <= i < lines.len() ==> #[trigger] lines[i] == report::line_json(reply.lines[i])
        }),
{
    reveal_strlit("outputSequence");
    reveal_strlit("cols");
    reveal_strlit("rows");
    reveal_strlit("cursor");
    reveal_strlit("cursorVisible");
    reveal_strlit("cursorStyle");
    reveal_strlit("cursorAnimation");
    reveal_strlit("altActive");
    reveal_strlit("historySize");
    reveal_strlit("offset");
    reveal_strlit("modes");
    reveal_strlit("full");
    reveal_strlit("lines");
    assert("cols"@[0] == 'c' && "rows"@[0] == 'r' && "full"@[0] == 'f');
    assert("cursor"@[0] == 'c' && "offset"@[0] == 'o');
    assert("cursorStyle"@[0] == 'c' && "historySize"@[0] == 'h');
    assert("modes"@[0] == 'm' && "lines"@[0] == 'l');
    assert("outputSequence"@.len() == 14 && "cursorVisible"@.len() == 13 && "altActive"@.len() == 9
        && "cursorAnimation"@.len() == 15 && "cols"@.len() == 4 && "rows"@.len() == 4
        && "full"@.len() == 4 && "cursor"@.len() == 6 && "offset"@.len() == 6
        && "cursorStyle"@.len() == 11 && "historySize"@.len() == 11 && "modes"@.len() == 5
        && "lines"@.len() == 5);
}

/// A reported row tells its number, whether it wraps, and its runs in order; a run tells its text,
/// its colors, its attributes and its columns, that it is wide only where it is, and its link only
/// where it has one.
pub proof fn law_line_tells_its_runs(line: LineView, run: RunView)
    ensures
        ({
            let told = report::line_json(line);
            &&& number(told, "y"@) == Some(line.y as u64)
            &&& flag(told, "wrapped"@) == Some(JsonView::Bool(line.wrapped))
            &&& json::member(told, "runs"@) matches Some(JsonView::Array(runs)) && runs.len()
                == line.runs.len() && forall|i: int|
                0 <= i < runs.len() ==> #[trigger] runs[i] == report::run_json(line.runs[i])
        }),
        ({
            let told = report::run_json(run);
            &&& words(told, "text"@) == Some(run.text)
            &&& words(told, "fg"@) == Some(run.fg)
            &&& words(told, "bg"@) == Some(run.bg)
            &&& number(told, "attrs"@) == Some(run.attrs as u64)
            &&& number(told, "n"@) == Some(run.n as u64)
            &&& flag(told, "wide"@) == if run.wide {
                Some(JsonView::Bool(true))
            } else {
                None
            }
            &&& words(told, "link"@) == run.link
        }),
{
    reveal_strlit("y");
    reveal_strlit("wrapped");
    reveal_strlit("runs");
    reveal_strlit("text");
    reveal_strlit("fg");
    reveal_strlit("bg");
    reveal_strlit("attrs");
    reveal_strlit("n");
    reveal_strlit("wide");
    reveal_strlit("link");
    assert("y"@.len() == 1 && "wrapped"@.len() == 7 && "runs"@.len() == 4);
    assert("text"@.len() == 4 && "fg"@.len() == 2 && "bg"@.len() == 2 && "attrs"@.len() == 5
        && "n"@.len() == 1 && "wide"@.len() == 4 && "link"@.len() == 4);
    assert("text"@[0] == 't' && "wide"@[0] == 'w' && "link"@[0] == 'l');
    assert("fg"@[0] == 'f' && "bg"@[0] == 'b');
}

/// A reported cursor style tells its shape and whether it blinks.
pub proof fn law_style_tells_the_cursor(style: TerminalCursorStyle)
    ensures
        ({
            let told = report::style_json(style);
            &&& flag(told, "blinking"@) == Some(JsonView::Bool(style.blinking))
            &&& words(told, "shape"@) == Some(
                match style.shape {
                    TerminalCursorShape::Block => "block"@,
                    TerminalCursorShape::Underline => "underline"@,
                    TerminalCursorShape::Bar => "bar"@,
                },
            )
        }),
{
    reveal_strlit("shape");
    reveal_strlit("blinking");
    assert("shape"@.len() == 5 && "blinking"@.len() == 8);
}

/// What tells the names of modes apart: their length and their fourth character.
#[verifier::opaque]
spec fn tag(name: Seq<char>) -> (nat, char) {
    (name.len(), name[3])
}

proof fn lemma_first_mode_names()
    ensures
        tag("bracketedPaste"@) == (14nat, 'c'),
        tag("appCursor"@) == (9nat, 'C'),
        tag("appKeypad"@) == (9nat, 'K'),
        tag("mouseX10"@) == (8nat, 's'),
        tag("mouseHighlight"@) == (14nat, 's'),
{
    reveal(tag);
    reveal_strlit("bracketedPaste");
    reveal_strlit("appCursor");
    reveal_strlit("appKeypad");
    reveal_strlit("mouseX10");
    reveal_strlit("mouseHighlight");
}

proof fn lemma_more_mode_names()
    ensures
        tag("mouseClick"@) == (10nat, 's'),
        tag("mouseDrag"@) == (9nat, 's'),
        tag("mouseMotion"@) == (11nat, 's'),
        tag("sgrMouse"@) == (8nat, 'M'),
        tag("utf8Mouse"@) == (9nat, '8'),
{
    reveal(tag);
    reveal_strlit("mouseClick");
    reveal_strlit("mouseDrag");
    reveal_strlit("mouseMotion");
    reveal_strlit("sgrMouse");
    reveal_strlit("utf8Mouse");
}

proof fn lemma_last_mode_names()
    ensures
        tag("focusInOut"@) == (10nat, 'u'),
        tag("alternateScroll"@) == (15nat, 'e'),
        tag("showCursor"@) == (10nat, 'w'),
        tag("lineWrap"@) == (8nat, 'e'),
        tag("insert"@) == (6nat, 'e'),
{
    reveal(tag);
    reveal_strlit("focusInOut");
    reveal_strlit("alternateScroll");
    reveal_strlit("showCursor");
    reveal_strlit("lineWrap");
    reveal_strlit("insert");
}

proof fn lemma_mode_names()
    ensures
        tag("bracketedPaste"@) == (14nat, 'c'),
        tag("appCursor"@) == (9nat, 'C'),
        tag("appKeypad"@) == (9nat, 'K'),
        tag("mouseX10"@) == (8nat, 's'),
        tag("mouseHighlight"@) == (14nat, 's'),
        tag("mouseClick"@) == (10nat, 's'),
        tag("mouseDrag"@) == (9nat, 's'),
        tag("mouseMotion"@) == (11nat, 's'),
        tag("sgrMouse"@) == (8nat, 'M'),
        tag("utf8Mouse"@) == (9nat, '8'),
        tag("focusInOut"@) == (10nat, 'u'),
        tag("alternateScroll"@) == (15nat, 'e'),
        tag("showCursor"@) == (10nat, 'w'),
        tag("lineWrap"@) == (8nat, 'e'),
        tag("insert"@) == (6nat, 'e'),
{
    lemma_first_mode_names();
    lemma_more_mode_names();
    lemma_last_mode_names();
}

/// Reported modes tell the mouse modes under their own names.
#[verifier::spinoff_prover]
#[verifier::rlimit(40)]
pub proof fn law_mouse_modes_are_told_apart(modes: TerminalModes)
    ensures
        ({
            let told = report::modes_json(modes);
            &&& flag(told, "mouseX10"@) == Some(JsonView::Bool(modes.mouse_x10))
            &&& flag(told, "mouseHighlight"@) == Some(JsonView::Bool(modes.mouse_highlight))
            &&& flag(told, "mouseClick"@) == Some(JsonView::Bool(modes.mouse_click))
            &&& flag(told, "mouseDrag"@) == Some(JsonView::Bool(modes.mouse_drag))
            &&& flag(told, "mouseMotion"@) == Some(JsonView::Bool(modes.mouse_motion))
        }),
{
    lemma_mode_names();
}

/// Reported modes tell the paste and focus modes under their own names.
#[verifier::spinoff_prover]
#[verifier::rlimit(40)]
pub proof fn law_paste_and_focus_are_told_apart(modes: TerminalModes)
    ensures
        ({
            let told = report::modes_json(modes);
            &&& flag(told, "bracketedPaste"@) == Some(JsonView::Bool(modes.bracketed_paste))
            &&& flag(told, "focusInOut"@) == Some(JsonView::Bool(modes.focus_in_out))
        }),
{
    lemma_mode_names();
    assert("bracketedPaste"@ != "appCursor"@);
    assert("bracketedPaste"@ != "appKeypad"@);
    assert("bracketedPaste"@ != "mouseX10"@);
    assert("bracketedPaste"@ != "mouseHighlight"@);
    assert("bracketedPaste"@ != "mouseClick"@);
    assert("bracketedPaste"@ != "mouseDrag"@);
    assert("bracketedPaste"@ != "mouseMotion"@);
    assert("bracketedPaste"@ != "sgrMouse"@);
    assert("bracketedPaste"@ != "utf8Mouse"@);
    assert("bracketedPaste"@ != "focusInOut"@);
    assert("bracketedPaste"@ != "alternateScroll"@);
    assert("bracketedPaste"@ != "showCursor"@);
    assert("bracketedPaste"@ != "lineWrap"@);
    assert("bracketedPaste"@ != "insert"@);
    assert("focusInOut"@ != "alternateScroll"@);
    assert("focusInOut"@ != "showCursor"@);
    assert("focusInOut"@ != "lineWrap"@);
    assert("focusInOut"@ != "insert"@);
}

/// Reported modes tell the key modes under their own names.
#[verifier::spinoff_prover]
#[verifier::rlimit(40)]
pub proof fn law_key_modes_are_told_apart(modes: TerminalModes)
    ensures
        ({
            let told = report::modes_json(modes);
            &&& flag(told, "appCursor"@) == Some(JsonView::Bool(modes.app_cursor))
            &&& flag(told, "appKeypad"@) == Some(JsonView::Bool(modes.app_keypad))
        }),
{
    lemma_mode_names();
    assert("appCursor"@ != "appKeypad"@);
    assert("appCursor"@ != "mouseX10"@);
    assert("appCursor"@ != "mouseHighlight"@);
    assert("appCursor"@ != "mouseClick"@);
    assert("appCursor"@ != "mouseDrag"@);
    assert("appCursor"@ != "mouseMotion"@);
    assert("appCursor"@ != "sgrMouse"@);
    assert("appCursor"@ != "utf8Mouse"@);
    assert("appCursor"@ != "focusInOut"@);
    assert("appCursor"@ != "alternateScroll"@);
    assert("appCursor"@ != "showCursor"@);
    assert("appCursor"@ != "lineWrap"@);
    assert("appCursor"@ != "insert"@);
    assert("appKeypad"@ != "mouseX10"@);
    assert("appKeypad"@ != "mouseHighlight"@);
    assert("appKeypad"@ != "mouseClick"@);
    assert("appKeypad"@ != "mouseDrag"@);
    assert("appKeypad"@ != "mouseMotion"@);
    assert("appKeypad"@ != "sgrMouse"@);
    assert("appKeypad"@ != "utf8Mouse"@);
    assert("appKeypad"@ != "focusInOut"@);
    assert("appKeypad"@ != "alternateScroll"@);
    assert("appKeypad"@ != "showCursor"@);
    assert("appKeypad"@ != "lineWrap"@);
    assert("appKeypad"@ != "insert"@);
}

/// Reported modes tell the encodings of the mouse and the wheel under their own names.
#[verifier::spinoff_prover]
#[verifier::rlimit(40)]
pub proof fn law_encodings_are_told_apart(modes: TerminalModes)
    ensures
        ({
            let told = report::modes_json(modes);
            &&& flag(told, "sgrMouse"@) == Some(JsonView::Bool(modes.sgr_mouse))
            &&& flag(told, "utf8Mouse"@) == Some(JsonView::Bool(modes.utf8_mouse))
            &&& flag(told, "alternateScroll"@) == Some(JsonView::Bool(modes.alternate_scroll))
        }),
{
    lemma_mode_names();
}

/// Reported modes tell the modes of the screen under their own names.
#[verifier::spinoff_prover]
#[verifier::rlimit(40)]
pub proof fn law_screen_modes_are_told_apart(modes: TerminalModes)
    ensures
        ({
            let told = report::modes_json(modes);
            &&& flag(told, "showCursor"@) == Some(JsonView::Bool(modes.show_cursor))
            &&& flag(told, "lineWrap"@) == Some(JsonView::Bool(modes.line_wrap))
            &&& flag(told, "insert"@) == Some(JsonView::Bool(modes.insert))
        }),
{
    lemma_mode_names();
}

/// A reported session tells every fact under its own name, and the last output with its source range,
/// its length and its digest.
pub proof fn law_status_tells_the_session(state: StateView, output: OutputView)
    requires
        state.last_output == Some(output),
    ensures
        ({
            let told = registry::session_json(state);
            &&& number(told, "session"@) == Some(state.session)
            &&& number(told, "generation"@) == Some(state.generation)
            &&& words(told, "window"@) == state.key.window
            &&& words(told, "pane"@) == Some(state.key.pane)
            &&& number(told, "eventSequence"@) == Some(state.source_event_sequence)
            &&& number(told, "cols"@) == Some(state.cols as u64)
            &&& number(told, "rows"@) == Some(state.rows as u64)
            &&& number(told, "outputSequence"@) == Some(state.source_output_sequence)
            &&& number(told, "gaps"@) == Some(state.gaps)
            &&& flag(told, "altActive"@) == Some(JsonView::Bool(state.alt_active))
            &&& number(told, "suppressedReplies"@) == Some(state.suppressed_replies)
            &&& number(told, "observedBytes"@) == Some(state.observed_bytes)
            &&& json::member(told, "lastOutput"@) matches Some(last)
            &&& number(last, "fromSequence"@) == Some(output.from_sequence)
            &&& number(last, "throughSequence"@) == Some(output.through_sequence)
            &&& number(last, "bytes"@) == Some(output.bytes)
            &&& words(last, "sha256"@) == Some(output.sha256)
        }),
{
    reveal_strlit("session");
    reveal_strlit("generation");
    reveal_strlit("window");
    reveal_strlit("pane");
    reveal_strlit("eventSequence");
    reveal_strlit("cols");
    reveal_strlit("rows");
    reveal_strlit("outputSequence");
    reveal_strlit("gaps");
    reveal_strlit("altActive");
    reveal_strlit("suppressedReplies");
    reveal_strlit("observedBytes");
    reveal_strlit("lastOutput");
    reveal_strlit("fromSequence");
    reveal_strlit("throughSequence");
    reveal_strlit("bytes");
    reveal_strlit("sha256");
    assert("generation"@.len() == 10 && "lastOutput"@.len() == 10 && "generation"@[0] == 'g'
        && "lastOutput"@[0] == 'l');
    assert("pane"@.len() == 4 && "cols"@.len() == 4 && "rows"@.len() == 4 && "gaps"@.len() == 4
        && "pane"@[0] == 'p' && "cols"@[0] == 'c' && "rows"@[0] == 'r' && "gaps"@[0] == 'g');
    assert("eventSequence"@.len() == 13 && "observedBytes"@.len() == 13 && "eventSequence"@[0] == 'e'
        && "observedBytes"@[0] == 'o');
    assert("session"@.len() == 7 && "window"@.len() == 6 && "outputSequence"@.len() == 14
        && "altActive"@.len() == 9 && "suppressedReplies"@.len() == 17);
    assert("fromSequence"@.len() == 12 && "throughSequence"@.len() == 15 && "bytes"@.len() == 5
        && "sha256"@.len() == 6);
}

/// The answer of a handover tells the paint, the position it is of, the session it belongs to and the
/// lease that continues it.
pub proof fn law_handover_tells_its_position(
    plan: Handover,
    paint: Seq<u8>,
    frame: ReplyView,
    sequence: u64,
    alt_active: bool,
    lease: LeaseView,
)
    ensures
        ({
            let answer = requests::handover_answer(plan, paint, frame, sequence, alt_active, lease);
            &&& json::member(answer, "data"@) matches Some(told)
            &&& words(told, "paint"@) == Some(crypto::base64_text(paint))
            &&& json::member(told, "frame"@) == Some(report::reply_json(frame))
            &&& number(told, "uptoSeq"@) == Some(sequence)
            &&& number(told, "eventSequence"@) == Some(plan.event_sequence)
            &&& number(told, "generation"@) == Some(plan.generation)
            &&& flag(told, "altActive"@) == Some(JsonView::Bool(alt_active))
            &&& words(told, "leaseToken"@) == Some(lease.token)
            &&& json::signed_in(json::member(told, "leaseExpiresAtMs"@)) == Some(
                lease.expires_at_ms,
            )
        }),
{
    reveal_strlit("paint");
    reveal_strlit("frame");
    reveal_strlit("uptoSeq");
    reveal_strlit("eventSequence");
    reveal_strlit("generation");
    reveal_strlit("altActive");
    reveal_strlit("leaseToken");
    reveal_strlit("leaseExpiresAtMs");
    reveal_strlit("ok");
    reveal_strlit("code");
    reveal_strlit("data");
    assert("paint"@.len() == 5 && "frame"@.len() == 5 && "paint"@[0] == 'p' && "frame"@[0] == 'f');
    assert("generation"@.len() == 10 && "leaseToken"@.len() == 10 && "generation"@[0] == 'g'
        && "leaseToken"@[0] == 'l');
    assert("uptoSeq"@.len() == 7 && "eventSequence"@.len() == 13 && "altActive"@.len() == 9
        && "leaseExpiresAtMs"@.len() == 16);
    assert("ok"@.len() == 2 && "code"@.len() == 4 && "data"@.len() == 4 && "code"@[0] == 'c'
        && "data"@[0] == 'd');
}

/// A theme that is taken in has every color under its own name, as the text there spells it.
pub proof fn law_declared_colors_keep_their_names(declared: JsonView)
    ensures
        theme::theme_in(declared) matches Ok(taken) ==> {
            let palette: PaletteView = taken.palette;
            &&& words(declared, "fg"@) matches Some(text) && theme::hex_color(text) == Some(
                palette.fg,
            )
            &&& words(declared, "bg"@) matches Some(text) && theme::hex_color(text) == Some(
                palette.bg,
            )
            &&& words(declared, "cursor"@) matches Some(text) && theme::hex_color(text) == Some(
                palette.cursor,
            )
            &&& words(declared, "cursorAccent"@) matches Some(text) && theme::hex_color(text)
                == Some(palette.cursor_accent)
            &&& words(declared, "selectionBg"@) matches Some(text) && theme::hex_color(text)
                == Some(palette.selection_bg)
            &&& words(declared, "selectionFg"@) matches Some(text) && theme::hex_color(text)
                == Some(palette.selection_fg)
        },
{
}

/// A reported theme tells every color under its own name.
pub proof fn law_reported_colors_keep_their_names(palette: PaletteView)
    ensures
        ({
            let told = theme::palette_json(palette);
            &&& words(told, "foreground"@) == Some(theme::packed_text(palette.fg))
            &&& words(told, "background"@) == Some(theme::packed_text(palette.bg))
            &&& words(told, "cursor"@) == Some(theme::packed_text(palette.cursor))
            &&& words(told, "cursorAccent"@) == Some(theme::packed_text(palette.cursor_accent))
            &&& words(told, "selectionBackground"@) == Some(
                theme::packed_text(palette.selection_bg),
            )
            &&& words(told, "selectionForeground"@) == Some(
                theme::packed_text(palette.selection_fg),
            )
            &&& json::member(told, "ansi"@) matches Some(JsonView::Array(colors)) && colors.len()
                == 256 && forall|i: int|
                0 <= i < 256 ==> #[trigger] colors[i] == JsonView::Text(
                    theme::packed_text(palette.ansi[i]),
                )
        }),
{
    reveal_strlit("foreground");
    reveal_strlit("background");
    reveal_strlit("cursor");
    reveal_strlit("cursorAccent");
    reveal_strlit("selectionBackground");
    reveal_strlit("selectionForeground");
    reveal_strlit("ansi");
    assert("foreground"@.len() == 10 && "background"@.len() == 10 && "foreground"@[0] == 'f'
        && "background"@[0] == 'b');
    assert("selectionBackground"@.len() == 19 && "selectionForeground"@.len() == 19
        && "selectionBackground"@[9] == 'B' && "selectionForeground"@[9] == 'F');
    assert("cursor"@.len() == 6 && "cursorAccent"@.len() == 12 && "ansi"@.len() == 4);
}

/// What the PTY sidecar lists, leases and starts is taken in under its own names, or not at all.
pub proof fn law_answers_are_taken_in_by_name(data: JsonView)
    ensures
        daemon::session_in(data) matches Some(session) ==> {
            &&& number(data, "session"@) == Some(session.session)
            &&& number(data, "generation"@) == Some(session.generation)
            &&& words(data, "paneId"@) == Some(session.pane_id)
            &&& words(data, "windowLabel"@) == session.window_label
        },
        daemon::session_in(data) is None ==> number(data, "session"@) is None || number(
            data,
            "generation"@,
        ) is None || words(data, "paneId"@) is None,
        daemon::lease_in(data) matches Ok(lease) ==> {
            &&& words(data, "token"@) == Some(lease.token)
            &&& number(data, "session"@) == Some(lease.session)
            &&& number(data, "afterSequence"@) == Some(lease.after_sequence)
            &&& json::signed_in(json::member(data, "expiresAtMs"@)) == Some(lease.expires_at_ms)
        },
        daemon::observation_start_in(data) matches Ok(start) ==> {
            &&& number(data, "session"@) == Some(start.session)
            &&& number(data, "generation"@) == Some(start.generation)
            &&& number(data, "startEventSequence"@) == Some(start.start_event_sequence)
            &&& number(data, "startOutputSequence"@) == Some(start.start_output_sequence)
        },
        daemon::live_start_in(data) matches Ok(start) ==> {
            &&& number(data, "session"@) == Some(start.session)
            &&& number(data, "startSeq"@) == Some(start.start_sequence)
        },
{
}

/// A lease is asked for the session and from the sequence it is to continue at.
pub proof fn law_lease_is_asked_for_its_sequence(session: u64, after_sequence: u64)
    ensures
        number(daemon::lease_request_json(session, after_sequence), "session"@) == Some(session),
        number(daemon::lease_request_json(session, after_sequence), "afterSequence"@) == Some(
            after_sequence,
        ),
{
    reveal_strlit("session");
    reveal_strlit("afterSequence");
    assert("session"@.len() == 7 && "afterSequence"@.len() == 13);
}

/// A frame request is taken in by its names: its pane and window, its subscriber, the offset or none,
/// and the sequence it waits for. A subscriber's name is of lower-case letters, digits and `._#-`.
pub proof fn law_frame_request_is_taken_in_by_name(request: JsonView, at: int)
    ensures
        requests::frame_wanted(request) matches Ok(wanted) ==> {
            &&& words(request, "pane"@) == Some(wanted.key.pane)
            &&& words(request, "window"@) == wanted.key.window
            &&& words(request, "subscriber"@) == Some(wanted.subscriber)
            &&& number(request, "afterSequence"@) == wanted.after
            &&& wanted.offset == match number(request, "offset"@) {
                Some(offset) => offset,
                None => 0,
            }
            &&& 1 <= wanted.subscriber.len() <= 64
            &&& 0 <= at < wanted.subscriber.len() ==> {
                let c = wanted.subscriber[at];
                'a' <= c <= 'z' || '0' <= c <= '9' || c == '.' || c == '_' || c == '#' || c == '-'
            }
        },
{
}

/// What tells the names of a pane's report apart: their length and two of their characters.
#[verifier::opaque]
spec fn pane_tag(name: Seq<char>) -> (nat, char, char) {
    (name.len(), name[0], name[2])
}

proof fn lemma_first_pane_names()
    ensures
        pane_tag("pane"@) == (4nat, 'p', 'n'),
        pane_tag("paints"@) == (6nat, 'p', 'i'),
        pane_tag("sends"@) == (5nat, 's', 'n'),
        pane_tag("acquireMisses"@) == (13nat, 'a', 'q'),
        pane_tag("lastError"@) == (9nat, 'l', 's'),
        pane_tag("signalSequence"@) == (14nat, 's', 'g'),
        pane_tag("paused"@) == (6nat, 'p', 'u'),
{
    reveal(pane_tag);
    reveal_strlit("pane");
    reveal_strlit("paints");
    reveal_strlit("sends");
    reveal_strlit("acquireMisses");
    reveal_strlit("lastError");
    reveal_strlit("signalSequence");
    reveal_strlit("paused");
}

proof fn lemma_more_pane_names()
    ensures
        pane_tag("stopped"@) == (7nat, 's', 'o'),
        pane_tag("cursorRow"@) == (9nat, 'c', 'r'),
        pane_tag("cursorColumn"@) == (12nat, 'c', 'r'),
        pane_tag("cursorVisible"@) == (13nat, 'c', 'r'),
        pane_tag("cursorShape"@) == (11nat, 'c', 'r'),
        pane_tag("cursorBlinking"@) == (14nat, 'c', 'r'),
        pane_tag("cursorAnimation"@) == (15nat, 'c', 'r'),
{
    reveal(pane_tag);
    reveal_strlit("stopped");
    reveal_strlit("cursorRow");
    reveal_strlit("cursorColumn");
    reveal_strlit("cursorVisible");
    reveal_strlit("cursorShape");
    reveal_strlit("cursorBlinking");
    reveal_strlit("cursorAnimation");
}

proof fn lemma_last_pane_names()
    ensures
        pane_tag("modes"@) == (5nat, 'm', 'd'),
        pane_tag("themeMode"@) == (9nat, 't', 'e'),
        pane_tag("baseTheme"@) == (9nat, 'b', 's'),
        pane_tag("terminalOverrides"@) == (17nat, 't', 'r'),
        pane_tag("effectiveTheme"@) == (14nat, 'e', 'f'),
        pane_tag("selection"@) == (9nat, 's', 'l'),
        pane_tag("dim"@) == (3nat, 'd', 'm'),
{
    reveal(pane_tag);
    reveal_strlit("modes");
    reveal_strlit("themeMode");
    reveal_strlit("baseTheme");
    reveal_strlit("terminalOverrides");
    reveal_strlit("effectiveTheme");
    reveal_strlit("selection");
    reveal_strlit("dim");
}

/// The report of a pane tells its cursor.
#[verifier::spinoff_prover]
#[verifier::rlimit(40)]
pub proof fn law_pane_tells_its_cursor(
    pane: PaneView,
    signal_sequence: u64,
    selection: JsonView,
    dim: JsonView,
)
    ensures
        ({
            let told = session::pane_json(pane, signal_sequence, selection, dim);
            &&& number(told, "cursorRow"@) == Some(pane.cursor_row as u64)
            &&& number(told, "cursorColumn"@) == Some(pane.cursor_col as u64)
            &&& flag(told, "cursorVisible"@) == Some(JsonView::Bool(pane.cursor_visible))
            &&& flag(told, "cursorBlinking"@) == Some(JsonView::Bool(pane.cursor_style.blinking))
        }),
{
    lemma_first_pane_names();
    lemma_more_pane_names();
    lemma_last_pane_names();
    assert("cursorRow"@ != "cursorColumn"@);
    assert("cursorRow"@ != "cursorVisible"@);
    assert("cursorRow"@ != "cursorShape"@);
    assert("cursorRow"@ != "cursorBlinking"@);
    assert("cursorRow"@ != "cursorAnimation"@);
    assert("cursorRow"@ != "modes"@);
    assert("cursorRow"@ != "themeMode"@);
    assert("cursorRow"@ != "baseTheme"@);
    assert("cursorRow"@ != "terminalOverrides"@);
    assert("cursorRow"@ != "effectiveTheme"@);
    assert("cursorRow"@ != "selection"@);
    assert("cursorRow"@ != "dim"@);
    assert("cursorColumn"@ != "cursorVisible"@);
    assert("cursorColumn"@ != "cursorShape"@);
    assert("cursorColumn"@ != "cursorBlinking"@);
    assert("cursorColumn"@ != "cursorAnimation"@);
    assert("cursorColumn"@ != "modes"@);
    assert("cursorColumn"@ != "themeMode"@);
    assert("cursorColumn"@ != "baseTheme"@);
    assert("cursorColumn"@ != "terminalOverrides"@);
    assert("cursorColumn"@ != "effectiveTheme"@);
    assert("cursorColumn"@ != "selection"@);
    assert("cursorColumn"@ != "dim"@);
    assert("cursorVisible"@ != "cursorShape"@);
    assert("cursorVisible"@ != "cursorBlinking"@);
    assert("cursorVisible"@ != "cursorAnimation"@);
    assert("cursorVisible"@ != "modes"@);
    assert("cursorVisible"@ != "themeMode"@);
    assert("cursorVisible"@ != "baseTheme"@);
    assert("cursorVisible"@ != "terminalOverrides"@);
    assert("cursorVisible"@ != "effectiveTheme"@);
    assert("cursorVisible"@ != "selection"@);
    assert("cursorVisible"@ != "dim"@);
    assert("cursorBlinking"@ != "cursorAnimation"@);
    assert("cursorBlinking"@ != "modes"@);
    assert("cursorBlinking"@ != "themeMode"@);
    assert("cursorBlinking"@ != "baseTheme"@);
    assert("cursorBlinking"@ != "terminalOverrides"@);
    assert("cursorBlinking"@ != "effectiveTheme"@);
    assert("cursorBlinking"@ != "selection"@);
    assert("cursorBlinking"@ != "dim"@);
}

/// The report of a pane tells its modes, its theme with and without the terminal's colors, its
/// selection and its dim.
#[verifier::spinoff_prover]
#[verifier::rlimit(40)]
pub proof fn law_pane_tells_its_theme(
    pane: PaneView,
    signal_sequence: u64,
    selection: JsonView,
    dim: JsonView,
)
    ensures
        ({
            let told = session::pane_json(pane, signal_sequence, selection, dim);
            &&& json::member(told, "modes"@) == Some(report::modes_json(pane.modes))
            &&& words(told, "themeMode"@) == Some(theme::mode_name(pane.theme.mode))
            &&& json::member(told, "baseTheme"@) == Some(theme::palette_json(pane.theme.base))
            &&& json::member(told, "terminalOverrides"@) == Some(
                theme::override_json(pane.theme.overrides),
            )
            &&& json::member(told, "effectiveTheme"@) == Some(
                theme::palette_json(instances::resolved(pane.theme.base, pane.theme.overrides)),
            )
            &&& json::member(told, "selection"@) == Some(selection)
            &&& json::member(told, "dim"@) == Some(dim)
        }),
{
    lemma_first_pane_names();
    lemma_more_pane_names();
    lemma_last_pane_names();
    assert("modes"@ != "themeMode"@);
    assert("modes"@ != "baseTheme"@);
    assert("modes"@ != "terminalOverrides"@);
    assert("modes"@ != "effectiveTheme"@);
    assert("modes"@ != "selection"@);
    assert("modes"@ != "dim"@);
    assert("themeMode"@ != "baseTheme"@);
    assert("themeMode"@ != "terminalOverrides"@);
    assert("themeMode"@ != "effectiveTheme"@);
    assert("themeMode"@ != "selection"@);
    assert("themeMode"@ != "dim"@);
    assert("baseTheme"@ != "terminalOverrides"@);
    assert("baseTheme"@ != "effectiveTheme"@);
    assert("baseTheme"@ != "selection"@);
    assert("baseTheme"@ != "dim"@);
    assert("terminalOverrides"@ != "effectiveTheme"@);
    assert("terminalOverrides"@ != "selection"@);
    assert("terminalOverrides"@ != "dim"@);
    assert("effectiveTheme"@ != "selection"@);
    assert("effectiveTheme"@ != "dim"@);
    assert("selection"@ != "dim"@);
}

/// The mode of a theme is taken in under the name it is reported by.
pub proof fn law_theme_mode_keeps_its_name(declared: JsonView, mode: ThemeMode)
    ensures
        words(declared, "mode"@) == Some(theme::mode_name(mode)) ==> theme::mode_in(declared) == Some(
            mode,
        ),
        theme::mode_in(declared) == Some(mode) ==> words(declared, "mode"@) == Some(
            theme::mode_name(mode),
        ),
        theme::mode_name(ThemeMode::Light) == "light"@,
        theme::mode_name(ThemeMode::Dark) == "dark"@,
{
    reveal_strlit("light");
    reveal_strlit("dark");
    assert("light"@.len() == 5 && "dark"@.len() == 4);
}

/// A service accepts the greeting that carries its own token, and no greeting with another one; and a
/// greeted service is asked for exactly the command and the request that were sent.
#[verifier::spinoff_prover]
pub proof fn law_greeting_and_request_arrive(
    id: Seq<char>,
    token: Seq<char>,
    other: Seq<char>,
    command: Seq<char>,
    request: JsonView,
    identity: Seq<char>,
    label: Option<Seq<char>>,
)
    requires
        other != token,
        command != "system.hello"@,
    ensures
        service::greets(proto::greeting(id, token), token),
        !service::greets(proto::greeting(id, other), token),
        service::called_for(
            proto::enveloped(id, command, request),
            true,
            token,
            identity,
            label,
        ) == (IncomingView::Command { id, command, request }),
{
    reveal_strlit("id");
    reveal_strlit("command");
    reveal_strlit("args");
    reveal_strlit("protocol");
    reveal_strlit("token");
    assert("id"@.len() == 2 && "command"@.len() == 7 && "args"@.len() == 4 && "protocol"@.len() == 8
        && "token"@.len() == 5);
}

/// An archived checkpoint is answered with its paint, its frame as a whole, and its position.
pub proof fn law_archive_tells_its_position(checkpoint: ArchivedCheckpoint)
    ensures
        ({
            let answer = requests::archived_answer(ArchivedOutcome::Found(checkpoint));
            &&& json::member(answer, "data"@) matches Some(told)
            &&& words(told, "paint"@) == Some(crypto::base64_text(checkpoint.paint@))
            &&& number(told, "generation"@) == Some(checkpoint.generation)
            &&& number(told, "uptoSeq"@) == Some(checkpoint.sequence)
            &&& json::member(told, "frame"@) == Some(
                report::reply_json(delta::full_reply(checkpoint.frame@, checkpoint.sequence)),
            )
        }),
{
    reveal_strlit("paint");
    reveal_strlit("frame");
    reveal_strlit("generation");
    reveal_strlit("uptoSeq");
    reveal_strlit("ok");
    reveal_strlit("code");
    reveal_strlit("data");
    assert("paint"@[0] == 'p' && "frame"@[0] == 'f' && "paint"@.len() == 5 && "frame"@.len() == 5
        && "generation"@.len() == 10 && "uptoSeq"@.len() == 7);
    assert("ok"@.len() == 2 && "code"@.len() == 4 && "data"@.len() == 4 && "code"@[0] == 'c'
        && "data"@[0] == 'd');
}

/// The terminal's own colors are reported under their names, and a color it did not set as none.
pub proof fn law_own_colors_keep_their_names(overrides: TerminalThemeOverrides)
    ensures
        ({
            let told = theme::override_json(overrides);
            &&& json::member(told, "foreground"@) == Some(
                theme::optional_color_json(overrides.foreground),
            )
            &&& json::member(told, "background"@) == Some(
                theme::optional_color_json(overrides.background),
            )
            &&& json::member(told, "cursor"@) == Some(theme::optional_color_json(overrides.cursor))
            &&& theme::optional_color_json(None) == JsonView::Null
        }),
{
    reveal_strlit("foreground");
    reveal_strlit("background");
    reveal_strlit("cursor");
    reveal_strlit("ansi");
    assert("foreground"@.len() == 10 && "background"@.len() == 10 && "foreground"@[0] == 'f'
        && "background"@[0] == 'b' && "cursor"@.len() == 6 && "ansi"@.len() == 4);
}

/// The session of a pane is the first one listed for it, and every session that is listed as one is
/// taken in, in order.
pub proof fn law_first_listed_session_is_taken(
    sessions: Seq<SessionView>,
    key: KeyView,
    from: int,
    values: Seq<JsonView>,
    value: JsonView,
)
    requires
        0 <= from <= sessions.len(),
    ensures
        ({
            let at = requests::first_of(sessions, key, from);
            &&& from <= at <= sessions.len()
            &&& at < sessions.len() ==> sessions[at].pane_id == key.pane && sessions[at].window_label
                == key.window
            &&& forall|i: int|
                from <= i < at ==> (#[trigger] sessions[i]).pane_id != key.pane
                    || sessions[i].window_label != key.window
        }),
        daemon::sessions_in(values.push(value)) == match daemon::session_in(value) {
            Some(session) => daemon::sessions_in(values) + seq![session],
            None => daemon::sessions_in(values),
        },
    decreases sessions.len() - from,
{
    if from < sessions.len() && registry::key_of(sessions[from]) != key {
        law_first_listed_session_is_taken(sessions, key, from + 1, values, value);
    }
    assert(values.push(value).drop_last() =~= values);
    if let Some(session) = daemon::session_in(value) {
        assert(daemon::sessions_in(values).push(session) =~= daemon::sessions_in(values) + seq![
            session,
        ]);
    }
}

/// A size is taken in as it is asked for, at least one and in sixteen bits where it has to be exact.
pub proof fn law_size_is_taken_in(request: JsonView, name: Seq<char>, default: u64)
    ensures
        requests::exact_size(request, name) matches Some(n) ==> 0 < n <= 0xffff && number(
            request,
            name,
        ) == Some(n),
        number(request, name) matches Some(n) && 0 < n <= 0xffff ==> requests::exact_size(
            request,
            name,
        ) == number(request, name) && requests::size_in(request, name, default) == number(
            request,
            name,
        )->0,
        number(request, name) == Some(0u64) ==> requests::size_in(request, name, default) == 1
            && requests::exact_size(request, name) is None,
        number(request, name) is None && 0 < default <= 0xffff ==> requests::size_in(
            request,
            name,
            default,
        ) == default,
{
}

/// The value of a hexadecimal digit of either case.
pub open spec fn nibble(c: char) -> int {
    if '0' <= c <= '9' {
        c as int - '0' as int
    } else if 'a' <= c <= 'f' {
        c as int - 'a' as int + 10
    } else {
        c as int - 'A' as int + 10
    }
}

/// Whether a character is a hexadecimal digit.
pub open spec fn hexadecimal(c: char) -> bool {
    '0' <= c <= '9' || 'a' <= c <= 'f' || 'A' <= c <= 'F'
}

proof fn lemma_nibble(c: char)
    requires
        hexadecimal(c),
    ensures
        theme::hex_value(c) == Some(nibble(c) as nat),
        0 <= nibble(c) < 16,
{
}

proof fn lemma_one_more(digits: Seq<char>, high: nat, c: char)
    requires
        hexadecimal(c),
        theme::hex_number(digits) == Some(high),
    ensures
        theme::hex_number(digits.push(c)) == Some((high * 16 + nibble(c)) as nat),
{
    lemma_nibble(c);
    assert(digits.push(c).drop_last() =~= digits);
}

proof fn lemma_parts(r: int, g: int, b: int)
    requires
        0 <= r < 256,
        0 <= g < 256,
        0 <= b < 256,
    ensures
        theme::rgb_number((r * 0x1_0000 + g * 0x100 + b) as nat) == (0xff00_0000int + r * 0x1_0000
            + g * 0x100 + b) as u32,
{
    let n = r * 0x1_0000 + g * 0x100 + b;
    assert(n / 0x1_0000 == r);
    assert(n / 0x100 == r * 0x100 + g);
    assert((r * 0x100 + g) % 0x100 == g);
    assert(n % 0x100 == b);
}

/// A color is spelled with two hexadecimal digits each for red, green and blue, in that order, behind a
/// `#`; it is opaque.
pub proof fn law_spelled_color_is_taken_in(a: char, b: char, c: char, d: char, e: char, f: char)
    requires
        hexadecimal(a),
        hexadecimal(b),
        hexadecimal(c),
        hexadecimal(d),
        hexadecimal(e),
        hexadecimal(f),
    ensures
        theme::hex_color(seq!['#', a, b, c, d, e, f]) == Some(
            (0xff00_0000int + (nibble(a) * 16 + nibble(b)) * 0x1_0000 + (nibble(c) * 16 + nibble(d))
                * 0x100 + nibble(e) * 16 + nibble(f)) as u32,
        ),
{
    lemma_nibble(a);
    lemma_nibble(b);
    lemma_nibble(c);
    lemma_nibble(d);
    lemma_nibble(e);
    lemma_nibble(f);
    let t0 = Seq::<char>::empty();
    let t2 = t0.push(a).push(b);
    let t4 = t2.push(c).push(d);
    let t6 = t4.push(e).push(f);
    assert(theme::hex_number(t0) == Some(0nat));
    let (r, g, l) = (
        nibble(a) * 16 + nibble(b),
        nibble(c) * 16 + nibble(d),
        nibble(e) * 16 + nibble(f),
    );
    lemma_one_more(t0, 0, a);
    lemma_one_more(t0.push(a), nibble(a) as nat, b);
    lemma_one_more(t2, r as nat, c);
    lemma_one_more(t2.push(c), (r * 16 + nibble(c)) as nat, d);
    lemma_one_more(t4, (r * 256 + g) as nat, e);
    lemma_one_more(t4.push(e), ((r * 256 + g) * 16 + nibble(e)) as nat, f);
    lemma_parts(r, g, l);
    assert(seq!['#', a, b, c, d, e, f].skip(1) =~= t6);
    assert(seq!['#', a, b, c, d, e, f][1] == a);
}

} // verus!
