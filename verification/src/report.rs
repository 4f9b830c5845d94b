//! Frames and modes as they are reported.

use vstd::prelude::*;

use serde_json::Value;

use crate::cells::{
    MirrorCapabilities, TerminalCursorAnimation, TerminalCursorShape, TerminalCursorStyle,
    TerminalModes,
};
use crate::delta::{FrameReply, ReplyView};
use crate::frame::{FrameLine, FrameRun, LineView, RunView};
use crate::json::{self, JsonView};

verus! {

/// The modes of a terminal as they are reported.
pub open spec fn modes_json(modes: TerminalModes) -> JsonView {
    JsonView::Object(
        map![
            "bracketedPaste"@ => JsonView::Bool(modes.bracketed_paste),
            "appCursor"@ => JsonView::Bool(modes.app_cursor),
            "appKeypad"@ => JsonView::Bool(modes.app_keypad),
            "mouseX10"@ => JsonView::Bool(modes.mouse_x10),
            "mouseHighlight"@ => JsonView::Bool(modes.mouse_highlight),
            "mouseClick"@ => JsonView::Bool(modes.mouse_click),
            "mouseDrag"@ => JsonView::Bool(modes.mouse_drag),
            "mouseMotion"@ => JsonView::Bool(modes.mouse_motion),
            "sgrMouse"@ => JsonView::Bool(modes.sgr_mouse),
            "utf8Mouse"@ => JsonView::Bool(modes.utf8_mouse),
            "focusInOut"@ => JsonView::Bool(modes.focus_in_out),
            "alternateScroll"@ => JsonView::Bool(modes.alternate_scroll),
            "showCursor"@ => JsonView::Bool(modes.show_cursor),
            "lineWrap"@ => JsonView::Bool(modes.line_wrap),
            "insert"@ => JsonView::Bool(modes.insert),
        ],
    )
}

/// The report of a terminal's modes.
pub fn modes_value(modes: TerminalModes) -> (value: Value)
    ensures
        json::json_of(value) == modes_json(modes),
{
    let mut members = json::new_members();
    json::put(&mut members, "bracketedPaste", json::boolean(modes.bracketed_paste));
    json::put(&mut members, "appCursor", json::boolean(modes.app_cursor));
    json::put(&mut members, "appKeypad", json::boolean(modes.app_keypad));
    json::put(&mut members, "mouseX10", json::boolean(modes.mouse_x10));
    json::put(&mut members, "mouseHighlight", json::boolean(modes.mouse_highlight));
    json::put(&mut members, "mouseClick", json::boolean(modes.mouse_click));
    json::put(&mut members, "mouseDrag", json::boolean(modes.mouse_drag));
    json::put(&mut members, "mouseMotion", json::boolean(modes.mouse_motion));
    json::put(&mut members, "sgrMouse", json::boolean(modes.sgr_mouse));
    json::put(&mut members, "utf8Mouse", json::boolean(modes.utf8_mouse));
    json::put(&mut members, "focusInOut", json::boolean(modes.focus_in_out));
    json::put(&mut members, "alternateScroll", json::boolean(modes.alternate_scroll));
    json::put(&mut members, "showCursor", json::boolean(modes.show_cursor));
    json::put(&mut members, "lineWrap", json::boolean(modes.line_wrap));
    json::put(&mut members, "insert", json::boolean(modes.insert));
    json::object(members)
}

/// What an engine can report, as it is reported.
pub open spec fn capabilities_json(capabilities: MirrorCapabilities) -> JsonView {
    JsonView::Object(map!["hyperlinks"@ => JsonView::Bool(capabilities.hyperlinks)])
}

/// The report of what an engine can report.
pub fn capabilities_value(capabilities: MirrorCapabilities) -> (value: Value)
    ensures
        json::json_of(value) == capabilities_json(capabilities),
{
    let mut members = json::new_members();
    json::put(&mut members, "hyperlinks", json::boolean(capabilities.hyperlinks));
    json::object(members)
}

/// A cursor style as it is reported.
pub open spec fn style_json(style: TerminalCursorStyle) -> JsonView {
    JsonView::Object(
        map![
            "shape"@ => JsonView::Text(
                match style.shape {
                    TerminalCursorShape::Block => "block"@,
                    TerminalCursorShape::Underline => "underline"@,
                    TerminalCursorShape::Bar => "bar"@,
                },
            ),
            "blinking"@ => JsonView::Bool(style.blinking),
        ],
    )
}

fn style_value(style: TerminalCursorStyle) -> (value: Value)
    ensures
        json::json_of(value) == style_json(style),
{
    let shape = match style.shape {
        TerminalCursorShape::Block => "block",
        TerminalCursorShape::Underline => "underline",
        TerminalCursorShape::Bar => "bar",
    };
    let mut members = json::new_members();
    json::put(&mut members, "shape", json::string(shape));
    json::put(&mut members, "blinking", json::boolean(style.blinking));
    json::object(members)
}

/// A run as it is reported: `wide` only where it is, `link` only where there is one.
pub open spec fn run_json(run: RunView) -> JsonView {
    let plain = map![
        "text"@ => JsonView::Text(run.text),
        "fg"@ => JsonView::Text(run.fg),
        "bg"@ => JsonView::Text(run.bg),
        "attrs"@ => JsonView::Unsigned(run.attrs as u64),
        "n"@ => JsonView::Unsigned(run.n as u64),
    ];
    let sized = if run.wide {
        plain.insert("wide"@, JsonView::Bool(true))
    } else {
        plain
    };
    JsonView::Object(
        match run.link {
            Some(link) => sized.insert("link"@, JsonView::Text(link)),
            None => sized,
        },
    )
}

fn run_value(run: &FrameRun) -> (value: Value)
    ensures
        json::json_of(value) == run_json(run@),
{
    let mut members = json::new_members();
    json::put(&mut members, "text", json::string(run.text.as_str()));
    json::put(&mut members, "fg", json::string(run.fg.as_str()));
    json::put(&mut members, "bg", json::string(run.bg.as_str()));
    json::put(&mut members, "attrs", json::unsigned(run.attrs as u64));
    json::put(&mut members, "n", json::unsigned(run.n as u64));
    if run.wide {
        json::put(&mut members, "wide", json::boolean(true));
    }
    if let Some(link) = &run.link {
        json::put(&mut members, "link", json::string(link.as_str()));
    }
    json::object(members)
}

/// The runs of a line as they are reported.
pub open spec fn runs_json(runs: Seq<RunView>) -> Seq<JsonView> {
    Seq::new(runs.len(), |i: int| run_json(runs[i]))
}

/// A line as it is reported.
pub open spec fn line_json(line: LineView) -> JsonView {
    JsonView::Object(
        map![
            "y"@ => JsonView::Unsigned(line.y as u64),
            "wrapped"@ => JsonView::Bool(line.wrapped),
            "runs"@ => JsonView::Array(runs_json(line.runs)),
        ],
    )
}

fn line_value(line: &FrameLine) -> (value: Value)
    ensures
        json::json_of(value) == line_json(line@),
{
    let mut runs: Vec<Value> = Vec::new();
    let mut i: usize = 0;
    while i < line.runs.len()
        invariant
            i <= line.runs@.len(),
            runs@.len() == i,
            forall|j: int|
                0 <= j < i ==> json::json_of(#[trigger] runs@[j]) == run_json(line.runs@[j]@),
        decreases line.runs@.len() - i,
    {
        runs.push(run_value(&line.runs[i]));
        i = i + 1;
    }
    assert(json::jsons_of(runs@) =~= runs_json(line@.runs));
    let mut members = json::new_members();
    json::put(&mut members, "y", json::unsigned(line.y as u64));
    json::put(&mut members, "wrapped", json::boolean(line.wrapped));
    json::put(&mut members, "runs", json::array(runs));
    json::object(members)
}

/// The lines of a picture as they are reported.
pub open spec fn lines_json(lines: Seq<LineView>) -> Seq<JsonView> {
    Seq::new(lines.len(), |i: int| line_json(lines[i]))
}

/// A reply to a frame request as it is reported.
pub open spec fn reply_json(reply: ReplyView) -> JsonView {
    JsonView::Object(
        map![
            "outputSequence"@ => JsonView::Unsigned(reply.output_sequence),
            "cols"@ => JsonView::Unsigned(reply.cols as u64),
            "rows"@ => JsonView::Unsigned(reply.rows as u64),
            "cursor"@ => JsonView::Array(
                seq![
                    JsonView::Unsigned(reply.cursor.0 as u64),
                    JsonView::Unsigned(reply.cursor.1 as u64),
                ],
            ),
            "cursorVisible"@ => JsonView::Bool(reply.cursor_visible),
            "cursorStyle"@ => style_json(reply.cursor_style),
            "cursorAnimation"@ => JsonView::Object(
                map!["intervalMs"@ => JsonView::Unsigned(reply.cursor_animation.interval_ms as u64)],
            ),
            "altActive"@ => JsonView::Bool(reply.alt_active),
            "historySize"@ => JsonView::Unsigned(reply.history_size as u64),
            "offset"@ => JsonView::Unsigned(reply.offset as u64),
            "modes"@ => modes_json(reply.modes),
            "full"@ => JsonView::Bool(reply.full),
            "lines"@ => JsonView::Array(lines_json(reply.lines)),
        ],
    )
}

fn animation_value(animation: TerminalCursorAnimation) -> (value: Value)
    ensures
        json::json_of(value) == JsonView::Object(
            map!["intervalMs"@ => JsonView::Unsigned(animation.interval_ms as u64)],
        ),
{
    let mut members = json::new_members();
    json::put(&mut members, "intervalMs", json::unsigned(animation.interval_ms as u64));
    json::object(members)
}

/// The report of a reply to a frame request.
pub fn reply_value(reply: &FrameReply) -> (value: Value)
    ensures
        json::json_of(value) == reply_json(reply@),
{
    let mut lines: Vec<Value> = Vec::new();
    let mut i: usize = 0;
    while i < reply.lines.len()
        invariant
            i <= reply.lines@.len(),
            lines@.len() == i,
            forall|j: int|
                0 <= j < i ==> json::json_of(#[trigger] lines@[j]) == line_json(reply.lines@[j]@),
        decreases reply.lines@.len() - i,
    {
        lines.push(line_value(&reply.lines[i]));
        i = i + 1;
    }
    assert(json::jsons_of(lines@) =~= lines_json(reply@.lines));
    let mut cursor: Vec<Value> = Vec::new();
    cursor.push(json::unsigned(reply.cursor.0 as u64));
    cursor.push(json::unsigned(reply.cursor.1 as u64));
    assert(json::jsons_of(cursor@) =~= seq![
        JsonView::Unsigned(reply.cursor.0 as u64),
        JsonView::Unsigned(reply.cursor.1 as u64),
    ]);
    let mut members = json::new_members();
    json::put(&mut members, "outputSequence", json::unsigned(reply.output_sequence));
    json::put(&mut members, "cols", json::unsigned(reply.cols as u64));
    json::put(&mut members, "rows", json::unsigned(reply.rows as u64));
    json::put(&mut members, "cursor", json::array(cursor));
    json::put(&mut members, "cursorVisible", json::boolean(reply.cursor_visible));
    json::put(&mut members, "cursorStyle", style_value(reply.cursor_style));
    json::put(&mut members, "cursorAnimation", animation_value(reply.cursor_animation));
    json::put(&mut members, "altActive", json::boolean(reply.alt_active));
    json::put(&mut members, "historySize", json::unsigned(reply.history_size as u64));
    json::put(&mut members, "offset", json::unsigned(reply.offset as u64));
    json::put(&mut members, "modes", modes_value(reply.modes));
    json::put(&mut members, "full", json::boolean(reply.full));
    json::put(&mut members, "lines", json::array(lines));
    json::object(members)
}

} // verus!
