use soksak_kit_sidecar_terminal::render::session::{command, selection_refused, SurfaceCommand};
use soksak_kit_sidecar_terminal::selection::{
    EngineSelection, Selection, SelectionPoint, SelectionRequest,
};

fn begin(gesture: &str, row: u16, column: u16) -> SelectionRequest {
    SelectionRequest::Begin { gesture: gesture.into(), kind: "cell".into(), row, column }
}

fn update(gesture: &str, kind: &str, row: u16, column: u16) -> SelectionRequest {
    SelectionRequest::Update { gesture: gesture.into(), kind: kind.into(), row, column }
}

#[test]
fn render_runtime_owns_the_versioned_selection_state_machine() {
    let mut selection = Selection::new();
    selection.selection_command(&begin("a", 0, 0), 0).expect("begins");
    selection.selection_command(&begin("b", 1, 1), 0).expect("another gesture begins");
    let stale = selection.selection_command(&update("a", "cell", 2, 2), 0).unwrap_err();
    assert_eq!(selection_refused(&stale).code, "STALE_GESTURE");
    assert_eq!(command("surface.selection"), Ok(SurfaceCommand::Selection));
}

#[test]
fn a_selection_belongs_to_its_gesture() {
    let mut selection = Selection::new();
    let none = selection.snapshot("ignored");
    assert!(!none.active);
    assert_eq!((none.text.as_str(), none.sequence), ("", 0));
    assert_eq!(
        selection.selection_command(&begin("a", 3, 7), 10),
        Ok(EngineSelection::Begin(SelectionPoint { line: -7, column: 7 }))
    );
    assert_eq!(
        selection.selection_command(&update("a", "cell", 4, 9), 0),
        Ok(EngineSelection::Update(SelectionPoint { line: 4, column: 9 }))
    );
    let held = selection.snapshot("text");
    assert!(held.active);
    assert_eq!(held.text, "text");
    assert_eq!(held.kind.as_deref(), Some("cell"));
    assert_eq!(held.gesture_id.as_deref(), Some("a"));
    assert_eq!(held.anchor, Some(SelectionPoint { line: -7, column: 7 }));
    assert_eq!(held.focus, Some(SelectionPoint { line: 4, column: 9 }));
    assert_eq!(held.sequence, 2);

    let changed = selection.selection_command(&update("a", "line", 4, 9), 0).unwrap_err();
    assert_eq!(selection_refused(&changed).code, "SELECTION_KIND_CHANGED");
    let foreign = SelectionRequest::Clear { gesture: "b".into() };
    assert!(selection.selection_command(&foreign, 0).is_err());
    assert_eq!(selection.snapshot("text"), held, "a refused request changes nothing");
    assert_eq!(
        selection.selection_command(&SelectionRequest::Read, 0),
        Ok(EngineSelection::Keep)
    );
    assert_eq!(selection.snapshot("text").sequence, 2);
    let clear = SelectionRequest::Clear { gesture: "a".into() };
    assert_eq!(selection.selection_command(&clear, 0), Ok(EngineSelection::Clear));
    let cleared = selection.snapshot("text");
    assert!(!cleared.active);
    assert_eq!(cleared.sequence, 3);
}
