//! Who owns the selection of a mirror, and what a snapshot of it says.
//!
//! The engine finds the selected text and the selected columns. What a gesture may do is decided
//! here: the gesture that began a selection owns it until another one begins.

use vstd::prelude::*;

use crate::text;

verus! {

/// A cell by its line; negative lines reach into history.
#[derive(Debug, Clone, Copy, PartialEq, Eq, Structural)]
pub struct SelectionPoint {
    pub line: i32,
    pub column: u16,
}

/// What is asked of a selection. Rows count from the top of the view.
#[derive(Debug, PartialEq, Eq)]
pub enum SelectionRequest {
    Begin { gesture: String, kind: String, row: u16, column: u16 },
    Update { gesture: String, kind: String, row: u16, column: u16 },
    Clear { gesture: String },
    Read,
}

/// What the engine does for a request.
#[derive(Debug, Clone, Copy, PartialEq, Eq, Structural)]
pub enum EngineSelection {
    Begin(SelectionPoint),
    Update(SelectionPoint),
    Clear,
    /// It only reads.
    Keep,
}

/// A complete selection.
#[derive(Debug, PartialEq, Eq)]
pub struct SelectionSnapshot {
    pub active: bool,
    pub text: String,
    pub kind: Option<String>,
    pub anchor: Option<SelectionPoint>,
    pub focus: Option<SelectionPoint>,
    pub gesture_id: Option<String>,
    pub sequence: u64,
}

/// A gesture and what it has selected.
struct Owner {
    gesture: String,
    kind: String,
    anchor: SelectionPoint,
    focus: SelectionPoint,
}

/// A gesture and what it has selected, as a mathematical value.
#[verifier::ext_equal]
pub struct OwnerView {
    pub gesture: Seq<char>,
    pub kind: Seq<char>,
    pub anchor: SelectionPoint,
    pub focus: SelectionPoint,
}

impl View for Owner {
    type V = OwnerView;

    closed spec fn view(&self) -> OwnerView {
        OwnerView {
            gesture: self.gesture@,
            kind: self.kind@,
            anchor: self.anchor,
            focus: self.focus,
        }
    }
}

/// The selection of a mirror.
pub struct Selection {
    owner: Option<Owner>,
    sequence: u64,
}

/// The selection of a mirror as a mathematical value.
#[verifier::ext_equal]
pub struct SelectionView {
    pub owner: Option<OwnerView>,
    /// How often it changed.
    pub sequence: u64,
}

impl View for Selection {
    type V = SelectionView;

    closed spec fn view(&self) -> SelectionView {
        SelectionView {
            owner: match self.owner {
                Some(owner) => Some(owner@),
                None => None,
            },
            sequence: self.sequence,
        }
    }
}

/// The line of a row of a view that is scrolled `offset` rows into history.
pub open spec fn point_at(row: u16, column: u16, offset: usize) -> SelectionPoint {
    SelectionPoint { line: (row - offset) as i32, column }
}

/// What a request is refused with that comes from a gesture that does not own the selection.
pub open spec fn stale() -> Seq<char> {
    "STALE_GESTURE: the selection belongs to another gesture"@
}

/// What a request is refused with that changes the kind of a selection under way.
pub open spec fn kind_changed() -> Seq<char> {
    "SELECTION_KIND_CHANGED: a gesture keeps the kind it began with"@
}

/// The sequence after a change.
pub open spec fn advanced(sequence: u64) -> u64 {
    if sequence < u64::MAX {
        (sequence + 1) as u64
    } else {
        sequence
    }
}

/// What a request does to a selection, and what the engine does for it, or why it is refused.
pub open spec fn commanded(selection: SelectionView, request: SelectionRequest, offset: usize) -> Result<
    (SelectionView, EngineSelection),
    Seq<char>,
> {
    match request {
        SelectionRequest::Read => Ok((selection, EngineSelection::Keep)),
        SelectionRequest::Begin { gesture, kind, row, column } => {
            let point = point_at(row, column, offset);
            Ok(
                (
                    SelectionView {
                        owner: Some(
                            OwnerView {
                                gesture: gesture@,
                                kind: kind@,
                                anchor: point,
                                focus: point,
                            },
                        ),
                        sequence: advanced(selection.sequence),
                    },
                    EngineSelection::Begin(point),
                ),
            )
        },
        SelectionRequest::Update { gesture, kind, row, column } => match selection.owner {
            Some(owner) if owner.gesture == gesture@ => if owner.kind == kind@ {
                let point = point_at(row, column, offset);
                Ok(
                    (
                        SelectionView {
                            owner: Some(OwnerView { focus: point, ..owner }),
                            sequence: advanced(selection.sequence),
                        },
                        EngineSelection::Update(point),
                    ),
                )
            } else {
                Err(kind_changed())
            },
            _ => Err(stale()),
        },
        SelectionRequest::Clear { gesture } => match selection.owner {
            Some(owner) if owner.gesture == gesture@ => Ok(
                (
                    SelectionView { owner: None, sequence: advanced(selection.sequence) },
                    EngineSelection::Clear,
                ),
            ),
            _ => Err(stale()),
        },
    }
}

/// A snapshot as a mathematical value.
#[verifier::ext_equal]
pub struct SnapshotView {
    pub active: bool,
    pub text: Seq<char>,
    pub kind: Option<Seq<char>>,
    pub anchor: Option<SelectionPoint>,
    pub focus: Option<SelectionPoint>,
    pub gesture_id: Option<Seq<char>>,
    pub sequence: u64,
}

impl View for SelectionSnapshot {
    type V = SnapshotView;

    open spec fn view(&self) -> SnapshotView {
        SnapshotView {
            active: self.active,
            text: self.text@,
            kind: text::text_of(self.kind),
            anchor: self.anchor,
            focus: self.focus,
            gesture_id: text::text_of(self.gesture_id),
            sequence: self.sequence,
        }
    }
}

/// The snapshot of a selection whose text is `text`: all of it, or nothing selected.
pub open spec fn snapshot_of(selection: SelectionView, text: Seq<char>) -> SnapshotView {
    match selection.owner {
        Some(owner) => SnapshotView {
            active: true,
            text,
            kind: Some(owner.kind),
            anchor: Some(owner.anchor),
            focus: Some(owner.focus),
            gesture_id: Some(owner.gesture),
            sequence: selection.sequence,
        },
        None => SnapshotView {
            active: false,
            text: Seq::empty(),
            kind: None,
            anchor: None,
            focus: None,
            gesture_id: None,
            sequence: selection.sequence,
        },
    }
}

fn point(row: u16, column: u16, offset: usize) -> (point: SelectionPoint)
    requires
        offset <= i32::MAX,
    ensures
        point == point_at(row, column, offset),
{
    SelectionPoint { line: row as i32 - offset as i32, column }
}

impl Selection {
    /// Nothing is selected.
    pub fn new() -> (selection: Self)
        ensures
            selection@ == (SelectionView { owner: None, sequence: 0 }),
    {
        Selection { owner: None, sequence: 0 }
    }

    fn owns(&self, gesture: &str) -> (yes: bool)
        ensures
            yes == (self@.owner matches Some(owner) && owner.gesture == gesture@),
    {
        match &self.owner {
            Some(owner) => text::same_text(owner.gesture.as_str(), gesture),
            None => false,
        }
    }

    fn advance(&mut self)
        ensures
            final(self)@ == (SelectionView { sequence: advanced(old(self)@.sequence), ..old(self)@ }),
    {
        if self.sequence < u64::MAX {
            self.sequence = self.sequence + 1;
        }
    }

    /// Does what a request asks in a view that is scrolled `offset` rows into history, and says what
    /// the engine has to do. A request that is refused changes nothing.
    pub fn selection_command(&mut self, request: &SelectionRequest, offset: usize) -> (action: Result<
        EngineSelection,
        String,
    >)
        requires
            offset <= i32::MAX,
        ensures
            match commanded(old(self)@, *request, offset) {
                Ok((after, engine)) => action == Ok::<EngineSelection, String>(engine)
                    && final(self)@ == after,
                Err(refusal) => action matches Err(message) && message@ == refusal && final(self)@
                    == old(self)@,
            },
    {
        match request {
            SelectionRequest::Read => Ok(EngineSelection::Keep),
            SelectionRequest::Begin { gesture, kind, row, column } => {
                let point = point(*row, *column, offset);
                self.owner = Some(
                    Owner {
                        gesture: String::from_str(gesture.as_str()),
                        kind: String::from_str(kind.as_str()),
                        anchor: point,
                        focus: point,
                    },
                );
                self.advance();
                Ok(EngineSelection::Begin(point))
            },
            SelectionRequest::Update { gesture, kind, row, column } => {
                let owner = match &self.owner {
                    Some(owner) => owner,
                    None => return Err(
                        String::from_str("STALE_GESTURE: the selection belongs to another gesture"),
                    ),
                };
                if !text::same_text(owner.gesture.as_str(), gesture.as_str()) {
                    return Err(
                        String::from_str("STALE_GESTURE: the selection belongs to another gesture"),
                    );
                }
                if !text::same_text(owner.kind.as_str(), kind.as_str()) {
                    return Err(
                        String::from_str(
                            "SELECTION_KIND_CHANGED: a gesture keeps the kind it began with",
                        ),
                    );
                }
                let point = point(*row, *column, offset);
                let changed = Owner {
                    gesture: String::from_str(gesture.as_str()),
                    kind: String::from_str(kind.as_str()),
                    anchor: owner.anchor,
                    focus: point,
                };
                self.owner = Some(changed);
                self.advance();
                Ok(EngineSelection::Update(point))
            },
            SelectionRequest::Clear { gesture } => {
                if !self.owns(gesture.as_str()) {
                    return Err(
                        String::from_str("STALE_GESTURE: the selection belongs to another gesture"),
                    );
                }
                self.owner = None;
                self.advance();
                Ok(EngineSelection::Clear)
            },
        }
    }

    /// The whole selection, with the text that the engine finds in it.
    pub fn snapshot(&self, text: &str) -> (snapshot: SelectionSnapshot)
        ensures
            snapshot@ == snapshot_of(self@, text@),
    {
        match &self.owner {
            Some(owner) => SelectionSnapshot {
                active: true,
                text: String::from_str(text),
                kind: Some(String::from_str(owner.kind.as_str())),
                anchor: Some(owner.anchor),
                focus: Some(owner.focus),
                gesture_id: Some(String::from_str(owner.gesture.as_str())),
                sequence: self.sequence,
            },
            None => SelectionSnapshot {
                active: false,
                text: String::new(),
                kind: None,
                anchor: None,
                focus: None,
                gesture_id: None,
                sequence: self.sequence,
            },
        }
    }
}

/// The sequence of a selection never goes back, and a gesture that does not own a selection cannot
/// change it: once another gesture has begun, all that the old one can do is begin anew.
pub proof fn law_stale_gesture_changes_nothing(
    selection: SelectionView,
    request: SelectionRequest,
    offset: usize,
)
    ensures
        commanded(selection, request, offset) matches Ok((after, _)) ==> after.sequence
            >= selection.sequence,
        request matches SelectionRequest::Update { gesture, .. } && !(selection.owner matches Some(
            owner,
        ) && owner.gesture == gesture@) ==> commanded(selection, request, offset) == Err::<
            (SelectionView, EngineSelection),
            Seq<char>,
        >(stale()),
        request matches SelectionRequest::Clear { gesture } && !(selection.owner matches Some(owner)
            && owner.gesture == gesture@) ==> commanded(selection, request, offset) == Err::<
            (SelectionView, EngineSelection),
            Seq<char>,
        >(stale()),
{
}

} // verus!
