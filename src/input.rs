//! The vocabulary of user actions that the modes react to, by name.
use vstd::prelude::*;

verus! {

/// The name of each action, as key bindings and the modes refer to it.
pub const LEFT: &'static str = "Left";

pub const RIGHT: &'static str = "Right";

pub const UP: &'static str = "Up";

pub const DOWN: &'static str = "Down";

pub const ROTATE_LEFT: &'static str = "Counter-clockwise rotation";

pub const ROTATE_RIGHT: &'static str = "Clockwise rotation";

pub const CONFIRM: &'static str = "Confirm";

pub const CANCEL: &'static str = "Cancel";

pub const ZOOM_IN: &'static str = "Zoom in";

pub const ZOOM_OUT: &'static str = "Zoom out";

pub const INCREMENT_STEP: &'static str = "Increment step";

pub const DECREMENT_STEP: &'static str = "Decrement step";

pub const NEXT: &'static str = "Next";

pub const PREVIOUS: &'static str = "Previous";

pub const UPDATE: &'static str = "Update";

pub const SHOW_HELP: &'static str = "Show help";

pub const UNMAPPED: &'static str = "Any other";

/// A user action, as the modes see it.
#[derive(Clone, Copy, Debug, PartialEq, Eq, Structural)]
pub enum Action {
    Left,
    Right,
    Up,
    Down,
    RotateLeft,
    RotateRight,
    Confirm,
    Cancel,
    ZoomIn,
    ZoomOut,
    IncrementStep,
    DecrementStep,
    Next,
    Previous,
    Update,
    ShowHelp,
    /// Any name outside the vocabulary.
    Other,
}

/// The action that a name stands for.
pub open spec fn action_named(s: Seq<char>) -> Action {
    if s == "Left"@ {
        Action::Left
    } else if s == "Right"@ {
        Action::Right
    } else if s == "Up"@ {
        Action::Up
    } else if s == "Down"@ {
        Action::Down
    } else if s == "Counter-clockwise rotation"@ {
        Action::RotateLeft
    } else if s == "Clockwise rotation"@ {
        Action::RotateRight
    } else if s == "Confirm"@ {
        Action::Confirm
    } else if s == "Cancel"@ {
        Action::Cancel
    } else if s == "Zoom in"@ {
        Action::ZoomIn
    } else if s == "Zoom out"@ {
        Action::ZoomOut
    } else if s == "Increment step"@ {
        Action::IncrementStep
    } else if s == "Decrement step"@ {
        Action::DecrementStep
    } else if s == "Next"@ {
        Action::Next
    } else if s == "Previous"@ {
        Action::Previous
    } else if s == "Update"@ {
        Action::Update
    } else if s == "Show help"@ {
        Action::ShowHelp
    } else {
        Action::Other
    }
}

/// Whether two texts hold the same characters.
pub fn same_text(a: &str, b: &str) -> (r: bool)
    ensures
        r == (a@ == b@),
{
    let x: String = a.to_owned();
    let y: String = b.to_owned();
    x == y
}

impl Action {
    /// The action named `name`; a name outside the vocabulary is `Other`.
    pub fn from_name(name: &str) -> (r: Action)
        ensures
            r == action_named(name@),
    {
        if same_text(name, "Left") {
            Action::Left
        } else if same_text(name, "Right") {
            Action::Right
        } else if same_text(name, "Up") {
            Action::Up
        } else if same_text(name, "Down") {
            Action::Down
        } else if same_text(name, "Counter-clockwise rotation") {
            Action::RotateLeft
        } else if same_text(name, "Clockwise rotation") {
            Action::RotateRight
        } else if same_text(name, "Confirm") {
            Action::Confirm
        } else if same_text(name, "Cancel") {
            Action::Cancel
        } else if same_text(name, "Zoom in") {
            Action::ZoomIn
        } else if same_text(name, "Zoom out") {
            Action::ZoomOut
        } else if same_text(name, "Increment step") {
            Action::IncrementStep
        } else if same_text(name, "Decrement step") {
            Action::DecrementStep
        } else if same_text(name, "Next") {
            Action::Next
        } else if same_text(name, "Previous") {
            Action::Previous
        } else if same_text(name, "Update") {
            Action::Update
        } else if same_text(name, "Show help") {
            Action::ShowHelp
        } else {
            Action::Other
        }
    }
}

} // verus!
