//! What is asked of the job engine.
use vstd::prelude::*;

verus! {

/// What is asked of the job engine.
#[derive(Clone, Copy, Debug, PartialEq, Eq, Hash, PartialOrd, Ord, Structural)]
pub enum Action {
    List,
    Cancel,
}

/// The number that stands for an action on the wire.
pub open spec fn action_number(action: Action) -> i32 {
    match action {
        Action::List => 0,
        Action::Cancel => 1,
    }
}

/// The action that a number on the wire stands for.
pub open spec fn action_of(value: i32) -> Option<Action> {
    if value == 0 {
        Some(Action::List)
    } else if value == 1 {
        Some(Action::Cancel)
    } else {
        None
    }
}

impl Action {
    pub fn to_i32(self) -> (r: i32)
        ensures
            r == action_number(self),
            action_of(r) == Some(self),
    {
        match self {
            Action::List => 0,
            Action::Cancel => 1,
        }
    }

    pub fn from_i32(value: i32) -> (r: Option<Action>)
        ensures
            r == action_of(value),
            r is Some ==> action_number(r->0) == value,
    {
        match value {
            0 => Some(Action::List),
            1 => Some(Action::Cancel),
            _ => None,
        }
    }

    /// Whether a number stands for an action.
    pub fn is_valid(value: i32) -> (r: bool)
        ensures
            r == action_of(value) is Some,
            r == (0 <= value < 2),
    {
        0 <= value && value < 2
    }
}

impl Default for Action {
    fn default() -> (r: Action)
        ensures
            r == Action::List,
    {
        Action::List
    }
}

} // verus!
