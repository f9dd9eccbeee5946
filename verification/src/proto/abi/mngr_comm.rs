//! What is asked of the manager itself.
use vstd::prelude::*;

verus! {

/// What is asked of the manager itself.
#[derive(Clone, Copy, Debug, PartialEq, Eq, Hash, PartialOrd, Ord, Structural)]
pub enum Action {
    Reload,
    Reexec,
}

/// The number that stands for an action on the wire.
pub open spec fn action_number(action: Action) -> i32 {
    match action {
        Action::Reload => 0,
        Action::Reexec => 1,
    }
}

/// The action that a number on the wire stands for.
pub open spec fn action_of(value: i32) -> Option<Action> {
    if value == 0 {
        Some(Action::Reload)
    } else if value == 1 {
        Some(Action::Reexec)
    } else {
        None
    }
}

impl Action {
    pub fn to_i32(self) -> (r: i32)
        ensures
            r == action_number(self),
            action_of(r) == Some(self),
    {
        match self {
            Action::Reload => 0,
            Action::Reexec => 1,
        }
    }

    pub fn from_i32(value: i32) -> (r: Option<Action>)
        ensures
            r == action_of(value),
            r is Some ==> action_number(r->0) == value,
    {
        match value {
            0 => Some(Action::Reload),
            1 => Some(Action::Reexec),
            _ => None,
        }
    }

    /// Whether a number stands for an action.
    pub fn is_valid(value: i32) -> (r: bool)
        ensures
            r == action_of(value) is Some,
            r == (0 <= value < 2),
    {
        0 <= value && value < 2
    }
}

impl Default for Action {
    fn default() -> (r: Action)
        ensures
            r == Action::Reload,
    {
        Action::Reload
    }
}

} // verus!
