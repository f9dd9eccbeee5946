//! What is asked of a unit.
use vstd::prelude::*;

verus! {

/// What is asked of a unit.
#[derive(Clone, Copy, Debug, PartialEq, Eq, Hash, PartialOrd, Ord, Structural)]
pub enum Action {
    Status,
    Start,
    Stop,
    Restart,
    Reload,
    Kill,
}

/// The number that stands for an action on the wire.
pub open spec fn action_number(action: Action) -> i32 {
    match action {
        Action::Status => 0,
        Action::Start => 1,
        Action::Stop => 2,
        Action::Restart => 3,
        Action::Reload => 4,
        Action::Kill => 5,
    }
}

/// The action that a number on the wire stands for.
pub open spec fn action_of(value: i32) -> Option<Action> {
    if value == 0 {
        Some(Action::Status)
    } else if value == 1 {
        Some(Action::Start)
    } else if value == 2 {
        Some(Action::Stop)
    } else if value == 3 {
        Some(Action::Restart)
    } else if value == 4 {
        Some(Action::Reload)
    } else if value == 5 {
        Some(Action::Kill)
    } else {
        None
    }
}

impl Action {
    pub fn to_i32(self) -> (r: i32)
        ensures
            r == action_number(self),
            action_of(r) == Some(self),
    {
        match self {
            Action::Status => 0,
            Action::Start => 1,
            Action::Stop => 2,
            Action::Restart => 3,
            Action::Reload => 4,
            Action::Kill => 5,
        }
    }

    pub fn from_i32(value: i32) -> (r: Option<Action>)
        ensures
            r == action_of(value),
            r is Some ==> action_number(r->0) == value,
    {
        match value {
            0 => Some(Action::Status),
            1 => Some(Action::Start),
            2 => Some(Action::Stop),
            3 => Some(Action::Restart),
            4 => Some(Action::Reload),
            5 => Some(Action::Kill),
            _ => None,
        }
    }

    /// Whether a number stands for an action.
    pub fn is_valid(value: i32) -> (r: bool)
        ensures
            r == action_of(value) is Some,
            r == (0 <= value < 6),
    {
        0 <= value && value < 6
    }
}

impl Default for Action {
    fn default() -> (r: Action)
        ensures
            r == Action::Status,
    {
        Action::Status
    }
}

} // verus!
