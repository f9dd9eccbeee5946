//! What is asked of a unit file.
use vstd::prelude::*;

verus! {

/// What is asked of a unit file.
#[derive(Clone, Copy, Debug, PartialEq, Eq, Hash, PartialOrd, Ord, Structural)]
pub enum Action {
    Cat,
    Enable,
    Disable,
    Mask,
    Getdef,
    Setdef,
}

/// The number that stands for an action on the wire.
pub open spec fn action_number(action: Action) -> i32 {
    match action {
        Action::Cat => 0,
        Action::Enable => 1,
        Action::Disable => 2,
        Action::Mask => 3,
        Action::Getdef => 4,
        Action::Setdef => 5,
    }
}

/// The action that a number on the wire stands for.
pub open spec fn action_of(value: i32) -> Option<Action> {
    if value == 0 {
        Some(Action::Cat)
    } else if value == 1 {
        Some(Action::Enable)
    } else if value == 2 {
        Some(Action::Disable)
    } else if value == 3 {
        Some(Action::Mask)
    } else if value == 4 {
        Some(Action::Getdef)
    } else if value == 5 {
        Some(Action::Setdef)
    } else {
        None
    }
}

impl Action {
    pub fn to_i32(self) -> (r: i32)
        ensures
            r == action_number(self),
            action_of(r) == Some(self),
    {
        match self {
            Action::Cat => 0,
            Action::Enable => 1,
            Action::Disable => 2,
            Action::Mask => 3,
            Action::Getdef => 4,
            Action::Setdef => 5,
        }
    }

    pub fn from_i32(value: i32) -> (r: Option<Action>)
        ensures
            r == action_of(value),
            r is Some ==> action_number(r->0) == value,
    {
        match value {
            0 => Some(Action::Cat),
            1 => Some(Action::Enable),
            2 => Some(Action::Disable),
            3 => Some(Action::Mask),
            4 => Some(Action::Getdef),
            5 => Some(Action::Setdef),
            _ => None,
        }
    }

    /// Whether a number stands for an action.
    pub fn is_valid(value: i32) -> (r: bool)
        ensures
            r == action_of(value) is Some,
            r == (0 <= value < 6),
    {
        0 <= value && value < 6
    }
}

impl Default for Action {
    fn default() -> (r: Action)
        ensures
            r == Action::Cat,
    {
        Action::Cat
    }
}

} // verus!
