//! What is asked of the system.
use vstd::prelude::*;

verus! {

/// What is asked of the system.
#[derive(Clone, Copy, Debug, PartialEq, Eq, Hash, PartialOrd, Ord, Structural)]
pub enum Action {
    Reboot,
    Shutdown,
    Halt,
    Suspend,
    Poweroff,
    Hibernate,
}

/// The number that stands for an action on the wire.
pub open spec fn action_number(action: Action) -> i32 {
    match action {
        Action::Reboot => 0,
        Action::Shutdown => 1,
        Action::Halt => 2,
        Action::Suspend => 3,
        Action::Poweroff => 4,
        Action::Hibernate => 5,
    }
}

/// The action that a number on the wire stands for.
pub open spec fn action_of(value: i32) -> Option<Action> {
    if value == 0 {
        Some(Action::Reboot)
    } else if value == 1 {
        Some(Action::Shutdown)
    } else if value == 2 {
        Some(Action::Halt)
    } else if value == 3 {
        Some(Action::Suspend)
    } else if value == 4 {
        Some(Action::Poweroff)
    } else if value == 5 {
        Some(Action::Hibernate)
    } else {
        None
    }
}

impl Action {
    pub fn to_i32(self) -> (r: i32)
        ensures
            r == action_number(self),
            action_of(r) == Some(self),
    {
        match self {
            Action::Reboot => 0,
            Action::Shutdown => 1,
            Action::Halt => 2,
            Action::Suspend => 3,
            Action::Poweroff => 4,
            Action::Hibernate => 5,
        }
    }

    pub fn from_i32(value: i32) -> (r: Option<Action>)
        ensures
            r == action_of(value),
            r is Some ==> action_number(r->0) == value,
    {
        match value {
            0 => Some(Action::Reboot),
            1 => Some(Action::Shutdown),
            2 => Some(Action::Halt),
            3 => Some(Action::Suspend),
            4 => Some(Action::Poweroff),
            5 => Some(Action::Hibernate),
            _ => None,
        }
    }

    /// Whether a number stands for an action.
    pub fn is_valid(value: i32) -> (r: bool)
        ensures
            r == action_of(value) is Some,
            r == (0 <= value < 6),
    {
        0 <= value && value < 6
    }
}

impl Default for Action {
    fn default() -> (r: Action)
        ensures
            r == Action::Reboot,
    {
        Action::Reboot
    }
}

} // verus!
