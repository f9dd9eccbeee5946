//! Error values returned by unit actions and by the job engine.
use vstd::prelude::*;

verus! {

/// Outcome of an action on a unit that did not simply succeed.
#[derive(Clone, Copy, PartialEq, Eq, Debug, Structural)]
pub enum UnitActionError {
    /// Transient state: ask again later.
    UnitActionEAgain,
    /// The requested state is already reached.
    UnitActionEAlready,
    /// The unit description is malformed.
    UnitActionEBadR,
    /// Structural violation: not loaded, or a condition did not hold.
    UnitActionEInval,
    /// The named unit is not known.
    UnitActionENoent,
    /// The unit cannot carry out the action.
    UnitActionEOpNotSupp,
    /// A process could not be started.
    UnitActionENoExec,
    /// The action was given up.
    UnitActionECanceled,
    /// A collaborator failed.
    UnitActionEFailed,
}

/// Why a job transaction was turned down.
#[derive(Clone, Copy, PartialEq, Eq, Debug, Structural)]
pub enum JobErrno {
    /// The request names a unit or a kind that cannot be served.
    JobErrInput,
    /// The request contradicts jobs that are already planned.
    JobErrConflict,
    /// The unit's description is malformed.
    JobErrBadRequest,
}

} // verus!
