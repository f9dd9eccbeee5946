//! The alternatives of a request.
use crate::proto::abi::{JobComm, MngrComm, SysComm, UnitComm, UnitFile};
use vstd::prelude::*;

verus! {

/// The one command that a request carries.
pub enum RequestData {
    /// Unit life cycle.
    Ucomm(UnitComm),
    /// Unit file commands.
    Ufile(UnitFile),
    /// Job management.
    Jcomm(JobComm),
    /// Manager commands.
    Mcomm(MngrComm),
    /// System commands.
    Syscomm(SysComm),
}

} // verus!
