//! The values by which a socket unit's state is recorded and restored.
use crate::unit_state::UnitActiveState;
use vstd::prelude::*;

verus! {

/// Where a socket unit stands.
#[derive(Clone, Copy, PartialEq, Eq, Debug, Structural)]
pub enum SocketState {
    Dead,
    StartPre,
    StartChown,
    StartPost,
    Listening,
    Running,
    StopPre,
    StopPreSigterm,
    StopPreSigkill,
    StopPost,
    FinalSigterm,
    FinalSigkill,
    Failed,
    Cleaning,
}

/// Why a socket unit ended up where it is.
#[derive(Clone, Copy, PartialEq, Eq, Debug, Structural)]
pub enum SocketResult {
    Success,
    FailureResources,
    FailureTimeout,
    FailureExitCode,
    FailureSignal,
    FailureCoreDump,
    FailureStartLimitHit,
    FailureTriggerLimitHit,
    FailureServiceStartLimitHit,
}

/// The hooks at which a socket unit runs commands.
#[derive(Clone, Copy, PartialEq, Eq, Debug, Structural)]
pub enum SocketCommand {
    StartPre,
    StartPost,
    StopPre,
    StopPost,
}

/// What kind of thing a port listens on.
#[derive(Clone, Copy, PartialEq, Eq, Debug, Structural)]
pub enum PortType {
    Socket,
    Fifo,
    Special,
    Mqueue,
    UsbFunction,
    Netlink,
}

/// The operation begun on a socket unit before the manager last stopped.
#[derive(Clone, Copy, PartialEq, Eq, Debug, Structural)]
pub enum SocketReFrame {
    /// Traffic on a listening descriptor; `true` once the service has
    /// been asked to start.
    FdListen(bool),
}

/// The activation state that a socket state stands for.
pub open spec fn socket_active_state(state: SocketState) -> UnitActiveState {
    match state {
        SocketState::Dead => UnitActiveState::UnitInActive,
        SocketState::StartPre | SocketState::StartChown | SocketState::StartPost => {
            UnitActiveState::UnitActivating
        },
        SocketState::Listening | SocketState::Running => UnitActiveState::UnitActive,
        SocketState::StopPre
        | SocketState::StopPreSigterm
        | SocketState::StopPost
        | SocketState::StopPreSigkill
        | SocketState::FinalSigterm
        | SocketState::FinalSigkill => UnitActiveState::UnitDeActivating,
        SocketState::Failed => UnitActiveState::UnitFailed,
        SocketState::Cleaning => UnitActiveState::UnitMaintenance,
    }
}

} // verus!
