//! The socket unit's state machine. It decides; the work on descriptors,
//! processes and other units is handed out as a list of operations, and
//! the outcome of each operation that matters comes back as an event.
use crate::error::UnitActionError;
use crate::socket_rentry::{
    socket_active_state, PortType, SocketCommand, SocketReFrame, SocketResult, SocketState,
};
use crate::unit_base::{KillOperation, WaitStatus};
use crate::unit_state::UnitActiveState;
use vstd::prelude::*;

verus! {

/// What the machine reads but does not change: the unit's settings and
/// what the manager knows of the units around it.
#[derive(Clone, Copy, PartialEq, Eq, Debug, Structural)]
pub struct SocketEnv {
    /// One service instance for each connection, instead of one service
    /// for the listening descriptors.
    pub accept: bool,
    /// A service to trigger is known.
    pub has_service: bool,
    /// Number of commands at each hook.
    pub start_pre: usize,
    pub start_post: usize,
    pub stop_pre: usize,
    pub stop_post: usize,
    /// Why the service cannot be enabled, if it cannot.
    pub service_error: Option<UnitActionError>,
    /// The unit may be started once more within its rate limit.
    pub start_limit_ok: bool,
    /// A stop is planned that new connections must give way to.
    pub has_stop_job: bool,
    /// The triggered service is up or about to be.
    pub active_or_pending: bool,
}

/// One listener as the machine sees it.
#[derive(Clone, Copy, PartialEq, Eq, Debug, Structural)]
pub struct PortState {
    pub p_type: PortType,
    /// Connections can be accepted on it.
    pub can_accept: bool,
    /// The descriptor, or a negative number while the port is not open.
    pub fd: i32,
    /// Its descriptor is registered with the event loop and enabled.
    pub watched: bool,
}

/// Work for whoever drives the machine.
#[derive(Clone, Copy, PartialEq, Eq, Debug, Structural)]
pub enum SocketOp {
    /// Stop watching the control process.
    UnwatchPid { pid: i32 },
    /// Run the command at `index` of the hook `cmd_type`; answer with
    /// [`SocketMng::spawn_result`].
    Spawn { cmd_type: SocketCommand, index: usize },
    /// Open and bind the port; answer with [`SocketMng::port_opened`].
    OpenPort { port: usize },
    /// Open and bind the port, whose descriptor could not be taken over;
    /// answer with [`SocketMng::port_reopened`].
    ReopenPort { port: usize },
    /// Apply the configured socket options to the descriptor.
    ApplySockOpt { port: usize, fd: i32 },
    /// Register the port's descriptor with the event loop and enable it.
    Watch { port: usize, fd: i32 },
    /// Disable the port's event source.
    Unwatch { port: usize, fd: i32 },
    /// Remove the port's event source.
    RemoveSource { port: usize, fd: i32 },
    /// Close the port's descriptor.
    Close { port: usize, fd: i32 },
    /// Drop what is queued on the port.
    Flush { port: usize, fd: i32 },
    /// Accept one connection; answer with [`SocketMng::accepted`].
    Accept { port: usize, fd: i32 },
    /// Close a connection that was accepted and is refused.
    Discard { fd: i32 },
    /// Give an accepted connection to a service instance of its own.
    HandOff { fd: i32 },
    /// Signal the unit's processes; answer with
    /// [`SocketMng::kill_result`].
    Kill { operation: KillOperation, control_pid: Option<i32> },
    /// Start the triggered service; answer with
    /// [`SocketMng::service_started`].
    StartService,
    /// Tell the unit's observers of a state change.
    Notify { from: UnitActiveState, to: UnitActiveState },
    /// Record the operation now begun, or that none is.
    LastFrame { frame: Option<SocketReFrame> },
}

/// The answer that the machine waits for.
#[derive(Clone, Copy, PartialEq, Eq, Debug, Structural)]
pub enum Pending {
    Idle,
    /// The first command of a hook.
    Spawn(SocketCommand),
    /// A further command of the current hook.
    SpawnNext,
    OpenPort(usize),
    Kill(SocketState),
    StartService,
    Accept(usize),
}

/// The machine as a mathematical value.
pub struct SocketModel {
    pub env: SocketEnv,
    pub state: SocketState,
    pub result: SocketResult,
    pub control_pid: Option<i32>,
    pub control_cmd_type: Option<SocketCommand>,
    /// Commands of the current hook that are still to run.
    pub control_cmd_len: usize,
    pub refused: i32,
    pub pending: Pending,
    pub ports: Seq<PortState>,
    /// Operations handed out and not yet taken.
    pub ops: Seq<SocketOp>,
}

/// The name of a state.
pub open spec fn socket_state_name(state: SocketState) -> Seq<char> {
    match state {
        SocketState::Dead => "dead"@,
        SocketState::StartPre => "start-pre"@,
        SocketState::StartChown => "start-chown"@,
        SocketState::StartPost => "start-post"@,
        SocketState::Listening => "listening"@,
        SocketState::Running => "running"@,
        SocketState::StopPre => "stop-pre"@,
        SocketState::StopPreSigterm => "stop-pre-sigterm"@,
        SocketState::StopPreSigkill => "stop-pre-sigkill"@,
        SocketState::StopPost => "stop-post"@,
        SocketState::FinalSigterm => "final-sigterm"@,
        SocketState::FinalSigkill => "final-sigkill"@,
        SocketState::Failed => "failed"@,
        SocketState::Cleaning => "cleaning"@,
    }
}

/// States in which a control process may be running.
pub open spec fn keeps_control(state: SocketState) -> bool {
    match state {
        SocketState::StartPre
        | SocketState::StartChown
        | SocketState::StartPost
        | SocketState::StopPre
        | SocketState::StopPreSigterm
        | SocketState::StopPreSigkill
        | SocketState::StopPost
        | SocketState::FinalSigterm
        | SocketState::FinalSigkill => true,
        _ => false,
    }
}

/// States in which the ports keep their descriptors.
pub open spec fn keeps_fds(state: SocketState) -> bool {
    match state {
        SocketState::StartChown
        | SocketState::StartPost
        | SocketState::Listening
        | SocketState::Running
        | SocketState::StopPre
        | SocketState::StopPreSigterm
        | SocketState::StopPreSigkill => true,
        _ => false,
    }
}

/// States from which a start must wait.
pub open spec fn is_stopping(state: SocketState) -> bool {
    match state {
        SocketState::StopPre
        | SocketState::StopPreSigkill
        | SocketState::StopPreSigterm
        | SocketState::StopPost
        | SocketState::FinalSigterm
        | SocketState::FinalSigkill => true,
        _ => false,
    }
}

/// States in which the unit is on its way up.
pub open spec fn is_starting(state: SocketState) -> bool {
    match state {
        SocketState::StartPre | SocketState::StartChown | SocketState::StartPost => true,
        _ => false,
    }
}

/// The operation by which the processes are signalled in a state: the
/// two polite states terminate, every other state kills.
pub open spec fn kill_operation(state: SocketState) -> KillOperation {
    match state {
        SocketState::StopPreSigterm | SocketState::FinalSigterm => KillOperation::KillTerminate,
        _ => KillOperation::KillKill,
    }
}

/// What the exit of a control process means.
pub open spec fn sigchld_outcome(status: WaitStatus) -> SocketResult {
    match status {
        WaitStatus::Exited { pid, code } => if code == 0 {
            SocketResult::Success
        } else {
            SocketResult::FailureExitCode
        },
        WaitStatus::Signaled { pid, signal, core_dump } => if core_dump {
            SocketResult::FailureCoreDump
        } else {
            SocketResult::FailureSignal
        },
        _ => SocketResult::Success,
    }
}

/// One `Watch` for each open port among the first `upto`, in order.
pub open spec fn watch_ops(ports: Seq<PortState>, upto: int) -> Seq<SocketOp>
    decreases upto,
{
    if upto <= 0 || upto > ports.len() {
        Seq::empty()
    } else {
        let before = watch_ops(ports, upto - 1);
        if ports[upto - 1].fd >= 0 {
            before.push(SocketOp::Watch { port: (upto - 1) as usize, fd: ports[upto - 1].fd })
        } else {
            before
        }
    }
}

/// One `ReopenPort` for each closed port among the first `upto`, in
/// order.
pub open spec fn reopen_ops(ports: Seq<PortState>, upto: int) -> Seq<SocketOp>
    decreases upto,
{
    if upto <= 0 || upto > ports.len() {
        Seq::empty()
    } else {
        let before = reopen_ops(ports, upto - 1);
        if ports[upto - 1].fd < 0 {
            before.push(SocketOp::ReopenPort { port: (upto - 1) as usize })
        } else {
            before
        }
    }
}

/// The descriptors of the open ports among the first `upto`, in order.
pub open spec fn open_fds(ports: Seq<PortState>, upto: int) -> Seq<i32>
    decreases upto,
{
    if upto <= 0 || upto > ports.len() {
        Seq::empty()
    } else {
        let before = open_fds(ports, upto - 1);
        if ports[upto - 1].fd >= 0 {
            before.push(ports[upto - 1].fd)
        } else {
            before
        }
    }
}

impl SocketEnv {
    /// Number of commands at the hook `cmd_type`.
    pub open spec fn count(self, cmd_type: SocketCommand) -> usize {
        match cmd_type {
            SocketCommand::StartPre => self.start_pre,
            SocketCommand::StartPost => self.start_post,
            SocketCommand::StopPre => self.stop_pre,
            SocketCommand::StopPost => self.stop_post,
        }
    }

    pub fn get_count(&self, cmd_type: SocketCommand) -> (r: usize)
        ensures
            r == self.count(cmd_type),
    {
        match cmd_type {
            SocketCommand::StartPre => self.start_pre,
            SocketCommand::StartPost => self.start_post,
            SocketCommand::StopPre => self.stop_pre,
            SocketCommand::StopPost => self.stop_post,
        }
    }
}

impl SocketModel {
    /// With one more operation handed out.
    pub open spec fn push(self, op: SocketOp) -> SocketModel {
        SocketModel { ops: self.ops.push(op), ..self }
    }

    /// With the failure `res` recorded, unless a failure is recorded.
    pub open spec fn note(self, res: SocketResult) -> SocketModel {
        if self.result == SocketResult::Success {
            SocketModel { result: res, ..self }
        } else {
            self
        }
    }

    /// Without a control process.
    pub open spec fn unwatch_control(self) -> SocketModel {
        match self.control_pid {
            Some(pid) => SocketModel { control_pid: None, ..self }.push(
                SocketOp::UnwatchPid { pid },
            ),
            None => self,
        }
    }

    /// With the commands of the hook `cmd_type` lined up.
    pub open spec fn fill(self, cmd_type: SocketCommand) -> SocketModel {
        SocketModel {
            control_cmd_type: Some(cmd_type),
            control_cmd_len: self.env.count(cmd_type),
            ..self
        }
    }

    /// With the last command that is lined up handed out to run.
    pub open spec fn spawn(self, pending: Pending) -> SocketModel {
        match self.control_cmd_type {
            Some(cmd_type) if self.control_cmd_len > 0 => SocketModel {
                control_cmd_len: (self.control_cmd_len - 1) as usize,
                pending,
                ..self
            }.push(SocketOp::Spawn { cmd_type, index: (self.control_cmd_len - 1) as usize }),
            _ => self,
        }
    }

    /// Whether a command is lined up.
    pub open spec fn has_command(self) -> bool {
        self.control_cmd_type is Some && self.control_cmd_len > 0
    }

    /// With every port's event source disabled.
    pub open spec fn unwatch_fds(self) -> SocketModel {
        SocketModel {
            ports: Seq::new(
                self.ports.len(),
                |i: int| PortState { watched: false, ..self.ports[i] },
            ),
            ops: self.ops + Seq::new(
                self.ports.len(),
                |i: int| SocketOp::Unwatch { port: i as usize, fd: self.ports[i].fd },
            ),
            ..self
        }
    }

    /// With every port's event source removed and its descriptor closed.
    pub open spec fn close_fds(self) -> SocketModel {
        SocketModel {
            ports: Seq::new(
                self.ports.len(),
                |i: int| PortState { fd: -1i32, watched: false, ..self.ports[i] },
            ),
            ops: self.ops + Seq::new(
                self.ports.len(),
                |i: int| SocketOp::RemoveSource { port: i as usize, fd: self.ports[i].fd },
            ) + Seq::new(
                self.ports.len(),
                |i: int| SocketOp::Close { port: i as usize, fd: self.ports[i].fd },
            ),
            ..self
        }
    }

    /// With every open port watched.
    pub open spec fn watch_fds(self) -> SocketModel {
        SocketModel {
            ports: Seq::new(
                self.ports.len(),
                |i: int|
                    if self.ports[i].fd >= 0 {
                        PortState { watched: true, ..self.ports[i] }
                    } else {
                        self.ports[i]
                    },
            ),
            ops: self.ops + watch_ops(self.ports, self.ports.len() as int),
            ..self
        }
    }

    /// With what is queued on every port dropped.
    pub open spec fn flush_ports(self) -> SocketModel {
        SocketModel {
            ops: self.ops + Seq::new(
                self.ports.len(),
                |i: int| SocketOp::Flush { port: i as usize, fd: self.ports[i].fd },
            ),
            ..self
        }
    }

    /// In the state `state`. Entering a state that has no control process
    /// lets the control process go; entering any state but `Listening`
    /// disables the port event sources; entering a state that does not
    /// keep descriptors closes them; the observers are told last.
    pub open spec fn set_state(self, state: SocketState) -> SocketModel {
        let moved = SocketModel { state, pending: Pending::Idle, ..self };
        let without_control = if keeps_control(state) {
            moved
        } else {
            moved.unwatch_control()
        };
        let unwatched = if state != SocketState::Listening {
            without_control.unwatch_fds()
        } else {
            without_control
        };
        let closed = if keeps_fds(state) {
            unwatched
        } else {
            unwatched.close_fds()
        };
        closed.push(
            SocketOp::Notify {
                from: socket_active_state(self.state),
                to: socket_active_state(state),
            },
        )
    }

    /// At rest: `Dead` where nothing failed, `Failed` otherwise.
    pub open spec fn enter_dead(self, res: SocketResult) -> SocketModel {
        let noted = self.note(res);
        noted.set_state(
            if noted.result == SocketResult::Success {
                SocketState::Dead
            } else {
                SocketState::Failed
            },
        )
    }

    /// In the signalling state `state`, with the signal on its way.
    pub open spec fn enter_signal(self, state: SocketState, res: SocketResult) -> SocketModel {
        let entered = self.note(res).set_state(state);
        SocketModel { pending: Pending::Kill(state), ..entered }.push(
            SocketOp::Kill { operation: kill_operation(state), control_pid: entered.control_pid },
        )
    }

    /// After the pre-stop hook: the post-stop commands run, or, where
    /// there are none, the final signalling begins.
    pub open spec fn enter_stop_post(self, res: SocketResult) -> SocketModel {
        let filled = self.note(res).fill(SocketCommand::StopPost);
        if filled.has_command() {
            filled.spawn(Pending::Spawn(SocketCommand::StopPost))
        } else {
            filled.enter_signal(SocketState::FinalSigterm, SocketResult::Success)
        }
    }

    /// On the way down: the pre-stop commands run, or, where there are
    /// none, the post-stop hook follows at once.
    pub open spec fn enter_stop_pre(self, res: SocketResult) -> SocketModel {
        let filled = self.note(res).unwatch_control().fill(SocketCommand::StopPre);
        if filled.has_command() {
            filled.spawn(Pending::Spawn(SocketCommand::StopPre))
        } else {
            filled.enter_stop_post(SocketResult::Success)
        }
    }

    /// Listening: unless each connection gets its own service instance,
    /// what is queued is dropped; then every open port is watched.
    pub open spec fn enter_listening(self) -> SocketModel {
        let flushed = if !self.env.accept {
            self.flush_ports()
        } else {
            self
        };
        flushed.watch_fds().set_state(SocketState::Listening)
    }

    /// After the ports are open: the post-start commands run, or, where
    /// there are none, the unit listens.
    pub open spec fn enter_start_post(self) -> SocketModel {
        let filled = self.unwatch_control().fill(SocketCommand::StartPost);
        if filled.has_command() {
            filled.spawn(Pending::Spawn(SocketCommand::StartPost))
        } else {
            filled.enter_listening()
        }
    }

    /// After the pre-start hook: the ports are opened one by one, or,
    /// where there are none, the post-start hook follows at once.
    pub open spec fn enter_start_chown(self) -> SocketModel {
        let entered = self.set_state(SocketState::StartChown);
        if entered.ports.len() == 0 {
            entered.enter_start_post()
        } else {
            SocketModel { pending: Pending::OpenPort(0), ..entered }.push(
                SocketOp::OpenPort { port: 0 },
            )
        }
    }

    /// On the way up: the pre-start commands run, or, where there are
    /// none, the ports are opened.
    pub open spec fn enter_start_pre(self) -> SocketModel {
        let filled = self.unwatch_control().fill(SocketCommand::StartPre);
        if filled.has_command() {
            filled.spawn(Pending::Spawn(SocketCommand::StartPre))
        } else {
            filled.enter_start_chown()
        }
    }

    /// Traffic has arrived; `fd` is the accepted connection, or negative
    /// where none was accepted. While a stop of the unit is planned, an
    /// accepted connection is counted as refused and discarded, and
    /// without one the queues are dropped. Otherwise an accepted
    /// connection is handed off to a service instance of its own, and
    /// without one the service is started unless it is up or about to be,
    /// and the unit is `Running`.
    pub open spec fn enter_running(self, fd: i32) -> SocketModel {
        if self.env.has_stop_job {
            if fd >= 0 {
                SocketModel {
                    refused: if self.refused < i32::MAX {
                        (self.refused + 1) as i32
                    } else {
                        self.refused
                    },
                    ..self
                }.push(SocketOp::Discard { fd })
            } else {
                self.flush_ports()
            }
        } else if fd >= 0 {
            self.push(SocketOp::HandOff { fd })
        } else if self.env.active_or_pending {
            self.set_state(SocketState::Running)
        } else if !self.env.has_service {
            self.enter_stop_pre(SocketResult::FailureResources)
        } else {
            SocketModel { pending: Pending::StartService, ..self }.push(
                SocketOp::LastFrame { frame: Some(SocketReFrame::FdListen(false)) },
            ).push(SocketOp::StartService).push(
                SocketOp::LastFrame { frame: Some(SocketReFrame::FdListen(true)) },
            )
        }
    }

    /// The answer to `StartService`.
    pub open spec fn service_started(self, ok: bool) -> SocketModel {
        if self.pending != Pending::StartService {
            self
        } else if ok {
            self.set_state(SocketState::Running)
        } else {
            SocketModel { pending: Pending::Idle, ..self }.enter_stop_pre(
                SocketResult::FailureResources,
            )
        }
    }

    /// The answer to `Spawn`: the process that runs the command, or none
    /// where it could not be started. The first command of a hook, once
    /// started, brings the unit into the state of the hook; where it
    /// cannot be started, the unit moves on as after a failure of the
    /// hook. A further command that cannot be started is passed over.
    pub open spec fn spawn_result(self, pid: Option<i32>) -> SocketModel {
        match self.pending {
            Pending::Spawn(cmd_type) => {
                let idle = SocketModel { pending: Pending::Idle, ..self };
                match pid {
                    Some(p) => SocketModel { control_pid: Some(p), ..idle }.set_state(
                        match cmd_type {
                            SocketCommand::StartPre => SocketState::StartPre,
                            SocketCommand::StartPost => SocketState::StartPost,
                            SocketCommand::StopPre => SocketState::StopPre,
                            SocketCommand::StopPost => SocketState::StopPost,
                        },
                    ),
                    None => match cmd_type {
                        SocketCommand::StartPre => idle.enter_stop_pre(
                            SocketResult::FailureResources,
                        ),
                        SocketCommand::StartPost => idle.enter_stop_pre(
                            SocketResult::FailureResources,
                        ),
                        SocketCommand::StopPre => idle.enter_stop_post(
                            SocketResult::FailureResources,
                        ),
                        SocketCommand::StopPost => idle.enter_signal(
                            SocketState::FinalSigterm,
                            SocketResult::FailureResources,
                        ),
                    },
                }
            },
            Pending::SpawnNext => SocketModel {
                pending: Pending::Idle,
                control_pid: if pid is Some {
                    pid
                } else {
                    self.control_pid
                },
                ..self
            },
            _ => self,
        }
    }

    /// The answer to `OpenPort`, which counts only while the ports are
    /// being opened: the descriptor, or none where the port could not be
    /// opened. An open port gets its options and the next
    /// port is opened; after the last the post-start hook follows. A port
    /// that cannot be opened closes all of them and the unit goes down.
    pub open spec fn port_opened(self, fd: Option<i32>) -> SocketModel {
        match self.pending {
            Pending::OpenPort(port) if port < self.ports.len() && self.state
                == SocketState::StartChown => match fd {
                Some(f) if f >= 0 => {
                    let opened = SocketModel {
                        ports: self.ports.update(
                            port as int,
                            PortState { fd: f, ..self.ports[port as int] },
                        ),
                        pending: Pending::Idle,
                        ..self
                    }.push(SocketOp::ApplySockOpt { port, fd: f });
                    if port + 1 < self.ports.len() {
                        SocketModel {
                            pending: Pending::OpenPort((port + 1) as usize),
                            ..opened
                        }.push(SocketOp::OpenPort { port: (port + 1) as usize })
                    } else {
                        opened.enter_start_post()
                    }
                },
                _ => SocketModel { pending: Pending::Idle, ..self }.close_fds().enter_stop_pre(
                    SocketResult::FailureResources,
                ),
            },
            _ => self,
        }
    }

    /// The answer to `Kill`. After a signal that was sent, the polite
    /// states are followed by their forceful ones, the forceful pre-stop
    /// state by the post-stop hook, and the last by rest. A signal that
    /// could not be sent counts as a failure of the stop.
    pub open spec fn kill_result(self, ok: bool) -> SocketModel {
        match self.pending {
            Pending::Kill(state) => {
                let idle = SocketModel { pending: Pending::Idle, ..self };
                if !ok {
                    if state == SocketState::StopPreSigterm || state
                        == SocketState::StopPreSigkill {
                        idle.enter_stop_post(SocketResult::FailureResources)
                    } else {
                        idle.enter_dead(SocketResult::FailureResources)
                    }
                } else if state == SocketState::StopPreSigterm {
                    idle.enter_signal(SocketState::StopPreSigkill, SocketResult::Success)
                } else if state == SocketState::StopPreSigkill {
                    idle.enter_stop_post(SocketResult::Success)
                } else if state == SocketState::FinalSigterm {
                    idle.enter_signal(SocketState::FinalSigkill, SocketResult::Success)
                } else {
                    idle.enter_dead(SocketResult::Success)
                }
            },
            _ => self,
        }
    }

    /// A control process has ended with `res`. While commands are lined
    /// up and the last one went well, the next one runs. Otherwise the
    /// hook is over and the unit moves on by its state: a start hook that
    /// went well is followed by the next step of the start, one that
    /// failed by the pre-stop hook; a pre-stop hook by the post-stop
    /// hook, and that by rest.
    pub open spec fn sigchld(self, res: SocketResult) -> SocketModel {
        if self.has_command() && res == SocketResult::Success {
            self.spawn(Pending::SpawnNext)
        } else {
            match self.state {
                SocketState::StartPre => if res == SocketResult::Success {
                    self.enter_start_chown()
                } else {
                    self.enter_stop_pre(res)
                },
                SocketState::StartChown => if res == SocketResult::Success {
                    self.enter_start_post()
                } else {
                    self.enter_stop_pre(res)
                },
                SocketState::StartPost => if res == SocketResult::Success {
                    self.enter_listening()
                } else {
                    self.enter_stop_pre(res)
                },
                SocketState::StopPre
                | SocketState::StopPreSigterm
                | SocketState::StopPreSigkill => self.enter_stop_post(res),
                SocketState::StopPost
                | SocketState::FinalSigterm
                | SocketState::FinalSigkill => self.enter_dead(res),
                _ => self,
            }
        }
    }

    /// What asking to start answers, and what it does: a unit on its way
    /// down says "again"; one on its way up says that it is starting; a
    /// service that cannot be enabled passes its error on; a unit over
    /// its start limit comes to rest as failed and says "cancelled".
    pub open spec fn start_check(self) -> (SocketModel, Result<bool, UnitActionError>) {
        if is_stopping(self.state) || self.state == SocketState::Cleaning {
            (self, Err(UnitActionError::UnitActionEAgain))
        } else if is_starting(self.state) {
            (self, Ok(true))
        } else if self.env.has_service && self.env.service_error is Some {
            (self, Err(self.env.service_error->0))
        } else if !self.env.start_limit_ok {
            (
                self.enter_dead(SocketResult::FailureStartLimitHit),
                Err(UnitActionError::UnitActionECanceled),
            )
        } else {
            (self, Ok(false))
        }
    }

    /// What asking to stop answers, and what it does: a unit on its way
    /// down says that it is stopping; one on its way up is signalled and
    /// says "again".
    pub open spec fn stop_check(self) -> (SocketModel, Result<bool, UnitActionError>) {
        if is_stopping(self.state) {
            (self, Ok(true))
        } else if is_starting(self.state) {
            (
                self.enter_signal(SocketState::StopPreSigterm, SocketResult::Success),
                Err(UnitActionError::UnitActionEAgain),
            )
        } else {
            (self, Ok(false))
        }
    }

    /// A port is ready. Only a listening unit reacts. Where each
    /// connection gets its own service instance and the port can accept,
    /// one connection is accepted first; otherwise the unit goes on as
    /// with no connection.
    pub open spec fn dispatch_io(self, port: usize) -> SocketModel {
        if self.state != SocketState::Listening || port >= self.ports.len() {
            self
        } else if self.env.accept && self.ports[port as int].p_type == PortType::Socket
            && self.ports[port as int].can_accept {
            SocketModel { pending: Pending::Accept(port), ..self }.push(
                SocketOp::Accept { port, fd: self.ports[port as int].fd },
            )
        } else {
            self.enter_running(-1i32)
        }
    }

    /// The answer to `Accept`: the connection, or none where accepting
    /// failed, which is passed over.
    pub open spec fn accepted(self, fd: Option<i32>) -> SocketModel {
        match self.pending {
            Pending::Accept(port) => {
                let idle = SocketModel { pending: Pending::Idle, ..self };
                match fd {
                    Some(f) if f >= 0 => idle.push(SocketOp::ApplySockOpt { port, fd: f })
                        .enter_running(f),
                    _ => idle,
                }
            },
            _ => self,
        }
    }

    /// After recorded state has been taken up: every open port is
    /// registered with the event loop again, and, in a state that keeps
    /// descriptors, every closed port is to be opened anew.
    pub open spec fn coldplug(self) -> SocketModel {
        let watched = self.watch_fds();
        if keeps_fds(self.state) {
            SocketModel {
                ops: watched.ops + reopen_ops(self.ports, self.ports.len() as int),
                ..watched
            }
        } else {
            watched
        }
    }

    /// The answer to `ReopenPort`, which counts only for a closed port
    /// in a state that keeps descriptors: the descriptor, or none where
    /// the port could not be opened. An open port gets its options and,
    /// where the unit listens, is watched. A port that cannot be opened
    /// brings the unit to rest, as failed where a failure was recorded.
    pub open spec fn port_reopened(self, port: usize, fd: Option<i32>) -> SocketModel {
        if port >= self.ports.len() || self.ports[port as int].fd >= 0 || !keeps_fds(self.state) {
            self
        } else {
            match fd {
                Some(f) if f >= 0 => {
                    let opened = SocketModel {
                        ports: self.ports.update(
                            port as int,
                            PortState {
                                fd: f,
                                watched: self.state == SocketState::Listening,
                                ..self.ports[port as int]
                            },
                        ),
                        ..self
                    }.push(SocketOp::ApplySockOpt { port, fd: f });
                    if self.state == SocketState::Listening {
                        opened.push(SocketOp::Watch { port, fd: f })
                    } else {
                        opened
                    }
                },
                _ => self.enter_dead(SocketResult::Success),
            }
        }
    }

    /// In `Listening` every open port is watched; in any other state no
    /// port is.
    pub open spec fn watch_consistent(self) -> bool {
        &&& self.state == SocketState::Listening ==> forall|i: int|
            0 <= i < self.ports.len() && (#[trigger] self.ports[i]).fd >= 0
                ==> self.ports[i].watched
        &&& self.state != SocketState::Listening ==> forall|i: int|
            0 <= i < self.ports.len() ==> !(#[trigger] self.ports[i]).watched
    }
}

/// The socket unit's state machine.
pub struct SocketMng {
    env: SocketEnv,
    state: SocketState,
    result: SocketResult,
    control_pid: Option<i32>,
    control_cmd_type: Option<SocketCommand>,
    control_cmd_len: usize,
    refused: i32,
    pending: Pending,
    ports: Vec<PortState>,
    ops: Vec<SocketOp>,
}

impl View for SocketMng {
    type V = SocketModel;

    closed spec fn view(&self) -> SocketModel {
        SocketModel {
            env: self.env,
            state: self.state,
            result: self.result,
            control_pid: self.control_pid,
            control_cmd_type: self.control_cmd_type,
            control_cmd_len: self.control_cmd_len,
            refused: self.refused,
            pending: self.pending,
            ports: self.ports@,
            ops: self.ops@,
        }
    }
}

impl SocketState {
    pub fn to_unit_active_state(self) -> (r: UnitActiveState)
        ensures
            r == socket_active_state(self),
    {
        match self {
            SocketState::Dead => UnitActiveState::UnitInActive,
            SocketState::StartPre | SocketState::StartChown | SocketState::StartPost => {
                UnitActiveState::UnitActivating
            },
            SocketState::Listening | SocketState::Running => UnitActiveState::UnitActive,
            SocketState::StopPre
            | SocketState::StopPreSigterm
            | SocketState::StopPost
            | SocketState::StopPreSigkill
            | SocketState::FinalSigterm
            | SocketState::FinalSigkill => UnitActiveState::UnitDeActivating,
            SocketState::Failed => UnitActiveState::UnitFailed,
            SocketState::Cleaning => UnitActiveState::UnitMaintenance,
        }
    }

    pub fn to_kill_operation(self) -> (r: KillOperation)
        ensures
            r == kill_operation(self),
    {
        match self {
            SocketState::StopPreSigterm | SocketState::FinalSigterm => KillOperation::KillTerminate,
            _ => KillOperation::KillKill,
        }
    }

    /// The name of the state.
    pub fn name(self) -> (r: &'static str)
        ensures
            r@ == socket_state_name(self),
    {
        match self {
            SocketState::Dead => "dead",
            SocketState::StartPre => "start-pre",
            SocketState::StartChown => "start-chown",
            SocketState::StartPost => "start-post",
            SocketState::Listening => "listening",
            SocketState::Running => "running",
            SocketState::StopPre => "stop-pre",
            SocketState::StopPreSigterm => "stop-pre-sigterm",
            SocketState::StopPreSigkill => "stop-pre-sigkill",
            SocketState::StopPost => "stop-post",
            SocketState::FinalSigterm => "final-sigterm",
            SocketState::FinalSigkill => "final-sigkill",
            SocketState::Failed => "failed",
            SocketState::Cleaning => "cleaning",
        }
    }
}

fn state_is_stopping(state: SocketState) -> (r: bool)
    ensures
        r == is_stopping(state),
{
    match state {
        SocketState::StopPre
        | SocketState::StopPreSigkill
        | SocketState::StopPreSigterm
        | SocketState::StopPost
        | SocketState::FinalSigterm
        | SocketState::FinalSigkill => true,
        _ => false,
    }
}

fn state_is_starting(state: SocketState) -> (r: bool)
    ensures
        r == is_starting(state),
{
    match state {
        SocketState::StartPre | SocketState::StartChown | SocketState::StartPost => true,
        _ => false,
    }
}

fn state_keeps_control(state: SocketState) -> (r: bool)
    ensures
        r == keeps_control(state),
{
    state_is_starting(state) || state_is_stopping(state)
}

fn state_keeps_fds(state: SocketState) -> (r: bool)
    ensures
        r == keeps_fds(state),
{
    match state {
        SocketState::StartChown
        | SocketState::StartPost
        | SocketState::Listening
        | SocketState::Running
        | SocketState::StopPre
        | SocketState::StopPreSigterm
        | SocketState::StopPreSigkill => true,
        _ => false,
    }
}

impl SocketMng {
    /// A unit at rest, without ports.
    pub fn new(env: SocketEnv) -> (r: SocketMng)
        ensures
            r@ == (SocketModel {
                env,
                state: SocketState::Dead,
                result: SocketResult::Success,
                control_pid: None,
                control_cmd_type: None,
                control_cmd_len: 0,
                refused: 0,
                pending: Pending::Idle,
                ports: Seq::empty(),
                ops: Seq::empty(),
            }),
            r@.watch_consistent(),
    {
        SocketMng {
            env,
            state: SocketState::Dead,
            result: SocketResult::Success,
            control_pid: None,
            control_cmd_type: None,
            control_cmd_len: 0,
            refused: 0,
            pending: Pending::Idle,
            ports: Vec::new(),
            ops: Vec::new(),
        }
    }

    /// Replaces what the machine knows of its settings and surroundings.
    pub fn set_env(&mut self, env: SocketEnv)
        ensures
            final(self)@ == (SocketModel { env, ..old(self)@ }),
    {
        self.env = env;
    }

    pub fn env(&self) -> (r: SocketEnv)
        ensures
            r == self@.env,
    {
        self.env
    }

    pub fn state(&self) -> (r: SocketState)
        ensures
            r == self@.state,
    {
        self.state
    }

    pub fn result(&self) -> (r: SocketResult)
        ensures
            r == self@.result,
    {
        self.result
    }

    pub fn refused(&self) -> (r: i32)
        ensures
            r == self@.refused,
    {
        self.refused
    }

    pub fn control_pid(&self) -> (r: Option<i32>)
        ensures
            r == self@.control_pid,
    {
        self.control_pid
    }

    pub fn control_cmd_type(&self) -> (r: Option<SocketCommand>)
        ensures
            r == self@.control_cmd_type,
    {
        self.control_cmd_type
    }

    pub fn control_cmd_len(&self) -> (r: usize)
        ensures
            r == self@.control_cmd_len,
    {
        self.control_cmd_len
    }

    pub fn pending(&self) -> (r: Pending)
        ensures
            r == self@.pending,
    {
        self.pending
    }

    /// The name of the state.
    pub fn get_state(&self) -> (r: &'static str)
        ensures
            r@ == socket_state_name(self@.state),
    {
        self.state.name()
    }

    pub fn current_active_state(&self) -> (r: UnitActiveState)
        ensures
            r == socket_active_state(self@.state),
    {
        self.state.to_unit_active_state()
    }

    /// The ports, in the order in which they were built.
    pub fn ports(&self) -> (r: Vec<PortState>)
        ensures
            r@ == self@.ports,
    {
        let mut out: Vec<PortState> = Vec::new();
        let mut i: usize = 0;
        while i < self.ports.len()
            invariant
                i <= self.ports.len(),
                out@ == self.ports@.take(i as int),
            decreases self.ports.len() - i,
        {
            out.push(self.ports[i]);
            proof {
                assert(self.ports@.take(i + 1) == self.ports@.take(i as int).push(
                    self.ports@[i as int],
                ));
            }
            i += 1;
        }
        proof {
            assert(self.ports@.take(self.ports@.len() as int) == self.ports@);
        }
        out
    }

    /// Hands over the operations that have come up, in order.
    pub fn take_ops(&mut self) -> (r: Vec<SocketOp>)
        ensures
            r@ == old(self)@.ops,
            final(self)@ == (SocketModel { ops: Seq::empty(), ..old(self)@ }),
    {
        let mut out: Vec<SocketOp> = Vec::new();
        out.append(&mut self.ops);
        out
    }

    /// Adds a closed port.
    pub fn build_port(&mut self, p_type: PortType, can_accept: bool)
        ensures
            final(self)@ == (SocketModel {
                ports: old(self)@.ports.push(
                    PortState { p_type, can_accept, fd: -1i32, watched: false },
                ),
                ..old(self)@
            }),
            old(self)@.watch_consistent() ==> final(self)@.watch_consistent(),
    {
        self.ports.push(PortState { p_type, can_accept, fd: -1, watched: false });
    }

    /// Removes every port. Their descriptors are not closed.
    pub fn clear_ports(&mut self)
        ensures
            final(self)@ == (SocketModel { ports: Seq::empty(), ..old(self)@ }),
    {
        self.ports.clear();
    }

    /// The descriptors of the open ports, in order.
    pub fn collect_fds(&self) -> (r: Vec<i32>)
        ensures
            r@ == open_fds(self@.ports, self@.ports.len() as int),
    {
        let mut fds: Vec<i32> = Vec::new();
        let mut i: usize = 0;
        while i < self.ports.len()
            invariant
                i <= self.ports.len(),
                fds@ == open_fds(self.ports@, i as int),
            decreases self.ports.len() - i,
        {
            if self.ports[i].fd >= 0 {
                fds.push(self.ports[i].fd);
            }
            i += 1;
        }
        fds
    }

    /// Takes up recorded state: where the unit stood, and the descriptor
    /// of each port. A record that does not fit the ports that were
    /// built, or that names a command count without a hook or beyond the
    /// hook's commands, is turned down and nothing changes.
    pub fn restore(
        &mut self,
        state: SocketState,
        result: SocketResult,
        control_pid: Option<i32>,
        control_cmd_type: Option<SocketCommand>,
        control_cmd_len: usize,
        refused: i32,
        fds: &Vec<i32>,
    ) -> (ok: bool)
        ensures
            ok == restorable(old(self)@, control_cmd_type, control_cmd_len, fds@),
            !ok ==> final(self)@ == old(self)@,
            ok ==> final(self)@ == (SocketModel {
                state,
                result,
                control_pid,
                control_cmd_type,
                control_cmd_len,
                refused,
                pending: Pending::Idle,
                ports: Seq::new(
                    old(self)@.ports.len(),
                    |i: int| PortState { fd: fds@[i], watched: false, ..old(self)@.ports[i] },
                ),
                ..old(self)@
            }),
    {
        if fds.len() != self.ports.len() {
            return false;
        }
        match control_cmd_type {
            Some(cmd_type) => {
                if control_cmd_len > self.env.get_count(cmd_type) {
                    return false;
                }
            },
            None => {
                if control_cmd_len != 0 {
                    return false;
                }
            },
        }
        self.state = state;
        self.result = result;
        self.control_pid = control_pid;
        self.control_cmd_type = control_cmd_type;
        self.control_cmd_len = control_cmd_len;
        self.refused = refused;
        self.pending = Pending::Idle;
        let mut i: usize = 0;
        while i < self.ports.len()
            invariant
                i <= self.ports.len(),
                fds@.len() == self.ports@.len(),
                self.ports@.len() == old(self)@.ports.len(),
                self@ == (SocketModel {
                    state,
                    result,
                    control_pid,
                    control_cmd_type,
                    control_cmd_len,
                    refused,
                    pending: Pending::Idle,
                    ports: self.ports@,
                    ..old(self)@
                }),
                forall|k: int|
                    0 <= k < i ==> self.ports@[k] == (PortState {
                        fd: fds@[k],
                        watched: false,
                        ..old(self)@.ports[k]
                    }),
                forall|k: int| i <= k < self.ports@.len() ==> self.ports@[k] == old(self)@.ports[k],
            decreases self.ports.len() - i,
        {
            let port = self.ports[i];
            self.ports.set(
                i,
                PortState {
                    p_type: port.p_type,
                    can_accept: port.can_accept,
                    fd: fds[i],
                    watched: false,
                },
            );
            i += 1;
        }
        proof {
            assert(self.ports@ =~= Seq::new(
                old(self)@.ports.len(),
                |i: int| PortState { fd: fds@[i], watched: false, ..old(self)@.ports[i] },
            ));
        }
        true
    }

    /// After recorded state has been taken up: registers the open ports
    /// with the event loop again and asks for the closed ones to be
    /// opened anew.
    pub fn entry_coldplug(&mut self)
        ensures
            final(self)@ == old(self)@.coldplug(),
            old(self)@.state == SocketState::Listening ==> final(self)@.watch_consistent(),
    {
        let ghost before = self@;
        proof {
            lemma_coldplug_listening(before);
        }
        self.watch_fds();
        if state_keeps_fds(self.state) {
            let ghost watched = self@;
            let ghost ops0 = self.ops@;
            let mut i: usize = 0;
            while i < self.ports.len()
                invariant
                    i <= self.ports.len(),
                    self.ports@ == watched.ports,
                    self.ports@.len() == before.ports.len(),
                    forall|k: int|
                        0 <= k < before.ports.len() ==> (#[trigger] watched.ports[k]).fd
                            == before.ports[k].fd,
                    self@ == (SocketModel { ops: self.ops@, ..watched }),
                    self.ops@ == ops0 + reopen_ops(before.ports, i as int),
                decreases self.ports.len() - i,
            {
                if self.ports[i].fd < 0 {
                    self.ops.push(SocketOp::ReopenPort { port: i });
                    proof {
                        assert(self.ops@ =~= ops0 + reopen_ops(before.ports, i + 1));
                    }
                }
                i += 1;
            }
        }
    }

    /// The answer to a `ReopenPort` operation.
    pub fn port_reopened(&mut self, port: usize, fd: Option<i32>)
        ensures
            final(self)@ == old(self)@.port_reopened(port, fd),
            old(self)@.watch_consistent() ==> final(self)@.watch_consistent(),
    {
        proof {
            if self@.watch_consistent() {
                lemma_step_port_reopened(self@, port, fd);
            }
        }
        if port >= self.ports.len() || self.ports[port].fd >= 0 || !state_keeps_fds(self.state) {
            return ;
        }
        let open = match fd {
            Some(f) => f >= 0,
            None => false,
        };
        match fd {
            Some(f) if open => {
                let old_port = self.ports[port];
                let listening = self.state == SocketState::Listening;
                self.ports.set(
                    port,
                    PortState {
                        p_type: old_port.p_type,
                        can_accept: old_port.can_accept,
                        fd: f,
                        watched: listening,
                    },
                );
                self.ops.push(SocketOp::ApplySockOpt { port, fd: f });
                if listening {
                    self.ops.push(SocketOp::Watch { port, fd: f });
                }
            },
            _ => {
                self.enter_dead(SocketResult::Success);
            },
        }
    }

    /// Disables the port event sources.
    pub fn entry_clear(&mut self)
        ensures
            final(self)@ == old(self)@.unwatch_fds(),
    {
        self.unwatch_fds();
    }

    pub fn start_check(&mut self) -> (r: Result<bool, UnitActionError>)
        ensures
            final(self)@ == old(self)@.start_check().0,
            r == old(self)@.start_check().1,
            old(self)@.watch_consistent() ==> final(self)@.watch_consistent(),
    {
        proof {
            if self@.watch_consistent() {
                lemma_step_start_check(self@);
            }
        }
        if state_is_stopping(self.state) || self.state == SocketState::Cleaning {
            return Err(UnitActionError::UnitActionEAgain);
        }
        if state_is_starting(self.state) {
            return Ok(true);
        }
        if self.env.has_service {
            match self.env.service_error {
                Some(e) => {
                    return Err(e);
                },
                None => {},
            }
        }
        if !self.env.start_limit_ok {
            self.enter_dead(SocketResult::FailureStartLimitHit);
            return Err(UnitActionError::UnitActionECanceled);
        }
        Ok(false)
    }

    pub fn start_action(&mut self)
        ensures
            final(self)@ == old(self)@.enter_start_pre(),
            old(self)@.watch_consistent() ==> final(self)@.watch_consistent(),
    {
        proof {
            if self@.watch_consistent() {
                lemma_enter_start_pre(self@);
            }
        }
        self.enter_start_pre();
    }

    pub fn stop_check(&mut self) -> (r: Result<bool, UnitActionError>)
        ensures
            final(self)@ == old(self)@.stop_check().0,
            r == old(self)@.stop_check().1,
            old(self)@.watch_consistent() ==> final(self)@.watch_consistent(),
    {
        proof {
            if self@.watch_consistent() {
                lemma_step_stop_check(self@);
            }
        }
        if state_is_stopping(self.state) {
            return Ok(true);
        }
        if state_is_starting(self.state) {
            self.enter_signal(SocketState::StopPreSigterm, SocketResult::Success);
            return Err(UnitActionError::UnitActionEAgain);
        }
        Ok(false)
    }

    pub fn stop_action(&mut self)
        ensures
            final(self)@ == old(self)@.enter_stop_pre(SocketResult::Success),
            old(self)@.watch_consistent() ==> final(self)@.watch_consistent(),
    {
        proof {
            if self@.watch_consistent() {
                lemma_enter_stop_pre(self@, SocketResult::Success);
            }
        }
        self.enter_stop_pre(SocketResult::Success);
    }

    /// What the end of a control process means for the unit.
    pub fn sigchld_result(&self, wait_status: WaitStatus) -> (r: SocketResult)
        requires
            wait_status is Exited || wait_status is Signaled,
        ensures
            r == sigchld_outcome(wait_status),
    {
        match wait_status {
            WaitStatus::Exited { pid, code } => {
                if code == 0 {
                    SocketResult::Success
                } else {
                    SocketResult::FailureExitCode
                }
            },
            WaitStatus::Signaled { pid, signal, core_dump } => {
                if core_dump {
                    SocketResult::FailureCoreDump
                } else {
                    SocketResult::FailureSignal
                }
            },
            _ => SocketResult::Success,
        }
    }

    /// A control process has exited or was killed.
    pub fn sigchld_event(&mut self, wait_status: WaitStatus)
        requires
            wait_status is Exited || wait_status is Signaled,
        ensures
            final(self)@ == old(self)@.sigchld(sigchld_outcome(wait_status)),
            old(self)@.watch_consistent() ==> final(self)@.watch_consistent(),
    {
        let res = self.sigchld_result(wait_status);
        proof {
            if self@.watch_consistent() {
                lemma_step_sigchld(self@, res);
            }
        }
        if self.has_command() && res == SocketResult::Success {
            self.run_next();
        } else {
            match self.state {
                SocketState::StartPre => {
                    if res == SocketResult::Success {
                        self.enter_start_chown();
                    } else {
                        self.enter_stop_pre(res);
                    }
                },
                SocketState::StartChown => {
                    if res == SocketResult::Success {
                        self.enter_start_post();
                    } else {
                        self.enter_stop_pre(res);
                    }
                },
                SocketState::StartPost => {
                    if res == SocketResult::Success {
                        self.enter_listening();
                    } else {
                        self.enter_stop_pre(res);
                    }
                },
                SocketState::StopPre
                | SocketState::StopPreSigterm
                | SocketState::StopPreSigkill => {
                    self.enter_stop_post(res);
                },
                SocketState::StopPost | SocketState::FinalSigterm | SocketState::FinalSigkill => {
                    self.enter_dead(res);
                },
                _ => {},
            }
        }
    }

    /// The answer to a `Spawn` operation.
    pub fn spawn_result(&mut self, pid: Option<i32>)
        ensures
            final(self)@ == old(self)@.spawn_result(pid),
            old(self)@.watch_consistent() ==> final(self)@.watch_consistent(),
    {
        proof {
            if self@.watch_consistent() {
                lemma_step_spawn_result(self@, pid);
            }
        }
        match self.pending {
            Pending::Spawn(cmd_type) => {
                self.pending = Pending::Idle;
                match pid {
                    Some(p) => {
                        self.control_pid = Some(p);
                        let state = match cmd_type {
                            SocketCommand::StartPre => SocketState::StartPre,
                            SocketCommand::StartPost => SocketState::StartPost,
                            SocketCommand::StopPre => SocketState::StopPre,
                            SocketCommand::StopPost => SocketState::StopPost,
                        };
                        self.set_state(state);
                    },
                    None => {
                        match cmd_type {
                            SocketCommand::StartPre => {
                                self.enter_stop_pre(SocketResult::FailureResources);
                            },
                            SocketCommand::StartPost => {
                                self.enter_stop_pre(SocketResult::FailureResources);
                            },
                            SocketCommand::StopPre => {
                                self.enter_stop_post(SocketResult::FailureResources);
                            },
                            SocketCommand::StopPost => {
                                self.enter_signal(
                                    SocketState::FinalSigterm,
                                    SocketResult::FailureResources,
                                );
                            },
                        }
                    },
                }
            },
            Pending::SpawnNext => {
                self.pending = Pending::Idle;
                match pid {
                    Some(p) => {
                        self.control_pid = Some(p);
                    },
                    None => {},
                }
            },
            _ => {},
        }
    }

    /// The answer to an `OpenPort` operation.
    pub fn port_opened(&mut self, fd: Option<i32>)
        ensures
            final(self)@ == old(self)@.port_opened(fd),
            old(self)@.watch_consistent() ==> final(self)@.watch_consistent(),
    {
        proof {
            if self@.watch_consistent() {
                lemma_step_port_opened(self@, fd);
            }
        }
        match self.pending {
            Pending::OpenPort(port) => {
                if port < self.ports.len() && self.state == SocketState::StartChown {
                    let open = match fd {
                        Some(f) => f >= 0,
                        None => false,
                    };
                    self.pending = Pending::Idle;
                    match fd {
                        Some(f) if open => {
                            let old_port = self.ports[port];
                            self.ports.set(
                                port,
                                PortState {
                                    p_type: old_port.p_type,
                                    can_accept: old_port.can_accept,
                                    fd: f,
                                    watched: old_port.watched,
                                },
                            );
                            self.ops.push(SocketOp::ApplySockOpt { port, fd: f });
                            if port + 1 < self.ports.len() {
                                self.pending = Pending::OpenPort(port + 1);
                                self.ops.push(SocketOp::OpenPort { port: port + 1 });
                            } else {
                                self.enter_start_post();
                            }
                        },
                        _ => {
                            self.close_fds();
                            self.enter_stop_pre(SocketResult::FailureResources);
                        },
                    }
                }
            },
            _ => {},
        }
    }

    /// The answer to a `Kill` operation.
    pub fn kill_result(&mut self, ok: bool)
        ensures
            final(self)@ == old(self)@.kill_result(ok),
            old(self)@.watch_consistent() ==> final(self)@.watch_consistent(),
    {
        proof {
            if self@.watch_consistent() {
                lemma_step_kill_result(self@, ok);
            }
        }
        match self.pending {
            Pending::Kill(state) => {
                self.pending = Pending::Idle;
                if !ok {
                    if state == SocketState::StopPreSigterm || state
                        == SocketState::StopPreSigkill {
                        self.enter_stop_post(SocketResult::FailureResources);
                    } else {
                        self.enter_dead(SocketResult::FailureResources);
                    }
                } else if state == SocketState::StopPreSigterm {
                    self.enter_signal(SocketState::StopPreSigkill, SocketResult::Success);
                } else if state == SocketState::StopPreSigkill {
                    self.enter_stop_post(SocketResult::Success);
                } else if state == SocketState::FinalSigterm {
                    self.enter_signal(SocketState::FinalSigkill, SocketResult::Success);
                } else {
                    self.enter_dead(SocketResult::Success);
                }
            },
            _ => {},
        }
    }

    /// The answer to a `StartService` operation.
    pub fn service_started(&mut self, ok: bool)
        ensures
            final(self)@ == old(self)@.service_started(ok),
            old(self)@.watch_consistent() ==> final(self)@.watch_consistent(),
    {
        proof {
            if self@.watch_consistent() {
                lemma_step_service_started(self@, ok);
            }
        }
        if self.pending != Pending::StartService {
            return ;
        }
        if ok {
            self.set_state(SocketState::Running);
        } else {
            self.pending = Pending::Idle;
            self.enter_stop_pre(SocketResult::FailureResources);
        }
    }

    /// The port at place `port` is ready.
    pub fn dispatch_io(&mut self, port: usize)
        ensures
            final(self)@ == old(self)@.dispatch_io(port),
            old(self)@.watch_consistent() ==> final(self)@.watch_consistent(),
    {
        proof {
            if self@.watch_consistent() {
                lemma_step_dispatch_io(self@, port);
            }
        }
        if self.state != SocketState::Listening || port >= self.ports.len() {
            return ;
        }
        let p = self.ports[port];
        if self.env.accept && p.p_type == PortType::Socket && p.can_accept {
            self.pending = Pending::Accept(port);
            self.ops.push(SocketOp::Accept { port, fd: p.fd });
        } else {
            self.enter_running(-1);
        }
    }

    /// The answer to an `Accept` operation.
    pub fn accepted(&mut self, fd: Option<i32>)
        ensures
            final(self)@ == old(self)@.accepted(fd),
            old(self)@.watch_consistent() ==> final(self)@.watch_consistent(),
    {
        proof {
            if self@.watch_consistent() {
                lemma_step_accepted(self@, fd);
            }
        }
        if let Pending::Accept(port) = self.pending {
            self.pending = Pending::Idle;
            if let Some(f) = fd {
                if f >= 0 {
                    self.ops.push(SocketOp::ApplySockOpt { port, fd: f });
                    self.enter_running(f);
                }
            }
        }
    }

    fn note(&mut self, res: SocketResult)
        ensures
            final(self)@ == old(self)@.note(res),
    {
        if self.result == SocketResult::Success {
            self.result = res;
        }
    }

    fn unwatch_control(&mut self)
        ensures
            final(self)@ == old(self)@.unwatch_control(),
    {
        match self.control_pid {
            Some(pid) => {
                self.control_pid = None;
                self.ops.push(SocketOp::UnwatchPid { pid });
            },
            None => {},
        }
    }

    fn control_command_fill(&mut self, cmd_type: SocketCommand)
        ensures
            final(self)@ == old(self)@.fill(cmd_type),
    {
        self.control_cmd_type = Some(cmd_type);
        self.control_cmd_len = self.env.get_count(cmd_type);
    }

    fn has_command(&self) -> (r: bool)
        ensures
            r == self@.has_command(),
    {
        self.control_cmd_type.is_some() && self.control_cmd_len > 0
    }

    /// Hands out the last command that is lined up.
    fn control_command_pop(&mut self, pending: Pending)
        ensures
            final(self)@ == old(self)@.spawn(pending),
    {
        match self.control_cmd_type {
            Some(cmd_type) => {
                if self.control_cmd_len > 0 {
                    self.control_cmd_len = self.control_cmd_len - 1;
                    self.pending = pending;
                    self.ops.push(SocketOp::Spawn { cmd_type, index: self.control_cmd_len });
                }
            },
            None => {},
        }
    }

    fn run_next(&mut self)
        ensures
            final(self)@ == old(self)@.spawn(Pending::SpawnNext),
    {
        self.control_command_pop(Pending::SpawnNext);
    }

    fn unwatch_fds(&mut self)
        ensures
            final(self)@ == old(self)@.unwatch_fds(),
    {
        let ghost before = self@;
        let mut i: usize = 0;
        while i < self.ports.len()
            invariant
                i <= self.ports.len(),
                self.ports@.len() == before.ports.len(),
                self@ == (SocketModel { ports: self.ports@, ops: self.ops@, ..before }),
                forall|k: int|
                    0 <= k < i ==> self.ports@[k] == (PortState {
                        watched: false,
                        ..before.ports[k]
                    }),
                forall|k: int| i <= k < self.ports@.len() ==> self.ports@[k] == before.ports[k],
                self.ops@ == before.ops + Seq::new(
                    i as nat,
                    |k: int| SocketOp::Unwatch { port: k as usize, fd: before.ports[k].fd },
                ),
            decreases self.ports.len() - i,
        {
            let port = self.ports[i];
            self.ops.push(SocketOp::Unwatch { port: i, fd: port.fd });
            self.ports.set(
                i,
                PortState {
                    p_type: port.p_type,
                    can_accept: port.can_accept,
                    fd: port.fd,
                    watched: false,
                },
            );
            proof {
                assert(self.ops@ =~= before.ops + Seq::new(
                    (i + 1) as nat,
                    |k: int| SocketOp::Unwatch { port: k as usize, fd: before.ports[k].fd },
                ));
            }
            i += 1;
        }
        proof {
            assert(self.ports@ =~= before.unwatch_fds().ports);
            assert(self.ops@ =~= before.unwatch_fds().ops);
        }
    }

    fn close_fds(&mut self)
        ensures
            final(self)@ == old(self)@.close_fds(),
    {
        let ghost before = self@;
        let mut i: usize = 0;
        while i < self.ports.len()
            invariant
                i <= self.ports.len(),
                self.ports@ == before.ports,
                self@ == (SocketModel { ops: self.ops@, ..before }),
                self.ops@ == before.ops + Seq::new(
                    i as nat,
                    |k: int| SocketOp::RemoveSource { port: k as usize, fd: before.ports[k].fd },
                ),
            decreases self.ports.len() - i,
        {
            self.ops.push(SocketOp::RemoveSource { port: i, fd: self.ports[i].fd });
            proof {
                assert(self.ops@ =~= before.ops + Seq::new(
                    (i + 1) as nat,
                    |k: int| SocketOp::RemoveSource { port: k as usize, fd: before.ports[k].fd },
                ));
            }
            i += 1;
        }
        let ghost removed = self.ops@;
        let mut i: usize = 0;
        while i < self.ports.len()
            invariant
                i <= self.ports.len(),
                self.ports@.len() == before.ports.len(),
                self@ == (SocketModel { ports: self.ports@, ops: self.ops@, ..before }),
                forall|k: int|
                    0 <= k < i ==> self.ports@[k] == (PortState {
                        fd: -1i32,
                        watched: false,
                        ..before.ports[k]
                    }),
                forall|k: int| i <= k < self.ports@.len() ==> self.ports@[k] == before.ports[k],
                self.ops@ == removed + Seq::new(
                    i as nat,
                    |k: int| SocketOp::Close { port: k as usize, fd: before.ports[k].fd },
                ),
            decreases self.ports.len() - i,
        {
            let port = self.ports[i];
            self.ops.push(SocketOp::Close { port: i, fd: port.fd });
            self.ports.set(
                i,
                PortState {
                    p_type: port.p_type,
                    can_accept: port.can_accept,
                    fd: -1,
                    watched: false,
                },
            );
            proof {
                assert(self.ops@ =~= removed + Seq::new(
                    (i + 1) as nat,
                    |k: int| SocketOp::Close { port: k as usize, fd: before.ports[k].fd },
                ));
            }
            i += 1;
        }
        proof {
            assert(self.ports@ =~= before.close_fds().ports);
            assert(self.ops@ =~= before.close_fds().ops);
        }
    }

    fn watch_fds(&mut self)
        ensures
            final(self)@ == old(self)@.watch_fds(),
    {
        let ghost before = self@;
        let mut i: usize = 0;
        while i < self.ports.len()
            invariant
                i <= self.ports.len(),
                self.ports@.len() == before.ports.len(),
                self@ == (SocketModel { ports: self.ports@, ops: self.ops@, ..before }),
                forall|k: int|
                    0 <= k < i ==> self.ports@[k] == if before.ports[k].fd >= 0 {
                        PortState { watched: true, ..before.ports[k] }
                    } else {
                        before.ports[k]
                    },
                forall|k: int| i <= k < self.ports@.len() ==> self.ports@[k] == before.ports[k],
                self.ops@ == before.ops + watch_ops(before.ports, i as int),
            decreases self.ports.len() - i,
        {
            let port = self.ports[i];
            if port.fd >= 0 {
                self.ops.push(SocketOp::Watch { port: i, fd: port.fd });
                self.ports.set(
                    i,
                    PortState {
                        p_type: port.p_type,
                        can_accept: port.can_accept,
                        fd: port.fd,
                        watched: true,
                    },
                );
                proof {
                    assert(self.ops@ =~= before.ops + watch_ops(before.ports, i + 1));
                }
            }
            i += 1;
        }
        proof {
            assert(self.ports@ =~= before.watch_fds().ports);
        }
    }

    fn flush_ports(&mut self)
        ensures
            final(self)@ == old(self)@.flush_ports(),
    {
        let ghost before = self@;
        let mut i: usize = 0;
        while i < self.ports.len()
            invariant
                i <= self.ports.len(),
                self.ports@ == before.ports,
                self@ == (SocketModel { ops: self.ops@, ..before }),
                self.ops@ == before.ops + Seq::new(
                    i as nat,
                    |k: int| SocketOp::Flush { port: k as usize, fd: before.ports[k].fd },
                ),
            decreases self.ports.len() - i,
        {
            self.ops.push(SocketOp::Flush { port: i, fd: self.ports[i].fd });
            proof {
                assert(self.ops@ =~= before.ops + Seq::new(
                    (i + 1) as nat,
                    |k: int| SocketOp::Flush { port: k as usize, fd: before.ports[k].fd },
                ));
            }
            i += 1;
        }
        proof {
            assert(self.ops@ =~= before.flush_ports().ops);
        }
    }

    fn set_state(&mut self, state: SocketState)
        ensures
            final(self)@ == old(self)@.set_state(state),
    {
        let prior_state = self.state;
        self.state = state;
        self.pending = Pending::Idle;
        if !state_keeps_control(state) {
            self.unwatch_control();
        }
        if state != SocketState::Listening {
            self.unwatch_fds();
        }
        if !state_keeps_fds(state) {
            self.close_fds();
        }
        self.ops.push(
            SocketOp::Notify {
                from: prior_state.to_unit_active_state(),
                to: state.to_unit_active_state(),
            },
        );
    }

    fn enter_dead(&mut self, res: SocketResult)
        ensures
            final(self)@ == old(self)@.enter_dead(res),
    {
        self.note(res);
        let state = if self.result == SocketResult::Success {
            SocketState::Dead
        } else {
            SocketState::Failed
        };
        self.set_state(state);
    }

    fn enter_signal(&mut self, state: SocketState, res: SocketResult)
        ensures
            final(self)@ == old(self)@.enter_signal(state, res),
    {
        self.note(res);
        self.set_state(state);
        let operation = state.to_kill_operation();
        self.pending = Pending::Kill(state);
        self.ops.push(SocketOp::Kill { operation, control_pid: self.control_pid });
    }

    fn enter_stop_post(&mut self, res: SocketResult)
        ensures
            final(self)@ == old(self)@.enter_stop_post(res),
    {
        self.note(res);
        self.control_command_fill(SocketCommand::StopPost);
        if self.has_command() {
            self.control_command_pop(Pending::Spawn(SocketCommand::StopPost));
        } else {
            self.enter_signal(SocketState::FinalSigterm, SocketResult::Success);
        }
    }

    fn enter_stop_pre(&mut self, res: SocketResult)
        ensures
            final(self)@ == old(self)@.enter_stop_pre(res),
    {
        self.note(res);
        self.unwatch_control();
        self.control_command_fill(SocketCommand::StopPre);
        if self.has_command() {
            self.control_command_pop(Pending::Spawn(SocketCommand::StopPre));
        } else {
            self.enter_stop_post(SocketResult::Success);
        }
    }

    fn enter_listening(&mut self)
        ensures
            final(self)@ == old(self)@.enter_listening(),
    {
        if !self.env.accept {
            self.flush_ports();
        }
        self.watch_fds();
        self.set_state(SocketState::Listening);
    }

    fn enter_start_post(&mut self)
        ensures
            final(self)@ == old(self)@.enter_start_post(),
    {
        self.unwatch_control();
        self.control_command_fill(SocketCommand::StartPost);
        if self.has_command() {
            self.control_command_pop(Pending::Spawn(SocketCommand::StartPost));
        } else {
            self.enter_listening();
        }
    }

    fn enter_start_chown(&mut self)
        ensures
            final(self)@ == old(self)@.enter_start_chown(),
    {
        self.set_state(SocketState::StartChown);
        if self.ports.len() == 0 {
            self.enter_start_post();
        } else {
            self.pending = Pending::OpenPort(0);
            self.ops.push(SocketOp::OpenPort { port: 0 });
        }
    }

    fn enter_start_pre(&mut self)
        ensures
            final(self)@ == old(self)@.enter_start_pre(),
    {
        self.unwatch_control();
        self.control_command_fill(SocketCommand::StartPre);
        if self.has_command() {
            self.control_command_pop(Pending::Spawn(SocketCommand::StartPre));
        } else {
            self.enter_start_chown();
        }
    }

    fn enter_running(&mut self, fd: i32)
        ensures
            final(self)@ == old(self)@.enter_running(fd),
    {
        if self.env.has_stop_job {
            if fd >= 0 {
                if self.refused < i32::MAX {
                    self.refused = self.refused + 1;
                }
                self.ops.push(SocketOp::Discard { fd });
                return ;
            }
            self.flush_ports();
            return ;
        }
        if fd >= 0 {
            self.ops.push(SocketOp::HandOff { fd });
        } else if self.env.active_or_pending {
            self.set_state(SocketState::Running);
        } else if !self.env.has_service {
            self.enter_stop_pre(SocketResult::FailureResources);
        } else {
            self.pending = Pending::StartService;
            self.ops.push(SocketOp::LastFrame { frame: Some(SocketReFrame::FdListen(false)) });
            self.ops.push(SocketOp::StartService);
            self.ops.push(SocketOp::LastFrame { frame: Some(SocketReFrame::FdListen(true)) });
        }
    }
}

/// Whether a record fits the machine: one descriptor for each port, and
/// a command count that the recorded hook can have.
pub open spec fn restorable(
    m: SocketModel,
    control_cmd_type: Option<SocketCommand>,
    control_cmd_len: usize,
    fds: Seq<i32>,
) -> bool {
    &&& fds.len() == m.ports.len()
    &&& match control_cmd_type {
        Some(cmd_type) => control_cmd_len <= m.env.count(cmd_type),
        None => control_cmd_len == 0,
    }
}

/// What can happen to a socket unit.
#[derive(Clone, Copy, PartialEq, Eq, Debug, Structural)]
pub enum SocketEvent {
    StartCheck,
    StartAction,
    StopCheck,
    StopAction,
    Sigchld(SocketResult),
    SpawnResult(Option<i32>),
    PortOpened(Option<i32>),
    KillResult(bool),
    ServiceStarted(bool),
    DispatchIo(usize),
    Accepted(Option<i32>),
    PortReopened { port: usize, fd: Option<i32> },
    EntryClear,
}

/// The machine after an event.
pub open spec fn socket_step(m: SocketModel, event: SocketEvent) -> SocketModel {
    match event {
        SocketEvent::StartCheck => m.start_check().0,
        SocketEvent::StartAction => m.enter_start_pre(),
        SocketEvent::StopCheck => m.stop_check().0,
        SocketEvent::StopAction => m.enter_stop_pre(SocketResult::Success),
        SocketEvent::Sigchld(res) => m.sigchld(res),
        SocketEvent::SpawnResult(pid) => m.spawn_result(pid),
        SocketEvent::PortOpened(fd) => m.port_opened(fd),
        SocketEvent::KillResult(ok) => m.kill_result(ok),
        SocketEvent::ServiceStarted(ok) => m.service_started(ok),
        SocketEvent::DispatchIo(port) => m.dispatch_io(port),
        SocketEvent::Accepted(fd) => m.accepted(fd),
        SocketEvent::PortReopened { port, fd } => m.port_reopened(port, fd),
        SocketEvent::EntryClear => m.unwatch_fds(),
    }
}

/// Entering a state leaves the ports watched as the state asks: in
/// `Listening` as they were, in any other state not at all.
pub proof fn lemma_set_state_watch(m: SocketModel, state: SocketState)
    ensures
        m.set_state(state).state == state,
        m.set_state(state).ports.len() == m.ports.len(),
        m.set_state(state).env == m.env,
        state != SocketState::Listening ==> m.set_state(state).watch_consistent(),
        state == SocketState::Listening ==> m.set_state(state).ports == m.ports,
{
    let moved = SocketModel { state, pending: Pending::Idle, ..m };
    let without_control = if keeps_control(state) {
        moved
    } else {
        moved.unwatch_control()
    };
    assert(without_control.ports == m.ports);
    if state == SocketState::Listening {
        assert(keeps_fds(state));
    }
}

proof fn lemma_enter_dead(m: SocketModel, res: SocketResult)
    ensures
        m.enter_dead(res).watch_consistent(),
{
    let noted = m.note(res);
    lemma_set_state_watch(noted, SocketState::Dead);
    lemma_set_state_watch(noted, SocketState::Failed);
}

proof fn lemma_enter_signal(m: SocketModel, state: SocketState, res: SocketResult)
    requires
        state != SocketState::Listening,
    ensures
        m.enter_signal(state, res).watch_consistent(),
{
    lemma_set_state_watch(m.note(res), state);
}

proof fn lemma_enter_stop_post(m: SocketModel, res: SocketResult)
    requires
        m.watch_consistent(),
    ensures
        m.enter_stop_post(res).watch_consistent(),
{
    let filled = m.note(res).fill(SocketCommand::StopPost);
    lemma_enter_signal(filled, SocketState::FinalSigterm, SocketResult::Success);
}

proof fn lemma_enter_stop_pre(m: SocketModel, res: SocketResult)
    requires
        m.watch_consistent(),
    ensures
        m.enter_stop_pre(res).watch_consistent(),
{
    let filled = m.note(res).unwatch_control().fill(SocketCommand::StopPre);
    assert(filled.ports == m.ports && filled.state == m.state);
    lemma_enter_stop_post(filled, SocketResult::Success);
}

proof fn lemma_enter_listening(m: SocketModel)
    ensures
        m.enter_listening().watch_consistent(),
{
    let flushed = if !m.env.accept {
        m.flush_ports()
    } else {
        m
    };
    let watched = flushed.watch_fds();
    lemma_set_state_watch(watched, SocketState::Listening);
    let after = m.enter_listening();
    assert forall|i: int| 0 <= i < after.ports.len() && (#[trigger] after.ports[i]).fd
        >= 0 implies after.ports[i].watched by {
        assert(after.ports[i] == watched.ports[i]);
    }
}

proof fn lemma_enter_start_post(m: SocketModel)
    requires
        m.watch_consistent(),
    ensures
        m.enter_start_post().watch_consistent(),
{
    let filled = m.unwatch_control().fill(SocketCommand::StartPost);
    assert(filled.ports == m.ports && filled.state == m.state);
    lemma_enter_listening(filled);
}

proof fn lemma_enter_start_chown(m: SocketModel)
    ensures
        m.enter_start_chown().watch_consistent(),
{
    lemma_set_state_watch(m, SocketState::StartChown);
    lemma_enter_start_post(m.set_state(SocketState::StartChown));
}

proof fn lemma_enter_start_pre(m: SocketModel)
    requires
        m.watch_consistent(),
    ensures
        m.enter_start_pre().watch_consistent(),
{
    let filled = m.unwatch_control().fill(SocketCommand::StartPre);
    assert(filled.ports == m.ports && filled.state == m.state);
    lemma_enter_start_chown(filled);
}

proof fn lemma_enter_running(m: SocketModel, fd: i32)
    requires
        m.watch_consistent(),
    ensures
        m.enter_running(fd).watch_consistent(),
{
    lemma_set_state_watch(m, SocketState::Running);
    lemma_enter_stop_pre(m, SocketResult::FailureResources);
}

proof fn lemma_step_start_check(m: SocketModel)
    requires
        m.watch_consistent(),
    ensures
        m.start_check().0.watch_consistent(),
{
    lemma_enter_dead(m, SocketResult::FailureStartLimitHit);
}

proof fn lemma_step_stop_check(m: SocketModel)
    requires
        m.watch_consistent(),
    ensures
        m.stop_check().0.watch_consistent(),
{
    lemma_enter_signal(m, SocketState::StopPreSigterm, SocketResult::Success);
}

proof fn lemma_step_sigchld(m: SocketModel, res: SocketResult)
    requires
        m.watch_consistent(),
    ensures
        m.sigchld(res).watch_consistent(),
{
    if m.has_command() && res == SocketResult::Success {
    } else {
        match m.state {
            SocketState::StartPre => {
                lemma_enter_start_chown(m);
                lemma_enter_stop_pre(m, res);
            },
            SocketState::StartChown => {
                lemma_enter_start_post(m);
                lemma_enter_stop_pre(m, res);
            },
            SocketState::StartPost => {
                lemma_enter_listening(m);
                lemma_enter_stop_pre(m, res);
            },
            SocketState::StopPre | SocketState::StopPreSigterm | SocketState::StopPreSigkill => {
                lemma_enter_stop_post(m, res);
            },
            SocketState::StopPost | SocketState::FinalSigterm | SocketState::FinalSigkill => {
                lemma_enter_dead(m, res);
            },
            _ => {},
        }
    }
}

proof fn lemma_step_spawn_result(m: SocketModel, pid: Option<i32>)
    requires
        m.watch_consistent(),
    ensures
        m.spawn_result(pid).watch_consistent(),
{
    let idle = SocketModel { pending: Pending::Idle, ..m };
    match m.pending {
        Pending::Spawn(cmd_type) => {
            match pid {
                Some(p) => {
                    let with_pid = SocketModel { control_pid: Some(p), ..idle };
                    lemma_set_state_watch(with_pid, SocketState::StartPre);
                    lemma_set_state_watch(with_pid, SocketState::StartPost);
                    lemma_set_state_watch(with_pid, SocketState::StopPre);
                    lemma_set_state_watch(with_pid, SocketState::StopPost);
                },
                None => {
                    match cmd_type {
                        SocketCommand::StartPre => {
                            lemma_enter_stop_pre(idle, SocketResult::FailureResources);
                        },
                        SocketCommand::StartPost => {
                            lemma_enter_stop_pre(idle, SocketResult::FailureResources);
                        },
                        SocketCommand::StopPre => {
                            lemma_enter_stop_post(idle, SocketResult::FailureResources);
                        },
                        SocketCommand::StopPost => {
                            lemma_enter_signal(
                                idle,
                                SocketState::FinalSigterm,
                                SocketResult::FailureResources,
                            );
                        },
                    }
                },
            }
        },
        _ => {},
    }
}

proof fn lemma_step_port_opened(m: SocketModel, fd: Option<i32>)
    requires
        m.watch_consistent(),
    ensures
        m.port_opened(fd).watch_consistent(),
{
    let idle = SocketModel { pending: Pending::Idle, ..m };
    match m.pending {
        Pending::OpenPort(port) => {
            if port < m.ports.len() && m.state == SocketState::StartChown {
                let closed = idle.close_fds();
                assert(closed.watch_consistent());
                lemma_enter_stop_pre(closed, SocketResult::FailureResources);
                match fd {
                    Some(f) => {
                        let opened = SocketModel {
                            ports: m.ports.update(
                                port as int,
                                PortState { fd: f, ..m.ports[port as int] },
                            ),
                            pending: Pending::Idle,
                            ..m
                        }.push(SocketOp::ApplySockOpt { port, fd: f });
                        assert(opened.watch_consistent());
                        lemma_enter_start_post(opened);
                    },
                    None => {},
                }
            }
        },
        _ => {},
    }
}

proof fn lemma_step_kill_result(m: SocketModel, ok: bool)
    requires
        m.watch_consistent(),
    ensures
        m.kill_result(ok).watch_consistent(),
{
    let idle = SocketModel { pending: Pending::Idle, ..m };
    match m.pending {
        Pending::Kill(state) => {
            if !ok {
                lemma_enter_stop_post(idle, SocketResult::FailureResources);
                lemma_enter_dead(idle, SocketResult::FailureResources);
            } else if state == SocketState::StopPreSigterm {
                lemma_enter_signal(idle, SocketState::StopPreSigkill, SocketResult::Success);
            } else if state == SocketState::StopPreSigkill {
                lemma_enter_stop_post(idle, SocketResult::Success);
            } else if state == SocketState::FinalSigterm {
                lemma_enter_signal(idle, SocketState::FinalSigkill, SocketResult::Success);
            } else {
                lemma_enter_dead(idle, SocketResult::Success);
            }
        },
        _ => {},
    }
}

proof fn lemma_step_service_started(m: SocketModel, ok: bool)
    requires
        m.watch_consistent(),
    ensures
        m.service_started(ok).watch_consistent(),
{
    let idle = SocketModel { pending: Pending::Idle, ..m };
    if m.pending == Pending::StartService {
        if ok {
            lemma_set_state_watch(m, SocketState::Running);
        } else {
            lemma_enter_stop_pre(idle, SocketResult::FailureResources);
        }
    }
}

proof fn lemma_step_dispatch_io(m: SocketModel, port: usize)
    requires
        m.watch_consistent(),
    ensures
        m.dispatch_io(port).watch_consistent(),
{
    lemma_enter_running(m, -1i32);
}

proof fn lemma_step_accepted(m: SocketModel, fd: Option<i32>)
    requires
        m.watch_consistent(),
    ensures
        m.accepted(fd).watch_consistent(),
{
    let idle = SocketModel { pending: Pending::Idle, ..m };
    match m.pending {
        Pending::Accept(port) => {
            match fd {
                Some(f) => {
                    lemma_enter_running(idle.push(SocketOp::ApplySockOpt { port, fd: f }), f);
                },
                None => {},
            }
        },
        _ => {},
    }
}

/// A listening unit that has taken up recorded state has every open
/// port registered with the event loop.
pub proof fn lemma_coldplug_listening(m: SocketModel)
    ensures
        m.state == SocketState::Listening ==> m.coldplug().watch_consistent(),
{
    if m.state == SocketState::Listening {
        let after = m.coldplug();
        assert(after.ports == m.watch_fds().ports);
        assert forall|i: int| 0 <= i < after.ports.len() && (#[trigger] after.ports[i]).fd
            >= 0 implies after.ports[i].watched by {
            assert(after.ports[i] == m.watch_fds().ports[i]);
        }
    }
}

proof fn lemma_step_port_reopened(m: SocketModel, port: usize, fd: Option<i32>)
    requires
        m.watch_consistent(),
    ensures
        m.port_reopened(port, fd).watch_consistent(),
{
    lemma_enter_dead(m, SocketResult::Success);
}

/// Every event but `EntryClear` keeps the ports watched as the state
/// asks: from a machine in which every open port of a listening unit is
/// registered with the event loop, and no port of a unit in any other
/// state, it leads to a machine of which the same holds.
pub proof fn lemma_watch_invariant(m: SocketModel, event: SocketEvent)
    requires
        m.watch_consistent(),
        event != SocketEvent::EntryClear,
    ensures
        socket_step(m, event).watch_consistent(),
{
    match event {
        SocketEvent::StartCheck => {
            lemma_step_start_check(m);
        },
        SocketEvent::StartAction => {
            lemma_enter_start_pre(m);
        },
        SocketEvent::StopCheck => {
            lemma_step_stop_check(m);
        },
        SocketEvent::StopAction => {
            lemma_enter_stop_pre(m, SocketResult::Success);
        },
        SocketEvent::Sigchld(res) => {
            lemma_step_sigchld(m, res);
        },
        SocketEvent::SpawnResult(pid) => {
            lemma_step_spawn_result(m, pid);
        },
        SocketEvent::PortOpened(fd) => {
            lemma_step_port_opened(m, fd);
        },
        SocketEvent::KillResult(ok) => {
            lemma_step_kill_result(m, ok);
        },
        SocketEvent::ServiceStarted(ok) => {
            lemma_step_service_started(m, ok);
        },
        SocketEvent::DispatchIo(port) => {
            lemma_step_dispatch_io(m, port);
        },
        SocketEvent::Accepted(fd) => {
            lemma_step_accepted(m, fd);
        },
        SocketEvent::PortReopened { port, fd } => {
            lemma_step_port_reopened(m, port, fd);
        },
        SocketEvent::EntryClear => {},
    }
}

} // verus!
