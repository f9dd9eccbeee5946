//! The manager: what it does on start-up, what each of its states asks
//! for, and how signals and commands change its state.
use crate::error::JobErrno;
use crate::job_entry::JobKind;
use crate::proto::execute::{ExecCmdErrno, ExecuterAction};
use crate::reliability::Reliability;
use crate::unit_base::Signal;
use crate::unit_manager::{unit_lines, UnitManagerX};
use crate::unit_sets::name_index;
use crate::unit_state::UnitActiveState;
use vstd::prelude::*;

verus! {

/// The most arguments that the manager's process takes.
pub const MANAGER_ARGS_SIZE_MAX: usize = 5;

/// Manager running mode.
#[derive(Clone, Copy, PartialEq, Eq, Debug, Structural)]
pub enum Mode {
    System,
    User,
}

/// Manager action mode.
#[derive(Clone, Copy, PartialEq, Eq, Debug, Structural)]
pub enum Action {
    Run,
    Help,
    Test,
}

/// Manager running states.
#[derive(Clone, Copy, PartialEq, Eq, Debug, Structural)]
pub enum State {
    Init,
    /// Up and serving.
    Ready,
    Exit,
    ReLoad,
    ReExecute,
    Reboot,
    PowerOff,
    Halt,
    KExec,
    Suspend,
    SwitchRoot,
}

/// How the machine is brought down.
#[derive(Clone, Copy, PartialEq, Eq, Debug, Structural)]
pub enum RebootMode {
    RbAutoboot,
    RbPowerOff,
    RbHaltSystem,
    RbKexec,
    RbSwSuspend,
}

/// The operation begun before the manager last stopped.
#[derive(Clone, Copy, PartialEq, Eq, Debug, Structural)]
pub enum ReliLastFrame {
    Queue,
    JobManager,
    SigChld,
    CgEvent,
    Notify,
    SubManager,
    ManagerOp,
    CmdOp,
    OtherEvent,
}

/// One step of the manager's start-up.
#[derive(Clone, Copy, PartialEq, Eq, Debug, Structural)]
pub enum StartupOp {
    /// Take up the recorded state of units and jobs.
    Recover,
    /// Apply the presets to the unit files.
    PresetAll,
    /// Register the command and signal sources with the event loop.
    RegisterEx,
    /// Let the units register what they own with the event loop.
    EntryColdplug,
    /// Plan the start of the default target.
    AddDefaultJob,
    /// Mark that the next start-up takes up recorded state.
    SetRestore,
}

/// What the main loop does when the event loop has returned.
#[derive(Clone, Copy, PartialEq, Eq, Debug, Structural)]
pub enum LoopAction {
    /// Run the event loop again.
    Run,
    /// Drop the entries, take up the recorded state and go on.
    Reload,
    /// Leave the main loop to execute the manager anew.
    Reexec,
    /// Bring the machine down.
    Reboot(RebootMode),
    /// Leave the main loop.
    Leave,
}

/// What the manager does about a signal.
#[derive(Clone, Copy, PartialEq, Eq, Debug, Structural)]
pub enum SignalAction {
    /// Execute the manager anew.
    Reexec,
    /// Collect the children that have ended.
    ChildSigchld,
    /// Nothing.
    Ignore,
}

/// The steps of a start-up, in order. A manager that finds recorded
/// state takes it up before anything else and lets the units register
/// their descriptors once its own sources are registered; one that finds
/// none plans the default target and marks the next start-up for
/// recovery. Presets are applied only by the system manager.
pub open spec fn startup_ops(mode: Mode, restore: bool) -> Seq<StartupOp> {
    let recover = if restore {
        seq![StartupOp::Recover]
    } else {
        Seq::empty()
    };
    let preset = if mode == Mode::System {
        seq![StartupOp::PresetAll]
    } else {
        Seq::empty()
    };
    let tail = if restore {
        seq![StartupOp::RegisterEx, StartupOp::EntryColdplug]
    } else {
        seq![StartupOp::RegisterEx, StartupOp::AddDefaultJob, StartupOp::SetRestore]
    };
    recover + preset + tail
}

/// What a state of the manager asks of the main loop.
pub open spec fn loop_action(state: State) -> LoopAction {
    match state {
        State::Ready => LoopAction::Run,
        State::ReLoad => LoopAction::Reload,
        State::ReExecute => LoopAction::Reexec,
        State::Reboot => LoopAction::Reboot(RebootMode::RbAutoboot),
        State::PowerOff => LoopAction::Reboot(RebootMode::RbPowerOff),
        State::Halt => LoopAction::Reboot(RebootMode::RbHaltSystem),
        State::KExec => LoopAction::Reboot(RebootMode::RbKexec),
        State::Suspend => LoopAction::Reboot(RebootMode::RbSwSuspend),
        State::Init | State::Exit | State::SwitchRoot => LoopAction::Leave,
    }
}

/// What a signal asks of the manager: a hang-up or a fault executes it
/// anew, the end of a child has the children collected, and nothing else
/// is acted on.
pub open spec fn signal_action(signal: Signal) -> SignalAction {
    match signal {
        Signal::SIGHUP | Signal::SIGSEGV => SignalAction::Reexec,
        Signal::SIGCHLD => SignalAction::ChildSigchld,
        _ => SignalAction::Ignore,
    }
}

/// Reacts to signals.
pub struct SignalMgr {}

impl SignalMgr {
    pub fn new() -> (r: SignalMgr) {
        SignalMgr {  }
    }

    /// The answer of the manager to a request to execute itself anew.
    pub fn reexec(&self) -> (r: Result<i32, ExecCmdErrno>)
        ensures
            r == Ok::<i32, ExecCmdErrno>(1),
    {
        Ok(1)
    }

    /// Decides [`signal_action`].
    pub fn dispatch_signal(&self, signal: Signal) -> (r: SignalAction)
        ensures
            r == signal_action(signal),
    {
        match signal {
            Signal::SIGHUP | Signal::SIGSEGV => SignalAction::Reexec,
            Signal::SIGCHLD => SignalAction::ChildSigchld,
            _ => SignalAction::Ignore,
        }
    }
}

/// How the failure of a transaction is reported to the one who sent
/// the command: a request that cannot be taken as bad input, a
/// conflict as a failure of the manager.
pub open spec fn job_errno_report(e: JobErrno) -> ExecCmdErrno {
    match e {
        JobErrno::JobErrInput => ExecCmdErrno::Input,
        JobErrno::JobErrBadRequest => ExecCmdErrno::Input,
        JobErrno::JobErrConflict => ExecCmdErrno::Internal,
    }
}

/// The word for an activation state.
pub open spec fn active_state_word(state: UnitActiveState) -> Seq<char> {
    match state {
        UnitActiveState::UnitActive => "active"@,
        UnitActiveState::UnitReloading => "reloading"@,
        UnitActiveState::UnitInActive => "inactive"@,
        UnitActiveState::UnitFailed => "failed"@,
        UnitActiveState::UnitActivating => "activating"@,
        UnitActiveState::UnitDeActivating => "deactivating"@,
        UnitActiveState::UnitMaintenance => "maintenance"@,
    }
}

/// Computes [`active_state_word`].
pub fn active_state_name(state: UnitActiveState) -> (r: &'static str)
    ensures
        r@ == active_state_word(state),
{
    match state {
        UnitActiveState::UnitActive => "active",
        UnitActiveState::UnitReloading => "reloading",
        UnitActiveState::UnitInActive => "inactive",
        UnitActiveState::UnitFailed => "failed",
        UnitActiveState::UnitActivating => "activating",
        UnitActiveState::UnitDeActivating => "deactivating",
        UnitActiveState::UnitMaintenance => "maintenance",
    }
}

fn report(r: Result<(), JobErrno>) -> (e: Result<(), ExecCmdErrno>)
    ensures
        e == match r {
            Ok(()) => Ok::<(), ExecCmdErrno>(()),
            Err(j) => Err(job_errno_report(j)),
        },
{
    match r {
        Ok(()) => Ok(()),
        Err(JobErrno::JobErrInput) => Err(ExecCmdErrno::Input),
        Err(JobErrno::JobErrBadRequest) => Err(ExecCmdErrno::Input),
        Err(JobErrno::JobErrConflict) => Err(ExecCmdErrno::Internal),
    }
}

/// Carries out the commands of the control protocol: those on units go
/// to the unit manager, the others set the state of the manager.
pub struct CommandActionMgr {
    um: UnitManagerX,
    state: State,
}

impl CommandActionMgr {
    /// The state that the commands have set.
    pub closed spec fn view(&self) -> State {
        self.state
    }

    /// The units and their jobs.
    pub closed spec fn manager(&self) -> UnitManagerX {
        self.um
    }

    #[verifier::type_invariant]
    closed spec fn inv(&self) -> bool {
        self.um.wf()
    }

    pub fn new(um: UnitManagerX, state: State) -> (r: CommandActionMgr)
        requires
            um.wf(),
        ensures
            r@ == state,
            r.manager() == um,
    {
        CommandActionMgr { um, state }
    }

    pub fn set_state(&mut self, state: State)
        ensures
            final(self)@ == state,
            final(self).manager() == old(self).manager(),
    {
        proof {
            use_type_invariant(&*self);
        }
        if self.state != state {
            self.state = state;
        }
    }

    pub fn state(&self) -> (r: State)
        ensures
            r == self@,
    {
        self.state
    }

    /// The units and their jobs.
    pub fn unit_manager(&self) -> (r: &UnitManagerX)
        ensures
            *r == self.manager(),
            r.wf(),
    {
        proof {
            use_type_invariant(self);
        }
        &self.um
    }

    /// Puts `um` in the place of the units and their jobs, and hands
    /// out what was there.
    pub fn replace_unit_manager(&mut self, um: UnitManagerX) -> (r: UnitManagerX)
        requires
            um.wf(),
        ensures
            r == old(self).manager(),
            r.wf(),
            final(self).manager() == um,
            final(self)@ == old(self)@,
    {
        proof {
            use_type_invariant(&*self);
        }
        let mut taken = um;
        core::mem::swap(&mut self.um, &mut taken);
        taken
    }

    fn plan(&mut self, unit_name: &String, kind: JobKind) -> (r: Result<(), ExecCmdErrno>)
        ensures
            final(self)@ == old(self)@,
            old(self).manager().planned(final(self).manager(), unit_name@, kind),
            r == match old(self).manager().plan_outcome(final(self).manager(), unit_name@, kind) {
                Err(e) => Err::<(), ExecCmdErrno>(job_errno_report(e)),
                Ok(_) => Ok(()),
            },
    {
        let mut um = self.replace_unit_manager(UnitManagerX::new());
        let planned = um.plan(unit_name, kind);
        let _ = self.replace_unit_manager(um);
        match planned {
            Ok(_) => Ok(()),
            Err(e) => report(Err(e)),
        }
    }

    /// Asks for the unit called `unit_name` to be started: see
    /// [`UnitManagerX::planned`].
    pub fn start(&mut self, unit_name: &String) -> (r: Result<(), ExecCmdErrno>)
        ensures
            final(self)@ == old(self)@,
            old(self).manager().planned(final(self).manager(), unit_name@, JobKind::JobStart),
            r == match old(self).manager().plan_outcome(
                final(self).manager(),
                unit_name@,
                JobKind::JobStart,
            ) {
                Err(e) => Err::<(), ExecCmdErrno>(job_errno_report(e)),
                Ok(_) => Ok(()),
            },
    {
        self.plan(unit_name, JobKind::JobStart)
    }

    /// Asks for the unit called `unit_name` to be stopped.
    pub fn stop(&mut self, unit_name: &String) -> (r: Result<(), ExecCmdErrno>)
        ensures
            final(self)@ == old(self)@,
            old(self).manager().planned(final(self).manager(), unit_name@, JobKind::JobStop),
            r == match old(self).manager().plan_outcome(
                final(self).manager(),
                unit_name@,
                JobKind::JobStop,
            ) {
                Err(e) => Err::<(), ExecCmdErrno>(job_errno_report(e)),
                Ok(_) => Ok(()),
            },
    {
        self.plan(unit_name, JobKind::JobStop)
    }

    /// Asks for the unit called `unit_name` to be started anew.
    pub fn restart(&mut self, unit_name: &String) -> (r: Result<(), ExecCmdErrno>)
        ensures
            final(self)@ == old(self)@,
            old(self).manager().planned(final(self).manager(), unit_name@, JobKind::JobRestart),
            r == match old(self).manager().plan_outcome(
                final(self).manager(),
                unit_name@,
                JobKind::JobRestart,
            ) {
                Err(e) => Err::<(), ExecCmdErrno>(job_errno_report(e)),
                Ok(_) => Ok(()),
            },
    {
        self.plan(unit_name, JobKind::JobRestart)
    }

    /// The word for the state that the unit called `unit_name` is in;
    /// "not existed" where there is no such unit.
    pub fn status(&self, unit_name: &String) -> (r: Result<String, ExecCmdErrno>)
        ensures
            match name_index(
                self.manager().units(),
                unit_name@,
                self.manager().units().len() as int,
            ) {
                Some(i) => r is Ok && r->Ok_0@ == active_state_word(
                    self.manager().units()[i].active_state,
                ),
                None => r == Err::<String, ExecCmdErrno>(ExecCmdErrno::NotExisted),
            },
    {
        match self.um.get_unit_status(unit_name) {
            Some(state) => Ok(active_state_name(state).to_owned()),
            None => Err(ExecCmdErrno::NotExisted),
        }
    }

    /// The names of all units, one to a line.
    pub fn list_units(&self) -> (r: Result<String, ExecCmdErrno>)
        ensures
            r is Ok,
            r->Ok_0@ == unit_lines(self.manager().units(), self.manager().units().len() as int),
    {
        Ok(self.um.get_all_units())
    }

    pub fn suspend(&mut self) -> (r: Result<i32, ExecCmdErrno>)
        ensures
            final(self)@ == State::Suspend,
            final(self).manager() == old(self).manager(),
            r == Ok::<i32, ExecCmdErrno>(0),
    {
        self.set_state(State::Suspend);
        Ok(0)
    }

    pub fn poweroff(&mut self) -> (r: Result<i32, ExecCmdErrno>)
        ensures
            final(self)@ == State::PowerOff,
            final(self).manager() == old(self).manager(),
            r == Ok::<i32, ExecCmdErrno>(0),
    {
        self.set_state(State::PowerOff);
        Ok(0)
    }

    pub fn reboot(&mut self) -> (r: Result<i32, ExecCmdErrno>)
        ensures
            final(self)@ == State::Reboot,
            final(self).manager() == old(self).manager(),
            r == Ok::<i32, ExecCmdErrno>(0),
    {
        self.set_state(State::Reboot);
        Ok(0)
    }

    pub fn halt(&mut self) -> (r: Result<i32, ExecCmdErrno>)
        ensures
            final(self)@ == State::Halt,
            final(self).manager() == old(self).manager(),
            r == Ok::<i32, ExecCmdErrno>(0),
    {
        self.set_state(State::Halt);
        Ok(0)
    }
}

impl ExecuterAction for CommandActionMgr {
    fn start(&mut self, unit_name: &String) -> (r: Result<(), ExecCmdErrno>) {
        CommandActionMgr::start(self, unit_name)
    }

    fn stop(&mut self, unit_name: &String) -> (r: Result<(), ExecCmdErrno>) {
        CommandActionMgr::stop(self, unit_name)
    }

    fn restart(&mut self, unit_name: &String) -> (r: Result<(), ExecCmdErrno>) {
        CommandActionMgr::restart(self, unit_name)
    }

    fn status(&mut self, unit_name: &String) -> (r: Result<String, ExecCmdErrno>) {
        CommandActionMgr::status(self, unit_name)
    }

    fn list_units(&mut self) -> (r: Result<String, ExecCmdErrno>) {
        CommandActionMgr::list_units(self)
    }

    fn suspend(&mut self) -> (r: Result<i32, ExecCmdErrno>) {
        CommandActionMgr::suspend(self)
    }

    fn poweroff(&mut self) -> (r: Result<i32, ExecCmdErrno>) {
        CommandActionMgr::poweroff(self)
    }

    fn reboot(&mut self) -> (r: Result<i32, ExecCmdErrno>) {
        CommandActionMgr::reboot(self)
    }

    fn halt(&mut self) -> (r: Result<i32, ExecCmdErrno>) {
        CommandActionMgr::halt(self)
    }

    /// Installing units is not the manager's business.
    fn disable(&mut self, unit_file: &String) -> (r: Result<(), ExecCmdErrno>) {
        Err(ExecCmdErrno::NotSupported)
    }

    fn enable(&mut self, unit_file: &String) -> (r: Result<(), ExecCmdErrno>) {
        Err(ExecCmdErrno::NotSupported)
    }

    fn mask(&mut self, unit_file: &String) -> (r: Result<(), ExecCmdErrno>) {
        Err(ExecCmdErrno::NotSupported)
    }

    fn unmask(&mut self, unit_file: &String) -> (r: Result<(), ExecCmdErrno>) {
        Err(ExecCmdErrno::NotSupported)
    }
}

/// The manager's own state.
pub struct Manager {
    mode: Mode,
    action: Action,
    state: State,
}

impl Manager {
    pub closed spec fn mode(&self) -> Mode {
        self.mode
    }

    pub closed spec fn action(&self) -> Action {
        self.action
    }

    pub closed spec fn state(&self) -> State {
        self.state
    }

    /// A manager that has not started.
    pub fn new(mode: Mode, action: Action) -> (r: Manager)
        ensures
            r.mode() == mode,
            r.action() == action,
            r.state() == State::Init,
    {
        Manager { mode, action, state: State::Init }
    }

    /// Starts up: says what is to be done, in order, and is `Ready`
    /// thereafter. `restore` tells whether recorded state was found.
    pub fn startup(&mut self, restore: bool) -> (r: Vec<StartupOp>)
        ensures
            r@ == startup_ops(old(self).mode(), restore),
            final(self).state() == State::Ready,
            final(self).mode() == old(self).mode(),
            final(self).action() == old(self).action(),
    {
        let mut ops: Vec<StartupOp> = Vec::new();
        if restore {
            ops.push(StartupOp::Recover);
        }
        if self.preset_all() {
            ops.push(StartupOp::PresetAll);
        }
        ops.push(StartupOp::RegisterEx);
        if restore {
            ops.push(StartupOp::EntryColdplug);
        }
        if !restore {
            ops.push(StartupOp::AddDefaultJob);
            ops.push(StartupOp::SetRestore);
        }
        self.set_state(State::Ready);
        assert(ops@ =~= startup_ops(self.mode, restore));
        ops
    }

    /// What the main loop does next, by the manager's state. Executing
    /// anew is noted in the state; after a reload the manager is `Ready`
    /// again.
    pub fn main_loop(&mut self) -> (r: LoopAction)
        ensures
            r == loop_action(old(self).state()),
            final(self).state() == match r {
                LoopAction::Reload => State::Ready,
                LoopAction::Reexec => State::ReExecute,
                _ => old(self).state(),
            },
            final(self).mode() == old(self).mode(),
            final(self).action() == old(self).action(),
    {
        match self.state {
            State::Ready => LoopAction::Run,
            State::ReLoad => {
                self.reload();
                LoopAction::Reload
            },
            State::ReExecute => {
                self.set_state(State::ReExecute);
                LoopAction::Reexec
            },
            State::Reboot => LoopAction::Reboot(RebootMode::RbAutoboot),
            State::PowerOff => LoopAction::Reboot(RebootMode::RbPowerOff),
            State::Halt => LoopAction::Reboot(RebootMode::RbHaltSystem),
            State::KExec => LoopAction::Reboot(RebootMode::RbKexec),
            State::Suspend => LoopAction::Reboot(RebootMode::RbSwSuspend),
            State::Init | State::Exit | State::SwitchRoot => LoopAction::Leave,
        }
    }

    /// Switches recovery at the next start-up on or off. Switching it
    /// off forgets what the journal holds and asks for the machine to be
    /// brought up anew.
    pub fn set_restore(&self, reli: &mut Reliability, enable: bool) -> (r: Option<RebootMode>)
        ensures
            enable ==> r is None && final(reli).spec_enable() && final(reli).spec_last_frame()
                == old(reli).spec_last_frame() && final(reli).spec_last_unit() == old(reli).spec_last_unit(),
            !enable ==> r == Some(RebootMode::RbAutoboot) && !final(reli).spec_enable() && final(reli).spec_last_frame() is None && final(reli).spec_last_unit() is None,
    {
        if enable {
            reli.set_enable(true);
            None
        } else {
            reli.data_clear();
            Some(RebootMode::RbAutoboot)
        }
    }

    /// Forgets what the journal holds.
    pub fn debug_clear_restore(&self, reli: &mut Reliability)
        ensures
            !final(reli).spec_enable(),
            final(reli).spec_last_frame() is None,
            final(reli).spec_last_unit() is None,
    {
        reli.data_clear();
    }

    /// Whether the event loop is to run once more.
    pub fn rloop(&self) -> (r: bool)
        ensures
            r == (self.state() == State::Ready),
    {
        self.state == State::Ready
    }

    fn reload(&mut self)
        ensures
            final(self).state() == State::Ready,
            final(self).mode() == old(self).mode(),
            final(self).action() == old(self).action(),
    {
        self.set_state(State::Ready);
    }

    /// Whether the presets are to be applied: only by the system
    /// manager.
    pub fn preset_all(&self) -> (r: bool)
        ensures
            r == (self.mode() == Mode::System),
    {
        self.mode == Mode::System
    }

    pub fn get_state(&self) -> (r: State)
        ensures
            r == self.state(),
    {
        self.state
    }

    pub fn set_state(&mut self, state: State)
        ensures
            final(self).state() == state,
            final(self).mode() == old(self).mode(),
            final(self).action() == old(self).action(),
    {
        self.state = state;
    }

    pub fn exit(&mut self) -> (r: i32)
        ensures
            r == 0,
            final(self).state() == State::Exit,
    {
        self.set_state(State::Exit);
        0
    }

    pub fn poweroff(&mut self) -> (r: i32)
        ensures
            r == 0,
            final(self).state() == State::PowerOff,
    {
        self.set_state(State::PowerOff);
        0
    }

    pub fn halt(&mut self) -> (r: i32)
        ensures
            r == 0,
            final(self).state() == State::Halt,
    {
        self.set_state(State::Halt);
        0
    }

    pub fn kexec(&mut self) -> (r: i32)
        ensures
            r == 0,
            final(self).state() == State::KExec,
    {
        self.set_state(State::KExec);
        0
    }

    pub fn suspend(&mut self) -> (r: i32)
        ensures
            r == 0,
            final(self).state() == State::Suspend,
    {
        self.set_state(State::Suspend);
        0
    }

    pub fn switch_root(&mut self) -> (r: i32)
        ensures
            r == 0,
            final(self).state() == State::SwitchRoot,
    {
        self.set_state(State::SwitchRoot);
        0
    }

    pub fn ok(&mut self)
        ensures
            final(self).state() == State::Ready,
    {
        self.set_state(State::Ready);
    }
}

} // verus!
