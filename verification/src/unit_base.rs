//! Plain values that unit kinds and the manager exchange.
use vstd::prelude::*;

verus! {

/// The signals that the supervisor sends or reacts to.
#[derive(Clone, Copy, PartialEq, Eq, Debug, Structural)]
pub enum Signal {
    SIGHUP,
    SIGINT,
    SIGQUIT,
    SIGILL,
    SIGTRAP,
    SIGABRT,
    SIGBUS,
    SIGFPE,
    SIGKILL,
    SIGUSR1,
    SIGSEGV,
    SIGUSR2,
    SIGPIPE,
    SIGALRM,
    SIGTERM,
    SIGSTKFLT,
    SIGCHLD,
    SIGCONT,
    SIGSTOP,
    SIGTSTP,
    SIGTTIN,
    SIGTTOU,
    SIGURG,
    SIGXCPU,
    SIGXFSZ,
    SIGVTALRM,
    SIGPROF,
    SIGWINCH,
    SIGIO,
    SIGPWR,
    SIGSYS,
}

/// Why processes of a unit are being signalled.
#[derive(Clone, Copy, PartialEq, Eq, Debug, Structural)]
pub enum KillOperation {
    KillTerminate,
    KillTerminateAndLog,
    KillRestart,
    KillKill,
    KillWatchdog,
    KillInvalid,
}

/// Which processes of a unit a kill reaches.
#[derive(Clone, Copy, PartialEq, Eq, Debug, Structural)]
pub enum KillMode {
    ControlGroup,
    Process,
    Mixed,
    /// Nothing is killed.
    Off,
}

/// The signal that an operation sends: terminating operations send
/// `SIGTERM`, the watchdog sends `SIGABRT`, everything else `SIGKILL`.
pub open spec fn kill_signal(operation: KillOperation) -> Signal {
    match operation {
        KillOperation::KillTerminate
        | KillOperation::KillTerminateAndLog
        | KillOperation::KillRestart => Signal::SIGTERM,
        KillOperation::KillKill => Signal::SIGKILL,
        KillOperation::KillWatchdog => Signal::SIGABRT,
        KillOperation::KillInvalid => Signal::SIGKILL,
    }
}

impl KillOperation {
    pub fn to_signal(self) -> (r: Signal)
        ensures
            r == kill_signal(self),
    {
        match self {
            KillOperation::KillTerminate
            | KillOperation::KillTerminateAndLog
            | KillOperation::KillRestart => Signal::SIGTERM,
            KillOperation::KillKill => Signal::SIGKILL,
            KillOperation::KillWatchdog => Signal::SIGABRT,
            KillOperation::KillInvalid => Signal::SIGKILL,
        }
    }
}

/// How a unit's processes are brought down.
#[derive(Clone, Copy, PartialEq, Eq, Debug, Structural)]
pub struct KillContext {
    pub kill_mode: KillMode,
    pub kill_signal: Signal,
    pub final_signal: Signal,
}

impl KillContext {
    /// Kill the whole control group, politely with `SIGTERM`, finally
    /// with `SIGKILL`.
    pub fn new() -> (r: KillContext)
        ensures
            r == (KillContext {
                kill_mode: KillMode::ControlGroup,
                kill_signal: Signal::SIGTERM,
                final_signal: Signal::SIGKILL,
            }),
    {
        KillContext {
            kill_mode: KillMode::ControlGroup,
            kill_signal: Signal::SIGTERM,
            final_signal: Signal::SIGKILL,
        }
    }

    pub fn set_kill_mode(&mut self, mode: KillMode)
        ensures
            *final(self) == (KillContext { kill_mode: mode, ..*old(self) }),
    {
        self.kill_mode = mode;
    }

    pub fn kill_mode(&self) -> (r: KillMode)
        ensures
            r == self.kill_mode,
    {
        self.kill_mode
    }
}

/// What waiting for a child process reported.
#[derive(Clone, Copy, PartialEq, Eq, Debug, Structural)]
pub enum WaitStatus {
    /// The process `pid` exited with `code`.
    Exited { pid: i32, code: i32 },
    /// The process `pid` was killed by `signal`.
    Signaled { pid: i32, signal: Signal, core_dump: bool },
    /// The process `pid` was stopped.
    Stopped { pid: i32 },
    /// The process `pid` was continued.
    Continued { pid: i32 },
    /// Nothing has changed.
    StillAlive,
}

/// A command line to run.
pub struct ExecCommand {
    pub path: String,
    pub argv: Vec<String>,
}

impl ExecCommand {
    pub fn new(path: String, argv: Vec<String>) -> (r: ExecCommand)
        ensures
            r.path == path,
            r.argv == argv,
    {
        ExecCommand { path, argv }
    }

    pub fn path(&self) -> (r: &String)
        ensures
            *r == self.path,
    {
        &self.path
    }

    pub fn argv(&self) -> (r: &Vec<String>)
        ensures
            *r == self.argv,
    {
        &self.argv
    }
}

} // verus!
