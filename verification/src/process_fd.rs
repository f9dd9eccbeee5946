//! Watching how many file descriptors processes hold. The kernel does the
//! watching; this says what it is told.
use vstd::prelude::*;

verus! {

/// Whether a monitor runs, and whether it raises alarms.
#[derive(Clone, Copy, PartialEq, Eq, Debug, Structural)]
pub struct Switch {
    pub monitor: bool,
    pub alarm: bool,
}

/// The settings of the descriptor monitor.
#[derive(Clone, Copy, PartialEq, Eq, Debug, Structural)]
pub struct ProcessFd {
    pub config: Switch,
    /// Share of the descriptor limit, in percent, at which the alarm is
    /// raised.
    pub alarm: u32,
}

/// What is written where to switch the kernel's monitor on.
#[derive(Clone, Copy, PartialEq, Eq, Debug, Structural)]
pub struct ProcWrites {
    /// Written to the threshold file.
    pub threshold: u32,
    /// Written to the enable file.
    pub enable: u32,
}

/// The alarm threshold of a monitor that names none.
pub fn alarm_default() -> (r: u32)
    ensures
        r == 80,
{
    80
}

impl Default for Switch {
    fn default() -> (r: Switch)
        ensures
            r == (Switch { monitor: false, alarm: false }),
    {
        Switch { monitor: false, alarm: false }
    }
}

impl Default for ProcessFd {
    fn default() -> (r: ProcessFd)
        ensures
            r == (ProcessFd { config: Switch { monitor: false, alarm: false }, alarm: 80 }),
    {
        ProcessFd { config: Switch::default(), alarm: alarm_default() }
    }
}

impl ProcessFd {
    /// Where the monitor's settings are kept.
    pub fn config_path(&self) -> (r: &'static str)
        ensures
            r@ == "/etc/sysmonitor/process_fd_conf"@,
    {
        "/etc/sysmonitor/process_fd_conf"
    }

    /// The file that takes the threshold.
    pub fn threshold_path(&self) -> (r: &'static str)
        ensures
            r@ == "/proc/fdthreshold"@,
    {
        "/proc/fdthreshold"
    }

    /// The file that switches the monitor on.
    pub fn enable_path(&self) -> (r: &'static str)
        ensures
            r@ == "/proc/fdenable"@,
    {
        "/proc/fdenable"
    }

    /// Takes the threshold from the monitor's own settings and the
    /// switches from the settings of all monitors.
    pub fn load(&mut self, monitor: ProcessFd, switches: Switch)
        ensures
            *final(self) == (ProcessFd { config: switches, alarm: monitor.alarm }),
    {
        self.config = switches;
        self.alarm = monitor.alarm;
    }

    /// The threshold must lie strictly between 0 and 100 percent.
    pub fn is_valid(&self) -> (r: bool)
        ensures
            r == (0 < self.alarm < 100),
    {
        self.alarm > 0 && self.alarm < 100
    }

    /// What to write to switch the monitor on: the threshold, and a one
    /// to enable it.
    pub fn check_status(&self) -> (r: ProcWrites)
        ensures
            r == (ProcWrites { threshold: self.alarm, enable: 1 }),
    {
        ProcWrites { threshold: self.alarm, enable: 1 }
    }
}

} // verus!
