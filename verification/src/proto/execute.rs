//! From a request to the manager's verbs and back to a response.
use crate::proto::abi::command_request::RequestData;
use crate::proto::abi::{
    job_comm, mngr_comm, sys_comm, unit_comm, unit_file, CommandRequest, CommandResponse,
};
use vstd::prelude::*;

verus! {

/// Why the manager could not carry out a verb.
#[derive(Clone, Copy, PartialEq, Eq, Debug, Structural)]
pub enum ExecCmdErrno {
    /// The request is malformed.
    Input,
    /// What the request names does not exist.
    NotExisted,
    /// The manager failed.
    Internal,
    /// The manager does not offer the verb.
    NotSupported,
}

/// What the manager can be asked to do. Whoever runs the manager
/// implements this; nothing is assumed of what the methods return.
pub trait ExecuterAction {
    fn start(&mut self, unit_name: &String) -> Result<(), ExecCmdErrno>;

    fn stop(&mut self, unit_name: &String) -> Result<(), ExecCmdErrno>;

    fn restart(&mut self, unit_name: &String) -> Result<(), ExecCmdErrno>;

    fn status(&mut self, unit_name: &String) -> Result<String, ExecCmdErrno>;

    fn list_units(&mut self) -> Result<String, ExecCmdErrno>;

    fn suspend(&mut self) -> Result<i32, ExecCmdErrno>;

    fn poweroff(&mut self) -> Result<i32, ExecCmdErrno>;

    fn reboot(&mut self) -> Result<i32, ExecCmdErrno>;

    fn halt(&mut self) -> Result<i32, ExecCmdErrno>;

    fn disable(&mut self, unit_file: &String) -> Result<(), ExecCmdErrno>;

    fn enable(&mut self, unit_file: &String) -> Result<(), ExecCmdErrno>;

    fn mask(&mut self, unit_file: &String) -> Result<(), ExecCmdErrno>;

    fn unmask(&mut self, unit_file: &String) -> Result<(), ExecCmdErrno>;
}

/// The verb that a request comes down to.
#[derive(Clone, Copy, PartialEq, Eq, Debug, Structural)]
pub enum Verb {
    Start,
    Stop,
    Restart,
    Status,
    Enable,
    Disable,
    Mask,
    Reboot,
    Halt,
    Suspend,
    Poweroff,
    /// The request asks for something that the manager does not offer.
    Unsupported,
    /// The request carries no command, or an action number that stands
    /// for nothing.
    Invalid,
}

/// What carrying out a verb came to.
pub enum Outcome {
    /// Done, with nothing to report.
    Done,
    /// Done, with a text to report.
    Text(String),
    Failed(ExecCmdErrno),
}

/// Status of a request that was carried out.
pub const STATUS_OK: u32 = 200;

/// Status of a malformed request.
pub const STATUS_BAD_REQUEST: u32 = 400;

/// Status of a request that names something unknown.
pub const STATUS_NOT_FOUND: u32 = 404;

/// Status of a request on which the manager failed.
pub const STATUS_INTERNAL: u32 = 500;

/// Status of a request that the manager does not offer.
pub const STATUS_NOT_IMPLEMENTED: u32 = 501;

/// The verb of a request on a unit.
pub open spec fn unit_verb(action: i32) -> Verb {
    match unit_comm::action_of(action) {
        Some(unit_comm::Action::Status) => Verb::Status,
        Some(unit_comm::Action::Start) => Verb::Start,
        Some(unit_comm::Action::Stop) => Verb::Stop,
        Some(unit_comm::Action::Restart) => Verb::Restart,
        Some(_) => Verb::Unsupported,
        None => Verb::Invalid,
    }
}

/// The verb of a request on a unit file.
pub open spec fn file_verb(action: i32) -> Verb {
    match unit_file::action_of(action) {
        Some(unit_file::Action::Enable) => Verb::Enable,
        Some(unit_file::Action::Disable) => Verb::Disable,
        Some(unit_file::Action::Mask) => Verb::Mask,
        Some(_) => Verb::Unsupported,
        None => Verb::Invalid,
    }
}

/// The verb of a request on the system.
pub open spec fn sys_verb(action: i32) -> Verb {
    match sys_comm::action_of(action) {
        Some(sys_comm::Action::Reboot) => Verb::Reboot,
        Some(sys_comm::Action::Halt) => Verb::Halt,
        Some(sys_comm::Action::Suspend) => Verb::Suspend,
        Some(sys_comm::Action::Poweroff) => Verb::Poweroff,
        Some(_) => Verb::Unsupported,
        None => Verb::Invalid,
    }
}

/// The verb of a request. Requests on jobs and on the manager itself are
/// not offered.
pub open spec fn request_verb(request: CommandRequest) -> Verb {
    match request.request_data {
        Some(RequestData::Ucomm(c)) => unit_verb(c.action),
        Some(RequestData::Ufile(c)) => file_verb(c.action),
        Some(RequestData::Jcomm(c)) => if job_comm::action_of(c.action) is Some {
            Verb::Unsupported
        } else {
            Verb::Invalid
        },
        Some(RequestData::Mcomm(c)) => if mngr_comm::action_of(c.action) is Some {
            Verb::Unsupported
        } else {
            Verb::Invalid
        },
        Some(RequestData::Syscomm(c)) => sys_verb(c.action),
        None => Verb::Invalid,
    }
}

/// The status that stands for a failure.
pub open spec fn error_status(errno: ExecCmdErrno) -> u32 {
    match errno {
        ExecCmdErrno::Input => STATUS_BAD_REQUEST,
        ExecCmdErrno::NotExisted => STATUS_NOT_FOUND,
        ExecCmdErrno::Internal => STATUS_INTERNAL,
        ExecCmdErrno::NotSupported => STATUS_NOT_IMPLEMENTED,
    }
}

/// The text that goes with a failure.
pub open spec fn error_message(errno: ExecCmdErrno) -> Seq<char> {
    match errno {
        ExecCmdErrno::Input => "bad request."@,
        ExecCmdErrno::NotExisted => "not found."@,
        ExecCmdErrno::Internal => "error."@,
        ExecCmdErrno::NotSupported => "not supported."@,
    }
}

/// Whether `response` reports `outcome`: success as status 200 with the
/// text, if any; failure as the status and text of its cause.
pub open spec fn reports(response: CommandResponse, outcome: Outcome) -> bool {
    match outcome {
        Outcome::Done => response.status == STATUS_OK && response.message@ == Seq::<char>::empty(),
        Outcome::Text(text) => response.status == STATUS_OK && response.message@ == text@,
        Outcome::Failed(errno) => response.status == error_status(errno) && response.message@
            == error_message(errno),
    }
}

/// Computes [`request_verb`].
pub fn plan(request: &CommandRequest) -> (r: Verb)
    ensures
        r == request_verb(*request),
{
    match &request.request_data {
        Some(RequestData::Ucomm(c)) => match unit_comm::Action::from_i32(c.action) {
            Some(unit_comm::Action::Status) => Verb::Status,
            Some(unit_comm::Action::Start) => Verb::Start,
            Some(unit_comm::Action::Stop) => Verb::Stop,
            Some(unit_comm::Action::Restart) => Verb::Restart,
            Some(_) => Verb::Unsupported,
            None => Verb::Invalid,
        },
        Some(RequestData::Ufile(c)) => match unit_file::Action::from_i32(c.action) {
            Some(unit_file::Action::Enable) => Verb::Enable,
            Some(unit_file::Action::Disable) => Verb::Disable,
            Some(unit_file::Action::Mask) => Verb::Mask,
            Some(_) => Verb::Unsupported,
            None => Verb::Invalid,
        },
        Some(RequestData::Jcomm(c)) => if job_comm::Action::is_valid(c.action) {
            Verb::Unsupported
        } else {
            Verb::Invalid
        },
        Some(RequestData::Mcomm(c)) => if mngr_comm::Action::is_valid(c.action) {
            Verb::Unsupported
        } else {
            Verb::Invalid
        },
        Some(RequestData::Syscomm(c)) => match sys_comm::Action::from_i32(c.action) {
            Some(sys_comm::Action::Reboot) => Verb::Reboot,
            Some(sys_comm::Action::Halt) => Verb::Halt,
            Some(sys_comm::Action::Suspend) => Verb::Suspend,
            Some(sys_comm::Action::Poweroff) => Verb::Poweroff,
            Some(_) => Verb::Unsupported,
            None => Verb::Invalid,
        },
        None => Verb::Invalid,
    }
}

/// The response that reports `outcome`.
pub fn respond(outcome: Outcome) -> (r: CommandResponse)
    ensures
        reports(r, outcome),
{
    match outcome {
        Outcome::Done => CommandResponse { status: STATUS_OK, message: String::new() },
        Outcome::Text(text) => CommandResponse { status: STATUS_OK, message: text },
        Outcome::Failed(errno) => {
            let (status, message) = match errno {
                ExecCmdErrno::Input => (STATUS_BAD_REQUEST, "bad request."),
                ExecCmdErrno::NotExisted => (STATUS_NOT_FOUND, "not found."),
                ExecCmdErrno::Internal => (STATUS_INTERNAL, "error."),
                ExecCmdErrno::NotSupported => (STATUS_NOT_IMPLEMENTED, "not supported."),
            };
            CommandResponse { status, message: message.to_owned() }
        },
    }
}

fn done(result: Result<(), ExecCmdErrno>) -> (r: Outcome)
    ensures
        r == match result {
            Ok(()) => Outcome::Done,
            Err(e) => Outcome::Failed(e),
        },
{
    match result {
        Ok(()) => Outcome::Done,
        Err(e) => Outcome::Failed(e),
    }
}

fn done_code(result: Result<i32, ExecCmdErrno>) -> (r: Outcome)
    ensures
        r == match result {
            Ok(_) => Outcome::Done,
            Err(e) => Outcome::Failed(e),
        },
{
    match result {
        Ok(_) => Outcome::Done,
        Err(e) => Outcome::Failed(e),
    }
}

/// Whether `outcome` can come of a request whose verb is `verb`: only a
/// status request reports a text; a request that is not offered fails as
/// not supported, an invalid one as bad input.
pub open spec fn outcome_of(verb: Verb, outcome: Outcome) -> bool {
    match verb {
        Verb::Unsupported => outcome == Outcome::Failed(ExecCmdErrno::NotSupported),
        Verb::Invalid => outcome == Outcome::Failed(ExecCmdErrno::Input),
        Verb::Status => !(outcome is Done),
        _ => !(outcome is Text),
    }
}

/// Hands the verb of `request` to the manager and returns what came of
/// it.
pub fn perform<T: ExecuterAction>(request: &CommandRequest, manager: &mut T) -> (r: Outcome)
    ensures
        outcome_of(request_verb(*request), r),
{
    let verb = plan(request);
    match &request.request_data {
        Some(RequestData::Ucomm(c)) => match verb {
            Verb::Start => done(manager.start(&c.unitname)),
            Verb::Stop => done(manager.stop(&c.unitname)),
            Verb::Restart => done(manager.restart(&c.unitname)),
            Verb::Status => match manager.status(&c.unitname) {
                Ok(text) => Outcome::Text(text),
                Err(e) => Outcome::Failed(e),
            },
            Verb::Invalid => Outcome::Failed(ExecCmdErrno::Input),
            _ => Outcome::Failed(ExecCmdErrno::NotSupported),
        },
        Some(RequestData::Ufile(c)) => match verb {
            Verb::Enable => done(manager.enable(&c.unitname)),
            Verb::Disable => done(manager.disable(&c.unitname)),
            Verb::Mask => done(manager.mask(&c.unitname)),
            Verb::Invalid => Outcome::Failed(ExecCmdErrno::Input),
            _ => Outcome::Failed(ExecCmdErrno::NotSupported),
        },
        Some(RequestData::Syscomm(c)) => match verb {
            Verb::Reboot => done_code(manager.reboot()),
            Verb::Halt => done_code(manager.halt()),
            Verb::Suspend => done_code(manager.suspend()),
            Verb::Poweroff => done_code(manager.poweroff()),
            Verb::Invalid => Outcome::Failed(ExecCmdErrno::Input),
            _ => Outcome::Failed(ExecCmdErrno::NotSupported),
        },
        _ => match verb {
            Verb::Invalid => Outcome::Failed(ExecCmdErrno::Input),
            _ => Outcome::Failed(ExecCmdErrno::NotSupported),
        },
    }
}

/// Whether `response` answers `request`: it reports an outcome that can
/// come of the request's verb.
pub open spec fn answers(request: CommandRequest, response: CommandResponse) -> bool {
    exists|outcome: Outcome|
        outcome_of(request_verb(request), outcome) && reports(response, outcome)
}

/// Carries out `cmd` on the manager and reports what came of it.
pub fn dispatch<T: ExecuterAction>(cmd: CommandRequest, manager: &mut T) -> (r: CommandResponse)
    ensures
        answers(cmd, r),
{
    let outcome = perform(&cmd, manager);
    let ghost witness = outcome;
    let response = respond(outcome);
    assert(outcome_of(request_verb(cmd), witness) && reports(response, witness));
    response
}

} // verus!
