//! The messages of the control protocol.
use vstd::prelude::*;

pub mod command_request;
pub mod job_comm;
pub mod mngr_comm;
pub mod sys_comm;
pub mod unit_comm;
pub mod unit_file;

verus! {

/// A request from a client.
pub struct CommandRequest {
    pub request_data: Option<command_request::RequestData>,
}

/// The answer of the manager.
pub struct CommandResponse {
    /// 2xx for success, 4xx for a fault of the client, 5xx for one of the
    /// manager.
    pub status: u32,
    /// More on a status that is not a success.
    pub message: String,
}

impl Default for CommandResponse {
    fn default() -> (r: CommandResponse)
        ensures
            r.status == 0,
            r.message@ == Seq::<char>::empty(),
    {
        CommandResponse { status: 0, message: String::new() }
    }
}

/// A request on a unit.
pub struct UnitComm {
    /// The action, as its number on the wire.
    pub action: i32,
    pub unitname: String,
}

impl UnitComm {
    /// The action asked for; a number that stands for none counts as the
    /// first action.
    pub fn action(&self) -> (r: unit_comm::Action)
        ensures
            r == match unit_comm::action_of(self.action) {
                Some(a) => a,
                None => unit_comm::action_of(0)->0,
            },
    {
        match unit_comm::Action::from_i32(self.action) {
            Some(a) => a,
            None => unit_comm::Action::default(),
        }
    }

    pub fn set_action(&mut self, value: unit_comm::Action)
        ensures
            final(self).action == unit_comm::action_number(value),
            final(self).unitname == old(self).unitname,
    {
        self.action = value.to_i32();
    }
}

/// A request on a unit file.
pub struct UnitFile {
    /// The action, as its number on the wire.
    pub action: i32,
    pub unitname: String,
}

impl UnitFile {
    /// The action asked for; a number that stands for none counts as the
    /// first action.
    pub fn action(&self) -> (r: unit_file::Action)
        ensures
            r == match unit_file::action_of(self.action) {
                Some(a) => a,
                None => unit_file::action_of(0)->0,
            },
    {
        match unit_file::Action::from_i32(self.action) {
            Some(a) => a,
            None => unit_file::Action::default(),
        }
    }

    pub fn set_action(&mut self, value: unit_file::Action)
        ensures
            final(self).action == unit_file::action_number(value),
            final(self).unitname == old(self).unitname,
    {
        self.action = value.to_i32();
    }
}

/// A request on a job.
pub struct JobComm {
    /// The action, as its number on the wire.
    pub action: i32,
    pub job_id: String,
}

impl JobComm {
    /// The action asked for; a number that stands for none counts as the
    /// first action.
    pub fn action(&self) -> (r: job_comm::Action)
        ensures
            r == match job_comm::action_of(self.action) {
                Some(a) => a,
                None => job_comm::action_of(0)->0,
            },
    {
        match job_comm::Action::from_i32(self.action) {
            Some(a) => a,
            None => job_comm::Action::default(),
        }
    }

    pub fn set_action(&mut self, value: job_comm::Action)
        ensures
            final(self).action == job_comm::action_number(value),
            final(self).job_id == old(self).job_id,
    {
        self.action = value.to_i32();
    }
}

/// A request on the manager.
pub struct MngrComm {
    /// The action, as its number on the wire.
    pub action: i32,
}

impl MngrComm {
    /// The action asked for; a number that stands for none counts as the
    /// first action.
    pub fn action(&self) -> (r: mngr_comm::Action)
        ensures
            r == match mngr_comm::action_of(self.action) {
                Some(a) => a,
                None => mngr_comm::action_of(0)->0,
            },
    {
        match mngr_comm::Action::from_i32(self.action) {
            Some(a) => a,
            None => mngr_comm::Action::default(),
        }
    }

    pub fn set_action(&mut self, value: mngr_comm::Action)
        ensures
            final(self).action == mngr_comm::action_number(value),
    {
        self.action = value.to_i32();
    }
}

/// A request on the system.
pub struct SysComm {
    /// The action, as its number on the wire.
    pub action: i32,
}

impl SysComm {
    /// The action asked for; a number that stands for none counts as the
    /// first action.
    pub fn action(&self) -> (r: sys_comm::Action)
        ensures
            r == match sys_comm::action_of(self.action) {
                Some(a) => a,
                None => sys_comm::action_of(0)->0,
            },
    {
        match sys_comm::Action::from_i32(self.action) {
            Some(a) => a,
            None => sys_comm::Action::default(),
        }
    }

    pub fn set_action(&mut self, value: sys_comm::Action)
        ensures
            final(self).action == sys_comm::action_number(value),
    {
        self.action = value.to_i32();
    }
}

impl CommandRequest {
    /// A request on the unit called `unitname`.
    pub fn new_unitcomm(action: unit_comm::Action, unitname: String) -> (r: CommandRequest)
        ensures
            r.request_data matches Some(command_request::RequestData::Ucomm(c)) && c.action
                == unit_comm::action_number(action) && c.unitname == unitname,
    {
        CommandRequest {
            request_data: Some(
                command_request::RequestData::Ucomm(UnitComm { action: action.to_i32(), unitname }),
            ),
        }
    }

    /// A request on the unit file called `unitname`.
    pub fn new_unitfile(action: unit_file::Action, unitname: String) -> (r: CommandRequest)
        ensures
            r.request_data matches Some(command_request::RequestData::Ufile(c)) && c.action
                == unit_file::action_number(action) && c.unitname == unitname,
    {
        CommandRequest {
            request_data: Some(
                command_request::RequestData::Ufile(UnitFile { action: action.to_i32(), unitname }),
            ),
        }
    }

    /// A request on the job called `job_id`.
    pub fn new_jobcomm(action: job_comm::Action, job_id: String) -> (r: CommandRequest)
        ensures
            r.request_data matches Some(command_request::RequestData::Jcomm(c)) && c.action
                == job_comm::action_number(action) && c.job_id == job_id,
    {
        CommandRequest {
            request_data: Some(
                command_request::RequestData::Jcomm(JobComm { action: action.to_i32(), job_id }),
            ),
        }
    }

    /// A request on the manager.
    pub fn new_mngrcomm(action: mngr_comm::Action) -> (r: CommandRequest)
        ensures
            r.request_data matches Some(command_request::RequestData::Mcomm(c)) && c.action
                == mngr_comm::action_number(action),
    {
        CommandRequest {
            request_data: Some(
                command_request::RequestData::Mcomm(MngrComm { action: action.to_i32() }),
            ),
        }
    }

    /// A request on the system.
    pub fn new_syscomm(action: sys_comm::Action) -> (r: CommandRequest)
        ensures
            r.request_data matches Some(command_request::RequestData::Syscomm(c)) && c.action
                == sys_comm::action_number(action),
    {
        CommandRequest {
            request_data: Some(
                command_request::RequestData::Syscomm(SysComm { action: action.to_i32() }),
            ),
        }
    }
}

} // verus!
