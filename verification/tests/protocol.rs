use sysmaster::manager::{
    Action, CommandActionMgr, LoopAction, Manager, Mode, RebootMode, SignalAction, SignalMgr,
    StartupOp, State,
};
use sysmaster::process_fd::{alarm_default, ProcWrites, ProcessFd, Switch};
use sysmaster::proto::abi::command_request::RequestData;
use sysmaster::proto::abi::{
    job_comm, mngr_comm, sys_comm, unit_comm, unit_file, CommandRequest, CommandResponse,
    JobComm, MngrComm, SysComm, UnitComm, UnitFile,
};
use sysmaster::proto::execute::{
    dispatch, perform, plan, respond, ExecCmdErrno, ExecuterAction, Outcome, Verb,
};
use sysmaster::proto::frame::{
    frame_message, get_msg_len, msg_len_vec, FrameReader, ProstClientStream, ProstServerStream,
    MAX_FRAME, USIZE_TO_U8_LENGTH,
};
use sysmaster::manager::ReliLastFrame;
use sysmaster::reliability::{LastFrame, Reliability};
use sysmaster::unit_base::Signal;
use sysmaster::unit_sets::UnitType;

#[derive(Default)]
struct Recorder {
    calls: Vec<String>,
    fail: Option<ExecCmdErrno>,
}

impl Recorder {
    fn note(&mut self, what: &str, arg: &str) -> Result<(), ExecCmdErrno> {
        self.calls.push(format!("{} {}", what, arg));
        match self.fail {
            Some(e) => Err(e),
            None => Ok(()),
        }
    }
}

impl ExecuterAction for Recorder {
    fn start(&mut self, unit_name: &String) -> Result<(), ExecCmdErrno> {
        self.note("start", unit_name)
    }
    fn stop(&mut self, unit_name: &String) -> Result<(), ExecCmdErrno> {
        self.note("stop", unit_name)
    }
    fn restart(&mut self, unit_name: &String) -> Result<(), ExecCmdErrno> {
        self.note("restart", unit_name)
    }
    fn status(&mut self, unit_name: &String) -> Result<String, ExecCmdErrno> {
        self.note("status", unit_name).map(|_| format!("{} is fine", unit_name))
    }
    fn list_units(&mut self) -> Result<String, ExecCmdErrno> {
        self.note("list", "").map(|_| String::new())
    }
    fn suspend(&mut self) -> Result<i32, ExecCmdErrno> {
        self.note("suspend", "").map(|_| 0)
    }
    fn poweroff(&mut self) -> Result<i32, ExecCmdErrno> {
        self.note("poweroff", "").map(|_| 0)
    }
    fn reboot(&mut self) -> Result<i32, ExecCmdErrno> {
        self.note("reboot", "").map(|_| 0)
    }
    fn halt(&mut self) -> Result<i32, ExecCmdErrno> {
        self.note("halt", "").map(|_| 0)
    }
    fn disable(&mut self, unit_file: &String) -> Result<(), ExecCmdErrno> {
        self.note("disable", unit_file)
    }
    fn enable(&mut self, unit_file: &String) -> Result<(), ExecCmdErrno> {
        self.note("enable", unit_file)
    }
    fn mask(&mut self, unit_file: &String) -> Result<(), ExecCmdErrno> {
        self.note("mask", unit_file)
    }
    fn unmask(&mut self, unit_file: &String) -> Result<(), ExecCmdErrno> {
        self.note("unmask", unit_file)
    }
}

#[test]
fn header_is_eight_bytes_little_endian() {
    assert_eq!(USIZE_TO_U8_LENGTH, 8);
    assert_eq!(msg_len_vec(0), [0, 0, 0, 0, 0, 0, 0, 0]);
    assert_eq!(msg_len_vec(1), [1, 0, 0, 0, 0, 0, 0, 0]);
    assert_eq!(msg_len_vec(0x0102_0304), [4, 3, 2, 1, 0, 0, 0, 0]);
    assert_eq!(msg_len_vec(usize::MAX), usize::MAX.to_le_bytes());
    assert_eq!(get_msg_len([4, 3, 2, 1, 0, 0, 0, 0]), 0x0102_0304);
    assert_eq!(get_msg_len([0, 1, 0, 0, 0, 0, 0, 0]), 256);
    for len in [0usize, 7, 255, 256, 65535, 1 << 40, usize::MAX] {
        assert_eq!(get_msg_len(msg_len_vec(len)), len);
    }
}

#[test]
fn frame_is_header_then_message() {
    assert_eq!(frame_message(&vec![9, 8, 7]), vec![3, 0, 0, 0, 0, 0, 0, 0, 9, 8, 7]);
    assert_eq!(frame_message(&vec![]), vec![0; 8]);
}

#[test]
fn frame_reader_stops_at_the_announced_length() {
    let mut reader = FrameReader::new(msg_len_vec(5));
    assert_eq!(reader.announced(), 5);
    assert_eq!(reader.wanted(), 5);
    assert!(!reader.is_done());
    assert!(!reader.feed(&vec![1, 2]));
    assert_eq!(reader.wanted(), 3);
    assert!(!reader.feed(&vec![]));
    assert!(reader.feed(&vec![3, 4, 5]));
    assert!(reader.is_done());
    assert_eq!(reader.wanted(), 0);
    assert!(reader.feed(&vec![6]));
    assert_eq!(reader.into_parts(), (vec![1, 2, 3, 4, 5], vec![6]));

    let mut reader = FrameReader::new(msg_len_vec(2 * MAX_FRAME + 10));
    assert!(!reader.feed(&vec![0; MAX_FRAME]));
    assert!(!reader.feed(&vec![1; MAX_FRAME]));
    assert!(!reader.feed(&vec![2; 9]));
    assert!(reader.feed(&vec![3; 1]));
    assert_eq!(reader.into_body().len(), 2 * MAX_FRAME + 10);

    let mut reader = FrameReader::new(msg_len_vec(MAX_FRAME));
    assert!(reader.feed(&vec![0; MAX_FRAME]));
    let mut reader = FrameReader::new(msg_len_vec(5000));
    assert!(!reader.feed(&vec![]));
    assert!(!reader.feed(&vec![7; 100]));
    assert_eq!(reader.wanted(), 4900);
    assert!(!reader.is_done());
}

#[test]
fn frame_reader_leaves_what_follows_the_frame() {
    let mut stream = frame_message(&vec![9, 8, 7]);
    stream.extend_from_slice(&frame_message(&vec![1, 2]));
    let mut header = [0u8; 8];
    header.copy_from_slice(&stream[..8]);
    let mut reader = FrameReader::new(header);
    assert!(reader.feed(&stream[8..].to_vec()));
    let (body, rest) = reader.into_parts();
    assert_eq!(body, vec![9, 8, 7]);
    assert_eq!(rest, frame_message(&vec![1, 2]));

    let mut reader = FrameReader::new(msg_len_vec(0));
    assert!(reader.is_done());
    assert!(reader.feed(&vec![5, 5]));
    assert_eq!(reader.into_parts(), (vec![], vec![5, 5]));
}

#[test]
fn test_send_and_recv() {
    // the client frames its encoded command
    let mut client = ProstClientStream::new();
    let encoded_request = b"start test.service".to_vec();
    let wire = client.execute(&encoded_request);
    assert_eq!(&wire[..8], &msg_len_vec(encoded_request.len()));
    assert_eq!(&wire[8..], &encoded_request[..]);

    // the server reads it, answers the decoded request, and frames its answer
    let mut header = [0u8; 8];
    header.copy_from_slice(&wire[..8]);
    let mut reader = FrameReader::new(header);
    assert!(reader.feed(&wire[8..].to_vec()));
    assert_eq!(reader.into_body(), encoded_request);
    let cmd = CommandRequest::new_unitcomm(unit_comm::Action::Start, "test.service".to_string());
    let server = ProstServerStream::new(Recorder::default());
    let response = server.process(Some(cmd)).unwrap();
    assert_eq!(response.status, 200);
    let encoded_response = response.message.clone().into_bytes();
    let back = frame_message(&encoded_response);

    // the client collects the answer
    assert_eq!(client.response_chunk(&vec![1]), None);
    let mut header = [0u8; 8];
    header.copy_from_slice(&back[..8]);
    client.response_header(header);
    assert_eq!(client.response_chunk(&back[8..].to_vec()), Some(encoded_response));
}

#[test]
fn server_gives_no_answer_to_what_it_could_not_read() {
    let server = ProstServerStream::new(Recorder::default());
    assert!(server.process(None).is_none());
}

#[test]
fn action_numbers_follow_the_protocol() {
    assert_eq!(unit_comm::Action::Status.to_i32(), 0);
    assert_eq!(unit_comm::Action::Kill.to_i32(), 5);
    assert_eq!(unit_comm::Action::from_i32(3), Some(unit_comm::Action::Restart));
    assert_eq!(unit_comm::Action::from_i32(6), None);
    assert_eq!(unit_comm::Action::from_i32(-1), None);
    assert!(unit_comm::Action::is_valid(5));
    assert!(!unit_comm::Action::is_valid(6));
    assert_eq!(unit_file::Action::Setdef.to_i32(), 5);
    assert_eq!(unit_file::Action::from_i32(1), Some(unit_file::Action::Enable));
    assert_eq!(job_comm::Action::Cancel.to_i32(), 1);
    assert_eq!(job_comm::Action::from_i32(2), None);
    assert_eq!(mngr_comm::Action::Reexec.to_i32(), 1);
    assert_eq!(sys_comm::Action::Hibernate.to_i32(), 5);
    assert_eq!(sys_comm::Action::from_i32(4), Some(sys_comm::Action::Poweroff));
    assert_eq!(sys_comm::Action::default(), sys_comm::Action::Reboot);
    for n in 0..6 {
        assert_eq!(unit_comm::Action::from_i32(n).unwrap().to_i32(), n);
        assert_eq!(sys_comm::Action::from_i32(n).unwrap().to_i32(), n);
    }
    let mut c = UnitComm { action: 9, unitname: "x".to_string() };
    assert_eq!(c.action(), unit_comm::Action::Status);
    c.set_action(unit_comm::Action::Stop);
    assert_eq!(c.action, 2);
    assert_eq!(c.action(), unit_comm::Action::Stop);
    let f = UnitFile { action: 3, unitname: "x".to_string() };
    assert_eq!(f.action(), unit_file::Action::Mask);
    let j = JobComm { action: 1, job_id: "7".to_string() };
    assert_eq!(j.action(), job_comm::Action::Cancel);
    assert_eq!(MngrComm { action: 0 }.action(), mngr_comm::Action::Reload);
    assert_eq!(SysComm { action: 2 }.action(), sys_comm::Action::Halt);
    let d = CommandResponse::default();
    assert_eq!((d.status, d.message.as_str()), (0, ""));
}

#[test]
fn plan_maps_each_request_to_its_verb() {
    let unit = |a| CommandRequest::new_unitcomm(a, "u".to_string());
    assert_eq!(plan(&unit(unit_comm::Action::Start)), Verb::Start);
    assert_eq!(plan(&unit(unit_comm::Action::Stop)), Verb::Stop);
    assert_eq!(plan(&unit(unit_comm::Action::Restart)), Verb::Restart);
    assert_eq!(plan(&unit(unit_comm::Action::Status)), Verb::Status);
    assert_eq!(plan(&unit(unit_comm::Action::Reload)), Verb::Unsupported);
    assert_eq!(plan(&unit(unit_comm::Action::Kill)), Verb::Unsupported);
    let file = |a| CommandRequest::new_unitfile(a, "u".to_string());
    assert_eq!(plan(&file(unit_file::Action::Enable)), Verb::Enable);
    assert_eq!(plan(&file(unit_file::Action::Disable)), Verb::Disable);
    assert_eq!(plan(&file(unit_file::Action::Mask)), Verb::Mask);
    assert_eq!(plan(&file(unit_file::Action::Cat)), Verb::Unsupported);
    assert_eq!(plan(&CommandRequest::new_syscomm(sys_comm::Action::Reboot)), Verb::Reboot);
    assert_eq!(plan(&CommandRequest::new_syscomm(sys_comm::Action::Halt)), Verb::Halt);
    assert_eq!(plan(&CommandRequest::new_syscomm(sys_comm::Action::Suspend)), Verb::Suspend);
    assert_eq!(plan(&CommandRequest::new_syscomm(sys_comm::Action::Poweroff)), Verb::Poweroff);
    assert_eq!(plan(&CommandRequest::new_syscomm(sys_comm::Action::Shutdown)), Verb::Unsupported);
    assert_eq!(
        plan(&CommandRequest::new_jobcomm(job_comm::Action::List, String::new())),
        Verb::Unsupported
    );
    assert_eq!(plan(&CommandRequest::new_mngrcomm(mngr_comm::Action::Reload)), Verb::Unsupported);
    assert_eq!(plan(&CommandRequest { request_data: None }), Verb::Invalid);
    let bad = CommandRequest {
        request_data: Some(RequestData::Ucomm(UnitComm { action: 42, unitname: String::new() })),
    };
    assert_eq!(plan(&bad), Verb::Invalid);
}

#[test]
fn respond_reports_status_and_message() {
    let ok = respond(Outcome::Done);
    assert_eq!((ok.status, ok.message.as_str()), (200, ""));
    let text = respond(Outcome::Text("running".to_string()));
    assert_eq!((text.status, text.message.as_str()), (200, "running"));
    let cases = [
        (ExecCmdErrno::Input, 400, "bad request."),
        (ExecCmdErrno::NotExisted, 404, "not found."),
        (ExecCmdErrno::Internal, 500, "error."),
        (ExecCmdErrno::NotSupported, 501, "not supported."),
    ];
    for (errno, status, message) in cases {
        let r = respond(Outcome::Failed(errno));
        assert_eq!((r.status, r.message.as_str()), (status, message));
    }
}

#[test]
fn dispatch_hands_each_verb_to_the_manager() {
    let mut m = Recorder::default();
    let r = dispatch(CommandRequest::new_unitcomm(unit_comm::Action::Stop, "a.service".into()), &mut m);
    assert_eq!(r.status, 200);
    let r = dispatch(
        CommandRequest::new_unitcomm(unit_comm::Action::Status, "a.service".into()),
        &mut m,
    );
    assert_eq!((r.status, r.message.as_str()), (200, "a.service is fine"));
    dispatch(CommandRequest::new_unitfile(unit_file::Action::Enable, "b.service".into()), &mut m);
    dispatch(CommandRequest::new_syscomm(sys_comm::Action::Poweroff), &mut m);
    let r = dispatch(CommandRequest::new_unitcomm(unit_comm::Action::Kill, "a.service".into()), &mut m);
    assert_eq!(r.status, 501);
    let r = dispatch(CommandRequest { request_data: None }, &mut m);
    assert_eq!(r.status, 400);
    assert_eq!(
        m.calls,
        vec!["stop a.service", "status a.service", "enable b.service", "poweroff "]
    );
    m.fail = Some(ExecCmdErrno::NotExisted);
    let r = dispatch(CommandRequest::new_unitcomm(unit_comm::Action::Start, "zz".into()), &mut m);
    assert_eq!((r.status, r.message.as_str()), (404, "not found."));
    assert!(matches!(
        perform(&CommandRequest::new_syscomm(sys_comm::Action::Reboot), &mut m),
        Outcome::Failed(ExecCmdErrno::NotExisted)
    ));
}

#[test]
fn manager_startup_depends_on_mode_and_recorded_state() {
    let mut m = Manager::new(Mode::System, Action::Run);
    assert_eq!(m.get_state(), State::Init);
    assert!(!m.rloop());
    assert_eq!(
        m.startup(false),
        vec![
            StartupOp::PresetAll,
            StartupOp::RegisterEx,
            StartupOp::AddDefaultJob,
            StartupOp::SetRestore
        ]
    );
    assert_eq!(m.get_state(), State::Ready);
    assert!(m.rloop());
    let mut m = Manager::new(Mode::System, Action::Run);
    assert_eq!(
        m.startup(true),
        vec![
            StartupOp::Recover,
            StartupOp::PresetAll,
            StartupOp::RegisterEx,
            StartupOp::EntryColdplug
        ]
    );
    let mut m = Manager::new(Mode::User, Action::Test);
    assert!(!m.preset_all());
    assert_eq!(
        m.startup(false),
        vec![StartupOp::RegisterEx, StartupOp::AddDefaultJob, StartupOp::SetRestore]
    );
}

#[test]
fn main_loop_acts_on_the_state() {
    let mut m = Manager::new(Mode::System, Action::Run);
    m.ok();
    assert_eq!(m.main_loop(), LoopAction::Run);
    m.set_state(State::ReLoad);
    assert_eq!(m.main_loop(), LoopAction::Reload);
    assert_eq!(m.get_state(), State::Ready);
    m.set_state(State::ReExecute);
    assert_eq!(m.main_loop(), LoopAction::Reexec);
    assert_eq!(m.poweroff(), 0);
    assert_eq!(m.main_loop(), LoopAction::Reboot(RebootMode::RbPowerOff));
    assert_eq!(m.halt(), 0);
    assert_eq!(m.main_loop(), LoopAction::Reboot(RebootMode::RbHaltSystem));
    assert_eq!(m.kexec(), 0);
    assert_eq!(m.main_loop(), LoopAction::Reboot(RebootMode::RbKexec));
    assert_eq!(m.suspend(), 0);
    assert_eq!(m.main_loop(), LoopAction::Reboot(RebootMode::RbSwSuspend));
    m.set_state(State::Reboot);
    assert_eq!(m.main_loop(), LoopAction::Reboot(RebootMode::RbAutoboot));
    assert_eq!(m.exit(), 0);
    assert_eq!(m.main_loop(), LoopAction::Leave);
    assert_eq!(m.switch_root(), 0);
    assert_eq!(m.get_state(), State::SwitchRoot);
}

#[test]
fn signals_and_commands_set_the_managers_course() {
    let s = SignalMgr::new();
    assert_eq!(s.dispatch_signal(Signal::SIGHUP), SignalAction::Reexec);
    assert_eq!(s.dispatch_signal(Signal::SIGSEGV), SignalAction::Reexec);
    assert_eq!(s.dispatch_signal(Signal::SIGCHLD), SignalAction::ChildSigchld);
    assert_eq!(s.dispatch_signal(Signal::SIGTERM), SignalAction::Ignore);
    assert_eq!(s.reexec(), Ok(1));
    let mut c = CommandActionMgr::new(sysmaster::unit_manager::UnitManagerX::new(), State::Init);
    assert_eq!(c.suspend(), Ok(0));
    assert_eq!(c.state(), State::Suspend);
    assert_eq!(c.poweroff(), Ok(0));
    assert_eq!(c.state(), State::PowerOff);
    assert_eq!(c.reboot(), Ok(0));
    assert_eq!(c.state(), State::Reboot);
    assert_eq!(c.halt(), Ok(0));
    assert_eq!(c.state(), State::Halt);
    c.set_state(State::Ready);
    assert_eq!(c.state(), State::Ready);
}

#[test]
fn process_fd_monitor_settings() {
    assert_eq!(alarm_default(), 80);
    let mut p = ProcessFd::default();
    assert_eq!(p.alarm, 80);
    assert!(p.is_valid());
    assert_eq!(p.config_path(), "/etc/sysmonitor/process_fd_conf");
    assert_eq!(p.threshold_path(), "/proc/fdthreshold");
    assert_eq!(p.enable_path(), "/proc/fdenable");
    p.load(
        ProcessFd { config: Switch::default(), alarm: 95 },
        Switch { monitor: true, alarm: false },
    );
    assert_eq!(p, ProcessFd { config: Switch { monitor: true, alarm: false }, alarm: 95 });
    assert_eq!(p.check_status(), ProcWrites { threshold: 95, enable: 1 });
    for (alarm, valid) in [(0, false), (1, true), (99, true), (100, false)] {
        p.alarm = alarm;
        assert_eq!(p.is_valid(), valid);
    }
}

#[test]
fn journal_markers_are_set_and_cleared() {
    let mut reli = Reliability::new();
    assert!(!reli.enable());
    assert_eq!(reli.last_frame(), None);
    assert_eq!(reli.last_unit(), None);
    reli.set_enable(true);
    reli.set_last_frame1(ReliLastFrame::ManagerOp);
    assert_eq!(reli.last_frame(), Some(LastFrame::One(ReliLastFrame::ManagerOp)));
    reli.set_last_frame2(ReliLastFrame::SubManager, UnitType::UnitSocket);
    reli.set_last_unit("app.socket".to_string());
    assert_eq!(
        reli.last_frame(),
        Some(LastFrame::Two(ReliLastFrame::SubManager, UnitType::UnitSocket))
    );
    assert_eq!(reli.last_unit(), Some(&"app.socket".to_string()));
    reli.clear_last_unit();
    reli.clear_last_frame();
    assert_eq!(reli.last_frame(), None);
    assert!(reli.enable());
    reli.set_last_frame1(ReliLastFrame::OtherEvent);
    reli.data_clear();
    assert!(!reli.enable());
    assert_eq!(reli.last_frame(), None);
}

#[test]
fn client_takes_what_the_response_is_owed() {
    let mut client = ProstClientStream::new();
    assert_eq!(client.wanted(), 0);
    client.execute(&vec![1, 2, 3]);
    client.response_header(msg_len_vec(4));
    assert_eq!(client.wanted(), 4);
    assert_eq!(client.response_chunk(&vec![9]), None);
    assert_eq!(client.wanted(), 3);
    assert_eq!(client.response_chunk(&vec![]), None);
    assert_eq!(client.response_chunk(&vec![8, 7, 6, 5, 4]), Some(vec![9, 8, 7, 6]));
    assert_eq!(client.wanted(), 0);

    client.execute(&vec![]);
    client.response_header(msg_len_vec(0));
    assert_eq!(client.wanted(), 0);
    assert_eq!(client.response_chunk(&vec![]), Some(vec![]));
}
