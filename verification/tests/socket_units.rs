use sysmaster::error::UnitActionError;
use sysmaster::socket_addr::AddressError;
use sysmaster::socket_config::{
    ListeningItem, SectionSocket, SocketConfig, SocketConfigData, SocketConfigError, UnitRef,
};
use sysmaster::reliability::Reliability;
use sysmaster::socket_mng::{Pending, SocketOp};
use sysmaster::socket_rentry::{PortType, SocketCommand, SocketResult, SocketState};
use sysmaster::socket_unit::{SocketFacts, SocketLoadError, SocketUnit};
use sysmaster::unit::UnitObj;
use sysmaster::unit_base::{ExecCommand, KillMode, Signal, WaitStatus};
use sysmaster::unit_rel::UnitRelations;
use sysmaster::unit_state::UnitActiveState;

fn cmd(path: &str) -> ExecCommand {
    ExecCommand::new(path.to_string(), vec![])
}

fn section() -> SectionSocket {
    let mut s = SectionSocket::default();
    s.ListenStream = vec!["31972".to_string(), "/run/test.sock".to_string()];
    s.ListenDatagram = vec!["127.0.0.1:5000".to_string(), "".to_string()];
    s.ListenNetlink = vec!["route 0".to_string()];
    s.ListenSequentialPacket = vec!["@seq".to_string()];
    s.ExecStartPre = vec![cmd("/usr/bin/sleep")];
    s.Service = Some("test.service".to_string());
    s.KillMode = KillMode::Process;
    s
}

fn facts() -> SocketFacts {
    SocketFacts {
        service_error: None,
        start_limit_ok: true,
        has_stop_job: false,
        active_or_pending: false,
    }
}

#[test]
fn test_socket_parse() {
    let mut config = SocketConfig::new("test.socket".to_string());
    let result = config.load(SocketConfigData::new(section()), true, true);

    assert!(result.is_ok());
}

#[test]
fn loaded_settings_list_the_listeners_in_order() {
    let mut config = SocketConfig::new("test.socket".to_string());
    config.load(SocketConfigData::new(section()), true, false).unwrap();
    let listens: Vec<&str> = config.ports().iter().map(|p| p.listen()).collect();
    assert_eq!(
        listens,
        vec!["31972", "/run/test.sock", "127.0.0.1:5000", "route 0", "@seq"]
    );
    let printed: Vec<String> = config
        .ports()
        .iter()
        .map(|p| String::from_utf8(p.sa().address_print()).unwrap())
        .collect();
    assert_eq!(
        printed,
        vec!["0.0.0.0:31972", "/run/test.sock", "127.0.0.1:5000", "route 0", "@seq"]
    );
    assert!(config.ports().iter().all(|p| p.p_type() == PortType::Socket));
    assert_eq!(config.unit_ref_target(), Some("test.service".to_string()));
    assert_eq!(config.kill_context().kill_mode, KillMode::Process);
    assert_eq!(config.cmd_count(SocketCommand::StartPre), 1);
    assert_eq!(config.cmd_count(SocketCommand::StopPost), 0);
    assert_eq!(config.get_exec_cmds(SocketCommand::StartPre)[0].path(), "/usr/bin/sleep");
    assert_eq!(config.config_data().listen_stream().len(), 2);
    assert_eq!(config.owner_name(), "test.socket");
}

#[test]
fn faulty_settings_leave_nothing_configured() {
    let mut config = SocketConfig::new("test.socket".to_string());
    let mut s = section();
    s.Service = Some("test.target".to_string());
    assert_eq!(
        config.load(SocketConfigData::new(s), true, true),
        Err(SocketConfigError::ServiceSuffix)
    );
    assert!(config.ports().is_empty());
    assert_eq!(config.unit_ref_target(), None);

    assert_eq!(
        config.load(SocketConfigData::new(section()), false, true),
        Err(SocketConfigError::ServiceLoad)
    );

    let mut s = section();
    s.ListenDatagram = vec!["nonsense".to_string()];
    assert_eq!(
        config.load(SocketConfigData::new(s), true, true),
        Err(SocketConfigError::Listen(AddressError::InvalidListen))
    );
    assert!(config.ports().is_empty());
    assert_eq!(config.config_data().listen_stream().len(), 0);

    let mut s = section();
    s.ListenNetlink = vec!["route".to_string()];
    assert_eq!(
        config.load(SocketConfigData::new(s), true, true),
        Err(SocketConfigError::Netlink(AddressError::NetlinkFormat))
    );

    // the service is judged before the listeners
    let mut s = section();
    s.Service = Some("x".to_string());
    s.ListenStream = vec!["0".to_string()];
    assert_eq!(
        config.load(SocketConfigData::new(s), true, true),
        Err(SocketConfigError::ServiceSuffix)
    );
}

#[test]
fn listeners_can_be_added_kind_by_kind() {
    let mut config = SocketConfig::new("test.socket".to_string());
    let mut data = SocketConfigData::default();
    data.Socket.ListenStream = vec!["80".to_string()];
    config.load(data, true, true).unwrap();
    assert_eq!(config.ports().len(), 1);
    assert_eq!(config.parse_listen_socket(ListeningItem::Stream, true), Ok(()));
    assert_eq!(config.ports().len(), 2);
    assert_eq!(config.parse_listen_socket(ListeningItem::Netlink, true), Ok(()));
    assert_eq!(config.ports().len(), 2);
    assert_eq!(
        config.parse_sockets(
            &vec!["1.2.3.4:5".to_string(), "bad".to_string(), "6".to_string()],
            sysmaster::socket_addr::SockType::Datagram,
            true
        ),
        Err(SocketConfigError::Listen(AddressError::InvalidListen))
    );
    assert_eq!(config.ports().len(), 3);
    assert_eq!(config.parse_netlinks(&vec!["audit 1".to_string()]), Ok(()));
    assert_eq!(config.ports().len(), 4);
    config.reset();
    assert!(config.ports().is_empty());
}

#[test]
fn unit_ref_holds_source_and_target() {
    let mut r = UnitRef::new();
    assert_eq!(r.target(), None);
    r.set_ref("a.socket".to_string(), "a.service".to_string());
    assert_eq!(r.target(), Some(&"a.service".to_string()));
    assert_eq!(UnitRef::default().target(), None);
    let mut config = SocketConfig::new("a.socket".to_string());
    assert_eq!(
        config.set_unit_ref("a.service".to_string(), false),
        Err(SocketConfigError::ServiceLoad)
    );
    assert_eq!(config.set_unit_ref("a.service".to_string(), true), Ok(()));
    assert_eq!(config.unit_ref_target(), Some("a.service".to_string()));
}

#[test]
fn socket_unit_loads_and_builds_its_ports() {
    let mut unit = SocketUnit::new("test.socket".to_string());
    let deps = unit.load(SocketConfigData::new(section()), true, true).unwrap();
    assert_eq!(deps.deps.len(), 2);
    assert_eq!(deps.deps[0].relation, UnitRelations::UnitBefore);
    assert_eq!(deps.deps[1].relation, UnitRelations::UnitTriggers);
    assert_eq!(deps.deps[1].names, vec!["test.service".to_string()]);
    let accepts: Vec<bool> = unit.machine().ports().iter().map(|p| p.can_accept).collect();
    assert_eq!(accepts, vec![true, true, false, false, true]);
    assert_eq!(unit.get_config().ports().len(), 5);
    assert_eq!(unit.current_active_state(), UnitActiveState::UnitInActive);
    assert_eq!(unit.get_subunit_state(), "dead");
}

#[test]
fn socket_unit_derives_its_service_from_its_name() {
    let mut unit = SocketUnit::new("app.socket".to_string());
    let mut s = section();
    s.Service = None;
    let deps = unit.load(SocketConfigData::new(s), true, true).unwrap();
    assert_eq!(deps.deps[0].names, vec!["app.service".to_string()]);
    assert_eq!(unit.get_config().unit_ref_target(), Some("app.service".to_string()));

    let mut odd = SocketUnit::new("app.sock".to_string());
    let mut s = section();
    s.Service = None;
    assert_eq!(odd.load(SocketConfigData::new(s), true, true).err(), Some(SocketLoadError::NoService));
    assert!(odd.get_config().ports().is_empty());

    let mut unloaded = SocketUnit::new("app.socket".to_string());
    let mut s = section();
    s.Service = None;
    assert_eq!(
        unloaded.load(SocketConfigData::new(s), false, true).err(),
        Some(SocketLoadError::Config(SocketConfigError::ServiceLoad))
    );
}

#[test]
fn socket_unit_without_listener_is_turned_down() {
    let mut unit = SocketUnit::new("app.socket".to_string());
    let r = unit.load(SocketConfigData::default(), true, true);
    assert_eq!(r.err(), Some(SocketLoadError::NoListen));
    let mut bad = section();
    bad.ListenStream = vec!["0".to_string()];
    assert_eq!(
        unit.load(SocketConfigData::new(bad), true, true).err(),
        Some(SocketLoadError::Config(SocketConfigError::Listen(AddressError::InvalidPort)))
    );
    assert!(unit.machine().ports().is_empty());
}

#[test]
fn scenario_socket_unit_start_to_listening_and_stop() {
    let mut unit = SocketUnit::new("app.socket".to_string());
    let mut data = SocketConfigData::default();
    data.Socket.ListenStream = vec!["12345".to_string()];
    data.Socket.Service = Some("app.service".to_string());
    unit.load(data, true, true).unwrap();
    unit.attach_facts(facts());
    assert!(unit.machine().env().has_service);
    assert!(!unit.machine().env().accept);

    assert_eq!(unit.start(), Ok(()));
    assert_eq!(unit.current_active_state(), UnitActiveState::UnitActivating);
    // starting again while starting is a no-op
    assert_eq!(unit.start(), Ok(()));
    let ops = unit.take_ops();
    assert_eq!(ops.last(), Some(&SocketOp::OpenPort { port: 0 }));
    unit.machine().port_opened(Some(3));
    assert_eq!(unit.machine().state(), SocketState::Listening);
    assert_eq!(unit.collect_fds(), vec![3]);
    assert_eq!(unit.current_active_state(), UnitActiveState::UnitActive);

    unit.machine().dispatch_io(0);
    assert_eq!(unit.machine().pending(), Pending::StartService);
    unit.machine().service_started(true);
    assert_eq!(unit.machine().state(), SocketState::Running);
    assert_eq!(unit.collect_fds(), vec![3]);

    assert_eq!(unit.stop(false), Ok(()));
    assert_eq!(unit.machine().state(), SocketState::FinalSigterm);
    assert_eq!(unit.stop(false), Ok(()));
    assert_eq!(unit.start(), Err(UnitActionError::UnitActionEAgain));
    unit.machine().kill_result(true);
    unit.machine().kill_result(true);
    assert_eq!(unit.machine().state(), SocketState::Dead);
    assert_eq!(unit.machine().result(), SocketResult::Success);
    assert_eq!(unit.collect_fds(), Vec::<i32>::new());
}

#[test]
fn socket_unit_ignores_children_that_only_stopped() {
    let mut unit = SocketUnit::new("app.socket".to_string());
    let mut data = SocketConfigData::default();
    data.Socket.ListenStream = vec!["1".to_string()];
    data.Socket.ExecStartPre = vec![cmd("/bin/true")];
    data.Socket.Service = Some("app.service".to_string());
    unit.load(data, true, true).unwrap();
    unit.attach_facts(facts());
    unit.start().unwrap();
    unit.machine().spawn_result(Some(77));
    assert_eq!(unit.machine().state(), SocketState::StartPre);
    unit.sigchld_events(WaitStatus::Stopped { pid: 77 });
    unit.sigchld_events(WaitStatus::StillAlive);
    assert_eq!(unit.machine().state(), SocketState::StartPre);
    unit.sigchld_events(WaitStatus::Signaled {
        pid: 77,
        signal: Signal::SIGKILL,
        core_dump: false,
    });
    assert_eq!(unit.machine().result(), SocketResult::FailureSignal);
    assert_eq!(unit.machine().state(), SocketState::FinalSigterm);
}

#[test]
fn scenario_replay_across_restart() {
    let mut unit = SocketUnit::new("app.socket".to_string());
    let mut data = SocketConfigData::default();
    data.Socket.ListenStream = vec!["12345".to_string(), "/run/a.sock".to_string()];
    data.Socket.Service = Some("app.service".to_string());
    unit.load(data, true, true).unwrap();
    unit.attach_facts(facts());
    unit.start().unwrap();
    unit.machine().port_opened(Some(3));
    unit.machine().port_opened(Some(4));
    let record = unit.db_insert();
    assert_eq!(record.state, SocketState::Listening);
    assert_eq!(record.ports.len(), 2);
    assert_eq!(record.ports[1].listen, "/run/a.sock");
    assert_eq!(record.ports[1].fd, 4);

    // the manager comes up again: same settings, recorded state
    let mut again = SocketUnit::new("app.socket".to_string());
    let mut data = SocketConfigData::default();
    data.Socket.ListenStream = vec!["12345".to_string(), "/run/a.sock".to_string()];
    data.Socket.Service = Some("app.service".to_string());
    again.load(data, true, true).unwrap();
    let mut record = record;
    record.refused = 5;
    // the second descriptor could not be taken over
    assert!(again.db_map(&record, &vec![3, -1]));
    assert_eq!(again.machine().state(), SocketState::Listening);
    assert_eq!(again.machine().refused(), 5);
    assert_eq!(again.collect_fds(), vec![3]);
    again.take_ops();
    again.entry_coldplug();
    assert_eq!(
        again.take_ops(),
        vec![SocketOp::Watch { port: 0, fd: 3 }, SocketOp::ReopenPort { port: 1 }]
    );
    again.machine().port_reopened(1, Some(6));
    assert_eq!(again.collect_fds(), vec![3, 6]);
    assert_eq!(again.machine().refused(), 5);
    again.entry_clear();
    assert!(again.machine().ports().iter().all(|p| !p.watched));

    // a record for other listeners is turned down
    let mut other = SocketUnit::new("app.socket".to_string());
    let mut data = SocketConfigData::default();
    data.Socket.ListenStream = vec!["12346".to_string(), "/run/a.sock".to_string()];
    other.load(data, true, true).unwrap();
    assert!(!other.db_map(&record, &vec![3, 4]));
    assert_eq!(other.machine().state(), SocketState::Dead);
    assert!(!other.db_map(&record, &vec![3]));
}

#[test]
fn socket_unit_serves_through_the_common_interface() {
    fn drive<U: UnitObj>(unit: &mut U) -> (Result<(), UnitActionError>, UnitActiveState, Vec<i32>) {
        let r = unit.start();
        unit.sigchld_events(WaitStatus::StillAlive);
        (r, unit.current_active_state(), unit.collect_fds())
    }
    let mut unit = SocketUnit::new("app.socket".to_string());
    let mut data = SocketConfigData::default();
    data.Socket.ListenStream = vec!["1".to_string()];
    unit.load(data, true, true).unwrap();
    unit.attach_facts(facts());
    let (r, state, fds) = drive(&mut unit);
    assert_eq!(r, Ok(()));
    assert_eq!(state, UnitActiveState::UnitActivating);
    assert!(fds.is_empty());
    assert_eq!(UnitObj::stop(&mut unit, true), Ok(()));
}

#[test]
fn dispatch_marks_the_journal_while_the_machine_reacts() {
    let mut unit = SocketUnit::new("app.socket".to_string());
    let mut data = SocketConfigData::default();
    data.Socket.ListenStream = vec!["12345".to_string()];
    unit.load(data, true, true).unwrap();
    let mut f = facts();
    f.active_or_pending = true;
    unit.attach_facts(f);
    unit.start().unwrap();
    unit.machine().port_opened(Some(3));
    let mut reli = Reliability::new();
    reli.set_enable(true);
    assert_eq!(unit.dispatch(&mut reli, 0), 0);
    assert_eq!(unit.machine().state(), SocketState::Running);
    assert_eq!(reli.last_frame(), None);
    assert_eq!(reli.last_unit(), None);
    assert!(reli.enable());
}

#[test]
fn recorded_settings_are_taken_up_with_the_recorded_service() {
    let mut config = SocketConfig::new("test.socket".to_string());
    let r = config.db_map(
        SocketConfigData::new(section()),
        Some("other.service".to_string()),
        true,
        false,
    );
    assert_eq!(r, Ok(()));
    assert_eq!(config.unit_ref_target(), Some("other.service".to_string()));
    let listens: Vec<&str> = config.ports().iter().map(|p| p.listen()).collect();
    assert_eq!(
        listens,
        vec!["31972", "/run/test.sock", "127.0.0.1:5000", "route 0", "@seq"]
    );
    assert_eq!(config.get_exec_cmds(SocketCommand::StartPre).len(), 1);

    let r = config.db_map(SocketConfigData::new(section()), None, false, false);
    assert_eq!(r, Ok(()));
    assert_eq!(config.unit_ref_target(), None);
    assert_eq!(config.ports().len(), 5);
}

#[test]
fn recorded_settings_that_do_not_hold_leave_nothing_configured() {
    let mut config = SocketConfig::new("test.socket".to_string());
    let r = config.db_map(
        SocketConfigData::new(section()),
        Some("other.service".to_string()),
        false,
        true,
    );
    assert_eq!(r, Err(SocketConfigError::ServiceLoad));
    assert_eq!(config.ports().len(), 0);
    assert_eq!(config.unit_ref_target(), None);
    let mut s = section();
    s.ListenStream = vec!["nowhere".to_string()];
    let r = config.db_map(SocketConfigData::new(s), None, true, true);
    assert_eq!(r, Err(SocketConfigError::Listen(AddressError::InvalidListen)));
    assert_eq!(config.ports().len(), 0);
    assert_eq!(config.get_exec_cmds(SocketCommand::StartPre).len(), 0);
}
