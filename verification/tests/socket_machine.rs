use sysmaster::error::UnitActionError;
use sysmaster::socket_mng::{Pending, PortState, SocketEnv, SocketMng, SocketOp};
use sysmaster::socket_rentry::{PortType, SocketCommand, SocketReFrame, SocketResult, SocketState};
use sysmaster::unit_base::{KillOperation, Signal, WaitStatus};
use sysmaster::unit_state::UnitActiveState;

fn env() -> SocketEnv {
    SocketEnv {
        accept: false,
        has_service: true,
        start_pre: 0,
        start_post: 0,
        stop_pre: 0,
        stop_post: 0,
        service_error: None,
        start_limit_ok: true,
        has_stop_job: false,
        active_or_pending: false,
    }
}

fn machine(env: SocketEnv, ports: usize) -> SocketMng {
    let mut m = SocketMng::new(env);
    for _ in 0..ports {
        m.build_port(PortType::Socket, true);
    }
    m
}

fn listening(env: SocketEnv) -> SocketMng {
    let mut m = machine(env, 1);
    assert_eq!(m.start_check(), Ok(false));
    m.start_action();
    m.port_opened(Some(7));
    assert_eq!(m.state(), SocketState::Listening);
    m.take_ops();
    m
}

fn watched(m: &SocketMng) -> Vec<bool> {
    m.ports().iter().map(|p| p.watched).collect()
}

fn exited(code: i32) -> WaitStatus {
    WaitStatus::Exited { pid: 100, code }
}

#[test]
fn test_socket_active_state() {
    assert_eq!(SocketState::Dead.to_unit_active_state(), UnitActiveState::UnitInActive);
    assert_eq!(SocketState::StartPre.to_unit_active_state(), UnitActiveState::UnitActivating);
    assert_eq!(SocketState::StartChown.to_unit_active_state(), UnitActiveState::UnitActivating);
    assert_eq!(SocketState::StartPost.to_unit_active_state(), UnitActiveState::UnitActivating);
    assert_eq!(SocketState::Listening.to_unit_active_state(), UnitActiveState::UnitActive);
    assert_eq!(SocketState::Running.to_unit_active_state(), UnitActiveState::UnitActive);
    assert_eq!(SocketState::StopPre.to_unit_active_state(), UnitActiveState::UnitDeActivating);
    assert_eq!(
        SocketState::StopPreSigterm.to_unit_active_state(),
        UnitActiveState::UnitDeActivating
    );
    assert_eq!(SocketState::StopPost.to_unit_active_state(), UnitActiveState::UnitDeActivating);
    assert_eq!(
        SocketState::StopPreSigkill.to_unit_active_state(),
        UnitActiveState::UnitDeActivating
    );
    assert_eq!(SocketState::FinalSigterm.to_unit_active_state(), UnitActiveState::UnitDeActivating);
    assert_eq!(SocketState::FinalSigterm.to_unit_active_state(), UnitActiveState::UnitDeActivating);
    assert_eq!(SocketState::Failed.to_unit_active_state(), UnitActiveState::UnitFailed);
    assert_eq!(SocketState::Cleaning.to_unit_active_state(), UnitActiveState::UnitMaintenance);
}

#[test]
fn kill_operation_is_polite_in_the_sigterm_states() {
    assert_eq!(SocketState::StopPreSigterm.to_kill_operation(), KillOperation::KillTerminate);
    assert_eq!(SocketState::FinalSigterm.to_kill_operation(), KillOperation::KillTerminate);
    assert_eq!(SocketState::StopPreSigkill.to_kill_operation(), KillOperation::KillKill);
    assert_eq!(SocketState::FinalSigkill.to_kill_operation(), KillOperation::KillKill);
    assert_eq!(KillOperation::KillTerminate.to_signal(), Signal::SIGTERM);
    assert_eq!(KillOperation::KillKill.to_signal(), Signal::SIGKILL);
    assert_eq!(KillOperation::KillWatchdog.to_signal(), Signal::SIGABRT);
}

#[test]
fn new_machine_is_dead_and_idle() {
    let m = machine(env(), 2);
    assert_eq!(m.state(), SocketState::Dead);
    assert_eq!(m.result(), SocketResult::Success);
    assert_eq!(m.pending(), Pending::Idle);
    assert_eq!(m.refused(), 0);
    assert_eq!(m.collect_fds(), Vec::<i32>::new());
    assert_eq!(m.get_state(), "dead");
    assert_eq!(m.current_active_state(), UnitActiveState::UnitInActive);
    assert_eq!(
        m.ports(),
        vec![
            PortState { p_type: PortType::Socket, can_accept: true, fd: -1, watched: false };
            2
        ]
    );
}

#[test]
fn start_without_commands_opens_ports_one_by_one_and_listens() {
    let mut m = machine(env(), 2);
    assert_eq!(m.start_check(), Ok(false));
    m.start_action();
    assert_eq!(m.state(), SocketState::StartChown);
    assert_eq!(m.pending(), Pending::OpenPort(0));
    let ops = m.take_ops();
    assert_eq!(
        ops,
        vec![
            SocketOp::Unwatch { port: 0, fd: -1 },
            SocketOp::Unwatch { port: 1, fd: -1 },
            SocketOp::Notify {
                from: UnitActiveState::UnitInActive,
                to: UnitActiveState::UnitActivating
            },
            SocketOp::OpenPort { port: 0 },
        ]
    );
    m.port_opened(Some(5));
    assert_eq!(m.pending(), Pending::OpenPort(1));
    assert_eq!(
        m.take_ops(),
        vec![SocketOp::ApplySockOpt { port: 0, fd: 5 }, SocketOp::OpenPort { port: 1 }]
    );
    m.port_opened(Some(6));
    assert_eq!(m.state(), SocketState::Listening);
    assert_eq!(m.pending(), Pending::Idle);
    assert_eq!(
        m.take_ops(),
        vec![
            SocketOp::ApplySockOpt { port: 1, fd: 6 },
            SocketOp::Flush { port: 0, fd: 5 },
            SocketOp::Flush { port: 1, fd: 6 },
            SocketOp::Watch { port: 0, fd: 5 },
            SocketOp::Watch { port: 1, fd: 6 },
            SocketOp::Notify {
                from: UnitActiveState::UnitActivating,
                to: UnitActiveState::UnitActive
            },
        ]
    );
    assert_eq!(m.collect_fds(), vec![5, 6]);
    assert_eq!(watched(&m), vec![true, true]);
}

#[test]
fn accept_mode_does_not_flush_on_listening() {
    let mut e = env();
    e.accept = true;
    let mut m = machine(e, 1);
    m.start_action();
    m.take_ops();
    m.port_opened(Some(9));
    assert_eq!(
        m.take_ops(),
        vec![
            SocketOp::ApplySockOpt { port: 0, fd: 9 },
            SocketOp::Watch { port: 0, fd: 9 },
            SocketOp::Notify {
                from: UnitActiveState::UnitActivating,
                to: UnitActiveState::UnitActive
            },
        ]
    );
}

#[test]
fn port_that_cannot_be_opened_closes_all_and_fails() {
    let mut m = machine(env(), 2);
    m.start_action();
    m.port_opened(Some(5));
    m.take_ops();
    m.port_opened(None);
    assert_eq!(m.result(), SocketResult::FailureResources);
    // no stop commands: straight to the final signalling
    assert_eq!(m.state(), SocketState::FinalSigterm);
    assert_eq!(m.pending(), Pending::Kill(SocketState::FinalSigterm));
    let ops = m.take_ops();
    assert_eq!(ops[0], SocketOp::RemoveSource { port: 0, fd: 5 });
    assert_eq!(ops[2], SocketOp::Close { port: 0, fd: 5 });
    assert_eq!(
        ops.last(),
        Some(&SocketOp::Kill { operation: KillOperation::KillTerminate, control_pid: None })
    );
    assert_eq!(m.collect_fds(), Vec::<i32>::new());
    m.kill_result(true);
    assert_eq!(m.state(), SocketState::FinalSigkill);
    m.kill_result(true);
    assert_eq!(m.state(), SocketState::Failed);
    assert_eq!(m.current_active_state(), UnitActiveState::UnitFailed);
}

#[test]
fn port_answers_count_only_while_ports_are_opened() {
    let mut m = listening(env());
    m.port_opened(Some(44));
    assert_eq!(m.state(), SocketState::Listening);
    assert_eq!(m.collect_fds(), vec![7]);
    assert!(m.take_ops().is_empty());
}

#[test]
fn start_pre_commands_run_last_first_then_ports_open() {
    let mut e = env();
    e.start_pre = 2;
    let mut m = machine(e, 1);
    m.start_action();
    assert_eq!(m.state(), SocketState::Dead);
    assert_eq!(m.pending(), Pending::Spawn(SocketCommand::StartPre));
    assert_eq!(m.take_ops(), vec![SocketOp::Spawn { cmd_type: SocketCommand::StartPre, index: 1 }]);
    m.spawn_result(Some(321));
    assert_eq!(m.state(), SocketState::StartPre);
    assert_eq!(m.control_pid(), Some(321));
    assert_eq!(m.control_cmd_len(), 1);
    m.take_ops();
    m.sigchld_event(exited(0));
    assert_eq!(m.pending(), Pending::SpawnNext);
    assert_eq!(m.take_ops(), vec![SocketOp::Spawn { cmd_type: SocketCommand::StartPre, index: 0 }]);
    m.spawn_result(Some(322));
    assert_eq!(m.control_pid(), Some(322));
    m.sigchld_event(exited(0));
    assert_eq!(m.state(), SocketState::StartChown);
    assert_eq!(m.pending(), Pending::OpenPort(0));
}

#[test]
fn start_pre_that_cannot_be_spawned_takes_the_stop_path() {
    let mut e = env();
    e.start_pre = 1;
    e.stop_pre = 1;
    let mut m = machine(e, 1);
    m.start_action();
    m.take_ops();
    m.spawn_result(None);
    assert_eq!(m.result(), SocketResult::FailureResources);
    assert_eq!(m.pending(), Pending::Spawn(SocketCommand::StopPre));
    assert_eq!(
        m.take_ops().last(),
        Some(&SocketOp::Spawn { cmd_type: SocketCommand::StopPre, index: 0 })
    );
    m.spawn_result(Some(11));
    assert_eq!(m.state(), SocketState::StopPre);
    assert!(m.ports().iter().all(|p| p.fd < 0));

    // without stop commands the stop path is walked to its signals
    let mut e = env();
    e.start_pre = 1;
    let mut m = machine(e, 1);
    m.start_action();
    m.spawn_result(None);
    assert_eq!(m.state(), SocketState::FinalSigterm);
    assert_eq!(m.result(), SocketResult::FailureResources);
}

#[test]
fn failing_start_pre_command_goes_to_stop_pre() {
    let mut e = env();
    e.start_pre = 1;
    e.stop_pre = 1;
    let mut m = machine(e, 1);
    m.start_action();
    m.spawn_result(Some(10));
    assert_eq!(m.state(), SocketState::StartPre);
    m.take_ops();
    m.sigchld_event(exited(3));
    assert_eq!(m.result(), SocketResult::FailureExitCode);
    assert_eq!(m.pending(), Pending::Spawn(SocketCommand::StopPre));
    let ops = m.take_ops();
    assert!(ops.contains(&SocketOp::Spawn { cmd_type: SocketCommand::StopPre, index: 0 }));
    assert!(!ops.iter().any(|op| matches!(op, SocketOp::OpenPort { .. } | SocketOp::Kill { .. })));
    m.spawn_result(Some(11));
    assert_eq!(m.state(), SocketState::StopPre);
    assert_eq!(m.result(), SocketResult::FailureExitCode);
    assert!(m.ports().iter().all(|p| p.fd < 0));

    let mut m2 = machine(e, 1);
    m2.start_action();
    m2.spawn_result(Some(10));
    m2.sigchld_event(WaitStatus::Signaled { pid: 10, signal: Signal::SIGSEGV, core_dump: true });
    assert_eq!(m2.result(), SocketResult::FailureCoreDump);
    assert_eq!(m2.pending(), Pending::Spawn(SocketCommand::StopPre));
    m2.spawn_result(Some(12));
    assert_eq!(m2.state(), SocketState::StopPre);
    let mut m3 = machine(e, 1);
    m3.start_action();
    m3.spawn_result(Some(10));
    m3.sigchld_event(WaitStatus::Signaled { pid: 10, signal: Signal::SIGTERM, core_dump: false });
    assert_eq!(m3.result(), SocketResult::FailureSignal);
    assert_eq!(m3.pending(), Pending::Spawn(SocketCommand::StopPre));
    m3.spawn_result(Some(13));
    assert_eq!(m3.state(), SocketState::StopPre);
}

#[test]
fn start_pre_that_went_well_opens_the_ports() {
    let mut e = env();
    e.start_pre = 1;
    e.stop_pre = 1;
    let mut m = machine(e, 1);
    m.start_action();
    m.spawn_result(Some(10));
    m.take_ops();
    m.sigchld_event(exited(0));
    assert_eq!(m.state(), SocketState::StartChown);
    assert_eq!(m.result(), SocketResult::Success);
    assert!(m.take_ops().contains(&SocketOp::OpenPort { port: 0 }));
}

#[test]
fn sigchld_result_of_each_status() {
    let m = machine(env(), 0);
    assert_eq!(m.sigchld_result(exited(0)), SocketResult::Success);
    assert_eq!(m.sigchld_result(exited(1)), SocketResult::FailureExitCode);
    assert_eq!(
        m.sigchld_result(WaitStatus::Signaled { pid: 1, signal: Signal::SIGKILL, core_dump: false }),
        SocketResult::FailureSignal
    );
}

#[test]
fn start_check_answers_by_state() {
    let mut m = machine(env(), 1);
    m.start_action();
    assert_eq!(m.start_check(), Ok(true));
    let mut m = listening(env());
    m.stop_action();
    assert_eq!(m.state(), SocketState::FinalSigterm);
    assert_eq!(m.start_check(), Err(UnitActionError::UnitActionEAgain));

    let mut e = env();
    e.service_error = Some(UnitActionError::UnitActionENoent);
    let mut m = machine(e, 1);
    assert_eq!(m.start_check(), Err(UnitActionError::UnitActionENoent));
    assert_eq!(m.state(), SocketState::Dead);

    let mut e = env();
    e.start_limit_ok = false;
    let mut m = machine(e, 1);
    assert_eq!(m.start_check(), Err(UnitActionError::UnitActionECanceled));
    assert_eq!(m.state(), SocketState::Failed);
    assert_eq!(m.result(), SocketResult::FailureStartLimitHit);
}

#[test]
fn stop_check_answers_by_state() {
    let mut m = listening(env());
    assert_eq!(m.stop_check(), Ok(false));
    let mut m = machine(env(), 1);
    m.start_action();
    assert_eq!(m.stop_check(), Err(UnitActionError::UnitActionEAgain));
    assert_eq!(m.state(), SocketState::StopPreSigterm);
    assert_eq!(m.stop_check(), Ok(true));
}

#[test]
fn scenario_simple_socket_activation() {
    let mut m = listening(env());
    m.dispatch_io(0);
    assert_eq!(m.state(), SocketState::Listening);
    assert_eq!(m.pending(), Pending::StartService);
    assert_eq!(
        m.take_ops(),
        vec![
            SocketOp::LastFrame { frame: Some(SocketReFrame::FdListen(false)) },
            SocketOp::StartService,
            SocketOp::LastFrame { frame: Some(SocketReFrame::FdListen(true)) },
        ]
    );
    m.service_started(true);
    assert_eq!(m.state(), SocketState::Running);
    assert_eq!(m.collect_fds(), vec![7]);
    assert_eq!(watched(&m), vec![false]);
    assert_eq!(
        m.take_ops(),
        vec![
            SocketOp::Unwatch { port: 0, fd: 7 },
            SocketOp::Notify { from: UnitActiveState::UnitActive, to: UnitActiveState::UnitActive },
        ]
    );
}

#[test]
fn service_that_is_up_needs_no_start() {
    let mut e = env();
    e.active_or_pending = true;
    let mut m = listening(e);
    m.dispatch_io(0);
    assert_eq!(m.state(), SocketState::Running);
}

#[test]
fn service_that_cannot_start_brings_the_socket_down() {
    let mut m = listening(env());
    m.dispatch_io(0);
    m.service_started(false);
    assert_eq!(m.result(), SocketResult::FailureResources);
    assert_eq!(m.state(), SocketState::FinalSigterm);
}

#[test]
fn socket_without_service_goes_down_on_traffic() {
    let mut e = env();
    e.has_service = false;
    let mut m = listening(e);
    m.dispatch_io(0);
    assert_eq!(m.result(), SocketResult::FailureResources);
    assert_eq!(m.state(), SocketState::FinalSigterm);
}

#[test]
fn traffic_is_ignored_unless_listening() {
    let mut m = machine(env(), 1);
    m.dispatch_io(0);
    assert_eq!(m.state(), SocketState::Dead);
    assert!(m.take_ops().is_empty());
    let mut m = listening(env());
    m.dispatch_io(5);
    assert!(m.take_ops().is_empty());
}

#[test]
fn pending_stop_job_refuses_accepted_connections_and_flushes_otherwise() {
    let mut e = env();
    e.has_stop_job = true;
    let mut m = listening(e);
    m.dispatch_io(0);
    assert_eq!(m.take_ops(), vec![SocketOp::Flush { port: 0, fd: 7 }]);
    assert_eq!(m.refused(), 0);

    e.accept = true;
    let mut m = listening(e);
    m.dispatch_io(0);
    assert_eq!(m.pending(), Pending::Accept(0));
    assert_eq!(m.take_ops(), vec![SocketOp::Accept { port: 0, fd: 7 }]);
    m.accepted(Some(12));
    assert_eq!(m.refused(), 1);
    assert_eq!(
        m.take_ops(),
        vec![SocketOp::ApplySockOpt { port: 0, fd: 12 }, SocketOp::Discard { fd: 12 }]
    );
    assert_eq!(m.state(), SocketState::Listening);
}

#[test]
fn accepted_connection_is_handed_off() {
    let mut e = env();
    e.accept = true;
    let mut m = listening(e);
    m.dispatch_io(0);
    m.take_ops();
    m.accepted(Some(12));
    assert_eq!(
        m.take_ops(),
        vec![SocketOp::ApplySockOpt { port: 0, fd: 12 }, SocketOp::HandOff { fd: 12 }]
    );
    assert_eq!(m.state(), SocketState::Listening);
    m.dispatch_io(0);
    m.accepted(None);
    assert_eq!(m.pending(), Pending::Idle);
}

#[test]
fn stop_runs_the_hooks_and_both_signal_states() {
    let mut e = env();
    e.stop_pre = 1;
    e.stop_post = 1;
    let mut m = listening(e);
    m.stop_action();
    assert_eq!(m.state(), SocketState::Listening);
    assert_eq!(m.take_ops(), vec![SocketOp::Spawn { cmd_type: SocketCommand::StopPre, index: 0 }]);
    m.spawn_result(Some(50));
    assert_eq!(m.state(), SocketState::StopPre);
    assert_eq!(watched(&m), vec![false]);
    assert_eq!(m.collect_fds(), vec![7]);
    m.take_ops();
    m.sigchld_event(exited(0));
    assert_eq!(m.pending(), Pending::Spawn(SocketCommand::StopPost));
    assert_eq!(m.take_ops(), vec![SocketOp::Spawn { cmd_type: SocketCommand::StopPost, index: 0 }]);
    m.spawn_result(Some(51));
    assert_eq!(m.state(), SocketState::StopPost);
    assert_eq!(m.collect_fds(), Vec::<i32>::new());
    m.take_ops();
    m.sigchld_event(exited(0));
    assert_eq!(m.state(), SocketState::Dead);
    assert_eq!(m.result(), SocketResult::Success);
    assert_eq!(m.control_pid(), None);
    let ops = m.take_ops();
    assert_eq!(ops[0], SocketOp::UnwatchPid { pid: 51 });
    assert_eq!(
        ops.last(),
        Some(&SocketOp::Notify {
            from: UnitActiveState::UnitDeActivating,
            to: UnitActiveState::UnitInActive
        })
    );
}

#[test]
fn failed_kill_in_pre_stop_goes_on_to_post_stop() {
    let mut m = machine(env(), 1);
    m.start_action();
    assert_eq!(m.stop_check(), Err(UnitActionError::UnitActionEAgain));
    m.kill_result(false);
    assert_eq!(m.result(), SocketResult::FailureResources);
    assert_eq!(m.state(), SocketState::FinalSigterm);
    m.kill_result(false);
    assert_eq!(m.state(), SocketState::Failed);
}

#[test]
fn polite_pre_stop_signal_is_followed_by_the_forceful_one() {
    let mut m = machine(env(), 1);
    m.start_action();
    m.take_ops();
    let _ = m.stop_check();
    assert_eq!(
        m.take_ops().last(),
        Some(&SocketOp::Kill { operation: KillOperation::KillTerminate, control_pid: None })
    );
    m.kill_result(true);
    assert_eq!(m.state(), SocketState::StopPreSigkill);
    assert_eq!(
        m.take_ops().last(),
        Some(&SocketOp::Kill { operation: KillOperation::KillKill, control_pid: None })
    );
    m.kill_result(true);
    assert_eq!(m.state(), SocketState::FinalSigterm);
}

#[test]
fn watched_ports_follow_the_state_through_a_whole_life() {
    let consistent = |m: &SocketMng| {
        let ports = m.ports();
        if m.state() == SocketState::Listening {
            ports.iter().all(|p| p.fd < 0 || p.watched)
        } else {
            ports.iter().all(|p| !p.watched)
        }
    };
    let mut e = env();
    e.start_post = 1;
    e.stop_pre = 1;
    let mut m = machine(e, 2);
    assert!(consistent(&m));
    m.start_action();
    assert!(consistent(&m));
    m.port_opened(Some(3));
    assert!(consistent(&m));
    m.port_opened(Some(4));
    assert!(consistent(&m));
    m.spawn_result(Some(9));
    assert!(consistent(&m));
    m.sigchld_event(exited(0));
    assert_eq!(m.state(), SocketState::Listening);
    assert!(consistent(&m));
    m.dispatch_io(1);
    m.service_started(true);
    assert_eq!(m.state(), SocketState::Running);
    assert!(consistent(&m));
    m.stop_action();
    assert!(consistent(&m));
    m.spawn_result(Some(10));
    assert!(consistent(&m));
    m.sigchld_event(exited(1));
    assert!(consistent(&m));
    m.kill_result(true);
    m.kill_result(true);
    assert_eq!(m.state(), SocketState::Failed);
    assert!(consistent(&m));
}

#[test]
fn scenario_replay_keeps_the_refused_counter() {
    let mut m = machine(env(), 2);
    assert!(m.restore(
        SocketState::Listening,
        SocketResult::Success,
        None,
        None,
        0,
        17,
        &vec![8, -1]
    ));
    assert_eq!(m.state(), SocketState::Listening);
    assert_eq!(m.refused(), 17);
    assert_eq!(m.collect_fds(), vec![8]);
    assert_eq!(watched(&m), vec![false, false]);
    m.entry_coldplug();
    assert_eq!(watched(&m), vec![true, false]);
    assert_eq!(
        m.take_ops(),
        vec![SocketOp::Watch { port: 0, fd: 8 }, SocketOp::ReopenPort { port: 1 }]
    );
    // the port that could not be taken over is opened anew, once
    m.port_reopened(1, Some(9));
    assert_eq!(
        m.take_ops(),
        vec![SocketOp::ApplySockOpt { port: 1, fd: 9 }, SocketOp::Watch { port: 1, fd: 9 }]
    );
    assert_eq!(m.collect_fds(), vec![8, 9]);
    assert_eq!(watched(&m), vec![true, true]);
    m.port_reopened(1, Some(10));
    m.port_reopened(7, Some(10));
    assert_eq!(m.collect_fds(), vec![8, 9]);
    assert!(m.take_ops().is_empty());
    assert_eq!(m.state(), SocketState::Listening);
    assert_eq!(m.refused(), 17);
    m.entry_clear();
    assert_eq!(watched(&m), vec![false, false]);
}

#[test]
fn port_that_cannot_be_reopened_brings_the_unit_to_rest() {
    let mut m = machine(env(), 2);
    assert!(m.restore(
        SocketState::Running,
        SocketResult::Success,
        None,
        None,
        0,
        0,
        &vec![-1, 5]
    ));
    m.entry_coldplug();
    assert_eq!(
        m.take_ops(),
        vec![SocketOp::Watch { port: 1, fd: 5 }, SocketOp::ReopenPort { port: 0 }]
    );
    m.port_reopened(0, None);
    assert_eq!(m.state(), SocketState::Dead);
    assert_eq!(m.collect_fds(), Vec::<i32>::new());
    assert_eq!(watched(&m), vec![false, false]);

    let mut m = machine(env(), 1);
    assert!(m.restore(
        SocketState::Listening,
        SocketResult::FailureExitCode,
        None,
        None,
        0,
        0,
        &vec![-1]
    ));
    m.port_reopened(0, Some(-1));
    assert_eq!(m.state(), SocketState::Failed);

    // a unit at rest opens nothing anew
    let mut m = machine(env(), 1);
    m.entry_coldplug();
    assert!(m.take_ops().is_empty());
    m.port_reopened(0, Some(3));
    assert_eq!(m.collect_fds(), Vec::<i32>::new());
}

#[test]
fn restore_turns_down_a_record_that_does_not_fit() {
    let mut e = env();
    e.stop_pre = 2;
    let mut m = machine(e, 1);
    assert!(!m.restore(SocketState::Running, SocketResult::Success, None, None, 0, 0, &vec![]));
    assert!(!m.restore(SocketState::Running, SocketResult::Success, None, None, 1, 0, &vec![4]));
    assert!(!m.restore(
        SocketState::StopPre,
        SocketResult::Success,
        Some(5),
        Some(SocketCommand::StopPre),
        3,
        0,
        &vec![4]
    ));
    assert_eq!(m.state(), SocketState::Dead);
    assert!(m.restore(
        SocketState::StopPre,
        SocketResult::FailureExitCode,
        Some(5),
        Some(SocketCommand::StopPre),
        1,
        0,
        &vec![4]
    ));
    assert_eq!(m.control_cmd_type(), Some(SocketCommand::StopPre));
    assert_eq!(m.control_cmd_len(), 1);
    assert_eq!(m.result(), SocketResult::FailureExitCode);
}

#[test]
fn refused_counter_stops_at_the_largest_value() {
    let mut e = env();
    e.accept = true;
    e.has_stop_job = true;
    let mut m = machine(e, 1);
    assert!(m.restore(
        SocketState::Listening,
        SocketResult::Success,
        None,
        None,
        0,
        i32::MAX,
        &vec![8]
    ));
    m.dispatch_io(0);
    m.accepted(Some(3));
    assert_eq!(m.refused(), i32::MAX);
}

#[test]
fn ports_can_be_dropped_and_the_environment_replaced() {
    let mut m = machine(env(), 3);
    m.clear_ports();
    assert!(m.ports().is_empty());
    let mut e = env();
    e.accept = true;
    m.set_env(e);
    assert!(m.env().accept);
    assert_eq!(m.state(), SocketState::Dead);
}
