use sysmaster::job_entry::JobKind;
use sysmaster::manager::{active_state_name, CommandActionMgr, State};
use sysmaster::proto::abi::{unit_comm, CommandRequest};
use sysmaster::proto::execute::{dispatch, ExecCmdErrno, ExecuterAction};
use sysmaster::unit_manager::UnitManagerX;
use sysmaster::unit_rel::UnitRelations;
use sysmaster::unit_sets::{UnitLoadState, UnitType};
use sysmaster::unit_state::UnitActiveState;

fn loaded(um: &mut UnitManagerX, name: &str) -> usize {
    let at = um.unit_of(&name.to_string());
    um.set_loaded(at, UnitLoadState::UnitLoaded, false);
    at
}

fn kinds(um: &UnitManagerX) -> Vec<(usize, JobKind)> {
    um.get_jobs().iter().map(|j| (j.unit, j.kind)).collect()
}

#[test]
fn unit_is_registered_on_first_reference() {
    let mut um = UnitManagerX::new();
    assert_eq!(um.unit_of(&"a.service".to_string()), 0);
    assert_eq!(um.unit_of(&"b.socket".to_string()), 1);
    assert_eq!(um.unit_of(&"a.service".to_string()), 0);
    assert_eq!(um.unit_of(&"plain".to_string()), 2);
    let units = um.registry();
    assert_eq!(units.len(), 3);
    assert_eq!(units.unit(0).id, "a.service");
    assert_eq!(units.unit(0).unit_type, UnitType::UnitService);
    assert_eq!(units.unit(0).load_state, UnitLoadState::UnitStub);
    assert_eq!(units.unit(0).active_state, UnitActiveState::UnitInActive);
    assert!(!units.unit(0).ignore_on_isolate);
    assert_eq!(units.unit(1).unit_type, UnitType::UnitSocket);
    assert_eq!(units.unit(2).unit_type, UnitType::UnitService);
    assert!(um.get_jobs().is_empty());
}

#[test]
fn loading_and_activation_are_recorded_on_the_unit() {
    let mut um = UnitManagerX::new();
    let a = um.unit_of(&"a.service".to_string());
    let b = um.unit_of(&"b.service".to_string());
    um.set_loaded(a, UnitLoadState::UnitLoaded, true);
    um.set_active(a, UnitActiveState::UnitActive);
    assert_eq!(um.registry().unit(a).load_state, UnitLoadState::UnitLoaded);
    assert!(um.registry().unit(a).ignore_on_isolate);
    assert_eq!(um.registry().unit(a).active_state, UnitActiveState::UnitActive);
    assert_eq!(um.registry().unit(a).id, "a.service");
    assert_eq!(um.registry().unit(b).load_state, UnitLoadState::UnitStub);
    assert_eq!(um.registry().unit(b).active_state, UnitActiveState::UnitInActive);
    assert_eq!(um.get_unit_status(&"a.service".to_string()), Some(UnitActiveState::UnitActive));
    assert_eq!(um.get_unit_status(&"b.service".to_string()), Some(UnitActiveState::UnitInActive));
    assert_eq!(um.get_unit_status(&"c.service".to_string()), None);
}

#[test]
fn start_of_a_loaded_unit_pulls_in_what_it_requires() {
    let mut um = UnitManagerX::new();
    let a = loaded(&mut um, "a.service");
    let b = loaded(&mut um, "b.service");
    um.insert_dep(a, UnitRelations::UnitRequires, b);
    assert_eq!(um.dependencies().gets_atom(a, sysmaster::unit_rel::UnitRelationAtom::UnitAtomPullInStart), vec![b]);
    assert_eq!(um.start_unit(&"a.service".to_string()), Ok(()));
    assert_eq!(kinds(&um), vec![(a, JobKind::JobStart), (b, JobKind::JobStart)]);
    assert_eq!(um.registry().len(), 2);
}

#[test]
fn start_of_a_unit_that_is_not_loaded_is_bad_input() {
    let mut um = UnitManagerX::new();
    assert_eq!(um.start_unit(&"a.service".to_string()), Err(sysmaster::error::JobErrno::JobErrInput));
    assert_eq!(um.registry().len(), 1);
    assert!(um.get_jobs().is_empty());
    let a = um.unit_of(&"a.service".to_string());
    um.set_loaded(a, UnitLoadState::UnitError, false);
    assert_eq!(
        um.start_unit(&"a.service".to_string()),
        Err(sysmaster::error::JobErrno::JobErrBadRequest)
    );
    assert!(um.get_jobs().is_empty());
}

#[test]
fn stop_and_restart_go_through_the_same_transaction() {
    let mut um = UnitManagerX::new();
    let a = loaded(&mut um, "a.service");
    assert_eq!(um.stop_unit(&"a.service".to_string()), Ok(()));
    assert_eq!(kinds(&um), vec![(a, JobKind::JobStop)]);
    let mut um = UnitManagerX::new();
    let a = loaded(&mut um, "a.service");
    assert_eq!(um.restart_unit(&"a.service".to_string()), Ok(()));
    assert_eq!(kinds(&um), vec![(a, JobKind::JobRestart)]);
    let given_way = um.plan(&"a.service".to_string(), JobKind::JobStop).unwrap();
    assert_eq!(kinds(&um), vec![(a, JobKind::JobStop)]);
    assert_eq!(given_way.len(), 1);
    assert_eq!(given_way[0].kind, JobKind::JobRestart);
}

#[test]
fn all_units_are_listed_one_to_a_line() {
    let mut um = UnitManagerX::new();
    assert_eq!(um.get_all_units(), "");
    um.unit_of(&"a.service".to_string());
    assert_eq!(um.get_all_units(), "a.service");
    um.unit_of(&"b.socket".to_string());
    um.unit_of(&"c.target".to_string());
    assert_eq!(um.get_all_units(), "a.service\nb.socket\nc.target");
}

#[test]
fn state_words_are_the_lower_case_names() {
    assert_eq!(active_state_name(UnitActiveState::UnitActive), "active");
    assert_eq!(active_state_name(UnitActiveState::UnitReloading), "reloading");
    assert_eq!(active_state_name(UnitActiveState::UnitInActive), "inactive");
    assert_eq!(active_state_name(UnitActiveState::UnitFailed), "failed");
    assert_eq!(active_state_name(UnitActiveState::UnitActivating), "activating");
    assert_eq!(active_state_name(UnitActiveState::UnitDeActivating), "deactivating");
    assert_eq!(active_state_name(UnitActiveState::UnitMaintenance), "maintenance");
}

#[test]
fn commands_on_units_reach_the_run_table() {
    let mut um = UnitManagerX::new();
    let a = loaded(&mut um, "a.service");
    um.set_active(a, UnitActiveState::UnitActive);
    let mut c = CommandActionMgr::new(um, State::Ready);
    assert_eq!(c.status(&"a.service".to_string()), Ok("active".to_string()));
    assert_eq!(c.status(&"z.service".to_string()), Err(ExecCmdErrno::NotExisted));
    assert_eq!(c.list_units(), Ok("a.service".to_string()));
    assert_eq!(c.start(&"a.service".to_string()), Ok(()));
    assert_eq!(kinds(c.unit_manager()), vec![(a, JobKind::JobStart)]);
    assert_eq!(c.start(&"b.service".to_string()), Err(ExecCmdErrno::Input));
    assert_eq!(kinds(c.unit_manager()), vec![(a, JobKind::JobStart)]);
    assert_eq!(c.list_units(), Ok("a.service\nb.service".to_string()));
    assert_eq!(c.stop(&"a.service".to_string()), Ok(()));
    assert_eq!(kinds(c.unit_manager()), vec![(a, JobKind::JobStop)]);
    assert_eq!(c.restart(&"a.service".to_string()), Ok(()));
    assert_eq!(c.state(), State::Ready);
}

#[test]
fn installing_units_is_not_offered() {
    let mut um = UnitManagerX::new();
    let a = loaded(&mut um, "a.target");
    let mut c = CommandActionMgr::new(um, State::Ready);
    assert_eq!(c.stop(&"a.target".to_string()), Ok(()));
    let before = kinds(c.unit_manager());
    assert_eq!(before, vec![(a, JobKind::JobStop)]);
    assert_eq!(ExecuterAction::enable(&mut c, &"a.target".to_string()), Err(ExecCmdErrno::NotSupported));
    assert_eq!(ExecuterAction::disable(&mut c, &"a.target".to_string()), Err(ExecCmdErrno::NotSupported));
    assert_eq!(ExecuterAction::mask(&mut c, &"a.target".to_string()), Err(ExecCmdErrno::NotSupported));
    assert_eq!(ExecuterAction::unmask(&mut c, &"a.target".to_string()), Err(ExecCmdErrno::NotSupported));
    assert_eq!(kinds(c.unit_manager()), before);
}

#[test]
fn unit_manager_can_be_taken_out_and_put_back() {
    let mut c = CommandActionMgr::new(UnitManagerX::new(), State::Init);
    let mut um = c.replace_unit_manager(UnitManagerX::new());
    loaded(&mut um, "a.service");
    let empty = c.replace_unit_manager(um);
    assert_eq!(empty.registry().len(), 0);
    assert_eq!(c.unit_manager().registry().len(), 1);
    assert_eq!(c.state(), State::Init);
}

#[test]
fn requests_are_dispatched_to_the_command_manager() {
    let mut um = UnitManagerX::new();
    let a = loaded(&mut um, "test.service");
    let mut c = CommandActionMgr::new(um, State::Ready);
    let r = dispatch(
        CommandRequest::new_unitcomm(unit_comm::Action::Start, "test.service".to_string()),
        &mut c,
    );
    assert_eq!(r.status, 200);
    assert_eq!(kinds(c.unit_manager()), vec![(a, JobKind::JobStart)]);
    let r = dispatch(
        CommandRequest::new_unitcomm(unit_comm::Action::Status, "test.service".to_string()),
        &mut c,
    );
    assert_eq!((r.status, r.message.as_str()), (200, "inactive"));
    let r = dispatch(
        CommandRequest::new_unitcomm(unit_comm::Action::Status, "none.service".to_string()),
        &mut c,
    );
    assert_eq!((r.status, r.message.as_str()), (404, "not found."));
    let r = dispatch(
        CommandRequest::new_unitcomm(unit_comm::Action::Start, "none.service".to_string()),
        &mut c,
    );
    assert_eq!(r.status, 400);
}

#[test]
fn transaction_in_conflict_with_itself_fails_as_internal() {
    let mut um = UnitManagerX::new();
    let a = loaded(&mut um, "a.service");
    let b = loaded(&mut um, "b.service");
    um.insert_dep(a, UnitRelations::UnitRequires, b);
    um.insert_dep(a, UnitRelations::UnitConflicts, b);
    let mut c = CommandActionMgr::new(um, State::Ready);
    assert_eq!(c.start(&"a.service".to_string()), Err(ExecCmdErrno::Internal));
    assert!(c.unit_manager().get_jobs().is_empty());
    assert_eq!(c.unit_manager().registry().len(), 2);
}
