use sysmaster::error::UnitActionError;
use sysmaster::job_entry::{JobMode, JobResult};
use sysmaster::unit::{
    start_by_name, start_failure_mark, ConditionType, KillOp, StartCheck, Unit,
};
use sysmaster::unit_base::{KillContext, KillMode, KillOperation, Signal, WaitStatus};
use sysmaster::unit_child::{UnitChild, CHILD_BUFFER_MAX};
use sysmaster::unit_dep::{unit_relation_to_inverse, UnitDep};
use sysmaster::unit_dep_conf::UnitDepConf;
use sysmaster::unit_rel::{unit_relation_carries, UnitRelationAtom, UnitRelations};
use sysmaster::unit_sets::{UnitLoadState, UnitSets, UnitType, UnitX};
use sysmaster::unit_state::{
    UnitActiveState, UnitNotifyFlags, UnitState, UNIT_NOTIFY_RELOAD_FAILURE,
    UNIT_NOTIFY_WILL_AUTO_RESTART,
};
use sysmaster::uu_config::UeConfig;

fn create_unit(sets: &mut UnitSets, name: &str) -> usize {
    sets.insert(UnitX::new(name.to_string(), UnitType::UnitService))
}

#[test]
fn child_add_watch_pid() {
    let mut sets = UnitSets::new();
    let name_test1 = String::from("test1.service");
    create_unit(&mut sets, &name_test1);
    let name_test2 = String::from("test2.service");
    create_unit(&mut sets, &name_test2);
    let mut child = UnitChild::new();
    let pid1 = 1;
    let pid2 = 2;

    assert_eq!(child.len(), 0);

    child.add_watch_pid(&sets, &name_test1, pid1);
    assert_eq!(child.len(), 1);

    child.add_watch_pid(&sets, &name_test2, pid2);
    assert_eq!(child.len(), 2);
}

#[test]
fn child_unwatch_pid() {
    let mut sets = UnitSets::new();
    let name_test1 = String::from("test1.service");
    create_unit(&mut sets, &name_test1);
    let name_test2 = String::from("test2.service");
    create_unit(&mut sets, &name_test2);
    let mut child = UnitChild::new();
    let pid1 = 1;
    let pid2 = 2;

    assert_eq!(child.len(), 0);

    child.add_watch_pid(&sets, &name_test1, pid1);
    child.add_watch_pid(&sets, &name_test2, pid2);
    assert_eq!(child.len(), 2);

    child.unwatch_pid(&sets, &name_test1, pid1);
    assert_eq!(child.len(), 1);

    child.unwatch_pid(&sets, &name_test2, pid2);
    assert_eq!(child.len(), 0);
}

#[test]
fn every_child_pid_maps_back_to_its_unit() {
    let mut sets = UnitSets::new();
    let a = String::from("a.service");
    let b = String::from("b.service");
    let ia = create_unit(&mut sets, &a);
    let ib = create_unit(&mut sets, &b);
    let mut child = UnitChild::new();
    for pid in [10, 11, 12] {
        child.add_watch_pid(&sets, &a, pid);
    }
    child.add_watch_pid(&sets, &b, 20);
    // a process changes hands: it is no longer a child of the first unit
    child.add_watch_pid(&sets, &b, 11);
    assert_eq!(child.len(), 4);
    assert_eq!(child.child_pids(ia), vec![10, 12]);
    assert_eq!(child.child_pids(ib), vec![11, 20]);
    for unit in [ia, ib] {
        for pid in child.child_pids(unit) {
            assert_eq!(child.get_unit_by_pid(pid), Some(unit));
        }
    }
    child.unwatch_pid(&sets, &a, 20);
    assert_eq!(child.get_unit_by_pid(20), None);
    assert_eq!(child.child_pids(ib), vec![11]);
    assert!(child.db_map(&sets, &a, &vec![30, 31, 11]));
    assert_eq!(child.child_pids(ia), vec![10, 11, 12, 30, 31]);
    assert!(!child.db_map(&sets, &String::from("zz.service"), &vec![1]));
    child.entry_clear();
    assert_eq!(child.len(), 0);
}

#[test]
fn reaped_children_are_routed_to_their_unit_or_kept() {
    let mut sets = UnitSets::new();
    let a = String::from("a.service");
    let ia = create_unit(&mut sets, &a);
    let ib = create_unit(&mut sets, "b.service");
    let mut child = UnitChild::new();
    let status = WaitStatus::Exited { pid: 10, code: 0 };
    child.add_watch_pid(&sets, &a, 10);
    child.add_watch_pid(&sets, &a, 11);
    child.add_watch_pid(&sets, &String::from("b.service"), 20);
    assert_eq!(child.reap(10, status), Some(ia));
    assert_eq!(child.get_unit_by_pid(10), None);
    assert_eq!(child.len(), 2);
    // an unknown process: its end is kept until a unit claims it
    let early = WaitStatus::Exited { pid: 99, code: 3 };
    assert_eq!(child.reap(99, early), None);
    assert_eq!(child.len(), 2);
    assert_eq!(child.take_buffered(98), None);
    child.add_watch_pid(&sets, &a, 99);
    assert_eq!(child.take_buffered(99), Some(early));
    assert_eq!(child.take_buffered(99), None);
    // the buffer is bounded: the oldest end makes room
    for pid in 1000..1000 + CHILD_BUFFER_MAX as i32 + 1 {
        assert_eq!(child.reap(pid, WaitStatus::Exited { pid, code: 0 }), None);
    }
    assert_eq!(child.take_buffered(1000), None);
    assert!(child.take_buffered(1001).is_some());
    // teardown of a unit
    child.remove_unit(ia);
    assert_eq!(child.child_pids(ia), Vec::<i32>::new());
    assert_eq!(child.child_pids(ib), vec![20]);
    assert_eq!(child.get_unit_by_pid(11), None);
}

#[test]
fn registry_finds_units_by_name() {
    let mut sets = UnitSets::new();
    assert_eq!(sets.len(), 0);
    let a = create_unit(&mut sets, "a.service");
    let b = create_unit(&mut sets, "b.service");
    assert_eq!((a, b), (0, 1));
    assert_eq!(create_unit(&mut sets, "a.service"), 0);
    assert_eq!(sets.len(), 2);
    assert_eq!(sets.get(&"b.service".to_string()), Some(1));
    assert_eq!(sets.get(&"c.service".to_string()), None);
    assert_eq!(sets.get_all(), vec![0, 1]);
    assert!(!sets.unit(0).is_load_complete());
    assert_eq!(sets.unit(0).try_load(), Err(UnitActionError::UnitActionEInval));
    sets.set_load_state(0, UnitLoadState::UnitLoaded);
    assert!(sets.unit(0).is_load_complete());
    assert_eq!(sets.unit(0).try_load(), Ok(()));
    sets.set_load_state(1, UnitLoadState::UnitError);
    assert_eq!(sets.unit(1).try_load(), Err(UnitActionError::UnitActionEBadR));
    sets.set_load_state(1, UnitLoadState::UnitNotFound);
    assert_eq!(sets.unit(1).try_load(), Err(UnitActionError::UnitActionENoent));
    sets.set_load_state(1, UnitLoadState::UnitMasked);
    assert_eq!(sets.unit(1).try_load(), Err(UnitActionError::UnitActionEInval));
    sets.set_active_state(0, UnitActiveState::UnitReloading);
    assert!(sets.unit(0).is_active_or_reloading());
    sets.set_ignore_on_isolate(0, true);
    assert!(sets.unit(0).ignore_on_isolate);
    sets.clear();
    assert_eq!(sets.len(), 0);
}

#[test]
fn dependency_store_answers_by_atom_in_insertion_order() {
    let mut dep = UnitDep::new();
    dep.insert(0, UnitRelations::UnitRequires, 2);
    dep.insert(0, UnitRelations::UnitWants, 3);
    dep.insert(0, UnitRelations::UnitPullInStart, 1);
    dep.insert(1, UnitRelations::UnitRequires, 0);
    dep.insert(4, UnitRelations::UnitTriggers, 0);
    assert_eq!(dep.gets_atom(0, UnitRelationAtom::UnitAtomPullInStart), vec![2, 1]);
    assert_eq!(dep.gets_atom(0, UnitRelationAtom::UnitAtomPullInStartIgnored), vec![3]);
    assert_eq!(dep.gets_atom(0, UnitRelationAtom::UnitAtomTriggeredBy), vec![4]);
    assert_eq!(dep.gets_atom(4, UnitRelationAtom::UnitAtomTriggers), vec![0]);
    assert_eq!(dep.gets_atom(9, UnitRelationAtom::UnitAtomPullInStart), Vec::<usize>::new());
    assert_eq!(
        unit_relation_to_inverse(UnitRelations::UnitBefore),
        Some(UnitRelations::UnitAfter)
    );
    assert_eq!(unit_relation_to_inverse(UnitRelations::UnitRequires), None);
    assert!(unit_relation_carries(
        UnitRelations::UnitConflicts,
        UnitRelationAtom::UnitAtomPullInStop
    ));
    assert!(!unit_relation_carries(
        UnitRelations::UnitWants,
        UnitRelationAtom::UnitAtomPullInStart
    ));
    dep.clear();
    assert_eq!(dep.gets_atom(0, UnitRelationAtom::UnitAtomPullInStart), Vec::<usize>::new());
}

fn unit_init() -> Unit {
    Unit::new(UnitType::UnitService, "config.service".to_string())
}

#[test]
fn test_unit_load() {
    let mut unit = unit_init();
    let load_stat = unit.load_unit(Some(UeConfig::default()), Ok(()));
    assert!(load_stat.is_ok());
    assert_eq!(unit.load_state(), UnitLoadState::UnitLoaded);
    assert!(!unit.in_load_queue());
}

#[test]
fn load_unit_records_what_went_wrong() {
    let mut unit = unit_init();
    unit.set_in_load_queue(true);
    assert_eq!(unit.load_unit(None, Ok(())), Err(UnitActionError::UnitActionENoent));
    assert_eq!(unit.load_state(), UnitLoadState::UnitNotFound);
    assert!(!unit.in_load_queue());

    let mut unit = unit_init();
    assert_eq!(
        unit.load_unit(Some(UeConfig::default()), Err(UnitActionError::UnitActionEBadR)),
        Err(UnitActionError::UnitActionEBadR)
    );
    assert_eq!(unit.load_state(), UnitLoadState::UnitStub);

    let mut mount = Unit::new(UnitType::UnitMount, "x.mount".to_string());
    assert_eq!(mount.load_unit(None, Err(UnitActionError::UnitActionEBadR)), Ok(()));
    assert_eq!(mount.load_state(), UnitLoadState::UnitLoaded);
}

#[test]
fn start_preflight_follows_the_state_table() {
    let mut unit = unit_init();
    unit.set_load_state(UnitLoadState::UnitLoaded);
    assert_eq!(unit.start(UnitActiveState::UnitActive, true, true), Err(UnitActionError::UnitActionEAlready));
    assert_eq!(unit.start(UnitActiveState::UnitReloading, true, true), Err(UnitActionError::UnitActionEAlready));
    assert_eq!(unit.start(UnitActiveState::UnitActivating, false, false), Err(UnitActionError::UnitActionEAlready));
    assert_eq!(unit.start(UnitActiveState::UnitMaintenance, true, true), Err(UnitActionError::UnitActionEAgain));
    assert_eq!(unit.start(UnitActiveState::UnitFailed, true, true), Ok(()));
    assert_eq!(unit.start(UnitActiveState::UnitInActive, true, true), Ok(()));
    assert_eq!(unit.start(UnitActiveState::UnitInActive, false, true), Err(UnitActionError::UnitActionEInval));
    assert_eq!(unit.start(UnitActiveState::UnitInActive, true, false), Err(UnitActionError::UnitActionEInval));
    assert_eq!(unit.start_precheck(UnitActiveState::UnitInActive, false, false), StartCheck::ConditionFailed);
    assert_eq!(unit.start_precheck(UnitActiveState::UnitInActive, true, false), StartCheck::AssertFailed);
    assert_eq!(unit.start_precheck(UnitActiveState::UnitActivating, true, true), StartCheck::Already);
    unit.set_load_state(UnitLoadState::UnitStub);
    assert_eq!(unit.start(UnitActiveState::UnitInActive, true, true), Err(UnitActionError::UnitActionEInval));
    assert_eq!(unit.start_precheck(UnitActiveState::UnitInActive, true, true), StartCheck::NotLoaded);
}

#[test]
fn stop_answers_already_unless_forced() {
    let unit = unit_init();
    assert_eq!(unit.stop(UnitActiveState::UnitInActive, false), Err(UnitActionError::UnitActionEAlready));
    assert_eq!(unit.stop(UnitActiveState::UnitFailed, false), Err(UnitActionError::UnitActionEAlready));
    assert_eq!(unit.stop(UnitActiveState::UnitInActive, true), Ok(()));
    assert_eq!(unit.stop(UnitActiveState::UnitActive, false), Ok(()));
    assert_eq!(unit.stop(UnitActiveState::UnitActivating, false), Ok(()));
}

#[test]
fn kill_context_sends_the_signal_and_a_cont_after_it() {
    let mut unit = unit_init();
    assert_eq!(
        unit.kill_context(Some(5), Some(6), KillOperation::KillTerminate),
        vec![
            KillOp::Process { pid: 5, signal: Signal::SIGTERM, then_cont: true },
            KillOp::Process { pid: 6, signal: Signal::SIGTERM, then_cont: true },
        ]
    );
    assert_eq!(
        unit.kill_context(None, Some(6), KillOperation::KillKill),
        vec![KillOp::Process { pid: 6, signal: Signal::SIGKILL, then_cont: false }]
    );
    unit.prepare_exec();
    assert_eq!(unit.cg_path(), "config.service");
    assert_eq!(
        unit.kill_context(Some(5), None, KillOperation::KillWatchdog),
        vec![
            KillOp::Process { pid: 5, signal: Signal::SIGABRT, then_cont: true },
            KillOp::ControlGroup {
                signal: Signal::SIGABRT,
                then_cont: true,
                main_pid: Some(5),
                control_pid: None
            },
        ]
    );
    assert_eq!(unit.pids_set(Some(1), Some(2)), vec![1, 2]);
    assert_eq!(unit.pids_set(Some(1), Some(1)), vec![1]);
    assert_eq!(unit.pids_set(None, None), Vec::<i32>::new());
}

#[test]
fn conditions_are_built_once_from_what_the_description_names() {
    let mut unit = unit_init();
    let mut config = UeConfig::default();
    config.Unit.ConditionPathExists = "/etc/app".to_string();
    config.Unit.ConditionFileNotEmpty = "/etc/app.conf".to_string();
    config.Unit.AssertPathExists = "/usr/bin/app".to_string();
    unit.load_unit(Some(config), Ok(())).unwrap();
    let conditions = unit.conditions();
    let kinds: Vec<(ConditionType, String)> =
        conditions.conditions.iter().map(|c| (c.kind, c.params.clone())).collect();
    assert_eq!(
        kinds,
        vec![
            (ConditionType::FileNotEmpty, "/etc/app.conf".to_string()),
            (ConditionType::PathExists, "/etc/app".to_string()),
        ]
    );
    assert_eq!(conditions.asserts.len(), 1);
    assert!(conditions.init_flag());
    assert!(conditions.conditions_test(&vec![true, true]));
    assert!(!conditions.conditions_test(&vec![true, false]));
    assert!(conditions.asserts_test(&vec![true]));
    assert_eq!(unit.conditions().conditions.len(), 2);
}

#[test]
fn unit_settings_and_children() {
    let mut unit = unit_init();
    assert_eq!(unit.id(), "config.service");
    assert_eq!(unit.unit_type(), UnitType::UnitService);
    assert!(unit.default_dependencies());
    assert!(!unit.ignore_on_isolate());
    unit.set_ignore_on_isolate(true);
    assert!(unit.ignore_on_isolate());
    unit.set_in_target_dep_queue(true);
    assert!(unit.in_target_dep_queue());
    unit.child_add_pids(4);
    unit.child_add_pids(5);
    unit.child_add_pids(4);
    assert_eq!(unit.child_pids(), &vec![4, 5]);
    unit.child_remove_pids(4);
    unit.child_remove_pids(9);
    assert_eq!(unit.child_pids(), &vec![5]);
    assert_eq!(
        unit.notify(
            UnitActiveState::UnitInActive,
            UnitActiveState::UnitActive,
            UnitNotifyFlags::empty()
        ),
        UnitState::new(
            UnitActiveState::UnitInActive,
            UnitActiveState::UnitActive,
            UnitNotifyFlags::empty()
        )
    );
    assert_eq!(unit.get_config().Unit.OnFailureJobMode, JobMode::JobReplace);
}

#[test]
fn dependency_records_name_one_unit_under_each_relation() {
    let unit = unit_init();
    let two = unit.insert_two_deps(
        UnitRelations::UnitBefore,
        UnitRelations::UnitTriggers,
        "app.service".to_string(),
    );
    assert_eq!(two.deps.len(), 2);
    assert_eq!(two.deps[0].relation, UnitRelations::UnitBefore);
    assert_eq!(two.deps[1].relation, UnitRelations::UnitTriggers);
    assert_eq!(two.deps[1].names, vec!["app.service".to_string()]);
    let same = unit.insert_two_deps(
        UnitRelations::UnitWants,
        UnitRelations::UnitWants,
        "x.service".to_string(),
    );
    assert_eq!(same.deps.len(), 1);
    let one = unit.insert_dep(UnitRelations::UnitRequires, "y.service".to_string());
    assert_eq!(one.deps.len(), 1);
    assert_eq!(one.deps[0].names, vec!["y.service".to_string()]);
    let mut conf = UnitDepConf::new();
    conf.insert(UnitRelations::UnitWants, vec!["a".to_string()]);
    conf.insert(UnitRelations::UnitWants, vec!["b".to_string()]);
    assert_eq!(conf.deps.len(), 1);
    assert_eq!(conf.deps[0].names, vec!["b".to_string()]);
}

#[test]
fn notify_flags_behave_as_a_set_of_bits() {
    let reload = UnitNotifyFlags::from_bits(UNIT_NOTIFY_RELOAD_FAILURE).unwrap();
    let restart = UnitNotifyFlags::from_bits(UNIT_NOTIFY_WILL_AUTO_RESTART).unwrap();
    assert_eq!(reload.bits(), 1);
    assert_eq!(restart.bits(), 2);
    assert_eq!(UnitNotifyFlags::from_bits(4), None);
    assert_eq!(UnitNotifyFlags::from_bits_truncate(7), UnitNotifyFlags::all());
    assert!(UnitNotifyFlags::empty().is_empty());
    let both = reload.union(restart);
    assert_eq!(both, UnitNotifyFlags::all());
    assert!(both.contains(reload));
    assert!(!reload.contains(restart));
    let mut flags = UnitNotifyFlags::empty();
    flags.insert(restart);
    assert!(flags.contains(restart));
    flags.remove(restart);
    assert!(flags.is_empty());
}

#[test]
fn kill_context_defaults_to_the_control_group() {
    let mut ctx = KillContext::new();
    assert_eq!(ctx.kill_mode(), KillMode::ControlGroup);
    ctx.set_kill_mode(KillMode::Process);
    assert_eq!(ctx.kill_mode(), KillMode::Process);
    assert_eq!(ctx.kill_signal, Signal::SIGTERM);
}

#[test]
fn dropins_are_appended_to_wants_requires_and_after() {
    let mut fragment = UeConfig::default();
    fragment.Unit.Wants = vec!["w0.service".to_string()];
    fragment.Unit.After = vec!["a0.service".to_string()];
    fragment.Unit.Description = "app".to_string();
    let merged = UeConfig::default().load_fragment_and_dropin(
        fragment,
        &vec!["w1.service".to_string(), "w2.service".to_string()],
        &vec!["r1.service".to_string()],
    );
    assert_eq!(merged.Unit.Wants, vec!["w0.service", "w1.service", "w2.service"]);
    assert_eq!(merged.Unit.Requires, vec!["r1.service"]);
    assert_eq!(merged.Unit.After, vec!["a0.service", "w1.service", "w2.service", "r1.service"]);
    assert!(merged.Unit.Before.is_empty());
    assert_eq!(merged.Unit.Description, "app");
}

#[test]
fn start_by_name_answers_for_unknown_and_known_units() {
    let mut sets = UnitSets::new();
    let a = create_unit(&mut sets, "a.service");
    let name = "a.service".to_string();
    assert_eq!(
        start_by_name(&sets, &"zz.service".to_string(), true, true),
        Err(UnitActionError::UnitActionENoent)
    );
    assert_eq!(start_by_name(&sets, &name, true, true), Err(UnitActionError::UnitActionEInval));
    sets.set_load_state(a, UnitLoadState::UnitLoaded);
    assert_eq!(start_by_name(&sets, &name, true, true), Ok(a));
    assert_eq!(start_by_name(&sets, &name, false, true), Err(UnitActionError::UnitActionEInval));
    sets.set_active_state(a, UnitActiveState::UnitActive);
    assert_eq!(start_by_name(&sets, &name, true, true), Err(UnitActionError::UnitActionEAlready));
    sets.set_active_state(a, UnitActiveState::UnitMaintenance);
    assert_eq!(start_by_name(&sets, &name, true, true), Err(UnitActionError::UnitActionEAgain));
    sets.set_active_state(a, UnitActiveState::UnitFailed);
    assert_eq!(start_by_name(&sets, &name, true, true), Ok(a));
}

#[test]
fn failed_condition_skips_and_failed_assert_fails() {
    assert_eq!(
        start_failure_mark(StartCheck::ConditionFailed),
        Some((UnitActiveState::UnitInActive, JobResult::JobSkipped))
    );
    assert_eq!(
        start_failure_mark(StartCheck::AssertFailed),
        Some((UnitActiveState::UnitFailed, JobResult::JobAssert))
    );
    assert_eq!(start_failure_mark(StartCheck::NotLoaded), None);
    assert_eq!(start_failure_mark(StartCheck::Proceed), None);
}

#[test]
fn group_signal_spares_the_manager_and_the_named() {
    let listed = vec![10, 11, 12, 13, 11, 14];
    assert_eq!(
        sysmaster::unit::kill_group_targets(&listed, 10, Some(11), Some(13)),
        vec![12, 14]
    );
    assert_eq!(
        sysmaster::unit::kill_group_targets(&listed, 1, None, None),
        vec![10, 11, 12, 13, 11, 14]
    );
    assert_eq!(sysmaster::unit::kill_group_targets(&listed, 14, Some(12), None), vec![10, 11, 13, 11]);
    assert_eq!(sysmaster::unit::kill_group_targets(&Vec::new(), 1, Some(2), Some(3)), Vec::<i32>::new());
}

fn in_step(child: &UnitChild, place: usize, unit: &sysmaster::unit::Unit) {
    let mut watched = child.child_pids(place);
    let mut listed = unit.child_pids().clone();
    watched.sort();
    listed.sort();
    assert_eq!(watched, listed);
}

#[test]
fn watch_list_and_the_units_own_list_move_together() {
    let mut sets = UnitSets::new();
    let ia = create_unit(&mut sets, "a.service");
    let ib = create_unit(&mut sets, "b.service");
    let mut a = sysmaster::unit::Unit::new(UnitType::UnitService, "a.service".to_string());
    let mut b = sysmaster::unit::Unit::new(UnitType::UnitService, "b.service".to_string());
    let mut child = UnitChild::new();
    child.watch_child(&sets, &mut a, 10);
    child.watch_child(&sets, &mut a, 11);
    child.watch_child(&sets, &mut a, 10);
    child.watch_child(&sets, &mut b, 20);
    assert_eq!(a.child_pids(), &vec![10, 11]);
    assert_eq!(b.child_pids(), &vec![20]);
    assert_eq!(child.get_unit_by_pid(10), Some(ia));
    assert_eq!(child.get_unit_by_pid(20), Some(ib));
    in_step(&child, ia, &a);
    in_step(&child, ib, &b);
    child.unwatch_child(&sets, &mut a, 10);
    assert_eq!(a.child_pids(), &vec![11]);
    assert_eq!(child.get_unit_by_pid(10), None);
    in_step(&child, ia, &a);
    in_step(&child, ib, &b);
    child.unwatch_child(&sets, &mut a, 99);
    child.unwatch_child(&sets, &mut b, 20);
    assert_eq!(child.len(), 1);
    assert!(b.child_pids().is_empty());
    in_step(&child, ia, &a);
    in_step(&child, ib, &b);
}
