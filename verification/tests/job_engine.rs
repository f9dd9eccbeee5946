use sysmaster::error::JobErrno;
use sysmaster::job_entry::{
    job_is_conflicting, job_merge_kinds, job_next_phase, job_run_kind, JobAlloc, JobConf, JobKind,
    JobMode, JobResult, JobStage,
};
use sysmaster::job_manager::JobManager;
use sysmaster::job_table::JobTable;
use sysmaster::job_transaction::{
    job_trans_affect, job_trans_expand, job_trans_fallback, job_trans_verify,
    trans_expand_check_input, trans_is_expand,
};
use sysmaster::unit_dep::UnitDep;
use sysmaster::unit_rel::UnitRelations;
use sysmaster::unit_sets::{UnitLoadState, UnitSets, UnitType, UnitX};
use sysmaster::unit_state::UnitActiveState;

fn registry(names: &[&str]) -> UnitSets {
    let mut units = UnitSets::new();
    for name in names {
        let kind = if name.ends_with(".socket") {
            UnitType::UnitSocket
        } else if name.ends_with(".target") {
            UnitType::UnitTarget
        } else {
            UnitType::UnitService
        };
        let at = units.insert(UnitX::new(name.to_string(), kind));
        units.set_load_state(at, UnitLoadState::UnitLoaded);
    }
    units
}

fn kinds_of(table: &JobTable) -> Vec<(usize, JobKind)> {
    table.jobs().iter().map(|j| (j.unit, j.kind)).collect()
}

#[test]
fn merge_matrix_follows_the_documented_rules() {
    assert_eq!(job_merge_kinds(JobKind::JobStart, JobKind::JobStart), Some(JobKind::JobStart));
    assert_eq!(
        job_merge_kinds(JobKind::JobReload, JobKind::JobStart),
        Some(JobKind::JobRestartOrReload)
    );
    assert_eq!(job_merge_kinds(JobKind::JobStart, JobKind::JobRestart), Some(JobKind::JobRestart));
    assert_eq!(job_merge_kinds(JobKind::JobStop, JobKind::JobStop), Some(JobKind::JobStop));
    assert_eq!(job_merge_kinds(JobKind::JobStop, JobKind::JobNop), Some(JobKind::JobStop));
    assert_eq!(job_merge_kinds(JobKind::JobStop, JobKind::JobStart), None);
    assert_eq!(job_merge_kinds(JobKind::JobStop, JobKind::JobRestart), None);
    assert_eq!(job_merge_kinds(JobKind::JobVerify, JobKind::JobReload), Some(JobKind::JobReload));
    assert_eq!(
        job_merge_kinds(JobKind::JobTryRestart, JobKind::JobStart),
        Some(JobKind::JobRestart)
    );
}

#[test]
fn conflict_is_symmetric_on_every_pair() {
    let all = [
        JobKind::JobStart,
        JobKind::JobStop,
        JobKind::JobReload,
        JobKind::JobRestart,
        JobKind::JobVerify,
        JobKind::JobNop,
        JobKind::JobTryReload,
        JobKind::JobTryRestart,
        JobKind::JobRestartOrReload,
    ];
    for a in all {
        for b in all {
            assert_eq!(job_is_conflicting(a, b), job_is_conflicting(b, a));
            assert_eq!(job_merge_kinds(a, b), job_merge_kinds(b, a));
        }
        assert!(!job_is_conflicting(a, a));
    }
    assert!(job_is_conflicting(JobKind::JobStart, JobKind::JobStop));
}

#[test]
fn run_kind_of_each_kind() {
    assert_eq!(job_run_kind(JobKind::JobRestart, true, true), JobKind::JobStop);
    assert_eq!(job_run_kind(JobKind::JobTryRestart, false, true), JobKind::JobNop);
    assert_eq!(job_run_kind(JobKind::JobTryRestart, true, true), JobKind::JobStop);
    assert_eq!(job_run_kind(JobKind::JobTryReload, true, true), JobKind::JobReload);
    assert_eq!(job_run_kind(JobKind::JobTryReload, false, true), JobKind::JobNop);
    assert_eq!(job_run_kind(JobKind::JobRestartOrReload, true, false), JobKind::JobStop);
    assert_eq!(job_run_kind(JobKind::JobRestartOrReload, true, true), JobKind::JobReload);
    assert_eq!(job_run_kind(JobKind::JobRestartOrReload, false, true), JobKind::JobStart);
    assert_eq!(job_run_kind(JobKind::JobStart, false, false), JobKind::JobStart);
    assert_eq!(job_next_phase(JobKind::JobRestart, JobKind::JobStop), Some(JobKind::JobStart));
    assert_eq!(job_next_phase(JobKind::JobStop, JobKind::JobStop), None);
}

#[test]
fn check_input_rejects_what_cannot_be_served() {
    let mut units = registry(&["a.service"]);
    let stub = units.insert(UnitX::new("stub.service".to_string(), UnitType::UnitService));
    let bad = units.insert(UnitX::new("bad.service".to_string(), UnitType::UnitService));
    units.set_load_state(bad, UnitLoadState::UnitError);
    let gone = units.insert(UnitX::new("gone.service".to_string(), UnitType::UnitService));
    units.set_load_state(gone, UnitLoadState::UnitNotFound);

    assert_eq!(trans_expand_check_input(&units, &JobConf::new(0, JobKind::JobStart)), Ok(()));
    assert_eq!(
        trans_expand_check_input(&units, &JobConf::new(stub, JobKind::JobStart)),
        Err(JobErrno::JobErrInput)
    );
    assert_eq!(
        trans_expand_check_input(&units, &JobConf::new(bad, JobKind::JobStart)),
        Err(JobErrno::JobErrBadRequest)
    );
    assert_eq!(
        trans_expand_check_input(&units, &JobConf::new(gone, JobKind::JobStart)),
        Err(JobErrno::JobErrInput)
    );
    assert_eq!(trans_expand_check_input(&units, &JobConf::new(bad, JobKind::JobStop)), Ok(()));
    assert_eq!(
        trans_expand_check_input(&units, &JobConf::new(99, JobKind::JobStop)),
        Err(JobErrno::JobErrInput)
    );
}

#[test]
fn is_expand_needs_a_new_job_that_is_not_nop() {
    let start = JobConf::new(0, JobKind::JobStart);
    assert!(trans_is_expand(&start, true, JobMode::JobReplace));
    assert!(!trans_is_expand(&start, false, JobMode::JobReplace));
    assert!(!trans_is_expand(&start, true, JobMode::JobIgnoreDependencies));
    assert!(!trans_is_expand(&start, true, JobMode::JobIgnoreRequirements));
    assert!(!trans_is_expand(&JobConf::new(0, JobKind::JobNop), true, JobMode::JobReplace));
}

#[test]
fn expand_start_follows_requires_in_order_and_tolerates_cycles() {
    let units = registry(&["a.service", "b.service", "c.service"]);
    let mut dep = UnitDep::new();
    dep.insert(0, UnitRelations::UnitRequires, 1);
    dep.insert(1, UnitRelations::UnitWants, 2);
    dep.insert(2, UnitRelations::UnitRequires, 0);
    let mut stage = JobTable::new();
    let mut ja = JobAlloc::new();
    let r = job_trans_expand(
        &mut stage,
        &mut ja,
        &units,
        &dep,
        &JobConf::new(0, JobKind::JobStart),
        JobMode::JobReplace,
    );
    assert_eq!(r, Ok(()));
    assert_eq!(
        kinds_of(&stage),
        vec![(0, JobKind::JobStart), (1, JobKind::JobStart), (2, JobKind::JobStart)]
    );
    let ids: Vec<u64> = stage.jobs().iter().map(|j| j.id).collect();
    assert_eq!(ids, vec![1, 2, 3]);
    assert_eq!(ja.peek(), 4);
}

#[test]
fn expand_propagates_input_errors_but_not_over_ignored_edges() {
    let mut units = registry(&["a.service", "b.service"]);
    let missing = units.insert(UnitX::new("m.service".to_string(), UnitType::UnitService));
    units.set_load_state(missing, UnitLoadState::UnitNotFound);
    let broken = units.insert(UnitX::new("x.service".to_string(), UnitType::UnitService));
    units.set_load_state(broken, UnitLoadState::UnitError);

    let mut dep = UnitDep::new();
    dep.insert(0, UnitRelations::UnitRequires, missing);
    let mut stage = JobTable::new();
    let mut ja = JobAlloc::new();
    let conf = JobConf::new(0, JobKind::JobStart);
    assert_eq!(
        job_trans_expand(&mut stage, &mut ja, &units, &dep, &conf, JobMode::JobReplace),
        Err(JobErrno::JobErrInput)
    );

    let mut dep = UnitDep::new();
    dep.insert(0, UnitRelations::UnitWants, missing);
    dep.insert(0, UnitRelations::UnitRequires, broken);
    dep.insert(0, UnitRelations::UnitRequires, 1);
    let mut stage = JobTable::new();
    assert_eq!(
        job_trans_expand(&mut stage, &mut ja, &units, &dep, &conf, JobMode::JobReplace),
        Ok(())
    );
    assert_eq!(kinds_of(&stage), vec![(0, JobKind::JobStart), (1, JobKind::JobStart)]);
}

#[test]
fn scenario_conflicting_transaction_leaves_run_table_unchanged() {
    let units = registry(&["a.service"]);
    let dep = UnitDep::new();
    let mut jm = JobManager::new();
    let first = jm.exec(&units, &dep, &JobConf::new(0, JobKind::JobStart), JobMode::JobReplace);
    assert!(first.is_ok());
    let before = jm.get_jobs();
    assert_eq!(before.len(), 1);
    assert_eq!(before[0].kind, JobKind::JobStart);

    let second = jm.exec(&units, &dep, &JobConf::new(0, JobKind::JobStop), JobMode::JobFail);
    assert_eq!(second.err(), Some(JobErrno::JobErrConflict));
    assert_eq!(jm.get_jobs(), before);
}

#[test]
fn replace_mode_pushes_a_conflicting_job_aside() {
    let units = registry(&["a.service"]);
    let dep = UnitDep::new();
    let mut jm = JobManager::new();
    jm.exec(&units, &dep, &JobConf::new(0, JobKind::JobStart), JobMode::JobReplace).unwrap();
    let cancelled =
        jm.exec(&units, &dep, &JobConf::new(0, JobKind::JobStop), JobMode::JobReplace).unwrap();
    assert_eq!(cancelled.len(), 1);
    assert_eq!(cancelled[0].kind, JobKind::JobStart);
    assert_eq!(cancelled[0].result, Some(JobResult::JobCancelled));
    let jobs = jm.get_jobs();
    assert_eq!(jobs.len(), 1);
    assert_eq!(jobs[0].kind, JobKind::JobStop);
}

#[test]
fn irreversible_job_cannot_be_replaced() {
    let units = registry(&["a.service"]);
    let dep = UnitDep::new();
    let mut jm = JobManager::new();
    jm.exec(&units, &dep, &JobConf::new(0, JobKind::JobStart), JobMode::JobReplaceIrreversible)
        .unwrap();
    let r = jm.exec(&units, &dep, &JobConf::new(0, JobKind::JobStop), JobMode::JobReplace);
    assert_eq!(r.err(), Some(JobErrno::JobErrConflict));
    assert_eq!(jm.get_jobs().len(), 1);
    assert_eq!(jm.get_jobs()[0].kind, JobKind::JobStart);
}

#[test]
fn scenario_isolate_stops_all_but_the_ignored() {
    let mut units = registry(&["a.service", "b.service", "c.service", "d.target"]);
    for u in 0..3 {
        units.set_active_state(u, UnitActiveState::UnitActive);
    }
    units.set_ignore_on_isolate(1, true);
    let dep = UnitDep::new();

    let mut stage = JobTable::new();
    let mut ja = JobAlloc::new();
    let conf = JobConf::new(3, JobKind::JobStart);
    assert_eq!(
        job_trans_expand(&mut stage, &mut ja, &units, &dep, &conf, JobMode::JobIsolate),
        Ok(())
    );
    assert_eq!(
        job_trans_affect(&mut stage, &mut ja, &units, &dep, &conf, JobMode::JobIsolate),
        Ok(())
    );
    assert_eq!(
        kinds_of(&stage),
        vec![(3, JobKind::JobStart), (0, JobKind::JobStop), (2, JobKind::JobStop)]
    );

    let mut jm = JobManager::new();
    jm.exec(&units, &dep, &conf, JobMode::JobIsolate).unwrap();
    let committed: Vec<(usize, JobKind)> =
        jm.get_jobs().iter().map(|j| (j.unit, j.kind)).collect();
    assert_eq!(
        committed,
        vec![(3, JobKind::JobStart), (0, JobKind::JobStop), (2, JobKind::JobStop)]
    );
    assert!(jm.get_unit_job(1).is_none());
}

#[test]
fn scenario_restart_propagates_as_try_restart() {
    let mut units = registry(&["x.service", "y.service"]);
    units.set_active_state(0, UnitActiveState::UnitActive);
    let mut dep = UnitDep::new();
    dep.insert(0, UnitRelations::UnitPropagateRestart, 1);
    let mut jm = JobManager::new();
    jm.exec(&units, &dep, &JobConf::new(0, JobKind::JobRestart), JobMode::JobReplace).unwrap();
    let jobs = jm.get_jobs();
    assert_eq!(jobs.len(), 2);
    assert_eq!((jobs[0].unit, jobs[0].kind), (0, JobKind::JobRestart));
    assert_eq!(jobs[0].run_kind, JobKind::JobStop);
    assert_eq!(job_next_phase(jobs[0].kind, jobs[0].run_kind), Some(JobKind::JobStart));
    assert_eq!((jobs[1].unit, jobs[1].kind), (1, JobKind::JobTryRestart));
    assert_eq!(jobs[1].run_kind, JobKind::JobNop);

    // the stop phase of the restart ends well: the start phase waits
    let gone = jm.finish_unit_job(&dep, 0, JobResult::JobDone);
    assert!(gone.is_empty());
    let job = jm.get_unit_job(0).unwrap();
    assert_eq!(job.run_kind, JobKind::JobStart);
    assert_eq!(job.stage, JobStage::JobWait);
    let gone = jm.finish_unit_job(&dep, 0, JobResult::JobDone);
    assert_eq!(gone.len(), 1);
    assert!(jm.get_unit_job(0).is_none());
}

#[test]
fn trigger_mode_stops_the_triggering_units() {
    let units = registry(&["app.service", "app.socket"]);
    let mut dep = UnitDep::new();
    dep.insert(1, UnitRelations::UnitTriggers, 0);
    let mut jm = JobManager::new();
    jm.exec(&units, &dep, &JobConf::new(0, JobKind::JobStop), JobMode::JobTrigger).unwrap();
    let committed: Vec<(usize, JobKind)> =
        jm.get_jobs().iter().map(|j| (j.unit, j.kind)).collect();
    assert_eq!(committed, vec![(0, JobKind::JobStop), (1, JobKind::JobStop)]);
    assert!(jm.has_stop_job(1));

    let r = jm.exec(&units, &dep, &JobConf::new(0, JobKind::JobStart), JobMode::JobTrigger);
    assert_eq!(r.err(), Some(JobErrno::JobErrInput));
}

#[test]
fn commit_merges_with_a_job_that_is_there() {
    let units = registry(&["a.service"]);
    let dep = UnitDep::new();
    let mut jm = JobManager::new();
    jm.exec(&units, &dep, &JobConf::new(0, JobKind::JobStart), JobMode::JobReplace).unwrap();
    let cancelled =
        jm.exec(&units, &dep, &JobConf::new(0, JobKind::JobReload), JobMode::JobFail).unwrap();
    assert!(cancelled.is_empty());
    let jobs = jm.get_jobs();
    assert_eq!(jobs.len(), 1);
    assert_eq!(jobs[0].kind, JobKind::JobRestartOrReload);
    assert_eq!(jobs[0].id, 1);
}

#[test]
fn fallback_gives_up_dependent_starts() {
    let units = registry(&["a.service", "b.service", "c.service"]);
    let mut dep = UnitDep::new();
    dep.insert(0, UnitRelations::UnitPropagateStartFailure, 1);
    let mut jm = JobManager::new();
    jm.exec(&units, &dep, &JobConf::new(0, JobKind::JobStart), JobMode::JobReplace).unwrap();
    jm.exec(&units, &dep, &JobConf::new(1, JobKind::JobStart), JobMode::JobReplace).unwrap();
    jm.exec(&units, &dep, &JobConf::new(2, JobKind::JobStart), JobMode::JobReplace).unwrap();
    let gone = jm.finish_unit_job(&dep, 0, JobResult::JobFailed);
    assert_eq!(gone.len(), 2);
    assert_eq!((gone[0].unit, gone[0].result), (0, Some(JobResult::JobFailed)));
    assert_eq!((gone[1].unit, gone[1].result), (1, Some(JobResult::JobDependency)));
    let left: Vec<usize> = jm.get_jobs().iter().map(|j| j.unit).collect();
    assert_eq!(left, vec![2]);
}

#[test]
fn fallback_of_a_stop_follows_the_stop_failure_relation() {
    let mut dep = UnitDep::new();
    dep.insert(0, UnitRelations::UnitPropagateStopFailure, 1);
    dep.insert(0, UnitRelations::UnitPropagateStartFailure, 2);
    let mut jobs = JobTable::new();
    let mut ja = JobAlloc::new();
    jobs.record_suspend(&mut ja, JobConf::new(1, JobKind::JobVerify), JobMode::JobReplace);
    jobs.record_suspend(&mut ja, JobConf::new(2, JobKind::JobStart), JobMode::JobReplace);
    let gone = job_trans_fallback(&mut jobs, &dep, 0, JobKind::JobStop);
    assert_eq!(gone.len(), 1);
    assert_eq!(gone[0].unit, 1);
    assert_eq!(kinds_of(&jobs), vec![(2, JobKind::JobStart)]);
    let none = job_trans_fallback(&mut jobs, &dep, 0, JobKind::JobReload);
    assert!(none.is_empty());
}

#[test]
fn verify_reports_a_conflict_inside_the_suspend_table() {
    let mut stage = JobTable::new();
    let mut ja = JobAlloc::new();
    stage.record_suspend(&mut ja, JobConf::new(0, JobKind::JobStart), JobMode::JobReplace);
    assert!(!stage.record_suspend(&mut ja, JobConf::new(0, JobKind::JobStart), JobMode::JobReplace));
    assert_eq!(job_trans_verify(&stage, &JobTable::new(), JobMode::JobReplace), Ok(()));
    stage.record_suspend(&mut ja, JobConf::new(0, JobKind::JobStop), JobMode::JobReplace);
    assert_eq!(
        job_trans_verify(&stage, &JobTable::new(), JobMode::JobReplace),
        Err(JobErrno::JobErrConflict)
    );
}

#[test]
fn cancel_removes_the_job_and_its_dependants() {
    let units = registry(&["a.service", "b.service"]);
    let mut dep = UnitDep::new();
    dep.insert(0, UnitRelations::UnitPropagateStartFailure, 1);
    let mut jm = JobManager::new();
    jm.exec(&units, &dep, &JobConf::new(0, JobKind::JobStart), JobMode::JobReplace).unwrap();
    jm.exec(&units, &dep, &JobConf::new(1, JobKind::JobStart), JobMode::JobReplace).unwrap();
    assert!(jm.cancel(&dep, 77).is_none());
    let gone = jm.cancel(&dep, 1).unwrap();
    assert_eq!(gone.len(), 2);
    assert_eq!(gone[0].result, Some(JobResult::JobCancelled));
    assert_eq!(gone[1].result, Some(JobResult::JobDependency));
    assert!(jm.get_jobs().is_empty());
}

#[test]
fn waiting_job_of_a_unit_is_started_once() {
    let mut jobs = JobTable::new();
    let mut ja = JobAlloc::new();
    jobs.record_suspend(&mut ja, JobConf::new(4, JobKind::JobStart), JobMode::JobFail);
    assert_eq!(jobs.get(0).unwrap().get_conf(), JobConf::new(4, JobKind::JobStart));
    assert!(jobs.get(0).unwrap().is_replaceable());
    assert_eq!(jobs.get(1), None);
    assert_eq!(jobs.find_unit(4), Some(0));
    assert!(jobs.is_unit_empty(5));
    let running = jobs.start_unit_job(4).unwrap();
    assert_eq!(running.stage, JobStage::JobRunning);
    assert_eq!(jobs.get(0), Some(running));
    assert_eq!(jobs.start_unit_job(4), None);
    assert_eq!(jobs.start_unit_job(5), None);
    // a running job is not given up with the waiting ones
    assert!(jobs.remove_suspends(4, JobKind::JobStart, None, JobResult::JobDependency).is_empty());
    assert_eq!(jobs.len(), 1);
    jobs.clear();
    assert_eq!(jobs.len(), 0);
}
