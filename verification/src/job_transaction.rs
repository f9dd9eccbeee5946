//! Building a transaction: a request is expanded over the dependency
//! store into the suspend table, widened by its mode, and checked against
//! the run table.
use crate::error::{JobErrno, UnitActionError};
use crate::job_entry::{
    job_applicable, job_id_next, job_is_unit_applicable, job_new, kind_index, Job, JobAlloc,
    JobConf, JobKind, JobMode, JobResult,
};
use crate::job_table::{
    has_conf, jobs_kept, jobs_removed, lemma_jobs_kept, lemma_jobs_kept_empty, runs_wf,
    suspends_conflict, suspends_conflict_with, suspends_replace_with, suspends_wf, unit_empty,
    JobTable,
};
use crate::unit_dep::{atom_targets, UnitDep, UnitDepEdge};
use crate::unit_rel::UnitRelationAtom;
use crate::unit_sets::{load_complete, load_outcome, UnitSets, UnitX};
use vstd::prelude::*;
use vstd::set_lib::{lemma_int_range, lemma_len_subset, set_int_range};

verus! {

/// One step of an expansion: the request to expand next, and whether its
/// failure is passed over in silence.
#[derive(Clone, Copy, PartialEq, Eq, Debug, Structural)]
pub struct ExpandEdge {
    pub conf: JobConf,
    pub tolerant: bool,
}

/// The identifier reached from `id` after `count` jobs have been made.
pub open spec fn job_id_after(id: u64, count: nat) -> u64 {
    ((id + count) % 0x1_0000_0000_0000_0000) as u64
}

/// The suspend-table slots that a registry of `units` entries leaves free.
pub open spec fn slots_left(jobs: Seq<Job>, units: int) -> nat {
    if units * 9 > jobs.len() {
        (units * 9 - jobs.len()) as nat
    } else {
        0
    }
}

/// Whether a request may enter a transaction. The unit must be registered
/// and load-complete. Any kind but a stop also asks for the unit to be
/// loaded: a malformed description is a bad request, any other failure an
/// input error. A stop must be applicable to the unit.
pub open spec fn check_input(units: Seq<UnitX>, conf: JobConf) -> Result<(), JobErrno> {
    if conf.unit >= units.len() {
        Err(JobErrno::JobErrInput)
    } else {
        let unit = units[conf.unit as int];
        if !load_complete(unit.load_state) {
            Err(JobErrno::JobErrInput)
        } else if conf.kind != JobKind::JobStop {
            match load_outcome(unit.load_state) {
                Ok(()) => Ok(()),
                Err(UnitActionError::UnitActionEBadR) => Err(JobErrno::JobErrBadRequest),
                Err(_) => Err(JobErrno::JobErrInput),
            }
        } else if !job_applicable(conf.kind, unit.unit_type) {
            Err(JobErrno::JobErrInput)
        } else {
            Ok(())
        }
    }
}

/// Whether a recorded request is expanded further: not a `JobNop`, not a
/// request that was there before, and not under a mode that ignores
/// dependencies.
pub open spec fn is_expand(kind: JobKind, new: bool, mode: JobMode) -> bool {
    kind != JobKind::JobNop && new && mode != JobMode::JobIgnoreDependencies && mode
        != JobMode::JobIgnoreRequirements
}

/// One request of kind `kind` for each unit that `unit` reaches over
/// `atom`.
pub open spec fn atom_edges(
    dep: Seq<UnitDepEdge>,
    unit: usize,
    atom: UnitRelationAtom,
    kind: JobKind,
    tolerant: bool,
) -> Seq<ExpandEdge> {
    Seq::new(
        atom_targets(dep, unit, atom).len(),
        |i: int|
            ExpandEdge {
                conf: JobConf { unit: atom_targets(dep, unit, atom)[i], kind },
                tolerant,
            },
    )
}

/// What starting `unit` pulls in: starts, starts that may fail,
/// verifications, stops, and stops that may fail, in this order.
pub open spec fn start_edges(dep: Seq<UnitDepEdge>, unit: usize) -> Seq<ExpandEdge> {
    atom_edges(dep, unit, UnitRelationAtom::UnitAtomPullInStart, JobKind::JobStart, false)
        + atom_edges(
        dep,
        unit,
        UnitRelationAtom::UnitAtomPullInStartIgnored,
        JobKind::JobStart,
        true,
    ) + atom_edges(dep, unit, UnitRelationAtom::UnitAtomPullInVerify, JobKind::JobVerify, false)
        + atom_edges(dep, unit, UnitRelationAtom::UnitAtomPullInStop, JobKind::JobStop, false)
        + atom_edges(dep, unit, UnitRelationAtom::UnitAtomPullInStopIgnored, JobKind::JobStop, true)
}

/// What the stopping half of a request passes on: a stop goes on as a
/// stop, a restart as a conditional restart; other kinds pass on nothing.
pub open spec fn stop_edges(dep: Seq<UnitDepEdge>, conf: JobConf) -> Seq<ExpandEdge> {
    match conf.kind {
        JobKind::JobStop => atom_edges(
            dep,
            conf.unit,
            UnitRelationAtom::UnitAtomPropagateStop,
            JobKind::JobStop,
            false,
        ),
        JobKind::JobRestart => atom_edges(
            dep,
            conf.unit,
            UnitRelationAtom::UnitAtomPropagateRestart,
            JobKind::JobTryRestart,
            false,
        ),
        _ => Seq::empty(),
    }
}

/// What reloading `unit` passes on: conditional reloads that may fail.
pub open spec fn reload_edges(dep: Seq<UnitDepEdge>, unit: usize) -> Seq<ExpandEdge> {
    atom_edges(
        dep,
        unit,
        UnitRelationAtom::UnitAtomPropagatesReloadTo,
        JobKind::JobTryReload,
        true,
    )
}

/// The requests that a request brings with it, by its kind. A restart
/// brings what a start and what its stopping half bring; the kinds other
/// than start, stop, reload and restart bring nothing.
pub open spec fn expand_edges(dep: Seq<UnitDepEdge>, conf: JobConf) -> Seq<ExpandEdge> {
    match conf.kind {
        JobKind::JobStart => start_edges(dep, conf.unit),
        JobKind::JobStop => stop_edges(dep, conf),
        JobKind::JobReload => reload_edges(dep, conf.unit),
        JobKind::JobRestart => start_edges(dep, conf.unit) + stop_edges(dep, conf),
        _ => Seq::empty(),
    }
}

/// Whether the outcome of one step ends the expansion it belongs to:
/// only a failure, on a step that is not tolerant, other than a bad
/// request.
pub open spec fn aborts(result: Result<(), JobErrno>, tolerant: bool) -> bool {
    match result {
        Ok(()) => false,
        Err(e) => !tolerant && e != JobErrno::JobErrBadRequest,
    }
}

/// The jobs that expanding `conf` adds to the suspend table `stage`, in
/// the order of their creation, and how the expansion ends. `next` is the
/// identifier of the first job made.
///
/// A request that fails [`check_input`] adds nothing. One that the table
/// holds adds nothing either. Any other is recorded and, where
/// [`is_expand`] allows, followed by the expansion of
/// [`expand_edges`].
pub open spec fn expand(
    units: Seq<UnitX>,
    dep: Seq<UnitDepEdge>,
    mode: JobMode,
    stage: Seq<Job>,
    next: u64,
    conf: JobConf,
) -> (Seq<Job>, Result<(), JobErrno>)
    decreases slots_left(stage, units.len() as int), 0nat, 0nat,
    when suspends_wf(stage, units.len() as int)
    via expand_decreases
{
    match check_input(units, conf) {
        Err(e) => (Seq::empty(), Err(e)),
        Ok(()) => if has_conf(stage, conf) {
            (Seq::empty(), Ok(()))
        } else {
            let job = job_new(next, conf, mode);
            if !is_expand(conf.kind, true, mode) {
                (seq![job], Ok(()))
            } else {
                let rest = expand_list(
                    units,
                    dep,
                    mode,
                    stage.push(job),
                    job_id_next(next),
                    expand_edges(dep, conf),
                );
                (seq![job] + rest.0, rest.1)
            }
        },
    }
}

/// The jobs that expanding the steps `edges` one after another adds to
/// `stage`, and how it ends: with the failure of the first step that
/// [`aborts`], or well.
pub open spec fn expand_list(
    units: Seq<UnitX>,
    dep: Seq<UnitDepEdge>,
    mode: JobMode,
    stage: Seq<Job>,
    next: u64,
    edges: Seq<ExpandEdge>,
) -> (Seq<Job>, Result<(), JobErrno>)
    decreases slots_left(stage, units.len() as int), 1nat, edges.len(),
{
    if edges.len() == 0 {
        (Seq::empty(), Ok(()))
    } else {
        let head = expand(units, dep, mode, stage, next, edges[0].conf);
        if aborts(head.1, edges[0].tolerant) {
            head
        } else {
            let rest = expand_list(
                units,
                dep,
                mode,
                stage + head.0,
                job_id_after(next, head.0.len()),
                edges.drop_first(),
            );
            (head.0 + rest.0, rest.1)
        }
    }
}

#[via_fn]
proof fn expand_decreases(
    units: Seq<UnitX>,
    dep: Seq<UnitDepEdge>,
    mode: JobMode,
    stage: Seq<Job>,
    next: u64,
    conf: JobConf,
) {
    if check_input(units, conf) is Ok && !has_conf(stage, conf) {
        lemma_suspends_room(stage, units.len() as int, job_new(next, conf, mode));
    }
}

spec fn job_code(job: Job) -> int {
    job.unit * 9 + kind_index(job.kind)
}

proof fn lemma_suspends_len(jobs: Seq<Job>, units: int)
    requires
        suspends_wf(jobs, units),
        0 <= units,
    ensures
        jobs.len() <= units * 9,
{
    let codes = Seq::new(jobs.len(), |i: int| job_code(jobs[i]));
    assert forall|i: int, j: int| 0 <= i < codes.len() && 0 <= j < codes.len() && i != j implies
        codes[i] != codes[j] by {
        if i < j {
            assert(jobs[i].conf() != jobs[j].conf());
        } else {
            assert(jobs[j].conf() != jobs[i].conf());
        }
    }
    codes.unique_seq_to_set();
    lemma_int_range(0, units * 9);
    assert forall|c: int| codes.to_set().contains(c) implies set_int_range(0, units * 9).contains(
        c,
    ) by {
        let i = choose|i: int| 0 <= i < codes.len() && codes[i] == c;
        assert(jobs[i].unit < units);
    }
    lemma_len_subset(codes.to_set(), set_int_range(0, units * 9));
}

/// A suspend table that lacks a request on a registered unit has room
/// for it.
pub proof fn lemma_suspends_room(jobs: Seq<Job>, units: int, job: Job)
    requires
        suspends_wf(jobs, units),
        job.unit < units,
        !has_conf(jobs, job.conf()),
    ensures
        suspends_wf(jobs.push(job), units),
        jobs.len() < units * 9,
        slots_left(jobs.push(job), units) < slots_left(jobs, units),
{
    let more = jobs.push(job);
    assert forall|i: int, j: int| 0 <= i < j < more.len() implies (#[trigger] more[i]).conf() != (
    #[trigger] more[j]).conf() by {
        if j == jobs.len() {
            assert(jobs[i].conf() != job.conf());
        } else {
            assert(jobs[i].conf() != jobs[j].conf());
        }
    }
    lemma_suspends_len(more, units);
}

/// Making jobs one batch after another reaches the same identifier as
/// making them all at once.
pub proof fn lemma_job_id_after(id: u64, a: nat, b: nat)
    ensures
        job_id_after(job_id_after(id, a), b) == job_id_after(id, a + b),
        job_id_after(id, 0) == id,
        job_id_after(id, 1) == job_id_next(id),
{
}

/// Expanding a request into a well-formed suspend table leaves it
/// well-formed.
pub proof fn lemma_expand_wf(
    units: Seq<UnitX>,
    dep: Seq<UnitDepEdge>,
    mode: JobMode,
    stage: Seq<Job>,
    next: u64,
    conf: JobConf,
)
    requires
        suspends_wf(stage, units.len() as int),
    ensures
        suspends_wf(stage + expand(units, dep, mode, stage, next, conf).0, units.len() as int),
    decreases slots_left(stage, units.len() as int), 0nat, 0nat,
{
    assert(stage + Seq::<Job>::empty() =~= stage);
    if check_input(units, conf) is Ok && !has_conf(stage, conf) {
        let job = job_new(next, conf, mode);
        lemma_suspends_room(stage, units.len() as int, job);
        assert(stage + seq![job] =~= stage.push(job));
        if is_expand(conf.kind, true, mode) {
            lemma_expand_list_wf(
                units,
                dep,
                mode,
                stage.push(job),
                job_id_next(next),
                expand_edges(dep, conf),
            );
            let rest = expand_list(
                units,
                dep,
                mode,
                stage.push(job),
                job_id_next(next),
                expand_edges(dep, conf),
            );
            assert(stage + (seq![job] + rest.0) =~= stage.push(job) + rest.0);
        }
    }
}

/// Expanding a list of steps into a well-formed suspend table leaves it
/// well-formed.
pub proof fn lemma_expand_list_wf(
    units: Seq<UnitX>,
    dep: Seq<UnitDepEdge>,
    mode: JobMode,
    stage: Seq<Job>,
    next: u64,
    edges: Seq<ExpandEdge>,
)
    requires
        suspends_wf(stage, units.len() as int),
    ensures
        suspends_wf(
            stage + expand_list(units, dep, mode, stage, next, edges).0,
            units.len() as int,
        ),
    decreases slots_left(stage, units.len() as int), 1nat, edges.len(),
{
    assert(stage + Seq::<Job>::empty() =~= stage);
    if edges.len() > 0 {
        lemma_expand_wf(units, dep, mode, stage, next, edges[0].conf);
        let head = expand(units, dep, mode, stage, next, edges[0].conf);
        if !aborts(head.1, edges[0].tolerant) {
            lemma_expand_list_wf(
                units,
                dep,
                mode,
                stage + head.0,
                job_id_after(next, head.0.len()),
                edges.drop_first(),
            );
            let rest = expand_list(
                units,
                dep,
                mode,
                stage + head.0,
                job_id_after(next, head.0.len()),
                edges.drop_first(),
            );
            assert(stage + (head.0 + rest.0) =~= (stage + head.0) + rest.0);
        }
    }
}

/// An expansion that ends well leaves a job for its request in the
/// suspend table, and every job that it adds is on a registered unit.
pub proof fn lemma_expand_records_request(
    units: Seq<UnitX>,
    dep: Seq<UnitDepEdge>,
    mode: JobMode,
    stage: Seq<Job>,
    next: u64,
    conf: JobConf,
)
    requires
        suspends_wf(stage, units.len() as int),
    ensures
        expand(units, dep, mode, stage, next, conf).1 is Ok ==> has_conf(
            stage + expand(units, dep, mode, stage, next, conf).0,
            conf,
        ),
        forall|i: int|
            0 <= i < expand(units, dep, mode, stage, next, conf).0.len() ==> (#[trigger] expand(
                units,
                dep,
                mode,
                stage,
                next,
                conf,
            ).0[i]).unit < units.len(),
{
    let added = expand(units, dep, mode, stage, next, conf).0;
    let after = stage + added;
    lemma_expand_wf(units, dep, mode, stage, next, conf);
    assert forall|i: int| 0 <= i < added.len() implies (#[trigger] added[i]).unit
        < units.len() by {
        assert(after[stage.len() + i] == added[i]);
    }
    if expand(units, dep, mode, stage, next, conf).1 is Ok {
        if has_conf(stage, conf) {
            let i = choose|i: int| 0 <= i < stage.len() && (#[trigger] stage[i]).conf() == conf;
            assert(after[i].conf() == conf);
        } else {
            assert(after[stage.len() as int] == job_new(next, conf, mode));
            assert(after[stage.len() as int].conf() == conf);
        }
    }
}

/// Expanding one list of steps after another is expanding the two as
/// one list.
pub proof fn lemma_expand_list_concat(
    units: Seq<UnitX>,
    dep: Seq<UnitDepEdge>,
    mode: JobMode,
    stage: Seq<Job>,
    next: u64,
    first: Seq<ExpandEdge>,
    second: Seq<ExpandEdge>,
)
    requires
        suspends_wf(stage, units.len() as int),
    ensures
        expand_list(units, dep, mode, stage, next, first + second) == ({
            let a = expand_list(units, dep, mode, stage, next, first);
            if a.1 is Err {
                a
            } else {
                let b = expand_list(
                    units,
                    dep,
                    mode,
                    stage + a.0,
                    job_id_after(next, a.0.len()),
                    second,
                );
                (a.0 + b.0, b.1)
            }
        }),
    decreases first.len(),
{
    let both = first + second;
    if first.len() == 0 {
        assert(both =~= second);
        assert(stage + Seq::<Job>::empty() =~= stage);
        lemma_job_id_after(next, 0, 0);
        let b = expand_list(units, dep, mode, stage, next, second);
        assert(Seq::<Job>::empty() + b.0 =~= b.0);
    } else {
        assert(both[0] == first[0]);
        assert(both.drop_first() =~= first.drop_first() + second);
        let head = expand(units, dep, mode, stage, next, first[0].conf);
        if !aborts(head.1, first[0].tolerant) {
            let stage1 = stage + head.0;
            let next1 = job_id_after(next, head.0.len());
            lemma_expand_wf(units, dep, mode, stage, next, first[0].conf);
            lemma_expand_list_concat(units, dep, mode, stage1, next1, first.drop_first(), second);
            let a1 = expand_list(units, dep, mode, stage1, next1, first.drop_first());
            if a1.1 is Ok {
                let b = expand_list(
                    units,
                    dep,
                    mode,
                    stage1 + a1.0,
                    job_id_after(next1, a1.0.len()),
                    second,
                );
                lemma_job_id_after(next, head.0.len(), a1.0.len());
                assert(stage1 + a1.0 =~= stage + (head.0 + a1.0));
                assert(head.0 + (a1.0 + b.0) =~= (head.0 + a1.0) + b.0);
            }
        }
    }
}

/// The jobs that stopping the units `targets` adds to `stage`, one unit
/// after another. A unit that has a job in the table by the time its turn
/// comes is passed over, and so is, where `isolating` holds, a unit that
/// is unknown or asks to be left alone when others are isolated. A stop
/// that cannot be planned is passed over in silence, with what it had
/// added before it failed.
pub open spec fn affect_list(
    units: Seq<UnitX>,
    dep: Seq<UnitDepEdge>,
    mode: JobMode,
    stage: Seq<Job>,
    next: u64,
    targets: Seq<usize>,
    isolating: bool,
) -> Seq<Job>
    decreases targets.len(),
{
    if targets.len() == 0 {
        Seq::empty()
    } else {
        let unit = targets[0];
        let head = if affect_skips(units, stage, unit, isolating) {
            Seq::empty()
        } else {
            expand(units, dep, mode, stage, next, JobConf { unit, kind: JobKind::JobStop }).0
        };
        head + affect_list(
            units,
            dep,
            mode,
            stage + head,
            job_id_after(next, head.len()),
            targets.drop_first(),
            isolating,
        )
    }
}

/// Whether the affect phase leaves `unit` alone.
pub open spec fn affect_skips(units: Seq<UnitX>, stage: Seq<Job>, unit: usize, isolating: bool)
    -> bool {
    (isolating && (unit >= units.len() || units[unit as int].ignore_on_isolate)) || !unit_empty(
        stage,
        unit,
    )
}

/// The units in the order of the registry.
pub open spec fn all_units(count: nat) -> Seq<usize> {
    Seq::new(count, |i: int| i as usize)
}

/// What the mode of a transaction adds once the request itself has been
/// expanded: isolating stops every other unit, triggering stops the units
/// that `conf` is triggered by, and the other modes add nothing.
pub open spec fn affect(
    units: Seq<UnitX>,
    dep: Seq<UnitDepEdge>,
    mode: JobMode,
    stage: Seq<Job>,
    next: u64,
    conf: JobConf,
) -> Seq<Job> {
    match mode {
        JobMode::JobIsolate => affect_list(
            units,
            dep,
            mode,
            stage,
            next,
            all_units(units.len()),
            true,
        ),
        JobMode::JobTrigger => affect_list(
            units,
            dep,
            mode,
            stage,
            next,
            atom_targets(dep, conf.unit, UnitRelationAtom::UnitAtomTriggeredBy),
            false,
        ),
        _ => Seq::empty(),
    }
}

/// Whether a suspend table may be committed to the run table `jobs`. It
/// may not hold two conflicting jobs on one unit. Where it conflicts with
/// the run table, the mode must not be `JobFail` and every job that it
/// conflicts with must be replaceable.
pub open spec fn verify(stage: Seq<Job>, jobs: Seq<Job>, mode: JobMode) -> Result<(), JobErrno> {
    if suspends_conflict(stage) {
        Err(JobErrno::JobErrConflict)
    } else if !suspends_conflict_with(jobs, stage) {
        Ok(())
    } else if mode != JobMode::JobFail && suspends_replace_with(jobs, stage) {
        Ok(())
    } else {
        Err(JobErrno::JobErrConflict)
    }
}

/// The relation along which the failure of a job in the phase `run_kind`
/// is passed on.
pub open spec fn fallback_atom(run_kind: JobKind) -> Option<UnitRelationAtom> {
    match run_kind {
        JobKind::JobStart | JobKind::JobVerify => Some(
            UnitRelationAtom::UnitAtomPropagateStartFailure,
        ),
        JobKind::JobStop => Some(UnitRelationAtom::UnitAtomPropagateStopFailure),
        _ => None,
    }
}

/// The run table, and the jobs taken out of it, after the waiting starts
/// and verifications on the first `upto` units of `targets` have been
/// given up for want of a dependency.
pub open spec fn fallback_list(jobs: Seq<Job>, targets: Seq<usize>, upto: int) -> (
    Seq<Job>,
    Seq<Job>,
)
    decreases upto,
{
    if upto <= 0 || upto > targets.len() {
        (jobs, Seq::empty())
    } else {
        let before = fallback_list(jobs, targets, upto - 1);
        (
            jobs_kept(before.0, targets[upto - 1], JobKind::JobStart, Some(JobKind::JobVerify)),
            before.1 + jobs_removed(
                before.0,
                targets[upto - 1],
                JobKind::JobStart,
                Some(JobKind::JobVerify),
                JobResult::JobDependency,
            ),
        )
    }
}

/// What the failure of a job on `unit` in the phase `run_kind` does to
/// the run table.
pub open spec fn fallback(jobs: Seq<Job>, dep: Seq<UnitDepEdge>, unit: usize, run_kind: JobKind)
    -> (Seq<Job>, Seq<Job>) {
    match fallback_atom(run_kind) {
        Some(atom) => fallback_list(
            jobs,
            atom_targets(dep, unit, atom),
            atom_targets(dep, unit, atom).len() as int,
        ),
        None => (jobs, Seq::empty()),
    }
}

/// Giving up jobs leaves the run table with at most one job for each
/// unit, and leaves a unit without a job without one.
pub proof fn lemma_fallback_wf(jobs: Seq<Job>, targets: Seq<usize>, upto: int, other: usize)
    requires
        0 <= upto <= targets.len(),
    ensures
        runs_wf(jobs) ==> runs_wf(fallback_list(jobs, targets, upto).0),
        unit_empty(jobs, other) ==> unit_empty(fallback_list(jobs, targets, upto).0, other),
    decreases upto,
{
    if upto > 0 {
        lemma_fallback_wf(jobs, targets, upto - 1, other);
        let before = fallback_list(jobs, targets, upto - 1);
        lemma_jobs_kept(before.0, targets[upto - 1], JobKind::JobStart, Some(JobKind::JobVerify));
        if unit_empty(jobs, other) {
            lemma_jobs_kept_empty(
                before.0,
                targets[upto - 1],
                JobKind::JobStart,
                Some(JobKind::JobVerify),
                other,
            );
        }
    }
}

/// Expands `config` into the suspend table `stage`.
pub fn job_trans_expand(
    stage: &mut JobTable,
    ja: &mut JobAlloc,
    units: &UnitSets,
    dep: &UnitDep,
    config: &JobConf,
    mode: JobMode,
) -> (r: Result<(), JobErrno>)
    requires
        suspends_wf(old(stage)@, units@.len() as int),
    ensures
        final(stage)@ == old(stage)@ + expand(
            units@,
            dep@,
            mode,
            old(stage)@,
            old(ja).next_id(),
            *config,
        ).0,
        r == expand(units@, dep@, mode, old(stage)@, old(ja).next_id(), *config).1,
        final(ja).next_id() == job_id_after(
            old(ja).next_id(),
            expand(units@, dep@, mode, old(stage)@, old(ja).next_id(), *config).0.len(),
        ),
        suspends_wf(final(stage)@, units@.len() as int),
    decreases slots_left(old(stage)@, units@.len() as int), 0nat, 0nat,
{
    let ghost stage0 = stage@;
    let ghost next0 = ja.next_id();
    proof {
        lemma_job_id_after(next0, 0, 0);
        assert(stage0 + Seq::<Job>::empty() =~= stage0);
    }
    match trans_expand_check_input(units, config) {
        Err(e) => {
            return Err(e);
        },
        Ok(()) => {},
    }
    let conf = JobConf::map(config);
    let new = stage.record_suspend(ja, conf, mode);
    if !new {
        return Ok(());
    }
    let ghost job = job_new(next0, conf, mode);
    proof {
        lemma_suspends_room(stage0, units@.len() as int, job);
        lemma_job_id_after(next0, 1, 0);
        assert(stage0.push(job) =~= stage0 + seq![job]);
    }
    if trans_is_expand(&conf, new, mode) {
        let ghost stage1 = stage@;
        let ghost next1 = ja.next_id();
        let r = match conf.get_kind() {
            JobKind::JobStart => trans_expand_start(stage, ja, units, dep, &conf, mode),
            JobKind::JobStop => trans_expand_stop(stage, ja, units, dep, &conf, mode),
            JobKind::JobReload => trans_expand_reload(stage, ja, units, dep, &conf, mode),
            JobKind::JobRestart => {
                let first = trans_expand_start(stage, ja, units, dep, &conf, mode);
                proof {
                    lemma_expand_list_concat(
                        units@,
                        dep@,
                        mode,
                        stage1,
                        next1,
                        start_edges(dep@, conf.unit),
                        stop_edges(dep@, conf),
                    );
                }
                match first {
                    Err(e) => Err(e),
                    Ok(()) => {
                        let ghost added = stage@.subrange(stage1.len() as int, stage@.len() as int);
                        let second = trans_expand_stop(stage, ja, units, dep, &conf, mode);
                        proof {
                            let a = expand_list(
                                units@,
                                dep@,
                                mode,
                                stage1,
                                next1,
                                start_edges(dep@, conf.unit),
                            );
                            let b = expand_list(
                                units@,
                                dep@,
                                mode,
                                stage1 + a.0,
                                job_id_after(next1, a.0.len()),
                                stop_edges(dep@, conf),
                            );
                            lemma_job_id_after(next1, a.0.len(), b.0.len());
                            assert(stage1 + a.0 + b.0 =~= stage1 + (a.0 + b.0));
                        }
                        second
                    },
                }
            },
            _ => {
                proof {
                    assert(expand_edges(dep@, conf) =~= Seq::<ExpandEdge>::empty());
                    assert(stage1 + Seq::<Job>::empty() =~= stage1);
                    lemma_job_id_after(next1, 0, 0);
                }
                Ok(())
            },
        };
        proof {
            let rest = expand_list(units@, dep@, mode, stage1, next1, expand_edges(dep@, conf));
            assert(stage@ == stage1 + rest.0);
            assert(stage0 + (seq![job] + rest.0) =~= stage1 + rest.0);
            lemma_job_id_after(next0, 1, rest.0.len());
            assert((seq![job] + rest.0).len() == 1 + rest.0.len());
        }
        return r;
    }
    Ok(())
}

/// Adds to `stage` what the mode of the transaction asks for beyond the
/// request itself. It never fails.
pub fn job_trans_affect(
    stage: &mut JobTable,
    ja: &mut JobAlloc,
    units: &UnitSets,
    dep: &UnitDep,
    config: &JobConf,
    mode: JobMode,
) -> (r: Result<(), JobErrno>)
    requires
        suspends_wf(old(stage)@, units@.len() as int),
    ensures
        r is Ok,
        final(stage)@ == old(stage)@ + affect(
            units@,
            dep@,
            mode,
            old(stage)@,
            old(ja).next_id(),
            *config,
        ),
        final(ja).next_id() == job_id_after(
            old(ja).next_id(),
            affect(units@, dep@, mode, old(stage)@, old(ja).next_id(), *config).len(),
        ),
        suspends_wf(final(stage)@, units@.len() as int),
{
    match mode {
        JobMode::JobIsolate => trans_affect_isolate(stage, ja, units, dep, mode),
        JobMode::JobTrigger => trans_affect_trigger(stage, ja, units, dep, config, mode),
        _ => {
            proof {
                assert(stage@ + Seq::<Job>::empty() =~= stage@);
                lemma_job_id_after(ja.next_id(), 0, 0);
            }
            Ok(())
        },
    }
}

/// Decides whether the suspend table `stage` may be committed to the run
/// table `jobs`.
pub fn job_trans_verify(stage: &JobTable, jobs: &JobTable, mode: JobMode) -> (r: Result<
    (),
    JobErrno,
>)
    ensures
        r == verify(stage@, jobs@, mode),
{
    match trans_verify_is_conflict(stage) {
        Err(e) => {
            return Err(e);
        },
        Ok(()) => {},
    }
    trans_verify_is_destructive(stage, jobs, mode)
}

/// Gives up, in the run table `jobs`, the waiting starts and
/// verifications that depended on the job that failed on `unit` in the
/// phase `run_kind`, and returns them marked as failed by dependency.
pub fn job_trans_fallback(jobs: &mut JobTable, dep: &UnitDep, unit: usize, run_kind: JobKind) -> (r:
    Vec<Job>)
    ensures
        final(jobs)@ == fallback(old(jobs)@, dep@, unit, run_kind).0,
        r@ == fallback(old(jobs)@, dep@, unit, run_kind).1,
{
    match run_kind {
        JobKind::JobStart => trans_fallback_start(jobs, dep, unit),
        JobKind::JobStop => trans_fallback_stop(jobs, dep, unit),
        JobKind::JobVerify => trans_fallback_start(jobs, dep, unit),
        _ => Vec::new(),
    }
}

/// Decides [`check_input`].
pub fn trans_expand_check_input(units: &UnitSets, config: &JobConf) -> (r: Result<(), JobErrno>)
    ensures
        r == check_input(units@, *config),
{
    let kind = config.get_kind();
    if config.get_unit() >= units.len() {
        return Err(JobErrno::JobErrInput);
    }
    let unit = units.unit(config.get_unit());
    if !unit.is_load_complete() {
        return Err(JobErrno::JobErrInput);
    }
    if kind != JobKind::JobStop {
        let err = match unit.try_load() {
            Ok(()) => Ok(()),
            Err(UnitActionError::UnitActionEBadR) => Err(JobErrno::JobErrBadRequest),
            Err(_) => Err(JobErrno::JobErrInput),
        };
        return err;
    }
    if !job_is_unit_applicable(kind, unit) {
        return Err(JobErrno::JobErrInput);
    }
    Ok(())
}

/// Appends to `edges` one step of kind `kind` for each unit that `unit`
/// reaches over `atom`.
fn push_atom_edges(
    edges: &mut Vec<ExpandEdge>,
    dep: &UnitDep,
    unit: usize,
    atom: UnitRelationAtom,
    kind: JobKind,
    tolerant: bool,
)
    ensures
        final(edges)@ == old(edges)@ + atom_edges(dep@, unit, atom, kind, tolerant),
{
    let targets = dep.gets_atom(unit, atom);
    let mut i: usize = 0;
    while i < targets.len()
        invariant
            i <= targets.len(),
            targets@ == atom_targets(dep@, unit, atom),
            edges@ == old(edges)@ + atom_edges(dep@, unit, atom, kind, tolerant).take(i as int),
        decreases targets.len() - i,
    {
        let ghost before = edges@;
        edges.push(ExpandEdge { conf: JobConf::new(targets[i], kind), tolerant });
        proof {
            let all = atom_edges(dep@, unit, atom, kind, tolerant);
            assert(all.take(i + 1) =~= all.take(i as int).push(all[i as int]));
            assert(edges@ =~= old(edges)@ + all.take(i + 1));
        }
        i += 1;
    }
    proof {
        let all = atom_edges(dep@, unit, atom, kind, tolerant);
        assert(all.take(all.len() as int) =~= all);
    }
}

/// Expands the steps `edges` one after another into `stage`.
fn trans_expand_edges(
    stage: &mut JobTable,
    ja: &mut JobAlloc,
    units: &UnitSets,
    dep: &UnitDep,
    edges: &Vec<ExpandEdge>,
    mode: JobMode,
) -> (r: Result<(), JobErrno>)
    requires
        suspends_wf(old(stage)@, units@.len() as int),
    ensures
        final(stage)@ == old(stage)@ + expand_list(
            units@,
            dep@,
            mode,
            old(stage)@,
            old(ja).next_id(),
            edges@,
        ).0,
        r == expand_list(units@, dep@, mode, old(stage)@, old(ja).next_id(), edges@).1,
        final(ja).next_id() == job_id_after(
            old(ja).next_id(),
            expand_list(units@, dep@, mode, old(stage)@, old(ja).next_id(), edges@).0.len(),
        ),
        suspends_wf(final(stage)@, units@.len() as int),
    decreases slots_left(old(stage)@, units@.len() as int), 1nat, edges@.len(),
{
    let ghost stage0 = stage@;
    let ghost next0 = ja.next_id();
    let ghost mut done: Seq<Job> = Seq::empty();
    proof {
        assert(stage0 + done =~= stage0);
        lemma_job_id_after(next0, 0, 0);
        assert(edges@.skip(0) =~= edges@);
    }
    let mut i: usize = 0;
    while i < edges.len()
        invariant
            i <= edges.len(),
            stage@ == stage0 + done,
            ja.next_id() == job_id_after(next0, done.len()),
            stage0 == old(stage)@,
            next0 == old(ja).next_id(),
            suspends_wf(stage@, units@.len() as int),
            suspends_wf(stage0, units@.len() as int),
            expand_list(units@, dep@, mode, stage0, next0, edges@) == ({
                let rest = expand_list(
                    units@,
                    dep@,
                    mode,
                    stage@,
                    ja.next_id(),
                    edges@.skip(i as int),
                );
                (done + rest.0, rest.1)
            }),
        decreases edges.len() - i,
    {
        let edge = edges[i];
        let ghost stage_i = stage@;
        let ghost next_i = ja.next_id();
        let ghost tail = edges@.skip(i as int);
        proof {
            assert(tail[0] == edge);
            assert(tail.drop_first() =~= edges@.skip(i + 1));
            assert(slots_left(stage_i, units@.len() as int) <= slots_left(
                stage0,
                units@.len() as int,
            ));
        }
        let r = job_trans_expand(stage, ja, units, dep, &edge.conf, mode);
        let ghost head = expand(units@, dep@, mode, stage_i, next_i, edge.conf);
        proof {
            lemma_job_id_after(next0, done.len(), head.0.len());
            assert(stage0 + (done + head.0) =~= stage_i + head.0);
        }
        match r {
            Err(e) => {
                if !edge.tolerant && e != JobErrno::JobErrBadRequest {
                    proof {
                        done = done + head.0;
                    }
                    return Err(e);
                }
            },
            Ok(()) => {},
        }
        proof {
            let rest = expand_list(
                units@,
                dep@,
                mode,
                stage@,
                ja.next_id(),
                edges@.skip(i + 1),
            );
            assert((done + head.0) + rest.0 =~= done + (head.0 + rest.0));
            done = done + head.0;
        }
        i += 1;
    }
    proof {
        assert(edges@.skip(edges@.len() as int) =~= Seq::<ExpandEdge>::empty());
        assert(done + Seq::<Job>::empty() =~= done);
    }
    Ok(())
}

/// Expands what starting the unit of `config` pulls in.
pub fn trans_expand_start(
    stage: &mut JobTable,
    ja: &mut JobAlloc,
    units: &UnitSets,
    dep: &UnitDep,
    config: &JobConf,
    mode: JobMode,
) -> (r: Result<(), JobErrno>)
    requires
        suspends_wf(old(stage)@, units@.len() as int),
    ensures
        final(stage)@ == old(stage)@ + expand_list(
            units@,
            dep@,
            mode,
            old(stage)@,
            old(ja).next_id(),
            start_edges(dep@, config.unit),
        ).0,
        r == expand_list(
            units@,
            dep@,
            mode,
            old(stage)@,
            old(ja).next_id(),
            start_edges(dep@, config.unit),
        ).1,
        final(ja).next_id() == job_id_after(
            old(ja).next_id(),
            expand_list(
                units@,
                dep@,
                mode,
                old(stage)@,
                old(ja).next_id(),
                start_edges(dep@, config.unit),
            ).0.len(),
        ),
        suspends_wf(final(stage)@, units@.len() as int),
    decreases slots_left(old(stage)@, units@.len() as int), 2nat, 0nat,
{
    let unit = config.get_unit();
    let mut edges: Vec<ExpandEdge> = Vec::new();
    push_atom_edges(
        &mut edges,
        dep,
        unit,
        UnitRelationAtom::UnitAtomPullInStart,
        JobKind::JobStart,
        false,
    );
    push_atom_edges(
        &mut edges,
        dep,
        unit,
        UnitRelationAtom::UnitAtomPullInStartIgnored,
        JobKind::JobStart,
        true,
    );
    push_atom_edges(
        &mut edges,
        dep,
        unit,
        UnitRelationAtom::UnitAtomPullInVerify,
        JobKind::JobVerify,
        false,
    );
    push_atom_edges(
        &mut edges,
        dep,
        unit,
        UnitRelationAtom::UnitAtomPullInStop,
        JobKind::JobStop,
        false,
    );
    push_atom_edges(
        &mut edges,
        dep,
        unit,
        UnitRelationAtom::UnitAtomPullInStopIgnored,
        JobKind::JobStop,
        true,
    );
    assert(edges@ =~= start_edges(dep@, unit));
    trans_expand_edges(stage, ja, units, dep, &edges, mode)
}

/// Expands what the stopping half of `config` passes on.
pub fn trans_expand_stop(
    stage: &mut JobTable,
    ja: &mut JobAlloc,
    units: &UnitSets,
    dep: &UnitDep,
    config: &JobConf,
    mode: JobMode,
) -> (r: Result<(), JobErrno>)
    requires
        suspends_wf(old(stage)@, units@.len() as int),
    ensures
        final(stage)@ == old(stage)@ + expand_list(
            units@,
            dep@,
            mode,
            old(stage)@,
            old(ja).next_id(),
            stop_edges(dep@, *config),
        ).0,
        r == expand_list(
            units@,
            dep@,
            mode,
            old(stage)@,
            old(ja).next_id(),
            stop_edges(dep@, *config),
        ).1,
        final(ja).next_id() == job_id_after(
            old(ja).next_id(),
            expand_list(
                units@,
                dep@,
                mode,
                old(stage)@,
                old(ja).next_id(),
                stop_edges(dep@, *config),
            ).0.len(),
        ),
        suspends_wf(final(stage)@, units@.len() as int),
    decreases slots_left(old(stage)@, units@.len() as int), 2nat, 0nat,
{
    let unit = config.get_unit();
    let mut edges: Vec<ExpandEdge> = Vec::new();
    match config.get_kind() {
        JobKind::JobStop => {
            push_atom_edges(
                &mut edges,
                dep,
                unit,
                UnitRelationAtom::UnitAtomPropagateStop,
                JobKind::JobStop,
                false,
            );
        },
        JobKind::JobRestart => {
            push_atom_edges(
                &mut edges,
                dep,
                unit,
                UnitRelationAtom::UnitAtomPropagateRestart,
                JobKind::JobTryRestart,
                false,
            );
        },
        _ => {},
    }
    assert(edges@ =~= stop_edges(dep@, *config));
    trans_expand_edges(stage, ja, units, dep, &edges, mode)
}

/// Expands what reloading the unit of `config` passes on.
pub fn trans_expand_reload(
    stage: &mut JobTable,
    ja: &mut JobAlloc,
    units: &UnitSets,
    dep: &UnitDep,
    config: &JobConf,
    mode: JobMode,
) -> (r: Result<(), JobErrno>)
    requires
        suspends_wf(old(stage)@, units@.len() as int),
    ensures
        final(stage)@ == old(stage)@ + expand_list(
            units@,
            dep@,
            mode,
            old(stage)@,
            old(ja).next_id(),
            reload_edges(dep@, config.unit),
        ).0,
        r is Ok,
        r == expand_list(
            units@,
            dep@,
            mode,
            old(stage)@,
            old(ja).next_id(),
            reload_edges(dep@, config.unit),
        ).1,
        final(ja).next_id() == job_id_after(
            old(ja).next_id(),
            expand_list(
                units@,
                dep@,
                mode,
                old(stage)@,
                old(ja).next_id(),
                reload_edges(dep@, config.unit),
            ).0.len(),
        ),
        suspends_wf(final(stage)@, units@.len() as int),
    decreases slots_left(old(stage)@, units@.len() as int), 2nat, 0nat,
{
    let unit = config.get_unit();
    let mut edges: Vec<ExpandEdge> = Vec::new();
    push_atom_edges(
        &mut edges,
        dep,
        unit,
        UnitRelationAtom::UnitAtomPropagatesReloadTo,
        JobKind::JobTryReload,
        true,
    );
    assert(edges@ =~= reload_edges(dep@, unit));
    proof {
        lemma_tolerant_list_ok(units@, dep@, mode, stage@, ja.next_id(), edges@);
    }
    trans_expand_edges(stage, ja, units, dep, &edges, mode)
}

/// A list of steps that are all tolerant ends well.
pub proof fn lemma_tolerant_list_ok(
    units: Seq<UnitX>,
    dep: Seq<UnitDepEdge>,
    mode: JobMode,
    stage: Seq<Job>,
    next: u64,
    edges: Seq<ExpandEdge>,
)
    requires
        suspends_wf(stage, units.len() as int),
        forall|i: int| 0 <= i < edges.len() ==> (#[trigger] edges[i]).tolerant,
    ensures
        expand_list(units, dep, mode, stage, next, edges).1 is Ok,
    decreases edges.len(),
{
    if edges.len() > 0 {
        let head = expand(units, dep, mode, stage, next, edges[0].conf);
        assert(edges[0].tolerant);
        assert forall|i: int| 0 <= i < edges.drop_first().len() implies (
        #[trigger] edges.drop_first()[i]).tolerant by {
            assert(edges[i + 1].tolerant);
        }
        lemma_expand_wf(units, dep, mode, stage, next, edges[0].conf);
        lemma_tolerant_list_ok(
            units,
            dep,
            mode,
            stage + head.0,
            job_id_after(next, head.0.len()),
            edges.drop_first(),
        );
    }
}

/// Decides [`is_expand`].
pub fn trans_is_expand(config: &JobConf, new: bool, mode: JobMode) -> (r: bool)
    ensures
        r == is_expand(config.kind, new, mode),
{
    if config.get_kind() == JobKind::JobNop {
        return false;
    }
    if !new {
        return false;
    }
    if mode == JobMode::JobIgnoreDependencies || mode == JobMode::JobIgnoreRequirements {
        return false;
    }
    true
}

/// Plans a stop for each unit of `targets` that the affect phase does not
/// leave alone.
fn trans_affect_list(
    stage: &mut JobTable,
    ja: &mut JobAlloc,
    units: &UnitSets,
    dep: &UnitDep,
    targets: &Vec<usize>,
    isolating: bool,
    mode: JobMode,
)
    requires
        suspends_wf(old(stage)@, units@.len() as int),
    ensures
        final(stage)@ == old(stage)@ + affect_list(
            units@,
            dep@,
            mode,
            old(stage)@,
            old(ja).next_id(),
            targets@,
            isolating,
        ),
        final(ja).next_id() == job_id_after(
            old(ja).next_id(),
            affect_list(
                units@,
                dep@,
                mode,
                old(stage)@,
                old(ja).next_id(),
                targets@,
                isolating,
            ).len(),
        ),
        suspends_wf(final(stage)@, units@.len() as int),
{
    let ghost stage0 = stage@;
    let ghost next0 = ja.next_id();
    let ghost mut done: Seq<Job> = Seq::empty();
    proof {
        assert(stage0 + done =~= stage0);
        lemma_job_id_after(next0, 0, 0);
        assert(targets@.skip(0) =~= targets@);
    }
    let mut i: usize = 0;
    while i < targets.len()
        invariant
            i <= targets.len(),
            stage@ == stage0 + done,
            ja.next_id() == job_id_after(next0, done.len()),
            stage0 == old(stage)@,
            next0 == old(ja).next_id(),
            suspends_wf(stage@, units@.len() as int),
            affect_list(units@, dep@, mode, stage0, next0, targets@, isolating) == done
                + affect_list(
                units@,
                dep@,
                mode,
                stage@,
                ja.next_id(),
                targets@.skip(i as int),
                isolating,
            ),
        decreases targets.len() - i,
    {
        let other = targets[i];
        let ghost stage_i = stage@;
        let ghost next_i = ja.next_id();
        let ghost tail = targets@.skip(i as int);
        proof {
            assert(tail[0] == other);
            assert(tail.drop_first() =~= targets@.skip(i + 1));
        }
        let ignored = isolating && (other >= units.len() || units.unit(other).ignore_on_isolate);
        let skip = ignored || !stage.is_unit_empty(other);
        if !skip {
            let _ = job_trans_expand(
                stage,
                ja,
                units,
                dep,
                &JobConf::new(other, JobKind::JobStop),
                mode,
            );
        }
        proof {
            let head = if affect_skips(units@, stage_i, other, isolating) {
                Seq::<Job>::empty()
            } else {
                expand(
                    units@,
                    dep@,
                    mode,
                    stage_i,
                    next_i,
                    JobConf { unit: other, kind: JobKind::JobStop },
                ).0
            };
            assert(stage_i + Seq::<Job>::empty() =~= stage_i);
            lemma_job_id_after(next_i, 0, 0);
            lemma_job_id_after(next0, done.len(), head.len());
            assert(stage0 + (done + head) =~= stage_i + head);
            let rest = affect_list(
                units@,
                dep@,
                mode,
                stage@,
                ja.next_id(),
                targets@.skip(i + 1),
                isolating,
            );
            assert((done + head) + rest =~= done + (head + rest));
            done = done + head;
        }
        i += 1;
    }
    proof {
        assert(targets@.skip(targets@.len() as int) =~= Seq::<usize>::empty());
        assert(done + Seq::<Job>::empty() =~= done);
    }
}

/// Plans a stop for every registered unit that has no job in `stage` and
/// does not ask to be left alone.
pub fn trans_affect_isolate(
    stage: &mut JobTable,
    ja: &mut JobAlloc,
    units: &UnitSets,
    dep: &UnitDep,
    mode: JobMode,
) -> (r: Result<(), JobErrno>)
    requires
        suspends_wf(old(stage)@, units@.len() as int),
    ensures
        r is Ok,
        final(stage)@ == old(stage)@ + affect_list(
            units@,
            dep@,
            mode,
            old(stage)@,
            old(ja).next_id(),
            all_units(units@.len()),
            true,
        ),
        final(ja).next_id() == job_id_after(
            old(ja).next_id(),
            affect_list(
                units@,
                dep@,
                mode,
                old(stage)@,
                old(ja).next_id(),
                all_units(units@.len()),
                true,
            ).len(),
        ),
        suspends_wf(final(stage)@, units@.len() as int),
{
    let all = units.get_all();
    assert(all@ =~= all_units(units@.len()));
    trans_affect_list(stage, ja, units, dep, &all, true, mode);
    Ok(())
}

/// Plans a stop for every unit that the unit of `config` is triggered by
/// and that has no job in `stage`.
pub fn trans_affect_trigger(
    stage: &mut JobTable,
    ja: &mut JobAlloc,
    units: &UnitSets,
    dep: &UnitDep,
    config: &JobConf,
    mode: JobMode,
) -> (r: Result<(), JobErrno>)
    requires
        suspends_wf(old(stage)@, units@.len() as int),
    ensures
        r is Ok,
        final(stage)@ == old(stage)@ + affect_list(
            units@,
            dep@,
            mode,
            old(stage)@,
            old(ja).next_id(),
            atom_targets(dep@, config.unit, UnitRelationAtom::UnitAtomTriggeredBy),
            false,
        ),
        final(ja).next_id() == job_id_after(
            old(ja).next_id(),
            affect_list(
                units@,
                dep@,
                mode,
                old(stage)@,
                old(ja).next_id(),
                atom_targets(dep@, config.unit, UnitRelationAtom::UnitAtomTriggeredBy),
                false,
            ).len(),
        ),
        suspends_wf(final(stage)@, units@.len() as int),
{
    let targets = dep.gets_atom(config.get_unit(), UnitRelationAtom::UnitAtomTriggeredBy);
    trans_affect_list(stage, ja, units, dep, &targets, false, mode);
    Ok(())
}

/// Fails with a conflict where `stage` holds two conflicting jobs on one
/// unit.
pub fn trans_verify_is_conflict(stage: &JobTable) -> (r: Result<(), JobErrno>)
    ensures
        r == if suspends_conflict(stage@) {
            Err::<(), JobErrno>(JobErrno::JobErrConflict)
        } else {
            Ok(())
        },
{
    if stage.is_suspends_conflict() {
        return Err(JobErrno::JobErrConflict);
    }
    Ok(())
}

/// Fails with a conflict where `stage` conflicts with the run table
/// `jobs` and may not push its jobs aside.
pub fn trans_verify_is_destructive(stage: &JobTable, jobs: &JobTable, mode: JobMode) -> (r: Result<
    (),
    JobErrno,
>)
    ensures
        r == if !suspends_conflict_with(jobs@, stage@) || (mode != JobMode::JobFail
            && suspends_replace_with(jobs@, stage@)) {
            Ok::<(), JobErrno>(())
        } else {
            Err(JobErrno::JobErrConflict)
        },
{
    if !jobs.is_suspends_conflict_with(stage) {
        return Ok(());
    }
    if mode != JobMode::JobFail && jobs.is_suspends_replace_with(stage) {
        return Ok(());
    }
    Err(JobErrno::JobErrConflict)
}

/// [`trans_fallback`] along the relation for a failed start.
pub fn trans_fallback_start(jobs: &mut JobTable, dep: &UnitDep, unit: usize) -> (r: Vec<Job>)
    ensures
        final(jobs)@ == fallback(old(jobs)@, dep@, unit, JobKind::JobStart).0,
        r@ == fallback(old(jobs)@, dep@, unit, JobKind::JobStart).1,
{
    trans_fallback(jobs, dep, unit, UnitRelationAtom::UnitAtomPropagateStartFailure)
}

/// [`trans_fallback`] along the relation for a failed stop.
pub fn trans_fallback_stop(jobs: &mut JobTable, dep: &UnitDep, unit: usize) -> (r: Vec<Job>)
    ensures
        final(jobs)@ == fallback(old(jobs)@, dep@, unit, JobKind::JobStop).0,
        r@ == fallback(old(jobs)@, dep@, unit, JobKind::JobStop).1,
{
    trans_fallback(jobs, dep, unit, UnitRelationAtom::UnitAtomPropagateStopFailure)
}

/// Gives up the waiting starts and verifications on the units that
/// `unit` reaches over `atom`.
pub fn trans_fallback(jobs: &mut JobTable, dep: &UnitDep, unit: usize, atom: UnitRelationAtom) -> (r:
    Vec<Job>)
    ensures
        final(jobs)@ == fallback_list(
            old(jobs)@,
            atom_targets(dep@, unit, atom),
            atom_targets(dep@, unit, atom).len() as int,
        ).0,
        r@ == fallback_list(
            old(jobs)@,
            atom_targets(dep@, unit, atom),
            atom_targets(dep@, unit, atom).len() as int,
        ).1,
{
    let mut del_jobs: Vec<Job> = Vec::new();
    let targets = dep.gets_atom(unit, atom);
    let mut i: usize = 0;
    while i < targets.len()
        invariant
            i <= targets.len(),
            jobs@ == fallback_list(old(jobs)@, targets@, i as int).0,
            del_jobs@ == fallback_list(old(jobs)@, targets@, i as int).1,
        decreases targets.len() - i,
    {
        let mut removed = jobs.remove_suspends(
            targets[i],
            JobKind::JobStart,
            Some(JobKind::JobVerify),
            JobResult::JobDependency,
        );
        del_jobs.append(&mut removed);
        i += 1;
    }
    del_jobs
}

} // verus!
