//! Job tables. A table serves either as the suspend table, in which a
//! transaction is put together, or as the run table of committed jobs.
use crate::job_entry::{
    job_conflicts, job_is_conflicting, job_merge, job_merge_kinds, job_new, job_id_next,
    job_run_kind, job_run_kind_spec, Job, JobAlloc, JobConf, JobKind, JobMode, JobResult,
    JobStage,
};
use crate::unit_sets::{active_or_reloading, UnitSets, UnitType, UnitX};
use vstd::prelude::*;

verus! {

/// Some job of the table serves `conf`.
pub open spec fn has_conf(jobs: Seq<Job>, conf: JobConf) -> bool {
    exists|i: int| 0 <= i < jobs.len() && (#[trigger] jobs[i]).conf() == conf
}

/// No job of the table is on `unit`.
pub open spec fn unit_empty(jobs: Seq<Job>, unit: usize) -> bool {
    forall|i: int| 0 <= i < jobs.len() ==> (#[trigger] jobs[i]).unit != unit
}

/// What a suspend table over a registry of `units` entries upholds: its
/// jobs are on registered units, and no two of them serve the same
/// request.
pub open spec fn suspends_wf(jobs: Seq<Job>, units: int) -> bool {
    &&& forall|i: int| 0 <= i < jobs.len() ==> (#[trigger] jobs[i]).unit < units
    &&& forall|i: int, j: int|
        0 <= i < j < jobs.len() ==> (#[trigger] jobs[i]).conf() != (#[trigger] jobs[j]).conf()
}

/// What the run table upholds: at most one job on each unit.
pub open spec fn runs_wf(jobs: Seq<Job>) -> bool {
    forall|i: int, j: int|
        0 <= i < j < jobs.len() ==> (#[trigger] jobs[i]).unit != (#[trigger] jobs[j]).unit
}

/// Two jobs of the table are on one unit and conflict.
pub open spec fn suspends_conflict(jobs: Seq<Job>) -> bool {
    exists|i: int, j: int|
        0 <= i < jobs.len() && 0 <= j < jobs.len() && (#[trigger] jobs[i]).unit == (
        #[trigger] jobs[j]).unit && job_conflicts(jobs[i].kind, jobs[j].kind)
}

/// A job of `jobs` and a job of `stage` are on one unit and conflict.
pub open spec fn suspends_conflict_with(jobs: Seq<Job>, stage: Seq<Job>) -> bool {
    exists|i: int, j: int|
        0 <= i < jobs.len() && 0 <= j < stage.len() && (#[trigger] jobs[i]).unit == (
        #[trigger] stage[j]).unit && job_conflicts(jobs[i].kind, stage[j].kind)
}

/// Every job of `jobs` that conflicts with a job of `stage` on its unit
/// can be replaced.
pub open spec fn suspends_replace_with(jobs: Seq<Job>, stage: Seq<Job>) -> bool {
    forall|i: int, j: int|
        0 <= i < jobs.len() && 0 <= j < stage.len() && (#[trigger] jobs[i]).unit == (
        #[trigger] stage[j]).unit && job_conflicts(jobs[i].kind, stage[j].kind)
            ==> jobs[i].replaceable()
}

/// The table after recording `conf`: unchanged where a job already serves
/// it, and otherwise with the new waiting job at the end.
pub open spec fn recorded(jobs: Seq<Job>, next: u64, conf: JobConf, mode: JobMode) -> Seq<Job> {
    if has_conf(jobs, conf) {
        jobs
    } else {
        jobs.push(job_new(next, conf, mode))
    }
}

/// A waiting job on `unit` of kind `kind`, or of the kind `also` where one
/// is given.
pub open spec fn removable(job: Job, unit: usize, kind: JobKind, also: Option<JobKind>) -> bool {
    job.unit == unit && job.stage == JobStage::JobWait && (job.kind == kind || Some(job.kind)
        == also)
}

/// The jobs that stay when the [`removable`] ones leave, in order.
pub open spec fn jobs_kept(jobs: Seq<Job>, unit: usize, kind: JobKind, also: Option<JobKind>) -> Seq<
    Job,
>
    decreases jobs.len(),
{
    if jobs.len() == 0 {
        Seq::empty()
    } else {
        let rest = jobs_kept(jobs.drop_last(), unit, kind, also);
        if removable(jobs.last(), unit, kind, also) {
            rest
        } else {
            rest.push(jobs.last())
        }
    }
}

/// The [`removable`] jobs, in order, each marked with `result`.
pub open spec fn jobs_removed(
    jobs: Seq<Job>,
    unit: usize,
    kind: JobKind,
    also: Option<JobKind>,
    result: JobResult,
) -> Seq<Job>
    decreases jobs.len(),
{
    if jobs.len() == 0 {
        Seq::empty()
    } else {
        let rest = jobs_removed(jobs.drop_last(), unit, kind, also, result);
        if removable(jobs.last(), unit, kind, also) {
            rest.push(Job { result: Some(result), ..jobs.last() })
        } else {
            rest
        }
    }
}

/// The first place among the first `upto` jobs that holds a job on `unit`.
pub open spec fn unit_job_index(jobs: Seq<Job>, unit: usize, upto: int) -> Option<int>
    decreases upto,
{
    if upto <= 0 || upto > jobs.len() {
        None
    } else {
        match unit_job_index(jobs, unit, upto - 1) {
            Some(i) => Some(i),
            None => if jobs[upto - 1].unit == unit {
                Some(upto - 1)
            } else {
                None
            },
        }
    }
}

/// Whether the unit at `unit` is up, as far as the registry knows.
pub open spec fn unit_is_active(units: Seq<UnitX>, unit: usize) -> bool {
    unit < units.len() && active_or_reloading(units[unit as int].active_state)
}

/// Whether the unit at `unit` is of a type that can reload.
pub open spec fn unit_can_reload(units: Seq<UnitX>, unit: usize) -> bool {
    unit < units.len() && units[unit as int].unit_type == UnitType::UnitService
}

/// The job as it enters the run table: waiting, with the phase that its
/// kind begins with on its unit.
pub open spec fn job_committed(job: Job, units: Seq<UnitX>) -> Job {
    Job {
        run_kind: job_run_kind_spec(
            job.kind,
            unit_is_active(units, job.unit),
            unit_can_reload(units, job.unit),
        ),
        stage: JobStage::JobWait,
        result: None,
        ..job
    }
}

/// The job that serves both `held`, which the run table has, and `job`,
/// which arrives with kind `merged` for the two: `held` itself where its
/// kind already serves both; otherwise `held` with the merged kind and its
/// first phase. Either way a job that arrives irreversible makes the
/// result irreversible.
pub open spec fn job_merged(held: Job, job: Job, merged: JobKind, units: Seq<UnitX>) -> Job {
    let mode = if job.mode == JobMode::JobReplaceIrreversible {
        job.mode
    } else {
        held.mode
    };
    if merged == held.kind {
        Job { mode, ..held }
    } else {
        Job {
            kind: merged,
            run_kind: job_run_kind_spec(
                merged,
                unit_is_active(units, held.unit),
                unit_can_reload(units, held.unit),
            ),
            mode,
            ..held
        }
    }
}

/// The run table and the list of cancelled jobs after `job` has been
/// committed. A unit without a job gets `job`. A job on the same unit is
/// merged with `job` where the kinds allow it; where they conflict,
/// `job` takes its place and the job that was there is cancelled.
pub open spec fn commit_one(runs: Seq<Job>, cancelled: Seq<Job>, job: Job, units: Seq<UnitX>) -> (
    Seq<Job>,
    Seq<Job>,
) {
    match unit_job_index(runs, job.unit, runs.len() as int) {
        None => (runs.push(job_committed(job, units)), cancelled),
        Some(k) => match job_merge(runs[k].kind, job.kind) {
            Some(merged) => (runs.update(k, job_merged(runs[k], job, merged, units)), cancelled),
            None => (
                runs.update(k, job_committed(job, units)),
                cancelled.push(Job { result: Some(JobResult::JobCancelled), ..runs[k] }),
            ),
        },
    }
}

/// [`commit_one`] for each of the first `upto` jobs of `stage`, in order.
pub open spec fn commit_all(runs: Seq<Job>, stage: Seq<Job>, units: Seq<UnitX>, upto: int) -> (
    Seq<Job>,
    Seq<Job>,
)
    decreases upto,
{
    if upto <= 0 || upto > stage.len() {
        (runs, Seq::empty())
    } else {
        let before = commit_all(runs, stage, units, upto - 1);
        commit_one(before.0, before.1, stage[upto - 1], units)
    }
}

/// [`unit_job_index`] finds a job on `unit` exactly when there is one, and
/// then the first.
pub proof fn lemma_unit_job_index(jobs: Seq<Job>, unit: usize, upto: int)
    requires
        0 <= upto <= jobs.len(),
    ensures
        match unit_job_index(jobs, unit, upto) {
            Some(i) => 0 <= i < upto && jobs[i].unit == unit && forall|k: int|
                0 <= k < i ==> (#[trigger] jobs[k]).unit != unit,
            None => forall|k: int| 0 <= k < upto ==> (#[trigger] jobs[k]).unit != unit,
        },
    decreases upto,
{
    if upto > 0 {
        lemma_unit_job_index(jobs, unit, upto - 1);
    }
}

proof fn lemma_unit_job_index_found(jobs: Seq<Job>, unit: usize, i: int, upto: int)
    requires
        0 <= i < upto <= jobs.len(),
        unit_job_index(jobs, unit, i) is None,
        jobs[i].unit == unit,
    ensures
        unit_job_index(jobs, unit, upto) == Some(i),
    decreases upto - i,
{
    if upto > i + 1 {
        lemma_unit_job_index_found(jobs, unit, i, upto - 1);
    }
}

/// Committing one job keeps the run table at one job for each unit.
pub proof fn lemma_commit_one_wf(runs: Seq<Job>, cancelled: Seq<Job>, job: Job, units: Seq<UnitX>)
    requires
        runs_wf(runs),
    ensures
        runs_wf(commit_one(runs, cancelled, job, units).0),
        !unit_empty(commit_one(runs, cancelled, job, units).0, job.unit),
        forall|u: usize|
            u != job.unit ==> (unit_empty(runs, u) <==> unit_empty(
                commit_one(runs, cancelled, job, units).0,
                u,
            )),
{
    lemma_unit_job_index(runs, job.unit, runs.len() as int);
    let after = commit_one(runs, cancelled, job, units).0;
    match unit_job_index(runs, job.unit, runs.len() as int) {
        None => {
            assert(after[runs.len() as int].unit == job.unit);
            assert forall|u: usize| u != job.unit implies (unit_empty(runs, u) <==> unit_empty(
                after,
                u,
            )) by {
                if !unit_empty(runs, u) {
                    let i = choose|i: int| 0 <= i < runs.len() && (#[trigger] runs[i]).unit == u;
                    assert(after[i].unit == u);
                }
                if !unit_empty(after, u) {
                    let i = choose|i: int| 0 <= i < after.len() && (#[trigger] after[i]).unit == u;
                    assert(runs[i].unit == u);
                }
            }
        },
        Some(k) => {
            assert(after[k].unit == job.unit);
            assert forall|u: usize| u != job.unit implies (unit_empty(runs, u) <==> unit_empty(
                after,
                u,
            )) by {
                if !unit_empty(runs, u) {
                    let i = choose|i: int| 0 <= i < runs.len() && (#[trigger] runs[i]).unit == u;
                    assert(after[i].unit == u);
                }
                if !unit_empty(after, u) {
                    let i = choose|i: int| 0 <= i < after.len() && (#[trigger] after[i]).unit == u;
                    assert(runs[i].unit == u);
                }
            }
        },
    }
}

/// Committing a suspend table keeps the run table at one job for each
/// unit.
pub proof fn lemma_commit_all_wf(runs: Seq<Job>, stage: Seq<Job>, units: Seq<UnitX>, upto: int)
    requires
        runs_wf(runs),
        0 <= upto <= stage.len(),
    ensures
        runs_wf(commit_all(runs, stage, units, upto).0),
    decreases upto,
{
    if upto > 0 {
        lemma_commit_all_wf(runs, stage, units, upto - 1);
        let before = commit_all(runs, stage, units, upto - 1);
        lemma_commit_one_wf(before.0, before.1, stage[upto - 1], units);
    }
}

/// Every job that stays when jobs are taken out was there before, and
/// the jobs that stay keep their order.
pub proof fn lemma_jobs_kept(jobs: Seq<Job>, unit: usize, kind: JobKind, also: Option<JobKind>)
    ensures
        jobs_kept(jobs, unit, kind, also).len() <= jobs.len(),
        forall|k: int|
            0 <= k < jobs_kept(jobs, unit, kind, also).len() ==> exists|i: int|
                k <= i < jobs.len() && jobs[i] == #[trigger] jobs_kept(jobs, unit, kind, also)[k],
        runs_wf(jobs) ==> runs_wf(jobs_kept(jobs, unit, kind, also)),
    decreases jobs.len(),
{
    if jobs.len() > 0 {
        let rest = jobs.drop_last();
        lemma_jobs_kept(rest, unit, kind, also);
        let kept = jobs_kept(jobs, unit, kind, also);
        let kept_rest = jobs_kept(rest, unit, kind, also);
        assert forall|k: int| 0 <= k < kept.len() implies exists|i: int|
            k <= i < jobs.len() && jobs[i] == #[trigger] kept[k] by {
            if k < kept_rest.len() {
                let i = choose|i: int| k <= i < rest.len() && rest[i] == kept_rest[k];
                assert(jobs[i] == kept[k]);
            } else {
                assert(jobs[jobs.len() - 1] == kept[k]);
            }
        }
        if runs_wf(jobs) {
            assert(runs_wf(rest)) by {
                assert forall|i: int, j: int| 0 <= i < j < rest.len() implies (
                #[trigger] rest[i]).unit != (#[trigger] rest[j]).unit by {
                    assert(jobs[i].unit != jobs[j].unit);
                }
            }
            assert forall|a: int, b: int| 0 <= a < b < kept.len() implies (#[trigger] kept[a]).unit
                != (#[trigger] kept[b]).unit by {
                if b < kept_rest.len() {
                    assert(kept_rest[a].unit != kept_rest[b].unit);
                } else {
                    let i = choose|i: int| a <= i < rest.len() && rest[i] == kept_rest[a];
                    assert(jobs[i].unit != jobs[jobs.len() - 1].unit);
                }
            }
        }
    }
}

/// A job that stays was not one to take out, and a unit without a job
/// has none afterwards.
pub proof fn lemma_jobs_kept_empty(
    jobs: Seq<Job>,
    unit: usize,
    kind: JobKind,
    also: Option<JobKind>,
    other: usize,
)
    requires
        unit_empty(jobs, other),
    ensures
        unit_empty(jobs_kept(jobs, unit, kind, also), other),
{
    lemma_jobs_kept(jobs, unit, kind, also);
    let kept = jobs_kept(jobs, unit, kind, also);
    assert forall|k: int| 0 <= k < kept.len() implies (#[trigger] kept[k]).unit != other by {
        let i = choose|i: int| k <= i < jobs.len() && jobs[i] == kept[k];
        assert(jobs[i].unit != other);
    }
}

/// No unit has two entries in the run table, whatever phase they are in.
pub proof fn lemma_runs_one_per_run_kind(jobs: Seq<Job>, i: int, j: int)
    requires
        runs_wf(jobs),
        0 <= i < jobs.len(),
        0 <= j < jobs.len(),
        jobs[i].unit == jobs[j].unit,
        jobs[i].run_kind == jobs[j].run_kind,
    ensures
        i == j,
{
}

/// The conflict check between two tables does not depend on which table
/// is asked.
pub proof fn lemma_conflict_with_symmetric(a: Seq<Job>, b: Seq<Job>)
    ensures
        suspends_conflict_with(a, b) == suspends_conflict_with(b, a),
{
    if suspends_conflict_with(a, b) {
        let (i, j) = choose|i: int, j: int|
            0 <= i < a.len() && 0 <= j < b.len() && (#[trigger] a[i]).unit == (#[trigger] b[j]).unit
                && job_conflicts(a[i].kind, b[j].kind);
        assert(b[j].unit == a[i].unit && job_conflicts(b[j].kind, a[i].kind));
    }
    if suspends_conflict_with(b, a) {
        let (i, j) = choose|i: int, j: int|
            0 <= i < b.len() && 0 <= j < a.len() && (#[trigger] b[i]).unit == (#[trigger] a[j]).unit
                && job_conflicts(b[i].kind, a[j].kind);
        assert(a[j].unit == b[i].unit && job_conflicts(a[j].kind, b[i].kind));
    }
}

/// A table of jobs.
pub struct JobTable {
    jobs: Vec<Job>,
}

impl View for JobTable {
    type V = Seq<Job>;

    closed spec fn view(&self) -> Seq<Job> {
        self.jobs@
    }
}

impl JobTable {
    pub fn new() -> (r: JobTable)
        ensures
            r@.len() == 0,
    {
        JobTable { jobs: Vec::new() }
    }

    pub fn len(&self) -> (r: usize)
        ensures
            r == self@.len(),
    {
        self.jobs.len()
    }

    /// The job at place `index`.
    pub fn get(&self, index: usize) -> (r: Option<Job>)
        ensures
            r == if index < self@.len() {
                Some(self@[index as int])
            } else {
                None
            },
    {
        if index < self.jobs.len() {
            Some(self.jobs[index])
        } else {
            None
        }
    }

    /// The jobs, in the order of the table.
    pub fn jobs(&self) -> (r: Vec<Job>)
        ensures
            r@ == self@,
    {
        let mut out: Vec<Job> = Vec::new();
        let mut i: usize = 0;
        while i < self.jobs.len()
            invariant
                i <= self.jobs.len(),
                out@ == self@.take(i as int),
            decreases self.jobs.len() - i,
        {
            out.push(self.jobs[i]);
            proof {
                assert(self@.take(i + 1) == self@.take(i as int).push(self@[i as int]));
            }
            i += 1;
        }
        proof {
            assert(self@.take(self@.len() as int) == self@);
        }
        out
    }

    /// Whether a job serves `conf`.
    pub fn has(&self, conf: &JobConf) -> (r: bool)
        ensures
            r == has_conf(self@, *conf),
    {
        let mut i: usize = 0;
        while i < self.jobs.len()
            invariant
                i <= self.jobs.len(),
                forall|k: int| 0 <= k < i ==> (#[trigger] self@[k]).conf() != *conf,
            decreases self.jobs.len() - i,
        {
            let job = self.jobs[i];
            if job.unit == conf.unit && job.kind == conf.kind {
                assert(self@[i as int].conf() == *conf);
                return true;
            }
            i += 1;
        }
        false
    }

    /// The place of the first job on `unit`.
    pub fn find_unit(&self, unit: usize) -> (r: Option<usize>)
        ensures
            match r {
                Some(i) => i < self@.len() && self@[i as int].unit == unit && unit_job_index(
                    self@,
                    unit,
                    self@.len() as int,
                ) == Some(i as int),
                None => unit_job_index(self@, unit, self@.len() as int) is None,
            },
    {
        let mut i: usize = 0;
        while i < self.jobs.len()
            invariant
                i <= self.jobs.len(),
                unit_job_index(self@, unit, i as int) is None,
            decreases self.jobs.len() - i,
        {
            if self.jobs[i].unit == unit {
                proof {
                    lemma_unit_job_index_found(self@, unit, i as int, self@.len() as int);
                }
                return Some(i);
            }
            i += 1;
        }
        None
    }

    /// Records a waiting job for `conf` unless one is there, and says
    /// whether it was new.
    pub fn record_suspend(&mut self, ja: &mut JobAlloc, conf: JobConf, mode: JobMode) -> (new: bool)
        ensures
            new == !has_conf(old(self)@, conf),
            final(self)@ == recorded(old(self)@, old(ja).next_id(), conf, mode),
            final(ja).next_id() == if new {
                job_id_next(old(ja).next_id())
            } else {
                old(ja).next_id()
            },
    {
        if self.has(&conf) {
            return false;
        }
        let job = ja.alloc_job(conf, mode);
        self.jobs.push(job);
        true
    }

    /// Whether no job is on `unit`.
    pub fn is_unit_empty(&self, unit: usize) -> (r: bool)
        ensures
            r == unit_empty(self@, unit),
    {
        let mut i: usize = 0;
        while i < self.jobs.len()
            invariant
                i <= self.jobs.len(),
                forall|k: int| 0 <= k < i ==> (#[trigger] self@[k]).unit != unit,
            decreases self.jobs.len() - i,
        {
            if self.jobs[i].unit == unit {
                return false;
            }
            i += 1;
        }
        true
    }

    /// Whether two jobs of this table conflict on one unit.
    pub fn is_suspends_conflict(&self) -> (r: bool)
        ensures
            r == suspends_conflict(self@),
    {
        self.conflicts_with(self)
    }

    /// Whether a job of this table conflicts with a job of `other` on one
    /// unit.
    pub fn is_suspends_conflict_with(&self, other: &JobTable) -> (r: bool)
        ensures
            r == suspends_conflict_with(self@, other@),
    {
        self.conflicts_with(other)
    }

    fn conflicts_with(&self, other: &JobTable) -> (r: bool)
        ensures
            r == suspends_conflict_with(self@, other@),
            r == (exists|i: int, j: int|
                0 <= i < self@.len() && 0 <= j < other@.len() && (#[trigger] self@[i]).unit == (
                #[trigger] other@[j]).unit && job_conflicts(self@[i].kind, other@[j].kind)),
    {
        let mut i: usize = 0;
        while i < self.jobs.len()
            invariant
                i <= self.jobs.len(),
                forall|a: int, b: int|
                    0 <= a < i && 0 <= b < other@.len() ==> !((#[trigger] self@[a]).unit == (
                    #[trigger] other@[b]).unit && job_conflicts(self@[a].kind, other@[b].kind)),
            decreases self.jobs.len() - i,
        {
            let mine = self.jobs[i];
            let mut j: usize = 0;
            while j < other.jobs.len()
                invariant
                    i < self.jobs.len(),
                    j <= other.jobs.len(),
                    mine == self@[i as int],
                    forall|b: int|
                        0 <= b < j ==> !(mine.unit == (#[trigger] other@[b]).unit && job_conflicts(
                            mine.kind,
                            other@[b].kind,
                        )),
                decreases other.jobs.len() - j,
            {
                let theirs = other.jobs[j];
                if mine.unit == theirs.unit && job_is_conflicting(mine.kind, theirs.kind) {
                    assert(self@[i as int].unit == other@[j as int].unit && job_conflicts(
                        self@[i as int].kind,
                        other@[j as int].kind,
                    ));
                    return true;
                }
                j += 1;
            }
            i += 1;
        }
        false
    }

    /// Whether every job of this table that conflicts with a job of
    /// `other` on its unit can be replaced.
    pub fn is_suspends_replace_with(&self, other: &JobTable) -> (r: bool)
        ensures
            r == suspends_replace_with(self@, other@),
    {
        let mut i: usize = 0;
        while i < self.jobs.len()
            invariant
                i <= self.jobs.len(),
                forall|a: int, b: int|
                    0 <= a < i && 0 <= b < other@.len() && (#[trigger] self@[a]).unit == (
                    #[trigger] other@[b]).unit && job_conflicts(self@[a].kind, other@[b].kind)
                        ==> self@[a].replaceable(),
            decreases self.jobs.len() - i,
        {
            let mine = self.jobs[i];
            let mut j: usize = 0;
            while j < other.jobs.len()
                invariant
                    i < self.jobs.len(),
                    j <= other.jobs.len(),
                    mine == self@[i as int],
                    forall|b: int|
                        0 <= b < j && mine.unit == (#[trigger] other@[b]).unit && job_conflicts(
                            mine.kind,
                            other@[b].kind,
                        ) ==> mine.replaceable(),
                decreases other.jobs.len() - j,
            {
                let theirs = other.jobs[j];
                if mine.unit == theirs.unit && job_is_conflicting(mine.kind, theirs.kind)
                    && !mine.is_replaceable() {
                    assert(self@[i as int].unit == other@[j as int].unit && job_conflicts(
                        self@[i as int].kind,
                        other@[j as int].kind,
                    ) && !self@[i as int].replaceable());
                    return false;
                }
                j += 1;
            }
            i += 1;
        }
        true
    }

    /// Takes out the waiting jobs on `unit` whose kind is `kind` or
    /// `also`, and returns them marked with `result`.
    pub fn remove_suspends(
        &mut self,
        unit: usize,
        kind: JobKind,
        also: Option<JobKind>,
        result: JobResult,
    ) -> (removed: Vec<Job>)
        ensures
            final(self)@ == jobs_kept(old(self)@, unit, kind, also),
            removed@ == jobs_removed(old(self)@, unit, kind, also, result),
    {
        let mut kept: Vec<Job> = Vec::new();
        let mut removed: Vec<Job> = Vec::new();
        let mut i: usize = 0;
        while i < self.jobs.len()
            invariant
                i <= self.jobs.len(),
                self@ == old(self)@,
                kept@ == jobs_kept(self@.take(i as int), unit, kind, also),
                removed@ == jobs_removed(self@.take(i as int), unit, kind, also, result),
            decreases self.jobs.len() - i,
        {
            let job = self.jobs[i];
            proof {
                assert(self@.take(i + 1).drop_last() == self@.take(i as int));
                assert(self@.take(i + 1).last() == job);
            }
            let same_kind = job.kind == kind || match also {
                Some(k) => job.kind == k,
                None => false,
            };
            if job.unit == unit && job.stage == JobStage::JobWait && same_kind {
                removed.push(
                    Job {
                        id: job.id,
                        unit: job.unit,
                        kind: job.kind,
                        run_kind: job.run_kind,
                        mode: job.mode,
                        stage: job.stage,
                        result: Some(result),
                    },
                );
            } else {
                kept.push(job);
            }
            i += 1;
        }
        proof {
            assert(self@.take(self@.len() as int) == self@);
        }
        self.jobs = kept;
        removed
    }

    /// Takes the job with identifier `id` out of the table and returns it
    /// marked as cancelled.
    pub fn cancel(&mut self, id: u64) -> (r: Option<Job>)
        ensures
            match r {
                Some(job) => exists|i: int|
                    0 <= i < old(self)@.len() && (#[trigger] old(self)@[i]).id == id && (forall|
                        k: int,
                    |
                        0 <= k < i ==> (#[trigger] old(self)@[k]).id != id) && job == (Job {
                        result: Some(JobResult::JobCancelled),
                        ..old(self)@[i]
                    }) && final(self)@ == old(self)@.remove(i),
                None => final(self)@ == old(self)@ && forall|i: int|
                    0 <= i < old(self)@.len() ==> (#[trigger] old(self)@[i]).id != id,
            },
            runs_wf(old(self)@) ==> runs_wf(final(self)@),
    {
        let mut i: usize = 0;
        while i < self.jobs.len()
            invariant
                i <= self.jobs.len(),
                self@ == old(self)@,
                forall|k: int| 0 <= k < i ==> (#[trigger] self@[k]).id != id,
            decreases self.jobs.len() - i,
        {
            if self.jobs[i].id == id {
                let job = self.jobs.remove(i);
                return Some(
                    Job {
                        id: job.id,
                        unit: job.unit,
                        kind: job.kind,
                        run_kind: job.run_kind,
                        mode: job.mode,
                        stage: job.stage,
                        result: Some(JobResult::JobCancelled),
                    },
                );
            }
            i += 1;
        }
        None
    }

    /// Commits the jobs of `stage` to this run table, in order, and
    /// returns the jobs that had to give way.
    pub fn commit(&mut self, stage: &JobTable, units: &UnitSets) -> (cancelled: Vec<Job>)
        ensures
            final(self)@ == commit_all(old(self)@, stage@, units@, stage@.len() as int).0,
            cancelled@ == commit_all(old(self)@, stage@, units@, stage@.len() as int).1,
            runs_wf(old(self)@) ==> runs_wf(final(self)@),
    {
        let mut cancelled: Vec<Job> = Vec::new();
        let mut i: usize = 0;
        while i < stage.jobs.len()
            invariant
                i <= stage.jobs.len(),
                self@ == commit_all(old(self)@, stage@, units@, i as int).0,
                cancelled@ == commit_all(old(self)@, stage@, units@, i as int).1,
            decreases stage.jobs.len() - i,
        {
            let job = stage.jobs[i];
            let active = job.unit < units.len() && units.unit(job.unit).is_active_or_reloading();
            let can_reload = job.unit < units.len() && units.unit(job.unit).unit_type
                == UnitType::UnitService;
            let fresh = Job {
                id: job.id,
                unit: job.unit,
                kind: job.kind,
                run_kind: job_run_kind(job.kind, active, can_reload),
                mode: job.mode,
                stage: JobStage::JobWait,
                result: None,
            };
            assert(fresh == job_committed(job, units@));
            match self.find_unit(job.unit) {
                None => {
                    self.jobs.push(fresh);
                },
                Some(k) => {
                    proof {
                        lemma_unit_job_index(self@, job.unit, self@.len() as int);
                    }
                    let held = self.jobs[k];
                    match job_merge_kinds(held.kind, job.kind) {
                        Some(merged) => {
                            let mode = if job.mode == JobMode::JobReplaceIrreversible {
                                job.mode
                            } else {
                                held.mode
                            };
                            let run_kind = if merged == held.kind {
                                held.run_kind
                            } else {
                                job_run_kind(merged, active, can_reload)
                            };
                            let both = Job {
                                id: held.id,
                                unit: held.unit,
                                kind: merged,
                                run_kind,
                                mode,
                                stage: held.stage,
                                result: held.result,
                            };
                            assert(both == job_merged(held, job, merged, units@));
                            self.jobs.set(k, both);
                        },
                        None => {
                            cancelled.push(
                                Job {
                                    id: held.id,
                                    unit: held.unit,
                                    kind: held.kind,
                                    run_kind: held.run_kind,
                                    mode: held.mode,
                                    stage: held.stage,
                                    result: Some(JobResult::JobCancelled),
                                },
                            );
                            self.jobs.set(k, fresh);
                        },
                    }
                },
            }
            i += 1;
        }
        proof {
            if runs_wf(old(self)@) {
                lemma_commit_all_wf(old(self)@, stage@, units@, stage@.len() as int);
            }
        }
        cancelled
    }

    /// Marks the waiting job on `unit` as running and returns it.
    pub fn start_unit_job(&mut self, unit: usize) -> (r: Option<Job>)
        ensures
            match unit_job_index(old(self)@, unit, old(self)@.len() as int) {
                Some(i) => if old(self)@[i].stage == JobStage::JobWait {
                    r == Some(Job { stage: JobStage::JobRunning, ..old(self)@[i] }) && final(self)@
                        == old(self)@.update(i, r->0)
                } else {
                    r is None && final(self)@ == old(self)@
                },
                None => r is None && final(self)@ == old(self)@,
            },
            runs_wf(old(self)@) ==> runs_wf(final(self)@),
    {
        match self.find_unit(unit) {
            None => None,
            Some(i) => {
                let job = self.jobs[i];
                if job.stage == JobStage::JobWait {
                    let running = Job {
                        id: job.id,
                        unit: job.unit,
                        kind: job.kind,
                        run_kind: job.run_kind,
                        mode: job.mode,
                        stage: JobStage::JobRunning,
                        result: job.result,
                    };
                    self.jobs.set(i, running);
                    Some(running)
                } else {
                    None
                }
            },
        }
    }

    /// Puts the job at place `index` back to waiting, for the phase
    /// `phase`.
    pub fn next_phase(&mut self, index: usize, phase: JobKind)
        requires
            index < old(self)@.len(),
        ensures
            final(self)@ == old(self)@.update(
                index as int,
                (Job { run_kind: phase, stage: JobStage::JobWait, ..old(self)@[index as int] }),
            ),
            runs_wf(old(self)@) ==> runs_wf(final(self)@),
    {
        let job = self.jobs[index];
        self.jobs.set(
            index,
            Job {
                id: job.id,
                unit: job.unit,
                kind: job.kind,
                run_kind: phase,
                mode: job.mode,
                stage: JobStage::JobWait,
                result: job.result,
            },
        );
    }

    /// Takes the job at place `index` out of the table and returns it
    /// marked with `result`.
    pub fn remove_at(&mut self, index: usize, result: JobResult) -> (r: Job)
        requires
            index < old(self)@.len(),
        ensures
            final(self)@ == old(self)@.remove(index as int),
            r == (Job { result: Some(result), ..old(self)@[index as int] }),
            runs_wf(old(self)@) ==> runs_wf(final(self)@),
    {
        let job = self.jobs.remove(index);
        Job {
            id: job.id,
            unit: job.unit,
            kind: job.kind,
            run_kind: job.run_kind,
            mode: job.mode,
            stage: job.stage,
            result: Some(result),
        }
    }

    /// Forgets every job.
    pub fn clear(&mut self)
        ensures
            final(self)@.len() == 0,
    {
        self.jobs.clear();
    }
}

} // verus!
