//! The job engine: the run table, and transactions that change it all at
//! once or not at all.
use crate::error::JobErrno;
use crate::job_entry::{
    job_next_phase, job_next_phase_spec, Job, JobAlloc, JobConf, JobKind, JobMode, JobResult,
    JobStage,
};
use crate::job_table::{
    commit_all, lemma_unit_job_index, runs_wf, unit_empty, unit_job_index, JobTable,
};
use crate::job_transaction::{
    affect, expand, fallback, fallback_atom, job_id_after, job_trans_affect, job_trans_expand,
    job_trans_fallback, job_trans_verify, lemma_fallback_wf, lemma_job_id_after, verify,
};
use crate::unit_dep::{atom_targets, UnitDep, UnitDepEdge};
use crate::unit_sets::{UnitSets, UnitX};
use vstd::prelude::*;

verus! {

/// The suspend table that a request builds from nothing: the request
/// expanded, then what its mode adds. Triggering is for stops only.
pub open spec fn transaction_stage(
    units: Seq<UnitX>,
    dep: Seq<UnitDepEdge>,
    mode: JobMode,
    next: u64,
    conf: JobConf,
) -> Result<Seq<Job>, JobErrno> {
    if mode == JobMode::JobTrigger && conf.kind != JobKind::JobStop {
        Err(JobErrno::JobErrInput)
    } else {
        let expanded = expand(units, dep, mode, Seq::empty(), next, conf);
        match expanded.1 {
            Err(e) => Err(e),
            Ok(()) => Ok(
                expanded.0 + affect(
                    units,
                    dep,
                    mode,
                    expanded.0,
                    job_id_after(next, expanded.0.len()),
                    conf,
                ),
            ),
        }
    }
}

/// What a transaction comes to: the failure of its build or of its
/// check, or else the suspend table that is committed.
pub open spec fn transaction(
    units: Seq<UnitX>,
    dep: Seq<UnitDepEdge>,
    mode: JobMode,
    jobs: Seq<Job>,
    next: u64,
    conf: JobConf,
) -> Result<Seq<Job>, JobErrno> {
    match transaction_stage(units, dep, mode, next, conf) {
        Err(e) => Err(e),
        Ok(stage) => match verify(stage, jobs, mode) {
            Err(e) => Err(e),
            Ok(()) => Ok(stage),
        },
    }
}

/// The run table after the job at place `at` has ended its phase with
/// `result`: a job that ended well and has a further phase waits for it;
/// any other job leaves the table.
pub open spec fn finished(jobs: Seq<Job>, at: int, result: JobResult) -> Seq<Job> {
    let job = jobs[at];
    if goes_on(job, result) {
        jobs.update(
            at,
            Job {
                run_kind: job_next_phase_spec(job.kind, job.run_kind)->0,
                stage: JobStage::JobWait,
                ..job
            },
        )
    } else {
        jobs.remove(at)
    }
}

/// Whether a job that ended with `result` drags its dependants down.
pub open spec fn result_fails(result: JobResult) -> bool {
    result != JobResult::JobDone && result != JobResult::JobSkipped
}

/// Whether the job stays in the table for a further phase after its
/// phase has ended with `result`.
pub open spec fn goes_on(job: Job, result: JobResult) -> bool {
    result == JobResult::JobDone && job_next_phase_spec(job.kind, job.run_kind) is Some
}

/// The job engine.
pub struct JobManager {
    jobs: JobTable,
    ja: JobAlloc,
}

impl JobManager {
    /// The run table.
    pub closed spec fn jobs(&self) -> Seq<Job> {
        self.jobs@
    }

    /// The identifier that the next job gets.
    pub closed spec fn next_id(&self) -> u64 {
        self.ja.next_id()
    }

    /// The run table holds at most one job for each unit.
    pub open spec fn wf(&self) -> bool {
        runs_wf(self.jobs())
    }

    pub fn new() -> (r: JobManager)
        ensures
            r.jobs().len() == 0,
            r.next_id() == 1,
            r.wf(),
    {
        JobManager { jobs: JobTable::new(), ja: JobAlloc::new() }
    }

    /// The jobs of the run table, in order.
    pub fn get_jobs(&self) -> (r: Vec<Job>)
        ensures
            r@ == self.jobs(),
    {
        self.jobs.jobs()
    }

    /// The job on `unit`, if it has one.
    pub fn get_unit_job(&self, unit: usize) -> (r: Option<Job>)
        ensures
            r == match unit_job_index(self.jobs(), unit, self.jobs().len() as int) {
                Some(i) => Some(self.jobs()[i]),
                None => None,
            },
            r is None <==> unit_empty(self.jobs(), unit),
    {
        proof {
            lemma_unit_job_index(self.jobs@, unit, self.jobs@.len() as int);
        }
        match self.jobs.find_unit(unit) {
            Some(i) => self.jobs.get(i),
            None => None,
        }
    }

    /// Whether the run table plans to stop `unit`.
    pub fn has_stop_job(&self, unit: usize) -> (r: bool)
        ensures
            r == exists|i: int|
                0 <= i < self.jobs().len() && (#[trigger] self.jobs()[i]).unit == unit
                    && self.jobs()[i].kind == JobKind::JobStop,
    {
        let all = self.jobs.jobs();
        let mut i: usize = 0;
        while i < all.len()
            invariant
                i <= all.len(),
                all@ == self.jobs(),
                forall|k: int|
                    0 <= k < i ==> !((#[trigger] self.jobs()[k]).unit == unit && self.jobs()[k].kind
                        == JobKind::JobStop),
            decreases all.len() - i,
        {
            if all[i].unit == unit && all[i].kind == JobKind::JobStop {
                return true;
            }
            i += 1;
        }
        false
    }

    /// Carries out one transaction: builds the suspend table for `config`
    /// under `mode`, checks it, and commits it. On success the jobs that
    /// had to give way are returned. On failure the run table is as it was.
    pub fn exec(&mut self, units: &UnitSets, dep: &UnitDep, config: &JobConf, mode: JobMode) -> (r:
        Result<Vec<Job>, JobErrno>)
        requires
            old(self).wf(),
        ensures
            final(self).wf(),
            match transaction(
                units@,
                dep@,
                mode,
                old(self).jobs(),
                old(self).next_id(),
                *config,
            ) {
                Err(e) => r == Err::<Vec<Job>, JobErrno>(e) && final(self).jobs() == old(self).jobs(),
                Ok(stage) => r is Ok && final(self).jobs() == commit_all(
                    old(self).jobs(),
                    stage,
                    units@,
                    stage.len() as int,
                ).0 && r->Ok_0@ == commit_all(
                    old(self).jobs(),
                    stage,
                    units@,
                    stage.len() as int,
                ).1 && final(self).next_id() == job_id_after(old(self).next_id(), stage.len()),
            },
            r is Err ==> final(self).jobs() == old(self).jobs(),
    {
        if mode == JobMode::JobTrigger && config.get_kind() != JobKind::JobStop {
            return Err(JobErrno::JobErrInput);
        }
        let ghost next0 = self.ja.next_id();
        let mut stage = JobTable::new();
        proof {
            assert(stage@ =~= Seq::<Job>::empty());
            assert(Seq::<Job>::empty() + expand(
                units@,
                dep@,
                mode,
                Seq::empty(),
                next0,
                *config,
            ).0 =~= expand(units@, dep@, mode, Seq::empty(), next0, *config).0);
        }
        match job_trans_expand(&mut stage, &mut self.ja, units, dep, config, mode) {
            Err(e) => {
                return Err(e);
            },
            Ok(()) => {},
        }
        let ghost expanded = stage@;
        match job_trans_affect(&mut stage, &mut self.ja, units, dep, config, mode) {
            Err(e) => {
                return Err(e);
            },
            Ok(()) => {},
        }
        proof {
            lemma_job_id_after(
                next0,
                expanded.len(),
                (stage@.len() - expanded.len()) as nat,
            );
        }
        match job_trans_verify(&stage, &self.jobs, mode) {
            Err(e) => {
                return Err(e);
            },
            Ok(()) => {},
        }
        let cancelled = self.jobs.commit(&stage, units);
        Ok(cancelled)
    }

    /// Records that the job on `unit` has ended its phase with `result`.
    /// A job that goes on to a further phase stays and nothing is
    /// returned. Any other job leaves the table and is returned first;
    /// where it failed, the waiting jobs that depended on it follow.
    pub fn finish_unit_job(&mut self, dep: &UnitDep, unit: usize, result: JobResult) -> (r: Vec<
        Job,
    >)
        requires
            old(self).wf(),
        ensures
            final(self).wf(),
            final(self).next_id() == old(self).next_id(),
            match unit_job_index(old(self).jobs(), unit, old(self).jobs().len() as int) {
                Some(i) => goes_on(old(self).jobs()[i], result) || unit_empty(
                    final(self).jobs(),
                    unit,
                ),
                None => unit_empty(final(self).jobs(), unit),
            },
            match unit_job_index(old(self).jobs(), unit, old(self).jobs().len() as int) {
                None => final(self).jobs() == old(self).jobs() && r@.len() == 0,
                Some(i) => {
                    let job = old(self).jobs()[i];
                    let after = finished(old(self).jobs(), i, result);
                    if goes_on(job, result) {
                        final(self).jobs() == after && r@.len() == 0
                    } else if result_fails(result) {
                        final(self).jobs() == fallback(after, dep@, unit, job.run_kind).0 && r@
                            == seq![Job { result: Some(result), ..job }] + fallback(
                            after,
                            dep@,
                            unit,
                            job.run_kind,
                        ).1
                    } else {
                        final(self).jobs() == after && r@ == seq![
                            Job { result: Some(result), ..job },
                        ]
                    }
                },
            },
    {
        let mut gone: Vec<Job> = Vec::new();
        proof {
            lemma_unit_job_index(self.jobs@, unit, self.jobs@.len() as int);
        }
        match self.jobs.find_unit(unit) {
            None => {},
            Some(i) => {
                let job = match self.jobs.get(i) {
                    Some(job) => job,
                    None => {
                        return gone;
                    },
                };
                let phase = job_next_phase(job.kind, job.run_kind);
                match phase {
                    Some(next) if result == JobResult::JobDone => {
                        self.jobs.next_phase(i, next);
                    },
                    _ => {
                        let ended = self.jobs.remove_at(i, result);
                        gone.push(ended);
                        proof {
                            let before = old(self).jobs@;
                            let after = self.jobs@;
                            assert forall|k: int| 0 <= k < after.len() implies (
                            #[trigger] after[k]).unit != unit by {
                                if k < i {
                                    assert(after[k] == before[k]);
                                    assert(before[k].unit != before[i as int].unit);
                                } else {
                                    assert(after[k] == before[k + 1]);
                                    assert(before[i as int].unit != before[k + 1].unit);
                                }
                            }
                            let targets = match fallback_atom(job.run_kind) {
                                Some(atom) => atom_targets(dep@, unit, atom),
                                None => Seq::empty(),
                            };
                            lemma_fallback_wf(after, targets, targets.len() as int, unit);
                        }
                        if result != JobResult::JobDone && result != JobResult::JobSkipped {
                            let mut dependants = job_trans_fallback(
                                &mut self.jobs,
                                dep,
                                unit,
                                job.run_kind,
                            );
                            gone.append(&mut dependants);
                        }
                    },
                }
            },
        }
        gone
    }

    /// Takes the job with identifier `id` out of the run table, and with
    /// it the waiting jobs that depended on it. The first job returned is
    /// the cancelled one.
    pub fn cancel(&mut self, dep: &UnitDep, id: u64) -> (r: Option<Vec<Job>>)
        requires
            old(self).wf(),
        ensures
            final(self).wf(),
            final(self).next_id() == old(self).next_id(),
            match r {
                None => final(self).jobs() == old(self).jobs() && forall|i: int|
                    0 <= i < old(self).jobs().len() ==> (#[trigger] old(self).jobs()[i]).id != id,
                Some(gone) => exists|i: int|
                    0 <= i < old(self).jobs().len() && (#[trigger] old(self).jobs()[i]).id == id
                        && final(self).jobs() == fallback(
                        old(self).jobs().remove(i),
                        dep@,
                        old(self).jobs()[i].unit,
                        old(self).jobs()[i].run_kind,
                    ).0 && gone@ == seq![
                        Job { result: Some(JobResult::JobCancelled), ..old(self).jobs()[i] },
                    ] + fallback(
                        old(self).jobs().remove(i),
                        dep@,
                        old(self).jobs()[i].unit,
                        old(self).jobs()[i].run_kind,
                    ).1,
            },
    {
        match self.jobs.cancel(id) {
            None => None,
            Some(job) => {
                let mut gone: Vec<Job> = Vec::new();
                gone.push(job);
                proof {
                    let targets = match fallback_atom(job.run_kind) {
                        Some(atom) => atom_targets(dep@, job.unit, atom),
                        None => Seq::empty(),
                    };
                    lemma_fallback_wf(self.jobs@, targets, targets.len() as int, job.unit);
                }
                let mut dependants = job_trans_fallback(
                    &mut self.jobs,
                    dep,
                    job.unit,
                    job.run_kind,
                );
                gone.append(&mut dependants);
                Some(gone)
            },
        }
    }
}

} // verus!
