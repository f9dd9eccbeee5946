//! Jobs: what may be asked of a unit, and how two requests combine.
use crate::unit_sets::{UnitType, UnitX};
use vstd::prelude::*;

verus! {

/// What a job does to its unit.
#[derive(Clone, Copy, PartialEq, Eq, Debug, Structural)]
pub enum JobKind {
    JobStart,
    JobStop,
    JobReload,
    JobRestart,
    JobVerify,
    JobNop,
    JobTryReload,
    JobTryRestart,
    /// Product of merging a start with a reload.
    JobRestartOrReload,
}

/// How a transaction treats jobs that stand in its way.
#[derive(Clone, Copy, PartialEq, Eq, Debug, Structural)]
pub enum JobMode {
    JobFail,
    JobReplace,
    JobReplaceIrreversible,
    JobIsolate,
    JobFlush,
    JobIgnoreDependencies,
    JobIgnoreRequirements,
    JobTrigger,
}

/// How a job ended.
#[derive(Clone, Copy, PartialEq, Eq, Debug, Structural)]
pub enum JobResult {
    JobDone,
    JobCancelled,
    JobTimeOut,
    JobFailed,
    JobDependency,
    JobSkipped,
    JobInvalid,
    JobAssert,
    JobUnSupported,
    JobCollected,
    JobOnce,
}

/// Whether a job still waits or is being carried out.
#[derive(Clone, Copy, PartialEq, Eq, Debug, Structural)]
pub enum JobStage {
    JobWait,
    JobRunning,
}

/// Position of a kind in the declaration order of [`JobKind`].
pub open spec fn kind_index(kind: JobKind) -> int {
    match kind {
        JobKind::JobStart => 0,
        JobKind::JobStop => 1,
        JobKind::JobReload => 2,
        JobKind::JobRestart => 3,
        JobKind::JobVerify => 4,
        JobKind::JobNop => 5,
        JobKind::JobTryReload => 6,
        JobKind::JobTryRestart => 7,
        JobKind::JobRestartOrReload => 8,
    }
}

/// The kind that serves two requests on one unit at once, if there is one.
///
/// Equal kinds merge into themselves and `JobNop` yields to anything. A stop
/// merges with nothing else. Among the remaining kinds a restart absorbs
/// every other, the conditional kinds count as their unconditional forms,
/// a verification yields to what it meets, and a start met by a reload
/// becomes `JobRestartOrReload`.
pub open spec fn job_merge(a: JobKind, b: JobKind) -> Option<JobKind> {
    if a == b {
        Some(a)
    } else if a == JobKind::JobNop {
        Some(b)
    } else if b == JobKind::JobNop {
        Some(a)
    } else if a == JobKind::JobStop || b == JobKind::JobStop {
        None
    } else if job_restarts(a) || job_restarts(b) {
        Some(JobKind::JobRestart)
    } else if a == JobKind::JobVerify {
        Some(job_unconditional(b))
    } else if b == JobKind::JobVerify {
        Some(job_unconditional(a))
    } else if job_unconditional(a) == job_unconditional(b) {
        Some(job_unconditional(a))
    } else {
        Some(JobKind::JobRestartOrReload)
    }
}

/// Whether the kind takes its unit down and up again.
pub open spec fn job_restarts(kind: JobKind) -> bool {
    kind == JobKind::JobRestart || kind == JobKind::JobTryRestart
}

/// The kind without its "only if active" condition.
pub open spec fn job_unconditional(kind: JobKind) -> JobKind {
    match kind {
        JobKind::JobTryReload => JobKind::JobReload,
        JobKind::JobTryRestart => JobKind::JobRestart,
        _ => kind,
    }
}

/// Two kinds conflict when no single job can serve both.
pub open spec fn job_conflicts(a: JobKind, b: JobKind) -> bool {
    job_merge(a, b) is None
}

/// The first thing a job of this kind does when it runs. A restart begins
/// by stopping; the conditional kinds do nothing on a unit that is not
/// active; `JobRestartOrReload` reloads a unit that can, and otherwise
/// restarts it.
pub open spec fn job_run_kind_spec(kind: JobKind, active: bool, can_reload: bool) -> JobKind {
    match kind {
        JobKind::JobRestart => JobKind::JobStop,
        JobKind::JobTryRestart => if active {
            JobKind::JobStop
        } else {
            JobKind::JobNop
        },
        JobKind::JobTryReload => if active {
            JobKind::JobReload
        } else {
            JobKind::JobNop
        },
        JobKind::JobRestartOrReload => if !active {
            JobKind::JobStart
        } else if can_reload {
            JobKind::JobReload
        } else {
            JobKind::JobStop
        },
        _ => kind,
    }
}

/// What follows once the phase `run_kind` of a job of kind `kind` is done:
/// the start that completes a restart, or nothing.
pub open spec fn job_next_phase_spec(kind: JobKind, run_kind: JobKind) -> Option<JobKind> {
    if run_kind == JobKind::JobStop && (kind == JobKind::JobRestart || kind
        == JobKind::JobTryRestart || kind == JobKind::JobRestartOrReload) {
        Some(JobKind::JobStart)
    } else {
        None
    }
}

/// Whether a unit of this type can take a job of this kind: reloading is
/// for services, everything else is open to all.
pub open spec fn job_applicable(kind: JobKind, unit_type: UnitType) -> bool {
    match kind {
        JobKind::JobReload | JobKind::JobTryReload => unit_type == UnitType::UnitService,
        _ => true,
    }
}

/// Computes [`job_merge`].
pub fn job_merge_kinds(a: JobKind, b: JobKind) -> (r: Option<JobKind>)
    ensures
        r == job_merge(a, b),
{
    if a == b {
        Some(a)
    } else if a == JobKind::JobNop {
        Some(b)
    } else if b == JobKind::JobNop {
        Some(a)
    } else if a == JobKind::JobStop || b == JobKind::JobStop {
        None
    } else if job_is_restart(a) || job_is_restart(b) {
        Some(JobKind::JobRestart)
    } else if a == JobKind::JobVerify {
        Some(job_drop_condition(b))
    } else if b == JobKind::JobVerify {
        Some(job_drop_condition(a))
    } else if job_drop_condition(a) == job_drop_condition(b) {
        Some(job_drop_condition(a))
    } else {
        Some(JobKind::JobRestartOrReload)
    }
}

fn job_is_restart(kind: JobKind) -> (r: bool)
    ensures
        r == job_restarts(kind),
{
    kind == JobKind::JobRestart || kind == JobKind::JobTryRestart
}

fn job_drop_condition(kind: JobKind) -> (r: JobKind)
    ensures
        r == job_unconditional(kind),
{
    match kind {
        JobKind::JobTryReload => JobKind::JobReload,
        JobKind::JobTryRestart => JobKind::JobRestart,
        _ => kind,
    }
}

/// Decides [`job_conflicts`].
pub fn job_is_conflicting(a: JobKind, b: JobKind) -> (r: bool)
    ensures
        r == job_conflicts(a, b),
{
    job_merge_kinds(a, b).is_none()
}

/// Computes [`job_run_kind_spec`].
pub fn job_run_kind(kind: JobKind, active: bool, can_reload: bool) -> (r: JobKind)
    ensures
        r == job_run_kind_spec(kind, active, can_reload),
{
    match kind {
        JobKind::JobRestart => JobKind::JobStop,
        JobKind::JobTryRestart => if active {
            JobKind::JobStop
        } else {
            JobKind::JobNop
        },
        JobKind::JobTryReload => if active {
            JobKind::JobReload
        } else {
            JobKind::JobNop
        },
        JobKind::JobRestartOrReload => if !active {
            JobKind::JobStart
        } else if can_reload {
            JobKind::JobReload
        } else {
            JobKind::JobStop
        },
        _ => kind,
    }
}

/// Computes [`job_next_phase_spec`].
pub fn job_next_phase(kind: JobKind, run_kind: JobKind) -> (r: Option<JobKind>)
    ensures
        r == job_next_phase_spec(kind, run_kind),
{
    if run_kind == JobKind::JobStop && (kind == JobKind::JobRestart || kind
        == JobKind::JobTryRestart || kind == JobKind::JobRestartOrReload) {
        Some(JobKind::JobStart)
    } else {
        None
    }
}

/// Decides [`job_applicable`] for a registered unit.
pub fn job_is_unit_applicable(kind: JobKind, unit: &UnitX) -> (r: bool)
    ensures
        r == job_applicable(kind, unit.unit_type),
{
    match kind {
        JobKind::JobReload | JobKind::JobTryReload => unit.unit_type == UnitType::UnitService,
        _ => true,
    }
}

/// Merging does not depend on the order of its arguments.
pub proof fn lemma_job_merge_symmetric(a: JobKind, b: JobKind)
    ensures
        job_merge(a, b) == job_merge(b, a),
{
}

/// The conflict relation between kinds is symmetric, and no kind conflicts
/// with itself.
pub proof fn lemma_job_conflict_symmetric(a: JobKind, b: JobKind)
    ensures
        job_conflicts(a, b) == job_conflicts(b, a),
        !job_conflicts(a, a),
{
}

/// A stop conflicts with exactly the kinds other than itself and `JobNop`;
/// no two kinds conflict unless one of them is a stop.
pub proof fn lemma_job_conflict_is_stop(a: JobKind, b: JobKind)
    ensures
        job_conflicts(a, b) <==> (a != b && a != JobKind::JobNop && b != JobKind::JobNop && (a
            == JobKind::JobStop || b == JobKind::JobStop)),
{
}

/// A request: one kind of job on one unit, named by its place in the
/// registry.
#[derive(Clone, Copy, PartialEq, Eq, Debug, Structural)]
pub struct JobConf {
    pub unit: usize,
    pub kind: JobKind,
}

impl JobConf {
    pub fn new(unit: usize, kind: JobKind) -> (r: JobConf)
        ensures
            r == (JobConf { unit, kind }),
    {
        JobConf { unit, kind }
    }

    /// A copy of the request as the table records it.
    pub fn map(input: &JobConf) -> (r: JobConf)
        ensures
            r == *input,
    {
        JobConf { unit: input.unit, kind: input.kind }
    }

    pub fn get_unit(&self) -> (r: usize)
        ensures
            r == self.unit,
    {
        self.unit
    }

    pub fn get_kind(&self) -> (r: JobKind)
        ensures
            r == self.kind,
    {
        self.kind
    }
}

/// One job of a table.
#[derive(Clone, Copy, PartialEq, Eq, Debug, Structural)]
pub struct Job {
    pub id: u64,
    pub unit: usize,
    pub kind: JobKind,
    /// The phase that the job carries out next.
    pub run_kind: JobKind,
    pub mode: JobMode,
    pub stage: JobStage,
    /// Set once the job has left its table.
    pub result: Option<JobResult>,
}

impl Job {
    /// The request that the job serves.
    pub open spec fn conf(self) -> JobConf {
        JobConf { unit: self.unit, kind: self.kind }
    }

    /// A job can be pushed aside by a later transaction unless it was
    /// planned irreversibly.
    pub open spec fn replaceable(self) -> bool {
        self.mode != JobMode::JobReplaceIrreversible
    }

    pub fn get_conf(&self) -> (r: JobConf)
        ensures
            r == self.conf(),
    {
        JobConf { unit: self.unit, kind: self.kind }
    }

    pub fn is_replaceable(&self) -> (r: bool)
        ensures
            r == self.replaceable(),
    {
        self.mode != JobMode::JobReplaceIrreversible
    }
}

/// The waiting job that [`JobAlloc::alloc_job`] makes of a request.
pub open spec fn job_new(id: u64, conf: JobConf, mode: JobMode) -> Job {
    Job {
        id,
        unit: conf.unit,
        kind: conf.kind,
        run_kind: conf.kind,
        mode,
        stage: JobStage::JobWait,
        result: None,
    }
}

/// The identifier that follows `id`; after the largest comes 0.
pub open spec fn job_id_next(id: u64) -> u64 {
    if id == u64::MAX {
        0
    } else {
        (id + 1) as u64
    }
}

/// Hands out job identifiers in sequence.
pub struct JobAlloc {
    next: u64,
}

impl JobAlloc {
    /// The identifier that the next job gets.
    pub closed spec fn next_id(&self) -> u64 {
        self.next
    }

    pub fn new() -> (r: JobAlloc)
        ensures
            r.next_id() == 1,
    {
        JobAlloc { next: 1 }
    }

    /// Makes the waiting job for `conf` and moves on to the next
    /// identifier.
    pub fn alloc_job(&mut self, conf: JobConf, mode: JobMode) -> (r: Job)
        ensures
            r == job_new(old(self).next_id(), conf, mode),
            final(self).next_id() == job_id_next(old(self).next_id()),
    {
        let id = self.next;
        self.next = id.wrapping_add(1);
        Job {
            id,
            unit: conf.unit,
            kind: conf.kind,
            run_kind: conf.kind,
            mode,
            stage: JobStage::JobWait,
            result: None,
        }
    }

    /// The identifier that the next call of [`JobAlloc::alloc_job`] uses.
    pub fn peek(&self) -> (r: u64)
        ensures
            r == self.next_id(),
    {
        self.next
    }
}

} // verus!
