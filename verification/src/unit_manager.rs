//! The units, their dependencies and their jobs as the commands of the
//! control protocol see them: one registry, one run table.
use crate::error::JobErrno;
use crate::job_entry::{Job, JobConf, JobKind, JobMode};
use crate::job_manager::{transaction, JobManager};
use crate::job_table::commit_all;
use crate::unit_dep::{dep_inserted, UnitDep, UnitDepEdge};
use crate::unit_rel::UnitRelations;
use crate::unit_sets::{
    lemma_name_index, name_index, name_type, UnitLoadState, UnitSets, UnitType, UnitX,
};
use crate::unit_state::UnitActiveState;
use vstd::prelude::*;
use vstd::utf8::encode_utf8;

verus! {

/// The type that the name of a unit tells; a name that tells none is
/// taken for a service's.
pub open spec fn named_type(name: Seq<char>) -> UnitType {
    match name_type(encode_utf8(name)) {
        Some(unit_type) => unit_type,
        None => UnitType::UnitService,
    }
}

/// The place of the unit called `name`: where it is registered, or the
/// end of the registry, where it will be.
pub open spec fn unit_place(units: Seq<UnitX>, name: Seq<char>) -> int {
    match name_index(units, name, units.len() as int) {
        Some(i) => i,
        None => units.len() as int,
    }
}

/// Whether `after` is `before` with the unit called `name` in it: the
/// same where the name was registered, and else longer by one unit of
/// that name, which is neither loaded nor active.
pub open spec fn registered(before: Seq<UnitX>, after: Seq<UnitX>, name: Seq<char>) -> bool {
    match name_index(before, name, before.len() as int) {
        Some(_) => after == before,
        None => {
            &&& after.len() == before.len() + 1
            &&& after.drop_last() == before
            &&& after.last().id@ == name
            &&& after.last().unit_type == named_type(name)
            &&& after.last().load_state == UnitLoadState::UnitStub
            &&& after.last().active_state == UnitActiveState::UnitInActive
            &&& !after.last().ignore_on_isolate
        },
    }
}

/// The names of the first `upto` units, one to a line.
pub open spec fn unit_lines(units: Seq<UnitX>, upto: int) -> Seq<char>
    decreases upto,
{
    if upto <= 0 || upto > units.len() {
        Seq::empty()
    } else if upto == 1 {
        units[0].id@
    } else {
        unit_lines(units, upto - 1) + seq!['\n'] + units[upto - 1].id@
    }
}

/// The texts of the first `upto` of `lines`, with a line break between
/// each two.
pub open spec fn joined_lines(lines: Seq<String>, upto: int) -> Seq<char>
    decreases upto,
{
    if upto <= 0 || upto > lines.len() {
        Seq::empty()
    } else if upto == 1 {
        lines[0]@
    } else {
        joined_lines(lines, upto - 1) + seq!['\n'] + lines[upto - 1]@
    }
}

/// `[String]::join` with a line break as the separator: the texts one
/// after the other, with one line break between each two.
#[verifier::external_body]
fn join_lines(lines: &Vec<String>) -> (r: String)
    ensures
        r@ == joined_lines(lines@, lines@.len() as int),
{
    lines.join("\n")
}

/// The units and their jobs.
pub struct UnitManagerX {
    units: UnitSets,
    dep: UnitDep,
    jobs: JobManager,
}

impl UnitManagerX {
    /// The registry.
    pub closed spec fn units(&self) -> Seq<UnitX> {
        self.units@
    }

    /// The dependencies between the units.
    pub closed spec fn dep(&self) -> Seq<UnitDepEdge> {
        self.dep@
    }

    /// The run table.
    pub closed spec fn jobs(&self) -> Seq<Job> {
        self.jobs.jobs()
    }

    /// The identifier that the next job gets.
    pub closed spec fn next_id(&self) -> u64 {
        self.jobs.next_id()
    }

    /// No two units share a name, and no unit has two jobs.
    pub closed spec fn wf(&self) -> bool {
        self.units.wf() && self.jobs.wf()
    }

    /// No units, no dependencies, no jobs.
    pub fn new() -> (r: UnitManagerX)
        ensures
            r.units().len() == 0,
            r.dep().len() == 0,
            r.jobs().len() == 0,
            r.next_id() == 1,
            r.wf(),
    {
        UnitManagerX { units: UnitSets::new(), dep: UnitDep::new(), jobs: JobManager::new() }
    }

    /// The registry.
    pub fn registry(&self) -> (r: &UnitSets)
        ensures
            r@ == self.units(),
    {
        &self.units
    }

    /// The dependencies between the units.
    pub fn dependencies(&self) -> (r: &UnitDep)
        ensures
            r@ == self.dep(),
    {
        &self.dep
    }

    /// The jobs of the run table, in order.
    pub fn get_jobs(&self) -> (r: Vec<Job>)
        ensures
            r@ == self.jobs(),
    {
        self.jobs.get_jobs()
    }

    /// The place of the unit called `name`, which is registered where
    /// it was not.
    pub fn unit_of(&mut self, name: &String) -> (r: usize)
        requires
            old(self).wf(),
        ensures
            final(self).wf(),
            registered(old(self).units(), final(self).units(), name@),
            r == unit_place(old(self).units(), name@),
            r < final(self).units().len(),
            final(self).dep() == old(self).dep(),
            final(self).jobs() == old(self).jobs(),
            final(self).next_id() == old(self).next_id(),
    {
        proof {
            lemma_name_index(self.units@, name@, self.units@.len() as int);
        }
        match self.units.get(name) {
            Some(unit) => unit,
            None => {
                let unit_type = match UnitType::of_name(name.as_str()) {
                    Some(unit_type) => unit_type,
                    None => UnitType::UnitService,
                };
                let at = self.units.insert(UnitX::new(name.clone(), unit_type));
                proof {
                    assert(self.units@.drop_last() =~= old(self).units@);
                }
                at
            },
        }
    }

    /// Records what loading the unit at place `unit` has come to.
    pub fn set_loaded(&mut self, unit: usize, load_state: UnitLoadState, ignore_on_isolate: bool)
        requires
            old(self).wf(),
            unit < old(self).units().len(),
        ensures
            final(self).wf(),
            final(self).units() == old(self).units().update(
                unit as int,
                (UnitX { load_state, ignore_on_isolate, ..old(self).units()[unit as int] }),
            ),
            final(self).dep() == old(self).dep(),
            final(self).jobs() == old(self).jobs(),
            final(self).next_id() == old(self).next_id(),
    {
        self.units.set_load_state(unit, load_state);
        self.units.set_ignore_on_isolate(unit, ignore_on_isolate);
        proof {
            assert(self.units@ =~= old(self).units@.update(
                unit as int,
                (UnitX { load_state, ignore_on_isolate, ..old(self).units@[unit as int] }),
            ));
        }
    }

    /// Records the state that the unit at place `unit` is in.
    pub fn set_active(&mut self, unit: usize, active_state: UnitActiveState)
        requires
            old(self).wf(),
            unit < old(self).units().len(),
        ensures
            final(self).wf(),
            final(self).units() == old(self).units().update(
                unit as int,
                (UnitX { active_state, ..old(self).units()[unit as int] }),
            ),
            final(self).dep() == old(self).dep(),
            final(self).jobs() == old(self).jobs(),
            final(self).next_id() == old(self).next_id(),
    {
        self.units.set_active_state(unit, active_state);
    }

    /// Records that the unit at `source` declares `relation` towards
    /// the unit at `target`.
    pub fn insert_dep(&mut self, source: usize, relation: UnitRelations, target: usize)
        requires
            old(self).wf(),
        ensures
            final(self).wf(),
            final(self).dep() == dep_inserted(old(self).dep(), source, relation, target),
            final(self).units() == old(self).units(),
            final(self).jobs() == old(self).jobs(),
            final(self).next_id() == old(self).next_id(),
    {
        self.dep.insert(source, relation, target);
    }

    /// What the transaction comes to that asks for a job of kind `kind`
    /// on the unit called `name`, given the manager `after` it in which
    /// that unit is registered: the failure, or the jobs that are
    /// committed.
    pub open spec fn plan_outcome(self, after: UnitManagerX, name: Seq<char>, kind: JobKind) -> Result<
        Seq<Job>,
        JobErrno,
    > {
        transaction(
            after.units(),
            self.dep(),
            JobMode::JobReplace,
            self.jobs(),
            self.next_id(),
            (JobConf { unit: unit_place(self.units(), name) as usize, kind }),
        )
    }

    /// Whether `after` is what asking for a job of kind `kind` on the
    /// unit called `name` makes of the manager: the unit is registered
    /// where it was not, and the run table has taken up the jobs of the
    /// transaction, or is as it was where the transaction fails.
    pub open spec fn planned(self, after: UnitManagerX, name: Seq<char>, kind: JobKind) -> bool {
        &&& after.wf()
        &&& registered(self.units(), after.units(), name)
        &&& after.dep() == self.dep()
        &&& match self.plan_outcome(after, name, kind) {
            Err(_) => after.jobs() == self.jobs(),
            Ok(stage) => after.jobs() == commit_all(
                self.jobs(),
                stage,
                after.units(),
                stage.len() as int,
            ).0,
        }
    }

    /// Asks for a job of kind `kind` on the unit called `name`, which
    /// may put other jobs aside: see [`Self::planned`]. The jobs that
    /// had to give way are returned.
    pub fn plan(&mut self, name: &String, kind: JobKind) -> (r: Result<Vec<Job>, JobErrno>)
        requires
            old(self).wf(),
        ensures
            old(self).planned(*final(self), name@, kind),
            match old(self).plan_outcome(*final(self), name@, kind) {
                Err(e) => r == Err::<Vec<Job>, JobErrno>(e),
                Ok(stage) => r is Ok && r->Ok_0@ == commit_all(
                    old(self).jobs(),
                    stage,
                    final(self).units(),
                    stage.len() as int,
                ).1,
            },
    {
        let unit = self.unit_of(name);
        let conf = JobConf::new(unit, kind);
        self.jobs.exec(&self.units, &self.dep, &conf, JobMode::JobReplace)
    }

    /// Asks for the unit called `name` to be started.
    pub fn start_unit(&mut self, name: &String) -> (r: Result<(), JobErrno>)
        requires
            old(self).wf(),
        ensures
            old(self).planned(*final(self), name@, JobKind::JobStart),
            r == match old(self).plan_outcome(*final(self), name@, JobKind::JobStart) {
                Err(e) => Err::<(), JobErrno>(e),
                Ok(_) => Ok(()),
            },
    {
        match self.plan(name, JobKind::JobStart) {
            Ok(_) => Ok(()),
            Err(e) => Err(e),
        }
    }

    /// Asks for the unit called `name` to be stopped.
    pub fn stop_unit(&mut self, name: &String) -> (r: Result<(), JobErrno>)
        requires
            old(self).wf(),
        ensures
            old(self).planned(*final(self), name@, JobKind::JobStop),
            r == match old(self).plan_outcome(*final(self), name@, JobKind::JobStop) {
                Err(e) => Err::<(), JobErrno>(e),
                Ok(_) => Ok(()),
            },
    {
        match self.plan(name, JobKind::JobStop) {
            Ok(_) => Ok(()),
            Err(e) => Err(e),
        }
    }

    /// Asks for the unit called `name` to be started anew.
    pub fn restart_unit(&mut self, name: &String) -> (r: Result<(), JobErrno>)
        requires
            old(self).wf(),
        ensures
            old(self).planned(*final(self), name@, JobKind::JobRestart),
            r == match old(self).plan_outcome(*final(self), name@, JobKind::JobRestart) {
                Err(e) => Err::<(), JobErrno>(e),
                Ok(_) => Ok(()),
            },
    {
        match self.plan(name, JobKind::JobRestart) {
            Ok(_) => Ok(()),
            Err(e) => Err(e),
        }
    }

    /// The state that the unit called `name` is in, if there is such a
    /// unit.
    pub fn get_unit_status(&self, name: &String) -> (r: Option<UnitActiveState>)
        ensures
            r == match name_index(self.units(), name@, self.units().len() as int) {
                Some(i) => Some(self.units()[i].active_state),
                None => None,
            },
    {
        proof {
            lemma_name_index(self.units@, name@, self.units@.len() as int);
        }
        match self.units.get(name) {
            Some(unit) => Some(self.units.unit(unit).active_state),
            None => None,
        }
    }

    /// The names of all units, one to a line, in the order in which
    /// they were registered.
    pub fn get_all_units(&self) -> (r: String)
        ensures
            r@ == unit_lines(self.units(), self.units().len() as int),
    {
        let mut names: Vec<String> = Vec::new();
        let count = self.units.len();
        let mut i: usize = 0;
        while i < count
            invariant
                i <= count,
                count == self.units@.len(),
                names@.len() == i,
                forall|k: int| 0 <= k < i ==> (#[trigger] names@[k])@ == self.units@[k].id@,
            decreases count - i,
        {
            names.push(self.units.unit(i).id.clone());
            i += 1;
        }
        proof {
            lemma_joined_names(names@, self.units@, count as int);
        }
        join_lines(&names)
    }
}

proof fn lemma_joined_names(names: Seq<String>, units: Seq<UnitX>, upto: int)
    requires
        0 <= upto <= names.len(),
        names.len() == units.len(),
        forall|k: int| 0 <= k < names.len() ==> (#[trigger] names[k])@ == units[k].id@,
    ensures
        joined_lines(names, upto) == unit_lines(units, upto),
    decreases upto,
{
    if upto > 1 {
        lemma_joined_names(names, units, upto - 1);
    }
}

} // verus!
