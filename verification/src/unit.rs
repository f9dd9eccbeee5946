//! The frame that every unit shares: identity, load state, settings,
//! children, and the checks that come before a start or a stop.
use crate::error::UnitActionError;
use crate::unit_base::{kill_signal, KillOperation, Signal, WaitStatus};
use crate::unit_dep_conf::{relation_index, relations_unique, UnitDepConf};
use crate::unit_rel::UnitRelations;
use crate::job_entry::JobResult;
use crate::unit_sets::{name_index, UnitLoadState, UnitSets, UnitType};
use crate::unit_state::{UnitActiveState, UnitNotifyFlags, UnitState};
use crate::uu_config::UeConfig;
use vstd::prelude::*;

verus! {

/// What every kind of unit offers to the frame that carries it.
/// Whoever adds a kind of unit implements this; nothing is assumed of
/// what the methods do or return.
pub trait UnitObj {
    /// Starts the unit.
    fn start(&mut self) -> Result<(), UnitActionError>;

    /// Stops the unit; forced, it asks no questions.
    fn stop(&mut self, force: bool) -> Result<(), UnitActionError>;

    /// A child of the unit has changed state.
    fn sigchld_events(&mut self, wait_status: WaitStatus);

    /// The descriptors that the unit hands to the service it triggers.
    fn collect_fds(&self) -> Vec<i32>;

    /// The unit's state, as one of the states that all kinds share.
    fn current_active_state(&self) -> UnitActiveState;
}

/// What a condition or an assertion of a unit file tests.
#[derive(Clone, Copy, PartialEq, Eq, Debug, Structural)]
pub enum ConditionType {
    FileNotEmpty,
    NeedsUpdate,
    PathExists,
}

/// One test and what it is applied to.
pub struct ConditionItem {
    pub kind: ConditionType,
    pub params: String,
}

/// The conditions and assertions of a unit.
pub struct UeCondition {
    pub conditions: Vec<ConditionItem>,
    pub asserts: Vec<ConditionItem>,
}

/// One signal to send.
#[derive(Clone, Copy, PartialEq, Eq, Debug, Structural)]
pub enum KillOp {
    /// Send `signal` to `pid`; where that went well and `then_cont` is
    /// set, send `SIGCONT` after it.
    Process { pid: i32, signal: Signal, then_cont: bool },
    /// Send `signal` to every process of the unit's control group and
    /// below, but for the manager itself and the processes `main_pid`
    /// and `control_pid`, each followed by `SIGCONT` where `then_cont`
    /// is set.
    ControlGroup {
        signal: Signal,
        then_cont: bool,
        main_pid: Option<i32>,
        control_pid: Option<i32>,
    },
}

/// What stands in the way of a start, or nothing.
#[derive(Clone, Copy, PartialEq, Eq, Debug, Structural)]
pub enum StartCheck {
    Proceed,
    /// The unit is up, or on its way up.
    Already,
    /// The unit is being maintained.
    Busy,
    NotLoaded,
    /// A condition does not hold: the unit stays inactive and the start
    /// counts as skipped.
    ConditionFailed,
    /// An assertion does not hold: the unit counts as failed.
    AssertFailed,
}

/// Whether a `SIGCONT` follows a signal: after all but `SIGCONT` and
/// `SIGKILL`.
pub open spec fn cont_follows(signal: Signal) -> bool {
    signal != Signal::SIGCONT && signal != Signal::SIGKILL
}

/// What stands before a start. A unit that is active or reloading, or on
/// its way up, is there already; one in maintenance is busy; one that is
/// not loaded cannot start; then the conditions and the assertions must
/// hold.
pub open spec fn start_check(
    active_state: UnitActiveState,
    load_state: UnitLoadState,
    conditions_ok: bool,
    asserts_ok: bool,
) -> StartCheck {
    match active_state {
        UnitActiveState::UnitActive
        | UnitActiveState::UnitReloading
        | UnitActiveState::UnitActivating => StartCheck::Already,
        UnitActiveState::UnitMaintenance => StartCheck::Busy,
        _ => if load_state != UnitLoadState::UnitLoaded {
            StartCheck::NotLoaded
        } else if !conditions_ok {
            StartCheck::ConditionFailed
        } else if !asserts_ok {
            StartCheck::AssertFailed
        } else {
            StartCheck::Proceed
        },
    }
}

/// The answer of a start, by what stands before it.
pub open spec fn start_answer(check: StartCheck) -> Result<(), UnitActionError> {
    match check {
        StartCheck::Proceed => Ok(()),
        StartCheck::Already => Err(UnitActionError::UnitActionEAlready),
        StartCheck::Busy => Err(UnitActionError::UnitActionEAgain),
        StartCheck::NotLoaded | StartCheck::ConditionFailed | StartCheck::AssertFailed => Err(
            UnitActionError::UnitActionEInval,
        ),
    }
}

/// What stands before a stop: unless forced, a unit that is inactive or
/// failed is there already.
pub open spec fn stop_answer(active_state: UnitActiveState, force: bool) -> Result<
    (),
    UnitActionError,
> {
    if !force && (active_state == UnitActiveState::UnitInActive || active_state
        == UnitActiveState::UnitFailed) {
        Err(UnitActionError::UnitActionEAlready)
    } else {
        Ok(())
    }
}

/// The signals that bring a unit's processes down: to the main process,
/// to the control process, and, where the unit has a control group, to
/// everything in it.
pub open spec fn kill_ops(
    m_pid: Option<i32>,
    c_pid: Option<i32>,
    operation: KillOperation,
    has_cgroup: bool,
) -> Seq<KillOp> {
    let signal = kill_signal(operation);
    let then_cont = cont_follows(signal);
    let main = match m_pid {
        Some(pid) => seq![KillOp::Process { pid, signal, then_cont }],
        None => Seq::empty(),
    };
    let control = match c_pid {
        Some(pid) => seq![KillOp::Process { pid, signal, then_cont }],
        None => Seq::empty(),
    };
    let group = if has_cgroup {
        seq![KillOp::ControlGroup { signal, then_cont, main_pid: m_pid, control_pid: c_pid }]
    } else {
        Seq::empty()
    };
    main + control + group
}

/// The tests that a description asks for: each of the three conditions
/// that names something, in the order file-not-empty, needs-update,
/// path-exists.
pub open spec fn wanted_conditions(config: UeConfig) -> Seq<(ConditionType, Seq<char>)> {
    let a = if config.Unit.ConditionFileNotEmpty@.len() > 0 {
        seq![(ConditionType::FileNotEmpty, config.Unit.ConditionFileNotEmpty@)]
    } else {
        Seq::empty()
    };
    let b = if config.Unit.ConditionNeedsUpdate@.len() > 0 {
        seq![(ConditionType::NeedsUpdate, config.Unit.ConditionNeedsUpdate@)]
    } else {
        Seq::empty()
    };
    let c = if config.Unit.ConditionPathExists@.len() > 0 {
        seq![(ConditionType::PathExists, config.Unit.ConditionPathExists@)]
    } else {
        Seq::empty()
    };
    a + b + c
}

/// The assertions that a description asks for.
pub open spec fn wanted_asserts(config: UeConfig) -> Seq<(ConditionType, Seq<char>)> {
    if config.Unit.AssertPathExists@.len() > 0 {
        seq![(ConditionType::PathExists, config.Unit.AssertPathExists@)]
    } else {
        Seq::empty()
    }
}

/// What a list of tests comes to as a mathematical value.
pub open spec fn items_view(items: Seq<ConditionItem>) -> Seq<(ConditionType, Seq<char>)> {
    Seq::new(items.len(), |i: int| (items[i].kind, items[i].params@))
}

/// The first place among the first `upto` that holds `pid`.
pub open spec fn first_index(pids: Seq<i32>, pid: i32, upto: int) -> Option<int>
    decreases upto,
{
    if upto <= 0 || upto > pids.len() {
        None
    } else {
        match first_index(pids, pid, upto - 1) {
            Some(i) => Some(i),
            None => if pids[upto - 1] == pid {
                Some(upto - 1)
            } else {
                None
            },
        }
    }
}

proof fn lemma_first_index_found(pids: Seq<i32>, pid: i32, i: int, upto: int)
    requires
        0 <= i < upto <= pids.len(),
        first_index(pids, pid, i) is None,
        pids[i] == pid,
    ensures
        first_index(pids, pid, upto) == Some(i),
    decreases upto - i,
{
    if upto > i + 1 {
        lemma_first_index_found(pids, pid, i, upto - 1);
    }
}

/// Whether every test of a list came out well.
pub open spec fn all_hold(results: Seq<bool>) -> bool {
    forall|i: int| 0 <= i < results.len() ==> results[i]
}

impl UeCondition {
    pub fn new() -> (r: UeCondition)
        ensures
            r.conditions@.len() == 0,
            r.asserts@.len() == 0,
    {
        UeCondition { conditions: Vec::new(), asserts: Vec::new() }
    }

    /// Whether anything is to be tested.
    pub fn init_flag(&self) -> (r: bool)
        ensures
            r == (self.conditions@.len() > 0 || self.asserts@.len() > 0),
    {
        self.conditions.len() > 0 || self.asserts.len() > 0
    }

    pub fn add_condition(&mut self, kind: ConditionType, params: String)
        ensures
            final(self).conditions@ == old(self).conditions@.push((ConditionItem { kind, params })),
            final(self).asserts@ == old(self).asserts@,
    {
        self.conditions.push(ConditionItem { kind, params });
    }

    pub fn add_assert(&mut self, kind: ConditionType, params: String)
        ensures
            final(self).asserts@ == old(self).asserts@.push((ConditionItem { kind, params })),
            final(self).conditions@ == old(self).conditions@,
    {
        self.asserts.push(ConditionItem { kind, params });
    }

    /// The conditions hold when each of them came out well; `results`
    /// are the outcomes.
    pub fn conditions_test(&self, results: &Vec<bool>) -> (r: bool)
        ensures
            r == all_hold(results@),
    {
        all_true(results)
    }

    /// The assertions hold when each of them came out well; `results`
    /// are the outcomes.
    pub fn asserts_test(&self, results: &Vec<bool>) -> (r: bool)
        ensures
            r == all_hold(results@),
    {
        all_true(results)
    }
}

fn all_true(results: &Vec<bool>) -> (r: bool)
    ensures
        r == all_hold(results@),
{
    let mut i: usize = 0;
    while i < results.len()
        invariant
            i <= results.len(),
            forall|k: int| 0 <= k < i ==> results@[k],
        decreases results.len() - i,
    {
        if !results[i] {
            return false;
        }
        i += 1;
    }
    true
}

/// The common frame of a unit.
pub struct Unit {
    id: String,
    unit_type: UnitType,
    load_state: UnitLoadState,
    in_load_queue: bool,
    in_target_dep_queue: bool,
    config: UeConfig,
    child_pids: Vec<i32>,
    cg_path: String,
    conditions: UeCondition,
}

impl Unit {
    pub closed spec fn spec_id(&self) -> Seq<char> {
        self.id@
    }

    pub closed spec fn spec_unit_type(&self) -> UnitType {
        self.unit_type
    }

    pub closed spec fn spec_load_state(&self) -> UnitLoadState {
        self.load_state
    }

    pub closed spec fn spec_config(&self) -> UeConfig {
        self.config
    }

    pub closed spec fn spec_child_pids(&self) -> Seq<i32> {
        self.child_pids@
    }

    pub closed spec fn spec_cg_path(&self) -> Seq<char> {
        self.cg_path@
    }

    pub closed spec fn spec_conditions(&self) -> UeCondition {
        self.conditions
    }

    pub closed spec fn spec_in_load_queue(&self) -> bool {
        self.in_load_queue
    }

    pub closed spec fn spec_in_target_dep_queue(&self) -> bool {
        self.in_target_dep_queue
    }

    /// The parts of the frame that loading does not touch are the same
    /// in both.
    pub open spec fn same_identity(&self, other: &Unit) -> bool {
        &&& self.spec_id() == other.spec_id()
        &&& self.spec_unit_type() == other.spec_unit_type()
        &&& self.spec_child_pids() == other.spec_child_pids()
        &&& self.spec_cg_path() == other.spec_cg_path()
        &&& self.spec_in_target_dep_queue() == other.spec_in_target_dep_queue()
    }

    /// A unit that has just been named: a stub, without children, with
    /// the default description.
    pub fn new(unit_type: UnitType, name: String) -> (r: Unit)
        ensures
            r.spec_id() == name@,
            r.spec_unit_type() == unit_type,
            r.spec_load_state() == UnitLoadState::UnitStub,
            r.spec_child_pids().len() == 0,
            r.spec_cg_path().len() == 0,
            !r.spec_in_load_queue(),
            !r.spec_in_target_dep_queue(),
            r.spec_conditions().conditions@.len() == 0,
            r.spec_conditions().asserts@.len() == 0,
    {
        Unit {
            id: name,
            unit_type,
            load_state: UnitLoadState::UnitStub,
            in_load_queue: false,
            in_target_dep_queue: false,
            config: UeConfig::default(),
            child_pids: Vec::new(),
            cg_path: String::new(),
            conditions: UeCondition::new(),
        }
    }

    /// The tests that stand before a start, built from the description
    /// the first time they are asked for.
    pub fn conditions(&mut self) -> (r: &UeCondition)
        ensures
            final(self).same_identity(old(self)),
            final(self).spec_load_state() == old(self).spec_load_state(),
            final(self).spec_config() == old(self).spec_config(),
            *r == final(self).spec_conditions(),
            old(self).spec_conditions().conditions@.len() > 0 || old(self).spec_conditions().asserts@.len() > 0 ==> final(self).spec_conditions() == old(self).spec_conditions(),
            old(self).spec_conditions().conditions@.len() == 0 && old(self).spec_conditions().asserts@.len() == 0 ==> items_view(r.conditions@)
                == wanted_conditions(old(self).spec_config()) && items_view(r.asserts@)
                == wanted_asserts(old(self).spec_config()),
    {
        if !self.conditions.init_flag() {
            if !self.config.Unit.ConditionFileNotEmpty.as_str().is_empty() {
                self.conditions.add_condition(
                    ConditionType::FileNotEmpty,
                    self.config.Unit.ConditionFileNotEmpty.clone(),
                );
            }
            if !self.config.Unit.ConditionNeedsUpdate.as_str().is_empty() {
                self.conditions.add_condition(
                    ConditionType::NeedsUpdate,
                    self.config.Unit.ConditionNeedsUpdate.clone(),
                );
            }
            if !self.config.Unit.ConditionPathExists.as_str().is_empty() {
                self.conditions.add_condition(
                    ConditionType::PathExists,
                    self.config.Unit.ConditionPathExists.clone(),
                );
            }
            if !self.config.Unit.AssertPathExists.as_str().is_empty() {
                self.conditions.add_assert(
                    ConditionType::PathExists,
                    self.config.Unit.AssertPathExists.clone(),
                );
            }
            proof {
                assert(items_view(self.conditions.conditions@) =~= wanted_conditions(self.config));
                assert(items_view(self.conditions.asserts@) =~= wanted_asserts(self.config));
            }
        }
        &self.conditions
    }

    /// The record of a state change of this unit, for its observers.
    pub fn notify(
        &self,
        prior_state: UnitActiveState,
        new_state: UnitActiveState,
        flags: UnitNotifyFlags,
    ) -> (r: UnitState)
        ensures
            r == (UnitState { os: prior_state, ns: new_state, flags }),
    {
        UnitState::new(prior_state, new_state, flags)
    }

    pub fn id(&self) -> (r: &String)
        ensures
            r@ == self.spec_id(),
    {
        &self.id
    }

    /// Gives the unit its control group; the path is the unit's name.
    pub fn prepare_exec(&mut self)
        ensures
            final(self).spec_cg_path() == old(self).spec_id(),
            final(self).spec_id() == old(self).spec_id(),
            final(self).spec_unit_type() == old(self).spec_unit_type(),
            final(self).spec_load_state() == old(self).spec_load_state(),
            final(self).spec_child_pids() == old(self).spec_child_pids(),
            final(self).spec_config() == old(self).spec_config(),
    {
        self.cg_path = self.id.clone();
    }

    pub fn cg_path(&self) -> (r: &String)
        ensures
            r@ == self.spec_cg_path(),
    {
        &self.cg_path
    }

    /// The signals to send for `ko`, in order.
    pub fn kill_context(&self, m_pid: Option<i32>, c_pid: Option<i32>, ko: KillOperation) -> (r:
        Vec<KillOp>)
        ensures
            r@ == kill_ops(m_pid, c_pid, ko, self.spec_cg_path().len() > 0),
    {
        let sig = ko.to_signal();
        let then_cont = sig != Signal::SIGCONT && sig != Signal::SIGKILL;
        let mut ops: Vec<KillOp> = Vec::new();
        if let Some(pid) = m_pid {
            ops.push(KillOp::Process { pid, signal: sig, then_cont });
        }
        if let Some(pid) = c_pid {
            ops.push(KillOp::Process { pid, signal: sig, then_cont });
        }
        if !self.cg_path.as_str().is_empty() {
            ops.push(
                KillOp::ControlGroup {
                    signal: sig,
                    then_cont,
                    main_pid: m_pid,
                    control_pid: c_pid,
                },
            );
        }
        assert(ops@ =~= kill_ops(m_pid, c_pid, ko, self.spec_cg_path().len() > 0));
        ops
    }

    pub fn default_dependencies(&self) -> (r: bool)
        ensures
            r == self.spec_config().Unit.DefaultDependencies,
    {
        self.config.Unit.DefaultDependencies
    }

    pub fn ignore_on_isolate(&self) -> (r: bool)
        ensures
            r == self.spec_config().Unit.IgnoreOnIsolate,
    {
        self.config.Unit.IgnoreOnIsolate
    }

    pub fn set_ignore_on_isolate(&mut self, ignore_on_isolate: bool)
        ensures
            final(self).spec_config().Unit.IgnoreOnIsolate == ignore_on_isolate,
            final(self).same_identity(old(self)),
            final(self).spec_load_state() == old(self).spec_load_state(),
    {
        self.config.Unit.IgnoreOnIsolate = ignore_on_isolate;
    }

    /// The main and the control process, each once.
    pub fn pids_set(&self, m_pid: Option<i32>, c_pid: Option<i32>) -> (r: Vec<i32>)
        ensures
            r@ == match (m_pid, c_pid) {
                (Some(m), Some(c)) => if m == c {
                    seq![m]
                } else {
                    seq![m, c]
                },
                (Some(m), None) => seq![m],
                (None, Some(c)) => seq![c],
                (None, None) => Seq::<i32>::empty(),
            },
    {
        let mut pids: Vec<i32> = Vec::new();
        if let Some(pid) = m_pid {
            pids.push(pid);
        }
        if let Some(pid) = c_pid {
            if m_pid != Some(pid) {
                pids.push(pid);
            }
        }
        pids
    }

    /// The dependency record by which this unit declares the relations
    /// `ra` and `rb` towards the unit called `u_name`.
    pub fn insert_two_deps(&self, ra: UnitRelations, rb: UnitRelations, u_name: String) -> (r:
        UnitDepConf)
        ensures
            relations_unique(r.deps@),
            r.deps@.len() == if ra == rb {
                1nat
            } else {
                2nat
            },
            r.deps@[0].relation == ra,
            r.deps@.last().relation == rb,
            forall|i: int|
                0 <= i < r.deps@.len() ==> (#[trigger] r.deps@[i]).names@.len() == 1
                    && r.deps@[i].names@[0]@ == u_name@,
    {
        proof {
            reveal_with_fuel(relation_index, 3);
        }
        let mut ud_conf = UnitDepConf::new();
        let mut first: Vec<String> = Vec::new();
        first.push(u_name.clone());
        ud_conf.insert(ra, first);
        let mut second: Vec<String> = Vec::new();
        second.push(u_name);
        ud_conf.insert(rb, second);
        ud_conf
    }

    /// The dependency record by which this unit declares the relation
    /// `ra` towards the unit called `u_name`.
    pub fn insert_dep(&self, ra: UnitRelations, u_name: String) -> (r: UnitDepConf)
        ensures
            relations_unique(r.deps@),
            r.deps@.len() == 1,
            r.deps@[0].relation == ra,
            r.deps@[0].names@.len() == 1,
            r.deps@[0].names@[0]@ == u_name@,
    {
        proof {
            reveal_with_fuel(relation_index, 3);
        }
        let mut ud_conf = UnitDepConf::new();
        let mut names: Vec<String> = Vec::new();
        names.push(u_name);
        ud_conf.insert(ra, names);
        ud_conf
    }

    pub fn get_config(&self) -> (r: &UeConfig)
        ensures
            *r == self.spec_config(),
    {
        &self.config
    }

    pub fn in_load_queue(&self) -> (r: bool)
        ensures
            r == self.spec_in_load_queue(),
    {
        self.in_load_queue
    }

    pub fn set_in_load_queue(&mut self, t: bool)
        ensures
            final(self).spec_in_load_queue() == t,
            final(self).same_identity(old(self)),
            final(self).spec_load_state() == old(self).spec_load_state(),
            final(self).spec_config() == old(self).spec_config(),
    {
        self.in_load_queue = t;
    }

    pub fn in_target_dep_queue(&self) -> (r: bool)
        ensures
            r == self.spec_in_target_dep_queue(),
    {
        self.in_target_dep_queue
    }

    pub fn set_in_target_dep_queue(&mut self, t: bool)
        ensures
            final(self).spec_in_target_dep_queue() == t,
            final(self).spec_id() == old(self).spec_id(),
            final(self).spec_load_state() == old(self).spec_load_state(),
            final(self).spec_config() == old(self).spec_config(),
    {
        self.in_target_dep_queue = t;
    }

    /// Takes up what loading has brought: the unit's description, if one
    /// was found, and what the unit's kind made of it.
    ///
    /// A mount unit has no description and counts as loaded. A unit
    /// without a description is not found. A description that the unit's
    /// kind turns down leaves the load state as it was and passes the
    /// error on. Otherwise the description is taken and the unit is
    /// loaded. In every case the unit leaves the load queue.
    pub fn load_unit(&mut self, found: Option<UeConfig>, sub: Result<(), UnitActionError>) -> (r:
        Result<(), UnitActionError>)
        ensures
            final(self).same_identity(old(self)),
            !final(self).spec_in_load_queue(),
            old(self).spec_unit_type() == UnitType::UnitMount ==> r is Ok && final(self).spec_load_state() == UnitLoadState::UnitLoaded && final(self).spec_config() == old(self).spec_config(),
            old(self).spec_unit_type() != UnitType::UnitMount ==> match found {
                None => r == Err::<(), UnitActionError>(UnitActionError::UnitActionENoent) && final(self).spec_load_state() == UnitLoadState::UnitNotFound && final(self).spec_config()
                    == old(self).spec_config(),
                Some(config) => match sub {
                    Err(e) => r == Err::<(), UnitActionError>(e) && final(self).spec_load_state()
                        == old(self).spec_load_state() && final(self).spec_config() == old(self).spec_config(),
                    Ok(()) => r is Ok && final(self).spec_load_state()
                        == UnitLoadState::UnitLoaded && final(self).spec_config() == config,
                },
            },
    {
        self.set_in_load_queue(false);
        if self.unit_type == UnitType::UnitMount {
            self.load_state = UnitLoadState::UnitLoaded;
            return Ok(());
        }
        match found {
            Some(config) => {
                match sub {
                    Err(e) => Err(e),
                    Ok(()) => {
                        self.config = config;
                        self.load_state = UnitLoadState::UnitLoaded;
                        Ok(())
                    },
                }
            },
            None => {
                self.load_state = UnitLoadState::UnitNotFound;
                Err(UnitActionError::UnitActionENoent)
            },
        }
    }

    /// Decides [`start_check`] for this unit.
    pub fn start_precheck(
        &self,
        active_state: UnitActiveState,
        conditions_ok: bool,
        asserts_ok: bool,
    ) -> (r: StartCheck)
        ensures
            r == start_check(active_state, self.spec_load_state(), conditions_ok, asserts_ok),
    {
        match active_state {
            UnitActiveState::UnitActive
            | UnitActiveState::UnitReloading
            | UnitActiveState::UnitActivating => StartCheck::Already,
            UnitActiveState::UnitMaintenance => StartCheck::Busy,
            _ => {
                if self.load_state != UnitLoadState::UnitLoaded {
                    StartCheck::NotLoaded
                } else if !conditions_ok {
                    StartCheck::ConditionFailed
                } else if !asserts_ok {
                    StartCheck::AssertFailed
                } else {
                    StartCheck::Proceed
                }
            },
        }
    }

    /// Whether the unit, which is in `active_state`, may be started
    /// now. On `Ok` the start is handed to the unit's kind.
    pub fn start(&self, active_state: UnitActiveState, conditions_ok: bool, asserts_ok: bool) -> (r:
        Result<(), UnitActionError>)
        ensures
            r == start_answer(
                start_check(active_state, self.spec_load_state(), conditions_ok, asserts_ok),
            ),
    {
        match self.start_precheck(active_state, conditions_ok, asserts_ok) {
            StartCheck::Proceed => Ok(()),
            StartCheck::Already => Err(UnitActionError::UnitActionEAlready),
            StartCheck::Busy => Err(UnitActionError::UnitActionEAgain),
            StartCheck::NotLoaded | StartCheck::ConditionFailed | StartCheck::AssertFailed => Err(
                UnitActionError::UnitActionEInval,
            ),
        }
    }

    /// Whether the unit, which is in `active_state`, may be stopped now.
    /// On `Ok` the stop is handed to the unit's kind.
    pub fn stop(&self, active_state: UnitActiveState, force: bool) -> (r: Result<
        (),
        UnitActionError,
    >)
        ensures
            r == stop_answer(active_state, force),
    {
        if !force {
            let inactive_or_failed = active_state == UnitActiveState::UnitInActive || active_state
                == UnitActiveState::UnitFailed;
            if inactive_or_failed {
                return Err(UnitActionError::UnitActionEAlready);
            }
        }
        Ok(())
    }

    pub fn load_state(&self) -> (r: UnitLoadState)
        ensures
            r == self.spec_load_state(),
    {
        self.load_state
    }

    pub fn set_load_state(&mut self, state: UnitLoadState)
        ensures
            final(self).spec_load_state() == state,
            final(self).same_identity(old(self)),
            final(self).spec_config() == old(self).spec_config(),
    {
        self.load_state = state;
    }

    pub fn unit_type(&self) -> (r: UnitType)
        ensures
            r == self.spec_unit_type(),
    {
        self.unit_type
    }

    /// Adds `pid` to the unit's children unless it is among them.
    pub fn child_add_pids(&mut self, pid: i32)
        ensures
            final(self).spec_child_pids() == if old(self).spec_child_pids().contains(pid) {
                old(self).spec_child_pids()
            } else {
                old(self).spec_child_pids().push(pid)
            },
            final(self).spec_id() == old(self).spec_id(),
            final(self).spec_load_state() == old(self).spec_load_state(),
    {
        let mut i: usize = 0;
        while i < self.child_pids.len()
            invariant
                i <= self.child_pids.len(),
                self.child_pids@ == old(self).child_pids@,
                self.id == old(self).id,
                self.load_state == old(self).load_state,
                forall|k: int| 0 <= k < i ==> self.child_pids@[k] != pid,
            decreases self.child_pids.len() - i,
        {
            if self.child_pids[i] == pid {
                return ;
            }
            i += 1;
        }
        self.child_pids.push(pid);
    }

    /// Takes the first `pid` out of the unit's children.
    pub fn child_remove_pids(&mut self, pid: i32)
        ensures
            final(self).spec_child_pids() == match first_index(
                old(self).spec_child_pids(),
                pid,
                old(self).spec_child_pids().len() as int,
            ) {
                Some(i) => old(self).spec_child_pids().remove(i),
                None => old(self).spec_child_pids(),
            },
            final(self).spec_id() == old(self).spec_id(),
            final(self).spec_load_state() == old(self).spec_load_state(),
    {
        let mut i: usize = 0;
        while i < self.child_pids.len()
            invariant
                i <= self.child_pids.len(),
                self.child_pids@ == old(self).child_pids@,
                self.id == old(self).id,
                self.load_state == old(self).load_state,
                first_index(self.child_pids@, pid, i as int) is None,
            decreases self.child_pids.len() - i,
        {
            if self.child_pids[i] == pid {
                proof {
                    lemma_first_index_found(
                        self.child_pids@,
                        pid,
                        i as int,
                        self.child_pids@.len() as int,
                    );
                }
                self.child_pids.remove(i);
                return ;
            }
            i += 1;
        }
    }

    pub fn child_pids(&self) -> (r: &Vec<i32>)
        ensures
            r@ == self.spec_child_pids(),
    {
        &self.child_pids
    }
}

/// How a unit and the job that started it are marked when a start is
/// held back: a condition that does not hold leaves the unit inactive
/// and the job skipped, an assertion that does not hold makes the unit
/// failed; nothing else leaves a mark.
pub open spec fn start_mark(check: StartCheck) -> Option<(UnitActiveState, JobResult)> {
    match check {
        StartCheck::ConditionFailed => Some((UnitActiveState::UnitInActive, JobResult::JobSkipped)),
        StartCheck::AssertFailed => Some((UnitActiveState::UnitFailed, JobResult::JobAssert)),
        _ => None,
    }
}

/// Computes [`start_mark`].
pub fn start_failure_mark(check: StartCheck) -> (r: Option<(UnitActiveState, JobResult)>)
    ensures
        r == start_mark(check),
{
    match check {
        StartCheck::ConditionFailed => Some((UnitActiveState::UnitInActive, JobResult::JobSkipped)),
        StartCheck::AssertFailed => Some((UnitActiveState::UnitFailed, JobResult::JobAssert)),
        _ => None,
    }
}

/// What asking to start the unit called `name` answers: that there is
/// no such unit, or what stands before its start, or its place in the
/// registry, at which the start goes on.
pub fn start_by_name(units: &UnitSets, name: &String, conditions_ok: bool, asserts_ok: bool) -> (r:
    Result<usize, UnitActionError>)
    ensures
        match name_index(units@, name@, units@.len() as int) {
            None => r == Err::<usize, UnitActionError>(UnitActionError::UnitActionENoent),
            Some(i) => match start_answer(
                start_check(
                    units@[i].active_state,
                    units@[i].load_state,
                    conditions_ok,
                    asserts_ok,
                ),
            ) {
                Ok(()) => r == Ok::<usize, UnitActionError>(i as usize),
                Err(e) => r == Err::<usize, UnitActionError>(e),
            },
        },
{
    let at = match units.get(name) {
        Some(at) => at,
        None => {
            return Err(UnitActionError::UnitActionENoent);
        },
    };
    proof {
        crate::unit_sets::lemma_name_index(units@, name@, units@.len() as int);
    }
    let unit = units.unit(at);
    match unit.active_state {
        UnitActiveState::UnitActive
        | UnitActiveState::UnitReloading
        | UnitActiveState::UnitActivating => Err(UnitActionError::UnitActionEAlready),
        UnitActiveState::UnitMaintenance => Err(UnitActionError::UnitActionEAgain),
        _ => {
            if unit.load_state != UnitLoadState::UnitLoaded || !conditions_ok || !asserts_ok {
                Err(UnitActionError::UnitActionEInval)
            } else {
                Ok(at)
            }
        },
    }
}

/// Only a loaded unit is let through to a start: a unit that becomes
/// activating or active by a start is loaded.
pub proof fn lemma_start_needs_loaded(
    active_state: UnitActiveState,
    load_state: UnitLoadState,
    conditions_ok: bool,
    asserts_ok: bool,
)
    ensures
        start_answer(start_check(active_state, load_state, conditions_ok, asserts_ok)) is Ok
            ==> load_state == UnitLoadState::UnitLoaded && conditions_ok && asserts_ok,
{
}

/// Whether a process of a unit's control group gets the signal that is
/// sent to the group: every process but the manager itself and the two
/// that were signalled by name.
pub open spec fn group_target(pid: i32, own: i32, main_pid: Option<i32>, control_pid: Option<i32>) -> bool {
    pid != own && main_pid != Some(pid) && control_pid != Some(pid)
}

/// The processes of a control group that get the signal, in the order
/// in which the group lists them.
pub open spec fn group_targets(
    listed: Seq<i32>,
    own: i32,
    main_pid: Option<i32>,
    control_pid: Option<i32>,
) -> Seq<i32> {
    listed.filter(|pid: i32| group_target(pid, own, main_pid, control_pid))
}

/// The processes among `listed`, those of a unit's control group, to
/// which the signal of a [`KillOp::ControlGroup`] goes. `own` is the
/// manager's process.
pub fn kill_group_targets(
    listed: &Vec<i32>,
    own: i32,
    main_pid: Option<i32>,
    control_pid: Option<i32>,
) -> (r: Vec<i32>)
    ensures
        r@ == group_targets(listed@, own, main_pid, control_pid),
{
    let ghost pred = |pid: i32| group_target(pid, own, main_pid, control_pid);
    let mut out: Vec<i32> = Vec::new();
    let mut i: usize = 0;
    proof {
        reveal(Seq::filter);
        assert(listed@.take(0) =~= Seq::<i32>::empty());
    }
    while i < listed.len()
        invariant
            i <= listed.len(),
            pred == (|pid: i32| group_target(pid, own, main_pid, control_pid)),
            out@ == listed@.take(i as int).filter(pred),
        decreases listed.len() - i,
    {
        let pid = listed[i];
        proof {
            reveal(Seq::filter);
            assert(listed@.take(i + 1).drop_last() =~= listed@.take(i as int));
            assert(listed@.take(i + 1).last() == pid);
            assert(pred(pid) == group_target(pid, own, main_pid, control_pid));
        }
        if pid != own && main_pid != Some(pid) && control_pid != Some(pid) {
            out.push(pid);
        }
        i += 1;
    }
    proof {
        assert(listed@.take(listed@.len() as int) =~= listed@);
    }
    out
}

} // verus!
