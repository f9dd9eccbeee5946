//! The socket unit: its settings and its state machine behind the
//! interface that every kind of unit offers.
use crate::error::UnitActionError;
use crate::socket_config::{
    section_outcome, PortModel, SectionSocket, SocketConfig, SocketConfigData, SocketConfigError,
};
use crate::socket_mng::{
    open_fds, restorable, Pending, PortState, SocketEnv, SocketMng, SocketModel, SocketOp,
};
use crate::socket_addr::SockType;
use crate::socket_rentry::{
    socket_active_state, PortType, SocketCommand, SocketResult, SocketState,
};
use crate::manager::ReliLastFrame;
use crate::reliability::Reliability;
use crate::unit::UnitObj;
use crate::unit_sets::UnitType;
use crate::unit_base::WaitStatus;
use crate::unit_dep_conf::{relations_unique, UnitDepConf};
use crate::unit_rel::UnitRelations;
use crate::unit_state::UnitActiveState;
use vstd::prelude::*;

verus! {

/// Why a socket unit could not be loaded.
#[derive(Clone, Copy, PartialEq, Eq, Debug, Structural)]
pub enum SocketLoadError {
    /// The settings are faulty.
    Config(SocketConfigError),
    /// The unit names no service and its own name does not end in
    /// `.socket`, so that none can be derived.
    NoService,
    /// The unit has no listener.
    NoListen,
}

/// What the manager knows of the units around a socket unit.
#[derive(Clone, Copy, PartialEq, Eq, Debug, Structural)]
pub struct SocketFacts {
    /// Why the service cannot be enabled, if it cannot.
    pub service_error: Option<UnitActionError>,
    /// The unit may be started once more within its rate limit.
    pub start_limit_ok: bool,
    /// A stop is planned that new connections must give way to.
    pub has_stop_job: bool,
    /// The triggered service is up or about to be.
    pub active_or_pending: bool,
}

/// The recorded state of one port.
pub struct SocketRePort {
    pub p_type: PortType,
    pub listen: String,
    pub fd: i32,
}

/// The recorded state of a socket unit.
pub struct SocketReMng {
    pub state: SocketState,
    pub result: SocketResult,
    pub control_pid: Option<i32>,
    pub control_cmd_type: Option<SocketCommand>,
    pub control_cmd_len: usize,
    pub refused: i32,
    pub ports: Vec<SocketRePort>,
}

/// `str::strip_suffix` with the suffix `.socket`: the name without the
/// suffix where it ends in it, and nothing where it does not.
#[verifier::external_body]
fn strip_socket_suffix(name: &str) -> (r: Option<&str>)
    ensures
        match r {
            Some(stem) => name@ == stem@ + ".socket"@,
            None => !(name@.len() >= ".socket"@.len() && name@.subrange(
                name@.len() - ".socket"@.len(),
                name@.len() as int,
            ) == ".socket"@),
        },
{
    name.strip_suffix(".socket")
}

/// `format!` of a stem and the suffix `.service`: the two written one
/// after the other.
#[verifier::external_body]
fn service_name(stem: &str) -> (r: String)
    ensures
        r@ == stem@ + ".service"@,
{
    format!("{}.service", stem)
}

/// Whether a name ends in `.socket`.
pub open spec fn ends_with_socket(name: Seq<char>) -> bool {
    name.len() >= 7 && name.subrange(name.len() - 7, name.len() as int) == ".socket"@
}

/// The name of the service that goes with the socket unit called
/// `owner`: the same name with `.service` in place of `.socket`.
pub open spec fn derived_service(owner: Seq<char>) -> Seq<char> {
    owner.subrange(0, owner.len() - 7) + ".service"@
}

/// The name of the service that a socket unit triggers: the one that
/// its settings name, or else the one derived from its own name.
pub open spec fn socket_service_name(owner: Seq<char>, section: SectionSocket) -> Seq<char> {
    match section.Service {
        Some(service) => service@,
        None => derived_service(owner),
    }
}

/// Whether `deps` are the dependencies of a socket unit on the service
/// called `service`: the unit comes before it, and triggers it.
pub open spec fn service_deps(deps: UnitDepConf, service: Seq<char>) -> bool {
    &&& relations_unique(deps.deps@)
    &&& deps.deps@.len() == 2
    &&& deps.deps@[0].relation == UnitRelations::UnitBefore
    &&& deps.deps@[1].relation == UnitRelations::UnitTriggers
    &&& deps.deps@[0].names@.len() == 1
    &&& deps.deps@[1].names@.len() == 1
    &&& deps.deps@[0].names@[0]@ == service
    &&& deps.deps@[1].names@[0]@ == service
}

/// Whether a record and the descriptors that come with it fit the
/// listeners that are configured: one recorded port and one descriptor
/// for each listener, of the listener's type and text.
pub open spec fn record_fits(ports: Seq<PortModel>, record: SocketReMng, fds: Seq<i32>) -> bool {
    &&& record.ports@.len() == ports.len()
    &&& fds.len() == ports.len()
    &&& forall|i: int|
        0 <= i < ports.len() ==> (#[trigger] record.ports@[i]).p_type == ports[i].p_type
            && record.ports@[i].listen@ == ports[i].listen
}

/// What is wrong with the settings of the socket unit called `owner`,
/// if anything: first a fault of the settings themselves, then a
/// service that is neither named nor can be derived from the unit's
/// name, then a derived service that cannot be loaded, then the lack of
/// any listener.
pub open spec fn socket_load_error(
    owner: Seq<char>,
    section: SectionSocket,
    service_loaded: bool,
    ipv6: bool,
) -> Option<SocketLoadError> {
    match section_outcome(section, service_loaded, ipv6) {
        Err(e) => Some(SocketLoadError::Config(e)),
        Ok(ports) => if section.Service is None && !ends_with_socket(owner) {
            Some(SocketLoadError::NoService)
        } else if section.Service is None && !service_loaded {
            Some(SocketLoadError::Config(SocketConfigError::ServiceLoad))
        } else if ports.len() == 0 {
            Some(SocketLoadError::NoListen)
        } else {
            None
        },
    }
}

/// The environment of the machine that goes with settings and facts.
pub open spec fn env_of(data: SocketConfigData, has_service: bool, facts: SocketFacts)
    -> SocketEnv {
    SocketEnv {
        accept: data.Socket.Accept,
        has_service,
        start_pre: data.Socket.ExecStartPre@.len() as usize,
        start_post: data.Socket.ExecStartPost@.len() as usize,
        stop_pre: data.Socket.ExecStopPre@.len() as usize,
        stop_post: data.Socket.ExecStopPost@.len() as usize,
        service_error: facts.service_error,
        start_limit_ok: facts.start_limit_ok,
        has_stop_job: facts.has_stop_job,
        active_or_pending: facts.active_or_pending,
    }
}

/// The closed ports that a list of listeners gives the machine.
pub open spec fn built_ports(ports: Seq<PortModel>) -> Seq<PortState> {
    Seq::new(
        ports.len(),
        |i: int|
            PortState {
                p_type: ports[i].p_type,
                can_accept: ports[i].sa.sa_type == SockType::Stream || ports[i].sa.sa_type
                    == SockType::SeqPacket,
                fd: -1i32,
                watched: false,
            },
    )
}

/// The socket unit.
pub struct SocketUnit {
    config: SocketConfig,
    mng: SocketMng,
}

impl SocketUnit {
    /// The machine.
    pub open spec fn mng(&self) -> SocketModel {
        self.spec_mng()@
    }

    /// The machine as it is held.
    pub closed spec fn spec_mng(&self) -> SocketMng {
        self.mng
    }

    /// The settings.
    pub closed spec fn config(&self) -> SocketConfig {
        self.config
    }

    /// The socket unit called `owner`: nothing configured, at rest.
    pub fn new(owner: String) -> (r: SocketUnit)
        ensures
            r.config().spec_owner() == owner@,
            r.config().is_reset(),
            r.mng().state == SocketState::Dead,
            r.mng().result == SocketResult::Success,
            r.mng().ports.len() == 0,
            r.mng().ops.len() == 0,
            r.mng().pending == Pending::Idle,
            r.mng().watch_consistent(),
    {
        let config = SocketConfig::new(owner);
        let env = SocketEnv {
            accept: false,
            has_service: false,
            start_pre: 0,
            start_post: 0,
            stop_pre: 0,
            stop_post: 0,
            service_error: None,
            start_limit_ok: true,
            has_stop_job: false,
            active_or_pending: false,
        };
        SocketUnit { config, mng: SocketMng::new(env) }
    }

    /// Tells the machine what the manager knows of the units around it.
    pub fn attach_facts(&mut self, facts: SocketFacts)
        ensures
            final(self).config() == old(self).config(),
            final(self).mng() == (SocketModel {
                env: env_of(
                    old(self).config().spec_data(),
                    old(self).config().spec_service().spec_target() is Some,
                    facts,
                ),
                ..old(self).mng()
            }),
    {
        let has_service = self.config.unit_ref_target().is_some();
        let env = SocketEnv {
            accept: self.config.config_data().Socket.Accept,
            has_service,
            start_pre: self.config.cmd_count(SocketCommand::StartPre),
            start_post: self.config.cmd_count(SocketCommand::StartPost),
            stop_pre: self.config.cmd_count(SocketCommand::StopPre),
            stop_post: self.config.cmd_count(SocketCommand::StopPost),
            service_error: facts.service_error,
            start_limit_ok: facts.start_limit_ok,
            has_stop_job: facts.has_stop_job,
            active_or_pending: facts.active_or_pending,
        };
        self.mng.set_env(env);
    }

    /// Takes the settings that were read from the unit's files and
    /// builds the ports. A unit that names no service triggers the
    /// service of its own name. Returns the dependencies that the unit
    /// has on its service: it comes before it and triggers it.
    ///
    /// Where [`socket_load_error`] finds a fault, nothing is configured
    /// afterwards, the ports are as they were, and the fault is
    /// returned.
    pub fn load(&mut self, data: SocketConfigData, service_loaded: bool, ipv6: bool) -> (r: Result<
        UnitDepConf,
        SocketLoadError,
    >)
        ensures
            final(self).config().spec_owner() == old(self).config().spec_owner(),
            match socket_load_error(
                old(self).config().spec_owner(),
                data.Socket,
                service_loaded,
                ipv6,
            ) {
                Some(e) => r is Err && r->Err_0 == e && final(self).config().is_reset() && final(self).mng() == old(self).mng(),
                None => r is Ok && section_outcome(data.Socket, service_loaded, ipv6) == Ok::<
                    Seq<PortModel>,
                    SocketConfigError,
                >(final(self).config().spec_ports()) && final(self).config().spec_data() == data
                    && final(self).mng() == (SocketModel {
                    ports: old(self).mng().ports + built_ports(final(self).config().spec_ports()),
                    ..old(self).mng()
                }) && final(self).config().spec_service().spec_target() is Some && final(self).config().spec_service().spec_target()->0@ == socket_service_name(
                    old(self).config().spec_owner(),
                    data.Socket,
                ) && service_deps(
                    r->Ok_0,
                    socket_service_name(old(self).config().spec_owner(), data.Socket),
                ),
            },
            old(self).mng().watch_consistent() ==> final(self).mng().watch_consistent(),
    {
        match self.config.load(data, service_loaded, ipv6) {
            Err(e) => {
                return Err(SocketLoadError::Config(e));
            },
            Ok(()) => {},
        }
        let deps = match self.socket_add_extras(service_loaded) {
            Err(e) => {
                self.config.reset();
                return Err(e);
            },
            Ok(deps) => deps,
        };
        if self.config.ports().len() == 0 {
            self.config.reset();
            return Err(SocketLoadError::NoListen);
        }
        self.build_ports();
        Ok(deps)
    }

    /// Finds the service of a unit that names none, and says what the
    /// unit depends on.
    fn socket_add_extras(&mut self, service_loaded: bool) -> (r: Result<
        UnitDepConf,
        SocketLoadError,
    >)
        ensures
            final(self).mng == old(self).mng,
            final(self).config().spec_owner() == old(self).config().spec_owner(),
            final(self).config().spec_ports() == old(self).config().spec_ports(),
            final(self).config().spec_data() == old(self).config().spec_data(),
            match old(self).config().spec_service().spec_target() {
                Some(target) => r is Ok && final(self).config().spec_service().spec_target()
                    == Some(target) && service_deps(r->Ok_0, target@),
                None => if !ends_with_socket(old(self).config().spec_owner()) {
                    r is Err && r->Err_0 == SocketLoadError::NoService
                } else if !service_loaded {
                    r is Err && r->Err_0 == SocketLoadError::Config(SocketConfigError::ServiceLoad)
                } else {
                    r is Ok && final(self).config().spec_service().spec_target() is Some && final(self).config().spec_service().spec_target()->0@ == derived_service(
                        old(self).config().spec_owner(),
                    ) && service_deps(r->Ok_0, derived_service(old(self).config().spec_owner()))
                },
            },
    {
        proof {
            reveal_strlit(".socket");
        }
        let service = match self.config.unit_ref_target() {
            Some(service) => service,
            None => {
                let owner = self.config.owner_name();
                let stem = match strip_socket_suffix(owner.as_str()) {
                    Some(stem) => stem,
                    None => {
                        return Err(SocketLoadError::NoService);
                    },
                };
                proof {
                    assert(owner@.subrange(owner@.len() - 7, owner@.len() as int) =~= ".socket"@);
                    assert(owner@.subrange(0, owner@.len() - 7) =~= stem@);
                }
                let name = service_name(stem);
                match self.config.set_unit_ref(name.clone(), service_loaded) {
                    Err(e) => {
                        return Err(SocketLoadError::Config(e));
                    },
                    Ok(()) => {},
                }
                name
            },
        };
        let mut deps = UnitDepConf::new();
        let mut before: Vec<String> = Vec::new();
        before.push(service.clone());
        deps.insert(UnitRelations::UnitBefore, before);
        let mut triggers: Vec<String> = Vec::new();
        triggers.push(service);
        proof {
            reveal_with_fuel(crate::unit_dep_conf::relation_index, 3);
        }
        deps.insert(UnitRelations::UnitTriggers, triggers);
        Ok(deps)
    }

    /// Gives the machine one closed port for each listener.
    fn build_ports(&mut self)
        ensures
            final(self).config == old(self).config,
            final(self).mng() == (SocketModel {
                ports: old(self).mng().ports + built_ports(old(self).config().spec_ports()),
                ..old(self).mng()
            }),
            old(self).mng().watch_consistent() ==> final(self).mng().watch_consistent(),
    {
        let ghost before = self.mng@;
        let ghost models = self.config.spec_ports();
        let confs = self.config.ports();
        let count = confs.len();
        proof {
            assert(before.ports + built_ports(models).take(0) =~= before.ports);
        }
        let mut i: usize = 0;
        while i < count
            invariant
                i <= count,
                crate::socket_config::ports_view(confs@) == models,
                self.config == old(self).config,
                count == confs@.len(),
                count == models.len(),
                self.mng@ == (SocketModel {
                    ports: before.ports + built_ports(models).take(i as int),
                    ..before
                }),
                before.watch_consistent() ==> self.mng@.watch_consistent(),
            decreases count - i,
        {
            let port = &confs[i];
            let p_type = port.p_type();
            let can_accept = port.sa().can_accept();
            proof {
                assert(crate::socket_config::ports_view(confs@)[i as int] == confs@[i as int]@);
            }
            self.mng.build_port(p_type, can_accept);
            proof {
                assert(before.ports + built_ports(models).take(i + 1) =~= (before.ports
                    + built_ports(models).take(i as int)).push(built_ports(models)[i as int]));
            }
            i += 1;
        }
        proof {
            assert(built_ports(models).take(count as int) =~= built_ports(models));
        }
    }

    /// Starts the unit unless it is starting, or cannot start.
    pub fn start(&mut self) -> (r: Result<(), UnitActionError>)
        ensures
            final(self).config() == old(self).config(),
            match old(self).mng().start_check().1 {
                Err(e) => r == Err::<(), UnitActionError>(e) && final(self).mng() == old(self).mng().start_check().0,
                Ok(true) => r is Ok && final(self).mng() == old(self).mng(),
                Ok(false) => r is Ok && final(self).mng() == old(self).mng().enter_start_pre(),
            },
            old(self).mng().watch_consistent() ==> final(self).mng().watch_consistent(),
    {
        let starting = match self.mng.start_check() {
            Err(e) => {
                return Err(e);
            },
            Ok(starting) => starting,
        };
        if starting {
            return Ok(());
        }
        self.mng.start_action();
        Ok(())
    }

    /// Stops the unit unless it is stopping. A forced stop asks no
    /// questions.
    pub fn stop(&mut self, force: bool) -> (r: Result<(), UnitActionError>)
        ensures
            final(self).config() == old(self).config(),
            force ==> r is Ok && final(self).mng() == old(self).mng().enter_stop_pre(
                SocketResult::Success,
            ),
            !force ==> match old(self).mng().stop_check().1 {
                Err(e) => r == Err::<(), UnitActionError>(e) && final(self).mng() == old(self).mng().stop_check().0,
                Ok(true) => r is Ok && final(self).mng() == old(self).mng(),
                Ok(false) => r is Ok && final(self).mng() == old(self).mng().enter_stop_pre(
                    SocketResult::Success,
                ),
            },
            old(self).mng().watch_consistent() ==> final(self).mng().watch_consistent(),
    {
        if !force {
            let stopping = match self.mng.stop_check() {
                Err(e) => {
                    return Err(e);
                },
                Ok(stopping) => stopping,
            };
            if stopping {
                return Ok(());
            }
        }
        self.mng.stop_action();
        Ok(())
    }

    /// A child has changed state. Only the exit or the killing of a
    /// child is acted on.
    pub fn sigchld_events(&mut self, wait_status: WaitStatus)
        ensures
            final(self).config() == old(self).config(),
            final(self).mng() == if wait_status is Exited || wait_status is Signaled {
                old(self).mng().sigchld(crate::socket_mng::sigchld_outcome(wait_status))
            } else {
                old(self).mng()
            },
            old(self).mng().watch_consistent() ==> final(self).mng().watch_consistent(),
    {
        match wait_status {
            WaitStatus::Exited { pid, code } => {
                self.mng.sigchld_event(wait_status);
            },
            WaitStatus::Signaled { pid, signal, core_dump } => {
                self.mng.sigchld_event(wait_status);
            },
            _ => {},
        }
    }

    pub fn current_active_state(&self) -> (r: UnitActiveState)
        ensures
            r == socket_active_state(self.mng().state),
    {
        self.mng.current_active_state()
    }

    /// The name of the state of the machine.
    pub fn get_subunit_state(&self) -> (r: &'static str)
        ensures
            r@ == crate::socket_mng::socket_state_name(self.mng().state),
    {
        self.mng.get_state()
    }

    /// The descriptors of the open ports, in order.
    pub fn collect_fds(&self) -> (r: Vec<i32>)
        ensures
            r@ == open_fds(self.mng().ports, self.mng().ports.len() as int),
    {
        self.mng.collect_fds()
    }

    /// The settings.
    pub fn get_config(&self) -> (r: &SocketConfig)
        ensures
            *r == self.config(),
    {
        &self.config
    }

    /// The machine, to feed it the answers to its operations.
    pub fn machine(&mut self) -> (r: &mut SocketMng)
        ensures
            *r == old(self).spec_mng(),
            *final(r) == final(self).spec_mng(),
            final(self).config() == old(self).config(),
    {
        &mut self.mng
    }

    /// The port at place `port` is ready. The journal is marked for the
    /// time that the machine takes to react, and cleared thereafter.
    pub fn dispatch(&mut self, reli: &mut Reliability, port: usize) -> (r: i32)
        ensures
            r == 0,
            final(self).config() == old(self).config(),
            final(self).mng() == old(self).mng().dispatch_io(port),
            final(reli).spec_last_frame() is None,
            final(reli).spec_last_unit() is None,
            final(reli).spec_enable() == old(reli).spec_enable(),
            old(self).mng().watch_consistent() ==> final(self).mng().watch_consistent(),
    {
        reli.set_last_frame2(ReliLastFrame::SubManager, UnitType::UnitSocket);
        reli.set_last_unit(self.config.owner_name());
        self.mng.dispatch_io(port);
        reli.clear_last_unit();
        reli.clear_last_frame();
        0
    }

    /// After recorded state has been taken up: registers the open ports
    /// with the event loop again and asks for the closed ones to be
    /// opened anew.
    pub fn entry_coldplug(&mut self)
        ensures
            final(self).config() == old(self).config(),
            final(self).mng() == old(self).mng().coldplug(),
    {
        self.mng.entry_coldplug();
    }

    /// Disables the port event sources.
    pub fn entry_clear(&mut self)
        ensures
            final(self).config() == old(self).config(),
            final(self).mng() == old(self).mng().unwatch_fds(),
    {
        self.mng.entry_clear();
    }

    /// The state of the unit as it is recorded.
    pub fn db_insert(&self) -> (r: SocketReMng)
        ensures
            r.state == self.mng().state,
            r.result == self.mng().result,
            r.control_pid == self.mng().control_pid,
            r.control_cmd_type == self.mng().control_cmd_type,
            r.control_cmd_len == self.mng().control_cmd_len,
            r.refused == self.mng().refused,
            r.ports@.len() == if self.mng().ports.len() <= self.config().spec_ports().len() {
                self.mng().ports.len()
            } else {
                self.config().spec_ports().len()
            },
            forall|i: int|
                0 <= i < r.ports@.len() ==> (#[trigger] r.ports@[i]).p_type
                    == self.mng().ports[i].p_type && r.ports@[i].fd == self.mng().ports[i].fd
                    && r.ports@[i].listen@ == self.config().spec_ports()[i].listen,
    {
        let states = self.mng.ports();
        let confs = self.config.ports();
        let mut ports: Vec<SocketRePort> = Vec::new();
        let mut i: usize = 0;
        while i < states.len() && i < confs.len()
            invariant
                states@ == self.mng@.ports,
                crate::socket_config::ports_view(confs@) == self.config.spec_ports(),
                i <= states@.len(),
                i <= confs@.len(),
                ports@.len() == i,
                forall|k: int|
                    0 <= k < i ==> (#[trigger] ports@[k]).p_type == states@[k].p_type && ports@[k].fd
                        == states@[k].fd && ports@[k].listen@ == confs@[k]@.listen,
            decreases states.len() - i,
        {
            ports.push(
                SocketRePort {
                    p_type: states[i].p_type,
                    listen: confs[i].listen().to_owned(),
                    fd: states[i].fd,
                },
            );
            i += 1;
        }
        SocketReMng {
            state: self.mng.state(),
            result: self.mng.result(),
            control_pid: self.mng.control_pid(),
            control_cmd_type: self.mng.control_cmd_type(),
            control_cmd_len: self.mng.control_cmd_len(),
            refused: self.mng.refused(),
            ports,
        }
    }

    /// Takes up recorded state. The record must have, port by port, the
    /// type and the text of the listeners that are configured; `fds` are
    /// the descriptors that could be taken over for them, negative where
    /// one could not. A record that does not fit is turned down and
    /// nothing changes.
    pub fn db_map(&mut self, record: &SocketReMng, fds: &Vec<i32>) -> (ok: bool)
        ensures
            final(self).config() == old(self).config(),
            ok == (record_fits(old(self).config().spec_ports(), *record, fds@) && restorable(
                old(self).mng(),
                record.control_cmd_type,
                record.control_cmd_len,
                fds@,
            )),
            !ok ==> final(self).mng() == old(self).mng(),
            ok ==> final(self).mng() == (SocketModel {
                state: record.state,
                result: record.result,
                control_pid: record.control_pid,
                control_cmd_type: record.control_cmd_type,
                control_cmd_len: record.control_cmd_len,
                refused: record.refused,
                pending: Pending::Idle,
                ports: Seq::new(
                    old(self).mng().ports.len(),
                    |i: int| PortState { fd: fds@[i], watched: false, ..old(self).mng().ports[i] },
                ),
                ..old(self).mng()
            }),
    {
        let confs = self.config.ports();
        let ghost models = self.config.spec_ports();
        if record.ports.len() != confs.len() || fds.len() != confs.len() {
            return false;
        }
        let mut i: usize = 0;
        while i < confs.len()
            invariant
                i <= confs.len(),
                record.ports@.len() == confs@.len(),
                crate::socket_config::ports_view(confs@) == models,
                models == old(self).config().spec_ports(),
                models.len() == confs@.len(),
                forall|k: int|
                    0 <= k < i ==> (#[trigger] record.ports@[k]).p_type == models[k].p_type
                        && record.ports@[k].listen@ == models[k].listen,
            decreases confs.len() - i,
        {
            proof {
                assert(models[i as int] == confs@[i as int]@);
            }
            if record.ports[i].p_type != confs[i].p_type() || !str_equal(
                record.ports[i].listen.as_str(),
                confs[i].listen(),
            ) {
                proof {
                    assert(!(record.ports@[i as int].p_type == models[i as int].p_type
                        && record.ports@[i as int].listen@ == models[i as int].listen));
                }
                return false;
            }
            i += 1;
        }
        self.mng.restore(
            record.state,
            record.result,
            record.control_pid,
            record.control_cmd_type,
            record.control_cmd_len,
            record.refused,
            fds,
        )
    }

    /// Hands over the operations that have come up, in order.
    pub fn take_ops(&mut self) -> (r: Vec<SocketOp>)
        ensures
            r@ == old(self).mng().ops,
            final(self).mng() == (SocketModel { ops: Seq::empty(), ..old(self).mng() }),
            final(self).config() == old(self).config(),
    {
        self.mng.take_ops()
    }
}

fn str_equal(a: &str, b: &str) -> (r: bool)
    ensures
        r == (a@ == b@),
{
    let x = a.to_owned();
    let y = b.to_owned();
    x == y
}

impl UnitObj for SocketUnit {
    fn start(&mut self) -> (r: Result<(), UnitActionError>) {
        SocketUnit::start(self)
    }

    fn stop(&mut self, force: bool) -> (r: Result<(), UnitActionError>) {
        SocketUnit::stop(self, force)
    }

    fn sigchld_events(&mut self, wait_status: WaitStatus) {
        SocketUnit::sigchld_events(self, wait_status)
    }

    fn collect_fds(&self) -> (r: Vec<i32>) {
        SocketUnit::collect_fds(self)
    }

    fn current_active_state(&self) -> (r: UnitActiveState) {
        SocketUnit::current_active_state(self)
    }
}

} // verus!
