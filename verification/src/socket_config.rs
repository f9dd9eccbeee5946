//! What a socket unit is configured to do: its listeners, its commands
//! and the service it triggers.
use crate::socket_addr::{
    parse_address, parse_netlink, parse_netlink_address, parse_socket_address, AddressError,
    SockType, SocketAddress, SocketAddressModel,
};
use crate::socket_rentry::{PortType, SocketCommand};
use crate::unit_base::{ExecCommand, KillContext, KillMode, Signal};
use vstd::prelude::*;
use vstd::utf8::encode_utf8;

verus! {

/// A reference from one unit to another.
pub struct UnitRef {
    source: Option<String>,
    target: Option<String>,
}

impl UnitRef {
    pub closed spec fn spec_source(&self) -> Option<String> {
        self.source
    }

    pub closed spec fn spec_target(&self) -> Option<String> {
        self.target
    }

    pub fn new() -> (r: Self)
        ensures
            r.spec_source() is None,
            r.spec_target() is None,
    {
        UnitRef { source: None, target: None }
    }

    pub fn set_ref(&mut self, source: String, target: String)
        ensures
            final(self).spec_source() == Some(source),
            final(self).spec_target() == Some(target),
    {
        self.source = Some(source);
        self.target = Some(target);
    }

    pub fn target(&self) -> (r: Option<&String>)
        ensures
            match r {
                Some(t) => self.spec_target() == Some(*t),
                None => self.spec_target() is None,
            },
    {
        self.target.as_ref()
    }
}

impl Default for UnitRef {
    fn default() -> (r: UnitRef)
        ensures
            r.spec_source() is None,
            r.spec_target() is None,
    {
        UnitRef::new()
    }
}

/// The `[Socket]` section of a unit file.
#[allow(non_snake_case)]
pub struct SectionSocket {
    pub ExecStartPre: Vec<ExecCommand>,
    pub ExecStartPost: Vec<ExecCommand>,
    pub ExecStopPre: Vec<ExecCommand>,
    pub ExecStopPost: Vec<ExecCommand>,
    pub ListenStream: Vec<String>,
    pub ListenDatagram: Vec<String>,
    pub ListenNetlink: Vec<String>,
    pub ListenSequentialPacket: Vec<String>,
    pub Accept: bool,
    pub Service: Option<String>,
    pub KillMode: KillMode,
}

/// What a socket unit file says.
#[allow(non_snake_case)]
pub struct SocketConfigData {
    pub Socket: SectionSocket,
}

impl Default for SectionSocket {
    /// Nothing is set: no listeners, no commands, one service for all
    /// connections, and the whole control group is killed.
    fn default() -> (r: SectionSocket)
        ensures
            r.ExecStartPre@.len() == 0,
            r.ExecStartPost@.len() == 0,
            r.ExecStopPre@.len() == 0,
            r.ExecStopPost@.len() == 0,
            r.ListenStream@.len() == 0,
            r.ListenDatagram@.len() == 0,
            r.ListenNetlink@.len() == 0,
            r.ListenSequentialPacket@.len() == 0,
            !r.Accept,
            r.Service is None,
            r.KillMode == KillMode::ControlGroup,
    {
        SectionSocket {
            ExecStartPre: Vec::new(),
            ExecStartPost: Vec::new(),
            ExecStopPre: Vec::new(),
            ExecStopPost: Vec::new(),
            ListenStream: Vec::new(),
            ListenDatagram: Vec::new(),
            ListenNetlink: Vec::new(),
            ListenSequentialPacket: Vec::new(),
            Accept: false,
            Service: None,
            KillMode: KillMode::ControlGroup,
        }
    }
}

impl Default for SocketConfigData {
    fn default() -> (r: SocketConfigData)
        ensures
            r.Socket.ExecStartPre@.len() == 0,
            r.Socket.ExecStartPost@.len() == 0,
            r.Socket.ExecStopPre@.len() == 0,
            r.Socket.ExecStopPost@.len() == 0,
            r.Socket.ListenStream@.len() == 0,
            r.Socket.ListenDatagram@.len() == 0,
            r.Socket.ListenNetlink@.len() == 0,
            r.Socket.ListenSequentialPacket@.len() == 0,
            !r.Socket.Accept,
            r.Socket.Service is None,
            r.Socket.KillMode == KillMode::ControlGroup,
    {
        SocketConfigData { Socket: SectionSocket::default() }
    }
}

impl SocketConfigData {
    #[allow(non_snake_case)]
    pub fn new(Socket: SectionSocket) -> (r: SocketConfigData)
        ensures
            r.Socket == Socket,
    {
        SocketConfigData { Socket }
    }

    /// The commands at the hook `cmd_type`.
    pub fn get_exec_cmds(&self, cmd_type: SocketCommand) -> (r: &Vec<ExecCommand>)
        ensures
            *r == match cmd_type {
                SocketCommand::StartPre => self.Socket.ExecStartPre,
                SocketCommand::StartPost => self.Socket.ExecStartPost,
                SocketCommand::StopPre => self.Socket.ExecStopPre,
                SocketCommand::StopPost => self.Socket.ExecStopPost,
            },
    {
        match cmd_type {
            SocketCommand::StartPre => &self.Socket.ExecStartPre,
            SocketCommand::StartPost => &self.Socket.ExecStartPost,
            SocketCommand::StopPre => &self.Socket.ExecStopPre,
            SocketCommand::StopPost => &self.Socket.ExecStopPost,
        }
    }

    pub fn listen_stream(&self) -> (r: &Vec<String>)
        ensures
            *r == self.Socket.ListenStream,
    {
        &self.Socket.ListenStream
    }

    pub fn listen_datagram(&self) -> (r: &Vec<String>)
        ensures
            *r == self.Socket.ListenDatagram,
    {
        &self.Socket.ListenDatagram
    }

    pub fn listen_netlink(&self) -> (r: &Vec<String>)
        ensures
            *r == self.Socket.ListenNetlink,
    {
        &self.Socket.ListenNetlink
    }

    pub fn listen_sequential_packet(&self) -> (r: &Vec<String>)
        ensures
            *r == self.Socket.ListenSequentialPacket,
    {
        &self.Socket.ListenSequentialPacket
    }
}

/// Why a socket unit's settings were turned down.
#[derive(Clone, Copy, PartialEq, Eq, Debug, Structural)]
pub enum SocketConfigError {
    /// The name of the service does not end in `.service`.
    ServiceSuffix,
    /// The service cannot be loaded.
    ServiceLoad,
    /// A stream, datagram or packet listener is not an address.
    Listen(AddressError),
    /// A netlink listener is not an address.
    Netlink(AddressError),
}

/// A listener as a mathematical value.
pub struct PortModel {
    pub p_type: PortType,
    pub sa: SocketAddressModel,
    pub listen: Seq<char>,
}

/// A listener of a socket unit.
pub struct SocketPortConf {
    p_type: PortType,
    sa: SocketAddress,
    listen: String,
}

impl View for SocketPortConf {
    type V = PortModel;

    closed spec fn view(&self) -> PortModel {
        PortModel { p_type: self.p_type, sa: self.sa@, listen: self.listen@ }
    }
}

impl SocketPortConf {
    pub fn new(p_type: PortType, sa: SocketAddress, listenr: &str) -> (r: SocketPortConf)
        ensures
            r@ == (PortModel { p_type, sa: sa@, listen: listenr@ }),
    {
        SocketPortConf { p_type, sa, listen: listenr.to_owned() }
    }

    pub fn p_type(&self) -> (r: PortType)
        ensures
            r == self@.p_type,
    {
        self.p_type
    }

    pub fn sa(&self) -> (r: &SocketAddress)
        ensures
            r@ == self@.sa,
    {
        &self.sa
    }

    pub fn listen(&self) -> (r: &str)
        ensures
            r@ == self@.listen,
    {
        self.listen.as_str()
    }
}

/// The kinds of listener that a unit file can give.
#[derive(Clone, Copy, PartialEq, Eq, Debug, Structural)]
pub enum ListeningItem {
    Stream,
    Datagram,
    Netlink,
    SequentialPacket,
}

/// The suffix that the name of a service ends in.
pub open spec fn service_suffix() -> Seq<u8> {
    seq![46u8, 115, 101, 114, 118, 105, 99, 101]
}

/// Whether a name ends in `.service`.
pub open spec fn is_service_name(name: Seq<u8>) -> bool {
    name.len() >= 8 && name.subrange(name.len() - 8, name.len() as int) == service_suffix()
}

/// The listeners that the first `upto` of `items` give on sockets of
/// type `socket_type`, in order; an empty item gives none. The first
/// item that is no address ends it.
pub open spec fn parse_listens(items: Seq<String>, socket_type: SockType, ipv6: bool, upto: int)
    -> Result<Seq<PortModel>, SocketConfigError>
    decreases upto,
{
    if upto <= 0 || upto > items.len() {
        Ok(Seq::empty())
    } else {
        match parse_listens(items, socket_type, ipv6, upto - 1) {
            Err(e) => Err(e),
            Ok(ports) => {
                let item = items[upto - 1];
                if item@.len() == 0 {
                    Ok(ports)
                } else {
                    match parse_address(encode_utf8(item@), socket_type, ipv6) {
                        Ok(sa) => Ok(
                            ports.push(PortModel { p_type: PortType::Socket, sa, listen: item@ }),
                        ),
                        Err(e) => Err(SocketConfigError::Listen(e)),
                    }
                }
            },
        }
    }
}

/// The netlink listeners that the first `upto` of `items` give.
pub open spec fn parse_netlinks(items: Seq<String>, upto: int) -> Result<
    Seq<PortModel>,
    SocketConfigError,
>
    decreases upto,
{
    if upto <= 0 || upto > items.len() {
        Ok(Seq::empty())
    } else {
        match parse_netlinks(items, upto - 1) {
            Err(e) => Err(e),
            Ok(ports) => {
                let item = items[upto - 1];
                if item@.len() == 0 {
                    Ok(ports)
                } else {
                    match parse_netlink(encode_utf8(item@)) {
                        Ok(sa) => Ok(
                            ports.push(PortModel { p_type: PortType::Socket, sa, listen: item@ }),
                        ),
                        Err(e) => Err(SocketConfigError::Netlink(e)),
                    }
                }
            },
        }
    }
}

/// The listeners of one kind that a section gives.
#[verifier::opaque]
pub open spec fn item_ports(section: SectionSocket, item: ListeningItem, ipv6: bool) -> Result<
    Seq<PortModel>,
    SocketConfigError,
> {
    match item {
        ListeningItem::Stream => parse_listens(
            section.ListenStream@,
            SockType::Stream,
            ipv6,
            section.ListenStream@.len() as int,
        ),
        ListeningItem::Datagram => parse_listens(
            section.ListenDatagram@,
            SockType::Datagram,
            ipv6,
            section.ListenDatagram@.len() as int,
        ),
        ListeningItem::Netlink => parse_netlinks(
            section.ListenNetlink@,
            section.ListenNetlink@.len() as int,
        ),
        ListeningItem::SequentialPacket => parse_listens(
            section.ListenSequentialPacket@,
            SockType::SeqPacket,
            ipv6,
            section.ListenSequentialPacket@.len() as int,
        ),
    }
}

/// `ports` with what `more` adds, or the failure of either.
pub open spec fn ports_then(
    ports: Result<Seq<PortModel>, SocketConfigError>,
    more: Result<Seq<PortModel>, SocketConfigError>,
) -> Result<Seq<PortModel>, SocketConfigError> {
    match ports {
        Err(e) => Err(e),
        Ok(p) => match more {
            Err(e) => Err(e),
            Ok(m) => Ok(p + m),
        },
    }
}

/// All listeners of a section: streams, datagrams, netlink, sequenced
/// packets, in this order, or the first failure.
pub open spec fn section_ports(section: SectionSocket, ipv6: bool) -> Result<
    Seq<PortModel>,
    SocketConfigError,
> {
    ports_then(
        ports_then(
            ports_then(
                item_ports(section, ListeningItem::Stream, ipv6),
                item_ports(section, ListeningItem::Datagram, ipv6),
            ),
            item_ports(section, ListeningItem::Netlink, ipv6),
        ),
        item_ports(section, ListeningItem::SequentialPacket, ipv6),
    )
}

/// Whether the service that a section names can be taken: its name must
/// end in `.service`, and it must be loaded.
pub open spec fn section_service(section: SectionSocket, service_loaded: bool) -> Result<
    (),
    SocketConfigError,
> {
    match section.Service {
        None => Ok(()),
        Some(service) => if !is_service_name(encode_utf8(service@)) {
            Err(SocketConfigError::ServiceSuffix)
        } else if !service_loaded {
            Err(SocketConfigError::ServiceLoad)
        } else {
            Ok(())
        },
    }
}

/// What loading a section comes to: its listeners, or the first thing
/// that is wrong with it, the service before the listeners.
pub open spec fn section_outcome(section: SectionSocket, service_loaded: bool, ipv6: bool)
    -> Result<Seq<PortModel>, SocketConfigError> {
    match section_service(section, service_loaded) {
        Err(e) => Err(e),
        Ok(()) => section_ports(section, ipv6),
    }
}

/// The views of a list of listeners.
pub open spec fn ports_view(ports: Seq<SocketPortConf>) -> Seq<PortModel> {
    Seq::new(ports.len(), |i: int| ports[i]@)
}

/// A failure among the first items is the failure of the whole list.
proof fn lemma_parse_listens_err(
    items: Seq<String>,
    socket_type: SockType,
    ipv6: bool,
    k: int,
    upto: int,
)
    requires
        0 <= k <= upto <= items.len(),
        parse_listens(items, socket_type, ipv6, k) is Err,
    ensures
        parse_listens(items, socket_type, ipv6, upto) == parse_listens(items, socket_type, ipv6, k),
    decreases upto - k,
{
    if k < upto {
        lemma_parse_listens_err(items, socket_type, ipv6, k, upto - 1);
    }
}

/// A failure among the first items is the failure of the whole list.
proof fn lemma_parse_netlinks_err(items: Seq<String>, k: int, upto: int)
    requires
        0 <= k <= upto <= items.len(),
        parse_netlinks(items, k) is Err,
    ensures
        parse_netlinks(items, upto) == parse_netlinks(items, k),
    decreases upto - k,
{
    if k < upto {
        lemma_parse_netlinks_err(items, k, upto - 1);
    }
}

fn clone_strings(list: &Vec<String>) -> (r: Vec<String>)
    ensures
        r@ == list@,
{
    let mut out: Vec<String> = Vec::new();
    let mut i: usize = 0;
    while i < list.len()
        invariant
            i <= list.len(),
            out@ == list@.take(i as int),
        decreases list.len() - i,
    {
        out.push(list[i].clone());
        proof {
            assert(list@.take(i + 1) =~= list@.take(i as int).push(list@[i as int]));
        }
        i += 1;
    }
    proof {
        assert(list@.take(list@.len() as int) =~= list@);
    }
    out
}

fn ends_with_service(name: &[u8]) -> (r: bool)
    ensures
        r == is_service_name(name@),
{
    let len = name.len();
    if len < 8 {
        return false;
    }
    let r = name[len - 8] == 46 && name[len - 7] == 115 && name[len - 6] == 101 && name[len - 5]
        == 114 && name[len - 4] == 118 && name[len - 3] == 105 && name[len - 2] == 99 && name[len
        - 1] == 101;
    proof {
        let tail = name@.subrange(len - 8, len as int);
        let suffix = service_suffix();
        assert(suffix.len() == 8 && suffix[0] == 46 && suffix[1] == 115 && suffix[2] == 101
            && suffix[3] == 114 && suffix[4] == 118 && suffix[5] == 105 && suffix[6] == 99
            && suffix[7] == 101);
        if r {
            assert(tail =~= suffix);
        } else {
            assert(tail[0] == name@[len - 8] && tail[1] == name@[len - 7] && tail[2] == name@[len
                - 6] && tail[3] == name@[len - 5] && tail[4] == name@[len - 4] && tail[5]
                == name@[len - 3] && tail[6] == name@[len - 2] && tail[7] == name@[len - 1]);
        }
    }
    r
}

/// The settings of a socket unit.
pub struct SocketConfig {
    owner: String,
    data: SocketConfigData,
    service: UnitRef,
    ports: Vec<SocketPortConf>,
    kill_context: KillContext,
}

impl SocketConfig {
    pub closed spec fn spec_owner(&self) -> Seq<char> {
        self.owner@
    }

    pub closed spec fn spec_data(&self) -> SocketConfigData {
        self.data
    }

    pub closed spec fn spec_service(&self) -> UnitRef {
        self.service
    }

    pub closed spec fn spec_ports(&self) -> Seq<PortModel> {
        ports_view(self.ports@)
    }

    pub closed spec fn spec_kill_context(&self) -> KillContext {
        self.kill_context
    }

    /// Nothing is configured.
    pub open spec fn is_reset(&self) -> bool {
        &&& self.spec_ports().len() == 0
        &&& self.spec_service().spec_target() is None
        &&& self.spec_service().spec_source() is None
        &&& self.spec_data().Socket.ListenStream@.len() == 0
        &&& self.spec_data().Socket.ListenDatagram@.len() == 0
        &&& self.spec_data().Socket.ListenNetlink@.len() == 0
        &&& self.spec_data().Socket.ListenSequentialPacket@.len() == 0
        &&& self.spec_data().Socket.ExecStartPre@.len() == 0
        &&& self.spec_data().Socket.ExecStartPost@.len() == 0
        &&& self.spec_data().Socket.ExecStopPre@.len() == 0
        &&& self.spec_data().Socket.ExecStopPost@.len() == 0
        &&& !self.spec_data().Socket.Accept
        &&& self.spec_data().Socket.Service is None
    }

    /// The settings of the socket unit called `owner`, with nothing
    /// configured.
    pub fn new(owner: String) -> (r: Self)
        ensures
            r.spec_owner() == owner@,
            r.is_reset(),
            r.spec_kill_context() == (KillContext {
                kill_mode: KillMode::ControlGroup,
                kill_signal: Signal::SIGTERM,
                final_signal: Signal::SIGKILL,
            }),
    {
        SocketConfig {
            owner,
            data: SocketConfigData::default(),
            service: UnitRef::new(),
            ports: Vec::new(),
            kill_context: KillContext::new(),
        }
    }

    /// Forgets what was configured.
    pub fn reset(&mut self)
        ensures
            final(self).is_reset(),
            final(self).spec_owner() == old(self).spec_owner(),
            final(self).spec_kill_context() == old(self).spec_kill_context(),
    {
        self.data = SocketConfigData::default();
        self.service = UnitRef::new();
        self.ports = Vec::new();
    }

    /// Takes the settings that were read from the unit's files.
    /// `service_loaded` says whether the service that they name, if any,
    /// can be loaded, and `ipv6` whether the machine has IPv6. Where
    /// anything is wrong, nothing is configured afterwards and the first
    /// fault is returned, that of the service before that of a listener.
    pub fn load(&mut self, data: SocketConfigData, service_loaded: bool, ipv6: bool) -> (r: Result<
        (),
        SocketConfigError,
    >)
        ensures
            final(self).spec_owner() == old(self).spec_owner(),
            final(self).spec_kill_context() == (KillContext {
                kill_mode: data.Socket.KillMode,
                ..old(self).spec_kill_context()
            }),
            match section_outcome(data.Socket, service_loaded, ipv6) {
                Err(e) => r == Err::<(), SocketConfigError>(e) && final(self).is_reset(),
                Ok(ports) => r is Ok && final(self).spec_ports() == ports && final(self).spec_data()
                    == data && final(self).spec_service().spec_target() == data.Socket.Service,
            },
    {
        self.kill_context.set_kill_mode(data.Socket.KillMode);
        self.data = data;
        self.service = UnitRef::new();
        self.ports = Vec::new();
        let ret1 = self.parse_service(service_loaded);
        let ret2 = self.parse_port(ipv6);
        match ret1 {
            Err(e) => {
                self.reset();
                Err(e)
            },
            Ok(()) => match ret2 {
                Err(e) => {
                    self.reset();
                    Err(e)
                },
                Ok(()) => Ok(()),
            },
        }
    }

    /// Takes up the settings and the service as they were recorded, and
    /// builds the listeners anew. `service_loaded` says whether the
    /// recorded service can be loaded. Where it cannot, or where a
    /// listener is no address, nothing is configured afterwards and the
    /// fault is returned.
    pub fn db_map(
        &mut self,
        data: SocketConfigData,
        service: Option<String>,
        service_loaded: bool,
        ipv6: bool,
    ) -> (r: Result<(), SocketConfigError>)
        ensures
            final(self).spec_owner() == old(self).spec_owner(),
            final(self).spec_kill_context() == old(self).spec_kill_context(),
            if service is Some && !service_loaded {
                r == Err::<(), SocketConfigError>(SocketConfigError::ServiceLoad) && final(self).is_reset()
            } else {
                match section_ports(data.Socket, ipv6) {
                    Err(e) => r == Err::<(), SocketConfigError>(e) && final(self).is_reset(),
                    Ok(ports) => r is Ok && final(self).spec_ports() == ports && final(self).spec_data() == data && final(self).spec_service().spec_target() == service,
                }
            },
    {
        self.data = data;
        self.service = UnitRef::new();
        self.ports = Vec::new();
        let ret1 = match service {
            Some(svc) => self.set_unit_ref(svc, service_loaded),
            None => Ok(()),
        };
        let ret2 = self.parse_port(ipv6);
        proof {
            let ports = section_ports(data.Socket, ipv6);
            if ports is Ok {
                assert(Seq::<PortModel>::empty() + ports->Ok_0 =~= ports->Ok_0);
            }
        }
        match ret1 {
            Err(e) => {
                self.reset();
                Err(e)
            },
            Ok(()) => match ret2 {
                Err(e) => {
                    self.reset();
                    Err(e)
                },
                Ok(()) => Ok(()),
            },
        }
    }

    /// The name of the unit that the settings belong to.
    pub fn owner_name(&self) -> (r: String)
        ensures
            r@ == self.spec_owner(),
    {
        self.owner.clone()
    }

    pub fn config_data(&self) -> (r: &SocketConfigData)
        ensures
            *r == self.spec_data(),
    {
        &self.data
    }

    /// The commands at the hook `cmd_type`.
    pub fn get_exec_cmds(&self, cmd_type: SocketCommand) -> (r: &Vec<ExecCommand>)
        ensures
            *r == match cmd_type {
                SocketCommand::StartPre => self.spec_data().Socket.ExecStartPre,
                SocketCommand::StartPost => self.spec_data().Socket.ExecStartPost,
                SocketCommand::StopPre => self.spec_data().Socket.ExecStopPre,
                SocketCommand::StopPost => self.spec_data().Socket.ExecStopPost,
            },
    {
        self.data.get_exec_cmds(cmd_type)
    }

    /// Points the unit at the service called `service`, which must be
    /// loaded.
    pub fn set_unit_ref(&mut self, service: String, service_loaded: bool) -> (r: Result<
        (),
        SocketConfigError,
    >)
        ensures
            final(self).spec_owner() == old(self).spec_owner(),
            final(self).spec_data() == old(self).spec_data(),
            final(self).spec_ports() == old(self).spec_ports(),
            final(self).spec_kill_context() == old(self).spec_kill_context(),
            service_loaded ==> r == Ok::<(), SocketConfigError>(()) && final(self).spec_service().spec_target() == Some(service),
            !service_loaded ==> r == Err::<(), SocketConfigError>(SocketConfigError::ServiceLoad)
                && final(self).spec_service() == old(self).spec_service(),
    {
        if !service_loaded {
            return Err(SocketConfigError::ServiceLoad);
        }
        self.set_ref(service);
        Ok(())
    }

    /// The service that the unit triggers.
    pub fn unit_ref_target(&self) -> (r: Option<String>)
        ensures
            r == self.spec_service().spec_target(),
    {
        match self.service.target() {
            Some(t) => Some(t.clone()),
            None => None,
        }
    }

    pub fn ports(&self) -> (r: &Vec<SocketPortConf>)
        ensures
            ports_view(r@) == self.spec_ports(),
    {
        &self.ports
    }

    fn parse_service(&mut self, service_loaded: bool) -> (r: Result<(), SocketConfigError>)
        ensures
            final(self).spec_owner() == old(self).spec_owner(),
            final(self).spec_data() == old(self).spec_data(),
            final(self).spec_ports() == old(self).spec_ports(),
            final(self).spec_kill_context() == old(self).spec_kill_context(),
            r == section_service(old(self).spec_data().Socket, service_loaded),
            r is Ok ==> final(self).spec_service().spec_target() == match old(self).spec_data().Socket.Service {
                Some(service) => Some(service),
                None => old(self).spec_service().spec_target(),
            },
    {
        let service = match &self.data.Socket.Service {
            Some(service) => service.clone(),
            None => {
                return Ok(());
            },
        };
        let named = ends_with_service(service.as_str().as_bytes());
        if !named {
            return Err(SocketConfigError::ServiceSuffix);
        }
        self.set_unit_ref(service, service_loaded)
    }

    fn parse_port(&mut self, ipv6: bool) -> (r: Result<(), SocketConfigError>)
        ensures
            final(self).spec_owner() == old(self).spec_owner(),
            final(self).spec_data() == old(self).spec_data(),
            final(self).spec_service() == old(self).spec_service(),
            final(self).spec_kill_context() == old(self).spec_kill_context(),
            match ports_then(
                Ok(old(self).spec_ports()),
                section_ports(old(self).spec_data().Socket, ipv6),
            ) {
                Ok(ports) => r is Ok && final(self).spec_ports() == ports,
                Err(e) => r == Err::<(), SocketConfigError>(e),
            },
    {
        let ghost section = self.data.Socket;
        let ghost p0 = self.spec_ports();
        match self.parse_listen_socket(ListeningItem::Stream, ipv6) {
            Err(e) => {
                return Err(e);
            },
            Ok(()) => {},
        }
        match self.parse_listen_socket(ListeningItem::Datagram, ipv6) {
            Err(e) => {
                return Err(e);
            },
            Ok(()) => {},
        }
        match self.parse_listen_socket(ListeningItem::Netlink, ipv6) {
            Err(e) => {
                return Err(e);
            },
            Ok(()) => {},
        }
        let r = self.parse_listen_socket(ListeningItem::SequentialPacket, ipv6);
        proof {
            let a = item_ports(section, ListeningItem::Stream, ipv6);
            let b = item_ports(section, ListeningItem::Datagram, ipv6);
            let c = item_ports(section, ListeningItem::Netlink, ipv6);
            let d = item_ports(section, ListeningItem::SequentialPacket, ipv6);
            if a is Ok && b is Ok && c is Ok && d is Ok {
                assert(p0 + (a->Ok_0 + b->Ok_0 + c->Ok_0 + d->Ok_0) =~= p0 + a->Ok_0 + b->Ok_0
                    + c->Ok_0 + d->Ok_0);
            }
        }
        r
    }

    /// Adds the listeners of the kind `item`.
    pub fn parse_listen_socket(&mut self, item: ListeningItem, ipv6: bool) -> (r: Result<
        (),
        SocketConfigError,
    >)
        ensures
            final(self).spec_owner() == old(self).spec_owner(),
            final(self).spec_data() == old(self).spec_data(),
            final(self).spec_service() == old(self).spec_service(),
            final(self).spec_kill_context() == old(self).spec_kill_context(),
            match item_ports(old(self).spec_data().Socket, item, ipv6) {
                Ok(ports) => r is Ok && final(self).spec_ports() == old(self).spec_ports() + ports,
                Err(e) => r == Err::<(), SocketConfigError>(e),
            },
    {
        proof {
            reveal(item_ports);
        }
        match item {
            ListeningItem::Stream => {
                let listens = clone_strings(self.data.listen_stream());
                self.parse_sockets(&listens, SockType::Stream, ipv6)
            },
            ListeningItem::Datagram => {
                let listens = clone_strings(self.data.listen_datagram());
                self.parse_sockets(&listens, SockType::Datagram, ipv6)
            },
            ListeningItem::Netlink => {
                let listens = clone_strings(self.data.listen_netlink());
                self.parse_netlinks(&listens)
            },
            ListeningItem::SequentialPacket => {
                let listens = clone_strings(self.data.listen_sequential_packet());
                self.parse_sockets(&listens, SockType::SeqPacket, ipv6)
            },
        }
    }

    /// Adds the listeners that `listens` give on sockets of type
    /// `socket_type`.
    pub fn parse_sockets(&mut self, listens: &Vec<String>, socket_type: SockType, ipv6: bool) -> (r:
        Result<(), SocketConfigError>)
        ensures
            final(self).spec_owner() == old(self).spec_owner(),
            final(self).spec_data() == old(self).spec_data(),
            final(self).spec_service() == old(self).spec_service(),
            final(self).spec_kill_context() == old(self).spec_kill_context(),
            match parse_listens(listens@, socket_type, ipv6, listens@.len() as int) {
                Ok(ports) => r is Ok && final(self).spec_ports() == old(self).spec_ports() + ports,
                Err(e) => r == Err::<(), SocketConfigError>(e),
            },
    {
        let ghost before = self.spec_ports();
        proof {
            assert(before + Seq::<PortModel>::empty() =~= before);
        }
        let mut i: usize = 0;
        while i < listens.len()
            invariant
                i <= listens.len(),
                self.owner == old(self).owner,
                self.data == old(self).data,
                self.service == old(self).service,
                self.kill_context == old(self).kill_context,
                before == old(self).spec_ports(),
                parse_listens(listens@, socket_type, ipv6, i as int) is Ok,
                self.spec_ports() == before + parse_listens(
                    listens@,
                    socket_type,
                    ipv6,
                    i as int,
                )->Ok_0,
            decreases listens.len() - i,
        {
            let v = &listens[i];
            if !v.as_str().is_empty() {
                match parse_socket_address(v.as_str(), socket_type, ipv6) {
                    Err(e) => {
                        proof {
                            lemma_parse_listens_err(
                                listens@,
                                socket_type,
                                ipv6,
                                i + 1,
                                listens@.len() as int,
                            );
                        }
                        return Err(SocketConfigError::Listen(e));
                    },
                    Ok(sa) => {
                        let port = SocketPortConf::new(PortType::Socket, sa, v.as_str());
                        let ghost model = port@;
                        let ghost ports_before = self.spec_ports();
                        self.push_port(port);
                        proof {
                            assert(before + parse_listens(
                                listens@,
                                socket_type,
                                ipv6,
                                i as int,
                            )->Ok_0.push(model) =~= ports_before.push(model));
                        }
                    },
                }
            }
            i += 1;
        }
        Ok(())
    }

    /// Adds the netlink listeners that `listens` give.
    pub fn parse_netlinks(&mut self, listens: &Vec<String>) -> (r: Result<(), SocketConfigError>)
        ensures
            final(self).spec_owner() == old(self).spec_owner(),
            final(self).spec_data() == old(self).spec_data(),
            final(self).spec_service() == old(self).spec_service(),
            final(self).spec_kill_context() == old(self).spec_kill_context(),
            match parse_netlinks(listens@, listens@.len() as int) {
                Ok(ports) => r is Ok && final(self).spec_ports() == old(self).spec_ports() + ports,
                Err(e) => r == Err::<(), SocketConfigError>(e),
            },
    {
        let ghost before = self.spec_ports();
        proof {
            assert(before + Seq::<PortModel>::empty() =~= before);
        }
        let mut i: usize = 0;
        while i < listens.len()
            invariant
                i <= listens.len(),
                self.owner == old(self).owner,
                self.data == old(self).data,
                self.service == old(self).service,
                self.kill_context == old(self).kill_context,
                before == old(self).spec_ports(),
                parse_netlinks(listens@, i as int) is Ok,
                self.spec_ports() == before + parse_netlinks(listens@, i as int)->Ok_0,
            decreases listens.len() - i,
        {
            let v = &listens[i];
            if !v.as_str().is_empty() {
                match parse_netlink_address(v.as_str()) {
                    Err(e) => {
                        proof {
                            lemma_parse_netlinks_err(listens@, i + 1, listens@.len() as int);
                        }
                        return Err(SocketConfigError::Netlink(e));
                    },
                    Ok(sa) => {
                        let port = SocketPortConf::new(PortType::Socket, sa, v.as_str());
                        let ghost model = port@;
                        let ghost ports_before = self.spec_ports();
                        self.push_port(port);
                        proof {
                            assert(before + parse_netlinks(listens@, i as int)->Ok_0.push(model)
                                =~= ports_before.push(model));
                        }
                    },
                }
            }
            i += 1;
        }
        Ok(())
    }

    fn set_ref(&mut self, target: String)
        ensures
            final(self).spec_service().spec_target() == Some(target),
            final(self).spec_owner() == old(self).spec_owner(),
            final(self).spec_data() == old(self).spec_data(),
            final(self).spec_ports() == old(self).spec_ports(),
            final(self).spec_kill_context() == old(self).spec_kill_context(),
    {
        self.service.set_ref(self.owner.clone(), target);
    }

    fn push_port(&mut self, port: SocketPortConf)
        ensures
            final(self).spec_ports() == old(self).spec_ports().push(port@),
            final(self).owner == old(self).owner,
            final(self).data == old(self).data,
            final(self).service == old(self).service,
            final(self).kill_context == old(self).kill_context,
    {
        self.ports.push(port);
        proof {
            assert(ports_view(self.ports@) =~= ports_view(old(self).ports@).push(port@));
        }
    }

    pub fn kill_context(&self) -> (r: KillContext)
        ensures
            r == self.spec_kill_context(),
    {
        self.kill_context
    }

    /// Number of commands at the hook `cmd_type`.
    pub fn cmd_count(&self, cmd_type: SocketCommand) -> (r: usize)
        ensures
            r == match cmd_type {
                SocketCommand::StartPre => self.spec_data().Socket.ExecStartPre@.len(),
                SocketCommand::StartPost => self.spec_data().Socket.ExecStartPost@.len(),
                SocketCommand::StopPre => self.spec_data().Socket.ExecStopPre@.len(),
                SocketCommand::StopPost => self.spec_data().Socket.ExecStopPost@.len(),
            },
    {
        self.data.get_exec_cmds(cmd_type).len()
    }
}

} // verus!
