//! Socket addresses: what a listener of a socket unit is bound to, how
//! it is written in a unit file, and how it is read from there.
use crate::text_num::{lemma_hex_digits_len, lemma_num_digits_lead, 
    all_digits, digit_of, lemma_num_round_trip, num_digits, parse_num, parse_number,
    parse_plus_num, parse_plus_number, push_number,
};
use vstd::prelude::*;
use vstd::string::StringSliceAdditionalSpecFns;

verus! {

/// The kind of traffic a socket carries.
#[derive(Clone, Copy, PartialEq, Eq, Debug, Structural)]
pub enum SockType {
    Stream,
    Datagram,
    SeqPacket,
    Raw,
}

/// The family an address belongs to.
#[derive(Clone, Copy, PartialEq, Eq, Debug, Structural)]
pub enum AddressFamily {
    Unix,
    Inet,
    Inet6,
    Netlink,
}

/// The netlink families that a unit file can name.
#[derive(Clone, Copy, PartialEq, Eq, Debug, Structural)]
pub enum NetlinkProtocol {
    NetlinkRoute,
    NetlinkInetDiag,
    NetlinkSelinux,
    NetlinkIscsi,
    NetlinkAudit,
    NetlinkFibLookup,
    NetlinkNetfilter,
    NetlinkIp6Fw,
    NetlinkDnrtMsg,
    NetlinkKobjectUevent,
    NetlinkScsiTransport,
    NetlinkRdma,
    NetlinkInvalid,
}

/// Why a listener's address was turned down.
#[derive(Clone, Copy, PartialEq, Eq, Debug, Structural)]
pub enum AddressError {
    /// The port number is 0.
    InvalidPort,
    /// The text is none of the forms of an address.
    InvalidListen,
    /// The path or name cannot be the address of a UNIX socket; `errno`
    /// says why.
    UnixAddr { errno: i32 },
    /// A netlink address is not a family and a group.
    NetlinkFormat,
    /// The netlink family is not known.
    NetlinkFamily,
    /// The netlink group is not a number.
    NetlinkGroup,
}

/// An address as a mathematical value.
pub enum AddrModel {
    /// Four octets and a port.
    Inet { octets: Seq<u8>, port: u16 },
    /// Eight groups of sixteen bits and a port.
    Inet6 { groups: Seq<u16>, port: u16 },
    /// A path in the file system, as written, with its leading `/`.
    UnixPath(Seq<u8>),
    /// A name in the abstract namespace, as written, with its leading
    /// `@`.
    UnixAbstract(Seq<u8>),
    /// Netlink multicast groups; the port id is 0.
    Netlink { groups: u32 },
}

/// An address together with the type and protocol of its socket, as a
/// mathematical value.
pub struct SocketAddressModel {
    pub addr: AddrModel,
    pub sa_type: SockType,
    pub protocol: Option<NetlinkProtocol>,
}

/// The error number for an invalid argument.
pub const EINVAL: i32 = 22;

/// The error number for a name that is too long.
pub const ENAMETOOLONG: i32 = 36;

/// The bytes that the address of a UNIX socket has room for.
pub const SUN_PATH_LEN: usize = 108;

/// Why `path` cannot be the path of a UNIX socket, if it cannot: it
/// holds a zero byte, or it does not leave room for the zero byte that
/// ends it.
pub open spec fn unix_path_errno(path: Seq<u8>) -> Option<i32> {
    if exists|i: int| 0 <= i < path.len() && path[i] == 0 {
        Some(EINVAL)
    } else if path.len() >= SUN_PATH_LEN {
        Some(ENAMETOOLONG)
    } else {
        None
    }
}

/// Why `name` cannot be an abstract name of a UNIX socket, if it
/// cannot: it does not leave room for the zero byte in front of it.
pub open spec fn unix_abstract_errno(name: Seq<u8>) -> Option<i32> {
    if name.len() >= SUN_PATH_LEN {
        Some(ENAMETOOLONG)
    } else {
        None
    }
}

/// The first place from `from` on that holds `b`, or the length where
/// none does.
pub open spec fn next_pos(s: Seq<u8>, b: u8, from: int) -> int
    decreases s.len() - from,
{
    if from < 0 || from >= s.len() {
        s.len() as int
    } else if s[from] == b {
        from
    } else {
        next_pos(s, b, from + 1)
    }
}

/// The first place from `from` on at which two colons begin, or the
/// length where none do.
pub open spec fn double_colon(s: Seq<u8>, from: int) -> int
    decreases s.len() - from,
{
    if from < 0 || from + 1 >= s.len() {
        s.len() as int
    } else if s[from] == 58 && s[from + 1] == 58 {
        from
    } else {
        double_colon(s, from + 1)
    }
}

/// `count` zeros.
pub open spec fn zero_groups(count: nat) -> Seq<u16> {
    Seq::new(count, |i: int| 0u16)
}

/// Four zeros.
pub open spec fn zero_octets() -> Seq<u8> {
    Seq::new(4, |i: int| 0u8)
}

/// A port number as a unit file gives it by itself: a decimal number up
/// to 65535, with or without a `+` in front.
pub open spec fn parse_port_number(s: Seq<u8>) -> Option<nat> {
    if s.len() > 0 && s[0] == 43 {
        parse_num(s.skip(1), false, 65535)
    } else {
        parse_num(s, false, 65535)
    }
}

/// One of the four numbers of an IPv4 address: decimal, up to 255,
/// with no zero in front of another digit.
pub open spec fn parse_octet(s: Seq<u8>) -> Option<nat> {
    if s.len() > 1 && s[0] == 48 {
        None
    } else {
        parse_num(s, false, 255)
    }
}

/// One group of an IPv6 address: up to four hexadecimal digits.
pub open spec fn parse_group(s: Seq<u8>) -> Option<nat> {
    if s.len() > 4 {
        None
    } else {
        parse_num(s, true, 0xffff)
    }
}

/// The four numbers of an IPv4 address, with dots between them.
#[verifier::opaque]
pub open spec fn parse_quad(s: Seq<u8>) -> Option<Seq<u8>> {
    let d1 = next_pos(s, 46, 0);
    let d2 = next_pos(s, 46, d1 + 1);
    let d3 = next_pos(s, 46, d2 + 1);
    if d1 < s.len() && d2 < s.len() && d3 < s.len() {
        match (
            parse_octet(s.subrange(0, d1)),
            parse_octet(s.subrange(d1 + 1, d2)),
            parse_octet(s.subrange(d2 + 1, d3)),
            parse_octet(s.subrange(d3 + 1, s.len() as int)),
        ) {
            (Some(o0), Some(o1), Some(o2), Some(o3)) => Some(
                seq![o0 as u8, o1 as u8, o2 as u8, o3 as u8],
            ),
            _ => None,
        }
    } else {
        None
    }
}

/// An IPv4 address with its port: the four numbers, a colon, and a
/// decimal port up to 65535.
pub open spec fn parse_v4(s: Seq<u8>) -> Option<AddrModel> {
    let c = next_pos(s, 58, 0);
    if c < s.len() {
        match (
            parse_quad(s.subrange(0, c)),
            parse_num(s.subrange(c + 1, s.len() as int), false, 65535),
        ) {
            (Some(octets), Some(p)) => Some(AddrModel::Inet { octets, port: p as u16 }),
            _ => None,
        }
    } else {
        None
    }
}

/// The two groups that the four numbers of an IPv4 address make where
/// they end an IPv6 address.
pub open spec fn quad_groups(octets: Seq<u8>) -> Seq<u16> {
    seq![
        (octets[0] as nat * 256 + octets[1] as nat) as u16,
        (octets[2] as nat * 256 + octets[3] as nat) as u16,
    ]
}

/// One or more groups with single colons between them. Where `quad`
/// is set, the four numbers of an IPv4 address may stand for the last
/// two groups.
pub open spec fn parse_groups(s: Seq<u8>, quad: bool) -> Option<Seq<u16>>
    decreases s.len(),
    via parse_groups_decreases
{
    let c = next_pos(s, 58, 0);
    if c >= s.len() {
        if quad && parse_quad(s) is Some {
            Some(quad_groups(parse_quad(s)->0))
        } else {
            match parse_group(s) {
                Some(g) => Some(seq![g as u16]),
                None => None,
            }
        }
    } else {
        match (parse_group(s.subrange(0, c)), parse_groups(s.subrange(c + 1, s.len() as int), quad)) {
            (Some(g), Some(rest)) => Some(seq![g as u16] + rest),
            _ => None,
        }
    }
}

#[via_fn]
proof fn parse_groups_decreases(s: Seq<u8>, quad: bool) {
    lemma_next_pos_bounds(s, 58, 0);
}

/// A place that [`next_pos`] finds lies at or after `from` and holds
/// the byte, and no place between does.
pub proof fn lemma_next_pos_bounds(s: Seq<u8>, b: u8, from: int)
    requires
        0 <= from,
    ensures
        from <= next_pos(s, b, from) || next_pos(s, b, from) == s.len(),
        0 <= next_pos(s, b, from) <= s.len(),
        next_pos(s, b, from) < s.len() ==> s[next_pos(s, b, from)] == b,
        forall|i: int| from <= i < next_pos(s, b, from) ==> s[i] != b,
    decreases s.len() - from,
{
    if from < s.len() && s[from] != b {
        lemma_next_pos_bounds(s, b, from + 1);
    }
}

/// The eight groups of an IPv6 address: either all eight written out,
/// or some of them with one `::` that stands for the zeros left out.
/// The four numbers of an IPv4 address may stand for the last two
/// groups.
pub open spec fn parse_v6_groups(s: Seq<u8>) -> Option<Seq<u16>> {
    let k = double_colon(s, 0);
    if k >= s.len() {
        match parse_groups(s, true) {
            Some(groups) => if groups.len() == 8 {
                Some(groups)
            } else {
                None
            },
            None => None,
        }
    } else {
        let left = if k == 0 {
            Some(Seq::<u16>::empty())
        } else {
            parse_groups(s.subrange(0, k), false)
        };
        let right = if k + 2 >= s.len() {
            Some(Seq::<u16>::empty())
        } else {
            parse_groups(s.subrange(k + 2, s.len() as int), true)
        };
        match (left, right) {
            (Some(l), Some(r)) => if l.len() + r.len() <= 7 {
                Some(l + zero_groups((8 - l.len() - r.len()) as nat) + r)
            } else {
                None
            },
            _ => None,
        }
    }
}

/// An IPv6 address with its port: the groups in square brackets, a
/// colon, and a decimal port up to 65535.
pub open spec fn parse_v6(s: Seq<u8>) -> Option<AddrModel> {
    let close = next_pos(s, 93, 1);
    if s.len() > 0 && s[0] == 91 && close + 1 < s.len() && s[close + 1] == 58 {
        match (
            parse_v6_groups(s.subrange(1, close)),
            parse_num(s.subrange(close + 2, s.len() as int), false, 65535),
        ) {
            (Some(groups), Some(p)) => Some(AddrModel::Inet6 { groups, port: p as u16 }),
            _ => None,
        }
    } else {
        None
    }
}

/// The address that `s` stands for on a socket of type `sa_type`.
///
/// A text that begins with `/` is a path and one that begins with `@` an
/// abstract name, each taken as written. A port number by itself, which
/// may not be 0, stands for every address of the machine: of IPv6 where
/// `ipv6` says that the machine has it, of IPv4 otherwise. Anything else
/// must be an IPv4 or an IPv6 address with its port.
pub open spec fn parse_address(s: Seq<u8>, sa_type: SockType, ipv6: bool) -> Result<
    SocketAddressModel,
    AddressError,
> {
    if s.len() > 0 && s[0] == 47 {
        match unix_path_errno(s) {
            Some(errno) => Err(AddressError::UnixAddr { errno }),
            None => Ok(SocketAddressModel { addr: AddrModel::UnixPath(s), sa_type, protocol: None }),
        }
    } else if s.len() > 0 && s[0] == 64 {
        match unix_abstract_errno(s) {
            Some(errno) => Err(AddressError::UnixAddr { errno }),
            None => Ok(
                SocketAddressModel { addr: AddrModel::UnixAbstract(s), sa_type, protocol: None },
            ),
        }
    } else {
        match parse_port_number(s) {
            Some(p) => if p == 0 {
                Err(AddressError::InvalidPort)
            } else if ipv6 {
                Ok(
                    SocketAddressModel {
                        addr: AddrModel::Inet6 { groups: zero_groups(8), port: p as u16 },
                        sa_type,
                        protocol: None,
                    },
                )
            } else {
                Ok(
                    SocketAddressModel {
                        addr: AddrModel::Inet { octets: zero_octets(), port: p as u16 },
                        sa_type,
                        protocol: None,
                    },
                )
            },
            None => match parse_v4(s) {
                Some(addr) => Ok(SocketAddressModel { addr, sa_type, protocol: None }),
                None => match parse_v6(s) {
                    Some(addr) => Ok(SocketAddressModel { addr, sa_type, protocol: None }),
                    None => Err(AddressError::InvalidListen),
                },
            },
        }
    }
}

/// Whether a byte separates words: a blank, a tab, or one of the line
/// and page breaks.
pub open spec fn is_space(b: u8) -> bool {
    b == 32 || (9 <= b <= 13)
}

/// The first place from `from` on that holds no space, or the length.
pub open spec fn skip_spaces(s: Seq<u8>, from: int) -> int
    decreases s.len() - from,
{
    if from < 0 || from >= s.len() {
        s.len() as int
    } else if !is_space(s[from]) {
        from
    } else {
        skip_spaces(s, from + 1)
    }
}

/// The first place from `from` on that holds a space, or the length.
pub open spec fn word_end(s: Seq<u8>, from: int) -> int
    decreases s.len() - from,
{
    if from < 0 || from >= s.len() {
        s.len() as int
    } else if is_space(s[from]) {
        from
    } else {
        word_end(s, from + 1)
    }
}

/// The name of a netlink family in a unit file.
pub open spec fn family_name(family: NetlinkProtocol) -> Seq<u8> {
    match family {
        NetlinkProtocol::NetlinkRoute => seq![114u8, 111, 117, 116, 101],
        NetlinkProtocol::NetlinkInetDiag => seq![105u8, 110, 101, 116, 45, 100, 105, 97, 103],
        NetlinkProtocol::NetlinkSelinux => seq![115u8, 101, 108, 105, 110, 117, 120],
        NetlinkProtocol::NetlinkIscsi => seq![105u8, 115, 99, 115, 105],
        NetlinkProtocol::NetlinkAudit => seq![97u8, 117, 100, 105, 116],
        NetlinkProtocol::NetlinkFibLookup => seq![
            102u8,
            105,
            98,
            45,
            108,
            111,
            111,
            107,
            117,
            112,
        ],
        NetlinkProtocol::NetlinkNetfilter => seq![110u8, 101, 116, 102, 105, 108, 116, 101, 114],
        NetlinkProtocol::NetlinkIp6Fw => seq![105u8, 112, 54, 45, 102, 119],
        NetlinkProtocol::NetlinkDnrtMsg => seq![100u8, 110, 114, 116, 109, 115, 103],
        NetlinkProtocol::NetlinkKobjectUevent => seq![
            107u8,
            111,
            98,
            106,
            101,
            99,
            116,
            45,
            117,
            101,
            118,
            101,
            110,
            116,
        ],
        NetlinkProtocol::NetlinkScsiTransport => seq![
            115u8,
            99,
            115,
            105,
            116,
            114,
            97,
            110,
            115,
            112,
            111,
            114,
            116,
        ],
        NetlinkProtocol::NetlinkRdma => seq![114u8, 100, 109, 97],
        NetlinkProtocol::NetlinkInvalid => Seq::empty(),
    }
}

/// The netlink family that a word names; a word that names none stands
/// for the invalid family.
pub open spec fn family_of(word: Seq<u8>) -> NetlinkProtocol {
    if word == family_name(NetlinkProtocol::NetlinkRoute) {
        NetlinkProtocol::NetlinkRoute
    } else if word == family_name(NetlinkProtocol::NetlinkInetDiag) {
        NetlinkProtocol::NetlinkInetDiag
    } else if word == family_name(NetlinkProtocol::NetlinkSelinux) {
        NetlinkProtocol::NetlinkSelinux
    } else if word == family_name(NetlinkProtocol::NetlinkIscsi) {
        NetlinkProtocol::NetlinkIscsi
    } else if word == family_name(NetlinkProtocol::NetlinkAudit) {
        NetlinkProtocol::NetlinkAudit
    } else if word == family_name(NetlinkProtocol::NetlinkFibLookup) {
        NetlinkProtocol::NetlinkFibLookup
    } else if word == family_name(NetlinkProtocol::NetlinkNetfilter) {
        NetlinkProtocol::NetlinkNetfilter
    } else if word == family_name(NetlinkProtocol::NetlinkIp6Fw) {
        NetlinkProtocol::NetlinkIp6Fw
    } else if word == family_name(NetlinkProtocol::NetlinkDnrtMsg) {
        NetlinkProtocol::NetlinkDnrtMsg
    } else if word == family_name(NetlinkProtocol::NetlinkKobjectUevent) {
        NetlinkProtocol::NetlinkKobjectUevent
    } else if word == family_name(NetlinkProtocol::NetlinkScsiTransport) {
        NetlinkProtocol::NetlinkScsiTransport
    } else if word == family_name(NetlinkProtocol::NetlinkRdma) {
        NetlinkProtocol::NetlinkRdma
    } else {
        NetlinkProtocol::NetlinkInvalid
    }
}

/// The netlink address that `s` stands for: exactly two words, the name
/// of a family and a decimal group number, with or without a `+` in
/// front. The socket is raw and speaks
/// the family's protocol.
pub open spec fn parse_netlink(s: Seq<u8>) -> Result<SocketAddressModel, AddressError> {
    let a = skip_spaces(s, 0);
    let b = word_end(s, a);
    let c = skip_spaces(s, b);
    let d = word_end(s, c);
    if a >= s.len() || c >= s.len() || skip_spaces(s, d) < s.len() {
        Err(AddressError::NetlinkFormat)
    } else if family_of(s.subrange(a, b)) == NetlinkProtocol::NetlinkInvalid {
        Err(AddressError::NetlinkFamily)
    } else {
        match parse_plus_num(s.subrange(c, d), 0xffff_ffff) {
            None => Err(AddressError::NetlinkGroup),
            Some(group) => Ok(
                SocketAddressModel {
                    addr: AddrModel::Netlink { groups: group as u32 },
                    sa_type: SockType::Raw,
                    protocol: Some(family_of(s.subrange(a, b))),
                },
            ),
        }
    }
}

/// The groups of an IPv6 address as written: in hexadecimal, without
/// leading zeros, with colons between them.
pub open spec fn print_groups(groups: Seq<u16>) -> Seq<u8>
    decreases groups.len(),
{
    if groups.len() == 0 {
        Seq::empty()
    } else if groups.len() == 1 {
        num_digits(groups[0] as nat, true)
    } else {
        num_digits(groups[0] as nat, true) + seq![58u8] + print_groups(groups.drop_first())
    }
}

/// The four numbers of an IPv4 address as written: in decimal, with
/// dots between them.
pub open spec fn print_quad(octets: Seq<u8>) -> Seq<u8> {
    num_digits(octets[0] as nat, false) + seq![46u8] + num_digits(octets[1] as nat, false)
        + seq![46u8] + num_digits(octets[2] as nat, false) + seq![46u8] + num_digits(
        octets[3] as nat,
        false,
    )
}

/// An address as a unit file gives it.
pub open spec fn print_address(a: SocketAddressModel) -> Seq<u8> {
    match a.addr {
        AddrModel::Inet { octets, port } => print_quad(octets) + seq![58u8] + num_digits(
            port as nat,
            false,
        ),
        AddrModel::Inet6 { groups, port } => seq![91u8] + print_groups(groups) + seq![93u8, 58u8]
            + num_digits(port as nat, false),
        AddrModel::UnixPath(path) => path,
        AddrModel::UnixAbstract(name) => name,
        AddrModel::Netlink { groups } => family_name(
            match a.protocol {
                Some(family) => family,
                None => NetlinkProtocol::NetlinkInvalid,
            },
        ) + seq![32u8] + num_digits(groups as nat, false),
    }
}

/// What an address must fulfil to stand for something that can be
/// written and read back.
pub open spec fn address_wf(a: SocketAddressModel) -> bool {
    match a.addr {
        AddrModel::Inet { octets, port } => octets.len() == 4 && a.protocol is None,
        AddrModel::Inet6 { groups, port } => groups.len() == 8 && a.protocol is None,
        AddrModel::UnixPath(path) => path.len() > 0 && path[0] == 47 && unix_path_errno(path)
            is None && a.protocol is None,
        AddrModel::UnixAbstract(name) => name.len() > 0 && name[0] == 64 && unix_abstract_errno(
            name,
        ) is None && a.protocol is None,
        AddrModel::Netlink { groups } => a.sa_type == SockType::Raw && a.protocol is Some
            && a.protocol != Some(NetlinkProtocol::NetlinkInvalid),
    }
}

/// Places found in the rest of a text are the places found in the
/// text, counted from where the rest begins.
pub proof fn lemma_next_pos_suffix(s: Seq<u8>, b: u8, p: int, from: int)
    requires
        0 <= p <= s.len(),
        0 <= from,
    ensures
        next_pos(s.subrange(p, s.len() as int), b, from) + p == next_pos(s, b, p + from),
    decreases s.len() - p - from,
{
    let rest = s.subrange(p, s.len() as int);
    if from < rest.len() {
        assert(rest[from] == s[p + from]);
        if rest[from] != b {
            lemma_next_pos_suffix(s, b, p, from + 1);
        }
    }
}

/// An address of a socket.
pub enum SockAddr {
    Inet { octets: Vec<u8>, port: u16 },
    Inet6 { groups: Vec<u16>, port: u16 },
    UnixPath(Vec<u8>),
    UnixAbstract(Vec<u8>),
    Netlink { groups: u32 },
}

impl View for SockAddr {
    type V = AddrModel;

    open spec fn view(&self) -> AddrModel {
        match self {
            SockAddr::Inet { octets, port } => AddrModel::Inet { octets: octets@, port: *port },
            SockAddr::Inet6 { groups, port } => AddrModel::Inet6 { groups: groups@, port: *port },
            SockAddr::UnixPath(path) => AddrModel::UnixPath(path@),
            SockAddr::UnixAbstract(name) => AddrModel::UnixAbstract(name@),
            SockAddr::Netlink { groups } => AddrModel::Netlink { groups: *groups },
        }
    }
}

/// An address together with the type and the protocol of its socket.
pub struct SocketAddress {
    sock_addr: SockAddr,
    sa_type: SockType,
    protocol: Option<NetlinkProtocol>,
}

impl View for SocketAddress {
    type V = SocketAddressModel;

    closed spec fn view(&self) -> SocketAddressModel {
        SocketAddressModel {
            addr: self.sock_addr@,
            sa_type: self.sa_type,
            protocol: self.protocol,
        }
    }
}

/// One step of binding a listener.
#[derive(Clone, Copy, PartialEq, Eq, Debug, Structural)]
pub enum ListenOp {
    /// Open a socket of the address's family, type and protocol.
    OpenSocket,
    /// Allow the address to be used again at once.
    SetReuseAddr,
    /// Create the directory that holds the socket's path, with what
    /// leads to it.
    CreateParentDir,
    Bind,
    /// Remove what lies at the socket's path.
    Unlink,
    Listen,
    /// Close the socket.
    Close,
    /// The listener is bound, or binding has failed with the error
    /// number given.
    Finish { errno: Option<i32> },
}

/// How far binding a listener has come.
#[derive(Clone, Copy, PartialEq, Eq, Debug, Structural)]
pub enum ListenState {
    Start,
    Opening,
    SettingReuse,
    CreatingDir,
    /// Bound for the first time where `retried` is false.
    Binding { retried: bool },
    Unlinking,
    Listening,
    /// Closing after the failure `errno`.
    Failing { errno: i32 },
    Done,
}

/// The error number for an address that is in use.
pub const EADDRINUSE: i32 = 98;

/// What follows in binding a listener, by how far it has come and by how
/// the last step ended. The socket is opened, allowed to reuse its
/// address, and bound; before a path is bound its directory is made,
/// and a path that is in use is removed and bound once more; a socket
/// that can accept connections is made to listen. A step that fails ends
/// it all: the socket, if it was opened, is closed, and the failure is
/// passed on, that of making the directory as an invalid argument.
pub open spec fn listen_next(
    has_path: bool,
    can_accept: bool,
    state: ListenState,
    outcome: Result<(), i32>,
) -> (ListenState, ListenOp) {
    let bound = if can_accept {
        (ListenState::Listening, ListenOp::Listen)
    } else {
        (ListenState::Done, ListenOp::Finish { errno: None })
    };
    match state {
        ListenState::Start => (ListenState::Opening, ListenOp::OpenSocket),
        ListenState::Opening => match outcome {
            Ok(()) => (ListenState::SettingReuse, ListenOp::SetReuseAddr),
            Err(e) => (ListenState::Done, ListenOp::Finish { errno: Some(e) }),
        },
        ListenState::SettingReuse => match outcome {
            Ok(()) => if has_path {
                (ListenState::CreatingDir, ListenOp::CreateParentDir)
            } else {
                (ListenState::Binding { retried: false }, ListenOp::Bind)
            },
            Err(e) => (ListenState::Failing { errno: e }, ListenOp::Close),
        },
        ListenState::CreatingDir => match outcome {
            Ok(()) => (ListenState::Binding { retried: false }, ListenOp::Bind),
            Err(_) => (ListenState::Failing { errno: EINVAL }, ListenOp::Close),
        },
        ListenState::Binding { retried } => match outcome {
            Ok(()) => bound,
            Err(e) => if has_path && !retried && e == EADDRINUSE {
                (ListenState::Unlinking, ListenOp::Unlink)
            } else {
                (ListenState::Failing { errno: e }, ListenOp::Close)
            },
        },
        ListenState::Unlinking => (ListenState::Binding { retried: true }, ListenOp::Bind),
        ListenState::Listening => match outcome {
            Ok(()) => (ListenState::Done, ListenOp::Finish { errno: None }),
            Err(e) => (ListenState::Failing { errno: e }, ListenOp::Close),
        },
        ListenState::Failing { errno } => (ListenState::Done, ListenOp::Finish { errno: Some(errno) }),
        ListenState::Done => (
            ListenState::Done,
            ListenOp::Finish {
                errno: match outcome {
                    Ok(()) => None,
                    Err(e) => Some(e),
                },
            },
        ),
    }
}

/// `nix::sys::socket::UnixAddr::new`, asked whether it takes `path`.
/// It turns down, as an invalid argument, a path that holds a zero
/// byte, and, as too long, one that with the zero byte behind it does
/// not fit the 108 bytes which the address of a UNIX socket has for its
/// path. Anything else it takes.
#[verifier::external_body]
fn unix_addr_check(path: &Vec<u8>) -> (r: Option<i32>)
    ensures
        r == unix_path_errno(path@),
{
    match nix::sys::socket::UnixAddr::new(path.as_slice()) {
        Ok(_) => None,
        Err(e) => Some(e as i32),
    }
}

/// `nix::sys::socket::UnixAddr::new_abstract`, asked whether it takes
/// `name`. It turns down, as too long, a name that with the zero byte
/// in front of it does not fit the 108 bytes which the address of a
/// UNIX socket has for its path. Anything else it takes.
#[verifier::external_body]
fn unix_abstract_check(name: &Vec<u8>) -> (r: Option<i32>)
    ensures
        r == unix_abstract_errno(name@),
{
    match nix::sys::socket::UnixAddr::new_abstract(name.as_slice()) {
        Ok(_) => None,
        Err(e) => Some(e as i32),
    }
}

fn copy_range(bytes: &[u8], start: usize, end: usize) -> (r: Vec<u8>)
    requires
        start <= end <= bytes@.len(),
    ensures
        r@ == bytes@.subrange(start as int, end as int),
{
    let mut out: Vec<u8> = Vec::new();
    let mut i: usize = start;
    while i < end
        invariant
            start <= i <= end <= bytes@.len(),
            out@ == bytes@.subrange(start as int, i as int),
        decreases end - i,
    {
        out.push(bytes[i]);
        proof {
            assert(bytes@.subrange(start as int, i + 1) =~= bytes@.subrange(
                start as int,
                i as int,
            ).push(bytes@[i as int]));
        }
        i += 1;
    }
    out
}

fn find_byte(bytes: &[u8], b: u8, from: usize) -> (r: usize)
    ensures
        r == next_pos(bytes@, b, from as int),
        r <= bytes@.len(),
        from <= r || r == bytes@.len(),
{
    let mut i: usize = from;
    while i < bytes.len()
        invariant
            from <= i,
            next_pos(bytes@, b, from as int) == next_pos(bytes@, b, i as int),
        decreases bytes.len() - i,
    {
        if bytes[i] == b {
            return i;
        }
        i += 1;
    }
    bytes.len()
}

fn find_double_colon(bytes: &[u8]) -> (r: usize)
    ensures
        r == double_colon(bytes@, 0),
        r <= bytes@.len(),
        r < bytes@.len() ==> r + 2 <= bytes@.len(),
{
    let mut i: usize = 0;
    while i < bytes.len() && i + 1 < bytes.len()
        invariant
            double_colon(bytes@, 0) == double_colon(bytes@, i as int),
        decreases bytes.len() - i,
    {
        if bytes[i] == 58 && bytes[i + 1] == 58 {
            return i;
        }
        i += 1;
    }
    bytes.len()
}

fn is_space_byte(b: u8) -> (r: bool)
    ensures
        r == is_space(b),
{
    b == 32 || (9 <= b && b <= 13)
}

fn find_word(bytes: &[u8], from: usize) -> (r: usize)
    ensures
        r == skip_spaces(bytes@, from as int),
        r <= bytes@.len(),
        from <= r || r == bytes@.len(),
{
    let mut i: usize = from;
    while i < bytes.len()
        invariant
            from <= i,
            skip_spaces(bytes@, from as int) == skip_spaces(bytes@, i as int),
        decreases bytes.len() - i,
    {
        if !is_space_byte(bytes[i]) {
            return i;
        }
        i += 1;
    }
    bytes.len()
}

fn find_word_end(bytes: &[u8], from: usize) -> (r: usize)
    ensures
        r == word_end(bytes@, from as int),
        r <= bytes@.len(),
        from <= r || r == bytes@.len(),
{
    let mut i: usize = from;
    while i < bytes.len()
        invariant
            from <= i,
            word_end(bytes@, from as int) == word_end(bytes@, i as int),
        decreases bytes.len() - i,
    {
        if is_space_byte(bytes[i]) {
            return i;
        }
        i += 1;
    }
    bytes.len()
}

/// What is read when `done` has been read and `rest` is what the
/// remainder comes to.
spec fn after(done: Seq<u16>, rest: Option<Seq<u16>>) -> Option<Seq<u16>> {
    match rest {
        Some(r) => Some(done + r),
        None => None,
    }
}

fn read_octet(bytes: &[u8], start: usize, end: usize) -> (r: Option<u8>)
    requires
        start <= end <= bytes@.len(),
    ensures
        match r {
            Some(n) => parse_octet(bytes@.subrange(start as int, end as int)) == Some(n as nat),
            None => parse_octet(bytes@.subrange(start as int, end as int)) is None,
        },
{
    if end - start > 1 && bytes[start] == 48 {
        return None;
    }
    match parse_number(bytes, start, end, false, 255) {
        Some(n) => Some(n as u8),
        None => None,
    }
}

fn read_group(bytes: &[u8], start: usize, end: usize) -> (r: Option<u16>)
    requires
        start <= end <= bytes@.len(),
    ensures
        match r {
            Some(n) => parse_group(bytes@.subrange(start as int, end as int)) == Some(n as nat),
            None => parse_group(bytes@.subrange(start as int, end as int)) is None,
        },
{
    if end - start > 4 {
        return None;
    }
    match parse_number(bytes, start, end, true, 0xffff) {
        Some(n) => Some(n as u16),
        None => None,
    }
}

fn read_quad(bytes: &[u8]) -> (r: Option<Vec<u8>>)
    ensures
        match r {
            Some(octets) => parse_quad(bytes@) == Some(octets@) && octets@.len() == 4,
            None => parse_quad(bytes@) is None,
        },
{
    proof {
        reveal(parse_quad);
    }
    let len = bytes.len();
    let d1 = find_byte(bytes, 46, 0);
    if d1 >= len {
        return None;
    }
    let d2 = find_byte(bytes, 46, d1 + 1);
    if d2 >= len {
        return None;
    }
    let d3 = find_byte(bytes, 46, d2 + 1);
    if d3 >= len {
        return None;
    }
    let o0 = read_octet(bytes, 0, d1);
    let o1 = read_octet(bytes, d1 + 1, d2);
    let o2 = read_octet(bytes, d2 + 1, d3);
    let o3 = read_octet(bytes, d3 + 1, len);
    match (o0, o1, o2, o3) {
        (Some(a), Some(b), Some(c), Some(d)) => {
            let mut octets: Vec<u8> = Vec::new();
            octets.push(a);
            octets.push(b);
            octets.push(c);
            octets.push(d);
            assert(octets@ =~= seq![a, b, c, d]);
            Some(octets)
        },
        _ => None,
    }
}

fn read_groups(bytes: &[u8], quad: bool) -> (r: Option<Vec<u16>>)
    ensures
        match r {
            Some(groups) => parse_groups(bytes@, quad) == Some(groups@),
            None => parse_groups(bytes@, quad) is None,
        },
{
    let mut groups: Vec<u16> = Vec::new();
    let mut pos: usize = 0;
    proof {
        assert(bytes@.subrange(0, bytes@.len() as int) =~= bytes@);
        let whole = parse_groups(bytes@, quad);
        assert(after(Seq::<u16>::empty(), whole) == whole) by {
            if whole is Some {
                assert(Seq::<u16>::empty() + whole->0 =~= whole->0);
            }
        }
    }
    loop
        invariant
            pos <= bytes@.len(),
            parse_groups(bytes@, quad) == after(
                groups@,
                parse_groups(bytes@.subrange(pos as int, bytes@.len() as int), quad),
            ),
        decreases bytes@.len() - pos,
    {
        let ghost rest = bytes@.subrange(pos as int, bytes@.len() as int);
        let c = find_byte(bytes, 58, pos);
        proof {
            lemma_next_pos_suffix(bytes@, 58, pos as int, 0);
            lemma_next_pos_bounds(bytes@, 58, pos as int);
            assert(rest.subrange(0, c - pos) =~= bytes@.subrange(pos as int, c as int));
        }
        if c >= bytes.len() {
            let ghost before = groups@;
            if quad {
                let last = copy_range(bytes, pos, bytes.len());
                if let Some(octets) = read_quad(last.as_slice()) {
                    let high: u16 = (octets[0] as u16) * 256 + (octets[1] as u16);
                    let low: u16 = (octets[2] as u16) * 256 + (octets[3] as u16);
                    groups.push(high);
                    groups.push(low);
                    proof {
                        assert(groups@ =~= before + quad_groups(octets@));
                    }
                    return Some(groups);
                }
            }
            proof {
                assert(rest.subrange(0, rest.len() as int) =~= rest);
            }
            return match read_group(bytes, pos, c) {
                Some(group) => {
                    groups.push(group);
                    proof {
                        assert(groups@ =~= before + seq![group]);
                    }
                    Some(groups)
                },
                None => None,
            };
        }
        let group = match read_group(bytes, pos, c) {
            Some(g) => g,
            None => {
                return None;
            },
        };
        proof {
            assert(rest.subrange(c - pos + 1, rest.len() as int) =~= bytes@.subrange(
                c + 1,
                bytes@.len() as int,
            ));
            let tail = parse_groups(bytes@.subrange(c + 1, bytes@.len() as int), quad);
            if tail is Some {
                assert(groups@ + (seq![group] + tail->0) =~= groups@.push(group) + tail->0);
            }
        }
        groups.push(group);
        pos = c + 1;
    }
}

fn read_v6_groups(bytes: &[u8]) -> (r: Option<Vec<u16>>)
    ensures
        match r {
            Some(groups) => parse_v6_groups(bytes@) == Some(groups@),
            None => parse_v6_groups(bytes@) is None,
        },
{
    let k = find_double_colon(bytes);
    if k >= bytes.len() {
        return match read_groups(bytes, true) {
            Some(groups) => if groups.len() == 8 {
                Some(groups)
            } else {
                None
            },
            None => None,
        };
    }
    let left = if k == 0 {
        Vec::new()
    } else {
        let part = copy_range(bytes, 0, k);
        match read_groups(part.as_slice(), false) {
            Some(l) => l,
            None => {
                return None;
            },
        }
    };
    let right = if k + 2 >= bytes.len() {
        Vec::new()
    } else {
        let part = copy_range(bytes, k + 2, bytes.len());
        match read_groups(part.as_slice(), true) {
            Some(r) => r,
            None => {
                return None;
            },
        }
    };
    if left.len() > 7 || right.len() > 7 - left.len() {
        return None;
    }
    let gap = 8 - left.len() - right.len();
    let mut groups = left;
    let ghost l = groups@;
    let mut i: usize = 0;
    while i < gap
        invariant
            i <= gap,
            groups@ == l + zero_groups(i as nat),
        decreases gap - i,
    {
        groups.push(0);
        proof {
            assert(groups@ =~= l + zero_groups((i + 1) as nat));
        }
        i += 1;
    }
    let mut j: usize = 0;
    while j < right.len()
        invariant
            j <= right.len(),
            groups@ == l + zero_groups(gap as nat) + right@.take(j as int),
        decreases right.len() - j,
    {
        groups.push(right[j]);
        proof {
            assert(right@.take(j + 1) =~= right@.take(j as int).push(right@[j as int]));
            assert(groups@ =~= l + zero_groups(gap as nat) + right@.take(j + 1));
        }
        j += 1;
    }
    proof {
        assert(right@.take(right@.len() as int) =~= right@);
    }
    Some(groups)
}

fn read_v4(bytes: &[u8]) -> (r: Option<SockAddr>)
    ensures
        match r {
            Some(addr) => parse_v4(bytes@) == Some(addr@) && match addr@ {
                AddrModel::Inet { octets, port } => octets.len() == 4,
                _ => false,
            },
            None => parse_v4(bytes@) is None,
        },
{
    let len = bytes.len();
    let c = find_byte(bytes, 58, 0);
    if c >= len {
        return None;
    }
    let quad = copy_range(bytes, 0, c);
    let octets = match read_quad(quad.as_slice()) {
        Some(octets) => octets,
        None => {
            return None;
        },
    };
    match parse_number(bytes, c + 1, len, false, 65535) {
        Some(port) => Some(SockAddr::Inet { octets, port: port as u16 }),
        None => None,
    }
}

fn read_v6(bytes: &[u8]) -> (r: Option<SockAddr>)
    ensures
        match r {
            Some(addr) => parse_v6(bytes@) == Some(addr@),
            None => parse_v6(bytes@) is None,
        },
{
    let len = bytes.len();
    if len == 0 || bytes[0] != 91 {
        return None;
    }
    let close = find_byte(bytes, 93, 1);
    if close >= len || close + 1 >= len || bytes[close + 1] != 58 {
        return None;
    }
    let inner = copy_range(bytes, 1, close);
    let groups = match read_v6_groups(inner.as_slice()) {
        Some(groups) => groups,
        None => {
            return None;
        },
    };
    match parse_number(bytes, close + 2, len, false, 65535) {
        Some(port) => Some(SockAddr::Inet6 { groups, port: port as u16 }),
        None => None,
    }
}

fn read_port_number(bytes: &[u8]) -> (r: Option<u16>)
    ensures
        match r {
            Some(p) => parse_port_number(bytes@) == Some(p as nat),
            None => parse_port_number(bytes@) is None,
        },
{
    let start: usize = if bytes.len() > 0 && bytes[0] == 43 {
        1
    } else {
        0
    };
    proof {
        assert(bytes@.subrange(0, bytes@.len() as int) =~= bytes@);
        assert(bytes@.subrange(1, bytes@.len() as int) =~= bytes@.skip(1)) by {
            if bytes@.len() >= 1 {
            }
        }
    }
    match parse_number(bytes, start, bytes.len(), false, 65535) {
        Some(p) => Some(p as u16),
        None => None,
    }
}

fn zeros_u8(count: usize) -> (r: Vec<u8>)
    ensures
        r@ == Seq::new(count as nat, |i: int| 0u8),
{
    let mut out: Vec<u8> = Vec::new();
    let mut i: usize = 0;
    while i < count
        invariant
            i <= count,
            out@ == Seq::new(i as nat, |k: int| 0u8),
        decreases count - i,
    {
        out.push(0);
        proof {
            assert(out@ =~= Seq::new((i + 1) as nat, |k: int| 0u8));
        }
        i += 1;
    }
    out
}

fn zeros_u16(count: usize) -> (r: Vec<u16>)
    ensures
        r@ == zero_groups(count as nat),
{
    let mut out: Vec<u16> = Vec::new();
    let mut i: usize = 0;
    while i < count
        invariant
            i <= count,
            out@ == zero_groups(i as nat),
        decreases count - i,
    {
        out.push(0);
        proof {
            assert(out@ =~= zero_groups((i + 1) as nat));
        }
        i += 1;
    }
    out
}

fn bytes_equal(a: &Vec<u8>, b: &Vec<u8>) -> (r: bool)
    ensures
        r == (a@ == b@),
{
    if a.len() != b.len() {
        return false;
    }
    let mut i: usize = 0;
    while i < a.len()
        invariant
            i <= a.len(),
            a@.len() == b@.len(),
            forall|k: int| 0 <= k < i ==> a@[k] == b@[k],
        decreases a.len() - i,
    {
        if a[i] != b[i] {
            return false;
        }
        i += 1;
    }
    assert(a@ =~= b@);
    true
}

/// The name of a netlink family in a unit file.
pub fn netlink_family_name(family: NetlinkProtocol) -> (r: Vec<u8>)
    ensures
        r@ == family_name(family),
{
    let r = match family {
        NetlinkProtocol::NetlinkRoute => vec![114u8, 111, 117, 116, 101],
        NetlinkProtocol::NetlinkInetDiag => vec![105u8, 110, 101, 116, 45, 100, 105, 97, 103],
        NetlinkProtocol::NetlinkSelinux => vec![115u8, 101, 108, 105, 110, 117, 120],
        NetlinkProtocol::NetlinkIscsi => vec![105u8, 115, 99, 115, 105],
        NetlinkProtocol::NetlinkAudit => vec![97u8, 117, 100, 105, 116],
        NetlinkProtocol::NetlinkFibLookup => vec![102u8, 105, 98, 45, 108, 111, 111, 107, 117, 112],
        NetlinkProtocol::NetlinkNetfilter => vec![110u8, 101, 116, 102, 105, 108, 116, 101, 114],
        NetlinkProtocol::NetlinkIp6Fw => vec![105u8, 112, 54, 45, 102, 119],
        NetlinkProtocol::NetlinkDnrtMsg => vec![100u8, 110, 114, 116, 109, 115, 103],
        NetlinkProtocol::NetlinkKobjectUevent => vec![
            107u8,
            111,
            98,
            106,
            101,
            99,
            116,
            45,
            117,
            101,
            118,
            101,
            110,
            116,
        ],
        NetlinkProtocol::NetlinkScsiTransport => vec![
            115u8,
            99,
            115,
            105,
            116,
            114,
            97,
            110,
            115,
            112,
            111,
            114,
            116,
        ],
        NetlinkProtocol::NetlinkRdma => vec![114u8, 100, 109, 97],
        NetlinkProtocol::NetlinkInvalid => Vec::new(),
    };
    assert(r@ =~= family_name(family));
    r
}

/// The netlink family that `word` names.
pub fn netlink_family_of(word: &Vec<u8>) -> (r: NetlinkProtocol)
    ensures
        r == family_of(word@),
{
    if bytes_equal(word, &netlink_family_name(NetlinkProtocol::NetlinkRoute)) {
        NetlinkProtocol::NetlinkRoute
    } else if bytes_equal(word, &netlink_family_name(NetlinkProtocol::NetlinkInetDiag)) {
        NetlinkProtocol::NetlinkInetDiag
    } else if bytes_equal(word, &netlink_family_name(NetlinkProtocol::NetlinkSelinux)) {
        NetlinkProtocol::NetlinkSelinux
    } else if bytes_equal(word, &netlink_family_name(NetlinkProtocol::NetlinkIscsi)) {
        NetlinkProtocol::NetlinkIscsi
    } else if bytes_equal(word, &netlink_family_name(NetlinkProtocol::NetlinkAudit)) {
        NetlinkProtocol::NetlinkAudit
    } else if bytes_equal(word, &netlink_family_name(NetlinkProtocol::NetlinkFibLookup)) {
        NetlinkProtocol::NetlinkFibLookup
    } else if bytes_equal(word, &netlink_family_name(NetlinkProtocol::NetlinkNetfilter)) {
        NetlinkProtocol::NetlinkNetfilter
    } else if bytes_equal(word, &netlink_family_name(NetlinkProtocol::NetlinkIp6Fw)) {
        NetlinkProtocol::NetlinkIp6Fw
    } else if bytes_equal(word, &netlink_family_name(NetlinkProtocol::NetlinkDnrtMsg)) {
        NetlinkProtocol::NetlinkDnrtMsg
    } else if bytes_equal(word, &netlink_family_name(NetlinkProtocol::NetlinkKobjectUevent)) {
        NetlinkProtocol::NetlinkKobjectUevent
    } else if bytes_equal(word, &netlink_family_name(NetlinkProtocol::NetlinkScsiTransport)) {
        NetlinkProtocol::NetlinkScsiTransport
    } else if bytes_equal(word, &netlink_family_name(NetlinkProtocol::NetlinkRdma)) {
        NetlinkProtocol::NetlinkRdma
    } else {
        NetlinkProtocol::NetlinkInvalid
    }
}

/// Reads the address of a netlink listener from the bytes of its text.
pub fn parse_netlink_address_bytes(bytes: &[u8]) -> (r: Result<SocketAddress, AddressError>)
    ensures
        match r {
            Ok(a) => parse_netlink(bytes@) == Ok::<SocketAddressModel, AddressError>(a@)
                && address_wf(a@),
            Err(e) => parse_netlink(bytes@) == Err::<SocketAddressModel, AddressError>(e),
        },
{
    let len = bytes.len();
    let a = find_word(bytes, 0);
    if a >= len {
        return Err(AddressError::NetlinkFormat);
    }
    let b = find_word_end(bytes, a);
    let c = find_word(bytes, b);
    if c >= len {
        return Err(AddressError::NetlinkFormat);
    }
    let d = find_word_end(bytes, c);
    if find_word(bytes, d) < len {
        return Err(AddressError::NetlinkFormat);
    }
    let word = copy_range(bytes, a, b);
    let family = netlink_family_of(&word);
    if family == NetlinkProtocol::NetlinkInvalid {
        return Err(AddressError::NetlinkFamily);
    }
    let group = match parse_plus_number(bytes, c, d, 0xffff_ffff) {
        Some(g) => g,
        None => {
            return Err(AddressError::NetlinkGroup);
        },
    };
    Ok(
        SocketAddress {
            sock_addr: SockAddr::Netlink { groups: group },
            sa_type: SockType::Raw,
            protocol: Some(family),
        },
    )
}

/// Reads the address of a netlink listener: see [`parse_netlink`].
pub fn parse_netlink_address(item: &str) -> (r: Result<SocketAddress, AddressError>)
    ensures
        match r {
            Ok(a) => parse_netlink(item.spec_bytes()) == Ok::<SocketAddressModel, AddressError>(a@)
                && address_wf(a@),
            Err(e) => parse_netlink(item.spec_bytes()) == Err::<SocketAddressModel, AddressError>(
                e,
            ),
        },
{
    parse_netlink_address_bytes(item.as_bytes())
}

fn push_bytes(out: &mut Vec<u8>, bytes: &Vec<u8>)
    ensures
        final(out)@ == old(out)@ + bytes@,
{
    let mut i: usize = 0;
    while i < bytes.len()
        invariant
            i <= bytes.len(),
            out@ == old(out)@ + bytes@.take(i as int),
        decreases bytes.len() - i,
    {
        out.push(bytes[i]);
        proof {
            assert(bytes@.take(i + 1) =~= bytes@.take(i as int).push(bytes@[i as int]));
            assert(out@ =~= old(out)@ + bytes@.take(i + 1));
        }
        i += 1;
    }
    proof {
        assert(bytes@.take(bytes@.len() as int) =~= bytes@);
    }
}

fn push_groups(out: &mut Vec<u8>, groups: &Vec<u16>)
    ensures
        final(out)@ == old(out)@ + print_groups(groups@),
{
    let ghost start = out@;
    let mut i: usize = groups.len();
    let mut text: Vec<u8> = Vec::new();
    proof {
        assert(groups@.skip(groups@.len() as int) =~= Seq::<u16>::empty());
    }
    while i > 0
        invariant
            i <= groups.len(),
            text@ == print_groups(groups@.skip(i as int)),
        decreases i,
    {
        i -= 1;
        let ghost tail = groups@.skip(i + 1);
        let ghost here = groups@.skip(i as int);
        proof {
            assert(here.drop_first() =~= tail);
            assert(here[0] == groups@[i as int]);
        }
        let mut next: Vec<u8> = Vec::new();
        push_number(&mut next, groups[i] as u32, true);
        if i + 1 < groups.len() {
            next.push(58);
            push_bytes(&mut next, &text);
        }
        proof {
            assert(next@ =~= print_groups(here));
        }
        text = next;
    }
    proof {
        assert(groups@.skip(0) =~= groups@);
    }
    push_bytes(out, &text);
}

impl SocketAddress {
    #[verifier::type_invariant]
    spec fn inv(self) -> bool {
        address_wf(self@)
    }

    /// The address on a socket of type `sa_type` that speaks `protocol`,
    /// unless the three do not make an address: see [`address_wf`].
    pub fn new(sock_addr: SockAddr, sa_type: SockType, protocol: Option<NetlinkProtocol>) -> (r:
        Option<SocketAddress>)
        ensures
            match r {
                Some(a) => a@ == (SocketAddressModel { addr: sock_addr@, sa_type, protocol })
                    && address_wf(a@),
                None => !address_wf(SocketAddressModel { addr: sock_addr@, sa_type, protocol }),
            },
    {
        let ok = match &sock_addr {
            SockAddr::Inet { octets, port } => octets.len() == 4 && protocol.is_none(),
            SockAddr::Inet6 { groups, port } => groups.len() == 8 && protocol.is_none(),
            SockAddr::UnixPath(path) => path.len() > 0 && path[0] == 47 && unix_addr_check(
                path,
            ).is_none() && protocol.is_none(),
            SockAddr::UnixAbstract(name) => name.len() > 0 && name[0] == 64 && unix_abstract_check(
                name,
            ).is_none() && protocol.is_none(),
            SockAddr::Netlink { groups } => sa_type == SockType::Raw && match protocol {
                Some(family) => family != NetlinkProtocol::NetlinkInvalid,
                None => false,
            },
        };
        if ok {
            Some(SocketAddress { sock_addr, sa_type, protocol })
        } else {
            None
        }
    }

    pub fn sock_addr(&self) -> (r: &SockAddr)
        ensures
            r@ == self@.addr,
            address_wf(self@),
    {
        proof {
            use_type_invariant(self);
        }
        &self.sock_addr
    }

    pub fn sa_type(&self) -> (r: SockType)
        ensures
            r == self@.sa_type,
    {
        self.sa_type
    }

    pub fn protocol(&self) -> (r: Option<NetlinkProtocol>)
        ensures
            r == self@.protocol,
    {
        self.protocol
    }

    /// Whether connections can be accepted on a socket of this type:
    /// on streams and on sequenced packets.
    pub fn can_accept(&self) -> (r: bool)
        ensures
            r == (self@.sa_type == SockType::Stream || self@.sa_type == SockType::SeqPacket),
    {
        self.sa_type == SockType::Stream || self.sa_type == SockType::SeqPacket
    }

    /// The path in the file system that the address names, if it names
    /// one.
    pub fn path(&self) -> (r: Option<Vec<u8>>)
        ensures
            match self@.addr {
                AddrModel::UnixPath(path) => r is Some && r->0@ == path,
                _ => r is None,
            },
    {
        match &self.sock_addr {
            SockAddr::UnixPath(path) => Some(copy_range(path.as_slice(), 0, path.len())),
            _ => None,
        }
    }

    pub fn family(&self) -> (r: AddressFamily)
        ensures
            r == match self@.addr {
                AddrModel::Inet { octets, port } => AddressFamily::Inet,
                AddrModel::Inet6 { groups, port } => AddressFamily::Inet6,
                AddrModel::UnixPath(path) => AddressFamily::Unix,
                AddrModel::UnixAbstract(name) => AddressFamily::Unix,
                AddrModel::Netlink { groups } => AddressFamily::Netlink,
            },
    {
        match &self.sock_addr {
            SockAddr::Inet { octets, port } => AddressFamily::Inet,
            SockAddr::Inet6 { groups, port } => AddressFamily::Inet6,
            SockAddr::UnixPath(path) => AddressFamily::Unix,
            SockAddr::UnixAbstract(name) => AddressFamily::Unix,
            SockAddr::Netlink { groups } => AddressFamily::Netlink,
        }
    }

    /// The next step of binding a listener to this address: see
    /// [`listen_next`]. `outcome` says how the step before ended.
    pub fn socket_listen(&self, state: ListenState, outcome: Result<(), i32>) -> (r: (
        ListenState,
        ListenOp,
    ))
        ensures
            r == listen_next(
                self@.addr is UnixPath,
                self@.sa_type == SockType::Stream || self@.sa_type == SockType::SeqPacket,
                state,
                outcome,
            ),
    {
        let has_path = match &self.sock_addr {
            SockAddr::UnixPath(path) => true,
            _ => false,
        };
        let bound = if self.can_accept() {
            (ListenState::Listening, ListenOp::Listen)
        } else {
            (ListenState::Done, ListenOp::Finish { errno: None })
        };
        match state {
            ListenState::Start => (ListenState::Opening, ListenOp::OpenSocket),
            ListenState::Opening => match outcome {
                Ok(()) => (ListenState::SettingReuse, ListenOp::SetReuseAddr),
                Err(e) => (ListenState::Done, ListenOp::Finish { errno: Some(e) }),
            },
            ListenState::SettingReuse => match outcome {
                Ok(()) => if has_path {
                    (ListenState::CreatingDir, ListenOp::CreateParentDir)
                } else {
                    (ListenState::Binding { retried: false }, ListenOp::Bind)
                },
                Err(e) => (ListenState::Failing { errno: e }, ListenOp::Close),
            },
            ListenState::CreatingDir => match outcome {
                Ok(()) => (ListenState::Binding { retried: false }, ListenOp::Bind),
                Err(_) => (ListenState::Failing { errno: EINVAL }, ListenOp::Close),
            },
            ListenState::Binding { retried } => match outcome {
                Ok(()) => bound,
                Err(e) => if has_path && !retried && e == EADDRINUSE {
                    (ListenState::Unlinking, ListenOp::Unlink)
                } else {
                    (ListenState::Failing { errno: e }, ListenOp::Close)
                },
            },
            ListenState::Unlinking => (ListenState::Binding { retried: true }, ListenOp::Bind),
            ListenState::Listening => match outcome {
                Ok(()) => (ListenState::Done, ListenOp::Finish { errno: None }),
                Err(e) => (ListenState::Failing { errno: e }, ListenOp::Close),
            },
            ListenState::Failing { errno } => (
                ListenState::Done,
                ListenOp::Finish { errno: Some(errno) },
            ),
            ListenState::Done => (
                ListenState::Done,
                ListenOp::Finish {
                    errno: match outcome {
                        Ok(()) => None,
                        Err(e) => Some(e),
                    },
                },
            ),
        }
    }

    /// The path to remove before the address is bound anew: that of a
    /// UNIX socket in the file system.
    pub fn unlink(&self) -> (r: Option<Vec<u8>>)
        ensures
            match self@.addr {
                AddrModel::UnixPath(path) => r is Some && r->0@ == path,
                _ => r is None,
            },
    {
        self.path()
    }

    /// The address as a unit file gives it.
    pub fn address_print(&self) -> (r: Vec<u8>)
        ensures
            r@ == print_address(self@),
    {
        proof {
            use_type_invariant(self);
        }
        let mut out: Vec<u8> = Vec::new();
        match &self.sock_addr {
            SockAddr::Inet { octets, port } => {
                push_number(&mut out, octets[0] as u32, false);
                out.push(46);
                push_number(&mut out, octets[1] as u32, false);
                out.push(46);
                push_number(&mut out, octets[2] as u32, false);
                out.push(46);
                push_number(&mut out, octets[3] as u32, false);
                out.push(58);
                push_number(&mut out, *port as u32, false);
                proof {
                    assert(out@ =~= print_address(self@));
                }
            },
            SockAddr::Inet6 { groups, port } => {
                out.push(91);
                push_groups(&mut out, groups);
                out.push(93);
                out.push(58);
                push_number(&mut out, *port as u32, false);
                proof {
                    assert(out@ =~= print_address(self@));
                }
            },
            SockAddr::UnixPath(path) => {
                push_bytes(&mut out, path);
                proof {
                    assert(out@ =~= print_address(self@));
                }
            },
            SockAddr::UnixAbstract(name) => {
                push_bytes(&mut out, name);
                proof {
                    assert(out@ =~= print_address(self@));
                }
            },
            SockAddr::Netlink { groups } => {
                let family = match self.protocol {
                    Some(family) => family,
                    None => NetlinkProtocol::NetlinkInvalid,
                };
                let name = netlink_family_name(family);
                push_bytes(&mut out, &name);
                out.push(32);
                push_number(&mut out, *groups, false);
                proof {
                    assert(out@ =~= print_address(self@));
                }
            },
        }
        out
    }
}

/// Reads the address of a listener from the bytes of its text.
pub fn parse_socket_address_bytes(bytes: &[u8], socket_type: SockType, ipv6: bool) -> (r: Result<
    SocketAddress,
    AddressError,
>)
    ensures
        match r {
            Ok(a) => parse_address(bytes@, socket_type, ipv6) == Ok::<
                SocketAddressModel,
                AddressError,
            >(a@) && address_wf(a@),
            Err(e) => parse_address(bytes@, socket_type, ipv6) == Err::<
                SocketAddressModel,
                AddressError,
            >(e),
        },
{
    proof {
        assert(bytes@.subrange(0, bytes@.len() as int) =~= bytes@);
    }
    if bytes.len() > 0 && bytes[0] == 47 {
        let path = copy_range(bytes, 0, bytes.len());
        return match unix_addr_check(&path) {
            Some(errno) => Err(AddressError::UnixAddr { errno }),
            None => Ok(
                SocketAddress {
                    sock_addr: SockAddr::UnixPath(path),
                    sa_type: socket_type,
                    protocol: None,
                },
            ),
        };
    }
    if bytes.len() > 0 && bytes[0] == 64 {
        let name = copy_range(bytes, 0, bytes.len());
        return match unix_abstract_check(&name) {
            Some(errno) => Err(AddressError::UnixAddr { errno }),
            None => Ok(
                SocketAddress {
                    sock_addr: SockAddr::UnixAbstract(name),
                    sa_type: socket_type,
                    protocol: None,
                },
            ),
        };
    }
    if let Some(port) = read_port_number(bytes) {
        if port == 0 {
            return Err(AddressError::InvalidPort);
        }
        if ipv6 {
            return Ok(
                SocketAddress {
                    sock_addr: SockAddr::Inet6 { groups: zeros_u16(8), port },
                    sa_type: socket_type,
                    protocol: None,
                },
            );
        }
        return Ok(
            SocketAddress {
                sock_addr: SockAddr::Inet { octets: zeros_u8(4), port },
                sa_type: socket_type,
                protocol: None,
            },
        );
    }
    if let Some(addr) = read_v4(bytes) {
        return Ok(SocketAddress { sock_addr: addr, sa_type: socket_type, protocol: None });
    }
    if let Some(addr) = read_v6(bytes) {
        proof {
            lemma_v6_groups_len(bytes@.subrange(1, next_pos(bytes@, 93, 1)));
        }
        return Ok(SocketAddress { sock_addr: addr, sa_type: socket_type, protocol: None });
    }
    Err(AddressError::InvalidListen)
}

/// Reads the address of a listener: see [`parse_address`].
pub fn parse_socket_address(item: &str, socket_type: SockType, ipv6: bool) -> (r: Result<
    SocketAddress,
    AddressError,
>)
    ensures
        match r {
            Ok(a) => parse_address(item.spec_bytes(), socket_type, ipv6) == Ok::<
                SocketAddressModel,
                AddressError,
            >(a@) && address_wf(a@),
            Err(e) => parse_address(item.spec_bytes(), socket_type, ipv6) == Err::<
                SocketAddressModel,
                AddressError,
            >(e),
        },
{
    parse_socket_address_bytes(item.as_bytes(), socket_type, ipv6)
}

/// The groups of an IPv6 address that is read are eight.
pub proof fn lemma_v6_groups_len(s: Seq<u8>)
    ensures
        parse_v6_groups(s) is Some ==> parse_v6_groups(s)->0.len() == 8,
{
}

/// A separator that follows a run of other bytes is found right after
/// the run.
pub proof fn lemma_next_pos_found(s: Seq<u8>, b: u8, from: int, to: int)
    requires
        0 <= from <= to < s.len(),
        s[to] == b,
        forall|i: int| from <= i < to ==> s[i] != b,
    ensures
        next_pos(s, b, from) == to,
    decreases to - from,
{
    if from < to {
        lemma_next_pos_found(s, b, from + 1, to);
    }
}

/// A byte that does not occur from `from` on is not found.
pub proof fn lemma_next_pos_none(s: Seq<u8>, b: u8, from: int)
    requires
        0 <= from,
        forall|i: int| from <= i < s.len() ==> s[i] != b,
    ensures
        next_pos(s, b, from) == s.len(),
    decreases s.len() - from,
{
    if from < s.len() {
        lemma_next_pos_none(s, b, from + 1);
    }
}

proof fn lemma_skip_spaces_at(s: Seq<u8>, from: int)
    requires
        0 <= from < s.len(),
        !is_space(s[from]),
    ensures
        skip_spaces(s, from) == from,
{
}

proof fn lemma_word_end_found(s: Seq<u8>, from: int, to: int)
    requires
        0 <= from <= to <= s.len(),
        to < s.len() ==> is_space(s[to]),
        forall|i: int| from <= i < to ==> !is_space(s[i]),
    ensures
        word_end(s, from) == to,
    decreases to - from,
{
    if from < to {
        lemma_word_end_found(s, from + 1, to);
    }
}

/// A text without two colons in a row has no place where two colons
/// begin.
proof fn lemma_no_double_colon(s: Seq<u8>, from: int)
    requires
        0 <= from,
        forall|i: int| 0 <= i && i + 1 < s.len() ==> !(s[i] == 58 && #[trigger] s[i + 1] == 58),
    ensures
        double_colon(s, from) == s.len(),
    decreases s.len() - from,
{
    if from + 1 < s.len() {
        assert(!(s[from] == 58 && s[from + 1] == 58));
        lemma_no_double_colon(s, from + 1);
    }
}

/// One group as written is made of hexadecimal digits and is read back
/// as the group.
proof fn lemma_group_text(group: u16)
    ensures
        num_digits(group as nat, true).len() >= 1,
        all_digits(num_digits(group as nat, true), true),
        parse_group(num_digits(group as nat, true)) == Some(group as nat),
{
    lemma_num_round_trip(group as nat, true);
    lemma_hex_digits_len(group as nat);
}

/// One number of an IPv4 address as written is made of decimal digits
/// and is read back as the number.
proof fn lemma_octet_text(octet: u8)
    ensures
        num_digits(octet as nat, false).len() >= 1,
        all_digits(num_digits(octet as nat, false), false),
        parse_octet(num_digits(octet as nat, false)) == Some(octet as nat),
{
    lemma_num_round_trip(octet as nat, false);
    lemma_num_digits_lead(octet as nat, false);
}

/// A digit is neither a colon nor a dot nor a bracket.
proof fn lemma_digit_bytes(b: u8, hex: bool)
    requires
        digit_of(b, hex) is Some,
    ensures
        b != 58,
        b != 46,
        b != 93,
        b != 91,
        b != 32,
        b != 43,
{
}

/// What is written for groups is made of hexadecimal digits and single
/// colons, and begins and ends with a digit.
proof fn lemma_groups_text_bytes(groups: Seq<u16>)
    requires
        groups.len() >= 1,
    ensures
        print_groups(groups).len() >= 1,
        forall|i: int|
            0 <= i < print_groups(groups).len() ==> (digit_of(
                #[trigger] print_groups(groups)[i],
                true,
            ) is Some || print_groups(groups)[i] == 58),
        digit_of(print_groups(groups)[0], true) is Some,
        digit_of(print_groups(groups).last(), true) is Some,
        forall|i: int|
            0 <= i && i + 1 < print_groups(groups).len() ==> !(print_groups(groups)[i] == 58
                && #[trigger] print_groups(groups)[i + 1] == 58),
    decreases groups.len(),
{
    let text = print_groups(groups);
    let head = num_digits(groups[0] as nat, true);
    lemma_group_text(groups[0]);
    if groups.len() > 1 {
        let rest = groups.drop_first();
        let tail = print_groups(rest);
        lemma_groups_text_bytes(rest);
        assert(text == head + seq![58u8] + tail);
        let h = head.len() as int;
        assert forall|i: int| 0 <= i < text.len() implies (digit_of(#[trigger] text[i], true)
            is Some || text[i] == 58) by {
            if i < h {
                assert(text[i] == head[i]);
            } else if i > h {
                assert(text[i] == tail[i - h - 1]);
            }
        }
        assert(text[0] == head[0]);
        assert(text.last() == tail.last());
        assert forall|i: int| 0 <= i && i + 1 < text.len() implies !(text[i] == 58
            && #[trigger] text[i + 1] == 58) by {
            if i < h {
                assert(text[i] == head[i]);
                lemma_digit_bytes(head[i], true);
            } else if i == h {
                assert(text[i + 1] == tail[0]);
                lemma_digit_bytes(tail[0], true);
            } else {
                let k = i - h - 1;
                assert(text[i] == tail[k]);
                assert(text[i + 1] == tail[k + 1]);
                assert(!(tail[k] == 58 && tail[k + 1] == 58));
            }
        }
    }
}

/// How the text of more than one group falls apart at its first colon.
proof fn lemma_groups_text_split(groups: Seq<u16>)
    requires
        groups.len() >= 2,
    ensures
        next_pos(print_groups(groups), 58, 0) == num_digits(groups[0] as nat, true).len(),
        next_pos(print_groups(groups), 58, 0) < print_groups(groups).len(),
        print_groups(groups).subrange(0, num_digits(groups[0] as nat, true).len() as int)
            == num_digits(groups[0] as nat, true),
        print_groups(groups).subrange(
            num_digits(groups[0] as nat, true).len() as int + 1,
            print_groups(groups).len() as int,
        ) == print_groups(groups.drop_first()),
{
    let text = print_groups(groups);
    let head = num_digits(groups[0] as nat, true);
    let tail = print_groups(groups.drop_first());
    let h = head.len() as int;
    lemma_group_text(groups[0]);
    assert(text == head + seq![58u8] + tail);
    assert forall|i: int| 0 <= i < h implies text[i] != 58 by {
        assert(text[i] == head[i]);
        lemma_digit_bytes(head[i], true);
    }
    assert(text[h] == 58);
    lemma_next_pos_found(text, 58, 0, h);
    assert(text.subrange(0, h) =~= head);
    assert(text.subrange(h + 1, text.len() as int) =~= tail);
}

/// The text of one group holds neither a colon nor a dot.
proof fn lemma_group_text_plain(group: u16)
    ensures
        next_pos(num_digits(group as nat, true), 58, 0) == num_digits(group as nat, true).len(),
        parse_quad(num_digits(group as nat, true)) is None,
{
    let text = num_digits(group as nat, true);
    lemma_group_text(group);
    assert forall|i: int| 0 <= i < text.len() implies text[i] != 58 && text[i] != 46 by {
        lemma_digit_bytes(text[i], true);
    }
    lemma_next_pos_none(text, 58, 0);
    lemma_no_dot_no_quad(text);
}

/// What is written for groups is read back as the groups.
proof fn lemma_groups_text_read(groups: Seq<u16>, quad: bool)
    requires
        groups.len() >= 1,
    ensures
        parse_groups(print_groups(groups), quad) == Some(groups),
    decreases groups.len(),
{
    let text = print_groups(groups);
    lemma_group_text(groups[0]);
    if groups.len() == 1 {
        lemma_group_text_plain(groups[0]);
        assert(seq![groups[0]] =~= groups);
    } else {
        let rest = groups.drop_first();
        lemma_groups_text_read(rest, quad);
        lemma_groups_text_split(groups);
        assert(seq![groups[0]] + rest =~= groups);
    }
}

/// What is written for groups is made of hexadecimal digits and single
/// colons, begins and ends with a digit, and is read back as the
/// groups.
proof fn lemma_print_groups(groups: Seq<u16>, quad: bool)
    requires
        groups.len() >= 1,
    ensures
        print_groups(groups).len() >= 1,
        forall|i: int|
            0 <= i < print_groups(groups).len() ==> (digit_of(
                #[trigger] print_groups(groups)[i],
                true,
            ) is Some || print_groups(groups)[i] == 58),
        digit_of(print_groups(groups)[0], true) is Some,
        digit_of(print_groups(groups).last(), true) is Some,
        forall|i: int|
            0 <= i && i + 1 < print_groups(groups).len() ==> !(print_groups(groups)[i] == 58
                && #[trigger] print_groups(groups)[i + 1] == 58),
        parse_groups(print_groups(groups), quad) == Some(groups),
{
    lemma_groups_text_bytes(groups);
    lemma_groups_text_read(groups, quad);
}

/// Where the parts of a written IPv4 address lie.
proof fn lemma_quad_text_parts(octets: Seq<u8>)
    requires
        octets.len() == 4,
    ensures
        ({
            let s = print_quad(octets);
            let x0 = num_digits(octets[0] as nat, false);
            let x1 = num_digits(octets[1] as nat, false);
            let x2 = num_digits(octets[2] as nat, false);
            let x3 = num_digits(octets[3] as nat, false);
            let d1 = x0.len() as int;
            let d2 = d1 + 1 + x1.len();
            let d3 = d2 + 1 + x2.len();
            &&& s.len() == d3 + 1 + x3.len()
            &&& s[d1] == 46 && s[d2] == 46 && s[d3] == 46
            &&& s.subrange(0, d1) == x0
            &&& s.subrange(d1 + 1, d2) == x1
            &&& s.subrange(d2 + 1, d3) == x2
            &&& s.subrange(d3 + 1, s.len() as int) == x3
            &&& forall|i: int| 0 <= i < d1 ==> s[i] == x0[i]
            &&& forall|i: int| d1 < i < d2 ==> s[i] == x1[i - d1 - 1]
            &&& forall|i: int| d2 < i < d3 ==> s[i] == x2[i - d2 - 1]
            &&& forall|i: int| d3 < i < s.len() ==> s[i] == x3[i - d3 - 1]
        }),
{
    let s = print_quad(octets);
    let x0 = num_digits(octets[0] as nat, false);
    let x1 = num_digits(octets[1] as nat, false);
    let x2 = num_digits(octets[2] as nat, false);
    let x3 = num_digits(octets[3] as nat, false);
    let d1 = x0.len() as int;
    let d2 = d1 + 1 + x1.len();
    let d3 = d2 + 1 + x2.len();
    assert(s.subrange(0, d1) =~= x0);
    assert(s.subrange(d1 + 1, d2) =~= x1);
    assert(s.subrange(d2 + 1, d3) =~= x2);
    assert(s.subrange(d3 + 1, s.len() as int) =~= x3);
}

/// What is written for the four numbers of an IPv4 address is made of
/// decimal digits and dots and begins with a digit.
proof fn lemma_quad_text_bytes(octets: Seq<u8>)
    requires
        octets.len() == 4,
    ensures
        print_quad(octets).len() >= 1,
        digit_of(print_quad(octets)[0], false) is Some,
        forall|i: int|
            0 <= i < print_quad(octets).len() ==> (digit_of(
                #[trigger] print_quad(octets)[i],
                false,
            ) is Some || print_quad(octets)[i] == 46),
{
    let s = print_quad(octets);
    let d1 = num_digits(octets[0] as nat, false).len() as int;
    let d2 = d1 + 1 + num_digits(octets[1] as nat, false).len();
    let d3 = d2 + 1 + num_digits(octets[2] as nat, false).len();
    lemma_quad_text_parts(octets);
    lemma_octet_text(octets[0]);
    lemma_octet_text(octets[1]);
    lemma_octet_text(octets[2]);
    lemma_octet_text(octets[3]);
    assert forall|i: int| 0 <= i < s.len() implies (digit_of(#[trigger] s[i], false) is Some
        || s[i] == 46) by {
        if i < d1 {
        } else if d1 < i < d2 {
        } else if d2 < i < d3 {
        } else if d3 < i {
        }
    }
}

/// The dots of a written IPv4 address are found where they were
/// written.
proof fn lemma_quad_text_dots(octets: Seq<u8>)
    requires
        octets.len() == 4,
    ensures
        ({
            let s = print_quad(octets);
            let d1 = num_digits(octets[0] as nat, false).len() as int;
            let d2 = d1 + 1 + num_digits(octets[1] as nat, false).len();
            let d3 = d2 + 1 + num_digits(octets[2] as nat, false).len();
            &&& next_pos(s, 46, 0) == d1
            &&& next_pos(s, 46, d1 + 1) == d2
            &&& next_pos(s, 46, d2 + 1) == d3
            &&& d3 < s.len()
        }),
{
    let s = print_quad(octets);
    let x0 = num_digits(octets[0] as nat, false);
    let x1 = num_digits(octets[1] as nat, false);
    let x2 = num_digits(octets[2] as nat, false);
    let d1 = x0.len() as int;
    let d2 = d1 + 1 + x1.len();
    let d3 = d2 + 1 + x2.len();
    lemma_quad_text_parts(octets);
    lemma_octet_text(octets[0]);
    lemma_octet_text(octets[1]);
    lemma_octet_text(octets[2]);
    assert forall|i: int| 0 <= i < d1 implies s[i] != 46 by {
        lemma_digit_bytes(x0[i], false);
    }
    lemma_next_pos_found(s, 46, 0, d1);
    assert forall|i: int| d1 + 1 <= i < d2 implies s[i] != 46 by {
        lemma_digit_bytes(x1[i - d1 - 1], false);
    }
    lemma_next_pos_found(s, 46, d1 + 1, d2);
    assert forall|i: int| d2 + 1 <= i < d3 implies s[i] != 46 by {
        lemma_digit_bytes(x2[i - d2 - 1], false);
    }
    lemma_next_pos_found(s, 46, d2 + 1, d3);
}

/// What is written for the four numbers of an IPv4 address is read
/// back as the four.
proof fn lemma_print_quad(octets: Seq<u8>)
    requires
        octets.len() == 4,
    ensures
        parse_quad(print_quad(octets)) == Some(octets),
        forall|i: int|
            0 <= i < print_quad(octets).len() ==> (digit_of(
                #[trigger] print_quad(octets)[i],
                false,
            ) is Some || print_quad(octets)[i] == 46),
        print_quad(octets).len() >= 1,
        digit_of(print_quad(octets)[0], false) is Some,
{
    reveal(parse_quad);
    lemma_quad_text_parts(octets);
    lemma_quad_text_bytes(octets);
    lemma_quad_text_dots(octets);
    lemma_octet_text(octets[0]);
    lemma_octet_text(octets[1]);
    lemma_octet_text(octets[2]);
    lemma_octet_text(octets[3]);
    assert(seq![octets[0], octets[1], octets[2], octets[3]] =~= octets);
}

/// The four numbers of an IPv4 address that is read are four.
pub proof fn lemma_quad_len(s: Seq<u8>)
    ensures
        parse_quad(s) is Some ==> parse_quad(s)->0.len() == 4,
{
    reveal(parse_quad);
}

/// Each netlink family is named by its own name.
proof fn lemma_family_names(family: NetlinkProtocol)
    requires
        family != NetlinkProtocol::NetlinkInvalid,
    ensures
        family_of(family_name(family)) == family,
        family_name(family).len() >= 1,
        forall|i: int|
            0 <= i < family_name(family).len() ==> !is_space(#[trigger] family_name(family)[i]),
{
    let route = family_name(NetlinkProtocol::NetlinkRoute);
    let inet_diag = family_name(NetlinkProtocol::NetlinkInetDiag);
    let selinux = family_name(NetlinkProtocol::NetlinkSelinux);
    let iscsi = family_name(NetlinkProtocol::NetlinkIscsi);
    let audit = family_name(NetlinkProtocol::NetlinkAudit);
    let fib = family_name(NetlinkProtocol::NetlinkFibLookup);
    let netfilter = family_name(NetlinkProtocol::NetlinkNetfilter);
    let ip6 = family_name(NetlinkProtocol::NetlinkIp6Fw);
    let dnrt = family_name(NetlinkProtocol::NetlinkDnrtMsg);
    let kobject = family_name(NetlinkProtocol::NetlinkKobjectUevent);
    let scsi = family_name(NetlinkProtocol::NetlinkScsiTransport);
    let rdma = family_name(NetlinkProtocol::NetlinkRdma);
    assert(route.len() == 5 && route[0] == 114);
    assert(inet_diag.len() == 9 && inet_diag[0] == 105);
    assert(selinux.len() == 7 && selinux[0] == 115);
    assert(iscsi.len() == 5 && iscsi[0] == 105);
    assert(audit.len() == 5 && audit[0] == 97);
    assert(fib.len() == 10);
    assert(netfilter.len() == 9 && netfilter[0] == 110);
    assert(ip6.len() == 6);
    assert(dnrt.len() == 7 && dnrt[0] == 100);
    assert(kobject.len() == 14);
    assert(scsi.len() == 13);
    assert(rdma.len() == 4);
}

/// An address that is written as a unit file gives it is read back as
/// itself: reading undoes writing on every form of address. Netlink
/// addresses are read as netlink listeners are, all others as stream,
/// datagram and packet listeners are, whether the machine has IPv6 or
/// not.
pub proof fn lemma_address_round_trip(a: SocketAddressModel, ipv6: bool)
    requires
        address_wf(a),
    ensures
        match a.addr {
            AddrModel::Netlink { groups } => parse_netlink(print_address(a)) == Ok::<
                SocketAddressModel,
                AddressError,
            >(a),
            _ => parse_address(print_address(a), a.sa_type, ipv6) == Ok::<
                SocketAddressModel,
                AddressError,
            >(a),
        },
{
    match a.addr {
        AddrModel::Inet { octets, port } => {
            lemma_round_trip_v4(octets, port, a.sa_type, ipv6);
        },
        AddrModel::Inet6 { groups, port } => {
            lemma_round_trip_v6(groups, port, a.sa_type, ipv6);
        },
        AddrModel::UnixPath(path) => {},
        AddrModel::UnixAbstract(name) => {},
        AddrModel::Netlink { groups } => {
            lemma_round_trip_netlink(a.protocol->0, groups);
        },
    }
}

proof fn lemma_round_trip_v4(octets: Seq<u8>, port: u16, sa_type: SockType, ipv6: bool)
    requires
        octets.len() == 4,
    ensures
        parse_address(
            print_address(
                SocketAddressModel { addr: AddrModel::Inet { octets, port }, sa_type, protocol: None },
            ),
            sa_type,
            ipv6,
        ) == Ok::<SocketAddressModel, AddressError>(
            SocketAddressModel { addr: AddrModel::Inet { octets, port }, sa_type, protocol: None },
        ),
{
    let a = SocketAddressModel { addr: AddrModel::Inet { octets, port }, sa_type, protocol: None };
    let s = print_address(a);
    let q = print_quad(octets);
    let xp = num_digits(port as nat, false);
    lemma_print_quad(octets);
    lemma_num_round_trip(port as nat, false);
    let c = q.len() as int;
    assert(s.len() == c + 1 + xp.len());
    assert(s.subrange(0, c) =~= q);
    assert(s.subrange(c + 1, s.len() as int) =~= xp);
    assert(s[c] == 58);
    assert forall|i: int| 0 <= i < c implies s[i] != 58 by {
        assert(s[i] == q[i]);
    }
    lemma_next_pos_found(s, 58, 0, c);
    assert(digit_of(s[c], false) is None);
    assert(!all_digits(s, false));
    assert(s[0] == q[0]);
    assert(s.skip(1)[c - 1] == s[c]);
    assert(!all_digits(s.skip(1), false));
}

/// A text without a dot is no IPv4 address.
proof fn lemma_no_dot_no_quad(s: Seq<u8>)
    requires
        forall|i: int| 0 <= i < s.len() ==> s[i] != 46,
    ensures
        parse_quad(s) is None,
{
    reveal(parse_quad);
    lemma_next_pos_none(s, 46, 0);
}

/// A text without a dot is no IPv4 address with a port.
proof fn lemma_no_dot_no_v4(s: Seq<u8>)
    requires
        forall|i: int| 0 <= i < s.len() ==> s[i] != 46,
    ensures
        parse_v4(s) is None,
{
    let c = next_pos(s, 58, 0);
    lemma_next_pos_bounds(s, 58, 0);
    if c < s.len() {
        let sub = s.subrange(0, c);
        assert forall|i: int| 0 <= i < sub.len() implies sub[i] != 46 by {
            assert(sub[i] == s[i]);
        }
        lemma_no_dot_no_quad(sub);
    }
}

/// A text that begins with a bracket is no port number.
proof fn lemma_bracket_no_port(s: Seq<u8>)
    requires
        s.len() > 0,
        s[0] == 91,
    ensures
        parse_port_number(s) is None,
{
    assert(digit_of(s[0], false) is None);
    assert(!all_digits(s, false));
}

/// An IPv6 address with its port as written.
spec fn v6_text(groups: Seq<u16>, port: u16) -> Seq<u8> {
    seq![91u8] + print_groups(groups) + seq![93u8, 58u8] + num_digits(port as nat, false)
}

/// Where the parts of a written IPv6 address lie.
proof fn lemma_v6_text_parts(groups: Seq<u16>, port: u16)
    ensures
        v6_text(groups, port).len() == print_groups(groups).len() + 3 + num_digits(
            port as nat,
            false,
        ).len(),
        v6_text(groups, port)[0] == 91,
        v6_text(groups, port)[1 + print_groups(groups).len() as int] == 93,
        v6_text(groups, port)[2 + print_groups(groups).len() as int] == 58,
        v6_text(groups, port).subrange(1, 1 + print_groups(groups).len() as int) == print_groups(
            groups,
        ),
        v6_text(groups, port).subrange(
            3 + print_groups(groups).len() as int,
            v6_text(groups, port).len() as int,
        ) == num_digits(port as nat, false),
{
    let s = v6_text(groups, port);
    let g = print_groups(groups);
    let xp = num_digits(port as nat, false);
    assert(s.subrange(1, 1 + g.len() as int) =~= g);
    assert(s.subrange(3 + g.len() as int, s.len() as int) =~= xp);
}

/// A written IPv6 address holds no dot, and no closing bracket before
/// the one that ends the groups.
proof fn lemma_v6_text_bytes(groups: Seq<u16>, port: u16)
    requires
        groups.len() >= 1,
    ensures
        forall|i: int| 0 <= i < v6_text(groups, port).len() ==> v6_text(groups, port)[i] != 46,
        next_pos(v6_text(groups, port), 93, 1) == 1 + print_groups(groups).len() as int,
{
    let s = v6_text(groups, port);
    let g = print_groups(groups);
    let xp = num_digits(port as nat, false);
    let close = 1 + g.len() as int;
    lemma_v6_text_parts(groups, port);
    lemma_print_groups(groups, true);
    lemma_num_round_trip(port as nat, false);
    assert forall|i: int| 0 <= i < s.len() implies s[i] != 46 by {
        if 1 <= i < close {
            assert(s[i] == g[i - 1]);
            assert(digit_of(g[i - 1], true) is Some || g[i - 1] == 58);
        } else if i >= close + 2 {
            assert(s[i] == xp[i - close - 2]);
            assert(digit_of(xp[i - close - 2], false) is Some);
        }
    }
    assert forall|i: int| 1 <= i < close implies s[i] != 93 by {
        assert(s[i] == g[i - 1]);
        assert(digit_of(g[i - 1], true) is Some || g[i - 1] == 58);
    }
    lemma_next_pos_found(s, 93, 1, close);
}

/// Eight groups as written are read back as the eight.
proof fn lemma_printed_groups_read(groups: Seq<u16>)
    requires
        groups.len() == 8,
    ensures
        parse_v6_groups(print_groups(groups)) == Some(groups),
{
    lemma_print_groups(groups, true);
    lemma_no_double_colon(print_groups(groups), 0);
}

/// A written IPv6 address with its port is read back as it was.
proof fn lemma_v6_text_read(groups: Seq<u16>, port: u16)
    requires
        groups.len() == 8,
    ensures
        parse_v6(v6_text(groups, port)) == Some(AddrModel::Inet6 { groups, port }),
{
    lemma_v6_text_parts(groups, port);
    lemma_v6_text_bytes(groups, port);
    lemma_printed_groups_read(groups);
    lemma_num_round_trip(port as nat, false);
}

proof fn lemma_round_trip_v6(groups: Seq<u16>, port: u16, sa_type: SockType, ipv6: bool)
    requires
        groups.len() == 8,
    ensures
        parse_address(
            print_address(
                SocketAddressModel {
                    addr: AddrModel::Inet6 { groups, port },
                    sa_type,
                    protocol: None,
                },
            ),
            sa_type,
            ipv6,
        ) == Ok::<SocketAddressModel, AddressError>(
            SocketAddressModel { addr: AddrModel::Inet6 { groups, port }, sa_type, protocol: None },
        ),
{
    let a = SocketAddressModel { addr: AddrModel::Inet6 { groups, port }, sa_type, protocol: None };
    let s = print_address(a);
    assert(s == v6_text(groups, port));
    lemma_v6_text_parts(groups, port);
    lemma_v6_text_bytes(groups, port);
    lemma_bracket_no_port(s);
    lemma_no_dot_no_v4(s);
    lemma_v6_text_read(groups, port);
}

proof fn lemma_round_trip_netlink(family: NetlinkProtocol, groups: u32)
    requires
        family != NetlinkProtocol::NetlinkInvalid,
    ensures
        parse_netlink(
            print_address(
                SocketAddressModel {
                    addr: AddrModel::Netlink { groups },
                    sa_type: SockType::Raw,
                    protocol: Some(family),
                },
            ),
        ) == Ok::<SocketAddressModel, AddressError>(
            SocketAddressModel {
                addr: AddrModel::Netlink { groups },
                sa_type: SockType::Raw,
                protocol: Some(family),
            },
        ),
{
    let a = SocketAddressModel {
        addr: AddrModel::Netlink { groups },
        sa_type: SockType::Raw,
        protocol: Some(family),
    };
    let s = print_address(a);
    let name = family_name(family);
    let digits = num_digits(groups as nat, false);
    lemma_family_names(family);
    lemma_num_round_trip(groups as nat, false);
    let b = name.len() as int;
    assert(s.len() == b + 1 + digits.len());
    assert(s.subrange(0, b) =~= name);
    assert(s.subrange(b + 1, s.len() as int) =~= digits);
    assert(s[0] == name[0]);
    assert(s[b] == 32);
    assert forall|i: int| 0 <= i < b implies !is_space(s[i]) by {
        assert(s[i] == name[i]);
    }
    assert forall|i: int| b + 1 <= i < s.len() implies !is_space(s[i]) by {
        assert(s[i] == digits[i - b - 1]);
        assert(digit_of(digits[i - b - 1], false) is Some);
    }
    lemma_skip_spaces_at(s, 0);
    lemma_word_end_found(s, 0, b);
    assert(skip_spaces(s, b) == b + 1) by {
        lemma_skip_spaces_at(s, b + 1);
    }
    lemma_word_end_found(s, b + 1, s.len() as int);
    assert(digit_of(digits[0], false) is Some);
}

} // verus!
