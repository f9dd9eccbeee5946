use sysmaster::socket_addr::{
    netlink_family_name, netlink_family_of, parse_netlink_address, parse_socket_address,
    AddressError, AddressFamily, ListenOp, ListenState, NetlinkProtocol, SockAddr, SockType,
    SocketAddress, EADDRINUSE, EINVAL, ENAMETOOLONG,
};

fn parse(item: &str) -> Result<SocketAddress, AddressError> {
    parse_socket_address(item, SockType::Stream, true)
}

fn text(a: &SocketAddress) -> String {
    String::from_utf8(a.address_print()).unwrap()
}

fn round_trip(a: &SocketAddress) {
    let printed = text(a);
    let back = if a.family() == AddressFamily::Netlink {
        parse_netlink_address(&printed).unwrap()
    } else {
        parse_socket_address(&printed, a.sa_type(), false).unwrap()
    };
    assert_eq!(text(&back), printed);
    assert_eq!(back.family(), a.family());
    assert_eq!(back.sa_type(), a.sa_type());
    assert_eq!(back.protocol(), a.protocol());
}

#[test]
fn unix_path_is_taken_as_written() {
    let a = parse("/run/app.sock").unwrap();
    assert_eq!(a.family(), AddressFamily::Unix);
    assert_eq!(a.path(), Some(b"/run/app.sock".to_vec()));
    assert_eq!(a.unlink(), Some(b"/run/app.sock".to_vec()));
    assert_eq!(text(&a), "/run/app.sock");
    assert!(a.can_accept());
    assert_eq!(a.protocol(), None);
}

#[test]
fn unix_path_limits_come_from_the_address_structure() {
    let fits = format!("/{}", "a".repeat(106));
    assert_eq!(fits.len(), 107);
    assert!(parse(&fits).is_ok());
    let too_long = format!("/{}", "a".repeat(107));
    assert_eq!(parse(&too_long).err(), Some(AddressError::UnixAddr { errno: ENAMETOOLONG }));
    assert_eq!(parse("/run/a\0b").err(), Some(AddressError::UnixAddr { errno: EINVAL }));
}

#[test]
fn abstract_name_is_taken_with_its_at_sign() {
    let a = parse("@seqpacket").unwrap();
    assert_eq!(a.family(), AddressFamily::Unix);
    assert_eq!(a.path(), None);
    assert_eq!(text(&a), "@seqpacket");
    let fits = format!("@{}", "b".repeat(106));
    assert!(parse(&fits).is_ok());
    let too_long = format!("@{}", "b".repeat(107));
    assert_eq!(parse(&too_long).err(), Some(AddressError::UnixAddr { errno: ENAMETOOLONG }));
}

#[test]
fn scenario_bare_port_binds_ipv6_if_supported_else_ipv4() {
    let a = parse_socket_address("12345", SockType::Stream, true).unwrap();
    assert_eq!(a.family(), AddressFamily::Inet6);
    assert_eq!(text(&a), "[0:0:0:0:0:0:0:0]:12345");
    let b = parse_socket_address("12345", SockType::Stream, false).unwrap();
    assert_eq!(b.family(), AddressFamily::Inet);
    assert_eq!(text(&b), "0.0.0.0:12345");
    let c = parse_socket_address("+80", SockType::Datagram, false).unwrap();
    assert_eq!(text(&c), "0.0.0.0:80");
    assert!(!c.can_accept());
}

#[test]
fn port_must_lie_between_1_and_65535() {
    assert_eq!(parse("0").err(), Some(AddressError::InvalidPort));
    assert_eq!(parse("000").err(), Some(AddressError::InvalidPort));
    assert!(parse("65535").is_ok());
    assert!(parse("1").is_ok());
    assert_eq!(parse("65536").err(), Some(AddressError::InvalidListen));
    assert_eq!(parse("-1").err(), Some(AddressError::InvalidListen));
    assert_eq!(parse("").err(), Some(AddressError::InvalidListen));
    assert_eq!(parse("80 ").err(), Some(AddressError::InvalidListen));
}

#[test]
fn ipv4_literal_is_parsed_directly() {
    let a = parse("192.168.1.7:8080").unwrap();
    assert_eq!(a.family(), AddressFamily::Inet);
    match a.sock_addr() {
        SockAddr::Inet { octets, port } => {
            assert_eq!(octets, &vec![192, 168, 1, 7]);
            assert_eq!(*port, 8080);
        }
        _ => panic!("not an IPv4 address"),
    }
    assert_eq!(text(&a), "192.168.1.7:8080");
    assert_eq!(parse("256.1.1.1:80").err(), Some(AddressError::InvalidListen));
    assert_eq!(parse("1.2.3:80").err(), Some(AddressError::InvalidListen));
    assert_eq!(parse("1.2.3.4").err(), Some(AddressError::InvalidListen));
    assert_eq!(parse("1.2.3.4:").err(), Some(AddressError::InvalidListen));
    assert_eq!(parse("1.2.3.4:70000").err(), Some(AddressError::InvalidListen));
    assert_eq!(parse("1..3.4:80").err(), Some(AddressError::InvalidListen));
}

#[test]
fn ipv6_literal_is_parsed_directly() {
    let a = parse("[::1]:443").unwrap();
    match a.sock_addr() {
        SockAddr::Inet6 { groups, port } => {
            assert_eq!(groups, &vec![0, 0, 0, 0, 0, 0, 0, 1]);
            assert_eq!(*port, 443);
        }
        _ => panic!("not an IPv6 address"),
    }
    assert_eq!(text(&a), "[0:0:0:0:0:0:0:1]:443");
    let b = parse("[fe80::1:AbCd]:22").unwrap();
    assert_eq!(text(&b), "[fe80:0:0:0:0:0:1:abcd]:22");
    let c = parse("[1:2:3:4:5:6:7:8]:9").unwrap();
    assert_eq!(text(&c), "[1:2:3:4:5:6:7:8]:9");
    let d = parse("[::]:9").unwrap();
    assert_eq!(text(&d), "[0:0:0:0:0:0:0:0]:9");
    let e = parse("[1::]:9").unwrap();
    assert_eq!(text(&e), "[1:0:0:0:0:0:0:0]:9");
    assert_eq!(parse("[1:2:3:4:5:6:7]:9").err(), Some(AddressError::InvalidListen));
    assert_eq!(parse("[1:2:3:4:5:6:7:8:9]:9").err(), Some(AddressError::InvalidListen));
    assert_eq!(parse("[1::2::3]:9").err(), Some(AddressError::InvalidListen));
    assert_eq!(parse("[12345::]:9").err(), Some(AddressError::InvalidListen));
    assert_eq!(parse("[::1]").err(), Some(AddressError::InvalidListen));
    assert_eq!(parse("[::1]:").err(), Some(AddressError::InvalidListen));
    assert_eq!(parse("[1:2:3:4:5:6:7::8]:9").err(), Some(AddressError::InvalidListen));
    assert_eq!(parse("[::g]:9").err(), Some(AddressError::InvalidListen));
}

#[test]
fn netlink_address_is_family_and_group() {
    let a = parse_netlink_address("route 0").unwrap();
    assert_eq!(a.family(), AddressFamily::Netlink);
    assert_eq!(a.sa_type(), SockType::Raw);
    assert_eq!(a.protocol(), Some(NetlinkProtocol::NetlinkRoute));
    assert_eq!(text(&a), "route 0");
    let b = parse_netlink_address("  kobject-uevent \t 4294967295 ").unwrap();
    assert_eq!(b.protocol(), Some(NetlinkProtocol::NetlinkKobjectUevent));
    assert_eq!(text(&b), "kobject-uevent 4294967295");
    assert!(!a.can_accept());
    assert_eq!(parse_netlink_address("route").err(), Some(AddressError::NetlinkFormat));
    assert_eq!(parse_netlink_address("").err(), Some(AddressError::NetlinkFormat));
    assert_eq!(parse_netlink_address("route 1 2").err(), Some(AddressError::NetlinkFormat));
    assert_eq!(parse_netlink_address("bogus 1").err(), Some(AddressError::NetlinkFamily));
    assert_eq!(parse_netlink_address("route x").err(), Some(AddressError::NetlinkGroup));
    assert_eq!(
        parse_netlink_address("route 4294967296").err(),
        Some(AddressError::NetlinkGroup)
    );
}

#[test]
fn netlink_family_table_names_each_family_once() {
    let all = [
        (NetlinkProtocol::NetlinkRoute, "route"),
        (NetlinkProtocol::NetlinkInetDiag, "inet-diag"),
        (NetlinkProtocol::NetlinkSelinux, "selinux"),
        (NetlinkProtocol::NetlinkIscsi, "iscsi"),
        (NetlinkProtocol::NetlinkAudit, "audit"),
        (NetlinkProtocol::NetlinkFibLookup, "fib-lookup"),
        (NetlinkProtocol::NetlinkNetfilter, "netfilter"),
        (NetlinkProtocol::NetlinkIp6Fw, "ip6-fw"),
        (NetlinkProtocol::NetlinkDnrtMsg, "dnrtmsg"),
        (NetlinkProtocol::NetlinkKobjectUevent, "kobject-uevent"),
        (NetlinkProtocol::NetlinkScsiTransport, "scsitransport"),
        (NetlinkProtocol::NetlinkRdma, "rdma"),
    ];
    for (family, name) in all {
        assert_eq!(netlink_family_name(family), name.as_bytes().to_vec());
        assert_eq!(netlink_family_of(&name.as_bytes().to_vec()), family);
    }
    assert_eq!(netlink_family_of(&b"Route".to_vec()), NetlinkProtocol::NetlinkInvalid);
}

#[test]
fn printing_then_parsing_gives_the_address_back() {
    for item in ["/run/x", "@abs", "10.0.0.1:1", "255.255.255.255:65535", "[a:b:c:d:e:f:0:1]:5"] {
        round_trip(&parse(item).unwrap());
    }
    round_trip(&parse_socket_address("7", SockType::SeqPacket, true).unwrap());
    round_trip(&parse_socket_address("7", SockType::Datagram, false).unwrap());
    round_trip(&parse_netlink_address("audit 12").unwrap());
}

#[test]
fn new_takes_only_what_makes_an_address() {
    let ok = SocketAddress::new(
        SockAddr::Inet { octets: vec![127, 0, 0, 1], port: 80 },
        SockType::Stream,
        None,
    );
    assert!(ok.is_some());
    assert_eq!(text(&ok.unwrap()), "127.0.0.1:80");
    assert!(SocketAddress::new(
        SockAddr::Inet { octets: vec![127, 0, 1], port: 80 },
        SockType::Stream,
        None
    )
    .is_none());
    assert!(SocketAddress::new(
        SockAddr::Inet6 { groups: vec![0; 7], port: 80 },
        SockType::Stream,
        None
    )
    .is_none());
    assert!(SocketAddress::new(SockAddr::UnixPath(b"run".to_vec()), SockType::Stream, None)
        .is_none());
    assert!(SocketAddress::new(SockAddr::UnixPath(b"/run".to_vec()), SockType::Stream, None)
        .is_some());
    assert!(SocketAddress::new(SockAddr::UnixAbstract(b"@a".to_vec()), SockType::Stream, None)
        .is_some());
    assert!(SocketAddress::new(
        SockAddr::Netlink { groups: 1 },
        SockType::Raw,
        Some(NetlinkProtocol::NetlinkAudit)
    )
    .is_some());
    assert!(SocketAddress::new(SockAddr::Netlink { groups: 1 }, SockType::Raw, None).is_none());
    assert!(SocketAddress::new(
        SockAddr::Netlink { groups: 1 },
        SockType::Stream,
        Some(NetlinkProtocol::NetlinkAudit)
    )
    .is_none());
}

fn run_listen(a: &SocketAddress, answers: &[Result<(), i32>]) -> (Vec<ListenOp>, Option<i32>) {
    let mut ops = Vec::new();
    let mut state = ListenState::Start;
    let mut outcome = Ok(());
    let mut next = 0;
    loop {
        let (s, op) = a.socket_listen(state, outcome);
        state = s;
        if let ListenOp::Finish { errno } = op {
            return (ops, errno);
        }
        ops.push(op);
        outcome = if op == ListenOp::Close {
            Ok(())
        } else {
            let r = answers.get(next).copied().unwrap_or(Ok(()));
            next += 1;
            r
        };
    }
}

#[test]
fn bind_sequence_of_a_tcp_listener() {
    let a = parse("127.0.0.1:80").unwrap();
    let (ops, errno) = run_listen(&a, &[]);
    assert_eq!(
        ops,
        vec![ListenOp::OpenSocket, ListenOp::SetReuseAddr, ListenOp::Bind, ListenOp::Listen]
    );
    assert_eq!(errno, None);
    let d = parse_socket_address("127.0.0.1:80", SockType::Datagram, false).unwrap();
    let (ops, errno) = run_listen(&d, &[]);
    assert_eq!(ops, vec![ListenOp::OpenSocket, ListenOp::SetReuseAddr, ListenOp::Bind]);
    assert_eq!(errno, None);
}

#[test]
fn scenario_unix_socket_reuse() {
    let a = parse("/run/app.sock").unwrap();
    let (ops, errno) = run_listen(&a, &[Ok(()), Ok(()), Ok(()), Err(EADDRINUSE)]);
    assert_eq!(
        ops,
        vec![
            ListenOp::OpenSocket,
            ListenOp::SetReuseAddr,
            ListenOp::CreateParentDir,
            ListenOp::Bind,
            ListenOp::Unlink,
            ListenOp::Bind,
            ListenOp::Listen,
        ]
    );
    assert_eq!(errno, None);
}

#[test]
fn bind_failures_close_the_socket_and_pass_the_error_on() {
    let a = parse("/run/app.sock").unwrap();
    // in use twice: only one retry
    let (ops, errno) =
        run_listen(&a, &[Ok(()), Ok(()), Ok(()), Err(EADDRINUSE), Ok(()), Err(EADDRINUSE)]);
    assert_eq!(ops.last(), Some(&ListenOp::Close));
    assert_eq!(ops.iter().filter(|op| **op == ListenOp::Bind).count(), 2);
    assert_eq!(errno, Some(EADDRINUSE));
    // any other bind error fails at once
    let (ops, errno) = run_listen(&a, &[Ok(()), Ok(()), Ok(()), Err(13)]);
    assert_eq!(ops.last(), Some(&ListenOp::Close));
    assert_eq!(ops.iter().filter(|op| **op == ListenOp::Unlink).count(), 0);
    assert_eq!(errno, Some(13));
    // the directory cannot be made
    let (ops, errno) = run_listen(&a, &[Ok(()), Ok(()), Err(13)]);
    assert_eq!(ops.last(), Some(&ListenOp::Close));
    assert_eq!(errno, Some(EINVAL));
    // no socket at all: nothing to close
    let (ops, errno) = run_listen(&a, &[Err(24)]);
    assert_eq!(ops, vec![ListenOp::OpenSocket]);
    assert_eq!(errno, Some(24));
    // an address in use is final for what has no path
    let t = parse("127.0.0.1:80").unwrap();
    let (ops, errno) = run_listen(&t, &[Ok(()), Ok(()), Err(EADDRINUSE)]);
    assert_eq!(ops.last(), Some(&ListenOp::Close));
    assert_eq!(errno, Some(EADDRINUSE));
    // listen fails
    let (ops, errno) = run_listen(&t, &[Ok(()), Ok(()), Ok(()), Err(5)]);
    assert_eq!(ops.last(), Some(&ListenOp::Close));
    assert_eq!(errno, Some(5));
}

fn refused(item: &str) {
    assert_eq!(parse(item).err(), Some(AddressError::InvalidListen), "{:?}", item);
}

fn reads_v4(item: &str, octets: [u8; 4], port: u16) {
    let a = parse(item).unwrap_or_else(|e| panic!("{:?} refused: {:?}", item, e));
    match a.sock_addr() {
        SockAddr::Inet { octets: o, port: p } => {
            assert_eq!((o.as_slice(), *p), (&octets[..], port), "{:?}", item)
        }
        _ => panic!("{:?} is read as something else", item),
    }
}

fn reads_v6(item: &str, groups: [u16; 8], port: u16) {
    let a = parse(item).unwrap_or_else(|e| panic!("{:?} refused: {:?}", item, e));
    match a.sock_addr() {
        SockAddr::Inet6 { groups: g, port: p } => {
            assert_eq!((g.as_slice(), *p), (&groups[..], port), "{:?}", item)
        }
        _ => panic!("{:?} is read as something else", item),
    }
}

#[test]
fn ipv4_literal_has_four_plain_numbers_and_a_port() {
    reads_v4("127.0.0.1:80", [127, 0, 0, 1], 80);
    reads_v4("0.0.0.0:0", [0, 0, 0, 0], 0);
    reads_v4("255.255.255.255:65535", [255, 255, 255, 255], 65535);
    reads_v4("1.2.3.4:00080", [1, 2, 3, 4], 80);
    reads_v4("10.20.30.40:1", [10, 20, 30, 40], 1);
    reads_v4("100.0.9.99:8080", [100, 0, 9, 99], 8080);
}

#[test]
fn ipv4_literal_with_anything_else_is_refused() {
    for item in [
        "1.2.3.4:65536",
        "1.2.3.4:",
        "1.2.3.4",
        "1.2.3:80",
        "1.2.3.4.5:80",
        "01.2.3.4:80",
        "1.02.3.4:80",
        "1.2.3.04:80",
        "00.0.0.0:1",
        "0.0.0.00:1",
        "256.1.1.1:80",
        "1.2.3.256:80",
        "1.2.3.1000:80",
        "1..3.4:80",
        ".1.2.3:80",
        "1.2.3.:80",
        "1.2.3.4:80:90",
        "1.2.3.4 :80",
        " 1.2.3.4:80",
        "1.2.3.4:+80",
        "1.2.3.4:8a",
        "a.b.c.d:80",
        "1.2.3.4:-1",
        "1:2.3.4.5",
        "x",
        ":",
        "...:1",
    ] {
        refused(item);
    }
}

#[test]
fn ipv6_literal_has_eight_groups_or_one_gap() {
    reads_v6("[::]:80", [0, 0, 0, 0, 0, 0, 0, 0], 80);
    reads_v6("[::1]:80", [0, 0, 0, 0, 0, 0, 0, 1], 80);
    reads_v6("[1::]:80", [1, 0, 0, 0, 0, 0, 0, 0], 80);
    reads_v6("[1:2:3:4:5:6:7:8]:80", [1, 2, 3, 4, 5, 6, 7, 8], 80);
    reads_v6("[1:2:3:4:5:6:7::]:80", [1, 2, 3, 4, 5, 6, 7, 0], 80);
    reads_v6("[::2:3:4:5:6:7:8]:80", [0, 2, 3, 4, 5, 6, 7, 8], 80);
    reads_v6("[1::3:4:5:6:7:8]:80", [1, 0, 3, 4, 5, 6, 7, 8], 80);
    reads_v6("[ABCD:ef01::9]:443", [43981, 61185, 0, 0, 0, 0, 0, 9], 443);
    reads_v6("[0000:0000:0000:0000:0000:0000:0000:0001]:1", [0, 0, 0, 0, 0, 0, 0, 1], 1);
    reads_v6("[ffff::ffff]:65535", [65535, 0, 0, 0, 0, 0, 0, 65535], 65535);
    reads_v6("[::1]:080", [0, 0, 0, 0, 0, 0, 0, 1], 80);
}

#[test]
fn ipv6_literal_may_end_in_the_numbers_of_an_ipv4_address() {
    reads_v6("[::ffff:1.2.3.4]:80", [0, 0, 0, 0, 0, 65535, 258, 772], 80);
    reads_v6("[::1.2.3.4]:80", [0, 0, 0, 0, 0, 0, 258, 772], 80);
    reads_v6("[1:2:3:4:5:6:1.2.3.4]:80", [1, 2, 3, 4, 5, 6, 258, 772], 80);
    reads_v6("[::1:2:3:4:5:1.2.3.4]:80", [0, 1, 2, 3, 4, 5, 258, 772], 80);
    reads_v6("[64:ff9b::192.0.2.33]:53", [100, 65435, 0, 0, 0, 0, 49152, 545], 53);
    reads_v6("[1::255.255.255.255]:9", [1, 0, 0, 0, 0, 0, 65535, 65535], 9);
}

#[test]
fn ipv6_literal_with_anything_else_is_refused() {
    for item in [
        "[1:2:3:4:5:6:7:8:9]:80",
        "[1:2:3:4:5:6:7]:80",
        "[1:2:3:4::5:6:7:8]:80",
        "[1::2::3]:80",
        "[:::]:80",
        "[1:::2]:80",
        "[:1]:80",
        "[1:]:80",
        "[::1:]:80",
        "[:1::]:80",
        "[00001::]:1",
        "[12345::]:1",
        "[g::]:1",
        "[1.2.3.4::]:80",
        "[1.2.3.4]:80",
        "[1:2:3:4:5:6:7:1.2.3.4]:80",
        "[1:2:3:4:5:1.2.3.4]:80",
        "[::1:2:3:4:5:6:1.2.3.4]:80",
        "[1::1.2.3.4:5]:80",
        "[::01.2.3.4]:80",
        "[::1.2.3]:80",
        "[::1.2.3.4.5]:80",
        "[::256.2.3.4]:80",
        "[::1]:",
        "[::1]",
        "[::1]80",
        "::1:80",
        "[::1]:65536",
        "[::1]]:80",
        "[[::1]:80",
        "[]:80",
        "[",
        "[::1 ]:80",
        "[::1]:+80",
    ] {
        refused(item);
    }
}

#[test]
fn zone_of_an_ipv6_address_is_not_taken() {
    refused("[fe80::1%2]:80");
    refused("[fe80::1%eth0]:80");
}

#[test]
fn netlink_group_may_carry_a_plus_sign() {
    let a = parse_netlink_address("route +5").unwrap();
    match a.sock_addr() {
        SockAddr::Netlink { groups } => assert_eq!(*groups, 5),
        _ => panic!("not a netlink address"),
    }
    assert_eq!(parse_netlink_address("route +").err(), Some(AddressError::NetlinkGroup));
    assert_eq!(parse_netlink_address("route -5").err(), Some(AddressError::NetlinkGroup));
    assert_eq!(parse_netlink_address("route 4294967296").err(), Some(AddressError::NetlinkGroup));
    assert!(parse_netlink_address("route 4294967295").is_ok());
}
