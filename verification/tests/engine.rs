//! Tests of the client engine: the acquisition scenario, lease expiry,
//! declines, transaction-id matching, state linearity, and the
//! exponential backoff schedule.

use dhcpv6_client::ip::Ipv6Address;
use dhcpv6_client::socket::{
    ClientState, Context, DispatchEmit, EthernetAddress, HardwareAddress, Icmpv6Repr, IpProtocol,
    Ipv6Repr, NdiscRepr, PollAt, PrefixInformation, RouterFlags, Socket, UdpRepr,
};
use dhcpv6_client::time::{Duration, Instant};
use dhcpv6_client::wire::{
    MessageType, Packet, Repr, ReprDnsServers, ReprIaAddr, ReprIaNa, ReprStatusCode, StatusCode,
};
use dhcpv6_client::socket::Event as SocketEvent;

fn eth() -> EthernetAddress {
    EthernetAddress { octets: [0x02, 0x00, 0x00, 0x00, 0x00, 0x01] }
}

fn ctx(now_millis: i64, xid: u32) -> Context {
    Context {
        now: Instant::from_millis(now_millis),
        hardware_addr: Some(HardwareAddress::Ethernet(eth())),
        rand_xid: xid,
        rand_uuid: vec![0x42; 16],
    }
}

fn prefix_2001_db8() -> PrefixInformation {
    let mut octets = [0u8; 16];
    octets[0] = 0x20;
    octets[1] = 0x01;
    octets[2] = 0x0d;
    octets[3] = 0xb8;
    PrefixInformation { prefix_len: 64, prefix: Ipv6Address::new(octets) }
}

fn leased_addr() -> Ipv6Address {
    let mut octets = [0u8; 16];
    octets[0] = 0x20;
    octets[1] = 0x01;
    octets[2] = 0x0d;
    octets[3] = 0xb8;
    octets[14] = 0x10;
    Ipv6Address::new(octets)
}

fn server_addr() -> Ipv6Address {
    let mut octets = [0u8; 16];
    octets[0] = 0xfe;
    octets[1] = 0x80;
    octets[15] = 0x99;
    Ipv6Address::new(octets)
}

fn dns_addr() -> Ipv6Address {
    let mut octets = [0u8; 16];
    octets[0] = 0x20;
    octets[1] = 0x01;
    octets[15] = 0x53;
    Ipv6Address::new(octets)
}

fn managed_ra() -> Icmpv6Repr {
    Icmpv6Repr::Ndisc(NdiscRepr::RouterAdvert {
        hop_limit: 64,
        flags: RouterFlags { managed: true, other: false },
        router_lifetime: Duration::from_secs(1800),
        lladdr: Some(eth()),
        mtu: Some(1500),
        prefix_info: Some(prefix_2001_db8()),
    })
}

fn ipv6_from(src: Ipv6Address) -> Ipv6Repr {
    Ipv6Repr {
        src_addr: src,
        dst_addr: leased_addr(),
        next_header: IpProtocol::Udp,
        payload_len: 0,
        hop_limit: 64,
    }
}

fn server_udp() -> UdpRepr {
    UdpRepr { src_port: 547, dst_port: 546 }
}

fn reply_bytes(r: &Repr) -> Vec<u8> {
    let len = r.buffer_len();
    let mut p = Packet::new_unchecked(vec![0u8; len]);
    r.emit(&mut p).unwrap();
    p.into_inner()
}

fn server_reply(
    message_type: MessageType,
    xid: u32,
    client_id: Vec<u8>,
    server_id: Vec<u8>,
    ia_na: Option<ReprIaNa>,
    dns: Option<ReprDnsServers>,
) -> Vec<u8> {
    reply_bytes(&Repr {
        message_type,
        transaction_id: xid,
        client_id: Some(client_id),
        server_id: Some(server_id),
        elapsed_time: None,
        request_options: None,
        ia_na,
        ia_ta: None,
        dns_servers: dns,
        additional_options: Vec::new(),
    })
}

fn granted_ia(iaid: u32, t1: u32, t2: u32) -> ReprIaNa {
    ReprIaNa {
        iaid,
        t1,
        t2,
        addresses: vec![ReprIaAddr {
            addr: leased_addr(),
            preferred_lifetime: 604800,
            valid_lifetime: 2592000,
            additional_options: Vec::new(),
        }],
        status_code: None,
        additional_options: Vec::new(),
    }
}

fn dispatch_once(socket: &mut Socket, cx: &Context) -> Option<DispatchEmit> {
    let mut sent: Option<DispatchEmit> = None;
    socket
        .dispatch(cx, |m| {
            sent = Some(m);
            Ok::<(), ()>(())
        })
        .unwrap();
    sent
}

fn poll_time(socket: &Socket, cx: &Context) -> i64 {
    let PollAt::Time(t) = socket.poll_at(cx);
    t.millis
}

#[test]
fn cold_start_to_configured() {
    let mut socket = Socket::new();
    // A fresh socket reports deconfiguration once.
    assert_eq!(socket.poll(), Some(SocketEvent::Deconfigured));
    assert_eq!(socket.poll(), None);

    // t = 0: managed RA arrives; the engine moves to DHCP solicitation
    // and wants to run at once.
    let cx0 = ctx(0, 0x00123456);
    assert_eq!(poll_time(&socket, &cx0), 0);
    socket.process_icmpv6(&cx0, &ipv6_from(server_addr()), &managed_ra(), &[]);
    assert!(matches!(socket.state, ClientState::DhcpSolicit(_)));
    assert_eq!(poll_time(&socket, &cx0), 0);

    // Dispatch at t = 0 emits a Solicit to ff02::1:2, ports 546 -> 547.
    let sent = dispatch_once(&mut socket, &cx0).expect("solicit emitted");
    match sent {
        DispatchEmit::Dhcp(ip, udp, rep) => {
            assert!(ip.src_addr.is_unspecified());
            assert_eq!(
                ip.dst_addr.octets,
                [0xff, 2, 0, 0, 0, 0, 0, 0, 0, 0, 0, 0, 0, 1, 0, 2]
            );
            assert_eq!(udp.src_port, 546);
            assert_eq!(udp.dst_port, 547);
            assert_eq!(rep.message_type, MessageType::Solicit);
            assert_eq!(rep.transaction_id, 0x00123456);
            assert_eq!(rep.client_id, Some(eth().octets.to_vec()));
            assert_eq!(rep.request_options, Some(vec![23]));
        },
        DispatchEmit::Icmp(..) => panic!("expected a DHCPv6 message"),
    }
    assert_eq!(socket.transaction_id, 0x00123456);

    // t = 10 ms: a matching Advertise arrives; the engine latches the
    // server and starts requesting.
    let cx1 = ctx(10, 0x00222222);
    let advertise = server_reply(
        MessageType::Advertise,
        0x00123456,
        vec![0x42; 16],
        vec![0xAA, 0x01],
        Some(granted_ia(0x1234, 0, 0)),
        None,
    );
    socket.process_udp(&cx1, &ipv6_from(server_addr()), &server_udp(), &advertise);
    match &socket.state {
        ClientState::DhcpRequesting(st) => {
            assert_eq!(st.retry, 0);
            assert_eq!(st.retry_at.millis, 10);
            assert_eq!(st.iaid, 0x1234);
            assert_eq!(st.server.identifier, vec![0xAA, 0x01]);
            assert_eq!(st.server.address.octets, server_addr().octets);
            assert_eq!(st.requested_ip.octets, leased_addr().octets);
        },
        _ => panic!("expected requesting state"),
    }

    // Dispatch emits a Request carrying the latched server id and the
    // requested address under IA_NA with zeroed T1/T2.
    let sent = dispatch_once(&mut socket, &cx1).expect("request emitted");
    match sent {
        DispatchEmit::Dhcp(_, _, rep) => {
            assert_eq!(rep.message_type, MessageType::Request);
            assert_eq!(rep.server_id, Some(vec![0xAA, 0x01]));
            let ia = rep.ia_na.unwrap();
            assert_eq!(ia.iaid, 0x1234);
            assert_eq!(ia.t1, 0);
            assert_eq!(ia.t2, 0);
            assert_eq!(ia.addresses[0].addr.octets, leased_addr().octets);
            assert_eq!(ia.addresses[0].preferred_lifetime, 604800);
            assert_eq!(ia.addresses[0].valid_lifetime, 2592000);
        },
        DispatchEmit::Icmp(..) => panic!("expected a DHCPv6 message"),
    }
    assert_eq!(socket.transaction_id, 0x00222222);

    // The server confirms with T1 = 3600 s and T2 = 5760 s.
    let cx2 = ctx(20, 0x00333333);
    let confirm = server_reply(
        MessageType::Confirm,
        0x00222222,
        vec![0x42; 16],
        vec![0xAA, 0x01],
        Some(granted_ia(0x1234, 3600, 5760)),
        Some(ReprDnsServers { addresses: vec![dns_addr()] }),
    );
    socket.process_udp(&cx2, &ipv6_from(server_addr()), &server_udp(), &confirm);
    match &socket.state {
        ClientState::DhcpRenewing(st) => {
            assert_eq!(st.renew_at.millis, 20 + 5760 * 1000);
            assert_eq!(st.expires_at.millis, 20 + 3600 * 1000);
            assert_eq!(st.config.address.address().octets, leased_addr().octets);
            assert_eq!(st.config.address.prefix_len, 64);
            assert_eq!(st.config.router.unwrap().octets, server_addr().octets);
            assert_eq!(st.config.dns_servers.len(), 1);
            assert_eq!(st.config.dns_servers[0].octets, dns_addr().octets);
        },
        _ => panic!("expected renewing state"),
    }
    // The configuration event carries the lease.
    match socket.poll() {
        Some(SocketEvent::Configured(c)) => {
            assert_eq!(c.address.address().octets, leased_addr().octets);
            assert_eq!(c.address.prefix_len, 64);
            assert_eq!(c.server.identifier, vec![0xAA, 0x01]);
            assert_eq!(c.router.unwrap().octets, server_addr().octets);
            assert_eq!(c.dns_servers.len(), 1);
        },
        other => panic!("expected a configured event, got {:?}", other),
    }
    assert_eq!(socket.poll(), None);
    // The next poll instant is the expiry (it comes before the renewal).
    assert_eq!(poll_time(&socket, &cx2), 20 + 3600 * 1000);
}

#[test]
fn max_lease_duration_caps_expiry() {
    let mut socket = Socket::new();
    socket.set_max_lease_duration(Some(Duration::from_secs(60)));
    let cx0 = ctx(0, 0x00123456);
    socket.process_icmpv6(&cx0, &ipv6_from(server_addr()), &managed_ra(), &[]);
    dispatch_once(&mut socket, &cx0);
    let advertise = server_reply(
        MessageType::Advertise,
        0x00123456,
        vec![0x42; 16],
        vec![0xAA],
        Some(granted_ia(1, 0, 0)),
        None,
    );
    socket.process_udp(&cx0, &ipv6_from(server_addr()), &server_udp(), &advertise);
    dispatch_once(&mut socket, &cx0);
    let confirm = server_reply(
        MessageType::Confirm,
        0x00123456,
        vec![0x42; 16],
        vec![0xAA],
        Some(granted_ia(1, 3600, 5760)),
        None,
    );
    socket.process_udp(&cx0, &ipv6_from(server_addr()), &server_udp(), &confirm);
    match &socket.state {
        ClientState::DhcpRenewing(st) => {
            assert_eq!(st.expires_at.millis, 60 * 1000);
            assert_eq!(st.renew_at.millis, 5760 * 1000);
        },
        _ => panic!("expected renewing state"),
    }
}

fn configured_socket() -> Socket {
    let mut socket = Socket::new();
    let cx0 = ctx(0, 0x00123456);
    socket.process_icmpv6(&cx0, &ipv6_from(server_addr()), &managed_ra(), &[]);
    dispatch_once(&mut socket, &cx0);
    let advertise = server_reply(
        MessageType::Advertise,
        0x00123456,
        vec![0x42; 16],
        vec![0xAA],
        Some(granted_ia(1, 0, 0)),
        None,
    );
    socket.process_udp(&cx0, &ipv6_from(server_addr()), &server_udp(), &advertise);
    dispatch_once(&mut socket, &cx0);
    let confirm = server_reply(
        MessageType::Confirm,
        0x00123456,
        vec![0x42; 16],
        vec![0xAA],
        Some(granted_ia(1, 3600, 5760)),
        None,
    );
    socket.process_udp(&cx0, &ipv6_from(server_addr()), &server_udp(), &confirm);
    assert!(matches!(socket.state, ClientState::DhcpRenewing(_)));
    socket
}

#[test]
fn lease_expiry_deconfigures() {
    let mut socket = configured_socket();
    assert!(socket.poll().is_some());
    assert_eq!(socket.poll(), None);
    // A dispatch at (or past) the expiry resets to router solicitation
    // and flags the change; nothing is emitted.
    let cx = ctx(3600 * 1000, 0x00777777);
    let sent = dispatch_once(&mut socket, &cx);
    assert!(sent.is_none());
    assert!(matches!(socket.state, ClientState::RouterSolicit(_)));
    assert_eq!(socket.poll(), Some(SocketEvent::Deconfigured));
}

#[test]
fn renew_emitted_after_renew_timer() {
    let mut socket = configured_socket();
    socket.poll();
    // Shorten the lease so the renew timer comes first.
    if let ClientState::DhcpRenewing(st) = &mut socket.state {
        st.renew_at = Instant::from_millis(100);
        st.expires_at = Instant::from_millis(1_000_000);
    }
    let cx = ctx(100, 0x00555555);
    let sent = dispatch_once(&mut socket, &cx).expect("renew emitted");
    match sent {
        DispatchEmit::Dhcp(ip, _, rep) => {
            assert_eq!(rep.message_type, MessageType::Renew);
            assert_eq!(ip.src_addr.octets, leased_addr().octets);
            assert_eq!(ip.dst_addr.octets, server_addr().octets);
            assert_eq!(rep.server_id, Some(vec![0xAA]));
            assert_eq!(rep.ia_na.unwrap().addresses[0].addr.octets, leased_addr().octets);
        },
        DispatchEmit::Icmp(..) => panic!("expected a DHCPv6 message"),
    }
    // The retransmission waits at least the floor, at most half the
    // remaining lease: here half of (1_000_000 - 100) ms.
    if let ClientState::DhcpRenewing(st) = &socket.state {
        assert_eq!(st.renew_at.millis, 100 + (1_000_000 - 100) / 2);
    } else {
        panic!("expected renewing state");
    }
}

#[test]
fn decline_resets_when_naks_heeded() {
    let mut socket = Socket::new();
    let cx0 = ctx(0, 0x00123456);
    socket.process_icmpv6(&cx0, &ipv6_from(server_addr()), &managed_ra(), &[]);
    dispatch_once(&mut socket, &cx0);
    let advertise = server_reply(
        MessageType::Advertise,
        0x00123456,
        vec![0x42; 16],
        vec![0xAA],
        Some(granted_ia(1, 0, 0)),
        None,
    );
    socket.process_udp(&cx0, &ipv6_from(server_addr()), &server_udp(), &advertise);
    assert!(matches!(socket.state, ClientState::DhcpRequesting(_)));
    // A Decline with the matching transaction id abandons the attempt.
    let decline = server_reply(
        MessageType::Decline,
        0x00123456,
        vec![0x42; 16],
        vec![0xAA],
        None,
        None,
    );
    socket.process_udp(&cx0, &ipv6_from(server_addr()), &server_udp(), &decline);
    assert!(matches!(socket.state, ClientState::RouterSolicit(_)));
    assert_eq!(socket.poll(), Some(SocketEvent::Deconfigured));
}

#[test]
fn decline_ignored_when_naks_ignored() {
    let mut socket = Socket::new();
    socket.set_ignore_naks(true);
    assert!(socket.ignore_naks());
    let cx0 = ctx(0, 0x00123456);
    socket.process_icmpv6(&cx0, &ipv6_from(server_addr()), &managed_ra(), &[]);
    dispatch_once(&mut socket, &cx0);
    let advertise = server_reply(
        MessageType::Advertise,
        0x00123456,
        vec![0x42; 16],
        vec![0xAA],
        Some(granted_ia(1, 0, 0)),
        None,
    );
    socket.process_udp(&cx0, &ipv6_from(server_addr()), &server_udp(), &advertise);
    socket.poll();
    let before = poll_time(&socket, &cx0);
    let decline = server_reply(
        MessageType::Decline,
        0x00123456,
        vec![0x42; 16],
        vec![0xAA],
        None,
        None,
    );
    socket.process_udp(&cx0, &ipv6_from(server_addr()), &server_udp(), &decline);
    // State unchanged, no event emitted.
    assert!(matches!(socket.state, ClientState::DhcpRequesting(_)));
    assert_eq!(poll_time(&socket, &cx0), before);
    assert_eq!(socket.poll(), None);
}

#[test]
fn mismatched_transaction_id_is_dropped() {
    let mut socket = Socket::new();
    let cx0 = ctx(0, 0x00123456);
    socket.process_icmpv6(&cx0, &ipv6_from(server_addr()), &managed_ra(), &[]);
    dispatch_once(&mut socket, &cx0);
    let before = poll_time(&socket, &cx0);
    // An Advertise with a different transaction id is ignored: state and
    // retry schedule unchanged.
    let advertise = server_reply(
        MessageType::Advertise,
        0x00999999,
        vec![0x42; 16],
        vec![0xAA],
        Some(granted_ia(1, 0, 0)),
        None,
    );
    socket.process_udp(&cx0, &ipv6_from(server_addr()), &server_udp(), &advertise);
    assert!(matches!(socket.state, ClientState::DhcpSolicit(_)));
    assert_eq!(poll_time(&socket, &cx0), before);
}

#[test]
fn advertise_with_wrong_client_id_is_dropped() {
    let mut socket = Socket::new();
    let cx0 = ctx(0, 0x00123456);
    socket.process_icmpv6(&cx0, &ipv6_from(server_addr()), &managed_ra(), &[]);
    dispatch_once(&mut socket, &cx0);
    let advertise = server_reply(
        MessageType::Advertise,
        0x00123456,
        vec![0x43; 16],
        vec![0xAA],
        Some(granted_ia(1, 0, 0)),
        None,
    );
    socket.process_udp(&cx0, &ipv6_from(server_addr()), &server_udp(), &advertise);
    assert!(matches!(socket.state, ClientState::DhcpSolicit(_)));
}

#[test]
fn failing_status_code_rejected() {
    let mut socket = Socket::new();
    let cx0 = ctx(0, 0x00123456);
    socket.process_icmpv6(&cx0, &ipv6_from(server_addr()), &managed_ra(), &[]);
    dispatch_once(&mut socket, &cx0);
    let advertise = server_reply(
        MessageType::Advertise,
        0x00123456,
        vec![0x42; 16],
        vec![0xAA],
        Some(granted_ia(1, 0, 0)),
        None,
    );
    socket.process_udp(&cx0, &ipv6_from(server_addr()), &server_udp(), &advertise);
    dispatch_once(&mut socket, &cx0);
    let mut ia = granted_ia(1, 3600, 5760);
    ia.status_code = Some(ReprStatusCode {
        status_code: StatusCode::NoAddrsAvail,
        status_message: Vec::new(),
    });
    let confirm = server_reply(
        MessageType::Confirm,
        0x00123456,
        vec![0x42; 16],
        vec![0xAA],
        Some(ia),
        None,
    );
    socket.process_udp(&cx0, &ipv6_from(server_addr()), &server_udp(), &confirm);
    // The reply is dropped; the engine keeps requesting.
    assert!(matches!(socket.state, ClientState::DhcpRequesting(_)));
}

#[test]
fn state_linear_under_unrelated_icmpv6() {
    let mut socket = Socket::new();
    let cx0 = ctx(0, 0x00123456);
    // Non-RA packets, an unmanaged RA, and RAs missing an option all
    // leave the state untouched, however many arrive.
    let unmanaged = Icmpv6Repr::Ndisc(NdiscRepr::RouterAdvert {
        hop_limit: 64,
        flags: RouterFlags { managed: false, other: true },
        router_lifetime: Duration::from_secs(1800),
        lladdr: None,
        mtu: Some(1500),
        prefix_info: Some(prefix_2001_db8()),
    });
    let no_mtu = Icmpv6Repr::Ndisc(NdiscRepr::RouterAdvert {
        hop_limit: 64,
        flags: RouterFlags { managed: true, other: false },
        router_lifetime: Duration::from_secs(1800),
        lladdr: None,
        mtu: None,
        prefix_info: Some(prefix_2001_db8()),
    });
    let no_prefix = Icmpv6Repr::Ndisc(NdiscRepr::RouterAdvert {
        hop_limit: 64,
        flags: RouterFlags { managed: true, other: false },
        router_lifetime: Duration::from_secs(1800),
        lladdr: None,
        mtu: Some(1500),
        prefix_info: None,
    });
    let rs = Icmpv6Repr::Ndisc(NdiscRepr::RouterSolicit { lladdr: None });
    for _ in 0..3 {
        socket.process_icmpv6(&cx0, &ipv6_from(server_addr()), &Icmpv6Repr::Other, &[]);
        socket.process_icmpv6(&cx0, &ipv6_from(server_addr()), &unmanaged, &[]);
        socket.process_icmpv6(&cx0, &ipv6_from(server_addr()), &no_mtu, &[]);
        socket.process_icmpv6(&cx0, &ipv6_from(server_addr()), &no_prefix, &[]);
        socket.process_icmpv6(&cx0, &ipv6_from(server_addr()), &rs, &[]);
    }
    match &socket.state {
        ClientState::RouterSolicit(st) => {
            assert_eq!(st.retry, 0);
            assert_eq!(st.retry_at.millis, 0);
        },
        _ => panic!("expected router solicitation"),
    }
    // And the only thing it wants to emit is a router solicitation.
    let sent = dispatch_once(&mut socket, &cx0).expect("router solicit emitted");
    match sent {
        DispatchEmit::Icmp(ip, icmp) => {
            assert!(ip.src_addr.is_unspecified());
            assert_eq!(
                ip.dst_addr.octets,
                [0xff, 2, 0, 0, 0, 0, 0, 0, 0, 0, 0, 0, 0, 0, 0, 2]
            );
            assert_eq!(ip.payload_len, 16);
            assert!(matches!(
                icmp,
                Icmpv6Repr::Ndisc(NdiscRepr::RouterSolicit { lladdr: Some(_) })
            ));
        },
        DispatchEmit::Dhcp(..) => panic!("expected an ICMPv6 message"),
    }
}

#[test]
fn backoff_doubles_every_two_retries() {
    let mut socket = Socket::new();
    // With no inbound response, the k-th dispatch schedules the next at
    // t0 plus the sum of 2 s << (i / 2).
    let mut now: i64 = 0;
    let mut expected: i64 = 0;
    for i in 0..6u32 {
        let cx = ctx(now, 0x00123456);
        assert_eq!(poll_time(&socket, &cx), expected);
        let sent = dispatch_once(&mut socket, &cx);
        assert!(sent.is_some());
        expected = now + (2000i64 << (i / 2));
        now = expected;
        match &socket.state {
            ClientState::RouterSolicit(st) => {
                assert_eq!(st.retry, (i + 1) as u16);
                assert_eq!(st.retry_at.millis, expected);
            },
            _ => panic!("expected router solicitation"),
        }
    }
}

#[test]
fn dispatch_before_timer_is_a_no_op() {
    let mut socket = Socket::new();
    let cx0 = ctx(0, 0x00123456);
    dispatch_once(&mut socket, &cx0);
    let xid_after_first = socket.transaction_id;
    // The timer is now in the future; an early dispatch emits nothing
    // and changes nothing.
    let cx1 = ctx(1, 0x00999999);
    let sent = dispatch_once(&mut socket, &cx1);
    assert!(sent.is_none());
    assert_eq!(socket.transaction_id, xid_after_first);
}

#[test]
fn failed_emit_keeps_transaction_id() {
    let mut socket = Socket::new();
    let cx0 = ctx(0, 0x00123456);
    let before = socket.transaction_id;
    let r: Result<(), i32> = socket.dispatch(&cx0, |_m| Err(17));
    assert_eq!(r, Err(17));
    // The send failed, so the engine still matches replies to the
    // previous transaction, and the retry schedule did not advance.
    assert_eq!(socket.transaction_id, before);
    assert_eq!(poll_time(&socket, &cx0), 0);
}

#[test]
fn request_retries_exhaustion_restarts_discovery() {
    let mut socket = Socket::new();
    let cx0 = ctx(0, 0x00123456);
    socket.process_icmpv6(&cx0, &ipv6_from(server_addr()), &managed_ra(), &[]);
    dispatch_once(&mut socket, &cx0);
    let advertise = server_reply(
        MessageType::Advertise,
        0x00123456,
        vec![0x42; 16],
        vec![0xAA],
        Some(granted_ia(1, 0, 0)),
        None,
    );
    socket.process_udp(&cx0, &ipv6_from(server_addr()), &server_udp(), &advertise);
    // Five requests go unanswered (the default retry budget).
    let mut now: i64 = 0;
    for _ in 0..5 {
        let cx = ctx(now, 0x00123456);
        now = poll_time(&socket, &cx).max(now);
        let cx = ctx(now, 0x00123456);
        assert!(dispatch_once(&mut socket, &cx).is_some());
        if let ClientState::DhcpRequesting(st) = &socket.state {
            now = st.retry_at.millis;
        }
    }
    // The sixth dispatch gives up and restarts discovery.
    let cx = ctx(now, 0x00123456);
    assert!(dispatch_once(&mut socket, &cx).is_none());
    assert!(matches!(socket.state, ClientState::RouterSolicit(_)));
}

#[test]
fn reset_restarts_discovery_and_reports_deconfiguration() {
    let mut socket = configured_socket();
    socket.poll();
    socket.reset();
    assert!(matches!(socket.state, ClientState::RouterSolicit(_)));
    assert_eq!(socket.poll(), Some(SocketEvent::Deconfigured));
    // Resetting outside an active lease reports nothing new.
    socket.reset();
    assert_eq!(socket.poll(), None);
}

#[test]
fn renewal_reply_updates_timers_and_reports_once() {
    let mut socket = configured_socket();
    socket.poll();
    // A renewal succeeds: same lease, new timers.
    let cx = ctx(1000, 0x00123456);
    let confirm = server_reply(
        MessageType::Confirm,
        0x00123456,
        vec![0x42; 16],
        vec![0xAA],
        Some(granted_ia(1, 7200, 9000)),
        None,
    );
    socket.process_udp(&cx, &ipv6_from(server_addr()), &server_udp(), &confirm);
    match &socket.state {
        ClientState::DhcpRenewing(st) => {
            assert_eq!(st.expires_at.millis, 1000 + 7200 * 1000);
            assert_eq!(st.renew_at.millis, 1000 + 9000 * 1000);
        },
        _ => panic!("expected renewing state"),
    }
    // The unchanged configuration produces no event (no receive buffer
    // is registered and nothing differs).
    assert_eq!(socket.poll(), None);
}

#[test]
fn non_unicast_dns_servers_filtered() {
    let mut socket = Socket::new();
    let cx0 = ctx(0, 0x00123456);
    socket.process_icmpv6(&cx0, &ipv6_from(server_addr()), &managed_ra(), &[]);
    dispatch_once(&mut socket, &cx0);
    let advertise = server_reply(
        MessageType::Advertise,
        0x00123456,
        vec![0x42; 16],
        vec![0xAA],
        Some(granted_ia(1, 0, 0)),
        None,
    );
    socket.process_udp(&cx0, &ipv6_from(server_addr()), &server_udp(), &advertise);
    dispatch_once(&mut socket, &cx0);
    let mut mc = [0u8; 16];
    mc[0] = 0xff;
    mc[15] = 1;
    let confirm = server_reply(
        MessageType::Confirm,
        0x00123456,
        vec![0x42; 16],
        vec![0xAA],
        Some(granted_ia(1, 3600, 5760)),
        Some(ReprDnsServers {
            addresses: vec![Ipv6Address::new(mc), Ipv6Address::unspecified(), dns_addr()],
        }),
    );
    socket.process_udp(&cx0, &ipv6_from(server_addr()), &server_udp(), &confirm);
    match &socket.state {
        ClientState::DhcpRenewing(st) => {
            assert_eq!(st.config.dns_servers.len(), 1);
            assert_eq!(st.config.dns_servers[0].octets, dns_addr().octets);
        },
        _ => panic!("expected renewing state"),
    }
}

#[test]
fn receive_buffer_captures_payload() {
    let mut socket = Socket::new();
    socket.set_receive_packet_buffer(vec![0u8; 128]);
    let cx0 = ctx(0, 0x00123456);
    socket.process_icmpv6(&cx0, &ipv6_from(server_addr()), &managed_ra(), &[]);
    dispatch_once(&mut socket, &cx0);
    let advertise = server_reply(
        MessageType::Advertise,
        0x00123456,
        vec![0x42; 16],
        vec![0xAA],
        Some(granted_ia(1, 0, 0)),
        None,
    );
    socket.process_udp(&cx0, &ipv6_from(server_addr()), &server_udp(), &advertise);
    let buf = socket.receive_packet_buffer.as_ref().unwrap();
    assert_eq!(&buf[..advertise.len()], &advertise[..]);
}

#[test]
fn config_comparison_and_copies() {
    let socket = configured_socket();
    match &socket.state {
        ClientState::DhcpRenewing(st) => {
            let copy = st.config.duplicate();
            assert!(copy.same_as(&st.config));
            let mut other = st.config.duplicate();
            other.address = dhcpv6_client::ip::Ipv6Cidr::new(dns_addr(), 48);
            assert!(!other.same_as(&st.config));
        },
        _ => panic!("expected renewing state"),
    }
}

#[test]
fn missing_server_id_is_dropped() {
    let mut socket = Socket::new();
    let cx0 = ctx(0, 0x00123456);
    socket.process_icmpv6(&cx0, &ipv6_from(server_addr()), &managed_ra(), &[]);
    dispatch_once(&mut socket, &cx0);
    // An Advertise without a server identifier never reaches the state
    // machine.
    let no_server = reply_bytes(&Repr {
        message_type: MessageType::Advertise,
        transaction_id: 0x00123456,
        client_id: Some(vec![0x42; 16]),
        server_id: None,
        elapsed_time: None,
        request_options: None,
        ia_na: Some(granted_ia(1, 0, 0)),
        ia_ta: None,
        dns_servers: None,
        additional_options: Vec::new(),
    });
    socket.process_udp(&cx0, &ipv6_from(server_addr()), &server_udp(), &no_server);
    assert!(matches!(socket.state, ClientState::DhcpSolicit(_)));
}
