//! The DHCPv6 client engine: a four-state protocol machine driven by an
//! external packet scheduler.
//!
//! The socket is a passive object.  The host feeds it inbound ICMPv6 and
//! UDP packets ([`Socket::process_icmpv6`], [`Socket::process_udp`]),
//! asks when it next wants to run ([`Socket::poll_at`]), tells it to
//! produce outbound packets ([`Socket::dispatch`]), and reads
//! configuration changes ([`Socket::poll`]).  Time and randomness come in
//! through a [`Context`] snapshot taken by the caller, so every
//! transition is a function of its arguments.

use vstd::prelude::*;

use crate::ip::{Ipv6Address, Ipv6Cidr};
use crate::time::{spec_dur_shl, spec_instant_plus, Duration, Instant};
use crate::waker::WakerRegistration;
use crate::wire::{
    IaAddrModel, IaNaModel, MessageType, Packet, Repr, ReprDnsServers, ReprIaAddr, ReprIaNa,
    ReprModel, StatusCode, CLIENT_PORT, MAX_DNS_ADDRESSES, OPT_DNS_SERVERS, SERVER_PORT,
};
use crate::wire::Dhcpv6Option;

verus! {

/// Cap on the length of a client or server DUID kept by the engine.
pub const MAX_IDENTIFIER_LEN: usize = 128;

/// When a socket next wants to be polled.
#[derive(Clone, Copy, Debug, PartialEq, Eq, Structural)]
pub enum PollAt {
    Time(Instant),
}

/// A 6-octet Ethernet (MAC) address.
#[derive(Clone, Copy, Debug, PartialEq, Eq)]
pub struct EthernetAddress {
    pub octets: [u8; 6],
}

impl View for EthernetAddress {
    type V = Seq<u8>;

    open spec fn view(&self) -> Seq<u8> {
        self.octets@
    }
}

/// The link-layer address of the interface the socket runs on.
#[derive(Clone, Copy, Debug, PartialEq, Eq)]
pub enum HardwareAddress {
    Ethernet(EthernetAddress),
}

/// A snapshot of the host services the engine consumes: the monotonic
/// clock, the interface's hardware address, and fresh randomness.  The
/// caller takes one before each call, which keeps the engine itself a
/// pure function of its inputs.
#[derive(Clone, Debug)]
pub struct Context {
    /// The current monotonic time.
    pub now: Instant,
    /// The interface's hardware address; the engine requires Ethernet.
    pub hardware_addr: Option<HardwareAddress>,
    /// A fresh random 32-bit value, used for the next transaction id.
    pub rand_xid: u32,
    /// A fresh random 16-byte identifier, used as the client DUID.
    pub rand_uuid: Vec<u8>,
}

impl Context {
    /// The engine may be driven only with a valid clock, an Ethernet
    /// hardware address, and a 16-byte random identifier.
    pub open spec fn wf(self) -> bool {
        &&& self.now.wf()
        &&& self.hardware_addr is Some
        &&& self.rand_uuid@.len() == 16
    }

    /// The Ethernet address of the interface.
    pub fn ethernet_addr(&self) -> (r: EthernetAddress)
        requires
            self.wf(),
        ensures
            Some(HardwareAddress::Ethernet(r)) == self.hardware_addr,
    {
        match &self.hardware_addr {
            Some(HardwareAddress::Ethernet(e)) => *e,
            None => {
                proof {
                    assert(false);
                }
                EthernetAddress { octets: [0u8; 6] }
            },
        }
    }
}

/// Router Advertisement flags consumed by the engine.
#[derive(Clone, Copy, Debug, PartialEq, Eq, Structural)]
pub struct RouterFlags {
    /// The Managed bit: hosts should use stateful DHCPv6.
    pub managed: bool,
    /// The Other-configuration bit.
    pub other: bool,
}

/// The prefix information option of a Router Advertisement.  The engine
/// consumes only `prefix_len`.
#[derive(Clone, Copy, Debug, PartialEq, Eq)]
pub struct PrefixInformation {
    pub prefix_len: u8,
    pub prefix: Ipv6Address,
}

/// The neighbor-discovery messages the engine sees or sends.
#[derive(Clone, Debug)]
pub enum NdiscRepr {
    RouterSolicit { lladdr: Option<EthernetAddress> },
    RouterAdvert {
        hop_limit: u8,
        flags: RouterFlags,
        router_lifetime: Duration,
        lladdr: Option<EthernetAddress>,
        mtu: Option<u32>,
        prefix_info: Option<PrefixInformation>,
    },
}

/// An ICMPv6 message: neighbor discovery, or anything else (which the
/// engine ignores).
#[derive(Clone, Debug)]
pub enum Icmpv6Repr {
    Ndisc(NdiscRepr),
    Other,
}

/// The serialized length of an ICMPv6 message as this engine frames it.
pub open spec fn spec_icmpv6_buffer_len(r: Icmpv6Repr) -> int {
    match r {
        Icmpv6Repr::Ndisc(NdiscRepr::RouterSolicit { lladdr }) => 8 + if lladdr is Some {
            8int
        } else {
            0int
        },
        Icmpv6Repr::Ndisc(NdiscRepr::RouterAdvert { lladdr, mtu, prefix_info, .. }) => 16 + (
        if lladdr is Some {
            8int
        } else {
            0int
        }) + (if mtu is Some {
            8int
        } else {
            0int
        }) + (if prefix_info is Some {
            32int
        } else {
            0int
        }),
        Icmpv6Repr::Other => 0,
    }
}

impl Icmpv6Repr {
    /// The serialized length of this message: the fixed header plus one
    /// block per present option.
    pub fn buffer_len(&self) -> (r: usize)
        ensures
            r == spec_icmpv6_buffer_len(*self),
    {
        match self {
            Icmpv6Repr::Ndisc(NdiscRepr::RouterSolicit { lladdr }) => {
                8 + if lladdr.is_some() {
                    8
                } else {
                    0
                }
            },
            Icmpv6Repr::Ndisc(NdiscRepr::RouterAdvert { lladdr, mtu, prefix_info, .. }) => {
                16 + (if lladdr.is_some() {
                    8
                } else {
                    0
                }) + (if mtu.is_some() {
                    8
                } else {
                    0
                }) + (if prefix_info.is_some() {
                    32
                } else {
                    0
                })
            },
            Icmpv6Repr::Other => 0,
        }
    }
}

/// The IPv6 payload protocols this engine emits.
#[derive(Clone, Copy, Debug, PartialEq, Eq, Structural)]
pub enum IpProtocol {
    Udp,
    Icmpv6,
}

/// An IPv6 header, as the interface driver frames it.
#[derive(Clone, Copy, Debug, PartialEq, Eq)]
pub struct Ipv6Repr {
    pub src_addr: Ipv6Address,
    pub dst_addr: Ipv6Address,
    pub next_header: IpProtocol,
    pub payload_len: usize,
    pub hop_limit: u8,
}

/// A UDP header: the two ports.
#[derive(Clone, Copy, Debug, PartialEq, Eq, Structural)]
pub struct UdpRepr {
    pub src_port: u16,
    pub dst_port: u16,
}

impl UdpRepr {
    /// The length of a UDP header.
    pub fn header_len(&self) -> (r: usize)
        ensures
            r == 8,
    {
        8
    }
}

/// How to reach the DHCPv6 server that granted the lease.
#[derive(Clone, Debug, PartialEq, Eq)]
pub struct ServerInfo {
    /// IP address to use as destination in outgoing packets.
    pub address: Ipv6Address,
    /// Server identifier (DUID) to use in outgoing packets.  Usually
    /// equal to `address`, but may differ behind DHCP relays.
    pub identifier: Vec<u8>,
}

impl ServerInfo {
    /// The identifier is bounded by [`MAX_IDENTIFIER_LEN`].
    pub open spec fn wf(self) -> bool {
        self.identifier@.len() <= MAX_IDENTIFIER_LEN
    }

    /// An owned copy of this server description.
    pub fn duplicate(&self) -> (r: ServerInfo)
        ensures
            r.address == self.address,
            r.identifier@ == self.identifier@,
    {
        ServerInfo { address: self.address, identifier: crate::bytes::clone_bytes(&self.identifier) }
    }

    /// Whether two server descriptions carry the same address and
    /// identifier bytes.
    pub fn same_as(&self, other: &ServerInfo) -> (r: bool)
        ensures
            r == (self.address@ == other.address@ && self.identifier@ == other.identifier@),
    {
        self.address.same_as(&other.address) && bytes_eq(&self.identifier, &other.identifier)
    }
}

/// Bytewise equality of two byte vectors.
pub fn bytes_eq(a: &Vec<u8>, b: &Vec<u8>) -> (r: bool)
    ensures
        r == (a@ == b@),
{
    if a.len() != b.len() {
        assert(a@ != b@);
        return false;
    }
    let mut i: usize = 0;
    while i < a.len()
        invariant
            i <= a@.len(),
            a@.len() == b@.len(),
            forall|j: int| 0 <= j < i ==> a@[j] == b@[j],
        decreases a@.len() - i,
    {
        if a[i] != b[i] {
            assert(a@[i as int] != b@[i as int]);
            return false;
        }
        i = i + 1;
    }
    assert(a@ =~= b@);
    true
}

/// Bytewise equality of a slice and a byte vector.
pub fn slice_eq_vec(a: &[u8], b: &Vec<u8>) -> (r: bool)
    ensures
        r == (a@ == b@),
{
    if a.len() != b.len() {
        assert(a@ != b@);
        return false;
    }
    let mut i: usize = 0;
    while i < a.len()
        invariant
            i <= a@.len(),
            a@.len() == b@.len(),
            forall|j: int| 0 <= j < i ==> a@[j] == b@[j],
        decreases a@.len() - i,
    {
        if a[i] != b[i] {
            assert(a@[i as int] != b@[i as int]);
            return false;
        }
        i = i + 1;
    }
    assert(a@ =~= b@);
    true
}

/// IPv6 configuration data provided by the DHCPv6 server.
#[derive(Clone, Debug, PartialEq, Eq)]
pub struct Config {
    /// How to reach the server that granted the lease.
    pub server: ServerInfo,
    /// The leased address with the advertised on-link prefix length.
    pub address: Ipv6Cidr,
    /// Default gateway, when known.  Does not necessarily match the
    /// server's address.
    pub router: Option<Ipv6Address>,
    /// Advertised DNS resolvers, at most [`MAX_DNS_ADDRESSES`].
    pub dns_servers: Vec<Ipv6Address>,
    /// The last received raw DHCPv6 packet, when a receive buffer is
    /// registered.
    pub packet: Option<Packet>,
}

impl Config {
    /// Bounded fields.
    pub open spec fn wf(self) -> bool {
        &&& self.server.wf()
        &&& self.dns_servers@.len() <= MAX_DNS_ADDRESSES
    }

    /// Whether two configurations carry the same values, the stored
    /// packet included.
    pub fn same_as(&self, other: &Config) -> (r: bool)
        ensures
            r == (self.server.address@ == other.server.address@ && self.server.identifier@
                == other.server.identifier@ && self.address.address@ == other.address.address@
                && self.address.prefix_len == other.address.prefix_len && spec_opt_addr(self.router)
                == spec_opt_addr(other.router) && crate::wire::view_addrs16(self.dns_servers@)
                == crate::wire::view_addrs16(other.dns_servers@) && spec_opt_packet(self.packet)
                == spec_opt_packet(other.packet)),
    {
        let routers_match = match (&self.router, &other.router) {
            (Some(a), Some(b)) => a.same_as(b),
            (None, None) => true,
            _ => false,
        };
        let packets_match = match (&self.packet, &other.packet) {
            (Some(a), Some(b)) => bytes_eq(&a.buffer, &b.buffer),
            (None, None) => true,
            _ => false,
        };
        let r = self.server.same_as(&other.server) && self.address.address.same_as(
            &other.address.address,
        ) && self.address.prefix_len == other.address.prefix_len && routers_match && packets_match
            && addrs_eq(&self.dns_servers, &other.dns_servers);
        r
    }

    /// An owned copy of this configuration.
    pub fn duplicate(&self) -> (r: Config)
        ensures
            r.server.address == self.server.address,
            r.server.identifier@ == self.server.identifier@,
            r.address == self.address,
            r.router == self.router,
            crate::wire::view_addrs16(r.dns_servers@) == crate::wire::view_addrs16(
                self.dns_servers@,
            ),
            r.dns_servers@.len() == self.dns_servers@.len(),
            spec_opt_packet(r.packet) == spec_opt_packet(self.packet),
            self.wf() ==> r.wf(),
    {
        let packet = match &self.packet {
            Some(p) => Some(Packet { buffer: crate::bytes::clone_bytes(&p.buffer) }),
            None => None,
        };
        let mut dns: Vec<Ipv6Address> = Vec::new();
        let mut i: usize = 0;
        while i < self.dns_servers.len()
            invariant
                i <= self.dns_servers@.len(),
                dns@.len() == i,
                forall|j: int| 0 <= j < i ==> dns@[j] == self.dns_servers@[j],
            decreases self.dns_servers@.len() - i,
        {
            dns.push(self.dns_servers[i]);
            i = i + 1;
        }
        proof {
            assert(dns@ =~= self.dns_servers@);
            assert(crate::wire::view_addrs16(dns@) =~= crate::wire::view_addrs16(
                self.dns_servers@,
            ));
        }
        Config {
            server: self.server.duplicate(),
            address: self.address,
            router: self.router,
            dns_servers: dns,
            packet,
        }
    }
}

/// The view of an optional address.
pub open spec fn spec_opt_addr(o: Option<Ipv6Address>) -> Option<Seq<u8>> {
    match o {
        Some(a) => Some(a@),
        None => None,
    }
}

/// The view of an optional raw packet.
pub open spec fn spec_opt_packet(o: Option<Packet>) -> Option<Seq<u8>> {
    match o {
        Some(p) => Some(p@),
        None => None,
    }
}

/// Elementwise equality of two address lists.
pub fn addrs_eq(a: &Vec<Ipv6Address>, b: &Vec<Ipv6Address>) -> (r: bool)
    ensures
        r == (crate::wire::view_addrs16(a@) == crate::wire::view_addrs16(b@)),
{
    if a.len() != b.len() {
        assert(crate::wire::view_addrs16(a@).len() != crate::wire::view_addrs16(b@).len());
        return false;
    }
    let mut i: usize = 0;
    while i < a.len()
        invariant
            i <= a@.len(),
            a@.len() == b@.len(),
            forall|j: int| 0 <= j < i ==> a@[j]@ == b@[j]@,
        decreases a@.len() - i,
    {
        if !a[i].same_as(&b[i]) {
            assert(crate::wire::view_addrs16(a@)[i as int] != crate::wire::view_addrs16(
                b@,
            )[i as int]);
            return false;
        }
        i = i + 1;
    }
    assert(crate::wire::view_addrs16(a@) =~= crate::wire::view_addrs16(b@));
    true
}

/// Timeout and retry configuration.
#[derive(Clone, Copy, Debug, PartialEq, Eq, Structural)]
pub struct RetryConfig {
    /// The base retransmission timeout; it doubles every two retries.
    pub initial_request_timeout: Duration,
    /// How many request transmissions before discovery restarts.
    pub request_retries: u16,
    /// The floor for the renew retransmission timeout.
    pub min_renew_timeout: Duration,
}

impl Default for RetryConfig {
    /// Two-second initial timeout, five request retries, one-minute
    /// renew floor.
    fn default() -> (r: Self)
        ensures
            r.initial_request_timeout.millis == 2000,
            r.request_retries == 5,
            r.min_renew_timeout.millis == 60000,
    {
        Self {
            initial_request_timeout: Duration { millis: 2000 },
            request_retries: 5,
            min_renew_timeout: Duration { millis: 60000 },
        }
    }
}

/// What [`Socket::poll`] reports to the host.
#[derive(Clone, Debug, PartialEq, Eq)]
pub enum Event {
    /// Configuration has been lost (for example, the lease expired).
    Deconfigured,
    /// Configuration has been newly acquired or modified.
    Configured(Config),
}

/// Waiting for a Router Advertisement.
#[derive(Clone, Debug)]
pub struct RouterSolicitState {
    /// When to send the next solicitation.
    pub retry_at: Instant,
    /// How many solicitations have been sent.
    pub retry: u16,
}

/// Soliciting a DHCPv6 server.
#[derive(Clone, Debug)]
pub struct DhcpSolicitState {
    /// Client identifier generated for this acquisition attempt.
    pub client_id: Vec<u8>,
    /// When to send the next solicit.
    pub retry_at: Instant,
    /// How many solicits have been sent.
    pub retry: u16,
    /// MTU advertised by the router.
    pub mtu: u32,
    /// Prefix information advertised by the router.
    pub prefix_info: PrefixInformation,
}

/// Requesting an address from a chosen server.
#[derive(Clone, Debug)]
pub struct DhcpRequestState {
    /// Client identifier carried through the attempt.
    pub client_id: Vec<u8>,
    /// When to send the next request.
    pub retry_at: Instant,
    /// How many requests have been sent.
    pub retry: u16,
    /// The identity association this request is for.
    pub iaid: u32,
    /// The server being asked.
    pub server: ServerInfo,
    /// The address being requested.
    pub requested_ip: Ipv6Address,
    /// MTU advertised by the router.
    pub mtu: u32,
    /// Prefix information advertised by the router.
    pub prefix_info: PrefixInformation,
}

/// Holding a lease and renewing it periodically.
#[derive(Clone, Debug)]
pub struct DhcpRenewState {
    /// The active network configuration.
    pub config: Config,
    /// Client identifier carried through the attempt.
    pub client_id: Vec<u8>,
    /// The identity association of the lease.
    pub iaid: u32,
    /// When to next attempt a renewal.
    pub renew_at: Instant,
    /// When the lease stops being valid and the interface must be
    /// deconfigured.
    pub expires_at: Instant,
    /// MTU advertised by the router.
    pub mtu: u32,
    /// Prefix information advertised by the router.
    pub prefix_info: PrefixInformation,
}

/// The engine's state: exactly one phase is active at any time.
#[derive(Clone, Debug)]
pub enum ClientState {
    /// Waiting for a Router Advertisement.
    RouterSolicit(RouterSolicitState),
    /// Discovering a DHCPv6 server.
    DhcpSolicit(DhcpSolicitState),
    /// Requesting an address.
    DhcpRequesting(DhcpRequestState),
    /// Holding an address and refreshing it periodically.
    DhcpRenewing(DhcpRenewState),
}

/// What one [`Socket::dispatch`] call hands to the transmit callback.
#[derive(Clone, Debug)]
pub enum DispatchEmit {
    /// A DHCPv6 message over UDP over IPv6.
    Dhcp(Ipv6Repr, UdpRepr, Repr),
    /// An ICMPv6 message over IPv6.
    Icmp(Ipv6Repr, Icmpv6Repr),
}

/// The DHCPv6 client socket.
#[derive(Debug)]
pub struct Socket {
    /// Protocol state.
    pub state: ClientState,
    /// Set on configuration changes, cleared by [`Socket::poll`].
    pub config_changed: bool,
    /// Transaction id of the last successfully emitted message (its low
    /// 24 bits, as on the wire).
    pub transaction_id: u32,
    /// Cap on the server-provided lease duration, when set.
    pub max_lease_duration: Option<Duration>,
    /// Timeout and retry knobs.
    pub retry_config: RetryConfig,
    /// When set, a Decline from the server is ignored.
    pub ignore_naks: bool,
    /// The server's UDP port.
    pub server_port: u16,
    /// Our UDP port.
    pub client_port: u16,
    /// Options appended verbatim to outgoing packets.
    pub outgoing_options: Vec<Dhcpv6Option>,
    /// Raw parameter-request configuration kept for the host.
    pub parameter_request_list: Option<Vec<u8>>,
    /// When set, each arriving DHCPv6 payload that fits is copied here.
    pub receive_packet_buffer: Option<Vec<u8>>,
    /// Wakers to notify on configuration changes.
    pub waker: WakerRegistration,
}

impl Socket {
    /// The engine's invariant: every stored timer is a valid instant and
    /// every stored identifier is bounded.
    pub open spec fn wf(self) -> bool {
        match self.state {
            ClientState::RouterSolicit(st) => st.retry_at.wf(),
            ClientState::DhcpSolicit(st) => st.retry_at.wf() && st.client_id@.len()
                <= MAX_IDENTIFIER_LEN,
            ClientState::DhcpRequesting(st) => st.retry_at.wf() && st.client_id@.len()
                <= MAX_IDENTIFIER_LEN && st.server.wf(),
            ClientState::DhcpRenewing(st) => st.renew_at.wf() && st.expires_at.wf()
                && st.client_id@.len() <= MAX_IDENTIFIER_LEN && st.config.wf(),
        }
    }

    /// A socket in the router-solicitation phase, ready to poll at time
    /// zero, with the default retry configuration and ports.
    pub fn new() -> (r: Socket)
        ensures
            r.state matches ClientState::RouterSolicit(st) && st.retry_at.millis == 0 && st.retry
                == 0,
            r.config_changed == true,
            r.transaction_id == 1,
            r.max_lease_duration is None,
            r.retry_config.initial_request_timeout.millis == 2000,
            r.retry_config.request_retries == 5,
            r.retry_config.min_renew_timeout.millis == 60000,
            r.ignore_naks == false,
            r.server_port == SERVER_PORT,
            r.client_port == CLIENT_PORT,
            r.outgoing_options@.len() == 0,
            r.parameter_request_list is None,
            r.receive_packet_buffer is None,
            r.waker.wakers@.len() == 0 && !r.waker.wake_on_add,
            r.wf(),
    {
        Socket {
            state: ClientState::RouterSolicit(
                RouterSolicitState { retry_at: Instant { millis: 0 }, retry: 0 },
            ),
            config_changed: true,
            transaction_id: 1,
            max_lease_duration: None,
            retry_config: RetryConfig::default(),
            ignore_naks: false,
            server_port: SERVER_PORT,
            client_port: CLIENT_PORT,
            outgoing_options: Vec::new(),
            parameter_request_list: None,
            receive_packet_buffer: None,
            waker: WakerRegistration::new(),
        }
    }

    /// Set the retry/timeouts configuration.
    pub fn set_retry_config(&mut self, config: RetryConfig)
        ensures
            *final(self) == (Socket { retry_config: config, ..*old(self) }),
    {
        self.retry_config = config;
    }

    /// Set options appended verbatim to outgoing packets.
    pub fn set_outgoing_options(&mut self, options: Vec<Dhcpv6Option>)
        ensures
            *final(self) == (Socket { outgoing_options: options, ..*old(self) }),
    {
        self.outgoing_options = options;
    }

    /// Register a buffer into which incoming DHCPv6 payloads are copied.
    pub fn set_receive_packet_buffer(&mut self, buffer: Vec<u8>)
        ensures
            *final(self) == (Socket { receive_packet_buffer: Some(buffer), ..*old(self) }),
    {
        self.receive_packet_buffer = Some(buffer);
    }

    /// Set the parameter request list kept for the host.
    pub fn set_parameter_request_list(&mut self, parameter_request_list: Vec<u8>)
        ensures
            *final(self) == (Socket {
                parameter_request_list: Some(parameter_request_list),
                ..*old(self)
            }),
    {
        self.parameter_request_list = Some(parameter_request_list);
    }

    /// The configured cap on lease duration.
    pub fn max_lease_duration(&self) -> (r: Option<Duration>)
        ensures
            r == self.max_lease_duration,
    {
        self.max_lease_duration
    }

    /// Cap the server-provided lease duration, or lift the cap.
    pub fn set_max_lease_duration(&mut self, max_lease_duration: Option<Duration>)
        ensures
            *final(self) == (Socket { max_lease_duration, ..*old(self) }),
    {
        self.max_lease_duration = max_lease_duration;
    }

    /// Whether Declines from the server are ignored.
    pub fn ignore_naks(&self) -> (r: bool)
        ensures
            r == self.ignore_naks,
    {
        self.ignore_naks
    }

    /// Set whether to ignore Declines from the server.
    pub fn set_ignore_naks(&mut self, ignore_naks: bool)
        ensures
            *final(self) == (Socket { ignore_naks, ..*old(self) }),
    {
        self.ignore_naks = ignore_naks;
    }

    /// Set the server and client UDP ports.
    pub fn set_ports(&mut self, server_port: u16, client_port: u16)
        ensures
            *final(self) == (Socket { server_port, client_port, ..*old(self) }),
    {
        self.server_port = server_port;
        self.client_port = client_port;
    }

    /// The earliest instant at which this socket wants to run: its
    /// pending retry timer, or for an active lease the earlier of the
    /// renew and expiry timers.
    pub open spec fn spec_poll_at(self) -> Instant {
        match self.state {
            ClientState::RouterSolicit(st) => st.retry_at,
            ClientState::DhcpSolicit(st) => st.retry_at,
            ClientState::DhcpRequesting(st) => st.retry_at,
            ClientState::DhcpRenewing(st) => if st.renew_at.millis <= st.expires_at.millis {
                st.renew_at
            } else {
                st.expires_at
            },
        }
    }

    /// When the socket next wants to be polled.  Read-only.
    pub fn poll_at(&self, _cx: &Context) -> (r: PollAt)
        ensures
            r == PollAt::Time(self.spec_poll_at()),
    {
        let t = match &self.state {
            ClientState::RouterSolicit(st) => st.retry_at,
            ClientState::DhcpSolicit(st) => st.retry_at,
            ClientState::DhcpRequesting(st) => st.retry_at,
            ClientState::DhcpRenewing(st) => st.renew_at.min(st.expires_at),
        };
        PollAt::Time(t)
    }

    /// Flag a configuration change and wake any waiting tasks.
    fn config_changed(&mut self)
        ensures
            final(self).config_changed == true,
            final(self).waker.wakers@.len() == 0 || final(self).waker.wakers@
                == old(self).waker.wakers@,
            *final(self) == (Socket {
                config_changed: true,
                waker: final(self).waker,
                ..*old(self)
            }),
    {
        self.config_changed = true;
        self.waker.wake_all();
    }

    /// Reset state and restart the discovery phase.
    ///
    /// Leaving an active lease counts as a configuration change, so a
    /// subsequent [`Socket::poll`] reports deconfiguration.
    pub fn reset(&mut self)
        ensures
            final(self).state matches ClientState::RouterSolicit(st) && st.retry_at.millis == 0
                && st.retry == 0,
            final(self).config_changed == (old(self).config_changed || old(self).state matches
                ClientState::DhcpRenewing(_)),
            final(self).transaction_id == old(self).transaction_id,
            final(self).max_lease_duration == old(self).max_lease_duration,
            final(self).retry_config == old(self).retry_config,
            final(self).ignore_naks == old(self).ignore_naks,
            final(self).server_port == old(self).server_port,
            final(self).client_port == old(self).client_port,
            final(self).outgoing_options == old(self).outgoing_options,
            final(self).parameter_request_list == old(self).parameter_request_list,
            final(self).receive_packet_buffer == old(self).receive_packet_buffer,
            final(self).wf(),
    {
        if let ClientState::DhcpRenewing(_) = &self.state {
            self.config_changed();
        }
        self.state = ClientState::RouterSolicit(
            RouterSolicitState { retry_at: Instant { millis: 0 }, retry: 0 },
        );
    }

    /// Query the socket for configuration changes.
    ///
    /// When the change flag is set, clears it and reports the current
    /// configuration (with the last received raw packet, when a receive
    /// buffer is registered) or deconfiguration.
    pub fn poll(&mut self) -> (r: Option<Event>)
        requires
            old(self).wf(),
        ensures
            final(self).wf(),
            !old(self).config_changed ==> r is None && *final(self) == *old(self),
            old(self).config_changed ==> final(self).config_changed == false,
            old(self).config_changed ==> *final(self) == (Socket {
                config_changed: false,
                ..*old(self)
            }),
            old(self).config_changed ==> match old(self).state {
                ClientState::DhcpRenewing(st) => r matches Some(Event::Configured(c))
                    && c.server.address@ == st.config.server.address@ && c.server.identifier@
                    == st.config.server.identifier@ && c.address == st.config.address && c.router
                    == st.config.router && crate::wire::view_addrs16(c.dns_servers@)
                    == crate::wire::view_addrs16(st.config.dns_servers@) && spec_opt_packet(
                    c.packet,
                ) == (match old(self).receive_packet_buffer {
                    Some(b) => Some(b@),
                    None => None,
                }),
                _ => r == Some(Event::Deconfigured),
            },
    {
        if !self.config_changed {
            return None;
        }
        match &self.state {
            ClientState::DhcpRenewing(st) => {
                let mut c = st.config.duplicate();
                c.packet = match &self.receive_packet_buffer {
                    Some(b) => Some(Packet { buffer: crate::bytes::clone_bytes(b) }),
                    None => None,
                };
                self.config_changed = false;
                Some(Event::Configured(c))
            },
            _ => {
                self.config_changed = false;
                Some(Event::Deconfigured)
            },
        }
    }

    /// Register a waker, replacing any previously registered one; it is
    /// woken once on the next configuration change.
    pub fn register_waker(&mut self, waker: &core::task::Waker)
        ensures
            *final(self) == (Socket { waker: final(self).waker, ..*old(self) }),
            final(self).waker.wakers@.len() >= 1,
    {
        self.waker.register(waker)
    }

    /// Add a waker beside any already registered; it is woken once on
    /// the next configuration change.
    pub fn add_waker(&mut self, waker: &core::task::Waker)
        ensures
            *final(self) == (Socket { waker: final(self).waker, ..*old(self) }),
    {
        self.waker.add(waker)
    }

    /// Drop all registered wakers without waking them.
    pub fn clear_waker(&mut self)
        ensures
            *final(self) == (Socket { waker: final(self).waker, ..*old(self) }),
            final(self).waker.wakers@.len() == 0,
            !final(self).waker.wake_on_add,
    {
        self.waker.clear();
    }
}

/// The bytes of an optional receive buffer.
pub open spec fn spec_opt_buf(o: Option<Vec<u8>>) -> Option<Seq<u8>> {
    match o {
        Some(b) => Some(b@),
        None => None,
    }
}

/// The receive buffer after an arriving payload: payloads that fit are
/// copied over the front, longer ones leave the buffer untouched.
pub open spec fn spec_rx_after(o: Option<Vec<u8>>, payload: Seq<u8>) -> Option<Seq<u8>> {
    match o {
        Some(b) => Some(
            if payload.len() <= b@.len() {
                payload + b@.skip(payload.len() as int)
            } else {
                b@
            },
        ),
        None => None,
    }
}

/// Copy an arriving payload into the registered receive buffer, when
/// one is registered and the payload fits.
fn rx_copy(buf: &mut Option<Vec<u8>>, payload: &[u8])
    ensures
        spec_opt_buf(*final(buf)) == spec_rx_after(*old(buf), payload@),
        (*final(buf)) is Some <==> (*old(buf)) is Some,
{
    match buf {
        Some(b) => {
            if payload.len() <= b.len() {
                crate::bytes::write_at(b, 0, payload);
                proof {
                    assert(b@.subrange(0, 0) =~= Seq::<u8>::empty());
                    assert(b@ =~= payload@ + b@.skip(payload@.len() as int));
                }
            }
        },
        None => {},
    }
}

/// Whether a Router Advertisement moves the engine out of router
/// solicitation: the Managed bit is set and both the MTU and the prefix
/// information options are present.
pub open spec fn spec_ra_accept(state: ClientState, repr: Icmpv6Repr) -> bool {
    &&& state is RouterSolicit
    &&& repr matches Icmpv6Repr::Ndisc(
        NdiscRepr::RouterAdvert { flags, mtu, prefix_info, .. },
    ) && flags.managed && mtu is Some && prefix_info is Some
}

/// The MTU carried by an accepted Router Advertisement.
pub open spec fn spec_ra_mtu(repr: Icmpv6Repr) -> u32
    recommends
        repr matches Icmpv6Repr::Ndisc(NdiscRepr::RouterAdvert { mtu: Some(_), .. }),
{
    match repr {
        Icmpv6Repr::Ndisc(NdiscRepr::RouterAdvert { mtu: Some(m), .. }) => m,
        _ => 0,
    }
}

/// The prefix information carried by an accepted Router Advertisement.
pub open spec fn spec_ra_prefix(repr: Icmpv6Repr) -> PrefixInformation
    recommends
        repr matches Icmpv6Repr::Ndisc(NdiscRepr::RouterAdvert { prefix_info: Some(_), .. }),
{
    match repr {
        Icmpv6Repr::Ndisc(NdiscRepr::RouterAdvert { prefix_info: Some(p), .. }) => p,
        _ => vstd::pervasive::arbitrary(),
    }
}

impl Socket {
    /// Offer an inbound ICMPv6 packet to the engine.
    ///
    /// The payload is copied into the receive buffer when one is
    /// registered.  In the router-solicitation phase, a Router
    /// Advertisement with the Managed bit, an MTU option and a prefix
    /// information option moves the engine to DHCP solicitation with a
    /// freshly generated 16-byte client identifier; every other packet,
    /// and every packet in a later phase, leaves the state untouched.
    pub fn process_icmpv6(
        &mut self,
        cx: &Context,
        ip_repr: &Ipv6Repr,
        repr: &Icmpv6Repr,
        payload: &[u8],
    )
        requires
            old(self).wf(),
            cx.wf(),
        ensures
            final(self).wf(),
            spec_opt_buf(final(self).receive_packet_buffer) == spec_rx_after(
                old(self).receive_packet_buffer,
                payload@,
            ),
            spec_ra_accept(old(self).state, *repr) ==> (final(self).state matches
                ClientState::DhcpSolicit(st) && st.client_id@ == cx.rand_uuid@
                && st.retry_at.millis == 0 && st.retry == 0 && st.mtu == spec_ra_mtu(*repr)
                && st.prefix_info == spec_ra_prefix(*repr)),
            !spec_ra_accept(old(self).state, *repr) ==> final(self).state == old(self).state,
            final(self).config_changed == old(self).config_changed,
            final(self).transaction_id == old(self).transaction_id,
            final(self).max_lease_duration == old(self).max_lease_duration,
            final(self).retry_config == old(self).retry_config,
            final(self).ignore_naks == old(self).ignore_naks,
            final(self).server_port == old(self).server_port,
            final(self).client_port == old(self).client_port,
            final(self).outgoing_options == old(self).outgoing_options,
            final(self).parameter_request_list == old(self).parameter_request_list,
            final(self).waker == old(self).waker,
    {
        rx_copy(&mut self.receive_packet_buffer, payload);
        let mut next: Option<ClientState> = None;
        match (&self.state, repr) {
            (
                ClientState::RouterSolicit(_),
                Icmpv6Repr::Ndisc(NdiscRepr::RouterAdvert { flags, mtu, prefix_info, .. }),
            ) => {
                if flags.managed {
                    match (mtu, prefix_info) {
                        (Some(m), Some(pi)) => {
                            let client_id = crate::bytes::clone_bytes(&cx.rand_uuid);
                            next = Some(
                                ClientState::DhcpSolicit(
                                    DhcpSolicitState {
                                        client_id,
                                        retry_at: Instant { millis: 0 },
                                        retry: 0,
                                        mtu: *m,
                                        prefix_info: *pi,
                                    },
                                ),
                            );
                        },
                        _ => {},
                    }
                }
            },
            _ => {},
        }
        match next {
            Some(ns) => {
                self.state = ns;
            },
            None => {},
        }
    }
}

/// An address, given as its 16 bytes, is unicast: neither unspecified
/// nor multicast.
pub open spec fn spec_bytes_unicast(b: Seq<u8>) -> bool {
    &&& !(forall|i: int| 0 <= i < 16 ==> b[i] == 0u8)
    &&& b[0] != 0xffu8
}

/// Walk an advertised resolver list, keeping the unicast addresses, at
/// most [`MAX_DNS_ADDRESSES`] of them.
pub open spec fn spec_dns_pick(s: Seq<Seq<u8>>, acc: Seq<Seq<u8>>) -> Seq<Seq<u8>>
    decreases s.len(),
{
    if s.len() == 0 {
        acc
    } else {
        spec_dns_pick(
            s.drop_first(),
            if spec_bytes_unicast(s[0]) && acc.len() < MAX_DNS_ADDRESSES {
                acc.push(s[0])
            } else {
                acc
            },
        )
    }
}

/// The resolver addresses a reply configures: the unicast addresses of
/// its DNS-servers option, bounded.
pub open spec fn spec_ack_dns(p: ReprModel) -> Seq<Seq<u8>> {
    match p.dns_servers {
        Some(d) => spec_dns_pick(d.addresses, Seq::empty()),
        None => Seq::empty(),
    }
}

/// Whether a server reply's IA_NA grants a lease: it carries at least
/// one address and no failing status code.
pub open spec fn spec_ack_ok(ia: IaNaModel) -> bool {
    &&& ia.addresses.len() > 0
    &&& match ia.status_code {
        Some(s) => s.status_code == StatusCode::Success,
        None => true,
    }
}

/// The granted lease duration: the reply's T1 in seconds, capped by the
/// configured maximum.
pub open spec fn spec_lease_duration(ia: IaNaModel, max: Option<Duration>) -> Duration {
    let base = Duration { millis: (ia.t1 * 1000) as u64 };
    match max {
        Some(m) => if base.millis <= m.millis {
            base
        } else {
            m
        },
        None => base,
    }
}

/// When the lease must next be renewed: T2 seconds from now.
pub open spec fn spec_renew_at(now: Instant, ia: IaNaModel) -> Instant {
    spec_instant_plus(now, Duration { millis: (ia.t2 * 1000) as u64 })
}

/// When the lease expires: the lease duration from now.
pub open spec fn spec_expires_at(now: Instant, ia: IaNaModel, max: Option<Duration>) -> Instant {
    spec_instant_plus(now, spec_lease_duration(ia, max))
}

impl Socket {
    /// Judge a server reply's IA_NA and build the configuration it
    /// grants: the first address with the advertised prefix length, the
    /// sender as default gateway, and the unicast resolvers.  Returns
    /// the configuration with its renew and expiry instants, or nothing
    /// when the IA carries no address or a failing status code.
    fn parse_ack(
        now: Instant,
        src_ip: Ipv6Address,
        dhcp_repr: &Repr,
        max_lease_duration: Option<Duration>,
        server: ServerInfo,
        ia_na: &ReprIaNa,
        prefix_info: &PrefixInformation,
    ) -> (r: Option<(Config, Instant, Instant)>)
        requires
            now.wf(),
            server.wf(),
        ensures
            r is Some <==> spec_ack_ok(ia_na@),
            r matches Some(t) ==> {
                &&& t.0.server.address == server.address
                &&& t.0.server.identifier@ == server.identifier@
                &&& t.0.address.address@ == ia_na@.addresses[0].addr
                &&& t.0.address.prefix_len == prefix_info.prefix_len
                &&& t.0.router == Some(src_ip)
                &&& crate::wire::view_addrs16(t.0.dns_servers@) == spec_ack_dns(dhcp_repr@)
                &&& t.0.packet is None
                &&& t.0.wf()
                &&& t.1 == spec_renew_at(now, ia_na@)
                &&& t.2 == spec_expires_at(now, ia_na@, max_lease_duration)
                &&& t.1.wf() && t.2.wf()
            },
    {
        let prefix_len = prefix_info.prefix_len;
        if ia_na.addresses.len() == 0 {
            return None;
        }
        match &ia_na.status_code {
            Some(sc) => {
                match sc.status_code {
                    StatusCode::Success => {},
                    _ => {
                        return None;
                    },
                }
            },
            None => {},
        }
        let your_addr = ia_na.addresses[0].addr;
        let mut lease_duration = Duration::from_secs(ia_na.t1 as u64);
        match max_lease_duration {
            Some(m) => {
                lease_duration = lease_duration.min(m);
            },
            None => {},
        }
        let mut dns_servers: Vec<Ipv6Address> = Vec::new();
        match &dhcp_repr.dns_servers {
            Some(d) => {
                let ghost full = crate::wire::view_addrs16(d.addresses@);
                let mut i: usize = 0;
                proof {
                    assert(crate::wire::view_addrs16(dns_servers@) =~= Seq::<Seq<u8>>::empty());
                    assert(full.skip(0) =~= full);
                }
                while i < d.addresses.len()
                    invariant
                        i <= d.addresses@.len(),
                        full == crate::wire::view_addrs16(d.addresses@),
                        dns_servers@.len() <= MAX_DNS_ADDRESSES,
                        spec_dns_pick(full, Seq::empty()) == spec_dns_pick(
                            full.skip(i as int),
                            crate::wire::view_addrs16(dns_servers@),
                        ),
                    decreases d.addresses@.len() - i,
                {
                    let ghost rem = full.skip(i as int);
                    proof {
                        assert(rem[0] == full[i as int]);
                        assert(rem.drop_first() =~= full.skip(i as int + 1));
                    }
                    let a = d.addresses[i];
                    proof {
                        assert(a@.len() == 16);
                        assert(a.spec_is_unicast() == spec_bytes_unicast(a@));
                    }
                    if a.is_unicast() {
                        if dns_servers.len() < MAX_DNS_ADDRESSES {
                            let ghost prev = crate::wire::view_addrs16(dns_servers@);
                            dns_servers.push(a);
                            proof {
                                assert(crate::wire::view_addrs16(dns_servers@) =~= prev.push(a@));
                            }
                        }
                    }
                    i = i + 1;
                }
                proof {
                    assert(full.skip(i as int) =~= Seq::<Seq<u8>>::empty());
                }
            },
            None => {},
        }
        let config = Config {
            server,
            address: Ipv6Cidr::new(your_addr, prefix_len),
            router: Some(src_ip),
            dns_servers,
            packet: None,
        };
        let renew_duration = Duration::from_secs(ia_na.t2 as u64);
        let renew_at = now.plus(renew_duration);
        let expires_at = now.plus(lease_duration);
        Some((config, renew_at, expires_at))
    }
}


/// The parsed packet a UDP payload delivers to the engine, if it gets
/// past the front checks: it must parse, its transaction id must match
/// the last one sent, and it must carry a server identifier.
pub open spec fn spec_udp_packet(s: Socket, payload: Seq<u8>) -> Option<ReprModel> {
    match crate::wire::spec_parse_repr(payload) {
        Some(p) => if p.transaction_id == s.transaction_id && p.server_id is Some {
            Some(p)
        } else {
            None
        },
        None => None,
    }
}

/// An identifier as the engine stores it: kept when it fits the bound,
/// empty otherwise.
pub open spec fn spec_bounded_id(id: Seq<u8>) -> Seq<u8> {
    if id.len() <= MAX_IDENTIFIER_LEN {
        id
    } else {
        Seq::empty()
    }
}

/// Whether an Advertise is accepted in the DHCP-solicit phase: it
/// carries an IA_NA with at least one address and echoes our client
/// identifier.
pub open spec fn spec_adv_accept(st: DhcpSolicitState, p: ReprModel) -> bool {
    &&& p.message_type == MessageType::Advertise
    &&& p.ia_na matches Some(ia) && ia.addresses.len() > 0
    &&& p.client_id == Some(st.client_id@)
}

/// Whether a Confirm matches the pending request: it carries an IA_NA
/// and echoes our client and the latched server identifier.
pub open spec fn spec_confirm_req(st: DhcpRequestState, p: ReprModel) -> bool {
    &&& p.message_type == MessageType::Confirm
    &&& p.ia_na is Some
    &&& p.client_id == Some(st.client_id@)
    &&& p.server_id == Some(st.server.identifier@)
}

/// Whether a Confirm matches the active lease.
pub open spec fn spec_confirm_renew(st: DhcpRenewState, p: ReprModel) -> bool {
    &&& p.message_type == MessageType::Confirm
    &&& p.ia_na is Some
    &&& p.client_id == Some(st.client_id@)
    &&& p.server_id == Some(st.config.server.identifier@)
}

/// Whether a renewal reply leaves the configuration as it was: the same
/// lease address and prefix, the same gateway, the same resolvers, and
/// no stored packet.
pub open spec fn spec_renew_config_same(
    c: Config,
    p: ReprModel,
    src_ip: Ipv6Address,
    prefix_len: u8,
) -> bool {
    &&& c.address.address@ == p.ia_na.unwrap().addresses[0].addr
    &&& c.address.prefix_len == prefix_len
    &&& spec_opt_addr(c.router) == spec_opt_addr(Some(src_ip))
    &&& crate::wire::view_addrs16(c.dns_servers@) == spec_ack_dns(p)
    &&& c.packet is None
}

impl Socket {
    /// Offer an inbound DHCPv6-over-UDP payload to the engine.
    ///
    /// The driver offers a payload only when the ports match the
    /// configured server and client ports.  A payload that does not
    /// parse, whose transaction id is not the one of the last emitted
    /// message, or that carries no server identifier is dropped without
    /// any effect.  Otherwise the payload is copied into the receive
    /// buffer, and the engine advances as the state diagram says: an
    /// Advertise answers a solicit, a Confirm answers a request or a
    /// renewal, and a Decline abandons the lease unless Declines are
    /// ignored.
    #[verifier::rlimit(100)]
    #[verifier::spinoff_prover]
    pub fn process_udp(
        &mut self,
        cx: &Context,
        ip_repr: &Ipv6Repr,
        udp_repr: &UdpRepr,
        payload: &[u8],
    )
        requires
            old(self).wf(),
            cx.wf(),
            udp_repr.src_port == old(self).server_port,
            udp_repr.dst_port == old(self).client_port,
        ensures
            final(self).wf(),
            final(self).transaction_id == old(self).transaction_id,
            final(self).max_lease_duration == old(self).max_lease_duration,
            final(self).retry_config == old(self).retry_config,
            final(self).ignore_naks == old(self).ignore_naks,
            final(self).server_port == old(self).server_port,
            final(self).client_port == old(self).client_port,
            final(self).outgoing_options == old(self).outgoing_options,
            final(self).parameter_request_list == old(self).parameter_request_list,
            spec_udp_packet(*old(self), payload@) is None ==> *final(self) == *old(self),
            spec_udp_packet(*old(self), payload@) matches Some(p) ==> {
                &&& spec_opt_buf(final(self).receive_packet_buffer) == spec_rx_after(
                    old(self).receive_packet_buffer,
                    payload@,
                )
                &&& match old(self).state {
                    ClientState::RouterSolicit(_) => final(self).state == old(self).state
                        && final(self).config_changed == old(self).config_changed,
                    ClientState::DhcpSolicit(st) => if spec_adv_accept(st, p) {
                        &&& final(self).state matches ClientState::DhcpRequesting(ns)
                            && ns.client_id@ == st.client_id@ && ns.retry_at == cx.now && ns.retry
                            == 0 && ns.iaid == p.ia_na.unwrap().iaid && ns.server.address
                            == ip_repr.src_addr && ns.server.identifier@ == spec_bounded_id(
                            p.server_id.unwrap(),
                        ) && ns.requested_ip@ == p.ia_na.unwrap().addresses[0].addr && ns.mtu
                            == st.mtu && ns.prefix_info == st.prefix_info
                        &&& final(self).config_changed == old(self).config_changed
                    } else {
                        final(self).state == old(self).state && final(self).config_changed == old(
                            self,
                        ).config_changed
                    },
                    ClientState::DhcpRequesting(st) => if spec_confirm_req(st, p) && spec_ack_ok(
                        p.ia_na.unwrap(),
                    ) {
                        &&& final(self).state matches ClientState::DhcpRenewing(ns)
                            && ns.client_id@ == st.client_id@ && ns.iaid == st.iaid && ns.renew_at
                            == spec_renew_at(cx.now, p.ia_na.unwrap()) && ns.expires_at
                            == spec_expires_at(
                            cx.now,
                            p.ia_na.unwrap(),
                            old(self).max_lease_duration,
                        ) && ns.config.server.address == st.server.address
                            && ns.config.server.identifier@ == st.server.identifier@
                            && ns.config.address.address@ == p.ia_na.unwrap().addresses[0].addr
                            && ns.config.address.prefix_len == st.prefix_info.prefix_len
                            && ns.config.router == Some(ip_repr.src_addr)
                            && crate::wire::view_addrs16(ns.config.dns_servers@) == spec_ack_dns(p)
                            && ns.config.packet is None && ns.mtu == st.mtu && ns.prefix_info
                            == st.prefix_info
                        &&& final(self).config_changed == true
                    } else if p.message_type == MessageType::Decline && !old(self).ignore_naks {
                        &&& final(self).state matches ClientState::RouterSolicit(rs)
                            && rs.retry_at.millis == 0 && rs.retry == 0
                        &&& final(self).config_changed == old(self).config_changed
                    } else {
                        final(self).state == old(self).state && final(self).config_changed == old(
                            self,
                        ).config_changed
                    },
                    ClientState::DhcpRenewing(st) => if spec_confirm_renew(st, p) && spec_ack_ok(
                        p.ia_na.unwrap(),
                    ) {
                        &&& final(self).state matches ClientState::DhcpRenewing(ns)
                            && ns.client_id@ == st.client_id@ && ns.iaid == st.iaid && ns.renew_at
                            == spec_renew_at(cx.now, p.ia_na.unwrap()) && ns.expires_at
                            == spec_expires_at(
                            cx.now,
                            p.ia_na.unwrap(),
                            old(self).max_lease_duration,
                        ) && ns.config.server.address == st.config.server.address
                            && ns.config.server.identifier@ == st.config.server.identifier@
                            && ns.config.address.address@ == p.ia_na.unwrap().addresses[0].addr
                            && ns.config.address.prefix_len == st.prefix_info.prefix_len
                            && ns.config.router == Some(ip_repr.src_addr)
                            && crate::wire::view_addrs16(ns.config.dns_servers@) == spec_ack_dns(p)
                            && ns.config.packet is None && ns.mtu == st.mtu && ns.prefix_info
                            == st.prefix_info
                        &&& final(self).config_changed == if !(st.config.server.address@
                            == st.config.server.address@ && spec_renew_config_same(
                            st.config,
                            p,
                            ip_repr.src_addr,
                            st.prefix_info.prefix_len,
                        )) || old(self).receive_packet_buffer is Some {
                            true
                        } else {
                            old(self).config_changed
                        }
                    } else if p.message_type == MessageType::Decline && !old(self).ignore_naks {
                        &&& final(self).state matches ClientState::RouterSolicit(rs)
                            && rs.retry_at.millis == 0 && rs.retry == 0
                        &&& final(self).config_changed == true
                    } else {
                        final(self).state == old(self).state && final(self).config_changed == old(
                            self,
                        ).config_changed
                    },
                }
            },
    {
        let packet = Packet::new_unchecked(vstd::slice::slice_to_vec(payload));
        proof {
            assert(packet@ =~= payload@);
        }
        let rep = match Repr::parse(&packet) {
            Ok(r) => r,
            Err(_) => {
                return ;
            },
        };
        if rep.transaction_id != self.transaction_id {
            return ;
        }
        match &rep.server_id {
            Some(_) => {},
            None => {
                return ;
            },
        }
        rx_copy(&mut self.receive_packet_buffer, payload);
        let mut next: Option<ClientState> = None;
        let mut do_reset = false;
        let mut flag = false;
        match (&self.state, rep.message_type) {
            (ClientState::RouterSolicit(_), _) => {},
            (ClientState::DhcpSolicit(st), MessageType::Advertise) => {
                match &rep.ia_na {
                    Some(ia) => {
                        if ia.addresses.len() > 0 {
                            let cid_ok = match &rep.client_id {
                                Some(c) => bytes_eq(c, &st.client_id),
                                None => false,
                            };
                            if cid_ok {
                                match &rep.server_id {
                                    Some(sid) => {
                                        let identifier: Vec<u8> = if sid.len()
                                            <= MAX_IDENTIFIER_LEN {
                                            crate::bytes::clone_bytes(sid)
                                        } else {
                                            Vec::new()
                                        };
                                        proof {
                                            assert(identifier@ == spec_bounded_id(sid@));
                                        }
                                        next = Some(
                                            ClientState::DhcpRequesting(
                                                DhcpRequestState {
                                                    client_id: crate::bytes::clone_bytes(
                                                        &st.client_id,
                                                    ),
                                                    retry_at: cx.now,
                                                    retry: 0,
                                                    iaid: ia.iaid,
                                                    server: ServerInfo {
                                                        address: ip_repr.src_addr,
                                                        identifier,
                                                    },
                                                    requested_ip: ia.addresses[0].addr,
                                                    mtu: st.mtu,
                                                    prefix_info: st.prefix_info,
                                                },
                                            ),
                                        );
                                    },
                                    None => {},
                                }
                            }
                        }
                    },
                    None => {},
                }
            },
            (ClientState::DhcpRequesting(st), MessageType::Confirm) => {
                match &rep.ia_na {
                    Some(ia) => {
                        let cid_ok = match &rep.client_id {
                            Some(c) => bytes_eq(c, &st.client_id),
                            None => false,
                        };
                        let sid_ok = match &rep.server_id {
                            Some(s2) => bytes_eq(s2, &st.server.identifier),
                            None => false,
                        };
                        if cid_ok && sid_ok {
                            match Socket::parse_ack(
                                cx.now,
                                ip_repr.src_addr,
                                &rep,
                                self.max_lease_duration,
                                st.server.duplicate(),
                                ia,
                                &st.prefix_info,
                            ) {
                                Some(t) => {
                                    next = Some(
                                        ClientState::DhcpRenewing(
                                            DhcpRenewState {
                                                config: t.0,
                                                client_id: crate::bytes::clone_bytes(
                                                    &st.client_id,
                                                ),
                                                iaid: st.iaid,
                                                renew_at: t.1,
                                                expires_at: t.2,
                                                mtu: st.mtu,
                                                prefix_info: st.prefix_info,
                                            },
                                        ),
                                    );
                                    flag = true;
                                },
                                None => {},
                            }
                        }
                    },
                    None => {},
                }
            },
            (ClientState::DhcpRequesting(_), MessageType::Decline) => {
                if !self.ignore_naks {
                    do_reset = true;
                }
            },
            (ClientState::DhcpRenewing(st), MessageType::Confirm) => {
                match &rep.ia_na {
                    Some(ia) => {
                        let cid_ok = match &rep.client_id {
                            Some(c) => bytes_eq(c, &st.client_id),
                            None => false,
                        };
                        let sid_ok = match &rep.server_id {
                            Some(s2) => bytes_eq(s2, &st.config.server.identifier),
                            None => false,
                        };
                        if cid_ok && sid_ok {
                            match Socket::parse_ack(
                                cx.now,
                                ip_repr.src_addr,
                                &rep,
                                self.max_lease_duration,
                                st.config.server.duplicate(),
                                ia,
                                &st.prefix_info,
                            ) {
                                Some(t) => {
                                    let changed = !st.config.same_as(&t.0)
                                        || self.receive_packet_buffer.is_some();
                                    next = Some(
                                        ClientState::DhcpRenewing(
                                            DhcpRenewState {
                                                config: t.0,
                                                client_id: crate::bytes::clone_bytes(
                                                    &st.client_id,
                                                ),
                                                iaid: st.iaid,
                                                renew_at: t.1,
                                                expires_at: t.2,
                                                mtu: st.mtu,
                                                prefix_info: st.prefix_info,
                                            },
                                        ),
                                    );
                                    flag = changed;
                                },
                                None => {},
                            }
                        }
                    },
                    None => {},
                }
            },
            (ClientState::DhcpRenewing(_), MessageType::Decline) => {
                if !self.ignore_naks {
                    do_reset = true;
                }
            },
            _ => {},
        }
        match next {
            Some(ns) => {
                self.state = ns;
            },
            None => {},
        }
        if do_reset {
            self.reset();
        }
        if flag {
            self.config_changed();
        }
    }
}


/// The retry counter after one more transmission; it sticks at its
/// maximum rather than wrapping.
pub open spec fn spec_retry_next(retry: u16) -> u16 {
    if retry < u16::MAX {
        (retry + 1) as u16
    } else {
        retry
    }
}

/// The next retransmission instant: the initial timeout doubled every
/// two retries, capped at two-to-the-eighth, from now.
pub open spec fn spec_backoff_at(cfg: RetryConfig, now: Instant, retry: u16) -> Instant {
    spec_instant_plus(
        now,
        spec_dur_shl(
            cfg.initial_request_timeout,
            ((if retry < 16 {
                retry
            } else {
                16
            }) / 2) as nat,
        ),
    )
}

/// The next renewal attempt: half the time to expiry, floored by the
/// configured minimum, from now.
pub open spec fn spec_renew_retry_at(cfg: RetryConfig, now: Instant, expires_at: Instant) -> Instant
    recommends
        now.millis < expires_at.millis,
{
    let half = ((expires_at.millis - now.millis) as u64) / 2;
    spec_instant_plus(
        now,
        Duration {
            millis: if cfg.min_renew_timeout.millis >= half {
                cfg.min_renew_timeout.millis
            } else {
                half
            },
        },
    )
}

/// The hardware address bytes of the interface.
pub open spec fn spec_eth_bytes(cx: Context) -> Seq<u8> {
    match cx.hardware_addr {
        Some(HardwareAddress::Ethernet(e)) => e@,
        None => Seq::empty(),
    }
}

/// The fields shared by every DHCPv6 message this engine emits: the
/// masked fresh transaction id, the hardware address as client
/// identifier, and a request for the DNS-servers option.
pub open spec fn spec_base_repr(cx: Context) -> ReprModel {
    ReprModel {
        message_type: MessageType::Solicit,
        transaction_id: (cx.rand_xid % 0x100_0000) as u32,
        client_id: Some(spec_eth_bytes(cx)),
        server_id: None,
        elapsed_time: None,
        request_options: Some(seq![OPT_DNS_SERVERS]),
        ia_na: None,
        ia_ta: None,
        dns_servers: None,
        additional_options: Seq::empty(),
    }
}

/// The IA_NA a request or renewal carries: zeroed T1 and T2 as the
/// protocol demands of clients, and one address entry with the
/// suggested lifetimes.
pub open spec fn spec_request_ia(iaid: u32, addr: Seq<u8>) -> IaNaModel {
    IaNaModel {
        iaid,
        t1: 0,
        t2: 0,
        addresses: seq![
            IaAddrModel {
                addr,
                preferred_lifetime: 604800,
                valid_lifetime: 2592000,
                additional_options: Seq::empty(),
            },
        ],
        status_code: None,
        additional_options: Seq::empty(),
    }
}

/// The Request message of the requesting phase.
pub open spec fn spec_request_repr(cx: Context, server_id: Seq<u8>, iaid: u32, addr: Seq<u8>) -> ReprModel {
    ReprModel {
        message_type: MessageType::Request,
        server_id: Some(server_id),
        ia_na: Some(spec_request_ia(iaid, addr)),
        ..spec_base_repr(cx)
    }
}

/// The Renew message of the renewing phase: the request shape with the
/// leased address.
pub open spec fn spec_renew_repr(cx: Context, server_id: Seq<u8>, iaid: u32, addr: Seq<u8>) -> ReprModel {
    ReprModel {
        message_type: MessageType::Renew,
        server_id: Some(server_id),
        ia_na: Some(spec_request_ia(iaid, addr)),
        ..spec_base_repr(cx)
    }
}

/// Whether a dispatch emission is the engine's router solicitation:
/// ICMPv6 from the unspecified address to all routers, carrying our
/// link-layer address.
pub open spec fn spec_is_rs_message(m: DispatchEmit, cx: Context) -> bool {
    &&& m matches DispatchEmit::Icmp(ip, icmp) && {
        &&& ip.src_addr@ == crate::ip::spec_unspecified()
        &&& ip.dst_addr@ == crate::ip::spec_link_local_all_routers()
        &&& ip.next_header == IpProtocol::Icmpv6
        &&& ip.hop_limit == 64
        &&& ip.payload_len == spec_icmpv6_buffer_len(icmp)
        &&& icmp matches Icmpv6Repr::Ndisc(NdiscRepr::RouterSolicit { lladdr }) && lladdr matches
            Some(l) && Some(HardwareAddress::Ethernet(l)) == cx.hardware_addr
    }
}

/// Whether a dispatch emission is a DHCPv6 message with the given
/// addresses, ports and representation.
pub open spec fn spec_is_dhcp_message(
    m: DispatchEmit,
    src: Seq<u8>,
    dst: Seq<u8>,
    src_port: u16,
    dst_port: u16,
    rm: ReprModel,
) -> bool {
    &&& m matches DispatchEmit::Dhcp(ip, udp, rep) && {
        &&& ip.src_addr@ == src
        &&& ip.dst_addr@ == dst
        &&& ip.next_header == IpProtocol::Udp
        &&& ip.hop_limit == 64
        &&& ip.payload_len == 8 + crate::wire::spec_repr_bytes(rm).len()
        &&& udp.src_port == src_port
        &&& udp.dst_port == dst_port
        &&& rep@ == rm
    }
}

impl Socket {
    /// Let the engine produce its pending outbound packet, if its timer
    /// is due, through the one-shot `emit` callback.
    ///
    /// A call before the pending timer is a no-op.  When a message is
    /// due, the engine hands it to `emit`; only when `emit` reports
    /// success does the engine advance: the retransmission timer backs
    /// off (doubling every two retries) and the stored transaction id
    /// becomes the fresh one carried by the message, so a failed send
    /// keeps the previous exchange matchable.  Request retries past the
    /// configured limit, and an expired lease, restart discovery
    /// instead of emitting.
    #[verifier::rlimit(100)]
    #[verifier::spinoff_prover]
    pub fn dispatch<F, E>(&mut self, cx: &Context, emit: F) -> (r: Result<(), E>) where
        F: FnOnce(DispatchEmit) -> Result<(), E>,

        requires
            old(self).wf(),
            cx.wf(),
            forall|m: DispatchEmit| #[trigger] call_requires(emit, (m,)),
        ensures
            final(self).wf(),
            final(self).max_lease_duration == old(self).max_lease_duration,
            final(self).retry_config == old(self).retry_config,
            final(self).ignore_naks == old(self).ignore_naks,
            final(self).server_port == old(self).server_port,
            final(self).client_port == old(self).client_port,
            final(self).outgoing_options == old(self).outgoing_options,
            final(self).parameter_request_list == old(self).parameter_request_list,
            final(self).receive_packet_buffer == old(self).receive_packet_buffer,
            r is Err ==> *final(self) == *old(self),
            match old(self).state {
                ClientState::RouterSolicit(st) => if cx.now.millis < st.retry_at.millis {
                    r is Ok && *final(self) == *old(self)
                } else {
                    r is Ok ==> {
                        &&& final(self).state matches ClientState::RouterSolicit(ns)
                            && ns.retry_at == spec_backoff_at(
                            old(self).retry_config,
                            cx.now,
                            st.retry,
                        ) && ns.retry == spec_retry_next(st.retry)
                        &&& final(self).transaction_id == cx.rand_xid % 0x100_0000
                        &&& final(self).config_changed == old(self).config_changed
                        &&& exists|m: DispatchEmit|
                            #[trigger] call_ensures(emit, (m,), Ok::<(), E>(()))
                                && spec_is_rs_message(m, *cx)
                    }
                },
                ClientState::DhcpSolicit(st) => if cx.now.millis < st.retry_at.millis {
                    r is Ok && *final(self) == *old(self)
                } else {
                    r is Ok ==> {
                        &&& final(self).state matches ClientState::DhcpSolicit(ns)
                            && ns.client_id@ == st.client_id@ && ns.mtu == st.mtu && ns.prefix_info
                            == st.prefix_info && ns.retry_at == spec_backoff_at(
                            old(self).retry_config,
                            cx.now,
                            st.retry,
                        ) && ns.retry == spec_retry_next(st.retry)
                        &&& final(self).transaction_id == cx.rand_xid % 0x100_0000
                        &&& final(self).config_changed == old(self).config_changed
                        &&& exists|m: DispatchEmit|
                            #[trigger] call_ensures(emit, (m,), Ok::<(), E>(()))
                                && spec_is_dhcp_message(
                                m,
                                crate::ip::spec_unspecified(),
                                crate::ip::spec_all_dhcp_relay_agents_and_servers(),
                                old(self).client_port,
                                old(self).server_port,
                                spec_base_repr(*cx),
                            )
                    }
                },
                ClientState::DhcpRequesting(st) => if cx.now.millis < st.retry_at.millis {
                    r is Ok && *final(self) == *old(self)
                } else if st.retry >= old(self).retry_config.request_retries {
                    r is Ok && (final(self).state matches ClientState::RouterSolicit(ns)
                        && ns.retry_at.millis == 0 && ns.retry == 0 && final(self).transaction_id
                        == old(self).transaction_id && final(self).config_changed == old(
                        self,
                    ).config_changed)
                } else {
                    r is Ok ==> {
                        &&& final(self).state matches ClientState::DhcpRequesting(ns)
                            && ns.client_id@ == st.client_id@ && ns.iaid == st.iaid
                            && ns.server.address == st.server.address && ns.server.identifier@
                            == st.server.identifier@ && ns.requested_ip == st.requested_ip
                            && ns.mtu == st.mtu && ns.prefix_info == st.prefix_info && ns.retry_at
                            == spec_backoff_at(old(self).retry_config, cx.now, st.retry)
                            && ns.retry == spec_retry_next(st.retry)
                        &&& final(self).transaction_id == cx.rand_xid % 0x100_0000
                        &&& final(self).config_changed == old(self).config_changed
                        &&& exists|m: DispatchEmit|
                            #[trigger] call_ensures(emit, (m,), Ok::<(), E>(()))
                                && spec_is_dhcp_message(
                                m,
                                crate::ip::spec_unspecified(),
                                crate::ip::spec_all_dhcp_relay_agents_and_servers(),
                                old(self).client_port,
                                old(self).server_port,
                                spec_request_repr(
                                    *cx,
                                    st.server.identifier@,
                                    st.iaid,
                                    st.requested_ip@,
                                ),
                            )
                    }
                },
                ClientState::DhcpRenewing(st) => if st.expires_at.millis <= cx.now.millis {
                    r is Ok && (final(self).state matches ClientState::RouterSolicit(ns)
                        && ns.retry_at.millis == 0 && ns.retry == 0 && final(self).transaction_id
                        == old(self).transaction_id && final(self).config_changed == true)
                } else if cx.now.millis < st.renew_at.millis {
                    r is Ok && *final(self) == *old(self)
                } else {
                    r is Ok ==> {
                        &&& final(self).state matches ClientState::DhcpRenewing(ns) && ns.config
                            == st.config && ns.client_id@ == st.client_id@ && ns.iaid == st.iaid
                            && ns.expires_at == st.expires_at && ns.mtu == st.mtu && ns.prefix_info
                            == st.prefix_info && ns.renew_at == spec_renew_retry_at(
                            old(self).retry_config,
                            cx.now,
                            st.expires_at,
                        )
                        &&& final(self).transaction_id == cx.rand_xid % 0x100_0000
                        &&& final(self).config_changed == old(self).config_changed
                        &&& exists|m: DispatchEmit|
                            #[trigger] call_ensures(emit, (m,), Ok::<(), E>(()))
                                && spec_is_dhcp_message(
                                m,
                                st.config.address.address@,
                                st.config.server.address@,
                                old(self).client_port,
                                old(self).server_port,
                                spec_renew_repr(
                                    *cx,
                                    st.config.server.identifier@,
                                    st.iaid,
                                    st.config.address.address@,
                                ),
                            )
                    }
                },
            },
    {
        let ethernet_addr = cx.ethernet_addr();
        let next_transaction_id = cx.rand_xid % 0x100_0000;
        let mut to_send: Option<DispatchEmit> = None;
        let mut do_reset = false;
        match &self.state {
            ClientState::RouterSolicit(st) => {
                if cx.now.millis < st.retry_at.millis {
                    return Ok(());
                }
                let icmp_repr = Icmpv6Repr::Ndisc(
                    NdiscRepr::RouterSolicit { lladdr: Some(ethernet_addr) },
                );
                let payload_len = icmp_repr.buffer_len();
                let ipv6_repr = Ipv6Repr {
                    src_addr: Ipv6Address::unspecified(),
                    dst_addr: Ipv6Address::link_local_all_routers(),
                    next_header: IpProtocol::Icmpv6,
                    payload_len,
                    hop_limit: 64,
                };
                let m = DispatchEmit::Icmp(ipv6_repr, icmp_repr);
                proof {
                    assert(spec_is_rs_message(m, *cx));
                }
                to_send = Some(m);
            },
            ClientState::DhcpSolicit(st) => {
                if cx.now.millis < st.retry_at.millis {
                    return Ok(());
                }
                let dhcp_repr = build_base_repr(cx, &ethernet_addr, next_transaction_id);
                proof {
                    lemma_base_repr_len(dhcp_repr@);
                }
                let payload_len = 8 + dhcp_repr.buffer_len();
                let ipv6_repr = Ipv6Repr {
                    src_addr: Ipv6Address::unspecified(),
                    dst_addr: Ipv6Address::all_dhcp_relay_agents_and_servers(),
                    next_header: IpProtocol::Udp,
                    payload_len,
                    hop_limit: 64,
                };
                let udp_repr = UdpRepr { src_port: self.client_port, dst_port: self.server_port };
                let m = DispatchEmit::Dhcp(ipv6_repr, udp_repr, dhcp_repr);
                proof {
                    assert(spec_is_dhcp_message(
                        m,
                        crate::ip::spec_unspecified(),
                        crate::ip::spec_all_dhcp_relay_agents_and_servers(),
                        self.client_port,
                        self.server_port,
                        spec_base_repr(*cx),
                    ));
                }
                to_send = Some(m);
            },
            ClientState::DhcpRequesting(st) => {
                if cx.now.millis < st.retry_at.millis {
                    return Ok(());
                }
                if st.retry >= self.retry_config.request_retries {
                    do_reset = true;
                } else {
                    let mut dhcp_repr = build_base_repr(cx, &ethernet_addr, next_transaction_id);
                    dhcp_repr.message_type = MessageType::Request;
                    dhcp_repr.server_id = Some(crate::bytes::clone_bytes(&st.server.identifier));
                    dhcp_repr.ia_na = Some(build_request_ia(st.iaid, st.requested_ip));
                    proof {
                        lemma_base_repr_len(dhcp_repr@);
                    }
                    let payload_len = 8 + dhcp_repr.buffer_len();
                    let ipv6_repr = Ipv6Repr {
                        src_addr: Ipv6Address::unspecified(),
                        dst_addr: Ipv6Address::all_dhcp_relay_agents_and_servers(),
                        next_header: IpProtocol::Udp,
                        payload_len,
                        hop_limit: 64,
                    };
                    let udp_repr = UdpRepr {
                        src_port: self.client_port,
                        dst_port: self.server_port,
                    };
                    proof {
                        assert(dhcp_repr@ == spec_request_repr(
                            *cx,
                            st.server.identifier@,
                            st.iaid,
                            st.requested_ip@,
                        ));
                    }
                    let m = DispatchEmit::Dhcp(ipv6_repr, udp_repr, dhcp_repr);
                    proof {
                        assert(spec_is_dhcp_message(
                            m,
                            crate::ip::spec_unspecified(),
                            crate::ip::spec_all_dhcp_relay_agents_and_servers(),
                            self.client_port,
                            self.server_port,
                            spec_request_repr(*cx, st.server.identifier@, st.iaid, st.requested_ip@),
                        ));
                    }
                    to_send = Some(m);
                }
            },
            ClientState::DhcpRenewing(st) => {
                if st.expires_at.millis <= cx.now.millis {
                    do_reset = true;
                } else if cx.now.millis < st.renew_at.millis {
                    return Ok(());
                } else {
                    let mut dhcp_repr = build_base_repr(cx, &ethernet_addr, next_transaction_id);
                    dhcp_repr.message_type = MessageType::Renew;
                    dhcp_repr.server_id = Some(
                        crate::bytes::clone_bytes(&st.config.server.identifier),
                    );
                    dhcp_repr.ia_na = Some(
                        build_request_ia(st.iaid, st.config.address.address()),
                    );
                    proof {
                        lemma_base_repr_len(dhcp_repr@);
                    }
                    let payload_len = 8 + dhcp_repr.buffer_len();
                    let ipv6_repr = Ipv6Repr {
                        src_addr: st.config.address.address(),
                        dst_addr: st.config.server.address,
                        next_header: IpProtocol::Udp,
                        payload_len,
                        hop_limit: 64,
                    };
                    let udp_repr = UdpRepr {
                        src_port: self.client_port,
                        dst_port: self.server_port,
                    };
                    proof {
                        assert(dhcp_repr@ == spec_renew_repr(
                            *cx,
                            st.config.server.identifier@,
                            st.iaid,
                            st.config.address.address@,
                        ));
                    }
                    let m = DispatchEmit::Dhcp(ipv6_repr, udp_repr, dhcp_repr);
                    proof {
                        assert(spec_is_dhcp_message(
                            m,
                            st.config.address.address@,
                            st.config.server.address@,
                            self.client_port,
                            self.server_port,
                            spec_renew_repr(
                                *cx,
                                st.config.server.identifier@,
                                st.iaid,
                                st.config.address.address@,
                            ),
                        ));
                    }
                    to_send = Some(m);
                }
            },
        }
        if do_reset {
            self.reset();
            return Ok(());
        }
        let msg = match to_send {
            Some(m) => m,
            None => {
                proof {
                    assert(false);
                }
                return Ok(());
            },
        };
        let ghost gmsg = msg;
        let res = emit(msg);
        match res {
            Ok(u) => {
                proof {
                    assert(u == ());
                    assert(res == Ok::<(), E>(()));
                    assert(call_ensures(emit, (gmsg,), Ok::<(), E>(())));
                }
            },
            Err(e) => {
                return Err(e);
            },
        }
        self.transaction_id = next_transaction_id;
        match &mut self.state {
            ClientState::RouterSolicit(st) => {
                let capped: u16 = if st.retry < 16 {
                    st.retry
                } else {
                    16
                };
                let shift: u32 = (capped / 2) as u32;
                st.retry_at = cx.now.plus(self.retry_config.initial_request_timeout.shl(shift));
                st.retry = if st.retry < 0xffff {
                    st.retry + 1
                } else {
                    st.retry
                };
            },
            ClientState::DhcpSolicit(st) => {
                let capped: u16 = if st.retry < 16 {
                    st.retry
                } else {
                    16
                };
                let shift: u32 = (capped / 2) as u32;
                st.retry_at = cx.now.plus(self.retry_config.initial_request_timeout.shl(shift));
                st.retry = if st.retry < 0xffff {
                    st.retry + 1
                } else {
                    st.retry
                };
            },
            ClientState::DhcpRequesting(st) => {
                let capped: u16 = if st.retry < 16 {
                    st.retry
                } else {
                    16
                };
                let shift: u32 = (capped / 2) as u32;
                st.retry_at = cx.now.plus(self.retry_config.initial_request_timeout.shl(shift));
                st.retry = if st.retry < 0xffff {
                    st.retry + 1
                } else {
                    st.retry
                };
            },
            ClientState::DhcpRenewing(st) => {
                let remaining = st.expires_at.since(cx.now);
                st.renew_at = cx.now.plus(self.retry_config.min_renew_timeout.max(remaining.half()));
            },
        }
        Ok(())
    }
}

/// Build the base of every outgoing DHCPv6 message: the fresh masked
/// transaction id, the hardware address as client identifier, and an
/// option request for DNS servers.
fn build_base_repr(cx: &Context, ethernet_addr: &EthernetAddress, xid: u32) -> (r: Repr)
    requires
        cx.wf(),
        Some(HardwareAddress::Ethernet(*ethernet_addr)) == cx.hardware_addr,
        xid == cx.rand_xid % 0x100_0000,
    ensures
        r@ == spec_base_repr(*cx),
{
    let client_id = vstd::slice::slice_to_vec(ethernet_addr.octets.as_slice());
    let mut request_options: Vec<u16> = Vec::new();
    request_options.push(OPT_DNS_SERVERS);
    let r = Repr {
        message_type: MessageType::Solicit,
        transaction_id: xid,
        client_id: Some(client_id),
        server_id: None,
        elapsed_time: None,
        request_options: Some(request_options),
        ia_na: None,
        ia_ta: None,
        dns_servers: None,
        additional_options: Vec::new(),
    };
    proof {
        assert(crate::wire::view_opts(r.additional_options@) =~= Seq::<
            crate::wire::OptModel,
        >::empty());
        assert(r@.request_options.unwrap() =~= seq![OPT_DNS_SERVERS]);
        assert(r@.client_id.unwrap() =~= spec_eth_bytes(*cx));
        assert(r@ == spec_base_repr(*cx));
    }
    r
}

/// Build the IA_NA of a request or renewal: zeroed timers and one
/// address entry with the suggested lifetimes.
fn build_request_ia(iaid: u32, addr: Ipv6Address) -> (r: ReprIaNa)
    ensures
        r@ == spec_request_ia(iaid, addr@),
{
    let mut addresses: Vec<ReprIaAddr> = Vec::new();
    addresses.push(
        ReprIaAddr {
            addr,
            preferred_lifetime: 604800,
            valid_lifetime: 2592000,
            additional_options: Vec::new(),
        },
    );
    let r = ReprIaNa {
        iaid,
        t1: 0,
        t2: 0,
        addresses,
        status_code: None,
        additional_options: Vec::new(),
    };
    proof {
        assert(crate::wire::view_opts(r.additional_options@) =~= Seq::<
            crate::wire::OptModel,
        >::empty());
        assert(crate::wire::view_ia_addrs(r.addresses@) =~= spec_request_ia(iaid, addr@).addresses);
        assert(r@ == spec_request_ia(iaid, addr@));
    }
    r
}

/// Every message built on the base fits comfortably in memory, so its
/// emitted length is defined.
proof fn lemma_base_repr_len(m: ReprModel)
    requires
        m.client_id matches Some(c) && c.len() <= 128,
        m.server_id matches Some(s) ==> s.len() <= 128,
        m.elapsed_time is None,
        m.request_options == Some(seq![OPT_DNS_SERVERS]),
        m.ia_na matches Some(ia) ==> ia == spec_request_ia(ia.iaid, ia.addresses[0].addr)
            && ia.addresses[0].addr.len() == 16,
        m.ia_ta is None,
        m.dns_servers is None,
        m.additional_options.len() == 0,
    ensures
        crate::wire::spec_repr_bytes(m).len() <= 1000,
{
    crate::wire::lemma_repr_len_decomp(m);
    assert(crate::wire::spec_opts_wire_len(m.additional_options) == 0);
    match m.ia_na {
        Some(ia) => {
            crate::wire::lemma_single_addr_ia_len(ia);
        },
        None => {},
    }
}


/// A duration doubled `n` times is exactly its value times two to the
/// `n`, as long as that does not overflow.
pub proof fn lemma_dur_shl_exact(d: Duration, n: nat)
    requires
        d.millis * vstd::arithmetic::power2::pow2(n) <= u64::MAX,
    ensures
        spec_dur_shl(d, n).millis == d.millis * vstd::arithmetic::power2::pow2(n),
    decreases n,
{
    if n == 0 {
        assert(vstd::arithmetic::power2::pow2(0) == 1) by {
            vstd::arithmetic::power2::lemma2_to64();
        }
    } else {
        vstd::arithmetic::power2::lemma_pow2_unfold(n);
        vstd::arithmetic::power2::lemma_pow2_pos((n - 1) as nat);
        assert(d.millis * vstd::arithmetic::power2::pow2((n - 1) as nat) <= d.millis
            * vstd::arithmetic::power2::pow2(n)) by {
            vstd::arithmetic::power2::lemma_pow2_strictly_increases((n - 1) as nat, n);
            vstd::arithmetic::mul::lemma_mul_inequality(
                vstd::arithmetic::power2::pow2((n - 1) as nat) as int,
                vstd::arithmetic::power2::pow2(n) as int,
                d.millis as int,
            );
            vstd::arithmetic::mul::lemma_mul_is_commutative(
                d.millis as int,
                vstd::arithmetic::power2::pow2((n - 1) as nat) as int,
            );
            vstd::arithmetic::mul::lemma_mul_is_commutative(
                d.millis as int,
                vstd::arithmetic::power2::pow2(n) as int,
            );
        }
        lemma_dur_shl_exact(d, (n - 1) as nat);
        assert(spec_dur_shl(d, (n - 1) as nat).millis * 2 == d.millis
            * vstd::arithmetic::power2::pow2(n)) by {
            vstd::arithmetic::mul::lemma_mul_is_associative(
                d.millis as int,
                vstd::arithmetic::power2::pow2((n - 1) as nat) as int,
                2,
            );
        }
    }
}

/// The sum of the first `k` retransmission timeouts: the base doubles
/// every two sends.
pub open spec fn spec_backoff_sum(base: int, k: nat) -> int
    decreases k,
{
    if k == 0 {
        0
    } else {
        spec_backoff_sum(base, (k - 1) as nat) + base * vstd::arithmetic::power2::pow2(
            (((k - 1) as nat) / 2) as nat,
        )
    }
}

/// The instant of the k-th scheduled retransmission when every dispatch
/// happens exactly at its scheduled time and no reply arrives: dispatch
/// number `i` (counted from zero, sent at the i-th scheduled instant)
/// schedules the next at `now + timeout << min(i, 16)/2`.
pub open spec fn spec_retry_seq(cfg: RetryConfig, t0: Instant, k: nat) -> Instant
    decreases k,
{
    if k == 0 {
        t0
    } else {
        spec_backoff_at(cfg, spec_retry_seq(cfg, t0, (k - 1) as nat), ((k - 1) as nat) as u16)
    }
}

/// The exponential-backoff law: after `k` consecutive dispatches with
/// no inbound response, each made exactly at its scheduled instant, the
/// k-th scheduled instant is the start plus the sum of the doubling
/// timeouts — as long as neither the clock nor a timeout saturates.
pub proof fn lemma_backoff_schedule(cfg: RetryConfig, t0: Instant, k: nat)
    requires
        t0.wf(),
        k <= 16,
        t0.millis + spec_backoff_sum(cfg.initial_request_timeout.millis as int, k) <= i64::MAX,
        cfg.initial_request_timeout.millis * vstd::arithmetic::power2::pow2(8) <= u64::MAX,
    ensures
        spec_retry_seq(cfg, t0, k).millis == t0.millis + spec_backoff_sum(
            cfg.initial_request_timeout.millis as int,
            k,
        ),
        spec_retry_seq(cfg, t0, k).wf(),
    decreases k,
{
    let base = cfg.initial_request_timeout;
    if k == 0 {
    } else {
        let j = (k - 1) as nat;
        assert(base.millis * vstd::arithmetic::power2::pow2((j / 2) as nat) >= 0) by {
            vstd::arithmetic::power2::lemma_pow2_pos((j / 2) as nat);
        }
        assert(spec_backoff_sum(base.millis as int, j) <= spec_backoff_sum(base.millis as int, k));
        lemma_backoff_schedule(cfg, t0, j);
        let tj = spec_retry_seq(cfg, t0, j);
        assert(base.millis * vstd::arithmetic::power2::pow2((j / 2) as nat) <= base.millis
            * vstd::arithmetic::power2::pow2(8)) by {
            vstd::arithmetic::power2::lemma_pow2_strictly_increases((j / 2) as nat, 8);
            vstd::arithmetic::mul::lemma_mul_inequality(
                vstd::arithmetic::power2::pow2((j / 2) as nat) as int,
                vstd::arithmetic::power2::pow2(8) as int,
                base.millis as int,
            );
            vstd::arithmetic::mul::lemma_mul_is_commutative(
                base.millis as int,
                vstd::arithmetic::power2::pow2((j / 2) as nat) as int,
            );
            vstd::arithmetic::mul::lemma_mul_is_commutative(
                base.millis as int,
                vstd::arithmetic::power2::pow2(8) as int,
            );
        }
        lemma_dur_shl_exact(base, (j / 2) as nat);
        assert((if (j as u16) < 16 {
            j as u16
        } else {
            16u16
        }) == j as u16);
        assert(((j as u16) / 2) as nat == (j / 2) as nat);
        assert(spec_retry_seq(cfg, t0, k) == spec_backoff_at(cfg, tj, j as u16));
    }
}


} // verus!
