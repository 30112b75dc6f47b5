//! IPv6 addresses and CIDR blocks as plain values, with just the
//! predicates the DHCPv6 engine consumes.

use vstd::prelude::*;

verus! {

/// A 16-octet IPv6 address.
#[derive(Clone, Copy, Debug, PartialEq, Eq)]
pub struct Ipv6Address {
    pub octets: [u8; 16],
}

impl View for Ipv6Address {
    type V = Seq<u8>;

    open spec fn view(&self) -> Seq<u8> {
        self.octets@
    }
}

/// The all-zero (unspecified) address.
pub open spec fn spec_unspecified() -> Seq<u8> {
    Seq::new(16, |i: int| 0u8)
}

/// The link-local all-routers multicast address `ff02::2`.
pub open spec fn spec_link_local_all_routers() -> Seq<u8> {
    Seq::new(
        16,
        |i: int|
            if i == 0 {
                0xffu8
            } else if i == 1 {
                0x02u8
            } else if i == 15 {
                0x02u8
            } else {
                0u8
            },
    )
}

/// The All_DHCP_Relay_Agents_and_Servers multicast address `ff02::1:2`.
pub open spec fn spec_all_dhcp_relay_agents_and_servers() -> Seq<u8> {
    Seq::new(
        16,
        |i: int|
            if i == 0 {
                0xffu8
            } else if i == 1 {
                0x02u8
            } else if i == 13 {
                0x01u8
            } else if i == 15 {
                0x02u8
            } else {
                0u8
            },
    )
}

impl Ipv6Address {
    /// An address is the unspecified address `::` when every octet is zero.
    pub open spec fn spec_is_unspecified(self) -> bool {
        forall|i: int| 0 <= i < 16 ==> self@[i] == 0u8
    }

    /// An address is multicast when its first octet is `0xff`.
    pub open spec fn spec_is_multicast(self) -> bool {
        self@[0] == 0xffu8
    }

    /// An address is unicast when it is neither unspecified nor multicast.
    pub open spec fn spec_is_unicast(self) -> bool {
        !self.spec_is_unspecified() && !self.spec_is_multicast()
    }

    /// Construct an address from its first 16 bytes.
    pub fn from_bytes(data: &[u8]) -> (r: Ipv6Address)
        requires
            data@.len() >= 16,
        ensures
            r@ == data@.subrange(0, 16),
    {
        let mut octets: [u8; 16] = [0u8; 16];
        let mut i: usize = 0;
        while i < 16
            invariant
                i <= 16,
                data@.len() >= 16,
                octets@.len() == 16,
                forall|j: int| 0 <= j < i ==> octets@[j] == data@[j],
            decreases 16 - i,
        {
            octets[i] = data[i];
            i = i + 1;
        }
        let r = Ipv6Address { octets };
        assert(r@ =~= data@.subrange(0, 16));
        r
    }

    /// Construct an address directly from its octets.
    pub fn new(octets: [u8; 16]) -> (r: Ipv6Address)
        ensures
            r@ == octets@,
    {
        Ipv6Address { octets }
    }

    /// The unspecified address `::`.
    pub fn unspecified() -> (r: Ipv6Address)
        ensures
            r@ == spec_unspecified(),
            r.spec_is_unspecified(),
    {
        let r = Ipv6Address { octets: [0u8; 16] };
        assert(r@ =~= spec_unspecified());
        r
    }

    /// The link-local all-routers multicast address `ff02::2`.
    pub fn link_local_all_routers() -> (r: Ipv6Address)
        ensures
            r@ == spec_link_local_all_routers(),
            r.spec_is_multicast(),
    {
        let mut octets: [u8; 16] = [0u8; 16];
        octets[0] = 0xff;
        octets[1] = 0x02;
        octets[15] = 0x02;
        let r = Ipv6Address { octets };
        assert(r@ =~= spec_link_local_all_routers());
        r
    }

    /// The All_DHCP_Relay_Agents_and_Servers multicast address `ff02::1:2`.
    pub fn all_dhcp_relay_agents_and_servers() -> (r: Ipv6Address)
        ensures
            r@ == spec_all_dhcp_relay_agents_and_servers(),
            r.spec_is_multicast(),
    {
        let mut octets: [u8; 16] = [0u8; 16];
        octets[0] = 0xff;
        octets[1] = 0x02;
        octets[13] = 0x01;
        octets[15] = 0x02;
        let r = Ipv6Address { octets };
        assert(r@ =~= spec_all_dhcp_relay_agents_and_servers());
        r
    }

    /// Whether the address is the unspecified address `::`.
    pub fn is_unspecified(&self) -> (r: bool)
        ensures
            r == self.spec_is_unspecified(),
    {
        let mut i: usize = 0;
        while i < 16
            invariant
                i <= 16,
                forall|j: int| 0 <= j < i ==> self@[j] == 0u8,
            decreases 16 - i,
        {
            if self.octets[i] != 0 {
                assert(self@[i as int] != 0u8);
                return false;
            }
            i = i + 1;
        }
        true
    }

    /// Whether the address is a multicast address.
    pub fn is_multicast(&self) -> (r: bool)
        ensures
            r == self.spec_is_multicast(),
    {
        self.octets[0] == 0xff
    }

    /// Whether the address is a unicast address.
    pub fn is_unicast(&self) -> (r: bool)
        ensures
            r == self.spec_is_unicast(),
    {
        !self.is_unspecified() && !self.is_multicast()
    }

    /// Bytewise equality of two addresses.
    pub fn same_as(&self, other: &Ipv6Address) -> (r: bool)
        ensures
            r == (self@ == other@),
    {
        let mut i: usize = 0;
        while i < 16
            invariant
                i <= 16,
                forall|j: int| 0 <= j < i ==> self@[j] == other@[j],
            decreases 16 - i,
        {
            if self.octets[i] != other.octets[i] {
                assert(self@[i as int] != other@[i as int]);
                return false;
            }
            i = i + 1;
        }
        assert(self@ =~= other@);
        true
    }
}

/// An IPv6 address together with a prefix length, denoting a CIDR block.
#[derive(Clone, Copy, Debug, PartialEq, Eq)]
pub struct Ipv6Cidr {
    pub address: Ipv6Address,
    pub prefix_len: u8,
}

impl Ipv6Cidr {
    /// Pair an address with a prefix length.
    pub fn new(address: Ipv6Address, prefix_len: u8) -> (r: Ipv6Cidr)
        ensures
            r.address == address,
            r.prefix_len == prefix_len,
    {
        Ipv6Cidr { address, prefix_len }
    }

    /// The address part of the block.
    pub fn address(&self) -> (r: Ipv6Address)
        ensures
            r == self.address,
    {
        self.address
    }
}

} // verus!
