//! Network addresses, as far as the choice of candidates reads them.
use vstd::prelude::*;

verus! {

/// The address of a host.
#[derive(Debug, Clone, Copy, PartialEq, Eq, Structural)]
pub enum HostAddress {
    V4(u32),
    V6(u128),
}

/// A host and a port, with what IPv6 adds to them. Under IPv4 both additions are zero.
#[derive(Debug, Clone, Copy, PartialEq, Eq, Structural)]
pub struct SocketAddress {
    pub host: HostAddress,
    pub port: u16,
    pub flow_info: u32,
    pub scope_id: u32,
}

pub open spec fn ipv4(bits: u32, port: u16) -> SocketAddress {
    SocketAddress { host: HostAddress::V4(bits), port, flow_info: 0, scope_id: 0 }
}

/// An IPv4 address with a port.
pub fn ipv4_address(bits: u32, port: u16) -> (address: SocketAddress)
    ensures
        address == ipv4(bits, port),
{
    SocketAddress { host: HostAddress::V4(bits), port, flow_info: 0, scope_id: 0 }
}

/// The address that stands for no particular host: all zeros.
pub open spec fn unspecified(host: HostAddress) -> bool {
    host == HostAddress::V4(0) || host == HostAddress::V6(0)
}

/// An address of the machine itself: `127.x.y.z`, or `::1`.
pub open spec fn loopback(host: HostAddress) -> bool {
    match host {
        HostAddress::V4(bits) => bits / 0x100_0000 == 127,
        HostAddress::V6(bits) => bits == 1,
    }
}

/// The place of the first IPv4 address, or else of the first address.
pub open spec fn preferred(addresses: Seq<SocketAddress>, i: int) -> bool {
    &&& 0 <= i < addresses.len()
    &&& if exists|j: int| 0 <= j < addresses.len() && (#[trigger] addresses[j]).host is V4 {
        &&& addresses[i].host is V4
        &&& forall|j: int| 0 <= j < i ==> !((#[trigger] addresses[j]).host is V4)
    } else {
        i == 0
    }
}

impl HostAddress {
    pub fn is_unspecified(self) -> (r: bool)
        ensures
            r == unspecified(self),
    {
        match self {
            HostAddress::V4(bits) => bits == 0,
            HostAddress::V6(bits) => bits == 0,
        }
    }

    pub fn is_loopback(self) -> (r: bool)
        ensures
            r == loopback(self),
    {
        match self {
            HostAddress::V4(bits) => bits / 0x100_0000 == 127,
            HostAddress::V6(bits) => bits == 1,
        }
    }
}

/// Picks an IPv4 address where there is one, since the relay's own candidates are IPv4:
/// a lone IPv6 candidate would pair with none of them.
pub fn prefer_ipv4(addresses: &Vec<SocketAddress>) -> (r: Option<SocketAddress>)
    ensures
        r is None <==> addresses@.len() == 0,
        r matches Some(address) ==> exists|i: int|
            #[trigger] preferred(addresses@, i) && addresses@[i] == address,
{
    let mut i: usize = 0;
    while i < addresses.len()
        invariant
            i <= addresses@.len(),
            forall|j: int| 0 <= j < i ==> !((#[trigger] addresses@[j]).host is V4),
        decreases addresses.len() - i,
    {
        let address = addresses[i];
        if let HostAddress::V4(_) = address.host {
            assert(preferred(addresses@, i as int));
            return Some(address);
        }
        i = i + 1;
    }
    if addresses.len() == 0 {
        return None;
    }
    assert(preferred(addresses@, 0));
    Some(addresses[0])
}

/// The host of the local candidate. A relay on the same machine may leave the probed
/// address unspecified, and its own address stands in.
pub fn candidate_host(probed: HostAddress, relay: HostAddress) -> (host: HostAddress)
    ensures
        host == (if unspecified(probed) {
            relay
        } else {
            probed
        }),
{
    if probed.is_unspecified() {
        relay
    } else {
        probed
    }
}

/// A server-reflexive address makes a candidate of its own only where it differs from
/// the local one.
pub fn reflexive_candidate(
    local: SocketAddress,
    reflexive: Option<SocketAddress>,
) -> (r: Option<SocketAddress>)
    ensures
        r == (if reflexive == Some(local) {
            None
        } else {
            reflexive
        }),
{
    match reflexive {
        Some(address) => if address == local {
            None
        } else {
            Some(address)
        },
        None => None,
    }
}

// What holds of addresses.

/// The address that is picked is the first IPv4 address where there is one, and the first
/// address where there is none.
pub proof fn the_first_ipv4_address_is_picked(addresses: Seq<SocketAddress>, i: int)
    ensures
        preferred(addresses, i) <==> {
            &&& 0 <= i < addresses.len()
            &&& addresses[i].host is V4 || i == 0
            &&& forall|j: int| 0 <= j < i ==> (#[trigger] addresses[j]).host is V6
            &&& addresses[i].host is V6 ==> forall|j: int|
                0 <= j < addresses.len() ==> (#[trigger] addresses[j]).host is V6
        },
{
    if preferred(addresses, i) {
        if addresses[i].host is V4 {
            assert(exists|j: int| 0 <= j < addresses.len() && (#[trigger] addresses[j]).host is V4);
        }
    }
}

/// The machine itself is at 127.0.0.0 to 127.255.255.255 and at `::1`; no host in particular
/// is at zero.
pub proof fn local_addresses_are_known(v4: u32, v6: u128)
    ensures
        loopback(HostAddress::V4(v4)) <==> 0x7F00_0000 <= v4 <= 0x7FFF_FFFF,
        loopback(HostAddress::V6(v6)) <==> v6 == 1,
        unspecified(HostAddress::V4(v4)) <==> v4 == 0,
        unspecified(HostAddress::V6(v6)) <==> v6 == 0,
{
}

} // verus!
