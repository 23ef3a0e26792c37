//! Internet addresses and endpoints, as plain octets and port numbers.

use vstd::prelude::*;

verus! {

/// An internet address: the octets of an IPv4 or of an IPv6 address, in network order.
#[derive(Eq, Clone, Copy, Debug)]
pub enum IpAddress {
    /// An IPv4 address.
    Ipv4([u8; 4]),
    /// An IPv6 address.
    Ipv6([u8; 16]),
}

/// An address together with a port.
#[derive(Eq, Clone, Copy, Debug)]
pub struct IpEndpoint {
    pub addr: IpAddress,
    pub port: u16,
}

/// An endpoint to listen on. Without an address it stands for every local address; with port
/// zero it stands for no port at all.
#[derive(Eq, Clone, Copy, Debug)]
pub struct IpListenEndpoint {
    pub addr: Option<IpAddress>,
    pub port: u16,
}

impl IpAddress {
    /// Whether a datagram cannot be addressed to this address: an IPv4 address of the network
    /// `0.0.0.0/8`, or the IPv6 address `::`.
    pub open spec fn unspecified(self) -> bool {
        match self {
            IpAddress::Ipv4(octets) => octets@[0] == 0,
            IpAddress::Ipv6(octets) => forall|i: int| 0 <= i < 16 ==> octets@[i] == 0,
        }
    }
}

/// Whether two addresses of the same family hold the same octets.
fn octets_eq<const N: usize>(a: &[u8; N], b: &[u8; N]) -> (equal: bool)
    ensures
        equal == (*a == *b),
{
    let mut i: usize = 0;
    while i < N
        invariant
            i <= N,
            forall|j: int| 0 <= j < i ==> a[j] == b[j],
        decreases N - i,
    {
        if a[i] != b[i] {
            return false;
        }
        i += 1;
    }
    assert(*a =~= *b);
    true
}

impl PartialEq for IpAddress {
    fn eq(&self, other: &Self) -> (equal: bool) {
        match (self, other) {
            (IpAddress::Ipv4(a), IpAddress::Ipv4(b)) => octets_eq(a, b),
            (IpAddress::Ipv6(a), IpAddress::Ipv6(b)) => octets_eq(a, b),
            _ => false,
        }
    }
}

impl vstd::std_specs::cmp::PartialEqSpecImpl for IpAddress {
    open spec fn obeys_eq_spec() -> bool {
        true
    }

    open spec fn eq_spec(&self, other: &Self) -> bool {
        *self == *other
    }
}

impl PartialEq for IpEndpoint {
    fn eq(&self, other: &Self) -> (equal: bool) {
        self.addr == other.addr && self.port == other.port
    }
}

impl vstd::std_specs::cmp::PartialEqSpecImpl for IpEndpoint {
    open spec fn obeys_eq_spec() -> bool {
        true
    }

    open spec fn eq_spec(&self, other: &Self) -> bool {
        *self == *other
    }
}

impl PartialEq for IpListenEndpoint {
    fn eq(&self, other: &Self) -> (equal: bool) {
        let same_addr = match (&self.addr, &other.addr) {
            (Some(a), Some(b)) => *a == *b,
            (None, None) => true,
            _ => false,
        };
        same_addr && self.port == other.port
    }
}

impl vstd::std_specs::cmp::PartialEqSpecImpl for IpListenEndpoint {
    open spec fn obeys_eq_spec() -> bool {
        true
    }

    open spec fn eq_spec(&self, other: &Self) -> bool {
        *self == *other
    }
}

/// A pair of an address and a port is an endpoint.
impl From<(IpAddress, u16)> for IpEndpoint {
    fn from(pair: (IpAddress, u16)) -> (endpoint: Self) {
        IpEndpoint { addr: pair.0, port: pair.1 }
    }
}

impl vstd::std_specs::convert::FromSpecImpl<(IpAddress, u16)> for IpEndpoint {
    open spec fn obeys_from_spec() -> bool {
        true
    }

    open spec fn from_spec(pair: (IpAddress, u16)) -> Self {
        IpEndpoint { addr: pair.0, port: pair.1 }
    }
}

/// A bare port listens on every local address.
impl From<u16> for IpListenEndpoint {
    fn from(port: u16) -> (endpoint: Self) {
        IpListenEndpoint { addr: None, port }
    }
}

impl vstd::std_specs::convert::FromSpecImpl<u16> for IpListenEndpoint {
    open spec fn obeys_from_spec() -> bool {
        true
    }

    open spec fn from_spec(port: u16) -> Self {
        IpListenEndpoint { addr: None, port }
    }
}

/// An endpoint listens on its own address, whatever that address is.
impl From<IpEndpoint> for IpListenEndpoint {
    fn from(endpoint: IpEndpoint) -> (listen: Self) {
        IpListenEndpoint { addr: Some(endpoint.addr), port: endpoint.port }
    }
}

impl vstd::std_specs::convert::FromSpecImpl<IpEndpoint> for IpListenEndpoint {
    open spec fn obeys_from_spec() -> bool {
        true
    }

    open spec fn from_spec(endpoint: IpEndpoint) -> Self {
        IpListenEndpoint { addr: Some(endpoint.addr), port: endpoint.port }
    }
}

/// A pair of an address and a port listens on that address.
impl From<(IpAddress, u16)> for IpListenEndpoint {
    fn from(pair: (IpAddress, u16)) -> (endpoint: Self) {
        IpListenEndpoint { addr: Some(pair.0), port: pair.1 }
    }
}

impl vstd::std_specs::convert::FromSpecImpl<(IpAddress, u16)> for IpListenEndpoint {
    open spec fn obeys_from_spec() -> bool {
        true
    }

    open spec fn from_spec(pair: (IpAddress, u16)) -> Self {
        IpListenEndpoint { addr: Some(pair.0), port: pair.1 }
    }
}

} // verus!
