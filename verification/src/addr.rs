use vstd::prelude::*;

verus! {

/// An IP address, by the bits of its standard form: 32 for IPv4, 128 for
/// IPv6, most significant first.
#[derive(Clone, Copy, Debug, PartialEq, Eq, Structural)]
pub enum IpAddress {
    V4(u32),
    V6(u128),
}

impl IpAddress {
    /// Whether this is an IPv6 address.
    pub fn is_ipv6(&self) -> (res: bool)
        ensures
            res == (*self is V6),
    {
        match self {
            IpAddress::V4(_) => false,
            IpAddress::V6(_) => true,
        }
    }
}

/// A socket address: an IP address with a port and, for IPv6, the flow
/// information and scope identifier.
#[derive(Clone, Copy, Debug, PartialEq, Eq, Structural)]
pub enum SocketAddress {
    V4 { ip: u32, port: u16 },
    V6 { ip: u128, port: u16, flowinfo: u32, scope_id: u32 },
}

impl SocketAddress {
    pub open spec fn ip_spec(self) -> IpAddress {
        match self {
            SocketAddress::V4 { ip, .. } => IpAddress::V4(ip),
            SocketAddress::V6 { ip, .. } => IpAddress::V6(ip),
        }
    }

    pub open spec fn port_spec(self) -> u16 {
        match self {
            SocketAddress::V4 { port, .. } => port,
            SocketAddress::V6 { port, .. } => port,
        }
    }

    /// The IP address.
    pub fn ip(&self) -> (res: IpAddress)
        ensures
            res == self.ip_spec(),
    {
        match self {
            SocketAddress::V4 { ip, .. } => IpAddress::V4(*ip),
            SocketAddress::V6 { ip, .. } => IpAddress::V6(*ip),
        }
    }
}

/// `addr` with its port set to 0; everything else, the IPv6 scope
/// identifier included, is kept.
pub open spec fn without_port(addr: SocketAddress) -> SocketAddress {
    match addr {
        SocketAddress::V4 { ip, .. } => SocketAddress::V4 { ip, port: 0 },
        SocketAddress::V6 { ip, flowinfo, scope_id, .. } => SocketAddress::V6 {
            ip,
            port: 0,
            flowinfo,
            scope_id,
        },
    }
}

/// Clears the port of a socket address (ICMP has no ports).
pub fn socket_addr_without_port(addr: SocketAddress) -> (res: SocketAddress)
    ensures
        res == without_port(addr),
{
    match addr {
        SocketAddress::V4 { ip, .. } => SocketAddress::V4 { ip, port: 0 },
        SocketAddress::V6 { ip, flowinfo, scope_id, .. } => SocketAddress::V6 {
            ip,
            port: 0,
            flowinfo,
            scope_id,
        },
    }
}

/// Clearing the port keeps the IP address and yields port 0, and doing it
/// twice is the same as doing it once.
pub proof fn lemma_without_port(addr: SocketAddress)
    ensures
        without_port(addr).ip_spec() == addr.ip_spec(),
        without_port(addr).port_spec() == 0,
        without_port(without_port(addr)) == without_port(addr),
        addr is V6 ==> without_port(addr)->scope_id == addr->scope_id
            && without_port(addr)->flowinfo == addr->flowinfo,
{
}

} // verus!
