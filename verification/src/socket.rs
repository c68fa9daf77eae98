use vstd::prelude::*;

verus! {

/// The kind of ICMP socket a pinger uses.
#[derive(Clone, Copy, Debug, PartialEq, Eq, Structural)]
pub enum SocketType {
    /// A raw socket: replies carry the IP header and every echo reply on the host.
    Raw,
    /// A datagram ICMP socket: the kernel filters replies and rewrites the identifier.
    Dgram,
}

} // verus!
