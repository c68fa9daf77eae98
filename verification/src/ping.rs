use vstd::prelude::*;

use crate::addr::{IpAddress, SocketAddress};
use crate::error::{is_foreign_packet, Error};
use crate::echo::EchoReply;
use crate::request::{generated_payload, resolve_ping_request, resolves_to, PingRequest, ResolvedPingRequest, DEFAULT_PAYLOAD_SIZE};
use crate::socket::SocketType;

verus! {

/// Default time to wait for a reply: two seconds, in nanoseconds.
pub const DEFAULT_TIMEOUT_NANOS: u128 = 2_000_000_000;

/// A reply together with its round-trip time.
#[derive(Clone, Debug)]
pub struct PingResult {
    pub reply: EchoReply,
    /// Round-trip time in nanoseconds.
    pub rtt: u128,
    pub socket_type: SocketType,
}

/// The settings of one pinger: where it sends, how it identifies its
/// requests and what it waits for.
#[derive(Clone, Copy, Debug)]
pub struct PingerConfig {
    pub target: SocketAddress,
    pub source: Option<SocketAddress>,
    pub ident: u16,
    /// Number of generated payload bytes for requests without custom bytes.
    pub size: usize,
    /// Time to wait for each reply, in nanoseconds.
    pub timeout: u128,
    /// Outgoing IPv4 TTL or IPv6 unicast hop limit, once one has been set.
    pub ttl: Option<u32>,
    pub socket_type: SocketType,
}

/// Whether `reply` answers `request` for a pinger with identifier `ident` on a
/// socket of type `socket_type`: the sequence numbers agree; on a raw socket
/// the identifiers agree too (a datagram socket rewrites them); and where the
/// request asks for it, the payload is echoed exactly.
pub open spec fn answers(
    socket_type: SocketType,
    ident: u16,
    reply: EchoReply,
    request: (u16, Seq<u8>, bool),
) -> bool {
    &&& reply.sequence == request.0
    &&& (socket_type == SocketType::Raw ==> reply.identifier == ident)
    &&& (request.2 ==> reply.payload@ == request.1)
}

/// What the receiver does with one decoded packet.
#[derive(Debug)]
pub enum RecvStep {
    /// The reply answers the request: hand it out.
    Deliver(EchoReply),
    /// Not ours: drop it and keep waiting.
    Skip,
    /// Stop waiting with this error.
    Fail(Error),
}

impl PingerConfig {
    /// The settings of a new pinger: no source address, the default payload
    /// size and timeout, no TTL.
    pub fn new(target: SocketAddress, socket_type: SocketType, ident: u16) -> (c: Self)
        ensures
            c == (PingerConfig {
                target,
                source: None,
                ident,
                size: DEFAULT_PAYLOAD_SIZE,
                timeout: DEFAULT_TIMEOUT_NANOS,
                ttl: None,
                socket_type,
            }),
    {
        PingerConfig {
            target,
            source: None,
            ident,
            size: DEFAULT_PAYLOAD_SIZE,
            timeout: DEFAULT_TIMEOUT_NANOS,
            ttl: None,
            socket_type,
        }
    }

    /// Sets the identifier of the requests.
    pub fn set_ident(&mut self, ident: u16)
        ensures
            *final(self) == (PingerConfig { ident, ..*old(self) }),
    {
        self.ident = ident;
    }

    /// Sets the number of generated payload bytes.
    pub fn set_size(&mut self, size: usize)
        ensures
            *final(self) == (PingerConfig { size, ..*old(self) }),
    {
        self.size = size;
    }

    /// Sets the time to wait for each reply, in nanoseconds.
    pub fn set_timeout(&mut self, timeout: u128)
        ensures
            *final(self) == (PingerConfig { timeout, ..*old(self) }),
    {
        self.timeout = timeout;
    }

    /// Records the TTL or hop limit once the socket has taken it.
    pub fn set_ttl(&mut self, ttl: u32)
        ensures
            *final(self) == (PingerConfig { ttl: Some(ttl), ..*old(self) }),
    {
        self.ttl = Some(ttl);
    }

    /// Records the source address once the socket is bound to it.
    pub fn set_source(&mut self, source: SocketAddress)
        ensures
            *final(self) == (PingerConfig { source: Some(source), ..*old(self) }),
    {
        self.source = Some(source);
    }

    /// Records the socket type once a socket of that type is in place.
    pub fn set_socket_type(&mut self, socket_type: SocketType)
        ensures
            *final(self) == (PingerConfig { socket_type, ..*old(self) }),
    {
        self.socket_type = socket_type;
    }

    /// Settles the payload of `request` with this pinger's identifier and
    /// default payload size.
    pub fn resolve_request(&self, request: PingRequest) -> (r: ResolvedPingRequest)
        ensures
            resolves_to(self.ident, self.size, request@, r.parts()),
            r.sequence == request@.0,
            request@.1 is None ==> r.payload@.len() == self.size && r.payload@ == generated_payload(
                self.ident,
                request@.0,
                self.size,
            ) && r.match_payload == (self.size > 0),
            request@.1 matches Some(p) ==> r.payload@ == p && r.match_payload,
    {
        resolve_ping_request(self.ident, self.size, request)
    }

    /// Whether `reply` answers `request`.
    pub fn reply_matches(&self, reply: &EchoReply, request: &ResolvedPingRequest) -> (res: bool)
        ensures
            res == answers(self.socket_type, self.ident, *reply, request.parts()),
            reply.sequence != request.sequence ==> !res,
            self.socket_type == SocketType::Raw && reply.identifier != self.ident ==> !res,
            request.match_payload && reply.payload@ != request.payload@ ==> !res,
            reply.sequence == request.sequence && (self.socket_type == SocketType::Dgram
                || reply.identifier == self.ident) && (!request.match_payload || reply.payload@
                == request.payload@) ==> res,
    {
        broadcast use vstd::laws_eq::group_laws_eq, vstd::std_specs::vec::lemma_vec_obeys_view_eq;

        if reply.sequence != request.sequence {
            return false;
        }
        if self.socket_type == SocketType::Raw && reply.identifier != self.ident {
            return false;
        }
        if !request.match_payload {
            return true;
        }
        proof {
            assert(vstd::laws_eq::obeys_view_eq::<Vec<u8>>());
            reveal(vstd::laws_eq::obeys_view_eq);
        }
        reply.payload == request.payload
    }

    /// The address handed to the decoder with a received packet, given the
    /// sender the socket reported: on a raw IPv4 socket the target (the
    /// decoder reads the sender from the IP header); otherwise the reported
    /// sender, or the target where none was reported.
    pub fn reply_source(&self, received: Option<IpAddress>) -> (res: IpAddress)
        ensures
            res == if self.socket_type == SocketType::Raw && !(self.target.ip_spec() is V6) {
                self.target.ip_spec()
            } else {
                match received {
                    Some(a) => a,
                    None => self.target.ip_spec(),
                }
            },
    {
        let target = self.target.ip();
        let source = match received {
            Some(a) => a,
            None => target,
        };
        match self.socket_type {
            SocketType::Raw => {
                if target.is_ipv6() {
                    source
                } else {
                    target
                }
            },
            SocketType::Dgram => source,
        }
    }

    /// What to do with one decoded packet while waiting for an answer to
    /// `request`.
    pub fn classify_reply(&self, request: &ResolvedPingRequest, decoded: Result<EchoReply, Error>) -> (step: RecvStep)
        ensures
            match decoded {
                Ok(reply) => if answers(self.socket_type, self.ident, reply, request.parts()) {
                    step == RecvStep::Deliver(reply)
                } else {
                    step is Skip
                },
                Err(e) => if is_foreign_packet(e) {
                    step is Skip
                } else {
                    step == RecvStep::Fail(e)
                },
            },
    {
        match decoded {
            Ok(reply) => {
                if self.reply_matches(&reply, request) {
                    RecvStep::Deliver(reply)
                } else {
                    RecvStep::Skip
                }
            },
            Err(e) => {
                let foreign = match &e {
                    Error::InvalidPacket => true,
                    Error::NotEchoReply => true,
                    Error::NotV6EchoReply => true,
                    Error::OtherICMP => true,
                    Error::UnknownProtocol => true,
                    _ => false,
                };
                if foreign {
                    RecvStep::Skip
                } else {
                    RecvStep::Fail(e)
                }
            },
        }
    }
}

/// The outcome of handing a request of `packet_len` bytes to the socket,
/// which reports `sent` bytes sent: anything short of the whole packet is an
/// error.
pub fn check_sent_size(sent: usize, packet_len: usize) -> (r: Result<(), Error>)
    ensures
        r is Ok <==> sent == packet_len,
        r is Err ==> r->Err_0 is InvalidSize,
{
    if sent != packet_len {
        Err(Error::InvalidSize)
    } else {
        Ok(())
    }
}


/// A reply that echoes a resolved request (its sequence number, the
/// pinger's identifier and the bytes that were sent) answers that request,
/// whatever the socket type; a reply with another sequence number never does.
pub proof fn lemma_echo_answers(
    socket_type: SocketType,
    ident: u16,
    size: usize,
    request: (u16, Option<Seq<u8>>),
    resolved: (u16, Seq<u8>, bool),
    reply: EchoReply,
)
    requires
        resolves_to(ident, size, request, resolved),
    ensures
        reply.sequence == request.0 && reply.identifier == ident && reply.payload@ == resolved.1
            ==> answers(socket_type, ident, reply, resolved),
        reply.sequence != request.0 ==> !answers(socket_type, ident, reply, resolved),
        socket_type == SocketType::Raw && reply.identifier != ident ==> !answers(
            socket_type,
            ident,
            reply,
            resolved,
        ),
        socket_type == SocketType::Dgram && reply.sequence == request.0 && reply.payload@
            == resolved.1 ==> answers(socket_type, ident, reply, resolved),
{
}

/// What the collector of replies does after one wait.
#[derive(Debug)]
pub enum CollectStep {
    /// A reply arrived: keep it and wait again.
    Keep(PingResult),
    /// The wait timed out: collection ends with the replies kept so far.
    Stop,
    /// Receiving failed: collection ends with this error.
    Fail(Error),
}

/// The step after one wait while collecting every reply to a request;
/// `outcome` is `None` when the wait timed out. A timeout is no error here.
pub fn collect_step(outcome: Option<Result<EchoReply, Error>>, rtt: u128, socket_type: SocketType) -> (step: CollectStep)
    ensures
        outcome is None ==> step is Stop,
        outcome matches Some(Err(e)) ==> step == CollectStep::Fail(e),
        outcome matches Some(Ok(reply)) ==> step == CollectStep::Keep(
            PingResult { reply, rtt, socket_type },
        ),
{
    match outcome {
        None => CollectStep::Stop,
        Some(Err(e)) => CollectStep::Fail(e),
        Some(Ok(reply)) => CollectStep::Keep(PingResult { reply, rtt, socket_type }),
    }
}

/// The result of a single ping after its one wait; `outcome` is `None` when
/// the wait timed out, which is the error `Timeout`.
pub fn ping_outcome(outcome: Option<Result<EchoReply, Error>>, rtt: u128, socket_type: SocketType) -> (r: Result<PingResult, Error>)
    ensures
        outcome is None ==> r matches Err(Error::Timeout),
        outcome matches Some(Err(e)) ==> r == Err::<PingResult, Error>(e),
        outcome matches Some(Ok(reply)) ==> r == Ok::<PingResult, Error>(
            PingResult { reply, rtt, socket_type },
        ),
{
    match outcome {
        None => Err(Error::Timeout),
        Some(Err(e)) => Err(e),
        Some(Ok(reply)) => Ok(PingResult { reply, rtt, socket_type }),
    }
}

/// How long collection may still wait, `elapsed` nanoseconds after the
/// request was sent with a timeout of `timeout` nanoseconds: the rest of the
/// timeout, or nothing once it has passed.
pub fn time_left(timeout: u128, elapsed: u128) -> (r: Option<u128>)
    ensures
        r == if elapsed <= timeout {
            Some((timeout - elapsed) as u128)
        } else {
            None::<u128>
        },
{
    if elapsed <= timeout {
        Some(timeout - elapsed)
    } else {
        None
    }
}
} // verus!
