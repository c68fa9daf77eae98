use vstd::prelude::*;

use crate::addr::IpAddress;
use crate::error::Error;
use crate::packet::{
    be16, checksum, fold_carries, word_sum, echo_message, echo_reply_fields, echo_reply_type, echo_request_type,
    internet_checksum, ipv4_header, IpV4Packet, ECHO_HEADER_SIZE,
};

verus! {

/// A decoded ICMP echo reply.
#[derive(Clone, Debug)]
pub struct EchoReply {
    /// The IPv4 time-to-live of the reply, where the packet carries it.
    pub ttl: Option<u8>,
    /// The host that sent the reply.
    pub source: IpAddress,
    /// The echoed sequence number.
    pub sequence: u16,
    /// The echoed identifier.
    pub identifier: u16,
    /// The number of payload bytes.
    pub payload_len: usize,
    /// The echoed payload.
    pub payload: Vec<u8>,
    /// Deprecated: the same as `payload_len`.
    pub size: usize,
}

/// The longest ICMP message that fits in one packet: an IPv4 datagram of at
/// most 65535 bytes less its twenty-byte header, or an IPv6 payload of at
/// most 65535 bytes.
pub open spec fn max_message_len(v6: bool) -> nat {
    if v6 {
        65535
    } else {
        65515
    }
}

/// The bytes of an echo request. ICMPv4 carries its checksum; for ICMPv6 the
/// checksum covers a pseudo-header with the source address, which the
/// kernel fills in, so the field is left zero.
pub open spec fn echo_request_bytes(v6: bool, ident: u16, sequence: u16, payload: Seq<u8>) -> Seq<u8> {
    if v6 {
        echo_message(echo_request_type(true), 0, ident, sequence, payload)
    } else {
        echo_message(
            echo_request_type(false),
            internet_checksum(echo_message(echo_request_type(false), 0, ident, sequence, payload)),
            ident,
            sequence,
            payload,
        )
    }
}

/// An ICMP echo request to `target` with an identifier and a sequence number.
#[derive(Clone, Copy, Debug)]
pub struct EchoRequest {
    pub target: IpAddress,
    pub ident: u16,
    pub sequence: u16,
}

fn push_u16(v: &mut Vec<u8>, x: u16)
    ensures
        final(v)@ == old(v)@ + seq![(x / 256) as u8, (x % 256) as u8],
{
    v.push((x / 256) as u8);
    v.push((x % 256) as u8);
}

impl EchoRequest {
    pub fn new(target: IpAddress, ident: u16, sequence: u16) -> (r: Self)
        ensures
            r == (EchoRequest { target, ident, sequence }),
    {
        EchoRequest { target, ident, sequence }
    }

    /// Encodes the request with `payload`; a message too long for one packet
    /// is refused.
    pub fn encode_with_payload(&self, payload: &[u8]) -> (r: Result<Vec<u8>, Error>)
        ensures
            ECHO_HEADER_SIZE + payload@.len() > max_message_len(self.target is V6) ==> r matches Err(
                Error::InvalidSize,
            ),
            ECHO_HEADER_SIZE + payload@.len() <= max_message_len(self.target is V6) ==> (r matches Ok(m)
                && m@ == echo_request_bytes(self.target is V6, self.ident, self.sequence, payload@)),
            r matches Ok(m) ==> m@.len() == ECHO_HEADER_SIZE + payload@.len() && m@.skip(
                ECHO_HEADER_SIZE as int,
            ) == payload@,
            !(self.target is V6) ==> (r matches Ok(m) ==> word_sum(m@) % 65535 == 0 && word_sum(m@)
                > 0),
    {
        let v6 = self.target.is_ipv6();
        let max: usize = if v6 {
            65535
        } else {
            65515
        };
        if payload.len() > max - ECHO_HEADER_SIZE {
            return Err(Error::InvalidSize);
        }
        let typ: u8 = if v6 {
            128
        } else {
            8
        };
        let mut m: Vec<u8> = Vec::new();
        m.push(typ);
        m.push(0u8);
        m.push(0u8);
        m.push(0u8);
        push_u16(&mut m, self.ident);
        push_u16(&mut m, self.sequence);
        let mut i: usize = 0;
        while i < payload.len()
            invariant
                i <= payload@.len(),
                m@.len() == ECHO_HEADER_SIZE + i,
                m@ == echo_message(typ, 0, self.ident, self.sequence, payload@.take(i as int)),
            decreases payload.len() - i,
        {
            m.push(payload[i]);
            i = i + 1;
            assert(m@ =~= echo_message(typ, 0, self.ident, self.sequence, payload@.take(i as int)));
        }
        assert(payload@.take(i as int) =~= payload@);
        proof {
            let mm = echo_message(typ, 0, self.ident, self.sequence, payload@);
            assert(mm.skip(8) =~= payload@);
        }
        if !v6 {
            proof {
                crate::packet::lemma_checksum_verifies(typ, self.ident, self.sequence, payload@);
            }
            let c = checksum(m.as_slice());
            m.set(2, (c / 256) as u8);
            m.set(3, (c % 256) as u8);
            assert(m@ =~= echo_message(typ, c, self.ident, self.sequence, payload@));
        }
        Ok(m)
    }
}

/// `r` is the reply that `fields` describe, from `source` with `ttl`, or the
/// error that `fields` hold.
pub open spec fn reply_from(
    fields: Result<(u16, u16, Seq<u8>), Error>,
    source: IpAddress,
    ttl: Option<u8>,
    r: Result<EchoReply, Error>,
) -> bool {
    match fields {
        Ok(f) => r matches Ok(rep) && rep.identifier == f.0 && rep.sequence == f.1
            && rep.payload@ == f.2 && rep.payload_len == f.2.len() && rep.size == f.2.len()
            && rep.source == source && rep.ttl == ttl,
        Err(e) => r == Err::<EchoReply, Error>(e),
    }
}

/// Reads the ICMP message that starts at `start`.
fn read_echo_reply(v6: bool, buf: &[u8], start: usize, source: IpAddress, ttl: Option<u8>) -> (r:
    Result<EchoReply, Error>)
    requires
        start <= buf@.len(),
    ensures
        reply_from(echo_reply_fields(v6, buf@.skip(start as int)), source, ttl, r),
{
    let ghost msg = buf@.skip(start as int);
    if buf.len() - start < ECHO_HEADER_SIZE {
        return Err(Error::InvalidPacket);
    }
    let reply_type: u8 = if v6 {
        129
    } else {
        0
    };
    let request_type: u8 = if v6 {
        128
    } else {
        8
    };
    assert(msg[0] == buf@[start as int] && msg[1] == buf@[start + 1]);
    if buf[start] == reply_type && buf[start + 1] == 0 {
        let identifier = (buf[start + 4] as u16) * 256 + buf[start + 5] as u16;
        let sequence = (buf[start + 6] as u16) * 256 + buf[start + 7] as u16;
        assert(identifier == be16(msg[4], msg[5]));
        assert(sequence == be16(msg[6], msg[7]));
        let mut payload: Vec<u8> = Vec::new();
        let mut i: usize = start + ECHO_HEADER_SIZE;
        while i < buf.len()
            invariant
                start + ECHO_HEADER_SIZE <= i <= buf@.len(),
                payload@ == buf@.subrange(start + ECHO_HEADER_SIZE, i as int),
            decreases buf.len() - i,
        {
            payload.push(buf[i]);
            i = i + 1;
            assert(payload@ =~= buf@.subrange(start + ECHO_HEADER_SIZE, i as int));
        }
        assert(payload@ =~= msg.skip(8));
        let n = payload.len();
        Ok(EchoReply { ttl, source, sequence, identifier, payload_len: n, payload, size: n })
    } else if buf[start] == request_type {
        if v6 {
            Err(Error::NotV6EchoReply)
        } else {
            Err(Error::NotEchoReply)
        }
    } else {
        Err(Error::OtherICMP)
    }
}

/// What decoding a packet read from a raw socket yields: for IPv4 the packet
/// starts with the IP header, which supplies the sender and time-to-live;
/// for IPv6 it is the bare ICMPv6 message from `source`.
pub open spec fn raw_reply(source: IpAddress, buf: Seq<u8>, r: Result<EchoReply, Error>) -> bool {
    match source {
        IpAddress::V4(_) => match ipv4_header(buf) {
            Ok(h) => reply_from(
                echo_reply_fields(false, buf.skip(h.2 as int)),
                IpAddress::V4(h.1),
                Some(h.0),
                r,
            ),
            Err(e) => r == Err::<EchoReply, Error>(e),
        },
        IpAddress::V6(_) => reply_from(echo_reply_fields(true, buf), source, None, r),
    }
}

/// What decoding a packet read from a datagram socket yields: the bare ICMP
/// message of the address family of `source`, from `source`.
pub open spec fn dgram_reply(source: IpAddress, buf: Seq<u8>, r: Result<EchoReply, Error>) -> bool {
    reply_from(echo_reply_fields(source is V6, buf), source, None, r)
}

impl EchoReply {
    /// Decodes a packet read from a raw socket; `source` gives the address
    /// family and, for IPv6, the sender.
    pub fn decode_raw(source: IpAddress, buf: &[u8]) -> (r: Result<EchoReply, Error>)
        ensures
            raw_reply(source, buf@, r),
    {
        proof {
            assert(buf@.skip(0) =~= buf@);
        }
        match source {
            IpAddress::V4(_) => {
                match IpV4Packet::decode(buf) {
                    Ok(header) => read_echo_reply(
                        false,
                        buf,
                        header.header_size,
                        IpAddress::V4(header.source),
                        Some(header.ttl),
                    ),
                    Err(e) => Err(e),
                }
            },
            IpAddress::V6(_) => read_echo_reply(true, buf, 0, source, None),
        }
    }

    /// Decodes a packet read from a datagram socket, which delivers the ICMP
    /// message without the IP header.
    pub fn decode_dgram(source: IpAddress, buf: &[u8]) -> (r: Result<EchoReply, Error>)
        ensures
            dgram_reply(source, buf@, r),
    {
        let v6 = source.is_ipv6();
        proof {
            assert(buf@.skip(0) =~= buf@);
        }
        read_echo_reply(v6, buf, 0, source, None)
    }
}

/// A request that a host echoes back, read from a datagram socket, is the
/// reply to it: same identifier, sequence number and payload.
pub proof fn lemma_echo_roundtrip(v6: bool, source: IpAddress, c: u16, ident: u16, sequence: u16, payload: Seq<u8>, r: Result<EchoReply, Error>)
    requires
        (source is V6) == v6,
        dgram_reply(source, echo_message(echo_reply_type(v6), c, ident, sequence, payload), r),
    ensures
        r matches Ok(rep) && rep.identifier == ident && rep.sequence == sequence && rep.payload@ == payload
            && rep.source == source,
{
    crate::packet::lemma_echo_message_fields(v6, c, ident, sequence, payload);
}


/// An encoded ICMPv4 request checks out at the receiver: the
/// ones'-complement sum of its 16-bit words with end-around carry is 0xffff
/// (its word sum is a positive multiple of 65535). Read back as a reply, an encoded request of either family
/// is refused as not an echo reply, so a raw socket that sees our own
/// requests skips them.
pub proof fn lemma_encoded_request(v6: bool, ident: u16, sequence: u16, payload: Seq<u8>)
    ensures
        !v6 ==> word_sum(echo_request_bytes(false, ident, sequence, payload)) % 65535 == 0,
        !v6 ==> word_sum(echo_request_bytes(false, ident, sequence, payload)) > 0,
        !v6 ==> fold_carries(word_sum(echo_request_bytes(false, ident, sequence, payload))) == 65535,
        echo_reply_fields(v6, echo_request_bytes(v6, ident, sequence, payload)) == if v6 {
            Err::<(u16, u16, Seq<u8>), Error>(Error::NotV6EchoReply)
        } else {
            Err::<(u16, u16, Seq<u8>), Error>(Error::NotEchoReply)
        },
{
    crate::packet::lemma_checksum_verifies(echo_request_type(false), ident, sequence, payload);
    let c = if v6 {
        0u16
    } else {
        internet_checksum(echo_message(echo_request_type(false), 0, ident, sequence, payload))
    };
    crate::packet::lemma_echo_message_fields(v6, c, ident, sequence, payload);
}
} // verus!
