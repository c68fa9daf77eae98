use vstd::prelude::*;

use crate::error::Error;

verus! {

/// Size of the ICMP header: type, code, checksum, identifier, sequence number.
pub const ECHO_HEADER_SIZE: usize = 8;

/// Smallest IPv4 header: twenty bytes, no options.
pub const IPV4_MIN_HEADER_SIZE: usize = 20;

/// IPv4 protocol number of ICMP.
pub const CONTROL_MESSAGE_PROTOCOL: u8 = 1;

/// The high byte of a 16-bit value.
pub open spec fn high_byte(x: u16) -> u8 {
    (x / 256) as u8
}

/// The low byte of a 16-bit value.
pub open spec fn low_byte(x: u16) -> u8 {
    (x % 256) as u8
}

/// The 16-bit value of two big-endian bytes.
pub open spec fn be16(hi: u8, lo: u8) -> u16 {
    (hi * 256 + lo) as u16
}

/// The sum of a byte sequence read as big-endian 16-bit words, a final odd
/// byte taken as the high byte of a word.
pub open spec fn word_sum(s: Seq<u8>) -> nat
    decreases s.len(),
{
    if s.len() == 0 {
        0
    } else if s.len() == 1 {
        (s[0] as nat) * 256
    } else {
        (s[0] as nat) * 256 + (s[1] as nat) + word_sum(s.skip(2))
    }
}

/// Adds the carries above 16 bits back in until the value fits in 16 bits.
pub open spec fn fold_carries(x: nat) -> nat
    decreases x,
{
    if x < 65536 {
        x
    } else {
        fold_carries(x % 65536 + x / 65536)
    }
}

/// The Internet checksum of a byte sequence: the ones' complement of the
/// ones'-complement sum of its 16-bit words.
pub open spec fn internet_checksum(s: Seq<u8>) -> u16 {
    (65535 - fold_carries(word_sum(s))) as u16
}

proof fn lemma_word_sum_bound(s: Seq<u8>)
    ensures
        word_sum(s) <= 65535 * s.len(),
    decreases s.len(),
{
    if s.len() >= 2 {
        lemma_word_sum_bound(s.skip(2));
    }
}

proof fn lemma_fold_carries(x: nat)
    ensures
        fold_carries(x) < 65536,
        fold_carries(x) % 65535 == x % 65535,
        x > 0 ==> fold_carries(x) > 0,
    decreases x,
{
    if x >= 65536 {
        let q = x / 65536;
        let r = x % 65536;
        assert(x == 65536 * q + r && q > 0);
        let y = (r + q) as nat;
        assert(y < x);
        lemma_fold_carries(y);
        assert(x == y + 65535 * q);
        vstd::arithmetic::div_mod::lemma_mod_multiples_vanish(q as int, y as int, 65535);
    }
}

/// Computes the Internet checksum of `bytes`.
pub fn checksum(bytes: &[u8]) -> (c: u16)
    requires
        bytes@.len() <= 65535,
    ensures
        c == internet_checksum(bytes@),
        (word_sum(bytes@) + c) % 65535 == 0,
        word_sum(bytes@) > 0 ==> c < 65535,
        word_sum(bytes@) == 0 ==> c == 65535,
{
    let ghost s = bytes@;
    proof {
        lemma_word_sum_bound(s);
        assert(s.skip(0) =~= s);
    }
    let mut sum: u64 = 0;
    let mut i: usize = 0;
    while i < bytes.len()
        invariant
            i <= s.len(),
            s == bytes@,
            s.len() <= 65535,
            word_sum(s) <= 65535 * s.len(),
            sum + word_sum(s.skip(i as int)) == word_sum(s),
        decreases bytes.len() - i,
    {
        let ghost rest = s.skip(i as int);
        assert(rest[0] == bytes@[i as int]);
        if i + 1 < bytes.len() {
            assert(rest[1] == bytes@[i + 1]);
            assert(rest.skip(2) =~= s.skip(i + 2));
            sum = sum + (bytes[i] as u64) * 256 + (bytes[i + 1] as u64);
            i = i + 2;
        } else {
            assert(rest.len() == 1);
            assert(s.skip(i + 1).len() == 0);
            sum = sum + (bytes[i] as u64) * 256;
            i = i + 1;
        }
    }
    assert(s.skip(i as int).len() == 0);
    let ghost total = sum as nat;
    assert(total == word_sum(s));
    while sum >= 65536
        invariant
            fold_carries(sum as nat) == fold_carries(total),
        decreases sum,
    {
        sum = sum % 65536 + sum / 65536;
    }
    proof {
        lemma_fold_carries(total);
        lemma_checksum_complements(s);
    }
    (65535 - sum) as u16
}

/// The ICMP message `type`, code 0, `checksum`, `ident`, `sequence`, then
/// `payload`.
pub open spec fn echo_message(typ: u8, checksum: u16, ident: u16, sequence: u16, payload: Seq<u8>) -> Seq<u8> {
    seq![
        typ,
        0u8,
        high_byte(checksum),
        low_byte(checksum),
        high_byte(ident),
        low_byte(ident),
        high_byte(sequence),
        low_byte(sequence),
    ] + payload
}

proof fn lemma_echo_message_word_sum(typ: u8, c: u16, ident: u16, sequence: u16, payload: Seq<u8>)
    ensures
        word_sum(echo_message(typ, c, ident, sequence, payload)) == (typ as nat) * 256 + (c as nat)
            + (ident as nat) + (sequence as nat) + word_sum(payload),
{
    let m = echo_message(typ, c, ident, sequence, payload);
    assert(m.skip(2) =~= seq![high_byte(c), low_byte(c), high_byte(ident), low_byte(ident), high_byte(sequence), low_byte(sequence)] + payload);
    assert(m.skip(2).skip(2) =~= seq![high_byte(ident), low_byte(ident), high_byte(sequence), low_byte(sequence)] + payload);
    assert(m.skip(2).skip(2).skip(2) =~= seq![high_byte(sequence), low_byte(sequence)] + payload);
    assert(m.skip(2).skip(2).skip(2).skip(2) =~= payload);
    let m1 = m.skip(2);
    let m2 = m1.skip(2);
    let m3 = m2.skip(2);
    assert(word_sum(m) == (typ as nat) * 256 + word_sum(m1));
    assert(word_sum(m1) == (high_byte(c) as nat) * 256 + (low_byte(c) as nat) + word_sum(m2));
    assert(word_sum(m2) == (high_byte(ident) as nat) * 256 + (low_byte(ident) as nat) + word_sum(m3));
    assert(word_sum(m3) == (high_byte(sequence) as nat) * 256 + (low_byte(sequence) as nat) + word_sum(payload));
    assert((high_byte(c) as nat) * 256 + (low_byte(c) as nat) == c);
    assert((high_byte(ident) as nat) * 256 + (low_byte(ident) as nat) == ident);
    assert((high_byte(sequence) as nat) * 256 + (low_byte(sequence) as nat) == sequence);
}

/// The checksum of a byte sequence is the ones' complement of its word sum
/// taken with end-around carry (RFC 1071): added to the word sum it gives a
/// multiple of 65535, and it is 65535 (negative zero) only when every word
/// is zero.
pub proof fn lemma_checksum_complements(s: Seq<u8>)
    ensures
        (word_sum(s) + internet_checksum(s)) % 65535 == 0,
        word_sum(s) > 0 ==> internet_checksum(s) < 65535,
        word_sum(s) == 0 ==> internet_checksum(s) == 65535,
{
    let w = word_sum(s);
    let f = fold_carries(w);
    lemma_fold_carries(w);
    assert(internet_checksum(s) == 65535 - f);
    assert((w + 65535 - f) % 65535 == 0) by {
        assert(w % 65535 == f % 65535);
        vstd::arithmetic::div_mod::lemma_fundamental_div_mod(w as int, 65535);
        vstd::arithmetic::div_mod::lemma_fundamental_div_mod(f as int, 65535);
        let k = (w as int) / 65535 - (f as int) / 65535 + 1;
        assert(w + 65535 - f == 65535 * k);
        vstd::arithmetic::div_mod::lemma_mod_multiples_basic(k, 65535);
    }
}

/// A message whose checksum field holds the checksum of the message with a
/// zero checksum field checks out at the receiver: the ones'-complement sum
/// of its 16-bit words with end-around carry is 0xffff, that is, its word
/// sum is a positive multiple of 65535, and its own checksum is 0.
pub proof fn lemma_checksum_verifies(typ: u8, ident: u16, sequence: u16, payload: Seq<u8>)
    ensures
        ({
            let m = echo_message(
                typ,
                internet_checksum(echo_message(typ, 0, ident, sequence, payload)),
                ident,
                sequence,
                payload,
            );
            &&& word_sum(m) % 65535 == 0
            &&& word_sum(m) > 0
            &&& fold_carries(word_sum(m)) == 65535
            &&& internet_checksum(m) == 0
        }),
{
    let z = echo_message(typ, 0, ident, sequence, payload);
    let w = word_sum(z);
    let c = internet_checksum(z);
    lemma_checksum_complements(z);
    lemma_echo_message_word_sum(typ, 0, ident, sequence, payload);
    lemma_echo_message_word_sum(typ, c, ident, sequence, payload);
    let w2 = word_sum(echo_message(typ, c, ident, sequence, payload));
    assert(w2 == w + c);
    assert(w2 > 0);
    lemma_fold_carries(w2);
    let f2 = fold_carries(w2);
    assert(f2 % 65535 == 0);
    assert(f2 == 65535);
}

/// The ICMP type of an echo request: 8 for ICMPv4, 128 for ICMPv6.
pub open spec fn echo_request_type(v6: bool) -> u8 {
    if v6 {
        128
    } else {
        8
    }
}

/// The ICMP type of an echo reply: 0 for ICMPv4, 129 for ICMPv6.
pub open spec fn echo_reply_type(v6: bool) -> u8 {
    if v6 {
        129
    } else {
        0
    }
}

/// What an ICMP message says, read as an answer to an echo request:
/// identifier, sequence number and payload of an echo reply, or why it is
/// not one. A message shorter than the header is invalid; an echo request
/// (as a raw socket also sees our own requests on loopback) is reported as
/// not an echo reply; any other message as another ICMP message.
pub open spec fn echo_reply_fields(v6: bool, msg: Seq<u8>) -> Result<(u16, u16, Seq<u8>), Error> {
    if msg.len() < ECHO_HEADER_SIZE {
        Err(Error::InvalidPacket)
    } else if msg[0] == echo_reply_type(v6) && msg[1] == 0 {
        Ok((be16(msg[4], msg[5]), be16(msg[6], msg[7]), msg.skip(8)))
    } else if msg[0] == echo_request_type(v6) {
        if v6 {
            Err(Error::NotV6EchoReply)
        } else {
            Err(Error::NotEchoReply)
        }
    } else {
        Err(Error::OtherICMP)
    }
}

/// Reading an echo reply message gives back the identifier, sequence number
/// and payload it was made of, whatever its checksum field holds; reading
/// an echo request is refused as not an echo reply.
pub proof fn lemma_echo_message_fields(v6: bool, c: u16, ident: u16, sequence: u16, payload: Seq<u8>)
    ensures
        echo_reply_fields(v6, echo_message(echo_reply_type(v6), c, ident, sequence, payload))
            == Ok::<(u16, u16, Seq<u8>), Error>((ident, sequence, payload)),
        echo_reply_fields(v6, echo_message(echo_request_type(v6), c, ident, sequence, payload))
            == if v6 {
            Err::<(u16, u16, Seq<u8>), Error>(Error::NotV6EchoReply)
        } else {
            Err::<(u16, u16, Seq<u8>), Error>(Error::NotEchoReply)
        },
{
    let m = echo_message(echo_reply_type(v6), c, ident, sequence, payload);
    assert(m.skip(8) =~= payload);
    assert(be16(high_byte(ident), low_byte(ident)) == ident);
    assert(be16(high_byte(sequence), low_byte(sequence)) == sequence);
}

/// The protocol carried by an IPv4 packet.
#[derive(Clone, Copy, Debug, PartialEq, Eq, Structural)]
pub enum IpV4Protocol {
    ControlMessage,
}

/// The parts of an IPv4 header that a ping receiver reads.
#[derive(Clone, Copy, Debug, PartialEq, Eq, Structural)]
pub struct IpV4Packet {
    pub protocol: IpV4Protocol,
    pub ttl: u8,
    /// The sender's address, its 32 bits most significant first.
    pub source: u32,
    /// Length of the header in bytes; the ICMP message follows it.
    pub header_size: usize,
}

/// The 32-bit value of four big-endian bytes.
pub open spec fn be32(a: u8, b: u8, c: u8, d: u8) -> u32 {
    (((a * 256 + b) * 256 + c) * 256 + d) as u32
}

/// What the header of a received IPv4 packet says: time-to-live, source
/// address and header length. The packet must hold a version-4 header of at
/// least twenty bytes that fits in it, and carry ICMP.
pub open spec fn ipv4_header(buf: Seq<u8>) -> Result<(u8, u32, nat), Error> {
    if buf.len() < IPV4_MIN_HEADER_SIZE {
        Err(Error::InvalidPacket)
    } else if buf[0] / 16 != 4 {
        Err(Error::InvalidPacket)
    } else if (buf[0] % 16) * 4 < IPV4_MIN_HEADER_SIZE || (buf[0] % 16) * 4 > buf.len() {
        Err(Error::InvalidPacket)
    } else if buf[9] != CONTROL_MESSAGE_PROTOCOL {
        Err(Error::UnknownProtocol)
    } else {
        Ok((buf[8], be32(buf[12], buf[13], buf[14], buf[15]), ((buf[0] % 16) * 4) as nat))
    }
}

impl IpV4Packet {
    /// Reads the header of a received IPv4 packet.
    pub fn decode(buf: &[u8]) -> (r: Result<IpV4Packet, Error>)
        ensures
            match ipv4_header(buf@) {
                Ok(h) => r matches Ok(p) && p.ttl == h.0 && p.source == h.1 && p.header_size == h.2
                    && p.protocol == IpV4Protocol::ControlMessage,
                Err(e) => r == Err::<IpV4Packet, Error>(e),
            },
    {
        if buf.len() < IPV4_MIN_HEADER_SIZE {
            return Err(Error::InvalidPacket);
        }
        let version = buf[0] / 16;
        if version != 4 {
            return Err(Error::InvalidPacket);
        }
        let header_size = ((buf[0] % 16) as usize) * 4;
        if header_size < IPV4_MIN_HEADER_SIZE || header_size > buf.len() {
            return Err(Error::InvalidPacket);
        }
        if buf[9] != CONTROL_MESSAGE_PROTOCOL {
            return Err(Error::UnknownProtocol);
        }
        let source = (((buf[12] as u32) * 256 + buf[13] as u32) * 256 + buf[14] as u32) * 256
            + buf[15] as u32;
        Ok(IpV4Packet { protocol: IpV4Protocol::ControlMessage, ttl: buf[8], source, header_size })
    }
}
} // verus!
