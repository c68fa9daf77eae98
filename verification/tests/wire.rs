use tiny_ping::{
    collect_step, ping_outcome, time_left, CollectStep, EchoReply, EchoRequest, Error, IpAddress,
    IpV4Packet, IpV4Protocol, SocketType,
};

const LOOPBACK: IpAddress = IpAddress::V4(0x7f00_0001);
const V6_HOST: IpAddress = IpAddress::V6(0xfe80_0000_0000_0000_0000_0000_0000_0001);

fn ones_complement_sum(bytes: &[u8]) -> u32 {
    let mut sum: u32 = 0;
    for pair in bytes.chunks(2) {
        let hi = (pair[0] as u32) << 8;
        let lo = if pair.len() > 1 { pair[1] as u32 } else { 0 };
        sum += hi + lo;
    }
    while sum > 0xffff {
        sum = (sum & 0xffff) + (sum >> 16);
    }
    sum
}

#[test]
fn encodes_icmpv4_echo_request_with_checksum() {
    let m = EchoRequest::new(LOOPBACK, 0x1234, 0x0001)
        .encode_with_payload(b"abc")
        .unwrap();
    assert_eq!(m.len(), 11);
    assert_eq!(&m[..2], &[8, 0]);
    assert_eq!(&m[4..8], &[0x12, 0x34, 0x00, 0x01]);
    assert_eq!(&m[8..], b"abc");
    // Words 0x0800 + 0x1234 + 0x0001 + 0x6162 + 0x6300 = 0xde97, complement 0x2168.
    assert_eq!(&m[2..4], &[0x21, 0x68]);
    assert_eq!(ones_complement_sum(&m), 0xffff);
}

#[test]
fn checksum_of_all_zero_words_is_ffff() {
    let m = EchoRequest::new(LOOPBACK, 0xf7ff, 0)
        .encode_with_payload(&[])
        .unwrap();
    // 0x0800 + 0xf7ff = 0xffff, whose complement is 0.
    assert_eq!(&m[2..4], &[0, 0]);
}

#[test]
fn encodes_icmpv6_echo_request_without_checksum() {
    let m = EchoRequest::new(V6_HOST, 7, 9).encode_with_payload(b"x").unwrap();
    assert_eq!(m, vec![128, 0, 0, 0, 0, 7, 0, 9, b'x']);
}

#[test]
fn refuses_oversized_payload() {
    let big = vec![0u8; 65515 - 8 + 1];
    assert!(matches!(
        EchoRequest::new(LOOPBACK, 1, 1).encode_with_payload(&big),
        Err(Error::InvalidSize)
    ));
    assert!(EchoRequest::new(LOOPBACK, 1, 1)
        .encode_with_payload(&big[1..])
        .is_ok());
    assert!(EchoRequest::new(V6_HOST, 1, 1)
        .encode_with_payload(&big)
        .is_ok());
}

fn ipv4_packet(protocol: u8, icmp: &[u8]) -> Vec<u8> {
    let mut p = vec![
        0x45, 0, 0, 0, 0, 0, 0, 0, 57, protocol, 0, 0, 10, 0, 0, 7, 127, 0, 0, 1,
    ];
    p.extend_from_slice(icmp);
    p
}

#[test]
fn decodes_raw_ipv4_echo_reply() {
    let icmp = [0, 0, 0xaa, 0xbb, 0x12, 0x34, 0x00, 0x05, b'h', b'i'];
    let reply = EchoReply::decode_raw(LOOPBACK, &ipv4_packet(1, &icmp)).unwrap();
    assert_eq!(reply.ttl, Some(57));
    assert_eq!(reply.source, IpAddress::V4(0x0a00_0007));
    assert_eq!(reply.identifier, 0x1234);
    assert_eq!(reply.sequence, 5);
    assert_eq!(reply.payload, b"hi".to_vec());
    assert_eq!(reply.payload_len, 2);
    assert_eq!(reply.size, 2);
}

#[test]
fn raw_ipv4_errors() {
    let icmp = [0, 0, 0, 0, 0, 1, 0, 1];
    assert!(matches!(
        EchoReply::decode_raw(LOOPBACK, &ipv4_packet(17, &icmp)),
        Err(Error::UnknownProtocol)
    ));
    assert!(matches!(
        EchoReply::decode_raw(LOOPBACK, &[0x45, 0, 0]),
        Err(Error::InvalidPacket)
    ));
    let mut v6_header = ipv4_packet(1, &icmp);
    v6_header[0] = 0x65;
    assert!(matches!(
        EchoReply::decode_raw(LOOPBACK, &v6_header),
        Err(Error::InvalidPacket)
    ));
    let mut long_header = ipv4_packet(1, &icmp);
    long_header[0] = 0x4f;
    assert!(matches!(
        EchoReply::decode_raw(LOOPBACK, &long_header),
        Err(Error::InvalidPacket)
    ));
    let request = [8, 0, 0, 0, 0, 1, 0, 1];
    assert!(matches!(
        EchoReply::decode_raw(LOOPBACK, &ipv4_packet(1, &request)),
        Err(Error::NotEchoReply)
    ));
    let unreachable = [3, 1, 0, 0, 0, 0, 0, 0];
    assert!(matches!(
        EchoReply::decode_raw(LOOPBACK, &ipv4_packet(1, &unreachable)),
        Err(Error::OtherICMP)
    ));
    assert!(matches!(
        EchoReply::decode_raw(LOOPBACK, &ipv4_packet(1, &[0, 0, 0])),
        Err(Error::InvalidPacket)
    ));
}

#[test]
fn ipv4_header_fields() {
    let p = IpV4Packet::decode(&ipv4_packet(1, &[])).unwrap();
    assert_eq!(p.protocol, IpV4Protocol::ControlMessage);
    assert_eq!(p.ttl, 57);
    assert_eq!(p.source, 0x0a00_0007);
    assert_eq!(p.header_size, 20);
}

#[test]
fn decodes_icmpv6_and_datagram_replies() {
    let v6 = [129, 0, 0, 0, 0, 3, 0, 4, 9];
    let r = EchoReply::decode_raw(V6_HOST, &v6).unwrap();
    assert_eq!((r.identifier, r.sequence, r.payload.clone()), (3, 4, vec![9]));
    assert_eq!(r.source, V6_HOST);
    assert_eq!(r.ttl, None);
    assert!(matches!(
        EchoReply::decode_raw(V6_HOST, &[128, 0, 0, 0, 0, 3, 0, 4]),
        Err(Error::NotV6EchoReply)
    ));
    let d = EchoReply::decode_dgram(LOOPBACK, &[0, 0, 0, 0, 0, 3, 0, 4]).unwrap();
    assert_eq!((d.identifier, d.sequence, d.source), (3, 4, LOOPBACK));
    assert!(matches!(
        EchoReply::decode_dgram(V6_HOST, &[135, 0, 0, 0, 0, 0, 0, 0]),
        Err(Error::OtherICMP)
    ));
}

#[test]
fn decoding_an_encoded_request_is_not_a_reply() {
    let m = EchoRequest::new(LOOPBACK, 1, 2).encode_with_payload(b"p").unwrap();
    assert!(matches!(
        EchoReply::decode_dgram(LOOPBACK, &m),
        Err(Error::NotEchoReply)
    ));
    let mut echoed = m.clone();
    echoed[0] = 0;
    let r = EchoReply::decode_dgram(LOOPBACK, &echoed).unwrap();
    assert_eq!((r.identifier, r.sequence, r.payload), (1, 2, b"p".to_vec()));
}

fn reply(sequence: u16) -> EchoReply {
    EchoReply {
        ttl: None,
        source: LOOPBACK,
        sequence,
        identifier: 1,
        payload_len: 0,
        payload: Vec::new(),
        size: 0,
    }
}

#[test]
fn single_ping_turns_timeout_into_error() {
    assert!(matches!(
        ping_outcome(None, 5, SocketType::Raw),
        Err(Error::Timeout)
    ));
    assert!(matches!(
        ping_outcome(Some(Err(Error::InvalidSize)), 5, SocketType::Raw),
        Err(Error::InvalidSize)
    ));
    let r = ping_outcome(Some(Ok(reply(3))), 5, SocketType::Dgram).unwrap();
    assert_eq!((r.reply.sequence, r.rtt, r.socket_type), (3, 5, SocketType::Dgram));
}

#[test]
fn collection_stops_quietly_on_timeout() {
    assert!(matches!(
        collect_step(None, 5, SocketType::Raw),
        CollectStep::Stop
    ));
    assert!(matches!(
        collect_step(Some(Err(Error::Io("x".to_string()))), 5, SocketType::Raw),
        CollectStep::Fail(Error::Io(_))
    ));
    match collect_step(Some(Ok(reply(8))), 7, SocketType::Raw) {
        CollectStep::Keep(r) => assert_eq!((r.reply.sequence, r.rtt), (8, 7)),
        other => panic!("unexpected {:?}", other),
    }
}

#[test]
fn time_left_until_deadline() {
    assert_eq!(time_left(100, 30), Some(70));
    assert_eq!(time_left(100, 100), Some(0));
    assert_eq!(time_left(100, 101), None);
}
