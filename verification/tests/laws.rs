use tiny_ping::{
    average_duration, check_sent_size, request_payload, resolve_ping_request,
    socket_addr_without_port, EchoReply, Error, IpAddress, PingAttempt, PingRequest, PingResult,
    PingSeries, PingSeriesResult, PingSummary, PingerConfig, RecvStep, SocketAddress, SocketType,
};

fn v4_target() -> SocketAddress {
    SocketAddress::V4 {
        ip: 0x0101_0101,
        port: 0,
    }
}

fn v6_target() -> SocketAddress {
    SocketAddress::V6 {
        ip: 0xff02_0000_0000_0000_0000_0000_0000_0001,
        port: 0,
        flowinfo: 0,
        scope_id: 2,
    }
}

fn reply(sequence: u16, identifier: u16, payload: Vec<u8>) -> EchoReply {
    EchoReply {
        ttl: Some(64),
        source: IpAddress::V4(0x0101_0101),
        sequence,
        identifier,
        payload_len: payload.len(),
        payload,
        size: 0,
    }
}

#[test]
fn generated_payload_is_token_then_zeros() {
    let p = request_payload(0x1234, 0xabcd, 12);
    assert_eq!(
        p,
        vec![b't', b'p', 0x12, 0x34, 0xab, 0xcd, 0, 12, 0, 0, 0, 0]
    );
    // The size byte pair holds the low 16 bits of the size.
    let big = request_payload(1, 2, 0x1_0102);
    assert_eq!(big.len(), 0x1_0102);
    assert_eq!(&big[..8], &[b't', b'p', 0, 1, 0, 2, 0x01, 0x02]);
    assert!(big[8..].iter().all(|b| *b == 0));
}

#[test]
fn generated_payloads_differ_by_request() {
    assert_ne!(request_payload(1, 2, 56), request_payload(1, 3, 56));
    assert_ne!(request_payload(1, 2, 56), request_payload(2, 2, 56));
}

#[test]
fn resolving_a_default_request_generates_the_payload() {
    let r = resolve_ping_request(7, 56, PingRequest::new(3));
    assert_eq!(r.sequence, 3);
    assert_eq!(r.payload, request_payload(7, 3, 56));
    assert!(r.match_payload);
}

#[test]
fn resolving_a_custom_request_keeps_its_bytes() {
    let r = resolve_ping_request(7, 56, PingRequest::new(3).payload(b"abc".to_vec()));
    assert_eq!(r.payload, b"abc".to_vec());
    assert!(r.match_payload);
}

#[test]
fn from_sequence_equals_new() {
    let a = PingRequest::from(11);
    let b = PingRequest::new(11);
    assert_eq!(a.sequence(), b.sequence());
    assert_eq!(a.payload_bytes(), b.payload_bytes());
}

#[test]
fn series_sequences_count_up_and_wrap() {
    let series = PingSeries::new(65534, 4).payload(b"xy".to_vec());
    let seqs: Vec<u16> = (0..4).map(|i| series.request_at(i).sequence()).collect();
    assert_eq!(seqs, vec![65534, 65535, 0, 1]);
    for i in 0..4 {
        assert_eq!(series.request_at(i).payload_bytes(), Some(b"xy".as_slice()));
    }
    assert_eq!(PingSeries::new(5, 1).request_at(0).payload_bytes(), None);
    assert_eq!(series.sequence_at(65536 + 2), 0);
}

#[test]
fn series_pauses_only_between_attempts() {
    let series = PingSeries::new(1, 3).interval(1_000_000);
    assert_eq!(series.count(), 3);
    assert_eq!(series.interval_nanos(), 1_000_000);
    assert!(series.pause_after(0));
    assert!(series.pause_after(1));
    assert!(!series.pause_after(2));

    let no_pause = PingSeries::new(1, 3);
    assert!(!no_pause.pause_after(0));
}

#[test]
fn pinger_config_defaults() {
    let c = PingerConfig::new(v4_target(), SocketType::Raw, 9);
    assert_eq!(c.source, None);
    assert_eq!(c.ident, 9);
    assert_eq!(c.size, 56);
    assert_eq!(c.timeout, 2_000_000_000);
    assert_eq!(c.ttl, None);
    assert_eq!(c.socket_type, SocketType::Raw);
}

#[test]
fn echo_of_request_matches() {
    let c = PingerConfig::new(v4_target(), SocketType::Raw, 9);
    let r = c.resolve_request(PingRequest::new(4));
    assert!(c.reply_matches(&reply(4, 9, r.payload.clone()), &r));
    // Another sequence number never matches.
    assert!(!c.reply_matches(&reply(5, 9, r.payload.clone()), &r));
    // A raw socket checks the identifier.
    assert!(!c.reply_matches(&reply(4, 8, r.payload.clone()), &r));
    // The payload must be echoed exactly.
    assert!(!c.reply_matches(&reply(4, 9, vec![1, 2, 3]), &r));
}

#[test]
fn dgram_socket_ignores_identifier() {
    let c = PingerConfig::new(v4_target(), SocketType::Dgram, 9);
    let r = c.resolve_request(PingRequest::new(4));
    assert!(c.reply_matches(&reply(4, 1234, r.payload.clone()), &r));
}

#[test]
fn empty_generated_payload_accepts_any_payload() {
    let mut c = PingerConfig::new(v4_target(), SocketType::Raw, 9);
    c.size = 0;
    let r = c.resolve_request(PingRequest::new(4));
    assert!(c.reply_matches(&reply(4, 9, vec![7; 10]), &r));
}

#[test]
fn receiver_skips_foreign_packets_and_fails_on_others() {
    let c = PingerConfig::new(v4_target(), SocketType::Raw, 9);
    let r = c.resolve_request(PingRequest::new(4));
    for e in [
        Error::InvalidPacket,
        Error::NotEchoReply,
        Error::NotV6EchoReply,
        Error::OtherICMP,
        Error::UnknownProtocol,
    ] {
        assert!(matches!(c.classify_reply(&r, Err(e)), RecvStep::Skip));
    }
    assert!(matches!(
        c.classify_reply(&r, Err(Error::Io("boom".to_string()))),
        RecvStep::Fail(Error::Io(_))
    ));
    assert!(matches!(
        c.classify_reply(&r, Ok(reply(5, 9, r.payload.clone()))),
        RecvStep::Skip
    ));
    match c.classify_reply(&r, Ok(reply(4, 9, r.payload.clone()))) {
        RecvStep::Deliver(rep) => assert_eq!(rep.sequence, 4),
        other => panic!("unexpected {:?}", other),
    }
}

#[test]
fn reply_source_by_socket_type() {
    let sender = Some(IpAddress::V4(0x0a00_0001));
    let raw4 = PingerConfig::new(v4_target(), SocketType::Raw, 1);
    assert_eq!(raw4.reply_source(sender), IpAddress::V4(0x0101_0101));
    let dgram4 = PingerConfig::new(v4_target(), SocketType::Dgram, 1);
    assert_eq!(dgram4.reply_source(sender), IpAddress::V4(0x0a00_0001));
    assert_eq!(dgram4.reply_source(None), IpAddress::V4(0x0101_0101));
    let raw6 = PingerConfig::new(v6_target(), SocketType::Raw, 1);
    let sender6 = Some(IpAddress::V6(0xfe80_0000_0000_0000_0000_0000_0000_0005));
    assert_eq!(raw6.reply_source(sender6), sender6.unwrap());
    assert_eq!(
        raw6.reply_source(None),
        IpAddress::V6(0xff02_0000_0000_0000_0000_0000_0000_0001)
    );
}

#[test]
fn short_send_is_an_error() {
    assert!(check_sent_size(64, 64).is_ok());
    assert!(matches!(check_sent_size(63, 64), Err(Error::InvalidSize)));
}

#[test]
fn without_port_clears_port_only() {
    let a = SocketAddress::V4 {
        ip: 0x7f00_0001,
        port: 80,
    };
    assert_eq!(
        socket_addr_without_port(a),
        SocketAddress::V4 {
            ip: 0x7f00_0001,
            port: 0
        }
    );
    let b = socket_addr_without_port(v6_target());
    assert_eq!(socket_addr_without_port(b), b);
}

#[test]
fn average_rounds_down_and_caps() {
    assert_eq!(average_duration(&[]), None);
    assert_eq!(average_duration(&[1, 2]), Some(1));
    assert_eq!(average_duration(&[10, 20, 40]), Some(23));
    let huge = u64::MAX as u128 * 2;
    assert_eq!(average_duration(&[huge]), Some(u64::MAX as u128));
}

fn attempt(sequence: u16, rtt: Option<u128>) -> PingAttempt {
    PingAttempt {
        sequence,
        result: match rtt {
            Some(rtt) => Ok(PingResult {
                reply: reply(sequence, 1, Vec::new()),
                rtt,
                socket_type: SocketType::Raw,
            }),
            None => Err(Error::Timeout),
        },
    }
}

#[test]
fn summary_statistics_are_ordered() {
    let attempts = vec![
        attempt(1, Some(50)),
        attempt(2, None),
        attempt(3, Some(5)),
        attempt(4, Some(20)),
        attempt(5, None),
    ];
    let s = PingSummary::from_attempts(&attempts);
    assert_eq!(s.transmitted, 5);
    assert_eq!(s.received, 3);
    assert_eq!(s.min_rtt, Some(5));
    assert_eq!(s.avg_rtt, Some(25));
    assert_eq!(s.max_rtt, Some(50));
    assert!(s.min_rtt <= s.avg_rtt && s.avg_rtt <= s.max_rtt);
}

#[test]
fn all_lost_series_has_no_rtts() {
    let result = PingSeriesResult::from_attempts(vec![attempt(1, None), attempt(2, None)]);
    assert_eq!(result.attempts.len(), 2);
    assert_eq!(result.summary.transmitted, 2);
    assert_eq!(result.summary.received, 0);
    assert_eq!(result.summary.min_rtt, None);
    assert_eq!(result.summary.avg_rtt, None);
    assert_eq!(result.summary.max_rtt, None);
}

#[test]
fn series_run_records_one_attempt_per_index_in_order() {
    let series = PingSeries::new(65535, 3).interval(5).payload(b"zz".to_vec());
    let mut run = tiny_ping::SeriesRun::new(series);
    let mut sent = Vec::new();
    let mut pauses = Vec::new();
    while let Some(request) = run.next_request() {
        assert_eq!(request.payload_bytes(), Some(b"zz".as_slice()));
        sent.push(request.sequence());
        let result = if sent.len() == 2 {
            Err(Error::Timeout)
        } else {
            Ok(PingResult {
                reply: reply(request.sequence(), 1, Vec::new()),
                rtt: 10 * sent.len() as u128,
                socket_type: SocketType::Raw,
            })
        };
        run.record(result);
        pauses.push(run.pause_after_record());
    }
    assert_eq!(sent, vec![65535, 0, 1]);
    assert_eq!(pauses, vec![true, true, false]);
    assert_eq!(run.attempts().len(), 3);
    let result = run.finish();
    let seqs: Vec<u16> = result.attempts.iter().map(|a| a.sequence).collect();
    assert_eq!(seqs, vec![65535, 0, 1]);
    assert!(matches!(result.attempts[1].result, Err(Error::Timeout)));
    assert_eq!(result.summary.transmitted, 3);
    assert_eq!(result.summary.received, 2);
    assert_eq!(result.summary.min_rtt, Some(10));
    assert_eq!(result.summary.max_rtt, Some(30));
}

#[test]
fn empty_series_run_sends_nothing() {
    let run = tiny_ping::SeriesRun::new(PingSeries::new(1, 0));
    assert!(run.next_request().is_none());
    let result = run.finish();
    assert!(result.attempts.is_empty());
    assert_eq!(result.summary.transmitted, 0);
}

#[test]
fn config_setters_change_one_setting() {
    let mut c = PingerConfig::new(v4_target(), SocketType::Raw, 9);
    c.set_ident(3);
    c.set_size(0);
    c.set_timeout(7);
    c.set_ttl(64);
    c.set_source(socket_addr_without_port(SocketAddress::V4 { ip: 1, port: 9 }));
    c.set_socket_type(SocketType::Dgram);
    assert_eq!(c.ident, 3);
    assert_eq!(c.size, 0);
    assert_eq!(c.timeout, 7);
    assert_eq!(c.ttl, Some(64));
    assert_eq!(c.source, Some(SocketAddress::V4 { ip: 1, port: 0 }));
    assert_eq!(c.socket_type, SocketType::Dgram);
    assert_eq!(c.target, v4_target());
}

#[test]
fn errors_have_messages() {
    assert_eq!(Error::Timeout.message(), "timeout");
    assert_eq!(Error::InvalidSize.message(), "invalid size");
    assert_eq!(Error::NotEchoReply.message(), "not an echo reply");
    assert_eq!(Error::NotV6EchoReply.message(), "not an ICMPv6 echo reply");
    assert_eq!(Error::OtherICMP.message(), "other ICMP message");
    assert_eq!(Error::UnknownProtocol.message(), "unknown protocol");
    assert_eq!(Error::InvalidPacket.message(), "invalid packet");
    assert_eq!(
        Error::Io("permission denied".to_string()).message(),
        "io error: permission denied"
    );
}
