use std::time::Duration;

use tiny_ping::{
    request_payload, resolve_ping_request, socket_addr_without_port, EchoReply, Error, IpAddress,
    PingAttempt, PingRequest, PingResult, PingSummary, SocketAddress, SocketType,
};

#[test]
fn request_payload_respects_size() {
    assert_eq!(request_payload(1, 2, 0), Vec::<u8>::new());
    assert_eq!(request_payload(1, 2, 4), vec![b't', b'p', 0, 1]);
    assert_eq!(request_payload(1, 2, 8), vec![b't', b'p', 0, 1, 0, 2, 0, 8]);
}

#[test]
fn ping_request_from_sequence_uses_default_payload() {
    let request = PingRequest::from(7);

    assert_eq!(request.sequence(), 7);
    assert_eq!(request.payload_bytes(), None);
}

#[test]
fn ping_request_keeps_custom_payload() {
    let request = PingRequest::new(9).payload(b"hello".to_vec());

    assert_eq!(request.sequence(), 9);
    assert_eq!(request.payload_bytes(), Some(b"hello".as_slice()));
}

#[test]
fn default_request_with_empty_generated_payload_matches_any_payload() {
    let request = resolve_ping_request(1, 0, PingRequest::new(2));

    assert_eq!(request.sequence, 2);
    assert!(request.payload.is_empty());
    assert!(!request.match_payload);
}

#[test]
fn custom_empty_payload_matches_exactly() {
    let request = resolve_ping_request(1, 56, PingRequest::new(2).payload(Vec::new()));

    assert_eq!(request.sequence, 2);
    assert!(request.payload.is_empty());
    assert!(request.match_payload);
}

fn loopback_reply(sequence: u16) -> EchoReply {
    EchoReply {
        ttl: Some(64),
        source: IpAddress::V4(0x7f00_0001),
        sequence,
        identifier: 1,
        payload_len: 0,
        payload: Vec::new(),
        size: 0,
    }
}

fn successful_attempt(sequence: u16, rtt: Duration) -> PingAttempt {
    PingAttempt {
        sequence,
        result: Ok(PingResult {
            reply: loopback_reply(sequence),
            rtt: rtt.as_nanos(),
            socket_type: SocketType::Dgram,
        }),
    }
}

fn loss_percent(summary: &PingSummary) -> f64 {
    if summary.transmitted == 0 {
        0.0
    } else {
        ((summary.transmitted - summary.received) as f64 / summary.transmitted as f64) * 100.0
    }
}

#[test]
fn ping_summary_counts_successes_and_rtts() {
    let attempts = vec![
        successful_attempt(1, Duration::from_millis(10)),
        PingAttempt {
            sequence: 2,
            result: Err(Error::Timeout),
        },
        successful_attempt(3, Duration::from_millis(30)),
    ];

    let summary = PingSummary::from_attempts(&attempts);

    assert_eq!(summary.transmitted, 3);
    assert_eq!(summary.received, 2);
    assert!((loss_percent(&summary) - (100.0 / 3.0)).abs() < 1e-12);
    assert_eq!(summary.min_rtt, Some(Duration::from_millis(10).as_nanos()));
    assert_eq!(summary.avg_rtt, Some(Duration::from_millis(20).as_nanos()));
    assert_eq!(summary.max_rtt, Some(Duration::from_millis(30).as_nanos()));
}

#[test]
fn empty_ping_summary_has_no_rtts() {
    let summary = PingSummary::from_attempts(&[]);

    assert_eq!(summary.transmitted, 0);
    assert_eq!(summary.received, 0);
    assert_eq!(loss_percent(&summary), 0.0);
    assert_eq!(summary.min_rtt, None);
    assert_eq!(summary.avg_rtt, None);
    assert_eq!(summary.max_rtt, None);
}

#[test]
fn socket_addr_without_port_preserves_ipv6_scope() {
    // [fe80::1%4]:1234
    let addr = SocketAddress::V6 {
        ip: 0xfe80_0000_0000_0000_0000_0000_0000_0001,
        port: 1234,
        flowinfo: 0,
        scope_id: 4,
    };

    // [fe80::1%4]:0
    assert_eq!(
        socket_addr_without_port(addr),
        SocketAddress::V6 {
            ip: 0xfe80_0000_0000_0000_0000_0000_0000_0001,
            port: 0,
            flowinfo: 0,
            scope_id: 4,
        }
    );
}
