//! ICMP echo ("ping") logic: request payloads, reply matching, series
//! bookkeeping and summary statistics.
pub mod addr;
pub mod error;
pub mod echo;
pub mod packet;
pub mod ping;
pub mod request;
pub mod series;
pub mod socket;

pub use addr::{socket_addr_without_port, IpAddress, SocketAddress};
pub use error::Error;
pub use echo::{EchoReply, EchoRequest};
pub use packet::{IpV4Packet, IpV4Protocol, ECHO_HEADER_SIZE};
pub use ping::{
    check_sent_size, collect_step, ping_outcome, time_left, CollectStep, PingResult, PingerConfig,
    RecvStep,
};
pub use request::{request_payload, resolve_ping_request, PingRequest, ResolvedPingRequest};
pub use series::{average_duration, PingAttempt, PingSeries, PingSeriesResult, PingSummary, SeriesRun};
pub use socket::SocketType;
