# tiny_ping

A small ICMP echo ("ping") library whose logic is verified with Verus.

- `src/` is the verified core: the ICMP echo wire format (encoding
  requests with their checksum, reading IPv4 headers and echo replies),
  generated request payloads, resolving a request's payload, deciding whether a received reply answers a request,
  what the receiver does with each decoded packet, the requests of a ping
  series, what a single ping or a collection of replies does after each
  wait, and the series' summary statistics. Time spans are whole
  nanoseconds (`u128`); addresses are plain values (`IpAddress`,
  `SocketAddress`).
- `app/` holds the asynchronous pinger around that core: tokio/socket2
  sockets, clocks, timeouts and the conversions from `std::net` and
  `std::time` types.
- `tests/` exercises the core on concrete values.
