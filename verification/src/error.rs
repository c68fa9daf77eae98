use vstd::prelude::*;
use vstd::string::StringExecFns;

verus! {

/// What can go wrong while pinging.
#[derive(Clone, Debug)]
pub enum Error {
    /// The received bytes are not a well-formed packet.
    InvalidPacket,
    /// An ICMPv4 message that is not an echo reply.
    NotEchoReply,
    /// An ICMPv6 message that is not an echo reply.
    NotV6EchoReply,
    /// Some other ICMP message.
    OtherICMP,
    /// A packet of a protocol other than ICMP.
    UnknownProtocol,
    /// No matching reply arrived in time.
    Timeout,
    /// The socket sent fewer bytes than the request holds.
    InvalidSize,
    /// The socket reported an error; the message describes it.
    Io(String),
}

/// Errors that describe a received packet that is not ours to answer: the
/// receiver drops such a packet and keeps waiting.
pub open spec fn is_foreign_packet(e: Error) -> bool {
    ||| e is InvalidPacket
    ||| e is NotEchoReply
    ||| e is NotV6EchoReply
    ||| e is OtherICMP
    ||| e is UnknownProtocol
}


/// The text that describes an error.
pub open spec fn error_message(e: Error) -> Seq<char> {
    match e {
        Error::InvalidPacket => "invalid packet"@,
        Error::NotEchoReply => "not an echo reply"@,
        Error::NotV6EchoReply => "not an ICMPv6 echo reply"@,
        Error::OtherICMP => "other ICMP message"@,
        Error::UnknownProtocol => "unknown protocol"@,
        Error::Timeout => "timeout"@,
        Error::InvalidSize => "invalid size"@,
        Error::Io(m) => "io error: "@ + m@,
    }
}

impl Error {
    /// A message that describes the error.
    pub fn message(&self) -> (m: String)
        ensures
            m@ == error_message(*self),
    {
        match self {
            Error::InvalidPacket => "invalid packet".to_owned(),
            Error::NotEchoReply => "not an echo reply".to_owned(),
            Error::NotV6EchoReply => "not an ICMPv6 echo reply".to_owned(),
            Error::OtherICMP => "other ICMP message".to_owned(),
            Error::UnknownProtocol => "unknown protocol".to_owned(),
            Error::Timeout => "timeout".to_owned(),
            Error::InvalidSize => "invalid size".to_owned(),
            Error::Io(m) => {
                let mut s = "io error: ".to_owned();
                s.append(m.as_str());
                s
            },
        }
    }
}
} // verus!
