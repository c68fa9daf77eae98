use vstd::prelude::*;

verus! {

/// How many leading payload bytes carry the identifying token.
pub const TOKEN_SIZE: usize = 8;

/// Default number of generated payload bytes in an echo request.
pub const DEFAULT_PAYLOAD_SIZE: usize = 56;

/// The token placed at the start of a generated payload: `"tp"`, then the
/// identifier, the sequence number and the low 16 bits of the payload size,
/// each big-endian.
pub open spec fn payload_token(ident: u16, sequence: u16, size: usize) -> Seq<u8> {
    seq![
        116u8,
        112u8,
        (ident / 256) as u8,
        (ident % 256) as u8,
        (sequence / 256) as u8,
        (sequence % 256) as u8,
        ((size / 256) % 256) as u8,
        (size % 256) as u8,
    ]
}

/// The payload generated for a request without custom bytes: `size` bytes,
/// the first (at most eight) of them from the token, the rest zero.
pub open spec fn generated_payload(ident: u16, sequence: u16, size: usize) -> Seq<u8> {
    Seq::new(
        size as nat,
        |i: int| if i < TOKEN_SIZE { payload_token(ident, sequence, size)[i] } else { 0u8 },
    )
}

fn token_byte(ident: u16, sequence: u16, size: usize, i: usize) -> (b: u8)
    requires
        i < TOKEN_SIZE,
    ensures
        b == payload_token(ident, sequence, size)[i as int],
{
    if i == 0 {
        116u8
    } else if i == 1 {
        112u8
    } else if i == 2 {
        (ident / 256) as u8
    } else if i == 3 {
        (ident % 256) as u8
    } else if i == 4 {
        (sequence / 256) as u8
    } else if i == 5 {
        (sequence % 256) as u8
    } else if i == 6 {
        ((size / 256) % 256) as u8
    } else {
        (size % 256) as u8
    }
}

/// Builds the default payload of `size` bytes for the given identifier and
/// sequence number.
pub fn request_payload(ident: u16, seq_cnt: u16, size: usize) -> (payload: Vec<u8>)
    ensures
        payload@ == generated_payload(ident, seq_cnt, size),
{
    let mut payload: Vec<u8> = Vec::new();
    let mut i: usize = 0;
    while i < size
        invariant
            i <= size,
            payload@.len() == i,
            forall|j: int| 0 <= j < i ==> payload@[j] == #[trigger] generated_payload(ident, seq_cnt, size)[j],
        decreases size - i,
    {
        if i < TOKEN_SIZE {
            let b = token_byte(ident, seq_cnt, size, i);
            payload.push(b);
        } else {
            payload.push(0u8);
        }
        i = i + 1;
    }
    assert(payload@ =~= generated_payload(ident, seq_cnt, size));
    payload
}


/// A single ICMP echo request: a sequence number and, optionally, exact
/// payload bytes (without them the pinger's generated payload is used).
#[derive(Clone, Debug)]
pub struct PingRequest {
    sequence: u16,
    payload: Option<Vec<u8>>,
}

impl View for PingRequest {
    type V = (u16, Option<Seq<u8>>);

    closed spec fn view(&self) -> (u16, Option<Seq<u8>>) {
        (
            self.sequence,
            match self.payload {
                Some(p) => Some(p@),
                None => None,
            },
        )
    }
}

impl PingRequest {
    /// Creates a request with a sequence number and the pinger's default payload.
    pub fn new(sequence: u16) -> (r: Self)
        ensures
            r@ == (sequence, None::<Seq<u8>>),
    {
        PingRequest { sequence, payload: None }
    }

    /// Uses exact bytes as the ICMP echo payload for this request.
    pub fn payload(self, payload: Vec<u8>) -> (r: Self)
        ensures
            r@ == (self@.0, Some(payload@)),
    {
        PingRequest { sequence: self.sequence, payload: Some(payload) }
    }

    /// Returns the ICMP sequence number.
    pub fn sequence(&self) -> (s: u16)
        ensures
            s == self@.0,
    {
        self.sequence
    }

    /// Returns the custom payload bytes, if this request has one.
    pub fn payload_bytes(&self) -> (p: Option<&[u8]>)
        ensures
            match p {
                Some(b) => self@.1 == Some(b@),
                None => self@.1 == None::<Seq<u8>>,
            },
    {
        match &self.payload {
            Some(v) => Some(v.as_slice()),
            None => None,
        }
    }
}

impl From<u16> for PingRequest {
    fn from(sequence: u16) -> (r: Self)
        ensures
            r@ == (sequence, None::<Seq<u8>>),
    {
        PingRequest::new(sequence)
    }
}

impl vstd::std_specs::convert::FromSpecImpl<u16> for PingRequest {
    open spec fn obeys_from_spec() -> bool {
        true
    }

    closed spec fn from_spec(sequence: u16) -> Self {
        PingRequest { sequence, payload: None }
    }
}

/// A request with its payload settled: the bytes to send and whether a
/// reply must echo exactly those bytes.
#[derive(Debug)]
pub struct ResolvedPingRequest {
    pub sequence: u16,
    pub payload: Vec<u8>,
    pub match_payload: bool,
}

/// What resolving `request` for a pinger with identifier `ident` and default
/// payload size `size` yields: custom bytes are sent as they are and must be
/// echoed exactly; otherwise the generated payload is sent, and it is matched
/// only when it is not empty.
pub open spec fn resolves_to(
    ident: u16,
    size: usize,
    request: (u16, Option<Seq<u8>>),
    resolved: (u16, Seq<u8>, bool),
) -> bool {
    &&& resolved.0 == request.0
    &&& match request.1 {
        Some(p) => resolved.1 == p && resolved.2,
        None => resolved.1 == generated_payload(ident, request.0, size) && resolved.2 == (size
            > 0),
    }
}

impl ResolvedPingRequest {
    pub open spec fn parts(&self) -> (u16, Seq<u8>, bool) {
        (self.sequence, self.payload@, self.match_payload)
    }
}

/// Settles the payload of `request` for a pinger with identifier `ident` and
/// default payload size `default_payload_size`.
pub fn resolve_ping_request(ident: u16, default_payload_size: usize, request: PingRequest) -> (r:
    ResolvedPingRequest)
    ensures
        resolves_to(ident, default_payload_size, request@, r.parts()),
        r.sequence == request@.0,
        request@.1 is None ==> r.payload@.len() == default_payload_size && r.payload@
            == generated_payload(ident, request@.0, default_payload_size) && r.match_payload == (
        default_payload_size > 0),
        request@.1 matches Some(p) ==> r.payload@ == p && r.match_payload,
{
    match request.payload {
        Some(payload) => ResolvedPingRequest {
            sequence: request.sequence,
            payload,
            match_payload: true,
        },
        None => {
            let payload = request_payload(ident, request.sequence, default_payload_size);
            let match_payload = payload.len() != 0;
            ResolvedPingRequest { sequence: request.sequence, payload, match_payload }
        },
    }
}


/// A generated payload has exactly the requested size; its first bytes (as
/// many as fit, at most eight) are the token and the remaining bytes are zero.
pub proof fn lemma_generated_payload_shape(ident: u16, sequence: u16, size: usize)
    ensures
        ({
            let p = generated_payload(ident, sequence, size);
            let k = if size < TOKEN_SIZE {
                size as int
            } else {
                TOKEN_SIZE as int
            };
            &&& p.len() == size
            &&& p.take(k) == payload_token(ident, sequence, size).take(k)
            &&& forall|i: int| k <= i < size ==> #[trigger] p[i] == 0u8
            &&& size >= 2 ==> p[0] == 116u8 && p[1] == 112u8
            &&& size >= 4 ==> p[2] * 256 + p[3] == ident
            &&& size >= 6 ==> p[4] * 256 + p[5] == sequence
            &&& size >= 8 ==> p[6] * 256 + p[7] == size % 65536
        }),
{
    let p = generated_payload(ident, sequence, size);
    let k = if size < TOKEN_SIZE {
        size as int
    } else {
        TOKEN_SIZE as int
    };
    assert(p.take(k) =~= payload_token(ident, sequence, size).take(k));
}

/// A generated payload of at least six bytes names the identifier and the
/// sequence number it was made for: two such payloads of one size are equal
/// only for equal identifiers and sequence numbers.
pub proof fn lemma_generated_payload_identifies(
    ident1: u16,
    sequence1: u16,
    ident2: u16,
    sequence2: u16,
    size: usize,
)
    requires
        size >= 6,
        generated_payload(ident1, sequence1, size) == generated_payload(ident2, sequence2, size),
    ensures
        ident1 == ident2,
        sequence1 == sequence2,
{
    let p1 = generated_payload(ident1, sequence1, size);
    let p2 = generated_payload(ident2, sequence2, size);
    assert(p1[2] == p2[2] && p1[3] == p2[3] && p1[4] == p2[4] && p1[5] == p2[5]);
    assert(ident1 == (ident1 / 256) * 256 + ident1 % 256);
    assert(ident2 == (ident2 / 256) * 256 + ident2 % 256);
    assert(sequence1 == (sequence1 / 256) * 256 + sequence1 % 256);
    assert(sequence2 == (sequence2 / 256) * 256 + sequence2 % 256);
}

/// Resolving settles exactly what is sent: custom bytes unchanged and
/// matched; otherwise exactly `size` generated bytes for this identifier and
/// sequence number, whose token begins with "tp", matched when not empty.
pub proof fn lemma_resolved_payload(
    ident: u16,
    size: usize,
    request: (u16, Option<Seq<u8>>),
    resolved: (u16, Seq<u8>, bool),
)
    requires
        resolves_to(ident, size, request, resolved),
    ensures
        resolved.0 == request.0,
        request.1 matches Some(p) ==> resolved.1 == p && resolved.2,
        request.1 is None ==> resolved.1.len() == size && resolved.2 == (size > 0),
        request.1 is None && size >= 2 ==> resolved.1[0] == 116u8 && resolved.1[1] == 112u8,
        request.1 is None ==> forall|i: int| TOKEN_SIZE <= i < size ==> #[trigger] resolved.1[i] == 0u8,
{
}
} // verus!
