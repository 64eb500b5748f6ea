use vstd::prelude::*;

verus! {

/// The kind of a wire message; its tag is the first byte on the wire.
#[derive(Debug, PartialEq, Eq, Structural, Clone, Copy)]
pub enum MessageType {
    Accepted,
    Rejected,
    Payload,
    Handshake,
    HandshakeAck,
}

/// Why a byte sequence is not a message.
#[derive(Debug, PartialEq, Eq, Structural, Clone, Copy)]
pub enum FramingError {
    /// No bytes at all.
    Empty,
    /// The first byte names no message type.
    UnknownTag,
    /// A payload message ends before its two length bytes.
    MissingLength,
    /// A payload message holds fewer bytes than its length field declares.
    MissingPayload,
}

/// The handshake ran out of attempts without an answer from the peer.
#[derive(Debug, PartialEq, Eq, Structural, Clone, Copy)]
pub struct HandshakeTimeout;

/// Whether this side may send its next state change, or waits for the peer's answer.
#[derive(Debug, PartialEq, Eq, Structural, Clone, Copy)]
pub enum NetState {
    Active,
    Waiting,
}

pub open spec fn tag_of(t: MessageType) -> u8 {
    match t {
        MessageType::Accepted => 0,
        MessageType::Rejected => 1,
        MessageType::Payload => 2,
        MessageType::Handshake => 3,
        MessageType::HandshakeAck => 4,
    }
}

pub open spec fn type_of_tag(b: u8) -> Option<MessageType> {
    if b == 0 {
        Some(MessageType::Accepted)
    } else if b == 1 {
        Some(MessageType::Rejected)
    } else if b == 2 {
        Some(MessageType::Payload)
    } else if b == 3 {
        Some(MessageType::Handshake)
    } else if b == 4 {
        Some(MessageType::HandshakeAck)
    } else {
        None
    }
}

/// A 16-bit length, most significant byte first.
pub open spec fn be16(n: u16) -> Seq<u8> {
    seq![(n / 256) as u8, (n % 256) as u8]
}

pub open spec fn from_be16(hi: u8, lo: u8) -> u16 {
    (hi * 256 + lo) as u16
}

/// The wire form of a message: the tag; for a payload message, then the declared
/// length and the payload bytes.
pub open spec fn encode_message(m: (MessageType, u16, Seq<u8>)) -> Seq<u8> {
    if m.0 == MessageType::Payload {
        seq![tag_of(m.0)] + be16(m.1) + m.2
    } else {
        seq![tag_of(m.0)]
    }
}

/// What a byte sequence decodes to. Bytes after the declared payload are not read.
pub open spec fn decode_message(b: Seq<u8>) -> Result<(MessageType, u16, Seq<u8>), FramingError> {
    if b.len() == 0 {
        Err(FramingError::Empty)
    } else if type_of_tag(b[0]) is None {
        Err(FramingError::UnknownTag)
    } else if type_of_tag(b[0]) != Some(MessageType::Payload) {
        Ok((type_of_tag(b[0])->0, 0u16, Seq::<u8>::empty()))
    } else if b.len() < 3 {
        Err(FramingError::MissingLength)
    } else if b.len() < 3 + from_be16(b[1], b[2]) {
        Err(FramingError::MissingPayload)
    } else {
        Ok((MessageType::Payload, from_be16(b[1], b[2]), b.subrange(3, 3 + from_be16(b[1], b[2]))))
    }
}

impl MessageType {
    /// The wire tag of this message type.
    pub fn to_byte(&self) -> (r: u8)
        ensures
            r == tag_of(*self),
    {
        match self {
            MessageType::Accepted => 0,
            MessageType::Rejected => 1,
            MessageType::Payload => 2,
            MessageType::Handshake => 3,
            MessageType::HandshakeAck => 4,
        }
    }

    /// The message type that a wire tag names.
    pub fn try_from(byte: u8) -> (r: Result<MessageType, FramingError>)
        ensures
            type_of_tag(byte) matches Some(t) ==> r == Ok::<MessageType, FramingError>(t),
            type_of_tag(byte) is None ==> r == Err::<MessageType, FramingError>(
                FramingError::UnknownTag,
            ),
    {
        match byte {
            0 => Ok(MessageType::Accepted),
            1 => Ok(MessageType::Rejected),
            2 => Ok(MessageType::Payload),
            3 => Ok(MessageType::Handshake),
            4 => Ok(MessageType::HandshakeAck),
            _ => Err(FramingError::UnknownTag),
        }
    }
}

impl From<MessageType> for u8 {
    fn from(mt: MessageType) -> (r: u8) {
        mt.to_byte()
    }
}

impl vstd::std_specs::convert::FromSpecImpl<MessageType> for u8 {
    open spec fn obeys_from_spec() -> bool {
        true
    }

    open spec fn from_spec(v: MessageType) -> u8 {
        tag_of(v)
    }
}

/// A wire message. Only a payload message carries bytes; `payload_size` is their count.
#[derive(Debug)]
pub struct Message {
    pub message_type: MessageType,
    pub payload_size: u16,
    pub payload: Vec<u8>,
}

impl View for Message {
    type V = (MessageType, u16, Seq<u8>);

    open spec fn view(&self) -> (MessageType, u16, Seq<u8>) {
        (self.message_type, self.payload_size, self.payload@)
    }
}

/// The declared size is the payload's length, and only a payload message has a payload.
pub open spec fn message_wf(m: (MessageType, u16, Seq<u8>)) -> bool {
    &&& m.1 == m.2.len()
    &&& m.0 != MessageType::Payload ==> m.2.len() == 0
}

impl Message {
    pub open spec fn wf(&self) -> bool {
        message_wf(self@)
    }

    /// A message without payload.
    pub fn signal(message_type: MessageType) -> (r: Message)
        requires
            message_type != MessageType::Payload,
        ensures
            r@ == (message_type, 0u16, Seq::<u8>::empty()),
            r.wf(),
    {
        Message { message_type, payload_size: 0, payload: Vec::new() }
    }

    /// A payload message that carries `payload`.
    pub fn with_payload(payload: Vec<u8>) -> (r: Message)
        requires
            payload@.len() <= u16::MAX,
        ensures
            r@ == (MessageType::Payload, payload@.len() as u16, payload@),
            r.wf(),
    {
        let payload_size = payload.len() as u16;
        Message { message_type: MessageType::Payload, payload_size, payload }
    }

    /// The wire form of this message.
    pub fn to_bytes(&self) -> (r: Vec<u8>)
        ensures
            r@ == encode_message(self@),
    {
        let mut bytes: Vec<u8> = Vec::new();
        bytes.push(self.message_type.to_byte());
        if self.message_type == MessageType::Payload {
            bytes.push((self.payload_size / 256) as u8);
            bytes.push((self.payload_size % 256) as u8);
            let mut i: usize = 0;
            while i < self.payload.len()
                invariant
                    i <= self.payload@.len(),
                    bytes@ == seq![tag_of(self.message_type)] + be16(self.payload_size)
                        + self.payload@.subrange(0, i as int),
                decreases self.payload@.len() - i,
            {
                bytes.push(self.payload[i]);
                i += 1;
                assert(self.payload@.subrange(0, i as int) =~= self.payload@.subrange(
                    0,
                    i - 1,
                ).push(self.payload@[i - 1]));
            }
            assert(self.payload@.subrange(0, i as int) =~= self.payload@);
        }
        assert(bytes@ =~= encode_message(self@));
        bytes
    }

    /// Reads one message from the front of `bytes`.
    pub fn try_from(bytes: &[u8]) -> (r: Result<Message, FramingError>)
        ensures
            r matches Ok(m) ==> decode_message(bytes@) == Ok::<
                (MessageType, u16, Seq<u8>),
                FramingError,
            >(m@),
            r matches Err(e) ==> decode_message(bytes@) == Err::<
                (MessageType, u16, Seq<u8>),
                FramingError,
            >(e),
    {
        if bytes.len() == 0 {
            return Err(FramingError::Empty);
        }
        let message_type = match MessageType::try_from(bytes[0]) {
            Ok(t) => t,
            Err(e) => return Err(e),
        };
        if message_type != MessageType::Payload {
            return Ok(Message { message_type, payload_size: 0, payload: Vec::new() });
        }
        if bytes.len() < 3 {
            return Err(FramingError::MissingLength);
        }
        let payload_size: u16 = (bytes[1] as u16) * 256 + bytes[2] as u16;
        let end: usize = 3 + payload_size as usize;
        if bytes.len() < end {
            return Err(FramingError::MissingPayload);
        }
        let mut payload: Vec<u8> = Vec::new();
        let mut i: usize = 3;
        while i < end
            invariant
                3 <= i <= end <= bytes@.len(),
                payload@ == bytes@.subrange(3, i as int),
            decreases end - i,
        {
            payload.push(bytes[i]);
            i += 1;
            assert(bytes@.subrange(3, i as int) =~= bytes@.subrange(3, i - 1).push(
                bytes@[i - 1],
            ));
        }
        Ok(Message { message_type, payload_size, payload })
    }
}

/// Decoding the wire form of a well-formed message gives back that message.
pub proof fn lemma_message_round_trip(m: Message)
    requires
        m.wf(),
    ensures
        decode_message(encode_message(m@)) == Ok::<(MessageType, u16, Seq<u8>), FramingError>(m@),
{
    let b = encode_message(m@);
    if m.message_type == MessageType::Payload {
        let n = m.payload_size;
        assert(from_be16((n / 256) as u8, (n % 256) as u8) == n);
        assert(b.subrange(3, 3 + n) =~= m.payload@);
    } else {
        assert(m.payload@ =~= Seq::<u8>::empty());
    }
}

/// How many handshake attempts are made before the connection is given up.
pub const HANDSHAKE_ATTEMPTS: u8 = 5;

/// What the connecting side does after one handshake read.
#[derive(Debug, PartialEq, Eq, Structural, Clone, Copy)]
pub enum HandshakeStep {
    /// The handshake is complete; answer with a `HandshakeAck` first when `send_ack` is set.
    Done { send_ack: bool },
    /// Try again; pause first when `pause` is set (the read failed).
    Retry { pause: bool },
    /// No attempt is left.
    Failed(HandshakeTimeout),
}

/// The connecting side of the handshake: whether it starts each attempt by sending
/// a `Handshake`, and how many attempts have failed so far.
#[derive(Debug, Clone, Copy)]
pub struct Handshake {
    pub is_host: bool,
    pub failed_attempts: u8,
}

/// The next step after a read that gave a message of type `received`, or gave none.
pub open spec fn handshake_step(failed_attempts: u8, received: Option<MessageType>) -> HandshakeStep {
    match received {
        Some(MessageType::Handshake) => HandshakeStep::Done { send_ack: true },
        Some(MessageType::HandshakeAck) => HandshakeStep::Done { send_ack: false },
        _ => if failed_attempts + 1 >= HANDSHAKE_ATTEMPTS {
            HandshakeStep::Failed(HandshakeTimeout)
        } else {
            HandshakeStep::Retry { pause: received is None }
        },
    }
}

impl Handshake {
    pub open spec fn wf(&self) -> bool {
        self.failed_attempts < HANDSHAKE_ATTEMPTS
    }

    /// A handshake before its first attempt.
    pub fn new(is_host: bool) -> (r: Handshake)
        ensures
            r.is_host == is_host,
            r.failed_attempts == 0,
            r.wf(),
    {
        Handshake { is_host, failed_attempts: 0 }
    }

    /// The host opens every attempt by sending a `Handshake`; the other side only listens.
    pub fn sends_handshake(&self) -> (r: bool)
        ensures
            r == self.is_host,
    {
        self.is_host
    }

    /// Takes the outcome of one read: the type of the message received, or `None`
    /// when the read failed. A `Handshake` or a `HandshakeAck` completes the handshake;
    /// anything else uses up an attempt, and the last one ends it in failure.
    pub fn on_read(&mut self, received: Option<MessageType>) -> (r: HandshakeStep)
        requires
            old(self).wf(),
        ensures
            r == handshake_step(old(self).failed_attempts, received),
            final(self).is_host == old(self).is_host,
            r is Retry ==> final(self).failed_attempts == old(self).failed_attempts + 1,
            !(r is Retry) ==> final(self).failed_attempts == old(self).failed_attempts,
            final(self).wf(),
    {
        match received {
            Some(MessageType::Handshake) => HandshakeStep::Done { send_ack: true },
            Some(MessageType::HandshakeAck) => HandshakeStep::Done { send_ack: false },
            _ => {
                if self.failed_attempts + 1 >= HANDSHAKE_ATTEMPTS {
                    HandshakeStep::Failed(HandshakeTimeout)
                } else {
                    self.failed_attempts = self.failed_attempts + 1;
                    HandshakeStep::Retry { pause: received.is_none() }
                }
            },
        }
    }
}

/// The outcome of a handshake that sees the given reads in turn, from `failed_attempts`
/// attempts already failed; `None` when the reads run out first.
pub open spec fn handshake_outcome(failed_attempts: u8, reads: Seq<Option<MessageType>>) -> Option<
    HandshakeStep,
>
    decreases reads.len(),
{
    if reads.len() == 0 {
        None
    } else {
        match handshake_step(failed_attempts, reads[0]) {
            HandshakeStep::Retry { .. } => handshake_outcome(
                (failed_attempts + 1) as u8,
                reads.drop_first(),
            ),
            step => Some(step),
        }
    }
}

/// Five reads in a row that bring no handshake message end a fresh handshake in failure.
pub proof fn lemma_handshake_gives_up(reads: Seq<Option<MessageType>>)
    requires
        reads.len() == HANDSHAKE_ATTEMPTS,
        forall|i: int|
            0 <= i < reads.len() ==> #[trigger] reads[i] != Some(MessageType::Handshake)
                && reads[i] != Some(MessageType::HandshakeAck),
    ensures
        handshake_outcome(0, reads) == Some(HandshakeStep::Failed(HandshakeTimeout)),
{
    let r1 = reads.drop_first();
    let r2 = r1.drop_first();
    let r3 = r2.drop_first();
    let r4 = r3.drop_first();
    assert(reads[0] != Some(MessageType::Handshake));
    assert(r1[0] == reads[1] && reads[1] != Some(MessageType::Handshake));
    assert(r2[0] == reads[2] && reads[2] != Some(MessageType::Handshake));
    assert(r3[0] == reads[3] && reads[3] != Some(MessageType::Handshake));
    assert(r4[0] == reads[4] && reads[4] != Some(MessageType::Handshake));
    assert(handshake_outcome(4, r4) == Some(HandshakeStep::Failed(HandshakeTimeout)));
    assert(handshake_outcome(3, r3) == handshake_outcome(4, r4));
    assert(handshake_outcome(2, r2) == handshake_outcome(3, r3));
    assert(handshake_outcome(1, r1) == handshake_outcome(2, r2));
    assert(handshake_outcome(0, reads) == handshake_outcome(1, r1));
}

} // verus!
