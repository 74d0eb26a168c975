//! Board-to-board framing: a 4-byte header `[version][msg_type][len: u16 big-endian]`
//! followed by exactly `len` payload bytes.

use vstd::prelude::*;

verus! {

/// Message header type: what kind of payload follows the header.
#[derive(Clone, Copy, Debug, PartialEq, Eq, Structural)]
pub enum MessageType {
    Lidar,
    Accelerometer,
}

/// A frame header for board-to-board peripheral communication.
#[derive(Clone, Copy, Debug, PartialEq, Eq, Structural)]
pub struct MoverPacket {
    pub version: u8,
    pub msg_type: MessageType,
    pub len: u16,
}

/// The byte that encodes a message type on the wire.
pub open spec fn type_byte(t: MessageType) -> u8 {
    match t {
        MessageType::Lidar => 0,
        MessageType::Accelerometer => 1,
    }
}

/// The message type that a byte encodes, if any.
pub open spec fn type_of_byte(b: u8) -> Option<MessageType> {
    if b == 0 {
        Some(MessageType::Lidar)
    } else if b == 1 {
        Some(MessageType::Accelerometer)
    } else {
        None
    }
}

/// The four header bytes of a packet.
pub open spec fn header_bytes(p: MoverPacket) -> Seq<u8> {
    seq![p.version, type_byte(p.msg_type), (p.len / 256) as u8, (p.len % 256) as u8]
}

/// The packet that four header bytes describe; `None` for any other length or an
/// unknown message type.
pub open spec fn parse_header(b: Seq<u8>) -> Option<MoverPacket> {
    if b.len() != 4 {
        None
    } else {
        match type_of_byte(b[1]) {
            Some(t) => Some(
                MoverPacket { version: b[0], msg_type: t, len: (b[2] as int * 256 + b[3] as int) as u16 },
            ),
            None => None,
        }
    }
}

/// Why one frame of a stream could not be read.
#[derive(Clone, Copy, Debug, PartialEq, Eq, Structural)]
pub enum FrameError {
    /// The header's type byte names no message type; the frame's payload is skipped
    UnknownType(u8),
    /// The stream ends before the payload its header declares
    Truncated,
}

/// One frame as read from a stream: its header and payload, or why it could not be read.
pub type Frame = Result<(MoverPacket, Vec<u8>), FrameError>;

/// The length a header's last two bytes declare, big-endian.
pub open spec fn declared_len(s: Seq<u8>) -> int {
    s[2] as int * 256 + s[3] as int
}

/// The frames of a byte stream: repeatedly a header, then its payload. A frame with
/// an unknown type is an error for that frame alone, and reading goes on after its
/// payload; a payload cut short is an error that ends the stream. A trailing remainder
/// shorter than a header is ignored.
pub open spec fn parse_stream(s: Seq<u8>) -> Seq<Result<(MoverPacket, Seq<u8>), FrameError>>
    decreases s.len(),
{
    if s.len() < 4 {
        Seq::empty()
    } else {
        let end = 4 + declared_len(s);
        if s.len() < end {
            seq![Err(FrameError::Truncated)]
        } else {
            let frame = match parse_header(s.subrange(0, 4)) {
                Some(p) => Ok((p, s.subrange(4, end))),
                None => Err(FrameError::UnknownType(s[1])),
            };
            seq![frame] + parse_stream(s.subrange(end, s.len() as int))
        }
    }
}

/// The bytes of a sequence of frames, each header followed by its payload.
pub open spec fn encode_stream(frames: Seq<(MoverPacket, Seq<u8>)>) -> Seq<u8>
    decreases frames.len(),
{
    if frames.len() == 0 {
        Seq::empty()
    } else {
        header_bytes(frames[0].0) + frames[0].1 + encode_stream(frames.drop_first())
    }
}

/// A frame whose payload length matches the length its header declares.
pub open spec fn frame_consistent(f: (MoverPacket, Seq<u8>)) -> bool {
    f.1.len() == f.0.len as int
}

/// The view of one read frame.
pub open spec fn frame_view(f: Frame) -> Result<(MoverPacket, Seq<u8>), FrameError> {
    match f {
        Ok((p, v)) => Ok((p, v@)),
        Err(e) => Err(e),
    }
}

/// The view of read frames.
pub open spec fn frames_view(v: Seq<Frame>) -> Seq<Result<(MoverPacket, Seq<u8>), FrameError>> {
    v.map_values(|f: Frame| frame_view(f))
}

impl MessageType {
    /// Decodes a message type byte.
    pub fn from_byte(byte: u8) -> (r: Option<Self>)
        ensures
            r == type_of_byte(byte),
    {
        match byte {
            0 => Some(Self::Lidar),
            1 => Some(Self::Accelerometer),
            _ => None,
        }
    }

    /// Encodes a message type as its wire byte.
    pub fn to_byte(&self) -> (r: u8)
        ensures
            r == type_byte(*self),
    {
        match self {
            Self::Lidar => 0,
            Self::Accelerometer => 1,
        }
    }
}

impl MoverPacket {
    pub fn new(version: u8, msg_type: MessageType, len: u16) -> (r: Self)
        ensures
            r == (MoverPacket { version, msg_type, len }),
    {
        Self { version, msg_type, len }
    }

    /// A version-1 header for a payload; the payload length must fit the 16-bit field.
    pub fn v1_from_data(msg_type: MessageType, data: &[u8]) -> (r: Self)
        requires
            data@.len() <= u16::MAX,
        ensures
            r == (MoverPacket { version: 1, msg_type, len: data@.len() as u16 }),
    {
        Self { version: 1, msg_type, len: data.len() as u16 }
    }

    /// The four header bytes, length in big-endian order.
    pub fn to_bytes(&self) -> (r: [u8; 4])
        ensures
            r@ == header_bytes(*self),
    {
        let hi = (self.len / 256) as u8;
        let lo = (self.len % 256) as u8;
        let r = [self.version, self.msg_type.to_byte(), hi, lo];
        assert(r@ =~= header_bytes(*self));
        r
    }

    /// Decodes a header; rejects any input that is not exactly four bytes or whose
    /// type byte is unknown.
    pub fn from_bytes(bytes: &[u8]) -> (r: Option<Self>)
        ensures
            r == parse_header(bytes@),
            bytes@.len() != 4 ==> r is None,
            bytes@.len() == 4 && type_of_byte(bytes@[1]) is None ==> r is None,
    {
        if bytes.len() != 4 {
            None
        } else {
            let version = bytes[0];
            let msg_type = match MessageType::from_byte(bytes[1]) {
                Some(t) => t,
                None => return None,
            };
            let len = (bytes[2] as u16) * 256 + (bytes[3] as u16);
            Some(Self::new(version, msg_type, len))
        }
    }

    /// The header followed by the payload.
    pub fn serialize_completely(&self, data: &[u8]) -> (r: Vec<u8>)
        ensures
            r@ == header_bytes(*self) + data@,
    {
        let mut res: Vec<u8> = Vec::new();
        let bytes = self.to_bytes();
        let mut i: usize = 0;
        while i < 4
            invariant
                0 <= i <= 4,
                bytes@ == header_bytes(*self),
                res@ == bytes@.subrange(0, i as int),
            decreases 4 - i,
        {
            res.push(bytes[i]);
            i += 1;
            assert(res@ =~= bytes@.subrange(0, i as int));
        }
        let mut j: usize = 0;
        while j < data.len()
            invariant
                0 <= j <= data@.len(),
                res@ == header_bytes(*self) + data@.subrange(0, j as int),
            decreases data@.len() - j,
        {
            res.push(data[j]);
            j += 1;
            assert(res@ =~= header_bytes(*self) + data@.subrange(0, j as int));
        }
        assert(data@.subrange(0, data@.len() as int) =~= data@);
        res
    }
}

/// Copies `input[start..end]` into a new vector.
fn copy_range(input: &[u8], start: usize, end: usize) -> (r: Vec<u8>)
    requires
        start <= end <= input@.len(),
    ensures
        r@ == input@.subrange(start as int, end as int),
{
    let mut r: Vec<u8> = Vec::new();
    let mut i: usize = start;
    while i < end
        invariant
            start <= i <= end,
            end <= input@.len(),
            r@ == input@.subrange(start as int, i as int),
        decreases end - i,
    {
        r.push(input[i]);
        i += 1;
        assert(r@ =~= input@.subrange(start as int, i as int));
    }
    r
}

/// Splits a whole stream into its frames, each a header and its payload or the error
/// of that frame.
pub fn data_stream_to_packet_pairs(input: &[u8]) -> (r: Vec<Frame>)
    ensures
        frames_view(r@) == parse_stream(input@),
{
    let mut res: Vec<Frame> = Vec::new();
    let mut pos: usize = 0;
    proof {
        assert(input@.subrange(0, input@.len() as int) =~= input@);
        assert(frames_view(res@) + parse_stream(input@) =~= parse_stream(input@));
    }
    while input.len() - pos >= 4
        invariant
            pos <= input@.len(),
            parse_stream(input@) == frames_view(res@) + parse_stream(input@.subrange(pos as int, input@.len() as int)),
        decreases input@.len() - pos,
    {
        let ghost rest = input@.subrange(pos as int, input@.len() as int);
        let header = copy_range(input, pos, pos + 4);
        assert(header@ =~= rest.subrange(0, 4));
        let len = (input[pos + 2] as usize) * 256 + (input[pos + 3] as usize);
        assert(len == declared_len(rest));
        let ghost old_res = res@;
        if input.len() - pos - 4 < len {
            res.push(Err(FrameError::Truncated));
            proof {
                assert(frames_view(res@) =~= frames_view(old_res) + seq![Err::<(MoverPacket, Seq<u8>), FrameError>(FrameError::Truncated)]);
                assert(frames_view(old_res) + seq![Err::<(MoverPacket, Seq<u8>), FrameError>(FrameError::Truncated)] =~= frames_view(res@));
            }
            return res;
        }
        let frame: Frame = match MoverPacket::from_bytes(header.as_slice()) {
            Some(p) => Ok((p, copy_range(input, pos + 4, pos + 4 + len))),
            None => Err(FrameError::UnknownType(input[pos + 1])),
        };
        let ghost fv = frame;
        proof {
            assert(input@.subrange(pos + 4 + len, input@.len() as int) =~= rest.subrange(
                4 + len as int,
                rest.len() as int,
            ));
            match fv {
                Ok((p, v)) => assert(v@ =~= rest.subrange(4, 4 + len as int)),
                Err(_) => {},
            }
        }
        res.push(frame);
        proof {
            assert(frames_view(res@) =~= frames_view(old_res) + seq![frame_view(frame)]);
            let tail = parse_stream(input@.subrange(pos + 4 + len, input@.len() as int));
            assert(frames_view(old_res) + (seq![frame_view(frame)] + tail) =~= frames_view(res@) + tail);
        }
        pos = pos + 4 + len;
    }
    proof {
        assert(parse_stream(input@.subrange(pos as int, input@.len() as int)) =~= Seq::<Result<(MoverPacket, Seq<u8>), FrameError>>::empty());
        assert(frames_view(res@) + Seq::<Result<(MoverPacket, Seq<u8>), FrameError>>::empty() =~= frames_view(res@));
    }
    res
}

/// A header survives encoding and decoding unchanged.
pub proof fn lemma_header_round_trip(p: MoverPacket)
    ensures
        parse_header(header_bytes(p)) == Some(p),
{
    let b = header_bytes(p);
    assert(b[2] as int * 256 + b[3] as int == p.len as int);
}

/// Four bytes that decode to a header are exactly that header's encoding.
pub proof fn lemma_bytes_round_trip(b: Seq<u8>)
    requires
        parse_header(b) is Some,
    ensures
        header_bytes(parse_header(b)->0) =~= b,
{
    let p = parse_header(b)->0;
    assert(p.len as int == b[2] as int * 256 + b[3] as int);
    assert((p.len / 256) as u8 == b[2]);
    assert((p.len % 256) as u8 == b[3]);
}

/// Frames written one after another, each payload as long as its header declares,
/// parse back to exactly those frames.
pub proof fn lemma_stream_round_trip(frames: Seq<(MoverPacket, Seq<u8>)>)
    requires
        forall|i: int| 0 <= i < frames.len() ==> frame_consistent(#[trigger] frames[i]),
    ensures
        parse_stream(encode_stream(frames)) == frames.map_values(
            |f: (MoverPacket, Seq<u8>)| Ok::<(MoverPacket, Seq<u8>), FrameError>(f),
        ),
    decreases frames.len(),
{
    if frames.len() == 0 {
        assert(frames.map_values(|f: (MoverPacket, Seq<u8>)| Ok::<(MoverPacket, Seq<u8>), FrameError>(f)) =~= Seq::<Result<(MoverPacket, Seq<u8>), FrameError>>::empty());
    } else {
        let f = frames[0];
        let rest = frames.drop_first();
        assert forall|i: int| 0 <= i < rest.len() implies frame_consistent(#[trigger] rest[i]) by {
            assert(rest[i] == frames[i + 1]);
        }
        lemma_stream_round_trip(rest);
        lemma_header_round_trip(f.0);
        assert(frame_consistent(frames[0]));
        let s = encode_stream(frames);
        let end = 4 + f.0.len as int;
        assert(s == header_bytes(f.0) + f.1 + encode_stream(rest));
        assert(s.subrange(0, 4) =~= header_bytes(f.0));
        assert(s.subrange(4, end) =~= f.1);
        assert(s.subrange(end, s.len() as int) =~= encode_stream(rest));
        assert(declared_len(s) == f.0.len as int);
        assert(seq![Ok::<(MoverPacket, Seq<u8>), FrameError>((f.0, f.1))] + rest.map_values(
            |f: (MoverPacket, Seq<u8>)| Ok::<(MoverPacket, Seq<u8>), FrameError>(f),
        ) =~= frames.map_values(|f: (MoverPacket, Seq<u8>)| Ok::<(MoverPacket, Seq<u8>), FrameError>(f)));
    }
}

} // verus!
