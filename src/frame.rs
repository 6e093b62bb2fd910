//! Binary frames: `BEGIN LEN HEADER PAYLOAD CHECKSUM END`.

use vstd::prelude::*;

verus! {

/// First byte of every frame.
pub const FRAME_BEGIN: u8 = 0xfd;

/// Last byte of every frame.
pub const FRAME_END: u8 = 0xfe;

pub const OPCODE_MASK: u8 = 0xf0;
pub const OPCODE_DATA: u8 = 0x00;
pub const OPCODE_SHUTDOWN: u8 = 0x10;
pub const OPCODE_OPEN: u8 = 0x20;

pub const CHANNEL_MASK: u8 = 0x0f;

/// Largest payload a frame can carry: LEN is one byte and counts the header.
pub const MAX_FRAME_DATA: usize = 254;

#[derive(Clone, Copy, Debug, PartialEq, Eq, Structural)]
pub enum Opcode {
    Data,
    Shutdown,
    Open,
}

/// The opcode that the high nibble of a header byte names, if any.
pub open spec fn opcode_of(byte: u8) -> Option<Opcode> {
    let hi = byte & OPCODE_MASK;
    if hi == OPCODE_DATA {
        Some(Opcode::Data)
    } else if hi == OPCODE_SHUTDOWN {
        Some(Opcode::Shutdown)
    } else if hi == OPCODE_OPEN {
        Some(Opcode::Open)
    } else {
        None
    }
}

impl Opcode {
    /// The high-nibble bits that stand for this opcode in a header byte.
    pub open spec fn bits(self) -> u8 {
        match self {
            Opcode::Data => OPCODE_DATA,
            Opcode::Shutdown => OPCODE_SHUTDOWN,
            Opcode::Open => OPCODE_OPEN,
        }
    }

    pub fn from_header_byte(byte: u8) -> (r: Option<Opcode>)
        ensures
            r == opcode_of(byte),
    {
        let hi = byte & OPCODE_MASK;
        if hi == OPCODE_DATA {
            Some(Opcode::Data)
        } else if hi == OPCODE_SHUTDOWN {
            Some(Opcode::Shutdown)
        } else if hi == OPCODE_OPEN {
            Some(Opcode::Open)
        } else {
            None
        }
    }

    pub fn to_header_byte(&self) -> (r: u8)
        ensures
            r == self.bits(),
    {
        match self {
            Opcode::Data => OPCODE_DATA,
            Opcode::Shutdown => OPCODE_SHUTDOWN,
            Opcode::Open => OPCODE_OPEN,
        }
    }
}

/// A logical channel; only the low four bits are ever put on the wire.
#[derive(Clone, Copy, Debug, PartialEq, Eq, Structural)]
pub struct ChannelId(pub u8);

impl ChannelId {
    pub fn from_header_byte(byte: u8) -> (r: ChannelId)
        ensures
            r.0 == byte & CHANNEL_MASK,
            r.0 < 16,
    {
        assert(byte & 0x0f < 16) by (bit_vector);
        ChannelId(byte & CHANNEL_MASK)
    }

    pub fn to_header_byte(&self) -> (r: u8)
        ensures
            r == self.0 & CHANNEL_MASK,
            r < 16,
    {
        let c = self.0;
        assert(c & 0x0f < 16) by (bit_vector);
        self.0 & CHANNEL_MASK
    }
}

/// A frame with its payload, as it is sent or as it was received.
#[derive(Clone, Debug)]
pub struct Frame {
    pub opcode: Opcode,
    pub channel: ChannelId,
    pub data: Vec<u8>,
}

/// What a frame means: opcode, channel number and payload bytes.
pub struct FrameView {
    pub opcode: Opcode,
    pub channel: u8,
    pub data: Seq<u8>,
}

impl View for Frame {
    type V = FrameView;

    open spec fn view(&self) -> FrameView {
        FrameView { opcode: self.opcode, channel: self.channel.0, data: self.data@ }
    }
}

/// The header byte: opcode in the high nibble, channel in the low one.
pub open spec fn header_byte(opcode: Opcode, channel: u8) -> u8 {
    (channel & CHANNEL_MASK) | opcode.bits()
}

/// Mod-256 sum of the bytes, added from first to last.
pub open spec fn checksum(bytes: Seq<u8>) -> u8
    decreases bytes.len(),
{
    if bytes.len() == 0 {
        0
    } else {
        ((checksum(bytes.drop_last()) as int + bytes.last() as int) % 256) as u8
    }
}

/// The wire form of a frame whose payload fits in a frame.
pub open spec fn frame_bytes(f: FrameView) -> Seq<u8> {
    let header = header_byte(f.opcode, f.channel);
    seq![FRAME_BEGIN, (f.data.len() + 1) as u8, header] + f.data + seq![
        checksum(seq![header] + f.data),
        FRAME_END,
    ]
}

#[derive(Debug)]
pub enum SendError {
    DataTooLong,
    Io(std::io::Error),
}

/// Encodes a frame for the wire; a payload over `MAX_FRAME_DATA` bytes does
/// not fit a one-byte length and is refused.
pub fn encode_frame(frame: &Frame) -> (r: Result<Vec<u8>, SendError>)
    ensures
        r is Err <==> frame.data@.len() > MAX_FRAME_DATA,
        r matches Err(e) ==> e is DataTooLong,
        r matches Ok(v) ==> v@ == frame_bytes(frame@),
{
    let n = frame.data.len();
    if n > MAX_FRAME_DATA {
        return Err(SendError::DataTooLong);
    }
    let len = (n + 1) as u8;
    let header = frame.channel.to_header_byte() | frame.opcode.to_header_byte();
    assert(header == header_byte(frame.opcode, frame.channel.0));

    let mut out: Vec<u8> = Vec::new();
    out.push(FRAME_BEGIN);
    out.push(len);
    out.push(header);

    let mut cksum = header;
    assert(seq![header].drop_last() =~= Seq::<u8>::empty());
    assert(checksum(seq![header].drop_last()) == 0);
    assert(checksum(seq![header]) == header);

    let mut i: usize = 0;
    while i < n
        invariant
            n == frame.data@.len(),
            i <= n,
            out@ == seq![FRAME_BEGIN, len, header] + frame.data@.subrange(0, i as int),
            cksum == checksum(seq![header] + frame.data@.subrange(0, i as int)),
        decreases n - i,
    {
        let b = frame.data[i];
        let ghost prev = seq![header] + frame.data@.subrange(0, i as int);
        let ghost next = seq![header] + frame.data@.subrange(0, i as int + 1);
        assert(next.drop_last() =~= prev);
        cksum = cksum.wrapping_add(b);
        out.push(b);
        i = i + 1;
        assert(out@ =~= seq![FRAME_BEGIN, len, header] + frame.data@.subrange(0, i as int));
    }
    assert(frame.data@.subrange(0, n as int) =~= frame.data@);
    out.push(cksum);
    out.push(FRAME_END);
    assert(out@ =~= frame_bytes(frame@));
    Ok(out)
}

} // verus!
