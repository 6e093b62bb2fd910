//! The line/frame demultiplexer: turns the raw byte stream into unframed text
//! lines and validated frames, one byte at a time.

use vstd::prelude::*;
use crate::frame::{
    checksum, frame_bytes, header_byte, opcode_of, MAX_FRAME_DATA, ChannelId, Frame, FrameView, Opcode, CHANNEL_MASK, FRAME_BEGIN,
    FRAME_END,
};

verus! {

/// Bytes of an unframed line kept beyond this count are dropped.
pub const MAX_UNFRAMED_LINE: usize = 1024;

/// Terminator of an unframed line.
pub const NEWLINE: u8 = 0x0a;

/// Where the demultiplexer stands in the byte stream.
#[derive(Clone, Copy, Debug, PartialEq, Eq, Structural)]
pub enum Phase {
    /// Between frames: bytes go to the unframed line.
    Line,
    /// `BEGIN` seen: the next byte is LEN.
    Length,
    /// Reading the LEN bytes of header and payload.
    Body { len: u8 },
    /// Header and payload read: the next byte is the checksum.
    Checksum { len: u8 },
    /// Checksum read: the next byte must be `END`.
    End { len: u8, wire: u8 },
}

#[derive(Debug)]
pub enum ReceiveError {
    Io(std::io::Error),
}

#[derive(Debug)]
pub enum Event {
    UnframedLine(Vec<u8>),
    Frame(Frame),
}

pub enum EventView {
    UnframedLine(Seq<u8>),
    Frame(FrameView),
}

impl View for Event {
    type V = EventView;

    open spec fn view(&self) -> EventView {
        match self {
            Event::UnframedLine(line) => EventView::UnframedLine(line@),
            Event::Frame(frame) => EventView::Frame(frame@),
        }
    }
}

pub open spec fn event_view(e: Option<Event>) -> Option<EventView> {
    match e {
        Some(ev) => Some(ev@),
        None => None,
    }
}

pub open spec fn events_view(es: Seq<Event>) -> Seq<EventView> {
    es.map_values(|e: Event| e@)
}

/// The demultiplexer's state: its phase, the unframed line gathered so far
/// and the bytes of the frame being read.
pub struct ProtocolView {
    pub phase: Phase,
    pub unframed: Seq<u8>,
    pub frame: Seq<u8>,
}

/// The event that the byte after the checksum completes, if the frame is valid.
pub open spec fn frame_event(frame: Seq<u8>, len: u8, wire: u8, end: u8) -> Option<EventView> {
    if end == FRAME_END && wire == checksum(frame) && len >= 1 && opcode_of(frame[0]) is Some {
        Some(
            EventView::Frame(
                FrameView {
                    opcode: opcode_of(frame[0]).unwrap(),
                    channel: frame[0] & CHANNEL_MASK,
                    data: frame.drop_first(),
                },
            ),
        )
    } else {
        None
    }
}

/// One byte of input: the next state and the event it completes, if any.
pub open spec fn step(s: ProtocolView, b: u8) -> (ProtocolView, Option<EventView>) {
    match s.phase {
        Phase::Line => {
            if b == FRAME_BEGIN {
                (ProtocolView { phase: Phase::Length, ..s }, None)
            } else {
                let u = if s.unframed.len() < MAX_UNFRAMED_LINE {
                    s.unframed.push(b)
                } else {
                    s.unframed
                };
                if b == NEWLINE {
                    (
                        ProtocolView { unframed: Seq::empty(), ..s },
                        Some(EventView::UnframedLine(u)),
                    )
                } else {
                    (ProtocolView { unframed: u, ..s }, None)
                }
            }
        },
        Phase::Length => {
            let phase = if b == 0 {
                Phase::Checksum { len: 0 }
            } else {
                Phase::Body { len: b }
            };
            (ProtocolView { phase, frame: Seq::empty(), ..s }, None)
        },
        Phase::Body { len } => {
            let f = s.frame.push(b);
            let phase = if f.len() >= len {
                Phase::Checksum { len }
            } else {
                Phase::Body { len }
            };
            (ProtocolView { phase, frame: f, ..s }, None)
        },
        Phase::Checksum { len } => (ProtocolView { phase: Phase::End { len, wire: b }, ..s }, None),
        Phase::End { len, wire } => (
            ProtocolView { phase: Phase::Line, ..s },
            frame_event(s.frame, len, wire, b),
        ),
    }
}

pub open spec fn events_of(e: Option<EventView>) -> Seq<EventView> {
    match e {
        Some(ev) => seq![ev],
        None => Seq::empty(),
    }
}

/// A run of input bytes: the final state and the events, in order.
pub open spec fn run(s: ProtocolView, bytes: Seq<u8>) -> (ProtocolView, Seq<EventView>)
    decreases bytes.len(),
{
    if bytes.len() == 0 {
        (s, Seq::empty())
    } else {
        let (s1, e) = step(s, bytes[0]);
        let (s2, es) = run(s1, bytes.drop_first());
        (s2, events_of(e) + es)
    }
}

pub struct Protocol {
    phase: Phase,
    unframed: Vec<u8>,
    frame_data: Vec<u8>,
    cksum: u8,
}

impl View for Protocol {
    type V = ProtocolView;

    closed spec fn view(&self) -> ProtocolView {
        ProtocolView { phase: self.phase, unframed: self.unframed@, frame: self.frame_data@ }
    }
}

impl Protocol {
    pub closed spec fn wf(&self) -> bool {
        &&& self.unframed@.len() <= MAX_UNFRAMED_LINE
        &&& self.cksum == checksum(self.frame_data@)
        &&& match self.phase {
            Phase::Body { len } => self.frame_data@.len() < len,
            Phase::Checksum { len } => self.frame_data@.len() == len,
            Phase::End { len, .. } => self.frame_data@.len() == len,
            _ => true,
        }
    }

    pub fn new() -> (r: Protocol)
        ensures
            r.wf(),
            r@ == (ProtocolView { phase: Phase::Line, unframed: Seq::empty(), frame: Seq::empty() }),
    {
        Protocol { phase: Phase::Line, unframed: Vec::new(), frame_data: Vec::new(), cksum: 0 }
    }

    /// Consumes one byte from the wire; returns the event it completes.
    pub fn push_byte(&mut self, byte: u8) -> (r: Option<Event>)
        requires
            old(self).wf(),
        ensures
            final(self).wf(),
            final(self)@ == step(old(self)@, byte).0,
            event_view(r) == step(old(self)@, byte).1,
    {
        match self.phase {
            Phase::Line => {
                if byte == FRAME_BEGIN {
                    self.phase = Phase::Length;
                    None
                } else {
                    if self.unframed.len() < MAX_UNFRAMED_LINE {
                        self.unframed.push(byte);
                    }
                    if byte == NEWLINE {
                        let mut line: Vec<u8> = Vec::new();
                        core::mem::swap(&mut line, &mut self.unframed);
                        assert(self.unframed@ =~= Seq::<u8>::empty());
                        Some(Event::UnframedLine(line))
                    } else {
                        None
                    }
                }
            },
            Phase::Length => {
                self.frame_data.clear();
                self.cksum = 0;
                assert(self.frame_data@ =~= Seq::<u8>::empty());
                if byte == 0 {
                    self.phase = Phase::Checksum { len: 0 };
                } else {
                    self.phase = Phase::Body { len: byte };
                }
                None
            },
            Phase::Body { len } => {
                let ghost prev = self.frame_data@;
                self.frame_data.push(byte);
                assert(self.frame_data@.drop_last() =~= prev);
                self.cksum = self.cksum.wrapping_add(byte);
                if self.frame_data.len() >= len as usize {
                    self.phase = Phase::Checksum { len };
                } else {
                    self.phase = Phase::Body { len };
                }
                None
            },
            Phase::Checksum { len } => {
                self.phase = Phase::End { len, wire: byte };
                None
            },
            Phase::End { len, wire } => {
                self.phase = Phase::Line;
                if byte != FRAME_END || self.cksum != wire || len < 1 {
                    return None;
                }
                let header = self.frame_data[0];
                match Opcode::from_header_byte(header) {
                    None => None,
                    Some(opcode) => {
                        let channel = ChannelId::from_header_byte(header);
                        let data = tail(&self.frame_data);
                        Some(Event::Frame(Frame { opcode, channel, data }))
                    },
                }
            },
        }
    }

    /// Consumes a run of bytes; returns the events they complete, in order.
    pub fn push_bytes(&mut self, bytes: &[u8]) -> (r: Vec<Event>)
        requires
            old(self).wf(),
        ensures
            final(self).wf(),
            final(self)@ == run(old(self)@, bytes@).0,
            events_view(r@) == run(old(self)@, bytes@).1,
    {
        let mut events: Vec<Event> = Vec::new();
        let mut i: usize = 0;
        assert(bytes@.subrange(0, bytes@.len() as int) =~= bytes@);
        assert(events_view(events@) + run(old(self)@, bytes@).1 =~= run(old(self)@, bytes@).1);
        while i < bytes.len()
            invariant
                self.wf(),
                i <= bytes@.len(),
                run(old(self)@, bytes@) == (
                    run(self@, bytes@.subrange(i as int, bytes@.len() as int)).0,
                    events_view(events@) + run(
                        self@,
                        bytes@.subrange(i as int, bytes@.len() as int),
                    ).1,
                ),
            decreases bytes@.len() - i,
        {
            let ghost rest = bytes@.subrange(i as int, bytes@.len() as int);
            let ghost before = self@;
            let ghost old_events = events@;
            assert(rest.drop_first() =~= bytes@.subrange(i + 1, bytes@.len() as int));
            let e = self.push_byte(bytes[i]);
            match e {
                Some(ev) => {
                    events.push(ev);
                },
                None => {},
            }
            assert(events_view(events@) =~= events_view(old_events) + events_of(
                step(before, rest[0]).1,
            ));
            i = i + 1;
            assert(events_view(old_events) + (events_of(step(before, rest[0]).1) + run(
                self@,
                bytes@.subrange(i as int, bytes@.len() as int),
            ).1) =~= events_view(events@) + run(
                self@,
                bytes@.subrange(i as int, bytes@.len() as int),
            ).1);
        }
        assert(bytes@.subrange(i as int, bytes@.len() as int) =~= Seq::<u8>::empty());
        assert(events_view(events@) + Seq::empty() =~= events_view(events@));
        events
    }
}

/// The bytes after the first one.
fn tail(v: &Vec<u8>) -> (r: Vec<u8>)
    requires
        v@.len() >= 1,
    ensures
        r@ == v@.drop_first(),
{
    let mut out: Vec<u8> = Vec::new();
    let mut i: usize = 1;
    while i < v.len()
        invariant
            1 <= i <= v@.len(),
            out@ == v@.subrange(1, i as int),
        decreases v@.len() - i,
    {
        out.push(v[i]);
        i = i + 1;
        assert(out@ =~= v@.subrange(1, i as int));
    }
    assert(out@ =~= v@.drop_first());
    out
}

proof fn lemma_run_one(s: ProtocolView, b: u8)
    ensures
        run(s, seq![b]) == (step(s, b).0, events_of(step(s, b).1)),
{
    assert(seq![b].drop_first() =~= Seq::<u8>::empty());
    assert(run(step(s, b).0, seq![b].drop_first()) == (step(s, b).0, Seq::<EventView>::empty()));
    assert(events_of(step(s, b).1) + Seq::<EventView>::empty() =~= events_of(step(s, b).1));
}

/// Running over `a + b` is running over `a`, then over `b` from where `a` left off.
pub proof fn lemma_run_concat(s: ProtocolView, a: Seq<u8>, b: Seq<u8>)
    ensures
        run(s, a + b) == (run(run(s, a).0, b).0, run(s, a).1 + run(run(s, a).0, b).1),
    decreases a.len(),
{
    if a.len() == 0 {
        assert(a + b =~= b);
        assert(Seq::<EventView>::empty() + run(s, b).1 =~= run(s, b).1);
    } else {
        let (s1, e) = step(s, a[0]);
        assert((a + b).drop_first() =~= a.drop_first() + b);
        assert((a + b)[0] == a[0]);
        lemma_run_concat(s1, a.drop_first(), b);
        let r1 = run(s1, a.drop_first());
        assert(events_of(e) + (r1.1 + run(r1.0, b).1) =~= (events_of(e) + r1.1) + run(r1.0, b).1);
    }
}

proof fn lemma_run_body(s: ProtocolView, bytes: Seq<u8>, len: u8)
    requires
        s.phase == (Phase::Body { len }),
        s.frame.len() < len,
        s.frame.len() + bytes.len() <= len,
    ensures
        run(s, bytes) == (
            ProtocolView {
                phase: if s.frame.len() + bytes.len() == len {
                    Phase::Checksum { len }
                } else {
                    Phase::Body { len }
                },
                unframed: s.unframed,
                frame: s.frame + bytes,
            },
            Seq::<EventView>::empty(),
        ),
    decreases bytes.len(),
{
    if bytes.len() == 0 {
        assert(s.frame + bytes =~= s.frame);
    } else {
        let s1 = step(s, bytes[0]).0;
        assert(s1.frame == s.frame.push(bytes[0]));
        if s1.frame.len() == len {
            assert(bytes.drop_first().len() == 0);
            assert(run(s1, bytes.drop_first()) == (s1, Seq::<EventView>::empty()));
            assert(s.frame + bytes =~= s1.frame);
            assert(Seq::<EventView>::empty() + Seq::<EventView>::empty() =~= Seq::<EventView>::empty());
        } else {
            lemma_run_body(s1, bytes.drop_first(), len);
            assert(s1.frame + bytes.drop_first() =~= s.frame + bytes);
            assert(Seq::<EventView>::empty() + Seq::<EventView>::empty() =~= Seq::<EventView>::empty());
        }
    }
}

/// A frame attempt from between frames: `BEGIN LEN` then exactly LEN bytes,
/// a checksum byte and a closing byte. The demultiplexer is back between
/// frames, keeps the unframed line, and emits what `frame_event` says.
pub proof fn lemma_frame_attempt(s: ProtocolView, len: u8, body: Seq<u8>, wire: u8, end: u8)
    requires
        s.phase == Phase::Line,
        body.len() == len,
    ensures
        run(s, seq![FRAME_BEGIN, len] + body + seq![wire, end]) == (
            ProtocolView { phase: Phase::Line, unframed: s.unframed, frame: body },
            events_of(frame_event(body, len, wire, end)),
        ),
{
    let tail2 = seq![wire, end];
    let bytes = seq![FRAME_BEGIN, len] + body + tail2;
    assert(bytes =~= seq![FRAME_BEGIN] + (seq![len] + (body + tail2)));
    let s1 = step(s, FRAME_BEGIN).0;
    lemma_run_concat(s, seq![FRAME_BEGIN], seq![len] + (body + tail2));
    lemma_run_one(s, FRAME_BEGIN);
    let s2 = step(s1, len).0;
    lemma_run_concat(s1, seq![len], body + tail2);
    lemma_run_one(s1, len);
    lemma_run_concat(s2, body, tail2);
    let s3 = run(s2, body).0;
    if len == 0 {
        assert(body =~= Seq::<u8>::empty());
        assert(s3 == s2);
    } else {
        lemma_run_body(s2, body, len);
        assert(Seq::<u8>::empty() + body =~= body);
    }
    assert(s3.phase == Phase::Checksum { len });
    assert(s3.frame =~= body);
    assert(tail2 =~= seq![wire] + seq![end]);
    lemma_run_concat(s3, seq![wire], seq![end]);
    lemma_run_one(s3, wire);
    let s4 = step(s3, wire).0;
    lemma_run_one(s4, end);
    let e = Seq::<EventView>::empty();
    assert(e + (e + (e + (e + events_of(frame_event(body, len, wire, end))))) =~= events_of(
        frame_event(body, len, wire, end),
    ));
}

/// A valid frame sent from between frames is received as exactly that frame,
/// and the demultiplexer is back between frames with its unframed line kept.
pub proof fn lemma_frame_round_trip(s: ProtocolView, f: FrameView)
    requires
        s.phase == Phase::Line,
        f.data.len() <= MAX_FRAME_DATA,
        f.channel < 16,
    ensures
        run(s, frame_bytes(f)).1 == seq![EventView::Frame(f)],
        run(s, frame_bytes(f)).0.phase == Phase::Line,
        run(s, frame_bytes(f)).0.unframed == s.unframed,
{
    let h = header_byte(f.opcode, f.channel);
    let body = seq![h] + f.data;
    let len = (f.data.len() + 1) as u8;
    let ck = checksum(body);
    assert(frame_bytes(f) =~= seq![FRAME_BEGIN, len] + body + seq![ck, FRAME_END]);
    lemma_frame_attempt(s, len, body, ck, FRAME_END);
    let c = f.channel;
    let o = f.opcode.bits();
    assert(o == 0x00 || o == 0x10 || o == 0x20);
    assert(c < 16 && (o == 0x00 || o == 0x10 || o == 0x20) ==> ((c & 0x0f) | o) & 0xf0 == o
        && ((c & 0x0f) | o) & 0x0f == c) by (bit_vector);
    assert(body[0] == h);
    assert(opcode_of(h) == Some(f.opcode));
    assert(body.drop_first() =~= f.data);
}

/// A frame whose checksum byte alone is wrong yields no event, whatever wrong
/// value it holds.
pub proof fn lemma_bad_checksum_rejected(s: ProtocolView, f: FrameView, wire: u8)
    requires
        s.phase == Phase::Line,
        f.data.len() <= MAX_FRAME_DATA,
        wire != checksum(seq![header_byte(f.opcode, f.channel)] + f.data),
    ensures
        run(s, frame_bytes(f).update(f.data.len() as int + 3, wire)).1 == Seq::<EventView>::empty(),
        run(s, frame_bytes(f).update(f.data.len() as int + 3, wire)).0.phase == Phase::Line,
{
    let h = header_byte(f.opcode, f.channel);
    let body = seq![h] + f.data;
    let len = (f.data.len() + 1) as u8;
    assert(frame_bytes(f).update(f.data.len() as int + 3, wire) =~= seq![FRAME_BEGIN, len] + body
        + seq![wire, FRAME_END]);
    lemma_frame_attempt(s, len, body, wire, FRAME_END);
}

/// The integer sum of the bytes.
pub open spec fn byte_sum(bytes: Seq<u8>) -> int
    decreases bytes.len(),
{
    if bytes.len() == 0 {
        0
    } else {
        byte_sum(bytes.drop_last()) + bytes.last() as int
    }
}

proof fn lemma_checksum_is_sum(bytes: Seq<u8>)
    ensures
        checksum(bytes) as int == byte_sum(bytes) % 256,
    decreases bytes.len(),
{
    if bytes.len() > 0 {
        lemma_checksum_is_sum(bytes.drop_last());
        let a = byte_sum(bytes.drop_last());
        let b = bytes.last() as int;
        assert((a % 256 + b) % 256 == (a + b) % 256) by (nonlinear_arith);
    }
}

proof fn lemma_sum_update(bytes: Seq<u8>, i: int, x: u8)
    requires
        0 <= i < bytes.len(),
    ensures
        byte_sum(bytes.update(i, x)) == byte_sum(bytes) - bytes[i] as int + x as int,
    decreases bytes.len(),
{
    let u = bytes.update(i, x);
    if i == bytes.len() - 1 {
        assert(u.drop_last() =~= bytes.drop_last());
    } else {
        assert(u.drop_last() =~= bytes.drop_last().update(i, x));
        lemma_sum_update(bytes.drop_last(), i, x);
    }
}

/// Changing any one byte of the header or payload of a valid frame is always
/// detected: what arrives yields no event.
pub proof fn lemma_corrupted_body_rejected(s: ProtocolView, f: FrameView, i: int, x: u8)
    requires
        s.phase == Phase::Line,
        f.data.len() <= MAX_FRAME_DATA,
        0 <= i <= f.data.len(),
        x != frame_bytes(f)[i + 2],
    ensures
        run(s, frame_bytes(f).update(i + 2, x)).1 == Seq::<EventView>::empty(),
        run(s, frame_bytes(f).update(i + 2, x)).0.phase == Phase::Line,
{
    let h = header_byte(f.opcode, f.channel);
    let body = seq![h] + f.data;
    let len = (f.data.len() + 1) as u8;
    let ck = checksum(body);
    let bad = body.update(i, x);
    assert(frame_bytes(f) =~= seq![FRAME_BEGIN, len] + body + seq![ck, FRAME_END]);
    assert(frame_bytes(f).update(i + 2, x) =~= seq![FRAME_BEGIN, len] + bad + seq![ck, FRAME_END]);
    lemma_checksum_is_sum(body);
    lemma_checksum_is_sum(bad);
    lemma_sum_update(body, i, x);
    let a = byte_sum(body);
    let d = x as int - body[i] as int;
    assert(d != 0 && -256 < d < 256 ==> (a + d) % 256 != a % 256) by (nonlinear_arith);
    lemma_frame_attempt(s, len, bad, ck, FRAME_END);
}

/// Whatever frame attempt is made, an event comes out of it only when the
/// closing byte is `END` and the checksum byte matches the bytes read.
pub proof fn lemma_frame_accepted_only_if_valid(
    s: ProtocolView,
    len: u8,
    body: Seq<u8>,
    wire: u8,
    end: u8,
)
    requires
        s.phase == Phase::Line,
        body.len() == len,
    ensures
        run(s, seq![FRAME_BEGIN, len] + body + seq![wire, end]).1.len() > 0 ==> end == FRAME_END
            && wire == checksum(body),
{
    lemma_frame_attempt(s, len, body, wire, end);
}

/// A frame attempt with LEN zero yields no event, whatever follows it.
pub proof fn lemma_zero_length_rejected(s: ProtocolView, wire: u8, end: u8)
    requires
        s.phase == Phase::Line,
    ensures
        run(s, seq![FRAME_BEGIN, 0u8, wire, end]).1 == Seq::<EventView>::empty(),
        run(s, seq![FRAME_BEGIN, 0u8, wire, end]).0.phase == Phase::Line,
        run(s, seq![FRAME_BEGIN, 0u8, wire, end]).0.unframed == s.unframed,
{
    assert(seq![FRAME_BEGIN, 0u8, wire, end] =~= seq![FRAME_BEGIN, 0u8] + Seq::<u8>::empty()
        + seq![wire, end]);
    lemma_frame_attempt(s, 0, Seq::empty(), wire, end);
}

/// A frame whose header names no known opcode yields no event, even with a
/// correct checksum and closing byte.
pub proof fn lemma_unknown_opcode_rejected(s: ProtocolView, header: u8, data: Seq<u8>)
    requires
        s.phase == Phase::Line,
        opcode_of(header) is None,
        data.len() <= MAX_FRAME_DATA,
    ensures
        run(
            s,
            seq![FRAME_BEGIN, (data.len() + 1) as u8, header] + data + seq![
                checksum(seq![header] + data),
                FRAME_END,
            ],
        ).1 == Seq::<EventView>::empty(),
{
    let body = seq![header] + data;
    let len = (data.len() + 1) as u8;
    assert(seq![FRAME_BEGIN, len, header] + data + seq![checksum(body), FRAME_END]
        =~= seq![FRAME_BEGIN, len] + body + seq![checksum(body), FRAME_END]);
    assert(body[0] == header);
    lemma_frame_attempt(s, len, body, checksum(body), FRAME_END);
}

proof fn lemma_run_text(s: ProtocolView, text: Seq<u8>)
    requires
        s.phase == Phase::Line,
        s.unframed.len() == 0,
        forall|i: int| 0 <= i < text.len() ==> text[i] != NEWLINE && text[i] != FRAME_BEGIN,
    ensures
        run(s, text) == (
            ProtocolView {
                unframed: text.subrange(
                    0,
                    if text.len() < MAX_UNFRAMED_LINE {
                        text.len() as int
                    } else {
                        MAX_UNFRAMED_LINE as int
                    },
                ),
                ..s
            },
            Seq::<EventView>::empty(),
        ),
    decreases text.len(),
{
    if text.len() == 0 {
        assert(text.subrange(0, 0) =~= s.unframed);
    } else {
        let init = text.drop_last();
        let b = text.last();
        assert(text =~= init + seq![b]);
        lemma_run_text(s, init);
        lemma_run_concat(s, init, seq![b]);
        let s1 = run(s, init).0;
        lemma_run_one(s1, b);
        let n = init.len();
        if n < MAX_UNFRAMED_LINE {
            assert(init.subrange(0, n as int).push(b) =~= text.subrange(0, n as int + 1));
        } else {
            assert(init.subrange(0, MAX_UNFRAMED_LINE as int) =~= text.subrange(
                0,
                MAX_UNFRAMED_LINE as int,
            ));
        }
        assert(Seq::<EventView>::empty() + Seq::<EventView>::empty() =~= Seq::<EventView>::empty());
    }
}

/// Bytes with no `BEGIN` and a single newline at their end, fed after a
/// completed line, come out as one unframed line: the bytes themselves,
/// newline included, cut to the first `MAX_UNFRAMED_LINE` of them.
pub proof fn lemma_unframed_line(s: ProtocolView, line: Seq<u8>)
    requires
        s.phase == Phase::Line,
        s.unframed.len() == 0,
        line.len() >= 1,
        line.last() == NEWLINE,
        forall|i: int| 0 <= i < line.len() - 1 ==> line[i] != NEWLINE && line[i] != FRAME_BEGIN,
    ensures
        run(s, line) == (
            ProtocolView { unframed: Seq::empty(), ..s },
            seq![
                EventView::UnframedLine(
                    line.subrange(
                        0,
                        if line.len() < MAX_UNFRAMED_LINE {
                            line.len() as int
                        } else {
                            MAX_UNFRAMED_LINE as int
                        },
                    ),
                ),
            ],
        ),
{
    let text = line.drop_last();
    assert(line =~= text + seq![NEWLINE]);
    lemma_run_text(s, text);
    lemma_run_concat(s, text, seq![NEWLINE]);
    let s1 = run(s, text).0;
    lemma_run_one(s1, NEWLINE);
    let n = text.len();
    if n < MAX_UNFRAMED_LINE {
        assert(text.subrange(0, n as int).push(NEWLINE) =~= line.subrange(0, n as int + 1));
    } else {
        assert(text.subrange(0, MAX_UNFRAMED_LINE as int) =~= line.subrange(
            0,
            MAX_UNFRAMED_LINE as int,
        ));
    }
    assert(Seq::<EventView>::empty() + seq![
        EventView::UnframedLine(s1.unframed.push(NEWLINE)),
    ] =~= seq![EventView::UnframedLine(s1.unframed.push(NEWLINE))]);
    assert(Seq::<EventView>::empty() + seq![EventView::UnframedLine(s1.unframed)] =~= seq![
        EventView::UnframedLine(s1.unframed),
    ]);
}

} // verus!
