//! Message framing for the cluster transport: each message travels as a
//! four-byte big-endian length followed by that many bytes of payload.

use vstd::prelude::*;

verus! {

/// Largest payload the transport accepts by default: 10 MB.
pub const DEFAULT_MAX_MESSAGE_SIZE: usize = 10485760;

/// Transport configuration. Time-outs are whole seconds.
#[derive(Debug, Clone, Copy, PartialEq, Eq, Structural)]
pub struct TransportConfig {
    pub connection_timeout_secs: u64,
    pub read_timeout_secs: u64,
    pub write_timeout_secs: u64,
    pub max_message_size: usize,
}

impl Default for TransportConfig {
    fn default() -> (c: TransportConfig)
        ensures
            c.connection_timeout_secs == 10,
            c.read_timeout_secs == 30,
            c.write_timeout_secs == 10,
            c.max_message_size == DEFAULT_MAX_MESSAGE_SIZE,
    {
        TransportConfig {
            connection_timeout_secs: 10,
            read_timeout_secs: 30,
            write_timeout_secs: 10,
            max_message_size: DEFAULT_MAX_MESSAGE_SIZE,
        }
    }
}

/// The four bytes of `n`, most significant first.
pub open spec fn be_bytes(n: nat) -> Seq<u8> {
    seq![
        (n / 16777216 % 256) as u8,
        (n / 65536 % 256) as u8,
        (n / 256 % 256) as u8,
        (n % 256) as u8,
    ]
}

/// The number that the first four bytes of `b` spell, most significant first.
pub open spec fn be_value(b: Seq<u8>) -> nat
    recommends
        b.len() >= 4,
{
    (b[0] * 16777216 + b[1] * 65536 + b[2] * 256 + b[3]) as nat
}

/// A payload as it goes on the wire: its length, then the payload itself.
pub open spec fn framed(payload: Seq<u8>) -> Seq<u8> {
    be_bytes(payload.len()) + payload
}

/// Why a frame was refused.
#[derive(Debug, Clone, Copy, PartialEq, Eq, Structural)]
pub enum FrameError {
    /// The payload, or the length a header announces, exceeds the limit.
    TooLarge { len: usize, max: usize },
}

/// Frames a payload for sending. A payload longer than `max_message_size`
/// is refused; one that is accepted must fit the four-byte header.
pub fn encode_frame(payload: &[u8], max_message_size: usize) -> (r: Result<Vec<u8>, FrameError>)
    requires
        payload@.len() <= max_message_size ==> payload@.len() <= u32::MAX,
    ensures
        payload@.len() > max_message_size <==> r is Err,
        r matches Err(e) ==> e == (FrameError::TooLarge { len: payload@.len() as usize, max: max_message_size }),
        r matches Ok(bytes) ==> bytes@ == framed(payload@),
{
    let n: usize = payload.len();
    if n > max_message_size {
        return Err(FrameError::TooLarge { len: n, max: max_message_size });
    }
    let b0: u8 = (n / 16777216 % 256) as u8;
    let b1: u8 = (n / 65536 % 256) as u8;
    let b2: u8 = (n / 256 % 256) as u8;
    let b3: u8 = (n % 256) as u8;
    let mut out: Vec<u8> = Vec::new();
    out.push(b0);
    out.push(b1);
    out.push(b2);
    out.push(b3);
    let mut i: usize = 0;
    while i < n
        invariant
            n == payload@.len(),
            i <= n,
            out@ == be_bytes(n as nat) + payload@.subrange(0, i as int),
        decreases n - i,
    {
        out.push(payload[i]);
        i = i + 1;
        assert(payload@.subrange(0, i as int) == payload@.subrange(0, i - 1).push(payload@[i - 1]));
    }
    assert(payload@.subrange(0, n as int) == payload@);
    Ok(out)
}

/// The length announced by a four-byte header.
pub fn frame_length(header: &[u8]) -> (len: u32)
    requires
        header@.len() >= 4,
    ensures
        len == be_value(header@),
{
    let v: u32 = header[0] as u32 * 16777216 + header[1] as u32 * 65536 + header[2] as u32 * 256
        + header[3] as u32;
    v
}

/// The four bytes of a length below 2^32 spell that length again.
pub proof fn lemma_be_round_trip(n: nat)
    requires
        n <= u32::MAX,
    ensures
        be_bytes(n).len() == 4,
        be_value(be_bytes(n)) == n,
{
    let b = be_bytes(n);
    assert(b[0] == n / 16777216 % 256);
    assert(b[1] == n / 65536 % 256);
    assert(b[2] == n / 256 % 256);
    assert(b[3] == n % 256);
    assert((n / 16777216 % 256) * 16777216 + (n / 65536 % 256) * 65536 + (n / 256 % 256) * 256
        + n % 256 == n) by (nonlinear_arith)
        requires
            n <= 4294967295,
    ;
}

/// What one decoding step found at the front of the received bytes.
pub enum FrameStepView {
    Incomplete,
    Frame(Seq<u8>),
    TooLarge(nat),
}

/// What one decoding step found at the front of the received bytes.
#[derive(Debug, Clone)]
pub enum FrameStep {
    /// Not enough bytes yet for a header, or for the payload it announces.
    Incomplete,
    /// One whole payload.
    Frame(Vec<u8>),
    /// A header announcing more than the limit; the header was consumed.
    TooLarge(u32),
}

impl View for FrameStep {
    type V = FrameStepView;

    open spec fn view(&self) -> FrameStepView {
        match self {
            FrameStep::Incomplete => FrameStepView::Incomplete,
            FrameStep::Frame(v) => FrameStepView::Frame(v@),
            FrameStep::TooLarge(n) => FrameStepView::TooLarge(*n as nat),
        }
    }
}

/// One decoding step on the received bytes `buf` with the limit `max`: what
/// it yields, and the bytes that are left for the next step.
pub open spec fn decode_step(buf: Seq<u8>, max: nat) -> (FrameStepView, Seq<u8>) {
    if buf.len() < 4 {
        (FrameStepView::Incomplete, buf)
    } else if be_value(buf) > max {
        (FrameStepView::TooLarge(be_value(buf)), buf.skip(4))
    } else if buf.len() < 4 + be_value(buf) {
        (FrameStepView::Incomplete, buf)
    } else {
        (
            FrameStepView::Frame(buf.subrange(4, 4 + be_value(buf) as int)),
            buf.skip(4 + be_value(buf) as int),
        )
    }
}

/// The received bytes of one connection that are not yet a whole frame.
pub struct FrameDecoder {
    buffer: Vec<u8>,
}

impl View for FrameDecoder {
    type V = Seq<u8>;

    closed spec fn view(&self) -> Seq<u8> {
        self.buffer@
    }
}

impl FrameDecoder {
    /// A decoder that has received nothing.
    pub fn new() -> (d: FrameDecoder)
        ensures
            d@ == Seq::<u8>::empty(),
    {
        FrameDecoder { buffer: Vec::new() }
    }

    /// Appends bytes read from the connection.
    pub fn feed(&mut self, bytes: &[u8])
        ensures
            final(self)@ == old(self)@ + bytes@,
    {
        let mut i: usize = 0;
        while i < bytes.len()
            invariant
                i <= bytes@.len(),
                self@ == old(self)@ + bytes@.subrange(0, i as int),
            decreases bytes@.len() - i,
        {
            self.buffer.push(bytes[i]);
            i = i + 1;
            assert(bytes@.subrange(0, i as int) == bytes@.subrange(0, i - 1).push(bytes@[i - 1]));
        }
        assert(bytes@.subrange(0, bytes@.len() as int) == bytes@);
    }

    /// Takes the next frame off the front of the received bytes, if they hold
    /// a whole one.
    pub fn next_frame(&mut self, max_message_size: usize) -> (step: FrameStep)
        ensures
            (step@, final(self)@) == decode_step(old(self)@, max_message_size as nat),
    {
        let n: usize = self.buffer.len();
        if n < 4 {
            return FrameStep::Incomplete;
        }
        let len: u32 = frame_length(self.buffer.as_slice());
        if len as usize > max_message_size {
            let rest = self.buffer.split_off(4);
            self.buffer = rest;
            return FrameStep::TooLarge(len);
        }
        let len: usize = len as usize;
        if n - 4 < len {
            return FrameStep::Incomplete;
        }
        let rest = self.buffer.split_off(4 + len);
        let mut frame = self.buffer.split_off(4);
        self.buffer = rest;
        proof {
            assert(frame@ == old(self)@.subrange(4, 4 + len));
        }
        let step = FrameStep::Frame(frame);
        step
    }
}

/// A framed payload that is decoded, whatever follows it, gives the payload
/// back and leaves exactly what followed.
pub proof fn lemma_frame_round_trip(payload: Seq<u8>, rest: Seq<u8>, max: nat)
    requires
        payload.len() <= max,
        max <= u32::MAX,
    ensures
        decode_step(framed(payload) + rest, max) == (FrameStepView::Frame(payload), rest),
{
    lemma_be_round_trip(payload.len());
    let buf = framed(payload) + rest;
    assert(buf.subrange(0, 4) == be_bytes(payload.len()));
    assert(be_value(buf) == be_value(be_bytes(payload.len())));
    assert(buf.subrange(4, 4 + payload.len() as int) == payload);
    assert(buf.skip(4 + payload.len() as int) == rest);
}

} // verus!
