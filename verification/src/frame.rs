//! Frames, and their reassembly from a byte stream that arrives in fragments.
//!
//! A request frame is `length | code | payload`, a response frame is
//! `status | length | payload`; every integer is four bytes, little-endian.
//! The length field counts the bytes that follow it in the frame and never itself.

use vstd::prelude::*;
use vstd::slice::slice_subrange;
use vstd::slice::slice_to_vec;
use crate::fault::Fault;
use crate::wire::le_u32;
use crate::wire::read_u32_le;

verus! {

/// The two directions of a connection, each with its own frame layout.
#[derive(Clone, Copy, Debug, PartialEq, Eq, Structural)]
pub enum Direction {
    /// Client to server: `length | code | payload`.
    Request,
    /// Server to client: `status | length | payload`.
    Response,
}

impl Direction {
    /// Number of bytes up to and including the length field.
    pub open spec fn spec_header_len(self) -> int {
        match self {
            Direction::Request => 4,
            Direction::Response => 8,
        }
    }

    /// Number of bytes up to and including the length field.
    pub fn header_len(self) -> (n: usize)
        ensures
            n == self.spec_header_len(),
    {
        match self {
            Direction::Request => 4,
            Direction::Response => 8,
        }
    }
}

/// The value of the length field at the head of `bytes`.
pub open spec fn declared_length(direction: Direction, bytes: Seq<u8>) -> u32
    recommends
        bytes.len() >= direction.spec_header_len(),
{
    le_u32(bytes, direction.spec_header_len() - 4)
}

/// The size of the frame at the head of `bytes`: the header and the bytes it declares.
pub open spec fn frame_size(direction: Direction, bytes: Seq<u8>) -> int
    recommends
        bytes.len() >= direction.spec_header_len(),
{
    direction.spec_header_len() + declared_length(direction, bytes)
}

/// The header at the head of `bytes` is complete and declares a frame larger than `max`.
pub open spec fn head_too_large(direction: Direction, max: int, bytes: Seq<u8>) -> bool {
    bytes.len() >= direction.spec_header_len() && frame_size(direction, bytes) > max
}

/// A whole frame of at most `max` bytes stands at the head of `bytes`.
pub open spec fn head_complete(direction: Direction, max: int, bytes: Seq<u8>) -> bool {
    &&& bytes.len() >= direction.spec_header_len()
    &&& frame_size(direction, bytes) <= max
    &&& bytes.len() >= frame_size(direction, bytes)
}

/// `bytes` is exactly one frame: a header, and as many bytes after it as it declares.
pub open spec fn is_frame(direction: Direction, bytes: Seq<u8>) -> bool {
    bytes.len() >= direction.spec_header_len() && bytes.len() == frame_size(direction, bytes)
}

/// What the head of a buffer holds depends only on the bytes of the frame there:
/// bytes that arrive later change neither verdict nor frame.
pub proof fn lemma_head_stable(direction: Direction, max: int, bytes: Seq<u8>, more: Seq<u8>)
    ensures
        bytes.len() >= direction.spec_header_len() ==> declared_length(direction, bytes + more)
            == declared_length(direction, bytes),
        head_too_large(direction, max, bytes) ==> head_too_large(direction, max, bytes + more),
        head_complete(direction, max, bytes) ==> {
            &&& head_complete(direction, max, bytes + more)
            &&& (bytes + more).take(frame_size(direction, bytes)) == bytes.take(
                frame_size(direction, bytes),
            )
            &&& (bytes + more).skip(frame_size(direction, bytes)) == bytes.skip(
                frame_size(direction, bytes),
            ) + more
        },
{
    let h = direction.spec_header_len();
    if bytes.len() >= h {
        let whole = bytes + more;
        assert(whole[h - 4] == bytes[h - 4]);
        assert(whole[h - 3] == bytes[h - 3]);
        assert(whole[h - 2] == bytes[h - 2]);
        assert(whole[h - 1] == bytes[h - 1]);
        if head_complete(direction, max, bytes) {
            let n = frame_size(direction, bytes);
            assert(whole.take(n) =~= bytes.take(n));
            assert(whole.skip(n) =~= bytes.skip(n) + more);
        }
    }
}

/// The first frame of a buffer is a frame.
pub proof fn lemma_head_is_frame(direction: Direction, max: int, bytes: Seq<u8>)
    requires
        head_complete(direction, max, bytes),
    ensures
        is_frame(direction, bytes.take(frame_size(direction, bytes))),
{
    let h = direction.spec_header_len();
    let frame = bytes.take(frame_size(direction, bytes));
    assert(frame[h - 4] == bytes[h - 4]);
    assert(frame[h - 3] == bytes[h - 3]);
    assert(frame[h - 2] == bytes[h - 2]);
    assert(frame[h - 1] == bytes[h - 1]);
}

/// One complete frame, not yet interpreted.
#[derive(Debug, PartialEq, Eq)]
pub struct Frame {
    direction: Direction,
    bytes: Vec<u8>,
}

/// What a `Frame` stands for: a direction and the bytes of one frame.
pub struct FrameView {
    pub direction: Direction,
    pub bytes: Seq<u8>,
}

impl View for Frame {
    type V = FrameView;

    closed spec fn view(&self) -> FrameView {
        FrameView { direction: self.direction, bytes: self.bytes@ }
    }
}

impl Frame {
    #[verifier::type_invariant]
    spec fn well_formed(self) -> bool {
        is_frame(self.direction, self.bytes@)
    }

    /// Takes `bytes` as a frame of `direction` if they are exactly one frame.
    pub fn parse(direction: Direction, bytes: Vec<u8>) -> (frame: Option<Frame>)
        ensures
            frame is Some <==> is_frame(direction, bytes@),
            frame matches Some(f) ==> f@ == (FrameView { direction, bytes: bytes@ }),
    {
        let header = direction.header_len();
        match read_u32_le(bytes.as_slice(), header - 4) {
            Some(declared) => {
                if (bytes.len() - header) as u64 == declared as u64 {
                    Some(Frame { direction, bytes })
                } else {
                    None
                }
            },
            None => None,
        }
    }

    /// The direction the frame travelled in.
    pub fn direction(&self) -> (direction: Direction)
        ensures
            direction == self@.direction,
    {
        self.direction
    }

    /// The bytes of the frame, header included.
    pub fn bytes(&self) -> (bytes: &[u8])
        ensures
            bytes@ == self@.bytes,
            is_frame(self@.direction, bytes@),
    {
        proof {
            use_type_invariant(self);
        }
        self.bytes.as_slice()
    }

    /// The value of the frame's length field.
    pub fn declared_length(&self) -> (length: u32)
        ensures
            length == declared_length(self@.direction, self@.bytes),
            length == self@.bytes.len() - self@.direction.spec_header_len(),
    {
        proof {
            use_type_invariant(self);
        }
        let header = self.direction.header_len();
        match read_u32_le(self.bytes.as_slice(), header - 4) {
            Some(declared) => declared,
            None => 0,
        }
    }
}

/// The bytes of one direction that were fed and not yet handed out: a growable
/// accumulator and a cursor that stands behind the last byte handed out.
#[derive(Debug)]
pub struct StreamBuffer {
    bytes: Vec<u8>,
    cursor: usize,
}

impl View for StreamBuffer {
    type V = Seq<u8>;

    closed spec fn view(&self) -> Seq<u8> {
        self.bytes@.skip(self.cursor as int)
    }
}

impl StreamBuffer {
    #[verifier::type_invariant]
    spec fn well_formed(self) -> bool {
        self.cursor <= self.bytes@.len()
    }

    /// An empty buffer.
    pub fn new() -> (buffer: StreamBuffer)
        ensures
            buffer@ == Seq::<u8>::empty(),
    {
        let buffer = StreamBuffer { bytes: Vec::new(), cursor: 0 };
        assert(buffer.bytes@.skip(0) =~= Seq::empty());
        buffer
    }

    /// Number of bytes held.
    pub fn len(&self) -> (n: usize)
        ensures
            n == self@.len(),
    {
        proof {
            use_type_invariant(self);
        }
        self.bytes.len() - self.cursor
    }

    /// The bytes held, oldest first.
    pub fn as_slice(&self) -> (bytes: &[u8])
        ensures
            bytes@ == self@,
    {
        proof {
            use_type_invariant(self);
        }
        let held = slice_subrange(self.bytes.as_slice(), self.cursor, self.bytes.len());
        assert(held@ =~= self@);
        held
    }

    /// Puts `bytes` behind the bytes held. The bytes handed out before are let go of here.
    pub fn append(&mut self, bytes: &[u8])
        ensures
            final(self)@ == old(self)@ + bytes@,
    {
        proof {
            use_type_invariant(&*self);
        }
        let cursor = self.cursor;
        let mut held: Vec<u8> = Vec::new();
        self.cursor = 0;
        core::mem::swap(&mut self.bytes, &mut held);
        let mut kept = if cursor > 0 {
            held.split_off(cursor)
        } else {
            held
        };
        assert(kept@ =~= old(self)@);
        kept.extend_from_slice(bytes);
        assert(kept@ =~= old(self)@ + bytes@);
        self.bytes = kept;
        assert(self.bytes@.skip(0) =~= self.bytes@);
    }

    /// Hands the first `n` bytes out and moves the cursor behind them.
    pub fn consume(&mut self, n: usize) -> (taken: Vec<u8>)
        requires
            n <= old(self)@.len(),
        ensures
            taken@ == old(self)@.take(n as int),
            final(self)@ == old(self)@.skip(n as int),
    {
        proof {
            use_type_invariant(&*self);
        }
        let end = self.bytes.len() - (self.len() - n);
        let taken = slice_to_vec(slice_subrange(self.bytes.as_slice(), self.cursor, end));
        assert(taken@ =~= self@.take(n as int));
        assert(self.bytes@.skip(end as int) =~= self@.skip(n as int));
        self.cursor = end;
        taken
    }

    /// Lets go of every byte held.
    pub fn clear(&mut self)
        ensures
            final(self)@ == Seq::<u8>::empty(),
    {
        self.cursor = 0;
        self.bytes = Vec::new();
        assert(self.bytes@.skip(0) =~= Seq::empty());
    }
}

/// Cuts the byte stream of each direction into frames, however the bytes arrive.
#[derive(Debug)]
pub struct FrameReassembler {
    max_frame_size: usize,
    requests: StreamBuffer,
    responses: StreamBuffer,
}

/// What a `FrameReassembler` stands for.
pub struct ReassemblerView {
    /// The largest frame, header included, that is handed out.
    pub max_frame_size: int,
    /// The bytes of the request direction that were fed and not yet handed out.
    pub requests: Seq<u8>,
    /// The bytes of the response direction that were fed and not yet handed out.
    pub responses: Seq<u8>,
}

impl ReassemblerView {
    /// The bytes buffered for `direction`.
    pub open spec fn buffered(self, direction: Direction) -> Seq<u8> {
        match direction {
            Direction::Request => self.requests,
            Direction::Response => self.responses,
        }
    }

    /// This view with `bytes` as the buffer of `direction`.
    pub open spec fn with_buffered(self, direction: Direction, bytes: Seq<u8>) -> ReassemblerView {
        match direction {
            Direction::Request => ReassemblerView { requests: bytes, ..self },
            Direction::Response => ReassemblerView { responses: bytes, ..self },
        }
    }

    /// The stream of `direction` is corrupt: the frame at its head declares more than
    /// the maximum. Nothing fed later changes that.
    pub open spec fn halted(self, direction: Direction) -> bool {
        head_too_large(direction, self.max_frame_size, self.buffered(direction))
    }
}

impl View for FrameReassembler {
    type V = ReassemblerView;

    closed spec fn view(&self) -> ReassemblerView {
        ReassemblerView {
            max_frame_size: self.max_frame_size as int,
            requests: self.requests@,
            responses: self.responses@,
        }
    }
}

impl FrameReassembler {
    /// An empty reassembler that refuses frames of more than `max_frame_size` bytes,
    /// header included.
    pub fn new(max_frame_size: usize) -> (reassembler: FrameReassembler)
        ensures
            reassembler@ == (ReassemblerView {
                max_frame_size: max_frame_size as int,
                requests: Seq::empty(),
                responses: Seq::empty(),
            }),
    {
        FrameReassembler {
            max_frame_size,
            requests: StreamBuffer::new(),
            responses: StreamBuffer::new(),
        }
    }

    /// The largest frame, header included, that this reassembler hands out.
    pub fn max_frame_size(&self) -> (max: usize)
        ensures
            max == self@.max_frame_size,
    {
        self.max_frame_size
    }

    /// Number of bytes of `direction` that were fed and not yet handed out.
    pub fn buffered_len(&self, direction: Direction) -> (n: usize)
        ensures
            n == self@.buffered(direction).len(),
    {
        match direction {
            Direction::Request => self.requests.len(),
            Direction::Response => self.responses.len(),
        }
    }

    /// Whether the stream of `direction` is corrupt.
    pub fn is_halted(&self, direction: Direction) -> (halted: bool)
        ensures
            halted == self@.halted(direction),
    {
        let held = match direction {
            Direction::Request => self.requests.as_slice(),
            Direction::Response => self.responses.as_slice(),
        };
        let header = direction.header_len();
        if held.len() < header {
            return false;
        }
        match read_u32_le(held, header - 4) {
            Some(declared) => header as u64 + declared as u64 > self.max_frame_size as u64,
            None => false,
        }
    }

    /// Appends `bytes` to the buffer of `direction`. No frame is produced here.
    pub fn feed(&mut self, direction: Direction, bytes: &[u8])
        ensures
            final(self)@ == old(self)@.with_buffered(
                direction,
                old(self)@.buffered(direction) + bytes@,
            ),
    {
        match direction {
            Direction::Request => self.requests.append(bytes),
            Direction::Response => self.responses.append(bytes),
        }
    }

    /// Empties the buffers of both directions, as when a connection starts anew.
    pub fn reset(&mut self)
        ensures
            final(self)@ == (ReassemblerView {
                max_frame_size: old(self)@.max_frame_size,
                requests: Seq::empty(),
                responses: Seq::empty(),
            }),
    {
        self.requests.clear();
        self.responses.clear();
    }

    /// Cuts the frame at the head of the buffer of `direction` off, if a whole one is there.
    ///
    /// - `Err(Fault::FrameTooLarge)`: the header at the head declares a frame larger
    ///   than the maximum. Nothing is removed, so every later call says the same.
    /// - `Ok(Some(frame))`: a whole frame was there; it is removed from the buffer.
    /// - `Ok(None)`: the header, or the bytes it declares, are not all there yet.
    pub fn try_extract_frame(&mut self, direction: Direction) -> (result: Result<
        Option<Frame>,
        Fault,
    >)
        ensures
            old(self)@.halted(direction) ==> result == Err::<Option<Frame>, Fault>(
                Fault::FrameTooLarge,
            ) && final(self)@ == old(self)@,
            head_complete(direction, old(self)@.max_frame_size, old(self)@.buffered(direction))
                ==> {
                &&& result matches Ok(Some(frame))
                &&& frame@ == (FrameView {
                    direction,
                    bytes: old(self)@.buffered(direction).take(
                        frame_size(direction, old(self)@.buffered(direction)),
                    ),
                })
                &&& final(self)@ == old(self)@.with_buffered(
                    direction,
                    old(self)@.buffered(direction).skip(
                        frame_size(direction, old(self)@.buffered(direction)),
                    ),
                )
            },
            !old(self)@.halted(direction) && !head_complete(
                direction,
                old(self)@.max_frame_size,
                old(self)@.buffered(direction),
            ) ==> result == Ok::<Option<Frame>, Fault>(None) && final(self)@ == old(self)@,
    {
        let held = match direction {
            Direction::Request => self.requests.as_slice(),
            Direction::Response => self.responses.as_slice(),
        };
        let header = direction.header_len();
        let declared = match read_u32_le(held, header - 4) {
            Some(declared) => declared,
            None => { return Ok(None); },
        };
        let size: u64 = header as u64 + declared as u64;
        if size > self.max_frame_size as u64 {
            return Err(Fault::FrameTooLarge);
        }
        if (held.len() as u64) < size {
            return Ok(None);
        }
        proof {
            lemma_head_is_frame(direction, self@.max_frame_size, self@.buffered(direction));
        }
        let bytes = match direction {
            Direction::Request => self.requests.consume(size as usize),
            Direction::Response => self.responses.consume(size as usize),
        };
        Ok(Some(Frame { direction, bytes }))
    }
}

} // verus!
