//! The dissector of one connection: bytes in, decoded messages out.

use vstd::prelude::*;
use crate::catalog::CommandCatalog;
use crate::catalog::DescriptorView;
use crate::correlator::correlate;
use crate::correlator::queue_after_request;
use crate::correlator::queue_after_response;
use crate::correlator::report_views;
use crate::correlator::unanswered;
use crate::correlator::Correlator;
use crate::correlator::FaultReport;
use crate::correlator::PendingView;
use crate::fault::Fault;
use crate::frame::frame_size;
use crate::frame::head_complete;
use crate::frame::lemma_head_is_frame;
use crate::frame::lemma_head_stable;
use crate::frame::Direction;
use crate::frame::FrameReassembler;
use crate::frame::ReassemblerView;
use crate::message::decode_frame;
use crate::message::frame_message;
use crate::message::lemma_frame_message_length;
use crate::message::DecodedMessage;
use crate::message::MessageView;

verus! {

/// The messages that a list of `DecodedMessage` stands for.
pub open spec fn message_views(messages: Seq<DecodedMessage>) -> Seq<MessageView> {
    messages.map_values(|m: DecodedMessage| m@)
}

/// What one frame of `direction` gives: its message, and the queue of waiting
/// requests afterwards.
///
/// A request joins the queue. A response is paired with the head of the queue,
/// which leaves.
pub open spec fn process_frame(
    catalog: Map<u32, DescriptorView>,
    direction: Direction,
    frame: Seq<u8>,
    pending: Seq<PendingView>,
) -> (MessageView, Seq<PendingView>) {
    let message = frame_message(catalog, direction, frame);
    match direction {
        Direction::Request => (message, queue_after_request(pending, message)),
        Direction::Response => (
            correlate(catalog, message, pending),
            queue_after_response(pending, message),
        ),
    }
}

/// What is left when every complete frame was taken off a buffer.
pub struct Drained {
    /// The messages of the frames taken, in order.
    pub messages: Seq<MessageView>,
    /// The bytes behind the last frame taken.
    pub rest: Seq<u8>,
    /// The queue of waiting requests after the last frame taken.
    pub pending: Seq<PendingView>,
}

/// Takes complete frames off the head of `buffer` for as long as one is there.
pub open spec fn drain(
    catalog: Map<u32, DescriptorView>,
    direction: Direction,
    max: int,
    buffer: Seq<u8>,
    pending: Seq<PendingView>,
) -> Drained
    decreases buffer.len(),
{
    if head_complete(direction, max, buffer) {
        let size = frame_size(direction, buffer);
        let step = process_frame(catalog, direction, buffer.take(size), pending);
        let later = drain(catalog, direction, max, buffer.skip(size), step.1);
        Drained {
            messages: seq![step.0] + later.messages,
            rest: later.rest,
            pending: later.pending,
        }
    } else {
        Drained { messages: Seq::empty(), rest: buffer, pending }
    }
}

/// What a `Dissector` stands for.
pub struct DissectorView {
    /// The commands known.
    pub catalog: Map<u32, DescriptorView>,
    /// The bytes of each direction that are not yet part of a message.
    pub reassembler: ReassemblerView,
    /// The requests that wait for a response, oldest first.
    pub pending: Seq<PendingView>,
}

impl DissectorView {
    /// The state after `bytes` arrived in `direction`, and the messages they completed.
    pub open spec fn on_bytes(self, direction: Direction, bytes: Seq<u8>) -> (
        DissectorView,
        Seq<MessageView>,
    ) {
        let drained = drain(
            self.catalog,
            direction,
            self.reassembler.max_frame_size,
            self.reassembler.buffered(direction) + bytes,
            self.pending,
        );
        (
            DissectorView {
                catalog: self.catalog,
                reassembler: self.reassembler.with_buffered(direction, drained.rest),
                pending: drained.pending,
            },
            drained.messages,
        )
    }

    /// The state after the fragments `fragments` arrived in `direction` one by one,
    /// and the messages they completed, in order.
    pub open spec fn on_fragments(self, direction: Direction, fragments: Seq<Seq<u8>>) -> (
        DissectorView,
        Seq<MessageView>,
    )
        decreases fragments.len(),
    {
        if fragments.len() == 0 {
            (self, Seq::empty())
        } else {
            let earlier = self.on_fragments(direction, fragments.drop_last());
            let last = earlier.0.on_bytes(direction, fragments.last());
            (last.0, earlier.1 + last.1)
        }
    }

    /// The fault of the stream of `direction`, if it is corrupt.
    pub open spec fn stream_fault(self, direction: Direction) -> Option<Fault> {
        if self.reassembler.halted(direction) {
            Some(Fault::FrameTooLarge)
        } else {
            None
        }
    }
}

/// The fragments of `fragments`, one behind the other.
pub open spec fn concat(fragments: Seq<Seq<u8>>) -> Seq<u8>
    decreases fragments.len(),
{
    if fragments.len() == 0 {
        Seq::empty()
    } else {
        concat(fragments.drop_last()) + fragments.last()
    }
}

/// Draining a buffer, then the rest of it with more bytes behind, gives what
/// draining the buffer with those bytes behind gives at once.
pub proof fn lemma_drain_append(
    catalog: Map<u32, DescriptorView>,
    direction: Direction,
    max: int,
    buffer: Seq<u8>,
    more: Seq<u8>,
    pending: Seq<PendingView>,
)
    ensures
        ({
            let first = drain(catalog, direction, max, buffer, pending);
            let second = drain(catalog, direction, max, first.rest + more, first.pending);
            drain(catalog, direction, max, buffer + more, pending) == (Drained {
                messages: first.messages + second.messages,
                rest: second.rest,
                pending: second.pending,
            })
        }),
    decreases buffer.len(),
{
    let first = drain(catalog, direction, max, buffer, pending);
    let second = drain(catalog, direction, max, first.rest + more, first.pending);
    let whole = drain(catalog, direction, max, buffer + more, pending);
    if head_complete(direction, max, buffer) {
        let size = frame_size(direction, buffer);
        lemma_head_stable(direction, max, buffer, more);
        let step = process_frame(catalog, direction, buffer.take(size), pending);
        lemma_drain_append(catalog, direction, max, buffer.skip(size), more, step.1);
        let later = drain(catalog, direction, max, buffer.skip(size), step.1);
        assert(frame_size(direction, buffer + more) == size);
        assert(whole.messages =~= first.messages + second.messages);
    } else {
        assert(whole.messages =~= first.messages + second.messages);
    }
}

/// Fragmentation invariance, for two fragments: bytes that arrive in two calls
/// give the same messages, in the same order, and leave the same state behind
/// as the same bytes arriving in one call.
pub proof fn lemma_two_fragments(
    state: DissectorView,
    direction: Direction,
    first: Seq<u8>,
    second: Seq<u8>,
)
    ensures
        ({
            let a = state.on_bytes(direction, first);
            let b = a.0.on_bytes(direction, second);
            let whole = state.on_bytes(direction, first + second);
            whole.0 == b.0 && whole.1 == a.1 + b.1
        }),
{
    let buffer = state.reassembler.buffered(direction);
    let max = state.reassembler.max_frame_size;
    lemma_drain_append(state.catalog, direction, max, buffer + first, second, state.pending);
    assert(buffer + (first + second) =~= (buffer + first) + second);
    let a = state.on_bytes(direction, first);
    assert(a.0.reassembler.buffered(direction) == drain(
        state.catalog,
        direction,
        max,
        buffer + first,
        state.pending,
    ).rest);
}

/// Fragmentation invariance: however a byte sequence is split into one or more
/// fragments that arrive one by one, the messages that come out, their order,
/// and the state left behind are those of the whole sequence arriving in one call.
pub proof fn lemma_fragmentation_invariance(
    state: DissectorView,
    direction: Direction,
    fragments: Seq<Seq<u8>>,
)
    requires
        fragments.len() >= 1,
    ensures
        state.on_fragments(direction, fragments) == state.on_bytes(direction, concat(fragments)),
    decreases fragments.len(),
{
    let earlier = fragments.drop_last();
    if earlier.len() == 0 {
        assert(concat(earlier) =~= Seq::<u8>::empty());
        assert(concat(fragments) =~= fragments.last());
        assert(state.on_fragments(direction, earlier) == (state, Seq::<MessageView>::empty()));
        let only = state.on_bytes(direction, fragments.last());
        assert(Seq::<MessageView>::empty() + only.1 =~= only.1);
    } else {
        lemma_fragmentation_invariance(state, direction, earlier);
        lemma_two_fragments(state, direction, concat(earlier), fragments.last());
    }
}

/// Length invariant: in every message that comes out of a buffer, the declared
/// length is the number of bytes that the message took behind its length field.
pub proof fn lemma_drained_lengths(
    catalog: Map<u32, DescriptorView>,
    direction: Direction,
    max: int,
    buffer: Seq<u8>,
    pending: Seq<PendingView>,
)
    ensures
        forall|i: int|
            #![trigger drain(catalog, direction, max, buffer, pending).messages[i]]
            0 <= i < drain(catalog, direction, max, buffer, pending).messages.len() ==> {
                let message = drain(catalog, direction, max, buffer, pending).messages[i];
                message.length_consistent() && message.direction == direction
            },
    decreases buffer.len(),
{
    if head_complete(direction, max, buffer) {
        let size = frame_size(direction, buffer);
        let frame = buffer.take(size);
        lemma_head_is_frame(direction, max, buffer);
        lemma_frame_message_length(catalog, direction, frame);
        let step = process_frame(catalog, direction, frame, pending);
        lemma_drained_lengths(catalog, direction, max, buffer.skip(size), step.1);
        let later = drain(catalog, direction, max, buffer.skip(size), step.1);
        let all = drain(catalog, direction, max, buffer, pending).messages;
        assert forall|i: int| 0 <= i < all.len() implies (#[trigger] all[i]).length_consistent()
            && all[i].direction == direction by {
            if i > 0 {
                assert(all[i] == later.messages[i - 1]);
            }
        }
    }
}

/// What one call of `on_bytes` gives.
#[derive(Debug)]
pub struct Dissection {
    /// The messages that the bytes completed, in wire order.
    pub messages: Vec<DecodedMessage>,
    /// `Some(Fault::FrameTooLarge)` if the stream of the direction is corrupt:
    /// no message will come out of that direction any more.
    pub fault: Option<Fault>,
}

/// Decodes the two byte streams of one connection into messages, and pairs
/// each response with the request it answers.
#[derive(Debug)]
pub struct Dissector {
    catalog: CommandCatalog,
    reassembler: FrameReassembler,
    correlator: Correlator,
}

impl View for Dissector {
    type V = DissectorView;

    closed spec fn view(&self) -> DissectorView {
        DissectorView {
            catalog: self.catalog@,
            reassembler: self.reassembler@,
            pending: self.correlator@,
        }
    }
}

impl Dissector {
    /// A dissector for a new connection: empty buffers, no request waiting. It
    /// knows the commands of `catalog` and treats a frame of more than
    /// `max_frame_size` bytes, header included, as a sign of a corrupt stream.
    pub fn new(catalog: CommandCatalog, max_frame_size: usize) -> (dissector: Dissector)
        ensures
            dissector@ == (DissectorView {
                catalog: catalog@,
                reassembler: ReassemblerView {
                    max_frame_size: max_frame_size as int,
                    requests: Seq::empty(),
                    responses: Seq::empty(),
                },
                pending: Seq::empty(),
            }),
    {
        Dissector {
            catalog,
            reassembler: FrameReassembler::new(max_frame_size),
            correlator: Correlator::new(),
        }
    }

    /// The catalog of commands that this dissector decodes by.
    pub fn catalog(&self) -> (catalog: &CommandCatalog)
        ensures
            catalog@ == self@.catalog,
    {
        &self.catalog
    }

    /// Number of requests that wait for a response.
    pub fn pending_len(&self) -> (n: usize)
        ensures
            n == self@.pending.len(),
    {
        self.correlator.pending_len()
    }

    /// Number of bytes of `direction` that are not yet part of a message.
    pub fn buffered_len(&self, direction: Direction) -> (n: usize)
        ensures
            n == self@.reassembler.buffered(direction).len(),
    {
        self.reassembler.buffered_len(direction)
    }

    /// Takes the next complete frame of `direction` off its buffer, if one is
    /// there, and decodes it into a message.
    ///
    /// - `Err(Fault::FrameTooLarge)`: the stream of the direction is corrupt.
    /// - `Ok(Some(message))`: a frame was there; a request has joined the queue of
    ///   waiting requests, a response was paired with the head of that queue.
    /// - `Ok(None)`: no complete frame is there yet.
    pub fn next_message(&mut self, direction: Direction) -> (result: Result<
        Option<DecodedMessage>,
        Fault,
    >)
        ensures
            final(self)@.catalog == old(self)@.catalog,
            old(self)@.reassembler.halted(direction) ==> result == Err::<
                Option<DecodedMessage>,
                Fault,
            >(Fault::FrameTooLarge) && final(self)@ == old(self)@,
            head_complete(
                direction,
                old(self)@.reassembler.max_frame_size,
                old(self)@.reassembler.buffered(direction),
            ) ==> {
                let buffer = old(self)@.reassembler.buffered(direction);
                let size = frame_size(direction, buffer);
                let step = process_frame(
                    old(self)@.catalog,
                    direction,
                    buffer.take(size),
                    old(self)@.pending,
                );
                &&& result matches Ok(Some(message))
                &&& message@ == step.0
                &&& message@.length_consistent()
                &&& final(self)@.pending == step.1
                &&& final(self)@.reassembler == old(self)@.reassembler.with_buffered(
                    direction,
                    buffer.skip(size),
                )
            },
            !old(self)@.reassembler.halted(direction) && !head_complete(
                direction,
                old(self)@.reassembler.max_frame_size,
                old(self)@.reassembler.buffered(direction),
            ) ==> result == Ok::<Option<DecodedMessage>, Fault>(None) && final(self)@ == old(
                self,
            )@,
    {
        match self.reassembler.try_extract_frame(direction) {
            Ok(Some(frame)) => {
                let decoded = decode_frame(&frame, &self.catalog);
                let message = match direction {
                    Direction::Request => {
                        self.correlator.on_request(&decoded);
                        decoded
                    },
                    Direction::Response => self.correlator.on_response(decoded, &self.catalog),
                };
                Ok(Some(message))
            },
            Ok(None) => Ok(None),
            Err(found) => Err(found),
        }
    }

    /// Takes `bytes` as the next bytes of `direction` and returns the messages
    /// that they complete.
    ///
    /// How the bytes of a direction are cut into calls makes no difference to the
    /// messages that come out. Each request joins the queue of waiting requests;
    /// each response is paired with the request at the head of that queue.
    pub fn on_bytes(&mut self, direction: Direction, bytes: &[u8]) -> (dissection: Dissection)
        ensures
            final(self)@ == old(self)@.on_bytes(direction, bytes@).0,
            message_views(dissection.messages@) == old(self)@.on_bytes(direction, bytes@).1,
            dissection.fault == final(self)@.stream_fault(direction),
            forall|i: int|
                0 <= i < dissection.messages@.len() ==> (
                #[trigger] dissection.messages@[i])@.length_consistent(),
    {
        let ghost catalog = self@.catalog;
        let ghost max = self@.reassembler.max_frame_size;
        let ghost start = self@.reassembler.buffered(direction) + bytes@;
        let ghost goal = drain(catalog, direction, max, start, self@.pending);
        let ghost others = self@.reassembler;
        let mut messages: Vec<DecodedMessage> = Vec::new();
        let mut fault: Option<Fault> = None;
        let mut more = true;
        self.reassembler.feed(direction, bytes);
        proof {
            assert(message_views(messages@) =~= Seq::<MessageView>::empty());
            let now = drain(catalog, direction, max, start, self@.pending);
            assert(message_views(messages@) + now.messages =~= goal.messages);
        }
        while more
            invariant
                self@.catalog == catalog,
                self@.reassembler.max_frame_size == max,
                self@.reassembler == others.with_buffered(
                    direction,
                    self@.reassembler.buffered(direction),
                ),
                message_views(messages@) + drain(
                    catalog,
                    direction,
                    max,
                    self@.reassembler.buffered(direction),
                    self@.pending,
                ).messages == goal.messages,
                drain(
                    catalog,
                    direction,
                    max,
                    self@.reassembler.buffered(direction),
                    self@.pending,
                ).rest == goal.rest,
                drain(
                    catalog,
                    direction,
                    max,
                    self@.reassembler.buffered(direction),
                    self@.pending,
                ).pending == goal.pending,
                !more ==> !head_complete(direction, max, self@.reassembler.buffered(direction)),
                !more ==> fault == self@.stream_fault(direction),
                more ==> fault is None,
                forall|i: int|
                    0 <= i < messages@.len() ==> (#[trigger] messages@[i])@.length_consistent(),
            decreases self@.reassembler.buffered(direction).len() + (if more { 1int } else { 0int }),
        {
            let ghost buffer = self@.reassembler.buffered(direction);
            let ghost pending = self@.pending;
            let ghost earlier = message_views(messages@);
            let ghost now = drain(catalog, direction, max, buffer, pending);
            match self.next_message(direction) {
                Ok(Some(message)) => {
                    messages.push(message);
                    proof {
                        let size = frame_size(direction, buffer);
                        let step = process_frame(catalog, direction, buffer.take(size), pending);
                        let later = drain(catalog, direction, max, buffer.skip(size), step.1);
                        assert(now.messages == seq![step.0] + later.messages);
                        assert(message_views(messages@) =~= earlier.push(step.0));
                        assert(message_views(messages@) + later.messages =~= earlier
                            + now.messages);
                    }
                },
                Ok(None) => {
                    more = false;
                },
                Err(found) => {
                    fault = Some(found);
                    more = false;
                },
            }
        }
        proof {
            let now = drain(
                catalog,
                direction,
                max,
                self@.reassembler.buffered(direction),
                self@.pending,
            );
            assert(message_views(messages@) + now.messages =~= message_views(messages@));
        }
        Dissection { messages, fault }
    }

    /// Closes the connection: every request that still waits for its response is
    /// reported as `Fault::UnansweredRequest`, oldest first. The buffers of both
    /// directions are emptied and no request waits afterwards.
    pub fn on_connection_close(&mut self) -> (reports: Vec<FaultReport>)
        ensures
            report_views(reports@) == old(self)@.pending.map_values(
                |p: PendingView| unanswered(p),
            ),
            final(self)@ == (DissectorView {
                catalog: old(self)@.catalog,
                reassembler: ReassemblerView {
                    max_frame_size: old(self)@.reassembler.max_frame_size,
                    requests: Seq::empty(),
                    responses: Seq::empty(),
                },
                pending: Seq::empty(),
            }),
    {
        self.reassembler.reset();
        self.correlator.on_connection_close()
    }
}

} // verus!
