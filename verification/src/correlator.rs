//! Pairing of responses with the requests they answer.
//!
//! A connection carries one exchange at a time and answers in order, so the
//! requests that wait for a response form a queue: a request joins at the tail,
//! a response takes the request at the head.

use std::collections::VecDeque;
use vstd::prelude::*;
use crate::catalog::CommandCatalog;
use crate::catalog::DescriptorView;
use crate::fault::Fault;
use crate::frame::Direction;
use crate::message::decode_command_payload;
use crate::message::payload_fields;
use crate::message::response_schema;
use crate::message::DecodedMessage;
use crate::message::MessageView;
use crate::status::name_view;

verus! {

/// A request that waits for its response: the command's code, if the request
/// had one, and the command's name, if the catalog knew the code.
#[derive(Clone, Copy, Debug, PartialEq, Eq)]
pub struct PendingRequest {
    pub command_code: Option<u32>,
    pub command_name: Option<&'static str>,
}

/// What a `PendingRequest` stands for.
pub struct PendingView {
    pub command_code: Option<u32>,
    pub command_name: Option<Seq<char>>,
}

impl View for PendingRequest {
    type V = PendingView;

    open spec fn view(&self) -> PendingView {
        PendingView {
            command_code: self.command_code,
            command_name: name_view(self.command_name),
        }
    }
}

/// A fault that belongs to no message: the fault, and the request it is about.
#[derive(Clone, Copy, Debug, PartialEq, Eq)]
pub struct FaultReport {
    pub fault: Fault,
    pub command_code: Option<u32>,
    pub command_name: Option<&'static str>,
}

/// What a `FaultReport` stands for.
pub struct FaultReportView {
    pub fault: Fault,
    pub command_code: Option<u32>,
    pub command_name: Option<Seq<char>>,
}

impl View for FaultReport {
    type V = FaultReportView;

    open spec fn view(&self) -> FaultReportView {
        FaultReportView {
            fault: self.fault,
            command_code: self.command_code,
            command_name: name_view(self.command_name),
        }
    }
}

/// The queue entries that a list of `PendingRequest` stands for.
pub open spec fn pending_views(pending: Seq<PendingRequest>) -> Seq<PendingView> {
    pending.map_values(|p: PendingRequest| p@)
}

/// The reports that a list of `FaultReport` stands for.
pub open spec fn report_views(reports: Seq<FaultReport>) -> Seq<FaultReportView> {
    reports.map_values(|r: FaultReport| r@)
}

/// The queue entry of a request.
pub open spec fn pending_of(request: MessageView) -> PendingView {
    PendingView { command_code: request.command_code, command_name: request.command_name }
}

/// The report on a request that was never answered.
pub open spec fn unanswered(pending: PendingView) -> FaultReportView {
    FaultReportView {
        fault: Fault::UnansweredRequest,
        command_code: pending.command_code,
        command_name: pending.command_name,
    }
}

/// The queue after a request was emitted: the request has joined at the tail.
/// A message that is no request leaves the queue as it is.
pub open spec fn queue_after_request(pending: Seq<PendingView>, message: MessageView) -> Seq<
    PendingView,
> {
    if message.direction == Direction::Request {
        pending.push(pending_of(message))
    } else {
        pending
    }
}

/// The queue after a response was emitted: the head has left, if there was one.
/// A message that is no response leaves the queue as it is.
pub open spec fn queue_after_response(pending: Seq<PendingView>, message: MessageView) -> Seq<
    PendingView,
> {
    if message.direction == Direction::Response && pending.len() > 0 {
        pending.drop_first()
    } else {
        pending
    }
}

/// The response `response`, paired with the head of the queue `pending`.
///
/// With a request waiting, the response gets that request's command code and
/// name, and its payload is decoded by the command's response schema; where the
/// catalog holds none, the payload is one opaque field and the message is marked
/// `Fault::UnknownCommandCode`. With no request waiting, the response is marked
/// `Fault::UnmatchedResponse` and is otherwise as it came. A message that is no
/// response is as it came.
pub open spec fn correlate(
    catalog: Map<u32, DescriptorView>,
    response: MessageView,
    pending: Seq<PendingView>,
) -> MessageView {
    if response.direction != Direction::Response {
        response
    } else if pending.len() == 0 {
        MessageView { fault: Some(Fault::UnmatchedResponse), ..response }
    } else {
        let head = pending[0];
        let decoded = payload_fields(
            response_schema(catalog, head.command_code),
            response.raw_payload,
        );
        MessageView {
            command_code: head.command_code,
            command_name: head.command_name,
            fields: decoded.0,
            fault: decoded.1,
            ..response
        }
    }
}

/// The requests of one connection that wait for their responses, oldest first.
#[derive(Debug)]
pub struct Correlator {
    pending: VecDeque<PendingRequest>,
}

impl View for Correlator {
    type V = Seq<PendingView>;

    closed spec fn view(&self) -> Seq<PendingView> {
        pending_views(self.pending@)
    }
}

impl Correlator {
    /// A correlator with no request waiting.
    pub fn new() -> (correlator: Correlator)
        ensures
            correlator@ == Seq::<PendingView>::empty(),
    {
        let correlator = Correlator { pending: VecDeque::new() };
        assert(correlator@ =~= Seq::<PendingView>::empty());
        correlator
    }

    /// Number of requests that wait for a response.
    pub fn pending_len(&self) -> (n: usize)
        ensures
            n == self@.len(),
    {
        self.pending.len()
    }

    /// Notes that `request` was emitted: it waits for its response from now on.
    pub fn on_request(&mut self, request: &DecodedMessage)
        ensures
            final(self)@ == queue_after_request(old(self)@, request@),
    {
        match request.direction {
            Direction::Request => {
                let entry = PendingRequest {
                    command_code: request.command_code,
                    command_name: request.command_name,
                };
                self.pending.push_back(entry);
                assert(self@ =~= old(self)@.push(pending_of(request@)));
            },
            Direction::Response => {},
        }
    }

    /// Pairs `response` with the request that has waited longest, which leaves the
    /// queue, and decodes the payload as that request's command says.
    pub fn on_response(&mut self, response: DecodedMessage, catalog: &CommandCatalog) -> (paired:
        DecodedMessage)
        ensures
            paired@ == correlate(catalog@, response@, old(self)@),
            final(self)@ == queue_after_response(old(self)@, response@),
    {
        match response.direction {
            Direction::Request => response,
            Direction::Response => {
                match self.pending.pop_front() {
                    Some(head) => {
                        assert(self@ =~= old(self)@.drop_first());
                        assert(head@ == old(self)@[0]);
                        let decoded = decode_command_payload(
                            catalog,
                            Direction::Response,
                            head.command_code,
                            response.raw_payload.as_slice(),
                        );
                        DecodedMessage {
                            direction: response.direction,
                            code_or_status: response.code_or_status,
                            command_code: head.command_code,
                            command_name: head.command_name,
                            status_name: response.status_name,
                            declared_length: response.declared_length,
                            fields: decoded.0,
                            raw_payload: response.raw_payload,
                            fault: decoded.1,
                        }
                    },
                    None => {
                        DecodedMessage {
                            direction: response.direction,
                            code_or_status: response.code_or_status,
                            command_code: response.command_code,
                            command_name: response.command_name,
                            status_name: response.status_name,
                            declared_length: response.declared_length,
                            fields: response.fields,
                            raw_payload: response.raw_payload,
                            fault: Some(Fault::UnmatchedResponse),
                        }
                    },
                }
            },
        }
    }

    /// Closes the connection: every request that still waits is reported as
    /// `Fault::UnansweredRequest`, oldest first, and the queue is empty afterwards.
    pub fn on_connection_close(&mut self) -> (reports: Vec<FaultReport>)
        ensures
            report_views(reports@) == old(self)@.map_values(|p: PendingView| unanswered(p)),
            final(self)@ == Seq::<PendingView>::empty(),
    {
        let mut reports: Vec<FaultReport> = Vec::new();
        let ghost all = self@;
        assert(report_views(reports@) =~= all.take(0).map_values(|p: PendingView| unanswered(p)));
        assert(self@ =~= all.skip(0));
        while self.pending.len() > 0
            invariant
                reports@.len() <= all.len(),
                report_views(reports@) == all.take(reports@.len() as int).map_values(
                    |p: PendingView| unanswered(p),
                ),
                self@ == all.skip(reports@.len() as int),
            decreases self.pending@.len(),
        {
            let ghost done = reports@.len() as int;
            let ghost before = self.pending@;
            let ghost earlier = reports@;
            match self.pending.pop_front() {
                Some(head) => {
                    proof {
                        assert(before.len() > 0 && head == before[0]);
                        assert(pending_views(before).len() == before.len());
                        assert(head@ == pending_views(before)[0]);
                        assert(all.skip(done)[0] == all[done]);
                        assert(pending_views(before.subrange(1, before.len() as int))
                            =~= pending_views(before).drop_first());
                        assert(all.skip(done).drop_first() =~= all.skip(done + 1));
                    }
                    reports.push(
                        FaultReport {
                            fault: Fault::UnansweredRequest,
                            command_code: head.command_code,
                            command_name: head.command_name,
                        },
                    );
                    proof {
                        let mapped = |p: PendingView| unanswered(p);
                        assert(reports@.last()@ == unanswered(all[done]));
                        assert(report_views(reports@) =~= report_views(
                            reports@.drop_last(),
                        ).push(reports@.last()@));
                        assert(all.take(done + 1) =~= all.take(done).push(all[done]));
                        assert(all.take(done + 1).map_values(mapped) =~= all.take(
                            done,
                        ).map_values(mapped).push(unanswered(all[done])));
                        assert(reports@.drop_last() =~= earlier);
                    }
                },
                None => {},
            }
        }
        assert(all.take(all.len() as int) =~= all);
        assert(self@ =~= Seq::<PendingView>::empty());
        reports
    }
}

} // verus!
