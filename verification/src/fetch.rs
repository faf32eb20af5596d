//! The page-fetch state machine.
//!
//! One machine drives one page request from submission to its single
//! terminal outcome. The machine is a pure transition system: the caller
//! performs the waiting, the transport calls and the link crypto, and feeds
//! the machine one event per suspension point; the machine answers with the
//! actions to perform. Exactly one `Finish` action is ever emitted, when the
//! machine first reaches its terminal phase, and a terminal machine ignores
//! every further event.
use vstd::prelude::*;

verus! {

use vstd::string::StringSliceAdditionalSpecFns;
use vstd::utf8::valid_utf8;
use crate::assembler::{
    ResourceAssembler, ResourcePacket, ResourceContext, HandleResult, announcement_accepted,
    spec_parse_announcement, spec_parse_part, part_dropped, parts_view, missing_bytes,
};
use crate::hashing::{compute_path_hash, sha256_of, path_hash_of};
use crate::wire::{
    encode_page_request, request_encoding, form_view, spec_parse_resource, parse_resource_content,
    spec_parse_response, parse_page_response, copy_range,
};

/// The progress stages reported to the caller, last writer wins.
#[derive(Debug, Clone, PartialEq)]
pub enum PageStatus {
    RequestingPath,
    WaitingForAnnounce,
    PathFound { hops: u8 },
    Connecting,
    LinkEstablished,
    SendingRequest,
    AwaitingResponse,
    Retrieving { parts_received: u32, total_parts: u32 },
    Complete,
    Cancelled,
    Failed(String),
}

/// The single terminal outcome of one fetch.
#[derive(Debug, PartialEq)]
pub enum FetchOutcome {
    Complete(Vec<u8>),
    Cancelled,
    Failed(String),
}

/// What the machine is waiting for.
#[derive(Debug, Clone, Copy, PartialEq, Eq)]
pub enum FetchPhase {
    /// Awaiting the first path answer.
    Start,
    /// A path was requested; polling until one appears.
    PathWait,
    /// A path exists; awaiting the hop count.
    HopsWait,
    /// A link was requested; awaiting its activation.
    LinkWait,
    /// The request packet is on its way out.
    Sending,
    /// Awaiting the response, one-shot or chunked.
    Response,
    /// Finished; every further event is ignored.
    Done,
}

/// One observed event, fed by the caller at a suspension point. Payloads
/// arrive already decrypted.
#[derive(Debug)]
pub enum FetchEvent {
    /// The answer to the initial path check.
    PathKnown(bool),
    /// Polling found a path.
    PathAppeared,
    /// A poll interval elapsed without a path.
    PollTick,
    /// The whole path wait elapsed.
    PathWaitTimeout,
    /// The answer to the hop-count query.
    PathHops(Option<u8>),
    /// The link was created; true if it was already active.
    LinkReady(bool),
    LinkActivated,
    LinkClosed,
    /// The link activation wait elapsed.
    LinkWaitTimeout,
    /// The request packet went out.
    RequestSent,
    /// The transport could not build or send the request.
    SendFailed(String),
    /// A one-shot data payload arrived on the link.
    DataReceived(Vec<u8>),
    /// A resource packet arrived on the link.
    ResourceReceived(ResourcePacket),
    /// The link event stream closed.
    EventsClosed,
    /// No event arrived within the response timeout.
    ResponseTimeout,
    /// The caller cancelled the fetch.
    CancelRequested,
}

/// What the caller must do after a step, in order.
#[derive(Debug)]
pub enum FetchAction {
    /// Publish a new status.
    Status(PageStatus),
    /// Ask the transport to request a path to the node.
    RequestPath,
    /// Ask the transport for the hop count.
    QueryHops,
    /// Resolve the destination and open a link.
    Connect,
    /// Encrypt and send the request payload on the link.
    SendRequest(Vec<u8>),
    /// Encrypt and send a resource packet on the link.
    SendResource(ResourcePacket),
    /// Deliver the single terminal outcome.
    Finish(FetchOutcome),
}

/// The actions end by failing with this message: a `Failed` status, then
/// the `Failed` outcome.
pub open spec fn finishes_failed(r: Seq<FetchAction>, msg: Seq<char>) -> bool {
    &&& r.len() >= 2
    &&& (r[r.len() - 2] matches FetchAction::Status(s) && s matches PageStatus::Failed(m) && m@
        == msg)
    &&& (r[r.len() - 1] matches FetchAction::Finish(o) && o matches FetchOutcome::Failed(m) && m@
        == msg)
}

/// The actions end by completing with this content: a `Complete` status,
/// then the `Complete` outcome carrying the page bytes.
pub open spec fn finishes_complete(r: Seq<FetchAction>, content: Seq<u8>) -> bool {
    &&& r.len() >= 2
    &&& (r[r.len() - 2] matches FetchAction::Status(s) && s is Complete)
    &&& (r[r.len() - 1] matches FetchAction::Finish(o) && o matches FetchOutcome::Complete(b)
        && b@ == content)
}

/// The actions are exactly the cancellation pair.
pub open spec fn cancels(r: Seq<FetchAction>) -> bool {
    &&& r.len() == 2
    &&& (r[0] matches FetchAction::Status(s) && s is Cancelled)
    &&& (r[1] matches FetchAction::Finish(o) && o is Cancelled)
}

/// Whether any action delivers the terminal outcome.
pub open spec fn has_finish(r: Seq<FetchAction>) -> bool {
    exists|i: int| 0 <= i < r.len() && (#[trigger] r[i]) is Finish
}

/// Drives one page request; pure, fed by events.
pub struct FetchMachine {
    pub phase: FetchPhase,
    pub request_bytes: Vec<u8>,
    pub assembler: ResourceAssembler,
    pub current_resource: Option<Vec<u8>>,
}

impl FetchMachine {
    pub open spec fn well_formed(self) -> bool {
        self.assembler.well_formed()
    }

    /// Build the machine for one request: the wire request is encoded once,
    /// from the timestamp bits, the path's hash and the form entries.
    pub fn new(path: &str, form: &Vec<(String, String)>, ts_bits: u64) -> (r: Self)
        requires
            form@.len() < 0x10000,
            forall|i: int|
                0 <= i < form@.len() ==> vstd::utf8::encode_utf8(
                    (#[trigger] form@[i]).0@,
                ).len() < 0x100000000 && vstd::utf8::encode_utf8(form@[i].1@).len() < 0x100000000,
        ensures
            r.well_formed(),
            r.phase is Start,
            form@.len() == 0 ==> r.request_bytes@ == request_encoding(
                ts_bits,
                path_hash_of(path.spec_bytes()),
                None,
            ),
            form@.len() > 0 ==> r.request_bytes@ == request_encoding(
                ts_bits,
                path_hash_of(path.spec_bytes()),
                Some(form_view(form@)),
            ),
    {
        let path_hash = compute_path_hash(path);
        let request_bytes = encode_page_request(ts_bits, &path_hash, form);
        FetchMachine {
            phase: FetchPhase::Start,
            request_bytes,
            assembler: ResourceAssembler::new(),
            current_resource: None,
        }
    }

    /// Feed one event; returns the actions to perform, in order.
    pub fn step(&mut self, event: FetchEvent) -> (r: Vec<FetchAction>)
        requires
            old(self).well_formed(),
        ensures
            final(self).well_formed(),
            final(self).request_bytes@ == old(self).request_bytes@,
            // A finished machine ignores everything.
            old(self).phase is Done ==> *final(self) == *old(self) && r@.len() == 0,
            // The terminal outcome is delivered exactly on the step that finishes.
            has_finish(r@) <==> (!(old(self).phase is Done) && final(self).phase is Done),
            final(self).phase is Done <==> (old(self).phase is Done || has_finish(r@)),
            // Cancellation lands immediately, from every waiting phase.
            !(old(self).phase is Done) && event is CancelRequested ==> final(self).phase is Done
                && cancels(r@),
            // Path handling.
            old(self).phase is Start && event == FetchEvent::PathKnown(true) ==> final(self).phase
                is HopsWait && r@.len() == 1 && r@[0] is QueryHops,
            old(self).phase is Start && event == FetchEvent::PathKnown(false) ==> final(self).phase is PathWait && r@.len() == 3 && (r@[0] matches FetchAction::Status(s) && s
                is RequestingPath) && r@[1] is RequestPath && (r@[2] matches FetchAction::Status(s)
                && s is WaitingForAnnounce),
            old(self).phase is PathWait && event is PathAppeared ==> final(self).phase is HopsWait
                && r@.len() == 1 && r@[0] is QueryHops,
            old(self).phase is PathWait && event is PollTick ==> final(self).phase is PathWait
                && r@.len() == 0,
            old(self).phase is PathWait && event is PathWaitTimeout ==> final(self).phase is Done
                && r@.len() == 2 && finishes_failed(r@, "No path to node - try again later"@),
            // Hop count and connection.
            old(self).phase is HopsWait ==> (event matches FetchEvent::PathHops(Some(h)) ==> (
            final(self).phase is LinkWait && r@.len() == 3 && (r@[0]
                matches FetchAction::Status(s) && (s matches PageStatus::PathFound { hops }
                && hops == h)) && (r@[1] matches FetchAction::Status(s) && s is Connecting)
                && r@[2] is Connect)),
            old(self).phase is HopsWait && event == FetchEvent::PathHops(None) ==> final(self).phase is LinkWait && r@.len() == 2 && (r@[0] matches FetchAction::Status(s) && s
                is Connecting) && r@[1] is Connect,
            // Link activation.
            old(self).phase is LinkWait && (event == FetchEvent::LinkActivated || event
                == FetchEvent::LinkReady(true)) ==> final(self).phase is Sending && r@.len() == 3
                && (r@[0] matches FetchAction::Status(s) && s is LinkEstablished) && (r@[1]
                matches FetchAction::Status(s) && s is SendingRequest) && (r@[2]
                matches FetchAction::SendRequest(b) && b@ == old(self).request_bytes@),
            old(self).phase is LinkWait && event == FetchEvent::LinkReady(false) ==> final(self).phase is LinkWait && r@.len() == 0,
            old(self).phase is LinkWait && event is LinkClosed ==> finishes_failed(
                r@,
                "Link closed"@,
            ) && r@.len() == 2,
            old(self).phase is LinkWait && event is EventsClosed ==> finishes_failed(
                r@,
                "Link closed"@,
            ) && r@.len() == 2,
            old(self).phase is LinkWait && event is LinkWaitTimeout ==> finishes_failed(
                r@,
                "Connection timed out"@,
            ) && r@.len() == 2,
            // Sending the request.
            old(self).phase is Sending && event is RequestSent ==> final(self).phase is Response
                && r@.len() == 1 && (r@[0] matches FetchAction::Status(s) && s
                is AwaitingResponse),
            old(self).phase is Sending ==> (event matches FetchEvent::SendFailed(m) ==> (
            finishes_failed(r@, m@) && r@.len() == 2)),
            // Awaiting the response.
            old(self).phase is Response && event is EventsClosed ==> finishes_failed(
                r@,
                "Link events channel closed"@,
            ) && r@.len() == 2,
            old(self).phase is Response && event is ResponseTimeout ==> finishes_failed(
                r@,
                "Request timed out"@,
            ) && r@.len() == 2,
            old(self).phase is Response ==> (event matches FetchEvent::DataReceived(d) ==> {
                &&& spec_parse_response(d@) is None ==> finishes_failed(
                    r@,
                    "Failed to parse response: unrecognized encoding"@,
                )
                &&& (spec_parse_response(d@) matches Some((ts, h, c)) ==> match c {
                    None => finishes_failed(r@, "No content in response"@),
                    Some(cb) => (valid_utf8(cb) ==> finishes_complete(r@, cb)) && (!valid_utf8(cb)
                        ==> finishes_failed(r@, "Invalid UTF-8: content is not valid text"@)),
                })
            }),
            // Resource packets while awaiting the response.
            old(self).phase is Response ==> (event matches FetchEvent::ResourceReceived(pkt)
                ==> resource_step_post(*old(self), *final(self), pkt, r@)),
            // Ignored events leave the machine alone.
            step_ignores(old(self).phase, event) ==> *final(self) == *old(self) && r@.len() == 0,
    {
        match self.phase {
            FetchPhase::Done => Vec::new(),
            _ => {
                match event {
                    FetchEvent::CancelRequested => {
                        self.phase = FetchPhase::Done;
                        let mut r: Vec<FetchAction> = Vec::new();
                        r.push(FetchAction::Status(PageStatus::Cancelled));
                        r.push(FetchAction::Finish(FetchOutcome::Cancelled));
                        assert(r@[1] is Finish);
                        r
                    },
                    FetchEvent::PathKnown(known) => {
                        if !(matches!(self.phase, FetchPhase::Start)) {
                            return self.ignore();
                        }
                        let mut r: Vec<FetchAction> = Vec::new();
                        if known {
                            self.phase = FetchPhase::HopsWait;
                            r.push(FetchAction::QueryHops);
                        } else {
                            self.phase = FetchPhase::PathWait;
                            r.push(FetchAction::Status(PageStatus::RequestingPath));
                            r.push(FetchAction::RequestPath);
                            r.push(FetchAction::Status(PageStatus::WaitingForAnnounce));
                        }
                        assert(forall|i: int| 0 <= i < r@.len() ==> !((#[trigger] r@[i]) is Finish));
                        r
                    },
                    FetchEvent::PathAppeared => {
                        if !(matches!(self.phase, FetchPhase::PathWait)) {
                            return self.ignore();
                        }
                        self.phase = FetchPhase::HopsWait;
                        let mut r: Vec<FetchAction> = Vec::new();
                        r.push(FetchAction::QueryHops);
                        assert(forall|i: int| 0 <= i < r@.len() ==> !((#[trigger] r@[i]) is Finish));
                        r
                    },
                    FetchEvent::PollTick => {
                        if !(matches!(self.phase, FetchPhase::PathWait)) {
                            return self.ignore();
                        }
                        Vec::new()
                    },
                    FetchEvent::PathWaitTimeout => {
                        if !(matches!(self.phase, FetchPhase::PathWait)) {
                            return self.ignore();
                        }
                        self.fail("No path to node - try again later")
                    },
                    FetchEvent::PathHops(hops) => {
                        if !(matches!(self.phase, FetchPhase::HopsWait)) {
                            return self.ignore();
                        }
                        self.phase = FetchPhase::LinkWait;
                        let mut r: Vec<FetchAction> = Vec::new();
                        if let Some(h) = hops {
                            r.push(FetchAction::Status(PageStatus::PathFound { hops: h }));
                        }
                        r.push(FetchAction::Status(PageStatus::Connecting));
                        r.push(FetchAction::Connect);
                        assert(forall|i: int| 0 <= i < r@.len() ==> !((#[trigger] r@[i]) is Finish));
                        r
                    },
                    FetchEvent::LinkReady(active) => {
                        if !(matches!(self.phase, FetchPhase::LinkWait)) {
                            return self.ignore();
                        }
                        if active {
                            self.send_request()
                        } else {
                            Vec::new()
                        }
                    },
                    FetchEvent::LinkActivated => {
                        if !(matches!(self.phase, FetchPhase::LinkWait)) {
                            return self.ignore();
                        }
                        self.send_request()
                    },
                    FetchEvent::LinkClosed => {
                        match self.phase {
                            FetchPhase::LinkWait => self.fail("Link closed"),
                            FetchPhase::Response => self.fail("Link closed"),
                            _ => self.ignore(),
                        }
                    },
                    FetchEvent::LinkWaitTimeout => {
                        if !(matches!(self.phase, FetchPhase::LinkWait)) {
                            return self.ignore();
                        }
                        self.fail("Connection timed out")
                    },
                    FetchEvent::RequestSent => {
                        if !(matches!(self.phase, FetchPhase::Sending)) {
                            return self.ignore();
                        }
                        self.phase = FetchPhase::Response;
                        let mut r: Vec<FetchAction> = Vec::new();
                        r.push(FetchAction::Status(PageStatus::AwaitingResponse));
                        assert(forall|i: int| 0 <= i < r@.len() ==> !((#[trigger] r@[i]) is Finish));
                        r
                    },
                    FetchEvent::SendFailed(msg) => {
                        if !(matches!(self.phase, FetchPhase::Sending)) {
                            return self.ignore();
                        }
                        self.phase = FetchPhase::Done;
                        let mut r: Vec<FetchAction> = Vec::new();
                        let outcome_msg = clone_string(&msg);
                        r.push(FetchAction::Status(PageStatus::Failed(msg)));
                        r.push(FetchAction::Finish(FetchOutcome::Failed(outcome_msg)));
                        assert(r@[1] is Finish);
                        r
                    },
                    FetchEvent::EventsClosed => {
                        match self.phase {
                            FetchPhase::LinkWait => self.fail("Link closed"),
                            FetchPhase::Response => self.fail("Link events channel closed"),
                            _ => self.ignore(),
                        }
                    },
                    FetchEvent::ResponseTimeout => {
                        if !(matches!(self.phase, FetchPhase::Response)) {
                            return self.ignore();
                        }
                        self.fail("Request timed out")
                    },
                    FetchEvent::DataReceived(d) => {
                        if !(matches!(self.phase, FetchPhase::Response)) {
                            return self.ignore();
                        }
                        self.phase = FetchPhase::Done;
                        match parse_page_response(d.as_slice()) {
                            Ok(content) => {
                                let mut r: Vec<FetchAction> = Vec::new();
                                r.push(FetchAction::Status(PageStatus::Complete));
                                r.push(FetchAction::Finish(FetchOutcome::Complete(content)));
                                assert(r@[1] is Finish);
                                r
                            },
                            Err(e) => {
                                let msg = e.message();
                                let outcome_msg = clone_string(&msg);
                                let mut r: Vec<FetchAction> = Vec::new();
                                r.push(FetchAction::Status(PageStatus::Failed(msg)));
                                r.push(FetchAction::Finish(FetchOutcome::Failed(outcome_msg)));
                                assert(r@[1] is Finish);
                                r
                            },
                        }
                    },
                    FetchEvent::ResourceReceived(pkt) => {
                        if !(matches!(self.phase, FetchPhase::Response)) {
                            return self.ignore();
                        }
                        self.resource_step(pkt)
                    },
                }
            },
        }
    }

    /// Leave the machine untouched.
    fn ignore(&mut self) -> (r: Vec<FetchAction>)
        ensures
            *final(self) == *old(self),
            r@.len() == 0,
    {
        Vec::new()
    }

    /// Fail the fetch with this message.
    fn fail(&mut self, msg: &str) -> (r: Vec<FetchAction>)
        ensures
            final(self).phase is Done,
            final(self).request_bytes@ == old(self).request_bytes@,
            final(self).assembler == old(self).assembler,
            r@.len() == 2,
            finishes_failed(r@, msg@),
            has_finish(r@),
    {
        self.phase = FetchPhase::Done;
        let status_msg = String::from_str(msg);
        let outcome_msg = String::from_str(msg);
        let mut r: Vec<FetchAction> = Vec::new();
        r.push(FetchAction::Status(PageStatus::Failed(status_msg)));
        r.push(FetchAction::Finish(FetchOutcome::Failed(outcome_msg)));
        assert(r@[1] is Finish);
        r
    }

    /// The link is up: report it and hand out the request payload.
    fn send_request(&mut self) -> (r: Vec<FetchAction>)
        ensures
            final(self).phase is Sending,
            final(self).request_bytes@ == old(self).request_bytes@,
            final(self).assembler == old(self).assembler,
            r@.len() == 3,
            (r@[0] matches FetchAction::Status(s) && s is LinkEstablished),
            (r@[1] matches FetchAction::Status(s) && s is SendingRequest),
            (r@[2] matches FetchAction::SendRequest(b) && b@ == old(self).request_bytes@),
            !has_finish(r@),
    {
        self.phase = FetchPhase::Sending;
        let payload = copy_range(self.request_bytes.as_slice(), 0, self.request_bytes.len());
        assert(payload@ =~= self.request_bytes@);
        let mut r: Vec<FetchAction> = Vec::new();
        r.push(FetchAction::Status(PageStatus::LinkEstablished));
        r.push(FetchAction::Status(PageStatus::SendingRequest));
        r.push(FetchAction::SendRequest(payload));
        assert(forall|i: int| 0 <= i < r@.len() ==> !((#[trigger] r@[i]) is Finish));
        r
    }
}



/// Everything one resource packet does to the machine, and what comes out:
/// the full contract of taking a resource packet while awaiting the
/// response.
pub open spec fn resource_step_post(
    before: FetchMachine,
    after: FetchMachine,
    pkt: ResourcePacket,
    r: Seq<FetchAction>,
) -> bool {
    &&& after.request_bytes@ == before.request_bytes@
    &&& (has_finish(r) <==> after.phase is Done)
    &&& (!(after.phase is Done) ==> after.phase is Response)
    &&& (pkt.context is Announce && announcement_accepted(pkt.data@) ==> {
        let h = spec_parse_announcement(pkt.data@)->Some_0.0;
        &&& after.phase is Response
        &&& (after.current_resource matches Some(c) && c@ == h)
        &&& after.assembler.spec_contains(h)
        &&& r.len() >= 1 && retrieving_status(r[0], after, h)
        &&& (!after.assembler.spec_get(h).complete() ==> r.len() == 2 && (r[1]
            matches FetchAction::SendResource(p) && p.context is PartRequest && p.data@ == h
            + missing_bytes(
            after.assembler.spec_get(h).received@,
            after.assembler.spec_get(h).received@.len() as int,
        )))
        &&& (after.assembler.spec_get(h).complete() ==> r.len() == 1)
    })
    &&& (pkt.context is Announce && !announcement_accepted(pkt.data@) ==> after.assembler
        == before.assembler && after.phase is Response && retrieving_refresh(after, r))
    &&& (pkt.context is Part && part_dropped(before.assembler, pkt.data@) ==> after.assembler
        == before.assembler && after.phase is Response && retrieving_refresh(after, r))
    &&& (pkt.context is Part && !part_dropped(before.assembler, pkt.data@) ==> {
        let (h, idx, payload) = spec_parse_part(pkt.data@)->Some_0;
        &&& crate::assembler::part_applied(
            before.assembler.spec_get(h),
            after.assembler.spec_get(h),
            idx as int,
            payload,
        )
        &&& (!after.assembler.spec_get(h).complete() ==> after.phase is Response
            && retrieving_refresh(after, r))
        &&& (after.assembler.spec_get(h).complete() ==> {
            let bytes = parts_view(after.assembler.spec_get(h).parts@).flatten();
            &&& after.phase is Done
            &&& r.len() >= 1 && retrieving_status(r[0], after, h)
            &&& (sha256_of(bytes) != h ==> finishes_failed(r, "Failed to assemble resource"@))
            &&& (sha256_of(bytes) == h ==> {
                &&& r.len() >= 2 && (r[1] matches FetchAction::SendResource(p) && p.context
                    is Proof && p.data@ == h)
                &&& (spec_parse_resource(bytes) is None ==> finishes_failed(
                    r,
                    "Failed to parse response: unrecognized encoding"@,
                ))
                &&& (spec_parse_resource(bytes) matches Some((h2, c)) ==> (valid_utf8(c)
                    ==> finishes_complete(r, c)) && (!valid_utf8(c) ==> finishes_failed(
                    r,
                    "Invalid UTF-8: content is not valid text"@,
                )))
            })
        })
    })
    &&& (pkt.context !is Announce && pkt.context !is Part ==> after.assembler == before.assembler
        && after.phase is Response && retrieving_refresh(after, r))
}

/// The one `Retrieving` status action that mirrors a transfer's counters.
pub open spec fn retrieving_status(a: FetchAction, m: FetchMachine, h: Seq<u8>) -> bool {
    a matches FetchAction::Status(s) && (s matches PageStatus::Retrieving {
        parts_received,
        total_parts,
    } && parts_received == m.assembler.spec_get(h).received_count && total_parts
        == m.assembler.spec_get(h).total_parts)
}

/// The refresh answer for packets that change nothing worth acting on: the
/// current transfer's counters if one is tracked, else nothing.
pub open spec fn retrieving_refresh(m: FetchMachine, r: Seq<FetchAction>) -> bool {
    match m.current_resource {
        Some(c) => if m.assembler.spec_contains(c@) {
            r.len() == 1 && retrieving_status(r[0], m, c@)
        } else {
            r.len() == 0
        },
        None => r.len() == 0,
    }
}

impl FetchMachine {
    /// Take in one decrypted resource packet while awaiting the response:
    /// announcements start or refresh a transfer and ask for missing parts,
    /// parts fill it, and the final part triggers assembly, the proof
    /// packet, and the terminal outcome.
    pub fn on_resource(&mut self, pkt: ResourcePacket) -> (r: Vec<FetchAction>)
        requires
            old(self).well_formed(),
            old(self).phase is Response,
        ensures
            final(self).well_formed(),
            resource_step_post(*old(self), *final(self), pkt, r@),
    {
        self.resource_step(pkt)
    }

    /// The body of `on_resource`, shared so `step` forwards its contract.
    fn resource_step(&mut self, pkt: ResourcePacket) -> (r: Vec<FetchAction>)
        requires
            old(self).well_formed(),
            old(self).phase is Response,
        ensures
            final(self).well_formed(),
            final(self).request_bytes@ == old(self).request_bytes@,
            has_finish(r@) <==> final(self).phase is Done,
            !(final(self).phase is Done) ==> final(self).phase is Response,
            // An accepted announcement starts (or re-acknowledges) the
            // transfer and asks for whatever is missing.
            pkt.context is Announce && announcement_accepted(pkt.data@) ==> {
                let h = spec_parse_announcement(pkt.data@)->Some_0.0;
                &&& final(self).phase is Response
                &&& (final(self).current_resource matches Some(c) && c@ == h)
                &&& final(self).assembler.spec_contains(h)
                &&& r@.len() >= 1 && retrieving_status(r@[0], *final(self), h)
                &&& (!final(self).assembler.spec_get(h).complete() ==> r@.len() == 2 && (r@[1]
                    matches FetchAction::SendResource(p) && p.context is PartRequest && p.data@
                    == h + missing_bytes(
                    final(self).assembler.spec_get(h).received@,
                    final(self).assembler.spec_get(h).received@.len() as int,
                )))
                &&& (final(self).assembler.spec_get(h).complete() ==> r@.len() == 1)
            },
            pkt.context is Announce && !announcement_accepted(pkt.data@) ==> final(self).assembler
                == old(self).assembler && final(self).phase is Response && retrieving_refresh(
                *final(self),
                r@,
            ),
            // A dropped part only refreshes the caller's view.
            pkt.context is Part && part_dropped(old(self).assembler, pkt.data@) ==> final(self).assembler == old(self).assembler && final(self).phase is Response
                && retrieving_refresh(*final(self), r@),
            // An accepted part fills its slot; the last one assembles.
            pkt.context is Part && !part_dropped(old(self).assembler, pkt.data@) ==> {
                let (h, idx, payload) = spec_parse_part(pkt.data@)->Some_0;
                &&& crate::assembler::part_applied(
                    old(self).assembler.spec_get(h),
                    final(self).assembler.spec_get(h),
                    idx as int,
                    payload,
                )
                &&& (!final(self).assembler.spec_get(h).complete() ==> final(self).phase
                    is Response && retrieving_refresh(*final(self), r@))
                &&& (final(self).assembler.spec_get(h).complete() ==> {
                    let bytes = parts_view(final(self).assembler.spec_get(h).parts@).flatten();
                    &&& final(self).phase is Done
                    &&& r@.len() >= 1 && retrieving_status(r@[0], *final(self), h)
                    &&& (sha256_of(bytes) != h ==> finishes_failed(
                        r@,
                        "Failed to assemble resource"@,
                    ))
                    &&& (sha256_of(bytes) == h ==> {
                        &&& r@.len() >= 2 && (r@[1] matches FetchAction::SendResource(p)
                            && p.context is Proof && p.data@ == h)
                        &&& (spec_parse_resource(bytes) is None ==> finishes_failed(
                            r@,
                            "Failed to parse response: unrecognized encoding"@,
                        ))
                        &&& (spec_parse_resource(bytes) matches Some((h2, c)) ==> (valid_utf8(c)
                            ==> finishes_complete(r@, c)) && (!valid_utf8(c) ==> finishes_failed(
                            r@,
                            "Invalid UTF-8: content is not valid text"@,
                        )))
                    })
                })
            },
            // Packets with any other role only refresh the caller's view.
            pkt.context !is Announce && pkt.context !is Part ==> final(self).assembler == old(self).assembler && final(self).phase is Response && retrieving_refresh(*final(self), r@),
    {
        let result = self.assembler.handle_packet(&pkt);
        match result {
            HandleResult::RequestParts(h) => {
                let ghost hs = h@;
                let mut r: Vec<FetchAction> = Vec::new();
                match self.assembler.resource_info(&h) {
                    Some((rc, tp)) => {
                        r.push(
                            FetchAction::Status(
                                PageStatus::Retrieving { parts_received: rc, total_parts: tp },
                            ),
                        );
                    },
                    None => {
                        proof {
                            assert(false);
                        }
                    },
                };
                match self.assembler.create_request_packet(&h) {
                    Some(v) => {
                        r.push(
                            FetchAction::SendResource(
                                ResourcePacket { context: ResourceContext::PartRequest, data: v },
                            ),
                        );
                    },
                    None => {},
                };
                self.current_resource = Some(h);
                assert(forall|i: int| 0 <= i < r@.len() ==> !((#[trigger] r@[i]) is Finish));
                r
            },
            HandleResult::Assemble(h) => {
                let mut r: Vec<FetchAction> = Vec::new();
                match self.assembler.resource_info(&h) {
                    Some((rc, tp)) => {
                        r.push(
                            FetchAction::Status(
                                PageStatus::Retrieving { parts_received: rc, total_parts: tp },
                            ),
                        );
                    },
                    None => {
                        proof {
                            assert(false);
                        }
                    },
                };
                self.phase = FetchPhase::Done;
                match self.assembler.assemble(&h) {
                    Some((bytes, proof_payload)) => {
                        r.push(
                            FetchAction::SendResource(
                                ResourcePacket {
                                    context: ResourceContext::Proof,
                                    data: proof_payload,
                                },
                            ),
                        );
                        match parse_resource_content(bytes.as_slice()) {
                            Ok(content) => {
                                r.push(FetchAction::Status(PageStatus::Complete));
                                r.push(FetchAction::Finish(FetchOutcome::Complete(content)));
                                assert(r@[r@.len() - 1] is Finish);
                                r
                            },
                            Err(e) => {
                                let msg = e.message();
                                let outcome_msg = clone_string(&msg);
                                r.push(FetchAction::Status(PageStatus::Failed(msg)));
                                r.push(FetchAction::Finish(FetchOutcome::Failed(outcome_msg)));
                                assert(r@[r@.len() - 1] is Finish);
                                r
                            },
                        }
                    },
                    None => {
                        let msg = String::from_str("Failed to assemble resource");
                        let outcome_msg = String::from_str("Failed to assemble resource");
                        r.push(FetchAction::Status(PageStatus::Failed(msg)));
                        r.push(FetchAction::Finish(FetchOutcome::Failed(outcome_msg)));
                        assert(r@[r@.len() - 1] is Finish);
                        r
                    },
                }
            },
            HandleResult::NoAction => {
                let r = self.refresh_retrieving();
                r
            },
        }
    }

    /// The refresh answer: the current transfer's counters, if one is known.
    fn refresh_retrieving(&self) -> (r: Vec<FetchAction>)
        requires
            self.well_formed(),
        ensures
            retrieving_refresh(*self, r@),
            !has_finish(r@),
    {
        match &self.current_resource {
            Some(c) => {
                match self.assembler.resource_info(c) {
                    Some((rc, tp)) => {
                        let mut r: Vec<FetchAction> = Vec::new();
                        r.push(
                            FetchAction::Status(
                                PageStatus::Retrieving { parts_received: rc, total_parts: tp },
                            ),
                        );
                        assert(forall|i: int|
                            0 <= i < r@.len() ==> !((#[trigger] r@[i]) is Finish));
                        r
                    },
                    None => Vec::new(),
                }
            },
            None => Vec::new(),
        }
    }
}

/// Which (phase, event) pairs are out of protocol and ignored.
pub open spec fn step_ignores(phase: FetchPhase, event: FetchEvent) -> bool {
    &&& !(phase is Done)
    &&& !(event is CancelRequested)
    &&& match event {
        FetchEvent::PathKnown(_) => !(phase is Start),
        FetchEvent::PathAppeared => !(phase is PathWait),
        FetchEvent::PollTick => !(phase is PathWait),
        FetchEvent::PathWaitTimeout => !(phase is PathWait),
        FetchEvent::PathHops(_) => !(phase is HopsWait),
        FetchEvent::LinkReady(_) => !(phase is LinkWait),
        FetchEvent::LinkActivated => !(phase is LinkWait),
        FetchEvent::LinkClosed => !(phase is LinkWait) && !(phase is Response),
        FetchEvent::LinkWaitTimeout => !(phase is LinkWait),
        FetchEvent::RequestSent => !(phase is Sending),
        FetchEvent::SendFailed(_) => !(phase is Sending),
        FetchEvent::DataReceived(_) => !(phase is Response),
        FetchEvent::ResourceReceived(_) => !(phase is Response),
        FetchEvent::EventsClosed => !(phase is LinkWait) && !(phase is Response),
        FetchEvent::ResponseTimeout => !(phase is Response),
        FetchEvent::CancelRequested => false,
    }
}

/// Clone a string by its text.
pub fn clone_string(s: &String) -> (r: String)
    ensures
        r@ == s@,
{
    String::from_str(s.as_str())
}

} // verus!
