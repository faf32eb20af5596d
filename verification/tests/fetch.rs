use nomad::assembler::{ResourceContext, ResourcePacket};
use nomad::fetch::{FetchAction, FetchEvent, FetchMachine, FetchOutcome, PageStatus};
use nomad::hashing::compute_path_hash;
use serde_bytes::ByteBuf;
use sha2::Digest;

fn machine(path: &str) -> FetchMachine {
    let form: Vec<(String, String)> = Vec::new();
    FetchMachine::new(path, &form, 1700000000.0f64.to_bits())
}

fn drive(
    m: &mut FetchMachine,
    events: Vec<FetchEvent>,
) -> (Vec<PageStatus>, Option<FetchOutcome>, Vec<Vec<u8>>) {
    let mut statuses = Vec::new();
    let mut outcome = None;
    let mut sent = Vec::new();
    for ev in events {
        for action in m.step(ev) {
            match action {
                FetchAction::Status(s) => statuses.push(s),
                FetchAction::Finish(o) => {
                    assert!(outcome.is_none(), "the outcome must fire exactly once");
                    outcome = Some(o);
                }
                FetchAction::SendRequest(b) => sent.push(b),
                FetchAction::SendResource(p) => sent.push(p.data),
                _ => {}
            }
        }
    }
    (statuses, outcome, sent)
}

fn announcement(hash: &[u8], total_parts: u32, total_size: u64) -> ResourcePacket {
    let mut d = hash.to_vec();
    d.extend_from_slice(&total_parts.to_be_bytes());
    d.extend_from_slice(&total_size.to_be_bytes());
    ResourcePacket { context: ResourceContext::Announce, data: d }
}

fn part(hash: &[u8], index: u32, payload: &[u8]) -> ResourcePacket {
    let mut d = hash.to_vec();
    d.extend_from_slice(&index.to_be_bytes());
    d.extend_from_slice(payload);
    ResourcePacket { context: ResourceContext::Part, data: d }
}

#[test]
fn cached_path_one_shot_reply() {
    // A cached path, three hops, an already-active link, and a one-shot
    // reply carrying b"Hello".
    let mut m = machine("/index.mu");
    let request_hash = compute_path_hash("/index.mu");
    let reply: (f64, ByteBuf, Option<ByteBuf>) = (
        1700000000.0,
        ByteBuf::from(request_hash),
        Some(ByteBuf::from(b"Hello".to_vec())),
    );
    let reply_bytes = rmp_serde::to_vec(&reply).unwrap();

    let (statuses, outcome, sent) = drive(
        &mut m,
        vec![
            FetchEvent::PathKnown(true),
            FetchEvent::PathHops(Some(3)),
            FetchEvent::LinkReady(true),
            FetchEvent::RequestSent,
            FetchEvent::DataReceived(reply_bytes),
        ],
    );

    assert_eq!(
        statuses,
        vec![
            PageStatus::PathFound { hops: 3 },
            PageStatus::Connecting,
            PageStatus::LinkEstablished,
            PageStatus::SendingRequest,
            PageStatus::AwaitingResponse,
            PageStatus::Complete,
        ]
    );
    assert_eq!(outcome, Some(FetchOutcome::Complete(b"Hello".to_vec())));
    assert_eq!(sent.len(), 1, "exactly the request packet goes out");
}

#[test]
fn requested_path_resource_delivery_of_three_parts() {
    // No cached path; it appears while polling. The page body arrives as a
    // resource of three parts, delivered out of order.
    let mut m = machine("/index.mu");

    let body_tuple: (ByteBuf, ByteBuf) = (
        ByteBuf::from(sha2::Sha256::digest(b"page-body").to_vec()),
        ByteBuf::from(b"page-body".to_vec()),
    );
    let blob = rmp_serde::to_vec(&body_tuple).unwrap();
    let hash = sha2::Sha256::digest(&blob).to_vec();
    let third = blob.len() / 3;
    let chunks: Vec<&[u8]> = vec![&blob[..third], &blob[third..2 * third], &blob[2 * third..]];

    let (statuses, outcome, _sent) = drive(
        &mut m,
        vec![
            FetchEvent::PathKnown(false),
            FetchEvent::PollTick,
            FetchEvent::PathAppeared,
            FetchEvent::PathHops(Some(1)),
            FetchEvent::LinkReady(false),
            FetchEvent::LinkActivated,
            FetchEvent::RequestSent,
            FetchEvent::ResourceReceived(announcement(&hash, 3, blob.len() as u64)),
            FetchEvent::ResourceReceived(part(&hash, 0, chunks[0])),
            FetchEvent::ResourceReceived(part(&hash, 2, chunks[2])),
            FetchEvent::ResourceReceived(part(&hash, 1, chunks[1])),
        ],
    );

    assert_eq!(
        statuses,
        vec![
            PageStatus::RequestingPath,
            PageStatus::WaitingForAnnounce,
            PageStatus::PathFound { hops: 1 },
            PageStatus::Connecting,
            PageStatus::LinkEstablished,
            PageStatus::SendingRequest,
            PageStatus::AwaitingResponse,
            PageStatus::Retrieving { parts_received: 0, total_parts: 3 },
            PageStatus::Retrieving { parts_received: 1, total_parts: 3 },
            PageStatus::Retrieving { parts_received: 2, total_parts: 3 },
            PageStatus::Retrieving { parts_received: 3, total_parts: 3 },
            PageStatus::Complete,
        ]
    );
    assert_eq!(outcome, Some(FetchOutcome::Complete(b"page-body".to_vec())));
}

#[test]
fn cancellation_while_waiting_for_announce() {
    // The path never appears; the caller cancels while polling.
    let mut m = machine("/index.mu");
    let (statuses, outcome, _) = drive(
        &mut m,
        vec![
            FetchEvent::PathKnown(false),
            FetchEvent::PollTick,
            FetchEvent::CancelRequested,
        ],
    );
    assert_eq!(
        statuses,
        vec![
            PageStatus::RequestingPath,
            PageStatus::WaitingForAnnounce,
            PageStatus::Cancelled,
        ]
    );
    assert_eq!(outcome, Some(FetchOutcome::Cancelled));
}

#[test]
fn cancellation_before_link_activation() {
    let mut m = machine("/index.mu");
    let (_, outcome, _) = drive(
        &mut m,
        vec![
            FetchEvent::PathKnown(true),
            FetchEvent::PathHops(None),
            FetchEvent::LinkReady(false),
            FetchEvent::CancelRequested,
        ],
    );
    assert_eq!(outcome, Some(FetchOutcome::Cancelled));
}

#[test]
fn cancellation_during_retrieving() {
    let mut m = machine("/index.mu");
    let hash = sha2::Sha256::digest(b"whatever").to_vec();
    let (_, outcome, _) = drive(
        &mut m,
        vec![
            FetchEvent::PathKnown(true),
            FetchEvent::PathHops(Some(2)),
            FetchEvent::LinkActivated,
            FetchEvent::RequestSent,
            FetchEvent::ResourceReceived(announcement(&hash, 3, 30)),
            FetchEvent::CancelRequested,
        ],
    );
    assert_eq!(outcome, Some(FetchOutcome::Cancelled));
}

#[test]
fn link_closed_after_activation() {
    // The responder closes the link without answering.
    let mut m = machine("/index.mu");
    let (statuses, outcome, _) = drive(
        &mut m,
        vec![
            FetchEvent::PathKnown(true),
            FetchEvent::PathHops(Some(1)),
            FetchEvent::LinkActivated,
            FetchEvent::RequestSent,
            FetchEvent::LinkClosed,
        ],
    );
    assert_eq!(outcome, Some(FetchOutcome::Failed("Link closed".to_string())));
    assert_eq!(statuses.last(), Some(&PageStatus::Failed("Link closed".to_string())));
}

#[test]
fn resource_hash_mismatch_fails_assembly() {
    // Three parts arrive but the assembled bytes do not hash to the
    // announced content hash: the bytes are never handed out.
    let mut m = machine("/index.mu");
    let wrong_hash = vec![0u8; 32];
    let (statuses, outcome, sent) = drive(
        &mut m,
        vec![
            FetchEvent::PathKnown(true),
            FetchEvent::PathHops(Some(1)),
            FetchEvent::LinkActivated,
            FetchEvent::RequestSent,
            FetchEvent::ResourceReceived(announcement(&wrong_hash, 3, 9)),
            FetchEvent::ResourceReceived(part(&wrong_hash, 0, b"aaa")),
            FetchEvent::ResourceReceived(part(&wrong_hash, 1, b"bbb")),
            FetchEvent::ResourceReceived(part(&wrong_hash, 2, b"ccc")),
        ],
    );
    assert_eq!(outcome, Some(FetchOutcome::Failed("Failed to assemble resource".to_string())));
    assert_eq!(
        statuses.last(),
        Some(&PageStatus::Failed("Failed to assemble resource".to_string()))
    );
    // The request packet and the one part request went out; no proof packet.
    assert_eq!(sent.len(), 2);
}

#[test]
fn timeouts_and_closed_channels_fail_with_their_messages() {
    let mut m = machine("/p");
    let (_, outcome, _) = drive(&mut m, vec![FetchEvent::PathKnown(false), FetchEvent::PathWaitTimeout]);
    assert_eq!(outcome, Some(FetchOutcome::Failed("No path to node - try again later".to_string())));

    let mut m = machine("/p");
    let (_, outcome, _) = drive(
        &mut m,
        vec![FetchEvent::PathKnown(true), FetchEvent::PathHops(None), FetchEvent::LinkWaitTimeout],
    );
    assert_eq!(outcome, Some(FetchOutcome::Failed("Connection timed out".to_string())));

    let mut m = machine("/p");
    let (_, outcome, _) = drive(
        &mut m,
        vec![
            FetchEvent::PathKnown(true),
            FetchEvent::PathHops(None),
            FetchEvent::LinkActivated,
            FetchEvent::RequestSent,
            FetchEvent::ResponseTimeout,
        ],
    );
    assert_eq!(outcome, Some(FetchOutcome::Failed("Request timed out".to_string())));

    let mut m = machine("/p");
    let (_, outcome, _) = drive(
        &mut m,
        vec![
            FetchEvent::PathKnown(true),
            FetchEvent::PathHops(None),
            FetchEvent::LinkActivated,
            FetchEvent::RequestSent,
            FetchEvent::EventsClosed,
        ],
    );
    assert_eq!(outcome, Some(FetchOutcome::Failed("Link events channel closed".to_string())));
}

#[test]
fn nil_content_response_fails_never_completes() {
    let mut m = machine("/index.mu");
    let reply: (f64, ByteBuf, Option<ByteBuf>) =
        (1700000000.0, ByteBuf::from(vec![1u8; 16]), None);
    let reply_bytes = rmp_serde::to_vec(&reply).unwrap();
    let (statuses, outcome, _) = drive(
        &mut m,
        vec![
            FetchEvent::PathKnown(true),
            FetchEvent::PathHops(None),
            FetchEvent::LinkActivated,
            FetchEvent::RequestSent,
            FetchEvent::DataReceived(reply_bytes),
        ],
    );
    assert_eq!(outcome, Some(FetchOutcome::Failed("No content in response".to_string())));
    assert!(!statuses.contains(&PageStatus::Complete));
}

#[test]
fn terminal_machine_ignores_further_events() {
    let mut m = machine("/p");
    let (_, outcome, _) = drive(&mut m, vec![FetchEvent::CancelRequested]);
    assert_eq!(outcome, Some(FetchOutcome::Cancelled));
    // Nothing more may come out, in particular no second outcome.
    let (statuses, outcome, sent) = drive(
        &mut m,
        vec![
            FetchEvent::PathKnown(true),
            FetchEvent::LinkClosed,
            FetchEvent::CancelRequested,
            FetchEvent::ResponseTimeout,
        ],
    );
    assert!(statuses.is_empty());
    assert!(outcome.is_none());
    assert!(sent.is_empty());
}

#[test]
fn request_packet_carries_the_encoded_request() {
    let mut m = machine("/index.mu");
    let (_, _, sent) = drive(
        &mut m,
        vec![FetchEvent::PathKnown(true), FetchEvent::PathHops(Some(1)), FetchEvent::LinkActivated],
    );
    let reference: (f64, ByteBuf, Option<()>) = (
        1700000000.0,
        ByteBuf::from(compute_path_hash("/index.mu")),
        None,
    );
    assert_eq!(sent, vec![rmp_serde::to_vec(&reference).unwrap()]);
}
