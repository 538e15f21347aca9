//! Control sessions: opening, frames, requests, subscriptions, streams, pairing.

use arcrelay_protocol::access::{CommandFailure, CoreErrorKind, Denial};
use arcrelay_protocol::blob_store::BlobStore;
use arcrelay_protocol::blob_stream::{
    blob_chunks, open_blob_stream, open_clipboard_upload, BlobStreamOpen,
    ClipboardBlobUploadChunk, ClipboardBlobUploadOpen,
};
use arcrelay_protocol::clipboard_upload::ClipboardUploadStore;
use arcrelay_protocol::command_cache::{CommandCache, CommandResponse};
use arcrelay_protocol::commands::Command;
use arcrelay_protocol::domain;
use arcrelay_protocol::events::{
    event_frame, fit_event, notification_question, Event, EventData, EventStep, StateUpdate,
};
use arcrelay_protocol::features::{
    feature, protocol_limits, Feature, RemoteFileConstraints, SelectedFeatures, WireLimits,
};
use arcrelay_protocol::host::{AutomationInfo, HostNotificationInfo, OutputLine, QuickActionInfo};
use arcrelay_protocol::input_session::InputLease;
use arcrelay_protocol::input_stream::{InputPermission, InputSessionRequest};
use arcrelay_protocol::pairing::{
    approve, check_control_stream, check_pairing_stream, decode_pairing_constraints,
    default_decision, encode_pairing_constraints, needs_approval, pairing_response,
    read_pairing_request, validate_grant_constraints, PairingApproval, WireGrant,
    WireGrantConstraints, WireGrantDirection, CONTROL_TYPE_URL, PAIRING_TYPE_URL,
};
use arcrelay_protocol::peer::{Grant, GrantConstraints, GrantDirection, PeerCapability};
use arcrelay_protocol::proto;
use arcrelay_protocol::queries::{ClipboardRequest, Query, WindowSample, WindowsRequest};
use arcrelay_protocol::query_handler::{
    answer_query, build_sync_page, finish_query, plan_query, HostQuestion, HostReply,
    SnapshotData,
};
use arcrelay_protocol::requests::{
    answer_with, authorize_request, can_read_blobs, command_outcome, handle_request, Request,
    RequestBody, RequestStep,
};
use arcrelay_protocol::session::{
    answer_ended, auxiliary_stream, client_silent, close_of, is_command, open_input_stream,
    open_session, open_session_with, request_timeout_ms, AuxiliaryStream, ClientFrame,
    ControlHello, FrameAction, OutstandingRequests, RequestEnd, SessionEnd,
};
use arcrelay_protocol::snapshots::{
    build_actions, build_automations, build_clipboard_snapshot, build_media_snapshot,
    build_notification_info, build_notifications, build_process_snapshot, build_space_list,
    build_system_snapshot, build_window_list, build_window_list_with_thumbnails,
};
use arcrelay_protocol::status::{ok_status, ErrorCode};
use arcrelay_protocol::subscriptions::{
    nonzero_draw, random_nonzero_u64, refuse_subscription, ActionEvent, ActionGap, EventGap,
    LatestStateQueue, LostEvent, SubscriptionTopic, Subscriptions,
};
use sha2::{Digest, Sha256};

const NOW: i64 = 1_700_000_000_000;

fn wire_limits() -> WireLimits {
    WireLimits {
        max_control_frame_bytes: 1 << 20,
        max_reliable_input_frame_bytes: 1 << 16,
        max_datagram_bytes: 1200,
        max_blob_chunk_bytes: 1 << 16,
        max_remote_file_message_bytes: 1 << 20,
        max_remote_file_content_bytes: 1 << 40,
        max_print_chunk_bytes: 1 << 16,
        max_print_document_bytes: 1 << 30,
    }
}

fn features(list: &[Feature]) -> SelectedFeatures {
    let mut selected = SelectedFeatures::new();
    for feature in list {
        selected.insert(*feature, 1);
    }
    selected
}

fn grant(capability: PeerCapability, direction: GrantDirection) -> Grant {
    Grant {
        capability,
        direction,
        constraints: GrantConstraints::Unconstrained,
        granted_at_ms: 3,
    }
}

fn hello() -> Option<ClientFrame> {
    Some(ClientFrame::Hello(ControlHello {
        features: vec![feature(Feature::Media), feature(Feature::System)],
        receive_limits: Some(protocol_limits(&wire_limits())),
    }))
}

#[test]
fn a_session_has_what_both_sides_offer_and_was_granted() {
    let server = [feature(Feature::Media), feature(Feature::Windows)];
    let grants = vec![
        grant(PeerCapability::MediaRead, GrantDirection::Inbound),
        grant(PeerCapability::WindowRead, GrantDirection::Outbound),
    ];
    let opened = open_session_with(hello(), &server, &grants, &wire_limits(), 6, 77).unwrap();
    assert!(opened.features.contains(Feature::Media));
    assert!(!opened.features.contains(Feature::System));
    assert!(!opened.features.contains(Feature::Windows));
    assert_eq!(opened.capabilities, vec![PeerCapability::MediaRead]);
    assert_eq!(opened.welcome.authorization_epoch, 6);
    assert_eq!(opened.welcome.server_time_ms, 77);
    assert_eq!(opened.welcome.limits, protocol_limits(&wire_limits()));
    let drawn = open_session(hello(), &server, &grants, &wire_limits()).unwrap();
    assert_ne!(drawn.welcome.authorization_epoch, 0);
    assert!(drawn.welcome.server_time_ms > 1_600_000_000_000);
}

#[test]
fn a_session_begins_with_a_hello() {
    for frame in [None, Some(ClientFrame::TransferAccept)] {
        let error = open_session(frame, &[], &vec![], &wire_limits()).unwrap_err();
        assert_eq!(error.message(), "first control frame must be hello");
    }
    let without_limits = Some(ClientFrame::Hello(ControlHello {
        features: vec![],
        receive_limits: None,
    }));
    let error = open_session(without_limits, &[], &vec![], &wire_limits()).unwrap_err();
    assert_eq!(error.message(), "client receive limits are required");
}

fn request(request_id: u64, body: RequestBody) -> Request {
    let idempotency_key = match body {
        RequestBody::Command(_) => vec![9; 16],
        _ => vec![],
    };
    Request {
        request_id,
        idempotency_key,
        timeout_ms: 0,
        body: Some(body),
    }
}

fn media_request(request_id: u64) -> Option<ClientFrame> {
    Some(ClientFrame::Request(request(
        request_id,
        RequestBody::Query(Some(Query::GetMedia)),
    )))
}

fn handle(outstanding: &mut OutstandingRequests, frame: Option<ClientFrame>) -> FrameAction {
    outstanding.handle_frame(frame, &vec![], true, InputPermission::Granted)
}

fn closed(action: FrameAction) -> &'static str {
    match action {
        FrameAction::Close { code, reason } => {
            assert_eq!(code, 6);
            reason
        }
        other => panic!("{other:?}"),
    }
}

#[test]
fn a_request_is_outstanding_until_it_ended() {
    let mut outstanding = OutstandingRequests::new();
    match handle(&mut outstanding, media_request(5)) {
        FrameAction::Start { request, timeout_ms } => {
            assert_eq!(request.request_id, 5);
            assert_eq!(timeout_ms, request_timeout_ms(0));
        }
        other => panic!("{other:?}"),
    }
    assert!(outstanding.contains(5));
    assert_eq!(
        closed(handle(&mut outstanding, media_request(5))),
        "request id reused while outstanding"
    );
    outstanding.ended(&vec![5]);
    assert!(!outstanding.contains(5));
    assert!(matches!(
        handle(&mut outstanding, media_request(5)),
        FrameAction::Start { .. }
    ));
}

#[test]
fn frames_are_answered_by_what_they_ask() {
    let mut outstanding = OutstandingRequests::new();
    assert_eq!(closed(handle(&mut outstanding, None)), "invalid control frame");
    assert_eq!(
        closed(handle(&mut outstanding, hello())),
        "control hello already received"
    );
    match handle(&mut outstanding, media_request(0)) {
        FrameAction::Answer(answer) => {
            assert_eq!(answer.status.message, "request id must be non-zero")
        }
        other => panic!("{other:?}"),
    }
    match outstanding.handle_frame(media_request(1), &vec![], false, InputPermission::Granted) {
        FrameAction::Answer(answer) => {
            assert_eq!(answer.status.code, ErrorCode::ResourceExhausted)
        }
        other => panic!("{other:?}"),
    }
    assert_eq!(
        handle(
            &mut outstanding,
            Some(ClientFrame::Ping { request_id: 2, monotonic_elapsed_us: 9 })
        ),
        FrameAction::Pong { request_id: 2, client_monotonic_elapsed_us: 9 }
    );
    assert_eq!(
        handle(
            &mut outstanding,
            Some(ClientFrame::CancelRequest { request_id: 8 })
        ),
        FrameAction::Ignore
    );
    handle(&mut outstanding, media_request(8));
    match handle(
        &mut outstanding,
        Some(ClientFrame::CancelRequest { request_id: 8 }),
    ) {
        FrameAction::Abort { request_id, answer } => {
            assert_eq!(request_id, 8);
            assert_eq!(answer.status.code, ErrorCode::Cancelled);
        }
        other => panic!("{other:?}"),
    }
    let begin = InputSessionRequest { request_id: 3, workspace_routing: false };
    assert_eq!(
        handle(&mut outstanding, Some(ClientFrame::BeginInputSession(begin))),
        FrameAction::BeginInput(begin)
    );
    let lease = InputLease { session_id: 1, epoch: 1 };
    assert_eq!(
        handle(
            &mut outstanding,
            Some(ClientFrame::EndInputSession { request_id: 4, lease })
        ),
        FrameAction::EndInput { request_id: 4, lease }
    );
    assert_eq!(
        handle(
            &mut outstanding,
            Some(ClientFrame::Subscribe { request_id: 5, topic: SubscriptionTopic::Media })
        ),
        FrameAction::Subscribe { request_id: 5, topic: SubscriptionTopic::Media }
    );
    assert_eq!(
        handle(
            &mut outstanding,
            Some(ClientFrame::Unsubscribe { request_id: 5, subscription_id: 1 })
        ),
        FrameAction::Unsubscribe { request_id: 5, subscription_id: 1 }
    );
    match handle(
        &mut outstanding,
        Some(ClientFrame::TransferOffer { request_id: 6, transfer_id: 7 }),
    ) {
        FrameAction::CancelTransfer { request_id, transfer_id, status } => {
            assert_eq!((request_id, transfer_id), (6, 7));
            assert_eq!(status.message, "file transfers are not enabled");
        }
        other => panic!("{other:?}"),
    }
    assert_eq!(
        closed(handle(&mut outstanding, Some(ClientFrame::TransferAccept))),
        "file transfers are not negotiated"
    );
}

#[test]
fn deadlines_and_heartbeats_are_bounded() {
    assert_eq!(request_timeout_ms(1), 100);
    assert_eq!(request_timeout_ms(5_000), 5_000);
    assert_eq!(request_timeout_ms(u32::MAX), 120_000);
    assert!(!client_silent(0, 44_999));
    assert!(client_silent(0, 45_000));
    assert_eq!(close_of(SessionEnd::Over), (0, "control session ended"));
    assert_eq!(close_of(SessionEnd::WriteFailed), (4, "control write failed"));
    assert_eq!(close_of(SessionEnd::Disconnected), (5, "disconnected by desktop"));
    assert_eq!(close_of(SessionEnd::Silent), (7, "application heartbeat timed out"));
    let command = request(1, RequestBody::Command(Some(Command::ClearClipboardHistory)));
    assert!(is_command(&command));
    let late = answer_ended(1, RequestEnd::TimedOut, true);
    assert_eq!(
        late.status.message,
        "command may continue in the background; retry with the same idempotency key"
    );
    let late = answer_ended(1, RequestEnd::TimedOut, false);
    assert_eq!(late.status.message, "request deadline exceeded");
    let failed = answer_ended(1, RequestEnd::Failed { error: "panic".into() }, false);
    assert_eq!(failed.request_id, 1);
    assert_eq!(failed.status.code, ErrorCode::Internal);
}

#[test]
fn streams_are_opened_by_kind() {
    let mut open = false;
    assert!(open_input_stream(2, &mut open).is_ok());
    assert!(open);
    assert_eq!(
        open_input_stream(2, &mut open).unwrap_err().message(),
        "a reliable input stream is already open"
    );
    assert_eq!(
        open_input_stream(9, &mut open).unwrap_err().message(),
        "unsupported client stream kind"
    );
    let mut sync = SelectedFeatures::new();
    sync.insert(Feature::ClipboardSync, 2);
    let some = vec![PeerCapability::ClipboardSync];
    let none = vec![];
    assert_eq!(
        auxiliary_stream(11, 11, &sync, &some, true),
        Ok(AuxiliaryStream::ClipboardReplica)
    );
    assert_eq!(
        auxiliary_stream(11, 11, &sync, &some, false).unwrap_err().message(),
        "too many clipboard replication streams"
    );
    assert_eq!(
        auxiliary_stream(11, 11, &sync, &none, true).unwrap_err().message(),
        "clipboard replication is not authorized or negotiated"
    );
    assert_eq!(
        auxiliary_stream(3, 11, &sync, &none, true),
        Ok(AuxiliaryStream::BlobDownload)
    );
    assert_eq!(
        auxiliary_stream(6, 11, &sync, &some, true),
        Ok(AuxiliaryStream::ClipboardBlobUpload)
    );
    assert!(auxiliary_stream(6, 11, &sync, &none, true).is_err());
    assert_eq!(
        auxiliary_stream(7, 11, &sync, &none, true),
        Ok(AuxiliaryStream::RemoteFiles)
    );
}

fn step(
    request: Request,
    features: &SelectedFeatures,
    capabilities: &Vec<PeerCapability>,
    cache: &mut CommandCache,
    store: &mut BlobStore,
) -> RequestStep {
    handle_request(
        request, b"encoded", features, capabilities, cache, store, &[1; 32], true, 1024, 0, NOW,
    )
}

#[test]
fn a_command_is_carried_out_once() {
    let mut cache = CommandCache::new();
    let mut store = BlobStore::new();
    let features = features(&[Feature::Clipboard]);
    let write = vec![PeerCapability::ClipboardWrite];
    let clear = |id| request(id, RequestBody::Command(Some(Command::ClearClipboardHistory)));
    let key = match step(clear(1), &features, &write, &mut cache, &mut store) {
        RequestStep::StartCommand { key, command } => {
            assert_eq!(command, Command::ClearClipboardHistory);
            key
        }
        other => panic!("{other:?}"),
    };
    assert!(matches!(
        step(clear(2), &features, &write, &mut cache, &mut store),
        RequestStep::JoinCommand { .. }
    ));
    let response = CommandResponse {
        request_id: 1,
        status: ok_status(),
        output: Some("done".into()),
    };
    cache.finish(key, b"encoded".to_vec(), response, 8, 0);
    match step(clear(3), &features, &write, &mut cache, &mut store) {
        RequestStep::AnswerCommand(answer) => {
            assert_eq!(answer.request_id, 3);
            assert_eq!(answer.output.as_deref(), Some("done"));
        }
        other => panic!("{other:?}"),
    }
    match step(clear(4), &features, &vec![], &mut cache, &mut store) {
        RequestStep::Refuse(denial) => {
            assert_eq!(denial.capability(), Some(PeerCapability::ClipboardWrite))
        }
        other => panic!("{other:?}"),
    }
}

#[test]
fn requests_carry_keys_only_with_commands() {
    let features = features(&[Feature::Media, Feature::Clipboard, Feature::Blobs]);
    let some = vec![
        PeerCapability::MediaRead,
        PeerCapability::ClipboardWrite,
        PeerCapability::ClipboardRead,
    ];
    let denied = |request: Request| match authorize_request(&request, &features, &some, NOW) {
        Err(Denial::BadRequest(message)) => message,
        other => panic!("{other:?}"),
    };
    let mut query = request(1, RequestBody::Query(Some(Query::GetMedia)));
    assert_eq!(authorize_request(&query, &features, &some, NOW), Ok(()));
    query.idempotency_key = vec![1];
    assert_eq!(denied(query), "queries must not include an idempotency key");
    let mut command = request(1, RequestBody::Command(Some(Command::ClearClipboardHistory)));
    assert_eq!(authorize_request(&command, &features, &some, NOW), Ok(()));
    command.idempotency_key = vec![1; 15];
    assert_eq!(denied(command), "commands require a 16-64 byte idempotency key");
    let blob = request(1, RequestBody::GetBlob { blob_id: vec![0; 31] });
    assert_eq!(denied(blob), "Blob IDs must be 32-byte SHA-256 digests");
    let empty = Request {
        request_id: 1,
        idempotency_key: vec![],
        timeout_ms: 0,
        body: None,
    };
    assert_eq!(denied(empty), "empty request");
    assert!(can_read_blobs(&features, &some));
    assert!(!can_read_blobs(&features, &vec![]));
}

#[test]
fn blobs_are_handed_out_by_ticket() {
    let mut cache = CommandCache::new();
    let mut store = BlobStore::new();
    let features = features(&[Feature::Blobs]);
    let read = vec![PeerCapability::ClipboardRead];
    let blob = store.insert(&[1; 32], b"picture".to_vec(), "image/png", 0).unwrap();
    let ask = |blob_id: Vec<u8>| request(1, RequestBody::GetBlob { blob_id });
    match step(ask(vec![0; 32]), &features, &read, &mut cache, &mut store) {
        RequestStep::Fail(failure) => {
            assert_eq!(failure.code, ErrorCode::NotFound);
            assert_eq!(failure.message, "blob is not available");
        }
        other => panic!("{other:?}"),
    }
    let ticket = match step(ask(blob.blob_id.clone()), &features, &read, &mut cache, &mut store) {
        RequestStep::Ticket(ticket) => ticket,
        other => panic!("{other:?}"),
    };
    let open = BlobStreamOpen {
        transfer_id: ticket.transfer_id,
        ticket: ticket.ticket,
        offset: 2,
    };
    let (header, chunks) = open_blob_stream(&mut store, &[1; 32], &open, 3, 0);
    assert_eq!(header.status.code, ErrorCode::Success);
    assert_eq!((header.accepted_offset, header.chunk_size), (2, 3));
    assert_eq!(header.blob, Some(blob));
    let parts: Vec<(u64, &[u8], bool)> = chunks
        .iter()
        .map(|chunk| (chunk.offset, chunk.data.as_ref(), chunk.end_of_blob))
        .collect();
    assert_eq!(parts, vec![(2, b"ctu".as_slice(), false), (5, b"re".as_slice(), true)]);
    let (header, chunks) = open_blob_stream(&mut store, &[1; 32], &open, 3, 0);
    assert_ne!(header.status.code, ErrorCode::Success);
    assert!(chunks.is_empty());
}

#[test]
fn a_question_is_passed_on() {
    let mut cache = CommandCache::new();
    let mut store = BlobStore::new();
    let features = features(&[Feature::Media]);
    let read = vec![PeerCapability::MediaRead];
    match step(
        request(1, RequestBody::Query(Some(Query::GetMedia))),
        &features,
        &read,
        &mut cache,
        &mut store,
    ) {
        RequestStep::Ask { query, can_read_blobs } => {
            assert_eq!(query, Query::GetMedia);
            assert!(!can_read_blobs);
        }
        other => panic!("{other:?}"),
    }
}

#[test]
fn ended_commands_are_answered_under_the_number_of_the_request() {
    let failed = command_outcome(Err("panic".into()), 7);
    assert_eq!(failed.request_id, 7);
    assert_eq!(failed.status.code, ErrorCode::Internal);
    let response = CommandResponse { request_id: 1, status: ok_status(), output: None };
    assert_eq!(answer_with(Some(response.clone()), 9).request_id, 9);
    assert_eq!(command_outcome(Ok(response), 7).status.code, ErrorCode::Success);
    let nothing = answer_with(None, 9);
    assert_eq!(
        nothing.status.message,
        "the original command ended without a result"
    );
}

#[test]
fn an_offset_outside_a_blob_is_refused() {
    let mut store = BlobStore::new();
    let blob = store.insert(&[1; 32], b"abc".to_vec(), "image/png", 0).unwrap();
    let ticket = store.issue_ticket(&[1; 32], &blob.blob_id, 1024, 0, NOW).unwrap();
    let open = BlobStreamOpen {
        transfer_id: ticket.transfer_id,
        ticket: ticket.ticket,
        offset: 4,
    };
    let (header, chunks) = open_blob_stream(&mut store, &[1; 32], &open, 3, 0);
    assert_eq!(header.status.message, "blob offset is outside the payload");
    assert!(chunks.is_empty());
}

#[test]
fn chunks_join_to_the_whole() {
    let content: Vec<u8> = (0..=255).collect();
    let chunks = blob_chunks(&bytes::Bytes::from(content.clone()), 1, 0, 100);
    assert_eq!(chunks.len(), 3);
    let joined: Vec<u8> = chunks.iter().flat_map(|chunk| chunk.data.to_vec()).collect();
    assert_eq!(joined, content);
    assert!(chunks[2].end_of_blob && !chunks[1].end_of_blob);
}

#[test]
fn a_clipboard_blob_is_uploaded_in_chunks() {
    let bytes = b"<b>text</b>".to_vec();
    let digest = Sha256::digest(&bytes).to_vec();
    let open = |size| ClipboardBlobUploadOpen {
        upload_id: digest.clone(),
        sha256: digest.clone(),
        media_type: "text/html; charset=utf-8".into(),
        size,
    };
    let chunk = |offset: u64, data: &[u8], end| ClipboardBlobUploadChunk {
        upload_id: digest.clone(),
        offset,
        data: data.to_vec(),
        end_of_upload: end,
    };
    let mut uploads = ClipboardUploadStore::new();
    let (header, receiver) = open_clipboard_upload(open(bytes.len() as u64), 1024);
    assert_eq!(header.status.code, ErrorCode::Success);
    let mut receiver = receiver.unwrap();
    assert_eq!(
        receiver.receive(chunk(3, b"x", false)).unwrap_err().message(),
        "invalid clipboard blob upload chunk"
    );
    assert_eq!(receiver.receive(chunk(0, &bytes[..4], false)), Ok(false));
    assert_eq!(
        receiver.receive(chunk(4, &[0; 99], false)).unwrap_err().message(),
        "clipboard blob upload exceeds declared size"
    );
    assert_eq!(receiver.receive(chunk(4, &bytes[4..], true)), Ok(true));
    let result = receiver.finish(&mut uploads, 0);
    assert_eq!(result.status.code, ErrorCode::Success);
    assert_eq!(result.received_size, bytes.len() as u64);
    assert_eq!(
        uploads.get(&digest, &digest, "text/html; charset=utf-8", 0),
        Some(bytes.clone())
    );

    let (_, receiver) = open_clipboard_upload(open(99), 1024);
    let mut receiver = receiver.unwrap();
    receiver.receive(chunk(0, &bytes, true)).unwrap();
    let result = receiver.finish(&mut uploads, 0);
    assert_eq!(result.status.message, "clipboard blob upload ended early");

    let (header, receiver) = open_clipboard_upload(open(0), 1024);
    assert_eq!(header.status.message, "invalid clipboard blob upload");
    assert!(receiver.is_none());
}

#[test]
fn latest_state_queue_replaces_only_the_same_subscription() {
    let mut queue = LatestStateQueue::new();
    for sequence in 1..=100_u64 {
        queue.replace(7, sequence, 10, 100);
    }
    queue.replace(9, 3, 10, 100);

    let first = queue.take().unwrap();
    let second = queue.take().unwrap();
    let events: std::collections::HashMap<u64, u64> = [first, second].into_iter().collect();
    assert_eq!(events.get(&7), Some(&100));
    assert_eq!(events.get(&9), Some(&3));
    assert_eq!(queue.take(), None);
}

#[test]
fn an_event_that_does_not_fit_is_not_queued() {
    let mut queue = LatestStateQueue::new();
    queue.replace(7, 'a', 101, 100);
    assert_eq!(queue.take(), None);
}

#[test]
fn events_of_a_subscription_are_numbered() {
    let mut subscriptions = Subscriptions::new();
    let all = features(&[Feature::Subscriptions, Feature::Media]);
    let read = vec![PeerCapability::MediaRead];
    let topic = SubscriptionTopic::Media;
    let told = subscriptions.subscribe(4, topic, &all, &read, true);
    assert_eq!(told.status.code, ErrorCode::Success);
    assert_eq!((told.request_id, told.topic), (4, topic));
    assert_ne!(told.subscription_id, 0);
    assert!(subscriptions.contains(topic));
    assert!(!subscriptions.is_unused(told.subscription_id));
    let (id, first) = subscriptions.next_event(topic);
    let (_, second) = subscriptions.next_event(topic);
    assert_eq!(id, told.subscription_id);
    assert_eq!(first, told.next_sequence);
    assert_eq!(second, first + 1);
    let again = subscriptions.subscribe(5, topic, &all, &read, true);
    assert_eq!(again.status.code, ErrorCode::Success);

    let gone = subscriptions.unsubscribe(6, again.subscription_id);
    assert_eq!(gone.status.code, ErrorCode::Success);
    assert!(!subscriptions.contains(topic));
    let gone = subscriptions.unsubscribe(7, again.subscription_id);
    assert_eq!(gone.status.message, "subscription was not found");
    let gone = subscriptions.unsubscribe(7, 0);
    assert_eq!(gone.status.message, "subscription id must be non-zero");
    assert_ne!(random_nonzero_u64(), 0);
}

#[test]
fn a_subscription_needs_features_capability_and_source() {
    let mut subscriptions = Subscriptions::new();
    let all = features(&[Feature::Subscriptions, Feature::Notifications]);
    let read = vec![PeerCapability::NotificationRead];
    let topic = SubscriptionTopic::Notifications;
    let mut refused = |topic, features: &SelectedFeatures, capabilities: &Vec<PeerCapability>, source| {
        subscriptions
            .subscribe(1, topic, features, capabilities, source)
            .status
            .message
    };
    assert_eq!(
        refused(SubscriptionTopic::Unspecified, &all, &read, true),
        "invalid subscription topic"
    );
    assert_eq!(
        refused(topic, &features(&[Feature::Notifications]), &read, true),
        "subscription feature was not negotiated"
    );
    assert_eq!(
        refused(topic, &all, &vec![], true),
        "subscription capability was not granted"
    );
    assert_eq!(
        refused(topic, &all, &read, false),
        "notification subscription is unavailable"
    );
    let refusal = refuse_subscription(1, 2, topic, ErrorCode::Conflict, "no");
    assert_eq!((refusal.request_id, refusal.subscription_id), (1, 2));
    assert_eq!(refusal.status.message, "no");
}

fn line(action_id: &str, text: &str) -> OutputLine {
    OutputLine {
        action_id: action_id.into(),
        text: text.into(),
    }
}

#[test]
fn lost_action_output_is_told_as_a_gap() {
    let mut subscriptions = Subscriptions::new();
    subscriptions.subscribe_with(SubscriptionTopic::ActionOutput, 5);
    subscriptions.event_sent(SubscriptionTopic::ActionOutput, 1);
    let sent = subscriptions.action_output(line("build", "ok")).unwrap();
    assert_eq!(sent.subscription_id, 5);
    assert_eq!(
        sent.event,
        ActionEvent::Output { action_id: "build".into(), line: "ok".into() }
    );
    subscriptions.event_lost(
        SubscriptionTopic::ActionOutput,
        sent.sequence,
        LostEvent::ActionOutput { action_id: "build".into() },
    );
    let gap = subscriptions.flush_action_gap().unwrap();
    assert_eq!(gap.subscription_id, 5);
    assert_eq!(gap.event.first_missing_sequence, sent.sequence);
    assert_eq!(gap.event.resource_ids, vec!["build".to_string()]);
    assert!(gap.event.resync_required);
    assert!(subscriptions.flush_action_gap().is_none());
    subscriptions.action_output_lagged();
    let gap = subscriptions.flush_action_gap().unwrap();
    assert!(gap.event.resource_ids.is_empty());
}

#[test]
fn a_gap_remembers_the_first_missing_event() {
    let mut gap = ActionGap::new();
    assert_eq!(gap.first_missing(), None);
    gap.remember_resource(9, "b".into());
    gap.remember_resource(7, "a".into());
    gap.remember_sequence(8);
    assert_eq!(gap.first_missing(), Some(9));
    let told = gap.take_gap(10).unwrap();
    assert_eq!(
        told,
        EventGap {
            first_missing_sequence: 9,
            next_available_sequence: 11,
            resync_required: true,
            resource_ids: vec!["a".into(), "b".into()],
        }
    );
    assert!(gap.take_gap(12).is_none());
    gap.remember_gap(told);
    gap.remember_unknown(20);
    assert!(gap.take_resource_ids().is_empty());
}

#[test]
fn a_gap_names_a_limited_number_of_resources() {
    let mut gap = ActionGap::new();
    for index in 0..1025 {
        gap.remember_resource(1, format!("action-{index}"));
    }
    assert!(gap.take_resource_ids().is_empty());
}

fn wire_grant(known: Option<PeerCapability>, constraints: Option<WireGrantConstraints>) -> WireGrant {
    WireGrant {
        capability: "some.capability".into(),
        known,
        direction: WireGrantDirection::Inbound,
        constraints,
        granted_at_ms: 0,
    }
}

#[test]
fn a_pairing_request_is_read() {
    let shares = || {
        Some(WireGrantConstraints {
            kind: Some(RemoteFileConstraints {
                share_ids: vec!["home".into()],
                writable: false,
            }),
        })
    };
    let read = read_pairing_request(
        vec![
            wire_grant(Some(PeerCapability::MediaRead), None),
            wire_grant(Some(PeerCapability::RemoteFilesRead), shares()),
        ],
        5,
    )
    .unwrap();
    assert_eq!(read[0].constraints, GrantConstraints::Unconstrained);
    assert_eq!(read[0].granted_at_ms, 5);
    assert_eq!(
        read[1].constraints,
        GrantConstraints::RemoteFileShares {
            share_ids: vec!["home".into()],
            writable: false
        }
    );
    let fault = |list| read_pairing_request(list, 5).unwrap_err().message();
    assert_eq!(fault(vec![wire_grant(None, None)]), "unknown capability some.capability");
    assert_eq!(
        fault(vec![
            wire_grant(Some(PeerCapability::MediaRead), None),
            wire_grant(Some(PeerCapability::MediaRead), None)
        ]),
        "duplicate pairing capability request"
    );
    let mut undirected = wire_grant(Some(PeerCapability::MediaRead), None);
    undirected.direction = WireGrantDirection::Unspecified;
    assert_eq!(fault(vec![undirected]), "invalid pairing grant direction");
    assert_eq!(
        fault(vec![wire_grant(
            Some(PeerCapability::RemoteFilesRead),
            Some(WireGrantConstraints { kind: None })
        )]),
        "unknown or empty grant constraints"
    );
    assert_eq!(
        fault((0..65).map(|_| wire_grant(None, None)).collect()),
        "too many requested capabilities"
    );
    assert_eq!(
        fault(vec![wire_grant(Some(PeerCapability::MediaRead), shares())]),
        "invalid remote-file grant constraints"
    );
}

#[test]
fn constraints_survive_their_travels() {
    let grant = Grant {
        capability: PeerCapability::RemoteFilesRead,
        direction: GrantDirection::Inbound,
        constraints: GrantConstraints::RemoteFileShares {
            share_ids: vec!["home".into(), "work".into()],
            writable: false,
        },
        granted_at_ms: 1,
    };
    let decoded = decode_pairing_constraints(encode_pairing_constraints(&grant)).unwrap();
    assert_eq!(decoded, grant.constraints);
    assert!(validate_grant_constraints(grant.capability, &decoded).is_ok());
    assert!(validate_grant_constraints(PeerCapability::MediaRead, &decoded).is_err());
}

#[test]
fn only_what_was_asked_for_and_approved_is_granted() {
    let asked = || {
        vec![
            grant(PeerCapability::MediaRead, GrantDirection::Inbound),
            grant(PeerCapability::MediaControl, GrantDirection::Inbound),
        ]
    };
    let decision = PairingApproval {
        accepted: true,
        approved_grants: vec![
            (PeerCapability::MediaRead, GrantDirection::Inbound),
            (PeerCapability::SystemRead, GrantDirection::Inbound),
        ],
    };
    let granted = approve(asked(), &decision);
    assert_eq!(granted, vec![grant(PeerCapability::MediaRead, GrantDirection::Inbound)]);
    let refused = PairingApproval {
        accepted: false,
        approved_grants: decision.approved_grants.clone(),
    };
    assert!(approve(asked(), &refused).is_empty());
    assert!(needs_approval(false, &vec![]));
    assert!(needs_approval(true, &asked()));
    assert!(!needs_approval(true, &vec![]));
    assert!(!default_decision(true).accepted);
    let told = pairing_response(true, "host", &granted);
    assert!(told.paired);
    assert_eq!((told.peer_id.as_str(), told.granted.len()), ("host", 1));
    let told = pairing_response(false, "host", &vec![]);
    assert_eq!(told.error, "pairing rejected");
    assert!(!told.paired);
}

#[test]
fn streams_announce_themselves() {
    assert!(check_control_stream(CONTROL_TYPE_URL, true, 0).is_ok());
    for (url, version, len) in [
        (PAIRING_TYPE_URL, true, 0),
        (CONTROL_TYPE_URL, false, 0),
        (CONTROL_TYPE_URL, true, 1),
    ] {
        assert_eq!(
            check_control_stream(url, version, len).unwrap_err().message(),
            "invalid v1 control stream header"
        );
    }
    assert!(check_pairing_stream(PAIRING_TYPE_URL, true).is_ok());
    assert_eq!(
        check_pairing_stream(CONTROL_TYPE_URL, true).unwrap_err().message(),
        "invalid pairing stream type"
    );
}

fn policy() -> domain::ClipboardPolicy {
    domain::ClipboardPolicy {
        history_enabled: true,
        max_items: 10,
        max_bytes: 100,
        retention_days: 3,
        save_sensitive: false,
    }
}

fn summary(id: u64, preview: &str) -> domain::ClipboardSummary {
    domain::ClipboardSummary {
        id,
        kind: domain::ClipboardContentKind::Text,
        preview: preview.into(),
        source_app: None,
        captured_at_ms: 5,
        size_bytes: 1,
        item_count: 1,
        width: None,
        height: None,
        sensitive: false,
        favorite: false,
        copy_count: 1,
        available: true,
        labels: vec![],
    }
}

#[test]
fn oversized_previews_are_skipped_or_refused() {
    let history = || vec![summary(1, "short"), summary(2, &"x".repeat(2049))];
    let shown = build_clipboard_snapshot(history(), policy(), None, true).unwrap();
    assert_eq!(shown.history.len(), 1);
    assert_eq!(shown.history[0].id, 1);
    assert_eq!(
        build_clipboard_snapshot(history(), policy(), None, false),
        Err("clipboard summary exceeds the 2 KiB protocol limit")
    );
    let cursor = Some(domain::ClipboardCursor { sort_at_ms: 5, id: 1 });
    let shown = build_clipboard_snapshot(vec![], policy(), cursor, true).unwrap();
    assert_eq!(
        (shown.next_cursor_timestamp_ms, shown.next_cursor_id),
        (Some(5), Some(1))
    );
    assert_eq!(shown.policy.unwrap().max_items, 10);
}

fn window(window_id: u32, thumbnail_png: Vec<u8>) -> domain::WindowInfo {
    domain::WindowInfo {
        window_id,
        title: "Editor".into(),
        app_name: "IDE".into(),
        is_focused: true,
        thumbnail_png,
        space_id: 2,
    }
}

#[test]
fn windows_are_listed_once_and_with_thumbnails_if_asked() {
    let list = || vec![window(9, vec![1, 2]), window(9, vec![]), window(0, vec![])];
    let plain = build_window_list(list());
    assert_eq!(plain.len(), 1);
    assert_eq!(plain[0].thumbnail, None);
    let mut store = BlobStore::new();
    let shown = build_window_list_with_thumbnails(list(), &mut store, &[1; 32], 0);
    assert_eq!(
        shown[0].thumbnail.as_ref().unwrap().blob_id,
        Sha256::digest([1, 2]).to_vec()
    );
    let spaces = build_space_list(vec![domain::SpaceInfo {
        space_id: 2,
        label: "Desktop 2".into(),
        is_active: true,
    }]);
    assert_eq!(spaces[0].label, "Desktop 2");
}

#[test]
fn snapshots_of_the_host_are_bounded() {
    let processes = build_process_snapshot(
        vec![
            domain::ProcessInfo {
                pid: 4,
                name: "worker\n".into(),
                cpu_percent_bits: (-1.0_f32).to_bits(),
                memory_bytes: u64::MAX,
            },
            domain::ProcessInfo {
                pid: 4,
                name: "again".into(),
                cpu_percent_bits: 0,
                memory_bytes: 0,
            },
        ],
        Some("IDE".into()),
    );
    assert_eq!(processes.processes.len(), 1);
    assert_eq!(processes.processes[0].name, "worker ");
    assert_eq!(f32::from_bits(processes.processes[0].cpu_percent_bits), 0.0);
    assert_eq!(processes.processes[0].memory_bytes, i64::MAX as u64);
    assert_eq!(processes.focused_app_name.as_deref(), Some("IDE"));

    let media = build_media_snapshot(domain::MediaState {
        playback: None,
        volume: domain::VolumeInfo { system_volume: 250, is_muted: false },
        app_volumes: vec![domain::AppVolume { app_name: "Player".into(), volume: 64 }],
        microphone_active: true,
        dnd_active: false,
    });
    assert_eq!(media.volume.unwrap().system_volume, 100);
    assert_eq!(media.app_volumes[0].volume, 64);
    assert!(media.microphone_active);

    let system = build_system_snapshot(domain::SystemSnapshot {
        cpu: domain::CpuInfo {
            usage_percent_bits: f32::NAN.to_bits(),
            core_count: 8,
            temperature_celsius_bits: Some(61.0_f32.to_bits()),
            model_name: "CPU".into(),
        },
        memory: domain::MemoryInfo {
            used_bytes: 40,
            total_bytes: 100,
            usage_percent_bits: 40.0_f32.to_bits(),
        },
        gpus: vec![],
        disks: vec![],
        network: domain::NetworkStats {
            download_bytes_per_sec: 123,
            upload_bytes_per_sec: 45,
        },
    });
    assert_eq!(f32::from_bits(system.cpu.unwrap().usage_percent_bits), 0.0);
    assert_eq!(f32::from_bits(system.memory.unwrap().usage_percent_bits), 40.0);
}

fn action(id: &str) -> QuickActionInfo {
    QuickActionInfo {
        id: id.into(),
        name: "Build".into(),
        icon_id: "".into(),
        icon_svg: "".into(),
        color: "".into(),
        group: "".into(),
        action_type_label: "".into(),
        sort_order: 1,
        is_toggle: false,
        is_running: false,
        requires_confirmation: false,
    }
}

fn automation(id: &str) -> AutomationInfo {
    AutomationInfo {
        id: id.into(),
        name: "Nightly".into(),
        summary: "".into(),
        enabled: true,
        latest_activity_id: None,
        latest_status: None,
        reason: None,
        next_run_at_ms: None,
        completed_steps: 0,
        total_steps: 0,
    }
}

fn notification(id: &str) -> HostNotificationInfo {
    HostNotificationInfo {
        id: id.into(),
        title: "Hello".into(),
        body: "".into(),
        source: "".into(),
        kind: 1,
        reference: None,
        created_at_ms: 3,
        read_at_ms: None,
        read_by_device_name: None,
    }
}

#[test]
fn host_lists_hold_only_what_can_be_named() {
    let actions = build_actions(vec![action("a"), action(""), action("a")]);
    assert_eq!(actions.len(), 1);
    let automations = build_automations(vec![automation("n"), automation("bad\nid")]);
    assert_eq!(automations.len(), 1);
    let notifications = build_notifications(vec![notification("x"), notification("y")]);
    assert_eq!(notifications.len(), 2);
    assert_eq!(build_notification_info(notification("x")).title, "Hello");
}

#[test]
fn questions_are_planned_for_the_host() {
    let plan = |query, blobs, provider| plan_query(query, blobs, provider);
    assert_eq!(plan(Query::GetSystem, false, false), Ok(HostQuestion::System));
    assert_eq!(
        plan(Query::ListProcesses { sort_by: proto::ProcessSortBy::Name }, false, false),
        Ok(HostQuestion::Processes { sort: domain::ProcessSortBy::Name })
    );
    assert_eq!(
        plan(
            Query::ListWindows(WindowsRequest {
                include_thumbnails: true,
                thumbnail_window_ids: vec![4]
            }),
            true,
            false
        ),
        Ok(HostQuestion::Windows { sample: WindowSample::Thumbnails(vec![4]) })
    );
    let notifications = || Query::GetNotifications { include_read: true, limit: 0 };
    assert_eq!(
        plan(notifications(), false, true),
        Ok(HostQuestion::Notifications { include_read: true, limit: 50 })
    );
    assert_eq!(
        plan(notifications(), false, false).unwrap_err().message,
        "notifications are unavailable"
    );
    match plan(
        Query::GetClipboard(ClipboardRequest {
            history_limit: 7,
            search: "".into(),
            cursor_timestamp_ms: None,
            cursor_id: None,
            kinds: vec![],
            favorite_only: false,
            label_ids: vec![],
        }),
        false,
        false,
    ) {
        Ok(HostQuestion::Clipboard { history }) => {
            assert_eq!((history.limit, history.search), (7, None))
        }
        other => panic!("{other:?}"),
    }
}

#[test]
fn what_the_host_replied_is_shown() {
    let mut store = BlobStore::new();
    let reply = HostReply::Devices {
        local_device: Some(domain::LocalDeviceInfo {
            name: "Mac".into(),
            ip: "127.0.0.1".into(),
            app_version: "1".into(),
            port: 1,
        }),
        config: None,
    };
    let shown =
        answer_query(HostQuestion::Devices, reply, &mut store, &[1; 32], NOW, 0).unwrap();
    assert_eq!((shown.revision, shown.captured_at_ms), (1, NOW));
    match &shown.data {
        SnapshotData::Devices { local_device, config } => {
            assert_eq!(local_device.as_ref().unwrap().name, "Mac");
            assert!(config.is_none());
        }
        other => panic!("{other:?}"),
    }
    let kept = finish_query(Ok(shown), 10, 10).unwrap();
    assert_eq!(
        finish_query(Ok(kept), 11, 10).unwrap_err().message,
        "query result exceeds the negotiated control-frame limit"
    );
    let failure = CommandFailure::invalid("bad");
    assert_eq!(finish_query(Err(failure), 0, 10).unwrap_err().message, "bad");
    let reply = HostReply::Media {
        revision: 0,
        captured_at_ms: 9,
        state: domain::MediaState {
            playback: None,
            volume: domain::VolumeInfo { system_volume: 1, is_muted: true },
            app_volumes: vec![],
            microphone_active: false,
            dnd_active: false,
        },
    };
    let shown = answer_query(HostQuestion::Media, reply, &mut store, &[1; 32], NOW, 0).unwrap();
    assert_eq!((shown.revision, shown.captured_at_ms), (1, 9));
    assert!(matches!(shown.data, SnapshotData::Media(_)));
    assert_eq!(build_sync_page(vec![], &mut store, &[1; 32], NOW, 0), Ok(vec![]));
}

fn picture_of(window_id: u32) -> domain::WindowInfo {
    domain::WindowInfo {
        window_id,
        title: "notes".into(),
        app_name: "Editor".into(),
        is_focused: true,
        thumbnail_png: b"picture".to_vec(),
        space_id: 1,
    }
}

#[test]
fn answers_fit_their_questions() {
    let mut store = BlobStore::new();
    let mut answer = |question, reply| answer_query(question, reply, &mut store, &[1; 32], NOW, 0);
    let output = || HostReply::ActionOutput { lines: vec!["done".into()] };
    let asked = HostQuestion::ActionOutput { action_id: "build".into() };
    match answer(asked, output()).unwrap().data {
        SnapshotData::ActionOutput { action_id, lines } => {
            assert_eq!(action_id, "build");
            assert_eq!(lines, vec!["done"]);
        }
        other => panic!("{other:?}"),
    }
    let failure = answer(HostQuestion::System, output()).unwrap_err();
    assert_eq!(failure.code, ErrorCode::Internal);
    assert_eq!(failure.message, "the host replied to another question");
    let failed = HostReply::ServiceFailed {
        kind: CoreErrorKind::Unavailable,
        message: "asleep".into(),
    };
    assert_eq!(answer(HostQuestion::System, failed).unwrap_err().message, "asleep");

    let mut thumbnails = |sample| {
        let reply = HostReply::Windows { windows: vec![picture_of(4)], spaces: vec![] };
        match answer(HostQuestion::Windows { sample }, reply).unwrap().data {
            SnapshotData::Windows { windows, .. } => windows[0].thumbnail.is_some(),
            other => panic!("{other:?}"),
        }
    };
    assert!(!thumbnails(WindowSample::Plain));
    assert!(thumbnails(WindowSample::EveryThumbnail));
    assert!(thumbnails(WindowSample::Thumbnails(vec![4])));
}

#[test]
fn a_clipboard_event_is_shortened_until_it_fits() {
    let event = |history| -> Event {
        let mut subscriptions = Subscriptions::new();
        subscriptions.subscribe_with(SubscriptionTopic::Clipboard, 8);
        let update = StateUpdate::Clipboard { captured_at_ms: 9, history, policy: policy() };
        subscriptions
            .state_event(SubscriptionTopic::Clipboard, update, NOW)
            .unwrap()
    };
    let both = || vec![summary(1, "a"), summary(2, "b")];
    assert!(matches!(fit_event(event(both()), 10, 10), EventStep::Send(_)));
    match fit_event(event(both()), 11, 10) {
        EventStep::Shorten(shorter) => {
            assert_eq!((shorter.subscription_id, shorter.sequence), (8, 1));
            assert_eq!(shorter.captured_at_ms, 9);
            match shorter.data {
                EventData::Clipboard(snapshot) => {
                    assert_eq!(snapshot.history.len(), 1);
                    assert_eq!(snapshot.history[0].id, 1);
                    assert!(snapshot.labels.is_empty());
                }
                other => panic!("{other:?}"),
            }
        }
        other => panic!("{other:?}"),
    }
    assert!(matches!(fit_event(event(vec![]), 11, 10), EventStep::Skip));
    // Only the clipboard history can be shortened.
    let data = EventData::Notifications { notifications: vec![] };
    let other = event_frame(1, 2, 3, data, NOW);
    assert!(matches!(fit_event(other, 11, 10), EventStep::Send(_)));
}

fn media_update(captured_at_ms: i64) -> StateUpdate {
    StateUpdate::Media {
        captured_at_ms,
        state: domain::MediaState {
            playback: None,
            volume: domain::VolumeInfo { system_volume: 40, is_muted: false },
            app_volumes: vec![],
            microphone_active: true,
            dnd_active: false,
        },
    }
}

#[test]
fn states_are_told_to_those_who_subscribed() {
    let mut subscriptions = Subscriptions::new();
    let media = SubscriptionTopic::Media;
    assert!(subscriptions.state_event(media, media_update(5), NOW).is_none());
    subscriptions.subscribe_with(SubscriptionTopic::Media, 3);
    let event = subscriptions.state_event(media, media_update(5), NOW).unwrap();
    assert_eq!((event.subscription_id, event.sequence, event.captured_at_ms), (3, 1, 5));
    match &event.data {
        EventData::Media(shown) => assert!(shown.microphone_active),
        other => panic!("{other:?}"),
    }
    // It counts only when it is sent.
    assert_eq!(subscriptions.upcoming(SubscriptionTopic::Media), Some((3, 1)));
    subscriptions.event_sent(SubscriptionTopic::Media, event.sequence);
    let event = subscriptions.state_event(media, media_update(0), NOW).unwrap();
    assert_eq!((event.sequence, event.captured_at_ms), (2, NOW));

    subscriptions.subscribe_with(SubscriptionTopic::Actions, 4);
    let update = StateUpdate::Actions { actions: vec![], automations: vec![] };
    let event = subscriptions
        .state_event(SubscriptionTopic::Actions, update, NOW)
        .unwrap();
    assert_eq!((event.subscription_id, event.captured_at_ms), (4, NOW));
    assert!(matches!(event.data, EventData::Actions { .. }));
    subscriptions.subscribe_with(SubscriptionTopic::Windows, 5);
    let update = StateUpdate::Windows { captured_at_ms: 7, windows: vec![], spaces: vec![] };
    let event = subscriptions
        .state_event(SubscriptionTopic::Windows, update, NOW)
        .unwrap();
    assert_eq!((event.subscription_id, event.captured_at_ms), (5, 7));
    // A state of another kind is not told.
    assert!(subscriptions
        .state_event(SubscriptionTopic::Actions, media_update(8), NOW)
        .is_none());
    assert_eq!(
        notification_question(),
        HostQuestion::Notifications { include_read: false, limit: 100 }
    );
}

#[test]
fn a_dropped_event_is_told_as_a_gap() {
    let mut subscriptions = Subscriptions::new();
    assert!(subscriptions.output_event(line("build", "one"), NOW).is_none());
    assert!(subscriptions.gap_event(NOW).is_none());
    subscriptions.subscribe_with(SubscriptionTopic::ActionOutput, 6);
    assert!(subscriptions.output_event(line("", "one"), NOW).is_none());
    let event = subscriptions.output_event(line("build", "one"), NOW).unwrap();
    assert_eq!((event.subscription_id, event.sequence, event.captured_at_ms), (6, 1, NOW));
    match &event.data {
        EventData::ActionOutput { action_id, lines } => {
            assert_eq!(action_id, "build");
            assert_eq!(lines, &vec!["one".to_string()]);
        }
        other => panic!("{other:?}"),
    }
    subscriptions.event_dropped(SubscriptionTopic::ActionOutput, event);
    // The gap takes the place of the next line.
    let event = subscriptions.output_event(line("test", "two"), NOW).unwrap();
    assert_eq!(event.sequence, 2);
    match &event.data {
        EventData::Gap(gap) => {
            assert_eq!(gap.first_missing_sequence, 1);
            assert_eq!(gap.next_available_sequence, 3);
            assert_eq!(gap.resource_ids, vec!["build".to_string(), "test".to_string()]);
        }
        other => panic!("{other:?}"),
    }
    // A gap that is lost itself is told again.
    subscriptions.event_dropped(SubscriptionTopic::ActionOutput, event);
    let event = subscriptions.gap_event(NOW).unwrap();
    assert_eq!((event.subscription_id, event.sequence), (6, 3));
    match event.data {
        EventData::Gap(gap) => {
            assert_eq!(gap.first_missing_sequence, 1);
            assert_eq!(gap.next_available_sequence, 4);
            assert_eq!(gap.resource_ids, vec!["build".to_string(), "test".to_string()]);
        }
        other => panic!("{other:?}"),
    }
    assert!(subscriptions.gap_event(NOW).is_none());
    // Nobody listens to another topic.
    let data = EventData::Notifications { notifications: vec![] };
    subscriptions.event_dropped(SubscriptionTopic::Notifications, event_frame(1, 1, 1, data, NOW));
    assert!(!subscriptions.contains(SubscriptionTopic::Notifications));
}

fn text_record() -> domain::ClipboardSyncRecord {
    domain::ClipboardSyncRecord {
        sync_id: "0123456789abcdef".into(),
        kind: domain::ClipboardContentKind::Text,
        text: Some("hello".into()),
        html: None,
        rtf: None,
        image_png: None,
        width: None,
        height: None,
        preview: "hello".into(),
        source_app: None,
        source_device_id: "device".into(),
        source_device_name: "Device".into(),
        captured_at_ms: 5,
        revision: 1,
        updated_by_device_id: "device".into(),
        favorite: false,
        favorite_revision: 0,
        favorite_updated_by_device_id: String::new(),
        labels: vec![],
        label_memberships: vec![],
        deleted: false,
        change_kind: domain::ClipboardSyncChangeKind::Copy,
        live: true,
        text_syntax_json: None,
    }
}

#[test]
fn a_new_entry_of_the_clipboard_is_told_to_those_who_subscribed() {
    let record = || domain::ClipboardSyncRecord {
        text_syntax_json: Some("{}".into()),
        ..text_record()
    };
    let mut store = BlobStore::new();
    let mut subscriptions = Subscriptions::new();
    assert!(subscriptions
        .clipboard_sync_event(record(), &mut store, &[1; 32], NOW, 0)
        .is_none());
    subscriptions.subscribe_with(SubscriptionTopic::ClipboardSync, 7);
    let unfit = domain::ClipboardSyncRecord { text_syntax_json: None, ..text_record() };
    assert!(subscriptions
        .clipboard_sync_event(unfit, &mut store, &[1; 32], NOW, 0)
        .is_none());
    assert_eq!(subscriptions.upcoming(SubscriptionTopic::ClipboardSync), Some((7, 1)));
    let event = subscriptions
        .clipboard_sync_event(record(), &mut store, &[1; 32], NOW, 0)
        .unwrap();
    assert_eq!((event.subscription_id, event.sequence, event.captured_at_ms), (7, 1, NOW));
    assert!(matches!(event.data, EventData::ClipboardSync(_)));
    assert_eq!(subscriptions.upcoming(SubscriptionTopic::ClipboardSync), Some((7, 2)));
}

#[test]
fn a_drawn_number_becomes_one_that_is_not_zero() {
    assert_eq!(nonzero_draw(0), 1);
    assert_eq!(nonzero_draw(1 << 63), 1);
    assert_eq!(nonzero_draw(7), 7);
    assert_eq!(nonzero_draw((1 << 63) + 9), 9);
    assert_eq!(nonzero_draw(u64::MAX), i64::MAX as u64);
    let drawn = random_nonzero_u64();
    assert!(0 < drawn && drawn <= i64::MAX as u64);
}
