//! The stores of one host: commands and their responses, blobs and uploads.

use arcrelay_protocol::blob_store::{
    BlobStore, IssueTicketError, BLOB_IDLE_TTL_MS, MAX_CACHED_BLOBS_PER_DEVICE,
    MAX_CACHED_BLOB_BYTES_PER_DEVICE, MAX_OUTSTANDING_TICKETS_PER_DEVICE, TICKET_TTL_MS,
};
use arcrelay_protocol::clipboard_upload::{
    is_uploadable, ClipboardUploadStore, MAX_BLOB_BYTES, UPLOAD_TTL_MS,
};
use arcrelay_protocol::command_cache::{
    command_error, CommandAdmission, CommandCache, CommandCacheKey, CommandResponse,
    COMMAND_CACHE_TTL_MS, MAX_CACHED_COMMAND_BYTES_PER_DEVICE, MAX_CACHED_COMMANDS_PER_DEVICE,
};
use arcrelay_protocol::status::{ok_status, ErrorCode};
use sha2::{Digest, Sha256};

const CHUNK: u32 = 65536;
const WALL: i64 = 1_700_000_000_000;

fn response(request_id: u64) -> CommandResponse {
    CommandResponse {
        request_id,
        status: ok_status(),
        output: Some("done".into()),
    }
}

#[test]
fn per_device_byte_budget_evicts_oversized_entries() {
    let mut cache = CommandCache::default();
    let key = CommandCacheKey::new(&[1_u8; 32], &[2_u8; 16]);
    cache.insert(
        key.clone(),
        vec![0_u8; MAX_CACHED_COMMAND_BYTES_PER_DEVICE + 1],
        response(1),
        8,
        0,
    );
    assert_eq!(cache.len(), 0);
    assert_eq!(cache.cached_command_frame(&key, b"small", 2), Ok(None));
}

#[test]
fn one_device_cannot_evict_another_devices_entries_with_an_oversized_value() {
    let mut cache = CommandCache::default();
    let first = CommandCacheKey::new(&[1_u8; 32], &[1_u8; 16]);
    cache.insert(first.clone(), b"small".to_vec(), response(1), 8, 0);

    cache.insert(
        CommandCacheKey::new(&[2_u8; 32], &[2_u8; 16]),
        vec![0_u8; MAX_CACHED_COMMAND_BYTES_PER_DEVICE + 1],
        response(2),
        8,
        0,
    );

    assert!(matches!(
        cache.cached_command_frame(&first, b"small", 3),
        Ok(Some(_))
    ));
    assert_eq!(cache.len(), 1);
}

#[test]
fn replacing_a_key_keeps_only_one_order_entry() {
    let mut cache = CommandCache::default();
    let key = CommandCacheKey::new(&[1_u8; 32], &[2_u8; 16]);
    cache.insert(key.clone(), b"first".to_vec(), response(1), 8, 0);
    cache.insert(key.clone(), b"second".to_vec(), response(2), 8, 0);

    assert_eq!(cache.len(), 1);
    assert!(matches!(
        cache.cached_command_frame(&key, b"second", 3),
        Ok(Some(_))
    ));
    assert!(cache.cached_command_frame(&key, b"first", 3).is_err());
}

#[test]
fn authenticated_device_is_part_of_the_cache_key() {
    assert_ne!(
        CommandCacheKey::new(&[1_u8; 32], &[9_u8; 16]),
        CommandCacheKey::new(&[2_u8; 32], &[9_u8; 16]),
    );
}

#[test]
fn command_caches_are_isolated_by_authenticated_key() {
    let first = CommandCacheKey::new(&[1; 32], &[9; 16]);
    let same = CommandCacheKey::new(&[1; 32], &[9; 16]);
    let other = CommandCacheKey::new(&[2; 32], &[9; 16]);
    assert_eq!(first, same);
    assert_ne!(first, other);
    assert!(first.same(&same));
    assert!(!first.same(&other));
}

#[test]
fn a_repeated_command_is_answered_from_the_cache_under_its_own_number() {
    let mut cache = CommandCache::new();
    let key = CommandCacheKey::new(&[1; 32], &[9; 16]);
    assert!(matches!(
        cache.accept(&key, b"mute", 1, true, 0),
        CommandAdmission::Start
    ));
    assert!(matches!(
        cache.accept(&key, b"mute", 2, true, 0),
        CommandAdmission::Join
    ));
    cache.finish(key.clone(), b"mute".to_vec(), response(1), 8, 0);
    match cache.accept(&key, b"mute", 3, true, 1) {
        CommandAdmission::Answer(answer) => {
            assert_eq!(answer.request_id, 3);
            assert_eq!(answer.output.as_deref(), Some("done"));
        }
        other => panic!("{other:?}"),
    }
    match cache.accept(&key, b"unmute", 4, true, 1) {
        CommandAdmission::Answer(answer) => {
            assert_eq!(answer.request_id, 4);
            assert_eq!(answer.status.code, ErrorCode::InvalidArgument);
        }
        other => panic!("{other:?}"),
    }
}

#[test]
fn a_response_is_replayed_until_its_time_is_up() {
    let mut cache = CommandCache::new();
    let key = CommandCacheKey::new(&[1; 32], &[9; 16]);
    cache.insert(key.clone(), b"mute".to_vec(), response(1), 8, 100);
    cache.prune(100 + COMMAND_CACHE_TTL_MS - 1);
    assert_eq!(cache.len(), 1);
    cache.prune(100 + COMMAND_CACHE_TTL_MS);
    assert_eq!(cache.len(), 0);
    assert!(matches!(
        cache.accept(&key, b"mute", 2, true, 100 + COMMAND_CACHE_TTL_MS),
        CommandAdmission::Start
    ));
}

#[test]
fn too_many_commands_at_once_are_refused() {
    let mut cache = CommandCache::new();
    let key = CommandCacheKey::new(&[1; 32], &[9; 16]);
    match cache.accept(&key, b"mute", 5, false, 0) {
        CommandAdmission::Answer(answer) => {
            assert_eq!(answer.request_id, 5);
            assert_eq!(answer.status.code, ErrorCode::ResourceExhausted);
        }
        other => panic!("{other:?}"),
    }
    assert!(matches!(
        cache.accept(&key, b"mute", 6, true, 0),
        CommandAdmission::Start
    ));
}

#[test]
fn a_device_keeps_its_latest_commands() {
    let mut cache = CommandCache::new();
    for index in 0..=MAX_CACHED_COMMANDS_PER_DEVICE {
        let key = CommandCacheKey::new(&[1; 32], &index.to_le_bytes());
        cache.insert(key, b"mute".to_vec(), response(1), 8, 0);
    }
    assert_eq!(cache.len(), MAX_CACHED_COMMANDS_PER_DEVICE);
    let oldest = CommandCacheKey::new(&[1; 32], &0_usize.to_le_bytes());
    assert_eq!(cache.cached_command_frame(&oldest, b"mute", 1), Ok(None));
    let latest = CommandCacheKey::new(&[1; 32], &MAX_CACHED_COMMANDS_PER_DEVICE.to_le_bytes());
    assert!(matches!(
        cache.cached_command_frame(&latest, b"mute", 1),
        Ok(Some(_))
    ));
}

#[test]
fn a_failed_command_tells_why() {
    let failed = command_error(7, ErrorCode::Conflict, "state changed");
    assert_eq!(failed.request_id, 7);
    assert_eq!(failed.status.message, "state changed");
    assert_eq!(failed.output, None);
}

#[test]
fn scheduled_pruning_preserves_pinned_blobs_and_removes_expired_tickets() {
    let start = 4 * BLOB_IDLE_TTL_MS;
    let mut store = BlobStore::new();
    let owner = [1; 32];
    assert_eq!(store.next_prune_at(), None);
    let other = store
        .insert(&owner, b"unpinned".to_vec(), "image/png", start - BLOB_IDLE_TTL_MS + 1)
        .unwrap();
    let blob = store
        .insert(&owner, b"pinned".to_vec(), "image/png", start)
        .unwrap();
    store
        .issue_ticket(&owner, &blob.blob_id, CHUNK, start, WALL)
        .unwrap();
    // The blob was last used long before the sweep.
    store.insert(&owner, b"pinned".to_vec(), "image/png", 0).unwrap();
    store.prune(start + 1);
    assert_eq!(store.len(), 1);
    assert_eq!(store.ticket_count(), 1);
    assert_eq!(store.next_prune_at(), Some(start + TICKET_TTL_MS));
    assert!(matches!(
        store.issue_ticket(&owner, &other.blob_id, CHUNK, start + 1, WALL),
        Err(IssueTicketError::NotFound)
    ));

    store.prune(start + TICKET_TTL_MS);
    assert_eq!(store.len(), 0);
    assert_eq!(store.ticket_count(), 0);
    assert_eq!(store.next_prune_at(), None);

    // Nothing of it counts against the device any more.
    let now = start + TICKET_TTL_MS;
    let whole = store
        .insert(&owner, vec![1; MAX_CACHED_BLOB_BYTES_PER_DEVICE], "image/png", now)
        .unwrap();
    for _ in 0..MAX_OUTSTANDING_TICKETS_PER_DEVICE {
        store
            .issue_ticket(&owner, &whole.blob_id, CHUNK, now, WALL)
            .unwrap();
    }
    assert!(matches!(
        store.issue_ticket(&owner, &whole.blob_id, CHUNK, now, WALL),
        Err(IssueTicketError::ResourceExhausted)
    ));
}

#[test]
fn repeated_reclamation_does_not_accumulate_stale_insertion_ids() {
    let mut store = BlobStore::new();
    let owner = [1; 32];
    for index in 0..MAX_CACHED_BLOBS_PER_DEVICE + 100 {
        let blob = store
            .insert(&owner, index.to_le_bytes().to_vec(), "image/png", 0)
            .unwrap();
        let ticket = store
            .issue_ticket(&owner, &blob.blob_id, CHUNK, 0, WALL)
            .unwrap();
        store
            .redeem(&owner, ticket.transfer_id, &ticket.ticket, 0)
            .unwrap();
    }
    assert_eq!(store.len(), MAX_CACHED_BLOBS_PER_DEVICE);
}

#[test]
fn blob_ids_are_content_hashes_and_tickets_are_single_use() {
    let mut store = BlobStore::new();
    let owner = [1_u8; 32];
    let bytes = b"thumbnail".to_vec();
    let reference = store.insert(&owner, bytes.clone(), "image/png", 0).unwrap();

    assert_eq!(reference.blob_id, Sha256::digest(&bytes).to_vec());
    assert_eq!(reference.sha256, reference.blob_id);
    assert_eq!(reference.size, bytes.len() as u64);

    let ticket = store
        .issue_ticket(&owner, &reference.blob_id, CHUNK, 0, WALL)
        .unwrap();
    let redeemed = store
        .redeem(&owner, ticket.transfer_id, &ticket.ticket, 0)
        .unwrap();
    assert_eq!(redeemed.bytes.as_ref(), bytes.as_slice());
    assert!(store
        .redeem(&owner, ticket.transfer_id, &ticket.ticket, 0)
        .is_err());
}

#[test]
fn empty_blobs_are_not_cached() {
    let mut store = BlobStore::new();
    assert!(store
        .insert(&[1_u8; 32], vec![], "application/octet-stream", 0)
        .is_none());
}

#[test]
fn delivered_blobs_are_reclaimed_when_owner_cache_is_full() {
    let mut store = BlobStore::new();
    let owner = [7_u8; 32];
    let first = store
        .insert(
            &owner,
            vec![1; MAX_CACHED_BLOB_BYTES_PER_DEVICE / 2],
            "image/png",
            0,
        )
        .unwrap();
    store
        .insert(
            &owner,
            vec![2; MAX_CACHED_BLOB_BYTES_PER_DEVICE / 2],
            "image/png",
            0,
        )
        .unwrap();
    assert!(store.insert(&owner, vec![3], "image/png", 0).is_none());

    let first_ticket = store
        .issue_ticket(&owner, &first.blob_id, CHUNK, 0, WALL)
        .unwrap();
    let duplicate_ticket = store
        .issue_ticket(&owner, &first.blob_id, CHUNK, 0, WALL)
        .unwrap();
    store
        .redeem(&owner, first_ticket.transfer_id, &first_ticket.ticket, 0)
        .unwrap();
    assert!(store.insert(&owner, vec![3], "image/png", 0).is_none());
    store
        .redeem(
            &owner,
            duplicate_ticket.transfer_id,
            &duplicate_ticket.ticket,
            0,
        )
        .unwrap();

    assert!(store.insert(&owner, vec![3], "image/png", 0).is_some());
}

#[test]
fn global_content_cache_preserves_device_ownership() {
    let mut store = BlobStore::new();
    let first_owner = [1_u8; 32];
    let second_owner = [2_u8; 32];
    let bytes = b"shared thumbnail".to_vec();
    let reference = store
        .insert(&first_owner, bytes.clone(), "image/png", 0)
        .unwrap();

    assert!(matches!(
        store.issue_ticket(&second_owner, &reference.blob_id, CHUNK, 0, WALL),
        Err(IssueTicketError::NotFound)
    ));
    let second_reference = store
        .insert(&second_owner, bytes, "image/png", 0)
        .expect("the content-addressed entry should be shared");
    assert_eq!(reference.blob_id, second_reference.blob_id);

    let ticket = store
        .issue_ticket(&second_owner, &reference.blob_id, CHUNK, 0, WALL)
        .unwrap();
    assert!(store
        .redeem(&first_owner, ticket.transfer_id, &ticket.ticket, 0)
        .is_err());
}

#[test]
fn invalid_redeem_does_not_consume_a_valid_ticket() {
    let mut store = BlobStore::new();
    let owner = [1_u8; 32];
    let reference = store
        .insert(&owner, b"thumbnail".to_vec(), "image/png", 0)
        .unwrap();
    let ticket = store
        .issue_ticket(&owner, &reference.blob_id, CHUNK, 0, WALL)
        .unwrap();

    assert!(store
        .redeem(&owner, ticket.transfer_id.wrapping_add(1), &ticket.ticket, 0)
        .is_err());
    assert!(store
        .redeem(&owner, ticket.transfer_id, &ticket.ticket, 0)
        .is_ok());
}

#[test]
fn a_ticket_tells_what_it_is_for_and_when_it_ends() {
    let mut store = BlobStore::new();
    let owner = [1_u8; 32];
    let reference = store
        .insert(&owner, b"thumbnail".to_vec(), "image/png", 0)
        .unwrap();
    assert!(store.is_fresh(42, &[5; 32]));
    let ticket = store
        .issue_ticket_with(&owner, &reference.blob_id, 42, vec![5; 32], CHUNK, 0, WALL)
        .unwrap();
    assert!(!store.is_fresh(42, &[6; 32]));
    assert!(!store.is_fresh(43, &[5; 32]));
    assert!(store.is_fresh(43, &[6; 32]));
    assert_eq!(ticket.transfer_id, 42);
    assert_eq!(ticket.ticket, vec![5; 32]);
    assert_eq!(ticket.chunk_size, CHUNK);
    assert_eq!(ticket.expires_at_ms, WALL + 30_000);
    assert_eq!(ticket.blob, Some(reference.clone()));
    assert_eq!(reference.media_type, "image/png");
    assert!(store.redeem(&owner, 42, &[5; 32], TICKET_TTL_MS).is_err());
}

#[test]
fn drawn_tickets_differ() {
    let mut store = BlobStore::new();
    let owner = [1_u8; 32];
    let reference = store
        .insert(&owner, b"thumbnail".to_vec(), "image/png", 0)
        .unwrap();
    let a = store
        .issue_ticket(&owner, &reference.blob_id, CHUNK, 0, WALL)
        .unwrap();
    let b = store
        .issue_ticket(&owner, &reference.blob_id, CHUNK, 0, WALL)
        .unwrap();
    assert_ne!(a.ticket, b.ticket);
    assert_ne!(a.transfer_id, b.transfer_id);
    assert_ne!(a.transfer_id, 0);
    assert_eq!(a.ticket.len(), 32);
}

#[test]
fn a_device_has_a_limited_number_of_tickets() {
    let mut store = BlobStore::new();
    let owner = [1_u8; 32];
    let reference = store
        .insert(&owner, b"thumbnail".to_vec(), "image/png", 0)
        .unwrap();
    for _ in 0..MAX_OUTSTANDING_TICKETS_PER_DEVICE {
        assert!(store
            .issue_ticket(&owner, &reference.blob_id, CHUNK, 0, WALL)
            .is_ok());
    }
    assert!(matches!(
        store.issue_ticket(&owner, &reference.blob_id, CHUNK, 0, WALL),
        Err(IssueTicketError::ResourceExhausted)
    ));
}

#[test]
fn stores_same_digest_under_distinct_allowed_media_types() {
    let mut store = ClipboardUploadStore::default();
    let bytes = b"same source bytes".to_vec();
    let digest = Sha256::digest(&bytes).to_vec();

    store
        .insert(
            digest.clone(),
            bytes.clone(),
            &digest,
            "text/html; charset=utf-8",
            0,
        )
        .unwrap();
    store
        .insert(digest.clone(), bytes.clone(), &digest, "text/rtf", 0)
        .unwrap();

    assert_eq!(
        store.get(&digest, &digest, "text/html; charset=utf-8", 0),
        Some(bytes.clone())
    );
    assert_eq!(store.get(&digest, &digest, "text/rtf", 0), Some(bytes));
    assert_eq!(store.get(&digest, &digest, "image/png", 0), None);
}

#[test]
fn rejects_unapproved_media_types() {
    let mut store = ClipboardUploadStore::default();
    let bytes = b"payload".to_vec();
    let digest = Sha256::digest(&bytes).to_vec();
    assert_eq!(
        store.insert(digest.clone(), bytes, &digest, "text/plain", 0),
        Err("invalid clipboard blob upload")
    );
    assert!(!is_uploadable("text/plain"));
    assert!(is_uploadable("image/png"));
}

#[test]
fn uploads_are_checked_and_forgotten() {
    let mut store = ClipboardUploadStore::default();
    let bytes = b"payload".to_vec();
    let digest = Sha256::digest(&bytes).to_vec();
    assert!(store
        .insert(digest.clone(), bytes.clone(), &[0; 32], "image/png", 0)
        .is_err());
    assert!(store
        .insert(digest.clone(), vec![0; MAX_BLOB_BYTES + 1], &digest, "image/png", 0)
        .is_err());
    store
        .insert(digest.clone(), bytes.clone(), &digest, "image/png", 0)
        .unwrap();
    assert_eq!(
        store.get(&digest, &digest, "image/png", UPLOAD_TTL_MS - 1),
        Some(bytes)
    );
    assert_eq!(store.get(&digest, &digest, "image/png", UPLOAD_TTL_MS), None);
}

#[test]
fn all_uploads_together_are_bounded() {
    let mut store = ClipboardUploadStore::new();
    for index in 0..3_u8 {
        let bytes = vec![index; MAX_BLOB_BYTES];
        let digest = Sha256::digest(&bytes).to_vec();
        store
            .insert(digest.clone(), bytes, &digest, "image/png", 0)
            .unwrap();
    }
    let bytes = vec![9; MAX_BLOB_BYTES];
    let digest = Sha256::digest(&bytes).to_vec();
    assert!(store
        .insert(digest.clone(), bytes, &digest, "image/png", 0)
        .is_err());
}
