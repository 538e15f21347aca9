//! A bounded cache of blobs that devices fetch with single-use tickets.
//!
//! A blob is addressed by the digest of its content and shared by the devices
//! that own it. An outstanding ticket pins its blob; a blob without one leaves
//! after five idle minutes, or earlier when an owner that has already fetched
//! it needs the room.

use vstd::prelude::*;

use crate::keyed::{
    decrement_counter, lemma_distinct_places, lemma_filter_from, lemma_filter_step,
    lemma_sum_at_least, lemma_sum_push, lemma_sum_remove, lemma_sum_update, lemma_sum_zero,
    lemma_take_contains, ByteSet, CounterTable,
};
use crate::outside::{
    buffer_clone, buffer_from, buffer_len, random_bytes, random_u64, sha256_digest,
};
use crate::proto::{copy_bytes, BlobRef, BlobTicket};
use crate::text::{byte_len, bytes_eq, has_control};

verus! {

pub const MAX_CACHED_BLOB_BYTES: usize = 67_108_864;

pub const MAX_CACHED_BLOB_BYTES_PER_DEVICE: usize = 33_554_432;

pub const MAX_CACHED_BLOBS: usize = 4096;

pub const MAX_CACHED_BLOBS_PER_DEVICE: usize = 1024;

pub const MAX_OUTSTANDING_TICKETS: usize = 4096;

pub const MAX_OUTSTANDING_TICKETS_PER_DEVICE: usize = 128;

/// Milliseconds that a blob without a ticket stays after its last use.
pub const BLOB_IDLE_TTL_MS: u64 = 300_000;

/// Milliseconds that a ticket can be redeemed.
pub const TICKET_TTL_MS: u64 = 30_000;

/// The length of the secret of a ticket.
pub const TICKET_SECRET_BYTES: usize = 32;

/// Why no ticket was issued.
#[derive(Debug, Clone, Copy, PartialEq, Eq, Structural)]
pub enum IssueTicketError {
    NotFound,
    ResourceExhausted,
}

/// A cached blob as a mathematical value.
#[verifier::ext_equal]
pub struct BlobView {
    pub id: Seq<u8>,
    pub content: Seq<u8>,
    pub media_type: Seq<char>,
    pub last_access: u64,
    pub owners: Set<Seq<u8>>,
    pub delivered: Set<Seq<u8>>,
}

/// An outstanding ticket as a mathematical value.
#[verifier::ext_equal]
pub struct TicketView {
    pub ticket: Seq<u8>,
    pub transfer_id: u64,
    pub blob_id: Seq<u8>,
    pub owner: Seq<u8>,
    pub expires_at: u64,
}

/// The store as a mathematical value: the blobs in the order in which they
/// came, the outstanding tickets, and when the next sweep is due.
#[verifier::ext_equal]
pub struct StoreView {
    pub blobs: Seq<BlobView>,
    pub tickets: Seq<TicketView>,
    pub next_prune_at: Option<u64>,
}

/// The reference under which a blob is known.
pub open spec fn reference_of(blob: BlobView) -> crate::proto::BlobRefView {
    crate::proto::BlobRefView {
        blob_id: blob.id,
        size: blob.content.len() as u64,
        media_type: blob.media_type,
        sha256: blob.id,
    }
}

/// What one blob counts toward an owner's bytes.
pub open spec fn bytes_owned_by(owner: Seq<u8>) -> spec_fn(BlobView) -> nat {
    |b: BlobView|
        if b.owners.contains(owner) {
            b.content.len()
        } else {
            0
        }
}

/// What one blob counts toward an owner's entries.
pub open spec fn entries_owned_by(owner: Seq<u8>) -> spec_fn(BlobView) -> nat {
    |b: BlobView|
        if b.owners.contains(owner) {
            1
        } else {
            0
        }
}

/// The size of one blob.
pub open spec fn blob_bytes() -> spec_fn(BlobView) -> nat {
    |b: BlobView| b.content.len()
}

pub open spec fn tickets_on(blob_id: Seq<u8>) -> spec_fn(TicketView) -> nat {
    |t: TicketView|
        if t.blob_id == blob_id {
            1
        } else {
            0
        }
}

pub open spec fn tickets_of(owner: Seq<u8>) -> spec_fn(TicketView) -> nat {
    |t: TicketView|
        if t.owner == owner {
            1
        } else {
            0
        }
}

/// The bytes of the blobs that a device owns.
pub open spec fn owned_bytes(blobs: Seq<BlobView>, owner: Seq<u8>) -> nat {
    crate::keyed::sum_by(blobs, bytes_owned_by(owner))
}

/// The number of blobs that a device owns.
pub open spec fn owned_entries(blobs: Seq<BlobView>, owner: Seq<u8>) -> nat {
    crate::keyed::sum_by(blobs, entries_owned_by(owner))
}

/// The bytes of all blobs, each counted once.
pub open spec fn total_bytes(blobs: Seq<BlobView>) -> nat {
    crate::keyed::sum_by(blobs, blob_bytes())
}

/// The number of outstanding tickets for a blob.
pub open spec fn blob_ticket_count(tickets: Seq<TicketView>, blob_id: Seq<u8>) -> nat {
    crate::keyed::sum_by(tickets, tickets_on(blob_id))
}

/// The number of outstanding tickets of a device.
pub open spec fn device_ticket_count(tickets: Seq<TicketView>, owner: Seq<u8>) -> nat {
    crate::keyed::sum_by(tickets, tickets_of(owner))
}

/// An outstanding ticket keeps its blob.
pub open spec fn pinned(tickets: Seq<TicketView>, blob_id: Seq<u8>) -> bool {
    exists|i: int| 0 <= i < tickets.len() && (#[trigger] tickets[i]).blob_id == blob_id
}

/// True when the device can take so many bytes and entries more.
pub open spec fn owner_has_room(
    blobs: Seq<BlobView>,
    owner: Seq<u8>,
    bytes: nat,
    entries: nat,
) -> bool {
    &&& owned_bytes(blobs, owner) + bytes <= MAX_CACHED_BLOB_BYTES_PER_DEVICE
    &&& owned_entries(blobs, owner) + entries <= MAX_CACHED_BLOBS_PER_DEVICE
}

/// The blobs after those from position `k` on that `owner` has already fetched
/// were given up, oldest first, until the owner has the room asked for. A
/// pinned blob stays, and so does one that another device still owns.
pub open spec fn reclaimed(
    blobs: Seq<BlobView>,
    tickets: Seq<TicketView>,
    k: int,
    owner: Seq<u8>,
    bytes: nat,
    entries: nat,
) -> Seq<BlobView>
    decreases blobs.len() - k,
{
    if k < 0 || k >= blobs.len() || owner_has_room(blobs, owner, bytes, entries) {
        blobs
    } else {
        let b = blobs[k];
        if pinned(tickets, b.id) || !b.delivered.contains(owner) {
            reclaimed(blobs, tickets, k + 1, owner, bytes, entries)
        } else if b.owners.remove(owner) =~= Set::empty() {
            reclaimed(blobs.remove(k), tickets, k, owner, bytes, entries)
        } else {
            reclaimed(blobs.update(k, released(b, owner)), tickets, k + 1, owner, bytes, entries)
        }
    }
}

/// The blob without one of its owners.
pub open spec fn released(b: BlobView, owner: Seq<u8>) -> BlobView {
    BlobView { owners: b.owners.remove(owner), delivered: b.delivered.remove(owner), ..b }
}

/// The earlier of two deadlines.
pub open spec fn earlier(a: Option<u64>, b: Option<u64>) -> Option<u64> {
    match (a, b) {
        (None, _) => b,
        (_, None) => a,
        (Some(x), Some(y)) => if x <= y { Some(x) } else { Some(y) },
    }
}

/// The first expiry among the tickets.
pub open spec fn first_expiry(tickets: Seq<TicketView>) -> Option<u64>
    decreases tickets.len(),
{
    if tickets.len() == 0 {
        None
    } else {
        earlier(first_expiry(tickets.drop_last()), Some(tickets.last().expires_at))
    }
}

/// When a blob falls idle, unless it is pinned.
pub open spec fn idle_deadline(b: BlobView, tickets: Seq<TicketView>) -> Option<u64> {
    if pinned(tickets, b.id) {
        None
    } else {
        Some((b.last_access + BLOB_IDLE_TTL_MS) as u64)
    }
}

/// The first moment at which one of the blobs falls idle.
pub open spec fn first_idle(blobs: Seq<BlobView>, tickets: Seq<TicketView>) -> Option<u64>
    decreases blobs.len(),
{
    if blobs.len() == 0 {
        None
    } else {
        earlier(first_idle(blobs.drop_last(), tickets), idle_deadline(blobs.last(), tickets))
    }
}

/// True when a ticket can still be redeemed.
pub open spec fn live_ticket(now: u64) -> spec_fn(TicketView) -> bool {
    |t: TicketView| t.expires_at > now
}

/// True when a sweep keeps the blob.
pub open spec fn live_blob(tickets: Seq<TicketView>, now: u64) -> spec_fn(BlobView) -> bool {
    |b: BlobView| pinned(tickets, b.id) || now - b.last_access < BLOB_IDLE_TTL_MS
}

/// The store after the sweep that is due at `now`, if one is: expired tickets
/// are gone, then unpinned blobs that have been idle too long.
pub open spec fn pruned(s: StoreView, now: u64) -> StoreView {
    match s.next_prune_at {
        None => s,
        Some(deadline) => if now < deadline {
            s
        } else {
            let tickets = s.tickets.filter(live_ticket(now));
            let blobs = s.blobs.filter(live_blob(tickets, now));
            StoreView {
                blobs,
                tickets,
                next_prune_at: earlier(first_expiry(tickets), first_idle(blobs, tickets)),
            }
        },
    }
}

/// True when a blob with this id is cached.
pub open spec fn cached(blobs: Seq<BlobView>, id: Seq<u8>) -> bool {
    exists|i: int| 0 <= i < blobs.len() && (#[trigger] blobs[i]).id == id
}

/// Where the blob with this id stands.
pub open spec fn place(blobs: Seq<BlobView>, id: Seq<u8>) -> int {
    choose|i: int| 0 <= i < blobs.len() && (#[trigger] blobs[i]).id == id
}

/// The store with one blob replaced.
pub open spec fn with_blob(s: StoreView, i: int, b: BlobView) -> StoreView {
    StoreView { blobs: s.blobs.update(i, b), ..s }
}

/// What a blob must be for the store to take it.
pub open spec fn acceptable(owner: Seq<u8>, content: Seq<u8>, media_type: Seq<char>) -> bool {
    &&& 0 < owner.len() <= 128
    &&& 0 < content.len() <= MAX_CACHED_BLOB_BYTES
    &&& 0 < crate::text::utf8_len(media_type) <= 256
    &&& crate::text::control_free(media_type)
}

/// True when the store as a whole can take so many bytes in one more blob.
pub open spec fn store_has_room(blobs: Seq<BlobView>, bytes: nat) -> bool {
    blobs.len() < MAX_CACHED_BLOBS && total_bytes(blobs) + bytes <= MAX_CACHED_BLOB_BYTES
}

/// The store after `owner` has offered a blob, and the reference handed back.
pub open spec fn inserted(
    s: StoreView,
    owner: Seq<u8>,
    content: Seq<u8>,
    media_type: Seq<char>,
    now: u64,
) -> (StoreView, Option<crate::proto::BlobRefView>) {
    if !acceptable(owner, content, media_type) {
        (s, None)
    } else {
        let p = pruned(s, now);
        let id = crate::outside::sha256(content);
        let i = place(p.blobs, id);
        if cached(p.blobs, id) && p.blobs[i].owners.contains(owner) {
            (
                with_blob(p, i, BlobView { last_access: now, ..p.blobs[i] }),
                Some(reference_of(p.blobs[i])),
            )
        } else {
            let needed = if cached(p.blobs, id) {
                p.blobs[i].content.len()
            } else {
                content.len()
            };
            let q = StoreView {
                blobs: reclaimed(p.blobs, p.tickets, 0, owner, needed, 1),
                ..p
            };
            if !owner_has_room(q.blobs, owner, needed, 1) {
                (q, None)
            } else if cached(p.blobs, id) {
                let j = place(q.blobs, id);
                let b = q.blobs[j];
                (
                    with_blob(
                        q,
                        j,
                        BlobView { last_access: now, owners: b.owners.insert(owner), ..b },
                    ),
                    Some(reference_of(b)),
                )
            } else if !store_has_room(q.blobs, content.len()) {
                (q, None)
            } else {
                let b = BlobView {
                    id,
                    content,
                    media_type,
                    last_access: now,
                    owners: set![owner],
                    delivered: Set::empty(),
                };
                (
                    StoreView {
                        blobs: q.blobs.push(b),
                        next_prune_at: earlier(
                            q.next_prune_at,
                            Some((now + BLOB_IDLE_TTL_MS) as u64),
                        ),
                        ..q
                    },
                    Some(reference_of(b)),
                )
            }
        }
    }
}

/// An optional reference as a mathematical value.
pub open spec fn reference_view(r: Option<BlobRef>) -> Option<crate::proto::BlobRefView> {
    match r {
        Some(reference) => Some(reference@),
        None => None,
    }
}

/// The store with the blob's time of last use moved to `now`.
pub open spec fn touched(s: StoreView, id: Seq<u8>, now: u64) -> StoreView {
    let i = place(s.blobs, id);
    with_blob(s, i, BlobView { last_access: now, ..s.blobs[i] })
}

/// True when no further ticket can be issued to the device.
pub open spec fn ticket_limit_reached(s: StoreView, owner: Seq<u8>) -> bool {
    s.tickets.len() >= MAX_OUTSTANDING_TICKETS || device_ticket_count(s.tickets, owner)
        >= MAX_OUTSTANDING_TICKETS_PER_DEVICE
}

/// The store with one more outstanding ticket.
pub open spec fn ticketed(s: StoreView, t: TicketView) -> StoreView {
    StoreView {
        tickets: s.tickets.push(t),
        next_prune_at: earlier(s.next_prune_at, Some(t.expires_at)),
        ..s
    }
}

/// True when no outstanding ticket has this transfer id or this secret.
pub open spec fn fresh(tickets: Seq<TicketView>, transfer_id: u64, ticket: Seq<u8>) -> bool {
    forall|i: int|
        0 <= i < tickets.len() ==> (#[trigger] tickets[i]).transfer_id != transfer_id
            && tickets[i].ticket != ticket
}

/// The ticket that a request made at `now` gets.
pub open spec fn new_ticket(
    owner: Seq<u8>,
    blob_id: Seq<u8>,
    transfer_id: u64,
    ticket: Seq<u8>,
    now: u64,
) -> TicketView {
    TicketView {
        ticket,
        transfer_id,
        blob_id,
        owner,
        expires_at: (now + TICKET_TTL_MS) as u64,
    }
}

/// True when `r` answers the wish for a ticket, and `after` is the store that
/// this leaves of `before`.
pub open spec fn issues(
    r: Result<BlobTicket, IssueTicketError>,
    before: StoreView,
    after: StoreView,
    owner: Seq<u8>,
    blob_id: Seq<u8>,
    chunk_size: u32,
    now: u64,
    wall_ms: i64,
) -> bool {
    let p = pruned(before, now);
    if !holds(p.blobs, blob_id, owner) {
        r == Err::<BlobTicket, _>(IssueTicketError::NotFound) && after == p
    } else if ticket_limit_reached(p, owner) {
        r == Err::<BlobTicket, _>(IssueTicketError::ResourceExhausted) && after == touched(
            p,
            blob_id,
            now,
        )
    } else {
        &&& r is Ok
        &&& 0 < r->Ok_0.transfer_id <= i64::MAX
        &&& r->Ok_0.ticket@.len() == TICKET_SECRET_BYTES
        &&& fresh(p.tickets, r->Ok_0.transfer_id, r->Ok_0.ticket@)
        &&& reference_view(r->Ok_0.blob) == Some(reference_of(p.blobs[place(p.blobs, blob_id)]))
        &&& r->Ok_0.chunk_size == chunk_size
        &&& r->Ok_0.expires_at_ms == wall_ms + TICKET_TTL_MS
        &&& after == ticketed(
            touched(p, blob_id, now),
            new_ticket(owner, blob_id, r->Ok_0.transfer_id, r->Ok_0.ticket@, now),
        )
    }
}

/// A secret with a number in place of its first two bytes.
pub open spec fn numbered_secret(base: Seq<u8>, number: int) -> Seq<u8> {
    base.update(0, (number / 256) as u8).update(1, (number % 256) as u8)
}

proof fn lemma_numbered_secrets(base: Seq<u8>, a: int, b: int)
    requires
        base.len() == TICKET_SECRET_BYTES,
        0 <= a < b <= MAX_OUTSTANDING_TICKETS,
    ensures
        numbered_secret(base, a) != numbered_secret(base, b),
{
    let x = numbered_secret(base, a);
    let y = numbered_secret(base, b);
    if x == y {
        assert(x[0] == y[0] && x[1] == y[1]);
        assert(a / 256 == b / 256 && a % 256 == b % 256);
    }
}

/// True when a ticket with this secret is outstanding.
pub open spec fn outstanding(tickets: Seq<TicketView>, ticket: Seq<u8>) -> bool {
    exists|i: int| 0 <= i < tickets.len() && (#[trigger] tickets[i]).ticket == ticket
}

/// Where the ticket with this secret stands.
pub open spec fn ticket_place(tickets: Seq<TicketView>, ticket: Seq<u8>) -> int {
    choose|i: int| 0 <= i < tickets.len() && (#[trigger] tickets[i]).ticket == ticket
}

/// The store after an attempt to redeem a ticket, and the blob handed out or
/// the reason why there is none. A failed attempt consumes nothing.
pub open spec fn redeemed(
    s: StoreView,
    owner: Seq<u8>,
    transfer_id: u64,
    ticket: Seq<u8>,
    now: u64,
) -> (StoreView, Result<BlobView, Seq<char>>) {
    let p = pruned(s, now);
    let t = p.tickets[ticket_place(p.tickets, ticket)];
    if !outstanding(p.tickets, ticket) {
        (p, Err("blob ticket is invalid or expired"@))
    } else if t.transfer_id != transfer_id {
        (p, Err("blob transfer id does not match ticket"@))
    } else if t.owner != owner {
        (p, Err("blob ticket belongs to another device"@))
    } else {
        let i = place(p.blobs, t.blob_id);
        let b = p.blobs[i];
        (
            StoreView {
                blobs: p.blobs.update(
                    i,
                    BlobView { last_access: now, delivered: b.delivered.insert(owner), ..b },
                ),
                tickets: p.tickets.remove(ticket_place(p.tickets, ticket)),
                ..p
            },
            Ok(b),
        )
    }
}

/// What holds of every store: ids and tickets are distinct, blobs and tickets
/// are sound, the limits are kept, and the next sweep comes no later than the
/// first ticket expires.
pub open spec fn valid(s: StoreView) -> bool {
    &&& sound(s.blobs, s.tickets)
    &&& forall|i: int|
        0 <= i < s.tickets.len() ==> s.next_prune_at is Some && s.next_prune_at->0 <= (
        #[trigger] s.tickets[i]).expires_at
}

/// What holds of the blobs and the tickets of every store.
pub open spec fn sound(blobs: Seq<BlobView>, tickets: Seq<TicketView>) -> bool {
    &&& distinct_blobs(blobs)
    &&& forall|i: int| 0 <= i < blobs.len() ==> valid_blob(#[trigger] blobs[i])
    &&& distinct_tickets(tickets)
    &&& forall|i: int| 0 <= i < tickets.len() ==> valid_ticket(#[trigger] tickets[i], blobs)
    &&& blobs.len() <= MAX_CACHED_BLOBS
    &&& total_bytes(blobs) <= MAX_CACHED_BLOB_BYTES
    &&& tickets.len() <= MAX_OUTSTANDING_TICKETS
    &&& forall|o: Seq<u8>| #[trigger] owned_bytes(blobs, o) <= MAX_CACHED_BLOB_BYTES_PER_DEVICE
    &&& forall|o: Seq<u8>| #[trigger] owned_entries(blobs, o) <= MAX_CACHED_BLOBS_PER_DEVICE
    &&& forall|o: Seq<u8>| #[trigger]
        device_ticket_count(tickets, o) <= MAX_OUTSTANDING_TICKETS_PER_DEVICE
}

/// No two blobs have one id.
pub open spec fn distinct_blobs(blobs: Seq<BlobView>) -> bool {
    forall|i: int, j: int|
        0 <= i < blobs.len() && 0 <= j < blobs.len() && i != j ==> (#[trigger] blobs[i]).id != (
        #[trigger] blobs[j]).id
}

/// No two tickets have one secret or one transfer id.
pub open spec fn distinct_tickets(tickets: Seq<TicketView>) -> bool {
    forall|i: int, j: int|
        0 <= i < tickets.len() && 0 <= j < tickets.len() && i != j ==> (
        #[trigger] tickets[i]).ticket != (#[trigger] tickets[j]).ticket && tickets[i].transfer_id
            != tickets[j].transfer_id
}

/// A blob is named by its digest, is not empty, has an owner, and was delivered
/// to owners only.
pub open spec fn valid_blob(b: BlobView) -> bool {
    &&& b.id == crate::outside::sha256(b.content)
    &&& b.content.len() > 0
    &&& b.last_access + BLOB_IDLE_TTL_MS <= u64::MAX
    &&& b.delivered.subset_of(b.owners)
    &&& b.owners != Set::<Seq<u8>>::empty()
}

/// True when a blob with this id is cached and `owner` is one of its owners.
pub open spec fn holds(blobs: Seq<BlobView>, id: Seq<u8>, owner: Seq<u8>) -> bool {
    exists|i: int|
        0 <= i < blobs.len() && (#[trigger] blobs[i]).id == id && blobs[i].owners.contains(owner)
}

/// A ticket is for a cached blob, of an owner of it.
pub open spec fn valid_ticket(t: TicketView, blobs: Seq<BlobView>) -> bool {
    t.transfer_id != 0 && holds(blobs, t.blob_id, t.owner)
}

/// With distinct ids a blob stands in one place only.
pub proof fn lemma_place(blobs: Seq<BlobView>, i: int)
    requires
        distinct_blobs(blobs),
        0 <= i < blobs.len(),
    ensures
        cached(blobs, blobs[i].id),
        place(blobs, blobs[i].id) == i,
{
}

proof fn lemma_pinned_count(tickets: Seq<TicketView>, id: Seq<u8>)
    ensures
        pinned(tickets, id) <==> blob_ticket_count(tickets, id) > 0,
{
    lemma_sum_zero(tickets, tickets_on(id));
    if pinned(tickets, id) {
        let i = choose|i: int| 0 <= i < tickets.len() && (#[trigger] tickets[i]).blob_id == id;
        assert(tickets_on(id)(tickets[i]) == 1);
    }
}

proof fn lemma_remove_ticket_sound(blobs: Seq<BlobView>, tickets: Seq<TicketView>, i: int)
    requires
        sound(blobs, tickets),
        0 <= i < tickets.len(),
    ensures
        sound(blobs, tickets.remove(i)),
{
    let after = tickets.remove(i);
    assert forall|o: Seq<u8>| #[trigger]
        device_ticket_count(after, o) <= MAX_OUTSTANDING_TICKETS_PER_DEVICE by {
        assert(device_ticket_count(tickets, o) <= MAX_OUTSTANDING_TICKETS_PER_DEVICE);
        lemma_sum_remove(tickets, i, tickets_of(o));
    }
    assert forall|j: int| 0 <= j < after.len() implies valid_ticket(#[trigger] after[j], blobs) by {
        if j < i {
            assert(after[j] == tickets[j]);
        } else {
            assert(after[j] == tickets[j + 1]);
        }
    }
}

proof fn lemma_remove_blob_sound(blobs: Seq<BlobView>, tickets: Seq<TicketView>, i: int)
    requires
        sound(blobs, tickets),
        0 <= i < blobs.len(),
        !pinned(tickets, blobs[i].id),
    ensures
        sound(blobs.remove(i), tickets),
{
    let after = blobs.remove(i);
    lemma_sum_remove(blobs, i, blob_bytes());
    assert forall|o: Seq<u8>| #[trigger]
        owned_bytes(after, o) <= MAX_CACHED_BLOB_BYTES_PER_DEVICE by {
        assert(owned_bytes(blobs, o) <= MAX_CACHED_BLOB_BYTES_PER_DEVICE);
        lemma_sum_remove(blobs, i, bytes_owned_by(o));
    }
    assert forall|o: Seq<u8>| #[trigger] owned_entries(after, o) <= MAX_CACHED_BLOBS_PER_DEVICE by {
        assert(owned_entries(blobs, o) <= MAX_CACHED_BLOBS_PER_DEVICE);
        lemma_sum_remove(blobs, i, entries_owned_by(o));
    }
    assert forall|j: int| 0 <= j < tickets.len() implies valid_ticket(
        #[trigger] tickets[j],
        after,
    ) by {
        let t = tickets[j];
        assert(valid_ticket(t, blobs));
        let k = choose|k: int|
            0 <= k < blobs.len() && (#[trigger] blobs[k]).id == t.blob_id
                && blobs[k].owners.contains(t.owner);
        if k < i {
            assert(after[k] == blobs[k]);
        } else {
            assert(k != i);
            assert(after[k - 1] == blobs[k]);
        }
    }
    assert forall|j: int| 0 <= j < after.len() implies valid_blob(#[trigger] after[j]) by {
        if j < i {
            assert(after[j] == blobs[j]);
        } else {
            assert(after[j] == blobs[j + 1]);
        }
    }
}

/// Replacing a blob by one with the same id and content, with owners that leave
/// every ticket valid and every device within its limits, keeps the store
/// sound.
proof fn lemma_update_blob_sound(
    blobs: Seq<BlobView>,
    tickets: Seq<TicketView>,
    i: int,
    b: BlobView,
)
    requires
        sound(blobs, tickets),
        0 <= i < blobs.len(),
        valid_blob(b),
        b.id == blobs[i].id,
        b.content == blobs[i].content,
        blobs[i].owners.subset_of(b.owners) || !pinned(tickets, b.id),
        forall|o: Seq<u8>|
            b.owners.contains(o) && !blobs[i].owners.contains(o) ==> owner_has_room(
                blobs,
                o,
                b.content.len(),
                1,
            ),
    ensures
        sound(blobs.update(i, b), tickets),
{
    let after = blobs.update(i, b);
    lemma_sum_update(blobs, i, b, blob_bytes());
    assert forall|o: Seq<u8>| #[trigger]
        owned_bytes(after, o) <= MAX_CACHED_BLOB_BYTES_PER_DEVICE by {
        assert(owned_bytes(blobs, o) <= MAX_CACHED_BLOB_BYTES_PER_DEVICE);
        lemma_sum_update(blobs, i, b, bytes_owned_by(o));
    }
    assert forall|o: Seq<u8>| #[trigger] owned_entries(after, o) <= MAX_CACHED_BLOBS_PER_DEVICE by {
        assert(owned_entries(blobs, o) <= MAX_CACHED_BLOBS_PER_DEVICE);
        lemma_sum_update(blobs, i, b, entries_owned_by(o));
        lemma_sum_update(blobs, i, b, bytes_owned_by(o));
    }
    assert forall|j: int| 0 <= j < tickets.len() implies valid_ticket(
        #[trigger] tickets[j],
        after,
    ) by {
        let t = tickets[j];
        assert(valid_ticket(t, blobs));
        let k = choose|k: int|
            0 <= k < blobs.len() && (#[trigger] blobs[k]).id == t.blob_id
                && blobs[k].owners.contains(t.owner);
        assert(after[k].id == t.blob_id);
    }
    assert forall|j: int, k: int|
        0 <= j < after.len() && 0 <= k < after.len() && j != k implies (#[trigger] after[j]).id != (
    #[trigger] after[k]).id by {
        assert(blobs[j].id != blobs[k].id);
    }
}

/// The next ticket expiry is no later than any.
proof fn lemma_first_expiry(tickets: Seq<TicketView>)
    ensures
        forall|i: int|
            0 <= i < tickets.len() ==> first_expiry(tickets) is Some && first_expiry(tickets)->0 <= (
            #[trigger] tickets[i]).expires_at,
    decreases tickets.len(),
{
    if tickets.len() > 0 {
        lemma_first_expiry(tickets.drop_last());
        assert forall|i: int| 0 <= i < tickets.len() implies first_expiry(tickets) is Some
            && first_expiry(tickets)->0 <= (#[trigger] tickets[i]).expires_at by {
            if i < tickets.len() - 1 {
                assert(tickets.drop_last()[i] == tickets[i]);
            }
        }
    }
}

/// Giving up fetched blobs neither adds a blob nor touches one that the device
/// does not own.
proof fn lemma_reclaimed_ids(
    blobs: Seq<BlobView>,
    tickets: Seq<TicketView>,
    k: int,
    owner: Seq<u8>,
    bytes: nat,
    entries: nat,
    id: Seq<u8>,
    c: BlobView,
)
    requires
        forall|i: int| 0 <= i < blobs.len() ==> (#[trigger] blobs[i]).delivered.subset_of(blobs[i].owners),
    ensures
        !cached(blobs, id) ==> !cached(reclaimed(blobs, tickets, k, owner, bytes, entries), id),
        blobs.contains(c) && !c.owners.contains(owner) ==> reclaimed(
            blobs,
            tickets,
            k,
            owner,
            bytes,
            entries,
        ).contains(c),
    decreases blobs.len() - k,
{
    if k < 0 || k >= blobs.len() || owner_has_room(blobs, owner, bytes, entries) {
    } else {
        let b = blobs[k];
        if pinned(tickets, b.id) || !b.delivered.contains(owner) {
            lemma_reclaimed_ids(blobs, tickets, k + 1, owner, bytes, entries, id, c);
        } else if b.owners.remove(owner) =~= Set::empty() {
            let next = blobs.remove(k);
            lemma_reclaimed_ids(next, tickets, k, owner, bytes, entries, id, c);
            if cached(next, id) {
                let m = choose|m: int| 0 <= m < next.len() && (#[trigger] next[m]).id == id;
                let n = if m < k {
                    m
                } else {
                    m + 1
                };
                assert(blobs[n].id == id);
            }
            if blobs.contains(c) && !c.owners.contains(owner) {
                let m = choose|m: int| 0 <= m < blobs.len() && blobs[m] == c;
                assert(m != k);
                if m < k {
                    assert(next[m] == c);
                } else {
                    assert(next[m - 1] == c);
                }
            }
        } else {
            let next = blobs.update(k, released(b, owner));
            assert forall|i: int| 0 <= i < next.len() implies (#[trigger] next[i]).delivered.subset_of(next[i].owners) by {
                if i != k {
                    assert(next[i] == blobs[i]);
                }
            }
            lemma_reclaimed_ids(next, tickets, k + 1, owner, bytes, entries, id, c);
            if cached(next, id) {
                let m = choose|m: int| 0 <= m < next.len() && (#[trigger] next[m]).id == id;
                assert(blobs[m].id == id);
            }
            if blobs.contains(c) && !c.owners.contains(owner) {
                let m = choose|m: int| 0 <= m < blobs.len() && blobs[m] == c;
                assert(m != k);
                assert(next[m] == c);
            }
        }
    }
}

proof fn lemma_push_blob_sound(blobs: Seq<BlobView>, tickets: Seq<TicketView>, b: BlobView, owner: Seq<u8>)
    requires
        sound(blobs, tickets),
        valid_blob(b),
        !cached(blobs, b.id),
        b.owners == set![owner],
        owner_has_room(blobs, owner, b.content.len(), 1),
        store_has_room(blobs, b.content.len()),
    ensures
        sound(blobs.push(b), tickets),
{
    let after = blobs.push(b);
    lemma_sum_push(blobs, b, blob_bytes());
    assert forall|o: Seq<u8>| #[trigger]
        owned_bytes(after, o) <= MAX_CACHED_BLOB_BYTES_PER_DEVICE by {
        assert(owned_bytes(blobs, o) <= MAX_CACHED_BLOB_BYTES_PER_DEVICE);
        lemma_sum_push(blobs, b, bytes_owned_by(o));
    }
    assert forall|o: Seq<u8>| #[trigger] owned_entries(after, o) <= MAX_CACHED_BLOBS_PER_DEVICE by {
        assert(owned_entries(blobs, o) <= MAX_CACHED_BLOBS_PER_DEVICE);
        lemma_sum_push(blobs, b, entries_owned_by(o));
    }
    assert forall|j: int| 0 <= j < tickets.len() implies valid_ticket(
        #[trigger] tickets[j],
        after,
    ) by {
        let t = tickets[j];
        assert(valid_ticket(t, blobs));
        let k = choose|k: int|
            0 <= k < blobs.len() && (#[trigger] blobs[k]).id == t.blob_id
                && blobs[k].owners.contains(t.owner);
        assert(after[k] == blobs[k]);
    }
    assert forall|j: int, k: int|
        0 <= j < after.len() && 0 <= k < after.len() && j != k implies (#[trigger] after[j]).id != (
    #[trigger] after[k]).id by {
        if j < blobs.len() && k < blobs.len() {
            assert(blobs[j].id != blobs[k].id);
        } else if j < blobs.len() {
            assert(blobs[j].id != b.id);
        } else if k < blobs.len() {
            assert(blobs[k].id != b.id);
        }
    }
}

/// A blob has no more tickets than there are.
proof fn lemma_count_bound(tickets: Seq<TicketView>, id: Seq<u8>)
    ensures
        blob_ticket_count(tickets, id) <= tickets.len(),
    decreases tickets.len(),
{
    if tickets.len() > 0 {
        lemma_count_bound(tickets.drop_last(), id);
    }
}

proof fn lemma_push_ticket_valid(s: StoreView, t: TicketView)
    requires
        valid(s),
        valid_ticket(t, s.blobs),
        fresh(s.tickets, t.transfer_id, t.ticket),
        !ticket_limit_reached(s, t.owner),
    ensures
        valid(ticketed(s, t)),
{
    let after = s.tickets.push(t);
    assert forall|o: Seq<u8>| #[trigger]
        device_ticket_count(after, o) <= MAX_OUTSTANDING_TICKETS_PER_DEVICE by {
        assert(device_ticket_count(s.tickets, o) <= MAX_OUTSTANDING_TICKETS_PER_DEVICE);
        lemma_sum_push(s.tickets, t, tickets_of(o));
    }
    assert forall|j: int| 0 <= j < after.len() implies valid_ticket(
        #[trigger] after[j],
        s.blobs,
    ) by {
        if j < s.tickets.len() {
            assert(after[j] == s.tickets[j]);
        }
    }
    assert forall|j: int, k: int|
        0 <= j < after.len() && 0 <= k < after.len() && j != k implies (
    #[trigger] after[j]).ticket != (#[trigger] after[k]).ticket && after[j].transfer_id
        != after[k].transfer_id by {
        if j < s.tickets.len() && k < s.tickets.len() {
            assert(s.tickets[j].ticket != s.tickets[k].ticket);
        } else if j < s.tickets.len() {
            assert(s.tickets[j].ticket != t.ticket);
        } else if k < s.tickets.len() {
            assert(s.tickets[k].ticket != t.ticket);
        }
    }
    assert forall|j: int| 0 <= j < after.len() implies ticketed(s, t).next_prune_at is Some
        && ticketed(s, t).next_prune_at->0 <= (#[trigger] after[j]).expires_at by {
        if j < s.tickets.len() {
            assert(after[j] == s.tickets[j]);
        }
    }
}

/// A sweep leaves no ticket that was not there.
proof fn lemma_pruned_tickets(s: StoreView, now: u64)
    ensures
        forall|i: int|
            0 <= i < pruned(s, now).tickets.len() ==> s.tickets.contains(
                #[trigger] pruned(s, now).tickets[i],
            ),
{
    lemma_filter_from(s.tickets, live_ticket(now));
}

proof fn lemma_touched_holds(s: StoreView, id: Seq<u8>, now: u64, owner: Seq<u8>)
    requires
        holds(s.blobs, id, owner),
        distinct_blobs(s.blobs),
    ensures
        holds(touched(s, id, now).blobs, id, owner),
        touched(s, id, now).tickets == s.tickets,
{
    let k = choose|k: int|
        0 <= k < s.blobs.len() && (#[trigger] s.blobs[k]).id == id && s.blobs[k].owners.contains(
            owner,
        );
    lemma_place(s.blobs, k);
    assert(touched(s, id, now).blobs[k].id == id);
}

proof fn lemma_filter_tickets_sound(
    blobs: Seq<BlobView>,
    tickets: Seq<TicketView>,
    keep: spec_fn(TicketView) -> bool,
    j: int,
)
    requires
        sound(blobs, tickets),
        0 <= j <= tickets.len(),
    ensures
        sound(blobs, tickets.take(j).filter(keep) + tickets.skip(j)),
    decreases j,
{
    if j == 0 {
        reveal(Seq::filter);
        assert(tickets.take(0).filter(keep) + tickets.skip(0) =~= tickets);
    } else {
        lemma_filter_tickets_sound(blobs, tickets, keep, j - 1);
        lemma_filter_step(tickets, j - 1, keep);
        let kept = tickets.take(j - 1).filter(keep);
        let cur = kept + tickets.skip(j - 1);
        if keep(tickets[j - 1]) {
            assert(kept.push(tickets[j - 1]) + tickets.skip(j) =~= cur);
        } else {
            lemma_remove_ticket_sound(blobs, cur, kept.len() as int);
            assert(cur.remove(kept.len() as int) =~= kept + tickets.skip(j));
        }
    }
}

proof fn lemma_filter_blobs_sound(
    blobs: Seq<BlobView>,
    tickets: Seq<TicketView>,
    now: u64,
    j: int,
)
    requires
        sound(blobs, tickets),
        0 <= j <= blobs.len(),
    ensures
        sound(blobs.take(j).filter(live_blob(tickets, now)) + blobs.skip(j), tickets),
    decreases j,
{
    let keep = live_blob(tickets, now);
    if j == 0 {
        reveal(Seq::filter);
        assert(blobs.take(0).filter(keep) + blobs.skip(0) =~= blobs);
    } else {
        lemma_filter_blobs_sound(blobs, tickets, now, j - 1);
        lemma_filter_step(blobs, j - 1, keep);
        let kept = blobs.take(j - 1).filter(keep);
        let cur = kept + blobs.skip(j - 1);
        if keep(blobs[j - 1]) {
            assert(kept.push(blobs[j - 1]) + blobs.skip(j) =~= cur);
        } else {
            assert(cur[kept.len() as int] == blobs[j - 1]);
            lemma_remove_blob_sound(cur, tickets, kept.len() as int);
            assert(cur.remove(kept.len() as int) =~= kept + blobs.skip(j));
        }
    }
}

/// A sweep keeps the store valid, and afterwards no outstanding ticket has
/// expired.
pub proof fn lemma_pruned_valid(s: StoreView, now: u64)
    requires
        valid(s),
    ensures
        valid(pruned(s, now)),
        forall|i: int|
            0 <= i < pruned(s, now).tickets.len() ==> (
            #[trigger] pruned(s, now).tickets[i]).expires_at > now,
{
    if s.next_prune_at is Some && now >= s.next_prune_at->0 {
        let tickets = s.tickets.filter(live_ticket(now));
        let keep = live_blob(tickets, now);
        let n = s.tickets.len() as int;
        let m = s.blobs.len() as int;
        lemma_filter_tickets_sound(s.blobs, s.tickets, live_ticket(now), n);
        assert(s.tickets.take(n) =~= s.tickets);
        assert(tickets + s.tickets.skip(n) =~= tickets);
        lemma_filter_blobs_sound(s.blobs, tickets, now, m);
        assert(s.blobs.take(m) =~= s.blobs);
        assert(s.blobs.filter(keep) + s.blobs.skip(m) =~= s.blobs.filter(keep));
        lemma_first_expiry(tickets);
        lemma_filter_from(s.tickets, live_ticket(now));
    }
}

/// A ticket can be redeemed once: whatever comes next, its secret is not
/// outstanding any more.
pub proof fn lemma_ticket_single_use(
    s: StoreView,
    owner: Seq<u8>,
    transfer_id: u64,
    ticket: Seq<u8>,
    now: u64,
    other: Seq<u8>,
    other_id: u64,
    later: u64,
)
    requires
        valid(s),
        redeemed(s, owner, transfer_id, ticket, now).1 is Ok,
    ensures
        redeemed(
            redeemed(s, owner, transfer_id, ticket, now).0,
            other,
            other_id,
            ticket,
            later,
        ).1 == Err::<BlobView, _>("blob ticket is invalid or expired"@),
{
    let p = pruned(s, now);
    lemma_pruned_valid(s, now);
    let i = ticket_place(p.tickets, ticket);
    let after = redeemed(s, owner, transfer_id, ticket, now).0;
    assert forall|k: int| 0 <= k < after.tickets.len() implies (
    #[trigger] after.tickets[k]).ticket != ticket by {
        if k < i {
            assert(after.tickets[k] == p.tickets[k]);
        } else {
            assert(after.tickets[k] == p.tickets[k + 1]);
        }
    }
    lemma_pruned_tickets(after, later);
    let q = pruned(after, later);
    if outstanding(q.tickets, ticket) {
        let k = choose|k: int| 0 <= k < q.tickets.len() && (#[trigger] q.tickets[k]).ticket == ticket;
        assert(after.tickets.contains(q.tickets[k]));
    }
}

/// An attempt with the wrong transfer id or by another device consumes nothing:
/// the rightful attempt after it fares as it would have without it.
pub proof fn lemma_failed_redeem_consumes_nothing(
    s: StoreView,
    owner: Seq<u8>,
    transfer_id: u64,
    ticket: Seq<u8>,
    now: u64,
)
    requires
        redeemed(s, owner, transfer_id, ticket, now).1 is Err,
    ensures
        redeemed(s, owner, transfer_id, ticket, now).0 == pruned(s, now),
{
}

/// What a ticket hands out is a blob that the device owns and that the ticket
/// was issued for, addressed by the digest of its content; a ticket whose time
/// is up hands out nothing.
pub proof fn lemma_redeemed_blob(
    s: StoreView,
    owner: Seq<u8>,
    transfer_id: u64,
    ticket: Seq<u8>,
    now: u64,
)
    requires
        valid(s),
        redeemed(s, owner, transfer_id, ticket, now).1 is Ok,
    ensures
        ({
            let b = redeemed(s, owner, transfer_id, ticket, now).1->Ok_0;
            &&& b.id == crate::outside::sha256(b.content)
            &&& b.owners.contains(owner)
            &&& exists|i: int|
                0 <= i < s.tickets.len() && (#[trigger] s.tickets[i]).ticket == ticket
                    && s.tickets[i].transfer_id == transfer_id && s.tickets[i].owner == owner
                    && s.tickets[i].blob_id == b.id && s.tickets[i].expires_at > now
        }),
{
    let p = pruned(s, now);
    lemma_pruned_valid(s, now);
    lemma_pruned_tickets(s, now);
    let t = p.tickets[ticket_place(p.tickets, ticket)];
    assert(valid_ticket(t, p.blobs));
    let k = choose|k: int|
        0 <= k < p.blobs.len() && (#[trigger] p.blobs[k]).id == t.blob_id
            && p.blobs[k].owners.contains(t.owner);
    lemma_place(p.blobs, k);
    assert(valid_blob(p.blobs[k]));
    assert(s.tickets.contains(t));
    let m = choose|m: int| 0 <= m < s.tickets.len() && s.tickets[m] == t;
    assert(s.tickets[m].ticket == ticket);
}

/// A device whose blob was accepted owns a blob under the reference it got, used
/// just now.
pub proof fn lemma_inserted_is_held(
    s: StoreView,
    owner: Seq<u8>,
    content: Seq<u8>,
    media_type: Seq<char>,
    now: u64,
)
    requires
        valid(s),
        inserted(s, owner, content, media_type, now).1 is Some,
    ensures
        inserted(s, owner, content, media_type, now).1->0.blob_id == crate::outside::sha256(content),
        holds(
            inserted(s, owner, content, media_type, now).0.blobs,
            inserted(s, owner, content, media_type, now).1->0.blob_id,
            owner,
        ),
        exists|k: int|
            0 <= k < inserted(s, owner, content, media_type, now).0.blobs.len() && ({
                let b = #[trigger] inserted(s, owner, content, media_type, now).0.blobs[k];
                &&& b.id == crate::outside::sha256(content)
                &&& b.owners.contains(owner)
                &&& b.last_access == now
            }),
{
    let p = pruned(s, now);
    lemma_pruned_valid(s, now);
    let id = crate::outside::sha256(content);
    let i = place(p.blobs, id);
    let out = inserted(s, owner, content, media_type, now);
    if cached(p.blobs, id) && p.blobs[i].owners.contains(owner) {
        assert(out.0.blobs[i].id == id);
    } else {
        let needed = if cached(p.blobs, id) {
            p.blobs[i].content.len()
        } else {
            content.len()
        };
        let q = reclaimed(p.blobs, p.tickets, 0, owner, needed, 1);
        if cached(p.blobs, id) {
            assert forall|k: int| 0 <= k < p.blobs.len() implies (
            #[trigger] p.blobs[k]).delivered.subset_of(p.blobs[k].owners) by {
                assert(valid_blob(p.blobs[k]));
            }
            lemma_reclaimed_ids(p.blobs, p.tickets, 0, owner, needed, 1, id, p.blobs[i]);
            assert(p.blobs.contains(p.blobs[i]));
            let m = choose|m: int| 0 <= m < q.len() && q[m] == p.blobs[i];
            assert(q[m].id == id);
            let j = place(q, id);
            assert(out.0.blobs[j].id == id);
        } else {
            assert(out.0.blobs[q.len() as int].id == id);
        }
    }
}

/// A device whose blob was accepted gets a ticket for it until the blob falls
/// idle, unless a ticket limit is reached; so does the second owner of a blob that
/// two devices share.
pub proof fn lemma_owner_gets_a_ticket(
    s: StoreView,
    owner: Seq<u8>,
    content: Seq<u8>,
    media_type: Seq<char>,
    now: u64,
    r: Result<BlobTicket, IssueTicketError>,
    after: StoreView,
    chunk_size: u32,
    later: u64,
    wall_ms: i64,
)
    requires
        valid(s),
        inserted(s, owner, content, media_type, now).1 is Some,
        now <= later < now + BLOB_IDLE_TTL_MS,
        !ticket_limit_reached(
            pruned(inserted(s, owner, content, media_type, now).0, later),
            owner,
        ),
        issues(
            r,
            inserted(s, owner, content, media_type, now).0,
            after,
            owner,
            inserted(s, owner, content, media_type, now).1->0.blob_id,
            chunk_size,
            later,
            wall_ms,
        ),
    ensures
        r is Ok,
{
    broadcast use vstd::seq_lib::group_filter_ensures;

    let out = inserted(s, owner, content, media_type, now).0;
    let id = crate::outside::sha256(content);
    lemma_inserted_is_held(s, owner, content, media_type, now);
    let k = choose|k: int|
        0 <= k < out.blobs.len() && ({
            let b = #[trigger] out.blobs[k];
            &&& b.id == id
            &&& b.owners.contains(owner)
            &&& b.last_access == now
        });
    let p = pruned(out, later);
    let keep = live_blob(out.tickets.filter(live_ticket(later)), later);
    assert(keep(out.blobs[k]));
    assert(p.blobs.contains(out.blobs[k]));
    let m = choose|m: int| 0 <= m < p.blobs.len() && p.blobs[m] == out.blobs[k];
    assert(p.blobs[m].id == id);
}

struct BlobEntry {
    reference: BlobRef,
    bytes: bytes::Bytes,
    last_access: u64,
    owners: ByteSet,
    delivered_owners: ByteSet,
}

impl BlobEntry {
    spec fn wf(&self) -> bool {
        &&& self.owners.wf()
        &&& self.delivered_owners.wf()
        &&& self.reference@ == reference_of(self@)
    }

    spec fn view(&self) -> BlobView {
        BlobView {
            id: self.reference.blob_id@,
            content: crate::outside::buffer_content(self.bytes),
            media_type: self.reference.media_type@,
            last_access: self.last_access,
            owners: self.owners@,
            delivered: self.delivered_owners@,
        }
    }
}

struct TicketEntry {
    ticket: Vec<u8>,
    transfer_id: u64,
    blob_id: Vec<u8>,
    owner: Vec<u8>,
    expires_at: u64,
}

impl TicketEntry {
    spec fn view(&self) -> TicketView {
        TicketView {
            ticket: self.ticket@,
            transfer_id: self.transfer_id,
            blob_id: self.blob_id@,
            owner: self.owner@,
            expires_at: self.expires_at,
        }
    }
}

/// A blob handed out against a ticket.
#[derive(Debug)]
pub struct RedeemedBlob {
    pub reference: BlobRef,
    pub bytes: bytes::Bytes,
}

/// The blob cache.
pub struct BlobStore {
    entries: Vec<BlobEntry>,
    tickets: Vec<TicketEntry>,
    blob_tickets: CounterTable,
    device_bytes: CounterTable,
    device_entries: CounterTable,
    device_tickets: CounterTable,
    total_bytes: usize,
    next_prune_at: Option<u64>,
}

impl BlobStore {
    spec fn blob_views(&self) -> Seq<BlobView> {
        self.entries@.map_values(|e: BlobEntry| e@)
    }

    spec fn ticket_views(&self) -> Seq<TicketView> {
        self.tickets@.map_values(|t: TicketEntry| t@)
    }

    /// The store as a mathematical value.
    pub closed spec fn view(&self) -> StoreView {
        StoreView {
            blobs: self.blob_views(),
            tickets: self.ticket_views(),
            next_prune_at: self.next_prune_at,
        }
    }

    /// The entries are in order, and the books agree with the entries and the
    /// tickets.
    spec fn books(&self) -> bool {
        &&& forall|i: int| 0 <= i < self.entries@.len() ==> (#[trigger] self.entries@[i]).wf()
        &&& self.blob_tickets.wf()
        &&& self.device_bytes.wf()
        &&& self.device_entries.wf()
        &&& self.device_tickets.wf()
        &&& forall|k: Seq<u8>| #[trigger]
            self.blob_tickets.count(k) == blob_ticket_count(self.ticket_views(), k)
        &&& forall|k: Seq<u8>| #[trigger]
            self.device_tickets.count(k) == device_ticket_count(self.ticket_views(), k)
        &&& forall|k: Seq<u8>| #[trigger]
            self.device_bytes.count(k) == owned_bytes(self.blob_views(), k)
        &&& forall|k: Seq<u8>| #[trigger]
            self.device_entries.count(k) == owned_entries(self.blob_views(), k)
        &&& self.total_bytes == total_bytes(self.blob_views())
    }

    /// What holds of every store that was made with [`BlobStore::new`].
    pub closed spec fn wf(&self) -> bool {
        self.books() && valid(self@)
    }

    pub fn new() -> (r: BlobStore)
        ensures
            r.wf(),
            r@ == (StoreView { blobs: Seq::empty(), tickets: Seq::empty(), next_prune_at: None }),
    {
        let r = BlobStore {
            entries: Vec::new(),
            tickets: Vec::new(),
            blob_tickets: CounterTable::new(),
            device_bytes: CounterTable::new(),
            device_entries: CounterTable::new(),
            device_tickets: CounterTable::new(),
            total_bytes: 0,
            next_prune_at: None,
        };
        assert(r.blob_views() =~= Seq::<BlobView>::empty());
        assert(r.ticket_views() =~= Seq::<TicketView>::empty());
        r
    }

    /// A store keeps its limits, and its ids and tickets are sound.
    pub proof fn lemma_valid(&self)
        requires
            self.wf(),
        ensures
            valid(self@),
    {
    }

    fn schedule_prune(&mut self, deadline: u64)
        ensures
            *final(self) == (BlobStore {
                next_prune_at: earlier(old(self).next_prune_at, Some(deadline)),
                ..*old(self)
            }),
    {
        match self.next_prune_at {
            Some(next) if next <= deadline => {},
            _ => {
                self.next_prune_at = Some(deadline);
            },
        }
    }

    fn blob_has_ticket(&self, blob_id: &[u8]) -> (r: bool)
        requires
            self.books(),
        ensures
            r == pinned(self.ticket_views(), blob_id@),
    {
        proof {
            lemma_pinned_count(self.ticket_views(), blob_id@);
        }
        self.blob_tickets.get(blob_id) > 0
    }

    fn owner_has_room(&self, owner: &[u8], bytes: usize, entries: usize) -> (r: bool)
        requires
            self.books(),
        ensures
            r == owner_has_room(self.blob_views(), owner@, bytes as nat, entries as nat),
    {
        self.device_bytes.get(owner).saturating_add(bytes) <= MAX_CACHED_BLOB_BYTES_PER_DEVICE
            && self.device_entries.get(owner).saturating_add(entries) <= MAX_CACHED_BLOBS_PER_DEVICE
    }

    fn find_entry(&self, blob_id: &[u8]) -> (r: Option<usize>)
        ensures
            match r {
                Some(i) => i < self.entries@.len() && self.blob_views()[i as int].id == blob_id@,
                None => !cached(self.blob_views(), blob_id@),
            },
    {
        let mut i: usize = 0;
        while i < self.entries.len()
            invariant
                i <= self.entries@.len(),
                forall|j: int| 0 <= j < i ==> (#[trigger] self.blob_views()[j]).id != blob_id@,
            decreases self.entries@.len() - i,
        {
            if bytes_eq(self.entries[i].reference.blob_id.as_slice(), blob_id) {
                return Some(i);
            }
            assert(self.blob_views()[i as int].id == self.entries@[i as int].reference.blob_id@);
            i += 1;
        }
        None
    }

    fn find_ticket(&self, ticket: &[u8]) -> (r: Option<usize>)
        ensures
            match r {
                Some(i) => i < self.tickets@.len() && self.ticket_views()[i as int].ticket == ticket@,
                None => forall|j: int|
                    0 <= j < self.tickets@.len() ==> (#[trigger] self.ticket_views()[j]).ticket
                        != ticket@,
            },
    {
        let mut i: usize = 0;
        while i < self.tickets.len()
            invariant
                i <= self.tickets@.len(),
                forall|j: int| 0 <= j < i ==> (#[trigger] self.ticket_views()[j]).ticket != ticket@,
            decreases self.tickets@.len() - i,
        {
            if bytes_eq(self.tickets[i].ticket.as_slice(), ticket) {
                return Some(i);
            }
            assert(self.ticket_views()[i as int].ticket == self.tickets@[i as int].ticket@);
            i += 1;
        }
        None
    }

    fn remove_ticket(&mut self, i: usize)
        requires
            old(self).books(),
            i < old(self).tickets@.len(),
        ensures
            final(self).books(),
            final(self).ticket_views() == old(self).ticket_views().remove(i as int),
            final(self).blob_views() == old(self).blob_views(),
            final(self).next_prune_at == old(self).next_prune_at,
    {
        let ghost before = self.ticket_views();
        let entry = self.tickets.remove(i);
        decrement_counter(&mut self.blob_tickets, entry.blob_id.as_slice(), 1);
        decrement_counter(&mut self.device_tickets, entry.owner.as_slice(), 1);
        proof {
            assert(entry@ == before[i as int]);
            assert(self.ticket_views() =~= before.remove(i as int));
            assert forall|k: Seq<u8>| #[trigger]
                self.blob_tickets.count(k) == blob_ticket_count(self.ticket_views(), k) by {
                assert(old(self).blob_tickets.count(k) == blob_ticket_count(before, k));
                lemma_sum_remove(before, i as int, tickets_on(k));
            }
            assert forall|k: Seq<u8>| #[trigger]
                self.device_tickets.count(k) == device_ticket_count(self.ticket_views(), k) by {
                assert(old(self).device_tickets.count(k) == device_ticket_count(before, k));
                lemma_sum_remove(before, i as int, tickets_of(k));
            }
            assert(self.blob_views() == old(self).blob_views());
            assert forall|k: Seq<u8>| #[trigger]
                self.device_bytes.count(k) == owned_bytes(self.blob_views(), k) by {
                assert(old(self).device_bytes.count(k) == owned_bytes(old(self).blob_views(), k));
            }
            assert forall|k: Seq<u8>| #[trigger]
                self.device_entries.count(k) == owned_entries(self.blob_views(), k) by {
                assert(old(self).device_entries.count(k) == owned_entries(
                    old(self).blob_views(),
                    k,
                ));
            }
        }
    }

    fn remove_entry(&mut self, i: usize)
        requires
            old(self).books(),
            i < old(self).entries@.len(),
        ensures
            final(self).books(),
            final(self).blob_views() == old(self).blob_views().remove(i as int),
            final(self).ticket_views() == old(self).ticket_views(),
            final(self).next_prune_at == old(self).next_prune_at,
    {
        let ghost before = self.blob_views();
        let entry = self.entries.remove(i);
        let size: usize = buffer_len(&entry.bytes);
        let ghost b = before[i as int];
        proof {
            assert(old(self).entries@[i as int].wf());
            assert(entry@ == b);
            assert(self.blob_views() =~= before.remove(i as int));
            lemma_sum_remove(before, i as int, blob_bytes());
        }
        self.total_bytes = self.total_bytes - size;
        let mut j: usize = 0;
        while j < entry.owners.len()
            invariant
                j <= entry.owners.listed().len(),
                entry.owners.wf(),
                entry.owners@ == b.owners,
                size == b.content.len(),
                0 <= i < before.len(),
                b == before[i as int],
                self.device_bytes.wf(),
                self.device_entries.wf(),
                self.blob_tickets == old(self).blob_tickets,
                self.device_tickets == old(self).device_tickets,
                self.tickets == old(self).tickets,
                self.next_prune_at == old(self).next_prune_at,
                self.entries@ == old(self).entries@.remove(i as int),
                self.total_bytes == old(self).total_bytes - size,
                forall|k: Seq<u8>| #[trigger]
                    self.device_bytes.count(k) == owned_bytes(before, k) - if entry.owners.listed().take(
                        j as int,
                    ).contains(k) {
                        size as int
                    } else {
                        0
                    },
                forall|k: Seq<u8>| #[trigger]
                    self.device_entries.count(k) == owned_entries(before, k) - if entry.owners.listed().take(
                        j as int,
                    ).contains(k) {
                        1int
                    } else {
                        0
                    },
            decreases entry.owners.listed().len() - j,
        {
            let owner = entry.owners.at(j);
            let ghost listed = entry.owners.listed();
            let ghost bytes_before = self.device_bytes;
            let ghost entries_before = self.device_entries;
            proof {
                let o = listed[j as int];
                assert(!listed.take(j as int).contains(o)) by {
                    if listed.take(j as int).contains(o) {
                        let m = choose|m: int|
                            0 <= m < listed.take(j as int).len() && listed.take(j as int)[m] == o;
                        assert(listed[m] == listed[j as int]);
                    }
                }
                assert(listed.contains(o));
                assert(b.owners.contains(o));
                lemma_sum_at_least(before, i as int, bytes_owned_by(o));
                lemma_sum_at_least(before, i as int, entries_owned_by(o));
                assert(bytes_before.count(o) == owned_bytes(before, o));
                assert(entries_before.count(o) == owned_entries(before, o));
            }
            decrement_counter(&mut self.device_bytes, owner.as_slice(), size);
            decrement_counter(&mut self.device_entries, owner.as_slice(), 1);
            proof {
                let o = listed[j as int];
                assert forall|k: Seq<u8>| listed.take(j + 1).contains(k) == (k == o || listed.take(
                    j as int,
                ).contains(k)) by {
                    lemma_take_contains(listed, j as int, k);
                }
                assert forall|k: Seq<u8>| #[trigger]
                    self.device_bytes.count(k) == owned_bytes(before, k) - if listed.take(
                        j + 1,
                    ).contains(k) {
                        size as int
                    } else {
                        0
                    } by {
                    assert(bytes_before.count(k) == owned_bytes(before, k) - if listed.take(
                        j as int,
                    ).contains(k) {
                        size as int
                    } else {
                        0
                    });
                }
                assert forall|k: Seq<u8>| #[trigger]
                    self.device_entries.count(k) == owned_entries(before, k) - if listed.take(
                        j + 1,
                    ).contains(k) {
                        1int
                    } else {
                        0
                    } by {
                    assert(entries_before.count(k) == owned_entries(before, k) - if listed.take(
                        j as int,
                    ).contains(k) {
                        1int
                    } else {
                        0
                    });
                }
            }
            j += 1;
        }
        proof {
            let listed = entry.owners.listed();
            assert(listed.take(j as int) =~= listed);
            assert(self.ticket_views() == old(self).ticket_views());
            assert(self.blob_views() =~= before.remove(i as int));
            assert forall|k: Seq<u8>| #[trigger]
                self.device_bytes.count(k) == owned_bytes(self.blob_views(), k) by {
                lemma_sum_remove(before, i as int, bytes_owned_by(k));
                assert(listed.contains(k) == b.owners.contains(k));
            }
            assert forall|k: Seq<u8>| #[trigger]
                self.device_entries.count(k) == owned_entries(self.blob_views(), k) by {
                lemma_sum_remove(before, i as int, entries_owned_by(k));
                assert(listed.contains(k) == b.owners.contains(k));
            }
            assert forall|k: Seq<u8>| #[trigger]
                self.blob_tickets.count(k) == blob_ticket_count(self.ticket_views(), k) by {
                assert(old(self).blob_tickets.count(k) == blob_ticket_count(
                    old(self).ticket_views(),
                    k,
                ));
            }
            assert forall|k: Seq<u8>| #[trigger]
                self.device_tickets.count(k) == device_ticket_count(self.ticket_views(), k) by {
                assert(old(self).device_tickets.count(k) == device_ticket_count(
                    old(self).ticket_views(),
                    k,
                ));
            }
        }
    }

    /// Runs the sweep if one is due.
    pub fn prune(&mut self, now: u64)
        requires
            old(self).wf(),
        ensures
            final(self).wf(),
            final(self)@ == pruned(old(self)@, now),
    {
        match self.next_prune_at {
            None => {
                return;
            },
            Some(deadline) => {
                if now < deadline {
                    return;
                }
            },
        }
        self.next_prune_at = None;
        let ghost torig = self.ticket_views();
        let ghost live = live_ticket(now);
        let mut i: usize = 0;
        let ghost mut j: int = 0;
        proof {
            reveal(Seq::filter);
            assert(torig.take(0).filter(live) =~= Seq::<TicketView>::empty());
            assert(torig.skip(0) =~= torig);
        }
        while i < self.tickets.len()
            invariant
                self.books(),
                sound(self.blob_views(), self.ticket_views()),
                self.blob_views() == old(self).blob_views(),
                self.next_prune_at is None,
                0 <= j <= torig.len(),
                live == live_ticket(now),
                self.ticket_views() == torig.take(j).filter(live) + torig.skip(j),
                i == torig.take(j).filter(live).len(),
            decreases torig.len() - j,
        {
            let ghost kept = torig.take(j).filter(live);
            proof {
                assert(self.ticket_views()[i as int] == self.tickets@[i as int]@);
                assert(self.ticket_views().len() == self.tickets@.len());
                assert(self.ticket_views()[i as int] == torig[j]);
                lemma_filter_step(torig, j, live);
            }
            if self.tickets[i].expires_at <= now {
                proof {
                    lemma_remove_ticket_sound(self.blob_views(), self.ticket_views(), i as int);
                    assert((kept + torig.skip(j)).remove(i as int) =~= kept + torig.skip(j + 1));
                }
                self.remove_ticket(i);
            } else {
                proof {
                    assert(kept + torig.skip(j) =~= kept.push(torig[j]) + torig.skip(j + 1));
                }
                i += 1;
            }
            proof {
                j = j + 1;
            }
        }
        proof {
            assert(self.ticket_views().len() == self.tickets@.len());
            assert(j == torig.len());
            assert(torig.take(j) =~= torig);
            assert(torig.filter(live) + torig.skip(j) =~= torig.filter(live));
        }
        let ghost tickets = self.ticket_views();
        let mut next: Option<u64> = None;
        let mut t: usize = 0;
        while t < self.tickets.len()
            invariant
                tickets == self.ticket_views(),
                t <= self.tickets@.len(),
                next == first_expiry(tickets.take(t as int)),
            decreases self.tickets@.len() - t,
        {
            proof {
                assert(tickets.take(t + 1).drop_last() =~= tickets.take(t as int));
                assert(tickets[t as int] == self.tickets@[t as int]@);
            }
            let expires_at: u64 = self.tickets[t].expires_at;
            next = match next {
                Some(first) if first <= expires_at => Some(first),
                _ => Some(expires_at),
            };
            t += 1;
        }
        proof {
            assert(tickets.take(t as int) =~= tickets);
        }
        self.next_prune_at = next;
        let ghost borig = self.blob_views();
        let ghost keep = live_blob(tickets, now);
        let mut e: usize = 0;
        let ghost mut m: int = 0;
        proof {
            reveal(Seq::filter);
            assert(borig.take(0).filter(keep) =~= Seq::<BlobView>::empty());
            assert(borig.skip(0) =~= borig);
        }
        while e < self.entries.len()
            invariant
                self.books(),
                sound(self.blob_views(), self.ticket_views()),
                self.ticket_views() == tickets,
                0 <= m <= borig.len(),
                keep == live_blob(tickets, now),
                self.blob_views() == borig.take(m).filter(keep) + borig.skip(m),
                e == borig.take(m).filter(keep).len(),
                self.next_prune_at == earlier(
                    first_expiry(tickets),
                    first_idle(borig.take(m).filter(keep), tickets),
                ),
            decreases borig.len() - m,
        {
            let ghost kept = borig.take(m).filter(keep);
            proof {
                assert(self.blob_views()[e as int] == self.entries@[e as int]@);
                assert(self.blob_views().len() == self.entries@.len());
                assert(self.blob_views()[e as int] == borig[m]);
                assert(valid_blob(self.blob_views()[e as int]));
                lemma_filter_step(borig, m, keep);
            }
            let is_pinned = self.blob_has_ticket(self.entries[e].reference.blob_id.as_slice());
            let last_access: u64 = self.entries[e].last_access;
            if !is_pinned && now.saturating_sub(last_access) >= BLOB_IDLE_TTL_MS {
                proof {
                    lemma_remove_blob_sound(self.blob_views(), self.ticket_views(), e as int);
                    assert((kept + borig.skip(m)).remove(e as int) =~= kept + borig.skip(m + 1));
                }
                self.remove_entry(e);
            } else {
                proof {
                    assert(kept + borig.skip(m) =~= kept.push(borig[m]) + borig.skip(m + 1));
                    assert(kept.push(borig[m]).drop_last() =~= kept);
                }
                if !is_pinned {
                    self.schedule_prune(last_access + BLOB_IDLE_TTL_MS);
                }
                e += 1;
            }
            proof {
                m = m + 1;
            }
        }
        proof {
            assert(self.blob_views().len() == self.entries@.len());
            assert(m == borig.len());
            assert(borig.take(m) =~= borig);
            assert(borig.filter(keep) + borig.skip(m) =~= borig.filter(keep));
            lemma_first_expiry(tickets);
        }
    }

    fn release_owner(&mut self, k: usize, owner: &[u8])
        requires
            old(self).books(),
            k < old(self).entries@.len(),
            old(self).blob_views()[k as int].owners.contains(owner@),
        ensures
            final(self).books(),
            final(self).blob_views() == old(self).blob_views().update(
                k as int,
                released(old(self).blob_views()[k as int], owner@),
            ),
            final(self).ticket_views() == old(self).ticket_views(),
            final(self).next_prune_at == old(self).next_prune_at,
    {
        let ghost before = self.blob_views();
        let ghost b = released(before[k as int], owner@);
        proof {
            assert(self.entries@[k as int].wf());
            assert(before[k as int] == self.entries@[k as int]@);
            lemma_sum_at_least(before, k as int, bytes_owned_by(owner@));
            lemma_sum_at_least(before, k as int, entries_owned_by(owner@));
            assert(self.device_bytes.count(owner@) == owned_bytes(before, owner@));
            assert(self.device_entries.count(owner@) == owned_entries(before, owner@));
        }
        let size: usize = buffer_len(&self.entries[k].bytes);
        self.entries[k].delivered_owners.remove(owner);
        self.entries[k].owners.remove(owner);
        decrement_counter(&mut self.device_bytes, owner, size);
        decrement_counter(&mut self.device_entries, owner, 1);
        proof {
            assert(self.entries@[k as int]@ == b);
            assert(self.blob_views() =~= before.update(k as int, b));
            assert forall|i: int| 0 <= i < self.entries@.len() implies (#[trigger] self.entries@[i]).wf() by {
                if i != k {
                    assert(self.entries@[i] == old(self).entries@[i]);
                    assert(old(self).entries@[i].wf());
                }
            }
            lemma_sum_update(before, k as int, b, blob_bytes());
            self.lemma_books_after_owner_change(*old(self), k as int, b);
        }
    }

    /// The books agree again once the counters of one device follow the change
    /// of one entry.
    proof fn lemma_books_after_owner_change(&self, before: Self, k: int, b: BlobView)
        requires
            before.books(),
            0 <= k < before.entries@.len(),
            self.blob_views() == before.blob_views().update(k, b),
            self.tickets == before.tickets,
            self.blob_tickets == before.blob_tickets,
            self.device_tickets == before.device_tickets,
            self.total_bytes == before.total_bytes,
            b.content == before.blob_views()[k].content,
            self.device_bytes.wf(),
            self.device_entries.wf(),
            forall|i: int| 0 <= i < self.entries@.len() ==> (#[trigger] self.entries@[i]).wf(),
            forall|o: Seq<u8>| #[trigger]
                self.device_bytes.count(o) + bytes_owned_by(o)(before.blob_views()[k])
                    == before.device_bytes.count(o) + bytes_owned_by(o)(b),
            forall|o: Seq<u8>| #[trigger]
                self.device_entries.count(o) + entries_owned_by(o)(before.blob_views()[k])
                    == before.device_entries.count(o) + entries_owned_by(o)(b),
        ensures
            self.books(),
            self.ticket_views() == before.ticket_views(),
    {
        let blobs = before.blob_views();
        lemma_sum_update(blobs, k, b, blob_bytes());
        assert forall|o: Seq<u8>| #[trigger]
            self.device_bytes.count(o) == owned_bytes(self.blob_views(), o) by {
            assert(before.device_bytes.count(o) == owned_bytes(blobs, o));
            lemma_sum_update(blobs, k, b, bytes_owned_by(o));
        }
        assert forall|o: Seq<u8>| #[trigger]
            self.device_entries.count(o) == owned_entries(self.blob_views(), o) by {
            assert(before.device_entries.count(o) == owned_entries(blobs, o));
            lemma_sum_update(blobs, k, b, entries_owned_by(o));
        }
        assert forall|o: Seq<u8>| #[trigger]
            self.blob_tickets.count(o) == blob_ticket_count(self.ticket_views(), o) by {
            assert(before.blob_tickets.count(o) == blob_ticket_count(before.ticket_views(), o));
        }
        assert forall|o: Seq<u8>| #[trigger]
            self.device_tickets.count(o) == device_ticket_count(self.ticket_views(), o) by {
            assert(before.device_tickets.count(o) == device_ticket_count(before.ticket_views(), o));
        }
    }

    fn reclaim_delivered_for_owner(
        &mut self,
        owner: &[u8],
        additional_bytes: usize,
        additional_entries: usize,
    )
        requires
            old(self).wf(),
        ensures
            final(self).wf(),
            final(self)@ == (StoreView {
                blobs: reclaimed(
                    old(self)@.blobs,
                    old(self)@.tickets,
                    0,
                    owner@,
                    additional_bytes as nat,
                    additional_entries as nat,
                ),
                ..old(self)@
            }),
    {
        let ghost tickets = self.ticket_views();
        let ghost goal = reclaimed(
            self.blob_views(),
            tickets,
            0,
            owner@,
            additional_bytes as nat,
            additional_entries as nat,
        );
        let mut k: usize = 0;
        while k < self.entries.len() && !self.owner_has_room(
            owner,
            additional_bytes,
            additional_entries,
        )
            invariant
                self.books(),
                self.ticket_views() == tickets,
                tickets == old(self).ticket_views(),
                self.next_prune_at == old(self).next_prune_at,
                sound(self.blob_views(), tickets),
                k <= self.entries@.len(),
                goal == reclaimed(
                    self.blob_views(),
                    tickets,
                    k as int,
                    owner@,
                    additional_bytes as nat,
                    additional_entries as nat,
                ),
            decreases self.entries@.len() - k,
        {
            let ghost before = self.blob_views();
            proof {
                assert(before[k as int] == self.entries@[k as int]@);
                assert(before.len() == self.entries@.len());
                assert(valid_blob(before[k as int]));
            }
            if self.blob_has_ticket(self.entries[k].reference.blob_id.as_slice())
                || !self.entries[k].delivered_owners.contains(owner) {
                k += 1;
            } else {
                self.release_owner(k, owner);
                let ghost b = released(before[k as int], owner@);
                proof {
                    assert(self.entries@.len() == self.blob_views().len());
                    assert(self.blob_views()[k as int] == self.entries@[k as int]@);
                    assert(self.entries@[k as int].owners@ == b.owners);
                }
                if self.entries[k].owners.is_empty() {
                    proof {
                        lemma_remove_blob_sound(before, tickets, k as int);
                        assert(before.update(k as int, b).remove(k as int) =~= before.remove(
                            k as int,
                        ));
                        assert(b.owners =~= Set::empty());
                    }
                    self.remove_entry(k);
                    proof {
                        assert(self.entries@.len() == self.blob_views().len());
                    }
                } else {
                    proof {
                        lemma_update_blob_sound(before, tickets, k as int, b);
                    }
                    k += 1;
                }
            }
        }
        proof {
            assert(self.entries@.len() == self.blob_views().len());
        }
    }

    fn make_room_for(&self, additional_bytes: usize) -> (r: bool)
        requires
            self.books(),
        ensures
            r == store_has_room(self.blob_views(), additional_bytes as nat),
    {
        proof {
            assert(self.entries@.len() == self.blob_views().len());
        }
        self.entries.len() < MAX_CACHED_BLOBS && self.total_bytes.saturating_add(additional_bytes)
            <= MAX_CACHED_BLOB_BYTES
    }

    /// Offers a blob to the cache on behalf of a device.
    pub fn insert(&mut self, owner: &[u8], bytes: Vec<u8>, media_type: &str, now: u64) -> (r: Option<
        BlobRef,
    >)
        requires
            old(self).wf(),
            now + BLOB_IDLE_TTL_MS <= u64::MAX,
        ensures
            final(self).wf(),
            (final(self)@, reference_view(r)) == inserted(
                old(self)@,
                owner@,
                bytes@,
                media_type@,
                now,
            ),
    {
        if owner.len() == 0 || owner.len() > 128 || bytes.len() == 0 || bytes.len()
            > MAX_CACHED_BLOB_BYTES || byte_len(media_type) == 0 || byte_len(media_type) > 256
            || has_control(media_type) {
            return None;
        }
        let ghost content = bytes@;
        let digest = sha256_digest(bytes.as_slice());
        self.prune(now);
        let ghost p = self@;
        let found = self.find_entry(digest.as_slice());
        if let Some(i) = found {
            proof {
                lemma_place(p.blobs, i as int);
                assert(self.entries@[i as int].wf());
                assert(p.blobs[i as int] == self.entries@[i as int]@);
            }
            if self.entries[i].owners.contains(owner) {
                let ghost b = BlobView { last_access: now, ..p.blobs[i as int] };
                proof {
                    lemma_update_blob_sound(p.blobs, p.tickets, i as int, b);
                }
                let ghost before = *self;
                self.entries[i].last_access = now;
                proof {
                    assert(self.blob_views() =~= p.blobs.update(i as int, b));
                    assert forall|j: int| 0 <= j < self.entries@.len() implies (
                    #[trigger] self.entries@[j]).wf() by {
                        if j != i {
                            assert(self.entries@[j] == before.entries@[j]);
                            assert(before.entries@[j].wf());
                        }
                    }
                    self.lemma_books_after_owner_change(before, i as int, b);
                }
                return Some(self.entries[i].reference.clone());
            }
        }
        let needed: usize = match found {
            Some(i) => buffer_len(&self.entries[i].bytes),
            None => bytes.len(),
        };
        self.reclaim_delivered_for_owner(owner, needed, 1);
        let ghost q = self@;
        proof {
            if cached(p.blobs, digest@) {
                lemma_reclaimed_ids(
                    p.blobs,
                    p.tickets,
                    0,
                    owner@,
                    needed as nat,
                    1,
                    digest@,
                    p.blobs[place(p.blobs, digest@)],
                );
                assert(p.blobs.contains(p.blobs[place(p.blobs, digest@)]));
            } else {
                lemma_reclaimed_ids(
                    p.blobs,
                    p.tickets,
                    0,
                    owner@,
                    needed as nat,
                    1,
                    digest@,
                    arbitrary(),
                );
            }
        }
        if !self.owner_has_room(owner, needed, 1) {
            return None;
        }
        if let Some(j) = self.find_entry(digest.as_slice()) {
            let ghost b0 = q.blobs[j as int];
            let ghost b = BlobView { last_access: now, owners: b0.owners.insert(owner@), ..b0 };
            proof {
                assert(cached(q.blobs, digest@));
                assert(cached(p.blobs, digest@));
                lemma_place(q.blobs, j as int);
                assert(q.blobs[j as int] == self.entries@[j as int]@);
                assert(self.entries@[j as int].wf());
                let kept = p.blobs[place(p.blobs, digest@)];
                let m = choose|m: int| 0 <= m < q.blobs.len() && q.blobs[m] == kept;
                assert(q.blobs[m].id == q.blobs[j as int].id);
                assert(!b0.owners.contains(owner@));
                assert(valid_blob(b0));
                assert(b.owners.contains(owner@));
                lemma_update_blob_sound(q.blobs, q.tickets, j as int, b);
            }
            let ghost before = *self;
            self.entries[j].last_access = now;
            self.entries[j].owners.insert(owner);
            proof {
                assert(self.device_bytes.count(owner@) == owned_bytes(q.blobs, owner@));
                assert(self.device_entries.count(owner@) == owned_entries(q.blobs, owner@));
                lemma_sum_update(q.blobs, j as int, b, bytes_owned_by(owner@));
                assert(owned_bytes(q.blobs.update(j as int, b), owner@) <= MAX_CACHED_BLOB_BYTES_PER_DEVICE);
            }
            self.device_bytes.increment(owner, needed);
            self.device_entries.increment(owner, 1);
            proof {
                assert(self.blob_views() =~= q.blobs.update(j as int, b));
                assert forall|k: int| 0 <= k < self.entries@.len() implies (
                #[trigger] self.entries@[k]).wf() by {
                    if k != j {
                        assert(self.entries@[k] == before.entries@[k]);
                        assert(before.entries@[k].wf());
                    }
                }
                self.lemma_books_after_owner_change(before, j as int, b);
            }
            return Some(self.entries[j].reference.clone());
        }
        proof {
            if cached(p.blobs, digest@) {
                let kept = p.blobs[place(p.blobs, digest@)];
                let m = choose|m: int| 0 <= m < q.blobs.len() && q.blobs[m] == kept;
                assert(q.blobs[m].id == digest@);
            }
        }
        if !self.make_room_for(bytes.len()) {
            return None;
        }
        let size: usize = bytes.len();
        let reference = BlobRef {
            blob_id: copy_bytes(&digest),
            size: size as u64,
            media_type: media_type.to_owned(),
            sha256: digest,
        };
        let result = reference.clone();
        let mut owners = ByteSet::new();
        owners.insert(owner);
        let ghost b = BlobView {
            id: crate::outside::sha256(content),
            content,
            media_type: media_type@,
            last_access: now,
            owners: set![owner@],
            delivered: Set::empty(),
        };
        proof {
            assert(b.owners.contains(owner@));
            lemma_push_blob_sound(q.blobs, q.tickets, b, owner@);
            assert(self.device_bytes.count(owner@) == owned_bytes(q.blobs, owner@));
            assert(self.device_entries.count(owner@) == owned_entries(q.blobs, owner@));
        }
        let ghost before = *self;
        self.total_bytes = self.total_bytes + size;
        self.schedule_prune(now + BLOB_IDLE_TTL_MS);
        self.entries.push(
            BlobEntry {
                reference,
                bytes: buffer_from(bytes),
                last_access: now,
                owners,
                delivered_owners: ByteSet::new(),
            },
        );
        self.device_bytes.increment(owner, size);
        self.device_entries.increment(owner, 1);
        proof {
            assert(self.entries@[before.entries@.len() as int]@ =~= b);
            assert(self.blob_views() =~= q.blobs.push(b));
            lemma_sum_push(q.blobs, b, blob_bytes());
            assert forall|k: int| 0 <= k < self.entries@.len() implies (
            #[trigger] self.entries@[k]).wf() by {
                if k < before.entries@.len() {
                    assert(self.entries@[k] == before.entries@[k]);
                    assert(before.entries@[k].wf());
                }
            }
            assert forall|o: Seq<u8>| #[trigger]
                self.device_bytes.count(o) == owned_bytes(self.blob_views(), o) by {
                assert(before.device_bytes.count(o) == owned_bytes(q.blobs, o));
                lemma_sum_push(q.blobs, b, bytes_owned_by(o));
            }
            assert forall|o: Seq<u8>| #[trigger]
                self.device_entries.count(o) == owned_entries(self.blob_views(), o) by {
                assert(before.device_entries.count(o) == owned_entries(q.blobs, o));
                lemma_sum_push(q.blobs, b, entries_owned_by(o));
            }
            assert forall|o: Seq<u8>| #[trigger]
                self.blob_tickets.count(o) == blob_ticket_count(self.ticket_views(), o) by {
                assert(before.blob_tickets.count(o) == blob_ticket_count(before.ticket_views(), o));
            }
            assert forall|o: Seq<u8>| #[trigger]
                self.device_tickets.count(o) == device_ticket_count(self.ticket_views(), o) by {
                assert(before.device_tickets.count(o) == device_ticket_count(
                    before.ticket_views(),
                    o,
                ));
            }
            assert(self.ticket_views() == q.tickets);
            assert(valid(self@));
        }
        Some(result)
    }

    /// Sweeps, marks the blob as used and tells whether the device may have a
    /// ticket for it.
    fn admit_request(&mut self, owner: &[u8], blob_id: &[u8], now: u64) -> (r: Result<
        BlobRef,
        IssueTicketError,
    >)
        requires
            old(self).wf(),
            now + BLOB_IDLE_TTL_MS <= u64::MAX,
        ensures
            final(self).wf(),
            valid(pruned(old(self)@, now)),
            ({
                let p = pruned(old(self)@, now);
                if !holds(p.blobs, blob_id@, owner@) {
                    r == Err::<BlobRef, _>(IssueTicketError::NotFound) && final(self)@ == p
                } else if ticket_limit_reached(p, owner@) {
                    r == Err::<BlobRef, _>(IssueTicketError::ResourceExhausted) && final(self)@
                        == touched(p, blob_id@, now)
                } else {
                    r is Ok && r->Ok_0@ == reference_of(p.blobs[place(p.blobs, blob_id@)])
                        && final(self)@ == touched(p, blob_id@, now)
                }
            }),
    {
        self.prune(now);
        let ghost p = self@;
        let i: usize = match self.find_entry(blob_id) {
            Some(i) => i,
            None => {
                return Err(IssueTicketError::NotFound);
            },
        };
        proof {
            lemma_place(p.blobs, i as int);
            assert(p.blobs[i as int] == self.entries@[i as int]@);
            assert(self.entries@[i as int].wf());
        }
        if !self.entries[i].owners.contains(owner) {
            proof {
                if holds(p.blobs, blob_id@, owner@) {
                    let k = choose|k: int|
                        0 <= k < p.blobs.len() && (#[trigger] p.blobs[k]).id == blob_id@
                            && p.blobs[k].owners.contains(owner@);
                    assert(k == i);
                }
            }
            return Err(IssueTicketError::NotFound);
        }
        let ghost before = *self;
        let ghost b = BlobView { last_access: now, ..p.blobs[i as int] };
        proof {
            lemma_update_blob_sound(p.blobs, p.tickets, i as int, b);
        }
        self.entries[i].last_access = now;
        proof {
            assert(self.blob_views() =~= p.blobs.update(i as int, b));
            assert forall|j: int| 0 <= j < self.entries@.len() implies (
            #[trigger] self.entries@[j]).wf() by {
                if j != i {
                    assert(self.entries@[j] == before.entries@[j]);
                    assert(before.entries@[j].wf());
                }
            }
            self.lemma_books_after_owner_change(before, i as int, b);
            assert(self.tickets@.len() == self.ticket_views().len());
        }
        if self.tickets.len() >= MAX_OUTSTANDING_TICKETS || self.device_tickets.get(owner)
            >= MAX_OUTSTANDING_TICKETS_PER_DEVICE {
            return Err(IssueTicketError::ResourceExhausted);
        }
        Ok(self.entries[i].reference.clone())
    }

    /// Records a ticket for a blob that the device owns.
    fn record_ticket(
        &mut self,
        owner: &[u8],
        reference: BlobRef,
        transfer_id: u64,
        ticket: Vec<u8>,
        chunk_size: u32,
        now: u64,
        wall_ms: i64,
    ) -> (r: BlobTicket)
        requires
            old(self).wf(),
            holds(old(self)@.blobs, reference@.blob_id, owner@),
            !ticket_limit_reached(old(self)@, owner@),
            transfer_id != 0,
            fresh(old(self)@.tickets, transfer_id, ticket@),
            now + TICKET_TTL_MS <= u64::MAX,
            wall_ms + TICKET_TTL_MS <= i64::MAX,
        ensures
            final(self).wf(),
            final(self)@ == ticketed(
                old(self)@,
                new_ticket(owner@, reference@.blob_id, transfer_id, ticket@, now),
            ),
            r.transfer_id == transfer_id,
            r.ticket@ == ticket@,
            reference_view(r.blob) == Some(reference@),
            r.chunk_size == chunk_size,
            r.expires_at_ms == wall_ms + TICKET_TTL_MS,
    {
        let ghost before = *self;
        let ghost t = new_ticket(owner@, reference@.blob_id, transfer_id, ticket@, now);
        let expires_at: u64 = now + TICKET_TTL_MS;
        self.schedule_prune(expires_at);
        let secret = copy_bytes(&ticket);
        self.tickets.push(
            TicketEntry {
                ticket: secret,
                transfer_id,
                blob_id: copy_bytes(&reference.blob_id),
                owner: vstd::slice::slice_to_vec(owner),
                expires_at,
            },
        );
        proof {
            assert(before.tickets@.len() == before.ticket_views().len());
            assert(before.device_tickets.count(owner@) == device_ticket_count(
                before.ticket_views(),
                owner@,
            ));
            assert(before.blob_tickets.count(reference@.blob_id) == blob_ticket_count(
                before.ticket_views(),
                reference@.blob_id,
            ));
            lemma_count_bound(before.ticket_views(), reference@.blob_id);
        }
        self.blob_tickets.increment(reference.blob_id.as_slice(), 1);
        self.device_tickets.increment(owner, 1);
        proof {
            assert(self.ticket_views() =~= before.ticket_views().push(t));
            assert(self.blob_views() == before.blob_views());
            assert forall|k: Seq<u8>| #[trigger]
                self.blob_tickets.count(k) == blob_ticket_count(self.ticket_views(), k) by {
                assert(before.blob_tickets.count(k) == blob_ticket_count(before.ticket_views(), k));
                lemma_sum_push(before.ticket_views(), t, tickets_on(k));
            }
            assert forall|k: Seq<u8>| #[trigger]
                self.device_tickets.count(k) == device_ticket_count(self.ticket_views(), k) by {
                assert(before.device_tickets.count(k) == device_ticket_count(
                    before.ticket_views(),
                    k,
                ));
                lemma_sum_push(before.ticket_views(), t, tickets_of(k));
            }
            assert forall|k: Seq<u8>| #[trigger]
                self.device_bytes.count(k) == owned_bytes(self.blob_views(), k) by {
                assert(before.device_bytes.count(k) == owned_bytes(before.blob_views(), k));
            }
            assert forall|k: Seq<u8>| #[trigger]
                self.device_entries.count(k) == owned_entries(self.blob_views(), k) by {
                assert(before.device_entries.count(k) == owned_entries(before.blob_views(), k));
            }
            lemma_push_ticket_valid(before@, t);
        }
        BlobTicket {
            transfer_id,
            ticket,
            blob: Some(reference),
            chunk_size,
            expires_at_ms: wall_ms + TICKET_TTL_MS as i64,
        }
    }

    /// Issues a ticket with the given transfer id and secret.
    pub fn issue_ticket_with(
        &mut self,
        owner: &[u8],
        blob_id: &[u8],
        transfer_id: u64,
        ticket: Vec<u8>,
        chunk_size: u32,
        now: u64,
        wall_ms: i64,
    ) -> (r: Result<BlobTicket, IssueTicketError>)
        requires
            old(self).wf(),
            transfer_id != 0,
            fresh(old(self)@.tickets, transfer_id, ticket@),
            now + BLOB_IDLE_TTL_MS <= u64::MAX,
            wall_ms + TICKET_TTL_MS <= i64::MAX,
        ensures
            final(self).wf(),
            ({
                let p = pruned(old(self)@, now);
                if !holds(p.blobs, blob_id@, owner@) {
                    r == Err::<BlobTicket, _>(IssueTicketError::NotFound) && final(self)@ == p
                } else if ticket_limit_reached(p, owner@) {
                    r == Err::<BlobTicket, _>(IssueTicketError::ResourceExhausted) && final(self)@
                        == touched(p, blob_id@, now)
                } else {
                    &&& r is Ok
                    &&& r->Ok_0.transfer_id == transfer_id
                    &&& r->Ok_0.ticket@ == ticket@
                    &&& reference_view(r->Ok_0.blob) == Some(
                        reference_of(p.blobs[place(p.blobs, blob_id@)]),
                    )
                    &&& r->Ok_0.chunk_size == chunk_size
                    &&& r->Ok_0.expires_at_ms == wall_ms + TICKET_TTL_MS
                    &&& final(self)@ == ticketed(
                        touched(p, blob_id@, now),
                        new_ticket(owner@, blob_id@, transfer_id, ticket@, now),
                    )
                }
            }),
    {
        let ghost s = self@;
        match self.admit_request(owner, blob_id, now) {
            Err(error) => Err(error),
            Ok(reference) => {
                proof {
                    let p = pruned(s, now);
                    lemma_pruned_tickets(s, now);
                    lemma_touched_holds(p, blob_id@, now, owner@);
                }
                Ok(
                    self.record_ticket(
                        owner,
                        reference,
                        transfer_id,
                        ticket,
                        chunk_size,
                        now,
                        wall_ms,
                    ),
                )
            },
        }
    }

    fn transfer_id_taken(&self, transfer_id: u64) -> (r: bool)
        ensures
            r == exists|i: int|
                0 <= i < self@.tickets.len() && (#[trigger] self@.tickets[i]).transfer_id
                    == transfer_id,
    {
        let mut i: usize = 0;
        while i < self.tickets.len()
            invariant
                i <= self.tickets@.len(),
                forall|j: int|
                    0 <= j < i ==> (#[trigger] self@.tickets[j]).transfer_id != transfer_id,
            decreases self.tickets@.len() - i,
        {
            assert(self@.tickets[i as int] == self.tickets@[i as int]@);
            if self.tickets[i].transfer_id == transfer_id {
                return true;
            }
            i += 1;
        }
        false
    }

    /// Tells whether no outstanding ticket has this transfer id or this secret.
    pub fn is_fresh(&self, transfer_id: u64, ticket: &[u8]) -> (r: bool)
        ensures
            r == fresh(self@.tickets, transfer_id, ticket@),
    {
        assert(self@.tickets == self.ticket_views());
        assert(self.ticket_views().len() == self.tickets@.len());
        !self.transfer_id_taken(transfer_id) && self.find_ticket(ticket).is_none()
    }

    /// A transfer id that no outstanding ticket has: a random one, or the first
    /// free one should the random source never come up with any.
    fn fresh_transfer_id(&self) -> (r: u64)
        requires
            self.wf(),
        ensures
            0 < r <= i64::MAX,
            forall|i: int|
                0 <= i < self@.tickets.len() ==> (#[trigger] self@.tickets[i]).transfer_id != r,
    {
        let mut transfer_id: u64 = 0;
        let mut attempts: u64 = u64::MAX;
        while attempts > 0 && (transfer_id == 0 || self.transfer_id_taken(transfer_id))
            invariant
                transfer_id <= i64::MAX,
            decreases attempts,
        {
            let drawn: u64 = random_u64();
            transfer_id = drawn & 0x7fff_ffff_ffff_ffff;
            assert(drawn & 0x7fff_ffff_ffff_ffff <= 0x7fff_ffff_ffff_ffff) by (bit_vector);
            attempts -= 1;
        }
        if transfer_id != 0 && !self.transfer_id_taken(transfer_id) {
            return transfer_id;
        }
        let ghost tickets = self@.tickets;
        let ghost mut taken: Seq<int> = Seq::empty();
        let mut free: u64 = 1;
        while self.transfer_id_taken(free)
            invariant
                tickets == self@.tickets,
                tickets.len() <= MAX_OUTSTANDING_TICKETS,
                1 <= free <= MAX_OUTSTANDING_TICKETS + 1,
                taken.len() == free - 1,
                forall|k: int|
                    0 <= k < taken.len() ==> 0 <= #[trigger] taken[k] < tickets.len()
                        && tickets[taken[k]].transfer_id == k + 1,
            decreases MAX_OUTSTANDING_TICKETS + 1 - free,
        {
            proof {
                let i = choose|i: int|
                    0 <= i < tickets.len() && (#[trigger] tickets[i]).transfer_id == free;
                taken = taken.push(i);
                lemma_distinct_places(taken, tickets.len());
            }
            free += 1;
        }
        free
    }

    /// A secret that no outstanding ticket has: a random one, or should the
    /// random source never come up with any, the first free one of those that
    /// begin with a number in place of their first two bytes.
    fn fresh_secret(&self) -> (r: Vec<u8>)
        requires
            self.wf(),
        ensures
            r@.len() == TICKET_SECRET_BYTES,
            forall|i: int|
                0 <= i < self@.tickets.len() ==> (#[trigger] self@.tickets[i]).ticket != r@,
    {
        let mut secret = random_bytes(TICKET_SECRET_BYTES);
        let mut draws: u64 = u64::MAX;
        while draws > 0 && self.find_ticket(secret.as_slice()).is_some()
            invariant
                secret@.len() == TICKET_SECRET_BYTES,
            decreases draws,
        {
            secret = random_bytes(TICKET_SECRET_BYTES);
            draws -= 1;
        }
        let ghost tickets = self@.tickets;
        assert(tickets.len() == self.tickets@.len());
        if self.find_ticket(secret.as_slice()).is_none() {
            return secret;
        }
        let ghost base = secret@;
        let ghost mut taken: Seq<int> = Seq::empty();
        let mut number: u16 = 0;
        secret.set(0, 0);
        secret.set(1, 0);
        let mut found = self.find_ticket(secret.as_slice());
        while found.is_some()
            invariant
                tickets == self@.tickets,
                tickets == self.ticket_views(),
                tickets.len() == self.tickets@.len(),
                tickets.len() <= MAX_OUTSTANDING_TICKETS,
                base.len() == TICKET_SECRET_BYTES,
                number <= MAX_OUTSTANDING_TICKETS,
                secret@ == numbered_secret(base, number as int),
                taken.len() == number,
                forall|k: int|
                    0 <= k < taken.len() ==> 0 <= #[trigger] taken[k] < tickets.len()
                        && tickets[taken[k]].ticket == numbered_secret(base, k),
                match found {
                    Some(i) => i < tickets.len() && tickets[i as int].ticket == secret@,
                    None => forall|j: int|
                        0 <= j < tickets.len() ==> (#[trigger] tickets[j]).ticket != secret@,
                },
            decreases MAX_OUTSTANDING_TICKETS - number,
        {
            proof {
                taken = taken.push(found->0 as int);
                assert forall|a: int, b: int| 0 <= a < b < taken.len() implies taken[a]
                    != taken[b] by {
                    lemma_numbered_secrets(base, a, b);
                }
                lemma_distinct_places(taken, tickets.len());
            }
            number += 1;
            secret.set(0, (number / 256) as u8);
            secret.set(1, (number % 256) as u8);
            assert(secret@ =~= numbered_secret(base, number as int));
            found = self.find_ticket(secret.as_slice());
        }
        secret
    }

    /// Issues a ticket with a random transfer id and a random secret.
    pub fn issue_ticket(
        &mut self,
        owner: &[u8],
        blob_id: &[u8],
        chunk_size: u32,
        now: u64,
        wall_ms: i64,
    ) -> (r: Result<BlobTicket, IssueTicketError>)
        requires
            old(self).wf(),
            now + BLOB_IDLE_TTL_MS <= u64::MAX,
            wall_ms + TICKET_TTL_MS <= i64::MAX,
        ensures
            final(self).wf(),
            issues(r, old(self)@, final(self)@, owner@, blob_id@, chunk_size, now, wall_ms),
    {
        let transfer_id: u64 = self.fresh_transfer_id();
        let ticket = self.fresh_secret();
        proof {
            lemma_pruned_tickets(self@, now);
        }
        self.issue_ticket_with(owner, blob_id, transfer_id, ticket, chunk_size, now, wall_ms)
    }

    /// Hands out the blob of a ticket and uses the ticket up.
    pub fn redeem(&mut self, owner: &[u8], transfer_id: u64, ticket: &[u8], now: u64) -> (r: Result<
        RedeemedBlob,
        &'static str,
    >)
        requires
            old(self).wf(),
            now + BLOB_IDLE_TTL_MS <= u64::MAX,
        ensures
            final(self).wf(),
            final(self)@ == redeemed(old(self)@, owner@, transfer_id, ticket@, now).0,
            match redeemed(old(self)@, owner@, transfer_id, ticket@, now).1 {
                Ok(b) => r is Ok && r->Ok_0.reference@ == reference_of(b)
                    && crate::outside::buffer_content(r->Ok_0.bytes) == b.content,
                Err(message) => r is Err && r->Err_0@ == message,
            },
    {
        self.prune(now);
        let ghost p = self@;
        proof {
            assert(p.tickets.len() == self.tickets@.len());
        }
        let i: usize = match self.find_ticket(ticket) {
            Some(i) => i,
            None => {
                return Err("blob ticket is invalid or expired");
            },
        };
        proof {
            assert(p.tickets[i as int] == self.tickets@[i as int]@);
            let m = ticket_place(p.tickets, ticket@);
            assert(m == i);
        }
        if self.tickets[i].transfer_id != transfer_id {
            return Err("blob transfer id does not match ticket");
        }
        if !bytes_eq(self.tickets[i].owner.as_slice(), owner) {
            return Err("blob ticket belongs to another device");
        }
        let blob_id = copy_bytes(&self.tickets[i].blob_id);
        proof {
            assert(valid_ticket(p.tickets[i as int], p.blobs));
            lemma_remove_ticket_sound(p.blobs, p.tickets, i as int);
        }
        self.remove_ticket(i);
        let e: usize = match self.find_entry(blob_id.as_slice()) {
            Some(e) => e,
            None => {
                proof {
                    let k = choose|k: int|
                        0 <= k < p.blobs.len() && (#[trigger] p.blobs[k]).id == blob_id@;
                    assert(p.blobs[k].id == blob_id@);
                    assert(false);
                }
                return Err("blob was evicted");
            },
        };
        let ghost before = *self;
        let ghost b0 = p.blobs[e as int];
        let ghost b = BlobView { last_access: now, delivered: b0.delivered.insert(owner@), ..b0 };
        proof {
            lemma_place(p.blobs, e as int);
            assert(self.entries@[e as int].wf());
            assert(self.entries@[e as int]@ == b0);
            let k = choose|k: int|
                0 <= k < p.blobs.len() && (#[trigger] p.blobs[k]).id == blob_id@
                    && p.blobs[k].owners.contains(owner@);
            assert(k == e);
            assert(valid_blob(b0));
            lemma_update_blob_sound(p.blobs, self.ticket_views(), e as int, b);
        }
        self.entries[e].last_access = now;
        self.entries[e].delivered_owners.insert(owner);
        proof {
            assert(self.blob_views() =~= p.blobs.update(e as int, b));
            assert forall|j: int| 0 <= j < self.entries@.len() implies (
            #[trigger] self.entries@[j]).wf() by {
                if j != e {
                    assert(self.entries@[j] == before.entries@[j]);
                    assert(before.entries@[j].wf());
                }
            }
            self.lemma_books_after_owner_change(before, e as int, b);
            assert forall|j: int| 0 <= j < self@.tickets.len() implies self@.next_prune_at is Some
                && self@.next_prune_at->0 <= (#[trigger] self@.tickets[j]).expires_at by {
                let m = if j < i {
                    j
                } else {
                    j + 1
                };
                assert(self@.tickets[j] == p.tickets[m]);
            }
        }
        Ok(
            RedeemedBlob {
                reference: self.entries[e].reference.clone(),
                bytes: buffer_clone(&self.entries[e].bytes),
            },
        )
    }

    /// The number of cached blobs.
    pub fn len(&self) -> (r: usize)
        ensures
            r == self@.blobs.len(),
    {
        self.entries.len()
    }

    /// The number of outstanding tickets.
    pub fn ticket_count(&self) -> (r: usize)
        ensures
            r == self@.tickets.len(),
    {
        self.tickets.len()
    }

    /// When the next sweep is due; none is while there is nothing to sweep.
    pub fn next_prune_at(&self) -> (r: Option<u64>)
        ensures
            r == self@.next_prune_at,
    {
        self.next_prune_at
    }
}

/// A blob is known by its digest, its length and its kind.
pub proof fn lemma_references_describe_blobs(blob: BlobView)
    requires
        blob.content.len() <= u64::MAX,
    ensures
        reference_of(blob).blob_id == blob.id,
        reference_of(blob).sha256 == blob.id,
        reference_of(blob).size == blob.content.len(),
        reference_of(blob).media_type == blob.media_type,
{
}

/// A blob that is new to the store is kept as it was offered, for the device that
/// offered it alone, and has not been fetched by anybody.
pub proof fn lemma_new_blobs_are_kept_as_offered(
    s: StoreView,
    owner: Seq<u8>,
    content: Seq<u8>,
    media_type: Seq<char>,
    now: u64,
)
    requires
        inserted(s, owner, content, media_type, now).1 is Some,
        !cached(pruned(s, now).blobs, crate::outside::sha256(content)),
    ensures
        ({
            let (after, reference) = inserted(s, owner, content, media_type, now);
            let b = after.blobs.last();
            &&& after.blobs.len() > 0
            &&& b.id == crate::outside::sha256(content)
            &&& b.content == content
            &&& b.media_type == media_type
            &&& b.last_access == now
            &&& b.owners == set![owner]
            &&& b.delivered == Set::<Seq<u8>>::empty()
            &&& reference->0.blob_id == b.id && reference->0.sha256 == b.id
            &&& reference->0.media_type == media_type
            &&& reference->0.size == content.len()
        }),
{
}

/// An empty store takes every blob that is proper: of a device with a name, neither
/// empty nor too large, and of a kind that can be named.
pub proof fn lemma_empty_store_takes_proper_blobs(
    owner: Seq<u8>,
    content: Seq<u8>,
    media_type: Seq<char>,
    now: u64,
)
    ensures
        ({
            let s = StoreView { blobs: Seq::empty(), tickets: Seq::empty(), next_prune_at: None };
            inserted(s, owner, content, media_type, now).1 is Some <==> {
                &&& 0 < owner.len() <= 128
                &&& 0 < content.len() <= 33_554_432
                &&& 0 < crate::text::utf8_len(media_type) <= 256
                &&& crate::text::control_free(media_type)
            }
        }),
{
    reveal_with_fuel(crate::keyed::sum_by, 2);
}

/// A sweep brings nothing new, and leaves every ticket whose time is not up and
/// every blob that was used within the last five minutes or has a ticket.
pub proof fn lemma_sweeps_leave_what_is_alive(s: StoreView, now: u64)
    ensures
        forall|t: TicketView|
            pruned(s, now).tickets.contains(t) ==> #[trigger] s.tickets.contains(t),
        forall|b: BlobView| pruned(s, now).blobs.contains(b) ==> #[trigger] s.blobs.contains(b),
        forall|t: TicketView|
            s.tickets.contains(t) && t.expires_at > now ==> #[trigger] pruned(
                s,
                now,
            ).tickets.contains(t),
        forall|b: BlobView|
            s.blobs.contains(b) && now - b.last_access < 300_000 ==> #[trigger] pruned(
                s,
                now,
            ).blobs.contains(b),
        s.next_prune_at is Some && s.next_prune_at->0 <= now ==> forall|t: TicketView|
            #[trigger] pruned(s, now).tickets.contains(t) ==> t.expires_at > now,
        s.next_prune_at is None || now < s.next_prune_at->0 ==> pruned(s, now) == s,
{
    let tickets = s.tickets.filter(live_ticket(now));
    lemma_filter_contains(s.tickets, live_ticket(now));
    lemma_filter_contains(s.blobs, live_blob(tickets, now));
}

proof fn lemma_filter_contains<T>(list: Seq<T>, keep: spec_fn(T) -> bool)
    ensures
        forall|x: T| #[trigger]
            list.filter(keep).contains(x) <==> list.contains(x) && keep(x),
    decreases list.len(),
{
    reveal(Seq::filter);
    if list.len() > 0 {
        let before = list.drop_last();
        lemma_filter_contains(before, keep);
        assert(list =~= before.push(list.last()));
        assert forall|x: T| #[trigger]
            list.filter(keep).contains(x) <==> list.contains(x) && keep(x) by {
            crate::keyed::lemma_push_contains(before, list.last(), x);
            crate::keyed::lemma_push_contains(before.filter(keep), list.last(), x);
            assert(before.filter(keep).contains(x) <==> before.contains(x) && keep(x));
        }
    }
}

/// To make room for a device, nothing is given up that it has not fetched or that a
/// ticket waits for, and nothing new appears.
pub proof fn lemma_unfetched_blobs_are_never_given_up(
    blobs: Seq<BlobView>,
    tickets: Seq<TicketView>,
    k: int,
    owner: Seq<u8>,
    bytes: nat,
    entries: nat,
    b: BlobView,
)
    requires
        blobs.contains(b),
        !b.delivered.contains(owner) || pinned(tickets, b.id),
    ensures
        reclaimed(blobs, tickets, k, owner, bytes, entries).contains(b),
        reclaimed(blobs, tickets, k, owner, bytes, entries).len() <= blobs.len(),
    decreases blobs.len() - k,
{
    if 0 <= k < blobs.len() && !owner_has_room(blobs, owner, bytes, entries) {
        let c = blobs[k];
        let i = choose|i: int| 0 <= i < blobs.len() && blobs[i] == b;
        if pinned(tickets, c.id) || !c.delivered.contains(owner) {
            lemma_unfetched_blobs_are_never_given_up(
                blobs,
                tickets,
                k + 1,
                owner,
                bytes,
                entries,
                b,
            );
        } else if c.owners.remove(owner) =~= Set::empty() {
            let fewer = blobs.remove(k);
            assert(fewer[if i < k {
                i
            } else {
                i - 1
            }] == b);
            lemma_unfetched_blobs_are_never_given_up(fewer, tickets, k, owner, bytes, entries, b);
        } else {
            let changed = blobs.update(k, released(c, owner));
            assert(changed[i] == b);
            lemma_unfetched_blobs_are_never_given_up(
                changed,
                tickets,
                k + 1,
                owner,
                bytes,
                entries,
                b,
            );
        }
    }
}

/// A ticket is for the blob and the device that asked, lasts half a minute, and has
/// a secret of 32 bytes that no other ticket has.
pub proof fn lemma_tickets_are_of_their_request(
    r: Result<BlobTicket, IssueTicketError>,
    before: StoreView,
    after: StoreView,
    owner: Seq<u8>,
    blob_id: Seq<u8>,
    chunk_size: u32,
    now: u64,
    wall_ms: i64,
)
    requires
        issues(r, before, after, owner, blob_id, chunk_size, now, wall_ms),
        valid(before),
        now + 30_000 <= u64::MAX,
    ensures
        r is Ok ==> {
            let t = after.tickets.last();
            &&& after.tickets.len() > 0
            &&& t.owner == owner
            &&& t.blob_id == blob_id
            &&& t.transfer_id == r->Ok_0.transfer_id
            &&& t.ticket == r->Ok_0.ticket@
            &&& t.expires_at == now + 30_000
            &&& r->Ok_0.ticket@.len() == 32
            &&& r->Ok_0.transfer_id > 0
            &&& r->Ok_0.expires_at_ms == wall_ms + 30_000
            &&& r->Ok_0.chunk_size == chunk_size
            &&& r->Ok_0.blob is Some && r->Ok_0.blob->0.blob_id@ == blob_id
        },
        r is Err && r->Err_0 is NotFound ==> after.tickets == pruned(before, now).tickets,
        r is Err ==> after.tickets.len() <= before.tickets.len(),
{
    let p = pruned(before, now);
    lemma_pruned_valid(before, now);
    lemma_filter_len(before.tickets, live_ticket(now));
    if holds(p.blobs, blob_id, owner) {
        let k = choose|k: int|
            0 <= k < p.blobs.len() && (#[trigger] p.blobs[k]).id == blob_id
                && p.blobs[k].owners.contains(owner);
        lemma_place(p.blobs, k);
    }
}

proof fn lemma_filter_len<T>(list: Seq<T>, keep: spec_fn(T) -> bool)
    ensures
        list.filter(keep).len() <= list.len(),
    decreases list.len(),
{
    reveal(Seq::filter);
    if list.len() > 0 {
        lemma_filter_len(list.drop_last(), keep);
    }
}

/// A redeemed ticket is gone, and the blob that it handed out has been fetched by
/// the device and was used just now.
pub proof fn lemma_redeemed_blobs_are_marked(
    s: StoreView,
    owner: Seq<u8>,
    transfer_id: u64,
    ticket: Seq<u8>,
    now: u64,
)
    requires
        valid(s),
    ensures
        ({
            let (after, handed) = redeemed(s, owner, transfer_id, ticket, now);
            let p = pruned(s, now);
            &&& handed is Ok ==> {
                &&& after.tickets.len() == p.tickets.len() - 1
                &&& after.blobs.len() == p.blobs.len()
                &&& exists|k: int|
                    0 <= k < after.blobs.len() && (#[trigger] after.blobs[k]).id
                        == handed->Ok_0.id && after.blobs[k].content == handed->Ok_0.content
                        && after.blobs[k].delivered.contains(owner)
                        && after.blobs[k].last_access == now
            }
            &&& handed is Err ==> after == p
        }),
{
    let p = pruned(s, now);
    lemma_pruned_valid(s, now);
    if outstanding(p.tickets, ticket) {
        let t = p.tickets[ticket_place(p.tickets, ticket)];
        assert(valid_ticket(t, p.blobs));
        let k = choose|k: int|
            0 <= k < p.blobs.len() && (#[trigger] p.blobs[k]).id == t.blob_id
                && p.blobs[k].owners.contains(t.owner);
        lemma_place(p.blobs, k);
        let after = redeemed(s, owner, transfer_id, ticket, now).0;
        if t.transfer_id == transfer_id && t.owner == owner {
            assert(after.blobs[k].id == t.blob_id);
        }
    }
}

/// The earlier of two times is one of them and comes after neither.
pub proof fn lemma_earlier_is_the_first(a: Option<u64>, b: Option<u64>)
    ensures
        a is None ==> earlier(a, b) == b,
        b is None ==> earlier(a, b) == a,
        a is Some && b is Some ==> earlier(a, b) is Some && earlier(a, b)->0 <= a->0 && earlier(
            a,
            b,
        )->0 <= b->0 && (earlier(a, b) == a || earlier(a, b) == b),
{
}

/// The store takes a blob while it holds fewer than 4096 of at most 64 MiB together, and
/// from one device up to 1024 of at most 32 MiB together.
pub proof fn lemma_limits_of_the_store(
    blobs: Seq<BlobView>,
    owner: Seq<u8>,
    bytes: nat,
    entries: nat,
)
    ensures
        blobs.len() >= 4096 ==> !store_has_room(blobs, bytes),
        total_bytes(blobs) + bytes > 67_108_864 ==> !store_has_room(blobs, bytes),
        blobs.len() < 4096 && total_bytes(blobs) + bytes <= 67_108_864 ==> store_has_room(
            blobs,
            bytes,
        ),
        owned_bytes(blobs, owner) + bytes > 33_554_432 ==> !owner_has_room(
            blobs,
            owner,
            bytes,
            entries,
        ),
        owned_entries(blobs, owner) + entries > 1024 ==> !owner_has_room(
            blobs,
            owner,
            bytes,
            entries,
        ),
        owned_bytes(blobs, owner) + bytes <= 33_554_432 && owned_entries(blobs, owner) + entries
            <= 1024 ==> owner_has_room(blobs, owner, bytes, entries),
{
}

/// A blob counts with its length, for the store and for each device that owns it, and
/// for no other one.
pub proof fn lemma_blobs_count_with_their_length(blobs: Seq<BlobView>, b: BlobView, owner: Seq<u8>)
    ensures
        total_bytes(blobs.push(b)) == total_bytes(blobs) + b.content.len(),
        b.owners.contains(owner) ==> owned_bytes(blobs.push(b), owner) == owned_bytes(blobs, owner)
            + b.content.len() && owned_entries(blobs.push(b), owner) == owned_entries(blobs, owner)
            + 1,
        !b.owners.contains(owner) ==> owned_bytes(blobs.push(b), owner) == owned_bytes(blobs, owner)
            && owned_entries(blobs.push(b), owner) == owned_entries(blobs, owner),
        total_bytes(Seq::empty()) == 0,
        owned_bytes(Seq::empty(), owner) == 0,
        owned_entries(Seq::empty(), owner) == 0,
{
    assert(blobs.push(b).drop_last() =~= blobs);
}

/// A ticket lives until its time has come; a blob lives while a ticket is out for it or
/// it was used within five minutes.
pub proof fn lemma_what_lives(t: TicketView, tickets: Seq<TicketView>, b: BlobView, now: u64)
    requires
        b.last_access <= now,
        b.last_access + 300_000 <= u64::MAX,
    ensures
        live_ticket(now)(t) <==> now < t.expires_at,
        pinned(tickets, b.id) ==> live_blob(tickets, now)(b) && idle_deadline(b, tickets) is None,
        !pinned(tickets, b.id) ==> (live_blob(tickets, now)(b) <==> now < b.last_access + 300_000)
            && idle_deadline(b, tickets) == Some((b.last_access + 300_000) as u64),
{
}

/// A blob is acceptable from a named device when it is not empty, has at most 64 MiB,
/// and says in plain text of at most 256 bytes what it is.
pub proof fn lemma_acceptable_blobs(owner: Seq<u8>, content: Seq<u8>, media_type: Seq<char>)
    ensures
        acceptable(owner, content, media_type) ==> 0 < owner.len() <= 128 && 0 < content.len()
            <= 67_108_864 && 0 < crate::text::utf8_len(media_type) <= 256
            && crate::text::control_free(media_type),
        0 < owner.len() <= 128 && 0 < content.len() <= 67_108_864 && 0 < crate::text::utf8_len(
            media_type,
        ) <= 256 && crate::text::control_free(media_type) ==> acceptable(
            owner,
            content,
            media_type,
        ),
{
}

/// A device that is let go owns nothing of a blob any more, and the others own what
/// they did.
pub proof fn lemma_released_devices_own_nothing(b: BlobView, owner: Seq<u8>, other: Seq<u8>)
    ensures
        !released(b, owner).owners.contains(owner),
        !released(b, owner).delivered.contains(owner),
        other != owner ==> released(b, owner).owners.contains(other) == b.owners.contains(other)
            && released(b, owner).delivered.contains(other) == b.delivered.contains(other),
        released(b, owner).id == b.id,
        released(b, owner).content == b.content,
        released(b, owner).last_access == b.last_access,
{
}

} // verus!
