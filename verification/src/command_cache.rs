//! Replays the response to a command that a device sends again under the same
//! idempotency key, within limits per device and overall.

use vstd::prelude::*;

use crate::keyed::{
    decrement_counter, lemma_sum_at_least, lemma_sum_push, lemma_sum_remove,
    CounterTable,
};
use crate::proto::copy_bytes;
use crate::status::{status, ErrorCode, Status};
use crate::text::bytes_eq;

verus! {

/// Milliseconds that a response is kept.
pub const COMMAND_CACHE_TTL_MS: u64 = 300_000;

pub const MAX_CACHED_COMMANDS_PER_DEVICE: usize = 256;

pub const MAX_CACHED_COMMAND_BYTES_PER_DEVICE: usize = 8_388_608;

pub const MAX_CACHED_COMMANDS_GLOBAL: usize = 1024;

pub const MAX_CACHED_COMMAND_BYTES_GLOBAL: usize = 67_108_864;

/// The authenticated device and the idempotency key that it chose.
#[derive(Debug, PartialEq, Eq, Hash)]
pub struct CommandCacheKey {
    device_public_key: Vec<u8>,
    idempotency_key: Vec<u8>,
}

/// A [`CommandCacheKey`] as a mathematical value.
pub struct KeyView {
    pub device: Seq<u8>,
    pub idempotency_key: Seq<u8>,
}

impl CommandCacheKey {
    pub closed spec fn view(&self) -> KeyView {
        KeyView { device: self.device_public_key@, idempotency_key: self.idempotency_key@ }
    }

    pub fn new(device_public_key: &[u8], idempotency_key: &[u8]) -> (r: CommandCacheKey)
        ensures
            r@ == (KeyView { device: device_public_key@, idempotency_key: idempotency_key@ }),
    {
        CommandCacheKey {
            device_public_key: vstd::slice::slice_to_vec(device_public_key),
            idempotency_key: vstd::slice::slice_to_vec(idempotency_key),
        }
    }

    /// Compares two keys.
    pub fn same(&self, other: &CommandCacheKey) -> (r: bool)
        ensures
            r == (self@ == other@),
    {
        bytes_eq(self.device_public_key.as_slice(), other.device_public_key.as_slice())
            && bytes_eq(self.idempotency_key.as_slice(), other.idempotency_key.as_slice())
    }
}

impl Clone for CommandCacheKey {
    fn clone(&self) -> (r: CommandCacheKey)
        ensures
            r@ == self@,
    {
        CommandCacheKey {
            device_public_key: copy_bytes(&self.device_public_key),
            idempotency_key: copy_bytes(&self.idempotency_key),
        }
    }
}

/// The response to a command.
#[derive(Debug, PartialEq, Eq)]
pub struct CommandResponse {
    pub request_id: u64,
    pub status: Status,
    pub output: Option<String>,
}

/// A [`CommandResponse`] as a mathematical value.
pub struct CommandResponseView {
    pub request_id: u64,
    pub status: crate::status::StatusView,
    pub output: Option<Seq<char>>,
}

impl View for CommandResponse {
    type V = CommandResponseView;

    open spec fn view(&self) -> CommandResponseView {
        CommandResponseView {
            request_id: self.request_id,
            status: self.status@,
            output: match self.output {
                Some(text) => Some(text@),
                None => None,
            },
        }
    }
}

impl Clone for CommandResponse {
    fn clone(&self) -> (r: CommandResponse)
        ensures
            r@ == self@,
    {
        CommandResponse {
            request_id: self.request_id,
            status: self.status.clone(),
            output: match &self.output {
                Some(text) => Some(text.clone()),
                None => None,
            },
        }
    }
}

/// True when `r` answers `request_id` with nothing but an error.
pub open spec fn is_error_response(
    r: CommandResponseView,
    request_id: u64,
    code: ErrorCode,
    message: Seq<char>,
) -> bool {
    r.request_id == request_id && r.output is None && crate::status::reports(
        r.status,
        code,
        message,
    )
}

/// Answers a command with an error.
pub fn command_error(request_id: u64, code: ErrorCode, message: &str) -> (r: CommandResponse)
    ensures
        is_error_response(r@, request_id, code, message@),
{
    CommandResponse { request_id, status: status(code, message), output: None }
}

/// A cached response as a mathematical value.
pub struct CachedView {
    pub key: KeyView,
    pub command: Seq<u8>,
    pub response: CommandResponseView,
    pub created_at: u64,
    pub size: nat,
}

/// A command that is being carried out, as a mathematical value.
pub struct InFlightView {
    pub key: KeyView,
    pub command: Seq<u8>,
}

/// The cache as a mathematical value: the responses, oldest first, and the
/// commands that are being carried out.
#[verifier::ext_equal]
pub struct CacheView {
    pub entries: Seq<CachedView>,
    pub in_flight: Seq<InFlightView>,
}

pub open spec fn entry_size() -> spec_fn(CachedView) -> nat {
    |e: CachedView| e.size
}

pub open spec fn size_for(device: Seq<u8>) -> spec_fn(CachedView) -> nat {
    |e: CachedView|
        if e.key.device == device {
            e.size
        } else {
            0
        }
}

pub open spec fn one_for(device: Seq<u8>) -> spec_fn(CachedView) -> nat {
    |e: CachedView|
        if e.key.device == device {
            1
        } else {
            0
        }
}

/// The bytes that the cache holds for all devices.
pub open spec fn total_bytes(entries: Seq<CachedView>) -> nat {
    crate::keyed::sum_by(entries, entry_size())
}

/// The bytes that the cache holds for one device.
pub open spec fn device_bytes(entries: Seq<CachedView>, device: Seq<u8>) -> nat {
    crate::keyed::sum_by(entries, size_for(device))
}

/// The responses that the cache holds for one device.
pub open spec fn device_entries(entries: Seq<CachedView>, device: Seq<u8>) -> nat {
    crate::keyed::sum_by(entries, one_for(device))
}

/// True when a device has more in the cache than it may.
pub open spec fn device_over_budget(entries: Seq<CachedView>, device: Seq<u8>) -> bool {
    device_entries(entries, device) > MAX_CACHED_COMMANDS_PER_DEVICE || device_bytes(entries, device)
        > MAX_CACHED_COMMAND_BYTES_PER_DEVICE
}

/// True when the cache holds more than it may.
pub open spec fn over_budget(entries: Seq<CachedView>) -> bool {
    entries.len() > MAX_CACHED_COMMANDS_GLOBAL || total_bytes(entries)
        > MAX_CACHED_COMMAND_BYTES_GLOBAL
}

/// The entries without the expired ones at the front.
pub open spec fn without_expired(entries: Seq<CachedView>, now: u64) -> Seq<CachedView>
    decreases entries.len(),
{
    if entries.len() > 0 && now - entries[0].created_at >= COMMAND_CACHE_TTL_MS {
        without_expired(entries.drop_first(), now)
    } else {
        entries
    }
}

/// The entries after the oldest were dropped until the cache is within its
/// limits.
pub open spec fn within_budget(entries: Seq<CachedView>) -> Seq<CachedView>
    decreases entries.len(),
{
    if entries.len() > 0 && over_budget(entries) {
        within_budget(entries.drop_first())
    } else {
        entries
    }
}

/// The entries after a sweep.
pub open spec fn pruned(entries: Seq<CachedView>, now: u64) -> Seq<CachedView> {
    within_budget(without_expired(entries, now))
}

/// True when a response is cached under this key.
pub open spec fn cached(entries: Seq<CachedView>, key: KeyView) -> bool {
    exists|i: int| 0 <= i < entries.len() && (#[trigger] entries[i]).key == key
}

/// Where the response under this key stands.
pub open spec fn place(entries: Seq<CachedView>, key: KeyView) -> int {
    choose|i: int| 0 <= i < entries.len() && (#[trigger] entries[i]).key == key
}

/// The entries without the one under this key.
pub open spec fn without(entries: Seq<CachedView>, key: KeyView) -> Seq<CachedView> {
    if cached(entries, key) {
        entries.remove(place(entries, key))
    } else {
        entries
    }
}

/// The position of the oldest entry of a device, counting from `k`.
pub open spec fn oldest_of(entries: Seq<CachedView>, device: Seq<u8>, k: int) -> int
    decreases entries.len() - k,
{
    if k < 0 || k >= entries.len() || entries[k].key.device == device {
        k
    } else {
        oldest_of(entries, device, k + 1)
    }
}

/// The entries after the oldest of a device were dropped until it is within its
/// limits.
pub open spec fn device_trimmed(entries: Seq<CachedView>, device: Seq<u8>) -> Seq<CachedView>
    decreases entries.len(),
{
    let k = oldest_of(entries, device, 0);
    if device_over_budget(entries, device) && 0 <= k < entries.len() {
        device_trimmed(entries.remove(k), device)
    } else {
        entries
    }
}

/// The entries after a response was added.
pub open spec fn inserted(
    entries: Seq<CachedView>,
    key: KeyView,
    command: Seq<u8>,
    response: CommandResponseView,
    response_len: nat,
    now: u64,
) -> Seq<CachedView> {
    let rest = without(entries, key);
    let size = key.idempotency_key.len() + command.len() + response_len;
    if size > MAX_CACHED_COMMAND_BYTES_PER_DEVICE {
        rest
    } else {
        let e = CachedView { key, command, response, created_at: now, size };
        pruned(device_trimmed(rest.push(e), key.device), now)
    }
}

/// The entries after a command was answered: an answer that invites to try again is
/// not kept.
pub open spec fn remembered(
    entries: Seq<CachedView>,
    key: KeyView,
    command: Seq<u8>,
    response: CommandResponseView,
    response_len: nat,
    now: u64,
) -> Seq<CachedView> {
    if response.status.retryable {
        entries
    } else {
        inserted(entries, key, command, response, response_len, now)
    }
}

/// No two entries have one key.
pub open spec fn distinct(entries: Seq<CachedView>) -> bool {
    forall|i: int, j: int|
        0 <= i < entries.len() && 0 <= j < entries.len() && i != j ==> (#[trigger] entries[i]).key
            != (#[trigger] entries[j]).key
}

/// No two commands that are being carried out have one key.
pub open spec fn distinct_in_flight(in_flight: Seq<InFlightView>) -> bool {
    forall|i: int, j: int|
        0 <= i < in_flight.len() && 0 <= j < in_flight.len() && i != j ==> (
        #[trigger] in_flight[i]).key != (#[trigger] in_flight[j]).key
}

/// Every device is within its limits.
pub open spec fn devices_within(entries: Seq<CachedView>) -> bool {
    forall|d: Seq<u8>| !#[trigger] device_over_budget(entries, d)
}

/// What holds of every cache: keys are distinct, and the cache is within its
/// limits, for each device and overall.
pub open spec fn valid(s: CacheView) -> bool {
    &&& distinct(s.entries)
    &&& distinct_in_flight(s.in_flight)
    &&& devices_within(s.entries)
    &&& !over_budget(s.entries)
}

/// True when a command with this key is being carried out.
pub open spec fn running(in_flight: Seq<InFlightView>, key: KeyView) -> bool {
    exists|i: int| 0 <= i < in_flight.len() && (#[trigger] in_flight[i]).key == key
}

/// Where the running command with this key stands.
pub open spec fn running_place(in_flight: Seq<InFlightView>, key: KeyView) -> int {
    choose|i: int| 0 <= i < in_flight.len() && (#[trigger] in_flight[i]).key == key
}

/// The running commands without the one under this key.
pub open spec fn finished(in_flight: Seq<InFlightView>, key: KeyView) -> Seq<InFlightView> {
    if running(in_flight, key) {
        in_flight.remove(running_place(in_flight, key))
    } else {
        in_flight
    }
}

/// With distinct keys an entry stands in one place only.
proof fn lemma_place(entries: Seq<CachedView>, i: int)
    requires
        distinct(entries),
        0 <= i < entries.len(),
    ensures
        cached(entries, entries[i].key),
        place(entries, entries[i].key) == i,
{
}

proof fn lemma_running_place(in_flight: Seq<InFlightView>, i: int)
    requires
        distinct_in_flight(in_flight),
        0 <= i < in_flight.len(),
    ensures
        running(in_flight, in_flight[i].key),
        running_place(in_flight, in_flight[i].key) == i,
{
}

/// Removing an entry keeps keys distinct and takes no device over its limits.
proof fn lemma_remove(entries: Seq<CachedView>, i: int)
    requires
        distinct(entries),
        0 <= i < entries.len(),
    ensures
        distinct(entries.remove(i)),
        total_bytes(entries.remove(i)) + entries[i].size == total_bytes(entries),
        forall|d: Seq<u8>| #[trigger]
            device_over_budget(entries.remove(i), d) ==> device_over_budget(entries, d),
        over_budget(entries.remove(i)) ==> over_budget(entries),
        !cached(entries.remove(i), entries[i].key),
{
    let after = entries.remove(i);
    lemma_sum_remove(entries, i, entry_size());
    assert forall|d: Seq<u8>| #[trigger] device_over_budget(after, d) implies device_over_budget(
        entries,
        d,
    ) by {
        lemma_sum_remove(entries, i, size_for(d));
        lemma_sum_remove(entries, i, one_for(d));
    }
    assert forall|j: int| 0 <= j < after.len() implies (#[trigger] after[j]).key != entries[i].key by {
        if j < i {
            assert(after[j] == entries[j]);
        } else {
            assert(after[j] == entries[j + 1]);
        }
    }
    assert forall|j: int, k: int|
        0 <= j < after.len() && 0 <= k < after.len() && j != k implies (#[trigger] after[j]).key
        != (#[trigger] after[k]).key by {
        let m = if j < i {
            j
        } else {
            j + 1
        };
        let n = if k < i {
            k
        } else {
            k + 1
        };
        assert(entries[m].key != entries[n].key);
    }
}

/// A sweep keeps keys distinct.
pub proof fn lemma_pruned_distinct(entries: Seq<CachedView>, now: u64)
    requires
        distinct(entries),
    ensures
        distinct(pruned(entries, now)),
{
    lemma_without_expired_distinct(entries, now);
    lemma_within_budget_distinct(without_expired(entries, now));
}

proof fn lemma_without_expired_distinct(entries: Seq<CachedView>, now: u64)
    requires
        distinct(entries),
    ensures
        distinct(without_expired(entries, now)),
    decreases entries.len(),
{
    if entries.len() > 0 && now - entries[0].created_at >= COMMAND_CACHE_TTL_MS {
        lemma_without_expired_distinct(entries.drop_first(), now);
    }
}

proof fn lemma_within_budget_distinct(entries: Seq<CachedView>)
    requires
        distinct(entries),
    ensures
        distinct(within_budget(entries)),
    decreases entries.len(),
{
    if entries.len() > 0 && over_budget(entries) {
        lemma_within_budget_distinct(entries.drop_first());
    }
}

proof fn lemma_trimmed_distinct(entries: Seq<CachedView>, device: Seq<u8>)
    requires
        distinct(entries),
    ensures
        distinct(device_trimmed(entries, device)),
    decreases entries.len(),
{
    let k = oldest_of(entries, device, 0);
    if device_over_budget(entries, device) && 0 <= k < entries.len() {
        lemma_remove(entries, k);
        lemma_trimmed_distinct(entries.remove(k), device);
    }
}

/// Adding a response keeps keys distinct.
pub proof fn lemma_inserted_distinct(
    entries: Seq<CachedView>,
    key: KeyView,
    command: Seq<u8>,
    response: CommandResponseView,
    response_len: nat,
    now: u64,
)
    requires
        distinct(entries),
    ensures
        distinct(inserted(entries, key, command, response, response_len, now)),
{
    let rest = without(entries, key);
    if cached(entries, key) {
        lemma_remove(entries, place(entries, key));
    }
    assert(distinct(rest) && !cached(rest, key));
    let size = key.idempotency_key.len() + command.len() + response_len;
    if size <= MAX_CACHED_COMMAND_BYTES_PER_DEVICE {
        let e = CachedView { key, command, response, created_at: now, size };
        let pushed = rest.push(e);
        assert forall|i: int, j: int|
            0 <= i < pushed.len() && 0 <= j < pushed.len() && i != j implies (
        #[trigger] pushed[i]).key != (#[trigger] pushed[j]).key by {
            if i < rest.len() {
                assert(rest[i].key != key);
            }
            if j < rest.len() {
                assert(rest[j].key != key);
            }
        }
        lemma_trimmed_distinct(pushed, key.device);
        lemma_pruned_distinct(device_trimmed(pushed, key.device), now);
    }
}

/// A device that is over its limits has an entry, and the search finds it.
proof fn lemma_oldest(entries: Seq<CachedView>, device: Seq<u8>, k: int)
    requires
        0 <= k <= entries.len(),
    ensures
        k <= oldest_of(entries, device, k) <= entries.len(),
        oldest_of(entries, device, k) < entries.len() ==> entries[oldest_of(
            entries,
            device,
            k,
        )].key.device == device,
        oldest_of(entries, device, k) == entries.len() ==> forall|j: int|
            k <= j < entries.len() ==> (#[trigger] entries[j]).key.device != device,
    decreases entries.len() - k,
{
    if k < entries.len() && entries[k].key.device != device {
        lemma_oldest(entries, device, k + 1);
    }
}

proof fn lemma_over_budget_has_entry(entries: Seq<CachedView>, device: Seq<u8>)
    requires
        device_over_budget(entries, device),
    ensures
        0 <= oldest_of(entries, device, 0) < entries.len(),
{
    lemma_oldest(entries, device, 0);
    if oldest_of(entries, device, 0) == entries.len() {
        crate::keyed::lemma_sum_zero(entries, size_for(device));
        crate::keyed::lemma_sum_zero(entries, one_for(device));
        assert forall|j: int| 0 <= j < entries.len() implies size_for(device)(#[trigger] entries[j])
            == 0 by {
            assert(entries[j].key.device != device);
        }
        assert forall|j: int| 0 <= j < entries.len() implies one_for(device)(#[trigger] entries[j])
            == 0 by {
            assert(entries[j].key.device != device);
        }
    }
}

proof fn lemma_expiry_keeps_last(entries: Seq<CachedView>, now: u64)
    requires
        entries.len() > 0,
        now - entries.last().created_at < COMMAND_CACHE_TTL_MS,
    ensures
        without_expired(entries, now).len() > 0,
        without_expired(entries, now).last() == entries.last(),
    decreases entries.len(),
{
    if now - entries[0].created_at >= COMMAND_CACHE_TTL_MS {
        lemma_expiry_keeps_last(entries.drop_first(), now);
    }
}

proof fn lemma_budget_keeps_last(entries: Seq<CachedView>)
    requires
        entries.len() > 0,
        entries.last().size <= MAX_CACHED_COMMAND_BYTES_PER_DEVICE,
    ensures
        within_budget(entries).len() > 0,
        within_budget(entries).last() == entries.last(),
    decreases entries.len(),
{
    if over_budget(entries) {
        if entries.len() == 1 {
            assert(entries =~= Seq::<CachedView>::empty().push(entries.last()));
            lemma_sum_push(Seq::<CachedView>::empty(), entries.last(), entry_size());
        } else {
            lemma_budget_keeps_last(entries.drop_first());
        }
    }
}

proof fn lemma_trim_keeps_last(entries: Seq<CachedView>, device: Seq<u8>)
    requires
        entries.len() > 0,
        entries.last().key.device == device,
        entries.last().size <= MAX_CACHED_COMMAND_BYTES_PER_DEVICE,
    ensures
        device_trimmed(entries, device).len() > 0,
        device_trimmed(entries, device).last() == entries.last(),
    decreases entries.len(),
{
    let k = oldest_of(entries, device, 0);
    lemma_oldest(entries, device, 0);
    if device_over_budget(entries, device) && 0 <= k < entries.len() {
        if k == entries.len() - 1 {
            lemma_oldest_is_first(entries, device, 0);
            let rest = entries.drop_last();
            let last = entries.last();
            assert(entries =~= rest.push(last));
            lemma_sum_push(rest, last, size_for(device));
            lemma_sum_push(rest, last, one_for(device));
            crate::keyed::lemma_sum_zero(rest, size_for(device));
            crate::keyed::lemma_sum_zero(rest, one_for(device));
            assert forall|j: int| 0 <= j < rest.len() implies size_for(device)(#[trigger] rest[j])
                == 0 by {
                assert(rest[j] == entries[j]);
            }
            assert forall|j: int| 0 <= j < rest.len() implies one_for(device)(#[trigger] rest[j])
                == 0 by {
                assert(rest[j] == entries[j]);
            }
        } else {
            assert(entries.remove(k).last() == entries.last());
            lemma_trim_keeps_last(entries.remove(k), device);
        }
    }
}

proof fn lemma_oldest_is_first(entries: Seq<CachedView>, device: Seq<u8>, k: int)
    requires
        0 <= k <= entries.len(),
    ensures
        forall|j: int|
            k <= j < oldest_of(entries, device, k) ==> (#[trigger] entries[j]).key.device != device,
    decreases entries.len() - k,
{
    if k < entries.len() && entries[k].key.device != device {
        lemma_oldest_is_first(entries, device, k + 1);
    }
}

/// The response to a command that was not too large is replayed until its time
/// is up: right after it was added, and at every later sweep in between.
pub proof fn lemma_replay(
    entries: Seq<CachedView>,
    key: KeyView,
    command: Seq<u8>,
    response: CommandResponseView,
    response_len: nat,
    now: u64,
    later: u64,
)
    requires
        key.idempotency_key.len() + command.len() + response_len
            <= MAX_CACHED_COMMAND_BYTES_PER_DEVICE,
        later - now < COMMAND_CACHE_TTL_MS,
    ensures
        ({
            let p = pruned(inserted(entries, key, command, response, response_len, now), later);
            &&& p.len() > 0
            &&& p.last().key == key
            &&& p.last().command == command
            &&& p.last().response == response
            &&& cached(p, key)
        }),
{
    let size = key.idempotency_key.len() + command.len() + response_len;
    let e = CachedView { key, command, response, created_at: now, size };
    let pushed = without(entries, key).push(e);
    let trimmed = device_trimmed(pushed, key.device);
    lemma_trim_keeps_last(pushed, key.device);
    lemma_expiry_keeps_last(trimmed, now);
    lemma_budget_keeps_last(without_expired(trimmed, now));
    let stored = pruned(trimmed, now);
    lemma_expiry_keeps_last(stored, later);
    lemma_budget_keeps_last(without_expired(stored, later));
    let p = pruned(stored, later);
    assert(p[p.len() - 1].key == key);
}

struct CachedCommand {
    key: CommandCacheKey,
    command: Vec<u8>,
    response: CommandResponse,
    created_at: u64,
    size: usize,
}

impl CachedCommand {
    spec fn view(&self) -> CachedView {
        CachedView {
            key: self.key@,
            command: self.command@,
            response: self.response@,
            created_at: self.created_at,
            size: self.size as nat,
        }
    }
}

struct InFlightCommand {
    key: CommandCacheKey,
    command: Vec<u8>,
}

impl InFlightCommand {
    spec fn view(&self) -> InFlightView {
        InFlightView { key: self.key@, command: self.command@ }
    }
}

/// What is done with a command that came in.
#[derive(Debug)]
pub enum CommandAdmission {
    /// It is answered at once.
    Answer(CommandResponse),
    /// The same command is being carried out; its response answers this one
    /// too.
    Join,
    /// It is to be carried out.
    Start,
}

/// True when `r` is what is done with a command that came in, and `after` is
/// the cache that this leaves of `before`.
pub open spec fn admits(
    r: CommandAdmission,
    before: CacheView,
    after: CacheView,
    key: KeyView,
    command: Seq<u8>,
    request_id: u64,
    permit_available: bool,
    now: u64,
) -> bool {
    let p = pruned(before.entries, now);
    let e = p[place(p, key)];
    let f = before.in_flight[running_place(before.in_flight, key)];
    let reused = "idempotency key was reused for a different command"@;
    &&& after.entries == p
    &&& after.in_flight == if r is Start {
        before.in_flight.push(InFlightView { key, command })
    } else {
        before.in_flight
    }
    &&& if cached(p, key) {
        if e.command == command {
            r is Answer && r->Answer_0@ == (CommandResponseView { request_id, ..e.response })
        } else {
            r is Answer && is_error_response(
                r->Answer_0@,
                request_id,
                ErrorCode::InvalidArgument,
                reused,
            )
        }
    } else if running(before.in_flight, key) {
        if f.command == command {
            r is Join
        } else {
            r is Answer && is_error_response(
                r->Answer_0@,
                request_id,
                ErrorCode::InvalidArgument,
                reused,
            )
        }
    } else if !permit_available {
        r is Answer && is_error_response(
            r->Answer_0@,
            request_id,
            ErrorCode::ResourceExhausted,
            "too many background commands are active"@,
        )
    } else {
        r is Start
    }
}

/// The command cache.
pub struct CommandCache {
    entries: Vec<CachedCommand>,
    in_flight: Vec<InFlightCommand>,
    per_device_bytes: CounterTable,
    per_device_entries: CounterTable,
    total_bytes: usize,
}

impl Default for CommandCache {
    fn default() -> (r: CommandCache)
        ensures
            r.wf(),
            r@ == (CacheView { entries: Seq::empty(), in_flight: Seq::empty() }),
    {
        CommandCache::new()
    }
}

impl CommandCache {
    spec fn entry_views(&self) -> Seq<CachedView> {
        self.entries@.map_values(|e: CachedCommand| e@)
    }

    spec fn in_flight_views(&self) -> Seq<InFlightView> {
        self.in_flight@.map_values(|e: InFlightCommand| e@)
    }

    /// The cache as a mathematical value.
    pub closed spec fn view(&self) -> CacheView {
        CacheView { entries: self.entry_views(), in_flight: self.in_flight_views() }
    }

    spec fn books(&self) -> bool {
        &&& self.per_device_bytes.wf()
        &&& self.per_device_entries.wf()
        &&& forall|d: Seq<u8>| #[trigger]
            self.per_device_bytes.count(d) == device_bytes(self.entry_views(), d)
        &&& forall|d: Seq<u8>| #[trigger]
            self.per_device_entries.count(d) == device_entries(self.entry_views(), d)
        &&& self.total_bytes == total_bytes(self.entry_views())
    }

    /// What holds of every cache that was made with [`CommandCache::new`].
    pub closed spec fn wf(&self) -> bool {
        self.books() && valid(self@)
    }

    /// A cache keeps its limits, and its keys are distinct.
    pub proof fn lemma_valid(&self)
        requires
            self.wf(),
        ensures
            valid(self@),
    {
    }

    pub fn new() -> (r: CommandCache)
        ensures
            r.wf(),
            r@ == (CacheView { entries: Seq::empty(), in_flight: Seq::empty() }),
    {
        let r = CommandCache {
            entries: Vec::new(),
            in_flight: Vec::new(),
            per_device_bytes: CounterTable::new(),
            per_device_entries: CounterTable::new(),
            total_bytes: 0,
        };
        assert(r.entry_views() =~= Seq::<CachedView>::empty());
        assert(r.in_flight_views() =~= Seq::<InFlightView>::empty());
        r
    }

    fn remove_at(&mut self, i: usize)
        requires
            old(self).books(),
            distinct(old(self).entry_views()),
            i < old(self).entries@.len(),
        ensures
            final(self).books(),
            final(self).entry_views() == old(self).entry_views().remove(i as int),
            final(self).in_flight == old(self).in_flight,
    {
        let ghost before = self.entry_views();
        let ghost e = before[i as int];
        proof {
            lemma_remove(before, i as int);
            assert(before[i as int] == self.entries@[i as int]@);
            lemma_sum_at_least(before, i as int, size_for(e.key.device));
            lemma_sum_at_least(before, i as int, one_for(e.key.device));
            assert(self.per_device_bytes.count(e.key.device) == device_bytes(
                before,
                e.key.device,
            ));
            assert(self.per_device_entries.count(e.key.device) == device_entries(
                before,
                e.key.device,
            ));
        }
        let entry = self.entries.remove(i);
        self.total_bytes = self.total_bytes - entry.size;
        decrement_counter(
            &mut self.per_device_bytes,
            entry.key.device_public_key.as_slice(),
            entry.size,
        );
        decrement_counter(&mut self.per_device_entries, entry.key.device_public_key.as_slice(), 1);
        proof {
            assert(self.entry_views() =~= before.remove(i as int));
            assert forall|d: Seq<u8>| #[trigger]
                self.per_device_bytes.count(d) == device_bytes(self.entry_views(), d) by {
                assert(old(self).per_device_bytes.count(d) == device_bytes(before, d));
                lemma_sum_remove(before, i as int, size_for(d));
            }
            assert forall|d: Seq<u8>| #[trigger]
                self.per_device_entries.count(d) == device_entries(self.entry_views(), d) by {
                assert(old(self).per_device_entries.count(d) == device_entries(before, d));
                lemma_sum_remove(before, i as int, one_for(d));
            }
        }
    }

    fn global_limits_exceeded(&self) -> (r: bool)
        requires
            self.books(),
        ensures
            r == over_budget(self.entry_views()),
    {
        self.entries.len() > MAX_CACHED_COMMANDS_GLOBAL || self.total_bytes
            > MAX_CACHED_COMMAND_BYTES_GLOBAL
    }

    fn sweep(&mut self, now: u64)
        requires
            old(self).books(),
            distinct(old(self).entry_views()),
            devices_within(old(self).entry_views()),
        ensures
            final(self).books(),
            final(self).entry_views() == pruned(old(self).entry_views(), now),
            final(self).in_flight == old(self).in_flight,
            distinct(final(self).entry_views()),
            devices_within(final(self).entry_views()),
            !over_budget(final(self).entry_views()),
    {
        let ghost orig = self.entry_views();
        while self.entries.len() > 0 && now.saturating_sub(self.entries[0].created_at)
            >= COMMAND_CACHE_TTL_MS
            invariant
                self.books(),
                self.in_flight == old(self).in_flight,
                distinct(self.entry_views()),
                devices_within(self.entry_views()),
                without_expired(orig, now) == without_expired(self.entry_views(), now),
            decreases self.entries@.len(),
        {
            let ghost cur = self.entry_views();
            proof {
                assert(cur[0] == self.entries@[0]@);
                lemma_remove(cur, 0);
                assert(cur.remove(0) =~= cur.drop_first());
            }
            self.remove_at(0);
        }
        let ghost live = self.entry_views();
        proof {
            if self.entries@.len() > 0 {
                assert(live[0] == self.entries@[0]@);
            }
            assert(without_expired(orig, now) == live);
        }
        while self.entries.len() > 0 && self.global_limits_exceeded()
            invariant
                self.books(),
                self.in_flight == old(self).in_flight,
                distinct(self.entry_views()),
                devices_within(self.entry_views()),
                within_budget(live) == within_budget(self.entry_views()),
            decreases self.entries@.len(),
        {
            let ghost cur = self.entry_views();
            proof {
                lemma_remove(cur, 0);
                assert(cur.remove(0) =~= cur.drop_first());
            }
            self.remove_at(0);
        }
    }

    /// Drops what has expired.
    pub fn prune(&mut self, now: u64)
        requires
            old(self).wf(),
        ensures
            final(self).wf(),
            final(self)@ == (CacheView { entries: pruned(old(self)@.entries, now), ..old(self)@ }),
    {
        self.sweep(now);
    }

    fn position(&self, key: &CommandCacheKey) -> (r: Option<usize>)
        requires
            distinct(self.entry_views()),
        ensures
            match r {
                Some(i) => i < self.entries@.len() && cached(self.entry_views(), key@) && i == place(
                    self.entry_views(),
                    key@,
                ),
                None => !cached(self.entry_views(), key@),
            },
    {
        let mut i: usize = 0;
        while i < self.entries.len()
            invariant
                distinct(self.entry_views()),
                i <= self.entries@.len(),
                forall|j: int| 0 <= j < i ==> (#[trigger] self.entry_views()[j]).key != key@,
            decreases self.entries@.len() - i,
        {
            assert(self.entry_views()[i as int] == self.entries@[i as int]@);
            if self.entries[i].key.same(key) {
                proof {
                    lemma_place(self.entry_views(), i as int);
                }
                return Some(i);
            }
            i += 1;
        }
        None
    }

    fn running_position(&self, key: &CommandCacheKey) -> (r: Option<usize>)
        requires
            distinct_in_flight(self.in_flight_views()),
        ensures
            match r {
                Some(i) => i < self.in_flight@.len() && running(self.in_flight_views(), key@) && i
                    == running_place(self.in_flight_views(), key@),
                None => !running(self.in_flight_views(), key@),
            },
    {
        let mut i: usize = 0;
        while i < self.in_flight.len()
            invariant
                distinct_in_flight(self.in_flight_views()),
                i <= self.in_flight@.len(),
                forall|j: int| 0 <= j < i ==> (#[trigger] self.in_flight_views()[j]).key != key@,
            decreases self.in_flight@.len() - i,
        {
            assert(self.in_flight_views()[i as int] == self.in_flight@[i as int]@);
            if self.in_flight[i].key.same(key) {
                proof {
                    lemma_running_place(self.in_flight_views(), i as int);
                }
                return Some(i);
            }
            i += 1;
        }
        None
    }

    fn enforce_device_limits(&mut self, device: &[u8])
        requires
            old(self).books(),
            distinct(old(self).entry_views()),
            forall|d: Seq<u8>| d != device@ ==> !#[trigger] device_over_budget(
                old(self).entry_views(),
                d,
            ),
        ensures
            final(self).books(),
            final(self).in_flight == old(self).in_flight,
            final(self).entry_views() == device_trimmed(old(self).entry_views(), device@),
            distinct(final(self).entry_views()),
            devices_within(final(self).entry_views()),
    {
        let ghost orig = self.entry_views();
        while self.per_device_entries.get(device) > MAX_CACHED_COMMANDS_PER_DEVICE
            || self.per_device_bytes.get(device) > MAX_CACHED_COMMAND_BYTES_PER_DEVICE
            invariant
                self.books(),
                self.in_flight == old(self).in_flight,
                distinct(self.entry_views()),
                forall|d: Seq<u8>| d != device@ ==> !#[trigger] device_over_budget(
                    self.entry_views(),
                    d,
                ),
                device_trimmed(orig, device@) == device_trimmed(self.entry_views(), device@),
            decreases self.entries@.len(),
        {
            let ghost cur = self.entry_views();
            proof {
                assert(self.per_device_entries.count(device@) == device_entries(cur, device@));
                assert(self.per_device_bytes.count(device@) == device_bytes(cur, device@));
                assert(device_over_budget(cur, device@));
                lemma_over_budget_has_entry(cur, device@);
            }
            let mut k: usize = 0;
            while !bytes_eq(self.entries[k].key.device_public_key.as_slice(), device)
                invariant
                    cur == self.entry_views(),
                    0 <= k < self.entries.len(),
                    0 <= oldest_of(cur, device@, 0) < cur.len(),
                    oldest_of(cur, device@, 0) == oldest_of(cur, device@, k as int),
                decreases self.entries@.len() - k,
            {
                proof {
                    assert(cur[k as int] == self.entries@[k as int]@);
                    lemma_oldest(cur, device@, k as int);
                    lemma_oldest(cur, device@, k as int + 1);
                }
                k += 1;
            }
            proof {
                assert(cur[k as int] == self.entries@[k as int]@);
                lemma_remove(cur, k as int);
            }
            self.remove_at(k);
        }
        proof {
            let cur = self.entry_views();
            assert(self.per_device_entries.count(device@) == device_entries(cur, device@));
            assert(self.per_device_bytes.count(device@) == device_bytes(cur, device@));
        }
    }

    /// Adds the response to a command, of `response_len` bytes when encoded.
    pub fn insert(
        &mut self,
        key: CommandCacheKey,
        command: Vec<u8>,
        response: CommandResponse,
        response_len: usize,
        now: u64,
    )
        requires
            old(self).wf(),
        ensures
            final(self).wf(),
            final(self)@ == (CacheView {
                entries: inserted(
                    old(self)@.entries,
                    key@,
                    command@,
                    response@,
                    response_len as nat,
                    now,
                ),
                ..old(self)@
            }),
    {
        let ghost orig = self.entry_views();
        if let Some(i) = self.position(&key) {
            proof {
                lemma_remove(orig, i as int);
            }
            self.remove_at(i);
        }
        let ghost rest = self.entry_views();
        proof {
            assert(rest == without(orig, key@));
            assert(!cached(rest, key@));
            assert(devices_within(rest)) by {
                assert forall|d: Seq<u8>| !#[trigger] device_over_budget(rest, d) by {
                    assert(!device_over_budget(orig, d));
                }
            }
        }
        let size: usize = key.idempotency_key.len().saturating_add(command.len()).saturating_add(
            response_len,
        );
        if size > MAX_CACHED_COMMAND_BYTES_PER_DEVICE || size > MAX_CACHED_COMMAND_BYTES_GLOBAL {
            return;
        }
        let device = copy_bytes(&key.device_public_key);
        let ghost e = CachedView {
            key: key@,
            command: command@,
            response: response@,
            created_at: now,
            size: size as nat,
        };
        proof {
            assert(self.per_device_bytes.count(device@) == device_bytes(rest, device@));
            assert(self.per_device_entries.count(device@) == device_entries(rest, device@));
            assert(!device_over_budget(rest, device@));
            lemma_sum_push(rest, e, entry_size());
        }
        let ghost before = *self;
        self.total_bytes = self.total_bytes + size;
        self.per_device_bytes.increment(device.as_slice(), size);
        self.per_device_entries.increment(device.as_slice(), 1);
        self.entries.push(CachedCommand { key, command, response, created_at: now, size });
        proof {
            let cur = self.entry_views();
            assert(cur =~= rest.push(e));
            assert forall|d: Seq<u8>| #[trigger]
                self.per_device_bytes.count(d) == device_bytes(cur, d) by {
                assert(before.per_device_bytes.count(d) == device_bytes(rest, d));
                lemma_sum_push(rest, e, size_for(d));
            }
            assert forall|d: Seq<u8>| #[trigger]
                self.per_device_entries.count(d) == device_entries(cur, d) by {
                assert(before.per_device_entries.count(d) == device_entries(rest, d));
                lemma_sum_push(rest, e, one_for(d));
            }
            assert forall|d: Seq<u8>| d != device@ implies !#[trigger] device_over_budget(
                cur,
                d,
            ) by {
                assert(!device_over_budget(rest, d));
                lemma_sum_push(rest, e, size_for(d));
                lemma_sum_push(rest, e, one_for(d));
            }
            assert(distinct(cur)) by {
                assert forall|j: int, k: int|
                    0 <= j < cur.len() && 0 <= k < cur.len() && j != k implies (
                #[trigger] cur[j]).key != (#[trigger] cur[k]).key by {
                    if j < rest.len() && k < rest.len() {
                        assert(rest[j].key != rest[k].key);
                    } else if j < rest.len() {
                        assert(rest[j].key != e.key);
                    } else if k < rest.len() {
                        assert(rest[k].key != e.key);
                    }
                }
            }
        }
        self.enforce_device_limits(device.as_slice());
        self.sweep(now);
    }

    /// The cached response to a command: none, the response under the request's
    /// own id, or a refusal when the key was used for another command.
    pub fn cached_command_frame(
        &self,
        cache_key: &CommandCacheKey,
        encoded_command: &[u8],
        request_id: u64,
    ) -> (r: Result<Option<CommandResponse>, CommandResponse>)
        requires
            self.wf(),
        ensures
            ({
                let e = self@.entries[place(self@.entries, cache_key@)];
                if !cached(self@.entries, cache_key@) {
                    r == Ok::<Option<CommandResponse>, CommandResponse>(None)
                } else if e.command != encoded_command@ {
                    r is Err && is_error_response(
                        r->Err_0@,
                        request_id,
                        ErrorCode::InvalidArgument,
                        "idempotency key was reused for a different command"@,
                    )
                } else {
                    r is Ok && r->Ok_0 is Some && r->Ok_0->0@ == (CommandResponseView {
                        request_id,
                        ..e.response
                    })
                }
            }),
    {
        match self.position(cache_key) {
            None => Ok(None),
            Some(i) => {
                assert(self.entry_views()[i as int] == self.entries@[i as int]@);
                if !bytes_eq(self.entries[i].command.as_slice(), encoded_command) {
                    Err(
                        command_error(
                            request_id,
                            ErrorCode::InvalidArgument,
                            "idempotency key was reused for a different command",
                        ),
                    )
                } else {
                    let mut response = self.entries[i].response.clone();
                    response.request_id = request_id;
                    Ok(Some(response))
                }
            },
        }
    }

    /// Decides what is done with a command: it is answered from the cache, it
    /// joins the same command that is being carried out, it is refused, or it
    /// is carried out, for which `permit_available` tells whether there is
    /// capacity.
    pub fn accept(
        &mut self,
        key: &CommandCacheKey,
        command: &[u8],
        request_id: u64,
        permit_available: bool,
        now: u64,
    ) -> (r: CommandAdmission)
        requires
            old(self).wf(),
        ensures
            final(self).wf(),
            admits(
                r,
                old(self)@,
                final(self)@,
                key@,
                command@,
                request_id,
                permit_available,
                now,
            ),
    {
        self.prune(now);
        match self.cached_command_frame(key, command, request_id) {
            Ok(Some(response)) => {
                return CommandAdmission::Answer(response);
            },
            Err(response) => {
                return CommandAdmission::Answer(response);
            },
            Ok(None) => {},
        }
        match self.running_position(key) {
            Some(i) => {
                assert(self.in_flight_views()[i as int] == self.in_flight@[i as int]@);
                if bytes_eq(self.in_flight[i].command.as_slice(), command) {
                    CommandAdmission::Join
                } else {
                    CommandAdmission::Answer(
                        command_error(
                            request_id,
                            ErrorCode::InvalidArgument,
                            "idempotency key was reused for a different command",
                        ),
                    )
                }
            },
            None => {
                if !permit_available {
                    return CommandAdmission::Answer(
                        command_error(
                            request_id,
                            ErrorCode::ResourceExhausted,
                            "too many background commands are active",
                        ),
                    );
                }
                let ghost before = self.in_flight_views();
                let ghost entries = self.entry_views();
                self.in_flight.push(
                    InFlightCommand {
                        key: key.clone(),
                        command: vstd::slice::slice_to_vec(command),
                    },
                );
                proof {
                    let cur = self.in_flight_views();
                    assert(cur =~= before.push(InFlightView { key: key@, command: command@ }));
                    assert(self.entry_views() == entries);
                    assert forall|j: int, k: int|
                        0 <= j < cur.len() && 0 <= k < cur.len() && j != k implies (
                    #[trigger] cur[j]).key != (#[trigger] cur[k]).key by {
                        if j < before.len() && k < before.len() {
                            assert(before[j].key != before[k].key);
                        } else if j < before.len() {
                            assert(before[j].key != key@);
                        } else if k < before.len() {
                            assert(before[k].key != key@);
                        }
                    }
                }
                CommandAdmission::Start
            },
        }
    }

    /// Records that a command has been carried out. Its response is cached
    /// unless the client may repeat the command.
    pub fn finish(
        &mut self,
        key: CommandCacheKey,
        command: Vec<u8>,
        response: CommandResponse,
        response_len: usize,
        now: u64,
    )
        requires
            old(self).wf(),
        ensures
            final(self).wf(),
            final(self)@.in_flight == finished(old(self)@.in_flight, key@),
            final(self)@.entries == remembered(
                old(self)@.entries,
                key@,
                command@,
                response@,
                response_len as nat,
                now,
            ),
    {
        let ghost before = self.in_flight_views();
        let ghost entries = self.entry_views();
        if let Some(i) = self.running_position(&key) {
            self.in_flight.remove(i);
            proof {
                let cur = self.in_flight_views();
                assert(cur =~= before.remove(i as int));
                assert(self.entry_views() == entries);
                assert forall|j: int, k: int|
                    0 <= j < cur.len() && 0 <= k < cur.len() && j != k implies (
                #[trigger] cur[j]).key != (#[trigger] cur[k]).key by {
                    let m = if j < i {
                        j
                    } else {
                        j + 1
                    };
                    let n = if k < i {
                        k
                    } else {
                        k + 1
                    };
                    assert(before[m].key != before[n].key);
                }
            }
        }
        if !response.status.retryable {
            self.insert(key, command, response, response_len, now);
        }
    }

    /// The number of cached responses.
    pub fn len(&self) -> (r: usize)
        ensures
            r == self@.entries.len(),
    {
        self.entries.len()
    }
}

/// A command that is known is not carried out again: one whose response is kept is
/// answered that response under its own number, one that is under way is waited
/// for, and a key that stands for another command is refused.
pub proof fn lemma_known_commands_are_not_repeated(
    r: CommandAdmission,
    before: CacheView,
    after: CacheView,
    key: KeyView,
    command: Seq<u8>,
    request_id: u64,
    permit_available: bool,
    now: u64,
    i: int,
)
    requires
        admits(r, before, after, key, command, request_id, permit_available, now),
        distinct(after.entries),
        distinct_in_flight(before.in_flight),
    ensures
        0 <= i < after.entries.len() && after.entries[i].key == key ==> {
            &&& r is Answer
            &&& after.entries[i].command == command ==> {
                &&& r->Answer_0@.request_id == request_id
                &&& r->Answer_0@.output == after.entries[i].response.output
                &&& r->Answer_0@.status == after.entries[i].response.status
            }
            &&& after.entries[i].command != command ==> r->Answer_0@.status.code
                is InvalidArgument && r->Answer_0@.output is None
        },
        0 <= i < before.in_flight.len() && before.in_flight[i].key == key ==> {
            &&& !(r is Start)
            &&& r is Join ==> before.in_flight[i].command == command
        },
        r is Start ==> {
            &&& permit_available
            &&& forall|k: int|
                0 <= k < after.entries.len() ==> (#[trigger] after.entries[k]).key != key
            &&& forall|k: int|
                0 <= k < before.in_flight.len() ==> (#[trigger] before.in_flight[k]).key != key
            &&& after.in_flight.len() == before.in_flight.len() + 1
            &&& after.in_flight.last().key == key
            &&& after.in_flight.last().command == command
        },
        !(r is Start) ==> after.in_flight == before.in_flight,
        !permit_available && r is Answer && !cached(after.entries, key) && !running(
            before.in_flight,
            key,
        ) ==> r->Answer_0@.status.code is ResourceExhausted,
{
    if 0 <= i < after.entries.len() && after.entries[i].key == key {
        lemma_place(after.entries, i);
    }
    if 0 <= i < before.in_flight.len() && before.in_flight[i].key == key {
        lemma_running_place(before.in_flight, i);
    }
}

/// A new command is carried out if there is room for it.
pub proof fn lemma_new_commands_are_started(
    r: CommandAdmission,
    before: CacheView,
    after: CacheView,
    key: KeyView,
    command: Seq<u8>,
    request_id: u64,
    now: u64,
)
    requires
        admits(r, before, after, key, command, request_id, true, now),
        forall|i: int| 0 <= i < before.entries.len() ==> (#[trigger] before.entries[i]).key != key,
        forall|i: int|
            0 <= i < before.in_flight.len() ==> (#[trigger] before.in_flight[i]).key != key,
    ensures
        r is Start,
{
    lemma_pruned_is_the_end(before.entries, now);
    let p = pruned(before.entries, now);
    let n = before.entries.len() - p.len();
    if cached(p, key) {
        let i = place(p, key);
        assert(p[i].key == key);
        assert(before.entries[n + i].key == key);
    }
}

/// A sweep drops the oldest responses alone: those whose five minutes are up, and as
/// many more as are too many.
pub proof fn lemma_pruned_is_the_end(entries: Seq<CachedView>, now: u64)
    ensures
        pruned(entries, now).len() <= entries.len(),
        pruned(entries, now) == entries.skip(entries.len() - pruned(entries, now).len()),
        without_expired(entries, now).len() <= entries.len(),
        without_expired(entries, now) == entries.skip(
            entries.len() - without_expired(entries, now).len(),
        ),
        without_expired(entries, now).len() > 0 ==> now - without_expired(
            entries,
            now,
        )[0].created_at < 300_000,
        forall|i: int|
            0 <= i < entries.len() - without_expired(entries, now).len() ==> now - (
            #[trigger] entries[i]).created_at >= 300_000,
{
    lemma_expired_is_a_prefix(entries, now);
    let kept = without_expired(entries, now);
    lemma_budget_is_a_suffix(kept);
    let n = entries.len() - kept.len();
    let m = kept.len() - within_budget(kept).len();
    assert(kept.skip(m) =~= entries.skip(n + m));
}

proof fn lemma_expired_is_a_prefix(entries: Seq<CachedView>, now: u64)
    ensures
        without_expired(entries, now).len() <= entries.len(),
        without_expired(entries, now) == entries.skip(
            entries.len() - without_expired(entries, now).len(),
        ),
        without_expired(entries, now).len() > 0 ==> now - without_expired(
            entries,
            now,
        )[0].created_at < COMMAND_CACHE_TTL_MS,
        forall|i: int|
            0 <= i < entries.len() - without_expired(entries, now).len() ==> now - (
            #[trigger] entries[i]).created_at >= COMMAND_CACHE_TTL_MS,
    decreases entries.len(),
{
    if entries.len() > 0 && now - entries[0].created_at >= COMMAND_CACHE_TTL_MS {
        let rest = entries.drop_first();
        lemma_expired_is_a_prefix(rest, now);
        let n = entries.len() - without_expired(entries, now).len();
        assert(rest.skip(n - 1) =~= entries.skip(n));
        assert forall|i: int| 0 <= i < n implies now - (#[trigger] entries[i]).created_at
            >= COMMAND_CACHE_TTL_MS by {
            if i > 0 {
                assert(rest[i - 1] == entries[i]);
            }
        }
    } else {
        assert(entries.skip(0) =~= entries);
    }
}

proof fn lemma_budget_is_a_suffix(entries: Seq<CachedView>)
    ensures
        within_budget(entries).len() <= entries.len(),
        within_budget(entries) == entries.skip(entries.len() - within_budget(entries).len()),
    decreases entries.len(),
{
    if entries.len() > 0 && over_budget(entries) {
        let rest = entries.drop_first();
        lemma_budget_is_a_suffix(rest);
        let n = entries.len() - within_budget(entries).len();
        assert(rest.skip(n - 1) =~= entries.skip(n));
    } else {
        assert(entries.skip(0) =~= entries);
    }
}

/// A command that has ended is not under way any more, and every other one still is.
pub proof fn lemma_ended_commands_are_not_under_way(
    in_flight: Seq<InFlightView>,
    key: KeyView,
    other: InFlightView,
)
    requires
        distinct_in_flight(in_flight),
    ensures
        !running(finished(in_flight, key), key),
        other.key != key ==> (finished(in_flight, key).contains(other) <==> in_flight.contains(
            other,
        )),
{
    let after = finished(in_flight, key);
    if running(in_flight, key) {
        let i = running_place(in_flight, key);
        assert(in_flight[i].key == key);
        if running(after, key) {
            let j = running_place(after, key);
            let k = if j < i {
                j
            } else {
                j + 1
            };
            assert(in_flight[k].key == key);
        }
        if in_flight.contains(other) && other.key != key {
            let j = choose|j: int| 0 <= j < in_flight.len() && in_flight[j] == other;
            assert(after[if j < i {
                j
            } else {
                j - 1
            }] == other);
        }
        if after.contains(other) {
            let j = choose|j: int| 0 <= j < after.len() && after[j] == other;
            assert(in_flight[if j < i {
                j
            } else {
                j + 1
            }] == other);
        }
    }
}

/// An answer that invites to try again leaves what is remembered as it was; any other
/// one takes the place of what stood under its key.
pub proof fn lemma_what_is_remembered(
    entries: Seq<CachedView>,
    key: KeyView,
    command: Seq<u8>,
    response: CommandResponseView,
    response_len: nat,
    now: u64,
)
    ensures
        response.status.retryable ==> remembered(
            entries,
            key,
            command,
            response,
            response_len,
            now,
        ) == entries,
        !response.status.retryable ==> remembered(
            entries,
            key,
            command,
            response,
            response_len,
            now,
        ) == inserted(entries, key, command, response, response_len, now),
{
}

/// What a client is answered is what the answer says.
pub proof fn lemma_answers_show_their_facts(r: CommandResponse)
    ensures
        r@.request_id == r.request_id,
        r@.status.code == r.status.code,
        r@.status.message == r.status.message@,
        r@.status.retryable == r.status.retryable,
        r@.output is Some <==> r.output is Some,
        r.output is Some ==> r@.output->0 == r.output->0@,
{
}

/// Up to 1024 answers of at most 64 MiB together are remembered, and for one device up
/// to 256 of at most 8 MiB together.
pub proof fn lemma_limits_of_the_memory(entries: Seq<CachedView>, device: Seq<u8>)
    ensures
        entries.len() > 1024 ==> over_budget(entries),
        total_bytes(entries) > 67_108_864 ==> over_budget(entries),
        entries.len() <= 1024 && total_bytes(entries) <= 67_108_864 ==> !over_budget(entries),
        device_entries(entries, device) > 256 ==> device_over_budget(entries, device),
        device_bytes(entries, device) > 8_388_608 ==> device_over_budget(entries, device),
        device_entries(entries, device) <= 256 && device_bytes(entries, device) <= 8_388_608
            ==> !device_over_budget(entries, device),
{
}

/// An answer counts with its size, for the memory and for its own device alone.
pub proof fn lemma_answers_count_with_their_size(
    entries: Seq<CachedView>,
    e: CachedView,
    device: Seq<u8>,
)
    ensures
        total_bytes(entries.push(e)) == total_bytes(entries) + e.size,
        e.key.device == device ==> device_bytes(entries.push(e), device) == device_bytes(
            entries,
            device,
        ) + e.size && device_entries(entries.push(e), device) == device_entries(entries, device) + 1,
        e.key.device != device ==> device_bytes(entries.push(e), device) == device_bytes(
            entries,
            device,
        ) && device_entries(entries.push(e), device) == device_entries(entries, device),
{
    assert(entries.push(e).drop_last() =~= entries);
}

/// What is given up first of a device is the oldest of its answers.
pub proof fn lemma_oldest_is_the_first(entries: Seq<CachedView>, device: Seq<u8>, k: int)
    requires
        0 <= k <= entries.len(),
    ensures
        k <= oldest_of(entries, device, k) <= entries.len(),
        oldest_of(entries, device, k) < entries.len() ==> entries[oldest_of(
            entries,
            device,
            k,
        )].key.device == device,
        forall|i: int|
            k <= i < oldest_of(entries, device, k) ==> (#[trigger] entries[i]).key.device != device,
    decreases entries.len() - k,
{
    if k < entries.len() && entries[k].key.device != device {
        lemma_oldest_is_the_first(entries, device, k + 1);
    }
}

/// What is remembered is within the limits, and only the oldest is given up for it.
pub proof fn lemma_memory_is_kept_within_its_limits(entries: Seq<CachedView>)
    ensures
        within_budget(entries).len() == 0 || !over_budget(within_budget(entries)),
        !over_budget(entries) ==> within_budget(entries) == entries,
        within_budget(entries).len() <= entries.len(),
        within_budget(entries) =~= entries.skip(entries.len() - within_budget(entries).len()),
    decreases entries.len(),
{
    if entries.len() > 0 && over_budget(entries) {
        lemma_memory_is_kept_within_its_limits(entries.drop_first());
    }
}

/// An answer of failure carries its request, its code and no output.
pub proof fn lemma_failed_answers_name_their_request(
    r: CommandResponseView,
    request_id: u64,
    code: ErrorCode,
    message: Seq<char>,
)
    requires
        is_error_response(r, request_id, code, message),
    ensures
        r.request_id == request_id,
        r.output is None,
        r.status.code == code,
{
}

} // verus!
