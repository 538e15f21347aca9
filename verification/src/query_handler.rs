//! Questions of a client: what the host is asked, and how its reply is shown.

use vstd::prelude::*;
use vstd::string::*;

use crate::access::{CommandFailure, CoreErrorKind};
use crate::blob_store::BlobStore;
use crate::commands::bounded_action_output;
use crate::domain;
use crate::host::{AutomationInfo, HostCapabilityError, HostNotificationInfo, QuickActionInfo};
use crate::proto;
use crate::proto_msg::{clipboard_labels_to_proto, process_sort_from_proto};
use crate::queries::{
    bounded_connection_config, bounded_local_device, check_query_frame, clipboard_history_query,
    notification_limit, protocol_timestamp_at, snapshot_revision, sync_page_limit, window_sample,
    ClipboardHistoryQuery, Query, WindowSample, WindowsRequest,
};
use crate::snapshots::{
    build_actions, build_automations, build_clipboard_snapshot, build_media_snapshot,
    build_notifications, build_process_snapshot, build_space_list, build_system_snapshot,
    build_window_list, build_window_list_with_thumbnails, ClipboardSnapshot,
};
use crate::status::ErrorCode;
use crate::sync_record::sync_record_to_proto;
use crate::text::sanitize_text;

verus! {

/// What the host is asked.
#[derive(Debug, PartialEq, Eq)]
pub enum HostQuestion {
    System,
    Processes { sort: domain::ProcessSortBy },
    Media,
    Clipboard { history: ClipboardHistoryQuery },
    Devices,
    Windows { sample: WindowSample },
    Actions,
    ActionOutput { action_id: String },
    Notifications { include_read: bool, limit: usize },
    ClipboardSync { after_local_id: u64, limit: usize },
}

/// True when the host is asked about its windows as a client wants it.
pub open spec fn asks_windows(
    r: Result<WindowSample, CommandFailure>,
    request: WindowsRequest,
    can_read_blobs: bool,
) -> bool {
    let wanted = request.include_thumbnails && can_read_blobs;
    &&& r is Ok ==> match r->Ok_0 {
        WindowSample::Plain => !wanted,
        WindowSample::EveryThumbnail => wanted && forall|id: u32| #[trigger]
            request.thumbnail_window_ids@.contains(id) ==> id == 0,
        WindowSample::Thumbnails(ids) => wanted && 0 < ids@.len()
            <= crate::queries::MAX_THUMBNAIL_WINDOW_IDS && crate::queries::is_window_choice(
            ids@,
            request.thumbnail_window_ids@,
        ),
    }
    &&& r is Err ==> r->Err_0@ == (crate::access::FailureView {
        code: ErrorCode::InvalidArgument,
        message: "at most 64 thumbnail window IDs are allowed"@,
    })
    &&& r is Err <==> exists|ids: Seq<u32>|
        #![trigger crate::queries::is_window_choice(ids, request.thumbnail_window_ids@)]
        crate::queries::is_window_choice(ids, request.thumbnail_window_ids@) && ids.len()
            > crate::queries::MAX_THUMBNAIL_WINDOW_IDS
}

/// True when the clipboard history is asked for as a client wants it.
pub open spec fn asks_history(
    r: ClipboardHistoryQuery,
    request: crate::queries::ClipboardRequest,
) -> bool {
    &&& r.limit == crate::queries::history_limit(request.history_limit)
    &&& r.cursor == match (request.cursor_timestamp_ms, request.cursor_id) {
        (Some(sort_at_ms), Some(id)) => Some(domain::ClipboardCursor { sort_at_ms, id }),
        _ => None,
    }
    &&& match r.search {
        Some(search) => !crate::text::blank(request.search@) && search@ == crate::text::trimmed(
            request.search@,
        ),
        None => crate::text::blank(request.search@),
    }
    &&& r.kinds@ == crate::queries::meant_kinds(request.kinds@)
    &&& r.favorite_only == request.favorite_only
    &&& r.label_ids == request.label_ids
}

/// A number kept within bounds.
pub open spec fn clamped(value: u32, low: int, high: int) -> int {
    if value < low {
        low
    } else if value > high {
        high
    } else {
        value as int
    }
}

/// True when `r` puts a question of a client to the host, or refuses it, where
/// `provider` tells whether the host has actions and notifications.
pub open spec fn puts_question(
    r: Result<HostQuestion, CommandFailure>,
    query: Query,
    can_read_blobs: bool,
    provider: bool,
) -> bool {
    match query {
        Query::GetSystem => r == Ok::<HostQuestion, CommandFailure>(HostQuestion::System),
        Query::ListProcesses { sort_by } => r == Ok::<HostQuestion, CommandFailure>(
            HostQuestion::Processes { sort: crate::proto_msg::meant_process_sort(sort_by) },
        ),
        Query::GetMedia => r == Ok::<HostQuestion, CommandFailure>(HostQuestion::Media),
        Query::GetClipboard(request) => r is Ok && r->Ok_0 is Clipboard && asks_history(
            r->Ok_0->history,
            request,
        ),
        Query::GetDevices => r == Ok::<HostQuestion, CommandFailure>(HostQuestion::Devices),
        Query::ListWindows(request) => {
            &&& r is Ok ==> r->Ok_0 is Windows && asks_windows(
                Ok(r->Ok_0->sample),
                request,
                can_read_blobs,
            )
            &&& r is Err ==> asks_windows(Err(r->Err_0), request, can_read_blobs)
        },
        Query::ListActions => r == Ok::<HostQuestion, CommandFailure>(HostQuestion::Actions),
        Query::GetActionOutput { action_id } => r == Ok::<HostQuestion, CommandFailure>(
            HostQuestion::ActionOutput { action_id },
        ),
        Query::GetNotifications { include_read, limit } => if provider {
            r is Ok && r->Ok_0 is Notifications && r->Ok_0->include_read == include_read
                && r->Ok_0->Notifications_limit == if limit == 0 {
                50
            } else {
                clamped(limit, 1, 100)
            }
        } else {
            r is Err && r->Err_0@ == (crate::access::FailureView {
                code: ErrorCode::Unsupported,
                message: "notifications are unavailable"@,
            })
        },
        Query::GetClipboardSync { after_local_id, limit } => r is Ok && r->Ok_0 is ClipboardSync
            && r->Ok_0->after_local_id == after_local_id && r->Ok_0->ClipboardSync_limit == clamped(
            limit,
            1,
            200,
        ),
    }
}

/// Puts a question of a client to the host, where `provider` tells whether the
/// host has actions and notifications.
pub fn plan_query(query: Query, can_read_blobs: bool, provider: bool) -> (r: Result<
    HostQuestion,
    CommandFailure,
>)
    ensures
        puts_question(r, query, can_read_blobs, provider),
{
    match query {
        Query::GetSystem => Ok(HostQuestion::System),
        Query::ListProcesses { sort_by } => Ok(
            HostQuestion::Processes { sort: process_sort_from_proto(sort_by) },
        ),
        Query::GetMedia => Ok(HostQuestion::Media),
        Query::GetClipboard(request) => Ok(
            HostQuestion::Clipboard { history: clipboard_history_query(request) },
        ),
        Query::GetDevices => Ok(HostQuestion::Devices),
        Query::ListWindows(request) => match window_sample(request, can_read_blobs) {
            Ok(sample) => Ok(HostQuestion::Windows { sample }),
            Err(failure) => Err(failure),
        },
        Query::ListActions => Ok(HostQuestion::Actions),
        Query::GetActionOutput { action_id } => Ok(HostQuestion::ActionOutput { action_id }),
        Query::GetNotifications { include_read, limit } => if provider {
            Ok(HostQuestion::Notifications { include_read, limit: notification_limit(limit) })
        } else {
            Err(CommandFailure::unsupported("notifications are unavailable"))
        },
        Query::GetClipboardSync { after_local_id, limit } => Ok(
            HostQuestion::ClipboardSync { after_local_id, limit: sync_page_limit(limit) },
        ),
    }
}

/// What the host replies.
#[derive(Debug)]
pub enum HostReply {
    System { revision: u64, captured_at_ms: i64, snapshot: domain::SystemSnapshot },
    Processes {
        revision: u64,
        captured_at_ms: i64,
        processes: Vec<domain::ProcessInfo>,
        focused_app_name: Option<String>,
    },
    Media { revision: u64, captured_at_ms: i64, state: domain::MediaState },
    /// Labels and the revision may be missing.
    Clipboard {
        entries: Vec<domain::ClipboardSummary>,
        policy: domain::ClipboardPolicy,
        next_cursor: Option<domain::ClipboardCursor>,
        labels: Option<Vec<domain::ClipboardLabel>>,
        revision: Option<u64>,
    },
    Devices {
        local_device: Option<domain::LocalDeviceInfo>,
        config: Option<domain::ConnectionConfig>,
    },
    Windows { windows: Vec<domain::WindowInfo>, spaces: Vec<domain::SpaceInfo> },
    /// A host without actions has neither.
    Actions { actions: Vec<QuickActionInfo>, automations: Vec<AutomationInfo> },
    ActionOutput { lines: Vec<String> },
    Notifications { notifications: Vec<HostNotificationInfo> },
    ClipboardSync {
        records: Vec<domain::ClipboardSyncRecord>,
        next_cursor: Option<u64>,
        revision: Option<u64>,
    },
    /// One of the host's own services failed.
    ServiceFailed { kind: CoreErrorKind, message: String },
    /// A capability of the host failed.
    ProviderFailed { error: HostCapabilityError },
}

/// What a client is shown.
#[derive(Debug)]
pub enum SnapshotData {
    System(proto::SystemSnapshot),
    Processes(proto::ProcessListSnapshot),
    Media(proto::MediaStateSnapshot),
    Clipboard(ClipboardSnapshot),
    Devices {
        local_device: Option<proto::LocalDeviceInfo>,
        config: Option<proto::ConnectionConfig>,
    },
    Windows { windows: Vec<proto::WindowInfo>, spaces: Vec<proto::SpaceInfo> },
    Actions { actions: Vec<QuickActionInfo>, automations: Vec<AutomationInfo> },
    ActionOutput { action_id: String, lines: Vec<String> },
    Notifications { notifications: Vec<HostNotificationInfo> },
    ClipboardSync { records: Vec<proto::ClipboardSyncRecord>, next_cursor: Option<u64> },
}

/// What a client is shown, with its revision and its time.
#[derive(Debug)]
pub struct Snapshot {
    pub revision: u64,
    pub captured_at_ms: i64,
    pub data: SnapshotData,
}

/// True when the processes are shown.
pub open spec fn shows_processes(
    r: proto::ProcessListSnapshot,
    processes: Seq<domain::ProcessInfo>,
    focused_app_name: Option<String>,
) -> bool {
    let kept = crate::snapshots::kept_processes(processes);
    &&& match focused_app_name {
        Some(name) => r.focused_app_name is Some && r.focused_app_name->0@
            == crate::text::sanitized(name@, 256),
        None => r.focused_app_name is None,
    }
    &&& r.processes@.len() == kept.len()
    &&& forall|i: int|
        0 <= i < kept.len() ==> crate::snapshots::shows_process(
            #[trigger] r.processes@[i],
            kept[i],
        )
}

/// True when windows are shown, with the references to their thumbnails.
pub open spec fn shows_windows(
    r: Seq<proto::WindowInfo>,
    windows: Seq<domain::WindowInfo>,
    thumbnails: Seq<Option<proto::BlobRefView>>,
) -> bool {
    let kept = crate::snapshots::kept_windows(windows);
    &&& r.len() == kept.len()
    &&& thumbnails.len() == kept.len()
    &&& forall|i: int|
        0 <= i < kept.len() ==> crate::snapshots::shows_window(#[trigger] r[i], kept[i])
            && crate::blob_store::reference_view(r[i].thumbnail) == thumbnails[i]
}

/// True when spaces are shown.
pub open spec fn shows_spaces(r: Seq<proto::SpaceInfo>, spaces: Seq<domain::SpaceInfo>) -> bool {
    let kept = crate::snapshots::kept_spaces(spaces);
    &&& r.len() == kept.len()
    &&& forall|i: int|
        0 <= i < kept.len() ==> crate::snapshots::shows_space(#[trigger] r[i], kept[i])
}

/// True when quick actions and automations are shown.
pub open spec fn shows_actions(
    r: Seq<QuickActionInfo>,
    s: Seq<AutomationInfo>,
    actions: Seq<QuickActionInfo>,
    automations: Seq<AutomationInfo>,
) -> bool {
    let kept = crate::snapshots::kept_actions(actions);
    let others = crate::snapshots::kept_automations(automations);
    &&& r.len() == kept.len()
    &&& forall|i: int|
        0 <= i < kept.len() ==> crate::snapshots::shows_action(#[trigger] r[i], kept[i])
    &&& s.len() == others.len()
    &&& forall|i: int|
        0 <= i < others.len() ==> crate::snapshots::shows_automation(#[trigger] s[i], others[i])
}

/// True when the clipboard history is shown.
pub open spec fn shows_clipboard(
    r: ClipboardSnapshot,
    entries: Seq<domain::ClipboardSummary>,
    policy: domain::ClipboardPolicy,
    next_cursor: Option<domain::ClipboardCursor>,
    labels: Seq<domain::ClipboardLabel>,
) -> bool {
    let shown = crate::snapshots::kept_entries(crate::snapshots::recent(entries));
    &&& r.history@.len() == shown.len()
    &&& forall|i: int|
        0 <= i < shown.len() ==> crate::snapshots::shows_entry(#[trigger] r.history@[i], shown[i])
    &&& r.next_cursor_timestamp_ms == match next_cursor {
        Some(cursor) => Some(cursor.sort_at_ms),
        None => None,
    }
    &&& r.next_cursor_id == match next_cursor {
        Some(cursor) => Some(cursor.id),
        None => None,
    }
    &&& r.policy == Some(crate::proto_msg::wire_clipboard_policy(policy))
    &&& r.labels@ == crate::proto_msg::wire_labels(labels)
}

/// What becomes of the store when an entry is made ready to be sent, and why it
/// cannot be, if so.
pub open spec fn sync_step(
    record: domain::ClipboardSyncRecord,
    store: crate::blob_store::StoreView,
    owner: Seq<u8>,
    now: u64,
) -> (crate::blob_store::StoreView, Option<Seq<char>>) {
    if record.text_syntax_json is None {
        (store, Some("clipboard text syntax is invalid"@))
    } else {
        let sent = crate::sync_record::sent_payload(record, store, owner, now);
        (
            sent.0,
            match sent.1 {
                Ok(_) => None,
                Err(fault) => Some(fault),
            },
        )
    }
}

/// What becomes of the store when entries are made ready to be sent, up to the
/// first that cannot be, and why it cannot.
pub open spec fn sync_steps(
    records: Seq<domain::ClipboardSyncRecord>,
    store: crate::blob_store::StoreView,
    owner: Seq<u8>,
    now: u64,
) -> (crate::blob_store::StoreView, Option<Seq<char>>)
    decreases records.len(),
{
    if records.len() == 0 {
        (store, None)
    } else {
        let before = sync_steps(records.drop_last(), store, owner, now);
        match before.1 {
            Some(_) => before,
            None => sync_step(records.last(), before.0, owner, now),
        }
    }
}

/// True when entries are shown as they are sent.
pub open spec fn shows_sync(
    r: Seq<proto::ClipboardSyncRecord>,
    records: Seq<domain::ClipboardSyncRecord>,
    store: crate::blob_store::StoreView,
    owner: Seq<u8>,
    wall_ms: i64,
    now: u64,
) -> bool {
    &&& r.len() == records.len()
    &&& forall|i: int|
        0 <= i < records.len() ==> shows_sync_record(
            #[trigger] r[i],
            records[i],
            sync_steps(records.take(i), store, owner, now).0,
            owner,
            wall_ms,
            now,
        )
}

/// True when an entry is shown as it is sent, given the store before it.
pub open spec fn shows_sync_record(
    r: proto::ClipboardSyncRecord,
    record: domain::ClipboardSyncRecord,
    store: crate::blob_store::StoreView,
    owner: Seq<u8>,
    wall_ms: i64,
    now: u64,
) -> bool {
    &&& crate::sync_record::is_sent_metadata(r, record, wall_ms)
    &&& Ok::<Option<crate::sync_record::PayloadView>, Seq<char>>(
        crate::sync_record::payload_view(r.payload),
    ) == crate::sync_record::sent_payload(record, store, owner, now).1
}

proof fn lemma_first_sync_fault(
    records: Seq<domain::ClipboardSyncRecord>,
    n: int,
    store: crate::blob_store::StoreView,
    owner: Seq<u8>,
    now: u64,
)
    requires
        0 <= n <= records.len(),
        sync_steps(records.take(n), store, owner, now).1 is Some,
    ensures
        sync_steps(records, store, owner, now) == sync_steps(records.take(n), store, owner, now),
    decreases records.len(),
{
    if n < records.len() {
        assert(records.drop_last().take(n) =~= records.take(n));
        lemma_first_sync_fault(records.drop_last(), n, store, owner, now);
    } else {
        assert(records.take(n) =~= records);
    }
}

/// Makes entries ready to be sent.
pub fn build_sync_page(
    records: Vec<domain::ClipboardSyncRecord>,
    store: &mut BlobStore,
    owner: &[u8],
    wall_ms: i64,
    now: u64,
) -> (r: Result<Vec<proto::ClipboardSyncRecord>, &'static str>)
    requires
        old(store).wf(),
        now + crate::blob_store::BLOB_IDLE_TTL_MS <= u64::MAX,
    ensures
        final(store).wf(),
        ({
            let out = sync_steps(records@, old(store)@, owner@, now);
            &&& final(store)@ == out.0
            &&& match out.1 {
                Some(fault) => r is Err && r->Err_0@ == fault,
                None => r is Ok && shows_sync(
                    r->Ok_0@,
                    records@,
                    old(store)@,
                    owner@,
                    wall_ms,
                    now,
                ),
            }
        }),
{
    let ghost all = records@;
    let ghost first = store@;
    let mut out: Vec<proto::ClipboardSyncRecord> = Vec::new();
    for record in it: records.into_iter()
        invariant
            it.seq() == all,
            all == records@,
            first == old(store)@,
            store.wf(),
            now + crate::blob_store::BLOB_IDLE_TTL_MS <= u64::MAX,
            sync_steps(all.take(it.index()), first, owner@, now) == (
                store@,
                None::<Seq<char>>,
            ),
            out@.len() == it.index(),
            forall|i: int|
                0 <= i < out@.len() ==> shows_sync_record(
                    #[trigger] out@[i],
                    all[i],
                    sync_steps(all.take(i), first, owner@, now).0,
                    owner@,
                    wall_ms,
                    now,
                ),
    {
        let ghost n = it.index() as int;
        let ghost before = store@;
        proof {
            assert(all.take(n + 1).drop_last() =~= all.take(n));
            assert(all.take(n + 1).last() == all[n]);
        }
        match sync_record_to_proto(record, store, owner, wall_ms, now) {
            Ok(record) => {
                out.push(record);
            },
            Err(fault) => {
                proof {
                    lemma_first_sync_fault(all, n + 1, first, owner@, now);
                }
                return Err(fault);
            },
        }
    }
    assert(all.take(all.len() as int) =~= all);
    Ok(out)
}

/// True when a reply is one to the question; any question can fail.
pub open spec fn replies_to(reply: HostReply, question: HostQuestion) -> bool {
    match reply {
        HostReply::System { .. } => question is System,
        HostReply::Processes { .. } => question is Processes,
        HostReply::Media { .. } => question is Media,
        HostReply::Clipboard { .. } => question is Clipboard,
        HostReply::Devices { .. } => question is Devices,
        HostReply::Windows { .. } => question is Windows,
        HostReply::Actions { .. } => question is Actions,
        HostReply::ActionOutput { .. } => question is ActionOutput,
        HostReply::Notifications { .. } => question is Notifications,
        HostReply::ClipboardSync { .. } => question is ClipboardSync,
        HostReply::ServiceFailed { .. } | HostReply::ProviderFailed { .. } => true,
    }
}

/// Tells whether a reply is one to the question.
fn is_reply_to(reply: &HostReply, question: &HostQuestion) -> (r: bool)
    ensures
        r == replies_to(*reply, *question),
{
    match (reply, question) {
        (HostReply::System { .. }, HostQuestion::System) => true,
        (HostReply::Processes { .. }, HostQuestion::Processes { .. }) => true,
        (HostReply::Media { .. }, HostQuestion::Media) => true,
        (HostReply::Clipboard { .. }, HostQuestion::Clipboard { .. }) => true,
        (HostReply::Devices { .. }, HostQuestion::Devices) => true,
        (HostReply::Windows { .. }, HostQuestion::Windows { .. }) => true,
        (HostReply::Actions { .. }, HostQuestion::Actions) => true,
        (HostReply::ActionOutput { .. }, HostQuestion::ActionOutput { .. }) => true,
        (HostReply::Notifications { .. }, HostQuestion::Notifications { .. }) => true,
        (HostReply::ClipboardSync { .. }, HostQuestion::ClipboardSync { .. }) => true,
        (HostReply::ServiceFailed { .. }, _) => true,
        (HostReply::ProviderFailed { .. }, _) => true,
        _ => false,
    }
}

/// True when `r` is how the outcome of a question to the host is shown at the
/// time `wall_ms`, or why it is not, and `after` is what this leaves of the store
/// `before`. A reply to another question is never shown.
pub open spec fn answers_query(
    r: Result<Snapshot, CommandFailure>,
    question: HostQuestion,
    reply: HostReply,
    before: crate::blob_store::StoreView,
    after: crate::blob_store::StoreView,
    owner: Seq<u8>,
    wall_ms: i64,
    now: u64,
) -> bool {
    if replies_to(reply, question) {
        shows_reply(r, question, reply, before, after, owner, wall_ms, now)
    } else {
        &&& after == before
        &&& r is Err
        &&& r->Err_0@ == (crate::access::FailureView {
            code: ErrorCode::Internal,
            message: "the host replied to another question"@,
        })
    }
}

/// True when `r` is how a reply of the host to a question is shown at the time
/// `wall_ms`, or why it is not, and `after` is what this leaves of the store
/// `before`.
pub open spec fn shows_reply(
    r: Result<Snapshot, CommandFailure>,
    question: HostQuestion,
    reply: HostReply,
    before: crate::blob_store::StoreView,
    after: crate::blob_store::StoreView,
    owner: Seq<u8>,
    wall_ms: i64,
    now: u64,
) -> bool {
    match reply {
        HostReply::System { revision, captured_at_ms, snapshot } => {
            &&& r is Ok && r->Ok_0.data is System && after == before
            &&& r->Ok_0.revision == shown_revision(revision)
            &&& r->Ok_0.captured_at_ms == crate::queries::timestamp(captured_at_ms, wall_ms)
            &&& crate::snapshots::shows_system(r->Ok_0.data->System_0, snapshot)
        },
        HostReply::Processes { revision, captured_at_ms, processes, focused_app_name } => {
            &&& r is Ok && r->Ok_0.data is Processes && after == before
            &&& r->Ok_0.revision == shown_revision(revision)
            &&& r->Ok_0.captured_at_ms == crate::queries::timestamp(captured_at_ms, wall_ms)
            &&& shows_processes(r->Ok_0.data->Processes_0, processes@, focused_app_name)
        },
        HostReply::Media { revision, captured_at_ms, state } => {
            &&& r is Ok && r->Ok_0.data is Media && after == before
            &&& r->Ok_0.revision == shown_revision(revision)
            &&& r->Ok_0.captured_at_ms == crate::queries::timestamp(captured_at_ms, wall_ms)
            &&& crate::snapshots::shows_media(r->Ok_0.data->Media_0, state)
        },
        HostReply::Clipboard { entries, policy, next_cursor, labels, revision } => {
            &&& after == before
            &&& if crate::snapshots::has_oversized(crate::snapshots::recent(entries@)) {
                r is Err && r->Err_0@ == (crate::access::FailureView {
                    code: ErrorCode::ResourceExhausted,
                    message: "clipboard summary exceeds the 2 KiB protocol limit"@,
                })
            } else {
                &&& r is Ok && r->Ok_0.data is Clipboard
                &&& r->Ok_0.revision == clipboard_revision(revision)
                &&& r->Ok_0.captured_at_ms == wall_ms
                &&& shows_clipboard(
                    r->Ok_0.data->Clipboard_0,
                    entries@,
                    policy,
                    next_cursor,
                    match labels {
                        Some(labels) => labels@,
                        None => Seq::empty(),
                    },
                )
            }
        },
        HostReply::Devices { local_device, config } => {
            &&& r is Ok && r->Ok_0.data is Devices && after == before
            &&& r->Ok_0.revision == 1 && r->Ok_0.captured_at_ms == wall_ms
            &&& shows_devices(
                r->Ok_0.data->Devices_local_device,
                r->Ok_0.data->Devices_config,
                local_device,
                config,
            )
        },
        HostReply::Windows { windows, spaces } => {
            let kept = crate::snapshots::kept_windows(windows@);
            let stored = crate::snapshots::stored_thumbnails(kept, before, owner, now);
            &&& r is Ok && r->Ok_0.data is Windows
            &&& r->Ok_0.revision == 1 && r->Ok_0.captured_at_ms == wall_ms
            &&& shows_spaces(r->Ok_0.data->Windows_spaces@, spaces@)
            &&& if question->sample !is Plain {
                shows_windows(r->Ok_0.data->Windows_windows@, windows@, stored.1) && after
                    == stored.0
            } else {
                shows_windows(
                    r->Ok_0.data->Windows_windows@,
                    windows@,
                    Seq::new(kept.len(), |i: int| None),
                ) && after == before
            }
        },
        HostReply::Actions { actions, automations } => {
            &&& r is Ok && r->Ok_0.data is Actions && after == before
            &&& r->Ok_0.revision == 1 && r->Ok_0.captured_at_ms == wall_ms
            &&& shows_actions(
                r->Ok_0.data->Actions_actions@,
                r->Ok_0.data->Actions_automations@,
                actions@,
                automations@,
            )
        },
        HostReply::ActionOutput { lines } => {
            &&& r is Ok && r->Ok_0.data is ActionOutput && after == before
            &&& r->Ok_0.revision == 1 && r->Ok_0.captured_at_ms == wall_ms
            &&& r->Ok_0.data->ActionOutput_action_id == question->action_id
            &&& crate::text::texts(r->Ok_0.data->ActionOutput_lines@)
                == crate::commands::last_lines(crate::text::texts(lines@), 0, 0)
        },
        HostReply::Notifications { notifications } => {
            &&& r is Ok && r->Ok_0.data is Notifications && after == before
            &&& r->Ok_0.revision == 1 && r->Ok_0.captured_at_ms == wall_ms
            &&& r->Ok_0.data->Notifications_notifications@.len() == notifications@.len()
            &&& forall|i: int|
                0 <= i < notifications@.len() ==> crate::snapshots::shows_notification(
                    #[trigger] r->Ok_0.data->Notifications_notifications@[i],
                    notifications@[i],
                )
        },
        HostReply::ClipboardSync { records, next_cursor, revision } => {
            let out = sync_steps(records@, before, owner, now);
            &&& after == out.0
            &&& match out.1 {
                Some(fault) => r is Err && r->Err_0@ == (crate::access::FailureView {
                    code: ErrorCode::ResourceExhausted,
                    message: fault,
                }),
                None => {
                    &&& r is Ok && r->Ok_0.data is ClipboardSync
                    &&& r->Ok_0.revision == clipboard_revision(revision)
                    &&& r->Ok_0.captured_at_ms == wall_ms
                    &&& r->Ok_0.data->ClipboardSync_next_cursor == next_cursor
                    &&& shows_sync(
                        r->Ok_0.data->ClipboardSync_records@,
                        records@,
                        before,
                        owner,
                        wall_ms,
                        now,
                    )
                },
            }
        },
        HostReply::ServiceFailed { kind, message } => {
            &&& r is Err && after == before
            &&& r->Err_0@ == (crate::access::FailureView {
                code: crate::access::core_outcome(kind),
                message: message@,
            })
        },
        HostReply::ProviderFailed { error } => {
            &&& r is Err && after == before
            &&& r->Err_0@ == (crate::access::FailureView {
                code: crate::host::host_outcome(error.code),
                message: error.message@,
            })
        },
    }
}

/// The revision of the host's state as it is shown.
pub open spec fn shown_revision(revision: u64) -> u64 {
    if revision == 0 {
        1
    } else if revision > i64::MAX {
        i64::MAX as u64
    } else {
        revision
    }
}

/// The revision of the clipboard as it is shown.
pub open spec fn clipboard_revision(revision: Option<u64>) -> u64 {
    match revision {
        Some(revision) => if revision == 0 {
            1
        } else {
            revision
        },
        None => 1,
    }
}

fn revision_of_clipboard(revision: Option<u64>) -> (r: u64)
    ensures
        r == clipboard_revision(revision),
{
    match revision {
        Some(revision) => if revision == 0 {
            1
        } else {
            revision
        },
        None => 1,
    }
}

/// True when the device and the way to connect to it are shown.
pub open spec fn shows_devices(
    r: Option<proto::LocalDeviceInfo>,
    s: Option<proto::ConnectionConfig>,
    local_device: Option<domain::LocalDeviceInfo>,
    config: Option<domain::ConnectionConfig>,
) -> bool {
    &&& match local_device {
        Some(device) => {
            &&& r is Some
            &&& r->0.name@ == crate::text::sanitized(device.name@, 128)
            &&& r->0.ip@ == crate::text::sanitized(device.ip@, 128)
            &&& r->0.app_version@ == crate::text::sanitized(device.app_version@, 64)
            &&& r->0.port == device.port
        },
        None => r is None,
    }
    &&& match config {
        Some(config) => s is Some && s->0.port == config.port && s->0.encrypted
            && s->0.auto_reconnect == config.auto_reconnect,
        None => s is None,
    }
}

/// Shows the reply of the host to a question at the time `wall_ms` of the calendar
/// and `now` of the clock that only runs forward.
pub fn answer_query(
    question: HostQuestion,
    reply: HostReply,
    store: &mut BlobStore,
    owner: &[u8],
    wall_ms: i64,
    now: u64,
) -> (r: Result<Snapshot, CommandFailure>)
    requires
        old(store).wf(),
        now + crate::blob_store::BLOB_IDLE_TTL_MS <= u64::MAX,
    ensures
        final(store).wf(),
        answers_query(r, question, reply, old(store)@, final(store)@, owner@, wall_ms, now),
{
    if !is_reply_to(&reply, &question) {
        return Err(CommandFailure::internal("the host replied to another question"));
    }
    match reply {
        HostReply::System { revision, captured_at_ms, snapshot } => Ok(
            Snapshot {
                revision: snapshot_revision(revision),
                captured_at_ms: protocol_timestamp_at(captured_at_ms, wall_ms),
                data: SnapshotData::System(build_system_snapshot(snapshot)),
            },
        ),
        HostReply::Processes { revision, captured_at_ms, processes, focused_app_name } => {
            let focused = match focused_app_name {
                Some(name) => Some(sanitize_text(name, 256)),
                None => None,
            };
            Ok(
                Snapshot {
                    revision: snapshot_revision(revision),
                    captured_at_ms: protocol_timestamp_at(captured_at_ms, wall_ms),
                    data: SnapshotData::Processes(build_process_snapshot(processes, focused)),
                },
            )
        },
        HostReply::Media { revision, captured_at_ms, state } => Ok(
            Snapshot {
                revision: snapshot_revision(revision),
                captured_at_ms: protocol_timestamp_at(captured_at_ms, wall_ms),
                data: SnapshotData::Media(build_media_snapshot(state)),
            },
        ),
        HostReply::Clipboard { entries, policy, next_cursor, labels, revision } => {
            let mut snapshot = match build_clipboard_snapshot(
                entries,
                policy,
                next_cursor,
                false,
            ) {
                Err(message) => {
                    return Err(
                        CommandFailure {
                            code: ErrorCode::ResourceExhausted,
                            message: message.to_owned(),
                        },
                    );
                },
                Ok(snapshot) => snapshot,
            };
            snapshot.labels = match labels {
                Some(labels) => clipboard_labels_to_proto(labels),
                None => Vec::new(),
            };
            proof {
                if labels is None {
                    assert(snapshot.labels@ =~= crate::proto_msg::wire_labels(Seq::empty()));
                }
            }
            Ok(
                Snapshot {
                    revision: revision_of_clipboard(revision),
                    captured_at_ms: wall_ms,
                    data: SnapshotData::Clipboard(snapshot),
                },
            )
        },
        HostReply::Devices { local_device, config } => Ok(
            Snapshot {
                revision: 1,
                captured_at_ms: wall_ms,
                data: SnapshotData::Devices {
                    local_device: match local_device {
                        Some(device) => Some(bounded_local_device(device)),
                        None => None,
                    },
                    config: match config {
                        Some(config) => Some(bounded_connection_config(config)),
                        None => None,
                    },
                },
            },
        ),
        HostReply::Windows { windows, spaces } => {
            let windows = match question {
                HostQuestion::Windows { sample: WindowSample::Plain } => build_window_list(windows),
                _ => build_window_list_with_thumbnails(windows, store, owner, now),
            };
            Ok(
                Snapshot {
                    revision: 1,
                    captured_at_ms: wall_ms,
                    data: SnapshotData::Windows { windows, spaces: build_space_list(spaces) },
                },
            )
        },
        HostReply::Actions { actions, automations } => Ok(
            Snapshot {
                revision: 1,
                captured_at_ms: wall_ms,
                data: SnapshotData::Actions {
                    actions: build_actions(actions),
                    automations: build_automations(automations),
                },
            },
        ),
        HostReply::ActionOutput { lines } => {
            let action_id = match question {
                HostQuestion::ActionOutput { action_id } => action_id,
                _ => String::new(),
            };
            Ok(
                Snapshot {
                    revision: 1,
                    captured_at_ms: wall_ms,
                    data: SnapshotData::ActionOutput {
                        action_id,
                        lines: bounded_action_output(lines),
                    },
                },
            )
        },
        HostReply::Notifications { notifications } => Ok(
            Snapshot {
                revision: 1,
                captured_at_ms: wall_ms,
                data: SnapshotData::Notifications {
                    notifications: build_notifications(notifications),
                },
            },
        ),
        HostReply::ClipboardSync { records, next_cursor, revision } => {
            match build_sync_page(records, store, owner, wall_ms, now) {
                Err(message) => Err(
                    CommandFailure {
                        code: ErrorCode::ResourceExhausted,
                        message: message.to_owned(),
                    },
                ),
                Ok(records) => Ok(
                    Snapshot {
                        revision: revision_of_clipboard(revision),
                        captured_at_ms: wall_ms,
                        data: SnapshotData::ClipboardSync { records, next_cursor },
                    },
                ),
            }
        },
        HostReply::ServiceFailed { kind, message } => Err(CommandFailure::service(kind, message)),
        HostReply::ProviderFailed { error } => Err(CommandFailure::provider(error)),
    }
}

/// A client is shown what it asked for and nothing else: the answer is of the kind
/// of the question, the output is that of the action in question, and windows have
/// thumbnails only where thumbnails were asked for.
pub proof fn lemma_answers_fit_their_questions(
    r: Result<Snapshot, CommandFailure>,
    question: HostQuestion,
    reply: HostReply,
    before: crate::blob_store::StoreView,
    after: crate::blob_store::StoreView,
    owner: Seq<u8>,
    wall_ms: i64,
    now: u64,
)
    requires
        answers_query(r, question, reply, before, after, owner, wall_ms, now),
        r is Ok,
    ensures
        match question {
            HostQuestion::System => r->Ok_0.data is System,
            HostQuestion::Processes { .. } => r->Ok_0.data is Processes,
            HostQuestion::Media => r->Ok_0.data is Media,
            HostQuestion::Clipboard { .. } => r->Ok_0.data is Clipboard,
            HostQuestion::Devices => r->Ok_0.data is Devices,
            HostQuestion::Windows { sample } => {
                &&& r->Ok_0.data is Windows
                &&& sample is Plain ==> after == before && forall|i: int|
                    0 <= i < r->Ok_0.data->Windows_windows@.len() ==> (
                    #[trigger] r->Ok_0.data->Windows_windows@[i]).thumbnail is None
            },
            HostQuestion::Actions => r->Ok_0.data is Actions,
            HostQuestion::ActionOutput { action_id } => {
                &&& r->Ok_0.data is ActionOutput
                &&& r->Ok_0.data->ActionOutput_action_id@ == action_id@
            },
            HostQuestion::Notifications { .. } => r->Ok_0.data is Notifications,
            HostQuestion::ClipboardSync { .. } => r->Ok_0.data is ClipboardSync,
        },
{
}

/// What a client is shown in the end: an answer whose frame would be too large is
/// replaced by an error.
pub fn finish_query(answer: Result<Snapshot, CommandFailure>, encoded_len: usize, maximum: usize)
    -> (r: Result<Snapshot, CommandFailure>)
    ensures
        match answer {
            Err(_) => r == answer,
            Ok(_) => if encoded_len > maximum {
                r is Err && r->Err_0@ == (crate::access::FailureView {
                    code: ErrorCode::ResourceExhausted,
                    message: "query result exceeds the negotiated control-frame limit"@,
                })
            } else {
                r == answer
            },
        },
{
    match answer {
        Err(failure) => Err(failure),
        Ok(snapshot) => match check_query_frame(encoded_len, maximum) {
            Err(failure) => Err(failure),
            Ok(()) => Ok(snapshot),
        },
    }
}

/// The host is asked what the client asks: the question is of the same kind and
/// carries the client's own values.
pub proof fn lemma_questions_carry_the_clients_values(
    r: Result<HostQuestion, CommandFailure>,
    query: Query,
    can_read_blobs: bool,
    provider: bool,
)
    requires
        puts_question(r, query, can_read_blobs, provider),
    ensures
        query is GetSystem ==> r is Ok && r->Ok_0 is System,
        query is ListProcesses ==> {
            &&& r is Ok && r->Ok_0 is Processes
            &&& query->sort_by is Memory <==> r->Ok_0->sort is Memory
            &&& query->sort_by is Name <==> r->Ok_0->sort is Name
        },
        query is GetMedia ==> r is Ok && r->Ok_0 is Media,
        query is GetDevices ==> r is Ok && r->Ok_0 is Devices,
        query is ListActions ==> r is Ok && r->Ok_0 is Actions,
        query is GetActionOutput ==> r is Ok && r->Ok_0 is ActionOutput && r->Ok_0->action_id@
            == query->action_id@,
        query is GetNotifications && provider ==> {
            &&& r is Ok && r->Ok_0 is Notifications
            &&& r->Ok_0->include_read == query->include_read
            &&& 1 <= query->GetNotifications_limit <= 100 ==> r->Ok_0->Notifications_limit
                == query->GetNotifications_limit
            &&& query->GetNotifications_limit == 0 ==> r->Ok_0->Notifications_limit == 50
        },
        query is GetNotifications && !provider ==> r is Err && r->Err_0@.code is Unsupported,
        query is GetClipboardSync ==> {
            &&& r is Ok && r->Ok_0 is ClipboardSync
            &&& r->Ok_0->after_local_id == query->after_local_id
            &&& 1 <= query->GetClipboardSync_limit <= 200 ==> r->Ok_0->ClipboardSync_limit
                == query->GetClipboardSync_limit
        },
        query is GetClipboard ==> {
            let (request, history) = (query->GetClipboard_0, r->Ok_0->history);
            &&& r is Ok && r->Ok_0 is Clipboard
            &&& history.favorite_only == request.favorite_only
            &&& history.label_ids@ == request.label_ids@
            &&& 1 <= request.history_limit <= 200 ==> history.limit == request.history_limit
            &&& history.cursor is Some <==> request.cursor_timestamp_ms is Some
                && request.cursor_id is Some
            &&& history.cursor is Some ==> history.cursor->0.sort_at_ms
                == request.cursor_timestamp_ms->0 && history.cursor->0.id == request.cursor_id->0
            &&& history.search is None <==> crate::text::blank(request.search@)
            &&& history.kinds@.len() <= request.kinds@.len()
        },
        query is ListWindows && r is Ok ==> {
            &&& r->Ok_0 is Windows
            &&& r->Ok_0->sample is Plain <==> !(query->ListWindows_0.include_thumbnails
                && can_read_blobs)
            &&& forall|id: u32|
                r->Ok_0->sample is Thumbnails ==> (#[trigger] r->Ok_0->sample->Thumbnails_0@.contains(
                    id,
                ) <==> id != 0 && query->ListWindows_0.thumbnail_window_ids@.contains(id))
        },
{
    if query is GetClipboard {
        crate::queries::lemma_kinds_are_those_asked_for(query->GetClipboard_0.kinds@);
    }
}

/// A reply is shown with the time and the revision that it came with.
pub proof fn lemma_answers_tell_when_they_are_from(
    r: Result<Snapshot, CommandFailure>,
    question: HostQuestion,
    reply: HostReply,
    before: crate::blob_store::StoreView,
    after: crate::blob_store::StoreView,
    owner: Seq<u8>,
    wall_ms: i64,
    now: u64,
)
    requires
        answers_query(r, question, reply, before, after, owner, wall_ms, now),
        r is Ok,
    ensures
        reply is System && reply->System_captured_at_ms > 0 ==> r->Ok_0.captured_at_ms
            == reply->System_captured_at_ms,
        reply is Processes && reply->Processes_captured_at_ms > 0 ==> r->Ok_0.captured_at_ms
            == reply->Processes_captured_at_ms,
        reply is Media && reply->Media_captured_at_ms > 0 ==> r->Ok_0.captured_at_ms
            == reply->Media_captured_at_ms,
        reply is System && 0 < reply->System_revision <= i64::MAX ==> r->Ok_0.revision
            == reply->System_revision,
        reply is Processes && 0 < reply->Processes_revision <= i64::MAX ==> r->Ok_0.revision
            == reply->Processes_revision,
        reply is Media && 0 < reply->Media_revision <= i64::MAX ==> r->Ok_0.revision
            == reply->Media_revision,
        reply is Clipboard && reply->Clipboard_revision is Some
            && reply->Clipboard_revision->0 > 0 ==> r->Ok_0.revision
            == reply->Clipboard_revision->0,
        reply is ClipboardSync && reply->ClipboardSync_revision is Some
            && reply->ClipboardSync_revision->0 > 0 ==> r->Ok_0.revision
            == reply->ClipboardSync_revision->0,
        reply is ClipboardSync ==> r->Ok_0.data->ClipboardSync_next_cursor
            == reply->ClipboardSync_next_cursor && r->Ok_0.data->ClipboardSync_records@.len()
            == reply->ClipboardSync_records@.len(),
        reply is Clipboard ==> {
            let (told, cursor) = (r->Ok_0.data->Clipboard_0, reply->Clipboard_next_cursor);
            &&& cursor is Some ==> told.next_cursor_timestamp_ms == Some(cursor->0.sort_at_ms)
                && told.next_cursor_id == Some(cursor->0.id)
            &&& cursor is None ==> told.next_cursor_timestamp_ms is None
                && told.next_cursor_id is None
            &&& told.policy is Some
            &&& told.policy->0.history_enabled == reply->policy.history_enabled
            &&& told.policy->0.save_sensitive == reply->policy.save_sensitive
            &&& told.policy->0.max_items == reply->policy.max_items
            &&& told.policy->0.max_bytes == reply->policy.max_bytes
            &&& told.policy->0.retention_days == reply->policy.retention_days
        },
        reply is Notifications ==> r->Ok_0.data->Notifications_notifications@.len()
            == reply->notifications@.len(),
        r->Ok_0.revision > 0,
{
}

/// A failure of the host is told as what it is, and a reply to another question is
/// never shown.
pub proof fn lemma_failures_are_told_as_they_are(
    r: Result<Snapshot, CommandFailure>,
    question: HostQuestion,
    reply: HostReply,
    before: crate::blob_store::StoreView,
    after: crate::blob_store::StoreView,
    owner: Seq<u8>,
    wall_ms: i64,
    now: u64,
)
    requires
        answers_query(r, question, reply, before, after, owner, wall_ms, now),
    ensures
        reply is ServiceFailed ==> r is Err && r->Err_0@.message == reply->message@ && after
            == before,
        reply is ServiceFailed && reply->kind is NotFound ==> r->Err_0@.code is NotFound,
        reply is ServiceFailed && reply->kind is Unavailable ==> r->Err_0@.code is Unavailable,
        reply is ServiceFailed && reply->kind is Unsupported ==> r->Err_0@.code is Unsupported,
        reply is ServiceFailed && reply->kind is Internal ==> r->Err_0@.code is Internal,
        reply is ProviderFailed ==> r is Err && r->Err_0@.message == reply->error.message@
            && after == before,
        reply is ProviderFailed && reply->error.code is NotFound ==> r->Err_0@.code is NotFound,
        reply is ProviderFailed && reply->error.code is Conflict ==> r->Err_0@.code is Conflict,
        reply is System && !(question is System) ==> r is Err,
        reply is Processes && !(question is Processes) ==> r is Err,
        reply is Media && !(question is Media) ==> r is Err,
        reply is Clipboard && !(question is Clipboard) ==> r is Err,
        reply is Windows && !(question is Windows) ==> r is Err,
        reply is Notifications && !(question is Notifications) ==> r is Err,
        reply is ClipboardSync && !(question is ClipboardSync) ==> r is Err,
{
}

/// The device and the way to it are shown as they are; the way is always told as
/// encrypted.
pub proof fn lemma_devices_are_shown_as_they_are(
    r: Option<proto::LocalDeviceInfo>,
    s: Option<proto::ConnectionConfig>,
    local_device: Option<domain::LocalDeviceInfo>,
    config: Option<domain::ConnectionConfig>,
)
    requires
        shows_devices(r, s, local_device, config),
    ensures
        r is Some <==> local_device is Some,
        s is Some <==> config is Some,
        local_device is Some ==> {
            let (told, device) = (r->0, local_device->0);
            &&& crate::snapshots::keeps_text(told.name@, device.name@, 128)
            &&& crate::snapshots::keeps_text(told.ip@, device.ip@, 128)
            &&& crate::snapshots::keeps_text(told.app_version@, device.app_version@, 64)
            &&& told.port == device.port
        },
        config is Some ==> s->0.encrypted && s->0.port == config->0.port && s->0.auto_reconnect
            == config->0.auto_reconnect,
{
    if local_device is Some {
        let device = local_device->0;
        if crate::text::control_free(device.name@) && crate::text::utf8_len(device.name@) <= 128 {
            crate::text::lemma_short_text_is_kept(device.name@, 128);
        }
        if crate::text::control_free(device.ip@) && crate::text::utf8_len(device.ip@) <= 128 {
            crate::text::lemma_short_text_is_kept(device.ip@, 128);
        }
        if crate::text::control_free(device.app_version@) && crate::text::utf8_len(
            device.app_version@,
        ) <= 64 {
            crate::text::lemma_short_text_is_kept(device.app_version@, 64);
        }
    }
}

/// Numbers are told as they are where they lie in their range, and as its nearer end
/// where they do not.
pub proof fn lemma_ranges_are_kept(value: u32, low: int, high: int, revision: u64)
    requires
        low <= high,
    ensures
        low <= clamped(value, low, high) <= high,
        low <= value <= high ==> clamped(value, low, high) == value,
        value < low ==> clamped(value, low, high) == low,
        value > high ==> clamped(value, low, high) == high,
        0 < shown_revision(revision) <= 0x7fff_ffff_ffff_ffff,
        0 < revision <= 0x7fff_ffff_ffff_ffff ==> shown_revision(revision) == revision,
        revision > 0x7fff_ffff_ffff_ffff ==> shown_revision(revision) == 0x7fff_ffff_ffff_ffff,
        clipboard_revision(None) == 1,
        clipboard_revision(Some(0)) == 1,
        revision > 0 ==> clipboard_revision(Some(revision)) == revision,
{
}

/// Thumbnails are asked for only where the client wants them and may read them: those
/// of up to 64 windows that it names, or every one where it names none.
pub proof fn lemma_which_thumbnails_are_asked_for(
    r: Result<WindowSample, CommandFailure>,
    request: WindowsRequest,
    can_read_blobs: bool,
)
    requires
        asks_windows(r, request, can_read_blobs),
    ensures
        r is Ok ==> (r->Ok_0 is Plain <==> !(request.include_thumbnails && can_read_blobs)),
        r is Ok && r->Ok_0 is Thumbnails ==> 0 < r->Ok_0->Thumbnails_0@.len() <= 64,
        r is Ok && r->Ok_0 is Thumbnails ==> forall|id: u32| #[trigger]
            r->Ok_0->Thumbnails_0@.contains(id) ==> id != 0
                && request.thumbnail_window_ids@.contains(id),
        r is Ok && r->Ok_0 is Thumbnails ==> forall|id: u32| #[trigger]
            request.thumbnail_window_ids@.contains(id) && id != 0
                ==> r->Ok_0->Thumbnails_0@.contains(id),
        r is Ok && r->Ok_0 is EveryThumbnail ==> forall|id: u32| #[trigger]
            request.thumbnail_window_ids@.contains(id) ==> id == 0,
        r is Err ==> r->Err_0.code is InvalidArgument,
{
}

/// A question about the clipboard asks for what the client named, each wish in its
/// place.
pub proof fn lemma_history_is_asked_for_as_wished(
    r: ClipboardHistoryQuery,
    request: crate::queries::ClipboardRequest,
)
    requires
        asks_history(r, request),
    ensures
        request.cursor_timestamp_ms is Some && request.cursor_id is Some ==> r.cursor is Some
            && r.cursor->0.sort_at_ms == request.cursor_timestamp_ms->0 && r.cursor->0.id
            == request.cursor_id->0,
        request.cursor_timestamp_ms is None || request.cursor_id is None ==> r.cursor is None,
        r.search is None <==> crate::text::blank(request.search@),
        r.search is Some ==> r.search->0@ == crate::text::trimmed(request.search@),
        r.favorite_only == request.favorite_only,
        r.label_ids == request.label_ids,
{
}

/// The processes are shown in their order, and the application in front is named where
/// there is one.
pub proof fn lemma_processes_are_shown_in_order(
    r: proto::ProcessListSnapshot,
    processes: Seq<domain::ProcessInfo>,
    focused_app_name: Option<String>,
    i: int,
)
    requires
        shows_processes(r, processes, focused_app_name),
        0 <= i < r.processes@.len(),
    ensures
        r.focused_app_name is Some <==> focused_app_name is Some,
        focused_app_name is Some ==> r.focused_app_name->0@ == crate::text::sanitized(
            focused_app_name->0@,
            256,
        ),
        r.processes@.len() == crate::snapshots::kept_processes(processes).len(),
        crate::snapshots::shows_process(
            r.processes@[i],
            crate::snapshots::kept_processes(processes)[i],
        ),
{
}

/// The page of the clipboard tells where the next one begins, and holds every entry
/// that can be shown.
pub proof fn lemma_pages_tell_where_the_next_begins(
    r: ClipboardSnapshot,
    entries: Seq<domain::ClipboardSummary>,
    policy: domain::ClipboardPolicy,
    next_cursor: Option<domain::ClipboardCursor>,
    labels: Seq<domain::ClipboardLabel>,
)
    requires
        shows_clipboard(r, entries, policy, next_cursor, labels),
    ensures
        next_cursor is None ==> r.next_cursor_id is None && r.next_cursor_timestamp_ms is None,
        next_cursor is Some ==> r.next_cursor_id == Some(next_cursor->0.id)
            && r.next_cursor_timestamp_ms == Some(next_cursor->0.sort_at_ms),
        r.policy is Some,
        r.history@.len() == crate::snapshots::kept_entries(
            crate::snapshots::recent(entries),
        ).len(),
{
}

/// An entry whose syntax cannot be read stops the page and leaves the store as it was;
/// a deleted entry needs no room in it.
pub proof fn lemma_unreadable_entries_stop_the_page(
    record: domain::ClipboardSyncRecord,
    store: crate::blob_store::StoreView,
    owner: Seq<u8>,
    now: u64,
)
    ensures
        record.text_syntax_json is None ==> sync_step(record, store, owner, now).1 is Some
            && sync_step(record, store, owner, now).0 == store,
        record.text_syntax_json is Some && record.deleted ==> sync_step(
            record,
            store,
            owner,
            now,
        ).1 is None && sync_step(record, store, owner, now).0 == store,
        record.text_syntax_json is Some && record.kind is Text && record.text is Some
            ==> sync_step(record, store, owner, now).1 is None && sync_step(
            record,
            store,
            owner,
            now,
        ).0 == store,
{
}

/// Every entry of a page that was built had what it needs, and what stopped a page
/// stops every longer one.
pub proof fn lemma_pages_are_built_whole(
    records: Seq<domain::ClipboardSyncRecord>,
    record: domain::ClipboardSyncRecord,
    store: crate::blob_store::StoreView,
    owner: Seq<u8>,
    now: u64,
)
    ensures
        sync_steps(Seq::empty(), store, owner, now).0 == store,
        sync_steps(Seq::empty(), store, owner, now).1 is None,
        sync_steps(records, store, owner, now).1 is Some ==> sync_steps(
            records.push(record),
            store,
            owner,
            now,
        ) == sync_steps(records, store, owner, now),
        sync_steps(records.push(record), store, owner, now).1 is None
            ==> record.text_syntax_json is Some,
{
    assert(records.push(record).drop_last() =~= records);
}

} // verus!
