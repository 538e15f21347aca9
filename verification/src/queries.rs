//! What a client may ask of the host's state, and how each question is put to
//! the host.

use vstd::prelude::*;
use vstd::string::*;

use crate::access::{require_access, valid_control_identifier, CommandFailure, Denial};
use crate::domain;
use crate::features::{Feature, SelectedFeatures};
use crate::peer::PeerCapability;
use crate::proto;
use crate::proto_msg::clipboard_kind_from_proto;
use crate::status::ErrorCode;
use crate::text::{byte_len, has_control, is_blank, trim};

verus! {

/// The most clipboard entries of one answer.
pub const MAX_CLIPBOARD_ITEMS: u32 = 200;

/// The most windows that thumbnails can be asked of at once.
pub const MAX_THUMBNAIL_WINDOW_IDS: usize = 64;

/// A question about the clipboard history.
#[derive(Debug, PartialEq, Eq)]
pub struct ClipboardRequest {
    pub history_limit: u32,
    pub search: String,
    pub cursor_timestamp_ms: Option<i64>,
    pub cursor_id: Option<u64>,
    pub kinds: Vec<proto::ClipboardContentKind>,
    pub favorite_only: bool,
    pub label_ids: Vec<String>,
}

/// A question about the windows.
#[derive(Debug, PartialEq, Eq)]
pub struct WindowsRequest {
    pub include_thumbnails: bool,
    pub thumbnail_window_ids: Vec<u32>,
}

/// A question about the host's state.
#[derive(Debug, PartialEq, Eq)]
pub enum Query {
    GetSystem,
    ListProcesses { sort_by: proto::ProcessSortBy },
    GetMedia,
    GetClipboard(ClipboardRequest),
    GetDevices,
    ListWindows(WindowsRequest),
    ListActions,
    GetActionOutput { action_id: String },
    GetNotifications { include_read: bool, limit: u32 },
    GetClipboardSync { after_local_id: u64, limit: u32 },
}

/// What is wrong with a question about the clipboard history, if anything.
pub open spec fn clipboard_request_fault(request: ClipboardRequest) -> Option<Seq<char>> {
    if request.history_limit > MAX_CLIPBOARD_ITEMS {
        Some("clipboard history limit must not exceed 200"@)
    } else if crate::text::utf8_len(request.search@) > 512 || !crate::text::control_free(
        request.search@,
    ) {
        Some("invalid clipboard search query"@)
    } else if request.cursor_timestamp_ms is Some != request.cursor_id is Some
        || request.cursor_id == Some(0u64) {
        Some("clipboard cursor is incomplete"@)
    } else if request.kinds@.contains(proto::ClipboardContentKind::Unspecified) {
        Some("invalid clipboard content kind"@)
    } else {
        None
    }
}

/// What is wrong with a question, if anything.
pub open spec fn query_fault(query: Option<Query>) -> Option<Seq<char>> {
    match query {
        Some(Query::ListProcesses { sort_by }) => if sort_by == proto::ProcessSortBy::Unspecified {
            Some("invalid process sort order"@)
        } else {
            None
        },
        Some(Query::GetClipboard(request)) => clipboard_request_fault(request),
        Some(Query::GetActionOutput { action_id }) => if !crate::access::control_identifier(
            action_id@,
        ) {
            Some("invalid quick action id"@)
        } else {
            None
        },
        Some(Query::GetNotifications { include_read, limit }) => if limit > 100 {
            Some("notification limit must not exceed 100"@)
        } else {
            None
        },
        Some(Query::GetClipboardSync { after_local_id, limit }) => if limit > 200 {
            Some("clipboard sync page limit must not exceed 200"@)
        } else {
            None
        },
        Some(_) => None,
        None => Some("empty query"@),
    }
}

/// True when `r` reports this fault, or none.
pub open spec fn reports_fault(r: Result<(), &'static str>, fault: Option<Seq<char>>) -> bool {
    match fault {
        Some(message) => r is Err && r->Err_0@ == message,
        None => r is Ok,
    }
}

fn has_unspecified_kind(kinds: &Vec<proto::ClipboardContentKind>) -> (r: bool)
    ensures
        r == kinds@.contains(proto::ClipboardContentKind::Unspecified),
{
    let mut i: usize = 0;
    while i < kinds.len()
        invariant
            i <= kinds@.len(),
            forall|j: int|
                0 <= j < i ==> #[trigger] kinds@[j] != proto::ClipboardContentKind::Unspecified,
        decreases kinds@.len() - i,
    {
        if kinds[i] == proto::ClipboardContentKind::Unspecified {
            return true;
        }
        i += 1;
    }
    false
}

/// Checks a question by itself.
pub fn validate_query(query: &Option<Query>) -> (r: Result<(), &'static str>)
    ensures
        reports_fault(r, query_fault(*query)),
{
    match query {
        Some(Query::ListProcesses { sort_by }) => {
            if *sort_by == proto::ProcessSortBy::Unspecified {
                return Err("invalid process sort order");
            }
        },
        Some(Query::GetClipboard(request)) => {
            if request.history_limit > MAX_CLIPBOARD_ITEMS {
                return Err("clipboard history limit must not exceed 200");
            }
            if byte_len(request.search.as_str()) > 512 || has_control(request.search.as_str()) {
                return Err("invalid clipboard search query");
            }
            let zero = match request.cursor_id {
                Some(id) => id == 0,
                None => false,
            };
            if request.cursor_timestamp_ms.is_some() != request.cursor_id.is_some() || zero {
                return Err("clipboard cursor is incomplete");
            }
            if has_unspecified_kind(&request.kinds) {
                return Err("invalid clipboard content kind");
            }
        },
        Some(Query::GetActionOutput { action_id }) => {
            if !valid_control_identifier(action_id.as_str()) {
                return Err("invalid quick action id");
            }
        },
        Some(Query::GetNotifications { include_read: _, limit }) => {
            if *limit > 100 {
                return Err("notification limit must not exceed 100");
            }
        },
        Some(Query::GetClipboardSync { after_local_id: _, limit }) => {
            if *limit > 200 {
                return Err("clipboard sync page limit must not exceed 200");
            }
        },
        Some(_) => {},
        None => {
            return Err("empty query");
        },
    }
    Ok(())
}

/// The feature that a question belongs to.
pub open spec fn query_feature(query: Query) -> Feature {
    match query {
        Query::GetSystem | Query::GetDevices => Feature::System,
        Query::ListProcesses { .. } => Feature::Processes,
        Query::GetMedia => Feature::Media,
        Query::GetClipboard(_) => Feature::Clipboard,
        Query::ListWindows(_) => Feature::Windows,
        Query::ListActions | Query::GetActionOutput { .. } => Feature::Actions,
        Query::GetNotifications { .. } => Feature::Notifications,
        Query::GetClipboardSync { .. } => Feature::ClipboardSync,
    }
}

/// The capability that a question needs.
pub open spec fn query_capability(query: Query) -> PeerCapability {
    match query {
        Query::GetSystem | Query::GetDevices => PeerCapability::SystemRead,
        Query::ListProcesses { .. } => PeerCapability::ProcessRead,
        Query::GetMedia => PeerCapability::MediaRead,
        Query::GetClipboard(_) => PeerCapability::ClipboardRead,
        Query::ListWindows(_) => PeerCapability::WindowRead,
        Query::ListActions | Query::GetActionOutput { .. } => PeerCapability::ActionRead,
        Query::GetNotifications { .. } => PeerCapability::NotificationRead,
        Query::GetClipboardSync { .. } => PeerCapability::ClipboardSync,
    }
}

/// Why a question is not let through, if so: it is checked by itself before its
/// feature and its capability are asked for.
pub open spec fn query_denial(
    query: Option<Query>,
    features: Map<Feature, u32>,
    capabilities: Seq<PeerCapability>,
) -> Option<crate::access::DenialView> {
    match query_fault(query) {
        Some(message) => Some(crate::access::DenialView::BadRequest { message }),
        None => crate::access::access_denial(
            features,
            capabilities,
            query_feature(query->0),
            query_capability(query->0),
        ),
    }
}

/// Decides whether a question is let through.
pub fn authorize_query(
    query: &Option<Query>,
    features: &SelectedFeatures,
    capabilities: &Vec<PeerCapability>,
) -> (r: Result<(), Denial>)
    requires
        features.wf(),
    ensures
        crate::access::decides(r, query_denial(*query, features@, capabilities@)),
{
    if let Err(message) = validate_query(query) {
        return Err(Denial::BadRequest(message.to_owned()));
    }
    let (feature, capability) = match query {
        Some(Query::GetSystem) | Some(Query::GetDevices) => (
            Feature::System,
            PeerCapability::SystemRead,
        ),
        Some(Query::ListProcesses { .. }) => (Feature::Processes, PeerCapability::ProcessRead),
        Some(Query::GetMedia) => (Feature::Media, PeerCapability::MediaRead),
        Some(Query::GetClipboard(_)) => (Feature::Clipboard, PeerCapability::ClipboardRead),
        Some(Query::ListWindows(_)) => (Feature::Windows, PeerCapability::WindowRead),
        Some(Query::ListActions) | Some(Query::GetActionOutput { .. }) => (
            Feature::Actions,
            PeerCapability::ActionRead,
        ),
        Some(Query::GetNotifications { .. }) => (
            Feature::Notifications,
            PeerCapability::NotificationRead,
        ),
        Some(Query::GetClipboardSync { .. }) => (
            Feature::ClipboardSync,
            PeerCapability::ClipboardSync,
        ),
        None => {
            return Err(Denial::BadRequest("empty query".to_owned()));
        },
    };
    require_access(features, capabilities, feature, capability)
}

/// A question is let through only with the feature that it belongs to and the
/// capability that it needs.
pub proof fn lemma_queries_need_access(
    query: Option<Query>,
    features: Map<Feature, u32>,
    capabilities: Seq<PeerCapability>,
)
    requires
        query_denial(query, features, capabilities) is None,
    ensures
        query is Some,
        features.contains_key(query_feature(query->0)),
        capabilities.contains(query_capability(query->0)),
{
}

/// How the clipboard history is asked for.
#[derive(Debug, PartialEq, Eq)]
pub struct ClipboardHistoryQuery {
    pub limit: usize,
    pub cursor: Option<domain::ClipboardCursor>,
    pub search: Option<String>,
    pub kinds: Vec<domain::ClipboardContentKind>,
    pub favorite_only: bool,
    pub label_ids: Vec<String>,
}

/// The kinds that are meant, in order, without those that are not known.
pub open spec fn meant_kinds(kinds: Seq<proto::ClipboardContentKind>) -> Seq<
    domain::ClipboardContentKind,
>
    decreases kinds.len(),
{
    if kinds.len() == 0 {
        Seq::empty()
    } else {
        let rest = meant_kinds(kinds.drop_last());
        match crate::proto_msg::meant_clipboard_kind(kinds.last()) {
            Some(kind) => rest.push(kind),
            None => rest,
        }
    }
}

/// How many entries are asked for: twenty unless the client says otherwise.
pub open spec fn history_limit(limit: u32) -> u32 {
    if limit == 0 {
        20
    } else if limit > MAX_CLIPBOARD_ITEMS {
        MAX_CLIPBOARD_ITEMS
    } else {
        limit
    }
}

/// Puts a question about the clipboard history to the host.
pub fn clipboard_history_query(request: ClipboardRequest) -> (r: ClipboardHistoryQuery)
    ensures
        r.limit == history_limit(request.history_limit),
        r.cursor == match (request.cursor_timestamp_ms, request.cursor_id) {
            (Some(sort_at_ms), Some(id)) => Some(domain::ClipboardCursor { sort_at_ms, id }),
            _ => None,
        },
        match r.search {
            Some(search) => !crate::text::blank(request.search@) && search@
                == crate::text::trimmed(request.search@),
            None => crate::text::blank(request.search@),
        },
        r.kinds@ == meant_kinds(request.kinds@),
        r.favorite_only == request.favorite_only,
        r.label_ids == request.label_ids,
{
    let limit: u32 = if request.history_limit == 0 {
        20
    } else if request.history_limit > MAX_CLIPBOARD_ITEMS {
        MAX_CLIPBOARD_ITEMS
    } else {
        request.history_limit
    };
    let cursor = match (request.cursor_timestamp_ms, request.cursor_id) {
        (Some(sort_at_ms), Some(id)) => Some(domain::ClipboardCursor { sort_at_ms, id }),
        _ => None,
    };
    let search = if is_blank(request.search.as_str()) {
        None
    } else {
        Some(trim(request.search.as_str()))
    };
    let mut kinds: Vec<domain::ClipboardContentKind> = Vec::new();
    let mut i: usize = 0;
    while i < request.kinds.len()
        invariant
            i <= request.kinds@.len(),
            kinds@ == meant_kinds(request.kinds@.take(i as int)),
        decreases request.kinds@.len() - i,
    {
        proof {
            let longer = request.kinds@.take(i as int + 1);
            assert(longer.drop_last() =~= request.kinds@.take(i as int));
            assert(longer.last() == request.kinds@[i as int]);
        }
        if let Some(kind) = clipboard_kind_from_proto(request.kinds[i]) {
            kinds.push(kind);
        }
        i += 1;
    }
    assert(request.kinds@.take(request.kinds@.len() as int) =~= request.kinds@);
    ClipboardHistoryQuery {
        limit: limit as usize,
        cursor,
        search,
        kinds,
        favorite_only: request.favorite_only,
        label_ids: request.label_ids,
    }
}

/// True when numbers rise strictly.
pub open spec fn rising(list: Seq<u32>) -> bool {
    forall|i: int, j: int| 0 <= i < j < list.len() ==> #[trigger] list[i] < #[trigger] list[j]
}

/// True when `sorted` holds the numbers of `list` other than zero, each once, in
/// order.
pub open spec fn is_window_choice(sorted: Seq<u32>, list: Seq<u32>) -> bool {
    &&& rising(sorted)
    &&& forall|id: u32| #[trigger] sorted.contains(id) <==> id != 0 && list.contains(id)
}

fn insert_rising(list: &mut Vec<u32>, id: u32)
    requires
        rising(old(list)@),
    ensures
        rising(final(list)@),
        forall|x: u32| #[trigger]
            final(list)@.contains(x) <==> x == id || old(list)@.contains(x),
{
    let ghost before = list@;
    let mut i: usize = 0;
    while i < list.len() && list[i] < id
        invariant
            i <= list@.len(),
            list@ == before,
            forall|j: int| 0 <= j < i ==> #[trigger] before[j] < id,
        decreases list@.len() - i,
    {
        i += 1;
    }
    if i < list.len() && list[i] == id {
        assert(before[i as int] == id);
        return;
    }
    list.insert(i, id);
    proof {
        let after = list@;
        assert(after[i as int] == id);
        assert forall|x: u32| #[trigger] after.contains(x) <==> x == id || before.contains(x) by {
            if before.contains(x) {
                let j = choose|j: int| 0 <= j < before.len() && before[j] == x;
                assert(after[if j < i {
                    j
                } else {
                    j + 1
                }] == x);
            }
            if after.contains(x) && x != id {
                let j = choose|j: int| 0 <= j < after.len() && after[j] == x;
                assert(before[if j < i {
                    j
                } else {
                    j - 1
                }] == x);
            }
        }
        assert forall|a: int, b: int| 0 <= a < b < after.len() implies #[trigger] after[a]
            < #[trigger] after[b] by {
            if b > i {
                assert(before[b - 1] >= before[i as int]);
            }
        }
    }
}

/// The windows that thumbnails are asked of, in order and without repetitions.
pub fn window_choice(list: &Vec<u32>) -> (r: Vec<u32>)
    ensures
        is_window_choice(r@, list@),
{
    let mut sorted: Vec<u32> = Vec::new();
    let mut i: usize = 0;
    while i < list.len()
        invariant
            i <= list@.len(),
            rising(sorted@),
            forall|id: u32| #[trigger]
                sorted@.contains(id) <==> id != 0 && list@.take(i as int).contains(id),
        decreases list@.len() - i,
    {
        let id: u32 = list[i];
        let ghost before = sorted@;
        if id != 0 {
            insert_rising(&mut sorted, id);
        }
        proof {
            let shorter = list@.take(i as int);
            let longer = list@.take(i as int + 1);
            assert forall|x: u32| #[trigger] sorted@.contains(x) <==> x != 0 && longer.contains(
                x,
            ) by {
                assert(before.contains(x) <==> x != 0 && shorter.contains(x));
                crate::keyed::lemma_take_contains(list@, i as int, x);
            }
        }
        i += 1;
    }
    assert(list@.take(list@.len() as int) =~= list@);
    sorted
}

/// How the windows are sampled.
#[derive(Debug, PartialEq, Eq)]
pub enum WindowSample {
    /// Every window without its thumbnail.
    Plain,
    /// Every window with its thumbnail.
    EveryThumbnail,
    /// Thumbnails of these windows alone.
    Thumbnails(Vec<u32>),
}

/// Puts a question about the windows to the host. Thumbnails are left out for a
/// client that cannot fetch them.
pub fn window_sample(request: WindowsRequest, can_read_blobs: bool) -> (r: Result<
    WindowSample,
    CommandFailure,
>)
    ensures
        ({
            let wanted = request.include_thumbnails && can_read_blobs;
            &&& r is Ok ==> match r->Ok_0 {
                WindowSample::Plain => !wanted,
                WindowSample::EveryThumbnail => wanted && forall|id: u32| #[trigger]
                    request.thumbnail_window_ids@.contains(id) ==> id == 0,
                WindowSample::Thumbnails(ids) => wanted && 0 < ids@.len()
                    <= MAX_THUMBNAIL_WINDOW_IDS && is_window_choice(
                    ids@,
                    request.thumbnail_window_ids@,
                ),
            }
            &&& r is Err ==> r->Err_0@ == (crate::access::FailureView {
                code: ErrorCode::InvalidArgument,
                message: "at most 64 thumbnail window IDs are allowed"@,
            })
            &&& r is Err <==> exists|ids: Seq<u32>|
                #![trigger is_window_choice(ids, request.thumbnail_window_ids@)]
                is_window_choice(ids, request.thumbnail_window_ids@) && ids.len()
                    > MAX_THUMBNAIL_WINDOW_IDS
        }),
{
    let ids = window_choice(&request.thumbnail_window_ids);
    proof {
        assert forall|other: Seq<u32>|
            #![trigger is_window_choice(other, request.thumbnail_window_ids@)]
            is_window_choice(other, request.thumbnail_window_ids@) implies other == ids@ by {
            lemma_rising_unique(other, ids@);
        }
    }
    if ids.len() > MAX_THUMBNAIL_WINDOW_IDS {
        return Err(CommandFailure::invalid("at most 64 thumbnail window IDs are allowed"));
    }
    if !(request.include_thumbnails && can_read_blobs) {
        return Ok(WindowSample::Plain);
    }
    if ids.len() == 0 {
        proof {
            assert forall|id: u32| #[trigger]
                request.thumbnail_window_ids@.contains(id) implies id == 0 by {
                if id != 0 {
                    assert(ids@.contains(id));
                }
            }
        }
        return Ok(WindowSample::EveryThumbnail);
    }
    Ok(WindowSample::Thumbnails(ids))
}

/// A rising list is determined by what it holds.
pub proof fn lemma_rising_unique(a: Seq<u32>, b: Seq<u32>)
    requires
        rising(a),
        rising(b),
        forall|x: u32|
            #![trigger a.contains(x)]
            #![trigger b.contains(x)]
            a.contains(x) <==> b.contains(x),
    ensures
        a == b,
    decreases a.len(),
{
    if a.len() == 0 {
        if b.len() > 0 {
            assert(b.contains(b[0]));
        }
        assert(a =~= b);
    } else if b.len() == 0 {
        assert(a.contains(a[0]));
    } else {
        let x = a.last();
        let y = b.last();
        assert(b.contains(x)) by {
            assert(a.contains(x));
        }
        assert(a.contains(y)) by {
            assert(b.contains(y));
        }
        assert(x == y);
        let c = a.drop_last();
        let d = b.drop_last();
        assert forall|z: u32|
            #![trigger c.contains(z)]
            #![trigger d.contains(z)]
            c.contains(z) <==> d.contains(z) by {
            if c.contains(z) {
                let i = choose|i: int| 0 <= i < c.len() && c[i] == z;
                assert(a[i] == z);
                assert(a.contains(z));
                let j = choose|j: int| 0 <= j < b.len() && b[j] == z;
                assert(z < x);
                assert(d[j] == z);
            }
            if d.contains(z) {
                let i = choose|i: int| 0 <= i < d.len() && d[i] == z;
                assert(b[i] == z);
                assert(b.contains(z));
                let j = choose|j: int| 0 <= j < a.len() && a[j] == z;
                assert(z < y);
                assert(c[j] == z);
            }
        }
        lemma_rising_unique(c, d);
        assert(a =~= c.push(x));
        assert(b =~= d.push(y));
    }
}

/// How many notifications are meant.
pub open spec fn meant_notification_limit(limit: u32) -> int {
    if limit == 0 {
        50
    } else if limit > 100 {
        100
    } else {
        limit as int
    }
}

/// How many notifications are asked for: fifty unless the client says
/// otherwise, at most a hundred.
pub fn notification_limit(limit: u32) -> (r: usize)
    ensures
        r == meant_notification_limit(limit),
{
    if limit == 0 {
        50
    } else if limit > 100 {
        100
    } else {
        limit as usize
    }
}

/// How many records to keep in step are meant.
pub open spec fn meant_sync_limit(limit: u32) -> int {
    if limit < 1 {
        1
    } else if limit > 200 {
        200
    } else {
        limit as int
    }
}

/// How many records to keep in step are asked for: at least one, at most two
/// hundred.
pub fn sync_page_limit(limit: u32) -> (r: usize)
    ensures
        r == meant_sync_limit(limit),
{
    if limit < 1 {
        1
    } else if limit > 200 {
        200
    } else {
        limit as usize
    }
}

/// The nearest number that fits in a signed number of the same size.
pub open spec fn signed_size(value: u64) -> u64 {
    if value > i64::MAX {
        i64::MAX as u64
    } else {
        value
    }
}

/// A number that fits in a signed number of the same size.
pub fn protocol_u64(value: u64) -> (r: u64)
    ensures
        r == signed_size(value),
{
    if value > 0x7fff_ffff_ffff_ffff {
        0x7fff_ffff_ffff_ffff
    } else {
        value
    }
}

/// The revision that a snapshot is told with.
pub open spec fn told_revision(revision: u64) -> u64 {
    if revision == 0 {
        1
    } else {
        signed_size(revision)
    }
}

/// The revision of a snapshot: at least one.
pub fn snapshot_revision(revision: u64) -> (r: u64)
    ensures
        r == told_revision(revision),
{
    let bounded: u64 = protocol_u64(revision);
    if bounded < 1 {
        1
    } else {
        bounded
    }
}

/// A time as it is reported: the time itself if it is one, else the present.
pub open spec fn timestamp(value: i64, now: i64) -> i64 {
    if value > 0 {
        value
    } else if now > 1 {
        now
    } else {
        1
    }
}

/// A time as it is reported at a given present.
pub fn protocol_timestamp_at(value: i64, now: i64) -> (r: i64)
    ensures
        r == timestamp(value, now),
        r > 0,
{
    if value > 0 {
        value
    } else if now > 1 {
        now
    } else {
        1
    }
}

/// A time as it is reported.
pub fn protocol_timestamp(value: i64) -> (r: i64)
    ensures
        value > 0 ==> r == value,
        r > 0,
        exists|now: i64| r == timestamp(value, now),
{
    let now: i64 = crate::product::now_ms();
    protocol_timestamp_at(value, now)
}

/// What an answer is replaced by when its frame would be too large.
pub fn check_query_frame(encoded_len: usize, maximum: usize) -> (r: Result<(), CommandFailure>)
    ensures
        if encoded_len > maximum {
            r is Err && r->Err_0@ == (crate::access::FailureView {
                code: ErrorCode::ResourceExhausted,
                message: "query result exceeds the negotiated control-frame limit"@,
            })
        } else {
            r is Ok
        },
{
    if encoded_len > maximum {
        return Err(
            CommandFailure {
                code: ErrorCode::ResourceExhausted,
                message: "query result exceeds the negotiated control-frame limit".to_owned(),
            },
        );
    }
    Ok(())
}

/// The device as it is told: its names cut down.
pub fn bounded_local_device(device: domain::LocalDeviceInfo) -> (r: proto::LocalDeviceInfo)
    ensures
        r.name@ == crate::text::sanitized(device.name@, 128),
        r.ip@ == crate::text::sanitized(device.ip@, 128),
        r.app_version@ == crate::text::sanitized(device.app_version@, 64),
        r.port == device.port,
{
    let told = crate::proto_msg::local_device_info_to_proto(device);
    proto::LocalDeviceInfo {
        name: crate::text::sanitize_text(told.name, 128),
        ip: crate::text::sanitize_text(told.ip, 128),
        app_version: crate::text::sanitize_text(told.app_version, 64),
        port: told.port,
    }
}

/// How to connect, as it is told: always encrypted.
pub fn bounded_connection_config(config: domain::ConnectionConfig) -> (r: proto::ConnectionConfig)
    ensures
        r.port == config.port,
        r.encrypted,
        r.auto_reconnect == config.auto_reconnect,
{
    let mut told = crate::proto_msg::connection_config_to_proto(config);
    told.encrypted = true;
    told
}

/// What a client needs to have a question answered, question by question.
pub proof fn lemma_each_query_needs_its_own_capability(
    query: Query,
    features: Map<Feature, u32>,
    capabilities: Seq<PeerCapability>,
)
    requires
        query_denial(Some(query), features, capabilities) is None,
    ensures
        query is GetSystem || query is GetDevices ==> features.contains_key(Feature::System)
            && capabilities.contains(PeerCapability::SystemRead),
        query is ListProcesses ==> features.contains_key(Feature::Processes)
            && capabilities.contains(PeerCapability::ProcessRead),
        query is GetMedia ==> features.contains_key(Feature::Media) && capabilities.contains(
            PeerCapability::MediaRead,
        ),
        query is GetClipboard ==> features.contains_key(Feature::Clipboard)
            && capabilities.contains(PeerCapability::ClipboardRead),
        query is ListWindows ==> features.contains_key(Feature::Windows) && capabilities.contains(
            PeerCapability::WindowRead,
        ),
        query is ListActions || query is GetActionOutput ==> features.contains_key(
            Feature::Actions,
        ) && capabilities.contains(PeerCapability::ActionRead),
        query is GetNotifications ==> features.contains_key(Feature::Notifications)
            && capabilities.contains(PeerCapability::NotificationRead),
        query is GetClipboardSync ==> features.contains_key(Feature::ClipboardSync)
            && capabilities.contains(PeerCapability::ClipboardSync),
{
}

/// A proper question of a client with every feature and every capability that there
/// is for questions is let through.
pub proof fn lemma_permitted_queries_are_let_through(
    query: Query,
    features: Map<Feature, u32>,
    capabilities: Seq<PeerCapability>,
)
    requires
        query_fault(Some(query)) is None,
        features.contains_key(Feature::System),
        features.contains_key(Feature::Processes),
        features.contains_key(Feature::Media),
        features.contains_key(Feature::Clipboard),
        features.contains_key(Feature::Windows),
        features.contains_key(Feature::Actions),
        features.contains_key(Feature::Notifications),
        features.contains_key(Feature::ClipboardSync),
        capabilities.contains(PeerCapability::SystemRead),
        capabilities.contains(PeerCapability::ProcessRead),
        capabilities.contains(PeerCapability::MediaRead),
        capabilities.contains(PeerCapability::ClipboardRead),
        capabilities.contains(PeerCapability::WindowRead),
        capabilities.contains(PeerCapability::ActionRead),
        capabilities.contains(PeerCapability::NotificationRead),
        capabilities.contains(PeerCapability::ClipboardSync),
    ensures
        query_denial(Some(query), features, capabilities) is None,
{
}

/// Which questions are proper by themselves.
pub proof fn lemma_proper_queries(query: Query)
    ensures
        query_fault(None) is Some,
        query is GetSystem || query is GetMedia || query is GetDevices || query is ListWindows
            || query is ListActions ==> query_fault(Some(query)) is None,
        query is ListProcesses ==> (query_fault(Some(query)) is None
            <==> !(query->sort_by is Unspecified)),
        query is GetNotifications ==> (query_fault(Some(query)) is None
            <==> query->GetNotifications_limit <= 100),
        query is GetClipboardSync ==> (query_fault(Some(query)) is None
            <==> query->GetClipboardSync_limit <= 200),
        query is GetClipboard ==> (query_fault(Some(query)) is None <==> {
            let request = query->GetClipboard_0;
            &&& request.history_limit <= 200
            &&& crate::text::utf8_len(request.search@) <= 512
            &&& crate::text::control_free(request.search@)
            &&& request.cursor_timestamp_ms is Some <==> request.cursor_id is Some
            &&& request.cursor_id is Some ==> request.cursor_id->0 > 0
            &&& !request.kinds@.contains(proto::ClipboardContentKind::Unspecified)
        }),
{
}

/// A client gets as much as it asks for, as long as that is neither nothing nor too
/// much.
pub proof fn lemma_limits_are_kept(limit: u32)
    ensures
        1 <= limit <= 200 ==> history_limit(limit) == limit,
        1 <= history_limit(limit) <= 200,
        limit == 0 ==> history_limit(limit) == 20,
        limit > 200 ==> history_limit(limit) == 200,
        1 <= limit <= 100 ==> meant_notification_limit(limit) == limit,
        limit == 0 ==> meant_notification_limit(limit) == 50,
        limit > 100 ==> meant_notification_limit(limit) == 100,
        1 <= limit <= 200 ==> meant_sync_limit(limit) == limit,
        limit == 0 ==> meant_sync_limit(limit) == 1,
        limit > 200 ==> meant_sync_limit(limit) == 200,
{
}

/// A number is told as it is if it can be; a revision is never zero and a time
/// always after the beginning of time.
pub proof fn lemma_numbers_are_told_as_they_are(value: u64, at: i64, now: i64)
    ensures
        value <= 0x7fff_ffff_ffff_ffff ==> signed_size(value) == value,
        signed_size(value) <= 0x7fff_ffff_ffff_ffff,
        value > 0x7fff_ffff_ffff_ffff ==> signed_size(value) == 0x7fff_ffff_ffff_ffff,
        1 <= value <= 0x7fff_ffff_ffff_ffff ==> told_revision(value) == value,
        1 <= told_revision(value) <= 0x7fff_ffff_ffff_ffff,
        at > 0 ==> timestamp(at, now) == at,
        at <= 0 && now > 0 ==> timestamp(at, now) == now,
        timestamp(at, now) > 0,
{
}

/// The kinds that are asked for are those that were named, each as often and in the
/// same order, without those that are not known.
pub proof fn lemma_kinds_are_those_asked_for(kinds: Seq<proto::ClipboardContentKind>)
    ensures
        meant_kinds(kinds).contains(domain::ClipboardContentKind::Text) <==> kinds.contains(
            proto::ClipboardContentKind::Text,
        ),
        meant_kinds(kinds).contains(domain::ClipboardContentKind::Html) <==> kinds.contains(
            proto::ClipboardContentKind::Html,
        ),
        meant_kinds(kinds).contains(domain::ClipboardContentKind::Image) <==> kinds.contains(
            proto::ClipboardContentKind::Image,
        ),
        meant_kinds(kinds).contains(domain::ClipboardContentKind::Files) <==> kinds.contains(
            proto::ClipboardContentKind::Files,
        ),
        !kinds.contains(proto::ClipboardContentKind::Unspecified) ==> meant_kinds(kinds).len()
            == kinds.len(),
        meant_kinds(kinds).len() <= kinds.len(),
    decreases kinds.len(),
{
    if kinds.len() > 0 {
        let before = kinds.drop_last();
        let last = kinds.last();
        let rest = meant_kinds(before);
        lemma_kinds_are_those_asked_for(before);
        assert(kinds =~= before.push(last));
        crate::keyed::lemma_push_contains(before, last, proto::ClipboardContentKind::Text);
        crate::keyed::lemma_push_contains(before, last, proto::ClipboardContentKind::Html);
        crate::keyed::lemma_push_contains(before, last, proto::ClipboardContentKind::Image);
        crate::keyed::lemma_push_contains(before, last, proto::ClipboardContentKind::Files);
        crate::keyed::lemma_push_contains(
            before,
            last,
            proto::ClipboardContentKind::Unspecified,
        );
        if crate::proto_msg::meant_clipboard_kind(last) is Some {
            let kind = crate::proto_msg::meant_clipboard_kind(last)->0;
            crate::keyed::lemma_push_contains(rest, kind, domain::ClipboardContentKind::Text);
            crate::keyed::lemma_push_contains(rest, kind, domain::ClipboardContentKind::Html);
            crate::keyed::lemma_push_contains(rest, kind, domain::ClipboardContentKind::Image);
            crate::keyed::lemma_push_contains(rest, kind, domain::ClipboardContentKind::Files);
        }
    }
}

/// A question about the clipboard is proper when it asks for at most 200 entries,
/// searches for a plain text of at most 512 bytes, names a whole place to go on from or
/// none, and names kinds that there are.
pub proof fn lemma_proper_clipboard_questions(request: ClipboardRequest)
    ensures
        clipboard_request_fault(request) is None ==> {
            &&& request.history_limit <= 200
            &&& crate::text::utf8_len(request.search@) <= 512
            &&& crate::text::control_free(request.search@)
            &&& request.cursor_timestamp_ms is Some <==> request.cursor_id is Some
            &&& request.cursor_id != Some(0u64)
            &&& !request.kinds@.contains(proto::ClipboardContentKind::Unspecified)
        },
        request.history_limit <= 200 && crate::text::utf8_len(request.search@) <= 512
            && crate::text::control_free(request.search@) && (request.cursor_timestamp_ms is Some
            == request.cursor_id is Some) && request.cursor_id != Some(0u64)
            && !request.kinds@.contains(proto::ClipboardContentKind::Unspecified)
            ==> clipboard_request_fault(request) is None,
        request.history_limit > 200 ==> clipboard_request_fault(request) == Some(
            "clipboard history limit must not exceed 200"@,
        ),
{
}

} // verus!
