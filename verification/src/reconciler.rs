//! The course of a reconciliation: what is asked of the two devices, one step
//! after the other.

use vstd::prelude::*;
use vstd::string::*;

use crate::domain;
use crate::proto;
use crate::reconciliation::{
    check_label_cursor, check_manifest_cursor, compare_local, compare_remote, expect_label_receipt,
    expect_labels, expect_page, expect_revision, has_all, label_batches, labels_to_send, plus,
    remember, with_failure, LabelTable, LabelVersion, PassStart, ReconciliationResult, RemoteStep,
    ReplicaResponse, ResultView, MAX_MANIFEST_RECORDS, MAX_PASSES,
};
use crate::replication::{Manifest, PAGE_LIMIT};
use crate::replication_service::ReplicaRequest;

verus! {

/// A page of the history of this device.
#[derive(Debug)]
pub struct LocalPage {
    pub records: Vec<domain::ClipboardReplicaRecord>,
    pub next_cursor: Option<domain::ClipboardReplicaCursor>,
}

/// What is to be done next.
#[derive(Debug)]
pub enum ReconcilerAction {
    /// Nothing; the next step can be taken.
    GoOn,
    /// To read the revision of this device.
    ReadRevision,
    /// To ask the other device.
    Ask { request: ReplicaRequest },
    /// To keep labels of the other device.
    KeepLabels { labels: Vec<domain::ClipboardLabel> },
    /// To read the labels of this device.
    ReadLabels,
    /// To read a page of the history of this device.
    ReadPage { cursor: Option<domain::ClipboardReplicaCursor>, limit: usize },
    /// To take the current entry from the other device, with its content if that
    /// has to be brought.
    Take { fetch: bool },
    /// To give the current entry to the other device, with or without its
    /// content.
    Give { include_payload: bool },
    /// The reconciliation is over.
    Finish,
}

/// What came of it.
#[derive(Debug)]
pub enum ReconcilerEvent {
    /// The next step is taken.
    GoOn,
    /// The revision of this device.
    Revision { outcome: Result<u64, String> },
    /// The answer of the other device.
    Answer { outcome: Result<ReplicaResponse, String> },
    /// How many labels were new to this device.
    LabelsKept { outcome: Result<usize, String> },
    /// The labels of this device.
    Labels { outcome: Result<Vec<domain::ClipboardLabel>, String> },
    /// A page of the history of this device.
    Page { outcome: Result<LocalPage, String> },
    /// Whether the entry that was taken or given was new where it went.
    Moved { outcome: Result<bool, String> },
}

/// How far a comparison has come.
pub enum Phase {
    /// The revision of this device is read.
    LocalRevision,
    /// The other device is asked for its revision.
    RemoteRevision { local: u64 },
    /// The other device is asked for labels.
    RemoteLabels { table: LabelTable, cursor: String },
    /// Labels of the other device are kept.
    KeepingLabels { table: LabelTable, cursor: String, next_cursor: Option<String> },
    /// The labels of this device are read.
    OwnLabels { table: LabelTable },
    /// Labels are offered to the other device; further ones wait.
    SendingLabels { waiting: Vec<Vec<proto::ClipboardLabel>>, offered: usize },
    /// The history of this device is read.
    FirstManifest { local: Manifest },
    /// The other device is asked for a page of its history.
    RemotePage {
        local: Manifest,
        remote: Manifest,
        cursor: Option<proto::ClipboardReplicaCursor>,
    },
    /// A page of its history is gone through.
    Headers {
        local: Manifest,
        remote: Manifest,
        cursor: Option<proto::ClipboardReplicaCursor>,
        headers: Vec<proto::ClipboardReplicaRecord>,
        next_cursor: Option<proto::ClipboardReplicaCursor>,
    },
    /// One of its entries is taken.
    Taking {
        local: Manifest,
        remote: Manifest,
        cursor: Option<proto::ClipboardReplicaCursor>,
        headers: Vec<proto::ClipboardReplicaRecord>,
        next_cursor: Option<proto::ClipboardReplicaCursor>,
        record: domain::ClipboardReplicaRecord,
    },
    /// The history of this device is read once more.
    SecondManifest { remote: Manifest, local: Manifest },
    /// The entries of this device are gone through.
    Comparing { remote: Manifest, local: Manifest, order: Vec<usize>, place: usize },
    /// One of them is given.
    Giving { remote: Manifest, local: Manifest, order: Vec<usize>, place: usize },
    /// The revision of this device is read again.
    LocalRevisionAfter,
    /// The other device is asked for its revision again.
    RemoteRevisionAfter { local: u64 },
    /// The reconciliation is over.
    Over,
}

/// What the last comparison has looked at.
pub struct Seen {
    /// The labels of the other device and those of this one.
    pub their_labels: Map<Seq<char>, LabelVersion>,
    pub own_labels: Seq<domain::ClipboardLabel>,
    /// The entries of this device, those of the other one, and then again those
    /// of this one.
    pub first: Seq<domain::ClipboardReplicaRecord>,
    pub theirs: Seq<domain::ClipboardReplicaRecord>,
    pub last: Seq<domain::ClipboardReplicaRecord>,
}

/// What was looked at before the first comparison.
pub open spec fn nothing_seen() -> Seen {
    Seen {
        their_labels: Map::empty(),
        own_labels: Seq::empty(),
        first: Seq::empty(),
        theirs: Seq::empty(),
        last: Seq::empty(),
    }
}

/// True when the other device has every label of this one.
pub open spec fn labels_agree(seen: Seen) -> bool {
    crate::reconciliation::missing_labels(seen.own_labels, seen.their_labels).len() == 0
}

/// True when `own` has all that the entries in `others` could bring.
pub open spec fn has_every(
    own: Seq<domain::ClipboardReplicaRecord>,
    others: Seq<domain::ClipboardReplicaRecord>,
) -> bool {
    forall|i: int| 0 <= i < others.len() ==> has_all(own, #[trigger] others[i])
}

/// True when neither device could bring the other one anything.
pub open spec fn agree(seen: Seen) -> bool {
    &&& labels_agree(seen)
    &&& has_every(seen.first, seen.theirs)
    &&& has_every(seen.theirs, seen.last)
}

/// The state of a reconciliation.
pub struct Reconciler {
    pub result: ReconciliationResult,
    /// How many comparisons were closed.
    pub passes: usize,
    /// How the present comparison began.
    pub start: PassStart,
    pub phase: Phase,
    pub seen: Ghost<Seen>,
}

/// The entries that a device has after some more became known.
pub open spec fn with_records(
    records: Seq<domain::ClipboardReplicaRecord>,
    more: Seq<domain::ClipboardReplicaRecord>,
) -> Seq<domain::ClipboardReplicaRecord>
    decreases more.len(),
{
    if more.len() == 0 {
        records
    } else {
        crate::replication::with_record(with_records(records, more.drop_last()), more.last())
    }
}

/// The labels that a device has after some more became known.
pub open spec fn with_labels(
    table: Map<Seq<char>, LabelVersion>,
    more: Seq<domain::ClipboardLabel>,
) -> Map<Seq<char>, LabelVersion>
    decreases more.len(),
{
    if more.len() == 0 {
        table
    } else {
        with_labels(table, more.drop_last()).insert(
            more.last().id@,
            (LabelVersion {
                revision: more.last().revision,
                updated_by_device_id: more.last().updated_by_device_id,
            }),
        )
    }
}

impl Reconciler {
    /// True when this comparison has found no difference so far.
    pub open spec fn quiet(&self) -> bool {
        self.result.differences == self.start.differences && self.start.differences < usize::MAX
    }

    /// What holds in every state. Success was reported only if the last
    /// comparison found no difference and no failure, and if neither device has
    /// changed meanwhile.
    pub open spec fn wf(&self) -> bool {
        let seen = self.seen@;
        &&& self.phase is Over || self.passes < MAX_PASSES
        &&& self.passes <= MAX_PASSES
        &&& self.result.converged ==> self.phase is Over && self.settled()
        &&& match self.phase {
            Phase::LocalRevision => true,
            Phase::RemoteRevision { .. } => true,
            Phase::Over => true,
            _ => self.start.differences <= self.result.differences,
        }
        &&& match self.phase {
            Phase::LocalRevision => true,
            Phase::RemoteRevision { .. } => true,
            Phase::RemoteLabels { .. } => true,
            Phase::KeepingLabels { .. } => true,
            Phase::OwnLabels { table } => table@ == seen.their_labels,
            Phase::SendingLabels { waiting, offered } => {
                &&& offered > 0
                &&& forall|i: int| 0 <= i < waiting@.len() ==> (#[trigger] waiting@[i])@.len() > 0
            },
            Phase::Over => true,
            _ => self.quiet() ==> labels_agree(seen),
        }
        &&& match self.phase {
            Phase::FirstManifest { local } => local.wf(),
            Phase::RemotePage { local, remote, .. } => {
                &&& local.wf() && local@ == seen.first
                &&& remote.wf() && (self.quiet() ==> has_every(local@, remote@))
            },
            Phase::Headers { local, remote, .. } => {
                &&& local.wf() && local@ == seen.first
                &&& remote.wf() && (self.quiet() ==> has_every(local@, remote@))
            },
            Phase::Taking { local, remote, .. } => {
                &&& local.wf() && local@ == seen.first
                &&& remote.wf() && !self.quiet()
            },
            Phase::SecondManifest { remote, local } => {
                &&& remote.wf() && remote@ == seen.theirs
                &&& local.wf() && (self.quiet() ==> has_every(seen.first, seen.theirs))
            },
            Phase::Comparing { remote, local, order, place } => {
                &&& remote.wf() && remote@ == seen.theirs
                &&& local.wf() && local@ == seen.last
                &&& crate::replication::newest_first(order@, local@)
                &&& place <= order@.len()
                &&& self.quiet() ==> has_every(seen.first, seen.theirs)
                &&& self.quiet() ==> forall|k: int|
                    0 <= k < place ==> has_all(remote@, local@[(#[trigger] order@[k]) as int])
            },
            Phase::Giving { remote, local, order, place } => {
                &&& remote.wf() && remote@ == seen.theirs
                &&& local.wf() && local@ == seen.last
                &&& crate::replication::newest_first(order@, local@)
                &&& place < order@.len()
                &&& !self.quiet()
            },
            Phase::LocalRevisionAfter => self.result.failed == 0 && (self.quiet() ==> agree(seen)),
            Phase::RemoteRevisionAfter { .. } => self.result.failed == 0 && (self.quiet() ==> agree(
                seen,
            )),
            _ => true,
        }
    }

    /// True when the last comparison found no difference and no failure, and
    /// neither device changed meanwhile.
    pub open spec fn settled(&self) -> bool {
        &&& self.result.failed == 0
        &&& self.result.differences == self.start.differences
        &&& self.result.local_revision == self.start.local
        &&& self.result.remote_revision == self.start.remote
        &&& self.start.differences < usize::MAX ==> agree(self.seen@)
    }

    /// True when an event is what the state waits for.
    pub open spec fn awaits(&self, event: ReconcilerEvent) -> bool {
        match self.phase {
            Phase::LocalRevision | Phase::LocalRevisionAfter => event is Revision,
            Phase::RemoteRevision { .. }
            | Phase::RemoteLabels { .. }
            | Phase::SendingLabels { .. }
            | Phase::RemotePage { .. }
            | Phase::RemoteRevisionAfter { .. } => event is Answer,
            Phase::KeepingLabels { .. } => event is LabelsKept,
            Phase::OwnLabels { .. } => event is Labels,
            Phase::FirstManifest { .. } | Phase::SecondManifest { .. } => event is Page,
            Phase::Headers { .. } | Phase::Comparing { .. } => event is GoOn,
            Phase::Taking { .. } | Phase::Giving { .. } => event is Moved,
            Phase::Over => false,
        }
    }

    /// True when an action is what leads to the event that the state waits for.
    pub open spec fn wants(&self, action: ReconcilerAction) -> bool {
        match self.phase {
            Phase::LocalRevision | Phase::LocalRevisionAfter => action is ReadRevision,
            Phase::RemoteRevision { .. }
            | Phase::RemoteLabels { .. }
            | Phase::SendingLabels { .. }
            | Phase::RemotePage { .. }
            | Phase::RemoteRevisionAfter { .. } => action is Ask,
            Phase::KeepingLabels { .. } => action is KeepLabels,
            Phase::OwnLabels { .. } => action is ReadLabels,
            Phase::FirstManifest { .. } | Phase::SecondManifest { .. } => action is ReadPage,
            Phase::Headers { .. } | Phase::Comparing { .. } => action is GoOn,
            Phase::Taking { .. } => action is Take,
            Phase::Giving { .. } => action is Give,
            Phase::Over => action is Finish,
        }
    }
}

/// True when a step stays in the same comparison.
pub open spec fn same_pass(before: Reconciler, after: Reconciler) -> bool {
    &&& after.passes == before.passes
    &&& after.start == before.start
}

/// True when a reconciliation that stood at `result` breaks off with an error.
pub open spec fn breaks_off(
    before: Reconciler,
    result: ResultView,
    after: Reconciler,
    action: ReconcilerAction,
    error: Seq<char>,
) -> bool {
    &&& same_pass(before, after)
    &&& after.phase is Over
    &&& after.result@ == with_failure(result, "connection"@, error)
    &&& action is Finish
}

/// True when the history of this device is read from a place on.
pub open spec fn reads_page(
    action: ReconcilerAction,
    cursor: Option<domain::ClipboardReplicaCursor>,
) -> bool {
    action == (ReconcilerAction::ReadPage { cursor, limit: PAGE_LIMIT })
}

/// True when the next batch of labels is offered, or, if there is none, the
/// history of this device is read.
pub open spec fn sends_labels(
    after: Reconciler,
    action: ReconcilerAction,
    batches: Seq<Seq<proto::ClipboardLabel>>,
) -> bool {
    if batches.len() == 0 {
        &&& after.phase is FirstManifest
        &&& after.phase->FirstManifest_local@.len() == 0
        &&& reads_page(action, None)
    } else {
        &&& after.phase is SendingLabels
        &&& crate::reconciliation::batch_views(after.phase->waiting@) == batches.skip(1)
        &&& after.phase->offered == batches[0].len()
        &&& action is Ask
        &&& action->request is StoreLabels
        &&& action->request->labels@ == batches[0]
    }
}

/// True when the other device is asked for its history from a place on, where
/// `local` and `remote` are the entries that are known.
pub open spec fn asks_page(
    after: Reconciler,
    action: ReconcilerAction,
    local: Seq<domain::ClipboardReplicaRecord>,
    remote: Seq<domain::ClipboardReplicaRecord>,
    cursor: Option<proto::ClipboardReplicaCursor>,
) -> bool {
    &&& after.phase is RemotePage
    &&& after.phase->RemotePage_local@ == local
    &&& after.phase->RemotePage_remote@ == remote
    &&& after.phase->RemotePage_cursor == cursor
    &&& action is Ask
    &&& action->request is Scan
    &&& action->request->Scan_cursor == cursor
    &&& action->request->Scan_limit == PAGE_LIMIT
}

/// The entries that are left of a page, and how it is gone through.
pub open spec fn goes_through(
    after: Reconciler,
    local: Seq<domain::ClipboardReplicaRecord>,
    remote: Seq<domain::ClipboardReplicaRecord>,
    cursor: Option<proto::ClipboardReplicaCursor>,
    headers: Seq<proto::ClipboardReplicaRecord>,
    next_cursor: Option<proto::ClipboardReplicaCursor>,
) -> bool {
    &&& after.phase is Headers
    &&& after.phase->Headers_local@ == local
    &&& after.phase->Headers_remote@ == remote
    &&& after.phase->Headers_cursor == cursor
    &&& after.phase->Headers_headers@ == headers
    &&& after.phase->Headers_next_cursor == next_cursor
}

/// True when an entry of the other device is added to those that are known of
/// it, of which there may not be too many.
pub open spec fn adds_remote(
    before: Reconciler,
    result: ResultView,
    after: Reconciler,
    action: ReconcilerAction,
    local: Seq<domain::ClipboardReplicaRecord>,
    remote: Seq<domain::ClipboardReplicaRecord>,
    record: domain::ClipboardReplicaRecord,
    cursor: Option<proto::ClipboardReplicaCursor>,
    headers: Seq<proto::ClipboardReplicaRecord>,
    next_cursor: Option<proto::ClipboardReplicaCursor>,
) -> bool {
    let more = crate::replication::with_record(remote, record);
    if more.len() > MAX_MANIFEST_RECORDS {
        breaks_off(before, result, after, action, "clipboard manifest exceeds safety limit"@)
    } else {
        &&& same_pass(before, after)
        &&& goes_through(after, local, more, cursor, headers, next_cursor)
        &&& after.result@ == result
        &&& action is GoOn
    }
}

/// True when the answer with the revision of the other device leads on.
pub open spec fn steps_revision(
    before: Reconciler,
    after: Reconciler,
    action: ReconcilerAction,
    local: u64,
    outcome: Result<ReplicaResponse, String>,
) -> bool {
    match outcome {
        Err(error) => breaks_off(before, before.result@, after, action, error@),
        Ok(ReplicaResponse::Revision(remote)) => {
            &&& after.passes == before.passes
            &&& after.start == (PassStart { local, remote, differences: before.result.differences })
            &&& after.result@ == before.result@
            &&& after.phase is RemoteLabels
            &&& after.phase->RemoteLabels_table@ == Map::<Seq<char>, LabelVersion>::empty()
            &&& after.phase->RemoteLabels_cursor@.len() == 0
            &&& action is Ask && action->request is ScanLabels
            &&& action->request->ScanLabels_cursor@.len() == 0
        },
        Ok(_) => breaks_off(
            before,
            before.result@,
            after,
            action,
            "invalid clipboard revision response"@,
        ),
    }
}

/// True when an answer with labels of the other device leads on.
pub open spec fn steps_labels(
    before: Reconciler,
    after: Reconciler,
    action: ReconcilerAction,
    table: Map<Seq<char>, LabelVersion>,
    cursor: Seq<char>,
    outcome: Result<ReplicaResponse, String>,
) -> bool {
    match outcome {
        Err(error) => breaks_off(before, before.result@, after, action, error@),
        Ok(ReplicaResponse::Labels { labels, next_cursor }) => if crate::reconciliation::labels_ok(
            labels@,
        ) {
            let meant = crate::replication_service::meant_labels(labels@);
            &&& same_pass(before, after)
            &&& after.result@ == before.result@
            &&& after.phase is KeepingLabels
            &&& after.phase->KeepingLabels_table@ == with_labels(table, meant)
            &&& after.phase->KeepingLabels_cursor@ == cursor
            &&& after.phase->KeepingLabels_next_cursor == next_cursor
            &&& action is KeepLabels
            &&& action->labels@ == meant
        } else {
            breaks_off(before, before.result@, after, action, "invalid clipboard label metadata"@)
        },
        Ok(_) => breaks_off(
            before,
            before.result@,
            after,
            action,
            "invalid clipboard labels response"@,
        ),
    }
}

/// True when the labels that were kept lead on: to the next page of labels, or
/// to the labels of this device.
pub open spec fn steps_kept(
    before: Reconciler,
    after: Reconciler,
    action: ReconcilerAction,
    table: Map<Seq<char>, LabelVersion>,
    cursor: Seq<char>,
    next_cursor: Option<String>,
    outcome: Result<usize, String>,
) -> bool {
    match outcome {
        Err(error) => breaks_off(before, before.result@, after, action, error@),
        Ok(changed) => {
            let result = ResultView {
                labels_received: plus(before.result@.labels_received, changed),
                differences: plus(before.result@.differences, changed),
                ..before.result@
            };
            match next_cursor {
                None => {
                    &&& same_pass(before, after)
                    &&& after.result@ == result
                    &&& after.phase is OwnLabels
                    &&& after.phase->OwnLabels_table@ == table
                    &&& action is ReadLabels
                },
                Some(next) => if crate::text::text_less(cursor, next@) && table.len()
                    <= crate::reconciliation::MAX_LABELS {
                    &&& same_pass(before, after)
                    &&& after.result@ == result
                    &&& after.phase is RemoteLabels
                    &&& after.phase->RemoteLabels_table@ == table
                    &&& after.phase->RemoteLabels_cursor@ == next@
                    &&& action is Ask && action->request is ScanLabels
                    &&& action->request->ScanLabels_cursor@ == next@
                } else {
                    breaks_off(before, result, after, action, "invalid clipboard labels cursor"@)
                },
            }
        },
    }
}

/// True when the labels of this device lead on.
pub open spec fn steps_own_labels(
    before: Reconciler,
    after: Reconciler,
    action: ReconcilerAction,
    table: Map<Seq<char>, LabelVersion>,
    outcome: Result<Vec<domain::ClipboardLabel>, String>,
) -> bool {
    match outcome {
        Err(error) => breaks_off(before, before.result@, after, action, error@),
        Ok(labels) => {
            &&& same_pass(before, after)
            &&& after.result@ == before.result@
            &&& sends_labels(
                after,
                action,
                crate::reconciliation::batches(
                    crate::reconciliation::missing_labels(labels@, table),
                ),
            )
        },
    }
}

/// True when the receipt for labels leads on.
pub open spec fn steps_receipt(
    before: Reconciler,
    after: Reconciler,
    action: ReconcilerAction,
    waiting: Seq<Seq<proto::ClipboardLabel>>,
    offered: usize,
    outcome: Result<ReplicaResponse, String>,
) -> bool {
    match outcome {
        Err(error) => breaks_off(before, before.result@, after, action, error@),
        Ok(ReplicaResponse::Changed(changed)) => {
            &&& same_pass(before, after)
            &&& after.result@ == (ResultView {
                labels_sent: plus(before.result@.labels_sent, changed as usize),
                differences: plus(before.result@.differences, offered),
                ..before.result@
            })
            &&& sends_labels(after, action, waiting)
        },
        Ok(_) => breaks_off(
            before,
            before.result@,
            after,
            action,
            "invalid clipboard label receipt"@,
        ),
    }
}

/// True when a page of the history of this device, of which `known` was known,
/// leads on.
pub open spec fn steps_first_page(
    before: Reconciler,
    after: Reconciler,
    action: ReconcilerAction,
    known: Seq<domain::ClipboardReplicaRecord>,
    outcome: Result<LocalPage, String>,
) -> bool {
    match outcome {
        Err(error) => breaks_off(before, before.result@, after, action, error@),
        Ok(page) => {
            let local = with_records(known, page.records@);
            if local.len() > MAX_MANIFEST_RECORDS {
                breaks_off(
                    before,
                    before.result@,
                    after,
                    action,
                    "clipboard manifest exceeds safety limit"@,
                )
            } else {
                &&& same_pass(before, after)
                &&& after.result@ == before.result@
                &&& match page.next_cursor {
                    Some(cursor) => {
                        &&& after.phase is FirstManifest
                        &&& after.phase->FirstManifest_local@ == local
                        &&& reads_page(action, Some(cursor))
                    },
                    None => asks_page(after, action, local, Seq::empty(), None),
                }
            }
        },
    }
}

/// True when a page of the history of this device, read for the second time,
/// leads on.
pub open spec fn steps_second_page(
    before: Reconciler,
    after: Reconciler,
    action: ReconcilerAction,
    remote: Seq<domain::ClipboardReplicaRecord>,
    known: Seq<domain::ClipboardReplicaRecord>,
    outcome: Result<LocalPage, String>,
) -> bool {
    match outcome {
        Err(error) => breaks_off(before, before.result@, after, action, error@),
        Ok(page) => {
            let local = with_records(known, page.records@);
            if local.len() > MAX_MANIFEST_RECORDS {
                breaks_off(
                    before,
                    before.result@,
                    after,
                    action,
                    "clipboard manifest exceeds safety limit"@,
                )
            } else {
                &&& same_pass(before, after)
                &&& match page.next_cursor {
                    Some(cursor) => {
                        &&& after.result@ == before.result@
                        &&& after.phase is SecondManifest
                        &&& after.phase->SecondManifest_remote@ == remote
                        &&& after.phase->SecondManifest_local@ == local
                        &&& reads_page(action, Some(cursor))
                    },
                    None => {
                        &&& after.result@ == (ResultView {
                            total_records: crate::replication::count_present(local) as usize,
                            ..before.result@
                        })
                        &&& after.phase is Comparing
                        &&& after.phase->Comparing_remote@ == remote
                        &&& after.phase->Comparing_local@ == local
                        &&& crate::replication::newest_first(after.phase->Comparing_order@, local)
                        &&& after.phase->Comparing_place == 0
                        &&& action is GoOn
                    },
                }
            }
        },
    }
}

/// True when an answer with a page of the history of the other device leads on.
pub open spec fn steps_remote_page(
    before: Reconciler,
    after: Reconciler,
    action: ReconcilerAction,
    local: Seq<domain::ClipboardReplicaRecord>,
    remote: Seq<domain::ClipboardReplicaRecord>,
    cursor: Option<proto::ClipboardReplicaCursor>,
    outcome: Result<ReplicaResponse, String>,
) -> bool {
    match outcome {
        Err(error) => breaks_off(before, before.result@, after, action, error@),
        Ok(ReplicaResponse::Page(page)) => {
            &&& same_pass(before, after)
            &&& after.result@ == before.result@
            &&& goes_through(after, local, remote, cursor, page.records@, page.next_cursor)
            &&& action is GoOn
        },
        Ok(_) => breaks_off(
            before,
            before.result@,
            after,
            action,
            "invalid clipboard manifest response"@,
        ),
    }
}

/// True when the next entry of a page that came at `now` is compared, or, if
/// there is none left, the next page is asked for or the history of this device
/// is read once more.
pub open spec fn steps_header(
    before: Reconciler,
    after: Reconciler,
    action: ReconcilerAction,
    local: Seq<domain::ClipboardReplicaRecord>,
    remote: Seq<domain::ClipboardReplicaRecord>,
    cursor: Option<proto::ClipboardReplicaCursor>,
    headers: Seq<proto::ClipboardReplicaRecord>,
    next_cursor: Option<proto::ClipboardReplicaCursor>,
    now: i64,
) -> bool {
    if headers.len() == 0 {
        match next_cursor {
            None => {
                &&& same_pass(before, after)
                &&& after.result@ == before.result@
                &&& after.phase is SecondManifest
                &&& after.phase->SecondManifest_remote@ == remote
                &&& after.phase->SecondManifest_local@.len() == 0
                &&& reads_page(action, None)
            },
            Some(next) => if cursor is None || crate::reconciliation::goes_on(cursor->0, next) {
                &&& same_pass(before, after)
                &&& after.result@ == before.result@
                &&& asks_page(after, action, local, remote, Some(next))
            } else {
                breaks_off(
                    before,
                    before.result@,
                    after,
                    action,
                    "invalid clipboard manifest cursor"@,
                )
            },
        }
    } else {
        &&& same_pass(before, after)
        &&& exists|step: RemoteStep, result: ResultView|
            {
                &&& #[trigger] crate::reconciliation::compares_remote(
                    step,
                    before.result@,
                    result,
                    local,
                    headers[0],
                    now,
                )
                &&& match step {
                    RemoteStep::Skip => {
                        &&& after.result@ == result
                        &&& goes_through(
                            after,
                            local,
                            remote,
                            cursor,
                            headers.skip(1),
                            next_cursor,
                        )
                        &&& action is GoOn
                    },
                    RemoteStep::Keep { record } => adds_remote(
                        before,
                        result,
                        after,
                        action,
                        local,
                        remote,
                        record,
                        cursor,
                        headers.skip(1),
                        next_cursor,
                    ),
                    RemoteStep::Take { record, fetch } => {
                        &&& after.result@ == result
                        &&& after.phase is Taking
                        &&& after.phase->Taking_local@ == local
                        &&& after.phase->Taking_remote@ == remote
                        &&& after.phase->Taking_cursor == cursor
                        &&& after.phase->Taking_headers@ == headers.skip(1)
                        &&& after.phase->Taking_next_cursor == next_cursor
                        &&& after.phase->record == record
                        &&& action == (ReconcilerAction::Take { fetch })
                    },
                }
            }
    }
}

/// The result after an entry was taken or could not be.
pub open spec fn after_taken(
    result: ResultView,
    sync_id: Seq<char>,
    outcome: Result<bool, String>,
) -> ResultView {
    match outcome {
        Ok(true) => ResultView { received: plus(result.received, 1), ..result },
        Ok(false) => result,
        Err(error) => with_failure(result, sync_id, error@),
    }
}

/// The result after an entry was given or could not be.
pub open spec fn after_given(
    result: ResultView,
    sync_id: Seq<char>,
    outcome: Result<bool, String>,
) -> ResultView {
    match outcome {
        Ok(true) => ResultView { sent: plus(result.sent, 1), ..result },
        Ok(false) => result,
        Err(error) => with_failure(result, sync_id, error@),
    }
}

/// True when an entry that was taken leads on.
pub open spec fn steps_taken(
    before: Reconciler,
    after: Reconciler,
    action: ReconcilerAction,
    local: Seq<domain::ClipboardReplicaRecord>,
    remote: Seq<domain::ClipboardReplicaRecord>,
    record: domain::ClipboardReplicaRecord,
    cursor: Option<proto::ClipboardReplicaCursor>,
    headers: Seq<proto::ClipboardReplicaRecord>,
    next_cursor: Option<proto::ClipboardReplicaCursor>,
    outcome: Result<bool, String>,
) -> bool {
    adds_remote(
        before,
        after_taken(before.result@, record.record.sync_id@, outcome),
        after,
        action,
        local,
        remote,
        record,
        cursor,
        headers,
        next_cursor,
    )
}

/// True when the entries of this device are gone through from a place on.
pub open spec fn compares_from(
    after: Reconciler,
    remote: Seq<domain::ClipboardReplicaRecord>,
    local: Seq<domain::ClipboardReplicaRecord>,
    order: Seq<usize>,
    place: int,
) -> bool {
    &&& after.phase is Comparing
    &&& after.phase->Comparing_remote@ == remote
    &&& after.phase->Comparing_local@ == local
    &&& after.phase->Comparing_order@ == order
    &&& after.phase->Comparing_place == place
}

/// True when the next entry of this device is compared, or, if there is none
/// left, the comparison ends: with failures the reconciliation is over, without
/// any the revisions are read again.
pub open spec fn steps_compare(
    before: Reconciler,
    after: Reconciler,
    action: ReconcilerAction,
    remote: Seq<domain::ClipboardReplicaRecord>,
    local: Seq<domain::ClipboardReplicaRecord>,
    order: Seq<usize>,
    place: usize,
) -> bool {
    &&& same_pass(before, after)
    &&& if place >= order.len() {
        &&& after.result@ == before.result@
        &&& if before.result@.failed > 0 {
            after.phase is Over && action is Finish
        } else {
            after.phase is LocalRevisionAfter && action is ReadRevision
        }
    } else {
        exists|r: Option<bool>|
            {
                &&& #[trigger] crate::reconciliation::compares_local(
                    r,
                    before.result@,
                    after.result@,
                    remote,
                    local[order[place as int] as int],
                )
                &&& match r {
                    None => {
                        &&& compares_from(after, remote, local, order, place + 1)
                        &&& action is GoOn
                    },
                    Some(include_payload) => {
                        &&& after.phase is Giving
                        &&& after.phase->Giving_remote@ == remote
                        &&& after.phase->Giving_local@ == local
                        &&& after.phase->Giving_order@ == order
                        &&& after.phase->Giving_place == place
                        &&& action == (ReconcilerAction::Give { include_payload })
                    },
                }
            }
    }
}

/// True when an entry that was given leads on.
pub open spec fn steps_given(
    before: Reconciler,
    after: Reconciler,
    action: ReconcilerAction,
    remote: Seq<domain::ClipboardReplicaRecord>,
    local: Seq<domain::ClipboardReplicaRecord>,
    order: Seq<usize>,
    place: usize,
    outcome: Result<bool, String>,
) -> bool {
    let record = local[order[place as int] as int];
    &&& same_pass(before, after)
    &&& after.result@ == after_given(before.result@, record.record.sync_id@, outcome)
    &&& compares_from(after, remote, local, order, place + 1)
    &&& action is GoOn
}

/// True when a comparison without failures is closed: it settles the matter if
/// it found no difference and neither device changed meanwhile. If it does not,
/// the devices are compared once more, but not too often.
pub open spec fn steps_close(
    before: Reconciler,
    after: Reconciler,
    action: ReconcilerAction,
    local: u64,
    outcome: Result<ReplicaResponse, String>,
) -> bool {
    match outcome {
        Err(error) => breaks_off(before, before.result@, after, action, error@),
        Ok(ReplicaResponse::Revision(remote)) => {
            let start = before.start;
            let settled = start.differences == before.result.differences && start.local == local
                && start.remote == remote;
            &&& after.passes == before.passes + 1
            &&& after.start == before.start
            &&& after.result@ == if settled {
                ResultView {
                    converged: true,
                    local_revision: local,
                    remote_revision: remote,
                    ..before.result@
                }
            } else {
                before.result@
            }
            &&& if !settled && after.passes < MAX_PASSES {
                after.phase is LocalRevision && action is ReadRevision
            } else {
                after.phase is Over && action is Finish
            }
        },
        Ok(_) => breaks_off(
            before,
            before.result@,
            after,
            action,
            "invalid clipboard revision response"@,
        ),
    }
}

/// What a comparison has looked at after an event: the labels of the other device
/// when all have come, those of this device, the history of this device when its
/// last page has come, that of the other device when its last page was gone
/// through, and then again that of this device.
pub open spec fn sees(before: Reconciler, event: ReconcilerEvent) -> Seen {
    let seen = before.seen@;
    match (before.phase, event) {
        (
            Phase::KeepingLabels { table, next_cursor: None, .. },
            ReconcilerEvent::LabelsKept { outcome: Ok(_) },
        ) => Seen { their_labels: table@, ..seen },
        (Phase::OwnLabels { .. }, ReconcilerEvent::Labels { outcome: Ok(labels) }) => Seen {
            own_labels: labels@,
            ..seen
        },
        (Phase::FirstManifest { local }, ReconcilerEvent::Page { outcome: Ok(page) }) => {
            let all = with_records(local@, page.records@);
            if page.next_cursor is None && all.len() <= MAX_MANIFEST_RECORDS {
                Seen { first: all, ..seen }
            } else {
                seen
            }
        },
        (
            Phase::Headers { remote, headers, next_cursor: None, .. },
            ReconcilerEvent::GoOn,
        ) => if headers@.len() == 0 {
            Seen { theirs: remote@, ..seen }
        } else {
            seen
        },
        (Phase::SecondManifest { local, .. }, ReconcilerEvent::Page { outcome: Ok(page) }) => {
            let all = with_records(local@, page.records@);
            if page.next_cursor is None && all.len() <= MAX_MANIFEST_RECORDS {
                Seen { last: all, ..seen }
            } else {
                seen
            }
        },
        _ => seen,
    }
}

/// True when an event that came at `now` leads from one state to another one and
/// to an action.
pub open spec fn steps(
    before: Reconciler,
    event: ReconcilerEvent,
    now: i64,
    after: Reconciler,
    action: ReconcilerAction,
) -> bool {
    &&& after.seen@ == sees(before, event)
    &&& match before.phase {
        Phase::LocalRevision => match event->Revision_outcome {
            Err(error) => breaks_off(before, before.result@, after, action, error@),
            Ok(local) => {
                &&& same_pass(before, after)
                &&& after.result@ == before.result@
                &&& after.phase == (Phase::RemoteRevision { local })
                &&& action == (ReconcilerAction::Ask { request: ReplicaRequest::Revision })
            },
        },
        Phase::RemoteRevision { local } => steps_revision(
            before,
            after,
            action,
            local,
            event->Answer_outcome,
        ),
        Phase::RemoteLabels { table, cursor } => steps_labels(
            before,
            after,
            action,
            table@,
            cursor@,
            event->Answer_outcome,
        ),
        Phase::KeepingLabels { table, cursor, next_cursor } => steps_kept(
            before,
            after,
            action,
            table@,
            cursor@,
            next_cursor,
            event->LabelsKept_outcome,
        ),
        Phase::OwnLabels { table } => steps_own_labels(
            before,
            after,
            action,
            table@,
            event->Labels_outcome,
        ),
        Phase::SendingLabels { waiting, offered } => steps_receipt(
            before,
            after,
            action,
            crate::reconciliation::batch_views(waiting@),
            offered,
            event->Answer_outcome,
        ),
        Phase::FirstManifest { local } => steps_first_page(
            before,
            after,
            action,
            local@,
            event->Page_outcome,
        ),
        Phase::RemotePage { local, remote, cursor } => steps_remote_page(
            before,
            after,
            action,
            local@,
            remote@,
            cursor,
            event->Answer_outcome,
        ),
        Phase::Headers { local, remote, cursor, headers, next_cursor } => steps_header(
            before,
            after,
            action,
            local@,
            remote@,
            cursor,
            headers@,
            next_cursor,
            now,
        ),
        Phase::Taking { local, remote, cursor, headers, next_cursor, record } => steps_taken(
            before,
            after,
            action,
            local@,
            remote@,
            record,
            cursor,
            headers@,
            next_cursor,
            event->Moved_outcome,
        ),
        Phase::SecondManifest { remote, local } => steps_second_page(
            before,
            after,
            action,
            remote@,
            local@,
            event->Page_outcome,
        ),
        Phase::Comparing { remote, local, order, place } => steps_compare(
            before,
            after,
            action,
            remote@,
            local@,
            order@,
            place,
        ),
        Phase::Giving { remote, local, order, place } => steps_given(
            before,
            after,
            action,
            remote@,
            local@,
            order@,
            place,
            event->Moved_outcome,
        ),
        Phase::LocalRevisionAfter => match event->Revision_outcome {
            Err(error) => breaks_off(before, before.result@, after, action, error@),
            Ok(local) => {
                &&& same_pass(before, after)
                &&& after.result@ == before.result@
                &&& after.phase == (Phase::RemoteRevisionAfter { local })
                &&& action == (ReconcilerAction::Ask { request: ReplicaRequest::Revision })
            },
        },
        Phase::RemoteRevisionAfter { local } => steps_close(
            before,
            after,
            action,
            local,
            event->Answer_outcome,
        ),
        Phase::Over => false,
    }
}

/// What holds within a comparison.
spec fn within_pass(base: Reconciler) -> bool {
    &&& base.passes < MAX_PASSES
    &&& !base.result.converged
    &&& base.start.differences <= base.result.differences
}

fn break_off(base: Reconciler, error: &str) -> (r: (Reconciler, ReconcilerAction))
    requires
        base.passes < MAX_PASSES,
        !base.result.converged,
    ensures
        r.0.wf(),
        r.0.wants(r.1),
        r.0.seen@ == base.seen@,
        breaks_off(base, base.result@, r.0, r.1, error@),
{
    let Reconciler { result, passes, start, phase: _, seen } = base;
    let mut result = result;
    let ghost before = result@;
    result.failure("connection", error);
    assert(result.converged == before.converged) by {
        assert(result@.converged == before.converged);
    }
    (Reconciler { result, passes, start, phase: Phase::Over, seen }, ReconcilerAction::Finish)
}

fn revision_came(base: Reconciler, local: u64, outcome: Result<ReplicaResponse, String>) -> (r: (
    Reconciler,
    ReconcilerAction,
))
    requires
        base.passes < MAX_PASSES,
        !base.result.converged,
    ensures
        r.0.wf(),
        r.0.wants(r.1),
        r.0.seen@ == base.seen@,
        steps_revision(base, r.0, r.1, local, outcome),
{
    let body = match outcome {
        Err(error) => {
            return break_off(base, error.as_str());
        },
        Ok(body) => body,
    };
    match expect_revision(body) {
        Err(fault) => break_off(base, fault),
        Ok(remote) => {
            let start = PassStart { local, remote, differences: base.result.differences };
            let phase = Phase::RemoteLabels { table: LabelTable::new(), cursor: String::new() };
            let request = ReplicaRequest::ScanLabels { cursor: String::new() };
            (
                Reconciler {
                    result: base.result,
                    passes: base.passes,
                    start,
                    phase,
                    seen: base.seen,
                },
                ReconcilerAction::Ask { request },
            )
        },
    }
}

fn note_labels(table: &mut LabelTable, labels: &Vec<domain::ClipboardLabel>)
    ensures
        final(table)@ == with_labels(old(table)@, labels@),
{
    let mut i: usize = 0;
    while i < labels.len()
        invariant
            i <= labels@.len(),
            table@ == with_labels(old(table)@, labels@.take(i as int)),
        decreases labels@.len() - i,
    {
        proof {
            assert(labels@.take(i as int + 1).drop_last() =~= labels@.take(i as int));
            assert(labels@.take(i as int + 1).last() == labels@[i as int]);
        }
        table.insert(&labels[i]);
        i += 1;
    }
    assert(labels@.take(i as int) =~= labels@);
}

fn labels_came(
    base: Reconciler,
    table: LabelTable,
    cursor: String,
    outcome: Result<ReplicaResponse, String>,
) -> (r: (Reconciler, ReconcilerAction))
    requires
        within_pass(base),
    ensures
        r.0.wf(),
        r.0.wants(r.1),
        r.0.seen@ == base.seen@,
        steps_labels(base, r.0, r.1, table@, cursor@, outcome),
{
    let body = match outcome {
        Err(error) => {
            return break_off(base, error.as_str());
        },
        Ok(body) => body,
    };
    match expect_labels(body) {
        Err(fault) => break_off(base, fault),
        Ok(page) => {
            let mut table = table;
            note_labels(&mut table, &page.labels);
            let phase = Phase::KeepingLabels { table, cursor, next_cursor: page.next_cursor };
            (
                Reconciler {
                    result: base.result,
                    passes: base.passes,
                    start: base.start,
                    phase,
                    seen: base.seen,
                },
                ReconcilerAction::KeepLabels { labels: page.labels },
            )
        },
    }
}

fn labels_kept(
    base: Reconciler,
    table: LabelTable,
    cursor: String,
    next_cursor: Option<String>,
    outcome: Result<usize, String>,
) -> (r: (Reconciler, ReconcilerAction))
    requires
        within_pass(base),
    ensures
        r.0.wf(),
        r.0.wants(r.1),
        r.0.seen@ == if outcome is Ok && next_cursor is None {
            (Seen { their_labels: table@, ..base.seen@ })
        } else {
            base.seen@
        },
        steps_kept(base, r.0, r.1, table@, cursor@, next_cursor, outcome),
{
    let changed: usize = match outcome {
        Err(error) => {
            return break_off(base, error.as_str());
        },
        Ok(changed) => changed,
    };
    let Reconciler { result, passes, start, phase: _, seen } = base;
    let mut result = result;
    let ghost before = result@;
    result.labels_taken(changed);
    assert(result.differences == result@.differences && result.converged == result@.converged);
    match next_cursor {
        None => {
            let ghost seen = Seen { their_labels: table@, ..seen@ };
            (
                Reconciler {
                    result,
                    passes,
                    start,
                    phase: Phase::OwnLabels { table },
                    seen: Ghost(seen),
                },
                ReconcilerAction::ReadLabels,
            )
        },
        Some(next) => match check_label_cursor(next.as_str(), cursor.as_str(), table.len()) {
            Err(fault) => break_off(
                Reconciler { result, passes, start, phase: Phase::Over, seen },
                fault,
            ),
            Ok(()) => {
                let request = ReplicaRequest::ScanLabels { cursor: next.clone() };
                let phase = Phase::RemoteLabels { table, cursor: next };
                (
                    Reconciler { result, passes, start, phase, seen },
                    ReconcilerAction::Ask { request },
                )
            },
        },
    }
}

fn send_labels(base: Reconciler, batches: Vec<Vec<proto::ClipboardLabel>>) -> (r: (
    Reconciler,
    ReconcilerAction,
))
    requires
        within_pass(base),
        forall|i: int| 0 <= i < batches@.len() ==> (#[trigger] batches@[i])@.len() > 0,
        batches@.len() == 0 && base.quiet() ==> labels_agree(base.seen@),
    ensures
        r.0.wf(),
        r.0.wants(r.1),
        r.0.seen@ == base.seen@,
        same_pass(base, r.0),
        r.0.result@ == base.result@,
        sends_labels(r.0, r.1, crate::reconciliation::batch_views(batches@)),
{
    let Reconciler { result, passes, start, phase: _, seen } = base;
    if batches.len() == 0 {
        let phase = Phase::FirstManifest { local: Manifest::new() };
        return (
            Reconciler { result, passes, start, phase, seen },
            ReconcilerAction::ReadPage { cursor: None, limit: PAGE_LIMIT },
        );
    }
    let ghost all = batches@;
    let mut waiting = batches;
    let labels = waiting.remove(0);
    proof {
        assert(waiting@ =~= all.skip(1));
        assert(crate::reconciliation::batch_views(waiting@)
            =~= crate::reconciliation::batch_views(all).skip(1));
        assert(all[0]@.len() > 0);
        assert forall|i: int| 0 <= i < waiting@.len() implies (#[trigger] waiting@[i])@.len()
            > 0 by {
            assert(waiting@[i] == all[i + 1]);
        }
    }
    let phase = Phase::SendingLabels { waiting, offered: labels.len() };
    let request = ReplicaRequest::StoreLabels { labels };
    (Reconciler { result, passes, start, phase, seen }, ReconcilerAction::Ask { request })
}

fn own_labels_came(
    base: Reconciler,
    table: LabelTable,
    outcome: Result<Vec<domain::ClipboardLabel>, String>,
) -> (r: (Reconciler, ReconcilerAction))
    requires
        within_pass(base),
        table@ == base.seen@.their_labels,
    ensures
        r.0.wf(),
        r.0.wants(r.1),
        r.0.seen@ == if outcome is Ok {
            (Seen { own_labels: outcome->Ok_0@, ..base.seen@ })
        } else {
            base.seen@
        },
        steps_own_labels(base, r.0, r.1, table@, outcome),
{
    let labels = match outcome {
        Err(error) => {
            return break_off(base, error.as_str());
        },
        Ok(labels) => labels,
    };
    let ghost own = labels@;
    let lacking = labels_to_send(labels, &table);
    let ghost missing = lacking@;
    let batches = label_batches(lacking);
    proof {
        crate::reconciliation::lemma_batches(missing);
        assert forall|i: int| 0 <= i < batches@.len() implies (#[trigger] batches@[i])@.len()
            > 0 by {
            assert(crate::reconciliation::batch_views(batches@)[i] == batches@[i]@);
            assert(crate::reconciliation::batches(missing)[i].len() > 0);
        }
        if missing.len() > 0 {
            assert(crate::reconciliation::batches(missing).len() > 0);
        }
    }
    let Reconciler { result, passes, start, phase: _, seen } = base;
    let ghost seen = Seen { own_labels: own, ..seen@ };
    send_labels(
        Reconciler { result, passes, start, phase: Phase::Over, seen: Ghost(seen) },
        batches,
    )
}

fn receipt_came(
    base: Reconciler,
    waiting: Vec<Vec<proto::ClipboardLabel>>,
    offered: usize,
    outcome: Result<ReplicaResponse, String>,
) -> (r: (Reconciler, ReconcilerAction))
    requires
        within_pass(base),
        offered > 0,
        forall|i: int| 0 <= i < waiting@.len() ==> (#[trigger] waiting@[i])@.len() > 0,
    ensures
        r.0.wf(),
        r.0.wants(r.1),
        r.0.seen@ == base.seen@,
        steps_receipt(
            base,
            r.0,
            r.1,
            crate::reconciliation::batch_views(waiting@),
            offered,
            outcome,
        ),
{
    let body = match outcome {
        Err(error) => {
            return break_off(base, error.as_str());
        },
        Ok(body) => body,
    };
    match expect_label_receipt(body) {
        Err(fault) => break_off(base, fault),
        Ok(changed) => {
            let Reconciler { result, passes, start, phase: _, seen } = base;
            let mut result = result;
            result.labels_given(changed, offered);
            assert(result.differences == result@.differences && result.converged
                == result@.converged);
            send_labels(Reconciler { result, passes, start, phase: Phase::Over, seen }, waiting)
        },
    }
}

fn note_page(manifest: &mut Manifest, records: Vec<domain::ClipboardReplicaRecord>) -> (r: Result<
    (),
    &'static str,
>)
    requires
        old(manifest).wf(),
    ensures
        final(manifest).wf(),
        final(manifest)@ == with_records(old(manifest)@, records@),
        if final(manifest)@.len() > MAX_MANIFEST_RECORDS {
            r is Err && r->Err_0@ == "clipboard manifest exceeds safety limit"@
        } else {
            r is Ok
        },
{
    let ghost all = records@;
    let ghost known = manifest@;
    for record in it: records.into_iter()
        invariant
            it.seq() == all,
            all == records@,
            manifest.wf(),
            manifest@ == with_records(known, all.take(it.index())),
    {
        let ghost n = it.index() as int;
        proof {
            assert(all.take(n + 1).drop_last() =~= all.take(n));
            assert(all.take(n + 1).last() == all[n]);
        }
        manifest.insert(record);
    }
    assert(all.take(all.len() as int) =~= all);
    if manifest.len() > MAX_MANIFEST_RECORDS {
        return Err("clipboard manifest exceeds safety limit");
    }
    Ok(())
}

fn first_page_came(base: Reconciler, local: Manifest, outcome: Result<LocalPage, String>) -> (r: (
    Reconciler,
    ReconcilerAction,
))
    requires
        within_pass(base),
        local.wf(),
        base.quiet() ==> labels_agree(base.seen@),
    ensures
        r.0.wf(),
        r.0.wants(r.1),
        r.0.seen@ == if outcome is Ok && outcome->Ok_0.next_cursor is None && with_records(
            local@,
            outcome->Ok_0.records@,
        ).len() <= MAX_MANIFEST_RECORDS {
            (Seen { first: with_records(local@, outcome->Ok_0.records@), ..base.seen@ })
        } else {
            base.seen@
        },
        steps_first_page(base, r.0, r.1, local@, outcome),
{
    let page = match outcome {
        Err(error) => {
            return break_off(base, error.as_str());
        },
        Ok(page) => page,
    };
    let mut local = local;
    if let Err(fault) = note_page(&mut local, page.records) {
        return break_off(base, fault);
    }
    let Reconciler { result, passes, start, phase: _, seen } = base;
    match page.next_cursor {
        Some(cursor) => (
            Reconciler { result, passes, start, phase: Phase::FirstManifest { local }, seen },
            ReconcilerAction::ReadPage { cursor: Some(cursor), limit: PAGE_LIMIT },
        ),
        None => {
            let ghost seen = Seen { first: local@, ..seen@ };
            let phase = Phase::RemotePage { local, remote: Manifest::new(), cursor: None };
            let request = ReplicaRequest::Scan { cursor: None, limit: PAGE_LIMIT as u32 };
            (
                Reconciler { result, passes, start, phase, seen: Ghost(seen) },
                ReconcilerAction::Ask { request },
            )
        },
    }
}

fn second_page_came(
    base: Reconciler,
    remote: Manifest,
    local: Manifest,
    outcome: Result<LocalPage, String>,
) -> (r: (Reconciler, ReconcilerAction))
    requires
        within_pass(base),
        remote.wf(),
        local.wf(),
        remote@ == base.seen@.theirs,
        base.quiet() ==> labels_agree(base.seen@) && has_every(base.seen@.first, base.seen@.theirs),
    ensures
        r.0.wf(),
        r.0.wants(r.1),
        r.0.seen@ == if outcome is Ok && outcome->Ok_0.next_cursor is None && with_records(
            local@,
            outcome->Ok_0.records@,
        ).len() <= MAX_MANIFEST_RECORDS {
            (Seen { last: with_records(local@, outcome->Ok_0.records@), ..base.seen@ })
        } else {
            base.seen@
        },
        steps_second_page(base, r.0, r.1, remote@, local@, outcome),
{
    let page = match outcome {
        Err(error) => {
            return break_off(base, error.as_str());
        },
        Ok(page) => page,
    };
    let mut local = local;
    if let Err(fault) = note_page(&mut local, page.records) {
        return break_off(base, fault);
    }
    let Reconciler { result, passes, start, phase: _, seen } = base;
    match page.next_cursor {
        Some(cursor) => (
            Reconciler {
                result,
                passes,
                start,
                phase: Phase::SecondManifest { remote, local },
                seen,
            },
            ReconcilerAction::ReadPage { cursor: Some(cursor), limit: PAGE_LIMIT },
        ),
        None => {
            let mut result = result;
            result.count_records(&local);
            assert(result.differences == result@.differences && result.converged
                == result@.converged);
            let order = local.newest_first();
            let ghost seen = Seen { last: local@, ..seen@ };
            let phase = Phase::Comparing { remote, local, order, place: 0 };
            (
                Reconciler { result, passes, start, phase, seen: Ghost(seen) },
                ReconcilerAction::GoOn,
            )
        },
    }
}

fn remote_page_came(
    base: Reconciler,
    local: Manifest,
    remote: Manifest,
    cursor: Option<proto::ClipboardReplicaCursor>,
    outcome: Result<ReplicaResponse, String>,
) -> (r: (Reconciler, ReconcilerAction))
    requires
        within_pass(base),
        local.wf(),
        remote.wf(),
        local@ == base.seen@.first,
        base.quiet() ==> labels_agree(base.seen@) && has_every(local@, remote@),
    ensures
        r.0.wf(),
        r.0.wants(r.1),
        r.0.seen@ == base.seen@,
        steps_remote_page(base, r.0, r.1, local@, remote@, cursor, outcome),
{
    let body = match outcome {
        Err(error) => {
            return break_off(base, error.as_str());
        },
        Ok(body) => body,
    };
    match expect_page(body) {
        Err(fault) => break_off(base, fault),
        Ok(page) => {
            let Reconciler { result, passes, start, phase: _, seen } = base;
            let phase = Phase::Headers {
                local,
                remote,
                cursor,
                headers: page.records,
                next_cursor: page.next_cursor,
            };
            (Reconciler { result, passes, start, phase, seen }, ReconcilerAction::GoOn)
        },
    }
}

fn copy_cursor(cursor: &proto::ClipboardReplicaCursor) -> (r: proto::ClipboardReplicaCursor)
    ensures
        r == *cursor,
{
    proto::ClipboardReplicaCursor {
        captured_at_ms: cursor.captured_at_ms,
        sync_id: cursor.sync_id.clone(),
    }
}

/// What a device has of entries is not changed by one more of which it has all.
proof fn lemma_has_every_with(
    own: Seq<domain::ClipboardReplicaRecord>,
    others: Seq<domain::ClipboardReplicaRecord>,
    record: domain::ClipboardReplicaRecord,
)
    requires
        has_every(own, others),
        has_all(own, record),
    ensures
        has_every(own, crate::replication::with_record(others, record)),
{
    let more = crate::replication::with_record(others, record);
    assert forall|i: int| 0 <= i < more.len() implies has_all(own, #[trigger] more[i]) by {
        if i < others.len() && more[i] == others[i] {
            assert(has_all(own, others[i]));
        } else {
            assert(more[i] == record);
        }
    }
}

#[verifier::spinoff_prover]
fn add_remote(
    base: Reconciler,
    local: Manifest,
    remote: Manifest,
    record: domain::ClipboardReplicaRecord,
    cursor: Option<proto::ClipboardReplicaCursor>,
    headers: Vec<proto::ClipboardReplicaRecord>,
    next_cursor: Option<proto::ClipboardReplicaCursor>,
) -> (r: (Reconciler, ReconcilerAction))
    requires
        within_pass(base),
        local.wf(),
        remote.wf(),
        local@ == base.seen@.first,
        base.quiet() ==> labels_agree(base.seen@) && has_every(local@, remote@) && has_all(
            local@,
            record,
        ),
    ensures
        r.0.wf(),
        r.0.wants(r.1),
        r.0.seen@ == base.seen@,
        adds_remote(
            base,
            base.result@,
            r.0,
            r.1,
            local@,
            remote@,
            record,
            cursor,
            headers@,
            next_cursor,
        ),
{
    let ghost known = remote@;
    let mut remote = remote;
    if let Err(fault) = remember(&mut remote, record) {
        return break_off(base, fault);
    }
    let Reconciler { result, passes, start, phase: _, seen } = base;
    proof {
        if base.quiet() {
            lemma_has_every_with(local@, known, record);
        }
    }
    let phase = Phase::Headers { local, remote, cursor, headers, next_cursor };
    (Reconciler { result, passes, start, phase, seen }, ReconcilerAction::GoOn)
}

#[verifier::spinoff_prover]
fn compare_header(
    base: Reconciler,
    local: Manifest,
    remote: Manifest,
    cursor: Option<proto::ClipboardReplicaCursor>,
    headers: Vec<proto::ClipboardReplicaRecord>,
    next_cursor: Option<proto::ClipboardReplicaCursor>,
    no_syntax: Option<String>,
    now: i64,
) -> (r: (Reconciler, ReconcilerAction))
    requires
        within_pass(base),
        local.wf(),
        remote.wf(),
        local@ == base.seen@.first,
        base.quiet() ==> labels_agree(base.seen@) && has_every(local@, remote@),
    ensures
        r.0.wf(),
        r.0.wants(r.1),
        r.0.seen@ == if headers@.len() == 0 && next_cursor is None {
            (Seen { theirs: remote@, ..base.seen@ })
        } else {
            base.seen@
        },
        steps_header(
            base,
            r.0,
            r.1,
            local@,
            remote@,
            cursor,
            headers@,
            next_cursor,
            now,
        ),
{
    let Reconciler { result, passes, start, phase: _, seen } = base;
    if headers.len() == 0 {
        return match next_cursor {
            None => {
                let ghost seen = Seen { theirs: remote@, ..seen@ };
                let phase = Phase::SecondManifest { remote, local: Manifest::new() };
                (
                    Reconciler { result, passes, start, phase, seen: Ghost(seen) },
                    ReconcilerAction::ReadPage { cursor: None, limit: PAGE_LIMIT },
                )
            },
            Some(next) => match check_manifest_cursor(&cursor, &next) {
                Err(fault) => break_off(
                    Reconciler { result, passes, start, phase: Phase::Over, seen },
                    fault,
                ),
                Ok(()) => {
                    let request = ReplicaRequest::Scan {
                        cursor: Some(copy_cursor(&next)),
                        limit: PAGE_LIMIT as u32,
                    };
                    let phase = Phase::RemotePage { local, remote, cursor: Some(next) };
                    (
                        Reconciler { result, passes, start, phase, seen },
                        ReconcilerAction::Ask { request },
                    )
                },
            },
        };
    }
    let ghost all = headers@;
    let mut headers = headers;
    let header = headers.remove(0);
    assert(headers@ =~= all.skip(1));
    assert(header == all[0]);
    let mut result = result;
    let ghost before = result@;
    let step = compare_remote(&mut result, &local, header, no_syntax, now);
    assert(crate::reconciliation::compares_remote(step, before, result@, local@, all[0], now));
    assert(result.differences == result@.differences && result.converged == result@.converged);
    match step {
        RemoteStep::Skip => {
            let phase = Phase::Headers { local, remote, cursor, headers, next_cursor };
            (Reconciler { result, passes, start, phase, seen }, ReconcilerAction::GoOn)
        },
        RemoteStep::Keep { record } => add_remote(
            Reconciler { result, passes, start, phase: Phase::Over, seen },
            local,
            remote,
            record,
            cursor,
            headers,
            next_cursor,
        ),
        RemoteStep::Take { record, fetch } => {
            let phase = Phase::Taking { local, remote, cursor, headers, next_cursor, record };
            (Reconciler { result, passes, start, phase, seen }, ReconcilerAction::Take { fetch })
        },
    }
}

fn record_taken(
    base: Reconciler,
    local: Manifest,
    remote: Manifest,
    record: domain::ClipboardReplicaRecord,
    cursor: Option<proto::ClipboardReplicaCursor>,
    headers: Vec<proto::ClipboardReplicaRecord>,
    next_cursor: Option<proto::ClipboardReplicaCursor>,
    outcome: Result<bool, String>,
) -> (r: (Reconciler, ReconcilerAction))
    requires
        within_pass(base),
        local.wf(),
        remote.wf(),
        local@ == base.seen@.first,
        !base.quiet(),
    ensures
        r.0.wf(),
        r.0.wants(r.1),
        r.0.seen@ == base.seen@,
        steps_taken(
            base,
            r.0,
            r.1,
            local@,
            remote@,
            record,
            cursor,
            headers@,
            next_cursor,
            outcome,
        ),
{
    let Reconciler { result, passes, start, phase: _, seen } = base;
    let mut result = result;
    result.record_taken(record.record.sync_id.as_str(), outcome);
    assert(result.differences == result@.differences && result.converged == result@.converged);
    add_remote(
        Reconciler { result, passes, start, phase: Phase::Over, seen },
        local,
        remote,
        record,
        cursor,
        headers,
        next_cursor,
    )
}

/// Whoever goes through all places has seen every entry.
proof fn lemma_every_place(order: Seq<usize>, records: Seq<domain::ClipboardReplicaRecord>, i: int)
    requires
        crate::replication::newest_first(order, records),
        0 <= i < records.len(),
    ensures
        exists|k: int| 0 <= k < order.len() && #[trigger] order[k] == i,
{
    let places = Seq::new(order.len(), |k: int| order[k] as int);
    assert(places.no_duplicates()) by {
        assert forall|a: int, b: int| 0 <= a < places.len() && 0 <= b < places.len() && a
            != b implies places[a] != places[b] by {
            if a < b {
                assert(order[a] != order[b]);
            } else {
                assert(order[b] != order[a]);
            }
        }
    }
    places.unique_seq_to_set();
    let all = vstd::set_lib::set_int_range(0, records.len() as int);
    vstd::set_lib::lemma_int_range(0, records.len() as int);
    assert(places.to_set().subset_of(all)) by {
        assert forall|x: int| #[trigger] places.to_set().contains(x) implies all.contains(x) by {
            let k = choose|k: int| 0 <= k < places.len() && places[k] == x;
            assert(order[k] < records.len());
        }
    }
    vstd::set_lib::lemma_subset_equality(places.to_set(), all);
    assert(places.to_set().contains(i));
    let k = choose|k: int| 0 <= k < places.len() && places[k] == i;
    assert(order[k] == i);
}

#[verifier::spinoff_prover]
fn compare_entry(
    base: Reconciler,
    remote: Manifest,
    local: Manifest,
    order: Vec<usize>,
    place: usize,
) -> (r: (Reconciler, ReconcilerAction))
    requires
        within_pass(base),
        remote.wf() && remote@ == base.seen@.theirs,
        local.wf() && local@ == base.seen@.last,
        crate::replication::newest_first(order@, local@),
        place <= order@.len(),
        base.quiet() ==> {
            &&& labels_agree(base.seen@)
            &&& has_every(base.seen@.first, base.seen@.theirs)
            &&& forall|k: int|
                0 <= k < place ==> has_all(remote@, local@[(#[trigger] order@[k]) as int])
        },
    ensures
        r.0.wf(),
        r.0.wants(r.1),
        r.0.seen@ == base.seen@,
        steps_compare(base, r.0, r.1, remote@, local@, order@, place),
{
    let Reconciler { result, passes, start, phase: _, seen } = base;
    if place >= order.len() {
        if result.failed > 0 {
            return (
                Reconciler { result, passes, start, phase: Phase::Over, seen },
                ReconcilerAction::Finish,
            );
        }
        proof {
            if base.quiet() {
                assert forall|i: int| 0 <= i < local@.len() implies has_all(
                    remote@,
                    #[trigger] local@[i],
                ) by {
                    lemma_every_place(order@, local@, i);
                    let k = choose|k: int| 0 <= k < order@.len() && #[trigger] order@[k] == i;
                    assert(has_all(remote@, local@[order@[k] as int]));
                }
            }
        }
        return (
            Reconciler { result, passes, start, phase: Phase::LocalRevisionAfter, seen },
            ReconcilerAction::ReadRevision,
        );
    }
    let mut result = result;
    let ghost before = result@;
    assert(order@[place as int] < local@.len());
    let wanted = compare_local(&mut result, &remote, local.at(order[place]));
    assert(crate::reconciliation::compares_local(
        wanted,
        before,
        result@,
        remote@,
        local@[order@[place as int] as int],
    ));
    assert(result.differences == result@.differences && result.converged == result@.converged);
    match wanted {
        None => {
            let phase = Phase::Comparing { remote, local, order, place: place + 1 };
            (Reconciler { result, passes, start, phase, seen }, ReconcilerAction::GoOn)
        },
        Some(include_payload) => {
            let phase = Phase::Giving { remote, local, order, place };
            (
                Reconciler { result, passes, start, phase, seen },
                ReconcilerAction::Give { include_payload },
            )
        },
    }
}

fn record_given(
    base: Reconciler,
    remote: Manifest,
    local: Manifest,
    order: Vec<usize>,
    place: usize,
    outcome: Result<bool, String>,
) -> (r: (Reconciler, ReconcilerAction))
    requires
        within_pass(base),
        remote.wf() && remote@ == base.seen@.theirs,
        local.wf() && local@ == base.seen@.last,
        crate::replication::newest_first(order@, local@),
        place < order@.len(),
        !base.quiet(),
    ensures
        r.0.wf(),
        r.0.wants(r.1),
        r.0.seen@ == base.seen@,
        steps_given(base, r.0, r.1, remote@, local@, order@, place, outcome),
{
    let Reconciler { result, passes, start, phase: _, seen } = base;
    let mut result = result;
    assert(place < order.len() <= usize::MAX);
    assert(order@[place as int] < local@.len());
    result.record_given(local.at(order[place]).record.sync_id.as_str(), outcome);
    assert(result.differences == result@.differences && result.converged == result@.converged);
    let phase = Phase::Comparing { remote, local, order, place: place + 1 };
    (Reconciler { result, passes, start, phase, seen }, ReconcilerAction::GoOn)
}

fn close(base: Reconciler, local: u64, outcome: Result<ReplicaResponse, String>) -> (r: (
    Reconciler,
    ReconcilerAction,
))
    requires
        within_pass(base),
        base.result.failed == 0,
        base.quiet() ==> agree(base.seen@),
    ensures
        r.0.wf(),
        r.0.wants(r.1),
        r.0.seen@ == base.seen@,
        steps_close(base, r.0, r.1, local, outcome),
{
    let body = match outcome {
        Err(error) => {
            return break_off(base, error.as_str());
        },
        Ok(body) => body,
    };
    match expect_revision(body) {
        Err(fault) => break_off(base, fault),
        Ok(remote) => {
            let Reconciler { result, passes, start, phase: _, seen } = base;
            let mut result = result;
            let ghost before = result@;
            assert(before.failed == 0 && before.differences == result.differences);
            let settled = result.close_pass(&start, local, remote);
            let passes: usize = passes + 1;
            assert(result.differences == result@.differences && result.converged
                == result@.converged && result.failed == result@.failed && result.local_revision
                == result@.local_revision && result.remote_revision == result@.remote_revision);
            if result.another_pass(Ok(settled), passes) {
                assert(result.converged == result@.converged);
                (
                    Reconciler { result, passes, start, phase: Phase::LocalRevision, seen },
                    ReconcilerAction::ReadRevision,
                )
            } else {
                assert(result.differences == result@.differences && result.converged
                    == result@.converged && result.failed == result@.failed
                    && result.local_revision == result@.local_revision && result.remote_revision
                    == result@.remote_revision);
                (
                    Reconciler { result, passes, start, phase: Phase::Over, seen },
                    ReconcilerAction::Finish,
                )
            }
        },
    }
}

impl Reconciler {
    /// The begin of a reconciliation.
    pub fn new() -> (r: (Reconciler, ReconcilerAction))
        ensures
            r.0.wf(),
            r.0.wants(r.1),
            r.0.phase is LocalRevision,
            r.0.passes == 0,
            r.0.seen@ == nothing_seen(),
            r.0.result@ == (ResultView {
                received: 0,
                sent: 0,
                labels_received: 0,
                labels_sent: 0,
                failed: 0,
                total_records: 0,
                converged: false,
                local_revision: 0,
                remote_revision: 0,
                errors: Seq::empty(),
                differences: 0,
            }),
            r.1 is ReadRevision,
    {
        let result = ReconciliationResult::default();
        assert(result.converged == result@.converged);
        (
            Reconciler {
                result,
                passes: 0,
                start: PassStart { local: 0, remote: 0, differences: 0 },
                phase: Phase::LocalRevision,
                seen: Ghost(nothing_seen()),
            },
            ReconcilerAction::ReadRevision,
        )
    }

    /// The entry that is being taken or given, if any.
    pub fn current(&self) -> (r: Option<&domain::ClipboardReplicaRecord>)
        requires
            self.wf(),
        ensures
            match self.phase {
                Phase::Taking { record, .. } => r == Some(&record),
                Phase::Giving { local, order, place, .. } => r == Some(
                    &local@[order@[place as int] as int],
                ),
                _ => r is None,
            },
    {
        match &self.phase {
            Phase::Taking { record, .. } => Some(record),
            Phase::Giving { local, order, place, .. } => {
                assert(order@[*place as int] < local@.len());
                Some(local.at(order[*place]))
            },
            _ => None,
        }
    }

    /// Takes the next step after an event that came at `now`; what is noted
    /// about the syntax where no text was looked at is `no_syntax`.
    #[verifier::spinoff_prover]
    pub fn advance(self, event: ReconcilerEvent, no_syntax: Option<String>, now: i64) -> (r: (
        Reconciler,
        ReconcilerAction,
    ))
        requires
            self.wf(),
            self.awaits(event),
        ensures
            r.0.wf(),
            r.0.wants(r.1),
            steps(self, event, now, r.0, r.1),
    {
        let Reconciler { result, passes, start, phase, seen } = self;
        let base = Reconciler { result, passes, start, phase: Phase::Over, seen };
        match (phase, event) {
            (Phase::LocalRevision, ReconcilerEvent::Revision { outcome }) => match outcome {
                Err(error) => break_off(base, error.as_str()),
                Ok(local) => (
                    Reconciler { phase: Phase::RemoteRevision { local }, ..base },
                    ReconcilerAction::Ask { request: ReplicaRequest::Revision },
                ),
            },
            (Phase::RemoteRevision { local }, ReconcilerEvent::Answer { outcome }) => revision_came(
                base,
                local,
                outcome,
            ),
            (
                Phase::RemoteLabels { table, cursor },
                ReconcilerEvent::Answer { outcome },
            ) => labels_came(base, table, cursor, outcome),
            (
                Phase::KeepingLabels { table, cursor, next_cursor },
                ReconcilerEvent::LabelsKept { outcome },
            ) => labels_kept(base, table, cursor, next_cursor, outcome),
            (Phase::OwnLabels { table }, ReconcilerEvent::Labels { outcome }) => own_labels_came(
                base,
                table,
                outcome,
            ),
            (
                Phase::SendingLabels { waiting, offered },
                ReconcilerEvent::Answer { outcome },
            ) => receipt_came(base, waiting, offered, outcome),
            (Phase::FirstManifest { local }, ReconcilerEvent::Page { outcome }) => first_page_came(
                base,
                local,
                outcome,
            ),
            (
                Phase::RemotePage { local, remote, cursor },
                ReconcilerEvent::Answer { outcome },
            ) => remote_page_came(base, local, remote, cursor, outcome),
            (
                Phase::Headers { local, remote, cursor, headers, next_cursor },
                ReconcilerEvent::GoOn,
            ) => compare_header(
                base,
                local,
                remote,
                cursor,
                headers,
                next_cursor,
                no_syntax,
                now,
            ),
            (
                Phase::Taking { local, remote, cursor, headers, next_cursor, record },
                ReconcilerEvent::Moved { outcome },
            ) => record_taken(
                base,
                local,
                remote,
                record,
                cursor,
                headers,
                next_cursor,
                outcome,
            ),
            (
                Phase::SecondManifest { remote, local },
                ReconcilerEvent::Page { outcome },
            ) => second_page_came(base, remote, local, outcome),
            (
                Phase::Comparing { remote, local, order, place },
                ReconcilerEvent::GoOn,
            ) => compare_entry(base, remote, local, order, place),
            (
                Phase::Giving { remote, local, order, place },
                ReconcilerEvent::Moved { outcome },
            ) => record_given(base, remote, local, order, place, outcome),
            (Phase::LocalRevisionAfter, ReconcilerEvent::Revision { outcome }) => match outcome {
                Err(error) => break_off(base, error.as_str()),
                Ok(local) => (
                    Reconciler { phase: Phase::RemoteRevisionAfter { local }, ..base },
                    ReconcilerAction::Ask { request: ReplicaRequest::Revision },
                ),
            },
            (
                Phase::RemoteRevisionAfter { local },
                ReconcilerEvent::Answer { outcome },
            ) => close(base, local, outcome),
            _ => (base, ReconcilerAction::Finish),
        }
    }
}

/// Success is reported only after a comparison without failures and differences,
/// between whose begin and end neither device changed: each device then has all
/// labels and entries that the other one could bring it. (Differences that are
/// too many to be counted are left out.)
pub proof fn lemma_success_means_agreement(r: Reconciler)
    requires
        r.wf(),
        r.result.converged,
        r.start.differences < usize::MAX,
    ensures
        r.phase is Over,
        r.result.failed == 0,
        r.result.differences == r.start.differences,
        r.result.local_revision == r.start.local,
        r.result.remote_revision == r.start.remote,
        agree(r.seen@),
{
}

/// The devices are compared only so often, and no step is owed after the last
/// comparison.
pub proof fn lemma_comparisons_end(
    before: Reconciler,
    event: ReconcilerEvent,
    now: i64,
    after: Reconciler,
    action: ReconcilerAction,
)
    requires
        before.wf(),
        before.awaits(event),
        after.wf(),
        steps(before, event, now, after, action),
    ensures
        before.passes < MAX_PASSES,
        after.phase is Over <==> action is Finish,
        !(after.phase is Over) ==> before.passes <= after.passes <= before.passes + 1,
        after.passes > before.passes && !(after.phase is Over) ==> after.phase is LocalRevision,
{
}

/// After devices that did not change meanwhile were found to agree, each has the
/// content, the favorites and the copies of the other: an entry that one of them
/// has, the other has too, in the same version.
pub proof fn lemma_agreement_means_same_versions(seen: Seen, i: int)
    requires
        agree(seen),
        seen.first == seen.last,
        crate::replication::distinct_records(seen.first),
        crate::replication::distinct_records(seen.theirs),
        0 <= i < seen.theirs.len(),
    ensures
        exists|k: int|
            0 <= k < seen.last.len() && ({
                let (own, other) = ((#[trigger] seen.last[k]), seen.theirs[i]);
                &&& own.record.sync_id@ == other.record.sync_id@
                &&& own.record.revision == other.record.revision
                &&& own.record.updated_by_device_id@ == other.record.updated_by_device_id@
                &&& own.record.favorite_revision == other.record.favorite_revision
                &&& own.record.favorite_updated_by_device_id@
                    == other.record.favorite_updated_by_device_id@
                &&& own.record.captured_at_ms == other.record.captured_at_ms
                &&& own.first_captured_at_ms == other.first_captured_at_ms
                &&& own.copy_count == other.copy_count
            }),
{
    let other = seen.theirs[i];
    let id = other.record.sync_id@;
    assert(has_all(seen.first, other));
    let k = crate::replication::place(seen.first, id);
    let own = seen.first[k];
    assert(own.record.sync_id@ == id);
    crate::replication::lemma_covered_is_behind_in_nothing(own, other, 0);
    assert(has_all(seen.theirs, seen.last[k]));
    assert(seen.theirs[i].record.sync_id@ == id);
    assert(crate::replication::place(seen.theirs, id) == i);
    crate::replication::lemma_covered_is_behind_in_nothing(other, own, 0);
    crate::text::lemma_text_less_total(
        own.record.updated_by_device_id@,
        other.record.updated_by_device_id@,
    );
    crate::text::lemma_text_less_total(
        own.record.favorite_updated_by_device_id@,
        other.record.favorite_updated_by_device_id@,
    );
}

/// After devices were found to agree, the other one has every label and every entry
/// of this one.
pub proof fn lemma_agreement_leaves_nothing_to_give(seen: Seen, i: int)
    requires
        agree(seen),
    ensures
        0 <= i < seen.own_labels.len() ==> seen.their_labels.contains_key(
            seen.own_labels[i].id@,
        ) && seen.their_labels[seen.own_labels[i].id@].revision >= seen.own_labels[i].revision,
        0 <= i < seen.last.len() ==> exists|k: int|
            0 <= k < seen.theirs.len() && (#[trigger] seen.theirs[k]).record.sync_id@
                == seen.last[i].record.sync_id@ && seen.theirs[k].record.revision
                >= seen.last[i].record.revision,
        0 <= i < seen.theirs.len() ==> exists|k: int|
            0 <= k < seen.first.len() && (#[trigger] seen.first[k]).record.sync_id@
                == seen.theirs[i].record.sync_id@ && seen.first[k].record.revision
                >= seen.theirs[i].record.revision,
{
    if 0 <= i < seen.own_labels.len() {
        crate::reconciliation::lemma_which_labels_are_missing(
            seen.own_labels,
            seen.their_labels,
            seen.own_labels[i],
        );
        assert(seen.own_labels.contains(seen.own_labels[i]));
    }
    if 0 <= i < seen.last.len() {
        assert(has_all(seen.theirs, seen.last[i]));
        crate::reconciliation::lemma_what_it_is_to_have_all(seen.theirs, seen.last[i]);
    }
    if 0 <= i < seen.theirs.len() {
        assert(has_all(seen.first, seen.theirs[i]));
        crate::reconciliation::lemma_what_it_is_to_have_all(seen.first, seen.theirs[i]);
    }
}

/// The host is asked to bring the content of an entry that it knows in an older
/// version, unless the entry is deleted.
pub proof fn lemma_newer_content_is_asked_for(
    before: Reconciler,
    event: ReconcilerEvent,
    now: i64,
    after: Reconciler,
    action: ReconcilerAction,
    i: int,
)
    requires
        before.wf(),
        steps(before, event, now, after, action),
        before.phase is Headers,
        before.phase->Headers_headers@.len() > 0,
        crate::replication::distinct_records(before.phase->Headers_local@),
        0 <= i < before.phase->Headers_local@.len(),
        ({
            let header = before.phase->Headers_headers@[0];
            let own = before.phase->Headers_local@[i].record;
            &&& crate::replication_wire::metadata_fault(header, now) is None
            &&& header.metadata is Some
            &&& own.sync_id@ == header.metadata->0.sync_id@
            &&& own.revision < header.metadata->0.revision
        }),
    ensures
        action is Take,
        action->fetch == !before.phase->Headers_headers@[0].metadata->0.deleted,
        after.phase is Taking,
{
    let (step, result) = choose|step: RemoteStep, result: ResultView|
        {
            &&& #[trigger] crate::reconciliation::compares_remote(
                step,
                before.result@,
                result,
                before.phase->Headers_local@,
                before.phase->Headers_headers@[0],
                now,
            )
            &&& match step {
                RemoteStep::Skip => true,
                RemoteStep::Keep { record } => true,
                RemoteStep::Take { record, fetch } => {
                    &&& after.phase is Taking
                    &&& action == (ReconcilerAction::Take { fetch })
                },
            }
        };
    crate::reconciliation::lemma_newer_entries_are_taken(
        step,
        before.result@,
        result,
        before.phase->Headers_local@,
        before.phase->Headers_headers@[0],
        now,
        i,
    );
}

/// The other device is given the content of an entry that it knows in an older
/// version, unless the entry is deleted.
pub proof fn lemma_newer_content_is_given(
    before: Reconciler,
    event: ReconcilerEvent,
    now: i64,
    after: Reconciler,
    action: ReconcilerAction,
    i: int,
)
    requires
        before.wf(),
        steps(before, event, now, after, action),
        before.phase is Comparing,
        before.phase->Comparing_place < before.phase->Comparing_order@.len(),
        crate::replication::distinct_records(before.phase->Comparing_remote@),
        0 <= i < before.phase->Comparing_remote@.len(),
        ({
            let place = before.phase->Comparing_order@[before.phase->Comparing_place as int];
            let own = before.phase->Comparing_local@[place as int].record;
            let other = before.phase->Comparing_remote@[i].record;
            &&& other.sync_id@ == own.sync_id@
            &&& other.revision < own.revision
        }),
    ensures
        action is Give,
        after.phase is Giving,
        ({
            let place = before.phase->Comparing_order@[before.phase->Comparing_place as int];
            let own = before.phase->Comparing_local@[place as int].record;
            action->include_payload == !own.deleted
        }),
{
    let place = before.phase->Comparing_order@[before.phase->Comparing_place as int];
    let own = before.phase->Comparing_local@[place as int];
    let r = choose|r: Option<bool>|
        {
            &&& #[trigger] crate::reconciliation::compares_local(
                r,
                before.result@,
                after.result@,
                before.phase->Comparing_remote@,
                own,
            )
            &&& match r {
                None => action is GoOn,
                Some(include_payload) => {
                    &&& after.phase is Giving
                    &&& action == (ReconcilerAction::Give { include_payload })
                },
            }
        };
    crate::reconciliation::lemma_newer_entries_are_given(
        r,
        before.result@,
        after.result@,
        before.phase->Comparing_remote@,
        own,
        i,
    );
}

/// What was new where it went is counted on the side that it went to, what was not
/// new is not counted, and what failed counts as a failure.
pub proof fn lemma_moves_are_counted(
    result: ResultView,
    sync_id: Seq<char>,
    outcome: Result<bool, String>,
)
    ensures
        ({
            let (taken, given) = (
                after_taken(result, sync_id, outcome),
                after_given(result, sync_id, outcome),
            );
            &&& taken.sent == result.sent && given.received == result.received
            &&& outcome is Ok && outcome->Ok_0 && result.received < usize::MAX ==> taken.received
                == result.received + 1
            &&& outcome is Ok && outcome->Ok_0 && result.sent < usize::MAX ==> given.sent
                == result.sent + 1
            &&& outcome is Ok && !outcome->Ok_0 ==> taken == result && given == result
            &&& outcome is Ok ==> taken.failed == result.failed && given.failed == result.failed
            &&& outcome is Err && result.failed < usize::MAX ==> taken.failed == result.failed + 1
                && given.failed == result.failed + 1
            &&& outcome is Err ==> taken.received == result.received && given.sent == result.sent
            &&& taken.converged == result.converged && given.converged == result.converged
            &&& taken.differences == result.differences && given.differences == result.differences
            &&& taken.labels_received == result.labels_received
            &&& given.labels_sent == result.labels_sent
        }),
{
}

/// The counts of a reconciliation never sink, and success is never taken back
/// within it.
pub proof fn lemma_counts_never_sink(
    before: Reconciler,
    event: ReconcilerEvent,
    now: i64,
    after: Reconciler,
    action: ReconcilerAction,
)
    requires
        before.wf(),
        before.awaits(event),
        steps(before, event, now, after, action),
    ensures
        after.result@.received >= before.result@.received,
        after.result@.sent >= before.result@.sent,
        after.result@.labels_received >= before.result@.labels_received,
        after.result@.labels_sent >= before.result@.labels_sent,
        after.result@.failed >= before.result@.failed,
        after.result@.differences >= before.result@.differences,
        after.result@.received > before.result@.received ==> before.phase is Taking,
        after.result@.sent > before.result@.sent ==> before.phase is Giving,
        after.result@.labels_received > before.result@.labels_received
            ==> before.phase is KeepingLabels,
        after.result@.labels_sent > before.result@.labels_sent ==> before.phase is SendingLabels,
        after.result@.converged && !before.result@.converged
            ==> before.phase is RemoteRevisionAfter,
{
}

/// What became known of a device is there: the last word on each entry and on each
/// label stands.
pub proof fn lemma_last_word_stands(
    records: Seq<domain::ClipboardReplicaRecord>,
    more: Seq<domain::ClipboardReplicaRecord>,
    table: Map<Seq<char>, LabelVersion>,
    labels: Seq<domain::ClipboardLabel>,
)
    ensures
        more.len() > 0 ==> with_records(records, more).contains(more.last()),
        labels.len() > 0 ==> {
            let known = with_labels(table, labels);
            &&& known.contains_key(labels.last().id@)
            &&& known[labels.last().id@].revision == labels.last().revision
            &&& known[labels.last().id@].updated_by_device_id@
                == labels.last().updated_by_device_id@
        },
        more.len() == 0 ==> with_records(records, more) == records,
        labels.len() == 0 ==> with_labels(table, labels) == table,
        with_records(records, more).len() <= records.len() + more.len(),
    decreases more.len(),
{
    if more.len() > 0 {
        lemma_last_word_stands(records, more.drop_last(), table, Seq::empty());
        let known = with_records(records, more.drop_last());
        let id = more.last().record.sync_id@;
        let after = with_records(records, more);
        if crate::replication::listed(known, id) {
            let i = crate::replication::place(known, id);
            assert(after[i] == more.last());
        } else {
            assert(after[known.len() as int] == more.last());
        }
    }
}

/// A run that breaks off is over, counts one failure more, and leaves the other counts
/// as they were.
pub proof fn lemma_broken_off_runs_are_over(
    before: Reconciler,
    result: ResultView,
    after: Reconciler,
    action: ReconcilerAction,
    error: Seq<char>,
)
    requires
        breaks_off(before, result, after, action, error),
        result.failed < usize::MAX,
    ensures
        after.phase is Over,
        action is Finish,
        after.result@.failed == result.failed + 1,
        after.result@.received == result.received,
        after.result@.sent == result.sent,
        after.result@.labels_received == result.labels_received,
        after.result@.labels_sent == result.labels_sent,
{
}

/// Labels are sent batch by batch in their order, and once none is left the own entries
/// are read from the start.
pub proof fn lemma_labels_are_sent_in_order(
    after: Reconciler,
    action: ReconcilerAction,
    batches: Seq<Seq<proto::ClipboardLabel>>,
)
    requires
        sends_labels(after, action, batches),
    ensures
        batches.len() > 0 ==> action is Ask && action->request is StoreLabels
            && action->request->labels@ == batches.first() && after.phase is SendingLabels
            && after.phase->offered == batches.first().len()
            && crate::reconciliation::batch_views(after.phase->waiting@) == batches.drop_first(),
        batches.len() == 0 ==> after.phase is FirstManifest
            && after.phase->FirstManifest_local@.len() == 0,
{
}

/// No more than 100000 entries of the other side are looked at: a run that meets more
/// breaks off.
pub proof fn lemma_manifests_are_bounded(
    before: Reconciler,
    result: ResultView,
    after: Reconciler,
    action: ReconcilerAction,
    local: Seq<domain::ClipboardReplicaRecord>,
    remote: Seq<domain::ClipboardReplicaRecord>,
    record: domain::ClipboardReplicaRecord,
    cursor: Option<proto::ClipboardReplicaCursor>,
    headers: Seq<proto::ClipboardReplicaRecord>,
    next_cursor: Option<proto::ClipboardReplicaCursor>,
)
    requires
        adds_remote(
            before,
            result,
            after,
            action,
            local,
            remote,
            record,
            cursor,
            headers,
            next_cursor,
        ),
    ensures
        crate::replication::with_record(remote, record).len() > 100_000 ==> action is Finish
            && after.phase is Over,
        crate::replication::with_record(remote, record).len() <= 100_000 ==> action is GoOn
            && after.result@ == result,
{
}

/// What is asked for is a page of 100 entries from the place that was reached.
pub proof fn lemma_pages_are_asked_for_in_turn(
    after: Reconciler,
    action: ReconcilerAction,
    local: Seq<domain::ClipboardReplicaRecord>,
    remote: Seq<domain::ClipboardReplicaRecord>,
    cursor: Option<proto::ClipboardReplicaCursor>,
)
    requires
        asks_page(after, action, local, remote, cursor),
    ensures
        action is Ask,
        action->request is Scan,
        action->request->Scan_cursor == cursor,
        action->request->Scan_limit == 100,
        after.phase is RemotePage,
        after.phase->RemotePage_local@ == local,
        after.phase->RemotePage_remote@ == remote,
{
}

/// Labels that were kept are counted, and the next ones are asked for from where the
/// page ended: a page that does not lead on ends the run.
pub proof fn lemma_kept_labels_are_counted(
    before: Reconciler,
    after: Reconciler,
    action: ReconcilerAction,
    table: Map<Seq<char>, LabelVersion>,
    cursor: Seq<char>,
    next_cursor: Option<String>,
    outcome: Result<usize, String>,
)
    requires
        steps_kept(before, after, action, table, cursor, next_cursor, outcome),
    ensures
        outcome is Err ==> after.phase is Over && action is Finish,
        outcome is Ok && before.result@.labels_received + outcome->Ok_0 <= usize::MAX
            ==> after.result@.labels_received == before.result@.labels_received + outcome->Ok_0,
        outcome is Ok && before.result@.differences + outcome->Ok_0 <= usize::MAX
            ==> after.result@.differences == before.result@.differences + outcome->Ok_0,
        outcome is Ok && next_cursor is None ==> after.phase is OwnLabels && action is ReadLabels
            && after.result@.failed == before.result@.failed,
        outcome is Ok && next_cursor is Some && !crate::text::text_less(cursor, next_cursor->0@)
            ==> after.phase is Over && action is Finish,
        outcome is Ok && next_cursor is Some && table.len() > crate::reconciliation::MAX_LABELS
            ==> after.phase is Over && action is Finish,
        outcome is Ok && next_cursor is Some && crate::text::text_less(cursor, next_cursor->0@)
            && table.len() <= crate::reconciliation::MAX_LABELS ==> after.phase is RemoteLabels
            && action is Ask && action->request is ScanLabels
            && action->request->ScanLabels_cursor@ == next_cursor->0@,
        after.result@.received == before.result@.received,
        after.result@.sent == before.result@.sent,
        after.result@.labels_sent == before.result@.labels_sent,
{
}

/// A pass that changed nothing, between revisions that stayed the same, is the last
/// one, and it is told that both sides agree; after any other one the next pass begins
/// while there may be one.
pub proof fn lemma_passes_end_in_agreement_or_go_on(
    before: Reconciler,
    after: Reconciler,
    action: ReconcilerAction,
    local: u64,
    remote: u64,
)
    requires
        steps_close(before, after, action, local, Ok(ReplicaResponse::Revision(remote))),
        !before.result@.converged,
    ensures
        after.result@.converged <==> before.start.differences == before.result.differences
            && before.start.local == local && before.start.remote == remote,
        after.result@.converged ==> after.phase is Over && action is Finish
            && after.result@.local_revision == local && after.result@.remote_revision == remote,
        !after.result@.converged && before.passes + 1 < MAX_PASSES
            ==> after.phase is LocalRevision && action is ReadRevision,
        !after.result@.converged && before.passes + 1 >= MAX_PASSES ==> after.phase is Over
            && action is Finish,
        after.passes == before.passes + 1,
        after.result@.received == before.result@.received,
        after.result@.sent == before.result@.sent,
        after.result@.failed == before.result@.failed,
{
}

/// A page that was gone through leads to the next one, or, where it was the last, to
/// the own entries once more; a page that does not lead on ends the run.
pub proof fn lemma_pages_lead_on(
    before: Reconciler,
    after: Reconciler,
    action: ReconcilerAction,
    local: Seq<domain::ClipboardReplicaRecord>,
    remote: Seq<domain::ClipboardReplicaRecord>,
    cursor: Option<proto::ClipboardReplicaCursor>,
    next_cursor: Option<proto::ClipboardReplicaCursor>,
    now: i64,
)
    requires
        steps_header(
            before,
            after,
            action,
            local,
            remote,
            cursor,
            Seq::empty(),
            next_cursor,
            now,
        ),
    ensures
        next_cursor is None ==> after.phase is SecondManifest
            && after.phase->SecondManifest_remote@ == remote
            && after.phase->SecondManifest_local@.len() == 0,
        next_cursor is Some && cursor is None ==> action is Ask && action->request is Scan
            && action->request->Scan_cursor == next_cursor,
        next_cursor is Some && cursor is Some && crate::reconciliation::goes_on(
            cursor->0,
            next_cursor->0,
        ) ==> action is Ask && action->request is Scan && action->request->Scan_cursor
            == next_cursor,
        next_cursor is Some && cursor is Some && !crate::reconciliation::goes_on(
            cursor->0,
            next_cursor->0,
        ) ==> after.phase is Over && action is Finish,
        !(action is Finish) ==> after.result@ == before.result@,
{
}

/// The own entries are read page by page to the end, and only then the other side is
/// asked for its first page.
pub proof fn lemma_own_entries_are_read_to_the_end(
    before: Reconciler,
    after: Reconciler,
    action: ReconcilerAction,
    known: Seq<domain::ClipboardReplicaRecord>,
    outcome: Result<LocalPage, String>,
)
    requires
        steps_first_page(before, after, action, known, outcome),
    ensures
        outcome is Err ==> after.phase is Over && action is Finish,
        outcome is Ok && with_records(known, outcome->Ok_0.records@).len() > 100_000
            ==> after.phase is Over && action is Finish,
        outcome is Ok && with_records(known, outcome->Ok_0.records@).len() <= 100_000
            && outcome->Ok_0.next_cursor is Some ==> after.phase is FirstManifest
            && after.phase->FirstManifest_local@ == with_records(known, outcome->Ok_0.records@),
        outcome is Ok && with_records(known, outcome->Ok_0.records@).len() <= 100_000
            && outcome->Ok_0.next_cursor is None ==> action is Ask && action->request is Scan
            && action->request->Scan_cursor is None && after.phase->RemotePage_local@
            == with_records(known, outcome->Ok_0.records@),
        !(action is Finish) ==> after.result@ == before.result@,
{
}

} // verus!
