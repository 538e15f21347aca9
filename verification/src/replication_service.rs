//! What a device answers another one that replicates its clipboard.

use vstd::prelude::*;
use vstd::string::*;

use crate::domain;
use crate::proto;
use crate::replication::PAGE_LIMIT;
use crate::replication_wire::{
    encode_record, label_from_wire, metadata_from_wire_at, start_receiving,
    EncodedRecord, ReplicaReceiver,
};
use crate::status::{ErrorCode, RecoveryAction, Status};
use crate::text::{str_eq, str_less};

verus! {

/// What one device asks another.
#[derive(Debug)]
pub enum ReplicaRequest {
    /// The revision of the clipboard.
    Revision,
    /// A page of the history, from a place on.
    Scan { cursor: Option<proto::ClipboardReplicaCursor>, limit: u32 },
    /// An entry with its content.
    Fetch { sync_id: String },
    /// Whether there is room for an entry.
    Check { header: proto::ClipboardReplicaRecord },
    /// To keep an entry.
    Store { header: proto::ClipboardReplicaRecord },
    /// A page of labels, from one on.
    ScanLabels { cursor: String },
    /// To keep labels.
    StoreLabels { labels: Vec<proto::ClipboardLabel> },
}

/// What is done to answer a request.
pub enum ServeStep {
    TellRevision,
    ReadPage { cursor: Option<domain::ClipboardReplicaCursor>, limit: usize },
    SendRecord { sync_id: String },
    CheckStorage { replica: domain::ClipboardReplicaRecord },
    Receive { receiver: ReplicaReceiver },
    ListLabels { cursor: String },
    KeepLabels { labels: Vec<domain::ClipboardLabel> },
}

/// A place in the history, as it travels.
pub fn cursor_to_wire(cursor: domain::ClipboardReplicaCursor) -> (r: proto::ClipboardReplicaCursor)
    ensures
        r.captured_at_ms == cursor.captured_at_ms,
        r.sync_id == cursor.sync_id,
{
    proto::ClipboardReplicaCursor {
        captured_at_ms: cursor.captured_at_ms,
        sync_id: cursor.sync_id,
    }
}

/// Reads a place in the history.
pub fn cursor_from_wire(cursor: proto::ClipboardReplicaCursor) -> (r:
    domain::ClipboardReplicaCursor)
    ensures
        r.captured_at_ms == cursor.captured_at_ms,
        r.sync_id == cursor.sync_id,
{
    domain::ClipboardReplicaCursor {
        captured_at_ms: cursor.captured_at_ms,
        sync_id: cursor.sync_id,
    }
}

/// The number of entries that a page may have.
pub open spec fn page_limit(limit: u32) -> nat {
    if limit == 0 {
        1
    } else if limit > PAGE_LIMIT {
        PAGE_LIMIT as nat
    } else {
        limit as nat
    }
}

/// True when a label was named before.
pub open spec fn named(earlier: Seq<proto::ClipboardLabel>, label: proto::ClipboardLabel) -> bool {
    exists|i: int| 0 <= i < earlier.len() && (#[trigger] earlier[i]).id@ == label.id@
}

/// What is wrong with a label among others, if anything.
pub open spec fn label_fault(
    earlier: Seq<proto::ClipboardLabel>,
    label: proto::ClipboardLabel,
) -> Option<Seq<char>> {
    if named(earlier, label) {
        Some("duplicate clipboard label"@)
    } else if !crate::replication_wire::label_ok(label) {
        Some("invalid clipboard label metadata"@)
    } else {
        None
    }
}

/// What is wrong with the first bad label of a list, if anything.
pub open spec fn labels_fault(labels: Seq<proto::ClipboardLabel>) -> Option<Seq<char>>
    decreases labels.len(),
{
    if labels.len() == 0 {
        None
    } else {
        match labels_fault(labels.drop_last()) {
            Some(fault) => Some(fault),
            None => label_fault(labels.drop_last(), labels.last()),
        }
    }
}

/// What is wrong with labels that are to be kept, if anything.
pub open spec fn store_fault(labels: Seq<proto::ClipboardLabel>) -> Option<Seq<char>> {
    if labels.len() > PAGE_LIMIT {
        Some("clipboard label page exceeds limit"@)
    } else {
        labels_fault(labels)
    }
}

/// What labels that travelled mean.
pub open spec fn meant_labels(labels: Seq<proto::ClipboardLabel>) -> Seq<domain::ClipboardLabel> {
    labels.map_values(|label: proto::ClipboardLabel| crate::replication_wire::meant_label(label))
}

proof fn lemma_first_label_fault(labels: Seq<proto::ClipboardLabel>, n: int)
    requires
        0 <= n <= labels.len(),
        labels_fault(labels.take(n)) is Some,
    ensures
        labels_fault(labels) == labels_fault(labels.take(n)),
    decreases labels.len(),
{
    if n < labels.len() {
        assert(labels.drop_last().take(n) =~= labels.take(n));
        lemma_first_label_fault(labels.drop_last(), n);
    } else {
        assert(labels.take(n) =~= labels);
    }
}

/// Reads labels that are to be kept.
pub fn read_labels(labels: Vec<proto::ClipboardLabel>) -> (r: Result<
    Vec<domain::ClipboardLabel>,
    &'static str,
>)
    ensures
        match store_fault(labels@) {
            Some(fault) => r is Err && r->Err_0@ == fault,
            None => r is Ok && r->Ok_0@ == meant_labels(labels@),
        },
{
    if labels.len() > PAGE_LIMIT {
        return Err("clipboard label page exceeds limit");
    }
    let ghost all = labels@;
    let mut out: Vec<domain::ClipboardLabel> = Vec::new();
    assert(out@ =~= meant_labels(all.take(0)));
    for label in it: labels.into_iter()
        invariant
            it.seq() == all,
            all == labels@,
            all.len() <= PAGE_LIMIT,
            labels_fault(all.take(it.index())) is None,
            out@ == meant_labels(all.take(it.index())),
    {
        let ghost n = it.index() as int;
        let ghost before = all.take(n);
        proof {
            assert(all.take(n + 1).drop_last() =~= before);
            assert(all.take(n + 1).last() == all[n]);
        }
        let mut j: usize = 0;
        while j < out.len()
            invariant
                j <= out@.len(),
                0 <= n < all.len(),
                all == labels@,
                all.len() <= PAGE_LIMIT,
                before == all.take(n),
                label == all[n],
                labels_fault(before) is None,
                all.take(n + 1).drop_last() == before,
                all.take(n + 1).last() == all[n],
                out@ == meant_labels(before),
                forall|k: int| 0 <= k < j ==> (#[trigger] before[k]).id@ != label.id@,
            decreases out@.len() - j,
        {
            assert(out@[j as int] == crate::replication_wire::meant_label(before[j as int]));
            if str_eq(out[j].id.as_str(), label.id.as_str()) {
                proof {
                    assert(named(before, label));
                    lemma_first_label_fault(all, n + 1);
                }
                return Err("duplicate clipboard label");
            }
            j += 1;
        }
        assert(!named(before, label));
        match label_from_wire(label) {
            Err(fault) => {
                proof {
                    lemma_first_label_fault(all, n + 1);
                }
                return Err(fault);
            },
            Ok(label) => {
                out.push(label);
                assert(out@ =~= meant_labels(all.take(n + 1)));
            },
        }
    }
    assert(all.take(all.len() as int) =~= all);
    Ok(out)
}

/// Why a request that arrived at `now` is not taken up, if so.
pub open spec fn serve_fault(request: Option<ReplicaRequest>, now: i64) -> Option<Seq<char>> {
    match request {
        None => Some("missing clipboard request"@),
        Some(ReplicaRequest::Check { header }) => crate::replication_wire::metadata_fault(
            header,
            now,
        ),
        Some(ReplicaRequest::Store { header }) => crate::replication_wire::start_fault(header, now),
        Some(ReplicaRequest::StoreLabels { labels }) => store_fault(labels@),
        _ => None,
    }
}

/// True when two places in the history are the same, one of them as it travels.
pub open spec fn same_cursor(
    a: Option<domain::ClipboardReplicaCursor>,
    b: Option<proto::ClipboardReplicaCursor>,
) -> bool {
    match (a, b) {
        (None, None) => true,
        (Some(a), Some(b)) => a.captured_at_ms == b.captured_at_ms && a.sync_id@ == b.sync_id@,
        _ => false,
    }
}

/// True when a request is answered by this step.
pub open spec fn serves(r: ServeStep, request: ReplicaRequest, no_syntax: Option<String>) -> bool {
    match request {
        ReplicaRequest::Revision => r is TellRevision,
        ReplicaRequest::Scan { cursor, limit } => {
            &&& r is ReadPage
            &&& same_cursor(r->ReadPage_cursor, cursor)
            &&& r->limit == page_limit(limit)
        },
        ReplicaRequest::Fetch { sync_id } => r == (ServeStep::SendRecord { sync_id }),
        ReplicaRequest::Check { header } => {
            &&& r is CheckStorage
            &&& crate::replication_wire::reads_metadata(r->replica, header)
            &&& r->replica.record.text_syntax_json == no_syntax
        },
        ReplicaRequest::Store { header } => {
            &&& r is Receive
            &&& r->receiver.wf()
            &&& crate::replication_wire::reads_metadata(r->receiver@.replica, header)
            &&& r->receiver@.replica.record.text_syntax_json == no_syntax
            &&& r->receiver@.metadata_only == header.metadata_only
            &&& r->receiver@.references == header.parts@
            &&& r->receiver@.done.len() == 0
            &&& r->receiver@.bytes.len() == 0
        },
        ReplicaRequest::ScanLabels { cursor } => r == (ServeStep::ListLabels { cursor }),
        ReplicaRequest::StoreLabels { labels } => r is KeepLabels && r->labels@ == meant_labels(
            labels@,
        ),
    }
}

/// Decides what is done to answer a request that arrived at `now`, where
/// `no_syntax` is the syntax of an entry whose text was not looked at.
pub fn serve_request(request: Option<ReplicaRequest>, no_syntax: Option<String>, now: i64) -> (r:
    Result<ServeStep, &'static str>)
    ensures
        match serve_fault(request, now) {
            Some(fault) => r is Err && r->Err_0@ == fault,
            None => r is Ok && serves(r->Ok_0, request->0, no_syntax),
        },
{
    match request {
        None => Err("missing clipboard request"),
        Some(ReplicaRequest::Revision) => Ok(ServeStep::TellRevision),
        Some(ReplicaRequest::Scan { cursor, limit }) => {
            let limit: usize = if limit == 0 {
                1
            } else if limit > PAGE_LIMIT as u32 {
                PAGE_LIMIT
            } else {
                limit as usize
            };
            Ok(
                ServeStep::ReadPage {
                    cursor: match cursor {
                        Some(cursor) => Some(cursor_from_wire(cursor)),
                        None => None,
                    },
                    limit,
                },
            )
        },
        Some(ReplicaRequest::Fetch { sync_id }) => Ok(ServeStep::SendRecord { sync_id }),
        Some(ReplicaRequest::Check { header }) => match metadata_from_wire_at(
            header,
            no_syntax,
            now,
        ) {
            Err(fault) => Err(fault),
            Ok(replica) => Ok(ServeStep::CheckStorage { replica }),
        },
        Some(ReplicaRequest::Store { header }) => match start_receiving(header, no_syntax, now) {
            Err(fault) => Err(fault),
            Ok(receiver) => Ok(ServeStep::Receive { receiver }),
        },
        Some(ReplicaRequest::ScanLabels { cursor }) => Ok(ServeStep::ListLabels { cursor }),
        Some(ReplicaRequest::StoreLabels { labels }) => match read_labels(labels) {
            Err(fault) => Err(fault),
            Ok(labels) => Ok(ServeStep::KeepLabels { labels }),
        },
    }
}

/// Why an entry that is asked for is not sent, if so; `may_send` tells whether
/// it may be.
pub open spec fn fetch_fault(
    replica: Option<domain::ClipboardReplicaRecord>,
    may_send: bool,
) -> Option<Seq<char>> {
    match replica {
        None => Some("clipboard record no longer exists"@),
        Some(replica) => if !may_send {
            Some("clipboard synchronization is disabled for this record"@)
        } else {
            match crate::replication_wire::parts_of(replica.record) {
                Err(fault) => Some(fault),
                Ok(_) => None,
            }
        },
    }
}

/// Makes an entry that is asked for ready to be sent.
pub fn answer_fetch(replica: Option<domain::ClipboardReplicaRecord>, may_send: bool) -> (r: Result<
    EncodedRecord,
    &'static str,
>)
    ensures
        match fetch_fault(replica, may_send) {
            Some(fault) => r is Err && r->Err_0@ == fault,
            None => r is Ok && crate::replication_wire::encodes(
                r->Ok_0,
                replica->0,
                crate::replication_wire::parts_of(replica->0.record)->Ok_0,
            ),
        },
{
    match replica {
        None => Err("clipboard record no longer exists"),
        Some(replica) => {
            if !may_send {
                return Err("clipboard synchronization is disabled for this record");
            }
            encode_record(replica)
        },
    }
}

/// A page of the history of a clipboard.
#[derive(Debug)]
pub struct ReplicaPage {
    pub records: Vec<proto::ClipboardReplicaRecord>,
    pub next_cursor: Option<proto::ClipboardReplicaCursor>,
}

/// The end of a page that begins at the place `i` with `sum` bytes: the first
/// entry has always room, and every further one as long as the page is not over
/// the limit.
pub open spec fn page_end(sizes: Seq<usize>, limit: nat, i: nat, sum: nat) -> nat
    decreases sizes.len() - i,
{
    if i >= sizes.len() {
        sizes.len()
    } else if i > 0 && sum + sizes[i as int] > limit {
        i
    } else {
        page_end(sizes, limit, i + 1, sum + sizes[i as int] as nat)
    }
}

/// The bytes of the first entries.
pub open spec fn bytes_of(sizes: Seq<usize>, n: nat) -> nat
    decreases n,
{
    if n == 0 || n > sizes.len() {
        0
    } else {
        bytes_of(sizes, (n - 1) as nat) + sizes[n - 1] as nat
    }
}

/// A page is not empty when there is anything to show, and over the limit only
/// if it has a single entry.
pub proof fn lemma_page_end(sizes: Seq<usize>, limit: nat, i: nat, sum: nat)
    requires
        i <= sizes.len(),
        sum == bytes_of(sizes, i),
        i > 1 ==> sum <= limit,
    ensures
        i <= page_end(sizes, limit, i, sum) <= sizes.len(),
        sizes.len() > 0 ==> page_end(sizes, limit, i, sum) > 0,
        page_end(sizes, limit, i, sum) > 1 ==> bytes_of(sizes, page_end(sizes, limit, i, sum))
            <= limit,
    decreases sizes.len() - i,
{
    if i < sizes.len() && !(i > 0 && sum + sizes[i as int] > limit) {
        lemma_page_end(sizes, limit, i + 1, sum + sizes[i as int] as nat);
    }
}

/// The place of an entry in the history, if its metadata is there.
pub open spec fn place_of(w: proto::ClipboardReplicaRecord) -> Option<(i64, Seq<char>)> {
    match w.metadata {
        Some(m) => Some((m.captured_at_ms, m.sync_id@)),
        None => None,
    }
}

/// A place in the history as a mathematical value.
pub open spec fn cursor_place(cursor: Option<proto::ClipboardReplicaCursor>) -> Option<
    (i64, Seq<char>),
> {
    match cursor {
        Some(cursor) => Some((cursor.captured_at_ms, cursor.sync_id@)),
        None => None,
    }
}

/// Puts entries on a page as far as there is room; `sizes` are their sizes as
/// they travel, and `maximum` is the size of a frame, half of which a page may
/// fill. The next page begins after the last entry on this one.
pub fn cut_page(
    records: Vec<proto::ClipboardReplicaRecord>,
    sizes: &Vec<usize>,
    next_cursor: Option<domain::ClipboardReplicaCursor>,
    maximum: usize,
) -> (r: ReplicaPage)
    requires
        sizes@.len() == records@.len(),
    ensures
        ({
            let end = page_end(sizes@, (maximum / 2) as nat, 0, 0);
            &&& r.records@ == records@.take(end as int)
            &&& if end == records@.len() {
                same_cursor(next_cursor, r.next_cursor)
            } else {
                end > 0 && cursor_place(r.next_cursor) == place_of(records@[end - 1])
            }
        }),
{
    let limit: usize = maximum / 2;
    let mut end: usize = 0;
    let mut sum: usize = 0;
    let mut full = false;
    while end < sizes.len() && !full
        invariant
            end <= sizes@.len(),
            limit == maximum / 2,
            end > 1 ==> sum <= limit,
            sum == bytes_of(sizes@, end as nat),
            end == 0 ==> !full,
            if full {
                page_end(sizes@, limit as nat, 0, 0) == end && end < sizes@.len()
            } else {
                page_end(sizes@, limit as nat, 0, 0) == page_end(
                    sizes@,
                    limit as nat,
                    end as nat,
                    sum as nat,
                )
            },
        decreases sizes@.len() - end, if full {
            0int
        } else {
            1int
        },
    {
        let size: usize = sizes[end];
        if end > 0 && (sum > limit || size > limit - sum) {
            full = true;
        } else {
            sum = if end == 0 {
                size
            } else {
                sum + size
            };
            end += 1;
        }
    }
    let ghost all = records@;
    proof {
        lemma_page_end(sizes@, limit as nat, 0, 0);
    }
    let mut records = records;
    let len: usize = records.len();
    records.truncate(end);
    assert(records@ =~= all.take(end as int));
    let next_cursor = if end == len {
        match next_cursor {
            Some(cursor) => Some(cursor_to_wire(cursor)),
            None => None,
        }
    } else {
        match &records[end - 1].metadata {
            Some(m) => Some(
                proto::ClipboardReplicaCursor {
                    captured_at_ms: m.captured_at_ms,
                    sync_id: m.sync_id.clone(),
                },
            ),
            None => None,
        }
    };
    ReplicaPage { records, next_cursor }
}

/// Labels in order with one more, which comes after those with the same
/// identifier.
pub open spec fn with_label(
    list: Seq<domain::ClipboardLabel>,
    label: domain::ClipboardLabel,
) -> Seq<domain::ClipboardLabel>
    decreases list.len(),
{
    if list.len() > 0 && crate::text::text_less(label.id@, list.last().id@) {
        with_label(list.drop_last(), label).push(list.last())
    } else {
        list.push(label)
    }
}

/// The labels whose identifier comes after a given one, in the order of their
/// identifiers.
pub open spec fn labels_after(labels: Seq<domain::ClipboardLabel>, cursor: Seq<char>) -> Seq<
    domain::ClipboardLabel,
>
    decreases labels.len(),
{
    if labels.len() == 0 {
        Seq::empty()
    } else {
        let rest = labels_after(labels.drop_last(), cursor);
        if crate::text::text_less(cursor, labels.last().id@) {
            with_label(rest, labels.last())
        } else {
            rest
        }
    }
}

/// True when labels are in the order of their identifiers.
pub open spec fn in_order(list: Seq<domain::ClipboardLabel>) -> bool {
    forall|i: int, j: int|
        0 <= i < j < list.len() ==> !crate::text::text_less(
            (#[trigger] list[j]).id@,
            (#[trigger] list[i]).id@,
        )
}

proof fn lemma_with_label(list: Seq<domain::ClipboardLabel>, label: domain::ClipboardLabel)
    requires
        in_order(list),
    ensures
        in_order(with_label(list, label)),
        with_label(list, label).len() == list.len() + 1,
        forall|l: domain::ClipboardLabel| #[trigger]
            with_label(list, label).contains(l) <==> list.contains(l) || l == label,
    decreases list.len(),
{
    let after = with_label(list, label);
    if list.len() > 0 && crate::text::text_less(label.id@, list.last().id@) {
        let rest = list.drop_last();
        lemma_with_label(rest, label);
        let kept = with_label(rest, label);
        assert forall|l: domain::ClipboardLabel| #[trigger] after.contains(l) <==> list.contains(l)
            || l == label by {
            if after.contains(l) {
                let i = choose|i: int| 0 <= i < after.len() && after[i] == l;
                if i < kept.len() {
                    assert(kept[i] == l);
                    assert(kept.contains(l));
                    if rest.contains(l) {
                        let k = choose|k: int| 0 <= k < rest.len() && rest[k] == l;
                        assert(list[k] == l);
                    }
                } else {
                    assert(list[list.len() - 1] == l);
                }
            }
            if list.contains(l) || l == label {
                if l == label || rest.contains(l) {
                    assert(kept.contains(l));
                    let i = choose|i: int| 0 <= i < kept.len() && kept[i] == l;
                    assert(after[i] == l);
                } else {
                    let k = choose|k: int| 0 <= k < list.len() && list[k] == l;
                    if k < rest.len() {
                        assert(rest[k] == l);
                    }
                    assert(after[after.len() - 1] == l);
                }
            }
        }
        assert forall|i: int, j: int| 0 <= i < j < after.len() implies !crate::text::text_less(
            (#[trigger] after[j]).id@,
            (#[trigger] after[i]).id@,
        ) by {
            if j < kept.len() {
                assert(after[i] == kept[i] && after[j] == kept[j]);
            } else {
                let last = list.last();
                assert(after[j] == last);
                assert(after[i] == kept[i]);
                assert(kept.contains(kept[i]));
                if kept[i] == label {
                    lemma_less_not_both(label.id@, last.id@);
                } else {
                    assert(rest.contains(kept[i]));
                    let k = choose|k: int| 0 <= k < rest.len() && rest[k] == kept[i];
                    assert(list[k] == kept[i]);
                    assert(list[list.len() - 1] == last);
                }
            }
        }
    } else {
        assert forall|l: domain::ClipboardLabel| #[trigger] after.contains(l) <==> list.contains(l)
            || l == label by {
            if after.contains(l) {
                let i = choose|i: int| 0 <= i < after.len() && after[i] == l;
                if i < list.len() {
                    assert(list[i] == l);
                }
            }
            if list.contains(l) {
                let k = choose|k: int| 0 <= k < list.len() && list[k] == l;
                assert(after[k] == l);
            }
            if l == label {
                assert(after[after.len() - 1] == l);
            }
        }
        assert forall|i: int, j: int| 0 <= i < j < after.len() implies !crate::text::text_less(
            (#[trigger] after[j]).id@,
            (#[trigger] after[i]).id@,
        ) by {
            if j < list.len() {
                assert(after[i] == list[i] && after[j] == list[j]);
            } else {
                let last = list.last();
                assert(after[i] == list[i]);
                assert(list[list.len() - 1] == last);
                if i < list.len() - 1 {
                    lemma_not_less(label.id@, last.id@, list[i].id@);
                }
            }
        }
    }
}

proof fn lemma_less_not_both(a: Seq<char>, b: Seq<char>)
    requires
        crate::text::text_less(a, b),
    ensures
        !crate::text::text_less(b, a),
{
    if crate::text::text_less(b, a) {
        crate::text::lemma_text_less_transitive(a, b, a);
        crate::text::lemma_text_less_irreflexive(a);
    }
}

proof fn lemma_not_less(a: Seq<char>, b: Seq<char>, c: Seq<char>)
    requires
        !crate::text::text_less(a, b),
        !crate::text::text_less(b, c),
    ensures
        !crate::text::text_less(a, c),
{
    crate::replication::lemma_not_less_transitive(0, a, 0, b, 0, c);
}

/// The labels after a given identifier are in order, and they are exactly those
/// whose identifier comes after it.
pub proof fn lemma_labels_after(labels: Seq<domain::ClipboardLabel>, cursor: Seq<char>)
    ensures
        in_order(labels_after(labels, cursor)),
        forall|l: domain::ClipboardLabel| #[trigger]
            labels_after(labels, cursor).contains(l) <==> labels.contains(l)
                && crate::text::text_less(cursor, l.id@),
    decreases labels.len(),
{
    if labels.len() > 0 {
        let rest = labels.drop_last();
        let last = labels.last();
        lemma_labels_after(rest, cursor);
        let kept = labels_after(rest, cursor);
        lemma_with_label(kept, last);
        let after = labels_after(labels, cursor);
        assert forall|l: domain::ClipboardLabel| #[trigger] after.contains(l) <==> labels.contains(
            l,
        ) && crate::text::text_less(cursor, l.id@) by {
            assert(kept.contains(l) <==> rest.contains(l) && crate::text::text_less(
                cursor,
                l.id@,
            ));
            if rest.contains(l) {
                let k = choose|k: int| 0 <= k < rest.len() && rest[k] == l;
                assert(labels[k] == l);
            }
            if labels.contains(l) && !rest.contains(l) {
                let k = choose|k: int| 0 <= k < labels.len() && labels[k] == l;
                if k < rest.len() {
                    assert(rest[k] == l);
                }
                assert(l == last);
            }
            if l == last {
                assert(labels[labels.len() - 1] == l);
            }
        }
    }
}

/// A page of labels.
#[derive(Debug)]
pub struct LabelPage {
    pub labels: Vec<domain::ClipboardLabel>,
    pub next_cursor: Option<String>,
}

/// True when `r` is the page of the labels after a given identifier. The next
/// page, if there is more to show, begins after the last label on this one.
pub open spec fn is_label_page(
    r: LabelPage,
    labels: Seq<domain::ClipboardLabel>,
    cursor: Seq<char>,
) -> bool {
    let all = labels_after(labels, cursor);
    if all.len() > PAGE_LIMIT {
        &&& r.labels@ == all.take(PAGE_LIMIT as int)
        &&& crate::sync_record::text_view(r.next_cursor) == Some(all[PAGE_LIMIT - 1].id@)
    } else {
        r.labels@ == all && r.next_cursor is None
    }
}

fn insert_label(list: &mut Vec<domain::ClipboardLabel>, label: domain::ClipboardLabel)
    ensures
        final(list)@ == with_label(old(list)@, label),
{
    let ghost before = list@;
    let mut at: usize = list.len();
    proof {
        assert(before.take(at as int) =~= before);
        assert(with_label(before, label) + Seq::<domain::ClipboardLabel>::empty() =~= with_label(
            before,
            label,
        ));
        assert(before.skip(at as int) =~= Seq::<domain::ClipboardLabel>::empty());
    }
    while at > 0 && str_less(label.id.as_str(), list[at - 1].id.as_str())
        invariant
            at <= before.len(),
            list@ == before,
            with_label(before, label) == with_label(before.take(at as int), label) + before.skip(
                at as int,
            ),
        decreases at,
    {
        proof {
            let part = before.take(at as int);
            assert(part.drop_last() =~= before.take(at - 1));
            assert(part.last() == before[at - 1]);
            let inner = with_label(before.take(at - 1), label);
            assert(inner.push(before[at - 1]) + before.skip(at as int) =~= inner + before.skip(
                at - 1,
            ));
        }
        at -= 1;
    }
    proof {
        let part = before.take(at as int);
        if at > 0 {
            assert(part.last() == before[at - 1]);
        }
        assert(with_label(part, label) == part.push(label));
        assert(part.push(label) + before.skip(at as int) =~= before.insert(at as int, label));
    }
    list.insert(at, label);
}

/// Lists the labels after a given identifier, in the order of their identifiers,
/// as many as a page has.
pub fn label_page(labels: Vec<domain::ClipboardLabel>, cursor: &str) -> (r: LabelPage)
    ensures
        is_label_page(r, labels@, cursor@),
{
    let ghost all = labels@;
    let mut list: Vec<domain::ClipboardLabel> = Vec::new();
    for label in it: labels.into_iter()
        invariant
            it.seq() == all,
            all == labels@,
            list@ == labels_after(all.take(it.index()), cursor@),
    {
        let ghost n = it.index() as int;
        proof {
            assert(all.take(n + 1).drop_last() =~= all.take(n));
            assert(all.take(n + 1).last() == all[n]);
        }
        if str_less(cursor, label.id.as_str()) {
            insert_label(&mut list, label);
        }
    }
    assert(all.take(all.len() as int) =~= all);
    if list.len() > PAGE_LIMIT {
        let ghost whole = list@;
        list.truncate(PAGE_LIMIT);
        assert(list@ =~= whole.take(PAGE_LIMIT as int));
        let next = list[PAGE_LIMIT - 1].id.clone();
        LabelPage { labels: list, next_cursor: Some(next) }
    } else {
        LabelPage { labels: list, next_cursor: None }
    }
}

/// Going from page to page one meets every label: each is on this page or after
/// the place where the next page begins, and that place comes after the place
/// where this page began.
pub proof fn lemma_label_pages(
    r: LabelPage,
    labels: Seq<domain::ClipboardLabel>,
    cursor: Seq<char>,
    label: domain::ClipboardLabel,
)
    requires
        is_label_page(r, labels, cursor),
        forall|i: int, j: int|
            0 <= i < labels.len() && 0 <= j < labels.len() && (#[trigger] labels[i]).id@ == (
            #[trigger] labels[j]).id@ ==> labels[i] == labels[j],
        labels.contains(label),
        crate::text::text_less(cursor, label.id@),
    ensures
        r.labels@.contains(label) || (r.next_cursor is Some && crate::text::text_less(
            r.next_cursor->0@,
            label.id@,
        )),
        r.next_cursor is Some ==> crate::text::text_less(cursor, r.next_cursor->0@),
{
    let all = labels_after(labels, cursor);
    lemma_labels_after(labels, cursor);
    assert(all.contains(label));
    let k = choose|k: int| 0 <= k < all.len() && all[k] == label;
    if all.len() > PAGE_LIMIT {
        let last = all[PAGE_LIMIT - 1];
        assert(all.contains(last));
        if k < PAGE_LIMIT {
            assert(r.labels@[k] == label);
        } else {
            assert(!crate::text::text_less(all[k].id@, last.id@));
            crate::text::lemma_text_less_total(last.id@, label.id@);
            if last.id@ == label.id@ {
                let i = choose|i: int| 0 <= i < labels.len() && labels[i] == last;
                let j = choose|j: int| 0 <= j < labels.len() && labels[j] == label;
                assert(labels[i].id@ == labels[j].id@);
                assert(r.labels@[PAGE_LIMIT - 1] == label);
            }
        }
    } else {
        assert(r.labels@[k] == label);
    }
}

/// The status of an answer that is no failure.
pub fn replica_ok() -> (r: Status)
    ensures
        crate::status::is_ok_status(r@),
{
    crate::status::ok_status()
}

/// The status of a refused request, with nothing but a code and a text.
pub open spec fn failure_status(message: Seq<char>) -> crate::status::StatusView {
    crate::status::StatusView {
        code: ErrorCode::FailedPrecondition,
        message,
        retryable: false,
        retry_after_ms: 0,
        recovery_action: RecoveryAction::NoAction,
        error_id: Seq::empty(),
    }
}

/// The status of an answer that is a failure; its text is static or names an
/// error of the host, never content.
pub fn replica_failure(message: &str) -> (r: Status)
    ensures
        r@ == failure_status(message@),
{
    Status {
        code: ErrorCode::FailedPrecondition,
        message: message.to_owned(),
        retryable: false,
        retry_after_ms: 0,
        recovery_action: RecoveryAction::NoAction,
        error_id: String::new(),
    }
}

/// Refuses every request while synchronization is switched off.
pub fn check_enabled(enabled: bool) -> (r: Result<(), Status>)
    ensures
        r is Ok == enabled,
        r is Err ==> r->Err_0@ == failure_status("clipboard synchronization is disabled"@),
{
    if enabled {
        Ok(())
    } else {
        Err(replica_failure("clipboard synchronization is disabled"))
    }
}

/// A request is answered by the step that it asks for, with its own values.
pub proof fn lemma_requests_are_served_as_asked(
    r: ServeStep,
    request: ReplicaRequest,
    no_syntax: Option<String>,
)
    requires
        serves(r, request, no_syntax),
    ensures
        request is Revision ==> r is TellRevision,
        request is Scan ==> {
            &&& r is ReadPage
            &&& r->ReadPage_cursor is Some <==> request->Scan_cursor is Some
            &&& request->Scan_cursor is Some ==> r->ReadPage_cursor->0.captured_at_ms
                == request->Scan_cursor->0.captured_at_ms && r->ReadPage_cursor->0.sync_id@
                == request->Scan_cursor->0.sync_id@
            &&& 1 <= request->Scan_limit <= PAGE_LIMIT ==> r->limit == request->Scan_limit
            &&& 1 <= r->limit <= PAGE_LIMIT
        },
        request is Fetch ==> r is SendRecord && r->SendRecord_sync_id@ == request->sync_id@,
        request is Check ==> {
            &&& r is CheckStorage
            &&& r->replica.record.sync_id@ == request->Check_header.metadata->0.sync_id@
            &&& r->replica.record.revision == request->Check_header.metadata->0.revision
            &&& r->replica.record.deleted == request->Check_header.metadata->0.deleted
        },
        request is Store ==> {
            &&& r is Receive
            &&& r->receiver@.replica.record.sync_id@
                == request->Store_header.metadata->0.sync_id@
            &&& r->receiver@.replica.record.revision
                == request->Store_header.metadata->0.revision
            &&& r->receiver@.metadata_only == request->Store_header.metadata_only
            &&& r->receiver@.references == request->Store_header.parts@
            &&& r->receiver@.done.len() == 0 && r->receiver@.bytes.len() == 0
        },
        request is ScanLabels ==> r is ListLabels && r->ListLabels_cursor@
            == request->ScanLabels_cursor@,
        request is StoreLabels ==> {
            &&& r is KeepLabels
            &&& r->labels@.len() == request->labels@.len()
            &&& forall|i: int|
                0 <= i < r->labels@.len() ==> {
                    let (kept, sent) = (#[trigger] r->labels@[i], request->labels@[i]);
                    &&& kept.id@ == sent.id@
                    &&& kept.name@ == sent.name@
                    &&& kept.color@ == sent.color@
                    &&& kept.revision == sent.revision
                    &&& kept.updated_by_device_id@ == sent.updated_by_device_id@
                    &&& kept.deleted == sent.deleted
                }
        },
{
}

/// Which requests are taken up: a request that is one, with proper metadata where it
/// brings any and proper labels that are not too many and not named twice.
pub proof fn lemma_which_requests_are_served(request: ReplicaRequest, now: i64)
    ensures
        serve_fault(None, now) is Some,
        request is Revision || request is Scan || request is Fetch || request is ScanLabels
            ==> serve_fault(Some(request), now) is None,
        request is StoreLabels && serve_fault(Some(request), now) is None ==> {
            &&& request->labels@.len() <= PAGE_LIMIT
            &&& forall|i: int, j: int|
                0 <= i < j < request->labels@.len() ==> (#[trigger] request->labels@[i]).id@ != (
                #[trigger] request->labels@[j]).id@
        },
        (request is Check || request is Store) && serve_fault(Some(request), now) is None ==> {
            let header = if request is Check {
                request->Check_header
            } else {
                request->Store_header
            };
            header.metadata is Some && 0 < header.metadata->0.revision <= i64::MAX
        },
{
    if request is StoreLabels && serve_fault(Some(request), now) is None {
        lemma_labels_named_once(request->labels@);
    }
}

proof fn lemma_labels_named_once(labels: Seq<proto::ClipboardLabel>)
    requires
        labels_fault(labels) is None,
    ensures
        forall|i: int, j: int|
            0 <= i < j < labels.len() ==> (#[trigger] labels[i]).id@ != (
            #[trigger] labels[j]).id@,
    decreases labels.len(),
{
    if labels.len() > 0 {
        let before = labels.drop_last();
        lemma_labels_named_once(before);
        assert forall|i: int, j: int| 0 <= i < j < labels.len() implies (
        #[trigger] labels[i]).id@ != (#[trigger] labels[j]).id@ by {
            assert(before[i] == labels[i]);
            if j < before.len() {
                assert(before[j] == labels[j]);
            } else {
                assert(!named(before, labels.last()));
            }
        }
    }
}

/// An entry is sent only if there is one, if it may be, and if its content can be.
pub proof fn lemma_which_entries_are_sent(
    replica: Option<domain::ClipboardReplicaRecord>,
    may_send: bool,
)
    ensures
        fetch_fault(replica, may_send) is None <==> {
            &&& replica is Some
            &&& may_send
            &&& crate::replication_wire::parts_of(replica->0.record) is Ok
        },
        replica is Some && may_send && replica->0.record.deleted ==> fetch_fault(
            replica,
            may_send,
        ) is None,
        replica is Some && !replica->0.record.deleted && replica->0.record.kind is Files
            ==> fetch_fault(replica, may_send) is Some,
{
}

/// A place in a history is named by the time and the name of an entry.
pub proof fn lemma_places_name_entries(
    w: proto::ClipboardReplicaRecord,
    cursor: proto::ClipboardReplicaCursor,
)
    ensures
        w.metadata is Some && place_of(w) == cursor_place(Some(cursor))
            ==> w.metadata->0.captured_at_ms == cursor.captured_at_ms
            && w.metadata->0.sync_id@ == cursor.sync_id@,
        cursor_place(None) is None,
        cursor_place(Some(cursor)) is Some,
        w.metadata is None <==> place_of(w) is None,
        w.metadata is Some && w.metadata->0.captured_at_ms == cursor.captured_at_ms
            && w.metadata->0.sync_id@ == cursor.sync_id@ ==> place_of(w) == cursor_place(
            Some(cursor),
        ),
{
}

/// A refused request is told its failure in the words of the failure, and that it
/// does not help to try again.
pub proof fn lemma_refusals_tell_the_failure(message: Seq<char>)
    ensures
        failure_status(message).code is FailedPrecondition,
        failure_status(message).message == message,
        !failure_status(message).retryable,
        failure_status(message).error_id.len() == 0,
{
}

/// A page holds as many entries as were asked for, at least 1 and at most 100.
pub proof fn lemma_page_sizes(limit: u32)
    ensures
        1 <= page_limit(limit) <= 100,
        1 <= limit <= 100 ==> page_limit(limit) == limit,
        limit > 100 ==> page_limit(limit) == 100,
{
}

/// Labels are taken in when there are at most 100 of them, each is proper, and no two
/// have one id.
pub proof fn lemma_which_labels_are_taken_in(
    earlier: Seq<proto::ClipboardLabel>,
    label: proto::ClipboardLabel,
    i: int,
)
    requires
        0 <= i < earlier.len(),
    ensures
        earlier[i].id@ == label.id@ ==> label_fault(earlier, label) == Some(
            "duplicate clipboard label"@,
        ),
        label_fault(earlier, label) is None ==> crate::replication_wire::label_ok(label),
        !crate::replication_wire::label_ok(label) ==> label_fault(earlier, label) is Some,
        label_fault(Seq::empty(), label) is None <==> crate::replication_wire::label_ok(label),
        earlier.len() > 100 ==> store_fault(earlier) == Some(
            "clipboard label page exceeds limit"@,
        ),
{
    assert(earlier[i].id@ == label.id@ ==> named(earlier, label));
    assert(!named(Seq::empty(), label));
}

/// A new label is put in its place, and nothing else moves in or out.
pub proof fn lemma_labels_are_put_in(
    list: Seq<domain::ClipboardLabel>,
    label: domain::ClipboardLabel,
)
    ensures
        with_label(list, label).len() == list.len() + 1,
        with_label(list, label).to_multiset() =~= list.to_multiset().insert(label),
    decreases list.len(),
{
    broadcast use vstd::seq_lib::group_to_multiset_ensures;

    if list.len() > 0 && crate::text::text_less(label.id@, list.last().id@) {
        lemma_labels_are_put_in(list.drop_last(), label);
        assert(list =~= list.drop_last().push(list.last()));
    }
}

} // verus!
