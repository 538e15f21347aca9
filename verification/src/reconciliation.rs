//! How two devices come to hold the same clipboard entries: each is brought what
//! the other one has and it lacks, until a comparison finds no difference.

use vstd::hash_map::StringHashMap;
use vstd::prelude::*;
use vstd::string::*;

use crate::domain;
use crate::outside::sha256_digest;
use crate::proto;
use crate::replication::{covers, needs_payload, Manifest, PAGE_LIMIT};
use crate::replication_service::ReplicaPage;
use crate::replication_wire::{
    encode_record, label_from_wire, label_to_wire, metadata_copy, metadata_from_wire_at,
    metadata_to_wire, EncodedRecord,
};
use crate::status::{ErrorCode, Status};
use crate::text::{hex_bytes, str_eq, str_less};

verus! {

/// The number of entries that a device may have.
pub const MAX_MANIFEST_RECORDS: usize = 100_000;

/// The number of labels that a device may have.
pub const MAX_LABELS: usize = 10_000;

/// The number of failures that are told with their reasons.
pub const MAX_REPORTED_ERRORS: usize = 8;

/// The number of times that two devices are compared before giving up.
pub const MAX_PASSES: usize = 3;

/// What came of the attempt to bring two devices into step.
#[derive(Debug, PartialEq, Eq)]
pub struct ReconciliationResult {
    pub received: usize,
    pub sent: usize,
    pub labels_received: usize,
    pub labels_sent: usize,
    pub failed: usize,
    pub total_records: usize,
    pub converged: bool,
    /// The revisions that held throughout the comparison that found no
    /// difference.
    pub local_revision: u64,
    pub remote_revision: u64,
    pub errors: Vec<String>,
    pub differences: usize,
}

/// A [`ReconciliationResult`] as a mathematical value.
pub struct ResultView {
    pub received: usize,
    pub sent: usize,
    pub labels_received: usize,
    pub labels_sent: usize,
    pub failed: usize,
    pub total_records: usize,
    pub converged: bool,
    pub local_revision: u64,
    pub remote_revision: u64,
    pub errors: Seq<Seq<char>>,
    pub differences: usize,
}

impl View for ReconciliationResult {
    type V = ResultView;

    open spec fn view(&self) -> ResultView {
        ResultView {
            received: self.received,
            sent: self.sent,
            labels_received: self.labels_received,
            labels_sent: self.labels_sent,
            failed: self.failed,
            total_records: self.total_records,
            converged: self.converged,
            local_revision: self.local_revision,
            remote_revision: self.remote_revision,
            errors: crate::text::texts(self.errors@),
            differences: self.differences,
        }
    }
}

/// The sum of two numbers as far as it fits.
pub open spec fn plus(a: usize, b: usize) -> usize {
    if a + b > usize::MAX {
        usize::MAX
    } else {
        (a + b) as usize
    }
}

/// The name under which a failure is told: it hides the identifier of the entry.
pub open spec fn failure_name(sync_id: Seq<char>) -> Seq<char> {
    crate::text::hex_of_bytes(
        crate::outside::sha256(vstd::utf8::encode_utf8(sync_id)).take(6),
    )
}

/// The result with one more failure; only the first few are told.
pub open spec fn with_failure(s: ResultView, sync_id: Seq<char>, error: Seq<char>) -> ResultView {
    ResultView {
        failed: plus(s.failed, 1),
        errors: if s.errors.len() < MAX_REPORTED_ERRORS {
            s.errors.push(failure_name(sync_id) + ": "@ + error)
        } else {
            s.errors
        },
        ..s
    }
}

impl Default for ReconciliationResult {
    fn default() -> (r: ReconciliationResult)
        ensures
            r@ == (ResultView {
                received: 0,
                sent: 0,
                labels_received: 0,
                labels_sent: 0,
                failed: 0,
                total_records: 0,
                converged: false,
                local_revision: 0,
                remote_revision: 0,
                errors: Seq::empty(),
                differences: 0,
            }),
    {
        let r = ReconciliationResult {
            received: 0,
            sent: 0,
            labels_received: 0,
            labels_sent: 0,
            failed: 0,
            total_records: 0,
            converged: false,
            local_revision: 0,
            remote_revision: 0,
            errors: Vec::new(),
            differences: 0,
        };
        assert(r@.errors =~= Seq::<Seq<char>>::empty());
        r
    }
}

impl ReconciliationResult {
    /// Counts a failure.
    pub fn failure(&mut self, sync_id: &str, error: &str)
        ensures
            final(self)@ == with_failure(old(self)@, sync_id@, error@),
    {
        let ghost before = self@;
        self.failed = self.failed.saturating_add(1);
        if self.errors.len() < MAX_REPORTED_ERRORS {
            let digest = sha256_digest(sync_id.as_bytes());
            let head = vstd::slice::slice_subrange(digest.as_slice(), 0, 6);
            let mut message = hex_bytes(head);
            message.append(": ");
            message.append(error);
            let ghost told = message@;
            assert(digest@.subrange(0, 6) =~= digest@.take(6));
            self.errors.push(message);
            assert(self@.errors =~= before.errors.push(told));
        }
    }

    /// Counts labels that were taken from the other device.
    pub fn labels_taken(&mut self, changed: usize)
        ensures
            final(self)@ == (ResultView {
                labels_received: plus(old(self)@.labels_received, changed),
                differences: plus(old(self)@.differences, changed),
                ..old(self)@
            }),
    {
        self.labels_received = self.labels_received.saturating_add(changed);
        self.differences = self.differences.saturating_add(changed);
    }

    /// Counts labels that were offered to the other device, of which `changed`
    /// were new to it.
    pub fn labels_given(&mut self, changed: u32, offered: usize)
        ensures
            final(self)@ == (ResultView {
                labels_sent: plus(old(self)@.labels_sent, changed as usize),
                differences: plus(old(self)@.differences, offered),
                ..old(self)@
            }),
    {
        self.labels_sent = self.labels_sent.saturating_add(changed as usize);
        self.differences = self.differences.saturating_add(offered);
    }

    /// Counts an entry that was taken from the other device: whether it was new,
    /// or why it could not be taken.
    pub fn record_taken(&mut self, sync_id: &str, outcome: Result<bool, String>)
        ensures
            final(self)@ == match outcome {
                Ok(true) => ResultView { received: plus(old(self)@.received, 1), ..old(self)@ },
                Ok(false) => old(self)@,
                Err(error) => with_failure(old(self)@, sync_id@, error@),
            },
    {
        match outcome {
            Ok(true) => {
                self.received = self.received.saturating_add(1);
            },
            Ok(false) => {},
            Err(error) => {
                self.failure(sync_id, error.as_str());
            },
        }
    }

    /// Counts an entry that was given to the other device: whether it was new,
    /// or why it could not be given.
    pub fn record_given(&mut self, sync_id: &str, outcome: Result<bool, String>)
        ensures
            final(self)@ == match outcome {
                Ok(true) => ResultView { sent: plus(old(self)@.sent, 1), ..old(self)@ },
                Ok(false) => old(self)@,
                Err(error) => with_failure(old(self)@, sync_id@, error@),
            },
    {
        match outcome {
            Ok(true) => {
                self.sent = self.sent.saturating_add(1);
            },
            Ok(false) => {},
            Err(error) => {
                self.failure(sync_id, error.as_str());
            },
        }
    }

    /// Takes note of how many entries this device has.
    pub fn count_records(&mut self, local: &Manifest)
        ensures
            final(self)@ == (ResultView {
                total_records: crate::replication::count_present(local@) as usize,
                ..old(self)@
            }),
            final(self)@.total_records == crate::replication::count_present(local@),
    {
        self.total_records = local.present();
    }

    /// Closes a comparison without failures: it settles the matter if it found
    /// no difference and neither device changed meanwhile.
    pub fn close_pass(&mut self, before: &PassStart, local_after: u64, remote_after: u64) -> (r: bool)
        requires
            old(self)@.failed == 0,
        ensures
            r == final(self)@.converged,
            final(self)@ == if before.differences == old(self)@.differences && before.local
                == local_after && before.remote == remote_after {
                ResultView {
                    converged: true,
                    local_revision: local_after,
                    remote_revision: remote_after,
                    ..old(self)@
                }
            } else {
                old(self)@
            },
    {
        if before.differences == self.differences && before.local == local_after && before.remote
            == remote_after {
            self.converged = true;
            self.local_revision = local_after;
            self.remote_revision = remote_after;
        }
        self.converged
    }

    /// Decides whether the two devices are compared once more after `passes`
    /// comparisons, of which the last one settled the matter, or did not, or
    /// broke off with an error.
    pub fn another_pass(&mut self, outcome: Result<bool, String>, passes: usize) -> (r: bool)
        ensures
            final(self)@ == match outcome {
                Ok(_) => old(self)@,
                Err(error) => with_failure(old(self)@, "connection"@, error@),
            },
            r == (outcome == Ok::<bool, String>(false) && old(self)@.failed == 0 && passes
                < MAX_PASSES),
    {
        match outcome {
            Ok(settled) => !settled && self.failed == 0 && passes < MAX_PASSES,
            Err(error) => {
                self.failure("connection", error.as_str());
                false
            },
        }
    }
}

/// The state in which a comparison begins.
#[derive(Debug, Clone, Copy, PartialEq, Eq, Structural)]
pub struct PassStart {
    pub local: u64,
    pub remote: u64,
    pub differences: usize,
}

/// The version of a label.
#[derive(Debug, PartialEq, Eq)]
pub struct LabelVersion {
    pub revision: u64,
    pub updated_by_device_id: String,
}

/// The labels of the other device, each with its version.
pub struct LabelTable {
    versions: StringHashMap<LabelVersion>,
}

/// True when a device has this label in this version or a newer one.
pub open spec fn has_label(table: Map<Seq<char>, LabelVersion>, label: domain::ClipboardLabel)
    -> bool {
    table.contains_key(label.id@) && !crate::replication::older(
        table[label.id@].revision,
        table[label.id@].updated_by_device_id@,
        label.revision,
        label.updated_by_device_id@,
    )
}

/// The labels that a device lacks, in this version or a newer one.
pub open spec fn missing_labels(
    labels: Seq<domain::ClipboardLabel>,
    table: Map<Seq<char>, LabelVersion>,
) -> Seq<domain::ClipboardLabel>
    decreases labels.len(),
{
    if labels.len() == 0 {
        Seq::empty()
    } else if has_label(table, labels.last()) {
        missing_labels(labels.drop_last(), table)
    } else {
        missing_labels(labels.drop_last(), table).push(labels.last())
    }
}

impl LabelTable {
    pub closed spec fn view(&self) -> Map<Seq<char>, LabelVersion> {
        self.versions@
    }

    pub fn new() -> (r: LabelTable)
        ensures
            r@ == Map::<Seq<char>, LabelVersion>::empty(),
    {
        LabelTable { versions: StringHashMap::new() }
    }

    /// The number of labels.
    pub fn len(&self) -> (r: usize)
        ensures
            r == self@.len(),
    {
        self.versions.len()
    }

    /// Takes note of a label; it replaces the one with the same identifier.
    pub fn insert(&mut self, label: &domain::ClipboardLabel)
        ensures
            final(self)@ == old(self)@.insert(
                label.id@,
                (LabelVersion {
                    revision: label.revision,
                    updated_by_device_id: label.updated_by_device_id,
                }),
            ),
    {
        let version = LabelVersion {
            revision: label.revision,
            updated_by_device_id: label.updated_by_device_id.clone(),
        };
        self.versions.insert(label.id.clone(), version);
    }

    /// Tells whether the other device has this label in this version or a newer
    /// one.
    pub fn has(&self, label: &domain::ClipboardLabel) -> (r: bool)
        ensures
            r == has_label(self@, *label),
    {
        match self.versions.get(label.id.as_str()) {
            None => false,
            Some(version) => !(version.revision < label.revision || (version.revision
                == label.revision && str_less(
                version.updated_by_device_id.as_str(),
                label.updated_by_device_id.as_str(),
            ))),
        }
    }
}

/// The labels that the other device lacks.
pub fn labels_to_send(labels: Vec<domain::ClipboardLabel>, remote: &LabelTable) -> (r: Vec<
    domain::ClipboardLabel,
>)
    ensures
        r@ == missing_labels(labels@, remote@),
{
    let ghost all = labels@;
    let mut out: Vec<domain::ClipboardLabel> = Vec::new();
    for label in it: labels.into_iter()
        invariant
            it.seq() == all,
            all == labels@,
            out@ == missing_labels(all.take(it.index()), remote@),
    {
        let ghost n = it.index() as int;
        proof {
            assert(all.take(n + 1).drop_last() =~= all.take(n));
            assert(all.take(n + 1).last() == all[n]);
        }
        if !remote.has(&label) {
            out.push(label);
        }
    }
    assert(all.take(all.len() as int) =~= all);
    out
}

/// Labels in batches of as many as a page has.
pub open spec fn batches(labels: Seq<domain::ClipboardLabel>) -> Seq<Seq<proto::ClipboardLabel>>
    decreases labels.len(),
{
    if labels.len() == 0 {
        Seq::empty()
    } else if labels.len() <= PAGE_LIMIT {
        seq![crate::proto_msg::wire_labels(labels)]
    } else {
        seq![crate::proto_msg::wire_labels(labels.take(PAGE_LIMIT as int))] + batches(
            labels.skip(PAGE_LIMIT as int),
        )
    }
}

/// Batches as mathematical values.
pub open spec fn batch_views(list: Seq<Vec<proto::ClipboardLabel>>) -> Seq<
    Seq<proto::ClipboardLabel>,
> {
    list.map_values(|b: Vec<proto::ClipboardLabel>| b@)
}

/// What batches hold together.
pub open spec fn flat(list: Seq<Seq<proto::ClipboardLabel>>) -> Seq<proto::ClipboardLabel>
    decreases list.len(),
{
    if list.len() == 0 {
        Seq::empty()
    } else {
        list[0] + flat(list.skip(1))
    }
}

/// The batches hold together all labels in their order; none is empty, and none
/// is larger than a page.
pub proof fn lemma_batches(labels: Seq<domain::ClipboardLabel>)
    ensures
        flat(batches(labels)) == crate::proto_msg::wire_labels(labels),
        forall|i: int|
            0 <= i < batches(labels).len() ==> 0 < (#[trigger] batches(labels)[i]).len()
                <= PAGE_LIMIT,
    decreases labels.len(),
{
    let all = batches(labels);
    if labels.len() == 0 {
        assert(flat(all) =~= crate::proto_msg::wire_labels(labels));
    } else if labels.len() <= PAGE_LIMIT {
        assert(all.skip(1) =~= Seq::<Seq<proto::ClipboardLabel>>::empty());
        assert(flat(all.skip(1)) =~= Seq::<proto::ClipboardLabel>::empty());
        assert(flat(all) =~= crate::proto_msg::wire_labels(labels));
    } else {
        let rest = labels.skip(PAGE_LIMIT as int);
        lemma_batches(rest);
        assert(all.skip(1) =~= batches(rest));
        assert(flat(all) =~= crate::proto_msg::wire_labels(labels));
        assert forall|i: int| 0 <= i < all.len() implies 0 < (#[trigger] all[i]).len()
            <= PAGE_LIMIT by {
            if i > 0 {
                assert(all[i] == batches(rest)[i - 1]);
            }
        }
    }
}

/// Puts labels into batches.
pub fn label_batches(labels: Vec<domain::ClipboardLabel>) -> (r: Vec<Vec<proto::ClipboardLabel>>)
    ensures
        batch_views(r@) == batches(labels@),
{
    let ghost all = labels@;
    let mut done: Vec<Vec<proto::ClipboardLabel>> = Vec::new();
    let mut batch: Vec<proto::ClipboardLabel> = Vec::new();
    let ghost mut start: int = 0;
    proof {
        assert(all.skip(0) =~= all);
        assert(batch_views(done@) + batches(all) =~= batches(all));
        assert(batch@ =~= crate::proto_msg::wire_labels(all.subrange(0, 0)));
    }
    for label in it: labels.into_iter()
        invariant
            it.seq() == all,
            all == labels@,
            0 <= start <= it.index(),
            it.index() - start <= PAGE_LIMIT,
            it.index() == start ==> start == 0,
            batch@ == crate::proto_msg::wire_labels(all.subrange(start, it.index() as int)),
            batches(all) == batch_views(done@) + batches(all.skip(start)),
    {
        let ghost n = it.index() as int;
        if batch.len() == PAGE_LIMIT {
            let mut full: Vec<proto::ClipboardLabel> = Vec::new();
            std::mem::swap(&mut full, &mut batch);
            let ghost before = done@;
            let ghost view = full@;
            done.push(full);
            proof {
                let left = all.skip(start);
                assert(left.len() > PAGE_LIMIT);
                assert(left.take(PAGE_LIMIT as int) =~= all.subrange(start, n));
                assert(left.skip(PAGE_LIMIT as int) =~= all.skip(n));
                assert(batch_views(done@) =~= batch_views(before).push(view));
                assert(batch_views(before).push(view) + batches(all.skip(n)) =~= batch_views(before)
                    + (seq![view] + batches(all.skip(n))));
                start = n;
                assert(batch@ =~= crate::proto_msg::wire_labels(all.subrange(n, n)));
            }
        }
        batch.push(label_to_wire(label));
        assert(batch@ =~= crate::proto_msg::wire_labels(all.subrange(start, n + 1)));
    }
    proof {
        assert(all.subrange(start, all.len() as int) =~= all.skip(start));
    }
    if batch.len() > 0 {
        let ghost before = done@;
        let ghost view = batch@;
        done.push(batch);
        proof {
            assert(batch_views(done@) =~= batch_views(before).push(view));
            assert(batch_views(before).push(view) =~= batch_views(before) + seq![view]);
        }
    } else {
        assert(batches(all.skip(start)) =~= Seq::empty());
        assert(batch_views(done@) + Seq::<Seq<proto::ClipboardLabel>>::empty() =~= batch_views(
            done@,
        ));
    }
    done
}

/// Checks the place where the next page of labels begins: it comes after the
/// place where this page began, and there are not too many labels.
pub fn check_label_cursor(next: &str, current: &str, known: usize) -> (r: Result<(), &'static str>)
    ensures
        if crate::text::text_less(current@, next@) && known <= MAX_LABELS {
            r is Ok
        } else {
            r is Err && r->Err_0@ == "invalid clipboard labels cursor"@
        },
{
    if !str_less(current, next) || known > MAX_LABELS {
        return Err("invalid clipboard labels cursor");
    }
    Ok(())
}

/// True when a place in the history comes before another one on the way from the
/// newest entry to the oldest.
pub open spec fn goes_on(
    old_cursor: proto::ClipboardReplicaCursor,
    next: proto::ClipboardReplicaCursor,
) -> bool {
    crate::replication::stamp_less(
        next.captured_at_ms as int,
        next.sync_id@,
        old_cursor.captured_at_ms as int,
        old_cursor.sync_id@,
    )
}

/// Checks the place where the next page of the history begins.
pub fn check_manifest_cursor(
    current: &Option<proto::ClipboardReplicaCursor>,
    next: &proto::ClipboardReplicaCursor,
) -> (r: Result<(), &'static str>)
    ensures
        if current is None || goes_on(current->0, *next) {
            r is Ok
        } else {
            r is Err && r->Err_0@ == "invalid clipboard manifest cursor"@
        },
{
    match current {
        None => Ok(()),
        Some(current) => {
            let on = next.captured_at_ms < current.captured_at_ms || (next.captured_at_ms
                == current.captured_at_ms && str_less(
                next.sync_id.as_str(),
                current.sync_id.as_str(),
            ));
            if on {
                Ok(())
            } else {
                Err("invalid clipboard manifest cursor")
            }
        },
    }
}

/// Adds an entry to those that a device has, of which there may not be too many.
pub fn remember(manifest: &mut Manifest, record: domain::ClipboardReplicaRecord) -> (r: Result<
    (),
    &'static str,
>)
    requires
        old(manifest).wf(),
    ensures
        final(manifest).wf(),
        final(manifest)@ == crate::replication::with_record(old(manifest)@, record),
        if final(manifest)@.len() > MAX_MANIFEST_RECORDS {
            r is Err && r->Err_0@ == "clipboard manifest exceeds safety limit"@
        } else {
            r is Ok
        },
{
    manifest.insert(record);
    if manifest.len() > MAX_MANIFEST_RECORDS {
        return Err("clipboard manifest exceeds safety limit");
    }
    Ok(())
}

/// What is done with an entry of the other device.
#[derive(Debug)]
pub enum RemoteStep {
    /// It is not proper.
    Skip,
    /// It brings nothing new.
    Keep { record: domain::ClipboardReplicaRecord },
    /// It is to be taken, with its content if that has to be brought.
    Take { record: domain::ClipboardReplicaRecord, fetch: bool },
}

/// The identifier that an entry names, if any.
pub open spec fn named_id(header: proto::ClipboardReplicaRecord) -> Seq<char> {
    match header.metadata {
        Some(m) => m.sync_id@,
        None => Seq::empty(),
    }
}

/// True when this device has all that an entry could bring.
pub open spec fn has_all(
    records: Seq<domain::ClipboardReplicaRecord>,
    record: domain::ClipboardReplicaRecord,
) -> bool {
    match crate::replication::lookup(records, record.record.sync_id@) {
        Some(own) => crate::replication::covered(own, record),
        None => false,
    }
}

/// True when an entry of the other device that arrived at `now` is compared with
/// what this device has: `r` is what is done with it, and `after` is what
/// becomes of the result `before`.
pub open spec fn compares_remote(
    r: RemoteStep,
    before: ResultView,
    after: ResultView,
    local: Seq<domain::ClipboardReplicaRecord>,
    header: proto::ClipboardReplicaRecord,
    now: i64,
) -> bool {
    match crate::replication_wire::metadata_fault(header, now) {
        Some(fault) => r is Skip && after == with_failure(before, named_id(header), fault),
        None => match r {
            RemoteStep::Skip => false,
            RemoteStep::Keep { record } => {
                &&& crate::replication_wire::reads_metadata(record, header)
                &&& has_all(local, record)
                &&& after == before
            },
            RemoteStep::Take { record, fetch } => {
                &&& crate::replication_wire::reads_metadata(record, header)
                &&& !has_all(local, record)
                &&& fetch == crate::replication::payload_needed(
                    crate::replication::lookup(local, record.record.sync_id@),
                    record,
                )
                &&& after == (ResultView { differences: plus(before.differences, 1), ..before })
            },
        },
    }
}

/// Compares an entry of the other device that arrived at `now` with what this
/// device has.
pub fn compare_remote(
    result: &mut ReconciliationResult,
    local: &Manifest,
    header: proto::ClipboardReplicaRecord,
    no_syntax: Option<String>,
    now: i64,
) -> (r: RemoteStep)
    requires
        local.wf(),
    ensures
        compares_remote(r, old(result)@, final(result)@, local@, header, now),
{
    let id = match &header.metadata {
        Some(m) => m.sync_id.clone(),
        None => String::new(),
    };
    assert(id@ == named_id(header));
    let record = match metadata_from_wire_at(header, no_syntax, now) {
        Err(fault) => {
            result.failure(id.as_str(), fault);
            return RemoteStep::Skip;
        },
        Ok(record) => record,
    };
    let own = local.get(record.record.sync_id.as_str());
    let known = match own {
        Some(own) => covers(own, &record),
        None => false,
    };
    if known {
        return RemoteStep::Keep { record };
    }
    let fetch = needs_payload(own, &record);
    result.differences = result.differences.saturating_add(1);
    RemoteStep::Take { record, fetch }
}

/// True when an entry of this device is compared with what the other one has:
/// `r` tells whether it is to be given, and then whether with its content, and
/// `after` is what becomes of the result `before`.
pub open spec fn compares_local(
    r: Option<bool>,
    before: ResultView,
    after: ResultView,
    remote: Seq<domain::ClipboardReplicaRecord>,
    record: domain::ClipboardReplicaRecord,
) -> bool {
    if has_all(remote, record) {
        r is None && after == before
    } else {
        &&& r == Some(
            crate::replication::payload_needed(
                crate::replication::lookup(remote, record.record.sync_id@),
                record,
            ),
        )
        &&& after == (ResultView { differences: plus(before.differences, 1), ..before })
    }
}

/// Compares an entry of this device with what the other one has.
pub fn compare_local(
    result: &mut ReconciliationResult,
    remote: &Manifest,
    record: &domain::ClipboardReplicaRecord,
) -> (r: Option<bool>)
    requires
        remote.wf(),
    ensures
        compares_local(r, old(result)@, final(result)@, remote@, *record),
{
    let other = remote.get(record.record.sync_id.as_str());
    let known = match other {
        Some(other) => covers(other, record),
        None => false,
    };
    if known {
        return None;
    }
    let include_payload = needs_payload(other, record);
    result.differences = result.differences.saturating_add(1);
    Some(include_payload)
}

/// A comparison that finds no difference and no failure has looked only at
/// entries of which both devices have all that they could bring each other.
pub proof fn lemma_no_difference(
    remote_step: RemoteStep,
    local_step: Option<bool>,
    start: ResultView,
    between: ResultView,
    end: ResultView,
    local: Seq<domain::ClipboardReplicaRecord>,
    remote: Seq<domain::ClipboardReplicaRecord>,
    header: proto::ClipboardReplicaRecord,
    record: domain::ClipboardReplicaRecord,
    now: i64,
)
    requires
        compares_remote(remote_step, start, between, local, header, now),
        compares_local(local_step, between, end, remote, record),
        end.differences == start.differences < usize::MAX,
        end.failed == start.failed < usize::MAX,
    ensures
        remote_step is Keep,
        has_all(local, remote_step->Keep_record),
        crate::replication_wire::reads_metadata(remote_step->Keep_record, header),
        local_step is None,
        has_all(remote, record),
        end == start,
{
}

/// The labels that are named by an entry.
pub open spec fn used_labels(
    labels: Seq<domain::ClipboardLabel>,
    memberships: Seq<domain::ClipboardLabelMembership>,
) -> Seq<domain::ClipboardLabel>
    decreases labels.len(),
{
    if labels.len() == 0 {
        Seq::empty()
    } else if uses(memberships, labels.last()) {
        used_labels(labels.drop_last(), memberships).push(labels.last())
    } else {
        used_labels(labels.drop_last(), memberships)
    }
}

/// True when an entry names a label.
pub open spec fn uses(
    memberships: Seq<domain::ClipboardLabelMembership>,
    label: domain::ClipboardLabel,
) -> bool {
    exists|i: int| 0 <= i < memberships.len() && (#[trigger] memberships[i]).label_id@ == label.id@
}

fn is_used(memberships: &Vec<domain::ClipboardLabelMembership>, label: &domain::ClipboardLabel)
    -> (r: bool)
    ensures
        r == uses(memberships@, *label),
{
    let mut i: usize = 0;
    while i < memberships.len()
        invariant
            i <= memberships@.len(),
            forall|k: int| 0 <= k < i ==> (#[trigger] memberships@[k]).label_id@ != label.id@,
        decreases memberships@.len() - i,
    {
        if str_eq(memberships[i].label_id.as_str(), label.id.as_str()) {
            return true;
        }
        i += 1;
    }
    false
}

fn copy_label(label: &domain::ClipboardLabel) -> (r: domain::ClipboardLabel)
    ensures
        r == *label,
{
    domain::ClipboardLabel {
        id: label.id.clone(),
        name: label.name.clone(),
        color: label.color.clone(),
        revision: label.revision,
        updated_by_device_id: label.updated_by_device_id.clone(),
        deleted: label.deleted,
    }
}

fn referenced_labels(record: &domain::ClipboardSyncRecord) -> (r: Vec<domain::ClipboardLabel>)
    ensures
        r@ == used_labels(record.labels@, record.label_memberships@),
{
    let mut out: Vec<domain::ClipboardLabel> = Vec::new();
    let mut i: usize = 0;
    while i < record.labels.len()
        invariant
            i <= record.labels@.len(),
            out@ == used_labels(record.labels@.take(i as int), record.label_memberships@),
        decreases record.labels@.len() - i,
    {
        proof {
            assert(record.labels@.take(i as int + 1).drop_last() =~= record.labels@.take(i as int));
            assert(record.labels@.take(i as int + 1).last() == record.labels@[i as int]);
        }
        if is_used(&record.label_memberships, &record.labels[i]) {
            out.push(copy_label(&record.labels[i]));
        }
        i += 1;
    }
    assert(record.labels@.take(i as int) =~= record.labels@);
    out
}

/// How an entry is given to the other device: first it may be asked for room,
/// then it is told the labels that the entry names, and then it is sent the
/// entry.
#[derive(Debug)]
pub struct SendPlan {
    pub check: Option<proto::ClipboardReplicaRecord>,
    pub definitions: Vec<Vec<proto::ClipboardLabel>>,
    pub store: Result<EncodedRecord, &'static str>,
}

/// True when `plan` gives an entry to the other device. The content of an entry
/// that is not live is announced first, and only the labels that the entry names
/// go with it.
pub open spec fn plans(
    plan: SendPlan,
    replica: domain::ClipboardReplicaRecord,
    include_payload: bool,
) -> bool {
    let r = replica.record;
    &&& plan.check is Some == (include_payload && !r.live)
    &&& plan.check is Some ==> crate::replication_wire::shows_metadata(plan.check->0, replica)
        && plan.check->0.metadata_only && plan.check->0.parts@.len() == 0
    &&& batch_views(plan.definitions@) == batches(used_labels(r.labels@, r.label_memberships@))
    &&& if include_payload {
        match crate::replication_wire::parts_of(r) {
            Err(fault) => plan.store is Err && plan.store->Err_0@ == fault,
            Ok(parts) => plan.store is Ok && crate::replication_wire::encodes(
                plan.store->Ok_0,
                replica,
                parts,
            ),
        }
    } else {
        &&& plan.store is Ok
        &&& crate::replication_wire::shows_metadata(plan.store->Ok_0.header, replica)
        &&& plan.store->Ok_0.header.metadata_only
        &&& plan.store->Ok_0.header.parts@.len() == 0
        &&& plan.store->Ok_0.parts@.len() == 0
    }
}

/// Plans how an entry is given to the other device.
pub fn plan_send(replica: domain::ClipboardReplicaRecord, include_payload: bool) -> (r: SendPlan)
    ensures
        plans(r, replica, include_payload),
{
    let check = if include_payload && !replica.record.live {
        Some(metadata_copy(&replica))
    } else {
        None
    };
    let definitions = label_batches(referenced_labels(&replica.record));
    let store = if include_payload {
        encode_record(replica)
    } else {
        Ok(EncodedRecord { header: metadata_to_wire(replica), parts: Vec::new() })
    };
    SendPlan { check, definitions, store }
}

/// What a device answers.
#[derive(Debug)]
pub enum ReplicaResponse {
    Revision(u64),
    Page(ReplicaPage),
    Record(proto::ClipboardReplicaRecord),
    Changed(u32),
    Labels { labels: Vec<proto::ClipboardLabel>, next_cursor: Option<String> },
}

/// Reads an answer: its status, and what it says.
pub fn read_response(status: Option<Status>, body: Option<ReplicaResponse>) -> (r: Result<
    ReplicaResponse,
    String,
>)
    ensures
        match status {
            None => r is Err && r->Err_0@ == "clipboard response has no status"@,
            Some(status) => if status.code != ErrorCode::Success {
                r is Err && r->Err_0@ == status.message@
            } else {
                match body {
                    None => r is Err && r->Err_0@ == "clipboard response has no body"@,
                    Some(body) => r == Ok::<ReplicaResponse, String>(body),
                }
            },
        },
{
    match status {
        None => Err("clipboard response has no status".to_owned()),
        Some(status) => {
            if status.code != ErrorCode::Success {
                return Err(status.message);
            }
            match body {
                None => Err("clipboard response has no body".to_owned()),
                Some(body) => Ok(body),
            }
        },
    }
}

/// Reads a revision.
pub fn expect_revision(body: ReplicaResponse) -> (r: Result<u64, &'static str>)
    ensures
        match body {
            ReplicaResponse::Revision(revision) => r == Ok::<u64, &'static str>(revision),
            _ => r is Err && r->Err_0@ == "invalid clipboard revision response"@,
        },
{
    match body {
        ReplicaResponse::Revision(revision) => Ok(revision),
        _ => Err("invalid clipboard revision response"),
    }
}

/// Reads the header of an entry that was asked for.
pub fn expect_record(body: ReplicaResponse, sync_id: &str) -> (r: Result<
    proto::ClipboardReplicaRecord,
    &'static str,
>)
    ensures
        match body {
            ReplicaResponse::Record(header) => if header.metadata is Some
                && header.metadata->0.sync_id@ == sync_id@ {
                r == Ok::<proto::ClipboardReplicaRecord, &'static str>(header)
            } else {
                r is Err && r->Err_0@ == "clipboard response record mismatch"@
            },
            _ => r is Err && r->Err_0@ == "invalid clipboard record response"@,
        },
{
    match body {
        ReplicaResponse::Record(header) => {
            let same = match &header.metadata {
                Some(m) => str_eq(m.sync_id.as_str(), sync_id),
                None => false,
            };
            if !same {
                return Err("clipboard response record mismatch");
            }
            Ok(header)
        },
        _ => Err("invalid clipboard record response"),
    }
}

/// Reads whether an entry was new to the other device.
pub fn expect_receipt(body: ReplicaResponse) -> (r: Result<bool, &'static str>)
    ensures
        match body {
            ReplicaResponse::Changed(changed) => r == Ok::<bool, &'static str>(changed > 0),
            _ => r is Err && r->Err_0@ == "invalid clipboard receipt"@,
        },
{
    match body {
        ReplicaResponse::Changed(changed) => Ok(changed > 0),
        _ => Err("invalid clipboard receipt"),
    }
}

/// Reads how many labels were new to the other device.
pub fn expect_label_receipt(body: ReplicaResponse) -> (r: Result<u32, &'static str>)
    ensures
        match body {
            ReplicaResponse::Changed(changed) => r == Ok::<u32, &'static str>(changed),
            _ => r is Err && r->Err_0@ == "invalid clipboard label receipt"@,
        },
{
    match body {
        ReplicaResponse::Changed(changed) => Ok(changed),
        _ => Err("invalid clipboard label receipt"),
    }
}

/// Reads a page of the history.
pub fn expect_page(body: ReplicaResponse) -> (r: Result<ReplicaPage, &'static str>)
    ensures
        match body {
            ReplicaResponse::Page(page) => r == Ok::<ReplicaPage, &'static str>(page),
            _ => r is Err && r->Err_0@ == "invalid clipboard manifest response"@,
        },
{
    match body {
        ReplicaResponse::Page(page) => Ok(page),
        _ => Err("invalid clipboard manifest response"),
    }
}

/// A page of labels that was read.
#[derive(Debug)]
pub struct ReadLabels {
    pub labels: Vec<domain::ClipboardLabel>,
    pub next_cursor: Option<String>,
}

/// True when every label is proper.
pub open spec fn labels_ok(labels: Seq<proto::ClipboardLabel>) -> bool {
    forall|i: int|
        0 <= i < labels.len() ==> crate::replication_wire::label_ok(#[trigger] labels[i])
}

/// Reads a page of labels.
pub fn expect_labels(body: ReplicaResponse) -> (r: Result<ReadLabels, &'static str>)
    ensures
        match body {
            ReplicaResponse::Labels { labels, next_cursor } => if labels_ok(labels@) {
                &&& r is Ok
                &&& r->Ok_0.labels@ == crate::replication_service::meant_labels(labels@)
                &&& r->Ok_0.next_cursor == next_cursor
            } else {
                r is Err && r->Err_0@ == "invalid clipboard label metadata"@
            },
            _ => r is Err && r->Err_0@ == "invalid clipboard labels response"@,
        },
{
    match body {
        ReplicaResponse::Labels { labels, next_cursor } => {
            let ghost all = labels@;
            let mut out: Vec<domain::ClipboardLabel> = Vec::new();
            assert(out@ =~= crate::replication_service::meant_labels(all.take(0)));
            for label in it: labels.into_iter()
                invariant
                    it.seq() == all,
                    all == labels@,
                    body == (ReplicaResponse::Labels { labels, next_cursor }),
                    out@ == crate::replication_service::meant_labels(all.take(it.index())),
                    forall|k: int|
                        0 <= k < it.index() ==> crate::replication_wire::label_ok(
                            #[trigger] all[k],
                        ),
            {
                let ghost n = it.index() as int;
                match label_from_wire(label) {
                    Err(fault) => {
                        assert(!crate::replication_wire::label_ok(all[n]));
                        return Err(fault);
                    },
                    Ok(label) => {
                        out.push(label);
                        assert(out@ =~= crate::replication_service::meant_labels(all.take(n + 1)));
                    },
                }
            }
            assert(all.take(all.len() as int) =~= all);
            Ok(ReadLabels { labels: out, next_cursor })
        },
        _ => Err("invalid clipboard labels response"),
    }
}

/// An entry of the other device that this one knows in an older version is taken,
/// and with its content unless it is deleted, whatever its kind is; it counts as a
/// difference.
pub proof fn lemma_newer_entries_are_taken(
    step: RemoteStep,
    before: ResultView,
    after: ResultView,
    local: Seq<domain::ClipboardReplicaRecord>,
    header: proto::ClipboardReplicaRecord,
    now: i64,
    i: int,
)
    requires
        compares_remote(step, before, after, local, header, now),
        crate::replication_wire::metadata_fault(header, now) is None,
        header.metadata is Some,
        crate::replication::distinct_records(local),
        0 <= i < local.len(),
        local[i].record.sync_id@ == header.metadata->0.sync_id@,
        local[i].record.revision < header.metadata->0.revision || (local[i].record.revision
            == header.metadata->0.revision && crate::text::text_less(
            local[i].record.updated_by_device_id@,
            header.metadata->0.updated_by_device_id@,
        )),
    ensures
        step is Take,
        step->fetch == !header.metadata->0.deleted,
        step->Take_record.record.sync_id@ == header.metadata->0.sync_id@,
        step->Take_record.record.revision == header.metadata->0.revision,
        before.differences < usize::MAX ==> after.differences == before.differences + 1,
{
    let id = header.metadata->0.sync_id@;
    assert(crate::replication::listed(local, id));
    assert(crate::replication::place(local, id) == i);
    if step is Keep {
        crate::replication::lemma_covered_is_behind_in_nothing(local[i], step->Keep_record, 0);
    }
}

/// An entry of the other device that this one does not know is taken, and with its
/// content unless it is deleted.
pub proof fn lemma_unknown_entries_are_taken(
    step: RemoteStep,
    before: ResultView,
    after: ResultView,
    local: Seq<domain::ClipboardReplicaRecord>,
    header: proto::ClipboardReplicaRecord,
    now: i64,
)
    requires
        compares_remote(step, before, after, local, header, now),
        crate::replication_wire::metadata_fault(header, now) is None,
        header.metadata is Some,
        forall|i: int|
            0 <= i < local.len() ==> (#[trigger] local[i]).record.sync_id@
                != header.metadata->0.sync_id@,
    ensures
        step is Take,
        step->fetch == !header.metadata->0.deleted,
        before.differences < usize::MAX ==> after.differences == before.differences + 1,
{
}

/// An entry that this device has in a version that is not older is never brought
/// again with its content.
pub proof fn lemma_old_content_is_not_fetched(
    step: RemoteStep,
    before: ResultView,
    after: ResultView,
    local: Seq<domain::ClipboardReplicaRecord>,
    header: proto::ClipboardReplicaRecord,
    now: i64,
    i: int,
)
    requires
        compares_remote(step, before, after, local, header, now),
        header.metadata is Some,
        crate::replication::distinct_records(local),
        0 <= i < local.len(),
        local[i].record.sync_id@ == header.metadata->0.sync_id@,
        local[i].record.revision > header.metadata->0.revision || (local[i].record.revision
            == header.metadata->0.revision && local[i].record.updated_by_device_id@
            == header.metadata->0.updated_by_device_id@),
    ensures
        step is Take ==> !step->fetch,
{
    let id = header.metadata->0.sync_id@;
    assert(crate::replication::listed(local, id));
    assert(crate::replication::place(local, id) == i);
    crate::text::lemma_text_less_irreflexive(local[i].record.updated_by_device_id@);
}

/// An entry of this device that the other one knows in an older version is given,
/// and with its content unless it is deleted, whatever its kind is; it counts as a
/// difference.
pub proof fn lemma_newer_entries_are_given(
    r: Option<bool>,
    before: ResultView,
    after: ResultView,
    remote: Seq<domain::ClipboardReplicaRecord>,
    record: domain::ClipboardReplicaRecord,
    i: int,
)
    requires
        compares_local(r, before, after, remote, record),
        crate::replication::distinct_records(remote),
        0 <= i < remote.len(),
        remote[i].record.sync_id@ == record.record.sync_id@,
        remote[i].record.revision < record.record.revision || (remote[i].record.revision
            == record.record.revision && crate::text::text_less(
            remote[i].record.updated_by_device_id@,
            record.record.updated_by_device_id@,
        )),
    ensures
        r == Some(!record.record.deleted),
        before.differences < usize::MAX ==> after.differences == before.differences + 1,
{
    let id = record.record.sync_id@;
    assert(crate::replication::listed(remote, id));
    assert(crate::replication::place(remote, id) == i);
    if has_all(remote, record) {
        crate::replication::lemma_covered_is_behind_in_nothing(remote[i], record, 0);
    }
}

/// An entry of this device that the other one does not know is given, and with its
/// content unless it is deleted.
pub proof fn lemma_unknown_entries_are_given(
    r: Option<bool>,
    before: ResultView,
    after: ResultView,
    remote: Seq<domain::ClipboardReplicaRecord>,
    record: domain::ClipboardReplicaRecord,
)
    requires
        compares_local(r, before, after, remote, record),
        forall|i: int|
            0 <= i < remote.len() ==> (#[trigger] remote[i]).record.sync_id@
                != record.record.sync_id@,
    ensures
        r == Some(!record.record.deleted),
        before.differences < usize::MAX ==> after.differences == before.differences + 1,
{
}

/// A device that has all that an entry could bring has that entry, in a version
/// that is not older.
pub proof fn lemma_what_it_is_to_have_all(
    records: Seq<domain::ClipboardReplicaRecord>,
    record: domain::ClipboardReplicaRecord,
)
    requires
        has_all(records, record),
    ensures
        exists|i: int|
            0 <= i < records.len() && ({
                let own = (#[trigger] records[i]).record;
                &&& own.sync_id@ == record.record.sync_id@
                &&& own.revision >= record.record.revision
                &&& own.revision == record.record.revision ==> !crate::text::text_less(
                    own.updated_by_device_id@,
                    record.record.updated_by_device_id@,
                )
                &&& own.favorite_revision >= record.record.favorite_revision
                &&& own.captured_at_ms >= record.record.captured_at_ms
                &&& records[i].copy_count >= record.copy_count
            }),
{
    let i = crate::replication::place(records, record.record.sync_id@);
    crate::replication::lemma_covered_is_behind_in_nothing(records[i], record, 0);
    assert(records[i].record.sync_id@ == record.record.sync_id@);
}

/// A failure counts as one, is told under a name that hides the entry while there
/// are few, and changes nothing else.
pub proof fn lemma_failures_are_counted(s: ResultView, sync_id: Seq<char>, error: Seq<char>)
    ensures
        ({
            let after = with_failure(s, sync_id, error);
            &&& s.failed < usize::MAX ==> after.failed == s.failed + 1
            &&& after.failed >= s.failed && after.failed > 0
            &&& s.errors.is_prefix_of(after.errors)
            &&& after.errors.len() == s.errors.len() + if s.errors.len() < 8 {
                1int
            } else {
                0
            }
            &&& s.errors.len() < 8 ==> error.is_suffix_of(after.errors.last())
            &&& after.received == s.received && after.sent == s.sent
            &&& after.labels_received == s.labels_received && after.labels_sent == s.labels_sent
            &&& after.total_records == s.total_records && after.converged == s.converged
            &&& after.local_revision == s.local_revision
            &&& after.remote_revision == s.remote_revision
            &&& after.differences == s.differences
        }),
{
    let told = failure_name(sync_id) + ": "@ + error;
    assert(error =~= told.subrange(told.len() - error.len(), told.len() as int));
}

/// The labels that are offered to a device are those that it does not have or has
/// in an older version.
pub proof fn lemma_which_labels_are_missing(
    labels: Seq<domain::ClipboardLabel>,
    table: Map<Seq<char>, LabelVersion>,
    label: domain::ClipboardLabel,
)
    ensures
        missing_labels(labels, table).len() <= labels.len(),
        missing_labels(labels, table).contains(label) <==> labels.contains(label) && (
        !table.contains_key(label.id@) || table[label.id@].revision < label.revision || (
        table[label.id@].revision == label.revision && crate::text::text_less(
            table[label.id@].updated_by_device_id@,
            label.updated_by_device_id@,
        ))),
    decreases labels.len(),
{
    let missing = missing_labels(labels, table);
    if labels.len() > 0 {
        let rest = labels.drop_last();
        lemma_which_labels_are_missing(rest, table, label);
        let fewer = missing_labels(rest, table);
        assert(labels =~= rest.push(labels.last()));
        crate::keyed::lemma_push_contains(rest, labels.last(), label);
        crate::keyed::lemma_push_contains(fewer, labels.last(), label);
    }
}

/// The labels that go with an entry are those of its labels that it names.
pub proof fn lemma_which_labels_go_along(
    labels: Seq<domain::ClipboardLabel>,
    memberships: Seq<domain::ClipboardLabelMembership>,
    label: domain::ClipboardLabel,
)
    ensures
        used_labels(labels, memberships).len() <= labels.len(),
        used_labels(labels, memberships).contains(label) <==> labels.contains(label) && exists|
            i: int,
        |
            0 <= i < memberships.len() && (#[trigger] memberships[i]).label_id@ == label.id@,
    decreases labels.len(),
{
    if labels.len() > 0 {
        let rest = labels.drop_last();
        lemma_which_labels_go_along(rest, memberships, label);
        let fewer = used_labels(rest, memberships);
        assert(labels =~= rest.push(labels.last()));
        crate::keyed::lemma_push_contains(rest, labels.last(), label);
        crate::keyed::lemma_push_contains(fewer, labels.last(), label);
    }
}

/// A history goes on only backwards in time.
pub proof fn lemma_histories_go_back(
    at: proto::ClipboardReplicaCursor,
    next: proto::ClipboardReplicaCursor,
)
    ensures
        next.captured_at_ms < at.captured_at_ms ==> goes_on(at, next),
        next.captured_at_ms > at.captured_at_ms ==> !goes_on(at, next),
        next.captured_at_ms == at.captured_at_ms ==> goes_on(at, next)
            == crate::text::text_less(next.sync_id@, at.sync_id@),
        goes_on(at, next) ==> !goes_on(next, at),
{
    crate::text::lemma_text_less_irreflexive(at.sync_id@);
    if crate::text::text_less(next.sync_id@, at.sync_id@) && crate::text::text_less(
        at.sync_id@,
        next.sync_id@,
    ) {
        crate::text::lemma_text_less_transitive(at.sync_id@, next.sync_id@, at.sync_id@);
    }
}

/// An entry that is given without its content brings none, and one that is given
/// with it is announced first unless it is live.
pub proof fn lemma_plans_give_what_was_decided(
    plan: SendPlan,
    replica: domain::ClipboardReplicaRecord,
    include_payload: bool,
)
    requires
        plans(plan, replica, include_payload),
    ensures
        plan.check is Some <==> include_payload && !replica.record.live,
        plan.check is Some ==> plan.check->0.metadata_only && plan.check->0.parts@.len() == 0,
        !include_payload ==> plan.store is Ok && plan.store->Ok_0.header.metadata_only
            && plan.store->Ok_0.parts@.len() == 0,
        flat(batch_views(plan.definitions@)) == crate::proto_msg::wire_labels(
            used_labels(replica.record.labels@, replica.record.label_memberships@),
        ),
{
    lemma_batches(used_labels(replica.record.labels@, replica.record.label_memberships@));
}

/// What came of a reconciliation is what is told of it, each count in its place.
pub proof fn lemma_results_show_their_counts(r: ReconciliationResult)
    ensures
        r@.received == r.received,
        r@.sent == r.sent,
        r@.labels_received == r.labels_received,
        r@.labels_sent == r.labels_sent,
        r@.failed == r.failed,
        r@.total_records == r.total_records,
        r@.converged == r.converged,
        r@.local_revision == r.local_revision,
        r@.remote_revision == r.remote_revision,
        r@.differences == r.differences,
        r@.errors.len() == r.errors@.len(),
{
}

} // verus!
