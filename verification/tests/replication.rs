//! Replication of the clipboard between two devices.

use arcrelay_protocol::domain::{
    ClipboardContentKind, ClipboardLabel, ClipboardLabelMembership, ClipboardReplicaCursor,
    ClipboardReplicaRecord, ClipboardSyncChangeKind, ClipboardSyncRecord,
};
use arcrelay_protocol::proto;
use arcrelay_protocol::reconciliation::{
    check_label_cursor, check_manifest_cursor, expect_label_receipt, expect_labels, expect_page,
    expect_receipt, expect_record, expect_revision, labels_to_send, plan_send, read_response,
    remember, LabelTable, ReconciliationResult, ReplicaResponse,
};
use arcrelay_protocol::reconciler::{
    LocalPage, Reconciler, ReconcilerAction, ReconcilerEvent,
};
use arcrelay_protocol::replication::{covers, needs_payload, order_newest_first, Manifest};
use arcrelay_protocol::replication_service::{
    answer_fetch, check_enabled, cursor_from_wire, cursor_to_wire, cut_page, label_page,
    read_labels, replica_failure, replica_ok, serve_request, ReplicaRequest, ServeStep,
};
use arcrelay_protocol::replication_wire::{
    change_kind_from_number, change_kind_number, content_kind_from_number, content_kind_number,
    encode_record, label_from_wire, label_to_wire, metadata_copy, metadata_from_wire,
    metadata_from_wire_at, metadata_to_wire, part_chunks, start_receiving,
};
use arcrelay_protocol::status::ErrorCode;

const NOW: i64 = 1_700_100_000_000;
const CHUNK: usize = 32_768;

fn record(index: usize, device: &str) -> ClipboardReplicaRecord {
    ClipboardReplicaRecord {
        first_captured_at_ms: 1_700_000_000_000 + index as i64,
        copy_count: 1,
        record: ClipboardSyncRecord {
            sync_id: format!("{index:064x}"),
            kind: ClipboardContentKind::Text,
            text: Some(format!("record {index}")),
            html: None,
            rtf: None,
            image_png: None,
            width: None,
            height: None,
            preview: format!("record {index}"),
            source_app: Some("Test".into()),
            source_device_id: device.into(),
            source_device_name: device.into(),
            captured_at_ms: 1_700_000_000_000 + index as i64,
            revision: 1,
            updated_by_device_id: device.into(),
            favorite: false,
            favorite_revision: 1,
            favorite_updated_by_device_id: device.into(),
            labels: vec![],
            label_memberships: vec![],
            deleted: false,
            change_kind: ClipboardSyncChangeKind::Snapshot,
            live: false,
            text_syntax_json: None,
        },
    }
}

fn label(id: &str) -> ClipboardLabel {
    ClipboardLabel {
        id: id.into(),
        name: format!("项目 {id}"),
        color: "#3388ff".into(),
        revision: 1,
        updated_by_device_id: "left".into(),
        deleted: false,
    }
}

fn receive(
    header: proto::ClipboardReplicaRecord,
    parts: Vec<Vec<u8>>,
) -> Result<ClipboardReplicaRecord, String> {
    let mut receiver = start_receiving(header, None, NOW)?;
    for part in parts {
        if receiver.missing()?.is_none() {
            break;
        }
        for chunk in part_chunks(&part, CHUNK) {
            receiver.take_chunk(chunk)?;
        }
        if receiver.missing()? != Some(0) {
            return Err("the payload ended early".into());
        }
        receiver.close_part()?;
    }
    match receiver.missing()? {
        None => Ok(receiver.finish()?),
        Some(_) => Err("the payload ended early".into()),
    }
}

/// A device that keeps the newest of everything it is brought.
#[derive(Default)]
struct Device {
    records: Vec<ClipboardReplicaRecord>,
    labels: Vec<ClipboardLabel>,
    revision: u64,
    served: usize,
    /// Comes in after the next page of the history was told.
    after_scan: Option<ClipboardReplicaRecord>,
    /// Edits of entries that are known are not taken.
    refuses_edits: bool,
    /// Synchronization is switched off.
    disabled: bool,
}

impl Device {
    fn apply(&mut self, incoming: ClipboardReplicaRecord) -> bool {
        let id = incoming.record.sync_id.clone();
        let Some(current) = self.records.iter_mut().find(|r| r.record.sync_id == id) else {
            self.records.push(incoming);
            self.revision += 1;
            return true;
        };
        if covers(current, &incoming) {
            return false;
        }
        let mut merged = current.clone();
        let (a, b) = (&current.record, &incoming.record);
        if (a.revision, &a.updated_by_device_id) < (b.revision, &b.updated_by_device_id) {
            merged.record = b.clone();
        }
        let favorite = |r: &ClipboardSyncRecord| {
            (r.favorite_revision, r.favorite_updated_by_device_id.clone(), r.favorite)
        };
        let best = favorite(a).max(favorite(b));
        merged.record.favorite_revision = best.0;
        merged.record.favorite_updated_by_device_id = best.1;
        merged.record.favorite = best.2;
        merged.record.captured_at_ms = a.captured_at_ms.max(b.captured_at_ms);
        merged.first_captured_at_ms = current.first_captured_at_ms.min(incoming.first_captured_at_ms);
        merged.copy_count = current.copy_count.max(incoming.copy_count);
        let mut memberships = a.label_memberships.clone();
        for m in &b.label_memberships {
            match memberships.iter_mut().find(|x| x.label_id == m.label_id) {
                None => memberships.push(m.clone()),
                Some(x) => {
                    if (x.revision, &x.updated_by_device_id) < (m.revision, &m.updated_by_device_id) {
                        *x = m.clone();
                    }
                }
            }
        }
        merged.record.label_memberships = memberships;
        *current = merged;
        self.revision += 1;
        true
    }

    fn apply_labels(&mut self, labels: Vec<ClipboardLabel>) -> usize {
        let mut changed = 0;
        for label in labels {
            match self.labels.iter_mut().find(|l| l.id == label.id) {
                None => {
                    self.labels.push(label);
                    changed += 1;
                }
                Some(known) => {
                    if (known.revision, &known.updated_by_device_id)
                        < (label.revision, &label.updated_by_device_id)
                    {
                        *known = label;
                        changed += 1;
                    }
                }
            }
        }
        self.revision += changed as u64;
        changed
    }

    fn manifest(&self) -> Manifest {
        let mut manifest = Manifest::new();
        for record in &self.records {
            remember(&mut manifest, record.clone()).unwrap();
        }
        manifest
    }

    /// The device after a restart: all that it kept is read back.
    fn restarted(self) -> Device {
        let records = self.records.into_iter().map(|kept| {
            let mut read = metadata_from_wire_at(metadata_copy(&kept), None, NOW).unwrap();
            read.record.text = kept.record.text;
            read.record.image_png = kept.record.image_png;
            read
        });
        let labels = self.labels.into_iter().map(label_to_wire);
        Device {
            records: records.collect(),
            labels: labels.map(|kept| label_from_wire(kept).unwrap()).collect(),
            revision: self.revision,
            ..Device::default()
        }
    }

    fn find(&self, id: &str) -> Option<ClipboardReplicaRecord> {
        self.records.iter().find(|r| r.record.sync_id == id).cloned()
    }

    fn fetch(&mut self, id: &str) -> Result<ClipboardReplicaRecord, String> {
        self.served += 1;
        let encoded = answer_fetch(self.find(id), true)?;
        let header = expect_record(ReplicaResponse::Record(encoded.header), id)?;
        receive(header, encoded.parts)
    }

    fn store(
        &mut self,
        replica: ClipboardReplicaRecord,
        include_payload: bool,
    ) -> Result<bool, String> {
        if self.refuses_edits && self.find(&replica.record.sync_id).is_some() {
            return Err("edits are not synchronized".into());
        }
        let plan = plan_send(replica, include_payload);
        let encoded = plan.store?;
        let changed = match serve_request(
            Some(ReplicaRequest::Store { header: encoded.header }),
            None,
            NOW,
        )? {
            ServeStep::Receive { mut receiver } => {
                for part in encoded.parts {
                    receiver.missing()?;
                    for chunk in part_chunks(&part, CHUNK) {
                        receiver.take_chunk(chunk)?;
                    }
                    receiver.close_part()?;
                }
                self.apply(receiver.finish()?)
            }
            _ => panic!("unexpected step"),
        };
        Ok(expect_receipt(ReplicaResponse::Changed(changed as u32))?)
    }
}

impl Device {
    /// A page of the history, from the newest entry to the oldest.
    fn page(&self, cursor: Option<ClipboardReplicaCursor>, limit: usize) -> LocalPage {
        let manifest = self.manifest();
        let mut records = Vec::new();
        let mut next_cursor = None;
        for place in manifest.newest_first() {
            let entry = manifest.at(place);
            let stamp = (entry.record.captured_at_ms, entry.record.sync_id.clone());
            if cursor
                .as_ref()
                .is_some_and(|c| stamp >= (c.captured_at_ms, c.sync_id.clone()))
            {
                continue;
            }
            if records.len() == limit {
                let last: &ClipboardReplicaRecord = &records[limit - 1];
                next_cursor = Some(ClipboardReplicaCursor {
                    captured_at_ms: last.record.captured_at_ms,
                    sync_id: last.record.sync_id.clone(),
                });
                break;
            }
            records.push(entry.clone());
        }
        LocalPage { records, next_cursor }
    }

    fn answer(&mut self, request: ReplicaRequest) -> Result<ReplicaResponse, String> {
        if let Err(status) = check_enabled(!self.disabled) {
            return read_response(Some(status), None);
        }
        let body = match serve_request(Some(request), None, NOW)? {
            ServeStep::TellRevision => ReplicaResponse::Revision(self.revision),
            ServeStep::ReadPage { cursor, limit } => {
                let page = self.page(cursor, limit);
                let records: Vec<_> = page.records.into_iter().map(metadata_to_wire).collect();
                let sizes = vec![1; records.len()];
                if let Some(newest) = self.after_scan.take() {
                    self.apply(newest);
                }
                ReplicaResponse::Page(cut_page(records, &sizes, page.next_cursor, 1 << 20))
            }
            ServeStep::ListLabels { cursor } => {
                let page = label_page(self.labels.clone(), &cursor);
                ReplicaResponse::Labels {
                    labels: page.labels.into_iter().map(label_to_wire).collect(),
                    next_cursor: page.next_cursor,
                }
            }
            ServeStep::KeepLabels { labels } => {
                ReplicaResponse::Changed(self.apply_labels(labels) as u32)
            }
            _ => return Err("unexpected request".into()),
        };
        read_response(Some(replica_ok()), Some(body))
    }
}

fn reconcile(local: &mut Device, remote: &mut Device) -> ReconciliationResult {
    let (mut state, mut action) = Reconciler::new();
    loop {
        let event = match action {
            ReconcilerAction::Finish => return state.result,
            ReconcilerAction::GoOn => ReconcilerEvent::GoOn,
            ReconcilerAction::ReadRevision => {
                ReconcilerEvent::Revision { outcome: Ok(local.revision) }
            }
            ReconcilerAction::Ask { request } => {
                ReconcilerEvent::Answer { outcome: remote.answer(request) }
            }
            ReconcilerAction::KeepLabels { labels } => {
                ReconcilerEvent::LabelsKept { outcome: Ok(local.apply_labels(labels)) }
            }
            ReconcilerAction::ReadLabels => {
                ReconcilerEvent::Labels { outcome: Ok(local.labels.clone()) }
            }
            ReconcilerAction::ReadPage { cursor, limit } => {
                ReconcilerEvent::Page { outcome: Ok(local.page(cursor, limit)) }
            }
            ReconcilerAction::Take { fetch } => {
                let record = state.current().unwrap().clone();
                let brought = if fetch {
                    remote.fetch(&record.record.sync_id)
                } else {
                    Ok(record)
                };
                ReconcilerEvent::Moved { outcome: brought.map(|record| local.apply(record)) }
            }
            ReconcilerAction::Give { include_payload } => {
                let record = state.current().unwrap().clone();
                ReconcilerEvent::Moved { outcome: remote.store(record, include_payload) }
            }
        };
        (state, action) = state.advance(event, None, NOW);
    }
}

fn assert_same(left: &Device, right: &Device) {
    let list = |device: &Device| {
        let mut records = device.records.clone();
        records.sort_by(|a, b| a.record.sync_id.cmp(&b.record.sync_id));
        records
            .into_iter()
            .map(metadata_to_wire)
            .collect::<Vec<_>>()
    };
    assert_eq!(list(left), list(right));
}

#[test]
fn newest_first_history_exceeds_old_cache_and_repeated_sync_is_idempotent() {
    let mut left = Device::default();
    let mut right = Device::default();
    for index in 1..=305 {
        left.apply(record(index, "left"));
    }
    for index in 306..=311 {
        let mut image = record(index, "left");
        image.record.kind = ClipboardContentKind::Image;
        image.record.text = None;
        image.record.width = Some(16);
        image.record.height = Some(16);
        image.record.image_png = Some(vec![index as u8; 6 * 1024 * 1024]);
        left.apply(image);
    }
    let mut recent = record(1, "left");
    recent.record.captured_at_ms += 10_000;
    recent.record.revision = 9;
    recent.copy_count = 9;
    recent.record.favorite = true;
    recent.record.favorite_revision = 3;
    recent.record.label_memberships = vec![ClipboardLabelMembership {
        label_id: "tagged".into(),
        attached: true,
        revision: 2,
        updated_by_device_id: "left".into(),
    }];
    left.apply_labels(vec![label("tagged"), label("unused")]);
    left.apply(recent.clone());
    let mut long = record(312, "left");
    long.record.text = Some("x".repeat(900 * 1024));
    left.apply(long);
    let list = left.manifest();
    assert_eq!(
        list.at(list.newest_first()[0]).record.sync_id,
        recent.record.sync_id
    );
    let result = reconcile(&mut right, &mut left);
    assert!(result.converged, "{result:?}");
    assert_eq!(result.received, 312);
    assert_eq!(result.failed, 0);
    assert_eq!(result.labels_received, 2);
    assert_eq!(result.total_records, 312);
    assert_same(&left, &right);
    let item = right.find(&recent.record.sync_id).unwrap();
    assert_eq!(item.first_captured_at_ms, recent.first_captured_at_ms);
    assert_eq!(item.copy_count, 9);
    let fetches = left.served;
    for _ in 0..2 {
        let result = reconcile(&mut left, &mut right);
        assert!(result.converged);
        assert_eq!(
            result.received + result.sent + result.labels_received + result.labels_sent,
            0
        );
        assert_eq!(result.total_records, 312);
    }
    assert_eq!(
        left.served + right.served,
        fetches,
        "unchanged payloads must not be downloaded again"
    );
}

#[test]
fn three_device_union_converges_with_stable_order_regardless_of_insertion_order() {
    let mut devices = [Device::default(), Device::default(), Device::default()];
    for (device, indexes) in devices
        .iter_mut()
        .zip([vec![3, 1], vec![2, 3], vec![4, 2, 1]])
    {
        for index in indexes {
            let mut r = record(index, "origin");
            r.record.captured_at_ms = 1_700_000_000_100;
            r.first_captured_at_ms = r.record.captured_at_ms;
            device.apply(r);
        }
    }
    let [mut a, mut b, mut c] = devices;
    for _ in 0..2 {
        assert!(reconcile(&mut a, &mut b).converged);
        assert!(reconcile(&mut a, &mut c).converged);
    }
    assert_same(&a, &b);
    assert_same(&b, &c);
    for device in [&a, &b, &c] {
        let list = device.manifest();
        let order = list
            .newest_first()
            .into_iter()
            .map(|place| list.at(place).record.sync_id.clone())
            .collect::<Vec<_>>();
        assert_eq!(
            order,
            (1..=4)
                .rev()
                .map(|i| format!("{i:064x}"))
                .collect::<Vec<_>>()
        );
    }
}

#[test]
fn one_oversized_record_is_reported_without_blocking_other_records() {
    let mut a = Device::default();
    let mut b = Device::default();
    let mut huge = record(3, "a");
    huge.record.text = Some("x".repeat(1024 * 1024 + 1));
    a.apply(huge);
    a.apply(record(2, "a"));
    a.apply(record(4, "a"));
    let result = reconcile(&mut b, &mut a);
    assert!(!result.converged);
    assert_eq!(result.failed, 1);
    assert_eq!(result.received, 2);
    assert_eq!(result.total_records, 2);
    assert_eq!(b.records.len(), 2);
    assert!(result.errors[0].ends_with(": clipboard payload exceeds transfer limit"));
}

#[test]
fn wire_checks_integrity_and_metadata_only_does_not_require_image_bytes() {
    let encoded = encode_record(record(1, "a")).unwrap();
    let forged = vec![vec![b'!'; encoded.parts[0].len()]];
    assert!(receive(encoded.header, forged)
        .unwrap_err()
        .contains("integrity"));
    let mut metadata = record(2, "a");
    metadata.record.kind = ClipboardContentKind::Image;
    metadata.record.text = None;
    assert!(receive(metadata_copy(&metadata), vec![]).is_ok());
    let mut live = metadata_to_wire(metadata);
    live.metadata.as_mut().unwrap().live = true;
    live.metadata.as_mut().unwrap().change_kind = change_kind_from_number(1);
    assert!(receive(live, vec![]).is_err());
}

#[test]
fn disabled_edits_are_not_bypassed_by_snapshot_or_reported_as_converged() {
    let mut a = Device::default();
    let mut b = Device { refuses_edits: true, ..Device::default() };
    let first = record(1, "a");
    a.apply(first.clone());
    b.apply(first);
    let mut edited = record(1, "a");
    edited.record.revision = 2;
    edited.record.text = Some("edited".into());
    a.apply(edited);
    let result = reconcile(&mut a, &mut b);
    assert!(!result.converged);
    assert_eq!(result.failed, 1);
    assert_eq!(
        b.find(&format!("{:064x}", 1)).unwrap().record.text.as_deref(),
        Some("record 1")
    );
}

#[test]
fn revision_fence_recovers_old_id_recopied_behind_a_pagination_cursor() {
    let mut a = Device::default();
    let mut b = Device::default();
    for index in 1..=205 {
        a.apply(record(index, "a"));
    }
    let mut newest = record(1, "a");
    newest.record.captured_at_ms += 10_000;
    newest.record.revision = 2;
    newest.copy_count = 2;
    a.after_scan = Some(newest.clone());
    let result = reconcile(&mut b, &mut a);
    assert!(result.converged, "{result:?}");
    assert_eq!(result.total_records, 205);
    assert_eq!(result.local_revision, b.revision);
    assert_eq!(result.remote_revision, a.revision);
    assert_same(&a, &b);
    assert_eq!(
        b.page(None, 1).records[0].record.sync_id,
        newest.record.sync_id
    );
}

#[test]
fn recency_converges_independently_of_conflicting_content_revisions() {
    let mut a = Device::default();
    let mut b = Device::default();
    let mut edited = record(1, "a");
    edited.record.revision = 5;
    edited.record.text = Some("newer edit".into());
    let mut recopied = record(1, "b");
    recopied.record.captured_at_ms += 10_000;
    recopied.copy_count = 2;
    a.apply(edited);
    b.apply(recopied.clone());
    let result = reconcile(&mut a, &mut b);
    assert!(result.converged, "{result:?}");
    assert_same(&a, &b);
    let item = a.find(&recopied.record.sync_id).unwrap();
    assert_eq!(item.record.text.as_deref(), Some("newer edit"));
    assert_eq!(item.record.captured_at_ms, recopied.record.captured_at_ms);
}

#[test]
fn disabled_service_rejects_replica_requests() {
    assert_eq!(check_enabled(true), Ok(()));
    let status = check_enabled(false).unwrap_err();
    assert_eq!(status.code, ErrorCode::FailedPrecondition);
    assert_eq!(status.message, "clipboard synchronization is disabled");

    let mut local = Device::default();
    local.apply(record(1, "left"));
    let mut remote = Device { disabled: true, ..Device::default() };
    assert!(remote.answer(ReplicaRequest::Revision).is_err());
    let result = reconcile(&mut local, &mut remote);
    assert!(!result.converged);
    assert_eq!((result.failed, result.sent), (1, 0));
    assert!(remote.records.is_empty());
    remote.disabled = false;
    assert!(reconcile(&mut local, &mut remote).converged);
    assert_same(&local, &remote);
}

#[test]
fn labels_detaches_deletes_and_metadata_updates_need_no_payload_and_survive_restart() {
    let mut left = Device::default();
    let mut right = Device::default();
    let initial = record(1, "left");
    left.apply(initial.clone());
    assert!(reconcile(&mut right, &mut left).converged);
    let fetches = left.served;
    left.apply_labels(vec![label("unused"), label("tagged")]);
    let mut tagged = initial.clone();
    tagged.record.text = None;
    tagged.record.favorite = true;
    tagged.record.favorite_revision = 2;
    tagged.record.label_memberships = vec![ClipboardLabelMembership {
        label_id: "tagged".into(),
        attached: true,
        revision: 1,
        updated_by_device_id: "left".into(),
    }];
    left.apply(tagged.clone());
    let result = reconcile(&mut left, &mut right);
    assert!(result.converged, "{result:?}");
    assert_eq!(result.sent, 1);
    assert_eq!(result.labels_sent, 2);
    let mut detached = tagged;
    detached.record.label_memberships[0].revision = 2;
    detached.record.label_memberships[0].attached = false;
    right.apply(detached);
    let mut deleted_label = label("unused");
    deleted_label.revision = 2;
    deleted_label.deleted = true;
    right.apply_labels(vec![deleted_label]);
    assert!(reconcile(&mut left, &mut right).converged);
    assert_same(&left, &right);
    assert_eq!(left.served + right.served, fetches);
    let mut right = right.restarted();
    assert_same(&left, &right);
    assert!(right.labels.iter().any(|l| l.id == "unused" && l.deleted));
    let mut deleted = initial;
    deleted.record.deleted = true;
    deleted.record.revision = 3;
    deleted.record.text = None;
    left.apply(deleted);
    let result = reconcile(&mut right, &mut left);
    assert!(result.converged, "{result:?}");
    assert_eq!(result.total_records, 0);
    assert_same(&left, &right);
}

#[test]
fn an_entry_survives_its_travels() {
    let mut rich = record(7, "a");
    rich.record.kind = ClipboardContentKind::Html;
    rich.record.html = Some("<b>record 7</b>".into());
    rich.record.rtf = Some("{\\rtf1}".into());
    let encoded = encode_record(rich.clone()).unwrap();
    assert_eq!(encoded.parts.len(), 3);
    assert_eq!(encoded.header.parts[1].media_type, "text/html");
    assert_eq!(receive(encoded.header, encoded.parts).unwrap(), rich);
    let mut image = record(8, "a");
    image.record.kind = ClipboardContentKind::Image;
    image.record.text = None;
    image.record.image_png = Some(vec![3; 100_000]);
    let encoded = encode_record(image.clone()).unwrap();
    assert_eq!(receive(encoded.header, encoded.parts).unwrap(), image);
}

#[test]
fn what_cannot_be_sent_is_refused() {
    let mut files = record(1, "a");
    files.record.kind = ClipboardContentKind::Files;
    assert_eq!(
        encode_record(files).unwrap_err(),
        "file paths cannot be replicated"
    );
    let mut empty = record(1, "a");
    empty.record.text = None;
    assert_eq!(
        encode_record(empty).unwrap_err(),
        "clipboard payload is unavailable"
    );
    assert_eq!(
        answer_fetch(None, true).unwrap_err(),
        "clipboard record no longer exists"
    );
    assert_eq!(
        answer_fetch(Some(record(1, "a")), false).unwrap_err(),
        "clipboard synchronization is disabled for this record"
    );
}

#[test]
fn malformed_metadata_is_told_apart() {
    let faulty = |spoil: &dyn Fn(&mut proto::ClipboardReplicaRecord)| {
        let mut wire = metadata_to_wire(record(1, "a"));
        spoil(&mut wire);
        metadata_from_wire_at(wire, None, NOW).unwrap_err()
    };
    assert_eq!(
        faulty(&|w| w.metadata = None),
        "missing clipboard replica metadata"
    );
    assert_eq!(faulty(&|w| w.copy_count = 0), "invalid clipboard replica metadata");
    assert_eq!(
        faulty(&|w| w.metadata.as_mut().unwrap().kind = proto::ClipboardContentKind::Unspecified),
        "unsupported clipboard replica kind"
    );
    assert_eq!(
        faulty(&|w| {
            w.metadata.as_mut().unwrap().change_kind = proto::ClipboardSyncChangeKind::Unspecified
        }),
        "invalid clipboard replica change"
    );
    assert_eq!(
        faulty(&|w| w.metadata.as_mut().unwrap().live = true),
        "invalid live clipboard replica"
    );
    let read = metadata_from_wire(metadata_to_wire(record(1, "a")), Some("\"plain\"".into()));
    let read = read.unwrap();
    assert_eq!(read.record.text, None);
    assert_eq!(read.record.text_syntax_json.as_deref(), Some("\"plain\""));
    assert_eq!(read.copy_count, 1);
}

#[test]
fn payloads_are_checked_as_they_come() {
    let encoded = encode_record(record(1, "a")).unwrap();
    let mut receiver = start_receiving(encoded.header, None, NOW).unwrap();
    assert_eq!(receiver.missing(), Ok(Some(8)));
    assert_eq!(
        receiver.take_chunk(vec![0; 9]),
        Err("invalid clipboard payload chunk")
    );
    let encoded = encode_record(record(1, "a")).unwrap();
    let mut header = encoded.header;
    header.parts[0].media_type = "text/html".into();
    let receiver = start_receiving(header, None, NOW).unwrap();
    assert_eq!(
        receiver.missing(),
        Err("invalid clipboard payload descriptor")
    );
    let mut header = metadata_to_wire(record(1, "a"));
    header.parts = encode_record(record(1, "a")).unwrap().header.parts;
    assert!(start_receiving(header, None, NOW).is_err());
    assert_eq!(part_chunks(&vec![1, 2, 3, 4, 5], 2), vec![vec![1, 2], vec![3, 4], vec![5]]);
}

#[test]
fn labels_survive_their_travels_and_are_checked() {
    let wire = label_to_wire(label("work"));
    assert_eq!(label_from_wire(wire).unwrap(), label("work"));
    let mut nameless = label_to_wire(label("work"));
    nameless.name = "".into();
    assert_eq!(
        label_from_wire(nameless),
        Err("invalid clipboard label metadata")
    );
    assert_eq!(
        read_labels(vec![label_to_wire(label("a")), label_to_wire(label("a"))]),
        Err("duplicate clipboard label")
    );
    let many = (0..101).map(|i| label_to_wire(label(&format!("l{i}")))).collect();
    assert_eq!(read_labels(many), Err("clipboard label page exceeds limit"));
}

#[test]
fn kinds_have_numbers() {
    for (kind, number) in [
        (proto::ClipboardContentKind::Unspecified, 0),
        (proto::ClipboardContentKind::Text, 1),
    ] {
        assert_eq!(content_kind_number(kind), number);
        assert_eq!(content_kind_from_number(number), kind);
    }
    assert_eq!(change_kind_number(proto::ClipboardSyncChangeKind::Copy), 1);
    assert_eq!(change_kind_from_number(99), proto::ClipboardSyncChangeKind::Unspecified);
}

#[test]
fn label_pages_lead_through_all_labels() {
    let labels: Vec<ClipboardLabel> = (0..250).rev().map(|i| label(&format!("l{i:03}"))).collect();
    let mut cursor = String::new();
    let mut seen = vec![];
    loop {
        let page = label_page(labels.clone(), &cursor);
        assert!(page.labels.len() <= 100);
        seen.extend(page.labels.into_iter().map(|l| l.id));
        match page.next_cursor {
            None => break,
            Some(next) => {
                assert_eq!(check_label_cursor(&next, &cursor, seen.len()), Ok(()));
                cursor = next;
            }
        }
    }
    let expected: Vec<String> = (0..250).map(|i| format!("l{i:03}")).collect();
    assert_eq!(seen, expected);
    assert_eq!(
        check_label_cursor("a", "b", 1),
        Err("invalid clipboard labels cursor")
    );
}

#[test]
fn a_page_is_cut_to_what_fits() {
    let records = || (1..=3).map(|i| metadata_to_wire(record(i, "a"))).collect::<Vec<_>>();
    let cursor = || {
        Some(ClipboardReplicaCursor {
            captured_at_ms: 5,
            sync_id: "x".into(),
        })
    };
    let whole = cut_page(records(), &vec![10, 10, 10], cursor(), 1 << 20);
    assert_eq!(whole.records.len(), 3);
    assert_eq!(whole.next_cursor.unwrap().sync_id, "x");
    let cut = cut_page(records(), &vec![10, 1 << 20, 10], cursor(), 1 << 20);
    assert_eq!(cut.records.len(), 1);
    assert_eq!(cut.next_cursor.unwrap().sync_id, format!("{:064x}", 1));
    let wire = cursor_to_wire(cursor().unwrap());
    assert_eq!(Some(cursor_from_wire(wire)), cursor());
}

#[test]
fn cursors_of_a_manifest_go_down() {
    let cursor = |captured_at_ms, id: &str| proto::ClipboardReplicaCursor {
        captured_at_ms,
        sync_id: id.into(),
    };
    assert_eq!(check_manifest_cursor(&None, &cursor(5, "a")), Ok(()));
    assert_eq!(
        check_manifest_cursor(&Some(cursor(5, "b")), &cursor(5, "a")),
        Ok(())
    );
    assert_eq!(
        check_manifest_cursor(&Some(cursor(5, "b")), &cursor(5, "b")),
        Err("invalid clipboard manifest cursor")
    );
}

#[test]
fn requests_are_served_by_kind() {
    assert!(matches!(
        serve_request(Some(ReplicaRequest::Revision), None, NOW),
        Ok(ServeStep::TellRevision)
    ));
    match serve_request(
        Some(ReplicaRequest::Scan { cursor: None, limit: 1_000 }),
        None,
        NOW,
    ) {
        Ok(ServeStep::ReadPage { cursor: None, limit }) => assert_eq!(limit, 100),
        _ => panic!("unexpected step"),
    }
    match serve_request(
        Some(ReplicaRequest::StoreLabels { labels: vec![label_to_wire(label("a"))] }),
        None,
        NOW,
    ) {
        Ok(ServeStep::KeepLabels { labels }) => assert_eq!(labels, vec![label("a")]),
        _ => panic!("unexpected step"),
    }
    match serve_request(
        Some(ReplicaRequest::Check { header: metadata_to_wire(record(1, "a")) }),
        None,
        NOW,
    ) {
        Ok(ServeStep::CheckStorage { replica }) => assert_eq!(replica.copy_count, 1),
        _ => panic!("unexpected step"),
    }
    assert_eq!(
        serve_request(None, None, NOW).err(),
        Some("missing clipboard request")
    );
    assert_eq!(replica_ok().code, ErrorCode::Success);
    assert_eq!(replica_failure("x").code, ErrorCode::FailedPrecondition);
    assert_eq!(replica_failure("x").message, "x");
}

#[test]
fn responses_are_read_by_what_was_asked() {
    let ok = || Some(replica_ok());
    assert!(matches!(
        read_response(ok(), Some(ReplicaResponse::Revision(4))),
        Ok(ReplicaResponse::Revision(4))
    ));
    let fault = |status, body| read_response(status, body).unwrap_err();
    assert_eq!(fault(None, None), "clipboard response has no status");
    assert_eq!(fault(ok(), None), "clipboard response has no body");
    assert_eq!(fault(Some(replica_failure("gone")), None), "gone");
    assert_eq!(expect_revision(ReplicaResponse::Revision(4)), Ok(4));
    let wrong = || ReplicaResponse::Revision(4);
    assert_eq!(
        expect_revision(ReplicaResponse::Changed(1)),
        Err("invalid clipboard revision response")
    );
    assert_eq!(expect_receipt(ReplicaResponse::Changed(0)), Ok(false));
    assert_eq!(expect_receipt(wrong()), Err("invalid clipboard receipt"));
    assert_eq!(expect_label_receipt(ReplicaResponse::Changed(3)), Ok(3));
    assert_eq!(
        expect_label_receipt(wrong()),
        Err("invalid clipboard label receipt")
    );
    assert_eq!(
        expect_page(wrong()).unwrap_err(),
        "invalid clipboard manifest response"
    );
    assert_eq!(
        expect_labels(wrong()).unwrap_err(),
        "invalid clipboard labels response"
    );
    let read = expect_labels(ReplicaResponse::Labels {
        labels: vec![label_to_wire(label("a"))],
        next_cursor: Some("a".into()),
    })
    .unwrap();
    assert_eq!(read.labels, vec![label("a")]);
    assert_eq!(
        expect_record(wrong(), "x").unwrap_err(),
        "invalid clipboard record response"
    );
    assert_eq!(
        expect_record(ReplicaResponse::Record(metadata_to_wire(record(1, "a"))), "x").unwrap_err(),
        "clipboard response record mismatch"
    );
}

#[test]
fn an_entry_covers_what_is_not_newer() {
    let one = record(1, "a");
    let mut newer = one.clone();
    newer.record.revision = 2;
    assert!(covers(&one, &one));
    assert!(covers(&newer, &one));
    assert!(!covers(&one, &newer));
    assert!(needs_payload(None, &one));
    assert!(needs_payload(Some(&one), &newer));
    assert!(!needs_payload(Some(&newer), &one));
    let mut gone = newer.clone();
    gone.record.deleted = true;
    assert!(!needs_payload(Some(&one), &gone));
    let mut by_b = one.clone();
    by_b.record.updated_by_device_id = "b".into();
    assert!(!covers(&one, &by_b));
    assert_eq!(order_newest_first(&vec![record(1, "a"), record(2, "a")]), vec![1, 0]);
}

#[test]
fn failures_are_counted_and_the_first_are_named() {
    let mut result = ReconciliationResult::default();
    for _ in 0..10 {
        result.failure("secret-id", "broken");
    }
    assert_eq!(result.failed, 10);
    assert_eq!(result.errors.len(), 8);
    assert!(result.errors[0].ends_with(": broken"));
    assert_eq!(result.errors[0].len(), 12 + ": broken".len());
    assert!(!result.errors[0].contains("secret"));
    let mut result = ReconciliationResult::default();
    assert!(!result.another_pass(Err("lost".into()), 1));
    assert_eq!(result.failed, 1);
    let mut result = ReconciliationResult::default();
    assert!(result.another_pass(Ok(false), 2));
    assert!(!result.another_pass(Ok(false), 3));
    assert!(!result.another_pass(Ok(true), 1));
}

#[test]
fn a_label_table_knows_what_is_not_newer() {
    let mut table = LabelTable::new();
    assert_eq!(table.len(), 0);
    table.insert(&label("a"));
    assert!(table.has(&label("a")));
    let mut newer = label("a");
    newer.revision = 2;
    assert!(!table.has(&newer));
    assert_eq!(
        labels_to_send(vec![label("a"), newer.clone(), label("b")], &table),
        vec![newer, label("b")]
    );
}

#[test]
fn a_broken_connection_ends_a_reconciliation() {
    let (state, action) = Reconciler::new();
    assert!(matches!(action, ReconcilerAction::ReadRevision));
    assert!(state.current().is_none());
    let event = ReconcilerEvent::Revision { outcome: Ok(4) };
    let (state, action) = state.advance(event, None, NOW);
    assert!(matches!(action, ReconcilerAction::Ask { request: ReplicaRequest::Revision }));
    let event = ReconcilerEvent::Answer { outcome: Err("gone".into()) };
    let (state, action) = state.advance(event, None, NOW);
    assert!(matches!(action, ReconcilerAction::Finish));
    assert_eq!(state.result.failed, 1);
    assert!(!state.result.converged);
    assert!(state.result.errors[0].ends_with(": gone"));
}

#[test]
fn an_answer_of_another_kind_ends_a_reconciliation() {
    let (state, _) = Reconciler::new();
    let (state, _) = state.advance(ReconcilerEvent::Revision { outcome: Ok(4) }, None, NOW);
    let event = ReconcilerEvent::Answer { outcome: Ok(ReplicaResponse::Changed(1)) };
    let (state, action) = state.advance(event, None, NOW);
    assert!(matches!(action, ReconcilerAction::Finish));
    assert!(state.result.errors[0].ends_with(": invalid clipboard revision response"));
}

#[test]
fn a_device_that_changes_meanwhile_is_compared_again() {
    let mut local = Device::default();
    let mut remote = Device::default();
    local.apply(record(1, "left"));
    remote.apply(record(1, "left"));
    let (mut state, mut action) = Reconciler::new();
    let mut asked = 0;
    let mut read = 0;
    loop {
        let event = match action {
            ReconcilerAction::Finish => break,
            ReconcilerAction::GoOn => ReconcilerEvent::GoOn,
            ReconcilerAction::ReadRevision => {
                // The revision moves on each time that it is read.
                read += 1;
                ReconcilerEvent::Revision { outcome: Ok(read) }
            }
            ReconcilerAction::Ask { request } => {
                asked += 1;
                ReconcilerEvent::Answer { outcome: remote.answer(request) }
            }
            ReconcilerAction::KeepLabels { labels } => {
                ReconcilerEvent::LabelsKept { outcome: Ok(local.apply_labels(labels)) }
            }
            ReconcilerAction::ReadLabels => {
                ReconcilerEvent::Labels { outcome: Ok(local.labels.clone()) }
            }
            ReconcilerAction::ReadPage { cursor, limit } => {
                ReconcilerEvent::Page { outcome: Ok(local.page(cursor, limit)) }
            }
            other => panic!("{other:?}"),
        };
        (state, action) = state.advance(event, None, NOW);
    }
    assert_eq!((read, asked, state.passes), (6, 12, 3));
    assert_eq!((state.result.differences, state.result.failed), (0, 0));
    assert!(!state.result.converged);
    // Without a change between the two readings success is reported.
    let result = reconcile(&mut local, &mut remote);
    assert!(result.converged);
    assert_eq!((result.local_revision, result.remote_revision), (1, 1));
    assert_eq!(result.total_records, 1);
}
