//! Clipboard entries as they travel when clipboards are replicated: labels,
//! metadata, and content in parts that carry their digests.

use vstd::prelude::*;
use vstd::string::*;
use vstd::utf8::*;

use crate::domain;
use crate::outside::{sha256_digest, text_from_utf8};
use crate::proto;
use crate::proto_msg::{
    change_kind_from_proto, change_kind_to_proto, clipboard_kind_from_proto,
    clipboard_kind_to_proto, clipboard_label_to_proto,
};
use crate::text::{byte_len, bytes_eq, chars_of, has_control, is_all_hex, is_blank, str_eq};

verus! {

/// The longest text of an entry, in bytes.
pub const TEXT_LIMIT: usize = 1_048_576;

/// The longest rich text of an entry, in bytes.
pub const RICH_LIMIT: usize = 16_777_216;

/// The largest image of an entry, in bytes.
pub const IMAGE_LIMIT: usize = 20_971_520;

/// The longest identifier or name, in bytes.
pub const MAX_IDENTIFIER_BYTES: usize = 128;

/// The longest preview of an entry, in bytes.
pub const MAX_PREVIEW_BYTES: usize = 2048;

/// The longest name of an application, in bytes.
pub const MAX_SOURCE_APP_BYTES: usize = 256;

/// The number of labels that an entry may have or have had.
pub const MAX_MEMBERSHIPS: usize = 4096;

/// By how much the clock of another device may be ahead, in milliseconds.
pub const MAX_CLOCK_SKEW_MS: i64 = 300_000;

/// True when a text identifies something.
pub open spec fn identifier(value: Seq<char>) -> bool {
    &&& !crate::text::blank(value)
    &&& crate::text::utf8_len(value) <= MAX_IDENTIFIER_BYTES
    &&& crate::text::control_free(value)
}

fn is_identifier(value: &str) -> (r: bool)
    ensures
        r == identifier(value@),
{
    !is_blank(value) && byte_len(value) <= MAX_IDENTIFIER_BYTES && !has_control(value)
}

/// True when a revision and the device that made it are proper.
pub open spec fn version(revision: u64, device: Seq<char>) -> bool {
    crate::sync_record::revision_ok(revision) && identifier(device)
}

fn is_version(revision: u64, device: &str) -> (r: bool)
    ensures
        r == version(revision, device@),
{
    revision > 0 && revision <= 0x7fff_ffff_ffff_ffff && is_identifier(device)
}

/// True when a text is a colour: a hash sign and three, six or eight hexadecimal
/// digits.
pub open spec fn color_ok(color: Seq<char>) -> bool {
    &&& crate::text::utf8_len(color) == 4 || crate::text::utf8_len(color) == 7
        || crate::text::utf8_len(color) == 9
    &&& color.len() > 0
    &&& color[0] == '#'
    &&& crate::text::all_hex(color.skip(1))
}

fn valid_color(color: &str) -> (r: bool)
    ensures
        r == color_ok(color@),
{
    let len: usize = byte_len(color);
    if len != 4 && len != 7 && len != 9 {
        return false;
    }
    let chars = chars_of(color);
    if chars.len() == 0 || chars[0] != '#' {
        return false;
    }
    let mut i: usize = 1;
    while i < chars.len()
        invariant
            1 <= i <= chars@.len(),
            chars@ == color@,
            forall|j: int| 1 <= j < i ==> crate::text::is_hex_digit(#[trigger] color@[j]),
        decreases chars@.len() - i,
    {
        let c = chars[i];
        if !(('0' <= c && c <= '9') || ('a' <= c && c <= 'f') || ('A' <= c && c <= 'F')) {
            assert(color@.skip(1)[i as int - 1] == color@[i as int]);
            assert(!crate::text::is_hex_digit(color@.skip(1)[i as int - 1]));
            return false;
        }
        i += 1;
    }
    assert forall|j: int| 0 <= j < color@.skip(1).len() implies crate::text::is_hex_digit(
        #[trigger] color@.skip(1)[j],
    ) by {
        assert(color@.skip(1)[j] == color@[j + 1]);
    }
    true
}

/// A label as it travels.
pub fn label_to_wire(label: domain::ClipboardLabel) -> (r: proto::ClipboardLabel)
    ensures
        r == crate::proto_msg::wire_clipboard_label(label),
{
    clipboard_label_to_proto(label)
}

/// True when a label that travelled is proper.
pub open spec fn label_ok(label: proto::ClipboardLabel) -> bool {
    &&& identifier(label.id@)
    &&& !crate::text::blank(label.name@)
    &&& crate::text::utf8_len(label.name@) <= MAX_IDENTIFIER_BYTES
    &&& color_ok(label.color@)
    &&& version(label.revision, label.updated_by_device_id@)
}

/// What a label that travelled means.
pub open spec fn meant_label(label: proto::ClipboardLabel) -> domain::ClipboardLabel {
    domain::ClipboardLabel {
        id: label.id,
        name: label.name,
        color: label.color,
        revision: label.revision,
        updated_by_device_id: label.updated_by_device_id,
        deleted: label.deleted,
    }
}

/// Reads a label.
pub fn label_from_wire(label: proto::ClipboardLabel) -> (r: Result<
    domain::ClipboardLabel,
    &'static str,
>)
    ensures
        if label_ok(label) {
            r == Ok::<domain::ClipboardLabel, &'static str>(meant_label(label))
        } else {
            r is Err && r->Err_0@ == "invalid clipboard label metadata"@
        },
{
    if !is_identifier(label.id.as_str()) || is_blank(label.name.as_str()) || byte_len(
        label.name.as_str(),
    ) > MAX_IDENTIFIER_BYTES || !valid_color(label.color.as_str()) || !is_version(
        label.revision,
        label.updated_by_device_id.as_str(),
    ) {
        return Err("invalid clipboard label metadata");
    }
    Ok(
        domain::ClipboardLabel {
            id: label.id,
            name: label.name,
            color: label.color,
            revision: label.revision,
            updated_by_device_id: label.updated_by_device_id,
            deleted: label.deleted,
        },
    )
}

/// A label that is sent is read as the same label.
pub proof fn lemma_label_round_trip(label: domain::ClipboardLabel)
    ensures
        meant_label(crate::proto_msg::wire_clipboard_label(label)) == label,
{
}

/// Whether an entry has a label, as it travels.
pub open spec fn wire_membership(m: domain::ClipboardLabelMembership) ->
    proto::ClipboardLabelMembership {
    proto::ClipboardLabelMembership {
        label_id: m.label_id,
        attached: m.attached,
        revision: m.revision,
        updated_by_device_id: m.updated_by_device_id,
    }
}

/// What this means when it has travelled.
pub open spec fn meant_membership(m: proto::ClipboardLabelMembership) ->
    domain::ClipboardLabelMembership {
    domain::ClipboardLabelMembership {
        label_id: m.label_id,
        attached: m.attached,
        revision: m.revision,
        updated_by_device_id: m.updated_by_device_id,
    }
}

/// The labels of an entry, as they travel.
pub open spec fn wire_memberships(list: Seq<domain::ClipboardLabelMembership>) -> Seq<
    proto::ClipboardLabelMembership,
> {
    list.map_values(|m: domain::ClipboardLabelMembership| wire_membership(m))
}

/// What the labels of an entry mean when they have travelled.
pub open spec fn meant_memberships(list: Seq<proto::ClipboardLabelMembership>) -> Seq<
    domain::ClipboardLabelMembership,
> {
    list.map_values(|m: proto::ClipboardLabelMembership| meant_membership(m))
}

/// True when the labels of an entry are proper and none is named twice.
pub open spec fn memberships_ok(list: Seq<proto::ClipboardLabelMembership>) -> bool {
    &&& forall|i: int|
        0 <= i < list.len() ==> identifier((#[trigger] list[i]).label_id@) && version(
            list[i].revision,
            list[i].updated_by_device_id@,
        )
    &&& forall|i: int, j: int|
        0 <= i < j < list.len() ==> (#[trigger] list[i]).label_id@ != (
        #[trigger] list[j]).label_id@
}

fn memberships_to_wire(list: &Vec<domain::ClipboardLabelMembership>) -> (r: Vec<
    proto::ClipboardLabelMembership,
>)
    ensures
        r@ == wire_memberships(list@),
{
    let mut out: Vec<proto::ClipboardLabelMembership> = Vec::new();
    let mut i: usize = 0;
    while i < list.len()
        invariant
            i <= list@.len(),
            out@ == wire_memberships(list@.take(i as int)),
        decreases list@.len() - i,
    {
        let m = &list[i];
        out.push(
            proto::ClipboardLabelMembership {
                label_id: m.label_id.clone(),
                attached: m.attached,
                revision: m.revision,
                updated_by_device_id: m.updated_by_device_id.clone(),
            },
        );
        assert(out@ =~= wire_memberships(list@.take(i as int + 1)));
        i += 1;
    }
    assert(list@.take(i as int) =~= list@);
    out
}

fn memberships_from_wire(list: Vec<proto::ClipboardLabelMembership>) -> (r: Result<
    Vec<domain::ClipboardLabelMembership>,
    &'static str,
>)
    ensures
        if memberships_ok(list@) {
            r is Ok && r->Ok_0@ == meant_memberships(list@)
        } else {
            r is Err && r->Err_0@ == "invalid clipboard label membership"@
        },
{
    let ghost all = list@;
    let mut out: Vec<domain::ClipboardLabelMembership> = Vec::new();
    assert(out@ =~= meant_memberships(all.take(0)));
    for m in it: list.into_iter()
        invariant
            it.seq() == all,
            all == list@,
            memberships_ok(all.take(it.index())),
            out@ == meant_memberships(all.take(it.index())),
    {
        let ghost n = it.index() as int;
        if !is_identifier(m.label_id.as_str()) || !is_version(
            m.revision,
            m.updated_by_device_id.as_str(),
        ) {
            assert(!(identifier(all[n].label_id@) && version(
                all[n].revision,
                all[n].updated_by_device_id@,
            )));
            return Err("invalid clipboard label membership");
        }
        let mut j: usize = 0;
        while j < out.len()
            invariant
                j <= out@.len(),
                0 <= n < all.len(),
                m == all[n],
                all == list@,
                out@ == meant_memberships(all.take(n)),
                forall|k: int| 0 <= k < j ==> (#[trigger] all[k]).label_id@ != m.label_id@,
            decreases out@.len() - j,
        {
            assert(out@[j as int] == meant_membership(all[j as int]));
            if str_eq(out[j].label_id.as_str(), m.label_id.as_str()) {
                assert(all[j as int].label_id@ == all[n].label_id@);
                return Err("invalid clipboard label membership");
            }
            j += 1;
        }
        proof {
            let longer = all.take(n + 1);
            let shorter = all.take(n);
            assert forall|i: int| 0 <= i < longer.len() implies identifier(
                (#[trigger] longer[i]).label_id@,
            ) && version(longer[i].revision, longer[i].updated_by_device_id@) by {
                if i < n {
                    assert(longer[i] == shorter[i]);
                }
            }
            assert forall|i: int, k: int| 0 <= i < k < longer.len() implies (
            #[trigger] longer[i]).label_id@ != (#[trigger] longer[k]).label_id@ by {
                assert(longer[i] == shorter[i]);
                if k < n {
                    assert(longer[k] == shorter[k]);
                } else {
                    assert(longer[i] == all[i]);
                }
            }
        }
        out.push(
            domain::ClipboardLabelMembership {
                label_id: m.label_id,
                attached: m.attached,
                revision: m.revision,
                updated_by_device_id: m.updated_by_device_id,
            },
        );
        assert(out@ =~= meant_memberships(all.take(n + 1)));
    }
    assert(all.take(all.len() as int) =~= all);
    Ok(out)
}

/// The number that stands for a kind of content.
pub open spec fn kind_number(kind: proto::ClipboardContentKind) -> i32 {
    match kind {
        proto::ClipboardContentKind::Unspecified => 0,
        proto::ClipboardContentKind::Text => 1,
        proto::ClipboardContentKind::Html => 2,
        proto::ClipboardContentKind::Image => 3,
        proto::ClipboardContentKind::Files => 4,
    }
}

/// The number that stands for a change.
pub open spec fn change_number(change: proto::ClipboardSyncChangeKind) -> i32 {
    match change {
        proto::ClipboardSyncChangeKind::Unspecified => 0,
        proto::ClipboardSyncChangeKind::Copy => 1,
        proto::ClipboardSyncChangeKind::Edit => 2,
        proto::ClipboardSyncChangeKind::Favorite => 3,
        proto::ClipboardSyncChangeKind::Delete => 4,
        proto::ClipboardSyncChangeKind::Snapshot => 5,
        proto::ClipboardSyncChangeKind::Label => 6,
    }
}

/// The number that stands for a kind of content.
pub fn content_kind_number(kind: proto::ClipboardContentKind) -> (r: i32)
    ensures
        r == kind_number(kind),
{
    match kind {
        proto::ClipboardContentKind::Unspecified => 0,
        proto::ClipboardContentKind::Text => 1,
        proto::ClipboardContentKind::Html => 2,
        proto::ClipboardContentKind::Image => 3,
        proto::ClipboardContentKind::Files => 4,
    }
}

/// The kind of content that a number stands for.
pub fn content_kind_from_number(number: i32) -> (r: proto::ClipboardContentKind)
    ensures
        1 <= number <= 4 ==> kind_number(r) == number,
        !(1 <= number <= 4) ==> r == proto::ClipboardContentKind::Unspecified,
{
    if number == 1 {
        proto::ClipboardContentKind::Text
    } else if number == 2 {
        proto::ClipboardContentKind::Html
    } else if number == 3 {
        proto::ClipboardContentKind::Image
    } else if number == 4 {
        proto::ClipboardContentKind::Files
    } else {
        proto::ClipboardContentKind::Unspecified
    }
}

/// The number that stands for a change.
pub fn change_kind_number(change: proto::ClipboardSyncChangeKind) -> (r: i32)
    ensures
        r == change_number(change),
{
    match change {
        proto::ClipboardSyncChangeKind::Unspecified => 0,
        proto::ClipboardSyncChangeKind::Copy => 1,
        proto::ClipboardSyncChangeKind::Edit => 2,
        proto::ClipboardSyncChangeKind::Favorite => 3,
        proto::ClipboardSyncChangeKind::Delete => 4,
        proto::ClipboardSyncChangeKind::Snapshot => 5,
        proto::ClipboardSyncChangeKind::Label => 6,
    }
}

/// The change that a number stands for.
pub fn change_kind_from_number(number: i32) -> (r: proto::ClipboardSyncChangeKind)
    ensures
        1 <= number <= 6 ==> change_number(r) == number,
        !(1 <= number <= 6) ==> r == proto::ClipboardSyncChangeKind::Unspecified,
{
    if number == 1 {
        proto::ClipboardSyncChangeKind::Copy
    } else if number == 2 {
        proto::ClipboardSyncChangeKind::Edit
    } else if number == 3 {
        proto::ClipboardSyncChangeKind::Favorite
    } else if number == 4 {
        proto::ClipboardSyncChangeKind::Delete
    } else if number == 5 {
        proto::ClipboardSyncChangeKind::Snapshot
    } else if number == 6 {
        proto::ClipboardSyncChangeKind::Label
    } else {
        proto::ClipboardSyncChangeKind::Unspecified
    }
}

/// True when `w` shows the metadata of an entry, without its content and the
/// labels that it names.
pub open spec fn shows_metadata(
    w: proto::ClipboardReplicaRecord,
    replica: domain::ClipboardReplicaRecord,
) -> bool {
    &&& w.first_captured_at_ms == replica.first_captured_at_ms
    &&& w.copy_count == replica.copy_count
    &&& w.metadata is Some
    &&& shows_record(w.metadata->0, replica.record)
}

/// True when `w` shows an entry, without its content and the labels that it
/// names.
pub open spec fn shows_record(
    w: proto::ClipboardSyncRecord,
    r: domain::ClipboardSyncRecord,
) -> bool {
    &&& w.sync_id@ == r.sync_id@
    &&& w.kind == crate::proto_msg::wire_clipboard_kind(r.kind)
    &&& w.width == r.width
    &&& w.height == r.height
    &&& w.preview@ == r.preview@
    &&& crate::sync_record::text_view(w.source_app) == crate::sync_record::text_view(r.source_app)
    &&& w.source_device_id@ == r.source_device_id@
    &&& w.source_device_name@ == r.source_device_name@
    &&& w.captured_at_ms == r.captured_at_ms
    &&& w.revision == r.revision
    &&& w.updated_by_device_id@ == r.updated_by_device_id@
    &&& w.favorite == r.favorite
    &&& w.favorite_revision == r.favorite_revision
    &&& w.favorite_updated_by_device_id@ == r.favorite_updated_by_device_id@
    &&& w.labels@.len() == 0
    &&& w.label_memberships@ == wire_memberships(r.label_memberships@)
    &&& w.deleted == r.deleted
    &&& w.change_kind == crate::proto_msg::wire_change_kind(r.change_kind)
    &&& w.live == r.live
    &&& w.text_syntax_json@.len() == 0
    &&& w.payload is None
}

/// A copy of the metadata of an entry as it travels.
pub fn metadata_copy(replica: &domain::ClipboardReplicaRecord) -> (r: proto::ClipboardReplicaRecord)
    ensures
        shows_metadata(r, *replica),
        r.parts@.len() == 0,
        r.metadata_only,
{
    let record = &replica.record;
    proto::ClipboardReplicaRecord {
        first_captured_at_ms: replica.first_captured_at_ms,
        copy_count: replica.copy_count,
        parts: Vec::new(),
        metadata_only: true,
        metadata: Some(
            proto::ClipboardSyncRecord {
                sync_id: record.sync_id.clone(),
                kind: clipboard_kind_to_proto(record.kind),
                width: record.width,
                height: record.height,
                preview: record.preview.clone(),
                source_app: match &record.source_app {
                    Some(app) => Some(app.clone()),
                    None => None,
                },
                source_device_id: record.source_device_id.clone(),
                source_device_name: record.source_device_name.clone(),
                captured_at_ms: record.captured_at_ms,
                revision: record.revision,
                updated_by_device_id: record.updated_by_device_id.clone(),
                favorite: record.favorite,
                favorite_revision: record.favorite_revision,
                favorite_updated_by_device_id: record.favorite_updated_by_device_id.clone(),
                labels: Vec::new(),
                label_memberships: memberships_to_wire(&record.label_memberships),
                deleted: record.deleted,
                change_kind: change_kind_to_proto(record.change_kind),
                live: record.live,
                text_syntax_json: String::new(),
                payload: None,
            },
        ),
    }
}

/// The metadata of an entry as it travels.
pub fn metadata_to_wire(replica: domain::ClipboardReplicaRecord) -> (r:
    proto::ClipboardReplicaRecord)
    ensures
        shows_metadata(r, replica),
        r.parts@.len() == 0,
        r.metadata_only,
{
    metadata_copy(&replica)
}

/// True when the plain fields of metadata that arrived at `now` are proper.
pub open spec fn metadata_ok(
    r: proto::ClipboardSyncRecord,
    first_captured_at_ms: i64,
    copy_count: u32,
    now: i64,
) -> bool {
    &&& crate::text::utf8_len(r.sync_id@) == 64
    &&& crate::text::all_hex(r.sync_id@)
    &&& version(r.revision, r.updated_by_device_id@)
    &&& version(r.favorite_revision, r.favorite_updated_by_device_id@)
    &&& identifier(r.source_device_id@)
    &&& crate::text::utf8_len(r.source_device_name@) <= MAX_IDENTIFIER_BYTES
    &&& crate::text::utf8_len(r.preview@) <= MAX_PREVIEW_BYTES
    &&& r.source_app is Some ==> crate::text::utf8_len(r.source_app->0@) <= MAX_SOURCE_APP_BYTES
    &&& 0 < first_captured_at_ms <= r.captured_at_ms
    &&& r.captured_at_ms <= now + MAX_CLOCK_SKEW_MS
    &&& 0 < copy_count <= i32::MAX
    &&& r.labels@.len() == 0
    &&& r.payload is None
    &&& r.label_memberships@.len() <= MAX_MEMBERSHIPS
}

/// What is wrong with metadata that arrived at `now`, if anything.
pub open spec fn metadata_fault(w: proto::ClipboardReplicaRecord, now: i64) -> Option<Seq<char>> {
    match w.metadata {
        None => Some("missing clipboard replica metadata"@),
        Some(r) => if !metadata_ok(r, w.first_captured_at_ms, w.copy_count, now) {
            Some("invalid clipboard replica metadata"@)
        } else if !memberships_ok(r.label_memberships@) {
            Some("invalid clipboard label membership"@)
        } else if r.kind == proto::ClipboardContentKind::Files || r.kind
            == proto::ClipboardContentKind::Unspecified {
            Some("unsupported clipboard replica kind"@)
        } else if r.change_kind == proto::ClipboardSyncChangeKind::Unspecified {
            Some("invalid clipboard replica change"@)
        } else if r.live && (r.change_kind != proto::ClipboardSyncChangeKind::Copy || r.deleted) {
            Some("invalid live clipboard replica"@)
        } else {
            None
        },
    }
}

/// True when `replica` is what metadata that travelled means: an entry without
/// content.
pub open spec fn reads_metadata(
    replica: domain::ClipboardReplicaRecord,
    w: proto::ClipboardReplicaRecord,
) -> bool {
    let r = replica.record;
    let m = w.metadata->0;
    &&& replica.first_captured_at_ms == w.first_captured_at_ms
    &&& replica.copy_count == w.copy_count
    &&& r.sync_id == m.sync_id
    &&& Some(r.kind) == crate::proto_msg::meant_clipboard_kind(m.kind)
    &&& r.text is None
    &&& r.html is None
    &&& r.rtf is None
    &&& r.image_png is None
    &&& r.width == m.width
    &&& r.height == m.height
    &&& r.preview == m.preview
    &&& r.source_app == m.source_app
    &&& r.source_device_id == m.source_device_id
    &&& r.source_device_name == m.source_device_name
    &&& r.captured_at_ms == m.captured_at_ms
    &&& r.revision == m.revision
    &&& r.updated_by_device_id == m.updated_by_device_id
    &&& r.favorite == m.favorite
    &&& r.favorite_revision == m.favorite_revision
    &&& r.favorite_updated_by_device_id == m.favorite_updated_by_device_id
    &&& r.labels@.len() == 0
    &&& r.label_memberships@ == meant_memberships(m.label_memberships@)
    &&& r.deleted == m.deleted
    &&& Some(r.change_kind) == crate::proto_msg::meant_change_kind(m.change_kind)
    &&& r.live == m.live
}

/// True when `r` is what is read of metadata that arrived at `now`.
pub open spec fn reads_at(
    r: Result<domain::ClipboardReplicaRecord, &'static str>,
    wire: proto::ClipboardReplicaRecord,
    no_syntax: Option<String>,
    now: i64,
) -> bool {
    match metadata_fault(wire, now) {
        Some(fault) => r is Err && r->Err_0@ == fault,
        None => r is Ok && reads_metadata(r->Ok_0, wire) && r->Ok_0.record.text_syntax_json
            == no_syntax,
    }
}

/// Reads the metadata of an entry that arrived at `now`, where `no_syntax` is
/// the syntax of an entry whose text was not looked at.
pub fn metadata_from_wire_at(
    wire: proto::ClipboardReplicaRecord,
    no_syntax: Option<String>,
    now: i64,
) -> (r: Result<domain::ClipboardReplicaRecord, &'static str>)
    ensures
        reads_at(r, wire, no_syntax, now),
{
    let record = match wire.metadata {
        None => {
            return Err("missing clipboard replica metadata");
        },
        Some(record) => record,
    };
    let long_app = match &record.source_app {
        Some(app) => byte_len(app.as_str()) > MAX_SOURCE_APP_BYTES,
        None => false,
    };
    if byte_len(record.sync_id.as_str()) != 64 || !is_all_hex(record.sync_id.as_str())
        || !is_version(record.revision, record.updated_by_device_id.as_str()) || !is_version(
        record.favorite_revision,
        record.favorite_updated_by_device_id.as_str(),
    ) || !is_identifier(record.source_device_id.as_str()) || byte_len(
        record.source_device_name.as_str(),
    ) > MAX_IDENTIFIER_BYTES || byte_len(record.preview.as_str()) > MAX_PREVIEW_BYTES || long_app
        || wire.first_captured_at_ms <= 0 || wire.first_captured_at_ms > record.captured_at_ms
        || record.captured_at_ms as i128 > now as i128 + MAX_CLOCK_SKEW_MS as i128
        || wire.copy_count == 0 || wire.copy_count > 0x7fff_ffff || record.labels.len() > 0
        || record.payload.is_some() || record.label_memberships.len() > MAX_MEMBERSHIPS {
        return Err("invalid clipboard replica metadata");
    }
    let label_memberships = match memberships_from_wire(record.label_memberships) {
        Err(fault) => {
            return Err(fault);
        },
        Ok(list) => list,
    };
    let kind = match clipboard_kind_from_proto(record.kind) {
        None | Some(domain::ClipboardContentKind::Files) => {
            return Err("unsupported clipboard replica kind");
        },
        Some(kind) => kind,
    };
    let change_kind = match change_kind_from_proto(record.change_kind) {
        None => {
            return Err("invalid clipboard replica change");
        },
        Some(change_kind) => change_kind,
    };
    if record.live && (change_kind != domain::ClipboardSyncChangeKind::Copy || record.deleted) {
        return Err("invalid live clipboard replica");
    }
    Ok(
        domain::ClipboardReplicaRecord {
            first_captured_at_ms: wire.first_captured_at_ms,
            copy_count: wire.copy_count,
            record: domain::ClipboardSyncRecord {
                sync_id: record.sync_id,
                kind,
                text: None,
                html: None,
                rtf: None,
                image_png: None,
                width: record.width,
                height: record.height,
                preview: record.preview,
                source_app: record.source_app,
                source_device_id: record.source_device_id,
                source_device_name: record.source_device_name,
                captured_at_ms: record.captured_at_ms,
                revision: record.revision,
                updated_by_device_id: record.updated_by_device_id,
                favorite: record.favorite,
                favorite_revision: record.favorite_revision,
                favorite_updated_by_device_id: record.favorite_updated_by_device_id,
                labels: Vec::new(),
                label_memberships,
                deleted: record.deleted,
                change_kind,
                live: record.live,
                text_syntax_json: no_syntax,
            },
        },
    )
}

/// Reads the metadata of an entry that arrives now.
pub fn metadata_from_wire(wire: proto::ClipboardReplicaRecord, no_syntax: Option<String>) -> (r:
    Result<domain::ClipboardReplicaRecord, &'static str>)
    ensures
        exists|now: i64| now >= 0 && #[trigger] reads_at(r, wire, no_syntax, now),
{
    let now: i64 = crate::product::now_ms();
    metadata_from_wire_at(wire, no_syntax, now)
}

/// True when two entries have the same metadata.
pub open spec fn same_metadata(
    a: domain::ClipboardReplicaRecord,
    b: domain::ClipboardReplicaRecord,
) -> bool {
    let (r, s) = (a.record, b.record);
    &&& a.first_captured_at_ms == b.first_captured_at_ms
    &&& a.copy_count == b.copy_count
    &&& r.sync_id@ == s.sync_id@
    &&& r.kind == s.kind
    &&& r.width == s.width
    &&& r.height == s.height
    &&& r.preview@ == s.preview@
    &&& crate::sync_record::text_view(r.source_app) == crate::sync_record::text_view(s.source_app)
    &&& r.source_device_id@ == s.source_device_id@
    &&& r.source_device_name@ == s.source_device_name@
    &&& r.captured_at_ms == s.captured_at_ms
    &&& r.revision == s.revision
    &&& r.updated_by_device_id@ == s.updated_by_device_id@
    &&& r.favorite == s.favorite
    &&& r.favorite_revision == s.favorite_revision
    &&& r.favorite_updated_by_device_id@ == s.favorite_updated_by_device_id@
    &&& r.label_memberships@ == s.label_memberships@
    &&& r.deleted == s.deleted
    &&& r.change_kind == s.change_kind
    &&& r.live == s.live
}

/// An entry whose metadata was sent is read with the same metadata.
pub proof fn lemma_metadata_round_trip(
    a: domain::ClipboardReplicaRecord,
    w: proto::ClipboardReplicaRecord,
    b: domain::ClipboardReplicaRecord,
)
    requires
        shows_metadata(w, a),
        reads_metadata(b, w),
    ensures
        same_metadata(a, b),
{
    let list = a.record.label_memberships@;
    assert(meant_memberships(wire_memberships(list)) =~= list);
}

/// True when an entry can be sent at `now`: its metadata is proper, it is not
/// about files, and it is live only when it was just copied.
pub open spec fn sendable(a: domain::ClipboardReplicaRecord, now: i64) -> bool {
    let r = a.record;
    &&& crate::text::utf8_len(r.sync_id@) == 64
    &&& crate::text::all_hex(r.sync_id@)
    &&& version(r.revision, r.updated_by_device_id@)
    &&& version(r.favorite_revision, r.favorite_updated_by_device_id@)
    &&& identifier(r.source_device_id@)
    &&& crate::text::utf8_len(r.source_device_name@) <= MAX_IDENTIFIER_BYTES
    &&& crate::text::utf8_len(r.preview@) <= MAX_PREVIEW_BYTES
    &&& r.source_app is Some ==> crate::text::utf8_len(r.source_app->0@) <= MAX_SOURCE_APP_BYTES
    &&& 0 < a.first_captured_at_ms <= r.captured_at_ms
    &&& r.captured_at_ms <= now + MAX_CLOCK_SKEW_MS
    &&& 0 < a.copy_count <= i32::MAX
    &&& r.label_memberships@.len() <= MAX_MEMBERSHIPS
    &&& memberships_ok(wire_memberships(r.label_memberships@))
    &&& r.kind != domain::ClipboardContentKind::Files
    &&& r.live ==> r.change_kind == domain::ClipboardSyncChangeKind::Copy && !r.deleted
}

/// Whether the metadata of an entry is accepted depends on the entry alone: it
/// is exactly when the entry can be sent.
pub proof fn lemma_sendable(
    a: domain::ClipboardReplicaRecord,
    w: proto::ClipboardReplicaRecord,
    now: i64,
)
    requires
        shows_metadata(w, a),
    ensures
        metadata_fault(w, now) is None <==> sendable(a, now),
{
    let m = w.metadata->0;
    assert(crate::sync_record::text_view(m.source_app) == crate::sync_record::text_view(
        a.record.source_app,
    ));
    assert(m.source_app is Some == a.record.source_app is Some);
    assert(m.source_app is Some ==> m.source_app->0@ == a.record.source_app->0@);
}

/// A part of the content of an entry.
pub struct PartView {
    pub media_type: Seq<char>,
    pub bytes: Seq<u8>,
}

/// A part of limited size, or why there is none.
pub open spec fn part_of(bytes: Option<Seq<u8>>, media_type: Seq<char>, limit: nat) -> Result<
    PartView,
    Seq<char>,
> {
    match bytes {
        None => Err("clipboard payload is unavailable"@),
        Some(bytes) => if bytes.len() > limit {
            Err("clipboard payload exceeds transfer limit"@)
        } else {
            Ok(PartView { media_type, bytes })
        },
    }
}

/// The bytes of a text, if there is one.
pub open spec fn bytes_of(text: Option<String>) -> Option<Seq<u8>> {
    match text {
        Some(text) => Some(encode_utf8(text@)),
        None => None,
    }
}

/// The bytes of a text; of no text there are none.
pub open spec fn bytes_or_none(text: Option<String>) -> Option<Seq<u8>> {
    Some(
        match text {
            Some(text) => encode_utf8(text@),
            None => Seq::empty(),
        },
    )
}

/// The parts of the content of an entry, or why it cannot be sent. Of a deleted
/// entry there is no content.
pub open spec fn parts_of(r: domain::ClipboardSyncRecord) -> Result<Seq<PartView>, Seq<char>> {
    if r.deleted {
        Ok(Seq::empty())
    } else {
        match r.kind {
            domain::ClipboardContentKind::Text => match part_of(
                bytes_of(r.text),
                "text/plain"@,
                TEXT_LIMIT as nat,
            ) {
                Ok(part) => Ok(seq![part]),
                Err(fault) => Err(fault),
            },
            domain::ClipboardContentKind::Html => match part_of(
                bytes_or_none(r.text),
                "text/plain"@,
                TEXT_LIMIT as nat,
            ) {
                Err(fault) => Err(fault),
                Ok(plain) => match part_of(bytes_of(r.html), "text/html"@, RICH_LIMIT as nat) {
                    Err(fault) => Err(fault),
                    Ok(html) => match r.rtf {
                        None => Ok(seq![plain, html]),
                        Some(_) => match part_of(
                            bytes_of(r.rtf),
                            "text/rtf"@,
                            RICH_LIMIT as nat,
                        ) {
                            Err(fault) => Err(fault),
                            Ok(rtf) => Ok(seq![plain, html, rtf]),
                        },
                    },
                },
            },
            domain::ClipboardContentKind::Image => match part_of(
                crate::sync_record::bytes_view(r.image_png),
                "image/png"@,
                IMAGE_LIMIT as nat,
            ) {
                Ok(part) => Ok(seq![part]),
                Err(fault) => Err(fault),
            },
            domain::ClipboardContentKind::Files => Err("file paths cannot be replicated"@),
        }
    }
}

/// True when a reference describes a part.
pub open spec fn describes(reference: proto::BlobRef, part: PartView) -> bool {
    &&& reference.blob_id@ == crate::outside::sha256(part.bytes)
    &&& reference.sha256@ == crate::outside::sha256(part.bytes)
    &&& reference.sha256@.len() == 32
    &&& reference.size == part.bytes.len()
    &&& reference.media_type@ == part.media_type
}

/// True when references describe parts.
pub open spec fn describes_all(references: Seq<proto::BlobRef>, parts: Seq<PartView>) -> bool {
    references.len() == parts.len() && forall|i: int|
        0 <= i < parts.len() ==> describes(#[trigger] references[i], parts[i])
}

/// True when `bodies` are the bytes of parts.
pub open spec fn carries_all(bodies: Seq<Vec<u8>>, parts: Seq<PartView>) -> bool {
    bodies.len() == parts.len() && forall|i: int|
        0 <= i < parts.len() ==> (#[trigger] bodies[i])@ == parts[i].bytes
}

/// An entry ready to be sent: its header, and the parts of its content.
#[derive(Debug)]
pub struct EncodedRecord {
    pub header: proto::ClipboardReplicaRecord,
    pub parts: Vec<Vec<u8>>,
}

/// True when `e` is an entry ready to be sent.
pub open spec fn encodes(
    e: EncodedRecord,
    replica: domain::ClipboardReplicaRecord,
    parts: Seq<PartView>,
) -> bool {
    &&& shows_metadata(e.header, replica)
    &&& !e.header.metadata_only
    &&& describes_all(e.header.parts@, parts)
    &&& carries_all(e.parts@, parts)
}

fn text_bytes(text: &Option<String>) -> (r: Option<Vec<u8>>)
    ensures
        crate::sync_record::bytes_view(r) == bytes_of(*text),
{
    match text {
        Some(text) => Some(vstd::slice::slice_to_vec(text.as_str().as_bytes())),
        None => None,
    }
}

fn push_part(
    references: &mut Vec<proto::BlobRef>,
    bodies: &mut Vec<Vec<u8>>,
    bytes: Option<Vec<u8>>,
    media_type: &str,
    limit: usize,
    Ghost(parts): Ghost<Seq<PartView>>,
) -> (r: Result<(), &'static str>)
    requires
        describes_all(old(references)@, parts),
        carries_all(old(bodies)@, parts),
    ensures
        match part_of(
            crate::sync_record::bytes_view(bytes),
            media_type@,
            limit as nat,
        ) {
            Ok(part) => {
                &&& r is Ok
                &&& describes_all(final(references)@, parts.push(part))
                &&& carries_all(final(bodies)@, parts.push(part))
            },
            Err(fault) => r is Err && r->Err_0@ == fault,
        },
{
    let bytes = match bytes {
        None => {
            return Err("clipboard payload is unavailable");
        },
        Some(bytes) => bytes,
    };
    if bytes.len() > limit {
        return Err("clipboard payload exceeds transfer limit");
    }
    references.push(
        proto::BlobRef {
            blob_id: sha256_digest(bytes.as_slice()),
            size: bytes.len() as u64,
            media_type: media_type.to_owned(),
            sha256: sha256_digest(bytes.as_slice()),
        },
    );
    bodies.push(bytes);
    Ok(())
}

/// Makes an entry ready to be sent with its content.
pub fn encode_record(replica: domain::ClipboardReplicaRecord) -> (r: Result<
    EncodedRecord,
    &'static str,
>)
    ensures
        match parts_of(replica.record) {
            Err(fault) => r is Err && r->Err_0@ == fault,
            Ok(parts) => r is Ok && encodes(r->Ok_0, replica, parts),
        },
{
    let ghost none = Seq::<PartView>::empty();
    let mut references: Vec<proto::BlobRef> = Vec::new();
    let mut bodies: Vec<Vec<u8>> = Vec::new();
    let record = &replica.record;
    if !record.deleted {
        match record.kind {
            domain::ClipboardContentKind::Text => {
                if let Err(fault) = push_part(
                    &mut references,
                    &mut bodies,
                    text_bytes(&record.text),
                    "text/plain",
                    TEXT_LIMIT,
                    Ghost(none),
                ) {
                    return Err(fault);
                }
                assert(parts_of(*record)->Ok_0 =~= none.push(parts_of(*record)->Ok_0[0]));
            },
            domain::ClipboardContentKind::Html => {
                let plain = match &record.text {
                    Some(text) => vstd::slice::slice_to_vec(text.as_str().as_bytes()),
                    None => Vec::new(),
                };
                let ghost first = part_of(
                    bytes_or_none(record.text),
                    "text/plain"@,
                    TEXT_LIMIT as nat,
                );
                if let Err(fault) = push_part(
                    &mut references,
                    &mut bodies,
                    Some(plain),
                    "text/plain",
                    TEXT_LIMIT,
                    Ghost(none),
                ) {
                    return Err(fault);
                }
                let ghost second = part_of(
                    bytes_of(record.html),
                    "text/html"@,
                    RICH_LIMIT as nat,
                );
                if let Err(fault) = push_part(
                    &mut references,
                    &mut bodies,
                    text_bytes(&record.html),
                    "text/html",
                    RICH_LIMIT,
                    Ghost(none.push(first->Ok_0)),
                ) {
                    return Err(fault);
                }
                if record.rtf.is_some() {
                    let ghost third = part_of(
                        bytes_of(record.rtf),
                        "text/rtf"@,
                        RICH_LIMIT as nat,
                    );
                    if let Err(fault) = push_part(
                        &mut references,
                        &mut bodies,
                        text_bytes(&record.rtf),
                        "text/rtf",
                        RICH_LIMIT,
                        Ghost(none.push(first->Ok_0).push(second->Ok_0)),
                    ) {
                        return Err(fault);
                    }
                    assert(parts_of(*record)->Ok_0 =~= none.push(first->Ok_0).push(
                        second->Ok_0,
                    ).push(third->Ok_0));
                } else {
                    assert(parts_of(*record)->Ok_0 =~= none.push(first->Ok_0).push(second->Ok_0));
                }
            },
            domain::ClipboardContentKind::Image => {
                let image = match &record.image_png {
                    Some(image) => Some(proto::copy_bytes(image)),
                    None => None,
                };
                if let Err(fault) = push_part(
                    &mut references,
                    &mut bodies,
                    image,
                    "image/png",
                    IMAGE_LIMIT,
                    Ghost(none),
                ) {
                    return Err(fault);
                }
                assert(parts_of(*record)->Ok_0 =~= none.push(parts_of(*record)->Ok_0[0]));
            },
            domain::ClipboardContentKind::Files => {
                return Err("file paths cannot be replicated");
            },
        }
    }
    let mut header = metadata_to_wire(replica);
    header.metadata_only = false;
    header.parts = references;
    Ok(EncodedRecord { header, parts: bodies })
}

/// The chunks in which a part travels.
pub open spec fn chunks_of(bytes: Seq<u8>, size: nat) -> Seq<Seq<u8>>
    decreases bytes.len(),
{
    if bytes.len() == 0 || size == 0 {
        Seq::empty()
    } else if bytes.len() <= size {
        seq![bytes]
    } else {
        seq![bytes.take(size as int)] + chunks_of(bytes.skip(size as int), size)
    }
}

/// What chunks hold together.
pub open spec fn joined(chunks: Seq<Seq<u8>>) -> Seq<u8>
    decreases chunks.len(),
{
    if chunks.len() == 0 {
        Seq::empty()
    } else {
        chunks[0] + joined(chunks.skip(1))
    }
}

/// The chunks of a part hold it together; none is empty, and none is larger than
/// agreed.
pub proof fn lemma_chunks_join(bytes: Seq<u8>, size: nat)
    requires
        size > 0,
    ensures
        joined(chunks_of(bytes, size)) == bytes,
        forall|i: int|
            0 <= i < chunks_of(bytes, size).len() ==> 0 < (#[trigger] chunks_of(
                bytes,
                size,
            )[i]).len() <= size,
    decreases bytes.len(),
{
    let all = chunks_of(bytes, size);
    if bytes.len() == 0 {
        assert(joined(all) =~= bytes);
    } else if bytes.len() <= size {
        assert(all.skip(1) =~= Seq::<Seq<u8>>::empty());
        assert(joined(all.skip(1)) =~= Seq::<u8>::empty());
        assert(joined(all) =~= bytes);
    } else {
        let rest = bytes.skip(size as int);
        lemma_chunks_join(rest, size);
        assert(all.skip(1) =~= chunks_of(rest, size));
        assert(joined(all) =~= bytes);
        assert forall|i: int| 0 <= i < all.len() implies 0 < (#[trigger] all[i]).len() <= size by {
            if i > 0 {
                assert(all[i] == chunks_of(rest, size)[i - 1]);
            }
        }
    }
}

/// Lists of bytes as mathematical values.
pub open spec fn bodies(list: Seq<Vec<u8>>) -> Seq<Seq<u8>> {
    list.map_values(|b: Vec<u8>| b@)
}

/// Cuts a part into the chunks in which it travels.
pub fn part_chunks(part: &Vec<u8>, size: usize) -> (r: Vec<Vec<u8>>)
    requires
        size > 0,
    ensures
        bodies(r@) == chunks_of(part@, size as nat),
{
    let ghost all = chunks_of(part@, size as nat);
    let mut chunks: Vec<Vec<u8>> = Vec::new();
    let mut at: usize = 0;
    proof {
        assert(part@.skip(0) =~= part@);
        assert(bodies(chunks@) + all =~= all);
    }
    while at < part.len()
        invariant
            at <= part@.len(),
            size > 0,
            all == bodies(chunks@) + chunks_of(part@.skip(at as int), size as nat),
        decreases part@.len() - at,
    {
        let ghost before = chunks@;
        let end: usize = if part.len() - at <= size {
            part.len()
        } else {
            at + size
        };
        let chunk = vstd::slice::slice_to_vec(
            vstd::slice::slice_subrange(part.as_slice(), at, end),
        );
        let ghost bytes = chunk@;
        chunks.push(chunk);
        proof {
            let left = part@.skip(at as int);
            assert(bodies(chunks@) =~= bodies(before).push(bytes));
            if left.len() <= size {
                assert(bytes =~= left);
                assert(chunks_of(part@.skip(end as int), size as nat) =~= Seq::empty());
                assert(bodies(before).push(bytes) + Seq::<Seq<u8>>::empty() =~= bodies(before)
                    + seq![bytes]);
            } else {
                let rest = chunks_of(left.skip(size as int), size as nat);
                assert(bytes =~= left.take(size as int));
                assert(left.skip(size as int) =~= part@.skip(end as int));
                assert(bodies(before).push(bytes) + rest =~= bodies(before) + (seq![bytes]
                    + rest));
            }
        }
        at = end;
    }
    proof {
        assert(chunks_of(part@.skip(at as int), size as nat) =~= Seq::empty());
        assert(bodies(chunks@) + Seq::<Seq<u8>>::empty() =~= bodies(chunks@));
    }
    chunks
}

/// The number of parts that the content of an entry comes in, where `announced`
/// parts were announced.
pub open spec fn expected_count(r: domain::ClipboardSyncRecord, announced: nat) -> nat {
    if r.deleted {
        0
    } else {
        match r.kind {
            domain::ClipboardContentKind::Text => 1,
            domain::ClipboardContentKind::Html => if announced == 3 {
                3
            } else {
                2
            },
            domain::ClipboardContentKind::Image => 1,
            domain::ClipboardContentKind::Files => 0,
        }
    }
}

/// The media type of a part.
pub open spec fn expected_media(kind: domain::ClipboardContentKind, i: int) -> Seq<char> {
    if kind == domain::ClipboardContentKind::Image {
        "image/png"@
    } else if i == 0 {
        "text/plain"@
    } else if i == 1 {
        "text/html"@
    } else {
        "text/rtf"@
    }
}

/// The largest size of a part.
pub open spec fn expected_limit(kind: domain::ClipboardContentKind, i: int) -> nat {
    if kind == domain::ClipboardContentKind::Image {
        IMAGE_LIMIT as nat
    } else if i == 0 {
        TEXT_LIMIT as nat
    } else {
        RICH_LIMIT as nat
    }
}

/// True when a reference announces a part as it is expected.
pub open spec fn descriptor_ok(
    reference: proto::BlobRef,
    kind: domain::ClipboardContentKind,
    i: int,
) -> bool {
    &&& reference.media_type@ == expected_media(kind, i)
    &&& reference.size <= expected_limit(kind, i)
    &&& reference.sha256@.len() == 32
    &&& reference.blob_id@ == reference.sha256@
}

/// What is wrong with the bytes of a part, if anything.
pub open spec fn part_fault(
    reference: proto::BlobRef,
    kind: domain::ClipboardContentKind,
    bytes: Seq<u8>,
) -> Option<Seq<char>> {
    if crate::outside::sha256(bytes) != reference.sha256@ {
        Some("clipboard payload integrity check failed"@)
    } else if kind != domain::ClipboardContentKind::Image && !valid_utf8(bytes) {
        Some("clipboard payload is not UTF-8"@)
    } else {
        None
    }
}

/// The content of an entry as a mathematical value.
pub open spec fn content_of(r: domain::ClipboardSyncRecord) -> crate::sync_record::ContentView {
    crate::sync_record::ContentView {
        text: crate::sync_record::text_view(r.text),
        html: crate::sync_record::text_view(r.html),
        rtf: crate::sync_record::text_view(r.rtf),
        image: crate::sync_record::bytes_view(r.image_png),
    }
}

/// No content.
pub open spec fn no_content() -> crate::sync_record::ContentView {
    crate::sync_record::ContentView { text: None, html: None, rtf: None, image: None }
}

/// Content with one more part.
pub open spec fn with_part(
    c: crate::sync_record::ContentView,
    kind: domain::ClipboardContentKind,
    i: int,
    bytes: Seq<u8>,
) -> crate::sync_record::ContentView {
    if kind == domain::ClipboardContentKind::Image {
        crate::sync_record::ContentView { image: Some(bytes), ..c }
    } else if i == 0 {
        crate::sync_record::ContentView { text: Some(decode_utf8(bytes)), ..c }
    } else if i == 1 {
        crate::sync_record::ContentView { html: Some(decode_utf8(bytes)), ..c }
    } else {
        crate::sync_record::ContentView { rtf: Some(decode_utf8(bytes)), ..c }
    }
}

/// The content that parts make up.
pub open spec fn content_from(kind: domain::ClipboardContentKind, parts: Seq<Seq<u8>>) ->
    crate::sync_record::ContentView
    decreases parts.len(),
{
    if parts.len() == 0 {
        no_content()
    } else {
        with_part(
            content_from(kind, parts.drop_last()),
            kind,
            parts.len() - 1,
            parts.last(),
        )
    }
}

/// Why an entry is not received, if so, before any of its content is.
pub open spec fn start_fault(w: proto::ClipboardReplicaRecord, now: i64) -> Option<Seq<char>> {
    match metadata_fault(w, now) {
        Some(fault) => Some(fault),
        None => {
            let m = w.metadata->0;
            if w.metadata_only {
                if w.parts@.len() != 0 || m.live {
                    Some("invalid metadata-only clipboard replica"@)
                } else {
                    None
                }
            } else if w.parts@.len() != wire_count(m, w.parts@.len()) {
                Some("invalid clipboard payload parts"@)
            } else {
                None
            }
        },
    }
}

/// The number of parts that the content of an entry comes in, by its metadata.
pub open spec fn wire_count(m: proto::ClipboardSyncRecord, announced: nat) -> nat {
    if m.deleted {
        0
    } else if m.kind == proto::ClipboardContentKind::Html {
        if announced == 3 {
            3
        } else {
            2
        }
    } else {
        1
    }
}

/// An entry that is being received: its metadata, the parts that are announced,
/// and the bytes of the current part so far.
pub struct ReplicaReceiver {
    replica: domain::ClipboardReplicaRecord,
    metadata_only: bool,
    references: Vec<proto::BlobRef>,
    at: usize,
    bytes: Vec<u8>,
    done: Ghost<Seq<Seq<u8>>>,
}

/// A [`ReplicaReceiver`] as a mathematical value.
pub struct ReceivingView {
    pub replica: domain::ClipboardReplicaRecord,
    pub metadata_only: bool,
    pub references: Seq<proto::BlobRef>,
    pub done: Seq<Seq<u8>>,
    pub bytes: Seq<u8>,
}

/// True when the entry is the one that was announced, but for its content.
pub open spec fn same_but_content(
    a: domain::ClipboardReplicaRecord,
    b: domain::ClipboardReplicaRecord,
) -> bool {
    a == (domain::ClipboardReplicaRecord {
        record: domain::ClipboardSyncRecord {
            text: a.record.text,
            html: a.record.html,
            rtf: a.record.rtf,
            image_png: a.record.image_png,
            ..b.record
        },
        ..b
    })
}

/// True when the next part may be received.
pub open spec fn part_open(s: ReceivingView) -> bool {
    s.done.len() < s.references.len() && descriptor_ok(
        s.references[s.done.len() as int],
        s.replica.record.kind,
        s.done.len() as int,
    )
}

/// What holds of every entry that is being received: no part has more bytes than
/// announced, every part that is complete has the digest that was announced for
/// it, and the content is made up of those parts.
pub open spec fn receiving(s: ReceivingView) -> bool {
    &&& s.done.len() <= s.references.len()
    &&& s.bytes.len() > 0 ==> part_open(s)
    &&& s.done.len() < s.references.len() ==> s.bytes.len()
        <= s.references[s.done.len() as int].size
    &&& forall|i: int|
        0 <= i < s.done.len() ==> part_fault(
            s.references[i],
            s.replica.record.kind,
            #[trigger] s.done[i],
        ) is None
    &&& content_of(s.replica.record) == content_from(s.replica.record.kind, s.done)
    &&& s.replica.record.kind != domain::ClipboardContentKind::Files
    &&& !s.metadata_only ==> s.references.len() == expected_count(
        s.replica.record,
        s.references.len(),
    )
}

/// Begins to receive an entry that arrived at `now`, where `no_syntax` is the
/// syntax of an entry whose text was not looked at.
pub fn start_receiving(
    wire: proto::ClipboardReplicaRecord,
    no_syntax: Option<String>,
    now: i64,
) -> (r: Result<ReplicaReceiver, &'static str>)
    ensures
        match start_fault(wire, now) {
            Some(fault) => r is Err && r->Err_0@ == fault,
            None => {
                &&& r is Ok
                &&& r->Ok_0.wf()
                &&& reads_metadata(r->Ok_0@.replica, wire)
                &&& r->Ok_0@.replica.record.text_syntax_json == no_syntax
                &&& r->Ok_0@.metadata_only == wire.metadata_only
                &&& r->Ok_0@.references == wire.parts@
                &&& r->Ok_0@.done.len() == 0
                &&& r->Ok_0@.bytes.len() == 0
            },
        },
{
    let ghost whole = wire;
    let metadata_only = wire.metadata_only;
    let references = wire.parts;
    let replica = match metadata_from_wire_at(
        proto::ClipboardReplicaRecord {
            metadata: wire.metadata,
            first_captured_at_ms: wire.first_captured_at_ms,
            copy_count: wire.copy_count,
            parts: Vec::new(),
            metadata_only,
        },
        no_syntax,
        now,
    ) {
        Err(fault) => {
            return Err(fault);
        },
        Ok(replica) => replica,
    };
    if metadata_only {
        if references.len() != 0 || replica.record.live {
            return Err("invalid metadata-only clipboard replica");
        }
    } else {
        let count: usize = if replica.record.deleted {
            0
        } else {
            match replica.record.kind {
                domain::ClipboardContentKind::Html => if references.len() == 3 {
                    3
                } else {
                    2
                },
                _ => 1,
            }
        };
        if references.len() != count {
            return Err("invalid clipboard payload parts");
        }
    }
    Ok(
        ReplicaReceiver {
            replica,
            metadata_only,
            references,
            at: 0,
            bytes: Vec::new(),
            done: Ghost(Seq::empty()),
        },
    )
}

impl ReplicaReceiver {
    pub closed spec fn view(&self) -> ReceivingView {
        ReceivingView {
            replica: self.replica,
            metadata_only: self.metadata_only,
            references: self.references@,
            done: self.done@,
            bytes: self.bytes@,
        }
    }

    /// What holds of every entry that is being received.
    pub closed spec fn wf(&self) -> bool {
        receiving(self@) && self.at == self.done@.len()
    }

    /// What is known of every entry that is being received.
    pub proof fn lemma_receiving(&self)
        requires
            self.wf(),
        ensures
            receiving(self@),
    {
    }

    /// Tells whether the entry comes without its content.
    pub fn is_metadata_only(&self) -> (r: bool)
        ensures
            r == self@.metadata_only,
    {
        self.metadata_only
    }

    /// The number of bytes that are missing from the next part; nothing when no
    /// part is left.
    pub fn missing(&self) -> (r: Result<Option<usize>, &'static str>)
        requires
            self.wf(),
        ensures
            if self@.done.len() == self@.references.len() {
                r == Ok::<Option<usize>, &'static str>(None)
            } else if !part_open(self@) {
                r is Err && r->Err_0@ == "invalid clipboard payload descriptor"@
            } else {
                &&& r is Ok
                &&& r->Ok_0 is Some
                &&& r->Ok_0->0 == self@.references[self@.done.len() as int].size
                    - self@.bytes.len()
            },
    {
        if self.at == self.references.len() {
            return Ok(None);
        }
        let reference = &self.references[self.at];
        let image = self.replica.record.kind == domain::ClipboardContentKind::Image;
        let media = if image {
            "image/png"
        } else if self.at == 0 {
            "text/plain"
        } else if self.at == 1 {
            "text/html"
        } else {
            "text/rtf"
        };
        let limit: usize = if image {
            IMAGE_LIMIT
        } else if self.at == 0 {
            TEXT_LIMIT
        } else {
            RICH_LIMIT
        };
        if !str_eq(reference.media_type.as_str(), media) || reference.size > limit as u64
            || reference.sha256.len() != 32 || !bytes_eq(
            reference.blob_id.as_slice(),
            reference.sha256.as_slice(),
        ) {
            return Err("invalid clipboard payload descriptor");
        }
        Ok(Some(reference.size as usize - self.bytes.len()))
    }

    /// Takes the next chunk of a part.
    pub fn take_chunk(&mut self, chunk: Vec<u8>) -> (r: Result<(), &'static str>)
        requires
            old(self).wf(),
            part_open(old(self)@),
        ensures
            final(self).wf(),
            if chunk@.len() == 0 || old(self)@.bytes.len() + chunk@.len() > old(
                self,
            )@.references[old(self)@.done.len() as int].size {
                &&& r is Err
                &&& r->Err_0@ == "invalid clipboard payload chunk"@
                &&& final(self)@ == old(self)@
            } else {
                &&& r is Ok
                &&& final(self)@ == (ReceivingView {
                    bytes: old(self)@.bytes + chunk@,
                    ..old(self)@
                })
            },
    {
        let size: u64 = self.references[self.at].size;
        if chunk.len() == 0 || chunk.len() as u64 > size - self.bytes.len() as u64 {
            return Err("invalid clipboard payload chunk");
        }
        let mut chunk = chunk;
        self.bytes.append(&mut chunk);
        Ok(())
    }

    /// Completes a part of which nothing is missing.
    pub fn close_part(&mut self) -> (r: Result<(), &'static str>)
        requires
            old(self).wf(),
            part_open(old(self)@),
            old(self)@.bytes.len() == old(self)@.references[old(self)@.done.len() as int].size,
        ensures
            match part_fault(
                old(self)@.references[old(self)@.done.len() as int],
                old(self)@.replica.record.kind,
                old(self)@.bytes,
            ) {
                Some(fault) => r is Err && r->Err_0@ == fault,
                None => {
                    &&& r is Ok
                    &&& final(self).wf()
                    &&& final(self)@.metadata_only == old(self)@.metadata_only
                    &&& final(self)@.references == old(self)@.references
                    &&& final(self)@.done == old(self)@.done.push(old(self)@.bytes)
                    &&& final(self)@.bytes.len() == 0
                    &&& same_but_content(final(self)@.replica, old(self)@.replica)
                },
            },
    {
        let ghost before = self@;
        let i: usize = self.at;
        let digest = sha256_digest(self.bytes.as_slice());
        if !bytes_eq(digest.as_slice(), self.references[i].sha256.as_slice()) {
            return Err("clipboard payload integrity check failed");
        }
        let mut bytes: Vec<u8> = Vec::new();
        std::mem::swap(&mut bytes, &mut self.bytes);
        if self.replica.record.kind == domain::ClipboardContentKind::Image {
            self.replica.record.image_png = Some(bytes);
        } else {
            let text = match text_from_utf8(bytes) {
                None => {
                    return Err("clipboard payload is not UTF-8");
                },
                Some(text) => text,
            };
            if i == 0 {
                self.replica.record.text = Some(text);
            } else if i == 1 {
                self.replica.record.html = Some(text);
            } else {
                self.replica.record.rtf = Some(text);
            }
        }
        assert(i < self.references.len());
        self.at = i + 1;
        self.done = Ghost(before.done.push(before.bytes));
        proof {
            let after = self@;
            let kind = before.replica.record.kind;
            assert(after.done.drop_last() =~= before.done);
            assert(after.done.last() == before.bytes);
            assert(content_of(after.replica.record) == with_part(
                content_of(before.replica.record),
                kind,
                before.done.len() as int,
                before.bytes,
            ));
            assert forall|k: int| 0 <= k < after.done.len() implies part_fault(
                after.references[k],
                kind,
                #[trigger] after.done[k],
            ) is None by {
                if k < before.done.len() {
                    assert(after.done[k] == before.done[k]);
                }
            }
        }
        Ok(())
    }

    /// The entry, once all of its parts are complete.
    pub fn finish(self) -> (r: Result<domain::ClipboardReplicaRecord, &'static str>)
        requires
            self.wf(),
            self@.done.len() == self@.references.len(),
        ensures
            ({
                let record = self@.replica.record;
                if !self@.metadata_only && record.kind == domain::ClipboardContentKind::Text
                    && !record.deleted && (record.text is None || record.text->0@.len() == 0) {
                    r is Err && r->Err_0@ == "clipboard text is empty"@
                } else {
                    r == Ok::<domain::ClipboardReplicaRecord, &'static str>(self@.replica)
                }
            }),
    {
        let record = &self.replica.record;
        if !self.metadata_only && record.kind == domain::ClipboardContentKind::Text
            && !record.deleted {
            let empty = match &record.text {
                Some(text) => text.as_str().is_empty(),
                None => true,
            };
            if empty {
                return Err("clipboard text is empty");
            }
        }
        Ok(self.replica)
    }
}

/// The content that an entry has when it was received: of a deleted entry there
/// is none, and rich text always comes with plain text.
pub open spec fn sent_content(r: domain::ClipboardSyncRecord) -> crate::sync_record::ContentView {
    if r.deleted {
        no_content()
    } else {
        match r.kind {
            domain::ClipboardContentKind::Text => crate::sync_record::ContentView {
                text: crate::sync_record::text_view(r.text),
                ..no_content()
            },
            domain::ClipboardContentKind::Html => crate::sync_record::ContentView {
                text: Some(
                    match r.text {
                        Some(text) => text@,
                        None => Seq::empty(),
                    },
                ),
                html: crate::sync_record::text_view(r.html),
                rtf: crate::sync_record::text_view(r.rtf),
                image: None,
            },
            domain::ClipboardContentKind::Image => crate::sync_record::ContentView {
                image: crate::sync_record::bytes_view(r.image_png),
                ..no_content()
            },
            domain::ClipboardContentKind::Files => no_content(),
        }
    }
}

/// The bytes of parts.
pub open spec fn part_bodies(parts: Seq<PartView>) -> Seq<Seq<u8>> {
    parts.map_values(|p: PartView| p.bytes)
}

proof fn lemma_text_part(text: Option<String>)
    ensures
        text is Some ==> valid_utf8(encode_utf8(text->0@)) && decode_utf8(encode_utf8(text->0@))
            == text->0@,
        valid_utf8(Seq::<u8>::empty()),
        decode_utf8(Seq::<u8>::empty()) == Seq::<char>::empty(),
{
    if text is Some {
        encode_utf8_valid_utf8(text->0@);
        encode_utf8_decode_utf8(text->0@);
    }
    let none = Seq::<char>::empty();
    encode_utf8_valid_utf8(none);
    encode_utf8_decode_utf8(none);
    assert(encode_utf8(none) =~= Seq::<u8>::empty());
}

/// An entry that is sent with its content is received with the same content:
/// every part is expected and passes its checks, and the parts make up the
/// content that was sent.
pub proof fn lemma_content_round_trip(
    a: domain::ClipboardReplicaRecord,
    e: EncodedRecord,
    parts: Seq<PartView>,
    now: i64,
)
    requires
        parts_of(a.record) == Ok::<Seq<PartView>, Seq<char>>(parts),
        encodes(e, a, parts),
        sendable(a, now),
    ensures
        start_fault(e.header, now) is None,
        content_from(a.record.kind, part_bodies(parts)) == sent_content(a.record),
        forall|i: int|
            0 <= i < parts.len() ==> descriptor_ok(
                #[trigger] e.header.parts@[i],
                a.record.kind,
                i,
            ),
        forall|i: int|
            0 <= i < parts.len() ==> part_fault(
                e.header.parts@[i],
                a.record.kind,
                #[trigger] part_bodies(parts)[i],
            ) is None,
{
    let r = a.record;
    lemma_sendable(a, e.header, now);
    lemma_text_part(r.text);
    lemma_text_part(r.html);
    lemma_text_part(r.rtf);
    let b = part_bodies(parts);
    assert(b.len() == parts.len());
    assert forall|i: int| 0 <= i < parts.len() implies #[trigger] b[i] == parts[i].bytes by {}
    reveal_with_fuel(content_from, 4);
    if parts.len() > 0 {
        assert(describes(e.header.parts@[0], parts[0]));
        assert(b.drop_last().len() == b.len() - 1);
    }
    if parts.len() == 1 {
        assert(b.drop_last() =~= Seq::<Seq<u8>>::empty());
    }
    if parts.len() == 2 {
        assert(describes(e.header.parts@[1], parts[1]));
        assert(b.drop_last().drop_last() =~= Seq::<Seq<u8>>::empty());
        assert(b.drop_last().last() == b[0]);
    }
    if parts.len() == 3 {
        assert(describes(e.header.parts@[1], parts[1]));
        assert(describes(e.header.parts@[2], parts[2]));
        assert(b.drop_last().drop_last().drop_last() =~= Seq::<Seq<u8>>::empty());
        assert(b.drop_last().last() == b[1]);
        assert(b.drop_last().drop_last().last() == b[0]);
    }
    assert(content_from(r.kind, b) == sent_content(r));
}

/// A label that travelled is read as it came, and a membership travels and is read
/// as it is.
pub proof fn lemma_labels_are_read_as_sent(
    label: proto::ClipboardLabel,
    m: domain::ClipboardLabelMembership,
    n: proto::ClipboardLabelMembership,
)
    ensures
        meant_label(label).id@ == label.id@,
        meant_label(label).name@ == label.name@,
        meant_label(label).color@ == label.color@,
        meant_label(label).revision == label.revision,
        meant_label(label).updated_by_device_id@ == label.updated_by_device_id@,
        meant_label(label).deleted == label.deleted,
        wire_membership(m).label_id@ == m.label_id@,
        wire_membership(m).attached == m.attached,
        wire_membership(m).revision == m.revision,
        wire_membership(m).updated_by_device_id@ == m.updated_by_device_id@,
        meant_membership(n).label_id@ == n.label_id@,
        meant_membership(n).attached == n.attached,
        meant_membership(n).revision == n.revision,
        meant_membership(n).updated_by_device_id@ == n.updated_by_device_id@,
{
}

/// The metadata of an entry travels as it is, each fact in its place, and without
/// its content.
pub proof fn lemma_metadata_travels_unchanged(
    w: proto::ClipboardReplicaRecord,
    replica: domain::ClipboardReplicaRecord,
)
    requires
        shows_metadata(w, replica),
    ensures
        w.first_captured_at_ms == replica.first_captured_at_ms,
        w.copy_count == replica.copy_count,
        w.metadata is Some,
        ({
            let (m, r) = (w.metadata->0, replica.record);
            &&& m.sync_id@ == r.sync_id@
            &&& m.kind is Text <==> r.kind is Text
            &&& m.kind is Html <==> r.kind is Html
            &&& m.kind is Image <==> r.kind is Image
            &&& m.kind is Files <==> r.kind is Files
            &&& m.width == r.width && m.height == r.height
            &&& m.preview@ == r.preview@
            &&& m.source_device_id@ == r.source_device_id@
            &&& m.source_device_name@ == r.source_device_name@
            &&& m.captured_at_ms == r.captured_at_ms
            &&& m.revision == r.revision
            &&& m.updated_by_device_id@ == r.updated_by_device_id@
            &&& m.favorite == r.favorite
            &&& m.favorite_revision == r.favorite_revision
            &&& m.favorite_updated_by_device_id@ == r.favorite_updated_by_device_id@
            &&& m.deleted == r.deleted
            &&& m.live == r.live
            &&& m.change_kind is Copy <==> r.change_kind is Copy
            &&& m.change_kind is Edit <==> r.change_kind is Edit
            &&& m.change_kind is Favorite <==> r.change_kind is Favorite
            &&& m.change_kind is Label <==> r.change_kind is Label
            &&& m.change_kind is Delete <==> r.change_kind is Delete
            &&& m.change_kind is Snapshot <==> r.change_kind is Snapshot
            &&& m.payload is None && m.labels@.len() == 0
            &&& m.label_memberships@.len() == r.label_memberships@.len()
            &&& forall|i: int|
                0 <= i < m.label_memberships@.len() ==> {
                    let (told, kept) = (
                        #[trigger] m.label_memberships@[i],
                        r.label_memberships@[i],
                    );
                    told.label_id@ == kept.label_id@ && told.attached == kept.attached
                        && told.revision == kept.revision
                }
        }),
{
}

/// Metadata that travelled is read as it came, each fact in its place, as an entry
/// without content.
pub proof fn lemma_metadata_is_read_as_sent(
    replica: domain::ClipboardReplicaRecord,
    w: proto::ClipboardReplicaRecord,
)
    requires
        reads_metadata(replica, w),
    ensures
        replica.first_captured_at_ms == w.first_captured_at_ms,
        replica.copy_count == w.copy_count,
        ({
            let (m, r) = (w.metadata->0, replica.record);
            &&& r.sync_id@ == m.sync_id@
            &&& m.kind is Text <==> r.kind is Text
            &&& m.kind is Html <==> r.kind is Html
            &&& m.kind is Image <==> r.kind is Image
            &&& r.text is None && r.html is None && r.rtf is None && r.image_png is None
            &&& r.width == m.width && r.height == m.height
            &&& r.preview@ == m.preview@
            &&& r.source_device_id@ == m.source_device_id@
            &&& r.source_device_name@ == m.source_device_name@
            &&& r.captured_at_ms == m.captured_at_ms
            &&& r.revision == m.revision
            &&& r.updated_by_device_id@ == m.updated_by_device_id@
            &&& r.favorite == m.favorite
            &&& r.favorite_revision == m.favorite_revision
            &&& r.favorite_updated_by_device_id@ == m.favorite_updated_by_device_id@
            &&& r.deleted == m.deleted
            &&& r.live == m.live
            &&& m.change_kind is Copy <==> r.change_kind is Copy
            &&& m.change_kind is Edit <==> r.change_kind is Edit
            &&& m.change_kind is Favorite <==> r.change_kind is Favorite
            &&& m.change_kind is Label <==> r.change_kind is Label
            &&& m.change_kind is Delete <==> r.change_kind is Delete
            &&& m.change_kind is Snapshot <==> r.change_kind is Snapshot
            &&& r.labels@.len() == 0
            &&& r.label_memberships@.len() == m.label_memberships@.len()
            &&& forall|i: int|
                0 <= i < r.label_memberships@.len() ==> {
                    let (kept, told) = (
                        #[trigger] r.label_memberships@[i],
                        m.label_memberships@[i],
                    );
                    told.label_id@ == kept.label_id@ && told.attached == kept.attached
                        && told.revision == kept.revision
                }
        }),
{
}

/// Which metadata is proper.
pub proof fn lemma_proper_metadata(w: proto::ClipboardReplicaRecord, now: i64)
    ensures
        metadata_fault(w, now) is None ==> {
            let m = w.metadata->0;
            &&& w.metadata is Some
            &&& crate::text::utf8_len(m.sync_id@) == 64 && crate::text::all_hex(m.sync_id@)
            &&& 0 < m.revision <= i64::MAX && 0 < m.favorite_revision <= i64::MAX
            &&& 0 < w.first_captured_at_ms <= m.captured_at_ms <= now + 300_000
            &&& 0 < w.copy_count <= i32::MAX
            &&& m.kind is Text || m.kind is Html || m.kind is Image
            &&& !(m.change_kind is Unspecified)
            &&& m.live ==> m.change_kind is Copy && !m.deleted
            &&& m.payload is None && m.labels@.len() == 0
            &&& m.label_memberships@.len() <= 4096
            &&& forall|i: int, j: int|
                0 <= i < j < m.label_memberships@.len() ==> (
                #[trigger] m.label_memberships@[i]).label_id@ != (
                #[trigger] m.label_memberships@[j]).label_id@
        },
        w.metadata is None ==> metadata_fault(w, now) is Some,
{
}

/// Numbers stand for what they are meant to: no two kinds or changes share one.
pub proof fn lemma_numbers_tell_kinds_apart(
    a: proto::ClipboardContentKind,
    b: proto::ClipboardContentKind,
    x: proto::ClipboardSyncChangeKind,
    y: proto::ClipboardSyncChangeKind,
)
    ensures
        kind_number(a) == kind_number(b) <==> a == b,
        change_number(x) == change_number(y) <==> x == y,
        kind_number(a) == 0 <==> a is Unspecified,
        change_number(x) == 0 <==> x is Unspecified,
{
}

/// The content of an entry goes by its kind: a text as plain text, rich text with
/// plain text before it, an image as it is; of a deleted entry nothing goes, and
/// files never do.
pub proof fn lemma_parts_are_the_content(r: domain::ClipboardSyncRecord)
    ensures
        r.deleted ==> parts_of(r) is Ok && parts_of(r)->Ok_0.len() == 0,
        !r.deleted && r.kind is Files ==> parts_of(r) is Err,
        !r.deleted && r.kind is Text && r.text is Some ==> {
            let bytes = encode_utf8(r.text->0@);
            &&& parts_of(r) is Ok <==> bytes.len() <= 1_048_576
            &&& parts_of(r) is Ok ==> parts_of(r)->Ok_0.len() == 1 && parts_of(r)->Ok_0[0].bytes
                == bytes && parts_of(r)->Ok_0[0].media_type == "text/plain"@
        },
        !r.deleted && r.kind is Text && r.text is None ==> parts_of(r) is Err,
        !r.deleted && r.kind is Image && r.image_png is Some ==> {
            let bytes = r.image_png->0@;
            &&& parts_of(r) is Ok <==> bytes.len() <= 20_971_520
            &&& parts_of(r) is Ok ==> parts_of(r)->Ok_0.len() == 1 && parts_of(r)->Ok_0[0].bytes
                == bytes && parts_of(r)->Ok_0[0].media_type == "image/png"@
        },
        !r.deleted && r.kind is Image && r.image_png is None ==> parts_of(r) is Err,
        !r.deleted && r.kind is Html && r.html is None ==> parts_of(r) is Err,
        !r.deleted && r.kind is Html && parts_of(r) is Ok ==> {
            let parts = parts_of(r)->Ok_0;
            &&& r.html is Some
            &&& parts.len() == if r.rtf is Some {
                3int
            } else {
                2
            }
            &&& parts[0].media_type == "text/plain"@
            &&& r.text is Some ==> parts[0].bytes == encode_utf8(r.text->0@)
            &&& r.text is None ==> parts[0].bytes.len() == 0
            &&& parts[1].media_type == "text/html"@ && parts[1].bytes == encode_utf8(r.html->0@)
            &&& r.rtf is Some ==> parts[2].media_type == "text/rtf"@ && parts[2].bytes
                == encode_utf8(r.rtf->0@)
        },
{
}

/// Parts that were received are the content of the entry: of an image the image, of
/// a text the text, of rich text plain text, rich text and its other form, in this
/// order.
pub proof fn lemma_received_parts_are_the_content(
    kind: domain::ClipboardContentKind,
    parts: Seq<Seq<u8>>,
)
    ensures
        parts.len() == 0 ==> content_from(kind, parts) == no_content(),
        kind is Image && parts.len() == 1 ==> content_from(kind, parts).image == Some(parts[0])
            && content_from(kind, parts).text is None,
        !(kind is Image) && parts.len() == 1 ==> content_from(kind, parts).text == Some(
            decode_utf8(parts[0]),
        ) && content_from(kind, parts).html is None && content_from(kind, parts).image is None,
        !(kind is Image) && parts.len() == 2 ==> content_from(kind, parts).text == Some(
            decode_utf8(parts[0]),
        ) && content_from(kind, parts).html == Some(decode_utf8(parts[1])) && content_from(
            kind,
            parts,
        ).rtf is None && content_from(kind, parts).image is None,
        !(kind is Image) && parts.len() == 3 ==> content_from(kind, parts).text == Some(
            decode_utf8(parts[0]),
        ) && content_from(kind, parts).html == Some(decode_utf8(parts[1])) && content_from(
            kind,
            parts,
        ).rtf == Some(decode_utf8(parts[2])) && content_from(kind, parts).image is None,
{
    reveal_with_fuel(content_from, 4);
    if parts.len() >= 2 {
        assert(parts.drop_last().last() == parts[parts.len() - 2]);
    }
    if parts.len() == 3 {
        assert(parts.drop_last().drop_last().last() == parts[0]);
    }
}

/// A part is announced by the digest of its own bytes, by its length and by its kind.
pub proof fn lemma_parts_are_announced_as_they_are(
    e: EncodedRecord,
    replica: domain::ClipboardReplicaRecord,
    parts: Seq<PartView>,
    i: int,
)
    requires
        encodes(e, replica, parts),
        0 <= i < parts.len(),
    ensures
        e.header.parts@.len() == parts.len(),
        e.parts@.len() == parts.len(),
        e.parts@[i]@ == parts[i].bytes,
        e.header.parts@[i].size == e.parts@[i]@.len(),
        e.header.parts@[i].sha256@ == crate::outside::sha256(e.parts@[i]@),
        e.header.parts@[i].blob_id@ == crate::outside::sha256(e.parts@[i]@),
        e.header.parts@[i].media_type@ == parts[i].media_type,
        !e.header.metadata_only,
{
    assert(describes(e.header.parts@[i], parts[i]));
    assert(e.parts@[i]@ == parts[i].bytes);
}

/// A part whose bytes are not those that were announced is never accepted, nor text
/// that is none.
pub proof fn lemma_false_parts_are_refused(
    reference: proto::BlobRef,
    kind: domain::ClipboardContentKind,
    bytes: Seq<u8>,
)
    ensures
        part_fault(reference, kind, bytes) is None <==> crate::outside::sha256(bytes)
            == reference.sha256@ && (kind is Image || valid_utf8(bytes)),
{
}

/// A label is proper when it has an id and a name of at most 128 bytes, a color of 3, 6
/// or 8 hexadecimal digits behind a number sign, and a version.
pub proof fn lemma_proper_labels(label: proto::ClipboardLabel, color: Seq<char>)
    ensures
        label_ok(label) ==> {
            &&& !crate::text::blank(label.id@) && crate::text::utf8_len(label.id@) <= 128
            &&& crate::text::control_free(label.id@)
            &&& !crate::text::blank(label.name@) && crate::text::utf8_len(label.name@) <= 128
            &&& color_ok(label.color@)
            &&& 0 < label.revision <= 0x7fff_ffff_ffff_ffff
            &&& !crate::text::blank(label.updated_by_device_id@)
            &&& crate::text::utf8_len(label.updated_by_device_id@) <= 128
        },
        !crate::text::blank(label.id@) && crate::text::utf8_len(label.id@) <= 128
            && crate::text::control_free(label.id@) && !crate::text::blank(label.name@)
            && crate::text::utf8_len(label.name@) <= 128 && color_ok(label.color@) && 0
            < label.revision <= 0x7fff_ffff_ffff_ffff && !crate::text::blank(
            label.updated_by_device_id@,
        ) && crate::text::utf8_len(label.updated_by_device_id@) <= 128
            && crate::text::control_free(label.updated_by_device_id@) ==> label_ok(label),
        color_ok(color) ==> color.len() > 0 && color[0] == '#' && crate::text::all_hex(
            color.skip(1),
        ) && (crate::text::utf8_len(color) == 4 || crate::text::utf8_len(color) == 7
            || crate::text::utf8_len(color) == 9),
        color.len() > 0 && color[0] == '#' && crate::text::all_hex(color.skip(1)) && (
        crate::text::utf8_len(color) == 4 || crate::text::utf8_len(color) == 7
            || crate::text::utf8_len(color) == 9) ==> color_ok(color),
{
}

/// Each kind of content travels in its own parts: a text in one, rich text in two or
/// three, an image in one, and files and what was deleted in none.
pub proof fn lemma_parts_of_each_kind(r: domain::ClipboardSyncRecord, announced: nat, i: int)
    ensures
        r.deleted ==> expected_count(r, announced) == 0,
        !r.deleted && r.kind is Text ==> expected_count(r, announced) == 1,
        !r.deleted && r.kind is Html ==> 2 <= expected_count(r, announced) <= 3,
        !r.deleted && r.kind is Html && 2 <= announced <= 3 ==> expected_count(r, announced)
            == announced,
        !r.deleted && r.kind is Image ==> expected_count(r, announced) == 1,
        !r.deleted && r.kind is Files ==> expected_count(r, announced) == 0,
        r.kind is Image ==> expected_media(r.kind, i) == "image/png"@ && expected_limit(r.kind, i)
            == 20_971_520,
        !(r.kind is Image) ==> expected_media(r.kind, 0) == "text/plain"@ && expected_limit(
            r.kind,
            0,
        ) == 1_048_576,
        !(r.kind is Image) ==> expected_media(r.kind, 1) == "text/html"@ && expected_limit(
            r.kind,
            1,
        ) == 16_777_216,
        !(r.kind is Image) ==> expected_media(r.kind, 2) == "text/rtf"@ && expected_limit(
            r.kind,
            2,
        ) == 16_777_216,
{
}

/// A part is what it was made of, where there is something and it is not too large.
pub proof fn lemma_parts_are_made_of_their_bytes(
    bytes: Option<Seq<u8>>,
    media_type: Seq<char>,
    limit: nat,
)
    ensures
        part_of(bytes, media_type, limit) is Ok <==> bytes is Some && bytes->0.len() <= limit,
        part_of(bytes, media_type, limit) is Ok ==> part_of(
            bytes,
            media_type,
            limit,
        )->Ok_0.bytes == bytes->0 && part_of(bytes, media_type, limit)->Ok_0.media_type
            == media_type,
{
}

/// A part can be received while one that was announced properly is still to come.
pub proof fn lemma_which_parts_can_come(s: ReceivingView)
    ensures
        part_open(s) ==> s.done.len() < s.references.len(),
        part_open(s) ==> ({
            let next = s.references[s.done.len() as int];
            &&& next.sha256@.len() == 32
            &&& next.blob_id@ == next.sha256@
            &&& next.media_type@ == expected_media(s.replica.record.kind, s.done.len() as int)
        }),
        s.done.len() == s.references.len() ==> !part_open(s),
{
}

} // verus!
