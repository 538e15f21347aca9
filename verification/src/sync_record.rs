//! Clipboard entries that devices keep in step: which ones are accepted, what
//! they are called, and how their content travels.

use vstd::prelude::*;
use vstd::string::*;
use vstd::utf8::*;

use crate::blob_store::{BlobStore, BLOB_IDLE_TTL_MS};
use crate::clipboard_upload::ClipboardUploadStore;
use crate::domain;
use crate::outside::{sha256_digest, text_from_utf8, xxh3_hash};
use crate::proto;
use crate::proto_msg::{
    change_kind_from_proto, change_kind_to_proto, clipboard_kind_from_proto,
    clipboard_kind_to_proto,
};
use crate::queries::protocol_timestamp_at;
use crate::text::{
    byte_len, bytes_eq, hex_bytes, hex_text, is_all_hex, sanitize_text, str_eq,
};

verus! {

/// The longest preview of an entry, in bytes.
pub const MAX_SYNC_PREVIEW_BYTES: usize = 2048;

/// The longest synchronized text, in bytes.
pub const MAX_SYNC_TEXT_BYTES: usize = 786_432;

/// The longest plain form of formatted text, in bytes.
pub const MAX_SYNC_PLAIN_BYTES: usize = 1_048_576;

/// The longest formatted text, in bytes.
pub const MAX_SYNC_RICH_BYTES: u64 = 16_777_216;

/// The largest synchronized image, in bytes.
pub const MAX_SYNC_IMAGE_BYTES: u64 = 20_971_520;

/// How far in the future an entry may claim to be, in milliseconds.
pub const MAX_SYNC_CLOCK_SKEW_MS: i64 = 300_000;

/// True when the reference points at a blob of the media type, not empty and
/// not too large, by its digest.
pub open spec fn blob_ref_ok(
    reference: Option<proto::BlobRef>,
    media_type: Seq<char>,
    maximum: u64,
) -> bool {
    &&& reference is Some
    &&& reference->0.blob_id@.len() == 32
    &&& reference->0.blob_id@ == reference->0.sha256@
    &&& 0 < reference->0.size <= maximum
    &&& reference->0.media_type@ == media_type
}

/// Tells whether a reference can be taken.
pub fn valid_clipboard_blob_ref(
    reference: &Option<proto::BlobRef>,
    media_type: &str,
    maximum: u64,
) -> (r: bool)
    ensures
        r == blob_ref_ok(*reference, media_type@, maximum),
{
    match reference {
        None => false,
        Some(reference) => reference.blob_id.len() == 32 && reference.sha256.len() == 32
            && bytes_eq(reference.blob_id.as_slice(), reference.sha256.as_slice())
            && reference.size > 0 && reference.size <= maximum && str_eq(
            reference.media_type.as_str(),
            media_type,
        ),
    }
}

fn valid_clipboard_image(reference: &proto::BlobRef) -> (r: bool)
    ensures
        r == blob_ref_ok(Some(*reference), "image/png"@, MAX_SYNC_IMAGE_BYTES),
{
    reference.blob_id.len() == 32 && bytes_eq(
        reference.blob_id.as_slice(),
        reference.sha256.as_slice(),
    ) && reference.size > 0 && reference.size <= MAX_SYNC_IMAGE_BYTES && str_eq(
        reference.media_type.as_str(),
        "image/png",
    )
}

/// What is wrong with the content of an entry that was not deleted, if anything.
pub open spec fn payload_fault(
    kind: proto::ClipboardContentKind,
    payload: Option<proto::ClipboardPayload>,
) -> Option<Seq<char>> {
    match kind {
        proto::ClipboardContentKind::Text => if payload matches Some(
            proto::ClipboardPayload::Text(text),
        ) && text@.len() > 0 && crate::text::utf8_len(text@) <= MAX_SYNC_TEXT_BYTES {
            None
        } else {
            Some("invalid synchronized text payload"@)
        },
        proto::ClipboardContentKind::Html => match payload {
            Some(proto::ClipboardPayload::RichText(rich)) => if crate::text::utf8_len(
                rich.plain_text@,
            ) > MAX_SYNC_PLAIN_BYTES || !blob_ref_ok(
                rich.html,
                "text/html; charset=utf-8"@,
                MAX_SYNC_RICH_BYTES,
            ) || (rich.rtf is Some && !blob_ref_ok(rich.rtf, "text/rtf"@, MAX_SYNC_RICH_BYTES)) {
                Some("invalid synchronized rich-text payload"@)
            } else {
                None
            },
            _ => Some("synchronized rich text is required"@),
        },
        proto::ClipboardContentKind::Image => match payload {
            Some(proto::ClipboardPayload::Image(image)) => if !blob_ref_ok(
                Some(image),
                "image/png"@,
                MAX_SYNC_IMAGE_BYTES,
            ) {
                Some("invalid synchronized image reference"@)
            } else {
                None
            },
            _ => Some("synchronized image reference is required"@),
        },
        proto::ClipboardContentKind::Files => if payload is Some {
            Some("synchronized file metadata cannot include payloads"@)
        } else {
            None
        },
        proto::ClipboardContentKind::Unspecified => Some("invalid clipboard sync kind"@),
    }
}

/// True when a number counts revisions.
pub open spec fn revision_ok(revision: u64) -> bool {
    0 < revision <= i64::MAX
}

/// What is wrong with an entry that arrived at `now`, if anything.
pub open spec fn sync_record_fault(r: proto::ClipboardSyncRecord, now: i64) -> Option<Seq<char>> {
    if crate::text::utf8_len(r.sync_id@) != 64 || !crate::text::all_hex(r.sync_id@) {
        Some("invalid clipboard sync identifier"@)
    } else if !revision_ok(r.favorite_revision) {
        Some("invalid clipboard sync favorite revision"@)
    } else if r.labels@.len() > 0 || r.label_memberships@.len() > 0 {
        Some("clipboard sync labels are not supported"@)
    } else if crate::text::utf8_len(r.preview@) > MAX_SYNC_PREVIEW_BYTES {
        Some("clipboard sync preview exceeds limit"@)
    } else if !revision_ok(r.revision) {
        Some("invalid clipboard sync revision"@)
    } else if r.captured_at_ms <= 0 || r.captured_at_ms > now + MAX_SYNC_CLOCK_SKEW_MS {
        Some("invalid clipboard sync capture timestamp"@)
    } else if r.change_kind == proto::ClipboardSyncChangeKind::Unspecified || r.kind
        == proto::ClipboardContentKind::Unspecified {
        Some("invalid clipboard sync kind"@)
    } else if r.deleted {
        if r.payload is Some {
            Some("deleted clipboard sync records cannot include payloads"@)
        } else {
            None
        }
    } else {
        payload_fault(r.kind, r.payload)
    }
}

/// Checks an entry that arrived at a given time.
pub fn validate_clipboard_sync_record_at(record: &proto::ClipboardSyncRecord, now: i64) -> (r:
    Result<(), &'static str>)
    ensures
        crate::queries::reports_fault(r, sync_record_fault(*record, now)),
{
    if byte_len(record.sync_id.as_str()) != 64 || !is_all_hex(record.sync_id.as_str()) {
        return Err("invalid clipboard sync identifier");
    }
    if record.favorite_revision == 0 || record.favorite_revision > 0x7fff_ffff_ffff_ffff {
        return Err("invalid clipboard sync favorite revision");
    }
    if record.labels.len() > 0 || record.label_memberships.len() > 0 {
        return Err("clipboard sync labels are not supported");
    }
    if byte_len(record.preview.as_str()) > MAX_SYNC_PREVIEW_BYTES {
        return Err("clipboard sync preview exceeds limit");
    }
    if record.revision == 0 || record.revision > 0x7fff_ffff_ffff_ffff {
        return Err("invalid clipboard sync revision");
    }
    if record.captured_at_ms <= 0 || record.captured_at_ms as i128 > now as i128
        + MAX_SYNC_CLOCK_SKEW_MS as i128 {
        return Err("invalid clipboard sync capture timestamp");
    }
    if record.change_kind == proto::ClipboardSyncChangeKind::Unspecified || record.kind
        == proto::ClipboardContentKind::Unspecified {
        return Err("invalid clipboard sync kind");
    }
    if record.deleted {
        if record.payload.is_some() {
            return Err("deleted clipboard sync records cannot include payloads");
        }
        return Ok(());
    }
    match record.kind {
        proto::ClipboardContentKind::Text => match &record.payload {
            Some(proto::ClipboardPayload::Text(text)) => {
                if text.as_str().is_empty() || byte_len(text.as_str()) > MAX_SYNC_TEXT_BYTES {
                    return Err("invalid synchronized text payload");
                }
            },
            _ => {
                return Err("invalid synchronized text payload");
            },
        },
        proto::ClipboardContentKind::Html => match &record.payload {
            Some(proto::ClipboardPayload::RichText(rich)) => {
                if byte_len(rich.plain_text.as_str()) > MAX_SYNC_PLAIN_BYTES
                    || !valid_clipboard_blob_ref(
                    &rich.html,
                    "text/html; charset=utf-8",
                    MAX_SYNC_RICH_BYTES,
                ) || (rich.rtf.is_some() && !valid_clipboard_blob_ref(
                    &rich.rtf,
                    "text/rtf",
                    MAX_SYNC_RICH_BYTES,
                )) {
                    return Err("invalid synchronized rich-text payload");
                }
            },
            _ => {
                return Err("synchronized rich text is required");
            },
        },
        proto::ClipboardContentKind::Image => match &record.payload {
            Some(proto::ClipboardPayload::Image(image)) => {
                if !valid_clipboard_image(image) {
                    return Err("invalid synchronized image reference");
                }
            },
            _ => {
                return Err("synchronized image reference is required");
            },
        },
        proto::ClipboardContentKind::Files => {
            if record.payload.is_some() {
                return Err("synchronized file metadata cannot include payloads");
            }
        },
        proto::ClipboardContentKind::Unspecified => {
            return Err("invalid clipboard sync kind");
        },
    }
    Ok(())
}

/// Checks an entry that arrives now.
pub fn validate_clipboard_sync_record(record: &proto::ClipboardSyncRecord) -> (r: Result<
    (),
    &'static str,
>)
    ensures
        exists|now: i64|
            now >= 0 && #[trigger] crate::queries::reports_fault(
                r,
                sync_record_fault(*record, now),
            ),
{
    let now: i64 = crate::product::now_ms();
    validate_clipboard_sync_record_at(record, now)
}

/// The content of an entry as a mathematical value.
pub struct ContentView {
    pub text: Option<Seq<char>>,
    pub html: Option<Seq<char>>,
    pub rtf: Option<Seq<char>>,
    pub image: Option<Seq<u8>>,
}

/// The bytes of a text, none for no text.
pub open spec fn text_bytes(text: Option<Seq<char>>) -> Seq<u8> {
    match text {
        Some(chars) => encode_utf8(chars),
        None => Seq::empty(),
    }
}

/// What the hash of an entry's content is taken of.
pub open spec fn hashed_content(
    kind: domain::ClipboardContentKind,
    content: ContentView,
) -> Seq<u8> {
    match kind {
        domain::ClipboardContentKind::Text => encode_utf8("text\0"@) + text_bytes(content.text),
        domain::ClipboardContentKind::Html => {
            let plain = encode_utf8("rich-text\0"@) + text_bytes(content.html) + encode_utf8(
                "\0text\0"@,
            ) + text_bytes(content.text);
            match content.rtf {
                Some(rtf) => plain + encode_utf8("\0rtf\0"@) + encode_utf8(rtf),
                None => plain,
            }
        },
        domain::ClipboardContentKind::Image => encode_utf8("image\0"@) + match content.image {
            Some(bytes) => bytes,
            None => Seq::empty(),
        },
        domain::ClipboardContentKind::Files => encode_utf8("files\0"@),
    }
}

/// The name of an entry with this content: a digest of the hash of the content.
pub open spec fn sync_id(kind: domain::ClipboardContentKind, content: ContentView) -> Seq<char> {
    crate::text::hex_of_bytes(
        crate::outside::sha256(
            encode_utf8("arcrelay-clipboard-sync-v1\0"@) + encode_utf8(
                crate::text::hex_digits(
                    crate::outside::xxh3(hashed_content(kind, content)) as nat,
                    32,
                ),
            ),
        ),
    )
}

/// A text as a mathematical value, if there is one.
pub open spec fn text_view(text: Option<String>) -> Option<Seq<char>> {
    match text {
        Some(value) => Some(value@),
        None => None,
    }
}

/// A byte string as a mathematical value, if there is one.
pub open spec fn bytes_view(bytes: Option<Vec<u8>>) -> Option<Seq<u8>> {
    match bytes {
        Some(value) => Some(value@),
        None => None,
    }
}

fn push_bytes(out: &mut Vec<u8>, bytes: &[u8])
    ensures
        final(out)@ == old(out)@ + bytes@,
{
    let ghost before = out@;
    let mut i: usize = 0;
    while i < bytes.len()
        invariant
            i <= bytes@.len(),
            out@ == before + bytes@.take(i as int),
        decreases bytes@.len() - i,
    {
        out.push(bytes[i]);
        assert(out@ =~= before + bytes@.take(i as int + 1));
        i += 1;
    }
    assert(bytes@.take(bytes@.len() as int) =~= bytes@);
}

fn push_text(out: &mut Vec<u8>, text: &str)
    ensures
        final(out)@ == old(out)@ + encode_utf8(text@),
{
    push_bytes(out, text.as_bytes());
}

fn push_optional(out: &mut Vec<u8>, text: &Option<String>)
    ensures
        final(out)@ == old(out)@ + text_bytes(text_view(*text)),
{
    match text {
        Some(value) => push_text(out, value.as_str()),
        None => {
            assert(out@ + Seq::<u8>::empty() =~= out@);
        },
    }
}

/// Names an entry by its content.
pub fn clipboard_sync_id(
    kind: domain::ClipboardContentKind,
    text: &Option<String>,
    html: &Option<String>,
    rtf: &Option<String>,
    image_png: &Option<Vec<u8>>,
) -> (r: String)
    ensures
        r@ == sync_id(
            kind,
            (ContentView {
                text: text_view(*text),
                html: text_view(*html),
                rtf: text_view(*rtf),
                image: bytes_view(*image_png),
            }),
        ),
{
    let ghost content = ContentView {
        text: text_view(*text),
        html: text_view(*html),
        rtf: text_view(*rtf),
        image: bytes_view(*image_png),
    };
    let mut bytes: Vec<u8> = Vec::new();
    match kind {
        domain::ClipboardContentKind::Text => {
            push_text(&mut bytes, "text\0");
            push_optional(&mut bytes, text);
        },
        domain::ClipboardContentKind::Html => {
            push_text(&mut bytes, "rich-text\0");
            push_optional(&mut bytes, html);
            push_text(&mut bytes, "\0text\0");
            push_optional(&mut bytes, text);
            if let Some(rtf) = rtf {
                push_text(&mut bytes, "\0rtf\0");
                push_text(&mut bytes, rtf.as_str());
            }
        },
        domain::ClipboardContentKind::Image => {
            push_text(&mut bytes, "image\0");
            if let Some(image) = image_png {
                push_bytes(&mut bytes, image.as_slice());
            }
        },
        domain::ClipboardContentKind::Files => {
            push_text(&mut bytes, "files\0");
        },
    }
    assert(bytes@ =~= hashed_content(kind, content));
    let hash: u128 = xxh3_hash(bytes.as_slice());
    let content_hash = hex_text(hash, 32);
    let mut named: Vec<u8> = Vec::new();
    push_text(&mut named, "arcrelay-clipboard-sync-v1\0");
    push_text(&mut named, content_hash.as_str());
    assert(named@ =~= encode_utf8("arcrelay-clipboard-sync-v1\0"@) + encode_utf8(content_hash@));
    let digest = sha256_digest(named.as_slice());
    hex_bytes(digest.as_slice())
}

/// The content that a valid entry brings, taken from what was uploaded before,
/// or why it cannot be had.
pub open spec fn brought_content(
    r: proto::ClipboardSyncRecord,
    uploads: Seq<crate::clipboard_upload::UploadView>,
) -> Result<ContentView, Seq<char>> {
    let nothing = ContentView { text: None, html: None, rtf: None, image: None };
    if r.deleted || r.kind == proto::ClipboardContentKind::Files {
        Ok(nothing)
    } else {
        match r.payload {
            Some(proto::ClipboardPayload::Text(text)) => Ok(
                ContentView { text: Some(text@), ..nothing },
            ),
            Some(proto::ClipboardPayload::RichText(rich)) => {
                let html = rich.html->0;
                match crate::clipboard_upload::found(
                    uploads,
                    html.blob_id@,
                    html.sha256@,
                    "text/html; charset=utf-8"@,
                ) {
                    None => Err("clipboard HTML upload is unavailable"@),
                    Some(bytes) => if !valid_utf8(bytes) {
                        Err("clipboard HTML upload is not UTF-8"@)
                    } else {
                        let with_html = ContentView {
                            text: Some(rich.plain_text@),
                            html: Some(decode_utf8(bytes)),
                            ..nothing
                        };
                        match rich.rtf {
                            None => Ok(with_html),
                            Some(rtf) => match crate::clipboard_upload::found(
                                uploads,
                                rtf.blob_id@,
                                rtf.sha256@,
                                "text/rtf"@,
                            ) {
                                None => Err("clipboard RTF upload is unavailable"@),
                                Some(raw) => if !valid_utf8(raw) {
                                    Err("clipboard RTF upload is not UTF-8"@)
                                } else {
                                    Ok(ContentView { rtf: Some(decode_utf8(raw)), ..with_html })
                                },
                            },
                        }
                    },
                }
            },
            Some(proto::ClipboardPayload::Image(image)) => match crate::clipboard_upload::found(
                uploads,
                image.blob_id@,
                image.sha256@,
                "image/png"@,
            ) {
                None => Err("clipboard image upload is unavailable"@),
                Some(bytes) => Ok(ContentView { image: Some(bytes), ..nothing }),
            },
            None => Ok(nothing),
        }
    }
}

/// True when taking the content in looks at the uploads.
pub open spec fn reads_uploads(r: proto::ClipboardSyncRecord) -> bool {
    &&& !r.deleted
    &&& r.kind != proto::ClipboardContentKind::Files
    &&& r.payload is Some
    &&& !(r.payload->0 is Text)
}

/// True when `d` is the entry `r` with this content, taken in from a device that
/// proved who it is. What the entry says of its authors counts for nothing.
pub open spec fn is_taken_in(
    d: domain::ClipboardSyncRecord,
    r: proto::ClipboardSyncRecord,
    content: ContentView,
    device_id: Seq<char>,
    device_name: Seq<char>,
) -> bool {
    &&& Some(d.kind) == crate::proto_msg::meant_clipboard_kind(r.kind)
    &&& d.sync_id@ == if r.deleted || r.kind == proto::ClipboardContentKind::Files {
        r.sync_id@
    } else {
        sync_id(d.kind, content)
    }
    &&& text_view(d.text) == content.text
    &&& text_view(d.html) == content.html
    &&& text_view(d.rtf) == content.rtf
    &&& bytes_view(d.image_png) == content.image
    &&& d.width == r.width
    &&& d.height == r.height
    &&& d.preview@ == r.preview@
    &&& text_view(d.source_app) == text_view(r.source_app)
    &&& d.source_device_id@ == device_id
    &&& d.source_device_name@ == device_name
    &&& d.captured_at_ms == r.captured_at_ms
    &&& d.revision == r.revision
    &&& d.updated_by_device_id@ == device_id
    &&& d.favorite == r.favorite
    &&& d.favorite_revision == r.favorite_revision
    &&& d.favorite_updated_by_device_id@ == device_id
    &&& d.labels@.len() == 0
    &&& d.label_memberships@.len() == 0
    &&& d.deleted == r.deleted
    &&& Some(d.change_kind) == crate::proto_msg::meant_change_kind(r.change_kind)
    &&& d.live == r.live
    &&& d.text_syntax_json is None
}

struct Content {
    text: Option<String>,
    html: Option<String>,
    rtf: Option<String>,
    image_png: Option<Vec<u8>>,
}

impl Content {
    spec fn view(&self) -> ContentView {
        ContentView {
            text: text_view(self.text),
            html: text_view(self.html),
            rtf: text_view(self.rtf),
            image: bytes_view(self.image_png),
        }
    }
}

fn bring_content(
    record: &proto::ClipboardSyncRecord,
    uploads: &mut ClipboardUploadStore,
    now: u64,
) -> (r: Result<Content, &'static str>)
    requires
        old(uploads).wf(),
        payload_fault(record.kind, record.payload) is None || record.deleted,
    ensures
        final(uploads).wf(),
        final(uploads)@ == if reads_uploads(*record) {
            crate::clipboard_upload::pruned(old(uploads)@, now)
        } else {
            old(uploads)@
        },
        match brought_content(*record, crate::clipboard_upload::pruned(old(uploads)@, now)) {
            Ok(content) => r is Ok && r->Ok_0@ == content,
            Err(fault) => r is Err && r->Err_0@ == fault,
        },
{
    let ghost kept = crate::clipboard_upload::pruned(uploads@, now);
    proof {
        crate::clipboard_upload::lemma_pruned_twice(uploads@, now);
    }
    if record.deleted || record.kind == proto::ClipboardContentKind::Files {
        return Ok(Content { text: None, html: None, rtf: None, image_png: None });
    }
    match &record.payload {
        None => Ok(Content { text: None, html: None, rtf: None, image_png: None }),
        Some(proto::ClipboardPayload::Text(text)) => Ok(
            Content { text: Some(text.clone()), html: None, rtf: None, image_png: None },
        ),
        Some(proto::ClipboardPayload::RichText(rich)) => match &rich.html {
            None => Ok(Content { text: None, html: None, rtf: None, image_png: None }),
            Some(reference) => {
                let html = match uploads.get(
                    reference.blob_id.as_slice(),
                    reference.sha256.as_slice(),
                    "text/html; charset=utf-8",
                    now,
                ) {
                    None => {
                        return Err("clipboard HTML upload is unavailable");
                    },
                    Some(bytes) => match text_from_utf8(bytes) {
                        None => {
                            return Err("clipboard HTML upload is not UTF-8");
                        },
                        Some(html) => html,
                    },
                };
                let rtf = match &rich.rtf {
                    None => None,
                    Some(reference) => match uploads.get(
                        reference.blob_id.as_slice(),
                        reference.sha256.as_slice(),
                        "text/rtf",
                        now,
                    ) {
                        None => {
                            return Err("clipboard RTF upload is unavailable");
                        },
                        Some(bytes) => match text_from_utf8(bytes) {
                            None => {
                                return Err("clipboard RTF upload is not UTF-8");
                            },
                            Some(rtf) => Some(rtf),
                        },
                    },
                };
                Ok(
                    Content {
                        text: Some(rich.plain_text.clone()),
                        html: Some(html),
                        rtf,
                        image_png: None,
                    },
                )
            },
        },
        Some(proto::ClipboardPayload::Image(image)) => match uploads.get(
            image.blob_id.as_slice(),
            image.sha256.as_slice(),
            "image/png",
            now,
        ) {
            None => Err("clipboard image upload is unavailable"),
            Some(bytes) => Ok(
                Content { text: None, html: None, rtf: None, image_png: Some(bytes) },
            ),
        },
    }
}

/// Takes an entry in from a device that proved who it is. The syntax of its text
/// is left for the receiver to find out.
pub fn sync_record_from_proto(
    record: &proto::ClipboardSyncRecord,
    uploads: &mut ClipboardUploadStore,
    authenticated_device_id: &str,
    authenticated_device_name: &str,
    wall_now: i64,
    now: u64,
) -> (r: Result<domain::ClipboardSyncRecord, &'static str>)
    requires
        old(uploads).wf(),
    ensures
        final(uploads).wf(),
        match sync_record_fault(*record, wall_now) {
            Some(fault) => r is Err && r->Err_0@ == fault && final(uploads)@ == old(uploads)@,
            None => {
                &&& final(uploads)@ == if reads_uploads(*record) {
                    crate::clipboard_upload::pruned(old(uploads)@, now)
                } else {
                    old(uploads)@
                }
                &&& match brought_content(
                    *record,
                    crate::clipboard_upload::pruned(old(uploads)@, now),
                ) {
                    Err(fault) => r is Err && r->Err_0@ == fault,
                    Ok(content) => r is Ok && is_taken_in(
                        r->Ok_0,
                        *record,
                        content,
                        authenticated_device_id@,
                        authenticated_device_name@,
                    ),
                }
            },
        },
{
    if let Err(fault) = validate_clipboard_sync_record_at(record, wall_now) {
        return Err(fault);
    }
    let kind = match clipboard_kind_from_proto(record.kind) {
        Some(kind) => kind,
        None => {
            return Err("invalid clipboard sync kind");
        },
    };
    let change_kind = match change_kind_from_proto(record.change_kind) {
        Some(change_kind) => change_kind,
        None => {
            return Err("invalid clipboard sync change kind");
        },
    };
    let content = match bring_content(record, uploads, now) {
        Err(fault) => {
            return Err(fault);
        },
        Ok(content) => content,
    };
    let sync_id = if record.deleted || record.kind == proto::ClipboardContentKind::Files {
        record.sync_id.clone()
    } else {
        clipboard_sync_id(kind, &content.text, &content.html, &content.rtf, &content.image_png)
    };
    Ok(
        domain::ClipboardSyncRecord {
            sync_id,
            kind,
            text: content.text,
            html: content.html,
            rtf: content.rtf,
            image_png: content.image_png,
            width: record.width,
            height: record.height,
            preview: record.preview.clone(),
            source_app: match &record.source_app {
                Some(name) => Some(name.clone()),
                None => None,
            },
            source_device_id: authenticated_device_id.to_owned(),
            source_device_name: authenticated_device_name.to_owned(),
            captured_at_ms: record.captured_at_ms,
            revision: record.revision,
            updated_by_device_id: authenticated_device_id.to_owned(),
            favorite: record.favorite,
            favorite_revision: record.favorite_revision,
            favorite_updated_by_device_id: authenticated_device_id.to_owned(),
            labels: Vec::new(),
            label_memberships: Vec::new(),
            deleted: record.deleted,
            change_kind,
            live: record.live,
            text_syntax_json: None,
        },
    )
}

/// What an entry carries as a mathematical value.
pub enum PayloadView {
    Text { text: Seq<char> },
    RichText {
        plain_text: Seq<char>,
        html: Option<proto::BlobRefView>,
        rtf: Option<proto::BlobRefView>,
    },
    Image { image: proto::BlobRefView },
}

/// What an entry carries, as a mathematical value.
pub open spec fn payload_view(payload: Option<proto::ClipboardPayload>) -> Option<PayloadView> {
    match payload {
        Some(proto::ClipboardPayload::Text(text)) => Some(PayloadView::Text { text: text@ }),
        Some(proto::ClipboardPayload::RichText(rich)) => Some(
            PayloadView::RichText {
                plain_text: rich.plain_text@,
                html: crate::blob_store::reference_view(rich.html),
                rtf: crate::blob_store::reference_view(rich.rtf),
            },
        ),
        Some(proto::ClipboardPayload::Image(image)) => Some(PayloadView::Image { image: image@ }),
        None => None,
    }
}

/// What an entry carries when it is sent to a device: text itself, the rest by
/// reference into the blob store. Also the store afterwards.
pub open spec fn sent_payload(
    r: domain::ClipboardSyncRecord,
    s: crate::blob_store::StoreView,
    owner: Seq<u8>,
    now: u64,
) -> (crate::blob_store::StoreView, Result<Option<PayloadView>, Seq<char>>) {
    if r.deleted {
        (s, Ok(None))
    } else {
        match r.kind {
            domain::ClipboardContentKind::Files => (s, Ok(None)),
            domain::ClipboardContentKind::Text => match r.text {
                Some(text) => (s, Ok(Some(PayloadView::Text { text: text@ }))),
                None => (s, Err("synchronized text payload is missing"@)),
            },
            domain::ClipboardContentKind::Image => match r.image_png {
                None => (s, Err("synchronized image payload is missing"@)),
                Some(bytes) => {
                    let (after, reference) = crate::blob_store::inserted(
                        s,
                        owner,
                        bytes@,
                        "image/png"@,
                        now,
                    );
                    match reference {
                        None => (after, Err("synchronized image cache is full"@)),
                        Some(image) => (after, Ok(Some(PayloadView::Image { image }))),
                    }
                },
            },
            domain::ClipboardContentKind::Html => match r.html {
                None => (s, Err("synchronized HTML payload is missing"@)),
                Some(html) => {
                    let (first, reference) = crate::blob_store::inserted(
                        s,
                        owner,
                        encode_utf8(html@),
                        "text/html; charset=utf-8"@,
                        now,
                    );
                    let plain_text = match r.text {
                        Some(text) => text@,
                        None => Seq::empty(),
                    };
                    match (reference, r.rtf) {
                        (None, _) => (first, Err("synchronized HTML cache is full"@)),
                        (Some(html), None) => (
                            first,
                            Ok(
                                Some(
                                    PayloadView::RichText {
                                        plain_text,
                                        html: Some(html),
                                        rtf: None,
                                    },
                                ),
                            ),
                        ),
                        (Some(html), Some(rtf)) => {
                            let (second, other) = crate::blob_store::inserted(
                                first,
                                owner,
                                encode_utf8(rtf@),
                                "text/rtf"@,
                                now,
                            );
                            match other {
                                None => (second, Err("synchronized RTF cache is full"@)),
                                Some(rtf) => (
                                    second,
                                    Ok(
                                        Some(
                                            PayloadView::RichText {
                                                plain_text,
                                                html: Some(html),
                                                rtf: Some(rtf),
                                            },
                                        ),
                                    ),
                                ),
                            }
                        },
                    }
                },
            },
        }
    }
}

fn send_payload(record: &domain::ClipboardSyncRecord, store: &mut BlobStore, owner: &[u8], now: u64)
    -> (r: Result<Option<proto::ClipboardPayload>, &'static str>)
    requires
        old(store).wf(),
        now + BLOB_IDLE_TTL_MS <= u64::MAX,
    ensures
        final(store).wf(),
        final(store)@ == sent_payload(*record, old(store)@, owner@, now).0,
        match sent_payload(*record, old(store)@, owner@, now).1 {
            Ok(payload) => r is Ok && payload_view(r->Ok_0) == payload,
            Err(fault) => r is Err && r->Err_0@ == fault,
        },
{
    if record.deleted {
        return Ok(None);
    }
    match record.kind {
        domain::ClipboardContentKind::Files => Ok(None),
        domain::ClipboardContentKind::Text => match &record.text {
            Some(text) => Ok(Some(proto::ClipboardPayload::Text(text.clone()))),
            None => Err("synchronized text payload is missing"),
        },
        domain::ClipboardContentKind::Image => match &record.image_png {
            None => Err("synchronized image payload is missing"),
            Some(bytes) => match store.insert(owner, proto::copy_bytes(bytes), "image/png", now) {
                None => Err("synchronized image cache is full"),
                Some(image) => Ok(Some(proto::ClipboardPayload::Image(image))),
            },
        },
        domain::ClipboardContentKind::Html => match &record.html {
            None => Err("synchronized HTML payload is missing"),
            Some(html) => {
                let html = match store.insert(
                    owner,
                    vstd::slice::slice_to_vec(html.as_str().as_bytes()),
                    "text/html; charset=utf-8",
                    now,
                ) {
                    None => {
                        return Err("synchronized HTML cache is full");
                    },
                    Some(html) => html,
                };
                let rtf = match &record.rtf {
                    None => None,
                    Some(rtf) => match store.insert(
                        owner,
                        vstd::slice::slice_to_vec(rtf.as_str().as_bytes()),
                        "text/rtf",
                        now,
                    ) {
                        None => {
                            return Err("synchronized RTF cache is full");
                        },
                        Some(rtf) => Some(rtf),
                    },
                };
                let plain_text = match &record.text {
                    Some(text) => text.clone(),
                    None => String::new(),
                };
                Ok(
                    Some(
                        proto::ClipboardPayload::RichText(
                            proto::ClipboardRichTextPayload { plain_text, html: Some(html), rtf },
                        ),
                    ),
                )
            },
        },
    }
}

/// True when `w` is the label `l` cut down to what may travel.
pub open spec fn is_bounded_label(w: proto::ClipboardLabel, l: domain::ClipboardLabel) -> bool {
    &&& w.id@ == crate::text::sanitized(l.id@, 128)
    &&& w.name@ == crate::text::sanitized(l.name@, 128)
    &&& w.color@ == crate::text::sanitized(l.color@, 16)
    &&& w.revision == l.revision
    &&& w.updated_by_device_id@ == crate::text::sanitized(l.updated_by_device_id@, 128)
    &&& w.deleted == l.deleted
}

/// True when `w` is the membership `m` cut down to what may travel.
pub open spec fn is_bounded_membership(
    w: proto::ClipboardLabelMembership,
    m: domain::ClipboardLabelMembership,
) -> bool {
    &&& w.label_id@ == crate::text::sanitized(m.label_id@, 128)
    &&& w.attached == m.attached
    &&& w.revision == m.revision
    &&& w.updated_by_device_id@ == crate::text::sanitized(m.updated_by_device_id@, 128)
}

/// True when `w` is the entry `r` as it is sent at `now`, its content aside.
pub open spec fn is_sent_metadata(
    w: proto::ClipboardSyncRecord,
    r: domain::ClipboardSyncRecord,
    now: i64,
) -> bool {
    &&& w.sync_id@ == r.sync_id@
    &&& w.kind == crate::proto_msg::wire_clipboard_kind(r.kind)
    &&& w.width == r.width
    &&& w.height == r.height
    &&& w.preview@ == crate::text::sanitized(r.preview@, MAX_SYNC_PREVIEW_BYTES as nat)
    &&& match r.source_app {
        Some(name) => w.source_app is Some && w.source_app->0@ == crate::text::sanitized(
            name@,
            256,
        ),
        None => w.source_app is None,
    }
    &&& w.source_device_id@ == crate::text::sanitized(r.source_device_id@, 128)
    &&& w.source_device_name@ == crate::text::sanitized(r.source_device_name@, 128)
    &&& w.captured_at_ms == crate::queries::timestamp(r.captured_at_ms, now)
    &&& w.revision == if r.revision == 0 {
        1
    } else {
        r.revision
    }
    &&& w.updated_by_device_id@ == crate::text::sanitized(r.updated_by_device_id@, 128)
    &&& w.favorite == r.favorite
    &&& w.favorite_revision == r.favorite_revision
    &&& w.favorite_updated_by_device_id@ == crate::text::sanitized(
        r.favorite_updated_by_device_id@,
        128,
    )
    &&& w.labels@.len() == r.labels@.len()
    &&& forall|i: int|
        0 <= i < w.labels@.len() ==> is_bounded_label(#[trigger] w.labels@[i], r.labels@[i])
    &&& w.label_memberships@.len() == r.label_memberships@.len()
    &&& forall|i: int|
        0 <= i < w.label_memberships@.len() ==> is_bounded_membership(
            #[trigger] w.label_memberships@[i],
            r.label_memberships@[i],
        )
    &&& w.deleted == r.deleted
    &&& w.change_kind == crate::proto_msg::wire_change_kind(r.change_kind)
    &&& w.live == r.live
    &&& r.text_syntax_json is Some && w.text_syntax_json@ == r.text_syntax_json->0@
}

fn bound_labels(labels: Vec<domain::ClipboardLabel>) -> (r: Vec<proto::ClipboardLabel>)
    ensures
        r@.len() == labels@.len(),
        forall|i: int| 0 <= i < r@.len() ==> is_bounded_label(#[trigger] r@[i], labels@[i]),
{
    let ghost all = labels@;
    let mut out: Vec<proto::ClipboardLabel> = Vec::new();
    for label in it: labels.into_iter()
        invariant
            it.seq() == all,
            out@.len() == it.index(),
            forall|i: int| 0 <= i < out@.len() ==> is_bounded_label(#[trigger] out@[i], all[i]),
    {
        out.push(
            proto::ClipboardLabel {
                id: sanitize_text(label.id, 128),
                name: sanitize_text(label.name, 128),
                color: sanitize_text(label.color, 16),
                revision: label.revision,
                updated_by_device_id: sanitize_text(label.updated_by_device_id, 128),
                deleted: label.deleted,
            },
        );
    }
    out
}

fn bound_memberships(memberships: Vec<domain::ClipboardLabelMembership>) -> (r: Vec<
    proto::ClipboardLabelMembership,
>)
    ensures
        r@.len() == memberships@.len(),
        forall|i: int|
            0 <= i < r@.len() ==> is_bounded_membership(#[trigger] r@[i], memberships@[i]),
{
    let ghost all = memberships@;
    let mut out: Vec<proto::ClipboardLabelMembership> = Vec::new();
    for membership in it: memberships.into_iter()
        invariant
            it.seq() == all,
            out@.len() == it.index(),
            forall|i: int|
                0 <= i < out@.len() ==> is_bounded_membership(#[trigger] out@[i], all[i]),
    {
        out.push(
            proto::ClipboardLabelMembership {
                label_id: sanitize_text(membership.label_id, 128),
                attached: membership.attached,
                revision: membership.revision,
                updated_by_device_id: sanitize_text(membership.updated_by_device_id, 128),
            },
        );
    }
    out
}

/// True when `r` is an entry ready to be sent, or why it cannot be sent, and
/// `after` is what this leaves of the store `before`.
pub open spec fn sends(
    r: Result<proto::ClipboardSyncRecord, &'static str>,
    before: crate::blob_store::StoreView,
    after: crate::blob_store::StoreView,
    record: domain::ClipboardSyncRecord,
    owner: Seq<u8>,
    wall_now: i64,
    now: u64,
) -> bool {
    if record.text_syntax_json is None {
        &&& r is Err
        &&& r->Err_0@ == "clipboard text syntax is invalid"@
        &&& after == before
    } else {
        &&& after == sent_payload(record, before, owner, now).0
        &&& match sent_payload(record, before, owner, now).1 {
            Err(fault) => r is Err && r->Err_0@ == fault,
            Ok(payload) => {
                &&& r is Ok
                &&& is_sent_metadata(r->Ok_0, record, wall_now)
                &&& payload_view(r->Ok_0.payload) == payload
            },
        }
    }
}

/// Makes an entry ready to be sent to a device, which becomes an owner of the
/// blobs that it refers to.
pub fn sync_record_to_proto(
    record: domain::ClipboardSyncRecord,
    store: &mut BlobStore,
    owner: &[u8],
    wall_now: i64,
    now: u64,
) -> (r: Result<proto::ClipboardSyncRecord, &'static str>)
    requires
        old(store).wf(),
        now + BLOB_IDLE_TTL_MS <= u64::MAX,
    ensures
        final(store).wf(),
        sends(r, old(store)@, final(store)@, record, owner@, wall_now, now),
{
    if record.text_syntax_json.is_none() {
        return Err("clipboard text syntax is invalid");
    }
    let payload = match send_payload(&record, store, owner, now) {
        Err(fault) => {
            return Err(fault);
        },
        Ok(payload) => payload,
    };
    let text_syntax_json = match record.text_syntax_json {
        Some(json) => json,
        None => String::new(),
    };
    Ok(
        proto::ClipboardSyncRecord {
            sync_id: record.sync_id,
            kind: clipboard_kind_to_proto(record.kind),
            width: record.width,
            height: record.height,
            preview: sanitize_text(record.preview, MAX_SYNC_PREVIEW_BYTES),
            source_app: match record.source_app {
                Some(name) => Some(sanitize_text(name, 256)),
                None => None,
            },
            source_device_id: sanitize_text(record.source_device_id, 128),
            source_device_name: sanitize_text(record.source_device_name, 128),
            captured_at_ms: protocol_timestamp_at(record.captured_at_ms, wall_now),
            revision: if record.revision == 0 {
                1
            } else {
                record.revision
            },
            updated_by_device_id: sanitize_text(record.updated_by_device_id, 128),
            favorite: record.favorite,
            favorite_revision: record.favorite_revision,
            favorite_updated_by_device_id: sanitize_text(
                record.favorite_updated_by_device_id,
                128,
            ),
            labels: bound_labels(record.labels),
            label_memberships: bound_memberships(record.label_memberships),
            deleted: record.deleted,
            change_kind: change_kind_to_proto(record.change_kind),
            live: record.live,
            text_syntax_json,
            payload,
        },
    )
}

/// Entries with the same content go by the same name on every device.
pub proof fn lemma_sync_id_follows_content(
    a: domain::ClipboardSyncRecord,
    b: domain::ClipboardSyncRecord,
    r: proto::ClipboardSyncRecord,
    q: proto::ClipboardSyncRecord,
    content: ContentView,
    device_a: Seq<char>,
    name_a: Seq<char>,
    device_b: Seq<char>,
    name_b: Seq<char>,
)
    requires
        is_taken_in(a, r, content, device_a, name_a),
        is_taken_in(b, q, content, device_b, name_b),
        a.kind == b.kind,
        a.kind != domain::ClipboardContentKind::Files,
        !a.deleted,
        !b.deleted,
    ensures
        a.sync_id@ == b.sync_id@,
{
}

/// An entry that is taken in is the one that came, but for its authors: they are the
/// device that sent it, whatever the entry says of them.
pub proof fn lemma_entries_are_taken_in_as_sent(
    d: domain::ClipboardSyncRecord,
    r: proto::ClipboardSyncRecord,
    content: ContentView,
    device_id: Seq<char>,
    device_name: Seq<char>,
)
    requires
        is_taken_in(d, r, content, device_id, device_name),
    ensures
        r.kind is Text <==> d.kind is Text,
        r.kind is Html <==> d.kind is Html,
        r.kind is Image <==> d.kind is Image,
        r.kind is Files <==> d.kind is Files,
        r.change_kind is Copy <==> d.change_kind is Copy,
        r.change_kind is Edit <==> d.change_kind is Edit,
        r.change_kind is Favorite <==> d.change_kind is Favorite,
        r.change_kind is Label <==> d.change_kind is Label,
        r.change_kind is Delete <==> d.change_kind is Delete,
        r.change_kind is Snapshot <==> d.change_kind is Snapshot,
        d.favorite == r.favorite,
        d.deleted == r.deleted,
        d.live == r.live,
        d.revision == r.revision,
        d.favorite_revision == r.favorite_revision,
        d.captured_at_ms == r.captured_at_ms,
        d.width == r.width,
        d.height == r.height,
        d.preview@ == r.preview@,
        d.source_app is Some <==> r.source_app is Some,
        d.source_app is Some ==> d.source_app->0@ == r.source_app->0@,
        d.source_device_id@ == device_id,
        d.source_device_name@ == device_name,
        d.updated_by_device_id@ == device_id,
        d.favorite_updated_by_device_id@ == device_id,
        d.labels@.len() == 0,
        d.label_memberships@.len() == 0,
        d.text is Some <==> content.text is Some,
        d.text is Some ==> d.text->0@ == content.text->0,
        d.html is Some <==> content.html is Some,
        d.html is Some ==> d.html->0@ == content.html->0,
        d.rtf is Some <==> content.rtf is Some,
        d.rtf is Some ==> d.rtf->0@ == content.rtf->0,
        d.image_png is Some <==> content.image is Some,
        d.image_png is Some ==> d.image_png->0@ == content.image->0,
        r.deleted ==> d.sync_id@ == r.sync_id@,
{
}

/// Which entries are proper by themselves: named by 64 digits, with revisions that
/// can be kept, a short preview, a time that is not far in the future and without
/// labels; a deleted one has no content.
pub proof fn lemma_proper_entries(r: proto::ClipboardSyncRecord, now: i64)
    ensures
        sync_record_fault(r, now) is None ==> {
            &&& crate::text::utf8_len(r.sync_id@) == 64 && crate::text::all_hex(r.sync_id@)
            &&& 0 < r.revision <= i64::MAX
            &&& 0 < r.favorite_revision <= i64::MAX
            &&& r.labels@.len() == 0 && r.label_memberships@.len() == 0
            &&& crate::text::utf8_len(r.preview@) <= 2048
            &&& 0 < r.captured_at_ms <= now + 300_000
            &&& !(r.kind is Unspecified) && !(r.change_kind is Unspecified)
            &&& r.deleted || r.kind is Files ==> r.payload is None
            &&& !r.deleted && r.kind is Text ==> r.payload is Some && r.payload->0 is Text
                && 0 < r.payload->0->Text_0@.len() && crate::text::utf8_len(
                r.payload->0->Text_0@,
            ) <= 786_432
            &&& !r.deleted && r.kind is Html ==> r.payload is Some && r.payload->0 is RichText
                && r.payload->0->RichText_0.html is Some
            &&& !r.deleted && r.kind is Image ==> r.payload is Some && r.payload->0 is Image
                && 0 < r.payload->0->Image_0.size <= 20_971_520
        },
        ({
            &&& crate::text::utf8_len(r.sync_id@) == 64 && crate::text::all_hex(r.sync_id@)
            &&& 0 < r.revision <= i64::MAX
            &&& 0 < r.favorite_revision <= i64::MAX
            &&& r.labels@.len() == 0 && r.label_memberships@.len() == 0
            &&& crate::text::utf8_len(r.preview@) <= 2048
            &&& 0 < r.captured_at_ms <= now + 300_000
            &&& !(r.kind is Unspecified) && !(r.change_kind is Unspecified)
            &&& r.payload is None
            &&& r.deleted || r.kind is Files
        }) ==> sync_record_fault(r, now) is None,
        ({
            &&& crate::text::utf8_len(r.sync_id@) == 64 && crate::text::all_hex(r.sync_id@)
            &&& 0 < r.revision <= i64::MAX
            &&& 0 < r.favorite_revision <= i64::MAX
            &&& r.labels@.len() == 0 && r.label_memberships@.len() == 0
            &&& crate::text::utf8_len(r.preview@) <= 2048
            &&& 0 < r.captured_at_ms <= now + 300_000
            &&& !(r.change_kind is Unspecified)
            &&& !r.deleted && r.kind is Text
            &&& r.payload is Some && r.payload->0 is Text
            &&& 0 < r.payload->0->Text_0@.len()
            &&& crate::text::utf8_len(r.payload->0->Text_0@) <= 786_432
        }) ==> sync_record_fault(r, now) is None,
{
}

/// The content that a text entry brings is its text, that of a deleted one or of
/// files is nothing, and nothing else is ever brought along.
pub proof fn lemma_content_is_what_was_brought(
    r: proto::ClipboardSyncRecord,
    uploads: Seq<crate::clipboard_upload::UploadView>,
)
    ensures
        ({
            let c = brought_content(r, uploads);
            &&& r.deleted || r.kind is Files || r.payload is None ==> c is Ok
                && c->Ok_0.text is None && c->Ok_0.html is None && c->Ok_0.rtf is None
                && c->Ok_0.image is None
            &&& !r.deleted && !(r.kind is Files) && r.payload is Some && r.payload->0 is Text
                ==> c is Ok && c->Ok_0.text == Some(r.payload->0->Text_0@)
                && c->Ok_0.html is None && c->Ok_0.rtf is None && c->Ok_0.image is None
            &&& !r.deleted && !(r.kind is Files) && r.payload is Some && r.payload->0 is Image
                && c is Ok ==> c->Ok_0.image is Some && c->Ok_0.text is None
                && c->Ok_0.html is None && c->Ok_0.rtf is None
            &&& !r.deleted && !(r.kind is Files) && r.payload is Some && r.payload->0 is RichText
                && c is Ok ==> {
                &&& c->Ok_0.text == Some(r.payload->0->RichText_0.plain_text@)
                &&& c->Ok_0.html is Some
                &&& c->Ok_0.rtf is Some <==> r.payload->0->RichText_0.rtf is Some
                &&& c->Ok_0.image is None
            }
        }),
{
}

/// An entry is sent with its own content: a text itself, and a deleted entry or one
/// about files with nothing.
pub proof fn lemma_sent_content(
    r: domain::ClipboardSyncRecord,
    s: crate::blob_store::StoreView,
    owner: Seq<u8>,
    now: u64,
)
    ensures
        ({
            let (after, sent) = sent_payload(r, s, owner, now);
            &&& r.deleted || r.kind is Files ==> sent is Ok && sent->Ok_0 is None && after == s
            &&& !r.deleted && r.kind is Text ==> after == s && (sent is Ok <==> r.text is Some)
            &&& !r.deleted && r.kind is Text && r.text is Some ==> sent->Ok_0 is Some
                && sent->Ok_0->0 is Text && sent->Ok_0->0->text == r.text->0@
            &&& !r.deleted && r.kind is Image && sent is Ok ==> r.image_png is Some
                && sent->Ok_0 is Some && sent->Ok_0->0 is Image
            &&& !r.deleted && r.kind is Image && r.image_png is None ==> sent is Err
            &&& !r.deleted && r.kind is Html && r.html is None ==> sent is Err
            &&& !r.deleted && r.kind is Html && sent is Ok ==> {
                &&& sent->Ok_0 is Some && sent->Ok_0->0 is RichText
                &&& sent->Ok_0->0->html is Some
                &&& sent->Ok_0->0->rtf is Some <==> r.rtf is Some
                &&& r.text is Some ==> sent->Ok_0->0->plain_text == r.text->0@
                &&& r.text is None ==> sent->Ok_0->0->plain_text.len() == 0
            }
        }),
{
}

/// What two texts or two images are hashed by is the same only if they are.
pub proof fn lemma_different_content_is_hashed_differently(a: ContentView, b: ContentView)
    ensures
        a.text is Some && b.text is Some && hashed_content(
            domain::ClipboardContentKind::Text,
            a,
        ) == hashed_content(domain::ClipboardContentKind::Text, b) ==> a.text == b.text,
        a.image is Some && b.image is Some && hashed_content(
            domain::ClipboardContentKind::Image,
            a,
        ) == hashed_content(domain::ClipboardContentKind::Image, b) ==> a.image == b.image,
{
    let kind = domain::ClipboardContentKind::Text;
    if a.text is Some && b.text is Some && hashed_content(kind, a) == hashed_content(kind, b) {
        let tag = encode_utf8("text\0"@);
        let (x, y) = (encode_utf8(a.text->0), encode_utf8(b.text->0));
        assert((tag + x).skip(tag.len() as int) =~= x);
        assert((tag + y).skip(tag.len() as int) =~= y);
        crate::text::lemma_utf8_injective(a.text->0, b.text->0);
    }
    let kind = domain::ClipboardContentKind::Image;
    if a.image is Some && b.image is Some && hashed_content(kind, a) == hashed_content(kind, b) {
        let tag = encode_utf8("image\0"@);
        assert((tag + a.image->0).skip(tag.len() as int) =~= a.image->0);
        assert((tag + b.image->0).skip(tag.len() as int) =~= b.image->0);
    }
}

/// The metadata of an entry is sent as it is, each fact in its place.
pub proof fn lemma_metadata_is_sent_as_it_is(
    w: proto::ClipboardSyncRecord,
    r: domain::ClipboardSyncRecord,
    now: i64,
)
    requires
        is_sent_metadata(w, r, now),
    ensures
        w.sync_id@ == r.sync_id@,
        w.kind is Text <==> r.kind is Text,
        w.kind is Html <==> r.kind is Html,
        w.kind is Image <==> r.kind is Image,
        w.kind is Files <==> r.kind is Files,
        w.width == r.width,
        w.height == r.height,
        w.favorite == r.favorite,
        w.deleted == r.deleted,
        w.live == r.live,
        r.captured_at_ms > 0 ==> w.captured_at_ms == r.captured_at_ms,
        r.revision > 0 ==> w.revision == r.revision,
        r.favorite_revision > 0 ==> w.favorite_revision == r.favorite_revision,
        crate::snapshots::keeps_text(w.preview@, r.preview@, 2048),
        crate::snapshots::keeps_text(w.source_device_id@, r.source_device_id@, 128),
        crate::snapshots::keeps_text(w.source_device_name@, r.source_device_name@, 128),
        crate::snapshots::keeps_text(w.updated_by_device_id@, r.updated_by_device_id@, 128),
        crate::snapshots::keeps_text(
            w.favorite_updated_by_device_id@,
            r.favorite_updated_by_device_id@,
            128,
        ),
        w.change_kind is Copy <==> r.change_kind is Copy,
        w.change_kind is Edit <==> r.change_kind is Edit,
        w.change_kind is Favorite <==> r.change_kind is Favorite,
        w.change_kind is Label <==> r.change_kind is Label,
        w.change_kind is Delete <==> r.change_kind is Delete,
        w.change_kind is Snapshot <==> r.change_kind is Snapshot,
        w.source_app is Some <==> r.source_app is Some,
        w.label_memberships@.len() == r.label_memberships@.len(),
        w.labels@.len() == r.labels@.len(),
{
    lemma_told(r.favorite_updated_by_device_id@, 128);
    lemma_told(r.preview@, 2048);
    lemma_told(r.source_device_id@, 128);
    lemma_told(r.source_device_name@, 128);
    lemma_told(r.updated_by_device_id@, 128);
}

proof fn lemma_told(text: Seq<char>, maximum: nat)
    ensures
        crate::snapshots::keeps_text(crate::text::sanitized(text, maximum), text, maximum),
{
    if crate::text::control_free(text) && crate::text::utf8_len(text) <= maximum {
        crate::text::lemma_short_text_is_kept(text, maximum);
    }
}

/// A label and a membership are sent as they are, each fact in its place.
pub proof fn lemma_labels_are_sent_as_they_are(
    w: proto::ClipboardLabel,
    l: domain::ClipboardLabel,
    v: proto::ClipboardLabelMembership,
    m: domain::ClipboardLabelMembership,
)
    ensures
        is_bounded_label(w, l) ==> {
            &&& crate::snapshots::keeps_text(w.id@, l.id@, 128)
            &&& crate::snapshots::keeps_text(w.name@, l.name@, 128)
            &&& crate::snapshots::keeps_text(w.color@, l.color@, 16)
            &&& w.revision == l.revision
            &&& crate::snapshots::keeps_text(w.updated_by_device_id@, l.updated_by_device_id@, 128)
            &&& w.deleted == l.deleted
        },
        is_bounded_membership(v, m) ==> {
            &&& crate::snapshots::keeps_text(v.label_id@, m.label_id@, 128)
            &&& v.attached == m.attached
            &&& v.revision == m.revision
            &&& crate::snapshots::keeps_text(v.updated_by_device_id@, m.updated_by_device_id@, 128)
        },
{
    lemma_told(l.id@, 128);
    lemma_told(l.name@, 128);
    lemma_told(l.color@, 16);
    lemma_told(l.updated_by_device_id@, 128);
    lemma_told(m.label_id@, 128);
    lemma_told(m.updated_by_device_id@, 128);
}

/// A reference to content is proper when it is named by its hash, says what it is, and
/// tells a size within the limit.
pub proof fn lemma_proper_references(
    reference: proto::BlobRef,
    media_type: Seq<char>,
    maximum: u64,
    revision: u64,
)
    ensures
        !blob_ref_ok(None, media_type, maximum),
        blob_ref_ok(Some(reference), media_type, maximum) ==> reference.blob_id@.len() == 32
            && reference.blob_id@ == reference.sha256@ && 0 < reference.size <= maximum
            && reference.media_type@ == media_type,
        reference.blob_id@.len() == 32 && reference.blob_id@ == reference.sha256@ && 0
            < reference.size <= maximum && reference.media_type@ == media_type ==> blob_ref_ok(
            Some(reference),
            media_type,
            maximum,
        ),
        revision_ok(revision) <==> 0 < revision <= 0x7fff_ffff_ffff_ffff,
{
}

/// Each kind of content comes in the form of its kind, and in no other one.
pub proof fn lemma_content_comes_in_its_form(
    kind: proto::ClipboardContentKind,
    payload: Option<proto::ClipboardPayload>,
)
    ensures
        payload_fault(kind, payload) is None && kind is Text ==> payload is Some && payload->0 is Text,
        payload_fault(kind, payload) is None && kind is Html ==> payload is Some
            && payload->0 is RichText,
        payload_fault(kind, payload) is None && kind is Image ==> payload is Some
            && payload->0 is Image,
        payload_fault(kind, payload) is None && kind is Files ==> payload is None,
        kind is Files && payload is None ==> payload_fault(kind, payload) is None,
{
}

/// An entry goes out only when its syntax can be read, and a text goes out as it is
/// without a trace in the store.
pub proof fn lemma_which_entries_go_out(
    r: Result<proto::ClipboardSyncRecord, &'static str>,
    before: crate::blob_store::StoreView,
    after: crate::blob_store::StoreView,
    record: domain::ClipboardSyncRecord,
    owner: Seq<u8>,
    wall_now: i64,
    now: u64,
)
    requires
        sends(r, before, after, record, owner, wall_now, now),
    ensures
        record.text_syntax_json is None ==> r is Err && after == before,
        record.text_syntax_json is Some && record.deleted ==> r is Ok && r->Ok_0.payload is None
            && after == before,
        record.text_syntax_json is Some && !record.deleted && record.kind is Text ==> (r is Ok
            <==> record.text is Some) && after == before,
        r is Ok && !record.deleted && record.kind is Text ==> r->Ok_0.payload is Some
            && r->Ok_0.payload->0 is Text && payload_view(r->Ok_0.payload) == Some(
            PayloadView::Text { text: record.text->0@ },
        ),
        r is Ok && record.kind is Files ==> r->Ok_0.payload is None,
{
}

/// What was brought before is looked at only for rich text and images that are still
/// there.
pub proof fn lemma_what_needs_to_be_brought(r: proto::ClipboardSyncRecord)
    ensures
        r.deleted || r.kind is Files || r.payload is None ==> !reads_uploads(r),
        r.payload is Some && r.payload->0 is Text ==> !reads_uploads(r),
        !r.deleted && !(r.kind is Files) && r.payload is Some && !(r.payload->0 is Text)
            ==> reads_uploads(r),
{
}

} // verus!
