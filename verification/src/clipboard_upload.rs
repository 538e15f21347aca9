//! Clipboard payloads that a device uploads ahead of the record that refers to
//! them. Each is kept for two minutes under its digest and media type.

use vstd::prelude::*;

use crate::keyed::{lemma_filter_from, lemma_filter_step, lemma_sum_push, lemma_sum_remove};
use crate::outside::sha256_digest;
use crate::proto::copy_bytes;
use crate::text::{bytes_eq, str_eq};

verus! {

pub const MAX_BLOB_BYTES: usize = 20_971_520;

pub const MAX_TOTAL_BYTES: usize = 67_108_864;

/// Milliseconds that an upload is kept.
pub const UPLOAD_TTL_MS: u64 = 120_000;

/// An upload as a mathematical value.
#[verifier::ext_equal]
pub struct UploadView {
    pub upload_id: Seq<u8>,
    pub media_type: Seq<char>,
    pub bytes: Seq<u8>,
    pub sha256: Seq<u8>,
    pub created_at: u64,
}

/// The media types that can be uploaded.
pub open spec fn uploadable(media_type: Seq<char>) -> bool {
    ||| media_type == "image/png"@
    ||| media_type == "text/html; charset=utf-8"@
    ||| media_type == "text/rtf"@
}

/// Tells whether a media type can be uploaded.
pub fn is_uploadable(media_type: &str) -> (r: bool)
    ensures
        r == uploadable(media_type@),
{
    str_eq(media_type, "image/png") || str_eq(media_type, "text/html; charset=utf-8") || str_eq(
        media_type,
        "text/rtf",
    )
}

pub open spec fn upload_bytes() -> spec_fn(UploadView) -> nat {
    |u: UploadView| u.bytes.len()
}

/// The bytes of all uploads.
pub open spec fn total_bytes(uploads: Seq<UploadView>) -> nat {
    crate::keyed::sum_by(uploads, upload_bytes())
}

/// True when the upload is still kept at `now`.
pub open spec fn kept_at(now: u64) -> spec_fn(UploadView) -> bool {
    |u: UploadView| now - u.created_at < UPLOAD_TTL_MS
}

/// The uploads that are still kept at `now`.
pub open spec fn pruned(uploads: Seq<UploadView>, now: u64) -> Seq<UploadView> {
    uploads.filter(kept_at(now))
}

/// True when the upload stands under this digest and media type.
pub open spec fn has_key(u: UploadView, upload_id: Seq<u8>, media_type: Seq<char>) -> bool {
    u.upload_id == upload_id && u.media_type == media_type
}

/// True when an upload stands under this key.
pub open spec fn uploaded(
    uploads: Seq<UploadView>,
    upload_id: Seq<u8>,
    media_type: Seq<char>,
) -> bool {
    exists|i: int| 0 <= i < uploads.len() && has_key(#[trigger] uploads[i], upload_id, media_type)
}

/// Where the upload with this key stands.
pub open spec fn place(
    uploads: Seq<UploadView>,
    upload_id: Seq<u8>,
    media_type: Seq<char>,
) -> int {
    choose|i: int| 0 <= i < uploads.len() && has_key(#[trigger] uploads[i], upload_id, media_type)
}

/// The uploads without the one under this key.
pub open spec fn without(
    uploads: Seq<UploadView>,
    upload_id: Seq<u8>,
    media_type: Seq<char>,
) -> Seq<UploadView> {
    if uploaded(uploads, upload_id, media_type) {
        uploads.remove(place(uploads, upload_id, media_type))
    } else {
        uploads
    }
}

/// What holds of every store: keys are distinct, each digest is that of the
/// bytes, and the limits are kept.
pub open spec fn valid(uploads: Seq<UploadView>) -> bool {
    &&& forall|i: int, j: int|
        0 <= i < uploads.len() && 0 <= j < uploads.len() && i != j ==> !has_key(
            #[trigger] uploads[i],
            (#[trigger] uploads[j]).upload_id,
            uploads[j].media_type,
        )
    &&& forall|i: int| 0 <= i < uploads.len() ==> valid_upload(#[trigger] uploads[i])
    &&& total_bytes(uploads) <= MAX_TOTAL_BYTES
}

pub open spec fn valid_upload(u: UploadView) -> bool {
    &&& u.upload_id.len() == 32
    &&& 0 < u.bytes.len() <= MAX_BLOB_BYTES
    &&& uploadable(u.media_type)
    &&& u.sha256 == crate::outside::sha256(u.bytes)
}

/// The uploads after one more was offered, or why it was refused.
pub open spec fn inserted(
    uploads: Seq<UploadView>,
    upload_id: Seq<u8>,
    bytes: Seq<u8>,
    expected_sha256: Seq<u8>,
    media_type: Seq<char>,
    now: u64,
) -> (Seq<UploadView>, Result<(), Seq<char>>) {
    let rest = without(pruned(uploads, now), upload_id, media_type);
    if upload_id.len() != 32 || bytes.len() == 0 || bytes.len() > MAX_BLOB_BYTES || !uploadable(
        media_type,
    ) {
        (uploads, Err("invalid clipboard blob upload"@))
    } else if expected_sha256.len() != 32 || crate::outside::sha256(bytes) != expected_sha256 {
        (uploads, Err("clipboard blob digest mismatch"@))
    } else if total_bytes(rest) + bytes.len() > MAX_TOTAL_BYTES {
        (pruned(uploads, now), Err("clipboard blob upload cache is full"@))
    } else {
        (
            rest.push(
                UploadView {
                    upload_id,
                    media_type,
                    bytes,
                    sha256: crate::outside::sha256(bytes),
                    created_at: now,
                },
            ),
            Ok(()),
        )
    }
}

/// What is found under a key, if its digest is the expected one.
pub open spec fn found(
    uploads: Seq<UploadView>,
    upload_id: Seq<u8>,
    expected_sha256: Seq<u8>,
    media_type: Seq<char>,
) -> Option<Seq<u8>> {
    let u = uploads[place(uploads, upload_id, media_type)];
    if uploaded(uploads, upload_id, media_type) && u.sha256 == expected_sha256 {
        Some(u.bytes)
    } else {
        None
    }
}

/// What was kept is kept when one looks again at the same time.
pub proof fn lemma_pruned_twice(uploads: Seq<UploadView>, now: u64)
    ensures
        pruned(pruned(uploads, now), now) == pruned(uploads, now),
    decreases uploads.len(),
{
    reveal(Seq::filter);
    if uploads.len() > 0 {
        let shorter = pruned(uploads.drop_last(), now);
        lemma_pruned_twice(uploads.drop_last(), now);
        if kept_at(now)(uploads.last()) {
            assert(shorter.push(uploads.last()).drop_last() =~= shorter);
        }
    }
}

proof fn lemma_place(uploads: Seq<UploadView>, i: int)
    requires
        valid(uploads),
        0 <= i < uploads.len(),
    ensures
        uploaded(uploads, uploads[i].upload_id, uploads[i].media_type),
        place(uploads, uploads[i].upload_id, uploads[i].media_type) == i,
{
    assert(has_key(uploads[i], uploads[i].upload_id, uploads[i].media_type));
}

proof fn lemma_remove_valid(uploads: Seq<UploadView>, i: int)
    requires
        valid(uploads),
        0 <= i < uploads.len(),
    ensures
        valid(uploads.remove(i)),
        total_bytes(uploads.remove(i)) + uploads[i].bytes.len() == total_bytes(uploads),
{
    lemma_sum_remove(uploads, i, upload_bytes());
    let after = uploads.remove(i);
    assert forall|j: int| 0 <= j < after.len() implies valid_upload(#[trigger] after[j]) by {
        if j < i {
            assert(after[j] == uploads[j]);
        } else {
            assert(after[j] == uploads[j + 1]);
        }
    }
    assert forall|j: int, k: int|
        0 <= j < after.len() && 0 <= k < after.len() && j != k implies !has_key(
        #[trigger] after[j],
        (#[trigger] after[k]).upload_id,
        after[k].media_type,
    ) by {
        let m = if j < i {
            j
        } else {
            j + 1
        };
        let n = if k < i {
            k
        } else {
            k + 1
        };
        assert(!has_key(uploads[m], uploads[n].upload_id, uploads[n].media_type));
    }
}

proof fn lemma_filter_valid(uploads: Seq<UploadView>, keep: spec_fn(UploadView) -> bool, j: int)
    requires
        valid(uploads),
        0 <= j <= uploads.len(),
    ensures
        valid(uploads.take(j).filter(keep) + uploads.skip(j)),
    decreases j,
{
    if j == 0 {
        reveal(Seq::filter);
        assert(uploads.take(0).filter(keep) + uploads.skip(0) =~= uploads);
    } else {
        lemma_filter_valid(uploads, keep, j - 1);
        lemma_filter_step(uploads, j - 1, keep);
        let kept = uploads.take(j - 1).filter(keep);
        let cur = kept + uploads.skip(j - 1);
        if keep(uploads[j - 1]) {
            assert(kept.push(uploads[j - 1]) + uploads.skip(j) =~= cur);
        } else {
            lemma_remove_valid(cur, kept.len() as int);
            assert(cur.remove(kept.len() as int) =~= kept + uploads.skip(j));
        }
    }
}

/// Uploads that have not expired stay valid together.
pub proof fn lemma_pruned_valid(uploads: Seq<UploadView>, now: u64)
    requires
        valid(uploads),
    ensures
        valid(pruned(uploads, now)),
{
    let n = uploads.len() as int;
    lemma_filter_valid(uploads, kept_at(now), n);
    assert(uploads.take(n) =~= uploads);
    assert(pruned(uploads, now) + uploads.skip(n) =~= pruned(uploads, now));
}

proof fn lemma_push_valid(uploads: Seq<UploadView>, u: UploadView)
    requires
        valid(uploads),
        valid_upload(u),
        !uploaded(uploads, u.upload_id, u.media_type),
        total_bytes(uploads) + u.bytes.len() <= MAX_TOTAL_BYTES,
    ensures
        valid(uploads.push(u)),
{
    lemma_sum_push(uploads, u, upload_bytes());
    let after = uploads.push(u);
    assert forall|j: int, k: int|
        0 <= j < after.len() && 0 <= k < after.len() && j != k implies !has_key(
        #[trigger] after[j],
        (#[trigger] after[k]).upload_id,
        after[k].media_type,
    ) by {
        if j < uploads.len() && k < uploads.len() {
            assert(!has_key(uploads[j], uploads[k].upload_id, uploads[k].media_type));
        } else if j < uploads.len() {
            assert(!has_key(uploads[j], u.upload_id, u.media_type));
        } else if k < uploads.len() {
            assert(!has_key(uploads[k], u.upload_id, u.media_type));
        }
    }
}

proof fn lemma_without(uploads: Seq<UploadView>, upload_id: Seq<u8>, media_type: Seq<char>)
    requires
        valid(uploads),
    ensures
        valid(without(uploads, upload_id, media_type)),
        !uploaded(without(uploads, upload_id, media_type), upload_id, media_type),
{
    if uploaded(uploads, upload_id, media_type) {
        let i = place(uploads, upload_id, media_type);
        lemma_remove_valid(uploads, i);
        let after = uploads.remove(i);
        assert forall|j: int| 0 <= j < after.len() implies !has_key(
            #[trigger] after[j],
            upload_id,
            media_type,
        ) by {
            if j < i {
                assert(after[j] == uploads[j]);
                assert(!has_key(uploads[j], uploads[i].upload_id, uploads[i].media_type));
            } else {
                assert(after[j] == uploads[j + 1]);
                assert(!has_key(uploads[j + 1], uploads[i].upload_id, uploads[i].media_type));
            }
        }
    }
}

/// An accepted upload is found again under its digest and media type until its
/// time is up, and not after.
pub proof fn lemma_get_after_insert(
    uploads: Seq<UploadView>,
    upload_id: Seq<u8>,
    bytes: Seq<u8>,
    expected_sha256: Seq<u8>,
    media_type: Seq<char>,
    now: u64,
    later: u64,
)
    requires
        valid(uploads),
        inserted(uploads, upload_id, bytes, expected_sha256, media_type, now).1 is Ok,
    ensures
        found(
            pruned(inserted(uploads, upload_id, bytes, expected_sha256, media_type, now).0, later),
            upload_id,
            expected_sha256,
            media_type,
        ) == if later - now < UPLOAD_TTL_MS {
            Some(bytes)
        } else {
            None::<Seq<u8>>
        },
{
    let rest = without(pruned(uploads, now), upload_id, media_type);
    let after = inserted(uploads, upload_id, bytes, expected_sha256, media_type, now).0;
    let u = after[rest.len() as int];
    lemma_pruned_valid(uploads, now);
    lemma_without(pruned(uploads, now), upload_id, media_type);
    lemma_push_valid(rest, u);
    lemma_pruned_valid(after, later);
    lemma_filter_from(after, kept_at(later));
    lemma_filter_step(after, rest.len() as int, kept_at(later));
    assert(after.take(rest.len() as int + 1) =~= after);
    let end = pruned(after, later);
    if later - now < UPLOAD_TTL_MS {
        let k = end.len() - 1;
        assert(end[k] == u);
        lemma_place(end, k);
    } else if uploaded(end, upload_id, media_type) {
        let k = place(end, upload_id, media_type);
        assert(after.contains(end[k]));
        let m = choose|m: int| 0 <= m < after.len() && after[m] == end[k];
        if m < rest.len() {
            assert(has_key(rest[m], upload_id, media_type));
        }
    }
}

struct ClipboardUpload {
    upload_id: Vec<u8>,
    media_type: String,
    bytes: Vec<u8>,
    sha256: Vec<u8>,
    created_at: u64,
}

impl ClipboardUpload {
    spec fn view(&self) -> UploadView {
        UploadView {
            upload_id: self.upload_id@,
            media_type: self.media_type@,
            bytes: self.bytes@,
            sha256: self.sha256@,
            created_at: self.created_at,
        }
    }
}

/// The uploads of a host, shared by all its sessions.
pub struct ClipboardUploadStore {
    uploads: Vec<ClipboardUpload>,
    total_bytes: usize,
}

impl Default for ClipboardUploadStore {
    fn default() -> (r: ClipboardUploadStore)
        ensures
            r.wf(),
            r@ == Seq::<UploadView>::empty(),
    {
        ClipboardUploadStore::new()
    }
}

impl ClipboardUploadStore {
    /// The uploads, oldest first.
    pub closed spec fn view(&self) -> Seq<UploadView> {
        self.uploads@.map_values(|u: ClipboardUpload| u@)
    }

    pub closed spec fn wf(&self) -> bool {
        valid(self@) && self.total_bytes == total_bytes(self@)
    }

    /// A store keeps its limits, and its keys and digests are sound.
    pub proof fn lemma_valid(&self)
        requires
            self.wf(),
        ensures
            valid(self@),
    {
    }

    pub fn new() -> (r: ClipboardUploadStore)
        ensures
            r.wf(),
            r@ == Seq::<UploadView>::empty(),
    {
        let r = ClipboardUploadStore { uploads: Vec::new(), total_bytes: 0 };
        assert(r@ =~= Seq::<UploadView>::empty());
        r
    }

    fn remove_at(&mut self, i: usize)
        requires
            old(self).wf(),
            i < old(self)@.len(),
        ensures
            final(self).wf(),
            final(self)@ == old(self)@.remove(i as int),
    {
        let ghost before = self@;
        proof {
            lemma_remove_valid(before, i as int);
        }
        let upload = self.uploads.remove(i);
        assert(upload@ == before[i as int]);
        self.total_bytes = self.total_bytes - upload.bytes.len();
        assert(self@ =~= before.remove(i as int));
    }

    /// Drops the uploads whose time is up.
    pub fn prune(&mut self, now: u64)
        requires
            old(self).wf(),
        ensures
            final(self).wf(),
            final(self)@ == pruned(old(self)@, now),
    {
        let ghost orig = self@;
        let ghost keep = kept_at(now);
        let mut i: usize = 0;
        let ghost mut j: int = 0;
        proof {
            reveal(Seq::filter);
            assert(orig.take(0).filter(keep) =~= Seq::<UploadView>::empty());
            assert(orig.skip(0) =~= orig);
        }
        while i < self.uploads.len()
            invariant
                self.wf(),
                0 <= j <= orig.len(),
                keep == kept_at(now),
                self@ == orig.take(j).filter(keep) + orig.skip(j),
                i == orig.take(j).filter(keep).len(),
            decreases orig.len() - j,
        {
            let ghost kept = orig.take(j).filter(keep);
            proof {
                assert(self@[i as int] == self.uploads@[i as int]@);
                assert(self@[i as int] == orig[j]);
                lemma_filter_step(orig, j, keep);
            }
            if now.saturating_sub(self.uploads[i].created_at) >= UPLOAD_TTL_MS {
                proof {
                    assert((kept + orig.skip(j)).remove(i as int) =~= kept + orig.skip(j + 1));
                }
                self.remove_at(i);
            } else {
                proof {
                    assert(kept + orig.skip(j) =~= kept.push(orig[j]) + orig.skip(j + 1));
                }
                i += 1;
            }
            proof {
                j = j + 1;
            }
        }
        proof {
            assert(self@.len() == self.uploads@.len());
            assert(j == orig.len());
            assert(orig.take(j) =~= orig);
            assert(orig.filter(keep) + orig.skip(j) =~= orig.filter(keep));
        }
    }

    fn position(&self, upload_id: &[u8], media_type: &str) -> (r: Option<usize>)
        requires
            self.wf(),
        ensures
            match r {
                Some(i) => i < self@.len() && uploaded(self@, upload_id@, media_type@) && i == place(
                    self@,
                    upload_id@,
                    media_type@,
                ),
                None => !uploaded(self@, upload_id@, media_type@),
            },
    {
        let mut i: usize = 0;
        while i < self.uploads.len()
            invariant
                self.wf(),
                i <= self.uploads@.len(),
                forall|j: int|
                    0 <= j < i ==> !has_key(#[trigger] self@[j], upload_id@, media_type@),
            decreases self.uploads@.len() - i,
        {
            assert(self@[i as int] == self.uploads@[i as int]@);
            if bytes_eq(self.uploads[i].upload_id.as_slice(), upload_id) && str_eq(
                self.uploads[i].media_type.as_str(),
                media_type,
            ) {
                proof {
                    lemma_place(self@, i as int);
                }
                return Some(i);
            }
            i += 1;
        }
        None
    }

    /// Takes an upload whose digest was announced; one under the same key is
    /// replaced.
    pub fn insert(
        &mut self,
        upload_id: Vec<u8>,
        bytes: Vec<u8>,
        expected_sha256: &[u8],
        media_type: &str,
        now: u64,
    ) -> (r: Result<(), &'static str>)
        requires
            old(self).wf(),
        ensures
            final(self).wf(),
            ({
                let out = inserted(
                    old(self)@,
                    upload_id@,
                    bytes@,
                    expected_sha256@,
                    media_type@,
                    now,
                );
                &&& final(self)@ == out.0
                &&& match out.1 {
                    Ok(()) => r is Ok,
                    Err(message) => r is Err && r->Err_0@ == message,
                }
            }),
    {
        if upload_id.len() != 32 || bytes.len() == 0 || bytes.len() > MAX_BLOB_BYTES
            || !is_uploadable(media_type) {
            return Err("invalid clipboard blob upload");
        }
        let digest = sha256_digest(bytes.as_slice());
        if expected_sha256.len() != 32 || !bytes_eq(digest.as_slice(), expected_sha256) {
            return Err("clipboard blob digest mismatch");
        }
        self.prune(now);
        let ghost p = self@;
        let at = self.position(upload_id.as_slice(), media_type);
        let previous: usize = match at {
            Some(i) => {
                proof {
                    assert(p[i as int] == self.uploads@[i as int]@);
                    lemma_remove_valid(p, i as int);
                }
                self.uploads[i].bytes.len()
            },
            None => 0,
        };
        let next_total: usize = self.total_bytes.saturating_sub(previous).saturating_add(bytes.len());
        if next_total > MAX_TOTAL_BYTES {
            return Err("clipboard blob upload cache is full");
        }
        if let Some(i) = at {
            self.remove_at(i);
        }
        let ghost rest = self@;
        let ghost u = UploadView {
            upload_id: upload_id@,
            media_type: media_type@,
            bytes: bytes@,
            sha256: digest@,
            created_at: now,
        };
        proof {
            lemma_without(p, upload_id@, media_type@);
            lemma_push_valid(rest, u);
            lemma_sum_push(rest, u, upload_bytes());
        }
        self.total_bytes = next_total;
        self.uploads.push(
            ClipboardUpload {
                upload_id,
                media_type: media_type.to_owned(),
                bytes,
                sha256: digest,
                created_at: now,
            },
        );
        proof {
            assert(self@ =~= rest.push(u));
        }
        Ok(())
    }

    /// The bytes of an upload, if it is there with the expected digest.
    pub fn get(
        &mut self,
        upload_id: &[u8],
        expected_sha256: &[u8],
        expected_media_type: &str,
        now: u64,
    ) -> (r: Option<Vec<u8>>)
        requires
            old(self).wf(),
        ensures
            final(self).wf(),
            final(self)@ == pruned(old(self)@, now),
            match found(
                pruned(old(self)@, now),
                upload_id@,
                expected_sha256@,
                expected_media_type@,
            ) {
                Some(bytes) => r is Some && r->0@ == bytes,
                None => r is None,
            },
    {
        self.prune(now);
        match self.position(upload_id, expected_media_type) {
            None => None,
            Some(i) => {
                assert(self@[i as int] == self.uploads@[i as int]@);
                if bytes_eq(self.uploads[i].sha256.as_slice(), expected_sha256) {
                    Some(copy_bytes(&self.uploads[i].bytes))
                } else {
                    None
                }
            },
        }
    }
}

/// What is kept of uploads: a blob that is proper, whose bytes have the digest that
/// was announced and for which there is room.
pub proof fn lemma_which_uploads_are_kept(
    upload_id: Seq<u8>,
    bytes: Seq<u8>,
    expected_sha256: Seq<u8>,
    media_type: Seq<char>,
    now: u64,
)
    ensures
        inserted(Seq::empty(), upload_id, bytes, expected_sha256, media_type, now).1 is Ok <==> {
            &&& upload_id.len() == 32
            &&& 0 < bytes.len() <= 20_971_520
            &&& media_type == "image/png"@ || media_type == "text/html; charset=utf-8"@
                || media_type == "text/rtf"@
            &&& expected_sha256.len() == 32
            &&& crate::outside::sha256(bytes) == expected_sha256
        },
{
    reveal(Seq::filter);
    reveal_with_fuel(crate::keyed::sum_by, 2);
    assert(pruned(Seq::empty(), now) =~= Seq::<UploadView>::empty());
}

/// Only what has the expected digest is ever found, and it is found under its own
/// number and kind alone.
pub proof fn lemma_what_is_found_is_what_was_meant(
    uploads: Seq<UploadView>,
    upload_id: Seq<u8>,
    expected_sha256: Seq<u8>,
    media_type: Seq<char>,
)
    requires
        valid(uploads),
        found(uploads, upload_id, expected_sha256, media_type) is Some,
    ensures
        ({
            let bytes = found(uploads, upload_id, expected_sha256, media_type)->0;
            &&& crate::outside::sha256(bytes) == expected_sha256
            &&& 0 < bytes.len() <= 20_971_520
            &&& exists|i: int|
                0 <= i < uploads.len() && (#[trigger] uploads[i]).bytes == bytes
                    && uploads[i].upload_id == upload_id && uploads[i].media_type == media_type
        }),
{
    let i = place(uploads, upload_id, media_type);
    assert(has_key(uploads[i], upload_id, media_type));
    assert(valid_upload(uploads[i]));
}

/// An upload is kept for two minutes.
pub proof fn lemma_uploads_last_two_minutes(u: UploadView, now: u64)
    ensures
        kept_at(now)(u) <==> now - u.created_at < 120_000,
{
}

/// Images, rich text and HTML can be brought, and nothing else.
pub proof fn lemma_what_can_be_brought(media_type: Seq<char>)
    ensures
        uploadable("image/png"@),
        uploadable("text/html; charset=utf-8"@),
        uploadable("text/rtf"@),
        uploadable(media_type) ==> media_type == "image/png"@ || media_type
            == "text/html; charset=utf-8"@ || media_type == "text/rtf"@,
{
}

} // verus!
