//! Streams that carry blobs: a blob on its way to the client in chunks, and a
//! blob of the clipboard on its way to the host.

use vstd::prelude::*;
use vstd::string::*;

use crate::blob_store::BlobStore;
use crate::clipboard_upload::{is_uploadable, ClipboardUploadStore, MAX_BLOB_BYTES};
use crate::error::{other, ProtocolError};
use crate::outside::{buffer_len, buffer_slice};
use crate::proto::{copy_bytes, BlobRef};
use crate::status::{ok_status, status, ErrorCode, Status};
use crate::text::bytes_eq;

verus! {

/// The wish to fetch a blob, from an offset on.
#[derive(Debug, PartialEq, Eq)]
pub struct BlobStreamOpen {
    pub transfer_id: u64,
    pub ticket: Vec<u8>,
    pub offset: u64,
}

/// What the client is told before the chunks.
#[derive(Debug, PartialEq, Eq)]
pub struct BlobStreamHeader {
    pub status: Status,
    pub blob: Option<BlobRef>,
    pub accepted_offset: u64,
    pub chunk_size: u32,
}

/// A part of a blob.
#[derive(Debug)]
pub struct BlobStreamChunk {
    pub transfer_id: u64,
    pub offset: u64,
    pub data: bytes::Bytes,
    pub end_of_blob: bool,
}

/// A [`BlobStreamChunk`] as a mathematical value.
pub struct ChunkView {
    pub transfer_id: u64,
    pub offset: u64,
    pub data: Seq<u8>,
    pub end_of_blob: bool,
}

impl View for BlobStreamChunk {
    type V = ChunkView;

    open spec fn view(&self) -> ChunkView {
        ChunkView {
            transfer_id: self.transfer_id,
            offset: self.offset,
            data: crate::outside::buffer_content(self.data),
            end_of_blob: self.end_of_blob,
        }
    }
}

/// The chunks of `content` from an offset on: each but the last has the full
/// size, and the last is marked.
pub open spec fn chunks_from(content: Seq<u8>, transfer_id: u64, offset: int, size: int) -> Seq<
    ChunkView,
>
    decreases content.len() - offset,
{
    if size <= 0 || offset + size >= content.len() {
        seq![
            ChunkView {
                transfer_id,
                offset: offset as u64,
                data: content.skip(offset),
                end_of_blob: true,
            },
        ]
    } else {
        seq![
            ChunkView {
                transfer_id,
                offset: offset as u64,
                data: content.subrange(offset, offset + size),
                end_of_blob: false,
            },
        ] + chunks_from(content, transfer_id, offset + size, size)
    }
}

/// What chunks hold together.
pub open spec fn joined(chunks: Seq<ChunkView>) -> Seq<u8>
    decreases chunks.len(),
{
    if chunks.len() == 0 {
        Seq::empty()
    } else {
        chunks[0].data + joined(chunks.skip(1))
    }
}

/// The chunks from an offset on hold together what the blob holds from there on,
/// each follows the one before without a gap, only the last is marked, and none
/// is larger than agreed.
pub proof fn lemma_chunks_join(content: Seq<u8>, transfer_id: u64, offset: int, size: int)
    requires
        0 < size,
        0 <= offset <= content.len() <= u64::MAX,
    ensures
        joined(chunks_from(content, transfer_id, offset, size)) == content.skip(offset),
        chunks_from(content, transfer_id, offset, size).len() > 0,
        chunks_from(content, transfer_id, offset, size)[0].offset == offset,
        forall|i: int|
            0 <= i < chunks_from(content, transfer_id, offset, size).len() ==> {
                let c = #[trigger] chunks_from(content, transfer_id, offset, size)[i];
                &&& c.transfer_id == transfer_id
                &&& c.data.len() <= size
                &&& offset <= c.offset
                &&& c.offset + c.data.len() <= content.len()
                &&& c.data == content.subrange(c.offset as int, c.offset + c.data.len())
                &&& c.end_of_blob == (i == chunks_from(content, transfer_id, offset, size).len()
                    - 1)
            },
        forall|i: int|
            0 <= i < chunks_from(content, transfer_id, offset, size).len() - 1 ==> {
                let c = #[trigger] chunks_from(content, transfer_id, offset, size)[i];
                chunks_from(content, transfer_id, offset, size)[i + 1].offset == c.offset
                    + c.data.len()
            },
    decreases content.len() - offset,
{
    let all = chunks_from(content, transfer_id, offset, size);
    if offset + size >= content.len() {
        assert(all[0].data == content.skip(offset));
        assert(all.skip(1) =~= Seq::empty());
        assert(joined(all.skip(1)) =~= Seq::empty());
        assert(joined(all) =~= content.skip(offset));
        assert(content.skip(offset) =~= content.subrange(offset, content.len() as int));
    } else {
        let rest = chunks_from(content, transfer_id, offset + size, size);
        lemma_chunks_join(content, transfer_id, offset + size, size);
        assert(all.skip(1) =~= rest);
        assert(joined(all) =~= content.skip(offset));
        assert forall|i: int| 0 <= i < all.len() implies ({
            let c = #[trigger] all[i];
            &&& c.transfer_id == transfer_id
            &&& c.data.len() <= size
            &&& offset <= c.offset
            &&& c.offset + c.data.len() <= content.len()
            &&& c.data == content.subrange(c.offset as int, c.offset + c.data.len())
            &&& c.end_of_blob == (i == all.len() - 1)
        }) by {
            if i > 0 {
                assert(all[i] == rest[i - 1]);
            }
        }
        assert forall|i: int| 0 <= i < all.len() - 1 implies ({
            let c = #[trigger] all[i];
            all[i + 1].offset == c.offset + c.data.len()
        }) by {
            assert(all[i + 1] == rest[i]);
            if i > 0 {
                assert(all[i] == rest[i - 1]);
            }
        }
    }
}

/// The chunks as mathematical values.
pub open spec fn chunk_views(chunks: Seq<BlobStreamChunk>) -> Seq<ChunkView> {
    chunks.map_values(|c: BlobStreamChunk| c@)
}

/// Cuts a blob into chunks, from an offset on.
pub fn blob_chunks(buffer: &bytes::Bytes, transfer_id: u64, offset: usize, size: usize) -> (r: Vec<
    BlobStreamChunk,
>)
    requires
        offset <= crate::outside::buffer_content(*buffer).len(),
        size > 0,
    ensures
        chunk_views(r@) == chunks_from(
            crate::outside::buffer_content(*buffer),
            transfer_id,
            offset as int,
            size as int,
        ),
{
    let ghost content = crate::outside::buffer_content(*buffer);
    let ghost all = chunks_from(content, transfer_id, offset as int, size as int);
    let len: usize = buffer_len(buffer);
    let mut chunks: Vec<BlobStreamChunk> = Vec::new();
    let mut at: usize = offset;
    while len - at > size
        invariant
            content == crate::outside::buffer_content(*buffer),
            len == content.len(),
            at <= len,
            size > 0,
            all == chunk_views(chunks@) + chunks_from(
                content,
                transfer_id,
                at as int,
                size as int,
            ),
        decreases len - at,
    {
        let ghost before = chunks@;
        let end: usize = at + size;
        let chunk = BlobStreamChunk {
            transfer_id,
            offset: at as u64,
            data: buffer_slice(buffer, at, end),
            end_of_blob: false,
        };
        let ghost view = chunk@;
        chunks.push(chunk);
        proof {
            let rest = chunks_from(content, transfer_id, end as int, size as int);
            assert(chunk_views(chunks@) =~= chunk_views(before).push(view));
            assert(chunk_views(before).push(view) + rest =~= chunk_views(before) + (seq![view]
                + rest));
        }
        at = end;
    }
    let ghost before = chunks@;
    let chunk = BlobStreamChunk {
        transfer_id,
        offset: at as u64,
        data: buffer_slice(buffer, at, len),
        end_of_blob: true,
    };
    let ghost view = chunk@;
    chunks.push(chunk);
    proof {
        assert(content.subrange(at as int, len as int) =~= content.skip(at as int));
        assert(chunk_views(chunks@) =~= chunk_views(before).push(view));
        assert(chunk_views(before).push(view) =~= chunk_views(before) + seq![view]);
    }
    chunks
}

/// True when `r` refuses to send a blob.
pub open spec fn refuses_blob(
    r: BlobStreamHeader,
    code: ErrorCode,
    message: Seq<char>,
    chunk_size: u32,
) -> bool {
    &&& crate::status::reports(r.status@, code, message)
    &&& r.accepted_offset == 0
    &&& r.chunk_size == chunk_size
}

/// Redeems a ticket and cuts its blob into chunks, from the wished offset on: a
/// header, and the chunks that follow it.
pub fn open_blob_stream(
    store: &mut BlobStore,
    owner: &[u8],
    open: &BlobStreamOpen,
    chunk_size: u32,
    now: u64,
) -> (r: (BlobStreamHeader, Vec<BlobStreamChunk>))
    requires
        old(store).wf(),
        chunk_size > 0,
        now + crate::blob_store::BLOB_IDLE_TTL_MS <= u64::MAX,
    ensures
        final(store).wf(),
        ({
            let out = crate::blob_store::redeemed(
                old(store)@,
                owner@,
                open.transfer_id,
                open.ticket@,
                now,
            );
            &&& final(store)@ == out.0
            &&& match out.1 {
                Err(message) => {
                    &&& refuses_blob(r.0, ErrorCode::Unauthenticated, message, chunk_size)
                    &&& r.0.blob is None
                    &&& r.1@.len() == 0
                },
                Ok(blob) => {
                    &&& crate::blob_store::reference_view(r.0.blob) == Some(
                        crate::blob_store::reference_of(blob),
                    )
                    &&& if open.offset > blob.content.len() {
                        &&& refuses_blob(
                            r.0,
                            ErrorCode::InvalidArgument,
                            "blob offset is outside the payload"@,
                            chunk_size,
                        )
                        &&& r.1@.len() == 0
                    } else {
                        &&& crate::status::is_ok_status(r.0.status@)
                        &&& r.0.accepted_offset == open.offset
                        &&& r.0.chunk_size == chunk_size
                        &&& chunk_views(r.1@) == chunks_from(
                            blob.content,
                            open.transfer_id,
                            open.offset as int,
                            chunk_size as int,
                        )
                    }
                },
            }
        }),
{
    let redeemed = match store.redeem(owner, open.transfer_id, open.ticket.as_slice(), now) {
        Ok(redeemed) => redeemed,
        Err(message) => {
            return (
                BlobStreamHeader {
                    status: status(ErrorCode::Unauthenticated, message),
                    blob: None,
                    accepted_offset: 0,
                    chunk_size,
                },
                Vec::new(),
            );
        },
    };
    let len: usize = buffer_len(&redeemed.bytes);
    if open.offset > len as u64 {
        return (
            BlobStreamHeader {
                status: status(ErrorCode::InvalidArgument, "blob offset is outside the payload"),
                blob: Some(redeemed.reference),
                accepted_offset: 0,
                chunk_size,
            },
            Vec::new(),
        );
    }
    let chunks = blob_chunks(
        &redeemed.bytes,
        open.transfer_id,
        open.offset as usize,
        chunk_size as usize,
    );
    (
        BlobStreamHeader {
            status: ok_status(),
            blob: Some(redeemed.reference),
            accepted_offset: open.offset,
            chunk_size,
        },
        chunks,
    )
}

/// The wish to send a blob of the clipboard.
#[derive(Debug, PartialEq, Eq)]
pub struct ClipboardBlobUploadOpen {
    pub upload_id: Vec<u8>,
    pub sha256: Vec<u8>,
    pub media_type: String,
    pub size: u64,
}

/// What the client is told before it sends.
#[derive(Debug, PartialEq, Eq)]
pub struct ClipboardBlobUploadHeader {
    pub status: Status,
    pub upload_id: Vec<u8>,
    pub chunk_size: u32,
}

/// A part of a blob of the clipboard.
#[derive(Debug, PartialEq, Eq)]
pub struct ClipboardBlobUploadChunk {
    pub upload_id: Vec<u8>,
    pub offset: u64,
    pub data: Vec<u8>,
    pub end_of_upload: bool,
}

/// What became of a blob of the clipboard.
#[derive(Debug, PartialEq, Eq)]
pub struct ClipboardBlobUploadResult {
    pub status: Status,
    pub upload_id: Vec<u8>,
    pub received_size: u64,
    pub sha256: Vec<u8>,
}

/// True when a blob of the clipboard may be sent.
pub open spec fn may_upload(open: ClipboardBlobUploadOpen) -> bool {
    &&& open.upload_id@.len() == 32
    &&& open.sha256@.len() == 32
    &&& open.upload_id@ == open.sha256@
    &&& 0 < open.size <= MAX_BLOB_BYTES
    &&& crate::clipboard_upload::uploadable(open.media_type@)
}

/// A blob of the clipboard that is being received.
pub struct ClipboardBlobReceiver {
    upload_id: Vec<u8>,
    sha256: Vec<u8>,
    media_type: String,
    expected_size: usize,
    bytes: Vec<u8>,
}

/// A [`ClipboardBlobReceiver`] as a mathematical value.
pub struct ReceiverView {
    pub upload_id: Seq<u8>,
    pub sha256: Seq<u8>,
    pub media_type: Seq<char>,
    pub expected_size: nat,
    pub bytes: Seq<u8>,
}

/// Why a chunk is not taken, if so.
pub open spec fn chunk_fault(s: ReceiverView, chunk: ClipboardBlobUploadChunk) -> Option<
    Seq<char>,
> {
    if chunk.upload_id@ != s.upload_id || chunk.offset != s.bytes.len() {
        Some("invalid clipboard blob upload chunk"@)
    } else if s.bytes.len() + chunk.data@.len() > s.expected_size {
        Some("clipboard blob upload exceeds declared size"@)
    } else {
        None
    }
}

/// Decides whether a blob of the clipboard may be sent.
pub fn open_clipboard_upload(open: ClipboardBlobUploadOpen, chunk_size: u32) -> (r: (
    ClipboardBlobUploadHeader,
    Option<ClipboardBlobReceiver>,
))
    ensures
        r.0.upload_id@ == open.upload_id@,
        r.0.chunk_size == chunk_size,
        r.1 is Some == may_upload(open),
        match r.1 {
            Some(receiver) => {
                &&& receiver.wf()
                &&& crate::status::is_ok_status(r.0.status@)
                &&& receiver@ == (ReceiverView {
                    upload_id: open.upload_id@,
                    sha256: open.sha256@,
                    media_type: open.media_type@,
                    expected_size: open.size as nat,
                    bytes: Seq::empty(),
                })
            },
            None => crate::status::reports(
                r.0.status@,
                ErrorCode::InvalidArgument,
                "invalid clipboard blob upload"@,
            ),
        },
{
    if open.upload_id.len() != 32 || open.sha256.len() != 32 || !bytes_eq(
        open.upload_id.as_slice(),
        open.sha256.as_slice(),
    ) || open.size == 0 || open.size > MAX_BLOB_BYTES as u64 || !is_uploadable(
        open.media_type.as_str(),
    ) {
        return (
            ClipboardBlobUploadHeader {
                status: status(ErrorCode::InvalidArgument, "invalid clipboard blob upload"),
                upload_id: open.upload_id,
                chunk_size,
            },
            None,
        );
    }
    let header = ClipboardBlobUploadHeader {
        status: ok_status(),
        upload_id: copy_bytes(&open.upload_id),
        chunk_size,
    };
    let receiver = ClipboardBlobReceiver {
        upload_id: open.upload_id,
        sha256: open.sha256,
        media_type: open.media_type,
        expected_size: open.size as usize,
        bytes: Vec::new(),
    };
    (header, Some(receiver))
}

impl ClipboardBlobReceiver {
    pub closed spec fn view(&self) -> ReceiverView {
        ReceiverView {
            upload_id: self.upload_id@,
            sha256: self.sha256@,
            media_type: self.media_type@,
            expected_size: self.expected_size as nat,
            bytes: self.bytes@,
        }
    }

    /// What holds of every blob that is being received: no more has come than
    /// was announced.
    pub open spec fn wf(&self) -> bool {
        self@.bytes.len() <= self@.expected_size <= MAX_BLOB_BYTES
    }

    /// Takes the next chunk; tells whether it was the last.
    pub fn receive(&mut self, chunk: ClipboardBlobUploadChunk) -> (r: Result<bool, ProtocolError>)
        requires
            old(self).wf(),
        ensures
            final(self).wf(),
            match chunk_fault(old(self)@, chunk) {
                Some(fault) => crate::error::fails_with(r, fault) && final(self)@ == old(self)@,
                None => {
                    &&& r == Ok::<bool, ProtocolError>(chunk.end_of_upload)
                    &&& final(self)@ == (ReceiverView {
                        bytes: old(self)@.bytes + chunk.data@,
                        ..old(self)@
                    })
                },
            },
    {
        if !bytes_eq(chunk.upload_id.as_slice(), self.upload_id.as_slice()) || chunk.offset
            != self.bytes.len() as u64 {
            return Err(other("invalid clipboard blob upload chunk"));
        }
        if chunk.data.len() > self.expected_size - self.bytes.len() {
            return Err(other("clipboard blob upload exceeds declared size"));
        }
        let mut data = chunk.data;
        self.bytes.append(&mut data);
        Ok(chunk.end_of_upload)
    }

    /// Keeps what was received, if it is whole.
    pub fn finish(self, uploads: &mut ClipboardUploadStore, now: u64) -> (r:
        ClipboardBlobUploadResult)
        requires
            self.wf(),
            old(uploads).wf(),
        ensures
            final(uploads).wf(),
            r.upload_id@ == self@.upload_id,
            r.sha256@ == self@.sha256,
            r.received_size == self@.bytes.len(),
            if self@.bytes.len() != self@.expected_size {
                &&& crate::status::reports(
                    r.status@,
                    ErrorCode::InvalidArgument,
                    "clipboard blob upload ended early"@,
                )
                &&& final(uploads)@ == old(uploads)@
            } else {
                let out = crate::clipboard_upload::inserted(
                    old(uploads)@,
                    self@.upload_id,
                    self@.bytes,
                    self@.sha256,
                    self@.media_type,
                    now,
                );
                &&& final(uploads)@ == out.0
                &&& match out.1 {
                    Ok(()) => crate::status::is_ok_status(r.status@),
                    Err(message) => crate::status::reports(
                        r.status@,
                        ErrorCode::InvalidArgument,
                        message,
                    ),
                }
            },
    {
        let received_size: u64 = self.bytes.len() as u64;
        let upload_id = copy_bytes(&self.upload_id);
        let result = if self.bytes.len() == self.expected_size {
            uploads.insert(
                self.upload_id,
                self.bytes,
                self.sha256.as_slice(),
                self.media_type.as_str(),
                now,
            )
        } else {
            Err("clipboard blob upload ended early")
        };
        ClipboardBlobUploadResult {
            status: match result {
                Ok(()) => ok_status(),
                Err(message) => status(ErrorCode::InvalidArgument, message),
            },
            upload_id,
            received_size,
            sha256: self.sha256,
        }
    }
}

/// What was announced, received whole and kept is found again: a blob whose
/// digest is the announced one, for which there is room, is what a look under
/// its number gives as long as its time is not up.
pub proof fn lemma_whole_upload_is_found(
    s: ReceiverView,
    uploads: Seq<crate::clipboard_upload::UploadView>,
    now: u64,
    later: u64,
)
    requires
        crate::clipboard_upload::valid(uploads),
        s.bytes.len() == s.expected_size,
        crate::clipboard_upload::inserted(
            uploads,
            s.upload_id,
            s.bytes,
            s.sha256,
            s.media_type,
            now,
        ).1 is Ok,
        later - now < crate::clipboard_upload::UPLOAD_TTL_MS,
    ensures
        crate::clipboard_upload::found(
            crate::clipboard_upload::pruned(
                crate::clipboard_upload::inserted(
                    uploads,
                    s.upload_id,
                    s.bytes,
                    s.sha256,
                    s.media_type,
                    now,
                ).0,
                later,
            ),
            s.upload_id,
            s.sha256,
            s.media_type,
        ) == Some(s.bytes),
        crate::outside::sha256(s.bytes) == s.sha256,
{
    crate::clipboard_upload::lemma_get_after_insert(
        uploads,
        s.upload_id,
        s.bytes,
        s.sha256,
        s.media_type,
        now,
        later,
    );
}

/// Which blobs may be sent, and which of their chunks are taken: those of the blob
/// that was announced, one after the other and no more than was announced.
pub proof fn lemma_which_chunks_are_taken(
    open: ClipboardBlobUploadOpen,
    s: ReceiverView,
    chunk: ClipboardBlobUploadChunk,
)
    ensures
        may_upload(open) ==> open.upload_id@ == open.sha256@ && open.sha256@.len() == 32 && 0
            < open.size <= 20_971_520,
        may_upload(open) <==> open.sha256@.len() == 32 && open.upload_id@ == open.sha256@ && 0
            < open.size <= 20_971_520 && (open.media_type@ == "image/png"@ || open.media_type@
            == "text/html; charset=utf-8"@ || open.media_type@ == "text/rtf"@),
        chunk_fault(s, chunk) is None <==> {
            &&& chunk.upload_id@ == s.upload_id
            &&& chunk.offset == s.bytes.len()
            &&& s.bytes.len() + chunk.data@.len() <= s.expected_size
        },
{
}

/// A blob that is not sent is refused with the code that tells why, and nothing of
/// it follows.
pub proof fn lemma_refused_blobs_are_told_why(
    r: BlobStreamHeader,
    code: ErrorCode,
    message: Seq<char>,
    chunk_size: u32,
)
    requires
        refuses_blob(r, code, message, chunk_size),
    ensures
        r.status@.code == code,
        r.accepted_offset == 0,
        r.chunk_size == chunk_size,
{
}

} // verus!
