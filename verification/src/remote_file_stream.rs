//! One remote-file operation on its stream: which call is made to the host's
//! file provider, what is answered for each of its replies, and how the bytes
//! of an upload are taken over.

use vstd::prelude::*;
use vstd::string::*;

use crate::error::{other, ProtocolError};
use crate::remote_files::{
    RemoteFileAccess, RemoteFileDirectoryPage, RemoteFileEntry, RemoteFileError,
    RemoteFileErrorCode, RemoteFileKind, RemoteFileLimits, RemoteFileRequest, RemoteFileResponse,
    RemoteFileShare, RemoteFileSortDirection, RemoteFileSortKey, RemoteFileThumbnail,
    RemoteFileUpload,
    DEFAULT_REMOTE_DIRECTORY_PAGE_SIZE, MAX_REMOTE_DIRECTORY_PAGE_SIZE,
};
use crate::text::decimal_text;

verus! {

/// A call to the host's file provider.
#[derive(Debug, PartialEq, Eq)]
pub enum ProviderCall {
    ListShares,
    ListDirectory {
        share_id: String,
        relative_path: String,
        cursor: Option<String>,
        limit: u32,
        search: Option<String>,
        sort_key: RemoteFileSortKey,
        sort_direction: RemoteFileSortDirection,
    },
    CreateDirectory { share_id: String, relative_path: String, name: String },
    Rename { share_id: String, relative_path: String, new_name: String },
    Delete { share_id: String, relative_path: String },
    PrepareDownload { share_id: String, relative_path: String },
    PrepareThumbnail { share_id: String, relative_path: String, max_dimension: u32 },
    PrepareUpload {
        share_id: String,
        relative_path: String,
        name: String,
        size: u64,
        overwrite: bool,
        expected_modified_at_ms: Option<i64>,
        /// Present when the file is committed only against this revision.
        expected_revision: Option<String>,
    },
    Stat { share_id: String, relative_path: String },
    ReadRange { share_id: String, relative_path: String, offset: u64, length: u64, revision: String },
    MoveEntry {
        share_id: String,
        relative_path: String,
        destination_path: String,
        overwrite: bool,
        expected_revision: String,
    },
    ConditionalDelete {
        share_id: String,
        relative_path: String,
        expected_revision: String,
        recursive: bool,
    },
}

/// How an operation begins.
#[derive(Debug, PartialEq, Eq)]
pub enum StreamStart {
    /// It is answered at once.
    Answer(RemoteFileResponse),
    /// The provider is asked.
    Call(ProviderCall),
}

/// How an operation begins, as a mathematical value.
pub enum StartView {
    Refuse { code: RemoteFileErrorCode, message: Seq<char> },
    Call { call: ProviderCall },
}

/// The page size that the provider is asked for.
pub open spec fn page_size(limit: u32) -> u32 {
    if limit == 0 {
        DEFAULT_REMOTE_DIRECTORY_PAGE_SIZE
    } else if limit > MAX_REMOTE_DIRECTORY_PAGE_SIZE {
        MAX_REMOTE_DIRECTORY_PAGE_SIZE
    } else {
        limit
    }
}

/// A call if it is allowed, else a refusal.
pub open spec fn allowed(permitted: bool, message: Seq<char>, call: ProviderCall) -> StartView {
    if permitted {
        StartView::Call { call }
    } else {
        StartView::Refuse { code: RemoteFileErrorCode::PermissionDenied, message }
    }
}

/// How an upload begins.
pub open spec fn upload_start(
    permitted: bool,
    size: u64,
    limits: RemoteFileLimits,
    call: ProviderCall,
) -> StartView {
    if permitted && size > limits.max_content_size {
        StartView::Refuse {
            code: RemoteFileErrorCode::ResourceExhausted,
            message: "remote file size exceeds the limit"@,
        }
    } else {
        allowed(permitted, "write access to this share is not permitted"@, call)
    }
}

/// How a request begins: reading needs read access to the share, everything
/// that changes it needs write access.
pub open spec fn start_of(
    request: RemoteFileRequest,
    provider_available: bool,
    access: crate::remote_files::AccessView,
    limits: RemoteFileLimits,
) -> StartView {
    let no_read = "read access to this share is not permitted"@;
    let no_write = "write access to this share is not permitted"@;
    if !provider_available {
        StartView::Refuse {
            code: RemoteFileErrorCode::Unavailable,
            message: "remote files are unavailable"@,
        }
    } else {
        match request {
            RemoteFileRequest::ListShares => allowed(
                exists|share: Seq<char>| crate::remote_files::reachable(access, share),
                "remote file access is not permitted"@,
                ProviderCall::ListShares,
            ),
            RemoteFileRequest::ListDirectory {
                share_id,
                relative_path,
                cursor,
                limit,
                search,
                sort_key,
                sort_direction,
            } => allowed(
                crate::remote_files::readable(access, share_id@),
                no_read,
                ProviderCall::ListDirectory {
                    share_id,
                    relative_path,
                    cursor,
                    limit: page_size(limit),
                    search,
                    sort_key,
                    sort_direction,
                },
            ),
            RemoteFileRequest::CreateDirectory { share_id, relative_path, name } => allowed(
                crate::remote_files::writable(access, share_id@),
                no_write,
                ProviderCall::CreateDirectory { share_id, relative_path, name },
            ),
            RemoteFileRequest::Rename { share_id, relative_path, new_name } => allowed(
                crate::remote_files::writable(access, share_id@),
                no_write,
                ProviderCall::Rename { share_id, relative_path, new_name },
            ),
            RemoteFileRequest::Delete { share_id, relative_path } => allowed(
                crate::remote_files::writable(access, share_id@),
                no_write,
                ProviderCall::Delete { share_id, relative_path },
            ),
            RemoteFileRequest::Download { share_id, relative_path } => allowed(
                crate::remote_files::readable(access, share_id@),
                no_read,
                ProviderCall::PrepareDownload { share_id, relative_path },
            ),
            RemoteFileRequest::Thumbnail { share_id, relative_path, max_dimension } => allowed(
                crate::remote_files::readable(access, share_id@),
                no_read,
                ProviderCall::PrepareThumbnail { share_id, relative_path, max_dimension },
            ),
            RemoteFileRequest::Stat { share_id, relative_path } => allowed(
                crate::remote_files::readable(access, share_id@),
                no_read,
                ProviderCall::Stat { share_id, relative_path },
            ),
            RemoteFileRequest::ReadRange { share_id, relative_path, offset, length, revision } => {
                allowed(
                    crate::remote_files::readable(access, share_id@),
                    no_read,
                    ProviderCall::ReadRange { share_id, relative_path, offset, length, revision },
                )
            },
            RemoteFileRequest::Move {
                share_id,
                relative_path,
                destination_path,
                overwrite,
                expected_revision,
            } => allowed(
                crate::remote_files::writable(access, share_id@),
                no_write,
                ProviderCall::MoveEntry {
                    share_id,
                    relative_path,
                    destination_path,
                    overwrite,
                    expected_revision,
                },
            ),
            RemoteFileRequest::ConditionalDelete {
                share_id,
                relative_path,
                expected_revision,
                recursive,
            } => allowed(
                crate::remote_files::writable(access, share_id@),
                no_write,
                ProviderCall::ConditionalDelete {
                    share_id,
                    relative_path,
                    expected_revision,
                    recursive,
                },
            ),
            RemoteFileRequest::Upload {
                share_id,
                relative_path,
                name,
                size,
                overwrite,
                expected_modified_at_ms,
            } => upload_start(
                crate::remote_files::writable(access, share_id@),
                size,
                limits,
                ProviderCall::PrepareUpload {
                    share_id,
                    relative_path,
                    name,
                    size,
                    overwrite,
                    expected_modified_at_ms,
                    expected_revision: None,
                },
            ),
            RemoteFileRequest::ConditionalUpload {
                share_id,
                relative_path,
                name,
                size,
                expected_revision,
            } => upload_start(
                crate::remote_files::writable(access, share_id@),
                size,
                limits,
                ProviderCall::PrepareUpload {
                    share_id,
                    relative_path,
                    name,
                    size,
                    overwrite: expected_revision@.len() > 0,
                    expected_modified_at_ms: None,
                    expected_revision: Some(expected_revision),
                },
            ),
        }
    }
}

/// True when the beginning is the expected one.
pub open spec fn starts_as(r: StreamStart, expected: StartView) -> bool {
    match expected {
        StartView::Refuse { code, message } => r is Answer && crate::remote_files::is_failure(
            r->Answer_0,
            code,
            message,
        ),
        StartView::Call { call } => r == StreamStart::Call(call),
    }
}

fn call_if(permitted: bool, message: &str, call: ProviderCall) -> (r: StreamStart)
    ensures
        starts_as(r, allowed(permitted, message@, call)),
{
    if permitted {
        StreamStart::Call(call)
    } else {
        StreamStart::Answer(
            RemoteFileResponse::failure(RemoteFileErrorCode::PermissionDenied, message),
        )
    }
}

fn upload_call(permitted: bool, size: u64, limits: &RemoteFileLimits, call: ProviderCall) -> (r:
    StreamStart)
    ensures
        starts_as(r, upload_start(permitted, size, *limits, call)),
{
    if permitted && size > limits.max_content_size {
        StreamStart::Answer(
            RemoteFileResponse::failure(
                RemoteFileErrorCode::ResourceExhausted,
                "remote file size exceeds the limit",
            ),
        )
    } else {
        call_if(permitted, "write access to this share is not permitted", call)
    }
}

/// Decides how a request begins.
pub fn start_remote_file_stream(
    request: RemoteFileRequest,
    provider_available: bool,
    access: &RemoteFileAccess,
    limits: &RemoteFileLimits,
) -> (r: StreamStart)
    ensures
        starts_as(r, start_of(request, provider_available, access@, *limits)),
{
    let no_read = "read access to this share is not permitted";
    let no_write = "write access to this share is not permitted";
    if !provider_available {
        return StreamStart::Answer(
            RemoteFileResponse::failure(
                RemoteFileErrorCode::Unavailable,
                "remote files are unavailable",
            ),
        );
    }
    match request {
        RemoteFileRequest::ListShares => call_if(
            access.can_list_shares(),
            "remote file access is not permitted",
            ProviderCall::ListShares,
        ),
        RemoteFileRequest::ListDirectory {
            share_id,
            relative_path,
            cursor,
            limit,
            search,
            sort_key,
            sort_direction,
        } => {
            let permitted = access.can_read(share_id.as_str());
            let size: u32 = if limit == 0 {
                DEFAULT_REMOTE_DIRECTORY_PAGE_SIZE
            } else if limit > MAX_REMOTE_DIRECTORY_PAGE_SIZE {
                MAX_REMOTE_DIRECTORY_PAGE_SIZE
            } else {
                limit
            };
            call_if(
                permitted,
                no_read,
                ProviderCall::ListDirectory {
                    share_id,
                    relative_path,
                    cursor,
                    limit: size,
                    search,
                    sort_key,
                    sort_direction,
                },
            )
        },
        RemoteFileRequest::CreateDirectory { share_id, relative_path, name } => {
            let permitted = access.can_write(share_id.as_str());
            call_if(
                permitted,
                no_write,
                ProviderCall::CreateDirectory { share_id, relative_path, name },
            )
        },
        RemoteFileRequest::Rename { share_id, relative_path, new_name } => {
            let permitted = access.can_write(share_id.as_str());
            call_if(
                permitted,
                no_write,
                ProviderCall::Rename { share_id, relative_path, new_name },
            )
        },
        RemoteFileRequest::Delete { share_id, relative_path } => {
            let permitted = access.can_write(share_id.as_str());
            call_if(permitted, no_write, ProviderCall::Delete { share_id, relative_path })
        },
        RemoteFileRequest::Download { share_id, relative_path } => {
            let permitted = access.can_read(share_id.as_str());
            call_if(permitted, no_read, ProviderCall::PrepareDownload { share_id, relative_path })
        },
        RemoteFileRequest::Thumbnail { share_id, relative_path, max_dimension } => {
            let permitted = access.can_read(share_id.as_str());
            call_if(
                permitted,
                no_read,
                ProviderCall::PrepareThumbnail { share_id, relative_path, max_dimension },
            )
        },
        RemoteFileRequest::Stat { share_id, relative_path } => {
            let permitted = access.can_read(share_id.as_str());
            call_if(permitted, no_read, ProviderCall::Stat { share_id, relative_path })
        },
        RemoteFileRequest::ReadRange { share_id, relative_path, offset, length, revision } => {
            let permitted = access.can_read(share_id.as_str());
            call_if(
                permitted,
                no_read,
                ProviderCall::ReadRange { share_id, relative_path, offset, length, revision },
            )
        },
        RemoteFileRequest::Move {
            share_id,
            relative_path,
            destination_path,
            overwrite,
            expected_revision,
        } => {
            let permitted = access.can_write(share_id.as_str());
            call_if(
                permitted,
                no_write,
                ProviderCall::MoveEntry {
                    share_id,
                    relative_path,
                    destination_path,
                    overwrite,
                    expected_revision,
                },
            )
        },
        RemoteFileRequest::ConditionalDelete {
            share_id,
            relative_path,
            expected_revision,
            recursive,
        } => {
            let permitted = access.can_write(share_id.as_str());
            call_if(
                permitted,
                no_write,
                ProviderCall::ConditionalDelete {
                    share_id,
                    relative_path,
                    expected_revision,
                    recursive,
                },
            )
        },
        RemoteFileRequest::Upload {
            share_id,
            relative_path,
            name,
            size,
            overwrite,
            expected_modified_at_ms,
        } => {
            let permitted = access.can_write(share_id.as_str());
            upload_call(
                permitted,
                size,
                limits,
                ProviderCall::PrepareUpload {
                    share_id,
                    relative_path,
                    name,
                    size,
                    overwrite,
                    expected_modified_at_ms,
                    expected_revision: None,
                },
            )
        },
        RemoteFileRequest::ConditionalUpload {
            share_id,
            relative_path,
            name,
            size,
            expected_revision,
        } => {
            let permitted = access.can_write(share_id.as_str());
            let overwrite = !expected_revision.as_str().is_empty();
            upload_call(
                permitted,
                size,
                limits,
                ProviderCall::PrepareUpload {
                    share_id,
                    relative_path,
                    name,
                    size,
                    overwrite,
                    expected_modified_at_ms: None,
                    expected_revision: Some(expected_revision),
                },
            )
        },
    }
}

/// Without access to any share, no request reaches the provider.
pub proof fn lemma_no_access_no_call(
    request: RemoteFileRequest,
    provider_available: bool,
    access: crate::remote_files::AccessView,
    limits: RemoteFileLimits,
)
    requires
        !access.read_all,
        !access.write_all,
        access.read_shares == Set::<Seq<char>>::empty(),
        access.write_shares == Set::<Seq<char>>::empty(),
    ensures
        start_of(request, provider_available, access, limits) is Refuse,
        provider_available ==> start_of(request, provider_available, access, limits)->code
            == RemoteFileErrorCode::PermissionDenied,
{
    assert forall|share: Seq<char>| !crate::remote_files::reachable(access, share) by {}
}

/// The shares that a device gets to see: those it can read or write, writable
/// only where it may write.
pub open spec fn visible_shares(
    shares: Seq<RemoteFileShare>,
    access: crate::remote_files::AccessView,
) -> Seq<RemoteFileShare>
    decreases shares.len(),
{
    if shares.len() == 0 {
        Seq::empty()
    } else {
        let rest = visible_shares(shares.drop_last(), access);
        let share = shares.last();
        if crate::remote_files::reachable(access, share.id@) {
            rest.push(
                RemoteFileShare {
                    writable: share.writable && crate::remote_files::writable(access, share.id@),
                    ..share
                },
            )
        } else {
            rest
        }
    }
}

/// True when `r` answers with the shares that can be reached, or why there are none.
pub open spec fn answers_shares(
    r: RemoteFileResponse,
    access: crate::remote_files::AccessView,
    result: Result<Vec<RemoteFileShare>, RemoteFileError>,
) -> bool {
    match result {
        Err(error) => crate::remote_files::is_failure(r, error.code, error.message@),
        Ok(shares) => crate::remote_files::response_view(r) == (
        crate::remote_files::ResponseView {
            shares: visible_shares(shares@, access),
            ..crate::remote_files::success_view()
        }),
    }
}

/// Answers with the shares that the device may see.
pub fn answer_shares(
    access: &RemoteFileAccess,
    result: Result<Vec<RemoteFileShare>, RemoteFileError>,
) -> (r: RemoteFileResponse)
    ensures
        answers_shares(r, access@, result),
{
    let mut pending = match result {
        Err(error) => {
            return RemoteFileResponse::from_error(error);
        },
        Ok(shares) => shares,
    };
    let ghost all = pending@;
    let count: usize = pending.len();
    let mut visible: Vec<RemoteFileShare> = Vec::new();
    let mut n: usize = 0;
    while n < count
        invariant
            n <= count,
            count == all.len(),
            pending@ == all.skip(n as int),
            visible@ == visible_shares(all.take(n as int), access@),
        decreases count - n,
    {
        let ghost original = pending@[0];
        proof {
            assert(original == all[n as int]);
            assert(all.skip(n as int).remove(0) =~= all.skip(n as int + 1));
            assert(all.take(n as int + 1).drop_last() =~= all.take(n as int));
            assert(all.take(n as int + 1).last() == original);
        }
        let mut share = pending.remove(0);
        let may_write = access.can_write(share.id.as_str());
        if access.can_read(share.id.as_str()) || may_write {
            share.writable = share.writable && may_write;
            visible.push(share);
        }
        n += 1;
    }
    proof {
        assert(all.take(all.len() as int) =~= all);
    }
    let mut r = RemoteFileResponse::success();
    r.shares = visible;
    r
}

/// A device sees no share that it can neither read nor write, and none as
/// writable that it may not write.
pub proof fn lemma_visible_shares(
    shares: Seq<RemoteFileShare>,
    access: crate::remote_files::AccessView,
    i: int,
)
    requires
        0 <= i < visible_shares(shares, access).len(),
    ensures
        crate::remote_files::reachable(access, visible_shares(shares, access)[i].id@),
        visible_shares(shares, access)[i].writable ==> crate::remote_files::writable(
            access,
            visible_shares(shares, access)[i].id@,
        ),
    decreases shares.len(),
{
    let rest = visible_shares(shares.drop_last(), access);
    if i < rest.len() {
        lemma_visible_shares(shares.drop_last(), access, i);
    }
}

/// True when `r` answers with a page of a directory, or why there is none.
pub open spec fn answers_page(
    r: RemoteFileResponse,
    result: Result<RemoteFileDirectoryPage, RemoteFileError>,
) -> bool {
    match result {
        Err(error) => crate::remote_files::is_failure(r, error.code, error.message@),
        Ok(page) => crate::remote_files::response_view(r) == (
        crate::remote_files::ResponseView {
            entries: page.entries@,
            next_cursor: page.next_cursor,
            ..crate::remote_files::success_view()
        }),
    }
}

/// Answers with a page of a directory.
pub fn answer_page(result: Result<RemoteFileDirectoryPage, RemoteFileError>) -> (r:
    RemoteFileResponse)
    ensures
        answers_page(r, result),
{
    match result {
        Err(error) => RemoteFileResponse::from_error(error),
        Ok(page) => {
            let mut r = RemoteFileResponse::success();
            r.entries = page.entries;
            r.next_cursor = page.next_cursor;
            r
        },
    }
}

/// True when `r` answers with a file or folder, or why there is none.
pub open spec fn answers_entry(
    r: RemoteFileResponse,
    result: Result<RemoteFileEntry, RemoteFileError>,
) -> bool {
    match result {
        Err(error) => crate::remote_files::is_failure(r, error.code, error.message@),
        Ok(entry) => crate::remote_files::response_view(r) == (
        crate::remote_files::ResponseView {
            entry: Some(entry),
            ..crate::remote_files::success_view()
        }),
    }
}

/// Answers with one file or folder.
pub fn answer_entry(result: Result<RemoteFileEntry, RemoteFileError>) -> (r: RemoteFileResponse)
    ensures
        answers_entry(r, result),
{
    match result {
        Err(error) => RemoteFileResponse::from_error(error),
        Ok(entry) => {
            let mut r = RemoteFileResponse::success();
            r.entry = Some(entry);
            r
        },
    }
}

/// True when `r` answers that something was done, or why it was not.
pub open spec fn answers_done(
    r: RemoteFileResponse,
    result: Result<(), RemoteFileError>,
) -> bool {
    match result {
        Err(error) => crate::remote_files::is_failure(r, error.code, error.message@),
        Ok(()) => crate::remote_files::response_view(r)
            == crate::remote_files::success_view(),
    }
}

/// Answers with the outcome alone.
pub fn answer_done(result: Result<(), RemoteFileError>) -> (r: RemoteFileResponse)
    ensures
        answers_done(r, result),
{
    match result {
        Err(error) => RemoteFileResponse::from_error(error),
        Ok(()) => RemoteFileResponse::success(),
    }
}

/// True when `r` answers with a file and its revision, or why there is none.
pub open spec fn answers_revision(
    r: RemoteFileResponse,
    result: Result<(RemoteFileEntry, String), RemoteFileError>,
) -> bool {
    match result {
        Err(error) => crate::remote_files::is_failure(r, error.code, error.message@),
        Ok(found) => crate::remote_files::response_view(r) == (
        crate::remote_files::ResponseView {
            entry: Some(found.0),
            revision: found.1@,
            ..crate::remote_files::success_view()
        }),
    }
}

/// Answers with one file or folder and its revision.
pub fn answer_revision(result: Result<(RemoteFileEntry, String), RemoteFileError>) -> (r:
    RemoteFileResponse)
    ensures
        answers_revision(r, result),
{
    match result {
        Err(error) => RemoteFileResponse::from_error(error),
        Ok((entry, revision)) => {
            let mut r = RemoteFileResponse::success();
            r.entry = Some(entry);
            r.revision = revision;
            r
        },
    }
}

/// True when `r` answers with a part of a file, or why there is none.
pub open spec fn answers_range(
    r: RemoteFileResponse,
    result: Result<Vec<u8>, RemoteFileError>,
    revision: String,
) -> bool {
    match result {
        Err(error) => crate::remote_files::is_failure(r, error.code, error.message@),
        Ok(bytes) => crate::remote_files::response_view(r) == (
        crate::remote_files::ResponseView {
            range_data: bytes@,
            revision: revision@,
            ..crate::remote_files::success_view()
        }),
    }
}

/// Answers with a part of a file at the revision that was asked for.
pub fn answer_range(result: Result<Vec<u8>, RemoteFileError>, revision: String) -> (r:
    RemoteFileResponse)
    ensures
        answers_range(r, result, revision),
{
    match result {
        Err(error) => RemoteFileResponse::from_error(error),
        Ok(bytes) => {
            let mut r = RemoteFileResponse::success();
            r.range_data = bytes;
            r.revision = revision;
            r
        },
    }
}

/// True when `r` lets a file be downloaded, or refuses it.
pub open spec fn checks_download(
    r: Result<RemoteFileEntry, RemoteFileResponse>,
    result: Result<RemoteFileEntry, RemoteFileError>,
) -> bool {
    match result {
        Err(error) => r is Err && crate::remote_files::is_failure(
            r->Err_0,
            error.code,
            error.message@,
        ),
        Ok(entry) => if entry.kind == RemoteFileKind::File {
            r == Ok::<RemoteFileEntry, RemoteFileResponse>(entry)
        } else {
            r is Err && crate::remote_files::is_failure(
                r->Err_0,
                RemoteFileErrorCode::FailedPrecondition,
                "only files can be downloaded"@,
            )
        },
    }
}

/// Decides whether a prepared download can go on: what is refused is answered,
/// for the rest the file is opened.
pub fn check_download(result: Result<RemoteFileEntry, RemoteFileError>) -> (r: Result<
    RemoteFileEntry,
    RemoteFileResponse,
>)
    ensures
        checks_download(r, result),
{
    match result {
        Err(error) => Err(RemoteFileResponse::from_error(error)),
        Ok(entry) => {
            if entry.kind != RemoteFileKind::File {
                Err(
                    RemoteFileResponse::failure(
                        RemoteFileErrorCode::FailedPrecondition,
                        "only files can be downloaded",
                    ),
                )
            } else {
                Ok(entry)
            }
        },
    }
}

/// Answers when a file could not be opened.
pub fn open_failed(reason: &str) -> (r: RemoteFileResponse)
    ensures
        crate::remote_files::is_failure(
            r,
            RemoteFileErrorCode::Unavailable,
            "failed to open remote file: "@ + reason@,
        ),
{
    let mut message = "failed to open remote file: ".to_owned();
    message.append(reason);
    RemoteFileResponse::failure(RemoteFileErrorCode::Unavailable, message.as_str())
}

/// Checks that as many bytes were sent as were announced.
pub fn finish_download(sent: u64, announced: u64) -> (r: Result<(), ProtocolError>)
    ensures
        if sent == announced {
            r is Ok
        } else {
            crate::error::fails_with(r, "remote file changed during download"@)
        },
{
    if sent != announced {
        return Err(other("remote file changed during download"));
    }
    Ok(())
}

/// True when `r` answers with a thumbnail, or why there is none.
pub open spec fn answers_thumbnail(
    r: (RemoteFileResponse, Option<Vec<u8>>),
    result: Result<Option<RemoteFileThumbnail>, RemoteFileError>,
) -> bool {
    match result {
        Err(error) => r.1 is None && crate::remote_files::is_failure(
            r.0,
            error.code,
            error.message@,
        ),
        Ok(None) => r.1 is None && crate::remote_files::is_failure(
            r.0,
            RemoteFileErrorCode::NotFound,
            "no thumbnail is available for this file"@,
        ),
        Ok(Some(thumbnail)) => r.1 == Some(thumbnail.bytes)
            && crate::remote_files::response_view(r.0) == (
        crate::remote_files::ResponseView {
            thumbnail_size: thumbnail.bytes@.len() as u64,
            thumbnail_media_type: Some(thumbnail.media_type),
            ..crate::remote_files::success_view()
        }),
    }
}

/// Answers with the size and type of a thumbnail, and hands over its bytes.
pub fn answer_thumbnail(result: Result<Option<RemoteFileThumbnail>, RemoteFileError>) -> (r: (
    RemoteFileResponse,
    Option<Vec<u8>>,
))
    ensures
        answers_thumbnail(r, result),
{
    match result {
        Err(error) => (RemoteFileResponse::from_error(error), None),
        Ok(None) => (
            RemoteFileResponse::failure(
                RemoteFileErrorCode::NotFound,
                "no thumbnail is available for this file",
            ),
            None,
        ),
        Ok(Some(thumbnail)) => {
            let mut r = RemoteFileResponse::success();
            r.thumbnail_size = thumbnail.bytes.len() as u64;
            r.thumbnail_media_type = Some(thumbnail.media_type);
            (r, Some(thumbnail.bytes))
        },
    }
}

/// The file that the provider commits, if it still has the revision.
#[derive(Debug, PartialEq, Eq)]
pub struct UploadCommit {
    pub share_id: String,
    pub relative_path: String,
    pub name: String,
    pub expected_revision: String,
}

/// The file that the provider commits, as a mathematical value.
pub struct CommitView {
    pub share_id: Seq<char>,
    pub relative_path: Seq<char>,
    pub name: Seq<char>,
    pub expected_revision: Seq<char>,
}

impl View for UploadCommit {
    type V = CommitView;

    open spec fn view(&self) -> CommitView {
        CommitView {
            share_id: self.share_id@,
            relative_path: self.relative_path@,
            name: self.name@,
            expected_revision: self.expected_revision@,
        }
    }
}

/// What is known of an upload before its bytes come.
#[derive(Debug, PartialEq, Eq)]
pub struct UploadPlan {
    pub size: u64,
    pub overwrite: bool,
    pub expected_modified_at_ms: Option<i64>,
    /// Present when the file is committed by the provider against a revision.
    pub commit: Option<UploadCommit>,
}

/// The next thing to do for an upload.
#[derive(Debug, PartialEq, Eq)]
pub enum UploadAction {
    /// Read one byte past the declared size.
    CheckTrailing,
    /// Write the temporary file out.
    Flush,
    /// Let the provider commit the temporary file.
    Commit(UploadCommit),
    /// Look up when the destination was last modified.
    CheckModified,
    /// Move the temporary file to the destination, replacing what is there or
    /// not.
    Publish { replace: bool },
    /// Give up.
    Fail(RemoteFileError),
}

/// The next thing to do for an upload, as a mathematical value.
pub enum ActionView {
    CheckTrailing,
    Flush,
    Commit { commit: CommitView },
    CheckModified,
    Publish { replace: bool },
    Fail { code: RemoteFileErrorCode, message: Seq<char> },
}

impl View for UploadAction {
    type V = ActionView;

    open spec fn view(&self) -> ActionView {
        match *self {
            UploadAction::CheckTrailing => ActionView::CheckTrailing,
            UploadAction::Flush => ActionView::Flush,
            UploadAction::Commit(commit) => ActionView::Commit { commit: commit@ },
            UploadAction::CheckModified => ActionView::CheckModified,
            UploadAction::Publish { replace } => ActionView::Publish { replace },
            UploadAction::Fail(error) => ActionView::Fail {
                code: error.code,
                message: error.message@,
            },
        }
    }
}

/// The plan for an upload of `size` bytes to a prepared place. With a revision
/// that is expected, the file is committed by the provider under its name.
pub fn plan_upload(
    upload: &RemoteFileUpload,
    share_id: String,
    relative_path: String,
    name: String,
    size: u64,
    expected_revision: Option<String>,
) -> (r: UploadPlan)
    ensures
        r.size == size,
        r.overwrite == upload.overwrite,
        r.expected_modified_at_ms == upload.expected_modified_at_ms,
        match expected_revision {
            Some(expected_revision) => r.commit == Some(
                UploadCommit { share_id, relative_path, name, expected_revision },
            ),
            None => r.commit is None,
        },
{
    UploadPlan {
        size,
        overwrite: upload.overwrite,
        expected_modified_at_ms: upload.expected_modified_at_ms,
        commit: match expected_revision {
            Some(expected_revision) => Some(
                UploadCommit { share_id, relative_path, name, expected_revision },
            ),
            None => None,
        },
    }
}

/// The message for an upload that ended before its declared size.
pub open spec fn ended_early(size: u64, received: u64) -> Seq<char> {
    "upload ended early: expected "@ + crate::text::decimal_digits(size as nat)
        + " bytes, received "@ + crate::text::decimal_digits(received as nat)
}

/// What follows when at most the declared number of bytes was taken in.
pub open spec fn copied(plan: UploadPlan, received: u64) -> ActionView {
    if plan.commit is Some && received == plan.size {
        ActionView::CheckTrailing
    } else {
        ActionView::Flush
    }
}

/// What follows when one byte more was asked for.
pub open spec fn trailed(trailing: usize) -> ActionView {
    if trailing == 0 {
        ActionView::Flush
    } else {
        ActionView::Fail {
            code: RemoteFileErrorCode::InvalidArgument,
            message: "upload exceeds its declared size"@,
        }
    }
}

/// What follows when the temporary file was written out.
pub open spec fn flushed(plan: UploadPlan, received: u64) -> ActionView {
    if received != plan.size {
        ActionView::Fail {
            code: RemoteFileErrorCode::Unavailable,
            message: ended_early(plan.size, received),
        }
    } else if plan.commit is Some {
        ActionView::Commit { commit: plan.commit->0@ }
    } else if plan.expected_modified_at_ms is Some {
        ActionView::CheckModified
    } else {
        ActionView::Publish { replace: plan.overwrite }
    }
}

/// What follows when the time of the last modification was looked up.
pub open spec fn looked_up(plan: UploadPlan, actual: Option<i64>) -> ActionView {
    match actual {
        None => ActionView::Fail {
            code: RemoteFileErrorCode::NotFound,
            message: "the remote file was deleted; the local edited copy was retained"@,
        },
        Some(modified) => if plan.expected_modified_at_ms matches Some(expected) && expected
            != modified {
            ActionView::Fail {
                code: RemoteFileErrorCode::Conflict,
                message:
                    "the remote file was modified elsewhere; the local edited copy was retained"@,
            }
        } else {
            ActionView::Publish { replace: plan.overwrite }
        },
    }
}

/// After at most the declared number of bytes was taken in.
pub fn after_copy(plan: &UploadPlan, received: u64) -> (r: UploadAction)
    ensures
        r@ == copied(*plan, received),
{
    if plan.commit.is_some() && received == plan.size {
        UploadAction::CheckTrailing
    } else {
        UploadAction::Flush
    }
}

/// After one byte more was asked for.
pub fn after_trailing(trailing: usize) -> (r: UploadAction)
    ensures
        r@ == trailed(trailing),
{
    if trailing != 0 {
        UploadAction::Fail(
            RemoteFileError::new(
                RemoteFileErrorCode::InvalidArgument,
                "upload exceeds its declared size",
            ),
        )
    } else {
        UploadAction::Flush
    }
}

/// After the temporary file was written out.
pub fn after_flush(plan: &UploadPlan, received: u64) -> (r: UploadAction)
    ensures
        r@ == flushed(*plan, received),
{
    if received != plan.size {
        let mut message = "upload ended early: expected ".to_owned();
        let expected = decimal_text(plan.size);
        message.append(expected.as_str());
        message.append(" bytes, received ");
        let got = decimal_text(received);
        message.append(got.as_str());
        return UploadAction::Fail(
            RemoteFileError { code: RemoteFileErrorCode::Unavailable, message },
        );
    }
    if let Some(commit) = &plan.commit {
        return UploadAction::Commit(
            UploadCommit {
                share_id: commit.share_id.clone(),
                relative_path: commit.relative_path.clone(),
                name: commit.name.clone(),
                expected_revision: commit.expected_revision.clone(),
            },
        );
    }
    if plan.expected_modified_at_ms.is_some() {
        return UploadAction::CheckModified;
    }
    UploadAction::Publish { replace: plan.overwrite }
}

/// After the time of the last modification was looked up; there is none when
/// the destination is gone.
pub fn after_modified(plan: &UploadPlan, actual: Option<i64>) -> (r: UploadAction)
    ensures
        r@ == looked_up(*plan, actual),
{
    match actual {
        None => UploadAction::Fail(
            RemoteFileError::new(
                RemoteFileErrorCode::NotFound,
                "the remote file was deleted; the local edited copy was retained",
            ),
        ),
        Some(modified) => {
            let conflict = match plan.expected_modified_at_ms {
                Some(expected) => expected != modified,
                None => false,
            };
            if conflict {
                UploadAction::Fail(
                    RemoteFileError::new(
                        RemoteFileErrorCode::Conflict,
                        "the remote file was modified elsewhere; the local edited copy was retained",
                    ),
                )
            } else {
                UploadAction::Publish { replace: plan.overwrite }
            }
        },
    }
}

/// Where an upload ends when `received` bytes came, then `trailing` more, and
/// the destination was last modified at `actual`.
pub open spec fn upload_end(
    plan: UploadPlan,
    received: u64,
    trailing: usize,
    actual: Option<i64>,
) -> ActionView {
    let checked = if copied(plan, received) is CheckTrailing {
        trailed(trailing)
    } else {
        copied(plan, received)
    };
    if checked is Flush {
        if flushed(plan, received) is CheckModified {
            looked_up(plan, actual)
        } else {
            flushed(plan, received)
        }
    } else {
        checked
    }
}

/// An upload is published or committed only when all its bytes came: a
/// conditional one with nothing after them, any other one over the file that
/// the client knew.
pub proof fn lemma_only_whole_uploads_end_well(
    plan: UploadPlan,
    received: u64,
    trailing: usize,
    actual: Option<i64>,
)
    ensures
        upload_end(plan, received, trailing, actual) is Commit || upload_end(
            plan,
            received,
            trailing,
            actual,
        ) is Publish || upload_end(plan, received, trailing, actual) is Fail,
        upload_end(plan, received, trailing, actual) !is Fail <==> {
            &&& received == plan.size
            &&& plan.commit is Some ==> trailing == 0
            &&& plan.commit is None && plan.expected_modified_at_ms is Some ==> actual
                == plan.expected_modified_at_ms
        },
        upload_end(plan, received, trailing, actual) matches ActionView::Commit { commit } ==> {
            &&& plan.commit is Some
            &&& commit == plan.commit->0@
        },
        upload_end(plan, received, trailing, actual) matches ActionView::Publish { replace }
            ==> replace == plan.overwrite && plan.commit is None,
{
}

/// True when `r` tells why a temporary file could not be made.
pub open spec fn fails_to_create(
    r: RemoteFileError,
    permission_denied: bool,
    reason: Seq<char>,
) -> bool {
    if permission_denied {
        r.code == RemoteFileErrorCode::PermissionDenied && r.message@
            == "upload failed: target directory is read-only or the current user lacks write permission"@
    } else {
        r.code == RemoteFileErrorCode::Unavailable && r.message@
            == "failed to create upload file: "@ + reason
    }
}

/// The error for a temporary file that could not be made.
pub fn create_failed(permission_denied: bool, reason: &str) -> (r: RemoteFileError)
    ensures
        fails_to_create(r, permission_denied, reason@),
{
    if permission_denied {
        RemoteFileError::new(
            RemoteFileErrorCode::PermissionDenied,
            "upload failed: target directory is read-only or the current user lacks write permission",
        )
    } else {
        let mut message = "failed to create upload file: ".to_owned();
        message.append(reason);
        RemoteFileError { code: RemoteFileErrorCode::Unavailable, message }
    }
}

/// The error for a temporary file that could not be moved to its destination.
pub fn publish_failed(already_exists: bool, reason: &str) -> (r: RemoteFileError)
    ensures
        r.code == if already_exists {
            RemoteFileErrorCode::Conflict
        } else {
            RemoteFileErrorCode::Unavailable
        },
        r.message@ == "failed to commit uploaded file: "@ + reason@,
{
    let mut message = "failed to commit uploaded file: ".to_owned();
    message.append(reason);
    RemoteFileError {
        code: if already_exists {
            RemoteFileErrorCode::Conflict
        } else {
            RemoteFileErrorCode::Unavailable
        },
        message,
    }
}

/// The steps of an upload that can fail with a text of their own.
#[derive(Debug, Clone, Copy, PartialEq, Eq, Structural)]
pub enum UploadStep {
    Copy,
    TrailingTimeout,
    TrailingRead,
    Flush,
    Synchronize,
}

/// The message for a step that failed for some reason.
pub open spec fn step_message(step: UploadStep, reason: Seq<char>) -> Seq<char> {
    match step {
        UploadStep::Copy => "upload stream failed: "@ + reason,
        UploadStep::TrailingTimeout => "upload did not finish"@,
        UploadStep::TrailingRead => reason,
        UploadStep::Flush => "failed to flush upload: "@ + reason,
        UploadStep::Synchronize => "failed to synchronize upload: "@ + reason,
    }
}

/// The error for a step that failed.
pub fn step_failed(step: UploadStep, reason: &str) -> (r: RemoteFileError)
    ensures
        r.code == RemoteFileErrorCode::Unavailable,
        r.message@ == step_message(step, reason@),
{
    let mut message = match step {
        UploadStep::Copy => "upload stream failed: ".to_owned(),
        UploadStep::TrailingTimeout => "upload did not finish".to_owned(),
        UploadStep::TrailingRead => reason.to_owned(),
        UploadStep::Flush => "failed to flush upload: ".to_owned(),
        UploadStep::Synchronize => "failed to synchronize upload: ".to_owned(),
    };
    match step {
        UploadStep::Copy | UploadStep::Flush | UploadStep::Synchronize => {
            message.append(reason);
        },
        _ => {},
    }
    RemoteFileError { code: RemoteFileErrorCode::Unavailable, message }
}

/// True when the temporary file is still there and of no use.
pub open spec fn leaves_temporary(succeeded: bool, plan: UploadPlan) -> bool {
    !succeeded || (plan.commit is None && !plan.overwrite)
}

/// Tells whether the temporary file is to be removed: after a failure, and
/// where publishing left it in place.
pub fn remove_temporary(succeeded: bool, plan: &UploadPlan) -> (r: bool)
    ensures
        r == leaves_temporary(succeeded, *plan),
{
    !succeeded || (plan.commit.is_none() && !plan.overwrite)
}

/// True when `r` answers an upload.
pub open spec fn answers_upload(
    r: RemoteFileResponse,
    result: Result<Option<(RemoteFileEntry, String)>, RemoteFileError>,
    announced: RemoteFileEntry,
) -> bool {
    match result {
        Err(error) => crate::remote_files::is_failure(r, error.code, error.message@),
        Ok(Some(committed)) => crate::remote_files::response_view(r) == (
        crate::remote_files::ResponseView {
            entry: Some(committed.0),
            revision: committed.1@,
            ..crate::remote_files::success_view()
        }),
        Ok(None) => crate::remote_files::response_view(r) == (
        crate::remote_files::ResponseView {
            entry: Some(announced),
            ..crate::remote_files::success_view()
        }),
    }
}

/// Answers an upload: with what the provider committed, or with the entry that
/// was announced.
pub fn answer_upload(
    result: Result<Option<(RemoteFileEntry, String)>, RemoteFileError>,
    announced: RemoteFileEntry,
) -> (r: RemoteFileResponse)
    ensures
        answers_upload(r, result, announced),
{
    match result {
        Err(error) => RemoteFileResponse::from_error(error),
        Ok(Some(committed)) => answer_revision(Ok(committed)),
        Ok(None) => answer_entry(Ok(announced)),
    }
}

/// What a request names: the share, the path and, where there is one, the name of
/// the file or folder in it.
pub open spec fn request_place(request: RemoteFileRequest) -> Option<(Seq<char>, Seq<char>)> {
    match request {
        RemoteFileRequest::ListShares => None,
        RemoteFileRequest::ListDirectory { share_id, relative_path, .. }
        | RemoteFileRequest::CreateDirectory { share_id, relative_path, .. }
        | RemoteFileRequest::Rename { share_id, relative_path, .. }
        | RemoteFileRequest::Delete { share_id, relative_path }
        | RemoteFileRequest::Download { share_id, relative_path }
        | RemoteFileRequest::Thumbnail { share_id, relative_path, .. }
        | RemoteFileRequest::Upload { share_id, relative_path, .. }
        | RemoteFileRequest::Stat { share_id, relative_path }
        | RemoteFileRequest::ReadRange { share_id, relative_path, .. }
        | RemoteFileRequest::Move { share_id, relative_path, .. }
        | RemoteFileRequest::ConditionalDelete { share_id, relative_path, .. }
        | RemoteFileRequest::ConditionalUpload { share_id, relative_path, .. } => Some(
            (share_id@, relative_path@),
        ),
    }
}

/// A request that reaches the provider asks for the same operation on the same
/// place with its own arguments: a move goes from the path of the request to its
/// destination, a rename gives the new name, a range is the one that was asked for.
pub proof fn lemma_requests_keep_their_arguments(
    request: RemoteFileRequest,
    provider_available: bool,
    access: crate::remote_files::AccessView,
    limits: RemoteFileLimits,
)
    requires
        start_of(request, provider_available, access, limits) is Call,
    ensures
        ({
            let call = start_of(request, provider_available, access, limits)->call;
            match request {
                RemoteFileRequest::ListShares => call is ListShares,
                RemoteFileRequest::ListDirectory {
                    share_id,
                    relative_path,
                    cursor,
                    limit,
                    search,
                    sort_key,
                    sort_direction,
                } => {
                    &&& call is ListDirectory
                    &&& call->ListDirectory_share_id@ == share_id@
                    &&& call->ListDirectory_relative_path@ == relative_path@
                    &&& call->cursor == cursor
                    &&& call->search == search
                    &&& call->sort_key == sort_key
                    &&& call->sort_direction == sort_direction
                    &&& 0 < call->limit <= MAX_REMOTE_DIRECTORY_PAGE_SIZE
                    &&& 0 < limit <= MAX_REMOTE_DIRECTORY_PAGE_SIZE ==> call->limit == limit
                },
                RemoteFileRequest::CreateDirectory { share_id, relative_path, name } => {
                    &&& call is CreateDirectory
                    &&& call->CreateDirectory_share_id@ == share_id@
                    &&& call->CreateDirectory_relative_path@ == relative_path@
                    &&& call->CreateDirectory_name@ == name@
                },
                RemoteFileRequest::Rename { share_id, relative_path, new_name } => {
                    &&& call is Rename
                    &&& call->Rename_share_id@ == share_id@
                    &&& call->Rename_relative_path@ == relative_path@
                    &&& call->new_name@ == new_name@
                },
                RemoteFileRequest::Delete { share_id, relative_path } => {
                    &&& call is Delete
                    &&& call->Delete_share_id@ == share_id@
                    &&& call->Delete_relative_path@ == relative_path@
                },
                RemoteFileRequest::Download { share_id, relative_path } => {
                    &&& call is PrepareDownload
                    &&& call->PrepareDownload_share_id@ == share_id@
                    &&& call->PrepareDownload_relative_path@ == relative_path@
                },
                RemoteFileRequest::Thumbnail { share_id, relative_path, max_dimension } => {
                    &&& call is PrepareThumbnail
                    &&& call->PrepareThumbnail_share_id@ == share_id@
                    &&& call->PrepareThumbnail_relative_path@ == relative_path@
                    &&& call->max_dimension == max_dimension
                },
                RemoteFileRequest::Stat { share_id, relative_path } => {
                    &&& call is Stat
                    &&& call->Stat_share_id@ == share_id@
                    &&& call->Stat_relative_path@ == relative_path@
                },
                RemoteFileRequest::ReadRange {
                    share_id,
                    relative_path,
                    offset,
                    length,
                    revision,
                } => {
                    &&& call is ReadRange
                    &&& call->ReadRange_share_id@ == share_id@
                    &&& call->ReadRange_relative_path@ == relative_path@
                    &&& call->offset == offset
                    &&& call->length == length
                    &&& call->revision@ == revision@
                },
                RemoteFileRequest::Move {
                    share_id,
                    relative_path,
                    destination_path,
                    overwrite,
                    expected_revision,
                } => {
                    &&& call is MoveEntry
                    &&& call->MoveEntry_share_id@ == share_id@
                    &&& call->MoveEntry_relative_path@ == relative_path@
                    &&& call->destination_path@ == destination_path@
                    &&& call->MoveEntry_overwrite == overwrite
                    &&& call->MoveEntry_expected_revision@ == expected_revision@
                },
                RemoteFileRequest::ConditionalDelete {
                    share_id,
                    relative_path,
                    expected_revision,
                    recursive,
                } => {
                    &&& call is ConditionalDelete
                    &&& call->ConditionalDelete_share_id@ == share_id@
                    &&& call->ConditionalDelete_relative_path@ == relative_path@
                    &&& call->ConditionalDelete_expected_revision@ == expected_revision@
                    &&& call->recursive == recursive
                },
                RemoteFileRequest::Upload {
                    share_id,
                    relative_path,
                    name,
                    size,
                    overwrite,
                    expected_modified_at_ms,
                } => {
                    &&& call is PrepareUpload
                    &&& call->PrepareUpload_share_id@ == share_id@
                    &&& call->PrepareUpload_relative_path@ == relative_path@
                    &&& call->PrepareUpload_name@ == name@
                    &&& call->size == size
                    &&& size <= limits.max_content_size
                    &&& call->PrepareUpload_overwrite == overwrite
                    &&& call->expected_modified_at_ms == expected_modified_at_ms
                    &&& call->PrepareUpload_expected_revision is None
                },
                RemoteFileRequest::ConditionalUpload {
                    share_id,
                    relative_path,
                    name,
                    size,
                    expected_revision,
                } => {
                    &&& call is PrepareUpload
                    &&& call->PrepareUpload_share_id@ == share_id@
                    &&& call->PrepareUpload_relative_path@ == relative_path@
                    &&& call->PrepareUpload_name@ == name@
                    &&& call->size == size
                    &&& size <= limits.max_content_size
                    &&& call->PrepareUpload_overwrite == (expected_revision@.len() > 0)
                    &&& call->expected_modified_at_ms is None
                    &&& call->PrepareUpload_expected_revision is Some
                    &&& call->PrepareUpload_expected_revision->0@ == expected_revision@
                },
            }
        }),
{
}

/// True when a request changes what a share holds.
pub open spec fn changes_files(request: RemoteFileRequest) -> bool {
    request is CreateDirectory || request is Rename || request is Delete || request is Upload
        || request is Move || request is ConditionalDelete || request is ConditionalUpload
}

/// A request that changes files reaches the provider only with a grant to write
/// the share, one that reads them only with a grant to read it; and with the grant
/// it does, unless it brings too many bytes.
pub proof fn lemma_requests_need_their_grant(
    request: RemoteFileRequest,
    access: crate::remote_files::AccessView,
    limits: RemoteFileLimits,
)
    requires
        !(request is ListShares),
    ensures
        request_place(request) is Some,
        ({
            let (share, _) = request_place(request)->0;
            let may_write = access.write_all || access.write_shares.contains(share);
            let may_read = access.read_all || access.read_shares.contains(share);
            let start = start_of(request, true, access, limits);
            &&& changes_files(request) && !may_write ==> start is Refuse && start->code
                == RemoteFileErrorCode::PermissionDenied
            &&& !changes_files(request) && !may_read ==> start is Refuse && start->code
                == RemoteFileErrorCode::PermissionDenied
            &&& !changes_files(request) && may_read ==> start is Call
            &&& changes_files(request) && may_write && !(request is Upload)
                && !(request is ConditionalUpload) ==> start is Call
            &&& request is Upload && may_write && request->Upload_size <= limits.max_content_size
                ==> start is Call
            &&& request is ConditionalUpload && may_write && request->ConditionalUpload_size
                <= limits.max_content_size ==> start is Call
        }),
        start_of(request, false, access, limits) is Refuse,
        start_of(request, false, access, limits)->code == RemoteFileErrorCode::Unavailable,
{
}

/// A device sees each share that it can read or write, once and with its own
/// name and path, in the order of the shares.
pub proof fn lemma_reachable_shares_are_shown(
    shares: Seq<RemoteFileShare>,
    access: crate::remote_files::AccessView,
    share: RemoteFileShare,
)
    ensures
        visible_shares(Seq::<RemoteFileShare>::empty(), access).len() == 0,
        ({
            let may_write = access.write_all || access.write_shares.contains(share.id@);
            let may_read = access.read_all || access.read_shares.contains(share.id@);
            let (before, after) = (
                visible_shares(shares, access),
                visible_shares(shares.push(share), access),
            );
            if may_read || may_write {
                &&& after.len() == before.len() + 1
                &&& after.take(before.len() as int) == before
                &&& after.last().id == share.id
                &&& after.last().name == share.name
                &&& after.last().writable == (share.writable && may_write)
            } else {
                after == before
            }
        }),
{
    assert(shares.push(share).drop_last() =~= shares);
    let before = visible_shares(shares, access);
    let after = visible_shares(shares.push(share), access);
    assert(after.len() > before.len() ==> after.take(before.len() as int) =~= before);
}

/// A directory is listed in pages of the size that was asked for, of a hundred
/// where none was, and of no more than two hundred.
pub proof fn lemma_page_sizes(limit: u32)
    ensures
        1 <= limit <= 200 ==> page_size(limit) == limit,
        limit == 0 ==> page_size(limit) == 100,
        limit > 200 ==> page_size(limit) == 200,
{
}

/// Why an upload fails: bytes that are missing, bytes that are too many, a file that
/// is gone or one that was changed meanwhile, each with its own code.
pub proof fn lemma_why_uploads_fail(
    plan: UploadPlan,
    received: u64,
    trailing: usize,
    actual: Option<i64>,
)
    ensures
        received != plan.size ==> {
            let end = upload_end(plan, received, trailing, actual);
            end is Fail && end->code is Unavailable
        },
        received == plan.size && plan.commit is Some && trailing > 0 ==> {
            let end = upload_end(plan, received, trailing, actual);
            end is Fail && end->code is InvalidArgument
        },
        received == plan.size && plan.commit is None && plan.expected_modified_at_ms is Some
            && actual is None ==> {
            let end = upload_end(plan, received, trailing, actual);
            end is Fail && end->code is NotFound
        },
        received == plan.size && plan.commit is None && plan.expected_modified_at_ms is Some
            && actual is Some && actual != plan.expected_modified_at_ms ==> {
            let end = upload_end(plan, received, trailing, actual);
            end is Fail && end->code is Conflict
        },
{
}

/// A failure of the provider reaches the client as what it is, whatever was asked.
pub proof fn lemma_provider_failures_reach_the_client(
    r: RemoteFileResponse,
    access: crate::remote_files::AccessView,
    shares: Result<Vec<RemoteFileShare>, RemoteFileError>,
    page: Result<RemoteFileDirectoryPage, RemoteFileError>,
    entry: Result<RemoteFileEntry, RemoteFileError>,
    done: Result<(), RemoteFileError>,
    found: Result<(RemoteFileEntry, String), RemoteFileError>,
    bytes: Result<Vec<u8>, RemoteFileError>,
    revision: String,
)
    ensures
        answers_shares(r, access, shares) && shares is Err ==> !r.ok && r.error is Some
            && r.error->0.code == shares->Err_0.code,
        answers_page(r, page) && page is Err ==> !r.ok && r.error is Some && r.error->0.code
            == page->Err_0.code,
        answers_entry(r, entry) && entry is Err ==> !r.ok && r.error is Some && r.error->0.code
            == entry->Err_0.code,
        answers_done(r, done) && done is Err ==> !r.ok && r.error is Some && r.error->0.code
            == done->Err_0.code,
        answers_revision(r, found) && found is Err ==> !r.ok && r.error is Some
            && r.error->0.code == found->Err_0.code,
        answers_range(r, bytes, revision) && bytes is Err ==> !r.ok && r.error is Some
            && r.error->0.code == bytes->Err_0.code,
{
    let v = crate::remote_files::response_view(r);
    assert(v.ok == r.ok && v.error == r.error);
}

/// What the provider returned reaches the client as it is: a page with its entries
/// and where the next one begins, a file with its revision, a part of a file with
/// its bytes.
pub proof fn lemma_results_reach_the_client(
    r: RemoteFileResponse,
    page: Result<RemoteFileDirectoryPage, RemoteFileError>,
    entry: Result<RemoteFileEntry, RemoteFileError>,
    done: Result<(), RemoteFileError>,
    found: Result<(RemoteFileEntry, String), RemoteFileError>,
    bytes: Result<Vec<u8>, RemoteFileError>,
    revision: String,
)
    ensures
        answers_page(r, page) && page is Ok ==> r.ok && r.error is None && r.entries@
            == page->Ok_0.entries@ && r.next_cursor == page->Ok_0.next_cursor
            && r.shares@.len() == 0 && r.entry is None,
        answers_entry(r, entry) && entry is Ok ==> r.ok && r.error is None && r.entry == Some(
            entry->Ok_0,
        ) && r.entries@.len() == 0,
        answers_done(r, done) && done is Ok ==> r.ok && r.error is None && r.entry is None
            && r.entries@.len() == 0,
        answers_revision(r, found) && found is Ok ==> {
            let (file, version) = found->Ok_0;
            r.ok && r.error is None && r.entry == Some(file) && r.revision@ == version@
        },
        answers_range(r, bytes, revision) && bytes is Ok ==> r.ok && r.error is None
            && r.range_data@ == bytes->Ok_0@ && r.revision@ == revision@,
{
    let v = crate::remote_files::response_view(r);
    assert(v.ok == r.ok && v.error == r.error && v.entry == r.entry);
    assert(v.shares == r.shares@ && v.entries == r.entries@);
    assert(v.revision == r.revision@ && v.range_data == r.range_data@);
}

/// Only files are downloaded, a thumbnail comes with its bytes and their number, and
/// an upload is answered with what was committed.
pub proof fn lemma_content_reaches_the_client(
    checked: Result<RemoteFileEntry, RemoteFileResponse>,
    asked: Result<RemoteFileEntry, RemoteFileError>,
    shown: (RemoteFileResponse, Option<Vec<u8>>),
    thumbnail: Result<Option<RemoteFileThumbnail>, RemoteFileError>,
    r: RemoteFileResponse,
    result: Result<Option<(RemoteFileEntry, String)>, RemoteFileError>,
    announced: RemoteFileEntry,
)
    ensures
        checks_download(checked, asked) ==> {
            &&& checked is Ok <==> asked is Ok && asked->Ok_0.kind is File
            &&& checked is Ok ==> checked->Ok_0 == asked->Ok_0
            &&& asked is Err ==> checked->Err_0.error is Some && checked->Err_0.error->0.code
                == asked->Err_0.code
        },
        answers_thumbnail(shown, thumbnail) ==> {
            let (response, bytes) = shown;
            &&& bytes is Some <==> thumbnail is Ok && thumbnail->Ok_0 is Some
            &&& bytes is Some ==> bytes->0@ == thumbnail->Ok_0->0.bytes@ && response.ok
                && response.thumbnail_media_type is Some
                && response.thumbnail_media_type->0@ == thumbnail->Ok_0->0.media_type@
            &&& thumbnail is Ok && thumbnail->Ok_0 is None ==> response.error is Some
                && response.error->0.code is NotFound
        },
        answers_upload(r, result, announced) ==> {
            &&& result is Ok && result->Ok_0 is None ==> r.ok && r.entry == Some(announced)
                && r.revision@.len() == 0
            &&& result is Ok && result->Ok_0 is Some ==> {
                let (file, version) = result->Ok_0->0;
                r.ok && r.entry == Some(file) && r.revision@ == version@
            }
            &&& result is Err ==> !r.ok && r.error is Some && r.error->0.code
                == result->Err_0.code
        },
{
    let v = crate::remote_files::response_view(r);
    assert(v.ok == r.ok && v.error == r.error && v.entry == r.entry);
    assert(v.revision == r.revision@);
    let w = crate::remote_files::response_view(shown.0);
    assert(w.ok == shown.0.ok && w.thumbnail_media_type == shown.0.thumbnail_media_type);
}

/// A temporary file is kept only if it was committed or has taken the place of the
/// destination; what stands in the way of making one is told by its own code.
pub proof fn lemma_temporary_files(
    succeeded: bool,
    plan: UploadPlan,
    r: RemoteFileError,
    permission_denied: bool,
    reason: Seq<char>,
)
    ensures
        !succeeded ==> leaves_temporary(succeeded, plan),
        succeeded && plan.commit is Some ==> !leaves_temporary(succeeded, plan),
        succeeded && plan.overwrite ==> !leaves_temporary(succeeded, plan),
        succeeded && plan.commit is None && !plan.overwrite ==> leaves_temporary(succeeded, plan),
        fails_to_create(r, permission_denied, reason) ==> {
            &&& r.code is PermissionDenied <==> permission_denied
            &&& r.code is Unavailable <==> !permission_denied
        },
{
}

/// What an upload is to do next is what it says.
pub proof fn lemma_upload_actions_are_what_they_say(action: UploadAction)
    ensures
        action is Commit <==> action@ is Commit,
        action is Publish <==> action@ is Publish,
        action is Fail <==> action@ is Fail,
        action is Publish ==> action@->replace == action->replace,
        action is Fail ==> action@->code == action->Fail_0.code,
        action is Commit ==> {
            let (told, commit) = (action@->commit, action->Commit_0);
            &&& told.share_id == commit.share_id@
            &&& told.relative_path == commit.relative_path@
            &&& told.name == commit.name@
            &&& told.expected_revision == commit.expected_revision@
        },
{
}

/// Why a step of an upload failed is told with the step.
pub proof fn lemma_failed_steps_are_told(step: UploadStep, reason: Seq<char>)
    ensures
        step is Copy ==> step_message(step, reason) == "upload stream failed: "@ + reason,
        step is TrailingTimeout ==> step_message(step, reason) == "upload did not finish"@,
        step is TrailingRead ==> step_message(step, reason) == reason,
        step is Flush ==> step_message(step, reason) == "failed to flush upload: "@ + reason,
        step is Synchronize ==> step_message(step, reason) == "failed to synchronize upload: "@
            + reason,
{
}

} // verus!
