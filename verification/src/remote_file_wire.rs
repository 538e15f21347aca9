//! Remote-file requests and responses as wire frames.
//!
//! A frame holds what the schema holds: an enumeration on the wire can be left
//! unspecified, and can carry a number that the schema does not know.

use vstd::prelude::*;

use crate::proto::copy_bytes;
use crate::remote_files::{
    RemoteFileEntry, RemoteFileError, RemoteFileErrorCode, RemoteFileKind, RemoteFileLimits,
    RemoteFileRequest, RemoteFileResponse, RemoteFileShare, RemoteFileSortDirection,
    RemoteFileSortKey,
};

verus! {

#[derive(Debug, Clone, Copy, PartialEq, Eq, Structural)]
pub enum WireSortKey {
    Unspecified,
    Name,
    Modified,
    Type,
    Size,
    Unknown,
}

#[derive(Debug, Clone, Copy, PartialEq, Eq, Structural)]
pub enum WireSortDirection {
    Unspecified,
    Ascending,
    Descending,
    Unknown,
}

#[derive(Debug, Clone, Copy, PartialEq, Eq, Structural)]
pub enum WireEntryKind {
    Unspecified,
    File,
    Folder,
    Unknown,
}

#[derive(Debug, Clone, Copy, PartialEq, Eq, Structural)]
pub enum WireErrorCode {
    Unspecified,
    InvalidArgument,
    PermissionDenied,
    NotFound,
    Conflict,
    ResourceExhausted,
    FailedPrecondition,
    Unavailable,
    Cancelled,
    Internal,
    Unknown,
}

/// The body of a request frame.
#[derive(Debug, PartialEq, Eq)]
pub enum RequestBody {
    ListShares,
    ListDirectory {
        share_id: String,
        relative_path: String,
        cursor: Option<String>,
        limit: u32,
        search: Option<String>,
        sort_key: WireSortKey,
        sort_direction: WireSortDirection,
    },
    CreateDirectory { share_id: String, relative_path: String, name: String },
    Rename { share_id: String, relative_path: String, new_name: String },
    Delete { share_id: String, relative_path: String },
    Download { share_id: String, relative_path: String },
    Thumbnail { share_id: String, relative_path: String, max_dimension: u32 },
    Upload {
        share_id: String,
        relative_path: String,
        name: String,
        size: u64,
        overwrite: bool,
        expected_modified_at_ms: Option<i64>,
    },
    Stat { share_id: String, relative_path: String },
    ReadRange { share_id: String, relative_path: String, offset: u64, length: u64, revision: String },
    Move {
        share_id: String,
        relative_path: String,
        destination_path: String,
        overwrite: bool,
        expected_revision: String,
    },
    ConditionalDelete {
        share_id: String,
        relative_path: String,
        expected_revision: String,
        recursive: bool,
    },
    ConditionalUpload {
        share_id: String,
        relative_path: String,
        name: String,
        size: u64,
        expected_revision: String,
    },
}

/// A request on the wire.
#[derive(Debug, PartialEq, Eq)]
pub struct RemoteFileRequestFrame {
    pub body: Option<RequestBody>,
}

/// A file or folder on the wire.
#[derive(Debug, PartialEq, Eq)]
pub struct EntryInfo {
    pub name: String,
    pub relative_path: String,
    pub kind: WireEntryKind,
    pub size: u64,
    pub modified_at_ms: i64,
}

/// A response on the wire.
#[derive(Debug, PartialEq, Eq)]
pub struct RemoteFileResponseFrame {
    pub ok: bool,
    pub error: Option<String>,
    pub error_code: Option<WireErrorCode>,
    pub shares: Vec<RemoteFileShare>,
    pub entries: Vec<EntryInfo>,
    pub next_cursor: Option<String>,
    pub entry: Option<EntryInfo>,
    pub thumbnail_size: u64,
    pub thumbnail_media_type: Option<String>,
    pub revision: String,
    pub range_data: Vec<u8>,
}

pub open spec fn sort_key_out(key: RemoteFileSortKey) -> WireSortKey {
    match key {
        RemoteFileSortKey::Name => WireSortKey::Name,
        RemoteFileSortKey::Modified => WireSortKey::Modified,
        RemoteFileSortKey::Type => WireSortKey::Type,
        RemoteFileSortKey::Size => WireSortKey::Size,
    }
}

/// The sort key that a frame asks for; one that asks for none gets names.
pub open spec fn sort_key_in(key: WireSortKey) -> Option<RemoteFileSortKey> {
    match key {
        WireSortKey::Unspecified | WireSortKey::Name => Some(RemoteFileSortKey::Name),
        WireSortKey::Modified => Some(RemoteFileSortKey::Modified),
        WireSortKey::Type => Some(RemoteFileSortKey::Type),
        WireSortKey::Size => Some(RemoteFileSortKey::Size),
        WireSortKey::Unknown => None,
    }
}

pub open spec fn sort_direction_out(direction: RemoteFileSortDirection) -> WireSortDirection {
    match direction {
        RemoteFileSortDirection::Ascending => WireSortDirection::Ascending,
        RemoteFileSortDirection::Descending => WireSortDirection::Descending,
    }
}

/// The direction that a frame asks for; one that asks for none ascends.
pub open spec fn sort_direction_in(direction: WireSortDirection) -> Option<
    RemoteFileSortDirection,
> {
    match direction {
        WireSortDirection::Unspecified | WireSortDirection::Ascending => Some(
            RemoteFileSortDirection::Ascending,
        ),
        WireSortDirection::Descending => Some(RemoteFileSortDirection::Descending),
        WireSortDirection::Unknown => None,
    }
}

pub open spec fn error_code_out(code: RemoteFileErrorCode) -> WireErrorCode {
    match code {
        RemoteFileErrorCode::InvalidArgument => WireErrorCode::InvalidArgument,
        RemoteFileErrorCode::PermissionDenied => WireErrorCode::PermissionDenied,
        RemoteFileErrorCode::NotFound => WireErrorCode::NotFound,
        RemoteFileErrorCode::Conflict => WireErrorCode::Conflict,
        RemoteFileErrorCode::ResourceExhausted => WireErrorCode::ResourceExhausted,
        RemoteFileErrorCode::FailedPrecondition => WireErrorCode::FailedPrecondition,
        RemoteFileErrorCode::Unavailable => WireErrorCode::Unavailable,
        RemoteFileErrorCode::Cancelled => WireErrorCode::Cancelled,
        RemoteFileErrorCode::Internal => WireErrorCode::Internal,
    }
}

pub open spec fn error_code_in(code: WireErrorCode) -> Option<RemoteFileErrorCode> {
    match code {
        WireErrorCode::InvalidArgument => Some(RemoteFileErrorCode::InvalidArgument),
        WireErrorCode::PermissionDenied => Some(RemoteFileErrorCode::PermissionDenied),
        WireErrorCode::NotFound => Some(RemoteFileErrorCode::NotFound),
        WireErrorCode::Conflict => Some(RemoteFileErrorCode::Conflict),
        WireErrorCode::ResourceExhausted => Some(RemoteFileErrorCode::ResourceExhausted),
        WireErrorCode::FailedPrecondition => Some(RemoteFileErrorCode::FailedPrecondition),
        WireErrorCode::Unavailable => Some(RemoteFileErrorCode::Unavailable),
        WireErrorCode::Cancelled => Some(RemoteFileErrorCode::Cancelled),
        WireErrorCode::Internal => Some(RemoteFileErrorCode::Internal),
        WireErrorCode::Unspecified | WireErrorCode::Unknown => None,
    }
}

pub open spec fn entry_out(entry: RemoteFileEntry) -> EntryInfo {
    EntryInfo {
        name: entry.name,
        relative_path: entry.relative_path,
        kind: match entry.kind {
            RemoteFileKind::File => WireEntryKind::File,
            RemoteFileKind::Folder => WireEntryKind::Folder,
        },
        size: entry.size,
        modified_at_ms: entry.modified_at_ms,
    }
}

pub open spec fn entry_in(entry: EntryInfo) -> Option<RemoteFileEntry> {
    match entry.kind {
        WireEntryKind::File => Some(
            RemoteFileEntry {
                name: entry.name,
                relative_path: entry.relative_path,
                kind: RemoteFileKind::File,
                size: entry.size,
                modified_at_ms: entry.modified_at_ms,
            },
        ),
        WireEntryKind::Folder => Some(
            RemoteFileEntry {
                name: entry.name,
                relative_path: entry.relative_path,
                kind: RemoteFileKind::Folder,
                size: entry.size,
                modified_at_ms: entry.modified_at_ms,
            },
        ),
        WireEntryKind::Unspecified | WireEntryKind::Unknown => None,
    }
}

/// A request as the body of a frame.
pub open spec fn body_out(request: RemoteFileRequest) -> RequestBody {
    match request {
        RemoteFileRequest::ListShares => RequestBody::ListShares,
        RemoteFileRequest::ListDirectory {
            share_id,
            relative_path,
            cursor,
            limit,
            search,
            sort_key,
            sort_direction,
        } => RequestBody::ListDirectory {
            share_id,
            relative_path,
            cursor,
            limit,
            search,
            sort_key: sort_key_out(sort_key),
            sort_direction: sort_direction_out(sort_direction),
        },
        RemoteFileRequest::CreateDirectory { share_id, relative_path, name } => {
            RequestBody::CreateDirectory { share_id, relative_path, name }
        },
        RemoteFileRequest::Rename { share_id, relative_path, new_name } => RequestBody::Rename {
            share_id,
            relative_path,
            new_name,
        },
        RemoteFileRequest::Delete { share_id, relative_path } => RequestBody::Delete {
            share_id,
            relative_path,
        },
        RemoteFileRequest::Download { share_id, relative_path } => RequestBody::Download {
            share_id,
            relative_path,
        },
        RemoteFileRequest::Thumbnail { share_id, relative_path, max_dimension } => {
            RequestBody::Thumbnail { share_id, relative_path, max_dimension }
        },
        RemoteFileRequest::Upload {
            share_id,
            relative_path,
            name,
            size,
            overwrite,
            expected_modified_at_ms,
        } => RequestBody::Upload {
            share_id,
            relative_path,
            name,
            size,
            overwrite,
            expected_modified_at_ms,
        },
        RemoteFileRequest::Stat { share_id, relative_path } => RequestBody::Stat {
            share_id,
            relative_path,
        },
        RemoteFileRequest::ReadRange { share_id, relative_path, offset, length, revision } => {
            RequestBody::ReadRange { share_id, relative_path, offset, length, revision }
        },
        RemoteFileRequest::Move {
            share_id,
            relative_path,
            destination_path,
            overwrite,
            expected_revision,
        } => RequestBody::Move {
            share_id,
            relative_path,
            destination_path,
            overwrite,
            expected_revision,
        },
        RemoteFileRequest::ConditionalDelete {
            share_id,
            relative_path,
            expected_revision,
            recursive,
        } => RequestBody::ConditionalDelete {
            share_id,
            relative_path,
            expected_revision,
            recursive,
        },
        RemoteFileRequest::ConditionalUpload {
            share_id,
            relative_path,
            name,
            size,
            expected_revision,
        } => RequestBody::ConditionalUpload {
            share_id,
            relative_path,
            name,
            size,
            expected_revision,
        },
    }
}

/// The request that the body of a frame holds, before its fields are checked.
pub open spec fn body_in(body: RequestBody) -> Result<RemoteFileRequest, Seq<char>> {
    match body {
        RequestBody::ListShares => Ok(RemoteFileRequest::ListShares),
        RequestBody::ListDirectory {
            share_id,
            relative_path,
            cursor,
            limit,
            search,
            sort_key,
            sort_direction,
        } => match (sort_key_in(sort_key), sort_direction_in(sort_direction)) {
            (None, _) => Err("invalid remote file sort key"@),
            (_, None) => Err("invalid remote file sort direction"@),
            (Some(key), Some(direction)) => Ok(
                RemoteFileRequest::ListDirectory {
                    share_id,
                    relative_path,
                    cursor,
                    limit,
                    search,
                    sort_key: key,
                    sort_direction: direction,
                },
            ),
        },
        RequestBody::CreateDirectory { share_id, relative_path, name } => Ok(
            RemoteFileRequest::CreateDirectory { share_id, relative_path, name },
        ),
        RequestBody::Rename { share_id, relative_path, new_name } => Ok(
            RemoteFileRequest::Rename { share_id, relative_path, new_name },
        ),
        RequestBody::Delete { share_id, relative_path } => Ok(
            RemoteFileRequest::Delete { share_id, relative_path },
        ),
        RequestBody::Download { share_id, relative_path } => Ok(
            RemoteFileRequest::Download { share_id, relative_path },
        ),
        RequestBody::Thumbnail { share_id, relative_path, max_dimension } => Ok(
            RemoteFileRequest::Thumbnail { share_id, relative_path, max_dimension },
        ),
        RequestBody::Upload {
            share_id,
            relative_path,
            name,
            size,
            overwrite,
            expected_modified_at_ms,
        } => Ok(
            RemoteFileRequest::Upload {
                share_id,
                relative_path,
                name,
                size,
                overwrite,
                expected_modified_at_ms,
            },
        ),
        RequestBody::Stat { share_id, relative_path } => Ok(
            RemoteFileRequest::Stat { share_id, relative_path },
        ),
        RequestBody::ReadRange { share_id, relative_path, offset, length, revision } => Ok(
            RemoteFileRequest::ReadRange { share_id, relative_path, offset, length, revision },
        ),
        RequestBody::Move {
            share_id,
            relative_path,
            destination_path,
            overwrite,
            expected_revision,
        } => Ok(
            RemoteFileRequest::Move {
                share_id,
                relative_path,
                destination_path,
                overwrite,
                expected_revision,
            },
        ),
        RequestBody::ConditionalDelete {
            share_id,
            relative_path,
            expected_revision,
            recursive,
        } => Ok(
            RemoteFileRequest::ConditionalDelete {
                share_id,
                relative_path,
                expected_revision,
                recursive,
            },
        ),
        RequestBody::ConditionalUpload {
            share_id,
            relative_path,
            name,
            size,
            expected_revision,
        } => Ok(
            RemoteFileRequest::ConditionalUpload {
                share_id,
                relative_path,
                name,
                size,
                expected_revision,
            },
        ),
    }
}

/// What a request frame holds, or why it is refused.
pub open spec fn request_in(frame: RemoteFileRequestFrame) -> Result<RemoteFileRequest, Seq<char>> {
    match frame.body {
        None => Err("remote file request body is missing"@),
        Some(body) => match body_in(body) {
            Err(message) => Err(message),
            Ok(request) => match crate::remote_files::request_fault(request) {
                Some(message) => Err(message),
                None => Ok(request),
            },
        },
    }
}

/// True when an outcome is the expected one, errors compared by their texts.
pub open spec fn outcome_is<T>(r: Result<T, String>, expected: Result<T, Seq<char>>) -> bool {
    match expected {
        Ok(value) => r == Ok::<T, String>(value),
        Err(message) => r is Err && r->Err_0@ == message,
    }
}

fn copy_option(text: &Option<String>) -> (r: Option<String>)
    ensures
        r == *text,
{
    match text {
        Some(value) => Some(value.clone()),
        None => None,
    }
}

fn encode_sort_key(key: RemoteFileSortKey) -> (r: WireSortKey)
    ensures
        r == sort_key_out(key),
{
    match key {
        RemoteFileSortKey::Name => WireSortKey::Name,
        RemoteFileSortKey::Modified => WireSortKey::Modified,
        RemoteFileSortKey::Type => WireSortKey::Type,
        RemoteFileSortKey::Size => WireSortKey::Size,
    }
}

fn decode_sort_key(key: WireSortKey) -> (r: Result<RemoteFileSortKey, String>)
    ensures
        match sort_key_in(key) {
            Some(sort_key) => r == Ok::<_, String>(sort_key),
            None => r is Err && r->Err_0@ == "invalid remote file sort key"@,
        },
{
    match key {
        WireSortKey::Unspecified | WireSortKey::Name => Ok(RemoteFileSortKey::Name),
        WireSortKey::Modified => Ok(RemoteFileSortKey::Modified),
        WireSortKey::Type => Ok(RemoteFileSortKey::Type),
        WireSortKey::Size => Ok(RemoteFileSortKey::Size),
        WireSortKey::Unknown => Err("invalid remote file sort key".to_owned()),
    }
}

fn encode_sort_direction(direction: RemoteFileSortDirection) -> (r: WireSortDirection)
    ensures
        r == sort_direction_out(direction),
{
    match direction {
        RemoteFileSortDirection::Ascending => WireSortDirection::Ascending,
        RemoteFileSortDirection::Descending => WireSortDirection::Descending,
    }
}

fn decode_sort_direction(direction: WireSortDirection) -> (r: Result<
    RemoteFileSortDirection,
    String,
>)
    ensures
        match sort_direction_in(direction) {
            Some(sort_direction) => r == Ok::<_, String>(sort_direction),
            None => r is Err && r->Err_0@ == "invalid remote file sort direction"@,
        },
{
    match direction {
        WireSortDirection::Unspecified | WireSortDirection::Ascending => Ok(
            RemoteFileSortDirection::Ascending,
        ),
        WireSortDirection::Descending => Ok(RemoteFileSortDirection::Descending),
        WireSortDirection::Unknown => Err("invalid remote file sort direction".to_owned()),
    }
}

fn encode_error_code(code: RemoteFileErrorCode) -> (r: WireErrorCode)
    ensures
        r == error_code_out(code),
{
    match code {
        RemoteFileErrorCode::InvalidArgument => WireErrorCode::InvalidArgument,
        RemoteFileErrorCode::PermissionDenied => WireErrorCode::PermissionDenied,
        RemoteFileErrorCode::NotFound => WireErrorCode::NotFound,
        RemoteFileErrorCode::Conflict => WireErrorCode::Conflict,
        RemoteFileErrorCode::ResourceExhausted => WireErrorCode::ResourceExhausted,
        RemoteFileErrorCode::FailedPrecondition => WireErrorCode::FailedPrecondition,
        RemoteFileErrorCode::Unavailable => WireErrorCode::Unavailable,
        RemoteFileErrorCode::Cancelled => WireErrorCode::Cancelled,
        RemoteFileErrorCode::Internal => WireErrorCode::Internal,
    }
}

fn decode_error_code(code: WireErrorCode) -> (r: Result<RemoteFileErrorCode, String>)
    ensures
        match error_code_in(code) {
            Some(known) => r == Ok::<_, String>(known),
            None => r is Err && r->Err_0@ == "invalid remote file error code"@,
        },
{
    match code {
        WireErrorCode::InvalidArgument => Ok(RemoteFileErrorCode::InvalidArgument),
        WireErrorCode::PermissionDenied => Ok(RemoteFileErrorCode::PermissionDenied),
        WireErrorCode::NotFound => Ok(RemoteFileErrorCode::NotFound),
        WireErrorCode::Conflict => Ok(RemoteFileErrorCode::Conflict),
        WireErrorCode::ResourceExhausted => Ok(RemoteFileErrorCode::ResourceExhausted),
        WireErrorCode::FailedPrecondition => Ok(RemoteFileErrorCode::FailedPrecondition),
        WireErrorCode::Unavailable => Ok(RemoteFileErrorCode::Unavailable),
        WireErrorCode::Cancelled => Ok(RemoteFileErrorCode::Cancelled),
        WireErrorCode::Internal => Ok(RemoteFileErrorCode::Internal),
        WireErrorCode::Unspecified | WireErrorCode::Unknown => Err(
            "invalid remote file error code".to_owned(),
        ),
    }
}

fn encode_entry(entry: &RemoteFileEntry) -> (r: EntryInfo)
    ensures
        r == entry_out(*entry),
{
    EntryInfo {
        name: entry.name.clone(),
        relative_path: entry.relative_path.clone(),
        kind: match entry.kind {
            RemoteFileKind::File => WireEntryKind::File,
            RemoteFileKind::Folder => WireEntryKind::Folder,
        },
        size: entry.size,
        modified_at_ms: entry.modified_at_ms,
    }
}

fn decode_entry(entry: &EntryInfo) -> (r: Result<RemoteFileEntry, String>)
    ensures
        match entry_in(*entry) {
            Some(known) => r == Ok::<_, String>(known),
            None => r is Err && r->Err_0@ == "invalid remote file entry kind"@,
        },
{
    let kind = match entry.kind {
        WireEntryKind::File => RemoteFileKind::File,
        WireEntryKind::Folder => RemoteFileKind::Folder,
        _ => {
            return Err("invalid remote file entry kind".to_owned());
        },
    };
    Ok(
        RemoteFileEntry {
            name: entry.name.clone(),
            relative_path: entry.relative_path.clone(),
            kind,
            size: entry.size,
            modified_at_ms: entry.modified_at_ms,
        },
    )
}

fn decode_entries(list: &Vec<EntryInfo>) -> (r: Result<Vec<RemoteFileEntry>, String>)
    ensures
        if forall|i: int| 0 <= i < list@.len() ==> entry_in(#[trigger] list@[i]) is Some {
            r is Ok && r->Ok_0@ == list@.map_values(|e: EntryInfo| entry_in(e)->0)
        } else {
            r is Err && r->Err_0@ == "invalid remote file entry kind"@
        },
{
    let ghost all = list@.map_values(|e: EntryInfo| entry_in(e)->0);
    let mut entries: Vec<RemoteFileEntry> = Vec::new();
    let mut i: usize = 0;
    while i < list.len()
        invariant
            i <= list@.len(),
            all == list@.map_values(|e: EntryInfo| entry_in(e)->0),
            entries@ == all.take(i as int),
            forall|j: int| 0 <= j < i ==> entry_in(#[trigger] list@[j]) is Some,
        decreases list@.len() - i,
    {
        match decode_entry(&list[i]) {
            Err(message) => {
                assert(entry_in(list@[i as int]) is None);
                return Err(message);
            },
            Ok(entry) => {
                entries.push(entry);
            },
        }
        proof {
            assert(all.take(i as int + 1) =~= all.take(i as int).push(all[i as int]));
        }
        i += 1;
    }
    assert(all.take(all.len() as int) =~= all);
    Ok(entries)
}

fn encode_share(share: &RemoteFileShare) -> (r: RemoteFileShare)
    ensures
        r == *share,
{
    RemoteFileShare { id: share.id.clone(), name: share.name.clone(), writable: share.writable }
}

impl RemoteFileRequest {
    /// The frame of a valid request.
    pub fn encode_wire(&self) -> (r: Result<RemoteFileRequestFrame, String>)
        ensures
            match crate::remote_files::request_fault(*self) {
                Some(message) => r is Err && r->Err_0@ == message,
                None => r == Ok::<_, String>(RemoteFileRequestFrame { body: Some(body_out(*self)) }),
            },
    {
        match self.validate() {
            Err(message) => {
                return Err(message);
            },
            Ok(()) => {},
        }
        let body = match self {
            RemoteFileRequest::ListShares => RequestBody::ListShares,
            RemoteFileRequest::ListDirectory {
                share_id,
                relative_path,
                cursor,
                limit,
                search,
                sort_key,
                sort_direction,
            } => RequestBody::ListDirectory {
                share_id: share_id.clone(),
                relative_path: relative_path.clone(),
                cursor: copy_option(cursor),
                limit: *limit,
                search: copy_option(search),
                sort_key: encode_sort_key(*sort_key),
                sort_direction: encode_sort_direction(*sort_direction),
            },
            RemoteFileRequest::CreateDirectory { share_id, relative_path, name } => {
                RequestBody::CreateDirectory {
                    share_id: share_id.clone(),
                    relative_path: relative_path.clone(),
                    name: name.clone(),
                }
            },
            RemoteFileRequest::Rename { share_id, relative_path, new_name } => {
                RequestBody::Rename {
                    share_id: share_id.clone(),
                    relative_path: relative_path.clone(),
                    new_name: new_name.clone(),
                }
            },
            RemoteFileRequest::Delete { share_id, relative_path } => RequestBody::Delete {
                share_id: share_id.clone(),
                relative_path: relative_path.clone(),
            },
            RemoteFileRequest::Download { share_id, relative_path } => RequestBody::Download {
                share_id: share_id.clone(),
                relative_path: relative_path.clone(),
            },
            RemoteFileRequest::Thumbnail { share_id, relative_path, max_dimension } => {
                RequestBody::Thumbnail {
                    share_id: share_id.clone(),
                    relative_path: relative_path.clone(),
                    max_dimension: *max_dimension,
                }
            },
            RemoteFileRequest::Upload {
                share_id,
                relative_path,
                name,
                size,
                overwrite,
                expected_modified_at_ms,
            } => RequestBody::Upload {
                share_id: share_id.clone(),
                relative_path: relative_path.clone(),
                name: name.clone(),
                size: *size,
                overwrite: *overwrite,
                expected_modified_at_ms: *expected_modified_at_ms,
            },
            RemoteFileRequest::Stat { share_id, relative_path } => RequestBody::Stat {
                share_id: share_id.clone(),
                relative_path: relative_path.clone(),
            },
            RemoteFileRequest::ReadRange { share_id, relative_path, offset, length, revision } => {
                RequestBody::ReadRange {
                    share_id: share_id.clone(),
                    relative_path: relative_path.clone(),
                    offset: *offset,
                    length: *length,
                    revision: revision.clone(),
                }
            },
            RemoteFileRequest::Move {
                share_id,
                relative_path,
                destination_path,
                overwrite,
                expected_revision,
            } => RequestBody::Move {
                share_id: share_id.clone(),
                relative_path: relative_path.clone(),
                destination_path: destination_path.clone(),
                overwrite: *overwrite,
                expected_revision: expected_revision.clone(),
            },
            RemoteFileRequest::ConditionalDelete {
                share_id,
                relative_path,
                expected_revision,
                recursive,
            } => RequestBody::ConditionalDelete {
                share_id: share_id.clone(),
                relative_path: relative_path.clone(),
                expected_revision: expected_revision.clone(),
                recursive: *recursive,
            },
            RemoteFileRequest::ConditionalUpload {
                share_id,
                relative_path,
                name,
                size,
                expected_revision,
            } => RequestBody::ConditionalUpload {
                share_id: share_id.clone(),
                relative_path: relative_path.clone(),
                name: name.clone(),
                size: *size,
                expected_revision: expected_revision.clone(),
            },
        };
        Ok(RemoteFileRequestFrame { body: Some(body) })
    }

    /// The request that a frame holds, if it is a valid one.
    pub fn decode_wire(frame: RemoteFileRequestFrame) -> (r: Result<RemoteFileRequest, String>)
        ensures
            outcome_is(r, request_in(frame)),
    {
        let body = match frame.body {
            None => {
                return Err("remote file request body is missing".to_owned());
            },
            Some(body) => body,
        };
        let request = match body {
            RequestBody::ListShares => RemoteFileRequest::ListShares,
            RequestBody::ListDirectory {
                share_id,
                relative_path,
                cursor,
                limit,
                search,
                sort_key,
                sort_direction,
            } => {
                let key = match decode_sort_key(sort_key) {
                    Ok(key) => key,
                    Err(message) => {
                        return Err(message);
                    },
                };
                let direction = match decode_sort_direction(sort_direction) {
                    Ok(direction) => direction,
                    Err(message) => {
                        return Err(message);
                    },
                };
                RemoteFileRequest::ListDirectory {
                    share_id,
                    relative_path,
                    cursor,
                    limit,
                    search,
                    sort_key: key,
                    sort_direction: direction,
                }
            },
            RequestBody::CreateDirectory { share_id, relative_path, name } => {
                RemoteFileRequest::CreateDirectory { share_id, relative_path, name }
            },
            RequestBody::Rename { share_id, relative_path, new_name } => RemoteFileRequest::Rename {
                share_id,
                relative_path,
                new_name,
            },
            RequestBody::Delete { share_id, relative_path } => RemoteFileRequest::Delete {
                share_id,
                relative_path,
            },
            RequestBody::Download { share_id, relative_path } => RemoteFileRequest::Download {
                share_id,
                relative_path,
            },
            RequestBody::Thumbnail { share_id, relative_path, max_dimension } => {
                RemoteFileRequest::Thumbnail { share_id, relative_path, max_dimension }
            },
            RequestBody::Upload {
                share_id,
                relative_path,
                name,
                size,
                overwrite,
                expected_modified_at_ms,
            } => RemoteFileRequest::Upload {
                share_id,
                relative_path,
                name,
                size,
                overwrite,
                expected_modified_at_ms,
            },
            RequestBody::Stat { share_id, relative_path } => RemoteFileRequest::Stat {
                share_id,
                relative_path,
            },
            RequestBody::ReadRange { share_id, relative_path, offset, length, revision } => {
                RemoteFileRequest::ReadRange { share_id, relative_path, offset, length, revision }
            },
            RequestBody::Move {
                share_id,
                relative_path,
                destination_path,
                overwrite,
                expected_revision,
            } => RemoteFileRequest::Move {
                share_id,
                relative_path,
                destination_path,
                overwrite,
                expected_revision,
            },
            RequestBody::ConditionalDelete {
                share_id,
                relative_path,
                expected_revision,
                recursive,
            } => RemoteFileRequest::ConditionalDelete {
                share_id,
                relative_path,
                expected_revision,
                recursive,
            },
            RequestBody::ConditionalUpload {
                share_id,
                relative_path,
                name,
                size,
                expected_revision,
            } => RemoteFileRequest::ConditionalUpload {
                share_id,
                relative_path,
                name,
                size,
                expected_revision,
            },
        };
        match request.validate() {
            Err(message) => Err(message),
            Ok(()) => Ok(request),
        }
    }
}

/// What the frame of a valid request holds is the request.
pub proof fn lemma_request_round_trip(request: RemoteFileRequest)
    requires
        crate::remote_files::request_fault(request) is None,
    ensures
        request_in(RemoteFileRequestFrame { body: Some(body_out(request)) }) == Ok::<_, Seq<char>>(
            request,
        ),
{
}

/// A [`RemoteFileResponseFrame`] as a mathematical value.
#[verifier::ext_equal]
pub struct ResponseFrameView {
    pub ok: bool,
    pub error: Option<String>,
    pub error_code: Option<WireErrorCode>,
    pub shares: Seq<RemoteFileShare>,
    pub entries: Seq<EntryInfo>,
    pub next_cursor: Option<String>,
    pub entry: Option<EntryInfo>,
    pub thumbnail_size: u64,
    pub thumbnail_media_type: Option<String>,
    pub revision: Seq<char>,
    pub range_data: Seq<u8>,
}

pub open spec fn frame_view(f: RemoteFileResponseFrame) -> ResponseFrameView {
    ResponseFrameView {
        ok: f.ok,
        error: f.error,
        error_code: f.error_code,
        shares: f.shares@,
        entries: f.entries@,
        next_cursor: f.next_cursor,
        entry: f.entry,
        thumbnail_size: f.thumbnail_size,
        thumbnail_media_type: f.thumbnail_media_type,
        revision: f.revision@,
        range_data: f.range_data@,
    }
}

/// A response as a frame.
pub open spec fn response_out(r: crate::remote_files::ResponseView) -> ResponseFrameView {
    ResponseFrameView {
        ok: r.ok,
        error: match r.error {
            Some(error) => Some(error.message),
            None => None,
        },
        error_code: match r.error {
            Some(error) => Some(error_code_out(error.code)),
            None => None,
        },
        shares: r.shares,
        entries: r.entries.map_values(|e: RemoteFileEntry| entry_out(e)),
        next_cursor: r.next_cursor,
        entry: match r.entry {
            Some(entry) => Some(entry_out(entry)),
            None => None,
        },
        thumbnail_size: r.thumbnail_size,
        thumbnail_media_type: r.thumbnail_media_type,
        revision: r.revision,
        range_data: r.range_data,
    }
}

/// The error that a frame holds: a code and a message, or neither.
pub open spec fn error_in(f: ResponseFrameView) -> Result<Option<RemoteFileError>, Seq<char>> {
    match (f.error_code, f.error) {
        (Some(code), Some(message)) => match error_code_in(code) {
            Some(known) => Ok(Some(RemoteFileError { code: known, message })),
            None => Err("invalid remote file error code"@),
        },
        (None, None) => Ok(None),
        _ => Err("remote file response error code and message must appear together"@),
    }
}

/// True when every entry is a file or a folder.
pub open spec fn entries_known(f: ResponseFrameView) -> bool {
    &&& forall|i: int| 0 <= i < f.entries.len() ==> entry_in(#[trigger] f.entries[i]) is Some
    &&& f.entry matches Some(entry) ==> entry_in(entry) is Some
}

/// The response that a frame holds, before its fields are checked.
pub open spec fn response_in(f: ResponseFrameView) -> Result<crate::remote_files::ResponseView, Seq<char>> {
    match error_in(f) {
        Err(message) => Err(message),
        Ok(error) => if !entries_known(f) {
            Err("invalid remote file entry kind"@)
        } else {
            Ok(
                crate::remote_files::ResponseView {
                    ok: f.ok,
                    error,
                    shares: f.shares,
                    entries: f.entries.map_values(|e: EntryInfo| entry_in(e)->0),
                    next_cursor: f.next_cursor,
                    entry: match f.entry {
                        Some(entry) => entry_in(entry),
                        None => None,
                    },
                    thumbnail_size: f.thumbnail_size,
                    thumbnail_media_type: f.thumbnail_media_type,
                    revision: f.revision,
                    range_data: f.range_data,
                },
            )
        },
    }
}

impl RemoteFileResponse {
    /// The frame of a valid response.
    pub fn encode_wire(&self, limits: &RemoteFileLimits) -> (r: Result<
        RemoteFileResponseFrame,
        String,
    >)
        ensures
            match crate::remote_files::response_fault(
                crate::remote_files::response_view(*self),
                *limits,
            ) {
                Some(message) => r is Err && r->Err_0@ == message,
                None => r is Ok && frame_view(r->Ok_0) == response_out(crate::remote_files::response_view(*self)),
            },
    {
        match self.validate(limits) {
            Err(message) => {
                return Err(message);
            },
            Ok(()) => {},
        }
        let mut shares: Vec<RemoteFileShare> = Vec::new();
        let mut i: usize = 0;
        while i < self.shares.len()
            invariant
                i <= self.shares@.len(),
                shares@ == self.shares@.take(i as int),
            decreases self.shares@.len() - i,
        {
            shares.push(encode_share(&self.shares[i]));
            proof {
                assert(self.shares@.take(i as int + 1) =~= self.shares@.take(i as int).push(
                    self.shares@[i as int],
                ));
            }
            i += 1;
        }
        let ghost all = self.entries@.map_values(|e: RemoteFileEntry| entry_out(e));
        let mut entries: Vec<EntryInfo> = Vec::new();
        let mut k: usize = 0;
        while k < self.entries.len()
            invariant
                k <= self.entries@.len(),
                all == self.entries@.map_values(|e: RemoteFileEntry| entry_out(e)),
                entries@ == all.take(k as int),
            decreases self.entries@.len() - k,
        {
            entries.push(encode_entry(&self.entries[k]));
            proof {
                assert(all.take(k as int + 1) =~= all.take(k as int).push(all[k as int]));
            }
            k += 1;
        }
        proof {
            assert(self.shares@.take(self.shares@.len() as int) =~= self.shares@);
            assert(all.take(all.len() as int) =~= all);
        }
        let frame = RemoteFileResponseFrame {
            ok: self.ok,
            error: match &self.error {
                Some(error) => Some(error.message.clone()),
                None => None,
            },
            error_code: match &self.error {
                Some(error) => Some(encode_error_code(error.code)),
                None => None,
            },
            shares,
            entries,
            next_cursor: copy_option(&self.next_cursor),
            entry: match &self.entry {
                Some(entry) => Some(encode_entry(entry)),
                None => None,
            },
            thumbnail_size: self.thumbnail_size,
            thumbnail_media_type: copy_option(&self.thumbnail_media_type),
            revision: self.revision.clone(),
            range_data: copy_bytes(&self.range_data),
        };
        proof {
            assert(frame_view(frame) =~= response_out(crate::remote_files::response_view(*self)));
        }
        Ok(frame)
    }

    /// The response that a frame holds, if it is a valid one.
    pub fn decode_wire(frame: RemoteFileResponseFrame, limits: &RemoteFileLimits) -> (r: Result<
        RemoteFileResponse,
        String,
    >)
        ensures
            match response_in(frame_view(frame)) {
                Err(message) => r is Err && r->Err_0@ == message,
                Ok(view) => match crate::remote_files::response_fault(view, *limits) {
                    Some(message) => r is Err && r->Err_0@ == message,
                    None => r is Ok && crate::remote_files::response_view(r->Ok_0) == view,
                },
            },
    {
        let ghost f = frame_view(frame);
        let error = match (frame.error_code, frame.error) {
            (Some(code), Some(message)) => match decode_error_code(code) {
                Err(message) => {
                    return Err(message);
                },
                Ok(known) => Some(RemoteFileError { code: known, message }),
            },
            (None, None) => None,
            _ => {
                return Err(
                    "remote file response error code and message must appear together".to_owned(),
                );
            },
        };
        let entries = match decode_entries(&frame.entries) {
            Err(message) => {
                return Err(message);
            },
            Ok(entries) => entries,
        };
        let entry = match &frame.entry {
            None => None,
            Some(info) => match decode_entry(info) {
                Err(message) => {
                    return Err(message);
                },
                Ok(entry) => Some(entry),
            },
        };
        let response = RemoteFileResponse {
            ok: frame.ok,
            error,
            shares: frame.shares,
            entries,
            next_cursor: frame.next_cursor,
            entry,
            thumbnail_size: frame.thumbnail_size,
            thumbnail_media_type: frame.thumbnail_media_type,
            revision: frame.revision,
            range_data: frame.range_data,
        };
        proof {
            assert(crate::remote_files::response_view(response) =~= response_in(f)->Ok_0);
        }
        match response.validate(limits) {
            Err(message) => Err(message),
            Ok(()) => Ok(response),
        }
    }
}

/// What the frame of a response holds is the response.
pub proof fn lemma_response_round_trip(r: crate::remote_files::ResponseView)
    ensures
        response_in(response_out(r)) == Ok::<_, Seq<char>>(r),
{
    let f = response_out(r);
    assert forall|i: int| 0 <= i < f.entries.len() implies entry_in(#[trigger] f.entries[i]) is Some by {
        assert(f.entries[i] == entry_out(r.entries[i]));
    }
    assert(f.entries.map_values(|e: EntryInfo| entry_in(e)->0) =~= r.entries);
    assert(response_in(f)->Ok_0 =~= r);
}

/// A request goes into its frame as it is, each argument in its place.
pub proof fn lemma_requests_are_framed_as_they_are(request: RemoteFileRequest)
    ensures
        request is ListShares ==> body_out(request) is ListShares,
        request is ListDirectory ==> {
            &&& body_out(request) is ListDirectory
            &&& body_out(request)->ListDirectory_share_id@ == request->ListDirectory_share_id@
            &&& body_out(request)->ListDirectory_relative_path@
                == request->ListDirectory_relative_path@
            &&& body_out(request)->ListDirectory_cursor == request->ListDirectory_cursor
            &&& body_out(request)->ListDirectory_limit == request->ListDirectory_limit
            &&& body_out(request)->ListDirectory_search == request->ListDirectory_search
            &&& body_out(request)->sort_key is Name <==> request->sort_key is Name
            &&& body_out(request)->sort_key is Modified <==> request->sort_key is Modified
            &&& body_out(request)->sort_key is Type <==> request->sort_key is Type
            &&& body_out(request)->sort_key is Size <==> request->sort_key is Size
            &&& body_out(request)->sort_direction is Descending <==> request->sort_direction
                is Descending
            &&& body_out(request)->sort_direction is Ascending <==> request->sort_direction
                is Ascending
        },
        request is CreateDirectory ==> {
            &&& body_out(request) is CreateDirectory
            &&& body_out(request)->CreateDirectory_share_id@ == request->CreateDirectory_share_id@
            &&& body_out(request)->CreateDirectory_relative_path@
                == request->CreateDirectory_relative_path@
            &&& body_out(request)->CreateDirectory_name@ == request->CreateDirectory_name@
        },
        request is Rename ==> {
            &&& body_out(request) is Rename
            &&& body_out(request)->Rename_share_id@ == request->Rename_share_id@
            &&& body_out(request)->Rename_relative_path@ == request->Rename_relative_path@
            &&& body_out(request)->Rename_new_name@ == request->Rename_new_name@
        },
        request is Delete ==> {
            &&& body_out(request) is Delete
            &&& body_out(request)->Delete_share_id@ == request->Delete_share_id@
            &&& body_out(request)->Delete_relative_path@ == request->Delete_relative_path@
        },
        request is Download ==> {
            &&& body_out(request) is Download
            &&& body_out(request)->Download_share_id@ == request->Download_share_id@
            &&& body_out(request)->Download_relative_path@ == request->Download_relative_path@
        },
        request is Thumbnail ==> {
            &&& body_out(request) is Thumbnail
            &&& body_out(request)->Thumbnail_share_id@ == request->Thumbnail_share_id@
            &&& body_out(request)->Thumbnail_relative_path@ == request->Thumbnail_relative_path@
            &&& body_out(request)->Thumbnail_max_dimension == request->Thumbnail_max_dimension
        },
        request is Upload ==> {
            &&& body_out(request) is Upload
            &&& body_out(request)->Upload_share_id@ == request->Upload_share_id@
            &&& body_out(request)->Upload_relative_path@ == request->Upload_relative_path@
            &&& body_out(request)->Upload_name@ == request->Upload_name@
            &&& body_out(request)->Upload_size == request->Upload_size
            &&& body_out(request)->Upload_overwrite == request->Upload_overwrite
            &&& body_out(request)->Upload_expected_modified_at_ms
                == request->Upload_expected_modified_at_ms
        },
        request is Stat ==> {
            &&& body_out(request) is Stat
            &&& body_out(request)->Stat_share_id@ == request->Stat_share_id@
            &&& body_out(request)->Stat_relative_path@ == request->Stat_relative_path@
        },
        request is ReadRange ==> {
            &&& body_out(request) is ReadRange
            &&& body_out(request)->ReadRange_share_id@ == request->ReadRange_share_id@
            &&& body_out(request)->ReadRange_relative_path@ == request->ReadRange_relative_path@
            &&& body_out(request)->ReadRange_offset == request->ReadRange_offset
            &&& body_out(request)->ReadRange_length == request->ReadRange_length
            &&& body_out(request)->ReadRange_revision@ == request->ReadRange_revision@
        },
        request is Move ==> {
            &&& body_out(request) is Move
            &&& body_out(request)->Move_share_id@ == request->Move_share_id@
            &&& body_out(request)->Move_relative_path@ == request->Move_relative_path@
            &&& body_out(request)->Move_destination_path@ == request->Move_destination_path@
            &&& body_out(request)->Move_overwrite == request->Move_overwrite
            &&& body_out(request)->Move_expected_revision@ == request->Move_expected_revision@
        },
        request is ConditionalDelete ==> {
            &&& body_out(request) is ConditionalDelete
            &&& body_out(request)->ConditionalDelete_share_id@
                == request->ConditionalDelete_share_id@
            &&& body_out(request)->ConditionalDelete_relative_path@
                == request->ConditionalDelete_relative_path@
            &&& body_out(request)->ConditionalDelete_expected_revision@
                == request->ConditionalDelete_expected_revision@
            &&& body_out(request)->ConditionalDelete_recursive
                == request->ConditionalDelete_recursive
        },
        request is ConditionalUpload ==> {
            &&& body_out(request) is ConditionalUpload
            &&& body_out(request)->ConditionalUpload_share_id@
                == request->ConditionalUpload_share_id@
            &&& body_out(request)->ConditionalUpload_relative_path@
                == request->ConditionalUpload_relative_path@
            &&& body_out(request)->ConditionalUpload_name@ == request->ConditionalUpload_name@
            &&& body_out(request)->ConditionalUpload_size == request->ConditionalUpload_size
            &&& body_out(request)->ConditionalUpload_expected_revision@
                == request->ConditionalUpload_expected_revision@
        },
{
}

/// A request comes out of its frame as it was put in, each argument in its place.
pub proof fn lemma_framed_requests_are_read_as_they_are(
    body: RequestBody,
    request: RemoteFileRequest,
)
    requires
        body_in(body) == Ok::<RemoteFileRequest, Seq<char>>(request),
    ensures
        body is ListShares ==> request is ListShares,
        body is ListDirectory ==> {
            &&& request is ListDirectory
            &&& request->ListDirectory_share_id@ == body->ListDirectory_share_id@
            &&& request->ListDirectory_relative_path@ == body->ListDirectory_relative_path@
            &&& request->ListDirectory_cursor == body->ListDirectory_cursor
            &&& request->ListDirectory_limit == body->ListDirectory_limit
            &&& request->ListDirectory_search == body->ListDirectory_search
            &&& request->sort_key is Modified <==> body->sort_key is Modified
            &&& request->sort_key is Type <==> body->sort_key is Type
            &&& request->sort_key is Size <==> body->sort_key is Size
            &&& request->sort_direction is Descending <==> body->sort_direction is Descending
        },
        body is CreateDirectory ==> {
            &&& request is CreateDirectory
            &&& request->CreateDirectory_share_id@ == body->CreateDirectory_share_id@
            &&& request->CreateDirectory_relative_path@ == body->CreateDirectory_relative_path@
            &&& request->CreateDirectory_name@ == body->CreateDirectory_name@
        },
        body is Rename ==> {
            &&& request is Rename
            &&& request->Rename_share_id@ == body->Rename_share_id@
            &&& request->Rename_relative_path@ == body->Rename_relative_path@
            &&& request->Rename_new_name@ == body->Rename_new_name@
        },
        body is Delete ==> {
            &&& request is Delete
            &&& request->Delete_share_id@ == body->Delete_share_id@
            &&& request->Delete_relative_path@ == body->Delete_relative_path@
        },
        body is Download ==> {
            &&& request is Download
            &&& request->Download_share_id@ == body->Download_share_id@
            &&& request->Download_relative_path@ == body->Download_relative_path@
        },
        body is Thumbnail ==> {
            &&& request is Thumbnail
            &&& request->Thumbnail_share_id@ == body->Thumbnail_share_id@
            &&& request->Thumbnail_relative_path@ == body->Thumbnail_relative_path@
            &&& request->Thumbnail_max_dimension == body->Thumbnail_max_dimension
        },
        body is Upload ==> {
            &&& request is Upload
            &&& request->Upload_share_id@ == body->Upload_share_id@
            &&& request->Upload_relative_path@ == body->Upload_relative_path@
            &&& request->Upload_name@ == body->Upload_name@
            &&& request->Upload_size == body->Upload_size
            &&& request->Upload_overwrite == body->Upload_overwrite
            &&& request->Upload_expected_modified_at_ms == body->Upload_expected_modified_at_ms
        },
        body is Stat ==> {
            &&& request is Stat
            &&& request->Stat_share_id@ == body->Stat_share_id@
            &&& request->Stat_relative_path@ == body->Stat_relative_path@
        },
        body is ReadRange ==> {
            &&& request is ReadRange
            &&& request->ReadRange_share_id@ == body->ReadRange_share_id@
            &&& request->ReadRange_relative_path@ == body->ReadRange_relative_path@
            &&& request->ReadRange_offset == body->ReadRange_offset
            &&& request->ReadRange_length == body->ReadRange_length
            &&& request->ReadRange_revision@ == body->ReadRange_revision@
        },
        body is Move ==> {
            &&& request is Move
            &&& request->Move_share_id@ == body->Move_share_id@
            &&& request->Move_relative_path@ == body->Move_relative_path@
            &&& request->Move_destination_path@ == body->Move_destination_path@
            &&& request->Move_overwrite == body->Move_overwrite
            &&& request->Move_expected_revision@ == body->Move_expected_revision@
        },
        body is ConditionalDelete ==> {
            &&& request is ConditionalDelete
            &&& request->ConditionalDelete_share_id@ == body->ConditionalDelete_share_id@
            &&& request->ConditionalDelete_relative_path@ == body->ConditionalDelete_relative_path@
            &&& request->ConditionalDelete_expected_revision@
                == body->ConditionalDelete_expected_revision@
            &&& request->ConditionalDelete_recursive == body->ConditionalDelete_recursive
        },
        body is ConditionalUpload ==> {
            &&& request is ConditionalUpload
            &&& request->ConditionalUpload_share_id@ == body->ConditionalUpload_share_id@
            &&& request->ConditionalUpload_relative_path@ == body->ConditionalUpload_relative_path@
            &&& request->ConditionalUpload_name@ == body->ConditionalUpload_name@
            &&& request->ConditionalUpload_size == body->ConditionalUpload_size
            &&& request->ConditionalUpload_expected_revision@
                == body->ConditionalUpload_expected_revision@
        },
{
}

/// Every frame is read but one that asks for an order that is not known.
pub proof fn lemma_which_frames_are_read(body: RequestBody)
    ensures
        !(body is ListDirectory) ==> body_in(body) is Ok,
        body is ListDirectory ==> (body_in(body) is Ok <==> !(body->sort_key is Unknown)
            && !(body->sort_direction is Unknown)),
{
}

/// A file or folder travels as what it is, each fact in its place.
pub proof fn lemma_entries_travel_as_they_are(entry: RemoteFileEntry, told: EntryInfo)
    ensures
        entry_out(entry).name@ == entry.name@,
        entry_out(entry).relative_path@ == entry.relative_path@,
        entry_out(entry).size == entry.size,
        entry_out(entry).modified_at_ms == entry.modified_at_ms,
        entry_out(entry).kind is File <==> entry.kind is File,
        entry_out(entry).kind is Folder <==> entry.kind is Folder,
        entry_in(told) is Some <==> told.kind is File || told.kind is Folder,
        entry_in(told) is Some ==> {
            let read = entry_in(told)->0;
            &&& read.name@ == told.name@
            &&& read.relative_path@ == told.relative_path@
            &&& read.size == told.size
            &&& read.modified_at_ms == told.modified_at_ms
            &&& read.kind is File <==> told.kind is File
            &&& read.kind is Folder <==> told.kind is Folder
        },
{
}

/// A failure travels as what it is.
pub proof fn lemma_failures_travel_as_they_are(code: RemoteFileErrorCode, told: WireErrorCode)
    ensures
        error_code_out(code) is InvalidArgument <==> code is InvalidArgument,
        error_code_out(code) is PermissionDenied <==> code is PermissionDenied,
        error_code_out(code) is NotFound <==> code is NotFound,
        error_code_out(code) is Conflict <==> code is Conflict,
        error_code_out(code) is ResourceExhausted <==> code is ResourceExhausted,
        error_code_out(code) is FailedPrecondition <==> code is FailedPrecondition,
        error_code_out(code) is Unavailable <==> code is Unavailable,
        error_code_out(code) is Cancelled <==> code is Cancelled,
        error_code_out(code) is Internal <==> code is Internal,
        error_code_in(told) is None <==> told is Unspecified || told is Unknown,
        error_code_in(error_code_out(code)) == Some(code),
{
}

/// A response goes into its frame as it is, each fact in its place.
pub proof fn lemma_responses_are_framed_as_they_are(r: crate::remote_files::ResponseView)
    ensures
        ({
            let f = response_out(r);
            &&& f.ok == r.ok
            &&& f.error is Some <==> r.error is Some
            &&& f.error_code is Some <==> r.error is Some
            &&& r.error is Some ==> f.error->0@ == r.error->0.message@
            &&& f.shares == r.shares
            &&& f.entries.len() == r.entries.len()
            &&& forall|i: int|
                0 <= i < f.entries.len() ==> {
                    let (told, entry) = (#[trigger] f.entries[i], r.entries[i]);
                    &&& told.name@ == entry.name@
                    &&& told.relative_path@ == entry.relative_path@
                    &&& told.size == entry.size
                    &&& told.modified_at_ms == entry.modified_at_ms
                    &&& told.kind is Folder <==> entry.kind is Folder
                }
            &&& f.next_cursor == r.next_cursor
            &&& f.entry is Some <==> r.entry is Some
            &&& r.entry is Some ==> f.entry->0.name@ == r.entry->0.name@
                && f.entry->0.relative_path@ == r.entry->0.relative_path@ && f.entry->0.size
                == r.entry->0.size
            &&& f.thumbnail_size == r.thumbnail_size
            &&& f.thumbnail_media_type == r.thumbnail_media_type
            &&& f.revision == r.revision
            &&& f.range_data == r.range_data
        }),
{
}

/// A response comes out of its frame as it was put in, each fact in its place.
pub proof fn lemma_framed_responses_are_read_as_they_are(
    f: ResponseFrameView,
    r: crate::remote_files::ResponseView,
)
    requires
        response_in(f) == Ok::<crate::remote_files::ResponseView, Seq<char>>(r),
    ensures
        r.ok == f.ok,
        r.error is Some <==> f.error is Some,
        r.error is Some <==> f.error_code is Some,
        r.error is Some ==> r.error->0.message@ == f.error->0@,
        r.error is Some && f.error_code->0 is NotFound ==> r.error->0.code is NotFound,
        r.error is Some && f.error_code->0 is Conflict ==> r.error->0.code is Conflict,
        r.error is Some && f.error_code->0 is PermissionDenied ==> r.error->0.code
            is PermissionDenied,
        r.shares == f.shares,
        r.entries.len() == f.entries.len(),
        forall|i: int|
            0 <= i < r.entries.len() ==> {
                let (entry, told) = (#[trigger] r.entries[i], f.entries[i]);
                &&& told.name@ == entry.name@
                &&& told.relative_path@ == entry.relative_path@
                &&& told.size == entry.size
                &&& told.modified_at_ms == entry.modified_at_ms
                &&& told.kind is Folder <==> entry.kind is Folder
            },
        r.next_cursor == f.next_cursor,
        r.entry is Some <==> f.entry is Some,
        r.thumbnail_size == f.thumbnail_size,
        r.thumbnail_media_type == f.thumbnail_media_type,
        r.revision == f.revision,
        r.range_data == f.range_data,
{
    assert forall|i: int| 0 <= i < r.entries.len() implies {
        let (entry, told) = (#[trigger] r.entries[i], f.entries[i]);
        &&& told.name@ == entry.name@
        &&& told.relative_path@ == entry.relative_path@
        &&& told.size == entry.size
        &&& told.modified_at_ms == entry.modified_at_ms
        &&& told.kind is Folder <==> entry.kind is Folder
    } by {
        assert(entry_in(f.entries[i]) is Some);
    }
}

/// What a frame holds is what it says, each fact in its place.
pub proof fn lemma_frames_show_their_facts(f: RemoteFileResponseFrame)
    ensures
        ({
            let v = frame_view(f);
            &&& v.ok == f.ok && v.error == f.error && v.error_code == f.error_code
            &&& v.shares == f.shares@ && v.entries == f.entries@
            &&& v.next_cursor == f.next_cursor && v.entry == f.entry
            &&& v.thumbnail_size == f.thumbnail_size
            &&& v.thumbnail_media_type == f.thumbnail_media_type
            &&& v.revision == f.revision@ && v.range_data == f.range_data@
        }),
{
}

/// What comes out is what was expected: the same value, or the same reason for none.
pub proof fn lemma_outcomes_are_as_expected<T>(r: Result<T, String>, expected: Result<T, Seq<char>>)
    requires
        outcome_is(r, expected),
    ensures
        r is Ok <==> expected is Ok,
        r is Ok ==> r->Ok_0 == expected->Ok_0,
        r is Err ==> r->Err_0@ == expected->Err_0,
{
}

} // verus!
