//! Remote files: what a device may see of the shares of another, the requests
//! it can make, the responses to them, and both as wire frames.

use vstd::prelude::*;

use crate::peer::{Grant, GrantConstraints, GrantDirection, PeerCapability};
use crate::text::{byte_len, chars_of, has_control, split_text, str_eq, truncate_utf8};

verus! {

pub const DEFAULT_REMOTE_DIRECTORY_PAGE_SIZE: u32 = 100;

pub const MAX_REMOTE_DIRECTORY_PAGE_SIZE: u32 = 200;

/// Protocol v2 requires every failed response to carry a stable error code.
pub const REMOTE_FILE_PROTOCOL_VERSION: u32 = 2;

/// The longest error message of a response, in bytes.
pub const MAX_REMOTE_FILE_ERROR_BYTES: usize = 8192;

/// The sizes that the wire format allows.
#[derive(Debug, Clone, Copy, PartialEq, Eq, Structural)]
pub struct RemoteFileLimits {
    pub max_content_size: u64,
    pub max_thumbnail_size: u64,
}

#[derive(Debug, Clone, Copy, PartialEq, Eq, Structural)]
pub enum RemoteFileErrorCode {
    InvalidArgument,
    PermissionDenied,
    NotFound,
    Conflict,
    ResourceExhausted,
    FailedPrecondition,
    Unavailable,
    Cancelled,
    Internal,
}

/// Why a remote-file operation failed.
#[derive(Debug, Clone, PartialEq, Eq)]
pub struct RemoteFileError {
    pub code: RemoteFileErrorCode,
    pub message: String,
}

impl RemoteFileError {
    pub fn new(code: RemoteFileErrorCode, message: &str) -> (r: RemoteFileError)
        ensures
            r.code == code,
            r.message@ == message@,
    {
        RemoteFileError { code, message: message.to_owned() }
    }
}

/// The shares that a device may read and write.
#[derive(Debug, Clone)]
pub struct RemoteFileAccess {
    read_all: bool,
    write_all: bool,
    read_shares: Vec<String>,
    write_shares: Vec<String>,
}

/// A [`RemoteFileAccess`] as a mathematical value.
#[verifier::ext_equal]
pub struct AccessView {
    pub read_all: bool,
    pub write_all: bool,
    pub read_shares: Set<Seq<char>>,
    pub write_shares: Set<Seq<char>>,
}

/// The set of texts in a list.
pub open spec fn text_set(list: Seq<String>) -> Set<Seq<char>> {
    crate::text::texts(list).to_set()
}

/// True when the grant allows reading in this direction.
pub open spec fn grants_read(grant: Grant, direction: GrantDirection) -> bool {
    grant.direction == direction && grant.capability == PeerCapability::RemoteFilesRead
}

/// True when the grant allows writing in this direction.
pub open spec fn grants_write(grant: Grant, direction: GrantDirection) -> bool {
    &&& grant.direction == direction
    &&& grant.capability == PeerCapability::RemoteFilesWrite
    &&& match grant.constraints {
        GrantConstraints::Unconstrained => true,
        GrantConstraints::RemoteFileShares { share_ids, writable } => writable,
    }
}

/// True when the grant is limited to shares and this is one of them.
pub open spec fn names_share(grant: Grant, share: Seq<char>) -> bool {
    grant.constraints matches GrantConstraints::RemoteFileShares { share_ids, writable }
        && text_set(share_ids@).contains(share)
}

/// What the first `n` grants allow.
pub open spec fn access_from(grants: Seq<Grant>, n: int, direction: GrantDirection) -> AccessView {
    AccessView {
        read_all: exists|i: int|
            0 <= i < n && grants_read(#[trigger] grants[i], direction)
                && grants[i].constraints is Unconstrained,
        write_all: exists|i: int|
            0 <= i < n && grants_write(#[trigger] grants[i], direction)
                && grants[i].constraints is Unconstrained,
        read_shares: Set::new(
            |share: Seq<char>|
                exists|i: int|
                    0 <= i < n && grants_read(#[trigger] grants[i], direction) && names_share(
                        grants[i],
                        share,
                    ),
        ),
        write_shares: Set::new(
            |share: Seq<char>|
                exists|i: int|
                    0 <= i < n && grants_write(#[trigger] grants[i], direction) && names_share(
                        grants[i],
                        share,
                    ),
        ),
    }
}

/// True when the access lets a share be read.
pub open spec fn readable(access: AccessView, share: Seq<char>) -> bool {
    access.read_all || access.read_shares.contains(share)
}

/// True when the access lets a share be written.
pub open spec fn writable(access: AccessView, share: Seq<char>) -> bool {
    access.write_all || access.write_shares.contains(share)
}

/// True when the access lets a share be read or written.
pub open spec fn reachable(access: AccessView, share: Seq<char>) -> bool {
    readable(access, share) || writable(access, share)
}

fn list_contains(list: &Vec<String>, value: &str) -> (r: bool)
    ensures
        r == text_set(list@).contains(value@),
{
    let mut i: usize = 0;
    while i < list.len()
        invariant
            i <= list@.len(),
            forall|j: int| 0 <= j < i ==> #[trigger] crate::text::texts(list@)[j] != value@,
        decreases list@.len() - i,
    {
        assert(crate::text::texts(list@)[i as int] == list@[i as int]@);
        if str_eq(list[i].as_str(), value) {
            assert(crate::text::texts(list@).contains(value@));
            return true;
        }
        i += 1;
    }
    false
}

fn extend_texts(list: &mut Vec<String>, more: &Vec<String>)
    ensures
        text_set(final(list)@) == text_set(old(list)@).union(text_set(more@)),
{
    let ghost before = crate::text::texts(list@);
    let ghost added = crate::text::texts(more@);
    let mut i: usize = 0;
    proof {
        assert(before + added.take(0) =~= before);
    }
    while i < more.len()
        invariant
            i <= more@.len(),
            added == crate::text::texts(more@),
            crate::text::texts(list@) == before + added.take(i as int),
        decreases more@.len() - i,
    {
        let ghost so_far = crate::text::texts(list@);
        list.push(more[i].clone());
        proof {
            assert(crate::text::texts(list@) =~= so_far.push(added[i as int]));
            assert(before + added.take(i as int + 1) =~= so_far.push(added[i as int]));
        }
        i += 1;
    }
    proof {
        assert(added.take(added.len() as int) =~= added);
        let all = before + added;
        assert forall|t: Seq<char>| all.to_set().contains(t) == (before.to_set().contains(t)
            || added.to_set().contains(t)) by {
            if before.contains(t) {
                let m = choose|m: int| 0 <= m < before.len() && before[m] == t;
                assert(all[m] == t);
            }
            if added.contains(t) {
                let m = choose|m: int| 0 <= m < added.len() && added[m] == t;
                assert(all[before.len() + m] == t);
            }
            if all.contains(t) {
                let m = choose|m: int| 0 <= m < all.len() && all[m] == t;
                if m < before.len() {
                    assert(before[m] == t);
                } else {
                    assert(added[m - before.len()] == t);
                }
            }
        }
        assert(all.to_set() =~= before.to_set().union(added.to_set()));
    }
}

impl Default for RemoteFileAccess {
    fn default() -> (r: RemoteFileAccess)
        ensures
            r@ == (AccessView {
                read_all: false,
                write_all: false,
                read_shares: Set::empty(),
                write_shares: Set::empty(),
            }),
    {
        let r = RemoteFileAccess {
            read_all: false,
            write_all: false,
            read_shares: Vec::new(),
            write_shares: Vec::new(),
        };
        assert(r@.read_shares =~= Set::<Seq<char>>::empty());
        assert(r@.write_shares =~= Set::<Seq<char>>::empty());
        r
    }
}

impl RemoteFileAccess {
    pub closed spec fn view(&self) -> AccessView {
        AccessView {
            read_all: self.read_all,
            write_all: self.write_all,
            read_shares: text_set(self.read_shares@),
            write_shares: text_set(self.write_shares@),
        }
    }

    /// What a list of grants allows in one direction.
    pub fn from_grants(grants: &Vec<Grant>, direction: GrantDirection) -> (r: RemoteFileAccess)
        ensures
            r@ == access_from(grants@, grants@.len() as int, direction),
    {
        let mut access = RemoteFileAccess::default();
        let mut n: usize = 0;
        proof {
            assert(access@ =~= access_from(grants@, 0, direction));
        }
        while n < grants.len()
            invariant
                n <= grants@.len(),
                access@ == access_from(grants@, n as int, direction),
            decreases grants@.len() - n,
        {
            let ghost before = access@;
            let grant = &grants[n];
            if grant.direction == direction {
                match grant.capability {
                    PeerCapability::RemoteFilesRead => {
                        match &grant.constraints {
                            GrantConstraints::Unconstrained => {
                                access.read_all = true;
                            },
                            GrantConstraints::RemoteFileShares { share_ids, writable } => {
                                extend_texts(&mut access.read_shares, share_ids);
                            },
                        }
                    },
                    PeerCapability::RemoteFilesWrite => {
                        match &grant.constraints {
                            GrantConstraints::Unconstrained => {
                                access.write_all = true;
                            },
                            GrantConstraints::RemoteFileShares { share_ids, writable } => {
                                if *writable {
                                    extend_texts(&mut access.write_shares, share_ids);
                                }
                            },
                        }
                    },
                    _ => {},
                }
            }
            proof {
                let g = grants@[n as int];
                let next = access_from(grants@, n as int + 1, direction);
                assert(next.read_all == (before.read_all || (grants_read(g, direction)
                    && g.constraints is Unconstrained)));
                assert(next.write_all == (before.write_all || (grants_write(g, direction)
                    && g.constraints is Unconstrained)));
                assert forall|share: Seq<char>| next.read_shares.contains(share) == (
                before.read_shares.contains(share) || (grants_read(g, direction) && names_share(
                    g,
                    share,
                ))) by {}
                assert forall|share: Seq<char>| next.write_shares.contains(share) == (
                before.write_shares.contains(share) || (grants_write(g, direction) && names_share(
                    g,
                    share,
                ))) by {}
                assert(access@.read_shares =~= next.read_shares);
                assert(access@.write_shares =~= next.write_shares);
            }
            n += 1;
        }
        access
    }

    /// Access to everything.
    pub fn allow_all() -> (r: RemoteFileAccess)
        ensures
            r@.read_all,
            r@.write_all,
            r@.read_shares == Set::<Seq<char>>::empty(),
            r@.write_shares == Set::<Seq<char>>::empty(),
    {
        let mut access = RemoteFileAccess::default();
        access.read_all = true;
        access.write_all = true;
        access
    }

    /// Tells whether there is any share to list.
    pub fn can_list_shares(&self) -> (r: bool)
        ensures
            r == (exists|share: Seq<char>| reachable(self@, share)),
    {
        let r = self.read_all || self.write_all || self.read_shares.len() > 0
            || self.write_shares.len() > 0;
        proof {
            let reads = crate::text::texts(self.read_shares@);
            let writes = crate::text::texts(self.write_shares@);
            if r {
                let share = if self.read_all || self.write_all {
                    Seq::<char>::empty()
                } else if self.read_shares@.len() > 0 {
                    reads[0]
                } else {
                    writes[0]
                };
                assert(self.read_shares@.len() > 0 ==> reads.to_set().contains(reads[0]));
                assert(self.write_shares@.len() > 0 ==> writes.to_set().contains(writes[0]));
                assert(reachable(self@, share));
            } else {
                assert forall|share: Seq<char>| !reachable(self@, share) by {
                    assert(!reads.contains(share));
                    assert(!writes.contains(share));
                }
            }
        }
        r
    }

    pub fn can_read(&self, share_id: &str) -> (r: bool)
        ensures
            r == readable(self@, share_id@),
    {
        self.read_all || list_contains(&self.read_shares, share_id)
    }

    pub fn can_write(&self, share_id: &str) -> (r: bool)
        ensures
            r == writable(self@, share_id@),
    {
        self.write_all || list_contains(&self.write_shares, share_id)
    }
}

/// More grants never take access away.
pub proof fn lemma_access_grows(grants: Seq<Grant>, m: int, n: int, direction: GrantDirection, share: Seq<char>)
    requires
        m <= n,
    ensures
        readable(access_from(grants, m, direction), share) ==> readable(
            access_from(grants, n, direction),
            share,
        ),
        writable(access_from(grants, m, direction), share) ==> writable(
            access_from(grants, n, direction),
            share,
        ),
{
}

#[derive(Debug, Clone, PartialEq, Eq)]
pub struct RemoteFileShare {
    pub id: String,
    pub name: String,
    pub writable: bool,
}

#[derive(Debug, Clone, Copy, PartialEq, Eq, Structural)]
pub enum RemoteFileKind {
    File,
    Folder,
}

#[derive(Debug, Clone, Copy, PartialEq, Eq, Structural)]
pub enum RemoteFileSortKey {
    Name,
    Modified,
    Type,
    Size,
}

impl Default for RemoteFileSortKey {
    fn default() -> (r: RemoteFileSortKey)
        ensures
            r == RemoteFileSortKey::Name,
    {
        RemoteFileSortKey::Name
    }
}

#[derive(Debug, Clone, Copy, PartialEq, Eq, Structural)]
pub enum RemoteFileSortDirection {
    Ascending,
    Descending,
}

impl Default for RemoteFileSortDirection {
    fn default() -> (r: RemoteFileSortDirection)
        ensures
            r == RemoteFileSortDirection::Ascending,
    {
        RemoteFileSortDirection::Ascending
    }
}

#[derive(Debug, Clone, PartialEq, Eq)]
pub struct RemoteFileEntry {
    pub name: String,
    pub relative_path: String,
    pub kind: RemoteFileKind,
    pub size: u64,
    pub modified_at_ms: i64,
}

#[derive(Debug, Clone, PartialEq, Eq)]
pub struct RemoteFileDirectoryPage {
    pub entries: Vec<RemoteFileEntry>,
    pub next_cursor: Option<String>,
}

#[derive(Debug, Clone, PartialEq, Eq)]
pub struct RemoteFileThumbnail {
    pub bytes: Vec<u8>,
    pub media_type: String,
}

/// A file that is ready to be sent.
#[derive(Debug, Clone, PartialEq, Eq)]
pub struct RemoteFileDownload {
    pub path: String,
    pub entry: RemoteFileEntry,
}

/// A place that is ready to take a file.
#[derive(Debug, Clone, PartialEq, Eq)]
pub struct RemoteFileUpload {
    pub destination: String,
    pub entry: RemoteFileEntry,
    pub overwrite: bool,
    pub expected_modified_at_ms: Option<i64>,
}

/// What a device can ask of the shares of another.
#[derive(Debug, Clone, PartialEq, Eq)]
pub enum RemoteFileRequest {
    ListShares,
    ListDirectory {
        share_id: String,
        relative_path: String,
        cursor: Option<String>,
        /// Zero selects the bounded default page size. Callers must follow
        /// `next_cursor`; unpaginated directory listing is not supported.
        limit: u32,
        search: Option<String>,
        sort_key: RemoteFileSortKey,
        sort_direction: RemoteFileSortDirection,
    },
    CreateDirectory { share_id: String, relative_path: String, name: String },
    Rename { share_id: String, relative_path: String, new_name: String },
    Delete { share_id: String, relative_path: String },
    Download { share_id: String, relative_path: String },
    Thumbnail { share_id: String, relative_path: String, max_dimension: u32 },
    Upload {
        share_id: String,
        relative_path: String,
        name: String,
        size: u64,
        overwrite: bool,
        expected_modified_at_ms: Option<i64>,
    },
    Stat { share_id: String, relative_path: String },
    ReadRange { share_id: String, relative_path: String, offset: u64, length: u64, revision: String },
    Move {
        share_id: String,
        relative_path: String,
        destination_path: String,
        overwrite: bool,
        expected_revision: String,
    },
    ConditionalDelete {
        share_id: String,
        relative_path: String,
        expected_revision: String,
        recursive: bool,
    },
    ConditionalUpload {
        share_id: String,
        relative_path: String,
        name: String,
        size: u64,
        expected_revision: String,
    },
}

/// True when the text names a share.
pub open spec fn valid_share_id(s: Seq<char>) -> bool {
    s.len() > 0 && crate::text::utf8_len(s) <= 256 && crate::text::control_free(s)
}

/// True when the text is one step of a path.
pub open spec fn valid_component(s: Seq<char>) -> bool {
    s.len() > 0 && s != "."@ && s != ".."@ && crate::text::utf8_len(s) <= 255
}

/// True when the text is a path that stays inside its share.
pub open spec fn valid_relative_path(s: Seq<char>) -> bool {
    let parts = crate::text::split(s, '/');
    &&& crate::text::utf8_len(s) <= 4096
    &&& !s.contains('\\')
    &&& crate::text::control_free(s)
    &&& s.len() > 0 ==> forall|i: int| 0 <= i < parts.len() ==> valid_component(#[trigger] parts[i])
}

/// True when the text is the name of one file or folder.
pub open spec fn valid_file_name(s: Seq<char>) -> bool {
    &&& s.len() > 0
    &&& crate::text::utf8_len(s) <= 255
    &&& s != "."@
    &&& s != ".."@
    &&& !s.contains('/')
    &&& !s.contains('\\')
    &&& crate::text::control_free(s)
}

/// True when an optional text is short enough and free of control characters.
pub open spec fn plain_option(s: Option<String>, maximum: nat) -> bool {
    s matches Some(text) ==> crate::text::utf8_len(text@) <= maximum && crate::text::control_free(
        text@,
    )
}

fn is_plain_option(s: &Option<String>, maximum: usize) -> (r: bool)
    ensures
        r == plain_option(*s, maximum as nat),
{
    match s {
        Some(text) => byte_len(text.as_str()) <= maximum && !has_control(text.as_str()),
        None => true,
    }
}

/// The first of two faults.
pub open spec fn first_fault(a: Option<Seq<char>>, b: Option<Seq<char>>) -> Option<Seq<char>> {
    if a is Some {
        a
    } else {
        b
    }
}

pub open spec fn share_fault(s: Seq<char>) -> Option<Seq<char>> {
    if valid_share_id(s) {
        None
    } else {
        Some("invalid remote file share id"@)
    }
}

pub open spec fn path_fault(s: Seq<char>) -> Option<Seq<char>> {
    if valid_relative_path(s) {
        None
    } else {
        Some("invalid remote file path"@)
    }
}

pub open spec fn name_fault(s: Seq<char>) -> Option<Seq<char>> {
    if valid_file_name(s) {
        None
    } else {
        Some("invalid remote file name"@)
    }
}

/// What is wrong with a share id and a path, if anything.
pub open spec fn target_fault(share: Seq<char>, path: Seq<char>) -> Option<Seq<char>> {
    first_fault(share_fault(share), path_fault(path))
}

/// What is wrong with a request, if anything.
pub open spec fn request_fault(request: RemoteFileRequest) -> Option<Seq<char>> {
    match request {
        RemoteFileRequest::ListShares => None,
        RemoteFileRequest::ListDirectory {
            share_id,
            relative_path,
            cursor,
            limit,
            search,
            sort_key,
            sort_direction,
        } => first_fault(
            target_fault(share_id@, relative_path@),
            if limit > MAX_REMOTE_DIRECTORY_PAGE_SIZE || !plain_option(cursor, 1024)
                || !plain_option(search, 512) {
                Some("invalid remote directory query"@)
            } else {
                None
            },
        ),
        RemoteFileRequest::CreateDirectory { share_id, relative_path, name } => first_fault(
            target_fault(share_id@, relative_path@),
            name_fault(name@),
        ),
        RemoteFileRequest::Upload {
            share_id,
            relative_path,
            name,
            size,
            overwrite,
            expected_modified_at_ms,
        } => first_fault(target_fault(share_id@, relative_path@), name_fault(name@)),
        RemoteFileRequest::ConditionalUpload {
            share_id,
            relative_path,
            name,
            size,
            expected_revision,
        } => first_fault(target_fault(share_id@, relative_path@), name_fault(name@)),
        RemoteFileRequest::Rename { share_id, relative_path, new_name } => first_fault(
            target_fault(share_id@, relative_path@),
            name_fault(new_name@),
        ),
        RemoteFileRequest::Delete { share_id, relative_path } => target_fault(
            share_id@,
            relative_path@,
        ),
        RemoteFileRequest::Download { share_id, relative_path } => target_fault(
            share_id@,
            relative_path@,
        ),
        RemoteFileRequest::Stat { share_id, relative_path } => target_fault(
            share_id@,
            relative_path@,
        ),
        RemoteFileRequest::ReadRange { share_id, relative_path, offset, length, revision } => {
            target_fault(share_id@, relative_path@)
        },
        RemoteFileRequest::ConditionalDelete {
            share_id,
            relative_path,
            expected_revision,
            recursive,
        } => target_fault(share_id@, relative_path@),
        RemoteFileRequest::Move {
            share_id,
            relative_path,
            destination_path,
            overwrite,
            expected_revision,
        } => first_fault(target_fault(share_id@, relative_path@), path_fault(destination_path@)),
        RemoteFileRequest::Thumbnail { share_id, relative_path, max_dimension } => first_fault(
            target_fault(share_id@, relative_path@),
            if 16 <= max_dimension <= 4096 {
                None
            } else {
                Some("invalid thumbnail dimensions"@)
            },
        ),
    }
}

/// A fault as a mathematical value.
pub open spec fn fault_of<T>(r: Result<T, String>) -> Option<Seq<char>> {
    match r {
        Ok(_) => None,
        Err(message) => Some(message@),
    }
}

fn contains_char(value: &str, wanted: char) -> (r: bool)
    ensures
        r == value@.contains(wanted),
{
    let chars = chars_of(value);
    let mut i: usize = 0;
    while i < chars.len()
        invariant
            i <= chars@.len(),
            chars@ == value@,
            forall|j: int| 0 <= j < i ==> #[trigger] value@[j] != wanted,
        decreases chars@.len() - i,
    {
        if chars[i] == wanted {
            assert(value@[i as int] == wanted);
            return true;
        }
        i += 1;
    }
    false
}

pub fn validate_share_id(value: &str) -> (r: Result<(), String>)
    ensures
        fault_of(r) == share_fault(value@),
{
    if value.is_empty() || byte_len(value) > 256 || has_control(value) {
        return Err("invalid remote file share id".to_owned());
    }
    Ok(())
}

pub fn validate_relative_path(value: &str) -> (r: Result<(), String>)
    ensures
        fault_of(r) == path_fault(value@),
{
    if byte_len(value) > 4096 || contains_char(value, '\\') || has_control(value) {
        return Err("invalid remote file path".to_owned());
    }
    if value.is_empty() {
        return Ok(());
    }
    let parts = split_text(value, '/');
    let ghost all = crate::text::split(value@, '/');
    let mut i: usize = 0;
    while i < parts.len()
        invariant
            i <= parts@.len(),
            all == crate::text::texts(parts@),
            all == crate::text::split(value@, '/'),
            value@.len() > 0,
            forall|j: int| 0 <= j < i ==> valid_component(#[trigger] all[j]),
        decreases parts@.len() - i,
    {
        assert(all[i as int] == parts@[i as int]@);
        let part = parts[i].as_str();
        if part.is_empty() || str_eq(part, ".") || str_eq(part, "..") || byte_len(part) > 255 {
            assert(!valid_component(all[i as int]));
            return Err("invalid remote file path".to_owned());
        }
        i += 1;
    }
    Ok(())
}

pub fn validate_file_name(value: &str) -> (r: Result<(), String>)
    ensures
        fault_of(r) == name_fault(value@),
{
    if value.is_empty() || byte_len(value) > 255 || str_eq(value, ".") || str_eq(value, "..")
        || contains_char(value, '/') || contains_char(value, '\\') || has_control(value) {
        return Err("invalid remote file name".to_owned());
    }
    Ok(())
}

fn validate_target(share_id: &str, relative_path: &str) -> (r: Result<(), String>)
    ensures
        fault_of(r) == target_fault(share_id@, relative_path@),
{
    match validate_share_id(share_id) {
        Err(message) => Err(message),
        Ok(()) => validate_relative_path(relative_path),
    }
}

fn validate_named(share_id: &str, relative_path: &str, name: &str) -> (r: Result<(), String>)
    ensures
        fault_of(r) == first_fault(target_fault(share_id@, relative_path@), name_fault(name@)),
{
    match validate_target(share_id, relative_path) {
        Err(message) => Err(message),
        Ok(()) => validate_file_name(name),
    }
}

/// The name of each operation.
pub open spec fn operation(request: RemoteFileRequest) -> Seq<char> {
    match request {
        RemoteFileRequest::ListShares => "list_shares"@,
        RemoteFileRequest::ListDirectory { .. } => "list_directory"@,
        RemoteFileRequest::CreateDirectory { .. } => "create_directory"@,
        RemoteFileRequest::Rename { .. } => "rename"@,
        RemoteFileRequest::Delete { .. } => "delete"@,
        RemoteFileRequest::Download { .. } => "download"@,
        RemoteFileRequest::Thumbnail { .. } => "thumbnail"@,
        RemoteFileRequest::Upload { .. } => "upload"@,
        RemoteFileRequest::Stat { .. } => "stat"@,
        RemoteFileRequest::ReadRange { .. } => "read_range"@,
        RemoteFileRequest::Move { .. } => "move"@,
        RemoteFileRequest::ConditionalDelete { .. } => "conditional_delete"@,
        RemoteFileRequest::ConditionalUpload { .. } => "conditional_upload"@,
    }
}

impl RemoteFileRequest {
    /// Stable, non-sensitive operation name suitable for diagnostics.
    pub fn operation_name(&self) -> (r: &'static str)
        ensures
            r@ == operation(*self),
    {
        match self {
            RemoteFileRequest::ListShares => "list_shares",
            RemoteFileRequest::ListDirectory { .. } => "list_directory",
            RemoteFileRequest::CreateDirectory { .. } => "create_directory",
            RemoteFileRequest::Rename { .. } => "rename",
            RemoteFileRequest::Delete { .. } => "delete",
            RemoteFileRequest::Download { .. } => "download",
            RemoteFileRequest::Thumbnail { .. } => "thumbnail",
            RemoteFileRequest::Upload { .. } => "upload",
            RemoteFileRequest::Stat { .. } => "stat",
            RemoteFileRequest::ReadRange { .. } => "read_range",
            RemoteFileRequest::Move { .. } => "move",
            RemoteFileRequest::ConditionalDelete { .. } => "conditional_delete",
            RemoteFileRequest::ConditionalUpload { .. } => "conditional_upload",
        }
    }

    /// Checks the names, paths and numbers of a request.
    pub fn validate(&self) -> (r: Result<(), String>)
        ensures
            fault_of(r) == request_fault(*self),
    {
        match self {
            RemoteFileRequest::ListShares => Ok(()),
            RemoteFileRequest::ListDirectory {
                share_id,
                relative_path,
                cursor,
                limit,
                search,
                ..
            } => match validate_target(share_id.as_str(), relative_path.as_str()) {
                Err(message) => Err(message),
                Ok(()) => {
                    if *limit > MAX_REMOTE_DIRECTORY_PAGE_SIZE || !is_plain_option(cursor, 1024)
                        || !is_plain_option(search, 512) {
                        Err("invalid remote directory query".to_owned())
                    } else {
                        Ok(())
                    }
                },
            },
            RemoteFileRequest::CreateDirectory { share_id, relative_path, name } => validate_named(
                share_id.as_str(),
                relative_path.as_str(),
                name.as_str(),
            ),
            RemoteFileRequest::Upload { share_id, relative_path, name, .. } => validate_named(
                share_id.as_str(),
                relative_path.as_str(),
                name.as_str(),
            ),
            RemoteFileRequest::ConditionalUpload { share_id, relative_path, name, .. } => {
                validate_named(share_id.as_str(), relative_path.as_str(), name.as_str())
            },
            RemoteFileRequest::Rename { share_id, relative_path, new_name } => validate_named(
                share_id.as_str(),
                relative_path.as_str(),
                new_name.as_str(),
            ),
            RemoteFileRequest::Delete { share_id, relative_path } => validate_target(
                share_id.as_str(),
                relative_path.as_str(),
            ),
            RemoteFileRequest::Download { share_id, relative_path } => validate_target(
                share_id.as_str(),
                relative_path.as_str(),
            ),
            RemoteFileRequest::Stat { share_id, relative_path } => validate_target(
                share_id.as_str(),
                relative_path.as_str(),
            ),
            RemoteFileRequest::ReadRange { share_id, relative_path, .. } => validate_target(
                share_id.as_str(),
                relative_path.as_str(),
            ),
            RemoteFileRequest::ConditionalDelete { share_id, relative_path, .. } => validate_target(
                share_id.as_str(),
                relative_path.as_str(),
            ),
            RemoteFileRequest::Move { share_id, relative_path, destination_path, .. } => {
                match validate_target(share_id.as_str(), relative_path.as_str()) {
                    Err(message) => Err(message),
                    Ok(()) => validate_relative_path(destination_path.as_str()),
                }
            },
            RemoteFileRequest::Thumbnail { share_id, relative_path, max_dimension } => {
                match validate_target(share_id.as_str(), relative_path.as_str()) {
                    Err(message) => Err(message),
                    Ok(()) => {
                        if *max_dimension < 16 || *max_dimension > 4096 {
                            Err("invalid thumbnail dimensions".to_owned())
                        } else {
                            Ok(())
                        }
                    },
                }
            },
        }
    }
}

/// A valid path never leads out of its share: no step of it goes up.
pub proof fn lemma_path_stays_inside(path: Seq<char>, i: int)
    requires
        valid_relative_path(path),
        path.len() > 0,
        0 <= i < crate::text::split(path, '/').len(),
    ensures
        crate::text::split(path, '/')[i] != ".."@,
        crate::text::split(path, '/')[i].len() > 0,
{
    assert(valid_component(crate::text::split(path, '/')[i]));
}

/// The answer to a request.
#[derive(Debug, Clone, PartialEq, Eq)]
pub struct RemoteFileResponse {
    pub ok: bool,
    pub error: Option<RemoteFileError>,
    pub shares: Vec<RemoteFileShare>,
    pub entries: Vec<RemoteFileEntry>,
    pub next_cursor: Option<String>,
    pub entry: Option<RemoteFileEntry>,
    pub thumbnail_size: u64,
    pub thumbnail_media_type: Option<String>,
    pub revision: String,
    pub range_data: Vec<u8>,
}

/// A [`RemoteFileResponse`] as a mathematical value.
#[verifier::ext_equal]
pub struct ResponseView {
    pub ok: bool,
    pub error: Option<RemoteFileError>,
    pub shares: Seq<RemoteFileShare>,
    pub entries: Seq<RemoteFileEntry>,
    pub next_cursor: Option<String>,
    pub entry: Option<RemoteFileEntry>,
    pub thumbnail_size: u64,
    pub thumbnail_media_type: Option<String>,
    pub revision: Seq<char>,
    pub range_data: Seq<u8>,
}

/// A response as a mathematical value.
pub open spec fn response_view(r: RemoteFileResponse) -> ResponseView {
    ResponseView {
        ok: r.ok,
        error: r.error,
        shares: r.shares@,
        entries: r.entries@,
        next_cursor: r.next_cursor,
        entry: r.entry,
        thumbnail_size: r.thumbnail_size,
        thumbnail_media_type: r.thumbnail_media_type,
        revision: r.revision@,
        range_data: r.range_data@,
    }
}

/// A success that carries nothing.
pub open spec fn success_view() -> ResponseView {
    ResponseView {
        ok: true,
        error: None,
        shares: Seq::empty(),
        entries: Seq::empty(),
        next_cursor: None,
        entry: None,
        thumbnail_size: 0,
        thumbnail_media_type: None,
        revision: Seq::empty(),
        range_data: Seq::empty(),
    }
}

/// True when the response reports this failure and nothing else.
pub open spec fn is_failure(
    r: RemoteFileResponse,
    code: RemoteFileErrorCode,
    message: Seq<char>,
) -> bool {
    &&& r.error matches Some(error) && error.code == code && crate::text::is_truncation(
        error.message@,
        message,
        MAX_REMOTE_FILE_ERROR_BYTES as nat,
    )
    &&& response_view(r) == (ResponseView { ok: false, error: r.error, ..success_view() })
}

/// What is wrong with the frame of a response, if anything.
pub open spec fn shape_fault(r: ResponseView, limits: RemoteFileLimits) -> bool {
    ||| r.ok == (r.error is Some)
    ||| r.error matches Some(error) && crate::text::utf8_len(error.message@)
        > MAX_REMOTE_FILE_ERROR_BYTES
    ||| r.shares.len() > 128
    ||| r.entries.len() > MAX_REMOTE_DIRECTORY_PAGE_SIZE
    ||| !plain_option(r.next_cursor, 1024)
    ||| r.thumbnail_size > limits.max_thumbnail_size
    ||| (r.thumbnail_size == 0) != (r.thumbnail_media_type is None)
    ||| r.thumbnail_media_type matches Some(media_type) && crate::text::utf8_len(media_type@) > 256
}

pub open spec fn share_info_fault(share: RemoteFileShare) -> Option<Seq<char>> {
    first_fault(
        share_fault(share.id@),
        if share.name@.len() == 0 || crate::text::utf8_len(share.name@) > 255 {
            Some("invalid remote file share"@)
        } else {
            None
        },
    )
}

pub open spec fn entry_fault(entry: RemoteFileEntry, limits: RemoteFileLimits) -> Option<Seq<char>> {
    first_fault(
        first_fault(name_fault(entry.name@), path_fault(entry.relative_path@)),
        if entry.size > limits.max_content_size {
            Some("remote file entry exceeds the content limit"@)
        } else {
            None
        },
    )
}

/// The first fault among the shares from `k` on.
pub open spec fn shares_fault(shares: Seq<RemoteFileShare>, k: int) -> Option<Seq<char>>
    decreases shares.len() - k,
{
    if k < 0 || k >= shares.len() {
        None
    } else {
        first_fault(share_info_fault(shares[k]), shares_fault(shares, k + 1))
    }
}

/// The first fault among the entries from `k` on.
pub open spec fn entries_fault(
    entries: Seq<RemoteFileEntry>,
    limits: RemoteFileLimits,
    k: int,
) -> Option<Seq<char>>
    decreases entries.len() - k,
{
    if k < 0 || k >= entries.len() {
        None
    } else {
        first_fault(entry_fault(entries[k], limits), entries_fault(entries, limits, k + 1))
    }
}

/// What is wrong with a response, if anything.
pub open spec fn response_fault(r: ResponseView, limits: RemoteFileLimits) -> Option<Seq<char>> {
    if shape_fault(r, limits) {
        Some("invalid remote file response"@)
    } else {
        first_fault(
            shares_fault(r.shares, 0),
            first_fault(
                entries_fault(r.entries, limits, 0),
                match r.entry {
                    Some(entry) => entry_fault(entry, limits),
                    None => None,
                },
            ),
        )
    }
}

fn validate_entry(entry: &RemoteFileEntry, limits: &RemoteFileLimits) -> (r: Result<(), String>)
    ensures
        fault_of(r) == entry_fault(*entry, *limits),
{
    match validate_file_name(entry.name.as_str()) {
        Err(message) => {
            return Err(message);
        },
        Ok(()) => {},
    }
    match validate_relative_path(entry.relative_path.as_str()) {
        Err(message) => {
            return Err(message);
        },
        Ok(()) => {},
    }
    if entry.size > limits.max_content_size {
        return Err("remote file entry exceeds the content limit".to_owned());
    }
    Ok(())
}

fn validate_share(share: &RemoteFileShare) -> (r: Result<(), String>)
    ensures
        fault_of(r) == share_info_fault(*share),
{
    match validate_share_id(share.id.as_str()) {
        Err(message) => {
            return Err(message);
        },
        Ok(()) => {},
    }
    if share.name.as_str().is_empty() || byte_len(share.name.as_str()) > 255 {
        return Err("invalid remote file share".to_owned());
    }
    Ok(())
}

impl RemoteFileResponse {
    pub fn success() -> (r: RemoteFileResponse)
        ensures
            response_view(r) == success_view(),
    {
        let r = RemoteFileResponse {
            ok: true,
            error: None,
            shares: Vec::new(),
            entries: Vec::new(),
            next_cursor: None,
            entry: None,
            thumbnail_size: 0,
            thumbnail_media_type: None,
            revision: String::new(),
            range_data: Vec::new(),
        };
        assert(response_view(r) =~= success_view());
        r
    }

    /// A failure; a message that is too long is cut at a character boundary.
    pub fn failure(code: RemoteFileErrorCode, message: &str) -> (r: RemoteFileResponse)
        ensures
            is_failure(r, code, message@),
    {
        RemoteFileResponse::from_error(RemoteFileError::new(code, message))
    }

    pub fn from_error(error: RemoteFileError) -> (r: RemoteFileResponse)
        ensures
            is_failure(r, error.code, error.message@),
    {
        let message = truncate_utf8(error.message, MAX_REMOTE_FILE_ERROR_BYTES);
        let mut r = RemoteFileResponse::success();
        r.ok = false;
        r.error = Some(RemoteFileError { code: error.code, message });
        r
    }

    /// Checks a response.
    pub fn validate(&self, limits: &RemoteFileLimits) -> (r: Result<(), String>)
        ensures
            fault_of(r) == response_fault(response_view(*self), *limits),
    {
        let error_too_long = match &self.error {
            Some(error) => byte_len(error.message.as_str()) > MAX_REMOTE_FILE_ERROR_BYTES,
            None => false,
        };
        let media_type_too_long = match &self.thumbnail_media_type {
            Some(media_type) => byte_len(media_type.as_str()) > 256,
            None => false,
        };
        if self.ok == self.error.is_some() || error_too_long || self.shares.len() > 128
            || self.entries.len() > MAX_REMOTE_DIRECTORY_PAGE_SIZE as usize || !is_plain_option(
            &self.next_cursor,
            1024,
        ) || self.thumbnail_size > limits.max_thumbnail_size || (self.thumbnail_size == 0)
            != self.thumbnail_media_type.is_none() || media_type_too_long {
            return Err("invalid remote file response".to_owned());
        }
        let mut i: usize = 0;
        while i < self.shares.len()
            invariant
                i <= self.shares@.len(),
                !shape_fault(response_view(*self), *limits),
                shares_fault(self.shares@, 0) == shares_fault(self.shares@, i as int),
            decreases self.shares@.len() - i,
        {
            match validate_share(&self.shares[i]) {
                Err(message) => {
                    return Err(message);
                },
                Ok(()) => {},
            }
            i += 1;
        }
        let mut k: usize = 0;
        while k < self.entries.len()
            invariant
                k <= self.entries@.len(),
                !shape_fault(response_view(*self), *limits),
                shares_fault(self.shares@, 0) is None,
                entries_fault(self.entries@, *limits, 0) == entries_fault(
                    self.entries@,
                    *limits,
                    k as int,
                ),
            decreases self.entries@.len() - k,
        {
            match validate_entry(&self.entries[k], limits) {
                Err(message) => {
                    return Err(message);
                },
                Ok(()) => {},
            }
            k += 1;
        }
        match &self.entry {
            Some(entry) => validate_entry(entry, limits),
            None => Ok(()),
        }
    }
}

/// What grants allow: reading by a grant to read and writing by one to write, in
/// their direction alone, everywhere if they are not limited and else in the shares
/// that they name; a limited grant to write counts only if it says so.
pub proof fn lemma_what_grants_allow(
    grants: Seq<Grant>,
    n: int,
    direction: GrantDirection,
    share: Seq<char>,
)
    requires
        0 <= n <= grants.len(),
    ensures
        readable(access_from(grants, n, direction), share) <==> exists|i: int|
            0 <= i < n && ({
                let grant = #[trigger] grants[i];
                &&& grant.direction == direction
                &&& grant.capability is RemoteFilesRead
                &&& grant.constraints is Unconstrained || crate::text::texts(
                    grant.constraints->share_ids@,
                ).contains(share)
            }),
        writable(access_from(grants, n, direction), share) <==> exists|i: int|
            0 <= i < n && ({
                let grant = #[trigger] grants[i];
                &&& grant.direction == direction
                &&& grant.capability is RemoteFilesWrite
                &&& grant.constraints is Unconstrained || (grant.constraints->writable
                    && crate::text::texts(grant.constraints->share_ids@).contains(share))
            }),
{
    let access = access_from(grants, n, direction);
    if access.read_all {
        let i = choose|i: int|
            0 <= i < n && grants_read(#[trigger] grants[i], direction)
                && grants[i].constraints is Unconstrained;
        assert(grants[i].direction == direction);
    }
    if access.write_all {
        let i = choose|i: int|
            0 <= i < n && grants_write(#[trigger] grants[i], direction)
                && grants[i].constraints is Unconstrained;
        assert(grants[i].direction == direction);
    }
    if access.read_shares.contains(share) {
        let i = choose|i: int|
            0 <= i < n && grants_read(#[trigger] grants[i], direction) && names_share(
                grants[i],
                share,
            );
        assert(grants[i].direction == direction);
    }
    if access.write_shares.contains(share) {
        let i = choose|i: int|
            0 <= i < n && grants_write(#[trigger] grants[i], direction) && names_share(
                grants[i],
                share,
            );
        assert(grants[i].direction == direction);
    }
    assert forall|i: int|
        0 <= i < n && (#[trigger] grants[i]).direction == direction
            && grants[i].capability is RemoteFilesRead && (grants[i].constraints is Unconstrained
            || crate::text::texts(grants[i].constraints->share_ids@).contains(
            share,
        )) implies readable(access, share) by {
        assert(grants_read(grants[i], direction));
        if !(grants[i].constraints is Unconstrained) {
            assert(names_share(grants[i], share));
            assert(access.read_shares.contains(share));
        }
    }
    assert forall|i: int|
        0 <= i < n && (#[trigger] grants[i]).direction == direction
            && grants[i].capability is RemoteFilesWrite && (grants[i].constraints is Unconstrained
            || (grants[i].constraints->writable && crate::text::texts(
            grants[i].constraints->share_ids@,
        ).contains(share))) implies writable(access, share) by {
        assert(grants_write(grants[i], direction));
        if !(grants[i].constraints is Unconstrained) {
            assert(names_share(grants[i], share));
            assert(access.write_shares.contains(share));
        }
    }
}

/// What a share, a path and a name must be.
pub proof fn lemma_proper_names(s: Seq<char>)
    ensures
        share_fault(s) is None <==> s.len() > 0 && crate::text::utf8_len(s) <= 256
            && crate::text::control_free(s),
        name_fault(s) is None <==> {
            &&& 0 < s.len() && crate::text::utf8_len(s) <= 255
            &&& s != "."@ && s != ".."@
            &&& !s.contains('/') && !s.contains('\\')
            &&& crate::text::control_free(s)
        },
        path_fault(s) is None ==> crate::text::utf8_len(s) <= 4096 && !s.contains('\\')
            && crate::text::control_free(s),
        s.len() == 0 ==> path_fault(s) is None,
{
    if s.len() == 0 {
        assert(s =~= Seq::<char>::empty());
        assert(!s.contains('\\'));
        assert(vstd::utf8::encode_utf8(s) =~= Seq::<u8>::empty());
    }
}

/// A request is let through only with a proper share and proper paths and names.
pub proof fn lemma_proper_requests(request: RemoteFileRequest)
    requires
        request_fault(request) is None,
    ensures
        request is ListDirectory ==> valid_share_id(request->ListDirectory_share_id@)
            && valid_relative_path(request->ListDirectory_relative_path@) && request->limit
            <= 200,
        request is CreateDirectory ==> valid_share_id(request->CreateDirectory_share_id@)
            && valid_relative_path(request->CreateDirectory_relative_path@) && valid_file_name(
            request->CreateDirectory_name@,
        ),
        request is Rename ==> valid_share_id(request->Rename_share_id@) && valid_relative_path(
            request->Rename_relative_path@,
        ) && valid_file_name(request->new_name@),
        request is Delete ==> valid_share_id(request->Delete_share_id@) && valid_relative_path(
            request->Delete_relative_path@,
        ),
        request is Download ==> valid_share_id(request->Download_share_id@)
            && valid_relative_path(request->Download_relative_path@),
        request is Stat ==> valid_share_id(request->Stat_share_id@) && valid_relative_path(
            request->Stat_relative_path@,
        ),
        request is ReadRange ==> valid_share_id(request->ReadRange_share_id@)
            && valid_relative_path(request->ReadRange_relative_path@),
        request is Upload ==> valid_share_id(request->Upload_share_id@) && valid_relative_path(
            request->Upload_relative_path@,
        ) && valid_file_name(request->Upload_name@),
        request is ConditionalUpload ==> valid_share_id(request->ConditionalUpload_share_id@)
            && valid_relative_path(request->ConditionalUpload_relative_path@)
            && valid_file_name(request->ConditionalUpload_name@),
        request is ConditionalDelete ==> valid_share_id(request->ConditionalDelete_share_id@)
            && valid_relative_path(request->ConditionalDelete_relative_path@),
        request is Move ==> valid_share_id(request->Move_share_id@) && valid_relative_path(
            request->Move_relative_path@,
        ) && valid_relative_path(request->destination_path@),
        request is Thumbnail ==> valid_share_id(request->Thumbnail_share_id@)
            && valid_relative_path(request->Thumbnail_relative_path@) && 16
            <= request->max_dimension <= 4096,
{
}

/// A proper request is let through.
pub proof fn lemma_proper_requests_are_let_through(request: RemoteFileRequest)
    ensures
        request is ListShares ==> request_fault(request) is None,
        request is Delete && valid_share_id(request->Delete_share_id@) && valid_relative_path(
            request->Delete_relative_path@,
        ) ==> request_fault(request) is None,
        request is Download && valid_share_id(request->Download_share_id@)
            && valid_relative_path(request->Download_relative_path@) ==> request_fault(request)
            is None,
        request is Stat && valid_share_id(request->Stat_share_id@) && valid_relative_path(
            request->Stat_relative_path@,
        ) ==> request_fault(request) is None,
        request is Move && valid_share_id(request->Move_share_id@) && valid_relative_path(
            request->Move_relative_path@,
        ) && valid_relative_path(request->destination_path@) ==> request_fault(request) is None,
        request is Rename && valid_share_id(request->Rename_share_id@) && valid_relative_path(
            request->Rename_relative_path@,
        ) && valid_file_name(request->new_name@) ==> request_fault(request) is None,
        request is Upload && valid_share_id(request->Upload_share_id@) && valid_relative_path(
            request->Upload_relative_path@,
        ) && valid_file_name(request->Upload_name@) ==> request_fault(request) is None,
{
}

/// A failure is told with its code and the begin of its words, and with nothing else.
pub proof fn lemma_failures_carry_nothing_else(
    r: RemoteFileResponse,
    code: RemoteFileErrorCode,
    message: Seq<char>,
)
    requires
        is_failure(r, code, message),
    ensures
        !r.ok,
        r.error is Some,
        r.error->0.code == code,
        r.error->0.message@.is_prefix_of(message),
        crate::text::utf8_len(message) <= 8192 ==> r.error->0.message@ == message,
        r.shares@.len() == 0,
        r.entries@.len() == 0,
        r.next_cursor is None,
        r.entry is None,
        r.thumbnail_size == 0,
        r.thumbnail_media_type is None,
        r.revision@.len() == 0,
        r.range_data@.len() == 0,
{
    let v = response_view(r);
    assert(v.shares == r.shares@ && v.entries == r.entries@);
    let told = r.error->0.message@;
    if told.len() < message.len() {
        crate::text::lemma_utf8_len_take(message, told.len() as int + 1);
    } else {
        assert(told =~= message);
    }
}

/// A response that is let through is either a success or a failure, and all that it
/// lists is proper.
pub proof fn lemma_proper_responses(r: ResponseView, limits: RemoteFileLimits, i: int)
    requires
        response_fault(r, limits) is None,
    ensures
        r.ok <==> r.error is None,
        r.shares.len() <= 128,
        r.entries.len() <= 200,
        r.thumbnail_size <= limits.max_thumbnail_size,
        r.thumbnail_size > 0 <==> r.thumbnail_media_type is Some,
        r.entry is Some ==> valid_file_name(r.entry->0.name@) && valid_relative_path(
            r.entry->0.relative_path@,
        ) && r.entry->0.size <= limits.max_content_size,
        0 <= i < r.entries.len() ==> valid_file_name(r.entries[i].name@) && valid_relative_path(
            r.entries[i].relative_path@,
        ) && r.entries[i].size <= limits.max_content_size,
        0 <= i < r.shares.len() ==> valid_share_id(r.shares[i].id@) && r.shares[i].name@.len() > 0,
{
    if 0 <= i < r.entries.len() {
        lemma_entries_proper(r.entries, limits, 0, i);
    }
    if 0 <= i < r.shares.len() {
        lemma_shares_proper(r.shares, 0, i);
    }
}

proof fn lemma_entries_proper(
    entries: Seq<RemoteFileEntry>,
    limits: RemoteFileLimits,
    k: int,
    i: int,
)
    requires
        entries_fault(entries, limits, k) is None,
        0 <= k <= i < entries.len(),
    ensures
        entry_fault(entries[i], limits) is None,
    decreases i - k,
{
    if k < i {
        lemma_entries_proper(entries, limits, k + 1, i);
    }
}

proof fn lemma_shares_proper(shares: Seq<RemoteFileShare>, k: int, i: int)
    requires
        shares_fault(shares, k) is None,
        0 <= k <= i < shares.len(),
    ensures
        share_info_fault(shares[i]) is None,
    decreases i - k,
{
    if k < i {
        lemma_shares_proper(shares, k + 1, i);
    }
}

/// What a response holds is what it says, each fact in its place, and a success by
/// itself holds nothing.
pub proof fn lemma_responses_show_their_facts(r: RemoteFileResponse)
    ensures
        ({
            let v = response_view(r);
            &&& v.ok == r.ok && v.error == r.error
            &&& v.shares == r.shares@ && v.entries == r.entries@
            &&& v.next_cursor == r.next_cursor && v.entry == r.entry
            &&& v.thumbnail_size == r.thumbnail_size
            &&& v.thumbnail_media_type == r.thumbnail_media_type
            &&& v.revision == r.revision@ && v.range_data == r.range_data@
        }),
        ({
            let v = success_view();
            &&& v.ok && v.error is None
            &&& v.shares.len() == 0 && v.entries.len() == 0
            &&& v.next_cursor is None && v.entry is None
            &&& v.thumbnail_size == 0 && v.thumbnail_media_type is None
            &&& v.revision.len() == 0 && v.range_data.len() == 0
        }),
{
}

/// A part of a path is a name of at most 255 bytes that leads neither nowhere nor up.
pub proof fn lemma_parts_of_paths(s: Seq<char>)
    ensures
        valid_component(s) ==> 0 < s.len() && crate::text::utf8_len(s) <= 255 && s != "."@ && s
            != ".."@,
        0 < s.len() && crate::text::utf8_len(s) <= 255 && s != "."@ && s != ".."@
            ==> valid_component(s),
{
}

/// A response has a proper shape when it says either that it succeeded or why not, and
/// holds no more than it may.
pub proof fn lemma_proper_shapes(r: ResponseView, limits: RemoteFileLimits)
    ensures
        !shape_fault(r, limits) ==> {
            &&& r.ok != (r.error is Some)
            &&& r.error is Some ==> crate::text::utf8_len(r.error->0.message@) <= 8192
            &&& r.shares.len() <= 128
            &&& r.entries.len() <= 200
            &&& r.next_cursor is Some ==> crate::text::utf8_len(r.next_cursor->0@) <= 1024
                && crate::text::control_free(r.next_cursor->0@)
            &&& r.thumbnail_size <= limits.max_thumbnail_size
            &&& r.thumbnail_media_type is Some ==> crate::text::utf8_len(
                r.thumbnail_media_type->0@,
            ) <= 256
        },
        r.ok && r.error is None && r.shares.len() <= 128 && r.entries.len() <= 200
            && r.next_cursor is None && r.thumbnail_size == 0 && r.thumbnail_media_type is None
            ==> !shape_fault(r, limits),
        !r.ok && r.error is Some && crate::text::utf8_len(r.error->0.message@) <= 8192
            && r.shares.len() == 0 && r.entries.len() == 0 && r.next_cursor is None
            && r.thumbnail_size == 0 && r.thumbnail_media_type is None ==> !shape_fault(r, limits),
        r.ok && r.error is None && r.shares.len() == 0 && r.entries.len() == 0
            && r.next_cursor is None && 0 < r.thumbnail_size <= limits.max_thumbnail_size
            && r.thumbnail_media_type is Some && crate::text::utf8_len(
            r.thumbnail_media_type->0@,
        ) <= 256 ==> !shape_fault(r, limits),
{
}

} // verus!
