//! Remote files: requests, access, answers and uploads.

use arcrelay_protocol::peer::{Grant, GrantConstraints, GrantDirection, PeerCapability};
use arcrelay_protocol::remote_file_stream::{
    after_copy, after_flush, after_modified, after_trailing, answer_done, answer_entry,
    answer_page, answer_range, answer_revision, answer_shares, answer_thumbnail, answer_upload,
    check_download, create_failed, finish_download, open_failed, plan_upload, publish_failed,
    remove_temporary, start_remote_file_stream, step_failed, ProviderCall, StreamStart,
    UploadAction, UploadPlan, UploadStep,
};
use arcrelay_protocol::remote_file_wire::{
    EntryInfo, RemoteFileRequestFrame, RemoteFileResponseFrame, RequestBody, WireEntryKind,
    WireErrorCode, WireSortDirection, WireSortKey,
};
use arcrelay_protocol::remote_files::{
    validate_file_name, validate_relative_path, validate_share_id, RemoteFileAccess,
    RemoteFileDirectoryPage, RemoteFileEntry, RemoteFileError, RemoteFileErrorCode,
    RemoteFileKind, RemoteFileLimits, RemoteFileRequest, RemoteFileResponse, RemoteFileShare,
    RemoteFileSortDirection, RemoteFileSortKey, RemoteFileThumbnail, RemoteFileUpload,
};

const LIMITS: RemoteFileLimits = RemoteFileLimits {
    max_content_size: 1 << 40,
    max_thumbnail_size: 1 << 20,
};

fn entry(name: &str, size: u64) -> RemoteFileEntry {
    RemoteFileEntry {
        name: name.into(),
        relative_path: name.into(),
        kind: RemoteFileKind::File,
        size,
        modified_at_ms: 0,
    }
}

#[test]
fn a_request_without_a_body_is_refused() {
    let error = RemoteFileRequest::decode_wire(RemoteFileRequestFrame { body: None }).unwrap_err();
    assert_eq!(error, "remote file request body is missing");
}

#[test]
fn request_and_response_round_trip() {
    let request = RemoteFileRequest::ListDirectory {
        share_id: "home".into(),
        relative_path: "Projects".into(),
        cursor: Some("100".into()),
        limit: 100,
        search: Some("report".into()),
        sort_key: RemoteFileSortKey::Modified,
        sort_direction: RemoteFileSortDirection::Descending,
    };
    let decoded = RemoteFileRequest::decode_wire(request.encode_wire().unwrap()).unwrap();
    assert_eq!(decoded, request);
}

#[test]
fn error_response_round_trip_preserves_machine_code() {
    let response = RemoteFileResponse::failure(
        RemoteFileErrorCode::PermissionDenied,
        "write access is not permitted",
    );
    let decoded =
        RemoteFileResponse::decode_wire(response.encode_wire(&LIMITS).unwrap(), &LIMITS).unwrap();
    assert_eq!(decoded, response);
    assert_eq!(
        decoded.error.unwrap().code,
        RemoteFileErrorCode::PermissionDenied
    );
}

#[test]
fn upload_request_without_revision_uses_optional_field_default() {
    let request = RemoteFileRequest::decode_wire(RemoteFileRequestFrame {
        body: Some(RequestBody::Upload {
            share_id: "home".into(),
            relative_path: "".into(),
            name: "notes.txt".into(),
            size: 4,
            overwrite: true,
            expected_modified_at_ms: None,
        }),
    })
    .unwrap();
    assert_eq!(
        request,
        RemoteFileRequest::Upload {
            share_id: "home".into(),
            relative_path: "".into(),
            name: "notes.txt".into(),
            size: 4,
            overwrite: true,
            expected_modified_at_ms: None,
        }
    );
}

#[test]
fn unspecified_directory_options_use_bounded_defaults() {
    let request = RemoteFileRequest::decode_wire(RemoteFileRequestFrame {
        body: Some(RequestBody::ListDirectory {
            share_id: "home".into(),
            relative_path: "".into(),
            cursor: None,
            limit: 0,
            search: None,
            sort_key: WireSortKey::Unspecified,
            sort_direction: WireSortDirection::Unspecified,
        }),
    })
    .unwrap();
    assert_eq!(
        request,
        RemoteFileRequest::ListDirectory {
            share_id: "home".into(),
            relative_path: "".into(),
            cursor: None,
            limit: 0,
            search: None,
            sort_key: RemoteFileSortKey::Name,
            sort_direction: RemoteFileSortDirection::Ascending,
        }
    );
    assert_eq!(RemoteFileSortKey::default(), RemoteFileSortKey::Name);
    assert_eq!(RemoteFileSortDirection::default(), RemoteFileSortDirection::Ascending);
}

#[test]
fn unknown_directory_options_are_refused() {
    let list = |sort_key, sort_direction| RemoteFileRequestFrame {
        body: Some(RequestBody::ListDirectory {
            share_id: "home".into(),
            relative_path: "".into(),
            cursor: None,
            limit: 0,
            search: None,
            sort_key,
            sort_direction,
        }),
    };
    assert_eq!(
        RemoteFileRequest::decode_wire(list(WireSortKey::Unknown, WireSortDirection::Ascending)),
        Err("invalid remote file sort key".to_string())
    );
    assert_eq!(
        RemoteFileRequest::decode_wire(list(WireSortKey::Size, WireSortDirection::Unknown)),
        Err("invalid remote file sort direction".to_string())
    );
}

fn every_request() -> Vec<RemoteFileRequest> {
    vec![
        RemoteFileRequest::ListShares,
        RemoteFileRequest::CreateDirectory {
            share_id: "home".into(),
            relative_path: "a".into(),
            name: "b".into(),
        },
        RemoteFileRequest::Rename {
            share_id: "home".into(),
            relative_path: "a".into(),
            new_name: "b".into(),
        },
        RemoteFileRequest::Delete {
            share_id: "home".into(),
            relative_path: "a".into(),
        },
        RemoteFileRequest::Download {
            share_id: "home".into(),
            relative_path: "a".into(),
        },
        RemoteFileRequest::Thumbnail {
            share_id: "home".into(),
            relative_path: "a".into(),
            max_dimension: 320,
        },
        RemoteFileRequest::Stat {
            share_id: "home".into(),
            relative_path: "a".into(),
        },
        RemoteFileRequest::ReadRange {
            share_id: "home".into(),
            relative_path: "a".into(),
            offset: 1,
            length: 2,
            revision: "v1".into(),
        },
        RemoteFileRequest::Move {
            share_id: "home".into(),
            relative_path: "a".into(),
            destination_path: "b".into(),
            overwrite: true,
            expected_revision: "v1".into(),
        },
        RemoteFileRequest::ConditionalDelete {
            share_id: "home".into(),
            relative_path: "a".into(),
            expected_revision: "v1".into(),
            recursive: true,
        },
        RemoteFileRequest::ConditionalUpload {
            share_id: "home".into(),
            relative_path: "".into(),
            name: "a".into(),
            size: 0,
            expected_revision: "".into(),
        },
    ]
}

#[test]
fn every_request_survives_its_travels() {
    let names = [
        "list_shares",
        "create_directory",
        "rename",
        "delete",
        "download",
        "thumbnail",
        "stat",
        "read_range",
        "move",
        "conditional_delete",
        "conditional_upload",
    ];
    for (request, name) in every_request().into_iter().zip(names) {
        assert_eq!(request.operation_name(), name);
        let decoded = RemoteFileRequest::decode_wire(request.encode_wire().unwrap()).unwrap();
        assert_eq!(decoded, request);
    }
}

#[test]
fn a_full_response_survives_its_travels() {
    let mut response = RemoteFileResponse::success();
    response.shares.push(RemoteFileShare {
        id: "home".into(),
        name: "Home".into(),
        writable: true,
    });
    response.entries.push(entry("a.txt", 3));
    response.next_cursor = Some("2".into());
    let mut folder = entry("b", 0);
    folder.kind = RemoteFileKind::Folder;
    response.entry = Some(folder);
    response.revision = "v3".into();
    response.range_data = vec![1, 2, 3];
    let frame = response.encode_wire(&LIMITS).unwrap();
    assert_eq!(frame.entry.as_ref().unwrap().kind, WireEntryKind::Folder);
    assert_eq!(RemoteFileResponse::decode_wire(frame, &LIMITS).unwrap(), response);
}

fn empty_frame() -> RemoteFileResponseFrame {
    RemoteFileResponse::success().encode_wire(&LIMITS).unwrap()
}

#[test]
fn malformed_responses_are_refused() {
    let mut frame = empty_frame();
    frame.ok = false;
    frame.error = Some("no".into());
    assert_eq!(
        RemoteFileResponse::decode_wire(frame, &LIMITS),
        Err("remote file response error code and message must appear together".to_string())
    );

    let mut frame = empty_frame();
    frame.ok = false;
    frame.error = Some("no".into());
    frame.error_code = Some(WireErrorCode::Unknown);
    assert_eq!(
        RemoteFileResponse::decode_wire(frame, &LIMITS),
        Err("invalid remote file error code".to_string())
    );

    let mut frame = empty_frame();
    frame.entries.push(EntryInfo {
        name: "a".into(),
        relative_path: "a".into(),
        kind: WireEntryKind::Unspecified,
        size: 0,
        modified_at_ms: 0,
    });
    assert_eq!(
        RemoteFileResponse::decode_wire(frame, &LIMITS),
        Err("invalid remote file entry kind".to_string())
    );
}

#[test]
fn responses_are_checked() {
    let mut response = RemoteFileResponse::success();
    assert_eq!(response.validate(&LIMITS), Ok(()));
    response.entry = Some(entry("big", LIMITS.max_content_size + 1));
    assert_eq!(
        response.validate(&LIMITS),
        Err("remote file entry exceeds the content limit".to_string())
    );

    let mut response = RemoteFileResponse::success();
    response.thumbnail_size = LIMITS.max_thumbnail_size + 1;
    assert_eq!(response.validate(&LIMITS), Err("invalid remote file response".to_string()));

    let mut response = RemoteFileResponse::success();
    response.shares.push(RemoteFileShare {
        id: "home".into(),
        name: "".into(),
        writable: false,
    });
    assert_eq!(response.validate(&LIMITS), Err("invalid remote file share".to_string()));

    let mut response = RemoteFileResponse::failure(RemoteFileErrorCode::NotFound, "gone");
    assert_eq!(response.validate(&LIMITS), Ok(()));
    response.ok = true;
    assert!(response.validate(&LIMITS).is_err());
}

#[test]
fn identifiers_and_paths_are_checked() {
    assert_eq!(validate_share_id("home"), Ok(()));
    assert_eq!(validate_share_id(""), Err("invalid remote file share id".to_string()));
    assert_eq!(validate_share_id(&"s".repeat(300)).is_err(), true);
    assert_eq!(validate_relative_path(""), Ok(()));
    assert_eq!(validate_relative_path("a/b.txt"), Ok(()));
    for path in ["/a", "a//b", "../a", "a/./b", "a\\b", "a\0"] {
        assert_eq!(
            validate_relative_path(path),
            Err("invalid remote file path".to_string()),
            "{path}"
        );
    }
    assert_eq!(validate_file_name("notes.txt"), Ok(()));
    for name in ["", ".", "..", "a/b", "a\\b", "bad\u{1}"] {
        assert_eq!(
            validate_file_name(name),
            Err("invalid remote file name".to_string()),
            "{name}"
        );
    }
}

#[test]
fn queries_of_directories_and_thumbnails_are_bounded() {
    let list = |limit, search: Option<&str>| RemoteFileRequest::ListDirectory {
        share_id: "home".into(),
        relative_path: "".into(),
        cursor: None,
        limit,
        search: search.map(str::to_owned),
        sort_key: RemoteFileSortKey::Type,
        sort_direction: RemoteFileSortDirection::Ascending,
    };
    assert_eq!(list(200, Some("x")).validate(), Ok(()));
    assert_eq!(
        list(201, None).validate(),
        Err("invalid remote directory query".to_string())
    );
    assert!(list(1, Some(&"x".repeat(513))).validate().is_err());
    let thumbnail = |max_dimension| RemoteFileRequest::Thumbnail {
        share_id: "home".into(),
        relative_path: "a".into(),
        max_dimension,
    };
    assert_eq!(thumbnail(16).validate(), Ok(()));
    assert_eq!(thumbnail(4096).validate(), Ok(()));
    for bad in [15, 4097] {
        assert_eq!(
            thumbnail(bad).validate(),
            Err("invalid thumbnail dimensions".to_string())
        );
    }
}

fn grant(capability: PeerCapability, constraints: GrantConstraints) -> Grant {
    Grant {
        capability,
        direction: GrantDirection::Inbound,
        constraints,
        granted_at_ms: 1,
    }
}

#[test]
fn grants_decide_what_can_be_read_and_written() {
    let shares = |writable| GrantConstraints::RemoteFileShares {
        share_ids: vec!["home".into()],
        writable,
    };
    let none = RemoteFileAccess::default();
    assert!(!none.can_list_shares() && !none.can_read("home") && !none.can_write("home"));

    let grants = vec![
        grant(PeerCapability::RemoteFilesRead, shares(false)),
        grant(PeerCapability::RemoteFilesWrite, shares(false)),
    ];
    let access = RemoteFileAccess::from_grants(&grants, GrantDirection::Inbound);
    assert!(access.can_list_shares());
    assert!(access.can_read("home") && !access.can_read("work"));
    assert!(!access.can_write("home"));
    let outbound = RemoteFileAccess::from_grants(&grants, GrantDirection::Outbound);
    assert!(!outbound.can_list_shares());

    let grants = vec![grant(PeerCapability::RemoteFilesWrite, shares(true))];
    let access = RemoteFileAccess::from_grants(&grants, GrantDirection::Inbound);
    assert!(access.can_write("home") && !access.can_write("work"));

    let grants = vec![grant(
        PeerCapability::RemoteFilesRead,
        GrantConstraints::Unconstrained,
    )];
    let access = RemoteFileAccess::from_grants(&grants, GrantDirection::Inbound);
    assert!(access.can_read("anything") && !access.can_write("anything"));
    assert!(RemoteFileAccess::allow_all().can_write("anything"));
}

fn start(request: RemoteFileRequest, access: &RemoteFileAccess) -> StreamStart {
    start_remote_file_stream(request, true, access, &LIMITS)
}

fn refusal(start: StreamStart) -> RemoteFileError {
    match start {
        StreamStart::Answer(response) => response.error.unwrap(),
        StreamStart::Call(call) => panic!("unexpected call {call:?}"),
    }
}

#[test]
fn remote_file_stream_routes_authenticated_requests() {
    let access = RemoteFileAccess::allow_all();
    assert_eq!(
        start(RemoteFileRequest::ListShares, &access),
        StreamStart::Call(ProviderCall::ListShares)
    );
    let response = answer_shares(
        &access,
        Ok(vec![RemoteFileShare {
            id: "home".into(),
            name: "Home".into(),
            writable: true,
        }]),
    );
    assert!(response.ok);
    assert_eq!(response.shares[0].id, "home");
}

#[test]
fn without_a_provider_nothing_is_available() {
    let start = start_remote_file_stream(
        RemoteFileRequest::ListShares,
        false,
        &RemoteFileAccess::allow_all(),
        &LIMITS,
    );
    let error = refusal(start);
    assert_eq!(error.code, RemoteFileErrorCode::Unavailable);
    assert_eq!(error.message, "remote files are unavailable");
}

#[test]
fn system_file_operations_require_explicit_peer_permissions() {
    for request in [
        RemoteFileRequest::Stat { share_id: "home".into(), relative_path: "".into() },
        RemoteFileRequest::ReadRange { share_id: "home".into(), relative_path: "a".into(), offset: 0, length: 1, revision: "v1".into() },
        RemoteFileRequest::Move { share_id: "home".into(), relative_path: "a".into(), destination_path: "b".into(), overwrite: false, expected_revision: "v1".into() },
        RemoteFileRequest::ConditionalDelete { share_id: "home".into(), relative_path: "a".into(), expected_revision: "v1".into(), recursive: true },
        RemoteFileRequest::ConditionalUpload { share_id: "home".into(), relative_path: "".into(), name: "a".into(), size: 0, expected_revision: "".into() },
    ] {
        let error = refusal(start(request, &RemoteFileAccess::default()));
        assert_eq!(error.code, RemoteFileErrorCode::PermissionDenied);
    }
}

#[test]
fn no_request_reaches_the_provider_without_access() {
    for request in every_request() {
        let error = refusal(start(request, &RemoteFileAccess::default()));
        assert_eq!(error.code, RemoteFileErrorCode::PermissionDenied);
    }
    for request in every_request() {
        assert!(matches!(
            start(request, &RemoteFileAccess::allow_all()),
            StreamStart::Call(_)
        ));
    }
}

#[test]
fn directory_pages_have_a_default_size() {
    let request = RemoteFileRequest::ListDirectory {
        share_id: "home".into(),
        relative_path: "".into(),
        cursor: None,
        limit: 0,
        search: None,
        sort_key: RemoteFileSortKey::Name,
        sort_direction: RemoteFileSortDirection::Ascending,
    };
    match start(request, &RemoteFileAccess::allow_all()) {
        StreamStart::Call(ProviderCall::ListDirectory { limit, .. }) => assert_eq!(limit, 100),
        other => panic!("{other:?}"),
    }
}

#[test]
fn a_device_sees_only_its_shares() {
    let grants = vec![grant(
        PeerCapability::RemoteFilesRead,
        GrantConstraints::RemoteFileShares {
            share_ids: vec!["home".into()],
            writable: true,
        },
    )];
    let access = RemoteFileAccess::from_grants(&grants, GrantDirection::Inbound);
    let share = |id: &str| RemoteFileShare {
        id: id.into(),
        name: id.into(),
        writable: true,
    };
    let response = answer_shares(&access, Ok(vec![share("home"), share("work")]));
    assert_eq!(response.shares.len(), 1);
    assert_eq!(response.shares[0].id, "home");
    assert!(!response.shares[0].writable);
}

fn failed<T>() -> Result<T, RemoteFileError> {
    Err(RemoteFileError::new(RemoteFileErrorCode::NotFound, "gone"))
}

#[test]
fn what_the_provider_reports_is_answered() {
    assert_eq!(answer_done(Ok(())), RemoteFileResponse::success());
    assert_eq!(answer_entry(Ok(entry("a", 1))).entry, Some(entry("a", 1)));
    let page = answer_page(Ok(RemoteFileDirectoryPage {
        entries: vec![entry("a", 1)],
        next_cursor: Some("1".into()),
    }));
    assert_eq!(page.entries, vec![entry("a", 1)]);
    assert_eq!(page.next_cursor.as_deref(), Some("1"));
    let revision = answer_revision(Ok((entry("a", 1), "v9".into())));
    assert_eq!((revision.entry, revision.revision.as_str()), (Some(entry("a", 1)), "v9"));
    let range = answer_range(Ok(vec![5, 6]), "v1".into());
    assert_eq!((range.range_data, range.revision.as_str()), (vec![5, 6], "v1"));
    for response in [
        answer_done(failed()),
        answer_entry(failed()),
        answer_page(failed()),
        answer_revision(failed()),
        answer_range(failed(), "v1".into()),
    ] {
        assert!(!response.ok);
        assert_eq!(response.error.unwrap().code, RemoteFileErrorCode::NotFound);
    }
}

#[test]
fn remote_file_stream_reads_downloaded_bytes() {
    let bytes = b"remote download bytes";
    let request = RemoteFileRequest::Download {
        share_id: "home".into(),
        relative_path: "download.txt".into(),
    };
    assert_eq!(
        start(request, &RemoteFileAccess::allow_all()),
        StreamStart::Call(ProviderCall::PrepareDownload {
            share_id: "home".into(),
            relative_path: "download.txt".into(),
        })
    );
    let found = check_download(Ok(entry("download.txt", bytes.len() as u64))).unwrap();
    let response = answer_entry(Ok(found));
    assert!(response.ok);
    assert_eq!(response.entry.unwrap().size, 21);
    assert_eq!(finish_download(21, 21), Ok(()));
    assert!(finish_download(20, 21).is_err());
}

#[test]
fn a_folder_is_not_downloaded() {
    let mut folder = entry("Projects", 0);
    folder.kind = RemoteFileKind::Folder;
    assert!(check_download(Ok(folder)).is_err());
    assert_eq!(
        check_download(failed()).unwrap_err().error.unwrap().code,
        RemoteFileErrorCode::NotFound
    );
    assert!(!open_failed("denied").ok);
}

#[test]
fn remote_file_stream_transfers_thumbnail_bytes() {
    let bytes = b"small png thumbnail".to_vec();
    let expected = bytes.clone();
    let (response, received) = answer_thumbnail(Ok(Some(RemoteFileThumbnail {
        bytes,
        media_type: "image/png".into(),
    })));
    assert!(response.ok);
    assert_eq!(response.thumbnail_size, expected.len() as u64);
    assert_eq!(response.thumbnail_media_type.as_deref(), Some("image/png"));
    assert_eq!(received, Some(expected));

    let (response, received) = answer_thumbnail(failed());
    assert!(!response.ok && received.is_none());
}

/// The file system of one upload: what the destination holds, and whether the
/// temporary file is still there.
fn run_system_file_upload(
    original: Option<&[u8]>,
    bytes: &[u8],
    declared_size: u64,
    overwrite: bool,
    expected: Option<&str>,
) -> (RemoteFileResponse, Vec<u8>) {
    let request = match expected {
        Some(expected) => RemoteFileRequest::ConditionalUpload {
            share_id: "home".into(),
            relative_path: "".into(),
            name: "document.txt".into(),
            size: declared_size,
            expected_revision: expected.into(),
        },
        None => RemoteFileRequest::Upload {
            share_id: "home".into(),
            relative_path: "".into(),
            name: "document.txt".into(),
            size: declared_size,
            overwrite,
            expected_modified_at_ms: None,
        },
    };
    let (upload, plan, size) = match start(request, &RemoteFileAccess::allow_all()) {
        StreamStart::Call(ProviderCall::PrepareUpload {
            share_id,
            relative_path,
            name,
            size,
            overwrite,
            expected_revision,
            ..
        }) => {
            let upload = RemoteFileUpload {
                destination: "document.txt".into(),
                entry: entry(&name, size),
                overwrite,
                expected_modified_at_ms: None,
            };
            let plan =
                plan_upload(&upload, share_id, relative_path, name, size, expected_revision);
            (upload, plan, size)
        }
        other => panic!("{other:?}"),
    };
    let mut destination = original.map(<[u8]>::to_vec);
    let taken = bytes.len().min(size as usize);
    let temporary = bytes[..taken].to_vec();
    let mut action = after_copy(&plan, taken as u64);
    let result = loop {
        action = match action {
            UploadAction::CheckTrailing => after_trailing(bytes.len() - taken),
            UploadAction::Flush => after_flush(&plan, taken as u64),
            UploadAction::Commit(commit) => {
                assert_eq!(commit.share_id, "home");
                assert_eq!(Some(commit.expected_revision.as_str()), expected);
                break if commit.expected_revision == "v1" {
                    destination = Some(temporary.clone());
                    Ok(Some((entry(&commit.name, taken as u64), "v2".to_string())))
                } else {
                    Err(RemoteFileError::new(RemoteFileErrorCode::Conflict, "stale revision"))
                };
            }
            UploadAction::CheckModified => after_modified(&plan, Some(0)),
            UploadAction::Publish { replace } => {
                break if destination.is_some() && !replace {
                    Err(publish_failed(true, "already exists"))
                } else {
                    destination = Some(temporary.clone());
                    Ok(None)
                };
            }
            UploadAction::Fail(error) => break Err(error),
        };
    };
    (answer_upload(result, upload.entry), destination.unwrap())
}

#[test]
fn remote_file_stream_writes_uploaded_bytes() {
    let bytes = b"real remote file bytes";
    let (completed, content) = run_system_file_upload(None, bytes, bytes.len() as u64, true, None);
    assert!(completed.ok, "{:?}", completed.error);
    assert_eq!(content, bytes);
}

#[test]
fn system_file_upload_supports_empty_creation_and_truncation() {
    for original in [None, Some(b"old contents".as_slice())] {
        let (response, content) = run_system_file_upload(original, b"", 0, true, None);
        assert!(response.ok, "{:?}", response.error);
        assert!(content.is_empty());
    }
}

#[test]
fn conditional_upload_returns_committed_version_and_preserves_original_on_errors() {
    let (response, content) =
        run_system_file_upload(Some(b"original"), b"", 0, true, Some("v1"));
    assert!(response.ok);
    assert_eq!(response.revision, "v2");
    assert!(content.is_empty());
    for (bytes, size, revision, code) in [
        (b"replacement".as_slice(), 11, "stale", RemoteFileErrorCode::Conflict),
        (b"partial".as_slice(), 100, "v1", RemoteFileErrorCode::Unavailable),
        (b"too long".as_slice(), 2, "v1", RemoteFileErrorCode::InvalidArgument),
    ] {
        let (response, content) =
            run_system_file_upload(Some(b"original"), bytes, size, true, Some(revision));
        assert_eq!(response.error.unwrap().code, code);
        assert_eq!(content, b"original");
    }
}

#[test]
fn system_file_interrupted_save_preserves_original() {
    let (response, content) =
        run_system_file_upload(Some(b"original"), b"partial", 100, true, None);
    assert!(!response.ok);
    assert_eq!(
        response.error.unwrap().message,
        "upload ended early: expected 100 bytes, received 7"
    );
    assert_eq!(content, b"original");
}

#[test]
fn system_file_create_does_not_replace_existing_destination() {
    let (response, content) =
        run_system_file_upload(Some(b"original"), b"replacement", 11, false, None);
    assert_eq!(response.error.unwrap().code, RemoteFileErrorCode::Conflict);
    assert_eq!(content, b"original");
}

#[test]
fn system_file_save_replaces_existing_destination() {
    let (response, content) =
        run_system_file_upload(Some(b"original"), b"replacement", 11, true, None);
    assert!(response.ok, "{:?}", response.error);
    assert_eq!(content, b"replacement");
}

#[test]
fn an_upload_over_a_changed_file_is_a_conflict() {
    let plan = UploadPlan {
        size: 3,
        overwrite: true,
        expected_modified_at_ms: Some(7),
        commit: None,
    };
    assert_eq!(after_copy(&plan, 3), UploadAction::Flush);
    assert_eq!(after_flush(&plan, 3), UploadAction::CheckModified);
    assert_eq!(after_modified(&plan, Some(7)), UploadAction::Publish { replace: true });
    match after_modified(&plan, Some(8)) {
        UploadAction::Fail(error) => assert_eq!(error.code, RemoteFileErrorCode::Conflict),
        other => panic!("{other:?}"),
    }
    match after_modified(&plan, None) {
        UploadAction::Fail(error) => assert_eq!(error.code, RemoteFileErrorCode::NotFound),
        other => panic!("{other:?}"),
    }
    assert!(remove_temporary(false, &plan));
    assert!(!remove_temporary(true, &plan));
}

#[test]
fn an_upload_that_is_too_large_is_refused() {
    let request = RemoteFileRequest::Upload {
        share_id: "home".into(),
        relative_path: "".into(),
        name: "big".into(),
        size: LIMITS.max_content_size + 1,
        overwrite: true,
        expected_modified_at_ms: None,
    };
    let error = refusal(start(request, &RemoteFileAccess::allow_all()));
    assert_eq!(error.code, RemoteFileErrorCode::ResourceExhausted);
    assert_eq!(error.message, "remote file size exceeds the limit");
}

#[test]
fn failed_steps_of_an_upload_are_told_apart() {
    assert_eq!(create_failed(true, "x").code, RemoteFileErrorCode::PermissionDenied);
    assert_eq!(create_failed(false, "x").message, "failed to create upload file: x");
    assert_eq!(publish_failed(false, "x").code, RemoteFileErrorCode::Unavailable);
    assert_eq!(publish_failed(true, "x").message, "failed to commit uploaded file: x");
    for (step, message) in [
        (UploadStep::Copy, "upload stream failed: x"),
        (UploadStep::TrailingTimeout, "upload did not finish"),
        (UploadStep::TrailingRead, "x"),
        (UploadStep::Flush, "failed to flush upload: x"),
        (UploadStep::Synchronize, "failed to synchronize upload: x"),
    ] {
        let error = step_failed(step, "x");
        assert_eq!(error.code, RemoteFileErrorCode::Unavailable);
        assert_eq!(error.message, message);
    }
}
