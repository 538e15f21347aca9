//! Features, statuses, questions, commands and synchronised clipboard entries.

use arcrelay_protocol::access::{
    core_error_code, feature_name, require_access, require_any_capability, require_capability,
    require_feature, valid_control_identifier, CommandFailure, CoreErrorKind, Denial,
};
use arcrelay_protocol::blob_store::BlobStore;
use arcrelay_protocol::clipboard_upload::ClipboardUploadStore;
use arcrelay_protocol::commands::{
    authorize_command, authorize_command_at, bounded_action_output, bounded_command_response,
    command_response, host_call, refresh_after, validate_command, validate_command_at, Command,
    CommandEnd, CommandOrigin, HostCall, Refresh,
};
use arcrelay_protocol::domain;
use arcrelay_protocol::domain::ClipboardContentKind;
use arcrelay_protocol::features::{
    feature, grant_to_proto, inbound_capabilities, negotiate_features, protocol_limits,
    selected_feature_versions, server_features, validate_receive_limits, Feature, FeatureVersion,
    HostOffer, SelectedFeatures, WireLimits,
};
use arcrelay_protocol::host::{HostCapabilityError, HostCapabilityErrorCode};
use arcrelay_protocol::peer::{
    has_capability, Grant, GrantConstraints, GrantDirection, PeerCapability,
};
use arcrelay_protocol::proto;
use arcrelay_protocol::queries::{
    authorize_query, bounded_connection_config, bounded_local_device, check_query_frame,
    clipboard_history_query, notification_limit, protocol_timestamp, protocol_timestamp_at,
    protocol_u64, snapshot_revision, sync_page_limit, validate_query, window_choice,
    window_sample, ClipboardRequest, Query, WindowSample, WindowsRequest,
};
use arcrelay_protocol::status::{ok_status, status, status_with, ErrorCode, RecoveryAction};
use arcrelay_protocol::sync_record::{
    clipboard_sync_id, sync_record_from_proto, sync_record_to_proto, valid_clipboard_blob_ref,
    validate_clipboard_sync_record, validate_clipboard_sync_record_at,
};
use sha2::{Digest, Sha256};
use xxhash_rust::xxh3::Xxh3;

const NOW: i64 = 1_700_000_000_000;

fn range(feature: Feature, min_version: u32, max_version: u32) -> FeatureVersion {
    FeatureVersion {
        feature,
        min_version,
        max_version,
    }
}

fn wire_limits() -> WireLimits {
    WireLimits {
        max_control_frame_bytes: 1 << 20,
        max_reliable_input_frame_bytes: 1 << 16,
        max_datagram_bytes: 1200,
        max_blob_chunk_bytes: 1 << 16,
        max_remote_file_message_bytes: 1 << 20,
        max_remote_file_content_bytes: 1 << 40,
        max_print_chunk_bytes: 1 << 16,
        max_print_document_bytes: 1 << 30,
    }
}

#[test]
fn selects_highest_overlapping_feature_version() {
    let client = [range(Feature::Clipboard, 1, 4)];
    let server = [range(Feature::Clipboard, 2, 3)];
    let selected = negotiate_features(&client, &server).unwrap();
    assert_eq!(selected.get(Feature::Clipboard), Some(3));
}

#[test]
fn rejects_duplicate_client_feature_ranges() {
    let feature = range(Feature::Clipboard, 1, 1);
    assert!(negotiate_features(&[feature, feature], &[]).is_err());
}

#[test]
fn optional_feature_limits_may_be_zero_when_the_feature_is_not_offered() {
    let mut limits = protocol_limits(&wire_limits());
    limits.max_datagram_bytes = 0;
    limits.max_print_chunk_bytes = 0;
    limits.max_print_document_bytes = 0;
    let features = [feature(Feature::Clipboard)];

    validate_receive_limits(Some(&limits), &features, &wire_limits()).unwrap();
}

#[test]
fn remote_files_advertise_the_typed_error_protocol_version() {
    let feature = feature(Feature::RemoteFiles);
    assert_eq!(feature.min_version, 2);
    assert_eq!(feature.max_version, 2);
}

#[test]
fn offered_features_require_a_usable_receive_limit() {
    let mut limits = protocol_limits(&wire_limits());
    limits.max_blob_chunk_bytes = 0;
    let features = [feature(Feature::Blobs)];

    let error = validate_receive_limits(Some(&limits), &features, &wire_limits()).unwrap_err();
    assert!(error.message().contains("max_blob_chunk_bytes"));
}

#[test]
fn receive_limits_are_required() {
    let error = validate_receive_limits(None, &[], &wire_limits()).unwrap_err();
    assert_eq!(error.message(), "client receive limits are required");
    let mut limits = protocol_limits(&wire_limits());
    limits.heartbeat_timeout_ms = 0;
    let error = validate_receive_limits(Some(&limits), &[], &wire_limits()).unwrap_err();
    assert_eq!(
        error.message(),
        "invalid client receive limit: heartbeat_timeout_ms"
    );
}

#[test]
fn features_without_overlap_are_left_out() {
    let client = [range(Feature::Media, 1, 1), range(Feature::System, 2, 9)];
    let server = [range(Feature::Media, 2, 3), range(Feature::System, 1, 2)];
    let selected = negotiate_features(&client, &server).unwrap();
    assert!(!selected.contains(Feature::Media));
    assert_eq!(
        selected_feature_versions(&selected),
        vec![range(Feature::System, 2, 2)]
    );
    let empty = [range(Feature::Media, 0, 1)];
    assert_eq!(
        negotiate_features(&empty, &server).unwrap_err().message(),
        "invalid client feature range"
    );
    let many = vec![range(Feature::Media, 1, 1); 65];
    assert_eq!(
        negotiate_features(&many, &server).unwrap_err().message(),
        "too many client features"
    );
}

#[test]
fn a_host_offers_what_it_can_do() {
    let nothing = HostOffer {
        actions: false,
        notifications: false,
        remote_files: false,
        input: false,
        workspace_input: false,
    };
    let offers = |offer: &HostOffer, which| {
        server_features(offer)
            .iter()
            .any(|version| version.feature == which)
    };
    assert!(offers(&nothing, Feature::System));
    assert!(!offers(&nothing, Feature::RemoteFiles));
    assert!(!offers(&nothing, Feature::InputReliable));
    let all = HostOffer {
        actions: true,
        notifications: true,
        remote_files: true,
        input: true,
        workspace_input: true,
    };
    for which in [
        Feature::Actions,
        Feature::Notifications,
        Feature::RemoteFiles,
        Feature::InputReliable,
        Feature::WorkspaceInput,
    ] {
        assert!(offers(&all, which), "{which:?}");
    }
}

fn grant(capability: PeerCapability, direction: GrantDirection) -> Grant {
    Grant {
        capability,
        direction,
        constraints: GrantConstraints::Unconstrained,
        granted_at_ms: 3,
    }
}

#[test]
fn only_inbound_grants_give_capabilities() {
    let grants = vec![
        grant(PeerCapability::MediaRead, GrantDirection::Inbound),
        grant(PeerCapability::MediaControl, GrantDirection::Outbound),
    ];
    let capabilities = inbound_capabilities(&grants);
    assert!(has_capability(&capabilities, PeerCapability::MediaRead));
    assert!(!has_capability(&capabilities, PeerCapability::MediaControl));
    let told = grant_to_proto(&grants[0]);
    assert_eq!(told.capability, PeerCapability::MediaRead);
    assert_eq!((told.direction, told.granted_at_ms), (GrantDirection::Inbound, 3));
    assert_eq!(told.constraints, None);
}

#[test]
fn status_exposes_machine_readable_recovery_semantics() {
    let conflict = status(ErrorCode::Conflict, "state changed");
    assert_eq!(conflict.code, ErrorCode::Conflict);
    assert_eq!(conflict.recovery_action, RecoveryAction::Refresh);
    assert!(!conflict.retryable);

    let unavailable = status(ErrorCode::Unavailable, "try later");
    assert_eq!(unavailable.recovery_action, RecoveryAction::RetryWithBackoff);
    assert!(unavailable.retryable);
}

#[test]
fn internal_status_hides_details_and_has_a_correlation_id() {
    let internal = status(ErrorCode::Internal, "database password leaked");
    assert_eq!(internal.message, "operation failed internally");
    assert!(!internal.error_id.is_empty());
    assert!(!internal.message.contains("password"));
}

#[test]
fn a_status_shows_a_bounded_message_and_a_given_number() {
    let long = status(ErrorCode::NotFound, &"x".repeat(10_000));
    assert_eq!(long.message.len(), 8_192);
    let numbered = status_with(ErrorCode::Internal, "secret".into(), 0xabc);
    assert!(numbered.error_id.ends_with("abc"), "{}", numbered.error_id);
    let fine = ok_status();
    assert_eq!(fine.code, ErrorCode::Success);
    assert!(fine.message.is_empty() && fine.error_id.is_empty());
}

#[test]
fn failures_of_the_host_become_codes() {
    let provider = CommandFailure::provider(HostCapabilityError::new(
        HostCapabilityErrorCode::NotFound,
        "no such action",
    ));
    assert_eq!(provider.code, ErrorCode::NotFound);
    assert_eq!(provider.message, "no such action");
    assert_eq!(CommandFailure::invalid("x").code, ErrorCode::InvalidArgument);
    assert_eq!(CommandFailure::internal("x").code, ErrorCode::Internal);
    assert_eq!(CommandFailure::unsupported("x").code, ErrorCode::Unsupported);
    for kind in [
        CoreErrorKind::OperationFailed,
        CoreErrorKind::NotFound,
        CoreErrorKind::Unsupported,
        CoreErrorKind::Unavailable,
        CoreErrorKind::Internal,
    ] {
        let failure = CommandFailure::service(kind, "core".into());
        assert_eq!(failure.code, core_error_code(kind));
        assert_eq!(failure.message, "core");
    }
    assert_eq!(core_error_code(CoreErrorKind::NotFound), ErrorCode::NotFound);
}

fn features(list: &[Feature]) -> SelectedFeatures {
    let mut selected = SelectedFeatures::new();
    for feature in list {
        selected.insert(*feature, 1);
    }
    selected
}

#[test]
fn access_needs_feature_and_capability() {
    let media = features(&[Feature::Media]);
    let read = vec![PeerCapability::MediaRead];
    assert_eq!(require_feature(&media, Feature::Media), Ok(()));
    assert_eq!(
        require_feature(&media, Feature::System),
        Err(Denial::MissingFeature(Feature::System))
    );
    assert_eq!(require_capability(&read, PeerCapability::MediaRead), Ok(()));
    let denied = require_capability(&read, PeerCapability::MediaControl).unwrap_err();
    assert_eq!(denied.capability(), Some(PeerCapability::MediaControl));
    let failure = denied.failure("media.control");
    assert_eq!(failure.code, ErrorCode::PermissionDenied);
    assert_eq!(failure.message, "capability media.control was not granted");
    assert_eq!(
        require_access(&media, &read, Feature::Media, PeerCapability::MediaRead),
        Ok(())
    );
    assert_eq!(
        require_any_capability(
            &read,
            &[PeerCapability::SystemRead, PeerCapability::MediaRead]
        ),
        Ok(())
    );
    assert_eq!(
        require_any_capability(&read, &[PeerCapability::SystemRead]),
        Err(Denial::MissingEveryCapability)
    );
    let missing = Denial::MissingFeature(Feature::Media).failure("");
    assert_eq!(missing.code, ErrorCode::Unsupported);
    assert_eq!(
        missing.message,
        format!("feature {} was not negotiated", feature_name(Feature::Media))
    );
    assert_eq!(
        Denial::BadRequest("empty query".into()).failure("").code,
        ErrorCode::InvalidArgument
    );
}

#[test]
fn identifiers_are_bounded_and_printable() {
    assert!(valid_control_identifier("automation-1"));
    assert!(!valid_control_identifier(""));
    assert!(!valid_control_identifier("bad\nidentifier"));
    assert!(valid_control_identifier(&"x".repeat(256)));
    assert!(!valid_control_identifier(&"x".repeat(257)));
}

#[test]
fn automation_commands_require_execute_actions_and_validate_identifiers() {
    let actions = features(&[Feature::Actions]);
    let capabilities = vec![PeerCapability::ActionExecute];
    for id in ["automation-1", "", "bad\nidentifier"] {
        for command in [
            Command::RunAutomation { automation_id: id.into() },
            Command::SetAutomationEnabled { automation_id: id.into(), enabled: true },
            Command::CancelAutomation { activity_id: id.into() },
        ] {
            let command = Some(command);
            assert_eq!(
                authorize_command(&command, &actions, &capabilities).is_ok(),
                id == "automation-1"
            );
            assert!(authorize_command(&command, &actions, &vec![]).is_err());
            assert!(authorize_command(&command, &features(&[]), &capabilities).is_err());
        }
    }
}

#[test]
fn clipboard_paste_requires_read_write_and_remote_input_capabilities() {
    let command = Some(Command::PasteClipboardRecord { record_id: 9 });
    let features = features(&[Feature::Clipboard, Feature::InputReliable]);
    let capabilities = vec![
        PeerCapability::ClipboardRead,
        PeerCapability::ClipboardWrite,
        PeerCapability::RemoteInputInject,
    ];

    assert!(authorize_command(&command, &features, &capabilities).is_ok());

    let without_remote_input = vec![
        PeerCapability::ClipboardRead,
        PeerCapability::ClipboardWrite,
    ];
    assert!(authorize_command(&command, &features, &without_remote_input).is_err());
}

#[test]
fn clipboard_paste_rejects_zero_record_id() {
    let command = Some(Command::PasteClipboardRecord { record_id: 0 });

    assert!(validate_command(&command).is_err());
}

#[test]
fn clipboard_management_commands_require_write_capability() {
    let command = Some(Command::SetClipboardFavorite {
        record_id: 9,
        favorite: true,
    });
    let features = features(&[Feature::Clipboard]);
    let write_capability = vec![PeerCapability::ClipboardWrite];
    let read_capability = vec![PeerCapability::ClipboardRead];

    assert!(authorize_command(&command, &features, &write_capability).is_ok());
    assert!(authorize_command(&command, &features, &read_capability).is_err());
}

#[test]
fn clipboard_policy_and_cursor_validation_are_bounded() {
    let invalid_policy = Some(Command::UpdateClipboardPolicy {
        policy: Some(proto::ClipboardPolicy {
            history_enabled: true,
            max_items: 0,
            max_bytes: 100 * 1024 * 1024,
            retention_days: 30,
            save_sensitive: false,
        }),
    });
    assert!(validate_command(&invalid_policy).is_err());

    let invalid_cursor = Some(Query::GetClipboard(ClipboardRequest {
        history_limit: 30,
        cursor_timestamp_ms: Some(1),
        cursor_id: None,
        search: String::new(),
        kinds: Vec::new(),
        favorite_only: false,
        label_ids: Vec::new(),
    }));
    assert!(validate_query(&invalid_cursor).is_err());
}

#[test]
fn malformed_commands_are_told_apart() {
    for (command, fault) in [
        (
            Command::PlaybackAction {
                action: proto::PlaybackAction::Unspecified,
            },
            "invalid playback action",
        ),
        (
            Command::SetSystemVolume { volume: 101 },
            "system volume must be between 0 and 100",
        ),
        (
            Command::SetAppVolume { app_name: "".into(), volume: 1 },
            "invalid application name",
        ),
        (
            Command::SetAppVolume { app_name: "a".into(), volume: 101 },
            "application volume must be between 0 and 100",
        ),
        (Command::KillProcess { pid: 0 }, "process id must be non-zero"),
        (
            Command::SetClipboard { content: "x".repeat(524_289) },
            "clipboard content is too large",
        ),
        (
            Command::DeleteClipboardRecord { record_id: 0 },
            "clipboard record id must be non-zero",
        ),
        (
            Command::CreateClipboardLabel { name: " ".into(), color: "red".into() },
            "clipboard label name is required",
        ),
        (
            Command::DeleteClipboardLabel { label_id: "".into() },
            "clipboard label id is required",
        ),
        (
            Command::UpdateClipboardPolicy { policy: None },
            "clipboard policy is required",
        ),
        (Command::FocusWindow { window_id: 0 }, "window id must be non-zero"),
        (Command::SwitchSpace { space_id: 0 }, "space id must be non-zero"),
        (
            Command::ExecuteQuickAction { action_id: "".into() },
            "invalid quick action id",
        ),
        (
            Command::CancelAutomation { activity_id: "".into() },
            "invalid automation activity id",
        ),
        (
            Command::MarkNotificationRead { notification_id: "".into() },
            "invalid notification id",
        ),
        (
            Command::ApplyClipboardSyncRecord { record: None },
            "clipboard sync record is required",
        ),
    ] {
        assert_eq!(validate_command_at(&Some(command), NOW), Err(fault));
    }
    assert_eq!(validate_command(&None), Err("empty command"));
    assert_eq!(
        authorize_command_at(&None, &features(&[]), &vec![], NOW),
        Err(Denial::BadRequest("empty command".into()))
    );
}

fn origin() -> CommandOrigin {
    CommandOrigin {
        device_id: "phone".into(),
        device_name: "Phone".into(),
        wall_now: NOW,
        now: 0,
    }
}

#[test]
fn commands_are_put_to_the_host() {
    let mut uploads = ClipboardUploadStore::new();
    let mut call = |command, provider| host_call(Some(command), provider, &mut uploads, &origin());
    assert_eq!(
        call(Command::SetSystemVolume { volume: 40 }, false),
        Ok(HostCall::SetSystemVolume { volume: 40 })
    );
    assert_eq!(
        call(
            Command::PlaybackAction {
                action: proto::PlaybackAction::Next
            },
            false
        ),
        Ok(HostCall::Playback {
            action: domain::PlaybackAction::Next
        })
    );
    let run = || Command::RunAutomation { automation_id: "a".into() };
    assert_eq!(
        call(run(), true),
        Ok(HostCall::RunAutomation { automation_id: "a".into() })
    );
    let failure = call(run(), false).unwrap_err();
    assert_eq!(failure.message, "automations unavailable");
    let failure = call(Command::ExecuteQuickAction { action_id: "a".into() }, false).unwrap_err();
    assert_eq!(failure.message, "quick actions are unavailable");
}

#[test]
fn a_notification_is_marked_in_the_name_of_the_device() {
    let mut uploads = ClipboardUploadStore::new();
    let mark = || Some(Command::MarkNotificationRead { notification_id: "n".into() });
    assert_eq!(
        host_call(mark(), true, &mut uploads, &origin()),
        Ok(HostCall::MarkNotificationRead {
            notification_id: "n".into(),
            device_id: "phone".into(),
            device_name: "Phone".into(),
        })
    );
    let tablet = CommandOrigin {
        device_id: "tablet".into(),
        device_name: "Tablet".into(),
        ..origin()
    };
    assert_eq!(
        host_call(mark(), true, &mut uploads, &tablet),
        Ok(HostCall::MarkNotificationRead {
            notification_id: "n".into(),
            device_id: "tablet".into(),
            device_name: "Tablet".into(),
        })
    );
    let failure = host_call(mark(), false, &mut uploads, &tablet).unwrap_err();
    assert_eq!(failure.message, "notifications are unavailable");
}

#[test]
fn some_commands_refresh_what_was_shown() {
    assert_eq!(
        refresh_after(&HostCall::SetMicrophone { active: true }),
        Refresh::Media
    );
    assert_eq!(
        refresh_after(&HostCall::SwitchSpace { space_id: 1 }),
        Refresh::Windows
    );
    assert_eq!(
        refresh_after(&HostCall::FocusWindow { window_id: 1 }),
        Refresh::Nothing
    );
    assert_eq!(refresh_after(&HostCall::ClearClipboardHistory), Refresh::Nothing);
}

#[test]
fn command_results_are_answered_and_bounded() {
    let returned = |call| CommandEnd::Returned { call, result: Ok("out".into()) };
    let done = command_response(4, returned(HostCall::ExecuteAction { action_id: "a".into() }));
    assert_eq!(done.request_id, 4);
    assert_eq!(done.output.as_deref(), Some("out"));
    let run = HostCall::RunAutomation { automation_id: "a".into() };
    assert_eq!(command_response(4, returned(run)).output.as_deref(), Some("out"));
    let cleared = command_response(4, returned(HostCall::ClearClipboardHistory));
    assert_eq!(cleared.output.as_deref(), Some(""));
    let failure = CommandFailure::invalid("bad");
    let failed = command_response(4, CommandEnd::Refused { failure });
    assert_eq!(failed.status.message, "bad");
    let result = Err(CommandFailure::invalid("bad"));
    let call = HostCall::ClearClipboardHistory;
    let failed = command_response(4, CommandEnd::Returned { call, result });
    assert_eq!((failed.status.message.as_str(), failed.output), ("bad", None));
    let kept = bounded_command_response(done, 100, 100);
    assert_eq!(kept.output.as_deref(), Some("out"));
    let cut = bounded_command_response(kept, 101, 100);
    assert_eq!(
        cut.status.message,
        "command result exceeds the negotiated control-frame limit"
    );
    assert_eq!(cut.output, None);
}

#[test]
fn the_last_lines_of_an_output_are_shown() {
    let lines: Vec<String> = (0..600).map(|index| format!("line {index}")).collect();
    let shown = bounded_action_output(lines);
    assert_eq!(shown.len(), 500);
    assert_eq!(shown[0], "line 100");
    assert_eq!(shown[499], "line 599");
    let wide = bounded_action_output(vec!["x".repeat(20_000)]);
    assert_eq!(wide[0].len(), 16_384);
}

#[test]
fn malformed_queries_are_told_apart() {
    let clipboard = |history_limit, kinds| {
        Query::GetClipboard(ClipboardRequest {
            history_limit,
            search: String::new(),
            cursor_timestamp_ms: None,
            cursor_id: None,
            kinds,
            favorite_only: false,
            label_ids: vec![],
        })
    };
    for (query, fault) in [
        (clipboard(201, vec![]), "clipboard history limit must not exceed 200"),
        (
            clipboard(1, vec![proto::ClipboardContentKind::Unspecified]),
            "invalid clipboard content kind",
        ),
        (
            Query::GetActionOutput { action_id: "".into() },
            "invalid quick action id",
        ),
        (
            Query::GetNotifications { include_read: true, limit: 101 },
            "notification limit must not exceed 100",
        ),
        (
            Query::GetClipboardSync { after_local_id: 0, limit: 201 },
            "clipboard sync page limit must not exceed 200",
        ),
    ] {
        assert_eq!(validate_query(&Some(query)), Err(fault));
    }
    assert_eq!(validate_query(&None), Err("empty query"));
}

#[test]
fn questions_need_feature_and_capability() {
    let query = Some(Query::GetMedia);
    let media = features(&[Feature::Media]);
    let read = vec![PeerCapability::MediaRead];
    assert_eq!(authorize_query(&query, &media, &read), Ok(()));
    assert_eq!(
        authorize_query(&query, &features(&[]), &read),
        Err(Denial::MissingFeature(Feature::Media))
    );
    assert_eq!(
        authorize_query(&query, &media, &vec![PeerCapability::MediaControl]),
        Err(Denial::MissingCapability(PeerCapability::MediaRead))
    );
}

#[test]
fn the_history_is_asked_for_in_pages() {
    let asked = clipboard_history_query(ClipboardRequest {
        history_limit: 0,
        search: "  report ".into(),
        cursor_timestamp_ms: Some(5),
        cursor_id: Some(6),
        kinds: vec![proto::ClipboardContentKind::Image],
        favorite_only: true,
        label_ids: vec!["work".into()],
    });
    assert_eq!(asked.limit, 20);
    assert_eq!(
        asked.cursor,
        Some(domain::ClipboardCursor { sort_at_ms: 5, id: 6 })
    );
    assert_eq!(asked.search.as_deref().map(str::trim), Some("report"));
    assert_eq!(asked.kinds, vec![ClipboardContentKind::Image]);
    assert!(asked.favorite_only);
    assert_eq!(asked.label_ids, vec!["work".to_string()]);
}

#[test]
fn windows_are_sampled_as_asked() {
    let asked = |include_thumbnails, ids: &[u32]| WindowsRequest {
        include_thumbnails,
        thumbnail_window_ids: ids.to_vec(),
    };
    assert_eq!(window_sample(asked(false, &[]), true), Ok(WindowSample::Plain));
    assert_eq!(window_sample(asked(true, &[]), true), Ok(WindowSample::EveryThumbnail));
    assert_eq!(
        window_sample(asked(true, &[3, 1, 3]), true),
        Ok(WindowSample::Thumbnails(window_choice(&vec![3, 1, 3])))
    );
    assert_eq!(window_choice(&vec![3, 1, 3]), vec![1, 3]);
    assert_eq!(window_sample(asked(true, &[]), false), Ok(WindowSample::Plain));
    let many: Vec<u32> = (1..=65).collect();
    assert_eq!(
        window_sample(asked(true, &many), true).unwrap_err().message,
        "at most 64 thumbnail window IDs are allowed"
    );
}

#[test]
fn numbers_are_kept_in_the_range_of_the_protocol() {
    assert_eq!(notification_limit(0), 50);
    assert_eq!(notification_limit(7), 7);
    assert_eq!(sync_page_limit(0), 1);
    assert_eq!(sync_page_limit(7), 7);
    assert_eq!(protocol_u64(u64::MAX), i64::MAX as u64);
    assert_eq!(protocol_u64(5), 5);
    assert_eq!(snapshot_revision(0), 1);
    assert_eq!(protocol_timestamp_at(0, 9), 9);
    assert_eq!(protocol_timestamp_at(4, 9), 4);
    assert!(protocol_timestamp(-1) > 1_600_000_000_000);
    assert_eq!(check_query_frame(10, 10), Ok(()));
    assert_eq!(
        check_query_frame(11, 10).unwrap_err().message,
        "query result exceeds the negotiated control-frame limit"
    );
}

#[test]
fn the_own_device_is_told_in_bounds() {
    let device = bounded_local_device(domain::LocalDeviceInfo {
        name: "M\u{7}ac".into(),
        ip: "127.0.0.1".into(),
        app_version: "1.2.3".into(),
        port: 8765,
    });
    assert_eq!((device.name.as_str(), device.port), ("M ac", 8765));
    let config = bounded_connection_config(domain::ConnectionConfig {
        port: 9999,
        encrypted: true,
        auto_reconnect: false,
    });
    assert_eq!((config.port, config.encrypted), (9999, true));
}

fn record(payload: proto::ClipboardPayload, kind: proto::ClipboardContentKind) -> proto::ClipboardSyncRecord {
    proto::ClipboardSyncRecord {
        sync_id: "a".repeat(64),
        kind,
        width: None,
        height: None,
        preview: "".into(),
        source_app: None,
        source_device_id: "".into(),
        source_device_name: "".into(),
        captured_at_ms: 1,
        revision: 1,
        updated_by_device_id: "".into(),
        favorite: false,
        favorite_revision: 1,
        favorite_updated_by_device_id: "".into(),
        labels: vec![],
        label_memberships: vec![],
        deleted: false,
        change_kind: proto::ClipboardSyncChangeKind::Copy,
        live: false,
        text_syntax_json: "".into(),
        payload: Some(payload),
    }
}

fn text_record() -> proto::ClipboardSyncRecord {
    record(
        proto::ClipboardPayload::Text("private text".into()),
        proto::ClipboardContentKind::Text,
    )
}

#[test]
fn protocol_v5_rich_text_record_validates_with_html_and_rtf_blobs() {
    let blob = |media_type: &str, marker: u8| proto::BlobRef {
        blob_id: vec![marker; 32],
        size: 128,
        media_type: media_type.into(),
        sha256: vec![marker; 32],
    };
    let rich = |rtf_type: &str| {
        let mut rich = record(
            proto::ClipboardPayload::RichText(proto::ClipboardRichTextPayload {
                plain_text: "Hello".into(),
                html: Some(blob("text/html; charset=utf-8", 1)),
                rtf: Some(blob(rtf_type, 2)),
            }),
            proto::ClipboardContentKind::Html,
        );
        rich.preview = "Hello".into();
        rich.source_app = Some("Tests".into());
        rich.source_device_id = "device-a".into();
        rich.source_device_name = "Device A".into();
        rich.updated_by_device_id = "device-a".into();
        rich.live = true;
        rich.favorite_updated_by_device_id = "device-a".into();
        rich.text_syntax_json = "\"plain\"".into();
        rich
    };

    assert!(validate_clipboard_sync_record(&rich("text/rtf")).is_ok());
    assert!(validate_clipboard_sync_record(&rich("text/plain")).is_err());
    assert!(valid_clipboard_blob_ref(&Some(blob("text/rtf", 2)), "text/rtf", 128));
    assert!(!valid_clipboard_blob_ref(&Some(blob("text/rtf", 2)), "text/rtf", 127));
    assert!(!valid_clipboard_blob_ref(&None, "text/rtf", 128));
}

#[test]
fn clipboard_metadata_errors_identify_the_field_without_echoing_content() {
    assert!(validate_clipboard_sync_record(&text_record()).is_ok());
    let mut invalid = text_record();
    invalid.favorite_revision = 0;
    assert_eq!(validate_clipboard_sync_record(&invalid), Err("invalid clipboard sync favorite revision"));
    let mut invalid = text_record();
    invalid.preview = "private preview".repeat(200);
    assert_eq!(validate_clipboard_sync_record(&invalid), Err("clipboard sync preview exceeds limit"));
    let mut invalid = text_record();
    invalid.labels.push(proto::ClipboardLabel {
        id: "".into(),
        name: "".into(),
        color: "".into(),
        revision: 0,
        updated_by_device_id: "".into(),
        deleted: false,
    });
    assert_eq!(validate_clipboard_sync_record(&invalid), Err("clipboard sync labels are not supported"));
}

#[test]
fn malformed_sync_records_are_told_apart() {
    let faulty = |spoil: &dyn Fn(&mut proto::ClipboardSyncRecord)| {
        let mut record = text_record();
        spoil(&mut record);
        validate_clipboard_sync_record_at(&record, NOW)
    };
    assert_eq!(
        faulty(&|r| r.sync_id = "short".into()),
        Err("invalid clipboard sync identifier")
    );
    assert_eq!(faulty(&|r| r.revision = 0), Err("invalid clipboard sync revision"));
    assert_eq!(
        faulty(&|r| r.captured_at_ms = NOW + 300_001),
        Err("invalid clipboard sync capture timestamp")
    );
    assert_eq!(faulty(&|r| r.captured_at_ms = NOW + 300_000), Ok(()));
    assert_eq!(
        faulty(&|r| r.kind = proto::ClipboardContentKind::Unspecified),
        Err("invalid clipboard sync kind")
    );
    assert_eq!(
        faulty(&|r| r.deleted = true),
        Err("deleted clipboard sync records cannot include payloads")
    );
    assert_eq!(
        faulty(&|r| r.kind = proto::ClipboardContentKind::Image),
        Err("synchronized image reference is required")
    );
    assert_eq!(
        faulty(&|r| r.kind = proto::ClipboardContentKind::Html),
        Err("synchronized rich text is required")
    );
    assert_eq!(
        faulty(&|r| r.kind = proto::ClipboardContentKind::Files),
        Err("synchronized file metadata cannot include payloads")
    );
    assert_eq!(faulty(&|r| r.payload = None), Err("invalid synchronized text payload"));
}

#[test]
fn clipboard_sync_id_matches_core_content_addressing() {
    let text = Some("ArcRelay".to_string());
    let actual = clipboard_sync_id(ClipboardContentKind::Text, &text, &None, &None, &None);
    let mut content = Xxh3::new();
    content.update(b"text\0");
    content.update(b"ArcRelay");
    let content_hash = format!("{:032x}", content.digest128());
    let mut sync = Sha256::new();
    sync.update(b"arcrelay-clipboard-sync-v1\0");
    sync.update(content_hash.as_bytes());
    assert_eq!(actual, format!("{:x}", sync.finalize()));
}

#[test]
fn equal_content_has_one_name_and_other_content_another() {
    let name = |text: &str| {
        clipboard_sync_id(
            ClipboardContentKind::Text,
            &Some(text.into()),
            &None,
            &None,
            &None,
        )
    };
    assert_eq!(name("a"), name("a"));
    assert_ne!(name("a"), name("b"));
    let image = clipboard_sync_id(
        ClipboardContentKind::Image,
        &None,
        &None,
        &None,
        &Some(vec![1, 2]),
    );
    assert_eq!(image.len(), 64);
}

#[test]
fn a_text_entry_is_sent_and_taken_in_again() {
    let text = "hello";
    let sync_id = clipboard_sync_id(
        ClipboardContentKind::Text,
        &Some(text.into()),
        &None,
        &None,
        &None,
    );
    let mut wire = text_record();
    wire.sync_id = sync_id.clone();
    wire.payload = Some(proto::ClipboardPayload::Text(text.into()));
    let mut uploads = ClipboardUploadStore::new();
    let mut taken =
        sync_record_from_proto(&wire, &mut uploads, "phone", "Phone", NOW, 0).unwrap();
    assert_eq!(taken.text.as_deref(), Some(text));
    assert_eq!(taken.source_device_id, "phone");
    assert_eq!(taken.source_device_name, "Phone");
    taken.text_syntax_json = Some("\"plain\"".into());
    let mut store = BlobStore::new();
    let sent = sync_record_to_proto(taken, &mut store, &[1; 32], NOW, 0).unwrap();
    assert_eq!(sent.sync_id, sync_id);
    assert_eq!(sent.text_syntax_json, "\"plain\"");
    assert_eq!(sent.payload, Some(proto::ClipboardPayload::Text(text.into())));
}

#[test]
fn rich_text_comes_by_uploads() {
    let html = b"<b>x</b>".to_vec();
    let digest = Sha256::digest(&html).to_vec();
    let mut wire = record(
        proto::ClipboardPayload::RichText(proto::ClipboardRichTextPayload {
            plain_text: "x".into(),
            html: Some(proto::BlobRef {
                blob_id: digest.clone(),
                size: html.len() as u64,
                media_type: "text/html; charset=utf-8".into(),
                sha256: digest.clone(),
            }),
            rtf: None,
        }),
        proto::ClipboardContentKind::Html,
    );
    wire.sync_id = clipboard_sync_id(
        ClipboardContentKind::Html,
        &Some("x".into()),
        &Some("<b>x</b>".into()),
        &None,
        &None,
    );
    let mut uploads = ClipboardUploadStore::new();
    assert_eq!(
        sync_record_from_proto(&wire, &mut uploads, "phone", "Phone", NOW, 0),
        Err("clipboard HTML upload is unavailable")
    );
    uploads
        .insert(digest.clone(), html, &digest, "text/html; charset=utf-8", 0)
        .unwrap();
    let mut taken =
        sync_record_from_proto(&wire, &mut uploads, "phone", "Phone", NOW, 0).unwrap();
    assert_eq!(taken.html.as_deref(), Some("<b>x</b>"));
    assert_eq!(taken.text.as_deref(), Some("x"));
    taken.text_syntax_json = Some("\"plain\"".into());
    let mut store = BlobStore::new();
    let sent = sync_record_to_proto(taken, &mut store, &[1; 32], NOW, 0).unwrap();
    assert_eq!(store.len(), 1);
    match sent.payload {
        Some(proto::ClipboardPayload::RichText(rich)) => {
            assert_eq!(rich.html.unwrap().blob_id, digest);
        }
        other => panic!("{other:?}"),
    }

    let broken = vec![0xff, 0xfe];
    let digest = Sha256::digest(&broken).to_vec();
    wire.payload = Some(proto::ClipboardPayload::RichText(
        proto::ClipboardRichTextPayload {
            plain_text: "x".into(),
            html: Some(proto::BlobRef {
                blob_id: digest.clone(),
                size: 2,
                media_type: "text/html; charset=utf-8".into(),
                sha256: digest.clone(),
            }),
            rtf: None,
        },
    ));
    uploads
        .insert(digest.clone(), broken, &digest, "text/html; charset=utf-8", 0)
        .unwrap();
    assert_eq!(
        sync_record_from_proto(&wire, &mut uploads, "phone", "Phone", NOW, 0),
        Err("clipboard HTML upload is not UTF-8")
    );
}
