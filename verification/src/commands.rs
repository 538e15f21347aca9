//! What a client may ask the host to do, how each command is put to the host,
//! and what the client is answered.

use vstd::prelude::*;
use vstd::string::*;

use crate::access::{
    require_access, require_capability, valid_control_identifier, CommandFailure, Denial,
};
use crate::clipboard_upload::ClipboardUploadStore;
use crate::command_cache::{command_error, CommandResponse};
use crate::domain;
use crate::features::{Feature, SelectedFeatures};
use crate::peer::PeerCapability;
use crate::proto;
use crate::proto_msg::playback_action_from_proto;
use crate::status::{ok_status, ErrorCode};
use crate::sync_record::{sync_record_from_proto, validate_clipboard_sync_record_at};
use crate::text::{byte_len, is_blank, truncate_utf8};

verus! {

/// The longest text that a client may put on the clipboard, in bytes.
pub const MAX_CLIPBOARD_TEXT_BYTES: usize = 524_288;

/// The longest output of a command, in bytes.
pub const MAX_COMMAND_OUTPUT_BYTES: usize = 262_144;

/// The longest line of an action's output, in bytes.
pub const MAX_ACTION_OUTPUT_LINE_BYTES: usize = 16_384;

/// The most lines of an action's output.
pub const MAX_ACTION_OUTPUT_LINES: usize = 500;

/// The longest output of an action, in bytes.
pub const MAX_ACTION_OUTPUT_SNAPSHOT_BYTES: usize = 524_288;

/// How long after a change the media state is pushed, in milliseconds.
pub const MEDIA_REFRESH_DELAY_MS: u64 = 50;

/// How long after a switch of spaces the windows are pushed, in milliseconds.
pub const WINDOW_REFRESH_DELAY_MS: u64 = 200;

/// Something that the host is asked to do.
#[derive(Debug, PartialEq, Eq)]
pub enum Command {
    PlaybackAction { action: proto::PlaybackAction },
    SetSystemVolume { volume: u32 },
    SetAppVolume { app_name: String, volume: u32 },
    SetMicrophone { active: bool },
    SetDnd { active: bool },
    KillProcess { pid: u32 },
    SetClipboard { content: String },
    ClearClipboardHistory,
    PasteClipboardRecord { record_id: u64 },
    DeleteClipboardRecord { record_id: u64 },
    SetClipboardFavorite { record_id: u64, favorite: bool },
    CreateClipboardLabel { name: String, color: String },
    UpdateClipboardLabel { label_id: String, name: String, color: String },
    DeleteClipboardLabel { label_id: String },
    SetClipboardLabels { record_id: u64, label_ids: Vec<String> },
    UpdateClipboardPolicy { policy: Option<proto::ClipboardPolicy> },
    FocusWindow { window_id: u32 },
    SwitchSpace { space_id: u64 },
    ExecuteQuickAction { action_id: String },
    RunAutomation { automation_id: String },
    SetAutomationEnabled { automation_id: String, enabled: bool },
    CancelAutomation { activity_id: String },
    MarkNotificationRead { notification_id: String },
    ApplyClipboardSyncRecord { record: Option<proto::ClipboardSyncRecord> },
}

/// True when a retention policy is one that can be kept.
pub open spec fn policy_ok(policy: proto::ClipboardPolicy) -> bool {
    &&& 0 < policy.max_items <= 5000
    &&& 1_048_576 <= policy.max_bytes <= 1_073_741_824
    &&& policy.retention_days <= 3650
}

/// A fault unless the condition holds.
pub open spec fn unless(ok: bool, message: Seq<char>) -> Option<Seq<char>> {
    if ok {
        None
    } else {
        Some(message)
    }
}

/// What is wrong with a command that arrived at `now`, if anything.
pub open spec fn command_fault(command: Option<Command>, now: i64) -> Option<Seq<char>> {
    match command {
        None => Some("empty command"@),
        Some(Command::PlaybackAction { action }) => unless(
            action != proto::PlaybackAction::Unspecified,
            "invalid playback action"@,
        ),
        Some(Command::SetSystemVolume { volume }) => unless(
            volume <= 100,
            "system volume must be between 0 and 100"@,
        ),
        Some(Command::SetAppVolume { app_name, volume }) => if !crate::access::control_identifier(
            app_name@,
        ) {
            Some("invalid application name"@)
        } else {
            unless(volume <= 100, "application volume must be between 0 and 100"@)
        },
        Some(Command::KillProcess { pid }) => unless(pid != 0, "process id must be non-zero"@),
        Some(Command::SetClipboard { content }) => unless(
            crate::text::utf8_len(content@) <= MAX_CLIPBOARD_TEXT_BYTES,
            "clipboard content is too large"@,
        ),
        Some(Command::PasteClipboardRecord { record_id }) => unless(
            record_id != 0,
            "clipboard record id must be non-zero"@,
        ),
        Some(Command::DeleteClipboardRecord { record_id }) => unless(
            record_id != 0,
            "clipboard record id must be non-zero"@,
        ),
        Some(Command::SetClipboardFavorite { record_id, favorite }) => unless(
            record_id != 0,
            "clipboard record id must be non-zero"@,
        ),
        Some(Command::CreateClipboardLabel { name, color }) => unless(
            !crate::text::blank(name@),
            "clipboard label name is required"@,
        ),
        Some(Command::UpdateClipboardLabel { label_id, name, color }) => unless(
            label_id@.len() > 0 && !crate::text::blank(name@),
            "clipboard label id and name are required"@,
        ),
        Some(Command::DeleteClipboardLabel { label_id }) => unless(
            label_id@.len() > 0,
            "clipboard label id is required"@,
        ),
        Some(Command::SetClipboardLabels { record_id, label_ids }) => unless(
            record_id != 0,
            "clipboard record id must be non-zero"@,
        ),
        Some(Command::UpdateClipboardPolicy { policy }) => match policy {
            None => Some("clipboard policy is required"@),
            Some(policy) => unless(policy_ok(policy), "invalid clipboard retention policy"@),
        },
        Some(Command::FocusWindow { window_id }) => unless(
            window_id != 0,
            "window id must be non-zero"@,
        ),
        Some(Command::SwitchSpace { space_id }) => unless(
            space_id != 0,
            "space id must be non-zero"@,
        ),
        Some(Command::ExecuteQuickAction { action_id }) => unless(
            crate::access::control_identifier(action_id@),
            "invalid quick action id"@,
        ),
        Some(Command::RunAutomation { automation_id }) => unless(
            crate::access::control_identifier(automation_id@),
            "invalid automation id"@,
        ),
        Some(Command::SetAutomationEnabled { automation_id, enabled }) => unless(
            crate::access::control_identifier(automation_id@),
            "invalid automation id"@,
        ),
        Some(Command::CancelAutomation { activity_id }) => unless(
            crate::access::control_identifier(activity_id@),
            "invalid automation activity id"@,
        ),
        Some(Command::MarkNotificationRead { notification_id }) => unless(
            crate::access::control_identifier(notification_id@),
            "invalid notification id"@,
        ),
        Some(Command::ApplyClipboardSyncRecord { record }) => match record {
            None => Some("clipboard sync record is required"@),
            Some(record) => crate::sync_record::sync_record_fault(record, now),
        },
        Some(Command::SetMicrophone { .. })
        | Some(Command::SetDnd { .. })
        | Some(Command::ClearClipboardHistory) => None,
    }
}

/// Checks a command that arrived at a given time.
pub fn validate_command_at(command: &Option<Command>, now: i64) -> (r: Result<(), &'static str>)
    ensures
        crate::queries::reports_fault(r, command_fault(*command, now)),
{
    match command {
        None => {
            return Err("empty command");
        },
        Some(Command::PlaybackAction { action }) => {
            if *action == proto::PlaybackAction::Unspecified {
                return Err("invalid playback action");
            }
        },
        Some(Command::SetSystemVolume { volume }) => {
            if *volume > 100 {
                return Err("system volume must be between 0 and 100");
            }
        },
        Some(Command::SetAppVolume { app_name, volume }) => {
            if !valid_control_identifier(app_name.as_str()) {
                return Err("invalid application name");
            }
            if *volume > 100 {
                return Err("application volume must be between 0 and 100");
            }
        },
        Some(Command::KillProcess { pid }) => {
            if *pid == 0 {
                return Err("process id must be non-zero");
            }
        },
        Some(Command::SetClipboard { content }) => {
            if byte_len(content.as_str()) > MAX_CLIPBOARD_TEXT_BYTES {
                return Err("clipboard content is too large");
            }
        },
        Some(Command::PasteClipboardRecord { record_id }) => {
            if *record_id == 0 {
                return Err("clipboard record id must be non-zero");
            }
        },
        Some(Command::DeleteClipboardRecord { record_id }) => {
            if *record_id == 0 {
                return Err("clipboard record id must be non-zero");
            }
        },
        Some(Command::SetClipboardFavorite { record_id, favorite: _ }) => {
            if *record_id == 0 {
                return Err("clipboard record id must be non-zero");
            }
        },
        Some(Command::CreateClipboardLabel { name, color: _ }) => {
            if is_blank(name.as_str()) {
                return Err("clipboard label name is required");
            }
        },
        Some(Command::UpdateClipboardLabel { label_id, name, color: _ }) => {
            if label_id.as_str().is_empty() || is_blank(name.as_str()) {
                return Err("clipboard label id and name are required");
            }
        },
        Some(Command::DeleteClipboardLabel { label_id }) => {
            if label_id.as_str().is_empty() {
                return Err("clipboard label id is required");
            }
        },
        Some(Command::SetClipboardLabels { record_id, label_ids: _ }) => {
            if *record_id == 0 {
                return Err("clipboard record id must be non-zero");
            }
        },
        Some(Command::UpdateClipboardPolicy { policy }) => match policy {
            None => {
                return Err("clipboard policy is required");
            },
            Some(policy) => {
                if policy.max_items == 0 || policy.max_items > 5000 || policy.max_bytes < 1_048_576
                    || policy.max_bytes > 1_073_741_824 || policy.retention_days > 3650 {
                    return Err("invalid clipboard retention policy");
                }
            },
        },
        Some(Command::FocusWindow { window_id }) => {
            if *window_id == 0 {
                return Err("window id must be non-zero");
            }
        },
        Some(Command::SwitchSpace { space_id }) => {
            if *space_id == 0 {
                return Err("space id must be non-zero");
            }
        },
        Some(Command::ExecuteQuickAction { action_id }) => {
            if !valid_control_identifier(action_id.as_str()) {
                return Err("invalid quick action id");
            }
        },
        Some(Command::RunAutomation { automation_id }) => {
            if !valid_control_identifier(automation_id.as_str()) {
                return Err("invalid automation id");
            }
        },
        Some(Command::SetAutomationEnabled { automation_id, enabled: _ }) => {
            if !valid_control_identifier(automation_id.as_str()) {
                return Err("invalid automation id");
            }
        },
        Some(Command::CancelAutomation { activity_id }) => {
            if !valid_control_identifier(activity_id.as_str()) {
                return Err("invalid automation activity id");
            }
        },
        Some(Command::MarkNotificationRead { notification_id }) => {
            if !valid_control_identifier(notification_id.as_str()) {
                return Err("invalid notification id");
            }
        },
        Some(Command::ApplyClipboardSyncRecord { record }) => match record {
            None => {
                return Err("clipboard sync record is required");
            },
            Some(record) => {
                return validate_clipboard_sync_record_at(record, now);
            },
        },
        Some(Command::SetMicrophone { .. })
        | Some(Command::SetDnd { .. })
        | Some(Command::ClearClipboardHistory) => {},
    }
    Ok(())
}

/// Checks a command that arrives now.
pub fn validate_command(command: &Option<Command>) -> (r: Result<(), &'static str>)
    ensures
        exists|now: i64|
            now >= 0 && #[trigger] crate::queries::reports_fault(r, command_fault(*command, now)),
{
    let now: i64 = crate::product::now_ms();
    validate_command_at(command, now)
}

/// The feature that a command belongs to.
pub open spec fn command_feature(command: Command) -> Feature {
    match command {
        Command::PlaybackAction { .. }
        | Command::SetSystemVolume { .. }
        | Command::SetAppVolume { .. }
        | Command::SetMicrophone { .. }
        | Command::SetDnd { .. } => Feature::Media,
        Command::KillProcess { .. } => Feature::Processes,
        Command::SetClipboard { .. }
        | Command::ClearClipboardHistory
        | Command::PasteClipboardRecord { .. }
        | Command::DeleteClipboardRecord { .. }
        | Command::SetClipboardFavorite { .. }
        | Command::CreateClipboardLabel { .. }
        | Command::UpdateClipboardLabel { .. }
        | Command::DeleteClipboardLabel { .. }
        | Command::SetClipboardLabels { .. }
        | Command::UpdateClipboardPolicy { .. } => Feature::Clipboard,
        Command::FocusWindow { .. } | Command::SwitchSpace { .. } => Feature::Windows,
        Command::ExecuteQuickAction { .. }
        | Command::RunAutomation { .. }
        | Command::SetAutomationEnabled { .. }
        | Command::CancelAutomation { .. } => Feature::Actions,
        Command::MarkNotificationRead { .. } => Feature::Notifications,
        Command::ApplyClipboardSyncRecord { .. } => Feature::ClipboardSync,
    }
}

/// The capability that a command needs.
pub open spec fn command_capability(command: Command) -> PeerCapability {
    match command_feature(command) {
        Feature::Media => PeerCapability::MediaControl,
        Feature::Processes => PeerCapability::ProcessManage,
        Feature::Clipboard => PeerCapability::ClipboardWrite,
        Feature::Windows => PeerCapability::WindowControl,
        Feature::Actions => PeerCapability::ActionExecute,
        Feature::Notifications => PeerCapability::NotificationAcknowledge,
        _ => PeerCapability::ClipboardSync,
    }
}

/// Why a command that arrived at `now` is not let through, if so. To paste is to
/// read and to write the clipboard and to type.
pub open spec fn command_denial(
    command: Option<Command>,
    features: Map<Feature, u32>,
    capabilities: Seq<PeerCapability>,
    now: i64,
) -> Option<crate::access::DenialView> {
    match command_fault(command, now) {
        Some(message) => Some(crate::access::DenialView::BadRequest { message }),
        None => if command->0 is PasteClipboardRecord {
            match crate::access::access_denial(
                features,
                capabilities,
                Feature::Clipboard,
                PeerCapability::ClipboardRead,
            ) {
                Some(denial) => Some(denial),
                None => match crate::access::capability_denial(
                    capabilities,
                    PeerCapability::ClipboardWrite,
                ) {
                    Some(denial) => Some(denial),
                    None => crate::access::capability_denial(
                        capabilities,
                        PeerCapability::RemoteInputInject,
                    ),
                },
            }
        } else {
            crate::access::access_denial(
                features,
                capabilities,
                command_feature(command->0),
                command_capability(command->0),
            )
        },
    }
}

/// Decides whether a command that arrived at a given time is let through.
pub fn authorize_command_at(
    command: &Option<Command>,
    features: &SelectedFeatures,
    capabilities: &Vec<PeerCapability>,
    now: i64,
) -> (r: Result<(), Denial>)
    requires
        features.wf(),
    ensures
        crate::access::decides(r, command_denial(*command, features@, capabilities@, now)),
{
    if let Err(message) = validate_command_at(command, now) {
        return Err(Denial::BadRequest(message.to_owned()));
    }
    let (feature, capability) = match command {
        None => {
            return Err(Denial::BadRequest("empty command".to_owned()));
        },
        Some(Command::PasteClipboardRecord { .. }) => {
            if let Err(denial) = require_access(
                features,
                capabilities,
                Feature::Clipboard,
                PeerCapability::ClipboardRead,
            ) {
                return Err(denial);
            }
            if let Err(denial) = require_capability(capabilities, PeerCapability::ClipboardWrite) {
                return Err(denial);
            }
            return require_capability(capabilities, PeerCapability::RemoteInputInject);
        },
        Some(Command::PlaybackAction { .. })
        | Some(Command::SetSystemVolume { .. })
        | Some(Command::SetAppVolume { .. })
        | Some(Command::SetMicrophone { .. })
        | Some(Command::SetDnd { .. }) => (Feature::Media, PeerCapability::MediaControl),
        Some(Command::KillProcess { .. }) => (Feature::Processes, PeerCapability::ProcessManage),
        Some(Command::SetClipboard { .. })
        | Some(Command::ClearClipboardHistory)
        | Some(Command::DeleteClipboardRecord { .. })
        | Some(Command::SetClipboardFavorite { .. })
        | Some(Command::CreateClipboardLabel { .. })
        | Some(Command::UpdateClipboardLabel { .. })
        | Some(Command::DeleteClipboardLabel { .. })
        | Some(Command::SetClipboardLabels { .. })
        | Some(Command::UpdateClipboardPolicy { .. }) => (
            Feature::Clipboard,
            PeerCapability::ClipboardWrite,
        ),
        Some(Command::FocusWindow { .. }) | Some(Command::SwitchSpace { .. }) => (
            Feature::Windows,
            PeerCapability::WindowControl,
        ),
        Some(Command::ExecuteQuickAction { .. })
        | Some(Command::RunAutomation { .. })
        | Some(Command::SetAutomationEnabled { .. })
        | Some(Command::CancelAutomation { .. }) => (
            Feature::Actions,
            PeerCapability::ActionExecute,
        ),
        Some(Command::MarkNotificationRead { .. }) => (
            Feature::Notifications,
            PeerCapability::NotificationAcknowledge,
        ),
        Some(Command::ApplyClipboardSyncRecord { .. }) => (
            Feature::ClipboardSync,
            PeerCapability::ClipboardSync,
        ),
    };
    require_access(features, capabilities, feature, capability)
}

/// Decides whether a command that arrives now is let through.
pub fn authorize_command(
    command: &Option<Command>,
    features: &SelectedFeatures,
    capabilities: &Vec<PeerCapability>,
) -> (r: Result<(), Denial>)
    requires
        features.wf(),
    ensures
        exists|now: i64|
            now >= 0 && #[trigger] crate::access::decides(
                r,
                command_denial(*command, features@, capabilities@, now),
            ),
{
    let now: i64 = crate::product::now_ms();
    authorize_command_at(command, features, capabilities, now)
}

/// A command is let through only with the feature that it belongs to and the
/// capability that it needs; to paste needs all three capabilities.
pub proof fn lemma_commands_need_access(
    command: Option<Command>,
    features: Map<Feature, u32>,
    capabilities: Seq<PeerCapability>,
    now: i64,
)
    requires
        command_denial(command, features, capabilities, now) is None,
    ensures
        command is Some,
        features.contains_key(command_feature(command->0)),
        capabilities.contains(command_capability(command->0)),
        command->0 is PasteClipboardRecord ==> {
            &&& capabilities.contains(PeerCapability::ClipboardRead)
            &&& capabilities.contains(PeerCapability::ClipboardWrite)
            &&& capabilities.contains(PeerCapability::RemoteInputInject)
        },
{
}

/// A command as it is put to the host.
#[derive(Debug, PartialEq, Eq)]
pub enum HostCall {
    Playback { action: domain::PlaybackAction },
    SetSystemVolume { volume: u8 },
    SetAppVolume { app_name: String, volume: u8 },
    SetMicrophone { active: bool },
    SetDnd { active: bool },
    KillProcess { pid: u32 },
    SetClipboardText { content: String },
    ClearClipboardHistory,
    PasteClipboardRecord { record_id: u64 },
    DeleteClipboardRecord { record_id: u64 },
    SetClipboardFavorite { record_id: u64, favorite: bool },
    CreateClipboardLabel { name: String, color: String },
    UpdateClipboardLabel { label_id: String, name: String, color: String },
    DeleteClipboardLabel { label_id: String },
    SetClipboardLabels { record_id: u64, label_ids: Vec<String> },
    UpdateClipboardPolicy { policy: domain::ClipboardPolicy },
    ApplySyncRecord { record: domain::ClipboardSyncRecord },
    FocusWindow { window_id: u32 },
    SwitchSpace { space_id: u64 },
    ExecuteAction { action_id: String },
    RunAutomation { automation_id: String },
    SetAutomationEnabled { automation_id: String, enabled: bool },
    CancelAutomation { activity_id: String },
    MarkNotificationRead { notification_id: String, device_id: String, device_name: String },
}

/// True when a command is one for the provider of actions, automations and
/// notifications.
pub open spec fn for_provider(command: Command) -> bool {
    command_feature(command) == Feature::Actions || command_feature(command)
        == Feature::Notifications
}

/// What is answered when there is no provider for a command.
pub open spec fn provider_missing(command: Command) -> Seq<char> {
    match command {
        Command::ExecuteQuickAction { .. } => "quick actions are unavailable"@,
        Command::MarkNotificationRead { .. } => "notifications are unavailable"@,
        _ => "automations unavailable"@,
    }
}

/// True when `call` puts `command` to the host as it is meant; a notification is
/// marked in the name of the device that the command comes from.
pub open spec fn puts(call: HostCall, command: Command, origin: CommandOrigin) -> bool {
    match command {
        Command::PlaybackAction { action } => call == (HostCall::Playback {
            action: crate::proto_msg::meant_playback_action(action),
        }),
        Command::SetSystemVolume { volume } => call == (HostCall::SetSystemVolume {
            volume: (volume % 256) as u8,
        }),
        Command::SetAppVolume { app_name, volume } => call == (HostCall::SetAppVolume {
            app_name,
            volume: (volume % 256) as u8,
        }),
        Command::SetMicrophone { active } => call == (HostCall::SetMicrophone { active }),
        Command::SetDnd { active } => call == (HostCall::SetDnd { active }),
        Command::KillProcess { pid } => call == (HostCall::KillProcess { pid }),
        Command::SetClipboard { content } => call == (HostCall::SetClipboardText { content }),
        Command::ClearClipboardHistory => call == HostCall::ClearClipboardHistory,
        Command::PasteClipboardRecord { record_id } => call == (HostCall::PasteClipboardRecord {
            record_id,
        }),
        Command::DeleteClipboardRecord { record_id } => call == (HostCall::DeleteClipboardRecord {
            record_id,
        }),
        Command::SetClipboardFavorite { record_id, favorite } => call == (
        HostCall::SetClipboardFavorite { record_id, favorite }),
        Command::CreateClipboardLabel { name, color } => call == (HostCall::CreateClipboardLabel {
            name,
            color,
        }),
        Command::UpdateClipboardLabel { label_id, name, color } => call == (
        HostCall::UpdateClipboardLabel { label_id, name, color }),
        Command::DeleteClipboardLabel { label_id } => call == (HostCall::DeleteClipboardLabel {
            label_id,
        }),
        Command::SetClipboardLabels { record_id, label_ids } => call == (
        HostCall::SetClipboardLabels { record_id, label_ids }),
        Command::UpdateClipboardPolicy { policy } => policy is Some && call == (
        HostCall::UpdateClipboardPolicy {
            policy: domain::ClipboardPolicy {
                history_enabled: policy->0.history_enabled,
                max_items: policy->0.max_items,
                max_bytes: policy->0.max_bytes,
                retention_days: policy->0.retention_days,
                save_sensitive: policy->0.save_sensitive,
            },
        }),
        Command::FocusWindow { window_id } => call == (HostCall::FocusWindow { window_id }),
        Command::SwitchSpace { space_id } => call == (HostCall::SwitchSpace { space_id }),
        Command::ExecuteQuickAction { action_id } => call == (HostCall::ExecuteAction { action_id }),
        Command::RunAutomation { automation_id } => call == (HostCall::RunAutomation {
            automation_id,
        }),
        Command::SetAutomationEnabled { automation_id, enabled } => call == (
        HostCall::SetAutomationEnabled { automation_id, enabled }),
        Command::CancelAutomation { activity_id } => call == (HostCall::CancelAutomation {
            activity_id,
        }),
        Command::MarkNotificationRead { notification_id } => {
            &&& call is MarkNotificationRead
            &&& call->MarkNotificationRead_notification_id@ == notification_id@
            &&& call->MarkNotificationRead_device_id@ == origin.device_id@
            &&& call->MarkNotificationRead_device_name@ == origin.device_name@
        },
        Command::ApplyClipboardSyncRecord { record } => call is ApplySyncRecord,
    }
}

/// Where a command comes from, and when.
#[derive(Debug)]
pub struct CommandOrigin {
    pub device_id: String,
    pub device_name: String,
    pub wall_now: i64,
    pub now: u64,
}

/// Puts a command to the host. A policy and a record have to be there: a command
/// without them is not let through.
pub fn host_call(
    command: Option<Command>,
    provider_available: bool,
    uploads: &mut ClipboardUploadStore,
    origin: &CommandOrigin,
) -> (r: Result<HostCall, CommandFailure>)
    requires
        old(uploads).wf(),
        command matches Some(Command::UpdateClipboardPolicy { policy }) ==> policy is Some,
        command matches Some(Command::ApplyClipboardSyncRecord { record }) ==> record is Some,
    ensures
        final(uploads).wf(),
        match command {
            None => {
                &&& r is Err
                &&& r->Err_0@ == (crate::access::FailureView {
                    code: ErrorCode::Internal,
                    message: "empty command"@,
                })
                &&& final(uploads)@ == old(uploads)@
            },
            Some(Command::ApplyClipboardSyncRecord { record }) => {
                let record = record->0;
                let kept = crate::clipboard_upload::pruned(old(uploads)@, origin.now);
                match crate::sync_record::sync_record_fault(record, origin.wall_now) {
                    Some(fault) => {
                        &&& r is Err
                        &&& r->Err_0@ == (crate::access::FailureView {
                            code: ErrorCode::InvalidArgument,
                            message: fault,
                        })
                        &&& final(uploads)@ == old(uploads)@
                    },
                    None => {
                        &&& final(uploads)@ == if crate::sync_record::reads_uploads(record) {
                            kept
                        } else {
                            old(uploads)@
                        }
                        &&& match crate::sync_record::brought_content(record, kept) {
                            Err(fault) => r is Err && r->Err_0@ == (crate::access::FailureView {
                                code: ErrorCode::InvalidArgument,
                                message: fault,
                            }),
                            Ok(content) => r is Ok && r->Ok_0 is ApplySyncRecord
                                && crate::sync_record::is_taken_in(
                                r->Ok_0->ApplySyncRecord_record,
                                record,
                                content,
                                origin.device_id@,
                                origin.device_name@,
                            ),
                        }
                    },
                }
            },
            Some(command) => {
                &&& final(uploads)@ == old(uploads)@
                &&& if for_provider(command) && !provider_available {
                    &&& r is Err
                    &&& r->Err_0@ == (crate::access::FailureView {
                        code: ErrorCode::Unsupported,
                        message: provider_missing(command),
                    })
                } else {
                    r is Ok && puts(r->Ok_0, command, *origin)
                }
            },
        },
{
    match command {
        None => Err(CommandFailure::internal("empty command")),
        Some(Command::PlaybackAction { action }) => Ok(
            HostCall::Playback { action: playback_action_from_proto(action) },
        ),
        Some(Command::SetSystemVolume { volume }) => Ok(
            HostCall::SetSystemVolume { volume: (volume % 256) as u8 },
        ),
        Some(Command::SetAppVolume { app_name, volume }) => Ok(
            HostCall::SetAppVolume { app_name, volume: (volume % 256) as u8 },
        ),
        Some(Command::SetMicrophone { active }) => Ok(HostCall::SetMicrophone { active }),
        Some(Command::SetDnd { active }) => Ok(HostCall::SetDnd { active }),
        Some(Command::KillProcess { pid }) => Ok(HostCall::KillProcess { pid }),
        Some(Command::SetClipboard { content }) => Ok(HostCall::SetClipboardText { content }),
        Some(Command::ClearClipboardHistory) => Ok(HostCall::ClearClipboardHistory),
        Some(Command::PasteClipboardRecord { record_id }) => Ok(
            HostCall::PasteClipboardRecord { record_id },
        ),
        Some(Command::DeleteClipboardRecord { record_id }) => Ok(
            HostCall::DeleteClipboardRecord { record_id },
        ),
        Some(Command::SetClipboardFavorite { record_id, favorite }) => Ok(
            HostCall::SetClipboardFavorite { record_id, favorite },
        ),
        Some(Command::CreateClipboardLabel { name, color }) => Ok(
            HostCall::CreateClipboardLabel { name, color },
        ),
        Some(Command::UpdateClipboardLabel { label_id, name, color }) => Ok(
            HostCall::UpdateClipboardLabel { label_id, name, color },
        ),
        Some(Command::DeleteClipboardLabel { label_id }) => Ok(
            HostCall::DeleteClipboardLabel { label_id },
        ),
        Some(Command::SetClipboardLabels { record_id, label_ids }) => Ok(
            HostCall::SetClipboardLabels { record_id, label_ids },
        ),
        Some(Command::UpdateClipboardPolicy { policy }) => {
            let policy = policy.unwrap();
            Ok(
                HostCall::UpdateClipboardPolicy {
                    policy: domain::ClipboardPolicy {
                        history_enabled: policy.history_enabled,
                        max_items: policy.max_items,
                        max_bytes: policy.max_bytes,
                        retention_days: policy.retention_days,
                        save_sensitive: policy.save_sensitive,
                    },
                },
            )
        },
        Some(Command::ApplyClipboardSyncRecord { record }) => {
            let record = record.unwrap();
            match sync_record_from_proto(
                &record,
                uploads,
                origin.device_id.as_str(),
                origin.device_name.as_str(),
                origin.wall_now,
                origin.now,
            ) {
                Ok(record) => Ok(HostCall::ApplySyncRecord { record }),
                Err(message) => Err(CommandFailure::invalid(message)),
            }
        },
        Some(Command::FocusWindow { window_id }) => Ok(HostCall::FocusWindow { window_id }),
        Some(Command::SwitchSpace { space_id }) => Ok(HostCall::SwitchSpace { space_id }),
        Some(Command::ExecuteQuickAction { action_id }) => if provider_available {
            Ok(HostCall::ExecuteAction { action_id })
        } else {
            Err(CommandFailure::unsupported("quick actions are unavailable"))
        },
        Some(Command::RunAutomation { automation_id }) => if provider_available {
            Ok(HostCall::RunAutomation { automation_id })
        } else {
            Err(CommandFailure::unsupported("automations unavailable"))
        },
        Some(Command::SetAutomationEnabled { automation_id, enabled }) => if provider_available {
            Ok(HostCall::SetAutomationEnabled { automation_id, enabled })
        } else {
            Err(CommandFailure::unsupported("automations unavailable"))
        },
        Some(Command::CancelAutomation { activity_id }) => if provider_available {
            Ok(HostCall::CancelAutomation { activity_id })
        } else {
            Err(CommandFailure::unsupported("automations unavailable"))
        },
        Some(Command::MarkNotificationRead { notification_id }) => if provider_available {
            Ok(
                HostCall::MarkNotificationRead {
                    notification_id,
                    device_id: origin.device_id.clone(),
                    device_name: origin.device_name.clone(),
                },
            )
        } else {
            Err(CommandFailure::unsupported("notifications are unavailable"))
        },
    }
}

/// What the host is to push to its clients after a call succeeded.
#[derive(Debug, Clone, Copy, PartialEq, Eq, Structural)]
pub enum Refresh {
    Nothing,
    Media,
    Windows,
}

/// What is stale after a call succeeded.
pub open spec fn stale_after(call: HostCall) -> Refresh {
    match call {
        HostCall::Playback { .. }
        | HostCall::SetSystemVolume { .. }
        | HostCall::SetAppVolume { .. }
        | HostCall::SetMicrophone { .. }
        | HostCall::SetDnd { .. } => Refresh::Media,
        HostCall::SwitchSpace { .. } => Refresh::Windows,
        _ => Refresh::Nothing,
    }
}

/// What the host is to push to its clients after a call succeeded.
pub fn refresh_after(call: &HostCall) -> (r: Refresh)
    ensures
        r == stale_after(*call),
{
    match call {
        HostCall::Playback { .. }
        | HostCall::SetSystemVolume { .. }
        | HostCall::SetAppVolume { .. }
        | HostCall::SetMicrophone { .. }
        | HostCall::SetDnd { .. } => Refresh::Media,
        HostCall::SwitchSpace { .. } => Refresh::Windows,
        _ => Refresh::Nothing,
    }
}

/// How a command ended.
#[derive(Debug)]
pub enum CommandEnd {
    /// It was not put to the host.
    Refused { failure: CommandFailure },
    /// It was put to the host, which returned this.
    Returned { call: HostCall, result: Result<String, CommandFailure> },
}

/// True when a client is shown what the host returned of a call: the output of a
/// quick action, or the activity that an automation has started.
pub open spec fn shows_output(call: HostCall) -> bool {
    call is ExecuteAction || call is RunAutomation
}

/// True when `r` answers a command that ended this way.
pub open spec fn answers_command(
    r: crate::command_cache::CommandResponseView,
    request_id: u64,
    end: CommandEnd,
) -> bool {
    match end {
        CommandEnd::Returned { call, result: Ok(output) } => {
            &&& r.request_id == request_id
            &&& crate::status::is_ok_status(r.status)
            &&& r.output == if shows_output(call) {
                Some(crate::text::truncated(output@, MAX_COMMAND_OUTPUT_BYTES as nat))
            } else {
                Some(Seq::empty())
            }
        },
        CommandEnd::Refused { failure } | CommandEnd::Returned { result: Err(failure), .. } =>
        crate::command_cache::is_error_response(r, request_id, failure.code, failure.message@),
    }
}

/// Answers a command that has ended.
pub fn command_response(request_id: u64, end: CommandEnd) -> (r: CommandResponse)
    ensures
        answers_command(r@, request_id, end),
{
    match end {
        CommandEnd::Returned { call, result: Ok(output) } => {
            let output = match call {
                HostCall::ExecuteAction { .. } | HostCall::RunAutomation { .. } => truncate_utf8(
                    output,
                    MAX_COMMAND_OUTPUT_BYTES,
                ),
                _ => String::new(),
            };
            CommandResponse { request_id, status: ok_status(), output: Some(output) }
        },
        CommandEnd::Refused { failure } | CommandEnd::Returned { result: Err(failure), .. } => {
            command_error(request_id, failure.code, failure.message.as_str())
        },
    }
}

/// Replaces an answer whose frame would be too large.
pub fn bounded_command_response(response: CommandResponse, encoded_len: usize, maximum: usize)
    -> (r: CommandResponse)
    ensures
        if encoded_len > maximum {
            crate::command_cache::is_error_response(
                r@,
                response.request_id,
                ErrorCode::ResourceExhausted,
                "command result exceeds the negotiated control-frame limit"@,
            )
        } else {
            r@ == response@
        },
{
    if encoded_len > maximum {
        command_error(
            response.request_id,
            ErrorCode::ResourceExhausted,
            "command result exceeds the negotiated control-frame limit",
        )
    } else {
        response
    }
}

/// The last lines of an output that fit, each cut down, where `count` lines of
/// `total` bytes were taken before.
pub open spec fn last_lines(lines: Seq<Seq<char>>, count: nat, total: nat) -> Seq<Seq<char>>
    decreases lines.len(),
{
    if lines.len() == 0 || count >= MAX_ACTION_OUTPUT_LINES {
        Seq::empty()
    } else {
        let line = crate::text::truncated(lines.last(), MAX_ACTION_OUTPUT_LINE_BYTES as nat);
        let grown = total + crate::text::utf8_len(line);
        if grown > MAX_ACTION_OUTPUT_SNAPSHOT_BYTES {
            Seq::empty()
        } else {
            last_lines(lines.drop_last(), count + 1, grown).push(line)
        }
    }
}

/// What is shown of an output is within its limits, and is how its last lines
/// begin.
pub proof fn lemma_last_lines(lines: Seq<Seq<char>>, count: nat, total: nat)
    requires
        count <= MAX_ACTION_OUTPUT_LINES,
        total <= MAX_ACTION_OUTPUT_SNAPSHOT_BYTES,
    ensures
        last_lines(lines, count, total).len() <= lines.len(),
        last_lines(lines, count, total).len() + count <= MAX_ACTION_OUTPUT_LINES,
        total + crate::text::texts_bytes(last_lines(lines, count, total)) <= MAX_ACTION_OUTPUT_SNAPSHOT_BYTES,
        forall|i: int|
            0 <= i < last_lines(lines, count, total).len() ==> {
                &&& crate::text::utf8_len(#[trigger] last_lines(lines, count, total)[i])
                    <= MAX_ACTION_OUTPUT_LINE_BYTES
                &&& last_lines(lines, count, total)[i].is_prefix_of(
                    lines[lines.len() - last_lines(lines, count, total).len() + i],
                )
            },
    decreases lines.len(),
{
    if lines.len() > 0 && count < MAX_ACTION_OUTPUT_LINES {
        let line = crate::text::truncated(lines.last(), MAX_ACTION_OUTPUT_LINE_BYTES as nat);
        let grown = total + crate::text::utf8_len(line);
        crate::text::lemma_truncated(lines.last(), MAX_ACTION_OUTPUT_LINE_BYTES as nat);
        if grown <= MAX_ACTION_OUTPUT_SNAPSHOT_BYTES {
            lemma_last_lines(lines.drop_last(), count + 1, grown);
            let rest = last_lines(lines.drop_last(), count + 1, grown);
            let shown = last_lines(lines, count, total);
            assert(shown == rest.push(line));
            assert(shown.drop_last() =~= rest);
            assert forall|i: int| 0 <= i < last_lines(lines, count, total).len() implies {
                &&& crate::text::utf8_len(#[trigger] last_lines(lines, count, total)[i])
                    <= MAX_ACTION_OUTPUT_LINE_BYTES
                &&& last_lines(lines, count, total)[i].is_prefix_of(
                    lines[lines.len() - last_lines(lines, count, total).len() + i],
                )
            } by {
                if i < rest.len() {
                    assert(shown[i] == rest[i]);
                    assert(lines.drop_last()[lines.drop_last().len() - rest.len() + i]
                        == lines[lines.len() - shown.len() + i]);
                }
            }
        }
    }
}

proof fn lemma_last_lines_step(lines: Seq<Seq<char>>, n: int, count: nat, total: nat)
    requires
        0 < n <= lines.len(),
        count < MAX_ACTION_OUTPUT_LINES,
    ensures
        ({
            let line = crate::text::truncated(
                lines[n - 1],
                MAX_ACTION_OUTPUT_LINE_BYTES as nat,
            );
            let grown = total + crate::text::utf8_len(line);
            last_lines(lines.take(n), count, total) == if grown
                > MAX_ACTION_OUTPUT_SNAPSHOT_BYTES {
                Seq::<Seq<char>>::empty()
            } else {
                last_lines(lines.take(n - 1), count + 1, grown).push(line)
            }
        }),
{
    assert(lines.take(n).drop_last() =~= lines.take(n - 1));
    assert(lines.take(n).last() == lines[n - 1]);
}

/// Shows the end of an action's output.
pub fn bounded_action_output(lines: Vec<String>) -> (r: Vec<String>)
    ensures
        crate::text::texts(r@) == last_lines(crate::text::texts(lines@), 0, 0),
{
    let ghost all = crate::text::texts(lines@);
    let mut lines = lines;
    let mut newest_first: Vec<String> = Vec::new();
    let mut total: usize = 0;
    let mut more = true;
    proof {
        assert(all.take(all.len() as int) =~= all);
    }
    while more && newest_first.len() < MAX_ACTION_OUTPUT_LINES
        invariant
            crate::text::texts(lines@) == all.take(lines@.len() as int),
            lines@.len() <= all.len(),
            newest_first@.len() <= MAX_ACTION_OUTPUT_LINES,
            total <= MAX_ACTION_OUTPUT_SNAPSHOT_BYTES,
            last_lines(all, 0, 0) == (if more {
                last_lines(all.take(lines@.len() as int), newest_first@.len(), total as nat)
            } else {
                Seq::<Seq<char>>::empty()
            }) + crate::text::texts(newest_first@).reverse(),
        decreases
            lines@.len(),
            if more {
                1int
            } else {
                0int
            },
    {
        let ghost shown = crate::text::texts(newest_first@);
        let ghost n = lines@.len() as int;
        match lines.pop() {
            None => {
                more = false;
            },
            Some(line) => {
                proof {
                    assert(crate::text::texts(lines@) =~= all.take(n - 1));
                    assert(line@ == all[n - 1]) by {
                        assert(all.take(n)[n - 1] == all[n - 1]);
                    }
                    lemma_last_lines_step(all, n, newest_first@.len(), total as nat);
                }
                let line = truncate_utf8(line, MAX_ACTION_OUTPUT_LINE_BYTES);
                let size: usize = byte_len(line.as_str());
                if size > MAX_ACTION_OUTPUT_SNAPSHOT_BYTES - total {
                    more = false;
                } else {
                    total += size;
                    let ghost text = line@;
                    newest_first.push(line);
                    proof {
                        let rest = last_lines(
                            all.take(n - 1),
                            newest_first@.len(),
                            total as nat,
                        );
                        assert(crate::text::texts(newest_first@) =~= shown.push(text));
                        assert(shown.push(text).reverse() =~= seq![text] + shown.reverse());
                        assert(rest.push(text) + shown.reverse() =~= rest + (seq![text]
                            + shown.reverse()));
                    }
                }
            },
        }
    }
    let ghost shown = crate::text::texts(newest_first@);
    proof {
        assert(Seq::<Seq<char>>::empty() + shown.reverse() =~= shown.reverse());
        assert(last_lines(all, 0, 0) == shown.reverse());
    }
    let mut out: Vec<String> = Vec::new();
    let ghost count = newest_first@.len();
    while newest_first.len() > 0
        invariant
            shown.len() == count,
            newest_first@.len() <= count,
            crate::text::texts(newest_first@) == shown.take(newest_first@.len() as int),
            crate::text::texts(out@) == shown.reverse().take(count - newest_first@.len()),
        decreases newest_first@.len(),
    {
        let ghost n = newest_first@.len() as int;
        let line = newest_first.pop().unwrap();
        proof {
            assert(line@ == shown[n - 1]) by {
                assert(shown.take(n)[n - 1] == shown[n - 1]);
            }
            assert(crate::text::texts(newest_first@) =~= shown.take(n - 1));
        }
        let ghost before = crate::text::texts(out@);
        out.push(line);
        proof {
            assert(crate::text::texts(out@) =~= before.push(shown[n - 1]));
            assert(shown.reverse()[count - n] == shown[n - 1]);
            assert(crate::text::texts(out@) =~= shown.reverse().take(count - (n - 1)));
        }
    }
    proof {
        assert(shown.reverse().take(count as int) =~= shown.reverse());
    }
    out
}

/// The host is asked for what the command says: the call is the one for the
/// command and carries its own values, neither turned round nor exchanged.
pub proof fn lemma_calls_carry_the_commands_values(
    call: HostCall,
    command: Command,
    origin: CommandOrigin,
)
    requires
        puts(call, command, origin),
    ensures
        command is SetSystemVolume ==> call is SetSystemVolume && (
        command->SetSystemVolume_volume <= 100 ==> call->SetSystemVolume_volume
            == command->SetSystemVolume_volume),
        command is SetAppVolume ==> call is SetAppVolume && call->app_name@
            == command->app_name@ && (command->SetAppVolume_volume <= 100
            ==> call->SetAppVolume_volume == command->SetAppVolume_volume),
        command is SetMicrophone ==> call is SetMicrophone && call->SetMicrophone_active
            == command->SetMicrophone_active,
        command is SetDnd ==> call is SetDnd && call->SetDnd_active == command->SetDnd_active,
        command is KillProcess ==> call is KillProcess && call->pid == command->pid,
        command is SetClipboard ==> call is SetClipboardText && call->content@
            == command->content@,
        command is ClearClipboardHistory ==> call is ClearClipboardHistory,
        command is PasteClipboardRecord ==> call is PasteClipboardRecord
            && call->PasteClipboardRecord_record_id == command->PasteClipboardRecord_record_id,
        command is DeleteClipboardRecord ==> call is DeleteClipboardRecord
            && call->DeleteClipboardRecord_record_id == command->DeleteClipboardRecord_record_id,
        command is SetClipboardFavorite ==> call is SetClipboardFavorite
            && call->SetClipboardFavorite_record_id == command->SetClipboardFavorite_record_id
            && call->favorite == command->favorite,
        command is CreateClipboardLabel ==> call is CreateClipboardLabel
            && call->CreateClipboardLabel_name@ == command->CreateClipboardLabel_name@
            && call->CreateClipboardLabel_color@ == command->CreateClipboardLabel_color@,
        command is UpdateClipboardLabel ==> call is UpdateClipboardLabel
            && call->UpdateClipboardLabel_label_id@ == command->UpdateClipboardLabel_label_id@
            && call->UpdateClipboardLabel_name@ == command->UpdateClipboardLabel_name@
            && call->UpdateClipboardLabel_color@ == command->UpdateClipboardLabel_color@,
        command is DeleteClipboardLabel ==> call is DeleteClipboardLabel
            && call->DeleteClipboardLabel_label_id@ == command->DeleteClipboardLabel_label_id@,
        command is SetClipboardLabels ==> call is SetClipboardLabels
            && call->SetClipboardLabels_record_id == command->SetClipboardLabels_record_id
            && call->label_ids@ == command->label_ids@,
        command is FocusWindow ==> call is FocusWindow && call->window_id == command->window_id,
        command is SwitchSpace ==> call is SwitchSpace && call->space_id == command->space_id,
        command is ExecuteQuickAction ==> call is ExecuteAction && call->action_id@
            == command->action_id@,
        command is RunAutomation ==> call is RunAutomation
            && call->RunAutomation_automation_id@ == command->RunAutomation_automation_id@,
        command is SetAutomationEnabled ==> call is SetAutomationEnabled
            && call->SetAutomationEnabled_automation_id@
            == command->SetAutomationEnabled_automation_id@ && call->enabled == command->enabled,
        command is CancelAutomation ==> call is CancelAutomation && call->activity_id@
            == command->activity_id@,
        command is MarkNotificationRead ==> {
            &&& call is MarkNotificationRead
            &&& call->notification_id@ == command->notification_id@
            &&& call->device_id@ == origin.device_id@
            &&& call->device_name@ == origin.device_name@
        },
{
}

/// A policy is put to the host with its own bounds, and a playback action as the
/// action of the same name.
pub proof fn lemma_policies_and_playback_are_put_as_sent(
    call: HostCall,
    command: Command,
    origin: CommandOrigin,
)
    requires
        puts(call, command, origin),
    ensures
        command is UpdateClipboardPolicy && command->policy is Some ==> {
            let (sent, kept) = (command->policy->0, call->policy);
            &&& call is UpdateClipboardPolicy
            &&& kept.history_enabled == sent.history_enabled
            &&& kept.save_sensitive == sent.save_sensitive
            &&& kept.max_items == sent.max_items
            &&& kept.max_bytes == sent.max_bytes
            &&& kept.retention_days == sent.retention_days
        },
        command is PlaybackAction ==> call is Playback,
        command is PlaybackAction && command->action is Play ==> call->action is Play,
        command is PlaybackAction && command->action is Pause ==> call->action is Pause,
        command is PlaybackAction && command->action is Next ==> call->action is Next,
        command is PlaybackAction && command->action is Previous ==> call->action is Previous,
        command is PlaybackAction && command->action is SeekForward
            ==> call->action is SeekForward,
        command is PlaybackAction && command->action is SeekBackward
            ==> call->action is SeekBackward,
{
}

/// What a client needs to have a command carried out: to change is never covered
/// by the capability to read.
pub proof fn lemma_each_command_needs_its_own_capability(
    command: Command,
    features: Map<Feature, u32>,
    capabilities: Seq<PeerCapability>,
    now: i64,
)
    requires
        command_denial(Some(command), features, capabilities, now) is None,
    ensures
        command is PlaybackAction || command is SetSystemVolume || command is SetAppVolume
            || command is SetMicrophone || command is SetDnd ==> features.contains_key(
            Feature::Media,
        ) && capabilities.contains(PeerCapability::MediaControl),
        command is KillProcess ==> features.contains_key(Feature::Processes)
            && capabilities.contains(PeerCapability::ProcessManage),
        command is SetClipboard || command is ClearClipboardHistory
            || command is PasteClipboardRecord || command is DeleteClipboardRecord
            || command is SetClipboardFavorite || command is CreateClipboardLabel
            || command is UpdateClipboardLabel || command is DeleteClipboardLabel
            || command is SetClipboardLabels || command is UpdateClipboardPolicy
            ==> features.contains_key(Feature::Clipboard) && capabilities.contains(
            PeerCapability::ClipboardWrite,
        ),
        command is PasteClipboardRecord ==> capabilities.contains(PeerCapability::ClipboardRead)
            && capabilities.contains(PeerCapability::RemoteInputInject),
        command is FocusWindow || command is SwitchSpace ==> features.contains_key(
            Feature::Windows,
        ) && capabilities.contains(PeerCapability::WindowControl),
        command is ExecuteQuickAction || command is RunAutomation
            || command is SetAutomationEnabled || command is CancelAutomation
            ==> features.contains_key(Feature::Actions) && capabilities.contains(
            PeerCapability::ActionExecute,
        ),
        command is MarkNotificationRead ==> features.contains_key(Feature::Notifications)
            && capabilities.contains(PeerCapability::NotificationAcknowledge),
        command is ApplyClipboardSyncRecord ==> features.contains_key(Feature::ClipboardSync)
            && capabilities.contains(PeerCapability::ClipboardSync),
{
}

/// A proper command of a client with every feature and every capability that there
/// is for commands is let through.
pub proof fn lemma_permitted_commands_are_let_through(
    command: Command,
    features: Map<Feature, u32>,
    capabilities: Seq<PeerCapability>,
    now: i64,
)
    requires
        command_fault(Some(command), now) is None,
        features.contains_key(Feature::Media),
        features.contains_key(Feature::Processes),
        features.contains_key(Feature::Clipboard),
        features.contains_key(Feature::ClipboardSync),
        features.contains_key(Feature::Windows),
        features.contains_key(Feature::Actions),
        features.contains_key(Feature::Notifications),
        capabilities.contains(PeerCapability::MediaControl),
        capabilities.contains(PeerCapability::ProcessManage),
        capabilities.contains(PeerCapability::ClipboardRead),
        capabilities.contains(PeerCapability::ClipboardWrite),
        capabilities.contains(PeerCapability::ClipboardSync),
        capabilities.contains(PeerCapability::WindowControl),
        capabilities.contains(PeerCapability::ActionExecute),
        capabilities.contains(PeerCapability::NotificationAcknowledge),
        capabilities.contains(PeerCapability::RemoteInputInject),
    ensures
        command_denial(Some(command), features, capabilities, now) is None,
{
}

/// Which commands are proper by themselves: volumes are percentages, what is named
/// by a number is not named by zero, names are there, and a policy stays within its
/// bounds.
pub proof fn lemma_proper_commands(command: Command, now: i64)
    ensures
        command_fault(None, now) is Some,
        command is SetMicrophone || command is SetDnd || command is ClearClipboardHistory
            ==> command_fault(Some(command), now) is None,
        command is PlaybackAction ==> (command_fault(Some(command), now) is None
            <==> !(command->action is Unspecified)),
        command is SetSystemVolume ==> (command_fault(Some(command), now) is None
            <==> command->SetSystemVolume_volume <= 100),
        command is SetAppVolume ==> (command_fault(Some(command), now) is None
            ==> command->SetAppVolume_volume <= 100),
        command is KillProcess ==> (command_fault(Some(command), now) is None <==> command->pid
            > 0),
        command is SetClipboard ==> (command_fault(Some(command), now) is None
            <==> crate::text::utf8_len(command->content@) <= MAX_CLIPBOARD_TEXT_BYTES),
        command is PasteClipboardRecord ==> (command_fault(Some(command), now) is None
            <==> command->PasteClipboardRecord_record_id > 0),
        command is DeleteClipboardRecord ==> (command_fault(Some(command), now) is None
            <==> command->DeleteClipboardRecord_record_id > 0),
        command is SetClipboardFavorite ==> (command_fault(Some(command), now) is None
            <==> command->SetClipboardFavorite_record_id > 0),
        command is SetClipboardLabels ==> (command_fault(Some(command), now) is None
            <==> command->SetClipboardLabels_record_id > 0),
        command is DeleteClipboardLabel ==> (command_fault(Some(command), now) is None
            <==> command->DeleteClipboardLabel_label_id@.len() > 0),
        command is UpdateClipboardLabel && command_fault(Some(command), now) is None
            ==> command->UpdateClipboardLabel_label_id@.len() > 0,
        command is FocusWindow ==> (command_fault(Some(command), now) is None
            <==> command->window_id > 0),
        command is SwitchSpace ==> (command_fault(Some(command), now) is None
            <==> command->space_id > 0),
        command is UpdateClipboardPolicy ==> (command_fault(Some(command), now) is None <==> {
            &&& command->policy is Some
            &&& 1 <= command->policy->0.max_items <= 5_000
            &&& 1024 * 1024 <= command->policy->0.max_bytes <= 1024 * 1024 * 1024
            &&& command->policy->0.retention_days <= 10 * 365
        }),
        command is ApplyClipboardSyncRecord && command_fault(Some(command), now) is None
            ==> command->ApplyClipboardSyncRecord_record is Some,
{
}

/// What a client is answered: a failure with its own code and text, the output of
/// an action or an automation as far as it is not too long, and nothing else of
/// any other command.
pub proof fn lemma_answers_tell_how_commands_ended(
    r: crate::command_cache::CommandResponseView,
    request_id: u64,
    end: CommandEnd,
)
    requires
        answers_command(r, request_id, end),
    ensures
        r.request_id == request_id,
        end is Refused ==> r.output is None && r.status.code == end->failure.code,
        end is Returned && end->result is Err ==> r.output is None && r.status.code
            == end->result->Err_0.code,
        end is Returned && end->result is Ok ==> r.output is Some && r.status.code is Success,
        end is Returned && end->result is Ok && (end->call is ExecuteAction
            || end->call is RunAutomation) ==> r.output->0.is_prefix_of(end->result->Ok_0@) && (
        crate::text::utf8_len(end->result->Ok_0@) <= MAX_COMMAND_OUTPUT_BYTES ==> r.output->0
            == end->result->Ok_0@),
        end is Returned && end->result is Ok && !(end->call is ExecuteAction)
            && !(end->call is RunAutomation) ==> r.output->0.len() == 0,
{
    if end is Returned && end->result is Ok {
        let output = end->result->Ok_0@;
        let cut = crate::text::truncated(output, MAX_COMMAND_OUTPUT_BYTES as nat);
        crate::text::lemma_truncated(output, MAX_COMMAND_OUTPUT_BYTES as nat);
        if cut.len() < output.len() {
            crate::text::lemma_utf8_len_take(output, cut.len() as int + 1);
        }
    }
}

/// A call that changes what is heard has the media pushed, a switch of the space
/// the windows, and no other call has anything pushed.
pub proof fn lemma_refresh_follows_the_change(
    call: HostCall,
    command: Command,
    origin: CommandOrigin,
)
    requires
        puts(call, command, origin),
    ensures
        stale_after(call) is Media <==> command is PlaybackAction || command is SetSystemVolume
            || command is SetAppVolume || command is SetMicrophone || command is SetDnd,
        stale_after(call) is Windows <==> command is SwitchSpace,
{
}

/// Without a provider, the commands that need one are those for actions,
/// automations and notifications, and each is refused in its own words.
pub proof fn lemma_what_a_provider_is_needed_for(command: Command)
    ensures
        for_provider(command) <==> command is ExecuteQuickAction || command is RunAutomation
            || command is SetAutomationEnabled || command is CancelAutomation
            || command is MarkNotificationRead,
        command is ExecuteQuickAction ==> provider_missing(command)
            == "quick actions are unavailable"@,
        command is MarkNotificationRead ==> provider_missing(command)
            == "notifications are unavailable"@,
        command is RunAutomation || command is SetAutomationEnabled || command is CancelAutomation
            ==> provider_missing(command) == "automations unavailable"@,
{
}

/// Short output is shown whole: as many lines as there are, each as it is.
pub proof fn lemma_short_output_is_whole(lines: Seq<Seq<char>>, count: nat, total: nat)
    requires
        count + lines.len() <= MAX_ACTION_OUTPUT_LINES,
        total + crate::text::texts_bytes(lines) <= MAX_ACTION_OUTPUT_SNAPSHOT_BYTES,
        forall|i: int|
            0 <= i < lines.len() ==> crate::text::utf8_len(#[trigger] lines[i])
                <= MAX_ACTION_OUTPUT_LINE_BYTES,
    ensures
        last_lines(lines, count, total) == lines,
    decreases lines.len(),
{
    if lines.len() > 0 {
        let line = lines.last();
        let cut = crate::text::truncated(line, MAX_ACTION_OUTPUT_LINE_BYTES as nat);
        crate::text::lemma_truncated(line, MAX_ACTION_OUTPUT_LINE_BYTES as nat);
        assert(crate::text::utf8_len(lines[lines.len() - 1]) <= MAX_ACTION_OUTPUT_LINE_BYTES);
        if cut.len() < line.len() {
            crate::text::lemma_utf8_len_take(line, cut.len() as int + 1);
        }
        assert(cut =~= line);
        let grown = total + crate::text::utf8_len(line);
        lemma_short_output_is_whole(lines.drop_last(), count + 1, grown);
        assert(lines =~= lines.drop_last().push(line));
    } else {
        assert(last_lines(lines, count, total) =~= lines);
    }
}

} // verus!
