//! What the host offers beside its own state: quick actions, automations,
//! notifications and the shared input focus.

use vstd::prelude::*;

use crate::status::ErrorCode;

verus! {

/// Why the host could not do what it was asked.
#[derive(Debug, Clone, Copy, PartialEq, Eq, Structural)]
pub enum HostCapabilityErrorCode {
    InvalidArgument,
    NotFound,
    Conflict,
    FailedPrecondition,
    Unavailable,
    Unsupported,
    Internal,
}

/// The outcome that a failure of the host is reported as.
pub open spec fn host_outcome(code: HostCapabilityErrorCode) -> ErrorCode {
    match code {
        HostCapabilityErrorCode::InvalidArgument => ErrorCode::InvalidArgument,
        HostCapabilityErrorCode::NotFound => ErrorCode::NotFound,
        HostCapabilityErrorCode::Conflict => ErrorCode::Conflict,
        HostCapabilityErrorCode::FailedPrecondition => ErrorCode::FailedPrecondition,
        HostCapabilityErrorCode::Unavailable => ErrorCode::Unavailable,
        HostCapabilityErrorCode::Unsupported => ErrorCode::Unsupported,
        HostCapabilityErrorCode::Internal => ErrorCode::Internal,
    }
}

impl HostCapabilityErrorCode {
    /// The outcome that this failure is reported as.
    pub fn protocol_code(self) -> (r: ErrorCode)
        ensures
            r == host_outcome(self),
    {
        match self {
            HostCapabilityErrorCode::InvalidArgument => ErrorCode::InvalidArgument,
            HostCapabilityErrorCode::NotFound => ErrorCode::NotFound,
            HostCapabilityErrorCode::Conflict => ErrorCode::Conflict,
            HostCapabilityErrorCode::FailedPrecondition => ErrorCode::FailedPrecondition,
            HostCapabilityErrorCode::Unavailable => ErrorCode::Unavailable,
            HostCapabilityErrorCode::Unsupported => ErrorCode::Unsupported,
            HostCapabilityErrorCode::Internal => ErrorCode::Internal,
        }
    }
}

/// A failure of the host with its explanation.
#[derive(Debug, PartialEq, Eq)]
pub struct HostCapabilityError {
    pub code: HostCapabilityErrorCode,
    pub message: String,
}

impl HostCapabilityError {
    pub fn new(code: HostCapabilityErrorCode, message: &str) -> (r: HostCapabilityError)
        ensures
            r.code == code,
            r.message@ == message@,
    {
        HostCapabilityError { code, message: message.to_owned() }
    }
}

/// A quick action as the host lists it.
#[derive(Debug, Clone, PartialEq, Eq)]
pub struct QuickActionInfo {
    pub id: String,
    pub name: String,
    pub icon_id: String,
    pub icon_svg: String,
    pub color: String,
    pub group: String,
    pub action_type_label: String,
    pub sort_order: u32,
    pub is_toggle: bool,
    pub is_running: bool,
    pub requires_confirmation: bool,
}

/// An automation as the host lists it.
#[derive(Debug, Clone, PartialEq, Eq)]
pub struct AutomationInfo {
    pub id: String,
    pub name: String,
    pub summary: String,
    pub enabled: bool,
    pub latest_activity_id: Option<String>,
    pub latest_status: Option<String>,
    pub reason: Option<String>,
    pub next_run_at_ms: Option<i64>,
    pub completed_steps: u32,
    pub total_steps: u32,
}

/// One line that an action printed.
#[derive(Debug, Clone, PartialEq, Eq)]
pub struct OutputLine {
    pub action_id: String,
    pub text: String,
}

/// A notification that the host keeps for trusted devices.
#[derive(Debug, Clone, PartialEq, Eq)]
pub struct HostNotificationInfo {
    pub id: String,
    pub title: String,
    pub body: String,
    pub source: String,
    pub kind: i32,
    pub reference: Option<String>,
    pub created_at_ms: i64,
    pub read_at_ms: Option<i64>,
    pub read_by_device_name: Option<String>,
}

/// Whether routed input reaches its target.
#[derive(Debug, Clone, Copy, PartialEq, Eq, Structural)]
pub enum WorkspaceInputRouteState {
    Active,
    Suspended,
    Ended,
}

/// Why the input focus moved.
#[derive(Debug, Clone, Copy, PartialEq, Eq, Structural)]
pub enum WorkspaceInputFocusCause {
    SessionStarted,
    MobilePortal,
    DesktopPortal,
    PhysicalActivity,
    SessionEnded,
    GatewayUnavailable,
}

/// Where the input of the workspace goes. It has an owner only while a session
/// that began on a mobile device holds the gateway.
#[derive(Debug, Clone, PartialEq, Eq)]
pub struct WorkspaceInputSnapshot {
    pub owner_device_id: Option<String>,
    pub controller_device_id: String,
    pub logical_target_device_id: String,
    pub target_display_id: String,
    pub control_epoch: u64,
    pub supports_system_gestures: bool,
    pub state: WorkspaceInputRouteState,
    pub cause: WorkspaceInputFocusCause,
    pub message: String,
}

/// What the user interface of the host is told.
#[derive(Debug, Clone, PartialEq, Eq)]
pub enum ServerEvent {
    /// A new device wants to pair.
    PairingRequest { device_name: String, device_id: String, pairing_code: String },
    /// Pairing was approved or rejected.
    PairingResult { device_name: String, accepted: bool },
    /// A wish to pair was rejected, cancelled or timed out.
    PairingCancelled { device_id: String, device_name: String },
    /// This host connects to another one, which shows the same code.
    OutgoingPairingCode { device_id: String, device_name: String, pairing_code: String },
    /// The code for connecting to another host is no longer needed.
    OutgoingPairingFinished { device_id: String },
    /// A device connected.
    DeviceConnected { device_id: String, device_name: String },
    /// A device disconnected.
    DeviceDisconnected { device_id: String, device_name: String },
    /// A trusted device wished for an input session while the operating system
    /// does not permit the host to inject input.
    InputPermissionRequired { device_name: String },
    /// A trusted device began an input session.
    InputSessionStarted { session_id: String, device_id: String, device_name: String },
    /// An input session ended or timed out.
    InputSessionEnded { session_id: String, device_id: String, device_name: String },
    /// What happened to motion within about a second.
    InputMetrics { session_id: String, window: MetricsWindow },
}

/// What happened to motion within a window of time; times are in microseconds.
#[derive(Debug, Clone, Copy, PartialEq, Eq, Structural)]
pub struct MetricsWindow {
    pub elapsed_us: u64,
    pub motion_received: u64,
    pub quartz_submitted: u64,
    pub average_gap_us: u64,
    pub maximum_gap_us: u64,
    pub maximum_source_gap_us: u64,
    pub maximum_transport_stall_us: u64,
    pub average_apply_us: u64,
    pub maximum_apply_us: u64,
}

/// A failure of the host is told as what it is.
pub proof fn lemma_host_failures_are_told_as_they_are(code: HostCapabilityErrorCode)
    ensures
        host_outcome(code) is InvalidArgument <==> code is InvalidArgument,
        host_outcome(code) is NotFound <==> code is NotFound,
        host_outcome(code) is Conflict <==> code is Conflict,
        host_outcome(code) is FailedPrecondition <==> code is FailedPrecondition,
        host_outcome(code) is Unavailable <==> code is Unavailable,
        host_outcome(code) is Unsupported <==> code is Unsupported,
        host_outcome(code) is Internal <==> code is Internal,
{
}

} // verus!
