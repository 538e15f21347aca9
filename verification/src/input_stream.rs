//! Remote input on a connection: how a session begins and ends, which events a
//! client may send, and what it is told of them.

use vstd::prelude::*;
use vstd::string::*;

use crate::features::{Feature, SelectedFeatures};
use crate::host::{
    HostCapabilityError, HostCapabilityErrorCode, MetricsWindow, WorkspaceInputFocusCause,
    WorkspaceInputRouteState, WorkspaceInputSnapshot,
};
use crate::input_session::{
    InputFeedbackSnapshot, InputLease, InputSessionManager, MotionDelta, MouseButton, NativeEvent,
    ReliableEvent, ScrollGesturePhase, INPUT_LEASE_TIMEOUT_MS, MAX_RELIABLE_EVENTS_PER_FRAME,
    MAX_RELIABLE_FRAMES_PER_SECOND,
};
use crate::peer::{has_capability, PeerCapability};
use crate::status::{ok_status, status, ErrorCode, Status};
use crate::text::{byte_len, str_eq};

verus! {

/// The version of system gestures that is understood.
pub const SYSTEM_GESTURE_FORMAT_VERSION: u32 = 1;

/// The longest text that a client may type at once, in bytes.
pub const MAX_TEXT_COMMIT_BYTES: usize = 4096;

/// Whether the operating system lets the host inject input.
#[derive(Debug, Clone, Copy, PartialEq, Eq, Structural)]
pub enum InputPermission {
    Granted,
    Denied,
    Unsupported,
}

/// A wish for a remote-input session.
#[derive(Debug, Clone, Copy, PartialEq, Eq, Structural)]
pub struct InputSessionRequest {
    pub request_id: u64,
    pub workspace_routing: bool,
}

/// The answer to a wish for a remote-input session.
#[derive(Debug, PartialEq, Eq)]
pub struct InputSessionResult {
    pub request_id: u64,
    pub status: Status,
    pub session_id: u64,
    pub epoch: u32,
    pub permission: InputPermission,
    pub lease_timeout_ms: u32,
    pub max_datagram_rate: u32,
    pub max_reliable_events_per_frame: u32,
    pub max_reliable_frame_rate: u32,
    pub supports_system_gestures: bool,
    pub workspace_routing_active: bool,
    pub gateway_device_id: String,
    pub logical_target_device_id: String,
    pub target_display_id: String,
    pub control_epoch: u64,
}

/// True when `r` says nothing of a route.
pub open spec fn unrouted(r: InputSessionResult) -> bool {
    &&& !r.supports_system_gestures
    &&& !r.workspace_routing_active
    &&& r.gateway_device_id@.len() == 0
    &&& r.logical_target_device_id@.len() == 0
    &&& r.target_display_id@.len() == 0
    &&& r.control_epoch == 0
}

/// True when `r` names a lease and tells the limits of a session.
pub open spec fn names_lease(
    r: InputSessionResult,
    request_id: u64,
    lease: InputLease,
    permission: InputPermission,
) -> bool {
    &&& r.request_id == request_id
    &&& r.session_id == lease.session_id
    &&& r.epoch == lease.epoch
    &&& r.permission == permission
    &&& r.lease_timeout_ms == INPUT_LEASE_TIMEOUT_MS
    &&& r.max_datagram_rate == 0
    &&& r.max_reliable_events_per_frame == MAX_RELIABLE_EVENTS_PER_FRAME
    &&& r.max_reliable_frame_rate == MAX_RELIABLE_FRAMES_PER_SECOND
}

/// No lease.
pub open spec fn no_lease() -> InputLease {
    InputLease { session_id: 0, epoch: 0 }
}

/// True when `r` refuses a session.
pub open spec fn refuses_session(
    r: InputSessionResult,
    request_id: u64,
    lease: InputLease,
    permission: InputPermission,
    code: ErrorCode,
    message: Seq<char>,
) -> bool {
    &&& names_lease(r, request_id, lease, permission)
    &&& unrouted(r)
    &&& crate::status::reports(r.status@, code, message)
}

/// The answer to a wish for a session, or to the wish to end one.
pub fn input_session_result(
    request_id: u64,
    accepted: bool,
    lease: InputLease,
    permission: InputPermission,
    message: &str,
    failure_code: ErrorCode,
) -> (r: InputSessionResult)
    ensures
        names_lease(r, request_id, lease, permission),
        unrouted(r),
        accepted ==> crate::status::is_ok_status(r.status@),
        !accepted ==> crate::status::reports(r.status@, failure_code, message@),
{
    InputSessionResult {
        request_id,
        status: if accepted {
            ok_status()
        } else {
            status(failure_code, message)
        },
        session_id: lease.session_id,
        epoch: lease.epoch,
        permission,
        lease_timeout_ms: INPUT_LEASE_TIMEOUT_MS as u32,
        max_datagram_rate: 0,
        max_reliable_events_per_frame: MAX_RELIABLE_EVENTS_PER_FRAME as u32,
        max_reliable_frame_rate: MAX_RELIABLE_FRAMES_PER_SECOND as u32,
        supports_system_gestures: false,
        workspace_routing_active: false,
        gateway_device_id: String::new(),
        logical_target_device_id: String::new(),
        target_display_id: String::new(),
        control_epoch: 0,
    }
}

/// Refuses a session without naming a lease.
pub fn refuse_session(
    request_id: u64,
    permission: InputPermission,
    code: ErrorCode,
    message: &str,
) -> (r: InputSessionResult)
    ensures
        refuses_session(r, request_id, no_lease(), permission, code, message@),
{
    input_session_result(
        request_id,
        false,
        InputLease { session_id: 0, epoch: 0 },
        permission,
        message,
        code,
    )
}

/// Why a session is refused before anything else is tried, if so.
pub open spec fn session_denial(
    request: InputSessionRequest,
    features: Map<Feature, u32>,
    capabilities: Seq<PeerCapability>,
    router_available: bool,
    permission: InputPermission,
) -> Option<crate::access::FailureView> {
    if !features.contains_key(Feature::InputReliable) {
        Some(
            crate::access::FailureView {
                code: ErrorCode::Unsupported,
                message: "remote input features were not negotiated"@,
            },
        )
    } else if !capabilities.contains(PeerCapability::RemoteInputInject) {
        Some(
            crate::access::FailureView {
                code: ErrorCode::PermissionDenied,
                message: "remote-input.inject capability was not granted"@,
            },
        )
    } else if request.workspace_routing && (!features.contains_key(Feature::WorkspaceInput)
        || !router_available) {
        Some(
            crate::access::FailureView {
                code: ErrorCode::Unsupported,
                message: "workspace input routing is unavailable"@,
            },
        )
    } else if permission != InputPermission::Granted {
        Some(
            crate::access::FailureView {
                code: ErrorCode::PermissionDenied,
                message: "desktop input permission is not granted"@,
            },
        )
    } else {
        None
    }
}

/// No session begins without the permission of the operating system, the feature
/// and the capability.
pub proof fn lemma_sessions_need_access(
    request: InputSessionRequest,
    features: Map<Feature, u32>,
    capabilities: Seq<PeerCapability>,
    router_available: bool,
    permission: InputPermission,
)
    requires
        session_denial(request, features, capabilities, router_available, permission) is None,
    ensures
        permission == InputPermission::Granted,
        features.contains_key(Feature::InputReliable),
        capabilities.contains(PeerCapability::RemoteInputInject),
        request.workspace_routing ==> features.contains_key(Feature::WorkspaceInput)
            && router_available,
{
}

/// Decides whether a session is refused before anything else is tried.
pub fn check_input_session(
    request: &InputSessionRequest,
    features: &SelectedFeatures,
    capabilities: &Vec<PeerCapability>,
    router_available: bool,
    permission: InputPermission,
) -> (r: Result<(), InputSessionResult>)
    requires
        features.wf(),
    ensures
        match session_denial(*request, features@, capabilities@, router_available, permission) {
            Some(failure) => r is Err && refuses_session(
                r->Err_0,
                request.request_id,
                no_lease(),
                permission,
                failure.code,
                failure.message,
            ),
            None => r is Ok,
        },
{
    if !features.contains(Feature::InputReliable) {
        return Err(
            refuse_session(
                request.request_id,
                permission,
                ErrorCode::Unsupported,
                "remote input features were not negotiated",
            ),
        );
    }
    if !has_capability(capabilities, PeerCapability::RemoteInputInject) {
        return Err(
            refuse_session(
                request.request_id,
                permission,
                ErrorCode::PermissionDenied,
                "remote-input.inject capability was not granted",
            ),
        );
    }
    if request.workspace_routing && (!features.contains(Feature::WorkspaceInput)
        || !router_available) {
        return Err(
            refuse_session(
                request.request_id,
                permission,
                ErrorCode::Unsupported,
                "workspace input routing is unavailable",
            ),
        );
    }
    if permission != InputPermission::Granted {
        return Err(
            refuse_session(
                request.request_id,
                permission,
                ErrorCode::PermissionDenied,
                "desktop input permission is not granted",
            ),
        );
    }
    Ok(())
}

/// Tells whether the user of the host is to be asked for the permission to
/// inject input.
pub fn asks_permission(
    request: &InputSessionRequest,
    features: &SelectedFeatures,
    capabilities: &Vec<PeerCapability>,
    router_available: bool,
    permission: InputPermission,
) -> (r: bool)
    requires
        features.wf(),
    ensures
        r == (permission != InputPermission::Granted && session_denial(
            *request,
            features@,
            capabilities@,
            router_available,
            InputPermission::Granted,
        ) is None),
{
    permission != InputPermission::Granted && check_input_session(
        request,
        features,
        capabilities,
        router_available,
        InputPermission::Granted,
    ).is_ok()
}

/// Takes a lease for a session that nothing stands against.
pub fn take_lease(
    manager: &mut InputSessionManager,
    request: &InputSessionRequest,
    device_id: &str,
    device_name: &str,
    permission: InputPermission,
    now: u64,
) -> (r: Result<InputLease, InputSessionResult>)
    requires
        old(manager).wf(),
    ensures
        final(manager).wf(),
        if old(manager)@.len() == 0 {
            &&& r is Ok
            &&& 0 < r->Ok_0.session_id <= i64::MAX
            &&& r->Ok_0.epoch != 0
            &&& final(manager)@ == seq![
                crate::input_session::new_session(
                    r->Ok_0,
                    device_id@,
                    request.workspace_routing,
                    now,
                ),
            ]
        } else {
            &&& r is Err
            &&& refuses_session(
                r->Err_0,
                request.request_id,
                no_lease(),
                permission,
                ErrorCode::Busy,
                crate::input_session::taken_message(old(manager)@[0]),
            )
            &&& final(manager)@ == old(manager)@
        },
{
    match manager.acquire_with_routing(device_id, device_name, request.workspace_routing, now) {
        Ok(lease) => Ok(lease),
        Err(message) => Err(
            refuse_session(
                request.request_id,
                permission,
                ErrorCode::Busy,
                message.as_str(),
            ),
        ),
    }
}

/// The route of a session could not be set up: its lease is given back.
pub fn route_failed(
    manager: &mut InputSessionManager,
    lease: InputLease,
    request_id: u64,
    permission: InputPermission,
    error: HostCapabilityError,
) -> (r: InputSessionResult)
    requires
        old(manager).wf(),
    ensures
        final(manager).wf(),
        final(manager)@ == if crate::input_session::active(old(manager)@, lease) {
            old(manager)@.remove(crate::input_session::place(old(manager)@, lease))
        } else {
            old(manager)@
        },
        refuses_session(
            r,
            request_id,
            no_lease(),
            permission,
            crate::host::host_outcome(error.code),
            error.message@,
        ),
{
    manager.release(lease, None);
    refuse_session(request_id, permission, error.code.protocol_code(), error.message.as_str())
}

/// True when `r` tells where a session goes.
pub open spec fn tells_route(
    r: InputSessionResult,
    route: Option<&WorkspaceInputSnapshot>,
    native_gestures: bool,
) -> bool {
    match route {
        Some(route) => {
            &&& r.supports_system_gestures == route.supports_system_gestures
            &&& r.workspace_routing_active
            &&& r.gateway_device_id@ == route.controller_device_id@
            &&& r.logical_target_device_id@ == route.logical_target_device_id@
            &&& r.target_display_id@ == route.target_display_id@
            &&& r.control_epoch == route.control_epoch
        },
        None => {
            &&& r.supports_system_gestures == native_gestures
            &&& !r.workspace_routing_active
            &&& r.gateway_device_id@.len() == 0
            &&& r.logical_target_device_id@.len() == 0
            &&& r.target_display_id@.len() == 0
            &&& r.control_epoch == 0
        },
    }
}

/// A session has begun: it is the active one of this connection from now on.
pub fn session_started(
    active: &mut Option<InputLease>,
    request_id: u64,
    lease: InputLease,
    permission: InputPermission,
    route: Option<&WorkspaceInputSnapshot>,
    native_gestures: bool,
) -> (r: InputSessionResult)
    ensures
        *final(active) == Some(lease),
        names_lease(r, request_id, lease, permission),
        crate::status::is_ok_status(r.status@),
        tells_route(r, route, native_gestures),
{
    *active = Some(lease);
    let mut r = input_session_result(
        request_id,
        true,
        lease,
        permission,
        "",
        ErrorCode::Success,
    );
    match route {
        Some(route) => {
            r.supports_system_gestures = route.supports_system_gestures;
            r.workspace_routing_active = true;
            r.gateway_device_id = route.controller_device_id.clone();
            r.logical_target_device_id = route.logical_target_device_id.clone();
            r.target_display_id = route.target_display_id.clone();
            r.control_epoch = route.control_epoch;
        },
        None => {
            r.supports_system_gestures = native_gestures;
        },
    }
    r
}

/// Answers the wish to end a session, of which `was_active` tells whether it was
/// the active one.
pub fn session_ended(
    request_id: u64,
    was_active: bool,
    lease: InputLease,
    permission: InputPermission,
) -> (r: InputSessionResult)
    ensures
        names_lease(r, request_id, lease, permission),
        unrouted(r),
        if was_active {
            crate::status::is_ok_status(r.status@)
        } else {
            crate::status::reports(
                r.status@,
                ErrorCode::FailedPrecondition,
                "input session is not active"@,
            )
        },
{
    input_session_result(
        request_id,
        was_active,
        lease,
        permission,
        "input session is not active",
        ErrorCode::FailedPrecondition,
    )
}

/// What is to be done before a session has ended.
#[derive(Debug)]
pub struct LeaseEnd {
    /// The router of the workspace is told.
    pub workspace_routed: bool,
    /// The native input system is asked to let go of everything.
    pub release_all: bool,
    /// What the native input system is given before that.
    pub releases: Vec<NativeEvent>,
}

/// The sessions after the active one of a connection has ended.
pub open spec fn sessions_without(
    sessions: Seq<crate::input_session::SessionView>,
    active: Option<InputLease>,
) -> Seq<crate::input_session::SessionView> {
    match active {
        Some(lease) if crate::input_session::active(sessions, lease) => sessions.remove(
            crate::input_session::place(sessions, lease),
        ),
        _ => sessions,
    }
}

/// True when `end` says what is to be done before the session of a lease has
/// ended, where `cancelled` is what cancelling its gesture gave: the router is
/// told of a session whose input went to the workspace, and for any other one the
/// native input system is asked to let go of everything.
pub open spec fn ends_session(
    end: LeaseEnd,
    sessions: Seq<crate::input_session::SessionView>,
    lease: InputLease,
    device_id: Seq<char>,
    cancelled: Option<u64>,
) -> bool {
    let i = crate::input_session::place(sessions, lease);
    &&& end.workspace_routed == (crate::input_session::lease_error(sessions, lease, device_id)
        is None && sessions[i].workspace_routed)
    &&& end.release_all == !end.workspace_routed
    &&& if crate::input_session::active(sessions, lease) {
        crate::input_session::native_views(end.releases@) == crate::input_session::releases(
            crate::input_session::held_of(sessions[i]),
            cancelled,
            crate::input_session::other_keys(sessions.remove(i)),
            crate::input_session::other_buttons(sessions.remove(i)),
        )
    } else {
        end.releases@.len() == 0
    }
}

/// Begins to end the session of a lease if it is the active one of this
/// connection, where `cancelled` is what cancelling its gesture gave. The session
/// keeps its place until the host has done what is asked of it; then
/// [`finish_lease_end`] takes it away.
pub fn begin_lease_end(
    active: &mut Option<InputLease>,
    manager: &InputSessionManager,
    lease: InputLease,
    device_id: &str,
    cancelled: Option<u64>,
) -> (r: Option<LeaseEnd>)
    requires
        manager.wf(),
    ensures
        if *old(active) != Some(lease) {
            &&& r is None
            &&& *final(active) == *old(active)
        } else {
            &&& r is Some
            &&& *final(active) == None::<InputLease>
            &&& ends_session(r->0, manager@, lease, device_id@, cancelled)
        },
{
    let current = match *active {
        Some(current) => current.session_id == lease.session_id && current.epoch == lease.epoch,
        None => false,
    };
    if !current {
        return None;
    }
    *active = None;
    let workspace_routed = manager.is_workspace_routed(lease, device_id);
    let releases = manager.releases_of(lease, cancelled);
    Some(LeaseEnd { workspace_routed, release_all: !workspace_routed, releases })
}

/// Ends the session of a lease after the host has done what was asked of it.
pub fn finish_lease_end(manager: &mut InputSessionManager, lease: InputLease)
    requires
        old(manager).wf(),
    ensures
        final(manager).wf(),
        final(manager)@ == sessions_without(old(manager)@, Some(lease)),
{
    manager.release(lease, None);
}

/// From the begin of the end of a session until the host has let go, nobody can
/// begin another one; afterwards anybody can.
pub proof fn lemma_ending_lease_stays_taken(
    sessions: Seq<crate::input_session::SessionView>,
    lease: InputLease,
)
    requires
        crate::input_session::valid(sessions),
        crate::input_session::active(sessions, lease),
    ensures
        crate::input_session::acquire_error(sessions) is Some,
        crate::input_session::acquire_error(sessions_without(sessions, Some(lease))) is None,
{
}

/// What is done with the wish for a session.
#[derive(Debug)]
pub enum BeginStep {
    /// It is refused, and the user of the host may have to be asked for the
    /// permission to inject input.
    Refuse { answer: InputSessionResult, ask_permission: bool },
    /// The previous session of this connection is to end first; then
    /// [`resume_input_session`] goes on.
    EndFirst { previous: InputLease, end: LeaseEnd },
    /// It is refused because another device has the input.
    Busy { answer: InputSessionResult },
    /// It has a lease.
    Lease { lease: InputLease },
}

/// True when a lease is taken or refused, where `before` are the sessions that
/// stand against it and `after` those that there are then.
pub open spec fn leases(
    r: BeginStep,
    before: Seq<crate::input_session::SessionView>,
    after: Seq<crate::input_session::SessionView>,
    request: InputSessionRequest,
    device_id: Seq<char>,
    permission: InputPermission,
    now: u64,
) -> bool {
    match crate::input_session::acquire_error(before) {
        None => {
            &&& r is Lease
            &&& 0 < r->lease.session_id <= i64::MAX
            &&& r->lease.epoch != 0
            &&& after == seq![
                crate::input_session::new_session(
                    r->lease,
                    device_id,
                    request.workspace_routing,
                    now,
                ),
            ]
        },
        Some(message) => {
            &&& r is Busy
            &&& refuses_session(
                r->Busy_answer,
                request.request_id,
                no_lease(),
                permission,
                ErrorCode::Busy,
                message,
            )
            &&& after == before
        },
    }
}

/// Takes up the wish for a session: unless something stands against it, the
/// previous session of this connection begins to end, or if there is none, a
/// lease is taken. `cancelled` is what cancelling the gesture of the previous
/// session gave.
pub fn begin_input_session(
    active: &mut Option<InputLease>,
    manager: &mut InputSessionManager,
    request: &InputSessionRequest,
    features: &SelectedFeatures,
    capabilities: &Vec<PeerCapability>,
    router_available: bool,
    permission: InputPermission,
    device_id: &str,
    device_name: &str,
    cancelled: Option<u64>,
    now: u64,
) -> (r: BeginStep)
    requires
        old(manager).wf(),
        features.wf(),
    ensures
        final(manager).wf(),
        match session_denial(*request, features@, capabilities@, router_available, permission) {
            Some(failure) => {
                &&& r is Refuse
                &&& refuses_session(
                    r->Refuse_answer,
                    request.request_id,
                    no_lease(),
                    permission,
                    failure.code,
                    failure.message,
                )
                &&& r->ask_permission == (permission != InputPermission::Granted
                    && session_denial(
                    *request,
                    features@,
                    capabilities@,
                    router_available,
                    InputPermission::Granted,
                ) is None)
                &&& *final(active) == *old(active)
                &&& final(manager)@ == old(manager)@
            },
            None => {
                &&& *final(active) == None::<InputLease>
                &&& match *old(active) {
                    Some(previous) => {
                        &&& r is EndFirst
                        &&& r->previous == previous
                        &&& ends_session(
                            r->end,
                            old(manager)@,
                            previous,
                            device_id@,
                            cancelled,
                        )
                        &&& final(manager)@ == old(manager)@
                    },
                    None => leases(
                        r,
                        old(manager)@,
                        final(manager)@,
                        *request,
                        device_id@,
                        permission,
                        now,
                    ),
                }
            },
        },
{
    if let Err(answer) = check_input_session(
        request,
        features,
        capabilities,
        router_available,
        permission,
    ) {
        let ask_permission = asks_permission(
            request,
            features,
            capabilities,
            router_available,
            permission,
        );
        return BeginStep::Refuse { answer, ask_permission };
    }
    if let Some(previous) = *active {
        let ended = begin_lease_end(active, manager, previous, device_id, cancelled);
        if let Some(end) = ended {
            return BeginStep::EndFirst { previous, end };
        }
    }
    match take_lease(manager, request, device_id, device_name, permission, now) {
        Ok(lease) => BeginStep::Lease { lease },
        Err(answer) => BeginStep::Busy { answer },
    }
}

/// Goes on with the wish for a session after the host has done what the end of
/// the previous session asked of it: that session ends and a lease is taken.
pub fn resume_input_session(
    manager: &mut InputSessionManager,
    previous: InputLease,
    request: &InputSessionRequest,
    permission: InputPermission,
    device_id: &str,
    device_name: &str,
    now: u64,
) -> (r: BeginStep)
    requires
        old(manager).wf(),
    ensures
        final(manager).wf(),
        leases(
            r,
            sessions_without(old(manager)@, Some(previous)),
            final(manager)@,
            *request,
            device_id@,
            permission,
            now,
        ),
{
    finish_lease_end(manager, previous);
    match take_lease(manager, request, device_id, device_name, permission, now) {
        Ok(lease) => BeginStep::Lease { lease },
        Err(answer) => BeginStep::Busy { answer },
    }
}

/// Motion of the pointer and of the scroll position, in 256ths; what has not
/// moved is left out.
#[derive(Debug, Clone, Copy, PartialEq, Eq)]
pub struct MotionEvents {
    pub pointer: Option<(i64, i64)>,
    pub scroll: Option<(i64, i64)>,
    pub precise_scroll: bool,
}

/// The motion that a difference comes down to.
pub open spec fn moves(delta: MotionDelta) -> MotionEvents {
    MotionEvents {
        pointer: if delta.pointer_x_256 != 0 || delta.pointer_y_256 != 0 {
            Some((delta.pointer_x_256, delta.pointer_y_256))
        } else {
            None
        },
        scroll: if delta.scroll_x_256 != 0 || delta.scroll_y_256 != 0 {
            Some((delta.scroll_x_256, delta.scroll_y_256))
        } else {
            None
        },
        precise_scroll: delta.precise_scroll,
    }
}

/// The motion that the native input system is given.
pub fn motion_events(delta: &MotionDelta) -> (r: MotionEvents)
    ensures
        r == moves(*delta),
{
    MotionEvents {
        pointer: if delta.pointer_x_256 != 0 || delta.pointer_y_256 != 0 {
            Some((delta.pointer_x_256, delta.pointer_y_256))
        } else {
            None
        },
        scroll: if delta.scroll_x_256 != 0 || delta.scroll_y_256 != 0 {
            Some((delta.scroll_x_256, delta.scroll_y_256))
        } else {
            None
        },
        precise_scroll: delta.precise_scroll,
    }
}

/// Where events go.
#[derive(Debug, Clone, Copy, PartialEq, Eq, Structural)]
pub enum InputTarget {
    Workspace,
    Native,
}

/// Where the events of a session go, if there is a way.
pub open spec fn target_of(workspace_routed: bool, router: bool) -> Option<InputTarget> {
    if !workspace_routed {
        Some(InputTarget::Native)
    } else if router {
        Some(InputTarget::Workspace)
    } else {
        None
    }
}

/// Decides where the events of a session go, where `router` tells whether there
/// is a router for the workspace, and `missing` is the reason that is given when
/// there is none.
pub fn input_target(workspace_routed: bool, router: bool, missing: &str) -> (r: Result<
    InputTarget,
    HostCapabilityError,
>)
    ensures
        match target_of(workspace_routed, router) {
            Some(target) => r == Ok::<InputTarget, HostCapabilityError>(target),
            None => r is Err && r->Err_0.code == HostCapabilityErrorCode::Unavailable
                && r->Err_0.message@ == missing@,
        },
{
    if !workspace_routed {
        Ok(InputTarget::Native)
    } else if router {
        Ok(InputTarget::Workspace)
    } else {
        Err(HostCapabilityError::new(HostCapabilityErrorCode::Unavailable, missing))
    }
}

/// A mouse button as it travels; unspecified also stands for one that is not
/// known.
#[derive(Debug, Clone, Copy, PartialEq, Eq, Structural)]
pub enum WireMouseButton {
    Unspecified,
    Left,
    Right,
    Middle,
}

/// The phase of a scroll gesture as it travels; unspecified also stands for one
/// that is not known.
#[derive(Debug, Clone, Copy, PartialEq, Eq, Structural)]
pub enum WireScrollPhase {
    Unspecified,
    Began,
    Ended,
    Cancelled,
    MomentumBegan,
    MomentumEnded,
}

/// What the sequence of a system gesture makes of one of its steps: the steps
/// that follow from it, and whether the gesture goes on.
#[derive(Debug, PartialEq, Eq)]
pub struct GestureOutcome {
    pub phases: Vec<u64>,
    pub active: bool,
}

/// An input event as it travels. A system gesture comes with what its sequence
/// makes of it, or with what is wrong with it; a request to release everything
/// comes with what cancelling the gesture gives.
#[derive(Debug, PartialEq, Eq)]
pub enum WireInputEvent {
    PointerButton { button: WireMouseButton, down: bool, click_count: u32 },
    Key { hid_usage: u32, down: bool, repeat: bool },
    TextCommit { text: String },
    ReleaseAll { cancelled: Option<u64> },
    SystemGesture { format_version: u32, outcome: Result<GestureOutcome, String> },
    ScrollGesture { phase: WireScrollPhase },
}

/// What an event that travelled means, or what is wrong with it.
pub open spec fn meant_event(event: Option<WireInputEvent>) -> Result<ReliableEvent, Seq<char>> {
    match event {
        None => Err("empty reliable input event"@),
        Some(WireInputEvent::PointerButton { button, down, click_count }) => if !(1 <= click_count
            <= 3) {
            Err("pointer click count must be between 1 and 3"@)
        } else {
            let click_count = click_count as u8;
            match button {
                WireMouseButton::Left => Ok(
                    ReliableEvent::PointerButton { button: MouseButton::Left, down, click_count },
                ),
                WireMouseButton::Right => Ok(
                    ReliableEvent::PointerButton { button: MouseButton::Right, down, click_count },
                ),
                WireMouseButton::Middle => Ok(
                    ReliableEvent::PointerButton { button: MouseButton::Middle, down, click_count },
                ),
                WireMouseButton::Unspecified => Err("invalid mouse button"@),
            }
        },
        Some(WireInputEvent::Key { hid_usage, down, repeat }) => if hid_usage == 0 || hid_usage
            > 0xE7 {
            Err("invalid HID keyboard usage"@)
        } else if repeat && !down {
            Err("key repeat is only valid for key-down events"@)
        } else {
            Ok(ReliableEvent::Key { hid_usage: hid_usage as u16, down, repeat })
        },
        Some(WireInputEvent::TextCommit { text }) => if text@.len() == 0 {
            Err("text commit is empty"@)
        } else if crate::text::utf8_len(text@) > MAX_TEXT_COMMIT_BYTES {
            Err("text commit is too large"@)
        } else {
            Ok(ReliableEvent::TextCommit { text })
        },
        Some(WireInputEvent::ReleaseAll { cancelled }) => Ok(
            ReliableEvent::ReleaseAll { cancelled },
        ),
        Some(WireInputEvent::SystemGesture { format_version, outcome }) => if format_version
            != SYSTEM_GESTURE_FORMAT_VERSION {
            Err("unsupported system gesture format"@)
        } else {
            match outcome {
                Ok(outcome) => Ok(
                    ReliableEvent::SystemGesture {
                        phases: outcome.phases,
                        active: outcome.active,
                    },
                ),
                Err(message) => Err(message@),
            }
        },
        Some(WireInputEvent::ScrollGesture { phase }) => match phase {
            WireScrollPhase::Began => Ok(
                ReliableEvent::ScrollGesture { phase: ScrollGesturePhase::Began },
            ),
            WireScrollPhase::Ended => Ok(
                ReliableEvent::ScrollGesture { phase: ScrollGesturePhase::Ended },
            ),
            WireScrollPhase::Cancelled => Ok(
                ReliableEvent::ScrollGesture { phase: ScrollGesturePhase::Cancelled },
            ),
            WireScrollPhase::MomentumBegan => Ok(
                ReliableEvent::ScrollGesture { phase: ScrollGesturePhase::MomentumBegan },
            ),
            WireScrollPhase::MomentumEnded => Ok(
                ReliableEvent::ScrollGesture { phase: ScrollGesturePhase::MomentumEnded },
            ),
            WireScrollPhase::Unspecified => Err("invalid scroll gesture phase"@),
        },
    }
}

/// What events that travelled mean, or what is wrong with the first bad one.
pub open spec fn meant_events(events: Seq<Option<WireInputEvent>>) -> Result<
    Seq<ReliableEvent>,
    Seq<char>,
>
    decreases events.len(),
{
    if events.len() == 0 {
        Ok(Seq::empty())
    } else {
        match meant_events(events.drop_last()) {
            Err(fault) => Err(fault),
            Ok(before) => match meant_event(events.last()) {
                Err(fault) => Err(fault),
                Ok(event) => Ok(before.push(event)),
            },
        }
    }
}

proof fn lemma_first_fault(events: Seq<Option<WireInputEvent>>, n: int, fault: Seq<char>)
    requires
        0 <= n <= events.len(),
        meant_events(events.take(n)) == Err::<Seq<ReliableEvent>, Seq<char>>(fault),
    ensures
        meant_events(events) == Err::<Seq<ReliableEvent>, Seq<char>>(fault),
    decreases events.len(),
{
    if n < events.len() {
        assert(events.drop_last().take(n) =~= events.take(n));
        lemma_first_fault(events.drop_last(), n, fault);
    } else {
        assert(events.take(n) =~= events);
    }
}

fn convert_event(event: Option<WireInputEvent>) -> (r: Result<ReliableEvent, String>)
    ensures
        match meant_event(event) {
            Ok(meant) => r == Ok::<ReliableEvent, String>(meant),
            Err(fault) => r is Err && r->Err_0@ == fault,
        },
{
    match event {
        None => Err("empty reliable input event".to_owned()),
        Some(WireInputEvent::PointerButton { button, down, click_count }) => {
            if click_count < 1 || click_count > 3 {
                return Err("pointer click count must be between 1 and 3".to_owned());
            }
            let click_count: u8 = click_count as u8;
            match button {
                WireMouseButton::Left => Ok(
                    ReliableEvent::PointerButton { button: MouseButton::Left, down, click_count },
                ),
                WireMouseButton::Right => Ok(
                    ReliableEvent::PointerButton { button: MouseButton::Right, down, click_count },
                ),
                WireMouseButton::Middle => Ok(
                    ReliableEvent::PointerButton { button: MouseButton::Middle, down, click_count },
                ),
                WireMouseButton::Unspecified => Err("invalid mouse button".to_owned()),
            }
        },
        Some(WireInputEvent::Key { hid_usage, down, repeat }) => {
            if hid_usage == 0 || hid_usage > 0xE7 {
                return Err("invalid HID keyboard usage".to_owned());
            }
            if repeat && !down {
                return Err("key repeat is only valid for key-down events".to_owned());
            }
            Ok(ReliableEvent::Key { hid_usage: hid_usage as u16, down, repeat })
        },
        Some(WireInputEvent::TextCommit { text }) => {
            if text.as_str().is_empty() {
                return Err("text commit is empty".to_owned());
            }
            if byte_len(text.as_str()) > MAX_TEXT_COMMIT_BYTES {
                return Err("text commit is too large".to_owned());
            }
            Ok(ReliableEvent::TextCommit { text })
        },
        Some(WireInputEvent::ReleaseAll { cancelled }) => Ok(
            ReliableEvent::ReleaseAll { cancelled },
        ),
        Some(WireInputEvent::SystemGesture { format_version, outcome }) => {
            if format_version != SYSTEM_GESTURE_FORMAT_VERSION {
                return Err("unsupported system gesture format".to_owned());
            }
            match outcome {
                Ok(outcome) => Ok(
                    ReliableEvent::SystemGesture {
                        phases: outcome.phases,
                        active: outcome.active,
                    },
                ),
                Err(message) => Err(message),
            }
        },
        Some(WireInputEvent::ScrollGesture { phase }) => match phase {
            WireScrollPhase::Began => Ok(
                ReliableEvent::ScrollGesture { phase: ScrollGesturePhase::Began },
            ),
            WireScrollPhase::Ended => Ok(
                ReliableEvent::ScrollGesture { phase: ScrollGesturePhase::Ended },
            ),
            WireScrollPhase::Cancelled => Ok(
                ReliableEvent::ScrollGesture { phase: ScrollGesturePhase::Cancelled },
            ),
            WireScrollPhase::MomentumBegan => Ok(
                ReliableEvent::ScrollGesture { phase: ScrollGesturePhase::MomentumBegan },
            ),
            WireScrollPhase::MomentumEnded => Ok(
                ReliableEvent::ScrollGesture { phase: ScrollGesturePhase::MomentumEnded },
            ),
            WireScrollPhase::Unspecified => Err("invalid scroll gesture phase".to_owned()),
        },
    }
}

/// Reads the events of a frame, up to the first bad one.
pub fn convert_reliable_events(events: Vec<Option<WireInputEvent>>) -> (r: Result<
    Vec<ReliableEvent>,
    String,
>)
    ensures
        match meant_events(events@) {
            Ok(meant) => r is Ok && r->Ok_0@ == meant,
            Err(fault) => r is Err && r->Err_0@ == fault,
        },
{
    let ghost all = events@;
    let mut converted: Vec<ReliableEvent> = Vec::new();
    for event in it: events.into_iter()
        invariant
            it.seq() == all,
            all == events@,
            meant_events(all.take(it.index())) == Ok::<Seq<ReliableEvent>, Seq<char>>(converted@),
    {
        let ghost n = it.index() as int;
        proof {
            assert(all.take(n + 1).drop_last() =~= all.take(n));
            assert(all.take(n + 1).last() == all[n]);
        }
        match convert_event(event) {
            Ok(event) => {
                converted.push(event);
            },
            Err(fault) => {
                proof {
                    lemma_first_fault(all, n + 1, fault@);
                }
                return Err(fault);
            },
        }
    }
    proof {
        assert(all.take(all.len() as int) =~= all);
    }
    Ok(converted)
}

/// How far the pointer and the scroll position have moved since a session began,
/// in 256ths.
#[derive(Debug, Clone, Copy, PartialEq, Eq, Structural)]
pub struct MotionTotals {
    pub pointer_x_256: i64,
    pub pointer_y_256: i64,
    pub scroll_x_256: i64,
    pub scroll_y_256: i64,
    pub precise_scroll: bool,
}

/// A frame of input as it travels.
#[derive(Debug, PartialEq, Eq)]
pub struct ReliableInputFrame {
    pub lease: InputLease,
    pub sequence: u64,
    pub elapsed_us: u64,
    pub motion: Option<MotionTotals>,
    pub events: Vec<Option<WireInputEvent>>,
}

/// A frame of input whose events were read.
#[derive(Debug, PartialEq, Eq)]
pub struct CheckedFrame {
    pub lease: InputLease,
    pub sequence: u64,
    pub elapsed_us: u64,
    pub motion: Option<MotionTotals>,
    pub events: Vec<ReliableEvent>,
}

/// What is wrong with a frame by itself, if anything.
pub open spec fn frame_fault(frame: ReliableInputFrame) -> Option<Seq<char>> {
    if frame.events@.len() > MAX_RELIABLE_EVENTS_PER_FRAME {
        Some("invalid reliable input event count"@)
    } else {
        match meant_events(frame.events@) {
            Err(fault) => Some(fault),
            Ok(events) => if frame.motion is Some && events.len() > 0 {
                Some("ordered input frame mixes motion and discrete events"@)
            } else {
                None
            },
        }
    }
}

/// Reads a frame of input.
pub fn check_input_frame(frame: ReliableInputFrame) -> (r: Result<CheckedFrame, String>)
    ensures
        match frame_fault(frame) {
            Some(fault) => r is Err && r->Err_0@ == fault,
            None => {
                &&& r is Ok
                &&& r->Ok_0.lease == frame.lease
                &&& r->Ok_0.sequence == frame.sequence
                &&& r->Ok_0.elapsed_us == frame.elapsed_us
                &&& r->Ok_0.motion == frame.motion
                &&& meant_events(frame.events@) == Ok::<Seq<ReliableEvent>, Seq<char>>(
                    r->Ok_0.events@,
                )
            },
        },
{
    if frame.events.len() > MAX_RELIABLE_EVENTS_PER_FRAME {
        return Err("invalid reliable input event count".to_owned());
    }
    let events = match convert_reliable_events(frame.events) {
        Err(fault) => {
            return Err(fault);
        },
        Ok(events) => events,
    };
    if frame.motion.is_some() && events.len() > 0 {
        return Err("ordered input frame mixes motion and discrete events".to_owned());
    }
    Ok(
        CheckedFrame {
            lease: frame.lease,
            sequence: frame.sequence,
            elapsed_us: frame.elapsed_us,
            motion: frame.motion,
            events,
        },
    )
}

/// What follows from a frame that was taken in.
#[derive(Debug, PartialEq, Eq)]
pub struct AcceptedFrame {
    pub native: Vec<NativeEvent>,
    pub motion: Option<MotionDelta>,
    pub feedback: InputFeedbackSnapshot,
}

/// The sessions after the header of a frame was taken in.
pub open spec fn header_taken(
    sessions: Seq<crate::input_session::SessionView>,
    frame: CheckedFrame,
    now: u64,
) -> Seq<crate::input_session::SessionView> {
    let i = crate::input_session::place(sessions, frame.lease);
    let s = sessions[i];
    sessions.update(
        i,
        crate::input_session::SessionView {
            reliable_frames: crate::input_session::recent_frames(s.reliable_frames, now).push(now),
            reliable_sequence: frame.sequence,
            reliable_elapsed_us: frame.elapsed_us,
            last_activity: now,
            ..s
        },
    )
}

/// The sessions after a frame was refused for its header.
pub open spec fn header_refused(
    sessions: Seq<crate::input_session::SessionView>,
    frame: CheckedFrame,
    device_id: Seq<char>,
    now: u64,
) -> Seq<crate::input_session::SessionView> {
    let i = crate::input_session::place(sessions, frame.lease);
    let s = sessions[i];
    if crate::input_session::rate_limited(
        sessions,
        frame.lease,
        device_id,
        frame.sequence,
        frame.elapsed_us,
        now,
    ) {
        sessions.update(
            i,
            crate::input_session::SessionView {
                reliable_frames: crate::input_session::recent_frames(s.reliable_frames, now),
                ..s
            },
        )
    } else {
        sessions
    }
}

/// The sessions after the events of a frame were taken in, and what the native
/// input system is given.
pub open spec fn events_taken(
    sessions: Seq<crate::input_session::SessionView>,
    frame: CheckedFrame,
    now: u64,
) -> (Seq<crate::input_session::SessionView>, Seq<crate::input_session::NativeView>) {
    let i = crate::input_session::place(sessions, frame.lease);
    let steps = crate::input_session::event_steps(
        crate::input_session::held_of(sessions[i]),
        frame.events@,
        frame.events@.len() as int,
        crate::input_session::other_keys(sessions.remove(i)),
        crate::input_session::other_buttons(sessions.remove(i)),
        now,
    );
    (
        sessions.update(i, crate::input_session::with_held(sessions[i], steps.0)),
        steps.1,
    )
}

/// The sessions after a motion was taken in, and the motion itself.
pub open spec fn motion_taken(
    sessions: Seq<crate::input_session::SessionView>,
    lease: InputLease,
    totals: MotionTotals,
    now: u64,
) -> (Seq<crate::input_session::SessionView>, MotionDelta) {
    let i = crate::input_session::place(sessions, lease);
    let s = sessions[i];
    (
        sessions.update(
            i,
            crate::input_session::SessionView {
                pointer_total_x_256: totals.pointer_x_256,
                pointer_total_y_256: totals.pointer_y_256,
                scroll_total_x_256: totals.scroll_x_256,
                scroll_total_y_256: totals.scroll_y_256,
                last_activity: now,
                ..s
            },
        ),
        MotionDelta {
            pointer_x_256: (totals.pointer_x_256 - s.pointer_total_x_256) as i64,
            pointer_y_256: (totals.pointer_y_256 - s.pointer_total_y_256) as i64,
            scroll_x_256: (totals.scroll_x_256 - s.scroll_total_x_256) as i64,
            scroll_y_256: (totals.scroll_y_256 - s.scroll_total_y_256) as i64,
            precise_scroll: totals.precise_scroll,
            feedback: InputFeedbackSnapshot {
                reliable_sequence: s.reliable_sequence,
                ..crate::input_session::no_feedback()
            },
        },
    )
}

/// An accepted frame as a mathematical value.
pub struct AcceptedView {
    pub native: Seq<crate::input_session::NativeView>,
    pub motion: Option<MotionDelta>,
    pub feedback: InputFeedbackSnapshot,
}

/// The sessions after a frame came, and what follows from it or why it is
/// refused.
pub open spec fn frame_taken(
    sessions: Seq<crate::input_session::SessionView>,
    frame: CheckedFrame,
    device_id: Seq<char>,
    now: u64,
) -> (Seq<crate::input_session::SessionView>, Result<AcceptedView, Seq<char>>) {
    match crate::input_session::reliable_error(
        sessions,
        frame.lease,
        device_id,
        frame.sequence,
        frame.elapsed_us,
        now,
    ) {
        Some(fault) => (header_refused(sessions, frame, device_id, now), Err(fault)),
        None => {
            let (after, native) = events_taken(header_taken(sessions, frame, now), frame, now);
            match frame.motion {
                None => (
                    after,
                    Ok(
                        AcceptedView {
                            native,
                            motion: None,
                            feedback: InputFeedbackSnapshot {
                                reliable_sequence: frame.sequence,
                                ..crate::input_session::no_feedback()
                            },
                        },
                    ),
                ),
                Some(totals) => match crate::input_session::motion_error(
                    after,
                    frame.lease,
                    device_id,
                    (
                        totals.pointer_x_256,
                        totals.pointer_y_256,
                        totals.scroll_x_256,
                        totals.scroll_y_256,
                    ),
                    now,
                ) {
                    Some(fault) => (after, Err(fault)),
                    None => {
                        let (moved, delta) = motion_taken(after, frame.lease, totals, now);
                        (
                            moved,
                            Ok(
                                AcceptedView {
                                    native,
                                    motion: Some(delta),
                                    feedback: delta.feedback,
                                },
                            ),
                        )
                    },
                },
            }
        },
    }
}

proof fn lemma_lease_kept(
    sessions: Seq<crate::input_session::SessionView>,
    i: int,
    s: crate::input_session::SessionView,
    lease: InputLease,
    device_id: Seq<char>,
)
    requires
        crate::input_session::valid(sessions),
        crate::input_session::lease_error(sessions, lease, device_id) is None,
        i == crate::input_session::place(sessions, lease),
        s.lease == sessions[i].lease,
        s.device_id == sessions[i].device_id,
    ensures
        crate::input_session::lease_error(sessions.update(i, s), lease, device_id) is None,
        crate::input_session::place(sessions.update(i, s), lease) == i,
{
    let after = sessions.update(i, s);
    assert(sessions[i].lease == lease);
    assert(after[i].lease == lease);
    let j = crate::input_session::place(after, lease);
    assert(0 <= j < after.len());
    assert(i == j);
}

/// Input is taken from the device that holds the lease alone, before the lease
/// lapses and in the order of its frames; a frame that was taken is not taken
/// again, unless its number is the highest there is.
pub proof fn lemma_frames_taken_in_order(
    sessions: Seq<crate::input_session::SessionView>,
    frame: CheckedFrame,
    device_id: Seq<char>,
    now: u64,
    later: u64,
)
    requires
        crate::input_session::valid(sessions),
        frame_taken(sessions, frame, device_id, now).1 is Ok,
    ensures
        crate::input_session::lease_error(sessions, frame.lease, device_id) is None,
        ({
            let s = sessions[crate::input_session::place(sessions, frame.lease)];
            &&& !crate::input_session::lapsed(s, now)
            &&& frame.sequence == crate::input_session::next_sequence(s)
        }),
        frame.sequence < u64::MAX ==> frame_taken(
            frame_taken(sessions, frame, device_id, now).0,
            frame,
            device_id,
            later,
        ).1 is Err,
{
    let i = crate::input_session::place(sessions, frame.lease);
    let headed = header_taken(sessions, frame, now);
    lemma_lease_kept(sessions, i, headed[i], frame.lease, device_id);
    let after = events_taken(headed, frame, now).0;
    assert(after =~= headed.update(i, after[i]));
    assert(after =~= sessions.update(i, after[i]));
    lemma_lease_kept(sessions, i, after[i], frame.lease, device_id);
    if frame.motion is Some {
        let moved = motion_taken(after, frame.lease, frame.motion->0, now).0;
        assert(moved =~= sessions.update(i, moved[i]));
        lemma_lease_kept(sessions, i, moved[i], frame.lease, device_id);
    }
}

/// Takes a frame in.
pub fn accept_input_frame(
    manager: &mut InputSessionManager,
    frame: CheckedFrame,
    device_id: &str,
    now: u64,
) -> (r: Result<AcceptedFrame, String>)
    requires
        old(manager).wf(),
    ensures
        final(manager).wf(),
        final(manager)@ == frame_taken(old(manager)@, frame, device_id@, now).0,
        match frame_taken(old(manager)@, frame, device_id@, now).1 {
            Err(fault) => r is Err && r->Err_0@ == fault,
            Ok(accepted) => {
                &&& r is Ok
                &&& crate::input_session::native_views(r->Ok_0.native@) == accepted.native
                &&& r->Ok_0.motion == accepted.motion
                &&& r->Ok_0.feedback == accepted.feedback
            },
        },
{
    let ghost sessions = manager@;
    let ghost whole = frame;
    proof {
        manager.lemma_valid();
    }
    let sequences = match manager.accept_reliable(
        frame.lease,
        device_id,
        frame.sequence,
        frame.elapsed_us,
        0,
        now,
    ) {
        Err(fault) => {
            return Err(fault);
        },
        Ok(sequences) => sequences,
    };
    let ghost first = manager@;
    proof {
        let i = crate::input_session::place(sessions, whole.lease);
        lemma_lease_kept(sessions, i, header_taken(sessions, whole, now)[i], whole.lease, device_id@);
        manager.lemma_valid();
    }
    let native = match manager.normalize_reliable_events(frame.lease, device_id, frame.events, now) {
        Err(fault) => {
            return Err(fault);
        },
        Ok(native) => native,
    };
    match frame.motion {
        None => Ok(AcceptedFrame { native, motion: None, feedback: sequences }),
        Some(totals) => match manager.accept_ordered_motion(
            frame.lease,
            device_id,
            totals.pointer_x_256,
            totals.pointer_y_256,
            totals.scroll_x_256,
            totals.scroll_y_256,
            totals.precise_scroll,
            now,
        ) {
            Err(fault) => Err(fault),
            Ok(delta) => Ok(AcceptedFrame { native, motion: Some(delta), feedback: delta.feedback }),
        },
    }
}

/// True when a client hears of a frame.
pub open spec fn is_told(has_motion: bool, sequence: u64) -> bool {
    !has_motion || sequence % 15 == 0
}

/// Tells whether the client hears of a frame that was taken in: of every one
/// without motion, and of every fifteenth with motion.
pub fn feedback_due(has_motion: bool, sequence: u64) -> (r: bool)
    ensures
        r == is_told(has_motion, sequence),
{
    !has_motion || sequence % 15 == 0
}

/// What the host has taken in, as the client is told.
#[derive(Debug, PartialEq, Eq)]
pub struct InputFeedback {
    pub session_id: u64,
    pub epoch: u32,
    pub reliable_sequence: u64,
    pub motion_packet_sequence: u64,
    pub server_time_ms: i64,
    pub status: Status,
    pub motion_datagrams_received: u32,
    pub motion_datagrams_missing: u32,
}

/// True when `r` tells `feedback` about a session with this outcome.
pub open spec fn tells_feedback(
    r: InputFeedback,
    lease: InputLease,
    feedback: InputFeedbackSnapshot,
    result: crate::status::StatusView,
) -> bool {
    &&& r.session_id == lease.session_id
    &&& r.epoch == lease.epoch
    &&& r.reliable_sequence == feedback.reliable_sequence
    &&& r.motion_packet_sequence == feedback.motion_sequence
    &&& r.status@ == result
    &&& r.motion_datagrams_received == feedback.motion_datagrams_received
    &&& r.motion_datagrams_missing == feedback.motion_datagrams_missing
}

/// Tells a client what the host has taken in, at a given time.
pub fn input_feedback_at(
    lease: InputLease,
    feedback: InputFeedbackSnapshot,
    result: Status,
    server_time_ms: i64,
) -> (r: InputFeedback)
    ensures
        tells_feedback(r, lease, feedback, result@),
        r.server_time_ms == server_time_ms,
{
    InputFeedback {
        session_id: lease.session_id,
        epoch: lease.epoch,
        reliable_sequence: feedback.reliable_sequence,
        motion_packet_sequence: feedback.motion_sequence,
        server_time_ms,
        status: result,
        motion_datagrams_received: feedback.motion_datagrams_received,
        motion_datagrams_missing: feedback.motion_datagrams_missing,
    }
}

/// Tells a client what the host has taken in.
pub fn input_feedback_frame(lease: InputLease, feedback: InputFeedbackSnapshot, result: Status)
    -> (r: InputFeedback)
    ensures
        tells_feedback(r, lease, feedback, result@),
        r.server_time_ms >= 0,
{
    let now: i64 = crate::product::now_ms();
    input_feedback_at(lease, feedback, result, now)
}

/// Tells a client that its session was revoked, and why.
pub fn revoked_feedback(lease: InputLease, message: &str) -> (r: InputFeedback)
    ensures
        r.session_id == lease.session_id,
        r.epoch == lease.epoch,
        r.reliable_sequence == 0,
        r.motion_packet_sequence == 0,
        r.motion_datagrams_received == 0,
        r.motion_datagrams_missing == 0,
        crate::status::reports(r.status@, ErrorCode::FailedPrecondition, message@),
{
    input_feedback_frame(
        lease,
        InputFeedbackSnapshot::default(),
        status(ErrorCode::FailedPrecondition, message),
    )
}

/// Where the input of the workspace goes, as the client is told.
#[derive(Debug, PartialEq, Eq)]
pub struct InputFocusChanged {
    pub session_id: u64,
    pub epoch: u32,
    pub state: WorkspaceInputRouteState,
    pub cause: WorkspaceInputFocusCause,
    pub controller_device_id: String,
    pub logical_target_device_id: String,
    pub target_display_id: String,
    pub control_epoch: u64,
    pub message: String,
    pub supports_system_gestures: bool,
}

/// Tells a client where the input of the workspace goes, and of which of its
/// sessions that is.
pub fn input_focus_changed_frame(lease: Option<InputLease>, focus: &WorkspaceInputSnapshot) -> (r:
    InputFocusChanged)
    ensures
        r.session_id == match lease {
            Some(lease) => lease.session_id,
            None => 0,
        },
        r.epoch == match lease {
            Some(lease) => lease.epoch,
            None => 0,
        },
        r.state == focus.state,
        r.cause == focus.cause,
        r.controller_device_id@ == focus.controller_device_id@,
        r.logical_target_device_id@ == focus.logical_target_device_id@,
        r.target_display_id@ == focus.target_display_id@,
        r.control_epoch == focus.control_epoch,
        r.message@ == focus.message@,
        r.supports_system_gestures == focus.supports_system_gestures,
{
    let (session_id, epoch) = match lease {
        Some(lease) => (lease.session_id, lease.epoch),
        None => (0, 0),
    };
    InputFocusChanged {
        session_id,
        epoch,
        state: focus.state,
        cause: focus.cause,
        controller_device_id: focus.controller_device_id.clone(),
        logical_target_device_id: focus.logical_target_device_id.clone(),
        target_display_id: focus.target_display_id.clone(),
        control_epoch: focus.control_epoch,
        message: focus.message.clone(),
        supports_system_gestures: focus.supports_system_gestures,
    }
}

/// The session of this connection that a change of focus is about: the active
/// one, if the device owns the focus and the session goes to the workspace.
pub open spec fn focused_lease(
    sessions: Seq<crate::input_session::SessionView>,
    active: Option<InputLease>,
    focus: WorkspaceInputSnapshot,
    device_id: Seq<char>,
) -> Option<InputLease> {
    match active {
        Some(lease) if focus.owner_device_id is Some && focus.owner_device_id->0@ == device_id
            && crate::input_session::lease_error(sessions, lease, device_id) is None
            && sessions[crate::input_session::place(sessions, lease)].workspace_routed => {
            Some(lease)
        },
        _ => None,
    }
}

/// Follows a change of focus: the lease that it is about, and whether that
/// session has ended with it.
pub fn follow_focus(
    active: &mut Option<InputLease>,
    manager: &mut InputSessionManager,
    focus: &WorkspaceInputSnapshot,
    device_id: &str,
) -> (r: (Option<InputLease>, bool))
    requires
        old(manager).wf(),
    ensures
        final(manager).wf(),
        ({
            let sessions = old(manager)@;
            let owned = focused_lease(sessions, *old(active), *focus, device_id@);
            &&& r.0 == owned
            &&& r.1 == (owned is Some && focus.state != WorkspaceInputRouteState::Active)
            &&& if r.1 {
                &&& *final(active) == None::<InputLease>
                &&& final(manager)@ == sessions.remove(
                    crate::input_session::place(sessions, owned->0),
                )
            } else {
                *final(active) == *old(active) && final(manager)@ == sessions
            }
        }),
{
    let is_owner = match &focus.owner_device_id {
        Some(owner) => str_eq(owner.as_str(), device_id),
        None => false,
    };
    let owned = match *active {
        Some(lease) => if is_owner && manager.is_workspace_routed(lease, device_id) {
            Some(lease)
        } else {
            None
        },
        None => None,
    };
    let over = match focus.state {
        WorkspaceInputRouteState::Active => false,
        WorkspaceInputRouteState::Suspended | WorkspaceInputRouteState::Ended => true,
    };
    match owned {
        Some(lease) => if over {
            manager.release(lease, None);
            *active = None;
            (owned, true)
        } else {
            (owned, false)
        },
        None => (None, false),
    }
}

/// What the regular look at the active session found.
#[derive(Debug, Clone, Copy, PartialEq, Eq, Structural)]
pub enum LeaseTick {
    /// Nothing is to be done.
    Quiet,
    /// The session has been silent for too long and is to be ended.
    Expired { lease: InputLease },
    /// Its gesture was abandoned and is to be cancelled.
    CancelGesture { lease: InputLease, workspace_routed: bool },
}

/// What a look at the active session finds, and the sessions after it.
pub open spec fn tick_of(
    sessions: Seq<crate::input_session::SessionView>,
    active: Option<InputLease>,
    device_id: Seq<char>,
    now: u64,
) -> (LeaseTick, Seq<crate::input_session::SessionView>) {
    match active {
        None => (LeaseTick::Quiet, sessions),
        Some(lease) => {
            let i = crate::input_session::place(sessions, lease);
            let s = sessions[i];
            if crate::input_session::lease_error(sessions, lease, device_id) is Some {
                (LeaseTick::Quiet, sessions)
            } else if crate::input_session::lapsed(s, now) {
                (LeaseTick::Expired { lease }, sessions)
            } else if s.gesture_updated is Some && now - s.gesture_updated->0
                >= crate::input_session::GESTURE_IDLE_MS {
                (
                    LeaseTick::CancelGesture { lease, workspace_routed: s.workspace_routed },
                    sessions.update(
                        i,
                        crate::input_session::SessionView { gesture_updated: None, ..s },
                    ),
                )
            } else {
                (LeaseTick::Quiet, sessions)
            }
        },
    }
}

/// Looks at the active session.
pub fn lease_tick(
    manager: &mut InputSessionManager,
    active: Option<InputLease>,
    device_id: &str,
    now: u64,
) -> (r: LeaseTick)
    requires
        old(manager).wf(),
    ensures
        final(manager).wf(),
        r == tick_of(old(manager)@, active, device_id@, now).0,
        final(manager)@ == tick_of(old(manager)@, active, device_id@, now).1,
{
    let lease = match active {
        None => {
            return LeaseTick::Quiet;
        },
        Some(lease) => lease,
    };
    if manager.is_expired(lease, device_id, now) {
        return LeaseTick::Expired { lease };
    }
    let workspace_routed = manager.is_workspace_routed(lease, device_id);
    if manager.cancel_idle_system_gesture(lease, device_id, now) {
        return LeaseTick::CancelGesture { lease, workspace_routed };
    }
    LeaseTick::Quiet
}

/// Counts what happens to motion within a window of time; times are in
/// microseconds.
pub struct InputMetricsAccumulator {
    window_started: u64,
    last_motion_received: Option<u64>,
    last_client_elapsed_us: Option<u64>,
    motion_received: u64,
    quartz_submitted: u64,
    gap_samples: u64,
    gap_total_us: u64,
    gap_max_us: u64,
    source_gap_max_us: u64,
    transport_stall_max_us: u64,
    apply_total_us: u64,
    apply_max_us: u64,
}

/// An [`InputMetricsAccumulator`] as a mathematical value.
pub struct MetricsView {
    pub window_started: u64,
    pub last_motion_received: Option<u64>,
    pub last_client_elapsed_us: Option<u64>,
    pub motion_received: u64,
    pub quartz_submitted: u64,
    pub gap_samples: u64,
    pub gap_total_us: u64,
    pub gap_max_us: u64,
    pub source_gap_max_us: u64,
    pub transport_stall_max_us: u64,
    pub apply_total_us: u64,
    pub apply_max_us: u64,
}

/// A window in which nothing has happened.
pub open spec fn fresh_metrics(now: u64) -> MetricsView {
    MetricsView {
        window_started: now,
        last_motion_received: None,
        last_client_elapsed_us: None,
        motion_received: 0,
        quartz_submitted: 0,
        gap_samples: 0,
        gap_total_us: 0,
        gap_max_us: 0,
        source_gap_max_us: 0,
        transport_stall_max_us: 0,
        apply_total_us: 0,
        apply_max_us: 0,
    }
}

/// The difference of two numbers, none below zero.
pub open spec fn since(a: u64, b: u64) -> u64 {
    if a > b {
        (a - b) as u64
    } else {
        0
    }
}

/// The sum of two numbers as far as it fits.
pub open spec fn sum_of(a: u64, b: u64) -> u64 {
    if a + b > u64::MAX {
        u64::MAX
    } else {
        (a + b) as u64
    }
}

/// The larger of two numbers.
pub open spec fn larger(a: u64, b: u64) -> u64 {
    if a > b {
        a
    } else {
        b
    }
}

/// The counts after a motion came. A gap between two motions that was longer
/// here than at the client was a stall of the transport.
pub open spec fn motion_observed(m: MetricsView, now: u64, client_elapsed_us: u64) -> MetricsView {
    let counted = MetricsView {
        motion_received: sum_of(m.motion_received, 1),
        last_motion_received: Some(now),
        last_client_elapsed_us: Some(client_elapsed_us),
        ..m
    };
    match m.last_motion_received {
        None => counted,
        Some(previous) => {
            let gap = since(now, previous);
            let source_gap = match m.last_client_elapsed_us {
                Some(value) => since(client_elapsed_us, value),
                None => 0,
            };
            MetricsView {
                gap_samples: sum_of(m.gap_samples, 1),
                gap_total_us: sum_of(m.gap_total_us, gap),
                gap_max_us: larger(m.gap_max_us, gap),
                source_gap_max_us: larger(m.source_gap_max_us, source_gap),
                transport_stall_max_us: larger(m.transport_stall_max_us, since(gap, source_gap)),
                ..counted
            }
        },
    }
}

/// The counts after the native input system has taken a motion.
pub open spec fn quartz_observed(m: MetricsView, apply_us: u64) -> MetricsView {
    MetricsView {
        quartz_submitted: sum_of(m.quartz_submitted, 1),
        apply_total_us: sum_of(m.apply_total_us, apply_us),
        apply_max_us: larger(m.apply_max_us, apply_us),
        ..m
    }
}

/// What is told of a window that closes, if it is old enough to.
pub open spec fn window_of(m: MetricsView, now: u64) -> Option<MetricsWindow> {
    if since(now, m.window_started) < 1_000_000 {
        None
    } else {
        Some(
            MetricsWindow {
                elapsed_us: since(now, m.window_started),
                motion_received: m.motion_received,
                quartz_submitted: m.quartz_submitted,
                average_gap_us: m.gap_total_us / larger(m.gap_samples, 1),
                maximum_gap_us: m.gap_max_us,
                maximum_source_gap_us: m.source_gap_max_us,
                maximum_transport_stall_us: m.transport_stall_max_us,
                average_apply_us: m.apply_total_us / larger(m.quartz_submitted, 1),
                maximum_apply_us: m.apply_max_us,
            },
        )
    }
}

fn greater(a: u64, b: u64) -> (r: u64)
    ensures
        r == larger(a, b),
{
    if a > b {
        a
    } else {
        b
    }
}

impl InputMetricsAccumulator {
    pub closed spec fn view(&self) -> MetricsView {
        MetricsView {
            window_started: self.window_started,
            last_motion_received: self.last_motion_received,
            last_client_elapsed_us: self.last_client_elapsed_us,
            motion_received: self.motion_received,
            quartz_submitted: self.quartz_submitted,
            gap_samples: self.gap_samples,
            gap_total_us: self.gap_total_us,
            gap_max_us: self.gap_max_us,
            source_gap_max_us: self.source_gap_max_us,
            transport_stall_max_us: self.transport_stall_max_us,
            apply_total_us: self.apply_total_us,
            apply_max_us: self.apply_max_us,
        }
    }

    /// Opens a window.
    pub fn new(now: u64) -> (r: InputMetricsAccumulator)
        ensures
            r@ == fresh_metrics(now),
    {
        InputMetricsAccumulator {
            window_started: now,
            last_motion_received: None,
            last_client_elapsed_us: None,
            motion_received: 0,
            quartz_submitted: 0,
            gap_samples: 0,
            gap_total_us: 0,
            gap_max_us: 0,
            source_gap_max_us: 0,
            transport_stall_max_us: 0,
            apply_total_us: 0,
            apply_max_us: 0,
        }
    }

    /// Counts a motion that came.
    pub fn observe_motion(&mut self, now: u64, client_elapsed_us: u64)
        ensures
            final(self)@ == motion_observed(old(self)@, now, client_elapsed_us),
    {
        self.motion_received = self.motion_received.saturating_add(1);
        if let Some(previous) = self.last_motion_received {
            let gap: u64 = now.saturating_sub(previous);
            let source_gap: u64 = match self.last_client_elapsed_us {
                Some(value) => client_elapsed_us.saturating_sub(value),
                None => 0,
            };
            self.gap_samples = self.gap_samples.saturating_add(1);
            self.gap_total_us = self.gap_total_us.saturating_add(gap);
            self.gap_max_us = greater(self.gap_max_us, gap);
            self.source_gap_max_us = greater(self.source_gap_max_us, source_gap);
            self.transport_stall_max_us = greater(
                self.transport_stall_max_us,
                gap.saturating_sub(source_gap),
            );
        }
        self.last_motion_received = Some(now);
        self.last_client_elapsed_us = Some(client_elapsed_us);
    }

    /// Counts a motion that the native input system has taken.
    pub fn observe_quartz(&mut self, apply_us: u64)
        ensures
            final(self)@ == quartz_observed(old(self)@, apply_us),
    {
        self.quartz_submitted = self.quartz_submitted.saturating_add(1);
        self.apply_total_us = self.apply_total_us.saturating_add(apply_us);
        self.apply_max_us = greater(self.apply_max_us, apply_us);
    }

    /// Closes the window and opens the next one, once a second has passed.
    pub fn take(&mut self, now: u64) -> (r: Option<MetricsWindow>)
        ensures
            r == window_of(old(self)@, now),
            final(self)@ == if r is Some {
                fresh_metrics(now)
            } else {
                old(self)@
            },
    {
        let elapsed_us: u64 = now.saturating_sub(self.window_started);
        if elapsed_us < 1_000_000 {
            return None;
        }
        let window = MetricsWindow {
            elapsed_us,
            motion_received: self.motion_received,
            quartz_submitted: self.quartz_submitted,
            average_gap_us: self.gap_total_us / greater(self.gap_samples, 1),
            maximum_gap_us: self.gap_max_us,
            maximum_source_gap_us: self.source_gap_max_us,
            maximum_transport_stall_us: self.transport_stall_max_us,
            average_apply_us: self.apply_total_us / greater(self.quartz_submitted, 1),
            maximum_apply_us: self.apply_max_us,
        };
        *self = InputMetricsAccumulator::new(now);
        Some(window)
    }
}

/// True when `meant` is what the device did to send `sent`: the same button, key,
/// text or phase, going the same way and as often.
pub open spec fn same_input(sent: WireInputEvent, meant: ReliableEvent) -> bool {
    &&& sent is PointerButton ==> {
        &&& meant is PointerButton
        &&& sent->button is Left <==> meant->button is Left
        &&& sent->button is Right <==> meant->button is Right
        &&& sent->button is Middle <==> meant->button is Middle
        &&& meant->PointerButton_down == sent->PointerButton_down
        &&& meant->click_count == sent->click_count
    }
    &&& sent is Key ==> {
        &&& meant is Key
        &&& meant->hid_usage == sent->hid_usage
        &&& meant->Key_down == sent->Key_down
        &&& meant->repeat == sent->repeat
    }
    &&& sent is TextCommit ==> meant is TextCommit && meant->text@ == sent->text@
    &&& sent is ReleaseAll ==> meant is ReleaseAll && meant->cancelled == sent->cancelled
    &&& sent is SystemGesture ==> {
        &&& meant is SystemGesture
        &&& sent->outcome is Ok
        &&& meant->phases@ == sent->outcome->Ok_0.phases@
        &&& meant->active == sent->outcome->Ok_0.active
    }
    &&& sent is ScrollGesture ==> {
        &&& meant is ScrollGesture
        &&& sent->phase is Began <==> meant->phase is Began
        &&& sent->phase is Ended <==> meant->phase is Ended
        &&& sent->phase is Cancelled <==> meant->phase is Cancelled
        &&& sent->phase is MomentumBegan <==> meant->phase is MomentumBegan
        &&& sent->phase is MomentumEnded <==> meant->phase is MomentumEnded
    }
}

/// An event that is taken is what was sent, and only a proper one is taken: with
/// one to three clicks, a key that there is, which repeats only while it is down,
/// and text that is there and not too long.
pub proof fn lemma_events_mean_what_was_sent(event: Option<WireInputEvent>)
    requires
        meant_event(event) is Ok,
    ensures
        event is Some,
        event->0 is PointerButton ==> {
            let meant = meant_event(event)->Ok_0;
            &&& meant is PointerButton
            &&& event->0->button is Left <==> meant->button is Left
            &&& event->0->button is Right <==> meant->button is Right
            &&& event->0->button is Middle <==> meant->button is Middle
            &&& !(event->0->button is Unspecified)
            &&& meant->PointerButton_down == event->0->PointerButton_down
            &&& meant->click_count == event->0->click_count
            &&& 1 <= meant->click_count <= 3
        },
        event->0 is Key ==> {
            let meant = meant_event(event)->Ok_0;
            &&& meant is Key
            &&& meant->hid_usage == event->0->hid_usage
            &&& meant->Key_down == event->0->Key_down
            &&& meant->repeat == event->0->repeat
            &&& 1 <= meant->hid_usage <= 231
            &&& meant->repeat ==> meant->Key_down
        },
        event->0 is TextCommit ==> {
            let meant = meant_event(event)->Ok_0;
            &&& meant is TextCommit
            &&& meant->text@ == event->0->text@
            &&& meant->text@.len() > 0
            &&& crate::text::utf8_len(meant->text@) <= 4096
        },
        event->0 is ReleaseAll ==> {
            let meant = meant_event(event)->Ok_0;
            &&& meant is ReleaseAll
            &&& meant->cancelled == event->0->cancelled
        },
        event->0 is SystemGesture ==> {
            let meant = meant_event(event)->Ok_0;
            &&& meant is SystemGesture
            &&& event->0->format_version == 1
            &&& event->0->outcome is Ok
            &&& meant->phases@ == event->0->outcome->Ok_0.phases@
            &&& meant->active == event->0->outcome->Ok_0.active
        },
        event->0 is ScrollGesture ==> {
            let meant = meant_event(event)->Ok_0;
            &&& meant is ScrollGesture
            &&& event->0->phase is Began <==> meant->phase is Began
            &&& event->0->phase is Ended <==> meant->phase is Ended
            &&& event->0->phase is Cancelled <==> meant->phase is Cancelled
            &&& event->0->phase is MomentumBegan <==> meant->phase is MomentumBegan
            &&& event->0->phase is MomentumEnded <==> meant->phase is MomentumEnded
        },
{
}

/// A proper event is taken.
pub proof fn lemma_proper_events_are_taken(event: WireInputEvent)
    ensures
        event is PointerButton && 1 <= event->click_count <= 3 && !(event->button is Unspecified)
            ==> meant_event(Some(event)) is Ok,
        event is Key && 1 <= event->hid_usage <= 231 && (event->repeat ==> event->Key_down)
            ==> meant_event(Some(event)) is Ok,
        event is TextCommit && event->text@.len() > 0 && crate::text::utf8_len(event->text@)
            <= 4096 ==> meant_event(Some(event)) is Ok,
        event is ReleaseAll ==> meant_event(Some(event)) is Ok,
        event is SystemGesture && event->format_version == 1 && event->outcome is Ok
            ==> meant_event(Some(event)) is Ok,
        event is ScrollGesture && !(event->phase is Unspecified) ==> meant_event(Some(event))
            is Ok,
{
}

/// A frame whose events are taken gives as many events as it brought, each of them
/// what was sent, in the order in which they were sent.
pub proof fn lemma_frames_mean_what_was_sent(
    events: Seq<Option<WireInputEvent>>,
    meant: Seq<ReliableEvent>,
)
    requires
        meant_events(events) == Ok::<Seq<ReliableEvent>, Seq<char>>(meant),
    ensures
        meant.len() == events.len(),
        forall|i: int| 0 <= i < events.len() ==> (#[trigger] events[i]) is Some,
        forall|i: int| 0 <= i < events.len() ==> same_input(events[i]->0, #[trigger] meant[i]),
    decreases events.len(),
{
    if events.len() > 0 {
        let before = events.drop_last();
        let first = meant_events(before)->Ok_0;
        lemma_frames_mean_what_was_sent(before, first);
        lemma_events_mean_what_was_sent(events.last());
        assert(meant == first.push(meant_event(events.last())->Ok_0));
        assert forall|i: int| 0 <= i < events.len() implies (#[trigger] events[i]) is Some by {
            if i < before.len() {
                assert(events[i] == before[i]);
            }
        }
        assert forall|i: int| 0 <= i < events.len() implies same_input(
            events[i]->0,
            #[trigger] meant[i],
        ) by {
            if i < before.len() {
                assert(meant[i] == first[i]);
                assert(events[i] == before[i]);
            }
        }
    }
}

/// The events of a frame are taken when each of them is.
pub proof fn lemma_proper_frames_are_taken(events: Seq<Option<WireInputEvent>>)
    ensures
        (forall|i: int| 0 <= i < events.len() ==> meant_event(#[trigger] events[i]) is Ok)
            <==> meant_events(events) is Ok,
    decreases events.len(),
{
    if events.len() > 0 {
        let before = events.drop_last();
        lemma_proper_frames_are_taken(before);
        if meant_events(events) is Ok {
            assert forall|i: int| 0 <= i < events.len() implies meant_event(#[trigger] events[i])
                is Ok by {
                if i < before.len() {
                    assert(events[i] == before[i]);
                }
            }
        }
        if forall|i: int| 0 <= i < events.len() ==> meant_event(#[trigger] events[i]) is Ok {
            assert forall|i: int| 0 <= i < before.len() implies meant_event(#[trigger] before[i])
                is Ok by {
                assert(events[i] == before[i]);
            }
            assert(meant_event(events[events.len() - 1]) is Ok);
        }
    }
}

/// What a frame by itself must be: at most sixty-four proper events, and none
/// beside a motion.
pub proof fn lemma_proper_frames(frame: ReliableInputFrame)
    ensures
        frame_fault(frame) is None <==> {
            &&& frame.events@.len() <= 64
            &&& meant_events(frame.events@) is Ok
            &&& frame.motion is None || frame.events@.len() == 0
        },
{
    if meant_events(frame.events@) is Ok {
        lemma_frames_mean_what_was_sent(frame.events@, meant_events(frame.events@)->Ok_0);
    }
}

/// The pointer and the scroll position end where the client says they are: what
/// was before and the motion that is passed on add up to what the client told, on
/// each axis by itself.
pub proof fn lemma_motion_adds_up(
    sessions: Seq<crate::input_session::SessionView>,
    lease: InputLease,
    totals: MotionTotals,
    now: u64,
)
    requires
        crate::input_session::active(sessions, lease),
        ({
            let s = sessions[crate::input_session::place(sessions, lease)];
            &&& i64::MIN <= totals.pointer_x_256 - s.pointer_total_x_256 <= i64::MAX
            &&& i64::MIN <= totals.pointer_y_256 - s.pointer_total_y_256 <= i64::MAX
            &&& i64::MIN <= totals.scroll_x_256 - s.scroll_total_x_256 <= i64::MAX
            &&& i64::MIN <= totals.scroll_y_256 - s.scroll_total_y_256 <= i64::MAX
        }),
    ensures
        ({
            let i = crate::input_session::place(sessions, lease);
            let (after, delta) = motion_taken(sessions, lease, totals, now);
            &&& after.len() == sessions.len()
            &&& sessions[i].pointer_total_x_256 + delta.pointer_x_256 == totals.pointer_x_256
            &&& sessions[i].pointer_total_y_256 + delta.pointer_y_256 == totals.pointer_y_256
            &&& sessions[i].scroll_total_x_256 + delta.scroll_x_256 == totals.scroll_x_256
            &&& sessions[i].scroll_total_y_256 + delta.scroll_y_256 == totals.scroll_y_256
            &&& delta.precise_scroll == totals.precise_scroll
            &&& after[i].pointer_total_x_256 == totals.pointer_x_256
            &&& after[i].pointer_total_y_256 == totals.pointer_y_256
            &&& after[i].scroll_total_x_256 == totals.scroll_x_256
            &&& after[i].scroll_total_y_256 == totals.scroll_y_256
            &&& after[i].last_activity == now
            &&& after[i].lease == sessions[i].lease
            &&& after[i].device_id == sessions[i].device_id
            &&& after[i].reliable_sequence == sessions[i].reliable_sequence
        }),
{
}

/// Two motions one after the other move as far as the second alone would have.
pub proof fn lemma_motions_compose(
    s: crate::input_session::SessionView,
    first: MotionTotals,
    second: MotionTotals,
    now: u64,
    later: u64,
)
    requires
        -0x4000_0000_0000_0000 <= s.pointer_total_x_256 <= 0x3fff_ffff_ffff_ffff,
        -0x4000_0000_0000_0000 <= s.scroll_total_y_256 <= 0x3fff_ffff_ffff_ffff,
        -0x4000_0000_0000_0000 <= first.pointer_x_256 <= 0x3fff_ffff_ffff_ffff,
        -0x4000_0000_0000_0000 <= first.scroll_y_256 <= 0x3fff_ffff_ffff_ffff,
        -0x4000_0000_0000_0000 <= second.pointer_x_256 <= 0x3fff_ffff_ffff_ffff,
        -0x4000_0000_0000_0000 <= second.scroll_y_256 <= 0x3fff_ffff_ffff_ffff,
    ensures
        ({
            let (once, a) = motion_taken(seq![s], s.lease, first, now);
            let (twice, b) = motion_taken(once, s.lease, second, later);
            let (_, whole) = motion_taken(seq![s], s.lease, second, later);
            &&& a.pointer_x_256 + b.pointer_x_256 == whole.pointer_x_256
            &&& a.scroll_y_256 + b.scroll_y_256 == whole.scroll_y_256
        }),
{
    let start = seq![s];
    assert(start[0].lease == s.lease);
    assert(crate::input_session::place(start, s.lease) == 0);
    let once = motion_taken(start, s.lease, first, now).0;
    assert(once[0].lease == s.lease);
    assert(crate::input_session::place(once, s.lease) == 0);
}

/// A frame that was taken is acknowledged by its own number, and stands as the
/// last one of its session.
pub proof fn lemma_taken_frames_are_acknowledged(
    sessions: Seq<crate::input_session::SessionView>,
    frame: CheckedFrame,
    device_id: Seq<char>,
    now: u64,
)
    requires
        crate::input_session::valid(sessions),
        frame_taken(sessions, frame, device_id, now).1 is Ok,
    ensures
        ({
            let i = crate::input_session::place(sessions, frame.lease);
            let (after, accepted) = frame_taken(sessions, frame, device_id, now);
            &&& 0 <= i < sessions.len()
            &&& accepted->Ok_0.feedback.reliable_sequence == frame.sequence
            &&& accepted->Ok_0.motion is Some <==> frame.motion is Some
            &&& after.len() == sessions.len()
            &&& after[i].lease == frame.lease
            &&& after[i].device_id == device_id
            &&& after[i].reliable_sequence == frame.sequence
            &&& after[i].reliable_elapsed_us == frame.elapsed_us
            &&& after[i].last_activity == now
            &&& after[i].workspace_routed == sessions[i].workspace_routed
        }),
{
    let i = crate::input_session::place(sessions, frame.lease);
    let headed = header_taken(sessions, frame, now);
    lemma_lease_kept(sessions, i, headed[i], frame.lease, device_id);
    let after = events_taken(headed, frame, now).0;
    assert(after =~= sessions.update(i, after[i]));
    lemma_lease_kept(sessions, i, after[i], frame.lease, device_id);
}

/// A session is told in its own words: it is named by its lease, and every number
/// of what was taken in stands in its place.
pub proof fn lemma_feedback_is_of_its_session(
    r: InputFeedback,
    lease: InputLease,
    feedback: InputFeedbackSnapshot,
    result: crate::status::StatusView,
)
    requires
        tells_feedback(r, lease, feedback, result),
    ensures
        r.session_id == lease.session_id,
        r.epoch == lease.epoch,
        r.reliable_sequence == feedback.reliable_sequence,
        r.motion_packet_sequence == feedback.motion_sequence,
        r.motion_datagrams_received == feedback.motion_datagrams_received,
        r.motion_datagrams_missing == feedback.motion_datagrams_missing,
        r.status@ == result,
{
}

/// A begun session is told its lease and its limits, and where its input goes: to
/// the workspace by the route alone, and with nothing of a route without one.
pub proof fn lemma_begun_sessions_know_their_route(
    r: InputSessionResult,
    request_id: u64,
    lease: InputLease,
    permission: InputPermission,
    route: Option<&WorkspaceInputSnapshot>,
    native_gestures: bool,
)
    requires
        names_lease(r, request_id, lease, permission),
        tells_route(r, route, native_gestures),
    ensures
        r.request_id == request_id,
        r.session_id == lease.session_id,
        r.epoch == lease.epoch,
        r.permission == permission,
        r.lease_timeout_ms == 5_000,
        r.max_datagram_rate == 0,
        r.max_reliable_events_per_frame == 64,
        r.max_reliable_frame_rate == 240,
        r.workspace_routing_active <==> route is Some,
        route is Some ==> {
            &&& r.supports_system_gestures == route->0.supports_system_gestures
            &&& r.gateway_device_id@ == route->0.controller_device_id@
            &&& r.logical_target_device_id@ == route->0.logical_target_device_id@
            &&& r.target_display_id@ == route->0.target_display_id@
            &&& r.control_epoch == route->0.control_epoch
        },
        route is None ==> {
            &&& r.supports_system_gestures == native_gestures
            &&& r.gateway_device_id@.len() == 0
            &&& r.logical_target_device_id@.len() == 0
            &&& r.target_display_id@.len() == 0
            &&& r.control_epoch == 0
        },
{
}

/// A session that nothing stands against is let begin, and each thing that can
/// stand against one has its own answer.
pub proof fn lemma_why_sessions_are_refused(
    request: InputSessionRequest,
    features: Map<Feature, u32>,
    capabilities: Seq<PeerCapability>,
    router_available: bool,
    permission: InputPermission,
)
    ensures
        ({
            let denial = session_denial(
                request,
                features,
                capabilities,
                router_available,
                permission,
            );
            let featured = features.contains_key(Feature::InputReliable);
            let capable = capabilities.contains(PeerCapability::RemoteInputInject);
            let routable = !request.workspace_routing || (router_available
                && features.contains_key(Feature::WorkspaceInput));
            &&& featured && capable && routable && permission is Granted ==> denial is None
            &&& !featured ==> denial is Some && denial->0.code is Unsupported
            &&& featured && !capable ==> denial is Some && denial->0.code is PermissionDenied
            &&& featured && capable && !routable ==> denial is Some && denial->0.code
                is Unsupported
            &&& featured && capable && routable && !(permission is Granted) ==> denial is Some
                && denial->0.code is PermissionDenied
        }),
{
}

/// Only the session of the device that owns the focus follows it, and only where
/// its input goes to the workspace.
pub proof fn lemma_focus_is_followed_by_its_owner(
    sessions: Seq<crate::input_session::SessionView>,
    active: Option<InputLease>,
    focus: WorkspaceInputSnapshot,
    device_id: Seq<char>,
)
    requires
        crate::input_session::valid(sessions),
    ensures
        ({
            let followed = focused_lease(sessions, active, focus, device_id);
            &&& followed is Some ==> {
                &&& active == followed
                &&& focus.owner_device_id is Some && focus.owner_device_id->0@ == device_id
                &&& exists|i: int|
                    0 <= i < sessions.len() && (#[trigger] sessions[i]).lease == active->0
                        && sessions[i].device_id == device_id && sessions[i].workspace_routed
            }
            &&& forall|i: int|
                #![trigger sessions[i]]
                0 <= i < sessions.len() && active == Some(sessions[i].lease)
                    && sessions[i].device_id == device_id && sessions[i].workspace_routed
                    && focus.owner_device_id is Some && focus.owner_device_id->0@ == device_id
                    ==> followed == active
        }),
{
    if active is Some {
        let i = crate::input_session::place(sessions, active->0);
        if crate::input_session::active(sessions, active->0) {
            assert(sessions[i].lease == active->0);
        }
    }
}

/// The counts never sink, the longest gap is at least the one that just passed, and
/// a stall is the part of it that the client did not make.
pub proof fn lemma_gaps_are_counted(m: MetricsView, now: u64, client_elapsed_us: u64)
    ensures
        ({
            let after = motion_observed(m, now, client_elapsed_us);
            &&& after.last_motion_received == Some(now)
            &&& after.last_client_elapsed_us == Some(client_elapsed_us)
            &&& after.window_started == m.window_started
            &&& m.motion_received < u64::MAX ==> after.motion_received == m.motion_received + 1
            &&& after.quartz_submitted == m.quartz_submitted
            &&& after.apply_total_us == m.apply_total_us
            &&& after.apply_max_us == m.apply_max_us
            &&& after.gap_max_us >= m.gap_max_us
            &&& after.source_gap_max_us >= m.source_gap_max_us
            &&& after.transport_stall_max_us >= m.transport_stall_max_us
            &&& m.last_motion_received is None ==> {
                &&& after.gap_samples == m.gap_samples
                &&& after.gap_total_us == m.gap_total_us
                &&& after.gap_max_us == m.gap_max_us
            }
            &&& m.last_motion_received is Some && now >= m.last_motion_received->0 ==> {
                let gap = now - m.last_motion_received->0;
                &&& m.gap_samples < u64::MAX ==> after.gap_samples == m.gap_samples + 1
                &&& m.gap_total_us + gap <= u64::MAX ==> after.gap_total_us == m.gap_total_us + gap
                &&& after.gap_max_us >= gap
                &&& after.gap_max_us == m.gap_max_us || after.gap_max_us == gap
                &&& m.last_client_elapsed_us is Some && client_elapsed_us
                    >= m.last_client_elapsed_us->0 ==> {
                    let source = client_elapsed_us - m.last_client_elapsed_us->0;
                    &&& after.source_gap_max_us >= source
                    &&& after.source_gap_max_us == m.source_gap_max_us || after.source_gap_max_us
                        == source
                    &&& gap >= source ==> after.transport_stall_max_us >= gap - source
                    &&& after.transport_stall_max_us == m.transport_stall_max_us
                        || after.transport_stall_max_us == gap - source
                }
            }
        }),
{
}

/// A window opens with nothing counted.
pub proof fn lemma_windows_open_empty(now: u64)
    ensures
        ({
            let m = fresh_metrics(now);
            &&& m.window_started == now
            &&& m.last_motion_received is None
            &&& m.last_client_elapsed_us is None
            &&& m.motion_received == 0 && m.quartz_submitted == 0
            &&& m.gap_samples == 0 && m.gap_total_us == 0 && m.gap_max_us == 0
            &&& m.source_gap_max_us == 0 && m.transport_stall_max_us == 0
            &&& m.apply_total_us == 0 && m.apply_max_us == 0
        }),
{
}

/// When a session ends, its input is let go of exactly once: through the router if
/// it went to the workspace, else through the native input system.
pub proof fn lemma_ends_let_go_once(
    end: LeaseEnd,
    sessions: Seq<crate::input_session::SessionView>,
    lease: InputLease,
    device_id: Seq<char>,
    cancelled: Option<u64>,
)
    requires
        crate::input_session::valid(sessions),
        ends_session(end, sessions, lease, device_id, cancelled),
    ensures
        end.workspace_routed != end.release_all,
        end.workspace_routed ==> exists|i: int|
            0 <= i < sessions.len() && (#[trigger] sessions[i]).lease == lease
                && sessions[i].device_id == device_id && sessions[i].workspace_routed,
        (forall|i: int| 0 <= i < sessions.len() ==> (#[trigger] sessions[i]).lease != lease)
            ==> end.releases@.len() == 0,
        forall|i: int|
            #![trigger sessions[i]]
            0 <= i < sessions.len() && sessions[i].lease == lease && sessions[i].device_id
                == device_id ==> end.workspace_routed == sessions[i].workspace_routed,
{
    let i = crate::input_session::place(sessions, lease);
    if crate::input_session::active(sessions, lease) {
        assert(sessions[i].lease == lease);
    }
}

/// The pointer moves by what it was moved, the scroll position by what it was
/// scrolled, and what did not move is left out.
pub proof fn lemma_motion_is_passed_on(delta: MotionDelta)
    ensures
        ({
            let r = moves(delta);
            &&& r.pointer is None <==> delta.pointer_x_256 == 0 && delta.pointer_y_256 == 0
            &&& r.scroll is None <==> delta.scroll_x_256 == 0 && delta.scroll_y_256 == 0
            &&& r.pointer is Some ==> {
                let (x, y) = r.pointer->0;
                x == delta.pointer_x_256 && y == delta.pointer_y_256
            }
            &&& r.scroll is Some ==> {
                let (x, y) = r.scroll->0;
                x == delta.scroll_x_256 && y == delta.scroll_y_256
            }
            &&& r.precise_scroll == delta.precise_scroll
        }),
{
}

/// The input of a session goes to the workspace exactly if it was asked to and there
/// is a router, and to the host itself exactly if it was not asked to.
pub proof fn lemma_where_input_goes(workspace_routed: bool, router: bool)
    ensures
        target_of(workspace_routed, router) == Some(InputTarget::Workspace)
            <==> workspace_routed && router,
        target_of(workspace_routed, router) == Some(InputTarget::Native) <==> !workspace_routed,
{
}

/// A look at the active session ends it after five silent seconds, gives up a gesture
/// of which nothing was heard for two, and else does nothing; it never touches the
/// session of another device.
pub proof fn lemma_what_a_look_finds(
    sessions: Seq<crate::input_session::SessionView>,
    i: int,
    device_id: Seq<char>,
    now: u64,
)
    requires
        crate::input_session::valid(sessions),
        0 <= i < sessions.len(),
    ensures
        ({
            let s = sessions[i];
            let (tick, after) = tick_of(sessions, Some(s.lease), device_id, now);
            &&& s.device_id != device_id ==> tick is Quiet && after == sessions
            &&& tick is Expired <==> s.device_id == device_id && now - s.last_activity >= 5_000
            &&& tick is CancelGesture <==> s.device_id == device_id && now - s.last_activity
                < 5_000 && s.gesture_updated is Some && now - s.gesture_updated->0 >= 2_000
            &&& tick is Expired ==> tick->Expired_lease == s.lease && after == sessions
            &&& tick is CancelGesture ==> tick->CancelGesture_lease == s.lease
                && tick->workspace_routed == s.workspace_routed
                && after[i].gesture_updated is None && after[i].lease == s.lease
                && after[i].keys == s.keys && after[i].buttons == s.buttons
            &&& tick is Quiet ==> after == sessions
        }),
        tick_of(sessions, None, device_id, now).0 is Quiet,
        tick_of(sessions, None, device_id, now).1 == sessions,
{
    assert(crate::input_session::active(sessions, sessions[i].lease));
    assert(crate::input_session::place(sessions, sessions[i].lease) == i);
}

/// A window is told once a second has passed, with what was counted in it, each
/// count in its place.
pub proof fn lemma_windows_tell_what_was_counted(m: MetricsView, now: u64)
    ensures
        now >= m.window_started ==> (window_of(m, now) is Some <==> now - m.window_started
            >= 1_000_000),
        window_of(m, now) is Some ==> {
            let w = window_of(m, now)->0;
            &&& w.elapsed_us == now - m.window_started
            &&& w.motion_received == m.motion_received
            &&& w.quartz_submitted == m.quartz_submitted
            &&& w.maximum_gap_us == m.gap_max_us
            &&& w.maximum_source_gap_us == m.source_gap_max_us
            &&& w.maximum_transport_stall_us == m.transport_stall_max_us
            &&& w.maximum_apply_us == m.apply_max_us
            &&& m.gap_samples > 0 ==> m.gap_samples * w.average_gap_us <= m.gap_total_us
                < m.gap_samples * w.average_gap_us + m.gap_samples
            &&& m.quartz_submitted > 0 ==> m.quartz_submitted * w.average_apply_us
                <= m.apply_total_us < m.quartz_submitted * w.average_apply_us + m.quartz_submitted
        },
{
    let (t, d) = (m.gap_total_us as int, larger(m.gap_samples, 1) as int);
    assert(d * (t / d) <= t < d * (t / d) + d) by (nonlinear_arith)
        requires
            d > 0,
            t >= 0,
    ;
    let (u, e) = (m.apply_total_us as int, larger(m.quartz_submitted, 1) as int);
    assert(e * (u / e) <= u < e * (u / e) + e) by (nonlinear_arith)
        requires
            e > 0,
            u >= 0,
    ;
}

/// A motion that was taken counts once, with the time that it took.
pub proof fn lemma_taken_motions_are_counted(m: MetricsView, apply_us: u64)
    ensures
        ({
            let after = quartz_observed(m, apply_us);
            &&& m.quartz_submitted < u64::MAX ==> after.quartz_submitted == m.quartz_submitted + 1
            &&& m.apply_total_us + apply_us <= u64::MAX ==> after.apply_total_us
                == m.apply_total_us + apply_us
            &&& after.apply_max_us >= apply_us && after.apply_max_us >= m.apply_max_us
            &&& after.apply_max_us == apply_us || after.apply_max_us == m.apply_max_us
            &&& after.motion_received == m.motion_received
            &&& after.gap_samples == m.gap_samples && after.gap_total_us == m.gap_total_us
            &&& after.gap_max_us == m.gap_max_us
            &&& after.window_started == m.window_started
        }),
{
}

/// A client hears of every frame without motion, and of one in fifteen with motion.
pub proof fn lemma_which_frames_are_told(sequence: u64)
    ensures
        is_told(false, sequence),
        sequence + 15 <= u64::MAX ==> is_told(true, sequence) == is_told(
            true,
            (sequence + 15) as u64,
        ),
        is_told(true, sequence) && sequence + 14 <= u64::MAX ==> forall|k: u64|
            1 <= k <= 14 ==> !#[trigger] is_told(true, (sequence + k) as u64),
        is_told(true, 0),
{
}

/// Where nobody controls the input, who asks gets it, routed as asked; where somebody
/// does, they keep it and who asks is told that the input is busy.
pub proof fn lemma_input_goes_to_one_client(
    r: BeginStep,
    before: Seq<crate::input_session::SessionView>,
    after: Seq<crate::input_session::SessionView>,
    request: InputSessionRequest,
    device_id: Seq<char>,
    permission: InputPermission,
    now: u64,
)
    requires
        leases(r, before, after, request, device_id, permission, now),
    ensures
        before.len() == 0 ==> {
            &&& r is Lease
            &&& after.len() == 1
            &&& after[0].lease == r->lease
            &&& after[0].device_id == device_id
            &&& after[0].workspace_routed == request.workspace_routing
            &&& after[0].last_activity == now
            &&& after[0].reliable_sequence == 0
            &&& after[0].keys.len() == 0 && after[0].buttons.len() == 0
            &&& 0 < r->lease.session_id <= 0x7fff_ffff_ffff_ffff
            &&& r->lease.epoch > 0
        },
        before.len() > 0 ==> {
            &&& r is Busy
            &&& after == before
            &&& r->Busy_answer.status@.code is Busy
            &&& r->Busy_answer.request_id == request.request_id
            &&& !r->Busy_answer.workspace_routing_active
            &&& !r->Busy_answer.supports_system_gestures
            &&& r->Busy_answer.control_epoch == 0
        },
{
}

} // verus!
