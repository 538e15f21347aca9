//! Remote input: leases, frames, what is held down, focus and metrics.

use arcrelay_protocol::features::{Feature, SelectedFeatures};
use arcrelay_protocol::host::{
    HostCapabilityError, HostCapabilityErrorCode, WorkspaceInputFocusCause,
    WorkspaceInputRouteState, WorkspaceInputSnapshot,
};
use arcrelay_protocol::input_session::{
    lease_label, InputFeedbackSnapshot, InputLease, InputSessionManager, MouseButton, NativeEvent,
    ReliableEvent, ScrollGesturePhase, GESTURE_IDLE_MS, INPUT_LEASE_TIMEOUT_MS,
    MAX_RELIABLE_EVENTS_PER_FRAME, MAX_RELIABLE_FRAMES_PER_SECOND,
};
use arcrelay_protocol::input_stream::{
    accept_input_frame, asks_permission, begin_input_session, begin_lease_end, check_input_frame,
    check_input_session, convert_reliable_events, feedback_due, finish_lease_end, follow_focus,
    input_feedback_at, input_feedback_frame, input_focus_changed_frame, input_target, lease_tick,
    motion_events, resume_input_session, revoked_feedback, route_failed, session_ended,
    session_started, BeginStep, GestureOutcome, InputMetricsAccumulator, InputPermission,
    InputSessionRequest, InputTarget, LeaseTick, MotionTotals, ReliableInputFrame, WireInputEvent,
    WireMouseButton, WireScrollPhase,
};
use arcrelay_protocol::peer::PeerCapability;
use arcrelay_protocol::status::{ok_status, ErrorCode};

#[test]
fn workspace_routing_is_bound_to_the_authenticated_lease() {
    let mut manager = InputSessionManager::new();
    let lease = manager
        .acquire_with_routing("phone", "Phone", true, 0)
        .unwrap();

    assert!(manager.is_workspace_routed(lease, "phone"));
    assert!(!manager.is_workspace_routed(lease, "tablet"));
    manager.release(lease, None);
    assert!(!manager.is_workspace_routed(lease, "phone"));
}

/// A swipe that began (1), goes on (2), ended (4) or was cancelled (8).
fn swipe(phase: u64) -> NativeEvent {
    NativeEvent::SystemGesture { gesture: phase }
}

fn gesture(phases: &[u64], active: bool) -> ReliableEvent {
    ReliableEvent::SystemGesture {
        phases: phases.to_vec(),
        active,
    }
}

#[test]
fn dock_swipe_lease_release_and_replacement_cancel_but_tails_do_not_start() {
    let mut manager = InputSessionManager::new();
    let lease = manager.acquire("phone", "Phone", 0).unwrap();
    assert!(manager
        .normalize_reliable_events(lease, "other", vec![gesture(&[1], true)], 0)
        .is_err());
    assert!(manager
        .normalize_reliable_events(lease, "phone", vec![gesture(&[], false)], 0)
        .unwrap()
        .is_empty());
    assert_eq!(
        manager
            .normalize_reliable_events(lease, "phone", vec![gesture(&[1], true)], 0)
            .unwrap(),
        vec![swipe(1)]
    );
    assert_eq!(
        manager
            .normalize_reliable_events(lease, "phone", vec![gesture(&[8, 1], true)], 0)
            .unwrap(),
        vec![swipe(8), swipe(1)]
    );
    assert_eq!(
        manager
            .normalize_reliable_events(
                lease,
                "phone",
                vec![ReliableEvent::ReleaseAll { cancelled: Some(8) }],
                0
            )
            .unwrap(),
        vec![swipe(8)]
    );
    manager
        .normalize_reliable_events(lease, "phone", vec![gesture(&[1], true)], 0)
        .unwrap();
    assert_eq!(manager.release(lease, Some(8)), vec![swipe(8)]);
    let next = manager.acquire("phone", "Phone", 0).unwrap();
    assert!(manager
        .normalize_reliable_events(lease, "phone", vec![gesture(&[2], true)], 0)
        .is_err());
    assert!(manager
        .normalize_reliable_events(next, "phone", vec![gesture(&[], false)], 0)
        .unwrap()
        .is_empty());
}

#[test]
fn dock_swipe_timeout_ignores_keepalive_and_is_owner_scoped() {
    let mut manager = InputSessionManager::new();
    let lease = manager.acquire("phone", "Phone", 0).unwrap();
    manager
        .normalize_reliable_events(lease, "phone", vec![gesture(&[1], true)], 0)
        .unwrap();
    manager
        .accept_reliable(lease, "phone", 1, 1, 0, 3_000)
        .unwrap();
    assert!(!manager.cancel_idle_system_gesture(lease, "other", 3_000));
    assert!(manager.cancel_idle_system_gesture(lease, "phone", 3_000));
    assert!(!manager.cancel_idle_system_gesture(lease, "phone", 3_000));
    assert!(manager
        .normalize_reliable_events(lease, "phone", vec![gesture(&[], false)], 3_000)
        .unwrap()
        .is_empty());
}

#[test]
fn system_gesture_session_construction_needs_no_tokio_runtime() {
    let mut manager = InputSessionManager::default();
    assert!(manager.acquire("phone", "Phone", 0).is_ok());
}

fn key(hid_usage: u16, down: bool) -> ReliableEvent {
    ReliableEvent::Key {
        hid_usage,
        down,
        repeat: false,
    }
}

fn native_key(hid_usage: u16, down: bool) -> NativeEvent {
    NativeEvent::Key {
        hid_usage,
        down,
        repeat: false,
    }
}

#[test]
fn only_one_device_can_hold_the_global_input_session() {
    let mut manager = InputSessionManager::new();
    let phone = manager.acquire("phone", "Phone", 0).unwrap();
    assert!(manager.acquire("tablet", "Tablet", 0).is_err());

    manager
        .accept_reliable(phone, "phone", 1, 1, 0, 0)
        .unwrap();
    let phone_motion = manager
        .accept_ordered_motion(phone, "phone", 256, 0, 0, 0, true, 0)
        .unwrap();
    assert_eq!(phone_motion.pointer_x_256, 256);
    manager.release(phone, None);
    assert!(manager.acquire("tablet", "Tablet", 0).is_ok());
}

#[test]
fn release_clears_held_key_before_next_controller() {
    let mut manager = InputSessionManager::new();
    let phone = manager.acquire("phone", "Phone", 0).unwrap();

    assert_eq!(
        manager
            .normalize_reliable_events(phone, "phone", vec![key(0x04, true)], 0)
            .unwrap(),
        vec![native_key(0x04, true)]
    );
    assert_eq!(manager.release(phone, None), vec![native_key(0x04, false)]);
    let tablet = manager.acquire("tablet", "Tablet", 0).unwrap();
    assert_eq!(
        manager
            .normalize_reliable_events(tablet, "tablet", vec![key(0x04, true)], 0)
            .unwrap(),
        vec![native_key(0x04, true)]
    );
}

#[test]
fn release_all_clears_the_global_button_state() {
    let mut manager = InputSessionManager::new();
    let phone = manager.acquire("phone", "Phone", 0).unwrap();
    let button_down = || ReliableEvent::PointerButton {
        button: MouseButton::Left,
        down: true,
        click_count: 1,
    };

    assert_eq!(
        manager
            .normalize_reliable_events(phone, "phone", vec![button_down()], 0)
            .unwrap(),
        vec![NativeEvent::PointerButton {
            button: MouseButton::Left,
            down: true,
            click_count: 1,
        }]
    );
    assert_eq!(
        manager
            .normalize_reliable_events(
                phone,
                "phone",
                vec![ReliableEvent::ReleaseAll { cancelled: None }],
                0
            )
            .unwrap(),
        vec![NativeEvent::PointerButton {
            button: MouseButton::Left,
            down: false,
            click_count: 1,
        }]
    );
    assert!(manager.release(phone, None).is_empty());
}

#[test]
fn lease_is_bound_to_authenticated_device() {
    let mut manager = InputSessionManager::new();
    let lease = manager.acquire("device-a", "Phone", 0).unwrap();

    assert!(manager
        .accept_reliable(lease, "device-b", 1, 1, 0, 0)
        .is_err());
    assert!(manager
        .accept_reliable(lease, "device-a", 1, 1, 0, 0)
        .is_ok());
}

#[test]
fn ordered_motion_uses_latest_cumulative_totals_without_catch_up_jump() {
    let mut manager = InputSessionManager::new();
    let lease = manager.acquire("device", "iPad", 0).unwrap();

    manager
        .accept_reliable(lease, "device", 1, 1, 0, 0)
        .unwrap();
    let first = manager
        .accept_ordered_motion(lease, "device", 384, -128, 0, 0, true, 0)
        .unwrap();
    assert_eq!(first.pointer_x_256, 384);
    assert_eq!(first.pointer_y_256, -128);

    manager
        .accept_reliable(lease, "device", 2, 2, 0, 0)
        .unwrap();
    let next = manager
        .accept_ordered_motion(lease, "device", 512, -64, 0, 0, true, 0)
        .unwrap();
    assert_eq!(next.pointer_x_256, 128);
    assert_eq!(next.pointer_y_256, 64);
}

#[test]
fn reliable_keepalives_are_rate_limited() {
    let mut manager = InputSessionManager::new();
    let lease = manager.acquire("device", "Phone", 0).unwrap();

    for sequence in 1..=MAX_RELIABLE_FRAMES_PER_SECOND as u64 {
        manager
            .accept_reliable(lease, "device", sequence, sequence, 0, 0)
            .unwrap();
    }
    let next = MAX_RELIABLE_FRAMES_PER_SECOND as u64 + 1;
    assert_eq!(
        manager.accept_reliable(lease, "device", next, next, 0, 999),
        Err("reliable input frame rate limit exceeded".to_string())
    );
    assert!(manager
        .accept_reliable(lease, "device", next, next, 0, 1_000)
        .is_ok());
}

#[test]
fn a_held_lease_names_its_holder() {
    let mut manager = InputSessionManager::new();
    let lease = manager.acquire_lease("phone", false, 7, 3, 0).unwrap();
    assert_eq!(lease, InputLease { session_id: 7, epoch: 3 });
    assert_eq!(lease_label(lease), "0000000000000007:00000003");
    assert_eq!(
        manager.acquire("tablet", "Tablet", 0),
        Err("input is already controlled by phone at epoch 3".to_string())
    );
}

#[test]
fn a_lease_is_never_drawn_as_zero() {
    let mut manager = InputSessionManager::new();
    let lease = manager.acquire_lease("phone", false, 0, 0, 0).unwrap();
    assert_eq!(lease, InputLease { session_id: 1, epoch: 1 });
    let mut manager = InputSessionManager::new();
    let lease = manager.acquire_lease("phone", false, u64::MAX, 1, 0).unwrap();
    assert_eq!(lease.session_id, i64::MAX as u64);
}

#[test]
fn frames_out_of_order_or_late_are_refused() {
    let mut manager = InputSessionManager::new();
    let lease = manager.acquire("phone", "Phone", 0).unwrap();
    let mut accept = |sequence, elapsed, now| {
        manager.accept_reliable(lease, "phone", sequence, elapsed, 0, now)
    };
    assert_eq!(
        accept(2, 0, 0),
        Err("out-of-order reliable input frame".to_string())
    );
    assert_eq!(
        accept(1, 10, 0),
        Ok(InputFeedbackSnapshot {
            reliable_sequence: 1,
            ..InputFeedbackSnapshot::default()
        })
    );
    assert_eq!(
        accept(2, 9, 0),
        Err("reliable input clock moved backwards".to_string())
    );
    assert_eq!(
        accept(2, 10, INPUT_LEASE_TIMEOUT_MS),
        Err("input lease expired".to_string())
    );
    assert!(manager.is_expired(lease, "phone", INPUT_LEASE_TIMEOUT_MS));
    let unknown = InputLease { session_id: 0, epoch: 0 };
    assert_eq!(
        manager.accept_reliable(unknown, "phone", 2, 10, 0, 0),
        Err("input session is not active".to_string())
    );
    assert_eq!(
        manager.accept_reliable(lease, "tablet", 2, 10, 0, 0),
        Err("input session identity mismatch".to_string())
    );
}

#[test]
fn a_key_is_pressed_once_and_may_repeat() {
    let mut manager = InputSessionManager::new();
    let lease = manager.acquire("phone", "Phone", 0).unwrap();
    let mut take = |events| {
        manager
            .normalize_reliable_events(lease, "phone", events, 0)
            .unwrap()
    };
    assert_eq!(take(vec![key(4, false)]), vec![]);
    assert_eq!(take(vec![key(4, true), key(4, true)]), vec![native_key(4, true)]);
    let repeat = ReliableEvent::Key { hid_usage: 4, down: true, repeat: true };
    assert_eq!(
        take(vec![repeat]),
        vec![NativeEvent::Key { hid_usage: 4, down: true, repeat: true }]
    );
    assert_eq!(take(vec![key(4, false)]), vec![native_key(4, false)]);
}

fn wire_gesture(format_version: u32, outcome: Result<GestureOutcome, String>) -> WireInputEvent {
    WireInputEvent::SystemGesture {
        format_version,
        outcome,
    }
}

#[test]
fn dock_swipe_wire_values_are_bounded_and_old_receivers_default_off() {
    for phase in [1, 2, 4, 8] {
        let outcome = Ok(GestureOutcome {
            phases: vec![phase],
            active: phase < 4,
        });
        assert_eq!(
            convert_reliable_events(vec![Some(wire_gesture(1, outcome))]).unwrap(),
            vec![gesture(&[phase], phase < 4)]
        );
    }
    let good = || {
        Ok(GestureOutcome {
            phases: vec![1],
            active: true,
        })
    };
    assert!(convert_reliable_events(vec![Some(wire_gesture(2, good()))]).is_err());
    assert_eq!(
        convert_reliable_events(vec![Some(wire_gesture(1, Err("bad axis".into())))]),
        Err("bad axis".to_string())
    );
}

fn scroll(phase: WireScrollPhase) -> Option<WireInputEvent> {
    Some(WireInputEvent::ScrollGesture { phase })
}

#[test]
fn reliable_scroll_gesture_phases_convert_in_order() {
    let events = vec![scroll(WireScrollPhase::Began), scroll(WireScrollPhase::Ended)];

    assert_eq!(
        convert_reliable_events(events).unwrap(),
        vec![
            ReliableEvent::ScrollGesture {
                phase: ScrollGesturePhase::Began,
            },
            ReliableEvent::ScrollGesture {
                phase: ScrollGesturePhase::Ended,
            },
        ]
    );
}

#[test]
fn reliable_scroll_gesture_rejects_unspecified_phase() {
    assert!(convert_reliable_events(vec![scroll(WireScrollPhase::Unspecified)]).is_err());
}

#[test]
fn malformed_events_are_told_apart() {
    let button = |button, click_count| WireInputEvent::PointerButton {
        button,
        down: true,
        click_count,
    };
    let press = |hid_usage, down, repeat| WireInputEvent::Key {
        hid_usage,
        down,
        repeat,
    };
    let text = |text: &str| WireInputEvent::TextCommit { text: text.into() };
    for (event, fault) in [
        (None, "empty reliable input event"),
        (
            Some(button(WireMouseButton::Left, 4)),
            "pointer click count must be between 1 and 3",
        ),
        (Some(button(WireMouseButton::Unspecified, 1)), "invalid mouse button"),
        (Some(press(0, true, false)), "invalid HID keyboard usage"),
        (Some(press(0xE8, true, false)), "invalid HID keyboard usage"),
        (
            Some(press(4, false, true)),
            "key repeat is only valid for key-down events",
        ),
        (Some(text("")), "text commit is empty"),
        (Some(text(&"x".repeat(4097))), "text commit is too large"),
    ] {
        assert_eq!(convert_reliable_events(vec![event]), Err(fault.to_string()));
    }
    assert_eq!(
        convert_reliable_events(vec![
            Some(button(WireMouseButton::Middle, 2)),
            Some(press(0xE7, false, false)),
            Some(text("hi")),
        ])
        .unwrap(),
        vec![
            ReliableEvent::PointerButton {
                button: MouseButton::Middle,
                down: true,
                click_count: 2,
            },
            key(0xE7, false),
            ReliableEvent::TextCommit { text: "hi".into() },
        ]
    );
}

fn features(list: &[Feature]) -> SelectedFeatures {
    let mut selected = SelectedFeatures::new();
    for feature in list {
        selected.insert(*feature, 1);
    }
    selected
}

fn empty_frame(lease: InputLease, sequence: u64) -> ReliableInputFrame {
    ReliableInputFrame {
        lease,
        sequence,
        elapsed_us: sequence,
        motion: None,
        events: vec![],
    }
}

fn motion_frame(lease: InputLease, sequence: u64) -> ReliableInputFrame {
    ReliableInputFrame {
        motion: Some(MotionTotals {
            pointer_x_256: 256 * sequence as i64,
            pointer_y_256: 0,
            scroll_x_256: 0,
            scroll_y_256: -5,
            precise_scroll: true,
        }),
        ..empty_frame(lease, sequence)
    }
}

fn key_frame(lease: InputLease, sequence: u64) -> ReliableInputFrame {
    ReliableInputFrame {
        events: vec![Some(WireInputEvent::Key {
            hid_usage: 4,
            down: true,
            repeat: false,
        })],
        ..empty_frame(lease, sequence)
    }
}

#[test]
fn a_frame_is_taken_in_once_and_in_order() {
    let mut manager = InputSessionManager::new();
    let lease = manager.acquire("phone", "Phone", 0).unwrap();
    let checked = || check_input_frame(key_frame(lease, 1)).unwrap();
    let accepted = accept_input_frame(&mut manager, checked(), "phone", 10).unwrap();
    assert_eq!(accepted.native, vec![native_key(4, true)]);
    assert_eq!(accepted.motion, None);
    assert_eq!(accepted.feedback.reliable_sequence, 1);
    assert_eq!(
        accept_input_frame(&mut manager, checked(), "phone", 11),
        Err("out-of-order reliable input frame".to_string())
    );

    let next = check_input_frame(motion_frame(lease, 2)).unwrap();
    let accepted = accept_input_frame(&mut manager, next, "phone", 12).unwrap();
    assert_eq!(accepted.native, vec![]);
    let motion = accepted.motion.unwrap();
    assert_eq!((motion.pointer_x_256, motion.scroll_y_256), (512, -5));
    let events = motion_events(&motion);
    assert_eq!(events.pointer, Some((512, 0)));
    assert_eq!(events.scroll, Some((0, -5)));
    assert!(events.precise_scroll);

    let next = check_input_frame(motion_frame(lease, 3)).unwrap();
    let accepted = accept_input_frame(&mut manager, next, "phone", 13).unwrap();
    assert_eq!(accepted.motion.unwrap().pointer_x_256, 256);
    assert_eq!(accepted.motion.unwrap().scroll_y_256, 0);
}

#[test]
fn a_frame_has_motion_or_events() {
    let lease = InputLease { session_id: 1, epoch: 1 };
    let mut mixed = motion_frame(lease, 1);
    mixed.events = key_frame(lease, 1).events;
    assert_eq!(
        check_input_frame(mixed),
        Err("ordered input frame mixes motion and discrete events".to_string())
    );
}

#[test]
fn a_frame_has_a_limited_number_of_events() {
    let lease = InputLease { session_id: 1, epoch: 1 };
    let mut full = empty_frame(lease, 1);
    full.events = (0..MAX_RELIABLE_EVENTS_PER_FRAME + 1)
        .map(|_| scroll(WireScrollPhase::Began))
        .collect();
    assert_eq!(
        check_input_frame(full),
        Err("invalid reliable input event count".to_string())
    );
}

#[test]
fn feedback_is_given_now_and_then() {
    assert!(feedback_due(false, 1));
    assert!(!feedback_due(true, 14));
    assert!(feedback_due(true, 15));
    let lease = InputLease { session_id: 9, epoch: 2 };
    let snapshot = InputFeedbackSnapshot {
        reliable_sequence: 30,
        ..InputFeedbackSnapshot::default()
    };
    let feedback = input_feedback_at(lease, snapshot, ok_status(), 77);
    assert_eq!((feedback.session_id, feedback.epoch), (9, 2));
    assert_eq!((feedback.reliable_sequence, feedback.server_time_ms), (30, 77));
    let feedback = input_feedback_frame(lease, snapshot, ok_status());
    assert!(feedback.server_time_ms > 1_600_000_000_000);
    let revoked = revoked_feedback(lease, "input lease expired");
    assert_eq!(revoked.status.message, "input lease expired");
    assert_ne!(revoked.status.code, ErrorCode::Success);
}

fn focus(owner: Option<&str>, state: WorkspaceInputRouteState) -> WorkspaceInputSnapshot {
    WorkspaceInputSnapshot {
        owner_device_id: owner.map(str::to_owned),
        controller_device_id: "gateway".into(),
        logical_target_device_id: "target".into(),
        target_display_id: "display".into(),
        control_epoch: 12,
        supports_system_gestures: true,
        state,
        cause: WorkspaceInputFocusCause::PhysicalActivity,
        message: "physical takeover".into(),
    }
}

#[test]
fn workspace_focus_notification_preserves_owner_and_route() {
    let lease = InputLease {
        session_id: 41,
        epoch: 7,
    };
    let snapshot = focus(Some("phone"), WorkspaceInputRouteState::Suspended);

    let focus = input_focus_changed_frame(Some(lease), &snapshot);
    assert_eq!(focus.session_id, 41);
    assert_eq!(focus.epoch, 7);
    assert_eq!(focus.state, WorkspaceInputRouteState::Suspended);
    assert_eq!(focus.cause, WorkspaceInputFocusCause::PhysicalActivity);
    assert_eq!(focus.controller_device_id, "gateway");
    assert_eq!(focus.logical_target_device_id, "target");
    assert_eq!(focus.target_display_id, "display");
    assert_eq!(focus.control_epoch, 12);
    assert!(focus.supports_system_gestures);
}

#[test]
fn a_lease_ends_when_the_workspace_takes_the_focus_away() {
    let mut manager = InputSessionManager::new();
    let lease = manager
        .acquire_with_routing("phone", "Phone", true, 0)
        .unwrap();
    let mut active = Some(lease);
    let going_on = focus(Some("phone"), WorkspaceInputRouteState::Active);
    assert_eq!(
        follow_focus(&mut active, &mut manager, &going_on, "phone"),
        (Some(lease), false)
    );
    let of_another = focus(Some("tablet"), WorkspaceInputRouteState::Ended);
    assert_eq!(
        follow_focus(&mut active, &mut manager, &of_another, "phone"),
        (None, false)
    );
    let over = focus(Some("phone"), WorkspaceInputRouteState::Ended);
    assert_eq!(
        follow_focus(&mut active, &mut manager, &over, "phone"),
        (Some(lease), true)
    );
    assert_eq!(active, None);
    assert!(manager.acquire("tablet", "Tablet", 0).is_ok());
}

fn request(workspace_routing: bool) -> InputSessionRequest {
    InputSessionRequest {
        request_id: 5,
        workspace_routing,
    }
}

#[test]
fn a_session_needs_feature_capability_and_permission() {
    let both = features(&[Feature::InputReliable, Feature::WorkspaceInput]);
    let some = vec![PeerCapability::RemoteInputInject];
    let check = |features: &SelectedFeatures, capabilities: &Vec<PeerCapability>, routed, router, permission| {
        check_input_session(&request(routed), features, capabilities, router, permission)
            .map_err(|refusal| (refusal.status.code, refusal.status.message))
    };
    let granted = InputPermission::Granted;
    assert_eq!(check(&both, &some, true, true, granted), Ok(()));
    let refused = check(&features(&[]), &some, false, false, granted).unwrap_err();
    assert_eq!(
        refused,
        (
            ErrorCode::Unsupported,
            "remote input features were not negotiated".to_string()
        )
    );
    let refused = check(&both, &vec![], false, false, granted).unwrap_err();
    assert_eq!(refused.1, "remote-input.inject capability was not granted");
    let refused = check(&both, &some, true, false, granted).unwrap_err();
    assert_eq!(refused.1, "workspace input routing is unavailable");
    let refused = check(&both, &some, false, false, InputPermission::Denied).unwrap_err();
    assert_eq!(
        refused,
        (
            ErrorCode::PermissionDenied,
            "desktop input permission is not granted".to_string()
        )
    );
    assert!(asks_permission(&request(false), &both, &some, false, InputPermission::Denied));
    assert!(!asks_permission(&request(false), &both, &some, false, granted));
    assert!(!asks_permission(&request(false), &both, &vec![], false, InputPermission::Denied));
}

#[test]
fn a_new_session_takes_the_place_of_the_devices_own() {
    let both = features(&[Feature::InputReliable]);
    let some = vec![PeerCapability::RemoteInputInject];
    let mut manager = InputSessionManager::new();
    let mut active = None;
    let begin = |active: &mut Option<InputLease>, manager: &mut InputSessionManager, device: &str| {
        begin_input_session(
            active,
            manager,
            &request(false),
            &both,
            &some,
            false,
            InputPermission::Granted,
            device,
            device,
            None,
            0,
        )
    };
    let first = match begin(&mut active, &mut manager, "phone") {
        BeginStep::Lease { lease } => lease,
        other => panic!("{other:?}"),
    };
    let started = session_started(&mut active, 5, first, InputPermission::Granted, None, true);
    assert_eq!((started.request_id, started.session_id), (5, first.session_id));
    assert!(started.supports_system_gestures);
    assert!(!started.workspace_routing_active);
    assert_eq!(started.lease_timeout_ms, 5_000);
    assert_eq!(started.max_reliable_events_per_frame, 64);
    assert_eq!(active, Some(first));

    match begin(&mut active, &mut manager, "phone") {
        BeginStep::EndFirst { previous, end } => {
            assert_eq!(previous, first);
            assert!(end.release_all);
        }
        other => panic!("{other:?}"),
    }
    assert_eq!(active, None);
    let mut of_tablet = None;
    match begin(&mut of_tablet, &mut manager, "tablet") {
        BeginStep::Busy { answer } => assert_eq!(answer.status.code, ErrorCode::Busy),
        other => panic!("{other:?}"),
    }
    let granted = InputPermission::Granted;
    match resume_input_session(&mut manager, first, &request(false), granted, "phone", "Phone", 0) {
        BeginStep::Lease { lease } => assert_ne!(lease, first),
        other => panic!("{other:?}"),
    }
    match begin(&mut of_tablet, &mut manager, "tablet") {
        BeginStep::Busy { answer } => assert_eq!(answer.status.code, ErrorCode::Busy),
        other => panic!("{other:?}"),
    }
}

#[test]
fn a_lease_ends_with_everything_let_go() {
    let mut manager = InputSessionManager::new();
    let lease = manager.acquire("phone", "Phone", 0).unwrap();
    let mut active = Some(lease);
    manager
        .normalize_reliable_events(lease, "phone", vec![key(4, true)], 0)
        .unwrap();
    let other = InputLease { session_id: 0, epoch: 0 };
    assert!(begin_lease_end(&mut active, &manager, other, "phone", None).is_none());
    let end = begin_lease_end(&mut active, &manager, lease, "phone", None).unwrap();
    assert_eq!(end.releases, vec![native_key(4, false)]);
    assert!(end.release_all);
    assert!(!end.workspace_routed);
    assert_eq!(active, None);
    finish_lease_end(&mut manager, lease);
    let told = session_ended(6, true, lease, InputPermission::Granted);
    assert_eq!(told.status.code, ErrorCode::Success);
    let told = session_ended(6, false, lease, InputPermission::Granted);
    assert_eq!(told.status.message, "input session is not active");
}

#[test]
fn a_routed_lease_is_ended_by_the_router() {
    let mut manager = InputSessionManager::new();
    let lease = manager
        .acquire_with_routing("phone", "Phone", true, 0)
        .unwrap();
    let mut active = Some(lease);
    let end = begin_lease_end(&mut active, &manager, lease, "phone", None).unwrap();
    assert!(end.workspace_routed);
    assert!(!end.release_all);
}

#[test]
fn cancellation_during_native_release_keeps_lease_owned_until_cleanup_finishes() {
    let mut manager = InputSessionManager::new();
    let lease = manager.acquire("phone", "Phone", 0).unwrap();
    let mut active = Some(lease);

    let end = begin_lease_end(&mut active, &manager, lease, "phone", None).unwrap();
    assert!(end.release_all);
    assert!(end.releases.is_empty());
    assert!(manager.acquire("tablet", "Tablet", 0).is_err());
    assert!(begin_lease_end(&mut active, &manager, lease, "phone", None).is_none());

    finish_lease_end(&mut manager, lease);
    assert_eq!(active, None);
    assert!(manager.acquire("tablet", "Tablet", 0).is_ok());
}

#[test]
fn a_route_that_fails_ends_the_lease() {
    let mut manager = InputSessionManager::new();
    let lease = manager
        .acquire_with_routing("phone", "Phone", true, 0)
        .unwrap();
    let error = HostCapabilityError::new(HostCapabilityErrorCode::Conflict, "in use");
    let told = route_failed(&mut manager, lease, 5, InputPermission::Granted, error);
    assert_eq!(told.status.code, ErrorCode::Conflict);
    assert_eq!(told.session_id, 0);
    assert!(manager.acquire("tablet", "Tablet", 0).is_ok());
    assert_eq!(input_target(false, false, "gone"), Ok(InputTarget::Native));
    assert_eq!(input_target(true, true, "gone"), Ok(InputTarget::Workspace));
    assert_eq!(
        input_target(true, false, "gone"),
        Err(HostCapabilityError::new(HostCapabilityErrorCode::Unavailable, "gone"))
    );
}

#[test]
fn leases_and_gestures_run_out() {
    let mut manager = InputSessionManager::new();
    let lease = manager.acquire("phone", "Phone", 0).unwrap();
    manager
        .normalize_reliable_events(lease, "phone", vec![gesture(&[1], true)], 0)
        .unwrap();
    let active = Some(lease);
    assert_eq!(lease_tick(&mut manager, None, "phone", 0), LeaseTick::Quiet);
    assert_eq!(
        lease_tick(&mut manager, active, "phone", GESTURE_IDLE_MS - 1),
        LeaseTick::Quiet
    );
    assert_eq!(
        lease_tick(&mut manager, active, "phone", GESTURE_IDLE_MS),
        LeaseTick::CancelGesture {
            lease,
            workspace_routed: false
        }
    );
    assert_eq!(
        lease_tick(&mut manager, active, "phone", INPUT_LEASE_TIMEOUT_MS),
        LeaseTick::Expired { lease }
    );
}

#[test]
fn metrics_are_summed_up_once_a_second() {
    let mut metrics = InputMetricsAccumulator::new(1_000);
    metrics.observe_motion(2_000, 500);
    metrics.observe_motion(5_000, 1_500);
    metrics.observe_motion(6_000, 3_500);
    metrics.observe_quartz(10);
    metrics.observe_quartz(30);
    assert_eq!(metrics.take(1_000_999), None);
    let window = metrics.take(1_001_000).unwrap();
    assert_eq!(window.elapsed_us, 1_000_000);
    assert_eq!((window.motion_received, window.quartz_submitted), (3, 2));
    assert_eq!((window.average_gap_us, window.maximum_gap_us), (2_000, 3_000));
    assert_eq!(window.maximum_source_gap_us, 2_000);
    assert_eq!(window.maximum_transport_stall_us, 2_000);
    assert_eq!((window.average_apply_us, window.maximum_apply_us), (20, 30));
    let next = metrics.take(2_001_000).unwrap();
    assert_eq!((next.motion_received, next.average_gap_us), (0, 0));
}
