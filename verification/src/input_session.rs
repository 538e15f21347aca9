//! The remote-input session: who holds it, in which order its frames come, how
//! far the pointer moved, and which keys and buttons are held down.

use std::collections::HashMap;

use vstd::prelude::*;
use vstd::string::*;

use crate::keyed::{lemma_sum_push, lemma_sum_remove};
use crate::outside::{random_u32, random_u64};
use crate::text::{decimal_text, hex_text, str_eq};

verus! {

/// Milliseconds after which a silent lease has expired.
pub const INPUT_LEASE_TIMEOUT_MS: u64 = 5_000;

pub const MAX_RELIABLE_EVENTS_PER_FRAME: usize = 64;

pub const MAX_RELIABLE_FRAMES_PER_SECOND: usize = 240;

/// Milliseconds after which a gesture without news is abandoned.
pub const GESTURE_IDLE_MS: u64 = 2_000;

/// Names one remote-input session.
#[derive(Debug, Clone, Copy, PartialEq, Eq, Hash, Structural)]
pub struct InputLease {
    pub session_id: u64,
    pub epoch: u32,
}

/// What the host has taken in so far.
#[derive(Debug, Clone, Copy, PartialEq, Eq, Structural)]
pub struct InputFeedbackSnapshot {
    pub reliable_sequence: u64,
    pub motion_sequence: u64,
    pub motion_datagrams_received: u32,
    pub motion_datagrams_missing: u32,
}

impl Default for InputFeedbackSnapshot {
    fn default() -> (r: InputFeedbackSnapshot)
        ensures
            r == no_feedback(),
    {
        InputFeedbackSnapshot {
            reliable_sequence: 0,
            motion_sequence: 0,
            motion_datagrams_received: 0,
            motion_datagrams_missing: 0,
        }
    }
}

/// Feedback before anything was taken in.
pub open spec fn no_feedback() -> InputFeedbackSnapshot {
    InputFeedbackSnapshot {
        reliable_sequence: 0,
        motion_sequence: 0,
        motion_datagrams_received: 0,
        motion_datagrams_missing: 0,
    }
}

/// How far the pointer and the scroll position moved, in 256ths.
#[derive(Debug, Clone, Copy, PartialEq, Eq, Structural)]
pub struct MotionDelta {
    pub pointer_x_256: i64,
    pub pointer_y_256: i64,
    pub scroll_x_256: i64,
    pub scroll_y_256: i64,
    pub precise_scroll: bool,
    pub feedback: InputFeedbackSnapshot,
}

#[derive(Debug, Clone, Copy, PartialEq, Eq, Hash, Structural)]
pub enum MouseButton {
    Left,
    Right,
    Middle,
}

#[derive(Debug, Clone, Copy, PartialEq, Eq, Structural)]
pub enum ScrollGesturePhase {
    Began,
    Ended,
    Cancelled,
    MomentumBegan,
    MomentumEnded,
}

/// An event of a reliable input frame. A system gesture comes with what its
/// gesture sequence made of it: the gestures to pass on, each by a handle, and
/// whether a gesture is under way afterwards. A request to release everything
/// comes with the gesture that cancelling the sequence gave, if any.
#[derive(Debug, PartialEq, Eq)]
pub enum ReliableEvent {
    Key { hid_usage: u16, down: bool, repeat: bool },
    PointerButton { button: MouseButton, down: bool, click_count: u8 },
    TextCommit { text: String },
    ScrollGesture { phase: ScrollGesturePhase },
    SystemGesture { phases: Vec<u64>, active: bool },
    ReleaseAll { cancelled: Option<u64> },
}

/// An event for the native input system.
#[derive(Debug, PartialEq, Eq)]
pub enum NativeEvent {
    Key { hid_usage: u16, down: bool, repeat: bool },
    PointerButton { button: MouseButton, down: bool, click_count: u8 },
    TextCommit { text: String },
    ScrollGesture { phase: ScrollGesturePhase },
    SystemGesture { gesture: u64 },
}

/// A [`NativeEvent`] as a mathematical value.
pub enum NativeView {
    Key { hid_usage: u16, down: bool, repeat: bool },
    PointerButton { button: MouseButton, down: bool, click_count: u8 },
    TextCommit { text: Seq<char> },
    ScrollGesture { phase: ScrollGesturePhase },
    SystemGesture { gesture: u64 },
}

impl View for NativeEvent {
    type V = NativeView;

    open spec fn view(&self) -> NativeView {
        match *self {
            NativeEvent::Key { hid_usage, down, repeat } => NativeView::Key {
                hid_usage,
                down,
                repeat,
            },
            NativeEvent::PointerButton { button, down, click_count } => NativeView::PointerButton {
                button,
                down,
                click_count,
            },
            NativeEvent::TextCommit { text } => NativeView::TextCommit { text: text@ },
            NativeEvent::ScrollGesture { phase } => NativeView::ScrollGesture { phase },
            NativeEvent::SystemGesture { gesture } => NativeView::SystemGesture { gesture },
        }
    }
}

/// The events of a list as mathematical values.
pub open spec fn native_views(events: Seq<NativeEvent>) -> Seq<NativeView> {
    events.map_values(|e: NativeEvent| e@)
}

/// A number for each button.
pub open spec fn button_code(button: MouseButton) -> u16 {
    match button {
        MouseButton::Left => 1,
        MouseButton::Right => 2,
        MouseButton::Middle => 3,
    }
}

fn code_of(button: MouseButton) -> (r: u16)
    ensures
        r == button_code(button),
{
    match button {
        MouseButton::Left => 1,
        MouseButton::Right => 2,
        MouseButton::Middle => 3,
    }
}

/// A session as a mathematical value. The keys and buttons that it holds down
/// are in the order in which they were pressed.
#[verifier::ext_equal]
pub struct SessionView {
    pub lease: InputLease,
    pub device_id: Seq<char>,
    pub last_activity: u64,
    pub reliable_sequence: u64,
    pub reliable_elapsed_us: u64,
    pub reliable_frames: Seq<u64>,
    pub pointer_total_x_256: i64,
    pub pointer_total_y_256: i64,
    pub scroll_total_x_256: i64,
    pub scroll_total_y_256: i64,
    pub keys: Seq<u16>,
    pub buttons: Seq<MouseButton>,
    pub gesture_updated: Option<u64>,
    pub workspace_routed: bool,
}

/// What a session holds down.
#[verifier::ext_equal]
pub struct Held {
    pub keys: Seq<u16>,
    pub buttons: Seq<MouseButton>,
    pub gesture_updated: Option<u64>,
}

/// The part of a session that its events change.
pub open spec fn held_of(s: SessionView) -> Held {
    Held { keys: s.keys, buttons: s.buttons, gesture_updated: s.gesture_updated }
}

/// The session with other things held down.
pub open spec fn with_held(s: SessionView, h: Held) -> SessionView {
    SessionView {
        keys: h.keys,
        buttons: h.buttons,
        gesture_updated: h.gesture_updated,
        ..s
    }
}

/// The sequence without one value.
pub open spec fn lifted<T>(s: Seq<T>, x: T) -> Seq<T> {
    if s.contains(x) {
        s.remove(s.index_of(x))
    } else {
        s
    }
}

/// The native key-up events for the keys that no other session holds.
pub open spec fn key_releases(keys: Seq<u16>, elsewhere: spec_fn(u16) -> bool) -> Seq<NativeView>
    decreases keys.len(),
{
    if keys.len() == 0 {
        Seq::empty()
    } else {
        let rest = key_releases(keys.drop_last(), elsewhere);
        if elsewhere(keys.last()) {
            rest
        } else {
            rest.push(NativeView::Key { hid_usage: keys.last(), down: false, repeat: false })
        }
    }
}

/// The native button-up events for the buttons that no other session holds.
pub open spec fn button_releases(
    buttons: Seq<MouseButton>,
    elsewhere: spec_fn(MouseButton) -> bool,
) -> Seq<NativeView>
    decreases buttons.len(),
{
    if buttons.len() == 0 {
        Seq::empty()
    } else {
        let rest = button_releases(buttons.drop_last(), elsewhere);
        if elsewhere(buttons.last()) {
            rest
        } else {
            rest.push(
                NativeView::PointerButton { button: buttons.last(), down: false, click_count: 1 },
            )
        }
    }
}

/// The gesture that a cancellation gave, as native events.
pub open spec fn cancelled_gesture(cancelled: Option<u64>) -> Seq<NativeView> {
    match cancelled {
        Some(gesture) => seq![NativeView::SystemGesture { gesture }],
        None => Seq::empty(),
    }
}

/// The native events that let go of everything a session holds.
pub open spec fn releases(
    h: Held,
    cancelled: Option<u64>,
    key_elsewhere: spec_fn(u16) -> bool,
    button_elsewhere: spec_fn(MouseButton) -> bool,
) -> Seq<NativeView> {
    cancelled_gesture(cancelled) + key_releases(h.keys, key_elsewhere) + button_releases(
        h.buttons,
        button_elsewhere,
    )
}

/// What one event changes, and the native events that it gives. A key or button
/// goes down natively when its first holder presses it, and up when its last
/// holder lets go.
pub open spec fn event_step(
    h: Held,
    event: ReliableEvent,
    key_elsewhere: spec_fn(u16) -> bool,
    button_elsewhere: spec_fn(MouseButton) -> bool,
    now: u64,
) -> (Held, Seq<NativeView>) {
    match event {
        ReliableEvent::Key { hid_usage, down, repeat } => {
            let native = seq![NativeView::Key { hid_usage, down, repeat }];
            if down {
                if !h.keys.contains(hid_usage) {
                    (
                        Held { keys: h.keys.push(hid_usage), ..h },
                        if key_elsewhere(hid_usage) {
                            Seq::empty()
                        } else {
                            native
                        },
                    )
                } else if repeat {
                    (h, native)
                } else {
                    (h, Seq::empty())
                }
            } else if h.keys.contains(hid_usage) {
                (
                    Held { keys: lifted(h.keys, hid_usage), ..h },
                    if key_elsewhere(hid_usage) {
                        Seq::empty()
                    } else {
                        native
                    },
                )
            } else {
                (h, Seq::empty())
            }
        },
        ReliableEvent::PointerButton { button, down, click_count } => {
            let native = seq![NativeView::PointerButton { button, down, click_count }];
            if down && !h.buttons.contains(button) {
                (
                    Held { buttons: h.buttons.push(button), ..h },
                    if button_elsewhere(button) {
                        Seq::empty()
                    } else {
                        native
                    },
                )
            } else if !down && h.buttons.contains(button) {
                (
                    Held { buttons: lifted(h.buttons, button), ..h },
                    if button_elsewhere(button) {
                        Seq::empty()
                    } else {
                        native
                    },
                )
            } else {
                (h, Seq::empty())
            }
        },
        ReliableEvent::TextCommit { text } => (h, seq![NativeView::TextCommit { text: text@ }]),
        ReliableEvent::ScrollGesture { phase } => (h, seq![NativeView::ScrollGesture { phase }]),
        ReliableEvent::SystemGesture { phases, active } => (
            if phases@.len() == 0 {
                h
            } else {
                Held {
                    gesture_updated: if active {
                        Some(now)
                    } else {
                        None
                    },
                    ..h
                }
            },
            phases@.map_values(|gesture: u64| NativeView::SystemGesture { gesture }),
        ),
        ReliableEvent::ReleaseAll { cancelled } => (
            Held { keys: Seq::empty(), buttons: Seq::empty(), gesture_updated: None },
            releases(h, cancelled, key_elsewhere, button_elsewhere),
        ),
    }
}

/// What the first `n` events change, and the native events that they give.
pub open spec fn event_steps(
    h: Held,
    events: Seq<ReliableEvent>,
    n: int,
    key_elsewhere: spec_fn(u16) -> bool,
    button_elsewhere: spec_fn(MouseButton) -> bool,
    now: u64,
) -> (Held, Seq<NativeView>)
    decreases n,
{
    if n <= 0 {
        (h, Seq::empty())
    } else {
        let before = event_steps(h, events, n - 1, key_elsewhere, button_elsewhere, now);
        let last = event_step(before.0, events[n - 1], key_elsewhere, button_elsewhere, now);
        (last.0, before.1 + last.1)
    }
}

pub open spec fn holds_key(key: u16) -> spec_fn(SessionView) -> nat {
    |s: SessionView|
        if s.keys.contains(key) {
            1
        } else {
            0
        }
}

pub open spec fn holds_button(button: MouseButton) -> spec_fn(SessionView) -> nat {
    |s: SessionView|
        if s.buttons.contains(button) {
            1
        } else {
            0
        }
}

/// True when one of the other sessions holds the key.
pub open spec fn other_keys(others: Seq<SessionView>) -> spec_fn(u16) -> bool {
    |key: u16| crate::keyed::sum_by(others, holds_key(key)) > 0
}

/// True when one of the other sessions holds the button.
pub open spec fn other_buttons(others: Seq<SessionView>) -> spec_fn(MouseButton) -> bool {
    |button: MouseButton| crate::keyed::sum_by(others, holds_button(button)) > 0
}

/// True when the lease is active.
pub open spec fn active(sessions: Seq<SessionView>, lease: InputLease) -> bool {
    exists|i: int| 0 <= i < sessions.len() && (#[trigger] sessions[i]).lease == lease
}

/// Where the session of a lease stands.
pub open spec fn place(sessions: Seq<SessionView>, lease: InputLease) -> int {
    choose|i: int| 0 <= i < sessions.len() && (#[trigger] sessions[i]).lease == lease
}

/// What holds of the sessions at all times: there is at most one, and it holds
/// no key or button twice.
pub open spec fn valid(sessions: Seq<SessionView>) -> bool {
    &&& sessions.len() <= 1
    &&& forall|i: int|
        0 <= i < sessions.len() ==> (#[trigger] sessions[i]).keys.no_duplicates()
            && sessions[i].buttons.no_duplicates()
}

/// The frames of the last second.
pub open spec fn recent_frames(frames: Seq<u64>, now: u64) -> Seq<u64>
    decreases frames.len(),
{
    if frames.len() > 0 && now - frames[0] >= 1_000 {
        recent_frames(frames.drop_first(), now)
    } else {
        frames
    }
}

/// True when a lease has been silent for too long.
pub open spec fn lapsed(s: SessionView, now: u64) -> bool {
    now - s.last_activity >= INPUT_LEASE_TIMEOUT_MS
}

/// Why a device may not use a lease, if it may not.
pub open spec fn lease_error(
    sessions: Seq<SessionView>,
    lease: InputLease,
    device_id: Seq<char>,
) -> Option<Seq<char>> {
    if !active(sessions, lease) {
        Some("input session is not active"@)
    } else if sessions[place(sessions, lease)].device_id != device_id {
        Some("input session identity mismatch"@)
    } else {
        None
    }
}

/// True when nothing stands against a reliable frame but the number of frames
/// in the last second.
pub open spec fn rate_limited(
    sessions: Seq<SessionView>,
    lease: InputLease,
    device_id: Seq<char>,
    sequence: u64,
    elapsed_us: u64,
    now: u64,
) -> bool {
    let s = sessions[place(sessions, lease)];
    &&& lease_error(sessions, lease, device_id) is None
    &&& !lapsed(s, now)
    &&& sequence == next_sequence(s)
    &&& elapsed_us >= s.reliable_elapsed_us
    &&& recent_frames(s.reliable_frames, now).len() >= MAX_RELIABLE_FRAMES_PER_SECOND
}

/// The sequence number that the next reliable frame must have.
pub open spec fn next_sequence(s: SessionView) -> int {
    if s.reliable_sequence == u64::MAX {
        s.reliable_sequence as int
    } else {
        s.reliable_sequence + 1
    }
}

/// Why a reliable frame is refused, if it is.
pub open spec fn reliable_error(
    sessions: Seq<SessionView>,
    lease: InputLease,
    device_id: Seq<char>,
    sequence: u64,
    elapsed_us: u64,
    now: u64,
) -> Option<Seq<char>> {
    let s = sessions[place(sessions, lease)];
    if lease_error(sessions, lease, device_id) is Some {
        lease_error(sessions, lease, device_id)
    } else if lapsed(s, now) {
        Some("input lease expired"@)
    } else if sequence != next_sequence(s) {
        Some("out-of-order reliable input frame"@)
    } else if elapsed_us < s.reliable_elapsed_us {
        Some("reliable input clock moved backwards"@)
    } else if recent_frames(s.reliable_frames, now).len() >= MAX_RELIABLE_FRAMES_PER_SECOND {
        Some("reliable input frame rate limit exceeded"@)
    } else {
        None
    }
}

/// True when the number fits a signed 64-bit integer.
pub open spec fn fits(x: int) -> bool {
    i64::MIN <= x <= i64::MAX
}

/// Why a motion is refused, if it is.
pub open spec fn motion_error(
    sessions: Seq<SessionView>,
    lease: InputLease,
    device_id: Seq<char>,
    totals: (i64, i64, i64, i64),
    now: u64,
) -> Option<Seq<char>> {
    let s = sessions[place(sessions, lease)];
    let px = totals.0 - s.pointer_total_x_256;
    let py = totals.1 - s.pointer_total_y_256;
    let sx = totals.2 - s.scroll_total_x_256;
    let sy = totals.3 - s.scroll_total_y_256;
    if lease_error(sessions, lease, device_id) is Some {
        lease_error(sessions, lease, device_id)
    } else if lapsed(s, now) {
        Some("input lease expired"@)
    } else if !fits(px) || !fits(py) {
        Some("pointer total overflow"@)
    } else if !fits(sx) || !fits(sy) {
        Some("scroll total overflow"@)
    } else if !(-2_097_152 <= px <= 2_097_152) || !(-2_097_152 <= py <= 2_097_152) || !(-524_288
        <= sx <= 524_288) || !(-524_288 <= sy <= 524_288) {
        Some("motion delta exceeds protocol limits"@)
    } else {
        None
    }
}

/// Refusals as mathematical values.
pub open spec fn refusal<T>(r: Result<T, String>) -> Option<Seq<char>> {
    match r {
        Ok(_) => None,
        Err(message) => Some(message@),
    }
}

/// The session label shown to people: the two numbers of the lease in
/// hexadecimal.
pub fn lease_label(lease: InputLease) -> (r: String)
    ensures
        r@ == crate::text::hex_digits(lease.session_id as nat, 16) + ":"@
            + crate::text::hex_digits(lease.epoch as nat, 8),
{
    let mut out = hex_text(lease.session_id as u128, 16);
    out.append(":");
    let tail = hex_text(lease.epoch as u128, 8);
    out.append(tail.as_str());
    out
}

/// Drawn numbers as a lease: the session id keeps 63 bits, and neither number
/// is zero.
pub open spec fn lease_from(session_draw: u64, epoch_draw: u32) -> InputLease {
    let masked = session_draw & 0x7fff_ffff_ffff_ffff;
    InputLease {
        session_id: if masked == 0 {
            1
        } else {
            masked
        },
        epoch: if epoch_draw == 0 {
            1
        } else {
            epoch_draw
        },
    }
}

/// A session that has just begun.
pub open spec fn new_session(
    lease: InputLease,
    device_id: Seq<char>,
    workspace_routed: bool,
    now: u64,
) -> SessionView {
    SessionView {
        lease,
        device_id,
        last_activity: now,
        reliable_sequence: 0,
        reliable_elapsed_us: 0,
        reliable_frames: Seq::empty(),
        pointer_total_x_256: 0,
        pointer_total_y_256: 0,
        scroll_total_x_256: 0,
        scroll_total_y_256: 0,
        keys: Seq::empty(),
        buttons: Seq::empty(),
        gesture_updated: None,
        workspace_routed,
    }
}

/// The refusal of a second session.
pub open spec fn taken_message(s: SessionView) -> Seq<char> {
    "input is already controlled by "@ + s.device_id + " at epoch "@ + crate::text::decimal_digits(
        s.lease.epoch as nat,
    )
}

/// Why nobody can begin a session, if nobody can: one is active.
pub open spec fn acquire_error(sessions: Seq<SessionView>) -> Option<Seq<char>> {
    if sessions.len() > 0 {
        Some(taken_message(sessions[0]))
    } else {
        None
    }
}

/// What a table counts for a number; one without a row counts zero.
pub open spec fn count_of(counts: Map<u16, usize>, code: u16) -> nat {
    if counts.dom().contains(code) {
        counts[code] as nat
    } else {
        0
    }
}

/// No row counts zero.
pub open spec fn rows_positive(counts: Map<u16, usize>) -> bool {
    forall|k: u16| #[trigger] counts.dom().contains(k) ==> counts[k] > 0
}

fn table_count(counts: &HashMap<u16, usize>, code: u16) -> (r: usize)
    ensures
        r == count_of(counts@, code),
{
    broadcast use vstd::std_specs::hash::group_hash_axioms;

    match counts.get(&code) {
        Some(count) => *count,
        None => 0,
    }
}

/// Counts one more for `value`; tells whether it is the first.
fn increment_count(counts: &mut HashMap<u16, usize>, value: u16) -> (first: bool)
    requires
        count_of(old(counts)@, value) < usize::MAX,
    ensures
        count_of(final(counts)@, value) == count_of(old(counts)@, value) + 1,
        forall|v: u16| v != value ==> count_of(final(counts)@, v) == count_of(old(counts)@, v),
        first == (count_of(old(counts)@, value) == 0),
        rows_positive(old(counts)@) ==> rows_positive(final(counts)@),
{
    broadcast use vstd::std_specs::hash::group_hash_axioms;

    let current: usize = match counts.get(&value) {
        Some(count) => *count,
        None => 0,
    };
    counts.insert(value, current + 1);
    current == 0
}

/// Counts one less for `value`, which leaves the table at zero; tells whether
/// it was the last.
pub fn decrement_count(counts: &mut HashMap<u16, usize>, value: u16) -> (last: bool)
    ensures
        count_of(final(counts)@, value) == if count_of(old(counts)@, value) == 0 {
            0
        } else {
            count_of(old(counts)@, value) - 1
        },
        forall|v: u16| v != value ==> count_of(final(counts)@, v) == count_of(old(counts)@, v),
        last == (old(counts)@.dom().contains(value) && count_of(old(counts)@, value) <= 1),
        rows_positive(old(counts)@) ==> rows_positive(final(counts)@),
{
    broadcast use vstd::std_specs::hash::group_hash_axioms;

    let current: usize = match counts.get(&value) {
        Some(count) => *count,
        None => {
            return false;
        },
    };
    if current <= 1 {
        counts.remove(&value);
        true
    } else {
        counts.insert(value, current - 1);
        false
    }
}

struct ActiveInputSession {
    lease: InputLease,
    device_id: String,
    last_activity: u64,
    reliable_sequence: u64,
    reliable_elapsed_us: u64,
    reliable_frames: Vec<u64>,
    pointer_total_x_256: i64,
    pointer_total_y_256: i64,
    scroll_total_x_256: i64,
    scroll_total_y_256: i64,
    pressed_keys: Vec<u16>,
    pressed_buttons: Vec<MouseButton>,
    gesture_updated: Option<u64>,
    workspace_routed: bool,
}

impl ActiveInputSession {
    spec fn view(&self) -> SessionView {
        SessionView {
            lease: self.lease,
            device_id: self.device_id@,
            last_activity: self.last_activity,
            reliable_sequence: self.reliable_sequence,
            reliable_elapsed_us: self.reliable_elapsed_us,
            reliable_frames: self.reliable_frames@,
            pointer_total_x_256: self.pointer_total_x_256,
            pointer_total_y_256: self.pointer_total_y_256,
            scroll_total_x_256: self.scroll_total_x_256,
            scroll_total_y_256: self.scroll_total_y_256,
            keys: self.pressed_keys@,
            buttons: self.pressed_buttons@,
            gesture_updated: self.gesture_updated,
            workspace_routed: self.workspace_routed,
        }
    }

    spec fn wf(&self) -> bool {
        self.pressed_keys@.no_duplicates() && self.pressed_buttons@.no_duplicates()
    }
}

/// True when the tables count the sessions in `others` and, besides, one that
/// holds `keys` and `buttons`.
spec fn counted(
    key_counts: Map<u16, usize>,
    button_counts: Map<u16, usize>,
    others: Seq<SessionView>,
    keys: Seq<u16>,
    buttons: Seq<MouseButton>,
) -> bool {
    &&& forall|k: u16| #[trigger]
        count_of(key_counts, k) == crate::keyed::sum_by(others, holds_key(k)) + if keys.contains(
            k,
        ) {
            1nat
        } else {
            0
        }
    &&& forall|b: MouseButton| #[trigger]
        count_of(button_counts, button_code(b)) == crate::keyed::sum_by(others, holds_button(b))
            + if buttons.contains(b) {
            1nat
        } else {
            0
        }
    &&& rows_positive(key_counts)
    &&& rows_positive(button_counts)
}

fn find_key(keys: &Vec<u16>, key: u16) -> (r: Option<usize>)
    ensures
        match r {
            Some(i) => i < keys@.len() && keys@[i as int] == key,
            None => !keys@.contains(key),
        },
{
    let mut i: usize = 0;
    while i < keys.len()
        invariant
            i <= keys@.len(),
            forall|j: int| 0 <= j < i ==> #[trigger] keys@[j] != key,
        decreases keys@.len() - i,
    {
        if keys[i] == key {
            return Some(i);
        }
        i += 1;
    }
    None
}

fn find_button(buttons: &Vec<MouseButton>, button: MouseButton) -> (r: Option<usize>)
    ensures
        match r {
            Some(i) => i < buttons@.len() && buttons@[i as int] == button,
            None => !buttons@.contains(button),
        },
{
    let mut i: usize = 0;
    while i < buttons.len()
        invariant
            i <= buttons@.len(),
            forall|j: int| 0 <= j < i ==> #[trigger] buttons@[j] != button,
        decreases buttons@.len() - i,
    {
        if buttons[i] == button {
            return Some(i);
        }
        i += 1;
    }
    None
}

proof fn lemma_pushed<T>(s: Seq<T>, x: T)
    requires
        s.no_duplicates(),
        !s.contains(x),
    ensures
        s.push(x).no_duplicates(),
        forall|y: T| #[trigger] s.push(x).contains(y) == (y == x || s.contains(y)),
{
    assert forall|y: T| #[trigger] s.push(x).contains(y) == (y == x || s.contains(y)) by {
        if y == x {
            assert(s.push(x)[s.len() as int] == y);
        }
        if s.contains(y) {
            let m = choose|m: int| 0 <= m < s.len() && s[m] == y;
            assert(s.push(x)[m] == y);
        }
        if s.push(x).contains(y) {
            let m = choose|m: int| 0 <= m < s.push(x).len() && s.push(x)[m] == y;
            if m < s.len() {
                assert(s[m] == y);
            }
        }
    }
    assert forall|i: int, j: int|
        0 <= i < s.push(x).len() && 0 <= j < s.push(x).len() && i != j implies s.push(x)[i] != s.push(
        x,
    )[j] by {
        if i == s.len() {
            assert(s.contains(s[j]));
        } else if j == s.len() {
            assert(s.contains(s[i]));
        }
    }
}

proof fn lemma_lifted<T>(s: Seq<T>, x: T, i: int)
    requires
        s.no_duplicates(),
        0 <= i < s.len(),
        s[i] == x,
    ensures
        lifted(s, x) == s.remove(i),
        lifted(s, x).no_duplicates(),
        forall|y: T| #[trigger] lifted(s, x).contains(y) == (y != x && s.contains(y)),
{
    assert(s.contains(x));
    let k = s.index_of(x);
    assert(s[k] == x);
    assert(k == i);
    let after = s.remove(i);
    assert forall|y: T| #[trigger] after.contains(y) == (y != x && s.contains(y)) by {
        if y != x && s.contains(y) {
            let m = choose|m: int| 0 <= m < s.len() && s[m] == y;
            if m < i {
                assert(after[m] == y);
            } else {
                assert(after[m - 1] == y);
            }
        }
        if after.contains(y) {
            let m = choose|m: int| 0 <= m < after.len() && after[m] == y;
            if m < i {
                assert(s[m] == y);
            } else {
                assert(s[m + 1] == y);
            }
        }
    }
}

proof fn lemma_counted_keys(
    before: Map<u16, usize>,
    after: Map<u16, usize>,
    button_counts: Map<u16, usize>,
    others: Seq<SessionView>,
    keys: Seq<u16>,
    next: Seq<u16>,
    buttons: Seq<MouseButton>,
    key: u16,
)
    requires
        counted(before, button_counts, others, keys, buttons),
        rows_positive(after),
        forall|k: u16| k != key ==> count_of(after, k) == count_of(before, k),
        forall|k: u16| k != key ==> #[trigger] next.contains(k) == keys.contains(k),
        next.contains(key) != keys.contains(key),
        count_of(after, key) == count_of(before, key) + if next.contains(key) {
            1int
        } else {
            -1
        },
    ensures
        counted(after, button_counts, others, next, buttons),
{
    assert forall|k: u16| #[trigger]
        count_of(after, k) == crate::keyed::sum_by(others, holds_key(k)) + if next.contains(k) {
            1nat
        } else {
            0
        } by {
        assert(count_of(before, k) == crate::keyed::sum_by(others, holds_key(k)) + if keys.contains(
            k,
        ) {
            1nat
        } else {
            0
        });
    }
}

proof fn lemma_counted_buttons(
    before: Map<u16, usize>,
    after: Map<u16, usize>,
    key_counts: Map<u16, usize>,
    others: Seq<SessionView>,
    keys: Seq<u16>,
    buttons: Seq<MouseButton>,
    next: Seq<MouseButton>,
    button: MouseButton,
)
    requires
        counted(key_counts, before, others, keys, buttons),
        rows_positive(after),
        forall|k: u16| k != button_code(button) ==> count_of(after, k) == count_of(before, k),
        forall|b: MouseButton| b != button ==> #[trigger] next.contains(b) == buttons.contains(b),
        next.contains(button) != buttons.contains(button),
        count_of(after, button_code(button)) == count_of(before, button_code(button))
            + if next.contains(button) {
            1int
        } else {
            -1
        },
    ensures
        counted(key_counts, after, others, keys, next),
{
    assert forall|b: MouseButton| #[trigger]
        count_of(after, button_code(b)) == crate::keyed::sum_by(others, holds_button(b))
            + if next.contains(b) {
            1nat
        } else {
            0
        } by {
        assert(count_of(before, button_code(b)) == crate::keyed::sum_by(others, holds_button(b))
            + if buttons.contains(b) {
            1nat
        } else {
            0
        });
    }
}

/// Whether a key is down natively after the events, when `down` tells whether
/// it was before.
pub open spec fn key_down_after(events: Seq<NativeView>, key: u16, down: bool) -> bool
    decreases events.len(),
{
    if events.len() == 0 {
        down
    } else {
        match events.last() {
            NativeView::Key { hid_usage, down: pressed, repeat } if hid_usage == key => pressed,
            _ => key_down_after(events.drop_last(), key, down),
        }
    }
}

/// Whether a button is down natively after the events, when `down` tells
/// whether it was before.
pub open spec fn button_down_after(events: Seq<NativeView>, button: MouseButton, down: bool) -> bool
    decreases events.len(),
{
    if events.len() == 0 {
        down
    } else {
        match events.last() {
            NativeView::PointerButton { button: moved, down: pressed, click_count } if moved
                == button => pressed,
            _ => button_down_after(events.drop_last(), button, down),
        }
    }
}

proof fn lemma_down_concat(
    a: Seq<NativeView>,
    b: Seq<NativeView>,
    key: u16,
    button: MouseButton,
    down: bool,
)
    ensures
        key_down_after(a + b, key, down) == key_down_after(b, key, key_down_after(a, key, down)),
        button_down_after(a + b, button, down) == button_down_after(
            b,
            button,
            button_down_after(a, button, down),
        ),
    decreases b.len(),
{
    if b.len() == 0 {
        assert(a + b =~= a);
    } else {
        lemma_down_concat(a, b.drop_last(), key, button, down);
        assert((a + b).drop_last() =~= a + b.drop_last());
        assert((a + b).last() == b.last());
    }
}

proof fn lemma_key_releases(
    keys: Seq<u16>,
    elsewhere: spec_fn(u16) -> bool,
    key: u16,
    button: MouseButton,
    down: bool,
)
    ensures
        key_down_after(key_releases(keys, elsewhere), key, down) == if keys.contains(key)
            && !elsewhere(key) {
            false
        } else {
            down
        },
        button_down_after(key_releases(keys, elsewhere), button, down) == down,
    decreases keys.len(),
{
    if keys.len() > 0 {
        let rest = keys.drop_last();
        lemma_key_releases(rest, elsewhere, key, button, down);
        assert(keys =~= rest.push(keys.last()));
        assert(keys.contains(key) == (key == keys.last() || rest.contains(key))) by {
            if rest.contains(key) {
                let m = choose|m: int| 0 <= m < rest.len() && rest[m] == key;
                assert(keys[m] == key);
            }
            if keys.contains(key) && key != keys.last() {
                let m = choose|m: int| 0 <= m < keys.len() && keys[m] == key;
                assert(rest[m] == key);
            }
        }
        let so_far = key_releases(rest, elsewhere);
        let up = NativeView::Key { hid_usage: keys.last(), down: false, repeat: false };
        assert(so_far.push(up).drop_last() =~= so_far);
    }
}

proof fn lemma_button_releases(
    buttons: Seq<MouseButton>,
    elsewhere: spec_fn(MouseButton) -> bool,
    key: u16,
    button: MouseButton,
    down: bool,
)
    ensures
        button_down_after(button_releases(buttons, elsewhere), button, down)
            == if buttons.contains(button) && !elsewhere(button) {
            false
        } else {
            down
        },
        key_down_after(button_releases(buttons, elsewhere), key, down) == down,
    decreases buttons.len(),
{
    if buttons.len() > 0 {
        let rest = buttons.drop_last();
        lemma_button_releases(rest, elsewhere, key, button, down);
        assert(buttons =~= rest.push(buttons.last()));
        assert(buttons.contains(button) == (button == buttons.last() || rest.contains(button))) by {
            if rest.contains(button) {
                let m = choose|m: int| 0 <= m < rest.len() && rest[m] == button;
                assert(buttons[m] == button);
            }
            if buttons.contains(button) && button != buttons.last() {
                let m = choose|m: int| 0 <= m < buttons.len() && buttons[m] == button;
                assert(rest[m] == button);
            }
        }
        let so_far = button_releases(rest, elsewhere);
        let up = NativeView::PointerButton { button: buttons.last(), down: false, click_count: 1 };
        assert(so_far.push(up).drop_last() =~= so_far);
    }
}

proof fn lemma_gestures_touch_nothing(
    gestures: Seq<NativeView>,
    key: u16,
    button: MouseButton,
    down: bool,
)
    requires
        forall|i: int| 0 <= i < gestures.len() ==> #[trigger] gestures[i] is SystemGesture,
    ensures
        key_down_after(gestures, key, down) == down,
        button_down_after(gestures, button, down) == down,
    decreases gestures.len(),
{
    if gestures.len() > 0 {
        assert(gestures[gestures.len() - 1] is SystemGesture);
        assert forall|i: int| 0 <= i < gestures.drop_last().len() implies #[trigger] gestures.drop_last()[i] is SystemGesture by {
            assert(gestures.drop_last()[i] == gestures[i]);
        }
        lemma_gestures_touch_nothing(gestures.drop_last(), key, button, down);
    }
}

/// Letting go of everything leaves natively down exactly the keys and buttons
/// that another session holds.
pub proof fn lemma_release_lets_go(
    h: Held,
    cancelled: Option<u64>,
    ke: spec_fn(u16) -> bool,
    be: spec_fn(MouseButton) -> bool,
    key: u16,
    button: MouseButton,
)
    ensures
        key_down_after(releases(h, cancelled, ke, be), key, h.keys.contains(key) || ke(key))
            == ke(key),
        button_down_after(
            releases(h, cancelled, ke, be),
            button,
            h.buttons.contains(button) || be(button),
        ) == be(button),
{
    let gestures = cancelled_gesture(cancelled);
    let keys = key_releases(h.keys, ke);
    let buttons = button_releases(h.buttons, be);
    let kd = h.keys.contains(key) || ke(key);
    let bd = h.buttons.contains(button) || be(button);
    lemma_gestures_touch_nothing(gestures, key, button, kd);
    lemma_gestures_touch_nothing(gestures, key, button, bd);
    lemma_key_releases(h.keys, ke, key, button, kd);
    lemma_key_releases(h.keys, ke, key, button, bd);
    lemma_down_concat(gestures, keys, key, button, kd);
    lemma_down_concat(gestures, keys, key, button, bd);
    lemma_down_concat(gestures + keys, buttons, key, button, kd);
    lemma_down_concat(gestures + keys, buttons, key, button, bd);
    lemma_button_releases(h.buttons, be, key, button, ke(key));
    lemma_button_releases(h.buttons, be, key, button, bd);
}

proof fn lemma_single(event: NativeView, key: u16, button: MouseButton, down: bool)
    ensures
        key_down_after(seq![event], key, down) == match event {
            NativeView::Key { hid_usage, down: pressed, repeat } if hid_usage == key => pressed,
            _ => down,
        },
        button_down_after(seq![event], button, down) == match event {
            NativeView::PointerButton { button: moved, down: pressed, click_count } if moved
                == button => pressed,
            _ => down,
        },
{
    reveal_with_fuel(key_down_after, 2);
    reveal_with_fuel(button_down_after, 2);
    assert(seq![event].drop_last() =~= Seq::<NativeView>::empty());
    assert(seq![event].last() == event);
}

proof fn lemma_step_mirrors(
    h: Held,
    event: ReliableEvent,
    ke: spec_fn(u16) -> bool,
    be: spec_fn(MouseButton) -> bool,
    now: u64,
    key: u16,
    button: MouseButton,
)
    requires
        h.keys.no_duplicates(),
        h.buttons.no_duplicates(),
    ensures
        event_step(h, event, ke, be, now).0.keys.no_duplicates(),
        event_step(h, event, ke, be, now).0.buttons.no_duplicates(),
        key_down_after(
            event_step(h, event, ke, be, now).1,
            key,
            h.keys.contains(key) || ke(key),
        ) == (event_step(h, event, ke, be, now).0.keys.contains(key) || ke(key)),
        button_down_after(
            event_step(h, event, ke, be, now).1,
            button,
            h.buttons.contains(button) || be(button),
        ) == (event_step(h, event, ke, be, now).0.buttons.contains(button) || be(button)),
{
    let kd = h.keys.contains(key) || ke(key);
    let bd = h.buttons.contains(button) || be(button);
    match event {
        ReliableEvent::Key { hid_usage, down, repeat } => {
            lemma_single(NativeView::Key { hid_usage, down, repeat }, key, button, kd);
            lemma_single(NativeView::Key { hid_usage, down, repeat }, key, button, bd);
            if h.keys.contains(hid_usage) {
                lemma_lifted(h.keys, hid_usage, h.keys.index_of(hid_usage));
            } else {
                lemma_pushed(h.keys, hid_usage);
            }
        },
        ReliableEvent::PointerButton { button: b, down, click_count } => {
            let native = NativeView::PointerButton { button: b, down, click_count };
            lemma_single(native, key, button, kd);
            lemma_single(native, key, button, bd);
            if h.buttons.contains(b) {
                lemma_lifted(h.buttons, b, h.buttons.index_of(b));
            } else {
                lemma_pushed(h.buttons, b);
            }
        },
        ReliableEvent::TextCommit { text } => {
            lemma_single(NativeView::TextCommit { text: text@ }, key, button, kd);
            lemma_single(NativeView::TextCommit { text: text@ }, key, button, bd);
        },
        ReliableEvent::ScrollGesture { phase } => {
            lemma_single(NativeView::ScrollGesture { phase }, key, button, kd);
            lemma_single(NativeView::ScrollGesture { phase }, key, button, bd);
        },
        ReliableEvent::SystemGesture { phases, active } => {
            let all = phases@.map_values(|gesture: u64| NativeView::SystemGesture { gesture });
            lemma_gestures_touch_nothing(all, key, button, kd);
            lemma_gestures_touch_nothing(all, key, button, bd);
        },
        ReliableEvent::ReleaseAll { cancelled } => {
            lemma_release_lets_go(h, cancelled, ke, be, key, button);
            assert(!Seq::<u16>::empty().contains(key));
            assert(!Seq::<MouseButton>::empty().contains(button));
        },
    }
}

/// The native side mirrors the sessions: after any events, a key or a button is
/// down natively exactly when a session holds it.
pub proof fn lemma_native_state_mirrors_sessions(
    h: Held,
    events: Seq<ReliableEvent>,
    n: int,
    ke: spec_fn(u16) -> bool,
    be: spec_fn(MouseButton) -> bool,
    now: u64,
    key: u16,
    button: MouseButton,
)
    requires
        h.keys.no_duplicates(),
        h.buttons.no_duplicates(),
    ensures
        event_steps(h, events, n, ke, be, now).0.keys.no_duplicates(),
        event_steps(h, events, n, ke, be, now).0.buttons.no_duplicates(),
        key_down_after(
            event_steps(h, events, n, ke, be, now).1,
            key,
            h.keys.contains(key) || ke(key),
        ) == (event_steps(h, events, n, ke, be, now).0.keys.contains(key) || ke(key)),
        button_down_after(
            event_steps(h, events, n, ke, be, now).1,
            button,
            h.buttons.contains(button) || be(button),
        ) == (event_steps(h, events, n, ke, be, now).0.buttons.contains(button) || be(button)),
    decreases n,
{
    if n > 0 {
        lemma_native_state_mirrors_sessions(h, events, n - 1, ke, be, now, key, button);
        let before = event_steps(h, events, n - 1, ke, be, now);
        lemma_step_mirrors(before.0, events[n - 1], ke, be, now, key, button);
        let last = event_step(before.0, events[n - 1], ke, be, now);
        lemma_down_concat(before.1, last.1, key, button, h.keys.contains(key) || ke(key));
        lemma_down_concat(before.1, last.1, key, button, h.buttons.contains(button) || be(button));
    }
}

/// The remote-input session of the host.
pub struct InputSessionManager {
    sessions: Vec<ActiveInputSession>,
    pressed_key_counts: HashMap<u16, usize>,
    pressed_button_counts: HashMap<u16, usize>,
}

impl Default for InputSessionManager {
    fn default() -> (r: InputSessionManager)
        ensures
            r.wf(),
            r@ == Seq::<SessionView>::empty(),
    {
        InputSessionManager::new()
    }
}

impl InputSessionManager {
    /// The sessions as mathematical values.
    pub closed spec fn view(&self) -> Seq<SessionView> {
        self.sessions@.map_values(|s: ActiveInputSession| s@)
    }

    /// What holds of every manager that was made with
    /// [`InputSessionManager::new`].
    pub closed spec fn wf(&self) -> bool {
        &&& valid(self@)
        &&& counted(
            self.pressed_key_counts@,
            self.pressed_button_counts@,
            self@,
            Seq::empty(),
            Seq::empty(),
        )
    }

    /// There is at most one session, and it holds nothing twice.
    pub proof fn lemma_valid(&self)
        requires
            self.wf(),
        ensures
            valid(self@),
    {
    }

    pub fn new() -> (r: InputSessionManager)
        ensures
            r.wf(),
            r@ == Seq::<SessionView>::empty(),
    {
        broadcast use vstd::std_specs::hash::group_hash_axioms;

        let r = InputSessionManager {
            sessions: Vec::new(),
            pressed_key_counts: HashMap::new(),
            pressed_button_counts: HashMap::new(),
        };
        assert(r@ =~= Seq::<SessionView>::empty());
        r
    }

    fn position(&self, lease: InputLease) -> (r: Option<usize>)
        requires
            valid(self@),
        ensures
            match r {
                Some(i) => i < self.sessions@.len() && active(self@, lease) && i == place(
                    self@,
                    lease,
                ),
                None => !active(self@, lease),
            },
    {
        let mut i: usize = 0;
        while i < self.sessions.len()
            invariant
                valid(self@),
                i <= self.sessions@.len(),
                forall|j: int| 0 <= j < i ==> (#[trigger] self@[j]).lease != lease,
            decreases self.sessions@.len() - i,
        {
            assert(self@[i as int] == self.sessions@[i as int]@);
            if self.sessions[i].lease == lease {
                return Some(i);
            }
            i += 1;
        }
        None
    }

    /// Begins a session under the lease that two drawn numbers make, unless one
    /// is active.
    pub fn acquire_lease(
        &mut self,
        device_id: &str,
        workspace_routed: bool,
        session_draw: u64,
        epoch_draw: u32,
        now: u64,
    ) -> (r: Result<InputLease, String>)
        requires
            old(self).wf(),
        ensures
            final(self).wf(),
            refusal(r) == acquire_error(old(self)@),
            if old(self)@.len() > 0 {
                final(self)@ == old(self)@ && r is Err && r->Err_0@ == taken_message(old(self)@[0])
            } else {
                r == Ok::<InputLease, String>(lease_from(session_draw, epoch_draw)) && final(self)@
                    == seq![
                    new_session(
                        lease_from(session_draw, epoch_draw),
                        device_id@,
                        workspace_routed,
                        now,
                    ),
                ]
            },
    {
        if self.sessions.len() > 0 {
            assert(self@[0] == self.sessions@[0]@);
            let mut message = "input is already controlled by ".to_owned();
            message.append(self.sessions[0].device_id.as_str());
            message.append(" at epoch ");
            let epoch = decimal_text(self.sessions[0].lease.epoch as u64);
            message.append(epoch.as_str());
            return Err(message);
        }
        let masked: u64 = session_draw & 0x7fff_ffff_ffff_ffff;
        let lease = InputLease {
            session_id: if masked == 0 {
                1
            } else {
                masked
            },
            epoch: if epoch_draw == 0 {
                1
            } else {
                epoch_draw
            },
        };
        self.sessions.push(
            ActiveInputSession {
                lease,
                device_id: device_id.to_owned(),
                last_activity: now,
                reliable_sequence: 0,
                reliable_elapsed_us: 0,
                reliable_frames: Vec::new(),
                pointer_total_x_256: 0,
                pointer_total_y_256: 0,
                scroll_total_x_256: 0,
                scroll_total_y_256: 0,
                pressed_keys: Vec::new(),
                pressed_buttons: Vec::new(),
                gesture_updated: None,
                workspace_routed,
            },
        );
        proof {
            let s = new_session(lease, device_id@, workspace_routed, now);
            assert(old(self)@ =~= Seq::<SessionView>::empty());
            assert(self.sessions@[0]@ =~= s);
            assert(self@ =~= Seq::<SessionView>::empty().push(s));
            assert forall|k: u16| #[trigger]
                count_of(self.pressed_key_counts@, k) == crate::keyed::sum_by(
                    self@,
                    holds_key(k),
                ) by {
                lemma_sum_push(Seq::<SessionView>::empty(), s, holds_key(k));
                assert(!Seq::<u16>::empty().contains(k));
            }
            assert forall|b: MouseButton| #[trigger]
                count_of(self.pressed_button_counts@, button_code(b)) == crate::keyed::sum_by(
                    self@,
                    holds_button(b),
                ) by {
                lemma_sum_push(Seq::<SessionView>::empty(), s, holds_button(b));
                assert(!Seq::<MouseButton>::empty().contains(b));
            }
            assert(seq![s] =~= Seq::<SessionView>::empty().push(s));
        }
        Ok(lease)
    }

    /// Begins a session under a random lease, unless one is active.
    pub fn acquire_with_routing(
        &mut self,
        device_id: &str,
        _device_name: &str,
        workspace_routed: bool,
        now: u64,
    ) -> (r: Result<InputLease, String>)
        requires
            old(self).wf(),
        ensures
            final(self).wf(),
            refusal(r) == acquire_error(old(self)@),
            match r {
                Err(message) => old(self)@.len() > 0 && final(self)@ == old(self)@ && message@
                    == taken_message(old(self)@[0]),
                Ok(lease) => {
                    &&& old(self)@.len() == 0
                    &&& 0 < lease.session_id <= i64::MAX
                    &&& lease.epoch != 0
                    &&& final(self)@ == seq![new_session(lease, device_id@, workspace_routed, now)]
                },
            },
    {
        let session_draw: u64 = random_u64();
        assert(session_draw & 0x7fff_ffff_ffff_ffff <= 0x7fff_ffff_ffff_ffff) by (bit_vector);
        self.acquire_lease(device_id, workspace_routed, session_draw, random_u32(), now)
    }

    /// Begins a session whose events go to the native input system.
    pub fn acquire(&mut self, device_id: &str, device_name: &str, now: u64) -> (r: Result<
        InputLease,
        String,
    >)
        requires
            old(self).wf(),
        ensures
            final(self).wf(),
            refusal(r) == acquire_error(old(self)@),
            match r {
                Err(message) => old(self)@.len() > 0 && final(self)@ == old(self)@ && message@
                    == taken_message(old(self)@[0]),
                Ok(lease) => {
                    &&& old(self)@.len() == 0
                    &&& 0 < lease.session_id <= i64::MAX
                    &&& lease.epoch != 0
                    &&& final(self)@ == seq![new_session(lease, device_id@, false, now)]
                },
            },
    {
        self.acquire_with_routing(device_id, device_name, false, now)
    }

    /// Tells whether the lease is the device's and its events go to the
    /// workspace.
    pub fn is_workspace_routed(&self, lease: InputLease, device_id: &str) -> (r: bool)
        requires
            self.wf(),
        ensures
            r == (lease_error(self@, lease, device_id@) is None && self@[place(
                self@,
                lease,
            )].workspace_routed),
    {
        match self.position(lease) {
            None => false,
            Some(i) => {
                assert(self@[i as int] == self.sessions@[i as int]@);
                str_eq(self.sessions[i].device_id.as_str(), device_id)
                    && self.sessions[i].workspace_routed
            },
        }
    }

    /// Tells whether the lease is the device's and has been silent for too
    /// long.
    pub fn is_expired(&self, lease: InputLease, device_id: &str, now: u64) -> (r: bool)
        requires
            self.wf(),
        ensures
            r == (lease_error(self@, lease, device_id@) is None && lapsed(
                self@[place(self@, lease)],
                now,
            )),
    {
        match self.position(lease) {
            None => false,
            Some(i) => {
                assert(self@[i as int] == self.sessions@[i as int]@);
                str_eq(self.sessions[i].device_id.as_str(), device_id) && now.saturating_sub(
                    self.sessions[i].last_activity,
                ) >= INPUT_LEASE_TIMEOUT_MS
            },
        }
    }

    fn owned_position(&self, lease: InputLease, device_id: &str) -> (r: Result<usize, String>)
        requires
            self.wf(),
        ensures
            refusal(r) == lease_error(self@, lease, device_id@),
            r matches Ok(i) ==> i < self.sessions@.len() && i == place(self@, lease),
    {
        match self.position(lease) {
            None => Err("input session is not active".to_owned()),
            Some(i) => {
                assert(self@[i as int] == self.sessions@[i as int]@);
                if str_eq(self.sessions[i].device_id.as_str(), device_id) {
                    Ok(i)
                } else {
                    Err("input session identity mismatch".to_owned())
                }
            },
        }
    }

    /// A change of a session that leaves what it holds down alone keeps the
    /// tables right.
    proof fn lemma_session_changed(&self, before: Self, i: int)
        requires
            before.wf(),
            0 <= i < before@.len(),
            self@ == before@.update(i, self@[i]),
            self@[i].keys == before@[i].keys,
            self@[i].buttons == before@[i].buttons,
            self.pressed_key_counts == before.pressed_key_counts,
            self.pressed_button_counts == before.pressed_button_counts,
        ensures
            self.wf(),
    {
        let s = self@[i];
        assert forall|k: u16| crate::keyed::sum_by(self@, #[trigger] holds_key(k)) == crate::keyed::sum_by(
            before@,
            holds_key(k),
        ) by {
            crate::keyed::lemma_sum_update(before@, i, s, holds_key(k));
        }
        assert forall|b: MouseButton| crate::keyed::sum_by(self@, #[trigger] holds_button(b))
            == crate::keyed::sum_by(before@, holds_button(b)) by {
            crate::keyed::lemma_sum_update(before@, i, s, holds_button(b));
        }
        assert forall|j: int| 0 <= j < self@.len() implies (#[trigger] self@[j]).keys.no_duplicates()
            && self@[j].buttons.no_duplicates() by {
            assert(before@[j].keys.no_duplicates());
        }
    }

    /// Takes in a reliable frame: frames come in sequence, their clock does not
    /// run backwards, and not too many come in one second.
    pub fn accept_reliable(
        &mut self,
        lease: InputLease,
        device_id: &str,
        sequence: u64,
        elapsed_us: u64,
        _latest_motion_sequence: u64,
        now: u64,
    ) -> (r: Result<InputFeedbackSnapshot, String>)
        requires
            old(self).wf(),
        ensures
            final(self).wf(),
            refusal(r) == reliable_error(
                old(self)@,
                lease,
                device_id@,
                sequence,
                elapsed_us,
                now,
            ),
            r matches Ok(feedback) ==> feedback == (InputFeedbackSnapshot {
                reliable_sequence: sequence,
                ..no_feedback()
            }) && final(self)@ == ({
                let i = place(old(self)@, lease);
                let s = old(self)@[i];
                old(self)@.update(
                    i,
                    SessionView {
                        reliable_frames: recent_frames(s.reliable_frames, now).push(now),
                        reliable_sequence: sequence,
                        reliable_elapsed_us: elapsed_us,
                        last_activity: now,
                        ..s
                    },
                )
            }),
            r is Err ==> final(self)@ == ({
                let i = place(old(self)@, lease);
                let s = old(self)@[i];
                if rate_limited(old(self)@, lease, device_id@, sequence, elapsed_us, now) {
                    old(self)@.update(
                        i,
                        SessionView {
                            reliable_frames: recent_frames(s.reliable_frames, now),
                            ..s
                        },
                    )
                } else {
                    old(self)@
                }
            }),
    {
        let i: usize = match self.owned_position(lease, device_id) {
            Err(message) => {
                return Err(message);
            },
            Ok(i) => i,
        };
        let ghost s = self@[i as int];
        proof {
            assert(s == self.sessions@[i as int]@);
        }
        if now.saturating_sub(self.sessions[i].last_activity) >= INPUT_LEASE_TIMEOUT_MS {
            return Err("input lease expired".to_owned());
        }
        if sequence != self.sessions[i].reliable_sequence.saturating_add(1) {
            return Err("out-of-order reliable input frame".to_owned());
        }
        if elapsed_us < self.sessions[i].reliable_elapsed_us {
            return Err("reliable input clock moved backwards".to_owned());
        }
        let ghost before = *self;
        while self.sessions[i].reliable_frames.len() > 0 && now.saturating_sub(
            self.sessions[i].reliable_frames[0],
        ) >= 1_000
            invariant
                i < self.sessions@.len(),
                i < before@.len(),
                s == before@[i as int],
                self.pressed_key_counts == before.pressed_key_counts,
                self.pressed_button_counts == before.pressed_button_counts,
                self@ == before@.update(i as int, self@[i as int]),
                self@[i as int] == self.sessions@[i as int]@,
                self@[i as int] == (SessionView {
                    reliable_frames: self@[i as int].reliable_frames,
                    ..s
                }),
                recent_frames(s.reliable_frames, now) == recent_frames(
                    self@[i as int].reliable_frames,
                    now,
                ),
            decreases self.sessions@[i as int].reliable_frames@.len(),
        {
            let ghost prev = *self;
            let ghost frames = self.sessions@[i as int].reliable_frames@;
            self.sessions[i].reliable_frames.remove(0);
            proof {
                assert(frames.remove(0) =~= frames.drop_first());
                assert(self@[i as int] == self.sessions@[i as int]@);
                assert(self@ =~= prev@.update(i as int, self@[i as int]));
                assert(self@ =~= before@.update(i as int, self@[i as int]));
            }
        }
        if self.sessions[i].reliable_frames.len() >= MAX_RELIABLE_FRAMES_PER_SECOND {
            proof {
                self.lemma_session_changed(before, i as int);
            }
            return Err("reliable input frame rate limit exceeded".to_owned());
        }
        self.sessions[i].reliable_frames.push(now);
        self.sessions[i].reliable_sequence = sequence;
        self.sessions[i].reliable_elapsed_us = elapsed_us;
        self.sessions[i].last_activity = now;
        proof {
            assert(self@[i as int] == self.sessions@[i as int]@);
            assert(self@ =~= before@.update(i as int, self@[i as int]));
            self.lemma_session_changed(before, i as int);
        }
        Ok(
            InputFeedbackSnapshot {
                reliable_sequence: sequence,
                motion_sequence: 0,
                motion_datagrams_received: 0,
                motion_datagrams_missing: 0,
            },
        )
    }

    /// Takes in the totals that the pointer and the scroll position have moved
    /// since the session began, and gives the way since the last time.
    pub fn accept_ordered_motion(
        &mut self,
        lease: InputLease,
        device_id: &str,
        pointer_total_x_256: i64,
        pointer_total_y_256: i64,
        scroll_total_x_256: i64,
        scroll_total_y_256: i64,
        precise_scroll: bool,
        now: u64,
    ) -> (r: Result<MotionDelta, String>)
        requires
            old(self).wf(),
        ensures
            final(self).wf(),
            refusal(r) == motion_error(
                old(self)@,
                lease,
                device_id@,
                (pointer_total_x_256, pointer_total_y_256, scroll_total_x_256, scroll_total_y_256),
                now,
            ),
            r is Err ==> final(self)@ == old(self)@,
            r matches Ok(delta) ==> {
                let i = place(old(self)@, lease);
                let s = old(self)@[i];
                &&& delta.pointer_x_256 == pointer_total_x_256 - s.pointer_total_x_256
                &&& delta.pointer_y_256 == pointer_total_y_256 - s.pointer_total_y_256
                &&& delta.scroll_x_256 == scroll_total_x_256 - s.scroll_total_x_256
                &&& delta.scroll_y_256 == scroll_total_y_256 - s.scroll_total_y_256
                &&& delta.precise_scroll == precise_scroll
                &&& delta.feedback == (InputFeedbackSnapshot {
                    reliable_sequence: s.reliable_sequence,
                    ..no_feedback()
                })
                &&& final(self)@ == old(self)@.update(
                    i,
                    SessionView {
                        pointer_total_x_256,
                        pointer_total_y_256,
                        scroll_total_x_256,
                        scroll_total_y_256,
                        last_activity: now,
                        ..s
                    },
                )
            },
    {
        let i: usize = match self.owned_position(lease, device_id) {
            Err(message) => {
                return Err(message);
            },
            Ok(i) => i,
        };
        let ghost s = self@[i as int];
        proof {
            assert(s == self.sessions@[i as int]@);
        }
        if now.saturating_sub(self.sessions[i].last_activity) >= INPUT_LEASE_TIMEOUT_MS {
            return Err("input lease expired".to_owned());
        }
        let pointer_x_256: i64 = match pointer_total_x_256.checked_sub(
            self.sessions[i].pointer_total_x_256,
        ) {
            Some(delta) => delta,
            None => {
                return Err("pointer total overflow".to_owned());
            },
        };
        let pointer_y_256: i64 = match pointer_total_y_256.checked_sub(
            self.sessions[i].pointer_total_y_256,
        ) {
            Some(delta) => delta,
            None => {
                return Err("pointer total overflow".to_owned());
            },
        };
        let scroll_x_256: i64 = match scroll_total_x_256.checked_sub(
            self.sessions[i].scroll_total_x_256,
        ) {
            Some(delta) => delta,
            None => {
                return Err("scroll total overflow".to_owned());
            },
        };
        let scroll_y_256: i64 = match scroll_total_y_256.checked_sub(
            self.sessions[i].scroll_total_y_256,
        ) {
            Some(delta) => delta,
            None => {
                return Err("scroll total overflow".to_owned());
            },
        };
        if pointer_x_256 > 2_097_152 || pointer_x_256 < -2_097_152 || pointer_y_256 > 2_097_152
            || pointer_y_256 < -2_097_152 || scroll_x_256 > 524_288 || scroll_x_256 < -524_288
            || scroll_y_256 > 524_288 || scroll_y_256 < -524_288 {
            return Err("motion delta exceeds protocol limits".to_owned());
        }
        let ghost before = *self;
        self.sessions[i].pointer_total_x_256 = pointer_total_x_256;
        self.sessions[i].pointer_total_y_256 = pointer_total_y_256;
        self.sessions[i].scroll_total_x_256 = scroll_total_x_256;
        self.sessions[i].scroll_total_y_256 = scroll_total_y_256;
        self.sessions[i].last_activity = now;
        proof {
            assert(self@[i as int] == self.sessions@[i as int]@);
            assert(self@ =~= before@.update(i as int, self@[i as int]));
            self.lemma_session_changed(before, i as int);
        }
        Ok(
            MotionDelta {
                pointer_x_256,
                pointer_y_256,
                scroll_x_256,
                scroll_y_256,
                precise_scroll,
                feedback: InputFeedbackSnapshot {
                    reliable_sequence: self.sessions[i].reliable_sequence,
                    motion_sequence: 0,
                    motion_datagrams_received: 0,
                    motion_datagrams_missing: 0,
                },
            },
        )
    }

    /// Lets go of everything that a session holds.
    fn release_session_state(
        &mut self,
        current: &mut ActiveInputSession,
        cancelled: Option<u64>,
        out: &mut Vec<NativeEvent>,
    )
        requires
            old(self)@.len() == 0,
            old(current).wf(),
            counted(
                old(self).pressed_key_counts@,
                old(self).pressed_button_counts@,
                old(self)@,
                old(current).pressed_keys@,
                old(current).pressed_buttons@,
            ),
        ensures
            final(self).sessions == old(self).sessions,
            final(current).wf(),
            counted(
                final(self).pressed_key_counts@,
                final(self).pressed_button_counts@,
                final(self)@,
                final(current).pressed_keys@,
                final(current).pressed_buttons@,
            ),
            final(current)@ == with_held(
                old(current)@,
                Held { keys: Seq::empty(), buttons: Seq::empty(), gesture_updated: None },
            ),
            native_views(final(out)@) == native_views(old(out)@) + releases(
                held_of(old(current)@),
                cancelled,
                other_keys(old(self)@),
                other_buttons(old(self)@),
            ),
    {
        let ghost before = native_views(out@);
        let ghost others = self@;
        let ghost ke = other_keys(others);
        let ghost be = other_buttons(others);
        current.gesture_updated = None;
        if let Some(gesture) = cancelled {
            out.push(NativeEvent::SystemGesture { gesture });
        }
        let ghost first = before + cancelled_gesture(cancelled);
        proof {
            assert(native_views(out@) =~= first);
        }
        let ghost keys = current.pressed_keys@;
        let ghost buttons = current.pressed_buttons@;
        let mut i: usize = 0;
        proof {
            assert(keys.skip(0) =~= keys);
            assert(first + key_releases(keys.take(0), ke) =~= first);
        }
        while i < current.pressed_keys.len()
            invariant
                i <= keys.len(),
                keys == current.pressed_keys@,
                buttons == current.pressed_buttons@,
                keys.no_duplicates(),
                self.sessions == old(self).sessions,
                self@.len() == 0,
                others == self@,
                ke == other_keys(others),
                *current == (ActiveInputSession { gesture_updated: None, ..*old(current) }),
                counted(
                    self.pressed_key_counts@,
                    self.pressed_button_counts@,
                    others,
                    keys.skip(i as int),
                    buttons,
                ),
                native_views(out@) == first + key_releases(keys.take(i as int), ke),
            decreases keys.len() - i,
        {
            let hid_usage: u16 = current.pressed_keys[i];
            let ghost rest = keys.skip(i as int);
            let ghost counts = self.pressed_key_counts@;
            proof {
                assert(rest[0] == hid_usage);
                assert(rest.contains(hid_usage));
                assert(count_of(counts, hid_usage) == crate::keyed::sum_by(
                    others,
                    holds_key(hid_usage),
                ) + 1);
                assert(counts.dom().contains(hid_usage));
            }
            let last = decrement_count(&mut self.pressed_key_counts, hid_usage);
            let ghost listed = native_views(out@);
            if last {
                out.push(NativeEvent::Key { hid_usage, down: false, repeat: false });
            }
            proof {
                let next = keys.skip(i as int + 1);
                assert(keys.take(i as int + 1).drop_last() =~= keys.take(i as int));
                assert(next =~= rest.drop_first());
                assert(!next.contains(hid_usage)) by {
                    if next.contains(hid_usage) {
                        let m = choose|m: int| 0 <= m < next.len() && next[m] == hid_usage;
                        assert(keys[i as int + 1 + m] == keys[i as int]);
                    }
                }
                assert forall|k: u16| k != hid_usage implies next.contains(k) == rest.contains(k) by {
                    if rest.contains(k) {
                        let m = choose|m: int| 0 <= m < rest.len() && rest[m] == k;
                        assert(next[m - 1] == k);
                    }
                    if next.contains(k) {
                        let m = choose|m: int| 0 <= m < next.len() && next[m] == k;
                        assert(rest[m + 1] == k);
                    }
                }
                assert forall|k: u16| #[trigger]
                    count_of(self.pressed_key_counts@, k) == crate::keyed::sum_by(
                        others,
                        holds_key(k),
                    ) + if next.contains(k) {
                        1nat
                    } else {
                        0
                    } by {
                    assert(count_of(counts, k) == crate::keyed::sum_by(others, holds_key(k))
                        + if rest.contains(k) {
                        1nat
                    } else {
                        0
                    });
                }
                assert(counted(
                    self.pressed_key_counts@,
                    self.pressed_button_counts@,
                    others,
                    next,
                    buttons,
                ));
                assert(last == !ke(hid_usage));
                assert(keys.take(i as int + 1).last() == hid_usage);
                let up = NativeView::Key { hid_usage, down: false, repeat: false };
                assert(native_views(out@) =~= if last {
                    listed.push(up)
                } else {
                    listed
                });
                let so_far = key_releases(keys.take(i as int), ke);
                assert(first + so_far.push(up) =~= (first + so_far).push(up));
                assert(native_views(out@) =~= first + key_releases(keys.take(i as int + 1), ke));
            }
            i += 1;
        }
        let ghost second = first + key_releases(keys, ke);
        proof {
            assert(keys.take(keys.len() as int) =~= keys);
            assert(keys.skip(keys.len() as int) =~= Seq::<u16>::empty());
            assert(buttons.skip(0) =~= buttons);
            assert(second + button_releases(buttons.take(0), be) =~= second);
        }
        current.pressed_keys = Vec::new();
        let mut j: usize = 0;
        while j < current.pressed_buttons.len()
            invariant
                j <= buttons.len(),
                buttons == current.pressed_buttons@,
                buttons.no_duplicates(),
                current.pressed_keys@ == Seq::<u16>::empty(),
                self.sessions == old(self).sessions,
                self@.len() == 0,
                others == self@,
                be == other_buttons(others),
                current@ == (SessionView {
                    gesture_updated: None,
                    keys: Seq::empty(),
                    ..old(current)@
                }),
                counted(
                    self.pressed_key_counts@,
                    self.pressed_button_counts@,
                    others,
                    Seq::empty(),
                    buttons.skip(j as int),
                ),
                native_views(out@) == second + button_releases(buttons.take(j as int), be),
            decreases buttons.len() - j,
        {
            let button = current.pressed_buttons[j];
            let ghost rest = buttons.skip(j as int);
            let ghost counts = self.pressed_button_counts@;
            proof {
                assert(rest[0] == button);
                assert(rest.contains(button));
                assert(count_of(counts, button_code(button)) == crate::keyed::sum_by(
                    others,
                    holds_button(button),
                ) + 1);
                assert(counts.dom().contains(button_code(button)));
            }
            let ghost listed = native_views(out@);
            let last = decrement_count(&mut self.pressed_button_counts, code_of(button));
            if last {
                out.push(NativeEvent::PointerButton { button, down: false, click_count: 1 });
            }
            proof {
                let next = buttons.skip(j as int + 1);
                assert(buttons.take(j as int + 1).drop_last() =~= buttons.take(j as int));
                assert(next =~= rest.drop_first());
                assert(!next.contains(button)) by {
                    if next.contains(button) {
                        let m = choose|m: int| 0 <= m < next.len() && next[m] == button;
                        assert(buttons[j as int + 1 + m] == buttons[j as int]);
                    }
                }
                assert forall|b: MouseButton| b != button implies next.contains(b) == rest.contains(b) by {
                    if rest.contains(b) {
                        let m = choose|m: int| 0 <= m < rest.len() && rest[m] == b;
                        assert(next[m - 1] == b);
                    }
                    if next.contains(b) {
                        let m = choose|m: int| 0 <= m < next.len() && next[m] == b;
                        assert(rest[m + 1] == b);
                    }
                }
                assert forall|b: MouseButton| #[trigger]
                    count_of(self.pressed_button_counts@, button_code(b)) == crate::keyed::sum_by(
                        others,
                        holds_button(b),
                    ) + if next.contains(b) {
                        1nat
                    } else {
                        0
                    } by {
                    assert(count_of(counts, button_code(b)) == crate::keyed::sum_by(
                        others,
                        holds_button(b),
                    ) + if rest.contains(b) {
                        1nat
                    } else {
                        0
                    });
                }
                assert(counted(
                    self.pressed_key_counts@,
                    self.pressed_button_counts@,
                    others,
                    Seq::empty(),
                    next,
                ));
                assert(last == !be(button));
                assert(buttons.take(j as int + 1).last() == button);
                let up = NativeView::PointerButton { button, down: false, click_count: 1 };
                assert(native_views(out@) =~= if last {
                    listed.push(up)
                } else {
                    listed
                });
                let so_far = button_releases(buttons.take(j as int), be);
                assert(second + so_far.push(up) =~= (second + so_far).push(up));
                assert(native_views(out@) =~= second + button_releases(
                    buttons.take(j as int + 1),
                    be,
                ));
            }
            j += 1;
        }
        current.pressed_buttons = Vec::new();
        proof {
            assert(buttons.take(buttons.len() as int) =~= buttons);
            assert(buttons.skip(buttons.len() as int) =~= Seq::<MouseButton>::empty());
            assert(native_views(out@) =~= before + releases(
                held_of(old(current)@),
                cancelled,
                ke,
                be,
            ));
        }
    }

    /// Applies one event of a session.
    fn apply_event(
        &mut self,
        current: &mut ActiveInputSession,
        event: ReliableEvent,
        out: &mut Vec<NativeEvent>,
        now: u64,
    )
        requires
            old(self)@.len() == 0,
            old(current).wf(),
            counted(
                old(self).pressed_key_counts@,
                old(self).pressed_button_counts@,
                old(self)@,
                old(current).pressed_keys@,
                old(current).pressed_buttons@,
            ),
        ensures
            final(self).sessions == old(self).sessions,
            final(current).wf(),
            counted(
                final(self).pressed_key_counts@,
                final(self).pressed_button_counts@,
                final(self)@,
                final(current).pressed_keys@,
                final(current).pressed_buttons@,
            ),
            ({
                let step = event_step(
                    held_of(old(current)@),
                    event,
                    other_keys(old(self)@),
                    other_buttons(old(self)@),
                    now,
                );
                &&& final(current)@ == with_held(old(current)@, step.0)
                &&& native_views(final(out)@) == native_views(old(out)@) + step.1
            }),
    {
        let ghost before = native_views(out@);
        let ghost others = self@;
        let ghost keys = current.pressed_keys@;
        let ghost buttons = current.pressed_buttons@;
        let ghost key_counts = self.pressed_key_counts@;
        let ghost button_counts = self.pressed_button_counts@;
        match event {
            ReliableEvent::Key { hid_usage, down, repeat } => {
                let held = find_key(&current.pressed_keys, hid_usage);
                let ghost native = NativeView::Key { hid_usage, down, repeat };
                proof {
                    assert(count_of(key_counts, hid_usage) == crate::keyed::sum_by(
                        others,
                        holds_key(hid_usage),
                    ) + if keys.contains(hid_usage) {
                        1nat
                    } else {
                        0
                    });
                }
                if down {
                    if held.is_none() {
                        current.pressed_keys.push(hid_usage);
                        let first = increment_count(&mut self.pressed_key_counts, hid_usage);
                        if first {
                            out.push(NativeEvent::Key { hid_usage, down, repeat });
                        }
                        proof {
                            lemma_pushed(keys, hid_usage);
                            lemma_counted_keys(
                                key_counts,
                                self.pressed_key_counts@,
                                button_counts,
                                others,
                                keys,
                                keys.push(hid_usage),
                                buttons,
                                hid_usage,
                            );
                        }
                    } else if repeat {
                        out.push(NativeEvent::Key { hid_usage, down, repeat });
                    }
                } else {
                    match held {
                        Some(at) => {
                            current.pressed_keys.remove(at);
                            let last = decrement_count(&mut self.pressed_key_counts, hid_usage);
                            if last {
                                out.push(NativeEvent::Key { hid_usage, down, repeat });
                            }
                            proof {
                                lemma_lifted(keys, hid_usage, at as int);
                                lemma_counted_keys(
                                    key_counts,
                                    self.pressed_key_counts@,
                                    button_counts,
                                    others,
                                    keys,
                                    lifted(keys, hid_usage),
                                    buttons,
                                    hid_usage,
                                );
                            }
                        },
                        None => {},
                    }
                }
                proof {
                    assert(native_views(out@) =~= before || native_views(out@) =~= before + seq![
                        native,
                    ]);
                    assert(before + Seq::<NativeView>::empty() =~= before);
                }
            },
            ReliableEvent::PointerButton { button, down, click_count } => {
                let held = find_button(&current.pressed_buttons, button);
                let ghost native = NativeView::PointerButton { button, down, click_count };
                proof {
                    assert(count_of(button_counts, button_code(button)) == crate::keyed::sum_by(
                        others,
                        holds_button(button),
                    ) + if buttons.contains(button) {
                        1nat
                    } else {
                        0
                    });
                }
                if down {
                    if held.is_none() {
                        current.pressed_buttons.push(button);
                        let first = increment_count(
                            &mut self.pressed_button_counts,
                            code_of(button),
                        );
                        if first {
                            out.push(NativeEvent::PointerButton { button, down, click_count });
                        }
                        proof {
                            lemma_pushed(buttons, button);
                            lemma_counted_buttons(
                                button_counts,
                                self.pressed_button_counts@,
                                key_counts,
                                others,
                                keys,
                                buttons,
                                buttons.push(button),
                                button,
                            );
                        }
                    }
                } else {
                    match held {
                        Some(at) => {
                            current.pressed_buttons.remove(at);
                            let last = decrement_count(
                                &mut self.pressed_button_counts,
                                code_of(button),
                            );
                            if last {
                                out.push(NativeEvent::PointerButton { button, down, click_count });
                            }
                            proof {
                                lemma_lifted(buttons, button, at as int);
                                lemma_counted_buttons(
                                    button_counts,
                                    self.pressed_button_counts@,
                                    key_counts,
                                    others,
                                    keys,
                                    buttons,
                                    lifted(buttons, button),
                                    button,
                                );
                            }
                        },
                        None => {},
                    }
                }
                proof {
                    assert(native_views(out@) =~= before || native_views(out@) =~= before + seq![
                        native,
                    ]);
                    assert(before + Seq::<NativeView>::empty() =~= before);
                }
            },
            ReliableEvent::TextCommit { text } => {
                let ghost native = NativeView::TextCommit { text: text@ };
                out.push(NativeEvent::TextCommit { text });
                proof {
                    assert(native_views(out@) =~= before + seq![native]);
                }
            },
            ReliableEvent::ScrollGesture { phase } => {
                out.push(NativeEvent::ScrollGesture { phase });
                proof {
                    assert(native_views(out@) =~= before + seq![
                        NativeView::ScrollGesture { phase },
                    ]);
                }
            },
            ReliableEvent::SystemGesture { phases, active } => {
                if phases.len() > 0 {
                    current.gesture_updated = if active {
                        Some(now)
                    } else {
                        None
                    };
                }
                let ghost all = phases@.map_values(
                    |gesture: u64| NativeView::SystemGesture { gesture },
                );
                let mut p: usize = 0;
                proof {
                    assert(before + all.take(0) =~= before);
                }
                while p < phases.len()
                    invariant
                        p <= phases@.len(),
                        all == phases@.map_values(
                            |gesture: u64| NativeView::SystemGesture { gesture },
                        ),
                        native_views(out@) == before + all.take(p as int),
                    decreases phases@.len() - p,
                {
                    let ghost listed = native_views(out@);
                    out.push(NativeEvent::SystemGesture { gesture: phases[p] });
                    proof {
                        assert(native_views(out@) =~= listed.push(all[p as int]));
                        assert(before + all.take(p as int + 1) =~= listed.push(all[p as int]));
                    }
                    p += 1;
                }
                proof {
                    assert(all.take(p as int) =~= all);
                }
            },
            ReliableEvent::ReleaseAll { cancelled } => {
                self.release_session_state(current, cancelled, out);
            },
        }
    }

    /// Turns the events of one session into the native events that take effect.
    /// A key or button held by several sessions stays down until the last one
    /// lets go; a request to release everything concerns the session alone.
    pub fn normalize_reliable_events(
        &mut self,
        lease: InputLease,
        device_id: &str,
        events: Vec<ReliableEvent>,
        now: u64,
    ) -> (r: Result<Vec<NativeEvent>, String>)
        requires
            old(self).wf(),
        ensures
            final(self).wf(),
            refusal(r) == lease_error(old(self)@, lease, device_id@),
            r is Err ==> final(self)@ == old(self)@,
            r matches Ok(native) ==> {
                let i = place(old(self)@, lease);
                let steps = event_steps(
                    held_of(old(self)@[i]),
                    events@,
                    events@.len() as int,
                    other_keys(old(self)@.remove(i)),
                    other_buttons(old(self)@.remove(i)),
                    now,
                );
                &&& native_views(native@) == steps.1
                &&& final(self)@ == old(self)@.update(i, with_held(old(self)@[i], steps.0))
            },
    {
        let i: usize = match self.owned_position(lease, device_id) {
            Err(message) => {
                return Err(message);
            },
            Ok(i) => i,
        };
        let ghost all = self@;
        let ghost s = self@[i as int];
        proof {
            self.lemma_taken_out(i as int);
        }
        let mut current = self.sessions.remove(i);
        let ghost others = self@;
        proof {
            assert(current@ == s);
            assert(others =~= all.remove(i as int));
        }
        let ghost ke = other_keys(others);
        let ghost be = other_buttons(others);
        let mut pending = events;
        let mut out: Vec<NativeEvent> = Vec::new();
        let mut n: usize = 0;
        let count: usize = pending.len();
        proof {
            assert(native_views(out@) =~= Seq::<NativeView>::empty());
        }
        while n < count
            invariant
                n <= count,
                count == events@.len(),
                pending@ == events@.skip(n as int),
                self@ == others,
                others.len() == 0,
                current.wf(),
                ke == other_keys(others),
                be == other_buttons(others),
                counted(
                    self.pressed_key_counts@,
                    self.pressed_button_counts@,
                    others,
                    current.pressed_keys@,
                    current.pressed_buttons@,
                ),
                current@ == with_held(s, held_of(current@)),
                (held_of(current@), native_views(out@)) == event_steps(
                    held_of(s),
                    events@,
                    n as int,
                    ke,
                    be,
                    now,
                ),
            decreases count - n,
        {
            proof {
                assert(pending@[0] == events@[n as int]);
                assert(events@.skip(n as int).remove(0) =~= events@.skip(n as int + 1));
            }
            let event = pending.remove(0);
            self.apply_event(&mut current, event, &mut out, now);
            n += 1;
        }
        let ghost last = current@;
        self.sessions.insert(i, current);
        proof {
            assert(self@ =~= others.insert(i as int, last));
            assert(self@ =~= all.update(i as int, last));
            self.lemma_put_back(others, i as int, last);
        }
        Ok(out)
    }

    /// Without the session at `i`, the tables count the others and that one.
    proof fn lemma_taken_out(&self, i: int)
        requires
            self.wf(),
            0 <= i < self@.len(),
        ensures
            self.sessions@[i]@ == self@[i],
            self.sessions@[i].wf(),
            counted(
                self.pressed_key_counts@,
                self.pressed_button_counts@,
                self@.remove(i),
                self@[i].keys,
                self@[i].buttons,
            ),
    {
        assert(self@[i].keys.no_duplicates());
        assert forall|k: u16| #[trigger]
            count_of(self.pressed_key_counts@, k) == crate::keyed::sum_by(
                self@.remove(i),
                holds_key(k),
            ) + if self@[i].keys.contains(k) {
                1nat
            } else {
                0
            } by {
            lemma_sum_remove(self@, i, holds_key(k));
            assert(!Seq::<u16>::empty().contains(k));
        }
        assert forall|b: MouseButton| #[trigger]
            count_of(self.pressed_button_counts@, button_code(b)) == crate::keyed::sum_by(
                self@.remove(i),
                holds_button(b),
            ) + if self@[i].buttons.contains(b) {
                1nat
            } else {
                0
            } by {
            lemma_sum_remove(self@, i, holds_button(b));
            assert(!Seq::<MouseButton>::empty().contains(b));
        }
    }

    /// With the session put back, the tables count all sessions.
    proof fn lemma_put_back(&self, others: Seq<SessionView>, i: int, s: SessionView)
        requires
            others.len() == 0,
            0 <= i <= others.len(),
            self@ == others.insert(i, s),
            s.keys.no_duplicates(),
            s.buttons.no_duplicates(),
            counted(
                self.pressed_key_counts@,
                self.pressed_button_counts@,
                others,
                s.keys,
                s.buttons,
            ),
        ensures
            self.wf(),
    {
        assert(self@.remove(i) =~= others);
        assert(self@[i] == s);
        assert forall|k: u16| #[trigger]
            count_of(self.pressed_key_counts@, k) == crate::keyed::sum_by(self@, holds_key(k))
                + if Seq::<u16>::empty().contains(k) {
                1nat
            } else {
                0
            } by {
            lemma_sum_remove(self@, i, holds_key(k));
            assert(!Seq::<u16>::empty().contains(k));
        }
        assert forall|b: MouseButton| #[trigger]
            count_of(self.pressed_button_counts@, button_code(b)) == crate::keyed::sum_by(
                self@,
                holds_button(b),
            ) + if Seq::<MouseButton>::empty().contains(b) {
                1nat
            } else {
                0
            } by {
            lemma_sum_remove(self@, i, holds_button(b));
            assert(!Seq::<MouseButton>::empty().contains(b));
        }
    }

    /// Tells whether the gesture of a session has been without news for too
    /// long, and forgets it if so. A frame that only keeps the lease alive is
    /// no news.
    pub fn cancel_idle_system_gesture(
        &mut self,
        lease: InputLease,
        device_id: &str,
        now: u64,
    ) -> (r: bool)
        requires
            old(self).wf(),
        ensures
            final(self).wf(),
            ({
                let i = place(old(self)@, lease);
                let s = old(self)@[i];
                &&& r == (lease_error(old(self)@, lease, device_id@) is None && s.gesture_updated
                    is Some && now - s.gesture_updated->0 >= GESTURE_IDLE_MS)
                &&& final(self)@ == if r {
                    old(self)@.update(i, SessionView { gesture_updated: None, ..s })
                } else {
                    old(self)@
                }
            }),
    {
        let i: usize = match self.owned_position(lease, device_id) {
            Err(_) => {
                return false;
            },
            Ok(i) => i,
        };
        proof {
            assert(self@[i as int] == self.sessions@[i as int]@);
        }
        let due = match self.sessions[i].gesture_updated {
            Some(updated) => now.saturating_sub(updated) >= GESTURE_IDLE_MS,
            None => false,
        };
        if !due {
            return false;
        }
        let ghost before = *self;
        self.sessions[i].gesture_updated = None;
        proof {
            assert(self@[i as int] == self.sessions@[i as int]@);
            assert(self@ =~= before@.update(i as int, self@[i as int]));
            self.lemma_session_changed(before, i as int);
        }
        true
    }

    /// The native events that let go of what no session but this one holds.
    pub fn releases_of(&self, lease: InputLease, cancelled: Option<u64>) -> (r: Vec<NativeEvent>)
        requires
            self.wf(),
        ensures
            ({
                let i = place(self@, lease);
                if active(self@, lease) {
                    native_views(r@) == releases(
                        held_of(self@[i]),
                        cancelled,
                        other_keys(self@.remove(i)),
                        other_buttons(self@.remove(i)),
                    )
                } else {
                    r@.len() == 0
                }
            }),
    {
        broadcast use vstd::std_specs::hash::group_hash_axioms;

        let mut out: Vec<NativeEvent> = Vec::new();
        let i: usize = match self.position(lease) {
            None => {
                return out;
            },
            Some(i) => i,
        };
        let ghost others = self@.remove(i as int);
        let ghost ke = other_keys(others);
        let ghost be = other_buttons(others);
        let ghost keys = self@[i as int].keys;
        let ghost buttons = self@[i as int].buttons;
        proof {
            self.lemma_taken_out(i as int);
        }
        if let Some(gesture) = cancelled {
            out.push(NativeEvent::SystemGesture { gesture });
        }
        let ghost first = cancelled_gesture(cancelled);
        proof {
            assert(native_views(out@) =~= first);
            assert(first + key_releases(keys.take(0), ke) =~= first);
        }
        let mut k: usize = 0;
        while k < self.sessions[i].pressed_keys.len()
            invariant
                i < self.sessions@.len(),
                keys == self.sessions@[i as int].pressed_keys@,
                k <= keys.len(),
                ke == other_keys(others),
                counted(
                    self.pressed_key_counts@,
                    self.pressed_button_counts@,
                    others,
                    keys,
                    buttons,
                ),
                native_views(out@) == first + key_releases(keys.take(k as int), ke),
            decreases keys.len() - k,
        {
            let hid_usage: u16 = self.sessions[i].pressed_keys[k];
            let ghost listed = native_views(out@);
            proof {
                assert(keys[k as int] == hid_usage);
                assert(count_of(self.pressed_key_counts@, hid_usage) == crate::keyed::sum_by(
                    others,
                    holds_key(hid_usage),
                ) + 1);
                assert(keys.take(k as int + 1).drop_last() =~= keys.take(k as int));
                assert(keys.take(k as int + 1).last() == hid_usage);
            }
            let last = table_count(&self.pressed_key_counts, hid_usage) == 1;
            if last {
                out.push(NativeEvent::Key { hid_usage, down: false, repeat: false });
            }
            proof {
                assert(last == !ke(hid_usage));
                let up = NativeView::Key { hid_usage, down: false, repeat: false };
                assert(native_views(out@) =~= if last {
                    listed.push(up)
                } else {
                    listed
                });
                let so_far = key_releases(keys.take(k as int), ke);
                assert(first + so_far.push(up) =~= (first + so_far).push(up));
            }
            k += 1;
        }
        let ghost second = first + key_releases(keys, ke);
        proof {
            assert(keys.take(keys.len() as int) =~= keys);
            assert(second + button_releases(buttons.take(0), be) =~= second);
        }
        let mut b: usize = 0;
        while b < self.sessions[i].pressed_buttons.len()
            invariant
                i < self.sessions@.len(),
                buttons == self.sessions@[i as int].pressed_buttons@,
                b <= buttons.len(),
                be == other_buttons(others),
                counted(
                    self.pressed_key_counts@,
                    self.pressed_button_counts@,
                    others,
                    keys,
                    buttons,
                ),
                native_views(out@) == second + button_releases(buttons.take(b as int), be),
            decreases buttons.len() - b,
        {
            let button = self.sessions[i].pressed_buttons[b];
            let ghost listed = native_views(out@);
            proof {
                assert(buttons[b as int] == button);
                assert(count_of(self.pressed_button_counts@, button_code(button))
                    == crate::keyed::sum_by(others, holds_button(button)) + 1);
                assert(buttons.take(b as int + 1).drop_last() =~= buttons.take(b as int));
                assert(buttons.take(b as int + 1).last() == button);
            }
            let last = table_count(&self.pressed_button_counts, code_of(button)) == 1;
            if last {
                out.push(NativeEvent::PointerButton { button, down: false, click_count: 1 });
            }
            proof {
                assert(last == !be(button));
                let up = NativeView::PointerButton { button, down: false, click_count: 1 };
                assert(native_views(out@) =~= if last {
                    listed.push(up)
                } else {
                    listed
                });
                let so_far = button_releases(buttons.take(b as int), be);
                assert(second + so_far.push(up) =~= (second + so_far).push(up));
            }
            b += 1;
        }
        proof {
            assert(buttons.take(buttons.len() as int) =~= buttons);
        }
        out
    }

    /// Ends a session and gives the native events that let go of what no other
    /// session holds.
    pub fn release(&mut self, lease: InputLease, cancelled: Option<u64>) -> (r: Vec<NativeEvent>)
        requires
            old(self).wf(),
        ensures
            final(self).wf(),
            ({
                let i = place(old(self)@, lease);
                if active(old(self)@, lease) {
                    &&& final(self)@ == old(self)@.remove(i)
                    &&& native_views(r@) == releases(
                        held_of(old(self)@[i]),
                        cancelled,
                        other_keys(old(self)@.remove(i)),
                        other_buttons(old(self)@.remove(i)),
                    )
                } else {
                    r@.len() == 0 && final(self)@ == old(self)@
                }
            }),
    {
        let mut out: Vec<NativeEvent> = Vec::new();
        let i: usize = match self.position(lease) {
            None => {
                return out;
            },
            Some(i) => i,
        };
        let ghost all = self@;
        proof {
            self.lemma_taken_out(i as int);
        }
        let mut current = self.sessions.remove(i);
        proof {
            assert(self@ =~= all.remove(i as int));
            assert(native_views(out@) =~= Seq::<NativeView>::empty());
        }
        self.release_session_state(&mut current, cancelled, &mut out);
        out
    }
}

/// What one event does: a key or button that goes down is held then and one that
/// goes up is not, nothing else that is held changes, and what the native input
/// system is given is what the event says.
pub proof fn lemma_events_do_what_they_say(
    h: Held,
    event: ReliableEvent,
    ke: spec_fn(u16) -> bool,
    be: spec_fn(MouseButton) -> bool,
    now: u64,
    key: u16,
    button: MouseButton,
)
    requires
        h.keys.no_duplicates(),
        h.buttons.no_duplicates(),
    ensures
        ({
            let (after, native) = event_step(h, event, ke, be, now);
            &&& event is Key ==> {
                &&& after.buttons == h.buttons && after.gesture_updated == h.gesture_updated
                &&& after.keys.contains(key) <==> if key == event->hid_usage {
                    event->Key_down
                } else {
                    h.keys.contains(key)
                }
                &&& native.len() <= 1
                &&& native.len() == 1 ==> native[0] is Key && native[0]->hid_usage
                    == event->hid_usage && native[0]->Key_down == event->Key_down
                    && native[0]->repeat == event->repeat
                &&& !ke(event->hid_usage) && h.keys.contains(event->hid_usage) != event->Key_down
                    ==> native.len() == 1
                &&& event->repeat && event->Key_down && h.keys.contains(event->hid_usage)
                    ==> native.len() == 1
            }
            &&& event is PointerButton ==> {
                &&& after.keys == h.keys && after.gesture_updated == h.gesture_updated
                &&& after.buttons.contains(button) <==> if button == event->button {
                    event->PointerButton_down
                } else {
                    h.buttons.contains(button)
                }
                &&& native.len() <= 1
                &&& native.len() == 1 ==> native[0] is PointerButton && native[0]->button
                    == event->button && native[0]->PointerButton_down == event->PointerButton_down
                    && native[0]->click_count == event->click_count
                &&& !be(event->button) && h.buttons.contains(event->button)
                    != event->PointerButton_down ==> native.len() == 1
            }
            &&& event is TextCommit ==> after == h && native.len() == 1 && native[0] is TextCommit
                && native[0]->text == event->text@
            &&& event is ScrollGesture ==> after == h && native.len() == 1
                && native[0] is ScrollGesture && native[0]->phase == event->phase
            &&& event is SystemGesture ==> {
                &&& after.keys == h.keys && after.buttons == h.buttons
                &&& native.len() == event->phases@.len()
                &&& forall|i: int|
                    0 <= i < native.len() ==> (#[trigger] native[i]) is SystemGesture
                        && native[i]->gesture == event->phases@[i]
                &&& event->phases@.len() > 0 ==> (after.gesture_updated is Some
                    <==> event->active) && (event->active ==> after.gesture_updated == Some(now))
            }
            &&& event is ReleaseAll ==> {
                &&& after.keys.len() == 0 && after.buttons.len() == 0
                &&& after.gesture_updated is None
                &&& event->cancelled is Some ==> native.len() > 0 && native[0] is SystemGesture
                    && native[0]->gesture == event->cancelled->0
            }
        }),
{
    match event {
        ReliableEvent::Key { hid_usage, down, repeat } => {
            if h.keys.contains(hid_usage) {
                lemma_lifted(h.keys, hid_usage, h.keys.index_of(hid_usage));
            } else {
                lemma_pushed(h.keys, hid_usage);
            }
        },
        ReliableEvent::PointerButton { button: b, down, click_count } => {
            if h.buttons.contains(b) {
                lemma_lifted(h.buttons, b, h.buttons.index_of(b));
            } else {
                lemma_pushed(h.buttons, b);
            }
        },
        _ => {},
    }
}

/// The frames that count against the rate are those of the last second: what is
/// left out is older, and the oldest one that is left is not.
pub proof fn lemma_recent_frames(frames: Seq<u64>, now: u64)
    ensures
        recent_frames(frames, now).len() <= frames.len(),
        ({
            let dropped = frames.len() - recent_frames(frames, now).len();
            &&& recent_frames(frames, now) == frames.skip(dropped)
            &&& forall|i: int| 0 <= i < dropped ==> now - (#[trigger] frames[i]) >= 1_000
            &&& dropped < frames.len() ==> now - frames[dropped] < 1_000
        }),
    decreases frames.len(),
{
    if frames.len() > 0 && now - frames[0] >= 1_000 {
        let rest = frames.drop_first();
        lemma_recent_frames(rest, now);
        let dropped = frames.len() - recent_frames(frames, now).len();
        assert(rest.skip(dropped - 1) =~= frames.skip(dropped));
        assert forall|i: int| 0 <= i < dropped implies now - (#[trigger] frames[i]) >= 1_000 by {
            if i > 0 {
                assert(rest[i - 1] == frames[i]);
            }
        }
    } else {
        assert(frames.skip(0) =~= frames);
    }
}

/// Which frames are taken: those of the device that holds the lease, within five
/// seconds of the last sign of life, in their order, with a clock that does not
/// run back, and at most two hundred and forty a second.
pub proof fn lemma_which_frames_are_taken(
    sessions: Seq<SessionView>,
    i: int,
    device_id: Seq<char>,
    sequence: u64,
    elapsed_us: u64,
    now: u64,
)
    requires
        valid(sessions),
        0 <= i < sessions.len(),
    ensures
        ({
            let s = sessions[i];
            reliable_error(sessions, s.lease, device_id, sequence, elapsed_us, now) is None <==> {
                &&& s.device_id == device_id
                &&& now - s.last_activity < 5_000
                &&& sequence == s.reliable_sequence + 1 || (sequence == u64::MAX
                    && s.reliable_sequence == u64::MAX)
                &&& elapsed_us >= s.reliable_elapsed_us
                &&& recent_frames(s.reliable_frames, now).len() < 240
            }
        }),
{
    assert(active(sessions, sessions[i].lease));
    assert(place(sessions, sessions[i].lease) == i);
}

/// Which motions are taken: those of the device that holds the lease, within five
/// seconds of the last sign of life, that move the pointer by at most 8192 and the
/// scroll position by at most 2048 on each axis.
pub proof fn lemma_which_motions_are_taken(
    sessions: Seq<SessionView>,
    i: int,
    device_id: Seq<char>,
    pointer_x: i64,
    pointer_y: i64,
    scroll_x: i64,
    scroll_y: i64,
    now: u64,
)
    requires
        valid(sessions),
        0 <= i < sessions.len(),
    ensures
        ({
            let s = sessions[i];
            let totals = (pointer_x, pointer_y, scroll_x, scroll_y);
            motion_error(sessions, s.lease, device_id, totals, now) is None <==> {
                &&& s.device_id == device_id
                &&& now - s.last_activity < 5_000
                &&& -8192 * 256 <= pointer_x - s.pointer_total_x_256 <= 8192 * 256
                &&& -8192 * 256 <= pointer_y - s.pointer_total_y_256 <= 8192 * 256
                &&& -2048 * 256 <= scroll_x - s.scroll_total_x_256 <= 2048 * 256
                &&& -2048 * 256 <= scroll_y - s.scroll_total_y_256 <= 2048 * 256
            }
        }),
{
    assert(active(sessions, sessions[i].lease));
    assert(place(sessions, sessions[i].lease) == i);
}

/// Without a session nothing is taken from anybody.
pub proof fn lemma_nothing_is_taken_without_a_session(
    lease: InputLease,
    device_id: Seq<char>,
    sequence: u64,
    elapsed_us: u64,
    totals: (i64, i64, i64, i64),
    now: u64,
)
    ensures
        lease_error(Seq::empty(), lease, device_id) is Some,
        reliable_error(Seq::empty(), lease, device_id, sequence, elapsed_us, now) is Some,
        motion_error(Seq::empty(), lease, device_id, totals, now) is Some,
        acquire_error(Seq::empty()) is None,
{
}

/// A session begins with nothing: no frame, no motion and nothing held down.
pub proof fn lemma_sessions_begin_with_nothing(
    lease: InputLease,
    device_id: Seq<char>,
    workspace_routed: bool,
    now: u64,
)
    ensures
        ({
            let s = new_session(lease, device_id, workspace_routed, now);
            &&& s.lease == lease && s.device_id == device_id
            &&& s.workspace_routed == workspace_routed
            &&& s.last_activity == now
            &&& s.reliable_sequence == 0 && s.reliable_elapsed_us == 0
            &&& s.reliable_frames.len() == 0
            &&& s.pointer_total_x_256 == 0 && s.pointer_total_y_256 == 0
            &&& s.scroll_total_x_256 == 0 && s.scroll_total_y_256 == 0
            &&& s.keys.len() == 0 && s.buttons.len() == 0
            &&& s.gesture_updated is None
            &&& valid(seq![s])
            &&& acquire_error(seq![s]) is Some
            &&& reliable_error(seq![s], lease, device_id, 1, 0, now) is None
        }),
{
    let s = new_session(lease, device_id, workspace_routed, now);
    assert(seq![s][0].lease == lease);
    assert(active(seq![s], lease));
    assert(place(seq![s], lease) == 0);
    lemma_recent_frames(s.reliable_frames, now);
}

/// What a session holds is kept apart from the rest of it.
pub proof fn lemma_held_is_part_of_a_session(s: SessionView, h: Held)
    ensures
        held_of(s).keys == s.keys,
        held_of(s).buttons == s.buttons,
        held_of(s).gesture_updated == s.gesture_updated,
        held_of(with_held(s, h)) == h,
        with_held(s, held_of(s)) == s,
        ({
            let t = with_held(s, h);
            &&& t.lease == s.lease && t.device_id == s.device_id
            &&& t.last_activity == s.last_activity
            &&& t.reliable_sequence == s.reliable_sequence
            &&& t.reliable_elapsed_us == s.reliable_elapsed_us
            &&& t.reliable_frames == s.reliable_frames
            &&& t.pointer_total_x_256 == s.pointer_total_x_256
            &&& t.pointer_total_y_256 == s.pointer_total_y_256
            &&& t.scroll_total_x_256 == s.scroll_total_x_256
            &&& t.scroll_total_y_256 == s.scroll_total_y_256
            &&& t.workspace_routed == s.workspace_routed
        }),
{
}

/// What the native input system is given is what the event says.
pub proof fn lemma_native_events_are_what_they_say(event: NativeEvent, events: Seq<NativeEvent>)
    ensures
        event is Key ==> event@ is Key && event@->hid_usage == event->hid_usage
            && event@->Key_down == event->Key_down && event@->repeat == event->repeat,
        event is PointerButton ==> event@ is PointerButton && event@->button == event->button
            && event@->PointerButton_down == event->PointerButton_down && event@->click_count
            == event->click_count,
        event is TextCommit ==> event@ is TextCommit && event@->text == event->text@,
        event is ScrollGesture ==> event@ is ScrollGesture && event@->phase == event->phase,
        event is SystemGesture ==> event@ is SystemGesture && event@->gesture == event->gesture,
        native_views(events).len() == events.len(),
        forall|i: int|
            0 <= i < events.len() ==> (#[trigger] native_views(events)[i]) == events[i]@,
{
}

/// A lease has numbers that are not zero, those that were drawn wherever they can be.
pub proof fn lemma_leases_are_as_drawn(session_draw: u64, epoch_draw: u32)
    ensures
        ({
            let lease = lease_from(session_draw, epoch_draw);
            &&& 0 < lease.session_id <= i64::MAX
            &&& 0 < lease.epoch
            &&& epoch_draw > 0 ==> lease.epoch == epoch_draw
            &&& 0 < session_draw <= i64::MAX ==> lease.session_id == session_draw
        }),
{
    assert(session_draw & 0x7fff_ffff_ffff_ffff <= 0x7fff_ffff_ffff_ffff) by (bit_vector);
    assert(session_draw <= 0x7fff_ffff_ffff_ffff ==> session_draw & 0x7fff_ffff_ffff_ffff
        == session_draw) by (bit_vector);
}

/// A sum of motions can be kept exactly when it is a number of 64 bits.
pub proof fn lemma_sums_that_can_be_kept(x: i64, y: int)
    ensures
        fits(x as int),
        y > 0x7fff_ffff_ffff_ffff ==> !fits(y),
        y < -0x8000_0000_0000_0000 ==> !fits(y),
{
}

/// No two buttons have one code.
pub proof fn lemma_buttons_have_their_codes(a: MouseButton, b: MouseButton)
    ensures
        button_code(a) == button_code(b) <==> a == b,
{
}

/// A client is slowed down only where 240 frames came within a second, and only for a
/// frame that would have been taken otherwise.
pub proof fn lemma_only_busy_clients_are_slowed(
    sessions: Seq<SessionView>,
    lease: InputLease,
    device_id: Seq<char>,
    sequence: u64,
    elapsed_us: u64,
    now: u64,
)
    ensures
        ({
            let s = sessions[place(sessions, lease)];
            let recent = recent_frames(s.reliable_frames, now).len();
            let taken = lease_error(sessions, lease, device_id) is None && !lapsed(s, now)
                && sequence == next_sequence(s) && elapsed_us >= s.reliable_elapsed_us;
            let slowed = rate_limited(sessions, lease, device_id, sequence, elapsed_us, now);
            &&& recent < 240 ==> !slowed
            &&& !taken ==> !slowed
            &&& taken && recent >= 240 ==> slowed
        }),
{
}

/// Letting go of what is held lifts each key and each button that nobody else holds,
/// and presses nothing.
pub proof fn lemma_releases_only_lift(
    keys: Seq<u16>,
    buttons: Seq<MouseButton>,
    keys_elsewhere: spec_fn(u16) -> bool,
    buttons_elsewhere: spec_fn(MouseButton) -> bool,
)
    ensures
        forall|i: int|
            0 <= i < key_releases(keys, keys_elsewhere).len() ==> {
                let event = #[trigger] key_releases(keys, keys_elsewhere)[i];
                event is Key && !event->Key_down && keys.contains(event->hid_usage)
                    && !keys_elsewhere(event->hid_usage)
            },
        forall|i: int|
            0 <= i < button_releases(buttons, buttons_elsewhere).len() ==> {
                let event = #[trigger] button_releases(buttons, buttons_elsewhere)[i];
                event is PointerButton && !event->PointerButton_down && buttons.contains(
                    event->button,
                ) && !buttons_elsewhere(event->button)
            },
    decreases keys.len() + buttons.len(),
{
    if keys.len() > 0 {
        lemma_releases_only_lift(keys.drop_last(), buttons, keys_elsewhere, buttons_elsewhere);
        assert forall|k: u16| keys.drop_last().contains(k) implies keys.contains(k) by {
            let i = keys.drop_last().index_of(k);
            assert(keys[i] == k);
        }
        assert(keys.contains(keys.last()));
    }
    if buttons.len() > 0 {
        lemma_releases_only_lift(keys, buttons.drop_last(), keys_elsewhere, buttons_elsewhere);
        assert forall|b: MouseButton| buttons.drop_last().contains(b) implies buttons.contains(
            b,
        ) by {
            let i = buttons.drop_last().index_of(b);
            assert(buttons[i] == b);
        }
        assert(buttons.contains(buttons.last()));
    }
}

} // verus!
