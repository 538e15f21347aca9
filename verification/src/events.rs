//! Events: what those who subscribed are told.

use vstd::prelude::*;

use crate::blob_store::BlobStore;
use crate::domain;
use crate::host::{AutomationInfo, HostNotificationInfo, OutputLine, QuickActionInfo};
use crate::proto;
use crate::queries::protocol_timestamp_at;
use crate::query_handler::HostQuestion;
use crate::snapshots::{
    build_actions, build_automations, build_clipboard_snapshot, build_media_snapshot,
    build_notifications, build_space_list, build_system_snapshot, build_window_list,
    ClipboardSnapshot,
};
use crate::subscriptions::{ActionEvent, EventGap, LostEvent, SubscriptionTopic, Subscriptions};
use crate::sync_record::sync_record_to_proto;

verus! {

/// At most so many notifications are told at once.
pub const MAX_EVENT_NOTIFICATIONS: usize = 100;

/// A state of the host, as it is handed to those who subscribed.
#[derive(Debug)]
pub enum StateUpdate {
    System { captured_at_ms: i64, snapshot: domain::SystemSnapshot },
    Media { captured_at_ms: i64, state: domain::MediaState },
    Windows {
        captured_at_ms: i64,
        windows: Vec<domain::WindowInfo>,
        spaces: Vec<domain::SpaceInfo>,
    },
    Clipboard {
        captured_at_ms: i64,
        history: Vec<domain::ClipboardSummary>,
        policy: domain::ClipboardPolicy,
    },
    /// A host without actions has neither.
    Actions { actions: Vec<QuickActionInfo>, automations: Vec<AutomationInfo> },
    Notifications { notifications: Vec<HostNotificationInfo> },
}

/// What an event tells.
#[derive(Debug)]
pub enum EventData {
    System(proto::SystemSnapshot),
    Media(proto::MediaStateSnapshot),
    Windows { windows: Vec<proto::WindowInfo>, spaces: Vec<proto::SpaceInfo> },
    Clipboard(ClipboardSnapshot),
    Actions { actions: Vec<QuickActionInfo>, automations: Vec<AutomationInfo> },
    ActionOutput { action_id: String, lines: Vec<String> },
    Notifications { notifications: Vec<HostNotificationInfo> },
    ClipboardSync(proto::ClipboardSyncRecord),
    Gap(EventGap),
}

/// An event of a subscription.
#[derive(Debug)]
pub struct Event {
    pub subscription_id: u64,
    pub sequence: u64,
    pub captured_at_ms: i64,
    pub data: EventData,
}

/// Makes an event at the time `wall_ms` of the calendar.
pub fn event_frame(
    subscription_id: u64,
    sequence: u64,
    captured_at_ms: i64,
    data: EventData,
    wall_ms: i64,
) -> (r: Event)
    ensures
        r.subscription_id == subscription_id,
        r.sequence == sequence,
        r.captured_at_ms == crate::queries::timestamp(captured_at_ms, wall_ms),
        r.data == data,
{
    Event {
        subscription_id,
        sequence,
        captured_at_ms: protocol_timestamp_at(captured_at_ms, wall_ms),
        data,
    }
}

/// The topic that a state belongs to.
pub open spec fn topic_of(update: StateUpdate) -> SubscriptionTopic {
    match update {
        StateUpdate::System { .. } => SubscriptionTopic::System,
        StateUpdate::Media { .. } => SubscriptionTopic::Media,
        StateUpdate::Windows { .. } => SubscriptionTopic::Windows,
        StateUpdate::Clipboard { .. } => SubscriptionTopic::Clipboard,
        StateUpdate::Actions { .. } => SubscriptionTopic::Actions,
        StateUpdate::Notifications { .. } => SubscriptionTopic::Notifications,
    }
}

/// The time from which a state is, where only some states tell it.
pub open spec fn captured_at(update: StateUpdate, wall_ms: i64) -> i64 {
    match update {
        StateUpdate::System { captured_at_ms, .. } => captured_at_ms,
        StateUpdate::Media { captured_at_ms, .. } => captured_at_ms,
        StateUpdate::Windows { captured_at_ms, .. } => captured_at_ms,
        StateUpdate::Clipboard { captured_at_ms, .. } => captured_at_ms,
        StateUpdate::Actions { .. } => wall_ms,
        StateUpdate::Notifications { .. } => wall_ms,
    }
}

/// True when an event tells a state.
pub open spec fn tells(data: EventData, update: StateUpdate) -> bool {
    match update {
        StateUpdate::System { snapshot, .. } => {
            &&& data is System
            &&& crate::snapshots::shows_system(data->System_0, snapshot)
        },
        StateUpdate::Media { state, .. } => {
            &&& data is Media
            &&& crate::snapshots::shows_media(data->Media_0, state)
        },
        StateUpdate::Windows { windows, spaces, .. } => {
            &&& data is Windows
            &&& crate::query_handler::shows_windows(
                data->Windows_windows@,
                windows@,
                Seq::new(crate::snapshots::kept_windows(windows@).len(), |i: int| None),
            )
            &&& crate::query_handler::shows_spaces(data->Windows_spaces@, spaces@)
        },
        StateUpdate::Clipboard { history, policy, .. } => {
            &&& data is Clipboard
            &&& crate::query_handler::shows_clipboard(
                data->Clipboard_0,
                history@,
                policy,
                None,
                Seq::empty(),
            )
        },
        StateUpdate::Actions { actions, automations } => {
            &&& data is Actions
            &&& crate::query_handler::shows_actions(
                data->Actions_actions@,
                data->Actions_automations@,
                actions@,
                automations@,
            )
        },
        StateUpdate::Notifications { notifications } => {
            &&& data is Notifications
            &&& data->Notifications_notifications@.len() == notifications@.len()
            &&& forall|i: int|
                0 <= i < notifications@.len() ==> crate::snapshots::shows_notification(
                    #[trigger] data->Notifications_notifications@[i],
                    notifications@[i],
                )
        },
    }
}

/// Shows a state, with the time from which it is.
pub fn show_update(update: StateUpdate, wall_ms: i64) -> (r: (i64, EventData))
    ensures
        r.0 == captured_at(update, wall_ms),
        tells(r.1, update),
{
    match update {
        StateUpdate::System { captured_at_ms, snapshot } => (
            captured_at_ms,
            EventData::System(build_system_snapshot(snapshot)),
        ),
        StateUpdate::Media { captured_at_ms, state } => (
            captured_at_ms,
            EventData::Media(build_media_snapshot(state)),
        ),
        StateUpdate::Windows { captured_at_ms, windows, spaces } => (
            captured_at_ms,
            EventData::Windows {
                windows: build_window_list(windows),
                spaces: build_space_list(spaces),
            },
        ),
        StateUpdate::Clipboard { captured_at_ms, history, policy } => {
            let snapshot = build_clipboard_snapshot(history, policy, None, true).unwrap();
            assert(snapshot.labels@ =~= crate::proto_msg::wire_labels(Seq::empty()));
            (captured_at_ms, EventData::Clipboard(snapshot))
        },
        StateUpdate::Actions { actions, automations } => (
            wall_ms,
            EventData::Actions {
                actions: build_actions(actions),
                automations: build_automations(automations),
            },
        ),
        StateUpdate::Notifications { notifications } => (
            wall_ms,
            EventData::Notifications { notifications: build_notifications(notifications) },
        ),
    }
}

/// What the host is asked when its notifications are to be told: the last ones
/// that were not read.
pub fn notification_question() -> (r: HostQuestion)
    ensures
        r == (HostQuestion::Notifications { include_read: false, limit: 100 }),
{
    HostQuestion::Notifications { include_read: false, limit: MAX_EVENT_NOTIFICATIONS }
}

/// What is done with an event before it is sent.
#[derive(Debug)]
pub enum EventStep {
    /// It is sent.
    Send(Event),
    /// Its frame is too large; it is tried without its oldest entry.
    Shorten(Event),
    /// It cannot be sent.
    Skip,
}

/// The clipboard history without its oldest entry.
pub open spec fn shortened(r: ClipboardSnapshot, snapshot: ClipboardSnapshot) -> bool {
    &&& r.history@ == snapshot.history@.drop_last()
    &&& r.next_cursor_timestamp_ms == snapshot.next_cursor_timestamp_ms
    &&& r.next_cursor_id == snapshot.next_cursor_id
    &&& r.policy == snapshot.policy
    &&& r.labels == snapshot.labels
}

/// Decides what is done with an event whose frame has this size: the clipboard
/// history is shortened until it fits.
pub fn fit_event(event: Event, encoded_len: usize, maximum: usize) -> (r: EventStep)
    ensures
        if encoded_len <= maximum || !(event.data is Clipboard) {
            r == EventStep::Send(event)
        } else if event.data->Clipboard_0.history@.len() == 0 {
            r is Skip
        } else {
            &&& r is Shorten
            &&& r->Shorten_0.subscription_id == event.subscription_id
            &&& r->Shorten_0.sequence == event.sequence
            &&& r->Shorten_0.captured_at_ms == event.captured_at_ms
            &&& r->Shorten_0.data is Clipboard
            &&& shortened(r->Shorten_0.data->Clipboard_0, event.data->Clipboard_0)
        },
{
    if encoded_len <= maximum {
        return EventStep::Send(event);
    }
    let Event { subscription_id, sequence, captured_at_ms, data } = event;
    match data {
        EventData::Clipboard(snapshot) => {
            let mut snapshot = snapshot;
            if snapshot.history.len() == 0 {
                return EventStep::Skip;
            }
            snapshot.history.pop();
            let data = EventData::Clipboard(snapshot);
            EventStep::Shorten(Event { subscription_id, sequence, captured_at_ms, data })
        },
        data => EventStep::Send(Event { subscription_id, sequence, captured_at_ms, data }),
    }
}

/// What a client misses when an event could not be delivered.
pub open spec fn lost_of(event: Event) -> LostEvent {
    match event.data {
        EventData::Gap(gap) => LostEvent::Gap(gap),
        EventData::ActionOutput { action_id, .. } => LostEvent::ActionOutput { action_id },
        _ => LostEvent::Other,
    }
}

/// What is left of the output of an action when it is told: the line, or in its
/// place what is missing.
pub open spec fn tells_output(
    data: EventData,
    told: crate::subscriptions::ActionEventView,
) -> bool {
    match told {
        crate::subscriptions::ActionEventView::Gap { gap } => data is Gap && data->Gap_0@ == gap,
        crate::subscriptions::ActionEventView::Output { action_id, line } => {
            &&& data is ActionOutput
            &&& data->ActionOutput_action_id@ == action_id
            &&& crate::text::texts(data->ActionOutput_lines@) == seq![line]
        },
    }
}

fn topic_told(update: &StateUpdate) -> (r: SubscriptionTopic)
    ensures
        r == topic_of(*update),
{
    match update {
        StateUpdate::System { .. } => SubscriptionTopic::System,
        StateUpdate::Media { .. } => SubscriptionTopic::Media,
        StateUpdate::Windows { .. } => SubscriptionTopic::Windows,
        StateUpdate::Clipboard { .. } => SubscriptionTopic::Clipboard,
        StateUpdate::Actions { .. } => SubscriptionTopic::Actions,
        StateUpdate::Notifications { .. } => SubscriptionTopic::Notifications,
    }
}

impl Subscriptions {
    /// The next event of a subscription, if there is one to the topic and the
    /// state is what the topic is about. It counts only when it is sent.
    pub fn state_event(&self, topic: SubscriptionTopic, update: StateUpdate, wall_ms: i64) -> (r:
        Option<Event>)
        requires
            self.wf(),
        ensures
            r is Some <==> topic == topic_of(update) && self@.contains_key(topic),
            match r {
                Some(event) => {
                    let s = self@[topic];
                    &&& event.subscription_id == s.id
                    &&& event.sequence == crate::subscriptions::after(s.sequence)
                    &&& event.captured_at_ms == crate::queries::timestamp(
                        captured_at(update, wall_ms),
                        wall_ms,
                    )
                    &&& tells(event.data, update)
                },
                None => true,
            },
    {
        if topic_told(&update) != topic {
            return None;
        }
        match self.upcoming(topic) {
            None => None,
            Some((id, sequence)) => {
                let (captured_at_ms, data) = show_update(update, wall_ms);
                Some(event_frame(id, sequence, captured_at_ms, data, wall_ms))
            },
        }
    }

    /// The event that an action printed a line, if the client listens and the
    /// action has a proper name.
    pub fn output_event(&mut self, output: OutputLine, wall_ms: i64) -> (r: Option<Event>)
        requires
            old(self).wf(),
        ensures
            final(self).wf(),
            ({
                let topic = SubscriptionTopic::ActionOutput;
                let told = crate::subscriptions::output_told(
                    old(self)@[topic],
                    output.action_id@,
                    output.text@,
                );
                if !old(self)@.contains_key(topic) || !crate::access::control_identifier(
                    output.action_id@,
                ) {
                    r is None && final(self)@ == old(self)@
                } else {
                    &&& r is Some
                    &&& r->0.subscription_id == told.0.id
                    &&& r->0.sequence == told.0.sequence
                    &&& r->0.captured_at_ms == crate::queries::timestamp(wall_ms, wall_ms)
                    &&& tells_output(r->0.data, told.1)
                    &&& final(self)@ == old(self)@.insert(topic, told.0)
                }
            }),
    {
        if !self.contains(SubscriptionTopic::ActionOutput) {
            return None;
        }
        let numbered = match self.action_output(output) {
            None => {
                return None;
            },
            Some(numbered) => numbered,
        };
        let data = match numbered.event {
            ActionEvent::Gap(gap) => EventData::Gap(gap),
            ActionEvent::Output { action_id, line } => {
                let ghost text = line@;
                let mut lines: Vec<String> = Vec::new();
                lines.push(line);
                assert(crate::text::texts(lines@) =~= seq![text]);
                EventData::ActionOutput { action_id, lines }
            },
        };
        Some(event_frame(numbered.subscription_id, numbered.sequence, wall_ms, data, wall_ms))
    }

    /// The event that the clipboard has a new entry, if the client listens and
    /// the entry can be sent. The client becomes an owner of the blobs of the
    /// entry.
    pub fn clipboard_sync_event(
        &mut self,
        record: domain::ClipboardSyncRecord,
        store: &mut BlobStore,
        owner: &[u8],
        wall_ms: i64,
        now: u64,
    ) -> (r: Option<Event>)
        requires
            old(self).wf(),
            old(store).wf(),
            now + crate::blob_store::BLOB_IDLE_TTL_MS <= u64::MAX,
        ensures
            final(self).wf(),
            final(store).wf(),
            ({
                let topic = SubscriptionTopic::ClipboardSync;
                let s = old(self)@[topic];
                let sent = crate::query_handler::sync_step(record, old(store)@, owner@, now);
                if !old(self)@.contains_key(topic) {
                    r is None && final(self)@ == old(self)@ && final(store)@ == old(store)@
                } else if sent.1 is Some {
                    r is None && final(self)@ == old(self)@ && final(store)@ == sent.0
                } else {
                    &&& r is Some
                    &&& r->0.subscription_id == s.id
                    &&& r->0.sequence == crate::subscriptions::after(s.sequence)
                    &&& r->0.captured_at_ms == crate::queries::timestamp(wall_ms, wall_ms)
                    &&& r->0.data is ClipboardSync
                    &&& crate::query_handler::shows_sync_record(
                        r->0.data->ClipboardSync_0,
                        record,
                        old(store)@,
                        owner@,
                        wall_ms,
                        now,
                    )
                    &&& final(store)@ == sent.0
                    &&& final(self)@ == old(self)@.insert(
                        topic,
                        crate::subscriptions::SubscriptionView {
                            sequence: crate::subscriptions::after(s.sequence),
                            ..s
                        },
                    )
                }
            }),
    {
        if !self.contains(SubscriptionTopic::ClipboardSync) {
            return None;
        }
        match sync_record_to_proto(record, store, owner, wall_ms, now) {
            Err(_) => None,
            Ok(record) => {
                let (id, sequence) = self.next_event(SubscriptionTopic::ClipboardSync);
                Some(
                    event_frame(id, sequence, wall_ms, EventData::ClipboardSync(record), wall_ms),
                )
            },
        }
    }

    /// An event of a subscription could not be delivered: its frame was too
    /// large or too many events waited.
    pub fn event_dropped(&mut self, topic: SubscriptionTopic, event: Event)
        requires
            old(self).wf(),
        ensures
            final(self).wf(),
            if old(self)@.contains_key(topic) {
                let s = old(self)@[topic];
                final(self)@ == old(self)@.insert(
                    topic,
                    crate::subscriptions::SubscriptionView {
                        gap: crate::subscriptions::gap_with_lost(
                            s.gap,
                            event.sequence,
                            lost_of(event),
                        ),
                        ..s
                    },
                )
            } else {
                final(self)@ == old(self)@
            },
    {
        if !self.contains(topic) {
            return;
        }
        let lost = match event.data {
            EventData::Gap(gap) => LostEvent::Gap(gap),
            EventData::ActionOutput { action_id, .. } => LostEvent::ActionOutput { action_id },
            _ => LostEvent::Other,
        };
        self.event_lost(topic, event.sequence, lost);
    }

    /// The event that tells what the client has missed of the output of actions,
    /// if it has missed anything.
    pub fn gap_event(&mut self, wall_ms: i64) -> (r: Option<Event>)
        requires
            old(self).wf(),
        ensures
            final(self).wf(),
            ({
                let topic = SubscriptionTopic::ActionOutput;
                let s = old(self)@[topic];
                let sequence = crate::subscriptions::after(s.sequence);
                if !old(self)@.contains_key(topic) || s.gap.first_missing is None {
                    r is None && final(self)@ == old(self)@
                } else {
                    &&& r is Some
                    &&& r->0.subscription_id == s.id
                    &&& r->0.sequence == sequence
                    &&& r->0.captured_at_ms == crate::queries::timestamp(wall_ms, wall_ms)
                    &&& r->0.data is Gap
                    &&& r->0.data->Gap_0@ == (crate::subscriptions::EventGapView {
                        first_missing_sequence: s.gap.first_missing->0,
                        next_available_sequence: crate::subscriptions::after(sequence),
                        resync_required: true,
                        resource_ids: crate::subscriptions::told_resources(s.gap),
                    })
                    &&& final(self)@ == old(self)@.insert(
                        topic,
                        crate::subscriptions::SubscriptionView {
                            sequence,
                            gap: crate::subscriptions::no_gap(),
                            ..s
                        },
                    )
                }
            }),
    {
        match self.flush_action_gap() {
            None => None,
            Some(numbered) => Some(
                event_frame(
                    numbered.subscription_id,
                    numbered.sequence,
                    wall_ms,
                    EventData::Gap(numbered.event),
                    wall_ms,
                ),
            ),
        }
    }
}

/// The events of a subscription are numbered one after the other, as far as
/// there are numbers.
pub proof fn lemma_numbers_rise(
    s: crate::subscriptions::SubscriptionView,
    action_id: Seq<char>,
    text: Seq<char>,
)
    ensures
        s.sequence < u64::MAX ==> crate::subscriptions::after(s.sequence) == s.sequence + 1,
        s.sequence <= crate::subscriptions::after(s.sequence),
        crate::subscriptions::output_told(s, action_id, text).0.sequence
            == crate::subscriptions::after(s.sequence),
        crate::subscriptions::output_told(s, action_id, text).0.id == s.id,
{
}

/// When a line that an action printed could not be delivered, the next event
/// tells so: it is a gap that begins no later than the missing line, and the
/// client is to read again the output of the action and that of the one whose
/// line the gap replaces, or everything.
pub proof fn lemma_dropped_output_is_told(
    s: crate::subscriptions::SubscriptionView,
    event: Event,
    action_id: Seq<char>,
    text: Seq<char>,
)
    requires
        event.data is ActionOutput,
        s.gap.first_missing is Some ==> s.gap.first_missing->0 <= event.sequence,
    ensures
        ({
            let dropped = crate::subscriptions::SubscriptionView {
                gap: crate::subscriptions::gap_with_lost(s.gap, event.sequence, lost_of(event)),
                ..s
            };
            let told = crate::subscriptions::output_told(dropped, action_id, text).1;
            &&& told is Gap
            &&& told->gap.first_missing_sequence <= event.sequence
            &&& told->gap.resync_required
            &&& told->gap.resource_ids.len() == 0 || {
                &&& told->gap.resource_ids.contains(event.data->ActionOutput_action_id@)
                &&& told->gap.resource_ids.contains(action_id)
            }
        }),
{
    let resource = event.data->ActionOutput_action_id@;
    let gap = crate::subscriptions::gap_with_resource(s.gap, event.sequence, resource);
    crate::subscriptions::lemma_gap_tells_resource(s.gap, event.sequence, resource);
    let sequence = crate::subscriptions::after(s.sequence);
    crate::subscriptions::lemma_gap_tells_resource(gap, sequence, action_id);
    assert(crate::subscriptions::gap_with_lost(s.gap, event.sequence, lost_of(event)) == gap);
    if crate::subscriptions::told_resources(gap).len() == 0 {
        assert(gap.resync_all);
    }
}

/// A state is told under its own topic, as an event of its own kind, with the time
/// that it is from where it tells one.
pub proof fn lemma_states_are_told_under_their_topic(
    data: EventData,
    update: StateUpdate,
    wall_ms: i64,
)
    ensures
        topic_of(update) is System <==> update is System,
        topic_of(update) is Media <==> update is Media,
        topic_of(update) is Windows <==> update is Windows,
        topic_of(update) is Clipboard <==> update is Clipboard,
        topic_of(update) is Actions <==> update is Actions,
        topic_of(update) is Notifications <==> update is Notifications,
        tells(data, update) ==> {
            &&& data is System <==> update is System
            &&& data is Media <==> update is Media
            &&& data is Windows <==> update is Windows
            &&& data is Clipboard <==> update is Clipboard
            &&& data is Actions <==> update is Actions
            &&& data is Notifications <==> update is Notifications
        },
        update is System ==> captured_at(update, wall_ms) == update->System_captured_at_ms,
        update is Media ==> captured_at(update, wall_ms) == update->Media_captured_at_ms,
        update is Windows ==> captured_at(update, wall_ms) == update->Windows_captured_at_ms,
        update is Clipboard ==> captured_at(update, wall_ms) == update->Clipboard_captured_at_ms,
        update is Actions || update is Notifications ==> captured_at(update, wall_ms) == wall_ms,
{
}

/// What is told of a state is the state: the media player as it plays, the windows
/// without thumbnails, and every notification.
pub proof fn lemma_states_are_told_as_they_are(data: EventData, update: StateUpdate)
    requires
        tells(data, update),
    ensures
        update is Media ==> {
            &&& data->Media_0.microphone_active == update->state.microphone_active
            &&& data->Media_0.dnd_active == update->state.dnd_active
            &&& data->Media_0.playback is Some <==> update->state.playback is Some
            &&& data->Media_0.volume is Some
            &&& data->Media_0.volume->0.is_muted == update->state.volume.is_muted
        },
        update is Windows ==> forall|i: int|
            0 <= i < data->Windows_windows@.len() ==> (
            #[trigger] data->Windows_windows@[i]).thumbnail is None,
        update is Clipboard ==> data->Clipboard_0.next_cursor_id is None
            && data->Clipboard_0.policy is Some && data->Clipboard_0.policy->0.history_enabled
            == update->policy.history_enabled,
        update is Notifications ==> data->Notifications_notifications@.len()
            == update->notifications@.len(),
{
}

/// What is lost is lost as what it was: a gap with all that it held, output with the
/// action that it is of, and anything else without a name.
pub proof fn lemma_losses_are_named(event: Event)
    ensures
        event.data is Gap ==> lost_of(event) is Gap && lost_of(event)->Gap_0 == event.data->Gap_0,
        event.data is ActionOutput ==> lost_of(event) is ActionOutput
            && lost_of(event)->ActionOutput_action_id@ == event.data->ActionOutput_action_id@,
        !(event.data is Gap) && !(event.data is ActionOutput) ==> lost_of(event) is Other,
{
}

/// A history that is too long to be sent loses its oldest entry alone.
pub proof fn lemma_histories_lose_their_oldest_entry(
    r: ClipboardSnapshot,
    snapshot: ClipboardSnapshot,
)
    requires
        shortened(r, snapshot),
        snapshot.history@.len() > 0,
    ensures
        r.history@.len() == snapshot.history@.len() - 1,
        forall|i: int| 0 <= i < r.history@.len() ==> #[trigger] r.history@[i]
            == snapshot.history@[i],
        r.next_cursor_timestamp_ms == snapshot.next_cursor_timestamp_ms,
        r.next_cursor_id == snapshot.next_cursor_id,
        r.policy == snapshot.policy,
        r.labels == snapshot.labels,
{
}

/// A line of output is told with its action, alone and as it is, and a gap as a gap.
pub proof fn lemma_output_is_told_as_it_is(
    data: EventData,
    told: crate::subscriptions::ActionEventView,
)
    requires
        tells_output(data, told),
    ensures
        told is Gap <==> data is Gap,
        told is Output <==> data is ActionOutput,
        told is Gap ==> data->Gap_0@ == told->gap,
        told is Output ==> data->ActionOutput_action_id@ == told->action_id
            && data->ActionOutput_lines@.len() == 1 && data->ActionOutput_lines@[0]@ == told->line,
{
    if told is Output {
        assert(crate::text::texts(data->ActionOutput_lines@).len() == 1);
        assert(crate::text::texts(data->ActionOutput_lines@)[0] == told->line);
    }
}

} // verus!
