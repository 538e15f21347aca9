//! Subscriptions of a client to the host's state: which ones it may have, the
//! numbers of their events, and what it is told when events were lost.

use vstd::prelude::*;
use vstd::string::*;

use crate::access::valid_control_identifier;
use crate::commands::MAX_ACTION_OUTPUT_LINE_BYTES;
use crate::features::{Feature, SelectedFeatures};
use crate::host::OutputLine;
use crate::keyed::lemma_distinct_places;
use crate::outside::random_u64;
use crate::peer::{has_capability, PeerCapability};
use crate::status::{ok_status, status, ErrorCode, Status};
use crate::text::{byte_len, holds_text, insert_text, truncate_utf8};

verus! {

/// The most resources that a gap names one by one.
pub const MAX_ACTION_GAP_RESOURCE_IDS: usize = 1024;

/// The most bytes that the names of a gap's resources take.
pub const MAX_ACTION_GAP_RESOURCE_BYTES: usize = 262_144;

/// What a client can subscribe to; unspecified also stands for a topic that is
/// not known.
#[derive(Debug, Clone, Copy, PartialEq, Eq, Structural)]
pub enum SubscriptionTopic {
    Unspecified,
    System,
    Media,
    Windows,
    Clipboard,
    Actions,
    ActionOutput,
    Notifications,
    ClipboardSync,
}

/// The feature that a topic belongs to.
pub open spec fn topic_feature(topic: SubscriptionTopic) -> Feature {
    match topic {
        SubscriptionTopic::Unspecified => Feature::Unspecified,
        SubscriptionTopic::System => Feature::System,
        SubscriptionTopic::Media => Feature::Media,
        SubscriptionTopic::Windows => Feature::Windows,
        SubscriptionTopic::Clipboard => Feature::Clipboard,
        SubscriptionTopic::Actions | SubscriptionTopic::ActionOutput => Feature::Actions,
        SubscriptionTopic::Notifications => Feature::Notifications,
        SubscriptionTopic::ClipboardSync => Feature::ClipboardSync,
    }
}

/// The capability that a topic needs.
pub open spec fn topic_capability(topic: SubscriptionTopic) -> PeerCapability {
    match topic {
        SubscriptionTopic::Unspecified | SubscriptionTopic::System => PeerCapability::SystemRead,
        SubscriptionTopic::Media => PeerCapability::MediaRead,
        SubscriptionTopic::Windows => PeerCapability::WindowRead,
        SubscriptionTopic::Clipboard => PeerCapability::ClipboardRead,
        SubscriptionTopic::Actions | SubscriptionTopic::ActionOutput => PeerCapability::ActionRead,
        SubscriptionTopic::Notifications => PeerCapability::NotificationRead,
        SubscriptionTopic::ClipboardSync => PeerCapability::ClipboardSync,
    }
}

/// What is answered when the source of a topic is missing, for the topics that
/// have one of their own.
pub open spec fn source_missing(topic: SubscriptionTopic) -> Option<Seq<char>> {
    match topic {
        SubscriptionTopic::ActionOutput => Some("action output subscription is unavailable"@),
        SubscriptionTopic::Notifications => Some("notification subscription is unavailable"@),
        SubscriptionTopic::ClipboardSync => Some("clipboard sync subscription is unavailable"@),
        _ => None,
    }
}

/// Why a subscription is refused, if so.
pub open spec fn subscription_denial(
    topic: SubscriptionTopic,
    features: Map<Feature, u32>,
    capabilities: Seq<PeerCapability>,
    source_available: bool,
) -> Option<crate::access::FailureView> {
    if topic == SubscriptionTopic::Unspecified {
        Some(
            crate::access::FailureView {
                code: ErrorCode::InvalidArgument,
                message: "invalid subscription topic"@,
            },
        )
    } else if !features.contains_key(Feature::Subscriptions) || !features.contains_key(
        topic_feature(topic),
    ) {
        Some(
            crate::access::FailureView {
                code: ErrorCode::Unsupported,
                message: "subscription feature was not negotiated"@,
            },
        )
    } else if !capabilities.contains(topic_capability(topic)) {
        Some(
            crate::access::FailureView {
                code: ErrorCode::PermissionDenied,
                message: "subscription capability was not granted"@,
            },
        )
    } else if source_missing(topic) is Some && !source_available {
        Some(
            crate::access::FailureView {
                code: ErrorCode::Unavailable,
                message: source_missing(topic)->0,
            },
        )
    } else {
        None
    }
}

/// A topic is told only with the feature of subscriptions, the feature that the
/// topic belongs to and the capability that it needs.
pub proof fn lemma_subscriptions_need_access(
    topic: SubscriptionTopic,
    features: Map<Feature, u32>,
    capabilities: Seq<PeerCapability>,
    source_available: bool,
)
    requires
        subscription_denial(topic, features, capabilities, source_available) is None,
    ensures
        features.contains_key(Feature::Subscriptions),
        features.contains_key(topic_feature(topic)),
        capabilities.contains(topic_capability(topic)),
{
}

/// Events that a client has missed.
pub struct ActionGap {
    first_missing_sequence: Option<u64>,
    resource_ids: Vec<String>,
    resource_bytes: usize,
    resync_all: bool,
}

/// An [`ActionGap`] as a mathematical value: the resources stand in order.
pub struct GapView {
    pub first_missing: Option<u64>,
    pub resources: Seq<Seq<char>>,
    pub resync_all: bool,
}

/// No gap.
pub open spec fn no_gap() -> GapView {
    GapView { first_missing: None, resources: Seq::empty(), resync_all: false }
}

/// The gap with a missing event in it.
pub open spec fn gap_with_sequence(g: GapView, sequence: u64) -> GapView {
    GapView {
        first_missing: if g.first_missing is Some {
            g.first_missing
        } else {
            Some(sequence)
        },
        ..g
    }
}

/// The gap when the client has to read everything again.
pub open spec fn gap_of_everything(g: GapView) -> GapView {
    GapView { resources: Seq::empty(), resync_all: true, ..g }
}

/// The gap with a missing event about a resource in it. When the resources
/// become too many, the client has to read everything again.
pub open spec fn gap_with_resource(g: GapView, sequence: u64, resource: Seq<char>) -> GapView {
    let h = gap_with_sequence(g, sequence);
    if g.resync_all || g.resources.contains(resource) {
        h
    } else if resource.len() == 0 || g.resources.len() >= MAX_ACTION_GAP_RESOURCE_IDS
        || crate::text::texts_bytes(g.resources) + crate::text::utf8_len(resource)
        > MAX_ACTION_GAP_RESOURCE_BYTES {
        gap_of_everything(h)
    } else {
        GapView { resources: crate::text::with_text(g.resources, resource), ..h }
    }
}

/// The gap with missing events about several resources in it.
pub open spec fn gap_with_resources(
    g: GapView,
    sequence: u64,
    resources: Seq<Seq<char>>,
) -> GapView
    decreases resources.len(),
{
    if resources.len() == 0 {
        g
    } else {
        gap_with_resource(
            gap_with_resources(g, sequence, resources.drop_last()),
            sequence,
            resources.last(),
        )
    }
}

/// The gap with another one in it that could not be delivered.
pub open spec fn gap_with_gap(g: GapView, sequence: u64, resources: Seq<Seq<char>>) -> GapView {
    let h = gap_with_sequence(g, sequence);
    if resources.len() == 0 {
        gap_of_everything(h)
    } else {
        gap_with_resources(h, sequence, resources)
    }
}

/// The resources that a client is told to read again; none means everything.
pub open spec fn told_resources(g: GapView) -> Seq<Seq<char>> {
    if g.resync_all {
        Seq::empty()
    } else {
        g.resources
    }
}

/// A resource whose event went missing is told to the client, by name or with
/// everything else.
pub proof fn lemma_gap_tells_resource(g: GapView, sequence: u64, resource: Seq<char>)
    ensures
        ({
            let h = gap_with_resource(g, sequence, resource);
            &&& h.first_missing is Some
            &&& told_resources(h).len() == 0 || told_resources(h).contains(resource)
            &&& told_resources(g).len() > 0 ==> told_resources(h).len() == 0 || forall|x: Seq<char>|
             #[trigger] told_resources(g).contains(x) ==> told_resources(h).contains(x)
        }),
{
    crate::text::lemma_with_text(g.resources, resource);
}

/// A gap as it is told to the client.
#[derive(Debug, Clone, PartialEq, Eq)]
pub struct EventGap {
    pub first_missing_sequence: u64,
    pub next_available_sequence: u64,
    pub resync_required: bool,
    pub resource_ids: Vec<String>,
}

/// A gap as it is told, as a mathematical value.
pub struct EventGapView {
    pub first_missing_sequence: u64,
    pub next_available_sequence: u64,
    pub resync_required: bool,
    pub resource_ids: Seq<Seq<char>>,
}

impl View for EventGap {
    type V = EventGapView;

    open spec fn view(&self) -> EventGapView {
        EventGapView {
            first_missing_sequence: self.first_missing_sequence,
            next_available_sequence: self.next_available_sequence,
            resync_required: self.resync_required,
            resource_ids: crate::text::texts(self.resource_ids@),
        }
    }
}

impl ActionGap {
    /// True when the resources are in order, counted, and within their limits.
    pub closed spec fn wf(&self) -> bool {
        &&& crate::text::sorted_texts(crate::text::texts(self.resource_ids@))
        &&& self.resource_bytes == crate::text::texts_bytes(crate::text::texts(self.resource_ids@))
        &&& self.resource_bytes <= MAX_ACTION_GAP_RESOURCE_BYTES
        &&& self.resource_ids@.len() <= MAX_ACTION_GAP_RESOURCE_IDS
    }

    pub closed spec fn view(&self) -> GapView {
        GapView {
            first_missing: self.first_missing_sequence,
            resources: crate::text::texts(self.resource_ids@),
            resync_all: self.resync_all,
        }
    }

    /// What holds of every gap.
    pub proof fn lemma_valid(&self)
        requires
            self.wf(),
        ensures
            crate::text::sorted_texts(self@.resources),
            self@.resources.len() <= MAX_ACTION_GAP_RESOURCE_IDS,
            crate::text::texts_bytes(self@.resources) <= MAX_ACTION_GAP_RESOURCE_BYTES,
    {
    }

    /// No gap.
    pub fn new() -> (r: ActionGap)
        ensures
            r.wf(),
            r@ == no_gap(),
    {
        let r = ActionGap {
            first_missing_sequence: None,
            resource_ids: Vec::new(),
            resource_bytes: 0,
            resync_all: false,
        };
        assert(crate::text::texts(r.resource_ids@) =~= Seq::<Seq<char>>::empty());
        r
    }

    /// The first event that is missing.
    pub fn first_missing(&self) -> (r: Option<u64>)
        ensures
            r == self@.first_missing,
    {
        self.first_missing_sequence
    }

    /// Remembers a missing event.
    pub fn remember_sequence(&mut self, sequence: u64)
        requires
            old(self).wf(),
        ensures
            final(self).wf(),
            final(self)@ == gap_with_sequence(old(self)@, sequence),
    {
        if self.first_missing_sequence.is_none() {
            self.first_missing_sequence = Some(sequence);
        }
    }

    /// Remembers that everything has to be read again, and forgets the
    /// resources.
    fn remember_everything(&mut self)
        requires
            old(self).wf(),
        ensures
            final(self).wf(),
            final(self)@ == gap_of_everything(old(self)@),
    {
        self.resource_ids = Vec::new();
        self.resource_bytes = 0;
        self.resync_all = true;
        assert(crate::text::texts(self.resource_ids@) =~= Seq::<Seq<char>>::empty());
    }

    /// Remembers a missing event that says nothing of its resource.
    pub fn remember_unknown(&mut self, sequence: u64)
        requires
            old(self).wf(),
        ensures
            final(self).wf(),
            final(self)@ == (GapView {
                resync_all: true,
                ..gap_with_sequence(old(self)@, sequence)
            }),
    {
        self.remember_sequence(sequence);
        self.resync_all = true;
    }

    /// Remembers a missing event about a resource.
    pub fn remember_resource(&mut self, sequence: u64, resource_id: String)
        requires
            old(self).wf(),
        ensures
            final(self).wf(),
            final(self)@ == gap_with_resource(old(self)@, sequence, resource_id@),
    {
        self.remember_sequence(sequence);
        if self.resync_all || holds_text(&self.resource_ids, resource_id.as_str()) {
            return;
        }
        let size: usize = byte_len(resource_id.as_str());
        if resource_id.as_str().is_empty() || self.resource_ids.len()
            >= MAX_ACTION_GAP_RESOURCE_IDS || size > MAX_ACTION_GAP_RESOURCE_BYTES
            - self.resource_bytes {
            self.remember_everything();
            return;
        }
        proof {
            crate::text::lemma_with_text(
                crate::text::texts(self.resource_ids@),
                resource_id@,
            );
        }
        self.resource_bytes = self.resource_bytes + size;
        insert_text(&mut self.resource_ids, resource_id);
        assert(crate::text::texts(self.resource_ids@).len() == self.resource_ids@.len());
    }

    /// Remembers a gap that could not be delivered.
    pub fn remember_gap(&mut self, gap: EventGap)
        requires
            old(self).wf(),
        ensures
            final(self).wf(),
            final(self)@ == gap_with_gap(
                old(self)@,
                gap.first_missing_sequence,
                gap@.resource_ids,
            ),
    {
        let sequence: u64 = gap.first_missing_sequence;
        self.remember_sequence(sequence);
        assert(gap@.resource_ids.len() == gap.resource_ids@.len());
        if gap.resource_ids.len() == 0 {
            self.remember_everything();
            return;
        }
        let ghost all = crate::text::texts(gap.resource_ids@);
        let ghost list = gap.resource_ids@;
        let ghost before = self@;
        for resource_id in it: gap.resource_ids.into_iter()
            invariant
                self.wf(),
                it.seq() == list,
                all == crate::text::texts(list),
                self@ == gap_with_resources(before, sequence, all.take(it.index())),
        {
            proof {
                let n = it.index();
                assert(all.take(n + 1).drop_last() =~= all.take(n));
                assert(all.take(n + 1).last() == list[n]@);
            }
            self.remember_resource(sequence, resource_id);
        }
        assert(all.take(all.len() as int) =~= all);
    }

    /// Hands out the resources that the client has to read again, in order, and
    /// forgets them.
    pub fn take_resource_ids(&mut self) -> (r: Vec<String>)
        requires
            old(self).wf(),
        ensures
            final(self).wf(),
            final(self)@ == (GapView {
                resources: Seq::empty(),
                resync_all: false,
                ..old(self)@
            }),
            crate::text::texts(r@) == told_resources(old(self)@),
    {
        let mut taken: Vec<String> = Vec::new();
        std::mem::swap(&mut taken, &mut self.resource_ids);
        let told = if self.resync_all {
            Vec::new()
        } else {
            taken
        };
        self.resource_bytes = 0;
        self.resync_all = false;
        assert(crate::text::texts(self.resource_ids@) =~= Seq::<Seq<char>>::empty());
        assert(crate::text::texts(told@) =~= told_resources(old(self)@));
        told
    }

    /// Hands out the whole gap, if there is one, where `sequence` is the number
    /// of the event that tells it.
    pub fn take_gap(&mut self, sequence: u64) -> (r: Option<EventGap>)
        requires
            old(self).wf(),
        ensures
            final(self).wf(),
            match old(self)@.first_missing {
                None => r is None && final(self)@ == old(self)@,
                Some(first) => {
                    &&& r is Some
                    &&& r->0@ == (EventGapView {
                        first_missing_sequence: first,
                        next_available_sequence: after(sequence),
                        resync_required: true,
                        resource_ids: told_resources(old(self)@),
                    })
                    &&& final(self)@ == no_gap()
                },
            },
    {
        match self.first_missing_sequence {
            None => None,
            Some(first) => {
                self.first_missing_sequence = None;
                let resource_ids = self.take_resource_ids();
                Some(
                    EventGap {
                        first_missing_sequence: first,
                        next_available_sequence: sequence.saturating_add(1),
                        resync_required: true,
                        resource_ids,
                    },
                )
            },
        }
    }
}

/// The number after a number, as long as there is one.
pub open spec fn after(sequence: u64) -> u64 {
    if sequence < u64::MAX {
        (sequence + 1) as u64
    } else {
        sequence
    }
}

/// One subscription: its identifier, the number of its last event and what the
/// client has missed.
pub struct Subscription {
    id: u64,
    sequence: u64,
    gap: ActionGap,
}

/// A [`Subscription`] as a mathematical value.
pub struct SubscriptionView {
    pub id: u64,
    pub sequence: u64,
    pub gap: GapView,
}

impl Subscription {
    pub closed spec fn wf(&self) -> bool {
        self.id != 0 && self.gap.wf()
    }

    pub closed spec fn view(&self) -> SubscriptionView {
        SubscriptionView { id: self.id, sequence: self.sequence, gap: self.gap@ }
    }
}

/// An event with the subscription that it belongs to and its number.
#[derive(Debug, PartialEq, Eq)]
pub struct NumberedEvent<T> {
    pub subscription_id: u64,
    pub sequence: u64,
    pub event: T,
}

/// What happened to an action, as the client is told.
#[derive(Debug, PartialEq, Eq)]
pub enum ActionEvent {
    /// Events are missing.
    Gap(EventGap),
    /// The action printed a line.
    Output { action_id: String, line: String },
}

/// An [`ActionEvent`] as a mathematical value.
pub enum ActionEventView {
    Gap { gap: EventGapView },
    Output { action_id: Seq<char>, line: Seq<char> },
}

impl View for ActionEvent {
    type V = ActionEventView;

    open spec fn view(&self) -> ActionEventView {
        match *self {
            ActionEvent::Gap(gap) => ActionEventView::Gap { gap: gap@ },
            ActionEvent::Output { action_id, line } => ActionEventView::Output {
                action_id: action_id@,
                line: line@,
            },
        }
    }
}

/// The subscription after a line was printed, and what the client is told: the
/// line, or in its place that events are missing, this one among them.
pub open spec fn output_told(
    s: SubscriptionView,
    action_id: Seq<char>,
    text: Seq<char>,
) -> (SubscriptionView, ActionEventView) {
    let sequence = after(s.sequence);
    match s.gap.first_missing {
        Some(first) => (
            SubscriptionView { sequence, gap: no_gap(), ..s },
            ActionEventView::Gap {
                gap: EventGapView {
                    first_missing_sequence: first,
                    next_available_sequence: after(sequence),
                    resync_required: true,
                    resource_ids: told_resources(gap_with_resource(s.gap, sequence, action_id)),
                },
            },
        ),
        None => (
            SubscriptionView { sequence, ..s },
            ActionEventView::Output {
                action_id,
                line: crate::text::truncated(text, MAX_ACTION_OUTPUT_LINE_BYTES as nat),
            },
        ),
    }
}

/// What an event that could not be delivered was about.
#[derive(Debug, PartialEq, Eq)]
pub enum LostEvent {
    Gap(EventGap),
    ActionOutput { action_id: String },
    Other,
}

/// The gap after an event was lost.
pub open spec fn gap_with_lost(g: GapView, sequence: u64, event: LostEvent) -> GapView {
    match event {
        LostEvent::Gap(gap) => gap_with_gap(g, gap.first_missing_sequence, gap@.resource_ids),
        LostEvent::ActionOutput { action_id } => gap_with_resource(g, sequence, action_id@),
        LostEvent::Other => GapView { resync_all: true, ..gap_with_sequence(g, sequence) },
    }
}

/// The answer to a wish to subscribe or to unsubscribe.
#[derive(Debug, PartialEq, Eq)]
pub struct SubscriptionResult {
    pub request_id: u64,
    pub status: Status,
    pub subscription_id: u64,
    pub topic: SubscriptionTopic,
    pub next_sequence: u64,
}

/// True when `r` refuses a request.
pub open spec fn refuses(
    r: SubscriptionResult,
    request_id: u64,
    subscription_id: u64,
    topic: SubscriptionTopic,
    failure: crate::access::FailureView,
) -> bool {
    &&& r.request_id == request_id
    &&& crate::status::reports(r.status@, failure.code, failure.message)
    &&& r.subscription_id == subscription_id
    &&& r.topic == topic
    &&& r.next_sequence == 0
}

/// Refuses a request.
pub fn refuse_subscription(
    request_id: u64,
    subscription_id: u64,
    topic: SubscriptionTopic,
    code: ErrorCode,
    message: &str,
) -> (r: SubscriptionResult)
    ensures
        refuses(
            r,
            request_id,
            subscription_id,
            topic,
            (crate::access::FailureView { code, message: message@ }),
        ),
{
    SubscriptionResult {
        request_id,
        status: status(code, message),
        subscription_id,
        topic,
        next_sequence: 0,
    }
}

/// The number that is made of a drawn one: its lower 63 bits, or one where these
/// are all zero.
pub fn nonzero_draw(drawn: u64) -> (r: u64)
    ensures
        r == if drawn % 0x8000_0000_0000_0000 == 0 {
            1
        } else {
            drawn % 0x8000_0000_0000_0000
        },
        0 < r <= i64::MAX,
{
    let value: u64 = drawn & 0x7fff_ffff_ffff_ffff;
    assert(drawn & 0x7fff_ffff_ffff_ffff == drawn % 0x8000_0000_0000_0000) by (bit_vector);
    if value == 0 {
        1
    } else {
        value
    }
}

/// A random number other than zero that fits in a signed number: what
/// [`nonzero_draw`] makes of a draw, of which nothing is known.
pub fn random_nonzero_u64() -> (r: u64)
    ensures
        0 < r <= i64::MAX,
{
    nonzero_draw(random_u64())
}

/// The place of a topic in a table of topics.
pub open spec fn topic_place(topic: SubscriptionTopic) -> nat {
    match topic {
        SubscriptionTopic::Unspecified => 0,
        SubscriptionTopic::System => 1,
        SubscriptionTopic::Media => 2,
        SubscriptionTopic::Windows => 3,
        SubscriptionTopic::Clipboard => 4,
        SubscriptionTopic::Actions => 5,
        SubscriptionTopic::ActionOutput => 6,
        SubscriptionTopic::Notifications => 7,
        SubscriptionTopic::ClipboardSync => 8,
    }
}

fn place_of(topic: SubscriptionTopic) -> (r: usize)
    ensures
        r == topic_place(topic),
{
    match topic {
        SubscriptionTopic::Unspecified => 0,
        SubscriptionTopic::System => 1,
        SubscriptionTopic::Media => 2,
        SubscriptionTopic::Windows => 3,
        SubscriptionTopic::Clipboard => 4,
        SubscriptionTopic::Actions => 5,
        SubscriptionTopic::ActionOutput => 6,
        SubscriptionTopic::Notifications => 7,
        SubscriptionTopic::ClipboardSync => 8,
    }
}

fn topic_at(place: usize) -> (r: SubscriptionTopic)
    requires
        place < 9,
    ensures
        topic_place(r) == place,
{
    if place == 0 {
        SubscriptionTopic::Unspecified
    } else if place == 1 {
        SubscriptionTopic::System
    } else if place == 2 {
        SubscriptionTopic::Media
    } else if place == 3 {
        SubscriptionTopic::Windows
    } else if place == 4 {
        SubscriptionTopic::Clipboard
    } else if place == 5 {
        SubscriptionTopic::Actions
    } else if place == 6 {
        SubscriptionTopic::ActionOutput
    } else if place == 7 {
        SubscriptionTopic::Notifications
    } else {
        SubscriptionTopic::ClipboardSync
    }
}

proof fn lemma_topic_place(a: SubscriptionTopic, b: SubscriptionTopic)
    requires
        topic_place(a) == topic_place(b),
    ensures
        a == b,
{
}

/// The subscriptions of one connection, at most one to each topic.
pub struct Subscriptions {
    slots: Vec<Option<Subscription>>,
}

/// True when no subscription has this identifier.
pub open spec fn unused(
    subscriptions: Map<SubscriptionTopic, SubscriptionView>,
    id: u64,
) -> bool {
    forall|topic: SubscriptionTopic| #[trigger]
        subscriptions.contains_key(topic) ==> subscriptions[topic].id != id
}

/// What holds of all subscriptions: each has an identifier of its own other than
/// zero.
pub open spec fn distinct_ids(subscriptions: Map<SubscriptionTopic, SubscriptionView>) -> bool {
    &&& forall|a: SubscriptionTopic, b: SubscriptionTopic|
        #[trigger] subscriptions.contains_key(a) && #[trigger] subscriptions.contains_key(b) && a
            != b ==> subscriptions[a].id != subscriptions[b].id
    &&& forall|a: SubscriptionTopic| #[trigger]
        subscriptions.contains_key(a) ==> subscriptions[a].id != 0
}

impl Subscriptions {
    /// True when there is a place for each topic and each subscription has an
    /// identifier of its own.
    pub closed spec fn wf(&self) -> bool {
        &&& self.slots@.len() == 9
        &&& self.slots@[0] is None
        &&& forall|i: int|
            0 <= i < 9 && (#[trigger] self.slots@[i]) is Some ==> self.slots@[i]->0.wf()
        &&& forall|i: int, j: int|
            0 <= i < j < 9 && (#[trigger] self.slots@[i]) is Some && (
            #[trigger] self.slots@[j]) is Some ==> self.slots@[i]->0.id != self.slots@[j]->0.id
    }

    pub closed spec fn view(&self) -> Map<SubscriptionTopic, SubscriptionView> {
        Map::new(
            |topic: SubscriptionTopic| self.slots@[topic_place(topic) as int] is Some,
            |topic: SubscriptionTopic| self.slots@[topic_place(topic) as int]->0@,
        )
    }

    /// What holds of all subscriptions of a connection.
    pub proof fn lemma_valid(&self)
        requires
            self.wf(),
        ensures
            distinct_ids(self@),
            !self@.contains_key(SubscriptionTopic::Unspecified),
    {
        assert forall|a: SubscriptionTopic, b: SubscriptionTopic|
            #[trigger] self@.contains_key(a) && #[trigger] self@.contains_key(b) && a
                != b implies self@[a].id != self@[b].id by {
            if topic_place(a) == topic_place(b) {
                lemma_topic_place(a, b);
            }
            let i = topic_place(a) as int;
            let j = topic_place(b) as int;
            assert(self.slots@[i] is Some && self.slots@[j] is Some);
        }
        assert forall|a: SubscriptionTopic| #[trigger] self@.contains_key(a) implies self@[a].id
            != 0 by {
            assert(self.slots@[topic_place(a) as int]->0.wf());
        }
    }

    /// No subscriptions.
    pub fn new() -> (r: Subscriptions)
        ensures
            r.wf(),
            r@ == Map::<SubscriptionTopic, SubscriptionView>::empty(),
    {
        let mut slots: Vec<Option<Subscription>> = Vec::new();
        let mut i: usize = 0;
        while i < 9
            invariant
                i <= 9,
                slots@.len() == i,
                forall|j: int| 0 <= j < i ==> (#[trigger] slots@[j]) is None,
            decreases 9 - i,
        {
            slots.push(None);
            i += 1;
        }
        let r = Subscriptions { slots };
        assert(r@ =~= Map::<SubscriptionTopic, SubscriptionView>::empty());
        r
    }

    fn id_at(&self, place: usize) -> (r: Option<u64>)
        requires
            self.wf(),
            place < 9,
        ensures
            r is Some == self.slots@[place as int] is Some,
            r is Some ==> r->0 == self.slots@[place as int]->0.id,
    {
        match &self.slots[place] {
            Some(subscription) => Some(subscription.id),
            None => None,
        }
    }

    fn find(&self, id: u64) -> (r: Option<usize>)
        requires
            self.wf(),
        ensures
            match r {
                Some(place) => place < 9 && self.slots@[place as int] is Some
                    && self.slots@[place as int]->0.id == id,
                None => forall|i: int|
                    0 <= i < 9 && (#[trigger] self.slots@[i]) is Some ==> self.slots@[i]->0.id
                        != id,
            },
    {
        let mut i: usize = 0;
        while i < 9
            invariant
                i <= 9,
                self.wf(),
                forall|j: int|
                    0 <= j < i && (#[trigger] self.slots@[j]) is Some ==> self.slots@[j]->0.id
                        != id,
            decreases 9 - i,
        {
            if let Some(other) = self.id_at(i) {
                if other == id {
                    return Some(i);
                }
            }
            i += 1;
        }
        None
    }

    /// Tells whether an identifier is free.
    pub fn is_unused(&self, id: u64) -> (r: bool)
        requires
            self.wf(),
        ensures
            r == unused(self@, id),
    {
        match self.find(id) {
            None => true,
            Some(place) => {
                let topic = topic_at(place);
                assert(self@.contains_key(topic));
                false
            },
        }
    }

    /// Subscribes to a topic under a given identifier. An earlier subscription
    /// to the topic ends.
    pub fn subscribe_with(&mut self, topic: SubscriptionTopic, id: u64)
        requires
            old(self).wf(),
            topic != SubscriptionTopic::Unspecified,
            id != 0,
            unused(old(self)@, id),
        ensures
            final(self).wf(),
            final(self)@ == old(self)@.insert(
                topic,
                SubscriptionView { id, sequence: 0, gap: no_gap() },
            ),
    {
        let ghost before = *self;
        let place: usize = place_of(topic);
        proof {
            if topic_place(topic) == topic_place(SubscriptionTopic::Unspecified) {
                lemma_topic_place(topic, SubscriptionTopic::Unspecified);
            }
            assert forall|i: int| 0 <= i < 9 && (#[trigger] self.slots@[i]) is Some implies
            self.slots@[i]->0.id != id by {
                self.lemma_topic_of(i);
            }
        }
        self.slots.set(place, Some(Subscription { id, sequence: 0, gap: ActionGap::new() }));
        proof {
            assert forall|other: SubscriptionTopic| other != topic implies #[trigger] topic_place(
                other,
            ) != place by {
                if topic_place(other) == place {
                    lemma_topic_place(other, topic);
                }
            }
            assert(self@ =~= before@.insert(
                topic,
                SubscriptionView { id, sequence: 0, gap: no_gap() },
            ));
        }
    }

    proof fn lemma_topic_of(&self, i: int)
        requires
            self.wf(),
            0 <= i < 9,
            self.slots@[i] is Some,
        ensures
            exists|topic: SubscriptionTopic|
                topic_place(topic) == i && #[trigger] self@.contains_key(topic) && self@[topic]
                    == self.slots@[i]->0@,
    {
        let topic = if i == 1 {
            SubscriptionTopic::System
        } else if i == 2 {
            SubscriptionTopic::Media
        } else if i == 3 {
            SubscriptionTopic::Windows
        } else if i == 4 {
            SubscriptionTopic::Clipboard
        } else if i == 5 {
            SubscriptionTopic::Actions
        } else if i == 6 {
            SubscriptionTopic::ActionOutput
        } else if i == 7 {
            SubscriptionTopic::Notifications
        } else {
            SubscriptionTopic::ClipboardSync
        };
        assert(self@.contains_key(topic));
    }

    fn fresh_id(&self) -> (r: u64)
        requires
            self.wf(),
        ensures
            r != 0,
            unused(self@, r),
    {
        let mut candidate: u64 = random_nonzero_u64();
        let mut attempts: u64 = u64::MAX;
        while attempts > 0 && !self.is_unused(candidate)
            invariant
                self.wf(),
                candidate != 0,
            decreases attempts,
        {
            candidate = random_nonzero_u64();
            attempts -= 1;
        }
        if self.is_unused(candidate) {
            return candidate;
        }
        // There is one place for each topic, so one of as many identifiers and one
        // more is free.
        let mut free: u64 = 1;
        let ghost mut taken: Seq<int> = Seq::empty();
        while !self.is_unused(free)
            invariant
                self.wf(),
                1 <= free <= self.slots@.len() + 1,
                taken.len() == free - 1,
                forall|k: int|
                    0 <= k < taken.len() ==> {
                        &&& 0 <= #[trigger] taken[k] < self.slots@.len()
                        &&& self.slots@[taken[k]] is Some
                        &&& self.slots@[taken[k]]->0.id == k + 1
                    },
            decreases self.slots@.len() + 1 - free,
        {
            proof {
                let topic = choose|topic: SubscriptionTopic| #[trigger]
                    self@.contains_key(topic) && self@[topic].id == free;
                taken = taken.push(topic_place(topic) as int);
                lemma_distinct_places(taken, self.slots@.len());
            }
            free += 1;
        }
        free
    }

    /// Subscribes to a topic if the client may, where `source_available` tells
    /// whether the host has a source for a topic that needs one of its own.
    pub fn subscribe(
        &mut self,
        request_id: u64,
        topic: SubscriptionTopic,
        features: &SelectedFeatures,
        capabilities: &Vec<PeerCapability>,
        source_available: bool,
    ) -> (r: SubscriptionResult)
        requires
            old(self).wf(),
            features.wf(),
        ensures
            final(self).wf(),
            match subscription_denial(topic, features@, capabilities@, source_available) {
                Some(failure) => refuses(r, request_id, 0, topic, failure) && final(self)@ == old(
                    self,
                )@,
                None => {
                    &&& r.request_id == request_id
                    &&& crate::status::is_ok_status(r.status@)
                    &&& r.subscription_id != 0
                    &&& unused(old(self)@, r.subscription_id)
                    &&& r.topic == topic
                    &&& r.next_sequence == 1
                    &&& final(self)@ == old(self)@.insert(
                        topic,
                        SubscriptionView { id: r.subscription_id, sequence: 0, gap: no_gap() },
                    )
                },
            },
    {
        let (feature, required) = match topic {
            SubscriptionTopic::Unspecified => {
                return refuse_subscription(
                    request_id,
                    0,
                    topic,
                    ErrorCode::InvalidArgument,
                    "invalid subscription topic",
                );
            },
            SubscriptionTopic::System => (Feature::System, PeerCapability::SystemRead),
            SubscriptionTopic::Media => (Feature::Media, PeerCapability::MediaRead),
            SubscriptionTopic::Windows => (Feature::Windows, PeerCapability::WindowRead),
            SubscriptionTopic::Clipboard => (Feature::Clipboard, PeerCapability::ClipboardRead),
            SubscriptionTopic::Actions
            | SubscriptionTopic::ActionOutput => (Feature::Actions, PeerCapability::ActionRead),
            SubscriptionTopic::Notifications => (
                Feature::Notifications,
                PeerCapability::NotificationRead,
            ),
            SubscriptionTopic::ClipboardSync => (
                Feature::ClipboardSync,
                PeerCapability::ClipboardSync,
            ),
        };
        if !features.contains(Feature::Subscriptions) || !features.contains(feature) {
            return refuse_subscription(
                request_id,
                0,
                topic,
                ErrorCode::Unsupported,
                "subscription feature was not negotiated",
            );
        }
        if !has_capability(capabilities, required) {
            return refuse_subscription(
                request_id,
                0,
                topic,
                ErrorCode::PermissionDenied,
                "subscription capability was not granted",
            );
        }
        if !source_available {
            let missing = match topic {
                SubscriptionTopic::ActionOutput => Some(
                    "action output subscription is unavailable",
                ),
                SubscriptionTopic::Notifications => Some(
                    "notification subscription is unavailable",
                ),
                SubscriptionTopic::ClipboardSync => Some(
                    "clipboard sync subscription is unavailable",
                ),
                _ => None,
            };
            if let Some(message) = missing {
                return refuse_subscription(
                    request_id,
                    0,
                    topic,
                    ErrorCode::Unavailable,
                    message,
                );
            }
        }
        let subscription_id: u64 = self.fresh_id();
        self.subscribe_with(topic, subscription_id);
        SubscriptionResult {
            request_id,
            status: ok_status(),
            subscription_id,
            topic,
            next_sequence: 1,
        }
    }

    /// Ends the subscription with an identifier.
    pub fn unsubscribe(&mut self, request_id: u64, subscription_id: u64) -> (r: SubscriptionResult)
        requires
            old(self).wf(),
        ensures
            final(self).wf(),
            if subscription_id == 0 {
                &&& refuses(
                    r,
                    request_id,
                    0,
                    SubscriptionTopic::Unspecified,
                    (crate::access::FailureView {
                        code: ErrorCode::InvalidArgument,
                        message: "subscription id must be non-zero"@,
                    }),
                )
                &&& final(self)@ == old(self)@
            } else if unused(old(self)@, subscription_id) {
                &&& refuses(
                    r,
                    request_id,
                    subscription_id,
                    SubscriptionTopic::Unspecified,
                    (crate::access::FailureView {
                        code: ErrorCode::NotFound,
                        message: "subscription was not found"@,
                    }),
                )
                &&& final(self)@ == old(self)@
            } else {
                &&& r.request_id == request_id
                &&& crate::status::is_ok_status(r.status@)
                &&& r.subscription_id == subscription_id
                &&& r.next_sequence == 0
                &&& old(self)@.contains_key(r.topic)
                &&& old(self)@[r.topic].id == subscription_id
                &&& final(self)@ == old(self)@.remove(r.topic)
            },
    {
        if subscription_id == 0 {
            return refuse_subscription(
                request_id,
                0,
                SubscriptionTopic::Unspecified,
                ErrorCode::InvalidArgument,
                "subscription id must be non-zero",
            );
        }
        match self.find(subscription_id) {
            None => refuse_subscription(
                request_id,
                subscription_id,
                SubscriptionTopic::Unspecified,
                ErrorCode::NotFound,
                "subscription was not found",
            ),
            Some(place) => {
                let ghost before = *self;
                let topic = topic_at(place);
                assert(before@.contains_key(topic));
                self.slots.set(place, None);
                proof {
                    assert forall|other: SubscriptionTopic| other != topic implies
                    #[trigger] topic_place(other) != place by {
                        if topic_place(other) == place {
                            lemma_topic_place(other, topic);
                        }
                    }
                    assert(self@ =~= before@.remove(topic));
                }
                SubscriptionResult {
                    request_id,
                    status: ok_status(),
                    subscription_id,
                    topic,
                    next_sequence: 0,
                }
            },
        }
    }

    fn take_slot(&mut self, topic: SubscriptionTopic) -> (r: Subscription)
        requires
            old(self).wf(),
            old(self)@.contains_key(topic),
        ensures
            final(self).wf(),
            r.wf(),
            r@ == old(self)@[topic],
            final(self)@ == old(self)@.remove(topic),
            unused(final(self)@, r@.id),
            topic != SubscriptionTopic::Unspecified,
    {
        let ghost before = *self;
        let place: usize = place_of(topic);
        let mut taken: Option<Subscription> = None;
        std::mem::swap(&mut taken, &mut self.slots[place]);
        proof {
            before.lemma_valid();
            assert(taken == before.slots@[place as int]);
            assert(self.slots@ =~= before.slots@.update(place as int, None));
            assert forall|other: SubscriptionTopic| other != topic implies #[trigger] topic_place(
                other,
            ) != place by {
                if topic_place(other) == place {
                    lemma_topic_place(other, topic);
                }
            }
            assert(self@ =~= before@.remove(topic));
        }
        taken.unwrap()
    }

    fn put_slot(&mut self, topic: SubscriptionTopic, subscription: Subscription)
        requires
            old(self).wf(),
            subscription.wf(),
            topic != SubscriptionTopic::Unspecified,
            unused(old(self)@, subscription@.id),
        ensures
            final(self).wf(),
            final(self)@ == old(self)@.insert(topic, subscription@),
    {
        let ghost before = *self;
        let place: usize = place_of(topic);
        proof {
            if topic_place(topic) == topic_place(SubscriptionTopic::Unspecified) {
                lemma_topic_place(topic, SubscriptionTopic::Unspecified);
            }
            assert forall|i: int| 0 <= i < 9 && (#[trigger] self.slots@[i]) is Some implies
            self.slots@[i]->0.id != subscription.id by {
                self.lemma_topic_of(i);
            }
        }
        self.slots.set(place, Some(subscription));
        proof {
            assert forall|other: SubscriptionTopic| other != topic implies #[trigger] topic_place(
                other,
            ) != place by {
                if topic_place(other) == place {
                    lemma_topic_place(other, topic);
                }
            }
            assert(self@ =~= before@.insert(topic, subscription@));
        }
    }

    /// Tells whether there is a subscription to a topic.
    pub fn contains(&self, topic: SubscriptionTopic) -> (r: bool)
        requires
            self.wf(),
        ensures
            r == self@.contains_key(topic),
    {
        self.id_at(place_of(topic)).is_some()
    }

    /// The identifier of a subscription and the number that its next event will
    /// have.
    pub fn upcoming(&self, topic: SubscriptionTopic) -> (r: Option<(u64, u64)>)
        requires
            self.wf(),
        ensures
            r == if self@.contains_key(topic) {
                Some((self@[topic].id, after(self@[topic].sequence)))
            } else {
                None
            },
    {
        match &self.slots[place_of(topic)] {
            Some(subscription) => Some((subscription.id, subscription.sequence.saturating_add(1))),
            None => None,
        }
    }

    /// The event with this number was sent.
    pub fn event_sent(&mut self, topic: SubscriptionTopic, sequence: u64)
        requires
            old(self).wf(),
            old(self)@.contains_key(topic),
        ensures
            final(self).wf(),
            final(self)@ == old(self)@.insert(
                topic,
                SubscriptionView { sequence, ..old(self)@[topic] },
            ),
    {
        let mut subscription = self.take_slot(topic);
        subscription.sequence = sequence;
        self.put_slot(topic, subscription);
        assert(self@ =~= old(self)@.insert(
            topic,
            SubscriptionView { sequence, ..old(self)@[topic] },
        ));
    }

    /// The identifier of a subscription and the number of its next event.
    pub fn next_event(&mut self, topic: SubscriptionTopic) -> (r: (u64, u64))
        requires
            old(self).wf(),
            old(self)@.contains_key(topic),
        ensures
            final(self).wf(),
            r.0 == old(self)@[topic].id,
            r.1 == after(old(self)@[topic].sequence),
            final(self)@ == old(self)@.insert(
                topic,
                SubscriptionView { sequence: r.1, ..old(self)@[topic] },
            ),
    {
        let mut subscription = self.take_slot(topic);
        let id: u64 = subscription.id;
        let sequence: u64 = subscription.sequence.saturating_add(1);
        subscription.sequence = sequence;
        self.put_slot(topic, subscription);
        assert(self@ =~= old(self)@.insert(
            topic,
            SubscriptionView { sequence, ..old(self)@[topic] },
        ));
        (id, sequence)
    }

    /// An action printed a line: the identifier of the subscription, the number
    /// of the event and the event itself. A line of an action without a proper
    /// name is dropped.
    pub fn action_output(&mut self, output: OutputLine) -> (r: Option<
        NumberedEvent<ActionEvent>,
    >)
        requires
            old(self).wf(),
            old(self)@.contains_key(SubscriptionTopic::ActionOutput),
        ensures
            final(self).wf(),
            ({
                let topic = SubscriptionTopic::ActionOutput;
                if !crate::access::control_identifier(output.action_id@) {
                    r is None && final(self)@ == old(self)@
                } else {
                    let told = output_told(old(self)@[topic], output.action_id@, output.text@);
                    &&& r is Some
                    &&& r->0.subscription_id == told.0.id
                    &&& r->0.sequence == told.0.sequence
                    &&& r->0.event@ == told.1
                    &&& final(self)@ == old(self)@.insert(topic, told.0)
                }
            }),
    {
        if !valid_control_identifier(output.action_id.as_str()) {
            return None;
        }
        let ghost told = output_told(
            self@[SubscriptionTopic::ActionOutput],
            output.action_id@,
            output.text@,
        );
        let mut subscription = self.take_slot(SubscriptionTopic::ActionOutput);
        let id: u64 = subscription.id;
        let sequence: u64 = subscription.sequence.saturating_add(1);
        subscription.sequence = sequence;
        let event = if subscription.gap.first_missing().is_some() {
            subscription.gap.remember_resource(sequence, output.action_id);
            let gap = subscription.gap.take_gap(sequence);
            ActionEvent::Gap(gap.unwrap())
        } else {
            ActionEvent::Output {
                action_id: output.action_id,
                line: truncate_utf8(output.text, MAX_ACTION_OUTPUT_LINE_BYTES),
            }
        };
        self.put_slot(SubscriptionTopic::ActionOutput, subscription);
        assert(self@ =~= old(self)@.insert(SubscriptionTopic::ActionOutput, told.0));
        Some(NumberedEvent { subscription_id: id, sequence, event })
    }

    /// Lines of actions were lost before they could be numbered.
    pub fn action_output_lagged(&mut self)
        requires
            old(self).wf(),
            old(self)@.contains_key(SubscriptionTopic::ActionOutput),
        ensures
            final(self).wf(),
            ({
                let s = old(self)@[SubscriptionTopic::ActionOutput];
                final(self)@ == old(self)@.insert(
                    SubscriptionTopic::ActionOutput,
                    SubscriptionView {
                        gap: GapView {
                            resync_all: true,
                            ..gap_with_sequence(s.gap, after(s.sequence))
                        },
                        ..s
                    },
                )
            }),
    {
        let ghost s = self@[SubscriptionTopic::ActionOutput];
        let mut subscription = self.take_slot(SubscriptionTopic::ActionOutput);
        let sequence: u64 = subscription.sequence.saturating_add(1);
        subscription.gap.remember_unknown(sequence);
        self.put_slot(SubscriptionTopic::ActionOutput, subscription);
        assert(self@ =~= old(self)@.insert(
            SubscriptionTopic::ActionOutput,
            SubscriptionView {
                gap: GapView { resync_all: true, ..gap_with_sequence(s.gap, after(s.sequence)) },
                ..s
            },
        ));
    }

    /// An event could not be delivered.
    pub fn event_lost(&mut self, topic: SubscriptionTopic, sequence: u64, event: LostEvent)
        requires
            old(self).wf(),
            old(self)@.contains_key(topic),
        ensures
            final(self).wf(),
            final(self)@ == old(self)@.insert(
                topic,
                SubscriptionView {
                    gap: gap_with_lost(old(self)@[topic].gap, sequence, event),
                    ..old(self)@[topic]
                },
            ),
    {
        let ghost s = self@[topic];
        let ghost lost = event;
        let mut subscription = self.take_slot(topic);
        match event {
            LostEvent::Gap(gap) => subscription.gap.remember_gap(gap),
            LostEvent::ActionOutput { action_id } => subscription.gap.remember_resource(
                sequence,
                action_id,
            ),
            LostEvent::Other => subscription.gap.remember_unknown(sequence),
        }
        self.put_slot(topic, subscription);
        assert(self@ =~= old(self)@.insert(
            topic,
            SubscriptionView { gap: gap_with_lost(s.gap, sequence, lost), ..s },
        ));
    }

    /// Tells the client at last what it has missed of the output of actions, if
    /// it has missed anything: the identifier of the subscription, the number of
    /// the event and the gap.
    pub fn flush_action_gap(&mut self) -> (r: Option<NumberedEvent<EventGap>>)
        requires
            old(self).wf(),
        ensures
            final(self).wf(),
            ({
                let topic = SubscriptionTopic::ActionOutput;
                let s = old(self)@[topic];
                if !old(self)@.contains_key(topic) || s.gap.first_missing is None {
                    r is None && final(self)@ == old(self)@
                } else {
                    &&& r is Some
                    &&& r->0.subscription_id == s.id
                    &&& r->0.sequence == after(s.sequence)
                    &&& r->0.event@ == (EventGapView {
                        first_missing_sequence: s.gap.first_missing->0,
                        next_available_sequence: after(after(s.sequence)),
                        resync_required: true,
                        resource_ids: told_resources(s.gap),
                    })
                    &&& final(self)@ == old(self)@.insert(
                        topic,
                        SubscriptionView { sequence: after(s.sequence), gap: no_gap(), ..s },
                    )
                }
            }),
    {
        if !self.contains(SubscriptionTopic::ActionOutput) {
            return None;
        }
        let ghost s = self@[SubscriptionTopic::ActionOutput];
        let mut subscription = self.take_slot(SubscriptionTopic::ActionOutput);
        let id: u64 = subscription.id;
        let sequence: u64 = subscription.sequence.saturating_add(1);
        let gap = subscription.gap.take_gap(sequence);
        if gap.is_some() {
            subscription.sequence = sequence;
        }
        let ghost changed = subscription@;
        self.put_slot(SubscriptionTopic::ActionOutput, subscription);
        proof {
            assert(self@ =~= old(self)@.insert(SubscriptionTopic::ActionOutput, changed));
            if s.gap.first_missing is None {
                assert(changed == s);
                assert(self@ =~= old(self)@);
            }
        }
        match gap {
            None => None,
            Some(gap) => Some(NumberedEvent { subscription_id: id, sequence, event: gap }),
        }
    }
}

/// The latest event of each subscription, waiting to be sent. An event that has
/// waited is replaced by the next one of its subscription.
pub struct LatestStateQueue<T> {
    waiting: Vec<(u64, T)>,
}

impl<T> LatestStateQueue<T> {
    /// True when each subscription has at most one event waiting.
    pub closed spec fn wf(&self) -> bool {
        forall|i: int, j: int|
            0 <= i < j < self.waiting@.len() ==> (#[trigger] self.waiting@[i]).0 != (
            #[trigger] self.waiting@[j]).0
    }

    /// The events that wait, in the order in which they go out.
    pub closed spec fn view(&self) -> Seq<(u64, T)> {
        self.waiting@
    }

    /// Nothing waits.
    pub fn new() -> (r: LatestStateQueue<T>)
        ensures
            r.wf(),
            r@ == Seq::<(u64, T)>::empty(),
    {
        LatestStateQueue { waiting: Vec::new() }
    }

    /// Lets an event wait in place of the last one of its subscription. One
    /// whose frame would be too large is dropped.
    pub fn replace(&mut self, subscription_id: u64, event: T, encoded_len: usize, maximum: usize)
        requires
            old(self).wf(),
        ensures
            final(self).wf(),
            final(self)@ == if encoded_len > maximum {
                old(self)@
            } else {
                latest(old(self)@, subscription_id, event)
            },
    {
        if encoded_len > maximum {
            return;
        }
        let ghost before = self.waiting@;
        let mut i: usize = 0;
        while i < self.waiting.len()
            invariant
                i <= self.waiting@.len(),
                self.waiting@ == before,
                before == old(self).waiting@,
                old(self).wf(),
                encoded_len <= maximum,
                forall|j: int| 0 <= j < i ==> (#[trigger] before[j]).0 != subscription_id,
            decreases self.waiting@.len() - i,
        {
            if self.waiting[i].0 == subscription_id {
                self.waiting.set(i, (subscription_id, event));
                proof {
                    lemma_latest(before, subscription_id, event, i as int);
                }
                return;
            }
            i += 1;
        }
        self.waiting.push((subscription_id, event));
        proof {
            lemma_latest_new(before, subscription_id, event);
        }
    }

    /// Takes the event that has waited longest.
    pub fn take(&mut self) -> (r: Option<(u64, T)>)
        requires
            old(self).wf(),
        ensures
            final(self).wf(),
            if old(self)@.len() == 0 {
                r is None && final(self)@ == old(self)@
            } else {
                r == Some(old(self)@[0]) && final(self)@ == old(self)@.drop_first()
            },
    {
        if self.waiting.len() == 0 {
            return None;
        }
        let ghost before = self.waiting@;
        let first = self.waiting.remove(0);
        assert(self.waiting@ =~= before.drop_first());
        Some(first)
    }
}

/// The events that wait after one more came: it takes the place of the one of
/// its subscription, or the last place.
pub open spec fn latest<T>(waiting: Seq<(u64, T)>, id: u64, event: T) -> Seq<(u64, T)>
    decreases waiting.len(),
{
    if waiting.len() == 0 {
        seq![(id, event)]
    } else if waiting[0].0 == id {
        seq![(id, event)] + waiting.drop_first()
    } else {
        seq![waiting[0]] + latest(waiting.drop_first(), id, event)
    }
}

proof fn lemma_latest<T>(waiting: Seq<(u64, T)>, id: u64, event: T, i: int)
    requires
        0 <= i < waiting.len(),
        waiting[i].0 == id,
        forall|j: int| 0 <= j < i ==> (#[trigger] waiting[j]).0 != id,
    ensures
        latest(waiting, id, event) == waiting.update(i, (id, event)),
    decreases waiting.len(),
{
    if i > 0 {
        let rest = waiting.drop_first();
        assert forall|j: int| 0 <= j < i - 1 implies (#[trigger] rest[j]).0 != id by {
            assert(rest[j] == waiting[j + 1]);
        }
        lemma_latest(rest, id, event, i - 1);
        assert(waiting[0].0 != id);
        assert(seq![waiting[0]] + rest.update(i - 1, (id, event)) =~= waiting.update(
            i,
            (id, event),
        ));
    } else {
        assert(seq![(id, event)] + waiting.drop_first() =~= waiting.update(0, (id, event)));
    }
}

proof fn lemma_latest_new<T>(waiting: Seq<(u64, T)>, id: u64, event: T)
    requires
        forall|j: int| 0 <= j < waiting.len() ==> (#[trigger] waiting[j]).0 != id,
    ensures
        latest(waiting, id, event) == waiting.push((id, event)),
    decreases waiting.len(),
{
    if waiting.len() > 0 {
        let rest = waiting.drop_first();
        assert forall|j: int| 0 <= j < rest.len() implies (#[trigger] rest[j]).0 != id by {
            assert(rest[j] == waiting[j + 1]);
        }
        lemma_latest_new(rest, id, event);
        assert(waiting[0].0 != id);
        assert(seq![waiting[0]] + rest.push((id, event)) =~= waiting.push((id, event)));
    } else {
        assert(seq![(id, event)] =~= waiting.push((id, event)));
    }
}

/// A new event replaces only the one of its own subscription.
pub proof fn lemma_latest_keeps_others<T>(
    waiting: Seq<(u64, T)>,
    id: u64,
    event: T,
    other: u64,
    value: T,
)
    requires
        other != id,
    ensures
        latest(waiting, id, event).contains((other, value)) <==> waiting.contains((other, value)),
        latest(waiting, id, event).contains((id, event)),
    decreases waiting.len(),
{
    let after = latest(waiting, id, event);
    if waiting.len() == 0 {
        assert(after[0] == (id, event));
    } else {
        let rest = waiting.drop_first();
        lemma_latest_keeps_others(rest, id, event, other, value);
        let tail = if waiting[0].0 == id {
            rest
        } else {
            latest(rest, id, event)
        };
        let head = after[0];
        assert(after =~= seq![head] + tail);
        if tail.contains((other, value)) {
            let i = choose|i: int| 0 <= i < tail.len() && tail[i] == (other, value);
            assert(after[i + 1] == (other, value));
        }
        if after.contains((other, value)) {
            let i = choose|i: int| 0 <= i < after.len() && after[i] == (other, value);
            if i > 0 {
                assert(tail[i - 1] == (other, value));
            } else {
                assert(waiting[0] == (other, value));
            }
        }
        if rest.contains((other, value)) {
            let i = choose|i: int| 0 <= i < rest.len() && rest[i] == (other, value);
            assert(waiting[i + 1] == (other, value));
        }
        if waiting.contains((other, value)) {
            let i = choose|i: int| 0 <= i < waiting.len() && waiting[i] == (other, value);
            if i > 0 {
                assert(rest[i - 1] == (other, value));
            } else {
                assert(after[0] == (other, value));
            }
        }
        if waiting[0].0 == id {
            assert(after[0] == (id, event));
        } else {
            let i = choose|i: int| 0 <= i < tail.len() && tail[i] == (id, event);
            assert(after[i + 1] == (id, event));
        }
    }
}

/// What a client needs to be told a topic, topic by topic.
pub proof fn lemma_each_topic_needs_its_own_capability(
    topic: SubscriptionTopic,
    features: Map<Feature, u32>,
    capabilities: Seq<PeerCapability>,
    source_available: bool,
)
    ensures
        ({
            let denial = subscription_denial(topic, features, capabilities, source_available);
            let told = features.contains_key(Feature::Subscriptions);
            &&& topic is Unspecified ==> denial is Some && denial->0.code is InvalidArgument
            &&& topic is System ==> (denial is None <==> told && features.contains_key(
                Feature::System,
            ) && capabilities.contains(PeerCapability::SystemRead))
            &&& topic is Media ==> (denial is None <==> told && features.contains_key(
                Feature::Media,
            ) && capabilities.contains(PeerCapability::MediaRead))
            &&& topic is Windows ==> (denial is None <==> told && features.contains_key(
                Feature::Windows,
            ) && capabilities.contains(PeerCapability::WindowRead))
            &&& topic is Clipboard ==> (denial is None <==> told && features.contains_key(
                Feature::Clipboard,
            ) && capabilities.contains(PeerCapability::ClipboardRead))
            &&& topic is Actions ==> (denial is None <==> told && features.contains_key(
                Feature::Actions,
            ) && capabilities.contains(PeerCapability::ActionRead))
            &&& topic is ActionOutput ==> (denial is None <==> told && features.contains_key(
                Feature::Actions,
            ) && capabilities.contains(PeerCapability::ActionRead) && source_available)
            &&& topic is Notifications ==> (denial is None <==> told && features.contains_key(
                Feature::Notifications,
            ) && capabilities.contains(PeerCapability::NotificationRead) && source_available)
            &&& topic is ClipboardSync ==> (denial is None <==> told && features.contains_key(
                Feature::ClipboardSync,
            ) && capabilities.contains(PeerCapability::ClipboardSync) && source_available)
            &&& !(topic is Unspecified) && !told ==> denial is Some
                && denial->0.code is Unsupported
        }),
{
}

/// A gap remembers the first event that is missing, whatever is lost after it.
pub proof fn lemma_gaps_begin_with_the_first_loss(
    g: GapView,
    sequence: u64,
    resource: Seq<char>,
    resources: Seq<Seq<char>>,
)
    ensures
        g.first_missing is Some ==> {
            &&& gap_with_sequence(g, sequence).first_missing == g.first_missing
            &&& gap_with_resource(g, sequence, resource).first_missing == g.first_missing
            &&& gap_with_gap(g, sequence, resources).first_missing == g.first_missing
            &&& gap_with_resources(g, sequence, resources).first_missing == g.first_missing
        },
        g.first_missing is None ==> {
            &&& gap_with_sequence(g, sequence).first_missing == Some(sequence)
            &&& gap_with_resource(g, sequence, resource).first_missing == Some(sequence)
            &&& gap_with_gap(g, sequence, resources).first_missing == Some(sequence)
        },
    decreases resources.len(),
{
    if resources.len() > 0 {
        lemma_gaps_begin_with_the_first_loss(g, sequence, resource, resources.drop_last());
        let h = gap_with_sequence(g, sequence);
        lemma_gaps_begin_with_the_first_loss(h, sequence, resource, resources.drop_last());
    }
}

/// A gap never forgets: once everything is to be read again it stays so, and a
/// resource that was to be read again still is.
pub proof fn lemma_gaps_never_forget(
    g: GapView,
    sequence: u64,
    resources: Seq<Seq<char>>,
    x: Seq<char>,
)
    ensures
        ({
            let h = gap_with_resources(g, sequence, resources);
            &&& g.resync_all ==> h.resync_all
            &&& g.resources.contains(x) || resources.contains(x) ==> h.resync_all
                || h.resources.contains(x)
            &&& !h.resync_all && h.resources.contains(x) ==> g.resources.contains(x)
                || resources.contains(x)
        }),
    decreases resources.len(),
{
    if resources.len() > 0 {
        let fewer = resources.drop_last();
        lemma_gaps_never_forget(g, sequence, fewer, x);
        let before = gap_with_resources(g, sequence, fewer);
        crate::text::lemma_with_text(before.resources, resources.last());
        assert(resources =~= fewer.push(resources.last()));
        crate::keyed::lemma_push_contains(fewer, resources.last(), x);
    }
}

/// An event that could not be delivered is in the gap then: a gap with all that was
/// missing in it, the output of an action by its action, and of anything else
/// everything is to be read again.
pub proof fn lemma_lost_events_are_in_the_gap(g: GapView, sequence: u64, event: LostEvent)
    ensures
        ({
            let h = gap_with_lost(g, sequence, event);
            &&& h.first_missing is Some
            &&& g.first_missing is Some ==> h.first_missing == g.first_missing
            &&& g.first_missing is None && event is Gap ==> h.first_missing == Some(
                event->Gap_0.first_missing_sequence,
            )
            &&& g.first_missing is None && !(event is Gap) ==> h.first_missing == Some(sequence)
            &&& event is Other ==> h.resync_all && told_resources(h).len() == 0
            &&& event is ActionOutput ==> h.resync_all || h.resources.contains(
                event->ActionOutput_action_id@,
            )
        }),
{
    match event {
        LostEvent::Gap(gap) => {
            lemma_gaps_begin_with_the_first_loss(
                g,
                gap.first_missing_sequence,
                Seq::empty(),
                gap@.resource_ids,
            );
        },
        LostEvent::ActionOutput { action_id } => {
            crate::text::lemma_with_text(g.resources, action_id@);
        },
        LostEvent::Other => {},
    }
}

/// A line of output takes the next number, and is told as it is if it is short and
/// nothing is missing; after a gap it is told within the gap, which ends with it.
pub proof fn lemma_output_is_told_in_order(
    s: SubscriptionView,
    action_id: Seq<char>,
    text: Seq<char>,
)
    ensures
        ({
            let (next, told) = output_told(s, action_id, text);
            &&& next.id == s.id
            &&& s.sequence < u64::MAX ==> next.sequence == s.sequence + 1
            &&& next.gap.first_missing is None
            &&& s.gap.first_missing is None ==> told is Output && told->action_id == action_id
                && told->line.is_prefix_of(text)
            &&& s.gap.first_missing is None && crate::text::utf8_len(text)
                <= MAX_ACTION_OUTPUT_LINE_BYTES ==> told->line == text
            &&& s.gap.first_missing is Some ==> {
                &&& told is Gap
                &&& told->gap.first_missing_sequence == s.gap.first_missing->0
                &&& told->gap.resync_required
                &&& s.sequence + 1 < u64::MAX ==> told->gap.next_available_sequence
                    == next.sequence + 1
                &&& told->gap.resource_ids.len() == 0 || told->gap.resource_ids.contains(
                    action_id,
                )
            }
        }),
{
    let cut = crate::text::truncated(text, MAX_ACTION_OUTPUT_LINE_BYTES as nat);
    crate::text::lemma_truncated(text, MAX_ACTION_OUTPUT_LINE_BYTES as nat);
    if cut.len() < text.len() {
        crate::text::lemma_utf8_len_take(text, cut.len() as int + 1);
    } else {
        assert(cut =~= text);
    }
    lemma_gap_tells_resource(s.gap, after(s.sequence), action_id);
}

/// Of each subscription only the newest event waits, and it waits in the place of
/// the one before.
pub proof fn lemma_newest_event_waits<T>(waiting: Seq<(u64, T)>, id: u64, event: T)
    ensures
        latest(waiting, id, event).contains((id, event)),
        latest(waiting, id, event).len() == waiting.len() + if exists|i: int|
            0 <= i < waiting.len() && (#[trigger] waiting[i]).0 == id {
            0int
        } else {
            1
        },
    decreases waiting.len(),
{
    let after = latest(waiting, id, event);
    if waiting.len() == 0 || waiting[0].0 == id {
        assert(after[0] == (id, event));
    } else {
        let rest = waiting.drop_first();
        lemma_newest_event_waits(rest, id, event);
        let shorter = latest(rest, id, event);
        let k = choose|k: int| 0 <= k < shorter.len() && shorter[k] == (id, event);
        assert(after[k + 1] == (id, event));
        if exists|i: int| 0 <= i < waiting.len() && (#[trigger] waiting[i]).0 == id {
            let i = choose|i: int| 0 <= i < waiting.len() && (#[trigger] waiting[i]).0 == id;
            assert(rest[i - 1].0 == id);
        }
        if exists|i: int| 0 <= i < rest.len() && (#[trigger] rest[i]).0 == id {
            let i = choose|i: int| 0 <= i < rest.len() && (#[trigger] rest[i]).0 == id;
            assert(waiting[i + 1].0 == id);
        }
    }
}

/// A refused request is told its own failure, under its own number.
pub proof fn lemma_refusals_name_their_request(
    r: SubscriptionResult,
    request_id: u64,
    subscription_id: u64,
    topic: SubscriptionTopic,
    failure: crate::access::FailureView,
)
    requires
        refuses(r, request_id, subscription_id, topic, failure),
    ensures
        r.request_id == request_id,
        r.subscription_id == subscription_id,
        r.topic == topic,
        r.next_sequence == 0,
        r.status@.code == failure.code,
{
}

/// A gap and a line are told as they are, each fact in its place.
pub proof fn lemma_events_show_their_facts(gap: EventGap, event: ActionEvent)
    ensures
        gap@.first_missing_sequence == gap.first_missing_sequence,
        gap@.next_available_sequence == gap.next_available_sequence,
        gap@.resync_required == gap.resync_required,
        gap@.resource_ids.len() == gap.resource_ids@.len(),
        event is Gap <==> event@ is Gap,
        event is Output ==> event@->action_id == event->action_id@ && event@->line
            == event->line@,
{
}

/// Only the topics that need a source of their own can lack one, and each of them is
/// told apart.
pub proof fn lemma_sources_that_can_be_missing(topic: SubscriptionTopic)
    ensures
        source_missing(topic) is Some <==> topic is ActionOutput || topic is Notifications
            || topic is ClipboardSync,
        topic is ActionOutput ==> source_missing(topic)->0
            == "action output subscription is unavailable"@,
        topic is Notifications ==> source_missing(topic)->0
            == "notification subscription is unavailable"@,
        topic is ClipboardSync ==> source_missing(topic)->0
            == "clipboard sync subscription is unavailable"@,
{
}

/// No two topics have one place.
pub proof fn lemma_topics_have_their_places(a: SubscriptionTopic, b: SubscriptionTopic)
    ensures
        topic_place(a) == topic_place(b) <==> a == b,
{
}

/// A new subscription has no gap, and a gap of everything keeps where it begins.
pub proof fn lemma_gaps_of_nothing_and_everything(g: GapView)
    ensures
        no_gap().first_missing is None,
        no_gap().resources.len() == 0,
        !no_gap().resync_all,
        gap_of_everything(g).first_missing == g.first_missing,
        gap_of_everything(g).resync_all,
        gap_of_everything(g).resources.len() == 0,
{
}

} // verus!
