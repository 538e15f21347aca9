//! What two devices can do with each other: the features that both know, in the
//! highest version that both know, within the limits that both accept.

use vstd::prelude::*;
use vstd::string::*;

use crate::error::{other, ProtocolError};
use crate::peer::{Grant, GrantConstraints, GrantDirection, PeerCapability};
use crate::remote_files::REMOTE_FILE_PROTOCOL_VERSION;

verus! {

/// The most features that a client may offer.
pub const MAX_CLIENT_FEATURES: usize = 64;

/// The most requests that one connection may have outstanding.
pub const MAX_CONCURRENT_REQUESTS: u32 = 16;

/// How often a client is to be heard of, in milliseconds.
pub const HEARTBEAT_INTERVAL_MS: u32 = 15_000;

/// How long a client may stay silent, in milliseconds.
pub const HEARTBEAT_TIMEOUT_MS: u32 = 45_000;

/// A part of the protocol; unspecified also stands for one that is not known.
#[derive(Debug, Clone, Copy, PartialEq, Eq, Structural)]
pub enum Feature {
    Unspecified,
    Subscriptions,
    System,
    Processes,
    Media,
    Clipboard,
    ClipboardSync,
    Windows,
    Blobs,
    Actions,
    Notifications,
    RemoteFiles,
    InputReliable,
    InputDatagram,
    WorkspaceInput,
    Printing,
}

/// The place of a feature in every list of features.
pub open spec fn rank(feature: Feature) -> nat {
    match feature {
        Feature::Unspecified => 0,
        Feature::Subscriptions => 1,
        Feature::System => 2,
        Feature::Processes => 3,
        Feature::Media => 4,
        Feature::Clipboard => 5,
        Feature::ClipboardSync => 6,
        Feature::Windows => 7,
        Feature::Blobs => 8,
        Feature::Actions => 9,
        Feature::Notifications => 10,
        Feature::RemoteFiles => 11,
        Feature::InputReliable => 12,
        Feature::InputDatagram => 13,
        Feature::WorkspaceInput => 14,
        Feature::Printing => 15,
    }
}

fn rank_of(feature: Feature) -> (r: u8)
    ensures
        r == rank(feature),
{
    match feature {
        Feature::Unspecified => 0,
        Feature::Subscriptions => 1,
        Feature::System => 2,
        Feature::Processes => 3,
        Feature::Media => 4,
        Feature::Clipboard => 5,
        Feature::ClipboardSync => 6,
        Feature::Windows => 7,
        Feature::Blobs => 8,
        Feature::Actions => 9,
        Feature::Notifications => 10,
        Feature::RemoteFiles => 11,
        Feature::InputReliable => 12,
        Feature::InputDatagram => 13,
        Feature::WorkspaceInput => 14,
        Feature::Printing => 15,
    }
}

/// Two features with the same place are the same.
pub proof fn lemma_rank_injective(a: Feature, b: Feature)
    requires
        rank(a) == rank(b),
    ensures
        a == b,
{
}

/// The versions of a feature that one side knows.
#[derive(Debug, Clone, Copy, PartialEq, Eq, Structural)]
pub struct FeatureVersion {
    pub feature: Feature,
    pub min_version: u32,
    pub max_version: u32,
}

/// The versions of a feature that this side knows.
pub open spec fn known_version(feature: Feature) -> FeatureVersion {
    let version = if feature == Feature::RemoteFiles {
        REMOTE_FILE_PROTOCOL_VERSION
    } else {
        1
    };
    FeatureVersion { feature, min_version: version, max_version: version }
}

/// The versions of a feature that this side knows.
pub fn feature(which: Feature) -> (r: FeatureVersion)
    ensures
        r == known_version(which),
{
    let version: u32 = if which == Feature::RemoteFiles {
        REMOTE_FILE_PROTOCOL_VERSION
    } else {
        1
    };
    FeatureVersion { feature: which, min_version: version, max_version: version }
}

/// What the host has to offer.
#[derive(Debug, Clone, Copy, PartialEq, Eq, Structural)]
pub struct HostOffer {
    pub actions: bool,
    pub notifications: bool,
    pub remote_files: bool,
    pub input: bool,
    pub workspace_input: bool,
}

/// True when a host with this offer takes part in the feature.
pub open spec fn offered(offer: HostOffer, feature: Feature) -> bool {
    match feature {
        Feature::Subscriptions
        | Feature::System
        | Feature::Processes
        | Feature::Media
        | Feature::Clipboard
        | Feature::ClipboardSync
        | Feature::Windows
        | Feature::Blobs => true,
        Feature::Actions => offer.actions,
        Feature::Notifications => offer.notifications,
        Feature::RemoteFiles => offer.remote_files,
        Feature::InputReliable => offer.input,
        Feature::WorkspaceInput => offer.input && offer.workspace_input,
        Feature::Unspecified | Feature::InputDatagram | Feature::Printing => false,
    }
}

/// True when features stand in their order, none twice.
pub open spec fn ordered(list: Seq<FeatureVersion>) -> bool {
    forall|i: int, j: int|
        0 <= i < j < list.len() ==> rank(#[trigger] list[i].feature) < rank(
            #[trigger] list[j].feature,
        )
}

/// True when the list holds exactly what is offered of the features up to `k`.
pub open spec fn lists_offer(list: Seq<FeatureVersion>, offer: HostOffer, k: nat) -> bool {
    &&& ordered(list)
    &&& forall|i: int|
        0 <= i < list.len() ==> {
            &&& #[trigger] list[i] == known_version(list[i].feature)
            &&& offered(offer, list[i].feature)
            &&& rank(list[i].feature) <= k
        }
    &&& forall|f: Feature|
        rank(f) <= k && offered(offer, f) ==> list.contains(#[trigger] known_version(f))
}

fn offer_next(
    list: Vec<FeatureVersion>,
    next: Feature,
    available: bool,
    Ghost(offer): Ghost<HostOffer>,
) -> (r: Vec<FeatureVersion>)
    requires
        rank(next) > 0,
        lists_offer(list@, offer, (rank(next) - 1) as nat),
        available == offered(offer, next),
    ensures
        lists_offer(r@, offer, rank(next)),
{
    let mut list = list;
    let ghost before = list@;
    if available {
        list.push(feature(next));
    }
    proof {
        assert forall|f: Feature| rank(f) <= rank(next) && offered(offer, f) implies list@.contains(
            #[trigger] known_version(f),
        ) by {
            if rank(f) == rank(next) {
                lemma_rank_injective(f, next);
                assert(list@[before.len() as int] == known_version(f));
            } else {
                assert(before.contains(known_version(f)));
                let i = choose|i: int| 0 <= i < before.len() && before[i] == known_version(f);
                assert(list@[i] == known_version(f));
            }
        }
    }
    list
}

/// Lists the features that a host with this offer takes part in.
pub fn server_features(offer: &HostOffer) -> (r: Vec<FeatureVersion>)
    ensures
        lists_offer(r@, *offer, 15),
{
    let ghost given = *offer;
    let none: Vec<FeatureVersion> = Vec::new();
    let list = offer_next(none, Feature::Subscriptions, true, Ghost(given));
    let list = offer_next(list, Feature::System, true, Ghost(given));
    let list = offer_next(list, Feature::Processes, true, Ghost(given));
    let list = offer_next(list, Feature::Media, true, Ghost(given));
    let list = offer_next(list, Feature::Clipboard, true, Ghost(given));
    let list = offer_next(list, Feature::ClipboardSync, true, Ghost(given));
    let list = offer_next(list, Feature::Windows, true, Ghost(given));
    let list = offer_next(list, Feature::Blobs, true, Ghost(given));
    let list = offer_next(list, Feature::Actions, offer.actions, Ghost(given));
    let list = offer_next(list, Feature::Notifications, offer.notifications, Ghost(given));
    let list = offer_next(list, Feature::RemoteFiles, offer.remote_files, Ghost(given));
    let list = offer_next(list, Feature::InputReliable, offer.input, Ghost(given));
    let list = offer_next(list, Feature::InputDatagram, false, Ghost(given));
    let list = offer_next(
        list,
        Feature::WorkspaceInput,
        offer.input && offer.workspace_input,
        Ghost(given),
    );
    offer_next(list, Feature::Printing, false, Ghost(given))
}

/// True when a range is one that a client may offer.
pub open spec fn valid_range(v: FeatureVersion) -> bool {
    &&& v.feature != Feature::Unspecified
    &&& 0 < v.min_version <= v.max_version
}

/// True when no feature is offered twice.
pub open spec fn distinct_features(list: Seq<FeatureVersion>) -> bool {
    forall|i: int, j: int|
        0 <= i < j < list.len() ==> #[trigger] list[i].feature != #[trigger] list[j].feature
}

/// True when a client may offer these ranges.
pub open spec fn valid_ranges(client: Seq<FeatureVersion>) -> bool {
    &&& forall|i: int| 0 <= i < client.len() ==> valid_range(#[trigger] client[i])
    &&& distinct_features(client)
}

/// True when the list holds a range for the feature.
pub open spec fn ranges_have(list: Seq<FeatureVersion>, feature: Feature) -> bool {
    exists|i: int| 0 <= i < list.len() && #[trigger] list[i].feature == feature
}

/// The range that the list holds for the feature.
pub open spec fn range_of(list: Seq<FeatureVersion>, feature: Feature) -> FeatureVersion {
    list[choose|i: int| 0 <= i < list.len() && #[trigger] list[i].feature == feature]
}

/// The highest version in both ranges, if they meet.
pub open spec fn highest_common(a: FeatureVersion, b: FeatureVersion) -> Option<u32> {
    let minimum = if a.min_version > b.min_version {
        a.min_version
    } else {
        b.min_version
    };
    let maximum = if a.max_version < b.max_version {
        a.max_version
    } else {
        b.max_version
    };
    if minimum <= maximum {
        Some(maximum)
    } else {
        None
    }
}

/// The features that both sides know, each in the highest common version.
pub open spec fn negotiated(client: Seq<FeatureVersion>, server: Seq<FeatureVersion>) -> Map<
    Feature,
    u32,
>
    decreases server.len(),
{
    if server.len() == 0 {
        Map::empty()
    } else {
        let rest = negotiated(client, server.drop_last());
        let own = server.last();
        if ranges_have(client, own.feature) {
            match highest_common(range_of(client, own.feature), own) {
                Some(version) => rest.insert(own.feature, version),
                None => rest,
            }
        } else {
            rest
        }
    }
}

proof fn lemma_range_of(list: Seq<FeatureVersion>, i: int)
    requires
        distinct_features(list),
        0 <= i < list.len(),
    ensures
        ranges_have(list, list[i].feature),
        range_of(list, list[i].feature) == list[i],
{
    let feature = list[i].feature;
    let j = choose|j: int| 0 <= j < list.len() && #[trigger] list[j].feature == feature;
    assert(list[j].feature == list[i].feature);
    assert(i == j);
}

/// A negotiated feature is one that both sides offer, and its version is the
/// highest that lies in both ranges.
pub proof fn lemma_negotiated(
    client: Seq<FeatureVersion>,
    server: Seq<FeatureVersion>,
    feature: Feature,
)
    requires
        valid_ranges(client),
        distinct_features(server),
    ensures
        negotiated(client, server).contains_key(feature) <==> {
            &&& ranges_have(client, feature)
            &&& ranges_have(server, feature)
            &&& highest_common(range_of(client, feature), range_of(server, feature)) is Some
        },
        negotiated(client, server).contains_key(feature) ==> highest_common(
            range_of(client, feature),
            range_of(server, feature),
        ) == Some(negotiated(client, server)[feature]),
    decreases server.len(),
{
    if server.len() > 0 {
        let rest = server.drop_last();
        let own = server.last();
        lemma_negotiated(client, rest, feature);
        lemma_range_of(server, server.len() - 1);
        if ranges_have(rest, feature) {
            let i = choose|i: int| 0 <= i < rest.len() && #[trigger] rest[i].feature == feature;
            lemma_range_of(rest, i);
            assert(server[i] == rest[i]);
            lemma_range_of(server, i);
            assert(server[i].feature != server[server.len() - 1].feature);
        } else if ranges_have(server, feature) {
            let i = choose|i: int| 0 <= i < server.len() && #[trigger] server[i].feature == feature;
            if i < rest.len() {
                assert(rest[i].feature == feature);
            }
            assert(i == server.len() - 1);
        }
        lemma_negotiated(client, rest, own.feature);
        if ranges_have(rest, own.feature) {
            let i = choose|i: int| 0 <= i < rest.len() && #[trigger] rest[i].feature == own.feature;
            assert(server[i].feature == server[server.len() - 1].feature);
        }
    }
}

/// A negotiated feature is one that both sides offer.
pub proof fn lemma_negotiated_offered(
    client: Seq<FeatureVersion>,
    server: Seq<FeatureVersion>,
    feature: Feature,
)
    ensures
        negotiated(client, server).contains_key(feature) ==> ranges_have(client, feature)
            && ranges_have(server, feature),
    decreases server.len(),
{
    if server.len() > 0 {
        let rest = server.drop_last();
        lemma_negotiated_offered(client, rest, feature);
        if ranges_have(rest, feature) {
            let i = choose|i: int| 0 <= i < rest.len() && #[trigger] rest[i].feature == feature;
            assert(server[i].feature == feature);
        }
        assert(server[server.len() - 1].feature == server.last().feature);
    }
}

fn feature_at(place: usize) -> (r: Feature)
    requires
        place < 16,
    ensures
        rank(r) == place,
{
    if place == 0 {
        Feature::Unspecified
    } else if place == 1 {
        Feature::Subscriptions
    } else if place == 2 {
        Feature::System
    } else if place == 3 {
        Feature::Processes
    } else if place == 4 {
        Feature::Media
    } else if place == 5 {
        Feature::Clipboard
    } else if place == 6 {
        Feature::ClipboardSync
    } else if place == 7 {
        Feature::Windows
    } else if place == 8 {
        Feature::Blobs
    } else if place == 9 {
        Feature::Actions
    } else if place == 10 {
        Feature::Notifications
    } else if place == 11 {
        Feature::RemoteFiles
    } else if place == 12 {
        Feature::InputReliable
    } else if place == 13 {
        Feature::InputDatagram
    } else if place == 14 {
        Feature::WorkspaceInput
    } else {
        Feature::Printing
    }
}

/// The features that were agreed on: the version of each at its place.
#[derive(Debug)]
pub struct SelectedFeatures {
    versions: Vec<Option<u32>>,
}

impl SelectedFeatures {
    /// True when there is one place for each feature.
    pub closed spec fn wf(&self) -> bool {
        self.versions@.len() == 16
    }

    /// The version of each feature.
    pub closed spec fn view(&self) -> Map<Feature, u32> {
        Map::new(
            |feature: Feature| self.versions@[rank(feature) as int] is Some,
            |feature: Feature| self.versions@[rank(feature) as int]->0,
        )
    }

    /// No features.
    pub fn new() -> (r: SelectedFeatures)
        ensures
            r.wf(),
            r@ == Map::<Feature, u32>::empty(),
    {
        let mut versions: Vec<Option<u32>> = Vec::new();
        let mut i: usize = 0;
        while i < 16
            invariant
                i <= 16,
                versions@.len() == i,
                forall|j: int| 0 <= j < i ==> (#[trigger] versions@[j]) is None,
            decreases 16 - i,
        {
            versions.push(None);
            i += 1;
        }
        let r = SelectedFeatures { versions };
        assert(r@ =~= Map::<Feature, u32>::empty());
        r
    }

    /// Agrees on a version of a feature.
    pub fn insert(&mut self, feature: Feature, version: u32)
        requires
            old(self).wf(),
        ensures
            final(self).wf(),
            final(self)@ == old(self)@.insert(feature, version),
    {
        let ghost before = *self;
        let place: usize = rank_of(feature) as usize;
        self.versions.set(place, Some(version));
        proof {
            assert forall|f: Feature| f != feature implies #[trigger] rank(f) != rank(feature) by {
                if rank(f) == rank(feature) {
                    lemma_rank_injective(f, feature);
                }
            }
            assert(self@ =~= before@.insert(feature, version));
        }
    }

    /// The agreed version of a feature.
    pub fn get(&self, feature: Feature) -> (r: Option<u32>)
        requires
            self.wf(),
        ensures
            r == if self@.contains_key(feature) {
                Some(self@[feature])
            } else {
                None
            },
    {
        self.versions[rank_of(feature) as usize]
    }

    /// True when the feature was agreed on.
    pub fn contains(&self, feature: Feature) -> (r: bool)
        requires
            self.wf(),
        ensures
            r == self@.contains_key(feature),
    {
        self.get(feature).is_some()
    }
}

/// True when `list` names exactly the agreed versions, in order.
pub open spec fn lists_selection(list: Seq<FeatureVersion>, features: Map<Feature, u32>) -> bool {
    &&& ordered(list)
    &&& forall|i: int|
        0 <= i < list.len() ==> {
            let entry = #[trigger] list[i];
            &&& features.contains_key(entry.feature)
            &&& entry.min_version == features[entry.feature]
            &&& entry.max_version == features[entry.feature]
        }
    &&& forall|f: Feature| #[trigger]
        features.contains_key(f) ==> list.contains(
            FeatureVersion { feature: f, min_version: features[f], max_version: features[f] },
        )
}

/// Names the agreed features in order.
pub fn selected_feature_versions(features: &SelectedFeatures) -> (r: Vec<FeatureVersion>)
    requires
        features.wf(),
    ensures
        lists_selection(r@, features@),
{
    let mut out: Vec<FeatureVersion> = Vec::new();
    let mut place: usize = 0;
    while place < 16
        invariant
            place <= 16,
            features.wf(),
            ordered(out@),
            forall|i: int|
                0 <= i < out@.len() ==> {
                    let entry = #[trigger] out@[i];
                    &&& rank(entry.feature) < place
                    &&& features@.contains_key(entry.feature)
                    &&& entry.min_version == features@[entry.feature]
                    &&& entry.max_version == features@[entry.feature]
                },
            forall|f: Feature| #[trigger]
                features@.contains_key(f) && rank(f) < place ==> out@.contains(
                    FeatureVersion {
                        feature: f,
                        min_version: features@[f],
                        max_version: features@[f],
                    },
                ),
        decreases 16 - place,
    {
        let which = feature_at(place);
        let ghost before = out@;
        if let Some(version) = features.get(which) {
            out.push(
                FeatureVersion { feature: which, min_version: version, max_version: version },
            );
        }
        proof {
            assert forall|f: Feature| #[trigger]
                features@.contains_key(f) && rank(f) < place + 1 implies out@.contains(
                FeatureVersion { feature: f, min_version: features@[f], max_version: features@[f] },
            ) by {
                let entry = FeatureVersion {
                    feature: f,
                    min_version: features@[f],
                    max_version: features@[f],
                };
                if rank(f) == place {
                    lemma_rank_injective(f, which);
                    assert(out@[before.len() as int] == entry);
                } else {
                    assert(before.contains(entry));
                    let i = choose|i: int| 0 <= i < before.len() && before[i] == entry;
                    assert(out@[i] == entry);
                }
            }
        }
        place += 1;
    }
    proof {
        assert forall|f: Feature| #[trigger] features@.contains_key(f) implies rank(f) < 16 by {}
    }
    out
}

fn find_range(list: &[FeatureVersion], feature: Feature) -> (r: Option<FeatureVersion>)
    requires
        distinct_features(list@),
    ensures
        r is Some == ranges_have(list@, feature),
        r is Some ==> r == Some(range_of(list@, feature)),
{
    let mut i: usize = 0;
    while i < list.len()
        invariant
            i <= list@.len(),
            distinct_features(list@),
            forall|j: int| 0 <= j < i ==> #[trigger] list@[j].feature != feature,
        decreases list@.len() - i,
    {
        if list[i].feature == feature {
            proof {
                lemma_range_of(list@, i as int);
            }
            return Some(list[i]);
        }
        i += 1;
    }
    None
}

fn are_valid_ranges(client: &[FeatureVersion]) -> (r: bool)
    ensures
        r == valid_ranges(client@),
{
    let mut i: usize = 0;
    while i < client.len()
        invariant
            i <= client@.len(),
            valid_ranges(client@.take(i as int)),
        decreases client@.len() - i,
    {
        let entry = client[i];
        if entry.feature == Feature::Unspecified || entry.min_version == 0 || entry.min_version
            > entry.max_version {
            assert(!valid_range(client@[i as int]));
            return false;
        }
        let mut j: usize = 0;
        while j < i
            invariant
                j <= i < client@.len(),
                entry == client@[i as int],
                forall|k: int| 0 <= k < j ==> #[trigger] client@[k].feature != entry.feature,
            decreases i - j,
        {
            if client[j].feature == entry.feature {
                assert(client@[j as int].feature == client@[i as int].feature);
                return false;
            }
            j += 1;
        }
        proof {
            let longer = client@.take(i as int + 1);
            assert forall|a: int, b: int| 0 <= a < b < longer.len() implies #[trigger]
            longer[a].feature != #[trigger] longer[b].feature by {
                if b < i {
                    assert(client@.take(i as int)[a].feature != client@.take(i as int)[b].feature);
                }
            }
            assert forall|a: int| 0 <= a < longer.len() implies valid_range(
                #[trigger] longer[a],
            ) by {
                if a < i {
                    assert(client@.take(i as int)[a] == longer[a]);
                }
            }
        }
        i += 1;
    }
    assert(client@.take(client@.len() as int) =~= client@);
    true
}

/// What is wrong with the features that a client offers, if anything.
pub open spec fn offer_fault(client: Seq<FeatureVersion>) -> Option<Seq<char>> {
    if client.len() > MAX_CLIENT_FEATURES {
        Some("too many client features"@)
    } else if !valid_ranges(client) {
        Some("invalid client feature range"@)
    } else {
        None
    }
}

/// Agrees on features.
pub fn negotiate_features(client: &[FeatureVersion], server: &[FeatureVersion]) -> (r: Result<
    SelectedFeatures,
    ProtocolError,
>)
    ensures
        match offer_fault(client@) {
            Some(fault) => crate::error::fails_with(r, fault),
            None => r is Ok && r->Ok_0.wf() && r->Ok_0@ == negotiated(client@, server@),
        },
{
    if client.len() > MAX_CLIENT_FEATURES {
        return Err(other("too many client features"));
    }
    if !are_valid_ranges(client) {
        return Err(other("invalid client feature range"));
    }
    let mut selected = SelectedFeatures::new();
    let mut i: usize = 0;
    while i < server.len()
        invariant
            i <= server@.len(),
            valid_ranges(client@),
            selected.wf(),
            selected@ == negotiated(client@, server@.take(i as int)),
        decreases server@.len() - i,
    {
        let own = server[i];
        proof {
            let longer = server@.take(i as int + 1);
            assert(longer.drop_last() =~= server@.take(i as int));
            assert(longer.last() == own);
        }
        if let Some(range) = find_range(client, own.feature) {
            let minimum: u32 = if range.min_version > own.min_version {
                range.min_version
            } else {
                own.min_version
            };
            let maximum: u32 = if range.max_version < own.max_version {
                range.max_version
            } else {
                own.max_version
            };
            if minimum <= maximum {
                selected.insert(own.feature, maximum);
            }
        }
        i += 1;
    }
    assert(server@.take(server@.len() as int) =~= server@);
    Ok(selected)
}

/// How large frames, chunks and documents may be on the wire.
#[derive(Debug, Clone, Copy, PartialEq, Eq, Structural)]
pub struct WireLimits {
    pub max_control_frame_bytes: u32,
    pub max_reliable_input_frame_bytes: u32,
    pub max_datagram_bytes: u32,
    pub max_blob_chunk_bytes: u32,
    pub max_remote_file_message_bytes: u32,
    pub max_remote_file_content_bytes: u64,
    pub max_print_chunk_bytes: u32,
    pub max_print_document_bytes: u64,
}

/// The limits that one side tells the other.
#[derive(Debug, Clone, Copy, PartialEq, Eq, Structural)]
pub struct ProtocolLimits {
    pub max_control_frame_bytes: u32,
    pub max_reliable_input_frame_bytes: u32,
    pub max_datagram_bytes: u32,
    pub max_concurrent_requests: u32,
    pub heartbeat_interval_ms: u32,
    pub heartbeat_timeout_ms: u32,
    pub max_blob_chunk_bytes: u32,
    pub max_remote_file_message_bytes: u32,
    pub max_remote_file_content_bytes: u64,
    pub max_print_chunk_bytes: u32,
    pub max_print_document_bytes: u64,
}

/// The limits that this side tells.
pub open spec fn own_limits(wire: WireLimits) -> ProtocolLimits {
    ProtocolLimits {
        max_control_frame_bytes: wire.max_control_frame_bytes,
        max_reliable_input_frame_bytes: wire.max_reliable_input_frame_bytes,
        max_datagram_bytes: wire.max_datagram_bytes,
        max_concurrent_requests: MAX_CONCURRENT_REQUESTS,
        heartbeat_interval_ms: HEARTBEAT_INTERVAL_MS,
        heartbeat_timeout_ms: HEARTBEAT_TIMEOUT_MS,
        max_blob_chunk_bytes: wire.max_blob_chunk_bytes,
        max_remote_file_message_bytes: wire.max_remote_file_message_bytes,
        max_remote_file_content_bytes: wire.max_remote_file_content_bytes,
        max_print_chunk_bytes: wire.max_print_chunk_bytes,
        max_print_document_bytes: wire.max_print_document_bytes,
    }
}

/// The limits that this side tells.
pub fn protocol_limits(wire: &WireLimits) -> (r: ProtocolLimits)
    ensures
        r == own_limits(*wire),
{
    ProtocolLimits {
        max_control_frame_bytes: wire.max_control_frame_bytes,
        max_reliable_input_frame_bytes: wire.max_reliable_input_frame_bytes,
        max_datagram_bytes: wire.max_datagram_bytes,
        max_concurrent_requests: MAX_CONCURRENT_REQUESTS,
        heartbeat_interval_ms: HEARTBEAT_INTERVAL_MS,
        heartbeat_timeout_ms: HEARTBEAT_TIMEOUT_MS,
        max_blob_chunk_bytes: wire.max_blob_chunk_bytes,
        max_remote_file_message_bytes: wire.max_remote_file_message_bytes,
        max_remote_file_content_bytes: wire.max_remote_file_content_bytes,
        max_print_chunk_bytes: wire.max_print_chunk_bytes,
        max_print_document_bytes: wire.max_print_document_bytes,
    }
}

fn offers(features: &[FeatureVersion], feature: Feature) -> (r: bool)
    ensures
        r == ranges_have(features@, feature),
{
    let mut i: usize = 0;
    while i < features.len()
        invariant
            i <= features@.len(),
            forall|j: int| 0 <= j < i ==> #[trigger] features@[j].feature != feature,
        decreases features@.len() - i,
    {
        if features[i].feature == feature {
            return true;
        }
        i += 1;
    }
    false
}

/// True when a limit is too high, or too low for a feature that needs it.
pub open spec fn bad_limit(value: int, maximum: int, needed: bool, minimum: int) -> bool {
    value > maximum || (needed && value < minimum)
}

/// The first limit of a client that this side cannot work with, if there is one.
pub open spec fn bad_limit_name(
    limits: ProtocolLimits,
    features: Seq<FeatureVersion>,
    wire: WireLimits,
) -> Option<Seq<char>> {
    let files = ranges_have(features, Feature::RemoteFiles);
    let printing = ranges_have(features, Feature::Printing);
    if !(4096 <= limits.max_control_frame_bytes <= wire.max_control_frame_bytes) {
        Some("max_control_frame_bytes"@)
    } else if bad_limit(
        limits.max_reliable_input_frame_bytes as int,
        wire.max_reliable_input_frame_bytes as int,
        ranges_have(features, Feature::InputReliable),
        1,
    ) {
        Some("max_reliable_input_frame_bytes"@)
    } else if bad_limit(
        limits.max_datagram_bytes as int,
        wire.max_datagram_bytes as int,
        ranges_have(features, Feature::InputDatagram),
        1,
    ) {
        Some("max_datagram_bytes"@)
    } else if !(1 <= limits.max_concurrent_requests <= 1024) {
        Some("max_concurrent_requests"@)
    } else if bad_limit(
        limits.max_blob_chunk_bytes as int,
        wire.max_blob_chunk_bytes as int,
        ranges_have(features, Feature::Blobs),
        1,
    ) {
        Some("max_blob_chunk_bytes"@)
    } else if !(1_000 <= limits.heartbeat_interval_ms <= 120_000) {
        Some("heartbeat_interval_ms"@)
    } else if limits.heartbeat_timeout_ms < 2 * limits.heartbeat_interval_ms
        || limits.heartbeat_timeout_ms > 300_000 {
        Some("heartbeat_timeout_ms"@)
    } else if bad_limit(
        limits.max_remote_file_message_bytes as int,
        wire.max_remote_file_message_bytes as int,
        files,
        4096,
    ) {
        Some("max_remote_file_message_bytes"@)
    } else if bad_limit(
        limits.max_remote_file_content_bytes as int,
        wire.max_remote_file_content_bytes as int,
        files,
        1,
    ) {
        Some("max_remote_file_content_bytes"@)
    } else if bad_limit(
        limits.max_print_chunk_bytes as int,
        wire.max_print_chunk_bytes as int,
        printing,
        1,
    ) {
        Some("max_print_chunk_bytes"@)
    } else if bad_limit(
        limits.max_print_document_bytes as int,
        wire.max_print_document_bytes as int,
        printing,
        1,
    ) {
        Some("max_print_document_bytes"@)
    } else {
        None
    }
}

/// What is wrong with the limits of a client, if anything.
pub open spec fn limits_fault(
    limits: Option<&ProtocolLimits>,
    features: Seq<FeatureVersion>,
    wire: WireLimits,
) -> Option<Seq<char>> {
    match limits {
        None => Some("client receive limits are required"@),
        Some(limits) => match bad_limit_name(*limits, features, wire) {
            Some(name) => Some("invalid client receive limit: "@ + name),
            None => None,
        },
    }
}

fn invalid(field: &str) -> (r: ProtocolError)
    ensures
        r matches ProtocolError::Other(text) && text@ == "invalid client receive limit: "@ + field@,
{
    let mut message = "invalid client receive limit: ".to_owned();
    message.append(field);
    ProtocolError::Other(message)
}

/// Checks the limits of a client against the features that it offers.
pub fn validate_receive_limits(
    limits: Option<&ProtocolLimits>,
    features: &[FeatureVersion],
    wire: &WireLimits,
) -> (r: Result<(), ProtocolError>)
    ensures
        match limits_fault(limits, features@, *wire) {
            Some(fault) => crate::error::fails_with(r, fault),
            None => r is Ok,
        },
{
    let limits = match limits {
        None => {
            return Err(other("client receive limits are required"));
        },
        Some(limits) => limits,
    };
    if limits.max_control_frame_bytes < 4096 || limits.max_control_frame_bytes
        > wire.max_control_frame_bytes {
        return Err(invalid("max_control_frame_bytes"));
    }
    if limits.max_reliable_input_frame_bytes > wire.max_reliable_input_frame_bytes || (offers(
        features,
        Feature::InputReliable,
    ) && limits.max_reliable_input_frame_bytes == 0) {
        return Err(invalid("max_reliable_input_frame_bytes"));
    }
    if limits.max_datagram_bytes > wire.max_datagram_bytes || (offers(
        features,
        Feature::InputDatagram,
    ) && limits.max_datagram_bytes == 0) {
        return Err(invalid("max_datagram_bytes"));
    }
    if limits.max_concurrent_requests < 1 || limits.max_concurrent_requests > 1024 {
        return Err(invalid("max_concurrent_requests"));
    }
    if limits.max_blob_chunk_bytes > wire.max_blob_chunk_bytes || (offers(features, Feature::Blobs)
        && limits.max_blob_chunk_bytes == 0) {
        return Err(invalid("max_blob_chunk_bytes"));
    }
    if limits.heartbeat_interval_ms < 1_000 || limits.heartbeat_interval_ms > 120_000 {
        return Err(invalid("heartbeat_interval_ms"));
    }
    if limits.heartbeat_timeout_ms < 2 * limits.heartbeat_interval_ms || limits.heartbeat_timeout_ms
        > 300_000 {
        return Err(invalid("heartbeat_timeout_ms"));
    }
    let files = offers(features, Feature::RemoteFiles);
    if limits.max_remote_file_message_bytes > wire.max_remote_file_message_bytes || (files
        && limits.max_remote_file_message_bytes < 4096) {
        return Err(invalid("max_remote_file_message_bytes"));
    }
    if limits.max_remote_file_content_bytes > wire.max_remote_file_content_bytes || (files
        && limits.max_remote_file_content_bytes == 0) {
        return Err(invalid("max_remote_file_content_bytes"));
    }
    let printing = offers(features, Feature::Printing);
    if limits.max_print_chunk_bytes > wire.max_print_chunk_bytes || (printing
        && limits.max_print_chunk_bytes == 0) {
        return Err(invalid("max_print_chunk_bytes"));
    }
    if limits.max_print_document_bytes > wire.max_print_document_bytes || (printing
        && limits.max_print_document_bytes == 0) {
        return Err(invalid("max_print_document_bytes"));
    }
    Ok(())
}

/// The shares that a granted capability is limited to.
#[derive(Debug, PartialEq, Eq)]
pub struct RemoteFileConstraints {
    pub share_ids: Vec<String>,
    pub writable: bool,
}

/// A grant as it is told to the other side.
#[derive(Debug, PartialEq, Eq)]
pub struct GrantedCapability {
    pub capability: PeerCapability,
    pub direction: GrantDirection,
    pub constraints: Option<RemoteFileConstraints>,
    pub granted_at_ms: i64,
}

/// True when `told` is `grant` as it is told.
pub open spec fn tells_grant(told: GrantedCapability, grant: Grant) -> bool {
    &&& told.capability == grant.capability
    &&& told.direction == grant.direction
    &&& told.granted_at_ms == grant.granted_at_ms
    &&& match grant.constraints {
        GrantConstraints::Unconstrained => told.constraints is None,
        GrantConstraints::RemoteFileShares { share_ids, writable } => {
            &&& told.constraints is Some
            &&& told.constraints->0.share_ids@ == share_ids@
            &&& told.constraints->0.writable == writable
        },
    }
}

/// A grant as it is told to the other side.
pub fn grant_to_proto(grant: &Grant) -> (r: GrantedCapability)
    ensures
        tells_grant(r, *grant),
{
    let constraints = match &grant.constraints {
        GrantConstraints::Unconstrained => None,
        GrantConstraints::RemoteFileShares { share_ids, writable } => {
            let mut copies: Vec<String> = Vec::new();
            let mut i: usize = 0;
            while i < share_ids.len()
                invariant
                    i <= share_ids@.len(),
                    copies@ == share_ids@.take(i as int),
                decreases share_ids@.len() - i,
            {
                copies.push(share_ids[i].clone());
                assert(copies@ =~= share_ids@.take(i as int + 1));
                i += 1;
            }
            assert(copies@ =~= share_ids@);
            Some(RemoteFileConstraints { share_ids: copies, writable: *writable })
        },
    };
    GrantedCapability {
        capability: grant.capability,
        direction: grant.direction,
        constraints,
        granted_at_ms: grant.granted_at_ms,
    }
}

/// What the other side may do here: the capabilities of the inbound grants.
pub open spec fn inbound(grants: Seq<Grant>, capability: PeerCapability) -> bool {
    exists|i: int|
        0 <= i < grants.len() && (#[trigger] grants[i]).capability == capability
            && grants[i].direction == GrantDirection::Inbound
}

/// Lists what the other side may do here.
pub fn inbound_capabilities(grants: &Vec<Grant>) -> (r: Vec<PeerCapability>)
    ensures
        forall|capability: PeerCapability| #[trigger]
            r@.contains(capability) <==> inbound(grants@, capability),
{
    let mut out: Vec<PeerCapability> = Vec::new();
    let mut i: usize = 0;
    while i < grants.len()
        invariant
            i <= grants@.len(),
            forall|k: int| 0 <= k < out@.len() ==> inbound(grants@, #[trigger] out@[k]),
            forall|k: int|
                0 <= k < i && (#[trigger] grants@[k]).direction == GrantDirection::Inbound
                    ==> out@.contains(grants@[k].capability),
        decreases grants@.len() - i,
    {
        if grants[i].direction == GrantDirection::Inbound {
            let ghost before = out@;
            out.push(grants[i].capability);
            proof {
                assert(out@[before.len() as int] == grants@[i as int].capability);
                assert forall|k: int|
                    0 <= k < i && (#[trigger] grants@[k]).direction
                        == GrantDirection::Inbound implies out@.contains(
                    grants@[k].capability,
                ) by {
                    let c = grants@[k].capability;
                    assert(before.contains(c));
                    let m = choose|m: int| 0 <= m < before.len() && before[m] == c;
                    assert(out@[m] == c);
                }
            }
        }
        i += 1;
    }
    out
}

/// What a host takes part in: always in what needs nothing of it, in the rest if it
/// has what it takes, and never in what there is not.
pub proof fn lemma_what_a_host_offers(offer: HostOffer)
    ensures
        offered(offer, Feature::Subscriptions),
        offered(offer, Feature::System),
        offered(offer, Feature::Processes),
        offered(offer, Feature::Media),
        offered(offer, Feature::Clipboard),
        offered(offer, Feature::ClipboardSync),
        offered(offer, Feature::Windows),
        offered(offer, Feature::Blobs),
        offered(offer, Feature::Actions) == offer.actions,
        offered(offer, Feature::Notifications) == offer.notifications,
        offered(offer, Feature::RemoteFiles) == offer.remote_files,
        offered(offer, Feature::InputReliable) == offer.input,
        offered(offer, Feature::WorkspaceInput) == (offer.input && offer.workspace_input),
        !offered(offer, Feature::Unspecified),
        !offered(offer, Feature::InputDatagram),
        !offered(offer, Feature::Printing),
{
}

/// The version that two sides settle on lies in both ranges and no higher one does;
/// there is none only if the ranges do not meet.
pub proof fn lemma_highest_version_in_both(a: FeatureVersion, b: FeatureVersion, v: u32)
    ensures
        highest_common(a, b) is Some ==> {
            let version = highest_common(a, b)->0;
            &&& a.min_version <= version <= a.max_version
            &&& b.min_version <= version <= b.max_version
        },
        a.min_version <= v <= a.max_version && b.min_version <= v <= b.max_version
            ==> highest_common(a, b) is Some && highest_common(a, b)->0 >= v,
        highest_common(a, b) == highest_common(b, a),
{
}

/// A grant is told as it is: the same capability, in the same direction, since the
/// same time and within the same bounds.
pub proof fn lemma_grants_are_told_as_they_are(told: GrantedCapability, grant: Grant)
    requires
        tells_grant(told, grant),
    ensures
        told.capability == grant.capability,
        told.direction is Inbound <==> grant.direction is Inbound,
        told.granted_at_ms == grant.granted_at_ms,
        told.constraints is Some <==> grant.constraints is RemoteFileShares,
        told.constraints is Some ==> told.constraints->0.writable
            == grant.constraints->writable && told.constraints->0.share_ids@
            == grant.constraints->share_ids@,
{
}

/// Only an inbound grant lets the other side do something here.
pub proof fn lemma_outbound_grants_let_nobody_in(grants: Seq<Grant>, capability: PeerCapability)
    ensures
        (forall|i: int|
            0 <= i < grants.len() && (#[trigger] grants[i]).capability == capability
                ==> !(grants[i].direction is Inbound)) ==> !inbound(grants, capability),
        forall|i: int|
            #![trigger grants[i]]
            0 <= i < grants.len() && grants[i].capability == capability
                && grants[i].direction is Inbound ==> inbound(grants, capability),
{
}

/// The limits that are told are those of the wire, each in its place.
pub proof fn lemma_told_limits_are_those_of_the_wire(wire: WireLimits)
    ensures
        own_limits(wire).max_control_frame_bytes == wire.max_control_frame_bytes,
        own_limits(wire).max_reliable_input_frame_bytes == wire.max_reliable_input_frame_bytes,
        own_limits(wire).max_datagram_bytes == wire.max_datagram_bytes,
        own_limits(wire).max_blob_chunk_bytes == wire.max_blob_chunk_bytes,
        own_limits(wire).max_remote_file_message_bytes == wire.max_remote_file_message_bytes,
        own_limits(wire).max_remote_file_content_bytes == wire.max_remote_file_content_bytes,
        own_limits(wire).max_print_chunk_bytes == wire.max_print_chunk_bytes,
        own_limits(wire).max_print_document_bytes == wire.max_print_document_bytes,
        own_limits(wire).heartbeat_timeout_ms >= 2 * own_limits(wire).heartbeat_interval_ms,
{
}

/// Limits of a client that are accepted are ones that this side can work with: none
/// is higher than that of the wire, and what a feature needs is there.
pub proof fn lemma_accepted_limits(
    limits: ProtocolLimits,
    features: Seq<FeatureVersion>,
    wire: WireLimits,
)
    requires
        limits_fault(Some(&limits), features, wire) is None,
    ensures
        4096 <= limits.max_control_frame_bytes <= wire.max_control_frame_bytes,
        limits.max_reliable_input_frame_bytes <= wire.max_reliable_input_frame_bytes,
        limits.max_datagram_bytes <= wire.max_datagram_bytes,
        1 <= limits.max_concurrent_requests <= 1024,
        limits.max_blob_chunk_bytes <= wire.max_blob_chunk_bytes,
        1_000 <= limits.heartbeat_interval_ms <= 120_000,
        2 * limits.heartbeat_interval_ms <= limits.heartbeat_timeout_ms <= 300_000,
        limits.max_remote_file_message_bytes <= wire.max_remote_file_message_bytes,
        limits.max_remote_file_content_bytes <= wire.max_remote_file_content_bytes,
        limits.max_print_chunk_bytes <= wire.max_print_chunk_bytes,
        limits.max_print_document_bytes <= wire.max_print_document_bytes,
        ranges_have(features, Feature::InputReliable) ==> limits.max_reliable_input_frame_bytes
            > 0,
        ranges_have(features, Feature::Blobs) ==> limits.max_blob_chunk_bytes > 0,
        ranges_have(features, Feature::RemoteFiles) ==> limits.max_remote_file_message_bytes
            >= 4096 && limits.max_remote_file_content_bytes > 0,
{
}

/// Limits within those of the wire are accepted of a client that asks for nothing
/// that needs more.
pub proof fn lemma_ordinary_limits_are_accepted(
    limits: ProtocolLimits,
    features: Seq<FeatureVersion>,
    wire: WireLimits,
)
    requires
        4096 <= limits.max_control_frame_bytes <= wire.max_control_frame_bytes,
        1 <= limits.max_reliable_input_frame_bytes <= wire.max_reliable_input_frame_bytes,
        1 <= limits.max_datagram_bytes <= wire.max_datagram_bytes,
        1 <= limits.max_concurrent_requests <= 1024,
        1 <= limits.max_blob_chunk_bytes <= wire.max_blob_chunk_bytes,
        1_000 <= limits.heartbeat_interval_ms <= 120_000,
        2 * limits.heartbeat_interval_ms <= limits.heartbeat_timeout_ms <= 300_000,
        4096 <= limits.max_remote_file_message_bytes <= wire.max_remote_file_message_bytes,
        1 <= limits.max_remote_file_content_bytes <= wire.max_remote_file_content_bytes,
        1 <= limits.max_print_chunk_bytes <= wire.max_print_chunk_bytes,
        1 <= limits.max_print_document_bytes <= wire.max_print_document_bytes,
    ensures
        limits_fault(Some(&limits), features, wire) is None,
{
}

/// A host knows one version of each feature: the second of remote files, the first of
/// every other one.
pub proof fn lemma_versions_that_are_known(feature: Feature)
    ensures
        known_version(feature).feature == feature,
        known_version(feature).min_version == known_version(feature).max_version,
        feature is RemoteFiles ==> known_version(feature).max_version == 2,
        !(feature is RemoteFiles) ==> known_version(feature).max_version == 1,
{
}

/// A client may offer up to 64 features, each once and with a range of versions that
/// holds one; any other offer is refused.
pub proof fn lemma_proper_offers(client: Seq<FeatureVersion>, i: int, j: int)
    requires
        0 <= i < client.len(),
        0 <= j < client.len(),
    ensures
        offer_fault(client) is None ==> client.len() <= 64 && !(client[i].feature is Unspecified)
            && 0 < client[i].min_version <= client[i].max_version,
        offer_fault(client) is None && i != j ==> client[i].feature != client[j].feature,
        client.len() > 64 ==> offer_fault(client) == Some("too many client features"@),
        client.len() <= 64 && (client[i].feature is Unspecified || client[i].min_version == 0
            || client[i].min_version > client[i].max_version || (i != j && client[i].feature
            == client[j].feature)) ==> offer_fault(client) == Some(
            "invalid client feature range"@,
        ),
{
    let a = client[i];
    let b = client[j];
    assert(valid_ranges(client) ==> valid_range(a));
}

/// An offer of one feature in a proper range is taken.
pub proof fn lemma_single_offers_are_taken(v: FeatureVersion)
    requires
        !(v.feature is Unspecified),
        0 < v.min_version <= v.max_version,
    ensures
        offer_fault(seq![v]) is None,
{
}

} // verus!
