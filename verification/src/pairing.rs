//! Pairing: which capabilities a device asks for, and which of them it is given.

use vstd::prelude::*;
use vstd::string::*;

use crate::error::{other, ProtocolError};
use crate::features::{grant_to_proto, RemoteFileConstraints};
use crate::peer::{Grant, GrantConstraints, GrantDirection, PeerCapability};
use crate::text::{byte_len, str_eq};

verus! {

/// The feature that a stream for control is opened for.
pub const CONTROL_TYPE_URL: &'static str = "arcrelay.control";

/// The feature that a stream for pairing is opened for.
pub const PAIRING_TYPE_URL: &'static str = "arcrelay.pairing";

/// The number of grants that a device may ask for at once.
pub const MAX_REQUESTED_GRANTS: usize = 64;

/// The longest name of a capability, in bytes.
pub const MAX_CAPABILITY_BYTES: usize = 128;

/// The number of shares that a grant may be limited to.
pub const MAX_GRANT_SHARES: usize = 128;

/// The longest name of a share in a grant, in bytes.
pub const MAX_GRANT_SHARE_BYTES: usize = 256;

/// Checks the header of a stream for control, where `version_ok` tells whether
/// its version can be spoken.
pub fn check_control_stream(feature_id: &str, version_ok: bool, payload_len: usize) -> (r: Result<
    (),
    ProtocolError,
>)
    ensures
        if feature_id@ == CONTROL_TYPE_URL@ && version_ok && payload_len == 0 {
            r is Ok
        } else {
            crate::error::fails_with(r, "invalid v1 control stream header"@)
        },
{
    if !str_eq(feature_id, CONTROL_TYPE_URL) || !version_ok || payload_len != 0 {
        return Err(other("invalid v1 control stream header"));
    }
    Ok(())
}

/// Checks the header of a stream for pairing, where `version_ok` tells whether
/// its version can be spoken.
pub fn check_pairing_stream(feature_id: &str, version_ok: bool) -> (r: Result<(), ProtocolError>)
    ensures
        if feature_id@ == PAIRING_TYPE_URL@ && version_ok {
            r is Ok
        } else {
            crate::error::fails_with(r, "invalid pairing stream type"@)
        },
{
    if !str_eq(feature_id, PAIRING_TYPE_URL) || !version_ok {
        return Err(other("invalid pairing stream type"));
    }
    Ok(())
}

/// The direction of a grant as it travels; unspecified also stands for one that
/// is not known.
#[derive(Debug, Clone, Copy, PartialEq, Eq, Structural)]
pub enum WireGrantDirection {
    Unspecified,
    Inbound,
    Outbound,
}

/// What a grant is limited to, as it travels. A kind that is missing also stands
/// for one that is not known.
#[derive(Debug, PartialEq, Eq)]
pub struct WireGrantConstraints {
    pub kind: Option<RemoteFileConstraints>,
}

/// A grant as it travels: the name of its capability, and the capability that
/// has this name, if there is one.
#[derive(Debug, PartialEq, Eq)]
pub struct WireGrant {
    pub capability: String,
    pub known: Option<PeerCapability>,
    pub direction: WireGrantDirection,
    pub constraints: Option<WireGrantConstraints>,
    pub granted_at_ms: i64,
}

/// What constraints that travelled mean, if anything.
pub open spec fn meant_constraints(constraints: Option<WireGrantConstraints>) -> Option<
    GrantConstraints,
> {
    match constraints {
        None => Some(GrantConstraints::Unconstrained),
        Some(WireGrantConstraints { kind: None }) => None,
        Some(WireGrantConstraints { kind: Some(shares) }) => Some(
            GrantConstraints::RemoteFileShares {
                share_ids: shares.share_ids,
                writable: shares.writable,
            },
        ),
    }
}

/// Reads the constraints of a grant.
pub fn decode_pairing_constraints(constraints: Option<WireGrantConstraints>) -> (r: Result<
    GrantConstraints,
    ProtocolError,
>)
    ensures
        match meant_constraints(constraints) {
            Some(meant) => r == Ok::<GrantConstraints, ProtocolError>(meant),
            None => crate::error::fails_with(r, "unknown or empty grant constraints"@),
        },
{
    match constraints {
        None => Ok(GrantConstraints::Unconstrained),
        Some(WireGrantConstraints { kind: None }) => Err(
            other("unknown or empty grant constraints"),
        ),
        Some(WireGrantConstraints { kind: Some(shares) }) => Ok(
            GrantConstraints::RemoteFileShares {
                share_ids: shares.share_ids,
                writable: shares.writable,
            },
        ),
    }
}

/// True when `wire` is `constraints` as they travel.
pub open spec fn tells_constraints(
    wire: Option<WireGrantConstraints>,
    constraints: GrantConstraints,
) -> bool {
    match constraints {
        GrantConstraints::Unconstrained => wire is None,
        GrantConstraints::RemoteFileShares { share_ids, writable } => {
            &&& wire is Some
            &&& wire->0.kind is Some
            &&& wire->0.kind->0.share_ids@ == share_ids@
            &&& wire->0.kind->0.writable == writable
        },
    }
}

/// Writes the constraints of a grant.
pub fn encode_pairing_constraints(grant: &Grant) -> (r: Option<WireGrantConstraints>)
    ensures
        tells_constraints(r, grant.constraints),
{
    match grant_to_proto(grant).constraints {
        None => None,
        Some(shares) => Some(WireGrantConstraints { kind: Some(shares) }),
    }
}

/// True when two constraints limit a grant in the same way.
pub open spec fn same_constraints(a: GrantConstraints, b: GrantConstraints) -> bool {
    match (a, b) {
        (GrantConstraints::Unconstrained, GrantConstraints::Unconstrained) => true,
        (
            GrantConstraints::RemoteFileShares { share_ids: x, writable: v },
            GrantConstraints::RemoteFileShares { share_ids: y, writable: w },
        ) => x@ == y@ && v == w,
        _ => false,
    }
}

/// What is written of constraints is read as the same constraints.
pub proof fn lemma_constraints_round_trip(
    wire: Option<WireGrantConstraints>,
    constraints: GrantConstraints,
)
    requires
        tells_constraints(wire, constraints),
    ensures
        meant_constraints(wire) is Some,
        same_constraints(meant_constraints(wire)->0, constraints),
{
}

/// What is wrong with limiting a capability in this way, if anything. Only
/// remote files can be limited to shares, and the right to write goes with the
/// capability to write.
pub open spec fn constraints_fault(
    capability: PeerCapability,
    constraints: GrantConstraints,
) -> Option<Seq<char>> {
    match constraints {
        GrantConstraints::Unconstrained => None,
        GrantConstraints::RemoteFileShares { share_ids, writable } => {
            let fits = (capability == PeerCapability::RemoteFilesRead && !writable) || (capability
                == PeerCapability::RemoteFilesWrite && writable);
            if !fits || share_ids@.len() > MAX_GRANT_SHARES {
                Some("invalid remote-file grant constraints"@)
            } else if !proper_shares(share_ids@) {
                Some("invalid remote-file share constraint"@)
            } else {
                None
            }
        },
    }
}

/// True when every share has a name of a proper length, and no two have the
/// same.
pub open spec fn proper_shares(share_ids: Seq<String>) -> bool {
    &&& forall|i: int|
        0 <= i < share_ids.len() ==> (#[trigger] share_ids[i])@.len() > 0 && crate::text::utf8_len(
            share_ids[i]@,
        ) <= MAX_GRANT_SHARE_BYTES
    &&& forall|i: int, j: int|
        0 <= i < j < share_ids.len() ==> (#[trigger] share_ids[i])@ != (#[trigger] share_ids[j])@
}

fn are_proper_shares(share_ids: &Vec<String>) -> (r: bool)
    ensures
        r == proper_shares(share_ids@),
{
    let mut i: usize = 0;
    while i < share_ids.len()
        invariant
            i <= share_ids@.len(),
            proper_shares(share_ids@.take(i as int)),
        decreases share_ids@.len() - i,
    {
        let id = share_ids[i].as_str();
        if id.is_empty() || byte_len(id) > MAX_GRANT_SHARE_BYTES {
            assert(!(share_ids@[i as int]@.len() > 0 && crate::text::utf8_len(
                share_ids@[i as int]@,
            ) <= MAX_GRANT_SHARE_BYTES));
            return false;
        }
        let mut j: usize = 0;
        while j < i
            invariant
                j <= i < share_ids@.len(),
                id@ == share_ids@[i as int]@,
                forall|k: int| 0 <= k < j ==> (#[trigger] share_ids@[k])@ != id@,
            decreases i - j,
        {
            if str_eq(share_ids[j].as_str(), id) {
                assert(share_ids@[j as int]@ == share_ids@[i as int]@);
                return false;
            }
            j += 1;
        }
        proof {
            let longer = share_ids@.take(i as int + 1);
            assert forall|k: int| 0 <= k < longer.len() implies (#[trigger] longer[k])@.len() > 0
                && crate::text::utf8_len(longer[k]@) <= MAX_GRANT_SHARE_BYTES by {
                if k < i {
                    assert(share_ids@.take(i as int)[k] == longer[k]);
                }
            }
            assert forall|k: int, m: int| 0 <= k < m < longer.len() implies (
            #[trigger] longer[k])@ != (#[trigger] longer[m])@ by {
                if m < i {
                    assert(share_ids@.take(i as int)[k] == longer[k]);
                    assert(share_ids@.take(i as int)[m] == longer[m]);
                } else {
                    assert(share_ids@[k] == longer[k]);
                }
            }
        }
        i += 1;
    }
    assert(share_ids@.take(i as int) =~= share_ids@);
    true
}

/// Checks that a capability can be limited in this way.
pub fn validate_grant_constraints(capability: PeerCapability, constraints: &GrantConstraints) -> (r:
    Result<(), ProtocolError>)
    ensures
        match constraints_fault(capability, *constraints) {
            Some(fault) => crate::error::fails_with(r, fault),
            None => r is Ok,
        },
{
    match constraints {
        GrantConstraints::Unconstrained => Ok(()),
        GrantConstraints::RemoteFileShares { share_ids, writable } => {
            let fits = match capability {
                PeerCapability::RemoteFilesRead => !*writable,
                PeerCapability::RemoteFilesWrite => *writable,
                _ => false,
            };
            if !fits || share_ids.len() > MAX_GRANT_SHARES {
                return Err(other("invalid remote-file grant constraints"));
            }
            if !are_proper_shares(share_ids) {
                return Err(other("invalid remote-file share constraint"));
            }
            Ok(())
        },
    }
}

/// What is wrong with a grant that a device asks for after it asked for others,
/// if anything.
pub open spec fn grant_fault(earlier: Seq<WireGrant>, wire: WireGrant) -> Option<Seq<char>> {
    if wire.capability@.len() == 0 || crate::text::utf8_len(wire.capability@)
        > MAX_CAPABILITY_BYTES || wire.granted_at_ms != 0 {
        Some("invalid pairing capability request"@)
    } else if wire.known is None {
        Some("unknown capability "@ + wire.capability@)
    } else if wire.direction == WireGrantDirection::Unspecified {
        Some("invalid pairing grant direction"@)
    } else if asked(earlier, wire) {
        Some("duplicate pairing capability request"@)
    } else {
        match meant_constraints(wire.constraints) {
            None => Some("unknown or empty grant constraints"@),
            Some(constraints) => constraints_fault(wire.known->0, constraints),
        }
    }
}

/// True when a device has asked for the same capability in the same direction.
pub open spec fn asked(earlier: Seq<WireGrant>, wire: WireGrant) -> bool {
    exists|i: int|
        0 <= i < earlier.len() && (#[trigger] earlier[i]).known == wire.known
            && earlier[i].direction == wire.direction
}

/// What is wrong with the first bad grant that a device asks for, if anything.
pub open spec fn grants_fault(list: Seq<WireGrant>) -> Option<Seq<char>>
    decreases list.len(),
{
    if list.len() == 0 {
        None
    } else {
        match grants_fault(list.drop_last()) {
            Some(fault) => Some(fault),
            None => grant_fault(list.drop_last(), list.last()),
        }
    }
}

/// What is wrong with what a device asks for, if anything.
pub open spec fn request_fault(list: Seq<WireGrant>) -> Option<Seq<char>> {
    if list.len() > MAX_REQUESTED_GRANTS {
        Some("too many requested capabilities"@)
    } else {
        grants_fault(list)
    }
}

/// What a grant that travelled means.
pub open spec fn meant_grant(wire: WireGrant, now: i64) -> Grant {
    Grant {
        capability: wire.known->0,
        direction: if wire.direction == WireGrantDirection::Inbound {
            GrantDirection::Inbound
        } else {
            GrantDirection::Outbound
        },
        constraints: meant_constraints(wire.constraints)->0,
        granted_at_ms: now,
    }
}

/// What grants that travelled mean.
pub open spec fn meant_grants(list: Seq<WireGrant>, now: i64) -> Seq<Grant> {
    list.map_values(|wire: WireGrant| meant_grant(wire, now))
}

proof fn lemma_first_fault(list: Seq<WireGrant>, n: int)
    requires
        0 <= n <= list.len(),
        grants_fault(list.take(n)) is Some,
    ensures
        grants_fault(list) == grants_fault(list.take(n)),
    decreases list.len(),
{
    if n < list.len() {
        assert(list.drop_last().take(n) =~= list.take(n));
        lemma_first_fault(list.drop_last(), n);
    } else {
        assert(list.take(n) =~= list);
    }
}

proof fn lemma_no_fault(list: Seq<WireGrant>, n: int)
    requires
        0 <= n < list.len(),
        grants_fault(list) is None,
    ensures
        grant_fault(list.take(n), list[n]) is None,
    decreases list.len(),
{
    if n < list.len() - 1 {
        assert(list.drop_last().take(n) =~= list.take(n));
        lemma_no_fault(list.drop_last(), n);
    } else {
        assert(list.take(n) =~= list.drop_last());
    }
}

fn read_grant(earlier: &Vec<Grant>, wire: WireGrant, now: i64, Ghost(before): Ghost<Seq<WireGrant>>)
    -> (r: Result<Grant, ProtocolError>)
    requires
        grants_fault(before) is None,
        earlier@ == meant_grants(before, now),
    ensures
        match grant_fault(before, wire) {
            Some(fault) => crate::error::fails_with(r, fault),
            None => r == Ok::<Grant, ProtocolError>(meant_grant(wire, now)),
        },
{
    if wire.capability.as_str().is_empty() || byte_len(wire.capability.as_str())
        > MAX_CAPABILITY_BYTES || wire.granted_at_ms != 0 {
        return Err(other("invalid pairing capability request"));
    }
    let capability = match wire.known {
        Some(capability) => capability,
        None => {
            let mut message = "unknown capability ".to_owned();
            message.append(wire.capability.as_str());
            return Err(ProtocolError::Other(message));
        },
    };
    let direction = match wire.direction {
        WireGrantDirection::Inbound => GrantDirection::Inbound,
        WireGrantDirection::Outbound => GrantDirection::Outbound,
        WireGrantDirection::Unspecified => {
            return Err(other("invalid pairing grant direction"));
        },
    };
    let mut i: usize = 0;
    while i < earlier.len()
        invariant
            i <= earlier@.len(),
            earlier@ == meant_grants(before, now),
            grants_fault(before) is None,
            wire.capability@.len() > 0,
            crate::text::utf8_len(wire.capability@) <= MAX_CAPABILITY_BYTES,
            wire.granted_at_ms == 0,
            wire.known == Some(capability),
            wire.direction != WireGrantDirection::Unspecified,
            direction == meant_grant(wire, now).direction,
            forall|k: int|
                0 <= k < i ==> (#[trigger] before[k]).known != wire.known || before[k].direction
                    != wire.direction,
        decreases earlier@.len() - i,
    {
        proof {
            lemma_no_fault(before, i as int);
            assert(earlier@[i as int] == meant_grant(before[i as int], now));
        }
        if earlier[i].capability == capability && earlier[i].direction == direction {
            assert(before[i as int].known == wire.known && before[i as int].direction
                == wire.direction);
            assert(asked(before, wire));
            return Err(other("duplicate pairing capability request"));
        }
        i += 1;
    }
    assert(!asked(before, wire));
    let constraints = match decode_pairing_constraints(wire.constraints) {
        Ok(constraints) => constraints,
        Err(error) => {
            return Err(error);
        },
    };
    if let Err(error) = validate_grant_constraints(capability, &constraints) {
        return Err(error);
    }
    Ok(Grant { capability, direction, constraints, granted_at_ms: now })
}

/// Reads what a device asks for, at the time `now`.
pub fn read_pairing_request(list: Vec<WireGrant>, now: i64) -> (r: Result<Vec<Grant>, ProtocolError>)
    ensures
        match request_fault(list@) {
            Some(fault) => crate::error::fails_with(r, fault),
            None => r is Ok && r->Ok_0@ == meant_grants(list@, now),
        },
{
    if list.len() > MAX_REQUESTED_GRANTS {
        return Err(other("too many requested capabilities"));
    }
    let ghost all = list@;
    let mut requested: Vec<Grant> = Vec::new();
    assert(requested@ =~= meant_grants(all.take(0), now));
    for wire in it: list.into_iter()
        invariant
            it.seq() == all,
            all == list@,
            all.len() <= MAX_REQUESTED_GRANTS,
            grants_fault(all.take(it.index())) is None,
            requested@ == meant_grants(all.take(it.index()), now),
    {
        let ghost n = it.index() as int;
        let ghost before = all.take(n);
        proof {
            assert(all.take(n + 1).drop_last() =~= before);
            assert(all.take(n + 1).last() == all[n]);
        }
        match read_grant(&requested, wire, now, Ghost(before)) {
            Ok(grant) => {
                requested.push(grant);
                assert(requested@ =~= meant_grants(all.take(n + 1), now));
            },
            Err(error) => {
                proof {
                    lemma_first_fault(all, n + 1);
                }
                return Err(error);
            },
        }
    }
    assert(all.take(all.len() as int) =~= all);
    Ok(requested)
}

/// Tells whether the user of the host is to be asked. A device that is paired
/// already and asks for nothing is let through.
pub fn needs_approval(already_paired: bool, requested: &Vec<Grant>) -> (r: bool)
    ensures
        r == !(already_paired && requested@.len() == 0),
{
    !(already_paired && requested.len() == 0)
}

/// What the user of the host decided: whether to pair, and which of the wished
/// capabilities to give.
#[derive(Debug, PartialEq, Eq)]
pub struct PairingApproval {
    pub accepted: bool,
    pub approved_grants: Vec<(PeerCapability, GrantDirection)>,
}

/// What a device asks the user of the host for.
#[derive(Debug, PartialEq, Eq)]
pub struct PairingRequestForApproval {
    pub device_name: String,
    pub device_id: String,
    pub pairing_code: String,
    pub requested_grants: Vec<Grant>,
}

/// The decision on a device that need not ask, and on one whose question was
/// not answered.
pub fn default_decision(asked_user: bool) -> (r: PairingApproval)
    ensures
        r.accepted == !asked_user,
        r.approved_grants@.len() == 0,
{
    PairingApproval { accepted: !asked_user, approved_grants: Vec::new() }
}

/// True when the decision gives what a grant asks for.
pub open spec fn approves(decision: PairingApproval, grant: Grant) -> bool {
    decision.accepted && decision.approved_grants@.contains((grant.capability, grant.direction))
}

/// The wished grants that a decision gives, in the order of the wishes.
pub open spec fn approved(requested: Seq<Grant>, decision: PairingApproval) -> Seq<Grant>
    decreases requested.len(),
{
    if requested.len() == 0 {
        Seq::empty()
    } else if approves(decision, requested.last()) {
        approved(requested.drop_last(), decision).push(requested.last())
    } else {
        approved(requested.drop_last(), decision)
    }
}

/// A decision gives nothing that was not asked for, nothing that it does not
/// name, and nothing at all if it is against pairing.
pub proof fn lemma_approved_within_request(
    requested: Seq<Grant>,
    decision: PairingApproval,
    grant: Grant,
)
    ensures
        approved(requested, decision).contains(grant) <==> requested.contains(grant) && approves(
            decision,
            grant,
        ),
        approved(requested, decision).len() <= requested.len(),
    decreases requested.len(),
{
    if requested.len() > 0 {
        let rest = requested.drop_last();
        let last = requested.last();
        lemma_approved_within_request(rest, decision, grant);
        let kept = approved(rest, decision);
        let all = approved(requested, decision);
        if all.contains(grant) {
            let i = choose|i: int| 0 <= i < all.len() && all[i] == grant;
            if i < kept.len() {
                assert(kept[i] == grant);
                let k = choose|k: int| 0 <= k < rest.len() && rest[k] == grant;
                assert(requested[k] == grant);
            } else {
                assert(requested[requested.len() - 1] == grant);
            }
        }
        if requested.contains(grant) && approves(decision, grant) {
            let k = choose|k: int| 0 <= k < requested.len() && requested[k] == grant;
            if k < rest.len() {
                assert(rest[k] == grant);
                let i = choose|i: int| 0 <= i < kept.len() && kept[i] == grant;
                assert(all[i] == grant);
            } else {
                assert(all[all.len() - 1] == grant);
            }
        }
    }
}

fn is_approved(decision: &PairingApproval, grant: &Grant) -> (r: bool)
    ensures
        r == approves(*decision, *grant),
{
    if !decision.accepted {
        return false;
    }
    let list = &decision.approved_grants;
    let mut i: usize = 0;
    while i < list.len()
        invariant
            i <= list@.len(),
            decision.accepted,
            list == decision.approved_grants,
            forall|k: int|
                0 <= k < i ==> (#[trigger] list@[k]) != (grant.capability, grant.direction),
        decreases list@.len() - i,
    {
        if list[i].0 == grant.capability && list[i].1 == grant.direction {
            assert(list@[i as int] == (grant.capability, grant.direction));
            return true;
        }
        i += 1;
    }
    false
}

/// The wished grants that a decision gives.
pub fn approve(requested: Vec<Grant>, decision: &PairingApproval) -> (r: Vec<Grant>)
    ensures
        r@ == approved(requested@, *decision),
{
    let ghost all = requested@;
    let mut kept: Vec<Grant> = Vec::new();
    for grant in it: requested.into_iter()
        invariant
            it.seq() == all,
            all == requested@,
            kept@ == approved(all.take(it.index()), *decision),
    {
        let ghost n = it.index() as int;
        proof {
            assert(all.take(n + 1).drop_last() =~= all.take(n));
            assert(all.take(n + 1).last() == all[n]);
        }
        if is_approved(decision, &grant) {
            kept.push(grant);
        }
    }
    assert(all.take(all.len() as int) =~= all);
    kept
}

/// What a device is told of its wish to pair.
#[derive(Debug, PartialEq, Eq)]
pub struct PairingResponse {
    pub paired: bool,
    pub peer_id: String,
    pub error: String,
    pub granted: Vec<PairedGrant>,
}

/// A grant that was given, as the device is told.
#[derive(Debug, PartialEq, Eq)]
pub struct PairedGrant {
    pub capability: PeerCapability,
    pub direction: WireGrantDirection,
    pub constraints: Option<WireGrantConstraints>,
    pub granted_at_ms: i64,
}

/// True when `told` is `grant` as the device is told.
pub open spec fn tells_paired(told: PairedGrant, grant: Grant) -> bool {
    &&& told.capability == grant.capability
    &&& told.direction == match grant.direction {
        GrantDirection::Inbound => WireGrantDirection::Inbound,
        GrantDirection::Outbound => WireGrantDirection::Outbound,
    }
    &&& tells_constraints(told.constraints, grant.constraints)
    &&& told.granted_at_ms == grant.granted_at_ms
}

/// Answers the wish to pair.
pub fn pairing_response(accepted: bool, own_device_id: &str, granted: &Vec<Grant>) -> (r:
    PairingResponse)
    ensures
        r.paired == accepted,
        r.peer_id@ == own_device_id@,
        accepted ==> r.error@.len() == 0,
        !accepted ==> r.error@ == "pairing rejected"@,
        r.granted@.len() == granted@.len(),
        forall|i: int|
            0 <= i < granted@.len() ==> tells_paired(#[trigger] r.granted@[i], granted@[i]),
{
    let mut told: Vec<PairedGrant> = Vec::new();
    let mut i: usize = 0;
    while i < granted.len()
        invariant
            i <= granted@.len(),
            told@.len() == i,
            forall|k: int| 0 <= k < i ==> tells_paired(#[trigger] told@[k], granted@[k]),
        decreases granted@.len() - i,
    {
        let grant = &granted[i];
        told.push(
            PairedGrant {
                capability: grant.capability,
                direction: match grant.direction {
                    GrantDirection::Inbound => WireGrantDirection::Inbound,
                    GrantDirection::Outbound => WireGrantDirection::Outbound,
                },
                constraints: encode_pairing_constraints(grant),
                granted_at_ms: grant.granted_at_ms,
            },
        );
        i += 1;
    }
    PairingResponse {
        paired: accepted,
        peer_id: own_device_id.to_owned(),
        error: if accepted {
            String::new()
        } else {
            "pairing rejected".to_owned()
        },
        granted: told,
    }
}

/// A wish is read as it was made: the same capability, the same direction, the
/// same limits, given at the time when it was read.
pub proof fn lemma_wishes_are_read_as_made(list: Seq<WireGrant>, now: i64, i: int)
    requires
        request_fault(list) is None,
        0 <= i < list.len(),
    ensures
        meant_grants(list, now).len() == list.len(),
        list[i].known == Some(meant_grants(list, now)[i].capability),
        list[i].direction is Inbound <==> meant_grants(list, now)[i].direction is Inbound,
        list[i].direction is Outbound <==> meant_grants(list, now)[i].direction is Outbound,
        meant_grants(list, now)[i].granted_at_ms == now,
        match list[i].constraints {
            None => meant_grants(list, now)[i].constraints is Unconstrained,
            Some(limits) => {
                &&& limits.kind is Some
                &&& meant_grants(list, now)[i].constraints is RemoteFileShares
                &&& meant_grants(list, now)[i].constraints->share_ids@ == limits.kind->0.share_ids@
                &&& meant_grants(list, now)[i].constraints->writable == limits.kind->0.writable
            },
        },
{
    lemma_no_fault(list, i);
    assert(meant_grants(list, now)[i] == meant_grant(list[i], now));
}

/// What a device is told of a wish that was granted names the capability, the
/// direction and the limits that it asked for, and the time when it was granted.
pub proof fn lemma_granted_wishes_come_back(
    list: Seq<WireGrant>,
    now: i64,
    i: int,
    told: PairedGrant,
)
    requires
        request_fault(list) is None,
        0 <= i < list.len(),
        tells_paired(told, meant_grants(list, now)[i]),
    ensures
        Some(told.capability) == list[i].known,
        told.direction == list[i].direction,
        told.granted_at_ms == now,
        told.constraints is Some == list[i].constraints is Some,
        told.constraints is Some ==> {
            &&& told.constraints->0.kind is Some
            &&& list[i].constraints->0.kind is Some
            &&& told.constraints->0.kind->0.share_ids@
                == list[i].constraints->0.kind->0.share_ids@
            &&& told.constraints->0.kind->0.writable == list[i].constraints->0.kind->0.writable
        },
{
    lemma_wishes_are_read_as_made(list, now, i);
    lemma_no_fault(list, i);
}

/// A wish that is read names a known capability in a known direction, was not
/// granted before, and is the only one for its capability in its direction. Only
/// the access to remote files is limited to shares, and then to write with the
/// capability to write alone.
pub proof fn lemma_read_wishes_are_proper(list: Seq<WireGrant>, i: int, j: int)
    requires
        request_fault(list) is None,
        0 <= i < list.len(),
        0 <= j < list.len(),
    ensures
        list.len() <= MAX_REQUESTED_GRANTS,
        list[i].known is Some,
        !(list[i].direction is Unspecified),
        list[i].granted_at_ms == 0,
        0 < list[i].capability@.len(),
        i != j ==> list[i].known != list[j].known || list[i].direction != list[j].direction,
        list[i].constraints is Some ==> {
            let limits = list[i].constraints->0.kind->0;
            &&& limits.writable ==> list[i].known == Some(PeerCapability::RemoteFilesWrite)
            &&& !limits.writable ==> list[i].known == Some(PeerCapability::RemoteFilesRead)
            &&& limits.share_ids@.len() <= MAX_GRANT_SHARES
            &&& forall|k: int|
                0 <= k < limits.share_ids@.len() ==> (#[trigger] limits.share_ids@[k])@.len() > 0
        },
{
    lemma_no_fault(list, i);
    lemma_no_fault(list, j);
    if i < j {
        assert(list.take(j)[i] == list[i]);
    } else if j < i {
        assert(list.take(i)[j] == list[j]);
    }
}

/// A device is given a wish only if the user accepted the pairing and named its
/// capability in its direction; what is given keeps the limits of the wish.
pub proof fn lemma_given_only_as_decided(
    requested: Seq<Grant>,
    decision: PairingApproval,
    i: int,
)
    requires
        0 <= i < approved(requested, decision).len(),
    ensures
        decision.accepted,
        decision.approved_grants@.contains(
            (approved(requested, decision)[i].capability, approved(requested, decision)[i].direction),
        ),
        requested.contains(approved(requested, decision)[i]),
{
    let grant = approved(requested, decision)[i];
    assert(approved(requested, decision).contains(grant));
    lemma_approved_within_request(requested, decision, grant);
}

/// Every wish that the user accepted and named is given.
pub proof fn lemma_accepted_wishes_are_given(
    requested: Seq<Grant>,
    decision: PairingApproval,
    i: int,
)
    requires
        0 <= i < requested.len(),
        decision.accepted,
        decision.approved_grants@.contains((requested[i].capability, requested[i].direction)),
    ensures
        approved(requested, decision).contains(requested[i]),
{
    assert(requested.contains(requested[i]));
    lemma_approved_within_request(requested, decision, requested[i]);
}

} // verus!
