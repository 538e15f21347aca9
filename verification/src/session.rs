//! A control session: how it opens, what each frame of the client leads to, and
//! which streams may stand beside it.

use vstd::prelude::*;
use vstd::string::*;

use crate::command_cache::{command_error, CommandResponse};
use crate::error::{other, ProtocolError};
use crate::features::{
    grant_to_proto, inbound_capabilities, negotiate_features, protocol_limits,
    selected_feature_versions, validate_receive_limits, Feature, FeatureVersion,
    GrantedCapability, ProtocolLimits, SelectedFeatures, WireLimits, HEARTBEAT_TIMEOUT_MS,
};
use crate::input_session::InputLease;
use crate::input_stream::{
    refuse_session, InputPermission, InputSessionRequest, InputSessionResult,
};
use crate::peer::{has_capability, Grant, PeerCapability};
use crate::requests::{Request, RequestBody};
use crate::status::{status, ErrorCode, Status};
use crate::subscriptions::{
    random_nonzero_u64, refuse_subscription, SubscriptionResult, SubscriptionTopic,
};

verus! {

/// The shortest time that a request is given, in milliseconds.
pub const MIN_REQUEST_TIMEOUT_MS: u32 = 100;

/// The longest time that a request is given, in milliseconds.
pub const MAX_REQUEST_TIMEOUT_MS: u32 = 120_000;

/// The close code for a session that has ended.
pub const CLOSE_ENDED: u32 = 0;

/// The close code for a session that cannot be written to.
pub const CLOSE_WRITE_FAILED: u32 = 4;

/// The close code for a session that the host ends.
pub const CLOSE_BY_HOST: u32 = 5;

/// The close code for a client that breaks the protocol.
pub const CLOSE_VIOLATION: u32 = 6;

/// The close code for a client that has fallen silent.
pub const CLOSE_SILENT: u32 = 7;

/// The first frame of a client.
#[derive(Debug, PartialEq, Eq)]
pub struct ControlHello {
    pub features: Vec<FeatureVersion>,
    pub receive_limits: Option<ProtocolLimits>,
}

/// A frame of a client.
#[derive(Debug, PartialEq, Eq)]
pub enum ClientFrame {
    Hello(ControlHello),
    Request(Request),
    CancelRequest { request_id: u64 },
    Subscribe { request_id: u64, topic: SubscriptionTopic },
    Unsubscribe { request_id: u64, subscription_id: u64 },
    Ping { request_id: u64, monotonic_elapsed_us: u64 },
    BeginInputSession(InputSessionRequest),
    EndInputSession { request_id: u64, lease: InputLease },
    TransferOffer { request_id: u64, transfer_id: u64 },
    TransferAccept,
    TransferCancel,
    TransferProgress,
}

/// The first frame of the host.
#[derive(Debug, PartialEq, Eq)]
pub struct ControlWelcome {
    pub features: Vec<FeatureVersion>,
    pub limits: ProtocolLimits,
    pub grants: Vec<GrantedCapability>,
    pub authorization_epoch: u64,
    pub server_time_ms: i64,
}

/// What two sides agreed on when a session opened.
#[derive(Debug)]
pub struct OpenedSession {
    pub features: SelectedFeatures,
    pub capabilities: Vec<PeerCapability>,
    pub welcome: ControlWelcome,
}

/// Why a session does not open, if so.
pub open spec fn hello_fault(frame: Option<ClientFrame>, wire: WireLimits) -> Option<Seq<char>> {
    match frame {
        Some(ClientFrame::Hello(hello)) => match crate::features::offer_fault(hello.features@) {
            Some(fault) => Some(fault),
            None => crate::features::limits_fault(
                match hello.receive_limits {
                    Some(limits) => Some(&limits),
                    None => None,
                },
                hello.features@,
                wire,
            ),
        },
        _ => Some("first control frame must be hello"@),
    }
}

/// True when `told` are `grants` as they are told.
pub open spec fn tells_grants(told: Seq<GrantedCapability>, grants: Seq<Grant>) -> bool {
    told.len() == grants.len() && forall|i: int|
        0 <= i < grants.len() ==> crate::features::tells_grant(#[trigger] told[i], grants[i])
}

/// True when a session opened as the two sides agreed.
pub open spec fn opens(
    r: OpenedSession,
    hello: ControlHello,
    server: Seq<FeatureVersion>,
    grants: Seq<Grant>,
    wire: WireLimits,
) -> bool {
    &&& r.features.wf()
    &&& r.features@ == crate::features::negotiated(hello.features@, server)
    &&& forall|capability: PeerCapability| #[trigger]
        r.capabilities@.contains(capability) <==> crate::features::inbound(grants, capability)
    &&& crate::features::lists_selection(r.welcome.features@, r.features@)
    &&& r.welcome.limits == crate::features::own_limits(wire)
    &&& tells_grants(r.welcome.grants@, grants)
}

/// Opens a session with the first frame of a client, under a given number and at
/// a given time.
pub fn open_session_with(
    frame: Option<ClientFrame>,
    server: &[FeatureVersion],
    grants: &Vec<Grant>,
    wire: &WireLimits,
    authorization_epoch: u64,
    server_time_ms: i64,
) -> (r: Result<OpenedSession, ProtocolError>)
    ensures
        match hello_fault(frame, *wire) {
            Some(fault) => crate::error::fails_with(r, fault),
            None => {
                &&& r is Ok
                &&& opens(r->Ok_0, frame->0->Hello_0, server@, grants@, *wire)
                &&& r->Ok_0.welcome.authorization_epoch == authorization_epoch
                &&& r->Ok_0.welcome.server_time_ms == server_time_ms
            },
        },
{
    let hello = match frame {
        Some(ClientFrame::Hello(hello)) => hello,
        _ => {
            return Err(other("first control frame must be hello"));
        },
    };
    let features = match negotiate_features(hello.features.as_slice(), server) {
        Err(error) => {
            return Err(error);
        },
        Ok(features) => features,
    };
    let limits = match &hello.receive_limits {
        Some(limits) => Some(limits),
        None => None,
    };
    if let Err(error) = validate_receive_limits(limits, hello.features.as_slice(), wire) {
        return Err(error);
    }
    let capabilities = inbound_capabilities(grants);
    let mut told: Vec<GrantedCapability> = Vec::new();
    let mut i: usize = 0;
    while i < grants.len()
        invariant
            i <= grants@.len(),
            told@.len() == i,
            forall|k: int|
                0 <= k < i ==> crate::features::tells_grant(#[trigger] told@[k], grants@[k]),
        decreases grants@.len() - i,
    {
        told.push(grant_to_proto(&grants[i]));
        i += 1;
    }
    let welcome = ControlWelcome {
        features: selected_feature_versions(&features),
        limits: protocol_limits(wire),
        grants: told,
        authorization_epoch,
        server_time_ms,
    };
    Ok(OpenedSession { features, capabilities, welcome })
}

/// Opens a session with the first frame of a client.
pub fn open_session(
    frame: Option<ClientFrame>,
    server: &[FeatureVersion],
    grants: &Vec<Grant>,
    wire: &WireLimits,
) -> (r: Result<OpenedSession, ProtocolError>)
    ensures
        match hello_fault(frame, *wire) {
            Some(fault) => crate::error::fails_with(r, fault),
            None => {
                &&& r is Ok
                &&& opens(r->Ok_0, frame->0->Hello_0, server@, grants@, *wire)
                &&& 0 < r->Ok_0.welcome.authorization_epoch <= i64::MAX
                &&& r->Ok_0.welcome.server_time_ms >= 0
            },
        },
{
    let epoch: u64 = random_nonzero_u64();
    let now: i64 = crate::product::now_ms();
    open_session_with(frame, server, grants, wire, epoch, now)
}

/// What a session may do follows from what was granted and offered: every
/// capability of a session comes from an inbound grant, and every feature was
/// offered by both sides.
pub proof fn lemma_session_within_grants(
    r: OpenedSession,
    hello: ControlHello,
    server: Seq<FeatureVersion>,
    grants: Seq<Grant>,
    wire: WireLimits,
    capability: PeerCapability,
    feature: Feature,
)
    requires
        opens(r, hello, server, grants, wire),
    ensures
        r.capabilities@.contains(capability) ==> crate::features::inbound(grants, capability),
        r.features@.contains_key(feature) ==> crate::features::ranges_have(hello.features@, feature)
            && crate::features::ranges_have(server, feature),
{
    crate::features::lemma_negotiated_offered(hello.features@, server, feature);
}

/// The requests of a session that are not answered yet.
pub struct OutstandingRequests {
    ids: Vec<u64>,
}

/// What a frame of a client leads to.
#[derive(Debug, PartialEq, Eq)]
pub enum FrameAction {
    /// The connection is closed.
    Close { code: u32, reason: &'static str },
    /// A request is answered with an error.
    Answer(CommandResponse),
    /// A request is taken up; it has this much time.
    Start { request: Request, timeout_ms: u64 },
    /// A request is given up and answered.
    Abort { request_id: u64, answer: CommandResponse },
    /// A wish to subscribe or to unsubscribe is refused.
    RefuseSubscription(SubscriptionResult),
    Subscribe { request_id: u64, topic: SubscriptionTopic },
    Unsubscribe { request_id: u64, subscription_id: u64 },
    Pong { request_id: u64, client_monotonic_elapsed_us: u64 },
    /// A wish that is about an input session is refused.
    RefuseInput(InputSessionResult),
    BeginInput(InputSessionRequest),
    EndInput { request_id: u64, lease: InputLease },
    /// An offer of a file is turned down.
    CancelTransfer { request_id: u64, transfer_id: u64, status: Status },
    /// Nothing is to be done.
    Ignore,
}

/// The time that a request is given.
pub open spec fn timeout_of(timeout_ms: u32) -> u64 {
    if timeout_ms < MIN_REQUEST_TIMEOUT_MS {
        MIN_REQUEST_TIMEOUT_MS as u64
    } else if timeout_ms > MAX_REQUEST_TIMEOUT_MS {
        MAX_REQUEST_TIMEOUT_MS as u64
    } else {
        timeout_ms as u64
    }
}

/// The time that a request is given.
pub fn request_timeout_ms(timeout_ms: u32) -> (r: u64)
    ensures
        r == timeout_of(timeout_ms),
        100 <= r <= 120_000,
{
    if timeout_ms < MIN_REQUEST_TIMEOUT_MS {
        MIN_REQUEST_TIMEOUT_MS as u64
    } else if timeout_ms > MAX_REQUEST_TIMEOUT_MS {
        MAX_REQUEST_TIMEOUT_MS as u64
    } else {
        timeout_ms as u64
    }
}

/// True when `r` closes the connection of a client that breaks the protocol.
pub open spec fn closes(r: FrameAction, reason: Seq<char>) -> bool {
    r matches FrameAction::Close { code, reason: text } && code == CLOSE_VIOLATION && text@
        == reason
}

/// True when `r` is what a frame leads to while the requests `ids` are
/// outstanding.
pub open spec fn acts(
    r: FrameAction,
    ids: Seq<u64>,
    frame: Option<ClientFrame>,
    permit_available: bool,
    permission: InputPermission,
) -> bool {
    let reused = "request id reused while outstanding"@;
    let nonzero = "request id must be non-zero"@;
    match frame {
        None => closes(r, "invalid control frame"@),
        Some(ClientFrame::Hello(_)) => closes(r, "control hello already received"@),
        Some(ClientFrame::Request(request)) => if request.request_id == 0 {
            r is Answer && crate::command_cache::is_error_response(
                r->Answer_0@,
                0,
                ErrorCode::InvalidArgument,
                nonzero,
            )
        } else if ids.contains(request.request_id) {
            closes(r, reused)
        } else if !permit_available {
            r is Answer && crate::command_cache::is_error_response(
                r->Answer_0@,
                request.request_id,
                ErrorCode::ResourceExhausted,
                "too many concurrent requests"@,
            )
        } else {
            r == (FrameAction::Start { request, timeout_ms: timeout_of(request.timeout_ms) })
        },
        Some(ClientFrame::CancelRequest { request_id }) => if request_id == 0 {
            closes(r, "invalid cancellation request id"@)
        } else if ids.contains(request_id) {
            &&& r is Abort
            &&& r->Abort_request_id == request_id
            &&& crate::command_cache::is_error_response(
                r->answer@,
                request_id,
                ErrorCode::Cancelled,
                "request cancelled"@,
            )
        } else {
            r == FrameAction::Ignore
        },
        Some(ClientFrame::Subscribe { request_id, topic }) => if request_id == 0 {
            r is RefuseSubscription && crate::subscriptions::refuses(
                r->RefuseSubscription_0,
                0,
                0,
                SubscriptionTopic::Unspecified,
                (crate::access::FailureView { code: ErrorCode::InvalidArgument, message: nonzero }),
            )
        } else if ids.contains(request_id) {
            closes(r, reused)
        } else {
            r == (FrameAction::Subscribe { request_id, topic })
        },
        Some(ClientFrame::Unsubscribe { request_id, subscription_id }) => if request_id == 0 {
            r is RefuseSubscription && crate::subscriptions::refuses(
                r->RefuseSubscription_0,
                0,
                subscription_id,
                SubscriptionTopic::Unspecified,
                (crate::access::FailureView { code: ErrorCode::InvalidArgument, message: nonzero }),
            )
        } else if ids.contains(request_id) {
            closes(r, reused)
        } else {
            r == (FrameAction::Unsubscribe { request_id, subscription_id })
        },
        Some(ClientFrame::Ping { request_id, monotonic_elapsed_us }) => if request_id == 0
            || ids.contains(request_id) {
            closes(r, "invalid or reused request id"@)
        } else {
            r == (FrameAction::Pong {
                request_id,
                client_monotonic_elapsed_us: monotonic_elapsed_us,
            })
        },
        Some(ClientFrame::BeginInputSession(request)) => if request.request_id == 0 {
            r is RefuseInput && crate::input_stream::refuses_session(
                r->RefuseInput_0,
                0,
                crate::input_stream::no_lease(),
                permission,
                ErrorCode::InvalidArgument,
                nonzero,
            )
        } else if ids.contains(request.request_id) {
            closes(r, reused)
        } else {
            r == FrameAction::BeginInput(request)
        },
        Some(ClientFrame::EndInputSession { request_id, lease }) => if request_id == 0 {
            r is RefuseInput && crate::input_stream::refuses_session(
                r->RefuseInput_0,
                0,
                crate::input_stream::no_lease(),
                permission,
                ErrorCode::InvalidArgument,
                nonzero,
            )
        } else if ids.contains(request_id) {
            closes(r, reused)
        } else {
            r == (FrameAction::EndInput { request_id, lease })
        },
        Some(ClientFrame::TransferOffer { request_id, transfer_id }) => if request_id == 0
            || ids.contains(request_id) {
            closes(r, "invalid or reused request id"@)
        } else {
            &&& r is CancelTransfer
            &&& r->CancelTransfer_request_id == request_id
            &&& r->transfer_id == transfer_id
            &&& crate::status::reports(
                r->status@,
                ErrorCode::Unsupported,
                "file transfers are not enabled"@,
            )
        },
        Some(ClientFrame::TransferAccept)
        | Some(ClientFrame::TransferCancel)
        | Some(ClientFrame::TransferProgress) => closes(r, "file transfers are not negotiated"@),
    }
}

/// The requests that are outstanding after an action.
pub open spec fn ids_after(ids: Seq<u64>, r: FrameAction) -> Seq<u64> {
    match r {
        FrameAction::Start { request, .. } => ids.push(request.request_id),
        FrameAction::Abort { request_id, .. } => without_id(ids, request_id),
        _ => ids,
    }
}

/// The requests that are outstanding but for one.
pub open spec fn without_id(ids: Seq<u64>, id: u64) -> Seq<u64> {
    without_ids(ids, seq![id])
}

/// The requests that are outstanding but for those that ended.
pub open spec fn without_ids(ids: Seq<u64>, ended: Seq<u64>) -> Seq<u64> {
    ids.filter(|x: u64| !ended.contains(x))
}

/// What holds of the requests that are outstanding: none has the number zero,
/// and no two have the same.
pub open spec fn proper_ids(ids: Seq<u64>) -> bool {
    ids.no_duplicates() && !ids.contains(0)
}

proof fn lemma_filter_within(ids: Seq<u64>, keep: spec_fn(u64) -> bool, i: int)
    requires
        0 <= i < ids.filter(keep).len(),
    ensures
        ids.contains(ids.filter(keep)[i]),
    decreases ids.len(),
{
    reveal(Seq::filter);
    let rest = ids.drop_last();
    let kept = rest.filter(keep);
    if i < kept.len() {
        lemma_filter_within(rest, keep, i);
        let k = choose|k: int| 0 <= k < rest.len() && rest[k] == kept[i];
        assert(ids[k] == kept[i]);
    } else {
        assert(ids[ids.len() - 1] == ids.filter(keep)[i]);
    }
}

proof fn lemma_filter_proper(ids: Seq<u64>, keep: spec_fn(u64) -> bool)
    requires
        proper_ids(ids),
    ensures
        proper_ids(ids.filter(keep)),
{
    let kept = ids.filter(keep);
    lemma_filter_distinct(ids, keep);
    if kept.contains(0) {
        let i = choose|i: int| 0 <= i < kept.len() && kept[i] == 0;
        lemma_filter_within(ids, keep, i);
    }
}

proof fn lemma_filter_distinct(ids: Seq<u64>, keep: spec_fn(u64) -> bool)
    requires
        ids.no_duplicates(),
    ensures
        ids.filter(keep).no_duplicates(),
    decreases ids.len(),
{
    reveal(Seq::filter);
    if ids.len() > 0 {
        let rest = ids.drop_last();
        lemma_filter_distinct(rest, keep);
        let kept = rest.filter(keep);
        if keep(ids.last()) {
            assert forall|i: int| 0 <= i < kept.len() implies kept[i] != ids.last() by {
                lemma_filter_within(rest, keep, i);
            }
        }
    }
}

impl OutstandingRequests {
    /// The requests that are outstanding, in the order in which they came.
    pub closed spec fn view(&self) -> Seq<u64> {
        self.ids@
    }

    /// What holds of the requests that are outstanding.
    pub open spec fn wf(&self) -> bool {
        proper_ids(self@)
    }

    pub fn new() -> (r: OutstandingRequests)
        ensures
            r.wf(),
            r@ == Seq::<u64>::empty(),
    {
        OutstandingRequests { ids: Vec::new() }
    }

    /// Tells whether a request is outstanding.
    pub fn contains(&self, id: u64) -> (r: bool)
        ensures
            r == self@.contains(id),
    {
        let mut i: usize = 0;
        while i < self.ids.len()
            invariant
                i <= self.ids@.len(),
                forall|k: int| 0 <= k < i ==> self.ids@[k] != id,
            decreases self.ids@.len() - i,
        {
            if self.ids[i] == id {
                return true;
            }
            i += 1;
        }
        false
    }

    /// Takes note of requests that ended.
    pub fn ended(&mut self, ended: &Vec<u64>)
        requires
            old(self).wf(),
        ensures
            final(self).wf(),
            final(self)@ == without_ids(old(self)@, ended@),
    {
        let ghost all = self.ids@;
        let ghost keep = |x: u64| !ended@.contains(x);
        let mut kept: Vec<u64> = Vec::new();
        let mut i: usize = 0;
        while i < self.ids.len()
            invariant
                i <= self.ids@.len(),
                self.ids@ == all,
                keep == (|x: u64| !ended@.contains(x)),
                kept@ == all.take(i as int).filter(keep),
            decreases self.ids@.len() - i,
        {
            let id: u64 = self.ids[i];
            let gone = has_id(ended, id);
            proof {
                assert(all.take(i as int + 1).drop_last() =~= all.take(i as int));
                assert(all.take(i as int + 1).last() == id);
                reveal(Seq::filter);
            }
            if !gone {
                kept.push(id);
            }
            i += 1;
        }
        proof {
            assert(all.take(all.len() as int) =~= all);
            lemma_filter_proper(all, keep);
        }
        self.ids = kept;
    }

    fn remove(&mut self, id: u64)
        requires
            old(self).wf(),
        ensures
            final(self).wf(),
            final(self)@ == without_id(old(self)@, id),
    {
        let mut one: Vec<u64> = Vec::new();
        one.push(id);
        assert(one@ =~= seq![id]);
        self.ended(&one);
    }

    /// Decides what a frame of the client leads to. The requests in `ended` have
    /// ended in the meantime; `permit_available` tells whether one more request
    /// may be taken up.
    pub fn handle_frame(
        &mut self,
        frame: Option<ClientFrame>,
        ended: &Vec<u64>,
        permit_available: bool,
        permission: InputPermission,
    ) -> (r: FrameAction)
        requires
            old(self).wf(),
        ensures
            final(self).wf(),
            acts(r, without_ids(old(self)@, ended@), frame, permit_available, permission),
            final(self)@ == ids_after(without_ids(old(self)@, ended@), r),
    {
        self.ended(ended);
        let violation: u32 = CLOSE_VIOLATION;
        match frame {
            None => FrameAction::Close { code: violation, reason: "invalid control frame" },
            Some(ClientFrame::Hello(_)) => FrameAction::Close {
                code: violation,
                reason: "control hello already received",
            },
            Some(ClientFrame::Request(request)) => {
                if request.request_id == 0 {
                    return FrameAction::Answer(
                        command_error(0, ErrorCode::InvalidArgument, "request id must be non-zero"),
                    );
                }
                if self.contains(request.request_id) {
                    return FrameAction::Close {
                        code: violation,
                        reason: "request id reused while outstanding",
                    };
                }
                if !permit_available {
                    return FrameAction::Answer(
                        command_error(
                            request.request_id,
                            ErrorCode::ResourceExhausted,
                            "too many concurrent requests",
                        ),
                    );
                }
                let ghost before = self.ids@;
                self.ids.push(request.request_id);
                proof {
                    let after = self.ids@;
                    if after.contains(0) {
                        let k = choose|k: int| 0 <= k < after.len() && after[k] == 0;
                        assert(k < before.len());
                        assert(before[k] == 0);
                    }
                }
                let timeout_ms: u64 = request_timeout_ms(request.timeout_ms);
                FrameAction::Start { request, timeout_ms }
            },
            Some(ClientFrame::CancelRequest { request_id }) => {
                if request_id == 0 {
                    return FrameAction::Close {
                        code: violation,
                        reason: "invalid cancellation request id",
                    };
                }
                if !self.contains(request_id) {
                    return FrameAction::Ignore;
                }
                self.remove(request_id);
                FrameAction::Abort {
                    request_id,
                    answer: command_error(request_id, ErrorCode::Cancelled, "request cancelled"),
                }
            },
            Some(ClientFrame::Subscribe { request_id, topic }) => {
                if request_id == 0 {
                    return FrameAction::RefuseSubscription(
                        refuse_subscription(
                            0,
                            0,
                            SubscriptionTopic::Unspecified,
                            ErrorCode::InvalidArgument,
                            "request id must be non-zero",
                        ),
                    );
                }
                if self.contains(request_id) {
                    return FrameAction::Close {
                        code: violation,
                        reason: "request id reused while outstanding",
                    };
                }
                FrameAction::Subscribe { request_id, topic }
            },
            Some(ClientFrame::Unsubscribe { request_id, subscription_id }) => {
                if request_id == 0 {
                    return FrameAction::RefuseSubscription(
                        refuse_subscription(
                            0,
                            subscription_id,
                            SubscriptionTopic::Unspecified,
                            ErrorCode::InvalidArgument,
                            "request id must be non-zero",
                        ),
                    );
                }
                if self.contains(request_id) {
                    return FrameAction::Close {
                        code: violation,
                        reason: "request id reused while outstanding",
                    };
                }
                FrameAction::Unsubscribe { request_id, subscription_id }
            },
            Some(ClientFrame::Ping { request_id, monotonic_elapsed_us }) => {
                if request_id == 0 || self.contains(request_id) {
                    return FrameAction::Close {
                        code: violation,
                        reason: "invalid or reused request id",
                    };
                }
                FrameAction::Pong {
                    request_id,
                    client_monotonic_elapsed_us: monotonic_elapsed_us,
                }
            },
            Some(ClientFrame::BeginInputSession(request)) => {
                if request.request_id == 0 {
                    return FrameAction::RefuseInput(
                        refuse_session(
                            0,
                            permission,
                            ErrorCode::InvalidArgument,
                            "request id must be non-zero",
                        ),
                    );
                }
                if self.contains(request.request_id) {
                    return FrameAction::Close {
                        code: violation,
                        reason: "request id reused while outstanding",
                    };
                }
                FrameAction::BeginInput(request)
            },
            Some(ClientFrame::EndInputSession { request_id, lease }) => {
                if request_id == 0 {
                    return FrameAction::RefuseInput(
                        refuse_session(
                            0,
                            permission,
                            ErrorCode::InvalidArgument,
                            "request id must be non-zero",
                        ),
                    );
                }
                if self.contains(request_id) {
                    return FrameAction::Close {
                        code: violation,
                        reason: "request id reused while outstanding",
                    };
                }
                FrameAction::EndInput { request_id, lease }
            },
            Some(ClientFrame::TransferOffer { request_id, transfer_id }) => {
                if request_id == 0 || self.contains(request_id) {
                    return FrameAction::Close {
                        code: violation,
                        reason: "invalid or reused request id",
                    };
                }
                FrameAction::CancelTransfer {
                    request_id,
                    transfer_id,
                    status: status(ErrorCode::Unsupported, "file transfers are not enabled"),
                }
            },
            Some(ClientFrame::TransferAccept)
            | Some(ClientFrame::TransferCancel)
            | Some(ClientFrame::TransferProgress) => FrameAction::Close {
                code: violation,
                reason: "file transfers are not negotiated",
            },
        }
    }
}

fn has_id(ids: &Vec<u64>, id: u64) -> (r: bool)
    ensures
        r == ids@.contains(id),
{
    let mut i: usize = 0;
    while i < ids.len()
        invariant
            i <= ids@.len(),
            forall|k: int| 0 <= k < i ==> ids@[k] != id,
        decreases ids@.len() - i,
    {
        if ids[i] == id {
            return true;
        }
        i += 1;
    }
    false
}

/// A request is taken up under a number that is not zero and that no
/// outstanding request has, and it is outstanding from then on.
pub proof fn lemma_started_ids_are_new(
    r: FrameAction,
    ids: Seq<u64>,
    frame: Option<ClientFrame>,
    permit_available: bool,
    permission: InputPermission,
)
    requires
        acts(r, ids, frame, permit_available, permission),
        r is Start,
    ensures
        r->request.request_id != 0,
        !ids.contains(r->request.request_id),
        ids_after(ids, r).contains(r->request.request_id),
        frame == Some(ClientFrame::Request(r->request)),
{
    let after = ids_after(ids, r);
    assert(after[ids.len() as int] == r->request.request_id);
}

/// A frame never reaches the input system or a subscription under the number of
/// a request that is outstanding.
pub proof fn lemma_outstanding_ids_are_reserved(
    r: FrameAction,
    ids: Seq<u64>,
    frame: Option<ClientFrame>,
    permit_available: bool,
    permission: InputPermission,
)
    requires
        acts(r, ids, frame, permit_available, permission),
    ensures
        r matches FrameAction::Subscribe { request_id, .. } ==> request_id != 0 && !ids.contains(
            request_id,
        ),
        r matches FrameAction::Unsubscribe { request_id, .. } ==> request_id != 0 && !ids.contains(
            request_id,
        ),
        r matches FrameAction::Pong { request_id, .. } ==> request_id != 0 && !ids.contains(
            request_id,
        ),
        r matches FrameAction::BeginInput(request) ==> request.request_id != 0 && !ids.contains(
            request.request_id,
        ),
        r matches FrameAction::EndInput { request_id, .. } ==> request_id != 0 && !ids.contains(
            request_id,
        ),
{
}

/// How a request ended that gave no answer.
#[derive(Debug, PartialEq, Eq)]
pub enum RequestEnd {
    /// Its task failed.
    Failed { error: String },
    /// Its time was up.
    TimedOut,
}

/// Tells whether a request is a command.
pub fn is_command(request: &Request) -> (r: bool)
    ensures
        r == (request.body matches Some(RequestBody::Command(_))),
{
    match &request.body {
        Some(RequestBody::Command(_)) => true,
        _ => false,
    }
}

/// The code that tells how a request ended that has no answer of its own.
pub open spec fn end_code(end: RequestEnd) -> ErrorCode {
    match end {
        RequestEnd::Failed { .. } => ErrorCode::Internal,
        RequestEnd::TimedOut => ErrorCode::DeadlineExceeded,
    }
}

/// Answers a request that gave no answer itself.
pub fn answer_ended(request_id: u64, end: RequestEnd, command: bool) -> (r: CommandResponse)
    ensures
        match end {
            RequestEnd::Failed { error } => crate::command_cache::is_error_response(
                r@,
                request_id,
                end_code(end),
                "request task failed: "@ + error@,
            ),
            RequestEnd::TimedOut => crate::command_cache::is_error_response(
                r@,
                request_id,
                end_code(end),
                if command {
                    "command may continue in the background; retry with the same idempotency key"@
                } else {
                    "request deadline exceeded"@
                },
            ),
        },
{
    match end {
        RequestEnd::Failed { error } => {
            let mut message = "request task failed: ".to_owned();
            message.append(error.as_str());
            command_error(request_id, ErrorCode::Internal, message.as_str())
        },
        RequestEnd::TimedOut => command_error(
            request_id,
            ErrorCode::DeadlineExceeded,
            if command {
                "command may continue in the background; retry with the same idempotency key"
            } else {
                "request deadline exceeded"
            },
        ),
    }
}

/// Tells whether a client has been silent for too long; times are in
/// milliseconds.
pub fn client_silent(last_activity: u64, now: u64) -> (r: bool)
    ensures
        r == (now - last_activity >= HEARTBEAT_TIMEOUT_MS),
{
    now >= last_activity && now - last_activity >= HEARTBEAT_TIMEOUT_MS as u64
}

/// Why a session ends from the side of the host.
#[derive(Debug, Clone, Copy, PartialEq, Eq, Structural)]
pub enum SessionEnd {
    /// It is over.
    Over,
    /// It cannot be written to.
    WriteFailed,
    /// The user of the host ends it, or a newer session replaces it.
    Disconnected,
    /// The client has fallen silent.
    Silent,
}

/// The code that tells how a session ended.
pub open spec fn close_code(end: SessionEnd) -> u32 {
    match end {
        SessionEnd::Over => CLOSE_ENDED,
        SessionEnd::WriteFailed => CLOSE_WRITE_FAILED,
        SessionEnd::Disconnected => CLOSE_BY_HOST,
        SessionEnd::Silent => CLOSE_SILENT,
    }
}

/// The code and the reason with which the connection of a session is closed.
pub fn close_of(end: SessionEnd) -> (r: (u32, &'static str))
    ensures
        r.0 == close_code(end),
        match end {
            SessionEnd::Over => r.1@ == "control session ended"@,
            SessionEnd::WriteFailed => r.1@ == "control write failed"@,
            SessionEnd::Disconnected => r.1@ == "disconnected by desktop"@,
            SessionEnd::Silent => r.1@ == "application heartbeat timed out"@,
        },
{
    match end {
        SessionEnd::Over => (CLOSE_ENDED, "control session ended"),
        SessionEnd::WriteFailed => (CLOSE_WRITE_FAILED, "control write failed"),
        SessionEnd::Disconnected => (CLOSE_BY_HOST, "disconnected by desktop"),
        SessionEnd::Silent => (CLOSE_SILENT, "application heartbeat timed out"),
    }
}

/// The kind of a stream that carries ordered input.
pub const STREAM_KIND_RELIABLE_INPUT: u8 = 2;

/// The kind of a stream that carries a blob to the client.
pub const STREAM_KIND_BLOB_DOWNLOAD: u8 = 3;

/// The kind of a stream that carries a blob of the clipboard to the host.
pub const STREAM_KIND_CLIPBOARD_BLOB_UPLOAD: u8 = 6;

/// The kind of a stream that carries one operation on remote files.
pub const STREAM_KIND_REMOTE_FILES: u8 = 7;

/// The number of streams of a session on which clipboards may be replicated at
/// once.
pub const MAX_REPLICATION_STREAMS: usize = 4;

/// Why a stream from the client alone is not taken, if so.
pub open spec fn input_stream_fault(kind: u8, already_open: bool) -> Option<Seq<char>> {
    if kind != STREAM_KIND_RELIABLE_INPUT {
        Some("unsupported client stream kind"@)
    } else if already_open {
        Some("a reliable input stream is already open"@)
    } else {
        None
    }
}

/// Takes a stream from the client alone, of which there is at most one: from
/// then on it is open.
pub fn open_input_stream(kind: u8, open: &mut bool) -> (r: Result<(), ProtocolError>)
    ensures
        match input_stream_fault(kind, *old(open)) {
            Some(fault) => crate::error::fails_with(r, fault),
            None => r is Ok,
        },
        *final(open) == (*old(open) || r is Ok),
{
    if kind != STREAM_KIND_RELIABLE_INPUT {
        return Err(other("unsupported client stream kind"));
    }
    if *open {
        return Err(other("a reliable input stream is already open"));
    }
    *open = true;
    Ok(())
}

/// What a stream to and from the client is for.
#[derive(Debug, Clone, Copy, PartialEq, Eq, Structural)]
pub enum AuxiliaryStream {
    ClipboardReplica,
    BlobDownload,
    ClipboardBlobUpload,
    RemoteFiles,
}

/// True when the clipboard may be replicated on a session.
pub open spec fn replicates(features: Map<Feature, u32>, capabilities: Seq<PeerCapability>) -> bool {
    &&& features.contains_key(Feature::ClipboardSync)
    &&& features[Feature::ClipboardSync] == REPLICATION_VERSION
    &&& capabilities.contains(PeerCapability::ClipboardSync)
}

/// The version of the clipboard feature that replicates.
pub const REPLICATION_VERSION: u32 = 2;

/// True when the client may send blobs of the clipboard.
pub open spec fn uploads(features: Map<Feature, u32>, capabilities: Seq<PeerCapability>) -> bool {
    features.contains_key(Feature::ClipboardSync) && capabilities.contains(
        PeerCapability::ClipboardSync,
    )
}

/// What a stream to and from the client is for, or why it is not taken, where
/// `replica_kind` is the kind of streams that replicate the clipboard.
pub open spec fn auxiliary_of(
    kind: u8,
    replica_kind: u8,
    features: Map<Feature, u32>,
    capabilities: Seq<PeerCapability>,
    replica_permit: bool,
) -> Result<AuxiliaryStream, Seq<char>> {
    if kind == replica_kind {
        if !replicates(features, capabilities) {
            Err("clipboard replication is not authorized or negotiated"@)
        } else if !replica_permit {
            Err("too many clipboard replication streams"@)
        } else {
            Ok(AuxiliaryStream::ClipboardReplica)
        }
    } else if kind == STREAM_KIND_BLOB_DOWNLOAD {
        Ok(AuxiliaryStream::BlobDownload)
    } else if kind == STREAM_KIND_CLIPBOARD_BLOB_UPLOAD && uploads(features, capabilities) {
        Ok(AuxiliaryStream::ClipboardBlobUpload)
    } else if kind == STREAM_KIND_REMOTE_FILES {
        Ok(AuxiliaryStream::RemoteFiles)
    } else {
        Err("unsupported bidirectional stream kind"@)
    }
}

/// The clipboard is replicated and its blobs are taken only with the feature and
/// the capability of synchronisation.
pub proof fn lemma_clipboard_streams_need_access(
    kind: u8,
    replica_kind: u8,
    features: Map<Feature, u32>,
    capabilities: Seq<PeerCapability>,
    replica_permit: bool,
)
    ensures
        match auxiliary_of(kind, replica_kind, features, capabilities, replica_permit) {
            Ok(AuxiliaryStream::ClipboardReplica)
            | Ok(AuxiliaryStream::ClipboardBlobUpload) => features.contains_key(
                Feature::ClipboardSync,
            ) && capabilities.contains(PeerCapability::ClipboardSync),
            _ => true,
        },
{
}

/// Decides what a stream to and from the client is for, where `replica_kind` is
/// the kind of streams that replicate the clipboard and `replica_permit` tells
/// whether one more of them may be open.
pub fn auxiliary_stream(
    kind: u8,
    replica_kind: u8,
    features: &SelectedFeatures,
    capabilities: &Vec<PeerCapability>,
    replica_permit: bool,
) -> (r: Result<AuxiliaryStream, ProtocolError>)
    requires
        features.wf(),
    ensures
        match auxiliary_of(kind, replica_kind, features@, capabilities@, replica_permit) {
            Ok(stream) => r == Ok::<AuxiliaryStream, ProtocolError>(stream),
            Err(fault) => crate::error::fails_with(r, fault),
        },
{
    if kind == replica_kind {
        let negotiated = match features.get(Feature::ClipboardSync) {
            Some(version) => version == REPLICATION_VERSION,
            None => false,
        };
        if !negotiated || !has_capability(capabilities, PeerCapability::ClipboardSync) {
            return Err(other("clipboard replication is not authorized or negotiated"));
        }
        if !replica_permit {
            return Err(other("too many clipboard replication streams"));
        }
        return Ok(AuxiliaryStream::ClipboardReplica);
    }
    if kind == STREAM_KIND_BLOB_DOWNLOAD {
        return Ok(AuxiliaryStream::BlobDownload);
    }
    if kind == STREAM_KIND_CLIPBOARD_BLOB_UPLOAD && features.contains(Feature::ClipboardSync)
        && has_capability(capabilities, PeerCapability::ClipboardSync) {
        return Ok(AuxiliaryStream::ClipboardBlobUpload);
    }
    if kind == STREAM_KIND_REMOTE_FILES {
        return Ok(AuxiliaryStream::RemoteFiles);
    }
    Err(other("unsupported bidirectional stream kind"))
}

/// A request is given the time that it asks for, within a tenth of a second and two
/// minutes.
pub proof fn lemma_requests_get_their_time(timeout_ms: u32)
    ensures
        100 <= timeout_ms <= 120_000 ==> timeout_of(timeout_ms) == timeout_ms,
        100 <= timeout_of(timeout_ms) <= 120_000,
        timeout_ms < 100 ==> timeout_of(timeout_ms) == 100,
        timeout_ms > 120_000 ==> timeout_of(timeout_ms) == 120_000,
{
}

/// A frame leads to what it asks for, with its own values: a request is started, a
/// subscription made or ended, a ping answered and an input session begun or ended,
/// each under its own number.
pub proof fn lemma_frames_lead_to_what_they_ask_for(
    r: FrameAction,
    ids: Seq<u64>,
    frame: ClientFrame,
    permission: InputPermission,
)
    requires
        acts(r, ids, Some(frame), true, permission),
    ensures
        frame is Request && frame->Request_0.request_id != 0 && !ids.contains(
            frame->Request_0.request_id,
        ) ==> r is Start && r->request == frame->Request_0 && (100
            <= frame->Request_0.timeout_ms <= 120_000 ==> r->timeout_ms
            == frame->Request_0.timeout_ms),
        frame is Subscribe && frame->Subscribe_request_id != 0 && !ids.contains(
            frame->Subscribe_request_id,
        ) ==> r is Subscribe && r->Subscribe_request_id == frame->Subscribe_request_id
            && r->Subscribe_topic == frame->Subscribe_topic,
        frame is Unsubscribe && frame->Unsubscribe_request_id != 0 && !ids.contains(
            frame->Unsubscribe_request_id,
        ) ==> r is Unsubscribe && r->Unsubscribe_request_id == frame->Unsubscribe_request_id
            && r->Unsubscribe_subscription_id == frame->Unsubscribe_subscription_id,
        frame is Ping && frame->Ping_request_id != 0 && !ids.contains(frame->Ping_request_id)
            ==> r is Pong && r->Pong_request_id == frame->Ping_request_id
            && r->Pong_client_monotonic_elapsed_us == frame->Ping_monotonic_elapsed_us,
        frame is BeginInputSession && frame->BeginInputSession_0.request_id != 0
            && !ids.contains(frame->BeginInputSession_0.request_id) ==> r is BeginInput
            && r->BeginInput_0 == frame->BeginInputSession_0,
        frame is EndInputSession && frame->EndInputSession_request_id != 0 && !ids.contains(
            frame->EndInputSession_request_id,
        ) ==> r is EndInput && r->EndInput_request_id == frame->EndInputSession_request_id
            && r->EndInput_lease == frame->EndInputSession_lease,
        frame is CancelRequest && frame->CancelRequest_request_id != 0 && ids.contains(
            frame->CancelRequest_request_id,
        ) ==> r is Abort && r->Abort_request_id == frame->CancelRequest_request_id
            && r->Abort_answer@.request_id == frame->CancelRequest_request_id
            && r->Abort_answer@.status.code is Cancelled,
        frame is CancelRequest && frame->CancelRequest_request_id != 0 && !ids.contains(
            frame->CancelRequest_request_id,
        ) ==> r is Ignore,
{
}

/// The connection of a client that breaks the protocol is closed: one that greets
/// twice, sends what is no frame, or uses a number twice.
pub proof fn lemma_violations_close_the_connection(
    r: FrameAction,
    ids: Seq<u64>,
    frame: Option<ClientFrame>,
    permit_available: bool,
    permission: InputPermission,
)
    requires
        acts(r, ids, frame, permit_available, permission),
    ensures
        frame is None ==> r is Close && r->code == 6,
        frame is Some && frame->0 is Hello ==> r is Close && r->code == 6,
        frame is Some && frame->0 is Request && frame->0->Request_0.request_id != 0
            && ids.contains(frame->0->Request_0.request_id) ==> r is Close && r->code == 6,
        frame is Some && frame->0 is Subscribe && frame->0->Subscribe_request_id != 0
            && ids.contains(frame->0->Subscribe_request_id) ==> r is Close && r->code == 6,
        frame is Some && (frame->0 is TransferAccept || frame->0 is TransferCancel
            || frame->0 is TransferProgress) ==> r is Close && r->code == 6,
        frame is Some && frame->0 is Request && frame->0->Request_0.request_id == 0
            ==> r is Answer && r->Answer_0@.status.code is InvalidArgument,
        frame is Some && frame->0 is Request && frame->0->Request_0.request_id != 0
            && !ids.contains(frame->0->Request_0.request_id) && !permit_available ==> r is Answer
            && r->Answer_0@.request_id == frame->0->Request_0.request_id
            && r->Answer_0@.status.code is ResourceExhausted,
{
}

/// A request that was started is outstanding, one that was aborted is not, and all
/// others are as they were.
pub proof fn lemma_outstanding_requests(ids: Seq<u64>, r: FrameAction, id: u64)
    ensures
        r is Start ==> (ids_after(ids, r).contains(id) <==> id == r->request.request_id
            || ids.contains(id)),
        r is Abort ==> (ids_after(ids, r).contains(id) <==> id != r->Abort_request_id
            && ids.contains(id)),
        !(r is Start) && !(r is Abort) ==> ids_after(ids, r) == ids,
{
    if r is Start {
        crate::keyed::lemma_push_contains(ids, r->request.request_id, id);
    }
    if r is Abort {
        let ended = seq![r->Abort_request_id];
        lemma_without_contains(ids, ended, id);
        assert(ended[0] == r->Abort_request_id);
        assert(ended.contains(r->Abort_request_id));
    }
}

proof fn lemma_without_contains(ids: Seq<u64>, ended: Seq<u64>, id: u64)
    ensures
        without_ids(ids, ended).contains(id) <==> ids.contains(id) && !ended.contains(id),
    decreases ids.len(),
{
    reveal(Seq::filter);
    if ids.len() > 0 {
        let before = ids.drop_last();
        lemma_without_contains(before, ended, id);
        assert(ids =~= before.push(ids.last()));
        crate::keyed::lemma_push_contains(before, ids.last(), id);
        crate::keyed::lemma_push_contains(without_ids(before, ended), ids.last(), id);
    }
}

/// A stream is what its kind says: input, blobs, uploads and files each have their
/// own, and the clipboard is replicated only where that was agreed on and allowed.
pub proof fn lemma_streams_are_what_their_kind_says(
    kind: u8,
    replica_kind: u8,
    features: Map<Feature, u32>,
    capabilities: Seq<PeerCapability>,
    replica_permit: bool,
    already_open: bool,
)
    ensures
        ({
            let stream = auxiliary_of(kind, replica_kind, features, capabilities, replica_permit);
            let synced = features.contains_key(Feature::ClipboardSync) && capabilities.contains(
                PeerCapability::ClipboardSync,
            );
            &&& kind == 3 && kind != replica_kind ==> stream is Ok
                && stream->Ok_0 is BlobDownload
            &&& kind == 7 && kind != replica_kind ==> stream is Ok && stream->Ok_0 is RemoteFiles
            &&& kind == 6 && kind != replica_kind ==> (stream is Ok <==> synced) && (stream is Ok
                ==> stream->Ok_0 is ClipboardBlobUpload)
            &&& kind == replica_kind ==> (stream is Ok <==> synced
                && features[Feature::ClipboardSync] == 2 && replica_permit) && (stream is Ok
                ==> stream->Ok_0 is ClipboardReplica)
            &&& kind != replica_kind && kind != 3 && kind != 6 && kind != 7 ==> stream is Err
        }),
        input_stream_fault(kind, already_open) is None <==> kind == 2 && !already_open,
{
}

/// What a session opens with is what the two sides agreed on and what was granted:
/// the client is told every feature in its version, the limits of the wire and
/// every grant as it is.
pub proof fn lemma_welcomes_tell_the_agreement(
    r: OpenedSession,
    hello: ControlHello,
    server: Seq<FeatureVersion>,
    grants: Seq<Grant>,
    wire: WireLimits,
    i: int,
)
    requires
        opens(r, hello, server, grants, wire),
    ensures
        r.welcome.grants@.len() == grants.len(),
        0 <= i < grants.len() ==> {
            let (told, grant) = (r.welcome.grants@[i], grants[i]);
            &&& told.capability == grant.capability
            &&& told.direction is Inbound <==> grant.direction is Inbound
            &&& told.granted_at_ms == grant.granted_at_ms
        },
        0 <= i < grants.len() && grants[i].direction is Inbound ==> r.capabilities@.contains(
            grants[i].capability,
        ),
        0 <= i < r.welcome.features@.len() ==> {
            let told = r.welcome.features@[i];
            &&& r.features@.contains_key(told.feature)
            &&& told.min_version == told.max_version == r.features@[told.feature]
        },
        r.welcome.limits.max_control_frame_bytes == wire.max_control_frame_bytes,
        r.welcome.limits.max_blob_chunk_bytes == wire.max_blob_chunk_bytes,
{
    if 0 <= i < grants.len() {
        assert(crate::features::tells_grant(r.welcome.grants@[i], grants[i]));
        if grants[i].direction is Inbound {
            assert(crate::features::inbound(grants, grants[i].capability));
            assert(r.capabilities@.contains(grants[i].capability));
        }
    }
}

/// A session opens with a greeting alone, one that offers nothing improper and tells
/// its limits.
pub proof fn lemma_which_greetings_open_a_session(frame: Option<ClientFrame>, wire: WireLimits)
    ensures
        hello_fault(frame, wire) is None ==> {
            &&& frame is Some && frame->0 is Hello
            &&& frame->0->Hello_0.receive_limits is Some
            &&& frame->0->Hello_0.features@.len() <= 64
        },
        !(frame is Some && frame->0 is Hello) ==> hello_fault(frame, wire) is Some,
{
}

/// Each way in which a session ends has its own code, and that of a violation is
/// none of them.
pub proof fn lemma_ends_have_their_codes(a: SessionEnd, b: SessionEnd, end: RequestEnd)
    ensures
        close_code(a) == close_code(b) <==> a == b,
        close_code(a) != CLOSE_VIOLATION,
        close_code(a) == 0 <==> a is Over,
        close_code(a) == 4 <==> a is WriteFailed,
        close_code(a) == 5 <==> a is Disconnected,
        close_code(a) == 7 <==> a is Silent,
        CLOSE_VIOLATION == 6,
        end_code(end) is DeadlineExceeded <==> end is TimedOut,
        end_code(end) is Internal <==> end is Failed,
{
}

} // verus!
