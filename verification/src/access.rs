//! What a request needs: the features that were agreed on and the capabilities
//! that were granted.

use vstd::prelude::*;
use vstd::string::*;

use crate::features::{Feature, SelectedFeatures};
use crate::host::HostCapabilityError;
use crate::peer::{has_capability, PeerCapability};
use crate::status::ErrorCode;
use crate::text::{byte_len, has_control, trim};

verus! {

/// The longest identifier of an action, an application or a notification, in
/// bytes.
pub const MAX_CONTROL_IDENTIFIER_BYTES: usize = 256;

/// True when the text names something: white space at its ends aside, it is
/// neither empty nor too long and holds no control character.
pub open spec fn control_identifier(value: Seq<char>) -> bool {
    let name = crate::text::trimmed(value);
    &&& name.len() > 0
    &&& crate::text::utf8_len(name) <= MAX_CONTROL_IDENTIFIER_BYTES
    &&& crate::text::control_free(name)
}

/// Tells whether a text names something.
pub fn valid_control_identifier(value: &str) -> (r: bool)
    ensures
        r == control_identifier(value@),
{
    let name = trim(value);
    !name.as_str().is_empty() && byte_len(name.as_str()) <= MAX_CONTROL_IDENTIFIER_BYTES
        && !has_control(name.as_str())
}

/// Why a request failed.
#[derive(Debug, PartialEq, Eq)]
pub struct CommandFailure {
    pub code: ErrorCode,
    pub message: String,
}

/// A [`CommandFailure`] as a mathematical value.
pub struct FailureView {
    pub code: ErrorCode,
    pub message: Seq<char>,
}

impl View for CommandFailure {
    type V = FailureView;

    open spec fn view(&self) -> FailureView {
        FailureView { code: self.code, message: self.message@ }
    }
}

/// The kinds of errors of the host's own services.
#[derive(Debug, Clone, Copy, PartialEq, Eq, Structural)]
pub enum CoreErrorKind {
    OperationFailed,
    NotFound,
    Unsupported,
    Unavailable,
    Internal,
}

/// The outcome that an error of the host's own services is reported as.
pub open spec fn core_outcome(kind: CoreErrorKind) -> ErrorCode {
    match kind {
        CoreErrorKind::OperationFailed => ErrorCode::FailedPrecondition,
        CoreErrorKind::NotFound => ErrorCode::NotFound,
        CoreErrorKind::Unsupported => ErrorCode::Unsupported,
        CoreErrorKind::Unavailable => ErrorCode::Unavailable,
        CoreErrorKind::Internal => ErrorCode::Internal,
    }
}

/// The outcome that an error of the host's own services is reported as.
pub fn core_error_code(kind: CoreErrorKind) -> (r: ErrorCode)
    ensures
        r == core_outcome(kind),
{
    match kind {
        CoreErrorKind::OperationFailed => ErrorCode::FailedPrecondition,
        CoreErrorKind::NotFound => ErrorCode::NotFound,
        CoreErrorKind::Unsupported => ErrorCode::Unsupported,
        CoreErrorKind::Unavailable => ErrorCode::Unavailable,
        CoreErrorKind::Internal => ErrorCode::Internal,
    }
}

impl CommandFailure {
    pub fn invalid(message: &str) -> (r: CommandFailure)
        ensures
            r@ == (FailureView { code: ErrorCode::InvalidArgument, message: message@ }),
    {
        CommandFailure { code: ErrorCode::InvalidArgument, message: message.to_owned() }
    }

    pub fn internal(message: &str) -> (r: CommandFailure)
        ensures
            r@ == (FailureView { code: ErrorCode::Internal, message: message@ }),
    {
        CommandFailure { code: ErrorCode::Internal, message: message.to_owned() }
    }

    pub fn unsupported(message: &str) -> (r: CommandFailure)
        ensures
            r@ == (FailureView { code: ErrorCode::Unsupported, message: message@ }),
    {
        CommandFailure { code: ErrorCode::Unsupported, message: message.to_owned() }
    }

    /// The failure of a capability of the host.
    pub fn provider(error: HostCapabilityError) -> (r: CommandFailure)
        ensures
            r@ == (FailureView {
                code: crate::host::host_outcome(error.code),
                message: error.message@,
            }),
    {
        CommandFailure { code: error.code.protocol_code(), message: error.message }
    }

    /// The failure of one of the host's own services.
    pub fn service(kind: CoreErrorKind, message: String) -> (r: CommandFailure)
        ensures
            r@ == (FailureView { code: core_outcome(kind), message: message@ }),
    {
        CommandFailure { code: core_error_code(kind), message }
    }
}

/// Why a request is not let through.
#[derive(Debug, PartialEq, Eq)]
pub enum Denial {
    /// The request itself is wrong.
    BadRequest(String),
    /// The feature was not agreed on.
    MissingFeature(Feature),
    /// The capability was not granted.
    MissingCapability(PeerCapability),
    /// None of several capabilities was granted.
    MissingEveryCapability,
}

/// A [`Denial`] as a mathematical value.
pub enum DenialView {
    BadRequest { message: Seq<char> },
    MissingFeature { feature: Feature },
    MissingCapability { capability: PeerCapability },
    MissingEveryCapability,
}

impl View for Denial {
    type V = DenialView;

    open spec fn view(&self) -> DenialView {
        match *self {
            Denial::BadRequest(message) => DenialView::BadRequest { message: message@ },
            Denial::MissingFeature(feature) => DenialView::MissingFeature { feature },
            Denial::MissingCapability(capability) => DenialView::MissingCapability { capability },
            Denial::MissingEveryCapability => DenialView::MissingEveryCapability,
        }
    }
}

/// The name of a feature.
pub open spec fn feature_text(feature: Feature) -> Seq<char> {
    match feature {
        Feature::Unspecified => "Unspecified"@,
        Feature::Subscriptions => "Subscriptions"@,
        Feature::System => "System"@,
        Feature::Processes => "Processes"@,
        Feature::Media => "Media"@,
        Feature::Clipboard => "Clipboard"@,
        Feature::ClipboardSync => "ClipboardSync"@,
        Feature::Windows => "Windows"@,
        Feature::Blobs => "Blobs"@,
        Feature::Actions => "Actions"@,
        Feature::Notifications => "Notifications"@,
        Feature::RemoteFiles => "RemoteFiles"@,
        Feature::InputReliable => "InputReliable"@,
        Feature::InputDatagram => "InputDatagram"@,
        Feature::WorkspaceInput => "WorkspaceInput"@,
        Feature::Printing => "Printing"@,
    }
}

/// The name of a feature.
pub fn feature_name(feature: Feature) -> (r: &'static str)
    ensures
        r@ == feature_text(feature),
{
    match feature {
        Feature::Unspecified => "Unspecified",
        Feature::Subscriptions => "Subscriptions",
        Feature::System => "System",
        Feature::Processes => "Processes",
        Feature::Media => "Media",
        Feature::Clipboard => "Clipboard",
        Feature::ClipboardSync => "ClipboardSync",
        Feature::Windows => "Windows",
        Feature::Blobs => "Blobs",
        Feature::Actions => "Actions",
        Feature::Notifications => "Notifications",
        Feature::RemoteFiles => "RemoteFiles",
        Feature::InputReliable => "InputReliable",
        Feature::InputDatagram => "InputDatagram",
        Feature::WorkspaceInput => "WorkspaceInput",
        Feature::Printing => "Printing",
    }
}

/// What a denial is reported as, where `token` is the wire name of the
/// capability that it speaks of.
pub open spec fn denial_failure(denial: DenialView, token: Seq<char>) -> FailureView {
    match denial {
        DenialView::BadRequest { message } => FailureView {
            code: ErrorCode::InvalidArgument,
            message,
        },
        DenialView::MissingFeature { feature } => FailureView {
            code: ErrorCode::Unsupported,
            message: "feature "@ + feature_text(feature) + " was not negotiated"@,
        },
        DenialView::MissingCapability { capability } => FailureView {
            code: ErrorCode::PermissionDenied,
            message: "capability "@ + token + " was not granted"@,
        },
        DenialView::MissingEveryCapability => FailureView {
            code: ErrorCode::PermissionDenied,
            message: "required capability was not granted"@,
        },
    }
}

impl Denial {
    /// What this is reported as, where `token` is the wire name of the
    /// capability that it speaks of.
    pub fn failure(self, token: &str) -> (r: CommandFailure)
        ensures
            r@ == denial_failure(self@, token@),
    {
        match self {
            Denial::BadRequest(message) => CommandFailure {
                code: ErrorCode::InvalidArgument,
                message,
            },
            Denial::MissingFeature(feature) => {
                let mut message = "feature ".to_owned();
                message.append(feature_name(feature));
                message.append(" was not negotiated");
                CommandFailure { code: ErrorCode::Unsupported, message }
            },
            Denial::MissingCapability(_) => {
                let mut message = "capability ".to_owned();
                message.append(token);
                message.append(" was not granted");
                CommandFailure { code: ErrorCode::PermissionDenied, message }
            },
            Denial::MissingEveryCapability => CommandFailure {
                code: ErrorCode::PermissionDenied,
                message: "required capability was not granted".to_owned(),
            },
        }
    }

    /// The capability whose wire name the report needs.
    pub fn capability(&self) -> (r: Option<PeerCapability>)
        ensures
            r == match self@ {
                DenialView::MissingCapability { capability } => Some(capability),
                _ => None,
            },
    {
        match self {
            Denial::MissingCapability(capability) => Some(*capability),
            _ => None,
        }
    }
}

/// True when `r` is the expected decision.
pub open spec fn decides(r: Result<(), Denial>, expected: Option<DenialView>) -> bool {
    match expected {
        Some(denial) => r is Err && r->Err_0@ == denial,
        None => r is Ok,
    }
}

/// Refused unless the feature was agreed on.
pub open spec fn feature_denial(features: Map<Feature, u32>, feature: Feature) -> Option<
    DenialView,
> {
    if features.contains_key(feature) {
        None
    } else {
        Some(DenialView::MissingFeature { feature })
    }
}

/// Refused unless the capability was granted.
pub open spec fn capability_denial(
    capabilities: Seq<PeerCapability>,
    capability: PeerCapability,
) -> Option<DenialView> {
    if capabilities.contains(capability) {
        None
    } else {
        Some(DenialView::MissingCapability { capability })
    }
}

/// Refused unless the feature was agreed on and the capability granted; the
/// feature comes first.
pub open spec fn access_denial(
    features: Map<Feature, u32>,
    capabilities: Seq<PeerCapability>,
    feature: Feature,
    capability: PeerCapability,
) -> Option<DenialView> {
    match feature_denial(features, feature) {
        Some(denial) => Some(denial),
        None => capability_denial(capabilities, capability),
    }
}

/// Asks for a feature.
pub fn require_feature(features: &SelectedFeatures, feature: Feature) -> (r: Result<(), Denial>)
    requires
        features.wf(),
    ensures
        decides(r, feature_denial(features@, feature)),
{
    if features.contains(feature) {
        Ok(())
    } else {
        Err(Denial::MissingFeature(feature))
    }
}

/// Asks for a capability.
pub fn require_capability(capabilities: &Vec<PeerCapability>, capability: PeerCapability) -> (r:
    Result<(), Denial>)
    ensures
        decides(r, capability_denial(capabilities@, capability)),
{
    if has_capability(capabilities, capability) {
        Ok(())
    } else {
        Err(Denial::MissingCapability(capability))
    }
}

/// True when one of the capabilities was granted.
pub open spec fn has_any(granted: Seq<PeerCapability>, wanted: Seq<PeerCapability>) -> bool {
    exists|i: int| 0 <= i < wanted.len() && granted.contains(#[trigger] wanted[i])
}

/// Asks for any of several capabilities.
pub fn require_any_capability(capabilities: &Vec<PeerCapability>, required: &[PeerCapability])
    -> (r: Result<(), Denial>)
    ensures
        decides(
            r,
            if has_any(capabilities@, required@) {
                None
            } else {
                Some(DenialView::MissingEveryCapability)
            },
        ),
{
    let mut i: usize = 0;
    while i < required.len()
        invariant
            i <= required@.len(),
            forall|j: int| 0 <= j < i ==> !capabilities@.contains(#[trigger] required@[j]),
        decreases required@.len() - i,
    {
        if has_capability(capabilities, required[i]) {
            return Ok(());
        }
        i += 1;
    }
    Err(Denial::MissingEveryCapability)
}

/// Asks for a feature, then for a capability.
pub fn require_access(
    features: &SelectedFeatures,
    capabilities: &Vec<PeerCapability>,
    feature: Feature,
    capability: PeerCapability,
) -> (r: Result<(), Denial>)
    requires
        features.wf(),
    ensures
        decides(r, access_denial(features@, capabilities@, feature, capability)),
{
    match require_feature(features, feature) {
        Err(denial) => Err(denial),
        Ok(()) => require_capability(capabilities, capability),
    }
}

/// A feature and a capability are enough for what they are asked for, and neither
/// is enough alone; the feature is missed first.
pub proof fn lemma_access_needs_both(
    features: Map<Feature, u32>,
    capabilities: Seq<PeerCapability>,
    feature: Feature,
    capability: PeerCapability,
)
    ensures
        ({
            let denial = access_denial(features, capabilities, feature, capability);
            &&& denial is None <==> features.contains_key(feature) && capabilities.contains(
                capability,
            )
            &&& !features.contains_key(feature) ==> denial is Some
                && denial->0 is MissingFeature && denial->0->feature == feature
            &&& features.contains_key(feature) && !capabilities.contains(capability)
                ==> denial is Some && denial->0 is MissingCapability && denial->0->capability
                == capability
        }),
{
}

/// What a client is told of a denial: a bad request is its own fault, a feature was
/// not agreed on, a capability was not granted.
pub proof fn lemma_denials_have_their_codes(denial: DenialView, token: Seq<char>)
    ensures
        denial is BadRequest ==> denial_failure(denial, token).code is InvalidArgument
            && denial_failure(denial, token).message == denial->message,
        denial is MissingFeature ==> denial_failure(denial, token).code is Unsupported,
        denial is MissingCapability || denial is MissingEveryCapability ==> denial_failure(
            denial,
            token,
        ).code is PermissionDenied,
{
}

/// An error of the host's own services is told as what it is.
pub proof fn lemma_core_errors_are_told_as_they_are(kind: CoreErrorKind)
    ensures
        core_outcome(kind) is FailedPrecondition <==> kind is OperationFailed,
        core_outcome(kind) is NotFound <==> kind is NotFound,
        core_outcome(kind) is Unsupported <==> kind is Unsupported,
        core_outcome(kind) is Unavailable <==> kind is Unavailable,
        core_outcome(kind) is Internal <==> kind is Internal,
{
}

/// One of several capabilities is enough where one of them is asked for.
pub proof fn lemma_any_capability_is_enough(
    granted: Seq<PeerCapability>,
    wanted: Seq<PeerCapability>,
    capability: PeerCapability,
)
    ensures
        granted.contains(capability) && wanted.contains(capability) ==> has_any(granted, wanted),
        has_any(granted, wanted) ==> exists|c: PeerCapability| #[trigger]
            granted.contains(c) && wanted.contains(c),
{
    if granted.contains(capability) && wanted.contains(capability) {
        let i = choose|i: int| 0 <= i < wanted.len() && wanted[i] == capability;
        assert(granted.contains(wanted[i]));
    }
    if has_any(granted, wanted) {
        let i = choose|i: int| 0 <= i < wanted.len() && granted.contains(#[trigger] wanted[i]);
        assert(wanted.contains(wanted[i]));
    }
}

/// A failure and a denial say what they say.
pub proof fn lemma_failures_show_their_facts(failure: CommandFailure, denial: Denial)
    ensures
        failure@.code == failure.code,
        failure@.message == failure.message@,
        denial is BadRequest ==> denial@ is BadRequest && denial@->message
            == denial->BadRequest_0@,
        denial is MissingFeature ==> denial@ is MissingFeature && denial@->feature
            == denial->MissingFeature_0,
        denial is MissingCapability ==> denial@ is MissingCapability && denial@->capability
            == denial->MissingCapability_0,
        denial is MissingEveryCapability ==> denial@ is MissingEveryCapability,
{
}

/// A decision lets through what nothing stands against, and refuses the rest for the
/// reason that stands against it.
pub proof fn lemma_decisions_are_as_expected(r: Result<(), Denial>, expected: Option<DenialView>)
    requires
        decides(r, expected),
    ensures
        r is Ok <==> expected is None,
        expected is Some && expected->0 is MissingFeature ==> r->Err_0 is MissingFeature,
        expected is Some && expected->0 is MissingCapability ==> r->Err_0 is MissingCapability,
        expected is Some && expected->0 is BadRequest ==> r->Err_0 is BadRequest,
{
}

/// A name that a request may use is a text of 1 to 256 bytes without control
/// characters once the space around it is gone, and that space does not matter.
pub proof fn lemma_proper_identifiers(a: Seq<char>, b: Seq<char>)
    ensures
        control_identifier(a) ==> crate::text::trimmed(a).len() > 0 && crate::text::utf8_len(
            crate::text::trimmed(a),
        ) <= 256 && crate::text::control_free(crate::text::trimmed(a)),
        crate::text::trimmed(a).len() > 0 && crate::text::utf8_len(crate::text::trimmed(a)) <= 256
            && crate::text::control_free(crate::text::trimmed(a)) ==> control_identifier(a),
        crate::text::trimmed(a) == crate::text::trimmed(b) ==> control_identifier(a)
            == control_identifier(b),
{
}

/// Each feature is called by its own name.
pub proof fn lemma_features_are_called_by_their_names(feature: Feature)
    ensures
        feature is Subscriptions ==> feature_text(feature) == "Subscriptions"@,
        feature is System ==> feature_text(feature) == "System"@,
        feature is Processes ==> feature_text(feature) == "Processes"@,
        feature is Media ==> feature_text(feature) == "Media"@,
        feature is Clipboard ==> feature_text(feature) == "Clipboard"@,
        feature is ClipboardSync ==> feature_text(feature) == "ClipboardSync"@,
        feature is Windows ==> feature_text(feature) == "Windows"@,
        feature is Blobs ==> feature_text(feature) == "Blobs"@,
        feature is Actions ==> feature_text(feature) == "Actions"@,
        feature is Notifications ==> feature_text(feature) == "Notifications"@,
        feature is RemoteFiles ==> feature_text(feature) == "RemoteFiles"@,
        feature is InputReliable ==> feature_text(feature) == "InputReliable"@,
        feature is InputDatagram ==> feature_text(feature) == "InputDatagram"@,
        feature is WorkspaceInput ==> feature_text(feature) == "WorkspaceInput"@,
        feature is Printing ==> feature_text(feature) == "Printing"@,
        feature is Unspecified ==> feature_text(feature) == "Unspecified"@,
{
}

} // verus!
