//! Requests: which are let through, and what is done with those that are.

use vstd::prelude::*;
use vstd::string::*;

use crate::access::{require_any_capability, require_feature, CommandFailure, Denial};
use crate::blob_store::{BlobStore, IssueTicketError};
use crate::command_cache::{
    command_error, CommandAdmission, CommandCache, CommandCacheKey, CommandResponse,
};
use crate::commands::{authorize_command_at, Command};
use crate::features::{Feature, SelectedFeatures};
use crate::peer::{has_capability, PeerCapability};
use crate::proto::BlobTicket;
use crate::queries::{authorize_query, Query};
use crate::status::ErrorCode;

verus! {

/// The shortest key by which a command is known again, in bytes.
pub const MIN_IDEMPOTENCY_KEY_BYTES: usize = 16;

/// The longest key by which a command is known again, in bytes.
pub const MAX_IDEMPOTENCY_KEY_BYTES: usize = 64;

/// What a client asks for.
#[derive(Debug, PartialEq, Eq)]
pub enum RequestBody {
    Query(Option<Query>),
    Command(Option<Command>),
    GetBlob { blob_id: Vec<u8> },
}

/// A request.
#[derive(Debug, PartialEq, Eq)]
pub struct Request {
    pub request_id: u64,
    pub idempotency_key: Vec<u8>,
    pub timeout_ms: u32,
    pub body: Option<RequestBody>,
}

/// Why a request that came at the time `now` is not let through, if so.
pub open spec fn request_denial(
    request: Request,
    features: Map<Feature, u32>,
    capabilities: Seq<PeerCapability>,
    now: i64,
) -> Option<crate::access::DenialView> {
    match request.body {
        None => Some(crate::access::DenialView::BadRequest { message: "empty request"@ }),
        Some(RequestBody::Query(query)) => if request.idempotency_key@.len() != 0 {
            Some(
                crate::access::DenialView::BadRequest {
                    message: "queries must not include an idempotency key"@,
                },
            )
        } else {
            crate::queries::query_denial(query, features, capabilities)
        },
        Some(RequestBody::Command(command)) => if !(MIN_IDEMPOTENCY_KEY_BYTES
            <= request.idempotency_key@.len() <= MAX_IDEMPOTENCY_KEY_BYTES) {
            Some(
                crate::access::DenialView::BadRequest {
                    message: "commands require a 16-64 byte idempotency key"@,
                },
            )
        } else {
            crate::commands::command_denial(command, features, capabilities, now)
        },
        Some(RequestBody::GetBlob { blob_id }) => if request.idempotency_key@.len() != 0 {
            Some(
                crate::access::DenialView::BadRequest {
                    message: "Blob requests must not include an idempotency key"@,
                },
            )
        } else if blob_id@.len() != 32 {
            Some(
                crate::access::DenialView::BadRequest {
                    message: "Blob IDs must be 32-byte SHA-256 digests"@,
                },
            )
        } else if !features.contains_key(Feature::Blobs) {
            Some(crate::access::DenialView::MissingFeature { feature: Feature::Blobs })
        } else if !capabilities.contains(PeerCapability::ClipboardRead) && !capabilities.contains(
            PeerCapability::ClipboardSync,
        ) {
            Some(crate::access::DenialView::MissingEveryCapability)
        } else {
            None
        },
    }
}

/// Decides whether a request is let through.
pub fn authorize_request(
    request: &Request,
    features: &SelectedFeatures,
    capabilities: &Vec<PeerCapability>,
    now: i64,
) -> (r: Result<(), Denial>)
    requires
        features.wf(),
    ensures
        crate::access::decides(r, request_denial(*request, features@, capabilities@, now)),
{
    match &request.body {
        None => Err(Denial::BadRequest("empty request".to_owned())),
        Some(RequestBody::Query(query)) => {
            if request.idempotency_key.len() != 0 {
                return Err(
                    Denial::BadRequest("queries must not include an idempotency key".to_owned()),
                );
            }
            authorize_query(query, features, capabilities)
        },
        Some(RequestBody::Command(command)) => {
            if request.idempotency_key.len() < MIN_IDEMPOTENCY_KEY_BYTES
                || request.idempotency_key.len() > MAX_IDEMPOTENCY_KEY_BYTES {
                return Err(
                    Denial::BadRequest("commands require a 16-64 byte idempotency key".to_owned()),
                );
            }
            authorize_command_at(command, features, capabilities, now)
        },
        Some(RequestBody::GetBlob { blob_id }) => {
            if request.idempotency_key.len() != 0 {
                return Err(
                    Denial::BadRequest(
                        "Blob requests must not include an idempotency key".to_owned(),
                    ),
                );
            }
            if blob_id.len() != 32 {
                return Err(
                    Denial::BadRequest("Blob IDs must be 32-byte SHA-256 digests".to_owned()),
                );
            }
            if let Err(denial) = require_feature(features, Feature::Blobs) {
                return Err(denial);
            }
            let wanted: [PeerCapability; 2] = [
                PeerCapability::ClipboardRead,
                PeerCapability::ClipboardSync,
            ];
            let ghost granted = capabilities@;
            proof {
                assert(wanted@[0] == PeerCapability::ClipboardRead);
                assert(wanted@[1] == PeerCapability::ClipboardSync);
                if crate::access::has_any(granted, wanted@) {
                    let i = choose|i: int|
                        0 <= i < wanted@.len() && granted.contains(#[trigger] wanted@[i]);
                    assert(i == 0 || i == 1);
                }
            }
            require_any_capability(capabilities, wanted.as_slice())
        },
    }
}

/// True when a client may fetch blobs that belong to answers.
pub open spec fn reads_blobs(
    features: Map<Feature, u32>,
    capabilities: Seq<PeerCapability>,
) -> bool {
    (capabilities.contains(PeerCapability::ClipboardRead) || capabilities.contains(
        PeerCapability::ClipboardSync,
    )) && features.contains_key(Feature::Blobs)
}

/// Tells whether a client may fetch blobs that belong to answers.
pub fn can_read_blobs(features: &SelectedFeatures, capabilities: &Vec<PeerCapability>) -> (r: bool)
    requires
        features.wf(),
    ensures
        r == reads_blobs(features@, capabilities@),
{
    (has_capability(capabilities, PeerCapability::ClipboardRead) || has_capability(
        capabilities,
        PeerCapability::ClipboardSync,
    )) && features.contains(Feature::Blobs)
}

/// What is done with a request.
#[derive(Debug)]
pub enum RequestStep {
    /// It is not let through.
    Refuse(Denial),
    /// The host answers a question.
    Ask { query: Query, can_read_blobs: bool },
    /// A command is answered at once.
    AnswerCommand(CommandResponse),
    /// The same command is being carried out; its response answers this one
    /// too.
    JoinCommand { key: CommandCacheKey },
    /// A command is to be carried out.
    StartCommand { key: CommandCacheKey, command: Command },
    /// A ticket for a blob.
    Ticket(BlobTicket),
    /// There is no ticket to be had.
    Fail(CommandFailure),
}

/// What the lack of a ticket is reported as.
pub open spec fn ticket_failure(error: IssueTicketError) -> crate::access::FailureView {
    match error {
        IssueTicketError::NotFound => crate::access::FailureView {
            code: ErrorCode::NotFound,
            message: "blob is not available"@,
        },
        IssueTicketError::ResourceExhausted => crate::access::FailureView {
            code: ErrorCode::ResourceExhausted,
            message: "too many Blob tickets are outstanding"@,
        },
    }
}

/// What a step says of the admission of a command.
pub open spec fn admission_of(r: RequestStep) -> CommandAdmission {
    match r {
        RequestStep::AnswerCommand(response) => CommandAdmission::Answer(response),
        RequestStep::JoinCommand { .. } => CommandAdmission::Join,
        _ => CommandAdmission::Start,
    }
}

/// True when `r` says what became of the wish for a ticket `t`.
pub open spec fn tells_ticket(r: RequestStep, t: Result<BlobTicket, IssueTicketError>) -> bool {
    match t {
        Ok(ticket) => r == RequestStep::Ticket(ticket),
        Err(error) => r is Fail && r->Fail_0@ == ticket_failure(error),
    }
}

/// Takes up a request that came at the time `now` of the clock that only runs
/// forward and `wall_ms` of the calendar, where `encoded_command` is the command
/// as it travelled, `permit_available` tells whether there is capacity for one
/// more command, and `chunk_size` is the size of the chunks in which blobs
/// travel.
pub fn handle_request(
    request: Request,
    encoded_command: &[u8],
    features: &SelectedFeatures,
    capabilities: &Vec<PeerCapability>,
    cache: &mut CommandCache,
    blob_store: &mut BlobStore,
    device_public_key: &[u8],
    permit_available: bool,
    chunk_size: u32,
    now: u64,
    wall_ms: i64,
) -> (r: RequestStep)
    requires
        features.wf(),
        old(cache).wf(),
        old(blob_store).wf(),
        now + crate::blob_store::BLOB_IDLE_TTL_MS <= u64::MAX,
        wall_ms + crate::blob_store::TICKET_TTL_MS <= i64::MAX,
    ensures
        final(cache).wf(),
        final(blob_store).wf(),
        !(request.body matches Some(RequestBody::Command(_))) ==> final(cache)@ == old(cache)@,
        !(request.body matches Some(RequestBody::GetBlob { .. })) ==> final(blob_store)@ == old(
            blob_store,
        )@,
        match request_denial(request, features@, capabilities@, wall_ms) {
            Some(denial) => {
                &&& r is Refuse
                &&& r->Refuse_0@ == denial
                &&& final(cache)@ == old(cache)@
                &&& final(blob_store)@ == old(blob_store)@
            },
            None => match request.body {
                None => true,
                Some(RequestBody::Query(query)) => r == (RequestStep::Ask {
                    query: query->0,
                    can_read_blobs: reads_blobs(features@, capabilities@),
                }),
                Some(RequestBody::Command(command)) => {
                    let key = crate::command_cache::KeyView {
                        device: device_public_key@,
                        idempotency_key: request.idempotency_key@,
                    };
                    &&& r is AnswerCommand || r is JoinCommand || r is StartCommand
                    &&& r is JoinCommand ==> r->JoinCommand_key@ == key
                    &&& r is StartCommand ==> r->StartCommand_key@ == key
                        && r->StartCommand_command == command->0
                    &&& crate::command_cache::admits(
                        admission_of(r),
                        old(cache)@,
                        final(cache)@,
                        key,
                        encoded_command@,
                        request.request_id,
                        permit_available,
                        now,
                    )
                },
                Some(RequestBody::GetBlob { blob_id }) => {
                    let p = crate::blob_store::pruned(old(blob_store)@, now);
                    &&& r is Ticket <==> crate::blob_store::holds(
                        p.blobs,
                        blob_id@,
                        device_public_key@,
                    ) && !crate::blob_store::ticket_limit_reached(p, device_public_key@)
                    &&& exists|t: Result<BlobTicket, IssueTicketError>| #[trigger]
                        crate::blob_store::issues(
                            t,
                            old(blob_store)@,
                            final(blob_store)@,
                            device_public_key@,
                            blob_id@,
                            chunk_size,
                            now,
                            wall_ms,
                        ) && tells_ticket(r, t)
                },
            },
        },
{
    if let Err(denial) = authorize_request(&request, features, capabilities, wall_ms) {
        return RequestStep::Refuse(denial);
    }
    match request.body {
        None => RequestStep::Refuse(Denial::BadRequest("empty request".to_owned())),
        Some(RequestBody::Query(None)) => RequestStep::Refuse(
            Denial::BadRequest("empty query".to_owned()),
        ),
        Some(RequestBody::Query(Some(query))) => RequestStep::Ask {
            query,
            can_read_blobs: can_read_blobs(features, capabilities),
        },
        Some(RequestBody::Command(None)) => RequestStep::Refuse(
            Denial::BadRequest("empty command".to_owned()),
        ),
        Some(RequestBody::Command(Some(command))) => {
            let key = CommandCacheKey::new(device_public_key, request.idempotency_key.as_slice());
            match cache.accept(
                &key,
                encoded_command,
                request.request_id,
                permit_available,
                now,
            ) {
                CommandAdmission::Answer(response) => RequestStep::AnswerCommand(response),
                CommandAdmission::Join => RequestStep::JoinCommand { key },
                CommandAdmission::Start => RequestStep::StartCommand { key, command },
            }
        },
        Some(RequestBody::GetBlob { blob_id }) => {
            let issued = blob_store.issue_ticket(
                device_public_key,
                blob_id.as_slice(),
                chunk_size,
                now,
                wall_ms,
            );
            let ghost t = issued;
            let r = match issued {
                Ok(ticket) => RequestStep::Ticket(ticket),
                Err(IssueTicketError::NotFound) => RequestStep::Fail(
                    CommandFailure {
                        code: ErrorCode::NotFound,
                        message: "blob is not available".to_owned(),
                    },
                ),
                Err(IssueTicketError::ResourceExhausted) => RequestStep::Fail(
                    CommandFailure {
                        code: ErrorCode::ResourceExhausted,
                        message: "too many Blob tickets are outstanding".to_owned(),
                    },
                ),
            };
            assert(tells_ticket(r, t));
            r
        },
    }
}

/// Without any capability no request does anything.
pub proof fn lemma_no_capability_no_request(
    request: Request,
    features: Map<Feature, u32>,
    now: i64,
)
    ensures
        request_denial(request, features, Seq::empty(), now) is Some,
{
}

/// What a command is answered whose task ended with `outcome`.
pub open spec fn ends_command(
    r: CommandResponse,
    outcome: Result<CommandResponse, String>,
    request_id: u64,
) -> bool {
    match outcome {
        Ok(response) => r == response,
        Err(error) => crate::command_cache::is_error_response(
            r@,
            request_id,
            ErrorCode::Internal,
            "command task failed: "@ + error@,
        ),
    }
}

/// The response to a command whose task ended, or failed with an error.
pub fn command_outcome(outcome: Result<CommandResponse, String>, request_id: u64) -> (r:
    CommandResponse)
    ensures
        ends_command(r, outcome, request_id),
{
    match outcome {
        Ok(response) => response,
        Err(error) => {
            let mut message = "command task failed: ".to_owned();
            message.append(error.as_str());
            command_error(request_id, ErrorCode::Internal, message.as_str())
        },
    }
}

/// Answers a request with the response to the command that it started or
/// joined, if there is one.
pub fn answer_with(result: Option<CommandResponse>, request_id: u64) -> (r: CommandResponse)
    ensures
        match result {
            Some(response) => r@ == (crate::command_cache::CommandResponseView {
                request_id,
                ..response@
            }),
            None => crate::command_cache::is_error_response(
                r@,
                request_id,
                ErrorCode::Unavailable,
                "the original command ended without a result"@,
            ),
        },
{
    match result {
        Some(response) => {
            let mut response = response;
            response.request_id = request_id;
            response
        },
        None => command_error(
            request_id,
            ErrorCode::Unavailable,
            "the original command ended without a result",
        ),
    }
}

/// A command that was carried out and may not be repeated is answered the same
/// way again: the same request with the same key, as long as the response is
/// kept, gets that response under its own number, and nothing is carried out.
pub proof fn lemma_command_carried_out_once(
    before: crate::command_cache::CacheView,
    after: crate::command_cache::CacheView,
    r: CommandAdmission,
    key: crate::command_cache::KeyView,
    command: Seq<u8>,
    response: crate::command_cache::CommandResponseView,
    response_len: nat,
    finished_at: u64,
    request_id: u64,
    permit_available: bool,
    now: u64,
)
    requires
        key.idempotency_key.len() + command.len() + response_len
            <= crate::command_cache::MAX_CACHED_COMMAND_BYTES_PER_DEVICE,
        now - finished_at < crate::command_cache::COMMAND_CACHE_TTL_MS,
        crate::command_cache::valid(before),
        crate::command_cache::admits(
            r,
            (crate::command_cache::CacheView {
                entries: crate::command_cache::inserted(
                    before.entries,
                    key,
                    command,
                    response,
                    response_len,
                    finished_at,
                ),
                ..before
            }),
            after,
            key,
            command,
            request_id,
            permit_available,
            now,
        ),
    ensures
        r is Answer,
        r->Answer_0@ == (crate::command_cache::CommandResponseView { request_id, ..response }),
        after.in_flight == before.in_flight,
{
    crate::command_cache::lemma_replay(
        before.entries,
        key,
        command,
        response,
        response_len,
        finished_at,
        now,
    );
    let p = crate::command_cache::pruned(
        crate::command_cache::inserted(
            before.entries,
            key,
            command,
            response,
            response_len,
            finished_at,
        ),
        now,
    );
    crate::command_cache::lemma_inserted_distinct(
        before.entries,
        key,
        command,
        response,
        response_len,
        finished_at,
    );
    crate::command_cache::lemma_pruned_distinct(
        crate::command_cache::inserted(
            before.entries,
            key,
            command,
            response,
            response_len,
            finished_at,
        ),
        now,
    );
    assert(p[p.len() - 1].key == key);
    let i = crate::command_cache::place(p, key);
    assert(0 <= i < p.len() && p[i].key == key);
    assert(i == p.len() - 1);
}

/// A command needs a key of 16 to 64 bytes, and a question or a wish for a blob has
/// none; a blob is named by a digest and needs the feature and one of the two
/// capabilities to read the clipboard.
pub proof fn lemma_what_a_request_needs(
    request: Request,
    features: Map<Feature, u32>,
    capabilities: Seq<PeerCapability>,
    now: i64,
)
    ensures
        request.body is None ==> request_denial(request, features, capabilities, now) is Some,
        request.body is Some && request_denial(request, features, capabilities, now) is None ==> {
            &&& request.body->0 is Command ==> 16 <= request.idempotency_key@.len() <= 64
            &&& !(request.body->0 is Command) ==> request.idempotency_key@.len() == 0
            &&& request.body->0 is Command ==> request.body->0->Command_0 is Some
            &&& request.body->0 is Query ==> request.body->0->Query_0 is Some
        },
        request.body is Some && request.body->0 is GetBlob ==> (request_denial(
            request,
            features,
            capabilities,
            now,
        ) is None <==> {
            &&& request.idempotency_key@.len() == 0
            &&& request.body->0->blob_id@.len() == 32
            &&& features.contains_key(Feature::Blobs)
            &&& capabilities.contains(PeerCapability::ClipboardRead) || capabilities.contains(
                PeerCapability::ClipboardSync,
            )
        }),
        request.body is Some && request.body->0 is Query && request.idempotency_key@.len() == 0
            ==> request_denial(request, features, capabilities, now)
            == crate::queries::query_denial(request.body->0->Query_0, features, capabilities),
        request.body is Some && request.body->0 is Command && 16
            <= request.idempotency_key@.len() <= 64 ==> request_denial(
            request,
            features,
            capabilities,
            now,
        ) == crate::commands::command_denial(
            request.body->0->Command_0,
            features,
            capabilities,
            now,
        ),
{
}

/// Thumbnails are offered only to a client that can fetch them.
pub proof fn lemma_who_reads_blobs(features: Map<Feature, u32>, capabilities: Seq<PeerCapability>)
    ensures
        reads_blobs(features, capabilities) <==> features.contains_key(Feature::Blobs) && (
        capabilities.contains(PeerCapability::ClipboardRead) || capabilities.contains(
            PeerCapability::ClipboardSync,
        )),
{
}

/// A client is told why there is no ticket: there is no such blob, or too many
/// tickets are out.
pub proof fn lemma_missing_tickets_are_told(
    r: RequestStep,
    t: Result<BlobTicket, IssueTicketError>,
)
    requires
        tells_ticket(r, t),
    ensures
        t is Ok ==> r is Ticket && r->Ticket_0 == t->Ok_0,
        t is Err && t->Err_0 is NotFound ==> r is Fail && r->Fail_0@.code is NotFound,
        t is Err && t->Err_0 is ResourceExhausted ==> r is Fail && r->Fail_0@.code
            is ResourceExhausted,
{
}

/// A command that ended is answered what it ended with, and one that broke off an
/// internal failure.
pub proof fn lemma_ended_commands_are_answered(
    r: CommandResponse,
    outcome: Result<CommandResponse, String>,
    request_id: u64,
)
    requires
        ends_command(r, outcome, request_id),
    ensures
        outcome is Ok ==> r == outcome->Ok_0,
        outcome is Err ==> r@.request_id == request_id && r@.output is None
            && r@.status.code is Internal,
{
}

/// A ticket that is not issued is refused for its own reason.
pub proof fn lemma_ticket_refusals(error: IssueTicketError)
    ensures
        error is NotFound <==> ticket_failure(error).code is NotFound,
        error is ResourceExhausted <==> ticket_failure(error).code is ResourceExhausted,
        error is NotFound ==> ticket_failure(error).message == "blob is not available"@,
        error is ResourceExhausted ==> ticket_failure(error).message
            == "too many Blob tickets are outstanding"@,
{
}

} // verus!
