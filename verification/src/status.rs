//! Error codes and the status that every response carries.

use vstd::prelude::*;

use crate::outside::random_u128;
use crate::text::{hex_text, truncate_utf8};

verus! {

/// The longest message that a status carries, in bytes.
pub const MAX_STATUS_MESSAGE_BYTES: usize = 8192;

/// The outcome of a request, as the protocol names it.
#[derive(Debug, Clone, Copy, PartialEq, Eq, Structural)]
pub enum ErrorCode {
    Unspecified,
    Success,
    InvalidArgument,
    Unauthenticated,
    PermissionDenied,
    NotFound,
    Conflict,
    FailedPrecondition,
    ResourceExhausted,
    DeadlineExceeded,
    Cancelled,
    Unavailable,
    Busy,
    Unsupported,
    Internal,
}

/// What a client can do about a failure.
#[derive(Debug, Clone, Copy, PartialEq, Eq, Structural)]
pub enum RecoveryAction {
    NoAction,
    Retry,
    RetryWithBackoff,
    Refresh,
    ChangeRequest,
}

/// The outcome of a request with its explanation.
#[derive(Debug, PartialEq, Eq)]
pub struct Status {
    pub code: ErrorCode,
    pub message: String,
    pub retryable: bool,
    pub retry_after_ms: u32,
    pub recovery_action: RecoveryAction,
    pub error_id: String,
}

/// A [`Status`] as a mathematical value.
pub struct StatusView {
    pub code: ErrorCode,
    pub message: Seq<char>,
    pub retryable: bool,
    pub retry_after_ms: u32,
    pub recovery_action: RecoveryAction,
    pub error_id: Seq<char>,
}

impl View for Status {
    type V = StatusView;

    open spec fn view(&self) -> StatusView {
        StatusView {
            code: self.code,
            message: self.message@,
            retryable: self.retryable,
            retry_after_ms: self.retry_after_ms,
            recovery_action: self.recovery_action,
            error_id: self.error_id@,
        }
    }
}

impl Clone for Status {
    fn clone(&self) -> (r: Status)
        ensures
            r@ == self@,
    {
        Status {
            code: self.code,
            message: self.message.clone(),
            retryable: self.retryable,
            retry_after_ms: self.retry_after_ms,
            recovery_action: self.recovery_action,
            error_id: self.error_id.clone(),
        }
    }
}

/// What a client can do about each kind of failure.
pub open spec fn recovery_for(code: ErrorCode) -> RecoveryAction {
    match code {
        ErrorCode::Busy
        | ErrorCode::ResourceExhausted
        | ErrorCode::DeadlineExceeded
        | ErrorCode::Unavailable => RecoveryAction::RetryWithBackoff,
        ErrorCode::Conflict => RecoveryAction::Refresh,
        ErrorCode::InvalidArgument
        | ErrorCode::FailedPrecondition => RecoveryAction::ChangeRequest,
        _ => RecoveryAction::NoAction,
    }
}

/// True when a client may repeat a request that ended with this code.
pub open spec fn retryable(code: ErrorCode) -> bool {
    recovery_for(code) == RecoveryAction::RetryWithBackoff
}

/// True when `s` reports `code` with `message`. An internal failure shows an
/// identifier of 32 hexadecimal digits in place of the message.
pub open spec fn reports(s: StatusView, code: ErrorCode, message: Seq<char>) -> bool {
    &&& s.code == code
    &&& s.recovery_action == recovery_for(code)
    &&& s.retryable == retryable(code)
    &&& s.retry_after_ms == 0
    &&& if code == ErrorCode::Internal {
        &&& s.message == "operation failed internally"@
        &&& s.error_id.len() == 32
        &&& crate::text::all_hex(s.error_id)
    } else {
        &&& crate::text::is_truncation(s.message, message, MAX_STATUS_MESSAGE_BYTES as nat)
        &&& s.error_id.len() == 0
    }
}

/// The status of a success.
pub open spec fn is_ok_status(s: StatusView) -> bool {
    &&& s.code == ErrorCode::Success
    &&& s.message.len() == 0
    &&& !s.retryable
    &&& s.retry_after_ms == 0
    &&& s.recovery_action == RecoveryAction::NoAction
    &&& s.error_id.len() == 0
}

/// A status for success.
pub fn ok_status() -> (r: Status)
    ensures
        is_ok_status(r@),
{
    Status {
        code: ErrorCode::Success,
        message: String::new(),
        retryable: false,
        retry_after_ms: 0,
        recovery_action: RecoveryAction::NoAction,
        error_id: String::new(),
    }
}

fn recovery_action(code: ErrorCode) -> (r: RecoveryAction)
    ensures
        r == recovery_for(code),
{
    match code {
        ErrorCode::Busy
        | ErrorCode::ResourceExhausted
        | ErrorCode::DeadlineExceeded
        | ErrorCode::Unavailable => RecoveryAction::RetryWithBackoff,
        ErrorCode::Conflict => RecoveryAction::Refresh,
        ErrorCode::InvalidArgument
        | ErrorCode::FailedPrecondition => RecoveryAction::ChangeRequest,
        _ => RecoveryAction::NoAction,
    }
}

/// A status with the given number as its error identifier, should it need one.
pub fn status_with(code: ErrorCode, message: String, error_number: u128) -> (r: Status)
    ensures
        reports(r@, code, message@),
        code == ErrorCode::Internal ==> r@.error_id == crate::text::hex_digits(
            error_number as nat,
            32,
        ),
{
    let action = recovery_action(code);
    let internal = code == ErrorCode::Internal;
    let error_id = if internal {
        proof {
            crate::text::lemma_hex_digits(error_number as nat, 32);
        }
        hex_text(error_number, 32)
    } else {
        String::new()
    };
    let shown = if internal {
        "operation failed internally".to_owned()
    } else {
        truncate_utf8(message, MAX_STATUS_MESSAGE_BYTES)
    };
    Status {
        code,
        message: shown,
        retryable: action == RecoveryAction::Retry || action == RecoveryAction::RetryWithBackoff,
        retry_after_ms: 0,
        recovery_action: action,
        error_id,
    }
}

/// A status that reports `code`. The message of an internal failure is not
/// shown; a random identifier stands for it.
pub fn status(code: ErrorCode, message: &str) -> (r: Status)
    ensures
        reports(r@, code, message@),
{
    let error_number: u128 = if code == ErrorCode::Internal {
        random_u128()
    } else {
        0
    };
    status_with(code, message.to_owned(), error_number)
}

/// The message of an internal failure never shows: two such statuses differ at
/// most in their identifiers.
pub proof fn lemma_internal_hides_message(a: StatusView, b: StatusView, m: Seq<char>, n: Seq<char>)
    requires
        reports(a, ErrorCode::Internal, m),
        reports(b, ErrorCode::Internal, n),
    ensures
        a == (StatusView { error_id: a.error_id, ..b }),
        a.error_id.len() > 0,
{
}

/// A short message is reported whole.
pub proof fn lemma_short_message(s: StatusView, code: ErrorCode, message: Seq<char>)
    requires
        reports(s, code, message),
        code != ErrorCode::Internal,
        crate::text::utf8_len(message) <= MAX_STATUS_MESSAGE_BYTES,
    ensures
        s.message == message,
{
    crate::text::lemma_truncation_idempotent(
        s.message,
        message,
        MAX_STATUS_MESSAGE_BYTES as nat,
    );
}

/// What a client is advised to do: to try again later what may work then, to read
/// again what has changed, to ask otherwise what was asked wrongly, and nothing
/// else.
pub proof fn lemma_advice_fits_the_failure(code: ErrorCode)
    ensures
        recovery_for(code) is RetryWithBackoff <==> code is Busy || code is ResourceExhausted
            || code is DeadlineExceeded || code is Unavailable,
        recovery_for(code) is Refresh <==> code is Conflict,
        recovery_for(code) is ChangeRequest <==> code is InvalidArgument
            || code is FailedPrecondition,
        retryable(code) <==> code is Busy || code is ResourceExhausted
            || code is DeadlineExceeded || code is Unavailable,
{
}

/// A failure is told with its own code and, unless it is internal, with the begin
/// of its own words; of an internal one nothing is shown but a number to look it
/// up by. A success tells nothing.
pub proof fn lemma_statuses_tell_the_outcome(s: StatusView, code: ErrorCode, message: Seq<char>)
    ensures
        reports(s, code, message) ==> {
            &&& s.code == code
            &&& s.retry_after_ms == 0
            &&& !(code is Internal) ==> s.message.is_prefix_of(message) && s.error_id.len() == 0
            &&& !(code is Internal) && crate::text::utf8_len(message) <= MAX_STATUS_MESSAGE_BYTES
                ==> s.message == message
            &&& code is Internal ==> s.message == "operation failed internally"@
                && s.error_id.len() == 32
            &&& s.retryable ==> code is Busy || code is ResourceExhausted
                || code is DeadlineExceeded || code is Unavailable
        },
        is_ok_status(s) ==> {
            &&& s.code is Success
            &&& s.message.len() == 0
            &&& s.error_id.len() == 0
            &&& !s.retryable
        },
{
    if reports(s, code, message) && !(code is Internal) && s.message.len() < message.len() {
        crate::text::lemma_utf8_len_take(message, s.message.len() as int + 1);
    }
    if reports(s, code, message) && !(code is Internal) && s.message.len() == message.len() {
        assert(s.message =~= message);
    }
}

/// A status says what it says, each fact in its place.
pub proof fn lemma_statuses_show_their_facts(s: Status)
    ensures
        s@.code == s.code,
        s@.message == s.message@,
        s@.retryable == s.retryable,
        s@.retry_after_ms == s.retry_after_ms,
        s@.recovery_action == s.recovery_action,
        s@.error_id == s.error_id@,
{
}

} // verus!
