//! The errors of the protocol.

use vstd::prelude::*;

verus! {

/// Why an operation of the protocol failed.
#[derive(Debug, Clone, PartialEq, Eq)]
pub enum ProtocolError {
    Io(String),
    Serialization(String),
    Discovery(String),
    ConnectionRejected,
    ConnectionClosed,
    HandshakeFailed(String),
    MessageTooLarge(usize),
    RemoteFile(String),
    Other(String),
}

/// The machine-readable category of each error.
pub open spec fn category(error: ProtocolError) -> Seq<char> {
    match error {
        ProtocolError::Io(_) | ProtocolError::ConnectionClosed => "protocol.unavailable"@,
        ProtocolError::Serialization(_) => "protocol.serialization"@,
        ProtocolError::Discovery(_) => "protocol.discovery"@,
        ProtocolError::ConnectionRejected => "protocol.permission_denied"@,
        ProtocolError::HandshakeFailed(_) => "protocol.handshake_failed"@,
        ProtocolError::MessageTooLarge(_) => "protocol.resource_exhausted"@,
        ProtocolError::RemoteFile(_) => "protocol.remote_file_codec"@,
        ProtocolError::Other(_) => "protocol.operation_failed"@,
    }
}

/// What each error is shown as.
pub open spec fn shown(error: ProtocolError) -> Seq<char> {
    match error {
        ProtocolError::Io(text) => "I/O error: "@ + text@,
        ProtocolError::Serialization(text) => "serialization error: "@ + text@,
        ProtocolError::Discovery(text) => "discovery error: "@ + text@,
        ProtocolError::ConnectionRejected => "connection rejected by peer"@,
        ProtocolError::ConnectionClosed => "connection closed"@,
        ProtocolError::HandshakeFailed(text) => "TLS handshake failed: "@ + text@,
        ProtocolError::MessageTooLarge(bytes) => "message too large: "@
            + crate::text::decimal_digits(bytes as nat) + " bytes"@,
        ProtocolError::RemoteFile(text) | ProtocolError::Other(text) => text@,
    }
}

fn titled(title: &str, text: &str) -> (r: String)
    ensures
        r@ == title@ + text@,
{
    let mut out = title.to_owned();
    out.append(text);
    out
}

impl ProtocolError {
    /// What this is shown as.
    pub fn message(&self) -> (r: String)
        ensures
            r@ == shown(*self),
    {
        match self {
            ProtocolError::Io(text) => titled("I/O error: ", text.as_str()),
            ProtocolError::Serialization(text) => titled("serialization error: ", text.as_str()),
            ProtocolError::Discovery(text) => titled("discovery error: ", text.as_str()),
            ProtocolError::ConnectionRejected => "connection rejected by peer".to_owned(),
            ProtocolError::ConnectionClosed => "connection closed".to_owned(),
            ProtocolError::HandshakeFailed(text) => titled(
                "TLS handshake failed: ",
                text.as_str(),
            ),
            ProtocolError::MessageTooLarge(bytes) => {
                let number = crate::text::decimal_text(*bytes as u64);
                let counted = titled("message too large: ", number.as_str());
                titled(counted.as_str(), " bytes")
            },
            ProtocolError::RemoteFile(text) => text.as_str().to_owned(),
            ProtocolError::Other(text) => text.as_str().to_owned(),
        }
    }

    /// Stable machine-readable category for outer transport adapters.
    pub fn code(&self) -> (r: &'static str)
        ensures
            r@ == category(*self),
    {
        match self {
            ProtocolError::Io(_) | ProtocolError::ConnectionClosed => "protocol.unavailable",
            ProtocolError::Serialization(_) => "protocol.serialization",
            ProtocolError::Discovery(_) => "protocol.discovery",
            ProtocolError::ConnectionRejected => "protocol.permission_denied",
            ProtocolError::HandshakeFailed(_) => "protocol.handshake_failed",
            ProtocolError::MessageTooLarge(_) => "protocol.resource_exhausted",
            ProtocolError::RemoteFile(_) => "protocol.remote_file_codec",
            ProtocolError::Other(_) => "protocol.operation_failed",
        }
    }
}

/// The text of a failed operation, if it failed with nothing but a text.
pub open spec fn other_message<T>(r: Result<T, ProtocolError>) -> Option<Seq<char>> {
    match r {
        Err(ProtocolError::Other(message)) => Some(message@),
        _ => None,
    }
}

/// True when the operation failed with nothing but this text.
pub open spec fn fails_with<T>(r: Result<T, ProtocolError>, message: Seq<char>) -> bool {
    r is Err && other_message(r) == Some(message)
}

/// An error with nothing but a text.
pub fn other(message: &str) -> (r: ProtocolError)
    ensures
        r matches ProtocolError::Other(text) && text@ == message@,
{
    ProtocolError::Other(message.to_owned())
}

/// Errors of different kinds are told apart by their category, but for a connection
/// that is lost either way.
pub proof fn lemma_categories(error: ProtocolError)
    ensures
        error is Io || error is ConnectionClosed ==> category(error) == "protocol.unavailable"@,
        error is Serialization ==> category(error) == "protocol.serialization"@,
        error is Discovery ==> category(error) == "protocol.discovery"@,
        error is ConnectionRejected ==> category(error) == "protocol.permission_denied"@,
        error is HandshakeFailed ==> category(error) == "protocol.handshake_failed"@,
        error is MessageTooLarge ==> category(error) == "protocol.resource_exhausted"@,
        error is RemoteFile ==> category(error) == "protocol.remote_file_codec"@,
        error is Other ==> category(error) == "protocol.operation_failed"@,
{
}

/// What an error says is shown to the end.
pub proof fn lemma_errors_show_their_text(error: ProtocolError)
    ensures
        error is Io ==> error->Io_0@.is_suffix_of(shown(error)),
        error is Serialization ==> error->Serialization_0@.is_suffix_of(shown(error)),
        error is Discovery ==> error->Discovery_0@.is_suffix_of(shown(error)),
        error is HandshakeFailed ==> error->HandshakeFailed_0@.is_suffix_of(shown(error)),
        error is RemoteFile ==> shown(error) == error->RemoteFile_0@,
        error is Other ==> shown(error) == error->Other_0@,
{
    let all = shown(error);
    if error is Io {
        let text = error->Io_0@;
        assert(text =~= all.subrange(all.len() - text.len(), all.len() as int));
    }
    if error is Serialization {
        let text = error->Serialization_0@;
        assert(text =~= all.subrange(all.len() - text.len(), all.len() as int));
    }
    if error is Discovery {
        let text = error->Discovery_0@;
        assert(text =~= all.subrange(all.len() - text.len(), all.len() as int));
    }
    if error is HandshakeFailed {
        let text = error->HandshakeFailed_0@;
        assert(text =~= all.subrange(all.len() - text.len(), all.len() as int));
    }
}

} // verus!
