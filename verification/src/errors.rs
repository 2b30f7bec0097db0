use vstd::prelude::*;

verus! {

/// Errors surfaced by the TURN relay client.
#[derive(Clone, Copy, Debug, PartialEq, Eq, Structural)]
pub enum TurnError {
    /// The server rotated its nonce (STALE_NONCE); the request should be retried.
    TryAgain,
    /// A response whose type or class disagrees with the request.
    UnexpectedResponse,
    /// `recv_from` was handed a buffer smaller than the waiting datagram.
    ShortBuffer,
    /// The connection was closed; the operation can never succeed.
    AlreadyClosed,
    /// The transaction engine gave up after its last retransmission.
    Timeout,
    /// A malformed STUN message or ChannelData frame.
    Format,
    /// A MESSAGE-INTEGRITY check failed.
    Integrity,
    /// Every channel number is taken, so no binding could be created.
    AddrNotFound,
    /// The server answered with an error response that carries no retryable code.
    Rejected,
}

impl TurnError {
    /// A short description of the error, in place of `Display`; the
    /// channel-exhaustion wording is fixed for callers that match on it.
    pub fn as_str(&self) -> (r: &'static str)
        ensures
            self is TryAgain ==> r@ == "try again"@,
            self is UnexpectedResponse ==> r@ == "unexpected response"@,
            self is ShortBuffer ==> r@ == "short buffer"@,
            self is AlreadyClosed ==> r@ == "already closed"@,
            self is Timeout ==> r@ == "transaction timed out"@,
            self is Format ==> r@ == "malformed message"@,
            self is Integrity ==> r@ == "integrity check failed"@,
            self is AddrNotFound ==> r@ == "Addr not found"@,
            self is Rejected ==> r@ == "request rejected"@,
    {
        match self {
            TurnError::TryAgain => "try again",
            TurnError::UnexpectedResponse => "unexpected response",
            TurnError::ShortBuffer => "short buffer",
            TurnError::AlreadyClosed => "already closed",
            TurnError::Timeout => "transaction timed out",
            TurnError::Format => "malformed message",
            TurnError::Integrity => "integrity check failed",
            TurnError::AddrNotFound => "Addr not found",
            TurnError::Rejected => "request rejected",
        }
    }
}

} // verus!
