//! Per-exchange terminal outcomes and the completion signals the dispatcher
//! emits for the collector, one per dispatched request.

use vstd::prelude::*;

verus! {

/// Why an exchange failed: a connection-level transport fault, or a response
/// stream the server terminated deliberately mid-transmission.
#[derive(Clone, Copy, Debug, PartialEq, Eq, Structural)]
pub enum ErrorCause {
    Transport,
    StreamAborted,
}

/// The single message sent for each exchange once it reaches a terminal
/// state: success, or the captured error cause. Delivery order need not match
/// dispatch order.
#[derive(Clone, Copy, Debug, PartialEq, Eq, Structural)]
pub enum CompletionSignal {
    Success,
    Failure(ErrorCause),
}

impl CompletionSignal {
    pub open spec fn is_success(self) -> bool {
        self == CompletionSignal::Success
    }

    /// Whether this signal reports a completed exchange.
    pub fn succeeded(&self) -> (r: bool)
        ensures
            r == self.is_success(),
    {
        match self {
            CompletionSignal::Success => true,
            CompletionSignal::Failure(_) => false,
        }
    }
}

/// How a response stream ends on the wire: a clean close, or a deliberate
/// mid-stream reset. An abort is a terminal failure distinct from a close and
/// must surface as an observable error on the client side.
#[derive(Clone, Copy, Debug, PartialEq, Eq, Structural)]
pub enum Termination {
    NormalClose,
    Abort,
}

/// The completion signal a client observes for an exchange whose response
/// stream ended the given way: a clean close is a success, an abort surfaces
/// as a stream-abort failure, never as a truncated success.
pub fn signal_of_termination(t: Termination) -> (s: CompletionSignal)
    ensures
        s.is_success() <==> t == Termination::NormalClose,
        t == Termination::Abort ==> s == CompletionSignal::Failure(ErrorCause::StreamAborted),
{
    match t {
        Termination::NormalClose => CompletionSignal::Success,
        Termination::Abort => CompletionSignal::Failure(ErrorCause::StreamAborted),
    }
}

} // verus!
