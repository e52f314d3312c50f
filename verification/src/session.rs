//! The attempts at a turn: a request that the provider turns away for want of
//! valid credentials is tried again with new ones.

use vstd::prelude::*;

verus! {

/// How an attempt to stream a turn ended.
#[derive(Debug, Clone, Copy, PartialEq, Eq, Structural)]
pub enum AttemptOutcome {
    /// The answer streams in.
    Streaming,
    /// The transport failed; `recoverable` tells whether new credentials may help.
    TransportFailed { recoverable: bool },
    /// Something else failed.
    Failed,
}

/// What follows an attempt.
#[derive(Debug, Clone, Copy, PartialEq, Eq, Structural)]
pub enum NextStep {
    /// Hand the stream over.
    HandOver,
    /// Recover the credentials and try again.
    RecoverAndRetry,
    /// Report the error.
    Report,
}

/// What follows an attempt: only a failure of the transport that new credentials
/// may mend is tried again.
pub fn after_attempt(outcome: AttemptOutcome) -> (next: NextStep)
    ensures
        next == NextStep::HandOver <==> outcome == AttemptOutcome::Streaming,
        next == NextStep::RecoverAndRetry <==> outcome == (AttemptOutcome::TransportFailed {
            recoverable: true,
        }),
        next == NextStep::Report <==> outcome == AttemptOutcome::Failed || outcome == (
        AttemptOutcome::TransportFailed { recoverable: false }),
{
    match outcome {
        AttemptOutcome::Streaming => NextStep::HandOver,
        AttemptOutcome::TransportFailed { recoverable: true } => NextStep::RecoverAndRetry,
        AttemptOutcome::TransportFailed { recoverable: false } => NextStep::Report,
        AttemptOutcome::Failed => NextStep::Report,
    }
}

} // verus!
