//! The decisions of one exchange. The caller does the waiting: it sends the
//! request, reports what came of it, and does what it is told next.

use crate::outcome::{FailureCause, RequestOutcome};
use crate::query::Reply;
use vstd::prelude::*;

verus! {

/// What sending the request ended in.
#[derive(Clone, Copy, Debug, PartialEq, Eq, Structural)]
pub enum Sent {
    /// No response arrived: the connection, the name lookup or the time
    /// limit failed.
    Failed,
    /// A response arrived, with this status code.
    Responded(u16),
}

/// What reading the response body ended in.
#[derive(Clone, Copy, Debug, PartialEq, Eq, Structural)]
pub enum Received {
    /// The body could not be read to its end.
    Failed,
    /// The body was read, but is no echo document.
    Malformed,
    /// The body was read and parsed.
    Echo(Reply),
}

/// What the caller is to do once the response has arrived.
#[derive(Clone, Copy, Debug, PartialEq, Eq, Structural)]
pub enum Next {
    /// Read the whole body, parse it, and report with [`after_body`].
    ReadBody,
    /// The exchange is over, with this outcome.
    Finish(RequestOutcome),
}

/// A status code of the success class, 200 to 299.
pub open spec fn is_success(status: u16) -> bool {
    200 <= status <= 299
}

/// The step that follows `sent`.
pub open spec fn step_after_send(sent: Sent) -> Next {
    match sent {
        Sent::Failed => Next::Finish(RequestOutcome::Failure(FailureCause::Transport)),
        Sent::Responded(status) => if is_success(status) {
            Next::ReadBody
        } else {
            Next::Finish(RequestOutcome::Failure(FailureCause::Status(status)))
        },
    }
}

/// The outcome of an exchange whose body reading ended in `received`.
pub open spec fn outcome_after_body(received: Received) -> RequestOutcome {
    match received {
        Received::Failed => RequestOutcome::Failure(FailureCause::Body),
        Received::Malformed => RequestOutcome::Failure(FailureCause::Parse),
        Received::Echo(reply) => RequestOutcome::Success(reply.json.value),
    }
}

/// Tells whether `status` is of the success class.
pub fn is_success_status(status: u16) -> (yes: bool)
    ensures
        yes == is_success(status),
{
    200 <= status && status < 300
}

/// Decides what follows the sending of a request: a failed send and a
/// response outside the success class end the exchange in a failure; a
/// response of the success class has its body read.
pub fn after_send(sent: Sent) -> (next: Next)
    ensures
        next == step_after_send(sent),
        next is ReadBody <==> (sent matches Sent::Responded(status) && is_success(status)),
        next matches Next::Finish(outcome) ==> outcome is Failure,
{
    match sent {
        Sent::Failed => Next::Finish(RequestOutcome::Failure(FailureCause::Transport)),
        Sent::Responded(status) => {
            if is_success_status(status) {
                Next::ReadBody
            } else {
                Next::Finish(RequestOutcome::Failure(FailureCause::Status(status)))
            }
        },
    }
}

/// Decides the outcome of an exchange from what reading its body ended in:
/// the echoed value where the body parsed, a failure otherwise.
pub fn after_body(received: Received) -> (outcome: RequestOutcome)
    ensures
        outcome == outcome_after_body(received),
        outcome is Success <==> received is Echo,
{
    match received {
        Received::Failed => RequestOutcome::Failure(FailureCause::Body),
        Received::Malformed => RequestOutcome::Failure(FailureCause::Parse),
        Received::Echo(reply) => RequestOutcome::Success(reply.value()),
    }
}

} // verus!
