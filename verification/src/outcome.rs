//! What one request of a batch ended in.

use crate::render::{append_decimal, decimal};
use vstd::prelude::*;
use vstd::string::*;

verus! {

/// Why a request produced no value.
#[derive(Clone, Copy, Debug, PartialEq, Eq, Structural)]
pub enum FailureCause {
    /// The request could not be sent, or no response arrived.
    Transport,
    /// The remote endpoint answered with a status outside the success class.
    Status(u16),
    /// The response body could not be read to its end.
    Body,
    /// The response body is not an echo document with an unsigned `json.value`.
    Parse,
}

/// The terminal result of one request: the echoed value, or the reason why
/// there is none.
#[derive(Clone, Copy, Debug, PartialEq, Eq, Structural)]
pub enum RequestOutcome {
    Success(u32),
    Failure(FailureCause),
}

/// The description of a failed request, as it goes to the error log.
pub open spec fn description_text(cause: FailureCause) -> Seq<char> {
    match cause {
        FailureCause::Transport => "Failure sending HTTP request"@,
        FailureCause::Status(code) => "Server responded with failure code "@ + decimal(
            code as nat,
        ),
        FailureCause::Body => "Failure reading response body"@,
        FailureCause::Parse => "Failure parsing server response"@,
    }
}

/// The values of the successful outcomes, in the order of the outcomes.
pub open spec fn success_values(outcomes: Seq<RequestOutcome>) -> Seq<u32>
    decreases outcomes.len(),
{
    if outcomes.len() == 0 {
        Seq::empty()
    } else {
        let earlier = success_values(outcomes.drop_last());
        match outcomes.last() {
            RequestOutcome::Success(value) => earlier.push(value),
            RequestOutcome::Failure(_) => earlier,
        }
    }
}

/// The causes of the failed outcomes, in the order of the outcomes.
pub open spec fn failure_causes(outcomes: Seq<RequestOutcome>) -> Seq<FailureCause>
    decreases outcomes.len(),
{
    if outcomes.len() == 0 {
        Seq::empty()
    } else {
        let earlier = failure_causes(outcomes.drop_last());
        match outcomes.last() {
            RequestOutcome::Success(_) => earlier,
            RequestOutcome::Failure(cause) => earlier.push(cause),
        }
    }
}

impl FailureCause {
    /// A human-readable description of the cause; a refused status is
    /// described with its code.
    pub fn description(&self) -> (text: String)
        ensures
            text@ == description_text(*self),
    {
        match self {
            FailureCause::Transport => String::from_str("Failure sending HTTP request"),
            FailureCause::Status(code) => {
                let mut text = String::from_str("Server responded with failure code ");
                append_decimal(&mut text, *code as u32);
                text
            },
            FailureCause::Body => String::from_str("Failure reading response body"),
            FailureCause::Parse => String::from_str("Failure parsing server response"),
        }
    }
}

impl RequestOutcome {
    /// The echoed value of a successful outcome.
    pub fn value(&self) -> (value: Option<u32>)
        ensures
            value == match *self {
                RequestOutcome::Success(v) => Some(v),
                RequestOutcome::Failure(_) => None::<u32>,
            },
    {
        match self {
            RequestOutcome::Success(v) => Some(*v),
            RequestOutcome::Failure(_) => None,
        }
    }
}

/// Parts the outcomes of a batch: the values of the successes, to be
/// tallied, and the causes of the failures, to be logged. Either list keeps
/// the order of the outcomes.
pub fn partition(outcomes: &Vec<RequestOutcome>) -> (parts: (Vec<u32>, Vec<FailureCause>))
    ensures
        parts.0@ == success_values(outcomes@),
        parts.1@ == failure_causes(outcomes@),
{
    let mut values: Vec<u32> = Vec::new();
    let mut causes: Vec<FailureCause> = Vec::new();
    let mut i: usize = 0;
    while i < outcomes.len()
        invariant
            i <= outcomes.len(),
            values@ == success_values(outcomes@.take(i as int)),
            causes@ == failure_causes(outcomes@.take(i as int)),
        decreases outcomes.len() - i,
    {
        proof {
            assert(outcomes@.take(i + 1).drop_last() =~= outcomes@.take(i as int));
        }
        match outcomes[i] {
            RequestOutcome::Success(value) => values.push(value),
            RequestOutcome::Failure(cause) => causes.push(cause),
        }
        i = i + 1;
    }
    assert(outcomes@.take(i as int) =~= outcomes@);
    (values, causes)
}

} // verus!
