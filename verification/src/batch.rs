//! The report of a batch, from the outcomes of its requests.

use crate::ascending::strictly_ascending;
use crate::exchange::{is_success, step_after_send, Next, Sent};
use crate::outcome::{partition, success_values, FailureCause, RequestOutcome};
use crate::render::{list_text, render_list};
use crate::tally::{
    duplicate_set, find_duplicates, is_duplicate_set, lemma_duplicate_set_exists,
    lemma_duplicate_set_unique, lemma_occurrences_distinct, occurrences, tally_of,
};
use vstd::prelude::*;

verus! {

/// The values that a batch reports: those that more than one successful
/// outcome holds, each once, in ascending order.
pub open spec fn reported_values(outcomes: Seq<RequestOutcome>) -> Seq<u32> {
    duplicate_set(success_values(outcomes))
}

/// The report of a batch: the list form of its [`reported_values`].
pub open spec fn report_text(outcomes: Seq<RequestOutcome>) -> Seq<char> {
    list_text(reported_values(outcomes))
}

/// The values that came back more than once in a batch with these outcomes.
/// Failures count for nothing.
pub fn duplicates_of(outcomes: &Vec<RequestOutcome>) -> (dupes: Vec<u32>)
    ensures
        dupes@ == reported_values(outcomes@),
        strictly_ascending(dupes@),
        forall|v: u32| dupes@.contains(v) <==> occurrences(success_values(outcomes@), v) > 1,
{
    let parts = partition(outcomes);
    find_duplicates(&parts.0)
}

/// Renders the report of a batch with these outcomes: the ascending list of
/// the values that came back more than once, `[]` where there is none.
pub fn summarize(outcomes: &Vec<RequestOutcome>) -> (text: String)
    ensures
        text@ == report_text(outcomes@),
{
    let dupes = duplicates_of(outcomes);
    render_list(&dupes)
}

/// The successes of two batches laid end to end are those of the first,
/// followed by those of the second.
pub proof fn lemma_success_values_concat(a: Seq<RequestOutcome>, b: Seq<RequestOutcome>)
    ensures
        success_values(a + b) == success_values(a) + success_values(b),
    decreases b.len(),
{
    if b.len() == 0 {
        assert(a + b =~= a);
        assert(success_values(a) + success_values(b) =~= success_values(a));
    } else {
        lemma_success_values_concat(a, b.drop_last());
        assert((a + b).drop_last() =~= a + b.drop_last());
        assert((a + b).last() == b.last());
        match b.last() {
            RequestOutcome::Success(value) => {
                assert(success_values(a + b) =~= success_values(a) + success_values(b));
            },
            RequestOutcome::Failure(_) => {},
        }
    }
}

/// A value is counted among the successes as often as the batch holds a
/// successful outcome with it.
pub proof fn lemma_success_count(outcomes: Seq<RequestOutcome>, value: u32)
    ensures
        occurrences(success_values(outcomes), value) == outcomes.to_multiset().count(
            RequestOutcome::Success(value),
        ),
    decreases outcomes.len(),
{
    broadcast use vstd::seq_lib::to_multiset_build;

    if outcomes.len() == 0 {
        outcomes.to_multiset_ensures();
        assert(!outcomes.contains(RequestOutcome::Success(value)));
    } else {
        let earlier = outcomes.drop_last();
        lemma_success_count(earlier, value);
        assert(outcomes =~= earlier.push(outcomes.last()));
        assert(outcomes.to_multiset() =~= earlier.to_multiset().insert(outcomes.last()));
        match outcomes.last() {
            RequestOutcome::Success(echoed) => {
                let values = success_values(earlier);
                assert(values.push(echoed).drop_last() =~= values);
            },
            RequestOutcome::Failure(_) => {},
        }
    }
}

/// Whatever the size of a batch and whatever its outcomes: the reported
/// values are in strictly ascending order, so none is listed twice, and they
/// are exactly the values that at least two successful outcomes hold.
pub proof fn lemma_report_is_ascending_duplicates(outcomes: Seq<RequestOutcome>)
    ensures
        strictly_ascending(reported_values(outcomes)),
        reported_values(outcomes).no_duplicates(),
        forall|v: u32|
            reported_values(outcomes).contains(v) <==> occurrences(success_values(outcomes), v)
                >= 2,
{
    lemma_duplicate_set_exists(success_values(outcomes));
}

/// The order of the outcomes does not matter: two batches that hold the same
/// outcomes, each as often in the one as in the other, report the same.
pub proof fn lemma_reordering_keeps_report(a: Seq<RequestOutcome>, b: Seq<RequestOutcome>)
    requires
        a.to_multiset() == b.to_multiset(),
    ensures
        tally_of(success_values(a)) == tally_of(success_values(b)),
        reported_values(a) == reported_values(b),
        report_text(a) == report_text(b),
{
    lemma_duplicate_set_exists(success_values(a));
    lemma_duplicate_set_exists(success_values(b));
    assert forall|v: u32|
        occurrences(success_values(a), v) == occurrences(success_values(b), v) by {
        lemma_success_count(a, v);
        lemma_success_count(b, v);
    }
    assert(tally_of(success_values(a)) =~= tally_of(success_values(b)));
    assert(is_duplicate_set(reported_values(a), success_values(b)));
    lemma_duplicate_set_unique(reported_values(a), success_values(b));
}

/// A batch without a success has no successful values.
pub proof fn lemma_no_success_no_values(outcomes: Seq<RequestOutcome>)
    requires
        forall|i: int| 0 <= i < outcomes.len() ==> outcomes[i] is Failure,
    ensures
        success_values(outcomes) == Seq::<u32>::empty(),
    decreases outcomes.len(),
{
    if outcomes.len() > 0 {
        lemma_no_success_no_values(outcomes.drop_last());
    }
}

/// A batch in which every request failed reports nothing, and its report is
/// the empty list. A batch of no requests is such a batch.
pub proof fn lemma_all_failed_reports_nothing(outcomes: Seq<RequestOutcome>)
    requires
        forall|i: int| 0 <= i < outcomes.len() ==> outcomes[i] is Failure,
    ensures
        reported_values(outcomes) == Seq::<u32>::empty(),
        report_text(outcomes) == seq!['[', ']'],
{
    lemma_no_success_no_values(outcomes);
    assert(is_duplicate_set(Seq::<u32>::empty(), success_values(outcomes)));
    lemma_duplicate_set_unique(Seq::<u32>::empty(), success_values(outcomes));
    assert(report_text(outcomes) =~= seq!['[', ']']);
}

/// A batch whose successful values are all distinct reports nothing, however
/// many failures it holds besides.
pub proof fn lemma_distinct_values_report_nothing(outcomes: Seq<RequestOutcome>)
    requires
        success_values(outcomes).no_duplicates(),
    ensures
        reported_values(outcomes) == Seq::<u32>::empty(),
        report_text(outcomes) == seq!['[', ']'],
{
    let values = success_values(outcomes);
    assert forall|v: u32| !(occurrences(values, v) > 1) by {
        lemma_occurrences_distinct(values, v);
    }
    assert(is_duplicate_set(Seq::<u32>::empty(), values));
    lemma_duplicate_set_unique(Seq::<u32>::empty(), values);
    assert(report_text(outcomes) =~= seq!['[', ']']);
}

/// A failed outcome, wherever it stands among the outcomes of a batch, adds
/// nothing to the successes: the tally and the report are those of the batch
/// without it.
pub proof fn lemma_failure_adds_nothing(
    outcomes: Seq<RequestOutcome>,
    at: int,
    cause: FailureCause,
)
    requires
        0 <= at <= outcomes.len(),
    ensures
        success_values(outcomes.insert(at, RequestOutcome::Failure(cause))) == success_values(
            outcomes,
        ),
{
    let failed = RequestOutcome::Failure(cause);
    let head = outcomes.take(at);
    let tail = outcomes.skip(at);
    assert(outcomes =~= head + tail);
    assert(outcomes.insert(at, failed) =~= head.push(failed) + tail);
    assert(head.push(failed).drop_last() =~= head);
    lemma_success_values_concat(head, tail);
    lemma_success_values_concat(head.push(failed), tail);
}

/// A request that got no response, or one of a status outside the success
/// class, ends in a failure at once, and that failure is not tallied: with
/// it or without it the batch has the same tally, in which every entry
/// counts at least one success, and the same report.
pub proof fn lemma_refused_request_is_not_tallied(
    outcomes: Seq<RequestOutcome>,
    at: int,
    sent: Sent,
)
    requires
        0 <= at <= outcomes.len(),
        !(sent matches Sent::Responded(status) && is_success(status)),
    ensures
        step_after_send(sent) matches Next::Finish(outcome) && {
            let with = outcomes.insert(at, outcome);
            &&& outcome is Failure
            &&& tally_of(success_values(with)) == tally_of(success_values(outcomes))
            &&& reported_values(with) == reported_values(outcomes)
            &&& forall|v: u32| #[trigger]
                tally_of(success_values(with)).contains_key(v) ==> tally_of(
                    success_values(with),
                )[v] >= 1
        },
{
    match step_after_send(sent) {
        Next::Finish(RequestOutcome::Failure(cause)) => {
            lemma_failure_adds_nothing(outcomes, at, cause);
        },
        _ => {},
    }
}

} // verus!
