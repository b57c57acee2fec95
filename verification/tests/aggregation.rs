use batch_requester::ascending::insert_ascending;
use batch_requester::batch::{duplicates_of, summarize};
use batch_requester::outcome::{partition, FailureCause, RequestOutcome};
use batch_requester::tally::{find_duplicates, Tally};

fn successes(values: &[u32]) -> Vec<RequestOutcome> {
    values.iter().map(|v| RequestOutcome::Success(*v)).collect()
}

#[test]
fn repeated_values_are_reported_in_ascending_order() {
    let outcomes = successes(&[3, 7, 3, 2, 7, 3]);
    assert_eq!(duplicates_of(&outcomes), vec![3, 7]);
    assert_eq!(summarize(&outcomes), "[3, 7]");
}

#[test]
fn tally_counts_every_occurrence() {
    let tally = Tally::of(&vec![3, 7, 3, 2, 7, 3]);
    assert_eq!(tally.count(3), 3);
    assert_eq!(tally.count(7), 2);
    assert_eq!(tally.count(2), 1);
    assert_eq!(tally.count(0), 0);
    assert_eq!(tally.count(5), 0);
    assert_eq!(tally.duplicates(), vec![3, 7]);
}

#[test]
fn empty_batch_reports_the_empty_list() {
    let outcomes: Vec<RequestOutcome> = Vec::new();
    assert_eq!(duplicates_of(&outcomes), Vec::<u32>::new());
    assert_eq!(summarize(&outcomes), "[]");
}

#[test]
fn batch_of_failures_reports_the_empty_list() {
    let outcomes = vec![
        RequestOutcome::Failure(FailureCause::Transport),
        RequestOutcome::Failure(FailureCause::Status(500)),
        RequestOutcome::Failure(FailureCause::Body),
        RequestOutcome::Failure(FailureCause::Parse),
        RequestOutcome::Failure(FailureCause::Transport),
    ];
    assert_eq!(duplicates_of(&outcomes), Vec::<u32>::new());
    assert_eq!(summarize(&outcomes), "[]");
    let full: Vec<RequestOutcome> = (0..30).map(|_| RequestOutcome::Failure(FailureCause::Transport)).collect();
    assert_eq!(summarize(&full), "[]");
}

#[test]
fn distinct_values_report_the_empty_list() {
    assert_eq!(summarize(&successes(&[1, 2, 3])), "[]");
    let mixed = vec![
        RequestOutcome::Failure(FailureCause::Status(503)),
        RequestOutcome::Success(1),
        RequestOutcome::Failure(FailureCause::Transport),
        RequestOutcome::Failure(FailureCause::Transport),
        RequestOutcome::Success(2),
        RequestOutcome::Failure(FailureCause::Parse),
        RequestOutcome::Success(3),
        RequestOutcome::Failure(FailureCause::Body),
    ];
    assert_eq!(duplicates_of(&mixed), Vec::<u32>::new());
    assert_eq!(summarize(&mixed), "[]");
}

#[test]
fn order_of_outcomes_does_not_change_the_report() {
    let a = vec![
        RequestOutcome::Success(3),
        RequestOutcome::Failure(FailureCause::Transport),
        RequestOutcome::Success(7),
        RequestOutcome::Success(3),
        RequestOutcome::Success(2),
        RequestOutcome::Success(7),
        RequestOutcome::Failure(FailureCause::Status(404)),
        RequestOutcome::Success(3),
    ];
    let mut b = a.clone();
    b.reverse();
    let mut c = a.clone();
    c.rotate_left(3);
    let mut d = a.clone();
    d.swap(0, 6);
    d.swap(2, 5);
    assert_eq!(summarize(&a), "[3, 7]");
    assert_eq!(summarize(&b), "[3, 7]");
    assert_eq!(summarize(&c), "[3, 7]");
    assert_eq!(summarize(&d), "[3, 7]");
    assert_eq!(duplicates_of(&b), duplicates_of(&a));
}

#[test]
fn failures_leave_no_trace_in_the_tally() {
    let plain = successes(&[4, 9, 4]);
    let with_failures = vec![
        RequestOutcome::Failure(FailureCause::Status(404)),
        RequestOutcome::Success(4),
        RequestOutcome::Failure(FailureCause::Transport),
        RequestOutcome::Success(9),
        RequestOutcome::Success(4),
        RequestOutcome::Failure(FailureCause::Status(500)),
    ];
    let (values, causes) = partition(&with_failures);
    assert_eq!(values, vec![4, 9, 4]);
    assert_eq!(
        causes,
        vec![FailureCause::Status(404), FailureCause::Transport, FailureCause::Status(500)]
    );
    let tally = Tally::of(&values);
    assert_eq!(tally.count(4), 2);
    assert_eq!(tally.count(9), 1);
    assert_eq!(tally.count(404), 0);
    assert_eq!(tally.count(500), 0);
    assert_eq!(tally.count(0), 0);
    assert_eq!(summarize(&with_failures), summarize(&plain));
    assert_eq!(summarize(&with_failures), "[4]");
}

#[test]
fn partition_keeps_the_order_of_the_outcomes() {
    let outcomes = vec![
        RequestOutcome::Success(10),
        RequestOutcome::Failure(FailureCause::Parse),
        RequestOutcome::Success(0),
        RequestOutcome::Failure(FailureCause::Body),
        RequestOutcome::Success(10),
    ];
    let (values, causes) = partition(&outcomes);
    assert_eq!(values, vec![10, 0, 10]);
    assert_eq!(causes, vec![FailureCause::Parse, FailureCause::Body]);
    let (none, nothing) = partition(&Vec::new());
    assert!(none.is_empty());
    assert!(nothing.is_empty());
}

#[test]
fn outcome_value_is_that_of_a_success() {
    assert_eq!(RequestOutcome::Success(6).value(), Some(6));
    assert_eq!(RequestOutcome::Failure(FailureCause::Parse).value(), None);
}

#[test]
fn record_counts_from_zero() {
    let mut tally = Tally::new();
    assert_eq!(tally.count(8), 0);
    assert_eq!(tally.duplicates(), Vec::<u32>::new());
    tally.record(8);
    assert_eq!(tally.count(8), 1);
    assert_eq!(tally.duplicates(), Vec::<u32>::new());
    tally.record(8);
    tally.record(1);
    assert_eq!(tally.count(8), 2);
    assert_eq!(tally.count(1), 1);
    assert_eq!(tally.duplicates(), vec![8]);
    tally.record(1);
    assert_eq!(tally.duplicates(), vec![1, 8]);
}

#[test]
fn find_duplicates_lists_each_repeated_value_once() {
    assert_eq!(find_duplicates(&vec![]), Vec::<u32>::new());
    assert_eq!(find_duplicates(&vec![5]), Vec::<u32>::new());
    assert_eq!(find_duplicates(&vec![5, 5]), vec![5]);
    assert_eq!(find_duplicates(&vec![5, 5, 5, 5]), vec![5]);
    assert_eq!(
        find_duplicates(&vec![10, 0, 4294967295, 10, 0, 4294967295, 1]),
        vec![0, 10, 4294967295]
    );
    let every: Vec<u32> = (0..=10).rev().chain(0..=10).collect();
    assert_eq!(find_duplicates(&every), (0..=10).collect::<Vec<u32>>());
}

#[test]
fn insert_ascending_keeps_order_and_uniqueness() {
    let mut sorted: Vec<u32> = Vec::new();
    insert_ascending(&mut sorted, 5);
    assert_eq!(sorted, vec![5]);
    insert_ascending(&mut sorted, 2);
    assert_eq!(sorted, vec![2, 5]);
    insert_ascending(&mut sorted, 9);
    assert_eq!(sorted, vec![2, 5, 9]);
    insert_ascending(&mut sorted, 7);
    assert_eq!(sorted, vec![2, 5, 7, 9]);
    insert_ascending(&mut sorted, 5);
    insert_ascending(&mut sorted, 2);
    insert_ascending(&mut sorted, 9);
    assert_eq!(sorted, vec![2, 5, 7, 9]);
    insert_ascending(&mut sorted, 0);
    insert_ascending(&mut sorted, 4294967295);
    assert_eq!(sorted, vec![0, 2, 5, 7, 9, 4294967295]);
}
