//! Counting how often each value occurs, and finding the values that occur
//! more than once.

use crate::ascending::{
    ascending_below, insert_ascending, lemma_ascending_below, lemma_ascending_unique,
    strictly_ascending,
};
use std::collections::HashMap;
use vstd::prelude::*;
use vstd::std_specs::hash::*;
use vstd::std_specs::iter::IteratorSpec;

verus! {

/// How often `value` occurs in `values`.
pub open spec fn occurrences(values: Seq<u32>, value: u32) -> nat
    decreases values.len(),
{
    if values.len() == 0 {
        0
    } else {
        occurrences(values.drop_last(), value) + if values.last() == value {
            1nat
        } else {
            0nat
        }
    }
}

/// The tally of `values`: each value that occurs, with the number of its
/// occurrences. A value that does not occur has no entry.
pub open spec fn tally_of(values: Seq<u32>) -> Map<u32, nat> {
    Map::new(|v: u32| occurrences(values, v) > 0, |v: u32| occurrences(values, v))
}

/// A value occurs at most as often as the sequence is long.
pub proof fn lemma_occurrences_bounded(values: Seq<u32>, value: u32)
    ensures
        occurrences(values, value) <= values.len(),
    decreases values.len(),
{
    if values.len() > 0 {
        lemma_occurrences_bounded(values.drop_last(), value);
    }
}

/// A value occurs in a sequence, in the sense of `contains`, exactly if its
/// number of occurrences is not zero.
pub proof fn lemma_occurrences_contains(values: Seq<u32>, value: u32)
    ensures
        values.contains(value) <==> occurrences(values, value) > 0,
    decreases values.len(),
{
    if values.len() > 0 {
        let earlier = values.drop_last();
        lemma_occurrences_contains(earlier, value);
        if values.contains(value) {
            let i = choose|i: int| 0 <= i < values.len() && values[i] == value;
            if i < earlier.len() {
                assert(earlier[i] == value);
            }
        }
        if earlier.contains(value) {
            let i = choose|i: int| 0 <= i < earlier.len() && earlier[i] == value;
            assert(values[i] == value);
        }
        if values.last() == value {
            assert(values[values.len() - 1] == value);
        }
    }
}

/// In a sequence without repetition no value occurs more than once.
pub proof fn lemma_occurrences_distinct(values: Seq<u32>, value: u32)
    requires
        values.no_duplicates(),
    ensures
        occurrences(values, value) <= 1,
    decreases values.len(),
{
    if values.len() > 0 {
        let earlier = values.drop_last();
        lemma_occurrences_distinct(earlier, value);
        if values.last() == value {
            lemma_occurrences_contains(earlier, value);
            if earlier.contains(value) {
                let i = choose|i: int| 0 <= i < earlier.len() && earlier[i] == value;
                assert(values[i] == values[values.len() - 1]);
            }
        }
    }
}

/// A value occurs in a sequence as often as the sequence's multiset counts it.
pub proof fn lemma_occurrences_is_multiset_count(values: Seq<u32>, value: u32)
    ensures
        occurrences(values, value) == values.to_multiset().count(value),
    decreases values.len(),
{
    broadcast use vstd::seq_lib::to_multiset_build;

    if values.len() == 0 {
        values.to_multiset_ensures();
        assert(!values.contains(value));
    } else {
        lemma_occurrences_is_multiset_count(values.drop_last(), value);
        assert(values =~= values.drop_last().push(values.last()));
    }
}

/// `dupes` lists, in ascending order and each once, exactly the values that
/// occur more than once in `values`.
pub open spec fn is_duplicate_set(dupes: Seq<u32>, values: Seq<u32>) -> bool {
    &&& strictly_ascending(dupes)
    &&& forall|v: u32| dupes.contains(v) <==> occurrences(values, v) > 1
}

/// The duplicate set of `values`: the one sequence that [`is_duplicate_set`]
/// describes (see [`lemma_ascending_unique`]).
pub open spec fn duplicate_set(values: Seq<u32>) -> Seq<u32> {
    choose|dupes: Seq<u32>| is_duplicate_set(dupes, values)
}

/// Every sequence has a duplicate set, so [`duplicate_set`] is one.
pub proof fn lemma_duplicate_set_exists(values: Seq<u32>)
    ensures
        is_duplicate_set(duplicate_set(values), values),
{
    let keep = |v: u32| occurrences(values, v) > 1;
    lemma_ascending_below(keep, 0x1_0000_0000);
    assert(is_duplicate_set(ascending_below(keep, 0x1_0000_0000), values));
}

/// Whatever meets [`is_duplicate_set`] is the [`duplicate_set`].
pub proof fn lemma_duplicate_set_unique(dupes: Seq<u32>, values: Seq<u32>)
    requires
        is_duplicate_set(dupes, values),
    ensures
        dupes == duplicate_set(values),
{
    lemma_ascending_unique(dupes, duplicate_set(values));
}

/// Counting does not depend on order: two sequences that hold the same
/// values, each as often in the one as in the other, have the same tally and
/// the same duplicate set.
pub proof fn lemma_reordering_keeps_tally(a: Seq<u32>, b: Seq<u32>)
    requires
        a.to_multiset() == b.to_multiset(),
    ensures
        forall|v: u32| occurrences(a, v) == occurrences(b, v),
        tally_of(a) == tally_of(b),
        duplicate_set(a) == duplicate_set(b),
{
    assert forall|v: u32| occurrences(a, v) == occurrences(b, v) by {
        lemma_occurrences_is_multiset_count(a, v);
        lemma_occurrences_is_multiset_count(b, v);
    }
    assert(tally_of(a) =~= tally_of(b));
    lemma_duplicate_set_exists(a);
    lemma_duplicate_set_exists(b);
    lemma_ascending_unique(duplicate_set(a), duplicate_set(b));
}

/// A mapping from value to occurrence count, built up one value at a time.
pub struct Tally {
    counts: HashMap<u32, usize>,
}

impl View for Tally {
    type V = Map<u32, nat>;

    closed spec fn view(&self) -> Map<u32, nat> {
        Map::new(|v: u32| self.counts@.contains_key(v), |v: u32| self.counts@[v] as nat)
    }
}

impl Tally {
    /// No entry holds a zero count: a value is in the tally only once it
    /// has been recorded.
    pub open spec fn wf(&self) -> bool {
        forall|v: u32| #[trigger] self@.contains_key(v) ==> self@[v] >= 1
    }

    /// The count of `value`: that of its entry, or zero where it has none.
    pub open spec fn count_of(&self, value: u32) -> nat {
        if self@.contains_key(value) {
            self@[value]
        } else {
            0
        }
    }

    /// The empty tally.
    pub fn new() -> (tally: Tally)
        ensures
            tally@ == Map::<u32, nat>::empty(),
            tally.wf(),
    {
        let tally = Tally { counts: HashMap::new() };
        assert(tally@ =~= Map::<u32, nat>::empty());
        tally
    }

    /// Counts one more occurrence of `value`; a value not seen before starts
    /// from zero.
    pub fn record(&mut self, value: u32)
        requires
            old(self).count_of(value) < usize::MAX,
        ensures
            final(self)@ == old(self)@.insert(value, old(self).count_of(value) + 1),
            old(self).wf() ==> final(self).wf(),
    {
        broadcast use group_hash_axioms;

        let count = self.counts.entry(value).or_insert(0usize);
        *count += 1;
        assert(final(self)@ =~= old(self)@.insert(value, old(self).count_of(value) + 1));
    }

    /// The tally of `values`: every value counted once per occurrence.
    pub fn of(values: &Vec<u32>) -> (tally: Tally)
        ensures
            tally@ == tally_of(values@),
            tally.wf(),
    {
        let mut tally = Tally::new();
        let mut i: usize = 0;
        while i < values.len()
            invariant
                i <= values.len(),
                tally@ == tally_of(values@.take(i as int)),
            decreases values.len() - i,
        {
            proof {
                lemma_occurrences_bounded(values@.take(i as int), values@[i as int]);
                assert(values@.take(i + 1).drop_last() =~= values@.take(i as int));
            }
            tally.record(values[i]);
            assert(tally@ =~= tally_of(values@.take(i + 1)));
            i = i + 1;
        }
        assert(values@.take(i as int) =~= values@);
        tally
    }

    /// The values that were recorded more than once, in ascending order.
    pub fn duplicates(&self) -> (dupes: Vec<u32>)
        ensures
            strictly_ascending(dupes@),
            forall|v: u32| dupes@.contains(v) <==> self.count_of(v) > 1,
    {
        broadcast use group_hash_axioms;

        let mut dupes: Vec<u32> = Vec::new();
        let keys = self.counts.keys();
        let ghost listed: Seq<u32> = keys.remaining().unref();
        assert(listed.to_set() == self.counts@.dom());
        for key in iter: keys
            invariant
                iter.seq().unref() == listed,
                strictly_ascending(dupes@),
                forall|v: u32|
                    dupes@.contains(v) <==> (self.count_of(v) > 1 && exists|j: int|
                        0 <= j < iter.index() && *iter.seq()[j] == v),
        {
            if self.count(*key) > 1 {
                insert_ascending(&mut dupes, *key);
            }
        }
        assert forall|v: u32| self.count_of(v) > 1 implies dupes@.contains(v) by {
            assert(self.counts@.dom().contains(v));
            assert(listed.to_set().contains(v));
        }
        dupes
    }

    /// How often `value` was recorded.
    pub fn count(&self, value: u32) -> (count: usize)
        ensures
            count == self.count_of(value),
    {
        broadcast use group_hash_axioms;

        match self.counts.get(&value) {
            Some(count) => *count,
            None => 0,
        }
    }
}

/// The values that occur more than once in `values`, each once, in ascending
/// order.
pub fn find_duplicates(values: &Vec<u32>) -> (dupes: Vec<u32>)
    ensures
        is_duplicate_set(dupes@, values@),
        dupes@ == duplicate_set(values@),
{
    let tally = Tally::of(values);
    let dupes = tally.duplicates();
    proof {
        lemma_duplicate_set_unique(dupes@, values@);
    }
    dupes
}

} // verus!
