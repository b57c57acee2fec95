//! Strictly ascending sequences: lists that double as sets.

use vstd::prelude::*;

verus! {

/// Each element is less than every later one.
pub open spec fn strictly_ascending(values: Seq<u32>) -> bool {
    forall|i: int, j: int| 0 <= i < j < values.len() ==> values[i] < values[j]
}

/// Two strictly ascending sequences with the same elements are the same
/// sequence.
pub proof fn lemma_ascending_unique(a: Seq<u32>, b: Seq<u32>)
    requires
        strictly_ascending(a),
        strictly_ascending(b),
        forall|v: u32| a.contains(v) <==> b.contains(v),
    ensures
        a == b,
    decreases a.len(),
{
    if a.len() == 0 {
        if b.len() > 0 {
            assert(b.contains(b[0]));
        }
        assert(a =~= b);
    } else {
        let top = a.last();
        assert(a.contains(top));
        assert(b.contains(top));
        let at = choose|j: int| 0 <= j < b.len() && b[j] == top;
        if at < b.len() - 1 {
            assert(b.contains(b.last()));
            let back = choose|i: int| 0 <= i < a.len() && a[i] == b.last();
            assert(false);
        }
        let a_rest = a.drop_last();
        let b_rest = b.drop_last();
        assert forall|v: u32| a_rest.contains(v) <==> b_rest.contains(v) by {
            if a_rest.contains(v) {
                let i = choose|i: int| 0 <= i < a_rest.len() && a_rest[i] == v;
                assert(a[i] == v);
                assert(a.contains(v));
                let j = choose|j: int| 0 <= j < b.len() && b[j] == v;
                assert(b_rest[j] == v);
            }
            if b_rest.contains(v) {
                let j = choose|j: int| 0 <= j < b_rest.len() && b_rest[j] == v;
                assert(b[j] == v);
                assert(b.contains(v));
                let i = choose|i: int| 0 <= i < a.len() && a[i] == v;
                assert(a_rest[i] == v);
            }
        }
        lemma_ascending_unique(a_rest, b_rest);
        assert(a =~= a_rest.push(top));
        assert(b =~= b_rest.push(top));
    }
}

/// The values below `bound` of which `keep` holds, in ascending order.
pub open spec fn ascending_below(keep: spec_fn(u32) -> bool, bound: nat) -> Seq<u32>
    decreases bound,
{
    if bound == 0 {
        Seq::empty()
    } else {
        let lower = ascending_below(keep, (bound - 1) as nat);
        if keep((bound - 1) as u32) {
            lower.push((bound - 1) as u32)
        } else {
            lower
        }
    }
}

/// [`ascending_below`] is strictly ascending, and lists just the values
/// below the bound of which the predicate holds.
pub proof fn lemma_ascending_below(keep: spec_fn(u32) -> bool, bound: nat)
    requires
        bound <= 0x1_0000_0000,
    ensures
        strictly_ascending(ascending_below(keep, bound)),
        forall|v: u32| ascending_below(keep, bound).contains(v) <==> (v < bound && keep(v)),
    decreases bound,
{
    let listed = ascending_below(keep, bound);
    if bound > 0 {
        let top = (bound - 1) as u32;
        let lower = ascending_below(keep, (bound - 1) as nat);
        lemma_ascending_below(keep, (bound - 1) as nat);
        assert forall|i: int| 0 <= i < lower.len() implies lower[i] < top by {
            assert(lower.contains(lower[i]));
        }
        if keep(top) {
            assert(listed[lower.len() as int] == top);
            assert forall|v: u32| listed.contains(v) implies (v < bound && keep(v)) by {
                let i = choose|i: int| 0 <= i < listed.len() && listed[i] == v;
                if i < lower.len() {
                    assert(lower[i] == v);
                    assert(lower.contains(v));
                }
            }
            assert forall|v: u32| v < bound && keep(v) implies listed.contains(v) by {
                if v != top {
                    assert(lower.contains(v));
                    let i = choose|i: int| 0 <= i < lower.len() && lower[i] == v;
                    assert(listed[i] == v);
                }
            }
        }
    }
}

/// Puts `value` into the strictly ascending `sorted`, at its place in the
/// order; a value that is already there is not put in again.
pub fn insert_ascending(sorted: &mut Vec<u32>, value: u32)
    requires
        strictly_ascending(old(sorted)@),
    ensures
        strictly_ascending(final(sorted)@),
        forall|v: u32| final(sorted)@.contains(v) <==> (old(sorted)@.contains(v) || v == value),
{
    let mut at: usize = 0;
    while at < sorted.len() && sorted[at] < value
        invariant
            at <= sorted.len(),
            sorted@ == old(sorted)@,
            forall|j: int| 0 <= j < at ==> sorted@[j] < value,
        decreases sorted.len() - at,
    {
        at = at + 1;
    }
    if at < sorted.len() && sorted[at] == value {
        assert(sorted@.contains(value));
    } else {
        sorted.insert(at, value);
        let ghost before = old(sorted)@;
        let ghost after = sorted@;
        assert(after == before.insert(at as int, value));
        assert forall|v: u32| after.contains(v) <==> (before.contains(v) || v == value) by {
            if after.contains(v) {
                let i = choose|i: int| 0 <= i < after.len() && after[i] == v;
                if i < at {
                    assert(before[i] == v);
                } else if i > at {
                    assert(before[i - 1] == v);
                }
            }
            if before.contains(v) {
                let i = choose|i: int| 0 <= i < before.len() && before[i] == v;
                if i < at {
                    assert(after[i] == v);
                } else {
                    assert(after[i + 1] == v);
                }
            }
            if v == value {
                assert(after[at as int] == v);
            }
        }
        assert forall|i: int, j: int| 0 <= i < j < after.len() implies after[i] < after[j] by {
            if j < at {
            } else if j == at {
            } else if i < at {
                assert(after[j] == before[j - 1]);
            } else if i == at {
                assert(after[j] == before[j - 1]);
                assert(before[at as int] > value);
            } else {
                assert(after[i] == before[i - 1]);
                assert(after[j] == before[j - 1]);
            }
        }
    }
}

} // verus!
