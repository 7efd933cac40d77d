//! Order statistics of samples.
use vstd::prelude::*;
use vstd::relations::total_ordering;
use vstd::seq_lib::{lemma_sorted_unique, to_multiset_insert};

verus! {

/// The samples in ascending order.
pub open spec fn ascending(samples: Seq<u128>) -> Seq<u128> {
    samples.sort_by(|a: u128, b: u128| a <= b)
}

proof fn at_most_is_total_ordering()
    ensures
        total_ordering(|a: u128, b: u128| a <= b),
{
}

/// Putting samples in ascending order keeps each of them, as often as it occurs.
pub proof fn ascending_keeps_samples(samples: Seq<u128>)
    ensures
        ascending(samples).len() == samples.len(),
        ascending(samples).to_multiset() == samples.to_multiset(),
        forall|i: int, j: int|
            0 <= i <= j < samples.len() ==> ascending(samples)[i] <= ascending(samples)[j],
        forall|i: int| 0 <= i < samples.len() ==> samples.contains(#[trigger] ascending(samples)[i]),
{
    let leq = |a: u128, b: u128| a <= b;
    at_most_is_total_ordering();
    samples.lemma_sort_by_ensures(leq);
    samples.to_multiset_ensures();
    let sorted = ascending(samples);
    sorted.to_multiset_ensures();
    assert forall|i: int, j: int| 0 <= i <= j < samples.len() implies sorted[i] <= sorted[j] by {
        if i < j {
            assert(leq(sorted[i], sorted[j]));
        }
    }
    assert forall|i: int| 0 <= i < samples.len() implies samples.contains(
        #[trigger] sorted[i],
    ) by {
        assert(sorted.contains(sorted[i]));
    }
}

/// Samples that differ in their order alone have the same ascending order.
pub proof fn ascending_ignores_order(a: Seq<u128>, b: Seq<u128>)
    requires
        a.to_multiset() == b.to_multiset(),
    ensures
        ascending(a) == ascending(b),
{
    let leq = |a: u128, b: u128| a <= b;
    at_most_is_total_ordering();
    a.lemma_sort_by_ensures(leq);
    b.lemma_sort_by_ensures(leq);
    lemma_sorted_unique(ascending(a), ascending(b), leq);
}

/// The samples in ascending order.
pub fn sort(samples: &Vec<u128>) -> (sorted: Vec<u128>)
    ensures
        sorted@ == ascending(samples@),
{
    let mut sorted: Vec<u128> = Vec::new();
    let mut i: usize = 0;
    assert(samples@.take(0) =~= sorted@);
    while i < samples.len()
        invariant
            i <= samples@.len(),
            sorted@.len() == i,
            sorted@.to_multiset() == samples@.take(i as int).to_multiset(),
            forall|j: int, k: int| 0 <= j <= k < sorted@.len() ==> sorted@[j] <= sorted@[k],
        decreases samples@.len() - i,
    {
        let sample = samples[i];
        let mut at: usize = i;
        while at > 0 && sorted[at - 1] > sample
            invariant
                at <= i,
                sorted@.len() == i,
                forall|j: int| at <= j < i ==> sorted@[j] > sample,
            decreases at,
        {
            at = at - 1;
        }
        let ghost before = sorted@;
        sorted.insert(at, sample);
        i = i + 1;
        proof {
            before.to_multiset_ensures();
            samples@.take(i - 1).to_multiset_ensures();
            assert(samples@.take(i as int) =~= samples@.take(i - 1).push(sample));
            to_multiset_insert(before, at as int, sample);
        }
    }
    proof {
        let leq = |a: u128, b: u128| a <= b;
        assert(samples@.take(i as int) =~= samples@);
        at_most_is_total_ordering();
        samples@.lemma_sort_by_ensures(leq);
        lemma_sorted_unique(sorted@, ascending(samples@), leq);
    }
    sorted
}

} // verus!
