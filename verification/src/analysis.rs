use crate::BUCKETS;
use std::collections::HashMap;
use vstd::prelude::*;
use vstd::std_specs::iter::IteratorSpec;

verus! {

/// Sum over `counts` of `weight` applied to each count.
pub open spec fn weighted_sum(counts: Seq<usize>, weight: spec_fn(usize) -> nat) -> nat
    decreases counts.len(),
{
    if counts.len() == 0 {
        0
    } else {
        weighted_sum(counts.drop_last(), weight) + weight(counts.last())
    }
}

/// Sum of all counts.
pub open spec fn total(counts: Seq<usize>) -> nat {
    weighted_sum(counts, |c: usize| c as nat)
}

/// Distance between two numbers.
pub open spec fn distance(a: int, b: int) -> nat {
    if a >= b {
        (a - b) as nat
    } else {
        (b - a) as nat
    }
}

/// Sum over `counts` of the distance of each count from `center`.
pub open spec fn total_deviation(counts: Seq<usize>, center: int) -> nat {
    weighted_sum(counts, |c: usize| distance(c as int, center))
}

/// Number of buckets whose count is `value`.
pub open spec fn occurrences(counts: Seq<usize>, value: usize) -> nat {
    counts.to_multiset().count(value)
}

/// Whether the counts never decrease from one position to the next.
pub open spec fn is_ascending(counts: Seq<usize>) -> bool {
    forall|i: int, j: int| 0 <= i <= j < counts.len() ==> counts[i] <= counts[j]
}

/// Removing one count lowers the weighted sum by that count's weight.
pub proof fn lemma_weighted_sum_remove(counts: Seq<usize>, weight: spec_fn(usize) -> nat, i: int)
    requires
        0 <= i < counts.len(),
    ensures
        weighted_sum(counts, weight) == weighted_sum(counts.remove(i), weight) + weight(counts[i]),
    decreases counts.len(),
{
    if i == counts.len() - 1 {
        assert(counts.remove(i) =~= counts.drop_last());
    } else {
        lemma_weighted_sum_remove(counts.drop_last(), weight, i);
        assert(counts.drop_last().remove(i) =~= counts.remove(i).drop_last());
        assert(counts.remove(i).last() == counts.last());
    }
}

/// A weighted sum depends only on which counts occur how often, not on their order.
pub proof fn lemma_weighted_sum_permutation(
    a: Seq<usize>,
    b: Seq<usize>,
    weight: spec_fn(usize) -> nat,
)
    requires
        a.to_multiset() == b.to_multiset(),
    ensures
        weighted_sum(a, weight) == weighted_sum(b, weight),
    decreases a.len(),
{
    broadcast use vstd::seq_lib::group_to_multiset_ensures;

    if a.len() == 0 {
        assert(b.to_multiset().len() == 0);
        assert(b.len() == 0);
    } else {
        let x = a.last();
        let last = a.len() - 1;
        assert(a.to_multiset().count(x) > 0);
        assert(b.to_multiset().contains(x));
        assert(b.contains(x));
        let i = choose|i: int| 0 <= i < b.len() && b[i] == x;
        assert(a.remove(last) =~= a.drop_last());
        assert(a.drop_last().to_multiset() =~= a.to_multiset().remove(x));
        assert(b.remove(i).to_multiset() =~= b.to_multiset().remove(x));
        lemma_weighted_sum_permutation(a.drop_last(), b.remove(i), weight);
        lemma_weighted_sum_remove(b, weight, i);
    }
}

/// Every count lies between the least and the greatest, so the sum lies between
/// that many times the least and that many times the greatest.
pub proof fn lemma_total_bounds(counts: Seq<usize>, low: int, high: int)
    requires
        forall|i: int| 0 <= i < counts.len() ==> low <= #[trigger] counts[i] <= high,
    ensures
        low * counts.len() <= total(counts) <= high * counts.len(),
    decreases counts.len(),
{
    if counts.len() == 0 {
        assert(low * 0 == 0 && high * 0 == 0) by (nonlinear_arith);
    } else {
        let rest = counts.drop_last();
        lemma_total_bounds(rest, low, high);
        assert(low * counts.len() == low * rest.len() + low) by (nonlinear_arith)
            requires
                counts.len() == rest.len() + 1,
        ;
        assert(high * counts.len() == high * rest.len() + high) by (nonlinear_arith)
            requires
                counts.len() == rest.len() + 1,
        ;
    }
}

/// `slice::sort` of std on counts: afterwards the counts stand in ascending order
/// and are the counts that were there before, each as often as before.
#[verifier::external_body]
fn sort_ascending(counts: &mut [usize])
    ensures
        is_ascending(final(counts)@),
        final(counts)@.to_multiset() == old(counts)@.to_multiset(),
{
    counts.sort();
}

/// Sum of all counts, in a width that holds it for any slice.
fn sum_counts(counts: &[usize]) -> (sum: u128)
    ensures
        sum == total(counts@),
{
    let mut sum: u128 = 0;
    let mut i: usize = 0;
    while i < counts.len()
        invariant
            i <= counts.len(),
            sum == total(counts@.take(i as int)),
            sum <= i * usize::MAX,
        decreases counts.len() - i,
    {
        proof {
            assert(counts@.take(i + 1).drop_last() =~= counts@.take(i as int));
            assert((i + 1) * usize::MAX == i * usize::MAX + usize::MAX) by (nonlinear_arith);
            assert(i * usize::MAX <= 0xffff_ffff_ffff_ffff * 0xffff_ffff_ffff_ffff) by (nonlinear_arith)
                requires
                    i <= 0xffff_ffff_ffff_ffff,
                    usize::MAX <= 0xffff_ffff_ffff_ffff,
            ;
        }
        sum = sum + counts[i] as u128;
        i = i + 1;
    }
    proof {
        assert(counts@.take(counts.len() as int) =~= counts@);
    }
    sum
}

/// How often each count occurs: the map holds exactly the counts that occur,
/// each with its number of occurrences.
pub open spec fn is_frequency_map(freq: Map<usize, usize>, counts: Seq<usize>) -> bool {
    &&& forall|v: usize| freq.contains_key(v) <==> occurrences(counts, v) > 0
    &&& forall|v: usize| freq.contains_key(v) ==> freq[v] == occurrences(counts, v)
}

/// Builds the frequency map of `counts`.
fn frequencies(counts: &[usize]) -> (freq: HashMap<usize, usize>)
    ensures
        is_frequency_map(freq@, counts@),
{
    broadcast use vstd::std_specs::hash::group_hash_axioms;
    broadcast use vstd::seq_lib::group_to_multiset_ensures;
    broadcast use vstd::multiset::group_multiset_axioms;

    let mut freq: HashMap<usize, usize> = HashMap::new();
    let mut i: usize = 0;
    while i < counts.len()
        invariant
            i <= counts.len(),
            is_frequency_map(freq@, counts@.take(i as int)),
            forall|v: usize| freq@.contains_key(v) ==> freq@[v] <= i,
        decreases counts.len() - i,
    {
        let count = counts[i];
        let seen: usize = match freq.get(&count) {
            Some(n) => *n,
            None => 0,
        };
        proof {
            let before = counts@.take(i as int);
            assert(counts@.take(i + 1) =~= before.push(count));
            vstd::seq_lib::to_multiset_build(before, count);
        }
        freq.insert(count, seen + 1);
        i = i + 1;
    }
    proof {
        assert(counts@.take(counts.len() as int) =~= counts@);
    }
    freq
}

/// An entry of `freq` that no other entry exceeds in its number of occurrences.
/// Among entries that share the greatest number, the one walked last is taken.
fn most_frequent(freq: &HashMap<usize, usize>) -> (top: (usize, usize))
    requires
        exists|v: usize| freq@.contains_key(v),
    ensures
        freq@.contains_key(top.0),
        freq@[top.0] == top.1,
        forall|v: usize| freq@.contains_key(v) ==> freq@[v] <= top.1,
{
    broadcast use vstd::std_specs::hash::group_hash_axioms;

    let mut mode: usize = 0;
    let mut mode_count: usize = 0;
    for entry in it: freq.iter()
        invariant
            it.seq() == vstd::std_specs::hash::spec_hash_map_iter(freq).remaining(),
            it.index() == 0 ==> mode_count == 0,
            it.index() > 0 ==> freq@.contains_key(mode) && freq@[mode] == mode_count,
            forall|j: int| 0 <= j < it.index() ==> *(#[trigger] it.seq()[j]).1 <= mode_count,
    {
        let (value, times) = entry;
        proof {
            let walked = it.seq();
            let at = it.index();
            assert(entry == walked[at]);
            assert(freq@.contains_key(*walked[at].0) && freq@[*walked[at].0] == *walked[at].1);
        }
        if *times >= mode_count {
            mode = *value;
            mode_count = *times;
        }
    }
    (mode, mode_count)
}

/// Sum of the distances of all counts from `center`, in a width that holds it for
/// any slice.
fn sum_deviations(counts: &[usize], center: usize) -> (sum: u128)
    ensures
        sum == total_deviation(counts@, center as int),
{
    let mut sum: u128 = 0;
    let mut i: usize = 0;
    while i < counts.len()
        invariant
            i <= counts.len(),
            sum == total_deviation(counts@.take(i as int), center as int),
            sum <= i * usize::MAX,
        decreases counts.len() - i,
    {
        let count = counts[i];
        let away: usize = if count >= center {
            count - center
        } else {
            center - count
        };
        proof {
            assert(counts@.take(i + 1).drop_last() =~= counts@.take(i as int));
            assert((i + 1) * usize::MAX == i * usize::MAX + usize::MAX) by (nonlinear_arith);
            assert(i * usize::MAX <= 0xffff_ffff_ffff_ffff * 0xffff_ffff_ffff_ffff) by (nonlinear_arith)
                requires
                    i <= 0xffff_ffff_ffff_ffff,
                    usize::MAX <= 0xffff_ffff_ffff_ffff,
            ;
        }
        sum = sum + away as u128;
        i = i + 1;
    }
    proof {
        assert(counts@.take(counts.len() as int) =~= counts@);
    }
    sum
}

/// Summary of how evenly one epoch spread the identifiers over the buckets.
#[derive(Clone, Copy, Debug, PartialEq, Eq)]
pub struct BucketAnalysis {
    /// Least count of any bucket.
    pub min: usize,
    /// Greatest count of any bucket.
    pub max: usize,
    /// `max - min`.
    pub spread: usize,
    /// Sum of all counts divided by the number of buckets, rounded down.
    pub mean: usize,
    /// Count at the middle position once the counts stand in ascending order.
    pub median: usize,
    /// A count that occurs at least as often as any other.
    pub mode: usize,
    /// How many buckets hold the count `mode`.
    pub mode_count: usize,
    /// Sum over all buckets of the distance between the bucket's count and `mean`.
    /// Divided by the number of buckets it is the mean absolute deviation.
    pub deviation_sum: u128,
}

impl BucketAnalysis {
    /// Whether `self` is a summary of `sorted`, counts given in ascending order.
    /// All fields but `mode` are fixed by the counts; `mode` may be any count of
    /// greatest frequency.
    pub open spec fn summarises(self, sorted: Seq<usize>) -> bool {
        &&& self.min == sorted[0]
        &&& self.max == sorted[sorted.len() - 1]
        &&& self.spread == self.max - self.min
        &&& self.mean == total(sorted) / sorted.len()
        &&& self.median == sorted[sorted.len() as int / 2]
        &&& self.mode_count == occurrences(sorted, self.mode)
        &&& self.mode_count > 0
        &&& forall|v: usize| occurrences(sorted, v) <= self.mode_count
        &&& self.deviation_sum == total_deviation(sorted, self.mean as int)
    }
}

/// A summary of counts in ascending order, of which there is at least one, has
/// its mean and its median between its least and its greatest count, and as its
/// spread the distance between these two.
pub proof fn lemma_summary_is_ordered(analysis: BucketAnalysis, sorted: Seq<usize>)
    requires
        sorted.len() > 0,
        is_ascending(sorted),
        analysis.summarises(sorted),
    ensures
        analysis.min <= analysis.mean <= analysis.max,
        analysis.min <= analysis.median <= analysis.max,
        analysis.spread == analysis.max - analysis.min,
        analysis.spread >= 0,
{
    let len = sorted.len() as int;
    let sum = total(sorted) as int;
    let low = analysis.min as int;
    let high = analysis.max as int;
    lemma_total_bounds(sorted, low, high);
    assert(low <= sum / len <= high) by (nonlinear_arith)
        requires
            len > 0,
            low * len <= sum <= high * len,
    ;
    assert(0 <= len / 2 < len);
}

/// Where one count occurs more often than every other, each summary names it as
/// the mode, with the number of its occurrences.
pub proof fn lemma_clear_mode(analysis: BucketAnalysis, sorted: Seq<usize>, value: usize)
    requires
        analysis.summarises(sorted),
        forall|other: usize| other != value ==> occurrences(sorted, other) < occurrences(sorted, value),
    ensures
        analysis.mode == value,
        analysis.mode_count == occurrences(sorted, value),
{
    assert(occurrences(sorted, value) <= analysis.mode_count);
}

/// Counts in ascending order begin with the least and end with the greatest of
/// the counts in any other order.
pub proof fn lemma_ascending_extremes(sorted: Seq<usize>, counts: Seq<usize>)
    requires
        counts.len() > 0,
        is_ascending(sorted),
        sorted.to_multiset() == counts.to_multiset(),
    ensures
        sorted.len() == counts.len(),
        counts.contains(sorted[0]),
        counts.contains(sorted[sorted.len() - 1]),
        forall|i: int| 0 <= i < counts.len() ==> sorted[0] <= #[trigger] counts[i] <= sorted[sorted.len() - 1],
{
    broadcast use vstd::seq_lib::group_to_multiset_ensures;

    assert(sorted.len() == sorted.to_multiset().len());
    assert(counts.len() == counts.to_multiset().len());
    assert(sorted.to_multiset().count(sorted[0]) > 0);
    assert(sorted.to_multiset().count(sorted[sorted.len() - 1]) > 0);
    assert forall|i: int| 0 <= i < counts.len() implies sorted[0] <= #[trigger] counts[i]
        <= sorted[sorted.len() - 1] by {
        assert(counts.to_multiset().count(counts[i]) > 0);
        assert(sorted.contains(counts[i]));
        let k = choose|k: int| 0 <= k < sorted.len() && sorted[k] == counts[i];
        assert(sorted[0] <= sorted[k] <= sorted[sorted.len() - 1]);
    }
}

/// Sorts the counts of the buckets in place and summarises them.
pub fn analyze_buckets(buckets: &mut [usize]) -> (analysis: BucketAnalysis)
    requires
        old(buckets)@.len() == BUCKETS,
    ensures
        is_ascending(final(buckets)@),
        final(buckets)@.to_multiset() == old(buckets)@.to_multiset(),
        analysis.summarises(final(buckets)@),
        old(buckets)@.contains(analysis.min),
        old(buckets)@.contains(analysis.max),
        forall|i: int|
            0 <= i < BUCKETS ==> analysis.min <= #[trigger] old(buckets)@[i] <= analysis.max,
        analysis.mean == total(old(buckets)@) / (BUCKETS as nat),
        analysis.deviation_sum == total_deviation(old(buckets)@, analysis.mean as int),
        analysis.min <= analysis.mean <= analysis.max,
        analysis.min <= analysis.median <= analysis.max,
        analysis.spread == analysis.max - analysis.min,
{
    broadcast use vstd::seq_lib::group_to_multiset_ensures;

    sort_ascending(buckets);
    proof {
        assert(buckets@.len() == buckets@.to_multiset().len());
        assert(old(buckets)@.len() == old(buckets)@.to_multiset().len());
    }
    let min = buckets[0];
    let max = buckets[BUCKETS - 1];
    let spread = max - min;
    let sum = sum_counts(buckets);
    proof {
        lemma_total_bounds(buckets@, min as int, max as int);
        assert(min * buckets@.len() == min * 100 && max * buckets@.len() == max * 100);
        assert(min * 100 <= sum <= max * 100);
        lemma_weighted_sum_permutation(buckets@, old(buckets)@, |c: usize| c as nat);
    }
    let mean = (sum / BUCKETS as u128) as usize;
    assert(min <= mean <= max && mean == total(buckets@) / buckets@.len());
    let median = buckets[BUCKETS / 2];
    let freq = frequencies(buckets);
    proof {
        assert(buckets@.to_multiset().count(min) > 0);
        assert(freq@.contains_key(min));
    }
    let (mode, mode_count) = most_frequent(&freq);
    let deviation_sum = sum_deviations(buckets, mean);
    proof {
        lemma_weighted_sum_permutation(
            buckets@,
            old(buckets)@,
            |c: usize| distance(c as int, mean as int),
        );
    }
    proof {
        lemma_ascending_extremes(buckets@, old(buckets)@);
    }
    BucketAnalysis { min, max, spread, mean, median, mode, mode_count, deviation_sum }
}

} // verus!
