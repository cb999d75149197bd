//! The NaN-last order of samples, and the statistics that are read off a
//! sorted sample: median, minimum and maximum.
use std::cmp::Ordering;
use vstd::prelude::*;
use vstd::seq_lib::{to_multiset_contains, to_multiset_len};
use crate::double::Double;

verus! {

broadcast use vstd::seq_lib::group_to_multiset_ensures;

/// Whether a sequence ascends in the NaN-last order: numbers by value, NaNs
/// after all of them.
pub open spec fn ascending(s: Seq<Double>) -> bool {
    forall|i: int, j: int| 0 <= i < j < s.len() ==> #[trigger] s[i].rank() <= #[trigger] s[j].rank()
}

/// How many elements of `s` satisfy `keep`.
pub open spec fn count(s: Seq<Double>, keep: spec_fn(Double) -> bool) -> nat
    decreases s.len(),
{
    if s.len() == 0 {
        0
    } else if keep(s.last()) {
        count(s.drop_last(), keep) + 1
    } else {
        count(s.drop_last(), keep)
    }
}

/// How many elements of `s` come strictly before rank `r`.
pub open spec fn count_below(s: Seq<Double>, r: int) -> nat {
    count(s, |d: Double| d.rank() < r)
}

/// How many elements of `s` come at or before rank `r`.
pub open spec fn count_upto(s: Seq<Double>, r: int) -> nat {
    count(s, |d: Double| d.rank() <= r)
}

/// Whether `d` can stand at index `k` when `s` is sorted: it is one of the
/// elements, at most `k` elements come strictly before it, and more than
/// `k` come at or before it.
pub open spec fn order_statistic(s: Seq<Double>, k: int, d: Double) -> bool {
    &&& s.contains(d)
    &&& count_below(s, d.rank()) <= k
    &&& k < count_upto(s, d.rank())
}

/// Whether `d` is an element of `s` that no element comes before.
pub open spec fn least(s: Seq<Double>, d: Double) -> bool {
    s.contains(d) && forall|i: int| 0 <= i < s.len() ==> d.rank() <= #[trigger] s[i].rank()
}

/// Whether `d` is an element of `s` that no element comes after.
pub open spec fn greatest(s: Seq<Double>, d: Double) -> bool {
    s.contains(d) && forall|i: int| 0 <= i < s.len() ==> #[trigger] s[i].rank() <= d.rank()
}

/// Compares two samples for sorting. A NaN on the left is greater than
/// anything, a NaN on the right makes the left less; two numbers compare
/// by value, the two zeros being equal.
pub fn compare(a: &Double, b: &Double) -> (r: Ordering)
    ensures
        a.nan() ==> r == Ordering::Greater,
        !a.nan() && b.nan() ==> r == Ordering::Less,
        !a.nan() && !b.nan() && a.ordinal() < b.ordinal() ==> r == Ordering::Less,
        !a.nan() && !b.nan() && a.ordinal() > b.ordinal() ==> r == Ordering::Greater,
        !a.nan() && !b.nan() && a.ordinal() == b.ordinal() ==> r == Ordering::Equal,
{
    if a.is_nan() {
        return Ordering::Greater;
    }
    if b.is_nan() {
        return Ordering::Less;
    }
    if a.lt(*b) {
        return Ordering::Less;
    } else if b.lt(*a) {
        return Ordering::Greater;
    }
    Ordering::Equal
}

/// Whether `a` has to stand after `b` in a sorted sample.
fn sorts_after(a: &Double, b: &Double) -> (after: bool)
    ensures
        after ==> a.rank() >= b.rank(),
        !after ==> a.rank() <= b.rank(),
{
    match compare(a, b) {
        Ordering::Greater => true,
        _ => false,
    }
}

/// Sorts a sample in the NaN-last order. The result holds the same values
/// as the sample, each as often as the sample does.
pub fn sort(sample: &Vec<Double>) -> (sorted: Vec<Double>)
    ensures
        sorted@.to_multiset() == sample@.to_multiset(),
        ascending(sorted@),
        sorted.len() == sample.len(),
{
    let mut sorted: Vec<Double> = Vec::new();
    let mut i: usize = 0;
    assert(sample@.take(0) =~= Seq::empty());
    while i < sample.len()
        invariant
            i <= sample.len(),
            sorted.len() == i,
            sorted@.to_multiset() == sample@.take(i as int).to_multiset(),
            ascending(sorted@),
        decreases sample.len() - i,
    {
        let x = sample[i];
        let mut p: usize = 0;
        while p < sorted.len() && !sorts_after(&sorted[p], &x)
            invariant
                p <= sorted.len(),
                forall|k: int| 0 <= k < p ==> #[trigger] sorted@[k].rank() <= x.rank(),
            decreases sorted.len() - p,
        {
            p += 1;
        }
        let ghost before = sorted@;
        sorted.insert(p, x);
        proof {
            assert(sample@.take(i + 1) =~= sample@.take(i as int).push(x));
            assert forall|a: int, b: int| 0 <= a < b < sorted@.len() implies #[trigger] sorted@[a].rank()
                <= #[trigger] sorted@[b].rank() by {
                if b < p {
                    assert(sorted@[a] == before[a] && sorted@[b] == before[b]);
                } else if b == p {
                    assert(sorted@[a] == before[a]);
                } else if a < p {
                    assert(sorted@[a] == before[a] && sorted@[b] == before[b - 1]);
                    assert(before[p as int].rank() <= before[b - 1].rank() || p == b - 1);
                } else if a == p {
                    assert(sorted@[b] == before[b - 1]);
                    assert(before[p as int].rank() <= before[b - 1].rank() || p == b - 1);
                } else {
                    assert(sorted@[a] == before[a - 1] && sorted@[b] == before[b - 1]);
                }
            }
        }
        i += 1;
    }
    assert(sample@.take(sample.len() as int) =~= sample@);
    sorted
}

/// The median of a sample: the element that stands at index `len / 2` once
/// the sample is sorted. For a sample of even length this is the upper of
/// the two middle elements, not their mean.
pub fn median(sample: &Vec<Double>) -> (m: Double)
    requires
        sample.len() > 0,
    ensures
        order_statistic(sample@, sample.len() as int / 2, m),
{
    let sorted = sort(sample);
    let k: usize = sample.len() / 2;
    proof {
        lemma_sorted_position(sorted@, k as int);
        lemma_order_statistic_of_permutation(sorted@, sample@, k as int, sorted@[k as int]);
    }
    sorted[k]
}

/// The least and the greatest element of a sample, in that order. An empty
/// sample has neither; for it both are zero.
pub fn min_max(sample: &Vec<Double>) -> (range: (Double, Double))
    ensures
        sample.len() == 0 ==> range.0.bits == 0 && range.1.bits == 0,
        sample.len() > 0 ==> least(sample@, range.0) && greatest(sample@, range.1),
{
    if sample.len() == 0 {
        return (Double::zero_value(), Double::zero_value());
    }
    let sorted = sort(sample);
    let low = sorted[0];
    let high = sorted[sorted.len() - 1];
    proof {
        assert(sorted@.contains(low));
        assert(sorted@.contains(high));
        to_multiset_contains(sorted@, low);
        to_multiset_contains(sample@, low);
        to_multiset_contains(sorted@, high);
        to_multiset_contains(sample@, high);
        assert forall|i: int| 0 <= i < sample.len() implies low.rank() <= (#[trigger] sample@[i]).rank()
            && sample@[i].rank() <= high.rank() by {
            assert(sample@.contains(sample@[i]));
            to_multiset_contains(sample@, sample@[i]);
            to_multiset_contains(sorted@, sample@[i]);
            let j = choose|j: int| 0 <= j < sorted@.len() && sorted@[j] == sample@[i];
            assert(sorted@[0].rank() <= sorted@[j].rank() || j == 0);
            assert(sorted@[j].rank() <= sorted@[sorted@.len() - 1].rank() || j == sorted@.len() - 1);
        }
    }
    (low, high)
}

/// No more elements can be counted than there are.
pub proof fn lemma_count_bounded(s: Seq<Double>, keep: spec_fn(Double) -> bool)
    ensures
        count(s, keep) <= s.len(),
    decreases s.len(),
{
    if s.len() > 0 {
        lemma_count_bounded(s.drop_last(), keep);
    }
}

/// Taking one element out lowers the count by one if it was counted, and
/// not at all otherwise.
pub proof fn lemma_count_remove(s: Seq<Double>, keep: spec_fn(Double) -> bool, j: int)
    requires
        0 <= j < s.len(),
    ensures
        count(s, keep) == count(s.remove(j), keep) + if keep(s[j]) {
            1nat
        } else {
            0nat
        },
    decreases s.len(),
{
    if j == s.len() - 1 {
        assert(s.remove(j) =~= s.drop_last());
    } else {
        lemma_count_remove(s.drop_last(), keep, j);
        assert(s.remove(j).drop_last() =~= s.drop_last().remove(j));
        assert(s.remove(j).last() == s.last());
    }
}

/// A count does not depend on the order of the elements.
pub proof fn lemma_count_of_permutation(s: Seq<Double>, t: Seq<Double>, keep: spec_fn(Double) -> bool)
    requires
        s.to_multiset() == t.to_multiset(),
    ensures
        count(s, keep) == count(t, keep),
    decreases s.len(),
{
    to_multiset_len(s);
    to_multiset_len(t);
    if s.len() > 0 {
        let x = s.last();
        assert(s.contains(x));
        to_multiset_contains(s, x);
        to_multiset_contains(t, x);
        let j = choose|j: int| 0 <= j < t.len() && t[j] == x;
        assert(s.drop_last() =~= s.remove(s.len() - 1));
        assert(s.drop_last().to_multiset() =~= t.remove(j).to_multiset());
        lemma_count_of_permutation(s.drop_last(), t.remove(j), keep);
        lemma_count_remove(t, keep, j);
    }
}

/// If nothing from index `k` on is counted, the count is at most `k`.
pub proof fn lemma_count_at_most(s: Seq<Double>, keep: spec_fn(Double) -> bool, k: int)
    requires
        0 <= k,
        forall|i: int| k <= i < s.len() ==> !keep(#[trigger] s[i]),
    ensures
        count(s, keep) <= k,
    decreases s.len(),
{
    if s.len() <= k {
        lemma_count_bounded(s, keep);
    } else {
        assert(!keep(s[s.len() - 1]));
        assert forall|i: int| k <= i < s.drop_last().len() implies !keep(
            #[trigger] s.drop_last()[i],
        ) by {
            assert(s.drop_last()[i] == s[i]);
        }
        lemma_count_at_most(s.drop_last(), keep, k);
    }
}

/// If everything up to index `k` is counted, the count is more than `k`.
pub proof fn lemma_count_at_least(s: Seq<Double>, keep: spec_fn(Double) -> bool, k: int)
    requires
        0 <= k < s.len(),
        forall|i: int| 0 <= i <= k ==> keep(#[trigger] s[i]),
    ensures
        count(s, keep) > k,
    decreases s.len(),
{
    if s.len() == k + 1 {
        if k > 0 {
            assert forall|i: int| 0 <= i <= k - 1 implies keep(#[trigger] s.drop_last()[i]) by {
                assert(s.drop_last()[i] == s[i]);
            }
            lemma_count_at_least(s.drop_last(), keep, k - 1);
        }
        assert(keep(s[k]));
    } else {
        assert forall|i: int| 0 <= i <= k implies keep(#[trigger] s.drop_last()[i]) by {
            assert(s.drop_last()[i] == s[i]);
        }
        lemma_count_at_least(s.drop_last(), keep, k);
    }
}

/// Counting with a weaker condition counts at least as many.
pub proof fn lemma_count_monotone(
    s: Seq<Double>,
    keep: spec_fn(Double) -> bool,
    more: spec_fn(Double) -> bool,
)
    requires
        forall|d: Double| #[trigger] keep(d) ==> more(d),
    ensures
        count(s, keep) <= count(s, more),
    decreases s.len(),
{
    if s.len() > 0 {
        lemma_count_monotone(s.drop_last(), keep, more);
    }
}

/// In a sorted sample the element at index `k` is the order statistic of
/// that index.
pub proof fn lemma_sorted_position(s: Seq<Double>, k: int)
    requires
        ascending(s),
        0 <= k < s.len(),
    ensures
        order_statistic(s, k, s[k]),
{
    let r = s[k].rank();
    assert(s.contains(s[k]));
    assert forall|i: int| k <= i < s.len() implies (#[trigger] s[i]).rank() >= r by {
        assert(s[k].rank() <= s[i].rank() || i == k);
    }
    lemma_count_at_most(s, |d: Double| d.rank() < r, k);
    assert forall|i: int| 0 <= i <= k implies (#[trigger] s[i]).rank() <= r by {
        assert(s[i].rank() <= s[k].rank() || i == k);
    }
    lemma_count_at_least(s, |d: Double| d.rank() <= r, k);
}

/// Being the order statistic of an index does not depend on the order of
/// the sample.
pub proof fn lemma_order_statistic_of_permutation(s: Seq<Double>, t: Seq<Double>, k: int, d: Double)
    requires
        s.to_multiset() == t.to_multiset(),
        order_statistic(s, k, d),
    ensures
        order_statistic(t, k, d),
{
    let r = d.rank();
    lemma_count_of_permutation(s, t, |d: Double| d.rank() < r);
    lemma_count_of_permutation(s, t, |d: Double| d.rank() <= r);
    to_multiset_contains(s, d);
    to_multiset_contains(t, d);
}

/// The order statistic of an index is one value: two elements that can
/// both stand at index `k` are equal as numbers, or are both NaNs.
pub proof fn lemma_order_statistic_unique(s: Seq<Double>, k: int, a: Double, b: Double)
    requires
        order_statistic(s, k, a),
        order_statistic(s, k, b),
    ensures
        a.rank() == b.rank(),
{
    let ra = a.rank();
    let rb = b.rank();
    if ra < rb {
        lemma_count_monotone(s, |d: Double| d.rank() <= ra, |d: Double| d.rank() < rb);
    } else if rb < ra {
        lemma_count_monotone(s, |d: Double| d.rank() <= rb, |d: Double| d.rank() < ra);
    }
}

} // verus!
