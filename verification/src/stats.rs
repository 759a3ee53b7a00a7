//! Statistics over the samples of a profiling run: minimum, maximum, sum
//! (for the mean) and median of a non-empty sequence of unsigned samples.
//!
//! The median and the mean are not integers in general, so the library
//! returns exact integer forms — the median doubled, and the plain sum —
//! and the caller divides. None of these functions mutates its input.

use vstd::prelude::*;
use vstd::relations::sorted_by;
use vstd::seq_lib::{lemma_sorted_unique, lemma_multiset_commutative};

verus! {

/// The order the samples are sorted by.
pub open spec fn leq64() -> spec_fn(u64, u64) -> bool {
    |x: u64, y: u64| x <= y
}

/// The least element of a non-empty sequence.
pub open spec fn seq_min(s: Seq<u64>) -> u64
    recommends
        s.len() > 0,
    decreases s.len(),
{
    if s.len() == 0 {
        0
    } else if s.len() == 1 {
        s[0]
    } else {
        let m = seq_min(s.drop_last());
        if s.last() < m {
            s.last()
        } else {
            m
        }
    }
}

/// The greatest element of a non-empty sequence.
pub open spec fn seq_max(s: Seq<u64>) -> u64
    recommends
        s.len() > 0,
    decreases s.len(),
{
    if s.len() == 0 {
        0
    } else if s.len() == 1 {
        s[0]
    } else {
        let m = seq_max(s.drop_last());
        if s.last() > m {
            s.last()
        } else {
            m
        }
    }
}

/// The sum of a sequence.
pub open spec fn seq_sum(s: Seq<u64>) -> int
    decreases s.len(),
{
    if s.len() == 0 {
        0
    } else {
        seq_sum(s.drop_last()) + s.last()
    }
}

/// Twice the median of the sample: twice the middle element of a sorted
/// copy when the length is odd, the sum of the two middle elements when it
/// is even. Doubling keeps the value an integer; the median itself is half
/// of it.
pub open spec fn spec_median_doubled(s: Seq<u64>) -> int
    recommends
        s.len() > 0,
{
    let t = s.sort_by(leq64());
    if s.len() % 2 == 0 {
        t[s.len() as int / 2] + t[s.len() as int / 2 - 1]
    } else {
        2 * t[s.len() as int / 2]
    }
}

/// The least element is an element, and no element is below it.
pub proof fn lemma_min_props(s: Seq<u64>)
    requires
        s.len() > 0,
    ensures
        s.contains(seq_min(s)),
        forall|k: int| 0 <= k < s.len() ==> seq_min(s) <= s[k],
    decreases s.len(),
{
    if s.len() > 1 {
        lemma_min_props(s.drop_last());
        assert forall|k: int| 0 <= k < s.len() implies seq_min(s) <= s[k] by {
            if k < s.len() - 1 {
                assert(s.drop_last()[k] == s[k]);
            }
        }
        if !(s.last() < seq_min(s.drop_last())) {
            let i = choose|i: int|
                0 <= i < s.drop_last().len() && s.drop_last()[i] == seq_min(s.drop_last());
            assert(s[i] == seq_min(s));
        }
    }
}

/// The greatest element is an element, and no element is above it.
pub proof fn lemma_max_props(s: Seq<u64>)
    requires
        s.len() > 0,
    ensures
        s.contains(seq_max(s)),
        forall|k: int| 0 <= k < s.len() ==> s[k] <= seq_max(s),
    decreases s.len(),
{
    if s.len() > 1 {
        lemma_max_props(s.drop_last());
        assert forall|k: int| 0 <= k < s.len() implies s[k] <= seq_max(s) by {
            if k < s.len() - 1 {
                assert(s.drop_last()[k] == s[k]);
            }
        }
        if !(s.last() > seq_max(s.drop_last())) {
            let i = choose|i: int|
                0 <= i < s.drop_last().len() && s.drop_last()[i] == seq_max(s.drop_last());
            assert(s[i] == seq_max(s));
        }
    }
}

/// A sorted copy of the sample — exactly the specification-level sort of
/// its sequence. The input is untouched.
pub fn sorted_copy(a: &Vec<u64>) -> (r: Vec<u64>)
    ensures
        r@ == a@.sort_by(leq64()),
        sorted_by(r@, leq64()),
        r@.to_multiset() == a@.to_multiset(),
        r@.len() == a@.len(),
{
    broadcast use vstd::seq_lib::group_to_multiset_ensures;

    let mut r: Vec<u64> = Vec::new();
    let mut i: usize = 0;
    while i < a.len()
        invariant
            0 <= i <= a@.len(),
            r@.len() == i,
            sorted_by(r@, leq64()),
            r@.to_multiset() == a@.take(i as int).to_multiset(),
        decreases a@.len() - i,
    {
        let x = a[i];
        let mut j: usize = 0;
        while j < r.len() && r[j] <= x
            invariant
                0 <= j <= r@.len(),
                forall|k: int| 0 <= k < j ==> r@[k] <= x,
            decreases r@.len() - j,
        {
            j += 1;
        }
        let ghost old_r = r@;
        r.insert(j, x);
        proof {
            old_r.insert_ensures(j as int, x);
            assert(sorted_by(r@, leq64())) by {
                assert forall|p: int, q: int| 0 <= p < q < r@.len() implies leq64()(
                    r@[p],
                    r@[q],
                ) by {
                    if q < j {
                        assert(r@[p] == old_r[p] && r@[q] == old_r[q]);
                        assert(leq64()(old_r[p], old_r[q]));
                    } else if p < j && q == j {
                        assert(r@[p] == old_r[p] && old_r[p] <= x);
                    } else if p < j && q > j {
                        assert(r@[p] == old_r[p] && r@[q] == old_r[q - 1]);
                        if p < q - 1 {
                            assert(leq64()(old_r[p], old_r[q - 1]));
                        }
                    } else if p == j && q > j {
                        assert(r@[p] == x && r@[q] == old_r[q - 1]);
                        assert(!(old_r[j as int] <= x));
                        if j < q - 1 {
                            assert(leq64()(old_r[j as int], old_r[q - 1]));
                        }
                        assert(x <= old_r[q - 1]);
                    } else {
                        assert(r@[p] == old_r[p - 1] && r@[q] == old_r[q - 1]);
                        if p - 1 < q - 1 {
                            assert(leq64()(old_r[p - 1], old_r[q - 1]));
                        }
                    }
                }
            }
            assert(r@.to_multiset() == a@.take(i + 1).to_multiset()) by {
                let front = old_r.subrange(0, j as int);
                let back = old_r.subrange(j as int, old_r.len() as int);
                assert(r@ == front.push(x) + back);
                lemma_multiset_commutative(front.push(x), back);
                lemma_multiset_commutative(front, back);
                assert(front + back =~= old_r);
                front.to_multiset_ensures();
                assert(front.push(x).to_multiset() =~= front.to_multiset().insert(x));
                assert(r@.to_multiset() =~= old_r.to_multiset().insert(x));
                assert(a@.take(i + 1) =~= a@.take(i as int).push(x));
                a@.take(i as int).to_multiset_ensures();
                assert(a@.take(i + 1).to_multiset() =~= a@.take(i as int).to_multiset().insert(x));
            }
        }
        i += 1;
    }
    proof {
        assert(a@.take(i as int) =~= a@);
        a@.lemma_sort_by_ensures(leq64());
        lemma_sorted_unique(r@, a@.sort_by(leq64()), leq64());
    }
    r
}

/// Twice the median of a non-empty sample, exactly as
/// [`spec_median_doubled`] says. The caller halves it; the input is
/// untouched.
pub fn median_doubled(a: &Vec<u64>) -> (m: u128)
    requires
        a@.len() > 0,
    ensures
        m == spec_median_doubled(a@),
{
    let r = sorted_copy(a);
    let n = r.len();
    if n % 2 == 0 {
        (r[n / 2] as u128) + (r[n / 2 - 1] as u128)
    } else {
        2 * (r[n / 2] as u128)
    }
}

/// The least element of a non-empty sample.
pub fn min_sample(a: &Vec<u64>) -> (m: u64)
    requires
        a@.len() > 0,
    ensures
        m == seq_min(a@),
{
    let mut m = a[0];
    let mut i: usize = 1;
    while i < a.len()
        invariant
            1 <= i <= a@.len(),
            m == seq_min(a@.take(i as int)),
        decreases a@.len() - i,
    {
        proof {
            assert(a@.take(i + 1).drop_last() =~= a@.take(i as int));
        }
        let x = a[i];
        if x < m {
            m = x;
        }
        i += 1;
    }
    proof {
        assert(a@.take(i as int) =~= a@);
    }
    m
}

/// The greatest element of a non-empty sample.
pub fn max_sample(a: &Vec<u64>) -> (m: u64)
    requires
        a@.len() > 0,
    ensures
        m == seq_max(a@),
{
    let mut m = a[0];
    let mut i: usize = 1;
    while i < a.len()
        invariant
            1 <= i <= a@.len(),
            m == seq_max(a@.take(i as int)),
        decreases a@.len() - i,
    {
        proof {
            assert(a@.take(i + 1).drop_last() =~= a@.take(i as int));
        }
        let x = a[i];
        if x > m {
            m = x;
        }
        i += 1;
    }
    proof {
        assert(a@.take(i as int) =~= a@);
    }
    m
}

/// The sum of a sample. The mean is this divided by the length.
pub fn sum_sample(a: &Vec<u64>) -> (s: u128)
    ensures
        s == seq_sum(a@),
{
    let mut s: u128 = 0;
    let mut i: usize = 0;
    while i < a.len()
        invariant
            0 <= i <= a@.len(),
            s == seq_sum(a@.take(i as int)),
            s <= i * 0xffff_ffff_ffff_ffffu64 as int,
        decreases a@.len() - i,
    {
        proof {
            assert(a@.take(i + 1).drop_last() =~= a@.take(i as int));
        }
        s = s + (a[i] as u128);
        i += 1;
    }
    proof {
        assert(a@.take(i as int) =~= a@);
    }
    s
}

/// The median of any non-empty sample lies between its extremes:
/// `min(S) <= median(S) <= max(S)`, stated over the doubled median so that
/// every quantity is an integer.
pub proof fn lemma_median_bounds(s: Seq<u64>)
    requires
        s.len() > 0,
    ensures
        2 * seq_min(s) <= spec_median_doubled(s) <= 2 * seq_max(s),
{
    broadcast use vstd::seq_lib::group_to_multiset_ensures;

    s.lemma_sort_by_ensures(leq64());
    lemma_min_props(s);
    lemma_max_props(s);
    let t = s.sort_by(leq64());
    s.to_multiset_ensures();
    t.to_multiset_ensures();
    assert(t.len() == s.len());
    assert forall|k: int| 0 <= k < t.len() implies seq_min(s) <= t[k] && t[k] <= seq_max(s) by {
        assert(t.contains(t[k]));
        assert(t.to_multiset().count(t[k]) > 0);
        assert(s.to_multiset().count(t[k]) > 0);
        assert(s.contains(t[k]));
    }
    let mid = s.len() as int / 2;
    assert(seq_min(s) <= t[mid] && t[mid] <= seq_max(s));
    if s.len() % 2 == 0 {
        assert(seq_min(s) <= t[mid - 1] && t[mid - 1] <= seq_max(s));
    }
}

/// The mean of any non-empty sample lies between its extremes:
/// `min(S) <= mean(S) <= max(S)`, stated over the sum — the mean times the
/// length — so that every quantity is an integer.
pub proof fn lemma_mean_bounds(s: Seq<u64>)
    requires
        s.len() > 0,
    ensures
        seq_min(s) * s.len() <= seq_sum(s) <= seq_max(s) * s.len(),
    decreases s.len(),
{
    if s.len() == 1 {
        assert(seq_sum(s.drop_last()) == 0);
        assert(seq_sum(s) == s[0]);
        assert(seq_min(s) == s[0] && seq_max(s) == s[0]);
        assert(seq_min(s) * s.len() == s[0] * 1);
        assert(seq_max(s) * s.len() == s[0] * 1);
    } else {
        let s2 = s.drop_last();
        lemma_mean_bounds(s2);
        lemma_min_props(s);
        lemma_max_props(s);
        assert(seq_min(s) <= seq_min(s2) && seq_max(s2) <= seq_max(s)) by {
            lemma_min_props(s2);
            lemma_max_props(s2);
            let i = choose|i: int| 0 <= i < s2.len() && s2[i] == seq_min(s2);
            assert(s[i] == s2[i]);
            let j = choose|j: int| 0 <= j < s2.len() && s2[j] == seq_max(s2);
            assert(s[j] == s2[j]);
        }
        let n2 = s2.len() as int;
        let mn = seq_min(s) as int;
        let mn2 = seq_min(s2) as int;
        let mx = seq_max(s) as int;
        let mx2 = seq_max(s2) as int;
        let sum2 = seq_sum(s2);
        let lst = s.last() as int;
        assert(seq_sum(s) == sum2 + lst);
        assert(s.len() as int == n2 + 1);
        assert(mn <= lst && lst <= mx) by {
            assert(s[s.len() - 1] == s.last());
        }
        assert(mn * (n2 + 1) <= sum2 + lst) by (nonlinear_arith)
            requires
                mn <= mn2,
                mn <= lst,
                mn2 * n2 <= sum2,
                n2 >= 0,
        ;
        assert(sum2 + lst <= mx * (n2 + 1)) by (nonlinear_arith)
            requires
                mx2 <= mx,
                lst <= mx,
                sum2 <= mx2 * n2,
                n2 >= 0,
        ;
        assert(mn * (n2 + 1) == seq_min(s) * s.len());
        assert(mx * (n2 + 1) == seq_max(s) * s.len());
    }
}

} // verus!
