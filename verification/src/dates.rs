//! Ordering the dates of the scored messages and measuring how evenly they
//! are spread.
use vstd::prelude::*;
use vstd::multiset::Multiset;
use vstd::relations::*;
use vstd::seq_lib::*;

verus! {

/// The order in which dates are sorted: earliest first.
pub open spec fn by_date() -> spec_fn(u64, u64) -> bool {
    |a: u64, b: u64| a <= b
}

/// The gap between the dates at positions `i` and `i + 1`.
pub open spec fn gap(d: Seq<u64>, i: int) -> int {
    d[i + 1] - d[i]
}

/// The number of pairs of neighbouring gaps in `d`.
pub open spec fn gap_pair_count(d: Seq<u64>) -> int {
    if d.len() >= 3 {
        d.len() - 2
    } else {
        0
    }
}

/// The term that a pair of neighbouring gaps adds to the score: the square
/// of the change from gap `j` to gap `j + 1`.
pub open spec fn variation(d: Seq<u64>, j: int) -> int {
    (gap(d, j + 1) - gap(d, j)) * (gap(d, j + 1) - gap(d, j))
}

/// The sum of the first `k` terms.
pub open spec fn variation_sum(d: Seq<u64>, k: int) -> int
    decreases k,
{
    if k <= 0 {
        0
    } else {
        variation_sum(d, k - 1) + variation(d, k - 1)
    }
}

/// The sum of the squared changes over all pairs of neighbouring gaps, when
/// it fits in a `u64`; `None` when it does not.
pub open spec fn gap_variation_total(d: Seq<u64>) -> Option<u64> {
    if variation_sum(d, gap_pair_count(d)) > u64::MAX {
        None
    } else {
        Some(variation_sum(d, gap_pair_count(d)) as u64)
    }
}

/// Every term is a square, so never negative.
pub proof fn lemma_variation_nonnegative(d: Seq<u64>, j: int)
    ensures
        variation(d, j) >= 0,
{
    let c = gap(d, j + 1) - gap(d, j);
    assert(c * c >= 0) by (nonlinear_arith);
}

/// The sum of terms only grows with the number of terms.
pub proof fn lemma_variation_sum_monotone(d: Seq<u64>, k: int, m: int)
    requires
        0 <= k <= m,
    ensures
        variation_sum(d, k) <= variation_sum(d, m),
    decreases m - k,
{
    if k < m {
        lemma_variation_sum_monotone(d, k, m - 1);
        lemma_variation_nonnegative(d, m - 1);
    }
}

/// Fewer than three dates have no pair of neighbouring gaps: their sum of
/// terms is zero.
pub proof fn lemma_few_dates_total_zero(d: Seq<u64>)
    requires
        d.len() < 3,
    ensures
        gap_variation_total(d) == Some(0u64),
{
}

/// Evenly spaced dates (every gap the same) are the best spread: every term
/// is zero, and so is the sum.
pub proof fn lemma_even_spacing_total(d: Seq<u64>, g: int)
    requires
        forall|i: int| 0 <= i < d.len() - 1 ==> #[trigger] gap(d, i) == g,
    ensures
        gap_variation_total(d) == Some(0u64),
{
    assert forall|j: int| 0 <= j < gap_pair_count(d) implies #[trigger] variation(d, j) == 0 by {
        assert(gap(d, j) == g);
        assert(gap(d, j + 1) == g);
    }
    lemma_even_sum(d, gap_pair_count(d));
}

proof fn lemma_even_sum(d: Seq<u64>, k: int)
    requires
        0 <= k <= gap_pair_count(d),
        forall|j: int| 0 <= j < gap_pair_count(d) ==> #[trigger] variation(d, j) == 0,
    ensures
        variation_sum(d, k) == 0,
    decreases k,
{
    if k > 0 {
        lemma_even_sum(d, k - 1);
        assert(variation(d, k - 1) == 0);
    }
}

/// No sum of terms is below zero, and a sum of zero means every term is zero:
/// the dates are evenly spaced. Zero is the best score, reached exactly there.
pub proof fn lemma_zero_total_iff_even(d: Seq<u64>)
    ensures
        gap_variation_total(d) == Some(0u64) <==> forall|j: int|
            0 <= j < gap_pair_count(d) ==> #[trigger] gap(d, j + 1) == gap(d, j),
{
    let k = gap_pair_count(d);
    lemma_zero_sum_iff(d, k);
    assert forall|j: int| 0 <= j < k implies (#[trigger] variation(d, j) == 0 <==> gap(d, j + 1)
        == gap(d, j)) by {
        let c = gap(d, j + 1) - gap(d, j);
        assert(c * c == 0 <==> c == 0) by (nonlinear_arith);
    }
    if gap_variation_total(d) == Some(0u64) {
        assert forall|j: int| 0 <= j < k implies #[trigger] gap(d, j + 1) == gap(d, j) by {
            assert(variation(d, j) == 0);
        }
    }
    if forall|j: int| 0 <= j < k ==> #[trigger] gap(d, j + 1) == gap(d, j) {
        assert forall|j: int| 0 <= j < k implies #[trigger] variation(d, j) == 0 by {
            assert(gap(d, j + 1) == gap(d, j));
        }
    }
}

proof fn lemma_zero_sum_iff(d: Seq<u64>, k: int)
    requires
        0 <= k,
    ensures
        variation_sum(d, k) >= 0,
        variation_sum(d, k) == 0 <==> forall|j: int| 0 <= j < k ==> #[trigger] variation(d, j) == 0,
    decreases k,
{
    if k > 0 {
        lemma_zero_sum_iff(d, k - 1);
        lemma_variation_nonnegative(d, k - 1);
        if variation_sum(d, k) == 0 {
            assert forall|j: int| 0 <= j < k implies #[trigger] variation(d, j) == 0 by {
                if j < k - 1 {
                } else {
                }
            }
        }
    }
}

/// `<=` on dates is a total order.
pub proof fn lemma_by_date_total()
    ensures
        total_ordering(by_date()),
{
}

/// The dates sorted earliest first; equal dates are kept.
pub fn sort_dates(dates: Vec<u64>) -> (r: Vec<u64>)
    ensures
        r@ == dates@.sort_by(by_date()),
        sorted_by(r@, by_date()),
        r@.to_multiset() == dates@.to_multiset(),
{
    broadcast use group_to_multiset_ensures;

    let ghost orig = dates@;
    let mut rest = dates;
    let mut out: Vec<u64> = Vec::new();
    proof {
        assert(out@.to_multiset() =~= Multiset::empty());
    }
    while rest.len() > 0
        invariant
            out@.to_multiset().add(rest@.to_multiset()) == orig.to_multiset(),
            sorted_by(out@, by_date()),
            forall|i: int, j: int| 0 <= i < out@.len() && 0 <= j < rest@.len() ==> out@[i] <= rest@[j],
        decreases rest@.len(),
    {
        let mut m: usize = 0;
        let mut k: usize = 1;
        while k < rest.len()
            invariant
                0 < rest@.len(),
                m < rest@.len(),
                1 <= k <= rest@.len(),
                forall|t: int| 0 <= t < k ==> rest@[m as int] <= rest@[t],
            decreases rest@.len() - k,
        {
            if rest[k] < rest[m] {
                m = k;
            }
            k += 1;
        }
        let ghost before = rest@;
        let ghost out_before = out@;
        let x = rest.remove(m);
        out.push(x);
        proof {
            assert(rest@ == before.remove(m as int));
            before.to_multiset_ensures();
            out_before.to_multiset_ensures();
            assert(before.remove(m as int).to_multiset() =~= before.to_multiset().remove(x));
            assert(out@ == out_before.push(x));
            assert(out_before.push(x).to_multiset() =~= out_before.to_multiset().insert(x));
            assert(before.to_multiset().count(x) > 0);
            assert(out@.to_multiset().add(rest@.to_multiset()) =~= orig.to_multiset());
            assert forall|i: int, j: int| 0 <= i < j < out@.len() implies #[trigger] (by_date())(
                out@[i],
                out@[j],
            ) by {
                if j == out@.len() - 1 {
                    assert(before[m as int] == x);
                } else {
                    assert((by_date())(out_before[i], out_before[j]));
                }
            }
            assert forall|i: int, j: int| 0 <= i < out@.len() && 0 <= j < rest@.len() implies out@[i]
                <= rest@[j] by {
                if j < m {
                    assert(rest@[j] == before[j]);
                } else {
                    assert(rest@[j] == before[j + 1]);
                }
            }
        }
    }
    proof {
        assert(rest@.to_multiset() =~= Multiset::empty());
        assert(out@.to_multiset() =~= orig.to_multiset());
        lemma_by_date_total();
        orig.lemma_sort_by_ensures(by_date());
        lemma_sorted_unique(out@, orig.sort_by(by_date()), by_date());
    }
    out
}

/// The score terms of a sorted list of dates: the gaps between neighbouring
/// dates, then for each pair of neighbouring gaps the square of the change,
/// summed. `None` when the sum does not fit in a `u64`.
pub fn gap_variation_sum(d: &Vec<u64>) -> (r: Option<u64>)
    requires
        sorted_by(d@, by_date()),
    ensures
        r == gap_variation_total(d@),
{
    let n: usize = d.len();
    if n < 3 {
        assert(gap_pair_count(d@) == 0);
        return Some(0);
    }
    let mut gaps: Vec<u64> = Vec::new();
    let mut i: usize = 0;
    while i + 1 < n
        invariant
            n == d@.len(),
            sorted_by(d@, by_date()),
            i + 1 <= n,
            gaps@.len() == i,
            forall|t: int| 0 <= t < i ==> gaps@[t] == gap(d@, t),
        decreases n - i,
    {
        assert((by_date())(d@[i as int], d@[i + 1]));
        gaps.push(d[i + 1] - d[i]);
        i += 1;
    }
    let pairs: usize = n - 2;
    let mut sum: u64 = 0;
    let mut j: usize = 0;
    while j < pairs
        invariant
            n == d@.len(),
            n >= 3,
            pairs == n - 2,
            pairs == gap_pair_count(d@),
            gaps@.len() == n - 1,
            forall|t: int| 0 <= t < n - 1 ==> gaps@[t] == gap(d@, t),
            j <= pairs,
            sum == variation_sum(d@, j as int),
        decreases pairs - j,
    {
        let a: u64 = gaps[j];
        let b: u64 = gaps[j + 1];
        let change: u64 = if b >= a {
            b - a
        } else {
            a - b
        };
        assert(change * change == variation(d@, j as int)) by (nonlinear_arith)
            requires
                a == gap(d@, j as int),
                b == gap(d@, j + 1),
                change == if b >= a {
                    b - a
                } else {
                    a - b
                },
                variation(d@, j as int) == (b - a) * (b - a),
        ;
        proof {
            lemma_variation_sum_monotone(d@, j + 1, pairs as int);
        }
        let term: u64 = match change.checked_mul(change) {
            Some(t) => t,
            None => {
                return None;
            },
        };
        match sum.checked_add(term) {
            Some(s) => {
                sum = s;
            },
            None => {
                return None;
            },
        }
        j += 1;
    }
    Some(sum)
}

} // verus!
