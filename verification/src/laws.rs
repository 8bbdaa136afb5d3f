//! Laws relating the scan results to the sequences they come from, stated
//! for 64-bit signed integers, where comparison is total and the scans'
//! contracts pin their results exactly.

use vstd::prelude::*;

verus! {

use crate::extrema::{min_fold, max_fold, spec_min, spec_max};
use crate::median::{sorted, spec_median};

/// Scanning for a minimum never moves the candidate up, ends on the
/// candidate or an element of the tail, and ends at or below every element
/// of the tail.
proof fn lemma_min_fold_le(cand: i64, rest: Seq<i64>)
    ensures
        min_fold(cand, rest) <= cand,
        min_fold(cand, rest) == cand || rest.contains(min_fold(cand, rest)),
        forall|k: int| 0 <= k < rest.len() ==> min_fold(cand, rest) <= rest[k],
    decreases rest.len(),
{
    if rest.len() > 0 {
        let next = if cand > rest[0] {
            rest[0]
        } else {
            cand
        };
        lemma_min_fold_le(next, rest.drop_first());
        assert forall|k: int| 0 <= k < rest.len() implies min_fold(cand, rest) <= rest[k] by {
            if k > 0 {
                assert(rest.drop_first()[k - 1] == rest[k]);
            }
        }
        assert(min_fold(cand, rest) == cand || rest.contains(min_fold(cand, rest))) by {
            let m = min_fold(next, rest.drop_first());
            if m == next {
                assert(next == cand || next == rest[0]);
            } else {
                let j = choose|j: int| 0 <= j < rest.drop_first().len() && rest.drop_first()[j] == m;
                assert(rest[j + 1] == m);
            }
        }
    }
}

/// Scanning for a maximum never moves the candidate down, ends on the
/// candidate or an element of the tail, and ends at or above every element
/// of the tail.
proof fn lemma_max_fold_ge(cand: i64, rest: Seq<i64>)
    ensures
        max_fold(cand, rest) >= cand,
        max_fold(cand, rest) == cand || rest.contains(max_fold(cand, rest)),
        forall|k: int| 0 <= k < rest.len() ==> max_fold(cand, rest) >= rest[k],
    decreases rest.len(),
{
    if rest.len() > 0 {
        let next = if cand < rest[0] {
            rest[0]
        } else {
            cand
        };
        lemma_max_fold_ge(next, rest.drop_first());
        assert forall|k: int| 0 <= k < rest.len() implies max_fold(cand, rest) >= rest[k] by {
            if k > 0 {
                assert(rest.drop_first()[k - 1] == rest[k]);
            }
        }
        assert(max_fold(cand, rest) == cand || rest.contains(max_fold(cand, rest))) by {
            let m = max_fold(next, rest.drop_first());
            if m == next {
                assert(next == cand || next == rest[0]);
            } else {
                let j = choose|j: int| 0 <= j < rest.drop_first().len() && rest.drop_first()[j] == m;
                assert(rest[j + 1] == m);
            }
        }
    }
}

/// On a non-empty integer sequence the scanned minimum is an element of the
/// sequence and lies at or below every element.
pub proof fn lemma_min_is_least(s: Seq<i64>)
    requires
        s.len() > 0,
    ensures
        s.contains(spec_min(s)),
        forall|k: int| 0 <= k < s.len() ==> spec_min(s) <= s[k],
{
    lemma_min_fold_le(s[0], s.drop_first());
    let m = spec_min(s);
    assert(s.contains(m)) by {
        if m != s[0] {
            let j = choose|j: int| 0 <= j < s.drop_first().len() && s.drop_first()[j] == m;
            assert(s[j + 1] == m);
        }
    }
    assert forall|k: int| 0 <= k < s.len() implies m <= s[k] by {
        if k > 0 {
            assert(s.drop_first()[k - 1] == s[k]);
        }
    }
}

/// On a non-empty integer sequence the scanned maximum is an element of the
/// sequence and lies at or above every element.
pub proof fn lemma_max_is_greatest(s: Seq<i64>)
    requires
        s.len() > 0,
    ensures
        s.contains(spec_max(s)),
        forall|k: int| 0 <= k < s.len() ==> spec_max(s) >= s[k],
{
    lemma_max_fold_ge(s[0], s.drop_first());
    let m = spec_max(s);
    assert(s.contains(m)) by {
        if m != s[0] {
            let j = choose|j: int| 0 <= j < s.drop_first().len() && s.drop_first()[j] == m;
            assert(s[j + 1] == m);
        }
    }
    assert forall|k: int| 0 <= k < s.len() implies m >= s[k] by {
        if k > 0 {
            assert(s.drop_first()[k - 1] == s[k]);
        }
    }
}

/// Sanity bound: on a non-empty integer sequence the minimum lies at or
/// below the maximum, and the median of its sorted order lies between the
/// two.
pub proof fn lemma_min_median_max(s: Seq<i64>)
    requires
        s.len() > 0,
        sorted(s),
    ensures
        spec_min(s) <= spec_median(s) <= spec_max(s),
{
    lemma_min_is_least(s);
    lemma_max_is_greatest(s);
    let n = s.len() as int;
    if n % 2 == 1 {
        assert(spec_min(s) <= s[n / 2]);
    } else {
        let lo = s[n / 2 - 1] as int;
        let hi = s[n / 2] as int;
        assert(lo <= hi);
        assert(lo <= crate::median::div2_trunc(lo + hi) <= hi) by (nonlinear_arith)
            requires
                lo <= hi,
        ;
    }
}

/// The scanned extremes depend only on which elements the sequence holds:
/// two integer sequences made of the same elements have the same minimum
/// and the same maximum, whatever their order.
pub proof fn lemma_extremes_elementwise(s1: Seq<i64>, s2: Seq<i64>)
    requires
        s1.len() > 0,
        s1.to_multiset() == s2.to_multiset(),
    ensures
        s2.len() > 0,
        spec_min(s1) == spec_min(s2),
        spec_max(s1) == spec_max(s2),
{
    broadcast use vstd::seq_lib::group_to_multiset_ensures;

    assert(s1.to_multiset().len() == s1.len());
    assert(s2.to_multiset().len() == s2.len());
    lemma_min_is_least(s1);
    lemma_min_is_least(s2);
    lemma_max_is_greatest(s1);
    lemma_max_is_greatest(s2);
    assert(s2.to_multiset().contains(spec_min(s1)));
    assert(s2.contains(spec_min(s1)));
    assert(s1.to_multiset().contains(spec_min(s2)));
    assert(s1.contains(spec_min(s2)));
    assert(s2.to_multiset().contains(spec_max(s1)));
    assert(s2.contains(spec_max(s1)));
    assert(s1.to_multiset().contains(spec_max(s2)));
    assert(s1.contains(spec_max(s2)));
}

/// Sanity bound across a `median` call: with `t` the sorted arrangement of
/// a non-empty integer sequence `s`, the median read from `t` lies between
/// the minimum and the maximum of `s` itself.
pub proof fn lemma_median_between_extremes(s: Seq<i64>, t: Seq<i64>)
    requires
        s.len() > 0,
        sorted(t),
        s.to_multiset() == t.to_multiset(),
    ensures
        spec_min(s) <= spec_median(t) <= spec_max(s),
{
    lemma_extremes_elementwise(s, t);
    lemma_min_median_max(t);
}

/// The minimum scan has no hidden state: any two results that meet `min`'s
/// contract on the same integer sequence are equal, so calling it twice on
/// an unmutated input yields identical results.
pub proof fn lemma_min_deterministic(s: Seq<i64>, r1: Option<i64>, r2: Option<i64>)
    requires
        (r1 is Some <==> s.len() > 0) && (s.len() > 0 ==> r1 == Some(spec_min(s))),
        (r2 is Some <==> s.len() > 0) && (s.len() > 0 ==> r2 == Some(spec_min(s))),
    ensures
        r1 == r2,
{
}

/// The maximum scan has no hidden state: any two results that meet `max`'s
/// contract on the same integer sequence are equal, so calling it twice on
/// an unmutated input yields identical results.
pub proof fn lemma_max_deterministic(s: Seq<i64>, r1: Option<i64>, r2: Option<i64>)
    requires
        (r1 is Some <==> s.len() > 0) && (s.len() > 0 ==> r1 == Some(spec_max(s))),
        (r2 is Some <==> s.len() > 0) && (s.len() > 0 ==> r2 == Some(spec_max(s))),
    ensures
        r1 == r2,
{
}

/// A multiset of integers has exactly one sorted arrangement: two sorted
/// sequences made of the same elements are equal. In particular the
/// sequence `median` leaves behind, and with it the median value, is a
/// function of the input's elements alone.
pub proof fn lemma_sorted_unique(s1: Seq<i64>, s2: Seq<i64>)
    requires
        sorted(s1),
        sorted(s2),
        s1.to_multiset() == s2.to_multiset(),
    ensures
        s1 == s2,
    decreases s1.len(),
{
    broadcast use vstd::seq_lib::group_to_multiset_ensures;

    if s1.len() == 0 {
        assert(s2.len() == 0);
        assert(s1 =~= s2);
    } else {
        assert(s1.to_multiset().len() == s1.len());
        assert(s2.to_multiset().len() == s2.len());
        assert(s2.len() == s1.len());
        lemma_sorted_first_is_least(s1);
        lemma_sorted_first_is_least(s2);
        assert(s1.to_multiset().contains(s2[0]));
        assert(s1.contains(s2[0]));
        assert(s1[0] <= s2[0]);
        assert(s2.to_multiset().contains(s1[0]));
        assert(s2.contains(s1[0]));
        assert(s2[0] <= s1[0]);
        assert(s1[0] == s2[0]);
        assert(s1.drop_first() =~= s1.remove(0));
        assert(s2.drop_first() =~= s2.remove(0));
        assert(s1.drop_first().to_multiset() == s2.drop_first().to_multiset());
        lemma_sorted_unique(s1.drop_first(), s2.drop_first());
        assert(s1 =~= s2) by {
            assert(forall|k: int|
                1 <= k < s1.len() ==> s1[k] == s1.drop_first()[k - 1] && s2[k]
                    == s2.drop_first()[k - 1]);
        }
    }
}

/// The first element of a non-empty sorted sequence lies at or below every
/// element of the sequence.
proof fn lemma_sorted_first_is_least(s: Seq<i64>)
    requires
        sorted(s),
        s.len() > 0,
    ensures
        forall|k: int| 0 <= k < s.len() ==> s[0] <= #[trigger] s[k],
        sorted(s.drop_first()),
{
    assert forall|a: int, b: int|
        0 <= a < b < s.drop_first().len() implies s.drop_first()[a] <= s.drop_first()[b] by {
        assert(s.drop_first()[a] == s[a + 1]);
        assert(s.drop_first()[b] == s[b + 1]);
    }
}

} // verus!
