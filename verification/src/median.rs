//! The median of a sequence of 64-bit signed integers.
//!
//! Unlike the read-only scans, `median` reorders the caller's data: it sorts
//! the sequence in place (non-decreasing) and then reads the middle. For an
//! even element count it averages the two central elements in the element
//! type itself, so integer division truncates the result toward zero.

use vstd::prelude::*;

verus! {

/// The sequence is in non-decreasing order.
pub open spec fn sorted(s: Seq<i64>) -> bool {
    forall|a: int, b: int| 0 <= a < b < s.len() ==> s[a] <= s[b]
}

/// Division by two that truncates toward zero, as the `/` of a signed
/// machine integer does.
pub open spec fn div2_trunc(x: int) -> int {
    if x >= 0 {
        x / 2
    } else {
        -((-x) / 2)
    }
}

/// The median of a sorted sequence: the middle element when the length is
/// odd, else the truncating average of the two central elements.
pub open spec fn spec_median(s: Seq<i64>) -> i64
    recommends
        s.len() > 0,
{
    let n = s.len() as int;
    if n % 2 == 1 {
        s[n / 2]
    } else {
        div2_trunc(s[n / 2 - 1] as int + s[n / 2] as int) as i64
    }
}

/// Sorts `v` in place into non-decreasing order, keeping exactly the
/// elements it started with, by insertion sort.
fn sort_in_place(v: &mut Vec<i64>)
    ensures
        sorted(final(v)@),
        final(v)@.to_multiset() == old(v)@.to_multiset(),
        final(v)@.len() == old(v)@.len(),
{
    let mut i: usize = 1;
    while i < v.len()
        invariant
            1 <= i,
            v@.len() == old(v)@.len(),
            v@.to_multiset() == old(v)@.to_multiset(),
            forall|a: int, b: int| 0 <= a < b < i && b < v@.len() ==> v@[a] <= v@[b],
        decreases v@.len() - i,
    {
        let mut j: usize = i;
        while j > 0 && v[j - 1] > v[j]
            invariant
                0 <= j <= i < v@.len(),
                v@.len() == old(v)@.len(),
                v@.to_multiset() == old(v)@.to_multiset(),
                forall|a: int, b: int|
                    0 <= a < b <= i && b != j ==> v@[a] <= v@[b],
                forall|b: int| j < b <= i ==> v@[j as int] <= v@[b],
            decreases j,
        {
            let lo = v[j - 1];
            let hi = v[j];
            let ghost before = v@;
            v.set(j - 1, hi);
            v.set(j, lo);
            proof {
                broadcast use vstd::seq_lib::group_to_multiset_ensures;

                assert(v@ == before.update(j - 1, hi).update(j as int, lo));
                vstd::seq_lib::to_multiset_update(before, j - 1, hi);
                vstd::seq_lib::to_multiset_update(
                    before.update(j - 1, hi),
                    j as int,
                    lo,
                );
                assert(before.update(j - 1, hi)[j as int] == hi);
                assert(v@.to_multiset() =~= before.to_multiset());
            }
            j = j - 1;
        }
        i = i + 1;
    }
}

/// The median of the sequence: absent for an empty one, else the middle of
/// the sorted order (for an even count, the truncating in-type average of
/// the two central elements). Sorting happens in place, so the one visible
/// side effect is that the sequence is left in non-decreasing order.
pub fn median(numbers: &mut Vec<i64>) -> (r: Option<i64>)
    ensures
        sorted(final(numbers)@),
        final(numbers)@.to_multiset() == old(numbers)@.to_multiset(),
        final(numbers)@.len() == old(numbers)@.len(),
        r is Some <==> old(numbers)@.len() > 0,
        old(numbers)@.len() > 0 ==> r == Some(spec_median(final(numbers)@)),
{
    if numbers.len() == 0 {
        return None;
    }
    sort_in_place(numbers);
    let len = numbers.len();
    let mid = len / 2;
    if len % 2 == 1 {
        Some(numbers[mid])
    } else {
        let lo = numbers[mid - 1];
        let hi = numbers[mid];
        let sum: i128 = lo as i128 + hi as i128;
        let m: i64 = if sum >= 0 {
            ((sum as u128) / 2) as i64
        } else {
            (-((((-sum) as u128) / 2) as i128)) as i64
        };
        proof {
            assert(m as int == div2_trunc(lo as int + hi as int));
        }
        Some(m)
    }
}

} // verus!
