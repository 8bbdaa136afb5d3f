//! Element count and extremal-value scans over a read-only slice.
//!
//! `min` and `max` follow partial-order semantics: a running candidate starts
//! at the first element and is replaced only when a strict comparison against
//! the next element succeeds. A pair that cannot be compared leaves the
//! candidate in place, so uncomparable values are passed through silently
//! rather than reported as an error.

use vstd::prelude::*;

verus! {

use core::cmp::Ordering;
use vstd::std_specs::cmp::PartialOrdSpec;

/// The number of elements in the sequence; zero for an empty one.
pub fn count<T>(data: &[T]) -> (n: usize)
    ensures
        n == data@.len(),
{
    data.len()
}

/// The candidate left by scanning `rest` with running candidate `cand`,
/// replacing the candidate only when it compares strictly greater than the
/// element under scan. Ties and uncomparable pairs keep the candidate.
pub open spec fn min_fold<T: PartialOrd>(cand: T, rest: Seq<T>) -> T
    decreases rest.len(),
{
    if rest.len() == 0 {
        cand
    } else {
        let next = if cand.partial_cmp_spec(&rest[0]) == Some(Ordering::Greater) {
            rest[0]
        } else {
            cand
        };
        min_fold(next, rest.drop_first())
    }
}

/// The value `min` returns on a non-empty sequence: the scan of the tail
/// starting from the first element.
pub open spec fn spec_min<T: PartialOrd>(s: Seq<T>) -> T
    recommends
        s.len() > 0,
{
    min_fold(s[0], s.drop_first())
}

/// The smallest element of a non-empty slice, by a linear scan with strict
/// comparison; absent for an empty slice. The first of several equal minima
/// is returned, and an element that does not compare below the running
/// candidate never replaces it.
pub fn min<T: PartialOrd + Copy>(data: &[T]) -> (r: Option<T>)
    ensures
        r is Some <==> data@.len() > 0,
        r matches Some(m) ==> data@.contains(m),
        T::obeys_partial_cmp_spec() && data@.len() > 0 ==> r == Some(spec_min(data@)),
{
    if data.len() == 0 {
        return None;
    }
    let mut m = data[0];
    let mut i: usize = 1;
    while i < data.len()
        invariant
            1 <= i <= data@.len(),
            data@.contains(m),
            T::obeys_partial_cmp_spec() ==> min_fold(m, data@.skip(i as int)) == spec_min(
                data@,
            ),
        decreases data@.len() - i,
    {
        let item = data[i];
        proof {
            assert(data@.skip(i as int).drop_first() =~= data@.skip(i as int + 1));
            assert(data@.skip(i as int)[0] == data@[i as int]);
        }
        match m.partial_cmp(&item) {
            Some(Ordering::Greater) => {
                m = item;
            },
            _ => {},
        }
        i += 1;
    }
    proof {
        assert(data@.skip(data@.len() as int) =~= Seq::<T>::empty());
    }
    Some(m)
}

/// The candidate left by scanning `rest` with running candidate `cand`,
/// replacing the candidate only when it compares strictly less than the
/// element under scan. Ties and uncomparable pairs keep the candidate.
pub open spec fn max_fold<T: PartialOrd>(cand: T, rest: Seq<T>) -> T
    decreases rest.len(),
{
    if rest.len() == 0 {
        cand
    } else {
        let next = if cand.partial_cmp_spec(&rest[0]) == Some(Ordering::Less) {
            rest[0]
        } else {
            cand
        };
        max_fold(next, rest.drop_first())
    }
}

/// The value `max` returns on a non-empty sequence: the scan of the tail
/// starting from the first element.
pub open spec fn spec_max<T: PartialOrd>(s: Seq<T>) -> T
    recommends
        s.len() > 0,
{
    max_fold(s[0], s.drop_first())
}

/// The largest element of a non-empty slice, by a linear scan with strict
/// comparison; absent for an empty slice. The first of several equal maxima
/// is returned, and an element that does not compare above the running
/// candidate never replaces it.
pub fn max<T: PartialOrd + Copy>(data: &[T]) -> (r: Option<T>)
    ensures
        r is Some <==> data@.len() > 0,
        r matches Some(m) ==> data@.contains(m),
        T::obeys_partial_cmp_spec() && data@.len() > 0 ==> r == Some(spec_max(data@)),
{
    if data.len() == 0 {
        return None;
    }
    let mut m = data[0];
    let mut i: usize = 1;
    while i < data.len()
        invariant
            1 <= i <= data@.len(),
            data@.contains(m),
            T::obeys_partial_cmp_spec() ==> max_fold(m, data@.skip(i as int)) == spec_max(
                data@,
            ),
        decreases data@.len() - i,
    {
        let item = data[i];
        proof {
            assert(data@.skip(i as int).drop_first() =~= data@.skip(i as int + 1));
            assert(data@.skip(i as int)[0] == data@[i as int]);
        }
        match m.partial_cmp(&item) {
            Some(Ordering::Less) => {
                m = item;
            },
            _ => {},
        }
        i += 1;
    }
    proof {
        assert(data@.skip(data@.len() as int) =~= Seq::<T>::empty());
    }
    Some(m)
}

} // verus!
