//! Growable sequences: appending, element-wise mutation through an
//! exclusive reference, and borrowing a contiguous sub-range.

use vstd::prelude::*;
use vstd::string::StringExecFns;

verus! {

/// Adds `delta` to every element in place; each element reflects the
/// change exactly once and the length stays the same.
pub fn add_to_each(v: &mut Vec<i32>, delta: i32)
    requires
        forall|i: int|
            0 <= i < old(v)@.len() ==> i32::MIN <= (#[trigger] old(v)@[i]) + delta <= i32::MAX,
    ensures
        final(v)@.len() == old(v)@.len(),
        forall|i: int| 0 <= i < old(v)@.len() ==> final(v)@[i] == old(v)@[i] + delta,
{
    let n: usize = v.len();
    let mut k: usize = 0;
    while k < n
        invariant
            n == old(v)@.len(),
            v@.len() == n,
            k <= n,
            forall|i: int|
                0 <= i < n ==> i32::MIN <= (#[trigger] old(v)@[i]) + delta <= i32::MAX,
            forall|i: int| 0 <= i < k ==> v@[i] == old(v)@[i] + delta,
            forall|i: int| k <= i < n ==> v@[i] == old(v)@[i],
        decreases n - k,
    {
        let x: i32 = v[k];
        assert(i32::MIN <= old(v)@[k as int] + delta <= i32::MAX);
        v[k] = x + delta;
        k = k + 1;
    }
}

/// Builds a new sequence whose elements are the sources' texts with
/// `suffix` appended; the source is only read.
pub fn with_suffix_each(v: &Vec<String>, suffix: &str) -> (r: Vec<String>)
    ensures
        r@.len() == v@.len(),
        forall|i: int| 0 <= i < v@.len() ==> r@[i]@ == v@[i]@ + suffix@,
{
    let n: usize = v.len();
    let mut r: Vec<String> = Vec::new();
    let mut k: usize = 0;
    while k < n
        invariant
            n == v@.len(),
            k <= n,
            r@.len() == k,
            forall|i: int| 0 <= i < k ==> r@[i]@ == v@[i]@ + suffix@,
        decreases n - k,
    {
        r.push(v[k].clone().concat(suffix));
        k = k + 1;
    }
    r
}

/// Copies out the contiguous sub-range `[lo, hi)`, the borrowed view
/// a slice of the source gives.
pub fn copy_range(v: &Vec<i32>, lo: usize, hi: usize) -> (r: Vec<i32>)
    requires
        lo <= hi <= v@.len(),
    ensures
        r@ == v@.subrange(lo as int, hi as int),
{
    let mut r: Vec<i32> = Vec::new();
    let mut k: usize = lo;
    while k < hi
        invariant
            lo <= k <= hi <= v@.len(),
            r@ == v@.subrange(lo as int, k as int),
        decreases hi - k,
    {
        r.push(v[k]);
        assert(v@.subrange(lo as int, k + 1 as int) == v@.subrange(lo as int, k as int).push(
            v@[k as int],
        ));
        k = k + 1;
    }
    r
}

/// Overwrites the element at `i`, leaving every other element alone.
pub fn set_element(v: &mut Vec<i32>, i: usize, x: i32)
    requires
        i < old(v)@.len(),
    ensures
        final(v)@ == old(v)@.update(i as int, x),
{
    v[i] = x;
}

} // verus!
