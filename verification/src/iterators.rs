//! Single-pass traversal pipelines over growable sequences:
//! element-wise transformation, predicate-based retention,
//! concatenation, multi-stage pipelines, and index pairing.

use crate::basics::is_even;
use vstd::prelude::*;

verus! {

/// Appending one element to a sequence appends it to the filtered
/// image exactly when the predicate holds of it.
proof fn lemma_filter_push(s: Seq<i32>, pred: spec_fn(i32) -> bool, x: i32)
    ensures
        s.push(x).filter(pred) == if pred(x) {
            s.filter(pred).push(x)
        } else {
            s.filter(pred)
        },
{
    reveal(Seq::filter);
    assert(s.push(x).drop_last() =~= s);
    assert(s.push(x).last() == x);
}

/// Squares every element, in order.
pub fn squares(v: &Vec<i32>) -> (r: Vec<i32>)
    requires
        forall|i: int| 0 <= i < v@.len() ==> #[trigger] (v@[i] * v@[i]) <= i32::MAX,
    ensures
        r@ == v@.map_values(|x: i32| (x * x) as i32),
{
    let n: usize = v.len();
    let mut r: Vec<i32> = Vec::new();
    let mut k: usize = 0;
    while k < n
        invariant
            n == v@.len(),
            k <= n,
            r@.len() == k,
            forall|i: int| 0 <= i < n ==> #[trigger] (v@[i] * v@[i]) <= i32::MAX,
            forall|i: int| 0 <= i < k ==> r@[i] == (v@[i] * v@[i]) as i32,
        decreases n - k,
    {
        let x: i32 = v[k];
        assert(v@[k as int] * v@[k as int] <= i32::MAX);
        assert(x as int * x as int >= 0) by (nonlinear_arith);
        r.push(x * x);
        k = k + 1;
    }
    assert(r@ =~= v@.map_values(|x: i32| (x * x) as i32));
    r
}

/// Keeps the even elements, in order.
pub fn evens(v: &Vec<i32>) -> (r: Vec<i32>)
    ensures
        r@ == v@.filter(|x: i32| is_even(x as int)),
{
    let n: usize = v.len();
    let mut r: Vec<i32> = Vec::new();
    let mut k: usize = 0;
    while k < n
        invariant
            n == v@.len(),
            k <= n,
            r@ == v@.subrange(0, k as int).filter(|x: i32| is_even(x as int)),
        decreases n - k,
    {
        let x: i32 = v[k];
        proof {
            assert(v@.subrange(0, k + 1) =~= v@.subrange(0, k as int).push(v@[k as int]));
            lemma_filter_push(v@.subrange(0, k as int), |y: i32| is_even(y as int), x);
        }
        if x % 2 == 0 {
            r.push(x);
        }
        k = k + 1;
    }
    assert(v@.subrange(0, n as int) =~= v@);
    r
}

/// Keeps the elements strictly above `limit`, in order.
pub fn greater_than(v: &Vec<i32>, limit: i32) -> (r: Vec<i32>)
    ensures
        r@ == v@.filter(|x: i32| x > limit),
{
    let n: usize = v.len();
    let mut r: Vec<i32> = Vec::new();
    let mut k: usize = 0;
    while k < n
        invariant
            n == v@.len(),
            k <= n,
            r@ == v@.subrange(0, k as int).filter(|x: i32| x > limit),
        decreases n - k,
    {
        let x: i32 = v[k];
        proof {
            assert(v@.subrange(0, k + 1) =~= v@.subrange(0, k as int).push(v@[k as int]));
            lemma_filter_push(v@.subrange(0, k as int), |y: i32| y > limit, x);
        }
        if x > limit {
            r.push(x);
        }
        k = k + 1;
    }
    assert(v@.subrange(0, n as int) =~= v@);
    r
}

/// Concatenates two sequences into one traversal's worth of output.
pub fn chain_values(a: &Vec<i32>, b: &Vec<i32>) -> (r: Vec<i32>)
    ensures
        r@ == a@ + b@,
{
    let mut r: Vec<i32> = Vec::new();
    let na: usize = a.len();
    let mut k: usize = 0;
    while k < na
        invariant
            na == a@.len(),
            k <= na,
            r@ == a@.subrange(0, k as int),
        decreases na - k,
    {
        r.push(a[k]);
        assert(a@.subrange(0, k + 1) =~= a@.subrange(0, k as int).push(a@[k as int]));
        k = k + 1;
    }
    assert(a@.subrange(0, na as int) =~= a@);
    let nb: usize = b.len();
    let mut j: usize = 0;
    while j < nb
        invariant
            nb == b@.len(),
            j <= nb,
            r@ == a@ + b@.subrange(0, j as int),
        decreases nb - j,
    {
        r.push(b[j]);
        assert(b@.subrange(0, j + 1) =~= b@.subrange(0, j as int).push(b@[j as int]));
        assert(a@ + b@.subrange(0, j + 1) =~= (a@ + b@.subrange(0, j as int)).push(b@[j as int]));
        j = j + 1;
    }
    assert(b@.subrange(0, nb as int) =~= b@);
    r
}

/// A two-stage pipeline: keep the even elements, then scale each by 10.
pub fn evens_times_ten(v: &Vec<i32>) -> (r: Vec<i32>)
    requires
        forall|i: int|
            0 <= i < v@.len() && is_even(v@[i] as int) ==> i32::MIN <= #[trigger] (v@[i] * 10)
                <= i32::MAX,
    ensures
        r@ == v@.filter(|x: i32| is_even(x as int)).map_values(|x: i32| (x * 10) as i32),
{
    let n: usize = v.len();
    let mut r: Vec<i32> = Vec::new();
    let mut k: usize = 0;
    while k < n
        invariant
            n == v@.len(),
            k <= n,
            forall|i: int|
                0 <= i < n && is_even(v@[i] as int) ==> i32::MIN <= #[trigger] (v@[i] * 10)
                    <= i32::MAX,
            r@ == v@.subrange(0, k as int).filter(|x: i32| is_even(x as int)).map_values(
                |x: i32| (x * 10) as i32,
            ),
        decreases n - k,
    {
        let x: i32 = v[k];
        proof {
            assert(v@.subrange(0, k + 1) =~= v@.subrange(0, k as int).push(v@[k as int]));
            lemma_filter_push(v@.subrange(0, k as int), |y: i32| is_even(y as int), x);
            if is_even(x as int) {
                assert(v@.subrange(0, k as int).filter(|y: i32| is_even(y as int)).push(
                    x,
                ).map_values(|y: i32| (y * 10) as i32) =~= v@.subrange(0, k as int).filter(
                    |y: i32| is_even(y as int),
                ).map_values(|y: i32| (y * 10) as i32).push((x * 10) as i32));
            }
        }
        if x % 2 == 0 {
            assert(i32::MIN <= v@[k as int] * 10 <= i32::MAX);
            r.push(x * 10);
        }
        k = k + 1;
    }
    assert(v@.subrange(0, n as int) =~= v@);
    r
}

/// A four-stage pipeline: keep the odd elements, square them, and keep
/// the squares strictly above `limit`.
pub fn odd_squares_above(v: &Vec<i32>, limit: i32) -> (r: Vec<i32>)
    requires
        forall|i: int|
            0 <= i < v@.len() && !is_even(v@[i] as int) ==> #[trigger] (v@[i] * v@[i])
                <= i32::MAX,
    ensures
        r@ == v@.filter(|x: i32| !is_even(x as int)).map_values(|x: i32| (x * x) as i32).filter(
            |x: i32| x > limit,
        ),
{
    let n: usize = v.len();
    let mut r: Vec<i32> = Vec::new();
    let mut k: usize = 0;
    while k < n
        invariant
            n == v@.len(),
            k <= n,
            forall|i: int|
                0 <= i < n && !is_even(v@[i] as int) ==> #[trigger] (v@[i] * v@[i]) <= i32::MAX,
            r@ == v@.subrange(0, k as int).filter(|x: i32| !is_even(x as int)).map_values(
                |x: i32| (x * x) as i32,
            ).filter(|x: i32| x > limit),
        decreases n - k,
    {
        let x: i32 = v[k];
        proof {
            let odd = |y: i32| !is_even(y as int);
            let sq = |y: i32| (y * y) as i32;
            let above = |y: i32| y > limit;
            assert(v@.subrange(0, k + 1) =~= v@.subrange(0, k as int).push(v@[k as int]));
            lemma_filter_push(v@.subrange(0, k as int), odd, x);
            if !is_even(x as int) {
                let kept = v@.subrange(0, k as int).filter(odd);
                assert(kept.push(x).map_values(sq) =~= kept.map_values(sq).push((x * x) as i32));
                lemma_filter_push(kept.map_values(sq), above, (x * x) as i32);
            }
        }
        if x % 2 != 0 {
            assert(v@[k as int] * v@[k as int] <= i32::MAX);
            assert(x as int * x as int >= 0) by (nonlinear_arith);
            let y: i32 = x * x;
            if y > limit {
                r.push(y);
            }
        }
        k = k + 1;
    }
    assert(v@.subrange(0, n as int) =~= v@);
    r
}

/// Pairs each element with its index, in order.
pub fn indexed_pairs(v: &Vec<i32>) -> (r: Vec<(usize, i32)>)
    ensures
        r@.len() == v@.len(),
        forall|i: int| 0 <= i < v@.len() ==> r@[i] == (i as usize, v@[i]),
{
    let n: usize = v.len();
    let mut r: Vec<(usize, i32)> = Vec::new();
    let mut k: usize = 0;
    while k < n
        invariant
            n == v@.len(),
            k <= n,
            r@.len() == k,
            forall|i: int| 0 <= i < k ==> r@[i] == (i as usize, v@[i]),
        decreases n - k,
    {
        r.push((k, v[k]));
        k = k + 1;
    }
    r
}

} // verus!
