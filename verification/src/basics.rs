//! Scalars, arithmetic, three-way branching, and the three loop forms.

use vstd::prelude::*;
use vstd::arithmetic::div_mod::{
    lemma_basic_div, lemma_div_plus_one, lemma_mod_add_multiples_vanish, lemma_mod_self_0,
    lemma_small_mod,
};

verus! {

/// Absolute value of a mathematical integer.
pub open spec fn abs_int(a: int) -> int {
    if a < 0 {
        -a
    } else {
        a
    }
}

/// The quotient as the machine's `/` computes it on signed integers:
/// the magnitudes are divided and the result is negated when the
/// operands' signs differ, so the quotient truncates toward zero.
pub open spec fn trunc_div(a: int, b: int) -> int {
    if (a < 0) != (b < 0) {
        -(abs_int(a) / abs_int(b))
    } else {
        abs_int(a) / abs_int(b)
    }
}

/// The remainder as the machine's `%` computes it on signed integers:
/// the magnitude is `abs_int(a) % abs_int(b)` and the sign is the
/// dividend's.
pub open spec fn trunc_rem(a: int, b: int) -> int {
    if a < 0 {
        -(abs_int(a) % abs_int(b))
    } else {
        abs_int(a) % abs_int(b)
    }
}

/// A value is even when its magnitude leaves no remainder by 2.
pub open spec fn is_even(n: int) -> bool {
    abs_int(n) % 2 == 0
}

/// Truncating division on `i32`, defined for every pair of operands
/// except zero divisors and the one overflowing pair `(i32::MIN, -1)`.
pub fn quotient_trunc(a: i32, b: i32) -> (q: i32)
    requires
        b != 0,
        !(a == i32::MIN && b == -1),
    ensures
        q == trunc_div(a as int, b as int),
{
    if b == i32::MIN {
        // the divisor's magnitude exceeds every other magnitude
        if a == i32::MIN {
            assert(trunc_div(a as int, b as int) == 1);
            1
        } else {
            proof {
                if a >= 0 {
                    lemma_basic_div(a as int, -(b as int));
                } else {
                    lemma_basic_div(-(a as int), -(b as int));
                }
            }
            assert(trunc_div(a as int, b as int) == 0);
            0
        }
    } else {
        let nb: i32 = if b < 0 {
            -b
        } else {
            b
        };
        if a >= 0 {
            let m: i32 = a / nb;
            assert(m == abs_int(a as int) / abs_int(b as int));
            if b < 0 {
                assert(trunc_div(a as int, b as int) == -m);
                -m
            } else {
                assert(trunc_div(a as int, b as int) == m);
                m
            }
        } else if a == i32::MIN {
            if nb == 1 {
                // b == 1 here, since b == -1 is ruled out
                assert(trunc_div(a as int, b as int) == a as int);
                a
            } else {
                // peel one divisor off so the magnitude fits in i32
                let am: i32 = -(a + nb);
                let m: i32 = am / nb;
                proof {
                    lemma_div_plus_one(am as int, nb as int);
                }
                assert(m + 1 == abs_int(a as int) / abs_int(b as int));
                if b < 0 {
                    assert(trunc_div(a as int, b as int) == m + 1);
                    m + 1
                } else {
                    assert(trunc_div(a as int, b as int) == -(m + 1));
                    -(m + 1)
                }
            }
        } else {
            let na: i32 = -a;
            let m: i32 = na / nb;
            assert(m == abs_int(a as int) / abs_int(b as int));
            if b < 0 {
                assert(trunc_div(a as int, b as int) == m);
                m
            } else {
                assert(trunc_div(a as int, b as int) == -m);
                -m
            }
        }
    }
}

/// Truncating remainder on `i32`, the companion of [`quotient_trunc`].
pub fn remainder_trunc(a: i32, b: i32) -> (r: i32)
    requires
        b != 0,
        !(a == i32::MIN && b == -1),
    ensures
        r == trunc_rem(a as int, b as int),
{
    if b == i32::MIN {
        if a == i32::MIN {
            proof {
                lemma_mod_self_0(-(b as int));
            }
            assert(trunc_rem(a as int, b as int) == 0);
            0
        } else {
            proof {
                if a >= 0 {
                    lemma_small_mod(a as nat, (-(b as int)) as nat);
                } else {
                    lemma_small_mod((-(a as int)) as nat, (-(b as int)) as nat);
                }
            }
            assert(trunc_rem(a as int, b as int) == a as int);
            a
        }
    } else {
        let nb: i32 = if b < 0 {
            -b
        } else {
            b
        };
        if a >= 0 {
            let m: i32 = a % nb;
            assert(m == abs_int(a as int) % abs_int(b as int));
            m
        } else if a == i32::MIN {
            if nb == 1 {
                assert(trunc_rem(a as int, b as int) == 0);
                0
            } else {
                let am: i32 = -(a + nb);
                let m: i32 = am % nb;
                proof {
                    lemma_mod_add_multiples_vanish(am as int, nb as int);
                }
                assert(m == abs_int(a as int) % abs_int(b as int));
                -m
            }
        } else {
            let m: i32 = (-a) % nb;
            assert(m == abs_int(a as int) % abs_int(b as int));
            -m
        }
    }
}

/// All five basic arithmetic results on a pair of integers:
/// sum, difference, product, quotient, and remainder.
pub fn arithmetic_results(a: i32, b: i32) -> (r: (i32, i32, i32, i32, i32))
    requires
        b != 0,
        !(a == i32::MIN && b == -1),
        i32::MIN <= a + b <= i32::MAX,
        i32::MIN <= a - b <= i32::MAX,
        i32::MIN <= a * b <= i32::MAX,
    ensures
        r.0 == a + b,
        r.1 == a - b,
        r.2 == a * b,
        r.3 == trunc_div(a as int, b as int),
        r.4 == trunc_rem(a as int, b as int),
{
    (a + b, a - b, a * b, quotient_trunc(a, b), remainder_trunc(a, b))
}

/// The three-way outcome of holding a temperature against the two
/// fixed thresholds: above 30, below 15, or within the pleasant band.
#[derive(Clone, Copy, Debug, PartialEq, Eq, Structural)]
pub enum Weather {
    Hot,
    Cold,
    Nice,
}

/// Classifies a temperature: hot above 30, cold below 15, nice otherwise.
pub fn classify_temperature(t: i32) -> (w: Weather)
    ensures
        (w == Weather::Hot) <==> t > 30,
        (w == Weather::Cold) <==> t < 15,
        (w == Weather::Nice) <==> (15 <= t && t <= 30),
{
    if t > 30 {
        Weather::Hot
    } else if t < 15 {
        Weather::Cold
    } else {
        Weather::Nice
    }
}

/// The counts a pre-condition loop visits before reaching `limit`:
/// 0, 1, ..., `limit - 1`, in order.
pub fn counts_before(limit: u32) -> (r: Vec<u32>)
    ensures
        r@.len() == limit,
        forall|i: int| 0 <= i < limit ==> r@[i] == i,
{
    let mut r: Vec<u32> = Vec::new();
    let mut count: u32 = 0;
    while count < limit
        invariant
            count <= limit,
            r@.len() == count,
            forall|i: int| 0 <= i < count ==> r@[i] == i,
        decreases limit - count,
    {
        r.push(count);
        count = count + 1;
    }
    r
}

/// An unconditional loop with an explicit exit: counts how many passes
/// run before the exit condition `count >= stop` fires.
pub fn passes_until_break(stop: u32) -> (r: u32)
    ensures
        r == stop,
{
    let mut count: u32 = 0;
    loop
        invariant
            count <= stop,
        ensures
            count == stop,
        decreases stop - count,
    {
        if count >= stop {
            break ;
        } else {
            count = count + 1;
        }
    }
    count
}

/// The values a bounded inclusive range `lo..=hi` visits, in order;
/// empty when `lo` exceeds `hi`.
pub fn range_inclusive(lo: i32, hi: i32) -> (r: Vec<i32>)
    requires
        lo <= hi ==> hi < i32::MAX,
    ensures
        r@.len() == (if lo <= hi {
            hi + 1 - lo
        } else {
            0
        }),
        forall|k: int| 0 <= k < r@.len() ==> r@[k] == lo + k,
{
    let mut r: Vec<i32> = Vec::new();
    if lo <= hi {
        let mut i: i32 = lo;
        while i <= hi
            invariant
                lo <= i <= hi + 1,
                hi < i32::MAX,
                r@.len() == i - lo,
                forall|k: int| 0 <= k < r@.len() ==> r@[k] == lo + k,
            decreases hi + 1 - i,
        {
            r.push(i);
            i = i + 1;
        }
    }
    r
}

/// The even values the bounded exclusive range `lo..hi` visits, in order.
pub open spec fn evens_in(lo: int, hi: int) -> Seq<i32>
    decreases hi - lo,
{
    if lo >= hi {
        Seq::empty()
    } else if is_even(hi - 1) {
        evens_in(lo, hi - 1) + seq![(hi - 1) as i32]
    } else {
        evens_in(lo, hi - 1)
    }
}

/// Walks the bounded exclusive range `lo..hi` and keeps the even values.
pub fn evens_between(lo: i32, hi: i32) -> (r: Vec<i32>)
    ensures
        r@ == evens_in(lo as int, hi as int),
{
    let mut r: Vec<i32> = Vec::new();
    let mut i: i32 = lo;
    if lo < hi {
        while i < hi
            invariant
                lo <= i <= hi,
                r@ == evens_in(lo as int, i as int),
            decreases hi + 1 - i,
        {
            if i % 2 == 0 {
                r.push(i);
            }
            i = i + 1;
        }
    }
    r
}

} // verus!
