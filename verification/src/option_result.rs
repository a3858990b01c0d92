//! Optional and fallible computation: a present/absent value with
//! transformation and chaining that short-circuit on absence, and a
//! success/failure value with combinators that short-circuit on the
//! first failure, preserving its payload.

use crate::basics::{is_even, quotient_trunc, trunc_div};
use vstd::prelude::*;
use vstd::string::StrSliceExecFns;
use vstd::string::StringExecFns;

verus! {

/// Transformation of a possibly absent value: an absent value stays
/// absent, a present one is replaced by the transformed value.
pub open spec fn opt_map<A, B>(o: Option<A>, f: spec_fn(A) -> B) -> Option<B> {
    match o {
        Option::Some(a) => Option::Some(f(a)),
        Option::None => Option::None,
    }
}

/// Chaining of operations that may themselves yield absence.
pub open spec fn opt_chain<A, B>(o: Option<A>, f: spec_fn(A) -> Option<B>) -> Option<B> {
    match o {
        Option::Some(a) => f(a),
        Option::None => Option::None,
    }
}

/// Chaining of operations that may themselves fail.
pub open spec fn res_chain<T, E, U>(r: Result<T, E>, f: spec_fn(T) -> Result<U, E>) -> Result<
    U,
    E,
> {
    match r {
        Result::Ok(t) => f(t),
        Result::Err(e) => Result::Err(e),
    }
}

/// Law: transforming an absent value yields an absent value.
pub proof fn lemma_opt_map_absent<A, B>(f: spec_fn(A) -> B)
    ensures
        opt_map(Option::<A>::None, f) == Option::<B>::None,
{
}

/// Law: transforming a present value yields the transformed value,
/// present.
pub proof fn lemma_opt_map_present<A, B>(a: A, f: spec_fn(A) -> B)
    ensures
        opt_map(Option::Some(a), f) == Option::Some(f(a)),
{
}

/// Law: a chain of two operations that may yield absence
/// short-circuits at the first absence, whatever the second
/// operation would do.
pub proof fn lemma_opt_chain_short_circuit<A, B, C>(
    a: A,
    f: spec_fn(A) -> Option<B>,
    g: spec_fn(B) -> Option<C>,
)
    requires
        f(a) == Option::<B>::None,
    ensures
        opt_chain(opt_chain(Option::Some(a), f), g) == Option::<C>::None,
{
}

/// Law: a chain of two operations that may fail short-circuits at the
/// first failure and hands its payload on unchanged, whatever the
/// second operation would do.
pub proof fn lemma_res_chain_short_circuit<T, U, V, E>(
    t: T,
    e: E,
    f: spec_fn(T) -> Result<U, E>,
    g: spec_fn(U) -> Result<V, E>,
)
    requires
        f(t) == Result::<U, E>::Err(e),
    ensures
        res_chain(res_chain(Result::<T, E>::Ok(t), f), g) == Result::<V, E>::Err(e),
{
}

/// The first even value of the sequence from position `i` on, if any.
pub open spec fn first_even_from(s: Seq<i32>, i: int) -> Option<i32>
    decreases s.len() - i,
{
    if i < 0 || i >= s.len() {
        Option::None
    } else if is_even(s[i] as int) {
        Option::Some(s[i])
    } else {
        first_even_from(s, i + 1)
    }
}

/// The first even value of the sequence, if any.
pub open spec fn first_even(s: Seq<i32>) -> Option<i32> {
    first_even_from(s, 0)
}

/// Walks the values and hands back the first even one; absent when no
/// value is even.
pub fn find_first_even(numbers: &[i32]) -> (r: Option<i32>)
    ensures
        r == first_even(numbers@),
{
    let n: usize = numbers.len();
    let mut k: usize = 0;
    while k < n
        invariant
            n == numbers@.len(),
            k <= n,
            first_even(numbers@) == first_even_from(numbers@, k as int),
        decreases n - k,
    {
        let x: i32 = numbers[k];
        if x % 2 == 0 {
            return Some(x);
        }
        k = k + 1;
    }
    None
}

/// Half of an even value; absent for an odd one.
pub open spec fn spec_half_if_even(n: i32) -> Option<i32> {
    if is_even(n as int) {
        Option::Some(trunc_div(n as int, 2) as i32)
    } else {
        Option::None
    }
}

/// Halves an even value; an odd value yields absence.
pub fn half_if_even(n: i32) -> (r: Option<i32>)
    ensures
        r == spec_half_if_even(n),
{
    if n % 2 == 0 {
        Some(n / 2)
    } else {
        None
    }
}

/// Doubles a present value; absence passes through untouched.
pub fn double_opt(o: Option<i32>) -> (r: Option<i32>)
    requires
        match o {
            Option::Some(v) => i32::MIN <= 2 * v <= i32::MAX,
            Option::None => true,
        },
    ensures
        r == opt_map(o, |x: i32| (2 * x) as i32),
{
    match o {
        Some(v) => Some(2 * v),
        None => None,
    }
}

/// Adds five to a present value; absence passes through untouched.
pub fn add_five_opt(o: Option<i32>) -> (r: Option<i32>)
    requires
        match o {
            Option::Some(v) => v + 5 <= i32::MAX,
            Option::None => true,
        },
    ensures
        r == opt_map(o, |x: i32| (x + 5) as i32),
{
    match o {
        Some(v) => Some(v + 5),
        None => None,
    }
}

/// Chains the halving operation onto a possibly absent value: the
/// first absence short-circuits the pipeline.
pub fn chain_half(o: Option<i32>) -> (r: Option<i32>)
    ensures
        r == opt_chain(o, |n: i32| spec_half_if_even(n)),
{
    match o {
        Some(n) => half_if_even(n),
        None => None,
    }
}

/// Integer division as a fallible operation: a zero divisor fails
/// with a message, anything else succeeds with the quotient.
pub fn divide(a: i32, b: i32) -> (r: Result<i32, String>)
    requires
        !(a == i32::MIN && b == -1),
    ensures
        match r {
            Result::Ok(q) => b != 0 && q == trunc_div(a as int, b as int),
            Result::Err(e) => b == 0 && e@ == "Cannot divide by zero"@,
        },
{
    if b == 0 {
        Err(String::from_str("Cannot divide by zero"))
    } else {
        Ok(quotient_trunc(a, b))
    }
}

/// Why a numeric operation was refused.
#[derive(Clone, Copy, Debug, PartialEq, Eq, Structural)]
pub enum NumError {
    /// The text is not a well-formed number in range.
    Invalid,
    /// The number is negative where only zero or more is accepted.
    Negative,
    /// The result would not fit the numeric type.
    Overflow,
}

/// Whether the character is a decimal digit.
pub open spec fn is_digit(c: char) -> bool {
    48 <= c as int <= 57
}

/// Whether every character of the sequence is a decimal digit.
pub open spec fn all_digits(s: Seq<char>) -> bool {
    forall|i: int| 0 <= i < s.len() ==> is_digit(#[trigger] s[i])
}

/// The numeric value of a sequence of decimal digits, most significant
/// first.
pub open spec fn digits_val(s: Seq<char>) -> int
    decreases s.len(),
{
    if s.len() == 0 {
        0
    } else {
        digits_val(s.drop_last()) * 10 + (s.last() as int - 48)
    }
}

/// The integer a text denotes: an optional leading minus sign, then
/// one or more decimal digits; anything else denotes nothing.
pub open spec fn int_text_value(s: Seq<char>) -> Option<int> {
    if s.len() >= 2 && s[0] == '-' && all_digits(s.subrange(1, s.len() as int)) {
        Option::Some(-digits_val(s.subrange(1, s.len() as int)))
    } else if s.len() >= 1 && all_digits(s) {
        Option::Some(digits_val(s))
    } else {
        Option::None
    }
}

/// The value a text denotes when that value fits an `i32`.
pub open spec fn parse_i32_spec(s: Seq<char>) -> Option<i32> {
    match int_text_value(s) {
        Option::Some(v) => if i32::MIN <= v <= i32::MAX {
            Option::Some(v as i32)
        } else {
            Option::None
        },
        Option::None => Option::None,
    }
}

/// The value of a digit sequence is zero or more.
proof fn lemma_digits_val_nonneg(s: Seq<char>)
    requires
        all_digits(s),
    ensures
        digits_val(s) >= 0,
    decreases s.len(),
{
    if s.len() > 0 {
        assert(all_digits(s.drop_last()));
        lemma_digits_val_nonneg(s.drop_last());
    }
}

/// Dropping trailing digits can only shrink the value.
proof fn lemma_digits_val_prefix_le(s: Seq<char>, k: int)
    requires
        all_digits(s),
        0 <= k <= s.len(),
    ensures
        digits_val(s.subrange(0, k)) <= digits_val(s),
    decreases s.len(),
{
    if k == s.len() {
        assert(s.subrange(0, k) =~= s);
    } else {
        assert(all_digits(s.drop_last()));
        assert(s.subrange(0, k) =~= s.drop_last().subrange(0, k));
        lemma_digits_val_prefix_le(s.drop_last(), k);
        lemma_digits_val_nonneg(s.drop_last());
    }
}

/// Reads an integer out of text: an optional minus sign, then decimal
/// digits; rejects anything else, and any value outside `i32`.
pub fn parse_i32(s: &str) -> (r: Result<i32, NumError>)
    ensures
        match r {
            Result::Ok(v) => parse_i32_spec(s@) == Option::Some(v),
            Result::Err(e) => parse_i32_spec(s@) == Option::<i32>::None && e == NumError::Invalid,
        },
{
    let n: usize = s.unicode_len();
    let neg: bool = n > 0 && s.get_char(0) == '-';
    let start: usize = if neg {
        1
    } else {
        0
    };
    if start == n {
        // no digits at all
        return Err(NumError::Invalid);
    }
    let ghost digits = s@.subrange(start as int, n as int);
    let mut acc: u64 = 0;
    let mut i: usize = start;
    while i < n
        invariant
            n == s@.len(),
            start <= i <= n,
            start < n,
            neg ==> start == 1 && s@[0] == '-',
            !neg ==> start == 0 && s@[0] != '-',
            digits == s@.subrange(start as int, n as int),
            all_digits(s@.subrange(start as int, i as int)),
            acc == digits_val(s@.subrange(start as int, i as int)),
            acc <= 2147483648u64,
        decreases n - i,
    {
        let c: char = s.get_char(i);
        let code: u32 = c as u32;
        if code < 48 || code > 57 {
            // a non-digit character: the text denotes nothing
            assert(!is_digit(s@[i as int]));
            assert(!all_digits(digits)) by {
                assert(digits[i - start] == s@[i as int]);
            }
            assert(int_text_value(s@) == Option::<int>::None) by {
                if neg {
                    assert(s@.subrange(1, n as int) == digits);
                } else {
                    assert(s@.subrange(0, n as int) =~= s@);
                    assert(digits =~= s@);
                }
            }
            return Err(NumError::Invalid);
        }
        proof {
            assert(s@.subrange(start as int, i + 1).drop_last() =~= s@.subrange(
                start as int,
                i as int,
            ));
            assert(s@.subrange(start as int, i + 1).last() == s@[i as int]);
        }
        acc = acc * 10 + ((code - 48) as u64);
        i = i + 1;
        if acc > 2147483648 {
            // the value can only grow from here: out of range either way
            proof {
                if all_digits(digits) {
                    lemma_digits_val_prefix_le(digits, i - start);
                    assert(digits.subrange(0, i - start) =~= s@.subrange(start as int, i as int));
                    lemma_digits_val_nonneg(digits);
                    if neg {
                        assert(s@.subrange(1, n as int) == digits);
                    } else {
                        assert(digits =~= s@);
                    }
                } else {
                    if neg {
                        assert(s@.subrange(1, n as int) == digits);
                    } else {
                        assert(digits =~= s@);
                        assert(s@.subrange(0, n as int) =~= s@);
                    }
                }
            }
            return Err(NumError::Invalid);
        }
    }
    proof {
        assert(s@.subrange(start as int, n as int) == digits);
        if neg {
            assert(s@.subrange(1, n as int) == digits);
        } else {
            assert(digits =~= s@);
        }
    }
    if neg {
        if acc == 2147483648 {
            Ok(i32::MIN)
        } else {
            Ok(-(acc as i32))
        }
    } else {
        if acc > 2147483647 {
            // 2147483648 without a sign does not fit
            Err(NumError::Invalid)
        } else {
            Ok(acc as i32)
        }
    }
}

/// What processing a number out of text yields: the parsed value
/// scaled by ten, refused when the text is no number, the value is
/// negative, or the scaled value does not fit.
pub open spec fn process_number_spec(s: Seq<char>) -> Result<i32, NumError> {
    match parse_i32_spec(s) {
        Option::None => Result::Err(NumError::Invalid),
        Option::Some(v) => if v < 0 {
            Result::Err(NumError::Negative)
        } else if v * 10 > i32::MAX {
            Result::Err(NumError::Overflow)
        } else {
            Result::Ok((v * 10) as i32)
        },
    }
}

/// Parses a number out of text, refuses negatives, and scales the
/// value by ten; each failure is propagated to the caller at the step
/// that finds it.
pub fn process_number(s: &str) -> (r: Result<i32, NumError>)
    ensures
        r == process_number_spec(s@),
{
    let n: i32 = match parse_i32(s) {
        Ok(v) => v,
        Err(_) => {
            return Err(NumError::Invalid);
        },
    };
    if n < 0 {
        return Err(NumError::Negative);
    }
    if n > 214748364 {
        return Err(NumError::Overflow);
    }
    Ok(n * 10)
}

/// What parsing and doubling yields: twice the parsed value, refused
/// when the text is no number or the doubled value does not fit.
pub open spec fn parse_and_double_spec(s: Seq<char>) -> Result<i32, NumError> {
    match parse_i32_spec(s) {
        Option::None => Result::Err(NumError::Invalid),
        Option::Some(v) => if 2 * v > i32::MAX || 2 * v < i32::MIN {
            Result::Err(NumError::Overflow)
        } else {
            Result::Ok((2 * v) as i32)
        },
    }
}

/// Parses a number out of text and doubles it.
pub fn parse_and_double(s: &str) -> (r: Result<i32, NumError>)
    ensures
        r == parse_and_double_spec(s@),
{
    let n: i32 = match parse_i32(s) {
        Ok(v) => v,
        Err(_) => {
            return Err(NumError::Invalid);
        },
    };
    match double_checked(n) {
        Ok(d) => Ok(d),
        Err(e) => Err(e),
    }
}

/// Doubles a value, failing rather than overflowing.
pub fn double_checked(n: i32) -> (r: Result<i32, NumError>)
    ensures
        match r {
            Result::Ok(d) => i32::MIN <= 2 * n <= i32::MAX && d == 2 * n,
            Result::Err(e) => (2 * n > i32::MAX || 2 * n < i32::MIN) && e == NumError::Overflow,
        },
{
    match n.checked_mul(2) {
        Some(d) => Ok(d),
        None => Err(NumError::Overflow),
    }
}

} // verus!
