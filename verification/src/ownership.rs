//! Copy semantics for scalars and fixed arrays, move semantics for
//! heap-backed text handed into and out of functions.

use vstd::prelude::*;

verus! {

/// Adds one to the given integer; the caller's copy is unaffected.
pub fn add_one(n: i32) -> (r: i32)
    requires
        n < i32::MAX,
    ensures
        r == n + 1,
{
    n + 1
}

/// Takes ownership of a text value and hands the very same value back.
pub fn take_ownership(str_val: String) -> (r: String)
    ensures
        r@ == str_val@,
{
    str_val
}

/// Duplicates a fixed-size array of copyable scalars as one unit;
/// the result holds exactly the elements of the source.
pub fn duplicate_array(a: &[i32; 5]) -> (r: [i32; 5])
    ensures
        r@ == a@,
{
    *a
}

} // verus!
