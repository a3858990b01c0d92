//! Fixed-size sequences: direct indexed access and copying an element
//! out before modifying the copy.

use vstd::prelude::*;

verus! {

/// Reads the element at a fixed in-bounds index; nothing else moves.
pub fn element_at(a: &[i32; 5], i: usize) -> (r: i32)
    requires
        i < 5,
    ensures
        r == a@[i as int],
{
    a[i]
}

/// Copies the first element out and adds one to the copy; the array
/// itself keeps its value.
pub fn copy_and_increment(a: &[i32; 5]) -> (r: i32)
    requires
        a@[0] < i32::MAX,
    ensures
        r == a@[0] + 1,
{
    let m: i32 = a[0];
    m + 1
}

} // verus!
