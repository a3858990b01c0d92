//! Reading through shared references and modifying through exclusive
//! ones, for text values and for sequences of scalars.

use vstd::prelude::*;
use vstd::string::StrSliceExecFns;
use vstd::string::StringExecFns;

verus! {

/// Counts the characters of a text value through a shared reference;
/// the value itself is left untouched.
pub fn string_length(s: &String) -> (n: usize)
    ensures
        n == s@.len(),
{
    s.as_str().unicode_len()
}

/// Appends `", world!"` to a text value through an exclusive reference.
pub fn append_world(s: &mut String)
    ensures
        final(s)@ == old(s)@ + ", world!"@,
{
    s.append(", world!");
}

/// Appends an arbitrary suffix to a text value through an exclusive
/// reference; the old contents stay as the prefix.
pub fn append_text(s: &mut String, suffix: &str)
    ensures
        final(s)@ == old(s)@ + suffix@,
{
    s.append(suffix);
}

} // verus!
