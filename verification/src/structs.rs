//! A two-field record read through shared references and updated
//! through exclusive ones.

use vstd::prelude::*;

verus! {

/// A person with an owned text name and a numeric age.
pub struct Person {
    pub name: String,
    pub age: u32,
}

/// Updates the person's age through an exclusive reference;
/// the name is untouched.
pub fn update_age(p: &mut Person, new_age: u32)
    ensures
        final(p).age == new_age,
        final(p).name == old(p).name,
{
    p.age = new_age;
}

} // verus!
