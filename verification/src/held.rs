//! Values that are never dropped.
use std::mem::ManuallyDrop;
use std::ops::DerefMut;

use vstd::prelude::*;

verus! {

/// `DerefMut::deref_mut` of `ManuallyDrop`: the value that is held, to be changed in its place.
#[verifier::external_body]
pub(crate) fn held_mut<V>(held: &mut ManuallyDrop<V>) -> (value: &mut V)
    ensures
        *value == old(held)@,
        final(held)@ == *final(value),
{
    held.deref_mut()
}

} // verus!
