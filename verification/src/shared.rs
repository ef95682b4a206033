//! Shared ownership of values that many holders read.

use std::rc::Rc;
use vstd::prelude::*;

verus! {

/// Another pointer to the value that `pointer` holds.
///
/// This is `Rc::clone`, trusted to hand back a pointer to the same
/// allocation, and so to the same value.
#[verifier::external_body]
pub(crate) fn share<T>(pointer: &Rc<T>) -> (other: Rc<T>)
    ensures
        other == *pointer,
{
    Rc::clone(pointer)
}

} // verus!
