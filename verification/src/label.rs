//! What the tree asks of its labels: that a copy of a label is that label,
//! and that `==` on labels tells whether two labels are the same value.

use vstd::prelude::*;
use vstd::std_specs::cmp::PartialEqSpec;

verus! {

/// `T::clone` returns the value that it was given.
pub open spec fn clones_exactly<T: Clone>() -> bool {
    forall|a: T, b: T| #[trigger] cloned::<T>(a, b) ==> a == b
}

/// `==` on `T` holds of two values exactly when they are the same value.
pub open spec fn compares_by_value<T: PartialEq>() -> bool {
    &&& T::obeys_eq_spec()
    &&& forall|a: T, b: T| #[trigger] a.eq_spec(&b) <==> a == b
}

} // verus!
