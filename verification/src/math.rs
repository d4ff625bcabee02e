//! Arithmetic helpers.

use std::ops::Mul;
use vstd::prelude::*;
use vstd::std_specs::ops::MulSpec;

verus! {

/// The product of a value with itself.
///
/// The caller must show that the type's multiplication accepts the pair
/// `(x, x)`; for the machine integers that means that the product fits.
pub fn square<T>(x: T) -> (r: T) where T: Mul<Output = T> + Copy
    requires
        x.mul_req(x),
    ensures
        T::obeys_mul_spec() ==> r == x.mul_spec(x),
{
    x * x
}

} // verus!
