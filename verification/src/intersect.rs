//! Hit or miss: what the ray-surface tests decide.
//!
//! Substituting a ray into a surface's equation leaves a handful of real
//! quantities: for a sphere the leading coefficient and the discriminant of
//! a quadratic with its near root, for a triangle the determinant of a
//! linear system with its solution. Computing them is arithmetic on reals
//! and is done by the caller. Whether they make a hit is decided here, from
//! their bit patterns.

use vstd::prelude::*;
use crate::ieee::{at_most, equals, less, less_than, nan, same, ONE, ZERO};

verus! {

/// Whether a ray meets a sphere. With `d` the vector from the ray's origin
/// to the centre and `dir` the ray's direction, `a` is `dir . dir` and the
/// discriminant is `(dir . d)^2 - a (d . d - radius^2)`. The ray misses where
/// the discriminant is negative, and a ray without a direction, for which
/// `a` is zero, meets nothing.
pub open spec fn sphere_meets(a: u32, discriminant: u32) -> bool {
    !less(discriminant, ZERO) && !same(a, ZERO)
}

/// The distance at which a ray meets a sphere: the near root where there is
/// one, which is where `sphere_meets` holds. The root may be negative, for a
/// sphere around or behind the ray's origin.
pub fn sphere_hit(a: u32, discriminant: u32, near_root: u32) -> (hit: Option<u32>)
    ensures
        sphere_meets(a, discriminant) ==> hit == Some(near_root),
        !sphere_meets(a, discriminant) ==> hit is None,
        same(a, ZERO) ==> hit is None,
{
    if less_than(discriminant, ZERO) || equals(a, ZERO) {
        None
    } else {
        Some(near_root)
    }
}

/// Whether a ray meets a triangle. `m` is the determinant of the system
/// that places the ray's point in the triangle's plane, `beta` and `gamma`
/// are the weights of the second and third vertex at that point, and
/// `beta_gamma` is their sum. A zero determinant means that the ray runs
/// along the plane or that the triangle has no area. Otherwise the point
/// must not lie outside the triangle: neither weight below zero, `beta` not
/// above one, and the sum not above one.
pub open spec fn triangle_meets(m: u32, beta: u32, gamma: u32, beta_gamma: u32) -> bool {
    &&& !same(m, ZERO)
    &&& !less(ONE, beta)
    &&& !less(beta, ZERO)
    &&& !less(gamma, ZERO)
    &&& !less(ONE, beta_gamma)
}

/// The distance `t` at which a ray meets a triangle, where it does, which
/// is where `triangle_meets` holds. The sign of `t` is not looked at.
pub fn triangle_hit(m: u32, beta: u32, gamma: u32, beta_gamma: u32, t: u32) -> (hit: Option<u32>)
    ensures
        triangle_meets(m, beta, gamma, beta_gamma) ==> hit == Some(t),
        !triangle_meets(m, beta, gamma, beta_gamma) ==> hit is None,
        same(m, ZERO) ==> hit is None,
{
    if equals(m, ZERO) {
        return None;
    }
    if less_than(ONE, beta) || less_than(beta, ZERO) {
        return None;
    }
    if less_than(gamma, ZERO) || less_than(ONE, beta_gamma) {
        return None;
    }
    Some(t)
}

/// For numbers, a sphere is met exactly where the quadratic is one, `a` not
/// being zero, and has a real root, the discriminant being zero or more.
pub proof fn lemma_sphere_meets_on_numbers(a: u32, discriminant: u32)
    requires
        !nan(a),
        !nan(discriminant),
    ensures
        sphere_meets(a, discriminant) <==> at_most(ZERO, discriminant) && !same(a, ZERO),
{
}

/// For numbers, a triangle is met exactly where the system has one
/// solution and the weights lie in the triangle: `0 <= beta <= 1`,
/// `0 <= gamma` and `beta + gamma <= 1`.
pub proof fn lemma_triangle_meets_on_numbers(m: u32, beta: u32, gamma: u32, beta_gamma: u32)
    requires
        !nan(m),
        !nan(beta),
        !nan(gamma),
        !nan(beta_gamma),
    ensures
        triangle_meets(m, beta, gamma, beta_gamma) <==> (!same(m, ZERO) && at_most(ZERO, beta)
            && at_most(beta, ONE) && at_most(ZERO, gamma) && at_most(beta_gamma, ONE)),
{
}

} // verus!
