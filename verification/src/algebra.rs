//! The ray's motion, modelled exactly.
//!
//! A ray is an origin and a direction, and its position at parameter `t`
//! is `origin + t * direction`. The renderer evaluates this in floating
//! point, which the verifier cannot reason about; the affine law itself
//! can be stated and proved exactly, over vectors with mathematical
//! integer components, and scaling such an identity clears any common
//! denominator, so it holds equally over the rationals.

use vstd::prelude::*;
use vstd::arithmetic::mul::lemma_mul_is_distributive_add_other_way;

verus! {

/// A 3-vector with mathematical integer components.
pub struct Vec3 {
    pub x: int,
    pub y: int,
    pub z: int,
}

pub open spec fn vadd(u: Vec3, v: Vec3) -> Vec3 {
    Vec3 { x: u.x + v.x, y: u.y + v.y, z: u.z + v.z }
}

pub open spec fn vscale(k: int, v: Vec3) -> Vec3 {
    Vec3 { x: k * v.x, y: k * v.y, z: k * v.z }
}

/// A ray's position model: `at(t) = origin + t * direction`.
pub open spec fn ray_at(origin: Vec3, direction: Vec3, t: int) -> Vec3 {
    vadd(origin, vscale(t, direction))
}

/// Law: a ray at parameter zero is its origin.
pub proof fn lemma_ray_at_zero(origin: Vec3, direction: Vec3)
    ensures
        ray_at(origin, direction, 0) == origin,
{
}

/// Law: a ray's position is affine in its parameter; each step of the
/// parameter advances the position by the direction, independently of
/// where the step starts.
pub proof fn lemma_ray_at_affine(origin: Vec3, direction: Vec3, t: int, step: int)
    ensures
        ray_at(origin, direction, t + step) == vadd(
            ray_at(origin, direction, t),
            vscale(step, direction),
        ),
{
    lemma_mul_is_distributive_add_other_way(direction.x, t, step);
    lemma_mul_is_distributive_add_other_way(direction.y, t, step);
    lemma_mul_is_distributive_add_other_way(direction.z, t, step);
}

} // verus!
