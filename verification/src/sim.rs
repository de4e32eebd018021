//! The value types and the one pure state update consumed by the
//! projectile demo driver.
//!
//! The driver itself (argument handling, the loop, file output) lives
//! outside the core; only the tick rule is core logic, and it is exact
//! tuple arithmetic.

use crate::tuple::{spec_add, spec_add_fits, Tuple};
use vstd::prelude::*;

verus! {

/// The constant external forces acting on every projectile.
#[derive(Debug, Clone, Copy)]
pub struct World {
    pub gravity: Tuple,
    pub wind: Tuple,
}

/// A projectile's state: position and velocity.
#[derive(Debug, Clone, Copy)]
pub struct Projectile {
    pub position: Tuple,
    pub velocity: Tuple,
}

/// One simulation step: the position advances by the velocity, and the
/// velocity picks up gravity and wind.
pub fn tick(world: &World, p: &Projectile) -> (r: Projectile)
    requires
        spec_add_fits(p.position, p.velocity),
        spec_add_fits(p.velocity, world.gravity),
        spec_add_fits(spec_add(p.velocity, world.gravity), world.wind),
    ensures
        r.position == spec_add(p.position, p.velocity),
        r.velocity == spec_add(spec_add(p.velocity, world.gravity), world.wind),
{
    Projectile {
        position: p.position.add(p.velocity),
        velocity: p.velocity.add(world.gravity).add(world.wind),
    }
}

} // verus!
