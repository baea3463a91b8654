//! The response to a contact of two footprints. It is a rule of its own and
//! takes no part in detection: whoever finds that the boxes around two boids
//! overlap names the side that was hit, and the rule turns the velocity
//! around on that axis.
use vstd::prelude::*;
use std::ops::Neg;
use crate::scalar::{fits, product, scalar, Scalar};
use crate::vectors::Vec2d;

verus! {

/// The side on which a boid has run into another one's box.
#[derive(Clone, Copy, Debug, PartialEq, Eq, Structural)]
pub enum Side {
    Left,
    Right,
    Top,
    Bottom,
}

/// Whether a boid with the given velocity moves into the side it has hit:
/// to the right into a left side, to the left into a right one, downwards
/// into a top and upwards into a bottom.
pub open spec fn moves_into(velocity: Vec2d, side: Side) -> bool {
    match side {
        Side::Left => velocity.x@ > 0,
        Side::Right => velocity.x@ < 0,
        Side::Top => velocity.y@ < 0,
        Side::Bottom => velocity.y@ > 0,
    }
}

/// The velocity after a contact on `side`: where the boid moves into that
/// side, the component across it is turned around and scaled by
/// `elasticity`; the other component, and a boid that moves away, stay as
/// they are.
pub open spec fn reflected(velocity: Vec2d, side: Side, elasticity: Scalar) -> Vec2d {
    if !moves_into(velocity, side) {
        velocity
    } else if side == Side::Left || side == Side::Right {
        Vec2d { x: scalar(-product(elasticity@, velocity.x@)), y: velocity.y }
    } else {
        Vec2d { x: velocity.x, y: scalar(-product(elasticity@, velocity.y@)) }
    }
}

/// The component that `reflect` would turn around can be held afterwards.
pub open spec fn can_reflect(velocity: Vec2d, side: Side, elasticity: Scalar) -> bool {
    moves_into(velocity, side) ==> if side == Side::Left || side == Side::Right {
        fits(product(elasticity@, velocity.x@)) && fits(-product(elasticity@, velocity.x@))
    } else {
        fits(product(elasticity@, velocity.y@)) && fits(-product(elasticity@, velocity.y@))
    }
}

/// The velocity of a boid after it has hit another one's box on `side`.
pub fn reflect(velocity: Vec2d, side: Side, elasticity: Scalar) -> (after: Vec2d)
    requires
        can_reflect(velocity, side, elasticity),
    ensures
        after == reflected(velocity, side, elasticity),
{
    match side {
        Side::Left => if velocity.x.raw > 0 {
            Vec2d { x: (elasticity * velocity.x).neg(), y: velocity.y }
        } else {
            velocity
        },
        Side::Right => if velocity.x.raw < 0 {
            Vec2d { x: (elasticity * velocity.x).neg(), y: velocity.y }
        } else {
            velocity
        },
        Side::Top => if velocity.y.raw < 0 {
            Vec2d { x: velocity.x, y: (elasticity * velocity.y).neg() }
        } else {
            velocity
        },
        Side::Bottom => if velocity.y.raw > 0 {
            Vec2d { x: velocity.x, y: (elasticity * velocity.y).neg() }
        } else {
            velocity
        },
    }
}

} // verus!
