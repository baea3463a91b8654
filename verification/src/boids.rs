//! The agents of the simulation.
use vstd::prelude::*;
use crate::collisions::Collision;
use crate::scalar::{fits, narrow, product, scalar, Scalar, UNIT};
use crate::vectors::Vec2d;

verus! {

/// A bird-like point mass. Its position and velocity are held as stored
/// vectors; `collisions` collects what the detector has seen from it.
#[derive(Clone, Debug, PartialEq, Eq)]
pub struct Boid {
    pub position: Vec2d,
    pub velocity: Vec2d,
    pub mass: Scalar,
    pub collisions: Vec<Collision>,
}

impl Boid {
    /// Where a body at `position` is after moving with `velocity` for the
    /// time `step`: `position + velocity * step`, the product rounded.
    pub open spec fn drift(position: Vec2d, velocity: Vec2d, step: Scalar) -> Vec2d {
        position.plus(velocity.scaled(step))
    }

    /// The move of a body at `position` with `velocity` for the time `step`
    /// can be held.
    pub open spec fn can_drift(position: Vec2d, velocity: Vec2d, step: Scalar) -> bool {
        velocity.can_scale(step) && position.can_add(velocity.scaled(step))
    }

    /// A boid with the given mass, position and velocity, all taken as they
    /// are, that has seen no collision yet.
    pub fn new(mass: Scalar, inital_position: Vec2d, inital_velocity: Vec2d) -> (boid: Boid)
        ensures
            boid.mass == mass,
            boid.position == inital_position,
            boid.velocity == inital_velocity,
            boid.collisions@ == Seq::<Collision>::empty(),
    {
        Boid {
            position: inital_position,
            velocity: inital_velocity,
            mass,
            collisions: Vec::new(),
        }
    }

    /// Whether the boid can make its move for the time `step_size`: whether
    /// where it would get to can be held.
    pub fn check_move(&self, step_size: Scalar) -> (ok: bool)
        ensures
            ok == Boid::can_drift(self.position, self.velocity, step_size),
    {
        if !self.velocity.check_scale(step_size) {
            return false;
        }
        let shift = self.velocity.scale(step_size);
        narrow(self.position.x.raw as i128 + shift.x.raw as i128).is_some() && narrow(
            self.position.y.raw as i128 + shift.y.raw as i128,
        ).is_some()
    }

    /// Moves the boid with its velocity for the time `step_size`. The
    /// velocity is not clamped.
    pub fn constant_velocity_movement(&mut self, step_size: Scalar)
        requires
            Boid::can_drift(old(self).position, old(self).velocity, step_size),
        ensures
            final(self).position == Boid::drift(
                old(self).position,
                old(self).velocity,
                step_size,
            ),
            final(self).velocity == old(self).velocity,
            final(self).mass == old(self).mass,
            final(self).collisions == old(self).collisions,
    {
        let shift = self.velocity.scale(step_size);
        self.position.add_assign(shift);
    }
}

/// Whether the parts that rounding cuts off `v * first` and `v * second` add
/// up to a whole raw step.
pub open spec fn carries(v: int, first: int, second: int) -> bool {
    (v * first) % (UNIT as int) + (v * second) % (UNIT as int) >= UNIT
}

/// Integration is linear up to rounding. Two moves in a row, for `first` and
/// then for `second`, fall short of one move for `first + second` by at most
/// one raw step on each axis, and end in the same place exactly when on
/// neither axis the cut-off parts of the two products carry.
pub proof fn lemma_moves_add_up(position: Vec2d, velocity: Vec2d, first: Scalar, second: Scalar)
    requires
        fits(first@ + second@),
        Boid::can_drift(position, velocity, first),
        Boid::can_drift(Boid::drift(position, velocity, first), velocity, second),
        Boid::can_drift(position, velocity, scalar(first@ + second@)),
    ensures
        ({
            let twice = Boid::drift(Boid::drift(position, velocity, first), velocity, second);
            let once = Boid::drift(position, velocity, scalar(first@ + second@));
            &&& once.x@ - twice.x@ == (if carries(velocity.x@, first@, second@) {
                1int
            } else {
                0int
            })
            &&& once.y@ - twice.y@ == (if carries(velocity.y@, first@, second@) {
                1int
            } else {
                0int
            })
            &&& twice == once <==> !carries(velocity.x@, first@, second@) && !carries(
                velocity.y@,
                first@,
                second@,
            )
        }),
{
    lemma_products_add_up(velocity.x@, first@, second@);
    lemma_products_add_up(velocity.y@, first@, second@);
}

/// The rounded product with a sum is the sum of the rounded products, and one
/// more where their cut-off parts carry.
pub proof fn lemma_products_add_up(v: int, first: int, second: int)
    ensures
        product(v, first + second) == product(v, first) + product(v, second) + (if carries(
            v,
            first,
            second,
        ) {
            1int
        } else {
            0int
        }),
{
    let a = v * first;
    let b = v * second;
    assert(v * (first + second) == a + b) by (nonlinear_arith)
        requires
            a == v * first,
            b == v * second,
    ;
    assert(UNIT == 1_000_000);
    assert((a + b) / 1_000_000 == a / 1_000_000 + b / 1_000_000 + (if a % 1_000_000 + b
        % 1_000_000 >= 1_000_000 {
        1int
    } else {
        0int
    }));
}

} // verus!
