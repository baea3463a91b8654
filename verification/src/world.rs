//! The arena and the agents in it.
use rand::rngs::StdRng;
use rand::Rng;
use vstd::prelude::*;
use crate::boids::Boid;
use crate::hitbox::Triangle;
use crate::scalar::{
    fits, lemma_quotient_bound, lemma_quotient_within, narrow, product, wide_product, wide_quotient,
    Scalar, UNIT,
};
use crate::vectors::Vec2d;

verus! {

/// The generator of rand that populates a world: seed it to get the same
/// population again. Nothing is known here of what is inside it.
#[verifier::external_type_specification]
#[verifier::external_body]
pub struct ExStdRng(rand::rngs::StdRng);

/// The constants of one run.
#[derive(Debug, PartialEq, Eq)]
pub struct GlobalConstants {
    /// Number of boids in the world.
    pub num_boids: usize,
    /// Time that passes in one tick.
    pub step_size: Scalar,
    /// Largest speed along each axis that a boid starts with.
    pub max_speed: Vec2d,
    /// Width and height of a boid's footprint.
    pub boid_sprite_size: (Scalar, Scalar),
    /// Radius of the circle that the broad search draws around a boid.
    pub broad_radius: Scalar,
    /// How far a boid sees: the length of its sight rays.
    pub boid_sight_range: Scalar,
    /// How many sight rays a boid casts.
    pub boid_sight_precision: u32,
    /// Slope of each sight ray, in the order of casting: the tangent of the
    /// ray's bearing, where ray `i` of `n` bears `i * 360 / n` degrees.
    pub boid_sight_slopes: Vec<Scalar>,
}

impl GlobalConstants {
    /// Every sight ray has its slope.
    pub open spec fn wf(self) -> bool {
        self.boid_sight_slopes.len() == self.boid_sight_precision
    }
}

impl Clone for GlobalConstants {
    fn clone(&self) -> (copy: GlobalConstants)
        ensures
            copy.num_boids == self.num_boids,
            copy.step_size == self.step_size,
            copy.max_speed == self.max_speed,
            copy.boid_sprite_size == self.boid_sprite_size,
            copy.broad_radius == self.broad_radius,
            copy.boid_sight_range == self.boid_sight_range,
            copy.boid_sight_precision == self.boid_sight_precision,
            copy.boid_sight_slopes@ == self.boid_sight_slopes@,
    {
        let mut slopes: Vec<Scalar> = Vec::new();
        let mut i: usize = 0;
        while i < self.boid_sight_slopes.len()
            invariant
                i <= self.boid_sight_slopes.len(),
                slopes@ == self.boid_sight_slopes@.take(i as int),
            decreases self.boid_sight_slopes.len() - i,
        {
            slopes.push(self.boid_sight_slopes[i]);
            assert(self.boid_sight_slopes@.take(i as int + 1) =~= self.boid_sight_slopes@.take(
                i as int,
            ).push(self.boid_sight_slopes[i as int]));
            i += 1;
        }
        assert(self.boid_sight_slopes@.take(i as int) =~= self.boid_sight_slopes@);
        GlobalConstants {
            num_boids: self.num_boids,
            step_size: self.step_size,
            max_speed: self.max_speed,
            boid_sprite_size: self.boid_sprite_size,
            broad_radius: self.broad_radius,
            boid_sight_range: self.boid_sight_range,
            boid_sight_precision: self.boid_sight_precision,
            boid_sight_slopes: slopes,
        }
    }
}

/// The whole world of the simulation: an arena that reaches `width` to
/// either side of the origin and `height` above and below it, the boids in
/// it, and the hitbox of each boid under the boid's own index.
#[derive(Debug, PartialEq, Eq)]
pub struct World {
    pub width: Scalar,
    pub height: Scalar,
    pub boids: Vec<Boid>,
    pub hitboxes: Vec<Triangle>,
}

/// `v` with the given sign: as it is where `positive`, negated otherwise.
pub open spec fn signed(positive: bool, v: int) -> int {
    if positive {
        v
    } else {
        -v
    }
}

/// The magnitude of `v`.
pub open spec fn magnitude(v: int) -> int {
    if v >= 0 {
        v
    } else {
        -v
    }
}

/// `v` is at most `bound` in magnitude, whatever the sign of `bound`.
pub open spec fn within(v: int, bound: int) -> bool {
    -magnitude(bound) <= v <= magnitude(bound)
}

/// Where a boid at `x` is put that may have left the arena sideways: one
/// that is past the left border goes to the right border, one that is past
/// the right border to the left one.
pub open spec fn wrapped_x(x: int, width: int) -> int {
    if x < -width {
        width
    } else if x > width {
        -width
    } else {
        x
    }
}

/// Where a boid at `y` is put that may have left the arena upwards or
/// downwards.
pub open spec fn wrapped_y(y: int, height: int) -> int {
    if y > height {
        -height
    } else if y < -height {
        height
    } else {
        y
    }
}

/// The magnitude of a wide integer of at most 65 bits.
fn wide_magnitude(v: i128) -> (size: i128)
    requires
        -0x1_0000_0000_0000_0000 <= v <= 0x1_0000_0000_0000_0000,
    ensures
        size == magnitude(v as int),
{
    if v >= 0 {
        v
    } else {
        -v
    }
}

/// A fair coin from `Rng::gen::<bool>` of rand. Nothing is claimed of the
/// outcome.
#[verifier::external_body]
fn draw_sign(rng: &mut StdRng) -> (positive: bool) {
    rng.gen::<bool>()
}

/// A number from `Rng::gen_range` of rand on the range `0..bound`, which
/// must not be empty. The claim is the one that rand documents: the number
/// lies in the range.
#[verifier::external_body]
fn draw_below(rng: &mut StdRng, bound: i64) -> (drawn: i64)
    requires
        bound > 0,
    ensures
        0 <= drawn < bound,
{
    rng.gen_range(0..bound)
}

impl World {
    /// Every boid has its hitbox.
    pub open spec fn wf(self) -> bool {
        self.hitboxes.len() == self.boids.len()
    }

    /// The hitbox of a boid can be held wherever in an arena of the given
    /// extent the boid starts.
    pub open spec fn roomy(width: Scalar, height: Scalar, size: (Scalar, Scalar)) -> bool {
        let half_width = size.0@ / 2;
        let half_height = size.1@ / 2;
        &&& fits(magnitude(width@) + magnitude(half_width))
        &&& fits(magnitude(height@) + magnitude(half_height))
        &&& fits(Triangle::side_spec(size.0@, size.1@))
    }

    /// Whether an arena of the given extent has room for the hitboxes of its
    /// boids.
    pub fn check_room(width: Scalar, height: Scalar, size: (Scalar, Scalar)) -> (ok: bool)
        ensures
            ok == World::roomy(width, height, size),
    {
        proof {
            lemma_quotient_bound(size.0@, 2);
            lemma_quotient_bound(size.1@, 2);
        }
        let half_width = wide_quotient(size.0.raw as i128, 2);
        let half_height = wide_quotient(size.1.raw as i128, 2);
        narrow(wide_magnitude(width.raw as i128) + wide_magnitude(half_width)).is_some() && narrow(
            wide_magnitude(height.raw as i128) + wide_magnitude(half_height),
        ).is_some() && Triangle::side(size.0, size.1).is_some()
    }

    /// The start of a boid for the given draws: the position has on each
    /// axis the sign drawn for it and as magnitude the drawn fraction of the
    /// arena's extent, the velocity likewise the drawn fraction of the largest
    /// speed. `signs` and `fractions` hold the draws for the position's `x`
    /// and `y` and the velocity's `x` and `y`, in this order.
    pub open spec fn start_spec(
        width: Scalar,
        height: Scalar,
        max_speed: Vec2d,
        signs: Seq<bool>,
        fractions: Seq<Scalar>,
    ) -> (Vec2d, Vec2d) {
        (
            Vec2d::drawn(
                signed(signs[0], product(width@, fractions[0]@)),
                signed(signs[1], product(height@, fractions[1]@)),
            ),
            Vec2d::drawn(
                signed(signs[2], product(max_speed.x@, fractions[2]@)),
                signed(signs[3], product(max_speed.y@, fractions[3]@)),
            ),
        )
    }

    /// The start of a boid, position and velocity, for the given draws.
    pub fn initial_conditions(
        width: Scalar,
        height: Scalar,
        max_speed: &Vec2d,
        signs: [bool; 4],
        fractions: [Scalar; 4],
    ) -> (start: (Vec2d, Vec2d))
        requires
            forall|k: int| 0 <= k < 4 ==> 0 <= (#[trigger] fractions[k])@ < UNIT,
        ensures
            start == World::start_spec(width, height, *max_speed, signs@, fractions@),
            within(start.0.x@, width@),
            within(start.0.y@, height@),
            within(start.1.x@, max_speed.x@),
            within(start.1.y@, max_speed.y@),
    {
        let x0 = World::draw_part(signs[0], width, fractions[0]);
        let y0 = World::draw_part(signs[1], height, fractions[1]);
        let vx0 = World::draw_part(signs[2], max_speed.x, fractions[2]);
        let vy0 = World::draw_part(signs[3], max_speed.y, fractions[3]);
        let inital_position = Vec2d::new(x0, y0);
        let inital_velocity = Vec2d::new(vx0, vy0);
        (inital_position, inital_velocity)
    }

    /// What holds of a boid and its hitbox as `new` makes them, whatever was
    /// drawn: the boid lies within the arena and is no faster than the
    /// largest speed on either axis, its mass is less than one and not
    /// negative, it has seen no collision, and the hitbox is built around its
    /// position.
    pub open spec fn fresh(
        boid: Boid,
        hitbox: Triangle,
        width: Scalar,
        height: Scalar,
        globals: GlobalConstants,
    ) -> bool {
        &&& within(boid.position.x@, width@)
        &&& within(boid.position.y@, height@)
        &&& within(boid.velocity.x@, globals.max_speed.x@)
        &&& within(boid.velocity.y@, globals.max_speed.y@)
        &&& 0 <= boid.mass@ < UNIT
        &&& boid.collisions@.len() == 0
        &&& hitbox.built_around(boid.position, globals.boid_sprite_size)
    }

    /// A world of the given extent with `globals.num_boids` boids, each with
    /// a mass, a position and a velocity drawn from `rng`, and with the hitbox
    /// of each.
    pub fn new(width: Scalar, height: Scalar, globals: GlobalConstants, rng: &mut StdRng) -> (world:
        World)
        requires
            World::roomy(width, height, globals.boid_sprite_size),
        ensures
            world.wf(),
            world.width == width,
            world.height == height,
            world.boids.len() == globals.num_boids,
            world.hitboxes.len() == globals.num_boids,
            forall|i: int|
                0 <= i < globals.num_boids ==> World::fresh(
                    #[trigger] world.boids[i],
                    world.hitboxes[i],
                    width,
                    height,
                    globals,
                ),
    {
        let mut boids: Vec<Boid> = Vec::new();
        let mut hitboxes: Vec<Triangle> = Vec::new();
        let boid_sprite_size = globals.boid_sprite_size;
        let mut i: usize = 0;
        while i < globals.num_boids
            invariant
                World::roomy(width, height, globals.boid_sprite_size),
                boid_sprite_size == globals.boid_sprite_size,
                i <= globals.num_boids,
                boids.len() == i,
                hitboxes.len() == i,
                forall|k: int|
                    0 <= k < i ==> World::fresh(
                        #[trigger] boids[k],
                        hitboxes[k],
                        width,
                        height,
                        globals,
                    ),
            decreases globals.num_boids - i,
        {
            let mass = Scalar { raw: draw_below(rng, UNIT) };
            let (inital_position, inital_velocity) = World::randomize_inital_conditions(
                width,
                height,
                &globals.max_speed,
                rng,
            );
            let hitbox = Triangle::new(&inital_position, boid_sprite_size);
            hitboxes.push(hitbox);
            boids.push(Boid::new(mass, inital_position, inital_velocity));
            i += 1;
        }
        World { boids, hitboxes, width, height }
    }

    /// Draws the start of one boid: four signs, then four fractions, for the
    /// position's `x` and `y` and the velocity's `x` and `y`. The result is
    /// the start that follows from these draws; whatever they are, it lies
    /// within the arena and within the largest speed.
    pub fn randomize_inital_conditions(
        width: Scalar,
        height: Scalar,
        max_speed: &Vec2d,
        rng: &mut StdRng,
    ) -> (start: (Vec2d, Vec2d))
        ensures
            exists|signs: Seq<bool>, fractions: Seq<Scalar>| #[trigger]
                World::starts_from(start, width, height, *max_speed, signs, fractions),
            within(start.0.x@, width@),
            within(start.0.y@, height@),
            within(start.1.x@, max_speed.x@),
            within(start.1.y@, max_speed.y@),
    {
        let sign_x = draw_sign(rng);
        let sign_y = draw_sign(rng);
        let sign_vx = draw_sign(rng);
        let sign_vy = draw_sign(rng);
        let part_x = Scalar { raw: draw_below(rng, UNIT) };
        let part_y = Scalar { raw: draw_below(rng, UNIT) };
        let part_vx = Scalar { raw: draw_below(rng, UNIT) };
        let part_vy = Scalar { raw: draw_below(rng, UNIT) };
        let signs = [sign_x, sign_y, sign_vx, sign_vy];
        let fractions = [part_x, part_y, part_vx, part_vy];
        let start = World::initial_conditions(width, height, max_speed, signs, fractions);
        assert(World::starts_from(start, width, height, *max_speed, signs@, fractions@));
        start
    }

    /// `start` is the start of a boid for four drawn signs and four drawn
    /// fractions, each fraction less than one and not negative.
    pub open spec fn starts_from(
        start: (Vec2d, Vec2d),
        width: Scalar,
        height: Scalar,
        max_speed: Vec2d,
        signs: Seq<bool>,
        fractions: Seq<Scalar>,
    ) -> bool {
        &&& signs.len() == 4
        &&& fractions.len() == 4
        &&& forall|k: int| 0 <= k < 4 ==> 0 <= (#[trigger] fractions[k])@ < UNIT
        &&& start == World::start_spec(width, height, max_speed, signs, fractions)
    }

    /// Whether every boid can make its move for the time `step_size`.
    pub fn check_step(&self, step_size: Scalar) -> (ok: bool)
        ensures
            ok == self.can_step(step_size),
    {
        let mut i: usize = 0;
        while i < self.boids.len()
            invariant
                i <= self.boids.len(),
                forall|k: int|
                    0 <= k < i ==> Boid::can_drift(
                        (#[trigger] self.boids[k]).position,
                        self.boids[k].velocity,
                        step_size,
                    ),
            decreases self.boids.len() - i,
        {
            if !self.boids[i].check_move(step_size) {
                return false;
            }
            i += 1;
        }
        true
    }

    /// Every boid can make its move for the time `step_size`.
    pub open spec fn can_step(self, step_size: Scalar) -> bool {
        forall|i: int|
            0 <= i < self.boids.len() ==> Boid::can_drift(
                (#[trigger] self.boids[i]).position,
                self.boids[i].velocity,
                step_size,
            )
    }

    /// Steps the world through the time `step_size`: every boid moves with
    /// its velocity. The hitboxes stay where they were made.
    pub fn step(&mut self, step_size: Scalar)
        requires
            old(self).can_step(step_size),
        ensures
            final(self).width == old(self).width,
            final(self).height == old(self).height,
            final(self).hitboxes == old(self).hitboxes,
            final(self).boids.len() == old(self).boids.len(),
            forall|i: int|
                0 <= i < old(self).boids.len() ==> {
                    &&& (#[trigger] final(self).boids[i]).position == Boid::drift(
                        old(self).boids[i].position,
                        old(self).boids[i].velocity,
                        step_size,
                    )
                    &&& final(self).boids[i].velocity == old(self).boids[i].velocity
                    &&& final(self).boids[i].mass == old(self).boids[i].mass
                    &&& final(self).boids[i].collisions == old(self).boids[i].collisions
                },
    {
        let n = self.boids.len();
        let mut i: usize = 0;
        while i < n
            invariant
                old(self).can_step(step_size),
                n == old(self).boids.len(),
                i <= n,
                self.width == old(self).width,
                self.height == old(self).height,
                self.hitboxes == old(self).hitboxes,
                self.boids.len() == n,
                forall|k: int|
                    0 <= k < i ==> {
                        &&& (#[trigger] self.boids[k]).position == Boid::drift(
                            old(self).boids[k].position,
                            old(self).boids[k].velocity,
                            step_size,
                        )
                        &&& self.boids[k].velocity == old(self).boids[k].velocity
                        &&& self.boids[k].mass == old(self).boids[k].mass
                        &&& self.boids[k].collisions == old(self).boids[k].collisions
                    },
                forall|k: int| i <= k < n ==> #[trigger] self.boids[k] == old(self).boids[k],
            decreases n - i,
        {
            self.boids[i].constant_velocity_movement(step_size);
            i += 1;
        }
    }

    /// Wraps the world around at its borders: a boid that has left the arena
    /// on one side comes back in at the border across, on each axis by
    /// itself. Afterwards every boid is within the arena, given that the
    /// arena's extent is not negative.
    pub fn warp_world_borders(&mut self)
        requires
            fits(-old(self).width@),
            fits(-old(self).height@),
        ensures
            final(self).width == old(self).width,
            final(self).height == old(self).height,
            final(self).hitboxes == old(self).hitboxes,
            final(self).boids.len() == old(self).boids.len(),
            forall|i: int|
                0 <= i < old(self).boids.len() ==> {
                    &&& (#[trigger] final(self).boids[i]).position.x@ == wrapped_x(
                        old(self).boids[i].position.x@,
                        old(self).width@,
                    )
                    &&& final(self).boids[i].position.y@ == wrapped_y(
                        old(self).boids[i].position.y@,
                        old(self).height@,
                    )
                    &&& final(self).boids[i].velocity == old(self).boids[i].velocity
                    &&& final(self).boids[i].mass == old(self).boids[i].mass
                    &&& final(self).boids[i].collisions == old(self).boids[i].collisions
                },
            old(self).width@ >= 0 && old(self).height@ >= 0 ==> forall|i: int|
                0 <= i < old(self).boids.len() ==> {
                    &&& -old(self).width@ <= (#[trigger] final(self).boids[i]).position.x@
                        <= old(self).width@
                    &&& -old(self).height@ <= final(self).boids[i].position.y@ <= old(
                        self,
                    ).height@
                },
    {
        let n = self.boids.len();
        let width = self.width;
        let height = self.height;
        let mut i: usize = 0;
        while i < n
            invariant
                fits(-width@),
                fits(-height@),
                width == old(self).width,
                height == old(self).height,
                n == old(self).boids.len(),
                i <= n,
                self.width == old(self).width,
                self.height == old(self).height,
                self.hitboxes == old(self).hitboxes,
                self.boids.len() == n,
                forall|k: int|
                    0 <= k < i ==> {
                        &&& (#[trigger] self.boids[k]).position.x@ == wrapped_x(
                            old(self).boids[k].position.x@,
                            width@,
                        )
                        &&& self.boids[k].position.y@ == wrapped_y(
                            old(self).boids[k].position.y@,
                            height@,
                        )
                        &&& self.boids[k].velocity == old(self).boids[k].velocity
                        &&& self.boids[k].mass == old(self).boids[k].mass
                        &&& self.boids[k].collisions == old(self).boids[k].collisions
                    },
                forall|k: int| i <= k < n ==> #[trigger] self.boids[k] == old(self).boids[k],
            decreases n - i,
        {
            let position = self.boids[i].position;
            if position.x.raw < -width.raw {
                self.boids[i].position.x = width;
            } else if position.x.raw > width.raw {
                self.boids[i].position.x = Scalar { raw: -width.raw };
            }
            if position.y.raw > height.raw {
                self.boids[i].position.y = Scalar { raw: -height.raw };
            } else if position.y.raw < -height.raw {
                self.boids[i].position.y = height;
            }
            i += 1;
        }
    }

    /// The drawn fraction of `extent`, with the drawn sign.
    fn draw_part(positive: bool, extent: Scalar, fraction: Scalar) -> (part: Scalar)
        requires
            0 <= fraction@ < UNIT,
        ensures
            part@ == signed(positive, product(extent@, fraction@)),
            within(part@, extent@),
            fits(-part@),
    {
        proof {
            lemma_fraction_is_less(extent@, fraction@);
        }
        let magnitude = wide_product(extent.raw, fraction.raw);
        if positive {
            Scalar { raw: magnitude as i64 }
        } else {
            Scalar { raw: (-magnitude) as i64 }
        }
    }
}

/// Wrapping puts a boid within the borders, on each axis, of an arena whose
/// extent is not negative.
pub proof fn lemma_wrapped_is_within(x: int, y: int, width: int, height: int)
    requires
        width >= 0,
        height >= 0,
    ensures
        -width <= wrapped_x(x, width) <= width,
        -height <= wrapped_y(y, height) <= height,
{
}

/// A proper fraction of an extent lies between nothing and the extent, and is
/// never the one count that has no negative.
pub proof fn lemma_fraction_is_less(extent: int, fraction: int)
    requires
        fits(extent),
        0 <= fraction < UNIT,
    ensures
        extent >= 0 ==> 0 <= product(extent, fraction) <= extent,
        extent < 0 ==> extent <= product(extent, fraction) <= 0,
        within(product(extent, fraction), extent),
        i64::MIN < product(extent, fraction),
{
    lemma_quotient_within(extent, fraction, UNIT as int);
    assert(UNIT == 1_000_000);
    let whole = extent * fraction;
    assert(extent >= 0 ==> whole >= 0) by (nonlinear_arith)
        requires
            whole == extent * fraction,
            0 <= fraction,
    ;
    assert(extent < 0 ==> extent * 999_999 <= whole <= 0) by (nonlinear_arith)
        requires
            whole == extent * fraction,
            0 <= fraction <= 999_999,
    ;
    assert(product(extent, fraction) == whole / 1_000_000);
}

} // verus!
