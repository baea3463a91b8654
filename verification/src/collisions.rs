//! The collision detector: a cheap search for neighbours whose search
//! circles overlap, followed by a search along sight rays for the place where
//! a neighbour's hitbox is met.
use vstd::prelude::*;
use crate::boids::Boid;
use crate::hitbox::{Line, Ray, Triangle};
use crate::scalar::{fits, narrow, product, scalar, wide_product, Scalar, UNIT};
use crate::vectors::Vec2d;
use crate::world::{wrapped_x, wrapped_y, GlobalConstants, World};

verus! {

/// What one boid has seen of a neighbour: which one, counted within the
/// neighbours found in that pass, where, and how fast the neighbour was.
#[derive(Clone, Copy, Debug, PartialEq, Eq, Structural)]
pub struct Collision {
    pub id: usize,
    pub location: Vec2d,
    pub velocity: Vec2d,
}

/// A neighbour that the broad search has found: its hitbox and its velocity.
#[derive(Clone, Copy, Debug, PartialEq, Eq)]
pub struct TriangleHitbox {
    pub triangle: Triangle,
    pub velocity: Vec2d,
}

/// A circle around the point `(x, y)`.
#[derive(Clone, Copy, Debug, PartialEq, Eq, Structural)]
pub struct Circle {
    pub x: Scalar,
    pub y: Scalar,
    pub radius: Scalar,
}

impl Circle {
    /// The two centres are less than the sum of the two radii apart. With
    /// `d` for the distance and `r` for that sum this is `d < r`, written
    /// without the root: `r > 0` and `d^2 < r^2`.
    pub open spec fn collides_spec(self, other: Circle) -> bool {
        let dx = self.x@ - other.x@;
        let dy = self.y@ - other.y@;
        let reach = self.radius@ + other.radius@;
        reach > 0 && dx * dx + dy * dy < reach * reach
    }

    /// Whether this circle overlaps `other`.
    pub fn collides(&self, other: &Circle) -> (hit: bool)
        ensures
            hit == self.collides_spec(*other),
    {
        let dx: i128 = self.x.raw as i128 - other.x.raw as i128;
        let dy: i128 = self.y.raw as i128 - other.y.raw as i128;
        let reach: i128 = self.radius.raw as i128 + other.radius.raw as i128;
        if reach <= 0 {
            return false;
        }
        let across = wide_square(dx);
        let along = wide_square(dy);
        let limit = wide_square(reach);
        across < limit && along < limit - across
    }
}

/// The square of a wide integer of at most 65 bits.
fn wide_square(v: i128) -> (square: u128)
    requires
        -0x1_0000_0000_0000_0000 < v < 0x1_0000_0000_0000_0000,
    ensures
        square == v * v,
{
    let magnitude: u128 = if v < 0 { (-v) as u128 } else { v as u128 };
    assert(magnitude * magnitude == v * v && magnitude * magnitude <= 0xffff_ffff_ffff_ffff
        * 0xffff_ffff_ffff_ffff) by (nonlinear_arith)
        requires
            magnitude == v || magnitude == -v,
            0 <= magnitude <= 0xffff_ffff_ffff_ffff,
    ;
    magnitude * magnitude
}

/// Whether two boids at `a` and `b` are near each other for the broad
/// search: circles of the given radius around them overlap, which is to say
/// that they are less than twice the radius apart.
pub open spec fn near(a: Vec2d, b: Vec2d, radius: Scalar) -> bool {
    (Circle { x: a.x, y: a.y, radius }).collides_spec(Circle { x: b.x, y: b.y, radius })
}

/// The indices below `upto` of the boids near the one with the index
/// `subject`, itself left out, in rising order.
pub open spec fn neighbours(positions: Seq<Vec2d>, subject: int, radius: Scalar, upto: int) -> Seq<
    int,
>
    decreases upto,
{
    if upto <= 0 {
        Seq::empty()
    } else {
        let before = neighbours(positions, subject, radius, upto - 1);
        if upto - 1 != subject && near(positions[subject], positions[upto - 1], radius) {
            before.push(upto - 1)
        } else {
            before
        }
    }
}

/// What the broad search hands on for the boid with the index `j`.
pub open spec fn candidate(velocities: Seq<Vec2d>, hitboxes: Seq<Triangle>, j: int)
    -> TriangleHitbox {
    TriangleHitbox { triangle: hitboxes[j], velocity: velocities[j] }
}

/// The candidates of the broad search for the boid with the index
/// `subject`: each neighbour's hitbox and velocity, in the order of
/// `neighbours`.
pub open spec fn candidates(
    positions: Seq<Vec2d>,
    velocities: Seq<Vec2d>,
    hitboxes: Seq<Triangle>,
    subject: int,
    radius: Scalar,
) -> Seq<TriangleHitbox> {
    neighbours(positions, subject, radius, positions.len() as int).map_values(
        |j: int| candidate(velocities, hitboxes, j),
    )
}

/// Raw angle in degrees between two sight rays next to each other, where
/// `num_rays` are cast.
pub open spec fn spacing(num_rays: int) -> int {
    (360 * UNIT) / num_rays
}

/// A fan whose rays are a quarter or three quarters of a turn apart is cast
/// as vertical rays.
pub open spec fn upright_fan(num_rays: int) -> bool {
    spacing(num_rays) == 90 * UNIT || spacing(num_rays) == 270 * UNIT
}

/// The sight ray with the given slope that a boid at `center` casts as one
/// of `num_rays`: it starts at the centre and runs along the line of that
/// slope through the centre. It is vertical in an upright fan, and where the
/// intercept of that line cannot be held.
pub open spec fn sight_ray(center: Vec2d, length: Scalar, num_rays: int, slope: Scalar) -> Ray {
    let y_intercept = -center.y@ - product(slope@, center.x@);
    let line = if upright_fan(num_rays) || !fits(y_intercept) {
        Line::Vertical
    } else {
        Line::Sloped { slope, y_intercept: scalar(y_intercept) }
    };
    Ray { line, start_position: center, length }
}

/// The sight rays that a boid at `center` casts, one for each slope.
pub open spec fn sight_rays(center: Vec2d, length: Scalar, slopes: Seq<Scalar>) -> Seq<Ray> {
    Seq::new(slopes.len(), |i: int| sight_ray(center, length, slopes.len() as int, slopes[i]))
}

/// Casts `num_rays` sight rays of the length `ray_length` from the centre
/// of `boid`, evenly spread over the full turn: ray `i` bears `i * 360 /
/// num_rays` degrees, and `slopes[i]` is the tangent of that bearing.
pub fn raycast(boid: &Boid, ray_length: Scalar, num_rays: u32, slopes: &Vec<Scalar>) -> (rays: Vec<
    Ray,
>)
    requires
        slopes.len() == num_rays,
    ensures
        rays@ == sight_rays(boid.position, ray_length, slopes@),
{
    let center = boid.position;
    let count = slopes.len();
    let mut rays: Vec<Ray> = Vec::new();
    if count == 0 {
        assert(rays@ =~= sight_rays(boid.position, ray_length, slopes@));
        return rays;
    }
    assert(UNIT == 1_000_000);
    let angle: u128 = 360 * (UNIT as u128) / (num_rays as u128);
    let upright = angle == 90 * (UNIT as u128) || angle == 270 * (UNIT as u128);
    let mut i: usize = 0;
    while i < count
        invariant
            count == slopes.len(),
            center == boid.position,
            upright == upright_fan(count as int),
            i <= count,
            rays.len() == i,
            forall|k: int|
                0 <= k < i ==> #[trigger] rays[k] == sight_ray(
                    center,
                    ray_length,
                    count as int,
                    slopes[k],
                ),
        decreases count - i,
    {
        let ray_slope = slopes[i];
        let y_inter: i128 = -(center.y.raw as i128) - wide_product(ray_slope.raw, center.x.raw);
        let ray = if upright {
            Ray::vertical_line(center, ray_length)
        } else {
            match narrow(y_inter) {
                Some(y_intercept) => Ray::new(Some(ray_slope), Some(y_intercept), center, ray_length),
                None => Ray::vertical_line(center, ray_length),
            }
        };
        rays.push(ray);
        i += 1;
    }
    assert(rays@ =~= sight_rays(boid.position, ray_length, slopes@));
    rays
}

/// What the detector reads of a world: where the boids are, how fast they
/// are, and their hitboxes, each in the order of the boids.
pub struct Scene {
    pub positions: Seq<Vec2d>,
    pub velocities: Seq<Vec2d>,
    pub hitboxes: Seq<Triangle>,
}

impl Scene {
    /// The candidates of the broad search for the boid with the index
    /// `subject`.
    pub open spec fn candidates(self, subject: int, radius: Scalar) -> Seq<TriangleHitbox> {
        candidates(self.positions, self.velocities, self.hitboxes, subject, radius)
    }

    /// What the detector records for the boid with the index `subject`: if
    /// the broad search finds no candidate, nothing, and no ray is cast; else
    /// what the narrow search finds along the boid's sight rays.
    pub open spec fn sightings(self, subject: int, globals: GlobalConstants) -> Seq<Collision> {
        let found = self.candidates(subject, globals.broad_radius);
        if found.len() == 0 {
            Seq::empty()
        } else {
            narrow_search_spec(
                self.hitboxes[subject],
                sight_rays(
                    self.positions[subject],
                    globals.boid_sight_range,
                    globals.boid_sight_slopes@,
                ),
                found,
                found.len() as int,
            )
        }
    }

    /// How many of the first `upto` boids have a candidate, and so cast rays.
    pub open spec fn crowded(self, radius: Scalar, upto: int) -> int
        decreases upto,
    {
        if upto <= 0 {
            0
        } else {
            self.crowded(radius, upto - 1) + (if self.candidates(upto - 1, radius).len() > 0 {
                1int
            } else {
                0int
            })
        }
    }
}

impl World {
    /// The positions of the boids, in their order.
    pub open spec fn positions(self) -> Seq<Vec2d> {
        Seq::new(self.boids@.len(), |i: int| self.boids[i].position)
    }

    /// The velocities of the boids, in their order.
    pub open spec fn velocities(self) -> Seq<Vec2d> {
        Seq::new(self.boids@.len(), |i: int| self.boids[i].velocity)
    }

    /// What the detector reads of this world.
    pub open spec fn scene(self) -> Scene {
        Scene {
            positions: self.positions(),
            velocities: self.velocities(),
            hitboxes: self.hitboxes@,
        }
    }

    /// The candidates of the broad search for the boid with the index
    /// `subject`.
    pub open spec fn candidates(self, subject: int, radius: Scalar) -> Seq<TriangleHitbox> {
        self.scene().candidates(subject, radius)
    }

    /// Where the boids are after a move for the time `step_size` and a wrap
    /// around the borders.
    pub open spec fn moved(self, step_size: Scalar) -> Seq<Vec2d> {
        Seq::new(
            self.boids@.len(),
            |i: int|
                {
                    let drifted = Boid::drift(
                        self.boids[i].position,
                        self.boids[i].velocity,
                        step_size,
                    );
                    Vec2d {
                        x: scalar(wrapped_x(drifted.x@, self.width@)),
                        y: scalar(wrapped_y(drifted.y@, self.height@)),
                    }
                },
        )
    }

    /// What the detector reads of this world after a move for the time
    /// `step_size` and a wrap around the borders: the hitboxes are still
    /// where they were made.
    pub open spec fn moved_scene(self, step_size: Scalar) -> Scene {
        Scene {
            positions: self.moved(step_size),
            velocities: self.velocities(),
            hitboxes: self.hitboxes@,
        }
    }

    /// One tick of the world: every boid moves for the time
    /// `globals.step_size`, the world is wrapped around at its borders, and
    /// the detector makes one pass over what has come of it. Returns how many
    /// boids cast rays.
    pub fn tick(&mut self, globals: GlobalConstants) -> (looked: usize)
        requires
            old(self).wf(),
            globals.wf(),
            old(self).can_step(globals.step_size),
            fits(-old(self).width@),
            fits(-old(self).height@),
        ensures
            final(self).wf(),
            final(self).width == old(self).width,
            final(self).height == old(self).height,
            final(self).hitboxes == old(self).hitboxes,
            final(self).boids.len() == old(self).boids.len(),
            forall|i: int|
                0 <= i < old(self).boids.len() ==> {
                    &&& (#[trigger] final(self).boids[i]).position == old(self).moved(
                        globals.step_size,
                    )[i]
                    &&& final(self).boids[i].velocity == old(self).boids[i].velocity
                    &&& final(self).boids[i].mass == old(self).boids[i].mass
                    &&& final(self).boids[i].collisions@ == old(self).boids[i].collisions@ + old(
                        self,
                    ).moved_scene(globals.step_size).sightings(i, globals)
                },
            looked == old(self).moved_scene(globals.step_size).crowded(
                globals.broad_radius,
                old(self).boids.len() as int,
            ),
            old(self).width@ >= 0 && old(self).height@ >= 0 ==> forall|i: int|
                0 <= i < old(self).boids.len() ==> {
                    &&& -old(self).width@ <= (#[trigger] final(self).boids[i]).position.x@
                        <= old(self).width@
                    &&& -old(self).height@ <= final(self).boids[i].position.y@ <= old(
                        self,
                    ).height@
                },
    {
        self.step(globals.step_size);
        self.warp_world_borders();
        proof {
            assert(self.positions() =~= old(self).moved(globals.step_size));
            assert(self.velocities() =~= old(self).velocities());
            assert(self.scene() == old(self).moved_scene(globals.step_size));
        }
        detect_collisions(self, globals)
    }
}

/// The broad search: the hitbox and velocity of every other boid whose
/// search circle of the radius `search_radius` overlaps that of the boid with
/// the index `subject`.
pub fn broad_search(world: &World, subject: usize, search_radius: Scalar) -> (found: Vec<
    TriangleHitbox,
>)
    requires
        world.wf(),
        subject < world.boids.len(),
    ensures
        found@ == world.candidates(subject as int, search_radius),
{
    let mut possible_collisions: Vec<TriangleHitbox> = Vec::new();
    let center = world.boids[subject].position;
    let current_circle = Circle { x: center.x, y: center.y, radius: search_radius };
    let n = world.boids.len();
    let ghost positions = world.positions();
    let ghost velocities = world.velocities();
    let ghost pick = |j: int| candidate(velocities, world.hitboxes@, j);
    let mut neighbour_counter: usize = 0;
    while neighbour_counter < n
        invariant
            n == world.boids.len(),
            world.hitboxes.len() == n,
            subject < n,
            positions == world.positions(),
            velocities == world.velocities(),
            pick == |j: int| candidate(velocities, world.hitboxes@, j),
            current_circle == (Circle {
                x: world.boids[subject as int].position.x,
                y: world.boids[subject as int].position.y,
                radius: search_radius,
            }),
            neighbour_counter <= n,
            possible_collisions@ == neighbours(
                positions,
                subject as int,
                search_radius,
                neighbour_counter as int,
            ).map_values(pick),
        decreases n - neighbour_counter,
    {
        let ghost before = neighbours(
            positions,
            subject as int,
            search_radius,
            neighbour_counter as int,
        );
        if neighbour_counter != subject {
            let other_center = world.boids[neighbour_counter].position;
            let other_circle = Circle {
                x: other_center.x,
                y: other_center.y,
                radius: search_radius,
            };
            if current_circle.collides(&other_circle) {
                let hitbox = TriangleHitbox {
                    triangle: world.hitboxes[neighbour_counter],
                    velocity: world.boids[neighbour_counter].velocity,
                };
                possible_collisions.push(hitbox);
                assert(before.push(neighbour_counter as int).map_values(pick) =~= before.map_values(
                    pick,
                ).push(pick(neighbour_counter as int)));
            }
        }
        neighbour_counter += 1;
    }
    possible_collisions
}

/// Whether `point` lies on one of the edges of the hitbox `own`.
pub open spec fn touches(own: Triangle, point: Vec2d) -> bool {
    own.edges[0].contains_spec(point) || own.edges[1].contains_spec(point)
        || own.edges[2].contains_spec(point)
}

/// What the narrow search records for one sight ray and one edge of the
/// neighbour with the number `id`: a collision where the ray meets the edge
/// in a point that also lies on an edge of the boid's own hitbox, else
/// nothing.
pub open spec fn sighting(own: Triangle, ray: Ray, edge: Ray, id: int, velocity: Vec2d) -> Seq<
    Collision,
> {
    match ray.intersects_spec(edge) {
        Some(location) => if touches(own, location) {
            seq![Collision { id: id as usize, location, velocity }]
        } else {
            Seq::empty()
        },
        None => Seq::empty(),
    }
}

/// What the narrow search records for one edge and the first `upto` sight
/// rays, ray by ray.
pub open spec fn along_edge(
    own: Triangle,
    rays: Seq<Ray>,
    edge: Ray,
    id: int,
    velocity: Vec2d,
    upto: int,
) -> Seq<Collision>
    decreases upto,
{
    if upto <= 0 {
        Seq::empty()
    } else {
        along_edge(own, rays, edge, id, velocity, upto - 1) + sighting(
            own,
            rays[upto - 1],
            edge,
            id,
            velocity,
        )
    }
}

/// What the narrow search records for the first `upto` edges of one
/// candidate, edge by edge.
pub open spec fn around_hitbox(
    own: Triangle,
    rays: Seq<Ray>,
    neighbour: TriangleHitbox,
    id: int,
    upto: int,
) -> Seq<Collision>
    decreases upto,
{
    if upto <= 0 {
        Seq::empty()
    } else {
        around_hitbox(own, rays, neighbour, id, upto - 1) + along_edge(
            own,
            rays,
            neighbour.triangle.edges[upto - 1],
            id,
            neighbour.velocity,
            rays.len() as int,
        )
    }
}

/// What the narrow search records for the first `upto` candidates,
/// candidate by candidate; a candidate's number is its place among them.
pub open spec fn narrow_search_spec(
    own: Triangle,
    rays: Seq<Ray>,
    found: Seq<TriangleHitbox>,
    upto: int,
) -> Seq<Collision>
    decreases upto,
{
    if upto <= 0 {
        Seq::empty()
    } else {
        narrow_search_spec(own, rays, found, upto - 1) + around_hitbox(
            own,
            rays,
            found[upto - 1],
            upto - 1,
            3,
        )
    }
}

/// The narrow search for a boid with the hitbox `own` that has cast `rays`:
/// every edge of every candidate is held against every ray, and a meeting
/// point counts where it also lies on an edge of `own`.
pub fn narrow_search(own: &Triangle, rays: &Vec<Ray>, found: &Vec<TriangleHitbox>) -> (seen: Vec<
    Collision,
>)
    ensures
        seen@ == narrow_search_spec(*own, rays@, found@, found.len() as int),
{
    let mut seen: Vec<Collision> = Vec::new();
    let mut collision_id: usize = 0;
    while collision_id < found.len()
        invariant
            collision_id <= found.len(),
            seen@ == narrow_search_spec(*own, rays@, found@, collision_id as int),
        decreases found.len() - collision_id,
    {
        let neigh = found[collision_id];
        let ghost before = seen@;
        let mut e: usize = 0;
        while e < 3
            invariant
                collision_id < found.len(),
                neigh == found[collision_id as int],
                e <= 3,
                seen@ == before + around_hitbox(
                    *own,
                    rays@,
                    neigh,
                    collision_id as int,
                    e as int,
                ),
            decreases 3 - e,
        {
            let neighbor_edge = neigh.triangle.edges[e];
            let ghost before_edge = seen@;
            let mut r: usize = 0;
            while r < rays.len()
                invariant
                    r <= rays.len(),
                    seen@ == before_edge + along_edge(
                        *own,
                        rays@,
                        neighbor_edge,
                        collision_id as int,
                        neigh.velocity,
                        r as int,
                    ),
                decreases rays.len() - r,
            {
                let intersect = rays[r].intersects(&neighbor_edge);
                if let Some(pos) = intersect {
                    if own.edges[0].contains(pos) || own.edges[1].contains(pos)
                        || own.edges[2].contains(pos) {
                        seen.push(Collision {
                            id: collision_id,
                            location: pos,
                            velocity: neigh.velocity,
                        });
                    }
                }
                assert(seen@ =~= before_edge + along_edge(
                    *own,
                    rays@,
                    neighbor_edge,
                    collision_id as int,
                    neigh.velocity,
                    r as int + 1,
                ));
                r += 1;
            }
            assert(seen@ =~= before + around_hitbox(
                *own,
                rays@,
                neigh,
                collision_id as int,
                e as int + 1,
            ));
            e += 1;
        }
        assert(seen@ =~= narrow_search_spec(*own, rays@, found@, collision_id as int + 1));
        collision_id += 1;
    }
    seen
}

/// One pass of the detector over the world. For every boid the broad search
/// looks for candidates; where there are any, the boid casts its sight rays
/// and the narrow search adds what it finds to the boid's collisions.
/// Nothing else in the world changes. Returns how many boids cast rays.
///
/// In a world of at most one boid no ray is cast and nothing is recorded.
pub fn detect_collisions(world: &mut World, globals: GlobalConstants) -> (looked: usize)
    requires
        old(world).wf(),
        globals.wf(),
    ensures
        final(world).wf(),
        final(world).width == old(world).width,
        final(world).height == old(world).height,
        final(world).hitboxes == old(world).hitboxes,
        final(world).boids.len() == old(world).boids.len(),
        forall|i: int|
            0 <= i < old(world).boids.len() ==> {
                &&& (#[trigger] final(world).boids[i]).position == old(world).boids[i].position
                &&& final(world).boids[i].velocity == old(world).boids[i].velocity
                &&& final(world).boids[i].mass == old(world).boids[i].mass
                &&& final(world).boids[i].collisions@ == old(world).boids[i].collisions@
                    + old(world).scene().sightings(i, globals)
            },
        looked == old(world).scene().crowded(
            globals.broad_radius,
            old(world).boids.len() as int,
        ),
        old(world).boids.len() <= 1 ==> looked == 0 && forall|i: int|
            0 <= i < old(world).boids.len() ==> (#[trigger] final(world).boids[i]).collisions@
                == old(world).boids[i].collisions@,
{
    let search_radius = globals.broad_radius;
    let ray_length = globals.boid_sight_range;
    let num_rays = globals.boid_sight_precision;
    let n = world.boids.len();
    let mut looked: usize = 0;
    let mut boid_counter: usize = 0;
    while boid_counter < n
        invariant
            n == old(world).boids.len(),
            world.boids.len() == n,
            world.hitboxes == old(world).hitboxes,
            world.hitboxes.len() == n,
            world.width == old(world).width,
            world.height == old(world).height,
            search_radius == globals.broad_radius,
            ray_length == globals.boid_sight_range,
            num_rays == globals.boid_sight_precision,
            globals.boid_sight_slopes.len() == num_rays,
            boid_counter <= n,
            looked == old(world).scene().crowded(search_radius, boid_counter as int),
            looked <= boid_counter,
            forall|k: int|
                0 <= k < n ==> {
                    &&& (#[trigger] world.boids[k]).position == old(world).boids[k].position
                    &&& world.boids[k].velocity == old(world).boids[k].velocity
                    &&& world.boids[k].mass == old(world).boids[k].mass
                },
            forall|k: int|
                0 <= k < boid_counter ==> (#[trigger] world.boids[k]).collisions@ == old(
                    world,
                ).boids[k].collisions@ + old(world).scene().sightings(k, globals),
            forall|k: int|
                boid_counter <= k < n ==> (#[trigger] world.boids[k]).collisions@ == old(
                    world,
                ).boids[k].collisions@,
        decreases n - boid_counter,
    {
        proof {
            assert(world.positions() =~= old(world).positions());
            assert(world.velocities() =~= old(world).velocities());
        }
        let neighbours = broad_search(world, boid_counter, search_radius);
        if neighbours.len() > 0 {
            let rays = raycast(&world.boids[boid_counter], ray_length, num_rays, &globals.boid_sight_slopes);
            let seen = narrow_search(&world.hitboxes[boid_counter], &rays, &neighbours);
            let ghost before = world.boids[boid_counter as int].collisions@;
            let mut k: usize = 0;
            while k < seen.len()
                invariant
                    k <= seen.len(),
                    boid_counter < n,
                    world.boids.len() == n,
                    world.hitboxes == old(world).hitboxes,
                    world.width == old(world).width,
                    world.height == old(world).height,
                    world.boids[boid_counter as int].collisions@ == before + seen@.take(k as int),
                    forall|j: int|
                        0 <= j < n ==> {
                            &&& (#[trigger] world.boids[j]).position == old(
                                world,
                            ).boids[j].position
                            &&& world.boids[j].velocity == old(world).boids[j].velocity
                            &&& world.boids[j].mass == old(world).boids[j].mass
                        },
                    forall|j: int|
                        0 <= j < boid_counter ==> (#[trigger] world.boids[j]).collisions@ == old(
                            world,
                        ).boids[j].collisions@ + old(world).scene().sightings(j, globals),
                    forall|j: int|
                        boid_counter < j < n ==> (#[trigger] world.boids[j]).collisions@ == old(
                            world,
                        ).boids[j].collisions@,
                decreases seen.len() - k,
            {
                world.boids[boid_counter].collisions.push(seen[k]);
                assert(seen@.take(k as int + 1) =~= seen@.take(k as int).push(seen[k as int]));
                k += 1;
            }
            assert(seen@.take(k as int) =~= seen@);
            looked += 1;
        } else {
            assert(world.boids[boid_counter as int].collisions@ =~= old(
                world,
            ).boids[boid_counter as int].collisions@ + old(world).scene().sightings(
                boid_counter as int,
                globals,
            ));
        }
        boid_counter += 1;
    }
    proof {
        if n <= 1 {
            lemma_alone(*old(world), globals);
        }
    }
    looked
}

/// In a world of at most one boid the broad search finds no candidate, so
/// that no boid casts a ray and nothing is recorded.
pub proof fn lemma_alone(world: World, globals: GlobalConstants)
    requires
        world.boids.len() <= 1,
    ensures
        world.scene().crowded(globals.broad_radius, world.boids.len() as int) == 0,
        forall|i: int|
            0 <= i < world.boids.len() ==> world.candidates(i, globals.broad_radius).len() == 0
                && world.scene().sightings(i, globals).len() == 0,
{
    reveal_with_fuel(neighbours, 2);
    reveal_with_fuel(Scene::crowded, 2);
    assert(world.positions().len() == world.boids.len());
}

/// The broad search is right: among the first `upto` boids, the boid with
/// the index `j` is a neighbour of the one with the index `subject` exactly
/// when it is another boid and less than twice the radius away. No boid is
/// its own neighbour, and the neighbours come in rising order.
pub proof fn lemma_neighbours_are_the_near(
    positions: Seq<Vec2d>,
    subject: int,
    radius: Scalar,
    upto: int,
    j: int,
)
    ensures
        ({
            let all = neighbours(positions, subject, radius, upto);
            &&& all.contains(j) <==> 0 <= j < upto && j != subject && near(
                positions[subject],
                positions[j],
                radius,
            )
            &&& !all.contains(subject)
            &&& forall|a: int, b: int| 0 <= a < b < all.len() ==> #[trigger] all[a] < #[trigger] all[b]
            &&& forall|a: int| 0 <= a < all.len() ==> 0 <= #[trigger] all[a] < upto
        }),
    decreases upto,
{
    if upto > 0 {
        lemma_neighbours_are_the_near(positions, subject, radius, upto - 1, j);
        lemma_neighbours_are_the_near(positions, subject, radius, upto - 1, subject);
        let before = neighbours(positions, subject, radius, upto - 1);
        let all = neighbours(positions, subject, radius, upto);
        if upto - 1 != subject && near(positions[subject], positions[upto - 1], radius) {
            assert(all == before.push(upto - 1));
            assert(all[before.len() as int] == upto - 1);
            assert(forall|a: int| 0 <= a < before.len() ==> all[a] == before[a]);
            if before.contains(j) {
                let a = choose|a: int| 0 <= a < before.len() && before[a] == j;
                assert(all[a] == j);
            }
            if before.contains(subject) {
            }
            if all.contains(subject) {
                let a = choose|a: int| 0 <= a < all.len() && all[a] == subject;
                assert(a < before.len());
                assert(before[a] == subject);
            }
            if all.contains(j) {
                let a = choose|a: int| 0 <= a < all.len() && all[a] == j;
                if a < before.len() {
                    assert(before[a] == j);
                }
            }
        }
    }
}

} // verus!
