//! A two-dimensional flocking simulation on fixed-point coordinates:
//! point-mass agents drift at constant velocity through a wrapping arena,
//! and a two-phase detector records which of them are about to collide.
//!
//! One tick of a world integrates the positions, wraps the world around at
//! its borders and runs the detector, in this order. The detector first
//! shortlists, for every boid, the neighbours whose search circles overlap
//! its own, and then holds the sight rays of the boid against the edges of
//! each neighbour's triangular hitbox.
//!
//! Every quantity is a [`Scalar`], a count of millionths, so that all
//! arithmetic is integer arithmetic with stated rounding. Angles are not
//! computed here: where a direction is needed, its cosine and sine or its
//! tangent are handed in.
//!
//! A [`Vec2d`] is made from coordinates as they are drawn and is stored with
//! the second axis turned over. Lines are written over the coordinates as
//! drawn.
pub mod boids;
pub mod collisions;
pub mod hitbox;
pub mod response;
pub mod scalar;
pub mod vectors;
pub mod world;

pub use boids::Boid;
pub use collisions::{
    broad_search, detect_collisions, narrow_search, raycast, Circle, Collision, TriangleHitbox,
};
pub use hitbox::{Line, Ray, Triangle};
pub use response::{reflect, Side};
pub use scalar::Scalar;
pub use vectors::Vec2d;
pub use world::{GlobalConstants, World};
