//! Two-dimensional vectors.
//!
//! A vector is made from coordinates as they are drawn, with the second axis
//! pointing down, and is stored with that axis turned over, so that the
//! arithmetic runs in a frame whose second axis points up.
use vstd::prelude::*;
use std::ops::Neg;
use vstd::std_specs::ops::AddSpecImpl;
use vstd::std_specs::ops::MulSpecImpl;
use vstd::std_specs::ops::SubSpecImpl;
use crate::scalar::{fits, narrow, product, scalar, wide_product, Scalar};

verus! {

/// A vector with components `x` and `y`, both as stored.
#[derive(Clone, Copy, Debug, PartialEq, Eq, Structural)]
pub struct Vec2d {
    pub x: Scalar,
    pub y: Scalar,
}

impl Vec2d {
    /// What `new` stores for the drawn coordinates `x` and `y`.
    pub open spec fn drawn(x: int, y: int) -> Vec2d {
        Vec2d { x: scalar(x), y: scalar(-y) }
    }

    /// The sum of two vectors, component by component.
    pub open spec fn plus(self, rhs: Vec2d) -> Vec2d {
        Vec2d { x: scalar(self.x@ + rhs.x@), y: scalar(self.y@ + rhs.y@) }
    }

    /// The difference of two vectors, component by component.
    pub open spec fn minus(self, rhs: Vec2d) -> Vec2d {
        Vec2d { x: scalar(self.x@ - rhs.x@), y: scalar(self.y@ - rhs.y@) }
    }

    /// The vector with each component multiplied by `k` and rounded.
    pub open spec fn scaled(self, k: Scalar) -> Vec2d {
        Vec2d { x: scalar(product(self.x@, k@)), y: scalar(product(self.y@, k@)) }
    }

    /// Both components of the sum with `rhs` can be held.
    pub open spec fn can_add(self, rhs: Vec2d) -> bool {
        fits(self.x@ + rhs.x@) && fits(self.y@ + rhs.y@)
    }

    /// Both components of the difference with `rhs` can be held.
    pub open spec fn can_subtract(self, rhs: Vec2d) -> bool {
        fits(self.x@ - rhs.x@) && fits(self.y@ - rhs.y@)
    }

    /// Both components of the vector scaled by `k` can be held.
    pub open spec fn can_scale(self, k: Scalar) -> bool {
        fits(product(self.x@, k@)) && fits(product(self.y@, k@))
    }

    /// Raw count of the dot product with `other`.
    pub open spec fn dot_spec(self, other: Vec2d) -> int {
        product(self.x@, other.x@) + product(self.y@, other.y@)
    }

    /// Raw count of the cross product with `other`.
    pub open spec fn cross_spec(self, other: Vec2d) -> int {
        product(self.x@, -other.y@) - product(-self.y@, other.x@)
    }

    /// The vector for the drawn coordinates `x` and `y`: `y` is stored
    /// negated.
    pub fn new(x: Scalar, y: Scalar) -> (v: Vec2d)
        requires
            fits(-y@),
        ensures
            v == Vec2d::drawn(x@, y@),
            v.x == x,
            v.y@ == -y@,
    {
        Vec2d { x, y: y.neg() }
    }

    /// The vector of the given magnitude along the direction whose cosine
    /// and sine are given: it is stored as `(magnitude * cosine, -magnitude *
    /// sine)`.
    pub fn from_polar(magnitude: Scalar, cosine: Scalar, sine: Scalar) -> (v: Vec2d)
        requires
            fits(-magnitude@),
            fits(product(magnitude@, cosine@)),
            fits(product(-magnitude@, sine@)),
        ensures
            v.x@ == product(magnitude@, cosine@),
            v.y@ == product(-magnitude@, sine@),
    {
        Vec2d { x: magnitude * cosine, y: magnitude.neg() * sine }
    }

    /// Dot product: the sum of the two rounded products of like components.
    pub fn dot(&self, other: &Vec2d) -> (d: Scalar)
        requires
            fits(product(self.x@, other.x@)),
            fits(product(self.y@, other.y@)),
            fits(self.dot_spec(*other)),
        ensures
            d@ == self.dot_spec(*other),
    {
        self.x * other.x + self.y * other.y
    }

    /// Cross product, the component that leaves the plane: its sign tells
    /// the sense of the turn from `self` to `other`.
    pub fn cross(&self, other: &Vec2d) -> (c: Scalar)
        requires
            fits(-self.y@),
            fits(-other.y@),
            fits(product(self.x@, -other.y@)),
            fits(product(-self.y@, other.x@)),
            fits(self.cross_spec(*other)),
        ensures
            c@ == self.cross_spec(*other),
    {
        self.x * other.y.neg() - self.y.neg() * other.x
    }

    /// The left-hand normal: `(x, y)` turns into `(-y, x)`.
    pub fn surface_normal(&self) -> (n: Vec2d)
        requires
            fits(-self.y@),
        ensures
            n.x@ == -self.y@,
            n.y == self.x,
    {
        Vec2d { x: self.y.neg(), y: self.x }
    }

    /// Whether both components of the vector scaled by `k` can be held.
    pub fn check_scale(&self, k: Scalar) -> (ok: bool)
        ensures
            ok == self.can_scale(k),
    {
        narrow(wide_product(self.x.raw, k.raw)).is_some() && narrow(
            wide_product(self.y.raw, k.raw),
        ).is_some()
    }

    /// The vector with each component multiplied by `k`.
    pub fn scale(&self, k: Scalar) -> (r: Vec2d)
        requires
            self.can_scale(k),
        ensures
            r == self.scaled(k),
    {
        Vec2d { x: self.x * k, y: self.y * k }
    }

    /// Adds `rhs` to this vector in place.
    pub fn add_assign(&mut self, rhs: Vec2d)
        requires
            old(self).can_add(rhs),
        ensures
            *final(self) == old(self).plus(rhs),
    {
        self.x = self.x + rhs.x;
        self.y = self.y + rhs.y;
    }
}

impl std::ops::Add<Vec2d> for Vec2d {
    type Output = Vec2d;

    fn add(self, rhs: Vec2d) -> (r: Vec2d) {
        Vec2d { x: self.x + rhs.x, y: self.y + rhs.y }
    }
}

impl AddSpecImpl<Vec2d> for Vec2d {
    open spec fn obeys_add_spec() -> bool {
        true
    }

    open spec fn add_req(self, rhs: Vec2d) -> bool {
        self.can_add(rhs)
    }

    open spec fn add_spec(self, rhs: Vec2d) -> Vec2d {
        self.plus(rhs)
    }
}

impl std::ops::Sub<Vec2d> for Vec2d {
    type Output = Vec2d;

    fn sub(self, rhs: Vec2d) -> (r: Vec2d) {
        Vec2d { x: self.x - rhs.x, y: self.y - rhs.y }
    }
}

impl SubSpecImpl<Vec2d> for Vec2d {
    open spec fn obeys_sub_spec() -> bool {
        true
    }

    open spec fn sub_req(self, rhs: Vec2d) -> bool {
        self.can_subtract(rhs)
    }

    open spec fn sub_spec(self, rhs: Vec2d) -> Vec2d {
        self.minus(rhs)
    }
}

impl std::ops::Mul<Scalar> for &Vec2d {
    type Output = Vec2d;

    fn mul(self, rhs: Scalar) -> (r: Vec2d) {
        self.scale(rhs)
    }
}

impl MulSpecImpl<Scalar> for &Vec2d {
    open spec fn obeys_mul_spec() -> bool {
        true
    }

    open spec fn mul_req(self, rhs: Scalar) -> bool {
        self.can_scale(rhs)
    }

    open spec fn mul_spec(self, rhs: Scalar) -> Vec2d {
        self.scaled(rhs)
    }
}

impl std::ops::Mul<&Vec2d> for Scalar {
    type Output = Vec2d;

    fn mul(self, rhs: &Vec2d) -> (r: Vec2d) {
        rhs.scale(self)
    }
}

impl MulSpecImpl<&Vec2d> for Scalar {
    open spec fn obeys_mul_spec() -> bool {
        true
    }

    open spec fn mul_req(self, rhs: &Vec2d) -> bool {
        rhs.can_scale(self)
    }

    open spec fn mul_spec(self, rhs: &Vec2d) -> Vec2d {
        rhs.scaled(self)
    }
}

} // verus!
