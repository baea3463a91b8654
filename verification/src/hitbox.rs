//! Hitbox geometry: rays, which serve both as the edges of a hitbox and as
//! the sight lines that an agent casts, and the triangle that stands for an
//! agent's footprint.
//!
//! A ray's line is written over the coordinates as drawn: the point stored as
//! `(x, y)` lies on the line with slope `m` and intercept `b` when
//! `-y = m * x + b`.
use vstd::prelude::*;
use crate::scalar::{
    fits, floor_root, is_root, lemma_product_bound, lemma_quotient_bound, lemma_quotient_within,
    lemma_root_exists, lemma_root_unique, narrow, product, ratio, root, scalar, wide_product,
    wide_quotient, Scalar, EPSILON, UNIT,
};
use crate::vectors::Vec2d;

verus! {

/// The line that a ray runs along.
#[derive(Clone, Copy, Debug, PartialEq, Eq, Structural)]
pub enum Line {
    /// The points with `-y = slope * x + y_intercept`.
    Sloped { slope: Scalar, y_intercept: Scalar },
    /// A line of constant `x`.
    Vertical,
}

/// A bounded stretch of a line: it leaves `start_position` and ends `length`
/// further along, towards growing `x`, or straight up where the line is
/// vertical.
#[derive(Clone, Copy, Debug, PartialEq, Eq, Structural)]
pub struct Ray {
    pub line: Line,
    pub start_position: Vec2d,
    pub length: Scalar,
}

/// The hitbox of an agent: an isosceles triangle, nose first, then the right
/// and the left corner of its base. Edge `i` leaves vertex `i`.
#[derive(Clone, Copy, Debug, PartialEq, Eq)]
pub struct Triangle {
    pub vertices: [Vec2d; 3],
    pub edges: [Ray; 3],
}

impl Triangle {
    /// Raw length of the two equal sides of the triangle for a footprint of
    /// the given raw width and height: `sqrt((width / 2)^2 + height^2)`.
    pub open spec fn side_spec(width: int, height: int) -> int {
        root((width / 2) * (width / 2) + height * height)
    }

    /// The three vertices around `center` and the length of the sides can be
    /// held.
    pub open spec fn fits_around(center: Vec2d, size: (Scalar, Scalar)) -> bool {
        let half_width = size.0@ / 2;
        let half_height = size.1@ / 2;
        &&& fits(center.x@ + half_width)
        &&& fits(center.x@ - half_width)
        &&& fits(center.y@ + half_height)
        &&& fits(center.y@ - half_height)
        &&& fits(-(center.y@ + half_height))
        &&& fits(-(center.y@ - half_height))
        &&& fits(Triangle::side_spec(size.0@, size.1@))
    }

    /// The three vertices for a footprint of the given size around `center`,
    /// whose components are taken as they are stored and then handed to
    /// `Vec2d::new`: the nose half a height above the centre, the base half a
    /// height below it and half a width to either side.
    pub open spec fn corners(center: Vec2d, size: (Scalar, Scalar)) -> Seq<Vec2d> {
        let half_width = size.0@ / 2;
        let half_height = size.1@ / 2;
        seq![
            Vec2d::drawn(center.x@, center.y@ + half_height),
            Vec2d::drawn(center.x@ + half_width, center.y@ - half_height),
            Vec2d::drawn(center.x@ - half_width, center.y@ - half_height),
        ]
    }

    /// The lengths of the three edges: side, base, side.
    pub open spec fn edge_lengths(size: (Scalar, Scalar)) -> Seq<Scalar> {
        let side = scalar(Triangle::side_spec(size.0@, size.1@));
        seq![side, size.0, side]
    }

    /// This is the hitbox for a footprint of the given size around `center`:
    /// its vertices are the three `corners`, and edge `i` runs from vertex `i`
    /// to the next one with the length `edge_lengths[i]`.
    pub open spec fn built_around(self, center: Vec2d, size: (Scalar, Scalar)) -> bool {
        &&& self.vertices@ == Triangle::corners(center, size)
        &&& forall|i: int|
            0 <= i < 3 ==> #[trigger] self.edges[i] == Ray::edge_spec(
                self.vertices[i],
                self.vertices[Ray::next_vertex(i, 3)],
                Triangle::edge_lengths(size)[i],
            )
    }

    /// Whether the hitbox for a footprint of the given size around `center`
    /// can be held.
    pub fn check_fit(center: &Vec2d, size: (Scalar, Scalar)) -> (ok: bool)
        ensures
            ok == Triangle::fits_around(*center, size),
    {
        let (width, height) = size;
        let half_width = wide_quotient(width.raw as i128, 2);
        let half_height = wide_quotient(height.raw as i128, 2);
        let x = center.x.raw as i128;
        let y = center.y.raw as i128;
        proof {
            lemma_quotient_bound(width@, 2);
            lemma_quotient_bound(height@, 2);
        }
        narrow(x + half_width).is_some() && narrow(x - half_width).is_some() && narrow(
            y + half_height,
        ).is_some() && narrow(y - half_height).is_some() && narrow(-(y + half_height)).is_some()
            && narrow(-(y - half_height)).is_some() && Triangle::side(width, height).is_some()
    }

    /// The length of the two equal sides for a footprint of the given width
    /// and height, if it can be held.
    pub fn side(width: Scalar, height: Scalar) -> (length: Option<Scalar>)
        ensures
            fits(Triangle::side_spec(width@, height@)) ==> length == Some(
                scalar(Triangle::side_spec(width@, height@)),
            ),
            !fits(Triangle::side_spec(width@, height@)) ==> length.is_none(),
    {
        proof {
            lemma_quotient_bound(width@, 2);
        }
        let half_width = wide_quotient(width.raw as i128, 2);
        proof {
            lemma_product_bound(height@, height@);
            assert(0 <= half_width * half_width <= 0x1000_0000_0000_0000_0000_0000_0000_0000)
                by (nonlinear_arith)
                requires
                    -0x4000_0000_0000_0000 <= half_width <= 0x4000_0000_0000_0000,
            {
                if half_width >= 0 {
                    assert(half_width * half_width <= 0x4000_0000_0000_0000
                        * 0x4000_0000_0000_0000);
                } else {
                    assert((-half_width) * (-half_width) <= 0x4000_0000_0000_0000
                        * 0x4000_0000_0000_0000);
                }
            }
            assert(height@ * height@ >= 0) by (nonlinear_arith);
        }
        let square: i128 = half_width * half_width + (height.raw as i128) * (height.raw as i128);
        narrow(floor_root(square as u128) as i128)
    }

    /// The hitbox for a footprint of the size `boid_sprite_size`, given as
    /// width and height, around `boid_position`.
    pub fn new(boid_position: &Vec2d, boid_sprite_size: (Scalar, Scalar)) -> (hitbox: Triangle)
        requires
            Triangle::fits_around(*boid_position, boid_sprite_size),
        ensures
            hitbox.built_around(*boid_position, boid_sprite_size),
    {
        let (width, height) = boid_sprite_size;
        let center = boid_position;
        proof {
            lemma_quotient_bound(width@, 2);
            lemma_quotient_bound(height@, 2);
        }
        let half_width = Scalar { raw: wide_quotient(width.raw as i128, 2) as i64 };
        let half_height = Scalar { raw: wide_quotient(height.raw as i128, 2) as i64 };
        let sides = Triangle::side(width, height).unwrap();
        let base = width;
        let edge_lengths = vec![sides, base, sides];
        let vertex1 = Vec2d::new(center.x, center.y + half_height);
        let vertex2 = Vec2d::new(center.x + half_width, center.y - half_height);
        let vertex3 = Vec2d::new(center.x - half_width, center.y - half_height);
        let vertices = [vertex1, vertex2, vertex3];
        assert(vertices@ =~= Triangle::corners(*boid_position, boid_sprite_size));
        assert(edge_lengths@ =~= Triangle::edge_lengths(boid_sprite_size));
        let edges = Ray::from_vertices(vertices.as_slice(), edge_lengths);
        Triangle { vertices, edges: [edges[0], edges[1], edges[2]] }
    }
}

/// `v` lies between `a` and `b`, whichever of them is the larger, and is
/// neither of them.
pub open spec fn strictly_between(v: int, a: int, b: int) -> bool {
    (a < v && v < b) || (b < v && v < a)
}

/// The stretch from `a0` to `a1` and the stretch from `b0` to `b1`, ends
/// included and in either order, have a point in common.
pub open spec fn spans_meet(a0: int, a1: int, b0: int, b1: int) -> bool {
    let a_low = if a0 <= a1 { a0 } else { a1 };
    let a_high = if a0 <= a1 { a1 } else { a0 };
    let b_low = if b0 <= b1 { b0 } else { b1 };
    let b_high = if b0 <= b1 { b1 } else { b0 };
    a_low <= b_high && b_low <= a_high
}

/// The vector with raw components `x` and `y`, where both can be held.
pub open spec fn located(x: int, y: int) -> Option<Vec2d> {
    if fits(x) && fits(y) {
        Some(Vec2d { x: scalar(x), y: scalar(y) })
    } else {
        None
    }
}

/// Raw length of the hypotenuse over a run of one and a rise of `m`.
pub open spec fn hypotenuse(m: int) -> int {
    root(UNIT * UNIT + m * m)
}

impl Ray {
    /// Raw `x` of the far end. For a sloped ray it lies `length / sqrt(1 +
    /// slope^2)` beyond the start.
    pub open spec fn end_x(self) -> int {
        match self.line {
            Line::Sloped { slope, y_intercept } => self.start_position.x@ + (self.length@ * UNIT)
                / hypotenuse(slope@),
            Line::Vertical => self.start_position.x@,
        }
    }

    /// Raw `y`, as stored, of the far end. For a sloped ray it lies `length *
    /// slope / sqrt(1 + slope^2)` above the start, for a vertical one
    /// `length` above it; up is towards smaller stored `y`.
    pub open spec fn end_y(self) -> int {
        match self.line {
            Line::Sloped { slope, y_intercept } => self.start_position.y@ - (self.length@ * slope@)
                / hypotenuse(slope@),
            Line::Vertical => self.start_position.y@ - self.length@,
        }
    }

    /// The point with raw stored coordinates `x` and `y` lies inside the box
    /// spanned by the ray's two ends, and not on its border.
    pub open spec fn boxes(self, x: int, y: int) -> bool {
        strictly_between(x, self.start_position.x@, self.end_x()) && strictly_between(
            y,
            self.start_position.y@,
            self.end_y(),
        )
    }

    /// What `contains` decides. On a sloped ray the point has to meet the
    /// line's equation to within `EPSILON`; on a vertical one it has to share
    /// the ray's `x` and lie strictly between its two ends.
    pub open spec fn contains_spec(self, point: Vec2d) -> bool {
        match self.line {
            Line::Sloped { slope, y_intercept } => {
                let expected = product(slope@, point.x@) + y_intercept@;
                -EPSILON <= -point.y@ - expected <= EPSILON
            },
            Line::Vertical => point.x@ == self.start_position.x@ && strictly_between(
                point.y@,
                self.start_position.y@,
                self.end_y(),
            ),
        }
    }

    /// What `overlap` decides: the boxes spanned by the two pairs of ends
    /// share a point on both axes.
    pub open spec fn overlap_spec(
        start_pos1: Vec2d,
        start_pos2: Vec2d,
        final_pos1: Vec2d,
        final_pos2: Vec2d,
    ) -> bool {
        spans_meet(start_pos1.x@, final_pos1.x@, start_pos2.x@, final_pos2.x@) && spans_meet(
            start_pos1.y@,
            final_pos1.y@,
            start_pos2.y@,
            final_pos2.y@,
        )
    }

    /// Whether the slopes `m1` and `m2` are taken to be the same.
    pub open spec fn parallel(m1: int, m2: int) -> bool {
        -EPSILON <= m1 - m2 <= EPSILON
    }

    /// Raw `x` at which the lines `y = m1 * x + b1` and `y = m2 * x + b2`
    /// cross.
    pub open spec fn crossing_x(m1: int, b1: int, m2: int, b2: int) -> int {
        ((b2 - b1) * UNIT) / (m1 - m2)
    }

    /// Raw height of the line `y = m * x + b` at `x`.
    pub open spec fn height_at(m: int, b: int, x: int) -> int {
        product(m, x) + b
    }

    /// What `intersects` returns.
    ///
    /// Two sloped rays whose slopes differ by more than `EPSILON` meet where
    /// their lines cross, if that point lies inside the boxes of both rays.
    /// Two sloped rays that run parallel meet if their boxes overlap, and the
    /// point reported is then the difference of their far ends. A sloped and a
    /// vertical ray meet where the sloped line passes the vertical one's `x`,
    /// if that point lies inside the box of the sloped ray and strictly
    /// between the ends of the vertical one. Two vertical rays never meet.
    /// A point whose coordinates cannot be held is no point.
    pub open spec fn intersects_spec(self, other: Ray) -> Option<Vec2d> {
        match (self.line, other.line) {
            (
                Line::Sloped { slope: m1, y_intercept: b1 },
                Line::Sloped { slope: m2, y_intercept: b2 },
            ) => {
                if Ray::parallel(m1@, m2@) {
                    if spans_meet(
                        self.start_position.x@,
                        self.end_x(),
                        other.start_position.x@,
                        other.end_x(),
                    ) && spans_meet(
                        self.start_position.y@,
                        self.end_y(),
                        other.start_position.y@,
                        other.end_y(),
                    ) {
                        located(other.end_x() - self.end_x(), other.end_y() - self.end_y())
                    } else {
                        None
                    }
                } else {
                    let x = Ray::crossing_x(m1@, b1@, m2@, b2@);
                    let y = -Ray::height_at(m1@, b1@, x);
                    if self.boxes(x, y) && other.boxes(x, y) {
                        located(x, y)
                    } else {
                        None
                    }
                }
            },
            (Line::Sloped { slope, y_intercept }, Line::Vertical) => self.meets_upright(other),
            (Line::Vertical, Line::Sloped { slope, y_intercept }) => other.meets_upright(self),
            (Line::Vertical, Line::Vertical) => None,
        }
    }

    /// Where this sloped ray meets the vertical ray `upright`.
    pub open spec fn meets_upright(self, upright: Ray) -> Option<Vec2d> {
        match self.line {
            Line::Sloped { slope, y_intercept } => {
                let x = upright.start_position.x@;
                let y = -Ray::height_at(slope@, y_intercept@, x);
                if self.boxes(x, y) && strictly_between(
                    y,
                    upright.start_position.y@,
                    upright.end_y(),
                ) {
                    located(x, y)
                } else {
                    None
                }
            },
            Line::Vertical => None,
        }
    }

    /// The edge that runs from `from` to `to`: it starts at `from` and goes
    /// along the line through both points. Where the two share their `x`, or
    /// the slope or the intercept of that line cannot be held, the edge is
    /// vertical.
    pub open spec fn edge_spec(from: Vec2d, to: Vec2d, length: Scalar) -> Ray {
        let run = to.x@ - from.x@;
        let rise = from.y@ - to.y@;
        let slope = ratio(rise, run);
        let y_intercept = -from.y@ - product(slope, from.x@);
        let line = if run != 0 && fits(slope) && fits(y_intercept) {
            Line::Sloped { slope: scalar(slope), y_intercept: scalar(y_intercept) }
        } else {
            Line::Vertical
        };
        Ray { line, start_position: from, length }
    }

    /// Index of the vertex that follows vertex `i` around a figure of `n`
    /// vertices.
    pub open spec fn next_vertex(i: int, n: int) -> int {
        if i + 1 == n {
            0
        } else {
            i + 1
        }
    }

    /// A ray with the given line, start and length; no slope makes it
    /// vertical.
    pub fn new(
        slope: Option<Scalar>,
        y_intercept: Option<Scalar>,
        start_position: Vec2d,
        length: Scalar,
    ) -> (ray: Ray)
        requires
            slope.is_some() ==> y_intercept.is_some(),
        ensures
            ray.start_position == start_position,
            ray.length == length,
            slope.is_some() ==> ray.line == (Line::Sloped {
                slope: slope.unwrap(),
                y_intercept: y_intercept.unwrap(),
            }),
            slope.is_none() ==> ray.line == Line::Vertical,
    {
        let line = match slope {
            Some(m) => match y_intercept {
                Some(b) => Line::Sloped { slope: m, y_intercept: b },
                None => Line::Vertical,
            },
            None => Line::Vertical,
        };
        Ray { line, start_position, length }
    }

    /// The vertical ray that leaves `start_position`.
    pub fn vertical_line(start_position: Vec2d, ray_length: Scalar) -> (ray: Ray)
        ensures
            ray == (Ray { line: Line::Vertical, start_position, length: ray_length }),
    {
        Ray::new(None, None, start_position, ray_length)
    }

    /// The edge that runs from `from` to `to`.
    pub fn edge(from: &Vec2d, to: &Vec2d, length: Scalar) -> (ray: Ray)
        ensures
            ray == Ray::edge_spec(*from, *to, length),
    {
        let run: i128 = to.x.raw as i128 - from.x.raw as i128;
        let rise: i128 = from.y.raw as i128 - to.y.raw as i128;
        if run == 0 {
            return Ray::vertical_line(*from, length);
        }
        assert(rise * UNIT == rise * 1_000_000) by (nonlinear_arith)
            requires
                UNIT == 1_000_000,
        ;
        let slope = match narrow(wide_quotient(rise * (UNIT as i128), run)) {
            Some(m) => m,
            None => {
                return Ray::vertical_line(*from, length);
            },
        };
        let wide: i128 = -(from.y.raw as i128) - wide_product(slope.raw, from.x.raw);
        match narrow(wide) {
            Some(y_intercept) => Ray::new(Some(slope), Some(y_intercept), *from, length),
            None => Ray::vertical_line(*from, length),
        }
    }

    /// The edges of the figure with the given vertices, in their order: edge
    /// `i` runs from vertex `i` to the vertex after it, the last one back to
    /// the first, and has the length `edge_lengths[i]`.
    pub fn from_vertices(vertices: &[Vec2d], edge_lengths: Vec<Scalar>) -> (edges: Vec<Ray>)
        requires
            edge_lengths.len() >= vertices.len(),
        ensures
            edges.len() == vertices.len(),
            forall|i: int|
                0 <= i < vertices.len() ==> #[trigger] edges[i] == Ray::edge_spec(
                    vertices[i],
                    vertices[Ray::next_vertex(i, vertices.len() as int)],
                    edge_lengths[i],
                ),
    {
        let n = vertices.len();
        let mut edges: Vec<Ray> = Vec::new();
        let mut i: usize = 0;
        while i < n
            invariant
                n == vertices.len(),
                edge_lengths.len() >= n,
                i <= n,
                edges.len() == i,
                forall|k: int|
                    0 <= k < i ==> #[trigger] edges[k] == Ray::edge_spec(
                        vertices[k],
                        vertices[Ray::next_vertex(k, n as int)],
                        edge_lengths[k],
                    ),
            decreases n - i,
        {
            let next: usize = if i + 1 == n { 0 } else { i + 1 };
            edges.push(Ray::edge(&vertices[i], &vertices[next], edge_lengths[i]));
            i += 1;
        }
        edges
    }

    /// Whether the boxes spanned by two rays, each given by its two ends,
    /// overlap. This looks at the boxes only, not at the segments in them.
    pub fn overlap(
        start_pos1: &Vec2d,
        start_pos2: &Vec2d,
        final_pos1: &Vec2d,
        final_pos2: &Vec2d,
    ) -> (hit: bool)
        ensures
            hit == Ray::overlap_spec(*start_pos1, *start_pos2, *final_pos1, *final_pos2),
    {
        wide_spans_meet(
            start_pos1.x.raw as i128,
            final_pos1.x.raw as i128,
            start_pos2.x.raw as i128,
            final_pos2.x.raw as i128,
        ) && wide_spans_meet(
            start_pos1.y.raw as i128,
            final_pos1.y.raw as i128,
            start_pos2.y.raw as i128,
            final_pos2.y.raw as i128,
        )
    }

    /// Whether `point` lies on the ray.
    pub fn contains(&self, point: Vec2d) -> (on: bool)
        ensures
            on == self.contains_spec(point),
    {
        match self.line {
            Line::Sloped { slope, y_intercept } => {
                let expected: i128 = wide_height_at(slope, y_intercept, point.x.raw as i128);
                let gap: i128 = -(point.y.raw as i128) - expected;
                -(EPSILON as i128) <= gap && gap <= EPSILON as i128
            },
            Line::Vertical => {
                let far: i128 = self.start_position.y.raw as i128 - self.length.raw as i128;
                point.x.raw == self.start_position.x.raw && wide_strictly_between(
                    point.y.raw as i128,
                    self.start_position.y.raw as i128,
                    far,
                )
            },
        }
    }

    /// Where this ray meets `other`, if it does.
    pub fn intersects(&self, other: &Ray) -> (hit: Option<Vec2d>)
        ensures
            hit == self.intersects_spec(*other),
    {
        match self.line {
            Line::Sloped { slope: m1, y_intercept: b1 } => match other.line {
                Line::Sloped { slope: m2, y_intercept: b2 } => {
                    let (end_x1, end_y1) = self.far_end();
                    let (end_x2, end_y2) = other.far_end();
                    let start_x1 = self.start_position.x.raw as i128;
                    let start_y1 = self.start_position.y.raw as i128;
                    let start_x2 = other.start_position.x.raw as i128;
                    let start_y2 = other.start_position.y.raw as i128;
                    let gap: i128 = m1.raw as i128 - m2.raw as i128;
                    if -(EPSILON as i128) <= gap && gap <= EPSILON as i128 {
                        if wide_spans_meet(start_x1, end_x1, start_x2, end_x2) && wide_spans_meet(
                            start_y1,
                            end_y1,
                            start_y2,
                            end_y2,
                        ) {
                            locate(end_x2 - end_x1, end_y2 - end_y1)
                        } else {
                            None
                        }
                    } else {
                        assert((b2@ - b1@) * UNIT == (b2@ - b1@) * 1_000_000) by (nonlinear_arith)
                            requires
                                UNIT == 1_000_000,
                        ;
                        let lift: i128 = (b2.raw as i128 - b1.raw as i128) * (UNIT as i128);
                        let x = wide_quotient(lift, gap);
                        if wide_strictly_between(x, start_x1, end_x1) && wide_strictly_between(
                            x,
                            start_x2,
                            end_x2,
                        ) {
                            let y: i128 = -wide_height_at(m1, b1, x);
                            if wide_strictly_between(y, start_y1, end_y1) && wide_strictly_between(
                                y,
                                start_y2,
                                end_y2,
                            ) {
                                locate(x, y)
                            } else {
                                None
                            }
                        } else {
                            None
                        }
                    }
                },
                Line::Vertical => self.crosses_upright(other),
            },
            Line::Vertical => match other.line {
                Line::Sloped { slope, y_intercept } => other.crosses_upright(self),
                Line::Vertical => None,
            },
        }
    }

    /// Where this sloped ray meets the vertical ray `upright`.
    fn crosses_upright(&self, upright: &Ray) -> (hit: Option<Vec2d>)
        requires
            self.line is Sloped,
            upright.line is Vertical,
        ensures
            hit == self.meets_upright(*upright),
    {
        match self.line {
            Line::Sloped { slope, y_intercept } => {
                let (end_x, end_y) = self.far_end();
                let (_, far_y) = upright.far_end();
                let x = upright.start_position.x.raw as i128;
                let y: i128 = -wide_height_at(slope, y_intercept, x);
                if wide_strictly_between(x, self.start_position.x.raw as i128, end_x)
                    && wide_strictly_between(y, self.start_position.y.raw as i128, end_y)
                    && wide_strictly_between(y, upright.start_position.y.raw as i128, far_y) {
                    locate(x, y)
                } else {
                    None
                }
            },
            Line::Vertical => None,
        }
    }

    /// The far end of the ray, as wide raw coordinates.
    fn far_end(&self) -> (end: (i128, i128))
        ensures
            end.0 == self.end_x(),
            end.1 == self.end_y(),
            -0x1_0000_0000_0000_0000 <= end.0 <= 0x1_0000_0000_0000_0000,
            -0x1_0000_0000_0000_0000 <= end.1 <= 0x1_0000_0000_0000_0000,
    {
        let start_x = self.start_position.x.raw as i128;
        let start_y = self.start_position.y.raw as i128;
        let length = self.length.raw as i128;
        match self.line {
            Line::Sloped { slope, y_intercept } => {
                let m = slope.raw as i128;
                proof {
                    lemma_product_bound(slope@, slope@);
                    lemma_product_bound(self.length@, slope@);
                    assert(UNIT * UNIT == 1_000_000_000_000) by (nonlinear_arith)
                        requires
                            UNIT == 1_000_000,
                    ;
                    assert(slope@ * slope@ >= 0) by (nonlinear_arith);
                    assert(self.length@ * UNIT == self.length@ * 1_000_000) by (nonlinear_arith)
                        requires
                            UNIT == 1_000_000,
                    ;
                }
                let square: i128 = (UNIT as i128) * (UNIT as i128) + m * m;
                let side = floor_root(square as u128) as i128;
                proof {
                    lemma_hypotenuse_bounds(slope@, side as int);
                    lemma_quotient_within(self.length@, UNIT as int, side as int);
                    lemma_quotient_within(self.length@, slope@, side as int);
                }
                let run = wide_quotient(length * (UNIT as i128), side);
                let rise = wide_quotient(length * m, side);
                (start_x + run, start_y - rise)
            },
            Line::Vertical => (start_x, start_y - length),
        }
    }
}

/// Exact form of `strictly_between` on wide integers.
fn wide_strictly_between(v: i128, a: i128, b: i128) -> (r: bool)
    ensures
        r == strictly_between(v as int, a as int, b as int),
{
    (a < v && v < b) || (b < v && v < a)
}

/// Exact form of `spans_meet` on wide integers.
fn wide_spans_meet(a0: i128, a1: i128, b0: i128, b1: i128) -> (r: bool)
    ensures
        r == spans_meet(a0 as int, a1 as int, b0 as int, b1 as int),
{
    let a_low = if a0 <= a1 { a0 } else { a1 };
    let a_high = if a0 <= a1 { a1 } else { a0 };
    let b_low = if b0 <= b1 { b0 } else { b1 };
    let b_high = if b0 <= b1 { b1 } else { b0 };
    a_low <= b_high && b_low <= a_high
}

/// A product of a raw count and a wide integer of at most 65 bits stays
/// within 127 bits.
proof fn lemma_wide_product_bound(m: int, x: int)
    requires
        fits(m),
        -0x1_0000_0000_0000_0000 < x < 0x1_0000_0000_0000_0000,
    ensures
        -0x8000_0000_0000_0000_0000_0000_0000_0000 < m * x < 0x8000_0000_0000_0000_0000_0000_0000_0000,
{
    assert(-0x8000_0000_0000_0000_0000_0000_0000_0000 < m * x
        < 0x8000_0000_0000_0000_0000_0000_0000_0000) by (nonlinear_arith)
        requires
            -0x8000_0000_0000_0000 <= m <= 0x7fff_ffff_ffff_ffff,
            -0xffff_ffff_ffff_ffff <= x <= 0xffff_ffff_ffff_ffff,
    {
        if m >= 0 && x >= 0 {
            assert(m * x <= 0x7fff_ffff_ffff_ffff * 0xffff_ffff_ffff_ffff);
        } else if m < 0 && x < 0 {
            assert((-m) * (-x) <= 0x8000_0000_0000_0000 * 0xffff_ffff_ffff_ffff);
        } else if m < 0 {
            assert((-m) * x <= 0x8000_0000_0000_0000 * 0xffff_ffff_ffff_ffff);
        } else {
            assert(m * (-x) <= 0x7fff_ffff_ffff_ffff * 0xffff_ffff_ffff_ffff);
        }
    }
}

/// Height of the line with the given slope and intercept at the wide raw
/// `x`.
fn wide_height_at(slope: Scalar, y_intercept: Scalar, x: i128) -> (y: i128)
    requires
        -0x1_0000_0000_0000_0000 < x < 0x1_0000_0000_0000_0000,
    ensures
        y == Ray::height_at(slope@, y_intercept@, x as int),
        -0x1_0000_0000_0000_0000_0000_0000_0000 < y < 0x1_0000_0000_0000_0000_0000_0000_0000,
{
    proof {
        lemma_wide_product_bound(slope@, x as int);
        lemma_quotient_bound(slope@ * x as int, UNIT as int);
    }
    let wide: i128 = (slope.raw as i128) * x;
    let scaled = wide_quotient(wide, UNIT as i128);
    assert(-0x80_0000_0000_0000_0000_0000_0000_0000 < scaled
        < 0x80_0000_0000_0000_0000_0000_0000_0000) by {
        assert(UNIT == 1_000_000);
        assert(scaled == wide as int / 1_000_000);
    }
    scaled + y_intercept.raw as i128
}


/// The shape of a hitbox: its vertices are the nose, half a height above the
/// centre, and the right and left corner of the base, half a height below it
/// and half a width to either side, each handed to `Vec2d::new`; its edges
/// leave the vertices in this order and are as long as a side, the base and a
/// side, where a side is `sqrt((width / 2)^2 + height^2)` rounded down.
pub proof fn lemma_hitbox_shape(hitbox: Triangle, center: Vec2d, size: (Scalar, Scalar))
    requires
        hitbox.built_around(center, size),
        Triangle::fits_around(center, size),
    ensures
        hitbox.vertices[0] == Vec2d::drawn(center.x@, center.y@ + size.1@ / 2),
        hitbox.vertices[1] == Vec2d::drawn(center.x@ + size.0@ / 2, center.y@ - size.1@ / 2),
        hitbox.vertices[2] == Vec2d::drawn(center.x@ - size.0@ / 2, center.y@ - size.1@ / 2),
        forall|i: int| 0 <= i < 3 ==> (#[trigger] hitbox.edges[i]).start_position == hitbox.vertices[i],
        hitbox.edges[0].length@ == Triangle::side_spec(size.0@, size.1@),
        hitbox.edges[1].length == size.0,
        hitbox.edges[2].length@ == Triangle::side_spec(size.0@, size.1@),
        is_root(
            (size.0@ / 2) * (size.0@ / 2) + size.1@ * size.1@,
            Triangle::side_spec(size.0@, size.1@),
        ),
{
    let square = (size.0@ / 2) * (size.0@ / 2) + size.1@ * size.1@;
    assert(hitbox.edges[0] == Ray::edge_spec(
        hitbox.vertices[0],
        hitbox.vertices[Ray::next_vertex(0, 3)],
        Triangle::edge_lengths(size)[0],
    ));
    assert(hitbox.edges[1] == Ray::edge_spec(
        hitbox.vertices[1],
        hitbox.vertices[Ray::next_vertex(1, 3)],
        Triangle::edge_lengths(size)[1],
    ));
    assert(hitbox.edges[2] == Ray::edge_spec(
        hitbox.vertices[2],
        hitbox.vertices[Ray::next_vertex(2, 3)],
        Triangle::edge_lengths(size)[2],
    ));
    assert(square >= 0) by (nonlinear_arith)
        requires
            square == (size.0@ / 2) * (size.0@ / 2) + size.1@ * size.1@,
    ;
    lemma_root_exists(square);
}

/// Two sloped rays whose slopes differ by more than `EPSILON` meet exactly
/// where their lines cross, if that point lies inside the boxes of both and
/// can be held, and nowhere else.
pub proof fn lemma_rays_meet_where_lines_cross(first: Ray, second: Ray)
    requires
        first.line is Sloped,
        second.line is Sloped,
        !Ray::parallel(first.line->slope@, second.line->slope@),
    ensures
        ({
            let x = Ray::crossing_x(
                first.line->slope@,
                first.line->y_intercept@,
                second.line->slope@,
                second.line->y_intercept@,
            );
            let y = -Ray::height_at(first.line->slope@, first.line->y_intercept@, x);
            let inside = first.boxes(x, y) && second.boxes(x, y) && fits(x) && fits(y);
            &&& inside ==> first.intersects_spec(second) == Some(
                Vec2d { x: scalar(x), y: scalar(y) },
            )
            &&& !inside ==> first.intersects_spec(second).is_none()
        }),
{
}

/// Two vertical rays never meet, wherever they are.
pub proof fn lemma_upright_rays_never_meet(first: Ray, second: Ray)
    requires
        first.line is Vertical,
        second.line is Vertical,
    ensures
        first.intersects_spec(second).is_none(),
{
}

/// The vector with the wide raw components `x` and `y`, if it can be held.
fn locate(x: i128, y: i128) -> (r: Option<Vec2d>)
    ensures
        r == located(x as int, y as int),
{
    match narrow(x) {
        Some(px) => match narrow(y) {
            Some(py) => Some(Vec2d { x: px, y: py }),
            None => None,
        },
        None => None,
    }
}

/// The hypotenuse over a run of one and a rise of `m` is at least as long as
/// either.
proof fn lemma_hypotenuse_bounds(m: int, side: int)
    requires
        is_root(UNIT * UNIT + m * m, side),
    ensures
        side == hypotenuse(m),
        side >= UNIT,
        side >= m,
        side >= -m,
{
    lemma_root_unique(UNIT * UNIT + m * m, side);
    assert(side >= UNIT && side >= m && side >= -m) by (nonlinear_arith)
        requires
            0 <= side,
            UNIT * UNIT + m * m < (side + 1) * (side + 1),
            UNIT == 1_000_000,
    {
        if side < UNIT {
            assert((side + 1) * (side + 1) <= UNIT * UNIT);
            assert(m * m >= 0);
        }
        if side < m {
            assert((side + 1) * (side + 1) <= m * m);
        }
        if side < -m {
            assert((side + 1) * (side + 1) <= (-m) * (-m));
            assert((-m) * (-m) == m * m);
        }
    }
}

} // verus!
