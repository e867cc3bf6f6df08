//! Points, vectors, circles and rectangles on the integer position grid.

use vstd::prelude::*;

verus! {

/// Position units in one display pixel.
pub const UNITS_PER_PIXEL: i32 = 1000;

/// Largest magnitude of a coordinate of a [`Point`], in position units.
pub const COORD_MAX: i32 = 0x2000_0000;

/// A vector in the plane with mathematical integer components.
pub struct Vec2 {
    pub x: int,
    pub y: int,
}

impl Vec2 {
    /// Component-wise difference `self - rhs`.
    pub open spec fn minus(self, rhs: Vec2) -> Vec2 {
        Vec2 { x: self.x - rhs.x, y: self.y - rhs.y }
    }

    /// Scalar product.
    pub open spec fn dot(self, rhs: Vec2) -> int {
        self.x * rhs.x + self.y * rhs.y
    }

    /// Perpendicular dot product: the signed area of the parallelogram
    /// spanned by `self` and `rhs`.
    pub open spec fn perp_dot(self, rhs: Vec2) -> int {
        self.x * rhs.y - self.y * rhs.x
    }

    /// Squared Euclidean length.
    pub open spec fn norm_sq(self) -> int {
        self.x * self.x + self.y * self.y
    }

    /// Whether both components lie within `bound` of zero.
    pub open spec fn within(self, bound: int) -> bool {
        &&& -bound <= self.x <= bound
        &&& -bound <= self.y <= bound
    }
}

/// The integer quotient of `a` by a positive `b`, rounded toward zero.
pub open spec fn div_toward_zero(a: int, b: int) -> int
    recommends
        b > 0,
{
    if a >= 0 {
        a / b
    } else {
        -((-a) / b)
    }
}

/// Products of two vectors within `bound` stay within `2 * bound * bound`.
pub proof fn lemma_product_bounds(a: Vec2, b: Vec2, bound: int)
    requires
        a.within(bound),
        b.within(bound),
    ensures
        -2 * (bound * bound) <= a.dot(b) <= 2 * (bound * bound),
        -2 * (bound * bound) <= a.perp_dot(b) <= 2 * (bound * bound),
        0 <= a.norm_sq() <= 2 * (bound * bound),
{
    lemma_mul_within(a.x, b.x, bound);
    lemma_mul_within(a.y, b.y, bound);
    lemma_mul_within(a.x, b.y, bound);
    lemma_mul_within(a.y, b.x, bound);
    lemma_mul_within(a.x, a.x, bound);
    lemma_mul_within(a.y, a.y, bound);
    assert(a.x * a.x >= 0 && a.y * a.y >= 0) by (nonlinear_arith);
}

/// The product of two integers within `bound` of zero is within
/// `bound * bound` of zero.
pub proof fn lemma_mul_within(a: int, b: int, bound: int)
    requires
        -bound <= a <= bound,
        -bound <= b <= bound,
    ensures
        -(bound * bound) <= a * b <= bound * bound,
{
    assert(-(bound * bound) <= a * b <= bound * bound) by (nonlinear_arith)
        requires
            -bound <= a <= bound,
            -bound <= b <= bound,
    ;
}

/// A position on the screen in position units. Both coordinates lie within
/// `COORD_MAX` of zero.
#[derive(Clone, Copy, Debug, PartialEq, Eq)]
pub struct Point {
    x: i32,
    y: i32,
}

impl View for Point {
    type V = Vec2;

    closed spec fn view(&self) -> Vec2 {
        Vec2 { x: self.x as int, y: self.y as int }
    }
}

impl DeepView for Point {
    type V = Vec2;

    open spec fn deep_view(&self) -> Vec2 {
        self@
    }
}

impl Point {
    #[verifier::type_invariant]
    spec fn inv(self) -> bool {
        self@.within(COORD_MAX as int)
    }

    /// The point `(x, y)` in position units, or `None` when a coordinate is
    /// out of bounds.
    pub fn new(x: i32, y: i32) -> (r: Option<Point>)
        ensures
            r is Some <==> (Vec2 { x: x as int, y: y as int }).within(COORD_MAX as int),
            r matches Some(p) ==> p@ == (Vec2 { x: x as int, y: y as int }),
    {
        if -COORD_MAX <= x && x <= COORD_MAX && -COORD_MAX <= y && y <= COORD_MAX {
            Some(Point { x, y })
        } else {
            None
        }
    }

    /// The point at whole-pixel coordinates `(px, py)`, or `None` when a
    /// coordinate is out of bounds.
    pub fn from_pixels(px: i32, py: i32) -> (r: Option<Point>)
        ensures
            r is Some <==> (Vec2 { x: px * UNITS_PER_PIXEL, y: py * UNITS_PER_PIXEL }).within(
                COORD_MAX as int,
            ),
            r matches Some(p) ==> p@ == (Vec2 {
                x: px * UNITS_PER_PIXEL,
                y: py * UNITS_PER_PIXEL,
            }),
    {
        let x: i64 = px as i64 * UNITS_PER_PIXEL as i64;
        let y: i64 = py as i64 * UNITS_PER_PIXEL as i64;
        let max: i64 = COORD_MAX as i64;
        if -max <= x && x <= max && -max <= y && y <= max {
            Some(Point { x: x as i32, y: y as i32 })
        } else {
            None
        }
    }

    /// Horizontal coordinate in position units.
    pub fn x(&self) -> (r: i32)
        ensures
            r == self@.x,
            self@.within(COORD_MAX as int),
    {
        proof {
            use_type_invariant(self);
        }
        self.x
    }

    /// Vertical coordinate in position units.
    pub fn y(&self) -> (r: i32)
        ensures
            r == self@.y,
            self@.within(COORD_MAX as int),
    {
        proof {
            use_type_invariant(self);
        }
        self.y
    }

    /// The displacement that leads from `from` to `self`.
    pub fn sub(self, from: Point) -> (r: Delta)
        ensures
            r@ == self@.minus(from@),
    {
        proof {
            use_type_invariant(self);
            use_type_invariant(from);
        }
        Delta { dx: self.x as i64 - from.x as i64, dy: self.y as i64 - from.y as i64 }
    }

    /// Two points with the same coordinates are the same point.
    pub proof fn lemma_view_injective(self, other: Point)
        requires
            self@ == other@,
        ensures
            self == other,
    {
    }
}

/// Largest magnitude of a component of a [`Delta`].
pub const DELTA_MAX: i64 = 0x4000_0000;

/// The displacement between two points. Both components lie within
/// `DELTA_MAX` of zero.
#[derive(Clone, Copy, Debug, PartialEq, Eq)]
pub struct Delta {
    dx: i64,
    dy: i64,
}

impl View for Delta {
    type V = Vec2;

    closed spec fn view(&self) -> Vec2 {
        Vec2 { x: self.dx as int, y: self.dy as int }
    }
}

impl Delta {
    #[verifier::type_invariant]
    spec fn inv(self) -> bool {
        self@.within(DELTA_MAX as int)
    }

    /// Horizontal component in position units.
    pub fn dx(&self) -> (r: i64)
        ensures
            r == self@.x,
            self@.within(DELTA_MAX as int),
    {
        proof {
            use_type_invariant(self);
        }
        self.dx
    }

    /// Vertical component in position units.
    pub fn dy(&self) -> (r: i64)
        ensures
            r == self@.y,
            self@.within(DELTA_MAX as int),
    {
        proof {
            use_type_invariant(self);
        }
        self.dy
    }

    /// Scalar product with `rhs`.
    pub fn dot(&self, rhs: &Delta) -> (r: i128)
        ensures
            r == self@.dot(rhs@),
            self@.within(DELTA_MAX as int),
            rhs@.within(DELTA_MAX as int),
    {
        proof {
            use_type_invariant(self);
            use_type_invariant(rhs);
            lemma_mul_within(self.dx as int, rhs.dx as int, DELTA_MAX as int);
            lemma_mul_within(self.dy as int, rhs.dy as int, DELTA_MAX as int);
        }
        self.dx as i128 * rhs.dx as i128 + self.dy as i128 * rhs.dy as i128
    }

    /// Perpendicular dot product with `rhs`.
    pub fn perp_dot(&self, rhs: &Delta) -> (r: i128)
        ensures
            r == self@.perp_dot(rhs@),
            self@.within(DELTA_MAX as int),
            rhs@.within(DELTA_MAX as int),
    {
        proof {
            use_type_invariant(self);
            use_type_invariant(rhs);
            lemma_mul_within(self.dx as int, rhs.dy as int, DELTA_MAX as int);
            lemma_mul_within(self.dy as int, rhs.dx as int, DELTA_MAX as int);
        }
        self.dx as i128 * rhs.dy as i128 - self.dy as i128 * rhs.dx as i128
    }

    /// Squared Euclidean length.
    pub fn length_squared(&self) -> (r: i128)
        ensures
            r == self@.norm_sq(),
            self@.within(DELTA_MAX as int),
    {
        proof {
            use_type_invariant(self);
            lemma_mul_within(self.dx as int, self.dx as int, DELTA_MAX as int);
            lemma_mul_within(self.dy as int, self.dy as int, DELTA_MAX as int);
        }
        self.dx as i128 * self.dx as i128 + self.dy as i128 * self.dy as i128
    }
}

/// A disc on the screen: center `p`, radius `r` in position units.
#[derive(Clone, Copy, Debug, PartialEq, Eq)]
pub struct Circle {
    pub p: Point,
    pub r: u32,
}

impl Circle {
    /// Whether `q` lies strictly inside the disc.
    pub open spec fn covers(self, q: Vec2) -> bool {
        q.minus(self.p@).norm_sq() < self.r * self.r
    }

    /// Whether `q` lies strictly inside the disc.
    pub fn contains(&self, q: Point) -> (inside: bool)
        ensures
            inside == self.covers(q@),
    {
        let d = q.sub(self.p);
        let r = self.r as i128;
        assert(0 <= r * r <= 0x1_0000_0000 * 0x1_0000_0000) by (nonlinear_arith)
            requires
                0 <= r <= 0x1_0000_0000,
        ;
        d.length_squared() < r * r
    }
}

/// An axis-aligned rectangle in layout coordinates: corner `(x, y)`, width
/// `w` and height `h`, in position units.
#[derive(Clone, Copy, Debug, PartialEq, Eq)]
pub struct Rect {
    pub x: i64,
    pub y: i64,
    pub w: i64,
    pub h: i64,
}

impl Rect {
    /// Whether `q` lies in the rectangle, edges included, once the
    /// rectangle is moved down by `scroll`.
    pub open spec fn covers(self, scroll: int, q: Vec2) -> bool {
        &&& self.x <= q.x <= self.x + self.w
        &&& self.y + scroll <= q.y <= self.y + scroll + self.h
    }

    /// Whether `q` lies in the rectangle, edges included, once the
    /// rectangle is moved down by `scroll`.
    pub fn contains(&self, scroll: i64, q: Point) -> (inside: bool)
        ensures
            inside == self.covers(scroll as int, q@),
    {
        let qx = q.x() as i128;
        let qy = q.y() as i128;
        let top = self.y as i128 + scroll as i128;
        self.x as i128 <= qx && qx <= self.x as i128 + self.w as i128 && top <= qy && qy <= top
            + self.h as i128
    }
}

} // verus!
