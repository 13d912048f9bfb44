use core::marker::PhantomData;
use vstd::prelude::*;

verus! {

/// Geometry is measured in fixed-point scalars: `PX_ONE` units are one
/// pixel (or, for normalized texture coordinates, the whole texture side).
pub const PX_ONE: i64 = 65536;

/// Bound on every coordinate held by the pipeline, in fixed-point units.
/// Generous enough for any screen or texture, small enough that sums and
/// differences of a few coordinates never overflow `i64`.
pub const COORD_LIMIT: i64 = 0x4000_0000_0000;

/// A coordinate small enough to be translated and subtracted without
/// overflow.
pub open spec fn coord_ok(v: i64) -> bool {
    -COORD_LIMIT <= v && v <= COORD_LIMIT
}

/// Bounds a quotient from bounds on the dividend: if `lo * d <= v <= hi * d`
/// then `lo <= v / d <= hi` (division rounding toward negative infinity).
pub proof fn lemma_div_range(v: int, d: int, lo: int, hi: int)
    requires
        0 < d,
        lo * d <= v <= hi * d,
    ensures
        lo <= v / d <= hi,
{
    vstd::arithmetic::div_mod::lemma_div_is_ordered(lo * d, v, d);
    vstd::arithmetic::div_mod::lemma_div_is_ordered(v, hi * d, d);
    vstd::arithmetic::div_mod::lemma_div_multiples_vanish(lo, d);
    vstd::arithmetic::div_mod::lemma_div_multiples_vanish(hi, d);
    assert(lo * d == d * lo && hi * d == d * hi) by (nonlinear_arith);
}

/// A point in the plane, tagged by the coordinate space `S`.
pub struct Point<S> {
    pub x: i64,
    pub y: i64,
    pub space: PhantomData<S>,
}

/// A displacement in the plane, tagged by the coordinate space `S`.
pub struct Vector<S> {
    pub x: i64,
    pub y: i64,
    pub space: PhantomData<S>,
}

/// Extents of a rectangle, tagged by the coordinate space `S`.
pub struct Size<S> {
    pub width: i64,
    pub height: i64,
    pub space: PhantomData<S>,
}

/// An axis-aligned rectangle spanning `min..max` on both axes.
pub struct Rect<S> {
    pub min: Point<S>,
    pub max: Point<S>,
}

impl<S> Clone for Point<S> {
    fn clone(&self) -> (r: Self)
        ensures
            r == *self,
    {
        Point { x: self.x, y: self.y, space: PhantomData }
    }
}

impl<S> Copy for Point<S> {

}

impl<S> Clone for Vector<S> {
    fn clone(&self) -> (r: Self)
        ensures
            r == *self,
    {
        Vector { x: self.x, y: self.y, space: PhantomData }
    }
}

impl<S> Copy for Vector<S> {

}

impl<S> Clone for Size<S> {
    fn clone(&self) -> (r: Self)
        ensures
            r == *self,
    {
        Size { width: self.width, height: self.height, space: PhantomData }
    }
}

impl<S> Copy for Size<S> {

}

impl<S> Clone for Rect<S> {
    fn clone(&self) -> (r: Self)
        ensures
            r == *self,
    {
        Rect { min: self.min.clone(), max: self.max.clone() }
    }
}

impl<S> Copy for Rect<S> {

}

impl<S> Point<S> {
    pub open spec fn wf(self) -> bool {
        coord_ok(self.x) && coord_ok(self.y)
    }

    pub fn new(x: i64, y: i64) -> (p: Point<S>)
        ensures
            p.x == x,
            p.y == y,
    {
        Point { x, y, space: PhantomData }
    }

    pub fn zero() -> (p: Point<S>)
        ensures
            p.x == 0,
            p.y == 0,
    {
        Point { x: 0, y: 0, space: PhantomData }
    }

    pub fn eq_point(&self, other: &Point<S>) -> (r: bool)
        ensures
            r == (*self == *other),
    {
        let r = self.x == other.x && self.y == other.y;
        proof {
            assert(Point { x: self.x, y: self.y, space: PhantomData::<S> } == *self);
            assert(Point { x: other.x, y: other.y, space: PhantomData::<S> } == *other);
        }
        r
    }

    /// The displacement that carries the origin to this point.
    pub fn to_vector(&self) -> (v: Vector<S>)
        ensures
            v.x == self.x,
            v.y == self.y,
    {
        Vector { x: self.x, y: self.y, space: PhantomData }
    }

    pub fn add_vector(&self, by: Vector<S>) -> (p: Point<S>)
        requires
            self.wf(),
            by.wf(),
        ensures
            p.x == self.x + by.x,
            p.y == self.y + by.y,
    {
        Point { x: self.x + by.x, y: self.y + by.y, space: PhantomData }
    }
}

impl<S> Vector<S> {
    pub open spec fn wf(self) -> bool {
        coord_ok(self.x) && coord_ok(self.y)
    }

    pub fn new(x: i64, y: i64) -> (v: Vector<S>)
        ensures
            v.x == x,
            v.y == y,
    {
        Vector { x, y, space: PhantomData }
    }
}

impl<S> Size<S> {
    pub open spec fn wf(self) -> bool {
        0 <= self.width <= COORD_LIMIT && 0 <= self.height <= COORD_LIMIT
    }

    pub fn new(width: i64, height: i64) -> (s: Size<S>)
        ensures
            s.width == width,
            s.height == height,
    {
        Size { width, height, space: PhantomData }
    }
}

impl<S> Rect<S> {
    pub open spec fn wf(self) -> bool {
        self.min.wf() && self.max.wf()
    }

    /// A point lies strictly inside the rectangle.
    pub open spec fn spec_contains(self, x: int, y: int) -> bool {
        self.min.x <= x < self.max.x && self.min.y <= y < self.max.y
    }

    /// The rectangle covers no area.
    pub open spec fn spec_is_empty(self) -> bool {
        self.max.x <= self.min.x || self.max.y <= self.min.y
    }

    pub fn new(min: Point<S>, max: Point<S>) -> (r: Rect<S>)
        ensures
            r.min == min,
            r.max == max,
    {
        Rect { min, max }
    }

    pub fn from_origin_and_size(origin: Point<S>, size: Size<S>) -> (r: Rect<S>)
        requires
            origin.wf(),
            size.wf(),
        ensures
            r.min == origin,
            r.max.x == origin.x + size.width,
            r.max.y == origin.y + size.height,
    {
        Rect {
            min: origin,
            max: Point { x: origin.x + size.width, y: origin.y + size.height, space: PhantomData },
        }
    }

    pub fn from_size(size: Size<S>) -> (r: Rect<S>)
        requires
            size.wf(),
        ensures
            r.min.x == 0,
            r.min.y == 0,
            r.max.x == size.width,
            r.max.y == size.height,
    {
        Rect {
            min: Point { x: 0, y: 0, space: PhantomData },
            max: Point { x: size.width, y: size.height, space: PhantomData },
        }
    }

    pub fn is_empty(&self) -> (r: bool)
        ensures
            r == self.spec_is_empty(),
    {
        self.max.x <= self.min.x || self.max.y <= self.min.y
    }

    pub fn eq_rect(&self, other: &Rect<S>) -> (r: bool)
        ensures
            r == (*self == *other),
    {
        let r = self.min.eq_point(&other.min) && self.max.eq_point(&other.max);
        proof {
            assert(Rect { min: self.min, max: self.max } == *self);
            assert(Rect { min: other.min, max: other.max } == *other);
        }
        r
    }

    pub fn translate(&self, by: Vector<S>) -> (r: Rect<S>)
        requires
            self.wf(),
            by.wf(),
        ensures
            r.min.x == self.min.x + by.x,
            r.min.y == self.min.y + by.y,
            r.max.x == self.max.x + by.x,
            r.max.y == self.max.y + by.y,
    {
        Rect { min: self.min.add_vector(by), max: self.max.add_vector(by) }
    }

    pub fn width(&self) -> (w: i64)
        requires
            self.wf(),
        ensures
            w == self.max.x - self.min.x,
    {
        self.max.x - self.min.x
    }

    pub fn height(&self) -> (h: i64)
        requires
            self.wf(),
        ensures
            h == self.max.y - self.min.y,
    {
        self.max.y - self.min.y
    }

    pub fn top_left(&self) -> (p: Point<S>)
        ensures
            p == self.min,
    {
        proof {
            assert(Point { x: self.min.x, y: self.min.y, space: PhantomData::<S> } == self.min);
        }
        Point { x: self.min.x, y: self.min.y, space: PhantomData }
    }

    pub fn top_right(&self) -> (p: Point<S>)
        ensures
            p.x == self.max.x,
            p.y == self.min.y,
    {
        Point { x: self.max.x, y: self.min.y, space: PhantomData }
    }

    pub fn bottom_left(&self) -> (p: Point<S>)
        ensures
            p.x == self.min.x,
            p.y == self.max.y,
    {
        Point { x: self.min.x, y: self.max.y, space: PhantomData }
    }

    pub fn bottom_right(&self) -> (p: Point<S>)
        ensures
            p == self.max,
    {
        proof {
            assert(Point { x: self.max.x, y: self.max.y, space: PhantomData::<S> } == self.max);
        }
        Point { x: self.max.x, y: self.max.y, space: PhantomData }
    }
}

/// A free quadrilateral given by its four corners in winding order.
pub struct Quad<S> {
    pub p0: Point<S>,
    pub p1: Point<S>,
    pub p2: Point<S>,
    pub p3: Point<S>,
}

impl<S> Clone for Quad<S> {
    fn clone(&self) -> (r: Self)
        ensures
            r == *self,
    {
        Quad { p0: self.p0, p1: self.p1, p2: self.p2, p3: self.p3 }
    }
}

impl<S> Copy for Quad<S> {

}

impl<S> Quad<S> {
    pub open spec fn wf(self) -> bool {
        self.p0.wf() && self.p1.wf() && self.p2.wf() && self.p3.wf()
    }

    pub fn new(p0: Point<S>, p1: Point<S>, p2: Point<S>, p3: Point<S>) -> (q: Quad<S>)
        ensures
            q.p0 == p0,
            q.p1 == p1,
            q.p2 == p2,
            q.p3 == p3,
    {
        Quad { p0, p1, p2, p3 }
    }

    /// All four corners at the origin.
    pub fn zero() -> (q: Quad<S>)
        ensures
            q.p0.x == 0 && q.p0.y == 0,
            q.p1.x == 0 && q.p1.y == 0,
            q.p2.x == 0 && q.p2.y == 0,
            q.p3.x == 0 && q.p3.y == 0,
    {
        Quad { p0: Point::zero(), p1: Point::zero(), p2: Point::zero(), p3: Point::zero() }
    }

    /// A quad of the given size, with its first corner at the origin,
    /// corners in clockwise order.
    pub fn from_size(size: Size<S>) -> (q: Quad<S>)
        requires
            size.wf(),
        ensures
            q.p0.x == 0 && q.p0.y == 0,
            q.p1.x == size.width && q.p1.y == 0,
            q.p2.x == size.width && q.p2.y == size.height,
            q.p3.x == 0 && q.p3.y == size.height,
    {
        Quad {
            p0: Point::zero(),
            p1: Point::new(size.width, 0),
            p2: Point::new(size.width, size.height),
            p3: Point::new(0, size.height),
        }
    }

    /// The same quad, translated by a vector.
    pub fn translate(&self, by: Vector<S>) -> (q: Quad<S>)
        requires
            self.wf(),
            by.wf(),
        ensures
            q.p0.x == self.p0.x + by.x && q.p0.y == self.p0.y + by.y,
            q.p1.x == self.p1.x + by.x && q.p1.y == self.p1.y + by.y,
            q.p2.x == self.p2.x + by.x && q.p2.y == self.p2.y + by.y,
            q.p3.x == self.p3.x + by.x && q.p3.y == self.p3.y + by.y,
    {
        Quad {
            p0: self.p0.add_vector(by),
            p1: self.p1.add_vector(by),
            p2: self.p2.add_vector(by),
            p3: self.p3.add_vector(by),
        }
    }
}

} // verus!
