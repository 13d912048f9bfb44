use crate::math::{COORD_LIMIT, PX_ONE, Point, Quad, Rect, Size, Vector, coord_ok};
use vstd::prelude::*;

verus! {

/// Coordinates in logical pixels, before scaling by the DPI factor.
pub struct LogicalScreenSpace;

/// Coordinates in physical device pixels.
pub struct PhysicalScreenSpace;

/// Texture coordinates where `PX_ONE` spans the whole texture side.
pub struct Normalized;

pub type LogicalPoint = Point<LogicalScreenSpace>;

pub type LogicalVector = Vector<LogicalScreenSpace>;

pub type LogicalSize = Size<LogicalScreenSpace>;

pub type LogicalRect = Rect<LogicalScreenSpace>;

pub type LogicalQuad = Quad<LogicalScreenSpace>;

pub type PhysicalPoint = Point<PhysicalScreenSpace>;

pub type PhysicalVector = Vector<PhysicalScreenSpace>;

pub type PhysicalSize = Size<PhysicalScreenSpace>;

pub type PhysicalRect = Rect<PhysicalScreenSpace>;

pub type NormalizedPoint = Point<Normalized>;

pub type NormalizedRect = Rect<Normalized>;

pub type NormalizedQuad = Quad<Normalized>;

/// A usable DPI scale factor: positive and at most 1024x, in fixed-point
/// units of `PX_ONE`.
pub open spec fn scale_ok(scale: i64) -> bool {
    1 <= scale <= 1024 * PX_ONE
}

/// `v * scale / PX_ONE` stays within the coordinate range.
pub open spec fn scaled_coord_ok(v: i64, scale: i64) -> bool {
    -COORD_LIMIT <= (v as int * scale as int) / (PX_ONE as int) <= COORD_LIMIT
}

/// Checks that a fixed-point scale factor is usable.
pub fn validate_scale_factor(scale: i64) -> (r: bool)
    ensures
        r == scale_ok(scale),
{
    1 <= scale && scale <= 1024 * PX_ONE
}

/// One logical coordinate converted to physical pixels: multiplication by
/// a fixed-point scale factor, rounding toward negative infinity.
pub fn logical_to_physical(v: i64, scale: i64) -> (r: i64)
    requires
        coord_ok(v),
        scale_ok(scale),
        scaled_coord_ok(v, scale),
    ensures
        r == (v as int * scale as int) / (PX_ONE as int),
        coord_ok(r),
{
    let prod: i128 = (v as i128) * (scale as i128);
    let q = match prod.checked_div_euclid(PX_ONE as i128) {
        Some(q) => q,
        None => 0,  // unreachable: the divisor is a positive constant
    };
    assert((PX_ONE as i128) != 0 && i128::MIN <= prod as int / (PX_ONE as int) <= i128::MAX);
    q as i64
}

/// `v * PX_ONE / scale` stays within the coordinate range.
pub open spec fn unscaled_coord_ok(v: i64, scale: i64) -> bool {
    -COORD_LIMIT <= (v as int * PX_ONE as int) / (scale as int) <= COORD_LIMIT
}

/// One physical coordinate converted back to logical pixels: division by
/// the fixed-point scale factor, rounding toward negative infinity.
pub fn physical_to_logical(v: i64, scale: i64) -> (r: i64)
    requires
        coord_ok(v),
        scale_ok(scale),
        unscaled_coord_ok(v, scale),
    ensures
        r == (v as int * PX_ONE as int) / (scale as int),
        coord_ok(r),
{
    let prod: i128 = (v as i128) * (PX_ONE as i128);
    let q = match prod.checked_div_euclid(scale as i128) {
        Some(q) => q,
        None => 0,  // unreachable: the divisor is positive
    };
    assert((scale as i128) != 0 && i128::MIN <= prod as int / (scale as int) <= i128::MAX);
    q as i64
}

/// A scale factor a frame is actually rendered at: between a quarter and
/// sixteen times the native pixel density.
pub open spec fn render_scale_ok(scale: i64) -> bool {
    PX_ONE / 4 <= scale <= 16 * PX_ONE
}

/// A coordinate bounded by `bound` can be scaled by any factor up to
/// `16 * PX_ONE` without leaving the coordinate range, as long as
/// `bound * 16 <= COORD_LIMIT`.
pub proof fn lemma_scaled_coord_ok(v: i64, scale: i64, bound: i64)
    requires
        -bound <= v <= bound,
        0 < scale <= 16 * PX_ONE,
        0 <= bound,
        16 * bound <= COORD_LIMIT,
    ensures
        scaled_coord_ok(v, scale),
        -16 * (bound as int) <= (v as int * scale as int) / (PX_ONE as int) <= 16 * (bound as int),
{
    let p = PX_ONE as int;
    assert(-(bound as int) * (16 * p) <= v as int * scale as int <= (bound as int) * (16 * p))
        by (nonlinear_arith)
        requires
            -bound <= v <= bound,
            0 < scale <= 16 * p,
            0 <= bound,
            p == 65536,
    ;
    vstd::arithmetic::div_mod::lemma_div_is_ordered(
        v as int * scale as int,
        (bound as int) * (16 * p),
        p,
    );
    vstd::arithmetic::div_mod::lemma_div_is_ordered(
        -(bound as int) * (16 * p),
        v as int * scale as int,
        p,
    );
    assert(((bound as int) * (16 * p)) / p == 16 * bound && (-(bound as int) * (16 * p)) / p == -(16
        * bound)) by (nonlinear_arith)
        requires
            p == 65536,
            0 <= bound,
    ;
}

/// A coordinate bounded by `bound` can be divided by any render scale
/// without leaving the coordinate range, as long as `4 * bound` stays
/// within it.
pub proof fn lemma_unscaled_coord_ok(v: i64, scale: i64, bound: i64)
    requires
        -bound <= v <= bound,
        render_scale_ok(scale),
        0 <= bound,
        4 * bound <= COORD_LIMIT,
    ensures
        unscaled_coord_ok(v, scale),
{
    let p = PX_ONE as int;
    let smin = p / 4;
    assert(-(bound as int) * p <= v as int * p <= (bound as int) * p && (bound as int) * p == (4
        * bound) * smin && -((bound as int) * p) == (-(4 * bound)) * smin) by (nonlinear_arith)
        requires
            -bound <= v <= bound,
            0 <= bound,
            p == 65536,
            smin == 16384,
    ;
    assert((4 * bound) * smin <= (4 * bound) * (scale as int) && (-(4 * bound)) * (scale as int)
        <= (-(4 * bound)) * smin) by (nonlinear_arith)
        requires
            smin <= scale,
            0 <= bound,
            smin == 16384,
    ;
    vstd::arithmetic::div_mod::lemma_div_is_ordered(
        v as int * p,
        (4 * bound) * (scale as int),
        scale as int,
    );
    vstd::arithmetic::div_mod::lemma_div_is_ordered(
        (-(4 * bound)) * (scale as int),
        v as int * p,
        scale as int,
    );
    vstd::arithmetic::div_mod::lemma_div_multiples_vanish(4 * bound, scale as int);
    vstd::arithmetic::div_mod::lemma_div_multiples_vanish(-(4 * bound), scale as int);
}

/// UV sources for untextured geometry.
pub trait Uv: Sized {
    /// The value `default_uv` returns.
    spec fn spec_default_uv() -> Self;

    /// The value `white_uv` returns.
    spec fn spec_white_uv() -> Self;

    /// The UV region covering the whole texture.
    fn default_uv() -> (r: Self)
        ensures
            r == Self::spec_default_uv(),
    ;

    /// The UV region of the reserved white pixel at the texture origin.
    fn white_uv() -> (r: Self)
        ensures
            r == Self::spec_white_uv(),
    ;
}

impl Uv for NormalizedPoint {
    open spec fn spec_default_uv() -> Self {
        Point { x: 0, y: 0, space: core::marker::PhantomData }
    }

    open spec fn spec_white_uv() -> Self {
        Point { x: 0, y: 0, space: core::marker::PhantomData }
    }

    fn default_uv() -> (r: Self) {
        Point::zero()
    }

    fn white_uv() -> (r: Self) {
        Point::zero()
    }
}

impl Uv for NormalizedRect {
    open spec fn spec_default_uv() -> Self {
        Rect {
            min: Point { x: 0, y: 0, space: core::marker::PhantomData },
            max: Point { x: PX_ONE as i64, y: PX_ONE as i64, space: core::marker::PhantomData },
        }
    }

    open spec fn spec_white_uv() -> Self {
        Rect {
            min: Point { x: 0, y: 0, space: core::marker::PhantomData },
            max: Point { x: 0, y: 0, space: core::marker::PhantomData },
        }
    }

    fn default_uv() -> (r: Self) {
        Rect::new(Point::zero(), Point::new(PX_ONE, PX_ONE))
    }

    fn white_uv() -> (r: Self) {
        Rect::new(Point::zero(), Point::zero())
    }
}

impl Uv for NormalizedQuad {
    open spec fn spec_default_uv() -> Self {
        Quad {
            p0: Point { x: 0, y: 0, space: core::marker::PhantomData },
            p1: Point { x: PX_ONE as i64, y: 0, space: core::marker::PhantomData },
            p2: Point { x: PX_ONE as i64, y: PX_ONE as i64, space: core::marker::PhantomData },
            p3: Point { x: 0, y: PX_ONE as i64, space: core::marker::PhantomData },
        }
    }

    open spec fn spec_white_uv() -> Self {
        Quad {
            p0: Point { x: 0, y: 0, space: core::marker::PhantomData },
            p1: Point { x: 0, y: 0, space: core::marker::PhantomData },
            p2: Point { x: 0, y: 0, space: core::marker::PhantomData },
            p3: Point { x: 0, y: 0, space: core::marker::PhantomData },
        }
    }

    fn default_uv() -> (r: Self) {
        Quad::new(
            Point::zero(),
            Point::new(PX_ONE, 0),
            Point::new(PX_ONE, PX_ONE),
            Point::new(0, PX_ONE),
        )
    }

    fn white_uv() -> (r: Self) {
        Quad::zero()
    }
}

} // verus!
