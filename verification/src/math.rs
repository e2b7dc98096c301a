//! Integer 2D/3D vectors and the fixed-point scaling primitive used by the
//! motion integrator and the camera.

use vstd::prelude::*;

verus! {

/// Number of milliseconds in one second: rates are per second, elapsed time
/// is in milliseconds, so `rate * dt_ms / MILLIS_PER_SECOND` converts a rate
/// into a change over `dt_ms`.
pub const MILLIS_PER_SECOND: i64 = 1000;

/// A planar vector of whole world units.
#[derive(Clone, Copy, PartialEq, Eq, Structural, Debug)]
pub struct Vec2 {
    pub x: i64,
    pub y: i64,
}

/// A spatial vector: the planar coordinates plus a depth coordinate that the
/// simulation carries through untouched for the renderer.
#[derive(Clone, Copy, PartialEq, Eq, Structural, Debug)]
pub struct Vec3 {
    pub x: i64,
    pub y: i64,
    pub z: i64,
}

/// An axis-aligned bounding box, given by its minimum and maximum corners.
#[derive(Clone, Copy, PartialEq, Eq, Structural, Debug)]
pub struct Aabb2d {
    pub min: Vec2,
    pub max: Vec2,
}

/// Two boxes overlap iff their intervals overlap on both axes; a touching
/// edge (equal bound) counts as overlap.
pub open spec fn aabb_overlaps(a: Aabb2d, b: Aabb2d) -> bool {
    &&& a.min.x <= b.max.x
    &&& a.max.x >= b.min.x
    &&& a.min.y <= b.max.y
    &&& a.max.y >= b.min.y
}

impl Aabb2d {
    /// The standard inclusive AABB intersection test.
    pub fn intersects(&self, other: &Aabb2d) -> (r: bool)
        ensures
            r == aabb_overlaps(*self, *other),
    {
        self.min.x <= other.max.x && self.max.x >= other.min.x && self.min.y <= other.max.y
            && self.max.y >= other.min.y
    }
}

/// The renderable placement of an entity: a translation, and a uniform planar
/// render scale kept as the exact fraction `scale_num / scale_den` (the depth
/// scale is implicitly one).
#[derive(Clone, Copy, PartialEq, Eq, Structural, Debug)]
pub struct Transform {
    pub translation: Vec3,
    pub scale_num: i64,
    pub scale_den: i64,
}

/// Magnitude of an integer.
pub open spec fn abs_int(x: int) -> int {
    if x >= 0 {
        x
    } else {
        -x
    }
}

/// `x * num / den`, truncating toward zero. This is the fixed-point product
/// of a quantity with a fraction, the model of every `value * dt`-style
/// scaling in the simulation.
pub open spec fn scaled(x: int, num: int, den: int) -> int
    recommends
        den >= 1,
{
    if x * num >= 0 {
        (x * num) / den
    } else {
        -((-(x * num)) / den)
    }
}

/// Magnitude of `x` as an unsigned value; well defined even for `i64::MIN`.
pub fn magnitude(x: i64) -> (r: u64)
    ensures
        r == abs_int(x as int),
{
    if x >= 0 {
        x as u64
    } else {
        ((-(x + 1)) as u64) + 1
    }
}

/// Multiplies `x` by the fraction `num / den`, truncating toward zero. The
/// intermediate product is taken at full width, so only the final result must
/// fit in `i64`.
pub fn mul_div(x: i64, num: i64, den: i64) -> (r: i64)
    requires
        den >= 1,
        i64::MIN <= scaled(x as int, num as int, den as int) <= i64::MAX,
    ensures
        r == scaled(x as int, num as int, den as int),
{
    let mx = magnitude(x) as u128;
    let mn = magnitude(num) as u128;
    proof {
        assert(mx * mn <= 0xffff_ffff_ffff_ffffu128 * 0xffff_ffff_ffff_ffffu128)
            by (nonlinear_arith)
            requires
                mx <= 0xffff_ffff_ffff_ffffu128,
                mn <= 0xffff_ffff_ffff_ffffu128,
        ;
    }
    let m: u128 = mx * mn / (den as u128);
    proof {
        assert(abs_int(x as int) * abs_int(num as int) == abs_int(x as int * num as int))
            by (nonlinear_arith);
        assert(m == abs_int(x as int * num as int) / (den as int));
    }
    if (x < 0) == (num < 0) {
        proof {
            assert(x as int * num as int >= 0) by (nonlinear_arith)
                requires
                    (x < 0) == (num < 0),
            ;
            assert(scaled(x as int, num as int, den as int) == m);
        }
        m as i64
    } else {
        proof {
            assert(x as int * num as int <= 0) by (nonlinear_arith)
                requires
                    (x < 0) != (num < 0),
            ;
        }
        if m <= (i64::MAX as u128) {
            proof {
                assert(scaled(x as int, num as int, den as int) == -(m as int));
            }
            -(m as i64)
        } else {
            proof {
                assert(scaled(x as int, num as int, den as int) == -(m as int));
                assert(m == 0x8000_0000_0000_0000u128);
            }
            i64::MIN
        }
    }
}

} // verus!
