//! Three-component vectors of fixed-point values, and their ghost model.

use crate::fixed::{
    add_fix, fadd_s, fmul_s, fsub_s, isqrt, lemma_sqrt_s_unique, mul_fix, sqrt_s, sub_fix, LIMIT,
};
use vstd::prelude::*;

verus! {

/// The mathematical model of a vector: three unbounded integers.
pub ghost struct V3 {
    pub x: int,
    pub y: int,
    pub z: int,
}

/// A vector of three fixed-point components.
#[derive(Clone, Copy, PartialEq, Eq, Structural, Debug)]
pub struct Vec3 {
    pub x: i128,
    pub y: i128,
    pub z: i128,
}

impl View for Vec3 {
    type V = V3;

    open spec fn view(&self) -> V3 {
        V3 { x: self.x as int, y: self.y as int, z: self.z as int }
    }
}

/// The zero vector.
pub open spec fn v3_zero() -> V3 {
    V3 { x: 0, y: 0, z: 0 }
}

/// Every component lies within the representable range.
pub open spec fn in_range_s(v: V3) -> bool {
    &&& -LIMIT <= v.x <= LIMIT
    &&& -LIMIT <= v.y <= LIMIT
    &&& -LIMIT <= v.z <= LIMIT
}

/// Component-wise saturating sum.
pub open spec fn vadd_s(a: V3, b: V3) -> V3 {
    V3 { x: fadd_s(a.x, b.x), y: fadd_s(a.y, b.y), z: fadd_s(a.z, b.z) }
}

/// Component-wise saturating difference.
pub open spec fn vsub_s(a: V3, b: V3) -> V3 {
    V3 { x: fsub_s(a.x, b.x), y: fsub_s(a.y, b.y), z: fsub_s(a.z, b.z) }
}

/// Component-wise fixed-point scaling.
pub open spec fn vscale_s(v: V3, k: int) -> V3 {
    V3 { x: fmul_s(v.x, k), y: fmul_s(v.y, k), z: fmul_s(v.z, k) }
}

/// Component-wise negation.
pub open spec fn vneg_s(v: V3) -> V3 {
    V3 { x: -v.x, y: -v.y, z: -v.z }
}

/// The squared Euclidean length, in raw units squared, without saturation.
pub open spec fn len2_s(v: V3) -> int {
    v.x * v.x + v.y * v.y + v.z * v.z
}

/// The Euclidean length in raw units: the integer square root of `len2_s`.
pub open spec fn len_s(v: V3) -> int {
    sqrt_s(len2_s(v))
}

/// A model vector written back as a concrete one; faithful when in range.
pub open spec fn v3_as_vec3(v: V3) -> Vec3 {
    Vec3 { x: v.x as i128, y: v.y as i128, z: v.z as i128 }
}

impl Vec3 {
    /// The zero vector.
    pub fn zero() -> (r: Vec3)
        ensures
            r@ == v3_zero(),
    {
        Vec3 { x: 0, y: 0, z: 0 }
    }

    /// Builds a vector from its three fixed-point components.
    pub fn new(x: i128, y: i128, z: i128) -> (r: Vec3)
        ensures
            r@ == (V3 { x: x as int, y: y as int, z: z as int }),
    {
        Vec3 { x, y, z }
    }
}

/// Component-wise saturating sum.
pub fn vadd(a: Vec3, b: Vec3) -> (r: Vec3)
    requires
        in_range_s(a@),
        in_range_s(b@),
    ensures
        r@ == vadd_s(a@, b@),
        in_range_s(r@),
{
    Vec3 { x: add_fix(a.x, b.x), y: add_fix(a.y, b.y), z: add_fix(a.z, b.z) }
}

/// Component-wise saturating difference.
pub fn vsub(a: Vec3, b: Vec3) -> (r: Vec3)
    requires
        in_range_s(a@),
        in_range_s(b@),
    ensures
        r@ == vsub_s(a@, b@),
        in_range_s(r@),
{
    Vec3 { x: sub_fix(a.x, b.x), y: sub_fix(a.y, b.y), z: sub_fix(a.z, b.z) }
}

/// Component-wise fixed-point scaling.
pub fn vscale(v: Vec3, k: i128) -> (r: Vec3)
    requires
        in_range_s(v@),
        -LIMIT <= k <= LIMIT,
    ensures
        r@ == vscale_s(v@, k as int),
        in_range_s(r@),
{
    Vec3 { x: mul_fix(v.x, k), y: mul_fix(v.y, k), z: mul_fix(v.z, k) }
}

/// The magnitude of a component, as an unsigned value.
fn mag_u128(a: i128) -> (r: u128)
    requires
        a != i128::MIN,
    ensures
        a >= 0 ==> r == a,
        a < 0 ==> r == -(a as int),
{
    if a >= 0 {
        a as u128
    } else {
        (-a) as u128
    }
}

/// The Euclidean length of a vector, in raw units, rounded down.
pub fn vlen(v: Vec3) -> (r: i128)
    requires
        in_range_s(v@),
    ensures
        r == len_s(v@),
        0 <= r <= 2 * LIMIT,
{
    let mx = mag_u128(v.x);
    let my = mag_u128(v.y);
    let mz = mag_u128(v.z);
    proof {
        assert((mx as int) * (mx as int) == (v.x as int) * (v.x as int)
            && (mx as int) * (mx as int) <= (LIMIT as int) * (LIMIT as int))
            by (nonlinear_arith)
            requires
                mx == (if v.x >= 0 { v.x as int } else { -(v.x as int) }),
                -LIMIT <= v.x <= LIMIT,
        ;
        assert((my as int) * (my as int) == (v.y as int) * (v.y as int)
            && (my as int) * (my as int) <= (LIMIT as int) * (LIMIT as int))
            by (nonlinear_arith)
            requires
                my == (if v.y >= 0 { v.y as int } else { -(v.y as int) }),
                -LIMIT <= v.y <= LIMIT,
        ;
        assert((mz as int) * (mz as int) == (v.z as int) * (v.z as int)
            && (mz as int) * (mz as int) <= (LIMIT as int) * (LIMIT as int))
            by (nonlinear_arith)
            requires
                mz == (if v.z >= 0 { v.z as int } else { -(v.z as int) }),
                -LIMIT <= v.z <= LIMIT,
        ;
    }
    let n: u128 = mx * mx + my * my + mz * mz;
    let r = isqrt(n);
    proof {
        assert(n as int == len2_s(v@));
        lemma_sqrt_s_unique(len2_s(v@), r as int);
        assert(r <= 2 * LIMIT) by (nonlinear_arith)
            requires
                (r as int) * (r as int) <= n as int,
                n as int <= 3 * ((LIMIT as int) * (LIMIT as int)),
                r >= 0,
                LIMIT == 1_000_000_000_000_000i128,
        ;
    }
    r as i128
}

} // verus!
