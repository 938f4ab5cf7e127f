//! Integer vectors with two and three components.
use vstd::prelude::*;
use vstd::arithmetic::div_mod::lemma_div_is_ordered;
use vstd::arithmetic::div_mod::lemma_div_multiples_vanish;
use crate::fixed::UNIT;
use crate::fixed::div_floor;
use crate::fixed::is_isqrt;
use crate::fixed::isqrt;
use crate::fixed::isqrt_spec;
use crate::fixed::isqrt_wide;
use crate::fixed::lemma_isqrt_exists;

verus! {

/// A pair of fixed-point scalars.
#[derive(Clone, Copy, Debug, PartialEq, Eq, Structural)]
pub struct Vec2 {
    pub x: i32,
    pub y: i32,
}

/// A triple of fixed-point scalars.
#[derive(Clone, Copy, Debug, PartialEq, Eq, Structural)]
pub struct Vec3 {
    pub x: i32,
    pub y: i32,
    pub z: i32,
}

/// The vector rescaled to length `UNIT`, components rounded down; the zero
/// vector stays as it is.
pub open spec fn normalized(v: Vec3) -> Vec3 {
    if v.length_squared() == 0 {
        v
    } else {
        let len = isqrt_spec(v.length_squared());
        Vec3 {
            x: (v.x * UNIT / len) as i32,
            y: (v.y * UNIT / len) as i32,
            z: (v.z * UNIT / len) as i32,
        }
    }
}

/// A component of a vector is no longer than the vector itself, so scaling it
/// by `UNIT` over the length stays within `[-UNIT, UNIT]`.
proof fn lemma_component_scaled(c: int, rest: int, len: int)
    requires
        0 <= rest,
        is_isqrt(c * c + rest, len),
        len > 0,
    ensures
        -(UNIT as int) <= c * UNIT / len <= UNIT,
{
    assert(-len <= c <= len) by (nonlinear_arith)
        requires
            c * c + rest < (len + 1) * (len + 1),
            0 <= rest,
            0 <= len,
    ;
    assert(-(UNIT as int) * len <= c * UNIT <= UNIT * len) by (nonlinear_arith)
        requires
            -len <= c <= len,
    ;
    lemma_div_is_ordered(-(UNIT as int) * len, c * UNIT, len);
    lemma_div_is_ordered(c * UNIT, UNIT * len, len);
    lemma_div_multiples_vanish(-(UNIT as int), len);
    lemma_div_multiples_vanish(UNIT as int, len);
}

impl Vec2 {
    /// The vector of two components.
    pub fn new(x: i32, y: i32) -> (v: Vec2)
        ensures
            v == (Vec2 { x, y }),
    {
        Vec2 { x, y }
    }
}

impl Vec3 {
    /// The vector of three components.
    pub fn new(x: i32, y: i32, z: i32) -> (v: Vec3)
        ensures
            v == (Vec3 { x, y, z }),
    {
        Vec3 { x, y, z }
    }

    /// The squared Euclidean length.
    pub open spec fn length_squared(self) -> int {
        self.x * self.x + self.y * self.y + self.z * self.z
    }

    /// The Euclidean length, rounded down.
    pub open spec fn length(self) -> int {
        isqrt_spec(self.length_squared())
    }

    /// The squared Euclidean length.
    pub fn magnitude_squared(&self) -> (r: u64)
        ensures
            r == self.length_squared(),
    {
        let x: i64 = self.x as i64;
        let y: i64 = self.y as i64;
        let z: i64 = self.z as i64;
        assert(0 <= x * x <= 0x4000_0000_0000_0000) by (nonlinear_arith)
            requires
                -0x8000_0000 <= x <= 0x8000_0000,
        ;
        assert(0 <= y * y <= 0x4000_0000_0000_0000) by (nonlinear_arith)
            requires
                -0x8000_0000 <= y <= 0x8000_0000,
        ;
        assert(0 <= z * z <= 0x4000_0000_0000_0000) by (nonlinear_arith)
            requires
                -0x8000_0000 <= z <= 0x8000_0000,
        ;
        (x * x) as u64 + (y * y) as u64 + (z * z) as u64
    }

    /// The Euclidean length, rounded down.
    pub fn magnitude(&self) -> (r: u32)
        ensures
            r == self.length(),
            is_isqrt(self.length_squared(), r as int),
    {
        isqrt(self.magnitude_squared())
    }
}

/// A vector of length `UNIT` has no component beyond `UNIT`.
pub proof fn lemma_normalized_bounds(v: Vec3)
    ensures
        -UNIT <= normalized(v).x <= UNIT,
        -UNIT <= normalized(v).y <= UNIT,
        -UNIT <= normalized(v).z <= UNIT,
{
    let len2 = v.length_squared();
    assert(v.x * v.x >= 0) by (nonlinear_arith);
    assert(v.y * v.y >= 0) by (nonlinear_arith);
    assert(v.z * v.z >= 0) by (nonlinear_arith);
    if len2 != 0 {
        lemma_isqrt_exists(len2);
        let len = isqrt_spec(len2);
        assert(len > 0) by (nonlinear_arith)
            requires
                len2 < (len + 1) * (len + 1),
                len2 >= 1,
                len >= 0,
        ;
        lemma_component_scaled(v.x as int, v.y * v.y + v.z * v.z, len);
        lemma_component_scaled(v.y as int, v.x * v.x + v.z * v.z, len);
        lemma_component_scaled(v.z as int, v.x * v.x + v.y * v.y, len);
    } else {
        assert(v.x == 0 && v.y == 0 && v.z == 0) by (nonlinear_arith)
            requires
                v.x * v.x + v.y * v.y + v.z * v.z == 0,
        ;
    }
}

/// Rescales a vector to length `UNIT`; the zero vector is returned unchanged.
pub fn normalize(v: Vec3) -> (r: Vec3)
    ensures
        r == normalized(v),
{
    let len2: u64 = v.magnitude_squared();
    if len2 == 0 {
        return v;
    }
    let len: u32 = isqrt(len2);
    assert(len > 0) by (nonlinear_arith)
        requires
            len2 < (len + 1) * (len + 1),
            len2 >= 1,
            len >= 0,
    ;
    proof {
        assert(v.x * v.x >= 0) by (nonlinear_arith);
        assert(v.y * v.y >= 0) by (nonlinear_arith);
        assert(v.z * v.z >= 0) by (nonlinear_arith);
        lemma_component_scaled(v.x as int, v.y * v.y + v.z * v.z, len as int);
        lemma_component_scaled(v.y as int, v.x * v.x + v.z * v.z, len as int);
        lemma_component_scaled(v.z as int, v.x * v.x + v.y * v.y, len as int);
    }
    let x: i128 = div_floor(v.x as i128 * UNIT as i128, len as i128);
    let y: i128 = div_floor(v.y as i128 * UNIT as i128, len as i128);
    let z: i128 = div_floor(v.z as i128 * UNIT as i128, len as i128);
    Vec3 { x: x as i32, y: y as i32, z: z as i32 }
}

/// The cross product of two vectors, exact.
pub open spec fn cross(a: Vec3, b: Vec3) -> (int, int, int) {
    (a.y * b.z - a.z * b.y, a.z * b.x - a.x * b.z, a.x * b.y - a.y * b.x)
}

/// A triple of wide integers rescaled to length `UNIT`, components rounded
/// down; the zero triple gives the zero vector.
pub open spec fn normalized_wide(v: (int, int, int)) -> Vec3 {
    let len2 = v.0 * v.0 + v.1 * v.1 + v.2 * v.2;
    if len2 == 0 {
        Vec3 { x: 0, y: 0, z: 0 }
    } else {
        let len = isqrt_spec(len2);
        Vec3 { x: (v.0 * UNIT / len) as i32, y: (v.1 * UNIT / len) as i32, z: (v.2 * UNIT / len) as i32 }
    }
}

/// The exact cross product of two vectors.
pub fn cross_product(a: &Vec3, b: &Vec3) -> (r: (i128, i128, i128))
    ensures
        (r.0 as int, r.1 as int, r.2 as int) == cross(*a, *b),
        -0x8000_0000_0000_0000 <= r.0 <= 0x8000_0000_0000_0000,
        -0x8000_0000_0000_0000 <= r.1 <= 0x8000_0000_0000_0000,
        -0x8000_0000_0000_0000 <= r.2 <= 0x8000_0000_0000_0000,
{
    proof {
        crate::fixed::lemma_product_bound(a.y as int, b.z as int);
        crate::fixed::lemma_product_bound(a.z as int, b.y as int);
        crate::fixed::lemma_product_bound(a.z as int, b.x as int);
        crate::fixed::lemma_product_bound(a.x as int, b.z as int);
        crate::fixed::lemma_product_bound(a.x as int, b.y as int);
        crate::fixed::lemma_product_bound(a.y as int, b.x as int);
    }
    (
        a.y as i128 * b.z as i128 - a.z as i128 * b.y as i128,
        a.z as i128 * b.x as i128 - a.x as i128 * b.z as i128,
        a.x as i128 * b.y as i128 - a.y as i128 * b.x as i128,
    )
}

/// Rescales a triple of wide integers to length `UNIT`.
pub fn normalize_wide(v: (i128, i128, i128)) -> (r: Vec3)
    requires
        -0x8000_0000_0000_0000 <= v.0 <= 0x8000_0000_0000_0000,
        -0x8000_0000_0000_0000 <= v.1 <= 0x8000_0000_0000_0000,
        -0x8000_0000_0000_0000 <= v.2 <= 0x8000_0000_0000_0000,
    ensures
        r == normalized_wide((v.0 as int, v.1 as int, v.2 as int)),
        -UNIT <= r.x <= UNIT,
        -UNIT <= r.y <= UNIT,
        -UNIT <= r.z <= UNIT,
{
    let (x, y, z) = v;
    assert(0 <= x * x <= 0x4000_0000_0000_0000_0000_0000_0000_0000) by (nonlinear_arith)
        requires
            -0x8000_0000_0000_0000 <= x <= 0x8000_0000_0000_0000,
    ;
    assert(0 <= y * y <= 0x4000_0000_0000_0000_0000_0000_0000_0000) by (nonlinear_arith)
        requires
            -0x8000_0000_0000_0000 <= y <= 0x8000_0000_0000_0000,
    ;
    assert(0 <= z * z <= 0x4000_0000_0000_0000_0000_0000_0000_0000) by (nonlinear_arith)
        requires
            -0x8000_0000_0000_0000 <= z <= 0x8000_0000_0000_0000,
    ;
    let len2: u128 = (x * x) as u128 + (y * y) as u128 + (z * z) as u128;
    if len2 == 0 {
        return Vec3 { x: 0, y: 0, z: 0 };
    }
    let len: u64 = isqrt_wide(len2);
    assert(len > 0) by (nonlinear_arith)
        requires
            len2 < (len + 1) * (len + 1),
            len2 >= 1,
            len >= 0,
    ;
    proof {
        lemma_component_scaled(x as int, y * y + z * z, len as int);
        lemma_component_scaled(y as int, x * x + z * z, len as int);
        lemma_component_scaled(z as int, x * x + y * y, len as int);
    }
    let rx: i128 = div_floor(x * UNIT as i128, len as i128);
    let ry: i128 = div_floor(y * UNIT as i128, len as i128);
    let rz: i128 = div_floor(z * UNIT as i128, len as i128);
    Vec3 { x: rx as i32, y: ry as i32, z: rz as i32 }
}

} // verus!
