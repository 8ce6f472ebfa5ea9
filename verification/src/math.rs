//! Fixed-point vectors, quaternions and 4x4 homogeneous matrices.
//!
//! Every scalar is an `i64` holding a fixed-point value: the real number
//! `x` is represented by `x * FP_ONE` rounded toward zero. Products are
//! rescaled by `FP_ONE` and saturate at the `i64` range, so no operation
//! here can overflow or panic.

use vstd::prelude::*;

verus! {

/// The fixed-point unit: the representation of the real number one.
pub const FP_ONE: i64 = 1024;

/// Absolute value, in the mathematical integers.
pub open spec fn abs_int(a: int) -> int {
    if a >= 0 {
        a
    } else {
        -a
    }
}

/// Clamp an unbounded integer into the `i64` range.
pub open spec fn clamp_i64(a: int) -> int {
    if a > i64::MAX as int {
        i64::MAX as int
    } else if a < i64::MIN as int {
        i64::MIN as int
    } else {
        a
    }
}

/// Fixed-point product: `a * b / FP_ONE`, rounded toward zero,
/// saturated at the `i64` range.
pub open spec fn fp_mul_spec(a: int, b: int) -> int {
    let m = (abs_int(a) * abs_int(b)) / (FP_ONE as int);
    if (a < 0) != (b < 0) {
        clamp_i64(-m)
    } else {
        clamp_i64(m)
    }
}

/// Saturating addition on `i64` values.
pub open spec fn sat_add_spec(a: int, b: int) -> int {
    clamp_i64(a + b)
}

/// Saturating subtraction on `i64` values.
pub open spec fn sat_sub_spec(a: int, b: int) -> int {
    clamp_i64(a - b)
}

/// Saturating addition.
pub fn sat_add(a: i64, b: i64) -> (r: i64)
    ensures
        r as int == sat_add_spec(a as int, b as int),
{
    if b > 0 && a > i64::MAX - b {
        i64::MAX
    } else if b < 0 && a < i64::MIN - b {
        i64::MIN
    } else {
        a + b
    }
}

/// Saturating subtraction.
pub fn sat_sub(a: i64, b: i64) -> (r: i64)
    ensures
        r as int == sat_sub_spec(a as int, b as int),
{
    if b < 0 && a > i64::MAX + b {
        i64::MAX
    } else if b > 0 && a < i64::MIN + b {
        i64::MIN
    } else {
        a - b
    }
}

/// Fixed-point multiplication with saturation.
pub fn fp_mul(a: i64, b: i64) -> (r: i64)
    ensures
        r as int == fp_mul_spec(a as int, b as int),
{
    let ua: u64 = if a >= 0 {
        a as u64
    } else {
        (-(a as i128)) as u64
    };
    let ub: u64 = if b >= 0 {
        b as u64
    } else {
        (-(b as i128)) as u64
    };
    assert(ua as int == abs_int(a as int));
    assert(ub as int == abs_int(b as int));
    assert((ua as u128) * (ub as u128) <= u128::MAX) by (nonlinear_arith)
        requires
            ua <= u64::MAX,
            ub <= u64::MAX,
    ;
    let p: u128 = (ua as u128) * (ub as u128);
    let q: u128 = p / (FP_ONE as u128);
    assert(q <= p);
    let neg: bool = (a < 0) != (b < 0);
    if neg {
        let s: i128 = -(q as i128);
        if s < i64::MIN as i128 {
            i64::MIN
        } else {
            s as i64
        }
    } else {
        if q > i64::MAX as u128 {
            i64::MAX
        } else {
            q as i64
        }
    }
}

/// Fixed-point dot product of four term pairs: the saturated sum of the
/// four saturated, rescaled products, accumulated left to right.
pub open spec fn fp_dot4_spec(a0: int, b0: int, a1: int, b1: int, a2: int, b2: int, a3: int, b3: int) -> int {
    sat_add_spec(
        sat_add_spec(
            sat_add_spec(fp_mul_spec(a0, b0), fp_mul_spec(a1, b1)),
            fp_mul_spec(a2, b2),
        ),
        fp_mul_spec(a3, b3),
    )
}

/// Fixed-point dot product of four term pairs.
pub fn fp_dot4(a0: i64, b0: i64, a1: i64, b1: i64, a2: i64, b2: i64, a3: i64, b3: i64) -> (r: i64)
    ensures
        r as int == fp_dot4_spec(a0 as int, b0 as int, a1 as int, b1 as int, a2 as int, b2 as int, a3 as int, b3 as int),
{
    let t01 = sat_add(fp_mul(a0, b0), fp_mul(a1, b1));
    let t012 = sat_add(t01, fp_mul(a2, b2));
    sat_add(t012, fp_mul(a3, b3))
}

/// A three-component fixed-point vector.
#[derive(Clone, Copy, PartialEq, Eq, Structural, Debug)]
pub struct Vector3 {
    pub x: i64,
    pub y: i64,
    pub z: i64,
}

impl Vector3 {
    /// Builds a vector from its three components.
    pub fn new(x: i64, y: i64, z: i64) -> (r: Vector3)
        ensures
            r == (Vector3 { x, y, z }),
    {
        Vector3 { x, y, z }
    }

    /// The zero vector.
    pub fn zero() -> (r: Vector3)
        ensures
            r == (Vector3 { x: 0i64, y: 0i64, z: 0i64 }),
    {
        Vector3 { x: 0, y: 0, z: 0 }
    }

    /// The vector with every component equal to one.
    pub fn one() -> (r: Vector3)
        ensures
            r == (Vector3 { x: FP_ONE, y: FP_ONE, z: FP_ONE }),
    {
        Vector3 { x: FP_ONE, y: FP_ONE, z: FP_ONE }
    }
}

/// A fixed-point quaternion `w + xi + yj + zk`; rotations expect it
/// normalized, with the identity rotation at `w == FP_ONE`.
#[derive(Clone, Copy, PartialEq, Eq, Structural, Debug)]
pub struct Quaternion {
    pub w: i64,
    pub x: i64,
    pub y: i64,
    pub z: i64,
}

impl Quaternion {
    /// Builds a quaternion from its scalar part and its vector part.
    pub fn new(w: i64, v: Vector3) -> (r: Quaternion)
        ensures
            r == (Quaternion { w, x: v.x, y: v.y, z: v.z }),
    {
        Quaternion { w, x: v.x, y: v.y, z: v.z }
    }

    /// The identity rotation.
    pub fn identity() -> (r: Quaternion)
        ensures
            r == (Quaternion { w: FP_ONE, x: 0i64, y: 0i64, z: 0i64 }),
    {
        Quaternion { w: FP_ONE, x: 0, y: 0, z: 0 }
    }
}

/// A 4x4 fixed-point matrix, row-major: `mRC` is row `R`, column `C`.
#[derive(Clone, Copy, PartialEq, Eq, Structural, Debug)]
pub struct Matrix4 {
    pub m00: i64, pub m01: i64, pub m02: i64, pub m03: i64,
    pub m10: i64, pub m11: i64, pub m12: i64, pub m13: i64,
    pub m20: i64, pub m21: i64, pub m22: i64, pub m23: i64,
    pub m30: i64, pub m31: i64, pub m32: i64, pub m33: i64,
}

/// The identity matrix.
pub open spec fn identity_spec() -> Matrix4 {
    Matrix4 {
        m00: FP_ONE, m01: 0i64, m02: 0i64, m03: 0i64,
        m10: 0i64, m11: FP_ONE, m12: 0i64, m13: 0i64,
        m20: 0i64, m21: 0i64, m22: FP_ONE, m23: 0i64,
        m30: 0i64, m31: 0i64, m32: 0i64, m33: FP_ONE,
    }
}

/// The translation matrix for `v`.
pub open spec fn translation_spec(v: Vector3) -> Matrix4 {
    Matrix4 {
        m00: FP_ONE, m01: 0i64, m02: 0i64, m03: v.x,
        m10: 0i64, m11: FP_ONE, m12: 0i64, m13: v.y,
        m20: 0i64, m21: 0i64, m22: FP_ONE, m23: v.z,
        m30: 0i64, m31: 0i64, m32: 0i64, m33: FP_ONE,
    }
}

/// The scale matrix for `s`.
pub open spec fn scale_spec(s: Vector3) -> Matrix4 {
    Matrix4 {
        m00: s.x, m01: 0i64, m02: 0i64, m03: 0i64,
        m10: 0i64, m11: s.y, m12: 0i64, m13: 0i64,
        m20: 0i64, m21: 0i64, m22: s.z, m23: 0i64,
        m30: 0i64, m31: 0i64, m32: 0i64, m33: FP_ONE,
    }
}

/// The matrix product `a * b`, entrywise the fixed-point dot product of
/// a row of `a` with a column of `b`.
#[verifier::opaque]
pub open spec fn mat_mul_spec(a: Matrix4, b: Matrix4) -> Matrix4 {
    Matrix4 {
        m00: fp_dot4_spec(a.m00 as int, b.m00 as int, a.m01 as int, b.m10 as int, a.m02 as int, b.m20 as int, a.m03 as int, b.m30 as int) as i64,
        m01: fp_dot4_spec(a.m00 as int, b.m01 as int, a.m01 as int, b.m11 as int, a.m02 as int, b.m21 as int, a.m03 as int, b.m31 as int) as i64,
        m02: fp_dot4_spec(a.m00 as int, b.m02 as int, a.m01 as int, b.m12 as int, a.m02 as int, b.m22 as int, a.m03 as int, b.m32 as int) as i64,
        m03: fp_dot4_spec(a.m00 as int, b.m03 as int, a.m01 as int, b.m13 as int, a.m02 as int, b.m23 as int, a.m03 as int, b.m33 as int) as i64,
        m10: fp_dot4_spec(a.m10 as int, b.m00 as int, a.m11 as int, b.m10 as int, a.m12 as int, b.m20 as int, a.m13 as int, b.m30 as int) as i64,
        m11: fp_dot4_spec(a.m10 as int, b.m01 as int, a.m11 as int, b.m11 as int, a.m12 as int, b.m21 as int, a.m13 as int, b.m31 as int) as i64,
        m12: fp_dot4_spec(a.m10 as int, b.m02 as int, a.m11 as int, b.m12 as int, a.m12 as int, b.m22 as int, a.m13 as int, b.m32 as int) as i64,
        m13: fp_dot4_spec(a.m10 as int, b.m03 as int, a.m11 as int, b.m13 as int, a.m12 as int, b.m23 as int, a.m13 as int, b.m33 as int) as i64,
        m20: fp_dot4_spec(a.m20 as int, b.m00 as int, a.m21 as int, b.m10 as int, a.m22 as int, b.m20 as int, a.m23 as int, b.m30 as int) as i64,
        m21: fp_dot4_spec(a.m20 as int, b.m01 as int, a.m21 as int, b.m11 as int, a.m22 as int, b.m21 as int, a.m23 as int, b.m31 as int) as i64,
        m22: fp_dot4_spec(a.m20 as int, b.m02 as int, a.m21 as int, b.m12 as int, a.m22 as int, b.m22 as int, a.m23 as int, b.m32 as int) as i64,
        m23: fp_dot4_spec(a.m20 as int, b.m03 as int, a.m21 as int, b.m13 as int, a.m22 as int, b.m23 as int, a.m23 as int, b.m33 as int) as i64,
        m30: fp_dot4_spec(a.m30 as int, b.m00 as int, a.m31 as int, b.m10 as int, a.m32 as int, b.m20 as int, a.m33 as int, b.m30 as int) as i64,
        m31: fp_dot4_spec(a.m30 as int, b.m01 as int, a.m31 as int, b.m11 as int, a.m32 as int, b.m21 as int, a.m33 as int, b.m31 as int) as i64,
        m32: fp_dot4_spec(a.m30 as int, b.m02 as int, a.m31 as int, b.m12 as int, a.m32 as int, b.m22 as int, a.m33 as int, b.m32 as int) as i64,
        m33: fp_dot4_spec(a.m30 as int, b.m03 as int, a.m31 as int, b.m13 as int, a.m32 as int, b.m23 as int, a.m33 as int, b.m33 as int) as i64,
    }
}

impl Matrix4 {
    /// The identity matrix.
    pub fn identity() -> (r: Matrix4)
        ensures
            r == identity_spec(),
    {
        Matrix4 {
            m00: FP_ONE, m01: 0, m02: 0, m03: 0,
            m10: 0, m11: FP_ONE, m12: 0, m13: 0,
            m20: 0, m21: 0, m22: FP_ONE, m23: 0,
            m30: 0, m31: 0, m32: 0, m33: FP_ONE,
        }
    }

    /// The translation matrix for `v`.
    pub fn new_translation(v: &Vector3) -> (r: Matrix4)
        ensures
            r == translation_spec(*v),
    {
        Matrix4 {
            m00: FP_ONE, m01: 0, m02: 0, m03: v.x,
            m10: 0, m11: FP_ONE, m12: 0, m13: v.y,
            m20: 0, m21: 0, m22: FP_ONE, m23: v.z,
            m30: 0, m31: 0, m32: 0, m33: FP_ONE,
        }
    }

    /// The scale matrix for `s`.
    pub fn new_scale(s: &Vector3) -> (r: Matrix4)
        ensures
            r == scale_spec(*s),
    {
        Matrix4 {
            m00: s.x, m01: 0, m02: 0, m03: 0,
            m10: 0, m11: s.y, m12: 0, m13: 0,
            m20: 0, m21: 0, m22: s.z, m23: 0,
            m30: 0, m31: 0, m32: 0, m33: FP_ONE,
        }
    }

    /// Matrix multiplication: returns `self * other`.
    pub fn multiply(&self, other: &Matrix4) -> (r: Matrix4)
        ensures
            r == mat_mul_spec(*self, *other),
    {
        proof {
            reveal(mat_mul_spec);
        }
        let a = self;
        let b = other;
        Matrix4 {
            m00: fp_dot4(a.m00, b.m00, a.m01, b.m10, a.m02, b.m20, a.m03, b.m30),
            m01: fp_dot4(a.m00, b.m01, a.m01, b.m11, a.m02, b.m21, a.m03, b.m31),
            m02: fp_dot4(a.m00, b.m02, a.m01, b.m12, a.m02, b.m22, a.m03, b.m32),
            m03: fp_dot4(a.m00, b.m03, a.m01, b.m13, a.m02, b.m23, a.m03, b.m33),
            m10: fp_dot4(a.m10, b.m00, a.m11, b.m10, a.m12, b.m20, a.m13, b.m30),
            m11: fp_dot4(a.m10, b.m01, a.m11, b.m11, a.m12, b.m21, a.m13, b.m31),
            m12: fp_dot4(a.m10, b.m02, a.m11, b.m12, a.m12, b.m22, a.m13, b.m32),
            m13: fp_dot4(a.m10, b.m03, a.m11, b.m13, a.m12, b.m23, a.m13, b.m33),
            m20: fp_dot4(a.m20, b.m00, a.m21, b.m10, a.m22, b.m20, a.m23, b.m30),
            m21: fp_dot4(a.m20, b.m01, a.m21, b.m11, a.m22, b.m21, a.m23, b.m31),
            m22: fp_dot4(a.m20, b.m02, a.m21, b.m12, a.m22, b.m22, a.m23, b.m32),
            m23: fp_dot4(a.m20, b.m03, a.m21, b.m13, a.m22, b.m23, a.m23, b.m33),
            m30: fp_dot4(a.m30, b.m00, a.m31, b.m10, a.m32, b.m20, a.m33, b.m30),
            m31: fp_dot4(a.m30, b.m01, a.m31, b.m11, a.m32, b.m21, a.m33, b.m31),
            m32: fp_dot4(a.m30, b.m02, a.m31, b.m12, a.m32, b.m22, a.m33, b.m32),
            m33: fp_dot4(a.m30, b.m03, a.m31, b.m13, a.m32, b.m23, a.m33, b.m33),
        }
    }
}

} // verus!
