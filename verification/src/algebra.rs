//! Vectors and the 4x4 transform matrix.

use crate::scalar::{add_singles, multiply_singles, single_product, single_sum, ONE, ZERO};
use vstd::prelude::*;

verus! {

/// Two single-precision components.
#[derive(Clone, Copy, Debug, PartialEq, Eq, Structural)]
pub struct Vec2 {
    pub x: u32,
    pub y: u32,
}

/// Three single-precision components.
#[derive(Clone, Copy, Debug, PartialEq, Eq, Structural)]
pub struct Vec3 {
    pub x: u32,
    pub y: u32,
    pub z: u32,
}

/// Four single-precision components.
#[derive(Clone, Copy, Debug, PartialEq, Eq, Structural)]
pub struct Vec4 {
    pub x: u32,
    pub y: u32,
    pub z: u32,
    pub w: u32,
}

/// A 4x4 matrix held by columns, as glTF writes it: `x` is the first column
/// and `w`, the last, holds the translation.
#[derive(Clone, Copy, Debug, PartialEq, Eq, Structural)]
pub struct Mat4 {
    pub x: Vec4,
    pub y: Vec4,
    pub z: Vec4,
    pub w: Vec4,
}

impl Vec2 {
    pub open spec fn zero_spec() -> Vec2 {
        Vec2 { x: ZERO, y: ZERO }
    }

    pub fn new(x: u32, y: u32) -> (v: Vec2)
        ensures
            v == (Vec2 { x, y }),
    {
        Vec2 { x, y }
    }

    #[verifier::when_used_as_spec(zero_spec)]
    pub fn zero() -> (v: Vec2)
        ensures
            v == Vec2::zero_spec(),
    {
        Vec2 { x: ZERO, y: ZERO }
    }
}

impl Vec3 {
    pub open spec fn zero_spec() -> Vec3 {
        Vec3 { x: ZERO, y: ZERO, z: ZERO }
    }

    pub fn new(x: u32, y: u32, z: u32) -> (v: Vec3)
        ensures
            v == (Vec3 { x, y, z }),
    {
        Vec3 { x, y, z }
    }

    #[verifier::when_used_as_spec(zero_spec)]
    pub fn zero() -> (v: Vec3)
        ensures
            v == Vec3::zero_spec(),
    {
        Vec3 { x: ZERO, y: ZERO, z: ZERO }
    }
}

impl Vec4 {
    pub open spec fn one_spec() -> Vec4 {
        Vec4 { x: ONE, y: ONE, z: ONE, w: ONE }
    }

    pub fn new(x: u32, y: u32, z: u32, w: u32) -> (v: Vec4)
        ensures
            v == (Vec4 { x, y, z, w }),
    {
        Vec4 { x, y, z, w }
    }

    /// All four components `1.0`: opaque white when read as a colour.
    #[verifier::when_used_as_spec(one_spec)]
    pub fn one() -> (v: Vec4)
        ensures
            v == Vec4::one_spec(),
    {
        Vec4 { x: ONE, y: ONE, z: ONE, w: ONE }
    }
}

/// `a0*b.x + a1*b.y + a2*b.z + a3*b.w`, each product rounded, the sums taken
/// from left to right and rounded one by one.
pub open spec fn dot4(a0: u32, a1: u32, a2: u32, a3: u32, b: Vec4) -> u32 {
    single_sum(
        single_sum(
            single_sum(single_product(a0, b.x), single_product(a1, b.y)),
            single_product(a2, b.z),
        ),
        single_product(a3, b.w),
    )
}

fn dot4_exec(a0: u32, a1: u32, a2: u32, a3: u32, b: Vec4) -> (r: u32)
    ensures
        r == dot4(a0, a1, a2, a3, b),
{
    let p0: u32 = multiply_singles(a0, b.x);
    let p1: u32 = multiply_singles(a1, b.y);
    let p2: u32 = multiply_singles(a2, b.z);
    let p3: u32 = multiply_singles(a3, b.w);
    let s1: u32 = add_singles(p0, p1);
    let s2: u32 = add_singles(s1, p2);
    add_singles(s2, p3)
}

impl Mat4 {
    pub open spec fn identity_spec() -> Mat4 {
        Mat4 {
            x: Vec4 { x: ONE, y: ZERO, z: ZERO, w: ZERO },
            y: Vec4 { x: ZERO, y: ONE, z: ZERO, w: ZERO },
            z: Vec4 { x: ZERO, y: ZERO, z: ONE, w: ZERO },
            w: Vec4 { x: ZERO, y: ZERO, z: ZERO, w: ONE },
        }
    }

    /// The matrix applied to a column vector: row `r` of the result is the
    /// dot product of row `r` of the matrix with `v`.
    pub open spec fn apply(self, v: Vec4) -> Vec4 {
        Vec4 {
            x: dot4(self.x.x, self.y.x, self.z.x, self.w.x, v),
            y: dot4(self.x.y, self.y.y, self.z.y, self.w.y, v),
            z: dot4(self.x.z, self.y.z, self.z.z, self.w.z, v),
            w: dot4(self.x.w, self.y.w, self.z.w, self.w.w, v),
        }
    }

    /// The matrix product `self * rhs`: column by column, `self` applied to
    /// the columns of `rhs`.
    pub open spec fn product(self, rhs: Mat4) -> Mat4 {
        Mat4 {
            x: self.apply(rhs.x),
            y: self.apply(rhs.y),
            z: self.apply(rhs.z),
            w: self.apply(rhs.w),
        }
    }

    #[verifier::when_used_as_spec(identity_spec)]
    pub fn identity() -> (m: Mat4)
        ensures
            m == Mat4::identity_spec(),
    {
        Mat4 {
            x: Vec4 { x: ONE, y: ZERO, z: ZERO, w: ZERO },
            y: Vec4 { x: ZERO, y: ONE, z: ZERO, w: ZERO },
            z: Vec4 { x: ZERO, y: ZERO, z: ONE, w: ZERO },
            w: Vec4 { x: ZERO, y: ZERO, z: ZERO, w: ONE },
        }
    }

    /// Builds a matrix from its sixteen entries, column after column.
    pub fn from_data(
        m00: u32, m01: u32, m02: u32, m03: u32,
        m10: u32, m11: u32, m12: u32, m13: u32,
        m20: u32, m21: u32, m22: u32, m23: u32,
        m30: u32, m31: u32, m32: u32, m33: u32,
    ) -> (m: Mat4)
        ensures
            m.x == (Vec4 { x: m00, y: m01, z: m02, w: m03 }),
            m.y == (Vec4 { x: m10, y: m11, z: m12, w: m13 }),
            m.z == (Vec4 { x: m20, y: m21, z: m22, w: m23 }),
            m.w == (Vec4 { x: m30, y: m31, z: m32, w: m33 }),
    {
        Mat4 {
            x: Vec4 { x: m00, y: m01, z: m02, w: m03 },
            y: Vec4 { x: m10, y: m11, z: m12, w: m13 },
            z: Vec4 { x: m20, y: m21, z: m22, w: m23 },
            w: Vec4 { x: m30, y: m31, z: m32, w: m33 },
        }
    }

    fn apply_exec(&self, v: Vec4) -> (r: Vec4)
        ensures
            r == self.apply(v),
    {
        Vec4 {
            x: dot4_exec(self.x.x, self.y.x, self.z.x, self.w.x, v),
            y: dot4_exec(self.x.y, self.y.y, self.z.y, self.w.y, v),
            z: dot4_exec(self.x.z, self.y.z, self.z.z, self.w.z, v),
            w: dot4_exec(self.x.w, self.y.w, self.z.w, self.w.w, v),
        }
    }

    /// Computes `self * rhs`.
    pub fn multiply(&self, rhs: &Mat4) -> (m: Mat4)
        ensures
            m == self.product(*rhs),
    {
        Mat4 {
            x: self.apply_exec(rhs.x),
            y: self.apply_exec(rhs.y),
            z: self.apply_exec(rhs.z),
            w: self.apply_exec(rhs.w),
        }
    }
}

} // verus!
