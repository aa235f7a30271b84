//! The aggregate types the codec reads and writes.
//!
//! Every component is a [`Scalar`]: the raw bit pattern of a 32-bit
//! IEEE-754 value. Keeping the bits themselves (rather than a numeric
//! interpretation) is what makes an encode/decode round trip exact.
//! Each type has a flattening, `as_seq`, that lists its components in
//! ordinal order; for matrices the order is column-major, each column's
//! components in their own order.

use vstd::prelude::*;

verus! {

/// A scalar component as it travels on the wire: the bit pattern of a
/// 32-bit IEEE-754 value.
pub type Scalar = u32;

/// A 2-component vector. Field ordinals: `x` is 0, `y` is 1.
#[derive(Clone, Copy, Debug, PartialEq, Eq, Structural)]
pub struct Vec2 {
    pub x: Scalar,
    pub y: Scalar,
}

/// A 3-component vector. Field ordinals: `x` is 0, `y` is 1, `z` is 2.
#[derive(Clone, Copy, Debug, PartialEq, Eq, Structural)]
pub struct Vec3 {
    pub x: Scalar,
    pub y: Scalar,
    pub z: Scalar,
}

/// A 4-component vector. Field ordinals: `x` 0, `y` 1, `z` 2, `w` 3.
#[derive(Clone, Copy, Debug, PartialEq, Eq, Structural)]
pub struct Vec4 {
    pub x: Scalar,
    pub y: Scalar,
    pub z: Scalar,
    pub w: Scalar,
}

/// A bivector of 3-space: the three plane components of a rotor.
#[derive(Clone, Copy, Debug, PartialEq, Eq, Structural)]
pub struct Bivec3 {
    pub xy: Scalar,
    pub xz: Scalar,
    pub yz: Scalar,
}

/// A rotor: one scalar part and a 3-plane bivector part. On the wire it
/// is always the positional sequence `[s, xy, xz, yz]`.
#[derive(Clone, Copy, Debug, PartialEq, Eq, Structural)]
pub struct Rotor3 {
    pub s: Scalar,
    pub bv: Bivec3,
}

/// A 2x2 column-major matrix: two column vectors.
#[derive(Clone, Copy, Debug, PartialEq, Eq, Structural)]
pub struct Mat2 {
    pub c0: Vec2,
    pub c1: Vec2,
}

/// A 3x3 column-major matrix: three column vectors.
#[derive(Clone, Copy, Debug, PartialEq, Eq, Structural)]
pub struct Mat3 {
    pub c0: Vec3,
    pub c1: Vec3,
    pub c2: Vec3,
}

/// A 4x4 column-major matrix: four column vectors.
#[derive(Clone, Copy, Debug, PartialEq, Eq, Structural)]
pub struct Mat4 {
    pub c0: Vec4,
    pub c1: Vec4,
    pub c2: Vec4,
    pub c3: Vec4,
}

impl Vec2 {
    /// The components in ordinal order.
    pub open spec fn as_seq(self) -> Seq<Scalar> {
        seq![self.x, self.y]
    }

    pub fn new(x: Scalar, y: Scalar) -> (v: Self)
        ensures
            v == (Vec2 { x, y }),
    {
        Vec2 { x, y }
    }
}

impl Vec3 {
    /// The components in ordinal order.
    pub open spec fn as_seq(self) -> Seq<Scalar> {
        seq![self.x, self.y, self.z]
    }

    pub fn new(x: Scalar, y: Scalar, z: Scalar) -> (v: Self)
        ensures
            v == (Vec3 { x, y, z }),
    {
        Vec3 { x, y, z }
    }
}

impl Vec4 {
    /// The components in ordinal order.
    pub open spec fn as_seq(self) -> Seq<Scalar> {
        seq![self.x, self.y, self.z, self.w]
    }

    pub fn new(x: Scalar, y: Scalar, z: Scalar, w: Scalar) -> (v: Self)
        ensures
            v == (Vec4 { x, y, z, w }),
    {
        Vec4 { x, y, z, w }
    }
}

impl Bivec3 {
    /// The plane components in ordinal order.
    pub open spec fn as_seq(self) -> Seq<Scalar> {
        seq![self.xy, self.xz, self.yz]
    }

    pub fn new(xy: Scalar, xz: Scalar, yz: Scalar) -> (v: Self)
        ensures
            v == (Bivec3 { xy, xz, yz }),
    {
        Bivec3 { xy, xz, yz }
    }
}

impl Rotor3 {
    /// The scalar part, then the bivector planes, in ordinal order.
    pub open spec fn as_seq(self) -> Seq<Scalar> {
        seq![self.s, self.bv.xy, self.bv.xz, self.bv.yz]
    }

    pub fn new(s: Scalar, bv: Bivec3) -> (v: Self)
        ensures
            v == (Rotor3 { s, bv }),
    {
        Rotor3 { s, bv }
    }
}

impl Mat2 {
    /// Column-major flattening: column 0 first, then column 1.
    pub open spec fn as_seq(self) -> Seq<Scalar> {
        self.c0.as_seq() + self.c1.as_seq()
    }

    pub fn new(c0: Vec2, c1: Vec2) -> (m: Self)
        ensures
            m == (Mat2 { c0, c1 }),
    {
        Mat2 { c0, c1 }
    }
}

impl Mat3 {
    /// Column-major flattening: columns 0, 1, 2 concatenated.
    pub open spec fn as_seq(self) -> Seq<Scalar> {
        self.c0.as_seq() + self.c1.as_seq() + self.c2.as_seq()
    }

    pub fn new(c0: Vec3, c1: Vec3, c2: Vec3) -> (m: Self)
        ensures
            m == (Mat3 { c0, c1, c2 }),
    {
        Mat3 { c0, c1, c2 }
    }
}

impl Mat4 {
    /// Column-major flattening: columns 0 through 3 concatenated.
    pub open spec fn as_seq(self) -> Seq<Scalar> {
        self.c0.as_seq() + self.c1.as_seq() + self.c2.as_seq() + self.c3.as_seq()
    }

    pub fn new(c0: Vec4, c1: Vec4, c2: Vec4, c3: Vec4) -> (m: Self)
        ensures
            m == (Mat4 { c0, c1, c2, c3 }),
    {
        Mat4 { c0, c1, c2, c3 }
    }
}

} // verus!
