//! The attribute primitives of a point record.

use vstd::prelude::*;

verus! {

/// An IEEE-754 binary32 value, held as its bit pattern.
pub type Float = u32;

/// The bit pattern of the binary32 value 1.
pub const FLOAT_ONE: Float = 0x3f80_0000;

/// Mask of the exponent field of a binary32 bit pattern.
pub const FLOAT_EXPONENT: Float = 0x7f80_0000;

/// Whether the bits stand for a number: neither an infinity nor a NaN.
pub open spec fn float_is_finite(bits: Float) -> bool {
    bits & FLOAT_EXPONENT != FLOAT_EXPONENT
}

/// Three coordinates.
#[derive(Debug, Clone, Copy, PartialEq, Eq, Structural)]
pub struct Position {
    pub x: Float,
    pub y: Float,
    pub z: Float,
}

impl Position {
    /// The position of three coordinates.
    pub fn new(x: Float, y: Float, z: Float) -> (r: Self)
        ensures
            r == (Position { x, y, z }),
    {
        Position { x, y, z }
    }

    /// The origin: three zeros.
    pub open spec fn origin() -> Position {
        Position { x: 0, y: 0, z: 0 }
    }

    /// Whether all three coordinates are numbers.
    pub open spec fn finite(self) -> bool {
        float_is_finite(self.x) && float_is_finite(self.y) && float_is_finite(self.z)
    }
}

impl Default for Position {
    fn default() -> (r: Self)
        ensures
            r == Position::origin(),
    {
        Position { x: 0, y: 0, z: 0 }
    }
}

/// The three components of a surface normal. Nothing checks its length.
#[derive(Debug, Clone, Copy, PartialEq, Eq, Structural)]
pub struct Normal {
    pub x: Float,
    pub y: Float,
    pub z: Float,
}

impl Normal {
    /// The normal of three components.
    pub fn new(x: Float, y: Float, z: Float) -> (r: Self)
        ensures
            r == (Normal { x, y, z }),
    {
        Normal { x, y, z }
    }

    /// The zero vector.
    pub open spec fn zero() -> Normal {
        Normal { x: 0, y: 0, z: 0 }
    }
}

impl Default for Normal {
    fn default() -> (r: Self)
        ensures
            r == Normal::zero(),
    {
        Normal { x: 0, y: 0, z: 0 }
    }
}

/// A color of three 8-bit channels.
#[derive(Debug, Clone, Copy, PartialEq, Eq, Structural)]
pub struct Rgb {
    pub r: u8,
    pub g: u8,
    pub b: u8,
}

impl Rgb {
    /// The color of three channels.
    pub fn new(r: u8, g: u8, b: u8) -> (c: Self)
        ensures
            c == (Rgb { r, g, b }),
    {
        Rgb { r, g, b }
    }

    /// Black.
    pub open spec fn black() -> Rgb {
        Rgb { r: 0, g: 0, b: 0 }
    }
}

impl Default for Rgb {
    fn default() -> (c: Self)
        ensures
            c == Rgb::black(),
    {
        Rgb { r: 0, g: 0, b: 0 }
    }
}

} // verus!
