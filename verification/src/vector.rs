//! Points, directions, colors and rays, each a record of `Scalar`s.

use vstd::prelude::*;
use crate::scalar::Scalar;
use crate::scalar::ONE_BITS;
use crate::scalar::EPSILON_BITS;

verus! {

/// A direction or displacement in space.
#[derive(Clone, Copy, Debug, PartialEq, Eq, Structural)]
pub struct Vec3 {
    pub x: Scalar,
    pub y: Scalar,
    pub z: Scalar,
}

/// A position in space.
#[derive(Clone, Copy, Debug, PartialEq, Eq, Structural)]
pub struct Pt3 {
    pub x: Scalar,
    pub y: Scalar,
    pub z: Scalar,
}

/// A half-line: where it starts and where it heads.  The direction need not
/// have unit length.
#[derive(Clone, Copy, Debug, PartialEq, Eq, Structural)]
pub struct Ray {
    pub src: Pt3,
    pub dir: Vec3,
}

/// Radiance or reflectance in three channels.
#[derive(Clone, Copy, Debug, PartialEq, Eq, Structural)]
pub struct Color {
    pub red: Scalar,
    pub green: Scalar,
    pub blue: Scalar,
}

impl Vec3 {
    /// The opposite direction.
    pub open spec fn neg_spec(self) -> Vec3 {
        Vec3 { x: self.x.neg_spec(), y: self.y.neg_spec(), z: self.z.neg_spec() }
    }

    /// The opposite direction: every component with its sign flipped.
    pub fn neg(self) -> (r: Vec3)
        ensures
            r == self.neg_spec(),
            r.x.value() == -self.x.value(),
            r.y.value() == -self.y.value(),
            r.z.value() == -self.z.value(),
    {
        Vec3 { x: self.x.neg(), y: self.y.neg(), z: self.z.neg() }
    }
}

/// A channel counts as dark when it lies within 2^-23 of zero.
pub open spec fn channel_is_dark(c: Scalar) -> bool {
    c.abs_spec().le_spec(Scalar { bits: EPSILON_BITS })
}

impl Color {
    /// No contribution: every channel is positive zero.
    pub open spec fn black_spec() -> Color {
        Color { red: Scalar { bits: 0 }, green: Scalar { bits: 0 }, blue: Scalar { bits: 0 } }
    }

    /// Full throughput: every channel is 1.0.
    pub open spec fn white_spec() -> Color {
        Color {
            red: Scalar { bits: ONE_BITS },
            green: Scalar { bits: ONE_BITS },
            blue: Scalar { bits: ONE_BITS },
        }
    }

    /// Every channel is dark.  A NaN channel is not.
    pub open spec fn is_black_spec(self) -> bool {
        channel_is_dark(self.red) && channel_is_dark(self.green) && channel_is_dark(self.blue)
    }

    /// The color that contributes nothing.
    pub fn black() -> (r: Color)
        ensures
            r == Color::black_spec(),
            r.is_black_spec(),
    {
        let zero = Scalar::zero();
        proof {
            zero.abs_spec().lemma_size_order(Scalar { bits: EPSILON_BITS });
        }
        Color { red: zero, green: zero, blue: zero }
    }

    /// The color that leaves a path's throughput unchanged.
    pub fn white() -> (r: Color)
        ensures
            r == Color::white_spec(),
            !r.is_black_spec(),
    {
        let one = Scalar::one();
        proof {
            one.abs_spec().lemma_size_order(Scalar { bits: EPSILON_BITS });
        }
        Color { red: one, green: one, blue: one }
    }

    /// Whether the color is black up to the tolerance of `channel_is_dark`.
    pub fn is_black(&self) -> (r: bool)
        ensures
            r == self.is_black_spec(),
    {
        let eps = Scalar::from_bits(EPSILON_BITS);
        self.red.abs().le(eps) && self.green.abs().le(eps) && self.blue.abs().le(eps)
    }
}

} // verus!
