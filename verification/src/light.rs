//! Lights: what a surface emits.

use vstd::prelude::*;
use crate::texture::Texture;
use crate::vector::Color;
use crate::vector::Pt3;
use crate::vector::Vec3;

verus! {

/// The radiance a surface emits from a point, along a direction, given the
/// normal there.
pub trait Light {
    /// What must hold of the light before it is asked for its emission.
    /// Nothing, unless the light says otherwise.
    open spec fn ready(&self) -> bool {
        true
    }

    /// `out` is a radiance the light can emit from `point` along `dir`.  Any,
    /// unless the light says otherwise.
    open spec fn emits(&self, point: Pt3, dir: Vec3, norm: Vec3, out: Color) -> bool {
        true
    }

    /// The radiance emitted from `point` along `dir`.
    fn emission(&self, point: Pt3, dir: Vec3, norm: Vec3) -> (out: Color)
        requires
            self.ready(),
        ensures
            self.emits(point, dir, norm, out),
    ;
}

/// The light that emits nothing.
pub struct Dark;

impl Light for Dark {
    open spec fn ready(&self) -> bool {
        true
    }

    open spec fn emits(&self, point: Pt3, dir: Vec3, norm: Vec3, out: Color) -> bool {
        out == Color::black_spec()
    }

    fn emission(&self, point: Pt3, dir: Vec3, norm: Vec3) -> (out: Color) {
        Color::black()
    }
}

/// A light that emits the same radiance in every direction; the radiance
/// varies over the surface as the texture `color` says.
pub struct Lambertian<T> {
    pub color: T,
}

impl<T: Texture<Output = Color>> Light for Lambertian<T> {
    open spec fn ready(&self) -> bool {
        self.color.ready()
    }

    open spec fn emits(&self, point: Pt3, dir: Vec3, norm: Vec3, out: Color) -> bool {
        self.color.yields(point, out)
    }

    fn emission(&self, point: Pt3, dir: Vec3, norm: Vec3) -> (out: Color) {
        self.color.at(point)
    }
}

} // verus!
