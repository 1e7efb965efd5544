//! Materials: which reflectance model a surface has at a point.

use vstd::prelude::*;
use crate::bsdf::BSDF;
use crate::bsdf::black_body;
use crate::bsdf::blinn_phong;
use crate::texture::Texture;
use crate::texture::Uniform;
use crate::vector::Color;
use crate::vector::Pt3;

verus! {

/// A reflectance model for every point of a surface.
pub trait Material {
    /// What must hold of the material before it is asked for a model.
    /// Nothing, unless the material says otherwise.
    open spec fn ready(&self) -> bool {
        true
    }

    /// `model` is a reflectance model the material can give at `point`.
    /// Any, unless the material says otherwise.
    open spec fn models(&self, point: Pt3, model: BSDF) -> bool {
        true
    }

    /// The reflectance model at `point`.
    fn model(&self, point: Pt3) -> (model: BSDF)
        requires
            self.ready(),
        ensures
            self.models(point, model),
    ;
}

/// The material that reflects nothing.
pub struct BlackBody;

impl Material for BlackBody {
    open spec fn ready(&self) -> bool {
        true
    }

    open spec fn models(&self, point: Pt3, model: BSDF) -> bool {
        model == (BSDF::Diffuse { color: Color::black_spec() })
    }

    fn model(&self, point: Pt3) -> (model: BSDF) {
        black_body()
    }
}

/// The Blinn–Phong material: a diffuse color, a specular color and a
/// sharpness, each a texture.
pub struct BlinnPhongParams<Td, Ts, Tn> {
    pub diff: Td,
    pub spec: Ts,
    pub n: Tn,
}

impl<Td, Ts, Tn> Material for BlinnPhongParams<Td, Ts, Tn> where
    Td: Texture<Output = Color>,
    Ts: Texture<Output = Color>,
    Tn: Texture<Output = i32>,
 {
    open spec fn ready(&self) -> bool {
        self.diff.ready() && self.spec.ready() && self.n.ready()
    }

    open spec fn models(&self, point: Pt3, model: BSDF) -> bool {
        exists|diff: Color, spec: Color, n: i32|
            #![trigger self.diff.yields(point, diff), self.spec.yields(point, spec), self.n.yields(point, n)]
            self.diff.yields(point, diff) && self.spec.yields(point, spec) && self.n.yields(point, n)
                && model == BSDF::Add(
                Box::new(BSDF::Diffuse { color: diff }),
                Box::new(BSDF::BlinnPhongSpecular { color: spec, n }),
            )
    }

    fn model(&self, point: Pt3) -> (model: BSDF) {
        let diff = self.diff.at(point);
        let spec = self.spec.at(point);
        let n: i32 = self.n.at(point);
        blinn_phong(diff, spec, n)
    }
}

/// The Blinn–Phong material that is the same at every point.  It emits
/// nothing whatever `emit` is: emission belongs to lights.
pub fn uniform_material(emit: Color, diff: Color, spec: Color, n: i32) -> (material:
    BlinnPhongParams<Uniform<Color>, Uniform<Color>, Uniform<i32>>)
    ensures
        material.diff.value() == diff,
        material.spec.value() == spec,
        material.n.value() == n,
        material.ready(),
{
    BlinnPhongParams { diff: Uniform::new(diff), spec: Uniform::new(spec), n: Uniform::new(n) }
}

} // verus!
