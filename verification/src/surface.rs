//! Surfaces, and what a ray–surface test decides once its terms are
//! computed.
//!
//! A surface is anything that can be intersected with a ray, has a normal
//! and can be sampled from a point.  An implementation evaluates the dot
//! products, quotients and square roots of a test and hands them over as
//! `RectTerms` or `SphereTerms`.  This module decides whether they describe a
//! hit, at what distance and on which side, and guarantees that no hit
//! carries a NaN or a negative distance.

use vstd::prelude::*;
use crate::scalar::Scalar;
use crate::vector::Pt3;
use crate::vector::Ray;
use crate::vector::Vec3;

verus! {

/// The face of an oriented surface that a ray struck.
#[derive(Clone, Copy, Debug, PartialEq, Eq, Structural)]
pub enum SurfaceSide {
    Front,
    Back,
}

impl SurfaceSide {
    /// `Front` for a number above zero, `Back` for every other.
    pub open spec fn from_float_spec(x: Scalar) -> SurfaceSide {
        if x.is_positive_spec() {
            SurfaceSide::Front
        } else {
            SurfaceSide::Back
        }
    }

    /// The side on which a ray starts, from the dot product of the surface
    /// normal with the displacement from the surface to the ray's origin.
    pub fn from_float(x: Scalar) -> (side: SurfaceSide)
        ensures
            side == SurfaceSide::from_float_spec(x),
    {
        if x.is_positive() {
            SurfaceSide::Front
        } else {
            SurfaceSide::Back
        }
    }
}

impl SurfaceSide {
    /// The normal that faces this side.
    pub open spec fn orient_spec(self, normal: Vec3) -> Vec3 {
        match self {
            SurfaceSide::Front => normal,
            SurfaceSide::Back => normal.neg_spec(),
        }
    }

    /// Turns a surface's geometric normal toward this side: kept on the
    /// front, reversed on the back.
    pub fn orient(self, normal: Vec3) -> (r: Vec3)
        ensures
            r == self.orient_spec(normal),
    {
        match self {
            SurfaceSide::Front => normal,
            SurfaceSide::Back => normal.neg(),
        }
    }
}

/// A distance along a ray is forward when it is a number and not below zero.
pub open spec fn is_forward(distance: Scalar) -> bool {
    !distance.is_nan_spec() && distance.value() >= 0
}

/// An intersection of a ray with a surface.  Its distance is always forward.
#[derive(Clone, Copy, Debug)]
pub struct Hit {
    distance: Scalar,
    side: SurfaceSide,
}

impl Hit {
    /// How far along the ray the surface lies.
    pub closed spec fn distance_spec(self) -> Scalar {
        self.distance
    }

    /// What holds of every hit: its distance is forward.
    #[verifier::type_invariant]
    pub open spec fn forward(self) -> bool {
        is_forward(self.distance_spec())
    }

    /// The side that was struck.
    pub closed spec fn side_spec(self) -> SurfaceSide {
        self.side
    }

    /// The hit that `new` gives for a distance and a side, if any.
    pub open spec fn new_spec(distance: Scalar, side: SurfaceSide, r: Option<Hit>) -> bool {
        match r {
            Some(hit) => is_forward(distance) && hit.distance_spec() == distance && hit.side_spec()
                == side,
            None => !is_forward(distance),
        }
    }

    /// A hit at `distance`, or nothing where the distance is a NaN or below
    /// zero.
    pub fn new(distance: Scalar, side: SurfaceSide) -> (r: Option<Hit>)
        ensures
            Hit::new_spec(distance, side, r),
    {
        if distance.is_nan() || distance.is_negative() {
            None
        } else {
            Some(Hit { distance, side })
        }
    }

    /// How far along the ray the surface lies.
    pub fn distance(&self) -> (d: Scalar)
        ensures
            d == self.distance_spec(),
            is_forward(d),
    {
        proof {
            use_type_invariant(self);
        }
        self.distance
    }

    /// The side that was struck.
    pub fn side(&self) -> (s: SurfaceSide)
        ensures
            s == self.side_spec(),
    {
        self.side
    }
}

/// An oriented surface in space.
pub trait Surface {
    /// What must hold of the surface before it is queried.  Nothing, unless
    /// the surface says otherwise.
    open spec fn ready(&self) -> bool {
        true
    }

    /// `out` is what intersecting the surface with `ray` can give.  Anything,
    /// unless the surface says otherwise.
    open spec fn intersects(&self, ray: Ray, out: Option<Hit>) -> bool {
        true
    }

    /// `out` is a normal of the surface at `point`.  Any, unless the surface
    /// says otherwise.
    open spec fn has_normal(&self, point: Pt3, out: Vec3) -> bool {
        true
    }

    /// `out` is a direction from `point` toward the surface with its density
    /// that sampling can give.  Any, unless the surface says otherwise.
    open spec fn samples_from(&self, point: Pt3, out: (Vec3, Scalar)) -> bool {
        true
    }

    /// Where `ray` meets the surface first, and on which side; nothing where
    /// it misses.
    fn intersect_with_ray(&self, ray: &Ray) -> (r: Option<Hit>)
        requires
            self.ready(),
        ensures
            self.intersects(*ray, r),
    ;

    /// The unit normal of the surface at `point`, pointing away from its
    /// front.
    fn normal(&self, point: Pt3) -> (n: Vec3)
        requires
            self.ready(),
        ensures
            self.has_normal(point, n),
    ;

    /// A direction from `point` toward a point drawn on the surface, with its
    /// density with respect to solid angle.
    fn sample_from_point(&self, point: Pt3) -> (r: (Vec3, Scalar))
        requires
            self.ready(),
        ensures
            self.samples_from(point, r),
    ;

    /// The normal at `point` turned toward the side that was struck.
    fn oriented_normal(&self, point: Pt3, side: SurfaceSide) -> (r: Vec3)
        requires
            self.ready(),
        ensures
            exists|normal: Vec3| #[trigger]
                self.has_normal(point, normal) && r == side.orient_spec(normal),
    {
        let normal = self.normal(point);
        side.orient(normal)
    }
}

/// The terms of one ray–rectangle test.  The rectangle spans two orthogonal
/// edges from a corner and has a unit normal.
#[derive(Clone, Copy, Debug)]
pub struct RectTerms {
    /// Normal · (ray origin − corner).
    pub offset: Scalar,
    /// −offset / (normal · ray direction): the distance to the plane.
    pub distance: Scalar,
    /// First edge · (point on the plane − corner).
    pub along1: Scalar,
    /// Squared length of the first edge.
    pub extent1: Scalar,
    /// Second edge · (point on the plane − corner).
    pub along2: Scalar,
    /// Squared length of the second edge.
    pub extent2: Scalar,
}

/// The terms of one ray–sphere test: the constant term and the discriminant
/// of the quadratic in the distance, and its two roots.
#[derive(Clone, Copy, Debug)]
pub struct SphereTerms {
    /// |ray origin − center|² − radius²; below zero inside the sphere.
    pub constant: Scalar,
    /// The discriminant; below zero when the line misses the sphere.
    pub discriminant: Scalar,
    /// The smaller root.
    pub near: Scalar,
    /// The larger root.
    pub far: Scalar,
}

/// Whether the edges of a rectangle pass for orthogonal: the magnitude of
/// their dot product stays strictly below the bound.
pub open spec fn edges_orthogonal_spec(dot: Scalar, bound: Scalar) -> bool {
    dot.abs_spec().lt_spec(bound)
}

/// The validity test of a rectangle.  `dot` is the dot product of the two
/// edges, `bound` a small multiple of the product of their lengths.  Fails
/// for an edge of zero length, whose bound is zero, and for a NaN.
pub fn edges_orthogonal(dot: Scalar, bound: Scalar) -> (r: bool)
    ensures
        r == edges_orthogonal_spec(dot, bound),
{
    dot.abs().lt(bound)
}

impl RectTerms {
    /// The point on the plane lies strictly inside the rectangle: its
    /// projection on each edge is above zero and below the edge's squared
    /// length.
    pub open spec fn includes_point_spec(self) -> bool {
        &&& self.along1.is_positive_spec()
        &&& self.along1.lt_spec(self.extent1)
        &&& self.along2.is_positive_spec()
        &&& self.along2.lt_spec(self.extent2)
    }

    /// What the test reports: a hit at `distance` on the side of the ray's
    /// origin, where the plane lies ahead and the point is inside.
    pub open spec fn hit_spec(self, r: Option<Hit>) -> bool {
        if self.includes_point_spec() {
            Hit::new_spec(self.distance, SurfaceSide::from_float_spec(self.offset), r)
        } else {
            r is None
        }
    }

    /// Whether the point where the ray meets the plane lies inside the
    /// rectangle.
    pub fn includes_point(&self) -> (r: bool)
        ensures
            r == self.includes_point_spec(),
    {
        self.along1.is_positive() && self.along1.lt(self.extent1) && self.along2.is_positive()
            && self.along2.lt(self.extent2)
    }

    /// Decides a ray–rectangle test.  A plane behind the origin, a ray
    /// parallel to the plane (whose distance is a NaN or whose point falls
    /// outside) and a point outside the rectangle all give no hit.
    pub fn hit(&self) -> (r: Option<Hit>)
        ensures
            self.hit_spec(r),
            r matches Some(hit) ==> is_forward(hit.distance_spec()),
    {
        if self.distance.is_negative() {
            return None;
        }
        if self.includes_point() {
            Hit::new(self.distance, SurfaceSide::from_float(self.offset))
        } else {
            None
        }
    }
}

impl SphereTerms {
    /// Whether the ray starts inside the sphere.
    pub open spec fn origin_inside(self) -> bool {
        self.constant.is_negative_spec()
    }

    /// What the test reports.  A line that misses gives nothing.  From inside
    /// the sphere the far root is the exit, struck from the back.  From
    /// outside the near root is the entry, struck from the front, if it lies
    /// ahead.
    pub open spec fn hit_spec(self, r: Option<Hit>) -> bool {
        if self.discriminant.is_negative_spec() {
            r is None
        } else if self.origin_inside() {
            Hit::new_spec(self.far, SurfaceSide::Back, r)
        } else if self.near.is_positive_spec() {
            Hit::new_spec(self.near, SurfaceSide::Front, r)
        } else {
            r is None
        }
    }

    /// Decides a ray–sphere test.
    pub fn hit(&self) -> (r: Option<Hit>)
        ensures
            self.hit_spec(r),
            r matches Some(hit) ==> is_forward(hit.distance_spec()),
            self.origin_inside() ==> (r matches Some(hit) ==> hit.side_spec() == SurfaceSide::Back),
    {
        if self.discriminant.is_negative() {
            None
        } else if self.constant.is_negative() {
            Hit::new(self.far, SurfaceSide::Back)
        } else if self.near.is_positive() {
            Hit::new(self.near, SurfaceSide::Front)
        } else {
            None
        }
    }

    /// From inside a sphere every reported hit is on the back side.
    pub proof fn lemma_inside_reports_back(self, r: Option<Hit>)
        requires
            self.origin_inside(),
            self.hit_spec(r),
        ensures
            r matches Some(hit) ==> hit.side_spec() == SurfaceSide::Back,
    {
    }
}

} // verus!
