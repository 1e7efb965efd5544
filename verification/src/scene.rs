//! The scene: its objects, the nearest-hit query and the path integrator.
//!
//! A scene keeps ordinary objects and lights in two lists and never changes
//! one once it is in.  It is generic in the surface, material and light
//! types.  The integrator takes what arithmetic a path needs beyond them as
//! a `Tracer` of functions.

use vstd::prelude::*;
use crate::bsdf::black_body;
use crate::bsdf::Kernel;
use crate::bsdf::Response;
use crate::bsdf::Sample;
use crate::bsdf::BSDF;
use crate::material::Material;
use crate::nearest::all_forward;
use crate::nearest::all_miss;
use crate::nearest::closer;
use crate::nearest::extend;
use crate::nearest::is_nearest;
use crate::nearest::lemma_extend;
use crate::nearest::selects;
use crate::scalar::Scalar;
use crate::surface::is_forward;
use crate::surface::Hit;
use crate::surface::Surface;
use crate::vector::Color;
use crate::vector::Pt3;
use crate::vector::Ray;
use crate::vector::Vec3;

verus! {

/// The most ray segments a path may have.
pub const MAX_BOUNCES: usize = 10;

/// A surface that reflects: it has a material and emits nothing.
pub struct NormalObject<S, M> {
    pub surface: S,
    pub material: M,
}

/// A surface that emits: it has a light and reflects nothing.
pub struct LightObject<S, L> {
    pub surface: S,
    pub light: L,
}

/// A member of a scene, as a query hands it out.
pub enum SceneObject<'a, S, M, L> {
    Normal(&'a NormalObject<S, M>),
    Light(&'a LightObject<S, L>),
}

impl<'a, S, M, L> SceneObject<'a, S, M, L> {
    /// The member's surface.
    pub open spec fn surface_spec(self) -> S {
        match self {
            SceneObject::Normal(o) => o.surface,
            SceneObject::Light(o) => o.surface,
        }
    }

    /// The member's surface.
    pub fn surface(&self) -> (s: &'a S)
        ensures
            *s == self.surface_spec(),
    {
        match self {
            SceneObject::Normal(o) => &o.surface,
            SceneObject::Light(o) => &o.surface,
        }
    }

    /// The member's material.  A light has none: it reflects as a black body.
    pub fn material(&self) -> (m: Option<&'a M>)
        ensures
            match *self {
                SceneObject::Normal(o) => m == Some(&o.material),
                SceneObject::Light(_) => m is None,
            },
    {
        match self {
            SceneObject::Normal(o) => Some(&o.material),
            SceneObject::Light(_) => None,
        }
    }

    /// The member's light.  An ordinary object has none: it is dark.
    pub fn light(&self) -> (l: Option<&'a L>)
        ensures
            match *self {
                SceneObject::Normal(_) => l is None,
                SceneObject::Light(o) => l == Some(&o.light),
            },
    {
        match self {
            SceneObject::Normal(_) => None,
            SceneObject::Light(o) => Some(&o.light),
        }
    }
}

/// A scene as two lists, ordinary objects before lights.
pub struct SimpleScene<S, M, L> {
    objects: Vec<NormalObject<S, M>>,
    lights: Vec<LightObject<S, L>>,
}

impl<S, M, L> SimpleScene<S, M, L> {
    /// The ordinary objects, in the order they were added.
    pub closed spec fn objects(self) -> Seq<NormalObject<S, M>> {
        self.objects@
    }

    /// The lights, in the order they were added.
    pub closed spec fn lights(self) -> Seq<LightObject<S, L>> {
        self.lights@
    }

    /// How many members the scene has.
    pub open spec fn len(self) -> nat {
        self.objects().len() + self.lights().len()
    }

    /// The surface of member `i`, counting the ordinary objects first.
    pub open spec fn surface_at(self, i: int) -> S {
        if i < self.objects().len() {
            self.objects()[i].surface
        } else {
            self.lights()[i - self.objects().len()].surface
        }
    }

    /// Whether `o` is member `i`, counting the ordinary objects first.
    pub open spec fn is_member(self, i: int, o: SceneObject<S, M, L>) -> bool {
        if i < self.objects().len() {
            o matches SceneObject::Normal(n) && *n == self.objects()[i]
        } else {
            o matches SceneObject::Light(l) && *l == self.lights()[i - self.objects().len()]
        }
    }

    /// An empty scene.
    pub fn new() -> (scene: SimpleScene<S, M, L>)
        ensures
            scene.objects() == Seq::<NormalObject<S, M>>::empty(),
            scene.lights() == Seq::<LightObject<S, L>>::empty(),
    {
        SimpleScene { objects: Vec::new(), lights: Vec::new() }
    }

    /// Adds an ordinary object after those already in.
    pub fn push_object(&mut self, surface: S, material: M)
        ensures
            final(self).objects() == old(self).objects().push(NormalObject { surface, material }),
            final(self).lights() == old(self).lights(),
    {
        self.objects.push(NormalObject { surface, material });
    }

    /// Adds a light after those already in.
    pub fn push_light(&mut self, surface: S, light: L)
        ensures
            final(self).objects() == old(self).objects(),
            final(self).lights() == old(self).lights().push(LightObject { surface, light }),
    {
        self.lights.push(LightObject { surface, light });
    }
}

impl<S: Surface, M, L> SimpleScene<S, M, L> {
    /// Every surface of the scene is ready to be queried.
    pub open spec fn surfaces_ready(self) -> bool {
        forall|i: int| 0 <= i < self.len() ==> (#[trigger] self.surface_at(i)).ready()
    }

    /// `c` holds, member by member, a result that intersecting the member's
    /// surface with `ray` can give.
    pub open spec fn probed(self, ray: Ray, c: Seq<Option<Hit>>) -> bool {
        &&& c.len() == self.len()
        &&& all_forward(c)
        &&& forall|i: int| 0 <= i < c.len() ==> self.surface_at(i).intersects(ray, #[trigger] c[i])
    }

    /// `r` is the nearest of the candidates `c` together with the member it
    /// belongs to, or nothing where all missed.
    pub open spec fn reports(self, c: Seq<Option<Hit>>, r: Option<(SceneObject<S, M, L>, Hit)>) -> bool {
        match r {
            Some((o, hit)) => exists|i: int|
                #![trigger c[i]]
                is_nearest(c, i) && c[i] == Some(hit) && self.is_member(i, o),
            None => all_miss(c),
        }
    }

    /// `r` answers the nearest-hit query for `ray`: it is what `reports` says
    /// of some candidates that the surfaces can give.
    pub open spec fn nearest_hit(self, ray: Ray, r: Option<(SceneObject<S, M, L>, Hit)>) -> bool {
        exists|c: Seq<Option<Hit>>| #[trigger] self.probed(ray, c) && self.reports(c, r)
    }

    /// The nearest intersection of `ray` with the scene.  Every member's
    /// surface is intersected once, ordinary objects first.  Among the hits
    /// at a distance above zero the one at the smallest distance wins, and
    /// among equals the member added first.
    pub fn intersect_with_ray<'a>(&'a self, ray: &Ray) -> (r: Option<
        (SceneObject<'a, S, M, L>, Hit),
    >)
        requires
            self.surfaces_ready(),
        ensures
            self.nearest_hit(*ray, r),
    {
        let mut best: Option<(SceneObject<'a, S, M, L>, Hit)> = None;
        let ghost mut seen: Seq<Option<Hit>> = Seq::empty();
        let ghost mut chosen: Option<int> = None;
        let mut i: usize = 0;
        while i < self.objects.len()
            invariant
                0 <= i <= self.objects.len(),
                self.surfaces_ready(),
                seen.len() == i,
                all_forward(seen),
                forall|k: int|
                    0 <= k < seen.len() ==> self.surface_at(k).intersects(*ray, #[trigger] seen[k]),
                selects(seen, chosen),
                match best {
                    Some((o, hit)) => chosen matches Some(k) && seen[k] == Some(hit) && self.is_member(
                        k,
                        o,
                    ),
                    None => chosen is None,
                },
            decreases self.objects.len() - i,
        {
            let object = &self.objects[i];
            assert(self.surface_at(i as int) == object.surface);
            let x: Option<Hit> = object.surface.intersect_with_ray(ray);
            proof {
                if let Some(h) = x {
                    use_type_invariant(&h);
                }
                lemma_extend(seen, chosen, x);
                chosen = extend(seen, chosen, x);
                seen = seen.push(x);
            }
            best = closer(best, SceneObject::Normal(object), x);
            i = i + 1;
        }
        let mut j: usize = 0;
        while j < self.lights.len()
            invariant
                0 <= j <= self.lights.len(),
                self.surfaces_ready(),
                seen.len() == self.objects().len() + j,
                all_forward(seen),
                forall|k: int|
                    0 <= k < seen.len() ==> self.surface_at(k).intersects(*ray, #[trigger] seen[k]),
                selects(seen, chosen),
                match best {
                    Some((o, hit)) => chosen matches Some(k) && seen[k] == Some(hit) && self.is_member(
                        k,
                        o,
                    ),
                    None => chosen is None,
                },
            decreases self.lights.len() - j,
        {
            let light = &self.lights[j];
            assert(self.surface_at(self.objects().len() + j) == light.surface);
            let x: Option<Hit> = light.surface.intersect_with_ray(ray);
            proof {
                if let Some(h) = x {
                    use_type_invariant(&h);
                }
                lemma_extend(seen, chosen, x);
                chosen = extend(seen, chosen, x);
                seen = seen.push(x);
            }
            best = closer(best, SceneObject::Light(light), x);
            j = j + 1;
        }
        proof {
            assert(self.probed(*ray, seen));
            assert(self.reports(seen, best)) by {
                if let Some((o, hit)) = best {
                    let k = chosen->0;
                    assert(is_nearest(seen, k) && seen[k] == Some(hit) && self.is_member(k, o));
                }
            }
        }
        best
    }
}

/// The arithmetic of a path.
pub struct Tracer<A, T> {
    /// The point at a distance along a ray.
    pub advance: A,
    /// A throughput after one more scattering: the throughput so far times
    /// the scattered value over the density.
    pub attenuate: T,
}

impl<S: Surface, M: Material, L> SimpleScene<S, M, L> {
    /// The tracer and the kernel may be called wherever a path takes them,
    /// and every surface and material of the scene is ready.
    pub open spec fn ready<A, T, U, Z, E, X>(
        self,
        tracer: Tracer<A, T>,
        kernel: Kernel<U, Z, E, X>,
    ) -> bool where
        A: Fn(&Ray, Scalar) -> Pt3,
        T: Fn(Color, Color, Scalar) -> Color,
        U: Fn() -> Scalar,
        Z: Fn(&BSDF, Vec3, Vec3) -> Sample,
        E: Fn(&BSDF, Vec3, Vec3, Vec3) -> Response,
        X: Fn(Response, u64, Response, u64) -> Response,
     {
        &&& kernel.ready()
        &&& self.surfaces_ready()
        &&& forall|i: int|
            0 <= i < self.objects().len() ==> (#[trigger] self.objects()[i]).material.ready()
        &&& forall|ray: Ray, distance: Scalar|
            is_forward(distance) ==> #[trigger] call_requires(tracer.advance, (&ray, distance))
        &&& forall|c: Color, f: Color, p: Scalar| #[trigger]
            call_requires(tracer.attenuate, (c, f, p))
    }

    /// `model` is a reflectance model that `o` can have at `point`: what its
    /// material gives, and for a light the black body.
    pub open spec fn models_at(o: SceneObject<S, M, L>, point: Pt3, model: BSDF) -> bool {
        match o {
            SceneObject::Normal(n) => n.material.models(point, model),
            SceneObject::Light(_) => model == (BSDF::Diffuse { color: Color::black_spec() }),
        }
    }

    /// One bounce takes a path from the ray and throughput `from` to `to` by
    /// way of the member `o`, struck at `hit`.  `o` is the nearest hit of the
    /// ray.  The path goes on from the point at the hit's distance along the
    /// ray, in a direction sampled from the reflectance model `model` there
    /// for the reversed ray and the normal turned to the struck side.  The
    /// throughput is attenuated by the sampled value and density.
    pub open spec fn scatters<A, T, U, Z, E, X>(
        self,
        tracer: Tracer<A, T>,
        kernel: Kernel<U, Z, E, X>,
        from: (Ray, Color),
        to: (Ray, Color),
        o: SceneObject<S, M, L>,
        hit: Hit,
        normal: Vec3,
        model: BSDF,
        response: Response,
    ) -> bool where
        A: Fn(&Ray, Scalar) -> Pt3,
        T: Fn(Color, Color, Scalar) -> Color,
        U: Fn() -> Scalar,
        Z: Fn(&BSDF, Vec3, Vec3) -> Sample,
        E: Fn(&BSDF, Vec3, Vec3, Vec3) -> Response,
        X: Fn(Response, u64, Response, u64) -> Response,
     {
        &&& self.nearest_hit(from.0, Some((o, hit)))
        &&& call_ensures(tracer.advance, (&from.0, hit.distance_spec()), to.0.src)
        &&& o.surface_spec().has_normal(to.0.src, normal)
        &&& Self::models_at(o, to.0.src, model)
        &&& model.samples(
            kernel,
            from.0.dir.neg_spec(),
            hit.side_spec().orient_spec(normal),
            (to.0.dir, response.0, response.1),
        )
        &&& call_ensures(tracer.attenuate, (from.1, response.0, response.1), to.1)
    }

    /// One bounce takes a path from the ray and throughput `from` to `to`.
    pub open spec fn bounces<A, T, U, Z, E, X>(
        self,
        tracer: Tracer<A, T>,
        kernel: Kernel<U, Z, E, X>,
        from: (Ray, Color),
        to: (Ray, Color),
    ) -> bool where
        A: Fn(&Ray, Scalar) -> Pt3,
        T: Fn(Color, Color, Scalar) -> Color,
        U: Fn() -> Scalar,
        Z: Fn(&BSDF, Vec3, Vec3) -> Sample,
        E: Fn(&BSDF, Vec3, Vec3, Vec3) -> Response,
        X: Fn(Response, u64, Response, u64) -> Response,
     {
        exists|o: SceneObject<S, M, L>, hit: Hit, normal: Vec3, model: BSDF, response: Response|
            #[trigger] self.scatters(tracer, kernel, from, to, o, hit, normal, model, response)
    }

    /// `path` is a traced path of `ray`: it starts at `ray` with white
    /// throughput, each state follows from the one before by one bounce, it
    /// has at most `MAX_BOUNCES` bounces, and it stops short of that many only
    /// where its last ray escapes the scene.
    pub open spec fn traced<A, T, U, Z, E, X>(
        self,
        tracer: Tracer<A, T>,
        kernel: Kernel<U, Z, E, X>,
        ray: Ray,
        path: Seq<(Ray, Color)>,
    ) -> bool where
        A: Fn(&Ray, Scalar) -> Pt3,
        T: Fn(Color, Color, Scalar) -> Color,
        U: Fn() -> Scalar,
        Z: Fn(&BSDF, Vec3, Vec3) -> Sample,
        E: Fn(&BSDF, Vec3, Vec3, Vec3) -> Response,
        X: Fn(Response, u64, Response, u64) -> Response,
     {
        &&& 1 <= path.len() <= MAX_BOUNCES + 1
        &&& path[0] == (ray, Color::white_spec())
        &&& forall|i: int|
            0 <= i < path.len() - 1 ==> self.bounces(tracer, kernel, #[trigger] path[i], path[i + 1])
        &&& (path.len() == MAX_BOUNCES + 1 || self.nearest_hit(path.last().0, None))
    }

    /// The throughput of one path from `ray`: the product, over the bounces
    /// of the path, of scattered value over density.  The path starts with
    /// white throughput; it ends where a ray escapes the scene, and after
    /// `MAX_BOUNCES` bounces at the latest.  What lights emit is not added.
    pub fn ray_trace<A, T, U, Z, E, X>(
        &self,
        ray: &Ray,
        tracer: &Tracer<A, T>,
        kernel: &Kernel<U, Z, E, X>,
    ) -> (r: Color) where
        A: Fn(&Ray, Scalar) -> Pt3,
        T: Fn(Color, Color, Scalar) -> Color,
        U: Fn() -> Scalar,
        Z: Fn(&BSDF, Vec3, Vec3) -> Sample,
        E: Fn(&BSDF, Vec3, Vec3, Vec3) -> Response,
        X: Fn(Response, u64, Response, u64) -> Response,

        requires
            self.ready(*tracer, *kernel),
        ensures
            exists|path: Seq<(Ray, Color)>|
                #[trigger] self.traced(*tracer, *kernel, *ray, path) && path.len() - 1
                    <= MAX_BOUNCES && r == path.last().1,
    {
        let mut spectrum = Color::white();
        let mut current: Ray = *ray;
        let ghost mut path: Seq<(Ray, Color)> = seq![(*ray, Color::white_spec())];
        let mut segments: usize = 0;
        while segments < MAX_BOUNCES
            invariant_except_break
                path.len() == segments + 1,
            invariant
                segments <= MAX_BOUNCES,
                self.ready(*tracer, *kernel),
                1 <= path.len() <= MAX_BOUNCES + 1,
                path[0] == (*ray, Color::white_spec()),
                path.last() == (current, spectrum),
                forall|i: int|
                    0 <= i < path.len() - 1 ==> self.bounces(
                        *tracer,
                        *kernel,
                        #[trigger] path[i],
                        path[i + 1],
                    ),
            ensures
                path.len() == MAX_BOUNCES + 1 || self.nearest_hit(path.last().0, None),
            decreases MAX_BOUNCES - segments,
        {
            match self.intersect_with_ray(&current) {
                None => {
                    break ;
                },
                Some((object, hit)) => {
                    let point = (tracer.advance)(&current, hit.distance());
                    let refl = current.dir.neg();
                    let norm = object.surface().oriented_normal(point, hit.side());
                    let model = match object.material() {
                        Some(material) => material.model(point),
                        None => black_body(),
                    };
                    let (infl, f, p) = model.sample_f_p(refl, norm, kernel);
                    let next_spectrum = (tracer.attenuate)(spectrum, f, p);
                    let next_ray = Ray { src: point, dir: infl };
                    proof {
                        let ghost before = path;
                        let ghost normal = choose|normal: Vec3| #[trigger]
                            object.surface_spec().has_normal(point, normal) && norm
                                == hit.side_spec().orient_spec(normal);
                        path = path.push((next_ray, next_spectrum));
                        assert(before.last() == (current, spectrum));
                        assert(self.scatters(
                            *tracer,
                            *kernel,
                            before.last(),
                            (next_ray, next_spectrum),
                            object,
                            hit,
                            normal,
                            model,
                            (f, p),
                        ));
                        assert forall|i: int| 0 <= i < path.len() - 1 implies self.bounces(
                            *tracer,
                            *kernel,
                            #[trigger] path[i],
                            path[i + 1],
                        ) by {
                            if i < before.len() - 1 {
                                assert(path[i] == before[i]);
                                assert(path[i + 1] == before[i + 1]);
                            }
                        }
                    }
                    current = next_ray;
                    spectrum = next_spectrum;
                },
            }
            segments = segments + 1;
        }
        proof {
            assert(self.traced(*tracer, *kernel, *ray, path));
        }
        spectrum
    }
}

} // verus!
