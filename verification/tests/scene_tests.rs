use rt::bsdf::Kernel;
use rt::bsdf::BSDF;
use rt::material::uniform_material;
use rt::material::BlinnPhongParams;
use rt::material::Material;
use rt::scalar::Scalar;
use rt::scene::SceneObject;
use rt::scene::SimpleScene;
use rt::scene::Tracer;
use rt::scene::MAX_BOUNCES;
use rt::surface::Hit;
use rt::surface::Surface;
use rt::surface::SurfaceSide;
use rt::texture::Uniform;
use rt::vector::Color;
use rt::vector::Pt3;
use rt::vector::Ray;
use rt::vector::Vec3;
use std::cell::Cell;
use std::cell::RefCell;

fn scalar(x: f32) -> Scalar {
    Scalar::from_bits(x.to_bits())
}

fn number(x: Scalar) -> f32 {
    f32::from_bits(x.to_bits())
}

fn color(r: f32, g: f32, b: f32) -> Color {
    Color { red: scalar(r), green: scalar(g), blue: scalar(b) }
}

fn vector(x: f32, y: f32, z: f32) -> Vec3 {
    Vec3 { x: scalar(x), y: scalar(y), z: scalar(z) }
}

fn ray_from(z: f32) -> Ray {
    Ray { src: Pt3 { x: scalar(0.0), y: scalar(0.0), z: scalar(z) }, dir: vector(0.0, 0.0, 1.0) }
}

/// A material of these tests: a number that stands for a grey diffuse lobe.
struct Grey(f32);

impl Material for Grey {
    fn model(&self, _point: Pt3) -> BSDF {
        BSDF::Diffuse { color: color(self.0, self.0, self.0) }
    }
}

/// A surface of these tests is a wall across the z axis, given by its z.  A
/// ray that travels up the axis strikes it from the front, one that travels
/// down from the back.
#[derive(Debug, PartialEq)]
struct Wall(f32);

impl Surface for Wall {
    fn intersect_with_ray(&self, ray: &Ray) -> Option<Hit> {
        let heading = number(ray.dir.z);
        let distance = (self.0 - number(ray.src.z)) / heading;
        if distance > 0.0 {
            Hit::new(scalar(distance), SurfaceSide::from_float(scalar(heading)))
        } else {
            None
        }
    }

    fn normal(&self, _point: Pt3) -> Vec3 {
        vector(0.0, 0.0, -1.0)
    }

    fn sample_from_point(&self, _point: Pt3) -> (Vec3, Scalar) {
        (vector(0.0, 0.0, 1.0), scalar(1.0))
    }
}

/// A wall that notes, for every ray it is intersected with, its own z and
/// the z the ray starts at.
struct NotingWall<'a>(Wall, &'a RefCell<Vec<(f32, f32)>>);

impl<'a> Surface for NotingWall<'a> {
    fn intersect_with_ray(&self, ray: &Ray) -> Option<Hit> {
        self.1.borrow_mut().push(((self.0).0, number(ray.src.z)));
        self.0.intersect_with_ray(ray)
    }

    fn normal(&self, point: Pt3) -> Vec3 {
        self.0.normal(point)
    }

    fn sample_from_point(&self, point: Pt3) -> (Vec3, Scalar) {
        self.0.sample_from_point(point)
    }
}

type Walls = SimpleScene<Wall, Grey, u8>;

fn advance(ray: &Ray, distance: Scalar) -> Pt3 {
    let t = number(distance);
    Pt3 {
        x: scalar(number(ray.src.x) + number(ray.dir.x) * t),
        y: scalar(number(ray.src.y) + number(ray.dir.y) * t),
        z: scalar(number(ray.src.z) + number(ray.dir.z) * t),
    }
}

fn attenuate(throughput: Color, value: Color, density: Scalar) -> Color {
    let p = number(density);
    color(
        number(throughput.red) * (number(value.red) / p),
        number(throughput.green) * (number(value.green) / p),
        number(throughput.blue) * (number(value.blue) / p),
    )
}

/// A lobe of these tests scatters straight on, with density 2 and a value of
/// its color: each bounce multiplies the throughput by color / 2.
fn pass_through(lobe: &BSDF, refl: Vec3, _norm: Vec3) -> (Vec3, Color, Scalar) {
    match lobe {
        BSDF::Diffuse { color: c } => (refl.neg(), *c, scalar(2.0)),
        BSDF::BlinnPhongSpecular { color: c, .. } => (refl.neg(), *c, scalar(2.0)),
        BSDF::Add(..) => panic!("a sum is not a lobe"),
    }
}

fn lobe_f_p(lobe: &BSDF, _infl: Vec3, _refl: Vec3, _norm: Vec3) -> (Color, Scalar) {
    match lobe {
        BSDF::Diffuse { color: c } => (*c, scalar(2.0)),
        BSDF::BlinnPhongSpecular { color: c, .. } => (*c, scalar(2.0)),
        BSDF::Add(..) => panic!("a sum is not a lobe"),
    }
}

fn mix(x: (Color, Scalar), w1: u64, y: (Color, Scalar), w2: u64) -> (Color, Scalar) {
    let (w1, w2) = (w1 as f32, w2 as f32);
    let value = color(
        number(x.0.red) + number(y.0.red),
        number(x.0.green) + number(y.0.green),
        number(x.0.blue) + number(y.0.blue),
    );
    (value, scalar((number(x.1) * w1 + number(y.1) * w2) / (w1 + w2)))
}

fn half() -> Scalar {
    scalar(0.5)
}

#[test]
fn the_bounce_limit_is_ten() {
    assert_eq!(MAX_BOUNCES, 10);
}

#[test]
fn empty_scene_reports_no_hit() {
    let scene: Walls = SimpleScene::new();
    assert!(scene.intersect_with_ray(&ray_from(0.0)).is_none());
}

#[test]
fn nearest_hit_picks_the_smallest_distance() {
    let mut scene: Walls = SimpleScene::new();
    scene.push_object(Wall(5.0), Grey(0.1));
    scene.push_object(Wall(2.0), Grey(0.2));
    scene.push_light(Wall(3.0), 9);
    match scene.intersect_with_ray(&ray_from(0.0)) {
        Some((SceneObject::Normal(object), hit)) => {
            assert_eq!(object.material.0, 0.2);
            assert_eq!(object.surface, Wall(2.0));
            assert_eq!(number(hit.distance()), 2.0);
            assert_eq!(hit.side(), SurfaceSide::Front);
        }
        _ => panic!("the second object is the nearest"),
    }
}

#[test]
fn nearest_hit_can_be_a_light() {
    let mut scene: Walls = SimpleScene::new();
    scene.push_light(Wall(1.5), 7);
    scene.push_object(Wall(5.0), Grey(0.1));
    scene.push_object(Wall(2.0), Grey(0.2));
    match scene.intersect_with_ray(&ray_from(0.0)) {
        Some((found, hit)) => {
            assert_eq!(*found.surface(), Wall(1.5));
            assert_eq!(found.light(), Some(&7));
            assert!(found.material().is_none());
            assert_eq!(number(hit.distance()), 1.5);
        }
        None => panic!("the light is the nearest"),
    }
}

#[test]
fn nearest_hit_skips_what_lies_behind() {
    let mut scene: Walls = SimpleScene::new();
    scene.push_object(Wall(1.0), Grey(0.1));
    scene.push_object(Wall(6.0), Grey(0.2));
    match scene.intersect_with_ray(&ray_from(3.0)) {
        Some((found, hit)) => {
            assert_eq!(found.material().map(|m| m.0), Some(0.2));
            assert_eq!(found.light(), None);
            assert_eq!(number(hit.distance()), 3.0);
        }
        None => panic!("the second wall lies ahead"),
    }
    assert!(scene.intersect_with_ray(&ray_from(9.0)).is_none());
}

#[test]
fn ties_go_to_objects_before_lights_and_to_the_first_added() {
    let mut scene: Walls = SimpleScene::new();
    scene.push_light(Wall(2.0), 7);
    scene.push_object(Wall(2.0), Grey(0.1));
    scene.push_object(Wall(2.0), Grey(0.2));
    match scene.intersect_with_ray(&ray_from(0.0)) {
        Some((found, _)) => assert_eq!(found.material().map(|m| m.0), Some(0.1)),
        None => panic!("three walls lie ahead"),
    }
}

#[test]
fn every_member_is_probed_once_objects_first() {
    let log = RefCell::new(Vec::new());
    let mut scene: SimpleScene<NotingWall, Grey, u8> = SimpleScene::new();
    scene.push_light(NotingWall(Wall(3.0), &log), 7);
    scene.push_object(NotingWall(Wall(1.0), &log), Grey(0.1));
    scene.push_light(NotingWall(Wall(4.0), &log), 8);
    scene.push_object(NotingWall(Wall(2.0), &log), Grey(0.2));
    let _ = scene.intersect_with_ray(&ray_from(0.0));
    assert_eq!(*log.borrow(), vec![(1.0, 0.0), (2.0, 0.0), (3.0, 0.0), (4.0, 0.0)]);
}

#[test]
fn a_ray_that_escapes_keeps_white_throughput() {
    let scene: Walls = SimpleScene::new();
    let tracer = Tracer { advance, attenuate };
    let kernel = Kernel { uniform: half, sample_lobe: pass_through, lobe_f_p, mix };
    let throughput = scene.ray_trace(&ray_from(0.0), &tracer, &kernel);
    assert_eq!(throughput, Color::white());
}

#[test]
fn a_path_multiplies_value_over_density_at_each_wall() {
    let mut scene: Walls = SimpleScene::new();
    scene.push_object(Wall(1.0), Grey(1.0));
    scene.push_object(Wall(2.0), Grey(0.5));
    scene.push_object(Wall(3.0), Grey(1.0));
    let tracer = Tracer { advance, attenuate };
    let kernel = Kernel { uniform: half, sample_lobe: pass_through, lobe_f_p, mix };
    let throughput = scene.ray_trace(&ray_from(0.0), &tracer, &kernel);
    // three bounces: 1/2, 0.5/2, 1/2
    assert_eq!(throughput, color(0.0625, 0.0625, 0.0625));
}

#[test]
fn a_light_on_the_path_reflects_nothing() {
    let mut scene: Walls = SimpleScene::new();
    scene.push_object(Wall(1.0), Grey(1.0));
    scene.push_light(Wall(2.0), 9);
    scene.push_object(Wall(3.0), Grey(1.0));
    let tracer = Tracer { advance, attenuate };
    let kernel = Kernel { uniform: half, sample_lobe: pass_through, lobe_f_p, mix };
    let throughput = scene.ray_trace(&ray_from(0.0), &tracer, &kernel);
    assert_eq!(throughput, Color::black());
}

#[test]
fn a_bounce_hands_the_sampler_the_reversed_ray_and_the_oriented_normal() {
    let mut scene: Walls = SimpleScene::new();
    scene.push_object(Wall(1.0), Grey(1.0));
    let seen = RefCell::new(Vec::new());
    let sampler = |lobe: &BSDF, refl: Vec3, norm: Vec3| {
        seen.borrow_mut().push((refl, norm));
        pass_through(lobe, refl, norm)
    };
    let tracer = Tracer { advance, attenuate };
    let kernel = Kernel { uniform: half, sample_lobe: sampler, lobe_f_p, mix };
    // up the axis: the wall is struck from the front, its normal is kept
    let _ = scene.ray_trace(&ray_from(0.0), &tracer, &kernel);
    assert_eq!(*seen.borrow(), vec![(vector(-0.0, -0.0, -1.0), vector(0.0, 0.0, -1.0))]);
    seen.borrow_mut().clear();
    // down the axis: the wall is struck from the back, its normal is reversed
    let down = Ray { src: ray_from(2.0).src, dir: vector(0.0, 0.0, -1.0) };
    let _ = scene.ray_trace(&down, &tracer, &kernel);
    assert_eq!(*seen.borrow(), vec![(vector(-0.0, -0.0, 1.0), vector(-0.0, -0.0, 1.0))]);
}

#[test]
fn a_bounce_goes_on_from_the_point_that_was_hit() {
    let log = RefCell::new(Vec::new());
    let mut scene: SimpleScene<NotingWall, Grey, u8> = SimpleScene::new();
    scene.push_object(NotingWall(Wall(1.0), &log), Grey(1.0));
    scene.push_object(NotingWall(Wall(4.0), &log), Grey(1.0));
    let tracer = Tracer { advance, attenuate };
    let kernel = Kernel { uniform: half, sample_lobe: pass_through, lobe_f_p, mix };
    let _ = scene.ray_trace(&ray_from(0.0), &tracer, &kernel);
    let origins: Vec<f32> =
        log.borrow().iter().filter(|(wall, _)| *wall == 1.0).map(|(_, z)| *z).collect();
    assert_eq!(origins, vec![0.0, 1.0, 4.0]);
}

#[test]
fn a_material_is_asked_for_its_model_at_the_point_that_was_hit() {
    let mut scene: SimpleScene<
        Wall,
        BlinnPhongParams<Uniform<Color>, Uniform<Color>, Uniform<i32>>,
        u8,
    > = SimpleScene::new();
    scene.push_object(
        Wall(1.0),
        uniform_material(Color::black(), color(0.5, 0.5, 0.5), color(0.25, 0.25, 0.25), 4),
    );
    let tracer = Tracer { advance, attenuate };
    let kernel = Kernel { uniform: half, sample_lobe: pass_through, lobe_f_p, mix };
    let throughput = scene.ray_trace(&ray_from(0.0), &tracer, &kernel);
    // the uniform number 0.5 is not below the share 0.5: the specular lobe is
    // sampled and the diffuse one evaluated; value 0.75, density 2
    assert_eq!(throughput, color(0.375, 0.375, 0.375));
}

#[test]
fn mirror_corridor_stops_after_ten_bounces() {
    let mut scene: Walls = SimpleScene::new();
    scene.push_object(Wall(1.0), Grey(1.0));
    scene.push_object(Wall(-1.0), Grey(1.0));
    let bounces = Cell::new(0u32);
    let mirror = |lobe: &BSDF, refl: Vec3, norm: Vec3| {
        bounces.set(bounces.get() + 1);
        let (_, value, density) = pass_through(lobe, refl, norm);
        (refl, value, density)
    };
    let tracer = Tracer { advance, attenuate };
    let kernel = Kernel { uniform: half, sample_lobe: mirror, lobe_f_p, mix };
    let throughput = scene.ray_trace(&ray_from(0.0), &tracer, &kernel);
    assert_eq!(bounces.get(), 10);
    let expected = 0.5f32.powi(10);
    assert_eq!(throughput, color(expected, expected, expected));
}

#[test]
fn a_long_corridor_is_cut_at_ten_bounces() {
    let mut scene: Walls = SimpleScene::new();
    for k in 1..=25 {
        scene.push_object(Wall(k as f32), Grey(1.0));
    }
    let last = Cell::new(0.0f32);
    let advance_and_note = |ray: &Ray, distance: Scalar| {
        let point = advance(ray, distance);
        last.set(number(point.z));
        point
    };
    let tracer = Tracer { advance: advance_and_note, attenuate };
    let kernel = Kernel { uniform: half, sample_lobe: pass_through, lobe_f_p, mix };
    let _ = scene.ray_trace(&ray_from(0.0), &tracer, &kernel);
    assert_eq!(last.get(), 10.0);
}
