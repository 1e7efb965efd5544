use rt::bsdf::BSDF;
use rt::light::Dark;
use rt::light::Lambertian;
use rt::light::Light;
use rt::material::uniform_material;
use rt::material::BlackBody;
use rt::material::BlinnPhongParams;
use rt::material::Material;
use rt::scalar::Scalar;
use rt::texture::with_point;
use rt::texture::zip;
use rt::texture::Identity;
use rt::texture::Texture;
use rt::texture::Uniform;
use rt::vector::Color;
use rt::vector::Pt3;
use rt::vector::Vec3;

fn scalar(x: f32) -> Scalar {
    Scalar::from_bits(x.to_bits())
}

fn point(x: f32, y: f32, z: f32) -> Pt3 {
    Pt3 { x: scalar(x), y: scalar(y), z: scalar(z) }
}

fn color(r: f32, g: f32, b: f32) -> Color {
    Color { red: scalar(r), green: scalar(g), blue: scalar(b) }
}

fn up() -> Vec3 {
    Vec3 { x: scalar(0.0), y: scalar(1.0), z: scalar(0.0) }
}

#[test]
fn uniform_is_the_same_everywhere() {
    let texture = Uniform::new(7);
    assert_eq!(texture.at(point(0.0, 0.0, 0.0)), 7);
    assert_eq!(texture.at(point(1.0, -2.0, 3.5)), 7);
}

#[test]
fn identity_gives_the_point() {
    assert_eq!(Identity.at(point(1.0, -2.0, 3.5)), point(1.0, -2.0, 3.5));
}

#[test]
fn map_applies_the_function_to_the_value() {
    let doubled = rt::texture::map(Uniform::new(21), |x: i32| x * 2);
    assert_eq!(doubled.at(point(0.0, 0.0, 0.0)), 42);
    let height = rt::texture::map(Identity, |p: Pt3| p.y);
    assert_eq!(height.at(point(1.0, -2.0, 3.5)), scalar(-2.0));
}

#[test]
fn zip_pairs_two_textures() {
    let pair = zip(Uniform::new(1u8), Uniform::new('x'));
    assert_eq!(pair.at(point(0.5, 0.5, 0.5)), (1, 'x'));
}

#[test]
fn with_point_pairs_the_point_with_the_value() {
    let texture = with_point(Uniform::new(3));
    assert_eq!(texture.at(point(1.0, 2.0, 3.0)), (point(1.0, 2.0, 3.0), 3));
}

#[test]
fn black_body_material_reflects_nothing() {
    match BlackBody.model(point(0.0, 0.0, 0.0)) {
        BSDF::Diffuse { color: c } => assert_eq!(c, Color::black()),
        _ => panic!("a black body is one diffuse lobe"),
    }
}

#[test]
fn uniform_material_gives_the_same_blinn_phong_model_everywhere() {
    let material =
        uniform_material(color(9.0, 9.0, 9.0), color(0.5, 0.4, 0.3), color(1.0, 0.9, 0.8), 16);
    for p in [point(0.0, 0.0, 0.0), point(-4.0, 2.0, 1e6)] {
        match material.model(p) {
            BSDF::Add(first, second) => {
                match *first {
                    BSDF::Diffuse { color: c } => assert_eq!(c, color(0.5, 0.4, 0.3)),
                    _ => panic!("the first lobe is diffuse"),
                }
                match *second {
                    BSDF::BlinnPhongSpecular { color: c, n } => {
                        assert_eq!(c, color(1.0, 0.9, 0.8));
                        assert_eq!(n, 16);
                    }
                    _ => panic!("the second lobe is specular"),
                }
            }
            _ => panic!("the model is a sum"),
        }
    }
}

#[test]
fn blinn_phong_params_look_their_textures_up_at_the_point() {
    let material = BlinnPhongParams {
        diff: rt::texture::map(Identity, |p: Pt3| Color { red: p.x, green: p.y, blue: p.z }),
        spec: Uniform::new(color(1.0, 1.0, 1.0)),
        n: Uniform::new(4),
    };
    match material.model(point(0.25, 0.5, 0.75)) {
        BSDF::Add(first, _) => match *first {
            BSDF::Diffuse { color: c } => assert_eq!(c, color(0.25, 0.5, 0.75)),
            _ => panic!("the first lobe is diffuse"),
        },
        _ => panic!("the model is a sum"),
    }
}

#[test]
fn dark_emits_nothing() {
    assert_eq!(Dark.emission(point(1.0, 2.0, 3.0), up(), up()), Color::black());
}

#[test]
fn lambertian_emits_its_color_in_every_direction() {
    let light = Lambertian { color: Uniform::new(color(2.0, 3.0, 4.0)) };
    assert_eq!(light.emission(point(0.0, 0.0, 0.0), up(), up()), color(2.0, 3.0, 4.0));
    assert_eq!(light.emission(point(5.0, 5.0, 5.0), up().neg(), up()), color(2.0, 3.0, 4.0));
}
