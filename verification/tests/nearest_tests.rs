use rt::nearest::nearest;
use rt::scalar::Scalar;
use rt::surface::Hit;
use rt::surface::SurfaceSide;

fn scalar(x: f32) -> Scalar {
    Scalar::from_bits(x.to_bits())
}

fn number(x: Scalar) -> f32 {
    f32::from_bits(x.to_bits())
}

fn hit(distance: f32, side: SurfaceSide) -> Option<Hit> {
    Hit::new(scalar(distance), side)
}

#[test]
fn nearest_of_nothing_is_nothing() {
    assert!(nearest(&vec![]).is_none());
    assert!(nearest(&vec![None, None, None]).is_none());
}

#[test]
fn nearest_skips_misses() {
    let candidates = vec![None, hit(7.0, SurfaceSide::Front), None];
    let (index, found) = nearest(&candidates).expect("one candidate is a hit");
    assert_eq!(index, 1);
    assert_eq!(number(found.distance()), 7.0);
    assert_eq!(found.side(), SurfaceSide::Front);
}

#[test]
fn nearest_takes_the_smallest_distance() {
    let candidates = vec![
        hit(5.0, SurfaceSide::Front),
        None,
        hit(0.5, SurfaceSide::Back),
        hit(3.0, SurfaceSide::Front),
        hit(f32::INFINITY, SurfaceSide::Front),
    ];
    let (index, found) = nearest(&candidates).expect("several candidates are hits");
    assert_eq!(index, 2);
    assert_eq!(number(found.distance()), 0.5);
    assert_eq!(found.side(), SurfaceSide::Back);
}

#[test]
fn nearest_gives_ties_to_the_first() {
    let candidates = vec![
        hit(4.0, SurfaceSide::Front),
        hit(2.0, SurfaceSide::Back),
        hit(2.0, SurfaceSide::Front),
        hit(2.0, SurfaceSide::Front),
    ];
    let (index, found) = nearest(&candidates).expect("several candidates are hits");
    assert_eq!(index, 1);
    assert_eq!(found.side(), SurfaceSide::Back);
}

#[test]
fn nearest_skips_hits_at_distance_zero() {
    let candidates = vec![hit(0.0, SurfaceSide::Front), hit(-0.0, SurfaceSide::Back)];
    assert!(nearest(&candidates).is_none());
    let candidates = vec![
        hit(0.0, SurfaceSide::Front),
        hit(3.0, SurfaceSide::Back),
        hit(-0.0, SurfaceSide::Back),
        hit(2.0, SurfaceSide::Front),
    ];
    let (index, found) = nearest(&candidates).expect("two candidates lie ahead");
    assert_eq!(index, 3);
    assert_eq!(number(found.distance()), 2.0);
}

#[test]
fn nearest_takes_the_smallest_number_above_zero() {
    let candidates = vec![hit(1.0, SurfaceSide::Front), hit(f32::from_bits(1), SurfaceSide::Back)];
    let (index, found) = nearest(&candidates).expect("both lie ahead");
    assert_eq!(index, 1);
    assert_eq!(found.distance().to_bits(), 1);
}

#[test]
fn nearest_orders_subnormal_distances() {
    let candidates = vec![
        hit(f32::MIN_POSITIVE, SurfaceSide::Front),
        hit(f32::from_bits(3), SurfaceSide::Front),
        hit(f32::from_bits(2), SurfaceSide::Front),
    ];
    let (index, found) = nearest(&candidates).expect("all are hits");
    assert_eq!(index, 2);
    assert_eq!(found.distance().to_bits(), 2);
}
