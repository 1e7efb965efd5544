//! Rejection sampling with a bounded number of attempts.
//!
//! A direction is drawn uniformly by drawing a point in a cube around the
//! origin and keeping it where it falls inside the ball of radius one half
//! and not too close to the center.  The caller draws the point and computes
//! its squared norm; this module decides whether the point is kept, stops
//! the loop after `MAX_ATTEMPTS` draws, and says what stands in when no point
//! was kept.

use vstd::prelude::*;
use crate::scalar::Scalar;
use crate::scalar::ONE_BITS;
use crate::scalar::QUARTER_BITS;
use crate::vector::Vec3;

verus! {

/// The most draws one sample may take.
pub const MAX_ATTEMPTS: u32 = 64;

/// The pattern of the nearest number to 1e-10: the squared norm a point must
/// exceed to be normalized safely.
pub const TINY_BITS: u32 = 0x2edb_e6ff;

/// A squared norm is accepted inside the half-open interval from 1e-10
/// (excluded) to 0.25 (included).
pub open spec fn accepts_spec(norm2: Scalar) -> bool {
    norm2.le_spec(Scalar { bits: QUARTER_BITS }) && Scalar { bits: TINY_BITS }.lt_spec(norm2)
}

/// Whether a point with squared norm `norm2` is kept.  A NaN is not.
pub fn accepts(norm2: Scalar) -> (r: bool)
    ensures
        r == accepts_spec(norm2),
{
    norm2.le(Scalar::from_bits(QUARTER_BITS)) && Scalar::from_bits(TINY_BITS).lt(norm2)
}

/// Every entry of `trail` is a point that `draw` can give, and is rejected.
pub open spec fn rejected_run<T, D: Fn() -> (T, Scalar)>(draw: D, trail: Seq<(T, Scalar)>) -> bool {
    forall|i: int|
        0 <= i < trail.len() ==> call_ensures(draw, (), #[trigger] trail[i]) && !accepts_spec(
            trail[i].1,
        )
}

/// What `sample_in_ball` returns: the first accepted point, with its squared
/// norm, after a run of fewer than `MAX_ATTEMPTS` rejected ones, or nothing
/// after a run of `MAX_ATTEMPTS` rejected ones.
pub open spec fn sampled<T, D: Fn() -> (T, Scalar)>(draw: D, r: Option<(T, Scalar)>) -> bool {
    match r {
        Some(kept) => accepts_spec(kept.1) && call_ensures(draw, (), kept) && exists|
            trail: Seq<(T, Scalar)>,
        |
            trail.len() < MAX_ATTEMPTS && #[trigger] rejected_run(draw, trail),
        None => exists|trail: Seq<(T, Scalar)>|
            trail.len() == MAX_ATTEMPTS && #[trigger] rejected_run(draw, trail),
    }
}

/// Draws points until one is accepted.  `draw` gives a point and its squared
/// norm.  Gives up after `MAX_ATTEMPTS` draws and returns nothing; the caller
/// then falls back on a fixed direction.
pub fn sample_in_ball<T, D: Fn() -> (T, Scalar)>(draw: &D) -> (r: Option<(T, Scalar)>)
    requires
        call_requires(*draw, ()),
    ensures
        sampled(*draw, r),
{
    let ghost mut trail: Seq<(T, Scalar)> = Seq::empty();
    let mut attempts: u32 = 0;
    while attempts < MAX_ATTEMPTS
        invariant
            attempts <= MAX_ATTEMPTS,
            call_requires(*draw, ()),
            trail.len() == attempts,
            rejected_run(*draw, trail),
        decreases MAX_ATTEMPTS - attempts,
    {
        let (point, norm2) = draw();
        if accepts(norm2) {
            return Some((point, norm2));
        }
        proof {
            let ghost before = trail;
            trail = trail.push((point, norm2));
            assert forall|i: int| 0 <= i < trail.len() implies call_ensures(
                *draw,
                (),
                #[trigger] trail[i],
            ) && !accepts_spec(trail[i].1) by {
                if i < before.len() {
                    assert(trail[i] == before[i]);
                }
            }
        }
        attempts = attempts + 1;
    }
    None
}

/// What `random_sin_cos` returns: the accepted point of the square scaled to
/// the unit circle by `normalize`, or the angle zero where no point was
/// accepted.
pub open spec fn sin_cos_sampled<D, N>(draw: D, normalize: N, r: (Scalar, Scalar)) -> bool where
    D: Fn() -> ((Scalar, Scalar), Scalar),
    N: Fn((Scalar, Scalar), Scalar) -> (Scalar, Scalar),
 {
    ||| exists|kept: ((Scalar, Scalar), Scalar)| #[trigger]
        sampled(draw, Some(kept)) && call_ensures(normalize, (kept.0, kept.1), r)
    ||| sampled(draw, None::<((Scalar, Scalar), Scalar)>) && r == (
        Scalar { bits: 0 },
        Scalar { bits: ONE_BITS },
    )
}

/// The sine and cosine of an angle drawn uniformly from the circle.  `draw`
/// gives a point of the square around the origin with its squared norm;
/// `normalize` scales an accepted point to the unit circle and gives it as
/// (sine, cosine).  Where no point is accepted the angle is zero.
pub fn random_sin_cos<D, N>(draw: &D, normalize: &N) -> (r: (Scalar, Scalar)) where
    D: Fn() -> ((Scalar, Scalar), Scalar),
    N: Fn((Scalar, Scalar), Scalar) -> (Scalar, Scalar),

    requires
        call_requires(*draw, ()),
        forall|point: (Scalar, Scalar), norm2: Scalar|
            accepts_spec(norm2) ==> #[trigger] call_requires(*normalize, (point, norm2)),
    ensures
        sin_cos_sampled(*draw, *normalize, r),
{
    match sample_in_ball(draw) {
        Some((point, norm2)) => {
            let r = normalize(point, norm2);
            assert(sampled(*draw, Some((point, norm2))));
            r
        },
        None => (Scalar::zero(), Scalar::one()),
    }
}

/// What `random_cos_hemisphere` returns: the accepted point of the cube
/// turned into a direction around `norm` by `finish`, or `norm` itself where
/// no point was accepted.
pub open spec fn hemisphere_sampled<D, N>(norm: Vec3, draw: D, finish: N, r: Vec3) -> bool where
    D: Fn() -> (Vec3, Scalar),
    N: Fn(Vec3, Scalar, Vec3) -> Vec3,
 {
    ||| exists|kept: (Vec3, Scalar)| #[trigger]
        sampled(draw, Some(kept)) && call_ensures(finish, (kept.0, kept.1, norm), r)
    ||| sampled(draw, None::<(Vec3, Scalar)>) && r == norm
}

/// A direction drawn around the normal `norm` with a density in proportion
/// to its cosine with the normal.  `draw` gives a point of the cube around
/// the origin with its squared norm; `finish` scales an accepted point to the
/// unit sphere, adds the normal and scales the sum to unit length.  Where no
/// point is accepted the direction is the normal itself.
pub fn random_cos_hemisphere<D, N>(norm: Vec3, draw: &D, finish: &N) -> (r: Vec3) where
    D: Fn() -> (Vec3, Scalar),
    N: Fn(Vec3, Scalar, Vec3) -> Vec3,

    requires
        call_requires(*draw, ()),
        forall|point: Vec3, norm2: Scalar|
            accepts_spec(norm2) ==> #[trigger] call_requires(*finish, (point, norm2, norm)),
    ensures
        hemisphere_sampled(norm, *draw, *finish, r),
{
    match sample_in_ball(draw) {
        Some((point, norm2)) => {
            let r = finish(point, norm2, norm);
            assert(sampled(*draw, Some((point, norm2))));
            r
        },
        None => norm,
    }
}

} // verus!
