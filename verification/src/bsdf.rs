//! Reflectance models: their shape, their weights, and how a sum of models
//! is evaluated and sampled.
//!
//! A model is a diffuse lobe, a Blinn–Phong specular lobe, or the sum of two
//! models.  What a single lobe scatters is numeric work; it reaches this
//! module as a `Kernel` of functions.  The module holds the tree, the weights
//! by which a sum picks between its children, the rule that a sum samples one
//! child and evaluates the other, and the bounded loop that resamples while a
//! sample is black.

use vstd::prelude::*;
use vstd::arithmetic::power2::*;
use vstd::bits::lemma_u128_shr_is_div;
use crate::sampling::MAX_ATTEMPTS;
use crate::scalar::Scalar;
use crate::scalar::HIDDEN_BIT;
use crate::scalar::ONE_BITS;
use crate::vector::Color;
use crate::vector::Vec3;

verus! {

/// A reflectance model.
#[derive(Debug)]
pub enum BSDF {
    /// Scatters evenly over the hemisphere, tinted by `color`.
    Diffuse { color: Color },
    /// A glossy lobe around the mirror direction; `n` is its sharpness.
    BlinnPhongSpecular { color: Color, n: i32 },
    /// The sum of two models, sampled as a mixture of them.
    Add(Box<BSDF>, Box<BSDF>),
}

/// A value scattered between two directions, with the density of the
/// incoming one.
pub type Response = (Color, Scalar);

/// An incoming direction with the response along it.
pub type Sample = (Vec3, Color, Scalar);

/// The numeric work behind the models.
pub struct Kernel<U, S, E, M> {
    /// Draws a number uniformly from [0, 1).
    pub uniform: U,
    /// Samples an incoming direction from one lobe, given the outgoing
    /// direction and the normal.
    pub sample_lobe: S,
    /// Evaluates one lobe for an incoming direction, an outgoing direction
    /// and the normal.
    pub lobe_f_p: E,
    /// Combines the responses of the two children of a sum, each with its
    /// weight: the values add up, the densities average by weight.
    pub mix: M,
}

impl<U, S, E, M> Kernel<U, S, E, M> where
    U: Fn() -> Scalar,
    S: Fn(&BSDF, Vec3, Vec3) -> Sample,
    E: Fn(&BSDF, Vec3, Vec3, Vec3) -> Response,
    M: Fn(Response, u64, Response, u64) -> Response,
 {
    /// Every function of the kernel may be called: the two that work on a
    /// lobe on every lobe, the others on every input.
    pub open spec fn ready(self) -> bool {
        &&& call_requires(self.uniform, ())
        &&& forall|lobe: BSDF, refl: Vec3, norm: Vec3|
            lobe.is_lobe() ==> #[trigger] call_requires(self.sample_lobe, (&lobe, refl, norm))
        &&& forall|lobe: BSDF, infl: Vec3, refl: Vec3, norm: Vec3|
            lobe.is_lobe() ==> #[trigger] call_requires(self.lobe_f_p, (&lobe, infl, refl, norm))
        &&& forall|x: Response, w1: u64, y: Response, w2: u64| #[trigger]
            call_requires(self.mix, (x, w1, y, w2))
    }

    /// Every lobe evaluates, along a direction it sampled, to the response
    /// it sampled.
    pub open spec fn lobes_agree(self) -> bool {
        forall|lobe: BSDF, refl: Vec3, norm: Vec3, out: Sample|
            lobe.is_lobe() && #[trigger] call_ensures(self.sample_lobe, (&lobe, refl, norm), out)
                ==> call_ensures(self.lobe_f_p, (&lobe, out.0, refl, norm), (out.1, out.2))
    }
}

impl BSDF {
    /// The model is a single lobe, not a sum.
    pub open spec fn is_lobe(self) -> bool {
        !(self is Add)
    }

    /// The weight of a model in a mixture: 1 for a lobe, and for a sum the
    /// sum of its children's weights.
    pub open spec fn weight_spec(self) -> nat
        decreases self,
    {
        match self {
            BSDF::Add(first, second) => first.weight_spec() + second.weight_spec(),
            _ => 1,
        }
    }

    /// The weight as the machine holds it: kept at `u64::MAX` above that.
    pub open spec fn weight_held(self) -> u64 {
        if self.weight_spec() > u64::MAX {
            u64::MAX
        } else {
            self.weight_spec() as u64
        }
    }

    /// Every specular lobe in the model has a sharpness of at least zero.
    pub open spec fn well_formed(self) -> bool
        decreases self,
    {
        match self {
            BSDF::Diffuse { .. } => true,
            BSDF::BlinnPhongSpecular { n, .. } => n >= 0,
            BSDF::Add(first, second) => first.well_formed() && second.well_formed(),
        }
    }

    /// `out` is a response the model can have between `infl` and `refl`: for
    /// a lobe what the kernel evaluates, for a sum the mix of a response of
    /// each child.
    pub open spec fn evaluates<U, S, E, M>(
        self,
        kernel: Kernel<U, S, E, M>,
        infl: Vec3,
        refl: Vec3,
        norm: Vec3,
        out: Response,
    ) -> bool where
        U: Fn() -> Scalar,
        S: Fn(&BSDF, Vec3, Vec3) -> Sample,
        E: Fn(&BSDF, Vec3, Vec3, Vec3) -> Response,
        M: Fn(Response, u64, Response, u64) -> Response,

        decreases self,
    {
        match self {
            BSDF::Add(first, second) => exists|x: Response, y: Response|
                first.evaluates(kernel, infl, refl, norm, x) && second.evaluates(
                    kernel,
                    infl,
                    refl,
                    norm,
                    y,
                ) && #[trigger] call_ensures(
                    kernel.mix,
                    (x, first.weight_held(), y, second.weight_held()),
                    out,
                ),
            _ => call_ensures(kernel.lobe_f_p, (&self, infl, refl, norm), out),
        }
    }

    /// `out` is a sample the model can give for `refl`.  A lobe gives what
    /// the kernel samples.  A sum draws a uniform number, samples its first
    /// child where the number lies below the share of the first child's
    /// weight in the weight of the sum and its second child otherwise,
    /// evaluates the other child along the sampled direction, and mixes the
    /// two responses.
    pub open spec fn samples<U, S, E, M>(
        self,
        kernel: Kernel<U, S, E, M>,
        refl: Vec3,
        norm: Vec3,
        out: Sample,
    ) -> bool where
        U: Fn() -> Scalar,
        S: Fn(&BSDF, Vec3, Vec3) -> Sample,
        E: Fn(&BSDF, Vec3, Vec3, Vec3) -> Response,
        M: Fn(Response, u64, Response, u64) -> Response,

        decreases self,
    {
        match self {
            BSDF::Add(first, second) => exists|u: Scalar, x: Response, y: Response|
                #![trigger
                    call_ensures(kernel.uniform, (), u),
                    call_ensures(kernel.mix, (x, first.weight_held(), y, second.weight_held()), (out.1, out.2)),
                ]
                call_ensures(kernel.uniform, (), u) && call_ensures(
                    kernel.mix,
                    (x, first.weight_held(), y, second.weight_held()),
                    (out.1, out.2),
                ) && if picks_first_spec(u, first.weight_held(), second.weight_held()) {
                    first.samples(kernel, refl, norm, (out.0, x.0, x.1)) && second.evaluates(
                        kernel,
                        out.0,
                        refl,
                        norm,
                        y,
                    )
                } else {
                    second.samples(kernel, refl, norm, (out.0, y.0, y.1)) && first.evaluates(
                        kernel,
                        out.0,
                        refl,
                        norm,
                        x,
                    )
                },
            _ => call_ensures(kernel.sample_lobe, (&self, refl, norm), out),
        }
    }

    /// A model has at least one lobe.
    pub proof fn lemma_weight_positive(self)
        ensures
            self.weight_spec() >= 1,
        decreases self,
    {
        match self {
            BSDF::Add(first, second) => {
                first.lemma_weight_positive();
            },
            _ => {},
        }
    }

    /// Sampling and evaluation agree.  Where every lobe evaluates, along a
    /// direction it sampled, to the response it sampled, so does every sum of
    /// lobes: evaluating a model along a sampled direction gives the sampled
    /// value and density.
    pub proof fn lemma_sample_then_evaluate<U, S, E, M>(
        self,
        kernel: Kernel<U, S, E, M>,
        refl: Vec3,
        norm: Vec3,
        sample: Sample,
    ) where
        U: Fn() -> Scalar,
        S: Fn(&BSDF, Vec3, Vec3) -> Sample,
        E: Fn(&BSDF, Vec3, Vec3, Vec3) -> Response,
        M: Fn(Response, u64, Response, u64) -> Response,

        requires
            kernel.lobes_agree(),
            self.samples(kernel, refl, norm, sample),
        ensures
            self.evaluates(kernel, sample.0, refl, norm, (sample.1, sample.2)),
        decreases self,
    {
        match self {
            BSDF::Add(first, second) => {
                let (w1, w2) = (first.weight_held(), second.weight_held());
                let (u, x, y) = choose|u: Scalar, x: Response, y: Response|
                    #![trigger
                        call_ensures(kernel.uniform, (), u),
                        call_ensures(kernel.mix, (x, w1, y, w2), (sample.1, sample.2)),
                    ]
                    call_ensures(kernel.uniform, (), u) && call_ensures(
                        kernel.mix,
                        (x, w1, y, w2),
                        (sample.1, sample.2),
                    ) && if picks_first_spec(u, w1, w2) {
                        first.samples(kernel, refl, norm, (sample.0, x.0, x.1))
                            && second.evaluates(kernel, sample.0, refl, norm, y)
                    } else {
                        second.samples(kernel, refl, norm, (sample.0, y.0, y.1))
                            && first.evaluates(kernel, sample.0, refl, norm, x)
                    };
                if picks_first_spec(u, w1, w2) {
                    first.lemma_sample_then_evaluate(kernel, refl, norm, (sample.0, x.0, x.1));
                } else {
                    second.lemma_sample_then_evaluate(kernel, refl, norm, (sample.0, y.0, y.1));
                }
                assert(first.evaluates(kernel, sample.0, refl, norm, x));
                assert(second.evaluates(kernel, sample.0, refl, norm, y));
            },
            _ => {
                assert(self.is_lobe());
            },
        }
    }

    /// The response of a sum is the mix of a response of each child, each
    /// taken with the weight of its child, the first child first; and the
    /// weight of the sum is the sum of the two weights.
    pub proof fn lemma_sum_mixes_by_weight<U, S, E, M>(
        first: BSDF,
        second: BSDF,
        kernel: Kernel<U, S, E, M>,
        infl: Vec3,
        refl: Vec3,
        norm: Vec3,
        x: Response,
        y: Response,
        out: Response,
    ) where
        U: Fn() -> Scalar,
        S: Fn(&BSDF, Vec3, Vec3) -> Sample,
        E: Fn(&BSDF, Vec3, Vec3, Vec3) -> Response,
        M: Fn(Response, u64, Response, u64) -> Response,

        requires
            first.evaluates(kernel, infl, refl, norm, x),
            second.evaluates(kernel, infl, refl, norm, y),
            call_ensures(kernel.mix, (x, first.weight_held(), y, second.weight_held()), out),
        ensures
            BSDF::Add(Box::new(first), Box::new(second)).evaluates(kernel, infl, refl, norm, out),
            BSDF::Add(Box::new(first), Box::new(second)).weight_spec() == first.weight_spec()
                + second.weight_spec(),
    {
    }

    /// The weight of the model, kept at `u64::MAX` should it ever exceed it.
    pub fn weight(&self) -> (w: u64)
        ensures
            w == self.weight_held(),
            w >= 1,
        decreases self,
    {
        match self {
            BSDF::Add(first, second) => {
                let w1: u64 = first.weight();
                let w2: u64 = second.weight();
                w1.saturating_add(w2)
            },
            _ => 1,
        }
    }

    /// The sum of this model and another.
    pub fn add(self, other: BSDF) -> (sum: BSDF)
        ensures
            sum == BSDF::Add(Box::new(self), Box::new(other)),
            sum.weight_spec() == self.weight_spec() + other.weight_spec(),
            sum.well_formed() == (self.well_formed() && other.well_formed()),
    {
        BSDF::Add(Box::new(self), Box::new(other))
    }

    /// The value scattered from `infl` to `refl` at a surface with normal
    /// `norm`, and the density with which sampling from `refl` gives `infl`.
    /// A sum adds the values of its children and averages their densities by
    /// weight: it hands the kernel's `mix` the response and the weight of
    /// each child, first child first.
    pub fn f_p<U, S, E, M>(
        &self,
        infl: Vec3,
        refl: Vec3,
        norm: Vec3,
        kernel: &Kernel<U, S, E, M>,
    ) -> (r: Response) where
        U: Fn() -> Scalar,
        S: Fn(&BSDF, Vec3, Vec3) -> Sample,
        E: Fn(&BSDF, Vec3, Vec3, Vec3) -> Response,
        M: Fn(Response, u64, Response, u64) -> Response,

        requires
            kernel.ready(),
        ensures
            self.evaluates(*kernel, infl, refl, norm, r),
        decreases self,
    {
        match self {
            BSDF::Add(first, second) => {
                let x = first.f_p(infl, refl, norm, kernel);
                let y = second.f_p(infl, refl, norm, kernel);
                let w1: u64 = first.weight();
                let w2: u64 = second.weight();
                (kernel.mix)(x, w1, y, w2)
            },
            _ => (kernel.lobe_f_p)(self, infl, refl, norm),
        }
    }

    /// An incoming direction drawn from the model's own distribution for
    /// `refl`, with the response along it.  A sum picks one child with a
    /// probability in proportion to its weight, samples it, and evaluates the
    /// other child along the same direction.
    pub fn sample_f_p<U, S, E, M>(
        &self,
        refl: Vec3,
        norm: Vec3,
        kernel: &Kernel<U, S, E, M>,
    ) -> (r: Sample) where
        U: Fn() -> Scalar,
        S: Fn(&BSDF, Vec3, Vec3) -> Sample,
        E: Fn(&BSDF, Vec3, Vec3, Vec3) -> Response,
        M: Fn(Response, u64, Response, u64) -> Response,

        requires
            kernel.ready(),
        ensures
            self.samples(*kernel, refl, norm, r),
        decreases self,
    {
        match self {
            BSDF::Add(first, second) => {
                let w1: u64 = first.weight();
                let w2: u64 = second.weight();
                let u = (kernel.uniform)();
                if picks_first(u, w1, w2) {
                    let drawn = first.sample_f_p(refl, norm, kernel);
                    let x: Response = (drawn.1, drawn.2);
                    let y = second.f_p(drawn.0, refl, norm, kernel);
                    let mixed = (kernel.mix)(x, w1, y, w2);
                    let r = (drawn.0, mixed.0, mixed.1);
                    proof {
                        assert(first.samples(*kernel, refl, norm, (r.0, x.0, x.1)));
                        assert(call_ensures(
                            kernel.mix,
                            (x, first.weight_held(), y, second.weight_held()),
                            (r.1, r.2),
                        ));
                    }
                    r
                } else {
                    let drawn = second.sample_f_p(refl, norm, kernel);
                    let y: Response = (drawn.1, drawn.2);
                    let x = first.f_p(drawn.0, refl, norm, kernel);
                    let mixed = (kernel.mix)(x, w1, y, w2);
                    let r = (drawn.0, mixed.0, mixed.1);
                    proof {
                        assert(second.samples(*kernel, refl, norm, (r.0, y.0, y.1)));
                        assert(call_ensures(
                            kernel.mix,
                            (x, first.weight_held(), y, second.weight_held()),
                            (r.1, r.2),
                        ));
                    }
                    r
                }
            },
            _ => (kernel.sample_lobe)(self, refl, norm),
        }
    }

    /// Every entry of `trail` is a sample the model can give, and is black.
    pub open spec fn black_run<U, S, E, M>(
        self,
        kernel: Kernel<U, S, E, M>,
        refl: Vec3,
        norm: Vec3,
        trail: Seq<Sample>,
    ) -> bool where
        U: Fn() -> Scalar,
        S: Fn(&BSDF, Vec3, Vec3) -> Sample,
        E: Fn(&BSDF, Vec3, Vec3, Vec3) -> Response,
        M: Fn(Response, u64, Response, u64) -> Response,
     {
        forall|i: int|
            0 <= i < trail.len() ==> self.samples(kernel, refl, norm, #[trigger] trail[i])
                && trail[i].1.is_black_spec()
    }

    /// What `sample_nonzero_f_p` returns, as a sample and the number of draws
    /// it took.  Either the sample is the first that is not black, after
    /// fewer than `MAX_ATTEMPTS` black ones; or `MAX_ATTEMPTS` samples were
    /// black, and the result keeps the direction of the last of them with an
    /// exactly black value and a density of 1.
    pub open spec fn resamples<U, S, E, M>(
        self,
        kernel: Kernel<U, S, E, M>,
        refl: Vec3,
        norm: Vec3,
        r: (Sample, u32),
    ) -> bool where
        U: Fn() -> Scalar,
        S: Fn(&BSDF, Vec3, Vec3) -> Sample,
        E: Fn(&BSDF, Vec3, Vec3, Vec3) -> Response,
        M: Fn(Response, u64, Response, u64) -> Response,
     {
        let (kept, attempts) = r;
        &&& 1 <= attempts <= MAX_ATTEMPTS
        &&& exists|trail: Seq<Sample>|
            trail.len() == attempts - 1 && #[trigger] self.black_run(kernel, refl, norm, trail)
        &&& if kept.1.is_black_spec() {
            &&& attempts == MAX_ATTEMPTS
            &&& kept.1 == Color::black_spec()
            &&& kept.2 == Scalar { bits: ONE_BITS }
            &&& exists|last: Sample| #[trigger]
                self.samples(kernel, refl, norm, last) && last.1.is_black_spec() && last.0
                    == kept.0
        } else {
            self.samples(kernel, refl, norm, kept)
        }
    }

    /// Samples until the value is not black, and reports how many draws that
    /// took; the caller divides the value by that number.  After
    /// `MAX_ATTEMPTS` black samples the loop gives up with a black value and
    /// a density of 1, so that value over density is zero.
    pub fn sample_nonzero_f_p<U, S, E, M>(
        &self,
        refl: Vec3,
        norm: Vec3,
        kernel: &Kernel<U, S, E, M>,
    ) -> (r: (Sample, u32)) where
        U: Fn() -> Scalar,
        S: Fn(&BSDF, Vec3, Vec3) -> Sample,
        E: Fn(&BSDF, Vec3, Vec3, Vec3) -> Response,
        M: Fn(Response, u64, Response, u64) -> Response,

        requires
            kernel.ready(),
        ensures
            self.resamples(*kernel, refl, norm, r),
    {
        let ghost mut trail: Seq<Sample> = Seq::empty();
        let mut count: u32 = 1;
        loop
            invariant
                1 <= count <= MAX_ATTEMPTS,
                kernel.ready(),
                trail.len() == count - 1,
                self.black_run(*kernel, refl, norm, trail),
            decreases MAX_ATTEMPTS - count,
        {
            let (infl, f, p) = self.sample_f_p(refl, norm, kernel);
            if !f.is_black() {
                return ((infl, f, p), count);
            }
            if count == MAX_ATTEMPTS {
                return ((infl, Color::black(), Scalar::one()), count);
            }
            proof {
                let ghost before = trail;
                trail = trail.push((infl, f, p));
                assert forall|i: int| 0 <= i < trail.len() implies self.samples(
                    *kernel,
                    refl,
                    norm,
                    #[trigger] trail[i],
                ) && trail[i].1.is_black_spec() by {
                    if i < before.len() {
                        assert(trail[i] == before[i]);
                    }
                }
            }
            count = count + 1;
        }
    }
}

/// A uniform number `u` falls to the first of two weights where it lies
/// below the first weight's share of their sum: u · (w1 + w2) < w1, with no
/// rounding.  The value of `u` counts units of 2^-149.
pub open spec fn picks_first_spec(u: Scalar, w1: u64, w2: u64) -> bool {
    !u.is_nan_spec() && u.value() * (w1 + w2) < w1 * pow2(149)
}

/// Whether a number drawn uniformly from [0, 1) falls to the first of two
/// weights, so that the first is picked with probability w1 / (w1 + w2).
pub fn picks_first(u: Scalar, w1: u64, w2: u64) -> (r: bool)
    ensures
        r == picks_first_spec(u, w1, w2),
{
    if u.is_nan() {
        return false;
    }
    let e: u32 = u.biased_exponent();
    let f: u32 = u.fraction_bits();
    let whole: u128 = w1 as u128 + w2 as u128;
    let mant: u32 = if e == 0 {
        f
    } else {
        HIDDEN_BIT + f
    };
    let k: u32 = if e == 0 {
        0
    } else {
        e - 1
    };
    let ghost c: int = pow2(k as nat) as int;
    let ghost unit: int = pow2(149) as int;
    let ghost lhs: int = u.value() * (w1 + w2);
    let ghost rhs: int = w1 * pow2(149);
    proof {
        lemma_pow2_pos(k as nat);
        lemma_pow2_pos(149);
        lemma2_to64();
        if e == 0 {
            assert(u.size() == f);
            assert(mant * pow2(0) == mant) by (nonlinear_arith)
                requires
                    pow2(0) == 1,
            ;
        } else {
            assert(u.size() == (HIDDEN_BIT as nat + f as nat) * pow2((e - 1) as nat));
        }
        assert(u.size() == mant * c);
        assert(mant * whole < 0x200_0000_0000_0000_0000_0000) by (nonlinear_arith)
            requires
                0 <= mant < 0x100_0000,
                0 <= whole < 0x2_0000_0000_0000_0000,
        ;
        assert((rhs > 0) == (w1 != 0) && rhs >= 0) by (nonlinear_arith)
            requires
                rhs == w1 * unit,
                unit > 0,
                w1 >= 0,
        ;
    }
    if u.sign() {
        proof {
            if mant != 0 && whole != 0 {
                assert(lhs < 0) by (nonlinear_arith)
                    requires
                        lhs == (-(mant * c)) * whole,
                        mant > 0,
                        c > 0,
                        whole > 0,
                ;
            } else {
                assert(lhs == 0) by (nonlinear_arith)
                    requires
                        lhs == (-(mant * c)) * whole,
                        mant == 0 || whole == 0,
                ;
            }
        }
        (mant != 0 && whole != 0) || w1 != 0
    } else if k >= 149 {
        proof {
            if k > 149 {
                lemma_pow2_strictly_increases(149, k as nat);
            }
            assert(lhs >= rhs) by (nonlinear_arith)
                requires
                    lhs == (mant * c) * whole,
                    rhs == w1 * unit,
                    mant >= 1,
                    c >= unit,
                    unit > 0,
                    whole >= w1,
                    w1 >= 0,
            ;
        }
        false
    } else {
        let s: u32 = 149 - k;
        let product: u128 = mant as u128 * whole;
        let ghost d: int = pow2(s as nat) as int;
        proof {
            lemma_pow2_adds(k as nat, s as nat);
            lemma_pow2_pos(s as nat);
            assert(c * d == unit);
            lemma_shift_share(mant as int, c, whole as int, w1 as int, d);
            assert(lhs == mant * c * whole);
            assert(rhs == w1 * (c * d));
            assert((lhs < rhs) == (product as int / d < w1));
        }
        if s >= 128 {
            proof {
                lemma_pow2_adds(64, 64);
                if s > 128 {
                    lemma_pow2_strictly_increases(128, s as nat);
                }
                assert(pow2(128) == 0x1_0000_0000_0000_0000_0000_0000_0000_0000);
                assert(product < d);
                vstd::arithmetic::div_mod::lemma_basic_div(product as int, d);
            }
            w1 != 0
        } else {
            proof {
                lemma_u128_shr_is_div(product, s as u128);
            }
            (product >> (s as u128)) < w1 as u128
        }
    }
}

/// Both sides of the comparison divided by a power of two: with c · d the
/// unit, m · c · w < p · (c · d) exactly when m · w / d < p.
proof fn lemma_shift_share(m: int, c: int, w: int, p: int, d: int)
    requires
        m >= 0,
        w >= 0,
        p >= 0,
        c > 0,
        d > 0,
    ensures
        (m * c * w < p * (c * d)) <==> ((m * w) / d < p),
{
    let x = m * w;
    vstd::arithmetic::div_mod::lemma_fundamental_div_mod(x, d);
    vstd::arithmetic::div_mod::lemma_mod_bound(x, d);
    assert(m * c * w == x * c) by (nonlinear_arith)
        requires
            x == m * w,
    ;
    assert(p * (c * d) == (p * d) * c) by (nonlinear_arith);
    assert((x * c < (p * d) * c) <==> (x < p * d)) by (nonlinear_arith)
        requires
            c > 0,
    ;
    let q = x / d;
    let r = x % d;
    assert((x < p * d) <==> (q < p)) by (nonlinear_arith)
        requires
            x == d * q + r,
            0 <= r < d,
            d > 0,
    ;
}

/// The Blinn–Phong model: a diffuse lobe of color `diff` plus a specular lobe
/// of color `spec` and sharpness `n`.
pub fn blinn_phong(diff: Color, spec: Color, n: i32) -> (model: BSDF)
    ensures
        model == BSDF::Add(
            Box::new(BSDF::Diffuse { color: diff }),
            Box::new(BSDF::BlinnPhongSpecular { color: spec, n }),
        ),
        model.weight_spec() == 2,
        model.well_formed() == (n >= 0),
{
    let diffuse = BSDF::Diffuse { color: diff };
    let specular = BSDF::BlinnPhongSpecular { color: spec, n };
    diffuse.add(specular)
}

/// The model of a surface that reflects nothing: a black diffuse lobe.
pub fn black_body() -> (model: BSDF)
    ensures
        model == (BSDF::Diffuse { color: Color::black_spec() }),
        model.weight_spec() == 1,
        model.well_formed(),
{
    BSDF::Diffuse { color: Color::black() }
}

/// A halfway vector and its cosine with the normal, turned into the
/// hemisphere of the normal.
pub open spec fn face_normal_spec(halfway: Vec3, cos: Scalar) -> (Vec3, Scalar) {
    if cos.is_negative_spec() {
        (halfway.neg_spec(), cos.neg_spec())
    } else {
        (halfway, cos)
    }
}

/// Turns a halfway vector into the hemisphere of the normal: where its
/// cosine with the normal is below zero, both are reversed.  The cosine that
/// comes back is never below zero.
pub fn face_normal(halfway: Vec3, cos: Scalar) -> (r: (Vec3, Scalar))
    ensures
        r == face_normal_spec(halfway, cos),
        !r.1.is_negative_spec(),
{
    if cos.is_negative() {
        (halfway.neg(), cos.neg())
    } else {
        (halfway, cos)
    }
}

/// The value of a lobe for light that arrives with cosine `cos` to the
/// normal: black from below the surface, `value` otherwise.
pub fn clip_below_surface(cos: Scalar, value: Color) -> (r: Color)
    ensures
        r == (if cos.is_negative_spec() {
            Color::black_spec()
        } else {
            value
        }),
{
    if cos.is_negative() {
        Color::black()
    } else {
        value
    }
}

} // verus!
