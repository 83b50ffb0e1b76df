//! The clock that times the generation of key material, with a record of what it timed.
//!
//! A step is recorded by the operation that performs it, and nothing else writes to the record: what
//! stands on it was done between the start of the clock and its stop.

use std::time::{Duration, Instant};

use vstd::prelude::*;

use crate::core_crypto::{
    convert_key_to_fourier, new_bootstrap_key, new_fourier_key, FourierKey,
};
use crate::params::KeyShape;

verus! {

/// What the generators of key material are set up with.
pub struct Setup {
    pub lwe_seed: u128,
    pub glwe_seed: u128,
    pub mask_seed: u128,
    pub noise_seed: u128,
    pub shape: KeyShape,
    pub noise: crate::params::NoiseDistribution,
    pub ciphertext_modulus: u128,
}

/// One step of the generation of key material, with what it gave.
pub enum Step {
    LweSecretKey(Seq<u64>),
    GlweSecretKey(Seq<u64>),
    BootstrapKey(Seq<u64>),
    FourierKey(FourierKey),
}

/// A running clock.
pub struct Stopwatch {
    began: Instant,
    setup: Ghost<Setup>,
    steps: Ghost<Seq<Step>>,
}

/// The time between the start of a clock and its stop.
pub struct Span {
    began: Instant,
    time: Duration,
    setup: Ghost<Setup>,
    steps: Ghost<Seq<Step>>,
}

/// `generate` draws LWE secret keys from the seed: it takes every dimension that fits, and its
/// outcomes are those that the seed allows, all of them.
pub open spec fn draws_lwe_keys<F: FnOnce(usize) -> Vec<u64>>(generate: F, seed: u128) -> bool {
    &&& forall|lwe_dimension: usize|
        lwe_dimension >= 1 && lwe_dimension * 8 <= isize::MAX ==> #[trigger] generate.requires(
            (lwe_dimension,),
        )
    &&& forall|lwe_dimension: usize, key: Vec<u64>| #[trigger]
        generate.ensures((lwe_dimension,), key) <==> {
            &&& crate::random::lwe_secret_keys(lwe_dimension, seed).contains(key@)
            &&& key@.len() == lwe_dimension
            &&& crate::lwe::binary(key@)
        }
}

/// `generate` draws GLWE secret keys from the seed: it takes all sizes that fit, and its outcomes
/// are those that the seed allows, all of them.
pub open spec fn draws_glwe_keys<F: FnOnce(usize, usize) -> Vec<u64>>(
    generate: F,
    seed: u128,
) -> bool {
    &&& forall|glwe_dimension: usize, polynomial_size: usize|
        glwe_dimension >= 1 && polynomial_size >= 1 && glwe_dimension * polynomial_size * 8
            <= isize::MAX ==> #[trigger] generate.requires((glwe_dimension, polynomial_size))
    &&& forall|glwe_dimension: usize, polynomial_size: usize, key: Vec<u64>| #[trigger]
        generate.ensures((glwe_dimension, polynomial_size), key) <==> {
            &&& crate::random::glwe_secret_keys(glwe_dimension, polynomial_size, seed).contains(
                key@,
            )
            &&& key@.len() == glwe_dimension * polynomial_size
            &&& crate::lwe::binary(key@)
        }
}

/// `generate` draws bootstrap keys from the two seeds of `setup`: it takes keys of the sizes that
/// the shape asks for, and its outcomes are those that these keys and the setup allow, all of them.
pub open spec fn draws_bootstrap_keys<F: FnOnce(&[u64], &[u64], Vec<u64>) -> Vec<u64>>(
    generate: F,
    setup: Setup,
) -> bool {
    let shape = setup.shape;
    &&& forall|input_lwe_key: &[u64], output_glwe_key: &[u64], bsk: Vec<u64>|
        input_lwe_key@.len() == shape.input_lwe_dimension && output_glwe_key@.len()
            == shape.glwe_dimension * shape.polynomial_size && bsk@.len() == shape.scalars()
            ==> #[trigger] generate.requires((input_lwe_key, output_glwe_key, bsk))
    &&& forall|input_lwe_key: &[u64], output_glwe_key: &[u64], bsk: Vec<u64>, filled: Vec<u64>|
     #[trigger]
        generate.ensures((input_lwe_key, output_glwe_key, bsk), filled) <==> {
            &&& filled@.len() == shape.scalars()
            &&& crate::random::bootstrap_keys(
                input_lwe_key@,
                output_glwe_key@,
                shape,
                setup.noise,
                setup.ciphertext_modulus,
                setup.mask_seed,
                setup.noise_seed,
            ).contains(filled@)
        }
}

/// Calls `f`: what comes back is what that call gave.
fn call<F: FnOnce() -> T, T>(f: F) -> (r: T)
    requires
        f.requires(()),
    ensures
        f.ensures((), r),
{
    f()
}

/// Calls `f` on `a`: what comes back is what that call gave.
fn call_on<A, F: FnOnce(A) -> T, T>(f: F, a: A) -> (r: T)
    requires
        f.requires((a,)),
    ensures
        f.ensures((a,), r),
{
    f(a)
}

impl Stopwatch {
    /// The reading of the clock at its start.
    pub closed spec fn began(&self) -> Instant {
        self.began
    }

    /// What the generators were set up with before the start.
    pub closed spec fn setup(&self) -> Setup {
        self.setup@
    }

    /// The steps that were performed since the start.
    pub closed spec fn steps(&self) -> Seq<Step> {
        self.steps@
    }

    /// Starts the clock, with the generators ready.
    pub(crate) fn start<L, G, B>(
        lwe_generator: &L,
        glwe_generator: &G,
        bootstrap_generator: &B,
        Ghost(setup): Ghost<Setup>,
    ) -> (clock: Self) where
        L: FnOnce(usize) -> Vec<u64>,
        G: FnOnce(usize, usize) -> Vec<u64>,
        B: FnOnce(&[u64], &[u64], Vec<u64>) -> Vec<u64>,

        requires
            draws_lwe_keys(*lwe_generator, setup.lwe_seed),
            draws_glwe_keys(*glwe_generator, setup.glwe_seed),
            draws_bootstrap_keys(*bootstrap_generator, setup),
        ensures
            call_ensures(Instant::now, (), clock.began()),
            clock.setup() == setup,
            clock.steps() == Seq::<Step>::empty(),
    {
        Stopwatch { began: call(Instant::now), setup: Ghost(setup), steps: Ghost(Seq::empty()) }
    }

    /// Draws an LWE secret key.
    pub(crate) fn lwe_secret_key<F: FnOnce(usize) -> Vec<u64>>(
        &mut self,
        generate: F,
        lwe_dimension: usize,
    ) -> (key: Vec<u64>)
        requires
            draws_lwe_keys(generate, old(self).setup().lwe_seed),
            lwe_dimension >= 1,
            lwe_dimension * 8 <= isize::MAX,
        ensures
            crate::random::lwe_secret_keys(lwe_dimension, old(self).setup().lwe_seed).contains(
                key@,
            ),
            key@.len() == lwe_dimension,
            crate::lwe::binary(key@),
            final(self).began() == old(self).began(),
            final(self).setup() == old(self).setup(),
            final(self).steps() == old(self).steps().push(Step::LweSecretKey(key@)),
    {
        let key = generate(lwe_dimension);
        self.steps = Ghost(self.steps@.push(Step::LweSecretKey(key@)));
        key
    }

    /// Draws a GLWE secret key.
    pub(crate) fn glwe_secret_key<F: FnOnce(usize, usize) -> Vec<u64>>(
        &mut self,
        generate: F,
        glwe_dimension: usize,
        polynomial_size: usize,
    ) -> (key: Vec<u64>)
        requires
            draws_glwe_keys(generate, old(self).setup().glwe_seed),
            glwe_dimension >= 1,
            polynomial_size >= 1,
            glwe_dimension * polynomial_size * 8 <= isize::MAX,
        ensures
            crate::random::glwe_secret_keys(
                glwe_dimension,
                polynomial_size,
                old(self).setup().glwe_seed,
            ).contains(key@),
            key@.len() == glwe_dimension * polynomial_size,
            crate::lwe::binary(key@),
            final(self).began() == old(self).began(),
            final(self).setup() == old(self).setup(),
            final(self).steps() == old(self).steps().push(Step::GlweSecretKey(key@)),
    {
        let key = generate(glwe_dimension, polynomial_size);
        self.steps = Ghost(self.steps@.push(Step::GlweSecretKey(key@)));
        key
    }

    /// Draws a bootstrap key of the shape of the setup.
    pub(crate) fn bootstrap_key<F: FnOnce(&[u64], &[u64], Vec<u64>) -> Vec<u64>>(
        &mut self,
        generate: F,
        input_lwe_key: &[u64],
        output_glwe_key: &[u64],
        shape: &KeyShape,
        ciphertext_modulus: u128,
    ) -> (bsk: Vec<u64>)
        requires
            draws_bootstrap_keys(generate, old(self).setup()),
            *shape == old(self).setup().shape,
            ciphertext_modulus == old(self).setup().ciphertext_modulus,
            shape.valid(),
            crate::params::modulus_supported(ciphertext_modulus),
            input_lwe_key@.len() == shape.input_lwe_dimension,
            output_glwe_key@.len() == shape.glwe_dimension * shape.polynomial_size,
        ensures
            bsk@.len() == shape.scalars(),
            crate::random::bootstrap_keys(
                input_lwe_key@,
                output_glwe_key@,
                *shape,
                old(self).setup().noise,
                ciphertext_modulus,
                old(self).setup().mask_seed,
                old(self).setup().noise_seed,
            ).contains(bsk@),
            final(self).began() == old(self).began(),
            final(self).setup() == old(self).setup(),
            final(self).steps() == old(self).steps().push(Step::BootstrapKey(bsk@)),
    {
        let bsk = generate(
            input_lwe_key,
            output_glwe_key,
            new_bootstrap_key(shape, ciphertext_modulus),
        );
        self.steps = Ghost(self.steps@.push(Step::BootstrapKey(bsk@)));
        bsk
    }

    /// Transforms a bootstrap key to the Fourier domain.
    pub(crate) fn fourier_key(
        &mut self,
        bsk: &[u64],
        shape: &KeyShape,
        ciphertext_modulus: u128,
    ) -> (fbsk: FourierKey)
        requires
            shape.valid(),
            crate::params::modulus_supported(ciphertext_modulus),
            bsk@.len() == shape.scalars(),
        ensures
            crate::core_crypto::fourier_key_shape(fbsk) == *shape,
            crate::core_crypto::fourier_keys(bsk@, *shape).contains(fbsk),
            final(self).began() == old(self).began(),
            final(self).setup() == old(self).setup(),
            final(self).steps() == old(self).steps().push(Step::FourierKey(fbsk)),
    {
        let mut fbsk = new_fourier_key(shape);
        convert_key_to_fourier(bsk, &mut fbsk, shape, ciphertext_modulus);
        self.steps = Ghost(self.steps@.push(Step::FourierKey(fbsk)));
        fbsk
    }

    /// Stops the clock.
    pub(crate) fn stop(self) -> (span: Span)
        ensures
            span.began() == self.began(),
            call_ensures(Instant::elapsed, (&span.began(),), span.elapsed()),
            span.setup() == self.setup(),
            span.steps() == self.steps(),
    {
        let time = call_on(Instant::elapsed, &self.began);
        Span { began: self.began, time, setup: self.setup, steps: self.steps }
    }
}

impl Span {
    /// The reading of the clock at its start.
    pub closed spec fn began(&self) -> Instant {
        self.began
    }

    /// The time that had elapsed at the stop.
    pub closed spec fn elapsed(&self) -> Duration {
        self.time
    }

    /// What the generators were set up with before the start.
    pub closed spec fn setup(&self) -> Setup {
        self.setup@
    }

    /// The steps that were performed in between.
    pub closed spec fn steps(&self) -> Seq<Step> {
        self.steps@
    }

    /// The time that had elapsed at the stop, as a value.
    pub fn time(&self) -> (time: Duration)
        ensures
            time == self.elapsed(),
    {
        self.time
    }
}

} // verus!
