//! What draws random numbers: seeds, keys and encryptions.
//!
//! The first part are the operations of `tfhe`, with what is claimed of each. They draw from seeds,
//! by a generator that differs from machine to machine, so a name stands for the set of all outcomes
//! that the arguments and the seeds allow. The second part generates the key material as a whole and
//! takes the time of it.

use tfhe::core_crypto::commons::generators::DeterministicSeeder;
use tfhe::core_crypto::commons::math::random::Seed as GeneratorSeed;
use tfhe::core_crypto::prelude::{
    allocate_and_encrypt_new_lwe_ciphertext, allocate_and_generate_new_binary_glwe_secret_key,
    allocate_and_generate_new_binary_lwe_secret_key, new_seeder,
    par_generate_lwe_multi_bit_bootstrap_key, ActivatedRandomGenerator, CiphertextModulus,
    DecompositionBaseLog, DecompositionLevelCount, EncryptionRandomGenerator, GlweDimension,
    GlweSecretKey, LweBskGroupingFactor, LweDimension, LweMultiBitBootstrapKey, LweSecretKey,
    Plaintext, PolynomialSize, SecretRandomGenerator,
};
use tfhe::shortint::parameters::MultiBitPBSParameters;
use vstd::prelude::*;

use crate::clock::{Setup, Span, Step, Stopwatch};
use crate::core_crypto::{glwe_key_into_lwe_key, FourierKey};
use crate::params::{CoreParams, KeyShape, NoiseDistribution};

verus! {

/// The seed of one random generator. A seed cannot be copied, and the operation that draws from it
/// takes it, so that no two operations share one.
pub struct Seed {
    value: u128,
}

impl View for Seed {
    type V = u128;

    closed spec fn view(&self) -> u128 {
        self.value
    }
}

/// The LWE secret keys of a dimension that can be generated from a seed.
pub uninterp spec fn lwe_secret_keys(lwe_dimension: usize, seed: u128) -> Set<Seq<u64>>;

/// The GLWE secret keys of a size that can be generated from a seed.
pub uninterp spec fn glwe_secret_keys(
    glwe_dimension: usize,
    polynomial_size: usize,
    seed: u128,
) -> Set<Seq<u64>>;

/// The encryptions of a plaintext under an LWE key that can be drawn from two seeds.
pub uninterp spec fn lwe_encryptions(
    key: Seq<u64>,
    plaintext: u64,
    noise: NoiseDistribution,
    ciphertext_modulus: u128,
    mask_seed: u128,
    noise_seed: u128,
) -> Set<Seq<u64>>;

/// The standard-domain bootstrap keys of a shape that can be generated from an input LWE key, an
/// output GLWE key and two seeds, with GLWE noise of the distribution `noise`.
pub uninterp spec fn bootstrap_keys(
    input_lwe_key: Seq<u64>,
    output_glwe_key: Seq<u64>,
    shape: KeyShape,
    noise: NoiseDistribution,
    ciphertext_modulus: u128,
    mask_seed: u128,
    noise_seed: u128,
) -> Set<Seq<u64>>;

/// `tfhe`'s `new_seeder`, asked for one seed. Nothing is claimed of the seed.
#[verifier::external_body]
pub(crate) fn draw_seed() -> (seed: Seed) {
    Seed { value: new_seeder().seed().0 }
}

/// `tfhe`'s `allocate_and_generate_new_binary_lwe_secret_key`, ready to be called with a dimension:
/// its generator is set up from the seed here, and drawn from in the call. Claimed: the key is one
/// of those that the dimension and the seed allow, it has one scalar for each dimension, and each is
/// 0 or 1. Which of the two rests on chance, and none of these keys is ruled out.
#[verifier::external_body]
pub(crate) fn lwe_secret_key_generator(seed: Seed) -> (generate: impl FnOnce(usize) -> Vec<u64>)
    ensures
        forall|lwe_dimension: usize|
            lwe_dimension >= 1 && lwe_dimension * 8 <= isize::MAX ==> #[trigger] generate.requires(
                (lwe_dimension,),
            ),
        forall|lwe_dimension: usize, key: Vec<u64>| #[trigger]
            generate.ensures((lwe_dimension,), key) <==> {
                &&& lwe_secret_keys(lwe_dimension, seed@).contains(key@)
                &&& key@.len() == lwe_dimension
                &&& crate::lwe::binary(key@)
            },
{
    let seed = GeneratorSeed(seed.value);
    let mut generator = SecretRandomGenerator::<ActivatedRandomGenerator>::new(seed);
    move |lwe_dimension: usize|
        allocate_and_generate_new_binary_lwe_secret_key(LweDimension(lwe_dimension), &mut generator)
            .into_container()
}

/// `tfhe`'s `allocate_and_generate_new_binary_glwe_secret_key`, ready to be called with a GLWE
/// dimension and a polynomial size: its generator is set up from the seed here, and drawn from in
/// the call. Claimed: the key is one of those that the sizes and the seed allow, it has one scalar
/// for each coefficient of each of its polynomials, and each is 0 or 1. Which of the two rests on
/// chance, and none of these keys is ruled out.
#[verifier::external_body]
pub(crate) fn glwe_secret_key_generator(seed: Seed) -> (generate: impl FnOnce(usize, usize) -> Vec<
    u64,
>)
    ensures
        forall|glwe_dimension: usize, polynomial_size: usize|
            glwe_dimension >= 1 && polynomial_size >= 1 && glwe_dimension * polynomial_size * 8
                <= isize::MAX ==> #[trigger] generate.requires((glwe_dimension, polynomial_size)),
        forall|glwe_dimension: usize, polynomial_size: usize, key: Vec<u64>| #[trigger]
            generate.ensures((glwe_dimension, polynomial_size), key) <==> {
                &&& glwe_secret_keys(glwe_dimension, polynomial_size, seed@).contains(key@)
                &&& key@.len() == glwe_dimension * polynomial_size
                &&& crate::lwe::binary(key@)
            },
{
    let seed = GeneratorSeed(seed.value);
    let mut generator = SecretRandomGenerator::<ActivatedRandomGenerator>::new(seed);
    move |glwe_dimension: usize, polynomial_size: usize|
        allocate_and_generate_new_binary_glwe_secret_key(
            GlweDimension(glwe_dimension),
            PolynomialSize(polynomial_size),
            &mut generator,
        ).into_container()
}

/// `tfhe`'s `par_generate_lwe_multi_bit_bootstrap_key`, ready to be called with the input LWE key,
/// the output GLWE key and the bootstrap key to fill: its generator is set up here from the two
/// seeds, the second by way of a `DeterministicSeeder`, and drawn from in the call, with the GLWE
/// noise distribution of `noise`. Claimed: the filled key keeps its length and is one of those that
/// the two secret keys, the shape, the noise, the modulus and the seeds allow. Which one rests on
/// chance, and none of them is ruled out.
#[verifier::external_body]
pub(crate) fn bootstrap_key_generator(
    shape: KeyShape,
    noise: &MultiBitPBSParameters,
    ciphertext_modulus: u128,
    mask_seed: Seed,
    noise_seed: Seed,
) -> (generate: impl FnOnce(&[u64], &[u64], Vec<u64>) -> Vec<u64>)
    requires
        shape.valid(),
        crate::params::modulus_supported(ciphertext_modulus),
        crate::params::noise_drawable(
            crate::core_crypto::glwe_noise_distribution(*noise),
            ciphertext_modulus,
        ),
    ensures
        forall|input_lwe_key: &[u64], output_glwe_key: &[u64], bsk: Vec<u64>|
            input_lwe_key@.len() == shape.input_lwe_dimension && output_glwe_key@.len()
                == shape.glwe_dimension * shape.polynomial_size && bsk@.len() == shape.scalars()
                ==> #[trigger] generate.requires((input_lwe_key, output_glwe_key, bsk)),
        forall|input_lwe_key: &[u64], output_glwe_key: &[u64], bsk: Vec<u64>, filled: Vec<u64>|
         #[trigger]
            generate.ensures((input_lwe_key, output_glwe_key, bsk), filled) <==> {
                &&& filled@.len() == shape.scalars()
                &&& bootstrap_keys(
                    input_lwe_key@,
                    output_glwe_key@,
                    shape,
                    crate::core_crypto::glwe_noise_distribution(*noise),
                    ciphertext_modulus,
                    mask_seed@,
                    noise_seed@,
                ).contains(filled@)
            },
{
    let mut seeder =
        DeterministicSeeder::<ActivatedRandomGenerator>::new(GeneratorSeed(noise_seed.value));
    let mut generator = EncryptionRandomGenerator::<ActivatedRandomGenerator>::new(
        GeneratorSeed(mask_seed.value), &mut seeder);
    let (size, noise) = (PolynomialSize(shape.polynomial_size), noise.glwe_noise_distribution);
    move |input_lwe_key: &[u64], output_glwe_key: &[u64], bsk: Vec<u64>| {
        let mut key = LweMultiBitBootstrapKey::from_container(
            bsk, GlweDimension(shape.glwe_dimension).to_glwe_size(), size, DecompositionBaseLog(
            shape.decomp_base_log), DecompositionLevelCount(shape.decomp_level_count),
            LweBskGroupingFactor(shape.grouping_factor), CiphertextModulus::new(ciphertext_modulus));
        par_generate_lwe_multi_bit_bootstrap_key(
            &LweSecretKey::from_container(input_lwe_key),
            &GlweSecretKey::from_container(output_glwe_key, size), &mut key, noise, &mut generator);
        key.into_container()
    }
}

/// `tfhe`'s `allocate_and_encrypt_new_lwe_ciphertext`, with the LWE noise distribution of `noise`
/// and a generator of the two seeds, the second by way of a `DeterministicSeeder`. Claimed: the
/// ciphertext is one of those that the key, the plaintext, the noise, the modulus and the seeds
/// allow; it has one mask scalar for each key scalar and a body; its phase lies on the grid of the
/// modulus; and for `TUniform` noise it decrypts to the plaintext within the bound of that
/// distribution. The mask and the noise rest on chance; for Gaussian noise no bound is claimed.
#[verifier::external_body]
pub(crate) fn encrypt_lwe(
    key: &[u64],
    plaintext: u64,
    noise: &MultiBitPBSParameters,
    ciphertext_modulus: u128,
    mask_seed: Seed,
    noise_seed: Seed,
) -> (ct: Vec<u64>)
    requires
        1 <= key@.len(),
        (key@.len() + 1) * 8 <= isize::MAX,
        crate::params::modulus_supported(ciphertext_modulus),
        crate::params::noise_drawable(
            crate::core_crypto::lwe_noise_distribution(*noise),
            ciphertext_modulus,
        ),
    ensures
        ct@.len() == key@.len() + 1,
        lwe_encryptions(
            key@,
            plaintext,
            crate::core_crypto::lwe_noise_distribution(*noise),
            ciphertext_modulus,
            mask_seed@,
            noise_seed@,
        ).contains(ct@),
        crate::lwe::within_t_uniform_bound(
            crate::lwe::lwe_noise(ct@, key@, plaintext, ciphertext_modulus),
            crate::core_crypto::lwe_noise_distribution(*noise),
        ),
        crate::lwe::phase(ct@, key@) as int % crate::params::torus_scaling(ciphertext_modulus) == 0,
{
    let mut seeder =
        DeterministicSeeder::<ActivatedRandomGenerator>::new(GeneratorSeed(noise_seed.value));
    let mut generator = EncryptionRandomGenerator::<ActivatedRandomGenerator>::new(
        GeneratorSeed(mask_seed.value), &mut seeder);
    allocate_and_encrypt_new_lwe_ciphertext(
        &LweSecretKey::from_container(key),
        Plaintext(plaintext),
        noise.lwe_noise_distribution,
        CiphertextModulus::new(ciphertext_modulus),
        &mut generator,
    ).into_container()
}

/// The key material of a bootstrap.
pub struct KeyMaterial {
    pub input_lwe_secret_key: Vec<u64>,
    pub output_lwe_secret_key: Vec<u64>,
    pub fbsk: FourierKey,
    /// The time that it took to generate.
    pub keygen_time: std::time::Duration,
    /// What that time spans.
    pub keygen_span: Span,
}

/// Key material for the parameters `p`: both secret keys are binary keys of their sizes that a seed
/// gives, and the Fourier key comes from a bootstrap key that two seeds give of these two secret
/// keys.
pub open spec fn keys_for(
    p: CoreParams,
    input_lwe_secret_key: Seq<u64>,
    output_lwe_secret_key: Seq<u64>,
    fbsk: FourierKey,
) -> bool {
    &&& crate::core_crypto::fourier_key_shape(fbsk) == p.key_shape()
    &&& input_lwe_secret_key.len() == p.input_lwe_dimension
    &&& output_lwe_secret_key.len() == p.glwe_dimension * p.polynomial_size
    &&& crate::lwe::binary(input_lwe_secret_key)
    &&& crate::lwe::binary(output_lwe_secret_key)
    &&& exists|seed: u128| #[trigger]
        lwe_secret_keys(p.input_lwe_dimension, seed).contains(input_lwe_secret_key)
    &&& exists|seed: u128| #[trigger]
        glwe_secret_keys(p.glwe_dimension, p.polynomial_size, seed).contains(output_lwe_secret_key)
    &&& exists|bsk: Seq<u64>, mask_seed: u128, noise_seed: u128| #[trigger]
        bootstrap_keys(
            input_lwe_secret_key,
            output_lwe_secret_key,
            p.key_shape(),
            p.glwe_noise(),
            p.ciphertext_modulus,
            mask_seed,
            noise_seed,
        ).contains(bsk) && bsk.len() == p.key_shape().scalars() && crate::core_crypto::fourier_keys(
            bsk,
            p.key_shape(),
        ).contains(fbsk)
}

/// The span covers the generation of this key material for the parameters `p`, all of it and nothing
/// before: the generators were ready when it began, and in it both secret keys were drawn, then the
/// bootstrap key of these, and that key was transformed to the Fourier key.
pub open spec fn spans_key_generation(
    span: Span,
    p: CoreParams,
    input_lwe_secret_key: Seq<u64>,
    output_lwe_secret_key: Seq<u64>,
    fbsk: FourierKey,
) -> bool {
    let setup = span.setup();
    &&& setup.shape == p.key_shape()
    &&& setup.noise == p.glwe_noise()
    &&& setup.ciphertext_modulus == p.ciphertext_modulus
    &&& lwe_secret_keys(p.input_lwe_dimension, setup.lwe_seed).contains(input_lwe_secret_key)
    &&& glwe_secret_keys(p.glwe_dimension, p.polynomial_size, setup.glwe_seed).contains(
        output_lwe_secret_key,
    )
    &&& exists|bsk: Seq<u64>|
        {
            &&& span.steps() == seq![
                Step::LweSecretKey(input_lwe_secret_key),
                Step::GlweSecretKey(output_lwe_secret_key),
                Step::BootstrapKey(bsk),
                Step::FourierKey(fbsk),
            ]
            &&& #[trigger] bootstrap_keys(
                input_lwe_secret_key,
                output_lwe_secret_key,
                p.key_shape(),
                p.glwe_noise(),
                p.ciphertext_modulus,
                setup.mask_seed,
                setup.noise_seed,
            ).contains(bsk)
            &&& crate::core_crypto::fourier_keys(bsk, p.key_shape()).contains(fbsk)
        }
}

/// Generates both secret keys, the bootstrap key and its transform, and takes the time of that.
/// The generators are seeded and set up before the clock starts.
pub fn generate_keys(p: &CoreParams) -> (keys: KeyMaterial)
    requires
        p.supported(),
    ensures
        keys_for(
            *p,
            keys.input_lwe_secret_key@,
            keys.output_lwe_secret_key@,
            keys.fbsk,
        ),
        spans_key_generation(
            keys.keygen_span,
            *p,
            keys.input_lwe_secret_key@,
            keys.output_lwe_secret_key@,
            keys.fbsk,
        ),
        keys.keygen_time == keys.keygen_span.elapsed(),
        call_ensures(
            std::time::Instant::elapsed,
            (&keys.keygen_span.began(),),
            keys.keygen_time,
        ),
{
    proof {
        crate::params::lemma_valid_sizes(p.key_shape());
        crate::params::lemma_glwe_sizes(p.glwe_dimension as int, p.polynomial_size as int);
    }
    let shape = p.shape();
    let lwe_seed = draw_seed();
    let glwe_seed = draw_seed();
    let mask_seed = draw_seed();
    let noise_seed = draw_seed();
    let ghost setup = Setup {
        lwe_seed: lwe_seed@,
        glwe_seed: glwe_seed@,
        mask_seed: mask_seed@,
        noise_seed: noise_seed@,
        shape,
        noise: p.glwe_noise(),
        ciphertext_modulus: p.ciphertext_modulus,
    };
    let lwe_generator = lwe_secret_key_generator(lwe_seed);
    let glwe_generator = glwe_secret_key_generator(glwe_seed);
    let bootstrap_generator = bootstrap_key_generator(
        shape,
        &p.noise,
        p.ciphertext_modulus,
        mask_seed,
        noise_seed,
    );

    let mut clock = Stopwatch::start(
        &lwe_generator,
        &glwe_generator,
        &bootstrap_generator,
        Ghost(setup),
    );
    let input_lwe_secret_key = clock.lwe_secret_key(lwe_generator, p.input_lwe_dimension);
    let output_glwe_secret_key = clock.glwe_secret_key(
        glwe_generator,
        p.glwe_dimension,
        p.polynomial_size,
    );
    let output_lwe_secret_key = glwe_key_into_lwe_key(
        output_glwe_secret_key.as_slice(),
        p.polynomial_size,
    );
    let bsk = clock.bootstrap_key(
        bootstrap_generator,
        input_lwe_secret_key.as_slice(),
        output_glwe_secret_key.as_slice(),
        &shape,
        p.ciphertext_modulus,
    );
    let fbsk = clock.fourier_key(bsk.as_slice(), &shape, p.ciphertext_modulus);
    let keygen_span = clock.stop();
    assert(keygen_span.steps() =~= seq![
        Step::LweSecretKey(input_lwe_secret_key@),
        Step::GlweSecretKey(output_lwe_secret_key@),
        Step::BootstrapKey(bsk@),
        Step::FourierKey(fbsk),
    ]);

    KeyMaterial {
        input_lwe_secret_key,
        output_lwe_secret_key,
        fbsk,
        keygen_time: keygen_span.time(),
        keygen_span,
    }
}

} // verus!
