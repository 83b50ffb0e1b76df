//! The operations of `tfhe` that draw no random numbers, and what is claimed of each.
//!
//! Keys, ciphertexts and lookup tables cross this border as lists of 64-bit scalars. The key in the
//! Fourier domain stays opaque. A ciphertext modulus is written as a number, with 0 for the native
//! modulus `2^64`.
//!
//! A bootstrap adds its floating-point terms in whatever order its threads deliver them, after a
//! Fourier transform whose plan is chosen by timing. Where an outcome is open in this way, a name
//! stands for the set of all outcomes that the arguments allow.

use tfhe::core_crypto::commons::ciphertext_modulus::SerializableCiphertextModulus;
use tfhe::core_crypto::prelude::{
    decrypt_lwe_ciphertext, generate_programmable_bootstrap_glwe_lut,
    multi_bit_programmable_bootstrap_lwe_ciphertext,
    par_convert_standard_lwe_multi_bit_bootstrap_key_to_fourier, CiphertextModulus,
    DecompositionBaseLog, DecompositionLevelCount, DynamicDistribution,
    FourierLweMultiBitBootstrapKey, FourierLweMultiBitBootstrapKeyOwned, GlweCiphertext,
    GlweDimension, GlweSecretKey, LweBskGroupingFactor, LweCiphertext, LweDimension,
    LweMultiBitBootstrapKey, LweSecretKey, PolynomialSize, ThreadCount,
};
use tfhe::shortint::parameters::MultiBitPBSParameters;
use vstd::prelude::*;

use crate::lwe::identity;
use crate::params::{KeyShape, MultiBitFields, NoiseDistribution};

verus! {

/// `tfhe`'s production parameter set, carried as an opaque value. It holds, among the plain values
/// of [`MultiBitFields`], the two noise distributions.
#[verifier::external_type_specification]
#[verifier::external_body]
pub struct ExMultiBitPBSParameters(MultiBitPBSParameters);

/// A point in time of std's monotonic clock, carried as an opaque value.
#[verifier::external_type_specification]
#[verifier::external_body]
pub struct ExInstant(std::time::Instant);

/// A multi-bit bootstrap key in the Fourier domain: `tfhe`'s list of Fourier polynomials over
/// aligned memory, whose type parameter is bound by a trait of `tfhe`.
#[verifier::external_body]
pub struct FourierKey {
    key: FourierLweMultiBitBootstrapKeyOwned,
}

/// The plain values that a parameter set holds.
pub uninterp spec fn multi_bit_fields(parameters: MultiBitPBSParameters) -> MultiBitFields;

/// The LWE noise distribution that a parameter set holds.
pub uninterp spec fn lwe_noise_distribution(parameters: MultiBitPBSParameters) -> NoiseDistribution;

/// The GLWE noise distribution that a parameter set holds.
pub uninterp spec fn glwe_noise_distribution(
    parameters: MultiBitPBSParameters,
) -> NoiseDistribution;

/// The shape that a Fourier-domain key was made with.
pub uninterp spec fn fourier_key_shape(key: FourierKey) -> KeyShape;

/// The Fourier-domain keys that the transform of a standard-domain key of a shape can give.
pub uninterp spec fn fourier_keys(bsk: Seq<u64>, shape: KeyShape) -> Set<FourierKey>;

/// The ciphertexts that a bootstrap of `input` through the table `accumulator` can give.
pub uninterp spec fn bootstrap_outputs(
    input: Seq<u64>,
    accumulator: Seq<u64>,
    key: FourierKey,
    ciphertext_modulus: u128,
    thread_count: usize,
    deterministic: bool,
) -> Set<Seq<u64>>;

/// std's `Instant::now`. Nothing is claimed of the point in time.
pub assume_specification[ std::time::Instant::now ]() -> (now: std::time::Instant)
;

/// std's `Instant::elapsed`. Nothing is claimed of the duration.
pub assume_specification[ std::time::Instant::elapsed ](start: &std::time::Instant) -> (elapsed:
    std::time::Duration)
;

/// Reads the public fields of `tfhe`'s `MultiBitPBSParameters`. Claimed: each field is a function
/// of the parameter set; nothing is claimed of its value. A native ciphertext modulus is read as 0,
/// as `tfhe`'s own serialised form writes it.
#[verifier::external_body]
pub(crate) fn read_fields(parameters: &MultiBitPBSParameters) -> (fields: MultiBitFields)
    ensures
        fields == multi_bit_fields(*parameters),
{
    MultiBitFields {
        lwe_dimension: parameters.lwe_dimension.0,
        glwe_dimension: parameters.glwe_dimension.0,
        polynomial_size: parameters.polynomial_size.0,
        pbs_base_log: parameters.pbs_base_log.0,
        pbs_level: parameters.pbs_level.0,
        ks_base_log: parameters.ks_base_log.0,
        ks_level: parameters.ks_level.0,
        grouping_factor: parameters.grouping_factor.0,
        message_modulus: parameters.message_modulus.0,
        carry_modulus: parameters.carry_modulus.0,
        ciphertext_modulus: SerializableCiphertextModulus::from(parameters.ciphertext_modulus).modulus,
    }
}

/// Reads the LWE noise distribution of a parameter set: `tfhe`'s `TUniform::bound_log2`, or the bit
/// patterns of the two public numbers of a `Gaussian`. Claimed: it is a function of the parameter
/// set.
#[verifier::external_body]
pub(crate) fn read_lwe_noise_distribution(parameters: &MultiBitPBSParameters) -> (noise:
    NoiseDistribution)
    ensures
        noise == lwe_noise_distribution(*parameters),
{
    match parameters.lwe_noise_distribution {
        DynamicDistribution::TUniform(t) => NoiseDistribution::TUniform {
            bound_log2: t.bound_log2(),
        },
        DynamicDistribution::Gaussian(g) => NoiseDistribution::Gaussian {
            std_bits: g.std.to_bits(),
            mean_bits: g.mean.to_bits(),
        },
    }
}

/// Reads the GLWE noise distribution of a parameter set, as the LWE noise distribution is read.
/// Claimed: it is a function of the parameter set.
#[verifier::external_body]
pub(crate) fn read_glwe_noise_distribution(parameters: &MultiBitPBSParameters) -> (noise:
    NoiseDistribution)
    ensures
        noise == glwe_noise_distribution(*parameters),
{
    match parameters.glwe_noise_distribution {
        DynamicDistribution::TUniform(t) => NoiseDistribution::TUniform {
            bound_log2: t.bound_log2(),
        },
        DynamicDistribution::Gaussian(g) => NoiseDistribution::Gaussian {
            std_bits: g.std.to_bits(),
            mean_bits: g.mean.to_bits(),
        },
    }
}

/// `tfhe`'s `GlweSecretKey::into_lwe_secret_key`. Claimed: the LWE key consists of the coefficients
/// of the GLWE key, in order.
#[verifier::external_body]
pub(crate) fn glwe_key_into_lwe_key(glwe_key: &[u64], polynomial_size: usize) -> (lwe_key: Vec<u64>)
    requires
        glwe_key@.len() >= 1,
        polynomial_size >= 1,
        glwe_key@.len() % polynomial_size as nat == 0,
    ensures
        lwe_key@ == glwe_key@,
{
    GlweSecretKey::from_container(glwe_key.to_vec(), PolynomialSize(polynomial_size))
        .into_lwe_secret_key()
        .into_container()
}

/// `tfhe`'s `LweMultiBitBootstrapKey::new`, filled with 0. Claimed: the key is all zeros, and as
/// long as its shape says.
#[verifier::external_body]
pub(crate) fn new_bootstrap_key(shape: &KeyShape, ciphertext_modulus: u128) -> (bsk: Vec<u64>)
    requires
        shape.valid(),
        crate::params::modulus_supported(ciphertext_modulus),
    ensures
        bsk@ == Seq::new(shape.scalars(), |i: int| 0u64),
{
    LweMultiBitBootstrapKey::new(
        0u64,
        GlweDimension(shape.glwe_dimension).to_glwe_size(),
        PolynomialSize(shape.polynomial_size),
        DecompositionBaseLog(shape.decomp_base_log),
        DecompositionLevelCount(shape.decomp_level_count),
        LweDimension(shape.input_lwe_dimension),
        LweBskGroupingFactor(shape.grouping_factor),
        CiphertextModulus::new(ciphertext_modulus),
    ).into_container()
}

/// `tfhe`'s `FourierLweMultiBitBootstrapKey::new`. Claimed: the key has the shape that it was made
/// with.
#[verifier::external_body]
pub(crate) fn new_fourier_key(shape: &KeyShape) -> (key: FourierKey)
    requires
        shape.valid(),
    ensures
        fourier_key_shape(key) == *shape,
{
    FourierKey {
        key: FourierLweMultiBitBootstrapKey::new(
            LweDimension(shape.input_lwe_dimension),
            GlweDimension(shape.glwe_dimension).to_glwe_size(),
            PolynomialSize(shape.polynomial_size),
            DecompositionBaseLog(shape.decomp_base_log),
            DecompositionLevelCount(shape.decomp_level_count),
            LweBskGroupingFactor(shape.grouping_factor),
        ),
    }
}

/// `tfhe`'s `par_convert_standard_lwe_multi_bit_bootstrap_key_to_fourier`. Claimed: the Fourier key
/// keeps its shape and becomes one of those that the transform of the standard key can give. Which
/// one rests on the machine and on the plan that the transform has chosen.
#[verifier::external_body]
pub(crate) fn convert_key_to_fourier(
    bsk: &[u64],
    key: &mut FourierKey,
    shape: &KeyShape,
    ciphertext_modulus: u128,
)
    requires
        shape.valid(),
        crate::params::modulus_supported(ciphertext_modulus),
        bsk@.len() == shape.scalars(),
        fourier_key_shape(*old(key)) == *shape,
    ensures
        fourier_key_shape(*final(key)) == *shape,
        fourier_keys(bsk@, *shape).contains(*final(key)),
{
    let standard = LweMultiBitBootstrapKey::from_container(
        bsk,
        GlweDimension(shape.glwe_dimension).to_glwe_size(),
        PolynomialSize(shape.polynomial_size),
        DecompositionBaseLog(shape.decomp_base_log),
        DecompositionLevelCount(shape.decomp_level_count),
        LweBskGroupingFactor(shape.grouping_factor),
        CiphertextModulus::new(ciphertext_modulus),
    );
    par_convert_standard_lwe_multi_bit_bootstrap_key_to_fourier(&standard, &mut key.key);
}

/// `tfhe`'s `generate_programmable_bootstrap_glwe_lut` for the identity function. Claimed: the
/// result is the trivial GLWE encryption of the identity lookup table.
#[verifier::external_body]
pub(crate) fn generate_identity_lut(
    polynomial_size: usize,
    glwe_dimension: usize,
    msg_modulus: usize,
    ciphertext_modulus: u128,
    delta: u64,
) -> (lut: Vec<u64>)
    requires
        polynomial_size >= 1,
        msg_modulus >= 1,
        (msg_modulus - 1) * delta <= u64::MAX,
        (glwe_dimension + 1) * polynomial_size * 8 <= isize::MAX,
        crate::params::modulus_supported(ciphertext_modulus),
    ensures
        crate::lwe::is_identity_lut(
            lut@,
            glwe_dimension as int,
            polynomial_size as int,
            msg_modulus as int,
            delta as int,
            ciphertext_modulus,
        ),
{
    generate_programmable_bootstrap_glwe_lut(
        PolynomialSize(polynomial_size),
        GlweDimension(glwe_dimension).to_glwe_size(),
        msg_modulus,
        CiphertextModulus::new(ciphertext_modulus),
        delta,
        |x: u64| identity(x),
    ).into_container()
}

/// `tfhe`'s `decrypt_lwe_ciphertext`. Claimed: the plaintext is the phase of the ciphertext, scaled
/// back from the torus.
#[verifier::external_body]
pub(crate) fn decrypt_lwe(key: &[u64], ct: &[u64], ciphertext_modulus: u128) -> (plaintext: u64)
    requires
        1 <= key@.len(),
        ct@.len() == key@.len() + 1,
        crate::params::modulus_supported(ciphertext_modulus),
    ensures
        plaintext == crate::lwe::decrypted(ct@, key@, ciphertext_modulus),
{
    let ct = LweCiphertext::from_container(ct, CiphertextModulus::new(ciphertext_modulus));
    decrypt_lwe_ciphertext(&LweSecretKey::from_container(key), &ct).0
}

/// `tfhe`'s `LweCiphertext::new`, filled with 0. Claimed: the ciphertext is all zeros, one for each
/// mask scalar and one for the body.
#[verifier::external_body]
pub(crate) fn new_lwe_ciphertext(lwe_dimension: usize, ciphertext_modulus: u128) -> (ct: Vec<u64>)
    requires
        (lwe_dimension + 1) * 8 <= isize::MAX,
        crate::params::modulus_supported(ciphertext_modulus),
    ensures
        ct@ == Seq::new((lwe_dimension + 1) as nat, |i: int| 0u64),
{
    LweCiphertext::new(
        0u64,
        LweDimension(lwe_dimension).to_lwe_size(),
        CiphertextModulus::new(ciphertext_modulus),
    ).into_container()
}

/// `tfhe`'s `multi_bit_programmable_bootstrap_lwe_ciphertext`. Claimed: the output keeps its length
/// and becomes one of the ciphertexts that the input, the table, the key, the modulus, the number of
/// threads and the order of execution allow. Which one rests on the machine and on the threads; what
/// it decrypts to is left open. The call starts that many threads and panics where the system has
/// no more to give, hence the bound on their number.
#[verifier::external_body]
pub(crate) fn bootstrap_lwe(
    input: &[u64],
    output: &mut Vec<u64>,
    accumulator: &[u64],
    key: &FourierKey,
    ciphertext_modulus: u128,
    thread_count: usize,
    deterministic: bool,
)
    requires
        fourier_key_shape(*key).valid(),
        input@.len() == fourier_key_shape(*key).input_lwe_dimension + 1,
        old(output)@.len() == fourier_key_shape(*key).glwe_dimension * fourier_key_shape(
            *key,
        ).polynomial_size + 1,
        accumulator@.len() == (fourier_key_shape(*key).glwe_dimension + 1) * fourier_key_shape(
            *key,
        ).polynomial_size,
        crate::params::modulus_supported(ciphertext_modulus),
        1 <= thread_count <= 1024,
    ensures
        final(output)@.len() == old(output)@.len(),
        bootstrap_outputs(
            input@,
            accumulator@,
            *key,
            ciphertext_modulus,
            thread_count,
            deterministic,
        ).contains(final(output)@),
{
    let modulus = CiphertextModulus::new(ciphertext_modulus);
    multi_bit_programmable_bootstrap_lwe_ciphertext(
        &LweCiphertext::from_container(input, modulus),
        &mut LweCiphertext::from_container(output.as_mut_slice(), modulus),
        &GlweCiphertext::from_container(accumulator, key.key.polynomial_size(), modulus),
        &key.key,
        ThreadCount(thread_count),
        deterministic,
    );
}

} // verus!
