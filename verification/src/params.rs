//! Parameter sets of a multi-bit bootstrap, and the size of the key that each one asks for.

use tfhe::shortint::parameters::MultiBitPBSParameters;
use vstd::arithmetic::div_mod::*;
use vstd::arithmetic::mul::*;
use vstd::arithmetic::power2::*;
use vstd::bits::*;
use vstd::prelude::*;

use crate::core_crypto::{
    read_fields, read_glwe_noise_distribution, read_lwe_noise_distribution,
};

verus! {

/// The plain values of a production parameter set that matter here, under the names that the
/// parameter set itself uses. The key-switch decomposition (`ks_base_log`, `ks_level`) stands
/// beside the bootstrap decomposition (`pbs_base_log`, `pbs_level`).
#[derive(Clone, Copy, Debug, PartialEq, Eq)]
pub struct MultiBitFields {
    pub lwe_dimension: usize,
    pub glwe_dimension: usize,
    pub polynomial_size: usize,
    pub pbs_base_log: usize,
    pub pbs_level: usize,
    pub ks_base_log: usize,
    pub ks_level: usize,
    pub grouping_factor: usize,
    pub message_modulus: usize,
    pub carry_modulus: usize,
    /// The ciphertext modulus, with 0 for the native modulus `2^64`.
    pub ciphertext_modulus: u128,
}

/// A noise distribution, as plain values. Two Gaussians are equal where the bit patterns of their
/// numbers are.
#[derive(Clone, Copy, Debug, PartialEq, Eq)]
pub enum NoiseDistribution {
    /// A Gaussian of that standard deviation and mean.
    Gaussian { std_bits: u64, mean_bits: u64 },
    /// Nearly uniform on the integers from `-2^bound_log2` to `2^bound_log2`.
    TUniform { bound_log2: u32 },
}

/// The dimensions that fix the layout of a multi-bit bootstrap key.
#[derive(Clone, Copy, Debug, PartialEq, Eq)]
pub struct KeyShape {
    pub input_lwe_dimension: usize,
    pub glwe_dimension: usize,
    pub polynomial_size: usize,
    pub decomp_base_log: usize,
    pub decomp_level_count: usize,
    pub grouping_factor: usize,
}

/// The quantities that the core operations need, pulled out of a production parameter set.
pub struct CoreParams {
    pub input_lwe_dimension: usize,
    pub glwe_dimension: usize,
    pub polynomial_size: usize,
    pub decomp_base_log: usize,
    pub decomp_level_count: usize,
    pub grouping_factor: usize,
    /// The parameter set whose GLWE and LWE noise distributions are used. Nothing else of it is.
    pub noise: MultiBitPBSParameters,
    /// The ciphertext modulus, with 0 for the native modulus `2^64`.
    pub ciphertext_modulus: u128,
    pub message_modulus: u64,
    pub carry_modulus: u64,
}

/// The ciphertext moduli that the bootstrap works with: the native one, written 0, and the powers
/// of two above 1 that a 64-bit torus can hold. Of these `2^63` is left out: rounding to its grid
/// adds 1 to a torus element as it stands, which can overflow.
pub open spec fn modulus_supported(ciphertext_modulus: u128) -> bool {
    ||| ciphertext_modulus == 0
    ||| {
        &&& 2 <= ciphertext_modulus <= 0x1_0000_0000_0000_0000
        &&& ciphertext_modulus != 0x8000_0000_0000_0000
        &&& is_pow2(ciphertext_modulus as int)
    }
}

/// The ciphertext modulus as a number.
pub open spec fn modulus_value(ciphertext_modulus: u128) -> int {
    if ciphertext_modulus == 0 {
        0x1_0000_0000_0000_0000
    } else {
        ciphertext_modulus as int
    }
}

/// The factor that maps an element modulo `ciphertext_modulus` to the 64-bit torus.
pub open spec fn torus_scaling(ciphertext_modulus: u128) -> int {
    0x1_0000_0000_0000_0000int / modulus_value(ciphertext_modulus)
}

/// Noise can be drawn modulo `ciphertext_modulus`: from a Gaussian under every modulus, from a
/// `TUniform` distribution under the native one alone, and only where the `bound_log2 + 2` random
/// bits that a sample takes fit in 64.
pub open spec fn noise_drawable(noise: NoiseDistribution, ciphertext_modulus: u128) -> bool {
    match noise {
        NoiseDistribution::Gaussian { .. } => true,
        NoiseDistribution::TUniform { bound_log2 } => {
            &&& bound_log2 <= 62
            &&& modulus_value(ciphertext_modulus) == 0x1_0000_0000_0000_0000
        },
    }
}

impl KeyShape {
    /// The number of groups that the input dimension falls into.
    pub open spec fn groups(self) -> nat {
        (self.input_lwe_dimension / self.grouping_factor) as nat
    }

    /// The number of stored GGSW ciphertexts: `2^g` for each group of `g` input key bits.
    pub open spec fn ggsw_count(self) -> nat {
        self.groups() * pow2(self.grouping_factor as nat)
    }

    /// The number of scalars of one GGSW ciphertext: one row for each level and GLWE component,
    /// and in each row one polynomial for each GLWE component.
    pub open spec fn scalars_per_ggsw(self) -> nat {
        (self.decomp_level_count * (self.glwe_dimension + 1) * (self.glwe_dimension + 1)
            * self.polynomial_size) as nat
    }

    /// The number of scalars of the key in the standard domain.
    pub open spec fn scalars(self) -> nat {
        self.ggsw_count() * self.scalars_per_ggsw()
    }

    /// The shapes for which a key can be generated, transformed and bootstrapped with: the input
    /// dimension falls into whole groups, the Fourier transform takes the polynomial size (a power
    /// of two, so large that half of it fills a vector of four complex numbers), the decomposition
    /// leaves at least two of 64 bits over, so that rounding to it cannot overflow, and the sizes
    /// fit in 64 bits: up to 1024 random bytes are set aside for each scalar, `g` times over.
    pub open spec fn valid(self) -> bool {
        &&& self.input_lwe_dimension >= 1
        &&& 1 <= self.grouping_factor < usize::BITS
        &&& self.input_lwe_dimension % self.grouping_factor == 0
        &&& 1 <= self.glwe_dimension < usize::MAX
        &&& self.polynomial_size >= 8
        &&& is_pow2(self.polynomial_size as int)
        &&& self.decomp_base_log >= 1
        &&& self.decomp_level_count >= 1
        &&& self.decomp_base_log * self.decomp_level_count < 63
        &&& self.scalars() * self.grouping_factor * 1024 <= usize::MAX
    }
}

impl CoreParams {
    /// The layout of the bootstrap key.
    pub open spec fn key_shape(self) -> KeyShape {
        KeyShape {
            input_lwe_dimension: self.input_lwe_dimension,
            glwe_dimension: self.glwe_dimension,
            polynomial_size: self.polynomial_size,
            decomp_base_log: self.decomp_base_log,
            decomp_level_count: self.decomp_level_count,
            grouping_factor: self.grouping_factor,
        }
    }

    /// The distribution of the noise in LWE ciphertexts.
    pub open spec fn lwe_noise(self) -> NoiseDistribution {
        crate::core_crypto::lwe_noise_distribution(self.noise)
    }

    /// The distribution of the noise in the bootstrap key.
    pub open spec fn glwe_noise(self) -> NoiseDistribution {
        crate::core_crypto::glwe_noise_distribution(self.noise)
    }

    /// The number of messages, carries included.
    pub open spec fn msg_modulus(self) -> int {
        self.message_modulus * self.carry_modulus
    }

    /// The parameters that a bootstrap can be prepared for.
    pub open spec fn supported(self) -> bool {
        &&& self.key_shape().valid()
        &&& modulus_supported(self.ciphertext_modulus)
        &&& noise_drawable(self.lwe_noise(), self.ciphertext_modulus)
        &&& noise_drawable(self.glwe_noise(), self.ciphertext_modulus)
        &&& 1 <= self.msg_modulus() <= 0x8000_0000_0000_0000
        &&& self.msg_modulus() <= usize::MAX
    }

    /// Every step of the size computation fits in 64 bits.
    pub open spec fn size_fits(self) -> bool {
        let glwe_size = self.glwe_dimension + 1;
        let level = self.decomp_level_count as int;
        &&& 1 <= self.grouping_factor < 64
        &&& self.key_shape().ggsw_count() <= u64::MAX
        &&& glwe_size <= u64::MAX
        &&& level * glwe_size <= u64::MAX
        &&& level * glwe_size * glwe_size <= u64::MAX
        &&& self.key_shape().scalars_per_ggsw() <= u64::MAX
        &&& self.key_shape().scalars() * 8 <= u64::MAX
    }

    /// The core quantities of a parameter set whose plain values are `fields`: the bootstrap
    /// decomposition is taken, not the key-switch decomposition.
    pub open spec fn core_of(fields: MultiBitFields, noise: MultiBitPBSParameters) -> Self {
        CoreParams {
            input_lwe_dimension: fields.lwe_dimension,
            glwe_dimension: fields.glwe_dimension,
            polynomial_size: fields.polynomial_size,
            decomp_base_log: fields.pbs_base_log,
            decomp_level_count: fields.pbs_level,
            grouping_factor: fields.grouping_factor,
            noise,
            ciphertext_modulus: fields.ciphertext_modulus,
            message_modulus: fields.message_modulus as u64,
            carry_modulus: fields.carry_modulus as u64,
        }
    }

    /// Picks the core quantities out of the plain values of a parameter set.
    pub fn from_fields(fields: &MultiBitFields, noise: &MultiBitPBSParameters) -> (p: Self)
        ensures
            p == CoreParams::core_of(*fields, *noise),
            p.message_modulus == fields.message_modulus,
            p.carry_modulus == fields.carry_modulus,
    {
        CoreParams {
            input_lwe_dimension: fields.lwe_dimension,
            glwe_dimension: fields.glwe_dimension,
            polynomial_size: fields.polynomial_size,
            decomp_base_log: fields.pbs_base_log,
            decomp_level_count: fields.pbs_level,
            grouping_factor: fields.grouping_factor,
            noise: *noise,
            ciphertext_modulus: fields.ciphertext_modulus,
            message_modulus: fields.message_modulus as u64,
            carry_modulus: fields.carry_modulus as u64,
        }
    }

    /// The core quantities of a production parameter set.
    pub fn from_multi_bit(p: &MultiBitPBSParameters) -> (core: Self)
        ensures
            core == CoreParams::core_of(crate::core_crypto::multi_bit_fields(*p), *p),
            core.message_modulus == crate::core_crypto::multi_bit_fields(*p).message_modulus,
            core.carry_modulus == crate::core_crypto::multi_bit_fields(*p).carry_modulus,
    {
        let fields = read_fields(p);
        CoreParams::from_fields(&fields, p)
    }

    /// The layout of the bootstrap key, as a value.
    pub fn shape(&self) -> (shape: KeyShape)
        ensures
            shape == self.key_shape(),
    {
        KeyShape {
            input_lwe_dimension: self.input_lwe_dimension,
            glwe_dimension: self.glwe_dimension,
            polynomial_size: self.polynomial_size,
            decomp_base_log: self.decomp_base_log,
            decomp_level_count: self.decomp_level_count,
            grouping_factor: self.grouping_factor,
        }
    }

    /// Whether a bootstrap can be prepared for these parameters.
    pub fn is_supported(&self) -> (r: bool)
        ensures
            r == self.supported(),
    {
        if !self.shape().is_valid() || !is_modulus_supported(self.ciphertext_modulus) {
            return false;
        }
        let lwe_noise = read_lwe_noise_distribution(&self.noise);
        let glwe_noise = read_glwe_noise_distribution(&self.noise);
        if !is_noise_drawable(lwe_noise, self.ciphertext_modulus) || !is_noise_drawable(
            glwe_noise,
            self.ciphertext_modulus,
        ) {
            return false;
        }
        match self.message_modulus.checked_mul(self.carry_modulus) {
            Some(msg_modulus) => {
                1 <= msg_modulus && msg_modulus <= 0x8000_0000_0000_0000 && msg_modulus
                    <= usize::MAX as u64
            },
            None => false,
        }
    }
}

/// The product of all factors.
pub open spec fn product(factors: Seq<usize>) -> nat
    decreases factors.len(),
{
    if factors.len() == 0 {
        1
    } else {
        product(factors.drop_last()) * factors.last() as nat
    }
}

/// A product of positive factors is at least as large as that of its first factors.
proof fn lemma_product_grows(factors: Seq<usize>, taken: int)
    requires
        0 <= taken <= factors.len(),
        forall|i: int| 0 <= i < factors.len() ==> factors[i] >= 1,
    ensures
        product(factors.take(taken)) <= product(factors),
    decreases factors.len() - taken,
{
    if taken == factors.len() {
        assert(factors.take(taken) =~= factors);
    } else {
        let next = factors.take(taken + 1);
        assert(next.drop_last() =~= factors.take(taken));
        let before = product(factors.take(taken));
        assert(before <= before * factors[taken]) by (nonlinear_arith)
            requires
                factors[taken] >= 1,
                before >= 0,
        ;
        lemma_product_grows(factors, taken + 1);
    }
}

/// The product of positive factors, where it fits.
fn checked_product(factors: &Vec<usize>) -> (r: Option<usize>)
    requires
        forall|i: int| 0 <= i < factors.len() ==> factors[i] >= 1,
    ensures
        r is Some <==> product(factors@) <= usize::MAX,
        r matches Some(x) ==> x == product(factors@),
{
    let mut acc: usize = 1;
    let mut i: usize = 0;
    while i < factors.len()
        invariant
            0 <= i <= factors.len(),
            acc == product(factors@.take(i as int)),
            forall|i: int| 0 <= i < factors.len() ==> factors[i] >= 1,
        decreases factors.len() - i,
    {
        proof {
            assert(factors@.take(i + 1).drop_last() =~= factors@.take(i as int));
            lemma_product_grows(factors@, i + 1);
        }
        match acc.checked_mul(factors[i]) {
            Some(next) => {
                acc = next;
            },
            None => {
                return None;
            },
        }
        i += 1;
    }
    assert(factors@.take(i as int) =~= factors@);
    Some(acc)
}

/// Whether `n` is a power of two.
fn is_power_of_two(n: u128) -> (r: bool)
    ensures
        r == is_pow2(n as int),
    decreases n,
{
    reveal(is_pow2);
    if n == 0 {
        false
    } else if n == 1 {
        true
    } else {
        n % 2 == 0 && is_power_of_two(n / 2)
    }
}

/// Whether the bootstrap works with this ciphertext modulus.
pub fn is_modulus_supported(ciphertext_modulus: u128) -> (r: bool)
    ensures
        r == modulus_supported(ciphertext_modulus),
{
    ciphertext_modulus == 0 || (2 <= ciphertext_modulus && ciphertext_modulus
        <= 0x1_0000_0000_0000_0000 && ciphertext_modulus != 0x8000_0000_0000_0000
        && is_power_of_two(ciphertext_modulus))
}

/// Whether noise of this distribution can be drawn modulo `ciphertext_modulus`.
pub fn is_noise_drawable(noise: NoiseDistribution, ciphertext_modulus: u128) -> (r: bool)
    ensures
        r == noise_drawable(noise, ciphertext_modulus),
{
    match noise {
        NoiseDistribution::Gaussian { .. } => true,
        NoiseDistribution::TUniform { bound_log2 } => {
            bound_log2 <= 62 && (ciphertext_modulus == 0 || ciphertext_modulus
                == 0x1_0000_0000_0000_0000)
        },
    }
}

impl KeyShape {
    /// Whether a key of this shape can be generated, transformed and bootstrapped with.
    pub fn is_valid(&self) -> (r: bool)
        ensures
            r == self.valid(),
    {
        if self.input_lwe_dimension == 0 || self.grouping_factor == 0 || self.grouping_factor
            >= usize::BITS as usize || self.input_lwe_dimension % self.grouping_factor != 0
            || self.glwe_dimension == 0 || self.glwe_dimension == usize::MAX
            || self.polynomial_size < 8 || !is_power_of_two(self.polynomial_size as u128)
            || self.decomp_base_log == 0 || self.decomp_level_count == 0 {
            return false;
        }
        match self.decomp_base_log.checked_mul(self.decomp_level_count) {
            Some(bits) => {
                if bits >= 63 {
                    return false;
                }
            },
            None => {
                return false;
            },
        }
        let groups: usize = self.input_lwe_dimension / self.grouping_factor;
        proof {
            lemma_whole_groups(self.input_lwe_dimension as int, self.grouping_factor as int);
            lemma_usize_pow2_no_overflow(self.grouping_factor as nat);
            lemma_usize_shl_is_mul(1, self.grouping_factor);
        }
        let ggsw_per_group: usize = 1usize << self.grouping_factor;
        let glwe_size: usize = self.glwe_dimension + 1;
        let factors: Vec<usize> = vec![
            groups,
            ggsw_per_group,
            self.decomp_level_count,
            glwe_size,
            glwe_size,
            self.polynomial_size,
            self.grouping_factor,
            1024,
        ];
        proof {
            reveal_with_fuel(product, 9);
            let f = factors@;
            assert(f.drop_last().drop_last() =~= f.take(6));
            lemma_scalars_as_product(*self, f.take(6));
            assert(product(f) == self.scalars() * self.grouping_factor * 1024);
        }
        checked_product(&factors).is_some()
    }
}

/// The sizes of a GLWE key and a GLWE ciphertext.
pub(crate) proof fn lemma_glwe_sizes(k: int, n: int)
    requires
        k >= 1,
        n >= 1,
    ensures
        1 <= k * n,
        k * n + 1 <= (k + 1) * n,
        (k + 1) * n == k * n + n,
        (k * n) % n == 0,
{
    assert(1 <= k * n && (k + 1) * n == k * n + n) by (nonlinear_arith)
        requires
            k >= 1,
            n >= 1,
    ;
    lemma_mod_multiples_basic(k, n);
}

/// A positive dimension that falls into whole groups falls into at least one.
proof fn lemma_whole_groups(n: int, g: int)
    requires
        n >= 1,
        g >= 1,
        n % g == 0,
    ensures
        n / g >= 1,
        n == (n / g) * g,
{
    lemma_fundamental_div_mod(n, g);
    lemma_mul_is_commutative(g, n / g);
    if n / g <= 0 {
        assert((n / g) * g <= 0) by (nonlinear_arith)
            requires
                n / g <= 0,
                g >= 1,
        ;
    }
}

/// The number of scalars as one product.
proof fn lemma_scalars_as_product(shape: KeyShape, factors: Seq<usize>)
    requires
        factors.len() == 6,
        factors[0] == shape.groups(),
        factors[1] == pow2(shape.grouping_factor as nat),
        factors[2] == shape.decomp_level_count,
        factors[3] == shape.glwe_dimension + 1,
        factors[4] == shape.glwe_dimension + 1,
        factors[5] == shape.polynomial_size,
    ensures
        product(factors) == shape.scalars(),
{
    reveal_with_fuel(product, 7);
    let a = shape.ggsw_count() as int;
    let l = factors[2] as int;
    let s = factors[3] as int;
    let n = factors[5] as int;
    assert(((a * l) * s) * s * n == a * (l * s * s * n)) by (nonlinear_arith);
    assert(product(factors) == ((((a * l) * s) * s) * n)) by {
        assert(1 * factors[0] * factors[1] == a);
    }
}

/// Analytic size in bytes of the stored bootstrap key in the standard domain, where each scalar
/// takes 8 bytes. The Fourier-domain key has other elements and another footprint.
pub fn bsk_size_bytes(p: &CoreParams) -> (bytes: u64)
    requires
        p.size_fits(),
    ensures
        bytes == p.key_shape().scalars() * 8,
{
    let n: u64 = p.input_lwe_dimension as u64;
    let g: u64 = p.grouping_factor as u64;
    let glwe_size: u64 = (p.glwe_dimension as u64) + 1;
    let level: u64 = p.decomp_level_count as u64;
    let poly: u64 = p.polynomial_size as u64;

    proof {
        lemma_u64_pow2_no_overflow(g as nat);
        lemma_u64_shl_is_mul(1, g);
    }
    let ggsw_count: u64 = (n / g) * (1u64 << g);
    let scalars_per_ggsw: u64 = level * glwe_size * glwe_size * poly;
    assert(ggsw_count * scalars_per_ggsw == p.key_shape().scalars());
    ggsw_count * scalars_per_ggsw * 8
}

/// The sizes that a valid shape bounds.
pub(crate) proof fn lemma_valid_sizes(shape: KeyShape)
    requires
        shape.valid(),
    ensures
        shape.groups() >= 1,
        shape.groups() * shape.grouping_factor == shape.input_lwe_dimension,
        shape.ggsw_count() <= shape.scalars(),
        shape.decomp_level_count * (shape.glwe_dimension + 1) <= shape.scalars(),
        shape.decomp_level_count * (shape.glwe_dimension + 1) * (shape.glwe_dimension + 1)
            <= shape.scalars(),
        shape.scalars_per_ggsw() <= shape.scalars(),
        shape.input_lwe_dimension <= shape.scalars(),
        shape.glwe_dimension + 1 <= shape.scalars(),
        (shape.glwe_dimension + 1) * shape.polynomial_size <= shape.scalars(),
        shape.scalars() * 1024 <= usize::MAX,
{
    let g = shape.grouping_factor as int;
    let count = shape.ggsw_count() as int;
    let level = shape.decomp_level_count as int;
    let glwe_size = shape.glwe_dimension + 1;
    let poly = shape.polynomial_size as int;
    let per_ggsw = shape.scalars_per_ggsw() as int;
    let total = shape.scalars() as int;
    lemma_whole_groups(shape.input_lwe_dimension as int, g);
    lemma_exponent_below_pow2(g as nat);
    assert(count >= shape.groups() * g && count >= 1) by (nonlinear_arith)
        requires
            count == shape.groups() * pow2(g as nat),
            pow2(g as nat) > g >= 1,
            shape.groups() >= 1,
    ;
    assert(level * glwe_size >= glwe_size) by (nonlinear_arith)
        requires
            level >= 1,
            glwe_size >= 1,
    ;
    assert(level * glwe_size * glwe_size >= level * glwe_size) by (nonlinear_arith)
        requires
            level * glwe_size >= 1,
            glwe_size >= 1,
    ;
    assert(per_ggsw >= level * glwe_size * glwe_size) by (nonlinear_arith)
        requires
            per_ggsw == level * glwe_size * glwe_size * poly,
            level * glwe_size * glwe_size >= 1,
            poly >= 1,
    ;
    assert(per_ggsw >= glwe_size * poly) by (nonlinear_arith)
        requires
            per_ggsw == level * glwe_size * glwe_size * poly,
            level * glwe_size * glwe_size >= glwe_size,
            poly >= 1,
    ;
    assert(total >= per_ggsw && total >= count) by (nonlinear_arith)
        requires
            total == count * per_ggsw,
            count >= 1,
            per_ggsw >= 1,
    ;
    assert(total * g >= total) by (nonlinear_arith)
        requires
            total >= 1,
            g >= 1,
    ;
}

/// A number is a power of two where it is 2 to some exponent.
proof fn lemma_is_pow2(n: int)
    ensures
        is_pow2(n) <==> exists|e: nat| #[trigger] pow2(e) == n,
{
    is_pow2_equiv(n);
    if is_pow2(n) {
        let e = choose|e: nat| vstd::arithmetic::power::pow(2, e) == n;
        lemma_pow2(e);
        assert(pow2(e) == n);
    }
    if exists|e: nat| #[trigger] pow2(e) == n {
        let e = choose|e: nat| #[trigger] pow2(e) == n;
        lemma_pow2(e);
        assert(vstd::arithmetic::power::pow(2, e) == n);
    }
}

/// A key can have every shape whose input dimension falls into whole groups, whose polynomial size
/// is a power of two from 8 on, whose decomposition leaves two bits over and whose sizes fit, and no
/// other.
pub proof fn shapes_are_refused_for_these_reasons_alone(shape: KeyShape)
    ensures
        shape.valid() <==> {
            let n = shape.input_lwe_dimension as int;
            let g = shape.grouping_factor as int;
            let k = shape.glwe_dimension as int;
            let level = shape.decomp_level_count as int;
            &&& n >= 1
            &&& 1 <= g < usize::BITS
            &&& n % g == 0
            &&& 1 <= k < usize::MAX
            &&& shape.polynomial_size >= 8
            &&& exists|e: nat| #[trigger] pow2(e) == shape.polynomial_size
            &&& shape.decomp_base_log >= 1
            &&& level >= 1
            &&& shape.decomp_base_log * level <= 62
            &&& (n / g) * pow2(g as nat) * (level * (k + 1) * (k + 1) * shape.polynomial_size) * g
                * 1024 <= usize::MAX
        },
{
    lemma_is_pow2(shape.polynomial_size as int);
}

/// A bootstrap can be prepared for every set of parameters whose key can have its shape, whose
/// modulus is native or `2^e` with an exponent up to 64 other than 63, whose message space has
/// between one and `2^63` messages, and whose noise is Gaussian, or `TUniform` of at most 62 bits
/// under the native modulus; and for no other.
pub proof fn parameters_are_refused_for_these_reasons_alone(p: CoreParams)
    ensures
        p.supported() <==> {
            let q = p.ciphertext_modulus as int;
            let native = q == 0 || q == 0x1_0000_0000_0000_0000;
            let messages = p.message_modulus * p.carry_modulus;
            &&& (KeyShape {
                input_lwe_dimension: p.input_lwe_dimension,
                glwe_dimension: p.glwe_dimension,
                polynomial_size: p.polynomial_size,
                decomp_base_log: p.decomp_base_log,
                decomp_level_count: p.decomp_level_count,
                grouping_factor: p.grouping_factor,
            }).valid()
            &&& q == 0 || exists|e: nat| 1 <= e <= 64 && e != 63 && #[trigger] pow2(e) == q
            &&& 1 <= messages <= 0x8000_0000_0000_0000
            &&& messages <= usize::MAX
            &&& crate::core_crypto::lwe_noise_distribution(
                p.noise,
            ) matches NoiseDistribution::TUniform { bound_log2 } ==> native && bound_log2 <= 62
            &&& crate::core_crypto::glwe_noise_distribution(
                p.noise,
            ) matches NoiseDistribution::TUniform { bound_log2 } ==> native && bound_log2 <= 62
        },
{
    moduli_are_refused_for_these_reasons_alone(p.ciphertext_modulus);
}

/// The bootstrap works with the native modulus, written 0, and with `2^e` for every exponent from 1
/// to 64 other than 63, and with no other.
pub proof fn moduli_are_refused_for_these_reasons_alone(ciphertext_modulus: u128)
    ensures
        modulus_supported(ciphertext_modulus) <==> ciphertext_modulus == 0 || exists|e: nat|
            1 <= e <= 64 && e != 63 && #[trigger] pow2(e) == ciphertext_modulus,
{
    let q = ciphertext_modulus as int;
    lemma_is_pow2(q);
    lemma2_to64();
    lemma2_to64_rest();
    if modulus_supported(ciphertext_modulus) && q != 0 {
        let e = choose|e: nat| #[trigger] pow2(e) == q;
        if e > 64 {
            lemma_pow2_strictly_increases(64, e);
        }
    }
    if exists|e: nat| 1 <= e <= 64 && e != 63 && #[trigger] pow2(e) == q {
        let e = choose|e: nat| 1 <= e <= 64 && e != 63 && #[trigger] pow2(e) == q;
        if e > 1 {
            lemma_pow2_strictly_increases(1, e);
        }
        if e < 64 {
            lemma_pow2_strictly_increases(e, 64);
        }
        if e < 63 {
            lemma_pow2_strictly_increases(e, 63);
        } else {
            lemma_pow2_strictly_increases(63, e);
        }
    }
}

/// Gaussian noise can be drawn under every modulus, `TUniform` noise under the native one as long as
/// its bound has at most 62 bits.
pub proof fn noise_is_refused_for_these_reasons_alone(
    noise: NoiseDistribution,
    ciphertext_modulus: u128,
)
    ensures
        noise is Gaussian ==> noise_drawable(noise, ciphertext_modulus),
        noise matches NoiseDistribution::TUniform { bound_log2 } ==> (noise_drawable(
            noise,
            ciphertext_modulus,
        ) <==> bound_log2 <= 62 && (ciphertext_modulus == 0 || ciphertext_modulus
            == 0x1_0000_0000_0000_0000)),
{
}

/// Each core quantity comes from its own field of a parameter set, the two decomposition values from
/// the bootstrap's.
pub proof fn core_quantities_come_from_their_fields(
    fields: MultiBitFields,
    noise: MultiBitPBSParameters,
)
    ensures
        ({
            let p = CoreParams::core_of(fields, noise);
            let shape = p.key_shape();
            &&& p.input_lwe_dimension == fields.lwe_dimension == shape.input_lwe_dimension
            &&& p.glwe_dimension == fields.glwe_dimension == shape.glwe_dimension
            &&& p.polynomial_size == fields.polynomial_size == shape.polynomial_size
            &&& p.decomp_base_log == fields.pbs_base_log == shape.decomp_base_log
            &&& p.decomp_level_count == fields.pbs_level == shape.decomp_level_count
            &&& p.grouping_factor == fields.grouping_factor == shape.grouping_factor
            &&& p.ciphertext_modulus == fields.ciphertext_modulus
            &&& p.message_modulus == fields.message_modulus
            &&& p.carry_modulus == fields.carry_modulus
            &&& p.msg_modulus() == fields.message_modulus * fields.carry_modulus
            &&& p.lwe_noise() == crate::core_crypto::lwe_noise_distribution(noise)
            &&& p.glwe_noise() == crate::core_crypto::glwe_noise_distribution(noise)
        }),
{
}

/// The size of the key counts every scalar: `2^g` GGSW ciphertexts for each whole group of `g` input
/// key bits, each of `level * (k + 1)` rows of `k + 1` polynomials, and 8 bytes for each coefficient.
/// Where the groups are whole, `g` keys are as large as `n` groups.
pub proof fn key_size_counts_every_scalar(p: CoreParams)
    requires
        p.grouping_factor >= 1,
    ensures
        ({
            let n = p.input_lwe_dimension as int;
            let g = p.grouping_factor as int;
            let per_group = pow2(g as nat) * (p.decomp_level_count * (p.glwe_dimension + 1) * (
            p.glwe_dimension + 1) * p.polynomial_size);
            let bytes = p.key_shape().scalars() * 8;
            &&& bytes == 8 * ((n / g) * per_group)
            &&& n % g == 0 ==> bytes * g == 8 * (n * per_group)
        }),
{
    let n = p.input_lwe_dimension as int;
    let g = p.grouping_factor as int;
    let ggsws = pow2(g as nat) as int;
    let scalars = p.decomp_level_count * (p.glwe_dimension + 1) * (p.glwe_dimension + 1)
        * p.polynomial_size;
    assert(scalars >= 0) by (nonlinear_arith)
        requires
            scalars == p.decomp_level_count * (p.glwe_dimension + 1) * (p.glwe_dimension + 1)
                * p.polynomial_size,
    ;
    assert(p.key_shape().scalars() == ((n / g) * ggsws) * scalars);
    lemma_fundamental_div_mod(n, g);
    assert(((n / g) * ggsws) * scalars == (n / g) * (ggsws * scalars)) by (nonlinear_arith);
    assert(((n / g) * (ggsws * scalars) * 8) * g == 8 * ((g * (n / g)) * (ggsws * scalars)))
        by (nonlinear_arith);
}

/// The input dimension of a valid shape is a whole number of groups: nothing is lost in the division
/// that counts them.
pub proof fn groups_divide_the_input_exactly(shape: KeyShape)
    requires
        shape.valid(),
    ensures
        shape.groups() >= 1,
        shape.groups() * shape.grouping_factor == shape.input_lwe_dimension,
{
    lemma_valid_sizes(shape);
}

/// For every shape that a key can have, the size computation fits in 64 bits.
pub proof fn supported_sizes_fit(p: CoreParams)
    requires
        p.key_shape().valid(),
    ensures
        p.size_fits(),
{
    lemma_valid_sizes(p.key_shape());
}

/// `e < 2^e`.
proof fn lemma_exponent_below_pow2(e: nat)
    ensures
        e < pow2(e),
    decreases e,
{
    if e == 0 {
        lemma_pow2_pos(0);
    } else {
        lemma_exponent_below_pow2((e - 1) as nat);
        lemma_pow2_unfold(e);
    }
}

/// `2^e / e` grows with `e` from 2 on.
proof fn lemma_pow2_outgrows(low: nat, high: nat)
    requires
        2 <= low < high,
    ensures
        pow2(low) * high < pow2(high) * low,
    decreases high,
{
    lemma_pow2_unfold(high);
    let before = (high - 1) as nat;
    let a = pow2(low);
    let b = pow2(before);
    lemma_pow2_pos(low);
    assert(pow2(high) == 2 * b);
    if before == low {
        assert(a * high < (2 * b) * low) by (nonlinear_arith)
            requires
                a == b,
                a >= 1,
                high == low + 1,
                low >= 2,
        ;
    } else {
        lemma_pow2_outgrows(low, before);
        assert(a * high < (2 * b) * low) by (nonlinear_arith)
            requires
                a * before < b * low,
                a >= 1,
                high == before + 1,
                before >= 1,
        ;
    }
}

/// The grouping-factor tradeoff: of two keys that differ in the grouping factor alone, the one with
/// the larger factor processes its input in fewer groups and stores more key material. (With the
/// factors 1 and 2 both store the same amount.)
pub proof fn larger_grouping_factor_trades_groups_for_key_size(small: KeyShape, large: KeyShape)
    requires
        small.input_lwe_dimension == large.input_lwe_dimension,
        small.glwe_dimension == large.glwe_dimension,
        small.polynomial_size == large.polynomial_size,
        small.decomp_level_count == large.decomp_level_count,
        small.valid(),
        large.valid(),
        2 <= small.grouping_factor < large.grouping_factor,
    ensures
        large.groups() < small.groups(),
        small.ggsw_count() < large.ggsw_count(),
        small.scalars() < large.scalars(),
{
    let n = small.input_lwe_dimension as int;
    let g = small.grouping_factor as int;
    let h = large.grouping_factor as int;
    let a = small.groups() as int;
    let b = large.groups() as int;
    let pg = pow2(g as nat) as int;
    let ph = pow2(h as nat) as int;
    lemma_whole_groups(n, g);
    lemma_whole_groups(n, h);
    assert(b < a) by (nonlinear_arith)
        requires
            a * g == b * h,
            1 <= g < h,
            b >= 1,
            a >= 1,
    ;
    lemma_pow2_outgrows(g as nat, h as nat);
    assert((a * pg) * g < (b * ph) * g) by (nonlinear_arith)
        requires
            a * g == b * h,
            pg * h < ph * g,
            b >= 1,
            g >= 1,
    ;
    assert(a * pg < b * ph) by (nonlinear_arith)
        requires
            (a * pg) * g < (b * ph) * g,
            g >= 1,
    ;
    let per_ggsw = small.scalars_per_ggsw() as int;
    let glwe_size = small.glwe_dimension + 1;
    let level = small.decomp_level_count as int;
    let poly = small.polynomial_size as int;
    assert(per_ggsw >= 1) by (nonlinear_arith)
        requires
            per_ggsw == level * glwe_size * glwe_size * poly,
            level >= 1,
            glwe_size >= 1,
            poly >= 1,
    ;
    assert((a * pg) * per_ggsw < (b * ph) * per_ggsw) by (nonlinear_arith)
        requires
            a * pg < b * ph,
            per_ggsw >= 1,
    ;
}

} // verus!
