//! LWE ciphertexts and keys, GLWE lookup tables: what their scalars mean.
//!
//! A ciphertext of dimension `n` is a list of `n` mask scalars followed by its body; a secret key is
//! a list of `n` bits.

use vstd::arithmetic::div_mod::*;
use vstd::arithmetic::power2::*;
use vstd::prelude::*;

verus! {

/// The sum of the first `count` products of a mask scalar and a key scalar.
pub open spec fn dot(mask: Seq<u64>, key: Seq<u64>, count: nat) -> int
    decreases count,
{
    if count == 0 {
        0
    } else {
        dot(mask, key, (count - 1) as nat) + mask[count - 1] * key[count - 1]
    }
}

/// The phase of a ciphertext under a key: the body less the product of mask and key, on the torus.
pub open spec fn phase(ct: Seq<u64>, key: Seq<u64>) -> u64 {
    crate::encoding::wrap(ct[key.len() as int] - dot(ct, key, key.len()))
}

/// What a ciphertext modulo `ciphertext_modulus` decrypts to.
pub open spec fn decrypted(ct: Seq<u64>, key: Seq<u64>, ciphertext_modulus: u128) -> int {
    phase(ct, key) as int / crate::params::torus_scaling(ciphertext_modulus)
}

/// The noise of `ct` as an encryption of `plaintext`: the difference, modulo the ciphertext modulus,
/// between what it decrypts to and the plaintext.
pub open spec fn lwe_noise(
    ct: Seq<u64>,
    key: Seq<u64>,
    plaintext: u64,
    ciphertext_modulus: u128,
) -> int {
    (decrypted(ct, key, ciphertext_modulus) - plaintext) % crate::params::modulus_value(
        ciphertext_modulus,
    )
}

/// A torus element as a signed distance from zero.
pub open spec fn centered(x: int) -> int {
    if x < 0x8000_0000_0000_0000 {
        x
    } else {
        x - 0x1_0000_0000_0000_0000
    }
}

/// A noise value lies within the bound `2^b` of a `TUniform` distribution. Of a Gaussian nothing is
/// said.
pub open spec fn within_t_uniform_bound(e: int, noise: crate::params::NoiseDistribution) -> bool {
    noise matches crate::params::NoiseDistribution::TUniform { bound_log2 } ==> -(pow2(
        bound_log2 as nat,
    ) as int) <= centered(e) <= pow2(bound_log2 as nat)
}

/// `ct` is an encryption of `plaintext` under `key`: it is one that two seeds give, its phase lies
/// on the grid of the ciphertext modulus, and `TUniform` noise keeps within its bound.
pub open spec fn encrypts(
    ct: Seq<u64>,
    key: Seq<u64>,
    plaintext: u64,
    noise: crate::params::NoiseDistribution,
    ciphertext_modulus: u128,
) -> bool {
    &&& ct.len() == key.len() + 1
    &&& exists|mask_seed: u128, noise_seed: u128| #[trigger]
        crate::random::lwe_encryptions(
            key,
            plaintext,
            noise,
            ciphertext_modulus,
            mask_seed,
            noise_seed,
        ).contains(ct)
    &&& within_t_uniform_bound(lwe_noise(ct, key, plaintext, ciphertext_modulus), noise)
    &&& phase(ct, key) as int % crate::params::torus_scaling(ciphertext_modulus) == 0
}

/// Every scalar is 0 or 1.
pub open spec fn binary(key: Seq<u64>) -> bool {
    forall|i: int| 0 <= i < key.len() ==> 0 <= #[trigger] key[i] <= 1
}

/// The function that the lookup table holds: a bootstrap gives back the message that it is given.
pub fn identity(x: u64) -> (y: u64)
    ensures
        y == x,
{
    x
}

/// The value of the identity lookup table at position `j` of a polynomial of `polynomial_size`
/// coefficients. The coefficients fall into one box for each message, and each box is centred on
/// its message: the table is turned left by half a box, so the front half of the first box stands
/// at the end.
pub open spec fn identity_lut_value(
    polynomial_size: int,
    msg_modulus: int,
    delta: int,
    j: int,
) -> int {
    let box_size = polynomial_size / msg_modulus;
    let i = (j + box_size / 2) % polynomial_size;
    if i < msg_modulus * box_size {
        (i / box_size) * delta
    } else {
        0
    }
}

/// `lut` is the trivial GLWE encryption of the identity lookup table: an all-zero mask of
/// `glwe_dimension` polynomials, followed by the table, scaled to the torus.
pub open spec fn is_identity_lut(
    lut: Seq<u64>,
    glwe_dimension: int,
    polynomial_size: int,
    msg_modulus: int,
    delta: int,
    ciphertext_modulus: u128,
) -> bool {
    let mask = glwe_dimension * polynomial_size;
    &&& lut.len() == mask + polynomial_size
    &&& forall|i: int| 0 <= i < mask ==> #[trigger] lut[i] == 0
    &&& forall|j: int|
        0 <= j < polynomial_size ==> #[trigger] lut[mask + j] == crate::encoding::wrap(
            crate::params::torus_scaling(ciphertext_modulus) * identity_lut_value(
                polynomial_size,
                msg_modulus,
                delta,
                j,
            ),
        )
}

/// The noise value `e`, drawn from `noise`, stays within half a step of the encoding: the
/// distribution is `TUniform` with a bound below half a step, or the value itself is small enough.
pub open spec fn noise_within_half_step(
    e: int,
    noise: crate::params::NoiseDistribution,
    delta: u64,
) -> bool {
    ||| noise matches crate::params::NoiseDistribution::TUniform { bound_log2 } && pow2(
        bound_log2 as nat,
    ) < delta as int / 2
    ||| -(delta as int / 2) <= centered(e) < delta - delta as int / 2
}

/// Decrypting undoes encrypting: under the native modulus, an encryption of an encoded message
/// decodes to that message, as long as its noise stays within half a step. For `TUniform` noise with
/// a bound below half a step it always does.
pub proof fn encrypted_message_decodes(
    ct: Seq<u64>,
    key: Seq<u64>,
    msg: u64,
    delta: u64,
    msg_modulus: u64,
    noise: crate::params::NoiseDistribution,
    ciphertext_modulus: u128,
)
    requires
        crate::params::modulus_value(ciphertext_modulus) == 0x1_0000_0000_0000_0000,
        msg < msg_modulus,
        delta == crate::encoding::delta_of(msg_modulus as int),
        delta > 0,
        encrypts(ct, key, crate::encoding::wrap(msg * delta), noise, ciphertext_modulus),
        noise_within_half_step(
            lwe_noise(ct, key, crate::encoding::wrap(msg * delta), ciphertext_modulus),
            noise,
            delta,
        ),
    ensures
        0 <= decrypted(ct, key, ciphertext_modulus) <= u64::MAX,
        crate::encoding::rounded(decrypted(ct, key, ciphertext_modulus) as u64, delta)
            % msg_modulus as int == msg,
{
    let q = 0x1_0000_0000_0000_0000int;
    let plaintext = crate::encoding::wrap(msg * delta);
    let x = decrypted(ct, key, ciphertext_modulus);
    let e = lwe_noise(ct, key, plaintext, ciphertext_modulus);
    crate::encoding::padding_bit_stays_free(msg as int, msg_modulus as int);
    assert(plaintext == msg * delta) by {
        lemma_small_mod((msg * delta) as nat, q as nat);
    }
    assert(x == phase(ct, key)) by {
        assert(crate::params::torus_scaling(ciphertext_modulus) == 1);
        lemma_div_basics(phase(ct, key) as int);
    }
    assert(crate::encoding::wrap(msg * delta + centered(e)) == x) by {
        lemma_add_mod_noop_right(plaintext as int, x - plaintext, q);
        lemma_small_mod(x as nat, q as nat);
        lemma_mod_multiples_vanish(-1, plaintext + e, q);
    }
    crate::encoding::decoding_absorbs_noise(msg, centered(e), delta, msg_modulus);
}

/// The table gives every message a whole box around it: from half a box below the message's own
/// position to just short of half a box above it, also around the end of the polynomial, the table
/// holds the encoding of that message.
pub proof fn identity_lut_absorbs_noise(
    polynomial_size: int,
    msg_modulus: int,
    delta: int,
    msg: int,
    offset: int,
)
    requires
        1 <= msg_modulus <= polynomial_size,
        0 <= msg < msg_modulus,
        -(polynomial_size / msg_modulus / 2) <= offset,
        offset < polynomial_size / msg_modulus - polynomial_size / msg_modulus / 2,
    ensures
        identity_lut_value(
            polynomial_size,
            msg_modulus,
            delta,
            (msg * (polynomial_size / msg_modulus) + offset) % polynomial_size,
        ) == msg * delta,
{
    let n = polynomial_size;
    let box_size = n / msg_modulus;
    let half = box_size / 2;
    let at = msg * box_size + offset;
    lemma_div_non_zero(n, msg_modulus);
    lemma_fundamental_div_mod(n, msg_modulus);
    lemma_mod_bound(n, msg_modulus);
    let rest = offset + half;
    assert(0 <= rest < box_size);
    assert(0 <= msg * box_size + rest < msg_modulus * box_size) by (nonlinear_arith)
        requires
            0 <= msg,
            msg + 1 <= msg_modulus,
            0 <= rest < box_size,
    ;
    assert((at % n + half) % n == msg * box_size + rest) by {
        lemma_add_mod_noop_right(half, at, n);
        lemma_small_mod((msg * box_size + rest) as nat, n as nat);
    }
    assert((msg * box_size + rest) / box_size == msg) by {
        assert(msg * box_size == box_size * msg) by (nonlinear_arith);
        lemma_div_multiples_vanish_fancy(msg, rest, box_size);
    }
}

} // verus!
