//! How a message is written into a 64-bit torus element, and how it is read back.
//!
//! A message space of `p` values is spread over the lower half of the torus in steps of
//! `delta = 2^63 / p`: the most significant bit stays free as padding.

use vstd::arithmetic::div_mod::*;
use vstd::arithmetic::mul::*;
use vstd::prelude::*;

verus! {

/// `x` reduced to the 64-bit torus.
pub open spec fn wrap(x: int) -> u64 {
    (x % 0x1_0000_0000_0000_0000) as u64
}

/// The step between two neighbouring messages of a space of `msg_modulus` messages.
pub open spec fn delta_of(msg_modulus: int) -> int {
    0x8000_0000_0000_0000int / msg_modulus
}

/// The number of the multiple of `delta` that lies nearest to the torus element `x`.
pub open spec fn rounded(x: u64, delta: u64) -> int {
    wrap(x + delta as int / 2) as int / delta as int
}

/// How far two integers lie apart.
pub open spec fn distance(a: int, b: int) -> int {
    if a < b {
        b - a
    } else {
        a - b
    }
}

/// The step of the encoding with one padding bit.
pub fn encoding_delta(msg_modulus: u64) -> (delta: u64)
    requires
        msg_modulus >= 1,
    ensures
        delta == delta_of(msg_modulus as int),
{
    assert(1u64 << 63 == 0x8000_0000_0000_0000) by (bit_vector);
    let encoding_with_padding: u64 = 1u64 << 63;
    encoding_with_padding / msg_modulus
}

/// Rounding decode: the nearest multiple of `delta`, divided by `delta`.
pub fn round_decode(x: u64, delta: u64) -> (r: u64)
    requires
        delta > 0,
    ensures
        r == rounded(x, delta),
{
    x.wrapping_add(delta / 2) / delta
}

/// The message of a space of `msg_modulus` messages that a decrypted torus element stands for.
pub fn decode(x: u64, delta: u64, msg_modulus: u64) -> (msg: u64)
    requires
        delta > 0,
        msg_modulus > 0,
    ensures
        msg == rounded(x, delta) % msg_modulus as int,
{
    round_decode(x, delta) % msg_modulus
}

/// The encoding leaves the padding bit free: every encoded message, and the step that follows the
/// last one, stays in the lower half of the torus.
pub proof fn padding_bit_stays_free(msg: int, msg_modulus: int)
    requires
        0 <= msg < msg_modulus,
    ensures
        0 <= msg * delta_of(msg_modulus) <= msg_modulus * delta_of(msg_modulus),
        msg_modulus * delta_of(msg_modulus) <= 0x8000_0000_0000_0000,
        msg * delta_of(msg_modulus) < 0x8000_0000_0000_0000,
{
    let delta = delta_of(msg_modulus);
    lemma_fundamental_div_mod(0x8000_0000_0000_0000, msg_modulus);
    lemma_mod_bound(0x8000_0000_0000_0000, msg_modulus);
    lemma_div_pos_is_pos(0x8000_0000_0000_0000, msg_modulus);
    assert(0 <= msg * delta <= msg_modulus * delta) by (nonlinear_arith)
        requires
            0 <= msg <= msg_modulus,
            0 <= delta,
    ;
    assert(msg * delta + delta <= msg_modulus * delta) by (nonlinear_arith)
        requires
            0 <= msg,
            msg + 1 <= msg_modulus,
            0 <= delta,
    ;
    if delta == 0 {
        assert(msg * delta == 0) by (nonlinear_arith)
            requires
                delta == 0,
        ;
    }
}

/// The encoding fills the lower half of the torus: the step is the largest that leaves the padding
/// bit free. Where the number of messages divides `2^63`, nothing of that half is left over.
pub proof fn the_step_is_the_largest_that_fits(msg_modulus: int)
    requires
        msg_modulus >= 1,
    ensures
        0 <= delta_of(msg_modulus),
        msg_modulus * delta_of(msg_modulus) <= 0x8000_0000_0000_0000,
        0x8000_0000_0000_0000 < msg_modulus * (delta_of(msg_modulus) + 1),
        0x8000_0000_0000_0000int % msg_modulus == 0 ==> msg_modulus * delta_of(msg_modulus)
            == 0x8000_0000_0000_0000,
{
    let delta = delta_of(msg_modulus);
    lemma_fundamental_div_mod(0x8000_0000_0000_0000, msg_modulus);
    lemma_mod_bound(0x8000_0000_0000_0000, msg_modulus);
    lemma_div_pos_is_pos(0x8000_0000_0000_0000, msg_modulus);
    lemma_mul_is_distributive_add(msg_modulus, delta, 1);
}

/// Rounding goes around: a torus element so close below its end that the half step carries it
/// beyond stands for zero.
pub proof fn rounding_goes_around_to_zero(x: u64, delta: u64)
    requires
        delta > 0,
        x + delta as int / 2 > u64::MAX,
    ensures
        rounded(x, delta) == 0,
{
    let d = delta as int;
    let q = 0x1_0000_0000_0000_0000int;
    assert((x + d / 2) % q == x + d / 2 - q) by {
        lemma_mod_multiples_vanish(-1, x + d / 2, q);
        lemma_small_mod((x + d / 2 - q) as nat, q as nat);
    }
    lemma_basic_div(x + d / 2 - q, d);
}

/// The decrypted torus element `x` stands for the message `msg` of a space of `msg_modulus`
/// messages: it lies within half a step of a multiple of the step that leaves `msg` when reduced to
/// the space, or so close below the end of the torus that it goes around to zero.
pub open spec fn stands_for(x: u64, delta: u64, msg_modulus: u64, msg: int) -> bool {
    &&& 0 <= msg < msg_modulus
    &&& if x + delta as int / 2 > u64::MAX {
        msg == 0
    } else {
        exists|k: int| #[trigger] lies_nearest(x as int, delta as int, msg + k * msg_modulus)
    }
}

/// The multiple of `delta` with that number is one that `x` lies nearest to, the upper one where
/// there are two.
pub open spec fn lies_nearest(x: int, delta: int, number: int) -> bool {
    -(delta / 2) <= x - number * delta < delta - delta / 2
}

/// What a torus element is decoded to is the one message that it stands for.
pub proof fn decoding_finds_the_message(x: u64, delta: u64, msg_modulus: u64, msg: int)
    requires
        delta > 0,
        msg_modulus > 0,
    ensures
        rounded(x, delta) % msg_modulus as int == msg <==> stands_for(x, delta, msg_modulus, msg),
{
    let d = delta as int;
    let m = msg_modulus as int;
    let r = rounded(x, delta);
    lemma_mod_bound(r, m);
    if x + d / 2 > u64::MAX {
        rounding_goes_around_to_zero(x, delta);
        lemma_small_mod(0, m as nat);
    } else {
        rounding_finds_the_nearest_multiple(x, delta, 0);
        if r % m == msg {
            lemma_fundamental_div_mod(r, m);
            lemma_mul_is_commutative(m, r / m);
            assert(lies_nearest(x as int, d, msg + (r / m) * m));
        }
        if stands_for(x, delta, msg_modulus, msg) {
            let k = choose|k: int| #[trigger] lies_nearest(x as int, d, msg + k * m);
            let number = msg + k * m;
            if number < r {
                assert(number * d + d <= r * d) by (nonlinear_arith)
                    requires
                        number + 1 <= r,
                        d > 0,
                ;
            } else if number > r {
                assert(r * d + d <= number * d) by (nonlinear_arith)
                    requires
                        r + 1 <= number,
                        d > 0,
                ;
            }
            lemma_mod_multiples_vanish(k, msg, m);
            lemma_mul_is_commutative(m, k);
            lemma_small_mod(msg as nat, m as nat);
        }
    }
}

/// Rounding finds the nearest multiple: as long as the half step does not carry the torus element
/// around, no multiple of `delta` lies nearer to it, and of two that lie equally near rounding takes
/// the upper one.
pub proof fn rounding_finds_the_nearest_multiple(x: u64, delta: u64, k: int)
    requires
        delta > 0,
        x + delta as int / 2 <= u64::MAX,
    ensures
        -(delta as int / 2) <= x - rounded(x, delta) * delta < delta - delta as int / 2,
        distance(x as int, rounded(x, delta) * delta) <= distance(x as int, k * delta),
        distance(x as int, rounded(x, delta) * delta) == distance(x as int, k * delta) ==> k
            <= rounded(x, delta),
{
    let d = delta as int;
    let r = rounded(x, delta);
    lemma_small_mod((x + d / 2) as nat, 0x1_0000_0000_0000_0000);
    lemma_fundamental_div_mod(x + d / 2, d);
    lemma_mod_bound(x + d / 2, d);
    lemma_mul_is_commutative(d, r);
    if k < r {
        assert(k * d + d <= r * d) by (nonlinear_arith)
            requires
                k + 1 <= r,
                d > 0,
        ;
    } else if k > r {
        assert(r * d + d <= k * d) by (nonlinear_arith)
            requires
                r + 1 <= k,
                d > 0,
        ;
    }
}

/// Rounding undoes writing as long as the noise `e` stays within half a step: whatever the step and
/// the message, as long as the step of that message lies on the torus, and also where the noise
/// carries the torus element below zero and around.
pub proof fn rounding_undoes_encoding(msg: int, e: int, delta: u64)
    requires
        delta > 0,
        0 <= msg,
        (msg + 1) * delta <= 0x1_0000_0000_0000_0000,
        -(delta as int / 2) <= e < delta - delta as int / 2,
    ensures
        rounded(wrap(msg * delta + e), delta) == msg,
{
    let d = delta as int;
    let q = 0x1_0000_0000_0000_0000int;
    let shifted = msg * d + e + d / 2;
    assert(0 <= msg * d && (msg + 1) * d == msg * d + d) by (nonlinear_arith)
        requires
            0 <= msg,
            d > 0,
    ;
    let x = wrap(msg * delta + e);
    assert(wrap(x + d / 2) == shifted) by {
        lemma_mod_bound(msg * d + e, q);
        lemma_add_mod_noop_right(d / 2, msg * d + e, q);
        lemma_small_mod(shifted as nat, q as nat);
    }
    assert(shifted / d == msg) by {
        let rest = e + d / 2;
        lemma_mul_is_commutative(msg, d);
        lemma_div_multiples_vanish_fancy(msg, rest, d);
    }
}

/// Reading back undoes writing as long as the noise `e` stays within half a step, for every message
/// of the space.
pub proof fn decoding_absorbs_noise(msg: u64, e: int, delta: u64, msg_modulus: u64)
    requires
        msg < msg_modulus,
        delta == delta_of(msg_modulus as int),
        delta > 0,
        -(delta as int / 2) <= e < delta - delta as int / 2,
    ensures
        rounded(wrap(msg * delta + e), delta) == msg,
        rounded(wrap(msg * delta + e), delta) % msg_modulus as int == msg,
{
    padding_bit_stays_free(msg as int, msg_modulus as int);
    assert((msg + 1) * delta == msg * delta + delta) by (nonlinear_arith);
    rounding_undoes_encoding(msg as int, e, delta);
    lemma_small_mod(msg as nat, msg_modulus as nat);
}

} // verus!
