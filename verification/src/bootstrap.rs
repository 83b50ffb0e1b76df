//! Preparing a bootstrap once, running it, and checking that it gives messages back.

use tfhe::shortint::parameters::MultiBitPBSParameters;
use vstd::arithmetic::div_mod::*;
use vstd::prelude::*;

use crate::clock::{Span, Step};
use crate::core_crypto::{
    bootstrap_lwe, decrypt_lwe, generate_identity_lut, new_lwe_ciphertext, FourierKey,
};
use crate::encoding::{decode, encoding_delta};
use crate::params::{bsk_size_bytes, CoreParams};
use crate::random::{draw_seed, encrypt_lwe, generate_keys, Seed};

verus! {

/// The number of threads that a bootstrap runs on.
pub const THREAD_COUNT: usize = 8;

/// Everything that a timed bootstrap needs, built once.
pub struct Prepared {
    pub input_ct: Vec<u64>,
    pub accumulator: Vec<u64>,
    pub fbsk: FourierKey,
    pub input_lwe_secret_key: Vec<u64>,
    pub output_lwe_secret_key: Vec<u64>,
    /// The parameter set whose LWE noise distribution is used. Nothing else of it is.
    pub noise: MultiBitPBSParameters,
    /// The ciphertext modulus, with 0 for the native modulus `2^64`.
    pub ciphertext_modulus: u128,
    pub delta: u64,
    pub msg_modulus: u64,
    pub keygen_time: std::time::Duration,
    /// What that time spans.
    pub keygen_span: Span,
    pub bsk_bytes: u64,
}

/// A bootstrap that did not give its message back.
#[derive(Clone, Copy, Debug, PartialEq, Eq)]
pub struct Mismatch {
    pub msg: u64,
    pub decoded: u64,
}

impl Prepared {
    /// The layout of the bootstrap key.
    pub open spec fn key_shape(self) -> crate::params::KeyShape {
        crate::core_crypto::fourier_key_shape(self.fbsk)
    }

    /// The distribution of the noise in LWE ciphertexts.
    pub open spec fn lwe_noise(self) -> crate::params::NoiseDistribution {
        crate::core_crypto::lwe_noise_distribution(self.noise)
    }

    /// The parts fit together, and messages can be encoded and decoded.
    pub open spec fn wf(self) -> bool {
        let shape = self.key_shape();
        &&& shape.valid()
        &&& crate::params::modulus_supported(self.ciphertext_modulus)
        &&& crate::params::noise_drawable(self.lwe_noise(), self.ciphertext_modulus)
        &&& self.input_ct@.len() == shape.input_lwe_dimension + 1
        &&& self.input_lwe_secret_key@.len() == shape.input_lwe_dimension
        &&& self.output_lwe_secret_key@.len() == shape.glwe_dimension * shape.polynomial_size
        &&& self.accumulator@.len() == (shape.glwe_dimension + 1) * shape.polynomial_size
        &&& self.delta >= 1
        &&& self.msg_modulus >= 1
    }

    /// Prepared for the parameters `p`: the keys are key material for them, the time is that of their
    /// generation, the table is the identity table of the encoding, and the input is an encryption of
    /// the largest message.
    pub open spec fn prepared_for(self, p: CoreParams) -> bool {
        &&& self.wf()
        &&& self.noise == p.noise
        &&& self.ciphertext_modulus == p.ciphertext_modulus
        &&& self.msg_modulus == p.msg_modulus()
        &&& self.delta == crate::encoding::delta_of(p.msg_modulus())
        &&& self.bsk_bytes == p.key_shape().scalars() * 8
        &&& crate::random::keys_for(
            p,
            self.input_lwe_secret_key@,
            self.output_lwe_secret_key@,
            self.fbsk,
        )
        &&& crate::random::spans_key_generation(
            self.keygen_span,
            p,
            self.input_lwe_secret_key@,
            self.output_lwe_secret_key@,
            self.fbsk,
        )
        &&& self.keygen_time == self.keygen_span.elapsed()
        &&& call_ensures(
            std::time::Instant::elapsed,
            (&self.keygen_span.began(),),
            self.keygen_time,
        )
        &&& crate::lwe::is_identity_lut(
            self.accumulator@,
            p.glwe_dimension as int,
            p.polynomial_size as int,
            p.msg_modulus(),
            self.delta as int,
            p.ciphertext_modulus,
        )
        &&& crate::lwe::encrypts(
            self.input_ct@,
            self.input_lwe_secret_key@,
            ((p.msg_modulus() - 1) * self.delta) as u64,
            p.lwe_noise(),
            p.ciphertext_modulus,
        )
    }

    /// `output` is a ciphertext that the bootstrap of `input` can give.
    pub open spec fn bootstraps(self, input: Seq<u64>, output: Seq<u64>) -> bool {
        crate::core_crypto::bootstrap_outputs(
            input,
            self.accumulator@,
            self.fbsk,
            self.ciphertext_modulus,
            THREAD_COUNT,
            false,
        ).contains(output)
    }

    /// `plaintext` is a value that encrypting `msg`, bootstrapping it and decrypting the output can
    /// give.
    pub open spec fn round_trips(self, msg: u64, plaintext: u64) -> bool {
        exists|input: Seq<u64>, output: Seq<u64>| #[trigger]
            self.bootstraps(input, output) && crate::lwe::encrypts(
                input,
                self.input_lwe_secret_key@,
                crate::encoding::wrap(msg * self.delta),
                self.lwe_noise(),
                self.ciphertext_modulus,
            ) && plaintext == crate::lwe::decrypted(
                output,
                self.output_lwe_secret_key@,
                self.ciphertext_modulus,
            )
    }

    /// `plaintext` is a value that encrypting `msg` from these two seeds, bootstrapping it and
    /// decrypting the output can give.
    pub open spec fn round_trips_from(
        self,
        msg: u64,
        mask_seed: u128,
        noise_seed: u128,
        plaintext: u64,
    ) -> bool {
        exists|input: Seq<u64>, output: Seq<u64>| #[trigger]
            self.bootstraps(input, output) && crate::random::lwe_encryptions(
                self.input_lwe_secret_key@,
                crate::encoding::wrap(msg * self.delta),
                self.lwe_noise(),
                self.ciphertext_modulus,
                mask_seed,
                noise_seed,
            ).contains(input) && crate::lwe::encrypts(
                input,
                self.input_lwe_secret_key@,
                crate::encoding::wrap(msg * self.delta),
                self.lwe_noise(),
                self.ciphertext_modulus,
            ) && plaintext == crate::lwe::decrypted(
                output,
                self.output_lwe_secret_key@,
                self.ciphertext_modulus,
            )
    }

    /// The message that a decrypted plaintext stands for.
    pub open spec fn message_of(self, plaintext: u64) -> int {
        crate::encoding::rounded(plaintext, self.delta) % self.msg_modulus as int
    }

    /// A round trip of `msg` can give `decoded`.
    pub open spec fn decodes_to(self, msg: u64, decoded: u64) -> bool {
        exists|plaintext: u64| #[trigger]
            self.round_trips(msg, plaintext) && self.message_of(plaintext) == decoded
    }

    /// `plaintexts` are values that round trips of the first messages to check can give.
    pub open spec fn sends(self, plaintexts: Seq<u64>) -> bool {
        &&& plaintexts.len() <= 4
        &&& forall|i: int|
            0 <= i < plaintexts.len() ==> self.round_trips(
                messages_to_check(self.msg_modulus)[i],
                #[trigger] plaintexts[i],
            )
    }

    /// A check that sends one message after the other can end with `r`: with success where all four
    /// have come back, with the first that does not come back where there is one.
    pub open spec fn check_ends_with(self, r: Result<(), Mismatch>) -> bool {
        exists|plaintexts: Seq<u64>|
            {
                &&& #[trigger] self.sends(plaintexts)
                &&& r is Ok ==> plaintexts.len() == 4 && all_come_back(
                    plaintexts,
                    self.delta,
                    self.msg_modulus,
                )
                &&& r matches Err(mismatch) ==> first_mismatch(
                    plaintexts,
                    self.delta,
                    self.msg_modulus,
                    plaintexts.len() - 1,
                    mismatch,
                )
            }
    }

    /// `plaintexts` are values that round trips of the first messages to check can give, each from its
    /// own pair of seeds.
    pub open spec fn sends_from(self, seeds: Seq<(u128, u128)>, plaintexts: Seq<u64>) -> bool {
        &&& plaintexts.len() <= 4
        &&& forall|i: int|
            0 <= i < plaintexts.len() ==> self.round_trips_from(
                messages_to_check(self.msg_modulus)[i],
                seeds[i].0,
                seeds[i].1,
                #[trigger] plaintexts[i],
            )
    }

    /// A check that sends each message once, from its own pair of seeds, can end with `r`.
    pub open spec fn check_from(
        self,
        seeds: Seq<(u128, u128)>,
        r: Result<(), Mismatch>,
    ) -> bool {
        exists|plaintexts: Seq<u64>|
            {
                &&& #[trigger] self.sends_from(seeds, plaintexts)
                &&& r is Ok ==> plaintexts.len() == 4 && all_come_back(
                    plaintexts,
                    self.delta,
                    self.msg_modulus,
                )
                &&& r matches Err(mismatch) ==> first_mismatch(
                    plaintexts,
                    self.delta,
                    self.msg_modulus,
                    plaintexts.len() - 1,
                    mismatch,
                )
            }
    }

    /// Each of the messages to check can come back.
    pub open spec fn all_decode(self) -> bool {
        forall|i: int|
            0 <= i < 4 ==> self.decodes_to(
                #[trigger] messages_to_check(self.msg_modulus)[i],
                messages_to_check(self.msg_modulus)[i],
            )
    }

    /// `mismatch` is what one of the messages to check can be decoded to, and those before it can
    /// come back.
    pub open spec fn fails_with(self, mismatch: Mismatch) -> bool {
        exists|i: int|
            {
                &&& 0 <= i < 4
                &&& #[trigger] messages_to_check(self.msg_modulus)[i] == mismatch.msg
                &&& mismatch.decoded != mismatch.msg
                &&& self.decodes_to(mismatch.msg, mismatch.decoded)
                &&& forall|j: int|
                    0 <= j < i ==> self.decodes_to(
                        #[trigger] messages_to_check(self.msg_modulus)[j],
                        messages_to_check(self.msg_modulus)[j],
                    )
            }
    }
}

/// Builds the keys, the lookup table and one encrypted input. The time is that of the key material
/// alone, without that of setting up its generators.
pub fn prepare(p: &CoreParams) -> (prep: Prepared)
    requires
        p.supported(),
    ensures
        prep.prepared_for(*p),
{
    proof {
        crate::params::supported_sizes_fit(*p);
        crate::params::lemma_valid_sizes(p.key_shape());
        crate::encoding::padding_bit_stays_free(p.msg_modulus() - 1, p.msg_modulus());
        crate::params::lemma_glwe_sizes(p.glwe_dimension as int, p.polynomial_size as int);
    }

    // ---- keys ----
    let keys = generate_keys(p);
    let bsk_bytes: u64 = bsk_size_bytes(p);

    // ---- encoding and lookup table ----
    let msg_modulus: u64 = p.message_modulus * p.carry_modulus;
    let delta: u64 = encoding_delta(msg_modulus);
    let accumulator = generate_identity_lut(
        p.polynomial_size,
        p.glwe_dimension,
        msg_modulus as usize,
        p.ciphertext_modulus,
        delta,
    );

    // ---- one encrypted input ----
    let msg: u64 = msg_modulus - 1;
    let input_ct = encrypt_lwe(
        keys.input_lwe_secret_key.as_slice(),
        msg * delta,
        &p.noise,
        p.ciphertext_modulus,
        draw_seed(),
        draw_seed(),
    );

    assert(delta >= 1) by {
        lemma_div_non_zero(0x8000_0000_0000_0000, msg_modulus as int);
    }
    Prepared {
        input_ct,
        accumulator,
        fbsk: keys.fbsk,
        input_lwe_secret_key: keys.input_lwe_secret_key,
        output_lwe_secret_key: keys.output_lwe_secret_key,
        noise: p.noise,
        ciphertext_modulus: p.ciphertext_modulus,
        delta,
        msg_modulus,
        keygen_time: keys.keygen_time,
        keygen_span: keys.keygen_span,
        bsk_bytes,
    }
}

/// A single bootstrap into a buffer of the caller's.
pub fn run_pbs(prep: &Prepared, out: &mut Vec<u64>)
    requires
        prep.wf(),
        old(out)@.len() == prep.output_lwe_secret_key@.len() + 1,
    ensures
        final(out)@.len() == old(out)@.len(),
        prep.bootstraps(prep.input_ct@, final(out)@),
{
    bootstrap_lwe(
        prep.input_ct.as_slice(),
        out,
        prep.accumulator.as_slice(),
        &prep.fbsk,
        prep.ciphertext_modulus,
        THREAD_COUNT,
        false,
    );
}

/// An all-zero ciphertext of the size of a bootstrap's output.
pub fn fresh_output(prep: &Prepared) -> (out: Vec<u64>)
    requires
        prep.wf(),
    ensures
        out@ == Seq::new(prep.output_lwe_secret_key@.len() + 1, |i: int| 0u64),
{
    proof {
        lemma_prepared_sizes(*prep);
    }
    new_lwe_ciphertext(prep.output_lwe_secret_key.len(), prep.ciphertext_modulus)
}

/// The sizes of the parts are within the machine's limits.
proof fn lemma_prepared_sizes(prep: Prepared)
    requires
        prep.wf(),
    ensures
        1 <= prep.input_lwe_secret_key@.len(),
        (prep.input_lwe_secret_key@.len() + 1) * 8 <= isize::MAX,
        1 <= prep.output_lwe_secret_key@.len(),
        (prep.output_lwe_secret_key@.len() + 1) * 8 <= isize::MAX,
{
    let shape = prep.key_shape();
    crate::params::lemma_valid_sizes(shape);
    crate::params::lemma_glwe_sizes(shape.glwe_dimension as int, shape.polynomial_size as int);
}

/// The messages that a correctness check tries: the two smallest, the middle one and the largest.
pub open spec fn messages_to_check(msg_modulus: u64) -> Seq<u64> {
    seq![0u64, 1u64, (msg_modulus / 2) as u64, (msg_modulus - 1) as u64]
}

/// Encrypts a message from fresh seeds, bootstraps it and decrypts the output.
pub fn round_trip(prep: &Prepared, msg: u64) -> (plaintext: u64)
    requires
        prep.wf(),
    ensures
        prep.round_trips(msg, plaintext),
{
    let mask_seed = draw_seed();
    let noise_seed = draw_seed();
    let ghost (mask, noise) = (mask_seed@, noise_seed@);
    let plaintext: u64 = round_trip_from(prep, msg, mask_seed, noise_seed);
    proof {
        lemma_round_trips(*prep, msg, mask, noise, plaintext);
    }
    plaintext
}

/// Encrypts a message from these two seeds, bootstraps it and decrypts the output.
fn round_trip_from(prep: &Prepared, msg: u64, mask_seed: Seed, noise_seed: Seed) -> (plaintext: u64)
    requires
        prep.wf(),
    ensures
        prep.round_trips_from(msg, mask_seed@, noise_seed@, plaintext),
{
    proof {
        lemma_prepared_sizes(*prep);
        lemma_wrapping_mul(msg, prep.delta);
    }
    let input_ct = encrypt_lwe(
        prep.input_lwe_secret_key.as_slice(),
        msg.wrapping_mul(prep.delta),
        &prep.noise,
        prep.ciphertext_modulus,
        mask_seed,
        noise_seed,
    );
    let mut out = fresh_output(prep);
    bootstrap_lwe(
        input_ct.as_slice(),
        &mut out,
        prep.accumulator.as_slice(),
        &prep.fbsk,
        prep.ciphertext_modulus,
        THREAD_COUNT,
        false,
    );
    assert(prep.bootstraps(input_ct@, out@));
    decrypt_lwe(prep.output_lwe_secret_key.as_slice(), out.as_slice(), prep.ciphertext_modulus)
}

/// A wrapping product is the product on the torus.
proof fn lemma_wrapping_mul(x: u64, y: u64)
    ensures
        x.wrapping_mul(y) == crate::encoding::wrap(x * y),
{
}

/// Whether a decrypted plaintext stands for the message that was sent.
pub fn check_message(msg: u64, plaintext: u64, delta: u64, msg_modulus: u64) -> (r: Result<
    (),
    Mismatch,
>)
    requires
        delta >= 1,
        msg_modulus >= 1,
    ensures
        r is Ok <==> crate::encoding::rounded(plaintext, delta) % msg_modulus as int == msg,
        r matches Err(mismatch) ==> {
            &&& mismatch.msg == msg
            &&& mismatch.decoded == crate::encoding::rounded(plaintext, delta) % msg_modulus as int
        },
{
    let decoded: u64 = decode(plaintext, delta, msg_modulus);
    if decoded == msg {
        Ok(())
    } else {
        Err(Mismatch { msg, decoded })
    }
}

/// The message to check at `i` comes back where its round trip gave the plaintext at `i`.
pub open spec fn comes_back(plaintexts: Seq<u64>, delta: u64, msg_modulus: u64, i: int) -> bool {
    crate::encoding::rounded(plaintexts[i], delta) % msg_modulus as int == messages_to_check(
        msg_modulus,
    )[i]
}

/// Every message that was sent comes back.
pub open spec fn all_come_back(plaintexts: Seq<u64>, delta: u64, msg_modulus: u64) -> bool {
    forall|i: int|
        0 <= i < plaintexts.len() ==> #[trigger] comes_back(plaintexts, delta, msg_modulus, i)
}

/// The message at `i` is the first that does not come back, and `mismatch` says what it was decoded
/// to instead.
pub open spec fn first_mismatch(
    plaintexts: Seq<u64>,
    delta: u64,
    msg_modulus: u64,
    i: int,
    mismatch: Mismatch,
) -> bool {
    &&& 0 <= i < plaintexts.len()
    &&& !comes_back(plaintexts, delta, msg_modulus, i)
    &&& mismatch.msg == messages_to_check(msg_modulus)[i]
    &&& mismatch.decoded == crate::encoding::rounded(plaintexts[i], delta) % msg_modulus as int
    &&& forall|j: int| 0 <= j < i ==> #[trigger] comes_back(plaintexts, delta, msg_modulus, j)
}

/// Whether the messages to check came back, given what the round trips of the first few of them
/// gave: where one did not, the first such message and what it was decoded to.
pub fn check_messages(plaintexts: &[u64], delta: u64, msg_modulus: u64) -> (r: Result<(), Mismatch>)
    requires
        plaintexts@.len() <= 4,
        delta >= 1,
        msg_modulus >= 1,
    ensures
        r is Ok <==> all_come_back(plaintexts@, delta, msg_modulus),
        r matches Err(mismatch) ==> exists|i: int| #[trigger]
            first_mismatch(plaintexts@, delta, msg_modulus, i, mismatch),
{
    let test_messages: [u64; 4] = [0, 1, msg_modulus / 2, msg_modulus - 1];
    assert(test_messages@ =~= messages_to_check(msg_modulus));
    let mut i: usize = 0;
    while i < plaintexts.len()
        invariant
            i <= plaintexts@.len() <= 4,
            delta >= 1,
            msg_modulus >= 1,
            test_messages@ == messages_to_check(msg_modulus),
            forall|j: int| 0 <= j < i ==> #[trigger] comes_back(plaintexts@, delta, msg_modulus, j),
        decreases plaintexts@.len() - i,
    {
        match check_message(test_messages[i], plaintexts[i], delta, msg_modulus) {
            Ok(()) => {},
            Err(mismatch) => {
                assert(first_mismatch(plaintexts@, delta, msg_modulus, i as int, mismatch));
                return Err(mismatch);
            },
        }
        i += 1;
    }
    Ok(())
}

/// The values of pairs of seeds.
pub open spec fn seed_values(seeds: Seq<(Seed, Seed)>) -> Seq<(u128, u128)> {
    Seq::new(seeds.len(), |i: int| (seeds[i].0@, seeds[i].1@))
}

/// Sends several messages through the bootstrap, one after the other, and stops at the first that
/// does not come back: the identity table holds where all of them do.
pub fn assert_correct(prep: &Prepared) -> (r: Result<(), Mismatch>)
    requires
        prep.wf(),
    ensures
        prep.check_ends_with(r),
        exists|seeds: Seq<(u128, u128)>| seeds.len() == 4 && #[trigger] prep.check_from(seeds, r),
        prep.msg_modulus == 1 ==> r == Err::<(), Mismatch>((Mismatch { msg: 1, decoded: 0 })),
        r is Ok ==> prep.all_decode(),
        r matches Err(mismatch) ==> prep.fails_with(mismatch),
{
    let seeds: Vec<(Seed, Seed)> = vec![
        (draw_seed(), draw_seed()),
        (draw_seed(), draw_seed()),
        (draw_seed(), draw_seed()),
        (draw_seed(), draw_seed()),
    ];
    assert_correct_from(prep, seeds)
}

/// Takes the first pair of seeds.
fn take_first(seeds: &mut Vec<(Seed, Seed)>) -> (first: (Seed, Seed))
    requires
        old(seeds)@.len() >= 1,
    ensures
        first == old(seeds)@[0],
        final(seeds)@ == old(seeds)@.skip(1),
{
    let first = seeds.remove(0);
    assert(seeds@ =~= old(seeds)@.skip(1));
    first
}

/// Sends several messages through the bootstrap, one after the other and each once, from its own
/// pair of seeds, and stops at the first that does not come back. The seeds are used up: there is
/// no second try.
pub fn assert_correct_from(prep: &Prepared, seeds: Vec<(Seed, Seed)>) -> (r: Result<(), Mismatch>)
    requires
        prep.wf(),
        seeds@.len() == 4,
    ensures
        prep.check_from(seed_values(seeds@), r),
        prep.check_ends_with(r),
        prep.msg_modulus == 1 ==> r == Err::<(), Mismatch>((Mismatch { msg: 1, decoded: 0 })),
        r is Ok ==> prep.all_decode(),
        r matches Err(mismatch) ==> prep.fails_with(mismatch),
{
    let test_messages: [u64; 4] = [0, 1, prep.msg_modulus / 2, prep.msg_modulus - 1];
    assert(test_messages@ =~= messages_to_check(prep.msg_modulus));
    let ghost values = seed_values(seeds@);
    let ghost all = seeds@;
    let mut left = seeds;
    let mut plaintexts: Vec<u64> = Vec::new();
    let mut i: usize = 0;
    while i < 4
        invariant
            prep.wf(),
            0 <= i <= 4,
            test_messages@ == messages_to_check(prep.msg_modulus),
            all == seeds@,
            all.len() == 4,
            left@ == all.skip(i as int),
            values == seed_values(all),
            plaintexts@.len() == i,
            prep.sends_from(values, plaintexts@),
            all_come_back(plaintexts@, prep.delta, prep.msg_modulus),
        decreases 4 - i,
    {
        let ghost before = plaintexts@;
        let (mask_seed, noise_seed) = take_first(&mut left);
        proof {
            assert(all.skip(i as int)[0] == all[i as int]);
            assert(all.skip(i as int).skip(1) =~= all.skip(i + 1));
        }
        let plaintext: u64 = round_trip_from(prep, test_messages[i], mask_seed, noise_seed);
        plaintexts.push(plaintext);
        proof {
            lemma_one_more_is_sent(*prep, values, before, plaintext);
        }
        match check_messages(plaintexts.as_slice(), prep.delta, prep.msg_modulus) {
            Ok(()) => {},
            Err(mismatch) => {
                proof {
                    lemma_the_last_fails(
                        before,
                        plaintext,
                        prep.delta,
                        prep.msg_modulus,
                        mismatch,
                    );
                    lemma_check_ends(*prep, values, plaintexts@, Err(mismatch));
                }
                return Err(mismatch);
            },
        }
        i += 1;
    }
    proof {
        lemma_check_ends(*prep, values, plaintexts@, Ok(()));
    }
    Ok(())
}

/// A round trip from two seeds is a round trip.
proof fn lemma_round_trips(
    prep: Prepared,
    msg: u64,
    mask_seed: u128,
    noise_seed: u128,
    plaintext: u64,
)
    requires
        prep.round_trips_from(msg, mask_seed, noise_seed, plaintext),
    ensures
        prep.round_trips(msg, plaintext),
{
}

/// One more round trip, from the next pair of seeds.
proof fn lemma_one_more_is_sent(
    prep: Prepared,
    seeds: Seq<(u128, u128)>,
    before: Seq<u64>,
    plaintext: u64,
)
    requires
        prep.sends_from(seeds, before),
        before.len() < 4,
        prep.round_trips_from(
            messages_to_check(prep.msg_modulus)[before.len() as int],
            seeds[before.len() as int].0,
            seeds[before.len() as int].1,
            plaintext,
        ),
    ensures
        prep.sends_from(seeds, before.push(plaintext)),
{
    let after = before.push(plaintext);
    assert forall|i: int| 0 <= i < after.len() implies prep.round_trips_from(
        messages_to_check(prep.msg_modulus)[i],
        seeds[i].0,
        seeds[i].1,
        #[trigger] after[i],
    ) by {
        if i < before.len() {
            assert(after[i] == before[i]);
        }
    }
}

/// Where all messages but the last have come back, the first that does not is the last.
proof fn lemma_the_last_fails(
    before: Seq<u64>,
    plaintext: u64,
    delta: u64,
    msg_modulus: u64,
    mismatch: Mismatch,
)
    requires
        all_come_back(before, delta, msg_modulus),
        exists|i: int| #[trigger]
            first_mismatch(before.push(plaintext), delta, msg_modulus, i, mismatch),
    ensures
        first_mismatch(
            before.push(plaintext),
            delta,
            msg_modulus,
            before.len() as int,
            mismatch,
        ),
{
    let after = before.push(plaintext);
    let i = choose|i: int| #[trigger] first_mismatch(after, delta, msg_modulus, i, mismatch);
    if i < before.len() {
        assert(comes_back(before, delta, msg_modulus, i));
        assert(after[i] == before[i]);
    }
}

/// What a check says of the plaintexts it saw, said of the messages.
proof fn lemma_check_ends(
    prep: Prepared,
    seeds: Seq<(u128, u128)>,
    plaintexts: Seq<u64>,
    r: Result<(), Mismatch>,
)
    requires
        prep.sends_from(seeds, plaintexts),
        r is Ok ==> plaintexts.len() == 4 && all_come_back(
            plaintexts,
            prep.delta,
            prep.msg_modulus,
        ),
        r matches Err(mismatch) ==> first_mismatch(
            plaintexts,
            prep.delta,
            prep.msg_modulus,
            plaintexts.len() - 1,
            mismatch,
        ),
    ensures
        prep.check_from(seeds, r),
        prep.check_ends_with(r),
        prep.msg_modulus == 1 ==> r == Err::<(), Mismatch>((Mismatch { msg: 1, decoded: 0 })),
        r is Ok ==> prep.all_decode(),
        r matches Err(mismatch) ==> prep.fails_with(mismatch),
{
    let messages = messages_to_check(prep.msg_modulus);
    assert forall|i: int| 0 <= i < plaintexts.len() implies prep.round_trips(
        messages[i],
        #[trigger] plaintexts[i],
    ) by {
        lemma_round_trips(prep, messages[i], seeds[i].0, seeds[i].1, plaintexts[i]);
    }
    assert(prep.sends(plaintexts));
    assert forall|j: int|
        0 <= j < plaintexts.len() && comes_back(
            plaintexts,
            prep.delta,
            prep.msg_modulus,
            j,
        ) implies prep.decodes_to(#[trigger] messages[j], messages[j]) by {
        assert(prep.round_trips(messages[j], plaintexts[j]));
    }
    if plaintexts.len() >= 2 {
        assert(prep.msg_modulus == 1 ==> !comes_back(
            plaintexts,
            prep.delta,
            prep.msg_modulus,
            1,
        ));
    }
    if let Err(mismatch) = r {
        let last = plaintexts.len() - 1;
        assert(prep.round_trips(messages[last], plaintexts[last]));
        assert(prep.decodes_to(messages[last], mismatch.decoded));
    }
}

/// From two messages on, the messages that a correctness check tries are messages of the space, and
/// the smallest and the largest are among them.
pub proof fn checked_messages_lie_in_the_space(msg_modulus: u64)
    requires
        msg_modulus >= 2,
    ensures
        messages_to_check(msg_modulus).len() == 4,
        messages_to_check(msg_modulus)[0] == 0,
        messages_to_check(msg_modulus)[3] == msg_modulus - 1,
        forall|i: int| 0 <= i < 4 ==> #[trigger] messages_to_check(msg_modulus)[i] < msg_modulus,
{
}

/// The messages that a check tries are zero, one, the middle one and the largest.
pub proof fn the_ends_and_the_middle_are_checked(msg_modulus: u64)
    requires
        msg_modulus >= 1,
    ensures
        messages_to_check(msg_modulus).len() == 4,
        messages_to_check(msg_modulus)[0] == 0,
        messages_to_check(msg_modulus)[1] == 1,
        2 * messages_to_check(msg_modulus)[2] <= msg_modulus,
        msg_modulus < 2 * messages_to_check(msg_modulus)[2] + 2,
        messages_to_check(msg_modulus)[3] + 1 == msg_modulus,
{
}

/// `msg` is the message that a check of `msg_modulus` messages tries at place `i`: zero, one, the
/// middle one or the largest.
pub open spec fn is_checked_at(msg_modulus: u64, i: int, msg: u64) -> bool {
    ||| i == 0 && msg == 0
    ||| i == 1 && msg == 1
    ||| i == 2 && 2 * msg <= msg_modulus < 2 * msg + 2
    ||| i == 3 && msg + 1 == msg_modulus
}

/// A check of given plaintexts passes where each of them stands for the message at its place. Where
/// one does not, it names the first such message and the message that its plaintext stands for.
pub proof fn a_check_passes_where_every_plaintext_stands_for_its_message(
    plaintexts: Seq<u64>,
    delta: u64,
    msg_modulus: u64,
)
    requires
        plaintexts.len() <= 4,
        delta >= 1,
        msg_modulus >= 1,
    ensures
        all_come_back(plaintexts, delta, msg_modulus) <==> forall|i: int, msg: u64|
            0 <= i < plaintexts.len() && #[trigger] is_checked_at(msg_modulus, i, msg)
                ==> crate::encoding::stands_for(
                #[trigger] plaintexts[i],
                delta,
                msg_modulus,
                msg as int,
            ),
        forall|i: int, mismatch: Mismatch| #[trigger]
            first_mismatch(plaintexts, delta, msg_modulus, i, mismatch) ==> {
                &&& 0 <= i < plaintexts.len()
                &&& is_checked_at(msg_modulus, i, mismatch.msg)
                &&& mismatch.decoded != mismatch.msg
                &&& crate::encoding::stands_for(
                    plaintexts[i],
                    delta,
                    msg_modulus,
                    mismatch.decoded as int,
                )
                &&& all_come_back(plaintexts.take(i), delta, msg_modulus)
            },
{
    let messages = messages_to_check(msg_modulus);
    assert forall|i: int, msg: u64| 0 <= i < 4 implies (#[trigger] is_checked_at(
        msg_modulus,
        i,
        msg,
    ) <==> msg == messages[i]) by {}
    assert forall|i: int| 0 <= i < plaintexts.len() implies (#[trigger] comes_back(
        plaintexts,
        delta,
        msg_modulus,
        i,
    ) <==> crate::encoding::stands_for(
        plaintexts[i],
        delta,
        msg_modulus,
        messages[i] as int,
    )) by {
        crate::encoding::decoding_finds_the_message(
            plaintexts[i],
            delta,
            msg_modulus,
            messages[i] as int,
        );
    }
    if forall|i: int, msg: u64|
        0 <= i < plaintexts.len() && #[trigger] is_checked_at(msg_modulus, i, msg)
            ==> crate::encoding::stands_for(
            #[trigger] plaintexts[i],
            delta,
            msg_modulus,
            msg as int,
        ) {
        assert forall|i: int| 0 <= i < plaintexts.len() implies #[trigger] comes_back(
            plaintexts,
            delta,
            msg_modulus,
            i,
        ) by {
            assert(is_checked_at(msg_modulus, i, messages[i]));
            assert(crate::encoding::stands_for(
                plaintexts[i],
                delta,
                msg_modulus,
                messages[i] as int,
            ));
        }
    }
    if all_come_back(plaintexts, delta, msg_modulus) {
        assert forall|i: int, msg: u64|
            0 <= i < plaintexts.len() && #[trigger] is_checked_at(
                msg_modulus,
                i,
                msg,
            ) implies crate::encoding::stands_for(
            #[trigger] plaintexts[i],
            delta,
            msg_modulus,
            msg as int,
        ) by {
            assert(comes_back(plaintexts, delta, msg_modulus, i));
        }
    }
    assert forall|i: int, mismatch: Mismatch| #[trigger]
        first_mismatch(plaintexts, delta, msg_modulus, i, mismatch) implies {
        &&& 0 <= i < plaintexts.len()
        &&& is_checked_at(msg_modulus, i, mismatch.msg)
        &&& mismatch.decoded != mismatch.msg
        &&& crate::encoding::stands_for(
            plaintexts[i],
            delta,
            msg_modulus,
            mismatch.decoded as int,
        )
        &&& all_come_back(plaintexts.take(i), delta, msg_modulus)
    } by {
        assert(is_checked_at(msg_modulus, i, messages[i]));
        crate::encoding::decoding_finds_the_message(
            plaintexts[i],
            delta,
            msg_modulus,
            mismatch.decoded as int,
        );
        assert forall|j: int| 0 <= j < i implies #[trigger] comes_back(
            plaintexts.take(i),
            delta,
            msg_modulus,
            j,
        ) by {
            assert(comes_back(plaintexts, delta, msg_modulus, j));
        }
    }
}

/// The verdict of a check is that of the one round trip of each message, from the seeds that were
/// handed to it. A message whose round trip from its own seeds cannot stand for it makes the check
/// fail, whatever other seeds would have given; where every such round trip must stand for its
/// message, the check passes; and a reported mismatch is what such a round trip gave.
pub proof fn the_verdict_is_that_of_the_only_round_trips(
    prep: Prepared,
    seeds: Seq<(u128, u128)>,
    r: Result<(), Mismatch>,
)
    requires
        prep.wf(),
        seeds.len() == 4,
        prep.check_from(seeds, r),
    ensures
        forall|i: int, msg: u64|
            {
                &&& 0 <= i < 4
                &&& #[trigger] is_checked_at(prep.msg_modulus, i, msg)
                &&& forall|plaintext: u64| #[trigger]
                    prep.round_trips_from(msg, seeds[i].0, seeds[i].1, plaintext)
                        ==> !crate::encoding::stands_for(
                        plaintext,
                        prep.delta,
                        prep.msg_modulus,
                        msg as int,
                    )
            } ==> r is Err,
        (forall|i: int, msg: u64, plaintext: u64|
            0 <= i < 4 && #[trigger] is_checked_at(prep.msg_modulus, i, msg)
                && #[trigger] prep.round_trips_from(msg, seeds[i].0, seeds[i].1, plaintext)
                ==> crate::encoding::stands_for(
                plaintext,
                prep.delta,
                prep.msg_modulus,
                msg as int,
            )) ==> r is Ok,
        r matches Err(mismatch) ==> exists|i: int, plaintext: u64|
            {
                &&& 0 <= i < 4
                &&& is_checked_at(prep.msg_modulus, i, mismatch.msg)
                &&& #[trigger] prep.round_trips_from(
                    mismatch.msg,
                    seeds[i].0,
                    seeds[i].1,
                    plaintext,
                )
                &&& mismatch.decoded != mismatch.msg
                &&& crate::encoding::stands_for(
                    plaintext,
                    prep.delta,
                    prep.msg_modulus,
                    mismatch.decoded as int,
                )
            },
{
    let m = prep.msg_modulus;
    let messages = messages_to_check(m);
    let plaintexts = choose|plaintexts: Seq<u64>|
        {
            &&& #[trigger] prep.sends_from(seeds, plaintexts)
            &&& r is Ok ==> plaintexts.len() == 4 && all_come_back(plaintexts, prep.delta, m)
            &&& r matches Err(mismatch) ==> first_mismatch(
                plaintexts,
                prep.delta,
                m,
                plaintexts.len() - 1,
                mismatch,
            )
        };
    a_check_passes_where_every_plaintext_stands_for_its_message(plaintexts, prep.delta, m);
    assert forall|i: int, msg: u64| 0 <= i < 4 implies (#[trigger] is_checked_at(m, i, msg) <==> msg
        == messages[i]) by {}
    assert forall|i: int, msg: u64|
        {
            &&& 0 <= i < 4
            &&& #[trigger] is_checked_at(m, i, msg)
            &&& forall|plaintext: u64| #[trigger]
                prep.round_trips_from(msg, seeds[i].0, seeds[i].1, plaintext)
                    ==> !crate::encoding::stands_for(plaintext, prep.delta, m, msg as int)
        } implies r is Err by {
        if r is Ok {
            assert(prep.round_trips_from(msg, seeds[i].0, seeds[i].1, plaintexts[i]));
            assert(crate::encoding::stands_for(plaintexts[i], prep.delta, m, msg as int));
        }
    }
    if let Err(mismatch) = r {
        let last = plaintexts.len() - 1;
        assert(is_checked_at(m, last, messages[last]));
        assert(prep.round_trips_from(
            mismatch.msg,
            seeds[last].0,
            seeds[last].1,
            plaintexts[last],
        ));
        assert(!crate::encoding::stands_for(
            plaintexts[last],
            prep.delta,
            m,
            mismatch.msg as int,
        )) by {
            crate::encoding::decoding_finds_the_message(
                plaintexts[last],
                prep.delta,
                m,
                mismatch.msg as int,
            );
        }
    }
}

/// A round trip from two seeds does what it says: the message times the step is encrypted under the
/// input key from these seeds, bootstrapped through the table on eight threads in any order, and
/// decrypted under the output key.
pub proof fn a_round_trip_sends_its_message(
    prep: Prepared,
    msg: u64,
    mask_seed: u128,
    noise_seed: u128,
    plaintext: u64,
)
    requires
        prep.round_trips_from(msg, mask_seed, noise_seed, plaintext),
    ensures
        exists|input: Seq<u64>, output: Seq<u64>|
            {
                &&& #[trigger] crate::random::lwe_encryptions(
                    prep.input_lwe_secret_key@,
                    crate::encoding::wrap(msg * prep.delta),
                    crate::core_crypto::lwe_noise_distribution(prep.noise),
                    prep.ciphertext_modulus,
                    mask_seed,
                    noise_seed,
                ).contains(input)
                &&& #[trigger] crate::core_crypto::bootstrap_outputs(
                    input,
                    prep.accumulator@,
                    prep.fbsk,
                    prep.ciphertext_modulus,
                    8,
                    false,
                ).contains(output)
                &&& plaintext == crate::lwe::decrypted(
                    output,
                    prep.output_lwe_secret_key@,
                    prep.ciphertext_modulus,
                )
            },
{
}

/// Every round trip is one from two seeds, and every one from two seeds is a round trip.
pub proof fn every_round_trip_is_from_two_seeds(prep: Prepared, msg: u64, plaintext: u64)
    ensures
        prep.round_trips(msg, plaintext) <==> exists|mask_seed: u128, noise_seed: u128| #[trigger]
            prep.round_trips_from(msg, mask_seed, noise_seed, plaintext),
{
    if prep.round_trips(msg, plaintext) {
        let encoded = crate::encoding::wrap(msg * prep.delta);
        let (input, output) = choose|input: Seq<u64>, output: Seq<u64>| #[trigger]
            prep.bootstraps(input, output) && crate::lwe::encrypts(
                input,
                prep.input_lwe_secret_key@,
                encoded,
                prep.lwe_noise(),
                prep.ciphertext_modulus,
            ) && plaintext == crate::lwe::decrypted(
                output,
                prep.output_lwe_secret_key@,
                prep.ciphertext_modulus,
            );
        let (mask_seed, noise_seed) = choose|mask_seed: u128, noise_seed: u128| #[trigger]
            crate::random::lwe_encryptions(
                prep.input_lwe_secret_key@,
                encoded,
                prep.lwe_noise(),
                prep.ciphertext_modulus,
                mask_seed,
                noise_seed,
            ).contains(input);
        assert(prep.round_trips_from(msg, mask_seed, noise_seed, plaintext));
    }
}

/// A bootstrap of an input goes through the table of the preparation under its key, on eight threads
/// in any order.
pub proof fn a_bootstrap_goes_through_the_table(prep: Prepared, input: Seq<u64>, output: Seq<u64>)
    ensures
        prep.bootstraps(input, output) <==> crate::core_crypto::bootstrap_outputs(
            input,
            prep.accumulator@,
            prep.fbsk,
            prep.ciphertext_modulus,
            8,
            false,
        ).contains(output),
{
}

/// The time of a preparation is that of the whole key generation and of nothing before it: the clock
/// was read when the generators were ready and no key was drawn yet, and again after the input key,
/// the output key and the bootstrap key had been drawn and the last was transformed.
pub proof fn the_time_spans_the_whole_key_generation(prep: Prepared, p: CoreParams)
    requires
        prep.prepared_for(p),
    ensures
        call_ensures(
            std::time::Instant::elapsed,
            (&prep.keygen_span.began(),),
            prep.keygen_time,
        ),
        prep.keygen_span.steps().len() == 4,
        prep.keygen_span.steps()[0] == Step::LweSecretKey(prep.input_lwe_secret_key@),
        prep.keygen_span.steps()[1] == Step::GlweSecretKey(prep.output_lwe_secret_key@),
        prep.keygen_span.steps()[3] == Step::FourierKey(prep.fbsk),
        exists|bsk: Seq<u64>|
            {
                &&& prep.keygen_span.steps()[2] == Step::BootstrapKey(bsk)
                &&& #[trigger] crate::core_crypto::fourier_keys(bsk, p.key_shape()).contains(
                    prep.fbsk,
                )
            },
{
}

/// A preparation is that of its parameters. The keys have the sizes that they ask for, and the
/// bootstrap key is one of these two keys with the GLWE noise; the step is the largest that leaves
/// the padding bit free; the size counts every scalar of the bootstrap key; and the input is the
/// largest message.
pub proof fn a_preparation_is_that_of_its_parameters(prep: Prepared, p: CoreParams)
    requires
        p.supported(),
        prep.prepared_for(p),
    ensures
        prep.msg_modulus == p.message_modulus * p.carry_modulus,
        prep.msg_modulus * prep.delta <= 0x8000_0000_0000_0000,
        0x8000_0000_0000_0000 < prep.msg_modulus * (prep.delta + 1),
        prep.ciphertext_modulus == p.ciphertext_modulus,
        prep.input_lwe_secret_key@.len() == p.input_lwe_dimension,
        prep.output_lwe_secret_key@.len() == p.glwe_dimension * p.polynomial_size,
        prep.input_ct@.len() == p.input_lwe_dimension + 1,
        prep.bsk_bytes * p.grouping_factor == 8 * (p.input_lwe_dimension * (
        vstd::arithmetic::power2::pow2(p.grouping_factor as nat) * (p.decomp_level_count * (
        p.glwe_dimension + 1) * (p.glwe_dimension + 1) * p.polynomial_size))),
        forall|i: int|
            0 <= i < p.input_lwe_dimension ==> #[trigger] prep.input_lwe_secret_key@[i] <= 1,
        forall|i: int|
            0 <= i < p.glwe_dimension * p.polynomial_size
                ==> #[trigger] prep.output_lwe_secret_key@[i] <= 1,
        exists|bsk: Seq<u64>, mask_seed: u128, noise_seed: u128|
            {
                &&& #[trigger] crate::random::bootstrap_keys(
                    prep.input_lwe_secret_key@,
                    prep.output_lwe_secret_key@,
                    crate::core_crypto::fourier_key_shape(prep.fbsk),
                    crate::core_crypto::glwe_noise_distribution(p.noise),
                    p.ciphertext_modulus,
                    mask_seed,
                    noise_seed,
                ).contains(bsk)
                &&& bsk.len() * 8 == prep.bsk_bytes
            },
        exists|mask_seed: u128, noise_seed: u128| #[trigger]
            crate::random::lwe_encryptions(
                prep.input_lwe_secret_key@,
                ((prep.msg_modulus - 1) * prep.delta) as u64,
                crate::core_crypto::lwe_noise_distribution(p.noise),
                p.ciphertext_modulus,
                mask_seed,
                noise_seed,
            ).contains(prep.input_ct@),
{
    crate::encoding::the_step_is_the_largest_that_fits(p.msg_modulus());
    crate::params::key_size_counts_every_scalar(p);
}

/// The table of a preparation under the native modulus holds every message in its own box: wherever
/// a position lies within half a box of that of the message, the table has the encoding of the
/// message there, and the mask before it is zero.
pub proof fn the_table_holds_every_message(
    prep: Prepared,
    p: CoreParams,
    msg: int,
    offset: int,
)
    requires
        prep.prepared_for(p),
        crate::params::modulus_value(p.ciphertext_modulus) == 0x1_0000_0000_0000_0000,
        prep.msg_modulus <= p.polynomial_size,
        0 <= msg < prep.msg_modulus,
        -(p.polynomial_size / prep.msg_modulus as usize / 2) <= offset,
        offset < p.polynomial_size / prep.msg_modulus as usize - p.polynomial_size
            / prep.msg_modulus as usize / 2,
    ensures
        forall|i: int|
            0 <= i < p.glwe_dimension * p.polynomial_size ==> #[trigger] prep.accumulator@[i] == 0,
        ({
            let box_size = p.polynomial_size as int / prep.msg_modulus as int;
            let at = (msg * box_size + offset) % p.polynomial_size as int;
            prep.accumulator@[p.glwe_dimension * p.polynomial_size + at] == msg * prep.delta
        }),
{
    let n = p.polynomial_size as int;
    let m = prep.msg_modulus as int;
    let delta = prep.delta as int;
    let at = (msg * (n / m) + offset) % n;
    crate::lwe::identity_lut_absorbs_noise(n, m, delta, msg, offset);
    crate::encoding::padding_bit_stays_free(msg, m);
    lemma_mod_bound(msg * (n / m) + offset, n);
    assert(crate::params::torus_scaling(p.ciphertext_modulus) == 1);
    lemma_small_mod((msg * delta) as nat, 0x1_0000_0000_0000_0000);
    assert(prep.accumulator@[p.glwe_dimension * p.polynomial_size + at] == crate::encoding::wrap(
        crate::params::torus_scaling(p.ciphertext_modulus) * crate::lwe::identity_lut_value(
            n,
            m,
            delta,
            at,
        ),
    ));
}

/// A message comes back from a prepared bootstrap whenever the noise of the output stays within half
/// a step: the check then finds the message that was sent.
pub proof fn small_output_noise_gives_the_message_back(
    prep: Prepared,
    p: CoreParams,
    msg: u64,
    plaintext: u64,
    e: int,
)
    requires
        prep.prepared_for(p),
        msg < prep.msg_modulus,
        prep.round_trips(msg, plaintext),
        plaintext == crate::encoding::wrap(msg * prep.delta + e),
        -(prep.delta as int / 2) <= e < prep.delta - prep.delta as int / 2,
    ensures
        prep.message_of(plaintext) == msg,
        prep.decodes_to(msg, msg),
{
    crate::encoding::decoding_absorbs_noise(msg, e, prep.delta, prep.msg_modulus);
}

/// Of the parameter set that is carried along only the two noise distributions have an influence:
/// with another set of the same distributions the same parameters are supported, the same
/// preparations can come about, and the same round trips.
pub proof fn only_the_noise_distributions_are_used(
    p: CoreParams,
    prep: Prepared,
    other: MultiBitPBSParameters,
)
    requires
        crate::core_crypto::lwe_noise_distribution(other) == p.lwe_noise(),
        crate::core_crypto::glwe_noise_distribution(other) == p.glwe_noise(),
        prep.prepared_for(p),
    ensures
        (CoreParams { noise: other, ..p }).supported() == p.supported(),
        (Prepared { noise: other, ..prep }).prepared_for((CoreParams { noise: other, ..p })),
        forall|msg: u64, plaintext: u64| #[trigger]
            prep.round_trips(msg, plaintext) ==> (Prepared { noise: other, ..prep }).round_trips(
                msg,
                plaintext,
            ),
{
    let q = CoreParams { noise: other, ..p };
    let changed = Prepared { noise: other, ..prep };
    assert(q.key_shape() == p.key_shape());
    assert(q.lwe_noise() == p.lwe_noise() && q.glwe_noise() == p.glwe_noise());
    assert(changed.lwe_noise() == prep.lwe_noise());
    assert forall|msg: u64, plaintext: u64| #[trigger]
        prep.round_trips(msg, plaintext) implies changed.round_trips(msg, plaintext) by {
        let (input, output) = choose|input: Seq<u64>, output: Seq<u64>| #[trigger]
            prep.bootstraps(input, output) && crate::lwe::encrypts(
                input,
                prep.input_lwe_secret_key@,
                crate::encoding::wrap(msg * prep.delta),
                prep.lwe_noise(),
                prep.ciphertext_modulus,
            ) && plaintext == crate::lwe::decrypted(
                output,
                prep.output_lwe_secret_key@,
                prep.ciphertext_modulus,
            );
        assert(changed.bootstraps(input, output));
    }
}

/// Why a parameter set is not ready to be bootstrapped with.
#[derive(Clone, Copy, Debug, PartialEq, Eq)]
pub enum SetupError {
    /// No bootstrap can be prepared for it.
    Unsupported,
    /// A bootstrap did not give its message back.
    Incorrect(Mismatch),
}

/// Reads a production parameter set, prepares it and checks it, once.
pub fn prepare_param_set(params: &MultiBitPBSParameters) -> (r: Result<
    (CoreParams, Prepared),
    SetupError,
>)
    ensures
        r == Err::<(CoreParams, Prepared), SetupError>(SetupError::Unsupported)
            <==> !CoreParams::core_of(
            crate::core_crypto::multi_bit_fields(*params),
            *params,
        ).supported(),
        ({
            let core = CoreParams::core_of(crate::core_crypto::multi_bit_fields(*params), *params);
            core.supported() && core.msg_modulus() == 1
        }) ==> r == Err::<(CoreParams, Prepared), SetupError>(
            SetupError::Incorrect((Mismatch { msg: 1, decoded: 0 })),
        ),
        r matches Ok((p, prep)) ==> {
            &&& p == CoreParams::core_of(crate::core_crypto::multi_bit_fields(*params), *params)
            &&& prep.prepared_for(p)
            &&& prep.check_ends_with(Ok(()))
            &&& exists|seeds: Seq<(u128, u128)>|
                seeds.len() == 4 && #[trigger] prep.check_from(seeds, Ok(()))
            &&& prep.all_decode()
        },
        r matches Err(SetupError::Incorrect(mismatch)) ==> exists|prep: Prepared|
            {
                &&& #[trigger] prep.prepared_for(
                    CoreParams::core_of(crate::core_crypto::multi_bit_fields(*params), *params),
                )
                &&& prep.check_ends_with(Err(mismatch))
                &&& exists|seeds: Seq<(u128, u128)>|
                    seeds.len() == 4 && #[trigger] prep.check_from(seeds, Err(mismatch))
                &&& prep.fails_with(mismatch)
            },
{
    let p = CoreParams::from_multi_bit(params);
    if !p.is_supported() {
        return Err(SetupError::Unsupported);
    }
    let prep = prepare(&p);
    let verdict = assert_correct(&prep);
    match verdict {
        Ok(()) => {
            proof {
                let seeds = choose|seeds: Seq<(u128, u128)>|
                    seeds.len() == 4 && #[trigger] prep.check_from(seeds, verdict);
                assert(prep.check_from(seeds, Ok(())));
            }
            Ok((p, prep))
        },
        Err(mismatch) => {
            assert(prep.prepared_for(p));
            Err(SetupError::Incorrect(mismatch))
        },
    }
}

} // verus!
