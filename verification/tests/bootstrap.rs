use multi_bit_pbs_grouping::{
    assert_correct, check_message, decode, fresh_output, generate_keys, prepare, prepare_param_set,
    round_trip, run_pbs, CoreParams, Mismatch, Prepared, SetupError,
};
use tfhe::core_crypto::prelude::{
    decrypt_lwe_ciphertext, CiphertextModulus, DecompositionBaseLog, DecompositionLevelCount,
    DynamicDistribution, GlweDimension, LweBskGroupingFactor, LweCiphertext, LweDimension,
    LweSecretKey, PolynomialSize, StandardDev,
};
use tfhe::shortint::parameters::multi_bit::p_fail_2_minus_64::ks_pbs::{
    PARAM_MULTI_BIT_GROUP_2_MESSAGE_2_CARRY_2_KS_PBS_GAUSSIAN_2M64,
    PARAM_MULTI_BIT_GROUP_3_MESSAGE_2_CARRY_2_KS_PBS_GAUSSIAN_2M64,
};
use tfhe::shortint::parameters::{CarryModulus, MessageModulus, MultiBitPBSParameters};

/// A set that is far too small to be secure, and quick.
fn small_set(grouping_factor: usize) -> MultiBitPBSParameters {
    MultiBitPBSParameters {
        lwe_dimension: LweDimension(12),
        glwe_dimension: GlweDimension(1),
        polynomial_size: PolynomialSize(1024),
        lwe_noise_distribution: DynamicDistribution::new_gaussian_from_std_dev(StandardDev(1e-12)),
        glwe_noise_distribution: DynamicDistribution::new_gaussian_from_std_dev(StandardDev(1e-15)),
        pbs_base_log: DecompositionBaseLog(23),
        pbs_level: DecompositionLevelCount(1),
        grouping_factor: LweBskGroupingFactor(grouping_factor),
        ..PARAM_MULTI_BIT_GROUP_2_MESSAGE_2_CARRY_2_KS_PBS_GAUSSIAN_2M64
    }
}

fn prepared(set: &MultiBitPBSParameters) -> Prepared {
    let p = CoreParams::from_multi_bit(set);
    assert!(p.is_supported());
    prepare(&p)
}

fn decrypt(key: &[u64], ct: &[u64], modulus: u128) -> u64 {
    let ct = LweCiphertext::from_container(ct, CiphertextModulus::new(modulus));
    decrypt_lwe_ciphertext(&LweSecretKey::from_container(key), &ct).0
}

#[test]
fn preparing_fixes_sizes_and_encoding() {
    let prep = prepared(&small_set(3));
    assert_eq!(prep.input_ct.len(), 13);
    assert_eq!(prep.input_lwe_secret_key.len(), 12);
    assert_eq!(prep.output_lwe_secret_key.len(), 1024);
    assert_eq!(prep.accumulator.len(), 2048);
    assert_eq!(prep.msg_modulus, 16);
    assert_eq!(prep.delta, 1 << 59);
    assert_eq!(prep.ciphertext_modulus, 0);
    assert_eq!(prep.bsk_bytes, 4 * 8 * 4 * 1024 * 8);
    assert!(prep.noise == small_set(3));
    assert!(prep.keygen_time > std::time::Duration::ZERO);
}

#[test]
fn secret_keys_are_binary_and_fresh() {
    let first = prepared(&small_set(2));
    let second = prepared(&small_set(2));
    for key in [&first.input_lwe_secret_key, &first.output_lwe_secret_key] {
        assert!(key.iter().all(|&bit| bit <= 1));
    }
    assert!(first.output_lwe_secret_key.contains(&0));
    assert!(first.output_lwe_secret_key.contains(&1));
    assert_ne!(first.output_lwe_secret_key, second.output_lwe_secret_key);
}

#[test]
fn the_input_is_the_largest_message() {
    let prep = prepared(&small_set(2));
    let plaintext = decrypt(&prep.input_lwe_secret_key, &prep.input_ct, 0);
    assert!(plaintext.abs_diff(15 << 59) < 1 << 40);
    assert_eq!(decode(plaintext, prep.delta, prep.msg_modulus), 15);
    assert_ne!(prep.input_ct[..12], [0u64; 12]);
}

#[test]
fn bounded_noise_stays_within_its_bound() {
    let set = MultiBitPBSParameters {
        lwe_noise_distribution: DynamicDistribution::new_t_uniform(10),
        glwe_noise_distribution: DynamicDistribution::new_t_uniform(10),
        ..small_set(2)
    };
    let prep = prepared(&set);
    let plaintext = decrypt(&prep.input_lwe_secret_key, &prep.input_ct, 0);
    assert!(plaintext.abs_diff(15 << 59) <= 1 << 10);
    assert_eq!(assert_correct(&prep), Ok(()));
}

#[test]
fn the_table_is_boxed_and_turned() {
    let prep = prepared(&small_set(2));
    assert!(prep.accumulator[..1024].iter().all(|&x| x == 0));
    let table = &prep.accumulator[1024..];
    // 16 boxes of 64 coefficients, turned left by 32.
    assert!(table[..32].iter().all(|&x| x == 0));
    assert!(table[32..96].iter().all(|&x| x == 1 << 59));
    assert!(table[96..160].iter().all(|&x| x == 2 << 59));
    assert!(table[928..992].iter().all(|&x| x == 15 << 59));
    assert!(table[992..].iter().all(|&x| x == 0));
}

#[test]
fn a_table_with_a_remainder_ends_in_zeros() {
    let set = MultiBitPBSParameters {
        message_modulus: MessageModulus(3),
        carry_modulus: CarryModulus(1),
        ..small_set(2)
    };
    let prep = prepared(&set);
    let delta = (1u64 << 63) / 3;
    assert_eq!(prep.delta, delta);
    let table = &prep.accumulator[1024..];
    // 3 boxes of 341 coefficients, turned left by 170, and one coefficient left over.
    assert!(table[..171].iter().all(|&x| x == 0));
    assert!(table[171..512].iter().all(|&x| x == delta));
    assert!(table[512..853].iter().all(|&x| x == 2 * delta));
    assert!(table[853..].iter().all(|&x| x == 0));
}

#[test]
fn a_fresh_output_is_zero() {
    let prep = prepared(&small_set(2));
    assert_eq!(fresh_output(&prep), vec![0u64; 1025]);
}

#[test]
fn a_bootstrap_keeps_the_prepared_message() {
    for grouping_factor in [1, 2, 3] {
        let prep = prepared(&small_set(grouping_factor));
        let mut out = fresh_output(&prep);
        run_pbs(&prep, &mut out);
        assert_eq!(out.len(), 1025);
        let plaintext = decrypt(&prep.output_lwe_secret_key, &out, 0);
        assert_eq!(check_message(15, plaintext, prep.delta, prep.msg_modulus), Ok(()));
        run_pbs(&prep, &mut out);
        let plaintext = decrypt(&prep.output_lwe_secret_key, &out, 0);
        assert_eq!(decode(plaintext, prep.delta, prep.msg_modulus), 15);
    }
}

#[test]
fn every_message_comes_back() {
    let prep = prepared(&small_set(3));
    for msg in 0..16 {
        let plaintext = round_trip(&prep, msg);
        assert_eq!(decode(plaintext, prep.delta, prep.msg_modulus), msg);
    }
}

#[test]
fn several_components_and_levels_work() {
    let set = MultiBitPBSParameters {
        glwe_dimension: GlweDimension(2),
        polynomial_size: PolynomialSize(512),
        pbs_base_log: DecompositionBaseLog(12),
        pbs_level: DecompositionLevelCount(3),
        ..small_set(2)
    };
    let prep = prepared(&set);
    assert_eq!(prep.output_lwe_secret_key.len(), 1024);
    assert_eq!(prep.accumulator.len(), 1536);
    assert_eq!(prep.bsk_bytes, 6 * 4 * 3 * 9 * 512 * 8);
    assert_eq!(assert_correct(&prep), Ok(()));
}

#[test]
fn small_sets_are_found_correct() {
    for grouping_factor in [1, 2, 3, 4] {
        assert_eq!(assert_correct(&prepared(&small_set(grouping_factor))), Ok(()));
    }
}

#[test]
fn a_single_message_is_never_found_correct() {
    let set = MultiBitPBSParameters {
        message_modulus: MessageModulus(1),
        carry_modulus: CarryModulus(1),
        ..small_set(2)
    };
    let prep = prepared(&set);
    assert_eq!(prep.delta, 1 << 63);
    assert_eq!(assert_correct(&prep), Err(Mismatch { msg: 1, decoded: 0 }));
}

#[test]
fn more_messages_than_coefficients_are_found_out() {
    let set = MultiBitPBSParameters {
        message_modulus: MessageModulus(64),
        carry_modulus: CarryModulus(32),
        ..small_set(2)
    };
    let prep = prepared(&set);
    assert!(prep.accumulator.iter().all(|&x| x == 0));
    assert!(assert_correct(&prep).is_err());
}

#[test]
fn a_smaller_modulus_keeps_the_high_bits() {
    let set = MultiBitPBSParameters {
        ciphertext_modulus: CiphertextModulus::new(1 << 60),
        ..small_set(2)
    };
    let prep = prepared(&set);
    assert_eq!(prep.ciphertext_modulus, 1 << 60);
    assert!(prep.input_ct.iter().all(|x| x % 16 == 0));
    let plaintext = decrypt(&prep.input_lwe_secret_key, &prep.input_ct, 1 << 60);
    let noise = plaintext.wrapping_sub(15 << 59) % (1 << 60);
    assert!(noise < 1 << 40 || noise > (1 << 60) - (1 << 40));
    // One step is half the modulus: scaled to the torus, odd messages stand at its middle.
    assert_eq!(prep.accumulator[1024 + 64], 1 << 63);
    assert_eq!(prep.accumulator[1024 + 128], 0);
    assert_eq!(fresh_output(&prep), vec![0u64; 1025]);
    let mut out = fresh_output(&prep);
    run_pbs(&prep, &mut out);
    assert!(out.iter().all(|x| x % 16 == 0));
}

#[test]
fn the_smallest_polynomials_work() {
    let set = MultiBitPBSParameters {
        lwe_dimension: LweDimension(2),
        polynomial_size: PolynomialSize(8),
        message_modulus: MessageModulus(2),
        carry_modulus: CarryModulus(1),
        ..small_set(2)
    };
    let prep = prepared(&set);
    assert_eq!(prep.bsk_bytes, 4 * 4 * 8 * 8);
    let mut out = fresh_output(&prep);
    run_pbs(&prep, &mut out);
    assert_eq!(out.len(), 9);
    assert_eq!(assert_correct(&prep), Ok(()));

    let set = MultiBitPBSParameters { polynomial_size: PolynomialSize(4), ..set };
    assert_eq!(prepare_param_set(&set).err(), Some(SetupError::Unsupported));
}

#[test]
fn the_finest_decomposition_takes_every_scalar() {
    let set = MultiBitPBSParameters {
        pbs_base_log: DecompositionBaseLog(31),
        pbs_level: DecompositionLevelCount(2),
        ..small_set(2)
    };
    let mut prep = prepared(&set);
    for scalar in prep.accumulator.iter_mut() {
        *scalar = u64::MAX;
    }
    prep.input_ct[12] = 0;
    let mut out = fresh_output(&prep);
    run_pbs(&prep, &mut out);
    assert_eq!(out.len(), 1025);

    let set = MultiBitPBSParameters {
        pbs_base_log: DecompositionBaseLog(21),
        pbs_level: DecompositionLevelCount(3),
        ..set
    };
    assert_eq!(prepare_param_set(&set).err(), Some(SetupError::Unsupported));
}

#[test]
fn a_modulus_of_63_bits_is_refused() {
    let set = MultiBitPBSParameters {
        ciphertext_modulus: CiphertextModulus::new(1 << 63),
        ..small_set(2)
    };
    assert_eq!(prepare_param_set(&set).err(), Some(SetupError::Unsupported));
}

#[test]
fn keys_are_generated_on_their_own() {
    let p = CoreParams::from_multi_bit(&small_set(3));
    assert!(p.is_supported());
    let first = generate_keys(&p);
    let second = generate_keys(&p);
    assert_eq!(first.input_lwe_secret_key.len(), 12);
    assert_eq!(first.output_lwe_secret_key.len(), 1024);
    assert!(first.input_lwe_secret_key.iter().all(|&bit| bit <= 1));
    assert!(first.output_lwe_secret_key.iter().all(|&bit| bit <= 1));
    assert_ne!(first.output_lwe_secret_key, second.output_lwe_secret_key);
    assert!(first.keygen_time > std::time::Duration::ZERO);
}

#[test]
fn only_the_noise_of_the_carried_set_matters() {
    let mut prep = prepared(&small_set(2));
    prep.noise = MultiBitPBSParameters {
        lwe_dimension: LweDimension(7),
        ks_base_log: DecompositionBaseLog(9),
        ks_level: DecompositionLevelCount(1),
        ..small_set(3)
    };
    assert_eq!(assert_correct(&prep), Ok(()));
}

#[test]
fn round_trips_draw_afresh() {
    let prep = prepared(&small_set(2));
    let first = round_trip(&prep, 5);
    let second = round_trip(&prep, 5);
    assert_ne!(first, second);
    assert_eq!(decode(first, prep.delta, prep.msg_modulus), 5);
    assert_eq!(decode(second, prep.delta, prep.msg_modulus), 5);
}

/// A production set with its own noise, decomposition and message space, on a shorter input key.
fn shortened(set: MultiBitPBSParameters) -> MultiBitPBSParameters {
    MultiBitPBSParameters { lwe_dimension: LweDimension(96), ..set }
}

#[test]
fn group_2_is_correct_on_a_short_input_key() {
    let set = shortened(PARAM_MULTI_BIT_GROUP_2_MESSAGE_2_CARRY_2_KS_PBS_GAUSSIAN_2M64);
    let (p, prep) = prepare_param_set(&set).unwrap_or_else(|e| panic!("{e:?}"));
    assert_eq!(p.grouping_factor, 2);
    assert_eq!(prep.msg_modulus, 16);
    assert_eq!(prep.bsk_bytes, 48 * 4 * 4 * 2048 * 8);
}

#[test]
fn group_3_is_correct_on_a_short_input_key() {
    let set = shortened(PARAM_MULTI_BIT_GROUP_3_MESSAGE_2_CARRY_2_KS_PBS_GAUSSIAN_2M64);
    let (p, prep) = prepare_param_set(&set).unwrap_or_else(|e| panic!("{e:?}"));
    assert_eq!(p.grouping_factor, 3);
    assert_eq!(prep.msg_modulus, 16);
    assert_eq!(prep.bsk_bytes, 32 * 8 * 4 * 2048 * 8);
}

#[test]
fn an_input_that_does_not_fall_into_groups_is_refused() {
    let set = MultiBitPBSParameters { lwe_dimension: LweDimension(13), ..small_set(2) };
    assert_eq!(prepare_param_set(&set).err(), Some(SetupError::Unsupported));
}

#[test]
fn an_incorrect_set_is_refused_with_its_message() {
    let set = MultiBitPBSParameters {
        message_modulus: MessageModulus(1),
        carry_modulus: CarryModulus(1),
        ..small_set(2)
    };
    let expected = SetupError::Incorrect(Mismatch { msg: 1, decoded: 0 });
    assert_eq!(prepare_param_set(&set).err(), Some(expected));
}
