use multi_bit_pbs_grouping::{
    bsk_size_bytes, is_modulus_supported, is_noise_drawable, CoreParams, KeyShape, MultiBitFields,
    NoiseDistribution,
};
use tfhe::core_crypto::prelude::{
    CiphertextModulus, DecompositionBaseLog, DecompositionLevelCount, DynamicDistribution,
    GlweDimension, LweBskGroupingFactor, LweDimension, PolynomialSize,
};
use tfhe::shortint::parameters::multi_bit::p_fail_2_minus_64::ks_pbs::{
    PARAM_MULTI_BIT_GROUP_2_MESSAGE_2_CARRY_2_KS_PBS_GAUSSIAN_2M64,
    PARAM_MULTI_BIT_GROUP_3_MESSAGE_2_CARRY_2_KS_PBS_GAUSSIAN_2M64,
};
use tfhe::shortint::parameters::{CarryModulus, MessageModulus, MultiBitPBSParameters};

fn group_2() -> MultiBitPBSParameters {
    PARAM_MULTI_BIT_GROUP_2_MESSAGE_2_CARRY_2_KS_PBS_GAUSSIAN_2M64
}

fn group_3() -> MultiBitPBSParameters {
    PARAM_MULTI_BIT_GROUP_3_MESSAGE_2_CARRY_2_KS_PBS_GAUSSIAN_2M64
}

fn shape() -> KeyShape {
    KeyShape {
        input_lwe_dimension: 12,
        glwe_dimension: 1,
        polynomial_size: 512,
        decomp_base_log: 23,
        decomp_level_count: 1,
        grouping_factor: 2,
    }
}

#[test]
fn production_sets_are_read_field_by_field() {
    let p = CoreParams::from_multi_bit(&group_2());
    assert_eq!(p.input_lwe_dimension, 888);
    assert_eq!(p.glwe_dimension, 1);
    assert_eq!(p.polynomial_size, 2048);
    assert_eq!(p.decomp_base_log, 21);
    assert_eq!(p.decomp_level_count, 1);
    assert_eq!(p.grouping_factor, 2);
    assert_eq!(p.ciphertext_modulus, 0);
    assert_eq!(p.message_modulus, 4);
    assert_eq!(p.carry_modulus, 4);
    assert!(p.noise == group_2());

    let p = CoreParams::from_multi_bit(&group_3());
    assert_eq!(p.input_lwe_dimension, 891);
    assert_eq!(p.grouping_factor, 3);
    assert_eq!(p.decomp_base_log, 21);
    assert_eq!(p.decomp_level_count, 1);
}

#[test]
fn every_field_comes_from_its_own_place() {
    let set = MultiBitPBSParameters {
        lwe_dimension: LweDimension(101),
        glwe_dimension: GlweDimension(102),
        polynomial_size: PolynomialSize(103),
        pbs_base_log: DecompositionBaseLog(104),
        pbs_level: DecompositionLevelCount(105),
        ks_base_log: DecompositionBaseLog(106),
        ks_level: DecompositionLevelCount(107),
        message_modulus: MessageModulus(108),
        carry_modulus: CarryModulus(109),
        grouping_factor: LweBskGroupingFactor(110),
        ciphertext_modulus: CiphertextModulus::new(1 << 32),
        ..group_2()
    };
    let p = CoreParams::from_multi_bit(&set);
    assert_eq!(p.input_lwe_dimension, 101);
    assert_eq!(p.glwe_dimension, 102);
    assert_eq!(p.polynomial_size, 103);
    assert_eq!(p.decomp_base_log, 104);
    assert_eq!(p.decomp_level_count, 105);
    assert_eq!(p.message_modulus, 108);
    assert_eq!(p.carry_modulus, 109);
    assert_eq!(p.grouping_factor, 110);
    assert_eq!(p.ciphertext_modulus, 1 << 32);
}

#[test]
fn the_bootstrap_decomposition_is_taken() {
    let fields = MultiBitFields {
        lwe_dimension: 1,
        glwe_dimension: 2,
        polynomial_size: 3,
        pbs_base_log: 4,
        pbs_level: 5,
        ks_base_log: 6,
        ks_level: 7,
        grouping_factor: 8,
        message_modulus: 9,
        carry_modulus: 10,
        ciphertext_modulus: 11,
    };
    let p = CoreParams::from_fields(&fields, &group_3());
    assert_eq!(p.input_lwe_dimension, 1);
    assert_eq!(p.glwe_dimension, 2);
    assert_eq!(p.polynomial_size, 3);
    assert_eq!(p.decomp_base_log, 4);
    assert_eq!(p.decomp_level_count, 5);
    assert_eq!(p.grouping_factor, 8);
    assert_eq!(p.message_modulus, 9);
    assert_eq!(p.carry_modulus, 10);
    assert_eq!(p.ciphertext_modulus, 11);
    assert!(p.noise == group_3());
}

#[test]
fn key_size_of_group_2_is_111_mib() {
    let p = CoreParams::from_multi_bit(&group_2());
    assert_eq!(bsk_size_bytes(&p), 116_391_936);
    assert_eq!(bsk_size_bytes(&p), 111 * 1024 * 1024);
}

#[test]
fn key_size_of_group_3_is_148_and_a_half_mib() {
    let p = CoreParams::from_multi_bit(&group_3());
    assert_eq!(bsk_size_bytes(&p), 155_713_536);
    assert_eq!(bsk_size_bytes(&p) * 2, 297 * 1024 * 1024);
}

#[test]
fn key_size_counts_levels_and_components() {
    let mut p = CoreParams::from_multi_bit(&group_2());
    p.input_lwe_dimension = 6;
    p.glwe_dimension = 2;
    p.polynomial_size = 16;
    p.decomp_level_count = 3;
    p.grouping_factor = 3;
    // 2 groups of 8 GGSWs, each of 3 levels, 3 rows and 3 polynomials of 16 scalars.
    assert_eq!(bsk_size_bytes(&p), 2 * 8 * 3 * 3 * 3 * 16 * 8);
}

#[test]
fn a_larger_grouping_factor_has_fewer_groups_and_a_larger_key() {
    let mut p = CoreParams::from_multi_bit(&group_2());
    p.input_lwe_dimension = 12;
    p.grouping_factor = 1;
    let ungrouped = bsk_size_bytes(&p);
    p.grouping_factor = 2;
    let pairs = bsk_size_bytes(&p);
    p.grouping_factor = 3;
    let triples = bsk_size_bytes(&p);
    p.grouping_factor = 4;
    let quads = bsk_size_bytes(&p);
    assert_eq!(ungrouped, pairs);
    assert!(pairs < triples);
    assert!(triples < quads);
    assert_eq!(pairs, 24 * 65_536);
    assert_eq!(triples, 32 * 65_536);
    assert_eq!(quads, 48 * 65_536);
}

#[test]
fn the_shape_is_that_of_the_parameters() {
    let shape = CoreParams::from_multi_bit(&group_3()).shape();
    assert_eq!(
        shape,
        KeyShape {
            input_lwe_dimension: 891,
            glwe_dimension: 1,
            polynomial_size: 2048,
            decomp_base_log: 21,
            decomp_level_count: 1,
            grouping_factor: 3,
        }
    );
}

#[test]
fn production_sets_are_supported() {
    assert!(CoreParams::from_multi_bit(&group_2()).is_supported());
    assert!(CoreParams::from_multi_bit(&group_3()).is_supported());
}

#[test]
fn shapes_are_told_apart() {
    assert!(shape().is_valid());
    assert!(KeyShape { grouping_factor: 3, ..shape() }.is_valid());
    assert!(!KeyShape { grouping_factor: 5, ..shape() }.is_valid());
    assert!(!KeyShape { grouping_factor: 0, ..shape() }.is_valid());
    assert!(!KeyShape { input_lwe_dimension: 64, grouping_factor: 64, ..shape() }.is_valid());
    assert!(!KeyShape { input_lwe_dimension: 0, ..shape() }.is_valid());
    assert!(!KeyShape { glwe_dimension: 0, ..shape() }.is_valid());
    assert!(!KeyShape { glwe_dimension: usize::MAX, ..shape() }.is_valid());
    assert!(KeyShape { polynomial_size: 8, ..shape() }.is_valid());
    assert!(!KeyShape { polynomial_size: 4, ..shape() }.is_valid());
    assert!(!KeyShape { polynomial_size: 500, ..shape() }.is_valid());
    assert!(!KeyShape { decomp_base_log: 0, ..shape() }.is_valid());
    assert!(!KeyShape { decomp_level_count: 0, ..shape() }.is_valid());
    assert!(KeyShape { decomp_base_log: 31, decomp_level_count: 2, ..shape() }.is_valid());
    assert!(!KeyShape { decomp_base_log: 21, decomp_level_count: 3, ..shape() }.is_valid());
    assert!(KeyShape { decomp_base_log: 62, ..shape() }.is_valid());
    assert!(!KeyShape { decomp_base_log: 63, ..shape() }.is_valid());
    assert!(!KeyShape { decomp_base_log: 32, decomp_level_count: 2, ..shape() }.is_valid());
    assert!(!KeyShape { decomp_base_log: usize::MAX, decomp_level_count: 2, ..shape() }.is_valid());
    assert!(!KeyShape { polynomial_size: 1 << 50, ..shape() }.is_valid());
    assert!(!KeyShape { polynomial_size: 1 << 63, ..shape() }.is_valid());
}

#[test]
fn moduli_are_told_apart() {
    assert!(is_modulus_supported(0));
    assert!(!is_modulus_supported(1));
    assert!(is_modulus_supported(2));
    assert!(!is_modulus_supported(3));
    assert!(is_modulus_supported(1 << 62));
    assert!(!is_modulus_supported(1 << 63));
    assert!(is_modulus_supported(1 << 64));
    assert!(!is_modulus_supported(1 << 65));
    assert!(!is_modulus_supported((1 << 64) - (1 << 32) + 1));
}

#[test]
fn parameters_are_told_apart() {
    let mut p = CoreParams::from_multi_bit(&group_2());
    p.message_modulus = 0;
    assert!(!p.is_supported());
    p.message_modulus = 1 << 62;
    p.carry_modulus = 2;
    assert!(p.is_supported());
    p.carry_modulus = 3;
    assert!(!p.is_supported());
    p.carry_modulus = u64::MAX;
    assert!(!p.is_supported());

    let mut p = CoreParams::from_multi_bit(&group_2());
    p.input_lwe_dimension = 887;
    assert!(!p.is_supported());

    let mut p = CoreParams::from_multi_bit(&group_2());
    p.ciphertext_modulus = 1 << 32;
    assert!(p.is_supported());
    p.ciphertext_modulus = 12_345;
    assert!(!p.is_supported());
}

#[test]
fn bounded_noise_needs_the_native_modulus() {
    let set = MultiBitPBSParameters {
        lwe_noise_distribution: DynamicDistribution::new_t_uniform(10),
        ..group_2()
    };
    let mut p = CoreParams::from_multi_bit(&set);
    assert!(p.is_supported());
    p.ciphertext_modulus = 1 << 64;
    assert!(p.is_supported());
    p.ciphertext_modulus = 1 << 32;
    assert!(!p.is_supported());

    let set = MultiBitPBSParameters {
        glwe_noise_distribution: DynamicDistribution::new_t_uniform(10),
        ..group_2()
    };
    let mut p = CoreParams::from_multi_bit(&set);
    assert!(p.is_supported());
    p.ciphertext_modulus = 1 << 32;
    assert!(!p.is_supported());
}

#[test]
fn noise_distributions_are_told_apart() {
    let gaussian = NoiseDistribution::Gaussian {
        std_bits: 1e-12f64.to_bits(),
        mean_bits: 0f64.to_bits(),
    };
    for modulus in [0, 1 << 32, 1 << 64] {
        assert!(is_noise_drawable(gaussian, modulus));
    }
    for bound_log2 in [0, 10, 62] {
        let bounded = NoiseDistribution::TUniform { bound_log2 };
        assert!(is_noise_drawable(bounded, 0));
        assert!(is_noise_drawable(bounded, 1 << 64));
        assert!(!is_noise_drawable(bounded, 1 << 32));
    }
    for bound_log2 in [63, 64, u32::MAX] {
        assert!(!is_noise_drawable(NoiseDistribution::TUniform { bound_log2 }, 0));
    }
}

#[test]
fn the_widest_bounded_noise_is_supported() {
    let set = MultiBitPBSParameters {
        lwe_noise_distribution: DynamicDistribution::new_t_uniform(62),
        glwe_noise_distribution: DynamicDistribution::new_t_uniform(62),
        ..group_2()
    };
    assert!(CoreParams::from_multi_bit(&set).is_supported());
}
