use multi_bit_pbs_grouping::{csv_header, csv_header_if_new, csv_row, CoreParams};
use tfhe::shortint::parameters::multi_bit::p_fail_2_minus_64::ks_pbs::{
    PARAM_MULTI_BIT_GROUP_2_MESSAGE_2_CARRY_2_KS_PBS_GAUSSIAN_2M64,
    PARAM_MULTI_BIT_GROUP_3_MESSAGE_2_CARRY_2_KS_PBS_GAUSSIAN_2M64,
};

const HEADER: &str = "param_set,grouping_factor_g,ggsw_per_element_2^g,input_dim_n,groups_n_div_g,\
std_bsk_size_mb,keygen_time_s,decomp_base_log,decomp_level,correct,domain,notes\n";

#[test]
fn the_first_line_names_the_columns() {
    assert_eq!(csv_header(), HEADER);
}

#[test]
fn the_first_line_is_written_once() {
    assert_eq!(csv_header_if_new(false), Some(HEADER.to_string()));
    assert_eq!(csv_header_if_new(true), None);
}

#[test]
fn row_of_group_2() {
    let p = CoreParams::from_multi_bit(&PARAM_MULTI_BIT_GROUP_2_MESSAGE_2_CARRY_2_KS_PBS_GAUSSIAN_2M64);
    assert_eq!(
        csv_row("multi_bit_pbs/group_2_msg2_carry2", &p, 111_000, 1_258, true),
        "multi_bit_pbs/group_2_msg2_carry2,2,4,888,444,111.000,1.258,21,1,Y,Fourier,\"threads=8; \
identity LUT; native 2^64; latency in criterion report\"\n"
    );
}

#[test]
fn row_of_group_3() {
    let p = CoreParams::from_multi_bit(&PARAM_MULTI_BIT_GROUP_3_MESSAGE_2_CARRY_2_KS_PBS_GAUSSIAN_2M64);
    assert_eq!(
        csv_row("multi_bit_pbs/group_3_msg2_carry2", &p, 148_500, 1_435, false),
        "multi_bit_pbs/group_3_msg2_carry2,3,8,891,297,148.500,1.435,21,1,N,Fourier,\"threads=8; \
identity LUT; native 2^64; latency in criterion report\"\n"
    );
}

#[test]
fn numbers_are_written_in_decimal() {
    let mut p = CoreParams::from_multi_bit(&PARAM_MULTI_BIT_GROUP_2_MESSAGE_2_CARRY_2_KS_PBS_GAUSSIAN_2M64);
    p.grouping_factor = 63;
    p.input_lwe_dimension = usize::MAX;
    p.decomp_base_log = 0;
    p.decomp_level_count = 1_234_567_890;
    assert_eq!(
        csv_row("x", &p, u64::MAX, 0, true),
        "x,63,9223372036854775808,18446744073709551615,292805461487453200,18446744073709551.615,0.000,0,1234567890,Y,Fourier,\
\"threads=8; identity LUT; native 2^64; latency in criterion report\"\n"
    );
}

#[test]
fn three_decimals_are_always_written() {
    let p = CoreParams::from_multi_bit(&PARAM_MULTI_BIT_GROUP_2_MESSAGE_2_CARRY_2_KS_PBS_GAUSSIAN_2M64);
    let cases = [
        (0u64, "0.000"),
        (7, "0.007"),
        (62, "0.062"),
        (1_000, "1.000"),
        (12_345_070, "12345.070"),
    ];
    for (thousandths, text) in cases {
        let row = csv_row("label", &p, thousandths, 999 - thousandths % 1_000, true);
        assert_eq!(row.split(',').nth(5), Some(text));
        let time = format!("{:.3}", (999 - thousandths % 1_000) as f64 / 1_000.0);
        assert_eq!(row.split(',').nth(6), Some(time.as_str()));
    }
}

#[test]
fn rows_split_into_the_columns() {
    let p = CoreParams::from_multi_bit(&PARAM_MULTI_BIT_GROUP_2_MESSAGE_2_CARRY_2_KS_PBS_GAUSSIAN_2M64);
    let row = csv_row("label", &p, 111_000, 1_258, true);
    let fields: Vec<&str> = row.trim_end_matches('\n').split(',').collect();
    let notes = "\"threads=8; identity LUT; native 2^64; latency in criterion report\"";
    assert_eq!(
        fields,
        ["label", "2", "4", "888", "444", "111.000", "1.258", "21", "1", "Y", "Fourier", notes]
    );
    let header = csv_header();
    let columns: Vec<&str> = header.trim_end_matches('\n').split(',').collect();
    assert_eq!(columns.len(), 12);
    assert_eq!(columns[0], "param_set");
    assert_eq!(columns[5], "std_bsk_size_mb");
    assert_eq!(columns[11], "notes");
    assert_eq!(row.matches('\n').count(), 1);
    assert_eq!(header.matches('\n').count(), 1);
}
