use multi_bit_pbs_grouping::{
    check_message, check_messages, decode, encoding_delta, identity, round_decode, Mismatch,
};

#[test]
fn delta_leaves_one_padding_bit() {
    assert_eq!(encoding_delta(1), 1 << 63);
    assert_eq!(encoding_delta(16), 1 << 59);
    assert_eq!(encoding_delta(3), 3_074_457_345_618_258_602);
    assert_eq!(encoding_delta(1 << 63), 1);
    assert_eq!(encoding_delta(u64::MAX), 0);
}

#[test]
fn rounding_goes_to_the_nearest_multiple() {
    assert_eq!(round_decode(0, 10), 0);
    assert_eq!(round_decode(4, 10), 0);
    assert_eq!(round_decode(5, 10), 1);
    assert_eq!(round_decode(14, 10), 1);
    assert_eq!(round_decode(15, 10), 2);
    assert_eq!(round_decode(7, 1), 7);
}

#[test]
fn rounding_goes_around_below_zero() {
    let delta = encoding_delta(16);
    assert_eq!(round_decode(u64::MAX, delta), 0);
    assert_eq!(round_decode(0u64.wrapping_sub(delta / 2), delta), 0);
    assert_eq!(round_decode(0u64.wrapping_sub(delta / 2 + 1), delta), 31);
}

#[test]
fn decoding_reduces_to_the_message_space() {
    let delta = encoding_delta(16);
    assert_eq!(decode(15 * delta, delta, 16), 15);
    assert_eq!(decode(16 * delta, delta, 16), 0);
    assert_eq!(decode(0u64.wrapping_sub(delta), delta, 16), 15);
}

#[test]
fn noise_within_half_a_step_is_absorbed() {
    for msg_modulus in [1u64, 2, 3, 16, 100, 1 << 20] {
        let delta = encoding_delta(msg_modulus);
        for msg in [0, msg_modulus / 2, msg_modulus - 1] {
            let encoded = msg * delta;
            assert!(encoded < 1 << 63);
            assert_eq!(decode(encoded, delta, msg_modulus), msg);
            let lowest = encoded.wrapping_sub(delta / 2);
            let highest = encoded + (delta - delta / 2 - 1);
            assert_eq!(round_decode(lowest, delta), msg);
            assert_eq!(round_decode(highest, delta), msg);
            assert_eq!(round_decode(highest + 1, delta), msg + 1);
        }
    }
}

#[test]
fn a_message_is_checked_against_its_plaintext() {
    let delta = encoding_delta(16);
    assert_eq!(check_message(9, 9 * delta + 12, delta, 16), Ok(()));
    assert_eq!(check_message(9, 10 * delta - 12, delta, 16), Err(Mismatch { msg: 9, decoded: 10 }));
    assert_eq!(check_message(16, 16 * delta, delta, 16), Err(Mismatch { msg: 16, decoded: 0 }));
}

#[test]
fn no_multiple_lies_nearer() {
    for delta in [1u64, 2, 3, 7, 10] {
        for x in 0..60u64 {
            let r = round_decode(x, delta);
            for k in 0..70u64 {
                let chosen = x.abs_diff(r * delta);
                let other = x.abs_diff(k * delta);
                assert!(chosen < other || (chosen == other && k <= r));
            }
        }
    }
}

#[test]
fn rounding_undoes_encoding_up_to_the_end_of_the_torus() {
    let delta = 10u64;
    let last = u64::MAX / 10 - 1;
    for msg in [0, 1, 12_345, last] {
        for (below, above) in [(0, 0), (5, 0), (0, 4)] {
            let x = (msg * delta).wrapping_sub(below) + above;
            assert_eq!(round_decode(x, delta), msg);
        }
    }
    assert_eq!(round_decode(last * delta + 5, delta), last + 1);
}

#[test]
fn messages_are_checked_in_order() {
    let delta = encoding_delta(16);
    let good = [3, delta - 3, 8 * delta + 1, 15 * delta];
    assert_eq!(check_messages(&good, delta, 16), Ok(()));
    assert_eq!(check_messages(&good[..2], delta, 16), Ok(()));
    assert_eq!(check_messages(&[], delta, 16), Ok(()));

    let middle = [0, delta, 9 * delta, 14 * delta];
    assert_eq!(check_messages(&middle, delta, 16), Err(Mismatch { msg: 8, decoded: 9 }));
    assert_eq!(check_messages(&middle[..2], delta, 16), Ok(()));
    let last = [0, delta, 8 * delta, 16 * delta];
    assert_eq!(check_messages(&last, delta, 16), Err(Mismatch { msg: 15, decoded: 0 }));
    let first = [2 * delta, 3 * delta, 0, 0];
    assert_eq!(check_messages(&first, delta, 16), Err(Mismatch { msg: 0, decoded: 2 }));
}

#[test]
fn a_single_message_never_passes() {
    let delta = encoding_delta(1);
    for plaintext in [0, delta, u64::MAX] {
        let sent = [plaintext; 4];
        assert_eq!(check_messages(&sent, delta, 1), Err(Mismatch { msg: 1, decoded: 0 }));
    }
}

#[test]
fn the_table_holds_the_identity() {
    assert_eq!(identity(0), 0);
    assert_eq!(identity(u64::MAX), u64::MAX);
}
