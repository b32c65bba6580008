use plonkish_gadgets::chips::range_check_4::compute_running_sum;
use plonkish_gadgets::chips::range_check_4::decompose;
use plonkish_gadgets::chips::range_check_4::lebs2ip;
use plonkish_gadgets::chips::range_check_4::two_pow;
use plonkish_gadgets::field::Felt;

#[test]
fn little_endian_bits() {
    assert_eq!(lebs2ip(&[]), 0);
    assert_eq!(lebs2ip(&[true]), 1);
    assert_eq!(lebs2ip(&[false, true]), 2);
    assert_eq!(lebs2ip(&[true, false, true]), 5);
    assert_eq!(lebs2ip(&[false, false, false, false]), 0);
    assert_eq!(lebs2ip(&[true; 64]), u64::MAX);
    let mut top = [false; 64];
    top[63] = true;
    assert_eq!(lebs2ip(&top), 1 << 63);
}

#[test]
fn powers_of_two() {
    assert_eq!(two_pow(0), 1);
    assert_eq!(two_pow(10), 1024);
    assert_eq!(two_pow(63), 1 << 63);
}

#[test]
fn chunks_of_a_value() {
    // 5 = 101b, bit by bit
    assert_eq!(decompose(&Felt::from_u64(5), 3, 1), vec![1, 0, 1]);
    // 0x1234 in chunks of 4 bits
    assert_eq!(decompose(&Felt::from_u64(0x1234), 16, 4), vec![4, 3, 2, 1]);
    // Only the lowest bits are looked at.
    assert_eq!(decompose(&Felt::from_u64(0x1234), 8, 4), vec![4, 3]);
    // A last chunk that is shorter: 10 bits in chunks of 4.
    assert_eq!(decompose(&Felt::from_u64(0x3ff), 10, 4), vec![15, 15, 3]);
    // No bits, no chunks.
    assert_eq!(decompose(&Felt::from_u64(77), 0, 10), Vec::<u64>::new());
    // 64 bits in chunks of 10: seven chunks, the last of 4 bits.
    assert_eq!(
        decompose(&Felt::from_u64(u64::MAX), 64, 10),
        vec![1023, 1023, 1023, 1023, 1023, 1023, 15]
    );
    // An element has 256 bits to look at, and no more.
    assert_eq!(decompose(&Felt::from_u64(1), 300, 63).len(), 5);
    assert_eq!(decompose(&Felt::from_u64(1), 256, 63).len(), 5);
}

#[test]
fn chunks_put_together_give_the_value() {
    for (value, num_bits, k) in [
        (0u64, 8usize, 10usize),
        (255, 8, 10),
        (0, 10, 10),
        (1023, 10, 10),
        (0, 64, 10),
        (u64::MAX, 64, 10),
        (0xdead_beef_cafe_f00d, 64, 10),
        (0xdead_beef_cafe_f00d, 64, 7),
        (0xdead_beef_cafe_f00d, 64, 63),
        (0xdead_beef_cafe_f00d, 64, 1),
        (12345, 14, 3),
    ] {
        let chunks = decompose(&Felt::from_u64(value), num_bits, k);
        let expected_len = if num_bits % k > 0 {
            1 + num_bits / k
        } else {
            num_bits / k
        };
        assert_eq!(chunks.len(), expected_len);
        let mut sum: u128 = 0;
        for (i, c) in chunks.iter().enumerate() {
            assert!((*c as u128) < (1u128 << k));
            sum += (*c as u128) << (i * k);
        }
        assert_eq!(sum, value as u128, "{} in {} bits by {}", value, num_bits, k);
    }
}

#[test]
fn chunks_of_a_longer_value_give_its_lowest_bits() {
    let chunks = decompose(&Felt::from_u64(0x1_0000 + 0xabc), 12, 4);
    assert_eq!(chunks, vec![0xc, 0xb, 0xa]);
}

#[test]
fn running_sum_of_a_value_that_fits() {
    // 1029 = 1 * 1024 + 5: z_1 = (1029 - 5) / 1024 = 1, z_2 = (1 - 1) / 1024 = 0.
    assert_eq!(
        compute_running_sum(Felt::from_u64(1029), 20, 10),
        vec![Felt::from_u64(1), Felt::from_u64(0)]
    );
    // The terms are the value shifted down, chunk by chunk.
    let value: u64 = 0xdead_beef_cafe_f00d;
    let terms = compute_running_sum(Felt::from_u64(value), 64, 10);
    assert_eq!(terms.len(), 7);
    for (i, z) in terms.iter().enumerate() {
        let shift = 10 * (i + 1);
        let expected = if shift >= 64 { 0 } else { value >> shift };
        assert_eq!(*z, Felt::from_u64(expected));
    }
    // No bits, no terms.
    assert_eq!(compute_running_sum(Felt::from_u64(5), 0, 10), vec![]);
}

#[test]
fn running_sum_of_a_value_that_does_not_fit() {
    // 256 does not fit in 8 bits: the last term is 256 / 2^10, which is
    // no integer, and so is not zero.
    let terms = compute_running_sum(Felt::from_u64(256), 8, 10);
    assert_eq!(terms.len(), 1);
    assert!(!terms[0].is_zero());
    // 256 / 1024 = 1 / 4 in the field: four times the term is one.
    let fourth = terms[0];
    let twice = plonkish_gadgets::circuit::value_add(Some(fourth), Some(fourth));
    let four_times = plonkish_gadgets::circuit::value_add(twice, twice);
    assert_eq!(four_times, Some(Felt::one()));
}
