use plonkish_gadgets::circuits::range_check_3::RangeCheckCircuit3;
use plonkish_gadgets::dev::verify;
use plonkish_gadgets::dev::VerifyFailure;
use plonkish_gadgets::field::Felt;

#[test]
fn range_check_3() {
    const NUM_BITS: usize = 8; // 8-bit value
    const LOOKUP_RANGE: usize = 256; // 8-bit value

    // Test Success Range Check
    for num_bits_lookup in 1u8..=NUM_BITS.try_into().unwrap() {
        for value_lookup in (1 << (num_bits_lookup - 1))..(1 << num_bits_lookup) {
            let circuit = RangeCheckCircuit3 {
                num_bits: Some(num_bits_lookup),
                value: Some(Felt::from_u64(value_lookup as u64)),
                lookup_table_range: LOOKUP_RANGE,
                max_bits: NUM_BITS,
            };

            let prover = circuit.run().unwrap();
            assert_eq!(verify(&prover), Ok(()));
        }
    }

    // Test Out-of-range `value = 8`, `lookup_range = 256`
    let circuit = RangeCheckCircuit3 {
        num_bits: Some(NUM_BITS.try_into().unwrap()),
        value: Some(Felt::from_u64(NUM_BITS as u64)),
        lookup_table_range: LOOKUP_RANGE,
        max_bits: NUM_BITS,
    };
    let prover = circuit.run().unwrap();
    assert_eq!(
        verify(&prover),
        Err(vec![VerifyFailure::Lookup {
            lookup_index: 0,
            lookup_name: "lookup",
            region_index: 1,
            region_name: "Assign lookup table",
            offset: 0,
        }])
    );
}

#[test]
fn range_check_3_table_rows() {
    let circuit = RangeCheckCircuit3 {
        num_bits: Some(1),
        value: Some(Felt::from_u64(0)),
        lookup_table_range: 8,
        max_bits: 3,
    };
    let prover = circuit.run().unwrap();
    assert_eq!(verify(&prover), Ok(()));
    assert_eq!(prover.num_table_columns(), 2);
    let num_bits = prover.table_column(0);
    let values = prover.table_column(1);
    // (1,0) (1,1) (2,2) (2,3) (3,4) (3,5) (3,6) (3,7)
    let expected_bits = [1u64, 1, 2, 2, 3, 3, 3, 3];
    assert_eq!(num_bits.values.len(), 8);
    assert_eq!(values.values.len(), 8);
    for i in 0..8 {
        assert_eq!(num_bits.values[i], Felt::from_u64(expected_bits[i]));
        assert_eq!(values.values[i], Felt::from_u64(i as u64));
    }
}
