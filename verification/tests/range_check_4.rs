use plonkish_gadgets::circuits::range_check_4::RangeCheckDecomposeCircuit;
use plonkish_gadgets::dev::verify;
use plonkish_gadgets::field::Felt;

#[test]
fn test_decompose_4() {
    const NUM_BITS: usize = 10;
    const RANGE: usize = 1024; // 10-bit value

    // Random u64 value
    let value: u64 = rand::random();
    let value = Some(Felt::from_u64(value));

    let circuit = RangeCheckDecomposeCircuit {
        value,
        num_bits: 64,
        lookup_num_bits: NUM_BITS,
        lookup_range: RANGE,
    };

    let prover = circuit.run().unwrap();
    assert_eq!(verify(&prover), Ok(()));
}
