use plonkish_gadgets::circuits::fib_1::FibonacciCircuit1;
use plonkish_gadgets::dev::verify;
use plonkish_gadgets::dev::VerifyFailure;
use plonkish_gadgets::field::Felt;

#[test]
fn fib_1() {
    let a = Felt::from_u64(1); // F[1]
    let b = Felt::from_u64(1); // F[2]
    let out = Felt::from_u64(55); // F[10]

    let circuit = FibonacciCircuit1 {};

    let mut public_input = vec![a, b, out];

    let prover = circuit.run(public_input.clone()).unwrap();
    assert_eq!(verify(&prover), Ok(()));

    public_input[2] = Felt::from_u64(55 + 1);
    let _prover = circuit.run(public_input).unwrap();
}

#[test]
fn fib_1_rejects_a_wrong_output() {
    let circuit = FibonacciCircuit1 {};
    let public_input = vec![Felt::from_u64(1), Felt::from_u64(1), Felt::from_u64(56)];
    let prover = circuit.run(public_input).unwrap();
    assert_eq!(
        verify(&prover),
        Err(vec![VerifyFailure::Permutation {
            region_index: 7,
            region_name: "next row",
            constraint_index: 2,
        }])
    );
}

#[test]
fn fib_1_layout() {
    let circuit = FibonacciCircuit1 {};
    let public_input = vec![Felt::from_u64(1), Felt::from_u64(1), Felt::from_u64(55)];
    let prover = circuit.run(public_input).unwrap();
    assert_eq!(prover.num_regions(), 8);
    assert_eq!(prover.region(0).name, "first row");
    let expected = [2u64, 3, 5, 8, 13, 21, 34, 55];
    for (i, c) in expected.iter().enumerate() {
        let region = prover.region(i);
        assert_eq!(region.cells.len(), 3);
        assert_eq!(region.cells[2].value, Some(Felt::from_u64(*c)));
        assert_eq!(region.cells[2].cell.region_index, i);
        assert_eq!(region.enabled.len(), 1);
    }
}

#[test]
fn fib_1_needs_three_public_inputs() {
    let circuit = FibonacciCircuit1 {};
    let result = circuit.run(vec![Felt::from_u64(1), Felt::from_u64(1)]);
    assert_eq!(result.err(), Some(plonkish_gadgets::circuit::Error::BoundsFailure));
}
