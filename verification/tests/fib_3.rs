use plonkish_gadgets::circuits::fib_3::FibonacciCircuit3;
use plonkish_gadgets::dev::verify;
use plonkish_gadgets::dev::VerifyFailure;
use plonkish_gadgets::field::Felt;

#[test]
fn fib_3() {
    let a = Felt::from_u64(1); // F[1]
    let b = Felt::from_u64(1); // F[2]
    let out = Felt::from_u64(55); // F[10]

    let circuit = FibonacciCircuit3 {};

    let mut public_input = vec![a, b, out];

    let prover = circuit.run(public_input.clone()).unwrap();
    assert_eq!(verify(&prover), Ok(()));

    public_input[2] = Felt::from_u64(55 + 1);
    let _prover = circuit.run(public_input).unwrap();
}

#[test]
fn fib_3_rejects_a_wrong_output() {
    let circuit = FibonacciCircuit3 {};
    let public_input = vec![Felt::from_u64(1), Felt::from_u64(1), Felt::from_u64(56)];
    let prover = circuit.run(public_input).unwrap();
    assert_eq!(
        verify(&prover),
        Err(vec![VerifyFailure::Permutation {
            region_index: 0,
            region_name: "entire fibonacci table",
            constraint_index: 2,
        }])
    );
}

#[test]
fn fib_3_layout() {
    let circuit = FibonacciCircuit3 {};
    let public_input = vec![Felt::from_u64(1), Felt::from_u64(1), Felt::from_u64(55)];
    let prover = circuit.run(public_input).unwrap();
    let region = prover.region(0);
    assert_eq!(region.cells.len(), 10);
    assert_eq!(region.enabled.len(), 8);
    let expected = [1u64, 1, 2, 3, 5, 8, 13, 21, 34, 55];
    for (row, v) in expected.iter().enumerate() {
        assert_eq!(region.cells[row].cell.row_offset, row);
        assert_eq!(region.cells[row].value, Some(Felt::from_u64(*v)));
    }
}
