use plonkish_gadgets::circuits::fib_2::FibonacciCircuit2;
use plonkish_gadgets::dev::verify;
use plonkish_gadgets::dev::VerifyFailure;
use plonkish_gadgets::field::Felt;

#[test]
fn fib_2() {
    let a = Felt::from_u64(1); // F[1]
    let b = Felt::from_u64(1); // F[2]
    let out = Felt::from_u64(55); // F[10]

    let circuit = FibonacciCircuit2 {};

    let mut public_input = vec![a, b, out];

    let prover = circuit.run(public_input.clone()).unwrap();
    assert_eq!(verify(&prover), Ok(()));

    public_input[2] = Felt::from_u64(55 + 1);
    let _prover = circuit.run(public_input).unwrap();
}

#[test]
fn fib_2_rejects_a_wrong_output() {
    let circuit = FibonacciCircuit2 {};
    let public_input = vec![Felt::from_u64(1), Felt::from_u64(1), Felt::from_u64(56)];
    let prover = circuit.run(public_input).unwrap();
    assert_eq!(
        verify(&prover),
        Err(vec![VerifyFailure::Permutation {
            region_index: 0,
            region_name: "entire fibonacci table",
            constraint_index: 2,
        }])
    );
}

#[test]
fn fib_2_layout() {
    let circuit = FibonacciCircuit2 {};
    let public_input = vec![Felt::from_u64(1), Felt::from_u64(1), Felt::from_u64(55)];
    let prover = circuit.run(public_input).unwrap();
    assert_eq!(prover.num_regions(), 1);
    let region = prover.region(0);
    assert_eq!(region.name, "entire fibonacci table");
    assert_eq!(region.cells.len(), 18);
    // The selector is on every row but the last.
    assert_eq!(region.enabled.len(), 8);
    // The last cell of the second column holds the tenth number.
    let last_b = region.cells[16];
    assert_eq!(last_b.cell.row_offset, 8);
    assert_eq!(last_b.cell.column.index, 1);
    assert_eq!(last_b.value, Some(Felt::from_u64(55)));
}
