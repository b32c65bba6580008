use plonkish_gadgets::circuits::range_check_1::RangeCheckCircuit1;
use plonkish_gadgets::dev::cell_values;
use plonkish_gadgets::dev::verify;
use plonkish_gadgets::dev::CellValue;
use plonkish_gadgets::dev::VerifyFailure;
use plonkish_gadgets::field::Felt;
use plonkish_gadgets::plonk::AdviceColumn;
use plonkish_gadgets::plonk::Rotation;

#[test]
fn range_check_1() {
    const RANGE: usize = 8; // 3-bit value

    for i in 0..RANGE {
        let circuit = RangeCheckCircuit1 {
            value: Some(Felt::from_u64(i as u64)),
            range: RANGE,
        };

        let prover = circuit.run().unwrap();
        assert_eq!(verify(&prover), Ok(()));
    }

    let testvalue: u64 = 22;
    // Out-of-range `value = 22`
    let circuit = RangeCheckCircuit1 {
        value: Some(Felt::from_u64(testvalue)),
        range: RANGE,
    };
    let prover = circuit.run().unwrap();
    assert_eq!(
        verify(&prover),
        Err(vec![VerifyFailure::ConstraintNotSatisfied {
            gate_index: 0,
            gate_name: "Range Check",
            constraint_index: 0,
            constraint_name: "range check",
            region_index: 0,
            region_name: "Assign value",
            offset: 0,
        }])
    );
    assert_eq!(
        cell_values(&prover, 0, 0, 0, 0),
        vec![CellValue {
            column: AdviceColumn { index: 0 },
            rotation: Rotation(0),
            value: Some(Felt::from_u64(0x16)),
        }]
    );
}

#[test]
fn range_check_1_at_the_edge() {
    const RANGE: usize = 8;
    let circuit = RangeCheckCircuit1 {
        value: Some(Felt::from_u64(RANGE as u64)),
        range: RANGE,
    };
    let prover = circuit.run().unwrap();
    assert!(verify(&prover).is_err());

    let circuit = RangeCheckCircuit1 {
        value: Some(Felt::from_u64(u64::MAX)),
        range: RANGE,
    };
    let prover = circuit.run().unwrap();
    assert!(verify(&prover).is_err());
}

#[test]
fn range_check_1_without_witnesses() {
    let circuit = RangeCheckCircuit1 {
        value: Some(Felt::from_u64(3)),
        range: 8,
    };
    let shape = circuit.without_witnesses();
    assert_eq!(shape.value, None);
    assert_eq!(shape.range, 8);
    let prover = shape.run().unwrap();
    // The layout does not depend on the witness.
    assert_eq!(prover.num_regions(), 1);
    assert_eq!(prover.region(0).cells.len(), 1);
    assert_eq!(prover.region(0).cells[0].value, None);
    // An unknown value cannot be checked.
    assert_eq!(
        verify(&prover),
        Err(vec![VerifyFailure::CellNotAssigned {
            gate_index: 0,
            gate_name: "Range Check",
            constraint_index: 0,
            constraint_name: "range check",
            region_index: 0,
            region_name: "Assign value",
            offset: 0,
        }])
    );
}
