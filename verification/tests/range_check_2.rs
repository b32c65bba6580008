use plonkish_gadgets::circuits::range_check_2::RangeCheckCircuit2;
use plonkish_gadgets::dev::cell_values;
use plonkish_gadgets::dev::verify;
use plonkish_gadgets::dev::CellValue;
use plonkish_gadgets::dev::VerifyFailure;
use plonkish_gadgets::field::Felt;
use plonkish_gadgets::plonk::AdviceColumn;
use plonkish_gadgets::plonk::Rotation;

#[test]
fn range_check_2() {
    const RANGE: usize = 8; // 3-bit value
    const LOOKUP_RANGE: usize = 256; // 8-bit value

    // Test Success Range Check
    for i in 0..RANGE {
        for j in 0..LOOKUP_RANGE {
            let circuit = RangeCheckCircuit2 {
                value: Some(Felt::from_u64(i as u64)),
                lookup_value: Some(Felt::from_u64(j as u64)),
                range: RANGE,
                lookup_table_range: LOOKUP_RANGE,
            };

            let prover = circuit.run().unwrap();
            assert_eq!(verify(&prover), Ok(()));
        }
    }

    // Test Out-of-range `value = 8`, `lookup_range = 256`
    {
        let circuit = RangeCheckCircuit2 {
            value: Some(Felt::from_u64(RANGE as u64)),
            lookup_value: Some(Felt::from_u64(LOOKUP_RANGE as u64)),
            range: RANGE,
            lookup_table_range: LOOKUP_RANGE,
        };
        let prover = circuit.run().unwrap();
        assert_eq!(
            verify(&prover),
            Err(vec![
                VerifyFailure::ConstraintNotSatisfied {
                    gate_index: 0,
                    gate_name: "Range Check",
                    constraint_index: 0,
                    constraint_name: "range check",
                    region_index: 1,
                    region_name: "Assign simple",
                    offset: 0,
                },
                VerifyFailure::Lookup {
                    lookup_index: 0,
                    lookup_name: "lookup",
                    region_index: 2,
                    region_name: "Assign lookup table",
                    offset: 0,
                }
            ])
        );
        assert_eq!(
            cell_values(&prover, 0, 0, 1, 0),
            vec![CellValue {
                column: AdviceColumn { index: 0 },
                rotation: Rotation(0),
                value: Some(Felt::from_u64(0x8)),
            }]
        );
    }
}

#[test]
fn range_check_2_table_contents() {
    let circuit = RangeCheckCircuit2 {
        value: Some(Felt::from_u64(0)),
        lookup_value: Some(Felt::from_u64(0)),
        range: 8,
        lookup_table_range: 256,
    };
    let prover = circuit.run().unwrap();
    assert_eq!(prover.num_table_columns(), 1);
    let column = prover.table_column(0);
    assert_eq!(column.values.len(), 256);
    for (i, v) in column.values.iter().enumerate() {
        assert_eq!(*v, Felt::from_u64(i as u64));
    }
    assert_eq!(prover.opened_tables().len(), 1);
    assert_eq!(prover.opened_tables()[0].name, "load range-check table");
    assert_eq!(prover.opened_tables()[0].region_index, 0);
}
