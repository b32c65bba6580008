use plonkish_gadgets::chips::range_check_2_table::RangeCheckTableConfig;
use plonkish_gadgets::chips::range_check_3_table::RangeCheckTableConfig as BitsTableConfig;
use plonkish_gadgets::chips::range_check_4::RangeCheckDecomposeConfig;
use plonkish_gadgets::circuit::Error;
use plonkish_gadgets::circuit::Layouter;
use plonkish_gadgets::circuits::range_check_1::RangeCheckCircuit1;
use plonkish_gadgets::circuits::range_check_2::RangeCheckCircuit2;
use plonkish_gadgets::circuits::range_check_4::RangeCheckDecomposeCircuit;
use plonkish_gadgets::dev::cell_values;
use plonkish_gadgets::dev::evaluate;
use plonkish_gadgets::dev::verify;
use plonkish_gadgets::dev::CellValue;
use plonkish_gadgets::dev::VerifyFailure;
use plonkish_gadgets::field::Felt;
use plonkish_gadgets::plonk::AdviceColumn;
use plonkish_gadgets::plonk::Column;
use plonkish_gadgets::plonk::Constraint;
use plonkish_gadgets::plonk::ConstraintSystem;
use plonkish_gadgets::plonk::Expression;
use plonkish_gadgets::plonk::LookupEntry;
use plonkish_gadgets::plonk::Rotation;

#[test]
fn the_cells_at_stake_are_reported() {
    let circuit = RangeCheckCircuit1 {
        value: Some(Felt::from_u64(22)),
        range: 8,
    };
    let prover = circuit.run().unwrap();
    // The polynomial reads its cell eight times and reports it once.
    assert_eq!(
        cell_values(&prover, 0, 0, 0, 0),
        vec![CellValue {
            column: AdviceColumn { index: 0 },
            rotation: Rotation(0),
            value: Some(Felt::from_u64(0x16)),
        }]
    );
    // On another row the cell is not assigned.
    assert_eq!(
        cell_values(&prover, 0, 0, 0, 1),
        vec![CellValue {
            column: AdviceColumn { index: 0 },
            rotation: Rotation(0),
            value: None,
        }]
    );
    // There is no second gate, polynomial or region.
    assert_eq!(cell_values(&prover, 1, 0, 0, 0), vec![]);
    assert_eq!(cell_values(&prover, 0, 1, 0, 0), vec![]);
    assert_eq!(cell_values(&prover, 0, 0, 1, 0), vec![]);
}

#[test]
fn cells_are_reported_in_the_order_of_their_first_use() {
    let mut cs = ConstraintSystem::new();
    let a = cs.advice_column();
    let b = cs.advice_column();
    let q = cs.selector();
    // b(+1) * a + a * b(-1) - b(+1)
    let poly = cs
        .query_advice(b, Rotation::next())
        .times(cs.query_advice(a, Rotation::cur()))
        .plus(cs.query_advice(a, Rotation::cur()).times(cs.query_advice(b, Rotation::prev())))
        .minus(cs.query_advice(b, Rotation::next()));
    cs.create_gate("gate", q, vec![Constraint { name: "c", poly }]);
    let mut layouter = Layouter::new(cs, vec![]);
    layouter.assign_region("region");
    layouter.assign_advice(a, 1, Some(Felt::from_u64(3))).unwrap();
    layouter.assign_advice(b, 0, Some(Felt::from_u64(5))).unwrap();
    layouter.assign_advice(b, 2, Some(Felt::from_u64(7))).unwrap();
    assert_eq!(
        cell_values(&layouter, 0, 0, 0, 1),
        vec![
            CellValue { column: b, rotation: Rotation(1), value: Some(Felt::from_u64(7)) },
            CellValue { column: a, rotation: Rotation(0), value: Some(Felt::from_u64(3)) },
            CellValue { column: b, rotation: Rotation(-1), value: Some(Felt::from_u64(5)) },
        ]
    );
    // On row 0 the cell above does not exist.
    assert_eq!(cell_values(&layouter, 0, 0, 0, 0)[2].value, None);
    // 7 * 3 + 3 * 5 - 7 = 29
    assert_eq!(
        evaluate(&layouter.constraint_system().gates[0].constraints[0].poly, layouter.region(0), 1),
        Some(Felt::from_u64(29))
    );
    assert_eq!(
        evaluate(&layouter.constraint_system().gates[0].constraints[0].poly, layouter.region(0), 0),
        None
    );
}

#[test]
fn every_failure_of_a_gate_is_reported() {
    let mut cs = ConstraintSystem::new();
    let a = cs.advice_column();
    let q = cs.selector();
    let other = cs.selector();
    let cell = cs.query_advice(a, Rotation::cur());
    let below = cs.query_advice(a, Rotation::next());
    cs.create_gate(
        "pair",
        q,
        vec![
            // a = 1
            Constraint {
                name: "one",
                poly: cell.duplicate().minus(Expression::Constant(Felt::one())),
            },
            // a(+1) = a
            Constraint { name: "same", poly: below.minus(cell) },
        ],
    );
    let mut layouter = Layouter::new(cs, vec![]);
    layouter.assign_region("rows");
    for (row, v) in [1u64, 1, 2].iter().enumerate() {
        layouter.assign_advice(a, row, Some(Felt::from_u64(*v))).unwrap();
    }
    layouter.enable(q, 0).unwrap();
    layouter.enable(q, 1).unwrap();
    layouter.enable(q, 2).unwrap();
    // A selector of no gate changes nothing.
    layouter.enable(other, 2).unwrap();
    let failure = |constraint_index, constraint_name, offset, assigned: bool| {
        if assigned {
            VerifyFailure::ConstraintNotSatisfied {
                gate_index: 0,
                gate_name: "pair",
                constraint_index,
                constraint_name,
                region_index: 0,
                region_name: "rows",
                offset,
            }
        } else {
            VerifyFailure::CellNotAssigned {
                gate_index: 0,
                gate_name: "pair",
                constraint_index,
                constraint_name,
                region_index: 0,
                region_name: "rows",
                offset,
            }
        }
    };
    assert_eq!(
        verify(&layouter),
        Err(vec![
            // Row 0 holds. On row 1 the cell below differs.
            failure(1, "same", 1, true),
            // On row 2 the cell is not 1, and there is no cell below.
            failure(0, "one", 2, true),
            failure(1, "same", 2, false),
        ])
    );
}

#[test]
fn a_default_that_is_not_in_the_table_fails() {
    let mut cs = ConstraintSystem::new();
    let a = cs.advice_column();
    let q = cs.complex_selector();
    let table = RangeCheckTableConfig::configure(&mut cs, 4);
    let input = cs.query_advice(a, Rotation::cur());
    cs.lookup(
        "with a bad default",
        q,
        vec![LookupEntry { input, table: table.value, default: Felt::from_u64(4) }],
    );
    let mut layouter = Layouter::new(cs, vec![]);
    table.load(&mut layouter).unwrap();
    layouter.assign_region("value");
    layouter.assign_advice(a, 0, Some(Felt::from_u64(3))).unwrap();
    layouter.enable(q, 0).unwrap();
    assert_eq!(
        verify(&layouter),
        Err(vec![VerifyFailure::LookupDefault {
            lookup_index: 0,
            lookup_name: "with a bad default",
        }])
    );
}

#[test]
fn an_empty_table_holds_no_default() {
    let circuit = RangeCheckCircuit2 {
        value: Some(Felt::from_u64(0)),
        lookup_value: Some(Felt::from_u64(0)),
        range: 8,
        lookup_table_range: 0,
    };
    let prover = circuit.run().unwrap();
    assert_eq!(prover.num_table_columns(), 0);
    assert_eq!(
        verify(&prover),
        Err(vec![
            VerifyFailure::LookupDefault { lookup_index: 0, lookup_name: "lookup" },
            VerifyFailure::Lookup {
                lookup_index: 0,
                lookup_name: "lookup",
                region_index: 2,
                region_name: "Assign lookup table",
                offset: 0,
            },
        ])
    );
}

#[test]
fn loading_a_table_twice_fails_and_changes_nothing() {
    let mut cs = ConstraintSystem::new();
    let table = RangeCheckTableConfig::configure(&mut cs, 16);
    let mut layouter = Layouter::new(cs, vec![]);
    assert_eq!(table.load(&mut layouter), Ok(()));
    let loaded = layouter.table_column(0).clone();
    assert_eq!(loaded.values.len(), 16);
    assert_eq!(table.load(&mut layouter), Err(Error::TableCellMisplaced));
    assert_eq!(layouter.num_table_columns(), 1);
    assert_eq!(*layouter.table_column(0), loaded);

    let mut cs = ConstraintSystem::new();
    let table = BitsTableConfig::configure(&mut cs, 16, 4);
    let mut layouter = Layouter::new(cs, vec![]);
    assert_eq!(table.load(&mut layouter), Ok(()));
    let num_bits = layouter.table_column(0).clone();
    let values = layouter.table_column(1).clone();
    assert_eq!(table.load(&mut layouter), Err(Error::TableCellMisplaced));
    assert_eq!(layouter.num_table_columns(), 2);
    assert_eq!(*layouter.table_column(0), num_bits);
    assert_eq!(*layouter.table_column(1), values);
}

#[test]
fn a_table_needs_its_column() {
    let mut other = ConstraintSystem::new();
    let table = RangeCheckTableConfig::configure(&mut other, 16);
    // A shape without the table's column.
    let mut layouter = Layouter::new(ConstraintSystem::new(), vec![]);
    assert_eq!(table.load(&mut layouter), Err(Error::ColumnNotDeclared));
    assert_eq!(layouter.num_table_columns(), 0);
}

#[test]
fn every_pair_is_in_the_table_of_bits_once() {
    let mut cs = ConstraintSystem::new();
    let table = BitsTableConfig::configure(&mut cs, 64, 6);
    let mut layouter = Layouter::new(cs, vec![]);
    table.load(&mut layouter).unwrap();
    let num_bits = &layouter.loaded_values(table.num_bits).unwrap();
    let values = &layouter.loaded_values(table.value).unwrap();
    assert_eq!(num_bits.len(), 64);
    assert_eq!(values.len(), 64);
    for bits in 1u64..=6 {
        let low = if bits == 1 { 0 } else { 1u64 << (bits - 1) };
        for value in low..(1 << bits) {
            let rows: Vec<usize> = (0..64)
                .filter(|row| {
                    num_bits[*row] == Felt::from_u64(bits) && values[*row] == Felt::from_u64(value)
                })
                .collect();
            assert_eq!(rows, vec![value as usize]);
        }
    }
}

#[test]
fn a_value_of_too_many_bits_fails_the_last_term() {
    for (value, num_bits) in [(256u64, 8usize), (1024, 10), (u64::MAX, 63), (1, 0)] {
        let circuit = RangeCheckDecomposeCircuit {
            value: Some(Felt::from_u64(value)),
            num_bits,
            lookup_num_bits: 10,
            lookup_range: 1024,
        };
        let prover = circuit.run().unwrap();
        assert_eq!(
            verify(&prover),
            Err(vec![VerifyFailure::Permutation {
                region_index: 2,
                region_name: "Decompose value",
                constraint_index: 1,
            }])
        );
    }
}

#[test]
fn a_value_that_fits_is_accepted() {
    for num_bits in [8usize, 10, 64] {
        let top = if num_bits == 64 { u64::MAX } else { (1 << num_bits) - 1 };
        for value in [0, 1, top / 2, top - 1, top] {
            let circuit = RangeCheckDecomposeCircuit {
                value: Some(Felt::from_u64(value)),
                num_bits,
                lookup_num_bits: 10,
                lookup_range: 1024,
            };
            let prover = circuit.run().unwrap();
            assert_eq!(verify(&prover), Ok(()), "{} in {} bits", value, num_bits);
        }
    }
}

#[test]
fn the_layout_of_a_decomposition() {
    let circuit = RangeCheckDecomposeCircuit {
        value: Some(Felt::from_u64(0xffff_ffff_ffff_ffff)),
        num_bits: 64,
        lookup_num_bits: 10,
        lookup_range: 1024,
    };
    let prover = circuit.run().unwrap();
    assert_eq!(prover.num_regions(), 3);
    assert_eq!(prover.region(0).name, "load range-check table");
    assert_eq!(prover.region(1).name, "Witness value");
    let region = prover.region(2);
    assert_eq!(region.name, "Decompose value");
    // z_0 .. z_7, the last chunk shifted up and the inverse of the shift.
    assert_eq!(region.cells.len(), 10);
    for (row, cell) in region.cells.iter().enumerate() {
        assert_eq!(cell.cell.row_offset, row);
        assert_eq!(cell.cell.region_index, 2);
    }
    assert_eq!(region.cells[0].value, Some(Felt::from_u64(u64::MAX)));
    assert_eq!(region.cells[6].value, Some(Felt::from_u64(15)));
    assert_eq!(region.cells[7].value, Some(Felt::zero()));
    // The last chunk has four bits: shifted up by six it is 15 * 64.
    assert_eq!(region.cells[8].value, Some(Felt::from_u64(15 * 64)));
    // Sixteen times the last cell is one.
    let mut sum = region.cells[9].value;
    for _ in 0..4 {
        sum = plonkish_gadgets::circuit::value_add(sum, sum);
    }
    assert_eq!(sum, Some(Felt::one()));
    // The chunk lookup on the rows of the six full chunks, the check of
    // the last chunk on the row of the last term.
    assert_eq!(region.enabled.len(), 7);
    assert_eq!(region.enabled[6].1, 7);
    assert_eq!(region.constraints.len(), 3);

    // The layout is the same without the witness.
    let shape = circuit.without_witnesses().run().unwrap();
    let bare = shape.region(2);
    assert_eq!(bare.cells.len(), 10);
    assert_eq!(bare.enabled, region.enabled);
    assert_eq!(bare.constraints, region.constraints);
    for (row, cell) in bare.cells.iter().enumerate() {
        assert_eq!(cell.cell, region.cells[row].cell);
    }
    assert_eq!(bare.cells[0].value, None);
    assert_eq!(bare.cells[8].value, None);
    assert_eq!(bare.cells[9].value, region.cells[9].value);
}

#[test]
fn a_gadget_needs_its_shape() {
    let mut cs = ConstraintSystem::new();
    let constants = cs.fixed_column();
    cs.enable_constant(constants);
    let value = cs.advice_column();
    let config = RangeCheckDecomposeConfig::configure(&mut cs, value, 10, 1024);

    // In a shape without columns the gadget cannot be laid out.
    let mut bare = ConstraintSystem::new();
    let other = bare.advice_column();
    let mut layouter = Layouter::new(bare, vec![]);
    layouter.assign_region("witness");
    let witness = layouter.assign_advice(other, 0, Some(Felt::from_u64(5))).unwrap();
    assert_eq!(
        config.assign(&mut layouter, witness, 20),
        Err(Error::ColumnNotInPermutation)
    );

    // With equality but without selectors the chunk lookup cannot be
    // enabled.
    let mut bare = ConstraintSystem::new();
    let other = bare.advice_column();
    bare.enable_equality(Column::Advice(other));
    let mut layouter = Layouter::new(bare, vec![]);
    layouter.assign_region("witness");
    let witness = layouter.assign_advice(other, 0, Some(Felt::from_u64(5))).unwrap();
    assert_eq!(
        config.assign(&mut layouter, witness, 20),
        Err(Error::SelectorNotDeclared)
    );
    // Without bits there is no chunk to look up, but still no column for
    // the constant zero.
    assert_eq!(
        config.assign(&mut layouter, witness, 0),
        Err(Error::NotEnoughColumnsForConstants)
    );

    // In a shape without any advice column not even the first cell goes in.
    let mut layouter = Layouter::new(ConstraintSystem::new(), vec![]);
    assert_eq!(
        config.assign(&mut layouter, witness, 20),
        Err(Error::ColumnNotDeclared)
    );
}
