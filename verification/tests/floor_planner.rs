use plonkish_gadgets::circuit::Layouter;
use plonkish_gadgets::circuits::fib_1::FibonacciCircuit1;
use plonkish_gadgets::circuits::range_check_2::RangeCheckCircuit2;
use plonkish_gadgets::circuits::range_check_4::RangeCheckDecomposeCircuit;
use plonkish_gadgets::field::Felt;
use plonkish_gadgets::plonk::ConstraintSystem;

#[test]
fn regions_in_the_same_columns_are_stacked() {
    let pass = FibonacciCircuit1 {}
        .run(vec![Felt::from_u64(1), Felt::from_u64(1), Felt::from_u64(55)])
        .unwrap();
    assert_eq!(pass.region_starts(), Some(vec![0, 1, 2, 3, 4, 5, 6, 7]));
}

#[test]
fn a_table_takes_no_rows_of_the_regions() {
    let circuit = RangeCheckCircuit2 {
        value: Some(Felt::from_u64(1)),
        lookup_value: Some(Felt::from_u64(2)),
        range: 8,
        lookup_table_range: 256,
    };
    assert_eq!(circuit.run().unwrap().region_starts(), Some(vec![0, 0, 1]));
}

#[test]
fn the_placement_does_not_depend_on_the_witness() {
    let circuit = RangeCheckDecomposeCircuit {
        value: Some(Felt::from_u64(12345)),
        num_bits: 64,
        lookup_num_bits: 10,
        lookup_range: 1024,
    };
    let with = circuit.run().unwrap().region_starts();
    let without = circuit.without_witnesses().run().unwrap().region_starts();
    assert_eq!(with, Some(vec![0, 0, 1]));
    assert_eq!(with, without);
}

#[test]
fn regions_in_other_columns_share_rows() {
    let mut cs = ConstraintSystem::new();
    let a = cs.advice_column();
    let b = cs.advice_column();
    let q = cs.selector();
    let mut layouter = Layouter::new(cs, vec![]);
    // Rows 0 to 2 of column a.
    layouter.assign_region("a");
    layouter.assign_advice(a, 2, None).unwrap();
    // Column b is free: row 0.
    layouter.assign_region("b");
    layouter.assign_advice(b, 0, None).unwrap();
    layouter.assign_advice(b, 4, None).unwrap();
    // The selector alone: row 0.
    layouter.assign_region("q");
    layouter.enable(q, 1).unwrap();
    // Both columns and the selector: below all of them.
    layouter.assign_region("a and b and q");
    layouter.assign_advice(a, 0, None).unwrap();
    layouter.assign_advice(b, 0, None).unwrap();
    layouter.enable(q, 0).unwrap();
    // An empty region takes no rows.
    layouter.assign_region("empty");
    // Column a again: below the region before the last.
    layouter.assign_region("a again");
    layouter.assign_advice(a, 0, None).unwrap();
    assert_eq!(layouter.region_starts(), Some(vec![0, 0, 0, 5, 0, 6]));
}

#[test]
fn there_is_no_placement_beyond_the_last_row() {
    let mut cs = ConstraintSystem::new();
    let a = cs.advice_column();
    let mut layouter = Layouter::new(cs, vec![]);
    layouter.assign_region("deep");
    layouter.assign_advice(a, usize::MAX - 1, None).unwrap();
    assert_eq!(layouter.region_starts(), Some(vec![0]));
    layouter.assign_region("deeper");
    layouter.assign_advice(a, 0, None).unwrap();
    assert_eq!(layouter.region_starts(), None);

    let mut cs = ConstraintSystem::new();
    let a = cs.advice_column();
    let mut layouter = Layouter::new(cs, vec![]);
    layouter.assign_region("too deep");
    layouter.assign_advice(a, usize::MAX, None).unwrap();
    assert_eq!(layouter.region_starts(), None);
}
