use plonkish_gadgets::chips::fib_1::FibonacciChip as Chip1;
use plonkish_gadgets::chips::fib_1::FibonacciConfig as Config1;
use plonkish_gadgets::chips::fib_2::FibonacciChip as Chip2;
use plonkish_gadgets::chips::fib_3::FibonacciChip as Chip3;
use plonkish_gadgets::chips::range_check_1::RangeCheckChip as RangeChip1;
use plonkish_gadgets::chips::range_check_2::RangeCheckChip as RangeChip2;
use plonkish_gadgets::chips::range_check_2::RangeConstrained;
use plonkish_gadgets::chips::range_check_3::RangeCheckChip as RangeChip3;
use plonkish_gadgets::circuit::Error;
use plonkish_gadgets::circuit::Layouter;
use plonkish_gadgets::circuits::fib_1::FibonacciCircuit1;
use plonkish_gadgets::circuits::fib_2::FibonacciCircuit2;
use plonkish_gadgets::circuits::fib_3::FibonacciCircuit3;
use plonkish_gadgets::dev::verify;
use plonkish_gadgets::field::Felt;
use plonkish_gadgets::plonk::Column;
use plonkish_gadgets::plonk::ConstraintSystem;
use plonkish_gadgets::plonk::Expression;
use plonkish_gadgets::plonk::Rotation;

/// The limbs of the modulus minus one.
const MINUS_ONE: [u64; 4] = [
    0x992d30ed00000000,
    0x224698fc094cf91b,
    0x0000000000000000,
    0x4000000000000000,
];

fn inputs(values: &[u64]) -> Vec<Felt> {
    values.iter().map(|v| Felt::from_u64(*v)).collect()
}

#[test]
fn the_recurrence_from_other_seeds() {
    // 2, 3, 5, 8, 13, 21, 34, 55, 89, 144
    for claim in [143u64, 144, 145] {
        let expected = claim == 144;
        let pass = FibonacciCircuit1 {}.run(inputs(&[2, 3, claim])).unwrap();
        assert_eq!(verify(&pass).is_ok(), expected);
        let pass = FibonacciCircuit2 {}.run(inputs(&[2, 3, claim])).unwrap();
        assert_eq!(verify(&pass).is_ok(), expected);
        let pass = FibonacciCircuit3 {}.run(inputs(&[2, 3, claim])).unwrap();
        assert_eq!(verify(&pass).is_ok(), expected);
    }
}

#[test]
fn the_recurrence_wraps_around_the_modulus() {
    // -1, 1, 0, 1, 1, 2, 3, 5, 8, 13
    let seeds = vec![
        Felt::from_limbs(MINUS_ONE).unwrap(),
        Felt::from_u64(1),
        Felt::from_u64(13),
    ];
    assert_eq!(verify(&FibonacciCircuit1 {}.run(seeds.clone()).unwrap()), Ok(()));
    assert_eq!(verify(&FibonacciCircuit2 {}.run(seeds.clone()).unwrap()), Ok(()));
    assert_eq!(verify(&FibonacciCircuit3 {}.run(seeds).unwrap()), Ok(()));
}

#[test]
fn the_shape_of_a_recurrence() {
    let mut cs = ConstraintSystem::new();
    let config = FibonacciCircuit1::configure(&mut cs);
    assert_eq!(cs.num_advice_columns, 3);
    assert_eq!(cs.num_instance_columns, 1);
    assert_eq!(cs.selectors, vec![true]);
    assert_eq!(
        cs.equality,
        vec![
            Column::Advice(config.advice[0]),
            Column::Advice(config.advice[1]),
            Column::Advice(config.advice[2]),
            Column::Instance(config.instance),
        ]
    );
    assert_eq!(cs.gates.len(), 1);
    let gate = &cs.gates[0];
    assert_eq!(gate.name, "fibonacci");
    assert_eq!(gate.selector, config.selector);
    assert_eq!(gate.constraints.len(), 1);
    let cell = |k: usize| Expression::Advice {
        column: config.advice[k],
        rotation: Rotation(0),
    };
    // a + b - c
    assert_eq!(gate.constraints[0].poly, cell(0).plus(cell(1)).minus(cell(2)));
    // With its selector: s * (a + b - c)
    assert_eq!(
        gate.polynomials(),
        vec![Expression::Selector(config.selector).times(cell(0).plus(cell(1)).minus(cell(2)))]
    );
    assert_eq!(Chip1::construct(config).config, config);
}

#[test]
fn a_recurrence_needs_two_public_inputs() {
    let mut cs = ConstraintSystem::new();
    let config = FibonacciCircuit3::configure(&mut cs);
    let chip = Chip3::construct(config);
    let mut layouter = Layouter::new(cs.clone(), vec![vec![Felt::one()]]);
    assert_eq!(chip.assign(&mut layouter, 10), Err(Error::BoundsFailure));
    let mut layouter = Layouter::new(cs.clone(), vec![]);
    assert_eq!(chip.assign(&mut layouter, 10), Err(Error::BoundsFailure));
    let mut layouter = Layouter::new(cs, vec![inputs(&[1, 1])]);
    let out = chip.assign(&mut layouter, 10).unwrap();
    assert_eq!(out.value, Some(Felt::from_u64(55)));
    assert_eq!(out.cell.row_offset, 9);
    // There is no third public input to bind the last cell to.
    assert_eq!(chip.expose_public(&mut layouter, &out, 2), Err(Error::BoundsFailure));
    assert_eq!(chip.expose_public(&mut layouter, &out, 1), Ok(()));
}

#[test]
fn short_recurrences() {
    let mut cs = ConstraintSystem::new();
    let config = FibonacciCircuit2::configure(&mut cs);
    let chip = Chip2::construct(config);
    for (nrows, rows, last, enabled) in [(0usize, 1usize, 1u64, 1usize), (1, 1, 1, 1), (2, 2, 2, 1), (3, 3, 3, 2)] {
        let mut layouter = Layouter::new(cs.clone(), vec![inputs(&[1, 1])]);
        let out = chip.assign(&mut layouter, nrows).unwrap();
        assert_eq!(out.cell.row_offset, rows - 1);
        assert_eq!(out.value, Some(Felt::from_u64(last)));
        assert_eq!(layouter.region(0).cells.len(), 2 * rows);
        assert_eq!(layouter.region(0).enabled.len(), enabled);
    }

    let mut cs = ConstraintSystem::new();
    let config = FibonacciCircuit3::configure(&mut cs);
    let chip = Chip3::construct(config);
    for (nrows, rows, last, enabled) in [(0usize, 2usize, 1u64, 2usize), (2, 2, 1, 2), (3, 3, 2, 2), (5, 5, 5, 3)] {
        let mut layouter = Layouter::new(cs.clone(), vec![inputs(&[1, 1])]);
        let out = chip.assign(&mut layouter, nrows).unwrap();
        assert_eq!(out.cell.row_offset, rows - 1);
        assert_eq!(out.value, Some(Felt::from_u64(last)));
        assert_eq!(layouter.region(0).cells.len(), rows);
        assert_eq!(layouter.region(0).enabled.len(), enabled);
    }
}

#[test]
fn a_gadget_over_one_column_twice_fails() {
    let mut cs = ConstraintSystem::new();
    let a = cs.advice_column();
    let instance = cs.instance_column();
    let config = Chip1::configure(&mut cs, [a, a, a], instance);
    assert_eq!(config, Config1 { advice: [a, a, a], instance, selector: config.selector });
    let chip = Chip1::construct(config);
    let mut layouter = Layouter::new(cs.clone(), vec![inputs(&[1, 1, 2])]);
    assert_eq!(chip.assign_first_row(&mut layouter).err(), Some(Error::CellAlreadyAssigned));

    let config = Chip2::configure(&mut cs, [a, a], instance);
    let mut layouter = Layouter::new(cs.clone(), vec![inputs(&[1, 1, 2])]);
    assert_eq!(
        Chip2::construct(config).assign(&mut layouter, 9),
        Err(Error::CellAlreadyAssigned)
    );

    let config = RangeChip3::configure(&mut cs, a, a, 4, 2);
    let mut layouter = Layouter::new(cs, vec![]);
    assert_eq!(
        RangeChip3::construct(config)
            .assign_lookup_table(&mut layouter, Some(Felt::one()), Some(1))
            .err(),
        Some(Error::CellAlreadyAssigned)
    );
}

#[test]
fn gadgets_in_a_shape_of_another_circuit() {
    let mut cs = ConstraintSystem::new();
    let a = cs.advice_column();
    let config1 = RangeChip1::configure(&mut cs, a, 8);
    let config2 = RangeChip2::configure(&mut cs, a, 8, 16);
    let bare = ConstraintSystem::new();

    let mut layouter = Layouter::new(bare.clone(), vec![]);
    assert_eq!(
        RangeChip1::construct(config1).assign(&mut layouter, Some(Felt::one())),
        Err(Error::SelectorNotDeclared)
    );
    assert_eq!(
        RangeChip2::construct(config2).assign_simple(&mut layouter, None).err(),
        Some(Error::SelectorNotDeclared)
    );
    assert_eq!(
        RangeChip2::construct(config2)
            .assign_lookup_table(&mut layouter, None)
            .err(),
        Some(Error::SelectorNotDeclared)
    );
    // Every attempt opened a region.
    assert_eq!(layouter.num_regions(), 3);

    // A shape with the selectors but without the column.
    let mut half = ConstraintSystem::new();
    half.selector();
    half.selector();
    half.complex_selector();
    let mut layouter = Layouter::new(half, vec![]);
    assert_eq!(
        RangeChip1::construct(config1).assign(&mut layouter, Some(Felt::one())),
        Err(Error::ColumnNotDeclared)
    );
    assert_eq!(
        RangeChip2::construct(config2)
            .assign_lookup_table(&mut layouter, None)
            .err(),
        Some(Error::ColumnNotDeclared)
    );

    // In its own shape the gadget hands the cell back.
    let mut layouter = Layouter::new(cs, vec![]);
    let RangeConstrained(cell) = RangeChip2::construct(config2)
        .assign_simple(&mut layouter, Some(Felt::from_u64(5)))
        .unwrap();
    assert_eq!(cell.value, Some(Felt::from_u64(5)));
    assert_eq!(cell.cell.region_index, 0);
    assert_eq!(layouter.region(0).name, "Assign simple");
    assert_eq!(layouter.region(0).enabled, vec![(config2.q_range_check, 0)]);
}

#[test]
fn the_inputs_of_a_lookup_with_their_defaults() {
    let mut cs = ConstraintSystem::new();
    let a = cs.advice_column();
    let b = cs.advice_column();
    let config = RangeChip3::configure(&mut cs, a, b, 4, 2);
    let lookup = &cs.lookups[0];
    assert_eq!(lookup.selector, config.q_lookup);
    let q = || Expression::Selector(config.q_lookup);
    let one = || Expression::Constant(Felt::one());
    let blend = |column, default: u64| {
        q().times(Expression::Advice { column, rotation: Rotation(0) })
            .plus(one().minus(q()).times(Expression::Constant(Felt::from_u64(default))))
    };
    // q * num_bits + (1 - q) * 1 and q * value + (1 - q) * 0
    assert_eq!(lookup.inputs(), vec![blend(a, 1), blend(b, 0)]);
}
