use std::collections::HashMap;
use std::marker::PhantomData;

use halo2_proofs::circuit::Cell as HCell;
use halo2_proofs::circuit::Layouter as HLayouter;
use halo2_proofs::circuit::SimpleFloorPlanner;
use halo2_proofs::circuit::Value as HValue;
use halo2_proofs::dev::FailureLocation;
use halo2_proofs::dev::MockProver;
use halo2_proofs::dev::VerifyFailure as HFailure;
use halo2_proofs::pasta::Fp;
use halo2_proofs::plonk::Advice;
use halo2_proofs::plonk::Any;
use halo2_proofs::plonk::Circuit;
use halo2_proofs::plonk::Column as HColumn;
use halo2_proofs::plonk::ConstraintSystem as HShape;
use halo2_proofs::plonk::Error as HError;
use halo2_proofs::plonk::Expression as HExpression;
use halo2_proofs::plonk::Fixed;
use halo2_proofs::plonk::Instance;
use halo2_proofs::plonk::Selector as HSelector;
use halo2_proofs::plonk::TableColumn as HTableColumn;
use halo2_proofs::plonk::VirtualCells;
use halo2_proofs::poly::Rotation as HRotation;

use plonkish_gadgets::circuit::Cell;
use plonkish_gadgets::circuit::CopyConstraint;
use plonkish_gadgets::circuit::Layouter;
use plonkish_gadgets::circuits::fib_1::FibonacciCircuit1;
use plonkish_gadgets::circuits::fib_2::FibonacciCircuit2;
use plonkish_gadgets::circuits::fib_3::FibonacciCircuit3;
use plonkish_gadgets::circuits::range_check_1::RangeCheckCircuit1;
use plonkish_gadgets::circuits::range_check_2::RangeCheckCircuit2;
use plonkish_gadgets::circuits::range_check_3::RangeCheckCircuit3;
use plonkish_gadgets::circuits::range_check_4::RangeCheckDecomposeCircuit;
use plonkish_gadgets::dev::verify;
use plonkish_gadgets::field::Felt;
use plonkish_gadgets::plonk::Column;
use plonkish_gadgets::plonk::ConstraintSystem;
use plonkish_gadgets::plonk::Expression;

/// The field element of the proving system that a library element stands
/// for.
pub fn to_fp(value: &Felt) -> Fp {
    Fp::from_raw(value.limbs())
}

/// The shape of a circuit, known from its type alone: the proving system
/// configures a circuit without a value of it at hand.
pub trait Blueprint {
    fn shape() -> ConstraintSystem;
}

/// A fixed column of the proving system, by its use.
#[derive(Clone, Debug)]
pub enum FixedKind {
    Plain(HColumn<Fixed>),
    Table(HTableColumn),
}

/// The columns and selectors of the proving system that stand for those of
/// a shape, index by index.
#[derive(Clone, Debug)]
pub struct Columns {
    pub advice: Vec<HColumn<Advice>>,
    pub fixed: Vec<FixedKind>,
    pub instance: Vec<HColumn<Instance>>,
    pub selectors: Vec<HSelector>,
}

/// The polynomial of the proving system that stands for a polynomial of
/// the library.
pub fn convert(
    expr: &Expression,
    cells: &mut VirtualCells<'_, Fp>,
    columns: &Columns,
) -> HExpression<Fp> {
    match expr {
        Expression::Constant(c) => HExpression::Constant(to_fp(c)),
        Expression::Selector(s) => cells.query_selector(columns.selectors[s.index]),
        Expression::Advice { column, rotation } => {
            cells.query_advice(columns.advice[column.index], HRotation(rotation.0))
        }
        Expression::Negated(a) => -convert(a, cells, columns),
        Expression::Sum(a, b) => convert(a, cells, columns) + convert(b, cells, columns),
        Expression::Product(a, b) => convert(a, cells, columns) * convert(b, cells, columns),
        Expression::Scaled(a, c) => convert(a, cells, columns) * to_fp(c),
    }
}

/// Declares a shape in the proving system: the columns and selectors in
/// their order, then the polynomials of the gates and the inputs of the
/// lookup arguments as the library hands them out.
pub fn declare(shape: &ConstraintSystem, meta: &mut HShape<Fp>) -> Columns {
    let advice = (0..shape.num_advice_columns)
        .map(|_| meta.advice_column())
        .collect();
    let fixed = shape
        .fixed_columns
        .iter()
        .map(|is_table| {
            if *is_table {
                FixedKind::Table(meta.lookup_table_column())
            } else {
                FixedKind::Plain(meta.fixed_column())
            }
        })
        .collect();
    let instance = (0..shape.num_instance_columns)
        .map(|_| meta.instance_column())
        .collect();
    let selectors = shape
        .selectors
        .iter()
        .map(|simple| {
            if *simple {
                meta.selector()
            } else {
                meta.complex_selector()
            }
        })
        .collect();
    let columns = Columns {
        advice,
        fixed,
        instance,
        selectors,
    };
    for column in shape.equality.iter() {
        match column {
            Column::Advice(c) => meta.enable_equality(columns.advice[c.index]),
            Column::Instance(c) => meta.enable_equality(columns.instance[c.index]),
            Column::Fixed(c) => {
                if let FixedKind::Plain(f) = &columns.fixed[c.index] {
                    meta.enable_equality(*f)
                }
            }
        }
    }
    for column in shape.constants.iter() {
        if let FixedKind::Plain(f) = &columns.fixed[column.index] {
            meta.enable_constant(*f)
        }
    }
    for gate in shape.gates.iter() {
        if gate.constraints.is_empty() {
            continue;
        }
        meta.create_gate(gate.name, |cells| {
            let constraints: Vec<(&'static str, HExpression<Fp>)> = gate
                .constraints
                .iter()
                .zip(gate.polynomials().iter())
                .map(|(c, poly)| (c.name, convert(poly, cells, &columns)))
                .collect();
            constraints
        });
    }
    for lookup in shape.lookups.iter() {
        meta.lookup(|cells| {
            let mut pairs = Vec::new();
            for (entry, input) in lookup.entries.iter().zip(lookup.inputs().iter()) {
                if let FixedKind::Table(table) = &columns.fixed[entry.table.index] {
                    pairs.push((convert(input, cells, &columns), *table));
                }
            }
            pairs
        });
    }
    columns
}

/// A pass of the library, to be laid out again in the proving system.
#[derive(Clone, Debug)]
pub struct Replay<B: Blueprint> {
    pub pass: Layouter,
    /// Whether the values of the pass are handed on, or only its layout.
    pub known: bool,
    pub marker: PhantomData<B>,
}

impl<B: Blueprint> Replay<B> {
    pub fn new(pass: Layouter) -> Self {
        Replay {
            pass,
            known: true,
            marker: PhantomData,
        }
    }
}

type Key = (usize, usize, usize);

fn key(cell: &Cell) -> Key {
    (cell.region_index, cell.column.index, cell.row_offset)
}

fn find(cell: &Cell, before: &HashMap<Key, HCell>, here: &[(Key, HCell)]) -> Result<HCell, HError> {
    let wanted = key(cell);
    if let Some((_, found)) = here.iter().find(|(k, _)| *k == wanted) {
        return Ok(*found);
    }
    before.get(&wanted).copied().ok_or(HError::Synthesis)
}

impl<B: Blueprint> Circuit<Fp> for Replay<B> {
    type Config = Columns;
    type FloorPlanner = SimpleFloorPlanner;

    fn without_witnesses(&self) -> Self {
        Replay {
            pass: self.pass.clone(),
            known: false,
            marker: PhantomData,
        }
    }

    fn configure(meta: &mut HShape<Fp>) -> Self::Config {
        declare(&B::shape(), meta)
    }

    fn synthesize(
        &self,
        config: Self::Config,
        mut layouter: impl HLayouter<Fp>,
    ) -> Result<(), HError> {
        let pass = &self.pass;
        let mut cells: HashMap<Key, HCell> = HashMap::new();
        for index in 0..pass.num_regions() {
            let region = pass.region(index);
            let table = pass
                .opened_tables()
                .iter()
                .position(|t| t.region_index == index);
            if let Some(table_index) = table {
                layouter.assign_table(
                    || region.name,
                    |mut table| {
                        for c in 0..pass.num_table_columns() {
                            let column = pass.table_column(c);
                            if column.table_index != table_index {
                                continue;
                            }
                            let target = match &config.fixed[column.column.index] {
                                FixedKind::Table(t) => *t,
                                FixedKind::Plain(_) => return Err(HError::Synthesis),
                            };
                            for (offset, v) in column.values.iter().enumerate() {
                                table.assign_cell(
                                    || "table cell",
                                    target,
                                    offset,
                                    || HValue::known(to_fp(v)),
                                )?;
                            }
                        }
                        Ok(())
                    },
                )?;
                continue;
            }
            let assigned = layouter.assign_region(
                || region.name,
                |mut r| {
                    let mut here: Vec<(Key, HCell)> = Vec::new();
                    for (selector, row) in region.enabled.iter() {
                        config.selectors[selector.index].enable(&mut r, *row)?;
                    }
                    for c in region.cells.iter() {
                        let value = match (self.known, c.value) {
                            (true, Some(v)) => HValue::known(to_fp(&v)),
                            _ => HValue::unknown(),
                        };
                        let assigned = r.assign_advice(
                            || "cell",
                            config.advice[c.cell.column.index],
                            c.cell.row_offset,
                            || value,
                        )?;
                        here.push((key(&c.cell), assigned.cell()));
                    }
                    for constraint in region.constraints.iter() {
                        match constraint {
                            CopyConstraint::Equal { left, right } => r.constrain_equal(
                                find(left, &cells, &here)?,
                                find(right, &cells, &here)?,
                            )?,
                            CopyConstraint::Constant { cell, constant } => {
                                r.constrain_constant(find(cell, &cells, &here)?, to_fp(constant))?
                            }
                            CopyConstraint::Instance { .. } => {}
                        }
                    }
                    Ok(here)
                },
            )?;
            cells.extend(assigned);
            for constraint in region.constraints.iter() {
                if let CopyConstraint::Instance { cell, column, row } = constraint {
                    layouter.constrain_instance(
                        find(cell, &cells, &[])?,
                        config.instance[column.index],
                        *row,
                    )?;
                }
            }
        }
        Ok(())
    }
}

struct Fib1;

impl Blueprint for Fib1 {
    fn shape() -> ConstraintSystem {
        let mut cs = ConstraintSystem::new();
        FibonacciCircuit1::configure(&mut cs);
        cs
    }
}

struct Fib2;

impl Blueprint for Fib2 {
    fn shape() -> ConstraintSystem {
        let mut cs = ConstraintSystem::new();
        FibonacciCircuit2::configure(&mut cs);
        cs
    }
}

struct Fib3;

impl Blueprint for Fib3 {
    fn shape() -> ConstraintSystem {
        let mut cs = ConstraintSystem::new();
        FibonacciCircuit3::configure(&mut cs);
        cs
    }
}

struct Range1<const RANGE: usize>;

impl<const RANGE: usize> Blueprint for Range1<RANGE> {
    fn shape() -> ConstraintSystem {
        let mut cs = ConstraintSystem::new();
        RangeCheckCircuit1::configure(&mut cs, RANGE);
        cs
    }
}

struct Range2<const RANGE: usize, const LOOKUP_RANGE: usize>;

impl<const RANGE: usize, const LOOKUP_RANGE: usize> Blueprint for Range2<RANGE, LOOKUP_RANGE> {
    fn shape() -> ConstraintSystem {
        let mut cs = ConstraintSystem::new();
        RangeCheckCircuit2::configure(&mut cs, RANGE, LOOKUP_RANGE);
        cs
    }
}

struct Range3<const LOOKUP_RANGE: usize, const NUM_BITS: usize>;

impl<const LOOKUP_RANGE: usize, const NUM_BITS: usize> Blueprint for Range3<LOOKUP_RANGE, NUM_BITS> {
    fn shape() -> ConstraintSystem {
        let mut cs = ConstraintSystem::new();
        RangeCheckCircuit3::configure(&mut cs, LOOKUP_RANGE, NUM_BITS);
        cs
    }
}

struct Decompose<const NUM_BITS: usize, const RANGE: usize>;

impl<const NUM_BITS: usize, const RANGE: usize> Blueprint for Decompose<NUM_BITS, RANGE> {
    fn shape() -> ConstraintSystem {
        let mut cs = ConstraintSystem::new();
        RangeCheckDecomposeCircuit::configure(&mut cs, NUM_BITS, RANGE);
        cs
    }
}

fn prove<B: Blueprint>(pass: Layouter, k: u32, instance: Vec<Vec<Fp>>) -> Result<(), Vec<HFailure>> {
    let circuit = Replay::<B>::new(pass);
    MockProver::run(k, &circuit, instance).unwrap().verify()
}

fn felts(values: &[u64]) -> Vec<Felt> {
    values.iter().map(|v| Felt::from_u64(*v)).collect()
}

fn fps(values: &[u64]) -> Vec<Fp> {
    values.iter().map(|v| Fp::from(*v)).collect()
}

#[test]
fn fib_1_on_the_proving_system() {
    let pass = FibonacciCircuit1 {}.run(felts(&[1, 1, 55])).unwrap();
    assert_eq!(verify(&pass), Ok(()));
    assert_eq!(prove::<Fib1>(pass, 4, vec![fps(&[1, 1, 55])]), Ok(()));

    let pass = FibonacciCircuit1 {}.run(felts(&[1, 1, 56])).unwrap();
    assert!(verify(&pass).is_err());
    assert!(prove::<Fib1>(pass, 4, vec![fps(&[1, 1, 56])]).is_err());
}

#[test]
fn fib_2_on_the_proving_system() {
    let pass = FibonacciCircuit2 {}.run(felts(&[1, 1, 55])).unwrap();
    assert_eq!(verify(&pass), Ok(()));
    assert_eq!(prove::<Fib2>(pass, 4, vec![fps(&[1, 1, 55])]), Ok(()));

    let pass = FibonacciCircuit2 {}.run(felts(&[1, 1, 56])).unwrap();
    assert!(verify(&pass).is_err());
    assert!(prove::<Fib2>(pass, 4, vec![fps(&[1, 1, 56])]).is_err());
}

#[test]
fn fib_3_on_the_proving_system() {
    let pass = FibonacciCircuit3 {}.run(felts(&[1, 1, 55])).unwrap();
    assert_eq!(verify(&pass), Ok(()));
    assert_eq!(prove::<Fib3>(pass, 4, vec![fps(&[1, 1, 55])]), Ok(()));

    let pass = FibonacciCircuit3 {}.run(felts(&[1, 1, 56])).unwrap();
    assert!(verify(&pass).is_err());
    assert!(prove::<Fib3>(pass, 4, vec![fps(&[1, 1, 56])]).is_err());
}

#[test]
fn range_check_1_on_the_proving_system() {
    let k = 4;
    const RANGE: usize = 8; // 3-bit value

    for i in 0..RANGE {
        let circuit = RangeCheckCircuit1 {
            value: Some(Felt::from_u64(i as u64)),
            range: RANGE,
        };
        assert_eq!(prove::<Range1<RANGE>>(circuit.run().unwrap(), k, vec![]), Ok(()));
    }

    let testvalue: u64 = 22;
    let circuit = RangeCheckCircuit1 {
        value: Some(Felt::from_u64(testvalue)),
        range: RANGE,
    };
    assert_eq!(
        prove::<Range1<RANGE>>(circuit.run().unwrap(), k, vec![]),
        Err(vec![HFailure::ConstraintNotSatisfied {
            constraint: ((0, "Range Check").into(), 0, "range check").into(),
            location: FailureLocation::InRegion {
                region: (0, "Assign value").into(),
                offset: 0
            },
            cell_values: vec![(((Any::Advice, 0).into(), 0).into(), "0x16".to_string())]
        }])
    );
}

#[test]
fn range_check_2_on_the_proving_system() {
    let k = 9;
    const RANGE: usize = 8; // 3-bit value
    const LOOKUP_RANGE: usize = 256; // 8-bit value

    for i in 0..RANGE {
        for j in [0usize, 1, 7, 8, 100, 255] {
            let circuit = RangeCheckCircuit2 {
                value: Some(Felt::from_u64(i as u64)),
                lookup_value: Some(Felt::from_u64(j as u64)),
                range: RANGE,
                lookup_table_range: LOOKUP_RANGE,
            };
            assert_eq!(
                prove::<Range2<RANGE, LOOKUP_RANGE>>(circuit.run().unwrap(), k, vec![]),
                Ok(())
            );
        }
    }

    let circuit = RangeCheckCircuit2 {
        value: Some(Felt::from_u64(RANGE as u64)),
        lookup_value: Some(Felt::from_u64(LOOKUP_RANGE as u64)),
        range: RANGE,
        lookup_table_range: LOOKUP_RANGE,
    };
    assert_eq!(
        prove::<Range2<RANGE, LOOKUP_RANGE>>(circuit.run().unwrap(), k, vec![]),
        Err(vec![
            HFailure::ConstraintNotSatisfied {
                constraint: ((0, "Range Check").into(), 0, "range check").into(),
                location: FailureLocation::InRegion {
                    region: (1, "Assign simple").into(),
                    offset: 0
                },
                cell_values: vec![(((Any::Advice, 0).into(), 0).into(), "0x8".to_string())]
            },
            HFailure::Lookup {
                lookup_index: 0,
                location: FailureLocation::InRegion {
                    region: (2, "Assign lookup table").into(),
                    offset: 0
                }
            }
        ])
    );
}

#[test]
fn range_check_3_on_the_proving_system() {
    let k = 9;
    const NUM_BITS: usize = 8; // 8-bit value
    const LOOKUP_RANGE: usize = 256; // 8-bit value

    for num_bits_lookup in 1u8..=NUM_BITS.try_into().unwrap() {
        for value_lookup in [1u64 << (num_bits_lookup - 1), (1u64 << num_bits_lookup) - 1] {
            let circuit = RangeCheckCircuit3 {
                num_bits: Some(num_bits_lookup),
                value: Some(Felt::from_u64(value_lookup)),
                lookup_table_range: LOOKUP_RANGE,
                max_bits: NUM_BITS,
            };
            assert_eq!(
                prove::<Range3<LOOKUP_RANGE, NUM_BITS>>(circuit.run().unwrap(), k, vec![]),
                Ok(())
            );
        }
    }

    let circuit = RangeCheckCircuit3 {
        num_bits: Some(NUM_BITS.try_into().unwrap()),
        value: Some(Felt::from_u64(NUM_BITS as u64)),
        lookup_table_range: LOOKUP_RANGE,
        max_bits: NUM_BITS,
    };
    assert_eq!(
        prove::<Range3<LOOKUP_RANGE, NUM_BITS>>(circuit.run().unwrap(), k, vec![]),
        Err(vec![HFailure::Lookup {
            lookup_index: 0,
            location: FailureLocation::InRegion {
                region: (1, "Assign lookup table").into(),
                offset: 0
            }
        }])
    );
}

#[test]
fn decompose_on_the_proving_system() {
    let k = 11;
    const NUM_BITS: usize = 10;
    const RANGE: usize = 1024; // 10-bit value

    let value: u64 = rand::random();
    let circuit = RangeCheckDecomposeCircuit {
        value: Some(Felt::from_u64(value)),
        num_bits: 64,
        lookup_num_bits: NUM_BITS,
        lookup_range: RANGE,
    };
    assert_eq!(
        prove::<Decompose<NUM_BITS, RANGE>>(circuit.run().unwrap(), k, vec![]),
        Ok(())
    );
}

#[test]
fn decompose_agrees_with_the_proving_system() {
    let k = 11;
    const NUM_BITS: usize = 10;
    const RANGE: usize = 1024;

    let cases: [(u64, usize); 12] = [
        (0, 8),
        (255, 8),
        (256, 8),
        (0, 10),
        (1023, 10),
        (1024, 10),
        (0, 64),
        (u64::MAX, 64),
        (u64::MAX, 63),
        (1 << 20, 20),
        ((1 << 20) - 1, 20),
        (12345, 0),
    ];
    for (value, num_bits) in cases {
        let circuit = RangeCheckDecomposeCircuit {
            value: Some(Felt::from_u64(value)),
            num_bits,
            lookup_num_bits: NUM_BITS,
            lookup_range: RANGE,
        };
        let pass = circuit.run().unwrap();
        let fits = num_bits >= 64 || value < (1u64 << num_bits);
        assert_eq!(verify(&pass).is_ok(), fits, "{} in {} bits", value, num_bits);
        assert_eq!(
            prove::<Decompose<NUM_BITS, RANGE>>(pass, k, vec![]).is_ok(),
            fits,
            "{} in {} bits",
            value,
            num_bits
        );
    }
}
