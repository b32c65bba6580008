//! The Fibonacci recurrence in two advice columns: each row holds `a` and
//! `b`, and their sum `c` is the `b` of the next row.

use crate::circuit::instance_value;
use crate::circuit::lemma_find_cell_none;
use crate::circuit::value_add;
use crate::circuit::AssignedCell;
use crate::circuit::Cell;
use crate::circuit::CopyConstraint;
use crate::circuit::Error;
use crate::circuit::Layouter;
use crate::circuit::RegionView;
use crate::field::Felt;
use crate::plonk::with_equality;
use crate::plonk::AdviceColumn;
use crate::plonk::Column;
use crate::plonk::Constraint;
use crate::plonk::ConstraintSystem;
use crate::plonk::Expression;
use crate::plonk::GateView;
use crate::plonk::InstanceColumn;
use crate::plonk::Rotation;
use crate::plonk::Selector;
use crate::recurrence::fibonacci;
use vstd::prelude::*;

verus! {

/// The columns and the selector of the gadget.
#[derive(Clone, Copy, Debug, PartialEq, Eq)]
pub struct FibonacciConfig {
    pub advice: [AdviceColumn; 2],
    pub instance: InstanceColumn,
    pub selector: Selector,
}

/// The gadget.
///
/// ```text
/// | col_a | col_b | selector |
/// |-------|-------|----------|
/// |   a   |   b   |    s     |
/// |       |   c   |          |
/// ```
#[derive(Clone, Copy, Debug, PartialEq, Eq)]
pub struct FibonacciChip {
    pub config: FibonacciConfig,
}

/// The polynomial `a + b - c` over two columns: `a` and `b` are read on
/// the row, `c` in the column of `b` on the next row.
pub open spec fn fibonacci_expression(a: AdviceColumn, b: AdviceColumn) -> Expression {
    (Expression::Advice { column: a, rotation: Rotation(0) }).spec_plus(
        Expression::Advice { column: b, rotation: Rotation(0) },
    ).spec_minus(Expression::Advice { column: b, rotation: Rotation(1) })
}

impl FibonacciConfig {
    /// The gadget's only gate, `a + b - c = 0`.
    pub open spec fn gate(&self) -> GateView {
        GateView {
            name: "fibonacci",
            selector: self.selector,
            constraints: seq![
                Constraint { name: "", poly: fibonacci_expression(self.advice[0], self.advice[1]) },
            ],
        }
    }

    /// The number of rows that the region has: at least one.
    pub open spec fn num_rows(nrows: usize) -> nat {
        if nrows >= 1 {
            nrows as nat
        } else {
            1
        }
    }

    /// The cells of the region in the order of their assignment: `a` and
    /// `b` on row 0, then on each further row first `b`, then `a`. Row `r`
    /// holds terms `r` and `r + 1` of the recurrence over the public inputs.
    pub open spec fn region_cell(
        &self,
        region_index: usize,
        instance: Seq<Seq<Felt>>,
        i: int,
    ) -> AssignedCell {
        let a = instance_value(instance, self.instance, 0);
        let b = instance_value(instance, self.instance, 1);
        let row = i / 2;
        if (i == 0) || (i >= 2 && i % 2 == 1) {
            AssignedCell {
                cell: Cell { region_index, column: self.advice[0], row_offset: row as usize },
                value: fibonacci(a, b, row as nat),
            }
        } else {
            AssignedCell {
                cell: Cell { region_index, column: self.advice[1], row_offset: row as usize },
                value: fibonacci(a, b, (row + 1) as nat),
            }
        }
    }

    /// The number of rows on which the selector is enabled: all but the
    /// last, and row 0 in any case.
    pub open spec fn num_enabled(nrows: usize) -> nat {
        if nrows >= 2 {
            (nrows - 1) as nat
        } else {
            1
        }
    }

    /// The region of the gadget for `nrows` rows.
    pub open spec fn region(
        &self,
        region_index: usize,
        instance: Seq<Seq<Felt>>,
        nrows: usize,
    ) -> RegionView {
        RegionView {
            name: "entire fibonacci table",
            cells: Seq::new(
                2 * Self::num_rows(nrows),
                |i: int| self.region_cell(region_index, instance, i),
            ),
            enabled: Seq::new(Self::num_enabled(nrows), |row: int| (self.selector, row as usize)),
            constraints: seq![
                CopyConstraint::Instance {
                    cell: Cell { region_index, column: self.advice[0], row_offset: 0 },
                    column: self.instance,
                    row: 0,
                },
                CopyConstraint::Instance {
                    cell: Cell { region_index, column: self.advice[1], row_offset: 0 },
                    column: self.instance,
                    row: 1,
                },
            ],
        }
    }

    /// The last cell of the column of `b`.
    pub open spec fn output(
        &self,
        region_index: usize,
        instance: Seq<Seq<Felt>>,
        nrows: usize,
    ) -> AssignedCell {
        let last = Self::num_rows(nrows) - 1;
        AssignedCell {
            cell: Cell { region_index, column: self.advice[1], row_offset: last as usize },
            value: fibonacci(
                instance_value(instance, self.instance, 0),
                instance_value(instance, self.instance, 1),
                (last + 1) as nat,
            ),
        }
    }

    /// What keeps the gadget from being laid out, if anything does.
    pub open spec fn assign_error(&self, layouter: &Layouter) -> Option<Error> {
        let cs = layouter.cs();
        let a = self.advice[0];
        let b = self.advice[1];
        if !cs.has_selector(self.selector) {
            Some(Error::SelectorNotDeclared)
        } else if !cs.has_advice(a) {
            Some(Error::ColumnNotDeclared)
        } else if instance_value(layouter.instance(), self.instance, 0) is None {
            Some(Error::BoundsFailure)
        } else if !cs.equality_enabled(Column::Advice(a)) || !cs.equality_enabled(
            Column::Instance(self.instance),
        ) {
            Some(Error::ColumnNotInPermutation)
        } else if !cs.has_advice(b) {
            Some(Error::ColumnNotDeclared)
        } else if b == a {
            Some(Error::CellAlreadyAssigned)
        } else if instance_value(layouter.instance(), self.instance, 1) is None {
            Some(Error::BoundsFailure)
        } else if !cs.equality_enabled(Column::Advice(b)) {
            Some(Error::ColumnNotInPermutation)
        } else {
            None
        }
    }
}

impl FibonacciChip {
    /// The gadget over a configuration.
    pub fn construct(config: FibonacciConfig) -> (r: Self)
        ensures
            r.config == config,
    {
        FibonacciChip { config }
    }

    /// Declares the gadget in a circuit's shape: a selector, equality on
    /// the two advice columns and on the instance column, and a gate for
    /// `a + b - c = 0`.
    pub fn configure(
        meta: &mut ConstraintSystem,
        advice: [AdviceColumn; 2],
        instance: InstanceColumn,
    ) -> (r: FibonacciConfig)
        requires
            old(meta).has_advice(advice[0]),
            old(meta).has_advice(advice[1]),
            old(meta).has_instance(instance),
        ensures
            r.advice == advice,
            r.instance == instance,
            r.selector.index == old(meta).selectors@.len(),
            r.selector.simple,
            final(meta).num_advice_columns == old(meta).num_advice_columns,
            final(meta).num_instance_columns == old(meta).num_instance_columns,
            final(meta).fixed_columns == old(meta).fixed_columns,
            final(meta).constants == old(meta).constants,
            final(meta).lookups == old(meta).lookups,
            final(meta).selectors@ == old(meta).selectors@.push(true),
            final(meta).equality@ == with_equality(
                with_equality(
                    with_equality(old(meta).equality@, Column::Advice(advice[0])),
                    Column::Advice(advice[1]),
                ),
                Column::Instance(instance),
            ),
            final(meta).gate_views() == old(meta).gate_views().push(r.gate()),
    {
        let col_a = advice[0];
        let col_b = advice[1];
        let selector = meta.selector();

        meta.enable_equality(Column::Advice(col_a));
        meta.enable_equality(Column::Advice(col_b));
        meta.enable_equality(Column::Instance(instance));

        // A gate that enforces a + b - c = 0 where the selector is on.
        let a = meta.query_advice(col_a, Rotation::cur());
        let b = meta.query_advice(col_b, Rotation::cur());
        let c = meta.query_advice(col_b, Rotation::next());
        let mut constraints: Vec<Constraint> = Vec::new();
        let poly = a.plus(b).minus(c);
        proof {
            reveal_with_fuel(Expression::declared, 4);
            assert(poly.declared(&*meta));
        }
        constraints.push(Constraint { name: "", poly });
        meta.create_gate("fibonacci", selector, constraints);

        FibonacciConfig { advice: [col_a, col_b], instance, selector }
    }

    /// Lays out `nrows` rows of the recurrence over the public inputs at
    /// rows 0 and 1, in a region of its own, and returns the last cell of
    /// the column of `b`.
    pub fn assign(&self, layouter: &mut Layouter, nrows: usize) -> (r: Result<AssignedCell, Error>)
        ensures
            final(layouter).same_but_regions(old(layouter)),
            final(layouter).regions().len() == old(layouter).regions().len() + 1,
            final(layouter).regions().drop_last() == old(layouter).regions(),
            final(layouter).region_open(),
            match self.config.assign_error(old(layouter)) {
                Some(e) => r == Err::<AssignedCell, Error>(e),
                None => {
                    &&& final(layouter).regions().last() == self.config.region(
                        old(layouter).regions().len() as usize,
                        old(layouter).instance(),
                        nrows,
                    )
                    &&& r == Ok::<AssignedCell, Error>(
                        self.config.output(
                            old(layouter).regions().len() as usize,
                            old(layouter).instance(),
                            nrows,
                        ),
                    )
                },
            },
    {
        let region_index = layouter.assign_region("entire fibonacci table");
        let ghost opened = layouter.regions();
        let ghost instance = layouter.instance();
        let ghost expected = self.config.region(region_index, instance, nrows);
        let ghost first = instance_value(instance, self.config.instance, 0);
        let ghost second = instance_value(instance, self.config.instance, 1);
        assert(opened.drop_last() =~= old(layouter).regions());

        layouter.enable(self.config.selector, 0)?;
        assert(layouter.regions().drop_last() =~= opened.drop_last());

        let mut a_cell = layouter.assign_advice_from_instance(
            self.config.instance,
            0,
            self.config.advice[0],
            0,
        )?;
        assert(layouter.regions().drop_last() =~= opened.drop_last());
        let ghost with_a = layouter.regions().last();
        proof {
            lemma_find_cell_none(with_a.cells, self.config.advice[1], 0);
            assert(with_a.cells[0] == a_cell);
        }

        let mut b_cell = layouter.assign_advice_from_instance(
            self.config.instance,
            1,
            self.config.advice[1],
            0,
        )?;
        proof {
            assert(layouter.regions().drop_last() =~= opened.drop_last());
            assert(layouter.regions().last().cells =~= expected.cells.take(2));
            assert(layouter.regions().last().enabled =~= expected.enabled.take(1));
            assert(layouter.regions().last().constraints =~= expected.constraints);
        }

        let mut row: usize = 1;
        while row < nrows
            invariant
                1 <= row <= FibonacciConfig::num_rows(nrows),
                expected == self.config.region(region_index, instance, nrows),
                first == instance_value(instance, self.config.instance, 0),
                second == instance_value(instance, self.config.instance, 1),
                region_index == old(layouter).regions().len(),
                instance == old(layouter).instance(),
                self.config.assign_error(old(layouter)) is None,
                layouter.same_but_regions(old(layouter)),
                layouter.regions().len() == old(layouter).regions().len() + 1,
                layouter.region_open(),
                layouter.regions().drop_last() == old(layouter).regions(),
                layouter.regions().last().name == expected.name,
                layouter.regions().last().cells == expected.cells.take(2 * row),
                layouter.regions().last().enabled == expected.enabled.take(
                    if row + 1 < nrows {
                        row as int
                    } else {
                        FibonacciConfig::num_enabled(nrows) as int
                    },
                ),
                layouter.regions().last().constraints == expected.constraints,
                a_cell.value == fibonacci(first, second, (row - 1) as nat),
                b_cell == (AssignedCell {
                    cell: Cell {
                        region_index,
                        column: self.config.advice[1],
                        row_offset: (row - 1) as usize,
                    },
                    value: fibonacci(first, second, row as nat),
                }),
            decreases nrows - row,
        {
            let ghost before = layouter.regions();
            if row < nrows - 1 {
                let enabled = layouter.enable(self.config.selector, row);
                assert(!before.last().enabled.contains((self.config.selector, row)));
                assert(enabled is Ok);
                proof {
                    assert(layouter.regions().drop_last() =~= before.drop_last());
                    assert(layouter.regions().last().enabled =~= expected.enabled.take(
                        if row + 2 < nrows {
                            row + 1
                        } else {
                            FibonacciConfig::num_enabled(nrows) as int
                        },
                    ));
                }
            }
            let ghost enabled = layouter.regions();

            proof {
                lemma_find_cell_none(enabled.last().cells, self.config.advice[1], row as int);
            }
            let c = layouter.assign_advice(
                self.config.advice[1],
                row,
                value_add(a_cell.value(), b_cell.value()),
            );
            assert(c is Ok);
            let c_cell = c.unwrap();
            let ghost with_c = layouter.regions();
            proof {
                assert(with_c.drop_last() =~= before.drop_last());
                assert(c_cell == expected.cells[2 * row]);
                lemma_find_cell_none(with_c.last().cells, self.config.advice[0], row as int);
            }

            let a = layouter.assign_advice(self.config.advice[0], row, b_cell.value());
            assert(a is Ok);
            a_cell = a.unwrap();
            proof {
                assert(layouter.regions().drop_last() =~= before.drop_last());
                assert(a_cell == expected.cells[2 * row + 1]);
                assert(layouter.regions().last().cells =~= expected.cells.take(2 * (row + 1)));
            }

            b_cell = c_cell;
            row = row + 1;
        }
        proof {
            assert(expected.cells.take(2 * FibonacciConfig::num_rows(nrows) as int) =~= expected.cells);
            assert(expected.enabled.take(FibonacciConfig::num_enabled(nrows) as int)
                =~= expected.enabled);
        }
        Ok(b_cell)
    }

    /// Binds a cell to the public input at a row of the instance column.
    /// The constraint is recorded with the region that is open.
    pub fn expose_public(
        &self,
        layouter: &mut Layouter,
        cell: &AssignedCell,
        row: usize,
    ) -> (r: Result<(), Error>)
        ensures
            match old(layouter).instance_error(cell.cell.column, self.config.instance, row) {
                Some(e) => r == Err::<(), Error>(e) && *final(layouter) == *old(layouter),
                None => {
                    &&& r is Ok
                    &&& final(layouter).same_but_last_region(old(layouter))
                    &&& final(layouter).regions().last()
                        == old(layouter).regions().last().with_constraint(
                        CopyConstraint::Instance {
                            cell: cell.cell,
                            column: self.config.instance,
                            row,
                        },
                    )
                },
            },
    {
        layouter.constrain_instance(cell.cell(), self.config.instance, row)
    }
}

} // verus!
