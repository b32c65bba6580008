//! The Fibonacci recurrence with one row per step: three advice columns
//! hold `a`, `b` and `c = a + b` side by side.

use crate::circuit::instance_value;
use crate::circuit::value_add;
use crate::circuit::value_sum;
use crate::circuit::AssignedCell;
use crate::circuit::Cell;
use crate::circuit::CopyConstraint;
use crate::circuit::Error;
use crate::circuit::Layouter;
use crate::circuit::RegionView;
use crate::plonk::with_equality;
use crate::plonk::AdviceColumn;
use crate::plonk::Column;
use crate::plonk::Constraint;
use crate::plonk::ConstraintSystem;
use crate::plonk::Expression;
use crate::plonk::GateView;
use crate::plonk::InstanceColumn;
use crate::plonk::Rotation;
use crate::plonk::Selector;
use vstd::prelude::*;

verus! {

/// The columns and the selector of the gadget.
#[derive(Clone, Copy, Debug, PartialEq, Eq)]
pub struct FibonacciConfig {
    pub advice: [AdviceColumn; 3],
    pub instance: InstanceColumn,
    pub selector: Selector,
}

/// The gadget.
///
/// ```text
/// | col_a | col_b | col_c | selector |
/// |-------|-------|-------|----------|
/// |   a   |   b   |   c   |    s     |
/// ```
#[derive(Clone, Copy, Debug, PartialEq, Eq)]
pub struct FibonacciChip {
    pub config: FibonacciConfig,
}

/// The polynomial `a + b - c` over three columns, all read on the row.
pub open spec fn fibonacci_expression(
    a: AdviceColumn,
    b: AdviceColumn,
    c: AdviceColumn,
) -> Expression {
    (Expression::Advice { column: a, rotation: Rotation(0) }).spec_plus(
        Expression::Advice { column: b, rotation: Rotation(0) },
    ).spec_minus(Expression::Advice { column: c, rotation: Rotation(0) })
}

impl FibonacciConfig {
    /// The gadget's only gate, `a + b - c = 0`.
    pub open spec fn gate(&self) -> GateView {
        GateView {
            name: "fibonacci",
            selector: self.selector,
            constraints: seq![
                Constraint {
                    name: "",
                    poly: fibonacci_expression(self.advice[0], self.advice[1], self.advice[2]),
                },
            ],
        }
    }

    /// The cell of one of the three columns on the only row of a region.
    pub open spec fn cell(&self, region_index: usize, column: int) -> Cell {
        Cell { region_index, column: self.advice[column], row_offset: 0 }
    }

    /// The region of the first step: `a` and `b` are the public inputs at
    /// rows 0 and 1, and `c` is their sum.
    pub open spec fn first_row(
        &self,
        region_index: usize,
        instance: Seq<Seq<crate::field::Felt>>,
    ) -> RegionView {
        let a = instance_value(instance, self.instance, 0);
        let b = instance_value(instance, self.instance, 1);
        RegionView {
            name: "first row",
            cells: seq![
                AssignedCell { cell: self.cell(region_index, 0), value: a },
                AssignedCell { cell: self.cell(region_index, 1), value: b },
                AssignedCell { cell: self.cell(region_index, 2), value: value_sum(a, b) },
            ],
            enabled: seq![(self.selector, 0usize)],
            constraints: seq![
                CopyConstraint::Instance {
                    cell: self.cell(region_index, 0),
                    column: self.instance,
                    row: 0,
                },
                CopyConstraint::Instance {
                    cell: self.cell(region_index, 1),
                    column: self.instance,
                    row: 1,
                },
            ],
        }
    }

    /// The region of a further step: `a` and `b` are copies of the `b` and
    /// `c` of the step before, and `c` is their sum.
    pub open spec fn next_row(
        &self,
        region_index: usize,
        prev_b: AssignedCell,
        prev_c: AssignedCell,
    ) -> RegionView {
        RegionView {
            name: "next row",
            cells: seq![
                AssignedCell { cell: self.cell(region_index, 0), value: prev_b.value },
                AssignedCell { cell: self.cell(region_index, 1), value: prev_c.value },
                AssignedCell {
                    cell: self.cell(region_index, 2),
                    value: value_sum(prev_b.value, prev_c.value),
                },
            ],
            enabled: seq![(self.selector, 0usize)],
            constraints: seq![
                CopyConstraint::Equal { left: self.cell(region_index, 0), right: prev_b.cell },
                CopyConstraint::Equal { left: self.cell(region_index, 1), right: prev_c.cell },
            ],
        }
    }

    /// What keeps the first step from being laid out, if anything does.
    pub open spec fn first_row_error(&self, layouter: &Layouter) -> Option<Error> {
        let cs = layouter.cs();
        let a = self.advice[0];
        let b = self.advice[1];
        let c = self.advice[2];
        if !cs.has_selector(self.selector) {
            Some(Error::SelectorNotDeclared)
        } else if !cs.has_advice(a) {
            Some(Error::ColumnNotDeclared)
        } else if instance_value(layouter.instance(), self.instance, 0) is None {
            Some(Error::BoundsFailure)
        } else if !cs.equality_enabled(Column::Advice(a)) || !cs.equality_enabled(
            Column::Instance(self.instance),
        ) {
            Some(Error::ColumnNotInPermutation)
        } else if !cs.has_advice(b) {
            Some(Error::ColumnNotDeclared)
        } else if b == a {
            Some(Error::CellAlreadyAssigned)
        } else if instance_value(layouter.instance(), self.instance, 1) is None {
            Some(Error::BoundsFailure)
        } else if !cs.equality_enabled(Column::Advice(b)) {
            Some(Error::ColumnNotInPermutation)
        } else if !cs.has_advice(c) {
            Some(Error::ColumnNotDeclared)
        } else if c == a || c == b {
            Some(Error::CellAlreadyAssigned)
        } else {
            None
        }
    }

    /// What keeps a further step from being laid out, if anything does.
    pub open spec fn next_row_error(
        &self,
        layouter: &Layouter,
        prev_b: AssignedCell,
        prev_c: AssignedCell,
    ) -> Option<Error> {
        let cs = layouter.cs();
        let a = self.advice[0];
        let b = self.advice[1];
        let c = self.advice[2];
        if !cs.has_selector(self.selector) {
            Some(Error::SelectorNotDeclared)
        } else if !cs.has_advice(a) {
            Some(Error::ColumnNotDeclared)
        } else if !cs.equality_enabled(Column::Advice(a)) || !cs.equality_enabled(
            Column::Advice(prev_b.cell.column),
        ) {
            Some(Error::ColumnNotInPermutation)
        } else if !cs.has_advice(b) {
            Some(Error::ColumnNotDeclared)
        } else if b == a {
            Some(Error::CellAlreadyAssigned)
        } else if !cs.equality_enabled(Column::Advice(b)) || !cs.equality_enabled(
            Column::Advice(prev_c.cell.column),
        ) {
            Some(Error::ColumnNotInPermutation)
        } else if !cs.has_advice(c) {
            Some(Error::ColumnNotDeclared)
        } else if c == a || c == b {
            Some(Error::CellAlreadyAssigned)
        } else {
            None
        }
    }
}

impl FibonacciChip {
    /// The gadget over a configuration.
    pub fn construct(config: FibonacciConfig) -> (r: Self)
        ensures
            r.config == config,
    {
        FibonacciChip { config }
    }

    /// Declares the gadget in a circuit's shape: a selector, equality on
    /// the three advice columns and on the instance column, and a gate for
    /// `a + b - c = 0`.
    pub fn configure(
        meta: &mut ConstraintSystem,
        advice: [AdviceColumn; 3],
        instance: InstanceColumn,
    ) -> (r: FibonacciConfig)
        requires
            old(meta).has_advice(advice[0]),
            old(meta).has_advice(advice[1]),
            old(meta).has_advice(advice[2]),
            old(meta).has_instance(instance),
        ensures
            r.advice == advice,
            r.instance == instance,
            r.selector.index == old(meta).selectors@.len(),
            r.selector.simple,
            final(meta).num_advice_columns == old(meta).num_advice_columns,
            final(meta).num_instance_columns == old(meta).num_instance_columns,
            final(meta).fixed_columns == old(meta).fixed_columns,
            final(meta).constants == old(meta).constants,
            final(meta).lookups == old(meta).lookups,
            final(meta).selectors@ == old(meta).selectors@.push(true),
            final(meta).equality@ == with_equality(
                with_equality(
                    with_equality(
                        with_equality(old(meta).equality@, Column::Advice(advice[0])),
                        Column::Advice(advice[1]),
                    ),
                    Column::Advice(advice[2]),
                ),
                Column::Instance(instance),
            ),
            final(meta).gate_views() == old(meta).gate_views().push(r.gate()),
    {
        let col_a = advice[0];
        let col_b = advice[1];
        let col_c = advice[2];
        let selector = meta.selector();

        meta.enable_equality(Column::Advice(col_a));
        meta.enable_equality(Column::Advice(col_b));
        meta.enable_equality(Column::Advice(col_c));
        meta.enable_equality(Column::Instance(instance));

        // A gate that enforces a + b - c = 0 where the selector is on.
        let a = meta.query_advice(col_a, Rotation::cur());
        let b = meta.query_advice(col_b, Rotation::cur());
        let c = meta.query_advice(col_c, Rotation::cur());
        let mut constraints: Vec<Constraint> = Vec::new();
        let poly = a.plus(b).minus(c);
        proof {
            reveal_with_fuel(Expression::declared, 4);
            assert(poly.declared(&*meta));
        }
        constraints.push(Constraint { name: "", poly });
        meta.create_gate("fibonacci", selector, constraints);

        FibonacciConfig { advice: [col_a, col_b, col_c], instance, selector }
    }

    /// Lays out the first step in a region of its own and returns its three
    /// cells.
    pub fn assign_first_row(&self, layouter: &mut Layouter) -> (r: Result<
        (AssignedCell, AssignedCell, AssignedCell),
        Error,
    >)
        ensures
            final(layouter).same_but_regions(old(layouter)),
            final(layouter).regions().len() == old(layouter).regions().len() + 1,
            final(layouter).regions().drop_last() == old(layouter).regions(),
            final(layouter).region_open(),
            match self.config.first_row_error(old(layouter)) {
                Some(e) => r == Err::<(AssignedCell, AssignedCell, AssignedCell), Error>(e),
                None => {
                    let region = self.config.first_row(
                        old(layouter).regions().len() as usize,
                        old(layouter).instance(),
                    );
                    &&& final(layouter).regions().last() == region
                    &&& r == Ok::<(AssignedCell, AssignedCell, AssignedCell), Error>(
                        (region.cells[0], region.cells[1], region.cells[2]),
                    )
                },
            },
    {
        let region_index = layouter.assign_region("first row");
        let ghost opened = layouter.regions();
        assert(opened.drop_last() =~= old(layouter).regions());

        layouter.enable(self.config.selector, 0)?;
        assert(layouter.regions().drop_last() =~= opened.drop_last());

        let a_cell = layouter.assign_advice_from_instance(
            self.config.instance,
            0,
            self.config.advice[0],
            0,
        )?;
        assert(layouter.regions().drop_last() =~= opened.drop_last());
        let ghost with_a = layouter.regions().last();

        proof {
            crate::circuit::lemma_find_cell_none(with_a.cells, self.config.advice[1], 0);
            assert(with_a.cells[0] == a_cell);
        }
        let b_cell = layouter.assign_advice_from_instance(
            self.config.instance,
            1,
            self.config.advice[1],
            0,
        )?;
        assert(layouter.regions().drop_last() =~= opened.drop_last());
        let ghost with_b = layouter.regions().last();

        proof {
            crate::circuit::lemma_find_cell_none(with_b.cells, self.config.advice[2], 0);
            assert(with_b.cells[0] == a_cell);
            assert(with_b.cells[1] == b_cell);
        }
        let c_cell = layouter.assign_advice(
            self.config.advice[2],
            0,
            value_add(a_cell.value(), b_cell.value()),
        )?;
        proof {
            assert(layouter.regions().drop_last() =~= opened.drop_last());
            let region = self.config.first_row(region_index, old(layouter).instance());
            let last = layouter.regions().last();
            assert(last.cells =~= region.cells);
            assert(last.enabled =~= region.enabled);
            assert(last.constraints =~= region.constraints);
        }
        Ok((a_cell, b_cell, c_cell))
    }

    /// Lays out a further step in a region of its own, from the `b` and `c`
    /// of the step before, and returns the new `c`.
    pub fn assign_row(
        &self,
        layouter: &mut Layouter,
        prev_b: &AssignedCell,
        prev_c: &AssignedCell,
    ) -> (r: Result<AssignedCell, Error>)
        ensures
            final(layouter).same_but_regions(old(layouter)),
            final(layouter).regions().len() == old(layouter).regions().len() + 1,
            final(layouter).regions().drop_last() == old(layouter).regions(),
            final(layouter).region_open(),
            match self.config.next_row_error(old(layouter), *prev_b, *prev_c) {
                Some(e) => r == Err::<AssignedCell, Error>(e),
                None => {
                    let region = self.config.next_row(
                        old(layouter).regions().len() as usize,
                        *prev_b,
                        *prev_c,
                    );
                    &&& final(layouter).regions().last() == region
                    &&& r == Ok::<AssignedCell, Error>(region.cells[2])
                },
            },
    {
        let region_index = layouter.assign_region("next row");
        let ghost opened = layouter.regions();
        assert(opened.drop_last() =~= old(layouter).regions());

        layouter.enable(self.config.selector, 0)?;
        assert(layouter.regions().drop_last() =~= opened.drop_last());

        let a_cell = layouter.copy_advice(prev_b, self.config.advice[0], 0)?;
        assert(layouter.regions().drop_last() =~= opened.drop_last());
        let ghost with_a = layouter.regions().last();
        proof {
            crate::circuit::lemma_find_cell_none(with_a.cells, self.config.advice[1], 0);
            assert(with_a.cells[0] == a_cell);
        }
        let b_cell = layouter.copy_advice(prev_c, self.config.advice[1], 0)?;
        assert(layouter.regions().drop_last() =~= opened.drop_last());
        let ghost with_b = layouter.regions().last();
        proof {
            crate::circuit::lemma_find_cell_none(with_b.cells, self.config.advice[2], 0);
            assert(with_b.cells[0] == a_cell);
            assert(with_b.cells[1] == b_cell);
        }

        let c_cell = layouter.assign_advice(
            self.config.advice[2],
            0,
            value_add(prev_b.value(), prev_c.value()),
        )?;
        proof {
            assert(layouter.regions().drop_last() =~= opened.drop_last());
            let region = self.config.next_row(region_index, *prev_b, *prev_c);
            let last = layouter.regions().last();
            assert(last.cells =~= region.cells);
            assert(last.enabled =~= region.enabled);
            assert(last.constraints =~= region.constraints);
        }
        Ok(c_cell)
    }

    /// Binds a cell to the public input at a row of the instance column.
    /// The constraint is recorded with the region that is open.
    pub fn expose_public(
        &self,
        layouter: &mut Layouter,
        cell: &AssignedCell,
        row: usize,
    ) -> (r: Result<(), Error>)
        ensures
            match old(layouter).instance_error(cell.cell.column, self.config.instance, row) {
                Some(e) => r == Err::<(), Error>(e) && *final(layouter) == *old(layouter),
                None => {
                    &&& r is Ok
                    &&& final(layouter).same_but_last_region(old(layouter))
                    &&& final(layouter).regions().last()
                        == old(layouter).regions().last().with_constraint(
                        CopyConstraint::Instance {
                            cell: cell.cell,
                            column: self.config.instance,
                            row,
                        },
                    )
                },
            },
    {
        layouter.constrain_instance(cell.cell(), self.config.instance, row)
    }
}

} // verus!
