//! A range check by one polynomial: a value lies in `0 .. RANGE` exactly
//! where the product `v * (1 - v) * (2 - v) * ... * (RANGE - 1 - v)`
//! vanishes. The degree grows with the range, so this serves small ranges.

use crate::certificate::lemma_no_zero_divisors;
use crate::circuit::cell_value;
use crate::circuit::AssignedCell;
use crate::circuit::Cell;
use crate::circuit::Error;
use crate::circuit::Layouter;
use crate::circuit::RegionView;
use crate::circuit::Value;
use crate::dev::eval;
use crate::field::fadd;
use crate::field::fmul;
use crate::field::fneg;
use crate::field::modulus;
use crate::field::Felt;
use crate::modular::lemma_difference_nonzero;
use crate::modular::lemma_fadd_fneg;
use crate::modular::lemma_fmul;
use crate::modular::lemma_fmul_zero;
use crate::plonk::AdviceColumn;
use crate::plonk::Constraint;
use crate::plonk::ConstraintSystem;
use crate::plonk::Expression;
use crate::plonk::GateView;
use crate::plonk::Rotation;
use crate::plonk::Selector;
use vstd::prelude::*;

verus! {

/// The polynomial `v * (1 - v) * (2 - v) * ... * (range - 1 - v)` over the
/// cell `v` of a column on the row. For a range of 0 or 1 it is `v` itself.
pub open spec fn range_check_expression(column: AdviceColumn, range: nat) -> Expression
    decreases range,
{
    let value = Expression::Advice { column, rotation: Rotation(0) };
    if range <= 1 {
        value
    } else {
        range_check_expression(column, (range - 1) as nat).spec_times(
            Expression::Constant(Felt::spec_from_u64((range - 1) as u64)).spec_minus(value),
        )
    }
}

/// Builds the polynomial `v * (1 - v) * ... * (range - 1 - v)` over a
/// polynomial `v`.
pub fn range_check_polynomial(meta: &ConstraintSystem, column: AdviceColumn, range: usize) -> (r:
    Expression)
    requires
        meta.has_advice(column),
    ensures
        r == range_check_expression(column, range as nat),
        r.declared(meta),
{
    let value = meta.query_advice(column, Rotation::cur());
    let mut expr = value.duplicate();
    let mut i: usize = 1;
    while i < range
        invariant
            1 <= i,
            i <= range || i == 1,
            meta.has_advice(column),
            value == (Expression::Advice { column, rotation: Rotation(0) }),
            expr == range_check_expression(column, i as nat),
            expr.declared(meta),
        decreases range - i,
    {
        proof {
            reveal_with_fuel(Expression::declared, 4);
        }
        expr = expr.times(Expression::Constant(Felt::from_u64(i as u64)).minus(value.duplicate()));
        i = i + 1;
    }
    expr
}

/// The column and the selector of the gadget, and the range it checks.
#[derive(Clone, Copy, Debug, PartialEq, Eq)]
pub struct RangeCheckConfig {
    pub value: AdviceColumn,
    pub selector: Selector,
    pub range: usize,
}

/// The gadget.
///
/// ```text
/// | value | selector |
/// |-------|----------|
/// |   v   |    s     |
/// ```
#[derive(Clone, Copy, Debug, PartialEq, Eq)]
pub struct RangeCheckChip {
    pub config: RangeCheckConfig,
}

impl RangeCheckConfig {
    /// The gadget's only gate.
    pub open spec fn gate(&self) -> GateView {
        GateView {
            name: "Range Check",
            selector: self.selector,
            constraints: seq![
                Constraint {
                    name: "range check",
                    poly: range_check_expression(self.value, self.range as nat),
                },
            ],
        }
    }

    /// The region that holds a value to be checked.
    pub open spec fn region(&self, region_index: usize, value: Value) -> RegionView {
        RegionView {
            name: "Assign value",
            cells: seq![
                AssignedCell {
                    cell: Cell { region_index, column: self.value, row_offset: 0 },
                    value,
                },
            ],
            enabled: seq![(self.selector, 0usize)],
            constraints: Seq::empty(),
        }
    }

    /// What keeps a value from being laid out, if anything does.
    pub open spec fn assign_error(&self, layouter: &Layouter) -> Option<Error> {
        if !layouter.cs().has_selector(self.selector) {
            Some(Error::SelectorNotDeclared)
        } else if !layouter.cs().has_advice(self.value) {
            Some(Error::ColumnNotDeclared)
        } else {
            None
        }
    }
}

impl RangeCheckChip {
    /// The gadget over a configuration.
    pub fn construct(config: RangeCheckConfig) -> (r: Self)
        ensures
            r.config == config,
    {
        RangeCheckChip { config }
    }

    /// Declares the gadget in a circuit's shape: a selector and a gate
    /// with the range-check polynomial over the advice column.
    pub fn configure(meta: &mut ConstraintSystem, advice_column: AdviceColumn, range: usize) -> (r:
        RangeCheckConfig)
        requires
            old(meta).has_advice(advice_column),
        ensures
            r.value == advice_column,
            r.range == range,
            r.selector.index == old(meta).selectors@.len(),
            r.selector.simple,
            final(meta).num_advice_columns == old(meta).num_advice_columns,
            final(meta).num_instance_columns == old(meta).num_instance_columns,
            final(meta).fixed_columns == old(meta).fixed_columns,
            final(meta).constants == old(meta).constants,
            final(meta).equality == old(meta).equality,
            final(meta).lookups == old(meta).lookups,
            final(meta).selectors@ == old(meta).selectors@.push(true),
            final(meta).gate_views() == old(meta).gate_views().push(r.gate()),
    {
        let selector = meta.selector();

        let range_check = range_check_polynomial(meta, advice_column, range);
        let mut constraints: Vec<Constraint> = Vec::new();
        constraints.push(Constraint { name: "range check", poly: range_check });
        meta.create_gate("Range Check", selector, constraints);

        RangeCheckConfig { value: advice_column, selector, range }
    }

    /// Lays a value out in a region of its own, with the selector enabled
    /// on its row.
    pub fn assign(&self, layouter: &mut Layouter, value: Value) -> (r: Result<(), Error>)
        ensures
            final(layouter).same_but_regions(old(layouter)),
            final(layouter).regions().len() == old(layouter).regions().len() + 1,
            final(layouter).regions().drop_last() == old(layouter).regions(),
            final(layouter).region_open(),
            match self.config.assign_error(old(layouter)) {
                Some(e) => r == Err::<(), Error>(e),
                None => r is Ok && final(layouter).regions().last() == self.config.region(
                    old(layouter).regions().len() as usize,
                    value,
                ),
            },
    {
        let region_index = layouter.assign_region("Assign value");
        let ghost opened = layouter.regions();
        assert(opened.drop_last() =~= old(layouter).regions());
        let offset: usize = 0;

        layouter.enable(self.config.selector, offset)?;
        assert(layouter.regions().drop_last() =~= opened.drop_last());

        layouter.assign_advice(self.config.value, offset, value)?;
        proof {
            assert(layouter.regions().drop_last() =~= opened.drop_last());
            let region = self.config.region(region_index, value);
            let last = layouter.regions().last();
            assert(last.cells =~= region.cells);
            assert(last.enabled =~= region.enabled);
            assert(last.constraints =~= region.constraints);
        }
        Ok(())
    }
}

/// The value of the range-check polynomial at `v`: the product
/// `v * (1 - v) * (2 - v) * ... * (range - 1 - v)` in the field.
pub open spec fn range_product(v: nat, range: nat) -> nat
    decreases range,
{
    if range <= 1 {
        v
    } else {
        fmul(range_product(v, (range - 1) as nat), fadd((range - 1) as nat, fneg(v)))
    }
}

/// On a row whose cell holds `v`, the range-check polynomial evaluates to
/// the product at `v`.
pub proof fn lemma_eval_range_check(
    column: AdviceColumn,
    range: usize,
    region: RegionView,
    row: usize,
    v: Felt,
)
    requires
        cell_value(region.cells, column, row as int) == Some(v),
    ensures
        eval(range_check_expression(column, range as nat), region, row) == Some(
            range_product(v.value(), range as nat),
        ),
    decreases range,
{
    reveal_with_fuel(eval, 5);
    if range > 1 {
        lemma_eval_range_check(column, (range - 1) as usize, region, row, v);
        Felt::lemma_from_u64((range - 1) as u64);
    }
}

/// The product vanishes at every value below the range.
pub proof fn lemma_range_product_zero(v: nat, range: nat)
    requires
        v < range,
    ensures
        range_product(v, range) == 0,
    decreases range,
{
    if range > 1 {
        if v < range - 1 {
            lemma_range_product_zero(v, (range - 1) as nat);
            lemma_fmul_zero(fadd((range - 1) as nat, fneg(v)));
        } else {
            lemma_fadd_fneg(v);
            lemma_fmul_zero(range_product(v, (range - 1) as nat));
        }
    }
}

/// The product does not vanish at any reduced value that is not below the
/// range: none of its factors vanishes there, and the modulus is prime.
pub proof fn lemma_range_product_nonzero(v: nat, range: nat)
    requires
        1 <= range <= v < modulus(),
    ensures
        0 < range_product(v, range) < modulus(),
    decreases range,
{
    lemma_no_zero_divisors();
    if range > 1 {
        let below = range_product(v, (range - 1) as nat);
        let factor = fadd((range - 1) as nat, fneg(v));
        lemma_range_product_nonzero(v, (range - 1) as nat);
        lemma_difference_nonzero((range - 1) as nat, v);
        lemma_fmul(below, factor);
        assert(fmul(below, factor) != 0);
    }
}

} // verus!
