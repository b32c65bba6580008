//! A range check with two paths: the polynomial of the small range for
//! small values, and a lookup in a table for a wider range.

use crate::chips::range_check_1::range_check_expression;
use crate::chips::range_check_1::range_check_polynomial;
use crate::chips::range_check_2_table::RangeCheckTableConfig;
use crate::circuit::AssignedCell;
use crate::circuit::Cell;
use crate::circuit::Error;
use crate::circuit::Layouter;
use crate::circuit::RegionView;
use crate::circuit::Value;
use crate::field::Felt;
use crate::plonk::AdviceColumn;
use crate::plonk::Constraint;
use crate::plonk::ConstraintSystem;
use crate::plonk::Expression;
use crate::plonk::GateView;
use crate::plonk::LookupEntry;
use crate::plonk::LookupView;
use crate::plonk::Rotation;
use crate::plonk::Selector;
use vstd::prelude::*;

verus! {

/// A cell whose value one of the two paths of the gadget constrains.
#[derive(Clone, Copy, Debug, PartialEq, Eq)]
pub struct RangeConstrained(pub AssignedCell);

/// The column, the selectors and the table of the gadget, and the small
/// range. The table's range is meant to be the wider one.
///
/// ```text
/// | value | q_range_check | q_lookup | table_value |
/// |-------|---------------|----------|-------------|
/// |   v   |       1       |    0     |      0      |
/// |   v'  |       0       |    1     |      1      |
/// ```
#[derive(Clone, Copy, Debug, PartialEq, Eq)]
pub struct RangeCheckConfig {
    pub value: AdviceColumn,
    pub q_range_check: Selector,
    pub q_lookup: Selector,
    pub table: RangeCheckTableConfig,
    pub range: usize,
}

/// The gadget.
#[derive(Clone, Copy, Debug, PartialEq, Eq)]
pub struct RangeCheckChip {
    pub config: RangeCheckConfig,
}

impl RangeCheckConfig {
    /// The gadget's only gate: the polynomial of the small range.
    pub open spec fn gate(&self) -> GateView {
        GateView {
            name: "Range Check",
            selector: self.q_range_check,
            constraints: seq![
                Constraint {
                    name: "range check",
                    poly: range_check_expression(self.value, self.range as nat),
                },
            ],
        }
    }

    /// The lookup argument: the value is in the table; 0 stands in for it
    /// where the selector is off.
    pub open spec fn lookup(&self) -> LookupView {
        LookupView {
            name: "lookup",
            selector: self.q_lookup,
            entries: seq![
                LookupEntry {
                    input: Expression::Advice { column: self.value, rotation: Rotation(0) },
                    table: self.table.value,
                    default: Felt::spec_from_u64(0),
                },
            ],
        }
    }

    /// The region that holds a value, with one of the selectors enabled on
    /// its row.
    pub open spec fn region(
        &self,
        name: &'static str,
        selector: Selector,
        region_index: usize,
        value: Value,
    ) -> RegionView {
        RegionView {
            name,
            cells: seq![
                AssignedCell {
                    cell: Cell { region_index, column: self.value, row_offset: 0 },
                    value,
                },
            ],
            enabled: seq![(selector, 0usize)],
            constraints: Seq::empty(),
        }
    }

    /// What keeps a value from being laid out under a selector, if anything
    /// does.
    pub open spec fn assign_error(&self, layouter: &Layouter, selector: Selector) -> Option<Error> {
        if !layouter.cs().has_selector(selector) {
            Some(Error::SelectorNotDeclared)
        } else if !layouter.cs().has_advice(self.value) {
            Some(Error::ColumnNotDeclared)
        } else {
            None
        }
    }
}

impl RangeCheckChip {
    /// The gadget over a configuration.
    pub fn construct(config: RangeCheckConfig) -> (r: Self)
        ensures
            r.config == config,
    {
        RangeCheckChip { config }
    }

    /// Declares the gadget in a circuit's shape: a simple selector for the
    /// polynomial, a complex one for the lookup, the table column, a gate
    /// and the lookup argument.
    pub fn configure(
        meta: &mut ConstraintSystem,
        advice_col: AdviceColumn,
        range: usize,
        lookup_table_range: usize,
    ) -> (r: RangeCheckConfig)
        requires
            old(meta).has_advice(advice_col),
        ensures
            r.value == advice_col,
            r.range == range,
            r.q_range_check.index == old(meta).selectors@.len(),
            r.q_range_check.simple,
            r.q_lookup.index == old(meta).selectors@.len() + 1,
            !r.q_lookup.simple,
            r.table.value.index == old(meta).fixed_columns@.len(),
            r.table.range == lookup_table_range,
            final(meta).num_advice_columns == old(meta).num_advice_columns,
            final(meta).num_instance_columns == old(meta).num_instance_columns,
            final(meta).constants == old(meta).constants,
            final(meta).equality == old(meta).equality,
            final(meta).fixed_columns@ == old(meta).fixed_columns@.push(true),
            final(meta).selectors@ == old(meta).selectors@.push(true).push(false),
            final(meta).gate_views() == old(meta).gate_views().push(r.gate()),
            final(meta).lookup_views() == old(meta).lookup_views().push(r.lookup()),
    {
        let q_range_check = meta.selector();
        let q_lookup = meta.complex_selector();
        assert(meta.has_selector(q_range_check) && meta.has_selector(q_lookup));

        let table = RangeCheckTableConfig::configure(meta, lookup_table_range);

        // The polynomial of the small range.
        let range_check = range_check_polynomial(meta, advice_col, range);
        let mut constraints: Vec<Constraint> = Vec::new();
        constraints.push(Constraint { name: "range check", poly: range_check });
        meta.create_gate("Range Check", q_range_check, constraints);

        // The value is contained in the table of the values below the
        // wider range.
        let lookup_value = meta.query_advice(advice_col, Rotation::cur());
        let mut entries: Vec<LookupEntry> = Vec::new();
        entries.push(LookupEntry { input: lookup_value, table: table.value, default: Felt::zero() });
        meta.lookup("lookup", q_lookup, entries);

        RangeCheckConfig { value: advice_col, q_lookup, q_range_check, table, range }
    }

    /// Lays a value out in a region of its own under a selector.
    fn assign_under(
        &self,
        layouter: &mut Layouter,
        name: &'static str,
        selector: Selector,
        value: Value,
    ) -> (r: Result<RangeConstrained, Error>)
        ensures
            final(layouter).same_but_regions(old(layouter)),
            final(layouter).regions().len() == old(layouter).regions().len() + 1,
            final(layouter).regions().drop_last() == old(layouter).regions(),
            final(layouter).region_open(),
            match self.config.assign_error(old(layouter), selector) {
                Some(e) => r == Err::<RangeConstrained, Error>(e),
                None => {
                    let region = self.config.region(
                        name,
                        selector,
                        old(layouter).regions().len() as usize,
                        value,
                    );
                    &&& final(layouter).regions().last() == region
                    &&& r == Ok::<RangeConstrained, Error>(RangeConstrained(region.cells[0]))
                },
            },
    {
        let region_index = layouter.assign_region(name);
        let ghost opened = layouter.regions();
        assert(opened.drop_last() =~= old(layouter).regions());
        let offset: usize = 0;

        layouter.enable(selector, offset)?;
        assert(layouter.regions().drop_last() =~= opened.drop_last());

        let cell = layouter.assign_advice(self.config.value, offset, value)?;
        proof {
            assert(layouter.regions().drop_last() =~= opened.drop_last());
            let region = self.config.region(name, selector, region_index, value);
            let last = layouter.regions().last();
            assert(last.cells =~= region.cells);
            assert(last.enabled =~= region.enabled);
            assert(last.constraints =~= region.constraints);
        }
        Ok(RangeConstrained(cell))
    }

    /// Lays a value out in a region of its own, to be checked by the
    /// polynomial of the small range.
    pub fn assign_simple(&self, layouter: &mut Layouter, value: Value) -> (r: Result<
        RangeConstrained,
        Error,
    >)
        ensures
            final(layouter).same_but_regions(old(layouter)),
            final(layouter).regions().len() == old(layouter).regions().len() + 1,
            final(layouter).regions().drop_last() == old(layouter).regions(),
            final(layouter).region_open(),
            match self.config.assign_error(old(layouter), self.config.q_range_check) {
                Some(e) => r == Err::<RangeConstrained, Error>(e),
                None => {
                    let region = self.config.region(
                        "Assign simple",
                        self.config.q_range_check,
                        old(layouter).regions().len() as usize,
                        value,
                    );
                    &&& final(layouter).regions().last() == region
                    &&& r == Ok::<RangeConstrained, Error>(RangeConstrained(region.cells[0]))
                },
            },
    {
        self.assign_under(layouter, "Assign simple", self.config.q_range_check, value)
    }

    /// Lays a value out in a region of its own, to be looked up in the
    /// table.
    pub fn assign_lookup_table(&self, layouter: &mut Layouter, value: Value) -> (r: Result<
        RangeConstrained,
        Error,
    >)
        ensures
            final(layouter).same_but_regions(old(layouter)),
            final(layouter).regions().len() == old(layouter).regions().len() + 1,
            final(layouter).regions().drop_last() == old(layouter).regions(),
            final(layouter).region_open(),
            match self.config.assign_error(old(layouter), self.config.q_lookup) {
                Some(e) => r == Err::<RangeConstrained, Error>(e),
                None => {
                    let region = self.config.region(
                        "Assign lookup table",
                        self.config.q_lookup,
                        old(layouter).regions().len() as usize,
                        value,
                    );
                    &&& final(layouter).regions().last() == region
                    &&& r == Ok::<RangeConstrained, Error>(RangeConstrained(region.cells[0]))
                },
            },
    {
        self.assign_under(layouter, "Assign lookup table", self.config.q_lookup, value)
    }
}

} // verus!
