//! A range check by a lookup of the pair `(num_bits, value)` in a table of
//! two columns: the value has exactly so many bits.

use crate::chips::range_check_3_table::RangeCheckTableConfig;
use crate::circuit::AssignedCell;
use crate::circuit::Cell;
use crate::circuit::Error;
use crate::circuit::Layouter;
use crate::circuit::RegionView;
use crate::circuit::Value;
use crate::field::Felt;
use crate::plonk::AdviceColumn;
use crate::plonk::ConstraintSystem;
use crate::plonk::Expression;
use crate::plonk::LookupEntry;
use crate::plonk::LookupView;
use crate::plonk::Rotation;
use crate::plonk::Selector;
use vstd::arithmetic::power2::pow2;
use vstd::prelude::*;

verus! {

/// The two cells of a value that the gadget constrains: the number of bits
/// and the value.
#[derive(Clone, Copy, Debug, PartialEq, Eq)]
pub struct RangeConstrained {
    pub num_bits: AssignedCell,
    pub assigned_cell: AssignedCell,
}

/// The columns, the selector and the table of the gadget.
///
/// ```text
/// | num_bits | value | q_lookup | table_num_bits | table_value |
/// |----------|-------|----------|----------------|-------------|
/// |   n_0    |  v_0  |    0     |       1        |      0      |
/// |   n_1    |  v_1  |    1     |       1        |      1      |
/// |   n_2    |  v_2  |    1     |       2        |      2      |
/// |   n_3    |  v_3  |    1     |       2        |      3      |
/// |   ...    |  ...  |   ...    |       3        |      4      |
/// ```
#[derive(Clone, Copy, Debug, PartialEq, Eq)]
pub struct RangeCheckConfig {
    pub q_lookup: Selector,
    pub num_bits_col: AdviceColumn,
    pub value_col: AdviceColumn,
    pub table: RangeCheckTableConfig,
}

/// The gadget.
#[derive(Clone, Copy, Debug, PartialEq, Eq)]
pub struct RangeCheckChip {
    pub config: RangeCheckConfig,
}

/// The field element of a number of bits; unknown if the number is.
pub open spec fn num_bits_value(num_bits: Option<u8>) -> Value {
    match num_bits {
        Some(n) => Some(Felt::spec_from_u64(n as u64)),
        None => None,
    }
}

impl RangeCheckConfig {
    /// The lookup argument: the pair of the number of bits and the value is
    /// a row of the table. Where the selector is off, the pair `(1, 0)`
    /// stands in, which is the first row of the table.
    pub open spec fn lookup(&self) -> LookupView {
        LookupView {
            name: "lookup",
            selector: self.q_lookup,
            entries: seq![
                LookupEntry {
                    input: Expression::Advice { column: self.num_bits_col, rotation: Rotation(0) },
                    table: self.table.num_bits,
                    default: Felt::spec_from_u64(1),
                },
                LookupEntry {
                    input: Expression::Advice { column: self.value_col, rotation: Rotation(0) },
                    table: self.table.value,
                    default: Felt::spec_from_u64(0),
                },
            ],
        }
    }

    /// The region that holds a pair to be looked up.
    pub open spec fn region(
        &self,
        region_index: usize,
        value: Value,
        num_bits: Option<u8>,
    ) -> RegionView {
        RegionView {
            name: "Assign lookup table",
            cells: seq![
                AssignedCell {
                    cell: Cell { region_index, column: self.num_bits_col, row_offset: 0 },
                    value: num_bits_value(num_bits),
                },
                AssignedCell {
                    cell: Cell { region_index, column: self.value_col, row_offset: 0 },
                    value,
                },
            ],
            enabled: seq![(self.q_lookup, 0usize)],
            constraints: Seq::empty(),
        }
    }

    /// What keeps a pair from being laid out, if anything does.
    pub open spec fn assign_error(&self, layouter: &Layouter) -> Option<Error> {
        if !layouter.cs().has_selector(self.q_lookup) {
            Some(Error::SelectorNotDeclared)
        } else if !layouter.cs().has_advice(self.num_bits_col) {
            Some(Error::ColumnNotDeclared)
        } else if !layouter.cs().has_advice(self.value_col) {
            Some(Error::ColumnNotDeclared)
        } else if self.value_col == self.num_bits_col {
            Some(Error::CellAlreadyAssigned)
        } else {
            None
        }
    }
}

impl RangeCheckChip {
    /// The gadget over a configuration.
    pub fn construct(config: RangeCheckConfig) -> (r: Self)
        ensures
            r.config == config,
    {
        RangeCheckChip { config }
    }

    /// Declares the gadget in a circuit's shape: a complex selector, the
    /// two columns of the table and the lookup argument.
    pub fn configure(
        cs: &mut ConstraintSystem,
        num_bits_col: AdviceColumn,
        value_col: AdviceColumn,
        lookup_table_range: usize,
        max_bits: usize,
    ) -> (r: RangeCheckConfig)
        requires
            old(cs).has_advice(num_bits_col),
            old(cs).has_advice(value_col),
            max_bits < 32,
            lookup_table_range == pow2(max_bits as nat),
        ensures
            r.num_bits_col == num_bits_col,
            r.value_col == value_col,
            r.q_lookup.index == old(cs).selectors@.len(),
            !r.q_lookup.simple,
            r.table.value.index == old(cs).fixed_columns@.len(),
            r.table.num_bits.index == old(cs).fixed_columns@.len() + 1,
            r.table.lookup_table_range == lookup_table_range,
            r.table.max_bits == max_bits,
            final(cs).num_advice_columns == old(cs).num_advice_columns,
            final(cs).num_instance_columns == old(cs).num_instance_columns,
            final(cs).constants == old(cs).constants,
            final(cs).equality == old(cs).equality,
            final(cs).gates == old(cs).gates,
            final(cs).fixed_columns@ == old(cs).fixed_columns@.push(true).push(true),
            final(cs).selectors@ == old(cs).selectors@.push(false),
            final(cs).lookup_views() == old(cs).lookup_views().push(r.lookup()),
    {
        let q_lookup = cs.complex_selector();
        assert(cs.has_selector(q_lookup));
        let table = RangeCheckTableConfig::configure(cs, lookup_table_range, max_bits);

        // Where q_lookup is off, the pair (1, 0) is looked up: 0 is a
        // value of one bit.
        let num_bits_expr = cs.query_advice(num_bits_col, Rotation::cur());
        let lookup_value_expr = cs.query_advice(value_col, Rotation::cur());
        let mut entries: Vec<LookupEntry> = Vec::new();
        entries.push(
            LookupEntry { input: num_bits_expr, table: table.num_bits, default: Felt::one() },
        );
        entries.push(
            LookupEntry { input: lookup_value_expr, table: table.value, default: Felt::zero() },
        );
        let config = RangeCheckConfig { q_lookup, num_bits_col, value_col, table };
        assert(entries@ =~= config.lookup().entries);
        cs.lookup("lookup", q_lookup, entries);

        config
    }

    /// Lays a value and the number of its bits out in a region of their
    /// own, to be looked up in the table.
    pub fn assign_lookup_table(
        &self,
        layouter: &mut Layouter,
        value: Value,
        num_bits: Option<u8>,
    ) -> (r: Result<RangeConstrained, Error>)
        ensures
            final(layouter).same_but_regions(old(layouter)),
            final(layouter).regions().len() == old(layouter).regions().len() + 1,
            final(layouter).regions().drop_last() == old(layouter).regions(),
            final(layouter).region_open(),
            match self.config.assign_error(old(layouter)) {
                Some(e) => r == Err::<RangeConstrained, Error>(e),
                None => {
                    let region = self.config.region(
                        old(layouter).regions().len() as usize,
                        value,
                        num_bits,
                    );
                    &&& final(layouter).regions().last() == region
                    &&& r == Ok::<RangeConstrained, Error>(
                        RangeConstrained {
                            num_bits: region.cells[0],
                            assigned_cell: region.cells[1],
                        },
                    )
                },
            },
    {
        let region_index = layouter.assign_region("Assign lookup table");
        let ghost opened = layouter.regions();
        assert(opened.drop_last() =~= old(layouter).regions());
        let offset: usize = 0;

        layouter.enable(self.config.q_lookup, offset)?;
        assert(layouter.regions().drop_last() =~= opened.drop_last());

        // Assign num_bits.
        let num_bits_f = match num_bits {
            Some(v) => Some(Felt::from_u64(v as u64)),
            None => None,
        };
        let num_bits_assigned_cell = layouter.assign_advice(
            self.config.num_bits_col,
            offset,
            num_bits_f,
        )?;
        assert(layouter.regions().drop_last() =~= opened.drop_last());
        let ghost with_bits = layouter.regions().last();
        proof {
            crate::circuit::lemma_find_cell_none(with_bits.cells, self.config.value_col, 0);
            assert(with_bits.cells[0] == num_bits_assigned_cell);
        }

        let value_assigned_cell = layouter.assign_advice(self.config.value_col, offset, value)?;
        proof {
            assert(layouter.regions().drop_last() =~= opened.drop_last());
            let region = self.config.region(region_index, value, num_bits);
            let last = layouter.regions().last();
            assert(last.cells =~= region.cells);
            assert(last.enabled =~= region.enabled);
            assert(last.constraints =~= region.constraints);
        }

        Ok(RangeConstrained { num_bits: num_bits_assigned_cell, assigned_cell: value_assigned_cell })
    }
}

} // verus!
