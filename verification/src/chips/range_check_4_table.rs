//! The lookup table of the running-sum range check: every value of
//! `lookup_num_bits` bits, once.

use crate::chips::range_check_2_table::range_values;
use crate::chips::range_check_2_table::RangeCheckTableConfig;
use crate::circuit::find_table_column;
use crate::circuit::Error;
use crate::circuit::Layouter;
use crate::circuit::RegionView;
use crate::circuit::Table;
use crate::circuit::TableColumnView;
use crate::plonk::ConstraintSystem;
use crate::plonk::TableColumn;
use vstd::arithmetic::power2::pow2;
use vstd::prelude::*;

verus! {

/// A lookup table that holds the values `0 .. lookup_range`, where
/// `lookup_range` is two to the power `lookup_num_bits`.
#[derive(Clone, Copy, Debug, PartialEq, Eq)]
pub struct RangeTableConfig {
    pub value: TableColumn,
    pub lookup_num_bits: usize,
    pub lookup_range: usize,
}

impl RangeTableConfig {
    /// The size of the table agrees with its width in bits.
    pub open spec fn wf(&self) -> bool {
        &&& 0 < self.lookup_num_bits < 64
        &&& self.lookup_range == pow2(self.lookup_num_bits as nat)
    }

    /// Declares the table's column.
    pub fn configure(
        meta: &mut ConstraintSystem,
        lookup_num_bits: usize,
        lookup_range: usize,
    ) -> (r: Self)
        requires
            0 < lookup_num_bits < 64,
            lookup_range == pow2(lookup_num_bits as nat),
        ensures
            r.value.index == old(meta).fixed_columns@.len(),
            r.lookup_num_bits == lookup_num_bits,
            r.lookup_range == lookup_range,
            r.wf(),
            final(meta).fixed_columns@ == old(meta).fixed_columns@.push(true),
            final(meta).same_but_fixed(old(meta)),
    {
        let value = meta.lookup_table_column();
        RangeTableConfig { value, lookup_num_bits, lookup_range }
    }

    /// What keeps the table from being loaded, if anything does: its column
    /// is not one of the circuit's table columns, or it is loaded already.
    pub open spec fn load_error(&self, layouter: &Layouter) -> Option<Error> {
        if self.lookup_range == 0 {
            None
        } else if !layouter.cs().has_table(self.value) {
            Some(Error::ColumnNotDeclared)
        } else if find_table_column(layouter.table_columns(), self.value) is Some {
            Some(Error::TableCellMisplaced)
        } else {
            None
        }
    }

    /// The table column once it is loaded.
    pub open spec fn loaded(&self, table_index: usize) -> TableColumnView {
        TableColumnView {
            table_index,
            column: self.value,
            values: range_values(self.lookup_range as nat),
        }
    }

    /// Loads the table: row `i` holds the value `i`. Loading a table that
    /// is loaded already fails and leaves the loaded columns as they are.
    pub fn load(&self, layouter: &mut Layouter) -> (r: Result<(), Error>)
        ensures
            final(layouter).same_circuit(old(layouter)),
            !final(layouter).region_open(),
            final(layouter).tables() == old(layouter).tables().push(
                Table {
                    name: "load range-check table",
                    region_index: old(layouter).regions().len() as usize,
                },
            ),
            final(layouter).regions() == old(layouter).regions().push(
                RegionView::empty("load range-check table"),
            ),
            match self.load_error(old(layouter)) {
                Some(e) => r == Err::<(), Error>(e) && final(layouter).table_columns() == old(
                    layouter,
                ).table_columns(),
                None => r is Ok && final(layouter).table_columns() == if self.lookup_range == 0 {
                    old(layouter).table_columns()
                } else {
                    old(layouter).table_columns().push(
                        self.loaded(old(layouter).tables().len() as usize),
                    )
                },
            },
    {
        let table = RangeCheckTableConfig { value: self.value, range: self.lookup_range };
        table.load(layouter)
    }
}

} // verus!
