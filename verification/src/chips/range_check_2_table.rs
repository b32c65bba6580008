//! A lookup table that holds every value below a range, once.

use crate::circuit::find_table_column;
use crate::circuit::lemma_find_table_column;
use crate::circuit::table_values;
use crate::circuit::Error;
use crate::circuit::Layouter;
use crate::circuit::RegionView;
use crate::circuit::Table;
use crate::circuit::TableColumnView;
use crate::dev::table_has;
use crate::dev::table_row_is;
use crate::field::Felt;
use crate::plonk::ConstraintSystem;
use crate::plonk::LookupEntry;
use crate::plonk::TableColumn;
use vstd::prelude::*;

verus! {

/// The values `0, 1, ..., range - 1` as field elements.
pub open spec fn range_values(range: nat) -> Seq<Felt> {
    Seq::new(range, |i: int| Felt::spec_from_u64(i as u64))
}

/// A lookup table that holds the values `0 .. range`; for a range of 256
/// the values of 8 bits.
#[derive(Clone, Copy, Debug, PartialEq, Eq)]
pub struct RangeCheckTableConfig {
    pub value: TableColumn,
    pub range: usize,
}

impl RangeCheckTableConfig {
    /// Declares the table's column.
    pub fn configure(meta: &mut ConstraintSystem, range: usize) -> (r: Self)
        ensures
            r.value.index == old(meta).fixed_columns@.len(),
            r.range == range,
            final(meta).fixed_columns@ == old(meta).fixed_columns@.push(true),
            final(meta).same_but_fixed(old(meta)),
    {
        let value = meta.lookup_table_column();
        RangeCheckTableConfig { value, range }
    }

    /// What keeps the table from being loaded, if anything does: its column
    /// is not one of the circuit's table columns, or it is loaded already.
    pub open spec fn load_error(&self, layouter: &Layouter) -> Option<Error> {
        if self.range == 0 {
            None
        } else if !layouter.cs().has_table(self.value) {
            Some(Error::ColumnNotDeclared)
        } else if find_table_column(layouter.table_columns(), self.value) is Some {
            Some(Error::TableCellMisplaced)
        } else {
            None
        }
    }

    /// The table column once it is loaded.
    pub open spec fn loaded(&self, table_index: usize) -> TableColumnView {
        TableColumnView {
            table_index,
            column: self.value,
            values: range_values(self.range as nat),
        }
    }

    /// Loads the table: row `i` holds the value `i`. Loading a table that
    /// is loaded already fails and leaves the loaded columns as they are.
    pub fn load(&self, layouter: &mut Layouter) -> (r: Result<(), Error>)
        ensures
            final(layouter).same_circuit(old(layouter)),
            !final(layouter).region_open(),
            final(layouter).tables() == old(layouter).tables().push(
                Table {
                    name: "load range-check table",
                    region_index: old(layouter).regions().len() as usize,
                },
            ),
            final(layouter).regions() == old(layouter).regions().push(
                RegionView::empty("load range-check table"),
            ),
            match self.load_error(old(layouter)) {
                Some(e) => r == Err::<(), Error>(e) && final(layouter).table_columns() == old(
                    layouter,
                ).table_columns(),
                None => r is Ok && final(layouter).table_columns() == if self.range == 0 {
                    old(layouter).table_columns()
                } else {
                    old(layouter).table_columns().push(
                        self.loaded(old(layouter).tables().len() as usize),
                    )
                },
            },
    {
        let table_index = layouter.assign_table("load range-check table");
        let ghost before = old(layouter).table_columns();
        let mut value: usize = 0;
        while value < self.range
            invariant
                value <= self.range,
                layouter.same_circuit(old(layouter)),
                !layouter.region_open(),
                layouter.tables() == old(layouter).tables().push(
                Table {
                    name: "load range-check table",
                    region_index: old(layouter).regions().len() as usize,
                },
            ),
                layouter.regions() == old(layouter).regions().push(
                    RegionView::empty("load range-check table"),
                ),
                table_index == old(layouter).tables().len(),
                before == old(layouter).table_columns(),
                value == 0 ==> layouter.table_columns() == before,
                value > 0 ==> self.load_error(old(layouter)) is None,
                value > 0 ==> layouter.table_columns() == before.push(
                    TableColumnView {
                        table_index,
                        column: self.value,
                        values: range_values(value as nat),
                    },
                ),
            decreases self.range - value,
        {
            proof {
                lemma_find_table_column(layouter.table_columns(), self.value);
                if value > 0 {
                    assert(layouter.table_columns().last().column == self.value);
                }
            }
            let ghost columns = layouter.table_columns();
            layouter.assign_table_cell(self.value, value, Felt::from_u64(value as u64))?;
            proof {
                let felt = Felt::spec_from_u64(value as u64);
                if value == 0 {
                    assert(seq![felt] =~= range_values(1));
                } else {
                    assert(range_values(value as nat).push(felt) =~= range_values(
                        (value + 1) as nat,
                    ));
                    assert(columns.update(
                        columns.len() - 1,
                        TableColumnView {
                            values: columns.last().values.push(felt),
                            ..columns.last()
                        },
                    ) =~= before.push(
                        TableColumnView {
                            table_index,
                            column: self.value,
                            values: range_values((value + 1) as nat),
                        },
                    ));
                }
            }
            value = value + 1;
        }
        Ok(())
    }
}

/// A single value is a row of a table of the values below a range exactly
/// where it is known and below the range.
pub proof fn lemma_range_table_has(
    columns: Seq<TableColumnView>,
    entries: Seq<LookupEntry>,
    tuple: Seq<Option<nat>>,
    range: usize,
)
    requires
        entries.len() == 1,
        tuple.len() == 1,
        table_values(columns, entries[0].table) == range_values(range as nat),
    ensures
        table_has(columns, entries, tuple) <==> (tuple[0] is Some && tuple[0]->0 < range),
{
    if table_has(columns, entries, tuple) {
        let j = choose|j: int| 0 <= j && #[trigger] table_row_is(columns, entries, j, tuple);
        assert(entries[0].table == entries[0].table);
        Felt::lemma_from_u64(j as u64);
    }
    if tuple[0] is Some && tuple[0]->0 < range {
        let j = tuple[0]->0 as int;
        Felt::lemma_from_u64(j as u64);
        assert(table_row_is(columns, entries, j, tuple));
    }
}

} // verus!
