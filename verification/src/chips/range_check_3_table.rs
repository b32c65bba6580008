//! A lookup table of two columns: every value of up to `NUM_BITS` bits,
//! once, each beside the number of bits of its shortest representation.

use crate::chips::range_check_2_table::range_values;
use crate::chips::range_check_4::two_pow;
use crate::circuit::find_table_column;
use crate::circuit::lemma_find_table_column;
use crate::circuit::table_values;
use crate::circuit::Error;
use crate::circuit::Layouter;
use crate::circuit::RegionView;
use crate::circuit::Table;
use crate::circuit::TableColumnView;
use crate::dev::table_has;
use crate::dev::table_row_is;
use crate::field::Felt;
use crate::plonk::ConstraintSystem;
use crate::plonk::LookupEntry;
use crate::plonk::TableColumn;
use vstd::arithmetic::power2::*;
use vstd::prelude::*;

verus! {

/// The number of bits of the shortest representation of a number; 0 and 1
/// take one bit.
pub open spec fn bit_length(v: nat) -> nat
    decreases v,
{
    if v < 2 {
        1
    } else {
        1 + bit_length(v / 2)
    }
}

/// A number between `2^(n-1)` and `2^n` has `n` bits.
pub proof fn lemma_bit_length(v: nat, n: nat)
    requires
        n >= 1,
        pow2((n - 1) as nat) <= v < pow2(n),
    ensures
        bit_length(v) == n,
    decreases n,
{
    lemma2_to64();
    if n == 1 {
    } else {
        lemma_pow2_unfold(n);
        lemma_pow2_unfold((n - 1) as nat);
        if n == 2 {
        } else {
            lemma_pow2_unfold((n - 2) as nat);
        }
        lemma_pow2_pos((n - 2) as nat);
        lemma_bit_length(v / 2, (n - 1) as nat);
    }
}

/// A number of `n` bits lies below `2^n`, and at or above `2^(n-1)` unless
/// it is 0.
pub proof fn lemma_bit_length_bounds(v: nat)
    ensures
        bit_length(v) >= 1,
        v < pow2(bit_length(v)),
        v > 0 ==> pow2((bit_length(v) - 1) as nat) <= v,
    decreases v,
{
    lemma2_to64();
    if v >= 2 {
        lemma_bit_length_bounds(v / 2);
        lemma_pow2_unfold(bit_length(v));
        lemma_pow2_unfold(bit_length(v / 2));
    }
}

/// The numbers of bits of `0, 1, ..., range - 1` as field elements.
pub open spec fn bit_lengths(range: nat) -> Seq<Felt> {
    Seq::new(range, |i: int| Felt::spec_from_u64(bit_length(i as nat) as u64))
}

/// A lookup table whose rows are the pairs `(num_bits, value)`: every value
/// below `2^NUM_BITS`, with the number of its bits.
///
/// ```text
/// | offset | num_bits | value |
/// |--------|----------|-------|
/// |   0    |    1     |   0   |
/// |   1    |    1     |   1   |
/// |   2    |    2     |   2   |
/// |   3    |    2     |   3   |
/// |   4    |    3     |   4   |
/// ```
#[derive(Clone, Copy, Debug, PartialEq, Eq)]
pub struct RangeCheckTableConfig {
    pub value: TableColumn,
    pub num_bits: TableColumn,
    /// The number of rows of the table.
    pub lookup_table_range: usize,
    /// The greatest number of bits of a value in the table.
    pub max_bits: usize,
}

impl RangeCheckTableConfig {
    /// The size of the table agrees with its width in bits.
    pub open spec fn wf(&self) -> bool {
        &&& self.max_bits < 32
        &&& self.lookup_table_range == pow2(self.max_bits as nat)
    }

    /// Declares the two columns of the table.
    pub fn configure(cs: &mut ConstraintSystem, lookup_table_range: usize, max_bits: usize) -> (r:
        Self)
        requires
            max_bits < 32,
            lookup_table_range == pow2(max_bits as nat),
        ensures
            r.value.index == old(cs).fixed_columns@.len(),
            r.num_bits.index == old(cs).fixed_columns@.len() + 1,
            r.lookup_table_range == lookup_table_range,
            r.max_bits == max_bits,
            r.wf(),
            final(cs).fixed_columns@ == old(cs).fixed_columns@.push(true).push(true),
            final(cs).same_but_fixed(old(cs)),
    {
        let value = cs.lookup_table_column();
        let num_bits = cs.lookup_table_column();
        RangeCheckTableConfig { value, num_bits, lookup_table_range, max_bits }
    }

    /// What keeps the first row of the table from being loaded, if
    /// anything does: the column of the numbers of bits is not one of the
    /// circuit's table columns, or it is loaded already.
    pub open spec fn first_error(&self, layouter: &Layouter) -> Option<Error> {
        if !layouter.cs().has_table(self.num_bits) {
            Some(Error::ColumnNotDeclared)
        } else if find_table_column(layouter.table_columns(), self.num_bits) is Some {
            Some(Error::TableCellMisplaced)
        } else {
            None
        }
    }

    /// What keeps the table from being loaded once the first cell is
    /// there, if anything does: the column of the values is not one of the
    /// circuit's table columns, or it is loaded already, or it is the
    /// column of the numbers of bits.
    pub open spec fn second_error(&self, layouter: &Layouter) -> Option<Error> {
        if !layouter.cs().has_table(self.value) {
            Some(Error::ColumnNotDeclared)
        } else if self.value == self.num_bits || find_table_column(
            layouter.table_columns(),
            self.value,
        ) is Some {
            Some(Error::TableCellMisplaced)
        } else {
            None
        }
    }

    /// The column of the numbers of bits with its first `rows` rows.
    pub open spec fn loaded_num_bits(&self, table_index: usize, rows: nat) -> TableColumnView {
        TableColumnView { table_index, column: self.num_bits, values: bit_lengths(rows) }
    }

    /// The column of the values with its first `rows` rows.
    pub open spec fn loaded_values(&self, table_index: usize, rows: nat) -> TableColumnView {
        TableColumnView { table_index, column: self.value, values: range_values(rows) }
    }

    /// Loads the table: row `i` holds the value `i` and the number of bits
    /// of `i`. Loading a table that is loaded already fails and leaves the
    /// loaded columns as they are.
    pub fn load(&self, layouter: &mut Layouter) -> (r: Result<(), Error>)
        requires
            self.wf(),
        ensures
            final(layouter).same_circuit(old(layouter)),
            !final(layouter).region_open(),
            final(layouter).tables() == old(layouter).tables().push(
                Table {
                    name: "load range-check table with num_bits",
                    region_index: old(layouter).regions().len() as usize,
                },
            ),
            final(layouter).regions() == old(layouter).regions().push(
                RegionView::empty("load range-check table with num_bits"),
            ),
            match self.first_error(old(layouter)) {
                Some(e) => {
                    &&& r == Err::<(), Error>(e)
                    &&& final(layouter).table_columns() == old(layouter).table_columns()
                },
                None => match self.second_error(old(layouter)) {
                    Some(e) => {
                        &&& r == Err::<(), Error>(e)
                        &&& final(layouter).table_columns() == old(layouter).table_columns().push(
                            self.loaded_num_bits(old(layouter).tables().len() as usize, 1),
                        )
                    },
                    None => r is Ok && final(layouter).table_columns()
                        == old(layouter).table_columns().push(
                        self.loaded_num_bits(
                            old(layouter).tables().len() as usize,
                            self.lookup_table_range as nat,
                        ),
                    ).push(
                        self.loaded_values(
                            old(layouter).tables().len() as usize,
                            self.lookup_table_range as nat,
                        ),
                    ),
                },
            },
    {
        let table_index = layouter.assign_table("load range-check table with num_bits");
        let ghost before = old(layouter).table_columns();
        proof {
            lemma_find_table_column(before, self.num_bits);
            lemma_find_table_column(before, self.value);
            lemma2_to64();
        }

        // | offset | num_bits | value |
        // |   0    |    1     |   0   |
        let mut offset: usize = 0;
        layouter.assign_table_cell(self.num_bits, offset, Felt::one())?;
        proof {
            assert(seq![Felt::spec_from_u64(1)] =~= bit_lengths(1));
            lemma_find_table_column(layouter.table_columns(), self.value);
            assert(layouter.table_columns().last().column == self.num_bits);
            assert(layouter.table_columns().drop_last() =~= before);
        }
        layouter.assign_table_cell(self.value, offset, Felt::zero())?;
        proof {
            assert(seq![Felt::spec_from_u64(0)] =~= range_values(1));
        }
        offset = offset + 1;

        // Then, for each number of bits, the values that take so many.
        let mut num_bits: usize = 1;
        while num_bits <= self.max_bits
            invariant
                self.wf(),
                1 <= num_bits <= self.max_bits + 1,
                offset == pow2((num_bits - 1) as nat),
                self.first_error(old(layouter)) is None,
                self.second_error(old(layouter)) is None,
                before == old(layouter).table_columns(),
                table_index == old(layouter).tables().len(),
                layouter.same_circuit(old(layouter)),
                !layouter.region_open(),
                layouter.tables() == old(layouter).tables().push(
                Table {
                    name: "load range-check table with num_bits",
                    region_index: old(layouter).regions().len() as usize,
                },
            ),
                layouter.regions() == old(layouter).regions().push(
                    RegionView::empty("load range-check table with num_bits"),
                ),
                layouter.table_columns() == before.push(
                    self.loaded_num_bits(table_index, offset as nat),
                ).push(self.loaded_values(table_index, offset as nat)),
            decreases self.max_bits + 1 - num_bits,
        {
            proof {
                lemma2_to64();
                lemma_pow2_unfold(num_bits as nat);
                lemma_pow2_strictly_increases(num_bits as nat, 32);
                lemma_pow2_unfold(32);
                lemma_pow2_pos((num_bits - 1) as nat);
            }
            let low = two_pow(num_bits - 1) as usize;
            let high = two_pow(num_bits) as usize;
            let mut value: usize = low;
            while value < high
                invariant
                    self.wf(),
                    1 <= num_bits <= self.max_bits,
                    low == pow2((num_bits - 1) as nat),
                    high == pow2(num_bits as nat),
                    high <= 0x8000_0000,
                    1 <= low <= value <= high,
                    offset == value,
                    self.first_error(old(layouter)) is None,
                    self.second_error(old(layouter)) is None,
                    before == old(layouter).table_columns(),
                    table_index == old(layouter).tables().len(),
                    layouter.same_circuit(old(layouter)),
                    !layouter.region_open(),
                !layouter.region_open(),
                    layouter.tables() == old(layouter).tables().push(
                Table {
                    name: "load range-check table with num_bits",
                    region_index: old(layouter).regions().len() as usize,
                },
            ),
                    layouter.regions() == old(layouter).regions().push(
                        RegionView::empty("load range-check table with num_bits"),
                    ),
                    layouter.table_columns() == before.push(
                        self.loaded_num_bits(table_index, offset as nat),
                    ).push(self.loaded_values(table_index, offset as nat)),
                decreases high - value,
            {
                let ghost columns = layouter.table_columns();
                let ghost n = before.len() as int;
                proof {
                    lemma_find_table_column(columns, self.num_bits);
                    lemma_find_table_column(columns, self.value);
                    assert(columns[n].column == self.num_bits);
                    assert(columns[n + 1].column == self.value);
                    lemma_bit_length(value as nat, num_bits as nat);
                }
                let first = layouter.assign_table_cell(
                    self.num_bits,
                    offset,
                    Felt::from_u64(num_bits as u64),
                );
                assert(first is Ok);
                let ghost half = layouter.table_columns();
                proof {
                    lemma_find_table_column(half, self.value);
                    assert(half[n + 1].column == self.value);
                    assert(bit_lengths(offset as nat).push(Felt::spec_from_u64(num_bits as u64))
                        =~= bit_lengths((offset + 1) as nat));
                }
                let second = layouter.assign_table_cell(
                    self.value,
                    offset,
                    Felt::from_u64(value as u64),
                );
                assert(second is Ok);
                proof {
                    assert(range_values(offset as nat).push(Felt::spec_from_u64(value as u64))
                        =~= range_values((offset + 1) as nat));
                    assert(layouter.table_columns() =~= before.push(
                        self.loaded_num_bits(table_index, (offset + 1) as nat),
                    ).push(self.loaded_values(table_index, (offset + 1) as nat)));
                }
                offset = offset + 1;
                value = value + 1;
            }
            num_bits = num_bits + 1;
        }
        Ok(())
    }
}

/// A number below `2^64` has no more than 64 bits.
pub proof fn lemma_bit_length_small(v: nat)
    requires
        v < pow2(64),
    ensures
        1 <= bit_length(v) <= 64,
{
    lemma_bit_length_bounds(v);
    if bit_length(v) > 64 {
        lemma_pow2_strictly_increases(64, (bit_length(v) - 1) as nat);
    }
}

/// The table holds every value once, beside the number of its bits: row
/// `value` holds the pair of a value below the number of rows, and no other
/// row holds that value.
pub proof fn lemma_every_pair_once(rows: nat, value: nat)
    requires
        value < rows <= pow2(64),
    ensures
        bit_lengths(rows)[value as int].value() == bit_length(value),
        range_values(rows)[value as int].value() == value,
        forall|j: int|
            0 <= j < rows && j != value ==> (#[trigger] range_values(rows)[j]).value() != value,
{
    lemma2_to64();
    lemma_bit_length_small(value);
    Felt::lemma_from_u64(value as u64);
    Felt::lemma_from_u64(bit_length(value) as u64);
    assert forall|j: int| 0 <= j < rows && j != value implies (#[trigger] range_values(
        rows,
    )[j]).value() != value by {
        Felt::lemma_from_u64(j as u64);
    }
}

/// Every pair of a number of bits from 1 to `max_bits` and a value of
/// exactly so many bits is a row of the table of `2^max_bits` rows, and of
/// one row only.
pub proof fn lemma_every_pair_in_table(max_bits: nat, num_bits: nat, value: nat)
    requires
        1 <= num_bits <= max_bits <= 64,
        bit_length(value) == num_bits,
    ensures
        value < pow2(max_bits),
        forall|j: int|
            0 <= j < pow2(max_bits) ==> (((#[trigger] bit_lengths(pow2(max_bits))[j]).value()
                == num_bits && range_values(pow2(max_bits))[j].value() == value) <==> j == value),
{
    let rows = pow2(max_bits);
    lemma_bit_length_bounds(value);
    if num_bits < max_bits {
        lemma_pow2_strictly_increases(num_bits, max_bits);
    }
    if max_bits < 64 {
        lemma_pow2_strictly_increases(max_bits, 64);
    }
    lemma_every_pair_once(rows, value);
    assert forall|j: int| 0 <= j < rows implies (((#[trigger] bit_lengths(rows)[j]).value()
        == num_bits && range_values(rows)[j].value() == value) <==> j == value) by {
        if j != value {
            assert(range_values(rows)[j].value() != value);
        }
    }
}

/// A pair is a row of the table exactly where both parts are known, the
/// value is below the number of rows and the number of bits is that of
/// the value.
pub proof fn lemma_pair_table_has(
    columns: Seq<TableColumnView>,
    entries: Seq<LookupEntry>,
    tuple: Seq<Option<nat>>,
    rows: usize,
)
    requires
        entries.len() == 2,
        tuple.len() == 2,
        table_values(columns, entries[0].table) == bit_lengths(rows as nat),
        table_values(columns, entries[1].table) == range_values(rows as nat),
    ensures
        table_has(columns, entries, tuple) <==> (tuple[0] is Some && tuple[1] is Some
            && tuple[1]->0 < rows && tuple[0]->0 == bit_length(tuple[1]->0)),
{
    lemma2_to64();
    if table_has(columns, entries, tuple) {
        let j = choose|j: int| 0 <= j && #[trigger] table_row_is(columns, entries, j, tuple);
        assert(entries[0].table == entries[0].table);
        assert(entries[1].table == entries[1].table);
        lemma_every_pair_once(rows as nat, j as nat);
    }
    if tuple[0] is Some && tuple[1] is Some && tuple[1]->0 < rows && tuple[0]->0 == bit_length(
        tuple[1]->0,
    ) {
        let j = tuple[1]->0 as int;
        lemma_every_pair_once(rows as nat, j as nat);
        assert(table_row_is(columns, entries, j, tuple)) by {
            assert forall|k: int| 0 <= k < entries.len() implies {
                let values = table_values(columns, (#[trigger] entries[k]).table);
                &&& j < values.len()
                &&& tuple[k] == Some(values[j].value())
            } by {
                if k == 0 {
                } else {
                    assert(k == 1);
                }
            }
        }
    }
}

} // verus!
