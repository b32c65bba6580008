//! A range check for values of any number of bits, by a running sum over
//! chunks of as many bits as one lookup table holds.

use crate::chips::range_check_4_table::RangeTableConfig;
use crate::circuit::cell_value;
use crate::circuit::find_cell;
use crate::circuit::lemma_find_cell_at;
use crate::circuit::lemma_find_cell_none;
use crate::circuit::AssignedCell;
use crate::circuit::Cell;
use crate::circuit::CopyConstraint;
use crate::circuit::Error;
use crate::circuit::Layouter;
use crate::circuit::RegionView;
use crate::circuit::Value;
use crate::decomposition::bits_value;
use crate::decomposition::chunk;
use crate::decomposition::le_bits;
use crate::decomposition::lemma_bits_value_bound;
use crate::decomposition::lemma_chunk_bits;
use crate::decomposition::lemma_chunk_bound;
use crate::decomposition::lemma_num_chunks;
use crate::decomposition::lemma_running_sum_chunk;
use crate::decomposition::lemma_running_sum_reduced;
use crate::decomposition::num_chunks;
use crate::decomposition::running_sum;
use crate::dev::eval;
use crate::field::fadd;
use crate::field::fmul;
use crate::field::fneg;
use crate::field::fp_invert;
use crate::field::fp_mul;
use crate::field::fp_sub;
use crate::field::fp_to_le_bits;
use crate::field::fsub;
use crate::field::modulus;
use crate::field::Felt;
use crate::modular::inv_pow2;
use crate::modular::lemma_cong_mul;
use crate::modular::lemma_cong_small;
use crate::modular::lemma_fadd_fneg;
use crate::modular::lemma_fmul;
use crate::modular::lemma_inv_pow2;
use crate::modular::lemma_inv_pow2_unique;
use crate::modular::lemma_modulus_bounds;
use crate::plonk::with_equality;
use crate::plonk::AdviceColumn;
use crate::plonk::Column;
use crate::plonk::Constraint;
use crate::plonk::ConstraintSystem;
use crate::plonk::Expression;
use crate::plonk::GateView;
use crate::plonk::LookupEntry;
use crate::plonk::LookupView;
use crate::plonk::Rotation;
use crate::plonk::Selector;
use crate::plonk::TableColumn;
use vstd::arithmetic::div_mod::*;
use vstd::arithmetic::mul::*;
use vstd::arithmetic::power2::*;
use vstd::bits::lemma_u64_shl_is_mul;
use vstd::prelude::*;

verus! {

/// The number of bits that the representation of a field element has.
pub const FIELD_BITS: usize = 256;

/// The number of bits of a value that a decomposition into `num_bits` bits
/// looks at: no more than the representation has.
pub open spec fn looked_at(num_bits: usize) -> nat {
    if num_bits < FIELD_BITS {
        num_bits as nat
    } else {
        FIELD_BITS as nat
    }
}

/// Two to the power `k`.
pub fn two_pow(k: usize) -> (r: u64)
    requires
        k < 64,
    ensures
        r == pow2(k as nat),
{
    proof {
        vstd::bits::lemma_u64_pow2_no_overflow(k as nat);
        lemma_u64_shl_is_mul(1, k as u64);
    }
    1u64 << k
}

/// The number that up to 64 bits stand for, least significant bit first.
pub fn lebs2ip(bits: &[bool]) -> (r: u64)
    requires
        bits@.len() <= 64,
    ensures
        r == bits_value(bits@),
{
    let mut acc: u64 = 0;
    let mut i: usize = 0;
    while i < bits.len()
        invariant
            i <= bits@.len() <= 64,
            acc == bits_value(bits@.take(i as int)),
        decreases bits@.len() - i,
    {
        proof {
            lemma_bits_value_bound(bits@.take(i as int));
            assert(bits@.take(i as int + 1).drop_last() =~= bits@.take(i as int));
            lemma_pow2_unfold((i + 1) as nat);
            vstd::bits::lemma_u64_pow2_no_overflow(i as nat);
            if i < 63 {
                lemma_pow2_strictly_increases((i + 1) as nat, 64);
            }
            lemma2_to64();
        }
        if bits[i] {
            acc = acc + two_pow(i);
        }
        i = i + 1;
    }
    assert(bits@.take(i as int) =~= bits@);
    acc
}

/// The chunks of `lookup_num_bits` bits that the lowest `num_bits` bits of
/// a value are cut into, least significant chunk first.
pub fn decompose(value: &Felt, num_bits: usize, lookup_num_bits: usize) -> (r: Vec<u64>)
    requires
        0 < lookup_num_bits < 64,
    ensures
        r@.len() == num_chunks(looked_at(num_bits), lookup_num_bits as nat),
        forall|i: int|
            0 <= i < r@.len() ==> r@[i] == chunk(
                value.value() % modulus(),
                looked_at(num_bits),
                lookup_num_bits as nat,
                i as nat,
            ),
{
    let bits = fp_to_le_bits(value);
    let n: usize = if num_bits < FIELD_BITS {
        num_bits
    } else {
        FIELD_BITS
    };
    let ghost v = value.value() % modulus();
    let ghost k = lookup_num_bits as nat;
    let mut chunks: Vec<u64> = Vec::new();
    let mut start: usize = 0;
    assert(bits@.subrange(0, n as int) =~= le_bits(v, n as nat));
    proof {
        assert(0 * k == 0) by (nonlinear_arith);
    }
    while start < n
        invariant
            0 < lookup_num_bits < 64,
            k == lookup_num_bits,
            n <= FIELD_BITS,
            n == looked_at(num_bits),
            bits@.len() == 256,
            bits@.subrange(0, n as int) == le_bits(v, n as nat),
            start <= n,
            start < n ==> start == chunks@.len() * k,
            start == n ==> chunks@.len() == num_chunks(n as nat, k),
            chunks@.len() <= num_chunks(n as nat, k),
            forall|i: int| 0 <= i < chunks@.len() ==> chunks@[i] == chunk(v, n as nat, k, i as nat),
        decreases n - start,
    {
        let end: usize = if n - start < lookup_num_bits {
            n
        } else {
            start + lookup_num_bits
        };
        let ghost i = chunks@.len() as nat;
        let piece = vstd::slice::slice_subrange(bits.as_slice(), start, end);
        proof {
            assert(piece@ =~= le_bits(v, n as nat).subrange(start as int, end as int));
            lemma_chunk_bits(v, n as nat, k, i);
            lemma_num_chunks(n as nat, k);
            assert((i + 1) * k == i * k + k) by (nonlinear_arith);
            if i >= num_chunks(n as nat, k) {
                assert(i * k >= num_chunks(n as nat, k) * k) by (nonlinear_arith)
                    requires
                        i >= num_chunks(n as nat, k),
                ;
            }
            if end == n {
                // The chunk that ends at bit `n` is the last one.
                if i + 1 < num_chunks(n as nat, k) {
                    assert((i + 1) * k <= (num_chunks(n as nat, k) - 1) * k) by (nonlinear_arith)
                        requires
                            i + 1 <= num_chunks(n as nat, k) - 1,
                    ;
                }
            }
        }
        let c = lebs2ip(piece);
        chunks.push(c);
        start = end;
    }
    proof {
        lemma_num_chunks(n as nat, k);
    }
    chunks
}

/// The terms `z_1, ..., z_C` of the running sum over a value: each takes
/// the next chunk away and divides by `2^lookup_num_bits`.
pub fn compute_running_sum(value: Felt, num_bits: usize, lookup_num_bits: usize) -> (r: Vec<Felt>)
    requires
        0 < lookup_num_bits < 64,
    ensures
        r@.len() == num_chunks(looked_at(num_bits), lookup_num_bits as nat),
        forall|i: int|
            0 <= i < r@.len() ==> (#[trigger] r@[i]).value() == running_sum(
                value.value() % modulus(),
                looked_at(num_bits),
                lookup_num_bits as nat,
                (i + 1) as nat,
            ),
{
    let ghost v = value.value() % modulus();
    let ghost n = looked_at(num_bits);
    let ghost k = lookup_num_bits as nat;
    let chunks = decompose(&value, num_bits, lookup_num_bits);
    let two_pow_k = Felt::from_u64(two_pow(lookup_num_bits));
    proof {
        lemma_modulus_bounds();
        lemma_pow2_strictly_increases(k, 64);
        lemma_small_mod(pow2(k), modulus());
        lemma_pow2_pos(k);
    }
    let inverse = fp_invert(&two_pow_k);
    let inv = inverse.unwrap();
    proof {
        lemma_inv_pow2_unique(k, pow2(k), inv.value());
    }
    let mut terms: Vec<Felt> = Vec::new();
    let mut z = value;
    let mut i: usize = 0;
    while i < chunks.len()
        invariant
            i <= chunks@.len(),
            chunks@.len() == num_chunks(n, k),
            forall|j: int| 0 <= j < chunks@.len() ==> chunks@[j] == chunk(v, n, k, j as nat),
            inv.value() == inv_pow2(k),
            v == value.value() % modulus(),
            terms@.len() == i,
            i == 0 ==> z == value,
            i > 0 ==> z.value() == running_sum(v, n, k, i as nat),
            forall|j: int|
                0 <= j < i ==> (#[trigger] terms@[j]).value() == running_sum(
                    v,
                    n,
                    k,
                    (j + 1) as nat,
                ),
        decreases chunks@.len() - i,
    {
        let c = Felt::from_u64(chunks[i]);
        proof {
            // Reducing the first term changes nothing in the difference.
            lemma_sub_mod_noop(value.value() as int, c.value() as int, modulus() as int);
            lemma_small_mod(c.value(), modulus());
            lemma_mod_twice(value.value() as int, modulus() as int);
            lemma_sub_mod_noop(v as int, c.value() as int, modulus() as int);
            assert(fsub(z.value(), c.value()) == fsub(running_sum(v, n, k, i as nat), c.value()));
        }
        z = fp_mul(&fp_sub(&z, &c), &inv);
        terms.push(z);
        i = i + 1;
    }
    terms
}

/// The polynomial `z_i - z_(i+1) * 2^k` over a running-sum column, read on
/// the row of `z_i`: the chunk that the step from `z_i` to `z_(i+1)` takes
/// away.
pub open spec fn chunk_expression(running_sum: AdviceColumn, k: usize) -> Expression {
    (Expression::Advice { column: running_sum, rotation: Rotation(0) }).spec_minus(
        (Expression::Advice { column: running_sum, rotation: Rotation(1) }).spec_scaled(
            Felt::spec_from_u64(pow2(k as nat) as u64),
        ),
    )
}

/// The polynomial that checks the last, shorter chunk, read on the row of
/// `z_C`: `c * 2^k * w - s`, where `c = z_(C-1) - z_C * 2^k` is the last
/// chunk, `s` is the cell on the next row and `w` the cell two rows on.
pub open spec fn partial_check_expression(running_sum: AdviceColumn, k: usize) -> Expression {
    (Expression::Advice { column: running_sum, rotation: Rotation(-1i32) }).spec_minus(
        (Expression::Advice { column: running_sum, rotation: Rotation(0) }).spec_scaled(
            Felt::spec_from_u64(pow2(k as nat) as u64),
        ),
    ).spec_scaled(Felt::spec_from_u64(pow2(k as nat) as u64)).spec_times(
        Expression::Advice { column: running_sum, rotation: Rotation(2) },
    ).spec_minus(Expression::Advice { column: running_sum, rotation: Rotation(1) })
}

/// The gadget that constrains a witnessed element to `num_bits` bits, for
/// any `num_bits`, with one table of `lookup_num_bits` bits.
///
/// The element is the first term `z_0` of a running sum down one column.
/// Each step takes a chunk of `k = lookup_num_bits` bits away and divides
/// by `2^k`; a lookup argument keeps each chunk `z_i - z_(i+1) * 2^k` within
/// the table, and the last term is bound to zero.
///
/// ```text
/// | running_sum | q_decompose | q_partial_check |
/// |-------------|-------------|-----------------|
/// |     z_0     |      1      |        0        |
/// |     z_1     |      1      |        0        |
/// |     ...     |     ...     |       ...       |
/// |   z_(C-1)   |      1      |        0        |
/// |     z_C     |      0      |        0        |
/// ```
///
/// Where `k` does not divide `num_bits`, the last chunk has only
/// `p = num_bits % k` bits. Its row is left out of `q_decompose`. Instead
/// `q_partial_check` is enabled on the row of `z_C`, and two more cells
/// follow: the chunk shifted up, `s = c * 2^(k - p)`, and the constant
/// `w = 2^(-p)`. A gate checks `c * 2^k * w = s`, and a second lookup
/// argument keeps `s` within the table, which it is exactly where `c` has no
/// more than `p` bits.
#[derive(Clone, Copy, Debug, PartialEq, Eq)]
pub struct RangeCheckDecomposeConfig {
    /// The advice column that holds the running sum.
    pub running_sum: AdviceColumn,
    /// The selector of the rows whose chunk is looked up.
    pub q_decompose: Selector,
    /// The selector of the row on which the last, shorter chunk is checked.
    pub q_partial_check: Selector,
    /// The table of `lookup_num_bits` bits.
    pub table: RangeTableConfig,
}

impl RangeCheckDecomposeConfig {
    /// The lookup argument for the chunks.
    pub open spec fn chunk_lookup(&self) -> LookupView {
        LookupView {
            name: "chunk",
            selector: self.q_decompose,
            entries: seq![
                LookupEntry {
                    input: chunk_expression(self.running_sum, self.table.lookup_num_bits),
                    table: self.table.value,
                    default: Felt::spec_from_u64(0),
                },
            ],
        }
    }

    /// A gate for the last, shorter chunk.
    pub open spec fn partial_gate(&self) -> GateView {
        GateView {
            name: "final partial chunk",
            selector: self.q_partial_check,
            constraints: seq![
                Constraint {
                    name: "",
                    poly: partial_check_expression(self.running_sum, self.table.lookup_num_bits),
                },
            ],
        }
    }

    /// The lookup argument for the last chunk, shifted up.
    pub open spec fn shifted_lookup(&self) -> LookupView {
        LookupView {
            name: "shifted chunk",
            selector: self.q_partial_check,
            entries: seq![
                LookupEntry {
                    input: Expression::Advice { column: self.running_sum, rotation: Rotation(1) },
                    table: self.table.value,
                    default: Felt::spec_from_u64(0),
                },
            ],
        }
    }

    /// The gadget as `configure` returns it, in a shape that held
    /// `selectors` selectors and `fixed` fixed columns before.
    pub open spec fn configured(
        running_sum: AdviceColumn,
        lookup_num_bits: usize,
        lookup_range: usize,
        selectors: nat,
        fixed: nat,
    ) -> RangeCheckDecomposeConfig {
        RangeCheckDecomposeConfig {
            running_sum,
            q_decompose: Selector { index: selectors as usize, simple: false },
            q_partial_check: Selector { index: (selectors + 1) as usize, simple: false },
            table: RangeTableConfig {
                value: TableColumn { index: fixed as usize },
                lookup_num_bits,
                lookup_range,
            },
        }
    }

    /// Declares the gadget in a circuit's shape: two selectors, the table
    /// column, equality on the running-sum column, the lookup argument for
    /// the chunks, and a gate and a lookup argument for the last chunk.
    pub fn configure(
        meta: &mut ConstraintSystem,
        running_sum: AdviceColumn,
        lookup_num_bits: usize,
        lookup_range: usize,
    ) -> (r: Self)
        requires
            old(meta).has_advice(running_sum),
            0 < lookup_num_bits < 64,
            lookup_range == pow2(lookup_num_bits as nat),
        ensures
            r == Self::configured(
                running_sum,
                lookup_num_bits,
                lookup_range,
                old(meta).selectors@.len(),
                old(meta).fixed_columns@.len(),
            ),
            final(meta).num_advice_columns == old(meta).num_advice_columns,
            final(meta).num_instance_columns == old(meta).num_instance_columns,
            final(meta).constants == old(meta).constants,
            final(meta).selectors@ == old(meta).selectors@.push(false).push(false),
            final(meta).fixed_columns@ == old(meta).fixed_columns@.push(true),
            final(meta).equality@ == with_equality(
                old(meta).equality@,
                Column::Advice(running_sum),
            ),
            final(meta).gate_views() == old(meta).gate_views().push(r.partial_gate()),
            final(meta).lookup_views() == old(meta).lookup_views().push(r.chunk_lookup()).push(
                r.shifted_lookup(),
            ),
    {
        let q_decompose = meta.complex_selector();
        let q_partial_check = meta.complex_selector();
        assert(meta.has_selector(q_decompose) && meta.has_selector(q_partial_check));
        let table = RangeTableConfig::configure(meta, lookup_num_bits, lookup_range);

        meta.enable_equality(Column::Advice(running_sum));

        let two_pow_k = Felt::from_u64(two_pow(lookup_num_bits));

        // Look up each chunk `c_i = z_i - z_(i+1) * 2^k`; 0 where the
        // selector is off.
        let z_cur = meta.query_advice(running_sum, Rotation::cur());
        let z_next = meta.query_advice(running_sum, Rotation::next());
        let chunk = z_cur.minus(z_next.scaled(two_pow_k));
        proof {
            reveal_with_fuel(Expression::declared, 5);
            assert(chunk.declared(&*meta));
        }
        let mut entries: Vec<LookupEntry> = Vec::new();
        entries.push(LookupEntry { input: chunk, table: table.value, default: Felt::zero() });
        meta.lookup("chunk", q_decompose, entries);

        // A gate for the last, shorter chunk.
        let z_prev = meta.query_advice(running_sum, Rotation::prev());
        let z_cur = meta.query_advice(running_sum, Rotation::cur());
        let final_chunk = z_prev.minus(z_cur.scaled(two_pow_k));
        let shifted_chunk = meta.query_advice(running_sum, Rotation::next());
        let inv_two_pow_s = meta.query_advice(running_sum, Rotation(2));
        let partial_check = final_chunk.scaled(two_pow_k).times(inv_two_pow_s).minus(shifted_chunk);
        proof {
            reveal_with_fuel(Expression::declared, 8);
            assert(partial_check.declared(&*meta));
        }
        let mut constraints: Vec<Constraint> = Vec::new();
        constraints.push(Constraint { name: "", poly: partial_check });
        meta.create_gate("final partial chunk", q_partial_check, constraints);

        // Look up the shifted chunk; 0 where the selector is off.
        let shifted = meta.query_advice(running_sum, Rotation::next());
        let mut entries: Vec<LookupEntry> = Vec::new();
        entries.push(LookupEntry { input: shifted, table: table.value, default: Felt::zero() });
        meta.lookup("shifted chunk", q_partial_check, entries);

        RangeCheckDecomposeConfig { running_sum, q_decompose, q_partial_check, table }
    }
}

impl RangeCheckDecomposeConfig {
    /// The table is as wide as it says.
    pub open spec fn wf(&self) -> bool {
        self.table.wf()
    }

    /// The width of the table in bits.
    pub open spec fn k(&self) -> nat {
        self.table.lookup_num_bits as nat
    }

    /// Term `i` of the running sum over a value; unknown if the value is.
    pub open spec fn term(&self, value: Value, num_bits: usize, i: nat) -> Value {
        match value {
            Some(v) => Some(
                Felt::from_value(running_sum(v.value() % modulus(), num_bits as nat, self.k(), i)),
            ),
            None => None,
        }
    }

    /// The last chunk of a value shifted up to the full width of the table;
    /// unknown if the value is.
    pub open spec fn shifted(&self, value: Value, num_bits: usize) -> Value {
        match value {
            Some(v) => Some(
                Felt::from_value(
                    fmul(
                        chunk(
                            v.value() % modulus(),
                            num_bits as nat,
                            self.k(),
                            (num_chunks(num_bits as nat, self.k()) - 1) as nat,
                        ),
                        pow2((self.k() - num_bits as nat % self.k()) as nat),
                    ),
                ),
            ),
            None => None,
        }
    }

    /// The inverse of two to the length of the last, shorter chunk.
    pub open spec fn shift_inverse(&self, num_bits: usize) -> Felt {
        Felt::from_value(inv_pow2(num_bits as nat % self.k()))
    }

    /// The number of rows that the gadget fills: one per term of the
    /// running sum, and two more where the last chunk is shorter.
    pub open spec fn num_rows(&self, num_bits: usize) -> nat {
        num_chunks(num_bits as nat, self.k()) + 1 + if num_bits as nat % self.k() > 0 {
            2nat
        } else {
            0nat
        }
    }

    /// The value in each row of the region.
    pub open spec fn row_value(&self, value: Value, num_bits: usize, row: nat) -> Value {
        let c = num_chunks(num_bits as nat, self.k());
        if row == 0 {
            value
        } else if row <= c {
            self.term(value, num_bits, row)
        } else if row == c + 1 {
            self.shifted(value, num_bits)
        } else {
            Some(self.shift_inverse(num_bits))
        }
    }

    /// The cell in each row of the region.
    pub open spec fn row_cell(
        &self,
        region_index: usize,
        value: Value,
        num_bits: usize,
        row: nat,
    ) -> AssignedCell {
        AssignedCell {
            cell: Cell { region_index, column: self.running_sum, row_offset: row as usize },
            value: self.row_value(value, num_bits, row),
        }
    }

    /// The cells of the region, row by row.
    pub open spec fn cells(&self, region_index: usize, value: Value, num_bits: usize) -> Seq<
        AssignedCell,
    > {
        Seq::new(
            self.num_rows(num_bits),
            |row: int| self.row_cell(region_index, value, num_bits, row as nat),
        )
    }

    /// The rows on which the selectors are enabled: the chunk lookup on
    /// the rows of the full chunks, the check of the last chunk on the row
    /// of the last term where that chunk is shorter.
    pub open spec fn enabled(&self, num_bits: usize) -> Seq<(Selector, usize)> {
        let full = Seq::new(
            num_bits as nat / self.k(),
            |row: int| (self.q_decompose, row as usize),
        );
        if num_bits as nat % self.k() > 0 {
            full.push((self.q_partial_check, num_chunks(num_bits as nat, self.k()) as usize))
        } else {
            full
        }
    }

    /// The copy constraints of the region: the first term is the witnessed
    /// cell, the last term is zero, and the last cell is the inverse that
    /// it has to be.
    pub open spec fn constraints(&self, region_index: usize, source: Cell, num_bits: usize) -> Seq<
        CopyConstraint,
    > {
        let c = num_chunks(num_bits as nat, self.k());
        let column = self.running_sum;
        let both = seq![
            CopyConstraint::Equal {
                left: Cell { region_index, column, row_offset: 0 },
                right: source,
            },
            CopyConstraint::Constant {
                cell: Cell { region_index, column, row_offset: c as usize },
                constant: Felt::spec_from_u64(0),
            },
        ];
        if num_bits as nat % self.k() > 0 {
            both.push(
                CopyConstraint::Constant {
                    cell: Cell { region_index, column, row_offset: (c + 2) as usize },
                    constant: self.shift_inverse(num_bits),
                },
            )
        } else {
            both
        }
    }

    /// The region that the gadget lays out for a witnessed cell.
    pub open spec fn region(
        &self,
        region_index: usize,
        source: AssignedCell,
        num_bits: usize,
    ) -> RegionView {
        RegionView {
            name: "Decompose value",
            cells: self.cells(region_index, source.value, num_bits),
            enabled: self.enabled(num_bits),
            constraints: self.constraints(region_index, source.cell, num_bits),
        }
    }

    /// What keeps the gadget from being laid out, if anything does.
    pub open spec fn assign_error(
        &self,
        layouter: &Layouter,
        source: AssignedCell,
        num_bits: usize,
    ) -> Option<Error> {
        let cs = layouter.cs();
        if !cs.has_advice(self.running_sum) {
            Some(Error::ColumnNotDeclared)
        } else if !cs.equality_enabled(Column::Advice(self.running_sum)) || !cs.equality_enabled(
            Column::Advice(source.cell.column),
        ) {
            Some(Error::ColumnNotInPermutation)
        } else if num_bits as nat / self.k() > 0 && !cs.has_selector(self.q_decompose) {
            Some(Error::SelectorNotDeclared)
        } else if cs.constants@.len() == 0 {
            Some(Error::NotEnoughColumnsForConstants)
        } else if num_bits as nat % self.k() > 0 && !cs.has_selector(self.q_partial_check) {
            Some(Error::SelectorNotDeclared)
        } else {
            None
        }
    }

    /// The terms `z_1, ..., z_C` of the running sum over a value, each
    /// unknown if the value is.
    fn terms(&self, value: Value, num_bits: usize) -> (r: Vec<Value>)
        requires
            self.wf(),
            num_bits <= FIELD_BITS,
        ensures
            r@.len() == num_chunks(num_bits as nat, self.k()),
            forall|i: int| 0 <= i < r@.len() ==> r@[i] == self.term(value, num_bits, (i + 1) as nat),
    {
        let k = self.table.lookup_num_bits;
        let mut terms: Vec<Value> = Vec::new();
        match value {
            Some(v) => {
                let sums = compute_running_sum(v, num_bits, k);
                let mut i: usize = 0;
                while i < sums.len()
                    invariant
                        i <= sums@.len(),
                        terms@.len() == i,
                        value == Some(v),
                        num_bits <= FIELD_BITS,
                        forall|j: int|
                            0 <= j < sums@.len() ==> (#[trigger] sums@[j]).value() == running_sum(
                                v.value() % modulus(),
                                num_bits as nat,
                                self.k(),
                                (j + 1) as nat,
                            ),
                        forall|j: int|
                            0 <= j < i ==> terms@[j] == self.term(value, num_bits, (j + 1) as nat),
                    decreases sums@.len() - i,
                {
                    proof {
                        sums@[i as int].lemma_from_value();
                    }
                    terms.push(Some(sums[i]));
                    i = i + 1;
                }
            },
            None => {
                let expected_vec_len = if num_bits % k > 0 {
                    1 + num_bits / k
                } else {
                    num_bits / k
                };
                let mut i: usize = 0;
                while i < expected_vec_len
                    invariant
                        i <= expected_vec_len,
                        terms@.len() == i,
                        value is None,
                        forall|j: int|
                            0 <= j < i ==> terms@[j] == self.term(value, num_bits, (j + 1) as nat),
                    decreases expected_vec_len - i,
                {
                    terms.push(None);
                    i = i + 1;
                }
            },
        }
        terms
    }

    /// The last chunk of a value as a field element; unknown if the value
    /// is.
    fn final_chunk(&self, value: Value, num_bits: usize) -> (r: Value)
        requires
            self.wf(),
            num_bits <= FIELD_BITS,
            num_bits as nat % self.k() > 0,
        ensures
            value is None ==> r is None,
            value matches Some(v) ==> r matches Some(c) && c.value() == chunk(
                v.value() % modulus(),
                num_bits as nat,
                self.k(),
                (num_chunks(num_bits as nat, self.k()) - 1) as nat,
            ),
    {
        match value {
            Some(v) => {
                let chunks = decompose(&v, num_bits, self.table.lookup_num_bits);
                Some(Felt::from_u64(chunks[chunks.len() - 1]))
            },
            None => None,
        }
    }

    /// Lays out the check of the last, shorter chunk below the running sum:
    /// the selector on the row of the last term, the chunk shifted up on
    /// the next row, and the inverse of the shift, bound to its constant,
    /// on the row after.
    fn short_range_check(
        &self,
        layouter: &mut Layouter,
        offset: usize,
        element: Value,
        partial_len: usize,
    ) -> (r: Result<(), Error>)
        requires
            self.wf(),
            0 < partial_len < self.k(),
            offset + 2 <= usize::MAX,
            old(layouter).region_open(),
            old(layouter).cs().has_advice(self.running_sum),
            old(layouter).cs().equality_enabled(Column::Advice(self.running_sum)),
            old(layouter).cs().constants@.len() > 0,
            find_cell(old(layouter).regions().last().cells, self.running_sum, offset + 1) is None,
            find_cell(old(layouter).regions().last().cells, self.running_sum, offset + 2) is None,
        ensures
            final(layouter).same_but_last_region(old(layouter)),
            !old(layouter).cs().has_selector(self.q_partial_check) ==> r == Err::<(), Error>(
                Error::SelectorNotDeclared,
            ),
            old(layouter).cs().has_selector(self.q_partial_check) ==> r is Ok,
            old(layouter).cs().has_selector(self.q_partial_check) ==> final(layouter).regions().last()
                == old(layouter).regions().last().with_enabled(
                self.q_partial_check,
                offset,
            ).with_cell(
                AssignedCell {
                    cell: Cell {
                        region_index: old(layouter).current(),
                        column: self.running_sum,
                        row_offset: (offset + 1) as usize,
                    },
                    value: match element {
                        Some(e) => Some(
                            Felt::from_value(
                                fmul(e.value(), pow2((self.k() - partial_len) as nat)),
                            ),
                        ),
                        None => None,
                    },
                },
            ).with_cell(
                AssignedCell {
                    cell: Cell {
                        region_index: old(layouter).current(),
                        column: self.running_sum,
                        row_offset: (offset + 2) as usize,
                    },
                    value: Some(Felt::from_value(inv_pow2(partial_len as nat))),
                },
            ).with_constraint(
                CopyConstraint::Constant {
                    cell: Cell {
                        region_index: old(layouter).current(),
                        column: self.running_sum,
                        row_offset: (offset + 2) as usize,
                    },
                    constant: Felt::from_value(inv_pow2(partial_len as nat)),
                },
            ),
    {
        let k = self.table.lookup_num_bits;
        proof {
            layouter.lemma_region_open();
        }
        match layouter.enable(self.q_partial_check, offset) {
            Ok(()) => {},
            Err(e) => {
                assert(layouter.regions().drop_last() =~= old(layouter).regions().drop_last());
                return Err(e);
            },
        }
        let ghost enabled = layouter.regions().last();

        // The chunk shifted up by `k - partial_len` bits.
        let shifted = match element {
            Some(e) => {
                let product = fp_mul(&e, &Felt::from_u64(two_pow(k - partial_len)));
                proof {
                    product.lemma_from_value();
                }
                Some(product)
            },
            None => None,
        };
        let first = layouter.assign_advice(self.running_sum, offset + 1, shifted);
        assert(first is Ok);
        let ghost with_shifted = layouter.regions().last();

        // The inverse of two to the length of the chunk, as a constant.
        let two_pow_s = Felt::from_u64(two_pow(partial_len));
        proof {
            lemma_modulus_bounds();
            lemma_pow2_strictly_increases(partial_len as nat, 64);
            lemma_small_mod(pow2(partial_len as nat), modulus());
            lemma_pow2_pos(partial_len as nat);
        }
        let inverse = fp_invert(&two_pow_s);
        let inv_two_pow_s = inverse.unwrap();
        proof {
            lemma_inv_pow2_unique(partial_len as nat, pow2(partial_len as nat), inv_two_pow_s.value());
            inv_two_pow_s.lemma_from_value();
            lemma_find_cell_none(enabled.cells, self.running_sum, offset + 2);
            lemma_find_cell_none(with_shifted.cells, self.running_sum, offset + 2);
        }
        let second = layouter.assign_advice_from_constant(
            self.running_sum,
            offset + 2,
            inv_two_pow_s,
        );
        assert(second is Ok);
        assert(layouter.regions().drop_last() =~= old(layouter).regions().drop_last());
        Ok(())
    }
}

impl RangeCheckDecomposeConfig {
    /// Lays out the range check of a witnessed cell to `num_bits` bits in a
    /// region of its own.
    pub fn assign(
        &self,
        layouter: &mut Layouter,
        value: AssignedCell,
        num_bits: usize,
    ) -> (r: Result<(), Error>)
        requires
            self.wf(),
            num_bits <= FIELD_BITS,
        ensures
            final(layouter).same_but_regions(old(layouter)),
            final(layouter).regions().len() == old(layouter).regions().len() + 1,
            final(layouter).regions().drop_last() == old(layouter).regions(),
            final(layouter).region_open(),
            match self.assign_error(old(layouter), value, num_bits) {
                Some(e) => r == Err::<(), Error>(e),
                None => r is Ok && final(layouter).regions().last() == self.region(
                    old(layouter).regions().len() as usize,
                    value,
                    num_bits,
                ),
            },
    {
        let k = self.table.lookup_num_bits;
        let partial_len = num_bits % k;
        let region_index = layouter.assign_region("Decompose value");
        let ghost opened = layouter.regions();
        let ghost cells = self.cells(region_index, value.value, num_bits);
        let ghost count = num_chunks(num_bits as nat, self.k());
        proof {
            assert(opened.drop_last() =~= old(layouter).regions());
            lemma_num_chunks(num_bits as nat, self.k());
        }

        // 0. Copy in the witnessed value at offset 0.
        let mut offset: usize = 0;
        let mut z = layouter.copy_advice(&value, self.running_sum, offset)?;
        offset = offset + 1;
        proof {
            assert(layouter.regions().drop_last() =~= opened.drop_last());
            assert(layouter.regions().last().cells =~= cells.take(1));
        }
        let ghost copied = layouter.regions().last().constraints;

        // 1. Compute the terms z_1, ..., z_C of the running sum.
        let terms = self.terms(value.value, num_bits);

        // 2. Assign them, one row each.
        let mut i: usize = 0;
        while i < terms.len()
            invariant
                self.wf(),
                num_bits <= FIELD_BITS,
                i <= terms@.len(),
                terms@.len() == count,
                count == num_chunks(num_bits as nat, self.k()),
                forall|j: int|
                    0 <= j < terms@.len() ==> terms@[j] == self.term(
                        value.value,
                        num_bits,
                        (j + 1) as nat,
                    ),
                offset == i + 1,
                cells == self.cells(region_index, value.value, num_bits),
                region_index == old(layouter).regions().len(),
                layouter.same_but_regions(old(layouter)),
                layouter.regions().len() == old(layouter).regions().len() + 1,
                layouter.region_open(),
                layouter.regions().drop_last() == old(layouter).regions(),
                layouter.regions().last().name == "Decompose value",
                layouter.regions().last().cells == cells.take(i + 1),
                layouter.regions().last().enabled == Seq::<(Selector, usize)>::empty(),
                layouter.regions().last().constraints == copied,
                z == cells[i as int],
                layouter.cs().has_advice(self.running_sum),
                layouter.cs().equality_enabled(Column::Advice(self.running_sum)),
                layouter.cs().equality_enabled(Column::Advice(value.cell.column)),
            decreases terms@.len() - i,
        {
            let ghost before = layouter.regions();
            proof {
                lemma_find_cell_none(before.last().cells, self.running_sum, offset as int);
            }
            let assigned = layouter.assign_advice(self.running_sum, offset, terms[i]);
            assert(assigned is Ok);
            z = assigned.unwrap();
            proof {
                assert(layouter.regions().drop_last() =~= before.drop_last());
                assert(z == cells[i + 1]);
                assert(cells.take(i + 1).push(z) =~= cells.take(i + 2));
            }
            offset = offset + 1;
            i = i + 1;
        }

        // 3. Enable the chunk lookup on each row of the running sum whose
        //    chunk is a full one.
        let full = num_bits / k;
        let mut row: usize = 0;
        while row < full
            invariant
                row <= full,
                full == num_bits as nat / self.k(),
                layouter.same_but_regions(old(layouter)),
                layouter.regions().len() == old(layouter).regions().len() + 1,
                layouter.region_open(),
                layouter.regions().drop_last() == old(layouter).regions(),
                layouter.regions().last().name == "Decompose value",
                layouter.regions().last().cells == cells.take(count as int + 1),
                layouter.regions().last().enabled == Seq::new(
                    row as nat,
                    |r: int| (self.q_decompose, r as usize),
                ),
                layouter.regions().last().constraints == copied,
                row > 0 ==> layouter.cs().has_selector(self.q_decompose),
                layouter.cs().has_advice(self.running_sum),
                layouter.cs().equality_enabled(Column::Advice(self.running_sum)),
                layouter.cs().equality_enabled(Column::Advice(value.cell.column)),
            decreases full - row,
        {
            let ghost before = layouter.regions();
            layouter.enable(self.q_decompose, row)?;
            proof {
                assert(layouter.regions().drop_last() =~= before.drop_last());
                assert(!before.last().enabled.contains((self.q_decompose, row)));
                assert(layouter.regions().last().enabled =~= Seq::new(
                    (row + 1) as nat,
                    |r: int| (self.q_decompose, r as usize),
                ));
            }
            row = row + 1;
        }

        // 4. Bind the last term of the running sum to zero.
        let ghost before = layouter.regions();
        layouter.constrain_constant(z.cell(), Felt::zero())?;
        proof {
            assert(layouter.regions().drop_last() =~= before.drop_last());
        }

        // The last chunk, where it is shorter than the others.
        if partial_len > 0 {
            let final_chunk = self.final_chunk(value.value, num_bits);
            let ghost before = layouter.regions();
            proof {
                lemma_find_cell_none(before.last().cells, self.running_sum, offset as int);
                lemma_find_cell_none(before.last().cells, self.running_sum, offset + 1);
            }
            let checked = self.short_range_check(layouter, offset - 1, final_chunk, partial_len);
            proof {
                assert(layouter.regions().drop_last() =~= before.drop_last());
            }
            checked?;
            proof {
                let last = layouter.regions().last();
                let expected = self.region(region_index, value, num_bits);
                assert(!before.last().enabled.contains((self.q_partial_check, (offset - 1) as usize)));
                assert(last.cells =~= expected.cells);
                assert(last.enabled =~= expected.enabled);
                assert(last.constraints =~= expected.constraints);
            }
        } else {
            proof {
                let last = layouter.regions().last();
                let expected = self.region(region_index, value, num_bits);
                assert(last.cells =~= expected.cells);
                assert(last.enabled =~= expected.enabled);
                assert(last.constraints =~= expected.constraints);
            }
        }
        Ok(())
    }
}

impl RangeCheckDecomposeConfig {
    /// The number in each row of the region over a known, reduced value:
    /// the terms of the running sum, then the last chunk shifted up, then
    /// the inverse of the shift.
    pub open spec fn row_number(&self, v: nat, num_bits: usize, row: nat) -> nat {
        let count = num_chunks(num_bits as nat, self.k());
        if row <= count {
            running_sum(v, num_bits as nat, self.k(), row)
        } else if row == count + 1 {
            fmul(
                chunk(v, num_bits as nat, self.k(), (count - 1) as nat),
                pow2((self.k() - num_bits as nat % self.k()) as nat),
            )
        } else {
            inv_pow2(num_bits as nat % self.k())
        }
    }

    /// Each row of the region holds its cell, and the cell its number.
    pub proof fn lemma_rows(&self, region_index: usize, value: Felt, num_bits: usize, row: nat)
        requires
            self.wf(),
            num_bits <= FIELD_BITS,
            value.wf(),
            row < self.num_rows(num_bits),
        ensures
            find_cell(self.cells(region_index, Some(value), num_bits), self.running_sum, row as int)
                == Some(self.row_cell(region_index, Some(value), num_bits, row)),
            cell_value(
                self.cells(region_index, Some(value), num_bits),
                self.running_sum,
                row as int,
            ) is Some,
            cell_value(
                self.cells(region_index, Some(value), num_bits),
                self.running_sum,
                row as int,
            )->0.value() == self.row_number(value.value(), num_bits, row),
    {
        let cells = self.cells(region_index, Some(value), num_bits);
        let n = num_bits as nat;
        let k = self.k();
        let count = num_chunks(n, k);
        lemma_num_chunks(n, k);
        assert(count <= n) by (nonlinear_arith)
            requires
                k >= 1,
                n > 0 ==> (count - 1) * k < n,
                n == 0 ==> count == 0,
        ;
        lemma_find_cell_at(cells, self.running_sum, row as int, row as int);
        lemma_modulus_bounds();
        lemma_small_mod(value.value(), modulus());
        lemma2_to64();
        lemma_pow2_adds(64, 64);
        lemma_pow2_adds(128, 64);
        lemma_pow2_adds(192, 64);
        lemma_pow2_strictly_increases(255, 256);
        let number = self.row_number(value.value(), num_bits, row);
        if row == 0 {
        } else if row <= count {
            lemma_running_sum_reduced(value.value(), n, k, row);
            Felt::lemma_value_of_from_value(number);
        } else if row == count + 1 {
            lemma_fmul(chunk(value.value(), n, k, (count - 1) as nat), pow2((k - n % k) as nat));
            Felt::lemma_value_of_from_value(number);
        } else {
            lemma_inv_pow2(n % k);
            Felt::lemma_value_of_from_value(number);
        }
    }

    /// On the row of a full chunk, the polynomial of the chunk lookup
    /// evaluates to the chunk, which is below `2^k`.
    pub proof fn lemma_chunk_input(
        &self,
        region_index: usize,
        source: AssignedCell,
        num_bits: usize,
        row: usize,
    )
        requires
            self.wf(),
            num_bits <= FIELD_BITS,
            source.value is Some,
            source.value->0.wf(),
            row < num_chunks(num_bits as nat, self.k()),
        ensures
            eval(
                chunk_expression(self.running_sum, self.table.lookup_num_bits),
                self.region(region_index, source, num_bits),
                row,
            ) == Some(chunk(source.value->0.value(), num_bits as nat, self.k(), row as nat)),
            chunk(source.value->0.value(), num_bits as nat, self.k(), row as nat) < pow2(self.k()),
    {
        let v = source.value->0;
        let k = self.k();
        let region = self.region(region_index, source, num_bits);
        self.lemma_rows(region_index, v, num_bits, row as nat);
        self.lemma_rows(region_index, v, num_bits, (row + 1) as nat);
        lemma_eval_chunk_expression(
            self.running_sum,
            self.table.lookup_num_bits,
            region,
            row,
            cell_value(region.cells, self.running_sum, row as int)->0,
            cell_value(region.cells, self.running_sum, row + 1)->0,
        );
        lemma_running_sum_chunk(v.value(), num_bits as nat, k, row as nat);
        lemma_chunk_bound(v.value(), num_bits as nat, k, row as nat);
    }

    /// On the row of the last term, where the last chunk is shorter, the
    /// polynomial of the check of that chunk vanishes, and the cell on the
    /// next row holds the chunk shifted up, which is below `2^k`.
    pub proof fn lemma_partial_check(
        &self,
        region_index: usize,
        source: AssignedCell,
        num_bits: usize,
    )
        requires
            self.wf(),
            num_bits <= FIELD_BITS,
            source.value is Some,
            source.value->0.wf(),
            num_bits as nat % self.k() > 0,
        ensures
            eval(
                partial_check_expression(self.running_sum, self.table.lookup_num_bits),
                self.region(region_index, source, num_bits),
                num_chunks(num_bits as nat, self.k()) as usize,
            ) == Some(0nat),
            eval(
                Expression::Advice { column: self.running_sum, rotation: Rotation(1) },
                self.region(region_index, source, num_bits),
                num_chunks(num_bits as nat, self.k()) as usize,
            ) == Some(
                self.row_number(
                    source.value->0.value(),
                    num_bits,
                    num_chunks(num_bits as nat, self.k()) + 1,
                ),
            ),
            self.row_number(
                source.value->0.value(),
                num_bits,
                num_chunks(num_bits as nat, self.k()) + 1,
            ) < pow2(self.k()),
    {
        let v = source.value->0;
        let n = num_bits as nat;
        let k = self.k();
        let s = n % k;
        let count = num_chunks(n, k);
        let last = (count - 1) as nat;
        let region = self.region(region_index, source, num_bits);
        lemma_last_chunk_start(n, k);
        self.lemma_rows(region_index, v, num_bits, last);
        self.lemma_rows(region_index, v, num_bits, count);
        self.lemma_rows(region_index, v, num_bits, count + 1);
        self.lemma_rows(region_index, v, num_bits, count + 2);
        lemma_eval_partial_check(
            self.running_sum,
            self.table.lookup_num_bits,
            region,
            count as usize,
            cell_value(region.cells, self.running_sum, count - 1)->0,
            cell_value(region.cells, self.running_sum, count as int)->0,
            cell_value(region.cells, self.running_sum, count as int + 1)->0,
            cell_value(region.cells, self.running_sum, count as int + 2)->0,
        );
        lemma_running_sum_chunk(v.value(), n, k, last);
        let c = chunk(v.value(), n, k, last);
        crate::decomposition::lemma_chunk_bits(v.value(), n, k, last);
        lemma_shift_identity(c, k, s);
        lemma_fadd_fneg(fmul(c, pow2((k - s) as nat)));
    }
}

/// The last chunk starts at bit `n - n % k` where `k` does not divide `n`.
pub proof fn lemma_last_chunk_start(n: nat, k: nat)
    requires
        k > 0,
        n % k > 0,
    ensures
        num_chunks(n, k) >= 1,
        (num_chunks(n, k) - 1) * k == n - n % k,
        (num_chunks(n, k) - 1) * k < n,
        (num_chunks(n, k) - 1) * k + k > n,
{
    lemma_fundamental_div_mod(n as int, k as int);
    lemma_mod_bound(n as int, k as int);
    assert((n / k) * k == k * (n / k)) by (nonlinear_arith);
}

/// Multiplying by `2^k` and by the inverse of `2^s` is multiplying by
/// `2^(k-s)`; and a number of no more than `s` bits, so multiplied, stays
/// below `2^k`.
pub proof fn lemma_shift_identity(c: nat, k: nat, s: nat)
    requires
        0 < s < k <= 254,
    ensures
        fmul(fmul(c, pow2(k)), inv_pow2(s)) == fmul(c, pow2((k - s) as nat)),
        c < pow2(s) ==> fmul(c, pow2((k - s) as nat)) == c * pow2((k - s) as nat),
        c < pow2(s) ==> fmul(c, pow2((k - s) as nat)) < pow2(k),
{
    let two_k = pow2(k);
    let rest = pow2((k - s) as nat);
    let inv = inv_pow2(s);
    let shifted = fmul(c, rest);
    let scaled = fmul(c, two_k);
    let checked = fmul(scaled, inv);
    lemma_fmul(c, two_k);
    lemma_fmul(scaled, inv);
    lemma_fmul(c, rest);
    lemma_inv_pow2(s);
    lemma_pow2_adds((k - s) as nat, s);
    lemma_cong_mul(scaled as int, (c * two_k) as int, inv as int, inv as int);
    assert((c * two_k) * inv == (c * rest) * (pow2(s) * inv)) by (nonlinear_arith)
        requires
            two_k == rest * pow2(s),
    ;
    lemma_cong_mul((c * rest) as int, (c * rest) as int, (pow2(s) * inv) as int, 1);
    assert((c * rest) * 1 == c * rest);
    lemma_cong_small(checked as int, shifted as int);
    if c < pow2(s) {
        lemma_pow2_pos((k - s) as nat);
        assert(c * rest < two_k) by (nonlinear_arith)
            requires
                c < pow2(s),
                rest > 0,
                two_k == rest * pow2(s),
        ;
        lemma_modulus_bounds();
        if k < 254 {
            lemma_pow2_strictly_increases(k, 254);
        }
        lemma_small_mod(c * rest, modulus());
    }
}

/// The polynomial of the chunk lookup, evaluated on a row whose cell and
/// the cell below it are known.
pub proof fn lemma_eval_chunk_expression(
    column: AdviceColumn,
    k: usize,
    region: RegionView,
    row: usize,
    z: Felt,
    next: Felt,
)
    requires
        k < 64,
        row < usize::MAX,
        cell_value(region.cells, column, row as int) == Some(z),
        cell_value(region.cells, column, row + 1) == Some(next),
    ensures
        eval(chunk_expression(column, k), region, row) == Some(
            fadd(z.value(), fneg(fmul(next.value(), pow2(k as nat)))),
        ),
{
    lemma_pow2_strictly_increases(k as nat, 64);
    lemma2_to64();
    Felt::lemma_from_u64(pow2(k as nat) as u64);
    reveal_with_fuel(eval, 5);
}

/// The polynomial of the check of the last chunk, evaluated on a row
/// around which four cells are known: the one above, the one on the row and
/// the two below.
pub proof fn lemma_eval_partial_check(
    column: AdviceColumn,
    k: usize,
    region: RegionView,
    row: usize,
    prev: Felt,
    cur: Felt,
    next: Felt,
    after: Felt,
)
    requires
        k < 64,
        0 < row < usize::MAX - 1,
        cell_value(region.cells, column, row - 1) == Some(prev),
        cell_value(region.cells, column, row as int) == Some(cur),
        cell_value(region.cells, column, row + 1) == Some(next),
        cell_value(region.cells, column, row + 2) == Some(after),
    ensures
        eval(partial_check_expression(column, k), region, row) == Some(
            fadd(
                fmul(
                    fmul(
                        fadd(prev.value(), fneg(fmul(cur.value(), pow2(k as nat)))),
                        pow2(k as nat),
                    ),
                    after.value(),
                ),
                fneg(next.value()),
            ),
        ),
        eval(Expression::Advice { column, rotation: Rotation(1) }, region, row) == Some(
            next.value(),
        ),
{
    lemma_pow2_strictly_increases(k as nat, 64);
    lemma2_to64();
    Felt::lemma_from_u64(pow2(k as nat) as u64);
    let chunk = (Expression::Advice { column, rotation: Rotation(-1i32) }).spec_minus(
        (Expression::Advice { column, rotation: Rotation(0) }).spec_scaled(
            Felt::spec_from_u64(pow2(k as nat) as u64),
        ),
    );
    assert(eval(chunk, region, row) == Some(
        fadd(prev.value(), fneg(fmul(cur.value(), pow2(k as nat)))),
    )) by {
        reveal_with_fuel(eval, 5);
    }
    let product = chunk.spec_scaled(Felt::spec_from_u64(pow2(k as nat) as u64)).spec_times(
        Expression::Advice { column, rotation: Rotation(2) },
    );
    assert(eval(product, region, row) == Some(
        fmul(
            fmul(fadd(prev.value(), fneg(fmul(cur.value(), pow2(k as nat)))), pow2(k as nat)),
            after.value(),
        ),
    )) by {
        reveal_with_fuel(eval, 3);
    }
    assert(partial_check_expression(column, k) == product.spec_minus(
        Expression::Advice { column, rotation: Rotation(1) },
    ));
    reveal_with_fuel(eval, 3);
}

} // verus!
