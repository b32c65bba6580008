//! Checking a witness against the shape of its circuit: every enabled gate,
//! every lookup argument and every copy constraint, with a report of each
//! one that fails.

use crate::circuit::cell_value;
use crate::circuit::get_cell;
use crate::circuit::instance_value;
use crate::circuit::table_values;
use crate::circuit::Cell;
use crate::circuit::CopyConstraint;
use crate::circuit::Layouter;
use crate::circuit::Region;
use crate::circuit::RegionView;
use crate::circuit::TableColumnView;
use crate::circuit::Value;
use crate::field::fadd;
use crate::field::fmul;
use crate::field::fneg;
use crate::field::fp_add;
use crate::field::fp_mul;
use crate::field::fp_neg;
use crate::field::modulus;
use crate::field::Felt;
use crate::plonk::blended;
use crate::plonk::guarded;
use crate::plonk::AdviceColumn;
use crate::plonk::Expression;
use crate::plonk::Gate;
use crate::plonk::GateView;
use crate::plonk::Lookup;
use crate::plonk::LookupEntry;
use crate::plonk::LookupView;
use crate::plonk::Rotation;
use vstd::prelude::*;

verus! {

/// One way in which a witness fails its circuit.
#[derive(Clone, Copy, Debug, PartialEq, Eq)]
pub enum VerifyFailure {
    /// A polynomial of an enabled gate reads a cell that was not assigned
    /// in the region, or whose value is unknown.
    CellNotAssigned {
        gate_index: usize,
        gate_name: &'static str,
        constraint_index: usize,
        constraint_name: &'static str,
        region_index: usize,
        region_name: &'static str,
        offset: usize,
    },
    /// A polynomial of an enabled gate does not vanish.
    ConstraintNotSatisfied {
        gate_index: usize,
        gate_name: &'static str,
        constraint_index: usize,
        constraint_name: &'static str,
        region_index: usize,
        region_name: &'static str,
        offset: usize,
    },
    /// The inputs of a lookup argument on a row where its selector is
    /// enabled are no row of its table.
    Lookup {
        lookup_index: usize,
        lookup_name: &'static str,
        region_index: usize,
        region_name: &'static str,
        offset: usize,
    },
    /// The defaults of a lookup argument, which stand in for the inputs on
    /// every row where its selector is off, are no row of its table.
    LookupDefault { lookup_index: usize, lookup_name: &'static str },
    /// A copy constraint does not hold.
    Permutation { region_index: usize, region_name: &'static str, constraint_index: usize },
}

/// The value of a polynomial on a row of a region: `None` where it reads a
/// cell that was not assigned in the region or whose value is unknown.
pub open spec fn eval(expr: Expression, region: RegionView, row: usize) -> Option<nat>
    decreases expr,
{
    match expr {
        Expression::Constant(c) => Some(c.value()),
        Expression::Selector(s) => Some(
            if region.enabled.contains((s, row)) {
                1nat
            } else {
                0nat
            },
        ),
        Expression::Advice { column, rotation } => match cell_value(
            region.cells,
            column,
            row + rotation.0,
        ) {
            Some(v) => Some(v.value()),
            None => None,
        },
        Expression::Negated(a) => match eval(*a, region, row) {
            Some(x) => Some(fneg(x)),
            None => None,
        },
        Expression::Sum(a, b) => match (eval(*a, region, row), eval(*b, region, row)) {
            (Some(x), Some(y)) => Some(fadd(x, y)),
            _ => None,
        },
        Expression::Product(a, b) => match (eval(*a, region, row), eval(*b, region, row)) {
            (Some(x), Some(y)) => Some(fmul(x, y)),
            _ => None,
        },
        Expression::Scaled(a, c) => match eval(*a, region, row) {
            Some(x) => Some(fmul(x, c.value())),
            None => None,
        },
    }
}

/// The value that an exec evaluation found is the one that `eval` gives.
pub open spec fn evaluates_to(r: Value, expected: Option<nat>) -> bool {
    match r {
        Some(v) => expected == Some(v.value()),
        None => expected is None,
    }
}

/// The row that lies at a rotation from a row, if it is a row at all.
fn rotate(row: usize, rotation: Rotation) -> (r: Option<usize>)
    ensures
        match r {
            Some(target) => target == row + rotation.0,
            None => row + rotation.0 < 0 || row + rotation.0 > usize::MAX,
        },
{
    if rotation.0 >= 0 {
        row.checked_add(rotation.0 as usize)
    } else {
        let back: i64 = -(rotation.0 as i64);
        row.checked_sub(back as usize)
    }
}

/// Whether the selector is enabled on the row.
fn enabled_on(region: &Region, selector: crate::plonk::Selector, row: usize) -> (r: bool)
    ensures
        r == region@.enabled.contains((selector, row)),
{
    let mut i: usize = 0;
    while i < region.enabled.len()
        invariant
            i <= region.enabled@.len(),
            forall|j: int| 0 <= j < i ==> region.enabled@[j] != (selector, row),
        decreases region.enabled@.len() - i,
    {
        if region.enabled[i].0 == selector && region.enabled[i].1 == row {
            assert(region.enabled@[i as int] == (selector, row));
            return true;
        }
        i = i + 1;
    }
    false
}

/// Evaluates a polynomial on a row of a region.
pub fn evaluate(expr: &Expression, region: &Region, row: usize) -> (r: Value)
    ensures
        evaluates_to(r, eval(*expr, region@, row)),
    decreases *expr,
{
    match expr {
        Expression::Constant(c) => Some(*c),
        Expression::Selector(s) => {
            if enabled_on(region, *s, row) {
                Some(Felt::one())
            } else {
                Some(Felt::zero())
            }
        },
        Expression::Advice { column, rotation } => {
            match rotate(row, *rotation) {
                Some(target) => match get_cell(&region.cells, *column, target) {
                    Some(cell) => cell.value,
                    None => None,
                },
                None => {
                    proof {
                        crate::circuit::lemma_find_cell_none(
                            region@.cells,
                            *column,
                            row + rotation.0,
                        );
                    }
                    None
                },
            }
        },
        Expression::Negated(a) => match evaluate(a, region, row) {
            Some(x) => Some(fp_neg(&x)),
            None => None,
        },
        Expression::Sum(a, b) => match (evaluate(a, region, row), evaluate(b, region, row)) {
            (Some(x), Some(y)) => Some(fp_add(&x, &y)),
            _ => None,
        },
        Expression::Product(a, b) => match (evaluate(a, region, row), evaluate(b, region, row)) {
            (Some(x), Some(y)) => Some(fp_mul(&x, &y)),
            _ => None,
        },
        Expression::Scaled(a, c) => match evaluate(a, region, row) {
            Some(x) => Some(fp_mul(&x, c)),
            None => None,
        },
    }
}

/// What one polynomial of a gate gives on a row where that gate's selector
/// is enabled: a failure, or nothing where the polynomial vanishes.
pub open spec fn constraint_outcome(
    gate: GateView,
    gate_index: usize,
    constraint_index: int,
    region: RegionView,
    region_index: usize,
    offset: usize,
) -> Option<VerifyFailure> {
    let constraint = gate.constraints[constraint_index];
    match eval(constraint.poly, region, offset) {
        None => Some(
            VerifyFailure::CellNotAssigned {
                gate_index,
                gate_name: gate.name,
                constraint_index: constraint_index as usize,
                constraint_name: constraint.name,
                region_index,
                region_name: region.name,
                offset,
            },
        ),
        Some(v) => if v == 0 {
            None
        } else {
            Some(
                VerifyFailure::ConstraintNotSatisfied {
                    gate_index,
                    gate_name: gate.name,
                    constraint_index: constraint_index as usize,
                    constraint_name: constraint.name,
                    region_index,
                    region_name: region.name,
                    offset,
                },
            )
        },
    }
}

/// A sequence with one more element where there is one.
pub open spec fn push_some<T>(s: Seq<T>, item: Option<T>) -> Seq<T> {
    match item {
        Some(x) => s.push(x),
        None => s,
    }
}

/// The failures of the first `upto` polynomials of a gate on a row.
pub open spec fn row_failures(
    gate: GateView,
    gate_index: usize,
    region: RegionView,
    region_index: usize,
    offset: usize,
    upto: nat,
) -> Seq<VerifyFailure>
    decreases upto,
{
    if upto == 0 {
        Seq::empty()
    } else {
        push_some(
            row_failures(gate, gate_index, region, region_index, offset, (upto - 1) as nat),
            constraint_outcome(gate, gate_index, upto - 1, region, region_index, offset),
        )
    }
}

/// The failures of a gate on the rows of a region that the first `upto`
/// entries of the region's list of enabled selectors name.
pub open spec fn region_gate_failures(
    gate: GateView,
    gate_index: usize,
    region: RegionView,
    region_index: usize,
    upto: nat,
) -> Seq<VerifyFailure>
    decreases upto,
{
    if upto == 0 {
        Seq::empty()
    } else {
        let before = region_gate_failures(gate, gate_index, region, region_index, (upto - 1) as nat);
        let entry = region.enabled[upto - 1];
        if entry.0 == gate.selector {
            before + row_failures(
                gate,
                gate_index,
                region,
                region_index,
                entry.1,
                gate.constraints.len(),
            )
        } else {
            before
        }
    }
}

/// The failures of a gate in the first `upto` regions.
pub open spec fn gate_failures(
    gate: GateView,
    gate_index: usize,
    regions: Seq<RegionView>,
    upto: nat,
) -> Seq<VerifyFailure>
    decreases upto,
{
    if upto == 0 {
        Seq::empty()
    } else {
        gate_failures(gate, gate_index, regions, (upto - 1) as nat) + region_gate_failures(
            gate,
            gate_index,
            regions[upto - 1],
            (upto - 1) as usize,
            regions[upto - 1].enabled.len(),
        )
    }
}

/// The failures of the first `upto` gates.
pub open spec fn all_gate_failures(
    gates: Seq<GateView>,
    regions: Seq<RegionView>,
    upto: nat,
) -> Seq<VerifyFailure>
    decreases upto,
{
    if upto == 0 {
        Seq::empty()
    } else {
        all_gate_failures(gates, regions, (upto - 1) as nat) + gate_failures(
            gates[upto - 1],
            (upto - 1) as usize,
            regions,
            regions.len(),
        )
    }
}

/// Row `j` of the table columns that a lookup argument names holds the
/// tuple.
pub open spec fn table_row_is(
    columns: Seq<TableColumnView>,
    entries: Seq<LookupEntry>,
    j: int,
    tuple: Seq<Option<nat>>,
) -> bool {
    forall|k: int|
        0 <= k < entries.len() ==> {
            let values = table_values(columns, (#[trigger] entries[k]).table);
            &&& j < values.len()
            &&& tuple[k] == Some(values[j].value())
        }
}

/// The tuple is a row of the table columns that a lookup argument names.
pub open spec fn table_has(
    columns: Seq<TableColumnView>,
    entries: Seq<LookupEntry>,
    tuple: Seq<Option<nat>>,
) -> bool {
    exists|j: int| 0 <= j && #[trigger] table_row_is(columns, entries, j, tuple)
}

/// The inputs of a lookup argument on a row of a region.
pub open spec fn lookup_inputs(lookup: LookupView, region: RegionView, row: usize) -> Seq<
    Option<nat>,
> {
    Seq::new(lookup.entries.len(), |k: int| eval(lookup.entries[k].input, region, row))
}

/// The defaults of a lookup argument.
pub open spec fn lookup_defaults(lookup: LookupView) -> Seq<Option<nat>> {
    Seq::new(lookup.entries.len(), |k: int| Some(lookup.entries[k].default.value()))
}

/// The failures of a lookup argument on the rows of a region that the
/// first `upto` entries of the region's list of enabled selectors name.
pub open spec fn region_lookup_failures(
    lookup: LookupView,
    lookup_index: usize,
    columns: Seq<TableColumnView>,
    region: RegionView,
    region_index: usize,
    upto: nat,
) -> Seq<VerifyFailure>
    decreases upto,
{
    if upto == 0 {
        Seq::empty()
    } else {
        let before = region_lookup_failures(
            lookup,
            lookup_index,
            columns,
            region,
            region_index,
            (upto - 1) as nat,
        );
        let entry = region.enabled[upto - 1];
        if entry.0 == lookup.selector && !table_has(
            columns,
            lookup.entries,
            lookup_inputs(lookup, region, entry.1),
        ) {
            before.push(
                VerifyFailure::Lookup {
                    lookup_index,
                    lookup_name: lookup.name,
                    region_index,
                    region_name: region.name,
                    offset: entry.1,
                },
            )
        } else {
            before
        }
    }
}

/// The failures of a lookup argument in the first `upto` regions, after
/// the failure of its defaults, if they fail.
pub open spec fn lookup_failures(
    lookup: LookupView,
    lookup_index: usize,
    columns: Seq<TableColumnView>,
    regions: Seq<RegionView>,
    upto: nat,
) -> Seq<VerifyFailure>
    decreases upto,
{
    if upto == 0 {
        if table_has(columns, lookup.entries, lookup_defaults(lookup)) {
            Seq::empty()
        } else {
            seq![VerifyFailure::LookupDefault { lookup_index, lookup_name: lookup.name }]
        }
    } else {
        lookup_failures(lookup, lookup_index, columns, regions, (upto - 1) as nat)
            + region_lookup_failures(
            lookup,
            lookup_index,
            columns,
            regions[upto - 1],
            (upto - 1) as usize,
            regions[upto - 1].enabled.len(),
        )
    }
}

/// The failures of the first `upto` lookup arguments.
pub open spec fn all_lookup_failures(
    lookups: Seq<LookupView>,
    columns: Seq<TableColumnView>,
    regions: Seq<RegionView>,
    upto: nat,
) -> Seq<VerifyFailure>
    decreases upto,
{
    if upto == 0 {
        Seq::empty()
    } else {
        all_lookup_failures(lookups, columns, regions, (upto - 1) as nat) + lookup_failures(
            lookups[upto - 1],
            (upto - 1) as usize,
            columns,
            regions,
            regions.len(),
        )
    }
}

/// The value of a cell, wherever its region lies: `None` where the cell
/// was not assigned or its value is unknown.
pub open spec fn value_of(regions: Seq<RegionView>, cell: Cell) -> Option<nat> {
    if cell.region_index < regions.len() {
        match cell_value(regions[cell.region_index as int].cells, cell.column, cell.row_offset as int) {
            Some(v) => Some(v.value()),
            None => None,
        }
    } else {
        None
    }
}

/// The copy constraint holds: both sides are known and equal.
pub open spec fn constraint_holds(
    constraint: CopyConstraint,
    regions: Seq<RegionView>,
    instance: Seq<Seq<Felt>>,
) -> bool {
    match constraint {
        CopyConstraint::Equal { left, right } => value_of(regions, left) is Some && value_of(
            regions,
            left,
        ) == value_of(regions, right),
        CopyConstraint::Constant { cell, constant } => value_of(regions, cell) == Some(
            constant.value(),
        ),
        CopyConstraint::Instance { cell, column, row } => match instance_value(
            instance,
            column,
            row,
        ) {
            Some(v) => value_of(regions, cell) == Some(v.value()),
            None => false,
        },
    }
}

/// The failures of the first `upto` copy constraints of a region.
pub open spec fn region_copy_failures(
    regions: Seq<RegionView>,
    instance: Seq<Seq<Felt>>,
    region_index: usize,
    upto: nat,
) -> Seq<VerifyFailure>
    decreases upto,
{
    if upto == 0 {
        Seq::empty()
    } else {
        let before = region_copy_failures(regions, instance, region_index, (upto - 1) as nat);
        let region = regions[region_index as int];
        if constraint_holds(region.constraints[upto - 1], regions, instance) {
            before
        } else {
            before.push(
                VerifyFailure::Permutation {
                    region_index,
                    region_name: region.name,
                    constraint_index: (upto - 1) as usize,
                },
            )
        }
    }
}

/// The failures of the copy constraints of the first `upto` regions.
pub open spec fn copy_failures(
    regions: Seq<RegionView>,
    instance: Seq<Seq<Felt>>,
    upto: nat,
) -> Seq<VerifyFailure>
    decreases upto,
{
    if upto == 0 {
        Seq::empty()
    } else {
        copy_failures(regions, instance, (upto - 1) as nat) + region_copy_failures(
            regions,
            instance,
            (upto - 1) as usize,
            regions[upto - 1].constraints.len(),
        )
    }
}

/// Every failure of a witness: those of the gates, gate by gate, then
/// those of the lookup arguments, then those of the copy constraints.
pub open spec fn failures(layouter: &Layouter) -> Seq<VerifyFailure> {
    all_gate_failures(
        layouter.cs().gate_views(),
        layouter.regions(),
        layouter.cs().gate_views().len(),
    ) + all_lookup_failures(
        layouter.cs().lookup_views(),
        layouter.table_columns(),
        layouter.regions(),
        layouter.cs().lookup_views().len(),
    ) + copy_failures(layouter.regions(), layouter.instance(), layouter.regions().len())
}

/// The number that a value stands for, if the value is known.
pub open spec fn value_nat(v: Value) -> Option<nat> {
    match v {
        Some(x) => Some(x.value()),
        None => None,
    }
}

/// The numbers that a tuple of values stands for.
pub open spec fn tuple_nats(tuple: Seq<Value>) -> Seq<Option<nat>> {
    Seq::new(tuple.len(), |k: int| value_nat(tuple[k]))
}

/// Appends the failures of the polynomials of a gate on one row.
fn check_row(
    gate: &Gate,
    gate_index: usize,
    region: &Region,
    region_index: usize,
    offset: usize,
    out: &mut Vec<VerifyFailure>,
)
    ensures
        final(out)@ == old(out)@ + row_failures(
            gate@,
            gate_index,
            region@,
            region_index,
            offset,
            gate@.constraints.len(),
        ),
{
    let mut j: usize = 0;
    assert(out@ =~= old(out)@ + Seq::<VerifyFailure>::empty());
    while j < gate.constraints.len()
        invariant
            j <= gate@.constraints.len(),
            out@ == old(out)@ + row_failures(
                gate@,
                gate_index,
                region@,
                region_index,
                offset,
                j as nat,
            ),
        decreases gate@.constraints.len() - j,
    {
        let ghost before = row_failures(gate@, gate_index, region@, region_index, offset, j as nat);
        let constraint = &gate.constraints[j];
        match evaluate(&constraint.poly, region, offset) {
            None => {
                let failure = VerifyFailure::CellNotAssigned {
                    gate_index,
                    gate_name: gate.name,
                    constraint_index: j,
                    constraint_name: constraint.name,
                    region_index,
                    region_name: region.name,
                    offset,
                };
                out.push(failure);
                assert(out@ =~= old(out)@ + before.push(failure));
            },
            Some(v) => {
                if !v.is_zero() {
                    let failure = VerifyFailure::ConstraintNotSatisfied {
                        gate_index,
                        gate_name: gate.name,
                        constraint_index: j,
                        constraint_name: constraint.name,
                        region_index,
                        region_name: region.name,
                        offset,
                    };
                    out.push(failure);
                    assert(out@ =~= old(out)@ + before.push(failure));
                }
            },
        }
        j = j + 1;
    }
}

/// Appends the failures of a gate in one region.
fn check_gate_in_region(
    gate: &Gate,
    gate_index: usize,
    region: &Region,
    region_index: usize,
    out: &mut Vec<VerifyFailure>,
)
    ensures
        final(out)@ == old(out)@ + region_gate_failures(
            gate@,
            gate_index,
            region@,
            region_index,
            region@.enabled.len(),
        ),
{
    let mut i: usize = 0;
    assert(out@ =~= old(out)@ + Seq::<VerifyFailure>::empty());
    while i < region.enabled.len()
        invariant
            i <= region@.enabled.len(),
            out@ == old(out)@ + region_gate_failures(
                gate@,
                gate_index,
                region@,
                region_index,
                i as nat,
            ),
        decreases region@.enabled.len() - i,
    {
        let ghost before = region_gate_failures(gate@, gate_index, region@, region_index, i as nat);
        let entry = region.enabled[i];
        if entry.0 == gate.selector {
            check_row(gate, gate_index, region, region_index, entry.1, out);
            assert(out@ =~= old(out)@ + (before + row_failures(
                gate@,
                gate_index,
                region@,
                region_index,
                entry.1,
                gate@.constraints.len(),
            )));
        }
        i = i + 1;
    }
}

/// Appends the failures of every gate.
fn check_gates(layouter: &Layouter, out: &mut Vec<VerifyFailure>)
    ensures
        final(out)@ == old(out)@ + all_gate_failures(
            layouter.cs().gate_views(),
            layouter.regions(),
            layouter.cs().gate_views().len(),
        ),
{
    let cs = layouter.constraint_system();
    let ghost gates = layouter.cs().gate_views();
    let ghost regions = layouter.regions();
    let mut g: usize = 0;
    assert(out@ =~= old(out)@ + Seq::<VerifyFailure>::empty());
    while g < cs.gates.len()
        invariant
            *cs == layouter.cs(),
            gates == layouter.cs().gate_views(),
            regions == layouter.regions(),
            g <= gates.len(),
            out@ == old(out)@ + all_gate_failures(gates, regions, g as nat),
        decreases gates.len() - g,
    {
        let gate = &cs.gates[g];
        let ghost done = all_gate_failures(gates, regions, g as nat);
        let mut r: usize = 0;
        assert(out@ =~= old(out)@ + (done + Seq::<VerifyFailure>::empty()));
        while r < layouter.num_regions()
            invariant
                regions == layouter.regions(),
                gate@ == gates[g as int],
                r <= regions.len(),
                out@ == old(out)@ + (done + gate_failures(gate@, g, regions, r as nat)),
            decreases regions.len() - r,
        {
            let ghost before = gate_failures(gate@, g, regions, r as nat);
            check_gate_in_region(gate, g, layouter.region(r), r, out);
            assert(out@ =~= old(out)@ + (done + (before + region_gate_failures(
                gate@,
                g,
                regions[r as int],
                r,
                regions[r as int].enabled.len(),
            ))));
            r = r + 1;
        }
        g = g + 1;
    }
}

/// Whether row `j` of the table columns that the entries name holds the
/// tuple.
fn row_matches(layouter: &Layouter, entries: &Vec<LookupEntry>, j: usize, tuple: &Vec<Value>) -> (r:
    bool)
    requires
        tuple@.len() == entries@.len(),
    ensures
        r == table_row_is(layouter.table_columns(), entries@, j as int, tuple_nats(tuple@)),
{
    let mut k: usize = 0;
    while k < entries.len()
        invariant
            k <= entries@.len(),
            tuple@.len() == entries@.len(),
            forall|m: int|
                0 <= m < k ==> {
                    let values = table_values(
                        layouter.table_columns(),
                        (#[trigger] entries@[m]).table,
                    );
                    &&& j < values.len()
                    &&& tuple_nats(tuple@)[m] == Some(values[j as int].value())
                },
        decreases entries@.len() - k,
    {
        let matched = match (layouter.loaded_values(entries[k].table), tuple[k]) {
            (Some(values), Some(v)) => {
                if j < values.len() {
                    proof {
                        if v.value() == values@[j as int].value() {
                            Felt::lemma_value_injective(v, values@[j as int]);
                        }
                    }
                    v == values[j]
                } else {
                    false
                }
            },
            _ => false,
        };
        if !matched {
            assert(entries@[k as int].table == entries@[k as int].table);
            return false;
        }
        k = k + 1;
    }
    true
}

/// Whether the tuple is a row of the table columns that the entries name.
fn table_contains(layouter: &Layouter, entries: &Vec<LookupEntry>, tuple: &Vec<Value>) -> (r: bool)
    requires
        tuple@.len() == entries@.len(),
    ensures
        r == table_has(layouter.table_columns(), entries@, tuple_nats(tuple@)),
{
    if entries.len() == 0 {
        assert(table_row_is(layouter.table_columns(), entries@, 0, tuple_nats(tuple@)));
        return true;
    }
    let rows = match layouter.loaded_values(entries[0].table) {
        Some(values) => values.len(),
        None => 0,
    };
    let mut j: usize = 0;
    while j < rows
        invariant
            j <= rows,
            entries@.len() > 0,
            tuple@.len() == entries@.len(),
            rows == table_values(layouter.table_columns(), entries@[0].table).len(),
            forall|i: int|
                0 <= i < j ==> !table_row_is(
                    layouter.table_columns(),
                    entries@,
                    i,
                    tuple_nats(tuple@),
                ),
        decreases rows - j,
    {
        if row_matches(layouter, entries, j, tuple) {
            return true;
        }
        j = j + 1;
    }
    assert forall|i: int| 0 <= i implies !#[trigger] table_row_is(
        layouter.table_columns(),
        entries@,
        i,
        tuple_nats(tuple@),
    ) by {
        if i >= rows {
            assert(entries@[0].table == entries@[0].table);
        }
    }
    false
}

/// The inputs of a lookup argument on a row of a region.
fn lookup_tuple(lookup: &Lookup, region: &Region, row: usize) -> (r: Vec<Value>)
    ensures
        r@.len() == lookup@.entries.len(),
        tuple_nats(r@) == lookup_inputs(lookup@, region@, row),
{
    let mut tuple: Vec<Value> = Vec::new();
    let mut k: usize = 0;
    while k < lookup.entries.len()
        invariant
            k <= lookup@.entries.len(),
            tuple@.len() == k,
            forall|m: int|
                0 <= m < k ==> value_nat(tuple@[m]) == eval(lookup@.entries[m].input, region@, row),
        decreases lookup@.entries.len() - k,
    {
        tuple.push(evaluate(&lookup.entries[k].input, region, row));
        k = k + 1;
    }
    assert(tuple_nats(tuple@) =~= lookup_inputs(lookup@, region@, row));
    tuple
}

/// The defaults of a lookup argument.
fn default_tuple(lookup: &Lookup) -> (r: Vec<Value>)
    ensures
        r@.len() == lookup@.entries.len(),
        tuple_nats(r@) == lookup_defaults(lookup@),
{
    let mut tuple: Vec<Value> = Vec::new();
    let mut k: usize = 0;
    while k < lookup.entries.len()
        invariant
            k <= lookup@.entries.len(),
            tuple@.len() == k,
            forall|m: int| 0 <= m < k ==> tuple@[m] == Some(lookup@.entries[m].default),
        decreases lookup@.entries.len() - k,
    {
        tuple.push(Some(lookup.entries[k].default));
        k = k + 1;
    }
    assert(tuple_nats(tuple@) =~= lookup_defaults(lookup@));
    tuple
}

/// Appends the failures of a lookup argument in one region.
fn check_lookup_in_region(
    layouter: &Layouter,
    lookup: &Lookup,
    lookup_index: usize,
    region: &Region,
    region_index: usize,
    out: &mut Vec<VerifyFailure>,
)
    ensures
        final(out)@ == old(out)@ + region_lookup_failures(
            lookup@,
            lookup_index,
            layouter.table_columns(),
            region@,
            region_index,
            region@.enabled.len(),
        ),
{
    let ghost columns = layouter.table_columns();
    let mut i: usize = 0;
    assert(out@ =~= old(out)@ + Seq::<VerifyFailure>::empty());
    while i < region.enabled.len()
        invariant
            columns == layouter.table_columns(),
            i <= region@.enabled.len(),
            out@ == old(out)@ + region_lookup_failures(
                lookup@,
                lookup_index,
                columns,
                region@,
                region_index,
                i as nat,
            ),
        decreases region@.enabled.len() - i,
    {
        let ghost before = region_lookup_failures(
            lookup@,
            lookup_index,
            columns,
            region@,
            region_index,
            i as nat,
        );
        let entry = region.enabled[i];
        if entry.0 == lookup.selector {
            let tuple = lookup_tuple(lookup, region, entry.1);
            if !table_contains(layouter, &lookup.entries, &tuple) {
                let failure = VerifyFailure::Lookup {
                    lookup_index,
                    lookup_name: lookup.name,
                    region_index,
                    region_name: region.name,
                    offset: entry.1,
                };
                out.push(failure);
                assert(out@ =~= old(out)@ + before.push(failure));
            }
        }
        i = i + 1;
    }
}

/// Appends the failures of every lookup argument.
fn check_lookups(layouter: &Layouter, out: &mut Vec<VerifyFailure>)
    ensures
        final(out)@ == old(out)@ + all_lookup_failures(
            layouter.cs().lookup_views(),
            layouter.table_columns(),
            layouter.regions(),
            layouter.cs().lookup_views().len(),
        ),
{
    let cs = layouter.constraint_system();
    let ghost lookups = layouter.cs().lookup_views();
    let ghost columns = layouter.table_columns();
    let ghost regions = layouter.regions();
    let mut l: usize = 0;
    assert(out@ =~= old(out)@ + Seq::<VerifyFailure>::empty());
    while l < cs.lookups.len()
        invariant
            *cs == layouter.cs(),
            lookups == layouter.cs().lookup_views(),
            columns == layouter.table_columns(),
            regions == layouter.regions(),
            l <= lookups.len(),
            out@ == old(out)@ + all_lookup_failures(lookups, columns, regions, l as nat),
        decreases lookups.len() - l,
    {
        let lookup = &cs.lookups[l];
        let ghost done = all_lookup_failures(lookups, columns, regions, l as nat);
        let defaults = default_tuple(lookup);
        if !table_contains(layouter, &lookup.entries, &defaults) {
            out.push(VerifyFailure::LookupDefault { lookup_index: l, lookup_name: lookup.name });
        }
        assert(out@ =~= old(out)@ + (done + lookup_failures(lookup@, l, columns, regions, 0)));
        let mut r: usize = 0;
        while r < layouter.num_regions()
            invariant
                columns == layouter.table_columns(),
                regions == layouter.regions(),
                lookup@ == lookups[l as int],
                r <= regions.len(),
                out@ == old(out)@ + (done + lookup_failures(lookup@, l, columns, regions, r as nat)),
            decreases regions.len() - r,
        {
            let ghost before = lookup_failures(lookup@, l, columns, regions, r as nat);
            check_lookup_in_region(layouter, lookup, l, layouter.region(r), r, out);
            assert(out@ =~= old(out)@ + (done + (before + region_lookup_failures(
                lookup@,
                l,
                columns,
                regions[r as int],
                r,
                regions[r as int].enabled.len(),
            ))));
            r = r + 1;
        }
        l = l + 1;
    }
}

/// The value of a cell, wherever its region lies.
fn read_cell(layouter: &Layouter, cell: Cell) -> (r: Value)
    ensures
        value_nat(r) == value_of(layouter.regions(), cell),
{
    if cell.region_index < layouter.num_regions() {
        match get_cell(&layouter.region(cell.region_index).cells, cell.column, cell.row_offset) {
            Some(c) => c.value,
            None => None,
        }
    } else {
        None
    }
}

/// Whether two known values stand for the same number.
fn same_value(a: Value, b: Value) -> (r: bool)
    ensures
        r == (value_nat(a) is Some && value_nat(a) == value_nat(b)),
{
    match (a, b) {
        (Some(x), Some(y)) => {
            proof {
                if x.value() == y.value() {
                    Felt::lemma_value_injective(x, y);
                }
            }
            x == y
        },
        _ => false,
    }
}

/// Whether a copy constraint holds.
fn check_constraint(layouter: &Layouter, constraint: &CopyConstraint) -> (r: bool)
    ensures
        r == constraint_holds(*constraint, layouter.regions(), layouter.instance()),
{
    match constraint {
        CopyConstraint::Equal { left, right } => same_value(
            read_cell(layouter, *left),
            read_cell(layouter, *right),
        ),
        CopyConstraint::Constant { cell, constant } => same_value(
            read_cell(layouter, *cell),
            Some(*constant),
        ),
        CopyConstraint::Instance { cell, column, row } => match layouter.instance_at(*column, *row) {
            Some(v) => same_value(read_cell(layouter, *cell), Some(v)),
            None => false,
        },
    }
}

/// Appends the failures of every copy constraint.
fn check_copies(layouter: &Layouter, out: &mut Vec<VerifyFailure>)
    ensures
        final(out)@ == old(out)@ + copy_failures(
            layouter.regions(),
            layouter.instance(),
            layouter.regions().len(),
        ),
{
    let ghost regions = layouter.regions();
    let ghost instance = layouter.instance();
    let mut r: usize = 0;
    assert(out@ =~= old(out)@ + Seq::<VerifyFailure>::empty());
    while r < layouter.num_regions()
        invariant
            regions == layouter.regions(),
            instance == layouter.instance(),
            r <= regions.len(),
            out@ == old(out)@ + copy_failures(regions, instance, r as nat),
        decreases regions.len() - r,
    {
        let region = layouter.region(r);
        let ghost done = copy_failures(regions, instance, r as nat);
        let mut c: usize = 0;
        assert(out@ =~= old(out)@ + (done + Seq::<VerifyFailure>::empty()));
        while c < region.constraints.len()
            invariant
                regions == layouter.regions(),
                instance == layouter.instance(),
                r < regions.len(),
                region@ == regions[r as int],
                c <= region@.constraints.len(),
                out@ == old(out)@ + (done + region_copy_failures(regions, instance, r, c as nat)),
            decreases region@.constraints.len() - c,
        {
            let ghost before = region_copy_failures(regions, instance, r, c as nat);
            if !check_constraint(layouter, &region.constraints[c]) {
                let failure = VerifyFailure::Permutation {
                    region_index: r,
                    region_name: region.name,
                    constraint_index: c,
                };
                out.push(failure);
                assert(out@ =~= old(out)@ + (done + before.push(failure)));
            }
            c = c + 1;
        }
        r = r + 1;
    }
}

/// Checks a witness against the shape of its circuit. The witness is
/// accepted where nothing fails; otherwise every failure is reported: those
/// of the gates, gate by gate, then those of the lookup arguments, then
/// those of the copy constraints.
pub fn verify(layouter: &Layouter) -> (r: Result<(), Vec<VerifyFailure>>)
    ensures
        r is Ok <==> failures(layouter).len() == 0,
        r is Ok <==> satisfied(layouter),
        r matches Err(found) ==> found@ == failures(layouter),
{
    proof {
        layouter.lemma_regions_bounded();
        lemma_no_failures_iff_satisfied(layouter);
    }
    let mut out: Vec<VerifyFailure> = Vec::new();
    check_gates(layouter, &mut out);
    check_lookups(layouter, &mut out);
    check_copies(layouter, &mut out);
    assert(out@ =~= failures(layouter));
    if out.len() == 0 {
        Ok(())
    } else {
        Err(out)
    }
}

/// Every polynomial of a gate vanishes on the row.
pub open spec fn row_holds(gate: GateView, region: RegionView, offset: usize) -> bool {
    forall|j: int|
        0 <= j < gate.constraints.len() ==> eval(
            (#[trigger] gate.constraints[j]).poly,
            region,
            offset,
        ) == Some(0nat)
}

/// A gate holds on every row of the region where its selector is enabled.
pub open spec fn gate_holds_in(gate: GateView, region: RegionView) -> bool {
    forall|i: int|
        0 <= i < region.enabled.len() && (#[trigger] region.enabled[i]).0 == gate.selector
            ==> row_holds(gate, region, region.enabled[i].1)
}

/// Every gate holds on every row where its selector is enabled.
pub open spec fn gates_hold(gates: Seq<GateView>, regions: Seq<RegionView>) -> bool {
    forall|g: int, r: int|
        0 <= g < gates.len() && 0 <= r < regions.len() ==> gate_holds_in(
            #[trigger] gates[g],
            #[trigger] regions[r],
        )
}

/// The inputs of the lookup argument are a row of its table on every row
/// of the region where its selector is enabled.
pub open spec fn lookup_holds_in(
    lookup: LookupView,
    columns: Seq<TableColumnView>,
    region: RegionView,
) -> bool {
    forall|i: int|
        0 <= i < region.enabled.len() && (#[trigger] region.enabled[i]).0 == lookup.selector
            ==> table_has(
            columns,
            lookup.entries,
            lookup_inputs(lookup, region, region.enabled[i].1),
        )
}

/// Every lookup argument holds: its defaults are a row of its table, and so
/// are its inputs on every row where its selector is enabled.
pub open spec fn lookups_hold(
    lookups: Seq<LookupView>,
    columns: Seq<TableColumnView>,
    regions: Seq<RegionView>,
) -> bool {
    &&& forall|l: int|
        0 <= l < lookups.len() ==> table_has(
            columns,
            (#[trigger] lookups[l]).entries,
            lookup_defaults(lookups[l]),
        )
    &&& forall|l: int, r: int|
        0 <= l < lookups.len() && 0 <= r < regions.len() ==> lookup_holds_in(
            #[trigger] lookups[l],
            columns,
            #[trigger] regions[r],
        )
}

/// Every copy constraint holds.
pub open spec fn copies_hold(regions: Seq<RegionView>, instance: Seq<Seq<Felt>>) -> bool {
    forall|r: int, c: int|
        0 <= r < regions.len() && 0 <= c < regions[r].constraints.len() ==> constraint_holds(
            #[trigger] regions[r].constraints[c],
            regions,
            instance,
        )
}

/// The witness satisfies its circuit: every enabled gate, every lookup
/// argument and every copy constraint holds.
pub open spec fn satisfied(layouter: &Layouter) -> bool {
    &&& gates_hold(layouter.cs().gate_views(), layouter.regions())
    &&& lookups_hold(layouter.cs().lookup_views(), layouter.table_columns(), layouter.regions())
    &&& copies_hold(layouter.regions(), layouter.instance())
}

/// A gate has no failures on a row on which it holds.
pub proof fn lemma_row_failures_empty(
    gate: GateView,
    gate_index: usize,
    region: RegionView,
    region_index: usize,
    offset: usize,
    upto: nat,
)
    requires
        upto <= gate.constraints.len(),
        row_holds(gate, region, offset),
    ensures
        row_failures(gate, gate_index, region, region_index, offset, upto) == Seq::<
            VerifyFailure,
        >::empty(),
    decreases upto,
{
    if upto > 0 {
        lemma_row_failures_empty(gate, gate_index, region, region_index, offset, (upto - 1) as nat);
        assert(eval(gate.constraints[upto - 1].poly, region, offset) == Some(0nat));
    }
}

/// A gate has no failures in a region in which it holds.
pub proof fn lemma_region_gate_failures_empty(
    gate: GateView,
    gate_index: usize,
    region: RegionView,
    region_index: usize,
    upto: nat,
)
    requires
        upto <= region.enabled.len(),
        gate_holds_in(gate, region),
    ensures
        region_gate_failures(gate, gate_index, region, region_index, upto) == Seq::<
            VerifyFailure,
        >::empty(),
    decreases upto,
{
    if upto > 0 {
        lemma_region_gate_failures_empty(gate, gate_index, region, region_index, (upto - 1) as nat);
        let entry = region.enabled[upto - 1];
        if entry.0 == gate.selector {
            lemma_row_failures_empty(
                gate,
                gate_index,
                region,
                region_index,
                entry.1,
                gate.constraints.len(),
            );
        }
    }
}

/// A gate that holds in each of the first regions has no failures there.
pub proof fn lemma_gate_failures_empty(
    gate: GateView,
    gate_index: usize,
    regions: Seq<RegionView>,
    upto: nat,
)
    requires
        upto <= regions.len(),
        forall|r: int| 0 <= r < upto ==> gate_holds_in(gate, #[trigger] regions[r]),
    ensures
        gate_failures(gate, gate_index, regions, upto) == Seq::<VerifyFailure>::empty(),
    decreases upto,
{
    if upto > 0 {
        lemma_gate_failures_empty(gate, gate_index, regions, (upto - 1) as nat);
        lemma_region_gate_failures_empty(
            gate,
            gate_index,
            regions[upto - 1],
            (upto - 1) as usize,
            regions[upto - 1].enabled.len(),
        );
    }
}

/// Gates that hold have no failures.
pub proof fn lemma_all_gate_failures_empty(
    gates: Seq<GateView>,
    regions: Seq<RegionView>,
    upto: nat,
)
    requires
        upto <= gates.len(),
        gates_hold(gates, regions),
    ensures
        all_gate_failures(gates, regions, upto) == Seq::<VerifyFailure>::empty(),
    decreases upto,
{
    if upto > 0 {
        lemma_all_gate_failures_empty(gates, regions, (upto - 1) as nat);
        assert forall|r: int| 0 <= r < regions.len() implies gate_holds_in(
            gates[upto - 1],
            #[trigger] regions[r],
        ) by {}
        lemma_gate_failures_empty(gates[upto - 1], (upto - 1) as usize, regions, regions.len());
    }
}

/// A lookup argument has no failures in a region in which it holds.
pub proof fn lemma_region_lookup_failures_empty(
    lookup: LookupView,
    lookup_index: usize,
    columns: Seq<TableColumnView>,
    region: RegionView,
    region_index: usize,
    upto: nat,
)
    requires
        upto <= region.enabled.len(),
        lookup_holds_in(lookup, columns, region),
    ensures
        region_lookup_failures(lookup, lookup_index, columns, region, region_index, upto) == Seq::<
            VerifyFailure,
        >::empty(),
    decreases upto,
{
    if upto > 0 {
        lemma_region_lookup_failures_empty(
            lookup,
            lookup_index,
            columns,
            region,
            region_index,
            (upto - 1) as nat,
        );
        let entry = region.enabled[upto - 1];
    }
}

/// A lookup argument whose defaults are in its table and which holds in
/// each of the first regions has no failures there.
pub proof fn lemma_lookup_failures_empty(
    lookup: LookupView,
    lookup_index: usize,
    columns: Seq<TableColumnView>,
    regions: Seq<RegionView>,
    upto: nat,
)
    requires
        upto <= regions.len(),
        table_has(columns, lookup.entries, lookup_defaults(lookup)),
        forall|r: int| 0 <= r < upto ==> lookup_holds_in(lookup, columns, #[trigger] regions[r]),
    ensures
        lookup_failures(lookup, lookup_index, columns, regions, upto) == Seq::<
            VerifyFailure,
        >::empty(),
    decreases upto,
{
    if upto > 0 {
        lemma_lookup_failures_empty(lookup, lookup_index, columns, regions, (upto - 1) as nat);
        lemma_region_lookup_failures_empty(
            lookup,
            lookup_index,
            columns,
            regions[upto - 1],
            (upto - 1) as usize,
            regions[upto - 1].enabled.len(),
        );
    }
}

/// Lookup arguments that hold have no failures.
pub proof fn lemma_all_lookup_failures_empty(
    lookups: Seq<LookupView>,
    columns: Seq<TableColumnView>,
    regions: Seq<RegionView>,
    upto: nat,
)
    requires
        upto <= lookups.len(),
        lookups_hold(lookups, columns, regions),
    ensures
        all_lookup_failures(lookups, columns, regions, upto) == Seq::<VerifyFailure>::empty(),
    decreases upto,
{
    if upto > 0 {
        lemma_all_lookup_failures_empty(lookups, columns, regions, (upto - 1) as nat);
        assert forall|r: int| 0 <= r < regions.len() implies lookup_holds_in(
            lookups[upto - 1],
            columns,
            #[trigger] regions[r],
        ) by {}
        lemma_lookup_failures_empty(
            lookups[upto - 1],
            (upto - 1) as usize,
            columns,
            regions,
            regions.len(),
        );
    }
}

/// A region whose first copy constraints hold has no failures among them.
pub proof fn lemma_region_copy_failures_empty(
    regions: Seq<RegionView>,
    instance: Seq<Seq<Felt>>,
    region_index: usize,
    upto: nat,
)
    requires
        region_index < regions.len(),
        upto <= regions[region_index as int].constraints.len(),
        forall|c: int|
            0 <= c < upto ==> constraint_holds(
                #[trigger] regions[region_index as int].constraints[c],
                regions,
                instance,
            ),
    ensures
        region_copy_failures(regions, instance, region_index, upto) == Seq::<
            VerifyFailure,
        >::empty(),
    decreases upto,
{
    if upto > 0 {
        lemma_region_copy_failures_empty(regions, instance, region_index, (upto - 1) as nat);
    }
}

/// The first regions have no failures among their copy constraints where
/// all of these hold.
pub proof fn lemma_copy_failures_empty(
    regions: Seq<RegionView>,
    instance: Seq<Seq<Felt>>,
    upto: nat,
)
    requires
        upto <= regions.len(),
        regions.len() <= usize::MAX,
        forall|r: int, c: int|
            0 <= r < upto && 0 <= c < regions[r].constraints.len() ==> constraint_holds(
                #[trigger] regions[r].constraints[c],
                regions,
                instance,
            ),
    ensures
        copy_failures(regions, instance, upto) == Seq::<VerifyFailure>::empty(),
    decreases upto,
{
    if upto > 0 {
        lemma_copy_failures_empty(regions, instance, (upto - 1) as nat);
        lemma_region_copy_failures_empty(
            regions,
            instance,
            (upto - 1) as usize,
            regions[upto - 1].constraints.len(),
        );
    }
}

/// A witness that satisfies its circuit has no failures.
pub proof fn lemma_satisfied_no_failures(layouter: &Layouter)
    requires
        satisfied(layouter),
        layouter.regions().len() <= usize::MAX,
    ensures
        failures(layouter) == Seq::<VerifyFailure>::empty(),
{
    lemma_all_gate_failures_empty(
        layouter.cs().gate_views(),
        layouter.regions(),
        layouter.cs().gate_views().len(),
    );
    lemma_all_lookup_failures_empty(
        layouter.cs().lookup_views(),
        layouter.table_columns(),
        layouter.regions(),
        layouter.cs().lookup_views().len(),
    );
    lemma_copy_failures_empty(layouter.regions(), layouter.instance(), layouter.regions().len());
}

/// A cell that a polynomial reads, with the value that it holds: `None`
/// where the cell was not assigned in the region or its value is unknown.
#[derive(Clone, Copy, Debug, PartialEq, Eq)]
pub struct CellValue {
    pub column: AdviceColumn,
    pub rotation: Rotation,
    pub value: Value,
}

/// The cells that a polynomial reads, added to those that were found
/// before: each cell once, in the order in which they first occur.
pub open spec fn collect_queries(expr: Expression, found: Seq<(AdviceColumn, Rotation)>) -> Seq<
    (AdviceColumn, Rotation),
>
    decreases expr,
{
    match expr {
        Expression::Constant(_) => found,
        Expression::Selector(_) => found,
        Expression::Advice { column, rotation } => if found.contains((column, rotation)) {
            found
        } else {
            found.push((column, rotation))
        },
        Expression::Negated(a) => collect_queries(*a, found),
        Expression::Sum(a, b) => collect_queries(*b, collect_queries(*a, found)),
        Expression::Product(a, b) => collect_queries(*b, collect_queries(*a, found)),
        Expression::Scaled(a, _) => collect_queries(*a, found),
    }
}

/// The cells that a polynomial reads: each cell once, in the order in
/// which they first occur.
pub open spec fn queries(expr: Expression) -> Seq<(AdviceColumn, Rotation)> {
    collect_queries(expr, Seq::empty())
}

/// The cells that a polynomial reads on a row of a region, with their
/// values.
pub open spec fn read_cells(expr: Expression, region: RegionView, offset: usize) -> Seq<CellValue> {
    Seq::new(
        queries(expr).len(),
        |i: int|
            CellValue {
                column: queries(expr)[i].0,
                rotation: queries(expr)[i].1,
                value: cell_value(
                    region.cells,
                    queries(expr)[i].0,
                    offset + queries(expr)[i].1.0,
                ),
            },
    )
}

/// Collecting the cells of a polynomial keeps what was found before and
/// adds no cell twice.
pub proof fn lemma_collect_queries(expr: Expression, found: Seq<(AdviceColumn, Rotation)>)
    requires
        found.no_duplicates(),
    ensures
        collect_queries(expr, found).no_duplicates(),
        found.len() <= collect_queries(expr, found).len(),
        collect_queries(expr, found).take(found.len() as int) == found,
    decreases expr,
{
    match expr {
        Expression::Constant(_) => {
            assert(found.take(found.len() as int) =~= found);
        },
        Expression::Selector(_) => {
            assert(found.take(found.len() as int) =~= found);
        },
        Expression::Advice { column, rotation } => {
            assert(found.take(found.len() as int) =~= found);
            assert(found.push((column, rotation)).take(found.len() as int) =~= found);
        },
        Expression::Negated(a) => {
            lemma_collect_queries(*a, found);
        },
        Expression::Scaled(a, _) => {
            lemma_collect_queries(*a, found);
        },
        Expression::Sum(a, b) => {
            let first = collect_queries(*a, found);
            lemma_collect_queries(*a, found);
            lemma_collect_queries(*b, first);
            assert(collect_queries(*b, first).take(found.len() as int) =~= first.take(
                found.len() as int,
            ));
        },
        Expression::Product(a, b) => {
            let first = collect_queries(*a, found);
            lemma_collect_queries(*a, found);
            lemma_collect_queries(*b, first);
            assert(collect_queries(*b, first).take(found.len() as int) =~= first.take(
                found.len() as int,
            ));
        },
    }
}

/// Adds the cells that a polynomial reads to those found before.
fn gather_queries(expr: &Expression, found: &mut Vec<(AdviceColumn, Rotation)>)
    ensures
        final(found)@ == collect_queries(*expr, old(found)@),
    decreases *expr,
{
    match expr {
        Expression::Constant(_) => {},
        Expression::Selector(_) => {},
        Expression::Advice { column, rotation } => {
            let mut i: usize = 0;
            let mut known: bool = false;
            while i < found.len()
                invariant
                    i <= found@.len(),
                    found@ == old(found)@,
                    known == exists|j: int| 0 <= j < i && found@[j] == (*column, *rotation),
                decreases found@.len() - i,
            {
                if found[i].0 == *column && found[i].1 == *rotation {
                    known = true;
                    assert(found@[i as int] == (*column, *rotation));
                }
                i = i + 1;
            }
            if !known {
                found.push((*column, *rotation));
            }
        },
        Expression::Negated(a) => gather_queries(a, found),
        Expression::Sum(a, b) => {
            gather_queries(a, found);
            gather_queries(b, found);
        },
        Expression::Product(a, b) => {
            gather_queries(a, found);
            gather_queries(b, found);
        },
        Expression::Scaled(a, _) => gather_queries(a, found),
    }
}

/// The cells that a polynomial of a gate reads on a row of a region, each
/// with its value: what is at stake where the polynomial does not vanish.
/// There are none where there is no such gate, polynomial or region.
pub fn cell_values(
    layouter: &Layouter,
    gate_index: usize,
    constraint_index: usize,
    region_index: usize,
    offset: usize,
) -> (r: Vec<CellValue>)
    ensures
        r@ == if gate_index < layouter.cs().gate_views().len() && constraint_index
            < layouter.cs().gate_views()[gate_index as int].constraints.len() && region_index
            < layouter.regions().len() {
            read_cells(
                layouter.cs().gate_views()[gate_index as int].constraints[constraint_index as int].poly,
                layouter.regions()[region_index as int],
                offset,
            )
        } else {
            Seq::empty()
        },
{
    let cs = layouter.constraint_system();
    let mut values: Vec<CellValue> = Vec::new();
    if gate_index >= cs.gates.len() || region_index >= layouter.num_regions() {
        return values;
    }
    if constraint_index >= cs.gates[gate_index].constraints.len() {
        return values;
    }
    let poly = &cs.gates[gate_index].constraints[constraint_index].poly;
    let region = layouter.region(region_index);
    let mut found: Vec<(AdviceColumn, Rotation)> = Vec::new();
    gather_queries(poly, &mut found);
    let mut i: usize = 0;
    while i < found.len()
        invariant
            i <= found@.len(),
            found@ == queries(*poly),
            values@.len() == i,
            forall|j: int| 0 <= j < i ==> values@[j] == read_cells(*poly, region@, offset)[j],
        decreases found@.len() - i,
    {
        let column = found[i].0;
        let rotation = found[i].1;
        let value = match rotate(offset, rotation) {
            Some(target) => match get_cell(&region.cells, column, target) {
                Some(cell) => cell.value,
                None => None,
            },
            None => {
                proof {
                    crate::circuit::lemma_find_cell_none(region@.cells, column, offset + rotation.0);
                }
                None
            },
        };
        values.push(CellValue { column, rotation, value });
        i = i + 1;
    }
    assert(values@ =~= read_cells(*poly, region@, offset));
    values
}

/// A polynomial times its selector is the polynomial on the rows where the
/// selector is enabled and zero on the others, as far as the polynomial
/// has a value.
pub proof fn lemma_guarded(
    selector: crate::plonk::Selector,
    poly: Expression,
    region: RegionView,
    row: usize,
)
    ensures
        eval(guarded(selector, poly), region, row) == match eval(poly, region, row) {
            Some(v) => Some(
                if region.enabled.contains((selector, row)) {
                    v % modulus()
                } else {
                    0nat
                },
            ),
            None => None,
        },
{
    reveal_with_fuel(eval, 2);
    match eval(poly, region, row) {
        Some(v) => {
            crate::modular::lemma_fmul_zero(v);
            assert(1 * v == v);
        },
        None => {},
    }
}

/// An input blended with its default is the input on the rows where the
/// selector is enabled and the default on the others, as far as the input
/// has a value.
pub proof fn lemma_blended(
    selector: crate::plonk::Selector,
    input: Expression,
    default: Felt,
    region: RegionView,
    row: usize,
)
    ensures
        eval(blended(selector, input, default), region, row) == match eval(input, region, row) {
            Some(v) => Some(
                if region.enabled.contains((selector, row)) {
                    v % modulus()
                } else {
                    default.value() % modulus()
                },
            ),
            None => None,
        },
{
    reveal_with_fuel(eval, 5);
    Felt::lemma_from_u64(1);
    let p = modulus();
    crate::modular::lemma_modulus_bounds();
    match eval(input, region, row) {
        Some(v) => {
            let d = default.value();
            crate::modular::lemma_fmul_zero(v);
            crate::modular::lemma_fmul_zero(d);
            crate::modular::lemma_fadd_fneg(1);
            vstd::arithmetic::div_mod::lemma_small_mod(0, p);
            vstd::arithmetic::div_mod::lemma_small_mod(1, p);
            vstd::arithmetic::div_mod::lemma_mod_twice(v as int, p as int);
            vstd::arithmetic::div_mod::lemma_mod_twice(d as int, p as int);
            assert(1 * v == v && 1 * d == d);
            if region.enabled.contains((selector, row)) {
                assert(fadd(v % p, 0) == v % p);
            } else {
                // 1 - 0 = 1 in the field.
                crate::modular::lemma_fneg(0);
                crate::modular::lemma_cong_small(fneg(0) as int, 0);
                assert(fadd(1, 0) == 1);
                assert(fadd(0, d % p) == d % p);
            }
        },
        None => {},
    }
}

/// The failures of a gate on a row only grow with the polynomials looked
/// at, and there is one as soon as a polynomial does not vanish.
pub proof fn lemma_row_failures_found(
    gate: GateView,
    gate_index: usize,
    region: RegionView,
    region_index: usize,
    offset: usize,
    upto: nat,
    j: int,
)
    requires
        0 <= j < upto <= gate.constraints.len(),
        eval(gate.constraints[j].poly, region, offset) != Some(0nat),
    ensures
        row_failures(gate, gate_index, region, region_index, offset, upto).len() > 0,
    decreases upto,
{
    if j < upto - 1 {
        lemma_row_failures_found(
            gate,
            gate_index,
            region,
            region_index,
            offset,
            (upto - 1) as nat,
            j,
        );
    }
}

/// A gate that does not hold in a region has a failure there.
pub proof fn lemma_region_gate_failures_found(
    gate: GateView,
    gate_index: usize,
    region: RegionView,
    region_index: usize,
    upto: nat,
    i: int,
)
    requires
        0 <= i < upto <= region.enabled.len(),
        region.enabled[i].0 == gate.selector,
        !row_holds(gate, region, region.enabled[i].1),
    ensures
        region_gate_failures(gate, gate_index, region, region_index, upto).len() > 0,
    decreases upto,
{
    if i < upto - 1 {
        lemma_region_gate_failures_found(
            gate,
            gate_index,
            region,
            region_index,
            (upto - 1) as nat,
            i,
        );
    } else {
        let offset = region.enabled[i].1;
        let j = choose|j: int|
            0 <= j < gate.constraints.len() && eval(
                (#[trigger] gate.constraints[j]).poly,
                region,
                offset,
            ) != Some(0nat);
        lemma_row_failures_found(
            gate,
            gate_index,
            region,
            region_index,
            offset,
            gate.constraints.len(),
            j,
        );
    }
}

/// A gate that does not hold in one of the first regions has a failure.
pub proof fn lemma_gate_failures_found(
    gate: GateView,
    gate_index: usize,
    regions: Seq<RegionView>,
    upto: nat,
    r: int,
)
    requires
        0 <= r < upto <= regions.len(),
        !gate_holds_in(gate, regions[r]),
    ensures
        gate_failures(gate, gate_index, regions, upto).len() > 0,
    decreases upto,
{
    if r < upto - 1 {
        lemma_gate_failures_found(gate, gate_index, regions, (upto - 1) as nat, r);
    } else {
        let region = regions[r];
        let i = choose|i: int|
            0 <= i < region.enabled.len() && (#[trigger] region.enabled[i]).0 == gate.selector
                && !row_holds(gate, region, region.enabled[i].1);
        lemma_region_gate_failures_found(
            gate,
            gate_index,
            region,
            r as usize,
            region.enabled.len(),
            i,
        );
    }
}

/// Where a gate does not hold, there is a failure of a gate.
pub proof fn lemma_all_gate_failures_found(
    gates: Seq<GateView>,
    regions: Seq<RegionView>,
    upto: nat,
    g: int,
    r: int,
)
    requires
        0 <= g < upto <= gates.len(),
        0 <= r < regions.len(),
        !gate_holds_in(gates[g], regions[r]),
    ensures
        all_gate_failures(gates, regions, upto).len() > 0,
    decreases upto,
{
    if g < upto - 1 {
        lemma_all_gate_failures_found(gates, regions, (upto - 1) as nat, g, r);
    } else {
        lemma_gate_failures_found(gates[g], g as usize, regions, regions.len(), r);
    }
}

/// A lookup argument that does not hold in a region has a failure there.
pub proof fn lemma_region_lookup_failures_found(
    lookup: LookupView,
    lookup_index: usize,
    columns: Seq<TableColumnView>,
    region: RegionView,
    region_index: usize,
    upto: nat,
    i: int,
)
    requires
        0 <= i < upto <= region.enabled.len(),
        region.enabled[i].0 == lookup.selector,
        !table_has(columns, lookup.entries, lookup_inputs(lookup, region, region.enabled[i].1)),
    ensures
        region_lookup_failures(lookup, lookup_index, columns, region, region_index, upto).len() > 0,
    decreases upto,
{
    if i < upto - 1 {
        lemma_region_lookup_failures_found(
            lookup,
            lookup_index,
            columns,
            region,
            region_index,
            (upto - 1) as nat,
            i,
        );
    }
}

/// A lookup argument whose defaults are not in its table, or which does
/// not hold in one of the first regions, has a failure.
pub proof fn lemma_lookup_failures_found(
    lookup: LookupView,
    lookup_index: usize,
    columns: Seq<TableColumnView>,
    regions: Seq<RegionView>,
    upto: nat,
)
    requires
        upto <= regions.len(),
        !table_has(columns, lookup.entries, lookup_defaults(lookup)) || exists|r: int|
            0 <= r < upto && !lookup_holds_in(lookup, columns, #[trigger] regions[r]),
    ensures
        lookup_failures(lookup, lookup_index, columns, regions, upto).len() > 0,
    decreases upto,
{
    if upto > 0 {
        let last = regions[upto - 1];
        if !table_has(columns, lookup.entries, lookup_defaults(lookup)) || exists|r: int|
            0 <= r < upto - 1 && !lookup_holds_in(lookup, columns, #[trigger] regions[r]) {
            lemma_lookup_failures_found(lookup, lookup_index, columns, regions, (upto - 1) as nat);
        } else {
            assert(!lookup_holds_in(lookup, columns, last));
            let i = choose|i: int|
                0 <= i < last.enabled.len() && (#[trigger] last.enabled[i]).0 == lookup.selector
                    && !table_has(
                    columns,
                    lookup.entries,
                    lookup_inputs(lookup, last, last.enabled[i].1),
                );
            lemma_region_lookup_failures_found(
                lookup,
                lookup_index,
                columns,
                last,
                (upto - 1) as usize,
                last.enabled.len(),
                i,
            );
        }
    }
}

/// Where a lookup argument does not hold, there is a failure of a lookup.
pub proof fn lemma_all_lookup_failures_found(
    lookups: Seq<LookupView>,
    columns: Seq<TableColumnView>,
    regions: Seq<RegionView>,
    upto: nat,
    l: int,
)
    requires
        0 <= l < upto <= lookups.len(),
        !table_has(columns, lookups[l].entries, lookup_defaults(lookups[l])) || exists|r: int|
            0 <= r < regions.len() && !lookup_holds_in(lookups[l], columns, #[trigger] regions[r]),
    ensures
        all_lookup_failures(lookups, columns, regions, upto).len() > 0,
    decreases upto,
{
    if l < upto - 1 {
        lemma_all_lookup_failures_found(lookups, columns, regions, (upto - 1) as nat, l);
    } else {
        lemma_lookup_failures_found(lookups[l], l as usize, columns, regions, regions.len());
    }
}

/// A copy constraint of a region that does not hold is a failure.
pub proof fn lemma_region_copy_failures_found(
    regions: Seq<RegionView>,
    instance: Seq<Seq<Felt>>,
    region_index: usize,
    upto: nat,
    c: int,
)
    requires
        region_index < regions.len(),
        0 <= c < upto <= regions[region_index as int].constraints.len(),
        !constraint_holds(regions[region_index as int].constraints[c], regions, instance),
    ensures
        region_copy_failures(regions, instance, region_index, upto).len() > 0,
    decreases upto,
{
    if c < upto - 1 {
        lemma_region_copy_failures_found(regions, instance, region_index, (upto - 1) as nat, c);
    }
}

/// Where a copy constraint does not hold, there is a failure of a copy
/// constraint.
pub proof fn lemma_copy_failures_found(
    regions: Seq<RegionView>,
    instance: Seq<Seq<Felt>>,
    upto: nat,
    r: int,
    c: int,
)
    requires
        0 <= r < upto <= regions.len(),
        regions.len() <= usize::MAX,
        0 <= c < regions[r].constraints.len(),
        !constraint_holds(regions[r].constraints[c], regions, instance),
    ensures
        copy_failures(regions, instance, upto).len() > 0,
    decreases upto,
{
    if r < upto - 1 {
        lemma_copy_failures_found(regions, instance, (upto - 1) as nat, r, c);
    } else {
        lemma_region_copy_failures_found(
            regions,
            instance,
            r as usize,
            regions[r].constraints.len(),
            c,
        );
    }
}

/// A witness has no failures exactly where it satisfies its circuit: what
/// `verify` reports is what fails, no less and no more.
pub proof fn lemma_no_failures_iff_satisfied(layouter: &Layouter)
    requires
        layouter.regions().len() <= usize::MAX,
    ensures
        failures(layouter).len() == 0 <==> satisfied(layouter),
{
    let gates = layouter.cs().gate_views();
    let lookups = layouter.cs().lookup_views();
    let columns = layouter.table_columns();
    let regions = layouter.regions();
    let instance = layouter.instance();
    if satisfied(layouter) {
        lemma_satisfied_no_failures(layouter);
    } else if !gates_hold(gates, regions) {
        let (g, r) = choose|g: int, r: int|
            0 <= g < gates.len() && 0 <= r < regions.len() && !gate_holds_in(
                #[trigger] gates[g],
                #[trigger] regions[r],
            );
        lemma_all_gate_failures_found(gates, regions, gates.len(), g, r);
    } else if !lookups_hold(lookups, columns, regions) {
        if exists|l: int|
            0 <= l < lookups.len() && !table_has(
                columns,
                (#[trigger] lookups[l]).entries,
                lookup_defaults(lookups[l]),
            ) {
            let l = choose|l: int|
                0 <= l < lookups.len() && !table_has(
                    columns,
                    (#[trigger] lookups[l]).entries,
                    lookup_defaults(lookups[l]),
                );
            lemma_all_lookup_failures_found(lookups, columns, regions, lookups.len(), l);
        } else {
            let (l, r) = choose|l: int, r: int|
                0 <= l < lookups.len() && 0 <= r < regions.len() && !lookup_holds_in(
                    #[trigger] lookups[l],
                    columns,
                    #[trigger] regions[r],
                );
            lemma_all_lookup_failures_found(lookups, columns, regions, lookups.len(), l);
        }
    } else {
        let (r, c) = choose|r: int, c: int|
            0 <= r < regions.len() && 0 <= c < regions[r].constraints.len() && !constraint_holds(
                #[trigger] regions[r].constraints[c],
                regions,
                instance,
            );
        lemma_copy_failures_found(regions, instance, regions.len(), r, c);
    }
}

} // verus!
