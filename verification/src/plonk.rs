//! The shape of a circuit: its columns, selectors, gates and lookup
//! arguments.

use crate::field::Felt;
use vstd::prelude::*;

verus! {

/// A column of witness values, private to the prover.
#[derive(Clone, Copy, Debug, PartialEq, Eq, Structural)]
pub struct AdviceColumn {
    pub index: usize,
}

/// A column of constants, part of the circuit's description.
#[derive(Clone, Copy, Debug, PartialEq, Eq, Structural)]
pub struct FixedColumn {
    pub index: usize,
}

/// A column of public inputs.
#[derive(Clone, Copy, Debug, PartialEq, Eq, Structural)]
pub struct InstanceColumn {
    pub index: usize,
}

/// A fixed column that only lookup arguments may read.
#[derive(Clone, Copy, Debug, PartialEq, Eq, Structural)]
pub struct TableColumn {
    /// The index of the fixed column that backs the table column.
    pub index: usize,
}

/// A column of any kind that can take part in copy constraints.
#[derive(Clone, Copy, Debug, PartialEq, Eq, Structural)]
pub enum Column {
    Advice(AdviceColumn),
    Fixed(FixedColumn),
    Instance(InstanceColumn),
}

/// A per-row switch that guards gates and lookup arguments.
#[derive(Clone, Copy, Debug, PartialEq, Eq, Structural)]
pub struct Selector {
    pub index: usize,
    /// A simple selector guards nothing but gates of its own; a complex one
    /// may appear anywhere, also in lookup arguments.
    pub simple: bool,
}

/// A row offset relative to the row at which a gate is evaluated.
#[derive(Clone, Copy, Debug, PartialEq, Eq, Structural)]
pub struct Rotation(pub i32);

impl Rotation {
    /// The row itself.
    pub fn cur() -> (r: Rotation)
        ensures
            r == Rotation(0),
    {
        Rotation(0)
    }

    /// The row before.
    pub fn prev() -> (r: Rotation)
        ensures
            r == Rotation(-1i32),
    {
        Rotation(-1)
    }

    /// The row after.
    pub fn next() -> (r: Rotation)
        ensures
            r == Rotation(1),
    {
        Rotation(1)
    }
}

/// A polynomial over the cells around a row.
#[derive(Debug, PartialEq, Eq)]
pub enum Expression {
    /// A constant of the field.
    Constant(Felt),
    /// 1 where the selector is enabled on the row, 0 elsewhere.
    Selector(Selector),
    /// The advice cell of a column at a rotation from the row.
    Advice { column: AdviceColumn, rotation: Rotation },
    /// The additive inverse of a polynomial.
    Negated(Box<Expression>),
    /// The sum of two polynomials.
    Sum(Box<Expression>, Box<Expression>),
    /// The product of two polynomials.
    Product(Box<Expression>, Box<Expression>),
    /// A polynomial times a constant.
    Scaled(Box<Expression>, Felt),
}

impl Expression {
    /// A copy of the polynomial.
    pub fn duplicate(&self) -> (r: Expression)
        ensures
            r == *self,
        decreases *self,
    {
        match self {
            Expression::Constant(c) => Expression::Constant(*c),
            Expression::Selector(s) => Expression::Selector(*s),
            Expression::Advice { column, rotation } => Expression::Advice {
                column: *column,
                rotation: *rotation,
            },
            Expression::Negated(a) => Expression::Negated(Box::new(a.duplicate())),
            Expression::Sum(a, b) => Expression::Sum(
                Box::new(a.duplicate()),
                Box::new(b.duplicate()),
            ),
            Expression::Product(a, b) => Expression::Product(
                Box::new(a.duplicate()),
                Box::new(b.duplicate()),
            ),
            Expression::Scaled(a, c) => Expression::Scaled(Box::new(a.duplicate()), *c),
        }
    }

    /// Every column and selector that the polynomial reads has been
    /// declared in the shape.
    pub open spec fn declared(self, cs: &ConstraintSystem) -> bool
        decreases self,
    {
        match self {
            Expression::Constant(_) => true,
            Expression::Selector(s) => cs.has_selector(s),
            Expression::Advice { column, rotation } => cs.has_advice(column),
            Expression::Negated(a) => a.declared(cs),
            Expression::Sum(a, b) => a.declared(cs) && b.declared(cs),
            Expression::Product(a, b) => a.declared(cs) && b.declared(cs),
            Expression::Scaled(a, _) => a.declared(cs),
        }
    }

    /// `-self`.
    pub open spec fn spec_negated(self) -> Expression {
        Expression::Negated(Box::new(self))
    }

    /// `self + rhs`.
    pub open spec fn spec_plus(self, rhs: Expression) -> Expression {
        Expression::Sum(Box::new(self), Box::new(rhs))
    }

    /// `self - rhs`, which is `self + (-rhs)`.
    pub open spec fn spec_minus(self, rhs: Expression) -> Expression {
        Expression::Sum(Box::new(self), Box::new(Expression::Negated(Box::new(rhs))))
    }

    /// `self * rhs`.
    pub open spec fn spec_times(self, rhs: Expression) -> Expression {
        Expression::Product(Box::new(self), Box::new(rhs))
    }

    /// `self * factor` for a constant factor.
    pub open spec fn spec_scaled(self, factor: Felt) -> Expression {
        Expression::Scaled(Box::new(self), factor)
    }

    /// `-self`.
    pub fn negated(self) -> (r: Expression)
        ensures
            r == self.spec_negated(),
    {
        Expression::Negated(Box::new(self))
    }

    /// `self + rhs`.
    pub fn plus(self, rhs: Expression) -> (r: Expression)
        ensures
            r == self.spec_plus(rhs),
    {
        Expression::Sum(Box::new(self), Box::new(rhs))
    }

    /// `self - rhs`, which is `self + (-rhs)`.
    pub fn minus(self, rhs: Expression) -> (r: Expression)
        ensures
            r == self.spec_minus(rhs),
    {
        Expression::Sum(Box::new(self), Box::new(Expression::Negated(Box::new(rhs))))
    }

    /// `self * rhs`.
    pub fn times(self, rhs: Expression) -> (r: Expression)
        ensures
            r == self.spec_times(rhs),
    {
        Expression::Product(Box::new(self), Box::new(rhs))
    }

    /// `self * factor` for a constant factor.
    pub fn scaled(self, factor: Felt) -> (r: Expression)
        ensures
            r == self.spec_scaled(factor),
    {
        Expression::Scaled(Box::new(self), factor)
    }
}

impl Clone for Expression {
    fn clone(&self) -> (r: Self)
        ensures
            r == *self,
    {
        self.duplicate()
    }
}

/// One polynomial identity of a gate, with its name.
#[derive(Clone, Debug, PartialEq, Eq)]
pub struct Constraint {
    pub name: &'static str,
    /// The polynomial that must vanish on the rows where the selector of its gate
    /// is enabled.
    pub poly: Expression,
}

/// A named list of polynomial identities, enforced on the rows where the
/// selector is enabled.
#[derive(Clone, Debug, PartialEq, Eq)]
pub struct Gate {
    pub name: &'static str,
    pub selector: Selector,
    pub constraints: Vec<Constraint>,
}

/// What a gate holds, as a mathematical sequence.
pub struct GateView {
    pub name: &'static str,
    pub selector: Selector,
    pub constraints: Seq<Constraint>,
}

impl View for Gate {
    type V = GateView;

    open spec fn view(&self) -> GateView {
        GateView { name: self.name, selector: self.selector, constraints: self.constraints@ }
    }
}

/// One component of a lookup argument: the input polynomial, the table
/// column in which its value must occur, and the value that stands in for
/// the input on the rows where the argument's selector is off.
#[derive(Clone, Debug, PartialEq, Eq)]
pub struct LookupEntry {
    pub input: Expression,
    pub table: TableColumn,
    pub default: Felt,
}

/// A lookup argument: on every row the tuple of inputs (on a row where the
/// selector is off, the tuple of defaults) must equal some row of the table
/// columns.
#[derive(Clone, Debug, PartialEq, Eq)]
pub struct Lookup {
    pub name: &'static str,
    pub selector: Selector,
    pub entries: Vec<LookupEntry>,
}

/// What a lookup argument holds, as a mathematical sequence.
pub struct LookupView {
    pub name: &'static str,
    pub selector: Selector,
    pub entries: Seq<LookupEntry>,
}

impl View for Lookup {
    type V = LookupView;

    open spec fn view(&self) -> LookupView {
        LookupView { name: self.name, selector: self.selector, entries: self.entries@ }
    }
}

/// The equality-enabled columns after one more column has been enabled.
/// A column is listed once.
pub open spec fn with_equality(columns: Seq<Column>, column: Column) -> Seq<Column> {
    if columns.contains(column) {
        columns
    } else {
        columns.push(column)
    }
}

/// The description of a circuit's shape. It is built once, before any
/// witness exists, and not changed afterwards.
#[derive(Clone, Debug, PartialEq, Eq)]
pub struct ConstraintSystem {
    pub num_advice_columns: usize,
    /// One entry per fixed column: whether it is a lookup table column.
    pub fixed_columns: Vec<bool>,
    pub num_instance_columns: usize,
    /// One entry per selector: whether it is simple.
    pub selectors: Vec<bool>,
    /// The columns whose cells may take part in copy constraints.
    pub equality: Vec<Column>,
    /// The fixed columns that hold the constants which cells are bound to.
    pub constants: Vec<FixedColumn>,
    pub gates: Vec<Gate>,
    pub lookups: Vec<Lookup>,
}

impl ConstraintSystem {
    /// A description without columns, gates or lookups.
    pub fn new() -> (r: ConstraintSystem)
        ensures
            r.num_advice_columns == 0,
            r.fixed_columns@ == Seq::<bool>::empty(),
            r.num_instance_columns == 0,
            r.selectors@ == Seq::<bool>::empty(),
            r.equality@ == Seq::<Column>::empty(),
            r.constants@ == Seq::<FixedColumn>::empty(),
            r.gates@ == Seq::<Gate>::empty(),
            r.lookups@ == Seq::<Lookup>::empty(),
    {
        ConstraintSystem {
            num_advice_columns: 0,
            fixed_columns: Vec::new(),
            num_instance_columns: 0,
            selectors: Vec::new(),
            equality: Vec::new(),
            constants: Vec::new(),
            gates: Vec::new(),
            lookups: Vec::new(),
        }
    }

    /// The gates in the order of their registration.
    pub open spec fn gate_views(&self) -> Seq<GateView> {
        self.gates@.map_values(|gate: Gate| gate@)
    }

    /// The lookup arguments in the order of their registration.
    pub open spec fn lookup_views(&self) -> Seq<LookupView> {
        self.lookups@.map_values(|lookup: Lookup| lookup@)
    }

    /// Everything but the number of advice columns is the same in both.
    pub open spec fn same_but_advice(&self, other: &ConstraintSystem) -> bool {
        &&& self.fixed_columns == other.fixed_columns
        &&& self.num_instance_columns == other.num_instance_columns
        &&& self.selectors == other.selectors
        &&& self.equality == other.equality
        &&& self.constants == other.constants
        &&& self.gates == other.gates
        &&& self.lookups == other.lookups
    }

    /// Everything but the fixed columns is the same in both.
    pub open spec fn same_but_fixed(&self, other: &ConstraintSystem) -> bool {
        &&& self.num_advice_columns == other.num_advice_columns
        &&& self.num_instance_columns == other.num_instance_columns
        &&& self.selectors == other.selectors
        &&& self.equality == other.equality
        &&& self.constants == other.constants
        &&& self.gates == other.gates
        &&& self.lookups == other.lookups
    }

    /// Everything but the number of instance columns is the same in both.
    pub open spec fn same_but_instance(&self, other: &ConstraintSystem) -> bool {
        &&& self.num_advice_columns == other.num_advice_columns
        &&& self.fixed_columns == other.fixed_columns
        &&& self.selectors == other.selectors
        &&& self.equality == other.equality
        &&& self.constants == other.constants
        &&& self.gates == other.gates
        &&& self.lookups == other.lookups
    }

    /// Everything but the selectors is the same in both.
    pub open spec fn same_but_selectors(&self, other: &ConstraintSystem) -> bool {
        &&& self.num_advice_columns == other.num_advice_columns
        &&& self.fixed_columns == other.fixed_columns
        &&& self.num_instance_columns == other.num_instance_columns
        &&& self.equality == other.equality
        &&& self.constants == other.constants
        &&& self.gates == other.gates
        &&& self.lookups == other.lookups
    }

    /// Everything but the equality-enabled columns is the same in both.
    pub open spec fn same_but_equality(&self, other: &ConstraintSystem) -> bool {
        &&& self.num_advice_columns == other.num_advice_columns
        &&& self.fixed_columns == other.fixed_columns
        &&& self.num_instance_columns == other.num_instance_columns
        &&& self.selectors == other.selectors
        &&& self.constants == other.constants
        &&& self.gates == other.gates
        &&& self.lookups == other.lookups
    }

    /// Everything but the constants columns is the same in both.
    pub open spec fn same_but_constants(&self, other: &ConstraintSystem) -> bool {
        &&& self.num_advice_columns == other.num_advice_columns
        &&& self.fixed_columns == other.fixed_columns
        &&& self.num_instance_columns == other.num_instance_columns
        &&& self.selectors == other.selectors
        &&& self.equality == other.equality
        &&& self.gates == other.gates
        &&& self.lookups == other.lookups
    }

    /// Everything but the gates is the same in both.
    pub open spec fn same_but_gates(&self, other: &ConstraintSystem) -> bool {
        &&& self.num_advice_columns == other.num_advice_columns
        &&& self.fixed_columns == other.fixed_columns
        &&& self.num_instance_columns == other.num_instance_columns
        &&& self.selectors == other.selectors
        &&& self.equality == other.equality
        &&& self.constants == other.constants
        &&& self.lookups == other.lookups
    }

    /// Everything but the lookup arguments is the same in both.
    pub open spec fn same_but_lookups(&self, other: &ConstraintSystem) -> bool {
        &&& self.num_advice_columns == other.num_advice_columns
        &&& self.fixed_columns == other.fixed_columns
        &&& self.num_instance_columns == other.num_instance_columns
        &&& self.selectors == other.selectors
        &&& self.equality == other.equality
        &&& self.constants == other.constants
        &&& self.gates == other.gates
    }

    /// The advice column has been declared.
    pub open spec fn has_advice(&self, column: AdviceColumn) -> bool {
        column.index < self.num_advice_columns
    }

    /// The instance column has been declared.
    pub open spec fn has_instance(&self, column: InstanceColumn) -> bool {
        column.index < self.num_instance_columns
    }

    /// The fixed column has been declared, and not as a table column.
    pub open spec fn has_fixed(&self, column: FixedColumn) -> bool {
        column.index < self.fixed_columns@.len() && !self.fixed_columns@[column.index as int]
    }

    /// The table column has been declared.
    pub open spec fn has_table(&self, column: TableColumn) -> bool {
        column.index < self.fixed_columns@.len() && self.fixed_columns@[column.index as int]
    }

    /// The selector has been allocated, with this kind.
    pub open spec fn has_selector(&self, selector: Selector) -> bool {
        selector.index < self.selectors@.len() && self.selectors@[selector.index as int]
            == selector.simple
    }

    /// The column of whatever kind has been declared.
    pub open spec fn has_column(&self, column: Column) -> bool {
        match column {
            Column::Advice(c) => self.has_advice(c),
            Column::Fixed(c) => self.has_fixed(c),
            Column::Instance(c) => self.has_instance(c),
        }
    }

    /// The column's cells may take part in copy constraints.
    pub open spec fn equality_enabled(&self, column: Column) -> bool {
        self.equality@.contains(column)
    }

    /// Declares a new advice column.
    pub fn advice_column(&mut self) -> (r: AdviceColumn)
        requires
            old(self).num_advice_columns < usize::MAX,
        ensures
            r.index == old(self).num_advice_columns,
            final(self).num_advice_columns == old(self).num_advice_columns + 1,
            final(self).same_but_advice(old(self)),
    {
        let column = AdviceColumn { index: self.num_advice_columns };
        self.num_advice_columns = self.num_advice_columns + 1;
        column
    }

    /// Declares a new fixed column.
    pub fn fixed_column(&mut self) -> (r: FixedColumn)
        ensures
            r.index == old(self).fixed_columns@.len(),
            final(self).fixed_columns@ == old(self).fixed_columns@.push(false),
            final(self).same_but_fixed(old(self)),
    {
        let column = FixedColumn { index: self.fixed_columns.len() };
        self.fixed_columns.push(false);
        column
    }

    /// Declares a new instance column.
    pub fn instance_column(&mut self) -> (r: InstanceColumn)
        requires
            old(self).num_instance_columns < usize::MAX,
        ensures
            r.index == old(self).num_instance_columns,
            final(self).num_instance_columns == old(self).num_instance_columns + 1,
            final(self).same_but_instance(old(self)),
    {
        let column = InstanceColumn { index: self.num_instance_columns };
        self.num_instance_columns = self.num_instance_columns + 1;
        column
    }

    /// Declares a new lookup table column, backed by a new fixed column.
    pub fn lookup_table_column(&mut self) -> (r: TableColumn)
        ensures
            r.index == old(self).fixed_columns@.len(),
            final(self).fixed_columns@ == old(self).fixed_columns@.push(true),
            final(self).same_but_fixed(old(self)),
    {
        let column = TableColumn { index: self.fixed_columns.len() };
        self.fixed_columns.push(true);
        column
    }

    /// Allocates a new simple selector.
    pub fn selector(&mut self) -> (r: Selector)
        ensures
            r.index == old(self).selectors@.len(),
            r.simple,
            final(self).selectors@ == old(self).selectors@.push(true),
            final(self).same_but_selectors(old(self)),
    {
        let selector = Selector { index: self.selectors.len(), simple: true };
        self.selectors.push(true);
        selector
    }

    /// Allocates a new complex selector.
    pub fn complex_selector(&mut self) -> (r: Selector)
        ensures
            r.index == old(self).selectors@.len(),
            !r.simple,
            final(self).selectors@ == old(self).selectors@.push(false),
            final(self).same_but_selectors(old(self)),
    {
        let selector = Selector { index: self.selectors.len(), simple: false };
        self.selectors.push(false);
        selector
    }

    /// Lets the cells of a declared column take part in copy constraints.
    /// Enabling a column twice changes nothing.
    pub fn enable_equality(&mut self, column: Column)
        requires
            old(self).has_column(column),
        ensures
            final(self).equality@ == with_equality(old(self).equality@, column),
            final(self).equality_enabled(column),
            forall|c: Column| old(self).equality_enabled(c) ==> final(self).equality_enabled(c),
            final(self).same_but_equality(old(self)),
    {
        let mut i: usize = 0;
        let mut found: bool = false;
        while i < self.equality.len()
            invariant
                i <= self.equality@.len(),
                *self == *old(self),
                found == self.equality@.take(i as int).contains(column),
            decreases self.equality@.len() - i,
        {
            let ghost prefix = self.equality@.take(i as int);
            let ghost longer = self.equality@.take(i as int + 1);
            if self.equality[i] == column {
                found = true;
            }
            proof {
                assert(longer == prefix.push(self.equality@[i as int]));
                if prefix.contains(column) {
                    let j = choose|j: int| 0 <= j < prefix.len() && prefix[j] == column;
                    assert(longer[j] == column);
                }
                if self.equality@[i as int] == column {
                    assert(longer[i as int] == column);
                }
            }
            i = i + 1;
        }
        assert(self.equality@.take(i as int) == self.equality@);
        if !found {
            self.equality.push(column);
            proof {
                let ghost n = old(self).equality@.len() as int;
                assert(self.equality@[n] == column);
                assert forall|c: Column| old(self).equality_enabled(c) implies self.equality_enabled(
                    c,
                ) by {
                    let j = choose|j: int| 0 <= j < n && old(self).equality@[j] == c;
                    assert(self.equality@[j] == c);
                }
            }
        }
    }

    /// Makes a declared fixed column available for the constants that cells
    /// are bound to, and enables equality on it.
    pub fn enable_constant(&mut self, column: FixedColumn)
        requires
            old(self).has_fixed(column),
        ensures
            final(self).constants@ == old(self).constants@.push(column),
            final(self).same_but_constants(old(self)),
    {
        self.constants.push(column);
    }

    /// The polynomial that reads a selector on the row.
    pub fn query_selector(&self, selector: Selector) -> (r: Expression)
        requires
            self.has_selector(selector),
        ensures
            r == Expression::Selector(selector),
    {
        Expression::Selector(selector)
    }

    /// The polynomial that reads the advice cell of a column at a rotation
    /// from the row.
    pub fn query_advice(&self, column: AdviceColumn, rotation: Rotation) -> (r: Expression)
        requires
            self.has_advice(column),
        ensures
            r == (Expression::Advice { column, rotation }),
    {
        Expression::Advice { column, rotation }
    }

    /// Registers a gate: polynomial identities that hold on every row where
    /// the selector is enabled. The polynomials read declared columns only.
    pub fn create_gate(
        &mut self,
        name: &'static str,
        selector: Selector,
        constraints: Vec<Constraint>,
    )
        requires
            old(self).has_selector(selector),
            forall|i: int|
                0 <= i < constraints@.len() ==> (#[trigger] constraints@[i]).poly.declared(
                    &*old(self),
                ),
        ensures
            final(self).gate_views() == old(self).gate_views().push(
                GateView { name, selector, constraints: constraints@ },
            ),
            final(self).same_but_gates(old(self)),
    {
        self.gates.push(Gate { name, selector, constraints });
        assert(self.gate_views() =~= old(self).gate_views().push(
            GateView { name, selector, constraints: constraints@ },
        ));
    }

    /// Registers a lookup argument and returns its index. The argument is
    /// guarded by a complex selector and reads declared columns only.
    pub fn lookup(
        &mut self,
        name: &'static str,
        selector: Selector,
        entries: Vec<LookupEntry>,
    ) -> (r: usize)
        requires
            old(self).has_selector(selector),
            !selector.simple,
            forall|i: int|
                0 <= i < entries@.len() ==> old(self).has_table((#[trigger] entries@[i]).table)
                    && entries@[i].input.declared(&*old(self)),
        ensures
            r == old(self).lookups@.len(),
            final(self).lookup_views() == old(self).lookup_views().push(
                LookupView { name, selector, entries: entries@ },
            ),
            final(self).same_but_lookups(old(self)),
    {
        let index = self.lookups.len();
        self.lookups.push(Lookup { name, selector, entries });
        assert(self.lookup_views() =~= old(self).lookup_views().push(
            LookupView { name, selector, entries: entries@ },
        ));
        index
    }
}

/// The polynomial that is the polynomial of a gate where the selector is
/// enabled and zero elsewhere: the selector times the polynomial.
pub open spec fn guarded(selector: Selector, poly: Expression) -> Expression {
    Expression::Selector(selector).spec_times(poly)
}

/// The polynomial that is the input of a lookup argument where the
/// selector is enabled and the default elsewhere:
/// `q * input + (1 - q) * default` for the selector `q`.
pub open spec fn blended(selector: Selector, input: Expression, default: Felt) -> Expression {
    Expression::Selector(selector).spec_times(input).spec_plus(
        Expression::Constant(Felt::spec_from_u64(1)).spec_minus(
            Expression::Selector(selector),
        ).spec_times(Expression::Constant(default)),
    )
}

impl Gate {
    /// The polynomials of this gate, each times the selector: what has to
    /// vanish on every row, with no word of a selector.
    pub fn polynomials(&self) -> (r: Vec<Expression>)
        ensures
            r@.len() == self@.constraints.len(),
            forall|i: int|
                0 <= i < r@.len() ==> r@[i] == guarded(self.selector, self@.constraints[i].poly),
    {
        let mut polys: Vec<Expression> = Vec::new();
        let mut i: usize = 0;
        while i < self.constraints.len()
            invariant
                i <= self@.constraints.len(),
                polys@.len() == i,
                forall|j: int|
                    0 <= j < i ==> polys@[j] == guarded(self.selector, self@.constraints[j].poly),
            decreases self@.constraints.len() - i,
        {
            polys.push(Expression::Selector(self.selector).times(self.constraints[i].poly.duplicate()));
            i = i + 1;
        }
        polys
    }
}

impl Lookup {
    /// The inputs of the lookup argument, each blended with its default by
    /// the selector: what has to be in the table on every row, with no word
    /// of a selector.
    pub fn inputs(&self) -> (r: Vec<Expression>)
        ensures
            r@.len() == self@.entries.len(),
            forall|i: int|
                0 <= i < r@.len() ==> r@[i] == blended(
                    self.selector,
                    self@.entries[i].input,
                    self@.entries[i].default,
                ),
    {
        let mut inputs: Vec<Expression> = Vec::new();
        let mut i: usize = 0;
        while i < self.entries.len()
            invariant
                i <= self@.entries.len(),
                inputs@.len() == i,
                forall|j: int|
                    0 <= j < i ==> inputs@[j] == blended(
                        self.selector,
                        self@.entries[j].input,
                        self@.entries[j].default,
                    ),
            decreases self@.entries.len() - i,
        {
            let q = Expression::Selector(self.selector);
            let on = q.duplicate().times(self.entries[i].input.duplicate());
            let off = Expression::Constant(Felt::one()).minus(q).times(
                Expression::Constant(self.entries[i].default),
            );
            inputs.push(on.plus(off));
            i = i + 1;
        }
        inputs
    }
}

} // verus!
