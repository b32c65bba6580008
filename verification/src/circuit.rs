//! Witness assignment: regions of cells, copy constraints and lookup tables,
//! laid out against a fixed circuit shape.

use crate::field::fadd;
use crate::field::fp_add;
use crate::field::Felt;
use crate::plonk::AdviceColumn;
use crate::plonk::Column;
use crate::plonk::ConstraintSystem;
use crate::plonk::InstanceColumn;
use crate::plonk::Selector;
use crate::plonk::TableColumn;
use vstd::prelude::*;

verus! {

/// A value that is known while a witness is being made and unknown while
/// only the shape of a circuit is looked at.
pub type Value = Option<Felt>;

/// The sum of two values; unknown if either is.
pub open spec fn value_sum(a: Value, b: Value) -> Value {
    match (a, b) {
        (Some(x), Some(y)) => Some(Felt::from_value(fadd(x.value(), y.value()))),
        _ => None,
    }
}

/// The sum of two values; unknown if either is.
pub fn value_add(a: Value, b: Value) -> (r: Value)
    ensures
        r == value_sum(a, b),
{
    match (a, b) {
        (Some(x), Some(y)) => {
            let sum = fp_add(&x, &y);
            proof {
                sum.lemma_from_value();
            }
            Some(sum)
        },
        _ => None,
    }
}

/// What went wrong while a circuit was being assigned. Each of these is a
/// mistake of the circuit's author, not of the witness.
#[derive(Clone, Copy, Debug, PartialEq, Eq, Structural)]
pub enum Error {
    /// A cell was assigned, or a selector enabled, before any region was
    /// opened.
    NoRegion,
    /// A table cell was assigned before any table was opened.
    NoTable,
    /// The column was never declared in the circuit's shape.
    ColumnNotDeclared,
    /// The selector was never allocated in the circuit's shape.
    SelectorNotDeclared,
    /// The cell already holds a value.
    CellAlreadyAssigned,
    /// A copy constraint names a column on which equality was not enabled.
    ColumnNotInPermutation,
    /// A cell was bound to a constant, but no fixed column was set aside for
    /// constants.
    NotEnoughColumnsForConstants,
    /// The instance column holds no value at the row.
    BoundsFailure,
    /// A table column was filled out of order, or in two tables.
    TableCellMisplaced,
}

/// The place of a cell: a region, an advice column and a row counted from
/// the region's first row.
#[derive(Clone, Copy, Debug, PartialEq, Eq, Structural)]
pub struct Cell {
    pub region_index: usize,
    pub column: AdviceColumn,
    pub row_offset: usize,
}

/// A cell together with the value it was given.
#[derive(Clone, Copy, Debug, PartialEq, Eq)]
pub struct AssignedCell {
    pub cell: Cell,
    pub value: Value,
}

impl AssignedCell {
    /// The place of the cell.
    pub fn cell(&self) -> (r: Cell)
        ensures
            r == self.cell,
    {
        self.cell
    }

    /// The value of the cell.
    pub fn value(&self) -> (r: Value)
        ensures
            r == self.value,
    {
        self.value
    }
}

/// An equality that the witness must respect, whatever the gates say.
#[derive(Clone, Copy, Debug, PartialEq, Eq)]
pub enum CopyConstraint {
    /// Two cells hold the same value.
    Equal { left: Cell, right: Cell },
    /// A cell holds a constant of the circuit.
    Constant { cell: Cell, constant: Felt },
    /// A cell holds the public input at a row of an instance column.
    Instance { cell: Cell, column: InstanceColumn, row: usize },
}

/// A block of rows that one gadget fills. Rows are counted from the block's
/// first row.
#[derive(Clone, Debug, PartialEq, Eq)]
pub struct Region {
    pub name: &'static str,
    /// The cells in the order of their assignment.
    pub cells: Vec<AssignedCell>,
    /// The selectors that are enabled, each with its row.
    pub enabled: Vec<(Selector, usize)>,
    /// The copy constraints that were made while the region was open.
    pub constraints: Vec<CopyConstraint>,
}

/// What a region holds, as mathematical sequences.
pub struct RegionView {
    pub name: &'static str,
    pub cells: Seq<AssignedCell>,
    pub enabled: Seq<(Selector, usize)>,
    pub constraints: Seq<CopyConstraint>,
}

impl View for Region {
    type V = RegionView;

    open spec fn view(&self) -> RegionView {
        RegionView {
            name: self.name,
            cells: self.cells@,
            enabled: self.enabled@,
            constraints: self.constraints@,
        }
    }
}

impl RegionView {
    /// A region without cells.
    pub open spec fn empty(name: &'static str) -> RegionView {
        RegionView { name, cells: Seq::empty(), enabled: Seq::empty(), constraints: Seq::empty() }
    }

    /// The region with one more cell.
    pub open spec fn with_cell(self, cell: AssignedCell) -> RegionView {
        RegionView { cells: self.cells.push(cell), ..self }
    }

    /// The region with a selector enabled on a row. Enabling twice changes
    /// nothing.
    pub open spec fn with_enabled(self, selector: Selector, offset: usize) -> RegionView {
        if self.enabled.contains((selector, offset)) {
            self
        } else {
            RegionView { enabled: self.enabled.push((selector, offset)), ..self }
        }
    }

    /// The region with one more copy constraint.
    pub open spec fn with_constraint(self, constraint: CopyConstraint) -> RegionView {
        RegionView { constraints: self.constraints.push(constraint), ..self }
    }
}

/// The cell lies in the column at the row.
pub open spec fn cell_at(c: AssignedCell, column: AdviceColumn, row: int) -> bool {
    c.cell.column == column && c.cell.row_offset as int == row
}

/// The cell that was assigned in the column at the row, if there is one.
pub open spec fn find_cell(cells: Seq<AssignedCell>, column: AdviceColumn, row: int) -> Option<
    AssignedCell,
>
    decreases cells.len(),
{
    if cells.len() == 0 {
        None
    } else if cell_at(cells.last(), column, row) {
        Some(cells.last())
    } else {
        find_cell(cells.drop_last(), column, row)
    }
}

/// The value in the column at the row: `None` where no cell was assigned
/// there or its value is unknown.
pub open spec fn cell_value(cells: Seq<AssignedCell>, column: AdviceColumn, row: int) -> Value {
    match find_cell(cells, column, row) {
        Some(c) => c.value,
        None => None,
    }
}

/// No cell is found exactly where none of the cells lies at the place.
pub proof fn lemma_find_cell_none(cells: Seq<AssignedCell>, column: AdviceColumn, row: int)
    ensures
        find_cell(cells, column, row) is None <==> forall|i: int|
            0 <= i < cells.len() ==> !cell_at(#[trigger] cells[i], column, row),
    decreases cells.len(),
{
    if cells.len() > 0 {
        let front = cells.drop_last();
        lemma_find_cell_none(front, column, row);
        if cell_at(cells.last(), column, row) {
            assert(cell_at(cells[cells.len() - 1], column, row));
        } else if find_cell(front, column, row) is None {
            assert forall|i: int| 0 <= i < cells.len() implies !cell_at(
                #[trigger] cells[i],
                column,
                row,
            ) by {
                if i < front.len() {
                    assert(front[i] == cells[i]);
                }
            }
        } else {
            let i = choose|i: int| 0 <= i < front.len() && cell_at(#[trigger] front[i], column, row);
            assert(cells[i] == front[i]);
        }
    }
}

/// The cell found at a place is the last one that lies there.
pub proof fn lemma_find_cell_at(cells: Seq<AssignedCell>, column: AdviceColumn, row: int, k: int)
    requires
        0 <= k < cells.len(),
        cell_at(cells[k], column, row),
        forall|j: int| k < j < cells.len() ==> !cell_at(#[trigger] cells[j], column, row),
    ensures
        find_cell(cells, column, row) == Some(cells[k]),
    decreases cells.len(),
{
    if k < cells.len() - 1 {
        let front = cells.drop_last();
        assert(front[k] == cells[k]);
        assert forall|j: int| k < j < front.len() implies !cell_at(
            #[trigger] front[j],
            column,
            row,
        ) by {
            assert(front[j] == cells[j]);
        }
        lemma_find_cell_at(front, column, row, k);
    }
}

/// A lookup table that was opened: its name and the index of the empty
/// region that was opened with it.
#[derive(Clone, Copy, Debug, PartialEq, Eq)]
pub struct Table {
    pub name: &'static str,
    pub region_index: usize,
}

/// The cells of one loaded table column.
#[derive(Clone, Debug, PartialEq, Eq)]
pub struct TableColumnData {
    /// The table in which the column was loaded.
    pub table_index: usize,
    pub column: TableColumn,
    /// The values from row 0 on.
    pub values: Vec<Felt>,
}

/// What a loaded table column holds, as a mathematical sequence.
pub struct TableColumnView {
    pub table_index: usize,
    pub column: TableColumn,
    pub values: Seq<Felt>,
}

impl View for TableColumnData {
    type V = TableColumnView;

    open spec fn view(&self) -> TableColumnView {
        TableColumnView { table_index: self.table_index, column: self.column, values: self.values@ }
    }
}

/// The loaded column that backs a table column, if it was loaded.
pub open spec fn find_table_column(columns: Seq<TableColumnView>, column: TableColumn) -> Option<
    int,
>
    decreases columns.len(),
{
    if columns.len() == 0 {
        None
    } else if columns.last().column == column {
        Some(columns.len() - 1)
    } else {
        find_table_column(columns.drop_last(), column)
    }
}

/// The values of a table column from row 0 on; empty if it was not loaded.
pub open spec fn table_values(columns: Seq<TableColumnView>, column: TableColumn) -> Seq<Felt> {
    match find_table_column(columns, column) {
        Some(i) => columns[i].values,
        None => Seq::empty(),
    }
}

/// Where a table column is found, it lies.
pub proof fn lemma_find_table_column(columns: Seq<TableColumnView>, column: TableColumn)
    ensures
        match find_table_column(columns, column) {
            Some(i) => 0 <= i < columns.len() && columns[i].column == column && forall|j: int|
                i < j < columns.len() ==> (#[trigger] columns[j]).column != column,
            None => forall|j: int| 0 <= j < columns.len() ==> (#[trigger] columns[j]).column != column,
        },
    decreases columns.len(),
{
    if columns.len() > 0 && columns.last().column != column {
        let front = columns.drop_last();
        lemma_find_table_column(front, column);
        match find_table_column(front, column) {
            Some(i) => {
                assert(front[i] == columns[i]);
                assert forall|j: int| i < j < columns.len() implies (#[trigger] columns[j]).column
                    != column by {
                    if j < front.len() {
                        assert(front[j] == columns[j]);
                    }
                }
            },
            None => {
                assert forall|j: int| 0 <= j < columns.len() implies (#[trigger] columns[j]).column
                    != column by {
                    if j < front.len() {
                        assert(front[j] == columns[j]);
                    }
                }
            },
        }
    }
}

/// The public input at a row of an instance column, if it was supplied.
pub open spec fn instance_value(
    instance: Seq<Seq<Felt>>,
    column: InstanceColumn,
    row: usize,
) -> Value {
    if column.index < instance.len() && row < instance[column.index as int].len() {
        Some(instance[column.index as int][row as int])
    } else {
        None
    }
}

/// Whether the selector is enabled on the row.
fn is_enabled(enabled: &Vec<(Selector, usize)>, selector: Selector, offset: usize) -> (r: bool)
    ensures
        r == enabled@.contains((selector, offset)),
{
    let mut i: usize = 0;
    while i < enabled.len()
        invariant
            i <= enabled@.len(),
            forall|j: int| 0 <= j < i ==> enabled@[j] != (selector, offset),
        decreases enabled@.len() - i,
    {
        if enabled[i].0 == selector && enabled[i].1 == offset {
            assert(enabled@[i as int] == (selector, offset));
            return true;
        }
        i = i + 1;
    }
    false
}

/// The cell that was assigned in the column at the row, if there is one.
pub(crate) fn get_cell(
    cells: &Vec<AssignedCell>,
    column: AdviceColumn,
    offset: usize,
) -> (r: Option<AssignedCell>)
    ensures
        r == find_cell(cells@, column, offset as int),
{
    let mut i: usize = cells.len();
    while i > 0
        invariant
            i <= cells@.len(),
            forall|j: int| i <= j < cells@.len() ==> !cell_at(#[trigger] cells@[j], column, offset as int),
        decreases i,
    {
        i = i - 1;
        if cells[i].cell.column == column && cells[i].cell.row_offset == offset {
            proof {
                lemma_find_cell_at(cells@, column, offset as int, i as int);
            }
            return Some(cells[i]);
        }
    }
    proof {
        lemma_find_cell_none(cells@, column, offset as int);
    }
    None
}

/// Whether the column is among the given ones.
fn contains_column(columns: &Vec<Column>, column: Column) -> (r: bool)
    ensures
        r == columns@.contains(column),
{
    let mut i: usize = 0;
    while i < columns.len()
        invariant
            i <= columns@.len(),
            forall|j: int| 0 <= j < i ==> columns@[j] != column,
        decreases columns@.len() - i,
    {
        if columns[i] == column {
            return true;
        }
        i = i + 1;
    }
    false
}

/// The index of the loaded column that backs a table column, if it was
/// loaded.
pub(crate) fn get_table_column(
    columns: &Vec<TableColumnData>,
    column: TableColumn,
) -> (r: Option<usize>)
    ensures
        match r {
            Some(i) => find_table_column(
                columns@.map_values(|c: TableColumnData| c@),
                column,
            ) == Some(i as int) && i < columns@.len(),
            None => find_table_column(columns@.map_values(|c: TableColumnData| c@), column) is None,
        },
{
    let ghost views = columns@.map_values(|c: TableColumnData| c@);
    let mut i: usize = columns.len();
    proof {
        lemma_find_table_column(views, column);
    }
    while i > 0
        invariant
            i <= columns@.len(),
            views == columns@.map_values(|c: TableColumnData| c@),
            forall|j: int| i <= j < columns@.len() ==> (#[trigger] views[j]).column != column,
            match find_table_column(views, column) {
                Some(k) => 0 <= k < views.len() && views[k].column == column,
                None => forall|j: int| 0 <= j < views.len() ==> (#[trigger] views[j]).column != column,
            },
            find_table_column(views, column) matches Some(k) ==> forall|j: int|
                k < j < views.len() ==> (#[trigger] views[j]).column != column,
        decreases i,
    {
        i = i - 1;
        if columns[i].column == column {
            assert(views[i as int].column == column);
            return Some(i);
        }
    }
    None
}

/// The state of one synthesis pass: the shape of the circuit, which no
/// longer changes, the public inputs, and what has been assigned so far.
#[derive(Clone, Debug, PartialEq, Eq)]
pub struct Layouter {
    pub(crate) cs: ConstraintSystem,
    pub(crate) instance: Vec<Vec<Felt>>,
    pub(crate) regions: Vec<Region>,
    /// Whether the last region is open for cells: it is until a table
    /// takes its place.
    pub(crate) open: bool,
    pub(crate) tables: Vec<Table>,
    pub(crate) table_columns: Vec<TableColumnData>,
}

impl Layouter {
    /// The shape of the circuit.
    pub closed spec fn cs(&self) -> ConstraintSystem {
        self.cs
    }

    /// The public inputs, one sequence per instance column.
    pub closed spec fn instance(&self) -> Seq<Seq<Felt>> {
        self.instance@.map_values(|column: Vec<Felt>| column@)
    }

    /// The regions in the order in which they were opened.
    pub closed spec fn regions(&self) -> Seq<RegionView> {
        self.regions@.map_values(|region: Region| region@)
    }

    /// The tables in the order in which they were opened.
    pub closed spec fn tables(&self) -> Seq<Table> {
        self.tables@
    }

    /// The table columns in the order in which they were first assigned.
    pub closed spec fn table_columns(&self) -> Seq<TableColumnView> {
        self.table_columns@.map_values(|column: TableColumnData| column@)
    }

    /// A region is open: cells can be assigned. None is before the first
    /// region is opened, nor after a table has been opened, which takes the
    /// place of a region but holds no cells.
    pub closed spec fn region_open(&self) -> bool {
        self.open && self.regions@.len() > 0
    }

    /// Where a region is open, there is a region.
    pub proof fn lemma_region_open(&self)
        ensures
            self.region_open() ==> self.regions().len() > 0,
    {
    }

    /// Both hold the same, but for their regions.
    pub open spec fn same_but_regions(&self, other: &Layouter) -> bool {
        &&& self.cs() == other.cs()
        &&& self.instance() == other.instance()
        &&& self.tables() == other.tables()
        &&& self.table_columns() == other.table_columns()
    }

    /// There are no more regions than a machine word counts.
    pub proof fn lemma_regions_bounded(&self)
        ensures
            self.regions().len() <= usize::MAX,
    {
        assert(self.regions@.len() == self.regions.len());
    }

    /// Both are passes over the same shape with the same public inputs.
    pub open spec fn same_circuit(&self, other: &Layouter) -> bool {
        &&& self.cs() == other.cs()
        &&& self.instance() == other.instance()
    }

    /// Both hold the same, but for their tables.
    pub open spec fn same_but_tables(&self, other: &Layouter) -> bool {
        &&& self.same_circuit(other)
        &&& self.regions() == other.regions()
        &&& self.region_open() == other.region_open()
    }

    /// Both hold the same, but for what the last region holds.
    pub open spec fn same_but_last_region(&self, other: &Layouter) -> bool {
        &&& self.same_but_regions(other)
        &&& self.regions().len() == other.regions().len()
        &&& self.regions().len() > 0
        &&& self.regions().drop_last() == other.regions().drop_last()
        &&& self.region_open()
        &&& other.region_open()
    }

    /// A fresh pass over a circuit shape, with the public inputs of each
    /// instance column.
    pub fn new(cs: ConstraintSystem, instance: Vec<Vec<Felt>>) -> (r: Layouter)
        ensures
            r.cs() == cs,
            r.instance() == instance@.map_values(|column: Vec<Felt>| column@),
            r.regions() == Seq::<RegionView>::empty(),
            !r.region_open(),
            r.tables() == Seq::<Table>::empty(),
            r.table_columns() == Seq::<TableColumnView>::empty(),
    {
        let r = Layouter {
            cs,
            instance,
            regions: Vec::new(),
            open: false,
            tables: Vec::new(),
            table_columns: Vec::new(),
        };
        assert(r.regions() =~= Seq::<RegionView>::empty());
        assert(r.table_columns() =~= Seq::<TableColumnView>::empty());
        r
    }

    /// The shape of the circuit.
    pub fn constraint_system(&self) -> (r: &ConstraintSystem)
        ensures
            *r == self.cs(),
    {
        &self.cs
    }

    /// The number of regions opened so far.
    pub fn num_regions(&self) -> (r: usize)
        ensures
            r == self.regions().len(),
    {
        self.regions.len()
    }

    /// The region with the given index.
    pub fn region(&self, index: usize) -> (r: &Region)
        requires
            index < self.regions().len(),
        ensures
            r@ == self.regions()[index as int],
    {
        &self.regions[index]
    }

    /// The tables opened so far.
    pub fn opened_tables(&self) -> (r: &Vec<Table>)
        ensures
            r@ == self.tables(),
    {
        &self.tables
    }

    /// The number of table columns loaded so far.
    pub fn num_table_columns(&self) -> (r: usize)
        ensures
            r == self.table_columns().len(),
    {
        self.table_columns.len()
    }

    /// The loaded table column with the given index.
    pub fn table_column(&self, index: usize) -> (r: &TableColumnData)
        requires
            index < self.table_columns().len(),
        ensures
            r@ == self.table_columns()[index as int],
    {
        &self.table_columns[index]
    }

    /// The values of a table column from row 0 on, if it was loaded.
    pub fn loaded_values(&self, column: TableColumn) -> (r: Option<&Vec<Felt>>)
        ensures
            match r {
                Some(values) => values@ == table_values(self.table_columns(), column),
                None => table_values(self.table_columns(), column) == Seq::<Felt>::empty(),
            },
    {
        match get_table_column(&self.table_columns, column) {
            Some(i) => {
                assert(self.table_columns()[i as int] == self.table_columns@[i as int]@);
                Some(&self.table_columns[i].values)
            },
            None => None,
        }
    }

    /// The public input at a row of an instance column, if it was supplied.
    pub fn instance_at(&self, column: InstanceColumn, row: usize) -> (r: Value)
        ensures
            r == instance_value(self.instance(), column, row),
    {
        if column.index < self.instance.len() {
            let values = &self.instance[column.index];
            if row < values.len() {
                return Some(values[row]);
            }
        }
        None
    }

    /// Opens a new region, which becomes the one that cells are assigned
    /// in, and returns its index.
    pub fn assign_region(&mut self, name: &'static str) -> (index: usize)
        ensures
            index == old(self).regions().len(),
            final(self).regions() == old(self).regions().push(RegionView::empty(name)),
            final(self).same_but_regions(old(self)),
            final(self).region_open(),
    {
        let index = self.regions.len();
        self.regions.push(
            Region { name, cells: Vec::new(), enabled: Vec::new(), constraints: Vec::new() },
        );
        self.open = true;
        assert(self.regions() =~= old(self).regions().push(RegionView::empty(name)));
        index
    }
}

impl Layouter {
    /// The index of the region that is open.
    pub open spec fn current(&self) -> usize {
        (self.regions().len() - 1) as usize
    }

    /// What keeps a selector from being enabled, if anything does.
    pub open spec fn enable_error(&self, selector: Selector) -> Option<Error> {
        if !self.region_open() {
            Some(Error::NoRegion)
        } else if !self.cs().has_selector(selector) {
            Some(Error::SelectorNotDeclared)
        } else {
            None
        }
    }

    /// What keeps an advice cell from being assigned, if anything does.
    pub open spec fn assign_error(&self, column: AdviceColumn, offset: usize) -> Option<Error> {
        if !self.region_open() {
            Some(Error::NoRegion)
        } else if !self.cs().has_advice(column) {
            Some(Error::ColumnNotDeclared)
        } else if find_cell(self.regions().last().cells, column, offset as int) is Some {
            Some(Error::CellAlreadyAssigned)
        } else {
            None
        }
    }

    /// What keeps a cell of an advice column from being bound to a
    /// constant, if anything does.
    pub open spec fn constant_error(&self, column: AdviceColumn) -> Option<Error> {
        if !self.region_open() {
            Some(Error::NoRegion)
        } else if self.cs().constants@.len() == 0 {
            Some(Error::NotEnoughColumnsForConstants)
        } else if !self.cs().equality_enabled(Column::Advice(column)) {
            Some(Error::ColumnNotInPermutation)
        } else {
            None
        }
    }

    /// What keeps the cells of two advice columns from being bound to each
    /// other, if anything does.
    pub open spec fn equal_error(&self, left: AdviceColumn, right: AdviceColumn) -> Option<Error> {
        if !self.region_open() {
            Some(Error::NoRegion)
        } else if !self.cs().equality_enabled(Column::Advice(left)) || !self.cs().equality_enabled(
            Column::Advice(right),
        ) {
            Some(Error::ColumnNotInPermutation)
        } else {
            None
        }
    }

    /// What keeps a cell of an advice column from being bound to a public
    /// input, if anything does.
    pub open spec fn instance_error(
        &self,
        advice: AdviceColumn,
        instance: InstanceColumn,
        row: usize,
    ) -> Option<Error> {
        if !self.region_open() {
            Some(Error::NoRegion)
        } else if instance_value(self.instance(), instance, row) is None {
            Some(Error::BoundsFailure)
        } else if !self.cs().equality_enabled(Column::Advice(advice))
            || !self.cs().equality_enabled(Column::Instance(instance)) {
            Some(Error::ColumnNotInPermutation)
        } else {
            None
        }
    }

    /// Adds a cell to the open region.
    fn push_cell(&mut self, cell: AssignedCell)
        requires
            old(self).region_open(),
        ensures
            final(self).same_but_last_region(old(self)),
            final(self).regions().last() == old(self).regions().last().with_cell(cell),
    {
        let n = self.regions.len();
        self.regions[n - 1].cells.push(cell);
        assert(self.regions() =~= old(self).regions().update(
            n - 1,
            old(self).regions().last().with_cell(cell),
        ));
        assert(self.regions().drop_last() =~= old(self).regions().drop_last());
    }

    /// Adds a copy constraint to the open region.
    fn push_constraint(&mut self, constraint: CopyConstraint)
        requires
            old(self).region_open(),
        ensures
            final(self).same_but_last_region(old(self)),
            final(self).regions().last() == old(self).regions().last().with_constraint(constraint),
    {
        let n = self.regions.len();
        self.regions[n - 1].constraints.push(constraint);
        assert(self.regions() =~= old(self).regions().update(
            n - 1,
            old(self).regions().last().with_constraint(constraint),
        ));
        assert(self.regions().drop_last() =~= old(self).regions().drop_last());
    }

    /// Whether the column's cells may take part in copy constraints.
    fn equality_enabled(&self, column: Column) -> (r: bool)
        ensures
            r == self.cs().equality_enabled(column),
    {
        contains_column(&self.cs.equality, column)
    }

    /// Whether nothing keeps an advice cell from being assigned.
    fn check_assign(&self, column: AdviceColumn, offset: usize) -> (r: Result<(), Error>)
        ensures
            match self.assign_error(column, offset) {
                Some(e) => r == Err::<(), Error>(e),
                None => r is Ok,
            },
    {
        let n = self.regions.len();
        if !self.open || n == 0 {
            return Err(Error::NoRegion);
        }
        if column.index >= self.cs.num_advice_columns {
            return Err(Error::ColumnNotDeclared);
        }
        assert(self.regions()[n - 1] == self.regions@[n - 1]@);
        if get_cell(&self.regions[n - 1].cells, column, offset).is_some() {
            return Err(Error::CellAlreadyAssigned);
        }
        Ok(())
    }

    /// Enables a selector on a row of the open region. Enabling it twice
    /// changes nothing.
    pub fn enable(&mut self, selector: Selector, offset: usize) -> (r: Result<(), Error>)
        ensures
            match old(self).enable_error(selector) {
                Some(e) => r == Err::<(), Error>(e) && *final(self) == *old(self),
                None => {
                    &&& r is Ok
                    &&& final(self).same_but_last_region(old(self))
                    &&& final(self).regions().last()
                        == old(self).regions().last().with_enabled(selector, offset)
                },
            },
    {
        let n = self.regions.len();
        if !self.open || n == 0 {
            return Err(Error::NoRegion);
        }
        if selector.index >= self.cs.selectors.len() || self.cs.selectors[selector.index]
            != selector.simple {
            return Err(Error::SelectorNotDeclared);
        }
        assert(self.regions()[n - 1] == self.regions@[n - 1]@);
        if !is_enabled(&self.regions[n - 1].enabled, selector, offset) {
            self.regions[n - 1].enabled.push((selector, offset));
        }
        assert(self.regions() =~= old(self).regions().update(
            n - 1,
            old(self).regions().last().with_enabled(selector, offset),
        ));
        assert(self.regions().drop_last() =~= old(self).regions().drop_last());
        Ok(())
    }

    /// Gives a value to the cell of an advice column at a row of the open
    /// region. A cell takes a value once.
    pub fn assign_advice(
        &mut self,
        column: AdviceColumn,
        offset: usize,
        value: Value,
    ) -> (r: Result<AssignedCell, Error>)
        ensures
            match old(self).assign_error(column, offset) {
                Some(e) => r == Err::<AssignedCell, Error>(e) && *final(self) == *old(self),
                None => r == Ok::<AssignedCell, Error>(
                    AssignedCell {
                        cell: Cell { region_index: old(self).current(), column, row_offset: offset },
                        value,
                    },
                ) && final(self).same_but_last_region(old(self)) && final(self).regions().last()
                    == old(self).regions().last().with_cell(r->Ok_0),
            },
    {
        self.check_assign(column, offset)?;
        let cell = AssignedCell {
            cell: Cell { region_index: self.regions.len() - 1, column, row_offset: offset },
            value,
        };
        self.push_cell(cell);
        Ok(cell)
    }

    /// Binds a cell to a constant of the circuit.
    pub fn constrain_constant(&mut self, cell: Cell, constant: Felt) -> (r: Result<(), Error>)
        ensures
            match old(self).constant_error(cell.column) {
                Some(e) => r == Err::<(), Error>(e) && *final(self) == *old(self),
                None => {
                    &&& r is Ok
                    &&& final(self).same_but_last_region(old(self))
                    &&& final(self).regions().last() == old(self).regions().last().with_constraint(
                        CopyConstraint::Constant { cell, constant },
                    )
                },
            },
    {
        if !self.open || self.regions.len() == 0 {
            return Err(Error::NoRegion);
        }
        if self.cs.constants.len() == 0 {
            return Err(Error::NotEnoughColumnsForConstants);
        }
        if !self.equality_enabled(Column::Advice(cell.column)) {
            return Err(Error::ColumnNotInPermutation);
        }
        self.push_constraint(CopyConstraint::Constant { cell, constant });
        Ok(())
    }

    /// Binds two cells to each other.
    pub fn constrain_equal(&mut self, left: Cell, right: Cell) -> (r: Result<(), Error>)
        ensures
            match old(self).equal_error(left.column, right.column) {
                Some(e) => r == Err::<(), Error>(e) && *final(self) == *old(self),
                None => {
                    &&& r is Ok
                    &&& final(self).same_but_last_region(old(self))
                    &&& final(self).regions().last() == old(self).regions().last().with_constraint(
                        CopyConstraint::Equal { left, right },
                    )
                },
            },
    {
        if !self.open || self.regions.len() == 0 {
            return Err(Error::NoRegion);
        }
        if !self.equality_enabled(Column::Advice(left.column)) || !self.equality_enabled(
            Column::Advice(right.column),
        ) {
            return Err(Error::ColumnNotInPermutation);
        }
        self.push_constraint(CopyConstraint::Equal { left, right });
        Ok(())
    }

    /// Binds a cell to the public input at a row of an instance column.
    pub fn constrain_instance(&mut self, cell: Cell, column: InstanceColumn, row: usize) -> (r:
        Result<(), Error>)
        ensures
            match old(self).instance_error(cell.column, column, row) {
                Some(e) => r == Err::<(), Error>(e) && *final(self) == *old(self),
                None => {
                    &&& r is Ok
                    &&& final(self).same_but_last_region(old(self))
                    &&& final(self).regions().last() == old(self).regions().last().with_constraint(
                        CopyConstraint::Instance { cell, column, row },
                    )
                },
            },
    {
        if !self.open || self.regions.len() == 0 {
            return Err(Error::NoRegion);
        }
        if self.instance_at(column, row).is_none() {
            return Err(Error::BoundsFailure);
        }
        if !self.equality_enabled(Column::Advice(cell.column)) || !self.equality_enabled(
            Column::Instance(column),
        ) {
            return Err(Error::ColumnNotInPermutation);
        }
        self.push_constraint(CopyConstraint::Instance { cell, column, row });
        Ok(())
    }

    /// What keeps a cell from being assigned and bound, if anything does:
    /// the first of the two errors.
    pub open spec fn first_error(assign: Option<Error>, bind: Option<Error>) -> Option<Error> {
        if assign is Some {
            assign
        } else {
            bind
        }
    }

    /// Gives a constant of the circuit to an advice cell of the open region
    /// and binds the cell to it.
    pub fn assign_advice_from_constant(
        &mut self,
        column: AdviceColumn,
        offset: usize,
        constant: Felt,
    ) -> (r: Result<AssignedCell, Error>)
        ensures
            match Layouter::first_error(
                old(self).assign_error(column, offset),
                old(self).constant_error(column),
            ) {
                Some(e) => r == Err::<AssignedCell, Error>(e) && *final(self) == *old(self),
                None => r == Ok::<AssignedCell, Error>(
                    AssignedCell {
                        cell: Cell { region_index: old(self).current(), column, row_offset: offset },
                        value: Some(constant),
                    },
                ) && final(self).same_but_last_region(old(self)) && final(self).regions().last()
                    == old(self).regions().last().with_cell(r->Ok_0).with_constraint(
                    CopyConstraint::Constant { cell: r->Ok_0.cell, constant },
                ),
            },
    {
        self.check_assign(column, offset)?;
        if self.cs.constants.len() == 0 {
            return Err(Error::NotEnoughColumnsForConstants);
        }
        if !self.equality_enabled(Column::Advice(column)) {
            return Err(Error::ColumnNotInPermutation);
        }
        let cell = AssignedCell {
            cell: Cell { region_index: self.regions.len() - 1, column, row_offset: offset },
            value: Some(constant),
        };
        self.push_cell(cell);
        self.push_constraint(CopyConstraint::Constant { cell: cell.cell, constant });
        proof {
            assert(self.regions().drop_last() =~= old(self).regions().drop_last());
        }
        Ok(cell)
    }

    /// Gives the public input at a row of an instance column to an advice
    /// cell of the open region and binds the cell to it.
    pub fn assign_advice_from_instance(
        &mut self,
        instance: InstanceColumn,
        row: usize,
        advice: AdviceColumn,
        offset: usize,
    ) -> (r: Result<AssignedCell, Error>)
        ensures
            match Layouter::first_error(
                old(self).assign_error(advice, offset),
                old(self).instance_error(advice, instance, row),
            ) {
                Some(e) => r == Err::<AssignedCell, Error>(e) && *final(self) == *old(self),
                None => r == Ok::<AssignedCell, Error>(
                    AssignedCell {
                        cell: Cell {
                            region_index: old(self).current(),
                            column: advice,
                            row_offset: offset,
                        },
                        value: instance_value(old(self).instance(), instance, row),
                    },
                ) && final(self).same_but_last_region(old(self)) && final(self).regions().last()
                    == old(self).regions().last().with_cell(r->Ok_0).with_constraint(
                    CopyConstraint::Instance { cell: r->Ok_0.cell, column: instance, row },
                ),
            },
    {
        self.check_assign(advice, offset)?;
        let value = self.instance_at(instance, row);
        if value.is_none() {
            return Err(Error::BoundsFailure);
        }
        if !self.equality_enabled(Column::Advice(advice)) || !self.equality_enabled(
            Column::Instance(instance),
        ) {
            return Err(Error::ColumnNotInPermutation);
        }
        let cell = AssignedCell {
            cell: Cell { region_index: self.regions.len() - 1, column: advice, row_offset: offset },
            value,
        };
        self.push_cell(cell);
        self.push_constraint(CopyConstraint::Instance { cell: cell.cell, column: instance, row });
        proof {
            assert(self.regions().drop_last() =~= old(self).regions().drop_last());
        }
        Ok(cell)
    }

    /// Gives the value of an assigned cell to an advice cell of the open
    /// region and binds the new cell to the old one.
    pub fn copy_advice(&mut self, source: &AssignedCell, column: AdviceColumn, offset: usize) -> (r:
        Result<AssignedCell, Error>)
        ensures
            match Layouter::first_error(
                old(self).assign_error(column, offset),
                old(self).equal_error(column, source.cell.column),
            ) {
                Some(e) => r == Err::<AssignedCell, Error>(e) && *final(self) == *old(self),
                None => r == Ok::<AssignedCell, Error>(
                    AssignedCell {
                        cell: Cell { region_index: old(self).current(), column, row_offset: offset },
                        value: source.value,
                    },
                ) && final(self).same_but_last_region(old(self)) && final(self).regions().last()
                    == old(self).regions().last().with_cell(r->Ok_0).with_constraint(
                    CopyConstraint::Equal { left: r->Ok_0.cell, right: source.cell },
                ),
            },
    {
        self.check_assign(column, offset)?;
        if !self.equality_enabled(Column::Advice(column)) || !self.equality_enabled(
            Column::Advice(source.cell.column),
        ) {
            return Err(Error::ColumnNotInPermutation);
        }
        let cell = AssignedCell {
            cell: Cell { region_index: self.regions.len() - 1, column, row_offset: offset },
            value: source.value,
        };
        self.push_cell(cell);
        self.push_constraint(CopyConstraint::Equal { left: cell.cell, right: source.cell });
        proof {
            assert(self.regions().drop_last() =~= old(self).regions().drop_last());
        }
        Ok(cell)
    }
}

impl Layouter {
    /// What keeps a table cell from being assigned, if anything does. A
    /// table column is filled from row 0 on, row by row, within one table;
    /// row 0 can be assigned only while the column is not loaded.
    pub open spec fn table_error(&self, column: TableColumn, offset: usize) -> Option<Error> {
        if self.tables().len() == 0 {
            Some(Error::NoTable)
        } else if !self.cs().has_table(column) {
            Some(Error::ColumnNotDeclared)
        } else {
            match find_table_column(self.table_columns(), column) {
                Some(i) => if offset == 0 || self.table_columns()[i].table_index
                    != self.tables().len() - 1 || self.table_columns()[i].values.len() != offset {
                    Some(Error::TableCellMisplaced)
                } else {
                    None
                },
                None => if offset != 0 {
                    Some(Error::TableCellMisplaced)
                } else {
                    None
                },
            }
        }
    }

    /// The loaded table columns after a value has been added at the end of
    /// one of them.
    pub open spec fn table_columns_with(&self, column: TableColumn, value: Felt) -> Seq<
        TableColumnView,
    > {
        match find_table_column(self.table_columns(), column) {
            Some(i) => self.table_columns().update(
                i,
                TableColumnView {
                    values: self.table_columns()[i].values.push(value),
                    ..self.table_columns()[i]
                },
            ),
            None => self.table_columns().push(
                TableColumnView {
                    table_index: (self.tables().len() - 1) as usize,
                    column,
                    values: seq![value],
                },
            ),
        }
    }

    /// Adding a value to one table column lengthens that column by the value
    /// and leaves the other columns as they are.
    pub proof fn lemma_table_columns_with(
        &self,
        column: TableColumn,
        value: Felt,
        other: TableColumn,
    )
        ensures
            table_values(self.table_columns_with(column, value), other) == if other == column {
                table_values(self.table_columns(), column).push(value)
            } else {
                table_values(self.table_columns(), other)
            },
    {
        let before = self.table_columns();
        let after = self.table_columns_with(column, value);
        lemma_find_table_column(before, column);
        lemma_find_table_column(before, other);
        lemma_find_table_column(after, other);
        match find_table_column(before, column) {
            Some(i) => {
                assert forall|j: int| 0 <= j < before.len() implies (#[trigger] after[j]).column
                    == before[j].column by {}
                match find_table_column(before, other) {
                    Some(k) => {
                        assert(after[k].column == other);
                        let m = find_table_column(after, other)->0;
                        assert(before[m].column == after[m].column);
                        assert(m == k);
                    },
                    None => {
                        if find_table_column(after, other) is Some {
                            let m = find_table_column(after, other)->0;
                            assert(before[m].column == after[m].column);
                        }
                    },
                }
            },
            None => {
                assert(after.drop_last() =~= before);
                assert(seq![value] =~= Seq::<Felt>::empty().push(value));
            },
        }
    }

    /// Opens a new table, which becomes the one that table cells are
    /// assigned in, and returns its index. As far as the numbering of
    /// regions goes, a table takes the place of a region: an empty region
    /// with the table's name is opened with it, and closed at once.
    pub fn assign_table(&mut self, name: &'static str) -> (index: usize)
        ensures
            index == old(self).tables().len(),
            final(self).tables() == old(self).tables().push(
                Table { name, region_index: old(self).regions().len() as usize },
            ),
            final(self).table_columns() == old(self).table_columns(),
            final(self).regions() == old(self).regions().push(RegionView::empty(name)),
            final(self).same_circuit(old(self)),
            !final(self).region_open(),
    {
        let index = self.tables.len();
        let region_index = self.assign_region(name);
        self.open = false;
        self.tables.push(Table { name, region_index });
        index
    }

    /// Gives a value to the next row of a table column in the open table.
    pub fn assign_table_cell(&mut self, column: TableColumn, offset: usize, value: Felt) -> (r:
        Result<(), Error>)
        ensures
            match old(self).table_error(column, offset) {
                Some(e) => r == Err::<(), Error>(e) && *final(self) == *old(self),
                None => {
                    &&& r is Ok
                    &&& final(self).same_but_tables(old(self))
                    &&& final(self).tables() == old(self).tables()
                    &&& final(self).table_columns() == old(self).table_columns_with(column, value)
                    &&& table_values(final(self).table_columns(), column) == table_values(
                        old(self).table_columns(),
                        column,
                    ).push(value)
                    &&& forall|other: TableColumn|
                        other != column ==> table_values(final(self).table_columns(), other)
                            == table_values(old(self).table_columns(), other)
                },
            },
    {
        let tables = self.tables.len();
        if tables == 0 {
            return Err(Error::NoTable);
        }
        proof {
            old(self).lemma_table_columns_with(column, value, column);
            assert forall|other: TableColumn| other != column implies table_values(
                old(self).table_columns_with(column, value),
                other,
            ) == table_values(old(self).table_columns(), other) by {
                old(self).lemma_table_columns_with(column, value, other);
            }
        }
        if column.index >= self.cs.fixed_columns.len() || !self.cs.fixed_columns[column.index] {
            return Err(Error::ColumnNotDeclared);
        }
        match get_table_column(&self.table_columns, column) {
            Some(i) => {
                assert(self.table_columns()[i as int] == self.table_columns@[i as int]@);
                if offset == 0 || self.table_columns[i].table_index != tables - 1
                    || self.table_columns[i].values.len() != offset {
                    return Err(Error::TableCellMisplaced);
                }
                self.table_columns[i].values.push(value);
                assert(self.table_columns() =~= old(self).table_columns_with(column, value));
            },
            None => {
                if offset != 0 {
                    return Err(Error::TableCellMisplaced);
                }
                let mut values: Vec<Felt> = Vec::new();
                values.push(value);
                self.table_columns.push(TableColumnData { table_index: tables - 1, column, values });
                assert(self.table_columns() =~= old(self).table_columns_with(column, value));
            },
        }
        Ok(())
    }
}

} // verus!
