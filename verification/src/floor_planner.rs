//! Where the regions of a pass lie: each region is placed, in the order in
//! which the regions were opened, on the first rows that are free in every
//! column it uses.

use crate::circuit::AssignedCell;
use crate::circuit::Layouter;
use crate::circuit::Region;
use crate::circuit::RegionView;
use crate::plonk::AdviceColumn;
use crate::plonk::Selector;
use vstd::prelude::*;

verus! {

/// A column in which a region can take rows: an advice column by its
/// cells, a selector by the rows on which it is enabled.
#[derive(Clone, Copy, Debug, PartialEq, Eq, Structural)]
pub enum RegionColumn {
    Advice(AdviceColumn),
    Selector(Selector),
}

/// The region has a cell in the column, or enables the selector.
pub open spec fn uses(region: RegionView, column: RegionColumn) -> bool {
    match column {
        RegionColumn::Advice(c) => exists|i: int|
            0 <= i < region.cells.len() && (#[trigger] region.cells[i]).cell.column == c,
        RegionColumn::Selector(s) => exists|i: int|
            0 <= i < region.enabled.len() && (#[trigger] region.enabled[i]).0 == s,
    }
}

/// The greater of two numbers.
pub open spec fn max(a: nat, b: nat) -> nat {
    if a >= b {
        a
    } else {
        b
    }
}

/// The number of rows that the first `upto` cells reach down to.
pub open spec fn cells_height(cells: Seq<AssignedCell>, upto: nat) -> nat
    decreases upto,
{
    if upto == 0 {
        0
    } else {
        max(cells_height(cells, (upto - 1) as nat), (cells[upto - 1].cell.row_offset + 1) as nat)
    }
}

/// The number of rows that the first `upto` enabled selectors reach down
/// to.
pub open spec fn enabled_height(enabled: Seq<(Selector, usize)>, upto: nat) -> nat
    decreases upto,
{
    if upto == 0 {
        0
    } else {
        max(enabled_height(enabled, (upto - 1) as nat), (enabled[upto - 1].1 + 1) as nat)
    }
}

/// The number of rows of a region: one more than the last row that holds a
/// cell or an enabled selector, and 0 for an empty region.
pub open spec fn height(region: RegionView) -> nat {
    max(
        cells_height(region.cells, region.cells.len()),
        enabled_height(region.enabled, region.enabled.len()),
    )
}

/// The first row of a column that is free once the first `upto` regions
/// are placed.
pub open spec fn free_row(regions: Seq<RegionView>, upto: nat, column: RegionColumn) -> nat
    decreases upto, 0nat, 0nat,
{
    if upto == 0 {
        0
    } else if uses(regions[upto - 1], column) {
        start_row(regions, (upto - 1) as nat) + height(regions[upto - 1])
    } else {
        free_row(regions, (upto - 1) as nat, column)
    }
}

/// The first row that is free in the columns of the first `upto` cells of
/// a region, once the regions before it are placed.
pub open spec fn cells_start(regions: Seq<RegionView>, index: nat, upto: nat) -> nat
    decreases index, 1nat, upto,
{
    if upto == 0 {
        0
    } else {
        max(
            cells_start(regions, index, (upto - 1) as nat),
            free_row(regions, index, RegionColumn::Advice(regions[index as int].cells[upto - 1].cell.column)),
        )
    }
}

/// The first row that is free in the columns of the first `upto` enabled
/// selectors of a region, once the regions before it are placed.
pub open spec fn enabled_start(regions: Seq<RegionView>, index: nat, upto: nat) -> nat
    decreases index, 1nat, upto,
{
    if upto == 0 {
        0
    } else {
        max(
            enabled_start(regions, index, (upto - 1) as nat),
            free_row(regions, index, RegionColumn::Selector(regions[index as int].enabled[upto - 1].0)),
        )
    }
}

/// The row on which a region starts: the first row that is free in every
/// column that the region uses, once the regions before it are placed.
pub open spec fn start_row(regions: Seq<RegionView>, index: nat) -> nat
    decreases index, 2nat, 0nat,
{
    max(
        cells_start(regions, index, regions[index as int].cells.len()),
        enabled_start(regions, index, regions[index as int].enabled.len()),
    )
}

/// The rows on which the regions start.
pub open spec fn placement(regions: Seq<RegionView>) -> Seq<nat> {
    Seq::new(regions.len(), |i: int| start_row(regions, i as nat))
}

/// A region starts at or below the free row of every column it uses.
pub proof fn lemma_start_covers(regions: Seq<RegionView>, index: nat, column: RegionColumn)
    requires
        index < regions.len(),
        uses(regions[index as int], column),
    ensures
        start_row(regions, index) >= free_row(regions, index, column),
{
    let region = regions[index as int];
    match column {
        RegionColumn::Advice(c) => {
            let i = choose|i: int|
                0 <= i < region.cells.len() && (#[trigger] region.cells[i]).cell.column == c;
            lemma_cells_start_covers(regions, index, region.cells.len(), i);
        },
        RegionColumn::Selector(s) => {
            let i = choose|i: int|
                0 <= i < region.enabled.len() && (#[trigger] region.enabled[i]).0 == s;
            lemma_enabled_start_covers(regions, index, region.enabled.len(), i);
        },
    }
}

/// The start over the first cells covers the free row of each of them.
pub proof fn lemma_cells_start_covers(regions: Seq<RegionView>, index: nat, upto: nat, i: int)
    requires
        index < regions.len(),
        0 <= i < upto <= regions[index as int].cells.len(),
    ensures
        cells_start(regions, index, upto) >= free_row(
            regions,
            index,
            RegionColumn::Advice(regions[index as int].cells[i].cell.column),
        ),
    decreases upto,
{
    if i < upto - 1 {
        lemma_cells_start_covers(regions, index, (upto - 1) as nat, i);
    }
}

/// The start over the first enabled selectors covers the free row of each
/// of them.
pub proof fn lemma_enabled_start_covers(regions: Seq<RegionView>, index: nat, upto: nat, i: int)
    requires
        index < regions.len(),
        0 <= i < upto <= regions[index as int].enabled.len(),
    ensures
        enabled_start(regions, index, upto) >= free_row(
            regions,
            index,
            RegionColumn::Selector(regions[index as int].enabled[i].0),
        ),
    decreases upto,
{
    if i < upto - 1 {
        lemma_enabled_start_covers(regions, index, (upto - 1) as nat, i);
    }
}

/// The free row of a column never moves up.
pub proof fn lemma_free_row_grows(
    regions: Seq<RegionView>,
    from: nat,
    upto: nat,
    column: RegionColumn,
)
    requires
        from <= upto <= regions.len(),
    ensures
        free_row(regions, from, column) <= free_row(regions, upto, column),
    decreases upto,
{
    if from < upto {
        lemma_free_row_grows(regions, from, (upto - 1) as nat, column);
        if uses(regions[upto - 1], column) {
            lemma_start_covers(regions, (upto - 1) as nat, column);
        }
    }
}

/// Regions do not overlap: of two regions that use the same column, the
/// later one starts below the last row of the earlier one.
pub proof fn lemma_regions_do_not_overlap(
    regions: Seq<RegionView>,
    earlier: nat,
    later: nat,
    column: RegionColumn,
)
    requires
        earlier < later < regions.len(),
        uses(regions[earlier as int], column),
        uses(regions[later as int], column),
    ensures
        start_row(regions, later) >= start_row(regions, earlier) + height(regions[earlier as int]),
{
    lemma_start_covers(regions, later, column);
    lemma_free_row_grows(regions, earlier + 1, later, column);
}

/// A region is placed as early as its columns allow: it starts on row 0,
/// or on the free row of a column that it uses.
pub proof fn lemma_first_fit(regions: Seq<RegionView>, index: nat)
    requires
        index < regions.len(),
    ensures
        start_row(regions, index) == 0 || exists|column: RegionColumn|
            uses(regions[index as int], column) && #[trigger] free_row(regions, index, column)
                == start_row(regions, index),
{
    let region = regions[index as int];
    lemma_cells_start_met(regions, index, region.cells.len());
    lemma_enabled_start_met(regions, index, region.enabled.len());
}

/// The start over the first cells is 0 or the free row of one of them.
pub proof fn lemma_cells_start_met(regions: Seq<RegionView>, index: nat, upto: nat)
    requires
        index < regions.len(),
        upto <= regions[index as int].cells.len(),
    ensures
        cells_start(regions, index, upto) == 0 || exists|column: RegionColumn|
            uses(regions[index as int], column) && #[trigger] free_row(regions, index, column)
                == cells_start(regions, index, upto),
    decreases upto,
{
    if upto > 0 {
        lemma_cells_start_met(regions, index, (upto - 1) as nat);
        let cell = regions[index as int].cells[upto - 1];
        let column = RegionColumn::Advice(cell.cell.column);
        assert(uses(regions[index as int], column));
        if cells_start(regions, index, upto) == free_row(regions, index, column) {
        }
    }
}

/// The start over the first enabled selectors is 0 or the free row of one
/// of them.
pub proof fn lemma_enabled_start_met(regions: Seq<RegionView>, index: nat, upto: nat)
    requires
        index < regions.len(),
        upto <= regions[index as int].enabled.len(),
    ensures
        enabled_start(regions, index, upto) == 0 || exists|column: RegionColumn|
            uses(regions[index as int], column) && #[trigger] free_row(regions, index, column)
                == enabled_start(regions, index, upto),
    decreases upto,
{
    if upto > 0 {
        lemma_enabled_start_met(regions, index, (upto - 1) as nat);
        let entry = regions[index as int].enabled[upto - 1];
        let column = RegionColumn::Selector(entry.0);
        assert(uses(regions[index as int], column));
        if enabled_start(regions, index, upto) == free_row(regions, index, column) {
        }
    }
}

/// A region without its values: the places of its cells, its enabled
/// selectors and its name.
pub open spec fn layout_of(region: RegionView) -> RegionView {
    RegionView {
        name: region.name,
        cells: region.cells.map_values(|c: AssignedCell| AssignedCell { cell: c.cell, value: None }),
        enabled: region.enabled,
        constraints: region.constraints,
    }
}

/// Two regions of the same layout use the same columns and have the same
/// height.
pub proof fn lemma_same_region_layout(a: RegionView, b: RegionView)
    requires
        layout_of(a) == layout_of(b),
    ensures
        a.cells.len() == b.cells.len(),
        a.enabled == b.enabled,
        forall|i: int| 0 <= i < a.cells.len() ==> (#[trigger] a.cells[i]).cell == b.cells[i].cell,
        forall|column: RegionColumn| uses(a, column) == uses(b, column),
        height(a) == height(b),
{
    let forget = |c: AssignedCell| AssignedCell { cell: c.cell, value: None };
    assert(a.cells.map_values(forget).len() == b.cells.map_values(forget).len());
    assert forall|i: int| 0 <= i < a.cells.len() implies (#[trigger] a.cells[i]).cell
        == b.cells[i].cell by {
        assert(a.cells.map_values(forget)[i] == b.cells.map_values(forget)[i]);
    }
    assert forall|column: RegionColumn| uses(a, column) == uses(b, column) by {
        match column {
            RegionColumn::Advice(c) => {
                if uses(a, column) {
                    let i = choose|i: int|
                        0 <= i < a.cells.len() && (#[trigger] a.cells[i]).cell.column == c;
                    assert(b.cells[i].cell.column == c);
                }
                if uses(b, column) {
                    let i = choose|i: int|
                        0 <= i < b.cells.len() && (#[trigger] b.cells[i]).cell.column == c;
                    assert(a.cells[i].cell.column == c);
                }
            },
            RegionColumn::Selector(_) => {},
        }
    }
    lemma_same_cells_height(a.cells, b.cells, a.cells.len());
}

/// Cells at the same places reach down to the same row.
pub proof fn lemma_same_cells_height(a: Seq<AssignedCell>, b: Seq<AssignedCell>, upto: nat)
    requires
        upto <= a.len() == b.len(),
        forall|i: int| 0 <= i < a.len() ==> (#[trigger] a[i]).cell == b[i].cell,
    ensures
        cells_height(a, upto) == cells_height(b, upto),
    decreases upto,
{
    if upto > 0 {
        lemma_same_cells_height(a, b, (upto - 1) as nat);
        assert(a[upto - 1].cell == b[upto - 1].cell);
    }
}

/// The free rows do not depend on the values of the cells.
pub proof fn lemma_same_free_row(
    a: Seq<RegionView>,
    b: Seq<RegionView>,
    upto: nat,
    column: RegionColumn,
)
    requires
        a.len() == b.len(),
        upto <= a.len(),
        forall|i: int| 0 <= i < a.len() ==> layout_of(#[trigger] a[i]) == layout_of(b[i]),
    ensures
        free_row(a, upto, column) == free_row(b, upto, column),
    decreases upto, 0nat, 0nat,
{
    if upto > 0 {
        lemma_same_region_layout(a[upto - 1], b[upto - 1]);
        if uses(a[upto - 1], column) {
            lemma_same_start_row(a, b, (upto - 1) as nat);
        } else {
            lemma_same_free_row(a, b, (upto - 1) as nat, column);
        }
    }
}

/// The start over the first cells does not depend on the values of the
/// cells.
pub proof fn lemma_same_cells_start(a: Seq<RegionView>, b: Seq<RegionView>, index: nat, upto: nat)
    requires
        a.len() == b.len(),
        index < a.len(),
        upto <= a[index as int].cells.len(),
        forall|i: int| 0 <= i < a.len() ==> layout_of(#[trigger] a[i]) == layout_of(b[i]),
    ensures
        cells_start(a, index, upto) == cells_start(b, index, upto),
    decreases index, 1nat, upto,
{
    lemma_same_region_layout(a[index as int], b[index as int]);
    if upto > 0 {
        lemma_same_cells_start(a, b, index, (upto - 1) as nat);
        let column = RegionColumn::Advice(a[index as int].cells[upto - 1].cell.column);
        lemma_same_free_row(a, b, index, column);
    }
}

/// The start over the first enabled selectors does not depend on the
/// values of the cells.
pub proof fn lemma_same_enabled_start(
    a: Seq<RegionView>,
    b: Seq<RegionView>,
    index: nat,
    upto: nat,
)
    requires
        a.len() == b.len(),
        index < a.len(),
        upto <= a[index as int].enabled.len(),
        forall|i: int| 0 <= i < a.len() ==> layout_of(#[trigger] a[i]) == layout_of(b[i]),
    ensures
        enabled_start(a, index, upto) == enabled_start(b, index, upto),
    decreases index, 1nat, upto,
{
    lemma_same_region_layout(a[index as int], b[index as int]);
    if upto > 0 {
        lemma_same_enabled_start(a, b, index, (upto - 1) as nat);
        let column = RegionColumn::Selector(a[index as int].enabled[upto - 1].0);
        lemma_same_free_row(a, b, index, column);
    }
}

/// The start of a region does not depend on the values of the cells.
pub proof fn lemma_same_start_row(a: Seq<RegionView>, b: Seq<RegionView>, index: nat)
    requires
        a.len() == b.len(),
        index < a.len(),
        forall|i: int| 0 <= i < a.len() ==> layout_of(#[trigger] a[i]) == layout_of(b[i]),
    ensures
        start_row(a, index) == start_row(b, index),
    decreases index, 2nat, 0nat,
{
    lemma_same_region_layout(a[index as int], b[index as int]);
    lemma_same_cells_start(a, b, index, a[index as int].cells.len());
    lemma_same_enabled_start(a, b, index, a[index as int].enabled.len());
}

/// The placement is the same for every witness: two passes that lay out
/// the same regions, whatever the values of their cells, place them on
/// the same rows.
pub proof fn lemma_placement_ignores_values(a: Seq<RegionView>, b: Seq<RegionView>)
    requires
        a.len() == b.len(),
        forall|i: int| 0 <= i < a.len() ==> layout_of(#[trigger] a[i]) == layout_of(b[i]),
    ensures
        placement(a) == placement(b),
{
    assert forall|i: int| 0 <= i < a.len() implies #[trigger] placement(a)[i] == placement(
        b,
    )[i] by {
        lemma_same_start_row(a, b, i as nat);
    }
    assert(placement(a) =~= placement(b));
}

/// Whether a region has a cell in the column, or enables the selector.
fn region_uses(region: &Region, column: RegionColumn) -> (r: bool)
    ensures
        r == uses(region@, column),
{
    match column {
        RegionColumn::Advice(c) => {
            let mut i: usize = 0;
            while i < region.cells.len()
                invariant
                    i <= region@.cells.len(),
                    column == RegionColumn::Advice(c),
                    forall|j: int| 0 <= j < i ==> (#[trigger] region@.cells[j]).cell.column != c,
                decreases region@.cells.len() - i,
            {
                if region.cells[i].cell.column == c {
                    return true;
                }
                i = i + 1;
            }
            false
        },
        RegionColumn::Selector(s) => {
            let mut i: usize = 0;
            while i < region.enabled.len()
                invariant
                    i <= region@.enabled.len(),
                    column == RegionColumn::Selector(s),
                    forall|j: int| 0 <= j < i ==> (#[trigger] region@.enabled[j]).0 != s,
                decreases region@.enabled.len() - i,
            {
                if region.enabled[i].0 == s {
                    return true;
                }
                i = i + 1;
            }
            false
        },
    }
}

/// The last row of a region that holds a cell or an enabled selector, if
/// there is one.
fn last_row(region: &Region) -> (r: Option<usize>)
    ensures
        match r {
            Some(row) => height(region@) == row + 1,
            None => height(region@) == 0,
        },
{
    let mut last: Option<usize> = None;
    let mut i: usize = 0;
    while i < region.cells.len()
        invariant
            i <= region@.cells.len(),
            match last {
                Some(row) => cells_height(region@.cells, i as nat) == row + 1,
                None => cells_height(region@.cells, i as nat) == 0,
            },
        decreases region@.cells.len() - i,
    {
        let row = region.cells[i].cell.row_offset;
        last = match last {
            Some(seen) => if seen >= row {
                Some(seen)
            } else {
                Some(row)
            },
            None => Some(row),
        };
        i = i + 1;
    }
    let ghost below = last;
    let mut j: usize = 0;
    while j < region.enabled.len()
        invariant
            j <= region@.enabled.len(),
            match below {
                Some(row) => cells_height(region@.cells, region@.cells.len()) == row + 1,
                None => cells_height(region@.cells, region@.cells.len()) == 0,
            },
            match last {
                Some(row) => max(
                    cells_height(region@.cells, region@.cells.len()),
                    enabled_height(region@.enabled, j as nat),
                ) == row + 1,
                None => max(
                    cells_height(region@.cells, region@.cells.len()),
                    enabled_height(region@.enabled, j as nat),
                ) == 0,
            },
        decreases region@.enabled.len() - j,
    {
        let row = region.enabled[j].1;
        last = match last {
            Some(seen) => if seen >= row {
                Some(seen)
            } else {
                Some(row)
            },
            None => Some(row),
        };
        j = j + 1;
    }
    last
}

/// The rows below the first `upto` regions are known: where each region
/// starts and where it ends.
pub open spec fn placed(
    regions: Seq<RegionView>,
    starts: Seq<usize>,
    ends: Seq<usize>,
    upto: nat,
) -> bool {
    &&& starts.len() == upto
    &&& ends.len() == upto
    &&& forall|j: int|
        0 <= j < upto ==> (#[trigger] starts[j]) == start_row(regions, j as nat) && ends[j]
            == start_row(regions, j as nat) + height(regions[j])
}

/// The first row of a column that is free once the first regions are
/// placed.
fn free_row_of(
    layouter: &Layouter,
    starts: &Vec<usize>,
    ends: &Vec<usize>,
    column: RegionColumn,
) -> (r: usize)
    requires
        starts@.len() <= layouter.regions().len(),
        placed(layouter.regions(), starts@, ends@, starts@.len()),
    ensures
        r == free_row(layouter.regions(), starts@.len(), column),
{
    let mut upto: usize = starts.len();
    while upto > 0
        invariant
            upto <= starts@.len() <= layouter.regions().len(),
            placed(layouter.regions(), starts@, ends@, starts@.len()),
            free_row(layouter.regions(), starts@.len(), column) == free_row(
                layouter.regions(),
                upto as nat,
                column,
            ),
        decreases upto,
    {
        if region_uses(layouter.region(upto - 1), column) {
            assert(starts@[upto - 1] == start_row(layouter.regions(), (upto - 1) as nat));
            return ends[upto - 1];
        }
        upto = upto - 1;
    }
    0
}

impl Layouter {
    /// The row on which each region starts, where the regions are placed
    /// in the order in which they were opened, each on the first rows that
    /// are free in every column it uses. There is no placement where the
    /// rows run out.
    pub fn region_starts(&self) -> (r: Option<Vec<usize>>)
        ensures
            match r {
                Some(starts) => {
                    &&& starts@.len() == self.regions().len()
                    &&& forall|i: int|
                        0 <= i < starts@.len() ==> (#[trigger] starts@[i]) == start_row(
                            self.regions(),
                            i as nat,
                        )
                },
                None => exists|i: int|
                    0 <= i < self.regions().len() && start_row(self.regions(), i as nat) + height(
                        #[trigger] self.regions()[i],
                    ) > usize::MAX,
            },
    {
        let ghost regions = self.regions();
        let mut starts: Vec<usize> = Vec::new();
        let mut ends: Vec<usize> = Vec::new();
        let mut index: usize = 0;
        while index < self.num_regions()
            invariant
                regions == self.regions(),
                index <= regions.len(),
                placed(regions, starts@, ends@, index as nat),
            decreases regions.len() - index,
        {
            let region = self.region(index);
            let mut start: usize = 0;
            let mut i: usize = 0;
            while i < region.cells.len()
                invariant
                    regions == self.regions(),
                    index < regions.len(),
                    region@ == regions[index as int],
                    placed(regions, starts@, ends@, index as nat),
                    i <= region@.cells.len(),
                    start == cells_start(regions, index as nat, i as nat),
                decreases region@.cells.len() - i,
            {
                let free = free_row_of(
                    self,
                    &starts,
                    &ends,
                    RegionColumn::Advice(region.cells[i].cell.column),
                );
                if free > start {
                    start = free;
                }
                i = i + 1;
            }
            let ghost over_cells = start;
            let mut j: usize = 0;
            while j < region.enabled.len()
                invariant
                    regions == self.regions(),
                    index < regions.len(),
                    region@ == regions[index as int],
                    placed(regions, starts@, ends@, index as nat),
                    j <= region@.enabled.len(),
                    over_cells == cells_start(regions, index as nat, region@.cells.len()),
                    start == max(
                        over_cells as nat,
                        enabled_start(regions, index as nat, j as nat),
                    ),
                decreases region@.enabled.len() - j,
            {
                let free = free_row_of(self, &starts, &ends, RegionColumn::Selector(region.enabled[j].0));
                if free > start {
                    start = free;
                }
                j = j + 1;
            }
            let end = match last_row(region) {
                Some(row) => {
                    if row == usize::MAX || start > usize::MAX - row - 1 {
                        return None;
                    }
                    start + row + 1
                },
                None => start,
            };
            let ghost before_starts = starts@;
            let ghost before_ends = ends@;
            assert(start == start_row(regions, index as nat));
            assert(end == start_row(regions, index as nat) + height(regions[index as int]));
            starts.push(start);
            ends.push(end);
            assert forall|k: int| 0 <= k < index + 1 implies (#[trigger] starts@[k]) == start_row(
                regions,
                k as nat,
            ) && ends@[k] == start_row(regions, k as nat) + height(regions[k]) by {
                if k < index {
                    assert(before_starts[k] == starts@[k]);
                    assert(before_ends[k] == ends@[k]);
                }
            }
            index = index + 1;
        }
        Some(starts)
    }
}

} // verus!
