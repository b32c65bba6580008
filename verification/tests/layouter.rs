use plonkish_gadgets::circuit::AssignedCell;
use plonkish_gadgets::circuit::Cell;
use plonkish_gadgets::circuit::CopyConstraint;
use plonkish_gadgets::circuit::Error;
use plonkish_gadgets::circuit::Layouter;
use plonkish_gadgets::field::Felt;
use plonkish_gadgets::plonk::AdviceColumn;
use plonkish_gadgets::plonk::Column;
use plonkish_gadgets::plonk::ConstraintSystem;
use plonkish_gadgets::plonk::InstanceColumn;
use plonkish_gadgets::plonk::Rotation;
use plonkish_gadgets::plonk::Selector;
use plonkish_gadgets::plonk::TableColumn;

fn shape() -> (ConstraintSystem, AdviceColumn, AdviceColumn, InstanceColumn, Selector, TableColumn) {
    let mut cs = ConstraintSystem::new();
    let a = cs.advice_column();
    let b = cs.advice_column();
    let instance = cs.instance_column();
    let constants = cs.fixed_column();
    cs.enable_constant(constants);
    cs.enable_equality(Column::Advice(a));
    cs.enable_equality(Column::Instance(instance));
    let q = cs.selector();
    let table = cs.lookup_table_column();
    (cs, a, b, instance, q, table)
}

#[test]
fn columns_are_numbered_as_they_are_declared() {
    let (cs, a, b, instance, q, table) = shape();
    assert_eq!(a.index, 0);
    assert_eq!(b.index, 1);
    assert_eq!(instance.index, 0);
    assert_eq!(q, Selector { index: 0, simple: true });
    assert_eq!(table.index, 1);
    assert_eq!(cs.num_advice_columns, 2);
    assert_eq!(cs.fixed_columns, vec![false, true]);
    assert_eq!(cs.equality, vec![Column::Advice(a), Column::Instance(instance)]);
    assert_eq!(Rotation::cur(), Rotation(0));
    assert_eq!(Rotation::prev(), Rotation(-1));
    assert_eq!(Rotation::next(), Rotation(1));
}

#[test]
fn enabling_equality_twice_changes_nothing() {
    let (mut cs, a, _, _, _, _) = shape();
    let before = cs.equality.clone();
    cs.enable_equality(Column::Advice(a));
    assert_eq!(cs.equality, before);
}

#[test]
fn nothing_is_assigned_before_a_region_is_opened() {
    let (cs, a, _, instance, q, _) = shape();
    let mut layouter = Layouter::new(cs, vec![vec![Felt::one()]]);
    let cell = Cell { region_index: 0, column: a, row_offset: 0 };
    assert_eq!(layouter.assign_advice(a, 0, None), Err(Error::NoRegion));
    assert_eq!(layouter.enable(q, 0), Err(Error::NoRegion));
    assert_eq!(layouter.constrain_constant(cell, Felt::one()), Err(Error::NoRegion));
    assert_eq!(layouter.constrain_equal(cell, cell), Err(Error::NoRegion));
    assert_eq!(layouter.constrain_instance(cell, instance, 0), Err(Error::NoRegion));
    assert_eq!(
        layouter.assign_advice_from_constant(a, 0, Felt::one()),
        Err(Error::NoRegion)
    );
    assert_eq!(
        layouter.assign_advice_from_instance(instance, 0, a, 0),
        Err(Error::NoRegion)
    );
    assert_eq!(layouter.num_regions(), 0);
}

#[test]
fn a_cell_takes_a_value_once() {
    let (cs, a, _, _, _, _) = shape();
    let mut layouter = Layouter::new(cs, vec![]);
    assert_eq!(layouter.assign_region("first"), 0);
    let cell = layouter.assign_advice(a, 3, Some(Felt::from_u64(9))).unwrap();
    assert_eq!(
        cell,
        AssignedCell {
            cell: Cell { region_index: 0, column: a, row_offset: 3 },
            value: Some(Felt::from_u64(9)),
        }
    );
    assert_eq!(cell.cell(), Cell { region_index: 0, column: a, row_offset: 3 });
    assert_eq!(cell.value(), Some(Felt::from_u64(9)));
    assert_eq!(
        layouter.assign_advice(a, 3, Some(Felt::from_u64(9))),
        Err(Error::CellAlreadyAssigned)
    );
    assert_eq!(layouter.region(0).cells.len(), 1);
    // The same place in another region is another cell.
    assert_eq!(layouter.assign_region("second"), 1);
    assert!(layouter.assign_advice(a, 3, None).is_ok());
}

#[test]
fn undeclared_columns_and_selectors_are_refused() {
    let (cs, _, _, _, _, _) = shape();
    let mut layouter = Layouter::new(cs, vec![]);
    layouter.assign_region("region");
    assert_eq!(
        layouter.assign_advice(AdviceColumn { index: 2 }, 0, None),
        Err(Error::ColumnNotDeclared)
    );
    assert_eq!(
        layouter.enable(Selector { index: 1, simple: true }, 0),
        Err(Error::SelectorNotDeclared)
    );
    // The selector with index 0 is a simple one.
    assert_eq!(
        layouter.enable(Selector { index: 0, simple: false }, 0),
        Err(Error::SelectorNotDeclared)
    );
    assert_eq!(layouter.region(0).cells.len(), 0);
    assert_eq!(layouter.region(0).enabled.len(), 0);
}

#[test]
fn enabling_a_selector_twice_changes_nothing() {
    let (cs, _, _, _, q, _) = shape();
    let mut layouter = Layouter::new(cs, vec![]);
    layouter.assign_region("region");
    assert_eq!(layouter.enable(q, 2), Ok(()));
    assert_eq!(layouter.enable(q, 2), Ok(()));
    assert_eq!(layouter.enable(q, 0), Ok(()));
    assert_eq!(layouter.region(0).enabled, vec![(q, 2), (q, 0)]);
}

#[test]
fn copy_constraints_need_equality() {
    let (cs, a, b, instance, _, _) = shape();
    let mut layouter = Layouter::new(cs, vec![vec![Felt::from_u64(5)]]);
    layouter.assign_region("region");
    let on_a = layouter.assign_advice(a, 0, Some(Felt::one())).unwrap();
    let on_b = layouter.assign_advice(b, 0, Some(Felt::one())).unwrap();
    assert_eq!(
        layouter.constrain_equal(on_a.cell, on_b.cell),
        Err(Error::ColumnNotInPermutation)
    );
    assert_eq!(
        layouter.constrain_constant(on_b.cell, Felt::one()),
        Err(Error::ColumnNotInPermutation)
    );
    assert_eq!(
        layouter.constrain_instance(on_b.cell, instance, 0),
        Err(Error::ColumnNotInPermutation)
    );
    assert_eq!(layouter.copy_advice(&on_a, b, 1), Err(Error::ColumnNotInPermutation));
    assert_eq!(
        layouter.assign_advice_from_constant(b, 1, Felt::one()),
        Err(Error::ColumnNotInPermutation)
    );
    assert_eq!(
        layouter.assign_advice_from_instance(instance, 0, b, 1),
        Err(Error::ColumnNotInPermutation)
    );
    assert_eq!(layouter.region(0).constraints.len(), 0);
    assert_eq!(layouter.region(0).cells.len(), 2);

    assert_eq!(layouter.constrain_equal(on_a.cell, on_a.cell), Ok(()));
    assert_eq!(layouter.constrain_constant(on_a.cell, Felt::one()), Ok(()));
    assert_eq!(layouter.constrain_instance(on_a.cell, instance, 0), Ok(()));
    assert_eq!(
        layouter.region(0).constraints,
        vec![
            CopyConstraint::Equal { left: on_a.cell, right: on_a.cell },
            CopyConstraint::Constant { cell: on_a.cell, constant: Felt::one() },
            CopyConstraint::Instance { cell: on_a.cell, column: instance, row: 0 },
        ]
    );
}

#[test]
fn public_inputs_have_bounds() {
    let (cs, a, _, instance, _, _) = shape();
    let mut layouter = Layouter::new(cs, vec![vec![Felt::from_u64(5), Felt::from_u64(6)]]);
    assert_eq!(layouter.instance_at(instance, 1), Some(Felt::from_u64(6)));
    assert_eq!(layouter.instance_at(instance, 2), None);
    assert_eq!(layouter.instance_at(InstanceColumn { index: 1 }, 0), None);
    layouter.assign_region("region");
    assert_eq!(
        layouter.assign_advice_from_instance(instance, 2, a, 0),
        Err(Error::BoundsFailure)
    );
    let cell = layouter.assign_advice_from_instance(instance, 1, a, 0).unwrap();
    assert_eq!(cell.value, Some(Felt::from_u64(6)));
    assert_eq!(
        layouter.constrain_instance(cell.cell, instance, 2),
        Err(Error::BoundsFailure)
    );
    assert_eq!(
        layouter.region(0).constraints,
        vec![CopyConstraint::Instance { cell: cell.cell, column: instance, row: 1 }]
    );
}

#[test]
fn constants_need_a_column() {
    let mut cs = ConstraintSystem::new();
    let a = cs.advice_column();
    cs.enable_equality(Column::Advice(a));
    let mut layouter = Layouter::new(cs, vec![]);
    layouter.assign_region("region");
    let cell = layouter.assign_advice(a, 0, Some(Felt::one())).unwrap();
    assert_eq!(
        layouter.constrain_constant(cell.cell, Felt::one()),
        Err(Error::NotEnoughColumnsForConstants)
    );
    assert_eq!(
        layouter.assign_advice_from_constant(a, 1, Felt::one()),
        Err(Error::NotEnoughColumnsForConstants)
    );
    assert_eq!(layouter.region(0).cells.len(), 1);
}

#[test]
fn copies_carry_the_value_and_bind_the_cells() {
    let (mut cs, a, b, _, _, _) = shape();
    cs.enable_equality(Column::Advice(b));
    let mut layouter = Layouter::new(cs, vec![]);
    layouter.assign_region("source");
    let source = layouter.assign_advice(a, 0, Some(Felt::from_u64(7))).unwrap();
    layouter.assign_region("copy");
    let copy = layouter.copy_advice(&source, b, 4).unwrap();
    assert_eq!(copy.value, Some(Felt::from_u64(7)));
    assert_eq!(copy.cell, Cell { region_index: 1, column: b, row_offset: 4 });
    assert_eq!(
        layouter.region(1).constraints,
        vec![CopyConstraint::Equal { left: copy.cell, right: source.cell }]
    );
    let fixed = layouter.assign_advice_from_constant(a, 0, Felt::from_u64(3)).unwrap();
    assert_eq!(fixed.value, Some(Felt::from_u64(3)));
    assert_eq!(
        layouter.region(1).constraints[1],
        CopyConstraint::Constant { cell: fixed.cell, constant: Felt::from_u64(3) }
    );
}

#[test]
fn table_columns_are_filled_in_order() {
    let (cs, _, _, _, _, table) = shape();
    let mut layouter = Layouter::new(cs, vec![]);
    assert_eq!(
        layouter.assign_table_cell(table, 0, Felt::zero()),
        Err(Error::NoTable)
    );
    assert_eq!(layouter.assign_table("table"), 0);
    // A table takes the place of a region.
    assert_eq!(layouter.num_regions(), 1);
    assert_eq!(layouter.region(0).name, "table");
    assert_eq!(layouter.opened_tables()[0].region_index, 0);
    assert_eq!(
        layouter.assign_table_cell(TableColumn { index: 0 }, 0, Felt::zero()),
        Err(Error::ColumnNotDeclared)
    );
    assert_eq!(
        layouter.assign_table_cell(TableColumn { index: 7 }, 0, Felt::zero()),
        Err(Error::ColumnNotDeclared)
    );
    assert_eq!(
        layouter.assign_table_cell(table, 1, Felt::zero()),
        Err(Error::TableCellMisplaced)
    );
    assert_eq!(layouter.assign_table_cell(table, 0, Felt::from_u64(10)), Ok(()));
    assert_eq!(
        layouter.assign_table_cell(table, 0, Felt::from_u64(10)),
        Err(Error::TableCellMisplaced)
    );
    assert_eq!(
        layouter.assign_table_cell(table, 2, Felt::from_u64(10)),
        Err(Error::TableCellMisplaced)
    );
    assert_eq!(layouter.assign_table_cell(table, 1, Felt::from_u64(11)), Ok(()));
    assert_eq!(
        layouter.loaded_values(table),
        Some(&vec![Felt::from_u64(10), Felt::from_u64(11)])
    );
    assert_eq!(layouter.loaded_values(TableColumn { index: 0 }), None);
    // A column belongs to the table in which it was first assigned.
    layouter.assign_table("another");
    assert_eq!(
        layouter.assign_table_cell(table, 2, Felt::from_u64(12)),
        Err(Error::TableCellMisplaced)
    );
    assert_eq!(layouter.num_table_columns(), 1);
    assert_eq!(layouter.table_column(0).values.len(), 2);
}

#[test]
fn a_table_closes_the_region_that_was_open() {
    let (cs, a, _, _, q, table) = shape();
    let mut layouter = Layouter::new(cs, vec![]);
    layouter.assign_region("first");
    assert_eq!(layouter.enable(q, 0), Ok(()));
    layouter.assign_table("table");
    // Nothing but table cells can be assigned until a region is opened.
    assert_eq!(layouter.assign_advice(a, 0, None), Err(Error::NoRegion));
    assert_eq!(layouter.enable(q, 0), Err(Error::NoRegion));
    assert_eq!(layouter.assign_table_cell(table, 0, Felt::one()), Ok(()));
    assert!(layouter.region(1).cells.is_empty());
    assert!(layouter.region(1).enabled.is_empty());
    assert_eq!(layouter.assign_region("second"), 2);
    assert!(layouter.assign_advice(a, 0, Some(Felt::one())).is_ok());
    assert_eq!(layouter.region(2).cells.len(), 1);
    assert_eq!(layouter.region(1).cells.len(), 0);
}
