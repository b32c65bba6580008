//! A circuit that witnesses two values: one is checked against a small
//! range with the range-check polynomial, the other against a wider range
//! with a lookup table.

use crate::chips::range_check_1::lemma_eval_range_check;
use crate::chips::range_check_1::lemma_range_product_nonzero;
use crate::chips::range_check_1::lemma_range_product_zero;
use crate::chips::range_check_1::range_product;
use crate::chips::range_check_2::RangeCheckChip;
use crate::chips::range_check_2::RangeCheckConfig;
use crate::chips::range_check_2_table::lemma_range_table_has;
use crate::chips::range_check_2_table::range_values;
use crate::chips::range_check_2_table::RangeCheckTableConfig;
use crate::circuit::lemma_find_cell_at;
use crate::circuit::lemma_find_table_column;
use crate::circuit::table_values;
use crate::circuit::Error;
use crate::circuit::Layouter;
use crate::circuit::RegionView;
use crate::circuit::Table;
use crate::circuit::Value;
use crate::dev::all_gate_failures;
use crate::dev::all_lookup_failures;
use crate::dev::copy_failures;
use crate::dev::eval;
use crate::dev::failures;
use crate::dev::gate_failures;
use crate::dev::lookup_defaults;
use crate::dev::lookup_failures;
use crate::dev::lookup_inputs;
use crate::dev::region_copy_failures;
use crate::dev::region_gate_failures;
use crate::dev::region_lookup_failures;
use crate::dev::row_failures;
use crate::dev::VerifyFailure;
use crate::field::Felt;
use crate::plonk::AdviceColumn;
use crate::plonk::Column;
use crate::plonk::ConstraintSystem;
use crate::plonk::FixedColumn;
use crate::plonk::Selector;
use crate::plonk::TableColumn;
use vstd::prelude::*;

verus! {

/// The circuit: the value for the polynomial, the value for the lookup,
/// and the two ranges.
#[derive(Clone, Copy, Debug, PartialEq, Eq)]
pub struct RangeCheckCircuit2 {
    pub value: Value,
    pub lookup_value: Value,
    pub range: usize,
    pub lookup_table_range: usize,
}

impl RangeCheckCircuit2 {
    /// The gadget as the circuit configures it in an empty shape.
    pub open spec fn config(&self) -> RangeCheckConfig {
        RangeCheckConfig {
            value: AdviceColumn { index: 0 },
            q_range_check: Selector { index: 0, simple: true },
            q_lookup: Selector { index: 1, simple: false },
            table: RangeCheckTableConfig {
                value: TableColumn { index: 0 },
                range: self.lookup_table_range,
            },
            range: self.range,
        }
    }

    /// The shape is the one that the circuit configures from nothing.
    pub open spec fn is_shape(&self, cs: ConstraintSystem) -> bool {
        &&& cs.num_advice_columns == 1
        &&& cs.fixed_columns@ == seq![true]
        &&& cs.num_instance_columns == 0
        &&& cs.selectors@ == seq![true, false]
        &&& cs.equality@ == Seq::<Column>::empty()
        &&& cs.constants@ == Seq::<FixedColumn>::empty()
        &&& cs.gate_views() == seq![self.config().gate()]
        &&& cs.lookup_views() == seq![self.config().lookup()]
    }

    /// The pass holds what the circuit synthesizes from nothing: the loaded
    /// table with its empty region and the regions of the two values.
    pub open spec fn synthesized(&self, layouter: &Layouter) -> bool {
        &&& self.is_shape(layouter.cs())
        &&& layouter.instance() == Seq::<Seq<Felt>>::empty()
        &&& layouter.tables() == seq![Table { name: "load range-check table", region_index: 0 }]
        &&& layouter.table_columns() == if self.lookup_table_range == 0 {
            Seq::empty()
        } else {
            seq![self.config().table.loaded(0)]
        }
        &&& layouter.regions() == seq![
            RegionView::empty("load range-check table"),
            self.config().region("Assign simple", self.config().q_range_check, 1, self.value),
            self.config().region(
                "Assign lookup table",
                self.config().q_lookup,
                2,
                self.lookup_value,
            ),
        ]
    }

    /// The same circuit with its values unknown.
    pub fn without_witnesses(&self) -> (r: Self)
        ensures
            r == (RangeCheckCircuit2 { value: None, lookup_value: None, ..*self }),
    {
        RangeCheckCircuit2 {
            value: None,
            lookup_value: None,
            range: self.range,
            lookup_table_range: self.lookup_table_range,
        }
    }

    /// Declares the circuit in a shape: an advice column and the gadget
    /// over it.
    pub fn configure(meta: &mut ConstraintSystem, range: usize, lookup_table_range: usize) -> (r:
        RangeCheckConfig)
        requires
            old(meta).num_advice_columns < usize::MAX,
        ensures
            r.value.index == old(meta).num_advice_columns,
            r.range == range,
            r.q_range_check.index == old(meta).selectors@.len(),
            r.q_range_check.simple,
            r.q_lookup.index == old(meta).selectors@.len() + 1,
            !r.q_lookup.simple,
            r.table.value.index == old(meta).fixed_columns@.len(),
            r.table.range == lookup_table_range,
            final(meta).num_advice_columns == old(meta).num_advice_columns + 1,
            final(meta).num_instance_columns == old(meta).num_instance_columns,
            final(meta).constants == old(meta).constants,
            final(meta).equality == old(meta).equality,
            final(meta).fixed_columns@ == old(meta).fixed_columns@.push(true),
            final(meta).selectors@ == old(meta).selectors@.push(true).push(false),
            final(meta).gate_views() == old(meta).gate_views().push(r.gate()),
            final(meta).lookup_views() == old(meta).lookup_views().push(r.lookup()),
    {
        let advice = meta.advice_column();
        RangeCheckChip::configure(meta, advice, range, lookup_table_range)
    }

    /// What keeps the circuit from being laid out, if anything does.
    pub open spec fn synthesize_error(
        config: RangeCheckConfig,
        layouter: &Layouter,
    ) -> Option<Error> {
        if config.table.load_error(layouter) is Some {
            config.table.load_error(layouter)
        } else if config.assign_error(layouter, config.q_range_check) is Some {
            config.assign_error(layouter, config.q_range_check)
        } else {
            config.assign_error(layouter, config.q_lookup)
        }
    }

    /// Lays the circuit out: loads the table, then each value in a region
    /// of its own.
    pub fn synthesize(&self, config: RangeCheckConfig, layouter: &mut Layouter) -> (r: Result<
        (),
        Error,
    >)
        ensures
            final(layouter).same_circuit(old(layouter)),
            match Self::synthesize_error(config, old(layouter)) {
                Some(e) => r == Err::<(), Error>(e),
                None => {
                    &&& r is Ok
                    &&& final(layouter).tables() == old(layouter).tables().push(
                Table {
                    name: "load range-check table",
                    region_index: old(layouter).regions().len() as usize,
                },
            )
                    &&& final(layouter).table_columns() == if config.table.range == 0 {
                        old(layouter).table_columns()
                    } else {
                        old(layouter).table_columns().push(
                            config.table.loaded(old(layouter).tables().len() as usize),
                        )
                    }
                    &&& final(layouter).regions() == old(layouter).regions().push(
                        RegionView::empty("load range-check table"),
                    ).push(
                        config.region(
                            "Assign simple",
                            config.q_range_check,
                            (old(layouter).regions().len() + 1) as usize,
                            self.value,
                        ),
                    ).push(
                        config.region(
                            "Assign lookup table",
                            config.q_lookup,
                            (old(layouter).regions().len() + 2) as usize,
                            self.lookup_value,
                        ),
                    )
                },
            },
    {
        config.table.load(layouter)?;

        let chip = RangeCheckChip::construct(config);

        let ghost loaded = layouter.regions();
        chip.assign_simple(layouter, self.value)?;
        proof {
            assert(layouter.regions() =~= loaded.push(layouter.regions().last()));
        }
        let ghost simple = layouter.regions();

        chip.assign_lookup_table(layouter, self.lookup_value)?;
        proof {
            assert(layouter.regions() =~= simple.push(layouter.regions().last()));
        }
        Ok(())
    }

    /// Configures the circuit in an empty shape and lays it out in a fresh
    /// pass.
    pub fn run(&self) -> (r: Result<Layouter, Error>)
        ensures
            r matches Ok(layouter) && self.synthesized(&layouter),
    {
        let mut meta = ConstraintSystem::new();
        let config = Self::configure(&mut meta, self.range, self.lookup_table_range);
        proof {
            assert(meta.gate_views() =~= seq![config.gate()]);
            assert(meta.lookup_views() =~= seq![config.lookup()]);
            assert(meta.selectors@ =~= seq![true, false]);
            assert(meta.fixed_columns@ =~= seq![true]);
        }
        let mut layouter = Layouter::new(meta, Vec::new());
        proof {
            assert(layouter.instance() =~= Seq::<Seq<Felt>>::empty());
            crate::circuit::lemma_find_table_column(layouter.table_columns(), config.table.value);
        }
        let done = self.synthesize(config, &mut layouter);
        proof {
            assert(done is Ok);
            assert(layouter.tables() =~= seq![Table { name: "load range-check table", region_index: 0 }]);
            if self.lookup_table_range != 0 {
                assert(layouter.table_columns() =~= seq![self.config().table.loaded(0)]);
            }
            assert(layouter.regions() =~= seq![
                RegionView::empty("load range-check table"),
                self.config().region("Assign simple", self.config().q_range_check, 1, self.value),
                self.config().region(
                    "Assign lookup table",
                    self.config().q_lookup,
                    2,
                    self.lookup_value,
                ),
            ]);
        }
        match done {
            Ok(()) => Ok(layouter),
            Err(e) => Err(e),
        }
    }
}

impl RangeCheckCircuit2 {
    /// The failure that a value out of the small range meets: the
    /// range-check polynomial does not vanish on the row of the value.
    pub open spec fn polynomial_rejection() -> VerifyFailure {
        VerifyFailure::ConstraintNotSatisfied {
            gate_index: 0,
            gate_name: "Range Check",
            constraint_index: 0,
            constraint_name: "range check",
            region_index: 1,
            region_name: "Assign simple",
            offset: 0,
        }
    }

    /// The failure that a value out of the wider range meets: it is not in
    /// the table.
    pub open spec fn lookup_rejection() -> VerifyFailure {
        VerifyFailure::Lookup {
            lookup_index: 0,
            lookup_name: "lookup",
            region_index: 2,
            region_name: "Assign lookup table",
            offset: 0,
        }
    }

    /// The failures of the polynomial: one where the range-check polynomial does
    /// not vanish at the first value.
    pub open spec fn polynomial_failures(&self) -> Seq<VerifyFailure> {
        if range_product(self.value->0.value(), self.range as nat) == 0 {
            Seq::empty()
        } else {
            seq![Self::polynomial_rejection()]
        }
    }

    /// The failures of the lookup argument: one where the second value is
    /// not below the range of the table.
    pub open spec fn lookup_failures(&self) -> Seq<VerifyFailure> {
        if self.lookup_value->0.value() < self.lookup_table_range {
            Seq::empty()
        } else {
            seq![Self::lookup_rejection()]
        }
    }

    /// The circuit fails in up to two ways: the first value by the
    /// polynomial, the second by the lookup.
    pub proof fn lemma_verdict(&self, layouter: &Layouter)
        requires
            self.synthesized(layouter),
            self.value is Some,
            self.lookup_value is Some,
            self.lookup_table_range >= 1,
        ensures
            failures(layouter) == self.polynomial_failures() + self.lookup_failures(),
    {
        let config = self.config();
        let regions = layouter.regions();
        let columns = layouter.table_columns();
        let gates = layouter.cs().gate_views();
        let lookups = layouter.cs().lookup_views();
        let gate = config.gate();
        let lookup = config.lookup();
        let simple = regions[1];
        let looked = regions[2];
        let none = Seq::<VerifyFailure>::empty();
        assert(gates[0] == gate);
        assert(lookups[0] == lookup);

        // The polynomial: only the region of the first value enables it.
        lemma_find_cell_at(simple.cells, config.value, 0, 0);
        lemma_eval_range_check(config.value, self.range, simple, 0, self.value->0);
        reveal_with_fuel(all_gate_failures, 2);
        reveal_with_fuel(gate_failures, 4);
        reveal_with_fuel(region_gate_failures, 2);
        reveal_with_fuel(row_failures, 2);
        assert(simple.enabled[0] == (config.q_range_check, 0usize));
        assert(looked.enabled[0] == (config.q_lookup, 0usize));
        assert(gate.constraints[0].poly == crate::chips::range_check_1::range_check_expression(
            config.value,
            self.range as nat,
        ));
        let found = row_failures(gate, 0, simple, 1, 0, 1);
        assert(found =~= self.polynomial_failures());
        assert(region_gate_failures(gate, 0, regions[0], 0, 0) =~= none);
        assert(region_gate_failures(gate, 0, simple, 1, 1) =~= found);
        assert(region_gate_failures(gate, 0, looked, 2, 1) =~= none);
        assert(gate_failures(gate, 0, regions, 3) =~= found);
        assert(all_gate_failures(gates, regions, 1) =~= found);

        // The lookup argument: only the region of the second value enables
        // it.
        lemma_find_table_column(columns, config.table.value);
        assert(table_values(columns, config.table.value) == range_values(
            self.lookup_table_range as nat,
        ));
        lemma_find_cell_at(looked.cells, config.value, 0, 0);
        reveal_with_fuel(eval, 2);
        let inputs = lookup_inputs(lookup, looked, 0);
        assert(inputs[0] == Some(self.lookup_value->0.value()));
        lemma_range_table_has(columns, lookup.entries, inputs, self.lookup_table_range);
        let defaults = lookup_defaults(lookup);
        Felt::lemma_from_u64(0);
        assert(defaults[0] == Some(0nat));
        lemma_range_table_has(columns, lookup.entries, defaults, self.lookup_table_range);
        reveal_with_fuel(all_lookup_failures, 2);
        reveal_with_fuel(lookup_failures, 4);
        reveal_with_fuel(region_lookup_failures, 2);
        assert(region_lookup_failures(lookup, 0, columns, regions[0], 0, 0) =~= none);
        assert(region_lookup_failures(lookup, 0, columns, simple, 1, 1) =~= none);
        assert(region_lookup_failures(lookup, 0, columns, looked, 2, 1)
            =~= self.lookup_failures());
        assert(lookup_failures(lookup, 0, columns, regions, 3) =~= self.lookup_failures());
        assert(all_lookup_failures(lookups, columns, regions, 1) =~= self.lookup_failures());

        // No copy constraints.
        reveal_with_fuel(copy_failures, 4);
        assert(region_copy_failures(regions, layouter.instance(), 0, 0) =~= none);
        assert(region_copy_failures(regions, layouter.instance(), 1, 0) =~= none);
        assert(region_copy_failures(regions, layouter.instance(), 2, 0) =~= none);
        assert(copy_failures(regions, layouter.instance(), 3) =~= none);
        assert(failures(layouter) =~= self.polynomial_failures() + self.lookup_failures());
    }

    /// The circuit accepts every first value below the small range beside
    /// every second value below the range of the table.
    pub proof fn lemma_accepts_in_range(&self, layouter: &Layouter)
        requires
            self.synthesized(layouter),
            self.value is Some,
            self.lookup_value is Some,
            self.value->0.value() < self.range,
            self.lookup_value->0.value() < self.lookup_table_range,
        ensures
            failures(layouter) == Seq::<VerifyFailure>::empty(),
    {
        self.lemma_verdict(layouter);
        lemma_range_product_zero(self.value->0.value(), self.range as nat);
    }

    /// The circuit rejects every second value that is not below the range
    /// of the table with a failure of the lookup, whatever the first value
    /// is: the last failure is that one, and alone where the first value is
    /// below the small range.
    pub proof fn lemma_rejects_out_of_table(&self, layouter: &Layouter)
        requires
            self.synthesized(layouter),
            self.value is Some,
            self.lookup_value is Some,
            self.lookup_table_range >= 1,
            self.lookup_value->0.value() >= self.lookup_table_range,
        ensures
            failures(layouter).len() >= 1,
            failures(layouter).last() == Self::lookup_rejection(),
            self.value->0.value() < self.range ==> failures(layouter) == seq![
                Self::lookup_rejection(),
            ],
    {
        self.lemma_verdict(layouter);
        if self.value->0.value() < self.range {
            lemma_range_product_zero(self.value->0.value(), self.range as nat);
            assert(self.polynomial_failures() + self.lookup_failures() =~= seq![
                Self::lookup_rejection(),
            ]);
        }
    }

    /// The circuit rejects every first value that is not below the small
    /// range with a failure of the range-check polynomial: the first failure
    /// is that one, and the only other there can be is that of the lookup.
    pub proof fn lemma_rejects_out_of_range(&self, layouter: &Layouter)
        requires
            self.synthesized(layouter),
            self.value is Some,
            self.lookup_value is Some,
            self.lookup_table_range >= 1,
            self.value->0.wf(),
            1 <= self.range <= self.value->0.value(),
        ensures
            failures(layouter) == seq![Self::polynomial_rejection()] + self.lookup_failures(),
    {
        self.lemma_verdict(layouter);
        lemma_range_product_nonzero(self.value->0.value(), self.range as nat);
    }
}

} // verus!
