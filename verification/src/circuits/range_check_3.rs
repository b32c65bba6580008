//! A circuit that witnesses a value beside the number of its bits and
//! looks the pair up in the table of two columns.

use crate::chips::range_check_2_table::range_values;
use crate::chips::range_check_3::RangeCheckChip;
use crate::chips::range_check_3::RangeCheckConfig;
use crate::chips::range_check_3_table::bit_length;
use crate::chips::range_check_3_table::bit_lengths;
use crate::chips::range_check_3_table::lemma_pair_table_has;
use crate::chips::range_check_3_table::RangeCheckTableConfig;
use crate::circuit::lemma_find_cell_at;
use crate::circuit::lemma_find_table_column;
use crate::circuit::table_values;
use crate::circuit::Error;
use crate::circuit::Layouter;
use crate::circuit::RegionView;
use crate::circuit::Table;
use crate::circuit::Value;
use crate::dev::all_gate_failures;
use crate::dev::all_lookup_failures;
use crate::dev::copy_failures;
use crate::dev::eval;
use crate::dev::failures;
use crate::dev::lookup_defaults;
use crate::dev::lookup_failures;
use crate::dev::lookup_inputs;
use crate::dev::region_copy_failures;
use crate::dev::region_lookup_failures;
use crate::dev::VerifyFailure;
use crate::field::Felt;
use crate::plonk::AdviceColumn;
use crate::plonk::Column;
use crate::plonk::ConstraintSystem;
use crate::plonk::FixedColumn;
use crate::plonk::GateView;
use crate::plonk::Selector;
use crate::plonk::TableColumn;
use vstd::arithmetic::power2::pow2;
use vstd::prelude::*;

verus! {

/// The circuit: the number of bits, the value, and the size and width of
/// the table.
#[derive(Clone, Copy, Debug, PartialEq, Eq)]
pub struct RangeCheckCircuit3 {
    pub num_bits: Option<u8>,
    pub value: Value,
    pub lookup_table_range: usize,
    pub max_bits: usize,
}

impl RangeCheckCircuit3 {
    /// The size of the table agrees with its width in bits.
    pub open spec fn wf(&self) -> bool {
        &&& self.max_bits < 32
        &&& self.lookup_table_range == pow2(self.max_bits as nat)
    }

    /// The gadget as the circuit configures it in an empty shape. The
    /// numbers of bits go to the second advice column and the values to the
    /// first.
    pub open spec fn config(&self) -> RangeCheckConfig {
        RangeCheckConfig {
            q_lookup: Selector { index: 0, simple: false },
            num_bits_col: AdviceColumn { index: 1 },
            value_col: AdviceColumn { index: 0 },
            table: RangeCheckTableConfig {
                value: TableColumn { index: 0 },
                num_bits: TableColumn { index: 1 },
                lookup_table_range: self.lookup_table_range,
                max_bits: self.max_bits,
            },
        }
    }

    /// The shape is the one that the circuit configures from nothing.
    pub open spec fn is_shape(&self, cs: ConstraintSystem) -> bool {
        &&& cs.num_advice_columns == 2
        &&& cs.fixed_columns@ == seq![true, true]
        &&& cs.num_instance_columns == 0
        &&& cs.selectors@ == seq![false]
        &&& cs.equality@ == Seq::<Column>::empty()
        &&& cs.constants@ == Seq::<FixedColumn>::empty()
        &&& cs.gate_views() == Seq::<GateView>::empty()
        &&& cs.lookup_views() == seq![self.config().lookup()]
    }

    /// The pass holds what the circuit synthesizes from nothing: the loaded
    /// table with its empty region and the region of the pair.
    pub open spec fn synthesized(&self, layouter: &Layouter) -> bool {
        &&& self.is_shape(layouter.cs())
        &&& layouter.instance() == Seq::<Seq<Felt>>::empty()
        &&& layouter.tables() == seq![Table { name: "load range-check table with num_bits", region_index: 0 }]
        &&& layouter.table_columns() == seq![
            self.config().table.loaded_num_bits(0, self.lookup_table_range as nat),
            self.config().table.loaded_values(0, self.lookup_table_range as nat),
        ]
        &&& layouter.regions() == seq![
            RegionView::empty("load range-check table with num_bits"),
            self.config().region(1, self.value, self.num_bits),
        ]
    }

    /// The same circuit with its witness unknown.
    pub fn without_witnesses(&self) -> (r: Self)
        ensures
            r == (RangeCheckCircuit3 { num_bits: None, value: None, ..*self }),
    {
        RangeCheckCircuit3 {
            num_bits: None,
            value: None,
            lookup_table_range: self.lookup_table_range,
            max_bits: self.max_bits,
        }
    }

    /// Declares the circuit in a shape: two advice columns and the gadget
    /// over them. The gadget takes the second column for the numbers of
    /// bits and the first for the values.
    pub fn configure(cs: &mut ConstraintSystem, lookup_table_range: usize, max_bits: usize) -> (r:
        RangeCheckConfig)
        requires
            old(cs).num_advice_columns < usize::MAX - 1,
            max_bits < 32,
            lookup_table_range == pow2(max_bits as nat),
        ensures
            r.value_col.index == old(cs).num_advice_columns,
            r.num_bits_col.index == old(cs).num_advice_columns + 1,
            r.q_lookup.index == old(cs).selectors@.len(),
            !r.q_lookup.simple,
            r.table.value.index == old(cs).fixed_columns@.len(),
            r.table.num_bits.index == old(cs).fixed_columns@.len() + 1,
            r.table.lookup_table_range == lookup_table_range,
            r.table.max_bits == max_bits,
            final(cs).num_advice_columns == old(cs).num_advice_columns + 2,
            final(cs).num_instance_columns == old(cs).num_instance_columns,
            final(cs).constants == old(cs).constants,
            final(cs).equality == old(cs).equality,
            final(cs).gates == old(cs).gates,
            final(cs).fixed_columns@ == old(cs).fixed_columns@.push(true).push(true),
            final(cs).selectors@ == old(cs).selectors@.push(false),
            final(cs).lookup_views() == old(cs).lookup_views().push(r.lookup()),
    {
        let num_bits_col = cs.advice_column();
        let value_col = cs.advice_column();

        RangeCheckChip::configure(cs, value_col, num_bits_col, lookup_table_range, max_bits)
    }

    /// Lays the circuit out: loads the table, then the pair in a region of
    /// its own.
    pub fn synthesize(&self, config: RangeCheckConfig, layouter: &mut Layouter) -> (r: Result<
        (),
        Error,
    >)
        requires
            config.table.wf(),
        ensures
            final(layouter).same_circuit(old(layouter)),
            match config.table.first_error(old(layouter)) {
                Some(e) => r == Err::<(), Error>(e),
                None => match config.table.second_error(old(layouter)) {
                    Some(e) => r == Err::<(), Error>(e),
                    None => match config.assign_error(old(layouter)) {
                        Some(e) => r == Err::<(), Error>(e),
                        None => {
                            &&& r is Ok
                            &&& final(layouter).tables() == old(layouter).tables().push(
                Table {
                    name: "load range-check table with num_bits",
                    region_index: old(layouter).regions().len() as usize,
                },
            )
                            &&& final(layouter).table_columns() == old(layouter).table_columns().push(
                                config.table.loaded_num_bits(
                                    old(layouter).tables().len() as usize,
                                    config.table.lookup_table_range as nat,
                                ),
                            ).push(
                                config.table.loaded_values(
                                    old(layouter).tables().len() as usize,
                                    config.table.lookup_table_range as nat,
                                ),
                            )
                            &&& final(layouter).regions() == old(layouter).regions().push(
                                RegionView::empty("load range-check table with num_bits"),
                            ).push(
                                config.region(
                                    (old(layouter).regions().len() + 1) as usize,
                                    self.value,
                                    self.num_bits,
                                ),
                            )
                        },
                    },
                },
            },
    {
        config.table.load(layouter)?;

        let chip = RangeCheckChip::construct(config);
        let ghost loaded = layouter.regions();
        chip.assign_lookup_table(layouter, self.value, self.num_bits)?;
        proof {
            assert(layouter.regions() =~= loaded.push(layouter.regions().last()));
        }

        Ok(())
    }

    /// Configures the circuit in an empty shape and lays it out in a fresh
    /// pass.
    pub fn run(&self) -> (r: Result<Layouter, Error>)
        requires
            self.wf(),
        ensures
            r matches Ok(layouter) && self.synthesized(&layouter),
    {
        let mut meta = ConstraintSystem::new();
        let config = Self::configure(&mut meta, self.lookup_table_range, self.max_bits);
        proof {
            assert(meta.gate_views() =~= Seq::<GateView>::empty());
            assert(meta.lookup_views() =~= seq![config.lookup()]);
            assert(meta.selectors@ =~= seq![false]);
            assert(meta.fixed_columns@ =~= seq![true, true]);
        }
        let mut layouter = Layouter::new(meta, Vec::new());
        proof {
            assert(layouter.instance() =~= Seq::<Seq<Felt>>::empty());
            crate::circuit::lemma_find_table_column(layouter.table_columns(), config.table.value);
            crate::circuit::lemma_find_table_column(
                layouter.table_columns(),
                config.table.num_bits,
            );
        }
        let done = self.synthesize(config, &mut layouter);
        proof {
            assert(done is Ok);
            assert(layouter.tables() =~= seq![Table { name: "load range-check table with num_bits", region_index: 0 }]);
            assert(layouter.table_columns() =~= seq![
                self.config().table.loaded_num_bits(0, self.lookup_table_range as nat),
                self.config().table.loaded_values(0, self.lookup_table_range as nat),
            ]);
            assert(layouter.regions() =~= seq![
                RegionView::empty("load range-check table with num_bits"),
                self.config().region(1, self.value, self.num_bits),
            ]);
        }
        match done {
            Ok(()) => Ok(layouter),
            Err(e) => Err(e),
        }
    }
}

impl RangeCheckCircuit3 {
    /// The failure that a pair meets which is no row of the table.
    pub open spec fn rejection() -> VerifyFailure {
        VerifyFailure::Lookup {
            lookup_index: 0,
            lookup_name: "lookup",
            region_index: 1,
            region_name: "Assign lookup table",
            offset: 0,
        }
    }

    /// The circuit accepts a pair exactly where the value is in the table
    /// and the number of bits is that of the value; otherwise it fails in
    /// one way.
    pub proof fn lemma_verdict(&self, layouter: &Layouter)
        requires
            self.wf(),
            self.synthesized(layouter),
            self.value is Some,
            self.num_bits is Some,
        ensures
            failures(layouter) == if self.value->0.value() < self.lookup_table_range
                && self.num_bits->0 == bit_length(self.value->0.value()) {
                Seq::<VerifyFailure>::empty()
            } else {
                seq![Self::rejection()]
            },
    {
        let config = self.config();
        let regions = layouter.regions();
        let columns = layouter.table_columns();
        let lookups = layouter.cs().lookup_views();
        let lookup = config.lookup();
        let pair = regions[1];
        let none = Seq::<VerifyFailure>::empty();
        let rows = self.lookup_table_range;
        assert(lookups[0] == lookup);

        // The two columns of the table.
        lemma_find_table_column(columns, config.table.value);
        lemma_find_table_column(columns, config.table.num_bits);
        assert(columns[0].column == config.table.num_bits);
        assert(columns[1].column == config.table.value);
        assert(table_values(columns, lookup.entries[0].table) == bit_lengths(rows as nat));
        assert(table_values(columns, lookup.entries[1].table) == range_values(rows as nat));

        // The pair that the region holds, and the pair of the defaults.
        lemma_find_cell_at(pair.cells, config.num_bits_col, 0, 0);
        lemma_find_cell_at(pair.cells, config.value_col, 0, 1);
        reveal_with_fuel(eval, 2);
        let inputs = lookup_inputs(lookup, pair, 0);
        Felt::lemma_from_u64(self.num_bits->0 as u64);
        assert(inputs[0] == Some(self.num_bits->0 as nat));
        assert(inputs[1] == Some(self.value->0.value()));
        lemma_pair_table_has(columns, lookup.entries, inputs, rows);
        let defaults = lookup_defaults(lookup);
        Felt::lemma_from_u64(0);
        Felt::lemma_from_u64(1);
        assert(defaults[0] == Some(1nat));
        assert(defaults[1] == Some(0nat));
        vstd::arithmetic::power2::lemma_pow2_pos(self.max_bits as nat);
        lemma_pair_table_has(columns, lookup.entries, defaults, rows);

        reveal_with_fuel(all_lookup_failures, 2);
        reveal_with_fuel(lookup_failures, 3);
        reveal_with_fuel(region_lookup_failures, 2);
        assert(pair.enabled[0] == (config.q_lookup, 0usize));
        let found = region_lookup_failures(lookup, 0, columns, pair, 1, 1);
        assert(region_lookup_failures(lookup, 0, columns, regions[0], 0, 0) =~= none);
        assert(lookup_failures(lookup, 0, columns, regions, 2) =~= found);
        assert(all_lookup_failures(lookups, columns, regions, 1) =~= found);

        // No gates and no copy constraints.
        reveal_with_fuel(copy_failures, 3);
        assert(region_copy_failures(regions, layouter.instance(), 0, 0) =~= none);
        assert(region_copy_failures(regions, layouter.instance(), 1, 0) =~= none);
        assert(copy_failures(regions, layouter.instance(), 2) =~= none);
        assert(all_gate_failures(layouter.cs().gate_views(), regions, 0) =~= none);
        assert(failures(layouter) =~= found);
    }

    /// The circuit accepts every value in the table beside the number of
    /// its bits.
    pub proof fn lemma_accepts_in_range(&self, layouter: &Layouter)
        requires
            self.wf(),
            self.synthesized(layouter),
            self.value is Some,
            self.num_bits is Some,
            self.value->0.value() < self.lookup_table_range,
            self.num_bits->0 == bit_length(self.value->0.value()),
        ensures
            failures(layouter) == Seq::<VerifyFailure>::empty(),
    {
        self.lemma_verdict(layouter);
    }

    /// The circuit rejects every value that is not below the range of the
    /// table, whatever number of bits stands beside it, with the one failure
    /// of the lookup.
    pub proof fn lemma_rejects_out_of_range(&self, layouter: &Layouter)
        requires
            self.wf(),
            self.synthesized(layouter),
            self.value is Some,
            self.num_bits is Some,
            self.value->0.value() >= self.lookup_table_range,
        ensures
            failures(layouter) == seq![Self::rejection()],
    {
        self.lemma_verdict(layouter);
    }
}

} // verus!
