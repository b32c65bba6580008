//! A circuit that witnesses one value and constrains it to a number of
//! bits with the running-sum gadget.

use crate::chips::range_check_2_table::lemma_range_table_has;
use crate::chips::range_check_2_table::range_values;
use crate::chips::range_check_4::FIELD_BITS;
use crate::chips::range_check_4::RangeCheckDecomposeConfig;
use crate::circuit::lemma_find_cell_at;
use crate::circuit::lemma_find_table_column;
use crate::circuit::table_values;
use crate::circuit::AssignedCell;
use crate::circuit::Cell;
use crate::circuit::Error;
use crate::circuit::Layouter;
use crate::circuit::RegionView;
use crate::circuit::Table;
use crate::circuit::Value;
use crate::decomposition::lemma_num_chunks;
use crate::decomposition::lemma_running_sum_final;
use crate::decomposition::num_chunks;
use crate::dev::constraint_holds;
use crate::dev::copy_failures;
use crate::dev::failures;
use crate::dev::gate_holds_in;
use crate::dev::gates_hold;
use crate::dev::lemma_all_gate_failures_empty;
use crate::dev::lemma_all_lookup_failures_empty;
use crate::dev::lookup_defaults;
use crate::dev::lookup_holds_in;
use crate::dev::lookup_inputs;
use crate::dev::lookups_hold;
use crate::dev::region_copy_failures;
use crate::dev::row_holds;
use crate::dev::table_has;
use crate::dev::value_of;
use crate::dev::VerifyFailure;
use crate::field::Felt;
use crate::modular::lemma_inv_pow2;
use crate::plonk::with_equality;
use crate::plonk::AdviceColumn;
use crate::plonk::Column;
use crate::plonk::ConstraintSystem;
use crate::plonk::FixedColumn;
use vstd::arithmetic::power2::pow2;
use vstd::prelude::*;

verus! {

/// The circuit: a value, the number of bits it is constrained to, and the
/// width and size of the lookup table.
#[derive(Clone, Copy, Debug, PartialEq, Eq)]
pub struct RangeCheckDecomposeCircuit {
    pub value: Value,
    pub num_bits: usize,
    pub lookup_num_bits: usize,
    pub lookup_range: usize,
}

impl RangeCheckDecomposeCircuit {
    /// The size of the table agrees with its width, and the value is
    /// constrained to no more bits than an element has.
    pub open spec fn wf(&self) -> bool {
        &&& 0 < self.lookup_num_bits < 64
        &&& self.lookup_range == pow2(self.lookup_num_bits as nat)
        &&& self.num_bits <= FIELD_BITS
    }

    /// The gadget as the circuit configures it in an empty shape.
    pub open spec fn config(&self) -> RangeCheckDecomposeConfig {
        RangeCheckDecomposeConfig::configured(
            AdviceColumn { index: 0 },
            self.lookup_num_bits,
            self.lookup_range,
            0,
            1,
        )
    }

    /// The cell in which the value is witnessed.
    pub open spec fn witness(&self) -> AssignedCell {
        AssignedCell {
            cell: Cell { region_index: 1, column: AdviceColumn { index: 0 }, row_offset: 0 },
            value: self.value,
        }
    }

    /// The shape is the one that the circuit configures from nothing.
    pub open spec fn is_shape(&self, cs: ConstraintSystem) -> bool {
        &&& cs.num_advice_columns == 1
        &&& cs.fixed_columns@ == seq![false, true]
        &&& cs.num_instance_columns == 0
        &&& cs.selectors@ == seq![false, false]
        &&& cs.equality@ == seq![Column::Advice(AdviceColumn { index: 0 })]
        &&& cs.constants@ == seq![FixedColumn { index: 0 }]
        &&& cs.gate_views() == seq![self.config().partial_gate()]
        &&& cs.lookup_views() == seq![self.config().chunk_lookup(), self.config().shifted_lookup()]
    }

    /// The pass holds what the circuit synthesizes from nothing: the loaded
    /// table with its empty region, the region of the witness and the
    /// region of the gadget.
    pub open spec fn synthesized(&self, layouter: &Layouter) -> bool {
        &&& self.is_shape(layouter.cs())
        &&& layouter.instance() == Seq::<Seq<Felt>>::empty()
        &&& layouter.tables() == seq![Table { name: "load range-check table", region_index: 0 }]
        &&& layouter.table_columns() == seq![self.config().table.loaded(0)]
        &&& layouter.regions() == seq![
            RegionView::empty("load range-check table"),
            RegionView::empty("Witness value").with_cell(self.witness()),
            self.config().region(2, self.witness(), self.num_bits),
        ]
    }

    /// The same circuit with its value unknown.
    pub fn without_witnesses(&self) -> (r: Self)
        ensures
            r == (RangeCheckDecomposeCircuit { value: None, ..*self }),
    {
        RangeCheckDecomposeCircuit {
            value: None,
            num_bits: self.num_bits,
            lookup_num_bits: self.lookup_num_bits,
            lookup_range: self.lookup_range,
        }
    }

    /// Declares the circuit in a shape: a fixed column for constants, an
    /// advice column for the running sum, and the gadget over it.
    pub fn configure(
        meta: &mut ConstraintSystem,
        lookup_num_bits: usize,
        lookup_range: usize,
    ) -> (r: RangeCheckDecomposeConfig)
        requires
            old(meta).num_advice_columns < usize::MAX,
            0 < lookup_num_bits < 64,
            lookup_range == pow2(lookup_num_bits as nat),
        ensures
            r == RangeCheckDecomposeConfig::configured(
                AdviceColumn { index: old(meta).num_advice_columns },
                lookup_num_bits,
                lookup_range,
                old(meta).selectors@.len(),
                old(meta).fixed_columns@.len() + 1,
            ),
            final(meta).num_advice_columns == old(meta).num_advice_columns + 1,
            final(meta).num_instance_columns == old(meta).num_instance_columns,
            final(meta).fixed_columns@ == old(meta).fixed_columns@.push(false).push(true),
            final(meta).constants@ == old(meta).constants@.push(
                FixedColumn { index: old(meta).fixed_columns@.len() as usize },
            ),
            final(meta).selectors@ == old(meta).selectors@.push(false).push(false),
            final(meta).equality@ == with_equality(
                old(meta).equality@,
                Column::Advice(r.running_sum),
            ),
            final(meta).gate_views() == old(meta).gate_views().push(r.partial_gate()),
            final(meta).lookup_views() == old(meta).lookup_views().push(r.chunk_lookup()).push(
                r.shifted_lookup(),
            ),
    {
        // A fixed column for the constants that cells are bound to.
        let constants = meta.fixed_column();
        meta.enable_constant(constants);

        let value = meta.advice_column();
        RangeCheckDecomposeConfig::configure(meta, value, lookup_num_bits, lookup_range)
    }

    /// Lays the circuit out: loads the table, witnesses the value in a
    /// region of its own and lets the gadget decompose it.
    pub fn synthesize(
        &self,
        config: RangeCheckDecomposeConfig,
        layouter: &mut Layouter,
    ) -> (r: Result<(), Error>)
        requires
            config.wf(),
            self.num_bits <= FIELD_BITS,
        ensures
            final(layouter).cs() == old(layouter).cs(),
            final(layouter).instance() == old(layouter).instance(),
            match config.table.load_error(old(layouter)) {
                Some(e) => r == Err::<(), Error>(e),
                None => {
                    let witness = AssignedCell {
                        cell: Cell {
                            region_index: (old(layouter).regions().len() + 1) as usize,
                            column: config.running_sum,
                            row_offset: 0,
                        },
                        value: self.value,
                    };
                    &&& final(layouter).tables() == old(layouter).tables().push(
                Table {
                    name: "load range-check table",
                    region_index: old(layouter).regions().len() as usize,
                },
            )
                    &&& final(layouter).table_columns() == old(layouter).table_columns().push(
                        config.table.loaded(old(layouter).tables().len() as usize),
                    )
                    &&& if !old(layouter).cs().has_advice(config.running_sum) {
                        r == Err::<(), Error>(Error::ColumnNotDeclared)
                    } else {
                        match config.assign_error(old(layouter), witness, self.num_bits) {
                            Some(e) => r == Err::<(), Error>(e),
                            None => r is Ok && final(layouter).regions() == old(
                                layouter,
                            ).regions().push(RegionView::empty("load range-check table")).push(
                                RegionView::empty("Witness value").with_cell(witness),
                            ).push(
                                config.region(
                                    (old(layouter).regions().len() + 2) as usize,
                                    witness,
                                    self.num_bits,
                                ),
                            ),
                        }
                    }
                },
            },
    {
        proof {
            vstd::arithmetic::power2::lemma_pow2_pos(config.table.lookup_num_bits as nat);
        }
        config.table.load(layouter)?;

        // Witness the value somewhere.
        let ghost loaded = layouter.regions();
        layouter.assign_region("Witness value");
        let ghost opened = layouter.regions();
        let value = layouter.assign_advice(config.running_sum, 0, self.value)?;
        proof {
            assert(opened.drop_last() =~= loaded);
            assert(layouter.regions() =~= layouter.regions().drop_last().push(
                layouter.regions().last(),
            ));
        }
        let ghost witnessed = layouter.regions();

        config.assign(layouter, value, self.num_bits)?;
        proof {
            assert(layouter.regions() =~= witnessed.push(layouter.regions().last()));
        }
        Ok(())
    }

    /// Configures the circuit in an empty shape and lays it out in a fresh
    /// pass.
    pub fn run(&self) -> (r: Result<Layouter, Error>)
        requires
            self.wf(),
        ensures
            r matches Ok(layouter) && self.synthesized(&layouter),
    {
        let mut meta = ConstraintSystem::new();
        let config = Self::configure(&mut meta, self.lookup_num_bits, self.lookup_range);
        proof {
            assert(meta.gate_views() =~= seq![config.partial_gate()]);
            assert(meta.lookup_views() =~= seq![config.chunk_lookup(), config.shifted_lookup()]);
            assert(meta.equality@ =~= seq![Column::Advice(AdviceColumn { index: 0 })]);
            assert(meta.equality@[0] == Column::Advice(AdviceColumn { index: 0 }));
            assert(meta.fixed_columns@ =~= seq![false, true]);
            assert(meta.selectors@ =~= seq![false, false]);
            assert(meta.constants@ =~= seq![FixedColumn { index: 0 }]);
            vstd::arithmetic::power2::lemma_pow2_pos(self.lookup_num_bits as nat);
        }
        let mut layouter = Layouter::new(meta, Vec::new());
        proof {
            assert(layouter.instance() =~= Seq::<Seq<Felt>>::empty());
            crate::circuit::lemma_find_table_column(layouter.table_columns(), config.table.value);
        }
        let done = self.synthesize(config, &mut layouter);
        proof {
            assert(done is Ok);
            assert(layouter.tables() =~= seq![Table { name: "load range-check table", region_index: 0 }]);
            assert(layouter.table_columns() =~= seq![self.config().table.loaded(0)]);
            assert(layouter.regions() =~= seq![
                RegionView::empty("load range-check table"),
                RegionView::empty("Witness value").with_cell(self.witness()),
                self.config().region(2, self.witness(), self.num_bits),
            ]);
        }
        match done {
            Ok(()) => Ok(layouter),
            Err(e) => Err(e),
        }
    }
}

impl RangeCheckDecomposeCircuit {
    /// The failure that a value of too many bits meets: the last term of
    /// the running sum is bound to zero and is not zero.
    pub open spec fn rejection() -> VerifyFailure {
        VerifyFailure::Permutation {
            region_index: 2,
            region_name: "Decompose value",
            constraint_index: 1,
        }
    }

    /// Whatever the value, the gadget's gate holds on every row where
    /// its selector is enabled.
    pub proof fn lemma_gates_hold(&self, layouter: &Layouter)
        requires
            self.wf(),
            self.synthesized(layouter),
            self.value is Some,
            self.value->0.wf(),
        ensures
            gates_hold(layouter.cs().gate_views(), layouter.regions()),
    {
        let config = self.config();
        let gates = layouter.cs().gate_views();
        let regions = layouter.regions();
        let gate = config.partial_gate();
        let decomposed = config.region(2, self.witness(), self.num_bits);
        let n = self.num_bits as nat;
        let k = config.k();
        assert(gates[0] == gate);
        assert(regions[2] == decomposed);
        assert forall|i: int|
            0 <= i < decomposed.enabled.len() && (#[trigger] decomposed.enabled[i]).0
                == gate.selector implies row_holds(gate, decomposed, decomposed.enabled[i].1) by {
            // Only the last entry names this gate's selector.
            assert(n % k > 0 && i == n / k);
            lemma_num_chunks(n, k);
            config.lemma_partial_check(2, self.witness(), self.num_bits);
            assert(gate.constraints[0].poly
                == crate::chips::range_check_4::partial_check_expression(
                config.running_sum,
                config.table.lookup_num_bits,
            ));
        }
        assert forall|g: int, r: int|
            0 <= g < gates.len() && 0 <= r < regions.len() implies gate_holds_in(
            #[trigger] gates[g],
            #[trigger] regions[r],
        ) by {
            if r == 2 {
            } else {
                assert(regions[r].enabled.len() == 0);
            }
        }
    }

    /// Whatever the value, every chunk that is looked up is in the table,
    /// and so is the last chunk shifted up.
    pub proof fn lemma_lookups_hold(&self, layouter: &Layouter)
        requires
            self.wf(),
            self.synthesized(layouter),
            self.value is Some,
            self.value->0.wf(),
        ensures
            lookups_hold(
                layouter.cs().lookup_views(),
                layouter.table_columns(),
                layouter.regions(),
            ),
    {
        let config = self.config();
        let lookups = layouter.cs().lookup_views();
        let columns = layouter.table_columns();
        let regions = layouter.regions();
        let chunks = config.chunk_lookup();
        let shifted = config.shifted_lookup();
        let decomposed = config.region(2, self.witness(), self.num_bits);
        let n = self.num_bits as nat;
        let k = config.k();
        let count = num_chunks(n, k);
        assert(lookups[0] == chunks);
        assert(lookups[1] == shifted);
        assert(regions[2] == decomposed);
        lemma_num_chunks(n, k);
        lemma_find_table_column(columns, config.table.value);
        assert(table_values(columns, config.table.value) == range_values(
            self.lookup_range as nat,
        ));
        vstd::arithmetic::power2::lemma_pow2_pos(k);

        // The defaults.
        Felt::lemma_from_u64(0);
        assert(lookup_defaults(chunks)[0] == Some(0nat));
        assert(lookup_defaults(shifted)[0] == Some(0nat));
        lemma_range_table_has(columns, chunks.entries, lookup_defaults(chunks), self.lookup_range);
        lemma_range_table_has(
            columns,
            shifted.entries,
            lookup_defaults(shifted),
            self.lookup_range,
        );

        // The chunks.
        assert forall|i: int|
            0 <= i < decomposed.enabled.len() && (#[trigger] decomposed.enabled[i]).0
                == chunks.selector implies table_has(
            columns,
            chunks.entries,
            lookup_inputs(chunks, decomposed, decomposed.enabled[i].1),
        ) by {
            assert(i < n / k);
            assert(i < count);
            config.lemma_chunk_input(2, self.witness(), self.num_bits, i as usize);
            let inputs = lookup_inputs(chunks, decomposed, i as usize);
            assert(inputs[0] == Some(
                crate::decomposition::chunk(self.value->0.value(), n, k, i as nat),
            ));
            lemma_range_table_has(columns, chunks.entries, inputs, self.lookup_range);
        }

        // The last chunk, shifted up.
        assert forall|i: int|
            0 <= i < decomposed.enabled.len() && (#[trigger] decomposed.enabled[i]).0
                == shifted.selector implies table_has(
            columns,
            shifted.entries,
            lookup_inputs(shifted, decomposed, decomposed.enabled[i].1),
        ) by {
            assert(n % k > 0 && i == n / k);
            config.lemma_partial_check(2, self.witness(), self.num_bits);
            let inputs = lookup_inputs(shifted, decomposed, count as usize);
            assert(inputs[0] == Some(
                config.row_number(self.value->0.value(), self.num_bits, count + 1),
            ));
            lemma_range_table_has(columns, shifted.entries, inputs, self.lookup_range);
        }

        assert forall|l: int, r: int|
            0 <= l < lookups.len() && 0 <= r < regions.len() implies lookup_holds_in(
            #[trigger] lookups[l],
            columns,
            #[trigger] regions[r],
        ) by {
            if r == 2 {
                if l == 0 {
                } else {
                    assert(l == 1);
                }
            } else {
                assert(regions[r].enabled.len() == 0);
            }
        }
        assert forall|l: int| 0 <= l < lookups.len() implies table_has(
            columns,
            (#[trigger] lookups[l]).entries,
            lookup_defaults(lookups[l]),
        ) by {
            if l == 0 {
            } else {
                assert(l == 1);
            }
        }
    }

    /// The copy constraints of the gadget: the first term is the witnessed
    /// value, the inverse of the shift is what it has to be, and the last
    /// term is zero exactly where the value has no more than `num_bits` bits.
    pub proof fn lemma_copies(&self, layouter: &Layouter)
        requires
            self.wf(),
            self.synthesized(layouter),
            self.value is Some,
            self.value->0.wf(),
        ensures
            ({
                let constraints = layouter.regions()[2].constraints;
                let regions = layouter.regions();
                let instance = layouter.instance();
                &&& constraints.len() == if self.num_bits as nat % self.config().k() > 0 {
                    3nat
                } else {
                    2nat
                }
                &&& constraint_holds(constraints[0], regions, instance)
                &&& constraint_holds(constraints[1], regions, instance) <==> self.value->0.value()
                    < pow2(self.num_bits as nat)
                &&& constraints.len() == 3 ==> constraint_holds(constraints[2], regions, instance)
            }),
    {
        let config = self.config();
        let regions = layouter.regions();
        let decomposed = config.region(2, self.witness(), self.num_bits);
        let v = self.value->0;
        let n = self.num_bits as nat;
        let k = config.k();
        let count = num_chunks(n, k);
        assert(regions[2] == decomposed);
        lemma_num_chunks(n, k);
        lemma_find_cell_at(regions[1].cells, config.running_sum, 0, 0);
        config.lemma_rows(2, v, self.num_bits, 0);
        config.lemma_rows(2, v, self.num_bits, count);
        lemma_running_sum_final(v.value(), n, k);
        Felt::lemma_from_u64(0);
        assert(value_of(regions, self.witness().cell) == Some(v.value()));
        assert(value_of(
            regions,
            crate::circuit::Cell { region_index: 2, column: config.running_sum, row_offset: 0 },
        ) == Some(v.value()));
        if n % k > 0 {
            config.lemma_rows(2, v, self.num_bits, count + 2);
            lemma_inv_pow2(n % k);
            crate::modular::lemma_modulus_bounds();
            vstd::arithmetic::power2::lemma2_to64();
            vstd::arithmetic::power2::lemma_pow2_adds(64, 64);
            vstd::arithmetic::power2::lemma_pow2_adds(128, 64);
            vstd::arithmetic::power2::lemma_pow2_adds(192, 64);
            vstd::arithmetic::power2::lemma_pow2_strictly_increases(255, 256);
            Felt::lemma_value_of_from_value(crate::modular::inv_pow2(n % k));
        }
    }

    /// The circuit accepts every value of no more than `num_bits` bits, and
    /// rejects every other value with one failure: the last term of the
    /// running sum is not zero.
    pub proof fn lemma_verdict(&self, layouter: &Layouter)
        requires
            self.wf(),
            self.synthesized(layouter),
            self.value is Some,
            self.value->0.wf(),
        ensures
            failures(layouter) == if self.value->0.value() < pow2(self.num_bits as nat) {
                Seq::<VerifyFailure>::empty()
            } else {
                seq![Self::rejection()]
            },
    {
        let regions = layouter.regions();
        let instance = layouter.instance();
        let none = Seq::<VerifyFailure>::empty();
        self.lemma_gates_hold(layouter);
        self.lemma_lookups_hold(layouter);
        self.lemma_copies(layouter);
        lemma_all_gate_failures_empty(
            layouter.cs().gate_views(),
            regions,
            layouter.cs().gate_views().len(),
        );
        lemma_all_lookup_failures_empty(
            layouter.cs().lookup_views(),
            layouter.table_columns(),
            regions,
            layouter.cs().lookup_views().len(),
        );
        reveal_with_fuel(copy_failures, 4);
        reveal_with_fuel(region_copy_failures, 4);
        assert(region_copy_failures(regions, instance, 0, 0) =~= none);
        assert(region_copy_failures(regions, instance, 1, 0) =~= none);
        let found = region_copy_failures(regions, instance, 2, regions[2].constraints.len());
        assert(found =~= if self.value->0.value() < pow2(self.num_bits as nat) {
            none
        } else {
            seq![Self::rejection()]
        });
        assert(copy_failures(regions, instance, 3) =~= found);
        assert(failures(layouter) =~= found);
    }
}

} // verus!
