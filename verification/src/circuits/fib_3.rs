//! A circuit that lays out the Fibonacci recurrence over the public
//! inputs `a` and `b` with the gadget of one advice column and binds its output
//! to the public input at row 2.

use crate::chips::fib_3::FibonacciChip;
use crate::chips::fib_3::FibonacciConfig;
use crate::circuit::instance_value;
use crate::circuit::lemma_find_cell_at;
use crate::circuit::CopyConstraint;
use crate::circuit::Error;
use crate::circuit::Layouter;
use crate::circuit::RegionView;
use crate::circuit::Table;
use crate::circuit::TableColumnView;
use crate::dev::all_lookup_failures;
use crate::dev::constraint_holds;
use crate::dev::copy_failures;
use crate::dev::eval;
use crate::dev::failures;
use crate::dev::gate_holds_in;
use crate::dev::gates_hold;
use crate::dev::lemma_all_gate_failures_empty;
use crate::dev::region_copy_failures;
use crate::dev::row_holds;
use crate::dev::value_of;
use crate::dev::VerifyFailure;
use crate::field::Felt;
use crate::recurrence::fibonacci;
use crate::recurrence::fibonacci_number;
use crate::recurrence::lemma_fibonacci_known;
use crate::recurrence::lemma_fibonacci_step;
use crate::recurrence::lemma_tenth_fibonacci_number;
use crate::plonk::with_equality;
use crate::plonk::AdviceColumn;
use crate::plonk::Column;
use crate::plonk::ConstraintSystem;
use crate::plonk::FixedColumn;
use crate::plonk::InstanceColumn;
use crate::plonk::LookupView;
use crate::plonk::Selector;
use vstd::prelude::*;

verus! {

/// The number of rows that the circuit lays out.
pub const NUM_ROWS: usize = 10;

/// The circuit. It has no witness of its own: every value follows from
/// the public inputs.
#[derive(Clone, Copy, Debug, PartialEq, Eq)]
pub struct FibonacciCircuit3 {}

impl FibonacciCircuit3 {
    /// The gadget as the circuit configures it in an empty shape.
    pub open spec fn config() -> FibonacciConfig {
        FibonacciConfig {
            advice: AdviceColumn { index: 0 },
            instance: InstanceColumn { index: 0 },
            selector: Selector { index: 0, simple: true },
        }
    }

    /// The shape is the one that the circuit configures from nothing.
    pub open spec fn is_shape(cs: ConstraintSystem) -> bool {
        &&& cs.num_advice_columns == 1
        &&& cs.fixed_columns@ == Seq::<bool>::empty()
        &&& cs.num_instance_columns == 1
        &&& cs.selectors@ == seq![true]
        &&& cs.equality@ == seq![
            Column::Advice(AdviceColumn { index: 0 }),
            Column::Instance(InstanceColumn { index: 0 }),
        ]
        &&& cs.constants@ == Seq::<FixedColumn>::empty()
        &&& cs.gate_views() == seq![Self::config().gate()]
        &&& cs.lookup_views() == Seq::<LookupView>::empty()
    }

    /// The region of the circuit: the region of the gadget, with its output
    /// bound to the public input at row 2.
    pub open spec fn region(
        config: FibonacciConfig,
        region_index: usize,
        instance: Seq<Seq<Felt>>,
    ) -> RegionView {
        config.region(region_index, instance, NUM_ROWS).with_constraint(
            CopyConstraint::Instance {
                cell: config.region(region_index, instance, NUM_ROWS).cells.last().cell,
                column: config.instance,
                row: 2,
            },
        )
    }

    /// The pass holds what the circuit synthesizes from nothing over the
    /// public inputs.
    pub open spec fn synthesized(layouter: &Layouter, instance: Seq<Felt>) -> bool {
        &&& Self::is_shape(layouter.cs())
        &&& layouter.instance() == seq![instance]
        &&& layouter.tables() == Seq::<Table>::empty()
        &&& layouter.table_columns() == Seq::<TableColumnView>::empty()
        &&& layouter.regions() == seq![Self::region(Self::config(), 0, seq![instance])]
    }

    /// The same circuit; it has no witness to forget.
    pub fn without_witnesses(&self) -> (r: Self)
        ensures
            r == *self,
    {
        FibonacciCircuit3 {}
    }

    /// Declares the circuit in a shape: one advice column, an instance
    /// column and the gadget over them.
    pub fn configure(meta: &mut ConstraintSystem) -> (r: FibonacciConfig)
        requires
            old(meta).num_advice_columns < usize::MAX - 1,
            old(meta).num_instance_columns < usize::MAX,
        ensures
            r.advice.index == old(meta).num_advice_columns,
            r.instance.index == old(meta).num_instance_columns,
            r.selector.index == old(meta).selectors@.len(),
            r.selector.simple,
            final(meta).num_advice_columns == old(meta).num_advice_columns + 1,
            final(meta).num_instance_columns == old(meta).num_instance_columns + 1,
            final(meta).fixed_columns == old(meta).fixed_columns,
            final(meta).constants == old(meta).constants,
            final(meta).lookups == old(meta).lookups,
            final(meta).selectors@ == old(meta).selectors@.push(true),
            final(meta).equality@ == with_equality(
                with_equality(old(meta).equality@, Column::Advice(r.advice)),
                Column::Instance(r.instance),
            ),
            final(meta).gate_views() == old(meta).gate_views().push(r.gate()),
    {
        let advice = meta.advice_column();
        let instance = meta.instance_column();

        FibonacciChip::configure(meta, advice, instance)
    }

    /// What keeps the circuit from being laid out, if anything does.
    pub open spec fn synthesize_error(
        config: FibonacciConfig,
        layouter: &Layouter,
    ) -> Option<Error> {
        if config.assign_error(layouter) is Some {
            config.assign_error(layouter)
        } else if instance_value(layouter.instance(), config.instance, 2) is None {
            Some(Error::BoundsFailure)
        } else {
            None
        }
    }

    /// Lays the circuit out: the rows of the recurrence in one region, and
    /// the last value bound to the public input at row 2.
    pub fn synthesize(&self, config: FibonacciConfig, layouter: &mut Layouter) -> (r: Result<
        (),
        Error,
    >)
        ensures
            final(layouter).same_but_regions(old(layouter)),
            final(layouter).regions().len() == old(layouter).regions().len() + 1,
            final(layouter).regions().drop_last() == old(layouter).regions(),
            final(layouter).region_open(),
            match Self::synthesize_error(config, old(layouter)) {
                Some(e) => r == Err::<(), Error>(e),
                None => r is Ok && final(layouter).regions().last() == Self::region(
                    config,
                    old(layouter).regions().len() as usize,
                    old(layouter).instance(),
                ),
            },
    {
        let chip = FibonacciChip::construct(config);

        let num_row = NUM_ROWS;
        let out_cell = chip.assign(layouter, num_row)?;
        let ghost assigned = layouter.regions();

        chip.expose_public(layouter, &out_cell, 2)?;
        proof {
            assert(layouter.regions().drop_last() =~= assigned.drop_last());
        }

        Ok(())
    }

    /// Configures the circuit in an empty shape and lays it out in a fresh
    /// pass over the public inputs `a`, `b` and the claimed output.
    pub fn run(&self, instance: Vec<Felt>) -> (r: Result<Layouter, Error>)
        ensures
            instance@.len() >= 3 ==> (r matches Ok(layouter) && Self::synthesized(
                &layouter,
                instance@,
            )),
            instance@.len() < 3 ==> r == Err::<Layouter, Error>(Error::BoundsFailure),
    {
        let mut meta = ConstraintSystem::new();
        let config = Self::configure(&mut meta);
        proof {
            assert(meta.gate_views() =~= seq![config.gate()]);
            assert(meta.selectors@ =~= seq![true]);
            assert(meta.lookup_views() =~= Seq::<LookupView>::empty());
            assert(meta.equality@ =~= seq![
                Column::Advice(AdviceColumn { index: 0 }),
                Column::Instance(InstanceColumn { index: 0 }),
            ]);
            assert(meta.equality@[0] == Column::Advice(AdviceColumn { index: 0 }));
            assert(meta.equality@[1] == Column::Instance(InstanceColumn { index: 0 }));
        }
        let mut columns: Vec<Vec<Felt>> = Vec::new();
        columns.push(instance);
        let mut layouter = Layouter::new(meta, columns);
        proof {
            assert(layouter.instance() =~= seq![instance@]);
        }
        let done = self.synthesize(config, &mut layouter);
        proof {
            if instance@.len() >= 3 {
                assert(done is Ok);
                assert(layouter.regions() =~= seq![layouter.regions().last()]);
            }
        }
        match done {
            Ok(()) => Ok(layouter),
            Err(e) => Err(e),
        }
    }
}

impl FibonacciCircuit3 {
    /// The failure that a wrong claim meets: the last cell is bound to the
    /// public input at row 2 and does not hold it.
    pub open spec fn rejection() -> VerifyFailure {
        VerifyFailure::Permutation {
            region_index: 0,
            region_name: "entire fibonacci table",
            constraint_index: 2,
        }
    }

    /// Each row of the region holds its term of the recurrence.
    pub proof fn lemma_rows(instance: Seq<Felt>, row: nat)
        requires
            instance.len() >= 3,
            row < NUM_ROWS,
        ensures
            ({
                let region = Self::region(Self::config(), 0, seq![instance]);
                let cell = crate::circuit::cell_value(
                    region.cells,
                    Self::config().advice,
                    row as int,
                );
                &&& cell is Some
                &&& cell->0.value() == fibonacci_number(
                    instance[0].value(),
                    instance[1].value(),
                    row,
                )
            }),
    {
        let region = Self::region(Self::config(), 0, seq![instance]);
        lemma_find_cell_at(region.cells, Self::config().advice, row as int, row as int);
        lemma_fibonacci_known(instance[0], instance[1], row);
    }

    /// The circuit accepts the public inputs `a`, `b` and a claim exactly
    /// where the claim is term 9 of the recurrence from `a` and `b`;
    /// otherwise it fails in one way.
    pub proof fn lemma_verdict(layouter: &Layouter, instance: Seq<Felt>)
        requires
            instance.len() >= 3,
            Self::synthesized(layouter, instance),
        ensures
            failures(layouter) == if fibonacci_number(
                instance[0].value(),
                instance[1].value(),
                9,
            ) == instance[2].value() {
                Seq::<VerifyFailure>::empty()
            } else {
                seq![Self::rejection()]
            },
    {
        let config = Self::config();
        let regions = layouter.regions();
        let gates = layouter.cs().gate_views();
        let inputs = layouter.instance();
        let region = Self::region(config, 0, seq![instance]);
        let gate = config.gate();
        let a = instance[0].value();
        let b = instance[1].value();
        let none = Seq::<VerifyFailure>::empty();
        assert(regions[0] == region);
        assert(gates[0] == gate);

        // On every row where the selector is enabled, the three cells obey
        // the recurrence.
        assert forall|i: int|
            0 <= i < region.enabled.len() && (#[trigger] region.enabled[i]).0
                == gate.selector implies row_holds(gate, region, region.enabled[i].1) by {
            Self::lemma_rows(instance, i as nat);
            Self::lemma_rows(instance, (i + 1) as nat);
            Self::lemma_rows(instance, (i + 2) as nat);
            lemma_fibonacci_step(a, b, i as nat);
            assert(gate.constraints[0].poly == crate::chips::fib_3::fibonacci_expression(
                config.advice,
            ));
            assert(eval(gate.constraints[0].poly, region, i as usize) == Some(0nat)) by {
                reveal_with_fuel(eval, 5);
            }
        }
        assert(gates_hold(gates, regions));
        lemma_all_gate_failures_empty(gates, regions, gates.len());

        // The first two cells hold the public inputs; the last cell holds
        // term 9.
        Self::lemma_rows(instance, 0);
        Self::lemma_rows(instance, 1);
        Self::lemma_rows(instance, 9);
        assert(region.constraints.len() == 3);
        assert(constraint_holds(region.constraints[0], regions, inputs));
        assert(constraint_holds(region.constraints[1], regions, inputs));
        assert(constraint_holds(region.constraints[2], regions, inputs) <==> fibonacci_number(
            a,
            b,
            9,
        ) == instance[2].value());
        reveal_with_fuel(copy_failures, 2);
        reveal_with_fuel(region_copy_failures, 4);
        let found = region_copy_failures(regions, inputs, 0, 3);
        assert(found =~= if fibonacci_number(a, b, 9) == instance[2].value() {
            none
        } else {
            seq![Self::rejection()]
        });
        assert(copy_failures(regions, inputs, 1) =~= found);
        assert(all_lookup_failures(
            layouter.cs().lookup_views(),
            layouter.table_columns(),
            regions,
            0,
        ) =~= none);
        assert(failures(layouter) =~= found);
    }

    /// From the public inputs 1 and 1 the circuit accepts the claim 55, and
    /// no other reduced claim.
    pub proof fn lemma_tenth_number(layouter: &Layouter, instance: Seq<Felt>)
        requires
            instance.len() >= 3,
            instance[0].value() == 1,
            instance[1].value() == 1,
            Self::synthesized(layouter, instance),
        ensures
            failures(layouter).len() == 0 <==> instance[2].value() == 55,
    {
        Self::lemma_verdict(layouter, instance);
        lemma_tenth_fibonacci_number();
    }
}

} // verus!
