//! A circuit that lays out the Fibonacci recurrence over the public
//! inputs `a` and `b` with the gadget of three advice columns, one region
//! per step, and binds its output to the public input at row 2.

use crate::chips::fib_1::FibonacciChip;
use crate::chips::fib_1::FibonacciConfig;
use crate::circuit::instance_value;
use crate::circuit::lemma_find_cell_at;
use crate::circuit::AssignedCell;
use crate::circuit::CopyConstraint;
use crate::circuit::Error;
use crate::circuit::Layouter;
use crate::circuit::RegionView;
use crate::circuit::Table;
use crate::circuit::TableColumnView;
use crate::circuit::Cell;
use crate::dev::all_lookup_failures;
use crate::dev::constraint_holds;
use crate::dev::copy_failures;
use crate::dev::eval;
use crate::dev::failures;
use crate::dev::gate_holds_in;
use crate::dev::gates_hold;
use crate::dev::lemma_all_gate_failures_empty;
use crate::dev::lemma_copy_failures_empty;
use crate::dev::region_copy_failures;
use crate::dev::row_holds;
use crate::dev::value_of;
use crate::dev::VerifyFailure;
use crate::field::Felt;
use crate::recurrence::fibonacci;
use crate::recurrence::fibonacci_number;
use crate::recurrence::lemma_fibonacci_known;
use crate::recurrence::lemma_fibonacci_step;
use crate::recurrence::lemma_tenth_fibonacci_number;
use crate::plonk::with_equality;
use crate::plonk::AdviceColumn;
use crate::plonk::Column;
use crate::plonk::ConstraintSystem;
use crate::plonk::FixedColumn;
use crate::plonk::InstanceColumn;
use crate::plonk::LookupView;
use crate::plonk::Selector;
use vstd::prelude::*;

verus! {

/// The number of steps that the circuit lays out: the first row and seven
/// more.
pub const NUM_STEPS: usize = 8;

/// The circuit. It has no witness of its own: every value follows from
/// the public inputs.
#[derive(Clone, Copy, Debug, PartialEq, Eq)]
pub struct FibonacciCircuit1 {}

impl FibonacciCircuit1 {
    /// The gadget as the circuit configures it in an empty shape.
    pub open spec fn config() -> FibonacciConfig {
        FibonacciConfig {
            advice: [AdviceColumn { index: 0 }, AdviceColumn { index: 1 }, AdviceColumn { index: 2 }],
            instance: InstanceColumn { index: 0 },
            selector: Selector { index: 0, simple: true },
        }
    }

    /// The shape is the one that the circuit configures from nothing.
    pub open spec fn is_shape(cs: ConstraintSystem) -> bool {
        &&& cs.num_advice_columns == 3
        &&& cs.fixed_columns@ == Seq::<bool>::empty()
        &&& cs.num_instance_columns == 1
        &&& cs.selectors@ == seq![true]
        &&& cs.equality@ == seq![
            Column::Advice(AdviceColumn { index: 0 }),
            Column::Advice(AdviceColumn { index: 1 }),
            Column::Advice(AdviceColumn { index: 2 }),
            Column::Instance(InstanceColumn { index: 0 }),
        ]
        &&& cs.constants@ == Seq::<FixedColumn>::empty()
        &&& cs.gate_views() == seq![Self::config().gate()]
        &&& cs.lookup_views() == Seq::<LookupView>::empty()
    }

    /// The cells `b` and `c` of step `i`, which the next step copies.
    pub open spec fn carried(
        config: FibonacciConfig,
        base: usize,
        instance: Seq<Seq<Felt>>,
        i: nat,
    ) -> (AssignedCell, AssignedCell)
        decreases i,
    {
        if i == 0 {
            let first = config.first_row(base, instance);
            (first.cells[1], first.cells[2])
        } else {
            let before = Self::carried(config, base, instance, (i - 1) as nat);
            (before.1, config.next_row((base + i) as usize, before.0, before.1).cells[2])
        }
    }

    /// The region of step `i`.
    pub open spec fn step(
        config: FibonacciConfig,
        base: usize,
        instance: Seq<Seq<Felt>>,
        i: nat,
    ) -> RegionView {
        if i == 0 {
            config.first_row(base, instance)
        } else {
            let before = Self::carried(config, base, instance, (i - 1) as nat);
            config.next_row((base + i) as usize, before.0, before.1)
        }
    }

    /// The regions of the circuit: one per step, the last with its `c`
    /// bound to the public input at row 2.
    pub open spec fn regions(config: FibonacciConfig, base: usize, instance: Seq<Seq<Felt>>) -> Seq<
        RegionView,
    > {
        Seq::new(
            NUM_STEPS as nat,
            |i: int|
                if i < NUM_STEPS - 1 {
                    Self::step(config, base, instance, i as nat)
                } else {
                    Self::step(config, base, instance, i as nat).with_constraint(
                        CopyConstraint::Instance {
                            cell: Self::carried(config, base, instance, i as nat).1.cell,
                            column: config.instance,
                            row: 2,
                        },
                    )
                },
        )
    }

    /// The pass holds what the circuit synthesizes from nothing over the
    /// public inputs.
    pub open spec fn synthesized(layouter: &Layouter, instance: Seq<Felt>) -> bool {
        &&& Self::is_shape(layouter.cs())
        &&& layouter.instance() == seq![instance]
        &&& layouter.tables() == Seq::<Table>::empty()
        &&& layouter.table_columns() == Seq::<TableColumnView>::empty()
        &&& layouter.regions() == Self::regions(Self::config(), 0, seq![instance])
    }

    /// The same circuit; it has no witness to forget.
    pub fn without_witnesses(&self) -> (r: Self)
        ensures
            r == *self,
    {
        FibonacciCircuit1 {}
    }

    /// Declares the circuit in a shape: three advice columns, an instance
    /// column and the gadget over them. The columns are declared here, not
    /// by the gadget, so that other gadgets can share them.
    pub fn configure(meta: &mut ConstraintSystem) -> (r: FibonacciConfig)
        requires
            old(meta).num_advice_columns < usize::MAX - 3,
            old(meta).num_instance_columns < usize::MAX,
        ensures
            r.advice[0].index == old(meta).num_advice_columns,
            r.advice[1].index == old(meta).num_advice_columns + 1,
            r.advice[2].index == old(meta).num_advice_columns + 2,
            r.instance.index == old(meta).num_instance_columns,
            r.selector.index == old(meta).selectors@.len(),
            r.selector.simple,
            final(meta).num_advice_columns == old(meta).num_advice_columns + 3,
            final(meta).num_instance_columns == old(meta).num_instance_columns + 1,
            final(meta).fixed_columns == old(meta).fixed_columns,
            final(meta).constants == old(meta).constants,
            final(meta).lookups == old(meta).lookups,
            final(meta).selectors@ == old(meta).selectors@.push(true),
            final(meta).equality@ == with_equality(
                with_equality(
                    with_equality(
                        with_equality(old(meta).equality@, Column::Advice(r.advice[0])),
                        Column::Advice(r.advice[1]),
                    ),
                    Column::Advice(r.advice[2]),
                ),
                Column::Instance(r.instance),
            ),
            final(meta).gate_views() == old(meta).gate_views().push(r.gate()),
    {
        let col_a = meta.advice_column();
        let col_b = meta.advice_column();
        let col_c = meta.advice_column();
        let instance = meta.instance_column();

        FibonacciChip::configure(meta, [col_a, col_b, col_c], instance)
    }

    /// What keeps the circuit from being laid out, if anything does.
    pub open spec fn synthesize_error(
        config: FibonacciConfig,
        layouter: &Layouter,
    ) -> Option<Error> {
        if config.first_row_error(layouter) is Some {
            config.first_row_error(layouter)
        } else if !layouter.cs().equality_enabled(Column::Advice(config.advice[2])) {
            Some(Error::ColumnNotInPermutation)
        } else if instance_value(layouter.instance(), config.instance, 2) is None {
            Some(Error::BoundsFailure)
        } else {
            None
        }
    }

    /// Lays the circuit out: the first step, seven further steps, each in a
    /// region of its own, and the last `c` bound to the public input at
    /// row 2.
    pub fn synthesize(&self, config: FibonacciConfig, layouter: &mut Layouter) -> (r: Result<
        (),
        Error,
    >)
        requires
            old(layouter).regions().len() + NUM_STEPS <= usize::MAX,
        ensures
            final(layouter).same_but_regions(old(layouter)),
            match Self::synthesize_error(config, old(layouter)) {
                Some(e) => r == Err::<(), Error>(e),
                None => r is Ok && final(layouter).regions() == old(layouter).regions()
                    + Self::regions(
                    config,
                    old(layouter).regions().len() as usize,
                    old(layouter).instance(),
                ),
            },
    {
        let chip = FibonacciChip::construct(config);
        let ghost base = layouter.regions().len() as usize;
        let ghost instance = layouter.instance();
        let ghost before = layouter.regions();

        let (_, mut prev_b, mut prev_c) = chip.assign_first_row(layouter)?;
        proof {
            assert(layouter.regions() =~= before + seq![Self::step(config, base, instance, 0)]);
        }

        let mut i: usize = 3;
        while i < 10
            invariant
                3 <= i <= 10,
                chip.config == config,
                base == old(layouter).regions().len(),
                base + NUM_STEPS <= usize::MAX,
                instance == old(layouter).instance(),
                before == old(layouter).regions(),
                config.first_row_error(old(layouter)) is None,
                i > 3 ==> Self::synthesize_error(config, old(layouter)) != Some(
                    Error::ColumnNotInPermutation,
                ),
                layouter.same_but_regions(old(layouter)),
                layouter.region_open(),
                layouter.regions() == before + Seq::new(
                    (i - 2) as nat,
                    |j: int| Self::step(config, base, instance, j as nat),
                ),
                (prev_b, prev_c) == Self::carried(config, base, instance, (i - 3) as nat),
                prev_b.cell.column == config.advice[1] || prev_b.cell.column == config.advice[2],
                prev_c.cell.column == config.advice[2],
            decreases 10 - i,
        {
            let ghost laid = layouter.regions();
            let c_cell = chip.assign_row(layouter, &prev_b, &prev_c)?;
            proof {
                assert(layouter.regions() =~= laid.push(layouter.regions().last()));
                assert(layouter.regions() =~= before + Seq::new(
                    (i - 1) as nat,
                    |j: int| Self::step(config, base, instance, j as nat),
                ));
            }
            prev_b = prev_c;
            prev_c = c_cell;
            i = i + 1;
        }

        let ghost laid = layouter.regions();
        chip.expose_public(layouter, &prev_c, 2)?;
        proof {
            assert(layouter.regions() =~= laid.drop_last().push(layouter.regions().last()));
            assert(layouter.regions() =~= before + Self::regions(config, base, instance));
        }

        Ok(())
    }

    /// Configures the circuit in an empty shape and lays it out in a fresh
    /// pass over the public inputs `a`, `b` and the claimed output.
    pub fn run(&self, instance: Vec<Felt>) -> (r: Result<Layouter, Error>)
        ensures
            instance@.len() >= 3 ==> (r matches Ok(layouter) && Self::synthesized(
                &layouter,
                instance@,
            )),
            instance@.len() < 3 ==> r == Err::<Layouter, Error>(Error::BoundsFailure),
    {
        let mut meta = ConstraintSystem::new();
        let config = Self::configure(&mut meta);
        proof {
            assert(meta.gate_views() =~= seq![config.gate()]);
            assert(meta.selectors@ =~= seq![true]);
            assert(meta.lookup_views() =~= Seq::<LookupView>::empty());
            assert(meta.equality@ =~= seq![
                Column::Advice(AdviceColumn { index: 0 }),
                Column::Advice(AdviceColumn { index: 1 }),
                Column::Advice(AdviceColumn { index: 2 }),
                Column::Instance(InstanceColumn { index: 0 }),
            ]);
            assert(config.advice =~= Self::config().advice);
            assert(meta.equality@[0] == Column::Advice(AdviceColumn { index: 0 }));
            assert(meta.equality@[1] == Column::Advice(AdviceColumn { index: 1 }));
            assert(meta.equality@[2] == Column::Advice(AdviceColumn { index: 2 }));
            assert(meta.equality@[3] == Column::Instance(InstanceColumn { index: 0 }));
        }
        let mut columns: Vec<Vec<Felt>> = Vec::new();
        columns.push(instance);
        let mut layouter = Layouter::new(meta, columns);
        proof {
            assert(layouter.instance() =~= seq![instance@]);
        }
        let done = self.synthesize(config, &mut layouter);
        proof {
            if instance@.len() >= 3 {
                assert(done is Ok);
                assert(layouter.regions() =~= Self::regions(Self::config(), 0, seq![instance@]));
            }
        }
        match done {
            Ok(()) => Ok(layouter),
            Err(e) => Err(e),
        }
    }
}

impl FibonacciCircuit1 {
    /// The failure that a wrong claim meets: the `c` of the last step is
    /// bound to the public input at row 2 and does not hold it.
    pub open spec fn rejection() -> VerifyFailure {
        VerifyFailure::Permutation { region_index: 7, region_name: "next row", constraint_index: 2 }
    }

    /// The cell of step `step` in one of the three columns, as the steps
    /// leave it: in column `k` it holds term `step + k` of the recurrence.
    pub open spec fn laid(instance: Seq<Felt>, step: nat, k: int) -> AssignedCell {
        AssignedCell {
            cell: Cell {
                region_index: step as usize,
                column: Self::config().advice[k],
                row_offset: 0,
            },
            value: fibonacci(Some(instance[0]), Some(instance[1]), (step + k) as nat),
        }
    }

    /// What a step hands on, and what it holds: the cells `b` and `c` of
    /// the step, where `b` is a copy of the `c` of the step before; and
    /// its three cells.
    pub proof fn lemma_steps(instance: Seq<Felt>, i: nat)
        requires
            instance.len() >= 3,
            i < NUM_STEPS,
        ensures
            Self::carried(Self::config(), 0, seq![instance], i).0 == if i == 0 {
                Self::laid(instance, 0, 1)
            } else {
                Self::laid(instance, (i - 1) as nat, 2)
            },
            Self::carried(Self::config(), 0, seq![instance], i).1 == Self::laid(instance, i, 2),
            Self::step(Self::config(), 0, seq![instance], i).cells == seq![
                Self::laid(instance, i, 0),
                Self::laid(instance, i, 1),
                Self::laid(instance, i, 2),
            ],
            Self::step(Self::config(), 0, seq![instance], i).enabled == seq![
                (Self::config().selector, 0usize),
            ],
            Self::step(Self::config(), 0, seq![instance], i).name == if i == 0 {
                "first row"
            } else {
                "next row"
            },
        decreases i,
    {
        let config = Self::config();
        let inputs = seq![instance];
        if i == 0 {
            assert(Self::step(config, 0, inputs, 0).cells =~= seq![
                Self::laid(instance, 0, 0),
                Self::laid(instance, 0, 1),
                Self::laid(instance, 0, 2),
            ]);
        } else {
            Self::lemma_steps(instance, (i - 1) as nat);
            assert(Self::step(config, 0, inputs, i).cells =~= seq![
                Self::laid(instance, i, 0),
                Self::laid(instance, i, 1),
                Self::laid(instance, i, 2),
            ]);
        }
    }

    /// The value of each cell that the steps leave is its term of the
    /// recurrence.
    pub proof fn lemma_laid(layouter: &Layouter, instance: Seq<Felt>, step: nat, k: int)
        requires
            instance.len() >= 3,
            Self::synthesized(layouter, instance),
            step < NUM_STEPS,
            0 <= k < 3,
        ensures
            value_of(layouter.regions(), Self::laid(instance, step, k).cell) == Some(
                fibonacci_number(instance[0].value(), instance[1].value(), (step + k) as nat),
            ),
            crate::circuit::cell_value(
                layouter.regions()[step as int].cells,
                Self::config().advice[k],
                0,
            ) == Self::laid(instance, step, k).value,
    {
        let config = Self::config();
        Self::lemma_steps(instance, step);
        let region = layouter.regions()[step as int];
        assert(region.cells == Self::step(config, 0, seq![instance], step).cells);
        assert(config.advice[0] != config.advice[1]);
        assert(config.advice[0] != config.advice[2]);
        assert(config.advice[1] != config.advice[2]);
        lemma_find_cell_at(region.cells, config.advice[k], 0, k);
        lemma_fibonacci_known(instance[0], instance[1], (step + k) as nat);
    }

    /// In every step the three cells obey the recurrence.
    pub proof fn lemma_gate_holds(layouter: &Layouter, instance: Seq<Felt>, r: int)
        requires
            instance.len() >= 3,
            Self::synthesized(layouter, instance),
            0 <= r < NUM_STEPS,
        ensures
            gate_holds_in(Self::config().gate(), layouter.regions()[r]),
    {
        let config = Self::config();
        let gate = config.gate();
        let region = layouter.regions()[r];
        let a = instance[0].value();
        let b = instance[1].value();
        Self::lemma_steps(instance, r as nat);
        Self::lemma_laid(layouter, instance, r as nat, 0);
        Self::lemma_laid(layouter, instance, r as nat, 1);
        Self::lemma_laid(layouter, instance, r as nat, 2);
        lemma_fibonacci_known(instance[0], instance[1], r as nat);
        lemma_fibonacci_known(instance[0], instance[1], (r + 1) as nat);
        lemma_fibonacci_known(instance[0], instance[1], (r + 2) as nat);
        lemma_fibonacci_step(a, b, r as nat);
        assert(region.enabled == seq![(config.selector, 0usize)]);
        assert(gate.constraints[0].poly == crate::chips::fib_1::fibonacci_expression(
            config.advice[0],
            config.advice[1],
            config.advice[2],
        ));
        assert(eval(gate.constraints[0].poly, region, 0) == Some(0nat)) by {
            reveal_with_fuel(eval, 5);
        }
        assert forall|i: int|
            0 <= i < region.enabled.len() && (#[trigger] region.enabled[i]).0
                == gate.selector implies row_holds(gate, region, region.enabled[i].1) by {
            assert(i == 0);
        }
    }

    /// The first two copy constraints of every step hold: its `a` and `b`
    /// are the public inputs, or copies of cells that hold the same.
    pub proof fn lemma_copies_hold(layouter: &Layouter, instance: Seq<Felt>, r: int, c: int)
        requires
            instance.len() >= 3,
            Self::synthesized(layouter, instance),
            0 <= r < NUM_STEPS,
            0 <= c < 2,
        ensures
            layouter.regions()[r].constraints.len() == if r == NUM_STEPS - 1 {
                3nat
            } else {
                2nat
            },
            constraint_holds(
                layouter.regions()[r].constraints[c],
                layouter.regions(),
                layouter.instance(),
            ),
    {
        Self::lemma_steps(instance, r as nat);
        Self::lemma_laid(layouter, instance, r as nat, 0);
        Self::lemma_laid(layouter, instance, r as nat, 1);
        if r == 0 {
            lemma_fibonacci_known(instance[0], instance[1], 0);
            lemma_fibonacci_known(instance[0], instance[1], 1);
        } else {
            Self::lemma_steps(instance, (r - 1) as nat);
            Self::lemma_laid(layouter, instance, (r - 1) as nat, 1);
            Self::lemma_laid(layouter, instance, (r - 1) as nat, 2);
            if r >= 2 {
                Self::lemma_laid(layouter, instance, (r - 2) as nat, 2);
            }
        }
    }

    /// The claim holds exactly where it is term 9 of the recurrence.
    pub proof fn lemma_claim(layouter: &Layouter, instance: Seq<Felt>)
        requires
            instance.len() >= 3,
            Self::synthesized(layouter, instance),
        ensures
            constraint_holds(
                layouter.regions()[7].constraints[2],
                layouter.regions(),
                layouter.instance(),
            ) <==> fibonacci_number(instance[0].value(), instance[1].value(), 9) == instance[2].value(),
    {
        Self::lemma_steps(instance, 7);
        Self::lemma_laid(layouter, instance, 7, 2);
    }

    /// The circuit accepts the public inputs `a`, `b` and a claim exactly
    /// where the claim is term 9 of the recurrence from `a` and `b`;
    /// otherwise it fails in one way.
    pub proof fn lemma_verdict(layouter: &Layouter, instance: Seq<Felt>)
        requires
            instance.len() >= 3,
            Self::synthesized(layouter, instance),
        ensures
            failures(layouter) == if fibonacci_number(
                instance[0].value(),
                instance[1].value(),
                9,
            ) == instance[2].value() {
                Seq::<VerifyFailure>::empty()
            } else {
                seq![Self::rejection()]
            },
    {
        let regions = layouter.regions();
        let gates = layouter.cs().gate_views();
        let inputs = layouter.instance();
        let none = Seq::<VerifyFailure>::empty();
        assert(gates[0] == Self::config().gate());
        assert forall|g: int, r: int|
            0 <= g < gates.len() && 0 <= r < regions.len() implies gate_holds_in(
            #[trigger] gates[g],
            #[trigger] regions[r],
        ) by {
            Self::lemma_gate_holds(layouter, instance, r);
        }
        lemma_all_gate_failures_empty(gates, regions, gates.len());
        assert forall|r: int, c: int|
            0 <= r < 7 && 0 <= c < regions[r].constraints.len() implies constraint_holds(
            #[trigger] regions[r].constraints[c],
            regions,
            inputs,
        ) by {
            Self::lemma_copies_hold(layouter, instance, r, 0);
            Self::lemma_copies_hold(layouter, instance, r, c);
        }
        lemma_copy_failures_empty(regions, inputs, 7);
        Self::lemma_copies_hold(layouter, instance, 7, 0);
        Self::lemma_copies_hold(layouter, instance, 7, 1);
        Self::lemma_claim(layouter, instance);
        Self::lemma_steps(instance, 7);
        let found = region_copy_failures(regions, inputs, 7, 3);
        assert(found =~= if fibonacci_number(instance[0].value(), instance[1].value(), 9)
            == instance[2].value() {
            none
        } else {
            seq![Self::rejection()]
        }) by {
            reveal_with_fuel(region_copy_failures, 4);
        }
        assert(copy_failures(regions, inputs, 8) =~= found) by {
            reveal_with_fuel(copy_failures, 2);
        }
        assert(all_lookup_failures(
            layouter.cs().lookup_views(),
            layouter.table_columns(),
            regions,
            0,
        ) =~= none);
        assert(failures(layouter) =~= found);
    }

    /// From the public inputs 1 and 1 the circuit accepts the claim 55, and
    /// no other reduced claim.
    pub proof fn lemma_tenth_number(layouter: &Layouter, instance: Seq<Felt>)
        requires
            instance.len() >= 3,
            instance[0].value() == 1,
            instance[1].value() == 1,
            Self::synthesized(layouter, instance),
        ensures
            failures(layouter).len() == 0 <==> instance[2].value() == 55,
    {
        Self::lemma_verdict(layouter, instance);
        lemma_tenth_fibonacci_number();
    }
}

} // verus!
