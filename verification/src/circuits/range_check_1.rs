//! A circuit that witnesses one value and checks it against a small range
//! with the range-check polynomial.

use crate::chips::range_check_1::lemma_eval_range_check;
use crate::chips::range_check_1::lemma_range_product_nonzero;
use crate::chips::range_check_1::lemma_range_product_zero;
use crate::chips::range_check_1::range_product;
use crate::chips::range_check_1::RangeCheckChip;
use crate::chips::range_check_1::RangeCheckConfig;
use crate::circuit::lemma_find_cell_at;
use crate::circuit::Error;
use crate::circuit::Layouter;
use crate::circuit::Table;
use crate::circuit::TableColumnView;
use crate::circuit::Value;
use crate::dev::all_gate_failures;
use crate::dev::all_lookup_failures;
use crate::dev::copy_failures;
use crate::dev::failures;
use crate::dev::gate_failures;
use crate::dev::region_copy_failures;
use crate::dev::region_gate_failures;
use crate::dev::row_failures;
use crate::dev::VerifyFailure;
use crate::field::Felt;
use crate::plonk::AdviceColumn;
use crate::plonk::Column;
use crate::plonk::ConstraintSystem;
use crate::plonk::FixedColumn;
use crate::plonk::LookupView;
use crate::plonk::Selector;
use vstd::prelude::*;

verus! {

/// The circuit: a value and the range it is checked against.
#[derive(Clone, Copy, Debug, PartialEq, Eq)]
pub struct RangeCheckCircuit1 {
    pub value: Value,
    pub range: usize,
}

impl RangeCheckCircuit1 {
    /// The gadget as the circuit configures it in an empty shape.
    pub open spec fn config(&self) -> RangeCheckConfig {
        RangeCheckConfig {
            value: AdviceColumn { index: 0 },
            selector: Selector { index: 0, simple: true },
            range: self.range,
        }
    }

    /// The shape is the one that the circuit configures from nothing.
    pub open spec fn is_shape(&self, cs: ConstraintSystem) -> bool {
        &&& cs.num_advice_columns == 1
        &&& cs.fixed_columns@ == Seq::<bool>::empty()
        &&& cs.num_instance_columns == 0
        &&& cs.selectors@ == seq![true]
        &&& cs.equality@ == Seq::<Column>::empty()
        &&& cs.constants@ == Seq::<FixedColumn>::empty()
        &&& cs.gate_views() == seq![self.config().gate()]
        &&& cs.lookup_views() == Seq::<LookupView>::empty()
    }

    /// The pass holds what the circuit synthesizes from nothing: the region
    /// of the value.
    pub open spec fn synthesized(&self, layouter: &Layouter) -> bool {
        &&& self.is_shape(layouter.cs())
        &&& layouter.instance() == Seq::<Seq<Felt>>::empty()
        &&& layouter.tables() == Seq::<Table>::empty()
        &&& layouter.table_columns() == Seq::<TableColumnView>::empty()
        &&& layouter.regions() == seq![self.config().region(0, self.value)]
    }

    /// The same circuit with its value unknown.
    pub fn without_witnesses(&self) -> (r: Self)
        ensures
            r == (RangeCheckCircuit1 { value: None, ..*self }),
    {
        RangeCheckCircuit1 { value: None, range: self.range }
    }

    /// Declares the circuit in a shape: an advice column and the gadget
    /// over it.
    pub fn configure(meta: &mut ConstraintSystem, range: usize) -> (r: RangeCheckConfig)
        requires
            old(meta).num_advice_columns < usize::MAX,
        ensures
            r.value.index == old(meta).num_advice_columns,
            r.range == range,
            r.selector.index == old(meta).selectors@.len(),
            r.selector.simple,
            final(meta).num_advice_columns == old(meta).num_advice_columns + 1,
            final(meta).num_instance_columns == old(meta).num_instance_columns,
            final(meta).fixed_columns == old(meta).fixed_columns,
            final(meta).constants == old(meta).constants,
            final(meta).equality == old(meta).equality,
            final(meta).lookups == old(meta).lookups,
            final(meta).selectors@ == old(meta).selectors@.push(true),
            final(meta).gate_views() == old(meta).gate_views().push(r.gate()),
    {
        let advice = meta.advice_column();
        RangeCheckChip::configure(meta, advice, range)
    }

    /// Lays the circuit out: the value in a region of its own.
    pub fn synthesize(&self, config: RangeCheckConfig, layouter: &mut Layouter) -> (r: Result<
        (),
        Error,
    >)
        ensures
            final(layouter).same_but_regions(old(layouter)),
            final(layouter).regions().len() == old(layouter).regions().len() + 1,
            final(layouter).regions().drop_last() == old(layouter).regions(),
            final(layouter).region_open(),
            match config.assign_error(old(layouter)) {
                Some(e) => r == Err::<(), Error>(e),
                None => r is Ok && final(layouter).regions().last() == config.region(
                    old(layouter).regions().len() as usize,
                    self.value,
                ),
            },
    {
        let chip = RangeCheckChip::construct(config);
        chip.assign(layouter, self.value)
    }

    /// Configures the circuit in an empty shape and lays it out in a fresh
    /// pass.
    pub fn run(&self) -> (r: Result<Layouter, Error>)
        ensures
            r matches Ok(layouter) && self.synthesized(&layouter),
    {
        let mut meta = ConstraintSystem::new();
        let config = Self::configure(&mut meta, self.range);
        proof {
            assert(meta.gate_views() =~= seq![config.gate()]);
            assert(meta.selectors@ =~= seq![true]);
            assert(meta.lookup_views() =~= Seq::<LookupView>::empty());
        }
        let mut layouter = Layouter::new(meta, Vec::new());
        proof {
            assert(layouter.instance() =~= Seq::<Seq<Felt>>::empty());
        }
        let done = self.synthesize(config, &mut layouter);
        proof {
            assert(done is Ok);
            assert(layouter.regions() =~= seq![self.config().region(0, self.value)]);
        }
        match done {
            Ok(()) => Ok(layouter),
            Err(e) => Err(e),
        }
    }
}

impl RangeCheckCircuit1 {
    /// The failure that a value out of range meets: the range-check
    /// polynomial does not vanish on the row of the value.
    pub open spec fn rejection() -> VerifyFailure {
        VerifyFailure::ConstraintNotSatisfied {
            gate_index: 0,
            gate_name: "Range Check",
            constraint_index: 0,
            constraint_name: "range check",
            region_index: 0,
            region_name: "Assign value",
            offset: 0,
        }
    }

    /// The circuit fails exactly where the range-check polynomial does not
    /// vanish at the value, and then in one way.
    pub proof fn lemma_verdict(&self, layouter: &Layouter)
        requires
            self.synthesized(layouter),
            self.value is Some,
        ensures
            failures(layouter) == if range_product(self.value->0.value(), self.range as nat) == 0 {
                Seq::<VerifyFailure>::empty()
            } else {
                seq![Self::rejection()]
            },
    {
        let config = self.config();
        let region = config.region(0, self.value);
        let regions = layouter.regions();
        let gates = layouter.cs().gate_views();
        let gate = config.gate();
        lemma_find_cell_at(region.cells, config.value, 0, 0);
        lemma_eval_range_check(config.value, self.range, region, 0, self.value->0);
        reveal_with_fuel(all_gate_failures, 2);
        reveal_with_fuel(gate_failures, 2);
        reveal_with_fuel(region_gate_failures, 2);
        reveal_with_fuel(row_failures, 2);
        reveal_with_fuel(copy_failures, 2);
        assert(regions[0] == region);
        assert(gates[0] == gate);
        assert(region.enabled[0] == (config.selector, 0usize));
        assert(gate.constraints[0].poly == crate::chips::range_check_1::range_check_expression(
            config.value,
            self.range as nat,
        ));
        let found = row_failures(gate, 0, region, 0, 0, 1);
        assert(region_gate_failures(gate, 0, region, 0, 1) =~= found);
        assert(gate_failures(gate, 0, regions, 1) =~= found);
        assert(all_gate_failures(gates, regions, 1) =~= found);
        assert(all_lookup_failures(
            layouter.cs().lookup_views(),
            layouter.table_columns(),
            regions,
            0,
        ) =~= Seq::<VerifyFailure>::empty());
        assert(region_copy_failures(regions, layouter.instance(), 0, 0) =~= Seq::<
            VerifyFailure,
        >::empty());
        assert(copy_failures(regions, layouter.instance(), 1) =~= Seq::<VerifyFailure>::empty());
        assert(failures(layouter) =~= found);
    }

    /// The circuit accepts every value below the range.
    pub proof fn lemma_accepts_in_range(&self, layouter: &Layouter)
        requires
            self.synthesized(layouter),
            self.value is Some,
            self.value->0.value() < self.range,
        ensures
            failures(layouter) == Seq::<VerifyFailure>::empty(),
    {
        self.lemma_verdict(layouter);
        lemma_range_product_zero(self.value->0.value(), self.range as nat);
    }

    /// The circuit rejects every value that is not below the range, with the
    /// one failure of the range-check polynomial on the row of the value.
    pub proof fn lemma_rejects_out_of_range(&self, layouter: &Layouter)
        requires
            self.synthesized(layouter),
            self.value is Some,
            self.value->0.wf(),
            1 <= self.range <= self.value->0.value(),
        ensures
            failures(layouter) == seq![Self::rejection()],
    {
        self.lemma_verdict(layouter);
        lemma_range_product_nonzero(self.value->0.value(), self.range as nat);
    }
}

} // verus!
