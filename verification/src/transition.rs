use vstd::prelude::*;
use crate::arc::Arc;
use crate::arc::ArcView;
use crate::firing::arcs_within;
use crate::firing::consumed;
use crate::firing::fits;
use crate::firing::inputs_satisfied;
use crate::firing::lemma_consumed_push;
use crate::firing::lemma_no_arcs;
use crate::firing::lemma_produced_push;
use crate::firing::lemma_total_weight_prefix;
use crate::firing::produced;
use crate::guard::Expression;
use crate::place::Place;
use crate::place::marking;
use crate::place::names;

verus! {

/// An action of a net: input arcs, output arcs and, where one was given, a
/// guard.
pub struct Transition<'a> {
    input_arcs: Vec<&'a Arc>,
    output_arcs: Vec<&'a Arc>,
    expression: Expression<'a>,
}

/// The views of `arcs`, in their order.
pub(crate) open spec fn views(arcs: Seq<&Arc>) -> Seq<ArcView> {
    Seq::new(arcs.len(), |i: int| arcs[i]@)
}

impl<'a> Transition<'a> {
    /// The input arcs, in the order in which they were added.
    pub closed spec fn inputs(&self) -> Seq<ArcView> {
        views(self.input_arcs@)
    }

    /// The output arcs, in the order in which they were added.
    pub closed spec fn outputs(&self) -> Seq<ArcView> {
        views(self.output_arcs@)
    }

    /// The guard may answer true. A transition without a guard counts as one
    /// whose guard always does.
    pub closed spec fn guard_may_pass(&self) -> bool {
        self.expression.admits(true)
    }

    /// The guard may answer false. A transition without a guard counts as one
    /// whose guard never does.
    pub closed spec fn guard_may_block(&self) -> bool {
        self.expression.admits(false)
    }

    /// `is_enabled` may answer `enabled` under `m`: true only where every
    /// input arc is satisfied and the guard passes, false only where an input
    /// arc is not satisfied or the guard blocks.
    pub open spec fn may_report(&self, m: Seq<nat>, enabled: bool) -> bool {
        if enabled {
            inputs_satisfied(self.inputs(), m) && self.guard_may_pass()
        } else {
            !inputs_satisfied(self.inputs(), m) || self.guard_may_block()
        }
    }

    /// `m` after the transition fired: what the input arcs take is gone, then
    /// what the output arcs put is there.
    pub open spec fn fired(&self, m: Seq<nat>) -> Seq<nat> {
        produced(self.outputs(), consumed(self.inputs(), m))
    }

    /// A transition without arcs and without a guard.
    pub fn new() -> (made: Self)
        ensures
            made.inputs() == Seq::<ArcView>::empty(),
            made.outputs() == Seq::<ArcView>::empty(),
            made.guard_may_pass(),
            !made.guard_may_block(),
    {
        let made = Transition { input_arcs: Vec::new(), output_arcs: Vec::new(), expression: Expression::absent() };
        assert(made.inputs() =~= Seq::<ArcView>::empty());
        assert(made.outputs() =~= Seq::<ArcView>::empty());
        made
    }

    /// A transition without arcs whose guard is `func`.
    pub fn new_with_expression(func: impl Fn() -> bool + 'a) -> (made: Self)
        requires
            call_requires(func, ()),
        ensures
            made.inputs() == Seq::<ArcView>::empty(),
            made.outputs() == Seq::<ArcView>::empty(),
            made.guard_may_pass() == call_ensures(func, (), true),
            made.guard_may_block() == call_ensures(func, (), false),
    {
        let made = Transition {
            input_arcs: Vec::new(),
            output_arcs: Vec::new(),
            expression: Expression::of(func),
        };
        assert(made.inputs() =~= Seq::<ArcView>::empty());
        assert(made.outputs() =~= Seq::<ArcView>::empty());
        made
    }

    /// Adds `arc` behind the input arcs.
    pub fn add_input(&mut self, arc: &'a Arc)
        ensures
            final(self).inputs() == old(self).inputs().push(arc@),
            final(self).outputs() == old(self).outputs(),
            final(self).guard_may_pass() == old(self).guard_may_pass(),
            final(self).guard_may_block() == old(self).guard_may_block(),
    {
        self.input_arcs.push(arc);
        assert(self.inputs() =~= old(self).inputs().push(arc@));
    }

    /// Adds `arc` behind the output arcs.
    pub fn add_output(&mut self, arc: &'a Arc)
        ensures
            final(self).inputs() == old(self).inputs(),
            final(self).outputs() == old(self).outputs().push(arc@),
            final(self).guard_may_pass() == old(self).guard_may_pass(),
            final(self).guard_may_block() == old(self).guard_may_block(),
    {
        self.output_arcs.push(arc);
        assert(self.outputs() =~= old(self).outputs().push(arc@));
    }

    /// Whether the transition can fire now: every input arc finds its weight
    /// on its place and the guard, where there is one, answers true. The guard
    /// is asked only where the input arcs are satisfied. Nothing is changed.
    pub fn is_enabled(&self, places: &Vec<Place>) -> (enabled: bool)
        requires
            arcs_within(self.inputs(), places@.len()),
        ensures
            self.may_report(marking(places@), enabled),
    {
        let mut i: usize = 0;
        while i < self.input_arcs.len()
            invariant
                i <= self.input_arcs@.len(),
                arcs_within(self.inputs(), places@.len()),
                forall|j: int|
                    0 <= j < i ==> (#[trigger] self.inputs()[j]).satisfied_by(marking(places@)),
            decreases self.input_arcs@.len() - i,
        {
            assert(self.inputs()[i as int] == self.input_arcs@[i as int]@);
            if !self.input_arcs[i].can_provide_required_tokens(places) {
                return false;
            }
            i += 1;
        }
        self.expression.eval()
    }

    /// Fires the transition: each input arc takes its weight, in the order in
    /// which the arcs were added, and then each output arc puts its weight.
    ///
    /// Enablement is not asked again. An input place that holds fewer tokens
    /// than the input arcs take from it is emptied, so a count stops at zero
    /// and never wraps.
    pub fn fire(&self, places: &mut Vec<Place>)
        requires
            arcs_within(self.inputs(), old(places)@.len()),
            arcs_within(self.outputs(), old(places)@.len()),
            fits(self.fired(marking(old(places)@))),
        ensures
            final(places)@.len() == old(places)@.len(),
            names(final(places)@) == names(old(places)@),
            marking(final(places)@) == self.fired(marking(old(places)@)),
    {
        let ghost before = marking(places@);
        proof {
            lemma_no_arcs(before);
            assert(self.inputs().take(0) =~= Seq::<ArcView>::empty());
        }
        let mut i: usize = 0;
        while i < self.input_arcs.len()
            invariant
                i <= self.input_arcs@.len(),
                arcs_within(self.inputs(), before.len()),
                places@.len() == before.len(),
                names(places@) == names(old(places)@),
                marking(places@) == consumed(self.inputs().take(i as int), before),
            decreases self.input_arcs@.len() - i,
        {
            proof {
                let arc = self.inputs()[i as int];
                assert(arc == self.input_arcs@[i as int]@);
                assert(self.inputs().take(i + 1) =~= self.inputs().take(i as int).push(arc));
                lemma_consumed_push(self.inputs().take(i as int), arc, before);
            }
            self.input_arcs[i].consume_tokens(places);
            i += 1;
        }
        let ghost taken = marking(places@);
        proof {
            assert(self.inputs().take(i as int) =~= self.inputs());
            lemma_no_arcs(taken);
            assert(self.outputs().take(0) =~= Seq::<ArcView>::empty());
        }
        let mut k: usize = 0;
        while k < self.output_arcs.len()
            invariant
                k <= self.output_arcs@.len(),
                arcs_within(self.outputs(), taken.len()),
                places@.len() == taken.len(),
                fits(produced(self.outputs(), taken)),
                names(places@) == names(old(places)@),
                marking(places@) == produced(self.outputs().take(k as int), taken),
            decreases self.output_arcs@.len() - k,
        {
            proof {
                let arc = self.outputs()[k as int];
                assert(arc == self.output_arcs@[k as int]@);
                assert(self.outputs().take(k + 1) =~= self.outputs().take(k as int).push(arc));
                lemma_produced_push(self.outputs().take(k as int), arc, taken);
                lemma_total_weight_prefix(self.outputs(), k + 1, arc.place);
                let p = arc.place as int;
                assert(produced(self.outputs(), taken)[p] <= u32::MAX);
                assert(arc.produce(marking(places@))[p] == produced(
                    self.outputs().take(k + 1),
                    taken,
                )[p]);
            }
            self.output_arcs[k].produce_tokens(places);
            k += 1;
        }
        proof {
            assert(self.outputs().take(k as int) =~= self.outputs());
        }
    }
}

impl<'a> Default for Transition<'a> {
    fn default() -> (made: Self)
        ensures
            made.inputs() == Seq::<ArcView>::empty(),
            made.outputs() == Seq::<ArcView>::empty(),
            made.guard_may_pass(),
            !made.guard_may_block(),
    {
        Transition::new()
    }
}

} // verus!
