use vstd::prelude::*;
use crate::firing::arcs_within;
use crate::firing::fits;
use crate::place::Place;
use crate::place::marking;
use crate::place::names;
use crate::scheduler::RandomTransitionScheduler;
use crate::scheduler::after_choice;
use crate::scheduler::observed;
use crate::scheduler::pick;
use crate::scheduler::positions;
use crate::transition::Transition;

verus! {

/// A net: transitions in the order in which they were added. The places are
/// not held by the net; they are handed to each step.
pub struct Petrinet<'a> {
    transitions: Vec<Transition<'a>>,
}

impl<'a> View for Petrinet<'a> {
    type V = Seq<Transition<'a>>;

    closed spec fn view(&self) -> Seq<Transition<'a>> {
        self.transitions@
    }
}

impl<'a> Petrinet<'a> {
    /// Every arc of every transition refers to one of the first `n` places.
    pub open spec fn within(&self, n: nat) -> bool {
        forall|k: int|
            0 <= k < self@.len() ==> arcs_within((#[trigger] self@[k]).inputs(), n) && arcs_within(
                self@[k].outputs(),
                n,
            )
    }

    /// Each of the first `k` transitions may report itself disabled under `m`.
    pub open spec fn passes_over(&self, m: Seq<nat>, k: int) -> bool {
        forall|j: int| 0 <= j < k ==> (#[trigger] self@[j]).may_report(m, false)
    }

    /// A step under `m` may fire transition `k`: it may report itself enabled
    /// after every transition before it reported itself disabled.
    pub open spec fn may_fire(&self, m: Seq<nat>, k: int) -> bool {
        &&& 0 <= k < self@.len()
        &&& self.passes_over(m, k)
        &&& self@[k].may_report(m, true)
    }

    /// A step may lead from `m` to `after`: the first transition found enabled
    /// fired and no other, or none was found enabled and nothing changed.
    pub open spec fn may_step(&self, m: Seq<nat>, after: Seq<nat>) -> bool {
        ||| exists|k: int| self.may_fire(m, k) && after == self@[k].fired(m)
        ||| self.passes_over(m, self@.len() as int) && after == m
    }

    /// A step in which a scheduler in state `state` chooses may lead from `m`
    /// to `after` and leave the scheduler in state `next`: of the transitions
    /// found enabled the chosen one fired, or none was found enabled and
    /// nothing changed.
    pub open spec fn may_step_chosen(
        &self,
        state: u64,
        m: Seq<nat>,
        after: Seq<nat>,
        next: u64,
    ) -> bool {
        exists|seen: Seq<bool>|
            {
                &&& observed(self@, m, seen)
                &&& next == after_choice(positions(seen).len(), state)
                &&& after == match pick(positions(seen), state) {
                    Some(k) => self@[k].fired(m),
                    None => m,
                }
            }
    }

    /// A net without transitions.
    pub fn new() -> (made: Self)
        ensures
            made@ == Seq::<Transition<'a>>::empty(),
    {
        Petrinet { transitions: Vec::new() }
    }

    /// Adds `transition` behind the transitions of the net. A step asks the
    /// transitions in this order.
    pub fn add_transition(&mut self, transition: Transition<'a>)
        ensures
            final(self)@ == old(self)@.push(transition),
    {
        self.transitions.push(transition)
    }

    /// Fires the first transition that reports itself enabled, and no other.
    /// Where none does, the places are left as they are.
    pub fn step(&self, places: &mut Vec<Place>)
        requires
            self.within(old(places)@.len()),
            forall|k: int|
                self.may_fire(marking(old(places)@), k) ==> fits(
                    (#[trigger] self@[k]).fired(marking(old(places)@)),
                ),
        ensures
            final(places)@.len() == old(places)@.len(),
            names(final(places)@) == names(old(places)@),
            self.may_step(marking(old(places)@), marking(final(places)@)),
    {
        let mut i: usize = 0;
        while i < self.transitions.len()
            invariant
                i <= self@.len(),
                places@ == old(places)@,
                self.within(places@.len()),
                forall|k: int|
                    self.may_fire(marking(places@), k) ==> fits(
                        (#[trigger] self@[k]).fired(marking(places@)),
                    ),
                self.passes_over(marking(places@), i as int),
            decreases self@.len() - i,
        {
            if self.transitions[i].is_enabled(places) {
                assert(self.may_fire(marking(places@), i as int));
                self.transitions[i].fire(places);
                return ;
            }
            i += 1;
        }
    }

    /// Asks every transition whether it is enabled, lets `scheduler` choose
    /// among those that are, and fires the chosen one. Where none is enabled,
    /// the places and the scheduler are left as they are.
    pub fn step_with(&self, scheduler: &mut RandomTransitionScheduler, places: &mut Vec<Place>)
        requires
            self.within(old(places)@.len()),
            forall|k: int|
                0 <= k < self@.len() && (#[trigger] self@[k]).may_report(
                    marking(old(places)@),
                    true,
                ) ==> fits(self@[k].fired(marking(old(places)@))),
        ensures
            final(places)@.len() == old(places)@.len(),
            names(final(places)@) == names(old(places)@),
            self.may_step_chosen(
                old(scheduler)@,
                marking(old(places)@),
                marking(final(places)@),
                final(scheduler)@,
            ),
    {
        let transitions = self.transitions.as_slice();
        assert(transitions@ == self@);
        match scheduler.schedule(transitions, places) {
            Some(k) => {
                self.transitions[k].fire(places);
            },
            None => {},
        }
    }
}

impl<'a> Default for Petrinet<'a> {
    fn default() -> (made: Self)
        ensures
            made@ == Seq::<Transition<'a>>::empty(),
    {
        Petrinet::new()
    }
}

} // verus!
