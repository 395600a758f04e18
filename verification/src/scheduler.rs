use vstd::prelude::*;
use crate::firing::arcs_within;
use crate::place::Place;
use crate::place::marking;
use crate::transition::Transition;

verus! {

/// The state of the generator after one draw from `state`.
pub open spec fn advance(state: u64) -> u64 {
    state.wrapping_add(0x9E37_79B9_7F4A_7C15)
}

/// The number that a draw from `state` gives: the state after the draw, mixed
/// so that every bit of it depends on many bits of the state.
pub open spec fn draw(state: u64) -> u64 {
    let z = advance(state);
    let z = (z ^ (z >> 30)).wrapping_mul(0xBF58_476D_1CE4_E5B9);
    let z = (z ^ (z >> 27)).wrapping_mul(0x94D0_49BB_1331_11EB);
    z ^ (z >> 31)
}

/// The positions at which `flags` holds true, in ascending order.
pub open spec fn positions(flags: Seq<bool>) -> Seq<int>
    decreases flags.len(),
{
    if flags.len() == 0 {
        Seq::empty()
    } else if flags.last() {
        positions(flags.drop_last()).push(flags.len() - 1)
    } else {
        positions(flags.drop_last())
    }
}

/// `seen` is a possible record of asking each of `transitions` under `m`
/// whether it is enabled.
pub open spec fn observed(transitions: Seq<Transition<'_>>, m: Seq<nat>, seen: Seq<bool>) -> bool {
    &&& seen.len() == transitions.len()
    &&& forall|k: int| 0 <= k < transitions.len() ==> (#[trigger] transitions[k]).may_report(m, seen[k])
}

/// The one of `candidates` that a draw from `state` selects, if there is any
/// candidate.
pub open spec fn pick(candidates: Seq<int>, state: u64) -> Option<int> {
    if candidates.len() == 0 {
        None
    } else {
        Some(candidates[draw(state) as int % candidates.len() as int])
    }
}

/// The state in which a generator in `state` leaves a choice among `count`
/// candidates: a number is drawn only where there is something to choose.
pub open spec fn after_choice(count: nat, state: u64) -> u64 {
    if count == 0 {
        state
    } else {
        advance(state)
    }
}

/// Every position that `positions` lists is one at which `flags` is true, and
/// where it lists none, `flags` is false throughout.
pub proof fn lemma_positions(flags: Seq<bool>)
    ensures
        forall|t: int|
            0 <= t < positions(flags).len() ==> 0 <= #[trigger] positions(flags)[t] < flags.len()
                && flags[positions(flags)[t]],
        forall|t: int, u: int|
            0 <= t < u < positions(flags).len() ==> positions(flags)[t] < positions(flags)[u],
        forall|k: int| 0 <= k < flags.len() && flags[k] ==> positions(flags).contains(k),
    decreases flags.len(),
{
    if flags.len() > 0 {
        let front = flags.drop_last();
        lemma_positions(front);
        assert forall|t: int, u: int| 0 <= t < u < positions(flags).len() implies positions(
            flags,
        )[t] < positions(flags)[u] by {
            assert(positions(flags)[t] == positions(front)[t]);
            if u < positions(front).len() {
                assert(positions(flags)[u] == positions(front)[u]);
            }
        }
        assert forall|k: int| 0 <= k < flags.len() && flags[k] implies positions(flags).contains(
            k,
        ) by {
            if k < front.len() {
                assert(front[k]);
                let t = choose|t: int| 0 <= t < positions(front).len() && positions(front)[t] == k;
                assert(positions(flags)[t] == k);
            } else {
                assert(positions(flags)[positions(flags).len() - 1] == k);
            }
        }
    }
}

/// A policy that chooses among the enabled transitions with equal chances.
///
/// The numbers come from a generator that the scheduler carries, so a run can
/// be repeated: two schedulers made from one seed make the same choices.
pub struct RandomTransitionScheduler {
    state: u64,
}

impl View for RandomTransitionScheduler {
    type V = u64;

    closed spec fn view(&self) -> u64 {
        self.state
    }
}

impl RandomTransitionScheduler {
    /// A scheduler whose generator starts from zero.
    pub fn new() -> (made: Self)
        ensures
            made@ == 0,
    {
        RandomTransitionScheduler { state: 0 }
    }

    /// A scheduler whose generator starts from `seed`.
    pub fn with_seed(seed: u64) -> (made: Self)
        ensures
            made@ == seed,
    {
        RandomTransitionScheduler { state: seed }
    }

    /// Draws the next number.
    pub fn next_u64(&mut self) -> (number: u64)
        ensures
            number == draw(old(self)@),
            final(self)@ == advance(old(self)@),
    {
        self.state = self.state.wrapping_add(0x9E37_79B9_7F4A_7C15);
        let z: u64 = self.state;
        let z: u64 = (z ^ (z >> 30)).wrapping_mul(0xBF58_476D_1CE4_E5B9);
        let z: u64 = (z ^ (z >> 27)).wrapping_mul(0x94D0_49BB_1331_11EB);
        z ^ (z >> 31)
    }

    /// Chooses one of `count` candidates: the remainder of a drawn number by
    /// `count`. Where there is no candidate, nothing is drawn.
    pub fn select(&mut self, count: usize) -> (chosen: Option<usize>)
        ensures
            count == 0 ==> chosen is None,
            count > 0 ==> chosen == Some((draw(old(self)@) as int % count as int) as usize),
            chosen matches Some(c) ==> c < count,
            final(self)@ == after_choice(count as nat, old(self)@),
    {
        if count == 0 {
            None
        } else {
            let number = self.next_u64();
            Some((number % (count as u64)) as usize)
        }
    }

    /// Asks each of `transitions` whether it is enabled under `places` and
    /// chooses one of those that are. The result is the position of the chosen
    /// transition in `transitions`; it is `None` where none is enabled.
    pub fn schedule(
        &mut self,
        transitions: &[Transition<'_>],
        places: &Vec<Place>,
    ) -> (chosen: Option<usize>)
        requires
            forall|k: int|
                0 <= k < transitions@.len() ==> arcs_within(
                    (#[trigger] transitions@[k]).inputs(),
                    places@.len(),
                ),
        ensures
            chosen matches Some(k) ==> k < transitions@.len() && transitions@[k as int].may_report(
                marking(places@),
                true,
            ),
            chosen is None ==> forall|k: int|
                0 <= k < transitions@.len() ==> (#[trigger] transitions@[k]).may_report(
                    marking(places@),
                    false,
                ),
            exists|seen: Seq<bool>|
                {
                    &&& observed(transitions@, marking(places@), seen)
                    &&& pick(positions(seen), old(self)@) == match chosen {
                        Some(k) => Some(k as int),
                        None => None,
                    }
                    &&& final(self)@ == after_choice(positions(seen).len(), old(self)@)
                },
    {
        let mut enabled: Vec<usize> = Vec::new();
        let ghost mut seen: Seq<bool> = Seq::empty();
        let mut i: usize = 0;
        while i < transitions.len()
            invariant
                i <= transitions@.len(),
                forall|k: int|
                    0 <= k < transitions@.len() ==> arcs_within(
                        (#[trigger] transitions@[k]).inputs(),
                        places@.len(),
                    ),
                observed(transitions@.take(i as int), marking(places@), seen),
                enabled@.len() == positions(seen).len(),
                forall|t: int| 0 <= t < enabled@.len() ==> enabled@[t] as int == positions(seen)[t],
            decreases transitions@.len() - i,
        {
            let answer = transitions[i].is_enabled(places);
            proof {
                assert(seen.push(answer).drop_last() =~= seen);
                seen = seen.push(answer);
            }
            if answer {
                enabled.push(i);
            }
            i += 1;
        }
        proof {
            assert(transitions@.take(i as int) =~= transitions@);
            lemma_positions(seen);
        }
        match self.select(enabled.len()) {
            Some(c) => {
                let k = enabled[c];
                assert(positions(seen)[c as int] == k);
                Some(k)
            },
            None => None,
        }
    }
}

impl Default for RandomTransitionScheduler {
    fn default() -> (made: Self)
        ensures
            made@ == 0,
    {
        RandomTransitionScheduler::new()
    }
}

} // verus!
