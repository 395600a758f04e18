use vstd::prelude::*;
use crate::place::Place;
use crate::place::marking;
use crate::place::names;

verus! {

/// Why a net could not be built.
#[derive(Debug, Clone, Copy, PartialEq, Eq)]
pub enum Error {
    /// An arc was given a weight below one.
    InvalidWeight,
}

impl Error {
    /// A sentence for the person who reads the failure.
    pub fn message(&self) -> (text: &'static str)
        ensures
            text@ == "weight must be greater 0"@,
    {
        match self {
            Error::InvalidWeight => "weight must be greater 0",
        }
    }
}

/// What an arc is to the contracts: the position of its place and its weight.
pub struct ArcView {
    pub place: nat,
    pub weight: nat,
}

impl ArcView {
    /// The place of the arc holds at least `weight` tokens under `m`.
    pub open spec fn satisfied_by(self, m: Seq<nat>) -> bool {
        self.place < m.len() && m[self.place as int] >= self.weight
    }

    /// `m` after the arc took `weight` tokens from its place. A place that
    /// holds fewer is emptied: the count stops at zero.
    pub open spec fn consume(self, m: Seq<nat>) -> Seq<nat> {
        m.update(self.place as int, clamp_at_zero(m[self.place as int] - self.weight))
    }

    /// `m` after the arc put `weight` tokens on its place.
    pub open spec fn produce(self, m: Seq<nat>) -> Seq<nat> {
        m.update(self.place as int, m[self.place as int] + self.weight)
    }
}

/// `x` where it is a count, zero where it would be a debt.
pub open spec fn clamp_at_zero(x: int) -> nat {
    if x < 0 {
        0
    } else {
        x as nat
    }
}

/// A weighted link between a transition and the place at position `place` of
/// the vector of places. Whether it is an input or an output is decided by the
/// transition that holds it.
#[derive(Debug)]
pub struct Arc {
    weight: u32,
    place: usize,
}

impl View for Arc {
    type V = ArcView;

    closed spec fn view(&self) -> ArcView {
        ArcView { place: self.place as nat, weight: self.weight as nat }
    }
}

impl Arc {
    #[verifier::type_invariant]
    spec fn positive_weight(self) -> bool {
        self.weight >= 1
    }

    /// An arc of the given weight on the place at position `place`.
    ///
    /// A weight below one is refused with [`Error::InvalidWeight`]; every other
    /// weight is accepted.
    pub fn new(place: usize, weight: u32) -> (made: Result<Arc, Error>)
        ensures
            weight < 1 <==> made == Err::<Arc, Error>(Error::InvalidWeight),
            weight >= 1 <==> made is Ok,
            made matches Ok(arc) ==> arc@ == (ArcView { place: place as nat, weight: weight as nat }),
    {
        if weight < 1 {
            Err(Error::InvalidWeight)
        } else {
            Ok(Arc { weight, place })
        }
    }

    /// The weight of the arc, which is never below one.
    pub fn weight(&self) -> (weight: u32)
        ensures
            weight == self@.weight,
            weight >= 1,
    {
        proof {
            use_type_invariant(self);
        }
        self.weight
    }

    /// The position of the arc's place in the vector of places.
    pub fn place(&self) -> (place: usize)
        ensures
            place == self@.place,
    {
        self.place
    }

    /// Whether the arc's place holds at least `weight` tokens. Nothing is
    /// reserved: the answer speaks of `places` as it is now.
    pub fn can_provide_required_tokens(&self, places: &Vec<Place>) -> (enough: bool)
        requires
            self@.place < places@.len(),
        ensures
            enough == self@.satisfied_by(marking(places@)),
    {
        places[self.place].tokens() >= self.weight
    }

    /// Takes `weight` tokens from the arc's place. Where the place holds fewer,
    /// it is emptied: the count is clamped at zero and never wraps.
    pub fn consume_tokens(&self, places: &mut Vec<Place>)
        requires
            self@.place < old(places)@.len(),
        ensures
            final(places)@.len() == old(places)@.len(),
            names(final(places)@) == names(old(places)@),
            marking(final(places)@) == self@.consume(marking(old(places)@)),
    {
        let held = places[self.place].tokens();
        places[self.place].set_tokens(held.saturating_sub(self.weight));
        assert(names(places@) =~= names(old(places)@));
        assert(marking(places@) =~= self@.consume(marking(old(places)@)));
    }

    /// Puts `weight` tokens on the arc's place.
    pub fn produce_tokens(&self, places: &mut Vec<Place>)
        requires
            self@.place < old(places)@.len(),
            marking(old(places)@)[self@.place as int] + self@.weight <= u32::MAX,
        ensures
            final(places)@.len() == old(places)@.len(),
            names(final(places)@) == names(old(places)@),
            marking(final(places)@) == self@.produce(marking(old(places)@)),
    {
        let held = places[self.place].tokens();
        places[self.place].set_tokens(held + self.weight);
        assert(names(places@) =~= names(old(places)@));
        assert(marking(places@) =~= self@.produce(marking(old(places)@)));
    }
}

} // verus!
