use vstd::prelude::*;

verus! {

/// What a place is to the contracts: its name and how many tokens it holds.
pub struct PlaceView {
    pub name: Seq<char>,
    pub tokens: nat,
}

/// A named reservoir of tokens.
///
/// The count is read with [`Place::tokens`] and changed only through the arcs
/// that refer to the place.
#[derive(Debug)]
pub struct Place {
    tokens: u32,
    name: String,
}

impl View for Place {
    type V = PlaceView;

    closed spec fn view(&self) -> PlaceView {
        PlaceView { name: self.name@, tokens: self.tokens as nat }
    }
}

/// The token count of every place, in the order of the places.
pub open spec fn marking(places: Seq<Place>) -> Seq<nat> {
    Seq::new(places.len(), |p: int| places[p]@.tokens)
}

/// The name of every place, in the order of the places.
pub open spec fn names(places: Seq<Place>) -> Seq<Seq<char>> {
    Seq::new(places.len(), |p: int| places[p]@.name)
}

impl Place {
    /// A place called `name` that starts with `tokens` tokens.
    pub fn new(tokens: u32, name: &str) -> (place: Place)
        ensures
            place@.tokens == tokens,
            place@.name == name@,
    {
        Place { tokens, name: name.to_owned() }
    }

    /// The number of tokens the place holds now.
    pub fn tokens(&self) -> (count: u32)
        ensures
            count == self@.tokens,
    {
        self.tokens
    }

    /// The name the place was given.
    pub fn name(&self) -> (name: &str)
        ensures
            name@ == self@.name,
    {
        self.name.as_str()
    }

    /// Replaces the token count and leaves the name alone.
    pub(crate) fn set_tokens(&mut self, tokens: u32)
        ensures
            final(self)@.tokens == tokens,
            final(self)@.name == old(self)@.name,
    {
        self.tokens = tokens;
    }
}

} // verus!
