use vstd::prelude::*;

verus! {

/// A predicate of no arguments.
pub(crate) trait Guard {
    /// The predicate can be asked.
    spec fn ready(&self) -> bool;

    /// The predicate may answer `answer`.
    spec fn admits(&self, answer: bool) -> bool;

    /// Asks the predicate.
    fn eval(&self) -> (answer: bool)
        requires
            self.ready(),
        ensures
            self.admits(answer),
    ;
}

/// A closure in the place of a guard.
pub(crate) struct FnGuard<F: Fn() -> bool> {
    pub(crate) func: F,
}

impl<F: Fn() -> bool> Guard for FnGuard<F> {
    open spec fn ready(&self) -> bool {
        call_requires(self.func, ())
    }

    open spec fn admits(&self, answer: bool) -> bool {
        call_ensures(self.func, (), answer)
    }

    fn eval(&self) -> (answer: bool) {
        (self.func)()
    }
}

/// The guard of a transition, or its absence. A guard that is held can always
/// be asked.
pub(crate) struct Expression<'a> {
    guard: Option<Box<dyn Guard + 'a>>,
}

impl<'a> Expression<'a> {
    #[verifier::type_invariant]
    spec fn guard_is_ready(self) -> bool {
        match self.guard {
            Some(guard) => guard.ready(),
            None => true,
        }
    }

    /// Asking may give `answer`. Without a guard only true is given.
    pub(crate) closed spec fn admits(&self, answer: bool) -> bool {
        match self.guard {
            Some(guard) => guard.admits(answer),
            None => answer,
        }
    }

    /// No guard.
    pub(crate) fn absent() -> (made: Self)
        ensures
            made.admits(true),
            !made.admits(false),
    {
        Expression { guard: None }
    }

    /// The guard `func`.
    pub(crate) fn of(func: impl Fn() -> bool + 'a) -> (made: Self)
        requires
            call_requires(func, ()),
        ensures
            made.admits(true) == call_ensures(func, (), true),
            made.admits(false) == call_ensures(func, (), false),
    {
        Expression { guard: Some(Box::new(FnGuard { func })) }
    }

    /// Asks the guard; true where there is none.
    pub(crate) fn eval(&self) -> (answer: bool)
        ensures
            self.admits(answer),
    {
        proof {
            use_type_invariant(self);
        }
        match &self.guard {
            Some(guard) => guard.eval(),
            None => true,
        }
    }
}

} // verus!
