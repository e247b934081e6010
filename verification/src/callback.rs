//! A resource whose exit is a stored closure.

use vstd::prelude::*;
use crate::context::Context;
use crate::error::ContextResult;

verus! {

/// A resource that does nothing on entry and calls a closure on exit.
///
/// It lets a plain cleanup action stand among other resources on a stack.
pub struct ExitCallback<F: Fn(&ContextResult) -> bool> {
    callback: F,
}

impl<F: Fn(&ContextResult) -> bool> ExitCallback<F> {
    /// The closure can be called on every outcome.
    #[verifier::type_invariant]
    pub closed spec fn callable(&self) -> bool {
        forall|outcome: &ContextResult| call_requires(self.callback, (outcome,))
    }

    /// The closure that `exit` calls.
    pub closed spec fn callback(&self) -> F {
        self.callback
    }

    /// A resource whose exit calls `f` with the outcome and answers what `f`
    /// returns.
    pub fn new(f: F) -> (context: Self)
        requires
            forall|outcome: &ContextResult| call_requires(f, (outcome,)),
        ensures
            context.callback() == f,
    {
        ExitCallback { callback: f }
    }
}

impl<F: Fn(&ContextResult) -> bool> Context for ExitCallback<F> {
    /// Entering has no effect and succeeds.
    fn enter(&mut self) -> (outcome: ContextResult)
        ensures
            outcome is Ok,
            *final(self) == *old(self),
    {
        Ok(())
    }

    /// Calls the closure with `outcome` and answers what it returns.
    fn exit(&mut self, outcome: &ContextResult) -> (handled: bool)
        ensures
            call_ensures(old(self).callback(), (outcome,), handled),
            *final(self) == *old(self),
    {
        proof {
            use_type_invariant(&*self);
        }
        (self.callback)(outcome)
    }
}

} // verus!
