//! A wrapper that carries what a scope guard does when it goes out of scope.

use vstd::prelude::*;
use crate::context::Context;
use crate::error::ContextResult;

verus! {

/// A resource wrapped so that it can be released without an outcome at hand.
///
/// Entering and exiting go straight to the wrapped resource. `release` is
/// what a guard's destructor calls: it exits the resource with a successful
/// outcome. A resource that was exited by hand and is then released has its
/// exit run twice.
pub struct DropContext<T: Context> {
    context: T,
}

impl<T: Context> DropContext<T> {
    /// The wrapped resource.
    pub closed spec fn context(&self) -> T {
        self.context
    }

    /// Wraps `o`, without entering it.
    pub fn new(o: T) -> (wrapped: Self)
        ensures
            wrapped.context() == o,
    {
        DropContext { context: o }
    }

    /// Exits the wrapped resource, showing it a successful outcome. What the
    /// resource answers is dropped.
    pub fn release(&mut self)
        ensures
            (exists|call: &mut T, handled: bool|
                {
                    &&& *call == old(self).context()
                    &&& *final(call) == final(self).context()
                    &&& call_ensures(T::exit, (call, &Ok(())), handled)
                }),
    {
        let outcome: ContextResult = Ok(());
        let _ = self.context.exit(&outcome);
    }
}

impl<T: Context> Context for DropContext<T> {
    /// Enters the wrapped resource.
    fn enter(&mut self) -> (outcome: ContextResult)
        ensures
            (exists|call: &mut T|
                {
                    &&& *call == old(self).context()
                    &&& *final(call) == final(self).context()
                    &&& call_ensures(T::enter, (call,), outcome)
                }),
    {
        self.context.enter()
    }

    /// Exits the wrapped resource with `outcome` and answers what it answers.
    fn exit(&mut self, outcome: &ContextResult) -> (handled: bool)
        ensures
            (exists|call: &mut T|
                {
                    &&& *call == old(self).context()
                    &&& *final(call) == final(self).context()
                    &&& call_ensures(T::exit, (call, outcome), handled)
                }),
    {
        self.context.exit(outcome)
    }
}

} // verus!
