//! The capability every scoped resource offers, and the helper that runs one
//! block inside one resource.

use vstd::prelude::*;
use crate::error::ContextResult;

verus! {

/// A scoped resource.
///
/// `enter` runs before the protected block. `exit` runs after it, is shown the
/// outcome of the block, and answers whether it has handled that outcome: an
/// answer of `true` asks the caller to treat the scope as closed successfully.
pub trait Context {
    /// Acquires the resource. Unless a resource says otherwise, this succeeds.
    fn enter(&mut self) -> (outcome: ContextResult)
        default_ensures
            outcome is Ok,
    {
        Ok(())
    }

    /// Releases the resource and answers whether `outcome` is suppressed.
    fn exit(&mut self, outcome: &ContextResult) -> (handled: bool);
}

/// `exit`, called on a resource in state `before` and shown `outcome`, can
/// answer `handled`.
pub open spec fn exit_answers<C: Context>(
    before: C,
    outcome: ContextResult,
    handled: bool,
) -> bool {
    exists|call: &mut C| *call == before && call_ensures(C::exit, (call, &outcome), handled)
}

/// A boxed resource of any type is a resource: both calls go to the value in
/// the box. This is what lets one stack hold resources of different types.
///
/// What the value in the box does is not known here; each call says that it
/// is one call of the same method on that value, and hands back its result.
impl Context for Box<dyn Context> {
    fn enter(&mut self) -> (outcome: ContextResult)
        ensures
            (exists|call: &mut dyn Context|
                {
                    &&& &*call == &**old(self)
                    &&& &*final(call) == &**final(self)
                    &&& is_enter_call(call, outcome)
                }),
    {
        enter_through(&mut **self)
    }

    fn exit(&mut self, outcome: &ContextResult) -> (handled: bool)
        ensures
            (exists|call: &mut dyn Context|
                {
                    &&& &*call == &**old(self)
                    &&& &*final(call) == &**final(self)
                    &&& is_exit_call(call, *outcome, handled)
                }),
    {
        exit_through(&mut **self, outcome)
    }
}

/// `call` is a call of `enter` that returned `outcome`. The resource may be
/// of a type whose size is not known, such as a trait object.
pub open spec fn is_enter_call<T: Context + ?Sized>(
    call: &mut T,
    outcome: ContextResult,
) -> bool {
    call_ensures(T::enter, (call,), outcome)
}

/// `call` is a call of `exit` that was shown `outcome` and answered
/// `handled`. The resource may be of a type whose size is not known.
pub open spec fn is_exit_call<T: Context + ?Sized>(
    call: &mut T,
    outcome: ContextResult,
    handled: bool,
) -> bool {
    call_ensures(T::exit, (call, &outcome), handled)
}

/// Enters `target` and returns what its `enter` returns.
fn enter_through<T: Context + ?Sized>(target: &mut T) -> (outcome: ContextResult)
    ensures
        (exists|call: &mut T|
            {
                &&& &*call == &*old(target)
                &&& &*final(call) == &*final(target)
                &&& is_enter_call(call, outcome)
            }),
{
    let outcome = target.enter();
    proof {
        let call = choose|call: &mut T|
            {
                &&& &*call == &*old(target)
                &&& &*final(call) == &*final(target)
                &&& call_ensures(T::enter, (call,), outcome)
            };
        assert(is_enter_call(call, outcome));
    }
    outcome
}

/// Exits `target`, showing it `outcome`, and answers what its `exit` answers.
fn exit_through<T: Context + ?Sized>(target: &mut T, outcome: &ContextResult) -> (handled: bool)
    ensures
        (exists|call: &mut T|
            {
                &&& &*call == &*old(target)
                &&& &*final(call) == &*final(target)
                &&& is_exit_call(call, *outcome, handled)
            }),
{
    let handled = target.exit(outcome);
    proof {
        let call = choose|call: &mut T|
            {
                &&& &*call == &*old(target)
                &&& &*final(call) == &*final(target)
                &&& call_ensures(T::exit, (call, outcome), handled)
            };
        assert(is_exit_call(call, *outcome, handled));
    }
    handled
}

/// Runs `block` inside `context`.
///
/// If `enter` fails, its failure is returned and neither `block` nor `exit`
/// runs. Otherwise `block` runs, then `exit` runs once and is shown what the
/// block returned; the result is success if `exit` handled that outcome and
/// the block's own outcome if it did not.
///
/// The block must accept the resource as a successful `enter` leaves it.
pub fn with<C, B>(context: &mut C, block: B) -> (result: ContextResult) where
    C: Context,
    B: FnOnce(&mut C) -> ContextResult,

    requires
        (forall|entering: &mut C, entered: ContextResult, running: &mut C|
            #![trigger call_ensures(C::enter, (entering,), entered), call_requires(block, (running,))]
            {
                &&& *entering == *old(context)
                &&& call_ensures(C::enter, (entering,), entered)
                &&& entered is Ok
                &&& *running == *final(entering)
            } ==> call_requires(block, (running,))),
    ensures
        (exists|entering: &mut C, entered: ContextResult|
            {
                &&& *entering == *old(context)
                &&& call_ensures(C::enter, (entering,), entered)
                &&& match entered {
                    Err(_) => result == entered && *final(context) == *final(entering),
                    Ok(()) => exists|
                        running: &mut C,
                        outcome: ContextResult,
                        leaving: &mut C,
                        handled: bool,
                    |
                        {
                            &&& *running == *final(entering)
                            &&& call_ensures(block, (running,), outcome)
                            &&& *leaving == *final(running)
                            &&& call_ensures(C::exit, (leaving, &outcome), handled)
                            &&& *final(context) == *final(leaving)
                            &&& result == if handled {
                                Ok(())
                            } else {
                                outcome
                            }
                        },
                }
            }),
{
    let entered = context.enter();
    match entered {
        Err(e) => Err(e),
        Ok(()) => {
            let outcome = block(context);
            if context.exit(&outcome) {
                Ok(())
            } else {
                outcome
            }
        },
    }
}

} // verus!
