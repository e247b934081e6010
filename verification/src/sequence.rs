//! Resources whose entry and exit are the two steps of one sequence.

use vstd::prelude::*;
use vstd::pervasive::unreached;
use vstd::std_specs::iter::IteratorSpec;
use crate::error::{ContextError, ContextErrorType, ContextResult};

verus! {

/// The outcome of entering a sequence-backed resource, given its first pull:
/// the value pulled, or an `IterEnterError` if there was none.
pub fn enter_outcome(first: Option<ContextResult>) -> (outcome: ContextResult)
    ensures
        (match first {
            Some(pulled) => outcome == pulled,
            None => {
                &&& outcome matches Err(e)
                &&& e.kind() == ContextErrorType::IterEnterError
                &&& e.spec_message() == "None returned on enter"@
            },
        }),
{
    match first {
        Some(pulled) => pulled,
        None => Err(ContextError::new(ContextErrorType::IterEnterError, "None returned on enter")),
    }
}

/// The answer of exiting a sequence-backed resource, given its second pull,
/// which must have found the sequence exhausted: the outcome is never
/// handled.
pub fn exit_answer(second: Option<ContextResult>) -> (handled: bool)
    requires
        second is None,
    ensures
        !handled,
{
    match second {
        None => false,
        Some(_) => unreached(),
    }
}

/// A resource driven by a sequence of at most one value.
///
/// The first pull is the entry and gives its outcome. The second pull is the
/// exit and must find the sequence exhausted: a sequence that yields a second
/// value has broken the protocol, and its state is no longer known.
///
/// A type that implements this trait implements [`crate::Context`] by
/// handing `enter` and `exit` on to the methods here.
pub trait IterContext: Iterator<Item = ContextResult> {
    /// Pulls once and returns what was pulled, or an `IterEnterError` if the
    /// sequence was exhausted from the start.
    fn enter(&mut self) -> (outcome: ContextResult)
        default_ensures
            (<Self as IteratorSpec>::obeys_prophetic_iter_laws(old(self)) ==> {
                let remaining = <Self as IteratorSpec>::remaining(old(self));
                if remaining.len() > 0 {
                    &&& outcome == remaining[0]
                    &&& <Self as IteratorSpec>::remaining(final(self)) == remaining.drop_first()
                } else {
                    &&& outcome matches Err(e)
                    &&& e.kind() == ContextErrorType::IterEnterError
                    &&& e.spec_message() == "None returned on enter"@
                    &&& <Self as IteratorSpec>::remaining(final(self)) == remaining
                }
            }),
    {
        let first = self.next();
        enter_outcome(first)
    }

    /// Pulls once more, finds the sequence exhausted, and leaves the outcome
    /// unhandled.
    fn exit(&mut self, outcome: &ContextResult) -> (handled: bool)
        requires
            <Self as IteratorSpec>::obeys_prophetic_iter_laws(old(self)),
            <Self as IteratorSpec>::remaining(old(self)).len() == 0,
        default_ensures
            !handled,
            <Self as IteratorSpec>::obeys_prophetic_iter_laws(final(self)),
            <Self as IteratorSpec>::remaining(final(self)) == <Self as IteratorSpec>::remaining(
                old(self),
            ),
            <Self as IteratorSpec>::will_return_none(final(self)),
    {
        let second = self.next();
        exit_answer(second)
    }
}

} // verus!
