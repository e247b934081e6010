//! What holds of every stack, whatever its resources do.
//!
//! That unwinding is last in, first out is
//! [`lemma_unwinds_last_in_first_out`](crate::stack::lemma_unwinds_last_in_first_out).

use vstd::prelude::*;
use crate::context::{exit_answers, Context};
use crate::error::ContextResult;
use crate::stack::{
    contexts_of, handles_of, is_first_match, lemma_remove_keeps_well_formed,
    lemma_unwinds_last_in_first_out, suppressed, unwinds, well_formed, Handle, Registration,
};

verus! {

/// A resource that joins a stack is exited once when the stack unwinds, and
/// before every resource that was on the stack when it joined: the first
/// answer is its own, and the remaining answers are an unwinding of the
/// resources that were there before.
pub proof fn lemma_last_registered_exits_first<C: Context>(
    members: Seq<C>,
    joined: C,
    outcome: ContextResult,
    answers: Seq<bool>,
)
    ensures
        (unwinds(members.push(joined), outcome, answers) <==> {
            &&& answers.len() > 0
            &&& exit_answers(joined, outcome, answers.first())
            &&& unwinds(members, outcome, answers.drop_first())
        }),
{
    assert(members.push(joined).drop_last() =~= members);
}

/// An unwinding exits every resource exactly once, whatever the others
/// answer: there is one answer for each resource.
pub proof fn lemma_each_exits_once<C: Context>(
    members: Seq<C>,
    outcome: ContextResult,
    answers: Seq<bool>,
)
    requires
        unwinds(members, outcome, answers),
    ensures
        answers.len() == members.len(),
{
    lemma_unwinds_last_in_first_out(members, outcome, answers);
}

/// One resource that handles the outcome is enough for the stack to report
/// it handled, and the other resources are exited all the same.
pub proof fn lemma_one_suppression_suffices<C: Context>(
    members: Seq<C>,
    outcome: ContextResult,
    answers: Seq<bool>,
    k: int,
)
    requires
        unwinds(members, outcome, answers),
        0 <= k < answers.len(),
        answers[k],
    ensures
        suppressed(answers),
        answers.len() == members.len(),
        forall|j: int|
            0 <= j < members.len() ==> exit_answers(
                members[members.len() - 1 - j],
                outcome,
                #[trigger] answers[j],
            ),
{
    lemma_unwinds_last_in_first_out(members, outcome, answers);
}

/// The stack reports the outcome handled exactly if some resource handled
/// it.
pub proof fn lemma_suppressed_iff_some_answer(answers: Seq<bool>)
    ensures
        suppressed(answers) <==> exists|k: int| 0 <= k < answers.len() && #[trigger] answers[k],
{
}

/// Unwinding an empty stack exits nothing and handles nothing.
pub proof fn lemma_empty_unwinds_nothing<C: Context>(outcome: ContextResult, answers: Seq<bool>)
    ensures
        unwinds(Seq::<C>::empty(), outcome, answers) <==> answers.len() == 0,
        answers.len() == 0 ==> !suppressed(answers),
{
}

/// After a transfer the stack that gave its resources away unwinds to
/// nothing, and the stack that took them unwinds exactly as the first would
/// have: the same resources, under the same handles, in the same order.
pub proof fn lemma_transfer_keeps_unwinding<C: Context>(
    before: Seq<Registration<C>>,
    emptied: Seq<Registration<C>>,
    moved: Seq<Registration<C>>,
    outcome: ContextResult,
    answers: Seq<bool>,
)
    requires
        emptied.len() == 0,
        moved == before,
    ensures
        unwinds(contexts_of(emptied), outcome, answers) <==> answers.len() == 0,
        unwinds(contexts_of(moved), outcome, answers) <==> unwinds(
            contexts_of(before),
            outcome,
            answers,
        ),
        handles_of(moved) == handles_of(before),
{
}

/// Where the registration that stands at `position` once the one at `at` has
/// been taken out stood before.
pub open spec fn position_before_removal(at: int, position: int) -> int {
    if position < at {
        position
    } else {
        position + 1
    }
}

/// A resource taken off the stack by its handle is not exited when the stack
/// unwinds later: its handle is on the stack no more, and the answers of the
/// unwinding are those of the other resources, which unwind in the order
/// they had.
pub proof fn lemma_removed_never_exits<C: Context>(
    members: Seq<Registration<C>>,
    issued: nat,
    handle: Handle,
    at: int,
    outcome: ContextResult,
    answers: Seq<bool>,
)
    requires
        well_formed(members, issued),
        is_first_match(members, handle, at),
        unwinds(contexts_of(members.remove(at)), outcome, answers),
    ensures
        well_formed(members.remove(at), issued),
        !handles_of(members.remove(at)).contains(handle),
        answers.len() == members.len() - 1,
        (forall|k: int|
            0 <= k < answers.len() ==> {
                let i = position_before_removal(at, members.len() - 2 - k);
                &&& members[i].handle != handle
                &&& exit_answers(members[i].context, outcome, #[trigger] answers[k])
            }),
{
    let rest = members.remove(at);
    lemma_remove_keeps_well_formed(members, issued, at);
    assert forall|i: int| 0 <= i < rest.len() implies (#[trigger] rest[i]).handle != handle by {
        assert(rest[i] == members[position_before_removal(at, i)]);
    }
    lemma_unwinds_last_in_first_out(contexts_of(rest), outcome, answers);
    assert forall|k: int| 0 <= k < answers.len() implies {
        let i = position_before_removal(at, members.len() - 2 - k);
        &&& members[i].handle != handle
        &&& exit_answers(members[i].context, outcome, #[trigger] answers[k])
    } by {
        assert(rest[rest.len() - 1 - k] == members[position_before_removal(
            at,
            rest.len() - 1 - k,
        )]);
    }
}

/// A handle that a stack has given out and that is on the stack no more
/// stays off it: no later registration is made under it.
pub proof fn lemma_spent_handle_stays_off<C>(
    members: Seq<Registration<C>>,
    issued: nat,
    spent: Handle,
    handle: Handle,
    context: C,
)
    requires
        spent.serial < issued,
        !handles_of(members).contains(spent),
        handle.serial == issued,
    ensures
        !handles_of(members.push(Registration { handle, context })).contains(spent),
{
    let after = members.push(Registration { handle, context });
    assert forall|i: int| 0 <= i < handles_of(after).len() implies handles_of(after)[i]
        != spent by {
        if i < members.len() {
            assert(handles_of(members)[i] == members[i].handle);
        }
    }
}

} // verus!
