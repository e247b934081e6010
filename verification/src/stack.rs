//! A stack of entered resources that exits them all, most recent first.

use vstd::prelude::*;
use crate::callback::ExitCallback;
use crate::context::{exit_answers, Context};
use crate::error::{ContextError, ContextResult};

verus! {

/// Names one registration on an [`ExitStack`].
///
/// A stack numbers its registrations from zero and never reuses a number, so
/// a handle kept after its resource has left the stack matches nothing.
#[derive(Clone, Copy, Debug, PartialEq, Eq, Structural)]
pub struct Handle {
    pub serial: u64,
}

/// A resource on the stack, with the handle it was registered under.
pub struct Registration<C> {
    pub handle: Handle,
    pub context: C,
}

/// The handles of `members`, in registration order.
pub open spec fn handles_of<C>(members: Seq<Registration<C>>) -> Seq<Handle> {
    members.map_values(|r: Registration<C>| r.handle)
}

/// The resources of `members`, in registration order.
pub open spec fn contexts_of<C>(members: Seq<Registration<C>>) -> Seq<C> {
    members.map_values(|r: Registration<C>| r.context)
}

/// Every handle among `members` is one of the first `issued` handles, and
/// none occurs twice.
pub open spec fn well_formed<C>(members: Seq<Registration<C>>, issued: nat) -> bool {
    &&& forall|i: int| 0 <= i < members.len() ==> (#[trigger] members[i]).handle.serial < issued
    &&& forall|i: int, j: int|
        0 <= i < j < members.len() ==> (#[trigger] members[i]).handle != (
        #[trigger] members[j]).handle
}

/// `at` is the position of the first of `members` registered under `handle`.
pub open spec fn is_first_match<C>(
    members: Seq<Registration<C>>,
    handle: Handle,
    at: int,
) -> bool {
    &&& 0 <= at < members.len()
    &&& members[at].handle == handle
    &&& forall|j: int| 0 <= j < at ==> members[j].handle != handle
}

/// `answers` is what the resources `members` can answer when they are exited
/// one after the other, each shown `outcome`: the resource registered last is
/// exited first and gives the first answer, then the others unwind in the
/// same way. Every resource is exited, whatever the ones before it answered.
pub open spec fn unwinds<C: Context>(
    members: Seq<C>,
    outcome: ContextResult,
    answers: Seq<bool>,
) -> bool
    decreases members.len(),
{
    if members.len() == 0 {
        answers.len() == 0
    } else {
        &&& answers.len() > 0
        &&& exit_answers(members.last(), outcome, answers.first())
        &&& unwinds(members.drop_last(), outcome, answers.drop_first())
    }
}

/// Whether any of `answers` asks for the outcome to be suppressed.
pub open spec fn suppressed(answers: Seq<bool>) -> bool {
    answers.contains(true)
}

/// One more answer suppresses the outcome exactly if it does so itself or
/// the answers before it did: the answers are combined with "or".
pub proof fn lemma_suppressed_accumulates(answers: Seq<bool>, answer: bool)
    ensures
        suppressed(answers.push(answer)) == (suppressed(answers) || answer),
{
    let all = answers.push(answer);
    if suppressed(answers) {
        let k = choose|k: int| 0 <= k < answers.len() && answers[k] == true;
        assert(all[k] == true);
    }
    if answer {
        assert(all[answers.len() as int] == true);
    }
    if suppressed(all) {
        let k = choose|k: int| 0 <= k < all.len() && all[k] == true;
        assert(k < answers.len() ==> answers[k] == true);
    }
}

/// Unwinding is last in, first out: there are as many answers as resources,
/// and the answer at position `k` comes from the resource registered `k`
/// places before the end. Conversely, answers that fit this description are
/// an unwinding.
pub proof fn lemma_unwinds_last_in_first_out<C: Context>(
    members: Seq<C>,
    outcome: ContextResult,
    answers: Seq<bool>,
)
    ensures
        (unwinds(members, outcome, answers) <==> {
            &&& answers.len() == members.len()
            &&& forall|k: int|
                0 <= k < members.len() ==> exit_answers(
                    members[members.len() - 1 - k],
                    outcome,
                    #[trigger] answers[k],
                )
        }),
    decreases members.len(),
{
    if members.len() > 0 && answers.len() > 0 {
        let rest = members.drop_last();
        let later = answers.drop_first();
        lemma_unwinds_last_in_first_out(rest, outcome, later);
        if unwinds(members, outcome, answers) {
            assert forall|k: int| 0 <= k < members.len() implies exit_answers(
                members[members.len() - 1 - k],
                outcome,
                #[trigger] answers[k],
            ) by {
                if k > 0 {
                    assert(later[k - 1] == answers[k]);
                }
            }
        }
    }
}

/// What a sequence of registrations looks like after one more is added.
pub proof fn lemma_push_shape<C>(before: Seq<Registration<C>>, handle: Handle, context: C)
    ensures
        ({
            let after = before.push(Registration { handle, context });
            &&& after.len() == before.len() + 1
            &&& after.drop_last() == before
            &&& after.last().handle == handle
            &&& after.last().context == context
        }),
{
}

/// A registration under a handle that has not been given out yet keeps a
/// well-formed sequence well formed.
pub proof fn lemma_push_keeps_well_formed<C>(
    before: Seq<Registration<C>>,
    issued: nat,
    handle: Handle,
    context: C,
)
    requires
        well_formed(before, issued),
        handle.serial == issued,
    ensures
        well_formed(before.push(Registration { handle, context }), issued + 1),
{
}

/// Taking one registration out keeps a well-formed sequence well formed.
pub proof fn lemma_remove_keeps_well_formed<C>(before: Seq<Registration<C>>, issued: nat, at: int)
    requires
        well_formed(before, issued),
        0 <= at < before.len(),
    ensures
        well_formed(before.remove(at), issued),
{
}

/// An ordered collection of entered resources.
///
/// Resources are kept in registration order and exited in the reverse order.
/// The stack owns its resources; a caller keeps the [`Handle`] of a
/// registration to take that resource off the stack again.
///
/// A stack of boxed resources, `ExitStack<Box<dyn Context>>`, holds resources
/// of different types.
pub struct ExitStack<C: Context> {
    stack: Vec<Registration<C>>,
    issued: u64,
}

impl<C: Context> View for ExitStack<C> {
    type V = Seq<Registration<C>>;

    closed spec fn view(&self) -> Seq<Registration<C>> {
        self.stack@
    }
}

impl<C: Context> ExitStack<C> {
    /// How many handles this stack has given out so far.
    pub closed spec fn issued(&self) -> nat {
        self.issued as nat
    }

    /// Every handle on the stack was given out by this stack, and none
    /// occurs twice. A new stack is well formed, and every operation keeps a
    /// well-formed stack well formed.
    pub open spec fn wf(&self) -> bool {
        well_formed(self@, self.issued())
    }

    /// An empty stack.
    pub fn new() -> (stack: Self)
        ensures
            stack@.len() == 0,
            stack.issued() == 0,
            stack.wf(),
    {
        ExitStack { stack: Vec::new(), issued: 0 }
    }

    /// Whether the stack can still give out a handle.
    pub fn has_room(&self) -> (room: bool)
        ensures
            room == (self.issued() < u64::MAX),
    {
        self.issued < u64::MAX
    }

    /// Enters `context` and, if that succeeds, puts it on the stack as `enter`
    /// left it and returns its handle. If `enter` fails, its failure is
    /// returned and the stack is as it was: a resource that did not finish
    /// entering is not tracked, and the resources entered before it stay
    /// entered.
    pub fn enter_context(&mut self, context: C) -> (entered: Result<Handle, ContextError>)
        requires
            old(self).issued() < u64::MAX,
        ensures
            old(self).wf() ==> final(self).wf(),
            (exists|call: &mut C, outcome: ContextResult|
                {
                    &&& *call == context
                    &&& call_ensures(C::enter, (call,), outcome)
                    &&& match outcome {
                        Ok(_) => {
                            &&& entered matches Ok(handle)
                            &&& handle.serial == old(self).issued()
                            &&& final(self).issued() == old(self).issued() + 1
                            &&& final(self)@ == old(self)@.push(
                                Registration { handle, context: *final(call) },
                            )
                        },
                        Err(failure) => {
                            &&& entered matches Err(returned)
                            &&& returned == failure
                            &&& final(self).issued() == old(self).issued()
                            &&& final(self)@ == old(self)@
                        },
                    }
                }),
    {
        let mut context = context;
        match context.enter() {
            Ok(()) => Ok(self.push(context)),
            Err(failure) => Err(failure),
        }
    }

    /// Puts `context`, which the caller has already entered, on the stack
    /// without entering it, and returns the handle it is registered under.
    pub fn push(&mut self, context: C) -> (handle: Handle)
        requires
            old(self).issued() < u64::MAX,
        ensures
            handle.serial == old(self).issued(),
            final(self).issued() == old(self).issued() + 1,
            final(self)@ == old(self)@.push(Registration { handle, context }),
            old(self).wf() ==> final(self).wf(),
    {
        let handle = Handle { serial: self.issued };
        proof {
            if self.wf() {
                lemma_push_keeps_well_formed(self@, self.issued(), handle, context);
            }
        }
        self.issued = self.issued + 1;
        self.stack.push(Registration { handle, context });
        handle
    }

    /// Takes the first resource registered under `handle` off the stack and
    /// returns it, without exiting it. The others keep their order. If no
    /// resource is registered under `handle`, nothing changes.
    pub fn remove(&mut self, handle: Handle) -> (removed: Option<C>)
        ensures
            old(self).wf() ==> final(self).wf(),
            final(self).issued() == old(self).issued(),
            (match removed {
                Some(context) => exists|at: int|
                    {
                        &&& is_first_match(old(self)@, handle, at)
                        &&& context == old(self)@[at].context
                        &&& final(self)@ == old(self)@.remove(at)
                    },
                None => !handles_of(old(self)@).contains(handle) && final(self)@ == old(self)@,
            }),
    {
        let mut i: usize = 0;
        while i < self.stack.len()
            invariant
                i <= self.stack.len(),
                self.stack == old(self).stack,
                self.issued == old(self).issued,
                forall|j: int| 0 <= j < i ==> (#[trigger] self.stack[j]).handle != handle,
            decreases self.stack.len() - i,
        {
            if self.stack[i].handle.serial == handle.serial {
                proof {
                    if self.wf() {
                        lemma_remove_keeps_well_formed(self@, self.issued(), i as int);
                    }
                }
                let registration = self.stack.remove(i);
                return Some(registration.context);
            }
            i = i + 1;
        }
        None
    }

    /// Moves every resource to a new stack, in the same order and under the
    /// same handles, and returns that stack. This stack is left empty and is
    /// no longer responsible for them; no resource is exited. Both stacks go
    /// on numbering their registrations where this one had come to.
    pub fn pop_all(&mut self) -> (moved: ExitStack<C>)
        ensures
            moved@ == old(self)@,
            moved.issued() == old(self).issued(),
            old(self).wf() ==> moved.wf(),
            final(self)@.len() == 0,
            final(self).issued() == old(self).issued(),
            final(self).wf(),
    {
        let mut moved = ExitStack { stack: Vec::new(), issued: self.issued };
        std::mem::swap(&mut self.stack, &mut moved.stack);
        moved
    }

    /// Exits every resource on the stack, most recently registered first,
    /// showing each the same `outcome`, and answers whether any of them
    /// handled it. Every resource is exited, also after one has handled the
    /// outcome. The resources stay on the stack; the caller empties it.
    fn rollback(&mut self, outcome: &ContextResult) -> (handled: bool)
        ensures
            final(self).issued() == old(self).issued(),
            final(self)@.len() == old(self)@.len(),
            (exists|answers: Seq<bool>|
                {
                    &&& unwinds(contexts_of(old(self)@), *outcome, answers)
                    &&& handled == suppressed(answers)
                }),
    {
        let ghost members = contexts_of(self@);
        let ghost mut answers: Seq<bool> = Seq::empty();
        let mut handled = false;
        let mut i: usize = self.stack.len();
        while i > 0
            invariant
                i <= self.stack.len(),
                self.stack.len() == members.len(),
                self.issued == old(self).issued,
                answers.len() == members.len() - i,
                handled == suppressed(answers),
                forall|j: int| 0 <= j < i ==> (#[trigger] self.stack[j]).context == members[j],
                forall|k: int|
                    0 <= k < answers.len() ==> exit_answers(
                        members[members.len() - 1 - k],
                        *outcome,
                        #[trigger] answers[k],
                    ),
            decreases i,
        {
            i = i - 1;
            let ghost earlier = answers;
            let answer = self.stack[i].context.exit(outcome);
            proof {
                answers = earlier.push(answer);
                lemma_suppressed_accumulates(earlier, answer);
            }
            if answer {
                handled = true;
            }
        }
        proof {
            lemma_unwinds_last_in_first_out(members, *outcome, answers);
        }
        handled
    }

    /// Exits every resource on the stack, most recently registered first,
    /// showing each a successful outcome, and empties the stack. What the
    /// resources answer is dropped. The stack can be filled and closed again
    /// afterwards.
    pub fn close(&mut self)
        ensures
            final(self)@.len() == 0,
            final(self).issued() == old(self).issued(),
            final(self).wf(),
            exists|answers: Seq<bool>| unwinds(contexts_of(old(self)@), Ok(()), answers),
    {
        let outcome: ContextResult = Ok(());
        let _ = self.rollback(&outcome);
        self.stack = Vec::new();
    }
}

impl ExitStack<Box<dyn Context>> {
    /// Registers `f` as a resource that does nothing on entry and calls `f`
    /// on exit, without entering it, and returns the handle it is registered
    /// under, so that this one registration can be removed again.
    ///
    /// The resource is an [`ExitCallback`] in a box, and what is in a box is
    /// not known to the stack. On a stack whose resources are all callbacks,
    /// `push(ExitCallback::new(f))` registers the same resource and says so.
    pub fn callback<F>(&mut self, f: F) -> (handle: Handle) where
        F: Fn(&ContextResult) -> bool + 'static,

        requires
            old(self).issued() < u64::MAX,
            forall|outcome: &ContextResult| call_requires(f, (outcome,)),
        ensures
            handle.serial == old(self).issued(),
            final(self).issued() == old(self).issued() + 1,
            final(self)@.len() == old(self)@.len() + 1,
            final(self)@.drop_last() == old(self)@,
            final(self)@.last().handle == handle,
            old(self).wf() ==> final(self).wf(),
    {
        let context: Box<dyn Context> = Box::new(ExitCallback::new(f));
        proof {
            lemma_push_shape(self@, Handle { serial: self.issued }, context);
        }
        self.push(context)
    }
}

/// A stack is itself a resource, so stacks can be nested.
impl<C: Context> Context for ExitStack<C> {
    /// Entering has no effect and succeeds.
    fn enter(&mut self) -> (outcome: ContextResult)
        ensures
            outcome is Ok,
            *final(self) == *old(self),
    {
        Ok(())
    }

    /// Exits every resource on the stack, most recently registered first,
    /// showing each the same `outcome`, empties the stack, and answers
    /// whether any resource handled the outcome.
    fn exit(&mut self, outcome: &ContextResult) -> (handled: bool)
        ensures
            final(self)@.len() == 0,
            final(self).issued() == old(self).issued(),
            final(self).wf(),
            (exists|answers: Seq<bool>|
                {
                    &&& unwinds(contexts_of(old(self)@), *outcome, answers)
                    &&& handled == suppressed(answers)
                }),
    {
        let handled = self.rollback(outcome);
        self.stack = Vec::new();
        handled
    }
}

} // verus!
