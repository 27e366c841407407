//! A stack of rollback actions for reversible operations.
use vstd::prelude::*;

verus! {

/// Transaction is a rollback stack for reversible operations.
///
/// Each step that has succeeded can register the action that undoes it. On
/// error the actions are carried out in reverse order. An action is whatever
/// the owner can carry out: a function, or a description of the work.
pub struct Transaction<A> {
    /// The registered actions, oldest first.
    pub rollsbacks: Vec<A>,
    /// Whether the work has been made final.
    pub committed: bool,
}

/// `s`, last element first.
pub open spec fn backwards<A>(s: Seq<A>) -> Seq<A> {
    Seq::new(s.len(), |i: int| s[s.len() - 1 - i])
}

impl<A> Transaction<A> {
    /// A transaction with nothing to undo.
    pub fn new() -> (t: Self)
        ensures
            t.rollsbacks@ == Seq::<A>::empty(),
            !t.committed,
    {
        Transaction { rollsbacks: Vec::new(), committed: false }
    }

    /// Registers a new rollback action.
    pub fn add_rollback(&mut self, action: A)
        ensures
            final(self).rollsbacks@ == old(self).rollsbacks@.push(action),
            final(self).committed == old(self).committed,
    {
        self.rollsbacks.push(action);
    }

    /// Takes the action that is to be carried out next: the youngest one.
    pub fn next_rollback(&mut self) -> (action: Option<A>)
        ensures
            final(self).committed == old(self).committed,
            old(self).rollsbacks@.len() == 0 ==> action is None && final(self).rollsbacks@ == old(
                self,
            ).rollsbacks@,
            old(self).rollsbacks@.len() > 0 ==> action == Some(old(self).rollsbacks@.last())
                && final(self).rollsbacks@ == old(self).rollsbacks@.drop_last(),
    {
        self.rollsbacks.pop()
    }

    /// Marks the transaction as committed and clears the rollback stack.
    pub fn commit(&mut self)
        ensures
            final(self).rollsbacks@ == Seq::<A>::empty(),
            final(self).committed,
    {
        self.committed = true;
        self.rollsbacks.clear();
    }
}

impl<A: Fn() -> Result<(), String>> Transaction<A> {
    /// Calls every rollback action, in reverse order of registration. An action
    /// that fails does not keep the others from being called. The outcomes come
    /// back in the order of the calls, for the caller to report.
    pub fn rollback(&mut self) -> (outcomes: Vec<Result<(), String>>)
        requires
            forall|i: int|
                0 <= i < old(self).rollsbacks@.len() ==> call_requires(
                    #[trigger] old(self).rollsbacks@[i],
                    (),
                ),
        ensures
            final(self).rollsbacks@ == Seq::<A>::empty(),
            final(self).committed == old(self).committed,
            outcomes@.len() == old(self).rollsbacks@.len(),
            forall|i: int|
                0 <= i < outcomes@.len() ==> call_ensures(
                    backwards(old(self).rollsbacks@)[i],
                    (),
                    #[trigger] outcomes@[i],
                ),
    {
        let mut outcomes: Vec<Result<(), String>> = Vec::new();
        let ghost all = self.rollsbacks@;
        let ghost done = self.committed;
        while self.rollsbacks.len() > 0
            invariant
                self.committed == done,
                self.rollsbacks@ == all.take(all.len() - outcomes@.len()),
                outcomes@.len() <= all.len(),
                forall|i: int|
                    0 <= i < all.len() ==> call_requires(#[trigger] all[i], ()),
                forall|i: int|
                    0 <= i < outcomes@.len() ==> call_ensures(
                        backwards(all)[i],
                        (),
                        #[trigger] outcomes@[i],
                    ),
            decreases self.rollsbacks@.len(),
        {
            let ghost n = all.len() - outcomes@.len();
            match self.next_rollback() {
                Some(action) => {
                    assert(action == all[n - 1]);
                    let outcome = action();
                    assert(backwards(all)[outcomes@.len() as int] == action);
                    outcomes.push(outcome);
                    assert(all.take(n).drop_last() =~= all.take(n - 1));
                },
                None => {},
            }
        }
        assert(self.rollsbacks@ =~= Seq::<A>::empty());
        outcomes
    }
}

} // verus!
