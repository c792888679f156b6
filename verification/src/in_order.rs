//! Going through a list in order, up to the first failure.

use vstd::prelude::*;

verus! {

/// A pass over `total` things, of which the first `done` are done with.
#[derive(Clone, Copy, Debug, PartialEq, Eq, Structural)]
pub struct InOrder {
    pub done: usize,
    pub total: usize,
}

impl InOrder {
    /// No more is done than there is.
    pub open spec fn wf(self) -> bool {
        self.done <= self.total
    }

    /// Where a pass stands after the outcome of its current position.
    pub open spec fn after<E>(self, outcome: Result<(), E>) -> InOrder {
        InOrder {
            done: if outcome is Ok {
                (self.done + 1) as usize
            } else {
                self.done
            },
            total: self.total,
        }
    }

    /// A pass that is yet to begin.
    pub fn new(total: usize) -> (pass: InOrder)
        ensures
            pass.wf(),
            pass == (InOrder { done: 0, total }),
    {
        InOrder { done: 0, total }
    }

    /// The position that is to be done with now, until all are.
    pub fn current(&self) -> (position: Option<usize>)
        requires
            self.wf(),
        ensures
            position == if self.done < self.total {
                Some(self.done)
            } else {
                None::<usize>
            },
    {
        if self.done < self.total {
            Some(self.done)
        } else {
            None
        }
    }

    /// Takes the outcome of the current position: a success moves on to the next one, a failure
    /// ends the pass and is handed back.
    pub fn advance<E>(&mut self, outcome: Result<(), E>) -> (outcome_of_pass: Result<(), E>)
        requires
            old(self).wf(),
            old(self).done < old(self).total,
        ensures
            final(self).wf(),
            *final(self) == old(self).after(outcome),
            outcome_of_pass == outcome,
            final(self).total == old(self).total,
            outcome is Ok ==> final(self).done == old(self).done + 1,
            outcome is Err ==> final(self).done == old(self).done,
    {
        if outcome.is_ok() {
            self.done = self.done + 1;
        }
        outcome
    }
}

/// Where a pass over `total` things stands after `outcomes`.
pub open spec fn after_all<E>(total: usize, outcomes: Seq<Result<(), E>>) -> InOrder
    decreases outcomes.len(),
{
    if outcomes.len() == 0 {
        InOrder { done: 0, total }
    } else {
        after_all(total, outcomes.drop_last()).after(outcomes.last())
    }
}

/// A pass takes the positions one by one, skips none, and stays at the first that fails.
pub proof fn lemma_stops_at_first_failure<E>(total: usize, outcomes: Seq<Result<(), E>>)
    requires
        outcomes.len() <= total,
        forall|i: int| 0 <= i < outcomes.len() - 1 ==> #[trigger] outcomes[i] is Ok,
    ensures
        after_all(total, outcomes).wf(),
        after_all(total, outcomes).total == total,
        after_all(total, outcomes).done == if outcomes.len() == 0 || outcomes.last() is Ok {
            outcomes.len() as int
        } else {
            outcomes.len() - 1
        },
    decreases outcomes.len(),
{
    if outcomes.len() > 0 {
        let earlier = outcomes.drop_last();
        if earlier.len() > 0 {
            assert(outcomes[outcomes.len() - 2] is Ok);
        }
        lemma_stops_at_first_failure(total, earlier);
    }
}

} // verus!
