//! The bookkeeping of a run over a stream of records: what to do with each
//! record once it has been looked at, and how many were rewritten.
//!
//! A run is strictly sequential and ends at the first record that cannot be
//! rewritten. The driver reads and writes nothing itself: its caller hands it
//! each record that was read and does with the record what the driver says.

use crate::rewrite::{is_rewrite, outcome_of, rewrite, RewriteError, RewriteOutcome};
use rust_htslib::bam::Record;
use vstd::prelude::*;

verus! {

/// What the caller does with a record that the driver has looked at.
#[derive(Clone, Copy, Debug, PartialEq, Eq, Structural)]
pub enum Action {
    /// Write the record out and go on with the next.
    Forward,
    /// Write nothing more and end the run.
    Abort(RewriteError),
}

/// How many of `outcomes` are `Rewritten`.
pub open spec fn rewritten_among(outcomes: Seq<RewriteOutcome>) -> nat
    decreases outcomes.len(),
{
    if outcomes.len() == 0 {
        0
    } else {
        rewritten_among(outcomes.drop_last()) + if outcomes.last() is Rewritten {
            1nat
        } else {
            0nat
        }
    }
}

/// The failure that has ended a run with these outcomes, if the last of them
/// is one.
pub open spec fn failure_among(outcomes: Seq<RewriteOutcome>) -> Option<RewriteError> {
    if outcomes.len() > 0 {
        match outcomes.last() {
            RewriteOutcome::Failed(error) => Some(error),
            _ => None,
        }
    } else {
        None
    }
}

/// Whether none of `outcomes` but the last is a failure.
pub open spec fn fails_last(outcomes: Seq<RewriteOutcome>) -> bool {
    forall|i: int| 0 <= i < outcomes.len() - 1 ==> !((#[trigger] outcomes[i]) is Failed)
}

/// The action that follows an outcome: a failure ends the run, every other
/// record is written out.
pub open spec fn action_for(outcome: RewriteOutcome) -> Action {
    match outcome {
        RewriteOutcome::Failed(error) => Action::Abort(error),
        _ => Action::Forward,
    }
}

/// The state of a run: the number of records rewritten so far, and the
/// failure that has ended it.
pub struct Driver {
    rewritten: u64,
    failure: Option<RewriteError>,
    outcomes: Ghost<Seq<RewriteOutcome>>,
}

impl Driver {
    /// The outcomes of the records looked at so far, in their order.
    pub closed spec fn history(&self) -> Seq<RewriteOutcome> {
        self.outcomes@
    }

    /// The count is the number of records that were rewritten, and a failure
    /// is the last thing that a run sees.
    #[verifier::type_invariant]
    spec fn agrees_with_history(&self) -> bool {
        &&& self.rewritten == rewritten_among(self.outcomes@)
        &&& self.failure == failure_among(self.outcomes@)
        &&& fails_last(self.outcomes@)
    }

    /// A run that has seen no record.
    pub fn new() -> (driver: Driver)
        ensures
            driver.history() == Seq::<RewriteOutcome>::empty(),
    {
        Driver { rewritten: 0, failure: None, outcomes: Ghost(Seq::empty()) }
    }

    /// The number of records rewritten so far.
    pub fn rewritten(&self) -> (count: u64)
        ensures
            count == rewritten_among(self.history()),
    {
        proof {
            use_type_invariant(self);
        }
        self.rewritten
    }

    /// The failure that has ended the run, if one has. In every run a failure
    /// is the last outcome: no record is looked at after one that could not
    /// be rewritten.
    pub fn failure(&self) -> (failure: Option<RewriteError>)
        ensures
            failure == failure_among(self.history()),
            fails_last(self.history()),
    {
        proof {
            use_type_invariant(self);
        }
        self.failure
    }

    /// Takes note of the outcome of one record and says what to do with the
    /// record. A run that has failed takes note of nothing more and says
    /// again why it ended. The count must have room for one more.
    pub fn note(&mut self, outcome: RewriteOutcome) -> (action: Action)
        requires
            rewritten_among(old(self).history()) < u64::MAX,
        ensures
            match failure_among(old(self).history()) {
                Some(error) => final(self).history() == old(self).history() && action
                    == Action::Abort(error),
                None => final(self).history() == old(self).history().push(outcome) && action
                    == action_for(outcome) && rewritten_among(final(self).history())
                    == rewritten_among(old(self).history()) + if outcome is Rewritten {
                    1nat
                } else {
                    0nat
                },
            },
    {
        proof {
            use_type_invariant(&*self);
        }
        if let Some(error) = self.failure {
            return Action::Abort(error);
        }
        let ghost seen = self.outcomes@.push(outcome);
        proof {
            assert(seen.drop_last() =~= self.outcomes@);
            assert forall|i: int| 0 <= i < seen.len() - 1 implies !((#[trigger] seen[i]) is Failed) by {
                assert(seen[i] == self.outcomes@[i]);
            }
        }
        let (count, failure, action): (u64, Option<RewriteError>, Action) = match outcome {
            RewriteOutcome::Unchanged => (self.rewritten, None, Action::Forward),
            RewriteOutcome::Rewritten => (self.rewritten + 1, None, Action::Forward),
            RewriteOutcome::Failed(error) => (self.rewritten, Some(error), Action::Abort(error)),
        };
        *self = Driver { rewritten: count, failure, outcomes: Ghost(seen) };
        action
    }

    /// Rewrites one record where it is to be rewritten, takes note of the
    /// outcome and says what to do with the record. A run that has failed
    /// leaves the record alone and says again why it ended. The count must
    /// have room for one more.
    pub fn process(&mut self, record: &mut Record) -> (action: Action)
        requires
            rewritten_among(old(self).history()) < u64::MAX,
        ensures
            match failure_among(old(self).history()) {
                Some(error) => {
                    &&& final(self).history() == old(self).history()
                    &&& action == Action::Abort(error)
                    &&& *final(record) == *old(record)
                },
                None => {
                    let outcome = outcome_of(*old(record));
                    &&& final(self).history() == old(self).history().push(outcome)
                    &&& action == action_for(outcome)
                    &&& rewritten_among(final(self).history()) == rewritten_among(
                        old(self).history(),
                    ) + if outcome is Rewritten {
                        1nat
                    } else {
                        0nat
                    }
                    &&& outcome is Rewritten ==> is_rewrite(*old(record), *final(record))
                    &&& !(outcome is Rewritten) ==> *final(record) == *old(record)
                },
            },
    {
        if let Some(error) = self.failure() {
            return Action::Abort(error);
        }
        let outcome = rewrite(record);
        self.note(outcome)
    }
}

} // verus!
