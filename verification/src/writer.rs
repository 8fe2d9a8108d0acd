//! The atomic two-row write as a sequence of decisions: which step storage
//! is asked to take next, given how the last one went. Whoever holds the
//! storage takes the steps; the decisions are made here.

use vstd::prelude::*;

verus! {

/// A step that storage is asked to take.
#[derive(Clone, Copy, PartialEq, Eq, Structural, Debug, Hash)]
pub enum Step {
    /// Open a transaction.
    Begin,
    /// Insert the company row.
    InsertCompany,
    /// Insert the application row.
    InsertApplication,
    /// Commit the transaction.
    Commit,
    /// Take back what the transaction has written.
    RollBack,
}

/// Where a write stands.
#[derive(Clone, Copy, PartialEq, Eq, Structural, Debug, Hash)]
pub enum Writing {
    /// Storage is asked to take this step, and its outcome is awaited.
    Asking(Step),
    /// The write is over and both rows are there.
    Committed,
    /// The write is over and neither row is there.
    Aborted,
}

impl Writing {
    /// A write at its beginning.
    pub open spec fn start() -> Writing {
        Writing::Asking(Step::Begin)
    }

    /// Where the write stands once the step it asked for has succeeded or
    /// failed. The rows are inserted company first; a commit is asked for
    /// only after both inserts succeeded; an insert that fails is answered by
    /// a rollback and nothing else; no step is asked for twice. A write that
    /// is over stays as it is.
    pub open spec fn after(self, succeeded: bool) -> Writing {
        match self {
            Writing::Asking(Step::Begin) => if succeeded {
                Writing::Asking(Step::InsertCompany)
            } else {
                Writing::Aborted
            },
            Writing::Asking(Step::InsertCompany) => if succeeded {
                Writing::Asking(Step::InsertApplication)
            } else {
                Writing::Asking(Step::RollBack)
            },
            Writing::Asking(Step::InsertApplication) => if succeeded {
                Writing::Asking(Step::Commit)
            } else {
                Writing::Asking(Step::RollBack)
            },
            Writing::Asking(Step::Commit) => if succeeded {
                Writing::Committed
            } else {
                Writing::Aborted
            },
            Writing::Asking(Step::RollBack) => Writing::Aborted,
            Writing::Committed => Writing::Committed,
            Writing::Aborted => Writing::Aborted,
        }
    }

    /// The most steps that can still be asked for.
    pub open spec fn steps_left(self) -> nat {
        match self {
            Writing::Asking(Step::Begin) => 4,
            Writing::Asking(Step::InsertCompany) => 3,
            Writing::Asking(Step::InsertApplication) => 2,
            Writing::Asking(Step::Commit) => 1,
            Writing::Asking(Step::RollBack) => 1,
            Writing::Committed => 0,
            Writing::Aborted => 0,
        }
    }

    /// Where the write stands after the steps it asked for, one after the
    /// other, went as `outcomes` says.
    pub open spec fn run(outcomes: Seq<bool>) -> Writing
        decreases outcomes.len(),
    {
        if outcomes.len() == 0 {
            Writing::start()
        } else {
            Writing::run(outcomes.drop_last()).after(outcomes.last())
        }
    }

    /// A write at its beginning: it asks for a transaction.
    pub fn begin() -> (writing: Writing)
        ensures
            writing == Writing::start(),
    {
        Writing::Asking(Step::Begin)
    }

    /// The step that storage is asked to take, unless the write is over.
    pub fn step(&self) -> (step: Option<Step>)
        ensures
            step == match *self {
                Writing::Asking(step) => Some(step),
                _ => None,
            },
    {
        match self {
            Writing::Asking(step) => Some(*step),
            _ => None,
        }
    }

    /// Whether the write is over.
    pub fn is_over(&self) -> (over: bool)
        ensures
            over == (*self !is Asking),
    {
        match self {
            Writing::Asking(_) => false,
            _ => true,
        }
    }

    /// Whether the write is over with both rows written.
    pub fn is_committed(&self) -> (committed: bool)
        ensures
            committed == (*self == Writing::Committed),
    {
        match self {
            Writing::Committed => true,
            _ => false,
        }
    }

    /// Takes the outcome of the step that was asked for and says where the
    /// write stands now.
    pub fn next(self, succeeded: bool) -> (writing: Writing)
        ensures
            writing == self.after(succeeded),
    {
        match self {
            Writing::Asking(Step::Begin) => if succeeded {
                Writing::Asking(Step::InsertCompany)
            } else {
                Writing::Aborted
            },
            Writing::Asking(Step::InsertCompany) => if succeeded {
                Writing::Asking(Step::InsertApplication)
            } else {
                Writing::Asking(Step::RollBack)
            },
            Writing::Asking(Step::InsertApplication) => if succeeded {
                Writing::Asking(Step::Commit)
            } else {
                Writing::Asking(Step::RollBack)
            },
            Writing::Asking(Step::Commit) => if succeeded {
                Writing::Committed
            } else {
                Writing::Aborted
            },
            Writing::Asking(Step::RollBack) => Writing::Aborted,
            Writing::Committed => Writing::Committed,
            Writing::Aborted => Writing::Aborted,
        }
    }
}

/// Nothing is retried and every write ends: each outcome brings a write that
/// is not over closer to its end, and four outcomes end any write.
pub proof fn lemma_write_ends(writing: Writing, succeeded: bool, outcomes: Seq<bool>)
    ensures
        writing is Asking ==> writing.after(succeeded).steps_left() < writing.steps_left(),
        Writing::run(outcomes) is Asking ==> Writing::run(outcomes).steps_left() + outcomes.len()
            <= 4,
        outcomes.len() >= 4 ==> Writing::run(outcomes) !is Asking,
    decreases outcomes.len(),
{
    if outcomes.len() > 0 {
        lemma_write_ends(writing, succeeded, outcomes.drop_last());
    }
}

/// Whether none of the first four outcomes, as far as there are any, is a
/// failure.
pub open spec fn unbroken(outcomes: Seq<bool>) -> bool {
    forall|i: int| 0 <= i < outcomes.len() && i < 4 ==> outcomes[i]
}

/// The course of a write. As long as every step succeeds, the steps are
/// asked for in the order begin, company, application, commit, and the
/// write commits with the fourth success; once a step has failed, nothing
/// but a rollback is asked for any more.
pub proof fn lemma_run_follows_the_plan(outcomes: Seq<bool>)
    ensures
        unbroken(outcomes) ==> Writing::run(outcomes) == (if outcomes.len() == 0 {
            Writing::Asking(Step::Begin)
        } else if outcomes.len() == 1 {
            Writing::Asking(Step::InsertCompany)
        } else if outcomes.len() == 2 {
            Writing::Asking(Step::InsertApplication)
        } else if outcomes.len() == 3 {
            Writing::Asking(Step::Commit)
        } else {
            Writing::Committed
        }),
        !unbroken(outcomes) ==> Writing::run(outcomes) == Writing::Aborted || Writing::run(
            outcomes,
        ) == Writing::Asking(Step::RollBack),
    decreases outcomes.len(),
{
    if outcomes.len() > 0 {
        let front = outcomes.drop_last();
        lemma_run_follows_the_plan(front);
        if unbroken(outcomes) {
            assert forall|i: int| 0 <= i < front.len() && i < 4 implies front[i] by {
                assert(front[i] == outcomes[i]);
            }
            if outcomes.len() <= 4 {
                assert(outcomes[outcomes.len() - 1]);
            }
        } else if unbroken(front) {
            let broken = choose|i: int| 0 <= i < outcomes.len() && i < 4 && !outcomes[i];
            if broken < front.len() {
                assert(front[broken] == outcomes[broken]);
            }
        }
    }
}

/// A write commits exactly if the transaction was opened, both inserts
/// succeeded and the commit went through.
pub proof fn lemma_commit_needs_every_step(outcomes: Seq<bool>)
    ensures
        Writing::run(outcomes) == Writing::Committed <==> outcomes.len() >= 4 && unbroken(
            outcomes,
        ),
{
    lemma_run_follows_the_plan(outcomes);
}

/// An insert that fails is answered by a rollback, and after the rollback
/// the write is over without a commit, however the rollback went.
pub proof fn lemma_failed_insert_is_rolled_back(succeeded: bool)
    ensures
        Writing::Asking(Step::InsertCompany).after(false) == Writing::Asking(Step::RollBack),
        Writing::Asking(Step::InsertApplication).after(false) == Writing::Asking(Step::RollBack),
        Writing::Asking(Step::RollBack).after(succeeded) == Writing::Aborted,
        Writing::Aborted.after(succeeded) == Writing::Aborted,
{
}

} // verus!
