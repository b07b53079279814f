//! The batch: an ordered list of identifiers under one base location,
//! fetched one at a time until the list is exhausted or a fetch fails.

use crate::fetch::Outcome;
use crate::status::FetchError;
use crate::target::{DownloadTarget, TargetView};
use vstd::prelude::*;

verus! {

/// Where a batch stands.
#[derive(Clone, Copy, Debug, PartialEq, Eq, Structural)]
pub enum BatchStatus {
    /// At least one identifier is still to be fetched.
    Running,
    /// Every identifier was fetched and saved.
    Done,
    /// A fetch failed; the identifiers after it were not attempted.
    Aborted { error: FetchError },
}

/// A batch and its progress.
///
/// The identifiers before `completed` were saved, in order.  Once a fetch
/// has failed the batch holds the failure and hands out no further target.
#[derive(Debug)]
pub struct Batch {
    base_location: String,
    identifiers: Vec<String>,
    completed: usize,
    failure: Option<FetchError>,
}

/// A batch as plain values: its list as character sequences, and its
/// progress.
pub struct BatchView {
    pub base_location: Seq<char>,
    pub identifiers: Seq<Seq<char>>,
    pub completed: nat,
    pub failure: Option<FetchError>,
}

impl View for Batch {
    type V = BatchView;

    closed spec fn view(&self) -> BatchView {
        BatchView {
            base_location: self.base_location@,
            identifiers: self.identifiers.deep_view(),
            completed: self.completed as nat,
            failure: self.failure,
        }
    }
}

impl BatchView {
    /// A batch of which nothing has been fetched yet.
    pub open spec fn start(base_location: Seq<char>, identifiers: Seq<Seq<char>>) -> BatchView {
        BatchView { base_location, identifiers, completed: 0, failure: None }
    }

    /// No more identifiers are counted as saved than the list holds, and a
    /// failure belongs to an identifier of the list.
    pub open spec fn well_formed(self) -> bool {
        &&& self.completed <= self.identifiers.len()
        &&& self.failure is Some ==> self.completed < self.identifiers.len()
    }

    /// Aborted once a failure is held; otherwise done when the whole list
    /// is saved, and running until then.
    pub open spec fn status(self) -> BatchStatus {
        match self.failure {
            Some(error) => BatchStatus::Aborted { error },
            None => if self.completed < self.identifiers.len() {
                BatchStatus::Running
            } else {
                BatchStatus::Done
            },
        }
    }

    /// The target at position `index` of the list.
    pub open spec fn target(self, index: int) -> TargetView {
        TargetView { base_location: self.base_location, identifier: self.identifiers[index] }
    }

    /// The target to fetch next: the first one not saved yet, while the
    /// batch is running.
    pub open spec fn next_target(self) -> Option<TargetView> {
        if self.status() is Running {
            Some(self.target(self.completed as int))
        } else {
            None
        }
    }

    /// The batch after the fetch of its next target ended with `outcome`.
    /// A batch that is not running takes no outcome.
    pub open spec fn record(self, outcome: Outcome) -> BatchView {
        if !(self.status() is Running) {
            self
        } else {
            match outcome {
                Ok(_) => BatchView { completed: self.completed + 1, ..self },
                Err(error) => BatchView { failure: Some(error), ..self },
            }
        }
    }

    /// The batch after `outcomes` were recorded in order.
    pub open spec fn run(self, outcomes: Seq<Outcome>) -> BatchView
        decreases outcomes.len(),
    {
        if outcomes.len() == 0 {
            self
        } else {
            self.run(outcomes.drop_last()).record(outcomes.last())
        }
    }

    /// The files saved so far, in the order they were written.
    pub open spec fn saved_paths(self) -> Seq<Seq<char>> {
        Seq::new(self.completed, |i: int| self.target(i).local_path())
    }
}

impl Batch {
    #[verifier::type_invariant]
    spec fn consistent(self) -> bool {
        self@.well_formed()
    }

    /// A batch over `identifiers`, to be fetched in the order given.
    pub fn new(base_location: &str, identifiers: Vec<String>) -> (batch: Batch)
        ensures
            batch@ == BatchView::start(base_location@, identifiers.deep_view()),
            batch@.well_formed(),
    {
        Batch {
            base_location: String::from_str(base_location),
            identifiers,
            completed: 0,
            failure: None,
        }
    }

    /// Whether the batch is running, done or aborted.
    pub fn status(&self) -> (status: BatchStatus)
        ensures
            status == self@.status(),
            self@.well_formed(),
    {
        proof {
            use_type_invariant(self);
        }
        match self.failure {
            Some(error) => BatchStatus::Aborted { error },
            None => if self.completed < self.identifiers.len() {
                BatchStatus::Running
            } else {
                BatchStatus::Done
            },
        }
    }

    /// How many identifiers the batch holds.
    pub fn len(&self) -> (len: usize)
        ensures
            len == self@.identifiers.len(),
    {
        self.identifiers.len()
    }

    /// How many identifiers were fetched and saved.
    pub fn completed(&self) -> (completed: usize)
        ensures
            completed == self@.completed,
            completed <= self@.identifiers.len(),
    {
        proof {
            use_type_invariant(self);
        }
        self.completed
    }

    /// The target to fetch next, or `None` when the batch is done or was
    /// aborted.
    pub fn next_target(&self) -> (next: Option<DownloadTarget>)
        ensures
            match next {
                Some(target) => self@.next_target() == Some(target@),
                None => self@.next_target() is None,
            },
    {
        if self.failure.is_none() && self.completed < self.identifiers.len() {
            Some(
                DownloadTarget {
                    base_location: self.base_location.clone(),
                    identifier: self.identifiers[self.completed].clone(),
                },
            )
        } else {
            None
        }
    }

    /// Records how the fetch of the next target ended and returns the
    /// status that results: a success moves on to the identifier after it,
    /// a failure aborts the batch.
    pub fn record(&mut self, outcome: Outcome) -> (status: BatchStatus)
        ensures
            final(self)@ == old(self)@.record(outcome),
            final(self)@.well_formed(),
            status == final(self)@.status(),
    {
        proof {
            use_type_invariant(&*self);
        }
        if self.failure.is_none() && self.completed < self.identifiers.len() {
            match outcome {
                Ok(_) => {
                    self.completed = self.completed + 1;
                },
                Err(error) => {
                    self.failure = Some(error);
                },
            }
        }
        self.status()
    }
}

/// Recording an outcome keeps a batch well formed, never forgets a saved
/// file and never changes the list.
pub proof fn record_keeps_progress(batch: BatchView, outcome: Outcome)
    requires
        batch.well_formed(),
    ensures
        batch.record(outcome).well_formed(),
        batch.record(outcome).identifiers == batch.identifiers,
        batch.record(outcome).base_location == batch.base_location,
        batch.saved_paths().is_prefix_of(batch.record(outcome).saved_paths()),
{
}

/// A batch that is done or aborted stays as it is, whatever is recorded.
pub proof fn finished_batch_is_final(batch: BatchView, outcomes: Seq<Outcome>)
    requires
        !(batch.status() is Running),
    ensures
        batch.run(outcomes) == batch,
    decreases outcomes.len(),
{
    if outcomes.len() > 0 {
        finished_batch_is_final(batch, outcomes.drop_last());
    }
}

/// Recording `first` and then `rest` is recording them all in one go.
pub proof fn run_in_two_parts(batch: BatchView, first: Seq<Outcome>, rest: Seq<Outcome>)
    ensures
        batch.run(first + rest) == batch.run(first).run(rest),
    decreases rest.len(),
{
    if rest.len() == 0 {
        assert(first + rest =~= first);
    } else {
        run_in_two_parts(batch, first, rest.drop_last());
        assert((first + rest).drop_last() =~= first + rest.drop_last());
    }
}

/// While every fetch succeeds, the batch counts one saved file for each
/// outcome, up to the length of its list.
pub proof fn successes_are_counted(
    base_location: Seq<char>,
    identifiers: Seq<Seq<char>>,
    outcomes: Seq<Outcome>,
)
    requires
        outcomes.len() <= identifiers.len(),
        forall|i: int| 0 <= i < outcomes.len() ==> outcomes[i] is Ok,
    ensures
        BatchView::start(base_location, identifiers).run(outcomes) == (BatchView {
            completed: outcomes.len(),
            ..BatchView::start(base_location, identifiers)
        }),
    decreases outcomes.len(),
{
    if outcomes.len() > 0 {
        successes_are_counted(base_location, identifiers, outcomes.drop_last());
    }
}

/// When each of the N fetches of a batch succeeds, the batch is done, and
/// the files saved are exactly the N local paths of its identifiers, in
/// list order.
pub proof fn all_successes_finish_batch(
    base_location: Seq<char>,
    identifiers: Seq<Seq<char>>,
    outcomes: Seq<Outcome>,
)
    requires
        outcomes.len() == identifiers.len(),
        forall|i: int| 0 <= i < outcomes.len() ==> outcomes[i] is Ok,
    ensures
        ({
            let end = BatchView::start(base_location, identifiers).run(outcomes);
            &&& end.status() == BatchStatus::Done
            &&& end.completed == identifiers.len()
            &&& end.saved_paths().len() == identifiers.len()
            &&& forall|i: int|
                0 <= i < identifiers.len() ==> end.saved_paths()[i] == (TargetView {
                    base_location,
                    identifier: #[trigger] identifiers[i],
                }).local_path()
        }),
{
    successes_are_counted(base_location, identifiers, outcomes);
}

/// The first failure aborts the batch with that failure.  The files saved
/// before it stay counted, the failed identifier and those after it are
/// not, and nothing that is recorded later changes that.
pub proof fn first_failure_aborts_batch(
    base_location: Seq<char>,
    identifiers: Seq<Seq<char>>,
    outcomes: Seq<Outcome>,
    failed: int,
)
    requires
        0 <= failed < outcomes.len(),
        failed < identifiers.len(),
        forall|i: int| 0 <= i < failed ==> outcomes[i] is Ok,
        outcomes[failed] is Err,
    ensures
        ({
            let end = BatchView::start(base_location, identifiers).run(outcomes);
            &&& end.status() == BatchStatus::Aborted { error: outcomes[failed]->Err_0 }
            &&& end.completed == failed
            &&& end.next_target() is None
            &&& end.saved_paths() == BatchView::start(base_location, identifiers).run(
                outcomes.take(failed),
            ).saved_paths()
        }),
{
    let start = BatchView::start(base_location, identifiers);
    let before = outcomes.take(failed);
    let upto = outcomes.take(failed + 1);
    successes_are_counted(base_location, identifiers, before);
    assert(upto.drop_last() =~= before);
    assert(upto.last() == outcomes[failed]);
    assert(start.run(upto) == start.run(before).record(outcomes[failed]));
    assert(outcomes =~= upto + outcomes.skip(failed + 1));
    run_in_two_parts(start, upto, outcomes.skip(failed + 1));
    finished_batch_is_final(start.run(upto), outcomes.skip(failed + 1));
}

} // verus!
