//! The bounded-concurrency window for probing books: the driver asks which
//! book to launch next and reports each completion, and the scheduler
//! guarantees that no more than the chosen limit of probes is ever in
//! flight, that every book is launched once, and that the running tallies
//! always account for exactly the completed books.

use vstd::prelude::*;
use crate::books::BookAvailability;

verus! {

/// What one completed probe contributed: a verdict class, or a failure
/// recorded for that book alone.
#[derive(Clone, Copy, Debug, PartialEq, Eq, Structural)]
pub enum ProbeOutcome {
    Available,
    Holdable,
    NotOwned,
    Failed,
}

/// The outcome recorded for a verdict's flags.
pub open spec fn outcome_of_class(a: BookAvailability) -> ProbeOutcome {
    match a {
        BookAvailability::Available => ProbeOutcome::Available,
        BookAvailability::Holdable => ProbeOutcome::Holdable,
        BookAvailability::NotOwned => ProbeOutcome::NotOwned,
    }
}

/// Turns a verdict class into the outcome to record.
pub fn outcome_from_class(a: &BookAvailability) -> (r: ProbeOutcome)
    ensures
        r == outcome_of_class(*a),
{
    match a {
        BookAvailability::Available => ProbeOutcome::Available,
        BookAvailability::Holdable => ProbeOutcome::Holdable,
        BookAvailability::NotOwned => ProbeOutcome::NotOwned,
    }
}

/// The state of one probing sweep over `total` books with at most `limit`
/// probes in flight.  Books are launched in input order; completions may
/// arrive in any order.
pub struct ProbeScheduler {
    pub total: usize,
    pub limit: usize,
    pub launched: usize,
    pub completed: usize,
    pub available: usize,
    pub holdable: usize,
    pub not_owned: usize,
    pub failed: usize,
}

impl ProbeScheduler {
    /// The number of probes currently in flight.
    pub open spec fn in_flight(self) -> int {
        self.launched - self.completed
    }

    /// The sweep invariant: completions never outrun launches, launches
    /// never outrun the books, at most `limit` probes are in flight, and
    /// the tallies partition the completed books.
    pub open spec fn wf(self) -> bool {
        &&& self.limit >= 1
        &&& self.completed <= self.launched <= self.total
        &&& self.launched - self.completed <= self.limit
        &&& self.completed == self.available + self.holdable + self.not_owned + self.failed
    }

    /// Starts a sweep over `total` books with the given window size.
    pub fn new(total: usize, limit: usize) -> (s: Self)
        requires
            limit >= 1,
        ensures
            s.wf(),
            s.total == total,
            s.limit == limit,
            s.launched == 0,
            s.completed == 0,
            s.available == 0,
            s.holdable == 0,
            s.not_owned == 0,
            s.failed == 0,
    {
        ProbeScheduler {
            total,
            limit,
            launched: 0,
            completed: 0,
            available: 0,
            holdable: 0,
            not_owned: 0,
            failed: 0,
        }
    }

    /// The index of the next book to launch, when a book is left and the
    /// window has room; `None` otherwise.  Books are handed out in input
    /// order, each exactly once.
    pub fn next_launch(&mut self) -> (r: Option<usize>)
        requires
            old(self).wf(),
        ensures
            final(self).wf(),
            r is Some <==> (old(self).launched < old(self).total && old(self).in_flight()
                < old(self).limit),
            r is Some ==> r->0 == old(self).launched && final(self).launched == old(
                self,
            ).launched + 1,
            r is None ==> *final(self) == *old(self),
            final(self).total == old(self).total,
            final(self).limit == old(self).limit,
            final(self).completed == old(self).completed,
            final(self).available == old(self).available,
            final(self).holdable == old(self).holdable,
            final(self).not_owned == old(self).not_owned,
            final(self).failed == old(self).failed,
            final(self).in_flight() <= final(self).limit,
    {
        if self.launched < self.total && self.launched - self.completed < self.limit {
            let idx = self.launched;
            self.launched = self.launched + 1;
            Some(idx)
        } else {
            None
        }
    }

    /// Records one completed probe and its outcome.
    pub fn record_outcome(&mut self, outcome: ProbeOutcome)
        requires
            old(self).wf(),
            old(self).in_flight() > 0,
        ensures
            final(self).wf(),
            final(self).completed == old(self).completed + 1,
            final(self).launched == old(self).launched,
            final(self).total == old(self).total,
            final(self).limit == old(self).limit,
            final(self).available == old(self).available + (if outcome == ProbeOutcome::Available {
                1int
            } else {
                0int
            }),
            final(self).holdable == old(self).holdable + (if outcome == ProbeOutcome::Holdable {
                1int
            } else {
                0int
            }),
            final(self).not_owned == old(self).not_owned + (if outcome == ProbeOutcome::NotOwned {
                1int
            } else {
                0int
            }),
            final(self).failed == old(self).failed + (if outcome == ProbeOutcome::Failed {
                1int
            } else {
                0int
            }),
    {
        self.completed = self.completed + 1;
        match outcome {
            ProbeOutcome::Available => {
                self.available = self.available + 1;
            },
            ProbeOutcome::Holdable => {
                self.holdable = self.holdable + 1;
            },
            ProbeOutcome::NotOwned => {
                self.not_owned = self.not_owned + 1;
            },
            ProbeOutcome::Failed => {
                self.failed = self.failed + 1;
            },
        }
    }

    /// Whether every book's probe has completed.
    pub fn is_done(&self) -> (r: bool)
        ensures
            r == (self.completed == self.total),
    {
        self.completed == self.total
    }

    /// The number of completed books, for a live progress display.
    pub fn progress(&self) -> (r: usize)
        ensures
            r == self.completed,
    {
        self.completed
    }

    /// The running tallies: available, holdable, not owned, failed.
    pub fn tallies(&self) -> (r: (usize, usize, usize, usize))
        ensures
            r.0 == self.available,
            r.1 == self.holdable,
            r.2 == self.not_owned,
            r.3 == self.failed,
    {
        (self.available, self.holdable, self.not_owned, self.failed)
    }
}

/// A sweep over `M` books with window `K` never has more than `K` probes
/// in flight.
pub proof fn lemma_bounded_in_flight(s: ProbeScheduler)
    requires
        s.wf(),
    ensures
        s.in_flight() <= s.limit,
{
}

/// When a sweep completes, the tallies account for exactly the `M` books:
/// every book produced one verdict or one recorded failure.
pub proof fn lemma_sweep_accounts_for_all(s: ProbeScheduler)
    requires
        s.wf(),
        s.completed == s.total,
    ensures
        s.available + s.holdable + s.not_owned + s.failed == s.total,
{
}

} // verus!
