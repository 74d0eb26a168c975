//! The batch orchestrator's bookkeeping: jobs are submitted, launched at most
//! `max_running` at a time, completed in any order, and reduced to the best outcome.
//! The caller runs the jobs themselves and reports each completion.

use crate::score::rank;
use crate::sim::{SimRes, is_best_of};
use vstd::prelude::*;

verus! {

/// Why a batch produced no outcome.
#[derive(Clone, Copy, Debug, PartialEq, Eq, Structural)]
pub enum OrchestratorError {
    /// No job was submitted to the batch
    EmptyBatch,
}

/// A batch of simulation jobs against one backend.
pub struct Orchestrator {
    /// Submitted jobs not yet launched
    queued: usize,
    /// Launched jobs not yet completed
    running: usize,
    /// The most jobs that may run at once
    max_running: usize,
    /// The best outcome completed so far
    best: Option<SimRes>,
    /// Every outcome completed since the batch began
    results: Ghost<Seq<SimRes>>,
}

impl Orchestrator {
    pub closed spec fn wf(&self) -> bool {
        &&& self.running <= self.max_running
        &&& self.max_running > 0
        &&& match self.best {
            Some(b) => is_best_of(b, self.results@),
            None => self.results@.len() == 0,
        }
    }

    /// Jobs submitted and not yet launched.
    pub closed spec fn queued(&self) -> nat {
        self.queued as nat
    }

    /// Jobs launched and not yet completed.
    pub closed spec fn running(&self) -> nat {
        self.running as nat
    }

    /// The concurrency bound.
    pub closed spec fn max_running(&self) -> nat {
        self.max_running as nat
    }

    /// The outcomes completed in this batch, in completion order.
    pub closed spec fn results(&self) -> Seq<SimRes> {
        self.results@
    }

    /// An empty batch that runs at most `max_running` jobs at once.
    pub fn new(max_running: usize) -> (r: Self)
        requires
            max_running > 0,
        ensures
            r.wf(),
            r.queued() == 0,
            r.running() == 0,
            r.max_running() == max_running,
            r.results() == Seq::<SimRes>::empty(),
    {
        Orchestrator { queued: 0, running: 0, max_running, best: None, results: Ghost(Seq::empty()) }
    }

    /// Queues `sim_amount` more jobs.
    pub fn submit(&mut self, sim_amount: usize)
        requires
            old(self).wf(),
            old(self).queued() + old(self).running() + sim_amount <= usize::MAX,
        ensures
            final(self).wf(),
            final(self).queued() == old(self).queued() + sim_amount,
            final(self).running() == old(self).running(),
            final(self).max_running() == old(self).max_running(),
            final(self).results() == old(self).results(),
    {
        self.queued = self.queued + sim_amount;
    }

    /// Moves as many queued jobs to running as the bound allows, and returns how many
    /// the caller must now start.
    pub fn launch(&mut self) -> (n: usize)
        requires
            old(self).wf(),
        ensures
            final(self).wf(),
            n == if old(self).queued() < old(self).max_running() - old(self).running() {
                old(self).queued()
            } else {
                (old(self).max_running() - old(self).running()) as nat
            },
            final(self).queued() == old(self).queued() - n,
            final(self).running() == old(self).running() + n,
            final(self).running() <= final(self).max_running(),
            final(self).max_running() == old(self).max_running(),
            final(self).results() == old(self).results(),
    {
        let free = self.max_running - self.running;
        let n = if self.queued < free { self.queued } else { free };
        self.queued = self.queued - n;
        self.running = self.running + n;
        n
    }

    /// Records the outcome of one running job.
    pub fn complete(&mut self, res: SimRes)
        requires
            old(self).wf(),
            old(self).running() > 0,
        ensures
            final(self).wf(),
            final(self).queued() == old(self).queued(),
            final(self).running() == old(self).running() - 1,
            final(self).max_running() == old(self).max_running(),
            final(self).results() == old(self).results().push(res),
    {
        let ghost old_results = self.results@;
        let ghost new_results = old_results.push(res);
        let ghost old_best = self.best;
        let best = self.best.take();
        let next = match best {
            None => res,
            Some(b) => {
                if res.score.beats(&b.score) {
                    res
                } else {
                    b
                }
            },
        };
        proof {
            assert(new_results[new_results.len() - 1] == res);
            assert forall|k: int| 0 <= k < new_results.len() implies rank(
                #[trigger] new_results[k].score,
            ) <= rank(next.score) by {
                if k < old_results.len() {
                    assert(new_results[k] == old_results[k]);
                }
            }
            match old_best {
                None => assert(new_results.contains(next)),
                Some(b) => {
                    if next == res {
                        assert(new_results.contains(next));
                    } else {
                        let j = choose|j: int| 0 <= j < old_results.len() && old_results[j] == b;
                        assert(new_results[j] == next);
                    }
                },
            }
        }
        self.best = Some(next);
        self.results = Ghost(new_results);
        self.running = self.running - 1;
    }

    /// Records that a running job ended without an outcome (it never closed, or was
    /// cut off); it frees its place and adds nothing to the results.
    pub fn abandon(&mut self)
        requires
            old(self).wf(),
            old(self).running() > 0,
        ensures
            final(self).wf(),
            final(self).queued() == old(self).queued(),
            final(self).running() == old(self).running() - 1,
            final(self).max_running() == old(self).max_running(),
            final(self).results() == old(self).results(),
    {
        self.running = self.running - 1;
    }

    /// Jobs still queued or running.
    pub fn pending(&self) -> (r: (usize, usize))
        ensures
            r.0 == self.queued(),
            r.1 == self.running(),
    {
        (self.queued, self.running)
    }

    /// Whether no job is queued or running.
    pub fn is_done(&self) -> (r: bool)
        ensures
            r == (self.queued() == 0 && self.running() == 0),
    {
        self.queued == 0 && self.running == 0
    }

    /// Ends the batch: the best outcome of all completed jobs, or `EmptyBatch` when
    /// none completed. The orchestrator is empty afterwards and can take a new batch.
    pub fn finish(&mut self) -> (r: Result<SimRes, OrchestratorError>)
        requires
            old(self).wf(),
            old(self).queued() == 0,
            old(self).running() == 0,
        ensures
            final(self).wf(),
            final(self).queued() == 0,
            final(self).running() == 0,
            final(self).max_running() == old(self).max_running(),
            final(self).results() == Seq::<SimRes>::empty(),
            match r {
                Ok(best) => is_best_of(best, old(self).results()),
                Err(e) => e == OrchestratorError::EmptyBatch && old(self).results().len() == 0,
            },
            old(self).results().len() == 0 <==> r is Err,
    {
        let best = self.best.take();
        self.results = Ghost(Seq::empty());
        match best {
            Some(b) => Ok(b),
            None => Err(OrchestratorError::EmptyBatch),
        }
    }
}

/// Whatever the order in which jobs complete, a batch's result ranks at least as high
/// as every completed outcome, and it is one of them.
pub proof fn lemma_best_dominates(best: SimRes, results: Seq<SimRes>, k: int)
    requires
        is_best_of(best, results),
        0 <= k < results.len(),
    ensures
        rank(results[k].score) <= rank(best.score),
        exists|j: int| 0 <= j < results.len() && results[j] == best,
{
}

} // verus!
