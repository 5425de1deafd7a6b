//! A verified model of the fixed-size worker pool's task dispatch.
//!
//! The pool owns a first-in-first-out queue of submitted tasks, identified
//! by plain task numbers, and a fixed set of workers. `execute` enqueues a
//! task; a worker thread repeatedly `claim`s the front of the queue and runs
//! what it claimed. The contracts here pin the dispatch discipline down: the
//! tasks ever submitted are exactly the claimed ones followed by the pending
//! ones, in order, so no task is lost, duplicated, or reordered. The actual
//! thread spawning, locking and blocking live outside the library; they
//! drive this model one `claim` at a time.

use vstd::prelude::*;

verus! {

/// An execution unit of the pool, identified by its index. A worker
/// repeatedly claims the queue's front task and runs it to completion.
pub struct Worker {
    pub id: usize,
}

impl Worker {
    /// A worker with the given index.
    pub fn new(id: usize) -> (w: Worker)
        ensures
            w.id == id,
    {
        Worker { id }
    }

    /// Running a claimed task is the task's own doing; the worker keeps no
    /// per-task state.
    pub fn run_task() {
    }
}

/// A fixed set of workers and a first-in-first-out queue of pending tasks.
/// The claim history is kept as ghost state so the dispatch discipline can
/// be stated exactly.
pub struct ThreadPool {
    pub workers: Vec<Worker>,
    pub pending: Vec<u64>,
    pub claimed: Ghost<Seq<u64>>,
}

impl ThreadPool {
    /// Every task ever submitted, in submission order: the claimed ones
    /// followed by the pending ones.
    pub open spec fn submitted(self) -> Seq<u64> {
        self.claimed@ + self.pending@
    }

    /// Well-formed: at least one worker, numbered consecutively from zero.
    pub open spec fn wf(self) -> bool {
        &&& self.workers@.len() > 0
        &&& forall|i: int| 0 <= i < self.workers@.len() ==> self.workers@[i].id == i
    }

    /// A pool of `max_threads` workers and an empty queue. Zero workers is
    /// a constructor-time failure, before any task can be submitted.
    pub fn new(max_threads: usize) -> (r: Result<Self, String>)
        ensures
            (r is Ok) == (max_threads > 0),
            r matches Ok(p) ==> p.wf() && p.workers@.len() == max_threads
                && p.pending@.len() == 0 && p.claimed@.len() == 0 && p.submitted().len() == 0,
            r matches Err(m) ==> m@ == "ThreadPool requires at least one worker"@,
    {
        if max_threads == 0 {
            return Err("ThreadPool requires at least one worker".to_owned());
        }
        let mut workers: Vec<Worker> = Vec::new();
        let mut i: usize = 0;
        while i < max_threads
            invariant
                i <= max_threads,
                workers@.len() == i,
                forall|j: int| 0 <= j < i ==> workers@[j].id == j,
            decreases max_threads - i,
        {
            workers.push(Worker::new(i));
            i = i + 1;
        }
        Ok(ThreadPool { workers, pending: Vec::new(), claimed: Ghost(Seq::empty()) })
    }

    /// Submit a task: it joins the back of the queue; nothing already
    /// submitted is disturbed.
    pub fn execute(&mut self, task: u64)
        ensures
            final(self).workers == old(self).workers,
            final(self).pending@ == old(self).pending@.push(task),
            final(self).claimed@ == old(self).claimed@,
            final(self).submitted() == old(self).submitted().push(task),
    {
        self.pending.push(task);
        proof {
            assert(self.claimed@ + self.pending@ =~= (old(self).claimed@ + old(self).pending@).push(task));
        }
    }

    /// Claim the next task for a worker: the front of the queue, first in
    /// first out. A claim hands each pending task out at most once, and the
    /// set of submitted tasks is untouched.
    pub fn claim(&mut self) -> (r: Option<u64>)
        ensures
            final(self).workers == old(self).workers,
            final(self).submitted() == old(self).submitted(),
            old(self).pending@.len() == 0 ==> r is None
                && final(self).pending@ == old(self).pending@
                && final(self).claimed@ == old(self).claimed@,
            old(self).pending@.len() > 0 ==> r == Some(old(self).pending@[0])
                && final(self).pending@ == old(self).pending@.drop_first()
                && final(self).claimed@ == old(self).claimed@.push(old(self).pending@[0]),
    {
        if self.pending.len() == 0 {
            return None;
        }
        let t = self.pending.remove(0);
        self.claimed = Ghost(self.claimed@.push(t));
        proof {
            assert(self.pending@ =~= old(self).pending@.drop_first());
            assert(self.claimed@ + self.pending@ =~= old(self).claimed@ + old(self).pending@);
        }
        Some(t)
    }
}

/// Once the queue has drained, the claimed tasks are exactly the submitted
/// ones: with any number of submissions, every task has been handed out
/// exactly once, and in submission order.
pub proof fn lemma_drained_pool_ran_every_task_once(p: ThreadPool)
    requires
        p.pending@.len() == 0,
    ensures
        p.claimed@ == p.submitted(),
{
    assert(p.claimed@ + p.pending@ =~= p.claimed@);
}

/// At every point, the claimed tasks are a prefix of the submitted ones: no
/// task is claimed before its submission or ahead of its turn, and claimed
/// and pending tasks together account for every submission.
pub proof fn lemma_claims_prefix_of_submissions(p: ThreadPool)
    ensures
        p.claimed@ == p.submitted().take(p.claimed@.len() as int),
        p.claimed@.len() + p.pending@.len() == p.submitted().len(),
{
    assert(p.claimed@ =~= (p.claimed@ + p.pending@).take(p.claimed@.len() as int));
}

} // verus!
