//! The executable pool state, refining `PoolModel`.

use std::collections::VecDeque;
use vstd::prelude::*;

use crate::model::{
    lemma_close_wf, lemma_complete_wf, lemma_failure_wf, lemma_initial_wf, lemma_join_wf,
    lemma_receive_wf, lemma_submit_wf, Instruction, PoolError, PoolModel, WorkerState,
};

verus! {

/// The shared state of a worker pool: its job queue, whether it still takes
/// submissions, and the state of each worker.
#[verifier::reject_recursive_types(J)]
pub struct Dispatcher<J> {
    queue: VecDeque<J>,
    open: bool,
    submitted: u64,
    dispatched: u64,
    workers: Vec<WorkerState>,
    joined: usize,
    finished: Ghost<Set<nat>>,
}

impl<J> View for Dispatcher<J> {
    type V = PoolModel<J>;

    closed spec fn view(&self) -> PoolModel<J> {
        PoolModel {
            open: self.open,
            queue: self.queue@,
            submitted: self.submitted as nat,
            dispatched: self.dispatched as nat,
            workers: self.workers@,
            finished: self.finished@,
            joined: self.joined as nat,
        }
    }
}

impl<J> Dispatcher<J> {
    /// The invariant of the pool state.
    pub open spec fn wf(&self) -> bool {
        self@.wf()
    }

    /// A pool of `size` idle workers with an empty queue, open for submissions.
    /// Fails exactly when `size` is zero.
    pub fn new(size: usize) -> (r: Result<Self, PoolError>)
        ensures
            size == 0 <==> r is Err,
            r matches Err(e) ==> e == PoolError::NoWorkers,
            r matches Ok(d) ==> d.wf() && d@ == PoolModel::<J>::initial(size as nat),
    {
        if size == 0 {
            return Err(PoolError::NoWorkers);
        }
        let mut workers: Vec<WorkerState> = Vec::with_capacity(size);
        let mut i: usize = 0;
        while i < size
            invariant
                i <= size,
                workers@ == Seq::new(i as nat, |k: int| WorkerState::Idle),
            decreases size - i,
        {
            workers.push(WorkerState::Idle);
            i += 1;
            assert(workers@ =~= Seq::new(i as nat, |k: int| WorkerState::Idle));
        }
        let d = Dispatcher {
            queue: VecDeque::new(),
            open: true,
            submitted: 0,
            dispatched: 0,
            workers,
            joined: 0,
            finished: Ghost(Set::empty()),
        };
        assert(d@ =~= PoolModel::<J>::initial(size as nat));
        proof {
            lemma_initial_wf::<J>(size as nat);
        }
        Ok(d)
    }

    /// Submits `job`. An open pool puts it at the back of the queue and returns
    /// its ticket, the number of jobs submitted before it; once teardown has
    /// begun the job is refused with `PoolError::Closed` and nothing changes.
    pub fn submit(&mut self, job: J) -> (r: Result<u64, PoolError>)
        requires
            old(self).wf(),
            old(self)@.submitted < u64::MAX,
        ensures
            final(self).wf(),
            final(self)@ == old(self)@.after_submit(job),
            r is Ok <==> old(self)@.open,
            r matches Ok(t) ==> t as nat == old(self)@.submitted,
            r matches Err(e) ==> e == PoolError::Closed,
    {
        proof {
            lemma_submit_wf(self@, job);
        }
        if !self.open {
            return Err(PoolError::Closed);
        }
        let ticket = self.submitted;
        self.queue.push_back(job);
        self.submitted = self.submitted + 1;
        assert(self@ =~= old(self)@.after_submit(job));
        Ok(ticket)
    }

    /// Idle worker `worker` asks for work. It is handed the front of the queue
    /// (and becomes busy with it) if the queue is not empty; otherwise it is
    /// told to exit (and is marked exited) if the pool is closed, or to wait.
    pub fn receive(&mut self, worker: usize) -> (r: Instruction<J>)
        requires
            old(self).wf(),
            old(self)@.has_worker(worker as int),
            old(self)@.workers[worker as int] is Idle,
        ensures
            final(self).wf(),
            r == old(self)@.next_instruction(),
            final(self)@ == old(self)@.after_receive(worker as int),
    {
        proof {
            lemma_receive_wf(self@, worker as int);
        }
        match self.queue.pop_front() {
            Some(job) => {
                let ticket = self.dispatched;
                self.dispatched = self.dispatched + 1;
                self.workers.set(worker, WorkerState::Busy(ticket));
                assert(self@ =~= old(self)@.after_receive(worker as int));
                Instruction::Run { ticket, job }
            },
            None => {
                if self.open {
                    Instruction::Wait
                } else {
                    self.workers.set(worker, WorkerState::Exited);
                    assert(self@ =~= old(self)@.after_receive(worker as int));
                    Instruction::Exit
                }
            },
        }
    }

    /// Busy worker `worker` finished its job: the job's ticket is recorded as
    /// finished and the worker is idle again.
    pub fn complete(&mut self, worker: usize)
        requires
            old(self).wf(),
            old(self)@.has_worker(worker as int),
            old(self)@.workers[worker as int] is Busy,
        ensures
            final(self).wf(),
            final(self)@ == old(self)@.after_complete(worker as int),
    {
        proof {
            lemma_complete_wf(self@, worker as int);
        }
        let ghost t = self.workers@[worker as int]->Busy_0 as nat;
        self.workers.set(worker, WorkerState::Idle);
        proof {
            self.finished@ = self.finished@.insert(t);
        }
        assert(self@ =~= old(self)@.after_complete(worker as int));
    }

    /// The job of busy worker `worker` failed: that worker stops for good,
    /// holding the ticket of the failed job. Nothing else changes.
    pub fn fail(&mut self, worker: usize)
        requires
            old(self).wf(),
            old(self)@.has_worker(worker as int),
            old(self)@.workers[worker as int] is Busy,
        ensures
            final(self).wf(),
            final(self)@ == old(self)@.after_failure(worker as int),
    {
        proof {
            lemma_failure_wf(self@, worker as int);
        }
        if let WorkerState::Busy(t) = self.workers[worker] {
            self.workers.set(worker, WorkerState::Failed(t));
        }
        assert(self@ =~= old(self)@.after_failure(worker as int));
    }

    /// Begins teardown: from now on every submission is refused. Closing a
    /// closed pool changes nothing.
    pub fn close(&mut self)
        requires
            old(self).wf(),
        ensures
            final(self).wf(),
            final(self)@ == old(self)@.after_close(),
    {
        proof {
            lemma_close_wf(self@);
        }
        self.open = false;
        assert(self@ =~= old(self)@.after_close());
    }

    /// Records that the thread of `worker` was joined. This succeeds, and
    /// returns true, exactly when `worker` is the next worker in construction
    /// order, teardown has begun and the worker has ended; otherwise nothing
    /// changes.
    pub fn record_join(&mut self, worker: usize) -> (r: bool)
        requires
            old(self).wf(),
        ensures
            final(self).wf(),
            r == old(self)@.can_join(worker as int),
            final(self)@ == if r {
                old(self)@.after_join()
            } else {
                old(self)@
            },
    {
        if self.open || worker != self.joined || worker >= self.workers.len() {
            return false;
        }
        match self.workers[worker] {
            WorkerState::Exited | WorkerState::Failed(_) => {
                proof {
                    lemma_join_wf(self@, worker as int);
                }
                self.joined = self.joined + 1;
                assert(self@ =~= old(self)@.after_join());
                true
            },
            _ => false,
        }
    }

    /// The number of workers, fixed at construction.
    pub fn worker_count(&self) -> (r: usize)
        ensures
            r == self@.workers.len(),
    {
        self.workers.len()
    }

    /// Whether submissions are still accepted.
    pub fn is_open(&self) -> (r: bool)
        ensures
            r == self@.open,
    {
        self.open
    }

    /// The state of worker `worker`.
    pub fn worker_state(&self, worker: usize) -> (r: WorkerState)
        requires
            self@.has_worker(worker as int),
        ensures
            r == self@.workers[worker as int],
    {
        self.workers[worker]
    }

    /// The number of jobs submitted so far.
    pub fn submitted(&self) -> (r: u64)
        ensures
            r as nat == self@.submitted,
    {
        self.submitted
    }

    /// The number of jobs waiting in the queue.
    pub fn queued(&self) -> (r: usize)
        ensures
            r as nat == self@.queue.len(),
    {
        self.queue.len()
    }

    /// The number of workers joined so far.
    pub fn joined(&self) -> (r: usize)
        ensures
            r as nat == self@.joined,
    {
        self.joined
    }
}

} // verus!
