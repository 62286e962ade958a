//! The mathematical model of a pool and the transitions between its states.

use vstd::prelude::*;

verus! {

/// What one worker is doing.
#[derive(Clone, Copy, Debug, PartialEq, Eq, Structural)]
pub enum WorkerState {
    /// Waiting for the next job.
    Idle,
    /// Running the job with this ticket.
    Busy(u64),
    /// Left its loop because the queue was closed and empty.
    Exited,
    /// Stopped for good because the job with this ticket failed.
    Failed(u64),
}

/// What a worker is told to do after asking for work.
pub enum Instruction<J> {
    /// Run `job`, the `ticket`-th job submitted (counting from zero).
    Run { ticket: u64, job: J },
    /// Nothing is queued yet, but more may come: block until woken.
    Wait,
    /// The queue is closed and drained: leave the loop.
    Exit,
}

/// Why the pool refused a request.
#[derive(Clone, Copy, Debug, PartialEq, Eq, Structural)]
pub enum PoolError {
    /// A pool was asked for with no workers.
    NoWorkers,
    /// A job was submitted after teardown had begun.
    Closed,
}

impl WorkerState {
    /// The ticket of the job this worker has taken and not completed.
    pub open spec fn holds(self, t: nat) -> bool {
        match self {
            WorkerState::Busy(u) => u as nat == t,
            WorkerState::Failed(u) => u as nat == t,
            _ => false,
        }
    }

    /// The worker's thread has ended (or will end without asking for work).
    pub open spec fn is_terminal(self) -> bool {
        self is Exited || self is Failed
    }
}

/// The abstract state of a pool.
///
/// Jobs are numbered by tickets in order of submission. Tickets below
/// `dispatched` have been handed to a worker; `queue` holds the jobs with
/// tickets `dispatched .. submitted`, front first. `finished` holds the tickets
/// of jobs that ran to completion, and workers `0 .. joined` have been joined.
pub struct PoolModel<J> {
    pub open: bool,
    pub queue: Seq<J>,
    pub submitted: nat,
    pub dispatched: nat,
    pub workers: Seq<WorkerState>,
    pub finished: Set<nat>,
    pub joined: nat,
}

impl<J> PoolModel<J> {
    /// A fresh pool of `n` idle workers, accepting submissions.
    pub open spec fn initial(n: nat) -> Self {
        PoolModel {
            open: true,
            queue: Seq::empty(),
            submitted: 0,
            dispatched: 0,
            workers: Seq::new(n, |i: int| WorkerState::Idle),
            finished: Set::empty(),
            joined: 0,
        }
    }

    /// Whether worker `w` exists.
    pub open spec fn has_worker(self, w: int) -> bool {
        0 <= w < self.workers.len()
    }

    /// The invariant of every reachable state.
    pub open spec fn wf(self) -> bool {
        &&& self.workers.len() > 0
        // tickets are `u64`
        &&& self.submitted <= u64::MAX
        &&& self.dispatched <= self.submitted
        &&& self.queue.len() == self.submitted - self.dispatched
        &&& self.joined <= self.workers.len()
        // a finished job was dispatched, and is held by no worker
        &&& forall|t: nat| #[trigger] self.finished.contains(t) ==> t < self.dispatched
        &&& forall|w: int, t: nat|
            self.has_worker(w) && #[trigger] self.workers[w].holds(t) ==> t < self.dispatched
                && !self.finished.contains(t)
        // a job is held by at most one worker
        &&& forall|v: int, w: int, t: nat|
            self.has_worker(v) && self.has_worker(w) && #[trigger] self.workers[v].holds(t)
                && #[trigger] self.workers[w].holds(t) ==> v == w
        // no dispatched job is lost
        &&& forall|t: nat|
            t < self.dispatched ==> #[trigger] self.finished.contains(t) || exists|w: int|
                self.has_worker(w) && #[trigger] self.workers[w].holds(t)
        // a worker exits only once the queue is closed and drained
        &&& forall|w: int|
            self.has_worker(w) && #[trigger] self.workers[w] is Exited ==> !self.open
                && self.queue.len() == 0
        // workers are joined in order, after teardown began, once they ended
        &&& forall|w: int| 0 <= w < self.joined ==> #[trigger] self.workers[w].is_terminal()
        &&& self.joined > 0 ==> !self.open
    }

    /// Submitting `job`: it joins the back of the queue if the pool is open;
    /// a closed pool is left as it was.
    pub open spec fn after_submit(self, job: J) -> Self {
        if self.open {
            PoolModel { queue: self.queue.push(job), submitted: self.submitted + 1, ..self }
        } else {
            self
        }
    }

    /// What an idle worker is told when it asks for work: the front of the
    /// queue if there is one, else to exit if the pool is closed, else to wait.
    pub open spec fn next_instruction(self) -> Instruction<J> {
        if self.queue.len() > 0 {
            Instruction::Run { ticket: self.dispatched as u64, job: self.queue[0] }
        } else if !self.open {
            Instruction::Exit
        } else {
            Instruction::Wait
        }
    }

    /// The state after idle worker `w` asked for work.
    pub open spec fn after_receive(self, w: int) -> Self {
        if self.queue.len() > 0 {
            PoolModel {
                queue: self.queue.drop_first(),
                dispatched: self.dispatched + 1,
                workers: self.workers.update(w, WorkerState::Busy(self.dispatched as u64)),
                ..self
            }
        } else if !self.open {
            PoolModel { workers: self.workers.update(w, WorkerState::Exited), ..self }
        } else {
            self
        }
    }

    /// The state after busy worker `w` ran its job to completion.
    pub open spec fn after_complete(self, w: int) -> Self {
        match self.workers[w] {
            WorkerState::Busy(t) => PoolModel {
                workers: self.workers.update(w, WorkerState::Idle),
                finished: self.finished.insert(t as nat),
                ..self
            },
            _ => self,
        }
    }

    /// The state after the job of busy worker `w` failed, ending that worker.
    pub open spec fn after_failure(self, w: int) -> Self {
        match self.workers[w] {
            WorkerState::Busy(t) => PoolModel {
                workers: self.workers.update(w, WorkerState::Failed(t)),
                ..self
            },
            _ => self,
        }
    }

    /// Teardown begins: no submission is accepted from now on.
    pub open spec fn after_close(self) -> Self {
        PoolModel { open: false, ..self }
    }

    /// Whether worker `w` is the next to be joined: teardown has begun, the
    /// workers before it are joined, and its thread has ended.
    pub open spec fn can_join(self, w: int) -> bool {
        &&& !self.open
        &&& w == self.joined
        &&& self.has_worker(w)
        &&& self.workers[w].is_terminal()
    }

    /// The state after the next worker in order was joined.
    pub open spec fn after_join(self) -> Self {
        PoolModel { joined: self.joined + 1, ..self }
    }
}

pub proof fn lemma_initial_wf<J>(n: nat)
    requires
        n > 0,
    ensures
        PoolModel::<J>::initial(n).wf(),
{
}

pub proof fn lemma_submit_wf<J>(s: PoolModel<J>, job: J)
    requires
        s.wf(),
        s.submitted < u64::MAX,
    ensures
        s.after_submit(job).wf(),
{
}

pub proof fn lemma_receive_wf<J>(s: PoolModel<J>, w: int)
    requires
        s.wf(),
        s.has_worker(w),
        s.workers[w] is Idle,
    ensures
        s.after_receive(w).wf(),
{
    let n = s.after_receive(w);
    assert(w >= s.joined) by {
        if w < s.joined {
            assert(s.workers[w].is_terminal());
        }
    }
    if s.queue.len() > 0 {
        let d = s.dispatched;
        assert forall|t: nat| t < n.dispatched implies #[trigger] n.finished.contains(t) || exists|v: int|
            n.has_worker(v) && #[trigger] n.workers[v].holds(t) by {
            if t == d {
                assert(n.workers[w].holds(t));
            } else if !n.finished.contains(t) {
                let v = choose|v: int| s.has_worker(v) && #[trigger] s.workers[v].holds(t);
                assert(v != w);
                assert(n.workers[v].holds(t));
            }
        }
        assert forall|v: int, t: nat| n.has_worker(v) && #[trigger] n.workers[v].holds(t) implies t
            < n.dispatched && !n.finished.contains(t) by {
            if v != w {
                assert(s.workers[v].holds(t));
            }
        }
        assert forall|a: int, b: int, t: nat|
            n.has_worker(a) && n.has_worker(b) && #[trigger] n.workers[a].holds(t)
                && #[trigger] n.workers[b].holds(t) implies a == b by {
            if a != w && b != w {
                assert(s.workers[a].holds(t) && s.workers[b].holds(t));
            } else if a == w && b != w {
                assert(s.workers[b].holds(t));
            } else if b == w && a != w {
                assert(s.workers[a].holds(t));
            }
        }
    } else if !s.open {
        assert forall|t: nat| t < n.dispatched implies #[trigger] n.finished.contains(t) || exists|v: int|
            n.has_worker(v) && #[trigger] n.workers[v].holds(t) by {
            if !n.finished.contains(t) {
                let v = choose|v: int| s.has_worker(v) && #[trigger] s.workers[v].holds(t);
                assert(n.workers[v].holds(t));
            }
        }
    }
}

pub proof fn lemma_complete_wf<J>(s: PoolModel<J>, w: int)
    requires
        s.wf(),
        s.has_worker(w),
        s.workers[w] is Busy,
    ensures
        s.after_complete(w).wf(),
{
    let n = s.after_complete(w);
    assert(w >= s.joined) by {
        if w < s.joined {
            assert(s.workers[w].is_terminal());
        }
    }
    let tw = s.workers[w]->Busy_0 as nat;
    assert(s.workers[w].holds(tw));
    assert forall|t: nat| t < n.dispatched implies #[trigger] n.finished.contains(t) || exists|v: int|
        n.has_worker(v) && #[trigger] n.workers[v].holds(t) by {
        if t != tw && !s.finished.contains(t) {
            let v = choose|v: int| s.has_worker(v) && #[trigger] s.workers[v].holds(t);
            assert(v != w);
            assert(n.workers[v].holds(t));
        }
    }
    assert forall|v: int, t: nat| n.has_worker(v) && #[trigger] n.workers[v].holds(t) implies t
        < n.dispatched && !n.finished.contains(t) by {
        assert(v != w);
        assert(s.workers[v].holds(t));
    }
    assert forall|a: int, b: int, t: nat|
        n.has_worker(a) && n.has_worker(b) && #[trigger] n.workers[a].holds(t)
            && #[trigger] n.workers[b].holds(t) implies a == b by {
        assert(s.workers[a].holds(t) && s.workers[b].holds(t));
    }
}

pub proof fn lemma_failure_wf<J>(s: PoolModel<J>, w: int)
    requires
        s.wf(),
        s.has_worker(w),
        s.workers[w] is Busy,
    ensures
        s.after_failure(w).wf(),
{
    let n = s.after_failure(w);
    let tw = s.workers[w]->Busy_0 as nat;
    assert(s.workers[w].holds(tw));
    assert(n.workers[w].holds(tw));
    assert forall|v: int, t: nat| n.has_worker(v) && #[trigger] n.workers[v].holds(t) implies s.workers[v].holds(t) by {
        if v == w {
            assert(t == tw);
        }
    }
    assert forall|t: nat| t < n.dispatched implies #[trigger] n.finished.contains(t) || exists|v: int|
        n.has_worker(v) && #[trigger] n.workers[v].holds(t) by {
        if !s.finished.contains(t) {
            let v = choose|v: int| s.has_worker(v) && #[trigger] s.workers[v].holds(t);
            assert(n.workers[v].holds(t));
        }
    }
}

pub proof fn lemma_close_wf<J>(s: PoolModel<J>)
    requires
        s.wf(),
    ensures
        s.after_close().wf(),
{
    let n = s.after_close();
    assert forall|t: nat| t < n.dispatched implies #[trigger] n.finished.contains(t) || exists|v: int|
        n.has_worker(v) && #[trigger] n.workers[v].holds(t) by {
        if !s.finished.contains(t) {
            let v = choose|v: int| s.has_worker(v) && #[trigger] s.workers[v].holds(t);
            assert(n.workers[v].holds(t));
        }
    }
}

pub proof fn lemma_join_wf<J>(s: PoolModel<J>, w: int)
    requires
        s.wf(),
        s.can_join(w),
    ensures
        s.after_join().wf(),
{
    let n = s.after_join();
    assert forall|t: nat| t < n.dispatched implies #[trigger] n.finished.contains(t) || exists|v: int|
        n.has_worker(v) && #[trigger] n.workers[v].holds(t) by {
        if !s.finished.contains(t) {
            let v = choose|v: int| s.has_worker(v) && #[trigger] s.workers[v].holds(t);
            assert(n.workers[v].holds(t));
        }
    }
}

} // verus!
