//! What every pool guarantees, stated over `PoolModel` and proved.

use vstd::prelude::*;

use crate::model::{PoolModel, WorkerState};

verus! {

/// Workers `0 .. k` each ask for work once, in that order.
pub open spec fn receive_each<J>(s: PoolModel<J>, k: nat) -> PoolModel<J>
    decreases k,
{
    if k == 0 {
        s
    } else {
        receive_each(s, (k - 1) as nat).after_receive(k - 1)
    }
}

/// The next `k` workers in order are joined.
pub open spec fn join_each<J>(s: PoolModel<J>, k: nat) -> PoolModel<J>
    decreases k,
{
    if k == 0 {
        s
    } else {
        join_each(s, (k - 1) as nat).after_join()
    }
}

proof fn lemma_receive_each_closed_empty<J>(n: nat, k: nat)
    requires
        n > 0,
        k <= n,
    ensures
        ({
            let r = receive_each(PoolModel::<J>::initial(n).after_close(), k);
            &&& r.wf()
            &&& r.queue.len() == 0
            &&& !r.open
            &&& r.joined == 0
            &&& r.workers.len() == n
            &&& forall|w: int| 0 <= w < k ==> #[trigger] r.workers[w] is Exited
            &&& forall|w: int| k <= w < n ==> #[trigger] r.workers[w] is Idle
        }),
    decreases k,
{
    let s = PoolModel::<J>::initial(n).after_close();
    if k == 0 {
        crate::model::lemma_initial_wf::<J>(n);
        crate::model::lemma_close_wf(PoolModel::<J>::initial(n));
    } else {
        lemma_receive_each_closed_empty::<J>(n, (k - 1) as nat);
        let p = receive_each(s, (k - 1) as nat);
        crate::model::lemma_receive_wf(p, k - 1);
    }
}

proof fn lemma_join_each_ended<J>(e: PoolModel<J>, k: nat)
    requires
        e.wf(),
        !e.open,
        e.joined == 0,
        k <= e.workers.len(),
        forall|w: int| 0 <= w < e.workers.len() ==> #[trigger] e.workers[w].is_terminal(),
    ensures
        join_each(e, k).wf(),
        join_each(e, k).joined == k,
        join_each(e, k).workers == e.workers,
        join_each(e, k).open == e.open,
    decreases k,
{
    if k > 0 {
        lemma_join_each_ended(e, (k - 1) as nat);
        crate::model::lemma_join_wf(join_each(e, (k - 1) as nat), k - 1);
    }
}

/// A pool of `n > 0` workers that is torn down before any job was submitted
/// shuts down without blocking: after teardown begins, each worker in turn is
/// told to exit the first time it asks for work (never to wait), and then
/// every worker can be joined in construction order until all `n` are.
pub proof fn lemma_idle_pool_shuts_down<J>(n: nat)
    requires
        n > 0,
    ensures
        ({
            let s = PoolModel::<J>::initial(n).after_close();
            let e = receive_each(s, n);
            &&& forall|k: int|
                0 <= k < n ==> (#[trigger] receive_each(s, k as nat)).workers[k] is Idle
                    && receive_each(s, k as nat).next_instruction() is Exit
            &&& forall|k: int| 0 <= k < n ==> #[trigger] join_each(e, k as nat).can_join(k)
            &&& join_each(e, n).joined == n
            &&& join_each(e, n).wf()
        }),
{
    let s = PoolModel::<J>::initial(n).after_close();
    let e = receive_each(s, n);
    assert forall|k: int| 0 <= k < n implies (#[trigger] receive_each(s, k as nat)).workers[k] is Idle
        && receive_each(s, k as nat).next_instruction() is Exit by {
        lemma_receive_each_closed_empty::<J>(n, k as nat);
    }
    lemma_receive_each_closed_empty::<J>(n, n);
    assert forall|k: int| 0 <= k < n implies #[trigger] join_each(e, k as nat).can_join(k) by {
        lemma_join_each_ended(e, k as nat);
        assert(e.workers[k] is Exited);
    }
    lemma_join_each_ended(e, n);
}

/// Once teardown has joined every worker and no job failed, nothing was lost:
/// the queue is empty, every submitted job was handed out, and every one of
/// them finished.
pub proof fn lemma_teardown_drains<J>(s: PoolModel<J>)
    requires
        s.wf(),
        s.joined == s.workers.len(),
        forall|w: int| s.has_worker(w) ==> !(#[trigger] s.workers[w] is Failed),
    ensures
        s.queue.len() == 0,
        s.dispatched == s.submitted,
        forall|t: nat| t < s.submitted ==> #[trigger] s.finished.contains(t),
        forall|t: nat| #[trigger] s.finished.contains(t) ==> t < s.submitted,
{
    assert(s.workers[0].is_terminal());
    assert(s.workers[0] is Exited);
    assert forall|t: nat| t < s.submitted implies #[trigger] s.finished.contains(t) by {
        if !s.finished.contains(t) {
            let v = choose|v: int| s.has_worker(v) && #[trigger] s.workers[v].holds(t);
            assert(s.workers[v].is_terminal());
        }
    }
}

/// Once teardown has joined every worker, and at least one of them left its
/// loop normally, every submitted job was handed out exactly once and either
/// finished or is the job on which one failed worker stopped.
pub proof fn lemma_teardown_accounts_for_failures<J>(s: PoolModel<J>, e: int)
    requires
        s.wf(),
        s.joined == s.workers.len(),
        s.has_worker(e),
        s.workers[e] is Exited,
    ensures
        s.queue.len() == 0,
        s.dispatched == s.submitted,
        forall|t: nat|
            t < s.submitted ==> #[trigger] s.finished.contains(t) || exists|w: int|
                s.has_worker(w) && #[trigger] s.workers[w] == WorkerState::Failed(t as u64),
{
    assert forall|t: nat| t < s.submitted implies #[trigger] s.finished.contains(t) || exists|w: int|
        s.has_worker(w) && #[trigger] s.workers[w] == WorkerState::Failed(t as u64) by {
        if !s.finished.contains(t) {
            let v = choose|v: int| s.has_worker(v) && #[trigger] s.workers[v].holds(t);
            assert(s.workers[v].is_terminal());
            assert(s.workers[v] == WorkerState::Failed(t as u64));
        }
    }
}

/// Two different workers never hold the same job.
pub proof fn lemma_no_shared_job<J>(s: PoolModel<J>, v: int, w: int, t: nat)
    requires
        s.wf(),
        s.has_worker(v),
        s.has_worker(w),
        v != w,
    ensures
        !(s.workers[v].holds(t) && s.workers[w].holds(t)),
{
}

/// A job is handed out at most once. When an idle worker is given a job, no
/// worker held that job and it had not finished; afterwards that worker alone
/// holds it, and every job still queued, and so every job handed out later,
/// has a greater ticket.
pub proof fn lemma_handed_out_once<J>(s: PoolModel<J>, w: int)
    requires
        s.wf(),
        s.has_worker(w),
        s.workers[w] is Idle,
        s.next_instruction() is Run,
    ensures
        ({
            let t = s.next_instruction()->ticket as nat;
            let n = s.after_receive(w);
            &&& forall|v: int| s.has_worker(v) ==> !(#[trigger] s.workers[v].holds(t))
            &&& !s.finished.contains(t)
            &&& forall|v: int| n.has_worker(v) ==> (#[trigger] n.workers[v].holds(t) <==> v == w)
            &&& !n.finished.contains(t)
            &&& n.dispatched == t + 1
        }),
{
    let t = s.next_instruction()->ticket as nat;
    let n = s.after_receive(w);
    crate::model::lemma_receive_wf(s, w);
    assert(n.workers[w].holds(t));
}

/// Once teardown has begun, a submission changes nothing.
pub proof fn lemma_closed_pool_refuses<J>(s: PoolModel<J>, job: J)
    ensures
        s.after_close().after_submit(job) == s.after_close(),
{
}

/// A failed job ends only its own worker: every other worker, the queue and
/// what the next idle worker is handed stay as they were, so queued jobs still
/// reach the other workers; and the failed worker can be joined in its turn.
pub proof fn lemma_failure_isolated<J>(s: PoolModel<J>, w: int, v: int)
    requires
        s.wf(),
        s.has_worker(w),
        s.workers[w] is Busy,
        s.has_worker(v),
        v != w,
    ensures
        ({
            let f = s.after_failure(w);
            &&& f.wf()
            &&& f.workers[v] == s.workers[v]
            &&& f.queue == s.queue
            &&& f.open == s.open
            &&& f.next_instruction() == s.next_instruction()
            &&& s.workers[v] is Idle ==> f.after_receive(v).workers[v] == s.after_receive(v).workers[v]
            &&& f.workers[w].is_terminal()
            &&& !s.open && w == s.joined ==> f.can_join(w)
        }),
{
    crate::model::lemma_failure_wf(s, w);
}

} // verus!
