use crate::model::{
    count, lemma_count_uniform, lemma_load_update, slot_items, PoolView, Progress, WorkerAction,
    WorkerState,
};
use vstd::prelude::*;

verus! {

/// No item is delivered twice. The deliveries are, one for one and in order,
/// the first items that were sent; every handler call answers to one
/// delivery; and where the sent items are distinct, so are the delivered
/// ones.
pub proof fn lemma_delivered_once<T, E>(v: PoolView<T, E>)
    requires
        v.wf(),
    ensures
        v.delivered.len() <= v.sent.len(),
        v.delivered == v.sent.take(v.delivered.len() as int),
        v.pending == v.sent.skip(v.delivered.len() as int),
        v.processed.len() + count(v.workers, WorkerState::Busy) == v.delivered.len(),
        v.sent.no_duplicates() ==> v.delivered.no_duplicates(),
{
    let d = v.delivered.len() as int;
    assert(v.sent.take(d) =~= v.delivered);
    assert(v.sent.skip(d) =~= v.pending);
    if v.sent.no_duplicates() {
        assert forall|i: int, j: int|
            0 <= i < v.delivered.len() && 0 <= j < v.delivered.len() && i != j implies v.delivered[i]
            != v.delivered[j] by {
            assert(v.delivered[i] == v.sent[i]);
            assert(v.delivered[j] == v.sent[j]);
        }
    }
}

/// Once every worker has stopped and fewer handlers failed than there are
/// workers (so in particular when none failed), every item that was sent has
/// been delivered and processed, exactly once: as many handler calls have
/// returned as items were sent.
pub proof fn lemma_every_item_processed<T, E>(v: PoolView<T, E>)
    requires
        v.wf(),
        v.all_stopped(),
        v.failures.len() < v.thread_count(),
    ensures
        v.closed(),
        v.pending.len() == 0,
        v.delivered == v.sent,
        v.processed.len() == v.sent.len(),
        forall|d: int| 0 <= d < v.sent.len() ==> v.progress[d] != Progress::Running,
{
    lemma_count_uniform(v.workers, WorkerState::Stopped, WorkerState::Stopped);
    lemma_count_uniform(v.workers, WorkerState::Stopped, WorkerState::Busy);
    assert(v.delivered + v.pending =~= v.delivered);
    assert forall|d: int| 0 <= d < v.sent.len() implies v.progress[d] != Progress::Running by {
        if v.progress[d] == Progress::Running {
            assert(v.workers[v.receivers[d]] == WorkerState::Busy);
        }
    }
}

/// Every delivery belongs to one handler call. While the call runs, the
/// worker that received the item is busy with exactly that delivery, and a
/// busy worker runs exactly one delivery, which is its own.
pub proof fn lemma_one_call_per_delivery<T, E>(v: PoolView<T, E>, d: int, worker: int)
    requires
        v.wf(),
        0 <= d < v.delivered.len(),
        v.has_worker(worker),
    ensures
        v.has_worker(v.receivers[d]),
        v.progress[d] == Progress::Running <==> v.in_flight[v.receivers[d]] == Some(d),
        v.in_flight[worker] == Some(d) ==> v.receivers[d] == worker && v.workers[worker]
            == WorkerState::Busy,
{
    assert(0 <= v.receivers[d] < v.workers.len());
    if v.in_flight[v.receivers[d]] == Some(d) {
        assert(v.in_flight[v.receivers[d]].is_some());
    }
    if v.in_flight[worker] == Some(d) {
        assert(v.in_flight[worker].is_some());
        assert(v.workers[worker] == WorkerState::Busy);
    }
}

/// A handler's return settles the delivery it ran, and that one only: the
/// delivery goes from running to succeeded or failed, as the handler said,
/// and every other delivery stays as it is. Asking for work settles nothing:
/// it adds at most one delivery, which is running.
pub proof fn lemma_progress_is_settled_once<T, E>(
    v: PoolView<T, E>,
    worker: int,
    result: Result<(), E>,
)
    requires
        v.wf(),
        v.has_worker(worker),
    ensures
        v.workers[worker] == WorkerState::Busy ==> ({
            let n = v.after_finish(worker, result);
            let at = v.in_flight[worker].unwrap();
            &&& v.progress[at] == Progress::Running
            &&& n.progress[at] == (if result.is_ok() {
                Progress::Succeeded
            } else {
                Progress::Failed
            })
            &&& n.progress.len() == v.progress.len()
            &&& forall|d: int| 0 <= d < v.progress.len() && d != at ==> n.progress[d] == v.progress[d]
        }),
        forall|d: int|
            0 <= d < v.progress.len() ==> v.after_next(worker).progress[d] == v.progress[d],
        forall|d: int|
            v.progress.len() <= d < v.after_next(worker).progress.len() ==> d == v.progress.len()
                && v.after_next(worker).progress[d] == Progress::Running,
{
    if v.workers[worker] == WorkerState::Busy {
        assert(v.in_flight[worker].is_some());
    }
}

/// A closed queue blocks no worker. An idle worker that asks for work is
/// given an item or told to leave, never to wait; the queue stays closed; and
/// the step lowers `remaining_work`. So after at most `remaining_work` worker
/// steps every worker has stopped, and the completion barrier opens.
pub proof fn lemma_closed_queue_never_blocks<T, E>(v: PoolView<T, E>, worker: int)
    requires
        v.wf(),
        v.closed(),
        v.has_worker(worker),
        v.workers[worker] == WorkerState::Idle,
    ensures
        v.next_action(worker) != WorkerAction::<T>::Wait,
        v.after_next(worker).closed(),
        v.after_next(worker).remaining_work() < v.remaining_work(),
{
    if v.pending.len() > 0 {
        lemma_load_update(v.workers, worker, WorkerState::Busy);
    } else {
        lemma_load_update(v.workers, worker, WorkerState::Stopped);
    }
}

/// A handler's return lowers `remaining_work`, whatever it returned, and
/// leaves a closed queue closed.
pub proof fn lemma_finish_makes_progress<T, E>(
    v: PoolView<T, E>,
    worker: int,
    result: Result<(), E>,
)
    requires
        v.wf(),
        v.has_worker(worker),
        v.workers[worker] == WorkerState::Busy,
    ensures
        v.after_finish(worker, result).remaining_work() < v.remaining_work(),
        v.after_finish(worker, result).closed() == v.closed(),
{
    match result {
        Ok(_) => {
            lemma_load_update(v.workers, worker, WorkerState::Idle);
        },
        Err(_) => {
            lemma_load_update(v.workers, worker, WorkerState::Stopped);
        },
    }
}

/// While the barrier is shut some worker can still take a step: a pool in
/// which not every worker has stopped has a worker that is idle or busy.
pub proof fn lemma_some_worker_can_step<T, E>(v: PoolView<T, E>) -> (worker: int)
    requires
        v.wf(),
        !v.all_stopped(),
    ensures
        v.has_worker(worker),
        v.workers[worker] != WorkerState::Stopped,
{
    choose|w: int| 0 <= w < v.workers.len() && v.workers[w] != WorkerState::Stopped
}

/// A fatal error stops the worker that met it and nobody else. The other
/// workers and the queue are as before, so an idle one is still given the
/// oldest pending item; and the first error ever returned is what the
/// completion barrier reports.
pub proof fn lemma_failure_is_isolated<T, E>(v: PoolView<T, E>, worker: int, err: E)
    requires
        v.wf(),
        v.has_worker(worker),
        v.workers[worker] == WorkerState::Busy,
    ensures
        ({
            let n = v.after_finish(worker, Err(err));
            &&& n.workers[worker] == WorkerState::Stopped
            &&& n.pending == v.pending
            &&& forall|o: int|
                v.has_worker(o) && o != worker ==> n.workers[o] == v.workers[o]
                    && n.item_in_flight(o) == v.item_in_flight(o) && n.next_action(o)
                    == v.next_action(o)
            &&& n.failures == v.failures.push(err)
            &&& n.outcome() == Err::<(), E>(n.failures[0])
            &&& v.failures.len() == 0 ==> n.outcome() == Err::<(), E>(err)
            &&& v.failures.len() > 0 ==> n.outcome() == v.outcome()
        }),
{
}

/// The engine sees only what handlers return. The outcome is `Ok` exactly as
/// long as no handler returned an error, and a handler that returns `Ok`,
/// whatever it met and noted elsewhere, leaves the outcome as it was.
pub proof fn lemma_soft_failures_are_invisible<T, E>(v: PoolView<T, E>, worker: int)
    requires
        v.wf(),
        v.has_worker(worker),
        v.workers[worker] == WorkerState::Busy,
    ensures
        v.outcome().is_ok() <==> v.failures.len() == 0,
        v.after_finish(worker, Ok(())).outcome() == v.outcome(),
        v.after_finish(worker, Ok(())).failures == v.failures,
        v.after_finish(worker, Ok(())).workers[worker] == WorkerState::Idle,
{
}

/// With a single worker the items are processed in the order in which they
/// were sent: the processed items are the first of the sent ones, the item in
/// flight is the next, and every delivery went to worker 0.
pub proof fn lemma_single_worker_in_order<T, E>(v: PoolView<T, E>)
    requires
        v.wf(),
        v.thread_count() == 1,
    ensures
        v.processed.len() <= v.sent.len(),
        v.processed == v.sent.take(v.processed.len() as int),
        v.in_flight[0].is_some() ==> v.processed.len() < v.sent.len() && v.item_in_flight(0)
            == Some(v.sent[v.processed.len() as int]),
        forall|i: int| 0 <= i < v.receivers.len() ==> v.receivers[i] == 0,
{
    lemma_delivered_once(v);
    let p = v.processed.len() as int;
    assert(v.processed + slot_items(v.item_in_flight(0)) == v.delivered);
    assert(v.processed =~= v.delivered.take(p));
    assert(v.sent.take(p) =~= v.delivered.take(p));
    if v.in_flight[0].is_some() {
        assert(v.delivered[p] == v.item_in_flight(0).unwrap());
        assert(v.delivered[p] == v.sent[p]);
    }
}

/// Entering the completion barrier again changes nothing: the state, the
/// answer whether every worker has stopped, and the outcome are those of the
/// first time.
pub proof fn lemma_complete_is_idempotent<T, E>(v: PoolView<T, E>)
    ensures
        v.after_complete().after_complete() == v.after_complete(),
        v.after_complete().all_stopped() == v.all_stopped(),
        v.after_complete().outcome() == v.outcome(),
{
}

/// Once every worker has stopped the pool is at rest: a worker that asks is
/// told to leave, a send is refused, and neither changes the state. The
/// outcome that the barrier reported stands.
pub proof fn lemma_stopped_pool_is_at_rest<T, E>(v: PoolView<T, E>, worker: int, item: T)
    requires
        v.wf(),
        v.all_stopped(),
        v.has_worker(worker),
    ensures
        v.after_next(worker) == v,
        v.next_action(worker) == WorkerAction::<T>::Exit,
        !v.accepts_send(),
        v.after_send(item) == v,
        count(v.workers, WorkerState::Busy) == 0,
{
    lemma_count_uniform(v.workers, WorkerState::Stopped, WorkerState::Busy);
}

} // verus!
