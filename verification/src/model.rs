use vstd::prelude::*;

verus! {

/// What one worker of a pool is doing.
#[derive(Clone, Copy, Debug, PartialEq, Eq, Structural)]
pub enum WorkerState {
    /// It holds no item and will ask for the next one.
    Idle,
    /// The handler is running on the item it was given.
    Busy,
    /// It has left its loop, after the queue closed or after a fatal error.
    Stopped,
}

/// How far one delivery has come.
#[derive(Clone, Copy, Debug, PartialEq, Eq, Structural)]
pub enum Progress {
    /// The handler is running on the item.
    Running,
    /// The handler returned success.
    Succeeded,
    /// The handler returned a fatal error.
    Failed,
}

/// The mathematical state of a pool: what is queued, what every worker is
/// doing, what was recorded, and the history of the batch so far.
pub struct PoolView<T, E> {
    /// The pool itself still keeps the queue open (completion has not begun).
    pub accepting: bool,
    /// Number of live producer handles.
    pub handles: nat,
    /// Items sent and not yet handed to a worker, oldest first.
    pub pending: Seq<T>,
    /// The state of each worker, by index.
    pub workers: Seq<WorkerState>,
    /// The delivery each worker's handler is running on, if any, as an index
    /// into `delivered`.
    pub in_flight: Seq<Option<int>>,
    /// The first fatal error recorded.
    pub first_error: Option<E>,
    /// Every item the queue accepted, in the order of acceptance.
    pub sent: Seq<T>,
    /// Every item handed to a worker, in the order of delivery.
    pub delivered: Seq<T>,
    /// For each delivery, the worker that received it.
    pub receivers: Seq<int>,
    /// For each delivery, how far it has come.
    pub progress: Seq<Progress>,
    /// Every item whose handler has returned, in the order of return.
    pub processed: Seq<T>,
    /// Every fatal error a handler returned, in the order of return.
    pub failures: Seq<E>,
}

/// What a worker is told when it asks for work.
#[derive(Debug, PartialEq, Eq)]
pub enum WorkerAction<T> {
    /// Run the handler on this item, then report its result.
    Run(T),
    /// The queue is empty but still open: block until something changes.
    Wait,
    /// Leave the loop: no item will come any more.
    Exit,
}

/// How much a worker in state `s` weighs in `PoolView::remaining_work`.
pub open spec fn weight(s: WorkerState) -> nat {
    match s {
        WorkerState::Idle => 2,
        WorkerState::Busy => 3,
        WorkerState::Stopped => 0,
    }
}

/// The sum of the weights of all workers.
pub open spec fn load(ws: Seq<WorkerState>) -> nat
    decreases ws.len(),
{
    if ws.len() == 0 {
        0
    } else {
        load(ws.drop_last()) + weight(ws.last())
    }
}

/// The number of workers that are in state `s`.
pub open spec fn count(ws: Seq<WorkerState>, s: WorkerState) -> nat
    decreases ws.len(),
{
    if ws.len() == 0 {
        0
    } else {
        count(ws.drop_last(), s) + one_if(ws.last() == s)
    }
}

/// One where `b` holds, else zero.
pub open spec fn one_if(b: bool) -> nat {
    if b {
        1
    } else {
        0
    }
}

/// The item an in-flight slot holds, as a sequence of length zero or one.
pub open spec fn slot_items<T>(slot: Option<T>) -> Seq<T> {
    match slot {
        Some(item) => seq![item],
        None => Seq::empty(),
    }
}

/// The first element of a sequence, if it has one.
pub open spec fn first_of<E>(errors: Seq<E>) -> Option<E> {
    if errors.len() > 0 {
        Some(errors[0])
    } else {
        None
    }
}

impl<T, E> PoolView<T, E> {
    /// A fresh pool of `threads` idle workers.
    pub open spec fn init(threads: nat) -> Self {
        PoolView {
            accepting: true,
            handles: 0,
            pending: Seq::empty(),
            workers: Seq::new(threads, |w: int| WorkerState::Idle),
            in_flight: Seq::new(threads, |w: int| None),
            first_error: None,
            sent: Seq::empty(),
            delivered: Seq::empty(),
            receivers: Seq::empty(),
            progress: Seq::empty(),
            processed: Seq::empty(),
            failures: Seq::empty(),
        }
    }

    /// Number of workers.
    pub open spec fn thread_count(self) -> nat {
        self.workers.len()
    }

    /// Whether `worker` names a worker of this pool.
    pub open spec fn has_worker(self, worker: int) -> bool {
        0 <= worker < self.workers.len()
    }

    /// The queue is closed: neither the pool nor any handle keeps it open.
    pub open spec fn closed(self) -> bool {
        !self.accepting && self.handles == 0
    }

    /// The item that the handler of `worker` is running on, if any.
    pub open spec fn item_in_flight(self, worker: int) -> Option<T> {
        match self.in_flight[worker] {
            Some(d) => Some(self.delivered[d]),
            None => None,
        }
    }

    /// Every worker has left its loop.
    pub open spec fn all_stopped(self) -> bool {
        forall|w: int| 0 <= w < self.workers.len() ==> self.workers[w] == WorkerState::Stopped
    }

    /// What the completion barrier reports: nothing, or the first fatal error.
    pub open spec fn outcome(self) -> Result<(), E> {
        match self.first_error {
            Some(e) => Err(e),
            None => Ok(()),
        }
    }

    /// A bound on the worker steps that can still happen once the queue is
    /// closed.
    pub open spec fn remaining_work(self) -> nat {
        3 * self.pending.len() + load(self.workers)
    }

    /// The invariant of every pool.
    pub open spec fn wf(self) -> bool {
        &&& self.workers.len() >= 1
        &&& self.in_flight.len() == self.workers.len()
        &&& self.receivers.len() == self.delivered.len()
        &&& self.progress.len() == self.delivered.len()
        &&& self.delivered + self.pending == self.sent
        &&& forall|i: int|
            0 <= i < self.receivers.len() ==> 0 <= #[trigger] self.receivers[i]
                < self.workers.len()
        &&& forall|w: int|
            0 <= w < self.workers.len() ==> (#[trigger] self.workers[w] == WorkerState::Busy
                <==> self.in_flight[w].is_some())
        &&& forall|w: int|
            0 <= w < self.workers.len() && (#[trigger] self.in_flight[w]).is_some() ==> {
                let d = self.in_flight[w].unwrap();
                &&& 0 <= d < self.delivered.len()
                &&& self.receivers[d] == w
                &&& self.progress[d] == Progress::Running
            }
        &&& forall|d: int|
            0 <= d < self.progress.len() && #[trigger] self.progress[d] == Progress::Running
                ==> self.in_flight[self.receivers[d]] == Some(d)
        &&& self.first_error == first_of(self.failures)
        &&& self.processed.len() + count(self.workers, WorkerState::Busy)
            == self.delivered.len()
        &&& self.failures.len() <= count(self.workers, WorkerState::Stopped)
        &&& self.failures.len() < count(self.workers, WorkerState::Stopped) ==> self.closed()
            && self.pending.len() == 0
        &&& self.workers.len() == 1 ==> self.processed + slot_items(self.item_in_flight(0))
            == self.delivered
    }

    /// The state after a new producer handle was issued.
    pub open spec fn with_handle(self) -> Self {
        PoolView { handles: self.handles + 1, ..self }
    }

    /// The state after a producer handle was dropped.
    pub open spec fn without_handle(self) -> Self {
        PoolView { handles: (self.handles - 1) as nat, ..self }
    }

    /// Whether a send is accepted: some worker is still there to receive.
    pub open spec fn accepts_send(self) -> bool {
        !self.all_stopped()
    }

    /// The state after `item` was sent.
    pub open spec fn after_send(self, item: T) -> Self {
        if self.accepts_send() {
            PoolView { pending: self.pending.push(item), sent: self.sent.push(item), ..self }
        } else {
            self
        }
    }

    /// What `worker` is told when it asks for work.
    pub open spec fn next_action(self, worker: int) -> WorkerAction<T> {
        if self.workers[worker] != WorkerState::Idle {
            WorkerAction::Exit
        } else if self.pending.len() > 0 {
            WorkerAction::Run(self.pending[0])
        } else if self.closed() {
            WorkerAction::Exit
        } else {
            WorkerAction::Wait
        }
    }

    /// The state after `worker` asked for work.
    pub open spec fn after_next(self, worker: int) -> Self {
        if self.workers[worker] != WorkerState::Idle {
            self
        } else if self.pending.len() > 0 {
            PoolView {
                pending: self.pending.skip(1),
                workers: self.workers.update(worker, WorkerState::Busy),
                in_flight: self.in_flight.update(worker, Some(self.delivered.len() as int)),
                delivered: self.delivered.push(self.pending[0]),
                receivers: self.receivers.push(worker),
                progress: self.progress.push(Progress::Running),
                ..self
            }
        } else if self.closed() {
            PoolView { workers: self.workers.update(worker, WorkerState::Stopped), ..self }
        } else {
            self
        }
    }

    /// The state after the handler of `worker` returned `result`.
    pub open spec fn after_finish(self, worker: int, result: Result<(), E>) -> Self {
        let processed = self.processed + slot_items(self.item_in_flight(worker));
        let in_flight = self.in_flight.update(worker, None);
        let at = self.in_flight[worker].unwrap();
        match result {
            Ok(_) => PoolView {
                workers: self.workers.update(worker, WorkerState::Idle),
                in_flight,
                processed,
                progress: self.progress.update(at, Progress::Succeeded),
                ..self
            },
            Err(e) => PoolView {
                workers: self.workers.update(worker, WorkerState::Stopped),
                in_flight,
                processed,
                progress: self.progress.update(at, Progress::Failed),
                first_error: if self.first_error.is_some() {
                    self.first_error
                } else {
                    Some(e)
                },
                failures: self.failures.push(e),
                ..self
            },
        }
    }

    /// The state after the completion barrier was entered.
    pub open spec fn after_complete(self) -> Self {
        PoolView { accepting: false, ..self }
    }
}

/// Replacing one worker's state changes the load by the difference of the two
/// weights.
pub proof fn lemma_load_update(ws: Seq<WorkerState>, w: int, s: WorkerState)
    requires
        0 <= w < ws.len(),
    ensures
        load(ws.update(w, s)) + weight(ws[w]) == load(ws) + weight(s),
    decreases ws.len(),
{
    if w == ws.len() - 1 {
        assert(ws.update(w, s).drop_last() =~= ws.drop_last());
    } else {
        assert(ws.update(w, s).drop_last() =~= ws.drop_last().update(w, s));
        lemma_load_update(ws.drop_last(), w, s);
    }
}

/// Replacing one worker's state moves one unit of the count from the old
/// state to the new one.
pub proof fn lemma_count_update(ws: Seq<WorkerState>, w: int, s: WorkerState, of: WorkerState)
    requires
        0 <= w < ws.len(),
    ensures
        count(ws.update(w, s), of) + one_if(ws[w] == of) == count(ws, of) + one_if(s == of),
    decreases ws.len(),
{
    if w == ws.len() - 1 {
        assert(ws.update(w, s).drop_last() =~= ws.drop_last());
    } else {
        assert(ws.update(w, s).drop_last() =~= ws.drop_last().update(w, s));
        lemma_count_update(ws.drop_last(), w, s, of);
    }
}

/// Where every worker is in state `s`, the count of `s` is the number of
/// workers and the count of any other state is zero.
pub proof fn lemma_count_uniform(ws: Seq<WorkerState>, s: WorkerState, of: WorkerState)
    requires
        forall|w: int| 0 <= w < ws.len() ==> ws[w] == s,
    ensures
        count(ws, of) == (if of == s {
            ws.len()
        } else {
            0
        }),
    decreases ws.len(),
{
    if ws.len() > 0 {
        lemma_count_uniform(ws.drop_last(), s, of);
    }
}

/// No more workers are in state `of` than there are workers, and all of them
/// are counted exactly where every worker is in that state.
pub proof fn lemma_count_full(ws: Seq<WorkerState>, of: WorkerState)
    ensures
        count(ws, of) <= ws.len(),
        count(ws, of) == ws.len() <==> (forall|w: int| 0 <= w < ws.len() ==> ws[w] == of),
    decreases ws.len(),
{
    if ws.len() > 0 {
        let front = ws.drop_last();
        lemma_count_full(front, of);
        if count(ws, of) == ws.len() {
            assert forall|w: int| 0 <= w < ws.len() implies ws[w] == of by {
                if w < front.len() {
                    assert(front[w] == of);
                }
            }
        }
        if forall|w: int| 0 <= w < ws.len() ==> ws[w] == of {
            assert forall|w: int| 0 <= w < front.len() implies front[w] == of by {
                assert(ws[w] == of);
            }
        }
    }
}

/// A fresh pool meets the invariant.
pub proof fn lemma_init_wf<T, E>(threads: nat)
    requires
        threads >= 1,
    ensures
        PoolView::<T, E>::init(threads).wf(),
{
    let v = PoolView::<T, E>::init(threads);
    lemma_count_uniform(v.workers, WorkerState::Idle, WorkerState::Busy);
    lemma_count_uniform(v.workers, WorkerState::Idle, WorkerState::Stopped);
    assert(v.delivered + v.pending =~= v.sent);
    assert(v.processed + slot_items(v.item_in_flight(0)) =~= v.delivered);
}

/// Issuing a handle to a queue that is not closed keeps the invariant.
pub proof fn lemma_with_handle_wf<T, E>(v: PoolView<T, E>)
    requires
        v.wf(),
        !v.closed(),
    ensures
        v.with_handle().wf(),
{
}

/// Dropping a handle keeps the invariant.
pub proof fn lemma_without_handle_wf<T, E>(v: PoolView<T, E>)
    requires
        v.wf(),
        v.handles >= 1,
    ensures
        v.without_handle().wf(),
{
}

/// Entering the completion barrier keeps the invariant.
pub proof fn lemma_complete_wf<T, E>(v: PoolView<T, E>)
    requires
        v.wf(),
    ensures
        v.after_complete().wf(),
{
}

/// Sending through a live handle keeps the invariant.
pub proof fn lemma_send_wf<T, E>(v: PoolView<T, E>, item: T)
    requires
        v.wf(),
        v.handles >= 1,
    ensures
        v.after_send(item).wf(),
{
    let n = v.after_send(item);
    if v.accepts_send() {
        assert(n.delivered + n.pending =~= n.sent);
    }
}

/// Asking for work keeps the invariant.
pub proof fn lemma_next_wf<T, E>(v: PoolView<T, E>, worker: int)
    requires
        v.wf(),
        v.has_worker(worker),
    ensures
        v.after_next(worker).wf(),
{
    let n = v.after_next(worker);
    if v.workers[worker] == WorkerState::Idle {
        if v.pending.len() > 0 {
            lemma_count_update(v.workers, worker, WorkerState::Busy, WorkerState::Busy);
            lemma_count_update(v.workers, worker, WorkerState::Busy, WorkerState::Stopped);
            assert(n.delivered + n.pending =~= n.sent);
            if v.workers.len() == 1 {
                assert(n.processed + slot_items(n.item_in_flight(0)) =~= n.delivered);
            }
        } else if v.closed() {
            lemma_count_update(v.workers, worker, WorkerState::Stopped, WorkerState::Busy);
            lemma_count_update(v.workers, worker, WorkerState::Stopped, WorkerState::Stopped);
        }
    }
}

/// A handler's return keeps the invariant.
pub proof fn lemma_finish_wf<T, E>(v: PoolView<T, E>, worker: int, result: Result<(), E>)
    requires
        v.wf(),
        v.has_worker(worker),
        v.workers[worker] == WorkerState::Busy,
    ensures
        v.after_finish(worker, result).wf(),
{
    let n = v.after_finish(worker, result);
    match result {
        Ok(_) => {
            lemma_count_update(v.workers, worker, WorkerState::Idle, WorkerState::Busy);
            lemma_count_update(v.workers, worker, WorkerState::Idle, WorkerState::Stopped);
        },
        Err(e) => {
            lemma_count_update(v.workers, worker, WorkerState::Stopped, WorkerState::Busy);
            lemma_count_update(v.workers, worker, WorkerState::Stopped, WorkerState::Stopped);
        },
    }
    assert(v.in_flight[worker].is_some());
    if v.workers.len() == 1 {
        assert(n.processed + slot_items(n.item_in_flight(0)) =~= n.delivered);
    }
}

} // verus!
