use crate::completion::CompletionState;
use crate::laws::lemma_every_item_processed;
use crate::model::{
    count, lemma_complete_wf, lemma_count_full, lemma_count_uniform, lemma_count_update,
    lemma_finish_wf, lemma_init_wf, lemma_load_update, lemma_next_wf, lemma_send_wf,
    lemma_with_handle_wf, lemma_without_handle_wf, one_if, PoolView, Progress, WorkerAction,
    WorkerState,
};
use crate::queue::{Received, SendError, WorkQueue};
use vstd::prelude::*;

verus! {

/// A fixed set of workers around one queue of work items and one completion
/// state.
///
/// The pool holds every decision of the engine and none of its threads: a
/// worker thread asks `next` for work, runs the handler outside the pool, and
/// reports with `finish`; producers call `send`; the barrier calls `complete`
/// until it answers `true`, then reads `result`.
pub struct WorkerPool<T, E> {
    name: String,
    queue: WorkQueue<T>,
    workers: Vec<WorkerState>,
    completion: CompletionState<E>,
    history: Ghost<PoolView<T, E>>,
}

impl<T, E> View for WorkerPool<T, E> {
    type V = PoolView<T, E>;

    closed spec fn view(&self) -> PoolView<T, E> {
        self.history@
    }
}

/// Whether `handler` can return the error `err` for some item.
pub open spec fn returned_by<T, E, F: Fn(T) -> Result<(), E>>(handler: &F, err: E) -> bool {
    exists|item: T| handler.ensures((item,), Err::<(), E>(err))
}

impl<T, E> WorkerPool<T, E> {
    /// The fields hold what the view says.
    pub closed spec fn agrees(&self) -> bool {
        &&& self.queue@.pending == self@.pending
        &&& self.queue@.producers == self@.handles
        &&& self.queue@.held_open == self@.accepting
        &&& self.queue@.consumers + count(self@.workers, WorkerState::Stopped)
            == self@.workers.len()
        &&& self.workers@ == self@.workers
        &&& self.completion.first_error() == self@.first_error
    }

    /// The label that the pool was made with.
    pub closed spec fn label(&self) -> Seq<char> {
        self.name@
    }

    /// The invariant of the pool.
    pub open spec fn wf(&self) -> bool {
        self@.wf() && self.agrees()
    }

    /// A pool of `thread_count` idle workers under the label `name`, with an
    /// empty queue that the pool keeps open until `complete` is called.
    pub fn new(name: String, thread_count: usize) -> (pool: Self)
        requires
            thread_count >= 1,
        ensures
            pool.wf(),
            pool.label() == name@,
            pool@ == PoolView::<T, E>::init(thread_count as nat),
    {
        let mut workers: Vec<WorkerState> = Vec::new();
        let mut w: usize = 0;
        while w < thread_count
            invariant
                w <= thread_count,
                workers@ =~= Seq::new(w as nat, |k: int| WorkerState::Idle),
            decreases thread_count - w,
        {
            workers.push(WorkerState::Idle);
            w += 1;
        }
        proof {
            lemma_init_wf::<T, E>(thread_count as nat);
            lemma_count_full(workers@, WorkerState::Stopped);
            assert(workers@[0] == WorkerState::Idle);
            lemma_count_uniform(workers@, WorkerState::Idle, WorkerState::Stopped);
        }
        WorkerPool {
            name,
            queue: WorkQueue::new(thread_count),
            workers,
            completion: CompletionState::new(),
            history: Ghost(PoolView::init(thread_count as nat)),
        }
    }

    /// The label of the pool.
    pub fn name(&self) -> (name: &String)
        ensures
            name@ == self.label(),
    {
        &self.name
    }

    /// Number of workers.
    pub fn thread_count(&self) -> (n: usize)
        requires
            self.wf(),
        ensures
            n == self@.thread_count(),
    {
        self.workers.len()
    }

    /// Number of live producer handles.
    pub fn handles(&self) -> (n: usize)
        requires
            self.wf(),
        ensures
            n == self@.handles,
    {
        self.queue.producers()
    }

    /// Number of items sent and not yet handed to a worker.
    pub fn pending_len(&self) -> (n: usize)
        requires
            self.wf(),
        ensures
            n == self@.pending.len(),
    {
        self.queue.len()
    }

    /// What `worker` is doing.
    pub fn worker_state(&self, worker: usize) -> (s: WorkerState)
        requires
            self.wf(),
            self@.has_worker(worker as int),
        ensures
            s == self@.workers[worker as int],
    {
        self.workers[worker]
    }

    /// Whether the queue is closed: completion has begun and no handle is
    /// left.
    pub fn is_closed(&self) -> (r: bool)
        requires
            self.wf(),
        ensures
            r == self@.closed(),
    {
        self.queue.is_closed()
    }

    /// Issues one more producer handle.
    pub fn producer_handle(&mut self)
        requires
            old(self).wf(),
            !old(self)@.closed(),
            old(self)@.handles < usize::MAX,
        ensures
            final(self).wf(),
            final(self).label() == old(self).label(),
            final(self)@ == old(self)@.with_handle(),
    {
        proof {
            lemma_with_handle_wf(self@);
        }
        self.queue.new_producer_handle();
        self.history = Ghost(self.history@.with_handle());
    }

    /// Drops one producer handle. When it was the last one and completion has
    /// begun, the queue is closed from then on.
    pub fn release_handle(&mut self)
        requires
            old(self).wf(),
            old(self)@.handles >= 1,
        ensures
            final(self).wf(),
            final(self).label() == old(self).label(),
            final(self)@ == old(self)@.without_handle(),
    {
        proof {
            lemma_without_handle_wf(self@);
        }
        self.queue.drop_producer_handle();
        self.history = Ghost(self.history@.without_handle());
    }

    /// Sends `item` through a live handle. The item is queued behind all
    /// earlier ones unless every worker has already stopped; then nothing
    /// changes and the send fails with `ChannelClosed`.
    pub fn send(&mut self, item: T) -> (r: Result<(), SendError>)
        requires
            old(self).wf(),
            old(self)@.handles >= 1,
        ensures
            final(self).wf(),
            final(self).label() == old(self).label(),
            final(self)@ == old(self)@.after_send(item),
            r == (if old(self)@.accepts_send() {
                Ok::<(), SendError>(())
            } else {
                Err::<(), SendError>(SendError::ChannelClosed)
            }),
    {
        proof {
            lemma_send_wf(self@, item);
            lemma_count_full(self@.workers, WorkerState::Stopped);
        }
        let sent = self.queue.send(item);
        self.history = Ghost(self.history@.after_send(item));
        sent
    }

    /// Marks `worker`, which has not stopped yet, as stopped, and tells the
    /// queue that one consumer has left.
    fn stop(&mut self, worker: usize)
        requires
            worker < old(self).workers@.len(),
            old(self).workers@[worker as int] != WorkerState::Stopped,
            old(self).queue@.consumers + count(old(self).workers@, WorkerState::Stopped) == old(
                self,
            ).workers@.len(),
        ensures
            final(self).workers@ == old(self).workers@.update(worker as int, WorkerState::Stopped),
            final(self).queue@.consumers + count(final(self).workers@, WorkerState::Stopped)
                == final(self).workers@.len(),
            final(self).queue@.pending == old(self).queue@.pending,
            final(self).queue@.producers == old(self).queue@.producers,
            final(self).queue@.held_open == old(self).queue@.held_open,
            final(self).completion == old(self).completion,
            final(self).history == old(self).history,
            final(self).name == old(self).name,
    {
        proof {
            lemma_count_full(self.workers@, WorkerState::Stopped);
            lemma_count_update(
                self.workers@,
                worker as int,
                WorkerState::Stopped,
                WorkerState::Stopped,
            );
        }
        self.workers.set(worker, WorkerState::Stopped);
        self.queue.consumer_left();
    }

    /// A worker that holds no item asks for work. It is given the oldest
    /// pending item, or told to wait while the queue is empty and open, or
    /// told to leave once the queue is empty and closed. A worker that has
    /// stopped is told to leave again.
    pub fn next(&mut self, worker: usize) -> (action: WorkerAction<T>)
        requires
            old(self).wf(),
            old(self)@.has_worker(worker as int),
            old(self)@.workers[worker as int] != WorkerState::Busy,
        ensures
            final(self).wf(),
            final(self).label() == old(self).label(),
            final(self)@ == old(self)@.after_next(worker as int),
            action == old(self)@.next_action(worker as int),
    {
        proof {
            lemma_next_wf(self@, worker as int);
        }
        match self.workers[worker] {
            WorkerState::Idle => {},
            _ => {
                return WorkerAction::Exit;
            },
        }
        match self.queue.receive() {
            Received::Item(item) => {
                proof {
                    lemma_count_update(
                        self@.workers,
                        worker as int,
                        WorkerState::Busy,
                        WorkerState::Stopped,
                    );
                }
                self.workers.set(worker, WorkerState::Busy);
                self.history = Ghost(self.history@.after_next(worker as int));
                WorkerAction::Run(item)
            },
            Received::Closed => {
                self.stop(worker);
                self.history = Ghost(self.history@.after_next(worker as int));
                WorkerAction::Exit
            },
            Received::Empty => WorkerAction::Wait,
        }
    }

    /// A busy worker reports what its handler returned. On success the worker
    /// is idle again and the answer is `true`: go on. On an error the worker
    /// stops, the error is recorded unless one was recorded before, and the
    /// answer is `false`. No other worker and no queued item is touched.
    pub fn finish(&mut self, worker: usize, result: Result<(), E>) -> (go_on: bool)
        requires
            old(self).wf(),
            old(self)@.has_worker(worker as int),
            old(self)@.workers[worker as int] == WorkerState::Busy,
        ensures
            final(self).wf(),
            final(self).label() == old(self).label(),
            final(self)@ == old(self)@.after_finish(worker as int, result),
            go_on == result.is_ok(),
    {
        proof {
            lemma_finish_wf(self@, worker as int, result);
        }
        self.history = Ghost(self.history@.after_finish(worker as int, result));
        match result {
            Ok(_) => {
                proof {
                    lemma_count_update(
                        self.workers@,
                        worker as int,
                        WorkerState::Idle,
                        WorkerState::Stopped,
                    );
                }
                self.workers.set(worker, WorkerState::Idle);
                true
            },
            Err(e) => {
                self.stop(worker);
                self.completion.record(e);
                false
            },
        }
    }

    /// Enters the completion barrier: the pool stops keeping the queue open.
    /// The answer says whether every worker has stopped, that is whether the
    /// barrier may be left.
    pub fn complete(&mut self) -> (joined: bool)
        requires
            old(self).wf(),
        ensures
            final(self).wf(),
            final(self).label() == old(self).label(),
            final(self)@ == old(self)@.after_complete(),
            joined == old(self)@.all_stopped(),
    {
        proof {
            lemma_complete_wf(self@);
        }
        proof {
            lemma_count_full(self@.workers, WorkerState::Stopped);
        }
        self.queue.release();
        self.history = Ghost(self.history@.after_complete());
        self.queue.consumers() == 0
    }

    /// Runs the whole batch on the calling thread: enters the completion
    /// barrier, then lets one worker after the other take items and run
    /// `handler` on them until each has stopped. A worker stops at the first
    /// error its handler returns, and the next worker goes on with what is
    /// left.
    ///
    /// Afterwards every worker has stopped, so `complete` answers `true`.
    /// Every fatal error that was added came from `handler`, and where
    /// `handler` never fails none was added.
    pub fn drain<F: Fn(T) -> Result<(), E>>(&mut self, handler: &F)
        requires
            old(self).wf(),
            old(self)@.handles == 0,
            forall|w: int| old(self)@.has_worker(w) ==> old(self)@.workers[w] != WorkerState::Busy,
            forall|item: T| handler.requires((item,)),
        ensures
            final(self).wf(),
            final(self).label() == old(self).label(),
            final(self)@.closed(),
            final(self)@.all_stopped(),
            final(self)@.thread_count() == old(self)@.thread_count(),
            final(self)@.sent == old(self)@.sent,
            forall|d: int|
                0 <= d < final(self)@.delivered.len() ==> final(self)@.progress[d]
                    != Progress::Running,
            final(self)@.failures.len() < final(self)@.thread_count() ==> final(self)@.delivered
                == final(self)@.sent && final(self)@.processed.len() == final(self)@.sent.len(),
            old(self)@.failures.is_prefix_of(final(self)@.failures),
            forall|i: int|
                old(self)@.failures.len() <= i < final(self)@.failures.len() ==> returned_by(
                    handler,
                    #[trigger] final(self)@.failures[i],
                ),
            (forall|item: T, r: Result<(), E>| handler.ensures((item,), r) ==> r.is_ok())
                ==> final(self)@.failures == old(self)@.failures,
    {
        self.complete();
        let threads: usize = self.workers.len();
        let mut worker: usize = 0;
        while worker < threads
            invariant
                self.wf(),
                self.label() == old(self).label(),
                self@.closed(),
                threads == self@.workers.len(),
                worker <= threads,
                self@.sent == old(self)@.sent,
                forall|w: int| 0 <= w < worker ==> self@.workers[w] == WorkerState::Stopped,
                forall|w: int| self@.has_worker(w) ==> self@.workers[w] != WorkerState::Busy,
                forall|item: T| handler.requires((item,)),
                old(self)@.failures.is_prefix_of(self@.failures),
                forall|i: int|
                    old(self)@.failures.len() <= i < self@.failures.len() ==> returned_by(
                        handler,
                        #[trigger] self@.failures[i],
                    ),
                (forall|item: T, r: Result<(), E>| handler.ensures((item,), r) ==> r.is_ok())
                    ==> self@.failures == old(self)@.failures,
            decreases threads - worker,
        {
            let mut running: bool = true;
            while running
                invariant
                    self.wf(),
                    self.label() == old(self).label(),
                    self@.closed(),
                    threads == self@.workers.len(),
                    worker < threads,
                    self@.sent == old(self)@.sent,
                    !running ==> self@.workers[worker as int] == WorkerState::Stopped,
                    forall|w: int| 0 <= w < worker ==> self@.workers[w] == WorkerState::Stopped,
                    forall|w: int| self@.has_worker(w) ==> self@.workers[w] != WorkerState::Busy,
                    forall|item: T| handler.requires((item,)),
                    old(self)@.failures.is_prefix_of(self@.failures),
                    forall|i: int|
                        old(self)@.failures.len() <= i < self@.failures.len() ==> returned_by(
                            handler,
                            #[trigger] self@.failures[i],
                        ),
                    (forall|item: T, r: Result<(), E>| handler.ensures((item,), r) ==> r.is_ok())
                        ==> self@.failures == old(self)@.failures,
                decreases self@.remaining_work(), one_if(running),
            {
                let ghost before = self@;
                match self.next(worker) {
                    WorkerAction::Run(item) => {
                        let ghost taken = self@;
                        let result = handler(item);
                        proof {
                            lemma_load_update(before.workers, worker as int, WorkerState::Busy);
                            lemma_load_update(
                                taken.workers,
                                worker as int,
                                if result.is_ok() {
                                    WorkerState::Idle
                                } else {
                                    WorkerState::Stopped
                                },
                            );
                            if result.is_err() {
                                let e = result.unwrap_err();
                                assert(handler.ensures((item,), Err::<(), E>(e)));
                                assert(returned_by(handler, e));
                            }
                        }
                        running = self.finish(worker, result);
                    },
                    WorkerAction::Wait => {
                        assert(false);
                    },
                    WorkerAction::Exit => {
                        proof {
                            lemma_load_update(before.workers, worker as int, WorkerState::Stopped);
                        }
                        running = false;
                    },
                }
            }
            worker += 1;
        }
        proof {
            let v = self@;
            assert forall|d: int| 0 <= d < v.delivered.len() implies v.progress[d]
                != Progress::Running by {
                if v.progress[d] == Progress::Running {
                    assert(v.workers[v.receivers[d]] == WorkerState::Busy);
                }
            }
            if v.failures.len() < v.thread_count() {
                lemma_every_item_processed(v);
            }
        }
    }

    /// What the batch came to so far: `Ok`, or the first fatal error.
    pub fn result(&self) -> (r: Result<(), &E>)
        requires
            self.wf(),
        ensures
            r.is_ok() == self@.outcome().is_ok(),
            r.is_err() ==> Err::<(), E>(*r.unwrap_err()) == self@.outcome(),
    {
        self.completion.result()
    }
}

} // verus!
