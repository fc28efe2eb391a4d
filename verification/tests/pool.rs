use rrd_migration::completion::CompletionState;
use rrd_migration::model::{WorkerAction, WorkerState};
use rrd_migration::pool::WorkerPool;
use rrd_migration::queue::SendError;

/// Runs the workers one after another, in turns, until each has stopped or
/// waits, and returns the items in the order in which the handler was called,
/// each with the worker that ran it.
fn run_round_robin<F>(pool: &mut WorkerPool<u32, String>, mut handler: F) -> Vec<(usize, u32)>
where
    F: FnMut(u32) -> Result<(), String>,
{
    let mut calls: Vec<(usize, u32)> = Vec::new();
    let threads: usize = pool.thread_count();
    loop {
        let mut moved = false;
        for worker in 0..threads {
            if pool.worker_state(worker) != WorkerState::Idle {
                continue;
            }
            if let WorkerAction::Run(item) = pool.next(worker) {
                calls.push((worker, item));
                let result = handler(item);
                pool.finish(worker, result);
                moved = true;
            } else if pool.worker_state(worker) == WorkerState::Stopped {
                moved = true;
            }
        }
        if !moved {
            return calls;
        }
    }
}

fn fail_on_seven(item: u32) -> Result<(), String> {
    if item == 7 {
        Err(format!("fatal on {item}"))
    } else {
        Ok(())
    }
}

#[test]
fn fresh_pool_is_idle_and_open() {
    let pool: WorkerPool<u32, String> = WorkerPool::new("batch".to_string(), 4);
    assert_eq!(pool.name(), "batch");
    assert_eq!(pool.thread_count(), 4);
    assert_eq!(pool.handles(), 0);
    assert_eq!(pool.pending_len(), 0);
    assert!(!pool.is_closed());
    for worker in 0..4 {
        assert_eq!(pool.worker_state(worker), WorkerState::Idle);
    }
    assert_eq!(pool.result(), Ok(()));
}

#[test]
fn handles_are_counted() {
    let mut pool: WorkerPool<u32, String> = WorkerPool::new("batch".to_string(), 1);
    pool.producer_handle();
    pool.producer_handle();
    pool.producer_handle();
    assert_eq!(pool.handles(), 3);
    pool.release_handle();
    assert_eq!(pool.handles(), 2);
    pool.release_handle();
    pool.release_handle();
    assert_eq!(pool.handles(), 0);
    // The pool itself still keeps the queue open.
    assert!(!pool.is_closed());
}

#[test]
fn queue_closes_when_last_handle_goes_after_completion_began() {
    let mut pool: WorkerPool<u32, String> = WorkerPool::new("batch".to_string(), 2);
    pool.producer_handle();
    pool.producer_handle();
    assert!(!pool.complete());
    assert!(!pool.is_closed());
    pool.release_handle();
    assert!(!pool.is_closed());
    pool.release_handle();
    assert!(pool.is_closed());
}

#[test]
fn items_come_out_in_the_order_sent() {
    let mut pool: WorkerPool<u32, String> = WorkerPool::new("batch".to_string(), 2);
    pool.producer_handle();
    assert_eq!(pool.send(11), Ok(()));
    assert_eq!(pool.send(22), Ok(()));
    assert_eq!(pool.send(33), Ok(()));
    assert_eq!(pool.pending_len(), 3);
    assert_eq!(pool.next(0), WorkerAction::Run(11));
    assert_eq!(pool.worker_state(0), WorkerState::Busy);
    assert_eq!(pool.next(1), WorkerAction::Run(22));
    assert_eq!(pool.pending_len(), 1);
    assert!(pool.finish(1, Ok(())));
    assert_eq!(pool.worker_state(1), WorkerState::Idle);
    assert_eq!(pool.next(1), WorkerAction::Run(33));
    assert_eq!(pool.pending_len(), 0);
}

#[test]
fn worker_waits_while_queue_is_empty_and_open() {
    let mut pool: WorkerPool<u32, String> = WorkerPool::new("batch".to_string(), 1);
    // Open through the pool alone.
    assert_eq!(pool.next(0), WorkerAction::Wait);
    pool.producer_handle();
    assert_eq!(pool.next(0), WorkerAction::Wait);
    // Completion has begun, but a handle is still live.
    assert!(!pool.complete());
    assert_eq!(pool.next(0), WorkerAction::Wait);
    assert_eq!(pool.worker_state(0), WorkerState::Idle);
    pool.release_handle();
    assert_eq!(pool.next(0), WorkerAction::Exit);
    assert_eq!(pool.worker_state(0), WorkerState::Stopped);
    assert!(pool.complete());
}

#[test]
fn closed_queue_is_drained_before_workers_leave() {
    let mut pool: WorkerPool<u32, String> = WorkerPool::new("batch".to_string(), 1);
    pool.producer_handle();
    assert_eq!(pool.send(1), Ok(()));
    assert_eq!(pool.send(2), Ok(()));
    pool.release_handle();
    assert!(!pool.complete());
    assert!(pool.is_closed());
    assert_eq!(pool.next(0), WorkerAction::Run(1));
    assert!(pool.finish(0, Ok(())));
    assert_eq!(pool.next(0), WorkerAction::Run(2));
    assert!(pool.finish(0, Ok(())));
    assert_eq!(pool.next(0), WorkerAction::Exit);
    assert!(pool.complete());
    assert_eq!(pool.result(), Ok(()));
}

#[test]
fn stopped_worker_is_told_to_leave_again() {
    let mut pool: WorkerPool<u32, String> = WorkerPool::new("batch".to_string(), 2);
    pool.producer_handle();
    assert_eq!(pool.send(5), Ok(()));
    assert_eq!(pool.next(0), WorkerAction::Run(5));
    assert!(!pool.finish(0, Err("broken".to_string())));
    assert_eq!(pool.worker_state(0), WorkerState::Stopped);
    assert_eq!(pool.send(6), Ok(()));
    assert_eq!(pool.next(0), WorkerAction::Exit);
    assert_eq!(pool.pending_len(), 1);
    assert_eq!(pool.next(1), WorkerAction::Run(6));
}

#[test]
fn send_fails_once_every_worker_has_stopped() {
    let mut pool: WorkerPool<u32, String> = WorkerPool::new("batch".to_string(), 2);
    pool.producer_handle();
    assert_eq!(pool.send(1), Ok(()));
    assert_eq!(pool.send(2), Ok(()));
    assert_eq!(pool.send(3), Ok(()));
    assert_eq!(pool.next(0), WorkerAction::Run(1));
    assert_eq!(pool.next(1), WorkerAction::Run(2));
    assert!(!pool.finish(0, Err("first".to_string())));
    // One worker is left: the send is still taken.
    assert_eq!(pool.send(4), Ok(()));
    assert!(!pool.finish(1, Err("second".to_string())));
    assert_eq!(pool.send(5), Err(SendError::ChannelClosed));
    assert_eq!(pool.pending_len(), 2);
    assert_eq!(pool.result(), Err(&"first".to_string()));
}

#[test]
fn first_error_wins() {
    let mut pool: WorkerPool<u32, String> = WorkerPool::new("batch".to_string(), 3);
    pool.producer_handle();
    for item in 0..3 {
        assert_eq!(pool.send(item), Ok(()));
    }
    assert_eq!(pool.next(0), WorkerAction::Run(0));
    assert_eq!(pool.next(1), WorkerAction::Run(1));
    assert_eq!(pool.next(2), WorkerAction::Run(2));
    assert!(!pool.finish(2, Err("from two".to_string())));
    assert!(!pool.finish(0, Err("from zero".to_string())));
    assert!(pool.finish(1, Ok(())));
    assert_eq!(pool.result(), Err(&"from two".to_string()));
}

#[test]
fn three_workers_one_fatal_item() {
    let mut pool: WorkerPool<u32, String> = WorkerPool::new("batch".to_string(), 3);
    pool.producer_handle();
    for item in 1..=10 {
        assert_eq!(pool.send(item), Ok(()));
    }
    pool.release_handle();
    assert!(!pool.complete());
    let calls = run_round_robin(&mut pool, fail_on_seven);
    assert!(pool.complete());
    let mut items: Vec<u32> = calls.iter().map(|c| c.1).collect();
    items.sort();
    assert_eq!(items, vec![1, 2, 3, 4, 5, 6, 7, 8, 9, 10]);
    assert_eq!(pool.result(), Err(&"fatal on 7".to_string()));
    // Item 7 went to worker 0 in this schedule; the others went on.
    let after_seven: Vec<usize> = calls.iter().filter(|c| c.1 > 7).map(|c| c.0).collect();
    assert_eq!(after_seven, vec![1, 2, 1]);
    assert_eq!(pool.worker_state(0), WorkerState::Stopped);
}

#[test]
fn each_item_reaches_exactly_one_worker() {
    let mut pool: WorkerPool<u32, String> = WorkerPool::new("batch".to_string(), 4);
    pool.producer_handle();
    for item in 0..50 {
        assert_eq!(pool.send(item), Ok(()));
    }
    pool.release_handle();
    pool.complete();
    let calls = run_round_robin(&mut pool, |_| Ok(()));
    assert!(pool.complete());
    assert_eq!(calls.len(), 50);
    let mut seen = vec![0u32; 50];
    for call in &calls {
        seen[call.1 as usize] += 1;
    }
    assert!(seen.iter().all(|n| *n == 1));
    assert_eq!(pool.pending_len(), 0);
}

#[test]
fn several_handles_feed_one_queue() {
    let mut pool: WorkerPool<u32, String> = WorkerPool::new("batch".to_string(), 2);
    pool.producer_handle();
    pool.producer_handle();
    assert_eq!(pool.send(1), Ok(()));
    pool.release_handle();
    assert_eq!(pool.send(2), Ok(()));
    pool.complete();
    // One handle is still live: nobody leaves.
    let calls = run_round_robin(&mut pool, |_| Ok(()));
    assert_eq!(calls.len(), 2);
    assert!(!pool.complete());
    pool.release_handle();
    let calls = run_round_robin(&mut pool, |_| Ok(()));
    assert_eq!(calls.len(), 0);
    assert!(pool.complete());
}

#[test]
fn completion_opens_for_any_worker_count() {
    for threads in 1..=8 {
        let mut pool: WorkerPool<u32, String> = WorkerPool::new("batch".to_string(), threads);
        pool.producer_handle();
        for item in 0..20 {
            assert_eq!(pool.send(item), Ok(()));
        }
        pool.release_handle();
        assert!(!pool.complete());
        let calls = run_round_robin(&mut pool, |_| Ok(()));
        assert_eq!(calls.len(), 20);
        assert!(pool.complete());
        assert_eq!(pool.result(), Ok(()));
    }
}

#[test]
fn soft_failures_do_not_reach_the_pool() {
    let mut pool: WorkerPool<u32, String> = WorkerPool::new("batch".to_string(), 3);
    pool.producer_handle();
    for item in 0..30 {
        assert_eq!(pool.send(item), Ok(()));
    }
    pool.release_handle();
    pool.complete();
    let mut soft: usize = 0;
    let calls = run_round_robin(&mut pool, |item| {
        if item % 3 == 0 {
            soft += 1;
        }
        Ok(())
    });
    assert!(pool.complete());
    assert_eq!(pool.result(), Ok(()));
    assert_eq!(soft, 10);
    assert_eq!(calls.len(), 30);
}

#[test]
fn single_worker_keeps_send_order() {
    let mut pool: WorkerPool<u32, String> = WorkerPool::new("batch".to_string(), 1);
    pool.producer_handle();
    let sent: Vec<u32> = vec![9, 3, 7, 1, 8, 2];
    for item in &sent {
        assert_eq!(pool.send(*item), Ok(()));
    }
    pool.release_handle();
    pool.complete();
    let calls = run_round_robin(&mut pool, |_| Ok(()));
    let order: Vec<u32> = calls.iter().map(|c| c.1).collect();
    assert_eq!(order, sent);
    assert!(calls.iter().all(|c| c.0 == 0));
}

#[test]
fn complete_twice_gives_the_same_answer() {
    let mut clean: WorkerPool<u32, String> = WorkerPool::new("batch".to_string(), 2);
    clean.complete();
    run_round_robin(&mut clean, |_| Ok(()));
    assert!(clean.complete());
    assert_eq!(clean.result(), Ok(()));
    assert!(clean.complete());
    assert_eq!(clean.result(), Ok(()));

    let mut failed: WorkerPool<u32, String> = WorkerPool::new("batch".to_string(), 2);
    failed.producer_handle();
    assert_eq!(failed.send(7), Ok(()));
    failed.release_handle();
    failed.complete();
    run_round_robin(&mut failed, fail_on_seven);
    assert!(failed.complete());
    assert_eq!(failed.result(), Err(&"fatal on 7".to_string()));
    assert!(failed.complete());
    assert_eq!(failed.result(), Err(&"fatal on 7".to_string()));
}

#[test]
fn completion_state_keeps_the_first_error() {
    let mut state: CompletionState<u8> = CompletionState::new();
    assert!(!state.is_errored());
    assert_eq!(state.result(), Ok(()));
    state.record(4);
    assert!(state.is_errored());
    assert_eq!(state.result(), Err(&4));
    state.record(9);
    assert_eq!(state.result(), Err(&4));
}

#[test]
fn drain_runs_the_batch_in_order_on_one_worker() {
    let mut pool: WorkerPool<u32, String> = WorkerPool::new("batch".to_string(), 1);
    pool.producer_handle();
    for item in [4, 8, 15, 16, 23, 42] {
        assert_eq!(pool.send(item), Ok(()));
    }
    pool.release_handle();
    let seen = std::cell::RefCell::new(Vec::new());
    pool.drain(&|item: u32| {
        seen.borrow_mut().push(item);
        Ok(())
    });
    assert_eq!(seen.into_inner(), vec![4, 8, 15, 16, 23, 42]);
    assert!(pool.is_closed());
    assert!(pool.complete());
    assert_eq!(pool.pending_len(), 0);
    assert_eq!(pool.result(), Ok(()));
}

#[test]
fn drain_goes_on_with_the_next_worker_after_a_fatal_error() {
    let mut pool: WorkerPool<u32, String> = WorkerPool::new("batch".to_string(), 2);
    pool.producer_handle();
    for item in 5..=9 {
        assert_eq!(pool.send(item), Ok(()));
    }
    pool.release_handle();
    let seen = std::cell::RefCell::new(Vec::new());
    pool.drain(&|item: u32| {
        seen.borrow_mut().push(item);
        fail_on_seven(item)
    });
    assert_eq!(seen.into_inner(), vec![5, 6, 7, 8, 9]);
    assert_eq!(pool.worker_state(0), WorkerState::Stopped);
    assert_eq!(pool.worker_state(1), WorkerState::Stopped);
    assert!(pool.complete());
    assert_eq!(pool.pending_len(), 0);
    assert_eq!(pool.result(), Err(&"fatal on 7".to_string()));
}

#[test]
fn drain_with_one_worker_stops_at_the_fatal_error() {
    let mut pool: WorkerPool<u32, String> = WorkerPool::new("batch".to_string(), 1);
    pool.producer_handle();
    for item in 5..=9 {
        assert_eq!(pool.send(item), Ok(()));
    }
    pool.release_handle();
    let seen = std::cell::RefCell::new(Vec::new());
    pool.drain(&|item: u32| {
        seen.borrow_mut().push(item);
        fail_on_seven(item)
    });
    assert_eq!(seen.into_inner(), vec![5, 6, 7]);
    assert!(pool.complete());
    assert_eq!(pool.pending_len(), 2);
    assert_eq!(pool.result(), Err(&"fatal on 7".to_string()));
}

#[test]
fn drain_of_an_empty_pool_stops_every_worker() {
    let mut pool: WorkerPool<u32, String> = WorkerPool::new("batch".to_string(), 3);
    pool.drain(&|_item: u32| Ok(()));
    for worker in 0..3 {
        assert_eq!(pool.worker_state(worker), WorkerState::Stopped);
    }
    assert!(pool.complete());
    assert_eq!(pool.result(), Ok(()));
}
