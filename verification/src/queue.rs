use std::collections::VecDeque;
use vstd::prelude::*;

verus! {

/// Why a send was refused.
#[derive(Clone, Copy, Debug, PartialEq, Eq, Structural)]
pub enum SendError {
    /// Every consumer has already left, so nothing sent now could ever be
    /// received.
    ChannelClosed,
}

/// What a consumer gets when it asks the queue for an item.
#[derive(Debug, PartialEq, Eq)]
pub enum Received<T> {
    /// The oldest item of the queue, now taken out.
    Item(T),
    /// Nothing is queued, but a producer may still send.
    Empty,
    /// Nothing is queued and no producer is left.
    Closed,
}

/// The mathematical state of a queue.
pub struct QueueView<T> {
    /// The queued items, oldest first.
    pub pending: Seq<T>,
    /// Whether the owner of the queue still keeps it open.
    pub held_open: bool,
    /// Number of live producer handles.
    pub producers: nat,
    /// Number of consumers that have not left.
    pub consumers: nat,
}

impl<T> QueueView<T> {
    /// No producer is left: neither the owner nor a handle keeps the queue
    /// open.
    pub open spec fn closed(self) -> bool {
        !self.held_open && self.producers == 0
    }
}

/// A first-in, first-out queue of work items between any number of producer
/// handles and a fixed set of consumers.
///
/// Producers are counted, not named: the queue closes for the consumers once
/// its owner has released it and the last handle is dropped. It closes for
/// the producers once the last consumer has left.
pub struct WorkQueue<T> {
    items: VecDeque<T>,
    held_open: bool,
    producers: usize,
    consumers: usize,
}

impl<T> View for WorkQueue<T> {
    type V = QueueView<T>;

    closed spec fn view(&self) -> QueueView<T> {
        QueueView {
            pending: self.items@,
            held_open: self.held_open,
            producers: self.producers as nat,
            consumers: self.consumers as nat,
        }
    }
}

impl<T> WorkQueue<T> {
    /// An empty queue for `consumers` consumers, held open by its owner.
    pub fn new(consumers: usize) -> (queue: Self)
        ensures
            queue@ == (QueueView::<T> {
                pending: Seq::empty(),
                held_open: true,
                producers: 0,
                consumers: consumers as nat,
            }),
    {
        WorkQueue { items: VecDeque::new(), held_open: true, producers: 0, consumers }
    }

    /// Number of queued items.
    pub fn len(&self) -> (n: usize)
        ensures
            n == self@.pending.len(),
    {
        self.items.len()
    }

    /// Number of live producer handles.
    pub fn producers(&self) -> (n: usize)
        ensures
            n == self@.producers,
    {
        self.producers
    }

    /// Number of consumers that have not left.
    pub fn consumers(&self) -> (n: usize)
        ensures
            n == self@.consumers,
    {
        self.consumers
    }

    /// Whether no producer is left.
    pub fn is_closed(&self) -> (r: bool)
        ensures
            r == self@.closed(),
    {
        !self.held_open && self.producers == 0
    }

    /// Counts one more producer handle.
    pub fn new_producer_handle(&mut self)
        requires
            !old(self)@.closed(),
            old(self)@.producers < usize::MAX,
        ensures
            final(self)@ == (QueueView { producers: old(self)@.producers + 1, ..old(self)@ }),
    {
        self.producers = self.producers + 1;
    }

    /// Counts one producer handle less.
    pub fn drop_producer_handle(&mut self)
        requires
            old(self)@.producers >= 1,
        ensures
            final(self)@ == (QueueView {
                producers: (old(self)@.producers - 1) as nat,
                ..old(self)@
            }),
    {
        self.producers = self.producers - 1;
    }

    /// The owner stops keeping the queue open.
    pub fn release(&mut self)
        ensures
            final(self)@ == (QueueView { held_open: false, ..old(self)@ }),
    {
        self.held_open = false;
    }

    /// Counts one consumer less.
    pub fn consumer_left(&mut self)
        requires
            old(self)@.consumers >= 1,
        ensures
            final(self)@ == (QueueView {
                consumers: (old(self)@.consumers - 1) as nat,
                ..old(self)@
            }),
    {
        self.consumers = self.consumers - 1;
    }

    /// Queues `item` behind all earlier ones, unless no consumer is left:
    /// then nothing changes and the send fails.
    pub fn send(&mut self, item: T) -> (r: Result<(), SendError>)
        requires
            old(self)@.producers >= 1,
        ensures
            old(self)@.consumers == 0 ==> r == Err::<(), SendError>(SendError::ChannelClosed)
                && final(self)@ == old(self)@,
            old(self)@.consumers > 0 ==> r == Ok::<(), SendError>(()) && final(self)@ == (QueueView {
                pending: old(self)@.pending.push(item),
                ..old(self)@
            }),
    {
        if self.consumers == 0 {
            return Err(SendError::ChannelClosed);
        }
        self.items.push_back(item);
        Ok(())
    }

    /// Takes the oldest item out, if there is one; else says whether more
    /// may come.
    pub fn receive(&mut self) -> (r: Received<T>)
        ensures
            old(self)@.pending.len() > 0 ==> r == Received::Item(old(self)@.pending[0])
                && final(self)@ == (QueueView {
                pending: old(self)@.pending.skip(1),
                ..old(self)@
            }),
            old(self)@.pending.len() == 0 ==> final(self)@ == old(self)@ && r == (if old(
                self,
            )@.closed() {
                Received::<T>::Closed
            } else {
                Received::<T>::Empty
            }),
    {
        match self.items.pop_front() {
            Some(item) => {
                assert(self.items@ =~= old(self)@.pending.skip(1));
                Received::Item(item)
            },
            None => {
                if !self.held_open && self.producers == 0 {
                    Received::Closed
                } else {
                    Received::Empty
                }
            },
        }
    }
}

} // verus!
