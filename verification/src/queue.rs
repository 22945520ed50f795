//! The bounded, non-blocking message queues of the playback protocol.
//!
//! Each direction between the control thread and the audio thread is a
//! fixed-capacity FIFO. A `push` onto a full queue fails immediately and hands
//! the message back untouched, so the realtime side can drop it and move on; a
//! `pop` from an empty queue fails immediately. No operation blocks, and a
//! refused push leaves the queued messages and their order intact.

use std::collections::VecDeque;
use vstd::prelude::*;

verus! {

/// Slots in the control-to-engine queue.
pub const ENGINE_QUEUE_CAPACITY: usize = 64;

/// Slots in the engine-to-control queue.
pub const UI_QUEUE_CAPACITY: usize = 256;

/// A bounded FIFO carrying ownership-transferring messages.
pub struct BoundedQueue<T> {
    items: VecDeque<T>,
    capacity: usize,
}

impl<T> View for BoundedQueue<T> {
    type V = Seq<T>;

    closed spec fn view(&self) -> Seq<T> {
        self.items@
    }
}

impl<T> BoundedQueue<T> {
    /// How many messages the queue can hold at once.
    pub closed spec fn cap(&self) -> int {
        self.capacity as int
    }

    pub fn new(capacity: usize) -> (q: Self)
        ensures
            q@ == Seq::<T>::empty(),
            q.cap() == capacity,
    {
        BoundedQueue { items: VecDeque::new(), capacity }
    }

    /// Append a message at the back. On a full queue this fails at once,
    /// returning the message, and leaves every queued message in place.
    pub fn push(&mut self, msg: T) -> (r: Result<(), T>)
        ensures
            final(self).cap() == old(self).cap(),
            match r {
                Ok(()) => old(self)@.len() < old(self).cap() && final(self)@ == old(self)@.push(
                    msg,
                ),
                Err(back) => old(self)@.len() >= old(self).cap() && final(self)@ == old(self)@
                    && back == msg,
            },
    {
        if self.items.len() >= self.capacity {
            Err(msg)
        } else {
            self.items.push_back(msg);
            Ok(())
        }
    }

    /// Take the oldest message. On an empty queue this fails at once.
    pub fn pop(&mut self) -> (r: Option<T>)
        ensures
            final(self).cap() == old(self).cap(),
            match r {
                Some(front) => old(self)@.len() > 0 && front == old(self)@[0] && final(self)@
                    == old(self)@.subrange(1, old(self)@.len() as int),
                None => old(self)@.len() == 0 && final(self)@ == old(self)@,
            },
    {
        self.items.pop_front()
    }

    pub fn len(&self) -> (n: usize)
        ensures
            n == self@.len(),
    {
        self.items.len()
    }
}

} // verus!
