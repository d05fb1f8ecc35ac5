//! The queue that carries events from the architecture to a frame-based
//! engine: events are pushed as they are sent and drained once per frame.
use vstd::prelude::*;

verus! {

/// Events waiting to be forwarded, oldest first.
pub struct QEventBridge<M> {
    queue: Vec<M>,
}

impl<M> QEventBridge<M> {
    /// The waiting events, oldest first.
    pub closed spec fn pending(&self) -> Seq<M> {
        self.queue@
    }

    /// An empty queue.
    pub fn new() -> (r: QEventBridge<M>)
        ensures
            r.pending() == Seq::<M>::empty(),
    {
        QEventBridge { queue: Vec::new() }
    }

    /// Queues `message` after the waiting ones.
    pub fn push(&mut self, message: M)
        ensures
            final(self).pending() == old(self).pending().push(message),
    {
        self.queue.push(message);
    }

    /// Takes every waiting event, oldest first, and leaves the queue empty.
    pub fn drain(&mut self) -> (r: Vec<M>)
        ensures
            r@ == old(self).pending(),
            final(self).pending() == Seq::<M>::empty(),
    {
        let mut taken: Vec<M> = Vec::new();
        std::mem::swap(&mut taken, &mut self.queue);
        taken
    }

    /// Number of waiting events.
    pub fn len(&self) -> (r: usize)
        ensures
            r == self.pending().len(),
    {
        self.queue.len()
    }

    /// Whether no event is waiting.
    pub fn is_empty(&self) -> (r: bool)
        ensures
            r == (self.pending().len() == 0),
    {
        self.queue.len() == 0
    }
}

impl<M> Default for QEventBridge<M> {
    /// An empty queue.
    fn default() -> (r: QEventBridge<M>)
        ensures
            r.pending() == Seq::<M>::empty(),
    {
        QEventBridge::new()
    }
}

} // verus!
