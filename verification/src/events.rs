//! The queues that carry events from the systems that send them to the
//! systems that read them, within one frame.

use vstd::prelude::*;

verus! {

/// The events of one type that were sent and not yet handed out, oldest
/// first.
pub struct Events<T> {
    queue: Vec<T>,
}

impl<T> View for Events<T> {
    type V = Seq<T>;

    closed spec fn view(&self) -> Seq<T> {
        self.queue@
    }
}

impl<T> Events<T> {
    /// A queue without events.
    pub fn new() -> (events: Self)
        ensures
            events@ == Seq::<T>::empty(),
    {
        Events { queue: Vec::new() }
    }

    /// The number of events that wait.
    pub fn len(&self) -> (n: usize)
        ensures
            n == self@.len(),
    {
        self.queue.len()
    }

    /// Whether no event waits.
    pub fn is_empty(&self) -> (empty: bool)
        ensures
            empty == (self@.len() == 0),
    {
        self.queue.len() == 0
    }

    /// Puts `event` behind the events that wait.
    pub fn send(&mut self, event: T)
        ensures
            final(self)@ == old(self)@.push(event),
    {
        self.queue.push(event);
    }

    /// Hands out the events that wait, oldest first, and leaves the queue
    /// empty: no event is handed out twice.
    pub fn drain(&mut self) -> (events: Vec<T>)
        ensures
            events@ == old(self)@,
            final(self)@ == Seq::<T>::empty(),
    {
        let mut events: Vec<T> = Vec::new();
        std::mem::swap(&mut self.queue, &mut events);
        events
    }

    /// Drops the events that wait.
    pub fn clear(&mut self)
        ensures
            final(self)@ == Seq::<T>::empty(),
    {
        self.queue.clear();
    }
}

/// The queue after the events of `sent` were put into it one by one.
pub open spec fn after_sending<T>(queue: Seq<T>, sent: Seq<T>) -> Seq<T>
    decreases sent.len(),
{
    if sent.len() == 0 {
        queue
    } else {
        after_sending(queue.push(sent[0]), sent.skip(1))
    }
}

/// Events come out in the order in which they went in: whatever is sent
/// into a queue, one event after the other, stands behind what waited there,
/// in the order of sending, each event once.
pub proof fn lemma_events_keep_their_order<T>(queue: Seq<T>, sent: Seq<T>)
    ensures
        after_sending(queue, sent) == queue + sent,
    decreases sent.len(),
{
    if sent.len() == 0 {
        assert(queue + sent =~= queue);
    } else {
        lemma_events_keep_their_order(queue.push(sent[0]), sent.skip(1));
        assert(queue.push(sent[0]) + sent.skip(1) =~= queue + sent);
    }
}

} // verus!
