//! A simple in-process event queue: events pushed by one part of the
//! editor and drained by another, newest first.

use vstd::prelude::*;

verus! {

/// A queue of pending events.
pub struct EventBus<E> {
    pub events: Vec<E>,
}

impl<E> EventBus<E> {
    /// An empty bus.
    pub fn new() -> (r: Self)
        ensures
            r.events@.len() == 0,
    {
        Self { events: Vec::new() }
    }

    /// Queues one event.
    pub fn send(&mut self, event: E)
        ensures
            final(self).events@ == old(self).events@.push(event),
    {
        self.events.push(event);
    }

    /// Takes the most recently queued event, if any.
    pub fn read(&mut self) -> (r: Option<E>)
        ensures
            old(self).events@.len() > 0 ==> (match r {
                Some(e) => e == old(self).events@.last() && final(self).events@ == old(self).events@.drop_last(),
                None => false,
            }),
            old(self).events@.len() == 0 ==> r is None && final(self).events@ == old(self).events@,
    {
        let length = self.events.len();
        if length > 0 {
            let e = self.events.remove(length - 1);
            proof {
                assert(self.events@ =~= old(self).events@.drop_last());
            }
            return Some(e);
        }
        None
    }
}

} // verus!
