//! A monotonic counter handing out opaque identifiers.
//!
//! The editor draws frame ids and element ids from two such counters so that
//! UI operations can track list items and elements stably across mutations.
//! The counter is threaded through constructors explicitly; it never hands
//! the same value out twice until it reaches its ceiling, where it saturates.

use vstd::prelude::*;

verus! {

/// The next value that `n` steps to: one more, saturating at the ceiling.
pub open spec fn sat_inc(n: u32) -> u32 {
    if n < u32::MAX {
        (n + 1) as u32
    } else {
        n
    }
}

/// A source of identifiers: hands out `next`, `next + 1`, ... in order.
pub struct IdSource {
    pub next: u32,
}

impl IdSource {
    /// A fresh source, starting at zero.
    pub fn new() -> (s: Self)
        ensures
            s.next == 0,
    {
        Self { next: 0 }
    }

    /// Draws the next identifier. Values are unique until the counter
    /// saturates at `u32::MAX`.
    pub fn bump(&mut self) -> (id: u32)
        ensures
            id == old(self).next,
            final(self).next == sat_inc(old(self).next),
    {
        let id = self.next;
        if self.next < u32::MAX {
            self.next = self.next + 1;
        }
        id
    }
}

} // verus!
