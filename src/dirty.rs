use std::sync::atomic::{AtomicU32, Ordering};
use std::sync::Arc;
use vstd::prelude::*;

verus! {

/// The shared tally of pending reindex signals.
///
/// Mutation listeners mark it from any context; the reindex pass drains it.
/// Other holders of the same counter may change it between any two calls,
/// so no call promises a value.
#[derive(Clone)]
pub struct DirtyTracker {
    counter: Arc<AtomicU32>,
}

impl DirtyTracker {
    /// A tracker with nothing pending.
    pub fn new() -> (r: DirtyTracker) {
        DirtyTracker { counter: Arc::new(AtomicU32::new(0)) }
    }

    /// Records one observed mutation batch.
    pub fn mark_dirty(&self) {
        self.counter.fetch_add(1, Ordering::SeqCst);
    }

    /// Hands back `n` drained signals whose pass did not complete, so that
    /// the next pass picks them up.
    pub fn restore(&self, n: u32) {
        self.counter.fetch_add(n, Ordering::SeqCst);
    }

    /// The number of pending signals at the time of the call.
    pub fn pending(&self) -> (r: u32) {
        self.counter.load(Ordering::SeqCst)
    }

    /// Reads the pending count and takes exactly that much off the counter,
    /// so that signals marked meanwhile stay for the next pass.
    pub fn drain(&self) -> (r: u32) {
        let curr = self.counter.load(Ordering::SeqCst);
        if curr > 0 {
            self.counter.fetch_sub(curr, Ordering::SeqCst);
        }
        curr
    }
}

} // verus!
