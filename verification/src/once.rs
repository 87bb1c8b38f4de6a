use vstd::prelude::*;

verus! {

/// A one-shot gate with the shape of a future that reports pending on its
/// first poll and ready on every later poll. The event-loop glue wraps it in
/// a `Future` implementation whose `poll` calls `poll_step`.
pub struct OnceFuture {
    /// True from the first poll on.
    pub seen: bool,
}

impl OnceFuture {
    /// A fresh gate that has not been polled yet.
    pub fn new() -> (r: Self)
        ensures
            !r.seen,
    {
        Self { seen: false }
    }

    /// One poll step: ready exactly when an earlier poll happened, and
    /// pending on the very first call.
    pub fn poll_step(&mut self) -> (ready: bool)
        ensures
            ready == old(self).seen,
            final(self).seen,
    {
        if self.seen {
            true
        } else {
            self.seen = true;
            false
        }
    }
}

} // verus!
