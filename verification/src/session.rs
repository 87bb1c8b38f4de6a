use vstd::prelude::*;
use crate::executor::ExecutorHandle;

verus! {

/// The current-session cell, the single thread-local slot that names the
/// session being advanced so that transport and spawn callbacks invoked
/// deep inside the DNS engine can find it. Modelled as a value holding
/// either nothing or an opaque session identity.
pub struct CurrentSlot {
    pub current: Option<u64>,
}

/// Whether no advance is on the stack: the slot names no session.
pub open spec fn slot_empty(s: CurrentSlot) -> bool {
    s.current is None
}

impl CurrentSlot {
    /// The slot of a thread on which no bridge call is running.
    pub fn new() -> (r: Self)
        ensures
            slot_empty(r),
    {
        Self { current: None }
    }

    /// Entering an advance: only an empty slot may be claimed, and it then
    /// names the session for the duration of the advance.
    pub fn enter(&mut self, session: u64)
        requires
            slot_empty(*old(self)),
        ensures
            final(self).current == Some(session),
    {
        self.current = Some(session);
    }

    /// Leaving an advance on any exit path: the slot is empty again.
    pub fn exit(&mut self)
        ensures
            slot_empty(*final(self)),
    {
        self.current = None;
    }

    /// What a transport or spawn callback does mid-advance: reads the
    /// session named by the slot. Calling while the slot is empty is the
    /// defect the precondition excludes.
    pub fn current_session(&self) -> (r: u64)
        requires
            !slot_empty(*self),
        ensures
            Some(r) == self.current,
    {
        match self.current {
            Some(s) => s,
            None => unreached(),
        }
    }
}

/// The body of the host's run-until-stalled entry point: the slot is
/// claimed for the session, the session's executor is advanced until
/// stalled, and the slot is cleared. The contract is the bracket — the
/// slot must be empty on entry and is empty again on return — plus the
/// advance itself: exactly one advance happened, the run queue is
/// drained, and a true result means the executor is fully quiescent.
pub fn run_until_stalled_call(slot: &mut CurrentSlot, session: u64, executor: &mut ExecutorHandle) -> (quiescent: bool)
    requires
        slot_empty(*old(slot)),
    ensures
        slot_empty(*final(slot)),
        final(executor).advance_count() == old(executor).advance_count() + 1,
        final(executor).is_drained(),
        quiescent ==> final(executor).is_stalled(),
{
    slot.enter(session);
    let quiescent = executor.run_until_stalled();
    slot.exit();
    quiescent
}

/// The input gate of the lookup entry point: a host name must be valid
/// UTF-8; a lookup with any other byte string is rejected before any task
/// is spawned and before the current-session slot is touched.
pub fn check_lookup_host(host: &[u8]) -> (r: bool)
    ensures
        r == crate::text::is_utf8(host@),
{
    crate::text::validate_utf8(host)
}

} // verus!
