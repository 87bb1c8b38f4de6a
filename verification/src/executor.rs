use vstd::prelude::*;

verus! {

#[verifier::external_type_specification]
#[verifier::external_body]
pub struct ExLocalPool(futures_executor::LocalPool);

#[verifier::external_type_specification]
#[verifier::external_body]
pub struct ExLocalSpawner(futures_executor::LocalSpawner);

/// Relies on futures_executor::LocalPool::new: a fresh single-threaded
/// pool of cooperative tasks.
#[verifier::external_body]
fn pool_new() -> futures_executor::LocalPool {
    futures_executor::LocalPool::new()
}

/// Whether no task already in the pool's run queue can make further
/// synchronous progress: the state a stalled-drain leaves behind.
pub uninterp spec fn pool_drained(p: futures_executor::LocalPool) -> bool;

/// Whether the pool is fully quiescent: no task in the run queue can make
/// further synchronous progress and no incoming task remains to promote,
/// so a further promotion attempt would report no progress.
pub uninterp spec fn pool_idle(p: futures_executor::LocalPool) -> bool;

/// Relies on futures_executor::LocalPool::run_until_stalled: it returns
/// the moment no task in the pool can make further synchronous progress.
/// It assumes the host discipline the pool's source states: no re-entrant
/// advance from inside another executor, and it propagates a task's
/// panic.
#[verifier::external_body]
fn pool_drain(p: &mut futures_executor::LocalPool)
    ensures
        pool_drained(*final(p)),
{
    p.run_until_stalled()
}

/// Relies on futures_executor::LocalPool::try_run_one: runs tasks until
/// exactly one completes, and returns false exactly when no more progress
/// can be made on any task. It assumes the same host discipline as the
/// stalled-drain.
#[verifier::external_body]
fn pool_try_run_one(p: &mut futures_executor::LocalPool) -> (r: bool)
    ensures
        !r ==> pool_idle(*final(p)) && pool_drained(*final(p)),
{
    p.try_run_one()
}

/// Relies on futures_executor::LocalPool::spawner: a handle that enqueues
/// new tasks onto this pool.
#[verifier::external_body]
fn pool_spawner(p: &futures_executor::LocalPool) -> (r: futures_executor::LocalSpawner) {
    p.spawner()
}

/// One session's private cooperative executor. The task futures inside the
/// pool are opaque to the bridge; what the bridge owes the host is the
/// advance discipline of `run_until_stalled`. A ghost odometer counts the
/// advances performed, so a contract can tell an advance from a no-op.
pub struct ExecutorHandle {
    pool: futures_executor::LocalPool,
    advances: Ghost<nat>,
}

impl ExecutorHandle {
    /// The number of advances this executor has performed since creation.
    pub closed spec fn advance_count(self) -> nat {
        self.advances@
    }

    /// Whether the run queue can make no further synchronous progress.
    pub closed spec fn is_drained(self) -> bool {
        pool_drained(self.pool)
    }

    /// Whether the executor is fully quiescent: nothing runnable and
    /// nothing left to promote.
    pub closed spec fn is_stalled(self) -> bool {
        pool_idle(self.pool)
    }

    /// A fresh executor with no tasks and no advances behind it.
    pub fn new() -> (r: Self)
        ensures
            r.advance_count() == 0,
    {
        Self { pool: pool_new(), advances: Ghost(0) }
    }

    /// Advances the executor until no task can make further synchronous
    /// progress: alternates the pool's stalled-drain with a single
    /// incoming-task promotion, and stops only when the promotion makes no
    /// progress, so that tasks readied during a drain are themselves
    /// drained before control returns to the host. On return the run
    /// queue is drained, and when the promotion reported no progress —
    /// every return in practice — the executor is fully quiescent. The
    /// number of promotion rounds is capped by an explicit bound, far
    /// beyond any real task count, so that the advance provably
    /// terminates; only a run that somehow reached the cap could return
    /// drained but not quiescent, and the result says which happened.
    pub fn run_until_stalled(&mut self) -> (quiescent: bool)
        ensures
            final(self).advance_count() == old(self).advance_count() + 1,
            final(self).is_drained(),
            quiescent ==> final(self).is_stalled(),
    {
        let mut fuel: u64 = 0xFFFF_FFFF_FFFF_FFFF;
        let mut stalled_now: bool = false;
        while fuel > 0 && !stalled_now
            invariant
                self.advance_count() == old(self).advance_count(),
                stalled_now ==> self.is_stalled() && self.is_drained(),
            decreases fuel,
        {
            fuel = fuel - 1;
            pool_drain(&mut self.pool);
            if !pool_try_run_one(&mut self.pool) {
                stalled_now = true;
            }
        }
        if !stalled_now {
            pool_drain(&mut self.pool);
        }
        proof {
            self.advances@ = self.advances@ + 1;
        }
        stalled_now
    }

    /// A spawn handle for enqueuing new tasks onto this executor.
    pub fn spawner(&self) -> (r: futures_executor::LocalSpawner) {
        pool_spawner(&self.pool)
    }
}

} // verus!
