//! The runtime's flags for scheduling and graceful shutdown: readiness, the
//! shutdown latch, and the count of scheduled jobs running, with the decision
//! a repeating job takes before each run.

use vstd::prelude::*;

verus! {

/// The count after one more job starts (the counter wraps around, as an
/// atomic counter does).
pub open spec fn count_up(c: usize) -> usize {
    if c == usize::MAX { 0 } else { (c + 1) as usize }
}

/// The count after one job ends (wrapping around as well).
pub open spec fn count_down(c: usize) -> usize {
    if c == 0 { usize::MAX } else { (c - 1) as usize }
}

/// The flags once shutdown has begun.
pub open spec fn shut_down(f: RuntimeFlags) -> RuntimeFlags {
    RuntimeFlags { shutting_down: true, ..f }
}

/// What a repeating job does next under the given flags, `time_to_sleep`
/// being the time until its schedule's next run, if it has one.
pub open spec fn proceed_step(f: RuntimeFlags, time_to_sleep: Option<u64>) -> ProceedStep {
    if !f.ready {
        ProceedStep::WaitReady
    } else if f.shutting_down {
        ProceedStep::Stop
    } else {
        match time_to_sleep {
            Some(d) => ProceedStep::Sleep(d),
            None => ProceedStep::Stop,
        }
    }
}

/// The runtime's state: whether it is ready to run jobs, whether shutdown has
/// begun, and how many scheduled jobs are running.
#[derive(Clone, Copy, Debug)]
pub struct RuntimeFlags {
    pub ready: bool,
    pub shutting_down: bool,
    pub running_scheduled_tasks: usize,
}

/// What a repeating job does next.
#[derive(Clone, Copy, Debug, PartialEq, Eq)]
pub enum ProceedStep {
    /// The runtime is not ready yet: wait a moment and ask again.
    WaitReady,
    /// The job must stop repeating.
    Stop,
    /// Sleep this long, then run unless shutdown began meanwhile.
    Sleep(u64),
}

impl RuntimeFlags {
    pub fn new() -> (r: Self)
        ensures
            !r.ready && !r.shutting_down && r.running_scheduled_tasks == 0,
    {
        RuntimeFlags { ready: false, shutting_down: false, running_scheduled_tasks: 0 }
    }

    pub fn set_ready(&mut self)
        ensures
            *final(self) == (RuntimeFlags { ready: true, ..*old(self) }),
    {
        self.ready = true;
    }

    /// Begins shutting down; returns whether this call began it (a second
    /// call does nothing).
    pub fn shutdown(&mut self) -> (r: bool)
        ensures
            r == !old(self).shutting_down,
            *final(self) == shut_down(*old(self)),
    {
        if self.shutting_down {
            false
        } else {
            self.shutting_down = true;
            true
        }
    }

    pub fn job_started(&mut self)
        ensures
            *final(self) == (RuntimeFlags {
                running_scheduled_tasks: count_up(old(self).running_scheduled_tasks),
                ..*old(self)
            }),
    {
        self.running_scheduled_tasks = if self.running_scheduled_tasks == usize::MAX {
            0
        } else {
            self.running_scheduled_tasks + 1
        };
    }

    pub fn job_finished(&mut self)
        ensures
            *final(self) == (RuntimeFlags {
                running_scheduled_tasks: count_down(old(self).running_scheduled_tasks),
                ..*old(self)
            }),
    {
        self.running_scheduled_tasks = if self.running_scheduled_tasks == 0 {
            usize::MAX
        } else {
            self.running_scheduled_tasks - 1
        };
    }

    /// Shutdown can finish once no scheduled job is running.
    pub fn jobs_drained(&self) -> (r: bool)
        ensures
            r == (self.running_scheduled_tasks == 0),
    {
        self.running_scheduled_tasks == 0
    }

    /// Before each run, a repeating job waits for the runtime to be ready,
    /// stops once shutdown began or its schedule has no next time, and
    /// otherwise sleeps until that time.
    pub fn next_step(&self, time_to_sleep: Option<u64>) -> (r: ProceedStep)
        ensures
            r == proceed_step(*self, time_to_sleep),
    {
        if !self.ready {
            return ProceedStep::WaitReady;
        }
        if self.shutting_down {
            return ProceedStep::Stop;
        }
        match time_to_sleep {
            Some(d) => ProceedStep::Sleep(d),
            None => ProceedStep::Stop,
        }
    }

    /// After its sleep, a repeating job runs unless shutdown began meanwhile.
    pub fn run_after_sleep(&self) -> (r: bool)
        ensures
            r == !self.shutting_down,
    {
        !self.shutting_down
    }
}

/// A job that counts as a running scheduled task from its creation until it
/// completes.
pub struct ScheduledJobFuture<F> {
    pub inner: F,
}

impl<F> ScheduledJobFuture<F> {
    pub fn from(inner: F, flags: &mut RuntimeFlags) -> (r: Self)
        ensures
            r.inner == inner,
            *final(flags) == (RuntimeFlags {
                running_scheduled_tasks: count_up(old(flags).running_scheduled_tasks),
                ..*old(flags)
            }),
    {
        flags.job_started();
        ScheduledJobFuture { inner }
    }

    /// The job completed: it no longer counts as running.
    pub fn complete(self, flags: &mut RuntimeFlags) -> (r: F)
        ensures
            r == self.inner,
            *final(flags) == (RuntimeFlags {
                running_scheduled_tasks: count_down(old(flags).running_scheduled_tasks),
                ..*old(flags)
            }),
    {
        flags.job_finished();
        self.inner
    }
}

/// A job that starts and completes leaves the count of running jobs as it
/// was.
pub proof fn lemma_job_balanced(c: usize)
    ensures
        count_down(count_up(c)) == c,
        count_up(count_down(c)) == c,
{
}

/// Shutting down is a latch: beginning it again changes nothing, and once it
/// has begun no repeating job sleeps towards another run.
pub proof fn lemma_shutdown_latch(f: RuntimeFlags, time_to_sleep: Option<u64>)
    ensures
        shut_down(shut_down(f)) == shut_down(f),
        !(proceed_step(shut_down(f), time_to_sleep) is Sleep),
{
}

/// The graceful-shutdown latch of the host's first runtime.
#[derive(Clone, Copy, Debug)]
pub struct Shutdown {
    pub initiated: bool,
    pub scheduled_task_running: bool,
}

impl Shutdown {
    /// Begins shutting down; returns whether this call began it.
    pub fn initiate(&mut self) -> (r: bool)
        ensures
            r == !old(self).initiated,
            *final(self) == (Shutdown { initiated: true, ..*old(self) }),
    {
        if self.initiated {
            false
        } else {
            self.initiated = true;
            true
        }
    }

    pub fn in_progress(&self) -> (r: bool)
        ensures
            r == self.initiated,
    {
        self.initiated
    }
}

} // verus!
