//! The arrival-event consumer: the mail-arrival watcher's run flag and the
//! modulo counter that spawns the self-improvement cycle on every tenth new
//! mail signal. The watcher's connection handling lives with the transport;
//! this is its decision state.

use vstd::prelude::*;

verus! {

/// Every this many arrival signals, the self-improvement cycle runs.
pub const IMPROVEMENT_EVERY: u32 = 10;

/// What the arrival-event consumer does for one new-mail signal.
#[derive(Clone, Copy, Debug, PartialEq, Eq, Structural)]
pub struct ArrivalPlan {
    /// Emit the new-mail event and trigger a triage run.
    pub run_triage: bool,
    /// Additionally spawn the self-improvement cycle.
    pub run_improvement: bool,
}

/// The mail-arrival watcher's state: a run flag and the arrival counter.
pub struct IdleWatcher {
    pub running: bool,
    pub mail_count: u32,
}

impl IdleWatcher {
    pub fn new() -> (w: IdleWatcher)
        ensures
            !w.running,
            w.mail_count == 0,
    {
        IdleWatcher { running: false, mail_count: 0 }
    }

    /// Start watching; reports whether this call actually started it (a
    /// second start while running is a no-op).
    pub fn start_idle(&mut self) -> (started: bool)
        ensures
            final(self).running,
            started == !old(self).running,
            started ==> final(self).mail_count == 0,
            !started ==> final(self).mail_count == old(self).mail_count,
    {
        if self.running {
            return false;
        }
        self.running = true;
        self.mail_count = 0;
        true
    }

    /// Ask the watcher to stop; only future work is prevented, nothing in
    /// flight is interrupted.
    pub fn stop_idle(&mut self)
        ensures
            !final(self).running,
            final(self).mail_count == old(self).mail_count,
    {
        self.running = false;
    }

    /// Consume one new-mail signal: while running, count it, always trigger
    /// a triage run, and every tenth signal also spawn the self-improvement
    /// cycle. A signal while stopped does nothing.
    pub fn on_new_mail(&mut self) -> (plan: ArrivalPlan)
        requires
            old(self).mail_count < u32::MAX,
        ensures
            final(self).running == old(self).running,
            !old(self).running ==> final(self).mail_count == old(self).mail_count && !plan.run_triage
                && !plan.run_improvement,
            old(self).running ==> {
                &&& final(self).mail_count == old(self).mail_count + 1
                &&& plan.run_triage
                &&& plan.run_improvement == (final(self).mail_count % IMPROVEMENT_EVERY == 0)
            },
    {
        if !self.running {
            return ArrivalPlan { run_triage: false, run_improvement: false };
        }
        self.mail_count = self.mail_count + 1;
        ArrivalPlan {
            run_triage: true,
            run_improvement: self.mail_count % IMPROVEMENT_EVERY == 0,
        }
    }
}

} // verus!
