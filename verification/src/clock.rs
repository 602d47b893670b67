//! The tick clock: decides whether a step is due after some time has passed.

use vstd::prelude::*;
use crate::board::GameError;

verus! {

/// The usual time between two steps, in milliseconds.
pub const TICK_INTERVAL_MS: u64 = 150;

/// An interval timer in whole milliseconds.
#[derive(Copy, Clone, Debug)]
pub struct TickClock {
    interval_ms: u64,
    elapsed_ms: u64,
}

impl TickClock {
    /// The fixed time between two steps.
    pub closed spec fn interval(&self) -> nat {
        self.interval_ms as nat
    }

    /// The time gathered that no step has used up yet.
    pub closed spec fn elapsed(&self) -> nat {
        self.elapsed_ms as nat
    }

    /// The interval is positive.
    pub open spec fn wf(&self) -> bool {
        self.interval() > 0
    }

    /// Whether `delta_ms` more can be gathered without leaving `u64`.
    pub open spec fn can_take(&self, delta_ms: u64) -> bool {
        self.elapsed() + delta_ms <= u64::MAX
    }

    /// Whether a step is due once `delta_ms` more has passed.
    pub open spec fn due_after(&self, delta_ms: u64) -> bool {
        self.elapsed() + delta_ms >= self.interval()
    }

    /// The time left over once `delta_ms` more has passed and the step that
    /// is due, if any, has used up one interval.
    pub open spec fn elapsed_after(&self, delta_ms: u64) -> nat {
        if self.due_after(delta_ms) {
            (self.elapsed() + delta_ms - self.interval()) as nat
        } else {
            (self.elapsed() + delta_ms) as nat
        }
    }

    /// A clock with nothing gathered. An interval of zero is refused.
    pub fn new(interval_ms: u64) -> (r: Result<TickClock, GameError>)
        ensures
            r is Ok <==> interval_ms > 0,
            r is Ok ==> r->Ok_0.wf() && r->Ok_0.interval() == interval_ms && r->Ok_0.elapsed()
                == 0,
            r is Err ==> r->Err_0 == GameError::InvalidConfiguration,
    {
        if interval_ms == 0 {
            Err(GameError::InvalidConfiguration)
        } else {
            Ok(TickClock { interval_ms, elapsed_ms: 0 })
        }
    }

    /// Gathers `delta_ms`. A step is due when a whole interval has been
    /// gathered; it uses up one interval, and what is left over counts
    /// towards the next one. At most one step is due per call.
    pub fn tick(&mut self, delta_ms: u64) -> (due: bool)
        requires
            old(self).wf(),
            old(self).can_take(delta_ms),
        ensures
            final(self).wf(),
            final(self).interval() == old(self).interval(),
            due == old(self).due_after(delta_ms),
            final(self).elapsed() == old(self).elapsed_after(delta_ms),
    {
        let total: u64 = self.elapsed_ms + delta_ms;
        if total >= self.interval_ms {
            self.elapsed_ms = total - self.interval_ms;
            true
        } else {
            self.elapsed_ms = total;
            false
        }
    }

    /// Whether `delta_ms` more can be gathered without leaving `u64`.
    pub fn has_room_for(&self, delta_ms: u64) -> (ok: bool)
        ensures
            ok == self.can_take(delta_ms),
    {
        delta_ms <= u64::MAX - self.elapsed_ms
    }

    pub fn interval_ms(&self) -> (ms: u64)
        ensures
            ms == self.interval(),
    {
        self.interval_ms
    }

    pub fn elapsed_ms(&self) -> (ms: u64)
        ensures
            ms == self.elapsed(),
    {
        self.elapsed_ms
    }
}

/// Time is neither lost nor made: what was gathered before a tick plus what
/// the tick brought equals what is left plus the interval that a due step
/// used up. Below one interval no step is due.
pub proof fn lemma_tick_conserves_time(clock: TickClock, delta_ms: u64)
    requires
        clock.wf(),
    ensures
        clock.elapsed() + delta_ms == clock.elapsed_after(delta_ms) + (if clock.due_after(
            delta_ms,
        ) {
            clock.interval()
        } else {
            0
        }),
        !clock.due_after(delta_ms) ==> clock.elapsed_after(delta_ms) < clock.interval(),
{
}

} // verus!
