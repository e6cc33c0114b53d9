use vstd::prelude::*;

verus! {

/// Saturating addition on `u64`, used by timers to accumulate elapsed time.
pub open spec fn sat_add_u64(a: u64, b: u64) -> u64 {
    if a + b > u64::MAX {
        u64::MAX
    } else {
        (a + b) as u64
    }
}

/// One-shot countdown over milliseconds: `finished` once the accumulated
/// elapsed time reaches the duration, and held there until an explicit
/// `reset`. Weapons and the enemy-wave director share this primitive; the
/// "repeat" behaviour they need is layered on top by resetting after each
/// successful action.
#[derive(Clone, Copy, Debug, PartialEq, Eq, Structural)]
pub struct CooldownTimer {
    pub duration_ms: u64,
    pub elapsed_ms: u64,
}

impl CooldownTimer {
    pub open spec fn finished_spec(self) -> bool {
        self.elapsed_ms >= self.duration_ms
    }

    /// The timer after one `tick` of `delta_ms`: a finished timer is left
    /// alone; an unfinished one accumulates elapsed time, saturating.
    pub open spec fn ticked(self, delta_ms: u64) -> CooldownTimer {
        if self.finished_spec() {
            self
        } else {
            CooldownTimer {
                duration_ms: self.duration_ms,
                elapsed_ms: sat_add_u64(self.elapsed_ms, delta_ms),
            }
        }
    }

    pub fn new(duration_ms: u64) -> (t: CooldownTimer)
        ensures
            t.duration_ms == duration_ms,
            t.elapsed_ms == 0,
    {
        CooldownTimer { duration_ms, elapsed_ms: 0 }
    }

    pub fn finished(&self) -> (r: bool)
        ensures
            r == self.finished_spec(),
    {
        self.elapsed_ms >= self.duration_ms
    }

    pub fn tick(&mut self, delta_ms: u64)
        ensures
            *final(self) == old(self).ticked(delta_ms),
    {
        if self.elapsed_ms < self.duration_ms {
            if delta_ms > u64::MAX - self.elapsed_ms {
                self.elapsed_ms = u64::MAX;
            } else {
                self.elapsed_ms = self.elapsed_ms + delta_ms;
            }
        }
    }

    /// A fresh timer of the same duration.
    pub open spec fn reset_spec(self) -> CooldownTimer {
        CooldownTimer { duration_ms: self.duration_ms, elapsed_ms: 0 }
    }

    /// Conceptually replaces the timer with a fresh one of the same duration.
    pub fn reset(&mut self)
        ensures
            *final(self) == old(self).reset_spec(),
    {
        self.elapsed_ms = 0;
    }
}

/// The timer after a whole sequence of ticks, applied first element first.
pub open spec fn ticked_all(t: CooldownTimer, ds: Seq<u64>) -> CooldownTimer
    decreases ds.len(),
{
    if ds.len() == 0 {
        t
    } else {
        ticked_all(t.ticked(ds[0]), ds.drop_first())
    }
}

/// The mathematical sum of a sequence of deltas.
pub open spec fn sum_of(ds: Seq<u64>) -> int
    decreases ds.len(),
{
    if ds.len() == 0 {
        0
    } else {
        ds[0] + sum_of(ds.drop_first())
    }
}

pub proof fn lemma_sum_of_nonneg(ds: Seq<u64>)
    ensures
        sum_of(ds) >= 0,
    decreases ds.len(),
{
    if ds.len() > 0 {
        lemma_sum_of_nonneg(ds.drop_first());
    }
}

/// A timer whose elapsed time is zero (fresh, or just reset) and whose
/// duration is positive is not finished.
pub proof fn lemma_reset_not_finished(t: CooldownTimer)
    requires
        t.elapsed_ms == 0,
        t.duration_ms > 0,
    ensures
        !t.finished_spec(),
{
}

/// Once finished, a timer stays finished under any further ticks; it never
/// reverts to unfinished without an explicit reset.
pub proof fn lemma_finished_stays(t: CooldownTimer, ds: Seq<u64>)
    requires
        t.finished_spec(),
    ensures
        ticked_all(t, ds).finished_spec(),
    decreases ds.len(),
{
    if ds.len() > 0 {
        lemma_finished_stays(t.ticked(ds[0]), ds.drop_first());
    }
}

/// Ticks whose summed deltas cover the remaining time finish the timer: from
/// elapsed time `e`, any tick sequence summing to at least `duration - e`
/// leaves the timer finished.
pub proof fn lemma_cooldown_reaches(t: CooldownTimer, ds: Seq<u64>)
    requires
        t.elapsed_ms + sum_of(ds) >= t.duration_ms,
    ensures
        ticked_all(t, ds).finished_spec(),
    decreases ds.len(),
{
    if ds.len() == 0 {
    } else {
        let t2 = t.ticked(ds[0]);
        if t.finished_spec() {
            lemma_finished_stays(t, ds);
        } else {
            lemma_sum_of_nonneg(ds.drop_first());
            if t.elapsed_ms + ds[0] > u64::MAX {
                lemma_finished_stays(t2, ds.drop_first());
            } else {
                lemma_cooldown_reaches(t2, ds.drop_first());
            }
        }
    }
}

} // verus!
