//! Frame pacing: deadlines on the boundaries of a fixed period that is
//! measured from the scheduler's start, with a grace window that moves a
//! deadline which is too near on to the following boundary.
use std::time::Duration;
use std::time::Instant;
use vstd::prelude::*;

verus! {

/// `std::time::Instant`: a moment, of which nothing is known.
#[verifier::external_type_specification]
#[verifier::external_body]
pub struct ExInstant(Instant);

/// The length of a duration in nanoseconds.
pub uninterp spec fn nanos(d: Duration) -> u128;

/// `Instant::now`: the present moment, of which nothing is known.
pub assume_specification[ Instant::now ]() -> (now: Instant)
;

/// `Instant::saturating_duration_since`: the time from `earlier` to
/// `later`, of which nothing is known.
pub assume_specification[ Instant::saturating_duration_since ](
    later: &Instant,
    earlier: Instant,
) -> (d: Duration)
;

/// `Duration::as_nanos`: the duration's length in nanoseconds.
pub assume_specification[ Duration::as_nanos ](d: &Duration) -> (n: u128)
    ensures
        n == nanos(*d),
;

/// `Duration::from_nanos`: the duration of so many nanoseconds.
pub assume_specification[ Duration::from_nanos ](n: u64) -> (d: Duration)
    ensures
        nanos(d) == n,
;

/// `n`, or the greatest `u64` where it is greater than that.
pub open spec fn capped(n: u128) -> u64 {
    if n > u64::MAX {
        u64::MAX
    } else {
        n as u64
    }
}

fn cap(n: u128) -> (r: u64)
    ensures
        r == capped(n),
{
    if n > u64::MAX as u128 {
        u64::MAX
    } else {
        n as u64
    }
}

/// The deadline for a mark made `elapsed` nanoseconds after the start.
///
/// With a period of 0 it is the nanosecond before the mark. Else it is the
/// first boundary of the period after the mark, or the one after that where
/// less than the grace window is left to the first.
pub open spec fn deadline_after(period: u64, grace: Option<u64>, elapsed: u64) -> int {
    if period == 0 {
        if elapsed == 0 {
            0
        } else {
            elapsed - 1
        }
    } else {
        let boundary = (elapsed / period + 1) * period;
        if grace is Some && boundary - elapsed < grace->0 {
            boundary + period
        } else {
            boundary
        }
    }
}

/// With a period above 0 the deadline lies on a boundary of the period,
/// after the mark, at most two periods after it, and at most one where no
/// grace window is set; where the grace window is no longer than the period,
/// at least the grace window lies between the mark and the deadline.
pub proof fn law_deadline_on_boundary(period: u64, grace: Option<u64>, elapsed: u64)
    requires
        period > 0,
    ensures
        deadline_after(period, grace, elapsed) % (period as int) == 0,
        elapsed < deadline_after(period, grace, elapsed) <= elapsed + 2 * period,
        grace is None ==> deadline_after(period, grace, elapsed) <= elapsed + period,
        grace is Some && grace->0 <= period ==> deadline_after(period, grace, elapsed) - elapsed
            >= grace->0,
{
    let p = period as int;
    let e = elapsed as int;
    let q = e / p;
    assert(e < (q + 1) * p <= e + p && ((q + 1) * p) % p == 0 && ((q + 1) * p + p) % p == 0)
        by (nonlinear_arith)
        requires
            p > 0,
            e >= 0,
            q == e / p,
    ;
}

/// With a period of 0 a mark arms a deadline that has come at the mark and
/// at any time after it.
pub proof fn law_zero_period_expired(m: BouncerModel, elapsed: u64, later: u64)
    requires
        m.period == 0,
        m.deadline is None,
        elapsed <= later,
    ensures
        m.marked_at(elapsed).expired_at(later),
{
}

/// A mark on an armed scheduler changes nothing: the deadline set first
/// stands until the scheduler is cleared.
pub proof fn law_mark_keeps_deadline(m: BouncerModel, first: u64, second: u64)
    ensures
        m.marked_at(first).marked_at(second) == m.marked_at(first),
{
}

/// What a scheduler is: its period and grace window in nanoseconds, and the
/// armed deadline in nanoseconds after its start.
pub struct BouncerModel {
    pub period: u64,
    pub grace: Option<u64>,
    pub deadline: Option<u128>,
}

impl BouncerModel {
    /// The scheduler after a mark at `elapsed`: armed, on the deadline it
    /// had or, where it had none, on the one that `deadline_after` gives.
    pub open spec fn marked_at(self, elapsed: u64) -> BouncerModel {
        if self.deadline is Some {
            self
        } else {
            BouncerModel {
                deadline: Some(deadline_after(self.period, self.grace, elapsed) as u128),
                ..self
            }
        }
    }

    /// Whether the armed deadline has come at `elapsed`.
    pub open spec fn expired_at(self, elapsed: u64) -> bool {
        self.deadline is Some && self.deadline->0 <= elapsed
    }

    /// The time left to the armed deadline at `elapsed`, in nanoseconds.
    pub open spec fn left_at(self, elapsed: u64) -> Option<u64> {
        match self.deadline {
            Some(d) => Some(
                if d <= elapsed {
                    0
                } else {
                    capped((d - elapsed) as u128)
                },
            ),
            None => None,
        }
    }
}

/// The frame scheduler.
pub struct Bouncer {
    deadline: Option<u128>,
    period: u64,
    start_time: Instant,
    grace: Option<u64>,
}

/// Sets a scheduler up.
pub struct BouncerBuilder {
    time_between_deadlines: Duration,
    grace_period: Option<Duration>,
}

impl BouncerBuilder {
    /// The period that the scheduler will get, in nanoseconds.
    pub closed spec fn period(&self) -> u64 {
        capped(nanos(self.time_between_deadlines))
    }

    /// The grace window that the scheduler will get, in nanoseconds.
    pub closed spec fn grace(&self) -> Option<u64> {
        match self.grace_period {
            Some(d) => Some(capped(nanos(d))),
            None => None,
        }
    }

    /// Sets the period.
    pub fn time_between_deadlines(self, duration: Duration) -> (b: BouncerBuilder)
        ensures
            b.period() == capped(nanos(duration)),
            b.grace() == self.grace(),
    {
        let mut b = self;
        b.time_between_deadlines = duration;
        b
    }

    /// Sets the grace window.
    pub fn skip_hot_deadline(self, duration: Duration) -> (b: BouncerBuilder)
        ensures
            b.period() == self.period(),
            b.grace() == Some(capped(nanos(duration))),
    {
        let mut b = self;
        b.grace_period = Some(duration);
        b
    }

    /// The scheduler, started now and not armed.
    pub fn build(self) -> (b: Bouncer)
        ensures
            b@ == (BouncerModel { period: self.period(), grace: self.grace(), deadline: None }),
    {
        Bouncer {
            period: cap(self.time_between_deadlines.as_nanos()),
            grace: match self.grace_period {
                Some(gp) => Some(cap(gp.as_nanos())),
                None => None,
            },
            start_time: Instant::now(),
            deadline: None,
        }
    }
}

impl View for Bouncer {
    type V = BouncerModel;

    closed spec fn view(&self) -> BouncerModel {
        BouncerModel { period: self.period, grace: self.grace, deadline: self.deadline }
    }
}

impl Bouncer {
    /// A builder for a scheduler with a period of 0 and no grace window.
    pub fn builder() -> (b: BouncerBuilder)
        ensures
            b.period() == 0,
            b.grace() is None,
    {
        BouncerBuilder { time_between_deadlines: Duration::from_nanos(0), grace_period: None }
    }

    /// The nanoseconds since the scheduler's start, of which nothing is
    /// known.
    pub fn elapsed(&self) -> (e: u64) {
        cap(Instant::now().saturating_duration_since(self.start_time).as_nanos())
    }

    /// Arms the scheduler for a mark made `elapsed` nanoseconds after its
    /// start.
    pub fn mark_at(&mut self, elapsed: u64)
        ensures
            final(self)@ == old(self)@.marked_at(elapsed),
    {
        if self.deadline.is_some() {
            return ;
        }
        if self.period == 0 {
            self.deadline = Some(
                if elapsed == 0 {
                    0
                } else {
                    (elapsed - 1) as u128
                },
            );
            return ;
        }
        let period = self.period as u128;
        let now = elapsed as u128;
        assert(now < (now / period + 1) * period <= now + period) by (nonlinear_arith)
            requires
                period > 0,
                now >= 0,
        ;
        let mut next_deadline = (now / period + 1) * period;
        if let Some(grace_period) = self.grace {
            if next_deadline - now < grace_period as u128 {
                next_deadline = next_deadline + period;
            }
        }
        assert(now / period == elapsed / self.period);
        self.deadline = Some(next_deadline);
    }

    /// Arms the scheduler if it is not armed; see `mark_at`.
    pub fn mark(&mut self)
        ensures
            exists|elapsed: u64| final(self)@ == old(self)@.marked_at(elapsed),
    {
        let elapsed = self.elapsed();
        self.mark_at(elapsed);
    }

    /// The armed deadline, as the time from the scheduler's start.
    pub fn current_deadline(&self) -> (r: Option<Duration>)
        ensures
            r is Some <==> self@.deadline is Some,
            r matches Some(d) ==> nanos(d) == capped(self@.deadline->0),
    {
        match self.deadline {
            Some(d) => Some(Duration::from_nanos(cap(d))),
            None => None,
        }
    }

    /// The time left to the armed deadline at `elapsed` nanoseconds after
    /// the start, in nanoseconds.
    pub fn nanos_until_deadline_at(&self, elapsed: u64) -> (r: Option<u64>)
        ensures
            r == self@.left_at(elapsed),
    {
        match self.deadline {
            Some(d) => Some(
                if d <= elapsed as u128 {
                    0
                } else {
                    cap(d - elapsed as u128)
                },
            ),
            None => None,
        }
    }

    /// The time left to the armed deadline, or none where the scheduler is
    /// not armed.
    pub fn duration_until_deadline(&self) -> (r: Option<Duration>)
        ensures
            r is Some <==> self@.deadline is Some,
            r matches Some(d) ==> exists|elapsed: u64|
                Some(nanos(d) as u64) == self@.left_at(elapsed),
    {
        let elapsed = self.elapsed();
        match self.nanos_until_deadline_at(elapsed) {
            Some(n) => Some(Duration::from_nanos(n)),
            None => None,
        }
    }

    /// Disarms the scheduler.
    pub fn clear(&mut self)
        ensures
            final(self)@ == (BouncerModel { deadline: None, ..old(self)@ }),
    {
        self.deadline = None;
    }

    /// Whether the armed deadline has come at `elapsed` nanoseconds after the
    /// start.
    pub fn expired_at(&self, elapsed: u64) -> (r: bool)
        ensures
            r == self@.expired_at(elapsed),
    {
        match self.deadline {
            Some(d) => d <= elapsed as u128,
            None => false,
        }
    }

    /// Whether the armed deadline has come.
    pub fn expired(&self) -> (r: bool)
        ensures
            exists|elapsed: u64| r == self@.expired_at(elapsed),
            r ==> self@.deadline is Some,
    {
        let elapsed = self.elapsed();
        self.expired_at(elapsed)
    }
}

} // verus!
