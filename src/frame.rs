use vstd::prelude::*;

verus! {

/// The target frame period, about 30 frames per second, in microseconds.
pub const FRAME_PERIOD_MICROS: u64 = 33000;

/// One scheduler step. Every time is in microseconds on a monotonic clock:
/// `start` is the loop's first step, `instant` this step, `delta` the time
/// since the previous step, `t` the time since `start` and `dt` equal to `delta`.
#[derive(Clone, Copy, Debug)]
pub struct FrameTick {
    pub start: u64,
    pub instant: u64,
    pub delta: u64,
    pub t: u64,
    pub dt: u64,
}

impl FrameTick {
    /// The fields agree with each other.
    pub open spec fn wf(&self) -> bool {
        &&& self.start <= self.instant
        &&& self.t == self.instant - self.start
        &&& self.dt == self.delta
    }

    /// The first step of a loop that starts at `now`.
    pub open spec fn first_spec(now: u64) -> FrameTick {
        FrameTick { start: now, instant: now, delta: 0, t: 0, dt: 0 }
    }

    /// The step after `last`, taken at `now`. A reading earlier than `last`
    /// counts as `last.instant`, so time never runs backwards.
    pub open spec fn next_spec(last: FrameTick, now: u64) -> FrameTick {
        let instant = if now < last.instant {
            last.instant
        } else {
            now
        };
        FrameTick {
            start: last.start,
            instant,
            delta: (instant - last.instant) as u64,
            t: (instant - last.start) as u64,
            dt: (instant - last.instant) as u64,
        }
    }

    /// The first step of a loop that starts at `now`: no time has passed.
    pub fn from_start(now: u64) -> (r: FrameTick)
        ensures
            r == Self::first_spec(now),
            r.wf(),
    {
        FrameTick { start: now, instant: now, delta: 0, t: 0, dt: 0 }
    }

    /// The step after `last`, taken at `now`.
    pub fn from_prev(last: &FrameTick, now: u64) -> (r: FrameTick)
        requires
            last.wf(),
        ensures
            r == Self::next_spec(*last, now),
            r.wf(),
    {
        let instant = if now < last.instant {
            last.instant
        } else {
            now
        };
        let delta = instant - last.instant;
        FrameTick { start: last.start, instant, delta, t: instant - last.start, dt: delta }
    }
}

/// Turns clock readings into a sequence of `FrameTick`s and says how long to
/// wait for the next frame.
pub struct FrameTimer {
    pub prev_tick: Option<FrameTick>,
}

impl FrameTimer {
    /// The previous step, if any, is well formed.
    pub open spec fn wf(&self) -> bool {
        match self.prev_tick {
            Some(p) => p.wf(),
            None => true,
        }
    }

    /// A timer that has not ticked yet.
    pub fn new() -> (r: FrameTimer)
        ensures
            r.prev_tick.is_none(),
            r.wf(),
    {
        FrameTimer { prev_tick: None }
    }

    /// Takes a step at clock reading `now`. The first step has `dt == 0`;
    /// every later one keeps `start` and has `t` no smaller than the
    /// previous step's.
    pub fn tick(&mut self, now: u64) -> (r: FrameTick)
        requires
            old(self).wf(),
        ensures
            final(self).wf(),
            r.wf(),
            final(self).prev_tick == Some(r),
            old(self).prev_tick.is_none() ==> r == FrameTick::first_spec(now) && r.dt == 0,
            forall|p: FrameTick|
                old(self).prev_tick == Some(p) ==> r == FrameTick::next_spec(p, now) && r.start
                    == p.start && r.t >= p.t,
    {
        let r = match &self.prev_tick {
            None => FrameTick::from_start(now),
            Some(p) => FrameTick::from_prev(p, now),
        };
        self.prev_tick = Some(r);
        r
    }

    /// How long to wait at clock reading `now` so that `period` has passed
    /// since the previous step: zero before the first step and once the
    /// period is already over; the system does not catch up.
    pub fn time_until_next_frame(&self, now: u64, period: u64) -> (w: u64)
        ensures
            w == match self.prev_tick {
                None => 0,
                Some(p) => if now >= p.instant && now - p.instant < period {
                    (period - (now - p.instant)) as u64
                } else if now < p.instant {
                    period
                } else {
                    0
                },
            },
            w <= period,
    {
        match &self.prev_tick {
            None => 0,
            Some(p) => {
                if now < p.instant {
                    period
                } else if now - p.instant < period {
                    period - (now - p.instant)
                } else {
                    0
                }
            },
        }
    }
}

} // verus!
