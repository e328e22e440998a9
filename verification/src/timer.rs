use vstd::prelude::*;

use crate::commons::CanTick;

verus! {

/// Largest clock frequency a `Timer` accepts. It keeps every product the
/// timer computes (at most `255 * freq`) inside `u32`.
pub const MAX_FREQ: u32 = 0xFFFFFF;

/// Delay timer: an 8-bit countdown expressed in 60Hz frames, decremented
/// once per CPU-clock tick. The internal tick counter is scaled by the
/// ratio `freq / 60`, so the visible countdown runs at 60Hz wall-clock
/// speed whatever the configured CPU clock frequency is.
pub struct Timer {
    time: u8,
    ticks: u32,
    freq: u32,
}

/// Mathematical image of a `Timer`.
pub struct TimerView {
    pub time: u8,
    pub ticks: u32,
    pub freq: u32,
}

impl TimerView {
    /// Well-formedness: the frequency is in range, the tick counter holds
    /// less than one frame more than the visible countdown's worth of time
    /// (which also keeps the countdown inside 8 bits), and a positive
    /// countdown has ticks left to spend.
    pub open spec fn wf(self) -> bool {
        &&& 60 <= self.freq <= MAX_FREQ
        &&& self.ticks * 60 < (self.time + 1) * self.freq
        &&& self.time > 0 ==> self.ticks >= 1
    }

    /// State after `set(duration)`: the countdown shows `duration` and the
    /// tick counter holds the scaled equivalent.
    pub open spec fn set_spec(self, duration: u8) -> TimerView {
        TimerView {
            time: duration,
            ticks: ((duration * self.freq) / 60) as u32,
            freq: self.freq,
        }
    }

    /// State after one CPU-clock tick: while the countdown is positive one
    /// tick is consumed and the visible value recomputed (floor-dividing);
    /// at zero nothing moves.
    pub open spec fn tick_spec(self) -> TimerView {
        if self.time > 0 {
            let t = (self.ticks - 1) as u32;
            TimerView {
                time: ((t * 60) / self.freq as int) as u8,
                ticks: t,
                freq: self.freq,
            }
        } else {
            self
        }
    }
}

impl View for Timer {
    type V = TimerView;

    closed spec fn view(&self) -> TimerView {
        TimerView { time: self.time, ticks: self.ticks, freq: self.freq }
    }
}

impl Timer {
    /// Create a new delay timer for a CPU clock running at `freq` Hz.
    pub fn new(freq: u32) -> (t: Timer)
        requires
            60 <= freq <= MAX_FREQ,
        ensures
            t@ == (TimerView { time: 0, ticks: 0, freq }),
            t@.wf(),
    {
        proof {
            assert(0 * 60 < (0 + 1) * (freq as int)) by (nonlinear_arith)
                requires freq >= 60;
        }
        Timer { time: 0, ticks: 0, freq }
    }

    /// Set the timer to a given duration (in 60Hz frames).
    pub fn set(&mut self, duration: u8)
        requires
            old(self)@.wf(),
        ensures
            final(self)@ == old(self)@.set_spec(duration),
            final(self)@.wf(),
    {
        proof {
            let f = self.freq as int;
            assert(duration * f <= 255 * f) by (nonlinear_arith)
                requires f >= 0, duration <= 255;
            assert(((duration * f) / 60) * 60 <= duration * f) by (nonlinear_arith)
                requires duration * f >= 0;
            assert(duration > 0 ==> (duration * f) / 60 >= 1) by (nonlinear_arith)
                requires f >= 60, duration >= 0;
            assert(duration * f < (duration + 1) * f) by (nonlinear_arith)
                requires f > 0;
        }
        self.time = duration;
        self.ticks = duration as u32 * self.freq / 60;
    }

    /// Get the visible value of the countdown.
    pub fn get(&self) -> (r: u8)
        ensures
            r == self@.time,
    {
        self.time
    }
}

/// Each tick, the timer is decreased by the appropriate amount, taking the
/// configured clock frequency into account.
impl CanTick for Timer {
    open spec fn inv(&self) -> bool {
        self@.wf()
    }

    open spec fn tick_view(&self) -> TimerView {
        self@.tick_spec()
    }

    fn tick(&mut self) {
        if self.time > 0 {
            proof {
                let t = (self.ticks - 1) as int;
                let f = self.freq as int;
                assert((self.time + 1) * f <= 256 * f) by (nonlinear_arith)
                    requires f >= 0, self.time <= 255;
                assert(t * 60 < 256 * f);
                assert((t * 60) / f <= 255) by (nonlinear_arith)
                    requires t * 60 < 256 * f, f >= 60, t >= 0;
                assert((t * 60) / f >= 1 ==> t >= 1) by (nonlinear_arith)
                    requires f >= 60, t >= 0;
                assert(t * 60 < ((t * 60) / f + 1) * f) by (nonlinear_arith)
                    requires t >= 0, f > 0;
            }
            self.ticks = self.ticks - 1;
            self.time = (self.ticks * 60 / self.freq) as u8;
        }
    }
}

/// The visible countdown never increases except through an explicit set,
/// and once it reaches zero it stays there until re-set.
pub proof fn lemma_countdown_monotone(t: TimerView)
    requires
        t.wf(),
    ensures
        t.tick_spec().time <= t.time,
        t.time == 0 ==> t.tick_spec() == t,
{
    if t.time > 0 {
        let tk = (t.ticks - 1) as int;
        let f = t.freq as int;
        assert(tk * 60 < (t.time + 1) * f - 60);
        assert((tk * 60) / f < t.time + 1) by (nonlinear_arith)
            requires tk >= 0, f > 0, tk * 60 < (t.time + 1) * f;
    }
}

/// The timer state after `n` CPU-clock ticks.
pub open spec fn ticked_n(t: TimerView, n: nat) -> TimerView
    decreases n,
{
    if n == 0 {
        t
    } else {
        ticked_n(t, (n - 1) as nat).tick_spec()
    }
}

/// At clock frequency 60 the countdown tracks the tick count one for one:
/// after `k <= d` ticks following `set(d)` the timer shows `d - k`.
pub proof fn lemma_sixty_hz_progress(t: TimerView, d: u8, k: nat)
    requires
        t.wf(),
        t.freq == 60,
        k <= d,
    ensures
        ticked_n(t.set_spec(d), k) == (TimerView {
            time: (d - k) as u8,
            ticks: (d - k) as u32,
            freq: 60,
        }),
    decreases k,
{
    if k == 0 {
        assert(t.set_spec(d).ticks == (d * 60) / 60 == d as int);
    } else {
        lemma_sixty_hz_progress(t, d, (k - 1) as nat);
        let prev = ticked_n(t.set_spec(d), (k - 1) as nat);
        assert(prev.time == d - (k - 1) > 0);
        assert(prev.tick_spec().time == ((d - k) * 60) / 60 == (d - k) as int);
    }
}

/// `set(d)` followed by exactly `d` ticks at clock frequency 60 brings the
/// countdown to zero, and no earlier tick does.
pub proof fn lemma_sixty_hz_countdown(t: TimerView, d: u8)
    requires
        t.wf(),
        t.freq == 60,
    ensures
        ticked_n(t.set_spec(d), d as nat).time == 0,
        forall|k: nat| k < d ==> (#[trigger] ticked_n(t.set_spec(d), k)).time > 0,
{
    lemma_sixty_hz_progress(t, d, d as nat);
    assert forall|k: nat| k < d implies (#[trigger] ticked_n(t.set_spec(d), k)).time > 0 by {
        lemma_sixty_hz_progress(t, d, k);
    }
}

/// At clock frequency 120 the tick counter runs at double speed: after
/// `k` ticks following `set(d)`, while `k < 2 * d`, the counter holds
/// `2 * d - k` and the countdown shows its half, rounded down.
pub proof fn lemma_double_rate_progress(t: TimerView, d: u8, k: nat)
    requires
        t.wf(),
        t.freq == 120,
        d >= 1,
        k <= 2 * d - 1,
    ensures
        ticked_n(t.set_spec(d), k) == (TimerView {
            time: ((2 * d - k) / 2) as u8,
            ticks: (2 * d - k) as u32,
            freq: 120,
        }),
    decreases k,
{
    if k == 0 {
        assert(t.set_spec(d).ticks == (d * 120) / 60 == 2 * d as int);
        assert((2 * d as int) / 2 == d as int);
    } else {
        lemma_double_rate_progress(t, d, (k - 1) as nat);
        let prev = ticked_n(t.set_spec(d), (k - 1) as nat);
        assert(prev.time == (2 * d - (k - 1)) / 2 >= 1);
        assert(prev.tick_spec().ticks == 2 * d - k);
        let m = 2 * d - k;
        assert((m * 60) / 120 == m / 2) by (nonlinear_arith)
            requires m >= 0;
        assert(prev.tick_spec().time == (m * 60) / 120);
    }
}

/// `set(d)` followed by `2 * d` ticks at clock frequency 120 brings the
/// countdown to zero: doubling the CPU clock doubles the tick budget of a
/// 60Hz duration.
pub proof fn lemma_double_rate_countdown(t: TimerView, d: u8)
    requires
        t.wf(),
        t.freq == 120,
    ensures
        ticked_n(t.set_spec(d), (2 * d) as nat).time == 0,
{
    if d >= 1 {
        lemma_double_rate_progress(t, d, (2 * d - 1) as nat);
        let prev = ticked_n(t.set_spec(d), (2 * d - 1) as nat);
        assert(prev.time == 1int / 2 == 0);
        assert(ticked_n(t.set_spec(d), (2 * d) as nat) == prev.tick_spec());
    }
}

} // verus!
