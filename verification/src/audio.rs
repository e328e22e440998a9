use vstd::prelude::*;

use crate::timer::MAX_FREQ;

verus! {

/// Audio trigger: a countdown in 60Hz frames, scaled to the configured CPU
/// clock frequency exactly as the delay timer is. `play_sound` restarts
/// playback and the countdown and records a start request for the audio
/// backend; when the countdown reaches zero, `tick` reports a stop exactly
/// once.
pub struct Audio {
    time: u8,
    ticks: u32,
    freq: u32,
    playing: bool,
    pending: Option<u8>,
}

/// Mathematical image of an `Audio`.
pub struct AudioView {
    pub time: u8,
    pub ticks: u32,
    pub freq: u32,
    pub playing: bool,
    pub pending: Option<u8>,
}

impl View for Audio {
    type V = AudioView;

    closed spec fn view(&self) -> AudioView {
        AudioView {
            time: self.time,
            ticks: self.ticks,
            freq: self.freq,
            playing: self.playing,
            pending: self.pending,
        }
    }
}

impl AudioView {
    /// Well-formedness: as for the delay timer, the frequency is in range,
    /// the tick counter holds less than one frame more than the visible
    /// countdown's worth of time (which also keeps the countdown inside 8
    /// bits), and a positive countdown has ticks left to spend.
    pub open spec fn wf(self) -> bool {
        &&& 60 <= self.freq <= MAX_FREQ
        &&& self.ticks * 60 < (self.time + 1) * self.freq
        &&& self.time > 0 ==> self.ticks >= 1
    }

    /// State after `play_sound(duration)`: playback restarted, countdown
    /// reloaded, a start request for `duration` frames recorded.
    pub open spec fn play_spec(self, duration: u8) -> AudioView {
        AudioView {
            time: duration,
            ticks: ((duration * self.freq) / 60) as u32,
            freq: self.freq,
            playing: true,
            pending: Some(duration),
        }
    }

    /// The countdown part of one CPU-clock tick, before the stop decision.
    pub open spec fn count_down(self) -> AudioView {
        if self.time > 0 {
            let t = (self.ticks - 1) as u32;
            AudioView {
                time: ((t * 60) / self.freq as int) as u8,
                ticks: t,
                freq: self.freq,
                playing: self.playing,
                pending: self.pending,
            }
        } else {
            self
        }
    }

    /// Whether this tick is the one that stops playback: the countdown has
    /// run out while playback was on.
    pub open spec fn tick_stops(self) -> bool {
        self.playing && self.count_down().time == 0
    }

    /// State after one CPU-clock tick: counted down, and no longer playing
    /// once the countdown has run out.
    pub open spec fn tick_spec(self) -> AudioView {
        let c = self.count_down();
        AudioView { playing: c.playing && c.time > 0, ..c }
    }
}

impl Audio {
    /// Create a new audio trigger for a CPU clock running at `freq` Hz:
    /// silent, nothing pending.
    pub fn new(freq: u32) -> (a: Audio)
        requires
            60 <= freq <= MAX_FREQ,
        ensures
            a@ == (AudioView { time: 0, ticks: 0, freq, playing: false, pending: None }),
            a@.wf(),
    {
        proof {
            assert(0 * 60 < (0 + 1) * (freq as int)) by (nonlinear_arith)
                requires freq >= 60;
        }
        Audio { time: 0, ticks: 0, freq, playing: false, pending: None }
    }

    /// Restart playback for a given duration (in 60Hz frames).
    pub fn play_sound(&mut self, duration: u8)
        requires
            old(self)@.wf(),
        ensures
            final(self)@ == old(self)@.play_spec(duration),
            final(self)@.wf(),
    {
        proof {
            let f = self.freq as int;
            assert(duration * f <= 255 * f) by (nonlinear_arith)
                requires f >= 0, duration <= 255;
            assert(((duration * f) / 60) * 60 <= duration * f) by (nonlinear_arith)
                requires duration * f >= 0;
            assert(duration > 0 ==> (duration * f) / 60 >= 1) by (nonlinear_arith)
                requires f >= 60, duration >= 0;
            assert(duration * f < (duration + 1) * f) by (nonlinear_arith)
                requires f > 0;
        }
        self.time = duration;
        self.ticks = duration as u32 * self.freq / 60;
        self.playing = true;
        self.pending = Some(duration);
    }

    /// Hand the recorded start request to the audio backend, if one is
    /// waiting: the backend is to start playing a tone for that many 60Hz
    /// frames.
    pub fn take_start(&mut self) -> (r: Option<u8>)
        ensures
            r == old(self)@.pending,
            final(self)@ == (AudioView { pending: None, ..old(self)@ }),
    {
        let r = self.pending;
        self.pending = None;
        r
    }

    /// One CPU-clock tick: count down, and report `true` exactly once, on
    /// the tick on which the countdown runs out while playback is on. The
    /// caller stops the backend's playback on that report.
    pub fn tick(&mut self) -> (stop: bool)
        requires
            old(self)@.wf(),
        ensures
            final(self)@ == old(self)@.tick_spec(),
            final(self)@.wf(),
            stop == old(self)@.tick_stops(),
    {
        if self.time > 0 {
            proof {
                let t = (self.ticks - 1) as int;
                let f = self.freq as int;
                assert((self.time + 1) * f <= 256 * f) by (nonlinear_arith)
                    requires f >= 0, self.time <= 255;
                assert(t * 60 < 256 * f);
                assert((t * 60) / f <= 255) by (nonlinear_arith)
                    requires t * 60 < 256 * f, f >= 60, t >= 0;
                assert((t * 60) / f >= 1 ==> t >= 1) by (nonlinear_arith)
                    requires f >= 60, t >= 0;
                assert(t * 60 < ((t * 60) / f + 1) * f) by (nonlinear_arith)
                    requires t >= 0, f > 0;
            }
            self.ticks = self.ticks - 1;
            self.time = (self.ticks * 60 / self.freq) as u8;
        }
        let stop = self.playing && self.time == 0;
        self.playing = self.playing && self.time > 0;
        stop
    }
}

/// The square-wave samples the audio backend plays for a tone of the given
/// duration (in 60Hz frames): interleaved samples for every channel, twice
/// the nominal count to ride out queueing delays, alternating between high
/// and low once per half-period, with the period derived from the device
/// sample rate.
pub fn square_wave(device_freq: i32, channels: i32, duration: u8) -> (samples: Vec<i16>)
    requires
        device_freq >= 256,
        channels >= 1,
        2 * device_freq * channels * 255 <= i32::MAX,
    ensures
        samples@.len() == 2 * device_freq * channels * duration / 60,
        forall|k: int|
            0 <= k < samples@.len() ==> samples@[k] == (if (k / (device_freq as int / 256)) % 2
                == 0 {
                1000i16
            } else {
                -1000i16
            }),
{
    let period = (device_freq / 256) as usize;
    proof {
        let f = device_freq as int;
        let c = channels as int;
        assert(2 * f <= 2 * f * c && 2 * f * c <= 2 * f * c * 255) by (nonlinear_arith)
            requires f >= 1, c >= 1;
        assert(2 * f * c * duration <= 2 * f * c * 255) by (nonlinear_arith)
            requires f >= 1, c >= 1, duration <= 255;
        assert(2 * f * c * duration >= 0) by (nonlinear_arith)
            requires f >= 0, c >= 0, duration >= 0;
        assert(f / 256 >= 1);
    }
    let sample_count = (2 * device_freq * channels * (duration as i32) / 60) as usize;
    let mut samples: Vec<i16> = Vec::new();
    let mut k: usize = 0;
    while k < sample_count
        invariant
            samples@.len() == k,
            k <= sample_count,
            period == device_freq as int / 256,
            period >= 1,
            forall|j: int|
                0 <= j < k ==> samples@[j] == (if (j / (period as int)) % 2 == 0 {
                    1000i16
                } else {
                    -1000i16
                }),
        decreases sample_count - k,
    {
        if (k / period) % 2 == 0 {
            samples.push(1000);
        } else {
            samples.push(-1000);
        }
        k = k + 1;
    }
    samples
}

} // verus!
