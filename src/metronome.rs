//! Beat tracking against an externally supplied sample count.
//!
//! A beat lasts `samples_per_minute / bpm` samples, which need not be a whole
//! number; the metronome keeps both integers and never rounds the period.
use vstd::prelude::*;
use vstd::arithmetic::div_mod::{lemma_div_is_ordered, lemma_fundamental_div_mod, lemma_mod_bound};

verus! {

/// How many samples past a beat boundary the beat is still shown (and a
/// click sounds).
pub const SHOW_BEAT_WINDOW: u64 = 8192;

/// A metronome as plain numbers.
pub ghost struct MetronomeView {
    pub is_running: bool,
    pub beat_index: int,
    pub sample_count: int,
    /// Interleaved samples in one minute.
    pub samples_per_minute: int,
    /// Beats per minute.
    pub bpm: int,
    pub show_beat: bool,
}

impl MetronomeView {
    /// A beat lasts at least one sample.
    pub open spec fn wf(self) -> bool {
        &&& 0 < self.bpm <= u16::MAX
        &&& self.bpm <= self.samples_per_minute
        &&& self.samples_per_minute <= u32::MAX * u32::MAX * 60
    }

    /// The metronome once `elapsed` samples have been played: the beat index
    /// is `elapsed` divided by the beat period `samples_per_minute / bpm`,
    /// rounded down, and the beat shows while less than
    /// `SHOW_BEAT_WINDOW` samples have passed since the last beat boundary.
    pub open spec fn updated(self, elapsed: int) -> MetronomeView {
        MetronomeView {
            sample_count: elapsed,
            beat_index: elapsed * self.bpm / self.samples_per_minute,
            show_beat: (elapsed * self.bpm) % self.samples_per_minute < SHOW_BEAT_WINDOW
                * self.bpm,
            ..self
        }
    }
}

/// The beat index is `floor(elapsed / tick_period)` exactly, for the tick
/// period `samples_per_minute / bpm`: whole beats fit into the elapsed
/// samples and one more does not. It never goes back while the elapsed
/// sample count does not.
pub proof fn lemma_beat_index_monotonic(v: MetronomeView, a: int, b: int)
    requires
        v.wf(),
        0 <= a <= b,
    ensures
        v.updated(a).beat_index * v.samples_per_minute <= a * v.bpm,
        a * v.bpm < (v.updated(a).beat_index + 1) * v.samples_per_minute,
        v.updated(a).beat_index <= v.updated(b).beat_index,
        v.updated(a).updated(b).beat_index == v.updated(b).beat_index,
        v.updated(a).beat_index <= v.updated(a).updated(b).beat_index,
{
    let s = v.samples_per_minute;
    assert(a * v.bpm <= b * v.bpm) by (nonlinear_arith)
        requires
            0 <= a <= b,
            v.bpm > 0,
    ;
    lemma_div_is_ordered(a * v.bpm, b * v.bpm, s);
    lemma_fundamental_div_mod(a * v.bpm, s);
    lemma_mod_bound(a * v.bpm, s);
    let q = a * v.bpm / s;
    assert(q * s == s * q) by (nonlinear_arith);
    assert((q + 1) * s == s * q + s) by (nonlinear_arith);
}

/// Converts an elapsed sample count into a beat index and a beat flag.
pub struct Metronome {
    pub is_running: bool,
    beat_index: u64,
    sample_count: u64,
    samples_per_minute: u128,
    bpm: u16,
    show_beat: bool,
}

impl View for Metronome {
    type V = MetronomeView;

    closed spec fn view(&self) -> MetronomeView {
        MetronomeView {
            is_running: self.is_running,
            beat_index: self.beat_index as int,
            sample_count: self.sample_count as int,
            samples_per_minute: self.samples_per_minute as int,
            bpm: self.bpm as int,
            show_beat: self.show_beat,
        }
    }
}

impl Metronome {
    pub open spec fn wf(&self) -> bool {
        self@.wf()
    }

    /// A stopped metronome at `bpm` beats per minute for a stream of
    /// `sample_rate` frames per second of `channel_count` channels. A beat
    /// must last at least one sample.
    pub fn new(bpm: u16, sample_rate: u32, channel_count: u32) -> (r: Metronome)
        requires
            bpm > 0,
            bpm <= sample_rate * channel_count * 60,
        ensures
            r.wf(),
            r@ == (MetronomeView {
                is_running: false,
                beat_index: 0,
                sample_count: 0,
                samples_per_minute: sample_rate as int * channel_count as int * 60,
                bpm: bpm as int,
                show_beat: false,
            }),
    {
        proof {
            assert(sample_rate as int * channel_count as int * 60 <= u32::MAX * u32::MAX * 60)
                by (nonlinear_arith)
                requires
                    sample_rate <= u32::MAX,
                    channel_count <= u32::MAX,
            ;
        }
        let samples_per_minute = sample_rate as u128 * channel_count as u128 * 60;
        Metronome {
            is_running: false,
            beat_index: 0,
            sample_count: 0,
            samples_per_minute,
            bpm,
            show_beat: false,
        }
    }

    /// Sets the elapsed sample count and recomputes the beat index and flag.
    pub fn update(&mut self, elapsed_samples: u64)
        requires
            old(self).wf(),
        ensures
            final(self).wf(),
            final(self)@ == old(self)@.updated(elapsed_samples as int),
    {
        let bpm = self.bpm as u128;
        proof {
            assert(elapsed_samples * bpm <= u64::MAX * u16::MAX) by (nonlinear_arith)
                requires
                    bpm <= u16::MAX,
            ;
            assert(SHOW_BEAT_WINDOW * bpm <= SHOW_BEAT_WINDOW * u16::MAX) by (nonlinear_arith)
                requires
                    bpm <= u16::MAX,
            ;
        }
        let scaled = elapsed_samples as u128 * bpm;
        proof {
            let s = self.samples_per_minute as int;
            assert(scaled <= elapsed_samples * s) by (nonlinear_arith)
                requires
                    scaled == elapsed_samples * bpm,
                    bpm <= s,
            ;
            lemma_div_is_ordered(scaled as int, elapsed_samples * s, s);
            assert(elapsed_samples * s == s * elapsed_samples) by (nonlinear_arith);
            vstd::arithmetic::div_mod::lemma_div_multiples_vanish(elapsed_samples as int, s);
        }
        self.sample_count = elapsed_samples;
        self.show_beat = scaled % self.samples_per_minute < SHOW_BEAT_WINDOW as u128 * bpm;
        self.beat_index = (scaled / self.samples_per_minute) as u64;
    }

    /// Beats played so far.
    pub fn get_beat_index(&self) -> (r: u64)
        ensures
            r == self@.beat_index,
    {
        self.beat_index
    }

    /// Whether the current sample falls in the window just after a beat.
    pub fn show_beat(&self) -> (r: bool)
        ensures
            r == self@.show_beat,
    {
        self.show_beat
    }

    /// Interleaved samples in one minute.
    pub fn samples_per_minute(&self) -> (r: u128)
        ensures
            r == self@.samples_per_minute,
    {
        self.samples_per_minute
    }

    /// The tempo, in beats per minute.
    pub fn bpm(&self) -> (r: u16)
        ensures
            r == self@.bpm,
    {
        self.bpm
    }
}

} // verus!
