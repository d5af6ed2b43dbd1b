//! A metronome that also knows the bar: which beats are accented.
use vstd::prelude::*;

use crate::metronome::{Metronome, MetronomeView};

verus! {

/// A time signature such as 4/4 or 7/8 over a metronome.
pub struct TimeSignature {
    time: (u8, u8),
    metronome: Metronome,
}

impl TimeSignature {
    pub closed spec fn wf(&self) -> bool {
        self.time.0 > 0 && self.metronome.wf()
    }

    pub closed spec fn time_spec(&self) -> (u8, u8) {
        self.time
    }

    pub closed spec fn metronome_spec(&self) -> MetronomeView {
        self.metronome@
    }

    /// `time` is (beats per bar, note value); a bar must hold a beat.
    pub fn new(time: (u8, u8), bpm: u16, sample_rate: u32, channel_count: u16) -> (r: TimeSignature)
        requires
            time.0 > 0,
            bpm > 0,
            bpm <= sample_rate * channel_count * 60,
        ensures
            r.wf(),
            r.time_spec() == time,
            r.metronome_spec() == (MetronomeView {
                is_running: false,
                beat_index: 0,
                sample_count: 0,
                samples_per_minute: sample_rate as int * channel_count as int * 60,
                bpm: bpm as int,
                show_beat: false,
            }),
    {
        let metronome = Metronome::new(bpm, sample_rate, channel_count as u32);
        TimeSignature { time, metronome }
    }

    /// Sets the elapsed sample count; returns whether the beat is showing and
    /// whether the current beat is the first of its bar (accented).
    pub fn update(&mut self, elapsed_samples: u64) -> (r: (bool, bool))
        requires
            old(self).wf(),
        ensures
            final(self).wf(),
            final(self).time_spec() == old(self).time_spec(),
            final(self).metronome_spec() == old(self).metronome_spec().updated(
                elapsed_samples as int,
            ),
            r.0 == final(self).metronome_spec().show_beat,
            r.1 == (final(self).metronome_spec().beat_index % (old(self).time_spec().0 as int)
                == 0),
    {
        self.metronome.update(elapsed_samples);
        (self.metronome.show_beat(), self.metronome.get_beat_index() % self.time.0 as u64 == 0)
    }

    /// Beats played so far.
    pub fn beat_index(&self) -> (r: u64)
        ensures
            r == self.metronome_spec().beat_index,
    {
        self.metronome.get_beat_index()
    }
}

} // verus!
