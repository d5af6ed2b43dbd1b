//! The synthesis voice and the commands that steer it between blocks.
use vstd::prelude::*;

use crate::envelope::{Envelope, EnvelopeView};
use crate::noise::{NoiseGenerator, NoiseType};
use crate::oscillator::{Oscillator, OscillatorView, WaveType, HALF_DUTY};
use crate::UNITY;

verus! {

/// A parameter change from the user interface, applied between blocks.
#[derive(Clone, Copy, Debug, PartialEq, Eq, Structural)]
pub enum Command {
    Start,
    Stop,
    /// The new frequency, in millihertz.
    ChangeFrequency(u32),
    /// 0 sine, 1 sawtooth, 2 square, 3 triangle, 4 fake sine.
    ChangeOscillator(u8),
    /// 0 silent, 1 uniform, 2 Gaussian.
    ChangeNoise(u8),
    Pressed,
    Released,
}

pub open spec fn command_wave(id: u8) -> Option<WaveType> {
    if id == 0 {
        Some(WaveType::Sine)
    } else if id == 1 {
        Some(WaveType::Sawtooth)
    } else if id == 2 {
        Some(WaveType::Square { duty: HALF_DUTY })
    } else if id == 3 {
        Some(WaveType::Triangle)
    } else if id == 4 {
        Some(WaveType::FakeSine)
    } else {
        None
    }
}

pub open spec fn command_noise(id: u8) -> Option<NoiseType> {
    if id == 0 {
        Some(NoiseType::Silent)
    } else if id == 1 {
        Some(NoiseType::Random)
    } else if id == 2 {
        Some(NoiseType::White)
    } else {
        None
    }
}

/// The wave an oscillator command selects; `None` for an unknown id.
pub fn wave_for_command(id: u8) -> (r: Option<WaveType>)
    ensures
        r == command_wave(id),
{
    match id {
        0 => Some(WaveType::Sine),
        1 => Some(WaveType::Sawtooth),
        2 => Some(WaveType::Square { duty: HALF_DUTY }),
        3 => Some(WaveType::Triangle),
        4 => Some(WaveType::FakeSine),
        _ => None,
    }
}

/// An oscillator plus a noise source, gated by start/stop and shaped by an
/// envelope.
pub struct Synth {
    is_running: bool,
    oscillator: Oscillator,
    noise: NoiseGenerator,
    envelope: Envelope,
}

impl Synth {
    pub closed spec fn running(&self) -> bool {
        self.is_running
    }

    pub closed spec fn tone(&self) -> OscillatorView {
        self.oscillator@
    }

    pub closed spec fn noise_kind(&self) -> NoiseType {
        self.noise.kind()
    }

    pub closed spec fn gain(&self) -> EnvelopeView {
        self.envelope@
    }

    pub open spec fn wf(&self) -> bool {
        self.tone().wf() && self.gain().wf()
    }

    /// A stopped voice: a silent sine oscillator, no noise and an idle
    /// envelope whose segments are `attack`, `decay` and `release` samples.
    pub fn new(sample_rate: u32, attack: u64, decay: u64, release: u64) -> (r: Synth)
        requires
            sample_rate > 0,
            0 < attack < u64::MAX,
            0 < decay < u64::MAX,
            0 < release < u64::MAX,
        ensures
            r.wf(),
            !r.running(),
            r.tone() == (OscillatorView {
                sample_rate: sample_rate as int,
                frequency: 0,
                wave_type: WaveType::Sine,
                phase: 0,
            }),
            r.noise_kind() == NoiseType::Silent,
            r.gain() == (EnvelopeView {
                state: crate::envelope::EnvelopeState::Idle,
                volume: 0,
                tick: 0,
                attack: attack as int,
                decay: decay as int,
                release: release as int,
            }),
    {
        Synth {
            is_running: false,
            oscillator: Oscillator::new(sample_rate),
            noise: NoiseGenerator::new(),
            envelope: Envelope::with_durations(attack, decay, release),
        }
    }

    /// Applies one command. Unknown oscillator or noise ids change nothing.
    pub fn apply(&mut self, command: Command)
        requires
            old(self).wf(),
        ensures
            final(self).wf(),
            final(self).running() == match command {
                Command::Start => true,
                Command::Stop => false,
                _ => old(self).running(),
            },
            final(self).tone() == match command {
                Command::ChangeFrequency(f) => OscillatorView {
                    frequency: f as int,
                    ..old(self).tone()
                },
                Command::ChangeOscillator(id) => match command_wave(id) {
                    Some(w) => OscillatorView { wave_type: w, ..old(self).tone() },
                    None => old(self).tone(),
                },
                _ => old(self).tone(),
            },
            final(self).noise_kind() == match command {
                Command::ChangeNoise(id) => match command_noise(id) {
                    Some(k) => k,
                    None => old(self).noise_kind(),
                },
                _ => old(self).noise_kind(),
            },
            final(self).gain() == match command {
                Command::Pressed => old(self).gain().pressed(),
                _ => old(self).gain(),
            },
    {
        match command {
            Command::Start => {
                self.is_running = true;
            },
            Command::Stop => {
                self.is_running = false;
            },
            Command::ChangeFrequency(f) => {
                self.oscillator.set_frequency(f);
            },
            Command::ChangeOscillator(id) => {
                if let Some(w) = wave_for_command(id) {
                    self.oscillator.set_wave_type(w);
                }
            },
            Command::ChangeNoise(id) => {
                if let Some(k) = NoiseType::from_u8(id) {
                    *self.noise.noise_type_mut() = k;
                }
            },
            Command::Pressed => {
                self.envelope.press();
            },
            Command::Released => {
                self.envelope.release();
            },
        }
    }

    /// The phase the next tone sample is taken at, and the period it is
    /// measured against.
    pub fn phase(&self) -> (r: (u64, u64))
        requires
            self.wf(),
        ensures
            r.0 == self.tone().phase,
            r.1 == crate::oscillator::period_of(self.tone().sample_rate),
    {
        (self.oscillator.phase(), self.oscillator.period())
    }

    /// The parts of the next sample: the tone, the noise and the envelope
    /// gain. A stopped voice is silent and holds its phase. A tone part of
    /// `None` is a sine and a noise part of `None` is Gaussian: the caller
    /// draws those. The envelope advances one sample either way.
    pub fn next_sample(&mut self) -> (r: (Option<i32>, Option<i32>, u32))
        requires
            old(self).wf(),
        ensures
            final(self).wf(),
            final(self).running() == old(self).running(),
            final(self).noise_kind() == old(self).noise_kind(),
            final(self).gain() == old(self).gain().next(),
            r.2 == final(self).gain().volume,
            !old(self).running() ==> r.0 == Some(0i32) && r.1 == Some(0i32) && final(self).tone()
                == old(self).tone(),
            old(self).running() && old(self).tone().frequency > 0 ==> final(self).tone()
                == old(self).tone().next(),
            old(self).running() && old(self).tone().frequency == 0 ==> final(self).tone()
                == old(self).tone() && r.0 == Some(0i32),
            old(self).running() && old(self).tone().frequency > 0 ==> r.0.is_some()
                == crate::oscillator::wave_value(
                old(self).tone().wave_type,
                old(self).tone().phase,
                crate::oscillator::period_of(old(self).tone().sample_rate),
            ).is_some(),
            old(self).running() && old(self).tone().frequency > 0 && r.0.is_some() ==> r.0.unwrap()
                == crate::oscillator::wave_value(
                old(self).tone().wave_type,
                old(self).tone().phase,
                crate::oscillator::period_of(old(self).tone().sample_rate),
            ).unwrap(),
            old(self).running() && old(self).noise_kind() == NoiseType::Silent ==> r.1 == Some(
                0i32,
            ),
            old(self).running() && old(self).noise_kind() == NoiseType::White ==> r.1.is_none(),
            old(self).running() && old(self).noise_kind() == NoiseType::Random ==> r.1.is_some()
                && -(UNITY as int) <= r.1.unwrap() <= UNITY as int,
    {
        let gain = self.envelope.update();
        if !self.is_running {
            return (Some(0), Some(0), gain);
        }
        let tone = self.oscillator.run();
        let noise = self.noise.run();
        (tone, noise, gain)
    }
}

} // verus!
