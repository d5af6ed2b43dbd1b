//! Periodic waveform generation from an exact phase accumulator.
//!
//! Frequencies are in millihertz. The phase counts millihertz-seconds within
//! one period of `sample_rate * 1000`, so it advances by exactly the
//! frequency each sample and never drifts.
use vstd::prelude::*;
use vstd::arithmetic::div_mod::{
    lemma_add_mod_noop,
    lemma_add_mod_noop_right,
    lemma_div_is_ordered,
    lemma_div_by_multiple,
    lemma_mod_bound,
    lemma_small_mod,
};

use crate::UNITY;

verus! {

/// Millihertz in one hertz.
pub const MILLIHERTZ_PER_HERTZ: u64 = 1000;

/// The default duty cycle of a square wave: one half.
pub const HALF_DUTY: u32 = 500_000;

/// The shape of the wave an oscillator produces.
#[derive(Clone, Copy, Debug, PartialEq, Eq, Structural)]
pub enum WaveType {
    /// `sin(2π·p)` at phase fraction `p`; evaluated by the caller.
    Sine,
    /// The parabolic sine approximation `4x(1 − |x|)` with `x = 2p − 1`.
    FakeSine,
    /// A ramp from −1 to 1 over one period.
    Sawtooth,
    /// +1 while the phase fraction is below `duty / UNITY`, else −1.
    Square { duty: u32 },
    /// `1 − 4·|p − 1/2|`.
    Triangle,
}

impl WaveType {
    /// The wave's code: 0 sine, 1 fake sine, 2 sawtooth, 3 square, 4 triangle.
    pub fn to_u8(&self) -> (r: u8)
        ensures
            r == wave_code(*self),
    {
        match self {
            WaveType::Sine => 0,
            WaveType::FakeSine => 1,
            WaveType::Sawtooth => 2,
            WaveType::Square { duty: _ } => 3,
            WaveType::Triangle => 4,
        }
    }

    /// The wave with the given code, a square one with half duty; `None` for
    /// an unknown code.
    pub fn from_u8(value: u8) -> (r: Option<WaveType>)
        ensures
            value <= 4 <==> r.is_some(),
            r.is_some() ==> wave_code(r.unwrap()) == value,
            r == Some(WaveType::Square { duty: HALF_DUTY }) <==> value == 3,
    {
        match value {
            0 => Some(WaveType::Sine),
            1 => Some(WaveType::FakeSine),
            2 => Some(WaveType::Sawtooth),
            3 => Some(WaveType::Square { duty: HALF_DUTY }),
            4 => Some(WaveType::Triangle),
            _ => None,
        }
    }
}

pub open spec fn wave_code(w: WaveType) -> u8 {
    match w {
        WaveType::Sine => 0,
        WaveType::FakeSine => 1,
        WaveType::Sawtooth => 2,
        WaveType::Square { .. } => 3,
        WaveType::Triangle => 4,
    }
}

/// The length of one period in phase units.
pub open spec fn period_of(sample_rate: int) -> int {
    sample_rate * MILLIHERTZ_PER_HERTZ
}

pub open spec fn abs_diff(a: int, b: int) -> int {
    if a >= b {
        a - b
    } else {
        b - a
    }
}

/// The sample of wave `w` at phase `ph` of a period `p`, in units of
/// `UNITY`, rounded towards zero; `None` for the sine, which the caller
/// evaluates.
pub open spec fn wave_value(w: WaveType, ph: int, p: int) -> Option<int> {
    let u = UNITY as int;
    match w {
        WaveType::Sine => None,
        WaveType::FakeSine => {
            let a = abs_diff(2 * ph, p);
            let m = 4 * u * (a * (p - a)) / (p * p);
            if 2 * ph >= p {
                Some(m)
            } else {
                Some(-m)
            }
        },
        WaveType::Sawtooth => Some(2 * u * ph / p - u),
        WaveType::Square { duty } => {
            let d = if duty <= u { duty as int } else { u };
            if ph * u < d * p {
                Some(u)
            } else {
                Some(-u)
            }
        },
        WaveType::Triangle => Some(u - abs_diff(4 * u * ph, 2 * u * p) / p),
    }
}

/// An oscillator as plain numbers.
pub ghost struct OscillatorView {
    pub sample_rate: int,
    /// In millihertz.
    pub frequency: int,
    pub wave_type: WaveType,
    /// In `[0, period_of(sample_rate))`.
    pub phase: int,
}

impl OscillatorView {
    pub open spec fn wf(self) -> bool {
        &&& 0 < self.sample_rate <= u32::MAX
        &&& 0 <= self.frequency <= u32::MAX
        &&& 0 <= self.phase < period_of(self.sample_rate)
    }

    /// The oscillator one sample later: the phase advances by the frequency,
    /// modulo one period.
    pub open spec fn next(self) -> OscillatorView {
        OscillatorView {
            phase: (self.phase + self.frequency) % period_of(self.sample_rate),
            ..self
        }
    }

    /// The oscillator `n` samples later.
    pub open spec fn advanced(self, n: nat) -> OscillatorView
        decreases n,
    {
        if n == 0 {
            self
        } else {
            self.next().advanced((n - 1) as nat)
        }
    }
}

/// After `n` samples the phase is the start phase plus `n` times the
/// frequency, taken modulo one period; it never leaves `[0, period)`.
pub proof fn lemma_phase_after(v: OscillatorView, n: nat)
    requires
        v.wf(),
    ensures
        v.advanced(n).wf(),
        v.advanced(n).phase == (v.phase + n * v.frequency) % period_of(v.sample_rate),
        v.advanced(n).sample_rate == v.sample_rate,
        v.advanced(n).frequency == v.frequency,
        v.advanced(n).wave_type == v.wave_type,
    decreases n,
{
    let p = period_of(v.sample_rate);
    lemma_mod_bound(v.phase + v.frequency, p);
    if n == 0 {
        lemma_small_mod(v.phase as nat, p as nat);
        assert(n * v.frequency == 0) by (nonlinear_arith)
            requires
                n == 0,
        ;
    } else {
        let m = (n - 1) as nat;
        lemma_phase_after(v.next(), m);
        assert(v.advanced(n) == v.next().advanced(m));
        assert(v.advanced(n).phase == ((v.phase + v.frequency) % p + m * v.frequency) % p);
        lemma_add_mod_noop_right(m * v.frequency, v.phase + v.frequency, p);
        assert(m * v.frequency + (v.phase + v.frequency) == v.phase + n * v.frequency)
            by (nonlinear_arith)
            requires
                m == n - 1,
        ;
    }
}

/// When `n` samples of frequency `f` make whole periods (`n·f` is a multiple
/// of `sample_rate · 1000`, as for `n = r / f` with `f` a whole number of
/// hertz dividing the sample rate `r`), the oscillator returns to the state
/// it started from, so its output repeats every `n` samples.
pub proof fn lemma_periodic(v: OscillatorView, n: nat)
    requires
        v.wf(),
        (n * v.frequency) % period_of(v.sample_rate) == 0,
    ensures
        v.advanced(n) == v,
{
    let p = period_of(v.sample_rate);
    lemma_phase_after(v, n);
    lemma_add_mod_noop(v.phase, n * v.frequency, p);
    lemma_small_mod(v.phase as nat, p as nat);
}

proof fn lemma_fraction_bound(x: int, y: int, d: int)
    requires
        0 <= x <= y,
        0 < d,
    ensures
        0 <= x / d <= y / d,
{
    lemma_div_is_ordered(0, x, d);
    lemma_div_is_ordered(x, y, d);
}

/// Every sample a wave yields lies in `[-UNITY, UNITY]`.
pub proof fn lemma_wave_value_bounded(w: WaveType, ph: int, p: int)
    requires
        0 <= ph < p,
    ensures
        wave_value(w, ph, p).is_some() ==> -(UNITY as int) <= wave_value(w, ph, p).unwrap()
            <= UNITY as int,
{
    let u = UNITY as int;
    match w {
        WaveType::FakeSine => {
            let a = abs_diff(2 * ph, p);
            assert(p * p > 0) by (nonlinear_arith)
                requires
                    p > 0,
            ;
            assert(0 <= 4 * u * (a * (p - a)) <= u * (p * p)) by (nonlinear_arith)
                requires
                    0 <= a <= p,
                    u > 0,
            ;
            lemma_fraction_bound(4 * u * (a * (p - a)), u * (p * p), p * p);
            lemma_div_by_multiple(u, p * p);
        },
        WaveType::Sawtooth => {
            assert(0 <= 2 * u * ph <= 2 * u * p) by (nonlinear_arith)
                requires
                    0 <= ph < p,
                    u > 0,
            ;
            lemma_fraction_bound(2 * u * ph, 2 * u * p, p);
            lemma_div_by_multiple(2 * u, p);
        },
        WaveType::Triangle => {
            assert(0 <= abs_diff(4 * u * ph, 2 * u * p) <= 2 * u * p) by (nonlinear_arith)
                requires
                    0 <= ph < p,
                    u > 0,
            ;
            lemma_fraction_bound(abs_diff(4 * u * ph, 2 * u * p), 2 * u * p, p);
            lemma_div_by_multiple(2 * u, p);
        },
        _ => {},
    }
}

/// The sample of wave `w` at phase `ph` within a period of `p`.
pub fn wave_sample(w: WaveType, ph: u64, p: u64) -> (r: Option<i32>)
    requires
        ph < p <= u32::MAX * MILLIHERTZ_PER_HERTZ,
    ensures
        r.is_some() == wave_value(w, ph as int, p as int).is_some(),
        r.is_some() ==> r.unwrap() as int == wave_value(w, ph as int, p as int).unwrap(),
        r.is_some() ==> -(UNITY as int) <= r.unwrap() <= UNITY as int,
{
    proof {
        lemma_wave_value_bounded(w, ph as int, p as int);
    }
    let u = UNITY as u128;
    let pw = p as u128;
    let phw = ph as u128;
    match w {
        WaveType::Sine => None,
        WaveType::FakeSine => {
            let a = if 2 * phw >= pw { 2 * phw - pw } else { pw - 2 * phw };
            proof {
                assert(0 < pw * pw <= 0x10_0000_0000_0000_0000_0000u128) by (nonlinear_arith)
                    requires
                        0 < pw < 0x400_0000_0000u128,
                ;
                assert(a * (pw - a) <= pw * pw) by (nonlinear_arith)
                    requires
                        a <= pw,
                ;
                assert(4 * u * (a * (pw - a)) <= u128::MAX) by (nonlinear_arith)
                    requires
                        a * (pw - a) <= 0x10_0000_0000_0000_0000_0000u128,
                        u == UNITY,
                ;
            }
            let m = (4 * u * (a * (pw - a)) / (pw * pw)) as i32;
            if 2 * phw >= pw {
                Some(m)
            } else {
                Some(-m)
            }
        },
        WaveType::Sawtooth => {
            proof {
                assert(2 * u * phw <= u128::MAX) by (nonlinear_arith)
                    requires
                        phw < 0x400_0000_0000u128,
                        u == UNITY,
                ;
            }
            Some((2 * u * phw / pw) as i32 - UNITY as i32)
        },
        WaveType::Square { duty } => {
            let d = if duty <= UNITY { duty as u128 } else { u };
            proof {
                assert(phw * u <= u128::MAX && d * pw <= u128::MAX) by (nonlinear_arith)
                    requires
                        phw < 0x400_0000_0000u128,
                        pw < 0x400_0000_0000u128,
                        u == UNITY,
                        d <= u,
                ;
            }
            if phw * u < d * pw {
                Some(UNITY as i32)
            } else {
                Some(-(UNITY as i32))
            }
        },
        WaveType::Triangle => {
            proof {
                assert(4 * u * phw <= u128::MAX && 2 * u * pw <= u128::MAX) by (nonlinear_arith)
                    requires
                        phw < 0x400_0000_0000u128,
                        pw < 0x400_0000_0000u128,
                        u == UNITY,
                ;
            }
            let x = 4 * u * phw;
            let y = 2 * u * pw;
            let dist = if x >= y { x - y } else { y - x };
            Some(UNITY as i32 - (dist / pw) as i32)
        },
    }
}

/// A single-voice oscillator.
pub struct Oscillator {
    sample_rate: u32,
    frequency: u32,
    wave_type: WaveType,
    phase: u64,
}

impl View for Oscillator {
    type V = OscillatorView;

    closed spec fn view(&self) -> OscillatorView {
        OscillatorView {
            sample_rate: self.sample_rate as int,
            frequency: self.frequency as int,
            wave_type: self.wave_type,
            phase: self.phase as int,
        }
    }
}

impl Oscillator {
    pub open spec fn wf(&self) -> bool {
        self@.wf()
    }

    /// A silent sine oscillator at phase zero.
    pub fn new(sample_rate: u32) -> (r: Oscillator)
        requires
            sample_rate > 0,
        ensures
            r.wf(),
            r@ == (OscillatorView {
                sample_rate: sample_rate as int,
                frequency: 0,
                wave_type: WaveType::Sine,
                phase: 0,
            }),
    {
        Oscillator { sample_rate, frequency: 0, wave_type: WaveType::Sine, phase: 0 }
    }

    /// The frequency, in millihertz.
    pub fn frequency(&self) -> (r: u32)
        ensures
            r == self@.frequency,
    {
        self.frequency
    }

    /// Sets the frequency, in millihertz.
    pub fn set_frequency(&mut self, frequency: u32)
        ensures
            final(self)@ == (OscillatorView { frequency: frequency as int, ..old(self)@ }),
    {
        self.frequency = frequency;
    }

    pub fn wave_type(&self) -> (r: WaveType)
        ensures
            r == self@.wave_type,
    {
        self.wave_type
    }

    pub fn set_wave_type(&mut self, wave_type: WaveType)
        ensures
            final(self)@ == (OscillatorView { wave_type, ..old(self)@ }),
    {
        self.wave_type = wave_type;
    }

    /// The current phase: the next sample is taken at `phase / period` of a
    /// cycle.
    pub fn phase(&self) -> (r: u64)
        ensures
            r == self@.phase,
    {
        self.phase
    }

    /// The length of one period in phase units: `sample_rate * 1000`.
    pub fn period(&self) -> (r: u64)
        requires
            self.wf(),
        ensures
            r == period_of(self@.sample_rate),
    {
        self.sample_rate as u64 * MILLIHERTZ_PER_HERTZ
    }

    /// Advances the phase by one sample.
    fn step_phase(&mut self)
        requires
            old(self).wf(),
        ensures
            final(self).wf(),
            final(self)@ == old(self)@.next(),
    {
        let period = self.period();
        self.phase = (self.phase + self.frequency as u64) % period;
    }

    /// Advances one sample of a sine wave and returns the phase the sample is
    /// taken at; its value, `sin(2π · phase / period)`, is the caller's.
    pub fn sine(&mut self) -> (r: u64)
        requires
            old(self).wf(),
        ensures
            final(self).wf(),
            final(self)@ == old(self)@.next(),
            r == old(self)@.phase,
    {
        let at = self.phase;
        self.step_phase();
        at
    }

    /// One sample of the parabolic sine approximation, then one phase step.
    pub fn fake_sine(&mut self) -> (r: i32)
        requires
            old(self).wf(),
        ensures
            final(self).wf(),
            final(self)@ == old(self)@.next(),
            r as int == wave_value(
                WaveType::FakeSine,
                old(self)@.phase,
                period_of(old(self)@.sample_rate),
            ).unwrap(),
            -(UNITY as int) <= r <= UNITY as int,
    {
        self.shaped(WaveType::FakeSine)
    }

    /// One sample of a sawtooth wave, then one phase step.
    pub fn sawtooth(&mut self) -> (r: i32)
        requires
            old(self).wf(),
        ensures
            final(self).wf(),
            final(self)@ == old(self)@.next(),
            r as int == wave_value(
                WaveType::Sawtooth,
                old(self)@.phase,
                period_of(old(self)@.sample_rate),
            ).unwrap(),
            -(UNITY as int) <= r <= UNITY as int,
    {
        self.shaped(WaveType::Sawtooth)
    }

    /// One sample of a square wave of duty cycle `duty / UNITY` (clamped to
    /// `[0, 1]`), then one phase step.
    pub fn square(&mut self, duty: u32) -> (r: i32)
        requires
            old(self).wf(),
        ensures
            final(self).wf(),
            final(self)@ == old(self)@.next(),
            r as int == wave_value(
                WaveType::Square { duty },
                old(self)@.phase,
                period_of(old(self)@.sample_rate),
            ).unwrap(),
            -(UNITY as int) <= r <= UNITY as int,
    {
        self.shaped(WaveType::Square { duty })
    }

    /// One sample of a triangle wave, then one phase step.
    pub fn triangle(&mut self) -> (r: i32)
        requires
            old(self).wf(),
        ensures
            final(self).wf(),
            final(self)@ == old(self)@.next(),
            r as int == wave_value(
                WaveType::Triangle,
                old(self)@.phase,
                period_of(old(self)@.sample_rate),
            ).unwrap(),
            -(UNITY as int) <= r <= UNITY as int,
    {
        self.shaped(WaveType::Triangle)
    }

    fn shaped(&mut self, w: WaveType) -> (r: i32)
        requires
            old(self).wf(),
            w != WaveType::Sine,
        ensures
            final(self).wf(),
            final(self)@ == old(self)@.next(),
            r as int == wave_value(w, old(self)@.phase, period_of(old(self)@.sample_rate)).unwrap(),
            -(UNITY as int) <= r <= UNITY as int,
    {
        let period = self.period();
        let value = wave_sample(w, self.phase, period);
        self.step_phase();
        match value {
            Some(v) => v,
            None => 0,
        }
    }

    /// Produces the next sample and advances the phase by one sample.
    ///
    /// At frequency zero the result is silence and the phase stays. Otherwise
    /// the result is the wave's value at the phase before the step; for the
    /// sine it is `None`, and the caller evaluates `sin` at that phase.
    pub fn run(&mut self) -> (r: Option<i32>)
        requires
            old(self).wf(),
        ensures
            final(self).wf(),
            old(self)@.frequency == 0 ==> r == Some(0i32) && final(self)@ == old(self)@,
            old(self)@.frequency > 0 ==> final(self)@ == old(self)@.next(),
            old(self)@.frequency > 0 ==> r.is_some() == wave_value(
                old(self)@.wave_type,
                old(self)@.phase,
                period_of(old(self)@.sample_rate),
            ).is_some(),
            old(self)@.frequency > 0 && r.is_some() ==> r.unwrap() as int == wave_value(
                old(self)@.wave_type,
                old(self)@.phase,
                period_of(old(self)@.sample_rate),
            ).unwrap(),
            r.is_some() ==> -(UNITY as int) <= r.unwrap() <= UNITY as int,
    {
        if self.frequency == 0 {
            return Some(0);
        }
        let period = self.period();
        let value = wave_sample(self.wave_type, self.phase, period);
        self.phase = (self.phase + self.frequency as u64) % period;
        value
    }
}

} // verus!
