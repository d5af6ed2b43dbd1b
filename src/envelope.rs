//! An attack/decay/release envelope driven one sample at a time.
use vstd::prelude::*;
use vstd::arithmetic::div_mod::{lemma_div_is_ordered, lemma_fundamental_div_mod, lemma_mod_bound, lemma_div_by_multiple};

use crate::UNITY;

verus! {

/// Gain at the start of the attack segment.
pub const ATTACK_START: u32 = 0;
/// Gain at the end of the attack segment.
pub const ATTACK_END: u32 = UNITY;
/// Gain at the start of the decay segment.
pub const DECAY_START: u32 = UNITY;
/// Gain at the end of the decay segment (0.8).
pub const DECAY_END: u32 = 800_000;
/// Gain at the start of the release segment (0.8).
pub const RELEASE_START: u32 = 800_000;
/// Gain at the end of the release segment.
pub const RELEASE_END: u32 = 0;

/// The stage an envelope is in.
#[derive(Clone, Copy, Debug, PartialEq, Eq, Structural)]
pub enum EnvelopeState {
    Idle,
    Attack,
    Decay,
    Sustain,
    Release,
}

impl EnvelopeState {
    /// The stage's name.
    pub fn to_string(&self) -> (r: String)
        ensures
            *self == EnvelopeState::Idle ==> r@ == "Idle"@,
            *self == EnvelopeState::Attack ==> r@ == "Attack"@,
            *self == EnvelopeState::Decay ==> r@ == "Decay"@,
            *self == EnvelopeState::Sustain ==> r@ == "Sustain"@,
            *self == EnvelopeState::Release ==> r@ == "Release"@,
    {
        match self {
            EnvelopeState::Idle => "Idle".to_owned(),
            EnvelopeState::Attack => "Attack".to_owned(),
            EnvelopeState::Decay => "Decay".to_owned(),
            EnvelopeState::Sustain => "Sustain".to_owned(),
            EnvelopeState::Release => "Release".to_owned(),
        }
    }
}

/// Linear interpolation from `v0` to `v1` at position `t / d`, rounded
/// towards `v0`.
pub open spec fn spec_lerp(v0: int, v1: int, t: int, d: int) -> int {
    if v0 <= v1 {
        v0 + (v1 - v0) * t / d
    } else {
        v0 - (v0 - v1) * t / d
    }
}

proof fn lemma_scaled_fraction(a: int, t: int, d: int)
    requires
        0 <= a,
        0 <= t <= d,
        0 < d,
    ensures
        0 <= a * t / d <= a,
{
    assert(0 <= a * t <= a * d) by (nonlinear_arith)
        requires
            0 <= a,
            0 <= t <= d,
    ;
    lemma_div_is_ordered(0, a * t, d);
    lemma_div_is_ordered(a * t, a * d, d);
    lemma_div_by_multiple(a, d);
}

proof fn lemma_product_fits(a: int, b: int)
    requires
        0 <= a <= u32::MAX,
        0 <= b <= u64::MAX,
    ensures
        a * b <= u128::MAX,
{
    assert(a * b <= u32::MAX * u64::MAX) by (nonlinear_arith)
        requires
            0 <= a <= u32::MAX,
            0 <= b <= u64::MAX,
    ;
}

/// Interpolates between two gains, `t` samples into a segment of `d`.
fn lerp(v0: u32, v1: u32, t: u64, d: u64) -> (r: u32)
    requires
        0 < d,
        t <= d,
    ensures
        r == spec_lerp(v0 as int, v1 as int, t as int, d as int),
        v0 <= v1 ==> v0 <= r <= v1,
        v1 < v0 ==> v1 <= r <= v0,
{
    if v0 <= v1 {
        let diff = (v1 - v0) as u128;
        proof {
            lemma_scaled_fraction(diff as int, t as int, d as int);
            lemma_product_fits(diff as int, t as int);
        }
        let q = diff * (t as u128) / (d as u128);
        v0 + q as u32
    } else {
        let diff = (v0 - v1) as u128;
        proof {
            lemma_scaled_fraction(diff as int, t as int, d as int);
            lemma_product_fits(diff as int, t as int);
        }
        let q = diff * (t as u128) / (d as u128);
        v0 - q as u32
    }
}

/// The position within a segment of `d` samples that rising gains `v0..v1`
/// reach at `current`: the inverse of [`spec_lerp`], rounded down.
pub open spec fn spec_reverse_volume(v0: int, v1: int, current: int, d: int) -> int {
    (current - v0) * d / (v1 - v0)
}

fn reverse_volume(v0: u32, v1: u32, current: u32, d: u64) -> (r: u64)
    requires
        v0 < v1,
        v0 <= current <= v1,
    ensures
        r == spec_reverse_volume(v0 as int, v1 as int, current as int, d as int),
        r <= d,
{
    proof {
        lemma_scaled_fraction(d as int, (current - v0) as int, (v1 - v0) as int);
        assert((current - v0) * d == d * (current - v0)) by (nonlinear_arith);
        lemma_product_fits((current - v0) as int, d as int);
    }
    let num = ((current - v0) as u128) * (d as u128);
    (num / ((v1 - v0) as u128)) as u64
}

/// An envelope as plain numbers: its stage, current gain, the sample count
/// within the stage and the three segment lengths in samples.
pub ghost struct EnvelopeView {
    pub state: EnvelopeState,
    pub volume: int,
    pub tick: int,
    pub attack: int,
    pub decay: int,
    pub release: int,
}

impl EnvelopeView {
    /// The gain stays within the active segment's range, the sample count
    /// within the segment, and an idle envelope is silent.
    pub open spec fn wf(self) -> bool {
        &&& 0 < self.attack < u64::MAX
        &&& 0 < self.decay < u64::MAX
        &&& 0 < self.release < u64::MAX
        &&& 0 <= self.tick
        &&& 0 <= self.volume <= UNITY
        &&& match self.state {
            EnvelopeState::Idle => self.volume == 0 && self.tick <= self.release,
            EnvelopeState::Attack => self.tick <= self.attack,
            EnvelopeState::Decay => self.tick < self.decay && DECAY_END <= self.volume,
            EnvelopeState::Sustain => false,
            EnvelopeState::Release => self.tick < self.release && self.volume <= RELEASE_START,
        }
    }

    pub open spec fn with_stage(self, state: EnvelopeState, volume: int, tick: int) -> EnvelopeView {
        EnvelopeView {
            state,
            volume,
            tick,
            attack: self.attack,
            decay: self.decay,
            release: self.release,
        }
    }

    /// The envelope after a key press: it enters the attack segment at the
    /// point whose gain is the current one.
    pub open spec fn pressed(self) -> EnvelopeView {
        let tick = match self.state {
            EnvelopeState::Idle => 0,
            EnvelopeState::Decay | EnvelopeState::Release => spec_reverse_volume(
                ATTACK_START as int,
                ATTACK_END as int,
                self.volume,
                self.attack,
            ),
            _ => self.tick,
        };
        self.with_stage(EnvelopeState::Attack, self.volume, tick)
    }

    /// The envelope one sample later.
    pub open spec fn next(self) -> EnvelopeView {
        let t = self.tick + 1;
        match self.state {
            EnvelopeState::Attack => {
                let at = if t < self.attack { t } else { self.attack };
                let v = spec_lerp(ATTACK_START as int, ATTACK_END as int, at, self.attack);
                if t >= self.attack {
                    self.with_stage(EnvelopeState::Decay, v, 0)
                } else {
                    self.with_stage(EnvelopeState::Attack, v, t)
                }
            },
            EnvelopeState::Decay => {
                let v = spec_lerp(DECAY_START as int, DECAY_END as int, t, self.decay);
                if t >= self.decay {
                    self.with_stage(EnvelopeState::Release, v, 0)
                } else {
                    self.with_stage(EnvelopeState::Decay, v, t)
                }
            },
            EnvelopeState::Release => {
                let v = spec_lerp(RELEASE_START as int, RELEASE_END as int, t, self.release);
                if t >= self.release {
                    self.with_stage(EnvelopeState::Idle, v, t)
                } else {
                    self.with_stage(EnvelopeState::Release, v, t)
                }
            },
            _ => self,
        }
    }

    /// The envelope `n` samples later, with no key event in between.
    pub open spec fn advanced(self, n: nat) -> EnvelopeView
        decreases n,
    {
        if n == 0 {
            self
        } else {
            self.next().advanced((n - 1) as nat)
        }
    }
}

/// One sample keeps the envelope well formed.
pub proof fn lemma_next_wf(v: EnvelopeView)
    requires
        v.wf(),
    ensures
        v.next().wf(),
{
    let t = v.tick + 1;
    match v.state {
        EnvelopeState::Attack => {
            let at = if t < v.attack { t } else { v.attack };
            lemma_scaled_fraction(UNITY as int, at, v.attack);
            lemma_div_by_multiple(UNITY as int, v.attack);
        },
        EnvelopeState::Decay => {
            lemma_scaled_fraction(DECAY_START - DECAY_END, t, v.decay);
            lemma_div_by_multiple(DECAY_START - DECAY_END, v.decay);
        },
        EnvelopeState::Release => {
            lemma_scaled_fraction(RELEASE_START as int, t, v.release);
            lemma_div_by_multiple(RELEASE_START as int, v.release);
        },
        _ => {},
    }
}

/// A key press keeps the envelope well formed and leaves its gain alone.
pub proof fn lemma_pressed_wf(v: EnvelopeView)
    requires
        v.wf(),
    ensures
        v.pressed().wf(),
        v.pressed().volume == v.volume,
{
    lemma_scaled_fraction(v.attack, v.volume, UNITY as int);
    assert(v.volume * v.attack == v.attack * v.volume) by (nonlinear_arith);
}

impl EnvelopeView {
    /// Samples until the active segment ends.
    pub open spec fn steps_left(self) -> int {
        match self.state {
            EnvelopeState::Attack => if self.tick < self.attack {
                self.attack - self.tick
            } else {
                1
            },
            EnvelopeState::Decay => self.decay - self.tick,
            EnvelopeState::Release => self.release - self.tick,
            _ => 0,
        }
    }
}

proof fn lemma_advanced_split(v: EnvelopeView, a: nat, b: nat)
    ensures
        v.advanced(a + b) == v.advanced(a).advanced(b),
    decreases a,
{
    if a > 0 {
        lemma_advanced_split(v.next(), (a - 1) as nat, b);
        assert((a + b - 1) as nat == (a - 1) as nat + b);
    }
}

proof fn lemma_idle_stays(v: EnvelopeView, n: nat)
    requires
        v.state == EnvelopeState::Idle,
    ensures
        v.advanced(n) == v,
    decreases n,
{
    if n > 0 {
        lemma_idle_stays(v.next(), (n - 1) as nat);
    }
}

/// Any number of samples keeps the envelope well formed: its gain stays
/// within `[0, UNITY]` and it is silent whenever it is idle.
pub proof fn lemma_advanced_wf(v: EnvelopeView, n: nat)
    requires
        v.wf(),
    ensures
        v.advanced(n).wf(),
        0 <= v.advanced(n).volume <= UNITY,
        v.advanced(n).state == EnvelopeState::Idle ==> v.advanced(n).volume == 0,
    decreases n,
{
    if n > 0 {
        lemma_next_wf(v);
        lemma_advanced_wf(v.next(), (n - 1) as nat);
    }
}

proof fn lemma_segment_runs_out(v: EnvelopeView)
    requires
        v.wf(),
        v.state == EnvelopeState::Attack || v.state == EnvelopeState::Decay || v.state
            == EnvelopeState::Release,
    ensures
        v.steps_left() >= 1,
        v.advanced(v.steps_left() as nat).wf(),
        v.advanced(v.steps_left() as nat).attack == v.attack,
        v.advanced(v.steps_left() as nat).decay == v.decay,
        v.advanced(v.steps_left() as nat).release == v.release,
        v.state == EnvelopeState::Attack ==> v.advanced(v.steps_left() as nat).state
            == EnvelopeState::Decay && v.advanced(v.steps_left() as nat).tick == 0,
        v.state == EnvelopeState::Decay ==> v.advanced(v.steps_left() as nat).state
            == EnvelopeState::Release && v.advanced(v.steps_left() as nat).tick == 0,
        v.state == EnvelopeState::Release ==> v.advanced(v.steps_left() as nat).state
            == EnvelopeState::Idle,
    decreases v.steps_left(),
{
    lemma_next_wf(v);
    let k = v.steps_left();
    if k == 1 {
        assert(v.advanced(1) == v.next().advanced(0));
    } else {
        lemma_segment_runs_out(v.next());
        assert(v.advanced(k as nat) == v.next().advanced((k - 1) as nat));
    }
}

/// A key press in any state is followed, within attack + decay + release
/// samples without further input, by a return to Idle.
pub proof fn lemma_press_returns_to_idle(v: EnvelopeView)
    requires
        v.wf(),
    ensures
        v.pressed().advanced((v.attack + v.decay + v.release) as nat).state
            == EnvelopeState::Idle,
{
    lemma_pressed_wf(v);
    let p = v.pressed();
    lemma_segment_runs_out(p);
    let a = p.steps_left() as nat;
    let d0 = p.advanced(a);
    lemma_segment_runs_out(d0);
    let r0 = d0.advanced(v.decay as nat);
    lemma_segment_runs_out(r0);
    let i0 = r0.advanced(v.release as nat);
    let rest = (v.attack + v.decay + v.release - a - v.decay - v.release) as nat;
    lemma_idle_stays(i0, rest);
    lemma_advanced_split(r0, v.release as nat, rest);
    lemma_advanced_split(d0, v.decay as nat, (v.release + rest) as nat);
    lemma_advanced_split(p, a, (v.decay + v.release + rest) as nat);
    assert((v.attack + v.decay + v.release) as nat == a + (v.decay + v.release + rest) as nat);
}

/// Pressing while decaying or releasing does not make the gain jump: the
/// press keeps it, and the next sample raises it by at most one attack step.
pub proof fn lemma_retrigger_is_continuous(v: EnvelopeView)
    requires
        v.wf(),
        v.state == EnvelopeState::Decay || v.state == EnvelopeState::Release,
    ensures
        v.pressed().volume == v.volume,
        v.volume <= v.pressed().next().volume <= v.volume + UNITY as int / v.attack,
{
    lemma_pressed_wf(v);
    let u = UNITY as int;
    let a = v.attack;
    let x = v.volume;
    let t = v.pressed().tick;
    assert(t == (x * a) / u);
    lemma_fundamental_div_mod(x * a, u);
    lemma_mod_bound(x * a, u);
    let q = u / a;
    lemma_fundamental_div_mod(u, a);
    lemma_mod_bound(u, a);
    if t < a {
        let w = v.pressed().next().volume;
        assert(w == u * (t + 1) / a);
        lemma_fundamental_div_mod(u * (t + 1), a);
        lemma_mod_bound(u * (t + 1), a);
        assert(u * t <= x * a < u * t + u);
        assert(a * q <= u < a * q + a);
        assert(a * w <= u * (t + 1) < a * w + a);
        assert(x <= w) by (nonlinear_arith)
            requires
                0 < a,
                x * a < u * t + u,
                u * (t + 1) < a * w + a,
        ;
        assert(w <= x + q) by (nonlinear_arith)
            requires
                0 < a,
                u * t <= x * a,
                u < a * q + a,
                a * w <= u * (t + 1),
        ;
    } else {
        assert(x * a >= u * a) by (nonlinear_arith)
            requires
                u * t <= x * a,
                t >= a,
                a > 0,
                u > 0,
        ;
        assert(x >= u) by (nonlinear_arith)
            requires
                x * a >= u * a,
                a > 0,
        ;
        lemma_div_by_multiple(u, a);
        assert(0 <= q) by (nonlinear_arith)
            requires
                u >= 0,
                a > 0,
                q == u / a,
        ;
    }
}

/// An ADSR envelope, advanced one sample at a time.
pub struct Envelope {
    state: EnvelopeState,
    volume: u32,
    tick: u64,
    attack_duration: u64,
    decay_duration: u64,
    release_duration: u64,
}

impl View for Envelope {
    type V = EnvelopeView;

    closed spec fn view(&self) -> EnvelopeView {
        EnvelopeView {
            state: self.state,
            volume: self.volume as int,
            tick: self.tick as int,
            attack: self.attack_duration as int,
            decay: self.decay_duration as int,
            release: self.release_duration as int,
        }
    }
}

impl Envelope {
    pub open spec fn wf(&self) -> bool {
        self@.wf()
    }

    /// An idle envelope whose attack and decay last one second and whose
    /// release lasts two, counted in interleaved samples of `channel_count`
    /// channels.
    pub fn new(sample_rate: u32, channel_count: u16) -> (r: Envelope)
        requires
            sample_rate > 0,
            channel_count > 0,
        ensures
            r.wf(),
            r@ == (EnvelopeView {
                state: EnvelopeState::Idle,
                volume: 0,
                tick: 0,
                attack: sample_rate as int * channel_count as int,
                decay: sample_rate as int * channel_count as int,
                release: 2 * (sample_rate as int * channel_count as int),
            }),
    {
        proof {
            assert(sample_rate * channel_count <= u32::MAX * u16::MAX) by (nonlinear_arith)
                requires
                    sample_rate <= u32::MAX,
                    channel_count <= u16::MAX,
            ;
            assert(sample_rate * channel_count >= 1) by (nonlinear_arith)
                requires
                    sample_rate >= 1,
                    channel_count >= 1,
            ;
        }
        let samples_per_second = sample_rate as u64 * channel_count as u64;
        Envelope::with_durations(samples_per_second, samples_per_second, 2 * samples_per_second)
    }

    /// An idle envelope with the given segment lengths, in samples.
    pub fn with_durations(attack: u64, decay: u64, release: u64) -> (r: Envelope)
        requires
            0 < attack < u64::MAX,
            0 < decay < u64::MAX,
            0 < release < u64::MAX,
        ensures
            r.wf(),
            r@ == (EnvelopeView {
                state: EnvelopeState::Idle,
                volume: 0,
                tick: 0,
                attack: attack as int,
                decay: decay as int,
                release: release as int,
            }),
    {
        Envelope {
            state: EnvelopeState::Idle,
            volume: 0,
            tick: 0,
            attack_duration: attack,
            decay_duration: decay,
            release_duration: release,
        }
    }

    /// Starts (or restarts) the attack segment. Pressed while decaying or
    /// releasing, the attack resumes from the current gain.
    pub fn press(&mut self)
        requires
            old(self).wf(),
        ensures
            final(self).wf(),
            final(self)@ == old(self)@.pressed(),
    {
        proof {
            lemma_pressed_wf(self@);
        }
        match self.state {
            EnvelopeState::Idle => {
                self.tick = 0;
            },
            EnvelopeState::Decay | EnvelopeState::Release => {
                self.tick = reverse_volume(ATTACK_START, ATTACK_END, self.volume, self.attack_duration);
            },
            _ => {},
        }
        self.state = EnvelopeState::Attack;
    }

    /// A key release. Release is entered only when the decay segment ends, so
    /// this leaves the envelope as it is.
    pub fn release(&mut self)
        ensures
            final(self)@ == old(self)@,
    {
    }

    /// Advances the envelope by one sample and returns its new gain.
    pub fn update(&mut self) -> (r: u32)
        requires
            old(self).wf(),
        ensures
            final(self).wf(),
            final(self)@ == old(self)@.next(),
            r == final(self)@.volume,
    {
        proof {
            lemma_next_wf(self@);
        }
        match self.state {
            EnvelopeState::Attack => {
                let t = self.tick + 1;
                let at = if t < self.attack_duration { t } else { self.attack_duration };
                self.volume = lerp(ATTACK_START, ATTACK_END, at, self.attack_duration);
                if t >= self.attack_duration {
                    self.tick = 0;
                    self.state = EnvelopeState::Decay;
                } else {
                    self.tick = t;
                }
            },
            EnvelopeState::Decay => {
                let t = self.tick + 1;
                self.volume = lerp(DECAY_START, DECAY_END, t, self.decay_duration);
                if t >= self.decay_duration {
                    self.tick = 0;
                    self.state = EnvelopeState::Release;
                } else {
                    self.tick = t;
                }
            },
            EnvelopeState::Release => {
                let t = self.tick + 1;
                self.volume = lerp(RELEASE_START, RELEASE_END, t, self.release_duration);
                if t >= self.release_duration {
                    self.state = EnvelopeState::Idle;
                }
                self.tick = t;
            },
            _ => {},
        }
        self.volume
    }

    /// The current stage.
    pub fn state(&self) -> (r: EnvelopeState)
        ensures
            r == self@.state,
    {
        self.state
    }

    /// The current gain.
    pub fn volume(&self) -> (r: u32)
        ensures
            r == self@.volume,
    {
        self.volume
    }
}

} // verus!
