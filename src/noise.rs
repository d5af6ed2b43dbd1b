//! Noise sources over the thread-local random generator.
use vstd::prelude::*;
use rand::rngs::ThreadRng;
use rand::Rng;

use crate::UNITY;

verus! {

#[verifier::external_type_specification]
#[verifier::external_body]
pub struct ExThreadRng(ThreadRng);

/// Relies on rand::rng: a handle to the thread-local generator. Nothing is
/// promised of what it will draw.
pub assume_specification[ rand::rng ]() -> ThreadRng;

/// Relies on rand::Rng::random_range: a value drawn from the inclusive
/// range `lo ..= hi`; the range must not be empty, or the call panics.
#[verifier::external_body]
fn random_in(rng: &mut ThreadRng, lo: i32, hi: i32) -> (r: i32)
    requires
        lo <= hi,
    ensures
        lo <= r <= hi,
{
    rng.random_range(lo..=hi)
}

/// A source of uniformly distributed noise.
pub struct Noise {
    rand_gen: ThreadRng,
}

impl Noise {
    pub fn new() -> (r: Noise) {
        Noise { rand_gen: rand::rng() }
    }

    /// One sample of uniform noise in `[-UNITY, UNITY]`.
    pub fn rand_noise(&mut self) -> (r: i32)
        ensures
            -(UNITY as int) <= r <= UNITY as int,
    {
        random_in(&mut self.rand_gen, -(UNITY as i32), UNITY as i32)
    }
}

/// Which noise a generator adds.
#[derive(Clone, Copy, Debug, PartialEq, Eq, Structural)]
pub enum NoiseType {
    Silent,
    /// Uniform noise.
    Random,
    /// Gaussian (white) noise, drawn by the caller.
    White,
}

impl NoiseType {
    /// The noise with the given code: 0 silent, 1 uniform, 2 Gaussian; `None`
    /// for an unknown code.
    pub fn from_u8(value: u8) -> (r: Option<NoiseType>)
        ensures
            value == 0 <==> r == Some(NoiseType::Silent),
            value == 1 <==> r == Some(NoiseType::Random),
            value == 2 <==> r == Some(NoiseType::White),
            value > 2 <==> r.is_none(),
    {
        match value {
            0 => Some(NoiseType::Silent),
            1 => Some(NoiseType::Random),
            2 => Some(NoiseType::White),
            _ => None,
        }
    }
}

/// A noise voice whose kind can be switched between samples.
pub struct NoiseGenerator {
    noise: Noise,
    pub noise_type: NoiseType,
}

impl NoiseGenerator {
    /// The noise kind.
    pub closed spec fn kind(&self) -> NoiseType {
        self.noise_type
    }

    /// A silent generator.
    pub fn new() -> (r: NoiseGenerator)
        ensures
            r.kind() == NoiseType::Silent,
    {
        NoiseGenerator { noise: Noise::new(), noise_type: NoiseType::Silent }
    }

    /// The next noise sample: silence for `Silent`, a uniform sample in
    /// `[-UNITY, UNITY]` for `Random`, and `None` for `White`, whose Gaussian
    /// sample the caller draws.
    pub fn run(&mut self) -> (r: Option<i32>)
        ensures
            final(self).kind() == old(self).kind(),
            old(self).kind() == NoiseType::Silent ==> r == Some(0i32),
            old(self).kind() == NoiseType::Random ==> r.is_some() && -(UNITY as int)
                <= r.unwrap() <= UNITY as int,
            old(self).kind() == NoiseType::White ==> r.is_none(),
    {
        match self.noise_type {
            NoiseType::Silent => Some(0),
            NoiseType::Random => Some(self.noise.rand_noise()),
            NoiseType::White => None,
        }
    }

    /// The noise kind, for changing in place.
    pub fn noise_type_mut(&mut self) -> (r: &mut NoiseType)
        ensures
            *r == old(self).kind(),
            final(self).kind() == *final(r),
    {
        &mut self.noise_type
    }
}

} // verus!
