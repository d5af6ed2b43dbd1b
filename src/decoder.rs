//! Tempo estimation over decoded stereo frames.
//!
//! Energies are sums of squared raw sample values. A block is a beat when
//! `e > 5.5 · ē`, with `ē` the second's energy `E` scaled to one block of
//! 1024 frames; the comparison is made exactly as
//! `2 · 44100 · e > 11 · 1024 · E`.
use vstd::prelude::*;
use vstd::arithmetic::div_mod::{lemma_fundamental_div_mod, lemma_mod_bound};

verus! {

/// Frames in one second of audio; the frames are taken to be at 44.1 kHz.
pub const FRAMES_PER_SECOND: usize = 44100;
/// Frames in one block whose energy is compared with its second's.
pub const BLOCK_FRAMES: usize = 1024;
/// Whole blocks examined in each second.
pub const BLOCKS_PER_SECOND: usize = 43;

pub open spec fn frame_energy(f: [i16; 2]) -> int {
    f[0] * f[0] + f[1] * f[1]
}

/// The energy of frames `lo .. hi`.
pub open spec fn energy(s: Seq<[i16; 2]>, lo: int, hi: int) -> int
    decreases hi - lo,
{
    if hi <= lo {
        0
    } else {
        energy(s, lo, hi - 1) + frame_energy(s[hi - 1])
    }
}

/// Whether block `j` of second `sec` holds a beat: its energy exceeds 5.5
/// times the second's energy per block.
pub open spec fn is_beat(s: Seq<[i16; 2]>, sec: int, j: int) -> bool {
    let start = sec * FRAMES_PER_SECOND;
    let e = energy(s, start + j * BLOCK_FRAMES, start + (j + 1) * BLOCK_FRAMES);
    let total = energy(s, start, start + FRAMES_PER_SECOND);
    2 * FRAMES_PER_SECOND * e > 11 * BLOCK_FRAMES * total
}

/// Beats among the first `j` blocks of second `sec`.
pub open spec fn block_beats(s: Seq<[i16; 2]>, sec: int, j: int) -> int
    decreases j,
{
    if j <= 0 {
        0
    } else {
        block_beats(s, sec, j - 1) + if is_beat(s, sec, j - 1) {
            1int
        } else {
            0int
        }
    }
}

/// Beats in the first `n` seconds.
pub open spec fn beats_before(s: Seq<[i16; 2]>, n: int) -> int
    decreases n,
{
    if n <= 0 {
        0
    } else {
        beats_before(s, n - 1) + block_beats(s, n - 1, BLOCKS_PER_SECOND as int)
    }
}

/// Whole seconds in `len` frames, the count taken as a `u32` first.
pub open spec fn duration_of(len: int) -> int {
    ((len as u32) / (FRAMES_PER_SECOND as u32)) as int
}

proof fn lemma_block_beats_bounded(s: Seq<[i16; 2]>, sec: int, j: int)
    requires
        0 <= j,
    ensures
        0 <= block_beats(s, sec, j) <= j,
    decreases j,
{
    if j > 0 {
        lemma_block_beats_bounded(s, sec, j - 1);
    }
}

proof fn lemma_beats_before_bounded(s: Seq<[i16; 2]>, n: int)
    requires
        0 <= n,
    ensures
        0 <= beats_before(s, n) <= n * BLOCKS_PER_SECOND,
    decreases n,
{
    if n > 0 {
        lemma_beats_before_bounded(s, n - 1);
        lemma_block_beats_bounded(s, n - 1, BLOCKS_PER_SECOND as int);
    }
}

fn whole_seconds(len: usize) -> (r: u32)
    ensures
        r == duration_of(len as int),
{
    len as u32 / FRAMES_PER_SECOND as u32
}

/// Whole seconds of audio in `frames`, at 44.1 kHz.
pub fn get_duration_in_seconds(frames: Vec<[i16; 2]>) -> (r: u32)
    ensures
        r == duration_of(frames.len() as int),
{
    whole_seconds(frames.len())
}

/// The energy of frames `lo .. hi`, at most one second of them.
fn energy_of(frames: &Vec<[i16; 2]>, lo: usize, hi: usize) -> (r: u64)
    requires
        lo <= hi <= frames.len(),
        hi - lo <= FRAMES_PER_SECOND,
    ensures
        r == energy(frames@, lo as int, hi as int),
        r <= (hi - lo) * 0x8000_0000int,
{
    let mut acc: u64 = 0;
    let mut k: usize = lo;
    while k < hi
        invariant
            lo <= k <= hi <= frames.len(),
            hi - lo <= FRAMES_PER_SECOND,
            acc == energy(frames@, lo as int, k as int),
            acc <= (k - lo) * 0x8000_0000,
        decreases hi - k,
    {
        let f = frames[k];
        let l = f[0] as i64;
        let r = f[1] as i64;
        proof {
            assert(0 <= l * l <= 0x4000_0000 && 0 <= r * r <= 0x4000_0000) by (nonlinear_arith)
                requires
                    -0x8000 <= l <= 0x7fff,
                    -0x8000 <= r <= 0x7fff,
            ;
            assert(energy(frames@, lo as int, k + 1) == energy(frames@, lo as int, k as int)
                + frame_energy(frames@[k as int]));
        }
        acc = acc + (l * l + r * r) as u64;
        k = k + 1;
    }
    acc
}

/// Estimates the tempo, in beats per minute, of audio at 44.1 kHz.
///
/// Each whole second is cut into 43 blocks of 1024 frames; a block whose
/// energy exceeds 5.5 times the second's energy per block counts as a beat.
/// The count is scaled from the duration to one minute by whole multiples.
pub fn detect_bpm(frames: Vec<[i16; 2]>) -> (r: u32)
    requires
        duration_of(frames.len() as int) > 0,
    ensures
        r == beats_before(frames@, duration_of(frames.len() as int)) * (60int / duration_of(
            frames.len() as int,
        )),
{
    let duration = whole_seconds(frames.len()) as usize;
    proof {
        let n = (frames.len() as u32) as int;
        lemma_fundamental_div_mod(n, FRAMES_PER_SECOND as int);
        lemma_mod_bound(n, FRAMES_PER_SECOND as int);
        assert(n <= frames.len());
    }
    let mut beats: u32 = 0;
    let mut i: usize = 0;
    while i < duration
        invariant
            duration == duration_of(frames.len() as int),
            0 < duration,
            duration * FRAMES_PER_SECOND <= frames.len(),
            i <= duration,
            beats == beats_before(frames@, i as int),
        decreases duration - i,
    {
        proof {
            lemma_beats_before_bounded(frames@, i as int);
            assert((i + 1) * FRAMES_PER_SECOND <= duration * FRAMES_PER_SECOND) by (nonlinear_arith)
                requires
                    i < duration,
            ;
        }
        let start = i * FRAMES_PER_SECOND;
        let end = (i + 1) * FRAMES_PER_SECOND;
        let total = energy_of(&frames, start, end);
        let mut j: usize = 0;
        let mut second_beats: u32 = 0;
        while j < BLOCKS_PER_SECOND
            invariant
                start == i * FRAMES_PER_SECOND,
                end == start + FRAMES_PER_SECOND,
                end <= frames.len(),
                total == energy(frames@, start as int, end as int),
                total <= FRAMES_PER_SECOND * 0x8000_0000int,
                j <= BLOCKS_PER_SECOND,
                second_beats == block_beats(frames@, i as int, j as int),
            decreases BLOCKS_PER_SECOND - j,
        {
            proof {
                lemma_block_beats_bounded(frames@, i as int, j as int);
            }
            let e = energy_of(&frames, start + j * BLOCK_FRAMES, start + (j + 1) * BLOCK_FRAMES);
            proof {
                assert(11 * BLOCK_FRAMES * total <= u64::MAX && 2 * FRAMES_PER_SECOND * e
                    <= u64::MAX) by (nonlinear_arith)
                    requires
                        total <= FRAMES_PER_SECOND * 0x8000_0000int,
                        e <= BLOCK_FRAMES * 0x8000_0000int,
                ;
            }
            if 2 * FRAMES_PER_SECOND as u64 * e > 11 * BLOCK_FRAMES as u64 * total {
                second_beats = second_beats + 1;
            }
            j = j + 1;
        }
        proof {
            lemma_block_beats_bounded(frames@, i as int, BLOCKS_PER_SECOND as int);
            lemma_beats_before_bounded(frames@, i as int);
            assert(i * BLOCKS_PER_SECOND <= 0x1_0000_0000int) by (nonlinear_arith)
                requires
                    i < duration,
                    duration * FRAMES_PER_SECOND <= u32::MAX,
            ;
            assert(beats_before(frames@, i + 1) == beats + second_beats);
        }
        beats = beats + second_beats;
        i = i + 1;
    }
    proof {
        lemma_beats_before_bounded(frames@, duration as int);
        assert(beats_before(frames@, duration as int) * (60int / duration as int) <= 60 * 43)
            by (nonlinear_arith)
            requires
                0 <= beats_before(frames@, duration as int) <= duration * 43,
                duration > 0,
        ;
    }
    beats * (60 / duration as u32)
}

/// Stereo frames from mono samples, each sample on both channels.
pub fn mono_to_stereo(samples: &Vec<i16>) -> (r: Vec<[i16; 2]>)
    ensures
        r@.len() == samples@.len(),
        forall|i: int| 0 <= i < samples@.len() ==> r@[i] == [samples@[i], samples@[i]],
{
    let mut r: Vec<[i16; 2]> = Vec::new();
    let mut i: usize = 0;
    while i < samples.len()
        invariant
            i <= samples@.len(),
            r@.len() == i,
            forall|k: int| 0 <= k < i ==> r@[k] == [samples@[k], samples@[k]],
        decreases samples@.len() - i,
    {
        r.push([samples[i], samples[i]]);
        i = i + 1;
    }
    r
}

} // verus!
