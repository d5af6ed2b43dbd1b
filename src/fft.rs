//! The recursive radix-2 Cooley–Tukey transform, in fixed point.
//!
//! The input is zero-padded to the next power of two. Two equally sized
//! buffers are swapped through the recursion, so nothing is allocated per
//! level. The twiddle factors come from a table the caller computes.
use vstd::prelude::*;
use vstd::arithmetic::div_mod::{
    lemma_div_by_multiple,
    lemma_div_is_ordered,
    lemma_div_multiples_vanish,
    lemma_mod_add_multiples_vanish,
    lemma_mod_mod,
    lemma_mod_multiples_vanish,
    lemma_small_mod,
};
use vstd::arithmetic::mul::lemma_mul_strict_inequality;

use crate::UNITY;

verus! {

/// A fixed-point complex number: `UNITY` stands for 1.0 in each part.
#[derive(Clone, Copy, Debug, PartialEq, Eq, Structural)]
pub struct Cx {
    pub re: i64,
    pub im: i64,
}

/// `a / UNITY`, rounded towards zero.
pub open spec fn unscale(a: int) -> int {
    if a >= 0 {
        a / (UNITY as int)
    } else {
        -((-a) / (UNITY as int))
    }
}

/// The fixed-point product `w · o`: each partial product is scaled back
/// by `UNITY`.
pub open spec fn times(w: Cx, o: Cx) -> (int, int) {
    (
        unscale(w.re * o.re) - unscale(w.im * o.im),
        unscale(w.re * o.im) + unscale(w.im * o.re),
    )
}

/// The butterfly `(even + w·odd, even − w·odd)` with the twiddle factor
/// `w = tw[k / 2]`, each part wrapped to an `i64`.
pub open spec fn butterfly_spec(even: Cx, odd: Cx, k: nat, tw: Seq<Cx>) -> (Cx, Cx) {
    let t = times(tw[(k / 2) as int], odd);
    (
        Cx { re: (even.re + t.0) as i64, im: (even.im + t.1) as i64 },
        Cx { re: (even.re - t.0) as i64, im: (even.im - t.1) as i64 },
    )
}

fn unscale_exec(a: i128) -> (r: i128)
    requires
        -0x4000_0000_0000_0000_0000_0000_0000_0000 <= a <= 0x4000_0000_0000_0000_0000_0000_0000_0000,
    ensures
        r == unscale(a as int),
        -0x4000_0000_0000_0000_0000_0000_0000 <= r <= 0x4000_0000_0000_0000_0000_0000_0000,
{
    let u = UNITY as i128;
    if a >= 0 {
        proof {
            lemma_div_is_ordered(0, a as int, u as int);
            lemma_div_is_ordered(a as int, 0x4000_0000_0000_0000_0000_0000_0000_0000, u as int);
        }
        a / u
    } else {
        proof {
            lemma_div_is_ordered(0, -a, u as int);
            lemma_div_is_ordered(-a, 0x4000_0000_0000_0000_0000_0000_0000_0000, u as int);
        }
        -((-a) / u)
    }
}

proof fn lemma_product_bound(a: i64, b: i64)
    ensures
        -0x4000_0000_0000_0000_0000_0000_0000_0000 <= a * b <= 0x4000_0000_0000_0000_0000_0000_0000_0000,
{
    assert(-0x4000_0000_0000_0000_0000_0000_0000_0000 <= a * b <= 0x4000_0000_0000_0000_0000_0000_0000_0000)
        by (nonlinear_arith)
        requires
            -0x8000_0000_0000_0000 <= a <= 0x7fff_ffff_ffff_ffff,
            -0x8000_0000_0000_0000 <= b <= 0x7fff_ffff_ffff_ffff,
    ;
}

/// One butterfly with the twiddle factor `tw[k / 2]`.
fn butterfly(even: Cx, odd: Cx, k: usize, tw: &Vec<Cx>) -> (r: (Cx, Cx))
    requires
        k / 2 < tw@.len(),
    ensures
        r == butterfly_spec(even, odd, k as nat, tw@),
{
    let w = tw[k / 2];
    proof {
        lemma_product_bound(w.re, odd.re);
        lemma_product_bound(w.im, odd.im);
        lemma_product_bound(w.re, odd.im);
        lemma_product_bound(w.im, odd.re);
    }
    let tr = unscale_exec(w.re as i128 * odd.re as i128) - unscale_exec(w.im as i128 * odd.im as i128);
    let ti = unscale_exec(w.re as i128 * odd.im as i128) + unscale_exec(w.im as i128 * odd.re as i128);
    let left = Cx {
        re: #[verifier::truncate] ((even.re as i128 + tr) as i64),
        im: #[verifier::truncate] ((even.im as i128 + ti) as i64),
    };
    let right = Cx {
        re: #[verifier::truncate] ((even.re as i128 - tr) as i64),
        im: #[verifier::truncate] ((even.im as i128 - ti) as i64),
    };
    (left, right)
}

/// Whether `n` is a power of two.
pub open spec fn is_pow2(n: nat) -> bool
    decreases n,
{
    if n <= 1 {
        n == 1
    } else {
        n % 2 == 0 && is_pow2(n / 2)
    }
}

/// The smallest power of two that is at least `n`, searched from `p`.
pub open spec fn pow2_from(n: nat, p: nat) -> nat
    decreases (if p < n { n - p } else { 0 }),
{
    if p >= n || p == 0 {
        p
    } else {
        pow2_from(n, 2 * p)
    }
}

/// The length a transform of `n` values works on: the smallest power of two
/// that is at least `n` (1 for an empty input).
pub open spec fn padded_len(n: nat) -> nat {
    pow2_from(n, 1)
}

proof fn lemma_pow2_from(n: nat, p: nat)
    requires
        p >= 1,
        is_pow2(p),
    ensures
        is_pow2(pow2_from(n, p)),
        pow2_from(n, p) >= n,
        pow2_from(n, p) >= p,
        p < n ==> pow2_from(n, p) < 2 * n,
    decreases (if p < n { n - p } else { 0 }),
{
    if p < n {
        assert(is_pow2(2 * p)) by {
            assert((2 * p) / 2 == p);
        }
        lemma_pow2_from(n, 2 * p);
        if 2 * p < n {
        } else {
            assert(pow2_from(n, 2 * p) == 2 * p);
        }
    }
}

/// `x` followed by copies of `z` up to the next power of two in length.
pub open spec fn padded<T>(x: Seq<T>, z: T) -> Seq<T> {
    Seq::new(padded_len(x.len()), |i: int| if i < x.len() { x[i] } else { z })
}

/// Output `k` of the transform of the values of `x` at `off`, `off + step`,
/// `off + 2·step`, ...: a single value is its own transform; otherwise the
/// transforms of the even- and odd-indexed halves are combined by a
/// butterfly, whose first result gives the first half of the output and
/// whose second gives the second half.
pub open spec fn sub_fft(x: Seq<Cx>, tw: Seq<Cx>, step: nat, off: nat, k: nat) -> Cx
    decreases (if step < x.len() { x.len() - step } else { 0 }),
{
    if step == 0 || step >= x.len() {
        x[off as int]
    } else {
        let h = x.len() / (2 * step);
        let kk = k % h;
        let pair = butterfly_of(
            tw,
            step,
            kk,
            sub_fft(x, tw, 2 * step, off, kk),
            sub_fft(x, tw, 2 * step, off + step, kk),
        );
        if k < h {
            pair.0
        } else {
            pair.1
        }
    }
}

/// The butterfly that combines output `j` of the two half transforms at one
/// level of stride `step`.
pub open spec fn butterfly_of(tw: Seq<Cx>, step: nat, j: nat, even: Cx, odd: Cx) -> (Cx, Cx) {
    butterfly_spec(even, odd, j * (2 * step), tw)
}

/// The transform of `input`: output `k` of the recursive radix-2 transform of
/// the input zero-padded to the next power of two.
pub open spec fn fft_spec(input: Seq<Cx>, tw: Seq<Cx>, k: nat) -> Cx {
    sub_fft(padded(input, cx_zero()), tw, 1, 0, k)
}

/// The smallest power of two that is at least `n`, and 1 for 0.
pub fn next_power_of_two(n: usize) -> (r: usize)
    requires
        n <= usize::MAX / 2 + 1,
    ensures
        r == padded_len(n as nat),
        is_pow2(r as nat),
        r >= n,
        r >= 1,
{
    proof {
        lemma_pow2_from(n as nat, 1);
    }
    let mut p: usize = 1;
    while p < n
        invariant
            p >= 1,
            is_pow2(p as nat),
            pow2_from(n as nat, p as nat) == padded_len(n as nat),
            n <= usize::MAX / 2 + 1,
        decreases (if p < n { n - p } else { 0 }),
    {
        proof {
            assert(is_pow2(2 * p as nat)) by {
                assert((2 * p as nat) / 2 == p);
            }
        }
        p = p * 2;
    }
    p
}

/// The input followed by copies of `zero` up to the next power of two in length.
pub fn pad_to_power_of_two<T: Copy>(input: &Vec<T>, zero: T) -> (r: Vec<T>)
    requires
        input@.len() <= usize::MAX / 2 + 1,
    ensures
        r@.len() == padded_len(input@.len()),
        is_pow2(r@.len()),
        r@.subrange(0, input@.len() as int) == input@,
        forall|i: int| input@.len() <= i < r@.len() ==> r@[i] == zero,
        r@ == padded(input@, zero),
{
    let n = next_power_of_two(input.len());
    let mut r: Vec<T> = Vec::new();
    let mut i: usize = 0;
    while i < input.len()
        invariant
            i <= input@.len(),
            r@ == input@.subrange(0, i as int),
        decreases input@.len() - i,
    {
        r.push(input[i]);
        i = i + 1;
        proof {
            assert(input@.subrange(0, i as int) == input@.subrange(0, i - 1).push(input@[i - 1]));
        }
    }
    while i < n
        invariant
            input@.len() <= i <= n,
            r@.len() == i,
            r@.subrange(0, input@.len() as int) == input@,
            forall|k: int| input@.len() <= k < i ==> r@[k] == zero,
        decreases n - i,
    {
        r.push(zero);
        i = i + 1;
        proof {
            assert(r@.subrange(0, input@.len() as int) == r@.subrange(0, i - 1).subrange(
                0,
                input@.len() as int,
            ));
        }
    }
    proof {
        assert forall|k: int| 0 <= k < input@.len() implies r@[k] == input@[k] by {
            assert(r@.subrange(0, input@.len() as int)[k] == r@[k]);
        }
        assert(r@ =~= padded(input@, zero));
    }
    r
}

proof fn lemma_halve_pow2(step: nat, q: nat, n: nat)
    requires
        step * q == n,
        is_pow2(q),
        step >= 1,
        step < n,
    ensures
        q >= 2,
        q % 2 == 0,
        is_pow2(q / 2),
        (2 * step) * (q / 2) == n,
        2 * step <= n,
{
    if q <= 1 {
        assert(step * q <= step) by (nonlinear_arith)
            requires
                q <= 1,
                step >= 1,
        ;
    }
    assert((2 * step) * (q / 2) == step * q) by (nonlinear_arith)
        requires
            q % 2 == 0,
    ;
    assert(2 * step <= (2 * step) * (q / 2)) by (nonlinear_arith)
        requires
            q >= 2,
            q % 2 == 0,
    ;
}

proof fn lemma_residue_of_half(p: int, step: int)
    requires
        0 <= p,
        0 < step,
    ensures
        (p % (2 * step)) % step == p % step,
{
    lemma_mod_mod(p, step, 2);
    assert(step * 2 == 2 * step);
}

proof fn lemma_strided_residue(off: int, k: int, s: int)
    requires
        0 <= off < s,
        0 <= k,
    ensures
        (off + k * s) % s == off,
        off + k * s >= 0,
{
    lemma_mod_multiples_vanish(k, off, s);
    lemma_small_mod(off as nat, s as nat);
    assert(s * k == k * s) by (nonlinear_arith);
    assert(k * s >= 0) by (nonlinear_arith)
        requires
            0 <= k,
            0 < s,
    ;
}

/// One level of the transform of the `q = n / step` values at `off`,
/// `off + step`, `off + 2·step`, ...: the even- and odd-indexed halves are
/// transformed into `b` (with `a` as scratch), then combined from `b` into
/// `a`, whose positions `off + k·step` end up holding the outputs. Positions
/// of another residue modulo `step` are left alone in both buffers.
fn fft_inner(
    a: &mut Vec<Cx>,
    b: &mut Vec<Cx>,
    tw: &Vec<Cx>,
    n: usize,
    step: usize,
    off: usize,
    Ghost(q): Ghost<nat>,
    Ghost(x): Ghost<Seq<Cx>>,
)
    requires
        old(a)@.len() == n,
        old(b)@.len() == n,
        x.len() == n,
        step >= 1,
        step * q == n,
        is_pow2(q),
        off < step,
        tw@.len() >= n / 2,
        forall|p: int|
            0 <= p < n && p % (step as int) == off ==> #[trigger] old(a)@[p] == x[p],
        forall|p: int|
            0 <= p < n && p % (step as int) == off ==> #[trigger] old(b)@[p] == x[p],
    ensures
        final(a)@.len() == n,
        final(b)@.len() == n,
        forall|k: int|
            0 <= k < q ==> final(a)@[off + k * step] == #[trigger] sub_fft(x, tw@,
                step as nat,
                off as nat,
                k as nat,
            ),
        forall|p: int|
            0 <= p < n && p % (step as int) != off ==> #[trigger] final(a)@[p] == old(a)@[p],
        forall|p: int|
            0 <= p < n && p % (step as int) != off ==> #[trigger] final(b)@[p] == old(b)@[p],
    decreases q,
{
    if step >= n {
        proof {
            if q != 1 {
                assert(q >= 2) by {
                    if q == 0 {
                        assert(step * q == 0);
                    }
                }
                assert(step * q >= 2 * step) by (nonlinear_arith)
                    requires
                        q >= 2,
                        step >= 1,
                ;
            }
            assert(step * 1 == step);
            lemma_small_mod(off as nat, step as nat);
            assert forall|k: int| 0 <= k < q implies a@[off + k * step] == #[trigger] sub_fft(x, tw@,
                step as nat,
                off as nat,
                k as nat,
            ) by {
                assert(k == 0);
                assert(k * step == 0);
            }
        }
        return;
    }
    proof {
        lemma_halve_pow2(step as nat, q, n as nat);
    }
    let stride = step * 2;
    let ghost a0 = a@;
    let ghost b0 = b@;
    proof {
        assert forall|p: int| 0 <= p < n && p % (stride as int) == off implies #[trigger] b@[p]
            == x[p] by {
            lemma_residue_of_half(p, step as int);
            lemma_small_mod(off as nat, step as nat);
        }
        assert forall|p: int| 0 <= p < n && p % (stride as int) == off implies #[trigger] a@[p]
            == x[p] by {
            lemma_residue_of_half(p, step as int);
            lemma_small_mod(off as nat, step as nat);
        }
    }
    fft_inner(b, a, tw, n, stride, off, Ghost(q / 2), Ghost(x));
    let ghost a1 = a@;
    let ghost b1 = b@;
    proof {
        assert forall|p: int| 0 <= p < n && p % (stride as int) == off + step implies #[trigger] b@[p]
            == x[p] by {
            lemma_residue_of_half(p, step as int);
            lemma_mod_add_multiples_vanish(off as int, step as int);
            lemma_small_mod(off as nat, step as nat);
            assert(b1[p] == b0[p]);
        }
        assert forall|p: int| 0 <= p < n && p % (stride as int) == off + step implies #[trigger] a@[p]
            == x[p] by {
            lemma_residue_of_half(p, step as int);
            lemma_mod_add_multiples_vanish(off as int, step as int);
            lemma_small_mod(off as nat, step as nat);
            assert(a1[p] == a0[p]);
        }
    }
    fft_inner(b, a, tw, n, stride, off + step, Ghost(q / 2), Ghost(x));
    let ghost bm = b@;
    let ghost am = a@;
    proof {
        assert forall|k: int| 0 <= k < q / 2 implies bm[off + k * stride] == #[trigger] sub_fft(x, tw@,
            stride as nat,
            off as nat,
            k as nat,
        ) by {
            assert(b1[off + k * stride] == sub_fft(x, tw@, stride as nat, off as nat, k as nat));
            lemma_strided_residue(off as int, k, stride as int);
            assert(off + k * stride < n) by (nonlinear_arith)
                requires
                    off < step,
                    k < q / 2,
                    stride == 2 * step,
                    stride * (q / 2) == n,
            ;
            assert((off + k * stride) % (stride as int) != off + step);
        }
        assert forall|p: int| 0 <= p < n && p % (step as int) != off implies #[trigger] am[p]
            == a0[p] && bm[p] == b0[p] by {
            lemma_residue_of_half(p, step as int);
            lemma_mod_add_multiples_vanish(off as int, step as int);
            lemma_small_mod(off as nat, step as nat);
            assert(p % (stride as int) != off);
            assert(p % (stride as int) != off + step);
            assert(a1[p] == a0[p] && b1[p] == b0[p]);
        }
        assert forall|p: int| 0 <= p < n && p % (step as int) != off implies #[trigger] bm[p]
            == b0[p] by {
            lemma_residue_of_half(p, step as int);
            lemma_mod_add_multiples_vanish(off as int, step as int);
            lemma_small_mod(off as nat, step as nat);
            assert(p % (stride as int) != off);
            assert(p % (stride as int) != off + step);
            assert(b1[p] == b0[p]);
        }
    }
    let half = n / 2;
    let mut i: usize = 0;
    let ghost mut j: nat = 0;
    while i < n
        invariant
            a@.len() == n,
            b@ == bm,
            bm.len() == n,
            x.len() == n,
            stride == 2 * step,
            stride * (q / 2) == n,
            half == n / 2,
            tw@.len() >= n / 2,
            step >= 1,
            off < step,
            i == j * stride,
            j <= q / 2,
            forall|k: int|
                0 <= k < q / 2 ==> bm[off + k * stride] == #[trigger] sub_fft(x, tw@,
                    stride as nat,
                    off as nat,
                    k as nat,
                ),
            forall|k: int|
                0 <= k < q / 2 ==> bm[off + step + k * stride] == #[trigger] sub_fft(x, tw@,
                    stride as nat,
                    (off + step) as nat,
                    k as nat,
                ),
            forall|jj: int|
                0 <= jj < j ==> a@[off + jj * step] == (#[trigger] butterfly_of(tw@,
                    step as nat,
                    jj as nat,
                    sub_fft(x, tw@, stride as nat, off as nat, jj as nat),
                    sub_fft(x, tw@, stride as nat, (off + step) as nat, jj as nat),
                )).0 && a@[off + (jj + q / 2) * step] == butterfly_of(tw@,
                    step as nat,
                    jj as nat,
                    sub_fft(x, tw@, stride as nat, off as nat, jj as nat),
                    sub_fft(x, tw@, stride as nat, (off + step) as nat, jj as nat),
                ).1,
            forall|p: int|
                0 <= p < n && p % (step as int) != off ==> #[trigger] a@[p] == am[p],
        decreases q / 2 - j,
    {
        proof {
            assert(j < q / 2) by (nonlinear_arith)
                requires
                    j * stride < stride * (q / 2),
                    stride > 0,
            ;
            assert(i + stride <= n) by (nonlinear_arith)
                requires
                    i == j * stride,
                    j + 1 <= q / 2,
                    stride * (q / 2) == n,
            ;
            assert(i / 2 == j * step) by (nonlinear_arith)
                requires
                    i == j * stride,
                    stride == 2 * step,
            ;
            assert(half == (q / 2) * step) by (nonlinear_arith)
                requires
                    stride * (q / 2) == n,
                    stride == 2 * step,
                    half == n / 2,
            ;
            assert(j * step + step <= half) by (nonlinear_arith)
                requires
                    j + 1 <= q / 2,
                    half == (q / 2) * step,
            ;
            assert(i / 2 + half == (j + q / 2) * step) by (nonlinear_arith)
                requires
                    i / 2 == j * step,
                    half == (q / 2) * step,
            ;
            assert(off + i + step == off + step + j * stride);
            let ji: int = j as int;
            assert(bm[off + ji * stride] == sub_fft(x, tw@, stride as nat, off as nat, ji as nat));
            assert(bm[off + step + ji * stride] == sub_fft(x, tw@,
                stride as nat,
                (off + step) as nat,
                ji as nat,
            ));
        }
        let even = b[off + i];
        let odd = b[off + i + step];
        let ghost a_before = a@;
        let (left, right) = butterfly(even, odd, i, tw);
        a.set(off + i / 2, left);
        a.set(off + i / 2 + half, right);
        proof {
            assert(i as nat == j * (2 * step as nat));
            assert forall|jj: int| 0 <= jj < j + 1 implies a@[off + jj * step] == (
            #[trigger] butterfly_of(tw@,
                step as nat,
                jj as nat,
                sub_fft(x, tw@, stride as nat, off as nat, jj as nat),
                sub_fft(x, tw@, stride as nat, (off + step) as nat, jj as nat),
            )).0 && a@[off + (jj + q / 2) * step] == butterfly_of(tw@,
                step as nat,
                jj as nat,
                sub_fft(x, tw@, stride as nat, off as nat, jj as nat),
                sub_fft(x, tw@, stride as nat, (off + step) as nat, jj as nat),
            ).1 by {
                if jj < j {
                    lemma_mul_strict_inequality(jj, j as int, step as int);
                    lemma_mul_strict_inequality(jj + (q / 2) as int, j + (q / 2) as int, step as int);
                    assert(j * step < (jj + q / 2) * step) by (nonlinear_arith)
                        requires
                            j < jj + q / 2,
                            step > 0,
                    ;
                    assert(jj * step < (j + q / 2) * step) by (nonlinear_arith)
                        requires
                            jj < j + q / 2,
                            step > 0,
                    ;
                }
            }
            assert forall|p: int| 0 <= p < n && p % (step as int) != off implies #[trigger] a@[p]
                == am[p] by {
                lemma_strided_residue(off as int, j as int, step as int);
                lemma_strided_residue(off as int, (j + q / 2) as int, step as int);
                assert(a_before[p] == am[p]);
            }
        }
        i = i + stride;
        proof {
            j = j + 1;
            assert(i == j * stride) by (nonlinear_arith)
                requires
                    i == (j - 1) * stride + stride,
            ;
        }
    }
    proof {
        assert(j == q / 2) by (nonlinear_arith)
            requires
                i >= n,
                i == j * stride,
                j <= q / 2,
                stride * (q / 2) == n,
                stride > 0,
        ;
        let h = (n as nat) / (2 * step as nat);
        assert(h == q / 2) by {
            lemma_div_multiples_vanish((q / 2) as int, stride as int);
            assert(stride * (q / 2) == n);
        }
        assert forall|k: int| 0 <= k < q implies a@[off + k * step] == #[trigger] sub_fft(x, tw@,
            step as nat,
            off as nat,
            k as nat,
        ) by {
            if k < q / 2 {
                lemma_small_mod(k as nat, h);
                assert(butterfly_of(tw@,
                    step as nat,
                    k as nat,
                    sub_fft(x, tw@, stride as nat, off as nat, k as nat),
                    sub_fft(x, tw@, stride as nat, (off + step) as nat, k as nat),
                ).0 == a@[off + k * step]);
            } else {
                let jj = k - q / 2;
                lemma_mod_add_multiples_vanish(jj, h as int);
                lemma_small_mod(jj as nat, h);
                assert(butterfly_of(tw@,
                    step as nat,
                    jj as nat,
                    sub_fft(x, tw@, stride as nat, off as nat, jj as nat),
                    sub_fft(x, tw@, stride as nat, (off + step) as nat, jj as nat),
                ).1 == a@[off + (jj + q / 2) * step]);
                assert(jj + q / 2 == k);
            }
        }
        assert forall|p: int| 0 <= p < n && p % (step as int) != off implies #[trigger] a@[p]
            == a0[p] by {
            assert(a@[p] == am[p]);
        }
        assert forall|p: int| 0 <= p < n && p % (step as int) != off implies #[trigger] b@[p]
            == b0[p] by {
            assert(bm[p] == b0[p]);
        }
    }
}

/// The zero of [`Cx`], which pads the input.
pub open spec fn cx_zero() -> Cx {
    Cx { re: 0, im: 0 }
}

/// The discrete Fourier transform of `input`, zero-padded to the next power
/// of two `N` and unnormalized, in fixed point: output `k` approximates
/// `Σ_t x[t]·exp(−2πi·k·t/N)`. `twiddles[m]` is the factor
/// `UNITY · exp(−2πi·m/N)`, rounded, for `m < N / 2`; it is the caller's
/// to compute. An empty input gives the single bin of one padding zero.
pub fn fft(input: &Vec<Cx>, twiddles: &Vec<Cx>) -> (r: Vec<Cx>)
    requires
        input@.len() <= usize::MAX / 2 + 1,
        twiddles@.len() >= padded_len(input@.len()) / 2,
    ensures
        r@.len() == padded_len(input@.len()),
        forall|k: int|
            0 <= k < r@.len() ==> #[trigger] r@[k] == fft_spec(input@, twiddles@, k as nat),
{
    let mut buf_a = pad_to_power_of_two(input, Cx { re: 0, im: 0 });
    let mut buf_b = pad_to_power_of_two(input, Cx { re: 0, im: 0 });
    let n = buf_a.len();
    let ghost x = buf_a@;
    proof {
        assert(1 * n == n);
    }
    fft_inner(&mut buf_a, &mut buf_b, twiddles, n, 1, 0, Ghost(n as nat), Ghost(x));
    proof {
        assert forall|k: int| 0 <= k < buf_a@.len() implies #[trigger] buf_a@[k] == fft_spec(
            input@,
            twiddles@,
            k as nat,
        ) by {
            assert(sub_fft(x, twiddles@, 1, 0, k as nat) == buf_a@[0 + k * 1]);
        }
    }
    buf_a
}

/// The centre frequency of output bin `bin` of an `n`-point transform of
/// audio at `sample_rate`, in millihertz and rounded down:
/// `bin · sample_rate / n` hertz.
pub fn bin_frequency(bin: usize, sample_rate: u32, n: usize) -> (r: u64)
    requires
        n > 0,
        bin <= n,
    ensures
        r == (bin as int) * (sample_rate as int) * 1000 / (n as int),
{
    let f = sample_rate as u128 * 1000;
    proof {
        assert(bin * f <= u128::MAX) by (nonlinear_arith)
            requires
                bin <= usize::MAX,
                usize::MAX <= u64::MAX,
                f <= u32::MAX * 1000,
        ;
    }
    let num = bin as u128 * f;
    proof {
        assert(bin * f <= n * f) by (nonlinear_arith)
            requires
                bin <= n,
                f >= 0,
        ;
        lemma_div_is_ordered(bin * f, n * f, n as int);
        lemma_div_by_multiple(f as int, n as int);
        assert(n * f == f * n) by (nonlinear_arith);
        assert((bin as int) * (sample_rate as int) * 1000 == bin * f) by (nonlinear_arith)
            requires
                f == sample_rate * 1000,
        ;
    }
    (num / n as u128) as u64
}

} // verus!
