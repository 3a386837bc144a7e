//! The crossfade gain ramp.
//!
//! When playback transitions between rolling and paused, one block is scaled
//! by a linear ramp: fade-in multiplies sample `j` (0-indexed) by
//! `(j+1)/blocksize`, fade-out by `(blocksize-j)/blocksize`.  The gains are
//! exact rationals; a sample is scaled by multiplying with the numerator and
//! dividing by the denominator, rounding the magnitude down.

use vstd::arithmetic::div_mod::{lemma_div_is_ordered, lemma_div_multiples_vanish};
use vstd::arithmetic::mul::{lemma_mul_inequality, lemma_mul_is_commutative};
use vstd::prelude::*;

verus! {

/// The value of sample `s` under the gain `num/den`: the magnitude is scaled
/// and rounded toward zero, the sign is kept.
pub open spec fn scaled(s: int, num: int, den: int) -> int {
    if s >= 0 {
        (s * num) / den
    } else {
        -((-s * num) / den)
    }
}

/// A gain of at most one can only shrink the magnitude.
pub proof fn lemma_scaled_magnitude(a: int, num: int, den: int)
    requires
        0 <= a,
        1 <= num,
        num <= den,
    ensures
        0 <= (a * num) / den <= a,
{
    lemma_mul_inequality(num, den, a);
    lemma_mul_is_commutative(num, a);
    lemma_mul_is_commutative(den, a);
    lemma_div_is_ordered(0, a * num, den);
    lemma_div_is_ordered(a * num, a * den, den);
    lemma_mul_is_commutative(a, den);
    lemma_div_multiples_vanish(a, den);
}

/// Law: the ramp gain is exactly `num/den`.  A sample whose value is an exact
/// multiple `k` of the denominator is scaled to exactly `k*num`, so with
/// `blocksize = B` the fade-in gain at index `j` is exactly `(j+1)/B` and the
/// fade-out gain exactly `(B-j)/B`.
pub proof fn lemma_gain_exact(k: int, num: int, den: int)
    requires
        1 <= num,
        num <= den,
    ensures
        scaled(k * den, num, den) == k * num,
{
    if k >= 0 {
        assert(k * den >= 0) by (nonlinear_arith)
            requires
                k >= 0 && den >= 1;
        assert((k * den) * num == den * (k * num)) by (nonlinear_arith);
        lemma_div_multiples_vanish(k * num, den);
        assert((den * (k * num)) / den == k * num);
        assert(scaled(k * den, num, den) == ((k * den) * num) / den);
    } else {
        assert(k * den < 0) by (nonlinear_arith)
            requires
                k < 0 && den >= 1;
        assert(-(k * den) * num == den * (-k * num)) by (nonlinear_arith);
        lemma_div_multiples_vanish(-k * num, den);
        assert(scaled(k * den, num, den) == -(-k * num));
        assert(-(-k * num) == k * num) by (nonlinear_arith);
    }
}

/// Scales one sample by the gain `num/den`, rounding the magnitude toward
/// zero.
pub fn apply_gain(s: i32, num: u32, den: u32) -> (r: i32)
    requires
        1 <= num,
        num <= den,
    ensures
        r as int == scaled(s as int, num as int, den as int),
{
    if s >= 0 {
        proof {
            assert((s as int) * (num as int) < 0x8000_0000_0000_0000) by (nonlinear_arith)
                requires
                    0 <= (s as int),
                    (s as int) <= 0x7fff_ffff,
                    0 <= (num as int),
                    (num as int) < 0x1_0000_0000;
            lemma_scaled_magnitude(s as int, num as int, den as int);
        }
        let m: u64 = (s as u64) * (num as u64) / (den as u64);
        m as i32
    } else {
        let mag: u64 = (-(s as i64)) as u64;
        proof {
            assert((mag as int) * (num as int) < 0x8000_0000_0000_0000) by (nonlinear_arith)
                requires
                    0 <= (mag as int),
                    (mag as int) <= 0x8000_0000,
                    0 <= (num as int),
                    (num as int) < 0x1_0000_0000;
            lemma_scaled_magnitude(mag as int, num as int, den as int);
        }
        let m: u64 = mag * (num as u64) / (den as u64);
        (-(m as i64)) as i32
    }
}

} // verus!
