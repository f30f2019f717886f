//! Ratios rounded to the nearest whole, halves upward.

use vstd::arithmetic::div_mod::{
    lemma_fundamental_div_mod, lemma_hoist_over_denominator, lemma_mod_multiples_vanish,
};
use vstd::prelude::*;

verus! {

/// `num / den` rounded to the nearest whole number, a half rounded up; zero
/// where `den` is zero.
pub open spec fn rounded_ratio(num: nat, den: nat) -> nat {
    if den == 0 {
        0
    } else {
        num / den + if 2 * (num % den) >= den {
            1nat
        } else {
            0nat
        }
    }
}

/// A rounded ratio lies within a half of the exact one:
/// `2 * den * ratio` differs from `2 * num` by at most `den`.
pub proof fn lemma_rounded_ratio_is_nearest(num: nat, den: nat)
    requires
        den > 0,
    ensures
        2 * num - den < 2 * den * rounded_ratio(num, den) <= 2 * num + den,
{
    lemma_fundamental_div_mod(num as int, den as int);
    let q = num / den;
    let r = num % den;
    assert(num == den * q + r);
    assert(2 * den * (q + 1) == 2 * (den * q) + 2 * den) by (nonlinear_arith);
    assert(2 * den * q == 2 * (den * q)) by (nonlinear_arith);
}

/// A part of a whole, in a scale, never exceeds the scale.
pub proof fn lemma_rounded_share_bounded(part: nat, whole: nat, scale: nat)
    requires
        part <= whole,
    ensures
        rounded_ratio(part * scale, whole) <= scale,
{
    if whole > 0 {
        let num = part * scale;
        lemma_fundamental_div_mod(num as int, whole as int);
        let q = num / whole;
        let r = num % whole;
        assert(part * scale <= whole * scale) by (nonlinear_arith)
            requires
                part <= whole,
        ;
        if q >= scale {
            assert(whole * q >= whole * scale) by (nonlinear_arith)
                requires
                    q >= scale,
            ;
            assert(r == 0);
            if q > scale {
                assert(whole * q >= whole * scale + whole) by (nonlinear_arith)
                    requires
                        q >= scale + 1,
                ;
            }
        }
    }
}

/// Adding whole multiples of the denominator adds them to the ratio.
pub proof fn lemma_rounded_ratio_shift(num: nat, whole: nat, den: nat)
    requires
        den > 0,
    ensures
        rounded_ratio(whole * den + num, den) == whole + rounded_ratio(num, den),
{
    lemma_hoist_over_denominator(num as int, whole as int, den);
    lemma_mod_multiples_vanish(whole as int, num as int, den as int);
    assert(whole * den + num == den * whole + num) by (nonlinear_arith);
    assert(num + whole * den == den * whole + num) by (nonlinear_arith);
}

/// The mean of `count` values that sum to `total`, times `scale`, rounded.
/// The sum must be one that `count` 64-bit values can have.
pub fn mean_times(total: u128, count: usize, scale: u64) -> (mean: u128)
    requires
        total <= count * u64::MAX,
    ensures
        mean == rounded_ratio(total as nat * scale as nat, count as nat),
{
    if count == 0 {
        return 0;
    }
    let n = count as u128;
    let q = total / n;
    let r = total % n;
    proof {
        lemma_fundamental_div_mod(total as int, n as int);
        assert(total == n * q + r);
        assert(q <= u64::MAX) by {
            if q > u64::MAX {
                assert(n * q >= n * (u64::MAX + 1)) by (nonlinear_arith)
                    requires
                        q >= u64::MAX + 1,
                        n > 0,
                ;
                assert(n * (u64::MAX + 1) == n * u64::MAX + n) by (nonlinear_arith);
                assert(count * u64::MAX == n * u64::MAX);
            }
        }
        assert(q * scale <= u64::MAX * scale) by (nonlinear_arith)
            requires
                q <= u64::MAX,
        ;
        assert(u64::MAX * scale <= u64::MAX * u64::MAX) by (nonlinear_arith)
            requires
                scale <= u64::MAX,
        ;
        assert(r * scale <= u64::MAX * u64::MAX) by (nonlinear_arith)
            requires
                r <= u64::MAX,
                scale <= u64::MAX,
        ;
    }
    let whole = q * (scale as u128);
    let rest = r * (scale as u128);
    let rest_whole = rest / n;
    let rest_left = rest % n;
    proof {
        lemma_rounded_ratio_shift(rest as nat, whole as nat, n as nat);
        assert(total as nat * scale as nat == whole as nat * n as nat + rest as nat)
            by (nonlinear_arith)
            requires
                total == n * q + r,
                whole == q * scale,
                rest == r * scale,
        ;
        // The rest divided by the count is below the scale.
        lemma_fundamental_div_mod(rest as int, n as int);
        assert(rest_whole <= scale) by {
            if rest_whole > scale {
                assert(n * rest_whole >= n * scale + n) by (nonlinear_arith)
                    requires
                        rest_whole >= scale + 1,
                        n > 0,
                ;
                assert(r * scale <= n * scale) by (nonlinear_arith)
                    requires
                        r < n,
                        scale >= 0,
                ;
            }
        }
    }
    let half_up: u128 = if 2 * rest_left >= n {
        1
    } else {
        0
    };
    whole + rest_whole + half_up
}

} // verus!
