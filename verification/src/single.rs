//! Whole numbers as an IEEE 754 single-precision float can hold them.
//!
//! Layout values end up as single-precision uniforms on the GPU. Every one of them that the shell
//! computes is a whole number of some fixed unit, so the rounding of the float operations can be
//! written out over the integers: a result is the exact sum or product, rounded to a significand
//! of 24 bits.
use vstd::arithmetic::div_mod::lemma_fundamental_div_mod;
use vstd::arithmetic::div_mod::lemma_fundamental_div_mod_converse;
use vstd::arithmetic::power2::{lemma2_to64, lemma_pow2_unfold, pow2};
use vstd::prelude::*;

verus! {

/// One more than the largest significand: below this every whole number is a single.
pub const SIGNIFICANDS: u128 = 0x100_0000;

/// A bound on what the functions here take, far below the largest finite single.
pub const LARGEST: u128 = 0x1_0000_0000_0000_0000_0000_0000_0000;

/// The distance between neighbouring singles at `n`.
pub open spec fn spacing(n: nat) -> nat
    decreases n,
{
    if n < SIGNIFICANDS {
        1
    } else {
        2 * spacing(n / 2)
    }
}

/// The single closest to `n`; of two that are equally close, the one with the even significand.
pub open spec fn nearest_single(n: nat) -> nat {
    let unit = spacing(n);
    let below = n / unit;
    let rest = n % unit;
    if 2 * rest > unit || (2 * rest == unit && below % 2 == 1) {
        (below + 1) * unit
    } else {
        below * unit
    }
}

/// Rounds `n` to the closest single, ties to even.
pub fn round_to_single(n: u128) -> (rounded: u128)
    requires
        n <= LARGEST,
    ensures
        rounded == nearest_single(n as nat),
        rounded <= 2 * n,
{
    let mut unit: u128 = 1;
    let mut below: u128 = n;
    while below >= SIGNIFICANDS
        invariant
            n <= LARGEST,
            1 <= unit,
            spacing(n as nat) == unit * spacing(below as nat),
            below * unit <= n < (below + 1) * unit,
        decreases below,
    {
        let ghost half = (below / 2) as nat;
        proof {
            let u = unit as int;
            let b = below as int;
            let h = half as int;
            assert(spacing(below as nat) == 2 * spacing(half));
            assert(u * (2 * spacing(half)) == (2 * u) * spacing(half)) by (nonlinear_arith);
            assert(h * (2 * u) <= b * u) by (nonlinear_arith)
                requires
                    2 * h <= b,
                    u >= 1,
            ;
            assert((b + 1) * u <= (h + 1) * (2 * u)) by (nonlinear_arith)
                requires
                    b + 1 <= 2 * h + 2,
                    u >= 1,
            ;
            assert(u <= n) by (nonlinear_arith)
                requires
                    b * u <= n,
                    b >= 1,
                    u >= 1,
            ;
        }
        unit = unit * 2;
        below = below / 2;
    }
    proof {
        let u = unit as int;
        let b = below as int;
        assert(spacing(n as nat) == u * 1);
        assert((b + 1) * u == b * u + u) by (nonlinear_arith);
        assert(b * u == u * b) by (nonlinear_arith);
        lemma_fundamental_div_mod_converse(n as int, u, b, n - b * u);
        assert(b >= 1 ==> u <= b * u) by (nonlinear_arith)
            requires
                u >= 1,
        ;
        assert(u > 1 ==> b >= 1) by {
            if u > 1 && b == 0 {
                lemma_leading_significand(n as nat);
            }
        }
    }
    let rest: u128 = n - below * unit;
    if rest > unit - rest || (rest == unit - rest && below % 2 == 1) {
        (below + 1) * unit
    } else {
        below * unit
    }
}

/// The spacing never exceeds a number that is at least one.
proof fn lemma_leading_significand(n: nat)
    ensures
        spacing(n) >= 1,
        n >= 1 ==> spacing(n) <= n,
        n >= SIGNIFICANDS ==> spacing(n) * 0x80_0000 <= n,
    decreases n,
{
    if n >= SIGNIFICANDS {
        lemma_leading_significand(n / 2);
    }
}

/// Rounding moves a number by at most half the spacing at it.
pub proof fn law_rounding_error(n: nat)
    ensures
        2 * nearest_single(n) <= 2 * n + spacing(n),
        2 * n <= 2 * nearest_single(n) + spacing(n),
{
    lemma_leading_significand(n);
    let unit = spacing(n);
    lemma_fundamental_div_mod(n as int, unit as int);
    let below = n / unit;
    assert(unit * below == below * unit) by (nonlinear_arith);
    assert((below + 1) * unit == below * unit + unit) by (nonlinear_arith);
}

/// The spacing is a fraction of at most 2^-23 of any number at or above 2^24, and one below.
pub proof fn law_spacing(n: nat)
    ensures
        n < SIGNIFICANDS ==> spacing(n) == 1,
        n >= SIGNIFICANDS ==> spacing(n) * 0x80_0000 <= n,
{
    lemma_leading_significand(n);
}

/// Every whole number below 2^24 is a single, so rounding leaves it alone.
pub proof fn law_small_numbers_are_exact(n: nat)
    requires
        n < SIGNIFICANDS,
    ensures
        nearest_single(n) == n,
{
    assert(spacing(n) == 1);
    assert(n / 1 == n && n % 1 == 0);
}

/// The spacing at a number is the power of two that gives it a significand of 24 bits.
pub proof fn law_spacing_is_a_power_of_two(n: nat)
    ensures
        exists|k: nat| spacing(n) == #[trigger] pow2(k),
        n >= 0x100_0000 ==> spacing(n) * 0x80_0000 <= n < spacing(n) * 0x100_0000,
        n < 0x100_0000 ==> spacing(n) == 1,
    decreases n,
{
    if n < 0x100_0000 {
        lemma2_to64();
        assert(spacing(n) == pow2(0));
    } else {
        law_spacing_is_a_power_of_two(n / 2);
        let k = choose|k: nat| spacing(n / 2) == #[trigger] pow2(k);
        lemma_pow2_unfold(k + 1);
        assert(spacing(n) == pow2(k + 1));
    }
}

/// Rounding gives a multiple of the spacing, the closest one, and of two that are equally close the
/// one whose significand is even.
pub proof fn law_rounding_is_to_nearest_even(n: nat)
    ensures
        nearest_single(n) % spacing(n) == 0,
        -spacing(n) <= 2 * (nearest_single(n) - n) <= spacing(n),
        2 * (nearest_single(n) - n) == spacing(n) || 2 * (n - nearest_single(n)) == spacing(n) ==> (
        nearest_single(n) / spacing(n)) % 2 == 0,
{
    lemma_leading_significand(n);
    let unit = spacing(n) as int;
    let below = n as int / unit;
    let rest = n as int % unit;
    lemma_fundamental_div_mod(n as int, unit);
    assert(unit * below == below * unit) by (nonlinear_arith);
    assert((below + 1) * unit == below * unit + unit) by (nonlinear_arith);
    lemma_fundamental_div_mod_converse(below * unit, unit, below, 0);
    lemma_fundamental_div_mod_converse((below + 1) * unit, unit, below + 1, 0);
}

} // verus!
