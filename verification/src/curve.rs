//! Fixed-point powers on the scale of 10^18.
//!
//! A value `v` stands for the real number `v / WAD`. Whole powers are taken by
//! multiplying and rescaling once per step; a fractional exponent blends the two
//! neighbouring whole powers in a straight line.

use vstd::prelude::*;
use crate::snail_game::SnailError;

verus! {

/// The fixed-point scale: the value that stands for 1.0.
pub const WAD: u128 = 1_000_000_000_000_000_000;

/// `base` raised to the whole power `n`, rescaled after every multiplication.
pub open spec fn wad_power(base: int, n: nat) -> int
    decreases n,
{
    if n == 0 {
        WAD as int
    } else {
        wad_power(base, (n - 1) as nat) * base / (WAD as int)
    }
}

/// Whether each of the `n` multiplications behind `wad_power(base, n)` stays
/// within 128 bits.
pub open spec fn power_fits(base: int, n: nat) -> bool
    decreases n,
{
    n == 0 || (power_fits(base, (n - 1) as nat) && wad_power(base, (n - 1) as nat) * base
        <= u128::MAX)
}

/// The point between `low` and `next` that lies `fraction / WAD` of the way
/// from the first to the second, for `next <= low`.
pub open spec fn interpolate(low: int, next: int, fraction: int) -> int {
    low - (low - next) * fraction / (WAD as int)
}

/// The value of `pow`, or `None` where a step of the computation leaves the
/// 128-bit range.
///
/// Zero to any power is zero, any other base to the power zero is one, the
/// power one gives the base back and one to any power is one. A base below one
/// is raised to the whole part of the exponent and blended with the next whole
/// power by the fractional part. A base above one has whole powers only, as far
/// as they fit: its powers grow, so the blend's subtraction would go below zero.
pub open spec fn pow_spec(base: int, exponent: int) -> Option<int> {
    let whole = (exponent / (WAD as int)) as nat;
    let fraction = exponent % (WAD as int);
    if base == 0 {
        Some(0)
    } else if exponent == 0 {
        Some(WAD as int)
    } else if exponent == WAD {
        Some(base)
    } else if base == WAD {
        Some(WAD as int)
    } else if base < WAD {
        Some(interpolate(wad_power(base, whole), wad_power(base, whole + 1), fraction))
    } else if fraction == 0 && power_fits(base, whole) {
        Some(wad_power(base, whole))
    } else {
        None
    }
}

/// One rescaled multiplication keeps the order of its left factors.
proof fn lemma_scaled_product_ordered(x1: int, y1: int, x2: int, y2: int)
    requires
        0 <= x1 <= x2,
        0 <= y1 <= y2,
    ensures
        0 <= x1 * y1 / (WAD as int) <= x2 * y2 / (WAD as int),
{
    assert(0 <= x1 * y1 <= x2 * y2) by (nonlinear_arith)
        requires
            0 <= x1 <= x2,
            0 <= y1 <= y2,
    ;
}

/// Powers of a base up to one stay between zero and one and do not grow.
pub proof fn lemma_power_of_small_base(base: int, n: nat)
    requires
        0 <= base <= WAD,
    ensures
        0 <= wad_power(base, n + 1) <= wad_power(base, n) <= WAD,
        wad_power(base, n) * base <= (WAD as int) * (WAD as int),
    decreases n,
{
    if n > 0 {
        lemma_power_of_small_base(base, (n - 1) as nat);
    }
    let p = wad_power(base, n);
    assert(0 <= p <= WAD);
    assert(0 <= p * base <= p * (WAD as int) && p * (WAD as int) <= (WAD as int) * (WAD as int))
        by (nonlinear_arith)
        requires
            0 <= p <= WAD,
            0 <= base <= WAD,
    ;
    assert(wad_power(base, n + 1) == p * base / (WAD as int));
}

/// Powers of a base of at least one are at least one and do not shrink; above
/// one they grow with every step.
pub proof fn lemma_power_of_large_base(base: int, n: nat)
    requires
        WAD <= base,
    ensures
        WAD <= wad_power(base, n) <= wad_power(base, n + 1),
        base > WAD ==> wad_power(base, n) < wad_power(base, n + 1),
    decreases n,
{
    if n > 0 {
        lemma_power_of_large_base(base, (n - 1) as nat);
    }
    let p = wad_power(base, n);
    assert(WAD <= p);
    assert(p * base >= p * (WAD as int)) by (nonlinear_arith)
        requires
            p >= 0,
            base >= WAD,
    ;
    assert(base > WAD ==> p * base >= p * (WAD as int) + p) by (nonlinear_arith)
        requires
            p >= 0,
            base >= WAD,
    ;
    assert(wad_power(base, n + 1) == p * base / (WAD as int));
}

/// Where `n` steps fit, so do the first `m` of them.
pub proof fn lemma_power_fits_prefix(base: int, m: nat, n: nat)
    requires
        m <= n,
        power_fits(base, n),
    ensures
        power_fits(base, m),
    decreases n,
{
    if m < n {
        lemma_power_fits_prefix(base, m, (n - 1) as nat);
    }
}

/// A whole power does not fall when the base rises.
pub proof fn lemma_power_ordered_by_base(b1: int, b2: int, n: nat)
    requires
        0 <= b1 <= b2,
    ensures
        0 <= wad_power(b1, n) <= wad_power(b2, n),
    decreases n,
{
    if n > 0 {
        lemma_power_ordered_by_base(b1, b2, (n - 1) as nat);
        lemma_scaled_product_ordered(
            wad_power(b1, (n - 1) as nat),
            b1,
            wad_power(b2, (n - 1) as nat),
            b2,
        );
    }
}

/// Raises `base` to `exponent`, both on the scale of [`WAD`].
///
/// The whole part of the exponent is applied by repeated multiplication, each
/// step divided by `WAD`; a fractional part moves the result in a straight line
/// towards the next whole power. A multiplication that leaves 128 bits, or a
/// subtraction that would go below zero, ends in `MathOverflow`.
pub fn pow(base: u128, exponent: u128) -> (r: Result<u128, SnailError>)
    ensures
        r is Ok <==> pow_spec(base as int, exponent as int) is Some,
        r matches Ok(v) ==> pow_spec(base as int, exponent as int) == Some(v as int),
        r matches Err(e) ==> e == SnailError::MathOverflow,
{
    if base == 0 {
        return Ok(0);
    }
    if exponent == 0 {
        return Ok(WAD);
    }
    if exponent == WAD {
        return Ok(base);
    }
    if base == WAD {
        return Ok(WAD);
    }
    let integer_part: u128 = exponent / WAD;
    let fractional_part: u128 = exponent % WAD;

    let mut result: u128 = WAD;
    let mut i: u128 = 0;
    while i < integer_part
        invariant
            i <= integer_part,
            base != 0,
            base != WAD,
            exponent != 0,
            exponent != WAD,
            integer_part == exponent / WAD,
            result == wad_power(base as int, i as nat),
            power_fits(base as int, i as nat),
        decreases integer_part - i,
    {
        match result.checked_mul(base) {
            Some(product) => {
                result = product / WAD;
            },
            None => {
                proof {
                    if base < WAD {
                        lemma_power_of_small_base(base as int, i as nat);
                    }
                    if power_fits(base as int, integer_part as nat) {
                        lemma_power_fits_prefix(
                            base as int,
                            (i + 1) as nat,
                            integer_part as nat,
                        );
                    }
                }
                return Err(SnailError::MathOverflow);
            },
        }
        i = i + 1;
    }

    if fractional_part > 0 {
        proof {
            assert(wad_power(base as int, (integer_part + 1) as nat) == wad_power(
                base as int,
                integer_part as nat,
            ) * base / (WAD as int));
            if base < WAD {
                lemma_power_of_small_base(base as int, integer_part as nat);
            } else {
                lemma_power_of_large_base(base as int, integer_part as nat);
            }
        }
        let next_power: u128 = match result.checked_mul(base) {
            Some(product) => product / WAD,
            None => {
                return Err(SnailError::MathOverflow);
            },
        };
        let diff: u128 = match result.checked_sub(next_power) {
            Some(d) => d,
            None => {
                return Err(SnailError::MathOverflow);
            },
        };
        assert(diff * fractional_part <= (WAD as int) * (WAD as int)) by (nonlinear_arith)
            requires
                0 <= diff <= WAD,
                0 <= fractional_part <= WAD,
        ;
        assert(diff * fractional_part >= 0 && diff * fractional_part <= diff * (WAD as int))
            by (nonlinear_arith)
            requires
                0 <= diff,
                0 <= fractional_part <= WAD,
        ;
        let step: u128 = match diff.checked_mul(fractional_part) {
            Some(product) => product / WAD,
            None => {
                return Err(SnailError::MathOverflow);
            },
        };
        match result.checked_sub(step) {
            Some(blended) => {
                assert(base < WAD);
                assert(blended == interpolate(
                    wad_power(base as int, integer_part as nat),
                    wad_power(base as int, (integer_part + 1) as nat),
                    fractional_part as int,
                ));
                result = blended;
            },
            None => {
                return Err(SnailError::MathOverflow);
            },
        }
    } else {
        assert((wad_power(base as int, integer_part as nat) - wad_power(
            base as int,
            (integer_part + 1) as nat,
        )) * 0 == 0);
    }
    Ok(result)
}

/// The blend of two values lies between them.
pub proof fn lemma_interpolate_bounds(low: int, next: int, fraction: int)
    requires
        0 <= next <= low,
        0 <= fraction < WAD,
    ensures
        next <= interpolate(low, next, fraction) <= low,
{
    let d = low - next;
    assert(0 <= d * fraction <= d * (WAD as int)) by (nonlinear_arith)
        requires
            0 <= d,
            0 <= fraction < WAD,
    ;
}

/// The blend does not fall when both of its ends rise.
pub proof fn lemma_interpolate_ordered(
    low1: int,
    next1: int,
    low2: int,
    next2: int,
    fraction: int,
)
    requires
        0 <= next1 <= low1,
        0 <= next2 <= low2,
        low1 <= low2,
        next1 <= next2,
        0 <= fraction < WAD,
    ensures
        interpolate(low1, next1, fraction) <= interpolate(low2, next2, fraction),
{
    let d1 = low1 - next1;
    let d2 = low2 - next2;
    let rise = low2 - low1;
    assert(0 <= d1 * fraction && d2 * fraction <= d1 * fraction + rise * (WAD as int))
        by (nonlinear_arith)
        requires
            0 <= d1,
            0 <= d2 <= d1 + rise,
            0 <= rise,
            0 <= fraction < WAD,
    ;
}

/// The blend does not rise when the fraction grows.
pub proof fn lemma_interpolate_ordered_by_fraction(low: int, next: int, f1: int, f2: int)
    requires
        0 <= next <= low,
        0 <= f1 <= f2,
    ensures
        interpolate(low, next, f2) <= interpolate(low, next, f1),
{
    let d = low - next;
    assert(d * f1 <= d * f2) by (nonlinear_arith)
        requires
            0 <= d,
            0 <= f1 <= f2,
    ;
}

/// A whole power of a base up to one does not rise with the number of steps.
pub proof fn lemma_power_ordered_by_steps(base: int, m: nat, n: nat)
    requires
        0 <= base <= WAD,
        m <= n,
    ensures
        wad_power(base, n) <= wad_power(base, m),
    decreases n - m,
{
    if m < n {
        lemma_power_of_small_base(base, m);
        lemma_power_ordered_by_steps(base, m + 1, n);
    }
}

/// The fixed points of `pow`: the power one gives the base back, a base other
/// than zero to the power zero is one, zero to any power is zero, and one to
/// any power is one.
pub proof fn lemma_pow_identities(base: int, exponent: int)
    ensures
        pow_spec(base, WAD as int) == Some(base),
        base != 0 ==> pow_spec(base, 0) == Some(WAD as int),
        pow_spec(0, exponent) == Some(0int),
        pow_spec(WAD as int, exponent) == Some(WAD as int),
{
}

/// For a base between zero and one `pow` never fails, and its value lies
/// between zero and one.
pub proof fn lemma_pow_of_small_base(base: int, exponent: int)
    requires
        0 <= base <= WAD,
        0 <= exponent,
    ensures
        pow_spec(base, exponent) is Some,
        0 <= pow_spec(base, exponent)->0 <= WAD,
{
    let whole = (exponent / (WAD as int)) as nat;
    let fraction = exponent % (WAD as int);
    lemma_power_of_small_base(base, whole);
    lemma_interpolate_bounds(wad_power(base, whole), wad_power(base, whole + 1), fraction);
}

/// `pow` does not fall when the base rises: for every exponent, and for any two
/// bases on which it succeeds.
pub proof fn lemma_pow_ordered_by_base(b1: int, b2: int, exponent: int)
    requires
        0 <= b1 <= b2,
        0 <= exponent,
        pow_spec(b1, exponent) is Some,
        pow_spec(b2, exponent) is Some,
    ensures
        pow_spec(b1, exponent)->0 <= pow_spec(b2, exponent)->0,
{
    let whole = (exponent / (WAD as int)) as nat;
    let fraction = exponent % (WAD as int);
    if b1 <= WAD {
        lemma_pow_of_small_base(b1, exponent);
    }
    if b2 <= WAD {
        lemma_pow_of_small_base(b2, exponent);
    }
    if b1 == 0 || exponent == 0 || exponent == WAD {
        if b2 >= WAD && exponent != 0 && exponent != WAD && b2 != WAD {
            lemma_power_of_large_base(b2, whole);
        }
    } else if b2 < WAD {
        lemma_power_of_small_base(b1, whole);
        lemma_power_of_small_base(b2, whole);
        lemma_power_ordered_by_base(b1, b2, whole);
        lemma_power_ordered_by_base(b1, b2, whole + 1);
        lemma_interpolate_ordered(
            wad_power(b1, whole),
            wad_power(b1, whole + 1),
            wad_power(b2, whole),
            wad_power(b2, whole + 1),
            fraction,
        );
    } else if b2 == WAD {
    } else if b1 <= WAD {
        lemma_power_of_large_base(b2, whole);
    } else {
        lemma_power_ordered_by_base(b1, b2, whole);
    }
}

/// For a base between zero and one `pow` does not rise when the exponent
/// grows.
pub proof fn lemma_pow_ordered_by_exponent(base: int, e1: int, e2: int)
    requires
        0 <= base <= WAD,
        0 <= e1 <= e2,
    ensures
        pow_spec(base, e2)->0 <= pow_spec(base, e1)->0,
{
    let w1 = (e1 / (WAD as int)) as nat;
    let f1 = e1 % (WAD as int);
    let w2 = (e2 / (WAD as int)) as nat;
    let f2 = e2 % (WAD as int);
    lemma_pow_of_small_base(base, e1);
    lemma_pow_of_small_base(base, e2);
    if base == 0 || base == WAD || e1 == e2 || e1 == 0 {
    } else {
        // Both values lie between the whole powers next to their exponents.
        lemma_power_of_small_base(base, w1);
        lemma_power_of_small_base(base, w2);
        lemma_interpolate_bounds(wad_power(base, w1), wad_power(base, w1 + 1), f1);
        lemma_interpolate_bounds(wad_power(base, w2), wad_power(base, w2 + 1), f2);
        assert(wad_power(base, 1) == base) by {
            assert(wad_power(base, 0) == WAD);
            assert((WAD as int) * base / (WAD as int) == base);
        }
        if w1 == w2 {
            lemma_interpolate_ordered_by_fraction(
                wad_power(base, w1),
                wad_power(base, w1 + 1),
                f1,
                f2,
            );
        } else {
            lemma_power_ordered_by_steps(base, w1 + 1, w2);
        }
        if e1 == WAD {
            lemma_power_ordered_by_steps(base, 1, w2);
        }
        if e2 == WAD {
            assert(w1 == 0);
        }
    }
}

/// Below the exponent one, two bases between zero and one keep their order:
/// the larger base gives the smaller or equal result only where both results
/// are the same, which is where both round to the same step below one.
pub proof fn lemma_pow_level_below_one(b1: int, b2: int, exponent: int)
    requires
        0 < exponent < WAD,
        0 < b1 <= b2 <= WAD,
    ensures
        pow_spec(b2, exponent)->0 <= pow_spec(b1, exponent)->0 <==> (WAD - b1) * exponent / (
        WAD as int) == (WAD - b2) * exponent / (WAD as int),
{
    lemma_pow_ordered_by_base(b1, b2, exponent);
    assert(wad_power(b1, 1) == b1) by {
        assert((WAD as int) * b1 / (WAD as int) == b1);
    }
    assert(wad_power(b2, 1) == b2) by {
        assert((WAD as int) * b2 / (WAD as int) == b2);
    }
    assert((WAD - WAD) * exponent == 0);
}

} // verus!
