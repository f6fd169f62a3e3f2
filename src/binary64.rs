//! Double-precision arithmetic on `u32` operands, held in integers.
//!
//! `floor(target as f64 / side as f64 * other as f64) as u32` is computed
//! exactly as IEEE 754 binary64 does it: the quotient is rounded to 53
//! significant bits (to nearest, ties to even), the product of that
//! quotient with `other` is rounded the same way, and the floor of the
//! result is converted to `u32` with saturation (NaN gives 0).
//!
//! A quotient of two `u32` values is at least `2^-32` when it is not zero,
//! so it is held as an integer significand over `2^84`: that leaves at least
//! 53 significant bits for every such quotient, and no value here is
//! subnormal or overflows the exponent range.

use vstd::arithmetic::power2::{
    lemma2_to64,
    lemma2_to64_rest,
    lemma_pow2_adds,
    lemma_pow2_pos,
    lemma_pow2_strictly_increases,
    lemma_pow2_unfold,
    pow2,
};
use vstd::prelude::*;

verus! {

/// The number of binary digits of `x` (0 for 0).
pub open spec fn bit_len(x: nat) -> nat
    decreases x,
{
    if x == 0 {
        0
    } else {
        1 + bit_len(x / 2)
    }
}

/// `n / d` rounded to the nearest integer, ties to the even one.
pub open spec fn round_half_even(n: nat, d: nat) -> nat {
    let q = n / d;
    let r = n % d;
    if 2 * r < d || (2 * r == d && q % 2 == 0) {
        q
    } else {
        q + 1
    }
}

/// How many low bits to drop from an integer of `len` binary digits to keep
/// 53 significant bits.
pub open spec fn excess_bits(len: nat) -> nat {
    if len > 53 {
        (len - 53) as nat
    } else {
        0
    }
}

/// `n / d` scaled by `2^84`, before rounding.
pub open spec fn scaled_numerator(n: nat) -> nat {
    n * pow2(84)
}

/// The low bits dropped from the scaled quotient `n * 2^84 / d`.
pub open spec fn quotient_shift(n: nat, d: nat) -> nat {
    excess_bits(bit_len(scaled_numerator(n) / d))
}

/// The significand of `n / d` in double precision: the quotient is
/// `quotient_significand(n, d) / 2^(84 - quotient_shift(n, d))`.
pub open spec fn quotient_significand(n: nat, d: nat) -> nat {
    round_half_even(scaled_numerator(n), d * pow2(quotient_shift(n, d)))
}

/// The integer `x` rounded to 53 significant bits, ties to even.
pub open spec fn round_to_double(x: nat) -> nat {
    let t = excess_bits(bit_len(x));
    round_half_even(x, pow2(t)) * pow2(t)
}

/// `floor(n / d * o)` with the quotient and the product each rounded to
/// double precision; `d` is not zero.
pub open spec fn floor_of_product(n: nat, d: nat, o: nat) -> nat {
    let e = (84 - quotient_shift(n, d)) as nat;
    round_to_double(quotient_significand(n, d) * o) / pow2(e)
}

/// `floor(target / side * other)` as double-precision arithmetic computes
/// it, converted to `u32` with saturation. A zero `side` makes the quotient
/// infinite (or NaN when `target` is zero as well).
pub open spec fn scale(target: u32, side: u32, other: u32) -> u32 {
    if side == 0 {
        if target == 0 || other == 0 {
            0
        } else {
            u32::MAX
        }
    } else {
        let v = floor_of_product(target as nat, side as nat, other as nat);
        if v > u32::MAX {
            u32::MAX
        } else {
            v as u32
        }
    }
}

proof fn lemma_pow2_values()
    ensures
        pow2(53) == 0x20_0000_0000_0000,
        pow2(64) == 0x1_0000_0000_0000_0000,
        pow2(84) == 0x10_0000_0000_0000_0000_0000,
        pow2(128) == 0x1_0000_0000_0000_0000_0000_0000_0000_0000,
{
    lemma2_to64();
    lemma2_to64_rest();
    lemma_pow2_adds(64, 20);
    lemma_pow2_adds(64, 64);
}

proof fn lemma_pow2_mono(a: nat, b: nat)
    requires
        a <= b,
    ensures
        pow2(a) <= pow2(b),
{
    if a < b {
        lemma_pow2_strictly_increases(a, b);
    }
}

/// An integer is below 2 to the power of its bit length.
proof fn lemma_below_bit_len(x: nat)
    ensures
        x < pow2(bit_len(x)),
    decreases x,
{
    lemma2_to64();
    if x > 0 {
        lemma_below_bit_len(x / 2);
        lemma_pow2_unfold(bit_len(x));
    }
}

/// An integer below `2^k` has at most `k` binary digits.
proof fn lemma_bit_len_at_most(x: nat, k: nat)
    requires
        x < pow2(k),
    ensures
        bit_len(x) <= k,
    decreases x,
{
    lemma2_to64();
    if x > 0 {
        if k == 0 {
            assert(false);
        } else {
            lemma_pow2_unfold(k);
            lemma_bit_len_at_most(x / 2, (k - 1) as nat);
        }
    }
}

fn pow2_exec(k: u32) -> (r: u128)
    requires
        k <= 84,
    ensures
        r == pow2(k as nat),
{
    proof {
        lemma2_to64();
        lemma_pow2_values();
    }
    let mut r: u128 = 1;
    let mut i: u32 = 0;
    while i < k
        invariant
            i <= k <= 84,
            r == pow2(i as nat),
        decreases k - i,
    {
        proof {
            lemma_pow2_values();
            lemma_pow2_unfold((i + 1) as nat);
            lemma_pow2_mono((i + 1) as nat, 84);
        }
        r = r * 2;
        i = i + 1;
    }
    r
}

fn bit_len_exec(x: u128) -> (r: u32)
    ensures
        r == bit_len(x as nat),
{
    proof {
        lemma_pow2_values();
        lemma_bit_len_at_most(x as nat, 128);
    }
    let mut v: u128 = x;
    let mut c: u32 = 0;
    while v > 0
        invariant
            bit_len(x as nat) == c + bit_len(v as nat),
            bit_len(x as nat) <= 128,
        decreases v,
    {
        v = v / 2;
        c = c + 1;
    }
    c
}

fn round_half_even_exec(n: u128, d: u128) -> (r: u128)
    requires
        0 < d,
        d < 0x8000_0000_0000_0000_0000_0000_0000_0000,
        n < u128::MAX,
    ensures
        r == round_half_even(n as nat, d as nat),
        r <= n / d + 1,
{
    let q = n / d;
    let r = n % d;
    if 2 * r < d || (2 * r == d && q % 2 == 0) {
        q
    } else {
        assert(q <= n) by (nonlinear_arith)
            requires
                q == n / d,
                d > 0,
        ;
        q + 1
    }
}

fn excess_bits_exec(len: u32) -> (r: u32)
    ensures
        r == excess_bits(len as nat),
{
    if len > 53 {
        len - 53
    } else {
        0
    }
}

/// `floor(target / side * other)` in double precision, converted to `u32`
/// with saturation.
pub fn scale_exec(target: u32, side: u32, other: u32) -> (r: u32)
    ensures
        r == scale(target, side, other),
{
    if side == 0 {
        return if target == 0 || other == 0 {
            0
        } else {
            u32::MAX
        };
    }
    proof {
        lemma_pow2_values();
    }
    let p84 = pow2_exec(84);
    assert((target as int) * pow2(84) <= 0xffff_ffff * 0x10_0000_0000_0000_0000_0000int)
        by (nonlinear_arith)
        requires
            0 <= target <= 0xffff_ffff,
            pow2(84) == 0x10_0000_0000_0000_0000_0000int,
    ;
    let numerator: u128 = (target as u128) * p84;
    let y: u128 = numerator / (side as u128);
    assert(y <= numerator) by (nonlinear_arith)
        requires
            y == numerator / (side as u128),
            side > 0,
    ;
    proof {
        lemma_pow2_mono(84, 116);
        lemma_pow2_adds(84, 32);
        lemma2_to64();
        lemma_bit_len_at_most(y as nat, 116);
        lemma_below_bit_len(y as nat);
    }
    let len = bit_len_exec(y);
    let shift = excess_bits_exec(len);
    let ps = pow2_exec(shift);
    proof {
        lemma_pow2_mono(shift as nat, 63);
        lemma_pow2_adds(32, 63);
        lemma2_to64_rest();
    }
    assert((side as int) * ps < pow2(95)) by (nonlinear_arith)
        requires
            0 < side < 0x1_0000_0000,
            0 < ps <= pow2(63),
            pow2(95) == 0x1_0000_0000 * pow2(63),
    ;
    let divisor: u128 = (side as u128) * ps;
    // the scaled quotient is below 2^bit_len, so the significand has 53 bits
    proof {
        lemma_pow2_pos(len as nat);
        if len > 53 {
            lemma_pow2_adds(shift as nat, 53);
        } else {
            lemma_pow2_mono(len as nat, 53);
        }
        assert(y + 1 <= pow2(len as nat));
        assert(pow2(len as nat) <= ps * pow2(53));
        assert(numerator < divisor * pow2(53)) by (nonlinear_arith)
            requires
                y == numerator / (side as u128),
                side > 0,
                y + 1 <= pow2(len as nat),
                pow2(len as nat) <= ps * pow2(53),
                divisor == side * ps,
        ;
        assert(numerator / divisor < pow2(53)) by (nonlinear_arith)
            requires
                numerator < divisor * pow2(53),
                divisor > 0,
        ;
    }
    let m = round_half_even_exec(numerator, divisor);
    assert((m as int) * (other as int) <= 0x20_0000_0000_0000 * 0xffff_ffff) by (nonlinear_arith)
        requires
            0 <= m <= 0x20_0000_0000_0000,
            0 <= other <= 0xffff_ffff,
    ;
    let x: u128 = m * (other as u128);
    proof {
        lemma_pow2_adds(53, 32);
        lemma_bit_len_at_most(x as nat, 85);
    }
    let len2 = bit_len_exec(x);
    let t = excess_bits_exec(len2);
    let pt = pow2_exec(t);
    proof {
        lemma_pow2_mono(t as nat, 32);
        lemma_pow2_pos(t as nat);
    }
    let k = round_half_even_exec(x, pt);
    assert((k as int) * (pt as int) <= x + pt) by (nonlinear_arith)
        requires
            k <= x / pt + 1,
            pt > 0,
    ;
    let rounded: u128 = k * pt;
    let e = 84 - shift;
    let pe = pow2_exec(e);
    proof {
        lemma_pow2_pos(e as nat);
    }
    let v: u128 = rounded / pe;
    if v > u32::MAX as u128 {
        u32::MAX
    } else {
        v as u32
    }
}

} // verus!
