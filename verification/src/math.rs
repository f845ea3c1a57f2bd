//! Exact rational arithmetic for prices and derivatives.
//!
//! Prices and swap-output derivatives are reported as exact unsigned
//! rationals rather than floating point: reserve ratios span many orders of
//! magnitude and floating-point cancellation can flip a derivative's sign.

use vstd::prelude::*;
use crate::W256;
use vstd::arithmetic::div_mod::{
    lemma_div_by_self, lemma_div_is_ordered, lemma_div_pos_is_pos, lemma_fundamental_div_mod,
    lemma_fundamental_div_mod_converse, lemma_mod_bound,
};

verus! {

/// An exact non-negative rational number; the denominator is never zero.
#[derive(Clone, Copy, PartialEq, Eq, Structural, Debug)]
pub struct Ratio {
    pub num: u128,
    pub den: u128,
}

impl Ratio {
    /// A ratio is well formed when its denominator is positive.
    pub open spec fn wf(self) -> bool {
        self.den > 0
    }
}

/// Ten to the power `n`.
pub open spec fn pow10(n: nat) -> nat
    decreases n,
{
    if n == 0 {
        1
    } else {
        10 * pow10((n - 1) as nat)
    }
}

/// Powers of ten are positive.
pub proof fn lemma_pow10_pos(n: nat)
    ensures
        pow10(n) >= 1,
    decreases n,
{
    if n > 0 {
        lemma_pow10_pos((n - 1) as nat);
    }
}

/// Powers of ten grow with the exponent.
pub proof fn lemma_pow10_mono(a: nat, b: nat)
    requires
        a <= b,
    ensures
        pow10(a) <= pow10(b),
    decreases b,
{
    if a < b {
        lemma_pow10_mono(a, (b - 1) as nat);
        lemma_pow10_pos((b - 1) as nat);
    }
}

/// The largest power of ten a 128-bit word can hold.
pub proof fn lemma_pow10_38_value()
    ensures
        pow10(38) == 100000000000000000000000000000000000000,
{
    assert(pow10(38) == 100000000000000000000000000000000000000) by {
        reveal_with_fuel(pow10, 39);
    }
}

/// Computes a power of ten that fits a 128-bit word.
pub fn pow10_u128(d: u8) -> (r: u128)
    requires
        d <= 38,
    ensures
        r == pow10(d as nat),
{
    let mut acc: u128 = 1;
    let mut i: u8 = 0;
    while i < d
        invariant
            i <= d,
            d <= 38,
            acc == pow10(i as nat),
        decreases d as int - i as int,
    {
        proof {
            lemma_pow10_mono((i + 1) as nat, 38);
            lemma_pow10_38_value();
            assert(pow10((i + 1) as nat) == 10 * pow10(i as nat));
        }
        acc = acc * 10;
        i = i + 1;
    }
    acc
}

/// Ceiling division of non-negative `a` by positive `b`.
pub open spec fn ceil_div(a: int, b: int) -> int {
    (a + b - 1) / b
}

/// Floor division matches ceiling division shifted by the remainder test.
pub proof fn lemma_ceil_div_split(a: int, b: int)
    requires
        a >= 0,
        b >= 1,
    ensures
        a % b == 0 ==> ceil_div(a, b) == a / b,
        a % b != 0 ==> ceil_div(a, b) == a / b + 1,
{
    let q = a / b;
    let r = a % b;
    lemma_fundamental_div_mod(a, b);
    if r == 0 {
        lemma_fundamental_div_mod_converse(a + b - 1, b, q, b - 1);
    } else {
        assert((q + 1) * b + (r - 1) == q * b + b + r - 1) by (nonlinear_arith);
        lemma_fundamental_div_mod_converse(a + b - 1, b, q + 1, r - 1);
    }
}

/// Ceiling division never exceeds a bound whose multiple covers the
/// numerator.
pub proof fn lemma_ceil_div_le(a: int, b: int, c: int)
    requires
        a >= 0,
        b >= 1,
        a <= b * c,
    ensures
        ceil_div(a, b) <= c,
{
    assert(b * c >= 0);
    assert(b * c + b - 1 == c * b + (b - 1));
    lemma_fundamental_div_mod_converse(b * c + b - 1, b, c, b - 1);
    lemma_div_is_ordered(a + b - 1, b * c + b - 1, b);
}

/// Ceiling division of a positive numerator is positive.
pub proof fn lemma_ceil_div_ge_one(a: int, b: int)
    requires
        a >= 1,
        b >= 1,
    ensures
        ceil_div(a, b) >= 1,
{
    lemma_div_by_self(b);
    lemma_div_is_ordered(b, a + b - 1, b);
}

/// Ceiling division is non-negative on non-negative numerators.
pub proof fn lemma_ceil_div_nonneg(a: int, b: int)
    requires
        a >= 0,
        b >= 1,
    ensures
        ceil_div(a, b) >= 0,
{
    lemma_div_pos_is_pos(a + b - 1, b);
}

/// One below the ceiling quotient multiplies back to below the numerator.
pub proof fn lemma_ceil_div_minus_one(a: int, b: int)
    requires
        a >= 0,
        b >= 1,
    ensures
        (ceil_div(a, b) - 1) * b < a,
{
    let q = (a + b - 1) / b;
    lemma_fundamental_div_mod(a + b - 1, b);
    lemma_mod_bound(a + b - 1, b);
    assert((q - 1) * b == b * q - b) by (nonlinear_arith);
}

/// A floor quotient stays below a bound whose multiple exceeds the
/// numerator.
pub proof fn lemma_div_lt(a: int, b: int, c: int)
    requires
        a >= 0,
        b >= 1,
        c >= 0,
        a < b * c,
    ensures
        a / b < c,
{
    let q = a / b;
    lemma_fundamental_div_mod(a, b);
    lemma_mod_bound(a, b);
    assert(q >= c ==> b * q >= b * c) by (nonlinear_arith)
        requires
            b >= 1,
    ;
}

/// A floor quotient reaches a bound whose multiple the numerator covers.
pub proof fn lemma_div_ge(a: int, b: int, c: int)
    requires
        b >= 1,
        c >= 0,
        a >= b * c,
    ensures
        a / b >= c,
{
    let q = a / b;
    lemma_fundamental_div_mod(a, b);
    lemma_mod_bound(a, b);
    assert(q <= c - 1 ==> b * q <= b * (c - 1) && b * (c - 1) == b * c - b) by (nonlinear_arith)
        requires
            b >= 1,
    ;
}

/// A floor quotient of non-negative values is non-negative.
pub proof fn lemma_div_nonneg(a: int, b: int)
    requires
        a >= 0,
        b >= 1,
    ensures
        a / b >= 0,
{
    lemma_div_pos_is_pos(a, b);
}

/// Ceiling division on machine words.
pub fn ceil_div_u128(a: u128, b: u128) -> (r: u128)
    requires
        b >= 1,
    ensures
        r == ceil_div(a as int, b as int),
{
    let q = a / b;
    let rem = a % b;
    proof {
        lemma_ceil_div_split(a as int, b as int);
        lemma_fundamental_div_mod(a as int, b as int);
        if rem != 0 {
            assert((b as int) * (q as int) >= q as int) by (nonlinear_arith)
                requires
                    b as int >= 1,
                    q as int >= 0,
            ;
            assert(q < a);
        }
    }
    if rem == 0 {
        q
    } else {
        q + 1
    }
}

/// Two to the 128th power.
pub open spec fn pow2_128() -> int {
    340282366920938463463374607431768211456int
}

/// The integer value of a 256-bit word.
pub open spec fn w256_val(w: W256) -> int {
    w.hi * pow2_128() + w.lo
}

/// The 256-bit word holding a non-negative integer below two to the 256th.
pub open spec fn w256_of(v: int) -> W256 {
    W256 { hi: (v / pow2_128()) as u128, lo: (v % pow2_128()) as u128 }
}

/// A word round-trips through its value.
pub proof fn lemma_w256_of_val(w: W256)
    ensures
        w256_of(w256_val(w)) == w,
{
    let p: int = pow2_128();
    let v = w256_val(w);
    lemma_fundamental_div_mod_converse(v, p, w.hi as int, w.lo as int);
}

/// A 128-bit value widens into the low half of a word.
pub proof fn lemma_w256_small(v: u128)
    ensures
        w256_of(v as int) == (W256 { hi: 0, lo: v }),
        w256_val(W256 { hi: 0, lo: v }) == v,
{
    lemma_w256_of_val(W256 { hi: 0, lo: v });
}

/// An exact non-negative rational number in 256-bit words; the denominator
/// is never zero. Wide enough to carry an output derivative exactly for
/// every state on which a swap can be simulated.
#[derive(Clone, Copy, PartialEq, Eq, Structural, Debug)]
pub struct WideRatio {
    pub num: W256,
    pub den: W256,
}

impl WideRatio {
    /// A ratio is well formed when its denominator is positive.
    pub open spec fn wf(self) -> bool {
        w256_val(self.den) > 0
    }
}

/// Full 256-bit product of two 128-bit words.
pub fn mul_u128(a: u128, b: u128) -> (r: W256)
    ensures
        w256_val(r) == (a as int) * (b as int),
{
    let base: u128 = 0x10000000000000000;
    let al = a % base;
    let ah = a / base;
    let bl = b % base;
    let bh = b / base;
    proof {
        lemma_fundamental_div_mod((a as int), (base as int));
        lemma_fundamental_div_mod((b as int), (base as int));
        lemma_mod_bound((a as int), (base as int));
        lemma_mod_bound((b as int), (base as int));
        assert(ah < base && bh < base) by (nonlinear_arith)
            requires
                (a as int) == (base as int) * (ah as int) + (al as int),
                (b as int) == (base as int) * (bh as int) + (bl as int),
                base == 0x10000000000000000,
                a <= u128::MAX,
                b <= u128::MAX,
                al >= 0,
                bl >= 0,
                ah >= 0,
                bh >= 0,
        ;
        assert((al as int) * (bl as int) < (base as int) * (base as int) && (ah as int) * (bl as int) < (base
            as int - 1) * (base as int) && (al as int) * (bh as int) < ((base as int) - 1) * (base as int)
            && (ah as int) * (bh as int) <= ((base as int) - 1) * ((base as int) - 1)) by (nonlinear_arith)
            requires
                al < base,
                ah < base,
                bl < base,
                bh < base,
                base == 0x10000000000000000,
        ;
    }
    let t0 = al * bl;
    let t1 = ah * bl + t0 / base;
    proof {
        lemma_fundamental_div_mod((t0 as int), (base as int));
        lemma_mod_bound((t0 as int), (base as int));
        assert((t0 as int) / (base as int) < base) by (nonlinear_arith)
            requires
                (t0 as int) == (al as int) * (bl as int),
                al < base,
                bl < base,
                (base as int) * ((t0 as int) / (base as int)) + (t0 as int) % (base as int) == (t0 as int),
                (t0 as int) % (base as int) >= 0,
                base == 0x10000000000000000,
        ;
    }
    let t2 = al * bh + t1 % base;
    proof {
        lemma_fundamental_div_mod((t1 as int), (base as int));
        lemma_mod_bound((t1 as int), (base as int));
        lemma_fundamental_div_mod((t2 as int), (base as int));
        lemma_mod_bound((t2 as int), (base as int));
        assert((t1 as int) / (base as int) < base && (t2 as int) / (base as int) < base)
            by (nonlinear_arith)
            requires
                (t1 as int) <= ((base as int) - 1) * (base as int) + ((base as int) - 1),
                (t2 as int) <= ((base as int) - 1) * (base as int) + ((base as int) - 1),
                (base as int) * ((t1 as int) / (base as int)) + (t1 as int) % (base as int) == (t1 as int),
                (base as int) * ((t2 as int) / (base as int)) + (t2 as int) % (base as int) == (t2 as int),
                (t1 as int) % (base as int) >= 0,
                (t2 as int) % (base as int) >= 0,
                base == 0x10000000000000000,
        ;
    }
    let lo = t0 % base + (t2 % base) * base;
    let hi = ah * bh + t1 / base + t2 / base;
    proof {
        let bi = (base as int);
        let p: int = pow2_128();
        assert(p == bi * bi);
        assert((hi as int) * p + (lo as int) == (a as int) * (b as int)) by (nonlinear_arith)
            requires
                p == bi * bi,
                bi == 0x10000000000000000,
                (a as int) == bi * (ah as int) + (al as int),
                (b as int) == bi * (bh as int) + (bl as int),
                (t0 as int) == (al as int) * (bl as int),
                (t1 as int) == (ah as int) * (bl as int) + (t0 as int) / bi,
                (t2 as int) == (al as int) * (bh as int) + (t1 as int) % bi,
                bi * ((t0 as int) / bi) + (t0 as int) % bi == (t0 as int),
                bi * ((t1 as int) / bi) + (t1 as int) % bi == (t1 as int),
                bi * ((t2 as int) / bi) + (t2 as int) % bi == (t2 as int),
                (lo as int) == (t0 as int) % bi + ((t2 as int) % bi) * bi,
                (hi as int) == (ah as int) * (bh as int) + (t1 as int) / bi + (t2 as int) / bi,
        ;
    }
    W256 { hi, lo }
}

} // verus!
