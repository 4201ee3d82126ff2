//! Decimal text for binary floating-point quantities, computed exactly on
//! integers: the value an integer takes as an `f64`, and one-decimal
//! rounding of a binary fraction.

use vstd::prelude::*;
use crate::text::{append_chars, decimal, decimal_chars, digit_char};

verus! {

/// Integers below this are exact as `f64` (53 significant bits).
pub const F64_EXACT: u128 = 0x20_0000_0000_0000;

/// The power of two by which an integer is scaled when it is held as an
/// `f64`: the least `p = 2^s` (starting from `p`) that leaves fewer than 53
/// significant bits.
pub open spec fn f64_scale_from(x: nat, p: nat) -> nat
    decreases x - p,
{
    if p == 0 || x < F64_EXACT * p {
        p
    } else {
        f64_scale_from(x, 2 * p)
    }
}

/// `a / b` rounded to the nearest integer, ties to the even one.
pub open spec fn round_half_even(a: nat, b: nat) -> nat {
    let q = a / b;
    let r = a % b;
    if 2 * r > b || (2 * r == b && q % 2 == 1) {
        q + 1
    } else {
        q
    }
}

/// The value that the integer `x` takes as an `f64` (`x as f64`): rounded
/// to 53 significant bits, ties to even.
pub open spec fn f64_value(x: nat) -> nat {
    let p = f64_scale_from(x, 1);
    round_half_even(x, p) * p
}

/// `num / den` written with one decimal, rounded half to even (what
/// `{:.1}` prints for that exact binary fraction).
pub open spec fn one_decimal(num: nat, den: nat) -> Seq<char> {
    let t = round_half_even(num * 10, den);
    decimal(t / 10) + seq!['.', digit_char(t % 10)]
}

proof fn lemma_scale_props(x: nat, p: nat)
    requires
        p >= 1,
        is_pow2(p),
    ensures
        f64_scale_from(x, p) >= p,
        is_pow2(f64_scale_from(x, p)),
    decreases x - p,
{
    if !(x < F64_EXACT * p) {
        lemma_scale_props(x, 2 * p);
    }
}

/// `p` is a power of two.
pub open spec fn is_pow2(p: nat) -> bool
    decreases p,
{
    if p == 1 {
        true
    } else if p < 1 || p % 2 != 0 {
        false
    } else {
        is_pow2(p / 2)
    }
}

fn round_half_even_exec(a: u128, b: u128) -> (r: u128)
    requires
        b > 0,
        a / b < u128::MAX,
    ensures
        r == round_half_even(a as nat, b as nat),
{
    let q = a / b;
    let r = a % b;
    if r > b - r || (r == b - r && q % 2 == 1) {
        q + 1
    } else {
        q
    }
}

/// The value of `x as f64`, as an exact integer.
pub fn f64_of(x: u128) -> (r: u128)
    requires
        x <= 0x2_0000_0000_0000_0000,
    ensures
        r == f64_value(x as nat),
        r <= 2 * (x as nat) + 1,
{
    let ghost xs = x as nat;
    let xx = x;
    let mut p: u128 = 1;
    proof {
        lemma_scale_props(xs, 1);
    }
    while !(xx < F64_EXACT * p)
        invariant
            1 <= p <= xx + 1,
            xx == xs,
            xx <= 0x2_0000_0000_0000_0000,
            is_pow2(p as nat),
            f64_scale_from(xs, 1) == f64_scale_from(xs, p as nat),
        decreases xx - p,
    {
        p = 2 * p;
    }
    proof {
        lemma_scale_props(xs, p as nat);
    }
    assert(xx / p < F64_EXACT) by (nonlinear_arith)
        requires
            xx < F64_EXACT * p,
            p >= 1,
    {
    }
    let q = round_half_even_exec(xx, p);
    assert(q * p <= xx + p) by (nonlinear_arith)
        requires
            q <= xx / p + 1,
            p >= 1,
    {
    }
    q * p
}

fn digit_of(d: u128) -> (c: char)
    requires
        d < 10,
    ensures
        c == digit_char(d as nat),
{
    let v = decimal_chars(d);
    v[0]
}

/// Writes `num / den` with one decimal, rounded half to even.
pub fn one_decimal_chars(num: u128, den: u128) -> (r: Vec<char>)
    requires
        den > 0,
        num < 0x1_0000_0000_0000_0000_0000_0000_0000,
    ensures
        r@ == one_decimal(num as nat, den as nat),
{
    let t = round_half_even_exec(num * 10, den);
    let mut out = decimal_chars(t / 10);
    out.push('.');
    out.push(digit_of(t % 10));
    out
}

} // verus!
