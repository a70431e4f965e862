//! Integer values of the machine's typed operations, held as their bits.
//!
//! A value of type `t` is held in a `u64` below `modulus(t)`; signed types use
//! two's complement. Every operation is modular at the type's bit width.
use vstd::prelude::*;
use vstd::arithmetic::div_mod::{lemma_fundamental_div_mod, lemma_fundamental_div_mod_converse};
use crate::ops::{OpType, type_size, is_signed};

verus! {

/// 2 to the power `n`.
pub open spec fn two_pow(n: nat) -> nat
    decreases n,
{
    if n == 0 {
        1
    } else {
        2 * two_pow((n - 1) as nat)
    }
}

/// The number of distinct values of type `t`.
pub open spec fn modulus(t: OpType) -> int {
    match t {
        OpType::U8 | OpType::I8 => 0x100,
        OpType::U16 | OpType::I16 => 0x1_0000,
        OpType::U32 | OpType::I32 | OpType::F32 => 0x1_0000_0000,
        _ => 0x1_0000_0000_0000_0000,
    }
}

/// Width of type `t` in bits.
pub open spec fn bit_width(t: OpType) -> nat {
    8 * type_size(t)
}

/// `v` is the bits of a value of type `t`.
pub open spec fn fits(t: OpType, v: u64) -> bool {
    v < modulus(t)
}

/// The bits of type `t` that stand for the integer `x` (modular reduction).
pub open spec fn wrap(t: OpType, x: int) -> u64 {
    (x % modulus(t)) as u64
}

/// The integer that the bits `v` of type `t` stand for.
pub open spec fn signed_value(t: OpType, v: u64) -> int {
    if is_signed(t) && v >= modulus(t) / 2 {
        v - modulus(t)
    } else {
        v as int
    }
}

pub open spec fn abs(x: int) -> int {
    if x < 0 {
        -x
    } else {
        x
    }
}

/// Integer division rounding toward zero.
pub open spec fn trunc_div(x: int, y: int) -> int {
    if (x < 0) != (y < 0) {
        -(abs(x) / abs(y))
    } else {
        abs(x) / abs(y)
    }
}

/// The remainder of `trunc_div`, with the sign of the dividend.
pub open spec fn trunc_rem(x: int, y: int) -> int {
    if x < 0 {
        -(abs(x) % abs(y))
    } else {
        abs(x) % abs(y)
    }
}

/// The shift distance that a shift by `s` uses at type `t`.
pub open spec fn shift_amount(t: OpType, s: u8) -> nat {
    (s as nat % bit_width(t)) as nat
}

pub open spec fn add_spec(t: OpType, a: u64, b: u64) -> u64 {
    wrap(t, a + b)
}

pub open spec fn sub_spec(t: OpType, a: u64, b: u64) -> u64 {
    wrap(t, a - b)
}

pub open spec fn mul_spec(t: OpType, a: u64, b: u64) -> u64 {
    wrap(t, a * b)
}

pub open spec fn div_spec(t: OpType, a: u64, b: u64) -> u64 {
    wrap(t, trunc_div(signed_value(t, a), signed_value(t, b)))
}

pub open spec fn rem_spec(t: OpType, a: u64, b: u64) -> u64 {
    wrap(t, trunc_rem(signed_value(t, a), signed_value(t, b)))
}

pub open spec fn shl_spec(t: OpType, a: u64, s: u8) -> u64 {
    wrap(t, a * two_pow(shift_amount(t, s)))
}

/// Logical shift for unsigned types, arithmetic shift for signed ones.
pub open spec fn shr_spec(t: OpType, a: u64, s: u8) -> u64 {
    wrap(t, signed_value(t, a) / (two_pow(shift_amount(t, s)) as int))
}

pub open spec fn not_spec(t: OpType, a: u64) -> u64 {
    wrap(t, (!a) as int)
}

/// Conversion of the bits `a` of type `t` to type `u`.
pub open spec fn convert_spec(t: OpType, u: OpType, a: u64) -> u64 {
    wrap(u, signed_value(t, a))
}

pub open spec fn less_spec(t: OpType, a: u64, b: u64) -> bool {
    signed_value(t, a) < signed_value(t, b)
}

pub fn modulus_of(t: OpType) -> (m: u128)
    ensures
        m == modulus(t),
{
    match t {
        OpType::U8 | OpType::I8 => 0x100,
        OpType::U16 | OpType::I16 => 0x1_0000,
        OpType::U32 | OpType::I32 | OpType::F32 => 0x1_0000_0000,
        _ => 0x1_0000_0000_0000_0000,
    }
}

/// The bits of type `t` for a natural number.
pub fn wrap_nat(t: OpType, x: u128) -> (r: u64)
    ensures
        r == wrap(t, x as int),
        fits(t, r),
{
    let m = modulus_of(t);
    (x % m) as u64
}

/// The bits of type `t` for an integer.
pub fn wrap_int(t: OpType, x: i128) -> (r: u64)
    requires
        -0x1_0000_0000_0000_0000_0000 < x < 0x1_0000_0000_0000_0000_0000,
    ensures
        r == wrap(t, x as int),
        fits(t, r),
{
    let m = modulus_of(t);
    if x >= 0 {
        (x as u128 % m) as u64
    } else {
        let n = (-x) as u128;
        let r = n % m;
        proof {
            let mi = m as int;
            lemma_fundamental_div_mod(n as int, mi);
            let q = n as int / mi;
            if r == 0 {
                assert(x as int == (-q) * mi + 0) by (nonlinear_arith)
                    requires
                        n as int == q * mi + r as int,
                        x as int == -(n as int),
                        r == 0,
                ;
                lemma_fundamental_div_mod_converse(x as int, mi, -q, 0);
            } else {
                assert(x as int == (-q - 1) * mi + (mi - r as int)) by (nonlinear_arith)
                    requires
                        n as int == q * mi + r as int,
                        x as int == -(n as int),
                ;
                lemma_fundamental_div_mod_converse(x as int, mi, -q - 1, mi - r as int);
            }
        }
        if r == 0 {
            0
        } else {
            (m - r) as u64
        }
    }
}

/// The integer that the bits `v` of type `t` stand for.
pub fn value_of(t: OpType, v: u64) -> (x: i128)
    requires
        fits(t, v),
    ensures
        x == signed_value(t, v),
        -0x1_0000_0000_0000_0000 <= x < 0x1_0000_0000_0000_0000,
{
    let m = modulus_of(t);
    if t.is_signed() && v as u128 >= m / 2 {
        v as i128 - m as i128
    } else {
        v as i128
    }
}

pub fn add_bits(t: OpType, a: u64, b: u64) -> (r: u64)
    requires
        fits(t, a),
        fits(t, b),
    ensures
        r == add_spec(t, a, b),
        fits(t, r),
{
    wrap_nat(t, a as u128 + b as u128)
}

pub fn sub_bits(t: OpType, a: u64, b: u64) -> (r: u64)
    requires
        fits(t, a),
        fits(t, b),
    ensures
        r == sub_spec(t, a, b),
        fits(t, r),
{
    wrap_int(t, a as i128 - b as i128)
}

pub fn mul_bits(t: OpType, a: u64, b: u64) -> (r: u64)
    requires
        fits(t, a),
        fits(t, b),
    ensures
        r == mul_spec(t, a, b),
        fits(t, r),
{
    assert(a as int * b as int <= u128::MAX) by (nonlinear_arith)
        requires
            a <= u64::MAX,
            b <= u64::MAX,
    ;
    wrap_nat(t, a as u128 * b as u128)
}

fn magnitude(x: i128) -> (r: u128)
    requires
        -0x1_0000_0000_0000_0000 <= x < 0x1_0000_0000_0000_0000,
    ensures
        r == abs(x as int),
{
    if x < 0 {
        (-x) as u128
    } else {
        x as u128
    }
}

pub fn div_bits(t: OpType, a: u64, b: u64) -> (r: u64)
    requires
        fits(t, a),
        fits(t, b),
        b != 0,
    ensures
        r == div_spec(t, a, b),
        fits(t, r),
{
    let x = value_of(t, a);
    let y = value_of(t, b);
    let mx = magnitude(x);
    let q = mx / magnitude(y);
    assert(q <= mx) by {
        vstd::arithmetic::div_mod::lemma_div_is_ordered_by_denominator(abs(x as int), 1, abs(y as int));
    }
    if (x < 0) != (y < 0) {
        wrap_int(t, -(q as i128))
    } else {
        wrap_int(t, q as i128)
    }
}

pub fn rem_bits(t: OpType, a: u64, b: u64) -> (r: u64)
    requires
        fits(t, a),
        fits(t, b),
        b != 0,
    ensures
        r == rem_spec(t, a, b),
        fits(t, r),
{
    let x = value_of(t, a);
    let y = value_of(t, b);
    let q = magnitude(x) % magnitude(y);
    if x < 0 {
        wrap_int(t, -(q as i128))
    } else {
        wrap_int(t, q as i128)
    }
}

pub fn neg_bits(t: OpType, a: u64) -> (r: u64)
    requires
        fits(t, a),
    ensures
        r == wrap(t, -a),
        fits(t, r),
{
    wrap_int(t, -(a as i128))
}

pub fn inc_bits(t: OpType, a: u64) -> (r: u64)
    requires
        fits(t, a),
    ensures
        r == wrap(t, a + 1),
        fits(t, r),
{
    wrap_nat(t, a as u128 + 1)
}

pub fn dec_bits(t: OpType, a: u64) -> (r: u64)
    requires
        fits(t, a),
    ensures
        r == wrap(t, a - 1),
        fits(t, r),
{
    wrap_int(t, a as i128 - 1)
}

/// 2 to the power `n`, for `n` below 64.
fn power_of_two(n: u32) -> (p: u128)
    requires
        n < 64,
    ensures
        p == two_pow(n as nat),
        p <= 0x8000_0000_0000_0000,
{
    let mut p: u128 = 1;
    let mut i: u32 = 0;
    proof {
        reveal_with_fuel(two_pow, 64);
        assert(two_pow(63) == 0x8000_0000_0000_0000);
    }
    while i < n
        invariant
            i <= n < 64,
            p == two_pow(i as nat),
            p <= 0x8000_0000_0000_0000,
            i < 64 ==> p * two_pow((63 - i) as nat) == 0x8000_0000_0000_0000,
        decreases n - i,
    {
        proof {
            assert(two_pow((63 - i) as nat) == 2 * two_pow((63 - i - 1) as nat));
        }
        p = p * 2;
        i = i + 1;
        proof {
            assert(two_pow(i as nat) == 2 * two_pow((i - 1) as nat));
            assert(p * two_pow((63 - i) as nat) == 0x8000_0000_0000_0000) by (nonlinear_arith)
                requires
                    (p / 2) * (2 * two_pow((63 - i) as nat)) == 0x8000_0000_0000_0000,
                    p % 2 == 0,
            ;
            assert(two_pow((63 - i) as nat) >= 1) by {
                lemma_two_pow_positive((63 - i) as nat);
            }
            assert(p <= 0x8000_0000_0000_0000) by (nonlinear_arith)
                requires
                    p * two_pow((63 - i) as nat) == 0x8000_0000_0000_0000,
                    two_pow((63 - i) as nat) >= 1,
            ;
        }
    }
    p
}

pub proof fn lemma_two_pow_positive(n: nat)
    ensures
        two_pow(n) >= 1,
    decreases n,
{
    if n > 0 {
        lemma_two_pow_positive((n - 1) as nat);
    }
}

fn shift_of(t: OpType, s: u8) -> (r: u32)
    ensures
        r == shift_amount(t, s),
        r < 64,
{
    let w = (t.size() * 8) as u32;
    (s as u32) % w
}

pub fn shl_bits(t: OpType, a: u64, s: u8) -> (r: u64)
    requires
        fits(t, a),
    ensures
        r == shl_spec(t, a, s),
        fits(t, r),
{
    let p = power_of_two(shift_of(t, s));
    assert(a as int * p as int <= u128::MAX) by (nonlinear_arith)
        requires
            a <= u64::MAX,
            p <= 0x8000_0000_0000_0000,
    ;
    wrap_nat(t, a as u128 * p)
}

pub fn shr_bits(t: OpType, a: u64, s: u8) -> (r: u64)
    requires
        fits(t, a),
    ensures
        r == shr_spec(t, a, s),
        fits(t, r),
{
    let x = value_of(t, a);
    let p = power_of_two(shift_of(t, s));
    proof {
        lemma_two_pow_positive(shift_amount(t, s));
    }
    if x >= 0 {
        let q = x as u128 / p;
        assert(q <= x) by {
            vstd::arithmetic::div_mod::lemma_div_is_ordered_by_denominator(x as int, 1, p as int);
        }
        wrap_int(t, q as i128)
    } else {
        let n = (-x) as u128;
        let q = (n + p - 1) / p;
        proof {
            let pi = p as int;
            let k = (n + p - 1) as int;
            lemma_fundamental_div_mod(k, pi);
            let r = k % pi;
            assert(x as int == (-q as int) * pi + (pi - 1 - r)) by (nonlinear_arith)
                requires
                    k == q as int * pi + r,
                    k == n as int + pi - 1,
                    x as int == -(n as int),
            ;
            lemma_fundamental_div_mod_converse(x as int, pi, -q as int, pi - 1 - r);
            vstd::arithmetic::div_mod::lemma_div_is_ordered_by_denominator(k, 1, pi);
        }
        wrap_int(t, -(q as i128))
    }
}

pub fn and_bits(t: OpType, a: u64, b: u64) -> (r: u64)
    requires
        fits(t, a),
        fits(t, b),
    ensures
        r == a & b,
        fits(t, r),
{
    assert(a & b <= a) by (bit_vector);
    a & b
}

proof fn lemma_or_xor_fit(a: u64, b: u64)
    ensures
        a < 0x100 && b < 0x100 ==> (a | b) < 0x100 && (a ^ b) < 0x100,
        a < 0x1_0000 && b < 0x1_0000 ==> (a | b) < 0x1_0000 && (a ^ b) < 0x1_0000,
        a < 0x1_0000_0000 && b < 0x1_0000_0000 ==> (a | b) < 0x1_0000_0000 && (a ^ b)
            < 0x1_0000_0000,
{
    assert(a < 0x100 && b < 0x100 ==> (a | b) < 0x100 && (a ^ b) < 0x100) by (bit_vector);
    assert(a < 0x1_0000 && b < 0x1_0000 ==> (a | b) < 0x1_0000 && (a ^ b) < 0x1_0000)
        by (bit_vector);
    assert(a < 0x1_0000_0000 && b < 0x1_0000_0000 ==> (a | b) < 0x1_0000_0000 && (a ^ b)
        < 0x1_0000_0000) by (bit_vector);
}

pub fn or_bits(t: OpType, a: u64, b: u64) -> (r: u64)
    requires
        fits(t, a),
        fits(t, b),
    ensures
        r == a | b,
        fits(t, r),
{
    proof {
        lemma_or_xor_fit(a, b);
    }
    a | b
}

pub fn xor_bits(t: OpType, a: u64, b: u64) -> (r: u64)
    requires
        fits(t, a),
        fits(t, b),
    ensures
        r == a ^ b,
        fits(t, r),
{
    proof {
        lemma_or_xor_fit(a, b);
    }
    a ^ b
}

pub fn not_bits(t: OpType, a: u64) -> (r: u64)
    ensures
        r == not_spec(t, a),
        fits(t, r),
{
    wrap_nat(t, (!a) as u128)
}

pub fn convert_bits(t: OpType, u: OpType, a: u64) -> (r: u64)
    requires
        fits(t, a),
    ensures
        r == convert_spec(t, u, a),
        fits(u, r),
{
    wrap_int(u, value_of(t, a))
}

pub fn less_bits(t: OpType, a: u64, b: u64) -> (r: bool)
    requires
        fits(t, a),
        fits(t, b),
    ensures
        r == less_spec(t, a, b),
{
    value_of(t, a) < value_of(t, b)
}

} // verus!
