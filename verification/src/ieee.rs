//! Reading levels out of IEEE 754 bit patterns. The console keeps levels
//! as integers; a remote message brings them as binary floating-point
//! numbers, which reach this library as their bit patterns.
//!
//! A finite pattern without sign stands for `mantissa * 2^(exponent -
//! bias)`, and of two such patterns the larger as an integer stands for
//! the larger number. So a range test is a comparison of patterns, and a
//! level is a rounded quotient of integers.

use vstd::prelude::*;

verus! {

/// The pattern of the single-precision number 1.0.
pub const F32_ONE: u32 = 0x3F80_0000;

/// The pattern of the single-precision number 1.5.
pub const F32_ONE_AND_HALF: u32 = 0x3FC0_0000;

/// The pattern of the single-precision number -0.0.
pub const F32_MINUS_ZERO: u32 = 0x8000_0000;

/// The pattern of the double-precision number 100.0.
pub const F64_HUNDRED: u64 = 0x4059_0000_0000_0000;

/// The pattern of the double-precision number 150.0.
pub const F64_HUNDRED_FIFTY: u64 = 0x4062_C000_0000_0000;

/// The pattern of the double-precision number -0.0.
pub const F64_MINUS_ZERO: u64 = 0x8000_0000_0000_0000;

/// 2 to the power `n`.
pub open spec fn two_to(n: nat) -> nat
    decreases n,
{
    if n == 0 {
        1
    } else {
        2 * two_to((n - 1) as nat)
    }
}

/// `n / d` rounded to the nearest integer, a half upwards.
pub open spec fn rounded_quotient(n: nat, d: nat) -> nat {
    (2 * n + d) / (2 * d)
}

/// Whether the single-precision pattern `bits` stands for a number from 0
/// to the one that `top`, a pattern without sign, stands for.
pub open spec fn f32_within(bits: u32, top: u32) -> bool {
    bits <= top || bits == F32_MINUS_ZERO
}

/// Whether the double-precision pattern `bits` stands for a number from 0
/// to the one that `top`, a pattern without sign, stands for.
pub open spec fn f64_within(bits: u64, top: u64) -> bool {
    bits <= top || bits == F64_MINUS_ZERO
}

/// The exponent field of a single-precision pattern.
pub open spec fn f32_exponent(bits: u32) -> nat {
    ((bits as nat) / 0x80_0000) % 256
}

/// The mantissa of a single-precision pattern, with the leading one of
/// a normal number.
pub open spec fn f32_mantissa(bits: u32) -> nat {
    if f32_exponent(bits) == 0 {
        (bits as nat) % 0x80_0000
    } else {
        (bits as nat) % 0x80_0000 + 0x80_0000
    }
}

/// The power of two that the mantissa of a single-precision pattern
/// below 2.0 is to be divided by.
pub open spec fn f32_shift(bits: u32) -> nat {
    if f32_exponent(bits) == 0 {
        149
    } else {
        (150 - f32_exponent(bits)) as nat
    }
}

/// The number that a single-precision pattern from 0 to below 2.0 stands
/// for, times `factor`, rounded to the nearest integer.
pub open spec fn f32_times(bits: u32, factor: nat) -> nat {
    if bits == F32_MINUS_ZERO {
        0
    } else {
        rounded_quotient(f32_mantissa(bits) * factor, two_to(f32_shift(bits)))
    }
}

/// The exponent field of a double-precision pattern.
pub open spec fn f64_exponent(bits: u64) -> nat {
    ((bits as nat) / 0x10_0000_0000_0000) % 2048
}

/// The mantissa of a double-precision pattern, with the leading one of
/// a normal number.
pub open spec fn f64_mantissa(bits: u64) -> nat {
    if f64_exponent(bits) == 0 {
        (bits as nat) % 0x10_0000_0000_0000
    } else {
        (bits as nat) % 0x10_0000_0000_0000 + 0x10_0000_0000_0000
    }
}

/// The power of two that the mantissa of a double-precision pattern
/// below 256.0 is to be divided by.
pub open spec fn f64_shift(bits: u64) -> nat {
    if f64_exponent(bits) == 0 {
        1074
    } else {
        (1075 - f64_exponent(bits)) as nat
    }
}

/// The number that a double-precision pattern from 0 to below 256.0
/// stands for, times `factor`, rounded to the nearest integer.
pub open spec fn f64_times(bits: u64, factor: nat) -> nat {
    if bits == F64_MINUS_ZERO {
        0
    } else {
        rounded_quotient(f64_mantissa(bits) * factor, two_to(f64_shift(bits)))
    }
}

proof fn lemma_two_to_grows(a: nat, b: nat)
    requires
        a <= b,
    ensures
        two_to(a) <= two_to(b),
        two_to(a) >= 1,
    decreases b,
{
    if a < b {
        lemma_two_to_grows(a, (b - 1) as nat);
    } else if a > 0 {
        lemma_two_to_grows((a - 1) as nat, (a - 1) as nat);
    }
}

proof fn lemma_two_to_62()
    ensures
        two_to(62) == 0x4000_0000_0000_0000,
{
    reveal_with_fuel(two_to, 63);
}

/// `two_to(n)` for `n` up to 62.
fn power_of_two(n: u32) -> (p: u64)
    requires
        n <= 62,
    ensures
        p == two_to(n as nat),
        1 <= p <= 0x4000_0000_0000_0000,
{
    let mut p: u64 = 1;
    let mut i: u32 = 0;
    while i < n
        invariant
            i <= n <= 62,
            p == two_to(i as nat),
            1 <= p <= 0x4000_0000_0000_0000,
        decreases n - i,
    {
        proof {
            lemma_two_to_grows((i + 1) as nat, 62);
            lemma_two_to_62();
        }
        p = p * 2;
        i = i + 1;
    }
    p
}

/// `n / 2^shift`, rounded.
fn rounded_shift(n: u64, shift: u32) -> (r: u64)
    requires
        n < 0x1000_0000_0000_0000,
    ensures
        r == rounded_quotient(n as nat, two_to(shift as nat)),
{
    if shift >= 62 {
        proof {
            lemma_two_to_grows(62, shift as nat);
            lemma_two_to_62();
            let d = two_to(shift as nat) as int;
            let m = n as int;
            assert((2 * m + d) / (2 * d) == 0) by (nonlinear_arith)
                requires
                    0 <= 2 * m < d,
            ;
        }
        0
    } else {
        let d = power_of_two(shift);
        (2 * n + d) / (2 * d)
    }
}

/// The level, in units of one `factor`-th, of a single-precision pattern
/// from 0 to 1.5.
pub fn f32_level(bits: u32, factor: u32) -> (r: u64)
    requires
        f32_within(bits, F32_ONE_AND_HALF),
        factor <= 1000,
    ensures
        r == f32_times(bits, factor as nat),
{
    if bits == F32_MINUS_ZERO {
        return 0;
    }
    let exponent = (bits / 0x80_0000) % 256;
    let fraction = bits % 0x80_0000;
    assert(exponent <= 127) by {
        assert(bits / 0x80_0000 <= 127);
    }
    let (mantissa, shift) = if exponent == 0 {
        (fraction, 149u32)
    } else {
        (fraction + 0x80_0000, 150 - exponent)
    };
    assert((mantissa as u64) * (factor as u64) <= 0x100_0000 * 1000) by (nonlinear_arith)
        requires
            mantissa <= 0x100_0000,
            factor <= 1000,
    ;
    rounded_shift(mantissa as u64 * factor as u64, shift)
}

/// The level, in units of one `factor`-th, of a double-precision pattern
/// from 0 to 150.0.
pub fn f64_level(bits: u64, factor: u32) -> (r: u64)
    requires
        f64_within(bits, F64_HUNDRED_FIFTY),
        factor <= 10,
    ensures
        r == f64_times(bits, factor as nat),
{
    if bits == F64_MINUS_ZERO {
        return 0;
    }
    let exponent = (bits / 0x10_0000_0000_0000) % 2048;
    let fraction = bits % 0x10_0000_0000_0000;
    assert(exponent <= 1030) by {
        assert(bits / 0x10_0000_0000_0000 <= 1030);
    }
    let (mantissa, shift) = if exponent == 0 {
        (fraction, 1074u32)
    } else {
        (fraction + 0x10_0000_0000_0000, (1075 - exponent) as u32)
    };
    assert(mantissa * (factor as u64) <= 0x20_0000_0000_0000 * 10) by (nonlinear_arith)
        requires
            mantissa <= 0x20_0000_0000_0000,
            factor <= 10,
    ;
    rounded_shift(mantissa * factor as u64, shift)
}

/// A quotient rounds to at most `k` where the number divided is at most
/// `k` times the divisor.
pub proof fn lemma_rounded_at_most(n: nat, d: nat, k: nat)
    requires
        d >= 1,
        n <= k * d,
    ensures
        rounded_quotient(n, d) <= k,
{
    assert((2 * n + d) / (2 * d) <= k) by (nonlinear_arith)
        requires
            d >= 1,
            n <= k * d,
    ;
}

proof fn lemma_f32_fields(bits: u32)
    requires
        bits <= F32_ONE_AND_HALF,
    ensures
        f32_exponent(bits) <= 127,
        f32_mantissa(bits) < 0x100_0000,
        f32_exponent(bits) == 127 ==> f32_mantissa(bits) <= 0xC0_0000,
        f32_exponent(bits) == 127 && bits <= F32_ONE ==> f32_mantissa(bits) <= 0x80_0000,
{
    assert(bits <= 0x3FC0_0000u32 ==> bits / 0x80_0000u32 <= 127u32) by (bit_vector);
    assert(bits % 0x80_0000u32 < 0x80_0000u32) by (bit_vector);
    assert(bits <= 0x3FC0_0000u32 && bits / 0x80_0000u32 == 127u32 ==> bits % 0x80_0000u32
        <= 0x40_0000u32) by (bit_vector);
    assert(bits <= 0x3F80_0000u32 && bits / 0x80_0000u32 == 127u32 ==> bits % 0x80_0000u32 == 0u32)
        by (bit_vector);
}

proof fn lemma_f64_fields(bits: u64)
    requires
        bits <= F64_HUNDRED_FIFTY,
    ensures
        f64_exponent(bits) <= 1030,
        f64_mantissa(bits) < 0x20_0000_0000_0000,
        f64_exponent(bits) == 1030 ==> f64_mantissa(bits) <= 0x12_C000_0000_0000,
        bits <= F64_HUNDRED ==> f64_exponent(bits) <= 1029,
        f64_exponent(bits) == 1029 && bits <= F64_HUNDRED ==> f64_mantissa(bits)
            <= 0x19_0000_0000_0000,
{
    assert(bits <= 0x4062_C000_0000_0000u64 ==> bits / 0x10_0000_0000_0000u64 <= 1030u64)
        by (bit_vector);
    assert(bits % 0x10_0000_0000_0000u64 < 0x10_0000_0000_0000u64) by (bit_vector);
    assert(bits <= 0x4062_C000_0000_0000u64 && bits / 0x10_0000_0000_0000u64 == 1030u64 ==> bits
        % 0x10_0000_0000_0000u64 <= 0x2_C000_0000_0000u64) by (bit_vector);
    assert(bits <= 0x4059_0000_0000_0000u64 ==> bits / 0x10_0000_0000_0000u64 <= 1029u64)
        by (bit_vector);
    assert(bits <= 0x4059_0000_0000_0000u64 && bits / 0x10_0000_0000_0000u64 == 1029u64 ==> bits
        % 0x10_0000_0000_0000u64 <= 0x9_0000_0000_0000u64) by (bit_vector);
}

/// A level of thousandths comes out of a pattern up to 1.5 as at most
/// 1500, and out of one up to 1.0 as at most 1000.
pub proof fn lemma_f32_level_bound(bits: u32)
    requires
        f32_within(bits, F32_ONE_AND_HALF),
    ensures
        f32_times(bits, 1000) <= 1500,
        f32_within(bits, F32_ONE) ==> f32_times(bits, 1000) <= 1000,
{
    if bits != F32_MINUS_ZERO {
        lemma_f32_fields(bits);
        let e = f32_exponent(bits);
        let m = f32_mantissa(bits);
        let d = two_to(f32_shift(bits));
        assert(two_to(23) == 0x80_0000) by {
            reveal_with_fuel(two_to, 24);
        }
        assert(two_to(24) == 0x100_0000) by {
            reveal_with_fuel(two_to, 25);
        }
        if e == 127 {
            assert(d == 0x80_0000);
        } else {
            lemma_two_to_grows(24, f32_shift(bits));
        }
        assert(m * 1000 <= 1500 * d) by (nonlinear_arith)
            requires
                (e == 127 && m <= 0xC0_0000 && d == 0x80_0000) || (m < 0x100_0000 && d
                    >= 0x100_0000),
        ;
        lemma_rounded_at_most(m * 1000, d, 1500);
        if f32_within(bits, F32_ONE) {
            assert(m * 1000 <= 1000 * d) by (nonlinear_arith)
                requires
                    (e == 127 && m <= 0x80_0000 && d == 0x80_0000) || (m < 0x100_0000 && d
                        >= 0x100_0000),
            ;
            lemma_rounded_at_most(m * 1000, d, 1000);
        }
    }
}

/// A level of thousandths comes out of a percentage pattern up to 150.0
/// as at most 1500, and out of one up to 100.0 as at most 1000.
pub proof fn lemma_f64_level_bound(bits: u64)
    requires
        f64_within(bits, F64_HUNDRED_FIFTY),
    ensures
        f64_times(bits, 10) <= 1500,
        f64_within(bits, F64_HUNDRED) ==> f64_times(bits, 10) <= 1000,
{
    if bits != F64_MINUS_ZERO {
        lemma_f64_fields(bits);
        let e = f64_exponent(bits);
        let m = f64_mantissa(bits);
        let d = two_to(f64_shift(bits));
        assert(two_to(45) == 0x2000_0000_0000) by {
            reveal_with_fuel(two_to, 46);
        }
        assert(two_to(46) == 0x4000_0000_0000) by {
            reveal_with_fuel(two_to, 47);
        }
        assert(two_to(47) == 0x8000_0000_0000) by {
            reveal_with_fuel(two_to, 48);
        }
        if e < 1029 {
            lemma_two_to_grows(47, f64_shift(bits));
        }
        assert(m * 10 <= 1500 * d) by (nonlinear_arith)
            requires
                (m <= 0x12_C000_0000_0000 && d == 0x2000_0000_0000) || (m < 0x20_0000_0000_0000
                    && d == 0x4000_0000_0000) || (m < 0x20_0000_0000_0000 && d
                    >= 0x8000_0000_0000),
        ;
        lemma_rounded_at_most(m * 10, d, 1500);
        if f64_within(bits, F64_HUNDRED) {
            assert(m * 10 <= 1000 * d) by (nonlinear_arith)
                requires
                    (m <= 0x19_0000_0000_0000 && d == 0x4000_0000_0000) || (m
                        < 0x20_0000_0000_0000 && d >= 0x8000_0000_0000),
            ;
            lemma_rounded_at_most(m * 10, d, 1000);
        }
    }
}

} // verus!
