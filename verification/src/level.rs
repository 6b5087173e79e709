//! Fixed-point levels. A level is a count of thousandths: `LEVEL_FULL`
//! stands for 1.0, so a fader at half is 500. Durations and instants are
//! whole milliseconds.

use vstd::prelude::*;

verus! {

/// The level that stands for 1.0.
pub const LEVEL_FULL: u32 = 1000;

/// The highest master volume, 1.5.
pub const VOLUME_LIMIT: u32 = 1500;

/// A channel value under a level: `value * level / 1000`, cut off below the
/// next integer and held to 255.
pub open spec fn scaled(value: u8, level: u32) -> u8 {
    let raw = (value as int * level as int) / (LEVEL_FULL as int);
    if raw > 255 {
        255u8
    } else {
        raw as u8
    }
}

/// Scales a channel value by a level.
pub fn scale(value: u8, level: u32) -> (r: u8)
    ensures
        r == scaled(value, level),
{
    assert(value as u64 * level as u64 <= 255 * 0xffff_ffff) by (nonlinear_arith)
        requires
            value <= 255,
            level <= 0xffff_ffff,
    ;
    let raw: u64 = (value as u64 * level as u64) / (LEVEL_FULL as u64);
    if raw > 255 {
        255
    } else {
        raw as u8
    }
}

/// Scaling stays inside a channel: at or below full level the result is no
/// larger than the value, full level keeps the value and level 0 gives 0.
pub proof fn lemma_scaled_bounds(value: u8, level: u32)
    ensures
        0 <= scaled(value, level) <= 255,
        level <= LEVEL_FULL ==> scaled(value, level) <= value,
        level == LEVEL_FULL ==> scaled(value, level) == value,
        level == 0 ==> scaled(value, level) == 0,
        value == 0 ==> scaled(value, level) == 0,
{
    let v = value as int;
    let l = level as int;
    assert(l <= 1000 ==> v * l <= v * 1000) by (nonlinear_arith)
        requires
            0 <= v,
            0 <= l,
    ;
    assert(0 <= v * l) by (nonlinear_arith)
        requires
            0 <= v,
            0 <= l,
    ;
    assert(l == 0 ==> v * l == 0) by (nonlinear_arith);
    assert(v == 0 ==> v * l == 0) by (nonlinear_arith);
}

/// A higher level never gives a lower channel value.
pub proof fn lemma_scaled_monotone(value: u8, low: u32, high: u32)
    requires
        low <= high,
    ensures
        scaled(value, low) <= scaled(value, high),
{
    let v = value as int;
    assert(v * (low as int) <= v * (high as int)) by (nonlinear_arith)
        requires
            0 <= v,
            low <= high,
    ;
    assert(0 <= v * (low as int)) by (nonlinear_arith)
        requires
            0 <= v,
            0 <= low,
    ;
}

/// How far a fade has come, in thousandths: `elapsed / fade_time`, held to
/// 1.0. A fade of no length is complete at once.
pub open spec fn fade_progress(elapsed: nat, fade_time: nat) -> nat {
    if fade_time == 0 || elapsed >= fade_time {
        LEVEL_FULL as nat
    } else {
        elapsed * (LEVEL_FULL as nat) / fade_time
    }
}

/// Computes how far a fade has come.
pub fn progress_of(elapsed: u64, fade_time: u32) -> (r: u32)
    ensures
        r == fade_progress(elapsed as nat, fade_time as nat),
        r <= LEVEL_FULL,
{
    if fade_time == 0 || elapsed >= fade_time as u64 {
        LEVEL_FULL
    } else {
        assert((elapsed as int) * 1000 / (fade_time as int) <= 1000 && (elapsed as int) * 1000 <= 0xffff_ffff * 1000) by (nonlinear_arith)
            requires
                elapsed < fade_time,
                fade_time > 0,
        ;
        (elapsed * (LEVEL_FULL as u64) / (fade_time as u64)) as u32
    }
}

/// One level under another: `a * b / 1000`.
pub open spec fn level_product(a: u32, b: u32) -> nat {
    (a as nat * b as nat) / (LEVEL_FULL as nat)
}

/// Multiplies two levels of which one is at most full.
pub fn product(a: u32, b: u32) -> (r: u32)
    requires
        a <= LEVEL_FULL || b <= LEVEL_FULL,
    ensures
        r == level_product(a, b),
{
    assert((a as u64) * (b as u64) <= 0xffff_ffff * 0xffff_ffff) by (nonlinear_arith)
        requires
            a <= 0xffff_ffff,
            b <= 0xffff_ffff,
    ;
    assert((a as int) * (b as int) / 1000 <= 0xffff_ffff) by (nonlinear_arith)
        requires
            0 <= a <= 0xffff_ffff,
            0 <= b <= 0xffff_ffff,
            a <= 1000 || b <= 1000,
    ;
    ((a as u64) * (b as u64) / (LEVEL_FULL as u64)) as u32
}

} // verus!
