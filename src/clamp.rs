use vstd::prelude::*;

verus! {

/// `v` limited from above by `max`.
pub open spec fn clamp_max(v: int, max: int) -> int {
    if v > max {
        max
    } else {
        v
    }
}

/// `v` limited to `0 ..= max`.
pub open spec fn saturate(v: int, max: int) -> int {
    if v < 0 {
        0
    } else {
        clamp_max(v, max)
    }
}

/// The absolute value, capped at `i32::MAX` (the one value it caps is `|i32::MIN|`).
pub open spec fn abs_capped(v: int) -> int {
    clamp_max(if v < 0 { -v } else { v }, i32::MAX as int)
}

fn saturating_abs_i32(value: i32) -> (r: u32)
    ensures
        r == abs_capped(value as int),
{
    if value == i32::MIN {
        i32::MAX as u32
    } else if value < 0 {
        (-value) as u32
    } else {
        value as u32
    }
}

/// Maps `|value| + 127` into a byte, saturating at 255.
pub fn i32_to_u8_clamped(value: i32) -> (r: u8)
    ensures
        r as int == clamp_max(abs_capped(value as int) + 127, 255),
{
    u32_to_u8_clamped(saturating_abs_i32(value) + 127)
}

/// Maps `|value| + 127` into a byte, saturating at 255.
pub fn i16_to_u8_clamped(value: i16) -> (r: u8)
    ensures
        r as int == clamp_max((if value < 0 { -(value as int) } else { value as int }) + 127, 255),
{
    let a: u16 = if value < 0 {
        (-(value as i32)) as u16
    } else {
        value as u16
    };
    u16_to_u8_clamped(a + 127)
}

/// Maps `|value| + 32767` into 16 bits, saturating at 65535.
pub fn i32_to_u16_clamped(value: i32) -> (r: u16)
    ensures
        r as int == clamp_max(abs_capped(value as int) + 32767, 65535),
{
    u32_to_u16_clamped(saturating_abs_i32(value) + 32767)
}

/// Maps `|value| + 2147483647` into 32 bits (it always fits).
pub fn i32_to_u32_offset(value: i32) -> (r: u32)
    ensures
        r as int == abs_capped(value as int) + 0x7fff_ffff,
{
    saturating_abs_i32(value) + 0x7fff_ffff
}

/// Narrows to a byte, saturating at 255.
pub fn u16_to_u8_clamped(value: u16) -> (r: u8)
    ensures
        r as int == clamp_max(value as int, 255),
{
    if value > 255u16 {
        255u8
    } else {
        value as u8
    }
}

/// Narrows to a byte, saturating at 255.
pub fn u32_to_u8_clamped(value: u32) -> (r: u8)
    ensures
        r as int == clamp_max(value as int, 255),
{
    if value > 255u32 {
        255u8
    } else {
        value as u8
    }
}

/// Narrows to 16 bits, saturating at 65535.
pub fn u32_to_u16_clamped(value: u32) -> (r: u16)
    ensures
        r as int == clamp_max(value as int, 65535),
{
    if value > u16::MAX as u32 {
        u16::MAX
    } else {
        value as u16
    }
}

/// Narrows to a byte, saturating at 255.
pub fn u64_to_u8_clamped(value: u64) -> (r: u8)
    ensures
        r as int == clamp_max(value as int, 255),
{
    if value > 255u64 {
        255u8
    } else {
        value as u8
    }
}

/// Narrows to 16 bits, saturating at 65535.
pub fn u64_to_u16_clamped(value: u64) -> (r: u16)
    ensures
        r as int == clamp_max(value as int, 65535),
{
    if value > u16::MAX as u64 {
        u16::MAX
    } else {
        value as u16
    }
}

/// Narrows to 32 bits, saturating at `u32::MAX`.
pub fn u64_to_u32_clamped(value: u64) -> (r: u32)
    ensures
        r as int == clamp_max(value as int, u32::MAX as int),
{
    if value > u32::MAX as u64 {
        u32::MAX
    } else {
        value as u32
    }
}

/// Narrows to an unsigned byte, saturating at 0 and 255.
pub fn i32_to_u8_saturated(value: i32) -> (r: u8)
    ensures
        r as int == saturate(value as int, 255),
{
    if value < 0 {
        0
    } else if value > 255 {
        255
    } else {
        value as u8
    }
}

/// Narrows to unsigned 16 bits, saturating at 0 and 65535.
pub fn i32_to_u16_saturated(value: i32) -> (r: u16)
    ensures
        r as int == saturate(value as int, 65535),
{
    if value < 0 {
        0
    } else if value > 65535 {
        65535
    } else {
        value as u16
    }
}

/// Narrows to unsigned 32 bits, saturating at 0.
pub fn i32_to_u32_saturated(value: i32) -> (r: u32)
    ensures
        r as int == saturate(value as int, u32::MAX as int),
{
    if value < 0 {
        0
    } else {
        value as u32
    }
}

/// The largest `r` with `r * r <= n`.
pub open spec fn floor_sqrt(n: nat) -> nat {
    choose|r: nat| #[trigger] (r * r) <= n && n < (r + 1) * (r + 1)
}

proof fn lemma_square_monotone(a: nat, b: nat)
    requires
        a <= b,
    ensures
        a * a <= b * b,
{
    assert(a * a <= b * b) by (nonlinear_arith)
        requires
            a <= b,
    ;
}

/// `r` is the floor of the square root of `n` exactly when `r * r <= n < (r + 1) * (r + 1)`.
pub proof fn lemma_floor_sqrt(n: nat, r: nat)
    requires
        r * r <= n < (r + 1) * (r + 1),
    ensures
        floor_sqrt(n) == r,
{
    assert(exists|q: nat| #[trigger] (q * q) <= n && n < (q + 1) * (q + 1));
    let s = floor_sqrt(n);
    assert(s * s <= n && n < (s + 1) * (s + 1));
    if s < r {
        lemma_square_monotone(s + 1, r);
    } else if r < s {
        lemma_square_monotone(r + 1, s);
    }
}

/// The floor of the square root, for values below 2^34.
pub fn integer_sqrt(n: u64) -> (r: u64)
    requires
        n < 0x4_0000_0000,
    ensures
        r as nat == floor_sqrt(n as nat),
        r * r <= n < (r + 1) * (r + 1),
{
    let mut lo: u64 = 0;
    let mut hi: u64 = 0x2_0000;
    assert(0x2_0000 * 0x2_0000 == 0x4_0000_0000) by (nonlinear_arith);
    while lo + 1 < hi
        invariant
            lo < hi <= 0x2_0000,
            lo * lo <= n,
            n < hi * hi,
        decreases hi - lo,
    {
        let mid = lo + (hi - lo) / 2;
        assert(mid * mid <= 0x4_0000_0000) by (nonlinear_arith)
            requires
                mid <= 0x2_0000,
        ;
        if mid * mid <= n {
            lo = mid;
        } else {
            hi = mid;
        }
    }
    proof {
        lemma_floor_sqrt(n as nat, lo as nat);
    }
    lo
}

} // verus!
