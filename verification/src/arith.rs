//! Integer helpers shared by the engine: exact division toward zero,
//! clamping, and the component of a diagonal of given length.

use vstd::prelude::*;

verus! {

/// Adds two counters.
pub fn sum(a: u32, b: u32) -> (total: u32)
    requires
        a + b <= u32::MAX,
    ensures
        total == a + b,
{
    a + b
}

/// The quotient of `value` by a positive `divisor`, rounded toward zero, so
/// that a value and its negation give opposite quotients.
pub open spec fn toward_zero(value: int, divisor: int) -> int {
    if value >= 0 {
        value / divisor
    } else {
        -((-value) / divisor)
    }
}

/// `value` limited to `[low, high]`; `low` wins where the bounds cross.
pub open spec fn clamped(value: int, low: int, high: int) -> int {
    let capped = if value > high { high } else { value };
    if capped < low { low } else { capped }
}

/// `c` is the whole part of `length / sqrt(2)`: the largest component of a
/// diagonal vector that is no longer than `length`.
pub open spec fn is_diagonal_component(length: int, c: int) -> bool {
    0 <= c && 2 * (c * c) <= length * length < 2 * ((c + 1) * (c + 1))
}

/// The component of the diagonal vector of the given length.
pub open spec fn diagonal_component(length: int) -> int {
    choose|c: int| is_diagonal_component(length, c)
}

/// Squaring keeps the order of non-negative numbers.
pub proof fn lemma_square_monotonic(a: int, b: int)
    requires
        0 <= a <= b,
    ensures
        a * a <= b * b,
{
    assert(a * a <= a * b) by (nonlinear_arith)
        requires
            0 <= a <= b,
    ;
    assert(a * b <= b * b) by (nonlinear_arith)
        requires
            0 <= a <= b,
    ;
}

/// At most one number is the diagonal component of a length.
pub proof fn lemma_diagonal_component_unique(length: int, c: int, d: int)
    requires
        is_diagonal_component(length, c),
        is_diagonal_component(length, d),
    ensures
        c == d,
{
    if c < d {
        lemma_square_monotonic(c + 1, d);
    } else if d < c {
        lemma_square_monotonic(d + 1, c);
    }
}

/// Every non-negative length has a diagonal component, and it is no larger
/// than the length.
pub proof fn lemma_diagonal_component_exists(length: int)
    requires
        length >= 0,
    ensures
        is_diagonal_component(length, diagonal_component(length)),
        0 <= diagonal_component(length) <= length,
{
    let found = find_diagonal_component(length, 0);
    lemma_diagonal_component_unique(length, found, diagonal_component(length));
}

/// Searches upward from a lower estimate for the diagonal component.
proof fn find_diagonal_component(length: int, estimate: int) -> (found: int)
    requires
        0 <= estimate <= length,
        2 * (estimate * estimate) <= length * length,
    ensures
        is_diagonal_component(length, found),
        estimate <= found <= length,
    decreases length - estimate,
{
    if length * length < 2 * ((estimate + 1) * (estimate + 1)) {
        estimate
    } else {
        if estimate + 1 > length {
            lemma_square_monotonic(length + 1, estimate + 1);
            assert((length + 1) * (length + 1) > length * length) by (nonlinear_arith)
                requires
                    length >= 0,
            ;
        }
        find_diagonal_component(length, estimate + 1)
    }
}

/// Divides by a positive tick count, rounding toward zero.
pub fn div_toward_zero(value: i64, divisor: u32) -> (quotient: i64)
    requires
        divisor > 0,
    ensures
        quotient == toward_zero(value as int, divisor as int),
{
    if value >= 0 {
        let q: u64 = (value as u64) / (divisor as u64);
        q as i64
    } else {
        let magnitude: u64 = (-(value as i128)) as u64;
        let q: u64 = magnitude / (divisor as u64);
        (-(q as i128)) as i64
    }
}

/// Limits a wide intermediate value to `[low, high]`.
pub fn clamp(value: i128, low: i64, high: i64) -> (limited: i64)
    ensures
        limited == clamped(value as int, low as int, high as int),
{
    let capped: i128 = if value > high as i128 { high as i128 } else { value };
    if capped < low as i128 {
        low
    } else {
        capped as i64
    }
}

/// Limits a wide intermediate value to what a coordinate can hold.
pub fn saturate(value: i128) -> (limited: i64)
    ensures
        limited == clamped(value as int, i64::MIN as int, i64::MAX as int),
{
    clamp(value, i64::MIN, i64::MAX)
}

/// Computes the component of the diagonal of the given length by bisection.
pub fn diagonal_component_of(length: i64) -> (c: i64)
    requires
        length >= 0,
    ensures
        is_diagonal_component(length as int, c as int),
        c == diagonal_component(length as int),
        0 <= c <= length,
{
    proof {
        assert(length * length <= 0x4000_0000_0000_0000_0000_0000_0000_0000) by (nonlinear_arith)
            requires
                0 <= length < 0x8000_0000_0000_0000,
        ;
        assert(2 * ((length + 1) * (length + 1)) > length * length) by (nonlinear_arith)
            requires
                length >= 0,
        ;
    }
    let target: u128 = (length as u128) * (length as u128);
    let mut low: u64 = 0;
    let mut high: u64 = length as u64 + 1;
    while high - low > 1
        invariant
            0 <= low < high <= length + 1,
            length >= 0,
            target == length * length,
            2 * (low * low) <= target,
            target < 2 * (high * high),
        decreases high - low,
    {
        let mid: u64 = low + (high - low) / 2;
        proof {
            lemma_square_monotonic(mid as int, length as int + 1);
            assert((length + 1) * (length + 1) <= 0x4000_0000_0000_0000_0000_0000_0000_0000)
                by (nonlinear_arith)
                requires
                    0 <= length < 0x8000_0000_0000_0000,
            ;
        }
        let doubled: u128 = 2 * ((mid as u128) * (mid as u128));
        if doubled <= target {
            low = mid;
        } else {
            high = mid;
        }
    }
    proof {
        assert(is_diagonal_component(length as int, low as int));
        let chosen = diagonal_component(length as int);
        lemma_diagonal_component_unique(length as int, low as int, chosen);
    }
    low as i64
}

} // verus!
