//! Fixed-point conventions shared by the whole simulation.
//!
//! Lengths are counted in millionths of a block edge, angles in
//! microradians, time in microseconds and velocities in millionths of a
//! block per second. Stored quantities are `i64`; intermediate results are
//! formed exactly and saturate when they are stored.

use vstd::prelude::*;

verus! {

/// Number of fixed-point steps in one whole unit.
pub const MICRO: i64 = 1_000_000;

/// The value of `v` once stored in an `i64`: out-of-range values stick to
/// the nearest end of the range.
pub open spec fn saturated(v: int) -> int {
    if v < i64::MIN {
        i64::MIN as int
    } else if v > i64::MAX {
        i64::MAX as int
    } else {
        v
    }
}

/// Distance covered in `dt` microseconds at `rate` per second, rounded
/// toward zero.
pub open spec fn travelled(rate: int, dt: int) -> int {
    if rate >= 0 {
        (rate * dt) / (MICRO as int)
    } else {
        -(((-rate) * dt) / (MICRO as int))
    }
}

/// Magnitude of `v`.
pub open spec fn magnitude(v: int) -> int {
    if v >= 0 {
        v
    } else {
        -v
    }
}

/// Stores an exact intermediate result, saturating at the ends of `i64`.
pub fn saturate(v: i128) -> (r: i64)
    ensures
        r as int == saturated(v as int),
{
    if v < i64::MIN as i128 {
        i64::MIN
    } else if v > i64::MAX as i128 {
        i64::MAX
    } else {
        v as i64
    }
}

/// Exact displacement over one tick: `rate * dt / 1_000_000`, rounded
/// toward zero. The result is at most `rate * dt` in magnitude.
pub fn displacement(rate: i64, dt: u32) -> (r: i128)
    ensures
        r as int == travelled(rate as int, dt as int),
        -0x8000_0000_0000_0000_0000_0000 <= r <= 0x8000_0000_0000_0000_0000_0000,
{
    let wide: i128 = rate as i128;
    let span: i128 = dt as i128;
    if wide >= 0 {
        assert(0 <= wide * span <= 0x7fff_ffff_ffff_ffff * 0xffff_ffff) by (nonlinear_arith)
            requires
                0 <= wide <= 0x7fff_ffff_ffff_ffff,
                0 <= span <= 0xffff_ffff,
        ;
        (wide * span) / 1_000_000
    } else {
        assert(0 <= (-wide) * span <= 0x8000_0000_0000_0000 * 0xffff_ffff) by (nonlinear_arith)
            requires
                0 < -wide <= 0x8000_0000_0000_0000,
                0 <= span <= 0xffff_ffff,
        ;
        -(((-wide) * span) / 1_000_000)
    }
}

/// Magnitude of the difference `a - b`, formed exactly.
pub fn distance(a: i64, b: i64) -> (r: i128)
    ensures
        r as int == magnitude(a - b),
{
    let d: i128 = a as i128 - b as i128;
    if d >= 0 {
        d
    } else {
        -d
    }
}

} // verus!
