//! From a heading to a velocity in the world.
//!
//! The camera's forward direction on the ground comes from outside, as a
//! vector of any length. The direction to the camera's right is that
//! vector turned by a quarter turn. A heading is a sum of whole steps along
//! the two. The velocity is the walking speed along that sum: the sum,
//! taken a million times as long so that even the shortest vector has a
//! length that rounds well, is scaled to the length of the speed, each
//! component rounded toward zero.

use vstd::prelude::*;
use crate::movement::Heading;
use crate::units::MICRO;
use crate::units::magnitude;
use crate::units::saturate;
use crate::units::saturated;

verus! {

/// A direction on the ground.
#[derive(Clone, Copy, Debug, PartialEq, Eq, Structural)]
pub struct Ground {
    pub x: i32,
    pub z: i32,
}

/// The quotient of `num` by a positive `den`, rounded toward zero.
pub open spec fn toward_zero(num: int, den: int) -> int {
    if num >= 0 {
        num / den
    } else {
        -((-num) / den)
    }
}

/// Whether `n` is the square root of `s`, rounded down.
pub open spec fn is_root(n: nat, s: nat) -> bool {
    n * n <= s < (n + 1) * (n + 1)
}

/// The square root of `s`, rounded down.
pub open spec fn root(s: nat) -> nat {
    choose|n: nat| is_root(n, s)
}

/// The sum of the heading's steps along `forward` and along the direction
/// to its right, `(-forward.z, forward.x)`.
pub open spec fn heading_vector(forward: Ground, heading: Heading) -> (int, int) {
    let (ahead, aside) = heading.steps();
    (ahead * forward.x - aside * forward.z, ahead * forward.z + aside * forward.x)
}

/// The heading's vector, a million times as long.
pub open spec fn long_vector(forward: Ground, heading: Heading) -> (int, int) {
    let d = heading_vector(forward, heading);
    (d.0 * MICRO, d.1 * MICRO)
}

/// The squared length of a vector.
pub open spec fn squared(v: (int, int)) -> nat {
    (v.0 * v.0 + v.1 * v.1) as nat
}

/// The velocity of `speed` along the heading, for a camera that looks
/// along `forward`: the long vector of the heading times the speed,
/// divided by its own rounded-down length. Without a forward direction
/// there is no velocity.
pub open spec fn steered(forward: Ground, heading: Heading, speed: int) -> (int, int) {
    let d = long_vector(forward, heading);
    let n = root(squared(d)) as int;
    if n == 0 {
        (0, 0)
    } else {
        (saturated(toward_zero(d.0 * speed, n)), saturated(toward_zero(d.1 * speed, n)))
    }
}

/// A number has one rounded-down square root only.
pub proof fn lemma_root_is_unique(n: nat, m: nat, s: nat)
    requires
        is_root(n, s),
        is_root(m, s),
    ensures
        n == m,
{
    if n < m {
        assert((n + 1) * (n + 1) <= m * m) by (nonlinear_arith)
            requires
                n + 1 <= m,
        ;
    }
    if m < n {
        assert((m + 1) * (m + 1) <= n * n) by (nonlinear_arith)
            requires
                m + 1 <= n,
        ;
    }
}

/// The rounded-down square root is the number that `is_root` describes.
pub proof fn lemma_root(n: nat, s: nat)
    requires
        is_root(n, s),
    ensures
        root(s) == n,
{
    lemma_root_is_unique(root(s), n, s);
}

/// The square root of `s`, rounded down.
pub fn isqrt(s: u128) -> (r: u64)
    ensures
        r == root(s as nat),
        is_root(r as nat, s as nat),
{
    let mut lo: u128 = 0;
    let mut hi: u128 = 0x1_0000_0000_0000_0000;
    assert(hi * hi == 0x1_0000_0000_0000_0000_0000_0000_0000_0000) by (nonlinear_arith)
        requires
            hi == 0x1_0000_0000_0000_0000,
    ;
    assert(lo * lo == 0) by (nonlinear_arith)
        requires
            lo == 0,
    ;
    while hi - lo > 1
        invariant
            lo < hi <= 0x1_0000_0000_0000_0000,
            lo * lo <= s < hi * hi,
        decreases hi - lo,
    {
        let mid: u128 = lo + (hi - lo) / 2;
        assert(mid * mid <= 0xffff_ffff_ffff_ffff * 0xffff_ffff_ffff_ffff) by (nonlinear_arith)
            requires
                0 <= mid <= 0xffff_ffff_ffff_ffff,
        ;
        if mid * mid <= s {
            lo = mid;
        } else {
            hi = mid;
        }
    }
    proof {
        assert(hi == lo + 1);
        lemma_root(lo as nat, s as nat);
    }
    lo as u64
}

/// The quotient of `num` by a positive `den`, rounded toward zero.
fn divide(num: i128, den: i128) -> (r: i128)
    requires
        den > 0,
        num > i128::MIN,
    ensures
        r == toward_zero(num as int, den as int),
{
    if num >= 0 {
        let q: i128 = num / den;
        assert(0 <= q <= num) by (nonlinear_arith)
            requires
                q == num / den,
                num >= 0,
                den > 0,
        ;
        q
    } else {
        let q: i128 = (-num) / den;
        assert(0 <= q <= -num) by (nonlinear_arith)
            requires
                q == (-num) / (den as int),
                -num >= 0,
                den > 0,
        ;
        -q
    }
}

/// The velocity of `speed` along the heading, for a camera that looks
/// along `forward`.
pub fn steer_along(forward: Ground, heading: Heading, speed: i64) -> (r: (i64, i64))
    ensures
        (r.0 as int, r.1 as int) == steered(forward, heading, speed as int),
{
    let (ahead, aside) = heading.components();
    let fx: i128 = forward.x as i128;
    let fz: i128 = forward.z as i128;
    let a: i128 = ahead as i128;
    let b: i128 = aside as i128;
    assert(-0x8000_0000 <= a * fx <= 0x8000_0000 && -0x8000_0000 <= b * fz <= 0x8000_0000
        && -0x8000_0000 <= a * fz <= 0x8000_0000 && -0x8000_0000 <= b * fx <= 0x8000_0000)
        by (nonlinear_arith)
        requires
            -1 <= a <= 1,
            -1 <= b <= 1,
            -0x8000_0000 <= fx < 0x8000_0000,
            -0x8000_0000 <= fz < 0x8000_0000,
    ;
    let dx: i128 = (a * fx - b * fz) * 1_000_000;
    let dz: i128 = (a * fz + b * fx) * 1_000_000;
    assert(0 <= dx * dx <= 0x10_0000_0000_0000 * 0x10_0000_0000_0000 && 0 <= dz * dz
        <= 0x10_0000_0000_0000 * 0x10_0000_0000_0000) by (nonlinear_arith)
        requires
            -0x10_0000_0000_0000 <= dx <= 0x10_0000_0000_0000,
            -0x10_0000_0000_0000 <= dz <= 0x10_0000_0000_0000,
    ;
    let square: u128 = (dx * dx + dz * dz) as u128;
    let n: u64 = isqrt(square);
    assert(square == squared(long_vector(forward, heading)));
    if n == 0 {
        (0, 0)
    } else {
        let wide: i128 = speed as i128;
        assert(-0x10_0000_0000_0000 * 0x8000_0000_0000_0000 <= dx * wide <= 0x10_0000_0000_0000
            * 0x8000_0000_0000_0000 && -0x10_0000_0000_0000 * 0x8000_0000_0000_0000 <= dz * wide
            <= 0x10_0000_0000_0000 * 0x8000_0000_0000_0000) by (nonlinear_arith)
            requires
                -0x10_0000_0000_0000 <= dx <= 0x10_0000_0000_0000,
                -0x10_0000_0000_0000 <= dz <= 0x10_0000_0000_0000,
                -0x8000_0000_0000_0000 <= wide <= 0x8000_0000_0000_0000,
        ;
        let vx: i128 = divide(dx * wide, n as i128);
        let vz: i128 = divide(dz * wide, n as i128);
        (saturate(vx), saturate(vz))
    }
}

/// One component of a velocity, against the speed and the direction that
/// it was made from: rounding toward zero takes less than one step away.
proof fn lemma_component(d: int, speed: int, n: int)
    requires
        n > 0,
        speed >= 0,
    ensures
        ({
            let q = magnitude(toward_zero(d * speed, n));
            &&& n * q <= magnitude(d) * speed < n * (q + 1)
            &&& (n * q) * (n * q) <= (d * d) * (speed * speed)
            &&& (d * d) * (speed * speed) < (n * (q + 1)) * (n * (q + 1))
        }),
{
    let m = magnitude(d);
    let p = m * speed;
    assert(p >= 0) by (nonlinear_arith)
        requires
            p == m * speed,
            m >= 0,
            speed >= 0,
    ;
    assert(magnitude(d * speed) == p) by (nonlinear_arith)
        requires
            p == m * speed,
            m == magnitude(d),
            speed >= 0,
    ;
    let q = p / n;
    assert(magnitude(toward_zero(d * speed, n)) == q) by {
        if d * speed >= 0 {
            assert(d * speed == p);
        } else {
            assert(-(d * speed) == p);
        }
        assert(q >= 0) by (nonlinear_arith)
            requires
                q == p / n,
                p >= 0,
                n > 0,
        ;
    }
    assert(n * q <= p < n * (q + 1)) by (nonlinear_arith)
        requires
            q == p / n,
            p >= 0,
            n > 0,
    ;
    assert(q >= 0) by (nonlinear_arith)
        requires
            q == p / n,
            p >= 0,
            n > 0,
    ;
    assert(m * m == d * d) by (nonlinear_arith)
        requires
            m == d || m == -d,
    ;
    assert(p * p == (d * d) * (speed * speed)) by (nonlinear_arith)
        requires
            p == m * speed,
            m * m == d * d,
    ;
    assert((n * q) * (n * q) <= p * p) by (nonlinear_arith)
        requires
            0 <= n * q <= p,
    ;
    assert(p * p < (n * (q + 1)) * (n * (q + 1))) by (nonlinear_arith)
        requires
            0 <= p < n * (q + 1),
    ;
}

/// The velocity along a heading has the length of the speed, up to
/// rounding, whatever the heading and however long the forward vector: a
/// diagonal is walked as fast as a straight line.
///
/// The squared length of the velocity is at most the squared speed times
/// `(1 + 1 / 1_000_000)` squared, and more than the squared speed less
/// four times the speed and two. Speeds that are stored without saturating
/// are meant.
pub proof fn lemma_steered_length(forward: Ground, heading: Heading, speed: int)
    requires
        forward.x != 0 || forward.z != 0,
        0 <= speed <= i64::MAX,
    ensures
        ({
            let v = steered(forward, heading, speed);
            let len = v.0 * v.0 + v.1 * v.1;
            &&& (MICRO * MICRO) * len <= ((MICRO + 1) * (MICRO + 1)) * (speed * speed)
            &&& len + 4 * speed + 2 > speed * speed
            &&& magnitude(v.0) <= speed
            &&& magnitude(v.1) <= speed
        }),
{
    let k = MICRO as int;
    let short = heading_vector(forward, heading);
    let d = long_vector(forward, heading);
    let s = squared(d);
    lemma_heading_vector(forward, heading);
    let t = squared(short);
    assert(t >= 1);
    assert(short.0 * short.0 + short.1 * short.1 >= 0 && (short.0 * k) * (short.0 * k) + (short.1
        * k) * (short.1 * k) >= 0) by (nonlinear_arith);
    assert(d.0 == short.0 * k && d.1 == short.1 * k);
    assert(s == (k * k) * t) by (nonlinear_arith)
        requires
            s == (short.0 * k) * (short.0 * k) + (short.1 * k) * (short.1 * k),
            t == short.0 * short.0 + short.1 * short.1,
    ;
    assert(s >= k * k) by (nonlinear_arith)
        requires
            s == (k * k) * t,
            t >= 1,
            k > 0,
    ;
    lemma_root_exists(s);
    let n = root(s) as int;
    assert(n >= k) by (nonlinear_arith)
        requires
            k * k <= s,
            s < (n + 1) * (n + 1),
            n >= 0,
            k > 0,
    ;
    let qx = toward_zero(d.0 * speed, n);
    let qz = toward_zero(d.1 * speed, n);
    lemma_component(d.0, speed, n);
    lemma_component(d.1, speed, n);
    let ax = magnitude(qx);
    let az = magnitude(qz);
    let sq = speed * speed;
    let a = d.0 * d.0;
    let b = d.1 * d.1;
    assert(a >= 0 && b >= 0) by (nonlinear_arith)
        requires
            a == d.0 * d.0,
            b == d.1 * d.1,
    ;
    assert(s == a + b);
    assert(sq >= 0) by (nonlinear_arith)
        requires
            sq == speed * speed,
    ;
    // Each component is at most the speed in size, so storing it changes
    // nothing.
    assert(ax <= speed && az <= speed) by {
        assert(magnitude(d.0) <= n && magnitude(d.1) <= n) by (nonlinear_arith)
            requires
                a <= s,
                b <= s,
                s < (n + 1) * (n + 1),
                a == d.0 * d.0,
                b == d.1 * d.1,
                n > 0,
        ;
        assert(ax <= speed) by (nonlinear_arith)
            requires
                n * ax <= magnitude(d.0) * speed,
                magnitude(d.0) <= n,
                n > 0,
                speed >= 0,
                ax >= 0,
        ;
        assert(az <= speed) by (nonlinear_arith)
            requires
                n * az <= magnitude(d.1) * speed,
                magnitude(d.1) <= n,
                n > 0,
                speed >= 0,
                az >= 0,
        ;
    }
    let v = steered(forward, heading, speed);
    assert(v.0 == qx && v.1 == qz);
    let len = v.0 * v.0 + v.1 * v.1;
    assert(len == ax * ax + az * az) by (nonlinear_arith)
        requires
            len == v.0 * v.0 + v.1 * v.1,
            ax == v.0 || ax == -v.0,
            az == v.1 || az == -v.1,
    ;
    // From above: n^2 * len <= s * speed^2 <= (n + 1)^2 * speed^2, and
    // (n + 1) / n is at most (k + 1) / k.
    assert((n * n) * len <= s * sq) by (nonlinear_arith)
        requires
            (n * ax) * (n * ax) <= a * sq,
            (n * az) * (n * az) <= b * sq,
            s == a + b,
            len == ax * ax + az * az,
    ;
    assert(s * sq <= ((n + 1) * (n + 1)) * sq) by (nonlinear_arith)
        requires
            s < (n + 1) * (n + 1),
            sq >= 0,
    ;
    let low = k * (n + 1);
    let high = (k + 1) * n;
    assert(0 <= low <= high) by (nonlinear_arith)
        requires
            low == k * (n + 1),
            high == (k + 1) * n,
            0 < k <= n,
    ;
    assert(low * low <= high * high) by (nonlinear_arith)
        requires
            0 <= low <= high,
    ;
    assert((low * low) * sq <= (high * high) * sq) by (nonlinear_arith)
        requires
            low * low <= high * high,
            sq >= 0,
    ;
    assert((n * n) * ((k * k) * len) <= (low * low) * sq) by (nonlinear_arith)
        requires
            (n * n) * len <= ((n + 1) * (n + 1)) * sq,
            low == k * (n + 1),
            k > 0,
    ;
    assert((high * high) * sq == (n * n) * (((k + 1) * (k + 1)) * sq)) by (nonlinear_arith)
        requires
            high == (k + 1) * n,
    ;
    assert((k * k) * len <= ((k + 1) * (k + 1)) * sq) by (nonlinear_arith)
        requires
            (n * n) * ((k * k) * len) <= (n * n) * (((k + 1) * (k + 1)) * sq),
            n > 0,
    ;
    // From below: n^2 * speed^2 <= s * speed^2 < n^2 ((|vx|+1)^2 + (|vz|+1)^2).
    assert((n * n) * sq < (n * n) * ((ax + 1) * (ax + 1) + (az + 1) * (az + 1))) by (nonlinear_arith)
        requires
            n * n <= s,
            sq >= 0,
            a * sq < (n * (ax + 1)) * (n * (ax + 1)),
            b * sq < (n * (az + 1)) * (n * (az + 1)),
            s == a + b,
            a >= 0,
            b >= 0,
    ;
    assert(sq < (ax + 1) * (ax + 1) + (az + 1) * (az + 1)) by (nonlinear_arith)
        requires
            (n * n) * sq < (n * n) * ((ax + 1) * (ax + 1) + (az + 1) * (az + 1)),
            n > 0,
    ;
    assert(sq < len + 4 * speed + 2) by (nonlinear_arith)
        requires
            sq < (ax + 1) * (ax + 1) + (az + 1) * (az + 1),
            len == ax * ax + az * az,
            0 <= ax <= speed,
            0 <= az <= speed,
    ;
}

/// Without a forward direction, or without speed, there is no velocity.
pub proof fn lemma_steered_nothing(forward: Ground, heading: Heading, speed: int)
    requires
        (forward.x == 0 && forward.z == 0) || speed == 0,
    ensures
        steered(forward, heading, speed) == (0int, 0int),
{
    let d = long_vector(forward, heading);
    if forward.x == 0 && forward.z == 0 {
        assert(d.0 == 0 && d.1 == 0) by (nonlinear_arith)
            requires
                d.0 == (heading.steps().0 * 0 - heading.steps().1 * 0) * 1_000_000,
                d.1 == (heading.steps().0 * 0 + heading.steps().1 * 0) * 1_000_000,
        ;
        assert(is_root(0, 0)) by (nonlinear_arith);
        lemma_root(0, 0);
    } else {
        let n = root(squared(d)) as int;
        if n != 0 {
            assert(d.0 * 0 == 0 && d.1 * 0 == 0) by (nonlinear_arith);
            assert(0int / n == 0) by (nonlinear_arith)
                requires
                    n > 0,
            ;
        }
    }
}

/// The heading's vector is as long as `forward` for a straight heading and
/// as long as its diagonal for a diagonal one; it vanishes only with
/// `forward`.
pub proof fn lemma_heading_vector(forward: Ground, heading: Heading)
    ensures
        ({
            let (ahead, aside) = heading.steps();
            let f = (forward.x as int, forward.z as int);
            squared(heading_vector(forward, heading)) == (ahead * ahead + aside * aside) * squared(f)
        }),
        forward.x != 0 || forward.z != 0 ==> squared(heading_vector(forward, heading)) > 0,
{
    let (ahead, aside) = heading.steps();
    let x = forward.x as int;
    let z = forward.z as int;
    let d = heading_vector(forward, heading);
    let len = x * x + z * z;
    assert(len >= 0) by (nonlinear_arith)
        requires
            len == x * x + z * z,
    ;
    if x != 0 || z != 0 {
        assert(len > 0) by (nonlinear_arith)
            requires
                len == x * x + z * z,
                x != 0 || z != 0,
        ;
    }
    if aside == 0 {
        assert(d.0 * d.0 + d.1 * d.1 == 1 * len) by (nonlinear_arith)
            requires
                (d.0 == x && d.1 == z) || (d.0 == -x && d.1 == -z),
                len == x * x + z * z,
        ;
    } else if ahead == 0 {
        assert(d.0 * d.0 + d.1 * d.1 == 1 * len) by (nonlinear_arith)
            requires
                (d.0 == -z && d.1 == x) || (d.0 == z && d.1 == -x),
                len == x * x + z * z,
        ;
    } else {
        assert(d.0 * d.0 + d.1 * d.1 == 2 * len) by (nonlinear_arith)
            requires
                (d.0 == x - z && d.1 == z + x) || (d.0 == x + z && d.1 == z - x) || (d.0 == -x - z
                    && d.1 == -z + x) || (d.0 == -x + z && d.1 == -z - x),
                len == x * x + z * z,
        ;
    }
}

/// Every number has a rounded-down square root.
pub proof fn lemma_root_exists(s: nat)
    ensures
        is_root(root(s), s),
    decreases s,
{
    if s == 0 {
        assert(is_root(0, 0)) by (nonlinear_arith);
    } else {
        lemma_root_exists((s - 1) as nat);
        let n = root((s - 1) as nat);
        if s < (n + 1) * (n + 1) {
            assert(is_root(n, s));
        } else {
            assert(s == (n + 1) * (n + 1));
            assert((n + 1) * (n + 1) < (n + 2) * (n + 2)) by (nonlinear_arith);
            assert(is_root(n + 1, s));
        }
    }
}

} // verus!
