//! How long an upload is kept when it names no expiry: the larger, the
//! shorter.
use vstd::prelude::*;
use crate::config::Config;

verus! {

/// `x` to the third power.
pub open spec fn cube(x: int) -> int {
    x * x * x
}

/// The retention curve: `min` seconds plus the share of the span
/// `max - min` that a file of `size` bytes keeps under a ceiling of
/// `ceiling` bytes. The share is the cube of the room left under the
/// ceiling, `(ceiling - size) / ceiling`, so retention falls slowly for
/// small files and steeply towards the ceiling. Whole seconds, rounded down.
pub open spec fn retention(min: int, max: int, ceiling: int, size: int) -> int {
    min + ((max - min) * cube(ceiling - size)) / cube(ceiling)
}

impl Config {
    /// The retention, in seconds, that these settings give a file of `size`
    /// bytes when the upload names no expiry.
    pub open spec fn retention_of(self, size: int) -> int {
        retention(
            self.min_expire_duration as int,
            self.max_expire_duration as int,
            self.max_file_size as int,
            size,
        )
    }
}

/// Cubes keep the order of numbers that are not negative.
proof fn lemma_cube_bounds(k: int, m: int)
    requires
        0 <= k <= m,
    ensures
        0 <= cube(k) <= cube(m),
{
    assert(0 <= k * k <= m * m) by (nonlinear_arith)
        requires
            0 <= k <= m,
    ;
    assert(0 <= (k * k) * k <= (m * m) * m) by (nonlinear_arith)
        requires
            0 <= k <= m,
            0 <= k * k <= m * m,
    ;
}

/// The share of the span is some of the span, and never more than all of it.
proof fn lemma_share_bounds(span: int, k: int, m: int)
    requires
        0 <= span,
        0 <= k <= m,
        0 < m,
    ensures
        0 < cube(m),
        0 <= (span * cube(k)) / cube(m) <= span,
{
    lemma_cube_bounds(k, m);
    lemma_cube_bounds(1, m);
    let ck = cube(k);
    let cm = cube(m);
    assert(1 <= cm);
    assert(0 <= span * ck <= span * cm) by (nonlinear_arith)
        requires
            0 <= span,
            0 <= ck <= cm,
    ;
    assert(0 <= (span * ck) / cm <= span) by (nonlinear_arith)
        requires
            0 <= span * ck <= span * cm,
            0 < cm,
    ;
}

/// `a * k` divided by `m`, with the remainder. With `k` no larger than `m`
/// the quotient is no larger than `a`.
fn mul_div(a: u64, k: u64, m: u64) -> (qr: (u64, u64))
    requires
        0 < m,
        k <= m,
    ensures
        a * k == qr.0 * m + qr.1,
        qr.1 < m,
        qr.0 <= a,
{
    assert(a * k <= a * m <= 0xffff_ffff_ffff_ffff * 0xffff_ffff_ffff_ffff) by (nonlinear_arith)
        requires
            0 <= a <= 0xffff_ffff_ffff_ffff,
            0 <= k <= m <= 0xffff_ffff_ffff_ffff,
    ;
    let product: u128 = a as u128 * k as u128;
    let q: u128 = product / m as u128;
    let r: u128 = product % m as u128;
    proof {
        vstd::arithmetic::div_mod::lemma_fundamental_div_mod(product as int, m as int);
        assert(q <= a) by (nonlinear_arith)
            requires
                product == m * q + r,
                product <= a * m,
                0 <= r,
                0 < m,
        ;
        assert(m * q == q * m) by (nonlinear_arith);
    }
    (q as u64, r as u64)
}

/// The quotient of `d * k^3` by `m^3`, put together from seven divisions by
/// `m`: three that carry the quotient down, and four that carry what the
/// remainders still owe.
proof fn lemma_cubic_quotient(
    d: int,
    k: int,
    m: int,
    q1: int,
    r1: int,
    q2: int,
    r2: int,
    q3: int,
    r3: int,
    s2: int,
    t2: int,
    s1: int,
    t1: int,
    u1: int,
    v1: int,
    w: int,
    z: int,
)
    requires
        0 < m,
        d * k == q1 * m + r1,
        q1 * k == q2 * m + r2,
        q2 * k == q3 * m + r3,
        r2 * k == s2 * m + t2,
        r1 * k == s1 * m + t1,
        s1 * k == u1 * m + v1,
        t1 * k == w * m + z,
        0 <= r3,
        0 <= s2,
        0 <= u1,
        0 <= t2,
        0 <= v1,
        0 <= w,
        0 <= z < m,
    ensures
        (d * cube(k)) / cube(m) == q3 + ((r3 + s2 + u1) + (t2 + v1 + w) / m) / m,
{
    let high = r3 + s2 + u1;
    let mid = t2 + v1 + w;
    let j = mid / m;
    let jr = mid % m;
    let e = (high + j) / m;
    let f = (high + j) % m;
    vstd::arithmetic::div_mod::lemma_fundamental_div_mod(mid, m);
    vstd::arithmetic::div_mod::lemma_fundamental_div_mod(high + j, m);
    vstd::arithmetic::div_mod::lemma_mod_pos_bound(mid, m);
    vstd::arithmetic::div_mod::lemma_mod_pos_bound(high + j, m);
    vstd::arithmetic::div_mod::lemma_div_pos_is_pos(mid, m);
    // d k^2 = q2 m^2 + r2 m + r1 k
    assert(d * k * k == q2 * m * m + r2 * m + r1 * k) by (nonlinear_arith)
        requires
            d * k == q1 * m + r1,
            q1 * k == q2 * m + r2,
    ;
    // d k^3 = q3 m^3 + r3 m^2 + (r2 k) m + (r1 k) k
    assert(d * k * k * k == q3 * m * m * m + r3 * m * m + (r2 * k) * m + (r1 * k) * k)
        by (nonlinear_arith)
        requires
            d * k * k == q2 * m * m + r2 * m + r1 * k,
            q2 * k == q3 * m + r3,
    ;
    assert((r2 * k) * m == s2 * m * m + t2 * m) by (nonlinear_arith)
        requires
            r2 * k == s2 * m + t2,
    ;
    assert((r1 * k) * k == u1 * m * m + v1 * m + w * m + z) by (nonlinear_arith)
        requires
            r1 * k == s1 * m + t1,
            s1 * k == u1 * m + v1,
            t1 * k == w * m + z,
    ;
    assert(d * k * k * k == q3 * m * m * m + high * m * m + mid * m + z) by (nonlinear_arith)
        requires
            d * k * k * k == q3 * m * m * m + r3 * m * m + (r2 * k) * m + (r1 * k) * k,
            (r2 * k) * m == s2 * m * m + t2 * m,
            (r1 * k) * k == u1 * m * m + v1 * m + w * m + z,
            high == r3 + s2 + u1,
            mid == t2 + v1 + w,
    ;
    let rest = f * m * m + jr * m + z;
    assert(d * k * k * k == (q3 + e) * (m * m * m) + rest) by (nonlinear_arith)
        requires
            d * k * k * k == q3 * m * m * m + high * m * m + mid * m + z,
            mid == m * j + jr,
            high + j == m * e + f,
            rest == f * m * m + jr * m + z,
    ;
    assert(0 <= rest < m * m * m) by (nonlinear_arith)
        requires
            rest == f * m * m + jr * m + z,
            0 <= f < m,
            0 <= jr < m,
            0 <= z < m,
    ;
    assert(d * cube(k) == d * k * k * k) by (nonlinear_arith)
        requires
            cube(k) == k * k * k,
    ;
    vstd::arithmetic::div_mod::lemma_fundamental_div_mod_converse(
        d * cube(k),
        cube(m),
        q3 + e,
        rest,
    );
}

/// The retention for a file of `size` bytes that comes without an expiry
/// of its own.
pub fn calc_retention(config: &Config, size: usize) -> (seconds: i64)
    requires
        config.valid(),
        size <= config.max_file_size,
    ensures
        seconds == config.retention_of(size as int),
        config.min_expire_duration <= seconds <= config.max_expire_duration,
{
    let d: u64 = (config.max_expire_duration - config.min_expire_duration) as u64;
    let k: u64 = (config.max_file_size - size) as u64;
    let m: u64 = config.max_file_size as u64;
    // Three divisions carry the quotient down ...
    let (q1, r1) = mul_div(d, k, m);
    let (q2, r2) = mul_div(q1, k, m);
    let (q3, r3) = mul_div(q2, k, m);
    // ... and four carry what their remainders still owe.
    let (s2, t2) = mul_div(r2, k, m);
    let (s1, t1) = mul_div(r1, k, m);
    let (u1, v1) = mul_div(s1, k, m);
    let (w, z) = mul_div(t1, k, m);
    let high: u128 = r3 as u128 + s2 as u128 + u1 as u128;
    let mid: u128 = t2 as u128 + v1 as u128 + w as u128;
    let owed: u128 = (high + mid / m as u128) / m as u128;
    proof {
        lemma_share_bounds(d as int, k as int, m as int);
        lemma_cubic_quotient(
            d as int,
            k as int,
            m as int,
            q1 as int,
            r1 as int,
            q2 as int,
            r2 as int,
            q3 as int,
            r3 as int,
            s2 as int,
            t2 as int,
            s1 as int,
            t1 as int,
            u1 as int,
            v1 as int,
            w as int,
            z as int,
        );
    }
    let share: u128 = q3 as u128 + owed;
    config.min_expire_duration + share as i64
}

/// An empty file is kept for the longest retention.
pub proof fn lemma_retention_at_zero(config: Config)
    requires
        config.valid(),
    ensures
        config.retention_of(0) == config.max_expire_duration,
{
    let span = config.max_expire_duration - config.min_expire_duration;
    let cm = cube(config.max_file_size as int);
    lemma_cube_bounds(1, config.max_file_size as int);
    assert((span * cm) / cm == span) by (nonlinear_arith)
        requires
            0 < cm,
    ;
}

/// A file as large as the ceiling is kept for the shortest retention.
pub proof fn lemma_retention_at_ceiling(config: Config)
    requires
        config.valid(),
    ensures
        config.retention_of(config.max_file_size as int) == config.min_expire_duration,
{
    let span = config.max_expire_duration - config.min_expire_duration;
    let cm = cube(config.max_file_size as int);
    lemma_cube_bounds(1, config.max_file_size as int);
    assert(cube(0) == 0);
    assert(span * 0 == 0) by (nonlinear_arith);
    assert(0int / cm == 0) by (nonlinear_arith)
        requires
            0 < cm,
    ;
}

/// Retention never grows with size: of two files under the ceiling, the
/// larger is kept no longer than the smaller.
pub proof fn lemma_retention_monotone(config: Config, smaller: int, larger: int)
    requires
        config.valid(),
        0 <= smaller <= larger <= config.max_file_size,
    ensures
        config.retention_of(larger) <= config.retention_of(smaller),
{
    let span = config.max_expire_duration - config.min_expire_duration;
    let m = config.max_file_size as int;
    let cm = cube(m);
    let cs = cube(m - smaller);
    let cl = cube(m - larger);
    lemma_cube_bounds(1, m);
    lemma_cube_bounds(m - larger, m - smaller);
    assert(span * cl <= span * cs) by (nonlinear_arith)
        requires
            0 <= span,
            cl <= cs,
    ;
    assert((span * cl) / cm <= (span * cs) / cm) by (nonlinear_arith)
        requires
            span * cl <= span * cs,
            0 < cm,
    ;
}

} // verus!
