//! Fixed-point scalars and vectors, and the integer root functions the
//! samplers are built on.

use vstd::math::abs;
use vstd::prelude::*;

verus! {

/// Fixed-point scale: every geometric quantity is an `i64` count of
/// thousandths, so `1000` stands for one world unit or one second.
pub const SCALE: i64 = 1000;

/// Largest magnitude accepted for an emitter centre coordinate.
pub const COORD_LIMIT: i64 = 1_000_000_000;

/// Largest accepted emitter extent: cube edge, sphere radius, spread,
/// or a coordinate of a fixed direction.
pub const EXTENT_LIMIT: i64 = 1_000_000;

/// A world-space vector of three fixed-point coordinates.
#[derive(Clone, Copy, PartialEq, Eq, Structural, Debug)]
pub struct Vec3 {
    pub x: i64,
    pub y: i64,
    pub z: i64,
}

pub open spec fn zero_vec() -> Vec3 {
    Vec3 { x: 0, y: 0, z: 0 }
}

/// All three coordinates lie within `[-b, b]`.
pub open spec fn in_box(v: Vec3, b: int) -> bool {
    &&& -b <= v.x <= b
    &&& -b <= v.y <= b
    &&& -b <= v.z <= b
}

/// The squared Euclidean length, as a mathematical integer.
pub open spec fn norm2(v: Vec3) -> int {
    v.x * v.x + v.y * v.y + v.z * v.z
}

/// Truncating division (the rounding Rust's `/` performs), for a
/// positive divisor.  Spec-mode `/` rounds toward negative infinity, so
/// the negative side is spelled out.
pub open spec fn tdiv(a: int, b: int) -> int {
    if a >= 0 {
        a / b
    } else {
        -((-a) / b)
    }
}

/// `r` is the square root of `n`, rounded down.
pub open spec fn is_sqrt(n: int, r: int) -> bool {
    &&& 0 <= r
    &&& r * r <= n
    &&& n < (r + 1) * (r + 1)
}

/// `r` is the cube root of `n`, rounded down.
pub open spec fn is_cbrt(n: int, r: int) -> bool {
    &&& 0 <= r
    &&& r * r * r <= n
    &&& n < (r + 1) * (r + 1) * (r + 1)
}

/// How far `b * tdiv(a, b)` can sit from `a`: within `b - 1`, on the
/// side of zero.
pub proof fn lemma_tdiv(a: int, b: int)
    requires
        b > 0,
    ensures
        a >= 0 ==> 0 <= tdiv(a, b) && b * tdiv(a, b) <= a && a - b < b * tdiv(a, b),
        a < 0 ==> tdiv(a, b) <= 0 && a <= b * tdiv(a, b) && b * tdiv(a, b) < a + b,
{
    if a >= 0 {
        vstd::arithmetic::div_mod::lemma_remainder(a, b);
        vstd::arithmetic::div_mod::lemma_div_pos_is_pos(a, b);
        assert(b * (a / b) == (a / b) * b) by (nonlinear_arith);
    } else {
        vstd::arithmetic::div_mod::lemma_remainder(-a, b);
        vstd::arithmetic::div_mod::lemma_div_pos_is_pos(-a, b);
        assert(b * -((-a) / b) == -(((-a) / b) * b)) by (nonlinear_arith);
    }
}

/// Scaling back by the divisor stays within the dividend:
/// `b * |tdiv(a, b)| <= |a|`.
pub proof fn lemma_tdiv_abs(a: int, b: int)
    requires
        b > 0,
    ensures
        b * vstd::math::abs(tdiv(a, b)) <= vstd::math::abs(a),
{
    lemma_tdiv(a, b);
    if a < 0 {
        assert(b * -tdiv(a, b) == -(b * tdiv(a, b))) by (nonlinear_arith);
    }
}

/// Truncating division cannot grow a bound: if `|a| <= c * b` then
/// `|tdiv(a, b)| <= c`.
pub proof fn lemma_tdiv_mag(a: int, b: int, c: int)
    requires
        b > 0,
        0 <= c,
        -(c * b) <= a <= c * b,
    ensures
        -c <= tdiv(a, b) <= c,
{
    lemma_tdiv(a, b);
    if a >= 0 {
        if tdiv(a, b) > c {
            assert(b * tdiv(a, b) >= b * (c + 1)) by (nonlinear_arith)
                requires
                    b > 0,
                    tdiv(a, b) >= c + 1,
            ;
            assert(b * (c + 1) > c * b) by (nonlinear_arith)
                requires
                    b > 0,
            ;
        }
    } else {
        if tdiv(a, b) < -c {
            assert(b * tdiv(a, b) <= b * (-c - 1)) by (nonlinear_arith)
                requires
                    b > 0,
                    tdiv(a, b) <= -c - 1,
            ;
            assert(b * (-c - 1) < -(c * b)) by (nonlinear_arith)
                requires
                    b > 0,
            ;
        }
    }
}

/// Squared bounds for one truncating division by `b`: scaled back up,
/// the result's square never exceeds the dividend's, and falls short
/// of it by at most `2 * b * |a|`.
pub proof fn lemma_tdiv_sq(a: int, b: int, r: int)
    requires
        b > 0,
        r == tdiv(a, b),
    ensures
        b * b * (r * r) <= a * a,
        b * b * (r * r) >= a * a - 2 * b * abs(a),
{
    lemma_tdiv(a, b);
    let aa = abs(a) as int;
    let rr = abs(r) as int;
    if a < 0 {
        assert(b * rr == -(b * r)) by (nonlinear_arith)
            requires
                rr == -r,
        ;
    }
    assert(b * rr <= aa && b * rr > aa - b);
    assert(rr * rr == r * r) by (nonlinear_arith)
        requires
            rr == r || rr == -r,
    ;
    assert(aa * aa == a * a) by (nonlinear_arith)
        requires
            aa == a || aa == -a,
    ;
    assert(b * b * (rr * rr) <= aa * aa) by (nonlinear_arith)
        requires
            b > 0,
            0 <= rr,
            0 <= aa,
            b * rr <= aa,
    ;
    if aa > b {
        assert(b * b * (rr * rr) >= aa * aa - 2 * b * aa) by (nonlinear_arith)
            requires
                b > 0,
                0 <= rr,
                b * rr > aa - b,
                aa > b,
        ;
    } else {
        assert(aa * aa - 2 * b * aa <= 0 <= b * b * (rr * rr)) by (nonlinear_arith)
            requires
                0 <= aa <= b,
                b > 0,
                0 <= rr,
        ;
    }
    assert(b * b * (r * r) == b * b * (rr * rr)) by (nonlinear_arith)
        requires
            r * r == rr * rr,
    ;
}

/// The rounded-down square root is monotonic: `n <= c * c` caps it at `c`.
pub proof fn lemma_sqrt_le(n: int, r: int, c: int)
    requires
        is_sqrt(n, r),
        0 <= c,
        n <= c * c,
    ensures
        r <= c,
{
    assert(r <= c) by (nonlinear_arith)
        requires
            0 <= r,
            0 <= c,
            r * r <= n,
            n <= c * c,
    ;
}

/// The rounded-down cube root is monotonic: `n <= c^3` caps it at `c`.
pub proof fn lemma_cbrt_le(n: int, r: int, c: int)
    requires
        is_cbrt(n, r),
        0 <= c,
        n <= c * c * c,
    ensures
        r <= c,
{
    assert(r <= c) by (nonlinear_arith)
        requires
            0 <= r,
            0 <= c,
            r * r * r <= n,
            n <= c * c * c,
    ;
}

/// The square root of `n`, rounded down, by bisection.
pub fn isqrt(n: i64) -> (r: i64)
    requires
        0 <= n <= 20_000_000_000_000,
    ensures
        is_sqrt(n as int, r as int),
        0 <= r <= 4_500_000,
{
    let mut lo: i64 = 0;
    let mut hi: i64 = 4_500_001;
    proof {
        assert(20_000_000_000_000 < 4_500_001i64 * 4_500_001) by (nonlinear_arith);
    }
    while lo + 1 < hi
        invariant
            0 <= lo < hi <= 4_500_001,
            lo * lo <= n,
            n < hi * hi,
        decreases hi - lo,
    {
        let mid = lo + (hi - lo) / 2;
        assert(lo < mid < hi);
        assert(mid * mid <= 4_500_001i64 * 4_500_001) by (nonlinear_arith)
            requires
                0 <= mid <= 4_500_001,
        ;
        if mid * mid <= n {
            lo = mid;
        } else {
            hi = mid;
        }
    }
    proof {
        lemma_sqrt_le(n as int, lo as int, 4_500_000);
    }
    lo
}

/// The cube root of `n`, rounded down, by bisection.
pub fn icbrt(n: i64) -> (r: i64)
    requires
        0 <= n <= 1_000_000_000_000_000_000,
    ensures
        is_cbrt(n as int, r as int),
        0 <= r <= 1_000_000,
{
    let mut lo: i64 = 0;
    let mut hi: i64 = 1_000_001;
    proof {
        assert(1_000_000_000_000_000_000 < 1_000_001i64 * 1_000_001 * 1_000_001) by (nonlinear_arith);
    }
    while lo + 1 < hi
        invariant
            0 <= lo < hi <= 1_000_001,
            lo * lo * lo <= n,
            n < hi * hi * hi,
        decreases hi - lo,
    {
        let mid = lo + (hi - lo) / 2;
        assert(lo < mid < hi);
        assert(0 <= mid * mid <= 1_000_001i64 * 1_000_001) by (nonlinear_arith)
            requires
                0 <= mid <= 1_000_001,
        ;
        assert(0 <= mid * mid * mid <= 1_000_001i64 * 1_000_001 * 1_000_001) by (nonlinear_arith)
            requires
                0 <= mid <= 1_000_001,
        ;
        if mid * mid * mid <= n {
            lo = mid;
        } else {
            hi = mid;
        }
    }
    proof {
        lemma_cbrt_le(n as int, lo as int, 1_000_000);
    }
    lo
}

/// Truncating division of `a` by a positive `b`, as `tdiv` specifies.
pub fn div_trunc(a: i64, b: i64) -> (r: i64)
    requires
        b > 0,
        a > i64::MIN,
    ensures
        r == tdiv(a as int, b as int),
{
    if a >= 0 {
        a / b
    } else {
        -((-a) / b)
    }
}

/// The construction behind `is_scaled_unit`: a magnified copy `f * v`
/// of `v` — the same direction exactly — whose largest coordinate lies
/// in the window where the integer root is sharp, divided coordinate
/// by coordinate by its length `m`, rounded up.
pub open spec fn unit_witness(v: Vec3, len: int, f: int, m: int, r: Vec3) -> bool {
    let wx = v.x * f;
    let wy = v.y * f;
    let wz = v.z * f;
    let n2 = wx * wx + wy * wy + wz * wz;
    &&& 1 <= f
    &&& -2_097_152 <= wx <= 2_097_152
    &&& -2_097_152 <= wy <= 2_097_152
    &&& -2_097_152 <= wz <= 2_097_152
    &&& (524_288 <= wx || wx <= -524_288 || 524_288 <= wy || wy <= -524_288 || 524_288 <= wz
        || wz <= -524_288)
    &&& 0 < m
    &&& (m - 1) * (m - 1) < n2 <= m * m
    &&& r.x == tdiv(wx * len, m)
    &&& r.y == tdiv(wy * len, m)
    &&& r.z == tdiv(wz * len, m)
}

/// `r` is `v` rescaled to length `len`.  The zero vector has no
/// direction and stays zero; any other `v` keeps its direction
/// exactly, and the squared length of the result lands within a
/// 1/262144 fraction and `6 * len` below `len * len`, never above it.
pub open spec fn is_scaled_unit(v: Vec3, len: int, r: Vec3) -> bool {
    if v == zero_vec() {
        r == zero_vec()
    } else {
        &&& norm2(r) <= len * len
        &&& 262_144 * norm2(r) >= 262_143 * (len * len) - 1_572_864 * len
        &&& exists|f: int, m: int| #[trigger] unit_witness(v, len, f, m, r)
    }
}

/// `r` is `v` scaled by the fixed-point factor `s / SCALE`, coordinate
/// by coordinate, truncated.
pub open spec fn is_scaled_frac(v: Vec3, s: int, r: Vec3) -> bool {
    &&& r.x == tdiv(v.x * s, SCALE as int)
    &&& r.y == tdiv(v.y * s, SCALE as int)
    &&& r.z == tdiv(v.z * s, SCALE as int)
}

/// The coordinate-wise difference `a - b` (meaningful when each
/// coordinate difference fits an `i64`).
pub open spec fn vec_diff(a: Vec3, b: Vec3) -> Vec3 {
    Vec3 { x: (a.x - b.x) as i64, y: (a.y - b.y) as i64, z: (a.z - b.z) as i64 }
}

/// `r` is the coordinate-wise sum of `a` and `b`.
pub open spec fn is_vec_sum(a: Vec3, b: Vec3, r: Vec3) -> bool {
    &&& r.x == a.x + b.x
    &&& r.y == a.y + b.y
    &&& r.z == a.z + b.z
}

/// What the witness construction guarantees for the rescaled vector:
/// every coordinate within `len`, the squared length at most
/// `len * len`, and at least `len * len` less a 1/262144 fraction and
/// `6 * len`.
proof fn lemma_unit_bounds(v: Vec3, len: int, f: int, m: int, r: Vec3)
    requires
        unit_witness(v, len, f, m, r),
        0 <= len,
    ensures
        in_box(r, len),
        norm2(r) <= len * len,
        262_144 * norm2(r) >= 262_143 * (len * len) - 1_572_864 * len,
{
    let wx = v.x * f;
    let wy = v.y * f;
    let wz = v.z * f;
    let n2 = wx * wx + wy * wy + wz * wz;
    assert(0 <= wx * wx && 0 <= wy * wy && 0 <= wz * wz) by (nonlinear_arith);
    assert(m >= 524_288) by (nonlinear_arith)
        requires
            0 < m,
            wx * wx + wy * wy + wz * wz <= m * m,
            0 <= wx * wx && 0 <= wy * wy && 0 <= wz * wz,
            524_288 <= wx || wx <= -524_288 || 524_288 <= wy || wy <= -524_288 || 524_288 <= wz
                || wz <= -524_288,
    ;
    assert(-m <= wx <= m && -m <= wy <= m && -m <= wz <= m) by (nonlinear_arith)
        requires
            0 < m,
            wx * wx + wy * wy + wz * wz <= m * m,
            0 <= wx * wx && 0 <= wy * wy && 0 <= wz * wz,
    ;
    assert(-(len * m) <= wx * len <= len * m) by (nonlinear_arith)
        requires
            -m <= wx <= m,
            0 <= len,
    ;
    assert(-(len * m) <= wy * len <= len * m) by (nonlinear_arith)
        requires
            -m <= wy <= m,
            0 <= len,
    ;
    assert(-(len * m) <= wz * len <= len * m) by (nonlinear_arith)
        requires
            -m <= wz <= m,
            0 <= len,
    ;
    lemma_tdiv_mag(wx * len, m, len);
    lemma_tdiv_mag(wy * len, m, len);
    lemma_tdiv_mag(wz * len, m, len);
    lemma_tdiv_sq(wx * len, m, r.x as int);
    lemma_tdiv_sq(wy * len, m, r.y as int);
    lemma_tdiv_sq(wz * len, m, r.z as int);
    let px = (r.x as int) * (r.x as int);
    let py = (r.y as int) * (r.y as int);
    let pz = (r.z as int) * (r.z as int);
    let ax = abs(wx * len) as int;
    let ay = abs(wy * len) as int;
    let az = abs(wz * len) as int;
    assert((wx * len) * (wx * len) == (len * len) * (wx * wx)) by (nonlinear_arith);
    assert((wy * len) * (wy * len) == (len * len) * (wy * wy)) by (nonlinear_arith);
    assert((wz * len) * (wz * len) == (len * len) * (wz * wz)) by (nonlinear_arith);
    // the shortfall of each coordinate is at most 2 * len * m * m
    assert(2 * m * ax <= 2 * len * (m * m) && 2 * m * ay <= 2 * len * (m * m) && 2 * m * az <= 2
        * len * (m * m)) by (nonlinear_arith)
        requires
            0 < m,
            0 <= ax <= len * m,
            0 <= ay <= len * m,
            0 <= az <= len * m,
    ;
    assert(norm2(r) <= len * len) by (nonlinear_arith)
        requires
            0 < m,
            0 <= len,
            norm2(r) == px + py + pz,
            m * m * px <= (len * len) * (wx * wx),
            m * m * py <= (len * len) * (wy * wy),
            m * m * pz <= (len * len) * (wz * wz),
            wx * wx + wy * wy + wz * wz <= m * m,
            0 <= wx * wx && 0 <= wy * wy && 0 <= wz * wz,
    ;
    let l2 = len * len;
    let n2r = norm2(r);
    assert(m * m * n2r >= l2 * n2 - 6 * len * (m * m)) by (nonlinear_arith)
        requires
            n2r == px + py + pz,
            n2 == wx * wx + wy * wy + wz * wz,
            m * m * px >= l2 * (wx * wx) - 2 * len * (m * m),
            m * m * py >= l2 * (wy * wy) - 2 * len * (m * m),
            m * m * pz >= l2 * (wz * wz) - 2 * len * (m * m),
    ;
    assert(l2 * n2 >= l2 * ((m - 1) * (m - 1))) by (nonlinear_arith)
        requires
            n2 >= (m - 1) * (m - 1),
            0 <= len,
            l2 == len * len,
    ;
    assert(262_144 * ((m - 1) * (m - 1)) >= 262_143 * (m * m)) by (nonlinear_arith)
        requires
            m >= 524_288,
    ;
    assert(262_144 * (l2 * ((m - 1) * (m - 1))) >= 262_143 * (l2 * (m * m))) by (nonlinear_arith)
        requires
            262_144 * ((m - 1) * (m - 1)) >= 262_143 * (m * m),
            0 <= len,
            l2 == len * len,
    ;
    assert(262_144 * (m * m * n2r) >= 262_143 * (l2 * (m * m)) - 1_572_864 * (len * (m * m)))
        by (nonlinear_arith)
        requires
            m * m * n2r >= l2 * n2 - 6 * len * (m * m),
            l2 * n2 >= l2 * ((m - 1) * (m - 1)),
            262_144 * (l2 * ((m - 1) * (m - 1))) >= 262_143 * (l2 * (m * m)),
    ;
    assert(262_144 * n2r >= 262_143 * l2 - 1_572_864 * len) by (nonlinear_arith)
        requires
            262_144 * (m * m * n2r) >= 262_143 * (l2 * (m * m)) - 1_572_864 * (len * (m * m)),
            m > 0,
    ;
}

/// The largest coordinate magnitude among the three.
fn max_abs3(x: i64, y: i64, z: i64) -> (m: i64)
    requires
        -2_100_000 <= x <= 2_100_000,
        -2_100_000 <= y <= 2_100_000,
        -2_100_000 <= z <= 2_100_000,
    ensures
        abs(x as int) <= m,
        abs(y as int) <= m,
        abs(z as int) <= m,
        m == abs(x as int) || m == abs(y as int) || m == abs(z as int),
{
    let ax = if x >= 0 {
        x
    } else {
        -x
    };
    let ay = if y >= 0 {
        y
    } else {
        -y
    };
    let az = if z >= 0 {
        z
    } else {
        -z
    };
    let mut m = ax;
    if ay > m {
        m = ay;
    }
    if az > m {
        m = az;
    }
    m
}

/// Rescale `v` to length `len`, leaving the zero vector zero (it has
/// no direction).  The vector is first doubled until its largest
/// coordinate reaches the root window — which keeps the direction
/// exact and the integer square root sharp — then divided by its
/// length, rounded up, so the result never comes out longer than
/// `len` and falls at most a fraction of a percent short of it.
pub fn scale_to_length(v: Vec3, len: i64) -> (r: Vec3)
    requires
        in_box(v, 2_000_000),
        0 <= len <= EXTENT_LIMIT,
    ensures
        is_scaled_unit(v, len as int, r),
        in_box(r, len as int),
{
    if v.x == 0 && v.y == 0 && v.z == 0 {
        return Vec3 { x: 0, y: 0, z: 0 };
    }
    let mut f: i64 = 1;
    let mut wx = v.x;
    let mut wy = v.y;
    let mut wz = v.z;
    let mut mag = max_abs3(wx, wy, wz);
    while mag < 524_288
        invariant
            wx == v.x * f,
            wy == v.y * f,
            wz == v.z * f,
            1 <= f <= mag,
            1 <= mag <= 2_000_000,
            -2_097_152 <= wx <= 2_097_152,
            -2_097_152 <= wy <= 2_097_152,
            -2_097_152 <= wz <= 2_097_152,
            abs(wx as int) <= mag,
            abs(wy as int) <= mag,
            abs(wz as int) <= mag,
            mag == abs(wx as int) || mag == abs(wy as int) || mag == abs(wz as int),
        decreases 1_048_576 - mag,
    {
        let ghost owx = wx as int;
        let ghost owy = wy as int;
        let ghost owz = wz as int;
        let ghost omag = mag as int;
        wx = wx * 2;
        wy = wy * 2;
        wz = wz * 2;
        proof {
            assert(v.x * (f * 2) == (v.x * f) * 2) by (nonlinear_arith);
            assert(v.y * (f * 2) == (v.y * f) * 2) by (nonlinear_arith);
            assert(v.z * (f * 2) == (v.z * f) * 2) by (nonlinear_arith);
        }
        f = f * 2;
        mag = max_abs3(wx, wy, wz);
        proof {
            assert(abs(wx as int) == 2 * abs(owx));
            assert(abs(wy as int) == 2 * abs(owy));
            assert(abs(wz as int) == 2 * abs(owz));
            assert(mag == 2 * omag);
        }
    }
    proof {
        assert(524_288 <= wx || wx <= -524_288 || 524_288 <= wy || wy <= -524_288 || 524_288 <= wz
            || wz <= -524_288);
        assert(0 <= wx * wx <= 2_097_152i64 * 2_097_152) by (nonlinear_arith)
            requires
                -2_097_152 <= wx <= 2_097_152,
        ;
        assert(0 <= wy * wy <= 2_097_152i64 * 2_097_152) by (nonlinear_arith)
            requires
                -2_097_152 <= wy <= 2_097_152,
        ;
        assert(0 <= wz * wz <= 2_097_152i64 * 2_097_152) by (nonlinear_arith)
            requires
                -2_097_152 <= wz <= 2_097_152,
        ;
        assert(wx * wx >= 524_288i64 * 524_288 || wy * wy >= 524_288i64 * 524_288 || wz * wz
            >= 524_288i64 * 524_288) by (nonlinear_arith)
            requires
                524_288 <= wx || wx <= -524_288 || 524_288 <= wy || wy <= -524_288 || 524_288 <= wz
                    || wz <= -524_288,
        ;
    }
    let n2 = wx * wx + wy * wy + wz * wz;
    let m0 = isqrt(n2);
    let m = if m0 * m0 == n2 {
        m0
    } else {
        m0 + 1
    };
    proof {
        assert(m0 >= 1) by (nonlinear_arith)
            requires
                0 <= m0,
                n2 >= 1,
                n2 < (m0 + 1) * (m0 + 1),
        ;
        if m == m0 {
            assert((m0 - 1) * (m0 - 1) < m0 * m0) by (nonlinear_arith)
                requires
                    m0 >= 1,
            ;
        }
        assert((m as int - 1) * (m as int - 1) < n2 <= m * m);
        assert(-(2_097_152i64 * 1_000_000) <= wx * len <= 2_097_152i64 * 1_000_000)
            by (nonlinear_arith)
            requires
                -2_097_152 <= wx <= 2_097_152,
                0 <= len <= 1_000_000,
        ;
        assert(-(2_097_152i64 * 1_000_000) <= wy * len <= 2_097_152i64 * 1_000_000)
            by (nonlinear_arith)
            requires
                -2_097_152 <= wy <= 2_097_152,
                0 <= len <= 1_000_000,
        ;
        assert(-(2_097_152i64 * 1_000_000) <= wz * len <= 2_097_152i64 * 1_000_000)
            by (nonlinear_arith)
            requires
                -2_097_152 <= wz <= 2_097_152,
                0 <= len <= 1_000_000,
        ;
    }
    let r = Vec3 { x: div_trunc(wx * len, m), y: div_trunc(wy * len, m), z: div_trunc(wz * len, m) };
    proof {
        assert(unit_witness(v, len as int, f as int, m as int, r));
        lemma_unit_bounds(v, len as int, f as int, m as int, r);
    }
    r
}

/// Scale `v` by the fixed-point factor `s / SCALE`.  When `v` lies in
/// the unit box, no coordinate of the result exceeds `s` in magnitude;
/// a `v` no longer than one unit yields a result no longer than `s`,
/// and the squared length falls short of `v`'s share of `s * s` by at
/// most `6 * s`.
pub fn scale_frac(v: Vec3, s: i64) -> (r: Vec3)
    requires
        in_box(v, SCALE as int),
        0 <= s <= EXTENT_LIMIT,
    ensures
        is_scaled_frac(v, s as int, r),
        in_box(r, s as int),
        norm2(v) <= SCALE * SCALE ==> norm2(r) <= s * s,
        (SCALE * SCALE) * norm2(r) >= (s * s) * norm2(v) - 6 * s * (SCALE * SCALE),
{
    proof {
        assert(-(s * SCALE) <= v.x * s <= s * SCALE) by (nonlinear_arith)
            requires
                -SCALE <= v.x <= SCALE,
                0 <= s,
        ;
        assert(-(s * SCALE) <= v.y * s <= s * SCALE) by (nonlinear_arith)
            requires
                -SCALE <= v.y <= SCALE,
                0 <= s,
        ;
        assert(-(s * SCALE) <= v.z * s <= s * SCALE) by (nonlinear_arith)
            requires
                -SCALE <= v.z <= SCALE,
                0 <= s,
        ;
        lemma_tdiv_mag(v.x as int * s, SCALE as int, s as int);
        lemma_tdiv_mag(v.y as int * s, SCALE as int, s as int);
        lemma_tdiv_mag(v.z as int * s, SCALE as int, s as int);
    }
    let rx = div_trunc(v.x * s, SCALE);
    let ry = div_trunc(v.y * s, SCALE);
    let rz = div_trunc(v.z * s, SCALE);
    let r = Vec3 { x: rx, y: ry, z: rz };
    proof {
        lemma_tdiv_sq(v.x as int * s, SCALE as int, rx as int);
        lemma_tdiv_sq(v.y as int * s, SCALE as int, ry as int);
        lemma_tdiv_sq(v.z as int * s, SCALE as int, rz as int);
        assert((v.x * s) * (v.x * s) == (s * s) * (v.x * v.x)) by (nonlinear_arith);
        assert((v.y * s) * (v.y * s) == (s * s) * (v.y * v.y)) by (nonlinear_arith);
        assert((v.z * s) * (v.z * s) == (s * s) * (v.z * v.z)) by (nonlinear_arith);
        let sq = s * s;
        assert(sq * (v.x * v.x) + sq * (v.y * v.y) + sq * (v.z * v.z) == sq * norm2(v))
            by (nonlinear_arith)
            requires
                norm2(v) == v.x * v.x + v.y * v.y + v.z * v.z,
                sq == s * s,
        ;
        if norm2(v) <= SCALE * SCALE {
            assert(sq * norm2(v) <= sq * (SCALE * SCALE)) by (nonlinear_arith)
                requires
                    norm2(v) <= SCALE * SCALE,
                    0 <= s,
                    sq == s * s,
            ;
            assert((SCALE * SCALE) * (s * s) == sq * (SCALE * SCALE)) by (nonlinear_arith)
                requires
                    sq == s * s,
            ;
        }
    }
    r
}

/// Coordinate-wise vector sum.
pub fn vec_add(a: Vec3, b: Vec3) -> (r: Vec3)
    requires
        in_box(a, 2_000_000_000),
        in_box(b, 2_000_000_000),
    ensures
        is_vec_sum(a, b, r),
{
    Vec3 { x: a.x + b.x, y: a.y + b.y, z: a.z + b.z }
}

} // verus!
