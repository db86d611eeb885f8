//! Integer plane geometry: points, box overlap, rounded square roots and
//! the clamping of a displacement to a maximum length.
//!
//! All coordinates are whole world units, so every answer here is exact.

use vstd::prelude::*;

verus! {

/// A point of the plane, or a displacement, in world units.
#[derive(Clone, Copy, Debug, PartialEq, Eq, Structural)]
pub struct Vec2 {
    pub x: i64,
    pub y: i64,
}

impl Vec2 {
    /// The squared Euclidean length.
    pub open spec fn norm_sq(self) -> int {
        self.x * self.x + self.y * self.y
    }

    /// The point with both coordinates zero.
    pub fn origin() -> (p: Vec2)
        ensures
            p == (Vec2 { x: 0, y: 0 }),
    {
        Vec2 { x: 0, y: 0 }
    }
}

/// Distance between two coordinates.
pub open spec fn gap(a: int, b: int) -> int {
    if a >= b {
        a - b
    } else {
        b - a
    }
}

/// Whether two axis-aligned boxes, each given by its centre and its half
/// extents, share interior points. Boxes that only touch along an edge do
/// not overlap.
pub open spec fn boxes_overlap(center_a: Vec2, half_a: Vec2, center_b: Vec2, half_b: Vec2) -> bool {
    &&& gap(center_a.x as int, center_b.x as int) < half_a.x + half_b.x
    &&& gap(center_a.y as int, center_b.y as int) < half_a.y + half_b.y
}

/// Decides `boxes_overlap` for any four vectors, without overflow.
pub fn overlaps(center_a: Vec2, half_a: Vec2, center_b: Vec2, half_b: Vec2) -> (hit: bool)
    ensures
        hit == boxes_overlap(center_a, half_a, center_b, half_b),
{
    let dx: i128 = if center_a.x >= center_b.x {
        center_a.x as i128 - center_b.x as i128
    } else {
        center_b.x as i128 - center_a.x as i128
    };
    let dy: i128 = if center_a.y >= center_b.y {
        center_a.y as i128 - center_b.y as i128
    } else {
        center_b.y as i128 - center_a.y as i128
    };
    let reach_x: i128 = half_a.x as i128 + half_b.x as i128;
    let reach_y: i128 = half_a.y as i128 + half_b.y as i128;
    dx < reach_x && dy < reach_y
}

/// `r` is the least natural number whose square reaches `n`.
pub open spec fn is_ceil_sqrt(n: nat, r: nat) -> bool {
    &&& r * r >= n
    &&& r == 0 || (r - 1) * (r - 1) < n
}

/// The square root of `n`, rounded up.
pub open spec fn ceil_sqrt(n: nat) -> nat {
    choose|r: nat| is_ceil_sqrt(n, r)
}

/// Squaring keeps the order of natural numbers.
pub proof fn lemma_square_monotone(a: nat, b: nat)
    requires
        a <= b,
    ensures
        a * a <= b * b,
{
    assert(a * a <= b * b) by (nonlinear_arith)
        requires
            0 <= a <= b,
    ;
}

/// At most one number is the rounded-up root of `n`.
pub proof fn lemma_ceil_sqrt_unique(n: nat, r: nat, s: nat)
    requires
        is_ceil_sqrt(n, r),
        is_ceil_sqrt(n, s),
    ensures
        r == s,
{
    if r < s {
        lemma_square_monotone(r, (s - 1) as nat);
    } else if s < r {
        lemma_square_monotone(s, (r - 1) as nat);
    }
}

/// Any witness of `is_ceil_sqrt` is the value of `ceil_sqrt`.
pub proof fn lemma_ceil_sqrt_is(n: nat, r: nat)
    requires
        is_ceil_sqrt(n, r),
    ensures
        ceil_sqrt(n) == r,
{
    lemma_ceil_sqrt_unique(n, r, ceil_sqrt(n));
}

/// Computes the square root rounded up, by bisection.
pub fn ceil_sqrt_u128(n: u128) -> (r: u128)
    ensures
        r == ceil_sqrt(n as nat),
        is_ceil_sqrt(n as nat, r as nat),
        r <= 0x1_0000_0000_0000_0000,
{
    let mut lo: u128 = 0;
    let mut hi: u128 = 0x1_0000_0000_0000_0000;
    assert(hi * hi >= n) by (nonlinear_arith)
        requires
            hi == 0x1_0000_0000_0000_0000,
            n <= u128::MAX,
    ;
    while lo < hi
        invariant
            lo <= hi <= 0x1_0000_0000_0000_0000,
            hi * hi >= n,
            lo == 0 || (lo - 1) * (lo - 1) < n,
        decreases hi - lo,
    {
        let mid: u128 = lo + (hi - lo) / 2;
        assert(mid * mid <= u128::MAX) by (nonlinear_arith)
            requires
                mid <= 0xffff_ffff_ffff_ffff,
        ;
        if mid * mid >= n {
            hi = mid;
        } else {
            lo = mid + 1;
        }
    }
    proof {
        lemma_ceil_sqrt_is(n as nat, lo as nat);
    }
    lo
}

/// The magnitude of a coordinate.
pub open spec fn magnitude(c: int) -> nat {
    if c >= 0 {
        c as nat
    } else {
        (-c) as nat
    }
}

/// One coordinate multiplied by `max / len`, rounded toward zero.
pub open spec fn scale_toward_zero(c: int, max: nat, len: nat) -> int {
    if c >= 0 {
        ((c * max) / (len as int))
    } else {
        -((-c * max) / (len as int))
    }
}

/// The horizontal part of `v` after its length was limited to `max`.
///
/// A vector no longer than `max` is kept. A longer one is shrunk by the
/// factor `max / len`, where `len` is its length rounded up, each
/// coordinate rounded toward zero, so that the result never exceeds `max`.
pub open spec fn clamped_x(v: Vec2, max: nat) -> int {
    if v.norm_sq() <= max * max {
        v.x as int
    } else {
        scale_toward_zero(v.x as int, max, ceil_sqrt(v.norm_sq() as nat))
    }
}

/// The vertical part of `v` after its length was limited to `max`.
pub open spec fn clamped_y(v: Vec2, max: nat) -> int {
    if v.norm_sq() <= max * max {
        v.y as int
    } else {
        scale_toward_zero(v.y as int, max, ceil_sqrt(v.norm_sq() as nat))
    }
}

/// Two coordinates shrunk by `m / l` and rounded down span a vector no
/// longer than `m`, as long as `l` is at least the length of the vector
/// they were taken from.
pub proof fn lemma_shrunk_within(p: nat, q: nat, a: nat, b: nat, m: nat, l: nat)
    requires
        l > 0,
        p * l <= a * m,
        q * l <= b * m,
        a * a + b * b <= l * l,
    ensures
        p * p + q * q <= m * m,
{
    assert((p * l) * (p * l) <= (a * m) * (a * m)) by (nonlinear_arith)
        requires
            0 <= p * l <= a * m,
    ;
    assert((q * l) * (q * l) <= (b * m) * (b * m)) by (nonlinear_arith)
        requires
            0 <= q * l <= b * m,
    ;
    assert((p * p + q * q) * (l * l) == (p * l) * (p * l) + (q * l) * (q * l))
        by (nonlinear_arith);
    assert((a * m) * (a * m) + (b * m) * (b * m) == (a * a + b * b) * (m * m))
        by (nonlinear_arith);
    assert((a * a + b * b) * (m * m) <= (l * l) * (m * m)) by (nonlinear_arith)
        requires
            a * a + b * b <= l * l,
    ;
    assert(p * p + q * q <= m * m) by (nonlinear_arith)
        requires
            (p * p + q * q) * (l * l) <= (m * m) * (l * l),
            l > 0,
    ;
}

/// The magnitude of a coordinate, as a machine number.
fn magnitude_u128(c: i64) -> (m: u128)
    ensures
        m == magnitude(c as int),
        m <= 0x8000_0000_0000_0000,
{
    if c >= 0 {
        c as u128
    } else {
        (-(c as i128)) as u128
    }
}

/// Limits the length of `v` to `max`, keeping its direction up to rounding.
pub fn clamp_length(v: Vec2, max: u64) -> (r: Vec2)
    ensures
        r.x == clamped_x(v, max as nat),
        r.y == clamped_y(v, max as nat),
        r.norm_sq() <= max * max,
        v.norm_sq() <= max * max ==> r == v,
{
    let ax: u128 = magnitude_u128(v.x);
    let ay: u128 = magnitude_u128(v.y);
    let m: u128 = max as u128;
    assert(ax * ax <= 0x4000_0000_0000_0000_0000_0000_0000_0000) by (nonlinear_arith)
        requires
            ax <= 0x8000_0000_0000_0000,
    ;
    assert(ay * ay <= 0x4000_0000_0000_0000_0000_0000_0000_0000) by (nonlinear_arith)
        requires
            ay <= 0x8000_0000_0000_0000,
    ;
    assert(m * m <= u128::MAX) by (nonlinear_arith)
        requires
            m <= 0xffff_ffff_ffff_ffff,
    ;
    assert(ax * ax == v.x * v.x) by (nonlinear_arith)
        requires
            ax == v.x || ax == -v.x,
    ;
    assert(ay * ay == v.y * v.y) by (nonlinear_arith)
        requires
            ay == v.y || ay == -v.y,
    ;
    let norm_sq: u128 = ax * ax + ay * ay;
    if norm_sq <= m * m {
        return v;
    }
    let len: u128 = ceil_sqrt_u128(norm_sq);
    proof {
        // The rounded-up length exceeds `max` and each coordinate's size.
        if len <= m {
            lemma_square_monotone(len as nat, m as nat);
        }
        if len < ax {
            lemma_square_monotone((len + 1) as nat, ax as nat);
            assert((len + 1) * (len + 1) > len * len) by (nonlinear_arith)
                requires
                    len >= 0,
            ;
        }
        if len < ay {
            lemma_square_monotone((len + 1) as nat, ay as nat);
            assert((len + 1) * (len + 1) > len * len) by (nonlinear_arith)
                requires
                    len >= 0,
            ;
        }
        assert(ax * m <= 0x8000_0000_0000_0000 * 0xffff_ffff_ffff_ffff) by (nonlinear_arith)
            requires
                ax <= 0x8000_0000_0000_0000,
                m <= 0xffff_ffff_ffff_ffff,
        ;
        assert(ay * m <= 0x8000_0000_0000_0000 * 0xffff_ffff_ffff_ffff) by (nonlinear_arith)
            requires
                ay <= 0x8000_0000_0000_0000,
                m <= 0xffff_ffff_ffff_ffff,
        ;
    }
    let px: u128 = ax * m / len;
    let py: u128 = ay * m / len;
    proof {
        lemma_quotient_bounds(ax as nat, m as nat, len as nat);
        lemma_quotient_bounds(ay as nat, m as nat, len as nat);
        lemma_shrunk_within(px as nat, py as nat, ax as nat, ay as nat, m as nat, len as nat);
    }
    let rx: i64 = if v.x >= 0 {
        px as i64
    } else {
        (-(px as i128)) as i64
    };
    let ry: i64 = if v.y >= 0 {
        py as i64
    } else {
        (-(py as i128)) as i64
    };
    assert(rx * rx == px * px) by (nonlinear_arith)
        requires
            rx == px || rx == -px,
    ;
    assert(ry * ry == py * py) by (nonlinear_arith)
        requires
            ry == py || ry == -py,
    ;
    Vec2 { x: rx, y: ry }
}

/// A product `a * m` divided by a divisor `l` that exceeds `m`: the
/// quotient times `l` stays under the product, and is less than `a`
/// unless `a` is zero.
pub proof fn lemma_quotient_bounds(a: nat, m: nat, l: nat)
    requires
        m < l,
    ensures
        ((a * m) / l) * l <= a * m,
        (a * m) / l <= a,
        a > 0 ==> (a * m) / l < a,
{
    let prod = a * m;
    let q = prod / l;
    assert(q * l <= prod) by (nonlinear_arith)
        requires
            q == prod / l,
            l > 0,
            prod >= 0,
    ;
    if a > 0 {
        assert(prod < a * l) by (nonlinear_arith)
            requires
                prod == a * m,
                m < l,
                a > 0,
        ;
        if q >= a {
            assert(q * l >= a * l) by (nonlinear_arith)
                requires
                    q >= a,
                    l > 0,
            ;
        }
    } else {
        assert(prod == 0) by (nonlinear_arith)
            requires
                prod == a * m,
                a == 0,
        ;
    }
}

/// Some number at or above `r` is the rounded-up root of `n`, if no
/// smaller number is.
proof fn lemma_ceil_sqrt_from(n: nat, r: nat)
    requires
        r == 0 || (r - 1) * (r - 1) < n,
        r <= n,
    ensures
        exists|s: nat| is_ceil_sqrt(n, s),
    decreases n - r,
{
    if r * r >= n {
        assert(is_ceil_sqrt(n, r));
    } else {
        assert(r < n) by (nonlinear_arith)
            requires
                r * r < n,
        ;
        lemma_ceil_sqrt_from(n, r + 1);
    }
}

/// Every natural number has a rounded-up root.
pub proof fn lemma_ceil_sqrt_exists(n: nat)
    ensures
        is_ceil_sqrt(n, ceil_sqrt(n)),
{
    lemma_ceil_sqrt_from(n, 0);
}

/// A vector whose length was limited to `max` is no longer than `max`,
/// and neither coordinate has grown or changed its sign.
pub proof fn lemma_clamped_within(v: Vec2, max: nat)
    ensures
        clamped_x(v, max) * clamped_x(v, max) + clamped_y(v, max) * clamped_y(v, max) <= max
            * max,
        magnitude(clamped_x(v, max)) <= magnitude(v.x as int),
        magnitude(clamped_y(v, max)) <= magnitude(v.y as int),
        v.x >= 0 ==> clamped_x(v, max) >= 0,
        v.x <= 0 ==> clamped_x(v, max) <= 0,
        v.y >= 0 ==> clamped_y(v, max) >= 0,
        v.y <= 0 ==> clamped_y(v, max) <= 0,
{
    if v.norm_sq() > max * max {
        let a = magnitude(v.x as int);
        let b = magnitude(v.y as int);
        assert(a * a == v.x * v.x) by (nonlinear_arith)
            requires
                a == v.x || a == -v.x,
        ;
        assert(b * b == v.y * v.y) by (nonlinear_arith)
            requires
                b == v.y || b == -v.y,
        ;
        let n = v.norm_sq() as nat;
        let len = ceil_sqrt(n);
        lemma_ceil_sqrt_exists(n);
        if len <= max {
            lemma_square_monotone(len, max);
        }
        let p = (a * max) / len;
        let q = (b * max) / len;
        lemma_quotient_bounds(a, max, len);
        lemma_quotient_bounds(b, max, len);
        lemma_shrunk_within(p, q, a, b, max, len);
        let cx = clamped_x(v, max);
        let cy = clamped_y(v, max);
        assert(cx == p || cx == -p);
        assert(cy == q || cy == -q);
        assert(cx * cx == p * p) by (nonlinear_arith)
            requires
                cx == p || cx == -p,
        ;
        assert(cy * cy == q * q) by (nonlinear_arith)
            requires
                cy == q || cy == -q,
        ;
    }
}

} // verus!
