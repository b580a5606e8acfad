//! Exact 2D vector arithmetic on fixed-point coordinates: squared norms,
//! integer square roots, and the truncate/rescale operations that clamp a
//! vector to a maximum magnitude while keeping its direction.

use vstd::prelude::*;
use vstd::arithmetic::div_mod::{lemma_div_pos_is_pos, lemma_remainder_lower};

verus! {

/// Largest coordinate the vector operations accept; keeps every squared
/// norm below the range of the integer square root.
pub const COMP_LIMIT: i64 = 0x4000_0000_0000_0000;

/// A 2D vector (or point) of fixed-point coordinates.
#[derive(Clone, Copy, Debug, PartialEq, Eq, Structural)]
pub struct V2 {
    pub x: i64,
    pub y: i64,
}

/// Division rounding toward zero, as machine integer division does.
pub open spec fn sdiv(a: int, m: int) -> int {
    if a >= 0 {
        a / m
    } else {
        -((-a) / m)
    }
}

/// `r` is the integer square root of `n`, rounded up.
pub open spec fn is_ceil_sqrt(n: int, r: int) -> bool {
    if n <= 0 {
        r == 0
    } else {
        1 <= r && (r - 1) * (r - 1) < n && n <= r * r
    }
}

/// The integer square root of `n`, rounded up.
pub open spec fn ceil_sqrt(n: int) -> int {
    choose|r: int| is_ceil_sqrt(n, r)
}

/// The components of a vector rescaled so that it keeps its direction and
/// its magnitude becomes at most `len` (exactly `len` up to rounding).
pub open spec fn scale_spec(x: int, y: int, len: int) -> (int, int) {
    let m = ceil_sqrt(x * x + y * y);
    (sdiv(x * len, m), sdiv(y * len, m))
}

/// The truncate ("clamp") rule: a vector whose magnitude exceeds `len` is
/// rescaled to magnitude at most `len`; shorter vectors are left untouched.
pub open spec fn truncate_spec(x: int, y: int, len: int) -> (int, int) {
    if x * x + y * y <= len * len {
        (x, y)
    } else {
        scale_spec(x, y, len)
    }
}

/// An integer square root rounded up exists for every argument.
proof fn lemma_ceil_sqrt_exists(n: int)
    ensures
        exists|r: int| is_ceil_sqrt(n, r),
    decreases n,
{
    if n <= 0 {
        assert(is_ceil_sqrt(n, 0));
    } else if n == 1 {
        assert(is_ceil_sqrt(1, 1));
    } else {
        lemma_ceil_sqrt_exists(n - 1);
        let prev = n - 1;
        let r = choose|r: int| is_ceil_sqrt(prev, r);
        if n <= r * r {
            assert(is_ceil_sqrt(n, r));
        } else {
            assert((r + 1) * (r + 1) == r * r + 2 * r + 1) by (nonlinear_arith);
            assert(is_ceil_sqrt(n, r + 1));
        }
    }
}

/// The integer square root rounded up is unique, so `ceil_sqrt` returns
/// exactly the witness.
pub proof fn lemma_ceil_sqrt_val(n: int, r: int)
    requires
        is_ceil_sqrt(n, r),
    ensures
        ceil_sqrt(n) == r,
{
    lemma_ceil_sqrt_exists(n);
    let rc = ceil_sqrt(n);
    assert(is_ceil_sqrt(n, rc));
    if n > 0 {
        if rc < r {
            assert(rc * rc <= (r - 1) * (r - 1)) by (nonlinear_arith)
                requires
                    1 <= rc,
                    rc <= r - 1,
            ;
            assert(false);
        }
        if r < rc {
            assert(r * r <= (rc - 1) * (rc - 1)) by (nonlinear_arith)
                requires
                    1 <= r,
                    r <= rc - 1,
            ;
            assert(false);
        }
    }
}

/// `ceil_sqrt` itself satisfies the rounded-up square root property.
pub proof fn lemma_ceil_sqrt_is(n: int)
    ensures
        is_ceil_sqrt(n, ceil_sqrt(n)),
{
    lemma_ceil_sqrt_exists(n);
}

/// Truncating division is an odd function of the dividend.
pub proof fn lemma_sdiv_neg(a: int, m: int)
    requires
        m >= 1,
    ensures
        sdiv(-a, m) == -sdiv(a, m),
{
    if a > 0 {
        assert(sdiv(-a, m) == -((a) / m));
    } else if a == 0 {
        assert(sdiv(0, m) == 0) by {
            vstd::arithmetic::div_mod::lemma_div_of0(m);
        };
    }
}

/// A quotient by `m` stays within `c` when the dividend stays within `c * m`.
pub proof fn lemma_sdiv_bound(a: int, c: int, m: int)
    requires
        m >= 1,
        0 <= c,
        -(c * m) <= a <= c * m,
    ensures
        -c <= sdiv(a, m) <= c,
{
    if a >= 0 {
        lemma_div_pos_is_pos(a, m);
        vstd::arithmetic::div_mod::lemma_fundamental_div_mod(a, m);
        vstd::arithmetic::div_mod::lemma_mod_bound(a, m);
        assert(a / m <= c) by (nonlinear_arith)
            requires
                m >= 1,
                0 <= a <= c * m,
                a == m * (a / m) + a % m,
                0 <= a % m,
        ;
    } else {
        lemma_div_pos_is_pos(-a, m);
        vstd::arithmetic::div_mod::lemma_fundamental_div_mod(-a, m);
        vstd::arithmetic::div_mod::lemma_mod_bound(-a, m);
        assert((-a) / m <= c) by (nonlinear_arith)
            requires
                m >= 1,
                0 <= -a <= c * m,
                -a == m * ((-a) / m) + (-a) % m,
                0 <= (-a) % m,
        ;
    }
}

/// A component bound from a squared-norm bound.
pub proof fn lemma_comp_bound(x: int, y: int, l: int)
    requires
        0 <= l,
        x * x + y * y <= l * l,
    ensures
        -l <= x <= l,
        -l <= y <= l,
{
    assert(-l <= x <= l && -l <= y <= l) by (nonlinear_arith)
        requires
            0 <= l,
            x * x + y * y <= l * l,
    ;
}

/// One rescaled component squared, weighted by `m * m`, is bounded by the
/// original component squared weighted by `len * len`.
proof fn lemma_scale_comp(v: int, len: int, m: int)
    requires
        1 <= len,
        1 <= m,
    ensures
        0 <= sdiv(v * len, m) * sdiv(v * len, m),
        sdiv(v * len, m) * sdiv(v * len, m) * (m * m) <= (v * v) * (len * len),
{
    let a: int = if v >= 0 { v * len } else { -(v * len) };
    assert(0 <= a && a * a == (v * v) * (len * len) && (if v >= 0 { v * len >= 0 } else { v * len < 0 })) by (nonlinear_arith)
        requires
            1 <= len,
            a == (if v >= 0 { v * len } else { -(v * len) }),
    ;
    let q = a / m;
    lemma_div_pos_is_pos(a, m);
    lemma_remainder_lower(a, m);
    assert(q * m <= a);
    assert(sdiv(v * len, m) == q || sdiv(v * len, m) == -q);
    assert(sdiv(v * len, m) * sdiv(v * len, m) == q * q) by (nonlinear_arith)
        requires
            sdiv(v * len, m) == q || sdiv(v * len, m) == -q,
    ;
    assert(0 <= q * q && q * q * (m * m) <= a * a) by (nonlinear_arith)
        requires
            0 <= q,
            1 <= m,
            q * m <= a,
    ;
}

/// Rescaling to `len` with any `m` at least the true magnitude yields a
/// vector of magnitude at most `len`.
pub proof fn lemma_scale_norm(x: int, y: int, len: int, m: int)
    requires
        1 <= len,
        1 <= m,
        x * x + y * y <= m * m,
    ensures
        sdiv(x * len, m) * sdiv(x * len, m) + sdiv(y * len, m) * sdiv(y * len, m) <= len * len,
        -len <= sdiv(x * len, m) <= len,
        -len <= sdiv(y * len, m) <= len,
{
    lemma_scale_comp(x, len, m);
    lemma_scale_comp(y, len, m);
    let qx = sdiv(x * len, m);
    let qy = sdiv(y * len, m);
    assert(qx * qx + qy * qy <= len * len) by (nonlinear_arith)
        requires
            1 <= m,
            1 <= len,
            0 <= qx * qx,
            0 <= qy * qy,
            qx * qx * (m * m) <= (x * x) * (len * len),
            qy * qy * (m * m) <= (y * y) * (len * len),
            x * x + y * y <= m * m,
    ;
    lemma_comp_bound(qx, qy, len);
}

/// Law: the truncate rule never returns a vector whose magnitude exceeds
/// the limit, and so never a component beyond the limit either.
pub proof fn lemma_truncate_norm(x: int, y: int, len: int)
    requires
        1 <= len,
    ensures
        ({
            let t = truncate_spec(x, y, len);
            &&& t.0 * t.0 + t.1 * t.1 <= len * len
            &&& -len <= t.0 <= len
            &&& -len <= t.1 <= len
        }),
{
    let ns = x * x + y * y;
    if ns <= len * len {
        lemma_comp_bound(x, y, len);
    } else {
        let m = ceil_sqrt(ns);
        lemma_ceil_sqrt_is(ns);
        assert(ns > 0) by (nonlinear_arith)
            requires
                ns == x * x + y * y,
                ns > len * len,
                1 <= len,
        ;
        lemma_scale_norm(x, y, len, m);
    }
}

/// Law: rescaling is an odd function of the vector, so exactly opposite
/// vectors rescale to exactly opposite results.
pub proof fn lemma_scale_odd(x: int, y: int, len: int)
    requires
        1 <= len,
        x != 0 || y != 0,
    ensures
        scale_spec(-x, -y, len).0 == -scale_spec(x, y, len).0,
        scale_spec(-x, -y, len).1 == -scale_spec(x, y, len).1,
{
    assert((-x) * (-x) + (-y) * (-y) == x * x + y * y && x * x + y * y > 0 && (-x) * len == -(x
        * len) && (-y) * len == -(y * len)) by (nonlinear_arith)
        requires
            x != 0 || y != 0,
    ;
    let ns = x * x + y * y;
    let m = ceil_sqrt(ns);
    lemma_ceil_sqrt_is(ns);
    lemma_sdiv_neg(x * len, m);
    lemma_sdiv_neg(y * len, m);
}

/// Floor integer square root by binary search.
fn isqrt_floor(n: u128) -> (r: u128)
    requires
        n < 0x4000_0000_0000_0000_0000_0000_0000_0000u128,
    ensures
        r * r <= n,
        n < (r + 1) * (r + 1),
        r <= 0x8000_0000_0000_0000u128,
{
    let mut lo: u128 = 0;
    let mut hi: u128 = 0x8000_0000_0000_0000;
    assert(hi * hi == 0x4000_0000_0000_0000_0000_0000_0000_0000u128) by (nonlinear_arith)
        requires
            hi == 0x8000_0000_0000_0000u128,
    ;
    while lo + 1 < hi
        invariant
            lo < hi <= 0x8000_0000_0000_0000u128,
            lo * lo <= n,
            n < hi * hi,
        decreases hi - lo,
    {
        let mid = lo + (hi - lo) / 2;
        assert(lo < mid < hi);
        assert(mid * mid <= 0x4000_0000_0000_0000_0000_0000_0000_0000u128) by (nonlinear_arith)
            requires
                mid <= 0x8000_0000_0000_0000u128,
        ;
        if mid * mid <= n {
            lo = mid;
        } else {
            hi = mid;
        }
    }
    lo
}

/// Ceiling integer square root: the exact executable counterpart of
/// `ceil_sqrt`.
fn isqrt_ceil(n: u128) -> (r: u128)
    requires
        n < 0x4000_0000_0000_0000_0000_0000_0000_0000u128,
    ensures
        is_ceil_sqrt(n as int, r as int),
        r as int == ceil_sqrt(n as int),
        r <= 0x8000_0000_0000_0000u128 + 1,
{
    let f = isqrt_floor(n);
    let r: u128;
    if f * f < n {
        proof {
            assert((f + 1 - 1) * (f + 1 - 1) == f * f) by (nonlinear_arith);
        }
        r = f + 1;
        assert(is_ceil_sqrt(n as int, r as int));
    } else {
        if f == 0 {
            assert(n == 0);
        } else {
            assert(f * f == n);
            assert((f - 1) * (f - 1) < f * f) by (nonlinear_arith)
                requires
                    1 <= f,
            ;
        }
        r = f;
        assert(is_ceil_sqrt(n as int, r as int));
    }
    proof {
        lemma_ceil_sqrt_val(n as int, r as int);
    }
    r
}

/// Division rounding toward zero: the exact executable counterpart of
/// `sdiv`.
pub(crate) fn tdiv(a: i64, m: i64) -> (r: i64)
    requires
        m >= 1,
        a > i64::MIN,
    ensures
        r as int == sdiv(a as int, m as int),
{
    if a >= 0 {
        let q = (a as u64) / (m as u64);
        proof {
            lemma_div_pos_is_pos(a as int, m as int);
            vstd::arithmetic::div_mod::lemma_div_nonincreasing(a as int, m as int);
        }
        q as i64
    } else {
        let q = ((-a) as u64) / (m as u64);
        proof {
            lemma_div_pos_is_pos(-(a as int), m as int);
            vstd::arithmetic::div_mod::lemma_div_nonincreasing(-(a as int), m as int);
        }
        -(q as i64)
    }
}

impl V2 {
    /// The squared magnitude of the vector.
    pub open spec fn norm_sq(self) -> int {
        self.x * self.x + self.y * self.y
    }

    /// Computes the squared magnitude exactly.
    pub fn norm_sq_u(&self) -> (r: u128)
        requires
            -COMP_LIMIT <= self.x <= COMP_LIMIT,
            -COMP_LIMIT <= self.y <= COMP_LIMIT,
        ensures
            r as int == self.norm_sq(),
            r <= 0x2000_0000_0000_0000_0000_0000_0000_0000u128,
    {
        proof {
            assert(self.x * self.x <= 0x1000_0000_0000_0000_0000_0000_0000_0000int && self.x * self.x >= 0)
                by (nonlinear_arith)
                requires
                    -COMP_LIMIT <= self.x <= COMP_LIMIT,
            ;
            assert(self.y * self.y <= 0x1000_0000_0000_0000_0000_0000_0000_0000int && self.y * self.y >= 0)
                by (nonlinear_arith)
                requires
                    -COMP_LIMIT <= self.y <= COMP_LIMIT,
            ;
        }
        let xx = (self.x as i128) * (self.x as i128);
        let yy = (self.y as i128) * (self.y as i128);
        (xx + yy) as u128
    }

    /// Rescales the vector so that it keeps its direction and its magnitude
    /// becomes at most `len`; used both to clamp long vectors and to blow a
    /// short direction up to a desired speed.
    pub fn scale_to(&self, len: i64) -> (r: V2)
        requires
            1 <= len,
            -COMP_LIMIT <= self.x <= COMP_LIMIT,
            -COMP_LIMIT <= self.y <= COMP_LIMIT,
            self.norm_sq() > 0,
            -(i64::MAX as int) <= self.x * len <= i64::MAX as int,
            -(i64::MAX as int) <= self.y * len <= i64::MAX as int,
        ensures
            r.x as int == scale_spec(self.x as int, self.y as int, len as int).0,
            r.y as int == scale_spec(self.x as int, self.y as int, len as int).1,
            r.norm_sq() <= len * len,
            -len <= r.x <= len,
            -len <= r.y <= len,
    {
        let ns = self.norm_sq_u();
        let m128 = isqrt_ceil(ns);
        proof {
            assert(1 <= m128 as int);
            assert(m128 as int <= 0x6000_0000_0000_0000int) by (nonlinear_arith)
                requires
                    is_ceil_sqrt(ns as int, m128 as int),
                    1 <= m128 as int,
                    ns as int <= 0x2000_0000_0000_0000_0000_0000_0000_0000int,
            ;
        }
        let m = m128 as i64;
        let rx = tdiv(self.x * len, m);
        let ry = tdiv(self.y * len, m);
        proof {
            lemma_scale_norm(self.x as int, self.y as int, len as int, m as int);
        }
        V2 { x: rx, y: ry }
    }

    /// Clamps the vector to magnitude at most `len`: a vector over the limit
    /// is rescaled to the limit's magnitude, a vector at or under the limit
    /// is returned untouched.
    pub fn truncate(&self, len: i64) -> (r: V2)
        requires
            1 <= len,
            -COMP_LIMIT <= self.x <= COMP_LIMIT,
            -COMP_LIMIT <= self.y <= COMP_LIMIT,
            -(i64::MAX as int) <= self.x * len <= i64::MAX as int,
            -(i64::MAX as int) <= self.y * len <= i64::MAX as int,
        ensures
            r.x as int == truncate_spec(self.x as int, self.y as int, len as int).0,
            r.y as int == truncate_spec(self.x as int, self.y as int, len as int).1,
            r.norm_sq() <= len * len,
            -len <= r.x <= len,
            -len <= r.y <= len,
    {
        let ns = self.norm_sq_u();
        proof {
            assert((len as u128) * (len as u128) <= 0x4000_0000_0000_0000_0000_0000_0000_0000u128)
                by (nonlinear_arith)
                requires
                    1 <= len <= i64::MAX,
            ;
        }
        let l2 = (len as u128) * (len as u128);
        if ns <= l2 {
            proof {
                lemma_comp_bound(self.x as int, self.y as int, len as int);
            }
            *self
        } else {
            self.scale_to(len)
        }
    }
}

} // verus!
