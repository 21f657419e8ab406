//! Fixed-point scalars: a quantity `q` is stored as the integer `q * SCALE`,
//! in the range of `i32`. Products are formed in `i128`, divided with
//! truncation toward zero and saturated back into the `i32` range.
use vstd::prelude::*;

verus! {

/// Number of raw units in one unit of any quantity.
pub const SCALE: i32 = 10000;

/// Tolerance under which a vector counts as zero (one raw unit, 0.0001).
pub const MARGIN: i32 = 1;

pub open spec fn abs(v: int) -> int {
    if v < 0 { -v } else { v }
}

pub open spec fn sign(v: int) -> int {
    if v > 0 { 1 } else if v < 0 { -1 } else { 0 }
}

/// Division rounding toward zero, as Rust's `/` on integers does.
pub open spec fn tdiv(a: int, b: int) -> int {
    if a >= 0 { a / b } else { -((-a) / b) }
}

/// Clamp into the range of `i32`.
pub open spec fn sat(v: int) -> int {
    if v > i32::MAX { i32::MAX as int } else if v < i32::MIN { i32::MIN as int } else { v }
}

pub open spec fn clamp(v: int, lo: int, hi: int) -> int {
    if v < lo { lo } else if v > hi { hi } else { v }
}

/// Integer square root: the largest `r` with `r * r <= n`.
pub open spec fn root(n: nat) -> nat
    decreases n,
{
    if n == 0 {
        0
    } else {
        let r = root((n - 1) as nat);
        if (r + 1) * (r + 1) <= n { (r + 1) as nat } else { r }
    }
}

pub proof fn lemma_root_bounds(n: nat)
    ensures
        root(n) * root(n) <= n,
        n < (root(n) + 1) * (root(n) + 1),
    decreases n,
{
    if n > 0 {
        lemma_root_bounds((n - 1) as nat);
        let r = root((n - 1) as nat);
        if (r + 1) * (r + 1) <= n {
            let q = root(n);
            assert(q == r + 1);
            assert(n < (q + 1) * (q + 1)) by (nonlinear_arith)
                requires n - 1 < (r + 1) * (r + 1), r >= 0, q == r + 1;
            assert(q * q <= n) by (nonlinear_arith)
                requires (r + 1) * (r + 1) <= n, q == r + 1;
        } else {
            let q = root(n);
            assert(q == r);
            assert(q * q <= n) by (nonlinear_arith)
                requires r * r <= n - 1, q == r;
            assert(n < (q + 1) * (q + 1)) by (nonlinear_arith)
                requires n < (r + 1) * (r + 1), q == r;
        }
    } else {
        let q = root(n);
        assert(q == 0);
        assert(n < (q + 1) * (q + 1)) by (nonlinear_arith)
            requires q == 0, n == 0;
    }
}

pub proof fn lemma_root_unique(n: nat, r: nat)
    requires
        r * r <= n,
        n < (r + 1) * (r + 1),
    ensures
        root(n) == r,
{
    lemma_root_bounds(n);
    let q = root(n);
    if q < r {
        assert((q + 1) * (q + 1) <= r * r) by (nonlinear_arith)
            requires q + 1 <= r;
    } else if q > r {
        assert((r + 1) * (r + 1) <= q * q) by (nonlinear_arith)
            requires r + 1 <= q;
    }
}

/// Integer square root of `n`.
pub fn isqrt(n: u64) -> (r: u64)
    ensures
        r == root(n as nat),
        r < 0x1_0000_0000,
{
    let mut lo: u64 = 0;
    let mut hi: u64 = 0x1_0000_0000;
    assert(n < hi * hi) by (nonlinear_arith)
        requires n <= u64::MAX, hi == 0x1_0000_0000u64;
    while hi - lo > 1
        invariant
            lo < hi <= 0x1_0000_0000,
            lo * lo <= n,
            n < hi * hi,
        decreases hi - lo,
    {
        let mid: u64 = lo + (hi - lo) / 2;
        assert((mid as u128) * (mid as u128) < 0x1_0000_0000_0000_0000u128) by (nonlinear_arith)
            requires mid < 0x1_0000_0000u64;
        let sq: u128 = (mid as u128) * (mid as u128);
        if sq <= n as u128 {
            lo = mid;
        } else {
            hi = mid;
        }
    }
    proof {
        lemma_root_unique(n as nat, lo as nat);
    }
    lo
}

pub proof fn lemma_mul_bound(a: int, b: int, ba: int, bb: int)
    requires
        abs(a) <= ba,
        abs(b) <= bb,
    ensures
        abs(a * b) <= ba * bb,
        ba * bb >= 0,
{
    assert(abs(a * b) == abs(a) * abs(b)) by (nonlinear_arith);
    assert(abs(a) * abs(b) <= ba * bb) by (nonlinear_arith)
        requires 0 <= abs(a) <= ba, 0 <= abs(b) <= bb;
}

pub proof fn lemma_tdiv_zero(b: int)
    requires
        b > 0,
    ensures
        tdiv(0, b) == 0,
{
}

/// A quotient is bounded by any `c` with `|a| <= b * c`.
pub proof fn lemma_tdiv_bound(a: int, b: int, c: int)
    requires
        b > 0,
        abs(a) <= b * c,
    ensures
        abs(tdiv(a, b)) <= c,
        abs(tdiv(a, b)) <= abs(a),
{
    let m = abs(a);
    assert(m / b <= c) by (nonlinear_arith)
        requires 0 <= m <= b * c, b > 0;
    assert(m / b <= m) by (nonlinear_arith)
        requires 0 <= m, b > 0;
    assert(m / b >= 0) by (nonlinear_arith)
        requires 0 <= m, b > 0;
}

/// `a / b` rounded toward zero.
pub fn div_trunc(a: i128, b: i128) -> (r: i128)
    requires
        b > 0,
        a > i128::MIN,
    ensures
        r == tdiv(a as int, b as int),
        abs(r as int) <= abs(a as int),
{
    if a >= 0 {
        let q = (a as u128) / (b as u128);
        assert(q <= a) by (nonlinear_arith)
            requires q == (a as u128) / (b as u128), a >= 0, b > 0;
        q as i128
    } else {
        let m: i128 = -a;
        let q = (m as u128) / (b as u128);
        assert(q <= m) by (nonlinear_arith)
            requires q == (m as u128) / (b as u128), m > 0, b > 0;
        -(q as i128)
    }
}

/// `v` clamped into the range of `i32`.
pub fn saturate(v: i128) -> (r: i32)
    ensures
        r == sat(v as int),
{
    if v > i32::MAX as i128 {
        i32::MAX
    } else if v < i32::MIN as i128 {
        i32::MIN
    } else {
        v as i32
    }
}

/// The integer `sign(v)`: 1, -1 or 0.
pub fn signum(v: i32) -> (r: i32)
    ensures
        r == sign(v as int),
{
    if v > 0 {
        1
    } else if v < 0 {
        -1
    } else {
        0
    }
}

} // verus!
