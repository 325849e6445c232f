//! Saturating fixed-point scalar arithmetic.
//!
//! A scalar of value `SCALE` stands for one world unit. Every operation
//! clamps its result into `[-FX_MAX, FX_MAX]`, so the scalars form a closed,
//! total algebra: no operation overflows and no input has to be rejected.
//! Division truncates toward zero, as a float-to-integer cast would.
use vstd::prelude::*;

verus! {

/// Fixed-point scale: this many fixed-point steps make one world unit.
pub const SCALE: i64 = 1000;

/// Largest magnitude a fixed-point scalar may take.
pub const FX_MAX: i64 = 2_000_000_000;

/// A scalar is well formed when its magnitude is at most `FX_MAX`.
pub open spec fn fx_wf(x: i64) -> bool {
    -FX_MAX <= x <= FX_MAX
}

/// Saturation: clamp an unbounded result into the representable range.
pub open spec fn sat(x: int) -> int {
    if x < -FX_MAX {
        -FX_MAX as int
    } else if x > FX_MAX {
        FX_MAX as int
    } else {
        x
    }
}

/// Division truncated toward zero; defined for positive divisors.
pub open spec fn tdiv(a: int, b: int) -> int {
    if a >= 0 {
        a / b
    } else {
        -((-a) / b)
    }
}

/// The product of two scalars, rescaled and saturated.
pub open spec fn fx_mul_s(a: int, b: int) -> int {
    sat(tdiv(a * b, SCALE as int))
}

/// The quotient of two scalars, rescaled and saturated.
pub open spec fn fx_div_s(a: int, b: int) -> int {
    sat(tdiv(a * SCALE, b))
}

/// Clamp `x` into `[lo, hi]`.
pub open spec fn clamp_s(x: int, lo: int, hi: int) -> int {
    if x < lo {
        lo
    } else if x > hi {
        hi
    } else {
        x
    }
}

/// Floor of the square root of a natural number.
pub open spec fn sqrt_floor(n: nat) -> nat
    decreases n,
{
    if n == 0 {
        0
    } else {
        let p = sqrt_floor((n - 1) as nat);
        if (p + 1) * (p + 1) <= n {
            p + 1
        } else {
            p
        }
    }
}

/// `sqrt_floor(n)` is the unique `r` with `r^2 <= n < (r+1)^2`.
pub proof fn lemma_sqrt_floor(n: nat)
    ensures
        sqrt_floor(n) * sqrt_floor(n) <= n,
        n < (sqrt_floor(n) + 1) * (sqrt_floor(n) + 1),
    decreases n,
{
    if n == 0 {
        assert(sqrt_floor(0) == 0);
        assert((sqrt_floor(0) + 1) * (sqrt_floor(0) + 1) == 1) by (nonlinear_arith)
            requires
                sqrt_floor(0) == 0,
        ;
    } else {
        lemma_sqrt_floor((n - 1) as nat);
        let p = sqrt_floor((n - 1) as nat);
        assert(p * p <= n - 1);
        assert(n - 1 < (p + 1) * (p + 1));
        if (p + 1) * (p + 1) <= n {
            assert(sqrt_floor(n) == p + 1);
            assert(n <= (p + 1) * (p + 1)) by {
                assert(n - 1 < (p + 1) * (p + 1));
            }
            assert(n < (p + 2) * (p + 2)) by (nonlinear_arith)
                requires
                    n <= (p + 1) * (p + 1),
            ;
            assert(sqrt_floor(n) * sqrt_floor(n) <= n);
            assert(n < (sqrt_floor(n) + 1) * (sqrt_floor(n) + 1));
        } else {
            assert(sqrt_floor(n) == p);
            assert(sqrt_floor(n) * sqrt_floor(n) <= n);
            assert(n < (sqrt_floor(n) + 1) * (sqrt_floor(n) + 1));
        }
    }
}

/// Any `r` sandwiched as `r^2 <= n < (r+1)^2` equals `sqrt_floor(n)`.
pub proof fn lemma_sqrt_unique(n: nat, r: nat)
    requires
        r * r <= n,
        n < (r + 1) * (r + 1),
    ensures
        r == sqrt_floor(n),
{
    lemma_sqrt_floor(n);
    let s = sqrt_floor(n);
    assert(r == s) by (nonlinear_arith)
        requires
            r * r <= n,
            n < (r + 1) * (r + 1),
            s * s <= n,
            n < (s + 1) * (s + 1),
    ;
}

/// Saturating addition.
pub fn fx_add(a: i64, b: i64) -> (r: i64)
    requires
        fx_wf(a),
        fx_wf(b),
    ensures
        fx_wf(r),
        r == sat(a + b),
{
    let s: i64 = a + b;
    if s < -FX_MAX {
        -FX_MAX
    } else if s > FX_MAX {
        FX_MAX
    } else {
        s
    }
}

/// Saturating subtraction.
pub fn fx_sub(a: i64, b: i64) -> (r: i64)
    requires
        fx_wf(a),
        fx_wf(b),
    ensures
        fx_wf(r),
        r == sat(a - b),
{
    let s: i64 = a - b;
    if s < -FX_MAX {
        -FX_MAX
    } else if s > FX_MAX {
        FX_MAX
    } else {
        s
    }
}

/// Negation.
pub fn fx_neg(a: i64) -> (r: i64)
    requires
        fx_wf(a),
    ensures
        fx_wf(r),
        r == -a,
{
    -a
}

/// Truncated division of a bounded dividend by a positive divisor.
pub fn tdiv_exec(a: i64, b: i64) -> (r: i64)
    requires
        -0x7000_0000_0000_0000 <= a <= 0x7000_0000_0000_0000,
        0 < b,
    ensures
        r == tdiv(a as int, b as int),
{
    if a >= 0 {
        let q: u64 = (a as u64) / (b as u64);
        q as i64
    } else {
        let n: i64 = -a;
        let q: u64 = (n as u64) / (b as u64);
        proof {
            assert((n as u64) as int == n as int);
            assert(q <= n as u64) by (nonlinear_arith)
                requires
                    q == (n as u64) / (b as u64),
                    b as u64 >= 1,
            ;
        }
        -(q as i64)
    }
}

/// Saturating fixed-point multiplication: `(a * b) / SCALE`, truncated.
pub fn fx_mul(a: i64, b: i64) -> (r: i64)
    requires
        fx_wf(a),
        fx_wf(b),
    ensures
        fx_wf(r),
        r == fx_mul_s(a as int, b as int),
{
    proof {
        assert(-0x7000_0000_0000_0000 <= a * b <= 0x7000_0000_0000_0000) by (nonlinear_arith)
            requires
                fx_wf(a),
                fx_wf(b),
        ;
    }
    let p: i64 = a * b;
    let q: i64 = tdiv_exec(p, SCALE);
    if q < -FX_MAX {
        -FX_MAX
    } else if q > FX_MAX {
        FX_MAX
    } else {
        q
    }
}

/// Saturating fixed-point division: `(a * SCALE) / b`, truncated.
pub fn fx_div(a: i64, b: i64) -> (r: i64)
    requires
        fx_wf(a),
        0 < b,
    ensures
        fx_wf(r),
        r == fx_div_s(a as int, b as int),
{
    let p: i64 = a * SCALE;
    let q: i64 = tdiv_exec(p, b);
    if q < -FX_MAX {
        -FX_MAX
    } else if q > FX_MAX {
        FX_MAX
    } else {
        q
    }
}

/// Clamp a scalar into `[lo, hi]`.
pub fn fx_clamp(x: i64, lo: i64, hi: i64) -> (r: i64)
    requires
        lo <= hi,
    ensures
        r == clamp_s(x as int, lo as int, hi as int),
{
    if x < lo {
        lo
    } else if x > hi {
        hi
    } else {
        x
    }
}

/// Floor square root, by binary search on the result.
pub fn isqrt(n: u64) -> (r: u64)
    ensures
        r == sqrt_floor(n as nat),
{
    let mut lo: u64 = 0;
    let mut hi: u64 = 0x1_0000_0000;
    proof {
        assert((n as int) < 0x1_0000_0000 * 0x1_0000_0000);
    }
    while lo + 1 < hi
        invariant
            0 <= lo < hi <= 0x1_0000_0000,
            lo * lo <= n as int,
            (n as int) < hi * hi,
        decreases hi - lo,
    {
        let mid: u64 = lo + (hi - lo) / 2;
        proof {
            assert(mid * mid <= 0xffff_ffff * 0xffff_ffff) by (nonlinear_arith)
                requires
                    0 <= mid <= 0xffff_ffff,
            ;
        }
        if mid * mid <= n {
            lo = mid;
        } else {
            hi = mid;
        }
    }
    proof {
        lemma_sqrt_unique(n as nat, lo as nat);
    }
    lo
}

} // verus!
