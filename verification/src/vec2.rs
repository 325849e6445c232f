//! Fixed-point 2D vectors.
//!
//! Components are saturating fixed-point scalars (see [`crate::fx`]).
//! `normalize` maps a nonzero vector onto one of length close to one world
//! unit (`SCALE`); the zero vector falls back to the positive x axis, the
//! documented policy for the degenerate case.
use vstd::prelude::*;
use crate::fx::{
    fx_wf, sat, tdiv, fx_mul_s, sqrt_floor, fx_add, fx_sub, fx_mul, fx_clamp, isqrt,
    lemma_sqrt_floor, clamp_s, SCALE, FX_MAX,
};

verus! {

/// A 2D vector of fixed-point scalars.
#[derive(Clone, Copy, Debug, PartialEq, Eq, Structural)]
pub struct Vec2 {
    pub x: i64,
    pub y: i64,
}

/// Both components are well-formed scalars.
pub open spec fn v2_wf(v: Vec2) -> bool {
    fx_wf(v.x) && fx_wf(v.y)
}

/// Squared length, exact (no saturation).
pub open spec fn len_sq_s(v: Vec2) -> int {
    v.x * v.x + v.y * v.y
}

/// Length: floor square root of the squared length.
pub open spec fn len_s(v: Vec2) -> int {
    sqrt_floor(len_sq_s(v) as nat) as int
}

/// x component of the normalized vector; `(SCALE, 0)` for the zero vector.
pub open spec fn norm_x_s(v: Vec2) -> int {
    if v.x == 0 && v.y == 0 {
        SCALE as int
    } else {
        tdiv(v.x * SCALE, len_s(v))
    }
}

/// y component of the normalized vector; `(SCALE, 0)` for the zero vector.
pub open spec fn norm_y_s(v: Vec2) -> int {
    if v.x == 0 && v.y == 0 {
        0
    } else {
        tdiv(v.y * SCALE, len_s(v))
    }
}

/// Dot product in world units: `(a.x b.x + a.y b.y) / SCALE`, saturated.
pub open spec fn dot_s(a: Vec2, b: Vec2) -> int {
    sat(fx_mul_s(a.x as int, b.x as int) + fx_mul_s(a.y as int, b.y as int))
}

/// The normalized vector, as a value.
pub open spec fn norm_s(v: Vec2) -> Vec2 {
    Vec2 { x: norm_x_s(v) as i64, y: norm_y_s(v) as i64 }
}

/// Componentwise saturating vector sum.
pub open spec fn v_add_s(a: Vec2, b: Vec2) -> Vec2 {
    Vec2 { x: sat(a.x + b.x) as i64, y: sat(a.y + b.y) as i64 }
}

/// Componentwise saturating vector difference.
pub open spec fn v_sub_s(a: Vec2, b: Vec2) -> Vec2 {
    Vec2 { x: sat(a.x - b.x) as i64, y: sat(a.y - b.y) as i64 }
}

/// Vector scaled by a fixed-point scalar.
pub open spec fn v_scale_s(v: Vec2, s: int) -> Vec2 {
    Vec2 { x: fx_mul_s(v.x as int, s) as i64, y: fx_mul_s(v.y as int, s) as i64 }
}

/// Absolute value.
pub open spec fn abs_s(x: int) -> int {
    if x < 0 {
        -x
    } else {
        x
    }
}

impl Vec2 {
    /// Build a vector from its components.
    pub fn new(x: i64, y: i64) -> (r: Vec2)
        requires
            fx_wf(x),
            fx_wf(y),
        ensures
            r == (Vec2 { x, y }),
            v2_wf(r),
    {
        Vec2 { x, y }
    }

    /// The zero vector.
    pub fn zero() -> (r: Vec2)
        ensures
            r == (Vec2 { x: 0, y: 0 }),
            v2_wf(r),
    {
        Vec2 { x: 0, y: 0 }
    }

    /// Componentwise saturating addition.
    pub fn add(self, o: Vec2) -> (r: Vec2)
        requires
            v2_wf(self),
            v2_wf(o),
        ensures
            v2_wf(r),
            r.x == sat(self.x + o.x),
            r.y == sat(self.y + o.y),
    {
        Vec2 { x: fx_add(self.x, o.x), y: fx_add(self.y, o.y) }
    }

    /// Componentwise saturating subtraction.
    pub fn sub(self, o: Vec2) -> (r: Vec2)
        requires
            v2_wf(self),
            v2_wf(o),
        ensures
            v2_wf(r),
            r.x == sat(self.x - o.x),
            r.y == sat(self.y - o.y),
    {
        Vec2 { x: fx_sub(self.x, o.x), y: fx_sub(self.y, o.y) }
    }

    /// Scale by a fixed-point scalar.
    pub fn scale(self, s: i64) -> (r: Vec2)
        requires
            v2_wf(self),
            fx_wf(s),
        ensures
            v2_wf(r),
            r.x == fx_mul_s(self.x as int, s as int),
            r.y == fx_mul_s(self.y as int, s as int),
    {
        Vec2 { x: fx_mul(self.x, s), y: fx_mul(self.y, s) }
    }

    /// Dot product in world units.
    pub fn dot(self, o: Vec2) -> (r: i64)
        requires
            v2_wf(self),
            v2_wf(o),
        ensures
            fx_wf(r),
            r == dot_s(self, o),
    {
        fx_add(fx_mul(self.x, o.x), fx_mul(self.y, o.y))
    }

    /// Squared length, as an unsigned 64-bit value (always exact).
    pub fn len_sq(self) -> (r: u64)
        requires
            v2_wf(self),
        ensures
            r == len_sq_s(self),
    {
        proof {
            assert(0 <= self.x * self.x <= 0x3800_0000_0000_0000int && 0 <= self.y * self.y
                <= 0x3800_0000_0000_0000int) by (nonlinear_arith)
                requires
                    fx_wf(self.x),
                    fx_wf(self.y),
            ;
        }
        let xx: i64 = self.x * self.x;
        let yy: i64 = self.y * self.y;
        (xx as u64) + (yy as u64)
    }

    /// Length (floor of the Euclidean norm), at most `3_000_000_000`.
    pub fn length(self) -> (r: i64)
        requires
            v2_wf(self),
        ensures
            r == len_s(self),
            0 <= r <= 3_000_000_000,
            (r == 0) <==> (self.x == 0 && self.y == 0),
    {
        let sq: u64 = self.len_sq();
        let r64: u64 = isqrt(sq);
        proof {
            lemma_sqrt_floor(sq as nat);
            assert(sq <= 0x7000_0000_0000_0000int) by (nonlinear_arith)
                requires
                    fx_wf(self.x),
                    fx_wf(self.y),
                    sq == self.x * self.x + self.y * self.y,
            ;
            assert(r64 * r64 <= sq);
            assert(r64 < 3_000_000_000) by (nonlinear_arith)
                requires
                    r64 * r64 <= sq,
                    sq <= 0x7000_0000_0000_0000int,
            ;
            if self.x == 0 && self.y == 0 {
                assert(sq == 0) by (nonlinear_arith)
                    requires
                        sq == self.x * self.x + self.y * self.y,
                        self.x == 0,
                        self.y == 0,
                ;
            } else {
                assert(sq > 0) by (nonlinear_arith)
                    requires
                        sq == self.x * self.x + self.y * self.y,
                        !(self.x == 0 && self.y == 0),
                ;
                assert(r64 >= 1) by {
                    assert(sq < (r64 + 1) * (r64 + 1));
                    if r64 == 0 {
                        assert((r64 + 1) * (r64 + 1) == 1) by (nonlinear_arith)
                            requires
                                r64 == 0,
                        ;
                    }
                }
            }
        }
        r64 as i64
    }

    /// Normalize to a vector of length close to `SCALE` (one world unit).
    /// The zero vector maps to the positive x axis.
    pub fn normalize(self) -> (r: Vec2)
        requires
            v2_wf(self),
        ensures
            v2_wf(r),
            r.x == norm_x_s(self),
            r.y == norm_y_s(self),
            -SCALE <= r.x <= SCALE,
            -SCALE <= r.y <= SCALE,
    {
        let len: i64 = self.length();
        if len == 0 {
            Vec2 { x: SCALE, y: 0 }
        } else {
            proof {
                lemma_sqrt_floor(len_sq_s(self) as nat);
                assert(self.x * self.x <= len_sq_s(self) && self.y * self.y <= len_sq_s(self))
                    by (nonlinear_arith)
                    requires
                        len_sq_s(self) == self.x * self.x + self.y * self.y,
                ;
                lemma_component_le_len(self.x as int, len_sq_s(self), len as int);
                lemma_component_le_len(self.y as int, len_sq_s(self), len as int);
                lemma_norm_component_bound(self.x as int, len as int);
                lemma_norm_component_bound(self.y as int, len as int);
            }
            let nx: i64 = crate::fx::fx_div(self.x, len);
            let ny: i64 = crate::fx::fx_div(self.y, len);
            Vec2 { x: nx, y: ny }
        }
    }

    /// Clamp the length to at most `max_len`, keeping the direction.
    pub fn clamp_length_max(self, max_len: i64) -> (r: Vec2)
        requires
            v2_wf(self),
            0 <= max_len <= FX_MAX,
        ensures
            v2_wf(r),
            len_s(self) <= max_len ==> r == self,
            len_s(self) > max_len ==> r.x == sat(tdiv(self.x * max_len, len_s(self))) && r.y
                == sat(tdiv(self.y * max_len, len_s(self))),
    {
        let len: i64 = self.length();
        if len <= max_len {
            self
        } else {
            proof {
                assert(-0x7000_0000_0000_0000 <= self.x * max_len <= 0x7000_0000_0000_0000int
                    && -0x7000_0000_0000_0000 <= self.y * max_len <= 0x7000_0000_0000_0000int)
                    by (nonlinear_arith)
                    requires
                        fx_wf(self.x),
                        fx_wf(self.y),
                        0 <= max_len <= FX_MAX,
                ;
            }
            let px: i64 = self.x * max_len;
            let py: i64 = self.y * max_len;
            let qx: i64 = crate::fx::tdiv_exec(px, len);
            let qy: i64 = crate::fx::tdiv_exec(py, len);
            Vec2 { x: sat_exec(qx), y: sat_exec(qy) }
        }
    }
}

/// A component is bounded by the vector's length: `x^2 <= n < (l+1)^2`
/// forces `|x| <= l`.
proof fn lemma_component_le_len(x: int, n: int, l: int)
    requires
        x * x <= n,
        0 <= l,
        n < (l + 1) * (l + 1),
    ensures
        -l <= x <= l,
{
    assert(-l <= x <= l) by (nonlinear_arith)
        requires
            x * x <= n,
            0 <= l,
            n < (l + 1) * (l + 1),
    ;
}

/// A normalized component `x * SCALE / l` with `|x| <= l` is at most
/// `SCALE` in magnitude.
proof fn lemma_norm_component_bound(x: int, l: int)
    requires
        -l <= x <= l,
        0 < l,
    ensures
        -SCALE <= tdiv(x * SCALE, l) <= SCALE,
        sat(tdiv(x * SCALE, l)) == tdiv(x * SCALE, l),
{
    if x >= 0 {
        assert(x * SCALE <= l * SCALE) by (nonlinear_arith)
            requires
                x <= l,
                SCALE > 0,
        ;
        assert(0 <= (x * SCALE) / l && (x * SCALE) / l <= SCALE) by (nonlinear_arith)
            requires
                0 <= x * SCALE <= l * SCALE,
                0 < l,
        ;
    } else {
        assert((-x) * SCALE <= l * SCALE) by (nonlinear_arith)
            requires
                -x <= l,
                SCALE > 0,
        ;
        assert(0 <= ((-x) * SCALE) / l && ((-x) * SCALE) / l <= SCALE) by (nonlinear_arith)
            requires
                0 <= (-x) * SCALE <= l * SCALE,
                0 < l,
        ;
        assert(-(x * SCALE) == (-x) * SCALE) by (nonlinear_arith);
    }
}

/// The floor square root of a perfect square is exact.
pub proof fn lemma_sqrt_floor_square(x: int)
    requires
        0 <= x,
    ensures
        sqrt_floor((x * x) as nat) == x,
{
    assert(x * x < (x + 1) * (x + 1)) by (nonlinear_arith)
        requires
            0 <= x,
    ;
    crate::fx::lemma_sqrt_unique((x * x) as nat, x as nat);
}

/// Both components of a normalized vector stay within one world unit in
/// magnitude, for every input vector.
pub proof fn lemma_normalize_bounded(v: Vec2)
    requires
        v2_wf(v),
    ensures
        -SCALE <= norm_x_s(v) <= SCALE,
        -SCALE <= norm_y_s(v) <= SCALE,
{
    if v.x == 0 && v.y == 0 {
    } else {
        let n = len_sq_s(v);
        let l = len_s(v);
        lemma_sqrt_floor(n as nat);
        assert(v.x * v.x <= n && v.y * v.y <= n) by (nonlinear_arith)
            requires
                n == v.x * v.x + v.y * v.y,
        ;
        if l == 0 {
            assert((l + 1) * (l + 1) == 1) by (nonlinear_arith)
                requires
                    l == 0,
            ;
            assert(n < 1);
            assert(n > 0) by (nonlinear_arith)
                requires
                    n == v.x * v.x + v.y * v.y,
                    !(v.x == 0 && v.y == 0),
            ;
        }
        lemma_component_le_len(v.x as int, n, l);
        lemma_component_le_len(v.y as int, n, l);
        lemma_norm_component_bound(v.x as int, l);
        lemma_norm_component_bound(v.y as int, l);
    }
}

/// On the x axis normalization is exact: a vector `(x, 0)` with `x != 0`
/// maps to exactly one world unit along the axis, keeping the sign.
pub proof fn lemma_normalize_unit_axis(v: Vec2)
    requires
        v2_wf(v),
        v.y == 0,
        v.x != 0,
    ensures
        norm_y_s(v) == 0,
        v.x > 0 ==> norm_x_s(v) == SCALE,
        v.x < 0 ==> norm_x_s(v) == -SCALE,
{
    let n = len_sq_s(v);
    let ax: int = if v.x < 0 {
        -(v.x as int)
    } else {
        v.x as int
    };
    assert(n == ax * ax) by (nonlinear_arith)
        requires
            n == v.x * v.x + v.y * v.y,
            v.y == 0,
            ax == abs_s(v.x as int),
    ;
    lemma_sqrt_floor_square(ax);
    assert(len_s(v) == ax);
    assert((ax * SCALE) / ax == SCALE) by (nonlinear_arith)
        requires
            ax > 0,
    ;
    if v.x > 0 {
        assert(norm_x_s(v) == tdiv(v.x * SCALE, ax));
    } else {
        assert(-(v.x * SCALE) == ax * SCALE) by (nonlinear_arith)
            requires
                ax == -(v.x as int),
        ;
    }
}

/// For an offset of at least one world unit, the contact normal is a
/// unit vector up to fixed-point truncation: its squared length lies
/// strictly between `(SCALE - 3)^2` and `(SCALE + 1)^2`.
pub proof fn lemma_normalize_near_unit(v: Vec2)
    requires
        v2_wf(v),
        len_sq_s(v) >= SCALE * SCALE,
    ensures
        (SCALE - 3) * (SCALE - 3) < len_sq_s(norm_s(v)),
        len_sq_s(norm_s(v)) < (SCALE + 1) * (SCALE + 1),
{
    let n = len_sq_s(v);
    let l = len_s(v);
    lemma_sqrt_floor(n as nat);
    assert(l >= SCALE) by (nonlinear_arith)
        requires
            n < (l + 1) * (l + 1),
            n >= SCALE * SCALE,
            l >= 0,
            SCALE > 0,
    ;
    let a = abs_s(v.x as int);
    let b = abs_s(v.y as int);
    assert(a * a == v.x * v.x && b * b == v.y * v.y) by (nonlinear_arith)
        requires
            a == abs_s(v.x as int),
            b == abs_s(v.y as int),
    ;
    lemma_component_le_len(v.x as int, n, l);
    lemma_component_le_len(v.y as int, n, l);
    let na = (a * SCALE) / l;
    let nb = (b * SCALE) / l;
    assert(!(v.x == 0 && v.y == 0)) by (nonlinear_arith)
        requires
            n == v.x * v.x + v.y * v.y,
            n >= SCALE * SCALE,
            SCALE > 0,
    ;
    assert(abs_s(norm_x_s(v)) == na && abs_s(norm_y_s(v)) == nb) by {
        if v.x >= 0 {
            assert(v.x * SCALE >= 0) by (nonlinear_arith)
                requires
                    v.x >= 0,
                    SCALE > 0,
            ;
            assert(norm_x_s(v) == (v.x * SCALE) / l);
            assert(v.x * SCALE == a * SCALE);
        } else {
            assert(-(v.x * SCALE) == a * SCALE) by (nonlinear_arith)
                requires
                    a == -(v.x as int),
            ;
            assert(norm_x_s(v) == -((a * SCALE) / l));
        }
        if v.y >= 0 {
            assert(v.y * SCALE >= 0) by (nonlinear_arith)
                requires
                    v.y >= 0,
                    SCALE > 0,
            ;
            assert(norm_y_s(v) == (v.y * SCALE) / l);
            assert(v.y * SCALE == b * SCALE);
        } else {
            assert(-(v.y * SCALE) == b * SCALE) by (nonlinear_arith)
                requires
                    b == -(v.y as int),
            ;
            assert(norm_y_s(v) == -((b * SCALE) / l));
        }
    }
    assert(len_sq_s(norm_s(v)) == na * na + nb * nb) by (nonlinear_arith)
        requires
            abs_s(norm_x_s(v)) == na,
            abs_s(norm_y_s(v)) == nb,
            len_sq_s(norm_s(v)) == norm_x_s(v) * norm_x_s(v) + norm_y_s(v) * norm_y_s(v),
    ;
    vstd::arithmetic::div_mod::lemma_fundamental_div_mod(a * SCALE, l);
    vstd::arithmetic::div_mod::lemma_fundamental_div_mod(b * SCALE, l);
    vstd::arithmetic::div_mod::lemma_mod_bound(a * SCALE, l);
    vstd::arithmetic::div_mod::lemma_mod_bound(b * SCALE, l);
    assert(na * l <= a * SCALE && a * SCALE < (na + 1) * l) by (nonlinear_arith)
        requires
            a * SCALE == l * na + (a * SCALE) % l,
            0 <= (a * SCALE) % l < l,
    ;
    assert(nb * l <= b * SCALE && b * SCALE < (nb + 1) * l) by (nonlinear_arith)
        requires
            b * SCALE == l * nb + (b * SCALE) % l,
            0 <= (b * SCALE) % l < l,
    ;
    assert(0 <= na <= SCALE && 0 <= nb <= SCALE) by (nonlinear_arith)
        requires
            na * l <= a * SCALE,
            nb * l <= b * SCALE,
            a * SCALE < (na + 1) * l,
            b * SCALE < (nb + 1) * l,
            0 <= a <= l,
            0 <= b <= l,
            0 < l,
            SCALE > 0,
    ;
    assert(((na + 1) * (na + 1) + (nb + 1) * (nb + 1)) * (l * l) > (a * a + b * b) * (SCALE
        * SCALE)) by (nonlinear_arith)
        requires
            a * SCALE < (na + 1) * l,
            b * SCALE < (nb + 1) * l,
            0 <= a * SCALE,
            0 <= b * SCALE,
            0 < l,
            0 <= na,
            0 <= nb,
    ;
    assert((na + 1) * (na + 1) + (nb + 1) * (nb + 1) > SCALE * SCALE) by (nonlinear_arith)
        requires
            ((na + 1) * (na + 1) + (nb + 1) * (nb + 1)) * (l * l) > (a * a + b * b) * (SCALE
                * SCALE),
            a * a + b * b >= l * l,
            0 < l,
            SCALE > 0,
    ;
    assert(na * na + nb * nb > SCALE * SCALE - 4 * SCALE - 2) by (nonlinear_arith)
        requires
            (na + 1) * (na + 1) + (nb + 1) * (nb + 1) > SCALE * SCALE,
            0 <= na <= SCALE,
            0 <= nb <= SCALE,
    ;
    assert((SCALE - 3) * (SCALE - 3) < na * na + nb * nb);
    assert(na * na * (l * l) <= (a * a) * (SCALE * SCALE)) by (nonlinear_arith)
        requires
            0 <= na * l,
            na * l <= a * SCALE,
    ;
    assert(nb * nb * (l * l) <= (b * b) * (SCALE * SCALE)) by (nonlinear_arith)
        requires
            0 <= nb * l,
            nb * l <= b * SCALE,
    ;
    assert(0 <= na * l && 0 <= nb * l) by (nonlinear_arith)
        requires
            0 <= na,
            0 <= nb,
            0 < l,
    ;
    assert((na * na + nb * nb) * (l * l) <= (a * a + b * b) * (SCALE * SCALE)) by (nonlinear_arith)
        requires
            na * na * (l * l) <= (a * a) * (SCALE * SCALE),
            nb * nb * (l * l) <= (b * b) * (SCALE * SCALE),
    ;
    assert(na * na + nb * nb < (SCALE + 1) * (SCALE + 1)) by (nonlinear_arith)
        requires
            (na * na + nb * nb) * (l * l) <= (a * a + b * b) * (SCALE * SCALE),
            a * a + b * b == n,
            n < (l + 1) * (l + 1),
            l >= SCALE,
            SCALE == 1000,
            0 <= na,
            0 <= nb,
    ;
}

/// Saturate an arbitrary scalar into the representable range.
pub fn sat_exec(x: i64) -> (r: i64)
    ensures
        fx_wf(r),
        r == sat(x as int),
{
    if x < -FX_MAX {
        -FX_MAX
    } else if x > FX_MAX {
        FX_MAX
    } else {
        x
    }
}

} // verus!
