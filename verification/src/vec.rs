//! Fixed-point vectors: plain `i64` components at scale `SCALE`.

use vstd::prelude::*;

verus! {

use crate::fixed::in_lim;
use crate::fixed::fx_abs;

/// A 2D vector of fixed-point scalars.
#[derive(Clone, Copy, PartialEq, Eq, Structural, Debug)]
pub struct FxVec2 {
    pub x: i64,
    pub y: i64,
}

/// A 3D vector of fixed-point scalars.
#[derive(Clone, Copy, PartialEq, Eq, Structural, Debug)]
pub struct FxVec3 {
    pub x: i64,
    pub y: i64,
    pub z: i64,
}

/// Both components of `v` lie within `[-lim, lim]`.
pub open spec fn v2_in_lim(v: FxVec2, lim: int) -> bool {
    in_lim(v.x as int, lim) && in_lim(v.y as int, lim)
}

/// All components of `v` lie within `[-lim, lim]`.
pub open spec fn v3_in_lim(v: FxVec3, lim: int) -> bool {
    in_lim(v.x as int, lim) && in_lim(v.y as int, lim) && in_lim(v.z as int, lim)
}

impl FxVec2 {
    /// The zero vector.
    pub fn zero() -> (r: FxVec2)
        ensures
            r.x == 0 && r.y == 0,
    {
        FxVec2 { x: 0, y: 0 }
    }

    /// Componentwise sum.
    pub fn plus(self, o: FxVec2) -> (r: FxVec2)
        requires
            in_lim(self.x + o.x, i64::MAX as int),
            in_lim(self.y + o.y, i64::MAX as int),
        ensures
            r.x == self.x + o.x,
            r.y == self.y + o.y,
    {
        FxVec2 { x: self.x + o.x, y: self.y + o.y }
    }

    /// Componentwise difference.
    pub fn minus(self, o: FxVec2) -> (r: FxVec2)
        requires
            in_lim(self.x - o.x, i64::MAX as int),
            in_lim(self.y - o.y, i64::MAX as int),
        ensures
            r.x == self.x - o.x,
            r.y == self.y - o.y,
    {
        FxVec2 { x: self.x - o.x, y: self.y - o.y }
    }
}

impl FxVec3 {
    /// The zero vector.
    pub fn zero() -> (r: FxVec3)
        ensures
            r.x == 0 && r.y == 0 && r.z == 0,
    {
        FxVec3 { x: 0, y: 0, z: 0 }
    }

    /// Componentwise sum.
    pub fn plus(self, o: FxVec3) -> (r: FxVec3)
        requires
            in_lim(self.x + o.x, i64::MAX as int),
            in_lim(self.y + o.y, i64::MAX as int),
            in_lim(self.z + o.z, i64::MAX as int),
        ensures
            r.x == self.x + o.x,
            r.y == self.y + o.y,
            r.z == self.z + o.z,
    {
        FxVec3 { x: self.x + o.x, y: self.y + o.y, z: self.z + o.z }
    }

    /// Componentwise difference.
    pub fn minus(self, o: FxVec3) -> (r: FxVec3)
        requires
            in_lim(self.x - o.x, i64::MAX as int),
            in_lim(self.y - o.y, i64::MAX as int),
            in_lim(self.z - o.z, i64::MAX as int),
        ensures
            r.x == self.x - o.x,
            r.y == self.y - o.y,
            r.z == self.z - o.z,
    {
        FxVec3 { x: self.x - o.x, y: self.y - o.y, z: self.z - o.z }
    }
}

/// Largest raw coordinate magnitude the per-tick geometry accepts.
pub const COORD_LIM: i64 = 0x2_0000_0000;

/// Dot product of 3D vectors, as a mathematical integer.
pub open spec fn v3_dot(a: FxVec3, b: FxVec3) -> int {
    a.x * b.x + a.y * b.y + a.z * b.z
}

/// Squared Euclidean magnitude of a 3D vector.
pub open spec fn v3_norm_sq(v: FxVec3) -> int {
    v3_dot(v, v)
}

/// The integer square root, at the specification level: the unique
/// nonnegative `r` with `r^2 <= x < (r + 1)^2`.
pub open spec fn isqrt_spec(x: int) -> int {
    choose|r: int| r >= 0 && #[trigger] (r * r) <= x < (r + 1) * (r + 1)
}

/// Every nonnegative integer has an integer square root, so the chosen
/// root really brackets its argument.
pub proof fn lemma_isqrt_spec_bracket(x: int)
    requires
        x >= 0,
    ensures
        ({
            let r = isqrt_spec(x);
            r >= 0 && r * r <= x && x < (r + 1) * (r + 1)
        }),
    decreases x,
{
    if x == 0 {
        assert(0 * 0 <= x < (0 + 1) * (0 + 1)) by (nonlinear_arith)
            requires
                x == 0,
        ;
        assert(exists|r: int| r >= 0 && #[trigger] (r * r) <= x < (r + 1) * (r + 1)) by {
            assert(0 >= 0 && 0 * 0 <= x < (0 + 1) * (0 + 1));
        }
    } else {
        lemma_isqrt_spec_bracket(x - 1);
        let r0 = isqrt_spec(x - 1);
        if x < (r0 + 1) * (r0 + 1) {
            assert(exists|r: int| r >= 0 && #[trigger] (r * r) <= x < (r + 1) * (r + 1)) by {
                assert(r0 >= 0 && r0 * r0 <= x < (r0 + 1) * (r0 + 1));
            }
        } else {
            assert(x == (r0 + 1) * (r0 + 1));
            assert((r0 + 1) * (r0 + 1) < (r0 + 2) * (r0 + 2)) by (nonlinear_arith)
                requires
                    r0 >= 0,
            ;
            assert(exists|r: int| r >= 0 && #[trigger] (r * r) <= x < (r + 1) * (r + 1)) by {
                assert(r0 + 1 >= 0 && (r0 + 1) * (r0 + 1) <= x < (r0 + 2) * (r0 + 2));
            }
        }
        let w = isqrt_spec(x);
        assert(w >= 0 && w * w <= x < (w + 1) * (w + 1));
    }
}

/// Any nonnegative root with `r^2 <= x < (r + 1)^2` is the integer
/// square root: the bracketing pins it uniquely.
pub proof fn lemma_isqrt_unique(x: int, r: int)
    requires
        r >= 0,
        r * r <= x,
        x < (r + 1) * (r + 1),
    ensures
        r == isqrt_spec(x),
{
    assert(r >= 0 && r * r <= x < (r + 1) * (r + 1));
    let w = isqrt_spec(x);
    assert(w >= 0 && w * w <= x < (w + 1) * (w + 1));
    assert(w == r) by (nonlinear_arith)
        requires
            r >= 0,
            w >= 0,
            r * r <= x,
            x < (r + 1) * (r + 1),
            w * w <= x,
            x < (w + 1) * (w + 1),
    ;
}

/// Integer square root: the unique `r` with `r^2 <= x < (r + 1)^2`.
pub fn isqrt(x: u128) -> (r: u64)
    requires
        x < 0x40_0000_0000_0000_0000_0000_0000_0000,
    ensures
        (r as int) * (r as int) <= x as int,
        (x as int) < (r as int + 1) * (r as int + 1),
        r as int <= 0x7FFF_FFFF_FFFF_FFFF,
    decreases x,
{
    if x < 4 {
        if x >= 1 {
            proof {
                assert(1 * 1 <= x as int);
                assert((x as int) < 2 * 2);
            }
            1
        } else {
            proof {
                assert(0 * 0 <= x as int);
                assert((x as int) < 1 * 1);
            }
            0
        }
    } else {
        proof {
            vstd::arithmetic::div_mod::lemma_div_pos_is_pos(x as int, 4);
            vstd::arithmetic::div_mod::lemma_div_is_strictly_smaller(x as int, 4);
            vstd::arithmetic::div_mod::lemma_fundamental_div_mod(x as int, 4);
            vstd::arithmetic::div_mod::lemma_mod_bound(x as int, 4);
            assert((x as int) / 4 < 0x1000_0000_0000_0000_0000_0000_0000_0000);
        }
        let h: u64 = isqrt(x / 4);
        proof {
            let hi = h as int;
            let xi = x as int;
            assert(hi < 0x4000_0000_0000_0000) by (nonlinear_arith)
                requires
                    hi >= 0,
                    hi * hi <= xi / 4,
                    xi / 4 < 0x1000_0000_0000_0000_0000_0000_0000_0000,
            ;
            assert((2 * hi) * (2 * hi) <= xi && xi < (2 * hi + 2) * (2 * hi + 2))
                by (nonlinear_arith)
                requires
                    hi >= 0,
                    hi * hi <= xi / 4,
                    xi / 4 < (hi + 1) * (hi + 1),
                    4 * (xi / 4) <= xi,
                    4 * (xi / 4) + 3 >= xi,
            ;
        }
        let c: u64 = 2 * h + 1;
        proof {
            assert((c as int) * (c as int) < 0x1_0000_0000_0000_0000_0000_0000_0000_0000)
                by (nonlinear_arith)
                requires
                    0 <= c && (c as int) < 0x8000_0000_0000_0000,
            ;
        }
        let c2: u128 = (c as u128) * (c as u128);
        if c2 <= x {
            proof {
                assert(c as int + 1 == 2 * (h as int) + 2);
                assert((x as int) < (c as int + 1) * (c as int + 1));
            }
            c
        } else {
            let w: u64 = 2 * h;
            proof {
                assert(w as int + 1 == c as int);
                assert((w as int) * (w as int) == (2 * (h as int)) * (2 * (h as int)));
                assert((x as int) < (w as int + 1) * (w as int + 1));
            }
            w
        }
    }
}

/// Euclidean length of a 3D vector: the integer square root of its
/// squared magnitude.
pub fn v3_length(v: FxVec3) -> (r: i64)
    requires
        v3_in_lim(v, 0x200_0000_0000_0000),
    ensures
        r >= 0,
        (r as int) * (r as int) <= v3_norm_sq(v),
        v3_norm_sq(v) < (r as int + 1) * (r as int + 1),
        v3_norm_sq(v) > 0 ==> r >= 1,
        r as int <= 0x400_0000_0000_0000,
        r == isqrt_spec(v3_norm_sq(v)),
{
    proof {
        crate::fixed::lemma_mul_abs_bound(v.x as int, v.x as int, 0x200_0000_0000_0000, 0x200_0000_0000_0000);
        crate::fixed::lemma_mul_abs_bound(v.y as int, v.y as int, 0x200_0000_0000_0000, 0x200_0000_0000_0000);
        crate::fixed::lemma_mul_abs_bound(v.z as int, v.z as int, 0x200_0000_0000_0000, 0x200_0000_0000_0000);
        assert(v.x as int * v.x as int >= 0 && v.y as int * v.y as int >= 0 && v.z as int
            * v.z as int >= 0) by (nonlinear_arith);
    }
    let xx: i128 = (v.x as i128) * (v.x as i128);
    let yy: i128 = (v.y as i128) * (v.y as i128);
    let zz: i128 = (v.z as i128) * (v.z as i128);
    let nsq: u128 = (xx + yy + zz) as u128;
    proof {
        assert(0x200_0000_0000_0000 * (0x200_0000_0000_0000 as int)
            == 0x4_0000_0000_0000_0000_0000_0000_0000) by (nonlinear_arith);
        assert(nsq as int <= 0xC_0000_0000_0000_0000_0000_0000_0000);
        assert(nsq < 0x40_0000_0000_0000_0000_0000_0000_0000);
    }
    let r: u64 = isqrt(nsq);
    proof {
        let ri = r as int;
        assert(ri <= 0x400_0000_0000_0000) by (nonlinear_arith)
            requires
                ri >= 0,
                ri * ri <= nsq as int,
                nsq as int <= 0xC_0000_0000_0000_0000_0000_0000_0000,
        ;
        lemma_isqrt_unique(v3_norm_sq(v), ri);
        if v3_norm_sq(v) > 0 {
            assert(nsq >= 1);
            if ri == 0 {
                assert((ri + 1) * (ri + 1) == 1) by (nonlinear_arith)
                    requires
                        ri == 0,
                ;
                assert((nsq as int) < 1);
                assert(false);
            }
        }
    }
    r as i64
}

/// Distance between two points.
pub fn v3_distance(a: FxVec3, b: FxVec3) -> (r: i64)
    requires
        v3_in_lim(a, crate::fixed::FX_LIM as int),
        v3_in_lim(b, crate::fixed::FX_LIM as int),
    ensures
        r >= 0,
        ({
            let d = FxVec3 {
                x: (a.x - b.x) as i64,
                y: (a.y - b.y) as i64,
                z: (a.z - b.z) as i64,
            };
            (r as int) * (r as int) <= v3_norm_sq(d) && v3_norm_sq(d) < (r as int + 1) * (
            r as int + 1)
        }),
        in_lim(r as int, 0x8000_0000_0000),
        ({
            let d = FxVec3 {
                x: (a.x - b.x) as i64,
                y: (a.y - b.y) as i64,
                z: (a.z - b.z) as i64,
            };
            r == isqrt_spec(v3_norm_sq(d))
        }),
{
    let d = a.minus(b);
    let r = v3_length(d);
    proof {
        let ri = r as int;
        assert(v3_norm_sq(d) < 0x40_0000_0000_0000_0000_0000_00) by (nonlinear_arith)
            requires
                v3_in_lim(d, 0x4000_0000_0000),
                v3_norm_sq(d) == d.x * d.x + d.y * d.y + d.z * d.z,
        ;
        assert(ri < 0x8000_0000_0000) by (nonlinear_arith)
            requires
                ri >= 0,
                ri * ri < 0x40_0000_0000_0000_0000_0000_00,
        ;
    }
    r
}

/// Scales each component by the fixed-point factor `s`.
pub fn v3_scale(v: FxVec3, s: i64) -> (r: FxVec3)
    requires
        in_lim(v.x * s, 0x4000_0000_0000_0000),
        in_lim(v.y * s, 0x4000_0000_0000_0000),
        in_lim(v.z * s, 0x4000_0000_0000_0000),
    ensures
        r.x == crate::fixed::mul_down(v.x as int, s as int),
        r.y == crate::fixed::mul_down(v.y as int, s as int),
        r.z == crate::fixed::mul_down(v.z as int, s as int),
{
    FxVec3 {
        x: crate::fixed::fx_mul(v.x, s),
        y: crate::fixed::fx_mul(v.y, s),
        z: crate::fixed::fx_mul(v.z, s),
    }
}

/// Cross product, at the product scale: components are exact integer
/// products of the inputs, with no rounding.
pub fn v3_cross(a: FxVec3, b: FxVec3) -> (r: FxVec3)
    requires
        v3_in_lim(a, 2 * crate::fixed::SCALE as int),
        v3_in_lim(b, 2 * crate::fixed::SCALE as int),
    ensures
        r.x == a.y * b.z - a.z * b.y,
        r.y == a.z * b.x - a.x * b.z,
        r.z == a.x * b.y - a.y * b.x,
{
    proof {
        crate::fixed::lemma_mul_abs_bound(a.y as int, b.z as int, 131072, 131072);
        crate::fixed::lemma_mul_abs_bound(a.z as int, b.y as int, 131072, 131072);
        crate::fixed::lemma_mul_abs_bound(a.z as int, b.x as int, 131072, 131072);
        crate::fixed::lemma_mul_abs_bound(a.x as int, b.z as int, 131072, 131072);
        crate::fixed::lemma_mul_abs_bound(a.x as int, b.y as int, 131072, 131072);
        crate::fixed::lemma_mul_abs_bound(a.y as int, b.x as int, 131072, 131072);
    }
    FxVec3 {
        x: a.y * b.z - a.z * b.y,
        y: a.z * b.x - a.x * b.z,
        z: a.x * b.y - a.y * b.x,
    }
}

/// A component no longer than the vector's length normalizes to at most
/// one unit: `|c| <= len ==> |c * SCALE / len| <= SCALE`.
proof fn lemma_unit_comp(c: int, len: int)
    requires
        len >= 1,
        fx_abs(c) <= len,
    ensures
        fx_abs(crate::fixed::div_tz(c * crate::fixed::SCALE, len)) <= crate::fixed::SCALE as int,
        in_lim(crate::fixed::div_tz(c * crate::fixed::SCALE, len), crate::fixed::FX_LIM as int),
{
    let s = crate::fixed::SCALE as int;
    crate::fixed::lemma_div_tz_ratio(s, fx_abs(c), len);
    if c >= 0 {
        vstd::arithmetic::mul::lemma_mul_is_commutative(c, s);
    } else {
        vstd::arithmetic::mul::lemma_mul_is_commutative(-c, s);
        vstd::arithmetic::mul::lemma_mul_unary_negation(s, -c);
        assert(c * s == -(s * (-c))) by (nonlinear_arith);
    }
}

/// Normalizes `v` to unit scale, also returning its raw length: each
/// component becomes `v_i * SCALE / len`, rounded toward zero, so the
/// result's components never exceed one unit.
pub fn v3_normalize(v: FxVec3) -> (res: (FxVec3, i64))
    requires
        v3_in_lim(v, 0x200_0000_0000_0000),
        v3_norm_sq(v) > 0,
    ensures
        ({
            let (r, len) = res;
            &&& len >= 1
            &&& len == isqrt_spec(v3_norm_sq(v))
            &&& (len as int) * (len as int) <= v3_norm_sq(v)
            &&& v3_norm_sq(v) < (len as int + 1) * (len as int + 1)
            &&& r.x == crate::fixed::div_tz(v.x * crate::fixed::SCALE, len as int)
            &&& r.y == crate::fixed::div_tz(v.y * crate::fixed::SCALE, len as int)
            &&& r.z == crate::fixed::div_tz(v.z * crate::fixed::SCALE, len as int)
            &&& v3_in_lim(r, crate::fixed::SCALE as int)
        }),
{
    let len = v3_length(v);
    proof {
        let li = len as int;
        assert(fx_abs(v.x as int) <= li && fx_abs(v.y as int) <= li && fx_abs(v.z as int)
            <= li) by (nonlinear_arith)
            requires
                li >= 0,
                v.x * v.x + v.y * v.y + v.z * v.z < (li + 1) * (li + 1),
        ;
        lemma_unit_comp(v.x as int, li);
        lemma_unit_comp(v.y as int, li);
        lemma_unit_comp(v.z as int, li);
    }
    let r = FxVec3 {
        x: crate::fixed::mul_div_tz(v.x, crate::fixed::SCALE, len),
        y: crate::fixed::mul_div_tz(v.y, crate::fixed::SCALE, len),
        z: crate::fixed::mul_div_tz(v.z, crate::fixed::SCALE, len),
    };
    (r, len)
}

/// Rejects `a` from the direction of the near-unit vector `n`: what is
/// left of `a` after removing its component along `n`.
pub fn v3_reject(a: FxVec3, n: FxVec3) -> (r: FxVec3)
    requires
        v3_in_lim(a, 2 * crate::fixed::SCALE as int),
        v3_in_lim(n, 2 * crate::fixed::SCALE as int),
    ensures
        r.x == a.x - crate::fixed::div_tz(n.x * v3_dot(a, n), 0x1_0000_0000),
        r.y == a.y - crate::fixed::div_tz(n.y * v3_dot(a, n), 0x1_0000_0000),
        r.z == a.z - crate::fixed::div_tz(n.z * v3_dot(a, n), 0x1_0000_0000),
        v3_in_lim(r, 0x80_0000),
{
    proof {
        crate::fixed::lemma_mul_abs_bound(a.x as int, n.x as int, 131072, 131072);
        crate::fixed::lemma_mul_abs_bound(a.y as int, n.y as int, 131072, 131072);
        crate::fixed::lemma_mul_abs_bound(a.z as int, n.z as int, 131072, 131072);
        crate::fixed::lemma_mul_abs_bound(n.x as int, v3_dot(a, n), 131072, 0xC_0000_0000);
        crate::fixed::lemma_mul_abs_bound(n.y as int, v3_dot(a, n), 131072, 0xC_0000_0000);
        crate::fixed::lemma_mul_abs_bound(n.z as int, v3_dot(a, n), 131072, 0xC_0000_0000);
        crate::fixed::lemma_div_tz_bounds(n.x * v3_dot(a, n), 0x1_0000_0000);
        crate::fixed::lemma_div_tz_bounds(n.y * v3_dot(a, n), 0x1_0000_0000);
        crate::fixed::lemma_div_tz_bounds(n.z * v3_dot(a, n), 0x1_0000_0000);
        vstd::arithmetic::div_mod::lemma_div_is_ordered(
            fx_abs(n.x * v3_dot(a, n)),
            0x1_8000_0000_0000_0000,
            0x1_0000_0000,
        );
        vstd::arithmetic::div_mod::lemma_div_is_ordered(
            fx_abs(n.y * v3_dot(a, n)),
            0x1_8000_0000_0000_0000,
            0x1_0000_0000,
        );
        vstd::arithmetic::div_mod::lemma_div_is_ordered(
            fx_abs(n.z * v3_dot(a, n)),
            0x1_8000_0000_0000_0000,
            0x1_0000_0000,
        );
    }
    let dot: i128 = (a.x as i128) * (n.x as i128) + (a.y as i128) * (n.y as i128) + (
    a.z as i128) * (n.z as i128);
    let px: i64 = crate::fixed::div_i128((n.x as i128) * dot, 0x1_0000_0000);
    let py: i64 = crate::fixed::div_i128((n.y as i128) * dot, 0x1_0000_0000);
    let pz: i64 = crate::fixed::div_i128((n.z as i128) * dot, 0x1_0000_0000);
    FxVec3 { x: a.x - px, y: a.y - py, z: a.z - pz }
}

/// Squared Euclidean magnitude of a 2D vector, as a mathematical integer.
pub open spec fn v2_norm_sq(v: FxVec2) -> int {
    v.x * v.x + v.y * v.y
}

/// Euclidean length of a 2D vector: the integer square root of its
/// squared magnitude.
pub fn v2_length(v: FxVec2) -> (r: i64)
    requires
        v2_in_lim(v, 0x8000_0000_0000),
    ensures
        r >= 0,
        r == isqrt_spec(v2_norm_sq(v)),
        (r as int) * (r as int) <= v2_norm_sq(v),
        v2_norm_sq(v) < (r as int + 1) * (r as int + 1),
        v2_norm_sq(v) > 0 ==> r >= 1,
        r as int <= 0x1_0000_0000_0000,
{
    proof {
        crate::fixed::lemma_mul_abs_bound(v.x as int, v.x as int, 0x8000_0000_0000, 0x8000_0000_0000);
        crate::fixed::lemma_mul_abs_bound(v.y as int, v.y as int, 0x8000_0000_0000, 0x8000_0000_0000);
        assert(v.x as int * v.x as int >= 0 && v.y as int * v.y as int >= 0)
            by (nonlinear_arith);
    }
    let xx: i128 = (v.x as i128) * (v.x as i128);
    let yy: i128 = (v.y as i128) * (v.y as i128);
    let nsq: u128 = (xx + yy) as u128;
    proof {
        assert(0x8000_0000_0000 * (0x8000_0000_0000 as int) == 0x40_0000_0000_0000_0000_0000_00)
            by (nonlinear_arith);
        assert(nsq as int <= 0x80_0000_0000_0000_0000_0000_00);
        assert(nsq < 0x4000_0000_0000_0000_0000_0000_0000_0000);
    }
    let r: u64 = isqrt(nsq);
    proof {
        let ri = r as int;
        assert(ri <= 0x1_0000_0000_0000) by (nonlinear_arith)
            requires
                ri >= 0,
                ri * ri <= nsq as int,
                nsq as int <= 0x80_0000_0000_0000_0000_0000_00,
        ;
        lemma_isqrt_unique(v2_norm_sq(v), ri);
        if v2_norm_sq(v) > 0 {
            assert(nsq >= 1);
            if ri == 0 {
                assert((ri + 1) * (ri + 1) == 1) by (nonlinear_arith)
                    requires
                        ri == 0,
                ;
                assert((nsq as int) < 1);
                assert(false);
            }
        }
    }
    r as i64
}


} // verus!
