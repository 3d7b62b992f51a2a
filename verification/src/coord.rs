//! Exact plane coordinates and exact squared-distance comparison.
//!
//! Every position the engine handles is a number of the form
//! `(a + b*sqrt(3)) / 16` with integer `a` and `b`: the prototile templates
//! have quarter-integer coordinates, the rotation coefficients for multiples
//! of 30 degrees are half-integers, and edge midpoints halve sums of even
//! offsets, so the ring is closed under everything the engine does.
//!
//! A squared distance between two such points is `(u + v*sqrt(3)) / 256`
//! with integer `u`, `v`. Comparing it against a rational tolerance reduces
//! to deciding the sign of `s + t*sqrt(3)` for integers `s`, `t`, which is
//! exact: square both sides and compare `s*s` with `3*t*t`, minding signs.

use vstd::prelude::*;

verus! {

/// One coordinate of a point, held exactly: the real value represented is
/// `(a + b*sqrt(3)) / 16` in tile-side units.
#[derive(Clone, Copy, Debug, PartialEq, Eq, Structural)]
pub struct Coord {
    pub a: i64,
    pub b: i64,
}

/// Largest magnitude of a `Coord` component in a freshly requested tile
/// center. Snapping moves a center by at most a small fixed amount, so this
/// leaves room for every tile a bounded patch can ever hold.
pub const PLACE_COORD_MAX: i64 = 0x400_0000;

/// Largest magnitude of a `Coord` component in the center of any tile the
/// engine works with, placed or candidate.
pub const TILE_COORD_MAX: i64 = 0x800_0000;

/// Largest magnitude of a `Coord` component of an edge midpoint: a tile
/// center component plus the largest rotated template offset.
pub const EDGE_COORD_MAX: i64 = 0x800_0040;

/// Largest magnitude of the `u`/`v` components of a squared distance between
/// two in-range edge midpoints.
pub const UV_MAX: i64 = 0x900_0000_0000_0000;

/// Largest tolerance accepted by the comparison routines, in units of
/// 1/2560 of a square tile side (so `2560` is one square side).
pub const TOL_MAX: i64 = 0x100_0000_0000;

/// Largest magnitude of a `Coord` component accepted by plain coordinate
/// addition: the sum of two such components still fits the machine word.
pub const COORD_ARG_MAX: i64 = 0x3FFF_FFFF_FFFF_FFFF;

/// Both components of `c` have magnitude at most `bound`.
pub open spec fn coord_in(c: Coord, bound: int) -> bool {
    -bound <= c.a <= bound && -bound <= c.b <= bound
}

/// The real number `s + t*sqrt(3)` is strictly negative.
///
/// Decided by integers alone: for `t < 0` the value is negative when `s <= 0`
/// or when `s` is too small to outweigh `|t|*sqrt(3)` (that is
/// `s*s < 3*t*t`); for `t >= 0` it is negative exactly when `s < 0` and `s`
/// outweighs `t*sqrt(3)` (that is `s*s > 3*t*t`).
pub open spec fn is_neg(s: int, t: int) -> bool {
    if t < 0 {
        s <= 0 || s * s < 3 * (t * t)
    } else {
        s < 0 && s * s > 3 * (t * t)
    }
}

/// The `u` component (rational part, in 1/256 square units) of the squared
/// distance between the points `(x1, y1)` and `(x2, y2)`.
pub open spec fn dist2_u(x1: Coord, y1: Coord, x2: Coord, y2: Coord) -> int {
    let dxa = x1.a - x2.a;
    let dxb = x1.b - x2.b;
    let dya = y1.a - y2.a;
    let dyb = y1.b - y2.b;
    dxa * dxa + 3 * (dxb * dxb) + dya * dya + 3 * (dyb * dyb)
}

/// The `v` component (`sqrt(3)` part) of the same squared distance.
pub open spec fn dist2_v(x1: Coord, y1: Coord, x2: Coord, y2: Coord) -> int {
    let dxa = x1.a - x2.a;
    let dxb = x1.b - x2.b;
    let dya = y1.a - y2.a;
    let dyb = y1.b - y2.b;
    2 * (dxa * dxb + dya * dyb)
}

/// The squared distance `(u + v*sqrt(3)) / 256` is strictly below the
/// tolerance `tol / 2560`.
pub open spec fn within_tol(u: int, v: int, tol: int) -> bool {
    is_neg(10 * u - tol, 10 * v)
}

/// The squared distance `(u1, v1)` is strictly below `(u2, v2)`.
pub open spec fn l2_lt(u1: int, v1: int, u2: int, v2: int) -> bool {
    is_neg(u1 - u2, v1 - v2)
}

/// A product of values bounded by `b` in magnitude is bounded by `b*b`.
pub proof fn lemma_mul_bound(x: int, y: int, b: int) by (nonlinear_arith)
    requires
        -b <= x <= b,
        -b <= y <= b,
        0 <= b,
    ensures
        -(b * b) <= x * y <= b * b,
{
}

/// Negativity of `s + t*sqrt(3)` is preserved by adding another negative
/// value of the same form.
pub proof fn lemma_is_neg_add(s1: int, t1: int, s2: int, t2: int)
    requires
        is_neg(s1, t1),
        is_neg(s2, t2),
    ensures
        is_neg(s1 + s2, t1 + t2),
{
    if t1 >= 0 && t2 >= 0 {
        assert(s1 * s2 > 3 * (t1 * t2)) by (nonlinear_arith)
            requires
                s1 < 0,
                s2 < 0,
                t1 >= 0,
                t2 >= 0,
                s1 * s1 > 3 * (t1 * t1),
                s2 * s2 > 3 * (t2 * t2),
        ;
        assert((s1 + s2) * (s1 + s2) > 3 * ((t1 + t2) * (t1 + t2))) by (nonlinear_arith)
            requires
                s1 * s1 > 3 * (t1 * t1),
                s2 * s2 > 3 * (t2 * t2),
                s1 * s2 > 3 * (t1 * t2),
        ;
    } else if t1 < 0 && t2 < 0 {
        if s1 > 0 && s2 > 0 {
            assert(s1 * s2 < 3 * (t1 * t2)) by (nonlinear_arith)
                requires
                    s1 > 0,
                    s2 > 0,
                    t1 < 0,
                    t2 < 0,
                    s1 * s1 < 3 * (t1 * t1),
                    s2 * s2 < 3 * (t2 * t2),
            ;
            assert((s1 + s2) * (s1 + s2) < 3 * ((t1 + t2) * (t1 + t2))) by (nonlinear_arith)
                requires
                    s1 * s1 < 3 * (t1 * t1),
                    s2 * s2 < 3 * (t2 * t2),
                    s1 * s2 < 3 * (t1 * t2),
            ;
        } else if s1 > 0 && s1 + s2 > 0 {
            assert((s1 + s2) * (s1 + s2) < 3 * ((t1 + t2) * (t1 + t2))) by (nonlinear_arith)
                requires
                    s1 > 0,
                    s2 <= 0,
                    s1 + s2 > 0,
                    t1 < 0,
                    t2 < 0,
                    s1 * s1 < 3 * (t1 * t1),
            ;
        } else if s2 > 0 && s1 + s2 > 0 {
            assert((s1 + s2) * (s1 + s2) < 3 * ((t1 + t2) * (t1 + t2))) by (nonlinear_arith)
                requires
                    s2 > 0,
                    s1 <= 0,
                    s1 + s2 > 0,
                    t1 < 0,
                    t2 < 0,
                    s2 * s2 < 3 * (t2 * t2),
            ;
        }
    } else if t1 >= 0 {
        lemma_is_neg_add_mixed(s1, t1, s2, t2);
    } else {
        lemma_is_neg_add_mixed(s2, t2, s1, t1);
    }
}

/// The mixed-sign case of `lemma_is_neg_add`: the first summand has a
/// nonnegative `sqrt(3)` part, the second a negative one.
proof fn lemma_is_neg_add_mixed(s1: int, t1: int, s2: int, t2: int)
    requires
        t1 >= 0,
        t2 < 0,
        is_neg(s1, t1),
        is_neg(s2, t2),
    ensures
        is_neg(s1 + s2, t1 + t2),
{
    if s2 <= 0 {
        if t1 + t2 >= 0 {
            assert((s1 + s2) * (s1 + s2) > 3 * ((t1 + t2) * (t1 + t2))) by (nonlinear_arith)
                requires
                    s1 < 0,
                    s2 <= 0,
                    s1 * s1 > 3 * (t1 * t1),
                    0 <= t1 + t2 <= t1,
            ;
        }
    } else {
        if t1 + t2 >= 0 {
            assert(s1 + s2 < 0 && (s1 + s2) * (s1 + s2) > 3 * ((t1 + t2) * (t1 + t2)))
                by (nonlinear_arith)
                requires
                    s1 < 0,
                    s1 * s1 > 3 * (t1 * t1),
                    t1 >= 0,
                    t2 < 0,
                    s2 > 0,
                    s2 * s2 < 3 * (t2 * t2),
                    t1 + t2 >= 0,
            ;
        } else if s1 + s2 > 0 {
            assert((s1 + s2) * (s1 + s2) < 3 * ((t1 + t2) * (t1 + t2))) by (nonlinear_arith)
                requires
                    s1 < 0,
                    s1 * s1 > 3 * (t1 * t1),
                    t1 >= 0,
                    t2 < 0,
                    s2 > 0,
                    s2 * s2 < 3 * (t2 * t2),
                    t1 + t2 < 0,
                    s1 + s2 > 0,
            ;
        }
    }
}

/// Scaling both parts by 10 does not change the sign of `s + t*sqrt(3)`.
pub proof fn lemma_is_neg_scale10(s: int, t: int)
    ensures
        is_neg(10 * s, 10 * t) == is_neg(s, t),
{
    assert((10 * s) * (10 * s) == 100 * (s * s) && (10 * t) * (10 * t) == 100 * (t * t))
        by (nonlinear_arith);
}

/// Strict order on squared distances is transitive.
pub proof fn lemma_l2_lt_trans(u1: int, v1: int, u2: int, v2: int, u3: int, v3: int)
    requires
        l2_lt(u1, v1, u2, v2),
        l2_lt(u2, v2, u3, v3),
    ensures
        l2_lt(u1, v1, u3, v3),
{
    lemma_is_neg_add(u1 - u2, v1 - v2, u2 - u3, v2 - v3);
    assert((u1 - u2) + (u2 - u3) == u1 - u3);
    assert((v1 - v2) + (v2 - v3) == v1 - v3);
}

/// A squared distance strictly below one that is within tolerance is itself
/// within tolerance.
pub proof fn lemma_lt_tol_trans(u1: int, v1: int, u2: int, v2: int, tol: int)
    requires
        l2_lt(u1, v1, u2, v2),
        within_tol(u2, v2, tol),
    ensures
        within_tol(u1, v1, tol),
{
    lemma_is_neg_scale10(u1 - u2, v1 - v2);
    lemma_is_neg_add(10 * (u1 - u2), 10 * (v1 - v2), 10 * u2 - tol, 10 * v2);
    assert(10 * (u1 - u2) + (10 * u2 - tol) == 10 * u1 - tol);
    assert(10 * (v1 - v2) + 10 * v2 == 10 * v1);
}

/// Squared distance does not depend on the order of its two endpoints.
pub proof fn lemma_dist2_sym(x1: Coord, y1: Coord, x2: Coord, y2: Coord)
    ensures
        dist2_u(x1, y1, x2, y2) == dist2_u(x2, y2, x1, y1),
        dist2_v(x1, y1, x2, y2) == dist2_v(x2, y2, x1, y1),
{
    let dxa = x1.a - x2.a;
    let dxb = x1.b - x2.b;
    let dya = y1.a - y2.a;
    let dyb = y1.b - y2.b;
    assert(dxa * dxa == (-dxa) * (-dxa) && dxb * dxb == (-dxb) * (-dxb) && dya * dya == (-dya)
        * (-dya) && dyb * dyb == (-dyb) * (-dyb) && dxa * dxb == (-dxa) * (-dxb) && dya * dyb == (
    -dya) * (-dyb)) by (nonlinear_arith);
}

/// Decides whether `s + t*sqrt(3) < 0`, exactly.
pub(crate) fn check_neg(s: i128, t: i128) -> (r: bool)
    requires
        -7_000_000_000_000_000_000 <= s <= 7_000_000_000_000_000_000,
        -7_000_000_000_000_000_000 <= t <= 7_000_000_000_000_000_000,
    ensures
        r == is_neg(s as int, t as int),
{
    proof {
        lemma_mul_bound(s as int, s as int, 7_000_000_000_000_000_000);
        lemma_mul_bound(t as int, t as int, 7_000_000_000_000_000_000);
    }
    if t < 0 {
        s <= 0 || s * s < 3 * (t * t)
    } else {
        s < 0 && s * s > 3 * (t * t)
    }
}

/// Computes the exact squared distance between the points `(x1, y1)` and
/// `(x2, y2)`, as the integer pair `(u, v)` meaning `(u + v*sqrt(3)) / 256`
/// square units.
pub(crate) fn dist2(x1: &Coord, y1: &Coord, x2: &Coord, y2: &Coord) -> (r: (i64, i64))
    requires
        coord_in(*x1, EDGE_COORD_MAX as int),
        coord_in(*y1, EDGE_COORD_MAX as int),
        coord_in(*x2, EDGE_COORD_MAX as int),
        coord_in(*y2, EDGE_COORD_MAX as int),
    ensures
        r.0 == dist2_u(*x1, *y1, *x2, *y2),
        r.1 == dist2_v(*x1, *y1, *x2, *y2),
        -UV_MAX <= r.0 <= UV_MAX,
        -UV_MAX <= r.1 <= UV_MAX,
{
    let dxa: i64 = x1.a - x2.a;
    let dxb: i64 = x1.b - x2.b;
    let dya: i64 = y1.a - y2.a;
    let dyb: i64 = y1.b - y2.b;
    proof {
        lemma_mul_bound(dxa as int, dxa as int, 0x1000_0080);
        lemma_mul_bound(dxb as int, dxb as int, 0x1000_0080);
        lemma_mul_bound(dya as int, dya as int, 0x1000_0080);
        lemma_mul_bound(dyb as int, dyb as int, 0x1000_0080);
        lemma_mul_bound(dxa as int, dxb as int, 0x1000_0080);
        lemma_mul_bound(dya as int, dyb as int, 0x1000_0080);
    }
    let u: i64 = dxa * dxa + 3 * (dxb * dxb) + dya * dya + 3 * (dyb * dyb);
    let v: i64 = 2 * (dxa * dxb + dya * dyb);
    (u, v)
}

/// Compares the squared distance `(u, v)` against the tolerance
/// `tol / 2560`, exactly.
pub(crate) fn within_tolerance(u: i64, v: i64, tol: i64) -> (r: bool)
    requires
        -UV_MAX <= u <= UV_MAX,
        -UV_MAX <= v <= UV_MAX,
        0 <= tol <= TOL_MAX,
    ensures
        r == within_tol(u as int, v as int, tol as int),
{
    check_neg(10 * (u as i128) - (tol as i128), 10 * (v as i128))
}

/// Compares two squared distances, exactly.
pub(crate) fn l2_less(u1: i64, v1: i64, u2: i64, v2: i64) -> (r: bool)
    requires
        -UV_MAX <= u1 <= UV_MAX,
        -UV_MAX <= v1 <= UV_MAX,
        -UV_MAX <= u2 <= UV_MAX,
        -UV_MAX <= v2 <= UV_MAX,
    ensures
        r == l2_lt(u1 as int, v1 as int, u2 as int, v2 as int),
{
    check_neg((u1 as i128) - (u2 as i128), (v1 as i128) - (v2 as i128))
}

} // verus!
