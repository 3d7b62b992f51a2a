//! The tile shape model: the two 13-vertex prototile variants, their fixed
//! vertex and edge lookup tables, and world-space vertices and edge
//! descriptors for a placed tile instance.
//!
//! The local vertex template has quarter-integer x coordinates and
//! quarter-`sqrt(3)` y coordinates; a tile may be rotated by any multiple of
//! 30 degrees, whose cosine and sine are half-integer combinations of 1 and
//! `sqrt(3)`. Everything therefore stays inside the exact coordinate ring of
//! [`crate::coord`], at the fixed 1/16 scale of [`Coord`].
//!
//! The edge tables are the canonical ones of this engine: three length
//! classes (`SHORT`, `LONG` and `DOUBLE`), a Reflected polygon emitted in
//! reverse order to keep the fill winding consistent, and the Reflected
//! edge index `e` reading its vertex pair from index `14 - e`.

use vstd::arithmetic::div_mod::{
    lemma_fundamental_div_mod, lemma_fundamental_div_mod_converse, lemma_mod_mod,
};
use vstd::prelude::*;

use crate::coord::{coord_in, lemma_mul_bound, Coord, COORD_ARG_MAX, EDGE_COORD_MAX, TILE_COORD_MAX};

verus! {

/// The length class of a prototile edge. Two edges can only be glued when
/// their classes agree. `DOUBLE` is twice `SHORT`.
#[derive(PartialEq, Eq, Structural, Debug, Copy, Clone)]
pub enum EdgeLength {
    SHORT,
    LONG,
    DOUBLE,
}

/// The two prototile variants: mirror images of one another.
#[derive(PartialEq, Eq, Structural, Debug, Copy, Clone)]
pub enum Tile {
    UNREFLECTED,
    REFLECTED,
}

/// The engine's one error kind: an edge index outside 1..=13 was requested.
/// This is a programming-invariant violation, not a user error; it aborts
/// only the query that raised it.
#[derive(PartialEq, Eq, Structural, Debug, Copy, Clone)]
pub struct IndexFault {
    pub index: i32,
}

/// An edge descriptor, derived on demand from a placed tile: exact midpoint,
/// outward angle in degrees (tile orientation included, normalized to
/// [0, 360)), and length class.
#[derive(PartialEq, Debug, Copy, Clone)]
pub struct Edge {
    pub center: (Coord, Coord),
    pub angle: i32,
    pub length: EdgeLength,
}

/// A placed (or candidate) tile instance: variant tag, exact center, and
/// orientation in degrees. Immutable once pushed into a patch.
#[derive(PartialEq, Eq, Structural, Debug, Copy, Clone)]
pub struct PlacedTile {
    pub variant: Tile,
    pub cx: Coord,
    pub cy: Coord,
    pub angle: i32,
}

/// An orientation the exact engine can rotate by: normalized to [0, 360)
/// and a multiple of 30 degrees (the prototile's rotational grid; only such
/// rotations keep the coordinates inside the exact ring).
pub open spec fn wf_angle(a: int) -> bool {
    0 <= a < 360 && a % 30 == 0
}

/// The x component, in quarter units, of local template vertex `k` of the
/// Unreflected variant.
pub open spec fn template_x(k: int) -> int {
    if k == 0 {
        2
    } else if k == 1 {
        2
    } else if k == 2 {
        -1
    } else if k == 3 {
        -2
    } else if k == 4 {
        -4
    } else if k == 5 {
        -4
    } else if k == 6 {
        -7
    } else if k == 7 {
        -6
    } else if k == 8 {
        -2
    } else if k == 9 {
        -1
    } else if k == 10 {
        2
    } else if k == 11 {
        5
    } else {
        4
    }
}

/// The y component, in quarter-`sqrt(3)` units, of local template vertex `k`.
pub open spec fn template_y(k: int) -> int {
    if k == 0 {
        0
    } else if k == 1 {
        2
    } else if k == 2 {
        3
    } else if k == 3 {
        2
    } else if k == 4 {
        2
    } else if k == 5 {
        0
    } else if k == 6 {
        -1
    } else if k == 7 {
        -2
    } else if k == 8 {
        -2
    } else if k == 9 {
        -1
    } else if k == 10 {
        -2
    } else if k == 11 {
        -1
    } else {
        0
    }
}

/// The x component of local vertex `k` for variant `v`: the Reflected
/// variant mirrors the template in x.
pub open spec fn local_x(v: Tile, k: int) -> int {
    if v == Tile::REFLECTED {
        -template_x(k)
    } else {
        template_x(k)
    }
}

/// The rotation step (number of 30-degree increments) of an orientation.
pub open spec fn step_of(angle: int) -> int {
    angle / 30
}

/// Rational part of `2 * cos(30 * step degrees)`.
pub open spec fn cos_half_r(step: int) -> int {
    if step == 0 {
        2
    } else if step == 2 {
        1
    } else if step == 4 {
        -1
    } else if step == 6 {
        -2
    } else if step == 8 {
        -1
    } else if step == 10 {
        1
    } else {
        0
    }
}

/// `sqrt(3)` part of `2 * cos(30 * step degrees)`.
pub open spec fn cos_half_s(step: int) -> int {
    if step == 1 {
        1
    } else if step == 5 {
        -1
    } else if step == 7 {
        -1
    } else if step == 11 {
        1
    } else {
        0
    }
}

/// Rational part of `2 * sin(30 * step degrees)`.
pub open spec fn sin_half_r(step: int) -> int {
    if step == 1 {
        1
    } else if step == 3 {
        2
    } else if step == 5 {
        1
    } else if step == 7 {
        -1
    } else if step == 9 {
        -2
    } else if step == 11 {
        -1
    } else {
        0
    }
}

/// `sqrt(3)` part of `2 * sin(30 * step degrees)`.
pub open spec fn sin_half_s(step: int) -> int {
    if step == 2 {
        1
    } else if step == 4 {
        1
    } else if step == 8 {
        -1
    } else if step == 10 {
        -1
    } else {
        0
    }
}

/// World vertex `k` of tile `t`, component by component at the 1/16 scale:
/// center plus the rotated local vertex. Writing `x`, `y` for the local
/// vertex and `c`, `s` for cosine and sine, the world point is
/// `(cx + x*c - y*s, cy + x*s + y*c)`, expanded over the ring basis.
pub open spec fn vert_xa(t: PlacedTile, k: int) -> int {
    let st = step_of(t.angle as int);
    t.cx.a + 2 * (local_x(t.variant, k) * cos_half_r(st) - 3 * (template_y(k) * sin_half_s(st)))
}

pub open spec fn vert_xb(t: PlacedTile, k: int) -> int {
    let st = step_of(t.angle as int);
    t.cx.b + 2 * (local_x(t.variant, k) * cos_half_s(st) - template_y(k) * sin_half_r(st))
}

pub open spec fn vert_ya(t: PlacedTile, k: int) -> int {
    let st = step_of(t.angle as int);
    t.cy.a + 2 * (local_x(t.variant, k) * sin_half_r(st) + 3 * (template_y(k) * cos_half_s(st)))
}

pub open spec fn vert_yb(t: PlacedTile, k: int) -> int {
    let st = step_of(t.angle as int);
    t.cy.b + 2 * (local_x(t.variant, k) * sin_half_s(st) + template_y(k) * cos_half_r(st))
}

/// The point `p` is world vertex `k` of tile `t`.
pub open spec fn vertex_matches(p: (Coord, Coord), t: PlacedTile, k: int) -> bool {
    &&& p.0.a == vert_xa(t, k)
    &&& p.0.b == vert_xb(t, k)
    &&& p.1.a == vert_ya(t, k)
    &&& p.1.b == vert_yb(t, k)
}

/// Which world vertex the `k`-th emitted polygon point is: the Reflected
/// polygon starts at vertex 0 and then walks the outline backwards, keeping
/// the fill winding consistent with the Unreflected variant.
pub open spec fn polygon_vertex_index(v: Tile, k: int) -> int {
    if v == Tile::UNREFLECTED {
        k
    } else if k == 0 {
        0
    } else {
        13 - k
    }
}

/// Outward base angle, in degrees, of edge `e` (1..=13) for variant `v` at
/// orientation 0.
pub open spec fn edge_base_angle(v: Tile, e: int) -> int {
    if v == Tile::UNREFLECTED {
        if e == 1 {
            90
        } else if e == 2 {
            150
        } else if e == 3 {
            240
        } else if e == 4 {
            180
        } else if e == 5 {
            270
        } else if e == 6 {
            210
        } else if e == 7 {
            300
        } else if e == 8 {
            0
        } else if e == 9 {
            60
        } else if e == 10 {
            330
        } else if e == 11 {
            30
        } else if e == 12 {
            120
        } else {
            180
        }
    } else {
        if e == 1 {
            180
        } else if e == 2 {
            240
        } else if e == 3 {
            330
        } else if e == 4 {
            30
        } else if e == 5 {
            300
        } else if e == 6 {
            360
        } else if e == 7 {
            60
        } else if e == 8 {
            150
        } else if e == 9 {
            90
        } else if e == 10 {
            180
        } else if e == 11 {
            120
        } else if e == 12 {
            210
        } else {
            270
        }
    }
}

/// Outward angle of edge `e` of tile `t`: base angle plus orientation,
/// normalized to [0, 360).
pub open spec fn spec_edge_angle(t: PlacedTile, e: int) -> int {
    (edge_base_angle(t.variant, e) + t.angle) % 360
}

/// Length class of edge `e` (1..=13) for variant `v`.
pub open spec fn spec_edge_length(v: Tile, e: int) -> EdgeLength {
    if v == Tile::UNREFLECTED {
        if e == 3 || e == 4 || e == 7 || e == 9 || e == 12 || e == 13 {
            EdgeLength::SHORT
        } else if e == 8 {
            EdgeLength::DOUBLE
        } else {
            EdgeLength::LONG
        }
    } else {
        if e == 1 || e == 2 || e == 5 || e == 7 || e == 10 || e == 11 {
            EdgeLength::SHORT
        } else if e == 6 {
            EdgeLength::DOUBLE
        } else {
            EdgeLength::LONG
        }
    }
}

/// First vertex (0-based) of edge `e` in 1..=13: edge `e` joins vertices
/// `e - 1` and `e`, except edge 13 which closes the outline.
pub open spec fn edge_vertex_lo(e: int) -> int {
    if e == 13 {
        12
    } else {
        e - 1
    }
}

/// Second vertex (0-based) of edge `e` in 1..=13.
pub open spec fn edge_vertex_hi(e: int) -> int {
    if e == 13 {
        0
    } else {
        e
    }
}

/// The vertex-table index that edge `e` of variant `v` reads: the Reflected
/// variant reads its pair from index `14 - e`.
pub open spec fn eff_edge_index(v: Tile, e: int) -> int {
    if v == Tile::REFLECTED {
        14 - e
    } else {
        e
    }
}

/// Sum of the local x components of the two endpoints of edge `e`.
pub open spec fn edge_sum_x(v: Tile, e: int) -> int {
    local_x(v, edge_vertex_lo(eff_edge_index(v, e))) + local_x(
        v,
        edge_vertex_hi(eff_edge_index(v, e)),
    )
}

/// Sum of the local y components of the two endpoints of edge `e`.
pub open spec fn edge_sum_y(v: Tile, e: int) -> int {
    template_y(edge_vertex_lo(eff_edge_index(v, e))) + template_y(
        edge_vertex_hi(eff_edge_index(v, e)),
    )
}

/// Midpoint of edge `e` of tile `t`, component by component: the midpoint of
/// the two world endpoints, which is the center plus the rotated half-sum of
/// the local endpoints.
pub open spec fn edge_center_xa(t: PlacedTile, e: int) -> int {
    let st = step_of(t.angle as int);
    t.cx.a + (edge_sum_x(t.variant, e) * cos_half_r(st) - 3 * (edge_sum_y(t.variant, e)
        * sin_half_s(st)))
}

pub open spec fn edge_center_xb(t: PlacedTile, e: int) -> int {
    let st = step_of(t.angle as int);
    t.cx.b + (edge_sum_x(t.variant, e) * cos_half_s(st) - edge_sum_y(t.variant, e) * sin_half_r(
        st,
    ))
}

pub open spec fn edge_center_ya(t: PlacedTile, e: int) -> int {
    let st = step_of(t.angle as int);
    t.cy.a + (edge_sum_x(t.variant, e) * sin_half_r(st) + 3 * (edge_sum_y(t.variant, e)
        * cos_half_s(st)))
}

pub open spec fn edge_center_yb(t: PlacedTile, e: int) -> int {
    let st = step_of(t.angle as int);
    t.cy.b + (edge_sum_x(t.variant, e) * sin_half_s(st) + edge_sum_y(t.variant, e) * cos_half_r(
        st,
    ))
}

/// The point `p` is the midpoint of edge `e` of tile `t`.
pub open spec fn edge_center_matches(p: (Coord, Coord), t: PlacedTile, e: int) -> bool {
    &&& p.0.a == edge_center_xa(t, e)
    &&& p.0.b == edge_center_xb(t, e)
    &&& p.1.a == edge_center_ya(t, e)
    &&& p.1.b == edge_center_yb(t, e)
}

/// The descriptor `ed` is edge `e` of tile `t`: midpoint, outward angle and
/// length class all agree.
pub open spec fn edge_matches(ed: Edge, t: PlacedTile, e: int) -> bool {
    &&& edge_center_matches(ed.center, t, e)
    &&& ed.angle as int == spec_edge_angle(t, e)
    &&& ed.length == spec_edge_length(t.variant, e)
}

/// Normalizes `a` degrees into [0, 360), as the mathematical remainder.
fn norm_angle(a: i64) -> (r: i32)
    requires
        -0x2_0000_0000 <= a <= 0x2_0000_0000,
    ensures
        r as int == (a as int) % 360,
        0 <= r < 360,
{
    if a >= 0 {
        (a % 360) as i32
    } else {
        let n: i64 = (-a) % 360;
        proof {
            let na = (-a) as int;
            lemma_fundamental_div_mod(na, 360);
            lemma_fundamental_div_mod_converse(
                a as int,
                360,
                if n == 0 {
                    -(na / 360)
                } else {
                    -(na / 360) - 1
                },
                if n == 0 {
                    0
                } else {
                    360 - n as int
                },
            );
        }
        if n == 0 {
            0
        } else {
            (360 - n) as i32
        }
    }
}

/// Local template vertex `k`, in quarter units: `(x, y)` for the point
/// `(x/4, y*sqrt(3)/4)`.
fn tile_geom(k: usize) -> (r: (i64, i64))
    requires
        k < 13,
    ensures
        r.0 == template_x(k as int),
        r.1 == template_y(k as int),
        -7 <= r.0 <= 5,
        -2 <= r.1 <= 3,
{
    match k {
        0 => (2, 0),
        1 => (2, 2),
        2 => (-1, 3),
        3 => (-2, 2),
        4 => (-4, 2),
        5 => (-4, 0),
        6 => (-7, -1),
        7 => (-6, -2),
        8 => (-2, -2),
        9 => (-1, -1),
        10 => (2, -2),
        11 => (5, -1),
        _ => (4, 0),
    }
}

/// Doubled cosine and sine of `30 * step` degrees, over the basis
/// `(1, sqrt(3))`: returns `((cos_r, cos_s), (sin_r, sin_s))`.
fn rot_coeffs(step: i32) -> (r: ((i64, i64), (i64, i64)))
    requires
        0 <= step < 12,
    ensures
        r.0.0 == cos_half_r(step as int),
        r.0.1 == cos_half_s(step as int),
        r.1.0 == sin_half_r(step as int),
        r.1.1 == sin_half_s(step as int),
        -2 <= r.0.0 <= 2 && -2 <= r.0.1 <= 2 && -2 <= r.1.0 <= 2 && -2 <= r.1.1 <= 2,
{
    match step {
        0 => ((2, 0), (0, 0)),
        1 => ((0, 1), (1, 0)),
        2 => ((1, 0), (0, 1)),
        3 => ((0, 0), (2, 0)),
        4 => ((-1, 0), (0, 1)),
        5 => ((0, -1), (1, 0)),
        6 => ((-2, 0), (0, 0)),
        7 => ((0, -1), (-1, 0)),
        8 => ((-1, 0), (0, -1)),
        9 => ((0, 0), (-2, 0)),
        10 => ((1, 0), (0, -1)),
        _ => ((0, 1), (-1, 0)),
    }
}

/// The vertex pair (0-based) that edge index `e` reads, or an `IndexFault`
/// for an index outside 1..=13.
pub fn edge_index_to_vertex_tuple(e: i32) -> (r: Result<(usize, usize), IndexFault>)
    ensures
        (1 <= e <= 13) <==> r is Ok,
        r matches Ok(p) ==> p.0 == edge_vertex_lo(e as int) && p.1 == edge_vertex_hi(e as int),
        r matches Err(f) ==> f.index == e,
{
    match e {
        1 => Ok((0, 1)),
        2 => Ok((1, 2)),
        3 => Ok((2, 3)),
        4 => Ok((3, 4)),
        5 => Ok((4, 5)),
        6 => Ok((5, 6)),
        7 => Ok((6, 7)),
        8 => Ok((7, 8)),
        9 => Ok((8, 9)),
        10 => Ok((9, 10)),
        11 => Ok((10, 11)),
        12 => Ok((11, 12)),
        13 => Ok((12, 0)),
        _ => Err(IndexFault { index: e }),
    }
}

/// Outward base angle of edge `e` for variant `v`, from the fixed table.
fn base_angle(v: &Tile, e: i32) -> (r: i32)
    requires
        1 <= e <= 13,
    ensures
        r as int == edge_base_angle(*v, e as int),
        0 <= r <= 360,
{
    match v {
        Tile::UNREFLECTED => match e {
            1 => 90,
            2 => 150,
            3 => 240,
            4 => 180,
            5 => 270,
            6 => 210,
            7 => 300,
            8 => 0,
            9 => 60,
            10 => 330,
            11 => 30,
            12 => 120,
            _ => 180,
        },
        Tile::REFLECTED => match e {
            1 => 180,
            2 => 240,
            3 => 330,
            4 => 30,
            5 => 300,
            6 => 360,
            7 => 60,
            8 => 150,
            9 => 90,
            10 => 180,
            11 => 120,
            12 => 210,
            _ => 270,
        },
    }
}

impl PlacedTile {
    /// A tile the exact engine can work with: orientation normalized to the
    /// 30-degree grid, center components in range.
    pub open spec fn wf(self) -> bool {
        &&& wf_angle(self.angle as int)
        &&& coord_in(self.cx, TILE_COORD_MAX as int)
        &&& coord_in(self.cy, TILE_COORD_MAX as int)
    }

    /// Builds a tile at center `(x, y)` with orientation `a` degrees,
    /// normalized to [0, 360). An orientation on the 30-degree grid (the
    /// only ones the geometric queries accept) stays on it.
    pub fn new(variant: Tile, x: Coord, y: Coord, a: i32) -> (t: PlacedTile)
        ensures
            t.variant == variant,
            t.cx == x,
            t.cy == y,
            t.angle as int == (a as int) % 360,
            a % 30 == 0 ==> (t.angle as int) % 30 == 0,
    {
        proof {
            lemma_mod_mod(a as int, 30, 12);
            assert(30 * 12 == 360);
        }
        PlacedTile { variant, cx: x, cy: y, angle: norm_angle(a as i64) }
    }

    /// The same tile turned by `angle` degrees (a multiple of 30), with the
    /// result normalized to [0, 360).
    pub fn rotate(&self, angle: i32) -> (t: PlacedTile)
        ensures
            t.variant == self.variant,
            t.cx == self.cx,
            t.cy == self.cy,
            t.angle as int == (self.angle + angle) % 360,
            (self.angle + angle) % 30 == 0 ==> (t.angle as int) % 30 == 0,
    {
        proof {
            lemma_mod_mod(self.angle + angle, 30, 12);
            assert(30 * 12 == 360);
        }
        PlacedTile {
            variant: self.variant,
            cx: self.cx,
            cy: self.cy,
            angle: norm_angle(self.angle as i64 + angle as i64),
        }
    }

    /// The same tile moved by the exact offset `(ox, oy)`.
    pub fn translate(&self, ox: Coord, oy: Coord) -> (t: PlacedTile)
        requires
            coord_in(self.cx, COORD_ARG_MAX as int),
            coord_in(self.cy, COORD_ARG_MAX as int),
            coord_in(ox, COORD_ARG_MAX as int),
            coord_in(oy, COORD_ARG_MAX as int),
        ensures
            t.variant == self.variant,
            t.angle == self.angle,
            t.cx.a == self.cx.a + ox.a,
            t.cx.b == self.cx.b + ox.b,
            t.cy.a == self.cy.a + oy.a,
            t.cy.b == self.cy.b + oy.b,
    {
        PlacedTile {
            variant: self.variant,
            cx: Coord { a: self.cx.a + ox.a, b: self.cx.b + ox.b },
            cy: Coord { a: self.cy.a + oy.a, b: self.cy.b + oy.b },
            angle: self.angle,
        }
    }

    /// The 13 world vertices in template order: center plus rotated local
    /// vertex (the Reflected variant mirrors x).
    fn geometry(&self) -> (pts: Vec<(Coord, Coord)>)
        requires
            self.wf(),
        ensures
            pts@.len() == 13,
            forall|k: int| 0 <= k < 13 ==> vertex_matches(#[trigger] pts@[k], *self, k),
    {
        let step: i32 = self.angle / 30;
        let ((c1, c2), (s1, s2)) = rot_coeffs(step);
        let mut pts: Vec<(Coord, Coord)> = Vec::new();
        let mut k: usize = 0;
        while k < 13
            invariant
                self.wf(),
                0 <= k <= 13,
                step as int == step_of(self.angle as int),
                c1 == cos_half_r(step as int) && c2 == cos_half_s(step as int),
                s1 == sin_half_r(step as int) && s2 == sin_half_s(step as int),
                -2 <= c1 <= 2 && -2 <= c2 <= 2 && -2 <= s1 <= 2 && -2 <= s2 <= 2,
                pts@.len() == k,
                forall|j: int| 0 <= j < k ==> vertex_matches(#[trigger] pts@[j], *self, j),
            decreases 13 - k,
        {
            let (tx, ty) = tile_geom(k);
            let xq: i64 = match self.variant {
                Tile::UNREFLECTED => tx,
                Tile::REFLECTED => -tx,
            };
            proof {
                lemma_mul_bound(xq as int, c1 as int, 7);
                lemma_mul_bound(xq as int, c2 as int, 7);
                lemma_mul_bound(xq as int, s1 as int, 7);
                lemma_mul_bound(xq as int, s2 as int, 7);
                lemma_mul_bound(ty as int, c1 as int, 3);
                lemma_mul_bound(ty as int, c2 as int, 3);
                lemma_mul_bound(ty as int, s1 as int, 3);
                lemma_mul_bound(ty as int, s2 as int, 3);
            }
            let xa: i64 = self.cx.a + 2 * (xq * c1 - 3 * (ty * s2));
            let xb: i64 = self.cx.b + 2 * (xq * c2 - ty * s1);
            let ya: i64 = self.cy.a + 2 * (xq * s1 + 3 * (ty * c2));
            let yb: i64 = self.cy.b + 2 * (xq * s2 + ty * c1);
            pts.push((Coord { a: xa, b: xb }, Coord { a: ya, b: yb }));
            k = k + 1;
        }
        pts
    }

    /// The polygon outline: the 13 world vertices in fill order. The
    /// Reflected variant starts at vertex 0 and walks the outline backwards,
    /// keeping its winding consistent with the Unreflected variant.
    pub fn polygon(&self) -> (pts: Vec<(Coord, Coord)>)
        requires
            self.wf(),
        ensures
            pts@.len() == 13,
            forall|k: int|
                0 <= k < 13 ==> vertex_matches(
                    #[trigger] pts@[k],
                    *self,
                    polygon_vertex_index(self.variant, k),
                ),
    {
        let g = self.geometry();
        match self.variant {
            Tile::UNREFLECTED => g,
            Tile::REFLECTED => {
                let mut pts: Vec<(Coord, Coord)> = Vec::new();
                pts.push(g[0]);
                let mut k: usize = 1;
                while k < 13
                    invariant
                        1 <= k <= 13,
                        g@.len() == 13,
                        self.variant == Tile::REFLECTED,
                        forall|j: int| 0 <= j < 13 ==> vertex_matches(#[trigger] g@[j], *self, j),
                        pts@.len() == k,
                        pts@[0] == g@[0],
                        forall|j: int| 1 <= j < k ==> #[trigger] pts@[j] == g@[13 - j],
                    decreases 13 - k,
                {
                    pts.push(g[13 - k]);
                    k = k + 1;
                }
                pts
            },
        }
    }

    /// Outward angle of edge `e`: table base angle plus orientation, modulo
    /// 360. Fails with `IndexFault` outside 1..=13.
    pub fn edge_angle(&self, e: i32) -> (r: Result<i32, IndexFault>)
        requires
            0 <= self.angle < 360,
        ensures
            (1 <= e <= 13) <==> r is Ok,
            r matches Ok(a) ==> a as int == spec_edge_angle(*self, e as int) && 0 <= a < 360,
            r matches Err(f) ==> f.index == e,
    {
        if 1 <= e && e <= 13 {
            let base: i32 = base_angle(&self.variant, e);
            Ok((base + self.angle) % 360)
        } else {
            Err(IndexFault { index: e })
        }
    }

    /// Length class of edge `e`, from the fixed table. Fails with
    /// `IndexFault` outside 1..=13.
    pub fn edge_length(&self, e: i32) -> (r: Result<EdgeLength, IndexFault>)
        ensures
            (1 <= e <= 13) <==> r is Ok,
            r matches Ok(l) ==> l == spec_edge_length(self.variant, e as int),
            r matches Err(f) ==> f.index == e,
    {
        match self.variant {
            Tile::UNREFLECTED => match e {
                1 => Ok(EdgeLength::LONG),
                2 => Ok(EdgeLength::LONG),
                3 => Ok(EdgeLength::SHORT),
                4 => Ok(EdgeLength::SHORT),
                5 => Ok(EdgeLength::LONG),
                6 => Ok(EdgeLength::LONG),
                7 => Ok(EdgeLength::SHORT),
                8 => Ok(EdgeLength::DOUBLE),
                9 => Ok(EdgeLength::SHORT),
                10 => Ok(EdgeLength::LONG),
                11 => Ok(EdgeLength::LONG),
                12 => Ok(EdgeLength::SHORT),
                13 => Ok(EdgeLength::SHORT),
                _ => Err(IndexFault { index: e }),
            },
            Tile::REFLECTED => match e {
                1 => Ok(EdgeLength::SHORT),
                2 => Ok(EdgeLength::SHORT),
                3 => Ok(EdgeLength::LONG),
                4 => Ok(EdgeLength::LONG),
                5 => Ok(EdgeLength::SHORT),
                6 => Ok(EdgeLength::DOUBLE),
                7 => Ok(EdgeLength::SHORT),
                8 => Ok(EdgeLength::LONG),
                9 => Ok(EdgeLength::LONG),
                10 => Ok(EdgeLength::SHORT),
                11 => Ok(EdgeLength::SHORT),
                12 => Ok(EdgeLength::LONG),
                13 => Ok(EdgeLength::LONG),
                _ => Err(IndexFault { index: e }),
            },
        }
    }

    /// Exact midpoint of edge `e`: the midpoint of its two world endpoints.
    /// Fails with `IndexFault` outside 1..=13.
    pub fn edge_center(&self, e: i32) -> (r: Result<(Coord, Coord), IndexFault>)
        requires
            self.wf(),
        ensures
            (1 <= e <= 13) <==> r is Ok,
            r matches Ok(p) ==> edge_center_matches(p, *self, e as int),
            r matches Err(f) ==> f.index == e,
    {
        if e < 1 || e > 13 {
            return Err(IndexFault { index: e });
        }
        let eff: i32 = match self.variant {
            Tile::UNREFLECTED => e,
            Tile::REFLECTED => 14 - e,
        };
        let (i1, i2) = match edge_index_to_vertex_tuple(eff) {
            Ok(p) => p,
            Err(_) => unreached(),
        };
        let (tx1, ty1) = tile_geom(i1);
        let (tx2, ty2) = tile_geom(i2);
        let (sx0, sy) = (tx1 + tx2, ty1 + ty2);
        let sx: i64 = match self.variant {
            Tile::UNREFLECTED => sx0,
            Tile::REFLECTED => -sx0,
        };
        let step: i32 = self.angle / 30;
        let ((c1, c2), (s1, s2)) = rot_coeffs(step);
        proof {
            lemma_mul_bound(sx as int, c1 as int, 14);
            lemma_mul_bound(sx as int, c2 as int, 14);
            lemma_mul_bound(sx as int, s1 as int, 14);
            lemma_mul_bound(sx as int, s2 as int, 14);
            lemma_mul_bound(sy as int, c1 as int, 6);
            lemma_mul_bound(sy as int, c2 as int, 6);
            lemma_mul_bound(sy as int, s1 as int, 6);
            lemma_mul_bound(sy as int, s2 as int, 6);
        }
        let xa: i64 = self.cx.a + (sx * c1 - 3 * (sy * s2));
        let xb: i64 = self.cx.b + (sx * c2 - sy * s1);
        let ya: i64 = self.cy.a + (sx * s1 + 3 * (sy * c2));
        let yb: i64 = self.cy.b + (sx * s2 + sy * c1);
        Ok((Coord { a: xa, b: xb }, Coord { a: ya, b: yb }))
    }

    /// The two exact world endpoints of edge `e`. Fails with `IndexFault`
    /// outside 1..=13.
    pub fn edge_points(&self, e: i32) -> (r: Result<((Coord, Coord), (Coord, Coord)), IndexFault>)
        requires
            self.wf(),
        ensures
            (1 <= e <= 13) <==> r is Ok,
            r matches Ok(p) ==> vertex_matches(
                p.0,
                *self,
                edge_vertex_lo(eff_edge_index(self.variant, e as int)),
            ) && vertex_matches(p.1, *self, edge_vertex_hi(eff_edge_index(self.variant, e as int))),
            r matches Err(f) ==> f.index == e,
    {
        if e < 1 || e > 13 {
            return Err(IndexFault { index: e });
        }
        let eff: i32 = match self.variant {
            Tile::UNREFLECTED => e,
            Tile::REFLECTED => 14 - e,
        };
        let (i1, i2) = match edge_index_to_vertex_tuple(eff) {
            Ok(p) => p,
            Err(_) => unreached(),
        };
        let g = self.geometry();
        Ok((g[i1], g[i2]))
    }

    /// All 13 edge descriptors of this tile, in index order 1..=13.
    pub fn get_edges(&self) -> (res: Vec<Edge>)
        requires
            self.wf(),
        ensures
            res@.len() == 13,
            forall|j: int| 0 <= j < 13 ==> edge_matches(#[trigger] res@[j], *self, j + 1),
    {
        let mut res: Vec<Edge> = Vec::new();
        let mut i: i32 = 1;
        while i <= 13
            invariant
                self.wf(),
                1 <= i <= 14,
                res@.len() == i - 1,
                forall|j: int| 0 <= j < i - 1 ==> edge_matches(#[trigger] res@[j], *self, j + 1),
            decreases 14 - i,
        {
            let c = match self.edge_center(i) {
                Ok(c) => c,
                Err(_) => unreached(),
            };
            let a = match self.edge_angle(i) {
                Ok(a) => a,
                Err(_) => unreached(),
            };
            let l = match self.edge_length(i) {
                Ok(l) => l,
                Err(_) => unreached(),
            };
            res.push(Edge { center: c, angle: a, length: l });
            i = i + 1;
        }
        res
    }
}

/// Builds a tile of the requested variant at `(x, y)` with orientation
/// `angle` degrees, normalized into [0, 360).
pub fn build_tile(variant: &Tile, x: Coord, y: Coord, angle: i32) -> (r: Result<
    PlacedTile,
    IndexFault,
>)
    ensures
        r is Ok,
        r matches Ok(t) ==> t.variant == *variant && t.cx == x && t.cy == y && t.angle as int == (
        angle as int) % 360 && (angle % 30 == 0 ==> (t.angle as int) % 30 == 0),
{
    Ok(PlacedTile::new(*variant, x, y, angle))
}

/// Edge angles and length classes depend only on the variant, the edge
/// index and the orientation: two tiles that differ only in their centers
/// have identical edge angles and length classes at every index.
pub proof fn lemma_edge_attrs_translation_invariant(t1: PlacedTile, t2: PlacedTile)
    requires
        t1.variant == t2.variant,
        t1.angle == t2.angle,
    ensures
        forall|e: int|
            1 <= e <= 13 ==> spec_edge_angle(t1, e) == spec_edge_angle(t2, e)
                && spec_edge_length(t1.variant, e) == spec_edge_length(t2.variant, e),
{
}

/// At orientation 0 and center (0, 0) the polygon is exactly the raw local
/// vertex template: in the engine's sixteenth-scale coordinates, polygon
/// point `k` is `(x/4, y*sqrt(3)/4)` for the local vertex `(x, y)` it
/// traverses (mirrored in x and walked in reverse for the Reflected
/// variant).
pub proof fn lemma_polygon_is_template(t: PlacedTile, k: int)
    requires
        t.angle == 0,
        t.cx == (Coord { a: 0, b: 0 }),
        t.cy == (Coord { a: 0, b: 0 }),
        0 <= k < 13,
    ensures
        vert_xa(t, polygon_vertex_index(t.variant, k)) == 4 * local_x(
            t.variant,
            polygon_vertex_index(t.variant, k),
        ),
        vert_xb(t, polygon_vertex_index(t.variant, k)) == 0,
        vert_ya(t, polygon_vertex_index(t.variant, k)) == 0,
        vert_yb(t, polygon_vertex_index(t.variant, k)) == 4 * template_y(
            polygon_vertex_index(t.variant, k),
        ),
{
}

/// An edge descriptor the comparators accept: angle normalized, midpoint
/// components in range.
pub open spec fn edge_wf(e: Edge) -> bool {
    &&& 0 <= e.angle < 360
    &&& coord_in(e.center.0, EDGE_COORD_MAX as int)
    &&& coord_in(e.center.1, EDGE_COORD_MAX as int)
}

/// For angles normalized to [0, 360), antipodality reads the same from
/// either side: `(a + 180) % 360 == b` exactly when `(b + 180) % 360 == a`.
pub proof fn lemma_antipodal_symmetric(a: int, b: int)
    requires
        0 <= a < 360,
        0 <= b < 360,
    ensures
        ((a + 180) % 360 == b) == ((b + 180) % 360 == a),
{
    lemma_antipodal_shape(a);
    lemma_antipodal_shape(b);
}

/// The concrete value of `(a + 180) % 360` on [0, 360).
proof fn lemma_antipodal_shape(a: int)
    requires
        0 <= a < 360,
    ensures
        (a + 180) % 360 == if a < 180 {
            a + 180
        } else {
            a - 180
        },
{
    if a < 180 {
        vstd::arithmetic::div_mod::lemma_fundamental_div_mod_converse(a + 180, 360, 0, a + 180);
    } else {
        vstd::arithmetic::div_mod::lemma_fundamental_div_mod_converse(a + 180, 360, 1, a - 180);
    }
}

/// Every edge descriptor of a well-formed tile is itself well formed.
pub proof fn lemma_tile_edges_wf(t: PlacedTile, edges: Seq<Edge>)
    requires
        t.wf(),
        edges.len() == 13,
        forall|k: int| 0 <= k < 13 ==> edge_matches(#[trigger] edges[k], t, k + 1),
    ensures
        forall|k: int| 0 <= k < 13 ==> edge_wf(#[trigger] edges[k]),
{
    assert forall|k: int| 0 <= k < 13 implies edge_wf(#[trigger] edges[k]) by {
        lemma_edge_center_offset(t, k + 1);
        assert(0 <= spec_edge_angle(t, k + 1) < 360) by {
            vstd::arithmetic::div_mod::lemma_mod_bound(
                edge_base_angle(t.variant, k + 1) + t.angle,
                360,
            );
        }
    }
}

/// The midpoint of any edge of a tile lies within 64 units of the tile
/// center, component by component.
pub proof fn lemma_edge_center_offset(t: PlacedTile, e: int)
    requires
        wf_angle(t.angle as int),
        1 <= e <= 13,
    ensures
        -64 <= edge_center_xa(t, e) - t.cx.a <= 64,
        -64 <= edge_center_xb(t, e) - t.cx.b <= 64,
        -64 <= edge_center_ya(t, e) - t.cy.a <= 64,
        -64 <= edge_center_yb(t, e) - t.cy.b <= 64,
{
    let v = t.variant;
    let st = step_of(t.angle as int);
    assert(0 <= st < 12);
    let sx = edge_sum_x(v, e);
    let sy = edge_sum_y(v, e);
    assert(-14 <= sx <= 14);
    assert(-6 <= sy <= 6);
    lemma_mul_bound(sx, cos_half_r(st), 14);
    lemma_mul_bound(sx, cos_half_s(st), 14);
    lemma_mul_bound(sx, sin_half_r(st), 14);
    lemma_mul_bound(sx, sin_half_s(st), 14);
    lemma_mul_bound(sy, cos_half_r(st), 6);
    lemma_mul_bound(sy, cos_half_s(st), 6);
    lemma_mul_bound(sy, sin_half_r(st), 6);
    lemma_mul_bound(sy, sin_half_s(st), 6);
}

/// The edge midpoint spec really is the midpoint of the edge's two world
/// endpoints: twice each midpoint component is the sum of the matching
/// endpoint components.
pub proof fn lemma_edge_center_is_midpoint(t: PlacedTile, e: int)
    requires
        1 <= e <= 13,
    ensures
        2 * edge_center_xa(t, e) == vert_xa(t, edge_vertex_lo(eff_edge_index(t.variant, e)))
            + vert_xa(t, edge_vertex_hi(eff_edge_index(t.variant, e))),
        2 * edge_center_xb(t, e) == vert_xb(t, edge_vertex_lo(eff_edge_index(t.variant, e)))
            + vert_xb(t, edge_vertex_hi(eff_edge_index(t.variant, e))),
        2 * edge_center_ya(t, e) == vert_ya(t, edge_vertex_lo(eff_edge_index(t.variant, e)))
            + vert_ya(t, edge_vertex_hi(eff_edge_index(t.variant, e))),
        2 * edge_center_yb(t, e) == vert_yb(t, edge_vertex_lo(eff_edge_index(t.variant, e)))
            + vert_yb(t, edge_vertex_hi(eff_edge_index(t.variant, e))),
{
    let st = step_of(t.angle as int);
    let lo = edge_vertex_lo(eff_edge_index(t.variant, e));
    let hi = edge_vertex_hi(eff_edge_index(t.variant, e));
    let xl = local_x(t.variant, lo);
    let xh = local_x(t.variant, hi);
    let yl = template_y(lo);
    let yh = template_y(hi);
    assert(edge_sum_x(t.variant, e) == xl + xh);
    assert(edge_sum_y(t.variant, e) == yl + yh);
    assert forall|c: int| #[trigger] ((xl + xh) * c) == xl * c + xh * c by {
        vstd::arithmetic::mul::lemma_mul_is_distributive_add_other_way(c, xl, xh);
    }
    assert forall|c: int| #[trigger] ((yl + yh) * c) == yl * c + yh * c by {
        vstd::arithmetic::mul::lemma_mul_is_distributive_add_other_way(c, yl, yh);
    }
}

/// Every world vertex of a tile lies within 152 units of the tile center,
/// component by component.
pub proof fn lemma_vertex_offset(t: PlacedTile, k: int)
    requires
        wf_angle(t.angle as int),
        0 <= k < 13,
    ensures
        -152 <= vert_xa(t, k) - t.cx.a <= 152,
        -152 <= vert_xb(t, k) - t.cx.b <= 152,
        -152 <= vert_ya(t, k) - t.cy.a <= 152,
        -152 <= vert_yb(t, k) - t.cy.b <= 152,
{
    let st = step_of(t.angle as int);
    assert(0 <= st < 12);
    let xq = local_x(t.variant, k);
    let yq = template_y(k);
    assert(-7 <= xq <= 7);
    assert(-3 <= yq <= 3);
    lemma_mul_bound(xq, cos_half_r(st), 7);
    lemma_mul_bound(xq, cos_half_s(st), 7);
    lemma_mul_bound(xq, sin_half_r(st), 7);
    lemma_mul_bound(xq, sin_half_s(st), 7);
    lemma_mul_bound(yq, cos_half_r(st), 3);
    lemma_mul_bound(yq, cos_half_s(st), 3);
    lemma_mul_bound(yq, sin_half_r(st), 3);
    lemma_mul_bound(yq, sin_half_s(st), 3);
}

} // verus!
