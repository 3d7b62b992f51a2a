//! The decorative line generator: Ammann bar segments of a placed tile.
//!
//! The bars are fixed interior line segments obtained by interpolating
//! along the first polygon edges with golden-ratio fractions. Those
//! fractions are quarter-integer combinations of 1 and `sqrt(5)` (the
//! fractions in use are 1/4, `1/(3 + sqrt(5))` and `(1 + sqrt(5))/4`), so a
//! bar endpoint lives in the rank-four ring spanned by 1, `sqrt(3)`,
//! `sqrt(5)` and `sqrt(15)` over the integers, and is held exactly.
//!
//! Consecutive points of the returned list pair up into segments, as in
//! the renderer's line-list convention.

use vstd::prelude::*;

use crate::coord::{coord_in, lemma_mul_bound, Coord, TILE_COORD_MAX};
use crate::tile::{
    lemma_vertex_offset, polygon_vertex_index, vert_xa, vert_xb, vert_ya, vert_yb, vertex_matches,
    PlacedTile, Tile,
};

verus! {

/// One coordinate of a decorative bar endpoint, held exactly: the value
/// represented is `(r + s3*sqrt(3) + s5*sqrt(5) + s15*sqrt(15)) / 64` in
/// tile-side units.
#[derive(Clone, Copy, Debug, PartialEq, Eq, Structural)]
pub struct BarPoint {
    pub r: i64,
    pub s3: i64,
    pub s5: i64,
    pub s15: i64,
}

/// The point `p` interpolates the tile's polygon from emitted point `a`
/// toward emitted point `b` by the fraction `(u + v*sqrt(5)) / 4`, exactly:
/// each coordinate is `p_a + t * (p_b - p_a)` expanded over the ring basis
/// at the 1/64 scale.
pub open spec fn bar_interp_matches(
    p: (BarPoint, BarPoint),
    t: PlacedTile,
    a: int,
    b: int,
    u: int,
    v: int,
) -> bool {
    let ia = polygon_vertex_index(t.variant, a);
    let ib = polygon_vertex_index(t.variant, b);
    &&& p.0.r == 4 * vert_xa(t, ia) + u * (vert_xa(t, ib) - vert_xa(t, ia))
    &&& p.0.s3 == 4 * vert_xb(t, ia) + u * (vert_xb(t, ib) - vert_xb(t, ia))
    &&& p.0.s5 == v * (vert_xa(t, ib) - vert_xa(t, ia))
    &&& p.0.s15 == v * (vert_xb(t, ib) - vert_xb(t, ia))
    &&& p.1.r == 4 * vert_ya(t, ia) + u * (vert_ya(t, ib) - vert_ya(t, ia))
    &&& p.1.s3 == 4 * vert_yb(t, ia) + u * (vert_yb(t, ib) - vert_yb(t, ia))
    &&& p.1.s5 == v * (vert_ya(t, ib) - vert_ya(t, ia))
    &&& p.1.s15 == v * (vert_yb(t, ib) - vert_yb(t, ia))
}

/// Interpolates from `p1` toward `p2` by the fraction `(u + v*sqrt(5))/4`,
/// exactly.
fn interpolate(p1: (Coord, Coord), p2: (Coord, Coord), u: i64, v: i64) -> (r: (BarPoint, BarPoint))
    requires
        coord_in(p1.0, TILE_COORD_MAX + 152),
        coord_in(p1.1, TILE_COORD_MAX + 152),
        coord_in(p2.0, TILE_COORD_MAX + 152),
        coord_in(p2.1, TILE_COORD_MAX + 152),
        -4 <= u <= 4,
        -4 <= v <= 4,
    ensures
        r.0.r == 4 * p1.0.a + u * (p2.0.a - p1.0.a),
        r.0.s3 == 4 * p1.0.b + u * (p2.0.b - p1.0.b),
        r.0.s5 == v * (p2.0.a - p1.0.a),
        r.0.s15 == v * (p2.0.b - p1.0.b),
        r.1.r == 4 * p1.1.a + u * (p2.1.a - p1.1.a),
        r.1.s3 == 4 * p1.1.b + u * (p2.1.b - p1.1.b),
        r.1.s5 == v * (p2.1.a - p1.1.a),
        r.1.s15 == v * (p2.1.b - p1.1.b),
{
    let dxa: i64 = p2.0.a - p1.0.a;
    let dxb: i64 = p2.0.b - p1.0.b;
    let dya: i64 = p2.1.a - p1.1.a;
    let dyb: i64 = p2.1.b - p1.1.b;
    proof {
        lemma_mul_bound(u as int, dxa as int, 0x1000_0130);
        lemma_mul_bound(u as int, dxb as int, 0x1000_0130);
        lemma_mul_bound(u as int, dya as int, 0x1000_0130);
        lemma_mul_bound(u as int, dyb as int, 0x1000_0130);
        lemma_mul_bound(v as int, dxa as int, 0x1000_0130);
        lemma_mul_bound(v as int, dxb as int, 0x1000_0130);
        lemma_mul_bound(v as int, dya as int, 0x1000_0130);
        lemma_mul_bound(v as int, dyb as int, 0x1000_0130);
    }
    let x = BarPoint { r: 4 * p1.0.a + u * dxa, s3: 4 * p1.0.b + u * dxb, s5: v * dxa, s15: v * dxb };
    let y = BarPoint { r: 4 * p1.1.a + u * dya, s3: 4 * p1.1.b + u * dyb, s5: v * dya, s15: v * dyb };
    (x, y)
}

impl PlacedTile {
    /// The Ammann bar segments of this tile: golden-ratio interpolations
    /// along the first polygon edges, as a list of exact points in which
    /// consecutive pairs form the segments (four segments for the
    /// Unreflected variant, three for the Reflected one).
    pub fn get_ammann_bars(&self) -> (res: Vec<(BarPoint, BarPoint)>)
        requires
            self.wf(),
        ensures
            self.variant == Tile::UNREFLECTED ==> res@.len() == 8
                && bar_interp_matches(res@[0], *self, 1, 0, 1, 0)
                && bar_interp_matches(res@[1], *self, 1, 2, 3, -1)
                && bar_interp_matches(res@[2], *self, 1, 2, 3, -1)
                && bar_interp_matches(res@[3], *self, 1, 0, 1, 1)
                && bar_interp_matches(res@[4], *self, 3, 0, 1, 1)
                && bar_interp_matches(res@[5], *self, 3, 2, 3, -1)
                && bar_interp_matches(res@[6], *self, 3, 2, 3, -1)
                && bar_interp_matches(res@[7], *self, 3, 0, 1, 0),
            self.variant == Tile::REFLECTED ==> res@.len() == 6
                && bar_interp_matches(res@[0], *self, 2, 1, 1, 0)
                && bar_interp_matches(res@[1], *self, 0, 3, 3, -1)
                && bar_interp_matches(res@[2], *self, 0, 3, 3, -1)
                && bar_interp_matches(res@[3], *self, 0, 1, 3, -1)
                && bar_interp_matches(res@[4], *self, 0, 1, 3, -1)
                && bar_interp_matches(res@[5], *self, 2, 3, 1, 0),
    {
        let p = self.polygon();
        proof {
            assert forall|k: int| 0 <= k < 4 implies coord_in((#[trigger] p@[k]).0, TILE_COORD_MAX + 152)
                && coord_in(p@[k].1, TILE_COORD_MAX + 152) by {
                lemma_vertex_offset(*self, polygon_vertex_index(self.variant, k));
                assert(vertex_matches(p@[k], *self, polygon_vertex_index(self.variant, k)));
            }
        }
        let mut res: Vec<(BarPoint, BarPoint)> = Vec::new();
        match self.variant {
            Tile::UNREFLECTED => {
                let a0 = interpolate(p[1], p[0], 1, 1);
                let a1 = interpolate(p[1], p[0], 1, 0);
                let a2 = interpolate(p[1], p[2], 3, -1);
                let a3 = interpolate(p[3], p[2], 3, -1);
                let a4 = interpolate(p[3], p[0], 1, 0);
                let a5 = interpolate(p[3], p[0], 1, 1);
                res.push(a1);
                res.push(a2);
                res.push(a2);
                res.push(a0);
                res.push(a5);
                res.push(a3);
                res.push(a3);
                res.push(a4);
            },
            Tile::REFLECTED => {
                let r0 = interpolate(p[0], p[1], 3, -1);
                let r3 = interpolate(p[2], p[1], 1, 0);
                let r4 = interpolate(p[2], p[3], 1, 0);
                let r7 = interpolate(p[0], p[3], 3, -1);
                res.push(r3);
                res.push(r7);
                res.push(r7);
                res.push(r0);
                res.push(r0);
                res.push(r4);
            },
        }
        res
    }
}

} // verus!
