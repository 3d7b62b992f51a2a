//! The edge comparator, the Boundary Set maintainer, and the tiling patch.
//!
//! Two edges from different tiles are the same seam when their midpoints
//! are within a tolerance, their outward angles are antipodal, and their
//! length classes agree. The Boundary Set of a patch is the set of all
//! (tile, edge) pairs with no coincident partner anywhere in the patch; it
//! is recomputed in full after every structural change, never patched
//! incrementally.

use vstd::prelude::*;

use crate::coord::{
    coord_in, dist2, dist2_u, dist2_v, lemma_dist2_sym, within_tol, within_tolerance,
    PLACE_COORD_MAX, TOL_MAX,
};
use crate::tile::{
    edge_center_xa, edge_center_xb, edge_center_ya, edge_center_yb, edge_matches, edge_wf,
    lemma_antipodal_symmetric, lemma_edge_center_offset, lemma_tile_edges_wf, spec_edge_angle,
    spec_edge_length, wf_angle, Edge, PlacedTile,
};

verus! {

/// Squared-distance tolerance under which two already placed edges count as
/// glued: a tenth of a square tile side, in the engine's 1/2560 units.
pub const GLUE_TOL: i64 = 256;

/// Most tiles a patch will hold. Each snapped placement can move a center
/// by a small bounded step, so this cap keeps every coordinate of every
/// reachable patch inside the exact comparators' range.
pub const PATCH_MAX_TILES: usize = 0x8_0000;

/// The edge comparator of the engine: `e1` and `e2` are the same seam at
/// tolerance `tol` when their midpoints' squared distance is below
/// `tol / 2560`, their outward angles are antipodal (differ by 180 degrees
/// modulo 360), and their length classes are equal.
pub open spec fn spec_coincident(e1: Edge, e2: Edge, tol: int) -> bool {
    &&& within_tol(
        dist2_u(e1.center.0, e1.center.1, e2.center.0, e2.center.1),
        dist2_v(e1.center.0, e1.center.1, e2.center.0, e2.center.1),
        tol,
    )
    &&& (e1.angle + 180) % 360 == e2.angle
    &&& e1.length == e2.length
}

/// Coincidence stated directly of edge `i` of tile `t1` and edge `j` of
/// tile `t2`, over the tile shape model's own spec functions.
pub open spec fn tt_du(t1: PlacedTile, i: int, t2: PlacedTile, j: int) -> int {
    let dxa = edge_center_xa(t1, i) - edge_center_xa(t2, j);
    let dxb = edge_center_xb(t1, i) - edge_center_xb(t2, j);
    let dya = edge_center_ya(t1, i) - edge_center_ya(t2, j);
    let dyb = edge_center_yb(t1, i) - edge_center_yb(t2, j);
    dxa * dxa + 3 * (dxb * dxb) + dya * dya + 3 * (dyb * dyb)
}

pub open spec fn tt_dv(t1: PlacedTile, i: int, t2: PlacedTile, j: int) -> int {
    let dxa = edge_center_xa(t1, i) - edge_center_xa(t2, j);
    let dxb = edge_center_xb(t1, i) - edge_center_xb(t2, j);
    let dya = edge_center_ya(t1, i) - edge_center_ya(t2, j);
    let dyb = edge_center_yb(t1, i) - edge_center_yb(t2, j);
    2 * (dxa * dxb + dya * dyb)
}

pub open spec fn tt_coincident(t1: PlacedTile, i: int, t2: PlacedTile, j: int, tol: int) -> bool {
    &&& within_tol(tt_du(t1, i, t2, j), tt_dv(t1, i, t2, j), tol)
    &&& (spec_edge_angle(t1, i) + 180) % 360 == spec_edge_angle(t2, j)
    &&& spec_edge_length(t1.variant, i) == spec_edge_length(t2.variant, j)
}

/// Coincidence of two edge descriptors is coincidence of the tile edges
/// they describe.
pub proof fn lemma_coincident_bridge(
    ed1: Edge,
    ed2: Edge,
    t1: PlacedTile,
    i: int,
    t2: PlacedTile,
    j: int,
    tol: int,
)
    requires
        edge_matches(ed1, t1, i),
        edge_matches(ed2, t2, j),
    ensures
        spec_coincident(ed1, ed2, tol) == tt_coincident(t1, i, t2, j, tol),
{
    assert(dist2_u(ed1.center.0, ed1.center.1, ed2.center.0, ed2.center.1) == tt_du(
        t1,
        i,
        t2,
        j,
    ));
    assert(dist2_v(ed1.center.0, ed1.center.1, ed2.center.0, ed2.center.1) == tt_dv(
        t1,
        i,
        t2,
        j,
    ));
}

/// Decides whether two edges are the same seam at tolerance `tol / 2560`.
pub fn coincident(e1: &Edge, e2: &Edge, tol: i64) -> (r: bool)
    requires
        edge_wf(*e1),
        edge_wf(*e2),
        0 <= tol <= TOL_MAX,
    ensures
        r == spec_coincident(*e1, *e2, tol as int),
{
    let (u, v) = dist2(&e1.center.0, &e1.center.1, &e2.center.0, &e2.center.1);
    if !within_tolerance(u, v, tol) {
        return false;
    }
    if (e1.angle + 180) % 360 != e2.angle {
        return false;
    }
    e1.length == e2.length
}

/// Coincidence is symmetric: swapping the two edges does not change the
/// verdict, at any tolerance.
pub proof fn lemma_coincident_symmetric(e1: Edge, e2: Edge, tol: int)
    requires
        0 <= e1.angle < 360,
        0 <= e2.angle < 360,
    ensures
        spec_coincident(e1, e2, tol) == spec_coincident(e2, e1, tol),
{
    lemma_dist2_sym(e1.center.0, e1.center.1, e2.center.0, e2.center.1);
    lemma_antipodal_symmetric(e1.angle as int, e2.angle as int);
}

/// Edge `i` of `tiles[ti]` has a coincident partner somewhere in the patch
/// (the tile itself included, as the full pairwise scan runs over every
/// tile), at glue tolerance.
pub open spec fn edge_matched_in(tiles: Seq<PlacedTile>, ti: int, i: int) -> bool {
    exists|tj: int, j: int|
        0 <= tj < tiles.len() && 1 <= j <= 13 && #[trigger] tt_coincident(
            tiles[ti],
            i,
            tiles[tj],
            j,
            GLUE_TOL as int,
        )
}

/// The exposed (tile index, edge index) pairs contributed by edges
/// 1..=`upto` of tile `ti`, in index order.
pub open spec fn tile_boundary_pairs(tiles: Seq<PlacedTile>, ti: int, upto: int) -> Seq<(int, int)>
    decreases upto,
{
    if upto <= 0 {
        Seq::empty()
    } else {
        tile_boundary_pairs(tiles, ti, upto - 1) + if !edge_matched_in(tiles, ti, upto) {
            seq![(ti, upto)]
        } else {
            Seq::empty()
        }
    }
}

/// The exposed pairs of the first `n` tiles, in scan order.
pub open spec fn boundary_pairs_upto(tiles: Seq<PlacedTile>, n: int) -> Seq<(int, int)>
    decreases n,
{
    if n <= 0 {
        Seq::empty()
    } else {
        boundary_pairs_upto(tiles, n - 1) + tile_boundary_pairs(tiles, n - 1, 13)
    }
}

/// The Boundary Set of the patch, as (tile index, edge index) pairs: every
/// edge of every tile with no coincident partner anywhere in the patch.
pub open spec fn boundary_pairs(tiles: Seq<PlacedTile>) -> Seq<(int, int)> {
    boundary_pairs_upto(tiles, tiles.len() as int)
}

/// `edges` describes exactly the pairs `pairs` of the patch `tiles`, in
/// order: same length, and the `k`-th descriptor is the `k`-th pair's edge.
pub open spec fn edges_match_pairs(
    edges: Seq<Edge>,
    tiles: Seq<PlacedTile>,
    pairs: Seq<(int, int)>,
) -> bool {
    &&& edges.len() == pairs.len()
    &&& forall|k: int|
        0 <= k < edges.len() ==> edge_matches(#[trigger] edges[k], tiles[pairs[k].0], pairs[k].1)
}

/// `edges` is exactly the Boundary Set of `tiles`.
pub open spec fn edges_are_boundary(edges: Seq<Edge>, tiles: Seq<PlacedTile>) -> bool {
    edges_match_pairs(edges, tiles, boundary_pairs(tiles))
}

/// Every pair listed by the boundary scan is a real (tile, edge) pair.
pub proof fn lemma_tile_boundary_pairs_range(tiles: Seq<PlacedTile>, ti: int, upto: int)
    requires
        0 <= upto <= 13,
    ensures
        forall|k: int|
            0 <= k < tile_boundary_pairs(tiles, ti, upto).len() ==> (#[trigger] tile_boundary_pairs(
                tiles,
                ti,
                upto,
            )[k]).0 == ti && 1 <= tile_boundary_pairs(tiles, ti, upto)[k].1 <= upto,
    decreases upto,
{
    if upto > 0 {
        lemma_tile_boundary_pairs_range(tiles, ti, upto - 1);
        let prev = tile_boundary_pairs(tiles, ti, upto - 1);
        let cur = tile_boundary_pairs(tiles, ti, upto);
        assert forall|k: int| 0 <= k < cur.len() implies (#[trigger] cur[k]).0 == ti && 1 <= cur[k].1
            <= upto by {
            if k < prev.len() {
                assert(cur[k] == prev[k]);
            } else {
                assert(cur[k] == (ti, upto));
            }
        }
    }
}

pub proof fn lemma_boundary_pairs_range(tiles: Seq<PlacedTile>, n: int)
    requires
        0 <= n <= tiles.len(),
    ensures
        forall|k: int|
            0 <= k < boundary_pairs_upto(tiles, n).len() ==> 0 <= (#[trigger] boundary_pairs_upto(
                tiles,
                n,
            )[k]).0 < n && 1 <= boundary_pairs_upto(tiles, n)[k].1 <= 13,
    decreases n,
{
    if n > 0 {
        lemma_boundary_pairs_range(tiles, n - 1);
        lemma_tile_boundary_pairs_range(tiles, n - 1, 13);
        let prev = boundary_pairs_upto(tiles, n - 1);
        let tail = tile_boundary_pairs(tiles, n - 1, 13);
        let cur = boundary_pairs_upto(tiles, n);
        assert forall|k: int| 0 <= k < cur.len() implies 0 <= (#[trigger] cur[k]).0 < n && 1
            <= cur[k].1 <= 13 by {
            if k < prev.len() {
                assert(cur[k] == prev[k]);
            } else {
                assert(cur[k] == tail[k - prev.len()]);
            }
        }
    }
}

/// The Boundary Set is a function of the tiles alone: two descriptor
/// sequences that both describe the boundary of the same tiles are equal.
/// In particular, rebuilding the Boundary Set twice with no structural
/// change in between yields identical results.
pub proof fn lemma_boundary_unique(e1: Seq<Edge>, e2: Seq<Edge>, tiles: Seq<PlacedTile>)
    requires
        edges_are_boundary(e1, tiles),
        edges_are_boundary(e2, tiles),
    ensures
        e1 == e2,
{
    assert forall|k: int| 0 <= k < e1.len() implies e1[k] == e2[k] by {
        let p = boundary_pairs(tiles)[k];
        assert(edge_matches(e1[k], tiles[p.0], p.1));
        assert(edge_matches(e2[k], tiles[p.0], p.1));
        assert(e1[k].center.0 == e2[k].center.0);
        assert(e1[k].center.1 == e2[k].center.1);
        assert(e1[k].angle == e2[k].angle);
        assert(e1[k].length == e2[k].length);
    }
    assert(e1 =~= e2);
}

/// Marks, in `skip`, every edge of `t1` that has a coincident partner among
/// the 13 edges of `t2` (at glue tolerance), and returns the updated marks.
pub fn match_edges(t1: &PlacedTile, t2: &PlacedTile, skip: Vec<bool>) -> (res: Vec<bool>)
    requires
        t1.wf(),
        t2.wf(),
        skip@.len() == 13,
    ensures
        res@.len() == 13,
        forall|i: int|
            0 <= i < 13 ==> #[trigger] res@[i] == (skip@[i] || exists|j: int|
                1 <= j <= 13 && #[trigger] tt_coincident(*t1, i + 1, *t2, j, GLUE_TOL as int)),
{
    let e1 = t1.get_edges();
    let e2 = t2.get_edges();
    proof {
        lemma_tile_edges_wf(*t1, e1@);
        lemma_tile_edges_wf(*t2, e2@);
    }
    let mut res = skip;
    let mut i: usize = 0;
    while i < 13
        invariant
            t1.wf(),
            t2.wf(),
            res@.len() == 13,
            0 <= i <= 13,
            e1@.len() == 13,
            e2@.len() == 13,
            forall|k: int| 0 <= k < 13 ==> edge_matches(#[trigger] e1@[k], *t1, k + 1),
            forall|k: int| 0 <= k < 13 ==> edge_matches(#[trigger] e2@[k], *t2, k + 1),
            forall|k: int| 0 <= k < 13 ==> edge_wf(#[trigger] e1@[k]),
            forall|k: int| 0 <= k < 13 ==> edge_wf(#[trigger] e2@[k]),
            skip@.len() == 13,
            forall|k: int| i <= k < 13 ==> #[trigger] res@[k] == skip@[k],
            forall|k: int|
                0 <= k < i ==> #[trigger] res@[k] == (skip@[k] || exists|j: int|
                    1 <= j <= 13 && #[trigger] tt_coincident(*t1, k + 1, *t2, j, GLUE_TOL as int)),
        decreases 13 - i,
    {
        if !res[i] {
            let mut j: usize = 0;
            let mut found = false;
            while j < 13
                invariant
                    0 <= j <= 13,
                    0 <= i < 13,
                    e1@.len() == 13,
                    e2@.len() == 13,
                    forall|k: int| 0 <= k < 13 ==> edge_matches(#[trigger] e1@[k], *t1, k + 1),
                    forall|k: int| 0 <= k < 13 ==> edge_matches(#[trigger] e2@[k], *t2, k + 1),
                    forall|k: int| 0 <= k < 13 ==> edge_wf(#[trigger] e1@[k]),
                    forall|k: int| 0 <= k < 13 ==> edge_wf(#[trigger] e2@[k]),
                    found == exists|j0: int|
                        1 <= j0 <= j && #[trigger] tt_coincident(*t1, i + 1, *t2, j0, GLUE_TOL as int),
                decreases 13 - j,
            {
                if coincident(&e1[i], &e2[j], GLUE_TOL) {
                    proof {
                        lemma_coincident_bridge(
                            e1@[i as int],
                            e2@[j as int],
                            *t1,
                            i + 1,
                            *t2,
                            j + 1,
                            GLUE_TOL as int,
                        );
                    }
                    found = true;
                } else {
                    proof {
                        lemma_coincident_bridge(
                            e1@[i as int],
                            e2@[j as int],
                            *t1,
                            i + 1,
                            *t2,
                            j + 1,
                            GLUE_TOL as int,
                        );
                    }
                }
                j = j + 1;
            }
            if found {
                res.set(i, true);
            }
        }
        i = i + 1;
    }
    res
}

/// Recomputes the Boundary Set of `tiles`: for every tile, each of its 13
/// edges is tested for a coincident partner against every edge of every
/// tile in the patch, and the edges with no partner anywhere form the
/// result, in scan order.
pub fn rebuild_boundary(tiles: &Vec<PlacedTile>) -> (res: Vec<Edge>)
    requires
        forall|k: int| 0 <= k < tiles@.len() ==> (#[trigger] tiles@[k]).wf(),
    ensures
        edges_are_boundary(res@, tiles@),
{
    let mut res: Vec<Edge> = Vec::new();
    let n = tiles.len();
    let mut a: usize = 0;
    while a < n
        invariant
            n == tiles@.len(),
            0 <= a <= n,
            forall|k: int| 0 <= k < tiles@.len() ==> (#[trigger] tiles@[k]).wf(),
            edges_match_pairs(res@, tiles@, boundary_pairs_upto(tiles@, a as int)),
        decreases n - a,
    {
        let mut marks: Vec<bool> = Vec::new();
        let mut z: usize = 0;
        while z < 13
            invariant
                marks@.len() == z,
                0 <= z <= 13,
                forall|k: int| 0 <= k < z ==> !(#[trigger] marks@[k]),
            decreases 13 - z,
        {
            marks.push(false);
            z = z + 1;
        }
        let mut b: usize = 0;
        while b < n
            invariant
                n == tiles@.len(),
                0 <= a < n,
                0 <= b <= n,
                forall|k: int| 0 <= k < tiles@.len() ==> (#[trigger] tiles@[k]).wf(),
                marks@.len() == 13,
                forall|i: int|
                    0 <= i < 13 ==> #[trigger] marks@[i] == exists|tj: int, j: int|
                        0 <= tj < b && 1 <= j <= 13 && #[trigger] tt_coincident(
                            tiles@[a as int],
                            i + 1,
                            tiles@[tj],
                            j,
                            GLUE_TOL as int,
                        ),
            decreases n - b,
        {
            let ghost old_marks = marks@;
            marks = match_edges(&tiles[a], &tiles[b], marks);
            proof {
                assert forall|i: int| 0 <= i < 13 implies #[trigger] marks@[i] == exists|
                    tj: int,
                    j: int,
                |
                    0 <= tj < b + 1 && 1 <= j <= 13 && #[trigger] tt_coincident(
                        tiles@[a as int],
                        i + 1,
                        tiles@[tj],
                        j,
                        GLUE_TOL as int,
                    ) by {
                    if marks@[i] {
                        if old_marks[i] {
                            let (tj, j) = choose|tj: int, j: int|
                                0 <= tj < b && 1 <= j <= 13 && #[trigger] tt_coincident(
                                    tiles@[a as int],
                                    i + 1,
                                    tiles@[tj],
                                    j,
                                    GLUE_TOL as int,
                                );
                            assert(0 <= tj < b + 1 && 1 <= j <= 13 && #[trigger] tt_coincident(
                                tiles@[a as int],
                                i + 1,
                                tiles@[tj],
                                j,
                                GLUE_TOL as int,
                            ));
                        } else {
                            let j = choose|j: int|
                                1 <= j <= 13 && #[trigger] tt_coincident(
                                    tiles@[a as int],
                                    i + 1,
                                    tiles@[b as int],
                                    j,
                                    GLUE_TOL as int,
                                );
                            assert(0 <= b < b + 1 && 1 <= j <= 13 && #[trigger] tt_coincident(
                                tiles@[a as int],
                                i + 1,
                                tiles@[b as int],
                                j,
                                GLUE_TOL as int,
                            ));
                        }
                    } else {
                        assert forall|tj: int, j: int|
                            0 <= tj < b + 1 && 1 <= j <= 13 implies !(#[trigger] tt_coincident(
                            tiles@[a as int],
                            i + 1,
                            tiles@[tj],
                            j,
                            GLUE_TOL as int,
                        )) by {
                            if tj < b {
                                assert(!old_marks[i]);
                            }
                        }
                    }
                }
            }
            b = b + 1;
        }
        let e = tiles[a].get_edges();
        let mut i: usize = 0;
        while i < 13
            invariant
                n == tiles@.len(),
                0 <= a < n,
                0 <= i <= 13,
                forall|k: int| 0 <= k < tiles@.len() ==> (#[trigger] tiles@[k]).wf(),
                e@.len() == 13,
                forall|k: int| 0 <= k < 13 ==> edge_matches(#[trigger] e@[k], tiles@[a as int], k + 1),
                marks@.len() == 13,
                forall|k: int|
                    0 <= k < 13 ==> #[trigger] marks@[k] == edge_matched_in(
                        tiles@,
                        a as int,
                        k + 1,
                    ),
                edges_match_pairs(
                    res@,
                    tiles@,
                    boundary_pairs_upto(tiles@, a as int) + tile_boundary_pairs(
                        tiles@,
                        a as int,
                        i as int,
                    ),
                ),
            decreases 13 - i,
        {
            let ghost prev_pairs = boundary_pairs_upto(tiles@, a as int) + tile_boundary_pairs(
                tiles@,
                a as int,
                i as int,
            );
            let ghost next_pairs = boundary_pairs_upto(tiles@, a as int) + tile_boundary_pairs(
                tiles@,
                a as int,
                i as int + 1,
            );
            if !marks[i] {
                res.push(e[i]);
                proof {
                    assert(next_pairs =~= prev_pairs + seq![(a as int, i as int + 1)]);
                }
            } else {
                proof {
                    assert(next_pairs =~= prev_pairs);
                }
            }
            i = i + 1;
        }
        proof {
            assert(boundary_pairs_upto(tiles@, a as int + 1) == boundary_pairs_upto(
                tiles@,
                a as int,
            ) + tile_boundary_pairs(tiles@, a as int, 13));
        }
        a = a + 1;
    }
    res
}

/// The tiling patch: the placement-ordered tiles (the order is the undo
/// history) together with the derived Boundary Set, which is rebuilt in
/// full after every structural change.
pub struct Patch {
    pub tiles: Vec<PlacedTile>,
    pub edges: Vec<Edge>,
}

/// A stored tile at position `k` of the placement history: well formed,
/// with its center inside the growth envelope (each snapped placement can
/// move a requested center outward by at most 128 units).
pub open spec fn tile_slot_wf(t: PlacedTile, k: int) -> bool {
    &&& wf_angle(t.angle as int)
    &&& coord_in(t.cx, PLACE_COORD_MAX + 128 * (k + 1))
    &&& coord_in(t.cy, PLACE_COORD_MAX + 128 * (k + 1))
}

impl Patch {
    /// Patch invariant: bounded history of well-formed tiles, and `edges`
    /// is exactly the Boundary Set of `tiles`.
    pub open spec fn wf(self) -> bool {
        &&& self.tiles@.len() <= PATCH_MAX_TILES
        &&& forall|k: int| 0 <= k < self.tiles@.len() ==> tile_slot_wf(#[trigger] self.tiles@[k], k)
        &&& edges_are_boundary(self.edges@, self.tiles@)
    }

    /// The empty patch: no tiles, no boundary.
    pub fn new() -> (p: Patch)
        ensures
            p.wf(),
            p.tiles@.len() == 0,
            p.edges@.len() == 0,
    {
        Patch { tiles: Vec::new(), edges: Vec::new() }
    }
}

/// A stored tile is well formed in the tile shape model's sense.
pub proof fn lemma_slot_wf_tile_wf(t: PlacedTile, k: int)
    requires
        tile_slot_wf(t, k),
        0 <= k < PATCH_MAX_TILES,
    ensures
        t.wf(),
{
}

/// Removes the most recently placed tile (a no-op on an empty patch) and
/// rebuilds the Boundary Set from the remaining tiles.
pub fn pop_last_tile(patch: &mut Patch)
    requires
        old(patch).wf(),
    ensures
        final(patch).wf(),
        old(patch).tiles@.len() == 0 ==> final(patch).tiles@ == old(patch).tiles@,
        old(patch).tiles@.len() > 0 ==> final(patch).tiles@ == old(patch).tiles@.drop_last(),
        edges_are_boundary(final(patch).edges@, final(patch).tiles@),
{
    patch.tiles.pop();
    proof {
        assert forall|k: int| 0 <= k < patch.tiles@.len() implies (#[trigger] patch.tiles@[k]).wf()
        by {
            lemma_slot_wf_tile_wf(patch.tiles@[k], k);
        }
    }
    patch.edges = rebuild_boundary(&patch.tiles);
}

/// Every descriptor in a patch boundary is well formed, with its midpoint
/// components inside the patch's growth envelope.
pub proof fn lemma_boundary_edges_bounded(edges: Seq<Edge>, tiles: Seq<PlacedTile>)
    requires
        edges_are_boundary(edges, tiles),
        tiles.len() <= PATCH_MAX_TILES,
        forall|k: int| 0 <= k < tiles.len() ==> tile_slot_wf(#[trigger] tiles[k], k),
    ensures
        forall|k: int| 0 <= k < edges.len() ==> edge_wf(#[trigger] edges[k]),
        forall|k: int|
            0 <= k < edges.len() ==> coord_in(
                (#[trigger] edges[k]).center.0,
                PLACE_COORD_MAX + 128 * tiles.len() + 64,
            ) && coord_in(edges[k].center.1, PLACE_COORD_MAX + 128 * tiles.len() + 64),
{
    lemma_boundary_pairs_range(tiles, tiles.len() as int);
    assert forall|k: int| 0 <= k < edges.len() implies edge_wf(#[trigger] edges[k]) && coord_in(
        edges[k].center.0,
        PLACE_COORD_MAX + 128 * tiles.len() + 64,
    ) && coord_in(edges[k].center.1, PLACE_COORD_MAX + 128 * tiles.len() + 64) by {
        let p = boundary_pairs(tiles)[k];
        let t = tiles[p.0];
        assert(tile_slot_wf(t, p.0));
        assert(edge_matches(edges[k], t, p.1));
        lemma_edge_center_offset(t, p.1);
        assert(0 <= spec_edge_angle(t, p.1) < 360) by {
            vstd::arithmetic::div_mod::lemma_mod_bound(
                crate::tile::edge_base_angle(t.variant, p.1) + t.angle,
                360,
            );
        }
        assert(128 * (p.0 + 1) <= 128 * tiles.len());
    }
}

/// Snaps `tile` onto the current boundary — the nearest boundary edge pair
/// with antipodal angles and equal length classes within `tol / 2560`
/// square units, the earliest in scan order among equally near ones —
/// appends the offset tile to the placement history, and rebuilds the
/// Boundary Set. When no pair qualifies the tile is appended exactly where
/// it was requested.
pub fn add_tile(patch: &mut Patch, tile: PlacedTile, tol: i64)
    requires
        old(patch).wf(),
        old(patch).tiles@.len() < PATCH_MAX_TILES,
        wf_angle(tile.angle as int),
        coord_in(tile.cx, PLACE_COORD_MAX as int),
        coord_in(tile.cy, PLACE_COORD_MAX as int),
        0 <= tol <= TOL_MAX,
    ensures
        final(patch).wf(),
        final(patch).tiles@.len() == old(patch).tiles@.len() + 1,
        final(patch).tiles@.drop_last() == old(patch).tiles@,
        ({
            let st = crate::snap::spec_snap(old(patch).edges@, tile, tol as int);
            let placed = final(patch).tiles@.last();
            &&& placed.variant == tile.variant
            &&& placed.angle == tile.angle
            &&& placed.cx.a == tile.cx.a + st.dxa
            &&& placed.cx.b == tile.cx.b + st.dxb
            &&& placed.cy.a == tile.cy.a + st.dya
            &&& placed.cy.b == tile.cy.b + st.dyb
        }),
        edges_are_boundary(final(patch).edges@, final(patch).tiles@),
{
    let ghost n0 = patch.tiles@.len() as int;
    proof {
        lemma_boundary_edges_bounded(patch.edges@, patch.tiles@);
    }
    let offset = crate::snap::snap_to_edges(&tile, &patch.edges, tol);
    proof {
        crate::snap::lemma_snap_offset_bound(
            patch.edges@,
            tile,
            tol as int,
            PLACE_COORD_MAX + 128 * patch.tiles@.len() + 64,
        );
    }
    let placed = tile.translate(offset.0, offset.1);
    proof {
        assert(tile_slot_wf(placed, n0));
    }
    patch.tiles.push(placed);
    proof {
        assert(patch.tiles@.drop_last() =~= old(patch).tiles@);
        assert forall|k: int| 0 <= k < patch.tiles@.len() implies (#[trigger] patch.tiles@[k]).wf()
        by {
            lemma_slot_wf_tile_wf(patch.tiles@[k], k);
        }
    }
    patch.edges = rebuild_boundary(&patch.tiles);
}

} // verus!
