//! The placement snapper and the drag-preview snap detector.
//!
//! A freshly requested tile is attached to the patch by searching every
//! (boundary edge, candidate edge) pair whose outward angles are antipodal
//! and whose length classes agree, keeping the nearest such pair within the
//! snap tolerance (first seen wins a tie), and returning the translation
//! that moves the candidate's matched edge midpoint exactly onto the
//! boundary edge midpoint. The drag detector runs the same search reduced
//! to a boolean: does any qualifying pair exist within tolerance?
//!
//! The search is specified as a fold (`snap_fold`) that mirrors the scan
//! order, and the lemmas below pin its meaning down: the chosen pair is a
//! real qualifying pair, no qualifying pair is strictly nearer, and when
//! nothing qualifies the state stays at its zero start.

use vstd::prelude::*;

use crate::coord::{
    coord_in, dist2, is_neg, l2_less, l2_lt, lemma_l2_lt_trans, lemma_lt_tol_trans, within_tol,
    within_tolerance, Coord, TOL_MAX, UV_MAX,
};
use crate::tile::{
    edge_center_xa, edge_center_xb, edge_center_ya, edge_center_yb, edge_matches, edge_wf,
    lemma_antipodal_symmetric, lemma_tile_edges_wf, spec_edge_angle, spec_edge_length, Edge,
    PlacedTile,
};

verus! {

/// The running state of the nearest-match search: whether a qualifying
/// pair has been seen, the best squared distance so far (`u`, `v`), and the
/// translation onto the best pair's boundary edge.
pub struct SnapState {
    pub found: bool,
    pub u: int,
    pub v: int,
    pub dxa: int,
    pub dxb: int,
    pub dya: int,
    pub dyb: int,
}

/// Components of the translation that would move candidate edge `i` of `t`
/// exactly onto the boundary edge `be`.
pub open spec fn snap_dxa(be: Edge, t: PlacedTile, i: int) -> int {
    be.center.0.a - edge_center_xa(t, i)
}

pub open spec fn snap_dxb(be: Edge, t: PlacedTile, i: int) -> int {
    be.center.0.b - edge_center_xb(t, i)
}

pub open spec fn snap_dya(be: Edge, t: PlacedTile, i: int) -> int {
    be.center.1.a - edge_center_ya(t, i)
}

pub open spec fn snap_dyb(be: Edge, t: PlacedTile, i: int) -> int {
    be.center.1.b - edge_center_yb(t, i)
}

/// Squared distance between the boundary edge `be` and candidate edge `i`
/// of `t`, rational component.
pub open spec fn snap_du(be: Edge, t: PlacedTile, i: int) -> int {
    let dxa = snap_dxa(be, t, i);
    let dxb = snap_dxb(be, t, i);
    let dya = snap_dya(be, t, i);
    let dyb = snap_dyb(be, t, i);
    dxa * dxa + 3 * (dxb * dxb) + dya * dya + 3 * (dyb * dyb)
}

/// The `sqrt(3)` component of the same squared distance.
pub open spec fn snap_dv(be: Edge, t: PlacedTile, i: int) -> int {
    let dxa = snap_dxa(be, t, i);
    let dxb = snap_dxb(be, t, i);
    let dya = snap_dya(be, t, i);
    let dyb = snap_dyb(be, t, i);
    2 * (dxa * dxb + dya * dyb)
}

/// The distance-free part of the snap test: candidate edge `i` of `t`
/// points opposite to `be` (antipodal angles) and has its length class.
pub open spec fn snap_pair_compatible(be: Edge, t: PlacedTile, i: int) -> bool {
    &&& (spec_edge_angle(t, i) + 180) % 360 == be.angle
    &&& spec_edge_length(t.variant, i) == be.length
}

/// A qualifying pair: compatible and within the snap tolerance.
pub open spec fn snap_qualifies(be: Edge, t: PlacedTile, i: int, tol: int) -> bool {
    snap_pair_compatible(be, t, i) && within_tol(snap_du(be, t, i), snap_dv(be, t, i), tol)
}

/// The search state before anything has been seen: no match, zero offset.
pub open spec fn snap_init() -> SnapState {
    SnapState { found: false, u: 0, v: 0, dxa: 0, dxb: 0, dya: 0, dyb: 0 }
}

/// Whether a squared distance `(u, v)` beats the current state: strictly
/// below the best so far, or below the tolerance when nothing has been
/// seen yet.
pub open spec fn snap_better(st: SnapState, u: int, v: int, tol: int) -> bool {
    if st.found {
        l2_lt(u, v, st.u, st.v)
    } else {
        within_tol(u, v, tol)
    }
}

/// One step of the scan: consider candidate edge `i` of `t` against the
/// boundary edge `be`.
pub open spec fn snap_step(st: SnapState, be: Edge, t: PlacedTile, i: int, tol: int) -> SnapState {
    let u = snap_du(be, t, i);
    let v = snap_dv(be, t, i);
    if snap_pair_compatible(be, t, i) && snap_better(st, u, v, tol) {
        SnapState {
            found: true,
            u,
            v,
            dxa: snap_dxa(be, t, i),
            dxb: snap_dxb(be, t, i),
            dya: snap_dya(be, t, i),
            dyb: snap_dyb(be, t, i),
        }
    } else {
        st
    }
}

/// Scans candidate edges 1..=`i` of `t` against one boundary edge.
pub open spec fn snap_edge_fold(st: SnapState, be: Edge, t: PlacedTile, tol: int, i: int) -> SnapState
    decreases i,
{
    if i <= 0 {
        st
    } else {
        snap_step(snap_edge_fold(st, be, t, tol, i - 1), be, t, i, tol)
    }
}

/// Scans the first `n` boundary edges, each against all 13 candidate edges.
pub open spec fn snap_fold(edges: Seq<Edge>, t: PlacedTile, tol: int, n: int) -> SnapState
    decreases n,
{
    if n <= 0 {
        snap_init()
    } else {
        snap_edge_fold(snap_fold(edges, t, tol, n - 1), edges[n - 1], t, tol, 13)
    }
}

/// The full nearest-match search of candidate `t` against the boundary.
pub open spec fn spec_snap(edges: Seq<Edge>, t: PlacedTile, tol: int) -> SnapState {
    snap_fold(edges, t, tol, edges.len() as int)
}

/// A squared distance the state has ruled out: not strictly below the best
/// so far, or not within tolerance while nothing has been seen.
pub open spec fn pair_blocked(u0: int, v0: int, st: SnapState, tol: int) -> bool {
    if st.found {
        !l2_lt(u0, v0, st.u, st.v)
    } else {
        !within_tol(u0, v0, tol)
    }
}

/// A found state describes a real qualifying pair, exactly.
pub open spec fn snap_found_witnessed(
    st: SnapState,
    edges: Seq<Edge>,
    t: PlacedTile,
    tol: int,
) -> bool {
    st.found ==> within_tol(st.u, st.v, tol) && exists|k: int, i: int|
        0 <= k < edges.len() && 1 <= i <= 13 && #[trigger] snap_qualifies(edges[k], t, i, tol)
            && st.u == snap_du(edges[k], t, i) && st.v == snap_dv(edges[k], t, i) && st.dxa
            == snap_dxa(edges[k], t, i) && st.dxb == snap_dxb(edges[k], t, i) && st.dya == snap_dya(
            edges[k],
            t,
            i,
        ) && st.dyb == snap_dyb(edges[k], t, i)
}

/// A step never unblocks a squared distance.
proof fn lemma_step_monotone(
    st: SnapState,
    be: Edge,
    t: PlacedTile,
    i: int,
    tol: int,
    u0: int,
    v0: int,
)
    requires
        pair_blocked(u0, v0, st, tol),
    ensures
        pair_blocked(u0, v0, snap_step(st, be, t, i, tol), tol),
{
    let u = snap_du(be, t, i);
    let v = snap_dv(be, t, i);
    if snap_pair_compatible(be, t, i) && snap_better(st, u, v, tol) {
        if l2_lt(u0, v0, u, v) {
            if st.found {
                lemma_l2_lt_trans(u0, v0, u, v, st.u, st.v);
            } else {
                lemma_lt_tol_trans(u0, v0, u, v, tol);
            }
        }
    }
}

/// After its own step, a compatible pair is blocked.
proof fn lemma_step_self(st: SnapState, be: Edge, t: PlacedTile, i: int, tol: int)
    ensures
        snap_pair_compatible(be, t, i) ==> pair_blocked(
            snap_du(be, t, i),
            snap_dv(be, t, i),
            snap_step(st, be, t, i, tol),
            tol,
        ),
{
    assert(!is_neg(0, 0));
}

proof fn lemma_edge_fold_monotone(
    st: SnapState,
    be: Edge,
    t: PlacedTile,
    tol: int,
    i: int,
    u0: int,
    v0: int,
)
    requires
        pair_blocked(u0, v0, st, tol),
    ensures
        pair_blocked(u0, v0, snap_edge_fold(st, be, t, tol, i), tol),
    decreases i,
{
    if i > 0 {
        lemma_edge_fold_monotone(st, be, t, tol, i - 1, u0, v0);
        lemma_step_monotone(snap_edge_fold(st, be, t, tol, i - 1), be, t, i, tol, u0, v0);
    }
}

proof fn lemma_edge_fold_pair(st: SnapState, be: Edge, t: PlacedTile, tol: int, i: int, j: int)
    requires
        1 <= j <= i,
        snap_pair_compatible(be, t, j),
    ensures
        pair_blocked(
            snap_du(be, t, j),
            snap_dv(be, t, j),
            snap_edge_fold(st, be, t, tol, i),
            tol,
        ),
    decreases i,
{
    if j == i {
        lemma_step_self(snap_edge_fold(st, be, t, tol, i - 1), be, t, i, tol);
    } else {
        lemma_edge_fold_pair(st, be, t, tol, i - 1, j);
        lemma_step_monotone(
            snap_edge_fold(st, be, t, tol, i - 1),
            be,
            t,
            i,
            tol,
            snap_du(be, t, j),
            snap_dv(be, t, j),
        );
    }
}

proof fn lemma_fold_pair(edges: Seq<Edge>, t: PlacedTile, tol: int, n: int, k: int, j: int)
    requires
        0 <= k < n <= edges.len(),
        1 <= j <= 13,
        snap_pair_compatible(edges[k], t, j),
    ensures
        pair_blocked(
            snap_du(edges[k], t, j),
            snap_dv(edges[k], t, j),
            snap_fold(edges, t, tol, n),
            tol,
        ),
    decreases n,
{
    if k == n - 1 {
        lemma_edge_fold_pair(snap_fold(edges, t, tol, n - 1), edges[n - 1], t, tol, 13, j);
    } else {
        lemma_fold_pair(edges, t, tol, n - 1, k, j);
        lemma_edge_fold_monotone(
            snap_fold(edges, t, tol, n - 1),
            edges[n - 1],
            t,
            tol,
            13,
            snap_du(edges[k], t, j),
            snap_dv(edges[k], t, j),
        );
    }
}

/// Nearest-match: after the full search, every compatible pair is blocked —
/// none lies strictly nearer than the chosen one, and when no pair was
/// chosen none lies within the tolerance at all.
pub proof fn lemma_snap_blocks_all(edges: Seq<Edge>, t: PlacedTile, tol: int)
    ensures
        forall|k: int, j: int|
            0 <= k < edges.len() && 1 <= j <= 13 && #[trigger] snap_pair_compatible(edges[k], t, j)
                ==> pair_blocked(
                snap_du(edges[k], t, j),
                snap_dv(edges[k], t, j),
                spec_snap(edges, t, tol),
                tol,
            ),
{
    assert forall|k: int, j: int|
        0 <= k < edges.len() && 1 <= j <= 13 && #[trigger] snap_pair_compatible(
            edges[k],
            t,
            j,
        ) implies pair_blocked(
        snap_du(edges[k], t, j),
        snap_dv(edges[k], t, j),
        spec_snap(edges, t, tol),
        tol,
    ) by {
        lemma_fold_pair(edges, t, tol, edges.len() as int, k, j);
    }
}

proof fn lemma_step_witness(
    st: SnapState,
    be: Edge,
    t: PlacedTile,
    i: int,
    tol: int,
    edges: Seq<Edge>,
    k0: int,
)
    requires
        snap_found_witnessed(st, edges, t, tol),
        0 <= k0 < edges.len(),
        edges[k0] == be,
        1 <= i <= 13,
    ensures
        snap_found_witnessed(snap_step(st, be, t, i, tol), edges, t, tol),
{
    let u = snap_du(be, t, i);
    let v = snap_dv(be, t, i);
    if snap_pair_compatible(be, t, i) && snap_better(st, u, v, tol) {
        if st.found {
            lemma_lt_tol_trans(u, v, st.u, st.v, tol);
        }
        assert(snap_qualifies(edges[k0], t, i, tol));
    }
}

proof fn lemma_edge_fold_witness(
    st: SnapState,
    be: Edge,
    t: PlacedTile,
    tol: int,
    i: int,
    edges: Seq<Edge>,
    k0: int,
)
    requires
        snap_found_witnessed(st, edges, t, tol),
        0 <= k0 < edges.len(),
        edges[k0] == be,
        0 <= i <= 13,
    ensures
        snap_found_witnessed(snap_edge_fold(st, be, t, tol, i), edges, t, tol),
    decreases i,
{
    if i > 0 {
        lemma_edge_fold_witness(st, be, t, tol, i - 1, edges, k0);
        lemma_step_witness(snap_edge_fold(st, be, t, tol, i - 1), be, t, i, tol, edges, k0);
    }
}

proof fn lemma_fold_witness(edges: Seq<Edge>, t: PlacedTile, tol: int, n: int)
    requires
        0 <= n <= edges.len(),
    ensures
        snap_found_witnessed(snap_fold(edges, t, tol, n), edges, t, tol),
    decreases n,
{
    if n > 0 {
        lemma_fold_witness(edges, t, tol, n - 1);
        lemma_edge_fold_witness(
            snap_fold(edges, t, tol, n - 1),
            edges[n - 1],
            t,
            tol,
            13,
            edges,
            n - 1,
        );
    }
}

/// When the search reports a match, the reported distance and translation
/// are those of a real qualifying (boundary edge, candidate edge) pair.
pub proof fn lemma_snap_witness(edges: Seq<Edge>, t: PlacedTile, tol: int)
    ensures
        snap_found_witnessed(spec_snap(edges, t, tol), edges, t, tol),
{
    lemma_fold_witness(edges, t, tol, edges.len() as int);
}

proof fn lemma_edge_fold_unfound(st: SnapState, be: Edge, t: PlacedTile, tol: int, i: int)
    ensures
        !snap_edge_fold(st, be, t, tol, i).found ==> snap_edge_fold(st, be, t, tol, i) == st,
    decreases i,
{
    if i > 0 {
        lemma_edge_fold_unfound(st, be, t, tol, i - 1);
    }
}

proof fn lemma_fold_unfound(edges: Seq<Edge>, t: PlacedTile, tol: int, n: int)
    ensures
        !snap_fold(edges, t, tol, n).found ==> snap_fold(edges, t, tol, n) == snap_init(),
    decreases n,
{
    if n > 0 {
        lemma_fold_unfound(edges, t, tol, n - 1);
        lemma_edge_fold_unfound(snap_fold(edges, t, tol, n - 1), edges[n - 1], t, tol, 13);
    }
}

/// When the search reports no match, the state is still the zero start: in
/// particular the returned offset is (0, 0).
pub proof fn lemma_snap_unfound(edges: Seq<Edge>, t: PlacedTile, tol: int)
    ensures
        !spec_snap(edges, t, tol).found ==> spec_snap(edges, t, tol) == snap_init(),
{
    lemma_fold_unfound(edges, t, tol, edges.len() as int);
}

/// The placement snapper and the drag detector agree: the search finds a
/// pair exactly when a qualifying pair exists.
pub proof fn lemma_snap_found_iff(edges: Seq<Edge>, t: PlacedTile, tol: int)
    ensures
        spec_snap(edges, t, tol).found == exists|k: int, j: int|
            0 <= k < edges.len() && 1 <= j <= 13 && #[trigger] snap_qualifies(edges[k], t, j, tol),
{
    let st = spec_snap(edges, t, tol);
    lemma_snap_witness(edges, t, tol);
    lemma_snap_blocks_all(edges, t, tol);
    if exists|k: int, j: int|
        0 <= k < edges.len() && 1 <= j <= 13 && #[trigger] snap_qualifies(edges[k], t, j, tol) {
        let (k, j) = choose|k: int, j: int|
            0 <= k < edges.len() && 1 <= j <= 13 && #[trigger] snap_qualifies(edges[k], t, j, tol);
        assert(pair_blocked(snap_du(edges[k], t, j), snap_dv(edges[k], t, j), st, tol));
        assert(st.found);
    }
}

/// The snapped center stays near the boundary: starting from a center
/// within `eb + 64`, adding the search's translation lands within 64 units
/// of some boundary edge midpoint, so again within `eb + 64`, component by
/// component.
pub proof fn lemma_snap_offset_bound(edges: Seq<Edge>, t: PlacedTile, tol: int, eb: int)
    requires
        crate::tile::wf_angle(t.angle as int),
        coord_in(t.cx, eb + 64),
        coord_in(t.cy, eb + 64),
        forall|k: int|
            0 <= k < edges.len() ==> coord_in((#[trigger] edges[k]).center.0, eb) && coord_in(
                edges[k].center.1,
                eb,
            ),
        0 <= eb,
    ensures
        ({
            let st = spec_snap(edges, t, tol);
            &&& -(eb + 64) <= t.cx.a + st.dxa <= eb + 64
            &&& -(eb + 64) <= t.cx.b + st.dxb <= eb + 64
            &&& -(eb + 64) <= t.cy.a + st.dya <= eb + 64
            &&& -(eb + 64) <= t.cy.b + st.dyb <= eb + 64
        }),
{
    let st = spec_snap(edges, t, tol);
    lemma_snap_witness(edges, t, tol);
    lemma_snap_unfound(edges, t, tol);
    if st.found {
        let (k, i) = choose|k: int, i: int|
            0 <= k < edges.len() && 1 <= i <= 13 && #[trigger] snap_qualifies(edges[k], t, i, tol)
                && st.u == snap_du(edges[k], t, i) && st.v == snap_dv(edges[k], t, i) && st.dxa
                == snap_dxa(edges[k], t, i) && st.dxb == snap_dxb(edges[k], t, i) && st.dya
                == snap_dya(edges[k], t, i) && st.dyb == snap_dyb(edges[k], t, i);
        crate::tile::lemma_edge_center_offset(t, i);
        assert(coord_in(edges[k].center.0, eb));
        assert(t.cx.a + st.dxa == edges[k].center.0.a - (edge_center_xa(t, i) - t.cx.a));
        assert(t.cx.b + st.dxb == edges[k].center.0.b - (edge_center_xb(t, i) - t.cx.b));
        assert(t.cy.a + st.dya == edges[k].center.1.a - (edge_center_ya(t, i) - t.cy.a));
        assert(t.cy.b + st.dyb == edges[k].center.1.b - (edge_center_yb(t, i) - t.cy.b));
    }
}

/// With no qualifying pair at all, the search is left in its zero start
/// state: the offset handed back is (0, 0).
pub proof fn lemma_snap_no_match(edges: Seq<Edge>, t: PlacedTile, tol: int)
    requires
        forall|k: int, j: int|
            0 <= k < edges.len() && 1 <= j <= 13 ==> !(#[trigger] snap_qualifies(
                edges[k],
                t,
                j,
                tol,
            )),
    ensures
        spec_snap(edges, t, tol) == snap_init(),
{
    lemma_snap_found_iff(edges, t, tol);
    lemma_snap_unfound(edges, t, tol);
}

/// Searches every (boundary edge, candidate edge) pair whose angles are
/// antipodal and whose length classes agree, keeping the nearest pair whose
/// squared distance is below `tol / 2560` (the first seen among equals),
/// and returns the translation that would move the candidate tile so its
/// matched edge midpoint coincides exactly with the boundary edge midpoint
/// — or (0, 0) when no pair qualifies.
pub fn snap_to_edges(tile: &PlacedTile, edges: &Vec<Edge>, tol: i64) -> (r: (Coord, Coord))
    requires
        tile.wf(),
        forall|k: int| 0 <= k < edges@.len() ==> edge_wf(#[trigger] edges@[k]),
        0 <= tol <= TOL_MAX,
    ensures
        ({
            let st = spec_snap(edges@, *tile, tol as int);
            r.0.a == st.dxa && r.0.b == st.dxb && r.1.a == st.dya && r.1.b == st.dyb
        }),
{
    let cand = tile.get_edges();
    proof {
        lemma_tile_edges_wf(*tile, cand@);
    }
    let mut rxa: i64 = 0;
    let mut rxb: i64 = 0;
    let mut rya: i64 = 0;
    let mut ryb: i64 = 0;
    let mut bu: i64 = 0;
    let mut bv: i64 = 0;
    let mut found: bool = false;
    let n = edges.len();
    let mut k: usize = 0;
    while k < n
        invariant
            tile.wf(),
            n == edges@.len(),
            0 <= k <= n,
            0 <= tol <= TOL_MAX,
            forall|x: int| 0 <= x < edges@.len() ==> edge_wf(#[trigger] edges@[x]),
            cand@.len() == 13,
            forall|x: int| 0 <= x < 13 ==> edge_matches(#[trigger] cand@[x], *tile, x + 1),
            forall|x: int| 0 <= x < 13 ==> edge_wf(#[trigger] cand@[x]),
            -UV_MAX <= bu <= UV_MAX,
            -UV_MAX <= bv <= UV_MAX,
            ({
                let st = snap_fold(edges@, *tile, tol as int, k as int);
                found == st.found && (found ==> bu == st.u && bv == st.v) && rxa == st.dxa && rxb
                    == st.dxb && rya == st.dya && ryb == st.dyb
            }),
        decreases n - k,
    {
        let be = edges[k];
        let mut i: usize = 0;
        while i < 13
            invariant
                tile.wf(),
                n == edges@.len(),
                0 <= k < n,
                0 <= i <= 13,
                0 <= tol <= TOL_MAX,
                be == edges@[k as int],
                edge_wf(be),
                cand@.len() == 13,
                forall|x: int| 0 <= x < 13 ==> edge_matches(#[trigger] cand@[x], *tile, x + 1),
                forall|x: int| 0 <= x < 13 ==> edge_wf(#[trigger] cand@[x]),
                -UV_MAX <= bu <= UV_MAX,
                -UV_MAX <= bv <= UV_MAX,
                ({
                    let st = snap_edge_fold(
                        snap_fold(edges@, *tile, tol as int, k as int),
                        edges@[k as int],
                        *tile,
                        tol as int,
                        i as int,
                    );
                    found == st.found && (found ==> bu == st.u && bv == st.v) && rxa == st.dxa
                        && rxb == st.dxb && rya == st.dya && ryb == st.dyb
                }),
            decreases 13 - i,
        {
            let ce = cand[i];
            let (u, v) = dist2(&be.center.0, &be.center.1, &ce.center.0, &ce.center.1);
            proof {
                assert(u as int == snap_du(edges@[k as int], *tile, i as int + 1));
                assert(v as int == snap_dv(edges@[k as int], *tile, i as int + 1));
            }
            let better = if found {
                l2_less(u, v, bu, bv)
            } else {
                within_tolerance(u, v, tol)
            };
            if better {
                if (ce.angle + 180) % 360 == be.angle {
                    if ce.length == be.length {
                        rxa = be.center.0.a - ce.center.0.a;
                        rxb = be.center.0.b - ce.center.0.b;
                        rya = be.center.1.a - ce.center.1.a;
                        ryb = be.center.1.b - ce.center.1.b;
                        bu = u;
                        bv = v;
                        found = true;
                    }
                }
            }
            i = i + 1;
        }
        k = k + 1;
    }
    (Coord { a: rxa, b: rxb }, Coord { a: rya, b: ryb })
}

/// The drag-preview snap detector: the same search as [`snap_to_edges`],
/// reduced to "does any qualifying pair exist within the tolerance".
pub fn snaps(edges: &Vec<Edge>, tile: &PlacedTile, tol: i64) -> (r: bool)
    requires
        tile.wf(),
        forall|k: int| 0 <= k < edges@.len() ==> edge_wf(#[trigger] edges@[k]),
        0 <= tol <= TOL_MAX,
    ensures
        r == exists|k: int, j: int|
            0 <= k < edges@.len() && 1 <= j <= 13 && #[trigger] snap_qualifies(
                edges@[k],
                *tile,
                j,
                tol as int,
            ),
{
    let de = tile.get_edges();
    proof {
        lemma_tile_edges_wf(*tile, de@);
    }
    let n = edges.len();
    let mut k: usize = 0;
    while k < n
        invariant
            tile.wf(),
            n == edges@.len(),
            0 <= k <= n,
            0 <= tol <= TOL_MAX,
            forall|x: int| 0 <= x < edges@.len() ==> edge_wf(#[trigger] edges@[x]),
            de@.len() == 13,
            forall|x: int| 0 <= x < 13 ==> edge_matches(#[trigger] de@[x], *tile, x + 1),
            forall|x: int| 0 <= x < 13 ==> edge_wf(#[trigger] de@[x]),
            forall|k0: int, j: int|
                0 <= k0 < k && 1 <= j <= 13 ==> !(#[trigger] snap_qualifies(
                    edges@[k0],
                    *tile,
                    j,
                    tol as int,
                )),
        decreases n - k,
    {
        let be = edges[k];
        let mut i: usize = 0;
        while i < 13
            invariant
                tile.wf(),
                n == edges@.len(),
                0 <= k < n,
                0 <= i <= 13,
                0 <= tol <= TOL_MAX,
                be == edges@[k as int],
                edge_wf(be),
                de@.len() == 13,
                forall|x: int| 0 <= x < 13 ==> edge_matches(#[trigger] de@[x], *tile, x + 1),
                forall|x: int| 0 <= x < 13 ==> edge_wf(#[trigger] de@[x]),
                forall|j: int|
                    1 <= j <= i ==> !(#[trigger] snap_qualifies(
                        edges@[k as int],
                        *tile,
                        j,
                        tol as int,
                    )),
            decreases 13 - i,
        {
            let ce = de[i];
            proof {
                lemma_antipodal_symmetric(be.angle as int, ce.angle as int);
            }
            if (be.angle + 180) % 360 == ce.angle {
                if be.length == ce.length {
                    let (u, v) = dist2(&be.center.0, &be.center.1, &ce.center.0, &ce.center.1);
                    proof {
                        assert(u as int == snap_du(edges@[k as int], *tile, i as int + 1));
                        assert(v as int == snap_dv(edges@[k as int], *tile, i as int + 1));
                    }
                    if within_tolerance(u, v, tol) {
                        proof {
                            assert(snap_qualifies(edges@[k as int], *tile, i as int + 1, tol as int));
                        }
                        return true;
                    }
                }
            }
            i = i + 1;
        }
        k = k + 1;
    }
    false
}

} // verus!
