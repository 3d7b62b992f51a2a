//! Tests of the edge comparator, the Boundary Set maintainer and the patch
//! operations: add with snapping, undo, idempotent rebuild.

use monotile::coord::Coord;
use monotile::patch::{
    add_tile, coincident, pop_last_tile, rebuild_boundary, Patch, GLUE_TOL,
};
use monotile::snap::snap_to_edges;
use monotile::tile::{PlacedTile, Tile};

/// One square tile-side unit of squared distance, in the engine's 1/2560
/// tolerance units: the snap tolerance used by these scenarios.
const SNAP_TOL: i64 = 2560;

fn origin() -> Coord {
    Coord { a: 0, b: 0 }
}

fn first_tile() -> PlacedTile {
    PlacedTile::new(Tile::UNREFLECTED, origin(), origin(), 0)
}

/// A request next to boundary edge 1 of the first tile: its own edge 5
/// (antipodal angle, same length class) sits 1/16 unit away, so it snaps
/// onto the seam exactly.
fn near_request() -> PlacedTile {
    PlacedTile::new(Tile::UNREFLECTED, Coord { a: 25, b: 0 }, origin(), 0)
}

#[test]
fn one_tile_boundary_has_all_thirteen_edges() {
    let mut patch = Patch::new();
    assert_eq!(patch.edges.len(), 0);
    add_tile(&mut patch, first_tile(), SNAP_TOL);
    assert_eq!(patch.tiles.len(), 1);
    assert_eq!(patch.edges.len(), 13);
}

#[test]
fn second_tile_snaps_and_hides_one_seam() {
    let mut patch = Patch::new();
    add_tile(&mut patch, first_tile(), SNAP_TOL);
    add_tile(&mut patch, near_request(), SNAP_TOL);
    assert_eq!(patch.tiles.len(), 2);
    // The request at x = 25/16 lands exactly at x = 24/16 = 1.5 sides,
    // gluing its edge 5 onto edge 1 of the first tile.
    assert_eq!(patch.tiles[1].cx, Coord { a: 24, b: 0 });
    assert_eq!(patch.tiles[1].cy, origin());
    // 13 + 13 edges, minus the two that became one interior seam.
    assert_eq!(patch.edges.len(), 24);
}

#[test]
fn pop_restores_previous_boundary() {
    let mut patch = Patch::new();
    add_tile(&mut patch, first_tile(), SNAP_TOL);
    let before = patch.edges.clone();
    assert_eq!(before.len(), 13);
    add_tile(&mut patch, near_request(), SNAP_TOL);
    assert_eq!(patch.edges.len(), 24);
    pop_last_tile(&mut patch);
    assert_eq!(patch.tiles.len(), 1);
    assert_eq!(patch.edges, before);
}

#[test]
fn pop_on_empty_patch_is_a_no_op() {
    let mut patch = Patch::new();
    pop_last_tile(&mut patch);
    assert_eq!(patch.tiles.len(), 0);
    assert_eq!(patch.edges.len(), 0);
}

#[test]
fn rebuild_is_idempotent() {
    let mut patch = Patch::new();
    add_tile(&mut patch, first_tile(), SNAP_TOL);
    add_tile(&mut patch, near_request(), SNAP_TOL);
    let once = rebuild_boundary(&patch.tiles);
    let twice = rebuild_boundary(&patch.tiles);
    assert_eq!(once, twice);
    assert_eq!(once, patch.edges);
}

#[test]
fn far_request_gets_zero_offset_and_stays_detached() {
    let mut patch = Patch::new();
    add_tile(&mut patch, first_tile(), SNAP_TOL);
    // 1000 tile sides away from everything: far outside the tolerance.
    let far = PlacedTile::new(Tile::UNREFLECTED, Coord { a: 16000, b: 0 }, origin(), 0);
    let offset = snap_to_edges(&far, &patch.edges, SNAP_TOL);
    assert_eq!(offset.0, Coord { a: 0, b: 0 });
    assert_eq!(offset.1, Coord { a: 0, b: 0 });
    add_tile(&mut patch, far, SNAP_TOL);
    // Appended where it was requested, and no seam is shared.
    assert_eq!(patch.tiles[1].cx, Coord { a: 16000, b: 0 });
    assert_eq!(patch.edges.len(), 26);
}

#[test]
fn snap_offset_moves_matched_edge_onto_boundary_edge() {
    let mut patch = Patch::new();
    add_tile(&mut patch, first_tile(), SNAP_TOL);
    let offset = snap_to_edges(&near_request(), &patch.edges, SNAP_TOL);
    // Boundary edge 1 midpoint minus the candidate's edge 5 midpoint.
    assert_eq!(offset.0, Coord { a: -1, b: 0 });
    assert_eq!(offset.1, Coord { a: 0, b: 0 });
}

#[test]
fn rotated_configuration_glues_the_same_way() {
    // The two-tile scenario turned rigidly by 30 degrees: rotation by a
    // grid angle is an isometry of the exact coordinate ring, so the
    // request lands on the grid, snaps onto the rotated seam exactly, and
    // hides the same two edges.
    let mut patch = Patch::new();
    add_tile(
        &mut patch,
        PlacedTile::new(Tile::UNREFLECTED, origin(), origin(), 30),
        SNAP_TOL,
    );
    assert_eq!(patch.edges.len(), 13);
    let request = PlacedTile::new(
        Tile::UNREFLECTED,
        Coord { a: 1, b: 12 },
        Coord { a: 12, b: 0 },
        30,
    );
    add_tile(&mut patch, request, SNAP_TOL);
    assert_eq!(patch.tiles[1].cx, Coord { a: 0, b: 12 });
    assert_eq!(patch.tiles[1].cy, Coord { a: 12, b: 0 });
    assert_eq!(patch.edges.len(), 24);
}

#[test]
fn snap_picks_nearest_pair_not_first_in_scan_order() {
    // Requested at (2.3125, -0.433), the candidate has three qualifying
    // pairs: its edge 5 against boundary edge 1 (seen first in scan order,
    // squared distance 0.848), its edge 6 against boundary edge 11
    // (squared distance 1/256), and its edge 7 against boundary edge 12
    // (0.94). Nearest-match must take the middle one and glue edge 6 onto
    // boundary edge 11.
    let mut patch = Patch::new();
    add_tile(&mut patch, first_tile(), SNAP_TOL);
    let request = PlacedTile::new(
        Tile::UNREFLECTED,
        Coord { a: 37, b: 0 },
        Coord { a: 0, b: -4 },
        0,
    );
    add_tile(&mut patch, request, SNAP_TOL);
    assert_eq!(patch.tiles[1].cx, Coord { a: 36, b: 0 });
    assert_eq!(patch.tiles[1].cy, Coord { a: 0, b: -4 });
    assert_eq!(patch.edges.len(), 24);
    let e1 = patch.tiles[0].get_edges();
    let e2 = patch.tiles[1].get_edges();
    assert!(coincident(&e2[5], &e1[10], GLUE_TOL));
}

#[test]
fn double_edge_glues_against_turned_tile() {
    // The DOUBLE edge 8 (outward angle 0) of the first tile takes the
    // DOUBLE edge 8 (outward angle 180) of a half-turned copy: requested a
    // sixteenth off, the copy snaps so the two midpoints coincide exactly.
    let mut patch = Patch::new();
    add_tile(&mut patch, first_tile(), SNAP_TOL);
    let request = PlacedTile::new(
        Tile::UNREFLECTED,
        Coord { a: -31, b: 0 },
        Coord { a: 0, b: -16 },
        180,
    );
    add_tile(&mut patch, request, SNAP_TOL);
    assert_eq!(patch.tiles[1].cx, Coord { a: -32, b: 0 });
    assert_eq!(patch.tiles[1].cy, Coord { a: 0, b: -16 });
    assert_eq!(patch.edges.len(), 24);
    let e1 = patch.tiles[0].get_edges();
    let e2 = patch.tiles[1].get_edges();
    assert!(coincident(&e1[7], &e2[7], GLUE_TOL));
}

#[test]
fn coincidence_is_symmetric() {
    let t1 = first_tile();
    let t2 = PlacedTile::new(Tile::UNREFLECTED, Coord { a: 24, b: 0 }, origin(), 0);
    let e1 = t1.get_edges();
    let e2 = t2.get_edges();
    // The glued seam, in both orders.
    assert!(coincident(&e1[0], &e2[4], GLUE_TOL));
    assert!(coincident(&e2[4], &e1[0], GLUE_TOL));
    // Arbitrary non-coincident pairs, in both orders.
    for i in 0..13 {
        for j in 0..13 {
            assert_eq!(
                coincident(&e1[i], &e2[j], GLUE_TOL),
                coincident(&e2[j], &e1[i], GLUE_TOL)
            );
        }
    }
}

#[test]
fn coincidence_needs_antipodal_angles_and_equal_lengths() {
    let t1 = first_tile();
    let e1 = t1.get_edges();
    // An edge half a glue-distance from edge 10 but with the wrong angle:
    // edge 7 of a copy shifted so the midpoints are 1/4 unit apart.
    let t2 = PlacedTile::new(Tile::UNREFLECTED, Coord { a: 24, b: 0 }, origin(), 0);
    let e2 = t2.get_edges();
    // Midpoints of t1 edge 10 and t2 edge 7 are 1/4 apart (squared 1/16,
    // inside the glue tolerance of 1/10), yet angles 330 and 300 are not
    // antipodal, so the edges are not the same seam.
    assert!(!coincident(&e1[9], &e2[6], GLUE_TOL));
    // A tile whose SHORT edge 4 midpoint falls exactly on the DOUBLE edge 8
    // midpoint of the first tile, with antipodal angles: only the length
    // classes disagree, and that alone blocks coincidence.
    let t3 = PlacedTile::new(
        Tile::UNREFLECTED,
        Coord { a: -4, b: 0 },
        Coord { a: 0, b: -16 },
        0,
    );
    let e3 = t3.get_edges();
    assert_eq!(e1[7].center, e3[3].center);
    assert_eq!((e1[7].angle + 180) % 360, e3[3].angle);
    assert!(!coincident(&e1[7], &e3[3], GLUE_TOL));
}

#[test]
fn tolerance_comparison_is_strict() {
    // Two edges whose squared midpoint distance is exactly the tolerance
    // do not count as within it.
    let t1 = first_tile();
    // Shift by one full side: candidate edge 5 midpoint is exactly 1 unit
    // from boundary edge 1 midpoint.
    let t2 = PlacedTile::new(Tile::UNREFLECTED, Coord { a: 40, b: 0 }, origin(), 0);
    let e1 = t1.get_edges();
    let e2 = t2.get_edges();
    assert!(!coincident(&e1[0], &e2[4], SNAP_TOL));
    // One sixteenth closer, it is within.
    let t3 = PlacedTile::new(Tile::UNREFLECTED, Coord { a: 39, b: 0 }, origin(), 0);
    let e3 = t3.get_edges();
    assert!(coincident(&e1[0], &e3[4], SNAP_TOL));
}

#[test]
fn reflected_tile_glues_onto_unreflected_edge() {
    // A Reflected tile one side to the right of the first tile shares its
    // edge 13 with edge 1 of the Unreflected tile: requested slightly off,
    // it snaps onto that seam across the variants.
    let mut patch = Patch::new();
    add_tile(&mut patch, first_tile(), SNAP_TOL);
    let request = PlacedTile::new(Tile::REFLECTED, Coord { a: 17, b: 0 }, origin(), 0);
    add_tile(&mut patch, request, SNAP_TOL);
    assert_eq!(patch.tiles[1].cx, Coord { a: 16, b: 0 });
    assert_eq!(patch.tiles[1].cy, origin());
    assert_eq!(patch.edges.len(), 24);
    // The glued pair really is edge 1 against edge 13.
    let e1 = patch.tiles[0].get_edges();
    let e2 = patch.tiles[1].get_edges();
    assert!(coincident(&e1[0], &e2[12], GLUE_TOL));
}

#[test]
fn two_detached_tiles_then_undo_twice() {
    let mut patch = Patch::new();
    add_tile(&mut patch, first_tile(), SNAP_TOL);
    let far = PlacedTile::new(Tile::REFLECTED, Coord { a: -16000, b: 300 }, origin(), 90);
    add_tile(&mut patch, far, SNAP_TOL);
    assert_eq!(patch.edges.len(), 26);
    pop_last_tile(&mut patch);
    assert_eq!(patch.edges.len(), 13);
    pop_last_tile(&mut patch);
    assert_eq!(patch.tiles.len(), 0);
    assert_eq!(patch.edges.len(), 0);
}
