//! Tests of the drag-preview snap detector: the boolean form of the snap
//! search, re-evaluated as a previewed tile moves.

use monotile::coord::Coord;
use monotile::patch::{add_tile, Patch};
use monotile::snap::snaps;
use monotile::tile::{PlacedTile, Tile};

const SNAP_TOL: i64 = 2560;

fn origin() -> Coord {
    Coord { a: 0, b: 0 }
}

fn one_tile_patch() -> Patch {
    let mut patch = Patch::new();
    add_tile(
        &mut patch,
        PlacedTile::new(Tile::UNREFLECTED, origin(), origin(), 0),
        SNAP_TOL,
    );
    patch
}

fn preview_at(a: i64) -> PlacedTile {
    PlacedTile::new(Tile::UNREFLECTED, Coord { a, b: 0 }, origin(), 0)
}

#[test]
fn preview_flips_on_when_dragged_within_tolerance() {
    let patch = one_tile_patch();
    // Far from every boundary edge: no highlight.
    assert!(!snaps(&patch.edges, &preview_at(16000), SNAP_TOL));
    // Dragged next to boundary edge 1, where the preview's edge 5 is a
    // compatible partner 1/16 unit away: highlight on.
    assert!(snaps(&patch.edges, &preview_at(25), SNAP_TOL));
    // Dragged back out, two tolerance-distances away from the seam: off.
    assert!(!snaps(&patch.edges, &preview_at(25 + 64), SNAP_TOL));
}

#[test]
fn preview_tolerance_is_strict() {
    let patch = one_tile_patch();
    // With a tolerance of 1/16 square side, the only compatible pair in
    // reach sits at exactly that squared distance: no snap.
    let tight: i64 = 160;
    assert!(!snaps(&patch.edges, &preview_at(28), tight));
    // One sixteenth closer, it snaps.
    assert!(snaps(&patch.edges, &preview_at(27), tight));
}

#[test]
fn preview_respects_compatibility_not_just_distance() {
    let patch = one_tile_patch();
    // A preview sitting exactly on the placed tile: every edge midpoint
    // coincides with a boundary edge midpoint, but no pair has antipodal
    // angles, so the preview does not snap.
    assert!(!snaps(&patch.edges, &preview_at(0), SNAP_TOL));
}

#[test]
fn preview_with_empty_boundary_never_snaps() {
    let patch = Patch::new();
    assert!(!snaps(&patch.edges, &preview_at(0), SNAP_TOL));
}
