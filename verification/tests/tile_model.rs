//! Tests of the tile shape model: fixed tables, polygon under rotation and
//! translation, and the IndexFault error paths.

use monotile::coord::Coord;
use monotile::tile::{build_tile, edge_index_to_vertex_tuple, EdgeLength, PlacedTile, Tile};

fn origin() -> Coord {
    Coord { a: 0, b: 0 }
}

fn unreflected_at_origin() -> PlacedTile {
    PlacedTile::new(Tile::UNREFLECTED, origin(), origin(), 0)
}

fn reflected_at_origin() -> PlacedTile {
    PlacedTile::new(Tile::REFLECTED, origin(), origin(), 0)
}

/// The local template at quarter scale: x rational quarters, y quarters of
/// sqrt(3).
const TEMPLATE_Q: [(i64, i64); 13] = [
    (2, 0),
    (2, 2),
    (-1, 3),
    (-2, 2),
    (-4, 2),
    (-4, 0),
    (-7, -1),
    (-6, -2),
    (-2, -2),
    (-1, -1),
    (2, -2),
    (5, -1),
    (4, 0),
];

#[test]
fn unreflected_edge_tables() {
    let t = unreflected_at_origin();
    let expected_angles = [90, 150, 240, 180, 270, 210, 300, 0, 60, 330, 30, 120, 180];
    let s = EdgeLength::SHORT;
    let l = EdgeLength::LONG;
    let d = EdgeLength::DOUBLE;
    let expected_lengths = [l, l, s, s, l, l, s, d, s, l, l, s, s];
    for e in 1..14 {
        assert_eq!(t.edge_angle(e).unwrap(), expected_angles[(e - 1) as usize]);
        assert_eq!(t.edge_length(e).unwrap(), expected_lengths[(e - 1) as usize]);
    }
}

#[test]
fn reflected_edge_tables() {
    let t = reflected_at_origin();
    let expected_angles = [180, 240, 330, 30, 300, 0, 60, 150, 90, 180, 120, 210, 270];
    let s = EdgeLength::SHORT;
    let l = EdgeLength::LONG;
    let d = EdgeLength::DOUBLE;
    let expected_lengths = [s, s, l, l, s, d, s, l, l, s, s, l, l];
    for e in 1..14 {
        assert_eq!(t.edge_angle(e).unwrap(), expected_angles[(e - 1) as usize]);
        assert_eq!(t.edge_length(e).unwrap(), expected_lengths[(e - 1) as usize]);
    }
}

#[test]
fn orientation_adds_to_edge_angles() {
    let t = PlacedTile::new(Tile::UNREFLECTED, origin(), origin(), 30);
    assert_eq!(t.edge_angle(1).unwrap(), 120);
    assert_eq!(t.edge_angle(10).unwrap(), 0); // 330 + 30 wraps
}

#[test]
fn edge_attrs_invariant_under_translation() {
    // Angles and length classes depend only on (variant, index, orientation).
    let a = PlacedTile::new(Tile::REFLECTED, origin(), origin(), 60);
    let b = PlacedTile::new(
        Tile::REFLECTED,
        Coord { a: 371, b: -55 },
        Coord { a: -1234, b: 8 },
        60,
    );
    for e in 1..14 {
        assert_eq!(a.edge_angle(e).unwrap(), b.edge_angle(e).unwrap());
        assert_eq!(a.edge_length(e).unwrap(), b.edge_length(e).unwrap());
    }
}

#[test]
fn polygon_is_template_unreflected() {
    // At orientation 0 and center (0, 0) the polygon is the raw template:
    // at the 1/16 coordinate scale, vertex (xq/4, yq*sqrt(3)/4) is
    // ((4*xq, 0), (0, 4*yq)).
    let t = unreflected_at_origin();
    let p = t.polygon();
    assert_eq!(p.len(), 13);
    for k in 0..13 {
        let (xq, yq) = TEMPLATE_Q[k];
        assert_eq!(p[k].0, Coord { a: 4 * xq, b: 0 });
        assert_eq!(p[k].1, Coord { a: 0, b: 4 * yq });
    }
}

#[test]
fn polygon_is_template_reflected() {
    // The Reflected template mirrors x and is emitted in reverse order,
    // starting from vertex 0.
    let t = reflected_at_origin();
    let p = t.polygon();
    assert_eq!(p.len(), 13);
    for k in 0..13 {
        let src = if k == 0 { 0 } else { 13 - k };
        let (xq, yq) = TEMPLATE_Q[src];
        assert_eq!(p[k].0, Coord { a: -4 * xq, b: 0 });
        assert_eq!(p[k].1, Coord { a: 0, b: 4 * yq });
    }
}

#[test]
fn polygon_translates_with_center() {
    let t = PlacedTile::new(Tile::UNREFLECTED, Coord { a: 32, b: 1 }, Coord { a: -16, b: 2 }, 0);
    let p = t.polygon();
    for k in 0..13 {
        let (xq, yq) = TEMPLATE_Q[k];
        assert_eq!(p[k].0, Coord { a: 32 + 4 * xq, b: 1 });
        assert_eq!(p[k].1, Coord { a: -16, b: 2 + 4 * yq });
    }
}

#[test]
fn polygon_rotation_quarter_circle_exact() {
    // At 90 degrees, (x, y) maps to (-y, x): the sqrt(3) parts swap axes.
    let t = PlacedTile::new(Tile::UNREFLECTED, origin(), origin(), 90);
    let p = t.polygon();
    for k in 0..13 {
        let (xq, yq) = TEMPLATE_Q[k];
        assert_eq!(p[k].0, Coord { a: 0, b: -4 * yq });
        assert_eq!(p[k].1, Coord { a: 4 * xq, b: 0 });
    }
}

#[test]
fn edge_center_is_midpoint_of_edge_points() {
    let tiles = [
        PlacedTile::new(Tile::UNREFLECTED, Coord { a: 17, b: -3 }, Coord { a: 5, b: 9 }, 150),
        PlacedTile::new(Tile::REFLECTED, Coord { a: -40, b: 12 }, Coord { a: 0, b: 0 }, 300),
    ];
    for t in tiles.iter() {
        for e in 1..14 {
            let c = t.edge_center(e).unwrap();
            let (p1, p2) = t.edge_points(e).unwrap();
            assert_eq!(2 * c.0.a, p1.0.a + p2.0.a);
            assert_eq!(2 * c.0.b, p1.0.b + p2.0.b);
            assert_eq!(2 * c.1.a, p1.1.a + p2.1.a);
            assert_eq!(2 * c.1.b, p1.1.b + p2.1.b);
        }
    }
}

#[test]
fn get_edges_agrees_with_single_queries() {
    let t = PlacedTile::new(Tile::REFLECTED, Coord { a: 8, b: 0 }, Coord { a: 0, b: 4 }, 210);
    let edges = t.get_edges();
    assert_eq!(edges.len(), 13);
    for e in 1..14 {
        let ed = &edges[(e - 1) as usize];
        assert_eq!(ed.center, t.edge_center(e).unwrap());
        assert_eq!(ed.angle, t.edge_angle(e).unwrap());
        assert_eq!(ed.length, t.edge_length(e).unwrap());
    }
}

#[test]
fn index_fault_outside_range() {
    let t = unreflected_at_origin();
    assert_eq!(t.edge_angle(0).unwrap_err().index, 0);
    assert_eq!(t.edge_angle(14).unwrap_err().index, 14);
    assert_eq!(t.edge_length(-3).unwrap_err().index, -3);
    assert_eq!(t.edge_center(99).unwrap_err().index, 99);
    assert_eq!(t.edge_points(14).unwrap_err().index, 14);
    assert!(edge_index_to_vertex_tuple(0).is_err());
    assert_eq!(edge_index_to_vertex_tuple(5).unwrap(), (4, 5));
    assert_eq!(edge_index_to_vertex_tuple(13).unwrap(), (12, 0));
}

#[test]
fn angle_normalization() {
    let t = PlacedTile::new(Tile::UNREFLECTED, origin(), origin(), -30);
    assert_eq!(t.angle, 330);
    let t = PlacedTile::new(Tile::UNREFLECTED, origin(), origin(), 720);
    assert_eq!(t.angle, 0);
    let t = PlacedTile::new(Tile::UNREFLECTED, origin(), origin(), -750);
    assert_eq!(t.angle, 330);
    let r = t.rotate(60);
    assert_eq!(r.angle, 30);
    let r = t.rotate(-330);
    assert_eq!(r.angle, 0);
}

#[test]
fn translate_moves_center_only() {
    let t = PlacedTile::new(Tile::REFLECTED, Coord { a: 3, b: 4 }, Coord { a: -5, b: 6 }, 120);
    let m = t.translate(Coord { a: 10, b: -1 }, Coord { a: 0, b: 2 });
    assert_eq!(m.variant, Tile::REFLECTED);
    assert_eq!(m.angle, 120);
    assert_eq!(m.cx, Coord { a: 13, b: 3 });
    assert_eq!(m.cy, Coord { a: -5, b: 8 });
}

#[test]
fn build_tile_constructs_requested_tile() {
    let t = build_tile(&Tile::REFLECTED, Coord { a: 16, b: 0 }, Coord { a: 0, b: 0 }, -90)
        .unwrap();
    assert_eq!(t.variant, Tile::REFLECTED);
    assert_eq!(t.cx, Coord { a: 16, b: 0 });
    assert_eq!(t.angle, 270);
}
