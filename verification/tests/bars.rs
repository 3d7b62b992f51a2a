//! Tests of the decorative line generator: exact Ammann bar points.

use monotile::ammann::BarPoint;
use monotile::coord::Coord;
use monotile::tile::{PlacedTile, Tile};

fn origin() -> Coord {
    Coord { a: 0, b: 0 }
}

#[test]
fn unreflected_bars_exact_values() {
    let t = PlacedTile::new(Tile::UNREFLECTED, origin(), origin(), 0);
    let bars = t.get_ammann_bars();
    // Four segments as consecutive point pairs.
    assert_eq!(bars.len(), 8);
    // First point: a quarter of the way from vertex 1 toward vertex 0.
    assert_eq!(
        bars[0],
        (
            BarPoint { r: 32, s3: 0, s5: 0, s15: 0 },
            BarPoint { r: 0, s3: 24, s5: 0, s15: 0 },
        )
    );
    // Fourth point: the golden fraction (1 + sqrt(5))/4 from vertex 1
    // toward vertex 0 brings a sqrt(15) part into the y coordinate.
    assert_eq!(
        bars[3],
        (
            BarPoint { r: 32, s3: 0, s5: 0, s15: 0 },
            BarPoint { r: 0, s3: 24, s5: 0, s15: -8 },
        )
    );
    // Second point: from vertex 1 toward vertex 2 by 1/(3 + sqrt(5)).
    assert_eq!(
        bars[1],
        (
            BarPoint { r: -4, s3: 0, s5: 12, s15: 0 },
            BarPoint { r: 0, s3: 44, s5: 0, s15: -4 },
        )
    );
    // Segments share their inner points: the list pairs up as
    // (p0 p1) (p2 p3) (p4 p5) (p6 p7) with p1 == p2 and p5 == p6.
    assert_eq!(bars[1], bars[2]);
    assert_eq!(bars[5], bars[6]);
}

#[test]
fn reflected_bars_exact_values() {
    let t = PlacedTile::new(Tile::REFLECTED, origin(), origin(), 0);
    let bars = t.get_ammann_bars();
    // Three segments as consecutive point pairs.
    assert_eq!(bars.len(), 6);
    // First point: a quarter of the way from polygon point 2 (mirrored
    // vertex 11) toward polygon point 1 (mirrored vertex 12).
    assert_eq!(
        bars[0],
        (
            BarPoint { r: -76, s3: 0, s5: 0, s15: 0 },
            BarPoint { r: 0, s3: -12, s5: 0, s15: 0 },
        )
    );
    assert_eq!(bars[1], bars[2]);
    assert_eq!(bars[3], bars[4]);
}

#[test]
fn bars_translate_with_the_tile() {
    let at_origin = PlacedTile::new(Tile::UNREFLECTED, origin(), origin(), 0);
    let moved = PlacedTile::new(
        Tile::UNREFLECTED,
        Coord { a: 16, b: 0 },
        Coord { a: 0, b: 32 },
        0,
    );
    let b0 = at_origin.get_ammann_bars();
    let b1 = moved.get_ammann_bars();
    assert_eq!(b0.len(), b1.len());
    for (p, q) in b0.iter().zip(b1.iter()) {
        // A center shift of (dx, dy) at the 1/16 scale moves every bar
        // point by (4*dx, 4*dy) at the 1/64 scale, in the rational and
        // sqrt(3) components only.
        assert_eq!(q.0.r, p.0.r + 4 * 16);
        assert_eq!(q.0.s3, p.0.s3);
        assert_eq!(q.0.s5, p.0.s5);
        assert_eq!(q.0.s15, p.0.s15);
        assert_eq!(q.1.r, p.1.r);
        assert_eq!(q.1.s3, p.1.s3 + 4 * 32);
        assert_eq!(q.1.s5, p.1.s5);
        assert_eq!(q.1.s15, p.1.s15);
    }
}
