//! Holds the crate's hex conventions against an established hex-grid
//! library: neighbour offsets, region enumeration order, junction
//! coordinates and equivalence, and the unit corner table.

use hex_terrain::FX_ONE;
use hex_terrain::hex::{GridVertex, Hex, hexagon_region};
use hex_terrain::layout::center_aligned_unit_corner;

#[test]
fn neighbor_offsets_match_reference_library() {
    let ours = Hex::new(3, -2);
    let theirs = hexx::Hex::new(3, -2);
    for k in 0..6u8 {
        let a = ours.neighbor(k);
        let b = theirs.neighbor(hexx::EdgeDirection::ALL_DIRECTIONS[k as usize]);
        assert_eq!((a.x, a.y), (b.x as i64, b.y as i64), "neighbour {k} differs");
    }
}

#[test]
fn region_enumeration_matches_reference_library() {
    for radius in 0..4u32 {
        let ours: Vec<Hex> = hexagon_region(Hex::new(2, 1), radius);
        let theirs: Vec<hexx::Hex> =
            hexx::shapes::hexagon(hexx::Hex::new(2, 1), radius).collect();
        assert_eq!(ours.len(), theirs.len(), "size differs at radius {radius}");
        for (a, b) in ours.iter().zip(theirs.iter()) {
            assert_eq!((a.x, a.y), (b.x as i64, b.y as i64));
        }
    }
}

#[test]
fn junction_coordinates_match_reference_library() {
    let origin = Hex::new(1, -1);
    for k in 0..6u8 {
        let ours = GridVertex { origin, direction: k }.coordinates();
        let theirs = hexx::GridVertex {
            origin: hexx::Hex::new(1, -1),
            direction: hexx::VertexDirection::ALL_DIRECTIONS[k as usize],
        }
        .coordinates();
        assert_eq!((ours.0.x, ours.0.y), (theirs[0].x as i64, theirs[0].y as i64));
        assert_eq!((ours.1.x, ours.1.y), (theirs[1].x as i64, theirs[1].y as i64));
        assert_eq!((ours.2.x, ours.2.y), (theirs[2].x as i64, theirs[2].y as i64));
    }
}

#[test]
fn junction_equivalence_matches_reference_library() {
    let cells = [Hex::new(0, 0), Hex::new(1, 0), Hex::new(1, -1), Hex::new(0, 1)];
    for &a in &cells {
        for da in 0..6u8 {
            for &b in &cells {
                for db in 0..6u8 {
                    let ours = GridVertex { origin: a, direction: da }.equivalent(
                        &GridVertex { origin: b, direction: db },
                    );
                    let theirs = hexx::GridVertex {
                        origin: hexx::Hex::new(a.x as i32, a.y as i32),
                        direction: hexx::VertexDirection::ALL_DIRECTIONS[da as usize],
                    }
                    .equivalent(&hexx::GridVertex {
                        origin: hexx::Hex::new(b.x as i32, b.y as i32),
                        direction: hexx::VertexDirection::ALL_DIRECTIONS[db as usize],
                    });
                    assert_eq!(ours, theirs, "equivalence differs at {a:?}/{da} vs {b:?}/{db}");
                }
            }
        }
    }
}

#[test]
fn unit_corners_match_reference_library() {
    let layout = hexx::HexLayout::default();
    let corners = layout.center_aligned_hex_corners();
    for k in 0..6u8 {
        let ours = center_aligned_unit_corner(k);
        let x = ours.x as f32 / FX_ONE as f32;
        let y = ours.y as f32 / FX_ONE as f32;
        assert!(
            (x - corners[k as usize].x).abs() < 1e-5 && (y - corners[k as usize].y).abs() < 1e-5,
            "corner {k} differs: ours ({x}, {y}), reference {:?}",
            corners[k as usize]
        );
    }
}
