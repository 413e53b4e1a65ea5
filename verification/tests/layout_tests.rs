use hexpick::coord::HexCoordinate;
use hexpick::errors::SetupError;
use hexpick::layout::{HexLayout, Orientation, WorldPos};

fn flat_unit() -> HexLayout {
    HexLayout::new(Orientation::FlatTop, 1_000_000, 1_000_000).unwrap()
}

fn pointy_unit() -> HexLayout {
    HexLayout::new(Orientation::PointyTop, 1_000_000, 1_000_000).unwrap()
}

#[test]
fn flat_basis_entries() {
    let l = flat_unit();
    assert_eq!(l.f00, 1_500_000);
    assert_eq!(l.f01, 0);
    assert_eq!(l.f10, 866_025);
    assert_eq!(l.f11, 1_732_051);
    assert_eq!(l.det, 2_598_076_500_000);
}

#[test]
fn pointy_basis_entries() {
    let l = pointy_unit();
    assert_eq!(l.f00, 1_732_051);
    assert_eq!(l.f01, 866_025);
    assert_eq!(l.f10, 0);
    assert_eq!(l.f11, 1_500_000);
    assert_eq!(l.det, 2_598_076_500_000);
}

#[test]
fn layout_rejects_bad_sizes() {
    assert_eq!(
        HexLayout::new(Orientation::FlatTop, 0, 1_000_000).unwrap_err(),
        SetupError::Configuration
    );
    assert_eq!(
        HexLayout::new(Orientation::FlatTop, 1_000_000, -1_000_000).unwrap_err(),
        SetupError::Configuration
    );
    assert_eq!(
        HexLayout::new(Orientation::PointyTop, 2_000_000_000, 1_000_000).unwrap_err(),
        SetupError::Configuration
    );
    assert_eq!(
        HexLayout::new(Orientation::PointyTop, 1_000_000, 9_999).unwrap_err(),
        SetupError::Configuration
    );
}

#[test]
fn hex_to_world_exact_values() {
    let l = flat_unit();
    assert_eq!(l.hex_to_world(HexCoordinate::new(0, 0)), WorldPos { x: 0, y: 0 });
    assert_eq!(
        l.hex_to_world(HexCoordinate::new(1, 0)),
        WorldPos { x: 1_500_000, y: 866_025 }
    );
    assert_eq!(
        l.hex_to_world(HexCoordinate::new(0, 1)),
        WorldPos { x: 0, y: 1_732_051 }
    );
    assert_eq!(
        l.hex_to_world(HexCoordinate::new(-5, -4)),
        WorldPos { x: -7_500_000, y: -11_258_329 }
    );
    assert_eq!(
        l.hex_to_world(HexCoordinate::new(3, -2)),
        WorldPos { x: 4_500_000, y: -866_027 }
    );
    let p = pointy_unit();
    assert_eq!(
        p.hex_to_world(HexCoordinate::new(1, 0)),
        WorldPos { x: 1_732_051, y: 0 }
    );
    assert_eq!(
        p.hex_to_world(HexCoordinate::new(0, 1)),
        WorldPos { x: 866_025, y: 1_500_000 }
    );
}

#[test]
fn round_trip_at_grid_centers() {
    for layout in [flat_unit(), pointy_unit()] {
        for q in -5..=5i64 {
            for r in -4..=4i64 {
                let c = HexCoordinate::new(q, r);
                let back = layout.world_to_hex(layout.hex_to_world(c));
                assert_eq!(back, c);
            }
        }
    }
}

#[test]
fn round_trip_half_size_layout() {
    let l = HexLayout::new(Orientation::FlatTop, 500_000, 500_000).unwrap();
    for q in -8..=8i64 {
        for r in -8..=8i64 {
            let c = HexCoordinate::new(q, r);
            assert_eq!(l.world_to_hex(l.hex_to_world(c)), c);
        }
    }
}

#[test]
fn boundary_point_resolves_to_an_adjacent_cell() {
    let l = flat_unit();
    // Points straddling the shared edge between (0,0) and (1,0): the exact
    // edge midpoint lies between these two tick positions.
    for p in [WorldPos { x: 750_000, y: 433_012 }, WorldPos { x: 750_000, y: 433_013 }] {
        let c = l.world_to_hex(p);
        let a = HexCoordinate::new(0, 0);
        let b = HexCoordinate::new(1, 0);
        assert!(c == a || c == b);
        // the returned cell is always a valid axial triple
        let s = -c.q - c.r;
        assert_eq!(c.q + c.r + s, 0);
    }
}

#[test]
fn near_center_points_resolve_to_their_cell() {
    let l = flat_unit();
    assert_eq!(
        l.world_to_hex(WorldPos { x: 3_100_000, y: 50_000 }),
        HexCoordinate::new(2, -1)
    );
    assert_eq!(l.world_to_hex(WorldPos { x: 0, y: 0 }), HexCoordinate::new(0, 0));
    assert_eq!(
        l.world_to_hex(WorldPos { x: 20_000_000, y: 0 }),
        HexCoordinate::new(13, -6)
    );
}

#[test]
fn coordinate_length_and_distance() {
    assert_eq!(HexCoordinate::new(0, 0).length(), 0);
    assert_eq!(HexCoordinate::new(3, -2).length(), 3);
    assert_eq!(HexCoordinate::new(-5, -4).length(), 9);
    let a = HexCoordinate::new(-5, -4);
    let b = HexCoordinate::new(5, 4);
    assert_eq!(a.distance(&b), 18);
    assert_eq!(b.distance(&a), 18);
    assert_eq!(a.distance(&a), 0);
}

#[test]
fn coordinate_neighbors() {
    let c = HexCoordinate::new(2, -1);
    assert_eq!(c.neighbor(0), HexCoordinate::new(3, -1));
    assert_eq!(c.neighbor(1), HexCoordinate::new(3, -2));
    assert_eq!(c.neighbor(2), HexCoordinate::new(2, -2));
    assert_eq!(c.neighbor(3), HexCoordinate::new(1, -1));
    assert_eq!(c.neighbor(4), HexCoordinate::new(1, 0));
    assert_eq!(c.neighbor(5), HexCoordinate::new(2, 0));
    for d in 0..6 {
        assert_eq!(c.distance(&c.neighbor(d)), 1);
    }
}
