use cgol::components::CellState;
use cgol::components::ConwayCell;
use cgol::components::Coordinates;
use cgol::spatial::SpatialIndex;
use cgol::world::World;

fn classic(state: CellState) -> ConwayCell {
    ConwayCell { state, birth_rules: vec![3], survival_rules: vec![2, 3] }
}

fn world_with(coords: &[(i64, i64)]) -> World {
    let mut world = World::new();
    for (x, y) in coords {
        assert!(world
            .insert_cell(Coordinates { x: *x, y: *y }, classic(CellState::Dead))
            .is_ok());
    }
    world
}

#[test]
fn rebuild_tracks_every_world_coordinate_in_order() {
    let coords = [(0, 0), (5, -3), (-2, 2)];
    let world = world_with(&coords);
    let index = SpatialIndex::rebuild(&world);
    assert_eq!(index.positions.len(), 3);
    for (position, (x, y)) in index.positions.iter().zip(coords.iter()) {
        assert_eq!(*position, Coordinates { x: *x, y: *y });
    }
}

#[test]
fn within_radius_one_returns_the_tracked_moore_ring() {
    let world = world_with(&[
        (0, 0),
        (1, 0),
        (1, 1),
        (-1, -1),
        (2, 0),
        (0, -1),
        (5, 5),
    ]);
    let index = SpatialIndex::rebuild(&world);
    let near = index.within_radius(Coordinates { x: 0, y: 0 }, 1);
    // Index order, center excluded, (2,0) and (5,5) too far.
    assert_eq!(
        near,
        vec![
            Coordinates { x: 1, y: 0 },
            Coordinates { x: 1, y: 1 },
            Coordinates { x: -1, y: -1 },
            Coordinates { x: 0, y: -1 },
        ]
    );
}

#[test]
fn within_radius_excludes_the_center_itself() {
    let world = world_with(&[(0, 0)]);
    let index = SpatialIndex::rebuild(&world);
    let near = index.within_radius(Coordinates { x: 0, y: 0 }, 1);
    assert!(near.is_empty());
}

#[test]
fn within_radius_grows_with_the_radius() {
    let world = world_with(&[(0, 0), (2, 0), (0, -3), (4, 4)]);
    let index = SpatialIndex::rebuild(&world);
    let center = Coordinates { x: 0, y: 0 };
    assert_eq!(index.within_radius(center, 1).len(), 0);
    assert_eq!(index.within_radius(center, 2).len(), 1);
    assert_eq!(index.within_radius(center, 3).len(), 2);
    assert_eq!(index.within_radius(center, 4).len(), 3);
}

#[test]
fn within_radius_handles_far_apart_extremes() {
    // Distances near the i64 range must not overflow the query.
    let mut world = World::new();
    assert!(world
        .insert_cell(Coordinates { x: i64::MAX - 1, y: 0 }, classic(CellState::Dead))
        .is_ok());
    assert!(world
        .insert_cell(Coordinates { x: i64::MIN + 1, y: 0 }, classic(CellState::Dead))
        .is_ok());
    let index = SpatialIndex::rebuild(&world);
    let near = index.within_radius(Coordinates { x: i64::MAX - 1, y: 0 }, 1);
    assert!(near.is_empty());
    let all = index.within_radius(Coordinates { x: 0, y: 1 }, u64::MAX);
    assert_eq!(all.len(), 2);
}
