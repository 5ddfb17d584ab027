use cgol::components::CellState;
use cgol::components::ConwayCell;
use cgol::components::Coordinates;
use cgol::world::LifeError;
use cgol::world::Snapshot;
use cgol::world::World;

fn classic(state: CellState) -> ConwayCell {
    ConwayCell { state, birth_rules: vec![3], survival_rules: vec![2, 3] }
}

#[test]
fn insert_then_read_back() {
    let mut world = World::new();
    assert_eq!(world.len(), 0);
    let c = Coordinates { x: 3, y: -7 };
    assert!(world.insert_cell(c, classic(CellState::Alive)).is_ok());
    assert_eq!(world.len(), 1);
    assert_eq!(world.get_state(c), Some(CellState::Alive));
}

#[test]
fn duplicate_coordinates_are_rejected() {
    let mut world = World::new();
    let c = Coordinates { x: 0, y: 0 };
    assert!(world.insert_cell(c, classic(CellState::Alive)).is_ok());
    let second = world.insert_cell(c, classic(CellState::Dead));
    assert_eq!(second, Err(LifeError::DuplicateCoordinates));
    // Rejected, not merged or overwritten: the first cell is untouched.
    assert_eq!(world.len(), 1);
    assert_eq!(world.get_state(c), Some(CellState::Alive));
}

#[test]
fn absent_coordinate_reads_as_none() {
    let mut world = World::new();
    assert!(world
        .insert_cell(Coordinates { x: 1, y: 1 }, classic(CellState::Alive))
        .is_ok());
    assert_eq!(world.get_state(Coordinates { x: 2, y: 2 }), None);
    assert!(!world.contains_coordinates(Coordinates { x: 2, y: 2 }));
    assert!(world.contains_coordinates(Coordinates { x: 1, y: 1 }));
}

#[test]
fn snapshot_freezes_states_and_misses_are_none() {
    let mut world = World::new();
    let a = Coordinates { x: 0, y: 0 };
    let b = Coordinates { x: 1, y: 0 };
    assert!(world.insert_cell(a, classic(CellState::Alive)).is_ok());
    assert!(world.insert_cell(b, classic(CellState::Dead)).is_ok());
    let snapshot = Snapshot::build(&world);
    assert_eq!(snapshot.lookup(a), Some(CellState::Alive));
    assert_eq!(snapshot.lookup(b), Some(CellState::Dead));
    assert_eq!(snapshot.lookup(Coordinates { x: 5, y: 5 }), None);
}

#[test]
fn gather_states_skips_absent_coordinates() {
    let mut world = World::new();
    let a = Coordinates { x: 0, y: 0 };
    let b = Coordinates { x: 1, y: 0 };
    assert!(world.insert_cell(a, classic(CellState::Alive)).is_ok());
    assert!(world.insert_cell(b, classic(CellState::Dead)).is_ok());
    let snapshot = Snapshot::build(&world);
    let coords = vec![a, Coordinates { x: 9, y: 9 }, b];
    let gathered = snapshot.gather_states(&coords);
    assert_eq!(gathered, vec![CellState::Alive, CellState::Dead]);
}
