use cgol::components::CellState;
use cgol::components::ConwayCell;
use cgol::components::Coordinates;
use cgol::components::MooreCell;
use cgol::components::MooreNeighborhood;
use cgol::components::count_living;
use cgol::components::evaluate_rule;
use cgol::components::rules_list_contains;

fn classic_cell(state: CellState) -> ConwayCell {
    ConwayCell { state, birth_rules: vec![3], survival_rules: vec![2, 3] }
}

fn states(living: usize, dead: usize) -> Vec<CellState> {
    let mut v = Vec::new();
    for _ in 0..living {
        v.push(CellState::Alive);
    }
    for _ in 0..dead {
        v.push(CellState::Dead);
    }
    v
}

#[test]
fn alive_cell_next_state_per_survival_rules() {
    let birth = vec![3u8];
    let survival = vec![2u8, 3u8];
    for n in 0..=8usize {
        let expected = if n == 2 || n == 3 { CellState::Alive } else { CellState::Dead };
        assert_eq!(evaluate_rule(CellState::Alive, n, &birth, &survival), expected);
    }
}

#[test]
fn dead_cell_next_state_per_birth_rules() {
    let birth = vec![3u8];
    let survival = vec![2u8, 3u8];
    for n in 0..=8usize {
        let expected = if n == 3 { CellState::Alive } else { CellState::Dead };
        assert_eq!(evaluate_rule(CellState::Dead, n, &birth, &survival), expected);
    }
}

#[test]
fn rule_is_permutation_invariant() {
    // Five orderings of the same multiset of neighbor states must yield
    // the same result for an Alive and for a Dead cell.
    let orderings: [[CellState; 5]; 5] = [
        [CellState::Alive, CellState::Alive, CellState::Dead, CellState::Dead, CellState::Alive],
        [CellState::Alive, CellState::Dead, CellState::Alive, CellState::Dead, CellState::Alive],
        [CellState::Dead, CellState::Alive, CellState::Alive, CellState::Alive, CellState::Dead],
        [CellState::Alive, CellState::Alive, CellState::Alive, CellState::Dead, CellState::Dead],
        [CellState::Dead, CellState::Dead, CellState::Alive, CellState::Alive, CellState::Alive],
    ];
    let birth = vec![3u8];
    let survival = vec![2u8, 3u8];
    for current in [CellState::Alive, CellState::Dead] {
        let reference = evaluate_rule(current, count_living(&orderings[0]), &birth, &survival);
        for ordering in &orderings {
            let n = count_living(ordering);
            assert_eq!(n, 3);
            assert_eq!(evaluate_rule(current, n, &birth, &survival), reference);
        }
    }
}

#[test]
fn change_state_applies_rule_and_keeps_parameters() {
    let mut cell = classic_cell(CellState::Alive);
    cell.change_state(&states(1, 4));
    assert_eq!(cell.state(), CellState::Dead);
    assert_eq!(cell.birth_rules, vec![3]);
    assert_eq!(cell.survival_rules, vec![2, 3]);

    let mut cell = classic_cell(CellState::Dead);
    cell.change_state(&states(3, 2));
    assert_eq!(cell.state(), CellState::Alive);
}

#[test]
fn change_state_with_heterogeneous_rules() {
    // A cell with an empty survival set dies whatever its neighborhood.
    let mut lonely = ConwayCell {
        state: CellState::Alive,
        birth_rules: vec![3],
        survival_rules: vec![],
    };
    lonely.change_state(&states(2, 0));
    assert_eq!(lonely.state(), CellState::Dead);

    // A cell born at any count of exactly one living neighbor.
    let mut eager = ConwayCell {
        state: CellState::Dead,
        birth_rules: vec![1],
        survival_rules: vec![],
    };
    eager.change_state(&states(1, 7));
    assert_eq!(eager.state(), CellState::Alive);
}

#[test]
fn transition_flips_state() {
    let mut s = CellState::Alive;
    s.transition();
    assert_eq!(s, CellState::Dead);
    s.transition();
    assert_eq!(s, CellState::Alive);
}

#[test]
fn conway_cell_default_is_classic() {
    let cell = ConwayCell::default();
    assert_eq!(cell.state(), CellState::Dead);
    assert_eq!(cell.birth_rules, vec![3]);
    assert_eq!(cell.survival_rules, vec![2, 3]);
}

#[test]
fn count_living_counts_exactly() {
    assert_eq!(count_living(&[]), 0);
    assert_eq!(count_living(&states(0, 8)), 0);
    assert_eq!(count_living(&states(8, 0)), 8);
    assert_eq!(count_living(&states(3, 5)), 3);
}

#[test]
fn rules_list_contains_matches_membership() {
    let rules = vec![2u8, 3u8];
    assert!(rules_list_contains(&rules, 2));
    assert!(rules_list_contains(&rules, 3));
    assert!(!rules_list_contains(&rules, 0));
    assert!(!rules_list_contains(&rules, 4));
    assert!(!rules_list_contains(&vec![], 0));
}

#[test]
fn moore_cell_lists_the_eight_offsets() {
    let offsets = MooreCell.neighbors();
    let expected = [
        (0, 1),
        (1, 1),
        (1, 0),
        (1, -1),
        (0, -1),
        (-1, -1),
        (-1, 0),
        (-1, 1),
    ];
    assert_eq!(offsets.len(), 8);
    for (offset, (x, y)) in offsets.iter().zip(expected.iter()) {
        assert_eq!(offset.x, *x);
        assert_eq!(offset.y, *y);
    }
}

#[test]
fn relative_position_and_iter_neighbors_agree() {
    let origin = Coordinates { x: 10, y: -4 };
    let directions = [
        MooreNeighborhood::North,
        MooreNeighborhood::Northeast,
        MooreNeighborhood::East,
        MooreNeighborhood::Southeast,
        MooreNeighborhood::South,
        MooreNeighborhood::Southwest,
        MooreNeighborhood::West,
        MooreNeighborhood::Northwest,
    ];
    let listed = MooreNeighborhood::iter_neighbors(origin);
    assert_eq!(listed.len(), 8);
    for (direction, coordinate) in directions.iter().zip(listed.iter()) {
        assert_eq!(direction.relative_position(origin), *coordinate);
    }
    assert_eq!(listed[0], Coordinates { x: 10, y: -3 });
    assert_eq!(listed[5], Coordinates { x: 9, y: -5 });
}
