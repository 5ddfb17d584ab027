//! Cell-level building blocks: coordinates, cell states, the Moore-8
//! neighborhood, and the parameterized birth/survival transition rule.

use vstd::prelude::*;

verus! {

/// The state of a single cell slot.
#[derive(Copy, Clone, PartialEq, Eq, Structural, Debug, Hash)]
pub enum CellState {
    Dead,
    Alive,
}

impl CellState {
    /// Flip the state: Alive becomes Dead, Dead becomes Alive.
    pub fn transition(&mut self)
        ensures
            *final(self) == (match *old(self) {
                CellState::Alive => CellState::Dead,
                CellState::Dead => CellState::Alive,
            }),
    {
        *self = match self {
            CellState::Alive => CellState::Dead,
            CellState::Dead => CellState::Alive,
        };
    }
}

/// An immutable 2D integer position identifying a cell slot.
///
/// Equality and hashing are by value; coordinates are copied freely and
/// serve as the unique key of a cell in the world.
#[derive(Copy, Clone, PartialEq, Eq, Structural, Debug, Hash)]
pub struct Coordinates {
    pub x: i64,
    pub y: i64,
}

/// True when both components are strictly inside the `i64` range, so that
/// every neighbor offset of magnitude at most one can be applied without
/// overflow. This is a machine limit, not a modeling choice.
pub open spec fn coordinates_in_bounds(c: Coordinates) -> bool {
    i64::MIN < c.x < i64::MAX && i64::MIN < c.y < i64::MAX
}

/// Componentwise sum of a coordinate and an offset, truncated to `i64`.
/// Callers that stay in bounds see the exact mathematical sum.
pub open spec fn coordinates_plus(c: Coordinates, d: Coordinates) -> Coordinates {
    Coordinates { x: (c.x + d.x) as i64, y: (c.y + d.y) as i64 }
}

/// The eight relative offsets of the Moore neighborhood, clockwise from
/// north: N, NE, E, SE, S, SW, W, NW.
pub open spec fn moore_offsets() -> Seq<Coordinates> {
    seq![
        Coordinates { x: 0i64, y: 1i64 },
        Coordinates { x: 1i64, y: 1i64 },
        Coordinates { x: 1i64, y: 0i64 },
        Coordinates { x: 1i64, y: -1i64 },
        Coordinates { x: 0i64, y: -1i64 },
        Coordinates { x: -1i64, y: -1i64 },
        Coordinates { x: -1i64, y: 0i64 },
        Coordinates { x: -1i64, y: 1i64 },
    ]
}

/// The eight absolute coordinates of the Moore neighborhood of `c`,
/// in the order of `moore_offsets`.
pub open spec fn neighbor_coordinates(c: Coordinates) -> Seq<Coordinates> {
    moore_offsets().map_values(|d: Coordinates| coordinates_plus(c, d))
}

/// A cell whose neighborhood is the Moore-8 ring at Chebyshev distance 1.
#[derive(Copy, Clone, PartialEq, Eq, Structural, Debug, Hash, Default)]
pub struct MooreCell;

impl MooreCell {
    /// The relative offsets that define this cell's neighborhood.
    pub fn neighbors(&self) -> (offsets: Vec<Coordinates>)
        ensures
            offsets@ == moore_offsets(),
    {
        let offsets = vec![
            Coordinates { x: 0, y: 1 },
            Coordinates { x: 1, y: 1 },
            Coordinates { x: 1, y: 0 },
            Coordinates { x: 1, y: -1 },
            Coordinates { x: 0, y: -1 },
            Coordinates { x: -1, y: -1 },
            Coordinates { x: -1, y: 0 },
            Coordinates { x: -1, y: 1 },
        ];
        proof {
            assert(offsets@ =~= moore_offsets());
        }
        offsets
    }
}

/// The eight directions of the Moore neighborhood, named.
#[derive(Copy, Clone, PartialEq, Eq, Structural, Debug, Hash)]
pub enum MooreNeighborhood {
    North,
    Northeast,
    East,
    Southeast,
    South,
    Southwest,
    West,
    Northwest,
}

/// The relative offset of a named Moore direction.
pub open spec fn direction_offset(d: MooreNeighborhood) -> Coordinates {
    match d {
        MooreNeighborhood::North => Coordinates { x: 0i64, y: 1i64 },
        MooreNeighborhood::Northeast => Coordinates { x: 1i64, y: 1i64 },
        MooreNeighborhood::East => Coordinates { x: 1i64, y: 0i64 },
        MooreNeighborhood::Southeast => Coordinates { x: 1i64, y: -1i64 },
        MooreNeighborhood::South => Coordinates { x: 0i64, y: -1i64 },
        MooreNeighborhood::Southwest => Coordinates { x: -1i64, y: -1i64 },
        MooreNeighborhood::West => Coordinates { x: -1i64, y: 0i64 },
        MooreNeighborhood::Northwest => Coordinates { x: -1i64, y: 1i64 },
    }
}

impl MooreNeighborhood {
    /// The absolute coordinate of the neighbor in this direction.
    pub fn relative_position(&self, coordinates: Coordinates) -> (r: Coordinates)
        requires
            coordinates_in_bounds(coordinates),
        ensures
            r == coordinates_plus(coordinates, direction_offset(*self)),
    {
        let delta = match self {
            MooreNeighborhood::North => Coordinates { x: 0, y: 1 },
            MooreNeighborhood::Northeast => Coordinates { x: 1, y: 1 },
            MooreNeighborhood::East => Coordinates { x: 1, y: 0 },
            MooreNeighborhood::Southeast => Coordinates { x: 1, y: -1 },
            MooreNeighborhood::South => Coordinates { x: 0, y: -1 },
            MooreNeighborhood::Southwest => Coordinates { x: -1, y: -1 },
            MooreNeighborhood::West => Coordinates { x: -1, y: 0 },
            MooreNeighborhood::Northwest => Coordinates { x: -1, y: 1 },
        };
        Coordinates { x: coordinates.x + delta.x, y: coordinates.y + delta.y }
    }

    /// All eight neighbor coordinates of `coordinates`, in the order of
    /// `moore_offsets`.
    pub fn iter_neighbors(coordinates: Coordinates) -> (r: Vec<Coordinates>)
        requires
            coordinates_in_bounds(coordinates),
        ensures
            r@ == neighbor_coordinates(coordinates),
    {
        let r = vec![
            Coordinates { x: coordinates.x, y: coordinates.y + 1 },
            Coordinates { x: coordinates.x + 1, y: coordinates.y + 1 },
            Coordinates { x: coordinates.x + 1, y: coordinates.y },
            Coordinates { x: coordinates.x + 1, y: coordinates.y - 1 },
            Coordinates { x: coordinates.x, y: coordinates.y - 1 },
            Coordinates { x: coordinates.x - 1, y: coordinates.y - 1 },
            Coordinates { x: coordinates.x - 1, y: coordinates.y },
            Coordinates { x: coordinates.x - 1, y: coordinates.y + 1 },
        ];
        proof {
            assert(r@ =~= neighbor_coordinates(coordinates));
        }
        r
    }
}

/// Number of Alive entries in a sequence of neighbor states.
pub open spec fn count_alive(states: Seq<CellState>) -> nat
    decreases states.len(),
{
    if states.len() == 0 {
        0
    } else {
        count_alive(states.drop_last()) + if states.last() is Alive {
            1nat
        } else {
            0nat
        }
    }
}

/// True when the rule set contains the neighbor count `n`.
pub open spec fn rules_contain(rules: Seq<u8>, n: nat) -> bool {
    exists|i: int| 0 <= i < rules.len() && rules[i] as nat == n
}

/// The transition rule: an Alive cell stays Alive exactly when its
/// living-neighbor count is in the survival set; a Dead cell becomes Alive
/// exactly when its living-neighbor count is in the birth set.
pub open spec fn next_state(
    current: CellState,
    living_neighbors: nat,
    birth_rules: Seq<u8>,
    survival_rules: Seq<u8>,
) -> CellState {
    match current {
        CellState::Alive => if rules_contain(survival_rules, living_neighbors) {
            CellState::Alive
        } else {
            CellState::Dead
        },
        CellState::Dead => if rules_contain(birth_rules, living_neighbors) {
            CellState::Alive
        } else {
            CellState::Dead
        },
    }
}

/// True when the rule set lists the count `n`.
pub fn rules_list_contains(rules: &Vec<u8>, n: usize) -> (r: bool)
    ensures
        r == rules_contain(rules@, n as nat),
{
    let mut i: usize = 0;
    while i < rules.len()
        invariant
            0 <= i <= rules@.len(),
            forall|j: int| 0 <= j < i ==> rules@[j] as nat != n as nat,
        decreases rules@.len() - i,
    {
        if rules[i] as usize == n {
            return true;
        }
        i += 1;
    }
    false
}

/// Count the Alive entries of a slice of neighbor states.
pub fn count_living(neighbors: &[CellState]) -> (n: usize)
    ensures
        n as nat == count_alive(neighbors@),
{
    let mut n: usize = 0;
    let mut i: usize = 0;
    while i < neighbors.len()
        invariant
            0 <= i <= neighbors@.len(),
            n <= i,
            n as nat == count_alive(neighbors@.take(i as int)),
        decreases neighbors@.len() - i,
    {
        proof {
            assert(neighbors@.take(i + 1int).drop_last() =~= neighbors@.take(i as int));
            assert(neighbors@.take(i + 1int).last() == neighbors@[i as int]);
        }
        if matches!(neighbors[i], CellState::Alive) {
            n = n + 1;
        }
        i += 1;
    }
    proof {
        assert(neighbors@.take(neighbors@.len() as int) =~= neighbors@);
    }
    n
}

/// Evaluate the transition rule for a current state, a living-neighbor
/// count and rule parameters, without touching any cell.
pub fn evaluate_rule(
    current: CellState,
    living_neighbors: usize,
    birth_rules: &Vec<u8>,
    survival_rules: &Vec<u8>,
) -> (r: CellState)
    ensures
        r == next_state(current, living_neighbors as nat, birth_rules@, survival_rules@),
{
    match current {
        CellState::Alive => if rules_list_contains(survival_rules, living_neighbors) {
            CellState::Alive
        } else {
            CellState::Dead
        },
        CellState::Dead => if rules_list_contains(birth_rules, living_neighbors) {
            CellState::Alive
        } else {
            CellState::Dead
        },
    }
}

/// A cell carrying its current state and its own birth/survival rule
/// parameters, so that heterogeneous regions are possible; the classic
/// Conway parameters are the default.
#[derive(Debug)]
pub struct ConwayCell {
    pub state: CellState,
    pub birth_rules: Vec<u8>,
    pub survival_rules: Vec<u8>,
}

impl Default for ConwayCell {
    /// The classic Conway cell: Dead, birth on 3, survival on 2 or 3.
    fn default() -> (result: Self)
        ensures
            result.state == CellState::Dead,
            result.birth_rules@ == seq![3u8],
            result.survival_rules@ == seq![2u8, 3u8],
    {
        let result = ConwayCell {
            state: CellState::Dead,
            birth_rules: vec![3],
            survival_rules: vec![2, 3],
        };
        proof {
            assert(result.birth_rules@ =~= seq![3u8]);
            assert(result.survival_rules@ =~= seq![2u8, 3u8]);
        }
        result
    }
}

impl ConwayCell {
    /// The cell's current state.
    pub fn state(&self) -> (s: CellState)
        ensures
            s == self.state,
    {
        self.state
    }

    /// Evaluate the transition rule against the given neighbor states and
    /// replace the cell's state with the result. The rule parameters are
    /// untouched.
    pub fn change_state(&mut self, neighbors: &[CellState])
        ensures
            final(self).state == next_state(
                old(self).state,
                count_alive(neighbors@),
                old(self).birth_rules@,
                old(self).survival_rules@,
            ),
            final(self).birth_rules@ == old(self).birth_rules@,
            final(self).survival_rules@ == old(self).survival_rules@,
    {
        let num_living_neighbors = count_living(neighbors);
        match self.state {
            CellState::Alive => {
                if !rules_list_contains(&self.survival_rules, num_living_neighbors) {
                    self.state.transition();
                }
            },
            CellState::Dead => {
                if rules_list_contains(&self.birth_rules, num_living_neighbors) {
                    self.state.transition();
                }
            },
        }
    }
}

/// Law: an Alive cell's next state is Alive exactly when its
/// living-neighbor count is in the survival rule set.
pub proof fn lemma_alive_survives_iff(
    living_neighbors: nat,
    birth_rules: Seq<u8>,
    survival_rules: Seq<u8>,
)
    ensures
        next_state(CellState::Alive, living_neighbors, birth_rules, survival_rules)
            is Alive <==> rules_contain(survival_rules, living_neighbors),
{
}

/// Law: a Dead cell's next state is Alive exactly when its
/// living-neighbor count is in the birth rule set.
pub proof fn lemma_dead_born_iff(
    living_neighbors: nat,
    birth_rules: Seq<u8>,
    survival_rules: Seq<u8>,
)
    ensures
        next_state(CellState::Dead, living_neighbors, birth_rules, survival_rules)
            is Alive <==> rules_contain(birth_rules, living_neighbors),
{
}

/// The Alive count of a sequence is the Alive count of its multiset.
pub proof fn lemma_count_alive_multiset(states: Seq<CellState>)
    ensures
        count_alive(states) == states.to_multiset().count(CellState::Alive),
    decreases states.len(),
{
    broadcast use vstd::seq_lib::group_to_multiset_ensures;
    broadcast use vstd::multiset::group_multiset_axioms;
    broadcast use vstd::multiset::lemma_insert_increases_count_by_1;

    if states.len() == 0 {
        assert(states.to_multiset().count(CellState::Alive) == 0);
    } else {
        let prefix = states.drop_last();
        lemma_count_alive_multiset(prefix);
        assert(states =~= prefix.push(states.last()));
        assert(prefix.push(states.last()).to_multiset() =~= prefix.to_multiset().insert(
            states.last(),
        ));
    }
}

/// Law: the rule is permutation invariant. Two neighbor-state sequences
/// with the same multiset (one a shuffle of the other) yield the same next
/// state for every current state and rule parameters.
pub proof fn lemma_rule_permutation_invariant(
    current: CellState,
    states1: Seq<CellState>,
    states2: Seq<CellState>,
    birth_rules: Seq<u8>,
    survival_rules: Seq<u8>,
)
    requires
        states1.to_multiset() == states2.to_multiset(),
    ensures
        next_state(current, count_alive(states1), birth_rules, survival_rules) == next_state(
            current,
            count_alive(states2),
            birth_rules,
            survival_rules,
        ),
{
    lemma_count_alive_multiset(states1);
    lemma_count_alive_multiset(states2);
}

} // verus!
