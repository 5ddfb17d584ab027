//! The active world (one cell per coordinate) and the per-generation
//! snapshot: an immutable coordinate-to-state mapping that is the sole
//! read source while a generation is computed.

use vstd::prelude::*;

use crate::components::CellState;
use crate::components::ConwayCell;
use crate::components::Coordinates;
use crate::components::coordinates_in_bounds;
use crate::components::count_alive;

verus! {

/// Errors reported at world-population time.
#[derive(Copy, Clone, PartialEq, Eq, Structural, Debug)]
pub enum LifeError {
    /// A cell already occupies the coordinate; one cell per coordinate is
    /// an invariant of the world.
    DuplicateCoordinates,
}

/// The mapping that a sequence of (coordinate, state) pairs denotes;
/// later entries would win, but every use keeps coordinates unique.
pub open spec fn pairs_to_map(s: Seq<(Coordinates, CellState)>) -> Map<Coordinates, CellState>
    decreases s.len(),
{
    if s.len() == 0 {
        Map::empty()
    } else {
        pairs_to_map(s.drop_last()).insert(s.last().0, s.last().1)
    }
}

/// No coordinate occurs twice in the pair sequence.
pub open spec fn pairs_unique(s: Seq<(Coordinates, CellState)>) -> bool {
    forall|i: int, j: int| 0 <= i < j < s.len() ==> s[i].0 != s[j].0
}

/// A coordinate is in the denoted map exactly when some pair carries it.
pub proof fn lemma_pairs_to_map_contains(s: Seq<(Coordinates, CellState)>, c: Coordinates)
    ensures
        pairs_to_map(s).contains_key(c) <==> exists|i: int| 0 <= i < s.len() && s[i].0 == c,
    decreases s.len(),
{
    if s.len() > 0 {
        lemma_pairs_to_map_contains(s.drop_last(), c);
        if s.last().0 == c {
            assert(s[s.len() - 1].0 == c);
        } else if pairs_to_map(s).contains_key(c) {
            let i = choose|i: int| 0 <= i < s.drop_last().len() && s.drop_last()[i].0 == c;
            assert(s[i].0 == c);
        } else if exists|i: int| 0 <= i < s.len() && s[i].0 == c {
            let i = choose|i: int| 0 <= i < s.len() && s[i].0 == c;
            assert(s.drop_last()[i].0 == c);
        }
    }
}

/// With unique coordinates, the denoted map sends each pair's coordinate
/// to that pair's state.
pub proof fn lemma_pairs_to_map_at(s: Seq<(Coordinates, CellState)>, i: int)
    requires
        pairs_unique(s),
        0 <= i < s.len(),
    ensures
        pairs_to_map(s).contains_key(s[i].0),
        pairs_to_map(s)[s[i].0] == s[i].1,
    decreases s.len(),
{
    if i == s.len() - 1 {
    } else {
        assert(pairs_unique(s.drop_last()));
        lemma_pairs_to_map_at(s.drop_last(), i);
        assert(s.drop_last()[i] == s[i]);
        assert(s[i].0 != s.last().0);
    }
}

/// Number of Alive states among the given coordinates, read from the
/// mapping; a coordinate absent from the mapping contributes nothing.
pub open spec fn alive_in(m: Map<Coordinates, CellState>, coords: Seq<Coordinates>) -> nat
    decreases coords.len(),
{
    if coords.len() == 0 {
        0
    } else {
        alive_in(m, coords.drop_last()) + if m.contains_key(coords.last()) && m[coords.last()]
            is Alive {
            1nat
        } else {
            0nat
        }
    }
}

/// The states, in order, of the given coordinates that are present in the
/// mapping; absent coordinates are skipped.
pub open spec fn present_states(
    m: Map<Coordinates, CellState>,
    coords: Seq<Coordinates>,
) -> Seq<CellState>
    decreases coords.len(),
{
    if coords.len() == 0 {
        Seq::empty()
    } else {
        present_states(m, coords.drop_last()) + if m.contains_key(coords.last()) {
            seq![m[coords.last()]]
        } else {
            Seq::<CellState>::empty()
        }
    }
}

/// Counting Alive entries among the gathered present states is the same
/// as counting Alive coordinates directly in the mapping.
pub proof fn lemma_alive_in_present_states(m: Map<Coordinates, CellState>, coords: Seq<Coordinates>)
    ensures
        count_alive(present_states(m, coords)) == alive_in(m, coords),
    decreases coords.len(),
{
    if coords.len() > 0 {
        lemma_alive_in_present_states(m, coords.drop_last());
        let prefix = present_states(m, coords.drop_last());
        if m.contains_key(coords.last()) {
            assert(present_states(m, coords) =~= prefix.push(m[coords.last()]));
            assert(present_states(m, coords).drop_last() =~= prefix);
        } else {
            assert(present_states(m, coords) =~= prefix);
        }
    }
}

/// The keys of the mapping denoted by a pair sequence are exactly the
/// coordinates the pairs carry.
pub proof fn lemma_pairs_to_map_dom(s: Seq<(Coordinates, CellState)>)
    ensures
        pairs_to_map(s).dom() == s.map_values(|p: (Coordinates, CellState)| p.0).to_set(),
{
    broadcast use vstd::set::group_set_axioms;

    let coords = s.map_values(|p: (Coordinates, CellState)| p.0);
    assert forall|c: Coordinates|
        pairs_to_map(s).dom().contains(c) <==> coords.to_set().contains(c) by {
        lemma_pairs_to_map_contains(s, c);
        if pairs_to_map(s).contains_key(c) {
            let i = choose|i: int| 0 <= i < s.len() && s[i].0 == c;
            assert(coords[i] == c);
        }
        if coords.to_set().contains(c) {
            let i = choose|i: int| 0 <= i < coords.len() && coords[i] == c;
            assert(s[i].0 == c);
        }
    }
    assert(pairs_to_map(s).dom() =~= coords.to_set());
}

/// The active world: the set of tracked cells, at most one per
/// coordinate, each carrying its state and its rule parameters.
pub struct World {
    pub cells: Vec<(Coordinates, ConwayCell)>,
}

impl World {
    /// The tracked cells, in insertion order.
    pub open spec fn cells_seq(self) -> Seq<(Coordinates, ConwayCell)> {
        self.cells@
    }

    /// Well-formedness: coordinates are unique keys and stay strictly
    /// inside the `i64` range so neighbor offsets cannot overflow.
    pub open spec fn wf(self) -> bool {
        &&& forall|i: int, j: int|
            0 <= i < j < self.cells@.len() ==> self.cells@[i].0 != self.cells@[j].0
        &&& forall|i: int| 0 <= i < self.cells@.len() ==> coordinates_in_bounds(#[trigger] self.cells@[i].0)
    }

    /// The (coordinate, current state) projection of the tracked cells.
    pub open spec fn state_pairs(self) -> Seq<(Coordinates, CellState)> {
        self.cells@.map_values(|p: (Coordinates, ConwayCell)| (p.0, p.1.state))
    }

    /// The mapping from coordinate to current state that the world denotes.
    pub open spec fn state_map(self) -> Map<Coordinates, CellState> {
        pairs_to_map(self.state_pairs())
    }

    /// The keys of the world's state mapping are exactly its tracked
    /// coordinates.
    pub proof fn lemma_state_map_dom(self)
        ensures
            self.state_map().dom() == self.cells_seq().map_values(
                |p: (Coordinates, ConwayCell)| p.0,
            ).to_set(),
    {
        lemma_pairs_to_map_dom(self.state_pairs());
        assert(self.state_pairs().map_values(|p: (Coordinates, CellState)| p.0)
            =~= self.cells_seq().map_values(|p: (Coordinates, ConwayCell)| p.0));
    }

    /// An empty world.
    pub fn new() -> (w: World)
        ensures
            w.wf(),
            w.cells_seq() == Seq::<(Coordinates, ConwayCell)>::empty(),
    {
        World { cells: Vec::new() }
    }

    /// Number of tracked cells.
    pub fn len(&self) -> (n: usize)
        ensures
            n == self.cells_seq().len(),
    {
        self.cells.len()
    }

    /// The cell at a slot index, for presentation and inspection.
    pub fn cell_at(&self, i: usize) -> (r: &(Coordinates, ConwayCell))
        requires
            i < self.cells_seq().len(),
        ensures
            *r == self.cells_seq()[i as int],
    {
        &self.cells[i]
    }

    /// True when some tracked cell occupies the coordinate.
    pub fn contains_coordinates(&self, coordinates: Coordinates) -> (r: bool)
        ensures
            r == exists|i: int|
                0 <= i < self.cells_seq().len() && self.cells_seq()[i].0 == coordinates,
    {
        let mut i: usize = 0;
        while i < self.cells.len()
            invariant
                0 <= i <= self.cells@.len(),
                forall|j: int| 0 <= j < i ==> self.cells@[j].0 != coordinates,
            decreases self.cells@.len() - i,
        {
            if self.cells[i].0 == coordinates {
                proof {
                    assert(self.cells_seq()[i as int].0 == coordinates);
                }
                return true;
            }
            i += 1;
        }
        false
    }

    /// Insert a cell at a fresh coordinate. A coordinate already occupied
    /// is rejected, never merged or overwritten.
    pub fn insert_cell(&mut self, coordinates: Coordinates, cell: ConwayCell) -> (r: Result<
        (),
        LifeError,
    >)
        requires
            old(self).wf(),
            coordinates_in_bounds(coordinates),
        ensures
            final(self).wf(),
            r is Err <==> exists|i: int|
                0 <= i < old(self).cells_seq().len() && old(self).cells_seq()[i].0 == coordinates,
            r is Err ==> r == Result::<(), LifeError>::Err(LifeError::DuplicateCoordinates),
            r is Err ==> final(self).cells_seq() == old(self).cells_seq(),
            r is Ok ==> final(self).cells_seq() == old(self).cells_seq().push(
                (coordinates, cell),
            ),
    {
        if self.contains_coordinates(coordinates) {
            Err(LifeError::DuplicateCoordinates)
        } else {
            self.cells.push((coordinates, cell));
            Ok(())
        }
    }

    /// The current state at a coordinate, or None where no cell is
    /// tracked (such a slot is implicitly dead).
    pub fn get_state(&self, coordinates: Coordinates) -> (r: Option<CellState>)
        requires
            self.wf(),
        ensures
            r == if self.state_map().contains_key(coordinates) {
                Some(self.state_map()[coordinates])
            } else {
                None::<CellState>
            },
    {
        let mut i: usize = 0;
        while i < self.cells.len()
            invariant
                self.wf(),
                0 <= i <= self.cells@.len(),
                forall|j: int| 0 <= j < i ==> self.cells@[j].0 != coordinates,
            decreases self.cells@.len() - i,
        {
            if self.cells[i].0 == coordinates {
                proof {
                    assert(self.state_pairs()[i as int].0 == coordinates);
                    lemma_pairs_to_map_at(self.state_pairs(), i as int);
                }
                return Some(self.cells[i].1.state);
            }
            i += 1;
        }
        proof {
            lemma_pairs_to_map_contains(self.state_pairs(), coordinates);
        }
        None
    }

    /// Commit a computed generation: replace each cell's current state
    /// with the state at the same slot of `next`, leaving coordinates and
    /// rule parameters untouched.
    pub fn apply_states(&mut self, next: &Vec<CellState>)
        requires
            old(self).wf(),
            next@.len() == old(self).cells_seq().len(),
        ensures
            final(self).wf(),
            final(self).cells_seq().len() == old(self).cells_seq().len(),
            forall|i: int|
                0 <= i < old(self).cells_seq().len() ==> {
                    &&& (#[trigger] final(self).cells_seq()[i]).0 == old(self).cells_seq()[i].0
                    &&& final(self).cells_seq()[i].1.state == next@[i]
                    &&& final(self).cells_seq()[i].1.birth_rules@ == old(
                        self,
                    ).cells_seq()[i].1.birth_rules@
                    &&& final(self).cells_seq()[i].1.survival_rules@ == old(
                        self,
                    ).cells_seq()[i].1.survival_rules@
                },
    {
        let mut i: usize = 0;
        while i < self.cells.len()
            invariant
                self.cells@.len() == old(self).cells_seq().len(),
                next@.len() == old(self).cells_seq().len(),
                0 <= i <= self.cells@.len(),
                forall|j: int|
                    i <= j < self.cells@.len() ==> #[trigger] self.cells@[j] == old(
                        self,
                    ).cells_seq()[j],
                forall|j: int|
                    0 <= j < i ==> {
                        &&& (#[trigger] self.cells@[j]).0 == old(self).cells_seq()[j].0
                        &&& self.cells@[j].1.state == next@[j]
                        &&& self.cells@[j].1.birth_rules@ == old(self).cells_seq()[j].1.birth_rules@
                        &&& self.cells@[j].1.survival_rules@ == old(
                            self,
                        ).cells_seq()[j].1.survival_rules@
                    },
            decreases self.cells@.len() - i,
        {
            let cell_ref = &mut self.cells[i];
            cell_ref.1.state = next[i];
            i += 1;
        }
    }
}

/// The frozen coordinate-to-state mapping built at the start of a
/// generation; it is the sole read source while next states are computed.
pub struct Snapshot {
    pub entries: Vec<(Coordinates, CellState)>,
}

impl Snapshot {
    /// The snapshot's entries, in the world's slot order.
    pub open spec fn entries_seq(self) -> Seq<(Coordinates, CellState)> {
        self.entries@
    }

    /// Well-formedness: coordinates are unique keys.
    pub open spec fn wf(self) -> bool {
        pairs_unique(self.entries@)
    }

    /// The mapping the snapshot denotes.
    pub open spec fn as_map(self) -> Map<Coordinates, CellState> {
        pairs_to_map(self.entries@)
    }

    /// Freeze every cell's current state. The result denotes exactly the
    /// world's coordinate-to-state mapping.
    pub fn build(world: &World) -> (s: Snapshot)
        requires
            world.wf(),
        ensures
            s.wf(),
            s.entries_seq() == world.state_pairs(),
            s.as_map() == world.state_map(),
    {
        let mut entries: Vec<(Coordinates, CellState)> = Vec::new();
        let mut i: usize = 0;
        let n = world.len();
        while i < n
            invariant
                world.wf(),
                n == world.cells_seq().len(),
                0 <= i <= n,
                entries@ =~= world.state_pairs().take(i as int),
            decreases n - i,
        {
            let pair = world.cell_at(i);
            entries.push((pair.0, pair.1.state));
            proof {
                assert(world.state_pairs().take(i + 1int) =~= world.state_pairs().take(
                    i as int,
                ).push(world.state_pairs()[i as int]));
            }
            i += 1;
        }
        proof {
            assert(world.state_pairs().take(n as int) =~= world.state_pairs());
        }
        Snapshot { entries }
    }

    /// Look a coordinate up in the frozen mapping; None means no cell was
    /// tracked there when the snapshot was built.
    pub fn lookup(&self, coordinates: Coordinates) -> (r: Option<CellState>)
        requires
            self.wf(),
        ensures
            r == if self.as_map().contains_key(coordinates) {
                Some(self.as_map()[coordinates])
            } else {
                None::<CellState>
            },
    {
        let mut i: usize = 0;
        while i < self.entries.len()
            invariant
                self.wf(),
                0 <= i <= self.entries@.len(),
                forall|j: int| 0 <= j < i ==> self.entries@[j].0 != coordinates,
            decreases self.entries@.len() - i,
        {
            if self.entries[i].0 == coordinates {
                proof {
                    lemma_pairs_to_map_at(self.entries@, i as int);
                }
                return Some(self.entries[i].1);
            }
            i += 1;
        }
        proof {
            lemma_pairs_to_map_contains(self.entries@, coordinates);
        }
        None
    }

    /// Gather, in order, the states of the given coordinates that the
    /// snapshot tracks; absent coordinates contribute nothing.
    pub fn gather_states(&self, coords: &Vec<Coordinates>) -> (states: Vec<CellState>)
        requires
            self.wf(),
        ensures
            states@ == present_states(self.as_map(), coords@),
            count_alive(states@) == alive_in(self.as_map(), coords@),
    {
        let mut states: Vec<CellState> = Vec::new();
        let mut i: usize = 0;
        while i < coords.len()
            invariant
                self.wf(),
                0 <= i <= coords@.len(),
                states@ =~= present_states(self.as_map(), coords@.take(i as int)),
            decreases coords@.len() - i,
        {
            proof {
                assert(coords@.take(i + 1int).drop_last() =~= coords@.take(i as int));
                assert(coords@.take(i + 1int).last() == coords@[i as int]);
            }
            match self.lookup(coords[i]) {
                Some(state) => {
                    states.push(state);
                    proof {
                        assert(present_states(self.as_map(), coords@.take(i + 1int))
                            =~= present_states(self.as_map(), coords@.take(i as int)).push(state));
                    }
                },
                None => {
                    proof {
                        assert(present_states(self.as_map(), coords@.take(i + 1int))
                            =~= present_states(self.as_map(), coords@.take(i as int)));
                    }
                },
            }
            i += 1;
        }
        proof {
            assert(coords@.take(coords@.len() as int) =~= coords@);
            lemma_alive_in_present_states(self.as_map(), coords@);
        }
        states
    }
}

} // verus!
