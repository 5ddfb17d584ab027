//! The generational stepping engine and its cadence.
//!
//! A tick runs four strictly sequential phases: Gate (advance the cadence
//! accumulator; stop if not due), Snapshot (freeze every cell's current
//! state), Compute (every cell's next state, read only from the
//! snapshot), and Commit (replace all current states at once and count
//! the generation). The compute phase writes only to its own output
//! slot, so its units of work are independent and any partition or
//! interleaving of them yields the same committed generation.

use vstd::prelude::*;

use crate::components::CellState;
use crate::components::ConwayCell;
use crate::components::Coordinates;
use crate::components::MooreCell;
use crate::components::MooreNeighborhood;
use crate::components::coordinates_in_bounds;
use crate::components::count_living;
use crate::components::evaluate_rule;
use crate::components::neighbor_coordinates;
use crate::components::next_state;
use crate::spatial::SpatialIndex;
use crate::spatial::lemma_proximity_matches_dense;
use crate::spatial::within_radius_spec;
use crate::world::Snapshot;
use crate::world::World;
use crate::world::alive_in;

verus! {

/// Count of committed generations; incremented by exactly one per fired
/// cadence tick that ran a step, and never reset during a run.
#[derive(Copy, Clone, PartialEq, Eq, Structural, Debug, Hash)]
pub struct ElapsedSteps(pub u64);

impl Default for ElapsedSteps {
    /// Starts with no committed generation.
    fn default() -> (r: Self)
        ensures
            r.0 == 0,
    {
        ElapsedSteps(0)
    }
}

/// The cadence state: elapsed time accumulated so far and the fixed
/// interval at which a generation becomes due. The timer repeats
/// indefinitely.
#[derive(Copy, Clone, PartialEq, Eq, Structural, Debug, Hash)]
pub struct StepTimer {
    pub accumulated_ms: u64,
    pub interval_ms: u64,
}

impl StepTimer {
    /// Well-formedness: a positive interval, with the accumulator
    /// strictly below it between ticks.
    pub open spec fn wf(self) -> bool {
        0 < self.interval_ms && self.accumulated_ms < self.interval_ms
    }

    /// True when advancing by `delta_ms` reaches the interval.
    pub open spec fn fires(self, delta_ms: u64) -> bool {
        self.accumulated_ms + delta_ms >= self.interval_ms
    }

    /// A fresh timer with the given interval and an empty accumulator.
    pub fn new(interval_ms: u64) -> (t: StepTimer)
        requires
            interval_ms > 0,
        ensures
            t.wf(),
            t.interval_ms == interval_ms,
            t.accumulated_ms == 0,
    {
        StepTimer { accumulated_ms: 0, interval_ms }
    }

    /// Advance the accumulator by the elapsed time and report whether the
    /// cadence fired. Accumulation policy: exact modulo — on firing, the
    /// leftover time modulo the interval is retained, so no accumulated
    /// time is lost across ticks, but one tick fires at most once.
    pub fn tick(&mut self, delta_ms: u64) -> (fired: bool)
        requires
            old(self).wf(),
        ensures
            final(self).wf(),
            final(self).interval_ms == old(self).interval_ms,
            fired == old(self).fires(delta_ms),
            !fired ==> final(self).accumulated_ms == old(self).accumulated_ms + delta_ms,
            fired ==> final(self).accumulated_ms == (old(self).accumulated_ms + delta_ms) % (
            old(self).interval_ms as int),
    {
        if delta_ms >= self.interval_ms - self.accumulated_ms {
            let leftover = delta_ms - (self.interval_ms - self.accumulated_ms);
            let rem = leftover % self.interval_ms;
            proof {
                vstd::arithmetic::div_mod::lemma_mod_add_multiples_vanish(
                    leftover as int,
                    self.interval_ms as int,
                );
            }
            self.accumulated_ms = rem;
            true
        } else {
            self.accumulated_ms = self.accumulated_ms + delta_ms;
            false
        }
    }
}

impl Default for StepTimer {
    /// The default cadence: one generation every 100 milliseconds,
    /// repeating.
    fn default() -> (t: Self)
        ensures
            t.wf(),
            t.interval_ms == 100,
            t.accumulated_ms == 0,
    {
        StepTimer { accumulated_ms: 0, interval_ms: 100 }
    }
}

/// Where the compute phase finds a cell's neighbors: exact Moore-8
/// offset lookups against the dense coordinate mapping, or a proximity
/// query at Chebyshev radius 1 against a spatial index.
pub enum NeighborSource {
    Dense(MooreCell),
    Proximity(SpatialIndex),
}

/// The neighbor coordinates a source yields for the cell at `c`.
pub open spec fn source_neighbor_coordinates(
    source: NeighborSource,
    c: Coordinates,
) -> Seq<Coordinates> {
    match source {
        NeighborSource::Dense(_) => neighbor_coordinates(c),
        NeighborSource::Proximity(idx) => within_radius_spec(idx.positions_seq(), c, 1),
    }
}

/// The neighbor coordinates of the cell at `coordinates`, per the source.
pub fn source_neighbors(source: &NeighborSource, coordinates: Coordinates) -> (r: Vec<Coordinates>)
    requires
        coordinates_in_bounds(coordinates),
    ensures
        r@ == source_neighbor_coordinates(*source, coordinates),
{
    match source {
        NeighborSource::Dense(_) => MooreNeighborhood::iter_neighbors(coordinates),
        NeighborSource::Proximity(idx) => idx.within_radius(coordinates, 1),
    }
}

/// The generation relation: `w1` is `w0` advanced by exactly one
/// generation. Every cell keeps its coordinate and rule parameters, and
/// its new state is the rule evaluated on its old state and the count of
/// living neighbors read from `w0`'s frozen mapping — never from another
/// cell's new state.
pub open spec fn generation_advanced(w0: World, w1: World, source: NeighborSource) -> bool {
    &&& w1.cells_seq().len() == w0.cells_seq().len()
    &&& forall|i: int|
        0 <= i < w0.cells_seq().len() ==> {
            &&& (#[trigger] w1.cells_seq()[i]).0 == w0.cells_seq()[i].0
            &&& w1.cells_seq()[i].1.birth_rules@ == w0.cells_seq()[i].1.birth_rules@
            &&& w1.cells_seq()[i].1.survival_rules@ == w0.cells_seq()[i].1.survival_rules@
            &&& w1.cells_seq()[i].1.state == next_state(
                w0.cells_seq()[i].1.state,
                alive_in(
                    w0.state_map(),
                    source_neighbor_coordinates(source, w0.cells_seq()[i].0),
                ),
                w0.cells_seq()[i].1.birth_rules@,
                w0.cells_seq()[i].1.survival_rules@,
            )
        }
}

/// Law: the committed generation is a function of the prior world and
/// the neighbor source alone. However the compute phase's independent
/// units of work are partitioned or interleaved, any two worlds that
/// stand in the generation relation to the same prior world agree on
/// every cell.
pub proof fn lemma_generation_deterministic(
    w0: World,
    w1: World,
    w2: World,
    source: NeighborSource,
)
    requires
        generation_advanced(w0, w1, source),
        generation_advanced(w0, w2, source),
    ensures
        w1.cells_seq().len() == w2.cells_seq().len(),
        forall|i: int|
            0 <= i < w1.cells_seq().len() ==> (#[trigger] w1.cells_seq()[i]).0
                == w2.cells_seq()[i].0 && w1.cells_seq()[i].1.state == w2.cells_seq()[i].1.state,
{
}

/// Law: the two neighbor strategies are one code path, not two engines.
/// Against a proximity index rebuilt from the very world being stepped,
/// the engine commits exactly the generation the dense Moore-8 path
/// commits: the generation relations are equivalent.
pub proof fn lemma_generation_source_agreement(w0: World, w1: World, idx: SpatialIndex)
    requires
        w0.wf(),
        idx.positions_seq() == w0.cells_seq().map_values(|p: (Coordinates, ConwayCell)| p.0),
    ensures
        generation_advanced(w0, w1, NeighborSource::Proximity(idx)) == generation_advanced(
            w0,
            w1,
            NeighborSource::Dense(MooreCell),
        ),
{
    let positions = idx.positions_seq();
    assert(positions.no_duplicates()) by {
        assert forall|i: int, j: int|
            (0 <= i < positions.len() && 0 <= j < positions.len() && i != j) implies positions[i]
            != positions[j] by {
            assert(positions[i] == w0.cells_seq()[i].0);
            assert(positions[j] == w0.cells_seq()[j].0);
        }
    }
    w0.lemma_state_map_dom();
    assert forall|i: int| 0 <= i < w0.cells_seq().len() implies alive_in(
        w0.state_map(),
        source_neighbor_coordinates(NeighborSource::Proximity(idx), w0.cells_seq()[i].0),
    ) == alive_in(
        w0.state_map(),
        source_neighbor_coordinates(NeighborSource::Dense(MooreCell), w0.cells_seq()[i].0),
    ) by {
        assert(coordinates_in_bounds(w0.cells_seq()[i].0));
        lemma_proximity_matches_dense(w0.state_map(), positions, w0.cells_seq()[i].0);
    }
}

/// Compute phase: for every cell, independently, its next state, read
/// only from the frozen snapshot. The world is untouched; each result
/// goes to its own slot of the returned buffer.
fn compute_next_states(world: &World, snapshot: &Snapshot, source: &NeighborSource) -> (next: Vec<
    CellState,
>)
    requires
        world.wf(),
        snapshot.wf(),
        snapshot.as_map() == world.state_map(),
    ensures
        next@.len() == world.cells_seq().len(),
        forall|i: int|
            0 <= i < world.cells_seq().len() ==> #[trigger] next@[i] == next_state(
                world.cells_seq()[i].1.state,
                alive_in(
                    world.state_map(),
                    source_neighbor_coordinates(*source, world.cells_seq()[i].0),
                ),
                world.cells_seq()[i].1.birth_rules@,
                world.cells_seq()[i].1.survival_rules@,
            ),
{
    let mut next: Vec<CellState> = Vec::new();
    let mut i: usize = 0;
    let n = world.len();
    while i < n
        invariant
            world.wf(),
            snapshot.wf(),
            snapshot.as_map() == world.state_map(),
            n == world.cells_seq().len(),
            0 <= i <= n,
            next@.len() == i,
            forall|j: int|
                0 <= j < i ==> #[trigger] next@[j] == next_state(
                    world.cells_seq()[j].1.state,
                    alive_in(
                        world.state_map(),
                        source_neighbor_coordinates(*source, world.cells_seq()[j].0),
                    ),
                    world.cells_seq()[j].1.birth_rules@,
                    world.cells_seq()[j].1.survival_rules@,
                ),
        decreases n - i,
    {
        let pair = world.cell_at(i);
        let coords = source_neighbors(source, pair.0);
        let states = snapshot.gather_states(&coords);
        let living = count_living(states.as_slice());
        let next_cell_state = evaluate_rule(
            pair.1.state,
            living,
            &pair.1.birth_rules,
            &pair.1.survival_rules,
        );
        next.push(next_cell_state);
        i += 1;
    }
    next
}

/// One tick of the generic stepping engine, over any neighbor source.
///
/// Gate: advance the cadence; when it does not fire, nothing changes but
/// the accumulator. When it fires: freeze the snapshot, compute every
/// cell's next state from it alone, commit all states at once, and count
/// the generation.
pub fn new_step(
    world: &mut World,
    step_timer: &mut StepTimer,
    elapsed_steps: &mut ElapsedSteps,
    delta_ms: u64,
    source: &NeighborSource,
) -> (stepped: bool)
    requires
        old(world).wf(),
        old(step_timer).wf(),
        old(elapsed_steps).0 < u64::MAX,
    ensures
        final(world).wf(),
        final(step_timer).wf(),
        final(step_timer).interval_ms == old(step_timer).interval_ms,
        stepped == old(step_timer).fires(delta_ms),
        !stepped ==> {
            &&& *final(world) == *old(world)
            &&& *final(elapsed_steps) == *old(elapsed_steps)
            &&& final(step_timer).accumulated_ms == old(step_timer).accumulated_ms + delta_ms
        },
        stepped ==> {
            &&& final(step_timer).accumulated_ms == (old(step_timer).accumulated_ms + delta_ms)
                % (old(step_timer).interval_ms as int)
            &&& final(elapsed_steps).0 == old(elapsed_steps).0 + 1
            &&& generation_advanced(*old(world), *final(world), *source)
        },
{
    let fired = step_timer.tick(delta_ms);
    if !fired {
        return false;
    }
    let snapshot = Snapshot::build(world);
    let next = compute_next_states(world, &snapshot, source);
    world.apply_states(&next);
    elapsed_steps.0 = elapsed_steps.0 + 1;
    true
}

/// One tick of the concrete stepping engine: the dense coordinate-map
/// path with the Moore-8 neighborhood.
pub fn step(
    world: &mut World,
    step_timer: &mut StepTimer,
    elapsed_steps: &mut ElapsedSteps,
    delta_ms: u64,
) -> (stepped: bool)
    requires
        old(world).wf(),
        old(step_timer).wf(),
        old(elapsed_steps).0 < u64::MAX,
    ensures
        final(world).wf(),
        final(step_timer).wf(),
        final(step_timer).interval_ms == old(step_timer).interval_ms,
        stepped == old(step_timer).fires(delta_ms),
        !stepped ==> {
            &&& *final(world) == *old(world)
            &&& *final(elapsed_steps) == *old(elapsed_steps)
            &&& final(step_timer).accumulated_ms == old(step_timer).accumulated_ms + delta_ms
        },
        stepped ==> {
            &&& final(step_timer).accumulated_ms == (old(step_timer).accumulated_ms + delta_ms)
                % (old(step_timer).interval_ms as int)
            &&& final(elapsed_steps).0 == old(elapsed_steps).0 + 1
            &&& generation_advanced(
                *old(world),
                *final(world),
                NeighborSource::Dense(MooreCell),
            )
        },
{
    let source = NeighborSource::Dense(MooreCell);
    new_step(world, step_timer, elapsed_steps, delta_ms, &source)
}

} // verus!
