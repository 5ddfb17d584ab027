//! A proximity index over the tracked cell positions, usable as an
//! alternate neighbor source when cells are not guaranteed reachable by
//! exact coordinate-offset arithmetic.
//!
//! The index is rebuilt on its own cadence, independently of the stepping
//! cadence. Staleness bound: with the fixed world population of this
//! engine the position set never changes after population, so an index
//! rebuilt once after population never goes stale; a host that inserts
//! cells later must rebuild before the next generation that should see
//! them, since a generation reads exactly the positions the index held
//! when it was last rebuilt.

use vstd::prelude::*;

use crate::components::CellState;
use crate::components::ConwayCell;
use crate::components::Coordinates;
use crate::components::coordinates_in_bounds;
use crate::components::neighbor_coordinates;
use crate::world::World;
use crate::world::alive_in;

verus! {

/// Chebyshev distance between two coordinates: the largest of the
/// componentwise absolute differences.
pub open spec fn chebyshev_distance(a: Coordinates, b: Coordinates) -> int {
    vstd::math::max(vstd::math::abs(a.x - b.x) as int, vstd::math::abs(a.y - b.y) as int)
}

/// The proximity predicate: a position other than `center` itself within
/// Chebyshev distance `radius` of it.
pub open spec fn near_pred(center: Coordinates, radius: int) -> spec_fn(Coordinates) -> bool {
    |p: Coordinates| p != center && chebyshev_distance(p, center) <= radius
}

/// The entries of `positions` other than `center` itself that lie within
/// Chebyshev distance `radius` of it, in index order.
pub open spec fn within_radius_spec(
    positions: Seq<Coordinates>,
    center: Coordinates,
    radius: int,
) -> Seq<Coordinates> {
    positions.filter(near_pred(center, radius))
}

/// A proximity structure answering "which tracked positions lie within
/// radius `r` of point `p`", excluding `p` itself.
pub struct SpatialIndex {
    pub positions: Vec<Coordinates>,
}

impl SpatialIndex {
    /// The tracked positions, in the world's slot order.
    pub open spec fn positions_seq(self) -> Seq<Coordinates> {
        self.positions@
    }

    /// Well-formedness: no position occurs twice.
    pub open spec fn wf(self) -> bool {
        forall|i: int, j: int|
            0 <= i < j < self.positions@.len() ==> self.positions@[i] != self.positions@[j]
    }

    /// Rebuild the index from the world's tracked coordinates.
    pub fn rebuild(world: &World) -> (idx: SpatialIndex)
        requires
            world.wf(),
        ensures
            idx.wf(),
            idx.positions_seq() == world.cells_seq().map_values(
                |p: (Coordinates, ConwayCell)| p.0,
            ),
    {
        let mut positions: Vec<Coordinates> = Vec::new();
        let mut i: usize = 0;
        let n = world.len();
        let ghost all = world.cells_seq().map_values(|p: (Coordinates, ConwayCell)| p.0);
        while i < n
            invariant
                world.wf(),
                n == world.cells_seq().len(),
                0 <= i <= n,
                all == world.cells_seq().map_values(|p: (Coordinates, ConwayCell)| p.0),
                positions@ =~= all.take(i as int),
            decreases n - i,
        {
            let pair = world.cell_at(i);
            positions.push(pair.0);
            proof {
                assert(all.take(i + 1int) =~= all.take(i as int).push(all[i as int]));
            }
            i += 1;
        }
        proof {
            assert(all.take(n as int) =~= all);
        }
        SpatialIndex { positions }
    }

    /// All tracked positions within Chebyshev distance `radius` of
    /// `center`, excluding `center` itself, in index order.
    pub fn within_radius(&self, center: Coordinates, radius: u64) -> (r: Vec<Coordinates>)
        ensures
            r@ == within_radius_spec(self.positions_seq(), center, radius as int),
    {
        broadcast use vstd::prelude::Seq::lemma_filter_push;

        let ghost pred = near_pred(center, radius as int);
        let mut r: Vec<Coordinates> = Vec::new();
        let mut i: usize = 0;
        while i < self.positions.len()
            invariant
                0 <= i <= self.positions@.len(),
                pred == near_pred(center, radius as int),
                r@ == self.positions@.take(i as int).filter(pred),
            decreases self.positions@.len() - i,
        {
            let p = self.positions[i];
            let dx: i128 = if p.x >= center.x {
                p.x as i128 - center.x as i128
            } else {
                center.x as i128 - p.x as i128
            };
            let dy: i128 = if p.y >= center.y {
                p.y as i128 - center.y as i128
            } else {
                center.y as i128 - p.y as i128
            };
            let dist: i128 = if dx >= dy {
                dx
            } else {
                dy
            };
            let near = (p.x != center.x || p.y != center.y) && dist <= radius as i128;
            proof {
                let prev = self.positions@.take(i as int);
                assert(dist == chebyshev_distance(p, center));
                assert(near == pred(p));
                assert(self.positions@.take(i + 1int) =~= prev.push(p));
                prev.lemma_filter_push(p, pred);
            }
            if near {
                r.push(p);
            }
            i += 1;
        }
        proof {
            assert(self.positions@.take(self.positions@.len() as int) =~= self.positions@);
        }
        r
    }
}

/// The predicate "the mapping tracks this coordinate with an Alive state".
pub open spec fn alive_pred(m: Map<Coordinates, CellState>) -> spec_fn(Coordinates) -> bool {
    |p: Coordinates| m.contains_key(p) && m[p] is Alive
}

/// The coordinates of a set that the mapping tracks with an Alive state.
pub open spec fn alive_coordinates(
    m: Map<Coordinates, CellState>,
    s: Set<Coordinates>,
) -> Set<Coordinates> {
    s.filter(alive_pred(m))
}

/// Filtering keeps a coordinate sequence duplicate-free.
proof fn lemma_filter_keeps_no_duplicates(s: Seq<Coordinates>, pred: spec_fn(Coordinates) -> bool)
    requires
        s.no_duplicates(),
    ensures
        s.filter(pred).no_duplicates(),
    decreases s.len(),
{
    broadcast use vstd::prelude::Seq::lemma_filter_push;

    if s.len() > 0 {
        let dl = s.drop_last();
        let last = s.last();
        assert(dl.no_duplicates());
        lemma_filter_keeps_no_duplicates(dl, pred);
        assert(s =~= dl.push(last));
        if pred(last) {
            assert(!dl.filter(pred).contains(last)) by {
                if dl.filter(pred).contains(last) {
                    let k = choose|k: int|
                        0 <= k < dl.filter(pred).len() && dl.filter(pred)[k] == last;
                    dl.lemma_filter_contains_rev(pred, last);
                    let i = choose|i: int| 0 <= i < dl.len() && dl[i] == last;
                    assert(s[i] == s[s.len() - 1]);
                }
            }
            assert(dl.filter(pred).push(last).no_duplicates());
        }
    }
}

/// For a duplicate-free coordinate sequence, the Alive count is the
/// cardinality of the Alive subset of its coordinates.
pub proof fn lemma_alive_in_as_set(m: Map<Coordinates, CellState>, s: Seq<Coordinates>)
    requires
        s.no_duplicates(),
    ensures
        alive_coordinates(m, s.to_set()).finite(),
        alive_in(m, s) == alive_coordinates(m, s.to_set()).len(),
    decreases s.len(),
{
    broadcast use vstd::set::group_set_axioms;
    broadcast use vstd::seq_lib::seq_to_set_is_finite;

    if s.len() == 0 {
        assert(s.to_set() =~= Set::<Coordinates>::empty());
        assert(alive_coordinates(m, s.to_set()) =~= Set::<Coordinates>::empty());
    } else {
        let dl = s.drop_last();
        let last = s.last();
        assert(dl.no_duplicates());
        lemma_alive_in_as_set(m, dl);
        assert(!dl.contains(last)) by {
            if dl.contains(last) {
                let i = choose|i: int| 0 <= i < dl.len() && dl[i] == last;
                assert(s[i] == s[s.len() - 1]);
            }
        }
        assert(s.to_set() =~= dl.to_set().insert(last)) by {
            assert forall|a: Coordinates| s.contains(a) <==> dl.contains(a) || a == last by {
                if s.contains(a) {
                    let i = choose|i: int| 0 <= i < s.len() && s[i] == a;
                    if i < s.len() - 1 {
                        assert(dl[i] == a);
                    }
                }
                if dl.contains(a) {
                    let i = choose|i: int| 0 <= i < dl.len() && dl[i] == a;
                    assert(s[i] == a);
                }
                if a == last {
                    assert(s[s.len() - 1] == a);
                }
            }
        }
        dl.to_set().lemma_len_filter(alive_pred(m));
        if alive_pred(m)(last) {
            assert(alive_coordinates(m, s.to_set()) =~= alive_coordinates(m, dl.to_set()).insert(
                last,
            ));
            assert(!alive_coordinates(m, dl.to_set()).contains(last));
        } else {
            assert(alive_coordinates(m, s.to_set()) =~= alive_coordinates(m, dl.to_set()));
        }
    }
}

/// The Moore-8 coordinates of an in-bounds cell are duplicate-free, and
/// as a set they are exactly the coordinates other than the cell's own
/// within Chebyshev distance 1 of it.
pub proof fn lemma_moore_neighborhood_set(c: Coordinates)
    requires
        coordinates_in_bounds(c),
    ensures
        neighbor_coordinates(c).no_duplicates(),
        neighbor_coordinates(c).to_set() == Set::new(near_pred(c, 1)),
{
    broadcast use vstd::set::group_set_axioms;

    let ns = neighbor_coordinates(c);
    assert(ns[0] == Coordinates { x: c.x, y: (c.y + 1) as i64 });
    assert(ns[1] == Coordinates { x: (c.x + 1) as i64, y: (c.y + 1) as i64 });
    assert(ns[2] == Coordinates { x: (c.x + 1) as i64, y: c.y });
    assert(ns[3] == Coordinates { x: (c.x + 1) as i64, y: (c.y - 1) as i64 });
    assert(ns[4] == Coordinates { x: c.x, y: (c.y - 1) as i64 });
    assert(ns[5] == Coordinates { x: (c.x - 1) as i64, y: (c.y - 1) as i64 });
    assert(ns[6] == Coordinates { x: (c.x - 1) as i64, y: c.y });
    assert(ns[7] == Coordinates { x: (c.x - 1) as i64, y: (c.y + 1) as i64 });
    assert(ns.no_duplicates());
    assert forall|p: Coordinates| ns.contains(p) <==> near_pred(c, 1)(p) by {
        if ns.contains(p) {
            let i = choose|i: int| 0 <= i < ns.len() && ns[i] == p;
            assert(near_pred(c, 1)(p));
        }
        if near_pred(c, 1)(p) {
            if p.x == c.x + 1 {
                if p.y == c.y + 1 {
                    assert(ns[1] == p);
                } else if p.y == c.y {
                    assert(ns[2] == p);
                } else {
                    assert(p.y == c.y - 1);
                    assert(ns[3] == p);
                }
            } else if p.x == c.x {
                if p.y == c.y + 1 {
                    assert(ns[0] == p);
                } else {
                    assert(p.y == c.y - 1);
                    assert(ns[4] == p);
                }
            } else {
                assert(p.x == c.x - 1);
                if p.y == c.y + 1 {
                    assert(ns[7] == p);
                } else if p.y == c.y {
                    assert(ns[6] == p);
                } else {
                    assert(p.y == c.y - 1);
                    assert(ns[5] == p);
                }
            }
            assert(ns.contains(p));
        }
    }
    assert(ns.to_set() =~= Set::new(near_pred(c, 1)));
}

/// Law: the proximity path agrees with the dense Moore-8 path. Against a
/// duplicate-free position set that matches the mapping's keys (an index
/// rebuilt from the same world the snapshot froze), a proximity query at
/// Chebyshev radius 1 yields the same living-neighbor count as exact
/// Moore-8 offset lookups.
pub proof fn lemma_proximity_matches_dense(
    m: Map<Coordinates, CellState>,
    positions: Seq<Coordinates>,
    c: Coordinates,
)
    requires
        positions.no_duplicates(),
        positions.to_set() == m.dom(),
        coordinates_in_bounds(c),
    ensures
        alive_in(m, within_radius_spec(positions, c, 1)) == alive_in(m, neighbor_coordinates(c)),
{
    broadcast use vstd::set::group_set_axioms;
    broadcast use vstd::seq_lib::group_filter_ensures;

    let wrs = within_radius_spec(positions, c, 1);
    let ns = neighbor_coordinates(c);
    lemma_filter_keeps_no_duplicates(positions, near_pred(c, 1));
    lemma_alive_in_as_set(m, wrs);
    lemma_moore_neighborhood_set(c);
    lemma_alive_in_as_set(m, ns);
    assert(wrs.to_set() =~= positions.to_set().filter(near_pred(c, 1))) by {
        assert forall|p: Coordinates|
            wrs.contains(p) <==> positions.contains(p) && near_pred(c, 1)(p) by {
            if wrs.contains(p) {
                let k = choose|k: int| 0 <= k < wrs.len() && wrs[k] == p;
                positions.lemma_filter_contains_rev(near_pred(c, 1), p);
                assert(near_pred(c, 1)(wrs[k]));
            }
            if positions.contains(p) && near_pred(c, 1)(p) {
                let i = choose|i: int| 0 <= i < positions.len() && positions[i] == p;
                positions.lemma_filter_contains(near_pred(c, 1), i);
            }
        }
    }
    assert(alive_coordinates(m, wrs.to_set()) =~= alive_coordinates(m, ns.to_set())) by {
        assert forall|p: Coordinates|
            alive_coordinates(m, wrs.to_set()).contains(p) <==> alive_coordinates(
                m,
                ns.to_set(),
            ).contains(p) by {
            assert(positions.to_set().contains(p) <==> m.dom().contains(p));
            assert(ns.to_set().contains(p) <==> near_pred(c, 1)(p));
        }
    }
}

} // verus!
