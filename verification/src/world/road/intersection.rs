use vstd::prelude::*;

use crate::chunk::chunk_tile_position::{lemma_neighbours_len, CardinalDirection, Neighbours, TilePosition};
use crate::world::road::all_directions;

verus! {

/// For each direction, the road (identified by `E`) that leaves an intersection that way, if any.
#[derive(Clone, Copy, Debug, PartialEq, Eq, Hash)]
pub struct ConnectedRoads<E>(pub Neighbours<Option<E>>);

/// Where roads meet: the tile, how wide the meeting area is, the roads, and the mesh drawn for it
/// once there is one.
#[derive(Clone, Copy, Debug, PartialEq, Eq, Hash)]
pub struct RoadIntersection<E> {
    pub position: TilePosition,
    pub size: u32,
    pub roads: ConnectedRoads<E>,
    pub mesh: Option<E>,
}

/// The road a direction keeps after merging: the new one where there is one, the old one
/// otherwise.
pub open spec fn merged_road<E>(old_road: Option<E>, new_road: Option<E>) -> Option<E> {
    match new_road {
        Some(r) => Some(r),
        None => old_road,
    }
}

impl<E: Copy> ConnectedRoads<E> {
    /// No roads in any direction.
    pub fn new() -> (r: ConnectedRoads<E>)
        ensures
            forall|d: CardinalDirection| #[trigger] r.0.value(d) is None,
    {
        ConnectedRoads(Neighbours::new([None, None, None, None, None, None, None, None]))
    }

    /// These roads, replaced in each direction where `other` has a road.
    pub fn merged_with(&self, other: &ConnectedRoads<E>) -> (r: ConnectedRoads<E>)
        ensures
            forall|d: CardinalDirection| #[trigger] r.0.value(d) == merged_road(self.0.value(d), other.0.value(d)),
    {
        let directions = all_directions();
        let mut merged = *self;
        let mut i: usize = 0;
        while i < 8
            invariant
                i <= 8,
                forall|j: int| 0 <= j < 8 ==> #[trigger] directions@[j] == CardinalDirection::from_index(j),
                forall|d: CardinalDirection| #[trigger] merged.0.value(d) == if d.index() < i {
                    merged_road(self.0.value(d), other.0.value(d))
                } else {
                    self.0.value(d)
                },
            decreases 8 - i,
        {
            let d = directions[i];
            assert(d.index() == i);
            proof {
                lemma_neighbours_len(merged.0);
            }
            let ghost before = merged;
            if let Some(road) = *other.0.get(d) {
                merged.0.set(d, Some(road));
            }
            assert forall|d2: CardinalDirection| #[trigger] merged.0.value(d2) == if d2.index() < i + 1 {
                merged_road(self.0.value(d2), other.0.value(d2))
            } else {
                self.0.value(d2)
            } by {
                if d2.index() == i {
                    assert(d2 == d);
                } else {
                    assert(merged.0.value(d2) == before.0.value(d2));
                }
            }
            i = i + 1;
        }
        merged
    }

    /// The roads that leave the intersection, clockwise from north, with their directions.
    pub fn connected(&self) -> (r: Vec<(CardinalDirection, E)>)
        ensures
            forall|k: int| 0 <= k < r@.len() ==> #[trigger] self.0.value(r@[k].0) == Some(r@[k].1),
            forall|d: CardinalDirection|
                (#[trigger] self.0.value(d)) is Some ==> exists|k: int| 0 <= k < r@.len() && r@[k].0 == d,
            forall|k1: int, k2: int| 0 <= k1 < k2 < r@.len() ==> r@[k1].0.index() < r@[k2].0.index(),
    {
        let directions = all_directions();
        let mut result: Vec<(CardinalDirection, E)> = Vec::new();
        let mut i: usize = 0;
        while i < 8
            invariant
                i <= 8,
                forall|j: int| 0 <= j < 8 ==> #[trigger] directions@[j] == CardinalDirection::from_index(j),
                forall|k: int| 0 <= k < result@.len() ==> #[trigger] self.0.value(result@[k].0) == Some(result@[k].1),
                forall|k: int| 0 <= k < result@.len() ==> #[trigger] result@[k].0.index() < i,
                forall|d: CardinalDirection|
                    (#[trigger] self.0.value(d)) is Some && d.index() < i ==> exists|k: int| 0 <= k < result@.len() && result@[k].0 == d,
                forall|k1: int, k2: int| 0 <= k1 < k2 < result@.len() ==> result@[k1].0.index() < result@[k2].0.index(),
            decreases 8 - i,
        {
            let d = directions[i];
            assert(d.index() == i);
            let ghost before = result@;
            if let Some(road) = *self.0.get(d) {
                result.push((d, road));
                assert(result@[result@.len() - 1].0 == d);
            }
            assert forall|d2: CardinalDirection|
                (#[trigger] self.0.value(d2)) is Some && d2.index() < i + 1 implies exists|k: int| 0 <= k < result@.len() && result@[k].0 == d2 by {
                if d2.index() < i {
                    let k = choose|k: int| 0 <= k < before.len() && before[k].0 == d2;
                    assert(result@[k] == before[k]);
                } else {
                    assert(d2 == d);
                    assert(result@[result@.len() - 1].0 == d2);
                }
            }
            i = i + 1;
        }
        result
    }
}

impl<E: Copy> RoadIntersection<E> {
    /// An intersection on a tile, of the given size, joining the given roads, not drawn yet.
    pub fn new(position: TilePosition, size: u32, roads: ConnectedRoads<E>) -> (r: RoadIntersection<E>)
        ensures
            r.position == position,
            r.size == size,
            r.roads == roads,
            r.mesh is None,
    {
        RoadIntersection { position, size, roads, mesh: None }
    }

    /// The tile the roads meet on.
    pub fn position(&self) -> (r: TilePosition)
        ensures
            r == self.position,
    {
        self.position
    }

    /// The mesh drawn for the intersection, if any.
    pub fn mesh(&self) -> (r: Option<E>)
        ensures
            r == self.mesh,
    {
        self.mesh
    }

    /// Records the mesh drawn for the intersection.
    pub fn set_mesh(&mut self, mesh: E)
        ensures
            final(self).mesh == Some(mesh),
            final(self).position == old(self).position,
            final(self).size == old(self).size,
            final(self).roads == old(self).roads,
    {
        self.mesh = Some(mesh);
    }

    /// An intersection spawned where one already exists: the existing one, with the new
    /// intersection's roads added (replacing any in the same direction), the larger of the two
    /// sizes, and no mesh so that it is drawn again.
    pub fn merged_with(&self, incoming: &RoadIntersection<E>) -> (r: RoadIntersection<E>)
        ensures
            r.position == self.position,
            r.size == if self.size >= incoming.size {
                self.size
            } else {
                incoming.size
            },
            forall|d: CardinalDirection| #[trigger] r.roads.0.value(d) == merged_road(
                self.roads.0.value(d),
                incoming.roads.0.value(d),
            ),
            r.mesh is None,
    {
        let size = if self.size >= incoming.size {
            self.size
        } else {
            incoming.size
        };
        RoadIntersection {
            position: self.position,
            size,
            roads: self.roads.merged_with(&incoming.roads),
            mesh: None,
        }
    }
}

/// Whether an intersection only joins two roads that continue each other: exactly two roads,
/// running in the same direction with the same width. Such an intersection is removed and its
/// two roads are joined into one.
pub fn is_redundant_intersection(roads: &Vec<(CardinalDirection, u32)>) -> (r: bool)
    ensures
        r == (roads@.len() == 2 && roads@[0].0 == roads@[1].0 && roads@[0].1 == roads@[1].1),
{
    roads.len() == 2 && roads[0].0 == roads[1].0 && roads[0].1 == roads[1].1
}

/// Whether an intersection placed on `position` cuts a road in two: the tile lies on the road's
/// centre line, `center_line`, other than at its first or last tile (where intersections stand
/// already).
pub fn splits_road(center_line: &[TilePosition], position: TilePosition) -> (r: bool)
    ensures
        r == exists|i: int| 1 <= i < center_line@.len() - 1 && center_line@[i] == position,
{
    let n = center_line.len();
    if n < 3 {
        return false;
    }
    let mut i: usize = 1;
    while i < n - 1
        invariant
            n == center_line@.len(),
            n >= 3,
            1 <= i <= n - 1,
            forall|j: int| 1 <= j < i ==> center_line@[j] != position,
        decreases n - 1 - i,
    {
        if center_line[i] == position {
            return true;
        }
        i = i + 1;
    }
    false
}

/// Merging roads into an intersection never loses a road: every direction that had a road, or
/// receives one, has one afterwards, and merging the same roads twice changes nothing more.
pub proof fn law_merge_keeps_roads<E>(old_road: Option<E>, new_road: Option<E>)
    ensures
        (old_road is Some || new_road is Some) ==> merged_road(old_road, new_road) is Some,
        merged_road(merged_road(old_road, new_road), new_road) == merged_road(old_road, new_road),
{
}


/// The intersections of the road network, at most one per tile.
#[derive(Clone, Debug)]
pub struct RoadIntersectionsResource<E> {
    intersections: Vec<RoadIntersection<E>>,
}

impl<E: Copy> RoadIntersectionsResource<E> {
    /// No two intersections stand on the same tile.
    pub closed spec fn wf(&self) -> bool {
        forall|i: int, j: int|
            0 <= i < j < self.intersections@.len() ==> #[trigger] self.intersections@[i].position
                != #[trigger] self.intersections@[j].position
    }

    /// The intersections by the tile they stand on.
    pub closed spec fn view(&self) -> Map<TilePosition, RoadIntersection<E>> {
        Map::new(
            |t: TilePosition| exists|i: int| 0 <= i < self.intersections@.len() && self.intersections@[i].position == t,
            |t: TilePosition| {
                let i = choose|i: int| 0 <= i < self.intersections@.len() && self.intersections@[i].position == t;
                self.intersections@[i]
            },
        )
    }

    /// Every stored intersection is found under its own tile.
    proof fn lemma_view_at(&self, i: int)
        requires
            self.wf(),
            0 <= i < self.intersections@.len(),
        ensures
            self@.contains_key(self.intersections@[i].position),
            self@[self.intersections@[i].position] == self.intersections@[i],
    {
        let t = self.intersections@[i].position;
        assert(self@.dom().contains(t));
        let k = choose|k: int| 0 <= k < self.intersections@.len() && self.intersections@[k].position == t;
        if k != i {
            if k < i {
                assert(self.intersections@[k].position != self.intersections@[i].position);
            } else {
                assert(self.intersections@[i].position != self.intersections@[k].position);
            }
        }
    }

    /// No intersections.
    pub fn new() -> (r: RoadIntersectionsResource<E>)
        ensures
            r.wf(),
            r@ == Map::<TilePosition, RoadIntersection<E>>::empty(),
    {
        let r = RoadIntersectionsResource { intersections: Vec::new() };
        assert(r@ =~= Map::<TilePosition, RoadIntersection<E>>::empty());
        r
    }

    /// Where the intersection on a tile is stored, if there is one.
    fn find(&self, position: &TilePosition) -> (r: Option<usize>)
        requires
            self.wf(),
        ensures
            match r {
                Some(i) => i < self.intersections@.len() && self.intersections@[i as int].position == *position,
                None => !self@.contains_key(*position),
            },
    {
        let mut i: usize = 0;
        while i < self.intersections.len()
            invariant
                i <= self.intersections@.len(),
                forall|j: int| 0 <= j < i ==> self.intersections@[j].position != *position,
            decreases self.intersections@.len() - i,
        {
            if self.intersections[i].position == *position {
                return Some(i);
            }
            i = i + 1;
        }
        None
    }

    /// Whether an intersection stands on a tile.
    pub fn contains_key(&self, position: &TilePosition) -> (r: bool)
        requires
            self.wf(),
        ensures
            r == self@.contains_key(*position),
    {
        match self.find(position) {
            Some(i) => {
                proof {
                    self.lemma_view_at(i as int);
                }
                true
            },
            None => false,
        }
    }

    /// Whether an intersection stands on any of the tiles of a wide tile.
    pub fn contains_wide_tile(&self, tiles: &[TilePosition]) -> (r: bool)
        requires
            self.wf(),
        ensures
            r == exists|i: int| 0 <= i < tiles@.len() && self@.contains_key(#[trigger] tiles@[i]),
    {
        let mut i: usize = 0;
        while i < tiles.len()
            invariant
                self.wf(),
                i <= tiles@.len(),
                forall|j: int| 0 <= j < i ==> !self@.contains_key(#[trigger] tiles@[j]),
            decreases tiles@.len() - i,
        {
            if self.contains_key(&tiles[i]) {
                return true;
            }
            i = i + 1;
        }
        false
    }

    /// The intersection on a tile, if any.
    pub fn get(&self, position: &TilePosition) -> (r: Option<RoadIntersection<E>>)
        requires
            self.wf(),
        ensures
            r == if self@.contains_key(*position) {
                Some(self@[*position])
            } else {
                None
            },
    {
        match self.find(position) {
            Some(i) => {
                proof {
                    self.lemma_view_at(i as int);
                }
                Some(self.intersections[i])
            },
            None => None,
        }
    }

    /// Places an intersection on its tile, replacing any intersection there.
    pub fn insert(&mut self, intersection: RoadIntersection<E>)
        requires
            old(self).wf(),
        ensures
            final(self).wf(),
            final(self)@ == old(self)@.insert(intersection.position, intersection),
    {
        let ghost before = *self;
        match self.find(&intersection.position) {
            Some(i) => {
                self.intersections.set(i, intersection);
                proof {
                    assert forall|t: TilePosition| #[trigger] self@.dom().contains(t) == before@.insert(intersection.position, intersection).dom().contains(t) by {
                        if before@.dom().contains(t) {
                            let k = choose|k: int| 0 <= k < before.intersections@.len() && before.intersections@[k].position == t;
                            assert(self.intersections@[k].position == t);
                        }
                        if self@.dom().contains(t) {
                            let k = choose|k: int| 0 <= k < self.intersections@.len() && self.intersections@[k].position == t;
                            assert(before.intersections@[k].position == t);
                        }
                    }
                    assert forall|t: TilePosition| #[trigger] self@.dom().contains(t) implies self@[t] == before@.insert(intersection.position, intersection)[t] by {
                        let k = choose|k: int| 0 <= k < self.intersections@.len() && self.intersections@[k].position == t;
                        self.lemma_view_at(k);
                        if k != i {
                            before.lemma_view_at(k);
                        }
                    }
                    assert(self@ =~= before@.insert(intersection.position, intersection));
                }
            },
            None => {
                self.intersections.push(intersection);
                proof {
                    let n = before.intersections@.len() as int;
                    assert forall|t: TilePosition| #[trigger] self@.dom().contains(t) == before@.insert(intersection.position, intersection).dom().contains(t) by {
                        if before@.dom().contains(t) {
                            let k = choose|k: int| 0 <= k < before.intersections@.len() && before.intersections@[k].position == t;
                            assert(self.intersections@[k].position == t);
                        }
                        if t == intersection.position {
                            assert(self.intersections@[n].position == t);
                        }
                        if self@.dom().contains(t) {
                            let k = choose|k: int| 0 <= k < self.intersections@.len() && self.intersections@[k].position == t;
                            if k < n {
                                assert(before.intersections@[k].position == t);
                            }
                        }
                    }
                    assert forall|t: TilePosition| #[trigger] self@.dom().contains(t) implies self@[t] == before@.insert(intersection.position, intersection)[t] by {
                        let k = choose|k: int| 0 <= k < self.intersections@.len() && self.intersections@[k].position == t;
                        self.lemma_view_at(k);
                        if k < n {
                            before.lemma_view_at(k);
                        }
                    }
                    assert(self@ =~= before@.insert(intersection.position, intersection));
                }
            },
        }
    }

    /// Takes the intersection off a tile, if there is one.
    pub fn remove(&mut self, position: &TilePosition)
        requires
            old(self).wf(),
        ensures
            final(self).wf(),
            final(self)@ == old(self)@.remove(*position),
    {
        let ghost before = *self;
        match self.find(position) {
            Some(i) => {
                self.intersections.remove(i);
                proof {
                    let old_seq = before.intersections@;
                    assert(self.intersections@ == old_seq.remove(i as int));
                    assert forall|a: int, b: int| 0 <= a < b < self.intersections@.len() implies #[trigger] self.intersections@[a].position
                        != #[trigger] self.intersections@[b].position by {
                        let a0 = if a < i { a } else { a + 1 };
                        let b0 = if b < i { b } else { b + 1 };
                        assert(old_seq[a0].position != old_seq[b0].position);
                    }
                    assert forall|t: TilePosition| #[trigger] self@.dom().contains(t) == before@.remove(*position).dom().contains(t) by {
                        if before@.dom().contains(t) && t != *position {
                            let k = choose|k: int| 0 <= k < old_seq.len() && old_seq[k].position == t;
                            if k < i {
                                assert(self.intersections@[k].position == t);
                            } else {
                                assert(k != i);
                                assert(self.intersections@[k - 1].position == t);
                            }
                        }
                        if self@.dom().contains(t) {
                            let k = choose|k: int| 0 <= k < self.intersections@.len() && self.intersections@[k].position == t;
                            let k0 = if k < i { k } else { k + 1 };
                            assert(old_seq[k0].position == t);
                            assert(k0 != i as int);
                            if k0 < i {
                                assert(old_seq[k0].position != old_seq[i as int].position);
                            } else {
                                assert(old_seq[i as int].position != old_seq[k0].position);
                            }
                        }
                    }
                    assert forall|t: TilePosition| #[trigger] self@.dom().contains(t) implies self@[t] == before@.remove(*position)[t] by {
                        let k = choose|k: int| 0 <= k < self.intersections@.len() && self.intersections@[k].position == t;
                        self.lemma_view_at(k);
                        let k0 = if k < i { k } else { k + 1 };
                        before.lemma_view_at(k0);
                    }
                    assert(self@ =~= before@.remove(*position));
                }
            },
            None => {
                assert(self@ =~= before@.remove(*position));
            },
        }
    }

    /// Records a newly spawned intersection: where one already stands on the tile, the incoming
    /// roads are added to it (see [`RoadIntersection::merged_with`]); otherwise the incoming
    /// intersection is placed as it is. Returns the intersection now on the tile.
    pub fn spawn(&mut self, incoming: RoadIntersection<E>) -> (r: RoadIntersection<E>)
        requires
            old(self).wf(),
        ensures
            final(self).wf(),
            final(self)@ == old(self)@.insert(incoming.position, r),
            r.position == incoming.position,
            !old(self)@.contains_key(incoming.position) ==> r == incoming,
            old(self)@.contains_key(incoming.position) ==> {
                let existing = old(self)@[incoming.position];
                &&& r.size == if existing.size >= incoming.size {
                    existing.size
                } else {
                    incoming.size
                }
                &&& forall|d: CardinalDirection| #[trigger] r.roads.0.value(d) == merged_road(
                    existing.roads.0.value(d),
                    incoming.roads.0.value(d),
                )
                &&& r.mesh is None
            },
    {
        let intersection = match self.get(&incoming.position) {
            Some(existing) => existing.merged_with(&incoming),
            None => incoming,
        };
        self.insert(intersection);
        intersection
    }

    /// The tiles intersections stand on.
    pub fn positions(&self) -> (r: Vec<TilePosition>)
        requires
            self.wf(),
        ensures
            r@.no_duplicates(),
            forall|t: TilePosition| #[trigger] r@.contains(t) == self@.contains_key(t),
    {
        let mut r: Vec<TilePosition> = Vec::new();
        let mut i: usize = 0;
        while i < self.intersections.len()
            invariant
                self.wf(),
                i <= self.intersections@.len(),
                r@.len() == i,
                forall|j: int| 0 <= j < i ==> #[trigger] r@[j] == self.intersections@[j].position,
            decreases self.intersections@.len() - i,
        {
            r.push(self.intersections[i].position);
            i = i + 1;
        }
        proof {
            assert forall|t: TilePosition| #[trigger] r@.contains(t) == self@.contains_key(t) by {
                if r@.contains(t) {
                    let k = choose|k: int| 0 <= k < r@.len() && r@[k] == t;
                    self.lemma_view_at(k);
                }
                if self@.contains_key(t) {
                    let k = choose|k: int| 0 <= k < self.intersections@.len() && self.intersections@[k].position == t;
                    assert(r@[k] == t);
                }
            }
            assert forall|a: int, b: int| 0 <= a < r@.len() && 0 <= b < r@.len() && a != b implies r@[a] != r@[b] by {
                if a < b {
                    assert(self.intersections@[a].position != self.intersections@[b].position);
                } else {
                    assert(self.intersections@[b].position != self.intersections@[a].position);
                }
            }
        }
        r
    }
}
} // verus!
