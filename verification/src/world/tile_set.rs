use vstd::prelude::*;

use crate::chunk::chunk_tile_position::TilePosition;

verus! {

/// A set of tiles, each kept once.
#[derive(Clone, Debug)]
pub struct TileSet {
    tiles: Vec<TilePosition>,
}

impl TileSet {
    /// Every tile is kept once.
    pub closed spec fn wf(&self) -> bool {
        self.tiles@.no_duplicates()
    }

    /// The tiles of the set.
    pub closed spec fn view(&self) -> Set<TilePosition> {
        self.tiles@.to_set()
    }

    /// No tiles.
    pub fn new() -> (r: TileSet)
        ensures
            r.wf(),
            r@ == Set::<TilePosition>::empty(),
    {
        let r = TileSet { tiles: Vec::new() };
        assert(r@ =~= Set::<TilePosition>::empty());
        r
    }

    /// Number of tiles.
    pub fn len(&self) -> (r: usize)
        requires
            self.wf(),
        ensures
            r == self@.len(),
    {
        proof {
            self.tiles@.unique_seq_to_set();
        }
        self.tiles.len()
    }

    /// Whether the set holds a tile.
    pub fn contains(&self, tile: &TilePosition) -> (r: bool)
        ensures
            r == self@.contains(*tile),
    {
        let mut i: usize = 0;
        while i < self.tiles.len()
            invariant
                i <= self.tiles@.len(),
                forall|j: int| 0 <= j < i ==> self.tiles@[j] != *tile,
            decreases self.tiles@.len() - i,
        {
            if self.tiles[i] == *tile {
                assert(self.tiles@.contains(*tile));
                return true;
            }
            i = i + 1;
        }
        false
    }

    /// Adds a tile; returns whether it was not in the set before.
    pub fn insert(&mut self, tile: TilePosition) -> (r: bool)
        requires
            old(self).wf(),
        ensures
            final(self).wf(),
            r == !old(self)@.contains(tile),
            final(self)@ == old(self)@.insert(tile),
    {
        if self.contains(&tile) {
            assert(self@ =~= self@.insert(tile));
            false
        } else {
            let ghost before = self.tiles@;
            self.tiles.push(tile);
            assert(self.tiles@.no_duplicates()) by {
                assert(forall|j: int| 0 <= j < before.len() ==> before[j] != tile);
            }
            assert(self.tiles@.to_set() =~= before.to_set().insert(tile)) by {
                assert forall|t: TilePosition| #[trigger] self.tiles@.contains(t) <==> (before.contains(t) || t == tile) by {
                    if self.tiles@.contains(t) {
                        let j = choose|j: int| 0 <= j < self.tiles@.len() && self.tiles@[j] == t;
                        if j < before.len() {
                            assert(before[j] == t);
                        }
                    }
                    if before.contains(t) {
                        let j = choose|j: int| 0 <= j < before.len() && before[j] == t;
                        assert(self.tiles@[j] == t);
                    }
                    if t == tile {
                        assert(self.tiles@[before.len() as int] == t);
                    }
                }
            }
            true
        }
    }

    /// Whether every tile of the set lies away from the ends of the `i32` range, so that all its
    /// neighbours can be computed.
    pub fn neighbours_fit(&self) -> (r: bool)
        ensures
            r == forall|t: TilePosition| #[trigger] self@.contains(t) ==> t.neighbours_fit(),
    {
        let mut i: usize = 0;
        while i < self.tiles.len()
            invariant
                i <= self.tiles@.len(),
                forall|j: int| 0 <= j < i ==> (#[trigger] self.tiles@[j]).neighbours_fit(),
            decreases self.tiles@.len() - i,
        {
            let t = self.tiles[i];
            if !(i32::MIN < t.position.x && t.position.x < i32::MAX && i32::MIN < t.position.z && t.position.z < i32::MAX) {
                assert(self@.contains(t)) by {
                    assert(self.tiles@[i as int] == t);
                }
                return false;
            }
            i = i + 1;
        }
        proof {
            assert forall|t: TilePosition| #[trigger] self@.contains(t) implies t.neighbours_fit() by {
                let j = choose|j: int| 0 <= j < self.tiles@.len() && self.tiles@[j] == t;
            }
        }
        true
    }

    /// Removes a tile; returns whether it was in the set.
    pub fn remove(&mut self, tile: &TilePosition) -> (r: bool)
        requires
            old(self).wf(),
        ensures
            final(self).wf(),
            r == old(self)@.contains(*tile),
            final(self)@ == old(self)@.remove(*tile),
    {
        let mut i: usize = 0;
        while i < self.tiles.len()
            invariant
                self.tiles@ == old(self).tiles@,
                self.wf(),
                i <= self.tiles@.len(),
                forall|j: int| 0 <= j < i ==> self.tiles@[j] != *tile,
            decreases self.tiles@.len() - i,
        {
            if self.tiles[i] == *tile {
                let ghost before = self.tiles@;
                assert(before.contains(*tile));
                self.tiles.remove(i);
                assert(self.tiles@ =~= before.remove(i as int));
                assert(self.tiles@.no_duplicates()) by {
                    assert forall|a: int, b: int|
                        0 <= a < self.tiles@.len() && 0 <= b < self.tiles@.len() && a != b implies
                        self.tiles@[a] != self.tiles@[b] by {
                        let a0 = if a < i { a } else { a + 1 };
                        let b0 = if b < i { b } else { b + 1 };
                        assert(self.tiles@[a] == before[a0]);
                        assert(self.tiles@[b] == before[b0]);
                    }
                }
                assert(self.tiles@.to_set() =~= before.to_set().remove(*tile)) by {
                    assert forall|t: TilePosition| #[trigger] self.tiles@.contains(t) <==> (before.contains(t) && t != *tile) by {
                        if self.tiles@.contains(t) {
                            let j = choose|j: int| 0 <= j < self.tiles@.len() && self.tiles@[j] == t;
                            let j0 = if j < i { j } else { j + 1 };
                            assert(before[j0] == t);
                            assert(j0 != i);
                        }
                        if before.contains(t) && t != *tile {
                            let j = choose|j: int| 0 <= j < before.len() && before[j] == t;
                            assert(j != i);
                            if j < i {
                                assert(self.tiles@[j] == t);
                            } else {
                                assert(self.tiles@[j - 1] == t);
                            }
                        }
                    }
                }
                return true;
            }
            i = i + 1;
        }
        assert(self@ =~= self@.remove(*tile));
        false
    }
}

/// Whether a list of tiles holds a given one.
pub fn holds_tile(tiles: &[TilePosition], tile: TilePosition) -> (r: bool)
    ensures
        r == tiles@.contains(tile),
{
    let mut i: usize = 0;
    while i < tiles.len()
        invariant
            i <= tiles@.len(),
            forall|j: int| 0 <= j < i ==> tiles@[j] != tile,
        decreases tiles@.len() - i,
    {
        if tiles[i] == tile {
            assert(tiles@[i as int] == tile);
            return true;
        }
        i = i + 1;
    }
    false
}

} // verus!
