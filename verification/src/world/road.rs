pub mod intersection;
pub mod pathfinding;

use vstd::prelude::*;

use crate::chunk::chunk_tile_position::{
    lemma_index_injective, lemma_neighbours_len, CardinalDirection, TilePosition,
};
use crate::utils::vector::IVec3;
use crate::world::road::intersection::{ConnectedRoads, RoadIntersection};
use crate::world::tile_set::{holds_tile, TileSet};

verus! {

/// The set of tiles covered by roads.
#[derive(Clone, Debug)]
pub struct RoadTilesResource {
    pub tiles: TileSet,
}

/// The distance between two points of the road network, counted in tiles.
#[derive(Debug, Clone, Copy, PartialEq, Eq, Structural, Hash, PartialOrd, Ord)]
pub struct RoadEdge {
    pub distance: usize,
}

/// Keeps a tile if it is in the set.
pub open spec fn keep_if_in(set: Set<TilePosition>) -> spec_fn(TilePosition) -> Option<TilePosition> {
    |t: TilePosition|
        if set.contains(t) {
            Some(t)
        } else {
            None
        }
}

/// The eight neighbours of a tile, clockwise from north.
pub open spec fn all_neighbours(tile: TilePosition) -> Seq<TilePosition> {
    Seq::new(8, |i: int| tile.stepped(CardinalDirection::from_index(i)))
}

/// The eight directions, clockwise from north.
pub fn all_directions() -> (r: [CardinalDirection; 8])
    ensures
        forall|i: int| 0 <= i < 8 ==> #[trigger] r@[i] == CardinalDirection::from_index(i),
{
    [
        CardinalDirection::North,
        CardinalDirection::NorthEast,
        CardinalDirection::East,
        CardinalDirection::SouthEast,
        CardinalDirection::South,
        CardinalDirection::SouthWest,
        CardinalDirection::West,
        CardinalDirection::NorthWest,
    ]
}

impl RoadTilesResource {
    /// The road tiles.
    pub open spec fn view(&self) -> Set<TilePosition> {
        self.tiles@
    }

    /// Whether the set of road tiles is well formed.
    pub open spec fn wf(&self) -> bool {
        self.tiles.wf()
    }

    /// No road tiles.
    pub fn new() -> (r: RoadTilesResource)
        ensures
            r.wf(),
            r@ == Set::<TilePosition>::empty(),
    {
        RoadTilesResource { tiles: TileSet::new() }
    }

    /// The neighbours of a tile, clockwise from north, that are road tiles.
    pub fn get_neighbours(&self, tile: TilePosition) -> (r: Vec<TilePosition>)
        requires
            self.wf(),
            tile.neighbours_fit(),
        ensures
            r@ == all_neighbours(tile).filter_map(keep_if_in(self@)),
    {
        let neighbours = tile.tile_neighbours();
        let directions = all_directions();
        let ghost candidates = all_neighbours(tile);
        let ghost keep = keep_if_in(self@);
        let mut new_neighbours: Vec<TilePosition> = Vec::new();
        let mut i: usize = 0;
        while i < 8
            invariant
                i <= 8,
                self.wf(),
                candidates == all_neighbours(tile),
                keep == keep_if_in(self@),
                forall|d: CardinalDirection| #[trigger] neighbours.value(d) == tile.stepped(d),
                forall|j: int| 0 <= j < 8 ==> #[trigger] directions@[j] == CardinalDirection::from_index(j),
                new_neighbours@ == candidates.take(i as int).filter_map(keep),
            decreases 8 - i,
        {
            let neighbour = *neighbours.get(directions[i]);
            proof {
                candidates.lemma_filter_map_take_succ(keep, i as int);
                assert(candidates[i as int] == neighbour);
            }
            if self.tiles.contains(&neighbour) {
                new_neighbours.push(neighbour);
            }
            i = i + 1;
        }
        assert(candidates.take(8) =~= candidates);
        new_neighbours
    }
}


/// What the road tool does in one frame.
#[derive(Clone, Copy, Debug, PartialEq, Eq, Structural)]
pub struct RoadToolStep {
    /// The road's starting point after this frame, if one is chosen.
    pub starting_point: Option<TilePosition>,
    /// Whether the tile under the cursor is highlighted.
    pub highlight_cursor: bool,
    /// The starting point to highlight, if any.
    pub highlight_start: Option<TilePosition>,
    /// Whether the tiles of the planned road are highlighted.
    pub show_road: bool,
    /// The road to build, if one is.
    pub build: Option<RoadEnds>,
}

/// The first and the last tile of a road.
#[derive(Clone, Copy, Debug, PartialEq, Eq, Structural)]
pub struct RoadEnds {
    pub start: TilePosition,
    pub end: TilePosition,
}

/// A tile moved to the ground layer.
pub open spec fn on_ground_layer(t: TilePosition) -> TilePosition {
    TilePosition { position: IVec3 { x: t.position.x, y: 0, z: t.position.z } }
}

/// The road tool for one frame: `width` is the road width chosen with the tool, `cursor` the tile
/// under the cursor and `snapped` the tile where a road from the starting point towards the
/// cursor would end. A left click first picks the starting point, then builds the road to
/// `snapped` (unless that is the starting point itself), both ends moved to the ground layer; a
/// right click drops the starting point.
pub fn road_tool_step(
    is_road_tool: bool,
    width: u32,
    starting_point: Option<TilePosition>,
    cursor: TilePosition,
    snapped: TilePosition,
    left_click: bool,
    right_click: bool,
) -> (r: RoadToolStep)
    ensures
        !is_road_tool || width == 0 ==> r == (RoadToolStep {
            starting_point,
            highlight_cursor: false,
            highlight_start: None,
            show_road: false,
            build: None,
        }),
        is_road_tool && width > 0 && starting_point is None ==> r == (RoadToolStep {
            starting_point: if left_click { Some(cursor) } else { None },
            highlight_cursor: true,
            highlight_start: None,
            show_road: false,
            build: None,
        }),
        is_road_tool && width > 0 && starting_point is Some && right_click ==> r == (RoadToolStep {
            starting_point: None,
            highlight_cursor: true,
            highlight_start: starting_point,
            show_road: false,
            build: None,
        }),
        is_road_tool && width > 0 && starting_point is Some && !right_click ==> {
            let start = starting_point->0;
            let builds = left_click && start != snapped;
            r == (RoadToolStep {
                starting_point: if builds { None } else { starting_point },
                highlight_cursor: true,
                highlight_start: starting_point,
                show_road: true,
                build: if builds {
                    Some(RoadEnds { start: on_ground_layer(start), end: on_ground_layer(snapped) })
                } else {
                    None
                },
            })
        },
{
    if !is_road_tool || width == 0 {
        return RoadToolStep {
            starting_point,
            highlight_cursor: false,
            highlight_start: None,
            show_road: false,
            build: None,
        };
    }
    match starting_point {
        None => RoadToolStep {
            starting_point: if left_click { Some(cursor) } else { None },
            highlight_cursor: true,
            highlight_start: None,
            show_road: false,
            build: None,
        },
        Some(start) => {
            if right_click {
                RoadToolStep {
                    starting_point: None,
                    highlight_cursor: true,
                    highlight_start: starting_point,
                    show_road: false,
                    build: None,
                }
            } else if left_click && start != snapped {
                let mut first = start;
                first.position.y = 0;
                let mut last = snapped;
                last.position.y = 0;
                RoadToolStep {
                    starting_point: None,
                    highlight_cursor: true,
                    highlight_start: starting_point,
                    show_road: true,
                    build: Some(RoadEnds { start: first, end: last }),
                }
            } else {
                RoadToolStep {
                    starting_point,
                    highlight_cursor: true,
                    highlight_start: starting_point,
                    show_road: true,
                    build: None,
                }
            }
        },
    }
}

/// For each tile of a planned road, whether it collides with a road already built: it is a road
/// tile and not one of the `freed` tiles (those of the road's two ends, where roads may join).
pub fn road_tile_conflicts(road_tiles: &[TilePosition], occupied: &RoadTilesResource, freed: &[TilePosition]) -> (r: Vec<bool>)
    ensures
        r@.len() == road_tiles@.len(),
        forall|i: int| 0 <= i < r@.len() ==> #[trigger] r@[i] == (occupied@.contains(road_tiles@[i])
            && !freed@.contains(road_tiles@[i])),
{
    let mut conflicts: Vec<bool> = Vec::new();
    let mut i: usize = 0;
    while i < road_tiles.len()
        invariant
            i <= road_tiles@.len(),
            conflicts@.len() == i,
            forall|j: int| 0 <= j < i ==> #[trigger] conflicts@[j] == (occupied@.contains(road_tiles@[j])
                && !freed@.contains(road_tiles@[j])),
        decreases road_tiles@.len() - i,
    {
        let tile = road_tiles[i];
        let conflict = occupied.tiles.contains(&tile) && !holds_tile(freed, tile);
        conflicts.push(conflict);
        i = i + 1;
    }
    conflicts
}

impl RoadTilesResource {
    /// Adds the tiles of a new road.
    pub fn occupy(&mut self, tiles: &[TilePosition])
        requires
            old(self).wf(),
        ensures
            final(self).wf(),
            final(self)@ == old(self)@.union(tiles@.to_set()),
    {
        let mut i: usize = 0;
        while i < tiles.len()
            invariant
                i <= tiles@.len(),
                self.wf(),
                self@ == old(self)@.union(tiles@.take(i as int).to_set()),
            decreases tiles@.len() - i,
        {
            let ghost before = self@;
            self.tiles.insert(tiles[i]);
            proof {
                assert(tiles@.take(i + 1) == tiles@.take(i as int).push(tiles@[i as int]));
                tiles@.take(i as int).lemma_push_to_set_commute(tiles@[i as int]);
            }
            i = i + 1;
        }
        assert(tiles@.take(tiles@.len() as int) =~= tiles@);
    }
}

/// The intersections at the two ends of a new road `road` running from `start` to `end` in
/// `direction`, each `width` wide: at the start the road leaves in `direction`, at the end in
/// the opposite one (unless the end is the start).
pub fn road_end_intersections<E: Copy>(
    start: TilePosition,
    end: TilePosition,
    width: u32,
    direction: CardinalDirection,
    road: E,
) -> (r: [RoadIntersection<E>; 2])
    ensures
        r[0].position == start,
        r[1].position == end,
        r[0].size == width,
        r[1].size == width,
        r[0].mesh is None,
        r[1].mesh is None,
        forall|d: CardinalDirection| #[trigger] r[0].roads.0.value(d) == if d == direction {
            Some(road)
        } else {
            None
        },
        forall|d: CardinalDirection| #[trigger] r[1].roads.0.value(d) == if (end == start && d == direction)
            || (end != start && d == direction.rotated(4)) {
            Some(road)
        } else {
            None
        },
{
    let mut first = ConnectedRoads::new();
    let ghost empty = first;
    first.0.set(direction, Some(road));
    let mut second = ConnectedRoads::new();
    let ghost empty_too = second;
    if end == start {
        second.0.set(direction, Some(road));
    } else {
        second.0.set(core::ops::Neg::neg(direction), Some(road));
    }
    let at_start = RoadIntersection::new(start, width, first);
    let at_end = RoadIntersection::new(end, width, second);
    let r = [at_start, at_end];
    proof {
        assert(r[0] == at_start);
        assert(r[1] == at_end);
        assert forall|d: CardinalDirection| #[trigger] first.0.value(d) == if d == direction {
            Some(road)
        } else {
            None
        } by {
            lemma_index_injective(d, direction);
            lemma_neighbours_len(empty.0);
            assert(empty.0.value(d) is None);
        }
        assert forall|d: CardinalDirection| #[trigger] r[0].roads.0.value(d) == if d == direction {
            Some(road)
        } else {
            None
        } by {
            lemma_index_injective(d, direction);
        }
        assert forall|d: CardinalDirection| #[trigger] r[1].roads.0.value(d) == if (end == start && d == direction)
            || (end != start && d == direction.rotated(4)) {
            Some(road)
        } else {
            None
        } by {
            lemma_index_injective(d, direction);
            lemma_index_injective(d, direction.rotated(4));
            lemma_neighbours_len(empty_too.0);
            assert(empty_too.0.value(d) is None);
        }
    }
    r
}

/// Keeping the tiles of a prefix of `s` that lie in `set`: every such tile is kept, nothing is
/// kept when none lies in the set, and the first tile kept is the first of the prefix that lies
/// in the set.
pub proof fn lemma_kept_prefix(s: Seq<TilePosition>, set: Set<TilePosition>, j: int)
    requires
        0 <= j <= s.len(),
    ensures
        forall|i: int| #![trigger s[i]] 0 <= i < j && set.contains(s[i]) ==> s.take(j).filter_map(keep_if_in(set)).contains(s[i]),
        s.take(j).filter_map(keep_if_in(set)).len() > 0 ==> exists|k: int|
            #![trigger s[k]]
            0 <= k < j && set.contains(s[k]) && s.take(j).filter_map(keep_if_in(set))[0] == s[k]
                && forall|i: int| 0 <= i < k ==> !set.contains(#[trigger] s[i]),
    decreases j,
{
    let f = keep_if_in(set);
    if j > 0 {
        lemma_kept_prefix(s, set, j - 1);
        s.lemma_filter_map_take_succ(f, j - 1);
        let before = s.take(j - 1).filter_map(f);
        let after = s.take(j).filter_map(f);
        assert forall|i: int| #![trigger s[i]] 0 <= i < j && set.contains(s[i]) implies after.contains(s[i]) by {
            if i < j - 1 {
                let idx = choose|idx: int| 0 <= idx < before.len() && before[idx] == s[i];
                assert(after[idx] == s[i]);
            } else {
                assert(after[after.len() - 1] == s[i]);
            }
        }
        if after.len() > 0 {
            if before.len() > 0 {
                let k = choose|k: int|
                    #![trigger s[k]]
                    0 <= k < j - 1 && set.contains(s[k]) && before[0] == s[k]
                        && forall|i: int| 0 <= i < k ==> !set.contains(#[trigger] s[i]);
                assert(after[0] == s[k]);
            } else {
                assert forall|i: int| 0 <= i < j - 1 implies !set.contains(#[trigger] s[i]) by {
                    if set.contains(s[i]) {
                        assert(before.contains(s[i]));
                    }
                }
                assert(set.contains(s[j - 1]));
                assert(after[0] == s[j - 1]);
            }
        }
    }
}

/// The eight neighbours of a tile are the tile stepped in each direction, at the direction's
/// place on the compass.
pub proof fn lemma_all_neighbours_index(tile: TilePosition, d: CardinalDirection)
    ensures
        0 <= d.index() < 8,
        all_neighbours(tile)[d.index()] == tile.stepped(d),
        CardinalDirection::from_index(d.index()) == d,
{
}

} // verus!
