use vstd::prelude::*;

use crate::chunk::chunk_tile_position::{CardinalDirection, TilePosition};
use crate::utils::vector::IVec3;
use crate::world::resources::{Inventory, InventoryStorage, InventoryType};
use crate::world::road::{
    all_neighbours, keep_if_in, lemma_all_neighbours_index, lemma_kept_prefix, RoadTilesResource,
};
use crate::world::tile_set::TileSet;
use crate::world::tools::ToolType;

verus! {

/// The tiles covered by buildings.
#[derive(Clone, Debug)]
pub struct OccupiedBuildingTiles {
    pub tiles: TileSet,
}

/// Where a building stands.
#[derive(Clone, Copy, Debug, PartialEq, Eq, Structural)]
pub struct BuildingPosition {
    pub position: TilePosition,
}

/// The road tile a building is entered from.
#[derive(Clone, Copy, Debug, PartialEq, Eq, Structural)]
pub struct BuildingEntrance {
    pub position: TilePosition,
}

/// A route still to be found between two tiles.
#[derive(Clone, Copy, Debug, PartialEq, Eq, Structural)]
pub struct NeedsPathFinding {
    pub start: TilePosition,
    pub end: TilePosition,
}

/// The kinds of buildings the player can build.
#[derive(Clone, Copy, Debug, PartialEq, Eq, Structural)]
pub enum BuildingKind {
    Residential,
    Commercial,
}

/// A building the player placed: what it is, where it stands, where it is entered and what it
/// holds when it appears.
#[derive(Clone, Copy, Debug, PartialEq, Eq)]
pub struct BuildingPlan {
    pub kind: BuildingKind,
    pub position: BuildingPosition,
    pub entrance: BuildingEntrance,
    pub inventory: Inventory,
}

impl OccupiedBuildingTiles {
    /// The tiles covered by buildings.
    pub open spec fn view(&self) -> Set<TilePosition> {
        self.tiles@
    }

    /// Whether the set of building tiles is well formed.
    pub open spec fn wf(&self) -> bool {
        self.tiles.wf()
    }

    /// No building tiles.
    pub fn new() -> (r: OccupiedBuildingTiles)
        ensures
            r.wf(),
            r@ == Set::<TilePosition>::empty(),
    {
        OccupiedBuildingTiles { tiles: TileSet::new() }
    }
}

/// The entrance of a building: its first neighbour, clockwise from north, that is a road tile.
pub open spec fn spec_entrance_tile(building_position: TilePosition, roads: Set<TilePosition>) -> Option<TilePosition> {
    let found = all_neighbours(building_position).filter_map(keep_if_in(roads));
    if found.len() > 0 {
        Some(found[0])
    } else {
        None
    }
}

/// The first neighbour of a building's tile, clockwise from north, that is a road tile.
pub fn find_entrance_tile(building_position: TilePosition, occupied_road_tiles: &RoadTilesResource) -> (r: Option<TilePosition>)
    requires
        occupied_road_tiles.wf(),
        building_position.neighbours_fit(),
    ensures
        r == spec_entrance_tile(building_position, occupied_road_tiles@),
{
    let neighbours = occupied_road_tiles.get_neighbours(building_position);
    if neighbours.len() > 0 {
        Some(neighbours[0])
    } else {
        None
    }
}

/// The kind of building a tool builds, if it builds one.
pub open spec fn tool_building_kind(tool: ToolType) -> Option<BuildingKind> {
    match tool {
        ToolType::BuildResidentialBuilding => Some(BuildingKind::Residential),
        ToolType::BuildCommercialBuilding => Some(BuildingKind::Commercial),
        _ => None,
    }
}

/// The tile on the ground layer below or above a tile.
pub open spec fn on_ground(tile: TilePosition) -> TilePosition {
    TilePosition { position: IVec3 { x: tile.position.x, y: 0, z: tile.position.z } }
}

/// What a new building of a kind holds: homes start with one of ten people, shops empty.
pub open spec fn starting_people(kind: BuildingKind) -> InventoryStorage {
    match kind {
        BuildingKind::Residential => InventoryStorage { current: 1, max: 10 },
        BuildingKind::Commercial => InventoryStorage { current: 0, max: 0 },
    }
}

/// Places a building with the current tool on the clicked tile, taken on the ground layer. Nothing
/// is built when the tool builds no building, when no neighbour of the tile is a road tile, or
/// when the tile already holds a road or a building; otherwise the tile is marked as built on.
pub fn plan_building(
    tool: ToolType,
    tile: TilePosition,
    occupied_road_tiles: &RoadTilesResource,
    occupied_building_tiles: &mut OccupiedBuildingTiles,
) -> (r: Option<BuildingPlan>)
    requires
        occupied_road_tiles.wf(),
        old(occupied_building_tiles).wf(),
        tile.neighbours_fit(),
    ensures
        final(occupied_building_tiles).wf(),
        ({
            let ground = on_ground(tile);
            let buildable = tool_building_kind(tool) is Some
                && spec_entrance_tile(ground, occupied_road_tiles@) is Some
                && !occupied_road_tiles@.contains(ground)
                && !old(occupied_building_tiles)@.contains(ground);
            &&& buildable ==> final(occupied_building_tiles)@ == old(occupied_building_tiles)@.insert(ground)
            &&& !buildable ==> final(occupied_building_tiles)@ == old(occupied_building_tiles)@
            &&& match r {
                Some(plan) => buildable
                    && plan.kind == tool_building_kind(tool).unwrap()
                    && plan.position.position == ground
                    && plan.entrance.position == spec_entrance_tile(ground, occupied_road_tiles@).unwrap()
                    && plan.inventory.storage(InventoryType::People) == starting_people(plan.kind),
                None => !buildable,
            }
        }),
{
    let kind = match tool {
        ToolType::BuildResidentialBuilding => BuildingKind::Residential,
        ToolType::BuildCommercialBuilding => BuildingKind::Commercial,
        _ => {
            return None;
        },
    };
    let mut ground = tile;
    ground.position.y = 0;
    let entrance = match find_entrance_tile(ground, occupied_road_tiles) {
        Some(entrance) => entrance,
        None => {
            return None;
        },
    };
    if occupied_road_tiles.tiles.contains(&ground) {
        return None;
    }
    if occupied_building_tiles.tiles.contains(&ground) {
        return None;
    }
    occupied_building_tiles.tiles.insert(ground);
    let mut inventory = Inventory::new();
    match kind {
        BuildingKind::Residential => {
            inventory.set(InventoryType::People, InventoryStorage { current: 1, max: 10 });
        },
        BuildingKind::Commercial => {},
    }
    Some(
        BuildingPlan {
            kind,
            position: BuildingPosition { position: ground },
            entrance: BuildingEntrance { position: entrance },
            inventory,
        },
    )
}


/// A building is entered from the first of its eight neighbours, clockwise from north, that is a
/// road tile: the entrance is a road neighbour and no neighbour before it is a road tile. A
/// building with no road neighbour has no entrance.
pub proof fn law_entrance_is_first_road_neighbour(building: TilePosition, roads: Set<TilePosition>)
    ensures
        match spec_entrance_tile(building, roads) {
            Some(t) => exists|d: CardinalDirection|
                #![trigger building.stepped(d)]
                t == building.stepped(d) && roads.contains(t) && forall|e: CardinalDirection|
                    e.index() < d.index() ==> !roads.contains(#[trigger] building.stepped(e)),
            None => forall|d: CardinalDirection| !roads.contains(#[trigger] building.stepped(d)),
        },
{
    let s = all_neighbours(building);
    lemma_kept_prefix(s, roads, 8);
    assert(s.take(8) =~= s);
    let found = s.filter_map(keep_if_in(roads));
    match spec_entrance_tile(building, roads) {
        Some(t) => {
            let k = choose|k: int|
                #![trigger s[k]]
                0 <= k < 8 && roads.contains(s[k]) && found[0] == s[k]
                    && forall|i: int| 0 <= i < k ==> !roads.contains(#[trigger] s[i]);
            let d = CardinalDirection::from_index(k);
            assert(d.index() == k);
            lemma_all_neighbours_index(building, d);
            assert forall|e: CardinalDirection| e.index() < d.index() implies !roads.contains(
                #[trigger] building.stepped(e),
            ) by {
                lemma_all_neighbours_index(building, e);
                assert(!roads.contains(s[e.index()]));
            }
            assert(t == building.stepped(d));
        },
        None => {
            assert forall|d: CardinalDirection| !roads.contains(#[trigger] building.stepped(d)) by {
                lemma_all_neighbours_index(building, d);
                if roads.contains(building.stepped(d)) {
                    assert(roads.contains(s[d.index()]));
                    assert(found.contains(s[d.index()]));
                }
            }
        },
    }
}

} // verus!
