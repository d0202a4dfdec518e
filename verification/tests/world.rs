use city_sim::chunk::chunk_tile_position::{CardinalDirection, TilePosition};
use city_sim::utils::vector::{IVec2, IVec3};
use city_sim::world::buildings::{plan_building, BuildingKind, OccupiedBuildingTiles};
use city_sim::world::game_time::{apply_time_controls, every_other_time, GameTime, TimeControls};
use city_sim::world::resources::{Inventory, InventoryStorage, InventoryType};
use city_sim::world::road::intersection::{
    is_redundant_intersection, splits_road, ConnectedRoads, RoadIntersection, RoadIntersectionsResource,
};
use city_sim::world::road::pathfinding::{find_path, Pathfind};
use city_sim::world::road::{
    road_end_intersections, road_tile_conflicts, road_tool_step, RoadEnds, RoadTilesResource,
    RoadToolStep,
};
use city_sim::world::tile_set::TileSet;
use city_sim::world::tools::ToolType;
use city_sim::world::vehicles::{
    complete_goal, plan_shopping_trip, shopping_trip_with, unload_people, GoalOutcome, VehicleGoal,
};

fn tile(x: i32, y: i32, z: i32) -> TilePosition {
    TilePosition {
        position: IVec3 { x, y, z },
    }
}

fn roads_at(tiles: &[TilePosition]) -> RoadTilesResource {
    let mut roads = RoadTilesResource::new();
    roads.occupy(tiles);
    roads
}

fn people(current: usize, max: usize) -> InventoryStorage {
    InventoryStorage { current, max }
}

#[test]
fn tools_cycle_through_all_six() {
    let mut t = ToolType::NoTool;
    let expected = [
        ToolType::VertexEditor,
        ToolType::TileEditor,
        ToolType::BuildRoad,
        ToolType::BuildResidentialBuilding,
        ToolType::BuildCommercialBuilding,
        ToolType::NoTool,
    ];
    for e in expected {
        t = t.next_tool();
        assert_eq!(t, e);
    }
}

fn keys(pause: bool, speed_up: bool, slow_down: bool) -> TimeControls {
    TimeControls {
        pause,
        speed_up,
        slow_down,
    }
}

#[test]
fn game_speed_controls() {
    let mut time = GameTime { relative_time: 1 };
    let mut previous = 0usize;
    apply_time_controls(&mut time, &mut previous, keys(false, true, false));
    assert_eq!(time.relative_time, 2);
    apply_time_controls(&mut time, &mut previous, keys(false, true, false));
    assert_eq!(time.relative_time, 4);
    apply_time_controls(&mut time, &mut previous, keys(false, false, true));
    assert_eq!(time.relative_time, 2);
    apply_time_controls(&mut time, &mut previous, keys(false, false, true));
    apply_time_controls(&mut time, &mut previous, keys(false, false, true));
    assert_eq!(time.relative_time, 1);
    apply_time_controls(&mut time, &mut previous, keys(false, false, false));
    assert_eq!(time.relative_time, 1);
}

#[test]
fn pausing_never_stops_the_clock() {
    let mut time = GameTime { relative_time: 4 };
    let mut previous = 0usize;
    apply_time_controls(&mut time, &mut previous, keys(true, false, false));
    assert_eq!((time.relative_time, previous), (1, 4));
    apply_time_controls(&mut time, &mut previous, keys(true, false, false));
    assert_eq!((time.relative_time, previous), (1, 1));
    let mut stopped = GameTime { relative_time: 0 };
    let mut saved = 3usize;
    apply_time_controls(&mut stopped, &mut saved, keys(true, false, false));
    assert_eq!((stopped.relative_time, saved), (3, 3));
}

#[test]
fn every_other_time_alternates() {
    let mut flag = false;
    assert!(every_other_time(&mut flag));
    assert!(!every_other_time(&mut flag));
    assert!(every_other_time(&mut flag));
}

#[test]
fn inventory_set_and_get() {
    let mut inventory = Inventory::new();
    assert_eq!(inventory.get(InventoryType::People), people(0, 0));
    inventory.set(InventoryType::People, people(2, 7));
    assert_eq!(inventory.get(InventoryType::People), people(2, 7));
}

#[test]
fn tile_set_keeps_each_tile_once() {
    let mut set = TileSet::new();
    assert!(set.insert(tile(1, 0, 1)));
    assert!(!set.insert(tile(1, 0, 1)));
    assert!(set.insert(tile(1, 1, 1)));
    assert_eq!(set.len(), 2);
    assert!(set.contains(&tile(1, 0, 1)));
    assert!(set.remove(&tile(1, 0, 1)));
    assert!(!set.remove(&tile(1, 0, 1)));
    assert!(!set.contains(&tile(1, 0, 1)));
    assert_eq!(set.len(), 1);
}

#[test]
fn road_neighbours_clockwise_from_north() {
    let roads = roads_at(&[tile(6, 0, 5), tile(4, 0, 5), tile(5, 0, 6), tile(9, 0, 9)]);
    assert_eq!(
        roads.get_neighbours(tile(5, 0, 5)),
        vec![tile(6, 0, 5), tile(5, 0, 6), tile(4, 0, 5)]
    );
    assert!(roads.get_neighbours(tile(20, 0, 20)).is_empty());
}

#[test]
fn occupying_road_tiles_adds_them() {
    let mut roads = roads_at(&[tile(1, 0, 1), tile(2, 0, 1), tile(1, 0, 1)]);
    assert_eq!(roads.tiles.len(), 2);
    roads.occupy(&[tile(2, 0, 1), tile(3, 0, 1)]);
    assert_eq!(roads.tiles.len(), 3);
    assert!(roads.tiles.contains(&tile(3, 0, 1)));
}

#[test]
fn road_tool_picks_a_start_then_builds() {
    let cursor = tile(4, 2, 4);
    let idle = road_tool_step(false, 3, None, cursor, cursor, true, false);
    assert_eq!(
        idle,
        RoadToolStep {
            starting_point: None,
            highlight_cursor: false,
            highlight_start: None,
            show_road: false,
            build: None
        }
    );
    let zero_width = road_tool_step(true, 0, Some(cursor), cursor, cursor, true, false);
    assert_eq!(zero_width.starting_point, Some(cursor));
    assert!(!zero_width.highlight_cursor);

    let hover = road_tool_step(true, 3, None, cursor, cursor, false, false);
    assert_eq!(hover.starting_point, None);
    assert!(hover.highlight_cursor);

    let picked = road_tool_step(true, 3, None, cursor, cursor, true, false);
    assert_eq!(picked.starting_point, Some(cursor));
    assert!(picked.build.is_none());

    let same_tile = road_tool_step(true, 3, Some(cursor), cursor, cursor, true, false);
    assert_eq!(same_tile.starting_point, Some(cursor));
    assert!(same_tile.show_road);
    assert!(same_tile.build.is_none());

    let built = road_tool_step(true, 3, Some(cursor), tile(9, 2, 5), tile(9, 2, 4), true, false);
    assert_eq!(
        built,
        RoadToolStep {
            starting_point: None,
            highlight_cursor: true,
            highlight_start: Some(cursor),
            show_road: true,
            build: Some(RoadEnds {
                start: tile(4, 0, 4),
                end: tile(9, 0, 4)
            })
        }
    );

    let dropped = road_tool_step(true, 3, Some(cursor), tile(9, 2, 5), tile(9, 2, 4), true, true);
    assert_eq!(dropped.starting_point, None);
    assert!(dropped.build.is_none());
    assert!(!dropped.show_road);
}

#[test]
fn planned_road_conflicts_with_built_roads_except_at_its_ends() {
    let roads = roads_at(&[tile(1, 0, 0), tile(2, 0, 0), tile(3, 0, 0)]);
    let planned = [tile(0, 0, 0), tile(1, 0, 0), tile(2, 0, 0), tile(3, 0, 0)];
    assert_eq!(
        road_tile_conflicts(&planned, &roads, &[tile(3, 0, 0)]),
        vec![false, true, true, false]
    );
}

#[test]
fn intersections_at_both_ends_of_a_road() {
    let [a, b] = road_end_intersections(tile(0, 0, 0), tile(5, 0, 0), 2, CardinalDirection::North, 42u32);
    assert_eq!(a.position(), tile(0, 0, 0));
    assert_eq!(b.position(), tile(5, 0, 0));
    assert_eq!(a.size, 2);
    assert_eq!(a.mesh(), None);
    assert_eq!(a.roads.connected(), vec![(CardinalDirection::North, 42u32)]);
    assert_eq!(b.roads.connected(), vec![(CardinalDirection::South, 42u32)]);
    let [c, d] = road_end_intersections(tile(1, 0, 1), tile(1, 0, 1), 1, CardinalDirection::East, 7u32);
    assert_eq!(c.roads.connected(), vec![(CardinalDirection::East, 7u32)]);
    assert_eq!(d.roads.connected(), vec![(CardinalDirection::East, 7u32)]);
}

#[test]
fn merging_intersections_keeps_every_road() {
    let mut first = ConnectedRoads::new();
    first.0.set(CardinalDirection::North, Some(1u32));
    first.0.set(CardinalDirection::East, Some(2u32));
    let mut second = ConnectedRoads::new();
    second.0.set(CardinalDirection::East, Some(3u32));
    second.0.set(CardinalDirection::West, Some(4u32));
    let mut existing = RoadIntersection::new(tile(3, 0, 3), 1, first);
    existing.set_mesh(99);
    assert_eq!(existing.mesh(), Some(99));
    let incoming = RoadIntersection::new(tile(3, 0, 3), 4, second);
    let merged = existing.merged_with(&incoming);
    assert_eq!(merged.size, 4);
    assert_eq!(merged.mesh(), None);
    assert_eq!(
        merged.roads.connected(),
        vec![
            (CardinalDirection::North, 1u32),
            (CardinalDirection::East, 3u32),
            (CardinalDirection::West, 4u32)
        ]
    );
    let again = merged.merged_with(&incoming);
    assert_eq!(again.roads.connected(), merged.roads.connected());
}

#[test]
fn redundant_intersections_join_two_matching_roads() {
    assert!(is_redundant_intersection(&vec![
        (CardinalDirection::North, 2),
        (CardinalDirection::North, 2)
    ]));
    assert!(!is_redundant_intersection(&vec![
        (CardinalDirection::North, 2),
        (CardinalDirection::North, 3)
    ]));
    assert!(!is_redundant_intersection(&vec![
        (CardinalDirection::North, 2),
        (CardinalDirection::East, 2)
    ]));
    assert!(!is_redundant_intersection(&vec![(CardinalDirection::North, 2)]));
}

#[test]
fn shortest_route_along_the_roads() {
    let roads = roads_at(&[tile(1, 0, 0), tile(2, 0, 0), tile(3, 0, 0), tile(4, 0, 1)]);
    let (path, distance) = find_path(tile(0, 0, 0), tile(4, 0, 1), &roads).unwrap();
    assert_eq!(
        path,
        vec![
            IVec2 { x: 0, y: 0 },
            IVec2 { x: 1, y: 0 },
            IVec2 { x: 2, y: 0 },
            IVec2 { x: 3, y: 0 },
            IVec2 { x: 4, y: 1 }
        ]
    );
    assert_eq!(distance, 4);
    assert_eq!(
        find_path(tile(2, 0, 0), tile(2, 0, 0), &roads),
        Some((vec![IVec2 { x: 2, y: 0 }], 0))
    );
    assert_eq!(find_path(tile(0, 0, 0), tile(9, 0, 9), &roads), None);
}

#[test]
fn routes_are_driven_point_by_point() {
    let mut drive = Pathfind::new(vec![IVec2 { x: 0, y: 0 }, IVec2 { x: 1, y: 0 }, IVec2 { x: 2, y: 0 }]);
    assert_eq!(drive.current_index, 0);
    drive.advance();
    drive.advance();
    assert_eq!(drive.current_index, 2);
    drive.advance();
    assert_eq!(drive.current_index, 2);
    drive.turn_around();
    assert_eq!(drive.current_index, 0);
    assert_eq!(drive.path, vec![IVec2 { x: 2, y: 0 }, IVec2 { x: 1, y: 0 }, IVec2 { x: 0, y: 0 }]);
}

#[test]
fn buildings_need_a_free_tile_next_to_a_road() {
    let roads = roads_at(&[tile(6, 0, 5), tile(9, 0, 9)]);
    let mut built = OccupiedBuildingTiles::new();
    let home = plan_building(ToolType::BuildResidentialBuilding, tile(5, 3, 5), &roads, &mut built).unwrap();
    assert_eq!(home.kind, BuildingKind::Residential);
    assert_eq!(home.position.position, tile(5, 0, 5));
    assert_eq!(home.entrance.position, tile(6, 0, 5));
    assert_eq!(home.inventory.get(InventoryType::People), people(1, 10));
    assert!(built.tiles.contains(&tile(5, 0, 5)));

    assert!(plan_building(ToolType::BuildCommercialBuilding, tile(5, 0, 5), &roads, &mut built).is_none());
    assert!(plan_building(ToolType::BuildRoad, tile(5, 0, 4), &roads, &mut built).is_none());
    assert!(plan_building(ToolType::BuildCommercialBuilding, tile(50, 0, 50), &roads, &mut built).is_none());
    assert!(plan_building(ToolType::BuildCommercialBuilding, tile(6, 0, 5), &roads, &mut built).is_none());

    let shop = plan_building(ToolType::BuildCommercialBuilding, tile(8, 0, 8), &roads, &mut built).unwrap();
    assert_eq!(shop.kind, BuildingKind::Commercial);
    assert_eq!(shop.entrance.position, tile(9, 0, 9));
    assert_eq!(shop.inventory.get(InventoryType::People), people(0, 0));
    assert_eq!(built.tiles.len(), 2);
}

#[test]
fn shopping_trip_for_a_drawn_number() {
    let mut home = Inventory::new();
    home.set(InventoryType::People, people(3, 10));
    let shops = vec![(7u32, tile(1, 0, 1)), (8u32, tile(2, 0, 2))];
    let trip = shopping_trip_with(1u32, tile(0, 0, 0), &mut home, &shops, 3).unwrap();
    assert_eq!(trip.shop, 8);
    assert_eq!(trip.route.start, tile(0, 0, 0));
    assert_eq!(trip.route.end, tile(2, 0, 2));
    assert_eq!(
        trip.goals.goals,
        vec![VehicleGoal::ReturnHome { entity: 1 }, VehicleGoal::Shopping { entity: 8 }]
    );
    assert_eq!(trip.inventory.get(InventoryType::People), people(1, 5));
    assert_eq!(home.get(InventoryType::People), people(2, 10));

    let mut empty_home = Inventory::new();
    assert!(shopping_trip_with(1u32, tile(0, 0, 0), &mut empty_home, &shops, 0).is_none());
    assert!(shopping_trip_with(1u32, tile(0, 0, 0), &mut home, &vec![], 0).is_none());
    assert_eq!(home.get(InventoryType::People), people(2, 10));
}

#[test]
fn random_shopping_trip_goes_to_one_of_the_shops() {
    let shops = vec![(7u32, tile(1, 0, 1)), (8u32, tile(2, 0, 2)), (9u32, tile(3, 0, 3))];
    let mut seen = std::collections::HashSet::new();
    for _ in 0..200 {
        let mut home = Inventory::new();
        home.set(InventoryType::People, people(1, 10));
        let trip = plan_shopping_trip(5u32, tile(0, 0, 0), &mut home, &shops).unwrap();
        assert!(shops.contains(&(trip.shop, trip.route.end)));
        assert_eq!(home.get(InventoryType::People), people(0, 10));
        seen.insert(trip.shop);
    }
    assert!(seen.len() > 1);
    let mut home = Inventory::new();
    assert!(plan_shopping_trip(5u32, tile(0, 0, 0), &mut home, &shops).is_none());
}

#[test]
fn reaching_goals() {
    let mut drive = Pathfind::new(vec![IVec2 { x: 0, y: 0 }, IVec2 { x: 1, y: 1 }]);
    drive.advance();
    assert_eq!(
        complete_goal(VehicleGoal::Shopping { entity: 3u32 }, &mut drive),
        GoalOutcome::KeepDriving
    );
    assert_eq!(drive.path, vec![IVec2 { x: 1, y: 1 }, IVec2 { x: 0, y: 0 }]);
    assert_eq!(drive.current_index, 0);
    assert_eq!(
        complete_goal(VehicleGoal::ReturnHome { entity: 4u32 }, &mut drive),
        GoalOutcome::ArrivedHome { home: 4 }
    );
    assert_eq!(drive.path, vec![IVec2 { x: 1, y: 1 }, IVec2 { x: 0, y: 0 }]);
}

#[test]
fn unloading_people_into_a_home() {
    let mut vehicle = Inventory::new();
    vehicle.set(InventoryType::People, people(1, 5));
    let mut home = Inventory::new();
    home.set(InventoryType::People, people(3, 10));
    unload_people(&mut vehicle, &mut home);
    assert_eq!(home.get(InventoryType::People), people(4, 10));
    assert_eq!(vehicle.get(InventoryType::People), people(0, 5));
}

#[test]
fn intersection_registry_merges_what_meets_on_a_tile() {
    let mut registry = RoadIntersectionsResource::new();
    let mut north = ConnectedRoads::new();
    north.0.set(CardinalDirection::North, Some(1u32));
    let first = registry.spawn(RoadIntersection::new(tile(2, 0, 2), 1, north));
    assert_eq!(first.roads.connected(), vec![(CardinalDirection::North, 1u32)]);
    assert!(registry.contains_key(&tile(2, 0, 2)));
    assert!(!registry.contains_key(&tile(2, 0, 3)));

    let mut south = ConnectedRoads::new();
    south.0.set(CardinalDirection::South, Some(2u32));
    let merged = registry.spawn(RoadIntersection::new(tile(2, 0, 2), 3, south));
    assert_eq!(merged.size, 3);
    assert_eq!(
        merged.roads.connected(),
        vec![(CardinalDirection::North, 1u32), (CardinalDirection::South, 2u32)]
    );
    assert_eq!(registry.get(&tile(2, 0, 2)).unwrap().roads.connected(), merged.roads.connected());
    assert_eq!(registry.positions(), vec![tile(2, 0, 2)]);

    let other = RoadIntersection::new(tile(7, 0, 7), 1, ConnectedRoads::new());
    registry.insert(other);
    assert!(registry.contains_wide_tile(&[tile(6, 0, 6), tile(7, 0, 7)]));
    assert!(!registry.contains_wide_tile(&[tile(6, 0, 6), tile(8, 0, 8)]));
    registry.remove(&tile(2, 0, 2));
    assert!(registry.get(&tile(2, 0, 2)).is_none());
    assert_eq!(registry.positions(), vec![tile(7, 0, 7)]);
    registry.remove(&tile(2, 0, 2));
    assert_eq!(registry.positions(), vec![tile(7, 0, 7)]);
}

#[test]
fn turning_a_route_around_twice_restores_it() {
    let path = vec![IVec2 { x: 0, y: 0 }, IVec2 { x: 1, y: 1 }, IVec2 { x: 2, y: 1 }];
    let mut drive = Pathfind::new(path.clone());
    drive.turn_around();
    drive.turn_around();
    assert_eq!(drive.path, path);
}

#[test]
fn a_round_trip_brings_the_person_home() {
    let mut home = Inventory::new();
    home.set(InventoryType::People, people(4, 10));
    let shops = vec![(2u32, tile(5, 0, 5))];
    let trip = shopping_trip_with(1u32, tile(0, 0, 0), &mut home, &shops, 0).unwrap();
    let mut vehicle = trip.inventory;
    assert_eq!(home.get(InventoryType::People), people(3, 10));
    unload_people(&mut vehicle, &mut home);
    assert_eq!(home.get(InventoryType::People), people(4, 10));
    assert_eq!(vehicle.get(InventoryType::People).current, 0);
}

#[test]
fn tiles_at_the_ends_of_the_coordinate_range_have_no_neighbours() {
    let mut set = TileSet::new();
    set.insert(tile(0, 0, 0));
    set.insert(tile(-5, 3, 7));
    assert!(set.neighbours_fit());
    set.insert(tile(i32::MAX, 0, 0));
    assert!(!set.neighbours_fit());
    set.remove(&tile(i32::MAX, 0, 0));
    set.insert(tile(0, 0, i32::MIN));
    assert!(!set.neighbours_fit());
}

#[test]
fn intersections_split_roads_away_from_their_ends() {
    let line = [tile(0, 0, 0), tile(1, 0, 0), tile(2, 0, 0), tile(3, 0, 0)];
    assert!(!splits_road(&line, tile(0, 0, 0)));
    assert!(splits_road(&line, tile(1, 0, 0)));
    assert!(splits_road(&line, tile(2, 0, 0)));
    assert!(!splits_road(&line, tile(3, 0, 0)));
    assert!(!splits_road(&line, tile(9, 0, 9)));
    assert!(!splits_road(&line[..2], tile(1, 0, 0)));
    assert!(!splits_road(&[], tile(1, 0, 0)));
}
