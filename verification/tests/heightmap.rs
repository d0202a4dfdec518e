use city_sim::chunk::chunk_tile_position::{CardinalDirection, ChunkPosition, TilePosition};
use city_sim::utils::vector::{IVec3, UVec2};
use city_sim::world::heightmap::{Heightmap, HeightmapVertex, HeightmapsResource};
use city_sim::world_gen::heightmap::{chunk_sample_points, Heightmap as SampleMap};

fn tile(x: i32, z: i32) -> TilePosition {
    TilePosition {
        position: IVec3 { x, y: 0, z },
    }
}

fn chunk(x: u32, y: u32) -> ChunkPosition {
    ChunkPosition {
        position: UVec2 { x, y },
    }
}

fn flat_world(chunks_x: u32, chunks_y: u32) -> HeightmapsResource<i32> {
    let mut maps = Vec::new();
    for _ in 0..chunks_x * chunks_y {
        maps.push(Heightmap::new(HeightmapVertex::new([0, 0, 0, 0])));
    }
    HeightmapsResource::new([chunks_x, chunks_y], maps)
}

#[test]
fn vertex_from_a_list_of_heights() {
    let v = HeightmapVertex::try_from(vec![1, 2, 3, 4]).unwrap();
    assert_eq!(v.inner(), [1, 2, 3, 4]);
    assert_eq!(
        HeightmapVertex::try_from(vec![1, 2, 3]),
        Err("Heightmap Vertex must be of length 4")
    );
    assert_eq!(
        HeightmapVertex::try_from(vec![1, 2, 3, 4, 5]),
        Err("Heightmap Vertex must be of length 4")
    );
}

#[test]
fn vertex_corners() {
    let mut v = HeightmapVertex::new([5, 6, 7, 8]);
    assert_eq!(v.corner(2), 7);
    v.set_corner(2, 70);
    assert_eq!(v.inner(), [5, 6, 70, 8]);
}

#[test]
fn chunk_heightmap_get_and_set() {
    let mut map = Heightmap::new(HeightmapVertex::new([1, 1, 1, 1]));
    let at = city_sim::utils::vector::IVec2 { x: 127, y: 3 };
    assert_eq!(map.get(at).inner(), [1, 1, 1, 1]);
    map.set(at, HeightmapVertex::new([2, 3, 4, 5]));
    assert_eq!(map.get(at).inner(), [2, 3, 4, 5]);
    assert_eq!(
        map.get(city_sim::utils::vector::IVec2 { x: 3, y: 127 }).inner(),
        [1, 1, 1, 1]
    );
}

#[test]
fn world_reads_back_what_was_written() {
    let mut world = flat_world(2, 2);
    assert_eq!(world.size(), [2, 2]);
    world.set(tile(200, 3), HeightmapVertex::new([9, 8, 7, 6]));
    assert_eq!(world.get(tile(200, 3)).inner(), [9, 8, 7, 6]);
    assert_eq!(world.get(tile(200, 4)).inner(), [0, 0, 0, 0]);
    assert_eq!(world.chunk(chunk(1, 0)).get(city_sim::utils::vector::IVec2 { x: 72, y: 3 }).inner(), [9, 8, 7, 6]);
    assert!(world.get_dirty_chunks().is_empty());
}

#[test]
fn editing_a_tile_makes_its_neighbours_fit() {
    let mut world = flat_world(2, 2);
    world.edit_tile(tile(130, 5), HeightmapVertex::new([1, 2, 3, 4]));
    assert_eq!(world.get(tile(130, 5)).inner(), [1, 2, 3, 4]);
    assert_eq!(world.get(tile(131, 5)).inner(), [2, 0, 0, 3]);
    assert_eq!(world.get(tile(131, 6)).inner(), [3, 0, 0, 0]);
    assert_eq!(world.get(tile(130, 6)).inner(), [4, 3, 0, 0]);
    assert_eq!(world.get(tile(129, 6)).inner(), [0, 4, 0, 0]);
    assert_eq!(world.get(tile(129, 5)).inner(), [0, 1, 4, 0]);
    assert_eq!(world.get(tile(129, 4)).inner(), [0, 0, 1, 0]);
    assert_eq!(world.get(tile(130, 4)).inner(), [0, 0, 2, 1]);
    assert_eq!(world.get(tile(131, 4)).inner(), [0, 0, 0, 2]);
    assert_eq!(world.get(tile(132, 5)).inner(), [0, 0, 0, 0]);
    assert_eq!(world.get(tile(130, 7)).inner(), [0, 0, 0, 0]);
    assert_eq!(world.get_dirty_chunks(), vec![chunk(1, 0)]);
    assert_eq!(world.get_dirty_chunks(), vec![]);
}

#[test]
fn editing_a_corner_tile_marks_all_chunks_around_it() {
    let mut world = flat_world(2, 2);
    world.edit_tile(tile(128, 128), HeightmapVertex::new([1, 1, 1, 1]));
    assert_eq!(
        world.get_dirty_chunks(),
        vec![chunk(0, 0), chunk(0, 1), chunk(1, 0), chunk(1, 1)]
    );
    assert_eq!(world.get(tile(127, 127)).inner(), [0, 0, 1, 0]);
}

#[test]
fn edited_tiles_do_not_change_each_other() {
    let mut world = flat_world(1, 1);
    world.edit_tiles(
        &[tile(10, 10), tile(11, 10)],
        &[HeightmapVertex::new([1, 2, 3, 4]), HeightmapVertex::new([5, 6, 7, 8])],
    );
    assert_eq!(world.get(tile(10, 10)).inner(), [1, 2, 3, 4]);
    assert_eq!(world.get(tile(11, 10)).inner(), [5, 6, 7, 8]);
    assert_eq!(world.get(tile(11, 11)).inner(), [8, 7, 0, 0]);
    assert_eq!(world.get(tile(12, 10)).inner(), [6, 0, 0, 7]);
    assert_eq!(world.get(tile(9, 10)).inner(), [0, 1, 4, 0]);
}

#[test]
fn edits_stop_at_the_shorter_list() {
    let mut world = flat_world(1, 1);
    world.edit_tiles(&[tile(10, 10), tile(50, 50)], &[HeightmapVertex::new([1, 1, 1, 1])]);
    assert_eq!(world.get(tile(10, 10)).inner(), [1, 1, 1, 1]);
    assert_eq!(world.get(tile(50, 50)).inner(), [0, 0, 0, 0]);
    world.edit_tiles(&[], &[HeightmapVertex::new([3, 3, 3, 3])]);
    assert_eq!(world.get(tile(10, 10)).inner(), [1, 1, 1, 1]);
}

#[test]
fn changed_chunks_come_row_by_row() {
    let mut world = flat_world(3, 3);
    world.mark_dirty(chunk(2, 0));
    world.mark_dirty(chunk(0, 2));
    world.mark_dirty(chunk(1, 1));
    world.mark_dirty(chunk(0, 1));
    assert_eq!(
        world.get_dirty_chunks(),
        vec![chunk(0, 1), chunk(0, 2), chunk(1, 1), chunk(2, 0)]
    );
    assert!(world.get_dirty_chunks().is_empty());
}

#[test]
fn empty_world() {
    let mut world: HeightmapsResource<f32> = HeightmapsResource::empty();
    assert_eq!(world.size(), [0, 0]);
    assert!(world.get_dirty_chunks().is_empty());
}

#[test]
fn sample_map_size_and_lookup() {
    let map = SampleMap::new([1, 2], 0.5f32);
    assert_eq!(map.size(), [129, 258]);
    assert_eq!(map.data.len(), 129 * 258);
    assert_eq!(map.get([128, 257]), Some(0.5));
    assert_eq!(map.get([129, 0]), None);
    assert_eq!(map[[3, 4]], 0.5);
}

#[test]
fn sample_map_neighbours_stay_strictly_inside() {
    let map = SampleMap::new([1, 1], 0u8);
    assert_eq!(map.neighbours([1, 1]), vec![[1, 2], [2, 2], [2, 1]]);
    assert_eq!(
        map.neighbours([5, 5]),
        vec![[5, 6], [6, 6], [6, 5], [6, 4], [5, 4], [4, 4], [4, 5], [4, 6]]
    );
    assert_eq!(map.neighbours([128, 128]), vec![[128, 127], [127, 127], [127, 128]]);
}

#[test]
fn sample_map_circle_walks_the_square_row_by_row() {
    let map = SampleMap::new([1, 1], 0u8);
    let mut circle = map.get_circle([5, 5], 1);
    let mut points = Vec::new();
    while let Some(p) = circle.next() {
        points.push(p);
    }
    assert_eq!(
        points,
        vec![[4, 4], [5, 4], [6, 4], [4, 5], [5, 5], [6, 5], [4, 6], [5, 6], [6, 6]]
    );
    let mut corner = map.get_circle([0, 0], 1);
    assert_eq!(corner.next(), Some([1, 1]));
    assert_eq!(corner.next(), None);
    assert_eq!(corner.next(), None);
}

#[test]
fn flattening_a_tile_along_a_direction() {
    let mut v = HeightmapVertex::new([1, 2, 3, 4]);
    v.flatten_with_direction(CardinalDirection::North, 0);
    assert_eq!(v.inner(), [1, 2, 2, 1]);
    let mut v = HeightmapVertex::new([1, 2, 3, 4]);
    v.flatten_with_direction(CardinalDirection::West, 0);
    assert_eq!(v.inner(), [2, 2, 3, 3]);
    let mut v = HeightmapVertex::new([1, 2, 3, 4]);
    v.flatten_with_direction(CardinalDirection::NorthEast, 9);
    assert_eq!(v.inner(), [1, 9, 3, 9]);
    let mut v = HeightmapVertex::new([1, 2, 3, 4]);
    v.flatten_with_direction(CardinalDirection::NorthWest, 9);
    assert_eq!(v.inner(), [9, 2, 9, 4]);
}

#[test]
fn sample_map_set_and_saved_samples() {
    let mut map = SampleMap::new([1, 1], 0u8);
    map.set([3, 4], 9);
    assert_eq!(map.get([3, 4]), Some(9));
    assert_eq!(map.data[3 * 129 + 4], 9);
    assert_eq!(map.get([4, 3]), Some(0));
    let restored = SampleMap::from_samples([2, 3], vec![1u8, 2, 3, 4, 5, 6]);
    assert_eq!(restored.size(), [2, 3]);
    assert_eq!(restored.get([1, 0]), Some(4));
    assert_eq!(restored.get([2, 0]), None);
}

#[test]
fn sample_points_of_a_chunk() {
    let points = chunk_sample_points([1, 2]);
    assert_eq!(points.len(), 129 * 129);
    assert_eq!(points[0], [129, 258]);
    assert_eq!(points[1], [129, 259]);
    assert_eq!(points[129], [130, 258]);
    assert_eq!(*points.last().unwrap(), [257, 386]);
}

#[test]
fn editing_a_tile_twice_with_the_same_heights_changes_nothing_more() {
    let mut once = flat_world(1, 1);
    once.edit_tile(tile(40, 40), HeightmapVertex::new([3, 1, 4, 1]));
    let mut twice = flat_world(1, 1);
    twice.edit_tile(tile(40, 40), HeightmapVertex::new([3, 1, 4, 1]));
    twice.edit_tile(tile(40, 40), HeightmapVertex::new([3, 1, 4, 1]));
    for x in 38..43 {
        for z in 38..43 {
            assert_eq!(once.get(tile(x, z)).inner(), twice.get(tile(x, z)).inner());
        }
    }
    assert_eq!(once.get_dirty_chunks(), twice.get_dirty_chunks());
}

#[test]
fn an_edit_on_another_layer_reshapes_the_ground_tile_below() {
    let mut world = flat_world(1, 1);
    let ground = tile(10, 10);
    let upper = TilePosition {
        position: IVec3 { x: 11, y: 5, z: 10 },
    };
    world.edit_tiles(
        &[ground, upper],
        &[HeightmapVertex::new([1, 2, 3, 4]), HeightmapVertex::new([5, 6, 7, 8])],
    );
    assert_eq!(world.get(ground).inner(), [1, 5, 8, 4]);
    assert_eq!(world.get(upper).inner(), [5, 6, 7, 8]);
}
