use city_sim::chunk::chunk_tile_position::{CardinalDirection, ChunkPosition, Neighbours, TilePosition};
use city_sim::utils::vector::{IVec2, IVec3, UVec2};

fn tile(x: i32, y: i32, z: i32) -> TilePosition {
    TilePosition {
        position: IVec3 { x, y, z },
    }
}

fn chunk(x: u32, y: u32) -> ChunkPosition {
    ChunkPosition {
        position: UVec2 { x, y },
    }
}

const ALL: [CardinalDirection; 8] = [
    CardinalDirection::North,
    CardinalDirection::NorthEast,
    CardinalDirection::East,
    CardinalDirection::SouthEast,
    CardinalDirection::South,
    CardinalDirection::SouthWest,
    CardinalDirection::West,
    CardinalDirection::NorthWest,
];

#[test]
fn chunk_of_a_tile() {
    assert_eq!(tile(0, 0, 0).chunk_position(), chunk(0, 0));
    assert_eq!(tile(127, 3, 128).chunk_position(), chunk(0, 1));
    assert_eq!(tile(300, 0, 1000).chunk_position(), chunk(2, 7));
    assert_eq!(tile(-1, 0, -500).chunk_position(), chunk(0, 0));
}

#[test]
fn chunk_of_a_far_tile_follows_single_precision() {
    assert_eq!(tile(16777217, 0, 0).chunk_position(), chunk(131072, 0));
    assert_eq!(tile(33554431, 0, 33554430).chunk_position(), chunk(262144, 262143));
    assert_eq!(tile(i32::MAX, 0, 0).chunk_position(), chunk(16777216, 0));
    for x in [0i32, 127, 128, 16777215, 16777217, 33554431, 33554559, 1_000_000_001, i32::MAX] {
        let expected = ((x as f32 / 128.0).floor()) as u32;
        assert_eq!(tile(x, 0, x).chunk_position(), chunk(expected, expected));
    }
}

#[test]
fn far_tile_relative_to_the_chunk_counted_for_it() {
    assert_eq!(tile(33554431, 2, 16777217).to_relative_tile_position(), tile(-1, 2, 1));
}

#[test]
fn tile_relative_to_its_chunk() {
    assert_eq!(tile(300, 5, 1000).to_relative_tile_position(), tile(44, 5, 104));
    assert_eq!(tile(127, 0, 128).to_relative_tile_position(), tile(127, 0, 0));
    assert_eq!(tile(-3, 0, 2).to_relative_tile_position(), tile(-3, 0, 2));
}

#[test]
fn tile_and_ground_coordinates() {
    assert_eq!(tile(4, 9, -2).position_2d(), IVec2 { x: 4, y: -2 });
    assert_eq!(TilePosition::from_position_2d(IVec2 { x: 4, y: -2 }), tile(4, 0, -2));
}

#[test]
fn stepping_a_tile_in_each_direction() {
    let t = tile(10, 2, 20);
    assert_eq!(t + CardinalDirection::North, tile(11, 2, 20));
    assert_eq!(t + CardinalDirection::NorthEast, tile(11, 2, 21));
    assert_eq!(t + CardinalDirection::East, tile(10, 2, 21));
    assert_eq!(t + CardinalDirection::SouthEast, tile(9, 2, 21));
    assert_eq!(t + CardinalDirection::South, tile(9, 2, 20));
    assert_eq!(t + CardinalDirection::SouthWest, tile(9, 2, 19));
    assert_eq!(t + CardinalDirection::West, tile(10, 2, 19));
    assert_eq!(t + CardinalDirection::NorthWest, tile(11, 2, 19));
    assert_eq!(t - CardinalDirection::North, tile(9, 2, 20));
}

#[test]
fn stepping_there_and_back_returns_to_the_tile() {
    let t = tile(-7, 1, 3);
    for d in ALL {
        assert_eq!((t + d) + (-d), t);
        assert_eq!((t + d) - d, t);
    }
    let c = chunk(5, 5);
    for d in ALL {
        assert_eq!((c + d) + (-d), c);
        assert_eq!((c + d) - d, c);
    }
}

#[test]
fn stepping_a_chunk() {
    assert_eq!(chunk(3, 3) + CardinalDirection::North, chunk(4, 3));
    assert_eq!(chunk(3, 3) + CardinalDirection::SouthWest, chunk(2, 2));
    assert_eq!(chunk(3, 3) - CardinalDirection::East, chunk(3, 2));
    assert_eq!(chunk(7, 9).as_tuple(), (7usize, 9usize));
}

#[test]
fn eight_neighbours_of_a_tile() {
    let t = tile(5, 0, 5);
    let n = t.tile_neighbours();
    for d in ALL {
        assert_eq!(*n.get(d), t + d);
    }
    assert_eq!(n.as_array()[0], tile(6, 0, 5));
    assert_eq!(n.as_array()[7], tile(6, 0, 4));
}

#[test]
fn non_diagonal_neighbours_leave_the_diagonals_at_the_origin() {
    let t = tile(5, 1, 5);
    let n = t.non_diagonal_tile_neighbours();
    assert_eq!(*n.get(CardinalDirection::North), tile(6, 1, 5));
    assert_eq!(*n.get(CardinalDirection::East), tile(5, 1, 6));
    assert_eq!(*n.get(CardinalDirection::South), tile(4, 1, 5));
    assert_eq!(*n.get(CardinalDirection::West), tile(5, 1, 4));
    assert_eq!(*n.get(CardinalDirection::NorthEast), tile(0, 0, 0));
    assert_eq!(*n.get(CardinalDirection::SouthWest), tile(0, 0, 0));
}

#[test]
fn chunks_around_the_chunk_of_a_tile() {
    let n = tile(300, 0, 300).chunk_neighbours();
    assert_eq!(*n.get(CardinalDirection::North), chunk(3, 2));
    assert_eq!(*n.get(CardinalDirection::SouthWest), chunk(1, 1));
    assert_eq!(*n.get(CardinalDirection::East), chunk(2, 3));
}

#[test]
fn neighbours_get_and_set() {
    let mut n = Neighbours::new([0u8, 1, 2, 3, 4, 5, 6, 7]);
    assert_eq!(*n.get(CardinalDirection::South), 4);
    n.set(CardinalDirection::South, 40);
    assert_eq!(*n.get(CardinalDirection::South), 40);
    assert_eq!(*n.get(CardinalDirection::SouthWest), 5);
    assert_eq!(*n.as_array(), [0u8, 1, 2, 3, 40, 5, 6, 7]);
}

#[test]
fn chunk_directions_turn_and_split() {
    assert_eq!(CardinalDirection::North.next_clockwise(), CardinalDirection::NorthEast);
    assert_eq!(CardinalDirection::North.next_counter_clockwise(), CardinalDirection::NorthWest);
    assert_eq!(
        CardinalDirection::SouthEast.split_direction(),
        [CardinalDirection::East, CardinalDirection::South]
    );
    assert_eq!(CardinalDirection::West.to_angle(), -90);
    assert_eq!(
        CardinalDirection::non_compound_directions(),
        [
            CardinalDirection::North,
            CardinalDirection::East,
            CardinalDirection::South,
            CardinalDirection::West
        ]
    );
    for d in ALL {
        assert_eq!(d.next_clockwise().next_counter_clockwise(), d);
        assert_eq!(-(-d), d);
    }
}
