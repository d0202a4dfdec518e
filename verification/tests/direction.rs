use city_sim::utils::direction::CardinalDirection;

#[test]
fn next_clockwise_cycles_through_all_directions() {
    let mut d = CardinalDirection::North;
    let expected = [
        CardinalDirection::NorthEast,
        CardinalDirection::East,
        CardinalDirection::SouthEast,
        CardinalDirection::South,
        CardinalDirection::SouthWest,
        CardinalDirection::West,
        CardinalDirection::NorthWest,
        CardinalDirection::North,
    ];
    for e in expected {
        d = d.next_clockwise();
        assert_eq!(d, e);
    }
}

#[test]
fn next_counter_clockwise_undoes_next_clockwise() {
    let all = [
        CardinalDirection::North,
        CardinalDirection::NorthEast,
        CardinalDirection::East,
        CardinalDirection::SouthEast,
        CardinalDirection::South,
        CardinalDirection::SouthWest,
        CardinalDirection::West,
        CardinalDirection::NorthWest,
    ];
    for d in all {
        assert_eq!(d.next_clockwise().next_counter_clockwise(), d);
        assert_eq!(d.next_counter_clockwise().next_clockwise(), d);
    }
}

#[test]
fn eight_turns_make_a_full_circle() {
    let mut d = CardinalDirection::SouthWest;
    for _ in 0..8 {
        d = d.next_clockwise();
    }
    assert_eq!(d, CardinalDirection::SouthWest);
}

#[test]
fn opposite_direction_twice_is_the_same_direction() {
    let all = [
        CardinalDirection::North,
        CardinalDirection::NorthEast,
        CardinalDirection::East,
        CardinalDirection::SouthEast,
        CardinalDirection::South,
        CardinalDirection::SouthWest,
        CardinalDirection::West,
        CardinalDirection::NorthWest,
    ];
    for d in all {
        assert_eq!(-(-d), d);
    }
    assert_eq!(-CardinalDirection::North, CardinalDirection::South);
    assert_eq!(-CardinalDirection::NorthEast, CardinalDirection::SouthWest);
    assert_eq!(-CardinalDirection::West, CardinalDirection::East);
}

#[test]
fn split_direction_gives_the_two_neighbouring_directions() {
    assert_eq!(
        CardinalDirection::North.split_direction(),
        [CardinalDirection::NorthWest, CardinalDirection::NorthEast]
    );
    assert_eq!(
        CardinalDirection::NorthEast.split_direction(),
        [CardinalDirection::North, CardinalDirection::East]
    );
    assert_eq!(
        CardinalDirection::West.split_direction(),
        [CardinalDirection::SouthWest, CardinalDirection::NorthWest]
    );
    assert_eq!(
        CardinalDirection::NorthWest.split_direction(),
        [CardinalDirection::West, CardinalDirection::North]
    );
}

#[test]
fn non_compound_directions_are_the_four_main_ones() {
    assert_eq!(
        CardinalDirection::non_compound_directions(),
        [
            CardinalDirection::North,
            CardinalDirection::East,
            CardinalDirection::South,
            CardinalDirection::West
        ]
    );
}

#[test]
fn all_left_and_right_of_list_three_directions() {
    assert_eq!(
        CardinalDirection::North.all_left_of(),
        vec![
            CardinalDirection::NorthWest,
            CardinalDirection::West,
            CardinalDirection::SouthWest
        ]
    );
    assert_eq!(
        CardinalDirection::North.all_right_of(),
        vec![
            CardinalDirection::NorthEast,
            CardinalDirection::East,
            CardinalDirection::SouthEast
        ]
    );
    assert_eq!(
        CardinalDirection::South.all_right_of(),
        vec![
            CardinalDirection::SouthWest,
            CardinalDirection::West,
            CardinalDirection::NorthWest
        ]
    );
}

#[test]
fn angles_of_the_directions() {
    assert_eq!(CardinalDirection::North.to_angle(), 0);
    assert_eq!(CardinalDirection::NorthEast.to_angle(), 45);
    assert_eq!(CardinalDirection::South.to_angle(), 180);
    assert_eq!(CardinalDirection::SouthWest.to_angle(), -135);
    assert_eq!(CardinalDirection::NorthWest.to_angle(), -45);
}

#[test]
fn stepping_on_a_grid_with_north_up() {
    assert_eq!([3, 4] + CardinalDirection::North, [3, 5]);
    assert_eq!([3, 4] + CardinalDirection::NorthEast, [4, 5]);
    assert_eq!([3, 4] + CardinalDirection::SouthWest, [2, 3]);
    assert_eq!([3, 4] + CardinalDirection::West, [2, 4]);
    assert_eq!(([3, 4] + CardinalDirection::SouthEast) + CardinalDirection::NorthWest, [3, 4]);
}
