use city_sim::asset_builder::walls::{plan_walls, wall_is_straight, Wall, WallMesh, WallPiece, Walls};

fn piece(s: (i32, i32), e: (i32, i32), mesh: WallMesh, rotation_degrees: i32) -> WallPiece {
    WallPiece {
        starting_position: s,
        ending_position: e,
        mesh,
        rotation_degrees,
    }
}

#[test]
fn walls_of_the_demo_layout() {
    let mut walls = Walls { walls: Vec::new() };
    let requests = [
        ((0, 0), (0, 10)),
        ((0, 10), (10, 10)),
        ((0, 0), (10, 10)),
        ((0, 0), (-10, -10)),
        ((0, 0), (10, -10)),
        ((0, 0), (-10, 10)),
    ];
    let mut all_pieces = Vec::new();
    for (s, e) in requests {
        let pieces = plan_walls(&mut walls, s, e);
        assert_eq!(pieces.len(), 10);
        all_pieces.push(pieces);
    }
    assert_eq!(walls.walls.len(), 6);
    for (i, (s, e)) in requests.iter().enumerate() {
        assert_eq!(
            walls.walls[i],
            Wall {
                starting_position: *s,
                ending_position: *e
            }
        );
    }
    assert_eq!(all_pieces[0][3], piece((0, 3), (0, 4), WallMesh::Straight, 270));
    assert_eq!(all_pieces[1][9], piece((9, 10), (10, 10), WallMesh::Straight, 0));
    assert_eq!(all_pieces[2][0], piece((0, 0), (1, 1), WallMesh::Diagonal, -45));
    assert_eq!(all_pieces[3][0], piece((-10, -10), (-9, -9), WallMesh::Diagonal, -45));
    assert_eq!(all_pieces[3][9], piece((-1, -1), (0, 0), WallMesh::Diagonal, -45));
    assert_eq!(all_pieces[4][2], piece((2, -2), (3, -3), WallMesh::Diagonal, 45));
    assert_eq!(all_pieces[5][0], piece((-10, 10), (-9, 9), WallMesh::Diagonal, 45));
}

#[test]
fn wall_pieces_join_end_to_end() {
    let mut walls = Walls { walls: Vec::new() };
    let pieces = plan_walls(&mut walls, (3, 8), (3, 2));
    assert_eq!(pieces.len(), 6);
    assert_eq!(pieces[0].starting_position, (3, 2));
    assert_eq!(pieces[5].ending_position, (3, 8));
    for w in pieces.windows(2) {
        assert_eq!(w[0].ending_position, w[1].starting_position);
    }
}

#[test]
fn crooked_walls_are_ignored() {
    let mut walls = Walls { walls: Vec::new() };
    assert!(plan_walls(&mut walls, (0, 0), (3, 5)).is_empty());
    assert!(walls.walls.is_empty());
    assert!(plan_walls(&mut walls, (4, 4), (4, 4)).is_empty());
    assert_eq!(walls.walls.len(), 1);
}

fn straight_by_single_precision_slope(s: (i32, i32), e: (i32, i32)) -> bool {
    let delta_x = e.0 - s.0;
    let delta_y = e.1 - s.1;
    let mut slope = 0.0f32;
    if delta_x != 0 {
        slope = delta_y as f32 / delta_x as f32;
    }
    slope == 0.0 || slope == 1.0 || slope == -1.0
}

#[test]
fn straightness_follows_the_single_precision_slope() {
    assert!(wall_is_straight((0, 0), (16777217, 16777216)));
    assert!(wall_is_straight((0, 0), (-16777217, 16777216)));
    assert!(!wall_is_straight((0, 0), (16777217, 16777218)));
    assert!(!wall_is_straight((0, 0), (3, 5)));
    assert!(wall_is_straight((0, 0), (i32::MIN, i32::MIN)));
    let cases = [
        ((0, 0), (0, 10)),
        ((5, 5), (1, 5)),
        ((0, 0), (7, 7)),
        ((0, 0), (7, -7)),
        ((0, 0), (7, 8)),
        ((0, 0), (16777217, 16777216)),
        ((0, 0), (16777219, 16777220)),
        ((0, 0), (16777219, -16777220)),
        ((0, 0), (33554431, 33554432)),
        ((0, 0), (33554433, 33554432)),
        ((0, 0), (33554434, 33554432)),
        ((-1000, 0), (2147482647, 2147483647)),
    ];
    for (s, e) in cases {
        assert_eq!(wall_is_straight(s, e), straight_by_single_precision_slope(s, e), "{s:?} {e:?}");
    }
}
