use city_sim::world_gen::erosion::{
    advance_erosion, begin_erosion, new_droplets, start_erosion, ErosionAction, ErosionState,
};
use city_sim::world_gen::tile_world_size;

#[test]
fn droplets_fall_on_the_map_with_valid_sizes() {
    let (state, mut rng, droplets) = start_erosion(0, 500);
    assert_eq!(state, ErosionState { remaining: 500, working: true });
    assert_eq!(droplets.len(), 1024);
    let next = new_droplets(&mut rng);
    assert_eq!(next.len(), 1024);
    assert_ne!(next, droplets);
    for d in &droplets {
        assert!(d.position_x < 2064 && d.position_y < 2064);
        assert!(2 <= d.radius && d.radius <= 12);
        assert!(d.direction_x <= 1 && d.direction_y <= 1);
    }
    assert!(droplets.iter().any(|d| d.position_x != droplets[0].position_x));
    assert!(droplets.iter().any(|d| d.radius != droplets[0].radius));
    assert!(droplets.iter().any(|d| d.direction_x == 1));
    assert!(droplets.iter().any(|d| d.direction_y == 0));
}

#[test]
fn the_same_seed_gives_the_same_droplets() {
    let (_, mut rng_a, a) = start_erosion(7, 3);
    let (_, mut rng_b, b) = start_erosion(7, 9);
    let (_, _, c) = start_erosion(8, 3);
    assert_eq!(a, b);
    assert_ne!(a, c);
    assert_eq!(new_droplets(&mut rng_a), new_droplets(&mut rng_b));
}

#[test]
fn erosion_sends_each_batch_then_finishes() {
    let mut state = begin_erosion(3);
    assert_eq!(state, ErosionState { remaining: 3, working: true });
    let mut actions = Vec::new();
    for _ in 0..6 {
        let (next, action) = advance_erosion(state, true);
        state = next;
        actions.push(action);
    }
    assert_eq!(
        actions,
        vec![
            ErosionAction::Dispatch,
            ErosionAction::Dispatch,
            ErosionAction::Dispatch,
            ErosionAction::Finish,
            ErosionAction::Wait,
            ErosionAction::Wait
        ]
    );
    assert_eq!(state, ErosionState { remaining: 0, working: false });
}

#[test]
fn erosion_waits_for_the_worker() {
    let state = begin_erosion(2);
    assert_eq!(advance_erosion(state, false), (state, ErosionAction::Wait));
    let zero = begin_erosion(0);
    assert_eq!(
        advance_erosion(zero, true),
        (ErosionState { remaining: 0, working: false }, ErosionAction::Finish)
    );
}

#[test]
fn world_size_in_tiles() {
    assert_eq!(tile_world_size([16, 16]), [2048, 2048]);
    assert_eq!(tile_world_size([3, 1]), [384, 128]);
}
