use vstd::prelude::*;

verus! {

/// How many game updates run per frame.
pub struct GameTime {
    pub relative_time: usize,
}

/// The time-control keys pressed during one frame.
#[derive(Clone, Copy, Debug, PartialEq, Eq, Structural)]
pub struct TimeControls {
    /// Toggles between the current speed and the speed saved before.
    pub pause: bool,
    /// Doubles the speed.
    pub speed_up: bool,
    /// Halves the speed.
    pub slow_down: bool,
}

/// The speed after one frame's time controls, and the saved speed after it.
pub open spec fn controlled_time(time: int, previous: int, keys: TimeControls) -> (int, int) {
    let (time, previous) = if keys.pause {
        if time == 0 {
            (previous, previous)
        } else {
            (0, time)
        }
    } else {
        (time, previous)
    };
    let time = if keys.speed_up {
        time * 2
    } else {
        time
    };
    let time = if keys.slow_down {
        time / 2
    } else {
        time
    };
    let time = if time < 1 {
        1
    } else {
        time
    };
    (time, previous)
}

/// Whether doubling the speed during this frame keeps it within `usize`.
pub open spec fn controls_fit(time: int, previous: int, keys: TimeControls) -> bool {
    let paused_time = if keys.pause {
        if time == 0 {
            previous
        } else {
            0
        }
    } else {
        time
    };
    keys.speed_up ==> paused_time * 2 <= usize::MAX
}

/// Applies one frame's time controls: the pause key swaps the speed with the saved one when the
/// game is stopped and otherwise saves it and stops, the speed-up key doubles and the slow-down
/// key halves the speed; a speed below one is raised to one.
pub fn apply_time_controls(game_time: &mut GameTime, previous_time: &mut usize, keys: TimeControls)
    requires
        controls_fit(old(game_time).relative_time as int, *old(previous_time) as int, keys),
    ensures
        (final(game_time).relative_time as int, *final(previous_time) as int) == controlled_time(
            old(game_time).relative_time as int,
            *old(previous_time) as int,
            keys,
        ),
{
    if keys.pause {
        if game_time.relative_time == 0 {
            game_time.relative_time = *previous_time;
        } else {
            *previous_time = game_time.relative_time;
            game_time.relative_time = 0;
        }
    }
    if keys.speed_up {
        game_time.relative_time = game_time.relative_time * 2;
    }
    if keys.slow_down {
        game_time.relative_time = game_time.relative_time / 2;
    }
    if game_time.relative_time < 1 {
        game_time.relative_time = 1;
    }
}

/// Flips the flag and reports its new value: true on every other call.
pub fn every_other_time(flag: &mut bool) -> (r: bool)
    ensures
        *final(flag) == !*old(flag),
        r == *final(flag),
{
    *flag = !*flag;
    *flag
}

/// After any frame's time controls the game runs at least one update per frame.
pub proof fn law_time_at_least_one(time: int, previous: int, keys: TimeControls)
    requires
        time >= 0,
        previous >= 0,
    ensures
        controlled_time(time, previous, keys).0 >= 1,
{
}

/// Pressing only the pause key twice, starting from a stopped game with a saved speed of at
/// least one, brings back that speed with the same speed saved.
pub proof fn law_pause_twice(previous: int)
    requires
        previous >= 1,
    ensures
        ({
            let keys = TimeControls { pause: true, speed_up: false, slow_down: false };
            let first = controlled_time(0, previous, keys);
            let second = controlled_time(first.0, first.1, keys);
            first == (previous, previous) && second == (1int, previous)
        }),
{
}


/// On a running game (speed at least one), one frame's keys act as follows: no key keeps the
/// speed, the speed-up key alone doubles it, the slow-down key alone halves it (rounding down,
/// but never below one), both together keep it, and the pause key stops the game (which then
/// runs at the lowest speed, one) and saves the speed it had. The saved speed changes only
/// through the pause key.
pub proof fn law_time_controls_on_a_running_game(time: int, previous: int)
    requires
        time >= 1,
        previous >= 0,
    ensures
        controlled_time(time, previous, TimeControls { pause: false, speed_up: false, slow_down: false })
            == (time, previous),
        controlled_time(time, previous, TimeControls { pause: false, speed_up: true, slow_down: false })
            == (2 * time, previous),
        controlled_time(time, previous, TimeControls { pause: false, speed_up: false, slow_down: true })
            == (if time >= 2 { time / 2 } else { 1 }, previous),
        controlled_time(time, previous, TimeControls { pause: false, speed_up: true, slow_down: true })
            == (time, previous),
        controlled_time(time, previous, TimeControls { pause: true, speed_up: false, slow_down: false })
            == (1int, time),
{
}

} // verus!
