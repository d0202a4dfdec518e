use vstd::prelude::*;

use rand::distributions::Distribution;
use rand::SeedableRng;

use crate::world_gen::draw_log::DrawLog;
use crate::world_gen::consts::{
    CHUNK_WORLD_SIZE, EROSION_DISPATCH_SIZE, EROSION_WORKGROUP_SIZE, HEIGHTMAP_CHUNK_SIZE,
    MAX_DROPLET_SIZE, MIN_DROPLET_SIZE,
};

verus! {

/// The random number generator that places the droplets.
#[verifier::external_type_specification]
#[verifier::external_body]
pub struct ExStdRng(rand::rngs::StdRng);

/// Where a droplet of the erosion falls, how wide it is, and along which axes it starts to flow
/// (each `0` or `1`). Its sediment, water and speed always start at `0`, `1` and `0`.
#[derive(Clone, Copy, Debug, PartialEq, Eq, Structural, Default)]
pub struct Droplet {
    pub position_x: u32,
    pub position_y: u32,
    pub radius: u32,
    pub direction_x: u32,
    pub direction_y: u32,
}

/// Where the erosion stands: how many more batches of droplets are to be sent, and whether it
/// is running at all.
#[derive(Clone, Copy, Debug, PartialEq, Eq, Structural, Default)]
pub struct ErosionState {
    pub remaining: u32,
    pub working: bool,
}

/// What to do with the erosion worker on one frame.
#[derive(Clone, Copy, Debug, PartialEq, Eq, Structural)]
pub enum ErosionAction {
    /// Nothing.
    Wait,
    /// Send a new batch of droplets and run the worker again.
    Dispatch,
    /// Read the eroded heightmap back; the erosion is over.
    Finish,
}

/// Number of droplets in one batch.
pub open spec fn batch_size() -> int {
    EROSION_DISPATCH_SIZE * EROSION_WORKGROUP_SIZE
}

/// Number of height samples along each side of the eroded map.
pub open spec fn map_side() -> int {
    CHUNK_WORLD_SIZE[0] * HEIGHTMAP_CHUNK_SIZE
}

/// Whether a droplet falls on the map, with a width and flow directions in their ranges.
pub open spec fn droplet_fits(d: Droplet) -> bool {
    &&& d.position_x < map_side()
    &&& d.position_y < map_side()
    &&& MIN_DROPLET_SIZE <= d.radius <= MAX_DROPLET_SIZE
    &&& d.direction_x <= 1
    &&& d.direction_y <= 1
}

/// A random number generator seeded with `seed`, through `rand`'s `StdRng::seed_from_u64`.
/// Nothing is stated of its state.
#[verifier::external_body]
fn seeded_rng(seed: u64) -> rand::rngs::StdRng {
    rand::rngs::StdRng::seed_from_u64(seed)
}

/// A number drawn from `low..=high` with `rand`'s `Uniform::new_inclusive(low, high)` and its
/// `sample`; `rand` panics when `low > high`. The contract states only the range: the number
/// itself rests on the generator's state.
#[verifier::external_body]
pub(crate) fn sample_inclusive(rng: &mut rand::rngs::StdRng, low: u32, high: u32) -> (r: u32)
    requires
        low <= high,
    ensures
        low <= r <= high,
{
    rand::distributions::Uniform::new_inclusive(low, high).sample(rng)
}

/// A new batch of droplets, each drawn in turn and recorded in `log`: its position along `x`,
/// along `y`, its width, and its flow direction along `x` and `y`. Each of the five is a draw of
/// its own: droplet `i` takes the five draws after the `5 * i` made for the droplets before it.
pub fn draw_droplets(log: &mut DrawLog, rng: &mut rand::rngs::StdRng) -> (r: Vec<Droplet>)
    ensures
        r@.len() == batch_size(),
        final(log).draws().len() == old(log).draws().len() + 5 * batch_size(),
        final(log).draws().take(old(log).draws().len() as int) == old(log).draws(),
        forall|i: int| 0 <= i < r@.len() ==> droplet_fits(#[trigger] r@[i]),
        forall|i: int|
            #![trigger r@[i]]
            0 <= i < r@.len() ==> {
                let b = old(log).draws().len() + 5 * i;
                &&& r@[i].position_x == final(log).draws()[b]
                &&& r@[i].position_y == final(log).draws()[b + 1]
                &&& r@[i].radius == final(log).draws()[b + 2]
                &&& r@[i].direction_x == final(log).draws()[b + 3]
                &&& r@[i].direction_y == final(log).draws()[b + 4]
            },
{
    let ghost base = log.draws().len() as int;
    let ghost start = log.draws();
    let count: u64 = EROSION_DISPATCH_SIZE * EROSION_WORKGROUP_SIZE;
    let last_position: u32 = CHUNK_WORLD_SIZE[0] * HEIGHTMAP_CHUNK_SIZE - 1;
    let mut droplets: Vec<Droplet> = Vec::new();
    let mut i: u64 = 0;
    while i < count
        invariant
            i <= count,
            count == batch_size(),
            last_position == map_side() - 1,
            droplets@.len() == i,
            log.draws().len() == base + 5 * i,
            log.draws().take(base) == start,
            start.len() == base,
            forall|j: int| 0 <= j < droplets@.len() ==> droplet_fits(#[trigger] droplets@[j]),
            forall|j: int|
                #![trigger droplets@[j]]
                0 <= j < droplets@.len() ==> {
                    let b = base + 5 * j;
                    &&& droplets@[j].position_x == log.draws()[b]
                    &&& droplets@[j].position_y == log.draws()[b + 1]
                    &&& droplets@[j].radius == log.draws()[b + 2]
                    &&& droplets@[j].direction_x == log.draws()[b + 3]
                    &&& droplets@[j].direction_y == log.draws()[b + 4]
                },
        decreases count - i,
    {
        let ghost before = log.draws();
        let position_x = log.draw(rng, 0, last_position);
        let position_y = log.draw(rng, 0, last_position);
        let radius = log.draw(rng, MIN_DROPLET_SIZE, MAX_DROPLET_SIZE);
        let direction_x = log.draw(rng, 0, 1);
        let direction_y = log.draw(rng, 0, 1);
        proof {
            let now = log.draws();
            assert(now == before.push(position_x).push(position_y).push(radius).push(direction_x).push(
                direction_y,
            ));
            assert forall|k: int| 0 <= k < before.len() implies #[trigger] now[k] == before[k] by {}
            assert(now.take(base) =~= before.take(base));
        }
        droplets.push(Droplet { position_x, position_y, radius, direction_x, direction_y });
        i = i + 1;
    }
    droplets
}

/// A new batch of droplets, each drawn in turn: its position along `x`, along `y`, its width,
/// and its flow direction along `x` and `y` (see [`draw_droplets`]).
pub fn new_droplets(rng: &mut rand::rngs::StdRng) -> (r: Vec<Droplet>)
    ensures
        r@.len() == batch_size(),
        forall|i: int| 0 <= i < r@.len() ==> droplet_fits(#[trigger] r@[i]),
{
    let mut log = DrawLog::new();
    draw_droplets(&mut log, rng)
}

/// An erosion of `erosion_amount` batches requested for a world generated with `seed`: the
/// erosion runs with every batch still to send, and its first batch of droplets is drawn from a
/// generator seeded with `seed`, which is handed back for the later batches.
pub fn start_erosion(seed: u32, erosion_amount: u32) -> (r: (ErosionState, rand::rngs::StdRng, Vec<Droplet>))
    ensures
        r.0 == (ErosionState { remaining: erosion_amount, working: true }),
        r.2@.len() == batch_size(),
        forall|i: int| 0 <= i < r.2@.len() ==> droplet_fits(#[trigger] r.2@[i]),
{
    let state = begin_erosion(erosion_amount);
    let mut rng = seeded_rng(seed as u64);
    let droplets = new_droplets(&mut rng);
    (state, rng, droplets)
}

/// The state after an erosion of `erosion_amount` batches is requested: it runs, with all
/// batches still to send.
pub fn begin_erosion(erosion_amount: u32) -> (r: ErosionState)
    ensures
        r == (ErosionState { remaining: erosion_amount, working: true }),
{
    ErosionState { remaining: erosion_amount, working: true }
}

/// One frame of a running erosion: once the worker is `ready` with its last batch, the next
/// batch is sent while some remain, else the result is read back and the erosion stops. While
/// the worker is busy, or no erosion runs, nothing happens.
pub open spec fn erosion_step(state: ErosionState, ready: bool) -> (ErosionState, ErosionAction) {
    if !state.working || !ready {
        (state, ErosionAction::Wait)
    } else if state.remaining == 0 {
        (ErosionState { remaining: 0, working: false }, ErosionAction::Finish)
    } else {
        (ErosionState { remaining: (state.remaining - 1) as u32, working: true }, ErosionAction::Dispatch)
    }
}

/// The state of an erosion after `k` frames on which the worker was ready.
pub open spec fn erosion_after(state: ErosionState, k: nat) -> ErosionState
    decreases k,
{
    if k == 0 {
        state
    } else {
        erosion_step(erosion_after(state, (k - 1) as nat), true).0
    }
}

/// One frame of a running erosion (see [`erosion_step`]).
pub fn advance_erosion(state: ErosionState, ready: bool) -> (r: (ErosionState, ErosionAction))
    ensures
        r == erosion_step(state, ready),
{
    if !state.working || !ready {
        (state, ErosionAction::Wait)
    } else if state.remaining == 0 {
        (ErosionState { remaining: 0, working: false }, ErosionAction::Finish)
    } else {
        (ErosionState { remaining: state.remaining - 1, working: true }, ErosionAction::Dispatch)
    }
}

/// An erosion of `n` batches, with the worker ready on every frame, sends a new batch on each of
/// its first `n` frames, reads the result back on the next one, and then rests.
pub proof fn law_erosion_sends_every_batch(n: u32)
    ensures
        forall|k: nat| k < n ==> (#[trigger] erosion_step(erosion_after(ErosionState { remaining: n, working: true }, k), true)).1
            == ErosionAction::Dispatch,
        erosion_step(erosion_after(ErosionState { remaining: n, working: true }, n as nat), true)
            == (ErosionState { remaining: 0, working: false }, ErosionAction::Finish),
        erosion_after(ErosionState { remaining: n, working: true }, (n + 1) as nat) == (ErosionState { remaining: 0, working: false }),
        forall|ready: bool| #[trigger] erosion_step(ErosionState { remaining: 0, working: false }, ready).1 == ErosionAction::Wait,
{
    let start = ErosionState { remaining: n, working: true };
    lemma_erosion_counts_down(n, n as nat);
    assert forall|k: nat| k < n implies (#[trigger] erosion_step(erosion_after(start, k), true)).1 == ErosionAction::Dispatch by {
        lemma_erosion_counts_down(n, k);
    }
}

/// While batches remain, each ready frame takes one off.
proof fn lemma_erosion_counts_down(n: u32, k: nat)
    requires
        k <= n,
    ensures
        erosion_after(ErosionState { remaining: n, working: true }, k) == (ErosionState { remaining: (n - k) as u32, working: true }),
    decreases k,
{
    if k > 0 {
        lemma_erosion_counts_down(n, (k - 1) as nat);
    }
}

} // verus!
