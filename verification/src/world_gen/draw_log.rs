use vstd::prelude::*;

use crate::world_gen::erosion::sample_inclusive;

verus! {

/// The numbers drawn so far through [`DrawLog::draw`], in the order they were drawn. Only
/// `draw` adds to it, so it records what each draw gave.
pub struct DrawLog {
    draws: Ghost<Seq<u32>>,
}

impl DrawLog {
    /// The numbers drawn so far, in order.
    pub closed spec fn draws(&self) -> Seq<u32> {
        self.draws@
    }

    /// A log of no draws.
    pub fn new() -> (r: DrawLog)
        ensures
            r.draws() == Seq::<u32>::empty(),
    {
        DrawLog { draws: Ghost(Seq::empty()) }
    }

    /// Draws a number from `low..=high` with the generator and records it.
    pub fn draw(&mut self, rng: &mut rand::rngs::StdRng, low: u32, high: u32) -> (r: u32)
        requires
            low <= high,
        ensures
            low <= r <= high,
            final(self).draws() == old(self).draws().push(r),
    {
        let r = sample_inclusive(rng, low, high);
        self.draws = Ghost(self.draws@.push(r));
        r
    }
}

} // verus!
