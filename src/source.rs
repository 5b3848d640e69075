//! The random source: rand's `SmallRng`, seeded once and drawn from by the
//! stars that need entropy, with a record of every value it has handed out.
use vstd::prelude::*;
use rand::rngs::SmallRng;

verus! {

/// rand's small, fast generator, held opaque.
#[verifier::external_type_specification]
#[verifier::external_body]
pub struct ExSmallRng(SmallRng);

/// Relies on `rand_core::SeedableRng::seed_from_u64` as `SmallRng` inherits
/// it: a generator whose whole output is fixed by the seed. Nothing is
/// promised of the state it starts in.
#[verifier::external_body]
fn seeded(seed: u64) -> (r: SmallRng) {
    <SmallRng as rand::SeedableRng>::seed_from_u64(seed)
}

/// Relies on `rand::RngCore::next_u32` for `SmallRng`: the next 32-bit output
/// of the generator. It never fails or blocks; nothing is promised of the value.
#[verifier::external_body]
fn next_draw(rng: &mut SmallRng) -> (r: u32) {
    rand::RngCore::next_u32(rng)
}

/// A seeded generator, together with the sequence of values drawn from it so
/// far, oldest first.
pub struct Source {
    rng: SmallRng,
    drawn: Ghost<Seq<u32>>,
}

impl Source {
    /// Every value drawn from this source, in the order drawn.
    pub closed spec fn drawn(&self) -> Seq<u32> {
        self.drawn@
    }

    /// A source seeded with `seed`, nothing drawn yet.
    pub fn new(seed: u64) -> (r: Source)
        ensures
            r.drawn() == Seq::<u32>::empty(),
    {
        Source { rng: seeded(seed), drawn: Ghost(Seq::empty()) }
    }

    /// The next value of the generator; it is appended to the record.
    pub fn draw(&mut self) -> (r: u32)
        ensures
            final(self).drawn() == old(self).drawn().push(r),
    {
        let r = next_draw(&mut self.rng);
        self.drawn = Ghost(self.drawn@.push(r));
        r
    }
}

} // verus!
