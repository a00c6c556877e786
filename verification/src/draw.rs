//! A record of the values drawn from the random generator.
use vstd::prelude::*;
use rand::Rng;

verus! {

/// `Rng::gen_range` on the inclusive range `low..=high`: rand documents the
/// result to lie in the range (which one is chance), and panics on an empty range.
#[verifier::external_body]
fn gen_range_inclusive(rng: &mut rand::rngs::ThreadRng, low: u8, high: u8) -> (r: u8)
    requires
        low <= high,
    ensures
        low <= r <= high,
{
    rng.gen_range(low..=high)
}

/// The letter codes drawn so far, in the order drawn. It starts empty and
/// grows only by `draw`, one entry per call of the generator.
pub struct DrawLog {
    draws: Ghost<Seq<u8>>,
}

impl View for DrawLog {
    type V = Seq<u8>;

    closed spec fn view(&self) -> Seq<u8> {
        self.draws@
    }
}

impl DrawLog {
    /// An empty record.
    pub fn new() -> (l: DrawLog)
        ensures
            l@ == Seq::<u8>::empty(),
    {
        DrawLog { draws: Ghost(Seq::empty()) }
    }

    /// Draws one value in `low..=high` with the generator and records it.
    pub fn draw(&mut self, rng: &mut rand::rngs::ThreadRng, low: u8, high: u8) -> (b: u8)
        requires
            low <= high,
        ensures
            low <= b <= high,
            final(self)@ == old(self)@.push(b),
    {
        let b: u8 = gen_range_inclusive(rng, low, high);
        self.draws = Ghost(self.draws@.push(b));
        b
    }
}

} // verus!
