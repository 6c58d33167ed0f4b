use vstd::prelude::*;

verus! {

/// A sequential source of random draws. Construction threads it explicitly
/// through the call chain, so a caller can substitute a deterministic,
/// scripted source for a reproducible tree shape.
pub trait RandomSource {
    /// Draws the next value, below `bound`.
    fn next_below(&mut self, bound: u32) -> (r: u32)
        requires
            1 <= bound,
        ensures
            r < bound,
    ;
}

/// Relies on `rand::thread_rng` and `rand::Rng::gen_range`: a draw from the
/// half-open range `0..bound` lies below `bound`, and the range is not empty.
#[verifier::external_body]
fn draw_below(bound: u32) -> (r: u32)
    requires
        1 <= bound,
    ensures
        r < bound,
{
    rand::Rng::gen_range(&mut rand::thread_rng(), 0..bound)
}

/// A source backed by the `rand` crate's thread-local generator.
pub struct ThreadRandom {}

impl RandomSource for ThreadRandom {
    fn next_below(&mut self, bound: u32) -> (r: u32) {
        draw_below(bound)
    }
}

/// A deterministic source replaying a fixed script: each draw is the next
/// script entry taken modulo the requested bound, and an exhausted script
/// yields zero.
pub struct ScriptedRandom {
    draws: Vec<u32>,
    pos: usize,
}

impl ScriptedRandom {
    /// The full script of draws this source replays.
    pub closed spec fn script(&self) -> Seq<u32> {
        self.draws@
    }

    /// How many draws have been taken so far.
    pub closed spec fn position(&self) -> nat {
        self.pos as nat
    }

    pub fn new(draws: Vec<u32>) -> (s: Self)
        ensures
            s.script() == draws@,
            s.position() == 0,
    {
        ScriptedRandom { draws, pos: 0 }
    }
}

impl RandomSource for ScriptedRandom {
    fn next_below(&mut self, bound: u32) -> (r: u32)
        ensures
            final(self).script() == old(self).script(),
            old(self).position() < old(self).script().len() ==> r == old(self).script()[
                old(self).position() as int
            ] % bound,
            old(self).position() < old(self).script().len() ==> final(self).position() == old(
                self,
            ).position() + 1,
            old(self).position() >= old(self).script().len() ==> r == 0 && final(self).position()
                == old(self).position(),
    {
        if self.pos < self.draws.len() {
            let d = self.draws[self.pos];
            self.pos = self.pos + 1;
            d % bound
        } else {
            0
        }
    }
}

} // verus!
