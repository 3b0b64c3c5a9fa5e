use vstd::prelude::*;
use rand::Rng;

verus! {

#[derive(Debug, Clone, Copy, PartialEq, Eq, Structural)]
pub struct DiceRoll {
    pub die1: u8,
    pub die2: u8,
}

/// One die throw from the thread-local generator of `rand`.
///
/// Trusted: `rand::Rng::gen_range` on the non-empty range `1..=6` returns a
/// value of that range; which one is left to chance, so nothing more is claimed.
#[verifier::external_body]
fn throw_die() -> (d: u8)
    ensures
        1 <= d <= 6,
{
    rand::thread_rng().gen_range(1..=6u8)
}

impl DiceRoll {
    /// Both dice show a face from 1 to 6.
    pub open spec fn is_valid(self) -> bool {
        1 <= self.die1 <= 6 && 1 <= self.die2 <= 6
    }

    pub fn roll() -> (r: Self)
        ensures
            r.is_valid(),
    {
        let die1 = throw_die();
        let die2 = throw_die();
        Self { die1, die2 }
    }

    pub fn total(&self) -> (t: u8)
        requires
            self.die1 + self.die2 <= u8::MAX,
        ensures
            t == self.die1 + self.die2,
    {
        self.die1 + self.die2
    }

    pub fn is_doubles(&self) -> (b: bool)
        ensures
            b == (self.die1 == self.die2),
    {
        self.die1 == self.die2
    }
}

} // verus!
