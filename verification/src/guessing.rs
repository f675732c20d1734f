//! The guessing game: a secret drawn once per round, and the verified
//! decision logic that compares each guess to it.

use vstd::prelude::*;

use rand::Rng;

verus! {

/// What a single guess reveals about the secret.
#[derive(PartialEq, Eq, Structural, Clone, Copy, Debug)]
pub enum GuessOutcome {
    TooSmall,
    TooBig,
    Win,
}

/// Relies on rand::Rng::gen_range over the inclusive range from 1 to 100:
/// the sample lies within the range, which is not empty. Nothing is
/// assumed about which value within it comes back.
#[verifier::external_body]
fn draw_secret() -> (r: u32)
    ensures
        1 <= r <= 100,
{
    rand::thread_rng().gen_range(1..=100)
}

/// Compare a guess to the secret.
pub fn evaluate_guess(secret: u32, guess: u32) -> (r: GuessOutcome)
    ensures
        (r == GuessOutcome::TooSmall) <==> guess < secret,
        (r == GuessOutcome::TooBig) <==> guess > secret,
        (r == GuessOutcome::Win) <==> guess == secret,
{
    if guess < secret {
        GuessOutcome::TooSmall
    } else if guess > secret {
        GuessOutcome::TooBig
    } else {
        GuessOutcome::Win
    }
}

/// One round of the game: a secret between 1 and 100, drawn at the start
/// and fixed for the round.
pub struct GuessingGame {
    secret: u32,
}

impl GuessingGame {
    /// The secret of this round.
    pub closed spec fn spec_secret(&self) -> u32 {
        self.secret
    }

    /// The secret lies between 1 and 100.
    pub open spec fn wf(&self) -> bool {
        1 <= self.spec_secret() <= 100
    }

    /// Start a round by drawing a secret.
    pub fn start() -> (g: GuessingGame)
        ensures
            g.wf(),
    {
        GuessingGame { secret: draw_secret() }
    }

    /// Compare a guess to this round's secret.
    pub fn check(&self, guess: u32) -> (r: GuessOutcome)
        ensures
            (r == GuessOutcome::TooSmall) <==> guess < self.spec_secret(),
            (r == GuessOutcome::TooBig) <==> guess > self.spec_secret(),
            (r == GuessOutcome::Win) <==> guess == self.spec_secret(),
    {
        evaluate_guess(self.secret, guess)
    }
}

} // verus!
