//! The player's score.
use vstd::prelude::*;
use crate::engine::update::{Delta, Updatable};
use crate::error::{Result, Status};

verus! {

#[derive(Debug, Clone, Copy, PartialEq, Eq, Structural)]
pub struct Score {
    pub score: i64,
    pub turn: i64,
}

impl Updatable for Score {}

/// An amount to add to the score.
#[derive(Debug, Clone, Copy, PartialEq, Eq, Structural)]
pub struct ScoreDelta {
    pub score: i64,
}

impl Delta for ScoreDelta {
    type Target = Score;

    fn new() -> (r: ScoreDelta)
        ensures
            r.score == 0,
    {
        ScoreDelta { score: 0 }
    }

    /// Adds the amount; a sum outside `i64` is refused and nothing changes.
    fn apply(&self, target: &mut Score) -> (r: Result<()>)
        ensures
            final(target).turn == old(target).turn,
            match r {
                Ok(_) => i64::MIN <= old(target).score + self.score <= i64::MAX && final(target).score
                    == old(target).score + self.score,
                Err(e) => !(i64::MIN <= old(target).score + self.score <= i64::MAX) && e
                    == Status::StateUpdateError && final(target).score == old(target).score,
            },
    {
        match target.score.checked_add(self.score) {
            Some(s) => {
                target.score = s;
                Ok(())
            },
            None => Err(Status::StateUpdateError),
        }
    }
}

} // verus!
