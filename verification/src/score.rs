//! The kill count of the current run.

use vstd::prelude::*;
use crate::player::Player;

verus! {

#[derive(Clone, Copy, Debug, PartialEq, Eq, Structural)]
pub struct GameScore {
    pub score: u32,
}

impl GameScore {
    /// The score with `kills` more kills; it stops at the largest value it can hold.
    pub open spec fn plus(self, kills: int) -> GameScore {
        GameScore {
            score: if self.score + kills > u32::MAX {
                u32::MAX
            } else {
                (self.score + kills) as u32
            },
        }
    }

    /// Counts one kill.
    pub fn add_kill(&mut self)
        ensures
            *final(self) == old(self).plus(1),
    {
        if self.score < u32::MAX {
            self.score = self.score + 1;
        }
    }

    /// Starts the count over.
    pub fn reset(&mut self)
        ensures
            final(self).score == 0,
    {
        self.score = 0;
    }
}

impl Default for GameScore {
    fn default() -> (s: Self)
        ensures
            s.score == 0,
    {
        GameScore { score: 0 }
    }
}

/// What the display shows of the run, read once per tick.
#[derive(Clone, Copy, Debug, PartialEq, Eq, Structural)]
pub struct Hud {
    pub score: u32,
    pub xp: u64,
    pub xp_to_next_level: u64,
    pub health: u32,
}

/// Reads the values for the display; nothing is changed.
pub fn hud(player: &Player, score: &GameScore) -> (h: Hud)
    ensures
        h == (Hud {
            score: score.score,
            xp: player.xp,
            xp_to_next_level: player.xp_to_next_level,
            health: player.health,
        }),
{
    Hud {
        score: score.score,
        xp: player.xp,
        xp_to_next_level: player.xp_to_next_level,
        health: player.health,
    }
}

/// Every kill counts for one: the score grows by the number of kills, up to
/// the largest value it can hold, where it stays.
pub proof fn lemma_kills_are_counted(score: GameScore, kills: int)
    requires
        kills >= 0,
    ensures
        score.score + kills <= u32::MAX ==> score.plus(kills).score == score.score + kills,
        score.score + kills > u32::MAX ==> score.plus(kills).score == u32::MAX,
        score.plus(kills).score >= score.score,
        score.plus(0) == score,
{
}

} // verus!
