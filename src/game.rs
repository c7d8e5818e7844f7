//! The state that lasts across levels: the score and the level, and what a
//! turn's outcome means for them.

use vstd::prelude::*;

verus! {

/// Robots on the field of level one; each level adds as many.
pub const ROBOTS_PER_LEVEL: usize = 5;

/// The most robots that a level starts with.
pub const MAX_ROBOTS: usize = 40;

/// Points for clearing a level, times the level's number.
pub const LEVEL_BONUS: u64 = 10;

/// What a turn decided.
#[derive(Clone, Copy, Debug, PartialEq, Eq, Structural)]
pub enum Verdict {
    /// The player is safe and robots remain.
    Continue,
    /// The player is safe and no robot remains: the level is cleared.
    Won,
    /// The player was caught.
    Lost,
}

/// Score and level of a game in progress.
pub struct Game {
    pub score: u64,
    pub level: u32,
}

/// `a + b`, or `u64::MAX` when the sum does not fit.
pub open spec fn capped_sum(a: u64, b: u64) -> u64 {
    if a + b > u64::MAX {
        u64::MAX
    } else {
        (a + b) as u64
    }
}

/// How many robots level `level` starts with.
pub open spec fn robots_for(level: u32) -> usize {
    if level * ROBOTS_PER_LEVEL < MAX_ROBOTS {
        (level * ROBOTS_PER_LEVEL) as usize
    } else {
        MAX_ROBOTS
    }
}

impl Game {
    /// A game at level one with no points.
    pub fn new() -> (g: Game)
        ensures
            g.score == 0,
            g.level == 1,
    {
        Game { score: 0, level: 1 }
    }

    /// How many robots the field of the current level starts with: five per
    /// level, at most forty.
    pub fn robots_num(&self) -> (n: usize)
        ensures
            n == robots_for(self.level),
    {
        if self.level as usize >= MAX_ROBOTS / ROBOTS_PER_LEVEL {
            MAX_ROBOTS
        } else {
            self.level as usize * ROBOTS_PER_LEVEL
        }
    }

    /// Takes in what `Field::robots_move` returned and how many robots are
    /// left after it.  A caught player loses, and the score stays as it was
    /// before the turn.  Otherwise the robots destroyed score a point each,
    /// and the level is won exactly when no robot is left.
    pub fn settle(&mut self, outcome: Option<u64>, robots_left: usize) -> (v: Verdict)
        ensures
            final(self).level == old(self).level,
            match outcome {
                None => v == Verdict::Lost && final(self).score == old(self).score,
                Some(points) => {
                    &&& final(self).score == capped_sum(old(self).score, points)
                    &&& v == if robots_left == 0 {
                        Verdict::Won
                    } else {
                        Verdict::Continue
                    }
                },
            },
    {
        match outcome {
            None => Verdict::Lost,
            Some(points) => {
                self.score = self.score.saturating_add(points);
                if robots_left == 0 {
                    Verdict::Won
                } else {
                    Verdict::Continue
                }
            },
        }
    }

    /// Closes a cleared level: adds the bonus of ten points per level and
    /// moves on to the next level.
    pub fn next_level(&mut self)
        ensures
            final(self).score == capped_sum(old(self).score, (old(self).level * LEVEL_BONUS) as u64),
            final(self).level == if old(self).level < u32::MAX {
                (old(self).level + 1) as u32
            } else {
                u32::MAX
            },
    {
        let bonus = self.level as u64 * LEVEL_BONUS;
        self.score = self.score.saturating_add(bonus);
        self.level = self.level.saturating_add(1);
    }
}

} // verus!
