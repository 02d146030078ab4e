//! The running statistics of one player.

use crate::shard::ShardId;
use crate::text::{decimal, decimal_text};
use vstd::prelude::*;
use vstd::string::*;

verus! {

/// Player statistics: how many games, the personal best, the candies in
/// total, and the streaks of games that each set a new personal best.
#[derive(Clone, Copy, Debug, PartialEq, Eq, Structural)]
pub struct PlayerStats {
    pub shard_id: ShardId,
    pub games_played: u32,
    pub highest_score: u32,
    pub total_candies: u64,
    pub current_streak: u32,
    pub best_streak: u32,
    pub last_game_timestamp: u64,
}

/// One finished game, as the statistics see it.
#[derive(Debug)]
pub struct GameResult {
    pub candies_collected: u32,
    pub timestamp: u64,
}

/// The title that goes with a personal best.
pub open spec fn rank_title(highest_score: u32) -> Seq<char> {
    if highest_score >= 100 {
        "Master"@
    } else if highest_score >= 50 {
        "Expert"@
    } else if highest_score >= 20 {
        "Advanced"@
    } else if highest_score >= 5 {
        "Intermediate"@
    } else {
        "Beginner"@
    }
}

/// The words that describe a streak of `current_streak` record games.
pub open spec fn streak_words(current_streak: u32) -> Seq<char> {
    if current_streak == 0 {
        "No current streak"@
    } else {
        decimal(current_streak as nat) + " game win streak"@
    }
}

impl PlayerStats {
    /// The statistics of a player who has not played yet.
    pub open spec fn fresh(shard_id: ShardId) -> PlayerStats {
        PlayerStats {
            shard_id,
            games_played: 0,
            highest_score: 0,
            total_candies: 0,
            current_streak: 0,
            best_streak: 0,
            last_game_timestamp: 0,
        }
    }

    /// Whether a game with this many candies is a record: strictly above the
    /// personal best.
    pub open spec fn beaten_by(self, candies_collected: u32) -> bool {
        candies_collected > self.highest_score
    }

    /// Whether the counters can take one more game without overflow.
    pub open spec fn has_room_for(self, candies_collected: u32) -> bool {
        &&& self.games_played < u32::MAX
        &&& self.total_candies + candies_collected <= u64::MAX
        &&& self.beaten_by(candies_collected) ==> self.current_streak < u32::MAX
    }

    /// The statistics after one more game.
    pub open spec fn with_game(self, candies_collected: u32, timestamp: u64) -> PlayerStats {
        let streak = (self.current_streak + 1) as u32;
        PlayerStats {
            shard_id: self.shard_id,
            games_played: (self.games_played + 1) as u32,
            highest_score: if self.beaten_by(candies_collected) {
                candies_collected
            } else {
                self.highest_score
            },
            total_candies: (self.total_candies + candies_collected) as u64,
            current_streak: if self.beaten_by(candies_collected) {
                streak
            } else {
                0
            },
            best_streak: if self.beaten_by(candies_collected) && streak > self.best_streak {
                streak
            } else {
                self.best_streak
            },
            last_game_timestamp: timestamp,
        }
    }

    /// The statistics after a run of games, earliest first.
    pub open spec fn with_games(self, games: Seq<GameResult>) -> PlayerStats
        decreases games.len(),
    {
        if games.len() == 0 {
            self
        } else {
            self.with_games(games.drop_last()).with_game(
                games.last().candies_collected,
                games.last().timestamp,
            )
        }
    }

    /// The statistics after a leaderboard reset: the counters start over, the
    /// owner and the time of the last game stay.
    pub open spec fn cleared(self) -> PlayerStats {
        PlayerStats {
            shard_id: self.shard_id,
            games_played: 0,
            highest_score: 0,
            total_candies: 0,
            current_streak: 0,
            best_streak: 0,
            last_game_timestamp: self.last_game_timestamp,
        }
    }

    pub fn new(shard_id: ShardId) -> (stats: PlayerStats)
        ensures
            stats == PlayerStats::fresh(shard_id),
    {
        PlayerStats {
            shard_id,
            games_played: 0,
            highest_score: 0,
            total_candies: 0,
            current_streak: 0,
            best_streak: 0,
            last_game_timestamp: 0,
        }
    }

    /// Tells whether `add_game` may be called with this many candies.
    pub fn can_add_game(&self, candies_collected: u32) -> (result: bool)
        ensures
            result == self.has_room_for(candies_collected),
    {
        self.games_played < u32::MAX && self.total_candies <= u64::MAX - (candies_collected as u64)
            && (candies_collected <= self.highest_score || self.current_streak < u32::MAX)
    }

    /// Counts one more game, and tells whether it set a new personal best.
    pub fn add_game(&mut self, candies_collected: u32, timestamp: u64) -> (is_record: bool)
        requires
            old(self).has_room_for(candies_collected),
        ensures
            *final(self) == old(self).with_game(candies_collected, timestamp),
            is_record == old(self).beaten_by(candies_collected),
    {
        self.games_played = self.games_played + 1;
        self.total_candies = self.total_candies + (candies_collected as u64);
        self.last_game_timestamp = timestamp;
        let is_record = candies_collected > self.highest_score;
        if is_record {
            self.highest_score = candies_collected;
            self.current_streak = self.current_streak + 1;
            if self.current_streak > self.best_streak {
                self.best_streak = self.current_streak;
            }
        } else {
            self.current_streak = 0;
        }
        is_record
    }

    /// Starts the counters over, as a leaderboard reset asks.
    pub fn clear(&mut self)
        ensures
            *final(self) == old(self).cleared(),
    {
        self.highest_score = 0;
        self.games_played = 0;
        self.total_candies = 0;
        self.current_streak = 0;
        self.best_streak = 0;
    }

    /// The player's title, by personal best.
    pub fn estimated_rank(&self) -> (title: String)
        ensures
            title@ == rank_title(self.highest_score),
    {
        if self.highest_score >= 100 {
            String::from_str("Master")
        } else if self.highest_score >= 50 {
            String::from_str("Expert")
        } else if self.highest_score >= 20 {
            String::from_str("Advanced")
        } else if self.highest_score >= 5 {
            String::from_str("Intermediate")
        } else {
            String::from_str("Beginner")
        }
    }

    /// The current streak, in words.
    pub fn streak_description(&self) -> (words: String)
        ensures
            words@ == streak_words(self.current_streak),
    {
        if self.current_streak == 0 {
            String::from_str("No current streak")
        } else {
            let mut words = decimal_text(self.current_streak as u64);
            words.append(" game win streak");
            words
        }
    }

    /// After any run of games the personal best is the highest score seen,
    /// the earlier best included, and every game of the run was counted.
    pub proof fn lemma_with_games(self, games: Seq<GameResult>)
        requires
            self.games_played + games.len() <= u32::MAX,
        ensures
            self.with_games(games).games_played == self.games_played + games.len(),
            self.with_games(games).shard_id == self.shard_id,
            self.with_games(games).highest_score >= self.highest_score,
            forall|i: int|
                0 <= i < games.len() ==> (#[trigger] games[i]).candies_collected
                    <= self.with_games(games).highest_score,
            self.with_games(games).highest_score == self.highest_score || exists|i: int|
                0 <= i < games.len() && (#[trigger] games[i]).candies_collected
                    == self.with_games(games).highest_score,
        decreases games.len(),
    {
        if games.len() > 0 {
            let earlier = games.drop_last();
            self.lemma_with_games(earlier);
            let before = self.with_games(earlier);
            let after = self.with_games(games);
            assert(after == before.with_game(
                games.last().candies_collected,
                games.last().timestamp,
            ));
            assert forall|i: int| 0 <= i < games.len() implies (#[trigger] games[i]).candies_collected
                <= after.highest_score by {
                if i < earlier.len() {
                    assert(games[i] == earlier[i]);
                }
            }
            if after.highest_score != self.highest_score {
                if before.beaten_by(games.last().candies_collected) {
                    assert(games[games.len() - 1].candies_collected == after.highest_score);
                } else {
                    let i = choose|i: int|
                        0 <= i < earlier.len() && (#[trigger] earlier[i]).candies_collected
                            == before.highest_score;
                    assert(games[i] == earlier[i]);
                }
            }
        }
    }

    /// For a player who starts without statistics, the personal best after a
    /// run of games is the greatest score of the run, and the number of games
    /// played is the length of the run.
    pub proof fn lemma_first_games(shard_id: ShardId, games: Seq<GameResult>)
        requires
            0 < games.len() <= u32::MAX,
        ensures
            PlayerStats::fresh(shard_id).with_games(games).games_played == games.len(),
            forall|i: int|
                0 <= i < games.len() ==> (#[trigger] games[i]).candies_collected
                    <= PlayerStats::fresh(shard_id).with_games(games).highest_score,
            exists|i: int|
                0 <= i < games.len() && (#[trigger] games[i]).candies_collected
                    == PlayerStats::fresh(shard_id).with_games(games).highest_score,
    {
        let start = PlayerStats::fresh(shard_id);
        start.lemma_with_games(games);
        if start.with_games(games).highest_score == 0 {
            assert(games[0].candies_collected == 0);
        }
    }
}

} // verus!
