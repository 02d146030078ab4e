//! What the query side of a shard computes: requests to schedule, and
//! summaries of the state.

use crate::message::Operation;
use crate::session::{sessions_view, GameState, SessionView};
use crate::shard::{chain_id_from_text, is_shard_text};
use crate::state::{GameStats, SnakeGameState};
use vstd::prelude::*;
use vstd::string::*;

verus! {

/// What a request to the shard comes to: the operation to schedule, if the
/// request is in order, and the words that answer it.
#[derive(Debug)]
pub struct ScheduledRequest {
    pub operation: Option<Operation>,
    pub reply: String,
}

/// The words that answer a request to name the authority `text`.
pub open spec fn setup_reply(text: Seq<char>) -> Seq<char> {
    if is_shard_text(text) {
        "Setup leaderboard with chain ID: "@ + text
    } else {
        "Invalid chain ID format: "@ + text
    }
}

/// Reads a request to name the authority shard. The identifier comes as
/// text: where it is one, the operation that names it is to be scheduled.
pub fn setup_leaderboard(leaderboard_chain_id: &str) -> (request: ScheduledRequest)
    ensures
        request.reply@ == setup_reply(leaderboard_chain_id@),
        request.operation is Some <==> is_shard_text(leaderboard_chain_id@),
        request.operation matches Some(operation) ==> operation matches Operation::ConfigureAuthority {
            authority_shard_id,
        } && authority_shard_id.spelled_by(leaderboard_chain_id@),
{
    match chain_id_from_text(leaderboard_chain_id) {
        Some(authority_shard_id) => {
            let mut reply = String::from_str("Setup leaderboard with chain ID: ");
            reply.append(leaderboard_chain_id);
            ScheduledRequest {
                operation: Some(Operation::ConfigureAuthority { authority_shard_id }),
                reply,
            }
        },
        None => {
            let mut reply = String::from_str("Invalid chain ID format: ");
            reply.append(leaderboard_chain_id);
            ScheduledRequest { operation: None, reply }
        },
    }
}

/// The words that answer a request to name the player `name`.
pub open spec fn name_reply(name: Seq<char>) -> Seq<char> {
    "Player name set to '"@ + name + "' successfully"@
}

/// Reads a request to name the player of this shard: the operation that
/// sets the name is to be scheduled.
pub fn set_player_name(name: String) -> (request: ScheduledRequest)
    ensures
        request.reply@ == name_reply(name@),
        request.operation matches Some(Operation::SetPlayerName { name: scheduled }) && scheduled@
            == name@,
{
    let mut reply = String::from_str("Player name set to '");
    reply.append(name.as_str());
    reply.append("' successfully");
    ScheduledRequest { operation: Some(Operation::SetPlayerName { name }), reply }
}

/// The test that the game of a record has ended.
pub open spec fn is_finished() -> spec_fn(SessionView) -> bool {
    |session: SessionView| session.state == GameState::Finished
}

impl SnakeGameState {
    /// Counts the games started on this shard, those of them that have
    /// ended, and the players with statistics.
    pub fn game_stats(&self) -> (summary: GameStats)
        ensures
            summary.total_sessions == self@.sessions.len(),
            summary.finished_games == self@.sessions.filter(is_finished()).len(),
            summary.total_players == self@.player_stats.dom().len(),
    {
        let ghost records = self@.sessions;
        let mut finished_games: u64 = 0;
        let mut index: usize = 0;
        assert(records.take(0).filter(is_finished()).len() == 0) by {
            reveal(Seq::filter);
        }
        while index < self.sessions.len()
            invariant
                index <= self.sessions@.len(),
                records == sessions_view(self.sessions@),
                finished_games == records.take(index as int).filter(is_finished()).len(),
                finished_games <= index,
            decreases self.sessions@.len() - index,
        {
            proof {
                assert(records.take(index + 1) =~= records.take(index as int).push(
                    records[index as int],
                ));
                records.take(index as int).lemma_filter_push(records[index as int], is_finished());
                assert(records[index as int] == self.sessions@[index as int]@);
            }
            if self.sessions[index].state == GameState::Finished {
                finished_games = finished_games + 1;
            }
            index = index + 1;
        }
        assert(records.take(index as int) =~= records);
        GameStats {
            total_sessions: self.sessions.len() as u64,
            finished_games,
            total_players: self.player_stats.len() as u64,
        }
    }
}

} // verus!
