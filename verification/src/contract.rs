//! The contract of one shard: what it does when it is asked to, and when a
//! message arrives.

use crate::leaderboard::{
    board_view, is_leaderboard, leaderboard_of, lemma_leaderboard_unique, rank_players,
};
use crate::message::{
    outbound_view, outbox_view, ApplicationParameters, GameError, GameMessage, Operation, Outbound,
    OutboundView, Receipt,
};
use crate::session::{
    clone_text, find_session, session_id_for, store_session, GameSession, GameState, SessionView,
};
use crate::shard::ShardId;
use crate::state::{
    lemma_reset_notices_push, notice_list, reset_notice, reset_notices_to, SnakeGameState,
    StateView,
};
use crate::stats::PlayerStats;
use vstd::prelude::*;

verus! {

/// The contract as it runs on one shard: the shard's identifier and its
/// state. Time and the bounce flag of a message come with each call; what
/// is to be sent comes back from it.
#[derive(Debug)]
pub struct SnakeGameContract {
    pub shard_id: ShardId,
    pub state: SnakeGameState,
}

impl SnakeGameContract {
    /// The contract on the shard `shard_id`, before anything has happened.
    pub fn new(shard_id: ShardId) -> (contract: SnakeGameContract)
        ensures
            contract.shard_id == shard_id,
            contract.state@ == StateView::empty(),
    {
        SnakeGameContract { shard_id, state: SnakeGameState::new() }
    }

    /// Sets the shard up with what it was deployed with.
    pub fn instantiate(&mut self, parameters: ApplicationParameters)
        ensures
            final(self).shard_id == old(self).shard_id,
            final(self).state@ == old(self).state@.instantiated(
                old(self).shard_id,
                parameters.authority_shard_id,
            ),
    {
        self.state.session_counter = 0;
        self.state.leaderboard = Vec::new();
        self.state.authority_shard_id = parameters.authority_shard_id;
        self.state.is_authority = match parameters.authority_shard_id {
            Some(authority) => authority == self.shard_id,
            None => false,
        };
        self.state.my_sessions = Vec::new();
        self.state.my_stats = None;
        self.state.current_session_id = None;
        proof {
            let after = old(self).state@.instantiated(
                old(self).shard_id,
                parameters.authority_shard_id,
            );
            assert(self.state@.leaderboard =~= after.leaderboard);
            assert(self.state@.my_sessions =~= after.my_sessions);
        }
    }

    /// Names the authority shard. This works once: a shard whose authority
    /// is named refuses, and keeps the authority that it has.
    pub fn configure_authority(&mut self, candidate: ShardId) -> (result: Result<(), GameError>)
        ensures
            final(self).shard_id == old(self).shard_id,
            old(self).state@.authority_shard_id is Some ==> result == Err::<(), GameError>(
                GameError::AlreadyConfigured,
            ) && *final(self) == *old(self),
            old(self).state@.authority_shard_id is None ==> result is Ok && final(self).state@
                == old(self).state@.configured(old(self).shard_id, candidate),
    {
        if self.state.authority_shard_id.is_some() {
            return Err(GameError::AlreadyConfigured);
        }
        self.state.authority_shard_id = Some(candidate);
        self.state.is_authority = self.shard_id == candidate;
        Ok(())
    }

    /// Gives the player of this shard the name `name`. Any shard but the
    /// authority sends the name to the authority, if one is named; the
    /// authority enters it in the directory and computes the leaderboard
    /// anew.
    pub fn set_player_name(&mut self, name: String) -> (notice: Option<Outbound>)
        ensures
            final(self).shard_id == old(self).shard_id,
            final(self).state@ == old(self).state@.named(old(self).shard_id, name@),
            outbound_view(notice) == old(self).state@.name_notice(old(self).shard_id, name@),
    {
        self.state.my_player_name = Some(name.clone());
        match self.state.authority_shard_id {
            Some(authority) => {
                if self.shard_id != authority {
                    Some(
                        Outbound {
                            destination: authority,
                            message: GameMessage::UpdatePlayerName { owner: self.shard_id, name },
                        },
                    )
                } else {
                    self.state.player_directory.insert(self.shard_id, name);
                    assert(self.state@.player_directory =~= old(self).state@.player_directory.insert(
                        self.shard_id,
                        name@,
                    ));
                    self.rebuild_global_leaderboard();
                    None
                }
            },
            None => None,
        }
    }

    /// Starts a game at time `now`. The new session is the current one,
    /// whatever was current before.
    pub fn start_session(&mut self, now: u64)
        requires
            old(self).state@.session_counter < u64::MAX,
        ensures
            final(self).shard_id == old(self).shard_id,
            final(self).state@ == old(self).state@.started(old(self).shard_id, now),
    {
        let session_id = session_id_for(&self.shard_id, self.state.session_counter);
        let session = GameSession {
            session_id: session_id.clone(),
            owner: self.shard_id,
            player_name: clone_text(&self.state.my_player_name),
            start_time: now,
            end_time: None,
            candies_collected: 0,
            is_record: false,
            state: GameState::Playing,
        };
        assert(session@ == SessionView::started(
            self.shard_id,
            self.state.session_counter,
            self.state@.my_player_name,
            now,
        ));
        self.state.session_counter = self.state.session_counter + 1;
        store_session(&mut self.state.sessions, session);
        self.state.my_sessions.push(session_id.clone());
        self.state.current_session_id = Some(session_id);
        proof {
            let after = old(self).state@.started(old(self).shard_id, now);
            assert(self.state@.my_sessions =~= after.my_sessions);
        }
    }

    /// Finds the record of the game in progress.
    fn current_session(&self) -> (found: Option<usize>)
        ensures
            found is Some <==> self.state@.has_current(),
            found matches Some(index) ==> index == self.state@.current_index() && index
                < self.state.sessions@.len(),
    {
        match &self.state.current_session_id {
            Some(session_id) => find_session(&self.state.sessions, session_id),
            None => None,
        }
    }

    /// Counts one candy in the game in progress, and tells the authority, if
    /// one is named. Without a game in progress nothing happens.
    pub fn collect_candy(&mut self) -> (result: Result<Option<Outbound>, GameError>)
        requires
            old(self).state@.has_current() ==> old(self).state@.current().candies_collected
                < u32::MAX,
        ensures
            final(self).shard_id == old(self).shard_id,
            !old(self).state@.has_current() ==> result == Err::<Option<Outbound>, GameError>(
                GameError::NoActiveSession,
            ) && *final(self) == *old(self),
            old(self).state@.has_current() ==> final(self).state@ == old(self).state@.with_candy()
                && result is Ok && outbound_view(result->Ok_0) == old(self).state@.candy_notice(
                old(self).shard_id,
            ),
    {
        match self.current_session() {
            None => Err(GameError::NoActiveSession),
            Some(index) => {
                let ghost before = self.state@.sessions;
                assert(before[index as int] == self.state.sessions@[index as int]@);
                self.state.sessions[index].candies_collected =
                    self.state.sessions[index].candies_collected + 1;
                assert(self.state@.sessions =~= before.update(
                    index as int,
                    before[index as int].with_candy(),
                ));
                match self.state.authority_shard_id {
                    Some(authority) => Ok(
                        Some(
                            Outbound {
                                destination: authority,
                                message: GameMessage::CandyCollected {
                                    session_id: self.state.sessions[index].session_id.clone(),
                                    owner: self.shard_id,
                                },
                            },
                        ),
                    ),
                    None => Ok(None),
                }
            },
        }
    }

    /// Ends the game in progress at time `now`: the record is marked as
    /// finished, the player's statistics take the game, and no game is
    /// current any more. The result goes to the authority only if it is a
    /// record. Without a game in progress nothing happens.
    pub fn end_session(&mut self, now: u64) -> (result: Result<Option<Outbound>, GameError>)
        requires
            old(self).state@.has_current() ==> old(self).state@.my_tally(
                old(self).shard_id,
            ).has_room_for(old(self).state@.current().candies_collected),
        ensures
            final(self).shard_id == old(self).shard_id,
            !old(self).state@.has_current() ==> result == Err::<Option<Outbound>, GameError>(
                GameError::NoActiveSession,
            ) && *final(self) == *old(self),
            old(self).state@.has_current() ==> final(self).state@ == old(self).state@.ended(
                old(self).shard_id,
                now,
            ) && result is Ok && outbound_view(result->Ok_0) == old(self).state@.end_notice(
                old(self).shard_id,
            ),
            old(self).state@.has_current() && !old(self).state@.ends_with_record() ==> result
                matches Ok(None),
    {
        match self.current_session() {
            None => Err(GameError::NoActiveSession),
            Some(index) => {
                let ghost before = self.state@.sessions;
                assert(before[index as int] == self.state.sessions@[index as int]@);
                let candies_collected = self.state.sessions[index].candies_collected;
                let is_record = match &self.state.my_stats {
                    Some(stats) => candies_collected > stats.highest_score,
                    None => true,
                };
                self.state.sessions[index].end_time = Some(now);
                self.state.sessions[index].state = GameState::Finished;
                self.state.sessions[index].is_record = is_record;
                assert(self.state@.sessions =~= before.update(
                    index as int,
                    before[index as int].finished(is_record, now),
                ));
                let notice = match self.state.authority_shard_id {
                    Some(authority) => {
                        if is_record {
                            Some(
                                Outbound {
                                    destination: authority,
                                    message: GameMessage::GameFinished {
                                        session_id: self.state.sessions[index].session_id.clone(),
                                        owner: self.shard_id,
                                        candies_collected,
                                        is_new_record: true,
                                    },
                                },
                            )
                        } else {
                            None
                        }
                    },
                    None => None,
                };
                let mut my_stats = match self.state.my_stats {
                    Some(stats) => stats,
                    None => PlayerStats::new(self.shard_id),
                };
                my_stats.add_game(candies_collected, now);
                self.state.my_stats = Some(my_stats);
                self.state.current_session_id = None;
                Ok(notice)
            },
        }
    }

    /// Clears the leaderboard, the statistics of every player, the
    /// participants and the session counter, and tells every participant
    /// but this shard. Only the authority may do this.
    pub fn reset_leaderboard(&mut self) -> (result: Result<Vec<Outbound>, GameError>)
        ensures
            final(self).shard_id == old(self).shard_id,
            !old(self).state@.is_authority ==> result == Err::<Vec<Outbound>, GameError>(
                GameError::NotAuthority,
            ) && *final(self) == *old(self),
            old(self).state@.is_authority ==> final(self).state@ == old(self).state@.reset()
                && result is Ok && outbox_view(result->Ok_0@) == old(self).state@.reset_notices(
                old(self).shard_id,
            ),
    {
        if !self.state.is_authority {
            return Err(GameError::NotAuthority);
        }
        let count = self.state.participants.len();
        let ghost walk = self.state.participants.walk();
        let mut outbox: Vec<Outbound> = Vec::new();
        let mut index: usize = 0;
        assert(outbox_view(outbox@) =~= reset_notices_to(walk.take(0), self.shard_id)) by {
            reveal(Seq::filter);
        }
        while index < count
            invariant
                index <= count,
                count == walk.len(),
                walk == self.state.participants.walk(),
                outbox_view(outbox@) == reset_notices_to(walk.take(index as int), self.shard_id),
            decreases count - index,
        {
            let shard = self.state.participants.member_at(index);
            proof {
                assert(walk.take(index + 1) =~= walk.take(index as int).push(shard));
                lemma_reset_notices_push(walk.take(index as int), shard, self.shard_id);
            }
            if shard != self.shard_id {
                let ghost before = outbox_view(outbox@);
                outbox.push(Outbound { destination: shard, message: GameMessage::LeaderboardReset });
                assert(outbox_view(outbox@) =~= before.push(reset_notice(shard)));
            }
            index = index + 1;
        }
        proof {
            assert(walk.take(count as int) =~= walk);
            use_type_invariant(&self.state.participants);
            self.state.participants.lemma_walk();
        }
        self.state.leaderboard = Vec::new();
        self.state.player_stats.clear();
        self.state.participants.clear();
        self.state.session_counter = 0;
        proof {
            let after = old(self).state@.reset();
            assert(self.state@.leaderboard =~= after.leaderboard);
        }
        Ok(outbox)
    }

    /// Computes the leaderboard anew from the statistics of every player and
    /// the directory of names, and publishes it in place of the old one.
    pub fn rebuild_global_leaderboard(&mut self)
        ensures
            final(self).shard_id == old(self).shard_id,
            final(self).state@ == old(self).state@.rebuilt(),
            is_leaderboard(
                final(self).state@.leaderboard,
                old(self).state@.player_stats,
                old(self).state@.player_directory,
            ),
    {
        let board = rank_players(&self.state.player_stats, &self.state.player_directory);
        proof {
            let stats = self.state@.player_stats;
            let names = self.state@.player_directory;
            assert(is_leaderboard(board_view(board@), stats, names));
            lemma_leaderboard_unique(board_view(board@), leaderboard_of(stats, names), stats, names);
        }
        self.state.leaderboard = board;
    }

    /// Counts a result of the player `owner`, received at time `now`: the
    /// player's statistics take the game, the player is a participant, and
    /// the leaderboard is computed anew.
    pub fn update_leaderboard_stats(
        &mut self,
        owner: ShardId,
        candies_collected: u32,
        is_new_record: bool,
        now: u64,
    )
        requires
            old(self).state@.tally_of(owner).has_room_for(candies_collected),
        ensures
            final(self).shard_id == old(self).shard_id,
            final(self).state@ == old(self).state@.credited(owner, candies_collected, now),
            is_leaderboard(
                final(self).state@.leaderboard,
                final(self).state@.player_stats,
                final(self).state@.player_directory,
            ),
    {
        let mut stats = match self.state.player_stats.get(&owner) {
            Some(stats) => *stats,
            None => PlayerStats::new(owner),
        };
        stats.add_game(candies_collected, now);
        self.state.player_stats.insert(owner, stats);
        self.state.participants.insert(owner);
        self.rebuild_global_leaderboard();
    }

    /// Enters the name of the player `owner` in the directory.
    fn rename_player(&mut self, owner: ShardId, name: String)
        ensures
            final(self).shard_id == old(self).shard_id,
            final(self).state@ == old(self).state@.renamed(owner, name@),
    {
        self.state.player_directory.insert(owner, name);
        assert(self.state@.player_directory =~= old(self).state@.player_directory.insert(
            owner,
            name@,
        ));
    }

    /// Starts the player's statistics over and empties this shard's copy of
    /// the leaderboard. The records of the games stay.
    fn clear_local_standing(&mut self)
        ensures
            final(self).shard_id == old(self).shard_id,
            final(self).state@ == old(self).state@.cleared(),
    {
        match self.state.my_stats {
            Some(stats) => {
                let mut stats = stats;
                stats.clear();
                self.state.my_stats = Some(stats);
            },
            None => {},
        }
        self.state.leaderboard = Vec::new();
        proof {
            let after = old(self).state@.cleared();
            assert(self.state@.leaderboard =~= after.leaderboard);
        }
    }

    /// Tells whether `execute_message` may be called with this message: the
    /// counters of the player that it speaks of leave room for it.
    pub fn accepts_message(&self, message: &GameMessage, is_bouncing: bool) -> (result: bool)
        ensures
            result == self.state@.has_room_for_message(message@, is_bouncing),
    {
        if is_bouncing || !self.state.is_authority {
            return true;
        }
        match message {
            GameMessage::GameFinished { owner, candies_collected, .. } => self.has_room_for_result(
                owner,
                *candies_collected,
            ),
            GameMessage::UpdateLeaderboard {
                owner,
                candies_collected,
                ..
            } => self.has_room_for_result(owner, *candies_collected),
            _ => true,
        }
    }

    /// Tells whether the statistics of `owner` can take one more game.
    fn has_room_for_result(&self, owner: &ShardId, candies_collected: u32) -> (result: bool)
        ensures
            result == self.state@.tally_of(*owner).has_room_for(candies_collected),
    {
        match self.state.player_stats.get(owner) {
            Some(stats) => stats.can_add_game(candies_collected),
            None => PlayerStats::new(*owner).can_add_game(candies_collected),
        }
    }

    /// Takes a message that has arrived at time `now`. A message that has
    /// bounced is dropped. Results and names are for the authority, which
    /// computes the leaderboard anew after either, and ignored elsewhere; the notice of a reset is for the player shards and
    /// ignored on the authority; a message of the reserved kind is ignored
    /// everywhere. No message is answered.
    pub fn execute_message(&mut self, message: GameMessage, is_bouncing: bool, now: u64) -> (receipt:
        Receipt)
        requires
            old(self).state@.has_room_for_message(message@, is_bouncing),
        ensures
            final(self).shard_id == old(self).shard_id,
            receipt == old(self).state@.receipt(message@, is_bouncing),
            final(self).state@ == old(self).state@.received(message@, is_bouncing, now),
            is_bouncing ==> receipt == Receipt::Bounced,
            receipt != Receipt::Applied ==> *final(self) == *old(self),
    {
        if is_bouncing {
            return Receipt::Bounced;
        }
        match message {
            GameMessage::StartGame { .. } => Receipt::Ignored,
            GameMessage::CandyCollected { .. } => {
                if self.state.is_authority {
                    Receipt::Applied
                } else {
                    Receipt::Ignored
                }
            },
            GameMessage::GameFinished { owner, candies_collected, is_new_record, .. } => {
                if self.state.is_authority {
                    self.update_leaderboard_stats(owner, candies_collected, is_new_record, now);
                    Receipt::Applied
                } else {
                    Receipt::Ignored
                }
            },
            GameMessage::UpdateLeaderboard { owner, candies_collected, is_new_record } => {
                if self.state.is_authority {
                    self.update_leaderboard_stats(owner, candies_collected, is_new_record, now);
                    Receipt::Applied
                } else {
                    Receipt::Ignored
                }
            },
            GameMessage::UpdatePlayerName { owner, name } => {
                if self.state.is_authority {
                    self.rename_player(owner, name);
                    self.rebuild_global_leaderboard();
                    Receipt::Applied
                } else {
                    Receipt::Ignored
                }
            },
            GameMessage::LeaderboardReset => {
                if self.state.is_authority {
                    Receipt::Ignored
                } else {
                    self.clear_local_standing();
                    Receipt::Applied
                }
            },
        }
    }

    /// Tells whether `execute_operation` may be called with this operation:
    /// the counters that it would raise leave room for it.
    pub fn accepts_operation(&self, operation: &Operation) -> (result: bool)
        ensures
            result == self.state@.has_room_for(self.shard_id, operation@),
    {
        match operation {
            Operation::StartSession => self.state.session_counter < u64::MAX,
            Operation::CollectCandy => match self.current_session() {
                Some(index) => {
                    assert(self.state@.sessions[index as int] == self.state.sessions@[index as int]@);
                    self.state.sessions[index].candies_collected < u32::MAX
                },
                None => true,
            },
            Operation::EndSession => match self.current_session() {
                Some(index) => {
                    assert(self.state@.sessions[index as int] == self.state.sessions@[index as int]@);
                    let candies_collected = self.state.sessions[index].candies_collected;
                    match &self.state.my_stats {
                        Some(stats) => stats.can_add_game(candies_collected),
                        None => PlayerStats::new(self.shard_id).can_add_game(candies_collected),
                    }
                },
                None => true,
            },
            _ => true,
        }
    }

    /// Carries out `operation` at time `now`, and gives back the messages to
    /// send. An operation that is refused changes nothing.
    pub fn execute_operation(&mut self, operation: Operation, now: u64) -> (result: Result<
        Vec<Outbound>,
        GameError,
    >)
        requires
            old(self).state@.has_room_for(old(self).shard_id, operation@),
        ensures
            final(self).shard_id == old(self).shard_id,
            match old(self).state@.refusal(operation@) {
                Some(error) => result == Err::<Vec<Outbound>, GameError>(error) && *final(self)
                    == *old(self),
                None => result is Ok && final(self).state@ == old(self).state@.executed(
                    old(self).shard_id,
                    operation@,
                    now,
                ) && outbox_view(result->Ok_0@) == old(self).state@.notices(
                    old(self).shard_id,
                    operation@,
                ),
            },
            operation@ is EndSession && old(self).state@.has_current()
                && !old(self).state@.ends_with_record() ==> result is Ok && result->Ok_0@.len()
                == 0,
    {
        match operation {
            Operation::ConfigureAuthority { authority_shard_id } => {
                match self.configure_authority(authority_shard_id) {
                    Ok(()) => Ok(no_notice()),
                    Err(error) => Err(error),
                }
            },
            Operation::SetPlayerName { name } => Ok(single(self.set_player_name(name))),
            Operation::StartSession => {
                self.start_session(now);
                Ok(no_notice())
            },
            Operation::CollectCandy => match self.collect_candy() {
                Ok(notice) => Ok(single(notice)),
                Err(error) => Err(error),
            },
            Operation::EndSession => match self.end_session(now) {
                Ok(notice) => Ok(single(notice)),
                Err(error) => Err(error),
            },
            Operation::GetLeaderboard => Ok(no_notice()),
            Operation::GetMyStats => Ok(no_notice()),
            Operation::GetSession { .. } => Ok(no_notice()),
            Operation::ResetLeaderboard => self.reset_leaderboard(),
        }
    }
}

/// The empty list of messages.
fn no_notice() -> (outbox: Vec<Outbound>)
    ensures
        outbox_view(outbox@) == Seq::<OutboundView>::empty(),
{
    let outbox = Vec::new();
    assert(outbox_view(outbox@) =~= Seq::<OutboundView>::empty());
    outbox
}

/// The list of at most one message.
fn single(notice: Option<Outbound>) -> (outbox: Vec<Outbound>)
    ensures
        outbox_view(outbox@) == notice_list(outbound_view(notice)),
{
    let mut outbox = Vec::new();
    match notice {
        Some(notice) => {
            outbox.push(notice);
        },
        None => {},
    }
    assert(outbox_view(outbox@) =~= notice_list(outbound_view(notice)));
    outbox
}

} // verus!
