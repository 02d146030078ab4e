//! The state of one shard, and how operations and messages change it.

use crate::leaderboard::{
    board_len, board_view, descending, is_leaderboard, leaderboard_of, lemma_leaderboard_of,
    lemma_no_players_no_rows, name_texts, EntryView, LeaderboardEntry,
};
use crate::message::{GameError, MessageView, OperationView, OutboundView, Receipt};
use crate::session::{
    holds_session, lemma_first_session, session_index, session_label, sessions_view, text_of,
    texts_of, with_session, GameSession, SessionView,
};
use crate::shard::ShardId;
use crate::shard_map::ShardMap;
use crate::shard_set::{walk_of, ShardSet};
use crate::stats::PlayerStats;
use vstd::prelude::*;

verus! {

/// All that a shard keeps. A player shard fills the sessions, the player's
/// own name and statistics; the authority shard fills the directory of
/// names, the statistics of every player, the participants and the
/// leaderboard.
#[derive(Debug)]
pub struct SnakeGameState {
    /// The record of every game started on this shard.
    pub sessions: Vec<GameSession>,
    /// How many sessions this shard has started since the last reset.
    pub session_counter: u64,
    /// The names of the players, by shard.
    pub player_directory: ShardMap<String>,
    /// The name of the player of this shard.
    pub my_player_name: Option<String>,
    /// The published leaderboard.
    pub leaderboard: Vec<LeaderboardEntry>,
    /// The statistics of the players, by shard.
    pub player_stats: ShardMap<PlayerStats>,
    /// The shards that have reported a result.
    pub participants: ShardSet,
    /// Whether this shard is the authority.
    pub is_authority: bool,
    /// The authority shard, once it has been named.
    pub authority_shard_id: Option<ShardId>,
    /// The identifiers of the sessions started on this shard, in order.
    pub my_sessions: Vec<String>,
    /// The statistics of the player of this shard.
    pub my_stats: Option<PlayerStats>,
    /// The identifier of the game in progress.
    pub current_session_id: Option<String>,
}

/// What the state of a shard says.
pub struct StateView {
    pub sessions: Seq<SessionView>,
    pub session_counter: u64,
    pub player_directory: Map<ShardId, Seq<char>>,
    pub my_player_name: Option<Seq<char>>,
    pub leaderboard: Seq<EntryView>,
    pub player_stats: Map<ShardId, PlayerStats>,
    pub participants: Set<ShardId>,
    pub is_authority: bool,
    pub authority_shard_id: Option<ShardId>,
    pub my_sessions: Seq<Seq<char>>,
    pub my_stats: Option<PlayerStats>,
    pub current_session_id: Option<Seq<char>>,
}

impl View for SnakeGameState {
    type V = StateView;

    open spec fn view(&self) -> StateView {
        StateView {
            sessions: sessions_view(self.sessions@),
            session_counter: self.session_counter,
            player_directory: name_texts(self.player_directory@),
            my_player_name: text_of(self.my_player_name),
            leaderboard: board_view(self.leaderboard@),
            player_stats: self.player_stats@,
            participants: self.participants@,
            is_authority: self.is_authority,
            authority_shard_id: self.authority_shard_id,
            my_sessions: texts_of(self.my_sessions@),
            my_stats: self.my_stats,
            current_session_id: text_of(self.current_session_id),
        }
    }
}

/// The notice of a reset for the shard `destination`.
pub open spec fn reset_notice(destination: ShardId) -> OutboundView {
    OutboundView { destination, message: MessageView::LeaderboardReset }
}

/// The test that a shard is not `local`.
pub open spec fn is_not(local: ShardId) -> spec_fn(ShardId) -> bool {
    |shard: ShardId| shard != local
}

/// The notices of a reset for the shards of `shards` but `local`, in the
/// order of `shards`.
pub open spec fn reset_notices_to(shards: Seq<ShardId>, local: ShardId) -> Seq<OutboundView> {
    shards.filter(is_not(local)).map_values(|shard: ShardId| reset_notice(shard))
}

/// One more shard adds its notice at the end, unless it is `local`.
pub proof fn lemma_reset_notices_push(shards: Seq<ShardId>, shard: ShardId, local: ShardId)
    ensures
        reset_notices_to(shards.push(shard), local) == if shard != local {
            reset_notices_to(shards, local).push(reset_notice(shard))
        } else {
            reset_notices_to(shards, local)
        },
{
    shards.lemma_filter_push(shard, is_not(local));
    if shard != local {
        assert(reset_notices_to(shards.push(shard), local) =~= reset_notices_to(
            shards,
            local,
        ).push(reset_notice(shard)));
    }
}

impl StateView {
    /// The state of a shard on which nothing has happened yet.
    pub open spec fn empty() -> StateView {
        StateView {
            sessions: Seq::empty(),
            session_counter: 0,
            player_directory: Map::empty(),
            my_player_name: None,
            leaderboard: Seq::empty(),
            player_stats: Map::empty(),
            participants: Set::empty(),
            is_authority: false,
            authority_shard_id: None,
            my_sessions: Seq::empty(),
            my_stats: None,
            current_session_id: None,
        }
    }

    /// The state after the shard `local` has been set up with `authority`,
    /// the authority shard that it was deployed with, if any.
    pub open spec fn instantiated(self, local: ShardId, authority: Option<ShardId>) -> StateView {
        StateView {
            session_counter: 0,
            leaderboard: Seq::empty(),
            authority_shard_id: authority,
            is_authority: authority == Some(local),
            my_sessions: Seq::empty(),
            my_stats: None,
            current_session_id: None,
            ..self
        }
    }

    /// The state after `candidate` has been named the authority.
    pub open spec fn configured(self, local: ShardId, candidate: ShardId) -> StateView {
        StateView { authority_shard_id: Some(candidate), is_authority: local == candidate, ..self }
    }

    /// The state after the player of `local` has taken the name `name`. The
    /// authority shard enters its own name in the directory, and computes
    /// the leaderboard anew so that it shows the name.
    pub open spec fn named(self, local: ShardId, name: Seq<char>) -> StateView {
        if self.authority_shard_id == Some(local) {
            StateView {
                my_player_name: Some(name),
                player_directory: self.player_directory.insert(local, name),
                ..self
            }.rebuilt()
        } else {
            StateView { my_player_name: Some(name), ..self }
        }
    }

    /// What a new name sends out: the name, to the authority, from any other
    /// shard.
    pub open spec fn name_notice(self, local: ShardId, name: Seq<char>) -> Option<OutboundView> {
        match self.authority_shard_id {
            Some(authority) if authority != local => Some(
                OutboundView {
                    destination: authority,
                    message: MessageView::UpdatePlayerName { owner: local, name },
                },
            ),
            _ => None,
        }
    }

    /// The state after `local` has started a game at time `now`.
    pub open spec fn started(self, local: ShardId, now: u64) -> StateView {
        StateView {
            sessions: with_session(
                self.sessions,
                SessionView::started(local, self.session_counter, self.my_player_name, now),
            ),
            session_counter: (self.session_counter + 1) as u64,
            my_sessions: self.my_sessions.push(session_label(local, self.session_counter)),
            current_session_id: Some(session_label(local, self.session_counter)),
            ..self
        }
    }

    /// Whether a game is in progress: the shard has a current session, and
    /// the record of it.
    pub open spec fn has_current(self) -> bool {
        self.current_session_id matches Some(session_id) && holds_session(
            self.sessions,
            session_id,
        )
    }

    /// The place of the record of the game in progress.
    pub open spec fn current_index(self) -> int {
        session_index(self.sessions, self.current_session_id->0)
    }

    /// The record of the game in progress.
    pub open spec fn current(self) -> SessionView {
        self.sessions[self.current_index()]
    }

    /// The state after one more candy in the game in progress.
    pub open spec fn with_candy(self) -> StateView {
        StateView {
            sessions: self.sessions.update(self.current_index(), self.current().with_candy()),
            ..self
        }
    }

    /// What a candy sends out: a notice to the authority, if one is named.
    pub open spec fn candy_notice(self, local: ShardId) -> Option<OutboundView> {
        match self.authority_shard_id {
            Some(authority) => Some(
                OutboundView {
                    destination: authority,
                    message: MessageView::CandyCollected {
                        session_id: self.current().session_id,
                        owner: local,
                    },
                },
            ),
            None => None,
        }
    }

    /// Whether the game in progress ends with a record: above the personal
    /// best that this shard knows of, or the first game that it knows of.
    pub open spec fn ends_with_record(self) -> bool {
        match self.my_stats {
            Some(stats) => stats.beaten_by(self.current().candies_collected),
            None => true,
        }
    }

    /// The statistics that the next game of `local` is added to.
    pub open spec fn my_tally(self, local: ShardId) -> PlayerStats {
        match self.my_stats {
            Some(stats) => stats,
            None => PlayerStats::fresh(local),
        }
    }

    /// The state after the game in progress has ended at time `now`.
    pub open spec fn ended(self, local: ShardId, now: u64) -> StateView {
        StateView {
            sessions: self.sessions.update(
                self.current_index(),
                self.current().finished(self.ends_with_record(), now),
            ),
            my_stats: Some(self.my_tally(local).with_game(self.current().candies_collected, now)),
            current_session_id: None,
            ..self
        }
    }

    /// What the end of a game sends out: the result, to the authority, if
    /// the game is a record and an authority is named; else nothing.
    pub open spec fn end_notice(self, local: ShardId) -> Option<OutboundView> {
        match self.authority_shard_id {
            Some(authority) if self.ends_with_record() => Some(
                OutboundView {
                    destination: authority,
                    message: MessageView::GameFinished {
                        session_id: self.current().session_id,
                        owner: local,
                        candies_collected: self.current().candies_collected,
                        is_new_record: true,
                    },
                },
            ),
            _ => None,
        }
    }

    /// The state of the authority after a reset: no statistics, no
    /// participants, no leaderboard, and the session counter at zero.
    pub open spec fn reset(self) -> StateView {
        StateView {
            leaderboard: Seq::empty(),
            player_stats: Map::empty(),
            participants: Set::empty(),
            session_counter: 0,
            ..self
        }
    }

    /// What a reset sends out: one notice to each participant but `local`,
    /// in ascending order of shard.
    pub open spec fn reset_notices(self, local: ShardId) -> Seq<OutboundView> {
        reset_notices_to(walk_of(self.participants), local)
    }

    /// The statistics that the next result of `owner` is added to.
    pub open spec fn tally_of(self, owner: ShardId) -> PlayerStats {
        if self.player_stats.dom().contains(owner) {
            self.player_stats[owner]
        } else {
            PlayerStats::fresh(owner)
        }
    }

    /// The state with the leaderboard computed anew.
    pub open spec fn rebuilt(self) -> StateView {
        StateView { leaderboard: leaderboard_of(self.player_stats, self.player_directory), ..self }
    }

    /// The state of the authority after a result of `owner` has been
    /// counted at time `now`.
    pub open spec fn credited(self, owner: ShardId, candies_collected: u32, now: u64) -> StateView {
        StateView {
            player_stats: self.player_stats.insert(
                owner,
                self.tally_of(owner).with_game(candies_collected, now),
            ),
            participants: self.participants.insert(owner),
            ..self
        }.rebuilt()
    }

    /// The state of the authority after `owner` has taken the name `name`.
    pub open spec fn renamed(self, owner: ShardId, name: Seq<char>) -> StateView {
        StateView { player_directory: self.player_directory.insert(owner, name), ..self }
    }

    /// The state of a player shard after the authority has reset the
    /// leaderboard: its statistics start over and its copy of the
    /// leaderboard is empty. The records of its games stay.
    pub open spec fn cleared(self) -> StateView {
        StateView {
            my_stats: match self.my_stats {
                Some(stats) => Some(stats.cleared()),
                None => None,
            },
            leaderboard: Seq::empty(),
            ..self
        }
    }

    /// Why `operation` is refused, if it is.
    pub open spec fn refusal(self, operation: OperationView) -> Option<GameError> {
        match operation {
            OperationView::ConfigureAuthority { .. } => if self.authority_shard_id is Some {
                Some(GameError::AlreadyConfigured)
            } else {
                None
            },
            OperationView::CollectCandy | OperationView::EndSession => if self.has_current() {
                None
            } else {
                Some(GameError::NoActiveSession)
            },
            OperationView::ResetLeaderboard => if self.is_authority {
                None
            } else {
                Some(GameError::NotAuthority)
            },
            _ => None,
        }
    }

    /// Whether the counters leave room for `operation`.
    pub open spec fn has_room_for(self, local: ShardId, operation: OperationView) -> bool {
        match operation {
            OperationView::StartSession => self.session_counter < u64::MAX,
            OperationView::CollectCandy => self.has_current() ==> self.current().candies_collected
                < u32::MAX,
            OperationView::EndSession => self.has_current() ==> self.my_tally(local).has_room_for(
                self.current().candies_collected,
            ),
            _ => true,
        }
    }

    /// The state after `operation`, where it is not refused.
    pub open spec fn executed(self, local: ShardId, operation: OperationView, now: u64) -> StateView {
        match operation {
            OperationView::ConfigureAuthority { authority_shard_id } => self.configured(
                local,
                authority_shard_id,
            ),
            OperationView::SetPlayerName { name } => self.named(local, name),
            OperationView::StartSession => self.started(local, now),
            OperationView::CollectCandy => self.with_candy(),
            OperationView::EndSession => self.ended(local, now),
            OperationView::ResetLeaderboard => self.reset(),
            OperationView::GetLeaderboard | OperationView::GetMyStats | OperationView::GetSession {
                ..
            } => self,
        }
    }

    /// What `operation` sends out, where it is not refused.
    pub open spec fn notices(self, local: ShardId, operation: OperationView) -> Seq<OutboundView> {
        match operation {
            OperationView::SetPlayerName { name } => notice_list(self.name_notice(local, name)),
            OperationView::CollectCandy => notice_list(self.candy_notice(local)),
            OperationView::EndSession => notice_list(self.end_notice(local)),
            OperationView::ResetLeaderboard => self.reset_notices(local),
            _ => Seq::empty(),
        }
    }

    /// What becomes of `message` on arrival.
    pub open spec fn receipt(self, message: MessageView, is_bouncing: bool) -> Receipt {
        if is_bouncing {
            Receipt::Bounced
        } else {
            match message {
                MessageView::StartGame { .. } => Receipt::Ignored,
                MessageView::LeaderboardReset => if self.is_authority {
                    Receipt::Ignored
                } else {
                    Receipt::Applied
                },
                _ => if self.is_authority {
                    Receipt::Applied
                } else {
                    Receipt::Ignored
                },
            }
        }
    }

    /// Whether the counters leave room for `message`.
    pub open spec fn has_room_for_message(self, message: MessageView, is_bouncing: bool) -> bool {
        self.receipt(message, is_bouncing) == Receipt::Applied ==> match message {
            MessageView::GameFinished { owner, candies_collected, .. } => self.tally_of(
                owner,
            ).has_room_for(candies_collected),
            MessageView::UpdateLeaderboard { owner, candies_collected, .. } => self.tally_of(
                owner,
            ).has_room_for(candies_collected),
            _ => true,
        }
    }

    /// The state after `message` has arrived at time `now`.
    pub open spec fn received(self, message: MessageView, is_bouncing: bool, now: u64) -> StateView {
        if self.receipt(message, is_bouncing) != Receipt::Applied {
            self
        } else {
            match message {
                MessageView::GameFinished { owner, candies_collected, .. } => self.credited(
                    owner,
                    candies_collected,
                    now,
                ),
                MessageView::UpdateLeaderboard { owner, candies_collected, .. } => self.credited(
                    owner,
                    candies_collected,
                    now,
                ),
                MessageView::UpdatePlayerName { owner, name } => self.renamed(
                    owner,
                    name,
                ).rebuilt(),
                MessageView::LeaderboardReset => self.cleared(),
                _ => self,
            }
        }
    }
}

impl StateView {
    /// Whether the participants are the players with statistics, and they
    /// are finitely many.
    pub open spec fn coherent(self) -> bool {
        &&& self.participants == self.player_stats.dom()
        &&& self.participants.finite()
    }

    /// Computing the leaderboard anew reads the statistics and the names and
    /// nothing else, so a second time changes nothing.
    pub proof fn lemma_rebuilt_again(self)
        ensures
            self.rebuilt().rebuilt() == self.rebuilt(),
            self.rebuilt().player_stats == self.player_stats,
            self.rebuilt().player_directory == self.player_directory,
    {
    }

    /// Two states with the same statistics and the same names publish the
    /// same leaderboard.
    pub proof fn lemma_rebuilt_alike(self, other: StateView)
        requires
            self.player_stats == other.player_stats,
            self.player_directory == other.player_directory,
        ensures
            self.rebuilt().leaderboard == other.rebuilt().leaderboard,
    {
    }

    /// The leaderboard computed anew is in descending order of rank, and as
    /// long as there are participants, up to the limit.
    pub proof fn lemma_rebuilt_board(self)
        requires
            self.coherent(),
        ensures
            is_leaderboard(self.rebuilt().leaderboard, self.player_stats, self.player_directory),
            descending(self.rebuilt().leaderboard),
            self.rebuilt().leaderboard.len() == board_len(self.participants.len()),
    {
        lemma_leaderboard_of(self.player_stats, self.player_directory);
    }

    /// Whether the published leaderboard is the leaderboard of the
    /// statistics and the names that the shard holds now.
    pub open spec fn published(self) -> bool {
        self.leaderboard == leaderboard_of(self.player_stats, self.player_directory)
    }

    /// No operation lets the published leaderboard fall behind the
    /// statistics and the names.
    pub proof fn lemma_executed_published(self, local: ShardId, operation: OperationView, now: u64)
        requires
            self.published(),
        ensures
            self.executed(local, operation, now).published(),
    {
        lemma_no_players_no_rows(self.player_directory);
    }

    /// On the authority no message lets the published leaderboard fall
    /// behind the statistics and the names: a result and a name alike are
    /// followed by a leaderboard computed anew.
    pub proof fn lemma_received_published(self, message: MessageView, is_bouncing: bool, now: u64)
        requires
            self.published(),
            self.is_authority,
        ensures
            self.received(message, is_bouncing, now).published(),
            self.received(message, is_bouncing, now).is_authority,
    {
    }

    /// A shard on which nothing has happened yet publishes the leaderboard
    /// of nobody, which is empty.
    pub proof fn lemma_published_from_the_start()
        ensures
            StateView::empty().published(),
    {
        lemma_no_players_no_rows(Map::empty());
    }

    /// A shard on which nothing has happened yet is coherent, and setting
    /// a shard up keeps it so.
    pub proof fn lemma_coherent_from_the_start(self, local: ShardId, authority: Option<ShardId>)
        ensures
            StateView::empty().coherent(),
            self.coherent() ==> self.instantiated(local, authority).coherent(),
    {
        assert(StateView::empty().participants =~= StateView::empty().player_stats.dom());
    }

    /// No operation undoes coherence.
    pub proof fn lemma_executed_coherent(self, local: ShardId, operation: OperationView, now: u64)
        requires
            self.coherent(),
        ensures
            self.executed(local, operation, now).coherent(),
    {
        assert(self.reset().participants =~= self.reset().player_stats.dom());
    }

    /// No message undoes coherence.
    pub proof fn lemma_received_coherent(self, message: MessageView, is_bouncing: bool, now: u64)
        requires
            self.coherent(),
        ensures
            self.received(message, is_bouncing, now).coherent(),
    {
        match message {
            MessageView::GameFinished { owner, candies_collected, .. } => {
                let after = self.credited(owner, candies_collected, now);
                assert(after.participants =~= after.player_stats.dom());
            },
            MessageView::UpdateLeaderboard { owner, candies_collected, .. } => {
                let after = self.credited(owner, candies_collected, now);
                assert(after.participants =~= after.player_stats.dom());
            },
            _ => {},
        }
    }

    /// A game that ends without a record sends nothing out.
    pub proof fn lemma_quiet_end(self, local: ShardId)
        requires
            self.has_current(),
            self.my_stats matches Some(stats) && self.current().candies_collected
                <= stats.highest_score,
        ensures
            self.refusal(OperationView::EndSession) is None,
            self.notices(local, OperationView::EndSession) == Seq::<OutboundView>::empty(),
    {
    }

    /// A message that has bounced changes nothing, whatever it says.
    pub proof fn lemma_bounced(self, message: MessageView, now: u64)
        ensures
            self.received(message, true, now) == self,
            self.receipt(message, true) == Receipt::Bounced,
    {
    }

    /// No operation removes the record of a game: after an operation that is
    /// not refused the shard holds as many records as before, or one more.
    pub proof fn lemma_sessions_kept(self, local: ShardId, operation: OperationView, now: u64)
        requires
            self.refusal(operation) is None,
        ensures
            self.executed(local, operation, now).sessions.len() >= self.sessions.len(),
    {
        match operation {
            OperationView::StartSession => {
                let session = SessionView::started(
                    local,
                    self.session_counter,
                    self.my_player_name,
                    now,
                );
                if holds_session(self.sessions, session.session_id) {
                    lemma_first_session(self.sessions, session.session_id);
                }
            },
            OperationView::CollectCandy | OperationView::EndSession => {
                lemma_first_session(self.sessions, self.current_session_id->0);
            },
            _ => {},
        }
    }

    /// No message touches the records of the games that a shard has played.
    pub proof fn lemma_sessions_untouched(self, message: MessageView, is_bouncing: bool, now: u64)
        ensures
            self.received(message, is_bouncing, now).sessions == self.sessions,
            self.received(message, is_bouncing, now).my_sessions == self.my_sessions,
            self.received(message, is_bouncing, now).current_session_id == self.current_session_id,
    {
    }
}

/// The list of at most one notice.
pub open spec fn notice_list(notice: Option<OutboundView>) -> Seq<OutboundView> {
    match notice {
        Some(notice) => seq![notice],
        None => Seq::empty(),
    }
}

/// A summary of the games on a shard.
#[derive(Clone, Copy, Debug, PartialEq, Eq, Structural)]
pub struct GameStats {
    pub total_sessions: u64,
    pub finished_games: u64,
    pub total_players: u64,
}

impl SnakeGameState {
    /// The state of a shard on which nothing has happened yet.
    pub fn new() -> (state: SnakeGameState)
        ensures
            state@ == StateView::empty(),
    {
        let state = SnakeGameState {
            sessions: Vec::new(),
            session_counter: 0,
            player_directory: ShardMap::new(),
            my_player_name: None,
            leaderboard: Vec::new(),
            player_stats: ShardMap::new(),
            participants: ShardSet::new(),
            is_authority: false,
            authority_shard_id: None,
            my_sessions: Vec::new(),
            my_stats: None,
            current_session_id: None,
        };
        assert(state@.sessions =~= Seq::empty());
        assert(state@.leaderboard =~= Seq::empty());
        assert(state@.my_sessions =~= Seq::empty());
        assert(state@.player_directory =~= Map::empty());
        state
    }
}

} // verus!
