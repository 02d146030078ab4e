//! What shards are asked to do, and what they tell each other.

use crate::session::{clone_text, text_of};
use crate::shard::ShardId;
use vstd::prelude::*;

verus! {

/// What a shard is deployed with: the authority shard, if it is known then.
#[derive(Clone, Copy, Debug, PartialEq, Eq, Structural)]
pub struct ApplicationParameters {
    pub authority_shard_id: Option<ShardId>,
}

/// A message from one shard to another. Each kind carries what it takes to
/// be processed without a reply.
#[derive(Debug)]
pub enum GameMessage {
    /// Reserved: accepted, and ignored by every shard.
    StartGame { session_id: String, owner: ShardId, player_name: Option<String> },
    /// A player's game has ended with a record.
    GameFinished { session_id: String, owner: ShardId, candies_collected: u32, is_new_record: bool },
    /// A result handed to the authority directly.
    UpdateLeaderboard { owner: ShardId, candies_collected: u32, is_new_record: bool },
    /// A player has a new name.
    UpdatePlayerName { owner: ShardId, name: String },
    /// The authority has reset the leaderboard.
    LeaderboardReset,
    /// A player has collected a candy.
    CandyCollected { session_id: String, owner: ShardId },
}

/// What a message says.
pub enum MessageView {
    StartGame { session_id: Seq<char>, owner: ShardId, player_name: Option<Seq<char>> },
    GameFinished {
        session_id: Seq<char>,
        owner: ShardId,
        candies_collected: u32,
        is_new_record: bool,
    },
    UpdateLeaderboard { owner: ShardId, candies_collected: u32, is_new_record: bool },
    UpdatePlayerName { owner: ShardId, name: Seq<char> },
    LeaderboardReset,
    CandyCollected { session_id: Seq<char>, owner: ShardId },
}

impl View for GameMessage {
    type V = MessageView;

    open spec fn view(&self) -> MessageView {
        match *self {
            GameMessage::StartGame { session_id, owner, player_name } => MessageView::StartGame {
                session_id: session_id@,
                owner,
                player_name: text_of(player_name),
            },
            GameMessage::GameFinished {
                session_id,
                owner,
                candies_collected,
                is_new_record,
            } => MessageView::GameFinished {
                session_id: session_id@,
                owner,
                candies_collected,
                is_new_record,
            },
            GameMessage::UpdateLeaderboard {
                owner,
                candies_collected,
                is_new_record,
            } => MessageView::UpdateLeaderboard { owner, candies_collected, is_new_record },
            GameMessage::UpdatePlayerName { owner, name } => MessageView::UpdatePlayerName {
                owner,
                name: name@,
            },
            GameMessage::LeaderboardReset => MessageView::LeaderboardReset,
            GameMessage::CandyCollected { session_id, owner } => MessageView::CandyCollected {
                session_id: session_id@,
                owner,
            },
        }
    }
}

impl Clone for GameMessage {
    fn clone(&self) -> (copy: GameMessage)
        ensures
            copy == *self,
    {
        match self {
            GameMessage::StartGame { session_id, owner, player_name } => GameMessage::StartGame {
                session_id: session_id.clone(),
                owner: *owner,
                player_name: clone_text(player_name),
            },
            GameMessage::GameFinished {
                session_id,
                owner,
                candies_collected,
                is_new_record,
            } => GameMessage::GameFinished {
                session_id: session_id.clone(),
                owner: *owner,
                candies_collected: *candies_collected,
                is_new_record: *is_new_record,
            },
            GameMessage::UpdateLeaderboard {
                owner,
                candies_collected,
                is_new_record,
            } => GameMessage::UpdateLeaderboard {
                owner: *owner,
                candies_collected: *candies_collected,
                is_new_record: *is_new_record,
            },
            GameMessage::UpdatePlayerName { owner, name } => GameMessage::UpdatePlayerName {
                owner: *owner,
                name: name.clone(),
            },
            GameMessage::LeaderboardReset => GameMessage::LeaderboardReset,
            GameMessage::CandyCollected { session_id, owner } => GameMessage::CandyCollected {
                session_id: session_id.clone(),
                owner: *owner,
            },
        }
    }
}

/// A message on its way: sent once, with no answer awaited.
#[derive(Debug)]
pub struct Outbound {
    pub destination: ShardId,
    pub message: GameMessage,
}

/// What a message on its way says.
pub struct OutboundView {
    pub destination: ShardId,
    pub message: MessageView,
}

impl View for Outbound {
    type V = OutboundView;

    open spec fn view(&self) -> OutboundView {
        OutboundView { destination: self.destination, message: self.message@ }
    }
}

/// What a list of messages on their way says.
pub open spec fn outbox_view(outbox: Seq<Outbound>) -> Seq<OutboundView> {
    outbox.map_values(|outbound: Outbound| outbound@)
}

/// What an optional message on its way says.
pub open spec fn outbound_view(outbound: Option<Outbound>) -> Option<OutboundView> {
    match outbound {
        Some(outbound) => Some(outbound@),
        None => None,
    }
}

/// What a shard can be asked to do.
#[derive(Debug)]
pub enum Operation {
    /// Names the authority shard. Accepted once.
    ConfigureAuthority { authority_shard_id: ShardId },
    /// Gives the player of this shard a name.
    SetPlayerName { name: String },
    /// Starts a game.
    StartSession,
    /// Counts one candy in the current game.
    CollectCandy,
    /// Ends the current game.
    EndSession,
    /// Reads the leaderboard: changes nothing.
    GetLeaderboard,
    /// Reads the player's statistics: changes nothing.
    GetMyStats,
    /// Reads the record of a game: changes nothing.
    GetSession { session_id: String },
    /// Clears the leaderboard. For the authority shard only.
    ResetLeaderboard,
}

/// What an operation says.
pub enum OperationView {
    ConfigureAuthority { authority_shard_id: ShardId },
    SetPlayerName { name: Seq<char> },
    StartSession,
    CollectCandy,
    EndSession,
    GetLeaderboard,
    GetMyStats,
    GetSession { session_id: Seq<char> },
    ResetLeaderboard,
}

impl View for Operation {
    type V = OperationView;

    open spec fn view(&self) -> OperationView {
        match *self {
            Operation::ConfigureAuthority {
                authority_shard_id,
            } => OperationView::ConfigureAuthority { authority_shard_id },
            Operation::SetPlayerName { name } => OperationView::SetPlayerName { name: name@ },
            Operation::StartSession => OperationView::StartSession,
            Operation::CollectCandy => OperationView::CollectCandy,
            Operation::EndSession => OperationView::EndSession,
            Operation::GetLeaderboard => OperationView::GetLeaderboard,
            Operation::GetMyStats => OperationView::GetMyStats,
            Operation::GetSession { session_id } => OperationView::GetSession {
                session_id: session_id@,
            },
            Operation::ResetLeaderboard => OperationView::ResetLeaderboard,
        }
    }
}

/// Why an operation had no effect.
#[derive(Clone, Copy, Debug, PartialEq, Eq, Structural)]
pub enum GameError {
    /// The authority shard was named before. Fatal to the operation.
    AlreadyConfigured,
    /// The operation is for the authority shard, and this shard is not it.
    /// Fatal to the operation.
    NotAuthority,
    /// The shard has no game in progress. Worth a note, no more.
    NoActiveSession,
}

impl GameError {
    /// Whether the error aborts the operation that met it.
    pub open spec fn fatal(self) -> bool {
        self != GameError::NoActiveSession
    }

    /// Tells whether the error aborts the operation that met it.
    pub fn is_fatal(&self) -> (result: bool)
        ensures
            result == self.fatal(),
    {
        match self {
            GameError::AlreadyConfigured => true,
            GameError::NotAuthority => true,
            GameError::NoActiveSession => false,
        }
    }
}

/// What became of a message that a shard received.
#[derive(Clone, Copy, Debug, PartialEq, Eq, Structural)]
pub enum Receipt {
    /// The message was processed.
    Applied,
    /// The message had come back undelivered, and was dropped.
    Bounced,
    /// The message is not for a shard in this role, or is of the reserved
    /// kind, and was ignored.
    Ignored,
}

} // verus!
