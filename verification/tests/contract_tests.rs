use snake_game::contract::SnakeGameContract;
use snake_game::message::{
    ApplicationParameters, GameError, GameMessage, Operation, Outbound, Receipt,
};
use snake_game::session::{session_id_for, GameState};
use snake_game::shard::ShardId;

fn shard(n: u64) -> ShardId {
    ShardId::new(0, 0, 0, n)
}

const A: u64 = 1;
const B: u64 = 2;
const C: u64 = 3;

fn authority() -> SnakeGameContract {
    let mut contract = SnakeGameContract::new(shard(A));
    contract.instantiate(ApplicationParameters { authority_shard_id: Some(shard(A)) });
    contract
}

fn player(n: u64) -> SnakeGameContract {
    let mut contract = SnakeGameContract::new(shard(n));
    contract.instantiate(ApplicationParameters { authority_shard_id: Some(shard(A)) });
    contract
}

fn finished(owner: u64, candies_collected: u32) -> GameMessage {
    GameMessage::GameFinished {
        session_id: session_id_for(&shard(owner), 0),
        owner: shard(owner),
        candies_collected,
        is_new_record: true,
    }
}

fn snapshot(contract: &SnakeGameContract) -> String {
    format!("{:?}", contract)
}

fn every_message() -> Vec<GameMessage> {
    vec![
        GameMessage::StartGame {
            session_id: String::from("s"),
            owner: shard(B),
            player_name: Some(String::from("Bea")),
        },
        finished(B, 10),
        GameMessage::UpdateLeaderboard { owner: shard(C), candies_collected: 4, is_new_record: false },
        GameMessage::UpdatePlayerName { owner: shard(B), name: String::from("Bea") },
        GameMessage::LeaderboardReset,
        GameMessage::CandyCollected { session_id: String::from("s"), owner: shard(B) },
    ]
}

#[test]
fn new_contract_is_unconfigured() {
    let contract = SnakeGameContract::new(shard(B));
    assert_eq!(contract.shard_id, shard(B));
    assert!(!contract.state.is_authority);
    assert_eq!(contract.state.authority_shard_id, None);
    assert_eq!(contract.state.session_counter, 0);
    assert!(contract.state.sessions.is_empty());
    assert!(contract.state.leaderboard.is_empty());
    assert_eq!(contract.state.player_stats.len(), 0);
    assert_eq!(contract.state.participants.len(), 0);
    assert_eq!(contract.state.my_stats, None);
    assert_eq!(contract.state.current_session_id, None);
}

#[test]
fn instantiate_sets_the_role() {
    assert!(authority().state.is_authority);
    assert_eq!(authority().state.authority_shard_id, Some(shard(A)));
    assert!(!player(B).state.is_authority);
    assert_eq!(player(B).state.authority_shard_id, Some(shard(A)));
    let mut alone = SnakeGameContract::new(shard(B));
    alone.instantiate(ApplicationParameters { authority_shard_id: None });
    assert!(!alone.state.is_authority);
    assert_eq!(alone.state.authority_shard_id, None);
}

#[test]
fn setup_leaderboard_twice_fails_and_keeps_the_first_authority() {
    let mut contract = SnakeGameContract::new(shard(B));
    let first = contract.execute_operation(
        Operation::ConfigureAuthority { authority_shard_id: shard(A) },
        1,
    );
    assert!(first.unwrap().is_empty());
    assert_eq!(contract.state.authority_shard_id, Some(shard(A)));
    assert!(!contract.state.is_authority);
    let before = snapshot(&contract);
    let second = contract.execute_operation(
        Operation::ConfigureAuthority { authority_shard_id: shard(C) },
        2,
    );
    assert_eq!(second.unwrap_err(), GameError::AlreadyConfigured);
    assert_eq!(contract.state.authority_shard_id, Some(shard(A)));
    assert_eq!(snapshot(&contract), before);
    let third = contract.configure_authority(shard(B));
    assert_eq!(third, Err(GameError::AlreadyConfigured));
    assert_eq!(snapshot(&contract), before);
}

#[test]
fn configuring_oneself_makes_the_authority() {
    let mut contract = SnakeGameContract::new(shard(A));
    assert_eq!(contract.configure_authority(shard(A)), Ok(()));
    assert!(contract.state.is_authority);
    assert_eq!(contract.state.authority_shard_id, Some(shard(A)));
}

#[test]
fn duplicate_report_counts_twice_and_keeps_the_best() {
    let mut contract = authority();
    assert_eq!(contract.execute_message(finished(B, 10), false, 100), Receipt::Applied);
    assert_eq!(contract.execute_message(finished(B, 7), false, 200), Receipt::Applied);
    let stats = *contract.state.player_stats.get(&shard(B)).unwrap();
    assert_eq!(stats.shard_id, shard(B));
    assert_eq!(stats.games_played, 2);
    assert_eq!(stats.highest_score, 10);
    assert_eq!(stats.total_candies, 17);
    assert_eq!(stats.current_streak, 0);
    assert_eq!(stats.best_streak, 1);
    assert_eq!(stats.last_game_timestamp, 200);
    assert!(contract.state.participants.contains(&shard(B)));
    assert_eq!(contract.state.participants.len(), 1);
    assert_eq!(contract.state.leaderboard.len(), 1);
    assert_eq!(contract.state.leaderboard[0].shard_id, shard(B));
    assert_eq!(contract.state.leaderboard[0].highest_score, 10);
    assert_eq!(contract.state.leaderboard[0].games_played, 2);
    assert_eq!(contract.state.leaderboard[0].total_candies, 17);
}

#[test]
fn update_leaderboard_message_counts_like_game_finished() {
    let mut one = authority();
    let mut two = authority();
    one.execute_message(finished(B, 6), false, 9);
    two.execute_message(
        GameMessage::UpdateLeaderboard { owner: shard(B), candies_collected: 6, is_new_record: true },
        false,
        9,
    );
    assert_eq!(snapshot(&one), snapshot(&two));
}

#[test]
fn reset_clears_and_notifies_every_participant_but_itself() {
    let mut contract = authority();
    contract.execute_message(finished(C, 5), false, 1);
    contract.execute_message(finished(B, 9), false, 2);
    contract.execute_message(finished(A, 3), false, 3);
    contract.state.session_counter = 4;
    assert_eq!(contract.state.participants.len(), 3);
    let outbox = contract.execute_operation(Operation::ResetLeaderboard, 10).unwrap();
    assert_eq!(outbox.len(), 2);
    assert_eq!(outbox[0].destination, shard(B));
    assert_eq!(outbox[1].destination, shard(C));
    for outbound in outbox.iter() {
        assert!(matches!(outbound.message, GameMessage::LeaderboardReset));
    }
    assert_eq!(contract.state.player_stats.len(), 0);
    assert_eq!(contract.state.participants.len(), 0);
    assert!(contract.state.leaderboard.is_empty());
    assert_eq!(contract.state.session_counter, 0);
    assert!(contract.state.is_authority);
}

#[test]
fn reset_with_participants_b_and_c_sends_two_notices() {
    let mut contract = authority();
    contract.execute_message(finished(B, 1), false, 1);
    contract.execute_message(finished(C, 2), false, 2);
    let outbox = contract.reset_leaderboard().unwrap();
    let destinations: Vec<ShardId> = outbox.iter().map(|o: &Outbound| o.destination).collect();
    assert_eq!(destinations, vec![shard(B), shard(C)]);
    assert!(contract.state.leaderboard.is_empty());
    assert_eq!(contract.state.player_stats.len(), 0);
    assert_eq!(contract.state.participants.len(), 0);
}

#[test]
fn reset_on_a_player_shard_is_refused() {
    let mut contract = player(B);
    contract.execute_operation(Operation::StartSession, 1).unwrap();
    let before = snapshot(&contract);
    let result = contract.execute_operation(Operation::ResetLeaderboard, 2);
    assert_eq!(result.unwrap_err(), GameError::NotAuthority);
    assert_eq!(snapshot(&contract), before);
}

#[test]
fn bounced_messages_change_nothing() {
    for message in every_message() {
        let mut contract = authority();
        contract.execute_message(finished(C, 3), false, 1);
        let before = snapshot(&contract);
        assert!(contract.accepts_message(&message, true));
        assert_eq!(contract.execute_message(message, true, 50), Receipt::Bounced);
        assert_eq!(snapshot(&contract), before);
    }
    for message in every_message() {
        let mut contract = player(B);
        contract.execute_operation(Operation::StartSession, 1).unwrap();
        contract.execute_operation(Operation::EndSession, 2).unwrap();
        let before = snapshot(&contract);
        assert_eq!(contract.execute_message(message, true, 50), Receipt::Bounced);
        assert_eq!(snapshot(&contract), before);
    }
}

#[test]
fn authority_messages_are_ignored_on_a_player_shard() {
    for message in every_message() {
        if matches!(message, GameMessage::LeaderboardReset) {
            continue;
        }
        let mut contract = player(B);
        let before = snapshot(&contract);
        assert_eq!(contract.execute_message(message, false, 5), Receipt::Ignored);
        assert_eq!(snapshot(&contract), before);
    }
}

#[test]
fn reserved_and_reset_messages_are_ignored_on_the_authority() {
    let mut contract = authority();
    contract.execute_message(finished(B, 3), false, 1);
    let before = snapshot(&contract);
    let start = GameMessage::StartGame {
        session_id: String::from("s"),
        owner: shard(B),
        player_name: None,
    };
    assert_eq!(contract.execute_message(start, false, 2), Receipt::Ignored);
    assert_eq!(contract.execute_message(GameMessage::LeaderboardReset, false, 2), Receipt::Ignored);
    assert_eq!(snapshot(&contract), before);
    let candy = GameMessage::CandyCollected { session_id: String::from("s"), owner: shard(B) };
    assert_eq!(contract.execute_message(candy, false, 2), Receipt::Applied);
    assert_eq!(snapshot(&contract), before);
}

#[test]
fn name_message_fills_the_directory_and_the_board() {
    let mut contract = authority();
    let name = GameMessage::UpdatePlayerName { owner: shard(B), name: String::from("Bea") };
    assert_eq!(contract.execute_message(name, false, 1), Receipt::Applied);
    assert_eq!(contract.state.player_directory.get(&shard(B)), Some(&String::from("Bea")));
    assert!(contract.state.leaderboard.is_empty());
    contract.execute_message(finished(B, 2), false, 2);
    assert_eq!(contract.state.leaderboard[0].player_name, Some(String::from("Bea")));
    let rename = GameMessage::UpdatePlayerName { owner: shard(B), name: String::from("Bee") };
    contract.execute_message(rename, false, 3);
    assert_eq!(contract.state.leaderboard[0].player_name, Some(String::from("Bee")));
    let before = snapshot(&contract);
    contract.rebuild_global_leaderboard();
    assert_eq!(snapshot(&contract), before);
}

#[test]
fn a_name_for_a_listed_player_shows_on_the_board_at_once() {
    let mut contract = authority();
    contract.execute_message(finished(B, 2), false, 1);
    contract.execute_message(finished(C, 5), false, 2);
    assert_eq!(contract.state.leaderboard[1].shard_id, shard(B));
    assert_eq!(contract.state.leaderboard[1].player_name, None);
    let name = GameMessage::UpdatePlayerName { owner: shard(B), name: String::from("Bea") };
    assert_eq!(contract.execute_message(name, false, 3), Receipt::Applied);
    assert_eq!(contract.state.leaderboard.len(), 2);
    assert_eq!(contract.state.leaderboard[0].shard_id, shard(C));
    assert_eq!(contract.state.leaderboard[0].player_name, None);
    assert_eq!(contract.state.leaderboard[1].shard_id, shard(B));
    assert_eq!(contract.state.leaderboard[1].player_name, Some(String::from("Bea")));
    assert_eq!(contract.state.leaderboard[1].highest_score, 2);
}

#[test]
fn the_authority_naming_itself_shows_on_the_board_at_once() {
    let mut contract = authority();
    contract.execute_message(finished(A, 4), false, 1);
    assert_eq!(contract.state.leaderboard[0].player_name, None);
    let outbox = contract
        .execute_operation(Operation::SetPlayerName { name: String::from("Ann") }, 2)
        .unwrap();
    assert!(outbox.is_empty());
    assert_eq!(contract.state.player_directory.get(&shard(A)), Some(&String::from("Ann")));
    assert_eq!(contract.state.leaderboard.len(), 1);
    assert_eq!(contract.state.leaderboard[0].shard_id, shard(A));
    assert_eq!(contract.state.leaderboard[0].player_name, Some(String::from("Ann")));
}

#[test]
fn rebuild_twice_gives_the_same_board() {
    let mut contract = authority();
    contract.execute_message(finished(B, 2), false, 1);
    contract.execute_message(finished(C, 8), false, 2);
    contract.rebuild_global_leaderboard();
    let once = snapshot(&contract);
    contract.rebuild_global_leaderboard();
    assert_eq!(snapshot(&contract), once);
    assert_eq!(contract.state.leaderboard[0].shard_id, shard(C));
    assert_eq!(contract.state.leaderboard[1].shard_id, shard(B));
}

#[test]
fn reset_notice_clears_the_standing_and_keeps_the_sessions() {
    let mut contract = player(B);
    contract.execute_operation(Operation::StartSession, 1).unwrap();
    contract.execute_operation(Operation::CollectCandy, 2).unwrap();
    contract.execute_operation(Operation::EndSession, 3).unwrap();
    assert_eq!(contract.state.my_stats.unwrap().highest_score, 1);
    let receipt = contract.execute_message(GameMessage::LeaderboardReset, false, 9);
    assert_eq!(receipt, Receipt::Applied);
    let stats = contract.state.my_stats.unwrap();
    assert_eq!(stats.highest_score, 0);
    assert_eq!(stats.games_played, 0);
    assert_eq!(stats.total_candies, 0);
    assert_eq!(stats.current_streak, 0);
    assert_eq!(stats.best_streak, 0);
    assert_eq!(stats.last_game_timestamp, 3);
    assert_eq!(stats.shard_id, shard(B));
    assert_eq!(contract.state.sessions.len(), 1);
    assert_eq!(contract.state.sessions[0].state, GameState::Finished);
    assert_eq!(contract.state.my_sessions.len(), 1);
    assert!(contract.state.leaderboard.is_empty());
    let mut fresh = player(C);
    assert_eq!(fresh.execute_message(GameMessage::LeaderboardReset, false, 9), Receipt::Applied);
    assert_eq!(fresh.state.my_stats, None);
}

#[test]
fn errors_are_fatal_or_not() {
    assert!(GameError::AlreadyConfigured.is_fatal());
    assert!(GameError::NotAuthority.is_fatal());
    assert!(!GameError::NoActiveSession.is_fatal());
}

#[test]
fn accepts_message_tells_the_limits() {
    let mut contract = authority();
    contract.execute_message(finished(B, 1), false, 1);
    assert!(contract.accepts_message(&finished(B, 5), false));
    let mut full = *contract.state.player_stats.get(&shard(B)).unwrap();
    full.games_played = u32::MAX;
    contract.state.player_stats.insert(shard(B), full);
    assert!(!contract.accepts_message(&finished(B, 5), false));
    assert!(contract.accepts_message(&finished(B, 5), true));
    assert!(contract.accepts_message(&finished(C, 5), false));
    assert!(contract.accepts_message(&GameMessage::LeaderboardReset, false));
    assert!(player(B).accepts_message(&finished(B, 5), false));
}
