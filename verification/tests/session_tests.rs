use snake_game::contract::SnakeGameContract;
use snake_game::message::{ApplicationParameters, GameError, GameMessage, Operation};
use snake_game::session::{find_session, session_id_for, store_session, GameSession, GameState};
use snake_game::shard::ShardId;
use snake_game::state::SnakeGameState;

fn shard(n: u64) -> ShardId {
    ShardId::new(0, 0, 0, n)
}

fn player_with_authority(n: u64, authority: Option<u64>) -> SnakeGameContract {
    let mut contract = SnakeGameContract::new(shard(n));
    contract.instantiate(ApplicationParameters { authority_shard_id: authority.map(shard) });
    contract
}

fn snapshot(contract: &SnakeGameContract) -> String {
    format!("{:?}", contract)
}

#[test]
fn start_session_creates_a_playing_record() {
    let mut contract = player_with_authority(2, Some(1));
    contract.set_player_name(String::from("Bea"));
    let outbox = contract.execute_operation(Operation::StartSession, 1000).unwrap();
    assert!(outbox.is_empty());
    let id = session_id_for(&shard(2), 0);
    assert_eq!(contract.state.session_counter, 1);
    assert_eq!(contract.state.current_session_id, Some(id.clone()));
    assert_eq!(contract.state.my_sessions, vec![id.clone()]);
    assert_eq!(contract.state.sessions.len(), 1);
    let session = &contract.state.sessions[0];
    assert_eq!(session.session_id, id);
    assert_eq!(session.owner, shard(2));
    assert_eq!(session.player_name, Some(String::from("Bea")));
    assert_eq!(session.start_time, 1000);
    assert_eq!(session.end_time, None);
    assert_eq!(session.candies_collected, 0);
    assert!(!session.is_record);
    assert_eq!(session.state, GameState::Playing);
}

#[test]
fn a_new_session_supersedes_the_current_one() {
    let mut contract = player_with_authority(2, Some(1));
    contract.start_session(1);
    contract.start_session(2);
    assert_eq!(contract.state.session_counter, 2);
    assert_eq!(contract.state.sessions.len(), 2);
    assert_eq!(contract.state.current_session_id, Some(session_id_for(&shard(2), 1)));
    contract.collect_candy().unwrap();
    assert_eq!(contract.state.sessions[0].candies_collected, 0);
    assert_eq!(contract.state.sessions[1].candies_collected, 1);
    assert_eq!(contract.state.sessions[0].state, GameState::Playing);
}

#[test]
fn collect_candy_counts_and_notifies_the_authority() {
    let mut contract = player_with_authority(2, Some(1));
    contract.start_session(1);
    let outbox = contract.execute_operation(Operation::CollectCandy, 2).unwrap();
    assert_eq!(outbox.len(), 1);
    assert_eq!(outbox[0].destination, shard(1));
    match &outbox[0].message {
        GameMessage::CandyCollected { session_id, owner } => {
            assert_eq!(*session_id, session_id_for(&shard(2), 0));
            assert_eq!(*owner, shard(2));
        }
        other => panic!("unexpected message {:?}", other),
    }
    assert_eq!(contract.state.sessions[0].candies_collected, 1);
    contract.collect_candy().unwrap();
    contract.collect_candy().unwrap();
    assert_eq!(contract.state.sessions[0].candies_collected, 3);
}

#[test]
fn collect_candy_without_authority_sends_nothing() {
    let mut contract = player_with_authority(2, None);
    contract.start_session(1);
    let notice = contract.collect_candy().unwrap();
    assert!(notice.is_none());
    assert_eq!(contract.state.sessions[0].candies_collected, 1);
}

#[test]
fn collect_and_end_without_a_session_do_nothing() {
    let mut contract = player_with_authority(2, Some(1));
    let before = snapshot(&contract);
    assert_eq!(
        contract.execute_operation(Operation::CollectCandy, 1).unwrap_err(),
        GameError::NoActiveSession
    );
    assert_eq!(
        contract.execute_operation(Operation::EndSession, 1).unwrap_err(),
        GameError::NoActiveSession
    );
    assert_eq!(snapshot(&contract), before);
    contract.state.current_session_id = Some(String::from("no such session"));
    let before = snapshot(&contract);
    assert_eq!(contract.collect_candy().unwrap_err(), GameError::NoActiveSession);
    assert_eq!(contract.end_session(2).unwrap_err(), GameError::NoActiveSession);
    assert_eq!(snapshot(&contract), before);
}

#[test]
fn first_game_is_a_record_and_is_reported() {
    let mut contract = player_with_authority(2, Some(1));
    contract.start_session(10);
    let outbox = contract.execute_operation(Operation::EndSession, 20).unwrap();
    assert_eq!(outbox.len(), 1);
    assert_eq!(outbox[0].destination, shard(1));
    match &outbox[0].message {
        GameMessage::GameFinished { session_id, owner, candies_collected, is_new_record } => {
            assert_eq!(*session_id, session_id_for(&shard(2), 0));
            assert_eq!(*owner, shard(2));
            assert_eq!(*candies_collected, 0);
            assert!(*is_new_record);
        }
        other => panic!("unexpected message {:?}", other),
    }
    let session = &contract.state.sessions[0];
    assert_eq!(session.state, GameState::Finished);
    assert_eq!(session.end_time, Some(20));
    assert!(session.is_record);
    assert_eq!(contract.state.current_session_id, None);
    let stats = contract.state.my_stats.unwrap();
    assert_eq!(stats.shard_id, shard(2));
    assert_eq!(stats.games_played, 1);
    assert_eq!(stats.highest_score, 0);
    assert_eq!(stats.last_game_timestamp, 20);
}

fn play(contract: &mut SnakeGameContract, candies: u32, now: u64) -> usize {
    contract.start_session(now);
    for _ in 0..candies {
        contract.collect_candy().unwrap();
    }
    assert!(contract.accepts_operation(&Operation::EndSession));
    contract.execute_operation(Operation::EndSession, now + 1).unwrap().len()
}

#[test]
fn a_game_without_a_record_sends_nothing() {
    let mut contract = player_with_authority(2, Some(1));
    assert_eq!(play(&mut contract, 5, 10), 1);
    assert_eq!(play(&mut contract, 5, 20), 0);
    assert_eq!(play(&mut contract, 3, 30), 0);
    assert_eq!(play(&mut contract, 0, 40), 0);
    assert_eq!(play(&mut contract, 6, 50), 1);
    let stats = contract.state.my_stats.unwrap();
    assert_eq!(stats.games_played, 5);
    assert_eq!(stats.highest_score, 6);
    assert_eq!(stats.total_candies, 19);
    assert_eq!(stats.current_streak, 1);
    assert_eq!(stats.best_streak, 1);
    let records: Vec<bool> = contract.state.sessions.iter().map(|s| s.is_record).collect();
    assert_eq!(records, vec![true, false, false, false, true]);
    assert_eq!(contract.state.sessions.len(), 5);
    assert_eq!(contract.state.my_sessions.len(), 5);
}

#[test]
fn a_record_without_an_authority_sends_nothing() {
    let mut contract = player_with_authority(2, None);
    assert_eq!(play(&mut contract, 4, 10), 0);
    assert!(contract.state.sessions[0].is_record);
    assert_eq!(contract.state.my_stats.unwrap().highest_score, 4);
}

#[test]
fn set_player_name_on_a_player_shard_tells_the_authority() {
    let mut contract = player_with_authority(2, Some(1));
    let outbox = contract
        .execute_operation(Operation::SetPlayerName { name: String::from("Bea") }, 1)
        .unwrap();
    assert_eq!(outbox.len(), 1);
    assert_eq!(outbox[0].destination, shard(1));
    match &outbox[0].message {
        GameMessage::UpdatePlayerName { owner, name } => {
            assert_eq!(*owner, shard(2));
            assert_eq!(name, "Bea");
        }
        other => panic!("unexpected message {:?}", other),
    }
    assert_eq!(contract.state.my_player_name, Some(String::from("Bea")));
    assert_eq!(contract.state.player_directory.len(), 0);
}

#[test]
fn set_player_name_on_the_authority_fills_the_directory() {
    let mut contract = player_with_authority(1, Some(1));
    let notice = contract.set_player_name(String::from("Ann"));
    assert!(notice.is_none());
    assert_eq!(contract.state.my_player_name, Some(String::from("Ann")));
    assert_eq!(contract.state.player_directory.get(&shard(1)), Some(&String::from("Ann")));
}

#[test]
fn set_player_name_without_authority_stays_local() {
    let mut contract = player_with_authority(2, None);
    let notice = contract.set_player_name(String::from("Bea"));
    assert!(notice.is_none());
    assert_eq!(contract.state.my_player_name, Some(String::from("Bea")));
    assert_eq!(contract.state.player_directory.len(), 0);
}

#[test]
fn query_operations_change_nothing() {
    let mut contract = player_with_authority(2, Some(1));
    play(&mut contract, 2, 1);
    let before = snapshot(&contract);
    for operation in [
        Operation::GetLeaderboard,
        Operation::GetMyStats,
        Operation::GetSession { session_id: String::from("any") },
    ] {
        assert!(contract.accepts_operation(&operation));
        assert!(contract.execute_operation(operation, 9).unwrap().is_empty());
    }
    assert_eq!(snapshot(&contract), before);
}

#[test]
fn a_session_started_after_a_reset_takes_the_place_of_the_old_one() {
    let mut contract = player_with_authority(1, Some(1));
    play(&mut contract, 3, 10);
    assert_eq!(contract.state.sessions[0].candies_collected, 3);
    contract.reset_leaderboard().unwrap();
    assert_eq!(contract.state.session_counter, 0);
    assert_eq!(contract.state.sessions.len(), 1);
    contract.start_session(50);
    assert_eq!(contract.state.sessions.len(), 1);
    assert_eq!(contract.state.sessions[0].candies_collected, 0);
    assert_eq!(contract.state.sessions[0].state, GameState::Playing);
    assert_eq!(contract.state.sessions[0].start_time, 50);
    assert_eq!(contract.state.my_sessions.len(), 2);
}

#[test]
fn accepts_operation_tells_the_limits() {
    let mut contract = player_with_authority(2, Some(1));
    assert!(contract.accepts_operation(&Operation::StartSession));
    assert!(contract.accepts_operation(&Operation::CollectCandy));
    contract.start_session(1);
    contract.state.sessions[0].candies_collected = u32::MAX;
    assert!(!contract.accepts_operation(&Operation::CollectCandy));
    assert!(contract.accepts_operation(&Operation::EndSession));
    contract.state.session_counter = u64::MAX;
    assert!(!contract.accepts_operation(&Operation::StartSession));
    let mut stats = snake_game::stats::PlayerStats::new(shard(2));
    stats.total_candies = u64::MAX;
    contract.state.my_stats = Some(stats);
    assert!(!contract.accepts_operation(&Operation::EndSession));
}

fn record(id: &str, candies: u32, state: GameState) -> GameSession {
    GameSession {
        session_id: String::from(id),
        owner: shard(2),
        player_name: None,
        start_time: 0,
        end_time: None,
        candies_collected: candies,
        is_record: false,
        state,
    }
}

#[test]
fn store_session_replaces_by_identifier() {
    let mut sessions = vec![record("a", 1, GameState::Playing), record("b", 2, GameState::Playing)];
    store_session(&mut sessions, record("c", 3, GameState::Playing));
    assert_eq!(sessions.len(), 3);
    store_session(&mut sessions, record("a", 9, GameState::Finished));
    assert_eq!(sessions.len(), 3);
    assert_eq!(sessions[0].candies_collected, 9);
    assert_eq!(sessions[0].state, GameState::Finished);
    assert_eq!(find_session(&sessions, &String::from("b")), Some(1));
    assert_eq!(find_session(&sessions, &String::from("c")), Some(2));
    assert_eq!(find_session(&sessions, &String::from("d")), None);
    let copy = sessions[0].clone();
    assert_eq!(format!("{:?}", copy), format!("{:?}", sessions[0]));
}

#[test]
fn game_stats_counts_sessions_and_players() {
    let mut state = SnakeGameState::new();
    let empty = state.game_stats();
    assert_eq!(empty.total_sessions, 0);
    assert_eq!(empty.finished_games, 0);
    assert_eq!(empty.total_players, 0);
    state.sessions.push(record("a", 1, GameState::Finished));
    state.sessions.push(record("b", 1, GameState::Playing));
    state.sessions.push(record("c", 1, GameState::Finished));
    state.sessions.push(record("d", 1, GameState::NotStarted));
    state.player_stats.insert(shard(4), snake_game::stats::PlayerStats::new(shard(4)));
    state.player_stats.insert(shard(5), snake_game::stats::PlayerStats::new(shard(5)));
    state.player_stats.insert(shard(4), snake_game::stats::PlayerStats::new(shard(4)));
    let summary = state.game_stats();
    assert_eq!(summary.total_sessions, 4);
    assert_eq!(summary.finished_games, 2);
    assert_eq!(summary.total_players, 2);
}
