use snake_game::leaderboard::{rank_players, LeaderboardEntry, LEADERBOARD_LIMIT};
use snake_game::shard::ShardId;
use snake_game::shard_map::ShardMap;
use snake_game::stats::PlayerStats;

fn shard(n: u64) -> ShardId {
    ShardId::new(0, 0, 0, n)
}

fn tally(n: u64, highest_score: u32, total_candies: u64, games_played: u32) -> PlayerStats {
    let mut stats = PlayerStats::new(shard(n));
    stats.highest_score = highest_score;
    stats.total_candies = total_candies;
    stats.games_played = games_played;
    stats
}

fn directory(entries: &[PlayerStats]) -> ShardMap<PlayerStats> {
    let mut stats = ShardMap::new();
    for entry in entries {
        stats.insert(entry.shard_id, *entry);
    }
    stats
}

fn order(board: &[LeaderboardEntry]) -> Vec<u64> {
    board.iter().map(|entry| entry.shard_id.part4).collect()
}

#[test]
fn empty_statistics_give_an_empty_board() {
    let board = rank_players(&ShardMap::new(), &ShardMap::new());
    assert!(board.is_empty());
}

#[test]
fn board_is_sorted_by_score_then_candies_then_games() {
    let stats = directory(&[
        tally(1, 10, 50, 5),
        tally(2, 30, 10, 1),
        tally(3, 10, 70, 2),
        tally(4, 10, 50, 9),
        tally(5, 20, 0, 0),
    ]);
    let board = rank_players(&stats, &ShardMap::new());
    assert_eq!(order(&board), vec![2, 5, 3, 4, 1]);
    let second = &board[1];
    assert_eq!(second.highest_score, 20);
    assert_eq!(second.total_candies, 0);
    assert_eq!(second.games_played, 0);
    assert_eq!(second.player_name, None);
}

#[test]
fn equal_rows_are_listed_in_ascending_shard_order() {
    let stats = directory(&[
        tally(9, 5, 5, 1),
        tally(3, 5, 5, 1),
        tally(7, 5, 5, 1),
        tally(1, 5, 5, 1),
    ]);
    let board = rank_players(&stats, &ShardMap::new());
    assert_eq!(order(&board), vec![1, 3, 7, 9]);
}

#[test]
fn board_joins_names_where_the_directory_has_them() {
    let stats = directory(&[tally(1, 3, 3, 1), tally(2, 8, 8, 1)]);
    let mut names: ShardMap<String> = ShardMap::new();
    names.insert(shard(2), String::from("Ada"));
    names.insert(shard(5), String::from("Nobody"));
    let board = rank_players(&stats, &names);
    assert_eq!(board.len(), 2);
    assert_eq!(board[0].shard_id, shard(2));
    assert_eq!(board[0].player_name, Some(String::from("Ada")));
    assert_eq!(board[1].shard_id, shard(1));
    assert_eq!(board[1].player_name, None);
}

#[test]
fn board_keeps_the_best_hundred() {
    let mut stats: ShardMap<PlayerStats> = ShardMap::new();
    for n in 0..150u64 {
        let score = ((n * 37) % 150) as u32;
        stats.insert(shard(n), tally(n, score, n, 1));
    }
    let board = rank_players(&stats, &ShardMap::new());
    assert_eq!(LEADERBOARD_LIMIT, 100);
    assert_eq!(board.len(), 100);
    for (place, entry) in board.iter().enumerate() {
        assert_eq!(entry.highest_score, 149 - place as u32);
    }
}

#[test]
fn board_length_is_the_number_of_players_up_to_the_limit() {
    for count in [0u64, 1, 2, 99, 100, 101, 130] {
        let mut stats: ShardMap<PlayerStats> = ShardMap::new();
        for n in 0..count {
            stats.insert(shard(n), tally(n, (n % 7) as u32, n % 3, (n % 2) as u32));
        }
        let board = rank_players(&stats, &ShardMap::new());
        assert_eq!(board.len() as u64, count.min(100));
        for pair in board.windows(2) {
            let a = (pair[0].highest_score, pair[0].total_candies, pair[0].games_played);
            let b = (pair[1].highest_score, pair[1].total_candies, pair[1].games_played);
            assert!(a >= b);
            if a == b {
                assert!(pair[0].shard_id < pair[1].shard_id);
            }
        }
    }
}

#[test]
fn board_matches_a_stable_sort_of_the_walk() {
    let mut stats: ShardMap<PlayerStats> = ShardMap::new();
    let mut rows: Vec<(u64, u32, u64, u32)> = Vec::new();
    for n in 0..120u64 {
        let row = (n, ((n * 7) % 5) as u32, (n * 3) % 4, ((n * 11) % 3) as u32);
        stats.insert(shard((n * 53) % 120), tally((n * 53) % 120, row.1, row.2, row.3));
        rows.push(((n * 53) % 120, row.1, row.2, row.3));
    }
    rows.sort_by(|a, b| a.0.cmp(&b.0));
    rows.sort_by(|a, b| b.1.cmp(&a.1).then(b.2.cmp(&a.2)).then(b.3.cmp(&a.3)));
    rows.truncate(100);
    let board = rank_players(&stats, &ShardMap::new());
    let expected: Vec<u64> = rows.iter().map(|row| row.0).collect();
    assert_eq!(order(&board), expected);
}

#[test]
fn ranking_twice_gives_the_same_board() {
    let stats = directory(&[tally(4, 1, 2, 3), tally(2, 1, 2, 3), tally(8, 9, 0, 1)]);
    let mut names: ShardMap<String> = ShardMap::new();
    names.insert(shard(8), String::from("Eight"));
    let first = rank_players(&stats, &names);
    let second = rank_players(&stats, &names);
    assert_eq!(format!("{:?}", first), format!("{:?}", second));
    assert_eq!(order(&first), vec![8, 2, 4]);
}

#[test]
fn listing_order_of_two_rows() {
    let row = |n: u64, score: u32, candies: u64, games: u32| LeaderboardEntry {
        shard_id: shard(n),
        player_name: None,
        highest_score: score,
        games_played: games,
        total_candies: candies,
    };
    assert!(row(9, 5, 0, 0).is_listed_before(&row(1, 4, 9, 9)));
    assert!(row(9, 5, 3, 0).is_listed_before(&row(1, 5, 2, 9)));
    assert!(row(9, 5, 3, 2).is_listed_before(&row(1, 5, 3, 1)));
    assert!(row(1, 5, 3, 2).is_listed_before(&row(9, 5, 3, 2)));
    assert!(!row(9, 5, 3, 2).is_listed_before(&row(1, 5, 3, 2)));
    assert!(!row(1, 5, 3, 2).is_listed_before(&row(1, 5, 3, 2)));
    let named = LeaderboardEntry { player_name: Some(String::from("x")), ..row(1, 1, 1, 1) };
    let copy = named.clone();
    assert_eq!(format!("{:?}", copy), format!("{:?}", named));
}
