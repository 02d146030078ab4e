//! The published leaderboard: the best players, recomputed from the
//! statistics of every player and the directory of names.

use crate::shard::ShardId;
use crate::shard_map::ShardMap;
use crate::stats::PlayerStats;
use vstd::prelude::*;

verus! {

/// The most entries that a leaderboard holds.
pub const LEADERBOARD_LIMIT: usize = 100;

/// One row of the published leaderboard.
#[derive(Debug)]
pub struct LeaderboardEntry {
    pub shard_id: ShardId,
    pub player_name: Option<String>,
    pub highest_score: u32,
    pub games_played: u32,
    pub total_candies: u64,
}

/// What a leaderboard row says.
pub struct EntryView {
    pub shard_id: ShardId,
    pub player_name: Option<Seq<char>>,
    pub highest_score: u32,
    pub games_played: u32,
    pub total_candies: u64,
}

impl View for LeaderboardEntry {
    type V = EntryView;

    open spec fn view(&self) -> EntryView {
        EntryView {
            shard_id: self.shard_id,
            player_name: match self.player_name {
                Some(name) => Some(name@),
                None => None,
            },
            highest_score: self.highest_score,
            games_played: self.games_played,
            total_candies: self.total_candies,
        }
    }
}

/// What a list of leaderboard rows says.
pub open spec fn board_view(board: Seq<LeaderboardEntry>) -> Seq<EntryView> {
    board.map_values(|entry: LeaderboardEntry| entry@)
}

/// What a directory of names says.
pub open spec fn name_texts(names: Map<ShardId, String>) -> Map<ShardId, Seq<char>> {
    Map::new(|key: ShardId| names.dom().contains(key), |key: ShardId| names[key]@)
}

/// Whether `a` ranks strictly above `b`: by personal best, then by candies in
/// total, then by games played, the greater first.
pub open spec fn outranks(a: EntryView, b: EntryView) -> bool {
    ||| a.highest_score > b.highest_score
    ||| a.highest_score == b.highest_score && a.total_candies > b.total_candies
    ||| a.highest_score == b.highest_score && a.total_candies == b.total_candies && a.games_played
        > b.games_played
}

/// Whether `a` is listed before `b`: it ranks above `b` or, where neither
/// ranks above the other, its shard identifier comes first.
pub open spec fn precedes(a: EntryView, b: EntryView) -> bool {
    outranks(a, b) || (!outranks(b, a) && a.shard_id.before(b.shard_id))
}

/// The row of the player `key`: the statistics joined with the name, if the
/// directory has one.
pub open spec fn entry_for(
    key: ShardId,
    stats: Map<ShardId, PlayerStats>,
    names: Map<ShardId, Seq<char>>,
) -> EntryView {
    EntryView {
        shard_id: key,
        player_name: if names.dom().contains(key) {
            Some(names[key])
        } else {
            None
        },
        highest_score: stats[key].highest_score,
        games_played: stats[key].games_played,
        total_candies: stats[key].total_candies,
    }
}

/// Whether the player `key` has a row in `board`.
pub open spec fn listed(board: Seq<EntryView>, key: ShardId) -> bool {
    exists|i: int| 0 <= i < board.len() && (#[trigger] board[i]).shard_id == key
}

/// Whether no row of `board` ranks above a row that is listed before it.
pub open spec fn descending(board: Seq<EntryView>) -> bool {
    forall|i: int, j: int| 0 <= i < j < board.len() ==> !outranks(#[trigger] board[j], #[trigger] board[i])
}

/// Whether `board` lists the best of the players in `field`: each row is the
/// row of a player of `field`, the rows are in order, and a player of `field`
/// is left out only where the board is full and every row on it is listed
/// before that player's.
pub open spec fn ranks(
    board: Seq<EntryView>,
    field: Set<ShardId>,
    stats: Map<ShardId, PlayerStats>,
    names: Map<ShardId, Seq<char>>,
) -> bool {
    &&& board.len() <= LEADERBOARD_LIMIT
    &&& forall|i: int|
        0 <= i < board.len() ==> field.contains((#[trigger] board[i]).shard_id) && board[i]
            == entry_for(board[i].shard_id, stats, names)
    &&& forall|i: int, j: int|
        0 <= i < j < board.len() ==> precedes(#[trigger] board[i], #[trigger] board[j])
    &&& forall|key: ShardId|
        #[trigger] field.contains(key) && !listed(board, key) ==> {
            &&& board.len() == LEADERBOARD_LIMIT
            &&& forall|i: int|
                0 <= i < board.len() ==> precedes(#[trigger] board[i], entry_for(key, stats, names))
        }
}

/// The length of the leaderboard of `players` players.
pub open spec fn board_len(players: nat) -> nat {
    if players <= LEADERBOARD_LIMIT {
        players
    } else {
        LEADERBOARD_LIMIT as nat
    }
}

/// Whether `board` is the leaderboard of the players with statistics in
/// `stats`, named by `names`.
pub open spec fn is_leaderboard(
    board: Seq<EntryView>,
    stats: Map<ShardId, PlayerStats>,
    names: Map<ShardId, Seq<char>>,
) -> bool {
    &&& stats.dom().finite()
    &&& board.len() == board_len(stats.dom().len())
    &&& ranks(board, stats.dom(), stats, names)
}

/// Of two rows of different players, one is listed before the other.
pub proof fn lemma_precedes_total(a: EntryView, b: EntryView)
    requires
        a.shard_id != b.shard_id,
    ensures
        precedes(a, b) || precedes(b, a),
{
}

/// The listing order is strict and transitive.
pub proof fn lemma_precedes_order(a: EntryView, b: EntryView, c: EntryView)
    ensures
        !precedes(a, a),
        precedes(a, b) ==> !precedes(b, a),
        precedes(a, b) && precedes(b, c) ==> precedes(a, c),
{
}

/// A board in listing order is in descending order of rank.
pub proof fn lemma_ranks_descending(
    board: Seq<EntryView>,
    field: Set<ShardId>,
    stats: Map<ShardId, PlayerStats>,
    names: Map<ShardId, Seq<char>>,
)
    requires
        ranks(board, field, stats, names),
    ensures
        descending(board),
{
    assert forall|i: int, j: int| 0 <= i < j < board.len() implies !outranks(
        #[trigger] board[j],
        #[trigger] board[i],
    ) by {
        assert(precedes(board[i], board[j]));
    }
}

/// The board after the row `entry` has been offered to it at place `at`: the
/// row goes in unless the place is past the limit, and the last row goes
/// out where the board would be too long.
spec fn with_entry(board: Seq<EntryView>, at: int, entry: EntryView) -> Seq<EntryView> {
    if at >= LEADERBOARD_LIMIT {
        board
    } else if board.len() >= LEADERBOARD_LIMIT {
        board.insert(at, entry).drop_last()
    } else {
        board.insert(at, entry)
    }
}

/// Offering the row of one more player at its place in the listing order
/// gives the board of the larger field.
proof fn lemma_offer(
    board: Seq<EntryView>,
    field: Set<ShardId>,
    stats: Map<ShardId, PlayerStats>,
    names: Map<ShardId, Seq<char>>,
    key: ShardId,
    at: int,
)
    requires
        ranks(board, field, stats, names),
        !field.contains(key),
        0 <= at <= board.len(),
        forall|i: int| 0 <= i < at ==> precedes(#[trigger] board[i], entry_for(key, stats, names)),
        forall|i: int|
            at <= i < board.len() ==> precedes(entry_for(key, stats, names), #[trigger] board[i]),
    ensures
        ranks(
            with_entry(board, at, entry_for(key, stats, names)),
            field.insert(key),
            stats,
            names,
        ),
{
    let entry = entry_for(key, stats, names);
    let next = with_entry(board, at, entry);
    let wider = field.insert(key);
    if at >= LEADERBOARD_LIMIT {
        assert forall|other: ShardId| #[trigger] wider.contains(other) && !listed(next, other) implies {
            &&& next.len() == LEADERBOARD_LIMIT
            &&& forall|i: int|
                0 <= i < next.len() ==> precedes(#[trigger] next[i], entry_for(other, stats, names))
        } by {
            if other != key {
                assert(field.contains(other));
            }
        }
    } else {
        let grown = board.insert(at, entry);
        assert forall|i: int, j: int| 0 <= i < j < grown.len() implies precedes(
            #[trigger] grown[i],
            #[trigger] grown[j],
        ) by {
            if j < at {
                assert(precedes(board[i], board[j]));
            } else if j == at {
                assert(precedes(board[i], entry));
            } else if i < at {
                assert(precedes(board[i], board[j - 1]));
            } else if i == at {
                assert(precedes(entry, board[j - 1]));
            } else {
                assert(precedes(board[i - 1], board[j - 1]));
            }
        }
        assert forall|i: int| 0 <= i < grown.len() implies wider.contains((#[trigger] grown[i]).shard_id)
            && grown[i] == entry_for(grown[i].shard_id, stats, names) by {
            if i < at {
                assert(grown[i] == board[i]);
            } else if i > at {
                assert(grown[i] == board[i - 1]);
            }
        }
        assert forall|other: ShardId| #[trigger] wider.contains(other) && !listed(next, other) implies {
            &&& next.len() == LEADERBOARD_LIMIT
            &&& forall|i: int|
                0 <= i < next.len() ==> precedes(#[trigger] next[i], entry_for(other, stats, names))
        } by {
            assert(next[at] == entry);
            assert(other != key);
            assert(field.contains(other));
            if listed(board, other) {
                let was = choose|i: int| 0 <= i < board.len() && (#[trigger] board[i]).shard_id == other;
                let now = if was < at {
                    was
                } else {
                    was + 1
                };
                assert(grown[now] == board[was]);
                if now < next.len() {
                    assert(next[now].shard_id == other);
                    assert(false);
                }
                assert(board.len() == LEADERBOARD_LIMIT && was == board.len() - 1);
                assert(board[was] == entry_for(other, stats, names));
                assert forall|i: int| 0 <= i < next.len() implies precedes(
                    #[trigger] next[i],
                    entry_for(other, stats, names),
                ) by {
                    assert(next[i] == grown[i]);
                    assert(precedes(grown[i], grown[now]));
                }
            } else {
                assert(board.len() == LEADERBOARD_LIMIT);
                assert forall|i: int| 0 <= i < next.len() implies precedes(
                    #[trigger] next[i],
                    entry_for(other, stats, names),
                ) by {
                    assert(next[i] == grown[i]);
                    if i < at {
                        assert(grown[i] == board[i]);
                    } else if i == at {
                        assert(precedes(entry, board[at]));
                        assert(precedes(board[at], entry_for(other, stats, names)));
                    } else {
                        assert(grown[i] == board[i - 1]);
                    }
                }
            }
        }
        assert forall|i: int, j: int| 0 <= i < j < next.len() implies precedes(
            #[trigger] next[i],
            #[trigger] next[j],
        ) by {
            assert(next[i] == grown[i] && next[j] == grown[j]);
        }
        assert forall|i: int| 0 <= i < next.len() implies wider.contains((#[trigger] next[i]).shard_id)
            && next[i] == entry_for(next[i].shard_id, stats, names) by {
            assert(next[i] == grown[i]);
        }
    }
}

/// Two leaderboards of the same players agree on their first `upto` rows.
proof fn lemma_same_rows(
    first: Seq<EntryView>,
    second: Seq<EntryView>,
    stats: Map<ShardId, PlayerStats>,
    names: Map<ShardId, Seq<char>>,
    upto: int,
)
    requires
        is_leaderboard(first, stats, names),
        is_leaderboard(second, stats, names),
        0 <= upto <= first.len(),
    ensures
        forall|i: int| 0 <= i < upto ==> first[i] == second[i],
    decreases upto,
{
    if upto > 0 {
        lemma_same_rows(first, second, stats, names, upto - 1);
        let at = upto - 1;
        lemma_placed_alike(first, second, stats, names, at);
        lemma_placed_alike(second, first, stats, names, at);
        assert(first[at] == entry_for(first[at].shard_id, stats, names));
        assert(second[at] == entry_for(second[at].shard_id, stats, names));
        if first[at].shard_id != second[at].shard_id {
            lemma_precedes_total(first[at], second[at]);
        }
    }
}

/// Where two leaderboards of the same players agree before place `at`, the
/// row that the second has there is not listed before the row of the first.
proof fn lemma_placed_alike(
    first: Seq<EntryView>,
    second: Seq<EntryView>,
    stats: Map<ShardId, PlayerStats>,
    names: Map<ShardId, Seq<char>>,
    at: int,
)
    requires
        is_leaderboard(first, stats, names),
        is_leaderboard(second, stats, names),
        0 <= at < first.len(),
        forall|i: int| 0 <= i < at ==> first[i] == second[i],
    ensures
        !precedes(first[at], second[at]),
{
    let mine = first[at];
    let theirs = second[at];
    if precedes(mine, theirs) {
        assert(stats.dom().contains(mine.shard_id));
        assert(mine == entry_for(mine.shard_id, stats, names));
        if listed(second, mine.shard_id) {
            let found = choose|i: int| 0 <= i < second.len() && (#[trigger] second[i]).shard_id == mine.shard_id;
            assert(second[found] == entry_for(mine.shard_id, stats, names));
            if found < at {
                assert(first[found] == second[found]);
                assert(precedes(first[found], first[at]));
            } else if found > at {
                assert(precedes(second[at], second[found]));
            }
        } else {
            assert(precedes(second[at], entry_for(mine.shard_id, stats, names)));
        }
    }
}

/// The leaderboard is a function of the statistics and the names: two boards
/// of the same players, under the same names, are the same board.
pub proof fn lemma_leaderboard_unique(
    first: Seq<EntryView>,
    second: Seq<EntryView>,
    stats: Map<ShardId, PlayerStats>,
    names: Map<ShardId, Seq<char>>,
)
    requires
        is_leaderboard(first, stats, names),
        is_leaderboard(second, stats, names),
    ensures
        first == second,
{
    lemma_same_rows(first, second, stats, names, first.len() as int);
    assert(first =~= second);
}

/// A leaderboard is in descending order of rank, has the length of the field
/// up to the limit, and lists no player twice.
pub proof fn lemma_leaderboard_shape(
    board: Seq<EntryView>,
    stats: Map<ShardId, PlayerStats>,
    names: Map<ShardId, Seq<char>>,
)
    requires
        is_leaderboard(board, stats, names),
    ensures
        descending(board),
        board.len() <= LEADERBOARD_LIMIT,
        board.len() <= stats.dom().len(),
        board.len() == LEADERBOARD_LIMIT || board.len() == stats.dom().len(),
        forall|i: int, j: int|
            0 <= i < j < board.len() ==> (#[trigger] board[i]).shard_id != (#[trigger] board[j]).shard_id,
{
    lemma_ranks_descending(board, stats.dom(), stats, names);
    assert forall|i: int, j: int| 0 <= i < j < board.len() implies (#[trigger] board[i]).shard_id != (
    #[trigger] board[j]).shard_id by {
        assert(precedes(board[i], board[j]));
        assert(board[i] == entry_for(board[i].shard_id, stats, names));
        assert(board[j] == entry_for(board[j].shard_id, stats, names));
    }
}

/// The leaderboard of the players with statistics in `stats`, named by
/// `names`.
pub open spec fn leaderboard_of(
    stats: Map<ShardId, PlayerStats>,
    names: Map<ShardId, Seq<char>>,
) -> Seq<EntryView> {
    choose|board: Seq<EntryView>| is_leaderboard(board, stats, names)
}

/// The number of rows at the head of `board` that are listed before `entry`.
spec fn rows_before(board: Seq<EntryView>, entry: EntryView) -> int
    decreases board.len(),
{
    if board.len() == 0 {
        0
    } else if precedes(board.last(), entry) {
        board.len() as int
    } else {
        rows_before(board.drop_last(), entry)
    }
}

/// In a board in listing order, the rows listed before a row of another
/// player are at the head, and that row is listed before all the others.
proof fn lemma_rows_before(board: Seq<EntryView>, entry: EntryView)
    requires
        forall|i: int, j: int|
            0 <= i < j < board.len() ==> precedes(#[trigger] board[i], #[trigger] board[j]),
        forall|i: int| 0 <= i < board.len() ==> (#[trigger] board[i]).shard_id != entry.shard_id,
    ensures
        0 <= rows_before(board, entry) <= board.len(),
        forall|i: int| 0 <= i < rows_before(board, entry) ==> precedes(#[trigger] board[i], entry),
        forall|i: int|
            rows_before(board, entry) <= i < board.len() ==> precedes(entry, #[trigger] board[i]),
    decreases board.len(),
{
    if board.len() == 0 {
    } else if precedes(board.last(), entry) {
        assert forall|i: int| 0 <= i < board.len() implies precedes(#[trigger] board[i], entry) by {
            if i < board.len() - 1 {
                assert(precedes(board[i], board[board.len() - 1]));
            }
        }
    } else {
        let head = board.drop_last();
        assert forall|i: int, j: int| 0 <= i < j < head.len() implies precedes(
            #[trigger] head[i],
            #[trigger] head[j],
        ) by {
            assert(head[i] == board[i] && head[j] == board[j]);
        }
        assert forall|i: int| 0 <= i < head.len() implies (#[trigger] head[i]).shard_id
            != entry.shard_id by {
            assert(head[i] == board[i]);
        }
        lemma_rows_before(head, entry);
        let at = rows_before(head, entry);
        assert forall|i: int| 0 <= i < at implies precedes(#[trigger] board[i], entry) by {
            assert(head[i] == board[i]);
        }
        assert forall|i: int| at <= i < board.len() implies precedes(entry, #[trigger] board[i]) by {
            if i < head.len() {
                assert(head[i] == board[i]);
            } else {
                lemma_precedes_total(entry, board[i]);
            }
        }
    }
}

/// Every finite field of players has a board that lists its best.
proof fn lemma_field_has_board(
    field: Set<ShardId>,
    stats: Map<ShardId, PlayerStats>,
    names: Map<ShardId, Seq<char>>,
) -> (board: Seq<EntryView>)
    requires
        field.finite(),
    ensures
        ranks(board, field, stats, names),
        board.len() == board_len(field.len()),
    decreases field.len(),
{
    if field.len() == 0 {
        let board = Seq::<EntryView>::empty();
        assert forall|key: ShardId| #[trigger] field.contains(key) && !listed(board, key) implies false by {
            assert(field =~= Set::<ShardId>::empty());
        }
        board
    } else {
        let key = field.choose();
        let rest = field.remove(key);
        let smaller = lemma_field_has_board(rest, stats, names);
        let entry = entry_for(key, stats, names);
        lemma_rows_before(smaller, entry);
        let at = rows_before(smaller, entry);
        lemma_offer(smaller, rest, stats, names, key, at);
        assert(rest.insert(key) =~= field);
        with_entry(smaller, at, entry)
    }
}

/// The leaderboard of any finite set of players is a leaderboard of them:
/// it is in descending order of rank and as long as the limit allows.
pub proof fn lemma_leaderboard_of(stats: Map<ShardId, PlayerStats>, names: Map<ShardId, Seq<char>>)
    requires
        stats.dom().finite(),
    ensures
        is_leaderboard(leaderboard_of(stats, names), stats, names),
        descending(leaderboard_of(stats, names)),
        leaderboard_of(stats, names).len() == board_len(stats.dom().len()),
{
    let board = lemma_field_has_board(stats.dom(), stats, names);
    assert(is_leaderboard(board, stats, names));
    lemma_leaderboard_shape(leaderboard_of(stats, names), stats, names);
}

/// Where nobody has statistics, the leaderboard is empty.
pub proof fn lemma_no_players_no_rows(names: Map<ShardId, Seq<char>>)
    ensures
        leaderboard_of(Map::<ShardId, PlayerStats>::empty(), names) == Seq::<EntryView>::empty(),
{
    let nobody = Map::<ShardId, PlayerStats>::empty();
    lemma_leaderboard_of(nobody, names);
    assert(leaderboard_of(nobody, names) =~= Seq::<EntryView>::empty());
}

impl LeaderboardEntry {
    /// Decides the listing order of two rows.
    pub fn is_listed_before(&self, other: &LeaderboardEntry) -> (result: bool)
        ensures
            result == precedes(self@, other@),
    {
        if self.highest_score != other.highest_score {
            self.highest_score > other.highest_score
        } else if self.total_candies != other.total_candies {
            self.total_candies > other.total_candies
        } else if self.games_played != other.games_played {
            self.games_played > other.games_played
        } else {
            self.shard_id.is_before(&other.shard_id)
        }
    }

}

impl Clone for LeaderboardEntry {
    fn clone(&self) -> (copy: LeaderboardEntry)
        ensures
            copy == *self,
    {
        LeaderboardEntry {
            shard_id: self.shard_id,
            player_name: match &self.player_name {
                Some(name) => Some(name.clone()),
                None => None,
            },
            highest_score: self.highest_score,
            games_played: self.games_played,
            total_candies: self.total_candies,
        }
    }
}

/// Finds the place of `entry` in `board`: after the rows listed before it.
fn place_for(board: &Vec<LeaderboardEntry>, entry: &LeaderboardEntry) -> (at: usize)
    requires
        forall|i: int, j: int|
            0 <= i < j < board@.len() ==> precedes((#[trigger] board@[i])@, (#[trigger] board@[j])@),
    ensures
        at <= board@.len(),
        forall|i: int| 0 <= i < at ==> precedes((#[trigger] board@[i])@, entry@),
        forall|i: int| at <= i < board@.len() ==> !precedes((#[trigger] board@[i])@, entry@),
{
    let mut at: usize = board.len();
    while at > 0 && !board[at - 1].is_listed_before(entry)
        invariant
            at <= board@.len(),
            forall|i: int| at <= i < board@.len() ==> !precedes((#[trigger] board@[i])@, entry@),
        decreases at,
    {
        at = at - 1;
    }
    proof {
        if at > 0 {
            assert forall|i: int| 0 <= i < at implies precedes((#[trigger] board@[i])@, entry@) by {
                if i < at - 1 {
                    assert(precedes(board@[i]@, board@[at - 1]@));
                }
            }
        }
    }
    at
}

/// Computes the leaderboard: one row for each player with statistics, joined
/// with the player's name where the directory has one, the best
/// `LEADERBOARD_LIMIT` of them in listing order.
pub fn rank_players(stats: &ShardMap<PlayerStats>, names: &ShardMap<String>) -> (board: Vec<
    LeaderboardEntry,
>)
    ensures
        is_leaderboard(board_view(board@), stats@, name_texts(names@)),
        descending(board_view(board@)),
        board@.len() == board_len(stats@.dom().len()),
{
    let count = stats.len();
    let mut board: Vec<LeaderboardEntry> = Vec::new();
    let mut index: usize = 0;
    proof {
        use_type_invariant(stats);
        stats.lemma_walk();
        assert(stats.keys().take(0).to_set() =~= Set::<ShardId>::empty());
    }
    while index < count
        invariant
            index <= count,
            count == stats.keys().len(),
            stats.well_formed(),
            board@.len() == board_len(index as nat),
            ranks(
                board_view(board@),
                stats.keys().take(index as int).to_set(),
                stats@,
                name_texts(names@),
            ),
        decreases count - index,
    {
        let key = stats.key_at(index);
        let tally = stats.value_at(index);
        let entry = LeaderboardEntry {
            shard_id: key,
            player_name: match names.get(&key) {
                Some(name) => Some(name.clone()),
                None => None,
            },
            highest_score: tally.highest_score,
            games_played: tally.games_played,
            total_candies: tally.total_candies,
        };
        let ghost field = stats.keys().take(index as int).to_set();
        let ghost rows = board_view(board@);
        let ghost row = entry_for(key, stats@, name_texts(names@));
        assert(entry@ == row);
        assert forall|i: int, j: int| 0 <= i < j < board@.len() implies precedes(
            (#[trigger] board@[i])@,
            (#[trigger] board@[j])@,
        ) by {
            assert(precedes(rows[i], rows[j]));
        }
        let at = place_for(&board, &entry);
        proof {
            stats.lemma_walk();
            assert(!field.contains(key)) by {
                if field.contains(key) {
                    let earlier = stats.keys().take(index as int).index_of(key);
                    assert(stats.keys().take(index as int)[earlier] == key);
                    assert(stats.keys()[earlier].before(stats.keys()[index as int]));
                }
            }
            assert forall|i: int| at <= i < rows.len() implies precedes(row, #[trigger] rows[i]) by {
                assert(rows[i] == board@[i]@);
                assert(field.contains(rows[i].shard_id));
                lemma_precedes_total(row, rows[i]);
            }
            assert forall|i: int| 0 <= i < at implies precedes(#[trigger] rows[i], row) by {
                assert(rows[i] == board@[i]@);
            }
            lemma_offer(rows, field, stats@, name_texts(names@), key, at as int);
            assert(stats.keys().take(index + 1).to_set() =~= field.insert(key)) by {
                let longer = stats.keys().take(index + 1);
                let shorter = stats.keys().take(index as int);
                assert(longer =~= shorter.push(key));
                assert forall|other: ShardId| longer.to_set().contains(other) <==> field.insert(
                    key,
                ).contains(other) by {
                    if longer.contains(other) {
                        let i = longer.index_of(other);
                        assert(longer[i] == other);
                        if i < index {
                            assert(shorter[i] == other);
                            assert(shorter.contains(other));
                        }
                    }
                    if shorter.contains(other) {
                        let i = shorter.index_of(other);
                        assert(shorter[i] == other);
                        assert(longer[i] == other);
                    }
                    if other == key {
                        assert(longer[index as int] == key);
                    }
                }
            }
        }
        if at < LEADERBOARD_LIMIT {
            board.insert(at, entry);
            if board.len() > LEADERBOARD_LIMIT {
                board.pop();
            }
        }
        proof {
            assert(board_view(board@) =~= with_entry(rows, at as int, row));
        }
        index = index + 1;
    }
    proof {
        assert(stats.keys().take(count as int) =~= stats.keys());
        lemma_ranks_descending(
            board_view(board@),
            stats@.dom(),
            stats@,
            name_texts(names@),
        );
    }
    board
}

} // verus!
