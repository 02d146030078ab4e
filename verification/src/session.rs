//! Game sessions: the record of one game on the shard that played it.

use crate::shard::{chain_id_text, lemma_text_injective, ShardId};
use crate::text::{decimal, decimal_text, lemma_decimal_injective};
use vstd::prelude::*;
use vstd::string::*;

verus! {

/// Where a game stands.
#[derive(Clone, Copy, Debug, PartialEq, Eq, Structural)]
pub enum GameState {
    NotStarted,
    Playing,
    Finished,
}

/// The record of one game. It lives on the shard of its owner and nowhere
/// else.
#[derive(Debug)]
pub struct GameSession {
    pub session_id: String,
    pub owner: ShardId,
    pub player_name: Option<String>,
    pub start_time: u64,
    pub end_time: Option<u64>,
    pub candies_collected: u32,
    pub is_record: bool,
    pub state: GameState,
}

/// What the record of a game says.
pub struct SessionView {
    pub session_id: Seq<char>,
    pub owner: ShardId,
    pub player_name: Option<Seq<char>>,
    pub start_time: u64,
    pub end_time: Option<u64>,
    pub candies_collected: u32,
    pub is_record: bool,
    pub state: GameState,
}

/// What an optional text says.
pub open spec fn text_of(text: Option<String>) -> Option<Seq<char>> {
    match text {
        Some(text) => Some(text@),
        None => None,
    }
}

/// What a list of texts says.
pub open spec fn texts_of(texts: Seq<String>) -> Seq<Seq<char>> {
    texts.map_values(|text: String| text@)
}

/// What a list of records says.
pub open spec fn sessions_view(sessions: Seq<GameSession>) -> Seq<SessionView> {
    sessions.map_values(|session: GameSession| session@)
}

impl View for GameSession {
    type V = SessionView;

    open spec fn view(&self) -> SessionView {
        SessionView {
            session_id: self.session_id@,
            owner: self.owner,
            player_name: text_of(self.player_name),
            start_time: self.start_time,
            end_time: self.end_time,
            candies_collected: self.candies_collected,
            is_record: self.is_record,
            state: self.state,
        }
    }
}

impl Clone for GameSession {
    fn clone(&self) -> (copy: GameSession)
        ensures
            copy == *self,
    {
        GameSession {
            session_id: self.session_id.clone(),
            owner: self.owner,
            player_name: clone_text(&self.player_name),
            start_time: self.start_time,
            end_time: self.end_time,
            candies_collected: self.candies_collected,
            is_record: self.is_record,
            state: self.state,
        }
    }
}

/// A copy of an optional text.
pub fn clone_text(text: &Option<String>) -> (copy: Option<String>)
    ensures
        copy == *text,
{
    match text {
        Some(text) => Some(text.clone()),
        None => None,
    }
}

/// The identifier of the session that `owner` starts when its counter
/// stands at `counter`: the owner's identifier in text, then the counter.
pub open spec fn session_label(owner: ShardId, counter: u64) -> Seq<char> {
    "session_"@ + owner.text() + "_"@ + decimal(counter as nat)
}

/// Writes the identifier of a session.
pub fn session_id_for(owner: &ShardId, counter: u64) -> (session_id: String)
    ensures
        session_id@ == session_label(*owner, counter),
{
    let mut session_id = String::from_str("session_");
    let owner_text = chain_id_text(owner);
    session_id.append(owner_text.as_str());
    session_id.append("_");
    let counter_text = decimal_text(counter);
    session_id.append(counter_text.as_str());
    session_id
}

/// No two sessions have the same identifier, unless the same shard started
/// them with its counter at the same number.
pub proof fn lemma_session_label_injective(a: ShardId, m: u64, b: ShardId, n: u64)
    requires
        session_label(a, m) == session_label(b, n),
    ensures
        a == b,
        m == n,
{
    reveal_strlit("session_");
    reveal_strlit("_");
    let first = session_label(a, m);
    let second = session_label(b, n);
    assert(first.subrange(8, 72) =~= a.text());
    assert(second.subrange(8, 72) =~= b.text());
    lemma_text_injective(a, b);
    assert(first.subrange(73, first.len() as int) =~= decimal(m as nat));
    assert(second.subrange(73, second.len() as int) =~= decimal(n as nat));
    lemma_decimal_injective(m as nat, n as nat);
}

impl SessionView {
    /// The record of a game that `owner` starts at time `now`.
    pub open spec fn started(
        owner: ShardId,
        counter: u64,
        player_name: Option<Seq<char>>,
        now: u64,
    ) -> SessionView {
        SessionView {
            session_id: session_label(owner, counter),
            owner,
            player_name,
            start_time: now,
            end_time: None,
            candies_collected: 0,
            is_record: false,
            state: GameState::Playing,
        }
    }

    /// The record after one more candy.
    pub open spec fn with_candy(self) -> SessionView {
        SessionView { candies_collected: (self.candies_collected + 1) as u32, ..self }
    }

    /// The record of the game once it has ended at time `now`.
    pub open spec fn finished(self, is_record: bool, now: u64) -> SessionView {
        SessionView { end_time: Some(now), is_record, state: GameState::Finished, ..self }
    }
}

/// Whether some record of `sessions` has the identifier `session_id`.
pub open spec fn holds_session(sessions: Seq<SessionView>, session_id: Seq<char>) -> bool {
    exists|i: int| 0 <= i < sessions.len() && (#[trigger] sessions[i]).session_id == session_id
}

/// Whether `index` is the place of the first record of `sessions` with the
/// identifier `session_id`.
pub open spec fn is_session_index(
    sessions: Seq<SessionView>,
    session_id: Seq<char>,
    index: int,
) -> bool {
    &&& 0 <= index < sessions.len()
    &&& sessions[index].session_id == session_id
    &&& forall|i: int| 0 <= i < index ==> (#[trigger] sessions[i]).session_id != session_id
}

/// The place of the first record of `sessions` with the identifier
/// `session_id`.
pub open spec fn session_index(sessions: Seq<SessionView>, session_id: Seq<char>) -> int {
    choose|index: int| is_session_index(sessions, session_id, index)
}

/// The records after `session` has been stored: in the place of the record
/// with its identifier, or at the end where there is none.
pub open spec fn with_session(sessions: Seq<SessionView>, session: SessionView) -> Seq<SessionView> {
    if holds_session(sessions, session.session_id) {
        sessions.update(session_index(sessions, session.session_id), session)
    } else {
        sessions.push(session)
    }
}

/// Finds the first record with the identifier `session_id`.
pub fn find_session(sessions: &Vec<GameSession>, session_id: &String) -> (found: Option<usize>)
    ensures
        found is Some <==> holds_session(sessions_view(sessions@), session_id@),
        found matches Some(index) ==> index == session_index(
            sessions_view(sessions@),
            session_id@,
        ) && is_session_index(sessions_view(sessions@), session_id@, index as int),
{
    let ghost records = sessions_view(sessions@);
    let mut index: usize = 0;
    while index < sessions.len()
        invariant
            index <= sessions@.len(),
            records == sessions_view(sessions@),
            forall|i: int| 0 <= i < index ==> (#[trigger] records[i]).session_id != session_id@,
        decreases sessions@.len() - index,
    {
        if sessions[index].session_id == *session_id {
            proof {
                assert(records[index as int] == sessions@[index as int]@);
                assert(is_session_index(records, session_id@, index as int));
                lemma_session_index(records, session_id@, index as int);
            }
            return Some(index);
        }
        assert(records[index as int] == sessions@[index as int]@);
        index = index + 1;
    }
    None
}

/// The first record with an identifier has one place only.
pub proof fn lemma_session_index(sessions: Seq<SessionView>, session_id: Seq<char>, index: int)
    requires
        is_session_index(sessions, session_id, index),
    ensures
        holds_session(sessions, session_id),
        session_index(sessions, session_id) == index,
{
    let chosen = session_index(sessions, session_id);
    assert(is_session_index(sessions, session_id, chosen));
    if chosen < index {
        assert(sessions[chosen].session_id != session_id);
    } else if index < chosen {
        assert(sessions[index].session_id != session_id);
    }
}

/// Where some record has an identifier, a first record has it.
pub proof fn lemma_first_session(sessions: Seq<SessionView>, session_id: Seq<char>)
    requires
        holds_session(sessions, session_id),
    ensures
        is_session_index(sessions, session_id, session_index(sessions, session_id)),
{
    let some = choose|i: int| 0 <= i < sessions.len() && (#[trigger] sessions[i]).session_id == session_id;
    let first = lemma_first_upto(sessions, session_id, some);
    assert(is_session_index(sessions, session_id, first));
}

/// The first record with an identifier, given one at `upto`.
proof fn lemma_first_upto(sessions: Seq<SessionView>, session_id: Seq<char>, upto: int) -> (first:
    int)
    requires
        0 <= upto < sessions.len(),
        sessions[upto].session_id == session_id,
    ensures
        is_session_index(sessions, session_id, first),
    decreases upto,
{
    if exists|i: int| 0 <= i < upto && (#[trigger] sessions[i]).session_id == session_id {
        let earlier = choose|i: int| 0 <= i < upto && (#[trigger] sessions[i]).session_id == session_id;
        lemma_first_upto(sessions, session_id, earlier)
    } else {
        upto
    }
}

/// Stores `session`: in the place of the record with its identifier, or at
/// the end where there is none.
pub fn store_session(sessions: &mut Vec<GameSession>, session: GameSession)
    ensures
        sessions_view(final(sessions)@) == with_session(sessions_view(old(sessions)@), session@),
{
    let ghost before = sessions_view(sessions@);
    match find_session(sessions, &session.session_id) {
        Some(index) => {
            sessions.set(index, session);
            assert(sessions_view(sessions@) =~= before.update(index as int, session@));
        },
        None => {
            sessions.push(session);
            assert(sessions_view(sessions@) =~= before.push(session@));
        },
    }
}

} // verus!
