//! Sets of shard identifiers, walked in ascending order.

use crate::shard::ShardId;
use crate::shard_map::{ascending, lemma_ascending_same_set, ShardMap};
use vstd::prelude::*;

verus! {

/// A set of shard identifiers. Adding a member that is there changes nothing.
#[derive(Debug)]
pub struct ShardSet {
    members: ShardMap<()>,
}

impl View for ShardSet {
    type V = Set<ShardId>;

    closed spec fn view(&self) -> Set<ShardId> {
        self.members@.dom()
    }
}

/// The members of `members` in ascending order.
pub open spec fn walk_of(members: Set<ShardId>) -> Seq<ShardId> {
    choose|walk: Seq<ShardId>| ascending(walk) && walk.to_set() == members
}

/// A set has one ascending walk.
pub proof fn lemma_walk_of(members: Set<ShardId>, walk: Seq<ShardId>)
    requires
        ascending(walk),
        walk.to_set() == members,
    ensures
        walk_of(members) == walk,
{
    lemma_ascending_same_set(walk_of(members), walk);
}

impl ShardSet {
    /// The members, in the order in which the set is walked.
    pub closed spec fn walk(&self) -> Seq<ShardId> {
        self.members.keys()
    }

    /// What every set upholds: its members are walked in ascending order.
    #[verifier::type_invariant]
    pub closed spec fn well_formed(&self) -> bool {
        self.members.well_formed()
    }

    /// How the walk of a set relates to the set itself.
    pub proof fn lemma_walk(&self)
        requires
            self.well_formed(),
        ensures
            ascending(self.walk()),
            self.walk().no_duplicates(),
            self@ == self.walk().to_set(),
            self@.finite(),
            self@.len() == self.walk().len(),
            self.walk() == walk_of(self@),
    {
        self.members.lemma_walk();
        lemma_walk_of(self@, self.walk());
    }

    pub fn new() -> (set: ShardSet)
        ensures
            set@ == Set::<ShardId>::empty(),
            set.walk() == Seq::<ShardId>::empty(),
    {
        let members = ShardMap::new();
        proof {
            use_type_invariant(&members);
        }
        let set = ShardSet { members };
        assert(set@ =~= Set::<ShardId>::empty());
        set
    }

    /// The number of members.
    pub fn len(&self) -> (count: usize)
        ensures
            count == self@.len(),
            count == self.walk().len(),
    {
        self.members.len()
    }

    /// The member at `index` of the walk.
    pub fn member_at(&self, index: usize) -> (member: ShardId)
        requires
            index < self.walk().len(),
        ensures
            member == self.walk()[index as int],
            self@.contains(member),
    {
        self.members.key_at(index)
    }

    pub fn contains(&self, member: &ShardId) -> (result: bool)
        ensures
            result == self@.contains(*member),
    {
        self.members.contains_key(member)
    }

    /// Adds `member`.
    pub fn insert(&mut self, member: ShardId)
        ensures
            final(self)@ == old(self)@.insert(member),
    {
        let mut members = ShardMap::new();
        proof {
            use_type_invariant(&members);
        }
        std::mem::swap(&mut self.members, &mut members);
        members.insert(member, ());
        proof {
            use_type_invariant(&members);
        }
        self.members = members;
        assert(self@ =~= old(self)@.insert(member));
    }

    /// Empties the set.
    pub fn clear(&mut self)
        ensures
            final(self)@ == Set::<ShardId>::empty(),
            final(self).walk() == Seq::<ShardId>::empty(),
    {
        let members = ShardMap::new();
        proof {
            use_type_invariant(&members);
        }
        self.members = members;
        assert(self@ =~= Set::<ShardId>::empty());
    }
}

} // verus!
