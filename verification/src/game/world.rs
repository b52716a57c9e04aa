use crate::game::entityid::EntityId;
use vstd::prelude::*;

verus! {

/// The places of the entities in the world's list, and the list of
/// players.
///
/// The states themselves are kept beside this index, in the same order:
/// slot `i` of this index names the entity whose state is at place `i`.
pub struct WorldModel {
    /// The entity at each place of the list; no entity is at two places.
    pub slots: Seq<EntityId>,
    /// The players, in the order in which they were added.
    pub players: Seq<EntityId>,
}

/// `s` without every occurrence of `id`, the rest in order.
pub open spec fn without(s: Seq<EntityId>, id: EntityId) -> Seq<EntityId>
    decreases s.len(),
{
    if s.len() == 0 {
        Seq::empty()
    } else if s.last() == id {
        without(s.drop_last(), id)
    } else {
        without(s.drop_last(), id).push(s.last())
    }
}

impl WorldModel {
    /// A world with nothing in it.
    pub open spec fn empty() -> WorldModel {
        WorldModel { slots: Seq::empty(), players: Seq::empty() }
    }

    /// No entity is at two places.
    pub open spec fn wf(self) -> bool {
        self.slots.no_duplicates()
    }

    /// The place of `id`, if it is in the world.
    pub open spec fn index_of(self, id: EntityId) -> Option<int> {
        if self.slots.contains(id) {
            Some(self.slots.index_of(id))
        } else {
            None
        }
    }

    /// The slots after the entity at place `i` left: the last entity takes
    /// its place, and the list is one shorter.
    pub open spec fn vacate(self, i: int) -> Seq<EntityId> {
        self.slots.update(i, self.slots.last()).drop_last()
    }

    /// The world after `id` was added at the end; a world that holds `id`
    /// stays as it is.
    pub open spec fn add(self, id: EntityId) -> WorldModel {
        if self.slots.contains(id) {
            self
        } else {
            WorldModel { slots: self.slots.push(id), ..self }
        }
    }

    /// The world after `id` left: it is no player any more, and if it was
    /// in the list, the last entity has taken its place.
    pub open spec fn remove(self, id: EntityId) -> WorldModel {
        WorldModel {
            slots: match self.index_of(id) {
                Some(i) => self.vacate(i),
                None => self.slots,
            },
            players: without(self.players, id),
        }
    }
}

proof fn lemma_vacate_wf(m: WorldModel, i: int)
    requires
        m.wf(),
        0 <= i < m.slots.len(),
    ensures
        m.vacate(i).no_duplicates(),
        !m.vacate(i).contains(m.slots[i]),
{
    let after = m.vacate(i);
    let last = m.slots.len() - 1;
    assert forall|a: int, b: int| 0 <= a < after.len() && 0 <= b < after.len() && a != b implies after[a]
        != after[b] by {
        let a0 = if a == i {
            last
        } else {
            a
        };
        let b0 = if b == i {
            last
        } else {
            b
        };
        assert(after[a] == m.slots[a0]);
        assert(after[b] == m.slots[b0]);
    }
    if after.contains(m.slots[i]) {
        let a = choose|a: int| 0 <= a < after.len() && after[a] == m.slots[i];
        let a0 = if a == i {
            last
        } else {
            a
        };
        assert(after[a] == m.slots[a0]);
    }
}

/// The index of the world's entities.
pub struct World {
    slots: Vec<EntityId>,
    players: Vec<EntityId>,
}

impl View for World {
    type V = WorldModel;

    closed spec fn view(&self) -> WorldModel {
        WorldModel { slots: self.slots@, players: self.players@ }
    }
}

impl World {
    #[verifier::type_invariant]
    spec fn inv(self) -> bool {
        self@.wf()
    }

    /// The index of a world with nothing in it.
    pub fn new() -> (w: Self)
        ensures
            w@ == WorldModel::empty(),
            w@.wf(),
    {
        let w = World { slots: Vec::new(), players: Vec::new() };
        assert(w@.slots =~= Seq::<EntityId>::empty());
        assert(w@.players =~= Seq::<EntityId>::empty());
        w
    }

    /// How many entities the world holds.
    pub fn len(&self) -> (n: usize)
        ensures
            n == self@.slots.len(),
    {
        self.slots.len()
    }

    /// The players, in the order in which they were added.
    pub fn player_list(&self) -> (p: &Vec<EntityId>)
        ensures
            p@ == self@.players,
    {
        &self.players
    }

    /// The place of `id` in the list, if it is in the world.
    pub fn index_of(&self, id: EntityId) -> (r: Option<usize>)
        ensures
            self@.wf(),
            match r {
                Some(i) => self@.index_of(id) == Some(i as int) && i < self@.slots.len()
                    && self@.slots[i as int] == id,
                None => self@.index_of(id) is None,
            },
    {
        proof {
            use_type_invariant(self);
        }
        let mut i: usize = 0;
        while i < self.slots.len()
            invariant
                i <= self.slots@.len(),
                self@.slots == self.slots@,
                self.slots@.no_duplicates(),
                forall|k: int| 0 <= k < i ==> self.slots@[k] != id,
            decreases self.slots@.len() - i,
        {
            if self.slots[i] == id {
                proof {
                    assert(self.slots@.contains(id));
                    let j = self.slots@.index_of(id);
                    assert(self.slots@[j] == id);
                }
                return Some(i);
            }
            i += 1;
        }
        None
    }

    /// Adds `id` at the end of the list and tells its place; an entity
    /// that is in the world already is not added again.
    pub fn add(&mut self, id: EntityId) -> (r: Option<usize>)
        ensures
            final(self)@.wf(),
            final(self)@ == old(self)@.add(id),
            match r {
                Some(i) => !old(self)@.slots.contains(id) && i == old(self)@.slots.len(),
                None => old(self)@.slots.contains(id),
            },
    {
        proof {
            use_type_invariant(&*self);
        }
        match self.index_of(id) {
            Some(_) => None,
            None => {
                let mut slots: Vec<EntityId> = Vec::new();
                std::mem::swap(&mut slots, &mut self.slots);
                let at = slots.len();
                slots.push(id);
                assert(slots@.no_duplicates()) by {
                    assert forall|a: int, b: int|
                        0 <= a < slots@.len() && 0 <= b < slots@.len() && a != b implies slots@[a]
                        != slots@[b] by {
                        if a < at && b < at {
                        } else if a < at {
                            assert(old(self)@.slots.contains(old(self)@.slots[a]));
                        } else {
                            assert(old(self)@.slots.contains(old(self)@.slots[b]));
                        }
                    }
                }
                self.slots = slots;
                Some(at)
            },
        }
    }

    /// Notes that `id` is a player.
    pub fn add_player(&mut self, id: EntityId)
        ensures
            final(self)@.wf(),
            final(self)@ == (WorldModel { players: old(self)@.players.push(id), ..old(self)@ }),
    {
        proof {
            use_type_invariant(&*self);
        }
        let mut players: Vec<EntityId> = Vec::new();
        std::mem::swap(&mut players, &mut self.players);
        players.push(id);
        self.players = players;
    }

    /// Takes `id` out of the world and tells the place it had, which the
    /// last entity of the list has taken unless `id` was the last itself.
    /// The states kept beside the index follow by moving their last state
    /// to that place.
    pub fn remove_entity(&mut self, id: EntityId) -> (r: Option<usize>)
        ensures
            final(self)@.wf(),
            final(self)@ == old(self)@.remove(id),
            match r {
                Some(i) => old(self)@.index_of(id) == Some(i as int),
                None => old(self)@.index_of(id) is None,
            },
    {
        proof {
            use_type_invariant(&*self);
        }
        let found = self.index_of(id);
        let mut players: Vec<EntityId> = Vec::new();
        std::mem::swap(&mut players, &mut self.players);
        let kept = Self::strike(&players, id);
        self.players = kept;
        match found {
            Some(index) => {
                let mut slots: Vec<EntityId> = Vec::new();
                std::mem::swap(&mut slots, &mut self.slots);
                let _ = slots.swap_remove(index);
                proof {
                    lemma_vacate_wf(old(self)@, index as int);
                    assert(slots@ =~= old(self)@.vacate(index as int));
                }
                self.slots = slots;
            },
            None => {},
        }
        found
    }

    /// Forgets every entity and every player.
    pub fn clear(&mut self)
        ensures
            final(self)@ == WorldModel::empty(),
    {
        let w = World::new();
        *self = w;
    }

    fn strike(list: &Vec<EntityId>, id: EntityId) -> (kept: Vec<EntityId>)
        ensures
            kept@ == without(list@, id),
    {
        let mut kept: Vec<EntityId> = Vec::new();
        let mut i: usize = 0;
        assert(list@.subrange(0, 0) =~= Seq::<EntityId>::empty());
        while i < list.len()
            invariant
                i <= list@.len(),
                kept@ == without(list@.subrange(0, i as int), id),
            decreases list@.len() - i,
        {
            proof {
                let next = list@.subrange(0, i + 1);
                assert(next.drop_last() =~= list@.subrange(0, i as int));
                assert(next.last() == list@[i as int]);
            }
            if list[i] != id {
                kept.push(list[i]);
            }
            i += 1;
        }
        assert(list@.subrange(0, i as int) =~= list@);
        kept
    }
}

} // verus!
