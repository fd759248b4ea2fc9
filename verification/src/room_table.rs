//! The rooms of a host, each under its own name.

use vstd::prelude::*;

use crate::ids::{ConnectionId, RoomId};
use crate::room::{Room, RoomView};

verus! {

/// Rooms by name. No two rooms bear the same name.
#[derive(Debug)]
pub struct RoomTable {
    rooms: Vec<Room>,
}

/// The rooms of a list by name.
spec fn by_name(rooms: Seq<Room>) -> Map<Seq<char>, RoomView>
    decreases rooms.len(),
{
    if rooms.len() == 0 {
        Map::empty()
    } else {
        by_name(rooms.drop_last()).insert(rooms.last().id@, rooms.last()@)
    }
}

/// The list holds each of the rooms once, and nothing else.
pub open spec fn lists_rooms(list: Seq<Room>, rooms: Map<Seq<char>, RoomView>) -> bool {
    &&& list.len() == rooms.len()
    &&& forall|i: int|
        0 <= i < list.len() ==> rooms.contains_key((#[trigger] list[i])@.id) && list[i]@
            == rooms[list[i]@.id]
    &&& forall|i: int, j: int|
        0 <= i < list.len() && 0 <= j < list.len() && i != j ==> (#[trigger] list[i])@.id != (
        #[trigger] list[j])@.id
}

/// No two rooms of a list bear the same name.
spec fn distinct(rooms: Seq<Room>) -> bool {
    forall|i: int, j: int|
        0 <= i < rooms.len() && 0 <= j < rooms.len() && i != j ==> (#[trigger] rooms[i]).id@ != (
        #[trigger] rooms[j]).id@
}

/// The names in the map are those of the rooms, and each leads to its room.
proof fn lemma_by_name(rooms: Seq<Room>)
    requires
        distinct(rooms),
    ensures
        by_name(rooms).dom().finite(),
        by_name(rooms).len() == rooms.len(),
        forall|i: int|
            0 <= i < rooms.len() ==> by_name(rooms).contains_key((#[trigger] rooms[i]).id@)
                && by_name(rooms)[rooms[i].id@] == rooms[i]@,
        forall|name: Seq<char>| #[trigger]
            by_name(rooms).contains_key(name) ==> exists|i: int|
                0 <= i < rooms.len() && (#[trigger] rooms[i]).id@ == name,
    decreases rooms.len(),
{
    if rooms.len() > 0 {
        let before = rooms.drop_last();
        let last = rooms.last();
        assert forall|i: int, j: int|
            0 <= i < before.len() && 0 <= j < before.len() && i != j implies (
        #[trigger] before[i]).id@ != (#[trigger] before[j]).id@ by {
            assert(rooms[i].id@ != rooms[j].id@);
        }
        lemma_by_name(before);
        assert(!by_name(before).contains_key(last.id@)) by {
            if by_name(before).contains_key(last.id@) {
                let k = choose|k: int|
                    0 <= k < before.len() && (#[trigger] before[k]).id@ == last.id@;
                assert(rooms[k].id@ == rooms[rooms.len() - 1].id@);
            }
        }
        assert forall|i: int| 0 <= i < rooms.len() implies by_name(rooms).contains_key(
            (#[trigger] rooms[i]).id@,
        ) && by_name(rooms)[rooms[i].id@] == rooms[i]@ by {
            if i < before.len() {
                assert(before[i] == rooms[i]);
                assert(by_name(before).contains_key(before[i].id@));
                assert(rooms[i].id@ != rooms[rooms.len() - 1].id@);
            }
        }
        assert forall|name: Seq<char>| #[trigger]
            by_name(rooms).contains_key(name) implies exists|i: int|
            0 <= i < rooms.len() && (#[trigger] rooms[i]).id@ == name by {
            if by_name(before).contains_key(name) {
                let k = choose|k: int| 0 <= k < before.len() && (#[trigger] before[k]).id@ == name;
                assert(rooms[k].id@ == name);
            } else {
                assert(rooms[rooms.len() - 1].id@ == name);
            }
        }
    }
}

/// Replacing a room by another of the same name replaces it in the map.
proof fn lemma_by_name_update(rooms: Seq<Room>, i: int, room: Room)
    requires
        distinct(rooms),
        0 <= i < rooms.len(),
        room.id@ == rooms[i].id@,
    ensures
        distinct(rooms.update(i, room)),
        by_name(rooms.update(i, room)) == by_name(rooms).insert(room.id@, room@),
{
    let after = rooms.update(i, room);
    assert(distinct(after)) by {
        assert forall|a: int, b: int|
            0 <= a < after.len() && 0 <= b < after.len() && a != b implies (
        #[trigger] after[a]).id@ != (#[trigger] after[b]).id@ by {
            assert(rooms[a].id@ != rooms[b].id@);
        }
    }
    lemma_by_name(rooms);
    lemma_by_name(after);
    let expected = by_name(rooms).insert(room.id@, room@);
    assert forall|name: Seq<char>| by_name(after).contains_key(name) <==> #[trigger]
        expected.contains_key(name) by {
        if by_name(after).contains_key(name) {
            let k = choose|k: int| 0 <= k < after.len() && (#[trigger] after[k]).id@ == name;
            assert(rooms[k].id@ == name);
        }
        if expected.contains_key(name) {
            if by_name(rooms).contains_key(name) {
                let k = choose|k: int| 0 <= k < rooms.len() && (#[trigger] rooms[k]).id@ == name;
                assert(after[k].id@ == name);
            } else {
                assert(after[i].id@ == name);
            }
        }
    }
    assert forall|name: Seq<char>| by_name(after).contains_key(name) implies by_name(after)[name]
        == #[trigger] expected[name] by {
        let k = choose|k: int| 0 <= k < after.len() && (#[trigger] after[k]).id@ == name;
        assert(rooms[k].id@ == name);
        if k != i {
            assert(rooms[k].id@ != rooms[i].id@);
        }
    }
    assert(by_name(after) =~= expected);
}

/// Taking a room out of the list takes it out of the map.
proof fn lemma_by_name_remove(rooms: Seq<Room>, i: int)
    requires
        distinct(rooms),
        0 <= i < rooms.len(),
    ensures
        distinct(rooms.remove(i)),
        by_name(rooms.remove(i)) == by_name(rooms).remove(rooms[i].id@),
{
    let after = rooms.remove(i);
    assert forall|a: int| 0 <= a < after.len() implies (#[trigger] after[a]) == rooms[if a < i {
        a
    } else {
        a + 1
    }] by {}
    assert(distinct(after)) by {
        assert forall|a: int, b: int|
            0 <= a < after.len() && 0 <= b < after.len() && a != b implies (
        #[trigger] after[a]).id@ != (#[trigger] after[b]).id@ by {
            let x = if a < i {
                a
            } else {
                a + 1
            };
            let y = if b < i {
                b
            } else {
                b + 1
            };
            assert(rooms[x].id@ != rooms[y].id@);
        }
    }
    lemma_by_name(rooms);
    lemma_by_name(after);
    let gone = rooms[i].id@;
    let expected = by_name(rooms).remove(gone);
    assert forall|name: Seq<char>| by_name(after).contains_key(name) <==> #[trigger]
        expected.contains_key(name) by {
        if by_name(after).contains_key(name) {
            let k = choose|k: int| 0 <= k < after.len() && (#[trigger] after[k]).id@ == name;
            let x = if k < i {
                k
            } else {
                k + 1
            };
            assert(rooms[x].id@ == name);
            assert(rooms[x].id@ != rooms[i].id@);
        }
        if expected.contains_key(name) {
            let k = choose|k: int| 0 <= k < rooms.len() && (#[trigger] rooms[k]).id@ == name;
            let x = if k < i {
                k
            } else {
                k - 1
            };
            assert(after[x].id@ == name);
        }
    }
    assert forall|name: Seq<char>| by_name(after).contains_key(name) implies by_name(after)[name]
        == #[trigger] expected[name] by {
        let k = choose|k: int| 0 <= k < after.len() && (#[trigger] after[k]).id@ == name;
        let x = if k < i {
            k
        } else {
            k + 1
        };
        assert(rooms[x].id@ == name);
    }
    assert(by_name(after) =~= expected);
}

impl View for RoomTable {
    type V = Map<Seq<char>, RoomView>;

    closed spec fn view(&self) -> Map<Seq<char>, RoomView> {
        by_name(self.rooms@)
    }
}

impl RoomTable {
    /// No two rooms bear the same name.
    pub closed spec fn wf(&self) -> bool {
        distinct(self.rooms@)
    }

    /// No rooms.
    pub fn new() -> (t: RoomTable)
        ensures
            t.wf(),
            t@ == Map::<Seq<char>, RoomView>::empty(),
    {
        RoomTable { rooms: Vec::new() }
    }

    /// How many rooms there are.
    pub fn len(&self) -> (n: usize)
        requires
            self.wf(),
        ensures
            n == self@.len(),
    {
        proof {
            lemma_by_name(self.rooms@);
        }
        self.rooms.len()
    }

    /// Where the room of a name stands.
    fn find(&self, name: &RoomId) -> (r: Option<usize>)
        requires
            self.wf(),
        ensures
            match r {
                Some(i) => i < self.rooms@.len() && self.rooms@[i as int].id@ == name@
                    && self@.contains_key(name@) && self@[name@] == self.rooms@[i as int]@,
                None => !self@.contains_key(name@),
            },
    {
        let mut i: usize = 0;
        while i < self.rooms.len()
            invariant
                self.wf(),
                i <= self.rooms@.len(),
                forall|j: int| 0 <= j < i ==> (#[trigger] self.rooms@[j]).id@ != name@,
            decreases self.rooms@.len() - i,
        {
            if self.rooms[i].id == *name {
                proof {
                    lemma_by_name(self.rooms@);
                }
                return Some(i);
            }
            i += 1;
        }
        proof {
            lemma_by_name(self.rooms@);
        }
        None
    }

    /// The room of a name.
    pub fn get(&self, name: &RoomId) -> (r: Option<&Room>)
        requires
            self.wf(),
        ensures
            match r {
                Some(room) => self@.contains_key(name@) && room@ == self@[name@] && room.id@
                    == name@,
                None => !self@.contains_key(name@),
            },
    {
        match self.find(name) {
            Some(i) => Some(&self.rooms[i]),
            None => None,
        }
    }

    /// Adds a room under a name that is not taken.
    pub fn insert(&mut self, room: Room)
        requires
            old(self).wf(),
            !old(self)@.contains_key(room.id@),
        ensures
            final(self).wf(),
            final(self)@ == old(self)@.insert(room.id@, room@),
    {
        proof {
            lemma_by_name(self.rooms@);
        }
        let ghost before = self.rooms@;
        self.rooms.push(room);
        proof {
            let after = self.rooms@;
            assert(after.drop_last() =~= before);
            assert forall|i: int, j: int|
                0 <= i < after.len() && 0 <= j < after.len() && i != j implies (
            #[trigger] after[i]).id@ != (#[trigger] after[j]).id@ by {
                if i < before.len() {
                    assert(before[i] == after[i]);
                    assert(by_name(before).contains_key(before[i].id@));
                }
                if j < before.len() {
                    assert(before[j] == after[j]);
                    assert(by_name(before).contains_key(before[j].id@));
                }
            }
        }
    }

    /// Takes the room of a name out.
    pub fn remove(&mut self, name: &RoomId)
        requires
            old(self).wf(),
        ensures
            final(self).wf(),
            final(self)@ == old(self)@.remove(name@),
    {
        match self.find(name) {
            Some(i) => {
                proof {
                    lemma_by_name_remove(self.rooms@, i as int);
                }
                let _ = self.rooms.remove(i);
            },
            None => {
                assert(self@ =~= self@.remove(name@));
            },
        }
    }

    /// Puts a traveler into the room of a name, which has to exist and not to be full.
    pub fn add_traveler(&mut self, name: &RoomId, traveler: ConnectionId)
        requires
            old(self).wf(),
            old(self)@.contains_key(name@),
            old(self)@[name@].wf(),
            !old(self)@[name@].full(),
        ensures
            final(self).wf(),
            final(self)@ == old(self)@.insert(name@, old(self)@[name@].joined(traveler)),
    {
        if let Some(i) = self.find(name) {
            let ghost before = self.rooms@;
            self.rooms[i].add_traveler(traveler);
            proof {
                let room = self.rooms@[i as int];
                assert(self.rooms@ =~= before.update(i as int, room));
                lemma_by_name_update(before, i as int, room);
            }
        }
    }

    /// Takes a traveler out of the room of a name, which has to exist, and gives
    /// the new host, where the room passes to one.
    pub fn remove_traveler(&mut self, name: &RoomId, traveler: ConnectionId) -> (new_host: Option<
        ConnectionId,
    >)
        requires
            old(self).wf(),
            old(self)@.contains_key(name@),
            old(self)@[name@].wf(),
        ensures
            final(self).wf(),
            final(self)@ == old(self)@.insert(name@, old(self)@[name@].left(traveler)),
            final(self)@[name@].wf(),
            new_host == (if old(self)@[name@].migrates(traveler) {
                Some(final(self)@[name@].host)
            } else {
                None
            }),
    {
        if let Some(i) = self.find(name) {
            let ghost before = self.rooms@;
            let new_host = self.rooms[i].remove_traveler(traveler);
            proof {
                let room = self.rooms@[i as int];
                assert(self.rooms@ =~= before.update(i as int, room));
                lemma_by_name_update(before, i as int, room);
            }
            new_host
        } else {
            None
        }
    }

    /// All rooms, each once.
    pub fn to_vec(&self) -> (v: Vec<Room>)
        requires
            self.wf(),
        ensures
            lists_rooms(v@, self@),
    {
        proof {
            lemma_by_name(self.rooms@);
        }
        let mut v: Vec<Room> = Vec::new();
        let mut i: usize = 0;
        while i < self.rooms.len()
            invariant
                i <= self.rooms@.len(),
                v@.len() == i,
                forall|j: int| 0 <= j < i ==> (#[trigger] v@[j])@ == self.rooms@[j]@,
            decreases self.rooms@.len() - i,
        {
            v.push(self.rooms[i].clone());
            i += 1;
        }
        assert forall|a: int, b: int| 0 <= a < v@.len() && 0 <= b < v@.len() && a != b implies (
        #[trigger] v@[a])@.id != (#[trigger] v@[b])@.id by {
            assert(self.rooms@[a].id@ != self.rooms@[b].id@);
        }
        v
    }
}

} // verus!
